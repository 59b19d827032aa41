//! The list of projects the editor knows, of which at most one is the
//! project being worked on.

use vstd::prelude::*;

use crate::editor_mode_variables::Project as ProjectWindow;

verus! {

/// Whether a project is a 2D or a 3D game.
#[derive(PartialEq, Eq, Structural, Clone, Copy, Debug)]
pub enum GameTypeDimensions {
    D2,
    D3,
}

/// A project: its name, its directory, its kind of game, and whether it is
/// the selected one.
pub struct Project {
    pub name: String,
    pub dir: String,
    pub game_type: GameTypeDimensions,
    pub status: bool,
}

/// `p` with its selection flag set to `status`.
pub open spec fn with_status(p: Project, status: bool) -> Project {
    Project { name: p.name, dir: p.dir, game_type: p.game_type, status }
}

/// The list after choosing the position `choice_true`: positions are
/// compared after truncation to 16 bits.
pub open spec fn chosen(s: Seq<Project>, choice_true: u16) -> Seq<Project> {
    Seq::new(s.len(), |i: int| with_status(s[i], i % 65536 == choice_true as int))
}

/// Index of the first selected project, if any.
pub open spec fn first_selected(s: Seq<Project>) -> Option<int>
    decreases s.len(),
{
    if s.len() == 0 {
        None
    } else if s[0].status {
        Some(0)
    } else {
        match first_selected(s.drop_first()) {
            Some(i) => Some(i + 1),
            None => None,
        }
    }
}

/// The first selected project is selected and none before it is.
pub proof fn lemma_first_selected(s: Seq<Project>)
    ensures
        first_selected(s) matches Some(i) ==> 0 <= i < s.len() && s[i].status && forall|j: int| 0 <= j < i ==> !(#[trigger] s[j]).status,
        first_selected(s) is None ==> forall|j: int| 0 <= j < s.len() ==> !(#[trigger] s[j]).status,
    decreases s.len(),
{
    if s.len() > 0 && !s[0].status {
        lemma_first_selected(s.drop_first());
        assert forall|j: int| 1 <= j < s.len() implies s[j] == s.drop_first()[j - 1] by {}
    }
}

/// The directory of the first selected project, if any.
pub fn return_selected_dir(projects: &[Project]) -> (dir: Option<&String>)
    ensures
        match first_selected(projects@) {
            Some(i) => dir == Some(&projects@[i].dir),
            None => dir is None,
        },
{
    let n = projects.len();
    let mut i: usize = 0;
    while i < n
        invariant
            n == projects@.len(),
            i <= n,
            forall|j: int| 0 <= j < i ==> !(#[trigger] projects@[j]).status,
        decreases n - i,
    {
        if projects[i].status {
            proof {
                lemma_first_selected(projects@);
            }
            return Some(&projects[i].dir);
        }
        i += 1;
    }
    proof {
        lemma_first_selected(projects@);
    }
    None
}

/// Selects the projects whose position equals `choice_true` (truncated to
/// 16 bits) and deselects all others.
pub fn change_choice(projects: &mut Vec<Project>, choice_true: u16)
    ensures
        final(projects)@ == chosen(old(projects)@, choice_true),
        final(projects)@.len() == old(projects)@.len(),
        forall|j: int|
            0 <= j < old(projects)@.len() ==> {
                &&& (#[trigger] final(projects)@[j]).status == (j % 65536 == choice_true as int)
                &&& final(projects)@[j].name == old(projects)@[j].name
                &&& final(projects)@[j].dir == old(projects)@[j].dir
                &&& final(projects)@[j].game_type == old(projects)@[j].game_type
            },
{
    let n = projects.len();
    let mut i: usize = 0;
    while i < n
        invariant
            n == projects@.len(),
            n == old(projects)@.len(),
            i <= n,
            forall|j: int| 0 <= j < i ==> #[trigger] projects@[j] == chosen(old(projects)@, choice_true)[j],
            forall|j: int| i <= j < n ==> #[trigger] projects@[j] == old(projects)@[j],
        decreases n - i,
    {
        projects[i].status = (i % 65536) as u16 == choice_true;
        i += 1;
    }
    assert(projects@ =~= chosen(old(projects)@, choice_true));
}

/// Selects the last project, deselects all others, and gives back a copy
/// of its directory.
pub fn select_last(projects: &mut Vec<Project>) -> (dir: String)
    requires
        old(projects)@.len() > 0,
    ensures
        final(projects)@.len() == old(projects)@.len(),
        forall|i: int| 0 <= i < old(projects)@.len() ==> #[trigger] final(projects)@[i] == with_status(old(projects)@[i], i == old(projects)@.len() - 1),
        dir == old(projects)@.last().dir,
{
    let n = projects.len();
    let last = n - 1;
    let mut i: usize = 0;
    while i < n
        invariant
            n == projects@.len(),
            n == old(projects)@.len(),
            last == n - 1,
            i <= n,
            forall|j: int| 0 <= j < i ==> #[trigger] projects@[j] == with_status(old(projects)@[j], j == last),
            forall|j: int| i <= j < n ==> #[trigger] projects@[j] == old(projects)@[j],
        decreases n - i,
    {
        projects[i].status = i == last;
        i += 1;
    }
    projects[last].dir.clone()
}

/// Adds `project` at the end of the list and makes it the only selected one.
pub fn begin_new_project(projects: &mut Vec<Project>, project: Project)
    ensures
        final(projects)@ == chosen(old(projects)@.push(project), (old(projects)@.len() % 65536) as u16),
{
    projects.push(project);
    let len = ((projects.len() - 1) % 65536) as u16;
    change_choice(projects, len);
}

/// Takes back the project added last (the new project being cancelled).
pub fn cancel_new_project(projects: &mut Vec<Project>) -> (removed: Option<Project>)
    ensures
        old(projects)@.len() > 0 ==> final(projects)@ == old(projects)@.drop_last() && removed == Some(old(projects)@.last()),
        old(projects)@.len() == 0 ==> final(projects)@ == old(projects)@ && removed is None,
{
    projects.pop()
}

/// Appends `/` and `label` to the directory of the first selected project
/// and gives back its index; changes nothing when none is selected.
pub fn append_to_selected_dir(projects: &mut Vec<Project>, label: &str) -> (idx: Option<usize>)
    ensures
        idx == match first_selected(old(projects)@) {
            Some(i) => Some(i as usize),
            None => None::<usize>,
        },
        final(projects)@.len() == old(projects)@.len(),
        forall|j: int| 0 <= j < old(projects)@.len() && Some(j) != first_selected(old(projects)@) ==> #[trigger] final(projects)@[j] == old(projects)@[j],
        idx matches Some(i) ==> {
            &&& final(projects)@[i as int].dir@ == old(projects)@[i as int].dir@ + "/"@ + label@
            &&& final(projects)@[i as int].name == old(projects)@[i as int].name
            &&& final(projects)@[i as int].game_type == old(projects)@[i as int].game_type
            &&& final(projects)@[i as int].status == old(projects)@[i as int].status
        },
{
    proof {
        lemma_first_selected(projects@);
    }
    let n = projects.len();
    let mut i: usize = 0;
    while i < n
        invariant
            n == projects@.len(),
            projects@ == old(projects)@,
            i <= n,
            forall|j: int| 0 <= j < i ==> !(#[trigger] projects@[j]).status,
        decreases n - i,
    {
        if projects[i].status {
            proof {
                reveal_strlit("/");
                lemma_first_selected(projects@);
            }
            projects[i].dir.append("/");
            projects[i].dir.append(label);
            return Some(i);
        }
        i += 1;
    }
    None
}

/// Removes the first selected project and gives it back; changes nothing
/// when none is selected.
pub fn remove_selected(projects: &mut Vec<Project>) -> (removed: Option<Project>)
    ensures
        match first_selected(old(projects)@) {
            Some(i) => final(projects)@ == old(projects)@.remove(i) && removed == Some(old(projects)@[i]),
            None => final(projects)@ == old(projects)@ && removed is None,
        },
{
    proof {
        lemma_first_selected(projects@);
    }
    let n = projects.len();
    let mut i: usize = 0;
    while i < n
        invariant
            n == projects@.len(),
            projects@ == old(projects)@,
            i <= n,
            forall|j: int| 0 <= j < i ==> !(#[trigger] projects@[j]).status,
        decreases n - i,
    {
        if projects[i].status {
            proof {
                lemma_first_selected(projects@);
            }
            let p = projects.remove(i);
            return Some(p);
        }
        i += 1;
    }
    None
}

/// The state of the project chooser after a frame of the delete window:
/// the window stays open only when neither button was clicked.
pub open spec fn after_delete_window(old_state: ProjectWindow, yes: bool, cancel: bool) -> ProjectWindow {
    ProjectWindow {
        new_project_window: old_state.new_project_window,
        new_project_label: old_state.new_project_label,
        selected_project_before_new: old_state.selected_project_before_new,
        create_new_project_with_cargo_new: old_state.create_new_project_with_cargo_new,
        del_proj_win: old_state.del_proj_win && !yes && !cancel,
        del_entire_proj_checkbox: old_state.del_entire_proj_checkbox,
    }
}

/// One frame of the window that confirms deleting the selected project.
/// The window is about the first selected project; without one nothing
/// happens. "Cancel" and "Yes" both close the window; "Yes" also removes
/// the project from the list, and gives back its directory to be removed
/// from disk when "delete entire project dir" is ticked.
pub fn confirm_delete(state: &mut ProjectWindow, projects: &mut Vec<Project>, yes: bool, cancel: bool) -> (remove_dir: Option<String>)
    ensures
        match first_selected(old(projects)@) {
            None => {
                &&& *final(state) == *old(state)
                &&& final(projects)@ == old(projects)@
                &&& remove_dir is None
            },
            Some(i) => {
                &&& *final(state) == after_delete_window(*old(state), yes, cancel)
                &&& final(projects)@ == if yes {
                    old(projects)@.remove(i)
                } else {
                    old(projects)@
                }
                &&& remove_dir == if yes && old(state).del_entire_proj_checkbox {
                    Some(old(projects)@[i].dir)
                } else {
                    None::<String>
                }
            },
        },
{
    proof {
        lemma_first_selected(projects@);
    }
    let n = projects.len();
    let mut i: usize = 0;
    while i < n
        invariant
            n == projects@.len(),
            projects@ == old(projects)@,
            *state == *old(state),
            i <= n,
            forall|j: int| 0 <= j < i ==> !(#[trigger] projects@[j]).status,
        decreases n - i,
    {
        if projects[i].status {
            proof {
                lemma_first_selected(projects@);
            }
            let remove_project_dir = projects[i].dir.clone();
            if cancel {
                state.del_proj_win = false;
            }
            if yes {
                state.del_proj_win = false;
                projects.remove(i);
                if state.del_entire_proj_checkbox {
                    return Some(remove_project_dir);
                }
            }
            return None;
        }
        i += 1;
    }
    None
}

/// After choosing position `c`, the project at position `j` is selected
/// exactly when `j` equals `c` modulo 65536, and keeps its name, directory
/// and kind; in a list of at most 65536 projects at most one is selected,
/// and it is the one at `c` when `c` is a position of the list.
pub proof fn lemma_chosen_projects(s: Seq<Project>, c: u16)
    ensures
        chosen(s, c).len() == s.len(),
        forall|j: int|
            0 <= j < s.len() ==> {
                &&& (#[trigger] chosen(s, c)[j]).status == (j % 65536 == c as int)
                &&& chosen(s, c)[j].name == s[j].name
                &&& chosen(s, c)[j].dir == s[j].dir
                &&& chosen(s, c)[j].game_type == s[j].game_type
            },
        s.len() <= 65536 ==> forall|j: int, k: int|
            0 <= j < s.len() && 0 <= k < s.len() && (#[trigger] chosen(s, c)[j]).status && (#[trigger] chosen(s, c)[k]).status ==> j == k,
        (c as int) < s.len() ==> chosen(s, c)[c as int].status,
{
}

/// After choosing a position that exists (in a list short enough for
/// positions not to wrap), that project is the selected one.
pub proof fn lemma_selected_after_change_choice(s: Seq<Project>, choice_true: u16)
    requires
        choice_true < s.len(),
        s.len() <= 65536,
    ensures
        first_selected(chosen(s, choice_true)) == Some(choice_true as int),
{
    let c = chosen(s, choice_true);
    lemma_first_selected(c);
    match first_selected(c) {
        Some(i) => {
            assert(c[choice_true as int].status);
            assert(i == choice_true as int);
        },
        None => {
            assert(c[choice_true as int].status);
        },
    }
}

/// A project added as new (to a list short enough for positions not to
/// wrap) is the selected one.
pub proof fn lemma_new_project_selected(s: Seq<Project>, project: Project)
    requires
        s.len() < 65536,
    ensures
        first_selected(chosen(s.push(project), (s.len() % 65536) as u16)) == Some(s.len() as int),
        chosen(s.push(project), (s.len() % 65536) as u16).last().dir == project.dir,
{
    lemma_selected_after_change_choice(s.push(project), s.len() as u16);
}

} // verus!
