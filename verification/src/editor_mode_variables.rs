//! State of the two screens of the editor: the project chooser and the
//! main editing screen.

use vstd::prelude::*;

pub mod main;

verus! {

/// Which screen is shown, with its state.
pub enum EditorMode {
    Project(Project),
    Main(main::Main),
}

/// State of the project chooser: the "new project" and "delete project"
/// windows and their inputs.
pub struct Project {
    pub new_project_window: bool,
    pub new_project_label: String,
    pub selected_project_before_new: Option<String>,
    pub create_new_project_with_cargo_new: bool,
    pub del_proj_win: bool,
    pub del_entire_proj_checkbox: bool,
}

impl Project {
    /// No window open, an empty label, no remembered project; new projects
    /// are made with `cargo new` and deleting removes the whole directory.
    pub fn init() -> (project: Self)
        ensures
            !project.new_project_window,
            project.new_project_label@ == Seq::<char>::empty(),
            project.selected_project_before_new is None,
            project.create_new_project_with_cargo_new,
            !project.del_proj_win,
            project.del_entire_proj_checkbox,
    {
        Self {
            new_project_window: false,
            new_project_label: String::new(),
            selected_project_before_new: None,
            create_new_project_with_cargo_new: true,
            del_proj_win: false,
            del_entire_proj_checkbox: true,
        }
    }
}

} // verus!
