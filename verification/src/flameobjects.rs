//! Objects of a scene ("flameobjects"): their kinds, labels and selection,
//! and how the editor creates, selects and deletes them.

use vstd::prelude::*;

use crate::text;

verus! {

/// Two-dimensional primitive shapes.
#[derive(PartialEq, Eq, Structural, Clone, Copy, Debug)]
pub enum Shape2D {
    Square,
    Triangle,
    Line,
}

/// Three-dimensional primitive shapes.
#[derive(PartialEq, Eq, Structural, Clone, Copy, Debug)]
pub enum Shape3D {
    Cube,
}

/// A shape of either dimension.
#[derive(PartialEq, Eq, Structural, Clone, Copy, Debug)]
pub enum Dimension {
    D2(Shape2D),
    D3(Shape3D),
}

/// Kinds of light.
#[derive(PartialEq, Eq, Structural, Clone, Copy, Debug)]
pub enum Light {
    Direction,
}

/// What an object is.
#[derive(PartialEq, Eq, Structural, Clone, Copy, Debug)]
pub enum ObjectType {
    Empty,
    Shape(Dimension),
    Light(Light),
}

/// The settings of an object that the editor's bookkeeping reads: its
/// label, the key under which the engine knows it, its kind, and the
/// blueprint it follows (the blueprint's label key and whether changes to
/// the blueprint are carried over to this object).
pub struct Settings {
    pub label: String,
    pub label_key: String,
    pub object_type: ObjectType,
    pub blueprint_key: Option<(String, bool)>,
}

impl Clone for Settings {
    fn clone(&self) -> (copy: Self)
        ensures
            copy == *self,
    {
        let blueprint_key = match &self.blueprint_key {
            Some(key) => Some((key.0.clone(), key.1)),
            None => None,
        };
        Settings {
            label: self.label.clone(),
            label_key: self.label_key.clone(),
            object_type: self.object_type,
            blueprint_key,
        }
    }
}

/// An object of a scene.
pub struct Flameobject {
    pub id: u16,
    pub selected: bool,
    pub visible: bool,
    pub settings: Settings,
}

impl Clone for Flameobject {
    fn clone(&self) -> (copy: Self)
        ensures
            copy == *self,
    {
        Flameobject {
            id: self.id,
            selected: self.selected,
            visible: self.visible,
            settings: self.settings.clone(),
        }
    }
}

/// A scene: its objects, the next free object id and the index of the
/// object the panels show.
pub struct Scene {
    pub flameobjects: Vec<Flameobject>,
    pub flameobject_highest_id: u16,
    pub flameobject_selected_parent_idx: u16,
}

/// An entry of the undo history: an object was created (its kind and id),
/// or an object was deleted (a copy of it).
pub enum Action {
    Create((ObjectType, u16)),
    Delete(Flameobject),
}

/// `o` with its selection flag set to `selected`.
pub open spec fn with_selected(o: Flameobject, selected: bool) -> Flameobject {
    Flameobject { id: o.id, selected, visible: o.visible, settings: o.settings }
}

/// Some object of `objs` has the label `label`.
pub open spec fn label_taken(objs: Seq<Flameobject>, label: Seq<char>) -> bool {
    exists|j: int| 0 <= j < objs.len() && (#[trigger] objs[j]).settings.label@ == label
}

/// `k` copies of the character '1'.
pub open spec fn ones(k: nat) -> Seq<char> {
    Seq::new(k, |_i: int| '1')
}

/// `label` is `base` followed by the fewest '1's that make it differ from
/// every label of `objs`.
pub open spec fn first_free_label(objs: Seq<Flameobject>, base: Seq<char>, label: Seq<char>) -> bool {
    exists|k: nat|
        {
            &&& label == base + #[trigger] ones(k)
            &&& !label_taken(objs, label)
            &&& forall|k2: nat| k2 < k ==> label_taken(objs, base + #[trigger] ones(k2))
        }
}

/// The longest label length in `objs`.
pub open spec fn max_label_len(objs: Seq<Flameobject>) -> nat
    decreases objs.len(),
{
    if objs.len() == 0 {
        0
    } else {
        let rest = max_label_len(objs.drop_last());
        let l = objs.last().settings.label@.len();
        if l > rest {
            l
        } else {
            rest
        }
    }
}

/// Index of the last selected object, if any.
pub open spec fn last_selected(objs: Seq<Flameobject>) -> Option<int>
    decreases objs.len(),
{
    if objs.len() == 0 {
        None
    } else if objs.last().selected {
        Some(objs.len() - 1)
    } else {
        last_selected(objs.drop_last())
    }
}

/// The objects of `objs` that are not selected, in their order.
pub open spec fn unselected(objs: Seq<Flameobject>) -> Seq<Flameobject>
    decreases objs.len(),
{
    if objs.len() == 0 {
        Seq::empty()
    } else if objs.last().selected {
        unselected(objs.drop_last())
    } else {
        unselected(objs.drop_last()).push(objs.last())
    }
}

/// The labels of the selected objects of `objs`, in their order.
pub open spec fn selected_labels(objs: Seq<Flameobject>) -> Seq<Seq<char>>
    decreases objs.len(),
{
    if objs.len() == 0 {
        Seq::empty()
    } else if objs.last().selected {
        selected_labels(objs.drop_last()).push(objs.last().settings.label@)
    } else {
        selected_labels(objs.drop_last())
    }
}

/// The settings a new object starts from: with a blueprint, its label,
/// label key and kind of object, marked as following that blueprint's label
/// with changes carried over; without one, the fresh object's own settings.
pub proof fn lemma_start_settings(fresh: Settings, bp: Settings)
    ensures
        start_settings(fresh, Some(bp)).label == bp.label,
        start_settings(fresh, Some(bp)).label_key == bp.label_key,
        start_settings(fresh, Some(bp)).object_type == bp.object_type,
        start_settings(fresh, Some(bp)).blueprint_key == Some((bp.label, true)),
        start_settings(fresh, None) == fresh,
{
}

/// An object follows a blueprint exactly when its blueprint key names that
/// blueprint's label key, as a whole string, and says changes carry over.
pub proof fn lemma_follows_blueprint(o: Flameobject, key: Seq<char>)
    ensures
        follows_blueprint(o, key) <==> ((o.settings.blueprint_key matches Some(bk) && bk.0@ == key && bk.1)),
{
}

/// Deleting keeps exactly the objects that are not selected, in order, and
/// reports the labels of exactly the selected ones, in order; nothing left
/// is selected.
pub proof fn lemma_delete_is_filter(objs: Seq<Flameobject>)
    ensures
        unselected(objs) == objs.filter(|o: Flameobject| !o.selected),
        selected_labels(objs) == objs.filter(|o: Flameobject| o.selected).map_values(|o: Flameobject| o.settings.label@),
        forall|k: int| 0 <= k < unselected(objs).len() ==> !(#[trigger] unselected(objs)[k]).selected,
    decreases objs.len(),
{
    reveal_with_fuel(Seq::<Flameobject>::filter, 1);
    if objs.len() > 0 {
        let rest = objs.drop_last();
        lemma_delete_is_filter(rest);
        let sel = objs.filter(|o: Flameobject| o.selected);
        let sel_rest = rest.filter(|o: Flameobject| o.selected);
        if objs.last().selected {
            assert(sel == sel_rest.push(objs.last()));
            assert(sel.map_values(|o: Flameobject| o.settings.label@) =~= sel_rest.map_values(
                |o: Flameobject| o.settings.label@,
            ).push(objs.last().settings.label@));
        } else {
            assert(sel == sel_rest);
        }
    }
    lemma_unselected_none_selected(objs);
}

/// After deleting the selected objects none of those left is selected, and
/// every object left was in the scene and not selected.
pub proof fn lemma_unselected_none_selected(objs: Seq<Flameobject>)
    ensures
        forall|i: int| 0 <= i < unselected(objs).len() ==> !(#[trigger] unselected(objs)[i]).selected,
        forall|i: int| 0 <= i < unselected(objs).len() ==> objs.contains(#[trigger] unselected(objs)[i]),
    decreases objs.len(),
{
    if objs.len() > 0 {
        let rest = objs.drop_last();
        lemma_unselected_none_selected(rest);
        assert forall|i: int| 0 <= i < unselected(objs).len() implies objs.contains(#[trigger] unselected(objs)[i]) by {
            if i < unselected(rest).len() {
                assert(unselected(objs)[i] == unselected(rest)[i]);
                let k = choose|k: int| 0 <= k < rest.len() && rest[k] == unselected(rest)[i];
                assert(objs[k] == rest[k]);
            } else {
                assert(objs[objs.len() - 1] == objs.last());
            }
        }
    }
}

/// No two objects of `objs` share a label.
pub open spec fn distinct_labels(objs: Seq<Flameobject>) -> bool {
    forall|i: int, j: int|
        0 <= i < objs.len() && 0 <= j < objs.len() && i != j ==> (#[trigger] objs[i]).settings.label@
            != (#[trigger] objs[j]).settings.label@
}

/// The objects of a scene right after an object was added to `objs`: the
/// old ones deselected, followed by the new one, selected.
pub open spec fn after_create(objs: Seq<Flameobject>, result: Seq<Flameobject>) -> bool {
    &&& result.len() == objs.len() + 1
    &&& forall|i: int| 0 <= i < objs.len() ==> #[trigger] result[i] == with_selected(objs[i], false)
    &&& result[objs.len() as int].selected
}

/// Deleting the selected objects right after creating one removes exactly
/// the created object; the others stay, in order, deselected.
pub proof fn lemma_delete_after_create(objs: Seq<Flameobject>, result: Seq<Flameobject>)
    requires
        after_create(objs, result),
    ensures
        unselected(result) == Seq::new(objs.len(), |i: int| with_selected(objs[i], false)),
{
    let t = result.drop_last();
    assert(result.last().selected);
    lemma_unselected_of_unselected(t);
    assert(t =~= Seq::new(objs.len(), |i: int| with_selected(objs[i], false)));
}

/// A list in which nothing is selected is its own unselected part.
proof fn lemma_unselected_of_unselected(objs: Seq<Flameobject>)
    requires
        forall|i: int| 0 <= i < objs.len() ==> !(#[trigger] objs[i]).selected,
    ensures
        unselected(objs) == objs,
    decreases objs.len(),
{
    if objs.len() > 0 {
        let rest = objs.drop_last();
        assert forall|i: int| 0 <= i < rest.len() implies !(#[trigger] rest[i]).selected by {
            assert(rest[i] == objs[i]);
        }
        lemma_unselected_of_unselected(rest);
        assert(objs[objs.len() - 1] == objs.last());
        assert(rest.push(objs.last()) =~= objs);
    }
}

/// Creating an object keeps the labels of a scene distinct.
pub proof fn lemma_create_keeps_labels_distinct(objs: Seq<Flameobject>, result: Seq<Flameobject>)
    requires
        distinct_labels(objs),
        result.len() == objs.len() + 1,
        forall|i: int| 0 <= i < objs.len() ==> #[trigger] result[i] == with_selected(objs[i], false),
        !label_taken(objs, result[objs.len() as int].settings.label@),
    ensures
        distinct_labels(result),
{
    let n = objs.len() as int;
    assert forall|i: int, j: int|
        0 <= i < result.len() && 0 <= j < result.len() && i != j implies (#[trigger] result[i]).settings.label@
            != (#[trigger] result[j]).settings.label@ by {
        if i < n && j < n {
            assert(result[i].settings == objs[i].settings);
            assert(result[j].settings == objs[j].settings);
        } else if i < n {
            assert(result[i].settings == objs[i].settings);
        } else {
            assert(result[j].settings == objs[j].settings);
        }
    }
}

/// Deleting the selected objects keeps the labels of a scene distinct.
pub proof fn lemma_delete_keeps_labels_distinct(objs: Seq<Flameobject>)
    requires
        distinct_labels(objs),
    ensures
        distinct_labels(unselected(objs)),
    decreases objs.len(),
{
    if objs.len() > 0 {
        let rest = objs.drop_last();
        assert forall|i: int, j: int|
            0 <= i < rest.len() && 0 <= j < rest.len() && i != j implies (#[trigger] rest[i]).settings.label@
                != (#[trigger] rest[j]).settings.label@ by {
            assert(rest[i] == objs[i] && rest[j] == objs[j]);
        }
        lemma_delete_keeps_labels_distinct(rest);
        lemma_unselected_none_selected(rest);
        if !objs.last().selected {
            let u = unselected(rest);
            let r = u.push(objs.last());
            assert forall|i: int, j: int|
                0 <= i < r.len() && 0 <= j < r.len() && i != j implies (#[trigger] r[i]).settings.label@
                    != (#[trigger] r[j]).settings.label@ by {
                if i < u.len() && j < u.len() {
                    assert(r[i] == u[i] && r[j] == u[j]);
                } else {
                    let k = if i < u.len() { i } else { j };
                    assert(r[k] == u[k]);
                    let m = choose|m: int| 0 <= m < rest.len() && rest[m] == u[k];
                    assert(objs[m] == rest[m]);
                    assert(objs[objs.len() - 1] == objs.last());
                }
            }
        }
    }
}

/// Every label in `objs` is at most `max_label_len(objs)` long.
proof fn lemma_max_label_len(objs: Seq<Flameobject>)
    ensures
        forall|j: int| 0 <= j < objs.len() ==> (#[trigger] objs[j]).settings.label@.len() <= max_label_len(objs),
    decreases objs.len(),
{
    if objs.len() > 0 {
        lemma_max_label_len(objs.drop_last());
        assert forall|j: int| 0 <= j < objs.len() implies (#[trigger] objs[j]).settings.label@.len() <= max_label_len(objs) by {
            if j < objs.len() - 1 {
                assert(objs[j] == objs.drop_last()[j]);
            }
        }
    }
}

/// The last selected index is selected and nothing after it is.
pub proof fn lemma_last_selected(objs: Seq<Flameobject>)
    ensures
        last_selected(objs) matches Some(i) ==> 0 <= i < objs.len() && objs[i].selected && forall|j: int| i < j < objs.len() ==> !(#[trigger] objs[j]).selected,
        last_selected(objs) is None ==> forall|j: int| 0 <= j < objs.len() ==> !(#[trigger] objs[j]).selected,
    decreases objs.len(),
{
    if objs.len() > 0 && !objs.last().selected {
        lemma_last_selected(objs.drop_last());
        assert forall|j: int| 0 <= j < objs.len() - 1 implies objs[j] == objs.drop_last()[j] by {}
    }
}

/// Whether any object is selected.
pub fn any_flameobject_selected(flameobjects: &[Flameobject]) -> (any: bool)
    ensures
        any == exists|i: int| 0 <= i < flameobjects@.len() && (#[trigger] flameobjects@[i]).selected,
{
    let n = flameobjects.len();
    let mut i: usize = 0;
    while i < n
        invariant
            n == flameobjects@.len(),
            i <= n,
            forall|j: int| 0 <= j < i ==> !(#[trigger] flameobjects@[j]).selected,
        decreases n - i,
    {
        if flameobjects[i].selected {
            return true;
        }
        i += 1;
    }
    false
}

/// Whether some object has the label `label`.
fn label_in(flameobjects: &Vec<Flameobject>, label: &String) -> (found: bool)
    ensures
        found == label_taken(flameobjects@, label@),
{
    let n = flameobjects.len();
    let mut i: usize = 0;
    while i < n
        invariant
            n == flameobjects@.len(),
            i <= n,
            forall|j: int| 0 <= j < i ==> (#[trigger] flameobjects@[j]).settings.label@ != label@,
        decreases n - i,
    {
        if flameobjects[i].settings.label == *label {
            return true;
        }
        i += 1;
    }
    false
}

/// Selects the object at `idx` and deselects every other one.
pub fn select_only(flameobjects: &mut Vec<Flameobject>, idx: usize)
    ensures
        final(flameobjects)@.len() == old(flameobjects)@.len(),
        forall|i: int| 0 <= i < old(flameobjects)@.len() ==> #[trigger] final(flameobjects)@[i] == with_selected(old(flameobjects)@[i], i == idx),
{
    let n = flameobjects.len();
    let mut i: usize = 0;
    while i < n
        invariant
            n == flameobjects@.len(),
            n == old(flameobjects)@.len(),
            i <= n,
            forall|j: int| 0 <= j < i ==> #[trigger] flameobjects@[j] == with_selected(old(flameobjects)@[j], j == idx),
            forall|j: int| i <= j < n ==> #[trigger] flameobjects@[j] == old(flameobjects)@[j],
        decreases n - i,
    {
        flameobjects[i].selected = i == idx;
        i += 1;
    }
}

/// Index of the last selected object, if any.
pub fn last_selected_index(flameobjects: &[Flameobject]) -> (idx: Option<usize>)
    ensures
        match idx {
            Some(i) => last_selected(flameobjects@) == Some(i as int),
            None => last_selected(flameobjects@) is None,
        },
{
    let n = flameobjects.len();
    let mut idx: Option<usize> = None;
    let mut i: usize = 0;
    while i < n
        invariant
            n == flameobjects@.len(),
            i <= n,
            match idx {
                Some(k) => last_selected(flameobjects@.take(i as int)) == Some(k as int),
                None => last_selected(flameobjects@.take(i as int)) is None,
            },
        decreases n - i,
    {
        assert(flameobjects@.take(i + 1).drop_last() =~= flameobjects@.take(i as int));
        if flameobjects[i].selected {
            idx = Some(i);
        }
        i += 1;
    }
    assert(flameobjects@.take(n as int) =~= flameobjects@);
    idx
}

/// Index of the first selected object, if any.
pub fn first_selected_index(flameobjects: &[Flameobject]) -> (idx: Option<usize>)
    ensures
        match idx {
            Some(i) => i < flameobjects@.len() && flameobjects@[i as int].selected && forall|j: int| 0 <= j < i ==> !(#[trigger] flameobjects@[j]).selected,
            None => forall|j: int| 0 <= j < flameobjects@.len() ==> !(#[trigger] flameobjects@[j]).selected,
        },
{
    let n = flameobjects.len();
    let mut i: usize = 0;
    while i < n
        invariant
            n == flameobjects@.len(),
            i <= n,
            forall|j: int| 0 <= j < i ==> !(#[trigger] flameobjects@[j]).selected,
        decreases n - i,
    {
        if flameobjects[i].selected {
            return Some(i);
        }
        i += 1;
    }
    None
}

/// `o` follows the blueprint whose label key is `key` and takes over its
/// changes.
pub open spec fn follows_blueprint(o: Flameobject, key: Seq<char>) -> bool {
    match o.settings.blueprint_key {
        Some(bk) => bk.0@ == key && bk.1,
        None => false,
    }
}

/// Indices, in increasing order, of the objects that follow the blueprint
/// whose label key is `key` and take over its changes.
pub fn blueprint_followers(flameobjects: &[Flameobject], key: &str) -> (followers: Vec<usize>)
    ensures
        forall|a: int, b: int| 0 <= a < b < followers@.len() ==> followers@[a] < followers@[b],
        forall|a: int| 0 <= a < followers@.len() ==> (#[trigger] followers@[a]) < flameobjects@.len(),
        forall|i: int| 0 <= i < flameobjects@.len() ==> (follows_blueprint(#[trigger] flameobjects@[i], key@) <==> followers@.contains(i as usize)),
        forall|i: int|
            0 <= i < flameobjects@.len() ==> (followers@.contains(i as usize) <==> ((#[trigger] flameobjects@[i]).settings.blueprint_key matches Some(bk) && bk.0@ == key@ && bk.1)),
{
    let n = flameobjects.len();
    let mut followers: Vec<usize> = Vec::new();
    let mut i: usize = 0;
    while i < n
        invariant
            n == flameobjects@.len(),
            i <= n,
            forall|a: int, b: int| 0 <= a < b < followers@.len() ==> followers@[a] < followers@[b],
            forall|a: int| 0 <= a < followers@.len() ==> (#[trigger] followers@[a]) < i,
            forall|j: int| 0 <= j < i ==> (follows_blueprint(#[trigger] flameobjects@[j], key@) <==> followers@.contains(j as usize)),
        decreases n - i,
    {
        let follows = match &flameobjects[i].settings.blueprint_key {
            Some(bk) => bk.1 && text::str_equal(bk.0.as_str(), key),
            None => false,
        };
        let ghost before = followers@;
        if follows {
            followers.push(i);
        }
        assert forall|j: int| 0 <= j < i + 1 implies (follows_blueprint(#[trigger] flameobjects@[j], key@) <==> followers@.contains(j as usize)) by {
            if j < i {
                if followers@.contains(j as usize) && !before.contains(j as usize) {
                    let k = choose|k: int| 0 <= k < followers@.len() && followers@[k] == j as usize;
                    assert(k == before.len());
                }
                if before.contains(j as usize) {
                    let k = choose|k: int| 0 <= k < before.len() && before[k] == j as usize;
                    assert(followers@[k] == j as usize);
                }
            } else {
                if follows {
                    assert(followers@[before.len() as int] == i);
                } else {
                    assert(followers@ == before);
                }
            }
        }
        i += 1;
    }
    followers
}

impl Scene {
    /// Records that the scene was just loaded from `current_scene`: that
    /// path becomes the project's last scene, and the label backup takes
    /// the label of the last selected object (it stays as it is when none
    /// is selected).
    pub fn record_loaded_scene(&self, current_scene: &String, last_scene_filepath: &mut String, string_backups_label: &mut String)
        ensures
            *final(last_scene_filepath) == *current_scene,
            *final(string_backups_label) == match last_selected(self.flameobjects@) {
                Some(i) => self.flameobjects@[i].settings.label,
                None => *old(string_backups_label),
            },
    {
        *last_scene_filepath = current_scene.clone();
        match last_selected_index(self.flameobjects.as_slice()) {
            Some(i) => {
                proof {
                    lemma_last_selected(self.flameobjects@);
                }
                *string_backups_label = self.flameobjects[i].settings.label.clone();
            },
            None => {},
        }
    }

    /// Points the panels at the last selected object (its index truncated to
    /// 16 bits); leaves the index as it is when nothing is selected.
    pub fn select_parent_from_flags(&mut self)
        ensures
            final(self).flameobjects == old(self).flameobjects,
            final(self).flameobject_highest_id == old(self).flameobject_highest_id,
            final(self).flameobject_selected_parent_idx == match last_selected(old(self).flameobjects@) {
                Some(i) => i as u16,
                None => old(self).flameobject_selected_parent_idx,
            },
    {
        match last_selected_index(self.flameobjects.as_slice()) {
            Some(i) => {
                self.flameobject_selected_parent_idx = i as u16;
            },
            None => {},
        }
    }

    /// A copy of the settings of the object the panels show, or `None` for
    /// a scene without objects.
    pub fn selected_settings(&self) -> (settings: Option<Settings>)
        requires
            self.flameobjects@.len() > 0 ==> self.flameobject_selected_parent_idx < self.flameobjects@.len(),
        ensures
            settings == if self.flameobjects@.len() > 0 {
                Some(self.flameobjects@[self.flameobject_selected_parent_idx as int].settings)
            } else {
                None::<Settings>
            },
    {
        if self.flameobjects.len() > 0 {
            Some(self.flameobjects[self.flameobject_selected_parent_idx as usize].settings.clone())
        } else {
            None
        }
    }

    /// Handles a click on the label of the object at `idx`: without shift
    /// it becomes the only selected object and the one the panels show;
    /// with shift its selection is toggled.
    pub fn click_label(&mut self, idx: usize, shift_held: bool)
        requires
            idx < old(self).flameobjects@.len(),
        ensures
            final(self).flameobjects@.len() == old(self).flameobjects@.len(),
            final(self).flameobject_highest_id == old(self).flameobject_highest_id,
            !shift_held ==> final(self).flameobject_selected_parent_idx == idx as u16,
            !shift_held ==> forall|i: int| 0 <= i < old(self).flameobjects@.len() ==> #[trigger] final(self).flameobjects@[i] == with_selected(old(self).flameobjects@[i], i == (idx as u16) as int),
            shift_held ==> final(self).flameobject_selected_parent_idx == old(self).flameobject_selected_parent_idx,
            shift_held ==> final(self).flameobjects@ == old(self).flameobjects@.update(idx as int, with_selected(old(self).flameobjects@[idx as int], !old(self).flameobjects@[idx as int].selected)),
    {
        if !shift_held {
            self.flameobject_selected_parent_idx = idx as u16;
            let parent = self.flameobject_selected_parent_idx as usize;
            select_only(&mut self.flameobjects, parent);
        } else {
            let flag = !self.flameobjects[idx].selected;
            self.flameobjects[idx].selected = flag;
            assert(self.flameobjects@ =~= old(self).flameobjects@.update(idx as int, with_selected(old(self).flameobjects@[idx as int], !old(self).flameobjects@[idx as int].selected)));
        }
    }
}

/// The settings a new object starts from: those of the blueprint (marked as
/// following it, with changes carried over) when there is one, else its own.
pub open spec fn start_settings(fresh: Settings, blueprint: Option<Settings>) -> Settings {
    match blueprint {
        Some(bp) => Settings {
            label: bp.label,
            label_key: bp.label_key,
            object_type: bp.object_type,
            blueprint_key: Some((bp.label, true)),
        },
        None => fresh,
    }
}

/// What creating an object gives back: the undo entry for it and a copy of
/// its settings.
pub struct Created {
    pub action: Action,
    pub settings: Settings,
}

/// Creation of objects and blueprints.
pub struct CreateNewFlameObject;

impl CreateNewFlameObject {
    /// Adds a new object at the end of the scene. It takes the next free id,
    /// its settings come from `blueprint` when one is given and from `fresh`
    /// otherwise, and its label gets as many '1's appended as it takes to
    /// differ from every existing label. It becomes the only selected object
    /// and the one the panels show.
    pub fn flameobject(scene: &mut Scene, fresh: Flameobject, blueprint: Option<&Settings>) -> (created: Created)
        requires
            old(scene).flameobject_highest_id < u16::MAX,
            old(scene).flameobjects@.len() < u16::MAX,
        ensures
            ({
                let n = old(scene).flameobjects@.len();
                let start = start_settings(fresh.settings, match blueprint { Some(b) => Some(*b), None => None });
                let new = final(scene).flameobjects@[n as int];
                &&& final(scene).flameobjects@.len() == n + 1
                &&& forall|i: int| 0 <= i < n ==> #[trigger] final(scene).flameobjects@[i] == with_selected(old(scene).flameobjects@[i], false)
                &&& new.id == old(scene).flameobject_highest_id
                &&& new.selected
                &&& new.visible == fresh.visible
                &&& new.settings.label_key == start.label_key
                &&& new.settings.object_type == start.object_type
                &&& new.settings.blueprint_key == start.blueprint_key
                &&& first_free_label(old(scene).flameobjects@, start.label@, new.settings.label@)
                &&& !label_taken(old(scene).flameobjects@, new.settings.label@)
                &&& final(scene).flameobject_highest_id == old(scene).flameobject_highest_id + 1
                &&& final(scene).flameobject_selected_parent_idx == n
                &&& created.action == Action::Create((new.settings.object_type, new.id))
                &&& created.settings == new.settings
            }),
            blueprint matches Some(bp) ==> {
                let new = final(scene).flameobjects@[old(scene).flameobjects@.len() as int];
                &&& new.settings.object_type == bp.object_type
                &&& new.settings.label_key == bp.label_key
                &&& new.settings.blueprint_key == Some((bp.label, true))
                &&& created.action == Action::Create((bp.object_type, old(scene).flameobject_highest_id))
            },
            blueprint is None ==> {
                let new = final(scene).flameobjects@[old(scene).flameobjects@.len() as int];
                &&& new.settings.object_type == fresh.settings.object_type
                &&& new.settings.label_key == fresh.settings.label_key
                &&& new.settings.blueprint_key == fresh.settings.blueprint_key
                &&& created.action == Action::Create((fresh.settings.object_type, old(scene).flameobject_highest_id))
            },
    {
        let n = scene.flameobjects.len();
        let id = scene.flameobject_highest_id;
        scene.flameobject_highest_id = id + 1;
        let mut settings = match blueprint {
            Some(bp) => {
                let mut s = bp.clone();
                s.blueprint_key = Some((bp.label.clone(), true));
                s
            },
            None => fresh.settings,
        };
        let ghost start = settings;
        assert(start == start_settings(fresh.settings, match blueprint { Some(b) => Some(*b), None => None }));
        let ghost base = settings.label@;
        let ghost mut k: nat = 0;
        let ghost bound = max_label_len(scene.flameobjects@);
        proof {
            lemma_max_label_len(scene.flameobjects@);
            assert(base + ones(0) =~= base);
        }
        loop
            invariant
                n == scene.flameobjects@.len(),
                bound == max_label_len(scene.flameobjects@),
                forall|j: int| 0 <= j < n ==> (#[trigger] scene.flameobjects@[j]).settings.label@.len() <= bound,
                settings.label@ == base + ones(k),
                settings.label_key == start.label_key,
                settings.object_type == start.object_type,
                settings.blueprint_key == start.blueprint_key,
                forall|k2: nat| k2 < k ==> label_taken(scene.flameobjects@, base + #[trigger] ones(k2)),
            ensures
                settings.label_key == start.label_key,
                settings.object_type == start.object_type,
                settings.blueprint_key == start.blueprint_key,
                settings.label@ == base + ones(k),
                !label_taken(scene.flameobjects@, settings.label@),
                forall|k2: nat| k2 < k ==> label_taken(scene.flameobjects@, base + #[trigger] ones(k2)),
            decreases bound + 1 - settings.label@.len(),
        {
            if !label_in(&scene.flameobjects, &settings.label) {
                break;
            }
            proof {
                reveal_strlit("1");
            }
            settings.label.append("1");
            proof {
                assert(base + ones(k + 1) =~= base + ones(k) + "1"@);
                k = k + 1;
            }
        }
        assert(first_free_label(scene.flameobjects@, base, settings.label@)) by {
            assert(settings.label@ == base + ones(k));
        }
        let object_type = settings.object_type;
        let copy = settings.clone();
        let new = Flameobject { id, selected: fresh.selected, visible: fresh.visible, settings };
        scene.flameobjects.push(new);
        select_only(&mut scene.flameobjects, n);
        scene.flameobject_selected_parent_idx = n as u16;
        Created { action: Action::Create((object_type, id)), settings: copy }
    }

    /// Makes `fresh` the blueprint being edited.
    pub fn blueprint(flameobject_blueprint: &mut Option<Settings>, fresh: Settings)
        ensures
            *final(flameobject_blueprint) == Some(fresh),
    {
        *flameobject_blueprint = Some(fresh);
    }
}

impl Scene {
    /// Deletes every selected object. Gives back the undo entry (a copy of
    /// the object the panels showed) and the labels of the deleted objects;
    /// afterwards the panels show the last object, or index 0 when none is
    /// left.
    pub fn delete_selected(&mut self) -> (deleted: (Action, Vec<String>))
        requires
            old(self).flameobject_selected_parent_idx < old(self).flameobjects@.len(),
            unselected(old(self).flameobjects@).len() <= u16::MAX,
        ensures
            deleted.0 == Action::Delete(old(self).flameobjects@[old(self).flameobject_selected_parent_idx as int]),
            deleted.1@.map_values(|l: String| l@) == selected_labels(old(self).flameobjects@),
            final(self).flameobjects@ == unselected(old(self).flameobjects@),
            final(self).flameobjects@ == old(self).flameobjects@.filter(|o: Flameobject| !o.selected),
            forall|k: int| 0 <= k < final(self).flameobjects@.len() ==> !(#[trigger] final(self).flameobjects@[k]).selected,
            deleted.1@.map_values(|l: String| l@) == old(self).flameobjects@.filter(|o: Flameobject| o.selected).map_values(
                |o: Flameobject| o.settings.label@,
            ),
            final(self).flameobject_highest_id == old(self).flameobject_highest_id,
            final(self).flameobject_selected_parent_idx == if final(self).flameobjects@.len() > 0 {
                (final(self).flameobjects@.len() - 1) as u16
            } else {
                0
            },
    {
        let action = Action::Delete(self.flameobjects[self.flameobject_selected_parent_idx as usize].clone());
        let n = self.flameobjects.len();
        let mut kept: Vec<Flameobject> = Vec::new();
        let mut labels: Vec<String> = Vec::new();
        let mut i: usize = 0;
        while i < n
            invariant
                n == self.flameobjects@.len(),
                self.flameobjects == old(self).flameobjects,
                i <= n,
                kept@ == unselected(self.flameobjects@.take(i as int)),
                labels@.map_values(|l: String| l@) == selected_labels(self.flameobjects@.take(i as int)),
            decreases n - i,
        {
            assert(self.flameobjects@.take(i + 1).drop_last() =~= self.flameobjects@.take(i as int));
            if self.flameobjects[i].selected {
                labels.push(self.flameobjects[i].settings.label.clone());
            } else {
                kept.push(self.flameobjects[i].clone());
            }
            assert(labels@.map_values(|l: String| l@) =~= selected_labels(self.flameobjects@.take(i + 1)));
            i += 1;
        }
        assert(self.flameobjects@.take(n as int) =~= self.flameobjects@);
        proof {
            lemma_delete_is_filter(self.flameobjects@);
        }
        self.flameobjects = kept;
        if self.flameobjects.len() > 0 {
            self.flameobject_selected_parent_idx = self.flameobjects.len() as u16 - 1;
        } else {
            self.flameobject_selected_parent_idx = 0;
        }
        (action, labels)
    }
}

/// A blueprint being edited: its settings, when there is one, and the file
/// it is saved to.
pub struct Blueprint {
    pub flameobject: Option<Settings>,
    pub save_file_path: String,
}

impl Blueprint {
    /// Takes a copy of the settings of the object the panels show as the
    /// blueprint; in a scene without objects nothing changes.
    pub fn save_current_object(&mut self, scene: &Scene)
        requires
            scene.flameobjects@.len() > 0 ==> scene.flameobject_selected_parent_idx < scene.flameobjects@.len(),
        ensures
            final(self).save_file_path == old(self).save_file_path,
            final(self).flameobject == if scene.flameobjects@.len() > 0 {
                Some(scene.flameobjects@[scene.flameobject_selected_parent_idx as int].settings)
            } else {
                old(self).flameobject
            },
    {
        if scene.flameobjects.len() > 0 {
            self.flameobject = Some(scene.flameobjects[scene.flameobject_selected_parent_idx as usize].settings.clone());
        }
    }

    /// Forgets the file the blueprint is saved to.
    pub fn clear_save_path(&mut self)
        ensures
            final(self).flameobject == old(self).flameobject,
            final(self).save_file_path@ == Seq::<char>::empty(),
    {
        self.save_file_path = String::new();
    }
}

} // verus!
