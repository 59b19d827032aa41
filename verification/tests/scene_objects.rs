use blue_flame::flameobjects::{
    any_flameobject_selected, blueprint_followers, Blueprint, CreateNewFlameObject, first_selected_index, last_selected_index, select_only, Action,
    Dimension, Flameobject, Light, ObjectType, Scene, Settings, Shape2D,
};

fn settings(label: &str) -> Settings {
    Settings {
        label: label.to_string(),
        label_key: format!("key {}", label),
        object_type: ObjectType::Shape(Dimension::D2(Shape2D::Square)),
        blueprint_key: None,
    }
}

fn object(id: u16, label: &str, selected: bool) -> Flameobject {
    Flameobject { id, selected, visible: true, settings: settings(label) }
}

fn scene(objs: Vec<Flameobject>) -> Scene {
    let n = objs.len() as u16;
    Scene { flameobjects: objs, flameobject_highest_id: n, flameobject_selected_parent_idx: 0 }
}

fn labels(s: &Scene) -> Vec<String> {
    s.flameobjects.iter().map(|o| o.settings.label.clone()).collect()
}

#[test]
fn create_renames_until_unique() {
    let mut s = scene(vec![object(0, "Square", true), object(1, "Square1", false)]);
    let created = CreateNewFlameObject::flameobject(&mut s, object(99, "Square", false), None);
    assert_eq!(labels(&s), vec!["Square", "Square1", "Square11"]);
    let new = &s.flameobjects[2];
    assert_eq!(new.id, 2);
    assert!(new.selected);
    assert!(!s.flameobjects[0].selected);
    assert_eq!(s.flameobject_highest_id, 3);
    assert_eq!(s.flameobject_selected_parent_idx, 2);
    assert_eq!(created.settings.label, "Square11");
    match created.action {
        Action::Create((t, id)) => {
            assert_eq!(t, ObjectType::Shape(Dimension::D2(Shape2D::Square)));
            assert_eq!(id, 2);
        }
        Action::Delete(_) => panic!("expected a create action"),
    }
}

#[test]
fn create_keeps_free_label() {
    let mut s = scene(vec![object(0, "Light", false)]);
    let mut fresh = object(0, "Triangle", false);
    fresh.settings.object_type = ObjectType::Light(Light::Direction);
    CreateNewFlameObject::flameobject(&mut s, fresh, None);
    assert_eq!(labels(&s), vec!["Light", "Triangle"]);
    assert_eq!(s.flameobjects[1].settings.object_type, ObjectType::Light(Light::Direction));
}

#[test]
fn create_from_blueprint() {
    let mut s = scene(vec![object(0, "Tree", false)]);
    let bp = settings("Tree");
    let created = CreateNewFlameObject::flameobject(&mut s, object(5, "Empty", false), Some(&bp));
    let new = &s.flameobjects[1];
    assert_eq!(new.settings.label, "Tree1");
    assert_eq!(new.settings.label_key, "key Tree");
    assert_eq!(new.settings.blueprint_key, Some(("Tree".to_string(), true)));
    assert_eq!(created.settings.blueprint_key, Some(("Tree".to_string(), true)));
}

#[test]
fn delete_selected_removes_and_reports() {
    let mut s = scene(vec![object(0, "a", true), object(1, "b", false), object(2, "c", true), object(3, "d", false)]);
    s.flameobject_selected_parent_idx = 2;
    let (action, removed) = s.delete_selected();
    assert_eq!(labels(&s), vec!["b", "d"]);
    assert_eq!(removed, vec!["a".to_string(), "c".to_string()]);
    assert_eq!(s.flameobject_selected_parent_idx, 1);
    match action {
        Action::Delete(o) => assert_eq!(o.settings.label, "c"),
        Action::Create(_) => panic!("expected a delete action"),
    }
}

#[test]
fn delete_everything_points_at_zero() {
    let mut s = scene(vec![object(0, "a", true)]);
    let (_, removed) = s.delete_selected();
    assert!(s.flameobjects.is_empty());
    assert_eq!(removed.len(), 1);
    assert_eq!(s.flameobject_selected_parent_idx, 0);
}

#[test]
fn click_label_selects_or_toggles() {
    let mut s = scene(vec![object(0, "a", true), object(1, "b", false), object(2, "c", true)]);
    s.click_label(1, false);
    assert_eq!(s.flameobjects.iter().map(|o| o.selected).collect::<Vec<_>>(), vec![false, true, false]);
    assert_eq!(s.flameobject_selected_parent_idx, 1);
    s.click_label(2, true);
    assert_eq!(s.flameobjects.iter().map(|o| o.selected).collect::<Vec<_>>(), vec![false, true, true]);
    assert_eq!(s.flameobject_selected_parent_idx, 1);
    s.click_label(2, true);
    assert!(!s.flameobjects[2].selected);
}

#[test]
fn selection_queries() {
    let objs = vec![object(0, "a", false), object(1, "b", true), object(2, "c", true), object(3, "d", false)];
    assert!(any_flameobject_selected(&objs));
    assert_eq!(first_selected_index(&objs), Some(1));
    assert_eq!(last_selected_index(&objs), Some(2));
    let none = vec![object(0, "a", false)];
    assert!(!any_flameobject_selected(&none));
    assert_eq!(first_selected_index(&none), None);
    assert_eq!(last_selected_index(&none), None);
    assert!(!any_flameobject_selected(&[]));
}

#[test]
fn select_only_one() {
    let mut objs = vec![object(0, "a", true), object(1, "b", true), object(2, "c", false)];
    select_only(&mut objs, 2);
    assert_eq!(objs.iter().map(|o| o.selected).collect::<Vec<_>>(), vec![false, false, true]);
}

#[test]
fn parent_index_from_flags() {
    let mut s = scene(vec![object(0, "a", true), object(1, "b", false), object(2, "c", true)]);
    s.select_parent_from_flags();
    assert_eq!(s.flameobject_selected_parent_idx, 2);
    assert_eq!(s.selected_settings().map(|x| x.label), Some("c".to_string()));
    let mut none = scene(vec![object(0, "a", false)]);
    none.flameobject_selected_parent_idx = 0;
    none.select_parent_from_flags();
    assert_eq!(none.flameobject_selected_parent_idx, 0);
    assert!(scene(vec![]).selected_settings().is_none());
}

#[test]
fn followers_of_a_blueprint() {
    let mut objs = vec![object(0, "a", false), object(1, "b", false), object(2, "c", false), object(3, "d", false)];
    objs[0].settings.blueprint_key = Some(("tree".to_string(), true));
    objs[1].settings.blueprint_key = Some(("tree".to_string(), false));
    objs[2].settings.blueprint_key = Some(("rock".to_string(), true));
    objs[3].settings.blueprint_key = Some(("tree".to_string(), true));
    assert_eq!(blueprint_followers(&objs, "tree"), vec![0, 3]);
    assert_eq!(blueprint_followers(&objs, "rock"), vec![2]);
    assert!(blueprint_followers(&objs, "none").is_empty());
}

#[test]
fn blueprint_being_edited() {
    let mut bp = None;
    CreateNewFlameObject::blueprint(&mut bp, settings("Rock"));
    assert_eq!(bp.map(|b| b.label), Some("Rock".to_string()));
}

#[test]
fn no_selected_object_survives_delete() {
    let mut s = scene(vec![object(0, "a", false), object(1, "b", true), object(2, "c", false)]);
    s.flameobject_selected_parent_idx = 1;
    s.delete_selected();
    assert!(!any_flameobject_selected(&s.flameobjects));
    assert_eq!(labels(&s), vec!["a", "c"]);
}

#[test]
fn record_loaded_scene_updates_paths_and_label() {
    let s = scene(vec![object(0, "a", true), object(1, "b", true), object(2, "c", false)]);
    let mut last = String::from("old.bsce");
    let mut backup = String::from("x");
    s.record_loaded_scene(&"scenes/new.bsce".to_string(), &mut last, &mut backup);
    assert_eq!(last, "scenes/new.bsce");
    assert_eq!(backup, "b");
    let none = scene(vec![object(0, "a", false)]);
    none.record_loaded_scene(&"s".to_string(), &mut last, &mut backup);
    assert_eq!(last, "s");
    assert_eq!(backup, "b");
}

#[test]
fn delete_right_after_create_removes_only_the_new_object() {
    let mut s = scene(vec![object(0, "a", false), object(1, "b", true)]);
    CreateNewFlameObject::flameobject(&mut s, object(0, "a", false), None);
    assert_eq!(labels(&s), vec!["a", "b", "a1"]);
    s.delete_selected();
    assert_eq!(labels(&s), vec!["a", "b"]);
    assert!(!any_flameobject_selected(&s.flameobjects));
}

#[test]
fn labels_stay_distinct() {
    let mut s = scene(vec![object(0, "a", false), object(1, "a1", false)]);
    for _ in 0..3 {
        CreateNewFlameObject::flameobject(&mut s, object(0, "a", false), None);
    }
    let mut l = labels(&s);
    assert_eq!(l, vec!["a", "a1", "a11", "a111", "a1111"]);
    l.sort();
    l.dedup();
    assert_eq!(l.len(), 5);
}

#[test]
fn shortcut_commands_does_nothing() {
    blue_flame::shortcut_commands::shortcut_commands();
}

#[test]
fn blueprint_from_current_object() {
    let mut s = scene(vec![object(0, "a", false), object(1, "b", true)]);
    s.flameobject_selected_parent_idx = 1;
    let mut bp = Blueprint { flameobject: None, save_file_path: "bp.bprint".to_string() };
    bp.save_current_object(&s);
    assert_eq!(bp.flameobject.as_ref().map(|x| x.label.clone()), Some("b".to_string()));
    assert_eq!(bp.save_file_path, "bp.bprint");
    bp.save_current_object(&scene(vec![]));
    assert_eq!(bp.flameobject.as_ref().map(|x| x.label.clone()), Some("b".to_string()));
    bp.clear_save_path();
    assert_eq!(bp.save_file_path, "");
    assert!(bp.flameobject.is_some());
}

#[test]
fn delete_selected_on_a_long_list() {
    let mut objs: Vec<Flameobject> = (0..65537u32).map(|i| object((i % 65536) as u16, "x", false)).collect();
    objs[0].selected = true;
    objs[1].selected = true;
    let mut s = Scene { flameobjects: objs, flameobject_highest_id: 0, flameobject_selected_parent_idx: 0 };
    let (_, removed) = s.delete_selected();
    assert_eq!(removed.len(), 2);
    assert_eq!(s.flameobjects.len(), 65535);
    assert_eq!(s.flameobject_selected_parent_idx, 65534);
}
