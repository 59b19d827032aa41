use blue_flame::alert_window::AlertWindow;
use blue_flame::components::{add_component, remove_component};
use blue_flame::editor_mode_variables::main::{FileExplorer, Main};
use blue_flame::editor_mode_variables::{EditorMode, Project as ProjectWindow};
use blue_flame::flameobjects::{Dimension, Light, ObjectType, Shape2D};
use blue_flame::issues::{output_symbols, Issues};
use blue_flame::keys::{move_direction_keys, ArrowKeys, KeyMovement};
use blue_flame::projects::{
    append_to_selected_dir, begin_new_project, cancel_new_project, change_choice, confirm_delete, remove_selected,
    return_selected_dir, select_last, GameTypeDimensions, Project,
};
use blue_flame::right_click_menu::{right_click_menu, MenuInput, RightClickMenu};

fn project(name: &str, status: bool) -> Project {
    Project { name: name.to_string(), dir: format!("/home/u/{}", name), game_type: GameTypeDimensions::D2, status }
}

fn statuses(p: &[Project]) -> Vec<bool> {
    p.iter().map(|x| x.status).collect()
}

#[test]
fn projects_change_choice_and_selected_dir() {
    let mut ps = vec![project("a", true), project("b", false), project("c", false)];
    assert_eq!(return_selected_dir(&ps), Some(&"/home/u/a".to_string()));
    change_choice(&mut ps, 2);
    assert_eq!(statuses(&ps), vec![false, false, true]);
    assert_eq!(return_selected_dir(&ps), Some(&"/home/u/c".to_string()));
    change_choice(&mut ps, 7);
    assert_eq!(return_selected_dir(&ps), None);
}

#[test]
fn projects_select_last() {
    let mut ps = vec![project("a", true), project("b", false)];
    let dir = select_last(&mut ps);
    assert_eq!(dir, "/home/u/b");
    assert_eq!(statuses(&ps), vec![false, true]);
}

#[test]
fn projects_new_and_cancel() {
    let mut ps = vec![project("a", true)];
    begin_new_project(&mut ps, project("new", false));
    assert_eq!(statuses(&ps), vec![false, true]);
    assert_eq!(return_selected_dir(&ps), Some(&"/home/u/new".to_string()));
    let removed = cancel_new_project(&mut ps);
    assert_eq!(removed.map(|p| p.name), Some("new".to_string()));
    assert_eq!(ps.len(), 1);
    let mut empty: Vec<Project> = Vec::new();
    assert!(cancel_new_project(&mut empty).is_none());
}

#[test]
fn projects_subdir_and_remove() {
    let mut ps = vec![project("a", false), project("b", true), project("c", true)];
    assert_eq!(append_to_selected_dir(&mut ps, "game"), Some(1));
    assert_eq!(ps[1].dir, "/home/u/b/game");
    assert_eq!(ps[2].dir, "/home/u/c");
    let removed = remove_selected(&mut ps);
    assert_eq!(removed.map(|p| p.name), Some("b".to_string()));
    assert_eq!(ps.iter().map(|p| p.name.clone()).collect::<Vec<_>>(), vec!["a", "c"]);
    let mut none = vec![project("a", false)];
    assert_eq!(append_to_selected_dir(&mut none, "x"), None);
    assert!(remove_selected(&mut none).is_none());
    assert_eq!(none.len(), 1);
}

#[test]
fn alert_window_entries() {
    let mut menu = AlertWindow::init("S", "G");
    let labels: Vec<String> = menu.iter().map(|w| w.label.clone()).collect();
    assert_eq!(labels, vec!["Open", "New", "S Save", "Export settings", "Import settings", "G Settings"]);
    assert_eq!(AlertWindow::whats_enabled(&menu), "");
    assert!(AlertWindow::click(&mut menu, 2, "S Save"));
    assert!(menu.iter().all(|w| !w.state));
    assert!(!AlertWindow::click(&mut menu, 4, "S Save"));
    assert!(!AlertWindow::click(&mut menu, 1, "S Save"));
    assert_eq!(AlertWindow::whats_enabled(&menu), "New");
}

#[test]
fn issues_and_symbols() {
    let i = Issues::init();
    assert!(!i.warning && !i.error);
    assert_eq!(output_symbols(), ("\u{26a0}", "\u{26d4}"));
}

#[test]
fn editor_mode_state_inits() {
    let p = ProjectWindow::init();
    assert!(!p.new_project_window && !p.del_proj_win);
    assert!(p.create_new_project_with_cargo_new && p.del_entire_proj_checkbox);
    assert_eq!(p.new_project_label, "");
    assert!(p.selected_project_before_new.is_none());
    let f = FileExplorer::init();
    assert!(!f.show_rightclick_menu && !f.show_newfolder_wind && !f.show_deleteitem_wind);
    assert_eq!(f.new_folder_name, "");
    let m = Main::init();
    assert!(!m.file_explorer.show_rightclick_menu);
    let mode = EditorMode::Main(m);
    assert!(matches!(mode, EditorMode::Main(_)));
}

fn input(shift: bool, a: bool, esc: bool, hovered: Option<ObjectType>, clicked: Option<Shape2D>) -> MenuInput {
    MenuInput { shift_held: shift, a_pressed: a, escape_pressed: esc, hovered, clicked_shape: clicked }
}

#[test]
fn right_click_menu_flow() {
    let mut menu = RightClickMenu::init();
    let d2 = ObjectType::Shape(Dimension::D2(Shape2D::Square));
    // Closed menu ignores the pointer.
    assert_eq!(right_click_menu(&mut menu, input(false, false, false, Some(d2), Some(Shape2D::Triangle))), None);
    assert!(menu.object_type_captured.is_none());
    // Shift + A opens it.
    assert_eq!(right_click_menu(&mut menu, input(true, true, false, None, None)), None);
    assert!(menu.is_right_clicked);
    // Hovering a light shows no shape submenu.
    assert_eq!(right_click_menu(&mut menu, input(false, false, false, Some(ObjectType::Light(Light::Direction)), Some(Shape2D::Line))), None);
    assert!(menu.is_right_clicked);
    // Hover 2D shapes, then click a shape.
    assert_eq!(right_click_menu(&mut menu, input(false, false, false, Some(d2), None)), None);
    assert_eq!(
        right_click_menu(&mut menu, input(false, false, false, None, Some(Shape2D::Triangle))),
        Some(ObjectType::Shape(Dimension::D2(Shape2D::Triangle)))
    );
    assert!(!menu.is_right_clicked);
    // Escape closes it.
    right_click_menu(&mut menu, input(true, true, false, None, None));
    right_click_menu(&mut menu, input(false, false, true, None, Some(Shape2D::Square)));
    assert!(!menu.is_right_clicked);
}

#[test]
fn arrow_key_directions() {
    let none = ArrowKeys { up: false, down: false, left: false, right: false };
    assert_eq!(move_direction_keys(KeyMovement::Vertical, none), 0);
    assert_eq!(move_direction_keys(KeyMovement::Vertical, ArrowKeys { down: true, ..none }), 1);
    assert_eq!(move_direction_keys(KeyMovement::Vertical, ArrowKeys { up: true, ..none }), -1);
    assert_eq!(move_direction_keys(KeyMovement::Vertical, ArrowKeys { up: true, down: true, ..none }), 1);
    assert_eq!(move_direction_keys(KeyMovement::Vertical, ArrowKeys { left: true, ..none }), 0);
    assert_eq!(move_direction_keys(KeyMovement::Horizontal, ArrowKeys { right: true, ..none }), 1);
    assert_eq!(move_direction_keys(KeyMovement::Horizontal, ArrowKeys { left: true, ..none }), -1);
    assert_eq!(move_direction_keys(KeyMovement::Horizontal, ArrowKeys { up: true, ..none }), 0);
}

#[test]
fn components_add_and_remove() {
    let mut list: Option<Vec<u32>> = None;
    add_component(&mut list, 7);
    assert_eq!(list, Some(vec![7]));
    add_component(&mut list, 8);
    assert_eq!(list, Some(vec![7, 8]));
    remove_component(&mut list, 0);
    assert_eq!(list, Some(vec![8]));
    let mut none: Option<Vec<u32>> = None;
    remove_component(&mut none, 3);
    assert!(none.is_none());
}

#[test]
fn confirm_delete_yes_removes_selected() {
    let mut ps = vec![project("a", false), project("b", true), project("c", true)];
    let mut state = ProjectWindow::init();
    state.del_proj_win = true;
    let dir = confirm_delete(&mut state, &mut ps, true, false);
    assert_eq!(dir, Some("/home/u/b".to_string()));
    assert!(!state.del_proj_win);
    assert_eq!(ps.iter().map(|p| p.name.clone()).collect::<Vec<_>>(), vec!["a", "c"]);
}

#[test]
fn confirm_delete_yes_keeping_the_directory() {
    let mut ps = vec![project("a", true)];
    let mut state = ProjectWindow::init();
    state.del_proj_win = true;
    state.del_entire_proj_checkbox = false;
    assert_eq!(confirm_delete(&mut state, &mut ps, true, false), None);
    assert!(ps.is_empty());
    assert!(!state.del_proj_win);
}

#[test]
fn confirm_delete_cancel_or_nothing() {
    let mut ps = vec![project("a", true)];
    let mut state = ProjectWindow::init();
    state.del_proj_win = true;
    assert_eq!(confirm_delete(&mut state, &mut ps, false, false), None);
    assert!(state.del_proj_win);
    assert_eq!(ps.len(), 1);
    assert_eq!(confirm_delete(&mut state, &mut ps, false, true), None);
    assert!(!state.del_proj_win);
    assert_eq!(ps.len(), 1);
    let mut none = vec![project("a", false)];
    let mut state = ProjectWindow::init();
    state.del_proj_win = true;
    assert_eq!(confirm_delete(&mut state, &mut none, true, false), None);
    assert!(state.del_proj_win);
    assert_eq!(none.len(), 1);
}
