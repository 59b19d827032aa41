use blue_flame::new_project::{new_project_files, template_has_token, templates_have_placeholders};
use blue_flame::practice::{display, Dir};

const MAIN_TEMPLATE: &str = "fn main() {\n    let title = \"<project_name>\";\n}\n";
const CARGO_TEMPLATE: &str = "[package]\nname = <project_name>\n\n[dependencies]\nblue_flame_common = {path = <library>}\n";

#[test]
fn placeholders_found_as_words() {
    assert!(templates_have_placeholders("title: <project_name>,\n", CARGO_TEMPLATE));
    assert!(!templates_have_placeholders(MAIN_TEMPLATE, CARGO_TEMPLATE));
    assert!(template_has_token("a <x>,\nb", "<x>", false));
    assert!(!template_has_token("a\"<x>\"", "<x>", false));
    assert!(template_has_token("{path = <library>}", "<library>", true));
    assert!(!template_has_token("{path = <library>}", "<library>", false));
    assert!(!template_has_token("a", "<x>", false));
}

#[test]
fn new_project_files_are_filled() {
    let files = new_project_files("/home/u/game", "My Game", "my_game", "/opt/blue_flame/common", MAIN_TEMPLATE, CARGO_TEMPLATE);
    assert_eq!(files.main_rs_path, "/home/u/game/src/main.rs");
    assert_eq!(files.blue_flame_rs_path, "/home/u/game/src/blue_flame.rs");
    assert_eq!(files.cargo_toml_path, "/home/u/game/src/../Cargo.toml");
    assert_eq!(files.main_rs, "fn main() {\n    let title = \"My Game\";\n}\n");
    assert_eq!(
        files.cargo_toml,
        "[package]\nname = my_game\n\n[dependencies]\nblue_flame_common = {path = /opt/blue_flame/common}\n"
    );
}

fn dir(level: u16, name: &str, children: Option<Vec<Dir>>) -> Dir {
    Dir { subdir_level: level, is_collapsed: false, selected: false, actual_content: name.to_string(), child_contents: children }
}

#[test]
fn display_lists_depth_first() {
    let dirs = vec![
        dir(0, "1st", Some(vec![dir(1, "1st child", Some(vec![dir(2, "1st child's child", None)]))])),
        dir(0, "2nd", None),
        dir(0, "3rd", Some(vec![dir(1, "child", None)])),
    ];
    let mut out = Vec::new();
    display(&dirs, &mut out);
    let expected: Vec<(u16, String)> = vec![
        (0, "1st".into()),
        (1, "1st child".into()),
        (2, "1st child's child".into()),
        (0, "2nd".into()),
        (0, "3rd".into()),
        (1, "child".into()),
    ];
    assert_eq!(out, expected);
}
