//! Editor logic of the Blue Flame game editor: project lists, scene object
//! bookkeeping, radio options, menus and new-project templates.

pub mod object_settings;
pub mod text;
pub mod flameobjects;
pub mod projects;
pub mod alert_window;
pub mod issues;
pub mod editor_mode_variables;
pub mod right_click_menu;
pub mod keys;
pub mod components;
pub mod new_project;
pub mod practice;
pub mod shortcut_commands;
