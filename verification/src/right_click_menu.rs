//! The menu for creating objects, opened with shift + A: a main menu of
//! object kinds and, for 2D shapes, a submenu of shapes.

use vstd::prelude::*;

use crate::flameobjects::{Dimension, ObjectType, Shape2D};

verus! {

/// Whether the menu is open and which kind of object the pointer last
/// rested on in the main menu.
pub struct RightClickMenu {
    pub is_right_clicked: bool,
    pub object_type_captured: Option<ObjectType>,
}

/// What happened during one frame: the keys, the main-menu entry under the
/// pointer, and the submenu shape clicked.
pub struct MenuInput {
    pub shift_held: bool,
    pub a_pressed: bool,
    pub escape_pressed: bool,
    pub hovered: Option<ObjectType>,
    pub clicked_shape: Option<Shape2D>,
}

/// Whether the menu is open after the keys of a frame: shift + A opens it,
/// escape closes it.
pub open spec fn open_after_keys(open: bool, input: MenuInput) -> bool {
    if input.escape_pressed {
        false
    } else if input.shift_held && input.a_pressed {
        true
    } else {
        open
    }
}

/// The submenu of 2D shapes is shown for this captured kind.
pub open spec fn shows_shape_submenu(captured: Option<ObjectType>) -> bool {
    captured matches Some(ObjectType::Shape(Dimension::D2(_)))
}

impl RightClickMenu {
    /// A closed menu with nothing captured.
    pub fn init() -> (menu: Self)
        ensures
            !menu.is_right_clicked,
            menu.object_type_captured is None,
    {
        RightClickMenu { is_right_clicked: false, object_type_captured: None }
    }
}

/// One frame of the menu. The keys open or close it; while it is open,
/// the entry under the pointer becomes the captured kind, and a click on
/// a shape of the 2D submenu closes the menu and asks for that shape to
/// be created.
pub fn right_click_menu(menu: &mut RightClickMenu, input: MenuInput) -> (create_object: Option<ObjectType>)
    ensures
        ({
            let open = open_after_keys(old(menu).is_right_clicked, input);
            let captured = if open && input.hovered is Some {
                input.hovered
            } else {
                old(menu).object_type_captured
            };
            let clicked = open && shows_shape_submenu(captured) && input.clicked_shape is Some;
            &&& final(menu).object_type_captured == captured
            &&& final(menu).is_right_clicked == (open && !clicked)
            &&& create_object == if clicked {
                Some(ObjectType::Shape(Dimension::D2(input.clicked_shape->0)))
            } else {
                None::<ObjectType>
            }
        }),
{
    let mut create_object: Option<ObjectType> = None;
    if input.shift_held && input.a_pressed {
        menu.is_right_clicked = true;
    }
    if input.escape_pressed {
        menu.is_right_clicked = false;
    }
    if menu.is_right_clicked {
        if let Some(t) = input.hovered {
            menu.object_type_captured = Some(t);
        }
        if let Some(ObjectType::Shape(Dimension::D2(_))) = menu.object_type_captured {
            if let Some(shape) = input.clicked_shape {
                menu.is_right_clicked = false;
                create_object = Some(ObjectType::Shape(Dimension::D2(shape)));
            }
        }
    }
    create_object
}

} // verus!
