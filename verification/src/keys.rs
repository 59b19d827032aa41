//! Movement through lists with the arrow keys.

use vstd::prelude::*;

verus! {

/// Up/down or left/right movement.
#[derive(PartialEq, Eq, Structural, Clone, Copy, Debug)]
pub enum KeyMovement {
    Vertical,
    Horizontal,
}

/// Which arrow keys were pressed this frame.
#[derive(PartialEq, Eq, Structural, Clone, Copy, Debug)]
pub struct ArrowKeys {
    pub up: bool,
    pub down: bool,
    pub left: bool,
    pub right: bool,
}

/// The step a movement takes: down or right is 1, up or left is -1 (down
/// and right win when both keys of a pair are pressed), otherwise 0.
pub open spec fn direction(key_movement: KeyMovement, keys: ArrowKeys) -> int {
    match key_movement {
        KeyMovement::Vertical => if keys.down {
            1
        } else if keys.up {
            -1
        } else {
            0
        },
        KeyMovement::Horizontal => if keys.right {
            1
        } else if keys.left {
            -1
        } else {
            0
        },
    }
}

/// The step to move by, from the arrow keys of the given axis.
pub fn move_direction_keys(key_movement: KeyMovement, keys: ArrowKeys) -> (move_direction: i8)
    ensures
        move_direction as int == direction(key_movement, keys),
{
    let mut move_direction: i8 = 0;
    match key_movement {
        KeyMovement::Vertical => {
            if keys.down {
                move_direction = 1;
            } else if keys.up {
                move_direction = -1;
            }
        },
        KeyMovement::Horizontal => {
            if keys.right {
                move_direction = 1;
            } else if keys.left {
                move_direction = -1;
            }
        },
    }
    move_direction
}

} // verus!
