//! Keyboard shortcuts of the editor.

use vstd::prelude::*;

verus! {

/// Decides which keyboard shortcut was pressed; no shortcut is handled
/// here yet (shift + A is handled by the right-click menu).
pub fn shortcut_commands() {
}

} // verus!
