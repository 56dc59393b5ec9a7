//! The decoded commands the editor core accepts. Decoding raw input events
//! into these commands is the business of an outside collaborator.

use crate::geometry::Size;
use vstd::prelude::*;

verus! {

/// A cursor-movement direction.
#[derive(Copy, Clone, Debug, PartialEq, Eq, Structural)]
pub enum Direction {
    PageUp,
    PageDown,
    Home,
    End,
    Up,
    Left,
    Right,
    Down,
}

/// A command for the editor core: move the cursor, resize the viewport, edit
/// the buffer, or quit.
#[derive(Copy, Clone, Debug)]
pub enum EditorCommand {
    Move(Direction),
    Resize(Size),
    Insert(char),
    Delete,
    Backspace,
    Quit,
}

} // verus!
