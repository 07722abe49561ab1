//! What a click callback learns about the press: the window under the
//! cursor, the modifier mask, and the position.

use vstd::prelude::*;

verus! {

/// Information about one mouse press.
#[derive(Clone, Copy, PartialEq, Eq, Structural, Debug)]
pub struct MouseInfo {
    /// The client's window ID where the mouse was pressed.
    pub c_id: u32,
    /// The x position of the press; zero is the top-left corner.
    pub x: i16,
    /// The y position of the press; zero is the top-left corner.
    pub y: i16,
    /// The modifier mask held during the press.
    pub modifier: u16,
}

impl MouseInfo {
    /// Packs the press information; `pos` is `(x, y)`.
    pub fn new(c_id: u32, modifier: u16, pos: (i16, i16)) -> (r: MouseInfo)
        ensures
            r == (MouseInfo { c_id, x: pos.0, y: pos.1, modifier }),
    {
        MouseInfo { c_id, x: pos.0, y: pos.1, modifier }
    }
}

} // verus!
