//! Screen rectangles.

use vstd::prelude::*;

verus! {

/// A rectangle of terminal cells: the cell of its top-left corner and its size.
#[derive(Debug, Clone, Copy, PartialEq, Eq, Structural)]
pub struct Bounds {
    pub x: u16,
    pub y: u16,
    pub width: u16,
    pub height: u16,
}

/// A terminal cell: column, then row.
pub type Cell = (u16, u16);

/// The largest coordinate a terminal cell can have.
pub open spec fn max_coordinate() -> int {
    0xffff
}

/// `offset` cells past `origin`, held at the largest coordinate.
pub open spec fn shifted(origin: int, offset: int) -> int {
    if origin + offset > max_coordinate() {
        max_coordinate()
    } else {
        origin + offset
    }
}

/// Adds a list offset to a screen origin, saturating at the largest coordinate.
pub fn shift(origin: u16, offset: usize) -> (at: u16)
    ensures
        at == shifted(origin as int, offset as int),
{
    let room: u16 = u16::MAX - origin;
    if offset > room as usize {
        u16::MAX
    } else {
        origin + offset as u16
    }
}

} // verus!
