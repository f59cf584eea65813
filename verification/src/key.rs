//! Key presses, as far as the browser tells them apart.

use vstd::prelude::*;

verus! {

/// A key press.
#[derive(Debug, Clone, Copy, PartialEq, Eq, Structural)]
pub enum Key {
    /// A printable character.
    Char(char),
    /// The Enter key.
    Enter,
    /// Any other key.
    Other,
}

} // verus!
