//! Entries as a tree.

use vstd::prelude::*;

use crate::item::Item;

verus! {

/// An entry and the entries below it.
#[derive(Debug)]
pub struct TreeNode {
    _item: Item,
    _children: Vec<TreeNode>,
}

} // verus!
