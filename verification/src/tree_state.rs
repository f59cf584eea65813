//! The state of a tree listing.

use vstd::prelude::*;

use crate::tree::TreeNode;

verus! {

/// One directory and the trees of entries found in it.
#[derive(Debug)]
pub struct TreeState {
    _items: Vec<TreeNode>,
    _current_dir: String,
}

impl TreeState {
    /// The state of no directory: no trees, and an empty path.
    pub closed spec fn is_empty(&self) -> bool {
        self._items@.len() == 0 && self._current_dir@.len() == 0
    }
}

impl Default for TreeState {
    fn default() -> (state: Self)
        ensures
            state.is_empty(),
    {
        TreeState { _items: Vec::new(), _current_dir: String::new() }
    }
}

} // verus!
