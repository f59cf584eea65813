//! The state of a flat listing: one directory and its entries.

use vstd::prelude::*;

use crate::item::{item_views, Item, ItemView};

verus! {

/// One directory and the entries found in it, in the order they were read.
#[derive(Debug)]
pub struct ListState {
    pub items: Vec<Item>,
    pub current_dir: String,
}

/// The mathematical content of a [`ListState`].
pub struct ListStateView {
    pub items: Seq<ItemView>,
    pub current_dir: Seq<char>,
}

impl View for ListState {
    type V = ListStateView;

    open spec fn view(&self) -> ListStateView {
        ListStateView { items: item_views(self.items@), current_dir: self.current_dir@ }
    }
}

impl Default for ListState {
    fn default() -> (state: Self)
        ensures
            state@.items.len() == 0,
            state@.current_dir.len() == 0,
    {
        ListState { items: Vec::new(), current_dir: String::new() }
    }
}

} // verus!
