//! Core of a terminal directory browser: turning directory listings into
//! classified entries, ordering them for display, and moving a cursor over
//! the rendered lines.

pub mod app;
pub mod cli;
pub mod components;
pub mod cursor;
pub mod file_manager;
pub mod fs_ops;
pub mod item;
pub mod key;
pub mod layout;
pub mod list_state;
pub mod ordering;
pub mod paths;
pub mod sort;
pub mod text;
pub mod tree;
pub mod tree_state;

pub use file_manager::FileManager;
pub use fs_ops::{Error, FsOps, Listing, Probe};
pub use item::{FileType, Item};
pub use list_state::ListState;
