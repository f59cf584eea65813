//! The file manager of a flat listing.

use vstd::prelude::*;

use crate::fs_ops::{
    entry_of, lemma_scanned_well_formed, reading_views, scanned, Error, FsOps, Listing, Probe,
    ProbeView,
};
use crate::item::{item_views, name_extension, name_is_hidden, well_formed, FileType, Item};
use crate::list_state::{ListState, ListStateView};

verus! {

/// The directory that is being browsed, and whether its hidden entries
/// are shown.
#[derive(Debug)]
pub struct FileManager {
    state: ListState,
    show_hidden: bool,
}

/// What a [`FileManager`] holds.
pub struct FileManagerView {
    pub state: ListStateView,
    pub show_hidden: bool,
}

impl View for FileManager {
    type V = FileManagerView;

    closed spec fn view(&self) -> FileManagerView {
        FileManagerView { state: self.state@, show_hidden: self.show_hidden }
    }
}

/// The state that a manager is in after it has moved into the directory
/// at `path` with reading `listing`.
pub open spec fn state_after(
    path: Seq<char>,
    listing: Seq<Option<ProbeView>>,
    show_hidden: bool,
) -> ListStateView {
    ListStateView { items: scanned(listing, show_hidden), current_dir: path }
}

/// Every entry of a state is as a scan produces entries.
pub open spec fn entries_well_formed(state: ListStateView) -> bool {
    forall|i: int| 0 <= i < state.items.len() ==> well_formed(#[trigger] state.items[i])
}

impl FileManager {
    /// The entries of a reading, as this manager lists them.
    fn scan(&self, listing: Listing) -> (items: Vec<Item>)
        ensures
            item_views(items@) == scanned(reading_views(listing@), self@.show_hidden),
    {
        let ghost readings = reading_views(listing@);
        let mut items: Vec<Item> = Vec::new();
        for reading in it: listing
            invariant
                it.seq() == listing@,
                readings == reading_views(listing@),
                item_views(items@) == scanned(
                    readings.subrange(0, it.index()),
                    self@.show_hidden,
                ),
        {
            let ghost seen = readings.subrange(0, it.index() + 1);
            let ghost before = item_views(items@);
            proof {
                assert(seen.drop_last() =~= readings.subrange(0, it.index()));
                assert(seen.last() == readings[it.index()]);
            }
            match reading {
                Some(
                    Probe { file_name, file_path, is_symlink: Some(is_symlink), is_dir: Some(is_dir) },
                ) => {
                    let is_hidden = name_is_hidden(file_name.as_str());
                    if !is_hidden || self.show_hidden {
                        let file_type = self.get_file_type(is_symlink, is_dir);
                        let file_ext = match file_type {
                            FileType::File => name_extension(file_name.as_str()),
                            _ => None,
                        };
                        let item = Item { file_name, file_path, file_type, file_ext, is_hidden };
                        assert(item@ == entry_of(seen.last()->0));
                        items.push(item);
                        assert(item_views(items@) =~= before.push(entry_of(seen.last()->0)));
                    }
                },
                _ => {},
            }
        }
        assert(readings.subrange(0, readings.len() as int) =~= readings);
        items
    }

    /// A manager that has moved into the directory at `path`, whose reading
    /// is `listing`, with hidden entries left out.
    pub fn new(path: &str, listing: Result<Listing, String>) -> (manager: Result<
        FileManager,
        Error,
    >)
        ensures
            match listing {
                Ok(readings) => {
                    &&& manager matches Ok(manager)
                    &&& manager@ == (FileManagerView {
                        state: state_after(path@, reading_views(readings@), false),
                        show_hidden: false,
                    })
                    &&& entries_well_formed(manager@.state)
                },
                Err(reason) => manager matches Err(error) && error.reason() == reason@,
            },
    {
        let mut manager = FileManager { state: ListState::default(), show_hidden: false };
        match manager.change_dir(path, listing) {
            Ok(_) => Ok(manager),
            Err(error) => Err(error),
        }
    }

    /// The directory that the manager is in, and its entries.
    pub fn get_state(&self) -> (state: &ListState)
        ensures
            state@ == self@.state,
    {
        &self.state
    }

    /// Whether hidden entries are shown.
    pub fn shows_hidden(&self) -> (shown: bool)
        ensures
            shown == self@.show_hidden,
    {
        self.show_hidden
    }

    /// Shows hidden entries if they were left out, leaves them out if they
    /// were shown, and lists the current directory anew from `listing`. Where
    /// the directory could not be read, the entries stay as they were.
    pub fn toggle_hidden(&mut self, listing: Result<Listing, String>) -> (state: Result<
        &ListState,
        Error,
    >)
        ensures
            final(self)@.show_hidden == !old(self)@.show_hidden,
            match listing {
                Ok(readings) => {
                    &&& state matches Ok(state)
                    &&& state@ == final(self)@.state
                    &&& final(self)@.state == state_after(
                        old(self)@.state.current_dir,
                        reading_views(readings@),
                        !old(self)@.show_hidden,
                    )
                    &&& entries_well_formed(final(self)@.state)
                },
                Err(reason) => {
                    &&& state matches Err(error)
                    &&& error.reason() == reason@
                    &&& final(self)@.state == old(self)@.state
                },
            },
    {
        self.show_hidden = !self.show_hidden;
        let current_dir = self.state.current_dir.clone();
        self.change_dir(current_dir.as_str(), listing)
    }
}

impl FsOps<ListState> for FileManager {
    /// Moves into the directory at `path`: its entries are those of
    /// `listing`, without the hidden ones unless they are shown. Where the
    /// directory could not be read, the manager stays where it was.
    fn change_dir(&mut self, path: &str, listing: Result<Listing, String>) -> (state:
        Result<&ListState, Error>)
        ensures
            match listing {
                Ok(readings) => {
                    &&& state matches Ok(state)
                    &&& state@ == final(self)@.state
                    &&& final(self)@ == (FileManagerView {
                        state: state_after(path@, reading_views(readings@), old(self)@.show_hidden),
                        show_hidden: old(self)@.show_hidden,
                    })
                    &&& entries_well_formed(final(self)@.state)
                },
                Err(reason) => {
                    &&& state matches Err(error)
                    &&& error.reason() == reason@
                    &&& final(self)@ == old(self)@
                },
            },
    {
        match listing {
            Ok(readings) => {
                proof {
                    lemma_scanned_well_formed(reading_views(readings@), self@.show_hidden);
                }
                let items = self.scan(readings);
                self.state = ListState { current_dir: path.to_owned(), items };
                Ok(&self.state)
            },
            Err(reason) => Err(Error::ScanFailed(reason)),
        }
    }
}

} // verus!
