//! What every file manager does with what the filesystem reports: telling
//! hidden names, kinds and extensions, and turning the reading of a
//! directory into entries.

use vstd::prelude::*;

use crate::item::{
    extension_of, is_hidden_name, name_extension, name_is_hidden, well_formed, FileType, ItemView,
};
use crate::paths::{file_name_of, path_file_name};
use crate::text::text_of;

verus! {

/// What reading one child of a directory gave: its name and path, and
/// what the two probes of its kind found. A probe that failed left `None`.
#[derive(Debug)]
pub struct Probe {
    /// The last component of the child's path.
    pub file_name: String,
    /// The child's path.
    pub file_path: String,
    /// Whether the child itself is a symbolic link.
    pub is_symlink: Option<bool>,
    /// Whether the child, with links followed, is a directory.
    pub is_dir: Option<bool>,
}

/// The mathematical content of a [`Probe`].
pub struct ProbeView {
    pub file_name: Seq<char>,
    pub file_path: Seq<char>,
    pub is_symlink: Option<bool>,
    pub is_dir: Option<bool>,
}

impl View for Probe {
    type V = ProbeView;

    open spec fn view(&self) -> ProbeView {
        ProbeView {
            file_name: self.file_name@,
            file_path: self.file_path@,
            is_symlink: self.is_symlink,
            is_dir: self.is_dir,
        }
    }
}

/// The reading of a directory: one element per child, `None` where the
/// child could not be read at all.
pub type Listing = Vec<Option<Probe>>;

/// The views of the readings of a directory, child by child.
pub open spec fn reading_views(listing: Seq<Option<Probe>>) -> Seq<Option<ProbeView>> {
    listing.map_values(
        |reading: Option<Probe>|
            match reading {
                Some(probe) => Some(probe@),
                None => None,
            },
    )
}

/// Why a directory could not be listed.
#[derive(Debug)]
pub enum Error {
    /// The directory is missing, is no directory, or may not be read.
    ScanFailed(String),
}

impl Error {
    /// The reason that the failure carries.
    pub open spec fn reason(self) -> Seq<char> {
        match self {
            Error::ScanFailed(reason) => reason@,
        }
    }

    /// The failure in words.
    pub fn message(&self) -> (text: String)
        ensures
            text@ == "scan failed: "@ + self.reason(),
    {
        match self {
            Error::ScanFailed(reason) => String::from_str("scan failed: ").concat(reason.as_str()),
        }
    }
}

/// The kind of a child: a symbolic link whatever it points at, else a
/// directory, else a file.
pub open spec fn kind_of(is_symlink: bool, is_dir: bool) -> FileType {
    if is_symlink {
        FileType::Symlink
    } else if is_dir {
        FileType::Directory
    } else {
        FileType::File
    }
}

/// Whether a child was read well enough to be classified.
pub open spec fn readable(reading: Option<ProbeView>) -> bool {
    reading matches Some(probe) && probe.is_symlink is Some && probe.is_dir is Some
}

/// Whether a child makes it into the listing: it was read, and it is not
/// a hidden one while hidden ones are left out.
pub open spec fn listed(reading: Option<ProbeView>, show_hidden: bool) -> bool {
    readable(reading) && (show_hidden || !is_hidden_name(reading->0.file_name))
}

/// The entry that a readable child becomes.
pub open spec fn entry_of(probe: ProbeView) -> ItemView {
    let kind = kind_of(probe.is_symlink->0, probe.is_dir->0);
    ItemView {
        file_name: probe.file_name,
        file_path: probe.file_path,
        file_type: kind,
        file_ext: if kind == FileType::File {
            extension_of(probe.file_name)
        } else {
            None
        },
        is_hidden: is_hidden_name(probe.file_name),
    }
}

/// The entries of a directory, from its reading: the children that are
/// listed, in the order they were read.
pub open spec fn scanned(listing: Seq<Option<ProbeView>>, show_hidden: bool) -> Seq<ItemView>
    decreases listing.len(),
{
    if listing.len() == 0 {
        Seq::empty()
    } else {
        let before = scanned(listing.drop_last(), show_hidden);
        if listed(listing.last(), show_hidden) {
            before.push(entry_of(listing.last()->0))
        } else {
            before
        }
    }
}

/// The number of children of a reading that are listed.
pub open spec fn listed_count(listing: Seq<Option<ProbeView>>, show_hidden: bool) -> nat
    decreases listing.len(),
{
    if listing.len() == 0 {
        0
    } else {
        listed_count(listing.drop_last(), show_hidden) + if listed(listing.last(), show_hidden) {
            1nat
        } else {
            0nat
        }
    }
}

/// Every scanned entry is hidden exactly when its name says so, and has
/// an extension only if it is a regular file.
pub proof fn lemma_scanned_well_formed(listing: Seq<Option<ProbeView>>, show_hidden: bool)
    ensures
        forall|i: int|
            0 <= i < scanned(listing, show_hidden).len() ==> well_formed(
                #[trigger] scanned(listing, show_hidden)[i],
            ),
        forall|i: int|
            0 <= i < scanned(listing, show_hidden).len() && (#[trigger] scanned(
                listing,
                show_hidden,
            )[i]).file_type != FileType::File ==> scanned(listing, show_hidden)[i].file_ext is None,
    decreases listing.len(),
{
    if listing.len() > 0 {
        lemma_scanned_well_formed(listing.drop_last(), show_hidden);
    }
}

/// A scan yields one entry for each child that is listed, and so no more
/// entries than the directory has children.
pub proof fn lemma_scanned_len(listing: Seq<Option<ProbeView>>, show_hidden: bool)
    ensures
        scanned(listing, show_hidden).len() == listed_count(listing, show_hidden),
        listed_count(listing, show_hidden) <= listing.len(),
    decreases listing.len(),
{
    if listing.len() > 0 {
        lemma_scanned_len(listing.drop_last(), show_hidden);
    }
}

/// The entries that are not hidden, in order.
pub open spec fn visible(entries: Seq<ItemView>) -> Seq<ItemView> {
    entries.filter(|entry: ItemView| !entry.is_hidden)
}

/// With hidden entries left out, a scan holds no entry whose name starts
/// with a dot. Scanning the same reading with hidden entries shown yields
/// all of those entries and the hidden ones besides: leaving the hidden
/// ones out of the second scan gives the first.
pub proof fn lemma_hidden_filtering(listing: Seq<Option<ProbeView>>)
    ensures
        forall|i: int|
            0 <= i < scanned(listing, false).len() ==> !is_hidden_name(
                (#[trigger] scanned(listing, false)[i]).file_name,
            ),
        scanned(listing, false) == visible(scanned(listing, true)),
        forall|i: int|
            0 <= i < scanned(listing, false).len() ==> scanned(listing, true).contains(
                #[trigger] scanned(listing, false)[i],
            ),
        scanned(listing, false).len() <= scanned(listing, true).len(),
    decreases listing.len(),
{
    reveal(Seq::filter);
    let shown = scanned(listing, true);
    let pred = |entry: ItemView| !entry.is_hidden;
    if listing.len() == 0 {
        assert(scanned(listing, false) =~= visible(shown));
    } else {
        let shorter = listing.drop_last();
        lemma_hidden_filtering(shorter);
        let shown_before = scanned(shorter, true);
        if listed(listing.last(), true) {
            let entry = entry_of(listing.last()->0);
            assert(shown.drop_last() =~= shown_before);
            assert(shown.last() == entry);
            assert(visible(shown) == if pred(entry) {
                visible(shown_before).push(entry)
            } else {
                visible(shown_before)
            });
        }
        assert forall|i: int| 0 <= i < scanned(listing, false).len() implies shown.contains(
            #[trigger] scanned(listing, false)[i],
        ) by {
            let entry = scanned(listing, false)[i];
            if i < scanned(shorter, false).len() {
                assert(shown_before.contains(entry));
                let k = choose|k: int| 0 <= k < shown_before.len() && shown_before[k] == entry;
                assert(shown[k] == entry);
            } else {
                assert(shown[shown.len() - 1] == entry);
            }
        }
    }
}

/// Showing hidden entries adds an entry to the scan as soon as the
/// directory has a readable child whose name starts with a dot.
pub proof fn lemma_hidden_entries_appear(listing: Seq<Option<ProbeView>>, at: int)
    requires
        0 <= at < listing.len(),
        readable(listing[at]),
        is_hidden_name(listing[at]->0.file_name),
    ensures
        scanned(listing, false).len() < scanned(listing, true).len(),
    decreases listing.len(),
{
    let shorter = listing.drop_last();
    lemma_hidden_filtering(shorter);
    if at < listing.len() - 1 {
        assert(shorter[at] == listing[at]);
        lemma_hidden_entries_appear(shorter, at);
    }
}

/// The operations that every file manager shares. `S` is the state that
/// a manager keeps of the directory it is in.
pub trait FsOps<S>: Sized {
    /// Moves into the directory at `path`, whose reading is `listing`, and
    /// hands out the state that the manager is then in. Where the directory
    /// could not be read, the manager stays as it was and reports why.
    fn change_dir(&mut self, path: &str, listing: Result<Listing, String>) -> (state:
        Result<&S, Error>)
        ensures
            match listing {
                Ok(_) => state is Ok,
                Err(reason) => state matches Err(error) && error.reason() == reason@ && *final(self)
                    == *old(self),
            },
    ;

    /// Whether the file or directory at `path` is hidden: whether the
    /// final component of the path starts with a dot. A path without a
    /// final component is not hidden.
    fn is_hidden(&self, path: &str) -> (hidden: bool)
        ensures
            hidden == match file_name_of(path@) {
                Some(name) => is_hidden_name(name),
                None => false,
            },
    {
        match path_file_name(path) {
            Some(name) => name_is_hidden(name.as_str()),
            None => false,
        }
    }

    /// The kind of a child, given whether it is a symbolic link and
    /// whether, with links followed, it is a directory.
    fn get_file_type(&self, is_symlink: bool, is_dir: bool) -> (kind: FileType)
        ensures
            kind == kind_of(is_symlink, is_dir),
    {
        if is_symlink {
            FileType::Symlink
        } else if is_dir {
            FileType::Directory
        } else {
            FileType::File
        }
    }

    /// The extension of the final component of `path`, without the dot.
    fn get_file_extension(&self, path: &str) -> (ext: Option<String>)
        ensures
            text_of(ext) == match file_name_of(path@) {
                Some(name) => extension_of(name),
                None => None,
            },
    {
        match path_file_name(path) {
            Some(name) => name_extension(name.as_str()),
            None => None,
        }
    }
}

} // verus!
