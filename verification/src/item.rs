//! Directory entries and the rules that classify them.

use vstd::prelude::*;

use crate::text::text_of;

verus! {

broadcast use vstd::string::group_string_axioms;

/// What kind of filesystem object an entry is.
#[derive(Debug, Clone, Copy, PartialEq, Eq, Structural)]
pub enum FileType {
    Directory,
    File,
    Symlink,
}

/// One child of a directory.
#[derive(Debug)]
pub struct Item {
    /// The last component of the path.
    pub file_name: String,
    /// The path of the entry, as the caller resolved it.
    pub file_path: String,
    /// The kind of the entry.
    pub file_type: FileType,
    /// The extension of a regular file; `None` for anything else.
    pub file_ext: Option<String>,
    /// Whether the name marks the entry as hidden.
    pub is_hidden: bool,
}

/// The mathematical content of an [`Item`].
pub struct ItemView {
    pub file_name: Seq<char>,
    pub file_path: Seq<char>,
    pub file_type: FileType,
    pub file_ext: Option<Seq<char>>,
    pub is_hidden: bool,
}

impl View for Item {
    type V = ItemView;

    open spec fn view(&self) -> ItemView {
        ItemView {
            file_name: self.file_name@,
            file_path: self.file_path@,
            file_type: self.file_type,
            file_ext: text_of(self.file_ext),
            is_hidden: self.is_hidden,
        }
    }
}

impl Clone for Item {
    fn clone(&self) -> (copy: Self)
        ensures
            copy@ == self@,
    {
        Item {
            file_name: self.file_name.clone(),
            file_path: self.file_path.clone(),
            file_type: self.file_type,
            file_ext: match &self.file_ext {
                Some(ext) => Some(ext.clone()),
                None => None,
            },
            is_hidden: self.is_hidden,
        }
    }
}

/// The views of a sequence of items, position by position.
pub open spec fn item_views(items: Seq<Item>) -> Seq<ItemView> {
    items.map_values(|item: Item| item@)
}

/// A name is hidden exactly when it starts with a dot.
pub open spec fn is_hidden_name(name: Seq<char>) -> bool {
    name.len() > 0 && name[0] == '.'
}

/// The position of the last dot in `name`, or -1 when it has none.
pub open spec fn last_dot(name: Seq<char>) -> int
    decreases name.len(),
{
    if name.len() == 0 {
        -1
    } else if name.last() == '.' {
        name.len() - 1
    } else {
        last_dot(name.drop_last())
    }
}

/// The extension that a file name carries: what follows its last dot.
/// A name without a dot, a name whose only dot leads it, and the name
/// `..` carry none.
pub open spec fn extension_of(name: Seq<char>) -> Option<Seq<char>> {
    let dot = last_dot(name);
    if dot <= 0 || name =~= seq!['.', '.'] {
        None
    } else {
        Some(name.subrange(dot + 1, name.len() as int))
    }
}

/// `last_dot` names a dot, and no dot follows it.
pub proof fn lemma_last_dot(name: Seq<char>)
    ensures
        -1 <= last_dot(name) < name.len(),
        last_dot(name) >= 0 ==> name[last_dot(name)] == '.',
        forall|i: int| last_dot(name) < i < name.len() ==> name[i] != '.',
    decreases name.len(),
{
    if name.len() > 0 && name.last() != '.' {
        let shorter = name.drop_last();
        lemma_last_dot(shorter);
        assert forall|i: int| last_dot(name) < i < name.len() implies name[i] != '.' by {
            if i < shorter.len() {
                assert(shorter[i] == name[i]);
            }
        }
    }
}

/// An entry as a scan must produce it: hidden by its name alone, and
/// with an extension only where it is a regular file, taken from its name.
pub open spec fn well_formed(item: ItemView) -> bool {
    &&& item.is_hidden == is_hidden_name(item.file_name)
    &&& item.file_ext == if item.file_type == FileType::File {
        extension_of(item.file_name)
    } else {
        None
    }
}

/// Whether `name` is hidden: whether it starts with a dot.
pub fn name_is_hidden(name: &str) -> (hidden: bool)
    ensures
        hidden == is_hidden_name(name@),
{
    let mut rest = name.chars();
    match rest.next() {
        Some(c) => c == '.',
        None => false,
    }
}

/// The extension that `name` carries, without the dot.
pub fn name_extension(name: &str) -> (ext: Option<String>)
    ensures
        text_of(ext) == extension_of(name@),
{
    let len = name.unicode_len();
    let mut dot: Option<usize> = None;
    let mut at: usize = 0;
    for c in it: name.chars()
        invariant
            it.seq() == name@,
            at == it.index(),
            len == name@.len(),
            match dot {
                Some(d) => d == last_dot(name@.subrange(0, at as int)),
                None => last_dot(name@.subrange(0, at as int)) == -1,
            },
    {
        proof {
            let next = name@.subrange(0, at + 1);
            assert(next.drop_last() =~= name@.subrange(0, at as int));
            assert(next.last() == c);
        }
        if c == '.' {
            dot = Some(at);
        }
        at = at + 1;
    }
    proof {
        assert(name@.subrange(0, len as int) =~= name@);
        lemma_last_dot(name@);
    }
    match dot {
        None => None,
        Some(d) => {
            if d == 0 || (len == 2 && name_is_hidden(name)) {
                assert(d != 0 ==> name@ =~= seq!['.', '.']);
                None
            } else {
                assert(name@ =~= seq!['.', '.'] ==> name@[0] == '.');
                Some(name.substring_char(d + 1, len).to_owned())
            }
        },
    }
}

} // verus!
