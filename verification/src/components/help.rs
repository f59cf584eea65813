//! The pane that explains the keys.

use vstd::prelude::*;

verus! {

/// What a [`HelpComponent`] holds: the keys, and beside each what it does.
pub struct HelpView {
    pub keys: Seq<Seq<char>>,
    pub lines: Seq<Seq<char>>,
}

/// The keys that the help explains, and what it says of each.
pub open spec fn bindings() -> HelpView {
    HelpView {
        keys: seq!["-"@, "Enter"@, "q"@, "?"@, "H"@],
        lines: seq![
            "Move up to parent directory"@,
            "Open the entry under the cursor"@,
            "Quit glm"@,
            "Toggle this help pane"@,
            "Toggle hidden files"@,
        ],
    }
}

/// The views of a sequence of texts, position by position.
pub open spec fn texts(lines: Seq<String>) -> Seq<Seq<char>> {
    lines.map_values(|line: String| line@)
}

/// The help pane.
#[derive(Debug)]
pub struct HelpComponent {
    keys: Vec<String>,
    lines: Vec<String>,
}

impl View for HelpComponent {
    type V = HelpView;

    closed spec fn view(&self) -> HelpView {
        HelpView { keys: texts(self.keys@), lines: texts(self.lines@) }
    }
}

impl HelpComponent {
    /// The help for the keys of the browser.
    pub fn new() -> (help: Self)
        ensures
            help@ == bindings(),
    {
        let mut keys: Vec<String> = Vec::new();
        keys.push(String::from_str("-"));
        keys.push(String::from_str("Enter"));
        keys.push(String::from_str("q"));
        keys.push(String::from_str("?"));
        keys.push(String::from_str("H"));
        let mut lines: Vec<String> = Vec::new();
        lines.push(String::from_str("Move up to parent directory"));
        lines.push(String::from_str("Open the entry under the cursor"));
        lines.push(String::from_str("Quit glm"));
        lines.push(String::from_str("Toggle this help pane"));
        lines.push(String::from_str("Toggle hidden files"));
        assert(texts(keys@) =~= bindings().keys);
        assert(texts(lines@) =~= bindings().lines);
        Self { keys, lines }
    }

    /// The keys, top to bottom.
    pub fn keys(&self) -> (keys: &Vec<String>)
        ensures
            texts(keys@) == self@.keys,
    {
        &self.keys
    }

    /// What each key does, top to bottom.
    pub fn lines(&self) -> (lines: &Vec<String>)
        ensures
            texts(lines@) == self@.lines,
    {
        &self.lines
    }
}

} // verus!
