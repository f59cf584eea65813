//! The list of entries on screen and the cursor that moves over it.

use vstd::prelude::*;

use crate::cursor::{
    clamped, in_range, is_separator_char, last_column, lemma_moved_in_range, moved, run_end,
    word_boundary, Cursor, Motion,
};
use crate::fs_ops::{lemma_scanned_len, listed_count, scanned, ProbeView};
use crate::item::{item_views, FileType, Item, ItemView};
use crate::key::Key;
use crate::layout::{shift, shifted, Bounds, Cell};
use crate::ordering::{
    display_ordered, is_directory, is_stable_sort, lemma_stable_sort_len,
    lemma_stable_sort_unique,
};
use crate::sort::sort_items;
use crate::text::{char_count, chars_of};

verus! {

/// A cursor position within the list: column `x` of row `y`.
#[derive(Debug, Clone, Copy, PartialEq, Eq, Structural)]
pub struct Position {
    pub x: usize,
    pub y: usize,
}

impl View for Position {
    type V = Cursor;

    open spec fn view(&self) -> Cursor {
        Cursor { x: self.x as int, y: self.y as int }
    }
}

/// One line of the list: an entry and the label it is shown under.
#[derive(Debug)]
pub struct ListItem {
    pub display_name: String,
    pub item: Item,
}

/// The mathematical content of a [`ListItem`].
pub struct ListItemView {
    pub display_name: Seq<char>,
    pub item: ItemView,
}

impl View for ListItem {
    type V = ListItemView;

    open spec fn view(&self) -> ListItemView {
        ListItemView { display_name: self.display_name@, item: self.item@ }
    }
}

impl Clone for ListItem {
    fn clone(&self) -> (copy: Self)
        ensures
            copy@ == self@,
    {
        ListItem { display_name: self.display_name.clone(), item: self.item.clone() }
    }
}

/// The views of a sequence of lines, position by position.
pub open spec fn line_views(lines: Seq<ListItem>) -> Seq<ListItemView> {
    lines.map_values(|line: ListItem| line@)
}

/// The labels of a sequence of lines.
pub open spec fn labels_of(lines: Seq<ListItemView>) -> Seq<Seq<char>> {
    lines.map_values(|line: ListItemView| line.display_name)
}

/// The entries of a sequence of lines.
pub open spec fn entries_of(lines: Seq<ListItemView>) -> Seq<ItemView> {
    lines.map_values(|line: ListItemView| line.item)
}

/// The label of an entry: its name, with a trailing slash for a directory.
pub open spec fn label_of(item: ItemView) -> Seq<char> {
    if is_directory(item) {
        item.file_name.push('/')
    } else {
        item.file_name
    }
}

/// Every line carries the label of its entry.
pub open spec fn labelled(lines: Seq<ListItemView>) -> bool {
    forall|i: int|
        0 <= i < lines.len() ==> (#[trigger] lines[i]).display_name == label_of(lines[i].item)
}

/// The lines that display `input`: its entries in display order, stably
/// sorted, each under its label.
pub open spec fn displays(input: Seq<ItemView>, lines: Seq<ListItemView>) -> bool {
    &&& labelled(lines)
    &&& is_stable_sort(input, entries_of(lines))
}

/// The lines that display a given sequence of entries are determined:
/// one line for each entry, and no second way to arrange them.
pub proof fn lemma_displays_unique(
    input: Seq<ItemView>,
    first: Seq<ListItemView>,
    second: Seq<ListItemView>,
)
    requires
        displays(input, first),
        displays(input, second),
    ensures
        first == second,
        first.len() == input.len(),
{
    lemma_stable_sort_unique(input, entries_of(first), entries_of(second));
    lemma_stable_sort_len(input, entries_of(first));
    assert forall|i: int| 0 <= i < first.len() implies first[i] == second[i] by {
        assert(entries_of(first)[i] == entries_of(second)[i]);
        assert(first[i].display_name == label_of(first[i].item));
        assert(second[i].display_name == label_of(second[i].item));
    }
    assert(first.len() == entries_of(first).len());
    assert(second.len() == entries_of(second).len());
    assert(first =~= second);
}

/// A directory with `n` listed children is displayed in `n` lines.
pub proof fn lemma_one_line_per_listed_child(
    listing: Seq<Option<ProbeView>>,
    show_hidden: bool,
    lines: Seq<ListItemView>,
)
    requires
        displays(scanned(listing, show_hidden), lines),
    ensures
        lines.len() == listed_count(listing, show_hidden),
{
    lemma_scanned_len(listing, show_hidden);
    lemma_stable_sort_len(scanned(listing, show_hidden), entries_of(lines));
    assert(lines.len() == entries_of(lines).len());
}

/// Turns an entry into its line.
fn list_item(item: Item) -> (line: ListItem)
    ensures
        line@.item == item@,
        line@.display_name == label_of(item@),
{
    let name = item.file_name.clone();
    let display_name = match item.file_type {
        FileType::Directory => {
            proof {
                reveal_strlit("/");
                assert("/"@ =~= seq!['/']);
                assert(name@ + seq!['/'] =~= name@.push('/'));
            }
            name.concat("/")
        },
        _ => name,
    };
    ListItem { display_name, item }
}

/// Orders entries for display and labels them.
pub fn format_names(items: Vec<Item>) -> (lines: Vec<ListItem>)
    ensures
        lines.len() == items.len(),
        displays(item_views(items@), line_views(lines@)),
        display_ordered(entries_of(line_views(lines@))),
{
    let sorted = sort_items(items);
    let ghost order = item_views(sorted@);
    let mut lines: Vec<ListItem> = Vec::new();
    let mut i: usize = 0;
    while i < sorted.len()
        invariant
            i <= sorted.len(),
            lines@.len() == i,
            order == item_views(sorted@),
            forall|k: int|
                0 <= k < i ==> (#[trigger] lines[k])@.item == order[k] && lines[k]@.display_name
                    == label_of(order[k]),
        decreases sorted.len() - i,
    {
        lines.push(list_item(sorted[i].clone()));
        i = i + 1;
    }
    proof {
        assert(entries_of(line_views(lines@)) =~= order);
        lemma_stable_sort_len(item_views(items@), order);
    }
    lines
}

/// What a [`FileListComponent`] holds.
pub struct FileListView {
    /// The lines, top to bottom.
    pub lines: Seq<ListItemView>,
    /// Where the cursor is.
    pub cursor: Cursor,
    /// Where the cursor was when it was last drawn, if it has been.
    pub drawn: Option<Cursor>,
    /// The part of the screen that the list is drawn in.
    pub bounds: Bounds,
}

/// The list as a consistent whole: lines in display order under their
/// labels, and the cursor on one of them.
pub open spec fn consistent(list: FileListView) -> bool {
    &&& labelled(list.lines)
    &&& display_ordered(entries_of(list.lines))
    &&& in_range(labels_of(list.lines), list.cursor)
}

/// The screen cell of a cursor in a list drawn at `bounds`.
pub open spec fn cell_of(bounds: Bounds, cursor: Cursor) -> Cell {
    (shifted(bounds.x as int, cursor.x) as u16, shifted(bounds.y as int, cursor.y) as u16)
}

/// The motion that a key stands for, if any.
pub open spec fn motion_of(key: Key) -> Option<Motion> {
    match key {
        Key::Char('h') => Some(Motion::Left),
        Key::Char('j') => Some(Motion::Down),
        Key::Char('k') => Some(Motion::Up),
        Key::Char('l') => Some(Motion::Right),
        Key::Char('0') => Some(Motion::LineStart),
        Key::Char('$') => Some(Motion::LineEnd),
        Key::Char('w') => Some(Motion::NextWord),
        _ => None,
    }
}

/// Where a key takes the cursor: along its motion, or nowhere.
pub open spec fn moved_by_key(labels: Seq<Seq<char>>, c: Cursor, key: Key) -> Cursor {
    match motion_of(key) {
        Some(motion) => moved(labels, c, motion),
        None => c,
    }
}

/// The list of entries on screen, with its cursor.
#[derive(Debug)]
pub struct FileListComponent {
    items: Vec<ListItem>,
    bounds: Bounds,
    last_pos: Option<Position>,
    pos: Position,
}

impl View for FileListComponent {
    type V = FileListView;

    closed spec fn view(&self) -> FileListView {
        FileListView {
            lines: line_views(self.items@),
            cursor: self.pos@,
            drawn: match self.last_pos {
                Some(pos) => Some(pos@),
                None => None,
            },
            bounds: self.bounds,
        }
    }
}

impl FileListComponent {
    #[verifier::type_invariant]
    spec fn holds_together(self) -> bool {
        consistent(self@)
    }

    /// A list of `items`, ordered and labelled for display, with the cursor
    /// on the first character of the first line.
    pub fn new(items: Vec<Item>, bounds: Bounds) -> (list: Self)
        ensures
            displays(item_views(items@), list@.lines),
            list@.lines.len() == items@.len(),
            list@.cursor == (Cursor { x: 0, y: 0 }),
            list@.drawn is None,
            list@.bounds == bounds,
            consistent(list@),
    {
        let lines = format_names(items);
        Self { last_pos: None, pos: Position { x: 0, y: 0 }, bounds, items: lines }
    }

    /// Replaces the lines by those of `items`, puts the cursor back on the
    /// first character of the first line, and draws it there.
    pub fn update(&mut self, items: Vec<Item>) -> (cell: Cell)
        ensures
            displays(item_views(items@), final(self)@.lines),
            final(self)@.lines.len() == items@.len(),
            final(self)@.cursor == (Cursor { x: 0, y: 0 }),
            final(self)@.drawn == Some(final(self)@.cursor),
            final(self)@.bounds == old(self)@.bounds,
            consistent(final(self)@),
            cell == cell_of(final(self)@.bounds, final(self)@.cursor),
    {
        let lines = format_names(items);
        let origin = Position { x: 0, y: 0 };
        *self = Self { last_pos: Some(origin), pos: origin, bounds: self.bounds, items: lines };
        (shift(self.bounds.x, 0), shift(self.bounds.y, 0))
    }

    /// Marks the cursor as drawn where it is, and says at which screen
    /// cell that is.
    pub fn draw_cursor(&mut self) -> (cell: Cell)
        ensures
            final(self)@ == (FileListView { drawn: Some(old(self)@.cursor), ..old(self)@ }),
            cell == cell_of(old(self)@.bounds, old(self)@.cursor),
            consistent(final(self)@),
    {
        proof {
            use_type_invariant(&*self);
        }
        self.last_pos = Some(self.pos);
        (shift(self.bounds.x, self.pos.x), shift(self.bounds.y, self.pos.y))
    }

    /// The line that the cursor is on; `None` when the list is empty.
    pub fn get_line_under_cursor(&self) -> (line: Option<&ListItem>)
        ensures
            match line {
                Some(line) => 0 <= self@.cursor.y < self@.lines.len() && line@
                    == self@.lines[self@.cursor.y],
                None => self@.lines.len() == 0,
            },
    {
        proof {
            use_type_invariant(self);
        }
        if self.items.len() == 0 {
            None
        } else {
            Some(&self.items[self.pos.y])
        }
    }

    /// The lines, top to bottom.
    pub fn items(&self) -> (lines: &Vec<ListItem>)
        ensures
            line_views(lines@) == self@.lines,
            consistent(self@),
    {
        proof {
            use_type_invariant(self);
        }
        &self.items
    }

    /// Where the cursor is.
    pub fn position(&self) -> (pos: Position)
        ensures
            pos@ == self@.cursor,
            consistent(self@),
    {
        proof {
            use_type_invariant(self);
        }
        self.pos
    }

    /// Whether `c` separates words.
    pub fn is_separator(c: char) -> (r: bool)
        ensures
            r == is_separator_char(c),
    {
        c == '-' || c == '_' || c == '.' || c == ' '
    }

    /// The last column of row `y`.
    fn line_end(&self, y: usize) -> (x: usize)
        requires
            y < self@.lines.len(),
        ensures
            x == last_column(labels_of(self@.lines)[y as int]),
    {
        let len = char_count(self.items[y].display_name.as_str());
        if len == 0 {
            0
        } else {
            len - 1
        }
    }

    /// `pos`, pulled back onto its line.
    fn constrain_to_line(&self, pos: Position) -> (on_line: Position)
        requires
            pos.y < self@.lines.len(),
        ensures
            on_line@ == clamped(labels_of(self@.lines), pos@),
    {
        let last = self.line_end(pos.y);
        Position { x: if pos.x > last { last } else { pos.x }, y: pos.y }
    }

    /// The start of the line below the cursor; the cursor itself on the
    /// last line.
    fn skip_to_next_line(&self) -> (next: Position)
        requires
            self@.lines.len() > 0,
            consistent(self@),
        ensures
            next@ == if self@.cursor.y == self@.lines.len() - 1 {
                self@.cursor
            } else {
                Cursor { x: 0, y: self@.cursor.y + 1 }
            },
    {
        if self.pos.y == self.items.len() - 1 {
            self.pos
        } else {
            Position { x: 0, y: self.pos.y + 1 }
        }
    }

    /// The column where the run of characters that share the class of the
    /// one under the cursor ends.
    fn skip_to_separator(&self) -> (next: Position)
        requires
            self@.lines.len() > 0,
            consistent(self@),
            self@.cursor.x < labels_of(self@.lines)[self@.cursor.y].len(),
        ensures
            next@ == (Cursor {
                x: word_boundary(labels_of(self@.lines)[self@.cursor.y], self@.cursor.x),
                y: self@.cursor.y,
            }),
    {
        let line = chars_of(self.items[self.pos.y].display_name.as_str());
        let ghost label = labels_of(self@.lines)[self@.cursor.y];
        let is_at_separator = Self::is_separator(line[self.pos.x]);
        let mut x: usize = self.pos.x;
        while x < line.len() && Self::is_separator(line[x]) == is_at_separator
            invariant
                line@ == label,
                self.pos.x <= x <= line.len(),
                self.pos.x < line.len(),
                is_at_separator == is_separator_char(label[self.pos.x as int]),
                run_end(label, self.pos.x as int, self.pos.x as int) == run_end(
                    label,
                    self.pos.x as int,
                    x as int,
                ),
            decreases line.len() - x,
        {
            x = x + 1;
        }
        Position { x, y: self.pos.y }
    }

    /// Carries out one motion of the cursor.
    pub fn move_cursor(&mut self, motion: Motion)
        ensures
            final(self)@ == (FileListView {
                cursor: moved(labels_of(old(self)@.lines), old(self)@.cursor, motion),
                ..old(self)@
            }),
            consistent(final(self)@),
    {
        proof {
            use_type_invariant(&*self);
            lemma_moved_in_range(labels_of(self@.lines), self@.cursor, motion);
        }
        if self.items.len() == 0 {
            return ;
        }
        let last_row = self.items.len() - 1;
        let pos = self.pos;
        let next = match motion {
            Motion::Left => self.constrain_to_line(
                Position { x: if pos.x > 0 { pos.x - 1 } else { 0 }, y: pos.y },
            ),
            Motion::Right => {
                let last = self.line_end(pos.y);
                Position { x: if pos.x < last { pos.x + 1 } else { last }, y: pos.y }
            },
            Motion::Down => self.constrain_to_line(
                Position { x: pos.x, y: if pos.y < last_row { pos.y + 1 } else { last_row } },
            ),
            Motion::Up => self.constrain_to_line(
                Position { x: pos.x, y: if pos.y > 0 { pos.y - 1 } else { 0 } },
            ),
            Motion::LineStart => Position { x: 0, y: pos.y },
            Motion::LineEnd => Position { x: self.line_end(pos.y), y: pos.y },
            Motion::NextWord => {
                if pos.x == self.line_end(pos.y) {
                    self.skip_to_next_line()
                } else {
                    let landed = self.skip_to_separator();
                    self.constrain_to_line(landed)
                }
            },
        };
        self.pos = next;
    }

    /// One column to the left, stopping at the first.
    pub fn move_cursor_left(&mut self)
        ensures
            final(self)@ == (FileListView {
                cursor: moved(labels_of(old(self)@.lines), old(self)@.cursor, Motion::Left),
                ..old(self)@
            }),
            consistent(final(self)@),
    {
        self.move_cursor(Motion::Left)
    }

    /// One row down, stopping at the last, and back onto the line.
    pub fn move_cursor_down(&mut self)
        ensures
            final(self)@ == (FileListView {
                cursor: moved(labels_of(old(self)@.lines), old(self)@.cursor, Motion::Down),
                ..old(self)@
            }),
            consistent(final(self)@),
    {
        self.move_cursor(Motion::Down)
    }

    /// One row up, stopping at the first, and back onto the line.
    pub fn move_cursor_up(&mut self)
        ensures
            final(self)@ == (FileListView {
                cursor: moved(labels_of(old(self)@.lines), old(self)@.cursor, Motion::Up),
                ..old(self)@
            }),
            consistent(final(self)@),
    {
        self.move_cursor(Motion::Up)
    }

    /// One column to the right, stopping at the end of the line.
    pub fn move_cursor_right(&mut self)
        ensures
            final(self)@ == (FileListView {
                cursor: moved(labels_of(old(self)@.lines), old(self)@.cursor, Motion::Right),
                ..old(self)@
            }),
            consistent(final(self)@),
    {
        self.move_cursor(Motion::Right)
    }

    /// To the first column of the line.
    pub fn move_cursor_to_line_start(&mut self)
        ensures
            final(self)@ == (FileListView {
                cursor: moved(labels_of(old(self)@.lines), old(self)@.cursor, Motion::LineStart),
                ..old(self)@
            }),
            consistent(final(self)@),
    {
        self.move_cursor(Motion::LineStart)
    }

    /// To the last column of the line.
    pub fn move_cursor_to_line_end(&mut self)
        ensures
            final(self)@ == (FileListView {
                cursor: moved(labels_of(old(self)@.lines), old(self)@.cursor, Motion::LineEnd),
                ..old(self)@
            }),
            consistent(final(self)@),
    {
        self.move_cursor(Motion::LineEnd)
    }

    /// To the next change between word and separator characters; from the
    /// last column, to the start of the next line.
    pub fn move_cursor_to_next_word(&mut self)
        ensures
            final(self)@ == (FileListView {
                cursor: moved(labels_of(old(self)@.lines), old(self)@.cursor, Motion::NextWord),
                ..old(self)@
            }),
            consistent(final(self)@),
    {
        self.move_cursor(Motion::NextWord)
    }

    /// Takes up the part of the screen that the list is drawn in.
    pub fn resize(&mut self, bounds: Bounds)
        ensures
            final(self)@ == (FileListView { bounds, ..old(self)@ }),
            consistent(final(self)@),
    {
        proof {
            use_type_invariant(&*self);
        }
        self.bounds = bounds;
    }

    /// The motion that `key` asks for, if it asks for one.
    pub fn motion_for_key(key: Key) -> (motion: Option<Motion>)
        ensures
            motion == motion_of(key),
    {
        match key {
            Key::Char(c) => {
                if c == 'h' {
                    Some(Motion::Left)
                } else if c == 'j' {
                    Some(Motion::Down)
                } else if c == 'k' {
                    Some(Motion::Up)
                } else if c == 'l' {
                    Some(Motion::Right)
                } else if c == '0' {
                    Some(Motion::LineStart)
                } else if c == '$' {
                    Some(Motion::LineEnd)
                } else if c == 'w' {
                    Some(Motion::NextWord)
                } else {
                    None
                }
            },
            _ => None,
        }
    }

    /// Moves the cursor as `key` asks, if it asks for a motion, and draws
    /// the cursor where it then is.
    pub fn handle_key_event(&mut self, key: Key) -> (cell: Cell)
        ensures
            final(self)@ == ({
                let cursor = moved_by_key(labels_of(old(self)@.lines), old(self)@.cursor, key);
                FileListView { cursor, drawn: Some(cursor), ..old(self)@ }
            }),
            cell == cell_of(final(self)@.bounds, final(self)@.cursor),
            consistent(final(self)@),
    {
        match Self::motion_for_key(key) {
            Some(motion) => self.move_cursor(motion),
            None => {},
        }
        self.draw_cursor()
    }

    /// Draws the cursor if it is not drawn where it is: says at which
    /// screen cell to draw it, or `None` where nothing is to be done.
    pub fn tick(&mut self) -> (cell: Option<Cell>)
        ensures
            final(self)@ == (FileListView { drawn: Some(old(self)@.cursor), ..old(self)@ }),
            cell == if old(self)@.drawn == Some(old(self)@.cursor) {
                None
            } else {
                Some(cell_of(old(self)@.bounds, old(self)@.cursor))
            },
            consistent(final(self)@),
    {
        proof {
            use_type_invariant(&*self);
        }
        let drawn_here = match self.last_pos {
            Some(last_pos) => last_pos == self.pos,
            None => false,
        };
        if drawn_here {
            None
        } else {
            Some(self.draw_cursor())
        }
    }
}

} // verus!
