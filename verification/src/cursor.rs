//! The cursor over a list of labels, as mathematics: where each motion
//! takes it, and what holds of every motion.

use vstd::prelude::*;

verus! {

/// A cursor position: column `x` in the label of row `y`.
pub struct Cursor {
    pub x: int,
    pub y: int,
}

/// The motions of the cursor.
#[derive(Debug, Clone, Copy, PartialEq, Eq, Structural)]
pub enum Motion {
    Left,
    Down,
    Up,
    Right,
    LineStart,
    LineEnd,
    NextWord,
}

/// The characters that separate words in a label.
pub open spec fn is_separator_char(c: char) -> bool {
    c == '-' || c == '_' || c == '.' || c == ' '
}

/// The last column of a label; column 0 for an empty one.
pub open spec fn last_column(label: Seq<char>) -> int {
    if label.len() == 0 {
        0
    } else {
        label.len() - 1
    }
}

/// The cursor is on a character of a label, or parked at the origin of
/// an empty list or an empty label.
pub open spec fn in_range(labels: Seq<Seq<char>>, c: Cursor) -> bool {
    if labels.len() == 0 {
        c.x == 0 && c.y == 0
    } else {
        &&& 0 <= c.y < labels.len()
        &&& 0 <= c.x <= last_column(labels[c.y])
    }
}

/// The cursor pulled back onto its line where it lies past the end.
pub open spec fn clamped(labels: Seq<Seq<char>>, c: Cursor) -> Cursor {
    let last = last_column(labels[c.y]);
    Cursor { x: if c.x > last { last } else { c.x }, y: c.y }
}

/// The first column from `at` on that ends the label or holds a character
/// of another class (separator or not) than the one at `from`.
pub open spec fn run_end(label: Seq<char>, from: int, at: int) -> int
    decreases label.len() - at,
{
    if at >= label.len() || is_separator_char(label[at]) != is_separator_char(label[from]) {
        at
    } else {
        run_end(label, from, at + 1)
    }
}

/// Where a word motion from column `from` lands before clamping: past the
/// run of characters that share the class of the one at `from`.
pub open spec fn word_boundary(label: Seq<char>, from: int) -> int {
    run_end(label, from, from)
}

/// `run_end` stops at the first change of class at or after `at`.
pub proof fn lemma_run_end(label: Seq<char>, from: int, at: int)
    requires
        0 <= from <= at <= label.len(),
    ensures
        at <= run_end(label, from, at) <= label.len(),
        forall|k: int|
            at <= k < run_end(label, from, at) ==> is_separator_char(#[trigger] label[k])
                == is_separator_char(label[from]),
        run_end(label, from, at) < label.len() ==> is_separator_char(
            label[run_end(label, from, at)],
        ) != is_separator_char(label[from]),
    decreases label.len() - at,
{
    if at < label.len() && is_separator_char(label[at]) == is_separator_char(label[from]) {
        lemma_run_end(label, from, at + 1);
    }
}

/// A word motion moves forward: the boundary lies past the starting column,
/// every character before it shares the starting class, and the character
/// at it, if there is one, does not.
pub proof fn lemma_word_boundary(label: Seq<char>, from: int)
    requires
        0 <= from < label.len(),
    ensures
        from < word_boundary(label, from) <= label.len(),
        forall|k: int|
            from <= k < word_boundary(label, from) ==> is_separator_char(#[trigger] label[k])
                == is_separator_char(label[from]),
        word_boundary(label, from) < label.len() ==> is_separator_char(
            label[word_boundary(label, from)],
        ) != is_separator_char(label[from]),
{
    lemma_run_end(label, from, from);
    lemma_run_end(label, from, from + 1);
}

/// Where one motion takes the cursor. On an empty list nothing moves.
pub open spec fn moved(labels: Seq<Seq<char>>, c: Cursor, motion: Motion) -> Cursor {
    if labels.len() == 0 {
        c
    } else {
        let last_row = labels.len() - 1;
        match motion {
            Motion::Left => clamped(labels, Cursor { x: if c.x > 0 { c.x - 1 } else { 0 }, y: c.y }),
            Motion::Right => clamped(labels, Cursor { x: c.x + 1, y: c.y }),
            Motion::Down => clamped(
                labels,
                Cursor { x: c.x, y: if c.y < last_row { c.y + 1 } else { last_row } },
            ),
            Motion::Up => clamped(labels, Cursor { x: c.x, y: if c.y > 0 { c.y - 1 } else { 0 } }),
            Motion::LineStart => Cursor { x: 0, y: c.y },
            Motion::LineEnd => Cursor { x: last_column(labels[c.y]), y: c.y },
            Motion::NextWord => if c.x == last_column(labels[c.y]) {
                if c.y == last_row {
                    c
                } else {
                    Cursor { x: 0, y: c.y + 1 }
                }
            } else {
                clamped(labels, Cursor { x: word_boundary(labels[c.y], c.x), y: c.y })
            },
        }
    }
}

/// Where a sequence of motions takes the cursor, first motion first.
pub open spec fn after_moves(labels: Seq<Seq<char>>, c: Cursor, motions: Seq<Motion>) -> Cursor
    decreases motions.len(),
{
    if motions.len() == 0 {
        c
    } else {
        moved(labels, after_moves(labels, c, motions.drop_last()), motions.last())
    }
}

/// No motion takes the cursor off the list or off its line.
pub proof fn lemma_moved_in_range(labels: Seq<Seq<char>>, c: Cursor, motion: Motion)
    requires
        in_range(labels, c),
    ensures
        in_range(labels, moved(labels, c, motion)),
{
    if labels.len() > 0 && motion == Motion::NextWord && c.x != last_column(labels[c.y]) {
        lemma_word_boundary(labels[c.y], c.x);
    }
}

/// However many motions are made, and whichever, the row stays on the
/// list and the column stays on the row's label: never negative, never at
/// or past the label's length.
pub proof fn lemma_motions_saturate(labels: Seq<Seq<char>>, c: Cursor, motions: Seq<Motion>)
    requires
        in_range(labels, c),
    ensures
        in_range(labels, after_moves(labels, c, motions)),
        ({
            let end = after_moves(labels, c, motions);
            labels.len() > 0 ==> 0 <= end.y < labels.len() && 0 <= end.x && (labels[end.y].len() > 0
                ==> end.x < labels[end.y].len())
        }),
    decreases motions.len(),
{
    if motions.len() > 0 {
        lemma_motions_saturate(labels, c, motions.drop_last());
        lemma_moved_in_range(labels, after_moves(labels, c, motions.drop_last()), motions.last());
    }
}

/// Moving up from the first row, any number of times, stays on the first row.
pub proof fn lemma_up_saturates(labels: Seq<Seq<char>>, c: Cursor, motions: Seq<Motion>)
    requires
        in_range(labels, c),
        c.y == 0,
        forall|i: int| 0 <= i < motions.len() ==> motions[i] == Motion::Up,
    ensures
        after_moves(labels, c, motions).y == 0,
    decreases motions.len(),
{
    if motions.len() > 0 {
        lemma_up_saturates(labels, c, motions.drop_last());
    }
}

/// Moving down from the last row, any number of times, stays on the last row.
pub proof fn lemma_down_saturates(labels: Seq<Seq<char>>, c: Cursor, motions: Seq<Motion>)
    requires
        in_range(labels, c),
        labels.len() > 0,
        c.y == labels.len() - 1,
        forall|i: int| 0 <= i < motions.len() ==> motions[i] == Motion::Down,
    ensures
        after_moves(labels, c, motions).y == labels.len() - 1,
    decreases motions.len(),
{
    if motions.len() > 0 {
        lemma_down_saturates(labels, c, motions.drop_last());
    }
}

} // verus!
