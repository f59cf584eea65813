//! The gutter of line numbers beside the list.

use vstd::prelude::*;

use crate::layout::Bounds;

verus! {

/// One row of the gutter.
#[derive(Debug)]
pub struct GutterLine {
    /// What the row shows.
    pub text: String,
    /// Whether the row numbers a line of the list, or lies below the last.
    pub is_number: bool,
}

/// The mathematical content of a [`GutterLine`].
pub struct GutterLineView {
    pub text: Seq<char>,
    pub is_number: bool,
}

impl View for GutterLine {
    type V = GutterLineView;

    open spec fn view(&self) -> GutterLineView {
        GutterLineView { text: self.text@, is_number: self.is_number }
    }
}

/// The decimal digit `d`.
pub open spec fn digit(d: int) -> char {
    seq!['0', '1', '2', '3', '4', '5', '6', '7', '8', '9'][d]
}

/// `n` in decimal digits.
pub open spec fn decimal(n: nat) -> Seq<char>
    decreases n,
{
    if n < 10 {
        seq![digit(n as int)]
    } else {
        decimal(n / 10).push(digit((n % 10) as int))
    }
}

/// The width to which line numbers are padded.
pub open spec fn number_width() -> int {
    3
}

/// The line number `n` as the gutter shows it: in decimal digits, with
/// spaces in front up to the width of the gutter.
pub open spec fn number_label(n: nat) -> Seq<char> {
    let digits = decimal(n);
    if digits.len() < number_width() {
        Seq::new((number_width() - digits.len()) as nat, |i: int| ' ') + digits
    } else {
        digits
    }
}

/// Row `row` of a gutter over `total_lines` lines, scrolled by `scroll`.
pub open spec fn gutter_line(total_lines: int, scroll: int, row: int) -> GutterLineView {
    if row < total_lines {
        GutterLineView { text: number_label((scroll + 1 + row) as nat), is_number: true }
    } else {
        GutterLineView { text: seq!['~'], is_number: false }
    }
}

/// What a [`LineNumbersComponent`] holds.
pub struct LineNumbersView {
    pub total_lines: int,
    pub bounds: Bounds,
    pub scroll: int,
}

/// The gutter of line numbers.
#[derive(Debug)]
pub struct LineNumbersComponent {
    total_lines: usize,
    bounds: Bounds,
    scroll: u16,
}

impl View for LineNumbersComponent {
    type V = LineNumbersView;

    closed spec fn view(&self) -> LineNumbersView {
        LineNumbersView {
            total_lines: self.total_lines as int,
            bounds: self.bounds,
            scroll: self.scroll as int,
        }
    }
}

/// The text of one decimal digit.
fn digit_text(d: u32) -> (text: &'static str)
    requires
        d < 10,
    ensures
        text@ == seq![digit(d as int)],
{
    proof {
        reveal_strlit("0");
        reveal_strlit("1");
        reveal_strlit("2");
        reveal_strlit("3");
        reveal_strlit("4");
        reveal_strlit("5");
        reveal_strlit("6");
        reveal_strlit("7");
        reveal_strlit("8");
        reveal_strlit("9");
    }
    let text = if d == 0 {
        "0"
    } else if d == 1 {
        "1"
    } else if d == 2 {
        "2"
    } else if d == 3 {
        "3"
    } else if d == 4 {
        "4"
    } else if d == 5 {
        "5"
    } else if d == 6 {
        "6"
    } else if d == 7 {
        "7"
    } else if d == 8 {
        "8"
    } else {
        "9"
    };
    assert(text@ =~= seq![digit(d as int)]);
    text
}

/// `n` in decimal digits.
fn decimal_text(n: u32) -> (text: String)
    ensures
        text@ == decimal(n as nat),
    decreases n,
{
    if n < 10 {
        String::from_str(digit_text(n))
    } else {
        let text = decimal_text(n / 10).concat(digit_text(n % 10));
        assert(text@ =~= decimal((n / 10) as nat).push(digit((n % 10) as int)));
        text
    }
}

/// The line number `n` as the gutter shows it.
pub fn number_text(n: u32) -> (text: String)
    ensures
        text@ == number_label(n as nat),
{
    let digits = decimal_text(n);
    let len = digits.as_str().unicode_len();
    let mut text = String::new();
    let mut width: usize = len;
    while width < 3
        invariant
            len <= width,
            len < 3 ==> width <= 3,
            len >= 3 ==> width == len,
            text@ == Seq::new((width - len) as nat, |i: int| ' '),
        decreases 3 - width,
    {
        proof {
            reveal_strlit(" ");
        }
        let ghost before = text@;
        text.append(" ");
        width = width + 1;
        assert(text@ =~= Seq::new((width - len) as nat, |i: int| ' '));
    }
    let ghost padding = text@;
    let text = text.concat(digits.as_str());
    proof {
        assert(digits@.len() == len);
        if len < 3 {
            assert(width == 3);
            assert(padding =~= Seq::new((number_width() - digits@.len()) as nat, |i: int| ' '));
        } else {
            assert(width == len);
            assert(padding =~= Seq::<char>::empty());
            assert(text@ =~= digits@);
        }
    }
    text
}

impl LineNumbersComponent {
    /// A gutter for `total_lines` lines, drawn in `size`, scrolled by `scroll`.
    pub fn new(total_lines: usize, size: Bounds, scroll: u16) -> (gutter: Self)
        ensures
            gutter@ == (LineNumbersView {
                total_lines: total_lines as int,
                bounds: size,
                scroll: scroll as int,
            }),
    {
        Self { scroll, total_lines, bounds: size }
    }

    /// Takes up a new number of lines and a new scroll offset.
    pub fn update(&mut self, total_lines: usize, scroll: u16)
        ensures
            final(self)@ == (LineNumbersView {
                total_lines: total_lines as int,
                scroll: scroll as int,
                ..old(self)@
            }),
    {
        self.scroll = scroll;
        self.total_lines = total_lines;
    }

    /// Takes up the part of the screen that the gutter is drawn in.
    pub fn resize(&mut self, size: Bounds)
        ensures
            final(self)@ == (LineNumbersView { bounds: size, ..old(self)@ }),
    {
        self.bounds = size;
    }

    /// The rows of the gutter, top to bottom: one for each row of its
    /// bounds, numbered from the scroll offset as far as there are lines.
    pub fn compose_list(&self) -> (rows: Vec<GutterLine>)
        ensures
            rows@.len() == self@.bounds.height,
            forall|row: int|
                0 <= row < rows@.len() ==> (#[trigger] rows[row])@ == gutter_line(
                    self@.total_lines,
                    self@.scroll,
                    row,
                ),
    {
        let mut rows: Vec<GutterLine> = Vec::new();
        let mut row: u16 = 0;
        while row < self.bounds.height
            invariant
                row <= self.bounds.height,
                rows@.len() == row,
                forall|r: int|
                    0 <= r < rows@.len() ==> (#[trigger] rows[r])@ == gutter_line(
                        self@.total_lines,
                        self@.scroll,
                        r,
                    ),
            decreases self.bounds.height - row,
        {
            if (row as usize) < self.total_lines {
                let number: u32 = self.scroll as u32 + 1 + row as u32;
                rows.push(GutterLine { text: number_text(number), is_number: true });
            } else {
                proof {
                    reveal_strlit("~");
                    assert("~"@ =~= seq!['~']);
                }
                rows.push(GutterLine { text: String::from_str("~"), is_number: false });
            }
            row = row + 1;
        }
        rows
    }
}

} // verus!
