//! The order in which entries are displayed: directories first, then by
//! name, with ties left in the order they came in.

use vstd::prelude::*;

use crate::item::{FileType, Item, ItemView};
use crate::text::{
    lemma_name_le_reflexive, lemma_name_le_total, lemma_name_le_transitive, name_at_or_before,
    name_le,
};

verus! {

/// Whether an entry is a directory. Symlinks count as non-directories here.
pub open spec fn is_directory(item: ItemView) -> bool {
    item.file_type == FileType::Directory
}

/// `a` is displayed at or before `b`: a directory before a non-directory,
/// and within each group by name.
pub open spec fn display_le(a: ItemView, b: ItemView) -> bool {
    if is_directory(a) != is_directory(b) {
        is_directory(a)
    } else {
        name_le(a.file_name, b.file_name)
    }
}

/// Every entry is displayed at or before itself.
pub proof fn lemma_display_le_reflexive(a: ItemView)
    ensures
        display_le(a, a),
{
    lemma_name_le_reflexive(a.file_name);
}

/// Any two entries are comparable in display order.
pub proof fn lemma_display_le_total(a: ItemView, b: ItemView)
    ensures
        display_le(a, b) || display_le(b, a),
{
    lemma_name_le_total(a.file_name, b.file_name);
}

/// Display order is transitive.
pub proof fn lemma_display_le_transitive(a: ItemView, b: ItemView, c: ItemView)
    requires
        display_le(a, b),
        display_le(b, c),
    ensures
        display_le(a, c),
{
    if is_directory(a) == is_directory(b) && is_directory(b) == is_directory(c) {
        lemma_name_le_transitive(a.file_name, b.file_name, c.file_name);
    }
}

/// Every entry is displayed at or before all that follow it.
pub open spec fn display_ordered(lines: Seq<ItemView>) -> bool {
    forall|i: int, j: int|
        0 <= i < j < lines.len() ==> display_le(#[trigger] lines[i], #[trigger] lines[j])
}

/// `p` lists each index below `n` exactly once.
pub open spec fn arranges(p: Seq<int>, n: int) -> bool {
    &&& p.len() == n
    &&& forall|i: int| 0 <= i < p.len() ==> 0 <= #[trigger] p[i] < n
    &&& forall|i: int, j: int| 0 <= i < j < p.len() ==> #[trigger] p[i] != #[trigger] p[j]
    &&& forall|v: int| 0 <= v < n ==> #[trigger] p.contains(v)
}

/// `out` holds the entries of `input` in display order, where `out[i]`
/// came from `input[p[i]]` and entries that compare equal keep the order
/// they had in `input`.
pub open spec fn sorts_stably(p: Seq<int>, input: Seq<ItemView>, out: Seq<ItemView>) -> bool {
    &&& arranges(p, input.len() as int)
    &&& out.len() == p.len()
    &&& forall|i: int| 0 <= i < out.len() ==> #[trigger] out[i] == input[p[i]]
    &&& display_ordered(out)
    &&& forall|i: int, j: int|
        0 <= i < j < out.len() && display_le(#[trigger] out[j], #[trigger] out[i]) ==> p[i] < p[j]
}

/// `out` is `input` rearranged into display order by a stable sort.
pub open spec fn is_stable_sort(input: Seq<ItemView>, out: Seq<ItemView>) -> bool {
    exists|p: Seq<int>| sorts_stably(p, input, out)
}

/// In display order all directories come before everything else, and
/// within the directories, and within the rest, names never decrease.
pub proof fn lemma_display_order_groups(lines: Seq<ItemView>)
    requires
        display_ordered(lines),
    ensures
        forall|i: int, j: int|
            0 <= i < j < lines.len() && is_directory(#[trigger] lines[j]) ==> is_directory(
                #[trigger] lines[i],
            ),
        forall|i: int, j: int|
            0 <= i < j < lines.len() && is_directory(#[trigger] lines[i]) == is_directory(
                #[trigger] lines[j],
            ) ==> name_le(lines[i].file_name, lines[j].file_name),
{
    assert forall|i: int, j: int|
        0 <= i < j < lines.len() && is_directory(#[trigger] lines[j]) implies is_directory(
        #[trigger] lines[i],
    ) by {
        assert(display_le(lines[i], lines[j]));
    }
    assert forall|i: int, j: int|
        0 <= i < j < lines.len() && is_directory(#[trigger] lines[i]) == is_directory(
            #[trigger] lines[j],
        ) implies name_le(lines[i].file_name, lines[j].file_name) by {
        assert(display_le(lines[i], lines[j]));
    }
}

/// A stable sort keeps every entry: the result is as long as the input.
pub proof fn lemma_stable_sort_len(input: Seq<ItemView>, out: Seq<ItemView>)
    requires
        is_stable_sort(input, out),
    ensures
        out.len() == input.len(),
        display_ordered(out),
{
    let p = choose|p: Seq<int>| sorts_stably(p, input, out);
    assert(out.len() == p.len());
}

/// Two arrangements that both sort `input` stably agree on their first
/// `upto` positions.
proof fn lemma_arrangements_agree(
    input: Seq<ItemView>,
    a: Seq<ItemView>,
    p: Seq<int>,
    b: Seq<ItemView>,
    q: Seq<int>,
    upto: int,
)
    requires
        sorts_stably(p, input, a),
        sorts_stably(q, input, b),
        0 <= upto <= input.len(),
    ensures
        forall|i: int| 0 <= i < upto ==> p[i] == q[i],
    decreases upto,
{
    if upto > 0 {
        let k = upto - 1;
        lemma_arrangements_agree(input, a, p, b, q, k);
        // Where the index at `k` of one arrangement stands in the other.
        assert(p.contains(q[k]));
        let j = choose|j: int| 0 <= j < p.len() && p[j] == q[k];
        assert(q.contains(p[k]));
        let m = choose|m: int| 0 <= m < q.len() && q[m] == p[k];
        if j < k {
            assert(q[j] == p[j]);
            assert(q[j] != q[k]);
        }
        if m < k {
            assert(p[m] == q[m]);
            assert(p[m] != p[k]);
        }
        if j > k && m > k {
            // Each of the two indices would have to come before the other.
            assert(a[k] == input[p[k]] && a[j] == input[p[j]]);
            assert(b[k] == input[q[k]] && b[m] == input[q[m]]);
            assert(display_le(a[k], a[j]));
            assert(display_le(b[k], b[m]));
            assert(display_le(a[j], a[k]) ==> p[k] < p[j]);
            assert(display_le(b[m], b[k]) ==> q[k] < q[m]);
        }
    }
}

/// Display order with stability leaves no choice: two stable sorts of
/// the same entries are the same sequence.
pub proof fn lemma_stable_sort_unique(input: Seq<ItemView>, a: Seq<ItemView>, b: Seq<ItemView>)
    requires
        is_stable_sort(input, a),
        is_stable_sort(input, b),
    ensures
        a == b,
{
    let p = choose|p: Seq<int>| sorts_stably(p, input, a);
    let q = choose|q: Seq<int>| sorts_stably(q, input, b);
    lemma_arrangements_agree(input, a, p, b, q, input.len() as int);
    assert forall|i: int| 0 <= i < a.len() implies a[i] == b[i] by {
        assert(a[i] == input[p[i]]);
        assert(b[i] == input[q[i]]);
    }
    assert(a =~= b);
}

/// Compares two entries in display order.
pub fn item_at_or_before(a: &Item, b: &Item) -> (r: bool)
    ensures
        r == display_le(a@, b@),
{
    let a_dir = a.file_type == FileType::Directory;
    let b_dir = b.file_type == FileType::Directory;
    if a_dir != b_dir {
        a_dir
    } else {
        name_at_or_before(a.file_name.as_str(), b.file_name.as_str())
    }
}

} // verus!
