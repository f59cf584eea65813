//! Sorting entries into display order: a merge sort that keeps entries
//! that compare equal in the order they came in.

use vstd::prelude::*;

use crate::item::{item_views, Item, ItemView};
use crate::ordering::{
    display_le, display_ordered, is_stable_sort, item_at_or_before, lemma_display_le_reflexive,
    lemma_display_le_total, lemma_display_le_transitive, lemma_stable_sort_len, sorts_stably,
};

verus! {

/// The entry at index `u` of `input` belongs before the one at index `v`:
/// it is displayed before it, or they compare equal and it came first.
pub open spec fn comes_before(input: Seq<ItemView>, u: int, v: int) -> bool {
    display_le(input[u], input[v]) && (display_le(input[v], input[u]) ==> u < v)
}

/// `input` is two runs, split at `split`, each in display order.
pub open spec fn two_runs(input: Seq<ItemView>, split: int) -> bool {
    &&& 0 <= split <= input.len()
    &&& forall|u: int, v: int|
        0 <= u <= v < split ==> display_le(#[trigger] input[u], #[trigger] input[v])
    &&& forall|u: int, v: int|
        split <= u <= v < input.len() ==> display_le(#[trigger] input[u], #[trigger] input[v])
}

/// Index `u` is still in one of the runs, of which `l` and `r` entries
/// are left.
pub open spec fn waiting(split: int, l: int, r: int, u: int) -> bool {
    0 <= u < l || split <= u < split + r
}

/// Index `v` has been taken from the runs, of which `l` and `r` entries
/// are left.
pub open spec fn taken(len: int, split: int, l: int, r: int, v: int) -> bool {
    l <= v < split || split + r <= v < len
}

/// The state of a merge from the back: `falling` holds what has been taken
/// from the two runs, last entry first, where `falling[k]` came from
/// `input[pf[k]]`, and everything still waiting belongs before all of it.
pub open spec fn merging(
    input: Seq<ItemView>,
    split: int,
    l: int,
    r: int,
    pf: Seq<int>,
    falling: Seq<ItemView>,
) -> bool {
    &&& 0 <= l <= split
    &&& 0 <= r <= input.len() - split
    &&& pf.len() == falling.len()
    &&& pf.len() == (split - l) + (input.len() - split - r)
    &&& forall|k: int|
        0 <= k < pf.len() ==> taken(input.len() as int, split, l, r, #[trigger] pf[k])
            && falling[k] == input[pf[k]]
    &&& forall|k: int, m: int|
        0 <= k < m < pf.len() ==> comes_before(input, #[trigger] pf[m], #[trigger] pf[k])
    &&& forall|k: int, u: int|
        0 <= k < pf.len() && #[trigger] waiting(split, l, r, u) ==> comes_before(
            input,
            u,
            #[trigger] pf[k],
        )
    &&& forall|v: int|
        taken(input.len() as int, split, l, r, v) ==> #[trigger] pf.contains(v)
}

/// Within a run, an entry is displayed at or before every later one.
proof fn lemma_run_order(input: Seq<ItemView>, split: int, u: int, v: int)
    requires
        two_runs(input, split),
        0 <= u <= v < split || split <= u <= v < input.len(),
    ensures
        display_le(input[u], input[v]),
{
}

/// Taking the last entry of the right run keeps the merge in order, where
/// the last entry of the left run is displayed at or before it.
proof fn lemma_take_right(
    input: Seq<ItemView>,
    split: int,
    l: int,
    r: int,
    pf: Seq<int>,
    falling: Seq<ItemView>,
)
    requires
        two_runs(input, split),
        merging(input, split, l, r, pf, falling),
        r > 0,
        l > 0 ==> display_le(input[l - 1], input[split + r - 1]),
    ensures
        merging(
            input,
            split,
            l,
            r - 1,
            pf.push(split + r - 1),
            falling.push(input[split + r - 1]),
        ),
{
    let v = split + r - 1;
    let len = input.len() as int;
    let pf2 = pf.push(v);
    let falling2 = falling.push(input[v]);
    assert(waiting(split, l, r, v));
    assert forall|k: int| 0 <= k < pf2.len() implies taken(len, split, l, r - 1, #[trigger] pf2[k])
        && falling2[k] == input[pf2[k]] by {
        if k < pf.len() {
            assert(taken(len, split, l, r, pf[k]));
        }
    }
    assert forall|k: int, m: int| 0 <= k < m < pf2.len() implies comes_before(
        input,
        #[trigger] pf2[m],
        #[trigger] pf2[k],
    ) by {
        if m < pf.len() {
            assert(comes_before(input, pf[m], pf[k]));
        } else {
            assert(comes_before(input, v, pf[k]));
        }
    }
    assert forall|k: int, u: int|
        0 <= k < pf2.len() && #[trigger] waiting(split, l, r - 1, u) implies comes_before(
        input,
        u,
        #[trigger] pf2[k],
    ) by {
        assert(waiting(split, l, r, u));
        if k < pf.len() {
            assert(comes_before(input, u, pf[k]));
        } else if u >= split {
            lemma_run_order(input, split, u, v);
        } else {
            lemma_run_order(input, split, u, l - 1);
            lemma_display_le_transitive(input[u], input[l - 1], input[v]);
        }
    }
    assert forall|w: int| taken(len, split, l, r - 1, w) implies #[trigger] pf2.contains(w) by {
        if w == v {
            assert(pf2[pf.len() as int] == w);
        } else {
            assert(taken(len, split, l, r, w));
            assert(pf.contains(w));
            let k = choose|k: int| 0 <= k < pf.len() && pf[k] == w;
            assert(pf2[k] == w);
        }
    }
}

/// Taking the last entry of the left run keeps the merge in order, where
/// it is not displayed at or before the last entry of the right run.
proof fn lemma_take_left(
    input: Seq<ItemView>,
    split: int,
    l: int,
    r: int,
    pf: Seq<int>,
    falling: Seq<ItemView>,
)
    requires
        two_runs(input, split),
        merging(input, split, l, r, pf, falling),
        l > 0,
        r > 0 ==> !display_le(input[l - 1], input[split + r - 1]),
    ensures
        merging(input, split, l - 1, r, pf.push(l - 1), falling.push(input[l - 1])),
{
    let v = l - 1;
    let len = input.len() as int;
    let pf2 = pf.push(v);
    let falling2 = falling.push(input[v]);
    assert(waiting(split, l, r, v));
    assert forall|k: int| 0 <= k < pf2.len() implies taken(len, split, l - 1, r, #[trigger] pf2[k])
        && falling2[k] == input[pf2[k]] by {
        if k < pf.len() {
            assert(taken(len, split, l, r, pf[k]));
        }
    }
    assert forall|k: int, m: int| 0 <= k < m < pf2.len() implies comes_before(
        input,
        #[trigger] pf2[m],
        #[trigger] pf2[k],
    ) by {
        if m < pf.len() {
            assert(comes_before(input, pf[m], pf[k]));
        } else {
            assert(comes_before(input, v, pf[k]));
        }
    }
    assert forall|k: int, u: int|
        0 <= k < pf2.len() && #[trigger] waiting(split, l - 1, r, u) implies comes_before(
        input,
        u,
        #[trigger] pf2[k],
    ) by {
        assert(waiting(split, l, r, u));
        if k < pf.len() {
            assert(comes_before(input, u, pf[k]));
        } else if u < split {
            lemma_run_order(input, split, u, v);
        } else {
            // An entry of the right run that the taken one were at or
            // before would put it at or before the last of that run.
            let last = split + r - 1;
            lemma_run_order(input, split, u, last);
            lemma_display_le_total(input[u], input[v]);
            if display_le(input[v], input[u]) {
                lemma_display_le_transitive(input[v], input[u], input[last]);
            }
        }
    }
    assert forall|w: int| taken(len, split, l - 1, r, w) implies #[trigger] pf2.contains(w) by {
        if w == v {
            assert(pf2[pf.len() as int] == w);
        } else {
            assert(taken(len, split, l, r, w));
            assert(pf.contains(w));
            let k = choose|k: int| 0 <= k < pf.len() && pf[k] == w;
            assert(pf2[k] == w);
        }
    }
}

/// What a finished merge holds, read backwards, is the two runs sorted
/// stably.
proof fn lemma_merged(input: Seq<ItemView>, split: int, pf: Seq<int>, falling: Seq<ItemView>)
    requires
        merging(input, split, 0, 0, pf, falling),
    ensures
        sorts_stably(pf.reverse(), input, falling.reverse()),
{
    let len = input.len() as int;
    let p = pf.reverse();
    let out = falling.reverse();
    assert forall|i: int| 0 <= i < p.len() implies 0 <= #[trigger] p[i] < len by {
        assert(taken(len, split, 0, 0, pf[len - 1 - i]));
    }
    assert forall|i: int, j: int| 0 <= i < j < p.len() implies comes_before(input, p[i], p[j]) by {
        assert(comes_before(input, pf[len - 1 - i], pf[len - 1 - j]));
    }
    assert forall|i: int, j: int| 0 <= i < j < p.len() implies #[trigger] p[i] != #[trigger] p[j] by {
        assert(comes_before(input, p[i], p[j]));
    }
    assert forall|v: int| 0 <= v < len implies #[trigger] p.contains(v) by {
        assert(taken(len, split, 0, 0, v));
        assert(pf.contains(v));
        let k = choose|k: int| 0 <= k < pf.len() && pf[k] == v;
        assert(p[len - 1 - k] == v);
    }
    assert forall|i: int| 0 <= i < out.len() implies #[trigger] out[i] == input[p[i]] by {
        assert(taken(len, split, 0, 0, pf[len - 1 - i]));
    }
    assert forall|i: int, j: int| 0 <= i < j < out.len() implies display_le(
        #[trigger] out[i],
        #[trigger] out[j],
    ) by {
        assert(comes_before(input, p[i], p[j]));
    }
    assert forall|i: int, j: int|
        0 <= i < j < out.len() && display_le(#[trigger] out[j], #[trigger] out[i]) implies p[i]
        < p[j] by {
        assert(comes_before(input, p[i], p[j]));
    }
}

/// Merges two runs that are each in display order. An entry of `left`
/// stays before every entry of `right` that compares equal to it.
fn merge(left: Vec<Item>, right: Vec<Item>) -> (merged: Vec<Item>)
    requires
        display_ordered(item_views(left@)),
        display_ordered(item_views(right@)),
    ensures
        is_stable_sort(item_views(left@) + item_views(right@), item_views(merged@)),
{
    let ghost input = item_views(left@) + item_views(right@);
    let ghost split = left@.len() as int;
    let mut left = left;
    let mut right = right;
    let mut falling: Vec<Item> = Vec::new();
    let ghost mut pf: Seq<int> = Seq::empty();
    proof {
        lemma_two_runs(item_views(left@), item_views(right@));
        assert(item_views(falling@) =~= Seq::<ItemView>::empty());
    }
    while left.len() > 0 || right.len() > 0
        invariant
            two_runs(input, split),
            left@.len() <= split,
            split + right@.len() <= input.len(),
            forall|u: int| 0 <= u < left@.len() ==> (#[trigger] left[u])@ == input[u],
            forall|u: int| 0 <= u < right@.len() ==> (#[trigger] right[u])@ == input[split + u],
            merging(input, split, left@.len() as int, right@.len() as int, pf, item_views(falling@)),
        decreases left@.len() + right@.len(),
    {
        let ghost l = left@.len() as int;
        let ghost r = right@.len() as int;
        let ghost before = item_views(falling@);
        let from_right = if right.len() == 0 {
            false
        } else if left.len() == 0 {
            true
        } else {
            item_at_or_before(&left[left.len() - 1], &right[right.len() - 1])
        };
        if from_right {
            let item = right.pop().unwrap();
            proof {
                lemma_take_right(input, split, l, r, pf, before);
                pf = pf.push(split + r - 1);
            }
            falling.push(item);
            assert(item_views(falling@) =~= before.push(input[split + r - 1]));
        } else {
            let item = left.pop().unwrap();
            proof {
                lemma_take_left(input, split, l, r, pf, before);
                pf = pf.push(l - 1);
            }
            falling.push(item);
            assert(item_views(falling@) =~= before.push(input[l - 1]));
        }
    }
    let ghost fallen = item_views(falling@);
    let mut merged: Vec<Item> = Vec::new();
    while falling.len() > 0
        invariant
            falling@.len() <= fallen.len(),
            merged@.len() == fallen.len() - falling@.len(),
            forall|k: int| 0 <= k < falling@.len() ==> (#[trigger] falling[k])@ == fallen[k],
            forall|i: int|
                0 <= i < merged@.len() ==> (#[trigger] merged[i])@ == fallen[fallen.len() - 1 - i],
        decreases falling@.len(),
    {
        let item = falling.pop().unwrap();
        merged.push(item);
    }
    proof {
        lemma_merged(input, split, pf, fallen);
        assert(item_views(merged@) =~= fallen.reverse());
    }
    merged
}

/// Two sequences in display order, one after the other, are two runs.
proof fn lemma_two_runs(left: Seq<ItemView>, right: Seq<ItemView>)
    requires
        display_ordered(left),
        display_ordered(right),
    ensures
        two_runs(left + right, left.len() as int),
{
    let input = left + right;
    let split = left.len() as int;
    assert forall|u: int, v: int| 0 <= u <= v < split implies display_le(
        #[trigger] input[u],
        #[trigger] input[v],
    ) by {
        if u < v {
            assert(display_le(left[u], left[v]));
        } else {
            lemma_display_le_reflexive(left[u]);
        }
    }
    assert forall|u: int, v: int| split <= u <= v < input.len() implies display_le(
        #[trigger] input[u],
        #[trigger] input[v],
    ) by {
        if u < v {
            assert(display_le(right[u - split], right[v - split]));
        } else {
            lemma_display_le_reflexive(right[u - split]);
        }
    }
}

/// Sorting two halves stably and merging the results stably sorts the
/// whole stably.
proof fn lemma_sorted_halves(
    a: Seq<ItemView>,
    b: Seq<ItemView>,
    left: Seq<ItemView>,
    right: Seq<ItemView>,
    merged: Seq<ItemView>,
)
    requires
        is_stable_sort(a, left),
        is_stable_sort(b, right),
        is_stable_sort(left + right, merged),
    ensures
        is_stable_sort(a + b, merged),
{
    let pl = choose|p: Seq<int>| sorts_stably(p, a, left);
    let pr = choose|p: Seq<int>| sorts_stably(p, b, right);
    let pm = choose|p: Seq<int>| sorts_stably(p, left + right, merged);
    let runs = left + right;
    let input = a + b;
    let split = a.len() as int;
    let q = Seq::new(
        merged.len(),
        |i: int|
            if pm[i] < split {
                pl[pm[i]]
            } else {
                split + pr[pm[i] - split]
            },
    );
    assert(left.len() == a.len() && right.len() == b.len());
    assert forall|i: int| 0 <= i < q.len() implies 0 <= #[trigger] q[i] < input.len()
        && merged[i] == input[q[i]] by {
        let at = pm[i];
        assert(merged[i] == runs[at]);
        if at < split {
            assert(left[at] == a[pl[at]]);
        } else {
            assert(right[at - split] == b[pr[at - split]]);
        }
    }
    assert forall|i: int, j: int| 0 <= i < j < q.len() implies #[trigger] q[i] != #[trigger] q[j] by {
        assert(pm[i] != pm[j]);
        if pm[i] < split && pm[j] < split {
            if pm[i] < pm[j] {
                assert(pl[pm[i]] != pl[pm[j]]);
            } else {
                assert(pl[pm[j]] != pl[pm[i]]);
            }
        } else if pm[i] >= split && pm[j] >= split {
            if pm[i] < pm[j] {
                assert(pr[pm[i] - split] != pr[pm[j] - split]);
            } else {
                assert(pr[pm[j] - split] != pr[pm[i] - split]);
            }
        }
    }
    assert forall|v: int| 0 <= v < input.len() implies #[trigger] q.contains(v) by {
        let at = if v < split {
            assert(pl.contains(v));
            choose|k: int| 0 <= k < pl.len() && pl[k] == v
        } else {
            assert(pr.contains(v - split));
            split + choose|k: int| 0 <= k < pr.len() && pr[k] == v - split
        };
        assert(pm.contains(at));
        let i = choose|i: int| 0 <= i < pm.len() && pm[i] == at;
        assert(q[i] == v);
    }
    assert forall|i: int, j: int|
        0 <= i < j < merged.len() && display_le(#[trigger] merged[j], #[trigger] merged[i]) implies q[i]
        < q[j] by {
        assert(pm[i] < pm[j]);
        assert(merged[i] == runs[pm[i]] && merged[j] == runs[pm[j]]);
        if pm[j] < split {
            assert(display_le(left[pm[j]], left[pm[i]]) ==> pl[pm[i]] < pl[pm[j]]);
        } else if pm[i] >= split {
            assert(display_le(right[pm[j] - split], right[pm[i] - split]) ==> pr[pm[i] - split]
                < pr[pm[j] - split]);
        }
    }
    assert(sorts_stably(q, input, merged));
}

/// Rearranges `items` into display order. Entries that compare equal stay
/// in the order they were given.
pub fn sort_items(items: Vec<Item>) -> (sorted: Vec<Item>)
    ensures
        is_stable_sort(item_views(items@), item_views(sorted@)),
    decreases items@.len(),
{
    if items.len() <= 1 {
        proof {
            let views = item_views(items@);
            let p = Seq::new(views.len(), |i: int| i);
            assert forall|v: int| 0 <= v < views.len() implies #[trigger] p.contains(v) by {
                assert(p[v] == v);
            }
            assert(sorts_stably(p, views, views));
        }
        return items;
    }
    let ghost whole = item_views(items@);
    let mut left = items;
    let right = left.split_off(left.len() / 2);
    let ghost a = item_views(left@);
    let ghost b = item_views(right@);
    assert(a + b =~= whole);
    let left = sort_items(left);
    let right = sort_items(right);
    proof {
        lemma_stable_sort_len(a, item_views(left@));
        lemma_stable_sort_len(b, item_views(right@));
    }
    let merged = merge(left, right);
    proof {
        lemma_sorted_halves(a, b, item_views(left@), item_views(right@), item_views(merged@));
    }
    merged
}

} // verus!
