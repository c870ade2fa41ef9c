//! Orders of names.
use crate::text::str_precedes;
use crate::text;
use vstd::prelude::*;
use vstd::string::*;

verus! {

/// Of two entries the one whose name comes first, and of two with the same name the earlier.
pub open spec fn comes_before(names: Seq<Seq<char>>, a: int, b: int) -> bool {
    text::precedes(names[a], names[b]) || (names[a] == names[b] && a < b)
}

/// All entries, each once, in the order of their names.
pub open spec fn name_order(names: Seq<Seq<char>>, order: Seq<int>) -> bool {
    &&& order.len() == names.len()
    &&& forall|i: int| 0 <= i < order.len() ==> 0 <= #[trigger] order[i] < names.len()
    &&& forall|i: int, j: int|
        0 <= i < j < order.len() ==> comes_before(names, #[trigger] order[i], #[trigger] order[j])
}

pub open spec fn places(v: Seq<usize>) -> Seq<int> {
    Seq::new(v.len(), |i: int| v[i] as int)
}

/// The first `k` entries in the order of their names.
spec fn ordered_upto(names: Seq<Seq<char>>, order: Seq<int>, k: int) -> bool {
    &&& order.len() == k
    &&& forall|i: int| 0 <= i < order.len() ==> 0 <= #[trigger] order[i] < k
    &&& forall|i: int, j: int|
        0 <= i < j < order.len() ==> comes_before(names, #[trigger] order[i], #[trigger] order[j])
}

proof fn inserted_in_order(names: Seq<Seq<char>>, order: Seq<int>, k: int, p: int)
    requires
        ordered_upto(names, order, k),
        0 <= k < names.len(),
        0 <= p <= order.len(),
        forall|q: int| 0 <= q < p ==> !text::precedes(names[k], names[#[trigger] order[q]]),
        p < order.len() ==> text::precedes(names[k], names[order[p]]),
    ensures
        ordered_upto(names, order.insert(p, k), k + 1),
{
    let after = order.insert(p, k);
    assert forall|i: int| 0 <= i < after.len() implies 0 <= #[trigger] after[i] < k + 1 by {
        if i < p {
            assert(after[i] == order[i]);
        } else if i > p {
            assert(after[i] == order[i - 1]);
        }
    }
    assert forall|i: int, j: int| 0 <= i < j < after.len() implies comes_before(
        names,
        #[trigger] after[i],
        #[trigger] after[j],
    ) by {
        if i < p && j < p {
            assert(after[i] == order[i] && after[j] == order[j]);
        } else if i < p && j == p {
            assert(after[i] == order[i]);
            text::precedes_total(names[order[i]], names[k]);
        } else if i < p && j > p {
            assert(after[i] == order[i] && after[j] == order[j - 1]);
        } else if i == p {
            assert(after[j] == order[j - 1]);
            if j - 1 > p {
                assert(comes_before(names, order[p], order[j - 1]));
                if text::precedes(names[order[p]], names[order[j - 1]]) {
                    text::precedes_transitive(names[k], names[order[p]], names[order[j - 1]]);
                }
            }
        } else {
            assert(after[i] == order[i - 1] && after[j] == order[j - 1]);
        }
    }
}

/// The places of the names in their order; equal names stay in the order they came in.
pub fn sorted_by_name(names: &Vec<String>) -> (r: Vec<usize>)
    ensures
        name_order(text::texts(names@), places(r@)),
{
    let ghost all = text::texts(names@);
    let mut out: Vec<usize> = Vec::new();
    let mut k: usize = 0;
    while k < names.len()
        invariant
            k <= names@.len(),
            all == text::texts(names@),
            all.len() == names@.len(),
            ordered_upto(all, places(out@), k as int),
        decreases names@.len() - k,
    {
        let ghost before = places(out@);
        let mut p: usize = 0;
        assert(before.len() == out@.len());
        assert forall|i: int| 0 <= i < out@.len() implies (#[trigger] out@[i]) < k by {
            assert(before[i] == out@[i]);
        }
        while p < out.len() && !str_precedes(&names[k], &names[out[p]])
            invariant
                p <= out@.len(),
                k < names@.len(),
                before == places(out@),
                before.len() == out@.len(),
                all == text::texts(names@),
                all.len() == names@.len(),
                forall|i: int| 0 <= i < out@.len() ==> (#[trigger] out@[i]) < k,
                forall|q: int|
                    0 <= q < p ==> !text::precedes(all[k as int], all[#[trigger] before[q]]),
            decreases out@.len() - p,
        {
            assert(before[p as int] == out@[p as int]);
            assert(all[k as int] == names@[k as int]@);
            assert(all[before[p as int]] == names@[out@[p as int] as int]@);
            p += 1;
        }
        proof {
            assert(all[k as int] == names@[k as int]@);
            if p < out@.len() {
                assert(before[p as int] == out@[p as int]);
                assert(all[before[p as int]] == names@[out@[p as int] as int]@);
            }
            inserted_in_order(all, before, k as int, p as int);
        }
        out.insert(p, k);
        assert(places(out@) =~= before.insert(p as int, k as int));
        k += 1;
    }
    out
}

} // verus!
