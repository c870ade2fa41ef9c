//! What it means that one list is made of chosen items of another, in their order.
use vstd::prelude::*;
use vstd::string::*;

verus! {

/// `at` holds, in ascending order and each once, exactly those places below `n` that `keep`
/// holds of.
pub open spec fn places_of(at: Seq<int>, n: int, keep: spec_fn(int) -> bool) -> bool {
    &&& forall|k: int| 0 <= k < at.len() ==> 0 <= #[trigger] at[k] < n && keep(at[k])
    &&& forall|j: int, k: int| 0 <= j < k < at.len() ==> #[trigger] at[j] < #[trigger] at[k]
    &&& forall|i: int| 0 <= i < n && #[trigger] keep(i) ==> at.contains(i)
}

/// `out` is made of the items that `keep` holds of, in their order, each turned into `give`
/// of its place.
pub open spec fn made_of<A>(
    out: Seq<A>,
    n: int,
    keep: spec_fn(int) -> bool,
    give: spec_fn(int) -> A,
) -> bool {
    exists|at: Seq<int>| #[trigger] places_of(at, n, keep) && gives(out, at, give)
}

pub open spec fn gives<A>(out: Seq<A>, at: Seq<int>, give: spec_fn(int) -> A) -> bool {
    &&& out.len() == at.len()
    &&& forall|k: int| 0 <= k < out.len() ==> #[trigger] out[k] == give(at[k])
}

/// Nothing is chosen from nothing.
pub proof fn made_of_none<A>(keep: spec_fn(int) -> bool, give: spec_fn(int) -> A)
    ensures
        made_of(Seq::<A>::empty(), 0, keep, give),
{
    let at = Seq::<int>::empty();
    assert(places_of(at, 0, keep));
    assert(gives(Seq::<A>::empty(), at, give));
}

/// One more item is appended where it is to be kept, and else passed over.
pub proof fn made_of_one_more<A>(
    out: Seq<A>,
    n: int,
    keep: spec_fn(int) -> bool,
    give: spec_fn(int) -> A,
)
    requires
        0 <= n,
        made_of(out, n, keep, give),
    ensures
        keep(n) ==> made_of(out.push(give(n)), n + 1, keep, give),
        !keep(n) ==> made_of(out, n + 1, keep, give),
{
    let at = choose|at: Seq<int>| #[trigger] places_of(at, n, keep) && gives(out, at, give);
    if keep(n) {
        let more = at.push(n);
        assert forall|i: int| 0 <= i < n + 1 && #[trigger] keep(i) implies more.contains(i) by {
            if i < n {
                let k = choose|k: int| 0 <= k < at.len() && at[k] == i;
                assert(more[k] == i);
            } else {
                assert(more[at.len() as int] == n);
            }
        }
        assert forall|k: int| 0 <= k < more.len() implies 0 <= #[trigger] more[k] < n + 1 && keep(
            more[k],
        ) by {
            if k < at.len() {
                assert(more[k] == at[k]);
            }
        }
        assert forall|j: int, k: int| 0 <= j < k < more.len() implies #[trigger] more[j]
            < #[trigger] more[k] by {
            assert(more[j] == at[j]);
            if k < at.len() {
                assert(more[k] == at[k]);
            }
        }
        assert(places_of(more, n + 1, keep));
        assert(gives(out.push(give(n)), more, give));
    } else {
        assert(places_of(at, n + 1, keep));
        assert(gives(out, at, give));
    }
}

/// What a list is made of decides what is in it.
pub proof fn made_of_holds<A>(
    out: Seq<A>,
    n: int,
    keep: spec_fn(int) -> bool,
    give: spec_fn(int) -> A,
    x: A,
)
    requires
        made_of(out, n, keep, give),
    ensures
        out.contains(x) <==> exists|i: int| 0 <= i < n && #[trigger] keep(i) && give(i) == x,
{
    let at = choose|at: Seq<int>| #[trigger] places_of(at, n, keep) && gives(out, at, give);
    if out.contains(x) {
        let k = choose|k: int| 0 <= k < out.len() && out[k] == x;
        assert(keep(at[k]) && give(at[k]) == x);
    }
    if exists|i: int| 0 <= i < n && #[trigger] keep(i) && give(i) == x {
        let i = choose|i: int| 0 <= i < n && #[trigger] keep(i) && give(i) == x;
        assert(at.contains(i));
        let k = choose|k: int| 0 <= k < at.len() && at[k] == i;
        assert(out[k] == x);
    }
}

} // verus!
