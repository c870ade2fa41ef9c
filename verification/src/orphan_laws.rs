//! What is promised of orphans, said of the installed packages and the pending updates alone.
use crate::db::LocalPackage;
use crate::orphans::{KnownOrphan, OrphanPackage, OrphanView};
use crate::orphans;
use crate::picks;
use crate::resolver::ResolvedPackage;
use crate::strmap;
use crate::text;
use vstd::prelude::*;
use vstd::string::*;

verus! {

/// The update at `u` is the last one of the package `parent`, and its candidate `c` does
/// without `name`.
pub open spec fn lets_go_at(
    updates: Seq<ResolvedPackage>,
    parent: Seq<char>,
    name: Seq<char>,
    u: int,
) -> bool {
    &&& 0 <= u < updates.len()
    &&& updates[u].name@ == parent
    &&& updates[u].candidate matches Some(c) && forall|x: int|
        0 <= x < c.depends@.len() ==> (#[trigger] c.depends@[x])@ != name
    &&& forall|v: int|
        u < v < updates.len() ==> (#[trigger] updates[v]).name@ != parent || updates[v].candidate is None
}

/// A pending update of `parent` does without `name`.
pub open spec fn lets_go(updates: Seq<ResolvedPackage>, parent: Seq<char>, name: Seq<char>) -> bool {
    exists|u: int| lets_go_at(updates, parent, name, u)
}

proof fn candidate_is_the_last(updates: Seq<ResolvedPackage>, n: int, name: Seq<char>)
    requires
        0 <= n <= updates.len(),
    ensures
        match orphans::candidate_upto(updates, n, name) {
            Some(c) => exists|u: int|
                0 <= u < n && (#[trigger] updates[u]).name@ == name && updates[u].candidate == Some(c)
                    && forall|v: int|
                    u < v < n ==> (#[trigger] updates[v]).name@ != name || updates[v].candidate is None,
            None => forall|v: int|
                0 <= v < n ==> (#[trigger] updates[v]).name@ != name || updates[v].candidate is None,
        },
    decreases n,
{
    if n > 0 {
        candidate_is_the_last(updates, n - 1, name);
        if updates[n - 1].candidate is Some && updates[n - 1].name@ == name {
            assert(updates[n - 1].candidate == orphans::candidate_upto(updates, n, name));
        } else if orphans::candidate_upto(updates, n - 1, name) is Some {
            let c = orphans::candidate_upto(updates, n - 1, name)->0;
            let u = choose|u: int|
                0 <= u < n - 1 && (#[trigger] updates[u]).name@ == name && updates[u].candidate == Some(c)
                    && forall|v: int|
                    u < v < n - 1 ==> (#[trigger] updates[v]).name@ != name || updates[v].candidate is None;
            assert(updates[u].name@ == name);
        }
    }
}

proof fn drops_is_lets_go(updates: Seq<ResolvedPackage>, parent: Seq<char>, name: Seq<char>)
    ensures
        orphans::drops(updates, parent, name) == lets_go(updates, parent, name),
{
    let n = updates.len() as int;
    candidate_is_the_last(updates, n, parent);
    if orphans::drops(updates, parent, name) {
        let c = orphans::candidate_upto(updates, n, parent)->0;
        let u = choose|u: int|
            0 <= u < n && (#[trigger] updates[u]).name@ == parent && updates[u].candidate == Some(c)
                && forall|v: int|
                u < v < n ==> (#[trigger] updates[v]).name@ != parent || updates[v].candidate is None;
        assert forall|x: int| 0 <= x < c.depends@.len() implies (#[trigger] c.depends@[x])@ != name by {
            assert(text::texts(c.depends@)[x] == c.depends@[x]@);
        }
        assert(lets_go_at(updates, parent, name, u));
    }
    if lets_go(updates, parent, name) {
        let u = choose|u: int| lets_go_at(updates, parent, name, u);
        let c = orphans::candidate_upto(updates, n, parent)->0;
        assert(orphans::candidate_upto(updates, n, parent) is Some);
        let w = choose|w: int|
            0 <= w < n && (#[trigger] updates[w]).name@ == parent && updates[w].candidate == Some(c)
                && forall|v: int|
                w < v < n ==> (#[trigger] updates[v]).name@ != parent || updates[v].candidate is None;
        assert(u == w);
        if text::texts(c.depends@).contains(name) {
            let x = choose|x: int|
                0 <= x < text::texts(c.depends@).len() && text::texts(c.depends@)[x] == name;
            assert(c.depends@[x]@ == name);
        }
    }
}

/// An installed package is an orphan, or will be one, exactly where it came as a dependency
/// and each package that requires it, if there is any, has a pending update that does without
/// it.
pub open spec fn unneeded(p: LocalPackage, updates: Seq<ResolvedPackage>) -> bool {
    &&& p.as_dependency
    &&& forall|k: int|
        0 <= k < p.required_by@.len() ==> lets_go(updates, (#[trigger] p.required_by@[k])@, p.name@)
}

/// What is told of the orphan `p`.
pub open spec fn tells_of(v: OrphanView, p: LocalPackage) -> bool {
    &&& v.name == p.name@
    &&& v.version == p.version@
    &&& v.isize == p.isize
    &&& v.desc == match p.desc {
        Some(d) => d@,
        None => Seq::empty(),
    }
    &&& v.is_projected == (p.required_by@.len() > 0)
    &&& v.dropped_by == text::texts(p.required_by@)
    &&& v.optional_for == text::texts(p.optional_for@)
}

/// `v` tells of an installed package that nothing needs.
pub open spec fn is_unneeded_one(
    local: Seq<LocalPackage>,
    updates: Seq<ResolvedPackage>,
    v: OrphanView,
) -> bool {
    exists|k: int|
        0 <= k < local.len() && unneeded(#[trigger] local[k], updates) && tells_of(v, local[k])
}

proof fn orphan_is_unneeded(p: LocalPackage, updates: Seq<ResolvedPackage>)
    ensures
        orphans::orphan_of(p, updates) is Some <==> unneeded(p, updates),
        orphans::orphan_of(p, updates) matches Some(v) ==> tells_of(v, p),
{
    assert forall|k: int| 0 <= k < p.required_by@.len() implies orphans::drops(
        updates,
        (#[trigger] p.required_by@[k])@,
        p.name@,
    ) == lets_go(updates, p.required_by@[k]@, p.name@) by {
        drops_is_lets_go(updates, p.required_by@[k]@, p.name@);
    }
}

/// The list of orphans holds exactly the packages that nothing needs, now or after the
/// pending updates, and says so of each; the pure ones come first, and those of a kind are in
/// order of their names.
pub proof fn exactly_the_unneeded_are_orphans(
    local: Seq<LocalPackage>,
    updates: Seq<ResolvedPackage>,
    list: Seq<OrphanPackage>,
)
    requires
        orphans::orphan_listing(local, updates, list),
    ensures
        forall|i: int|
            0 <= i < list.len() ==> is_unneeded_one(local, updates, (#[trigger] list[i])@),
        forall|k: int|
            0 <= k < local.len() && unneeded(#[trigger] local[k], updates) ==> exists|i: int|
                0 <= i < list.len() && tells_of((#[trigger] list[i])@, local[k]),
        forall|i: int, j: int|
            0 <= i < j < list.len() && (#[trigger] list[j]).optional_for@.len() == 0 ==> (
            #[trigger] list[i]).optional_for@.len() == 0,
        forall|i: int, j: int|
            0 <= i < j < list.len() && ((#[trigger] list[i]).optional_for@.len() == 0) == ((
            #[trigger] list[j]).optional_for@.len() == 0) ==> text::precedes(
                list[i].name@,
                list[j].name@,
            ),
{
    assert forall|i: int| 0 <= i < list.len() implies is_unneeded_one(
        local,
        updates,
        (#[trigger] list[i])@,
    ) by {
        assert(orphans::is_orphan_of(local, updates, list[i]@));
        let k = choose|k: int|
            0 <= k < local.len() && orphans::orphan_of(#[trigger] local[k], updates) == Some(list[i]@);
        orphan_is_unneeded(local[k], updates);
        assert(unneeded(local[k], updates) && tells_of(list[i]@, local[k]));
    }
    assert forall|k: int|
        0 <= k < local.len() && unneeded(#[trigger] local[k], updates) implies exists|i: int|
        0 <= i < list.len() && tells_of((#[trigger] list[i])@, local[k]) by {
        orphan_is_unneeded(local[k], updates);
        let v = orphans::orphan_of(local[k], updates)->0;
        assert(orphans::orphan_listed(list, v));
        let i = choose|i: int| 0 <= i < list.len() && (#[trigger] list[i])@ == v;
        assert(tells_of(list[i]@, local[k]));
    }
    assert forall|i: int, j: int|
        0 <= i < j < list.len() && (#[trigger] list[j]).optional_for@.len() == 0 implies (
    #[trigger] list[i]).optional_for@.len() == 0 by {
        assert(orphans::orphan_before(list[i]@, list[j]@));
        assert(list[i]@.optional_for.len() == list[i].optional_for@.len());
        assert(list[j]@.optional_for.len() == list[j].optional_for@.len());
    }
    assert forall|i: int, j: int|
        0 <= i < j < list.len() && ((#[trigger] list[i]).optional_for@.len() == 0) == ((
        #[trigger] list[j]).optional_for@.len() == 0) implies text::precedes(
        list[i].name@,
        list[j].name@,
    ) by {
        assert(orphans::orphan_before(list[i]@, list[j]@));
        assert(list[i]@.optional_for.len() == list[i].optional_for@.len());
        assert(list[j]@.optional_for.len() == list[j].optional_for@.len());
    }
}

/// Without pending updates nothing that an installed package requires is an orphan.
pub proof fn required_package_is_no_orphan(p: LocalPackage)
    requires
        p.required_by@.len() > 0,
    ensures
        orphans::orphan_of(p, Seq::empty()) is None,
        !unneeded(p, Seq::empty()),
{
    orphan_is_unneeded(p, Seq::empty());
    let parent = p.required_by@[0]@;
    if lets_go(Seq::empty(), parent, p.name@) {
        let u = choose|u: int| lets_go_at(Seq::empty(), parent, p.name@, u);
        assert(false);
    }
}

/// What was installed on request is never an orphan.
pub proof fn explicit_package_is_no_orphan(p: LocalPackage, updates: Seq<ResolvedPackage>)
    requires
        !p.as_dependency,
    ensures
        orphans::orphan_of(p, updates) is None,
{
}

/// The pure orphans are those that nothing uses optionally, in order.
pub proof fn pure_orphans_are_unused(v: Seq<OrphanPackage>, n: int)
    requires
        0 <= n <= v.len(),
    ensures
        picks::made_of(
            orphans::pure_names(v, n),
            n,
            |i: int| v[i].optional_for@.len() == 0,
            |i: int| v[i].name@,
        ),
    decreases n,
{
    let keep = |i: int| v[i].optional_for@.len() == 0;
    let give = |i: int| v[i].name@;
    if n == 0 {
        picks::made_of_none(keep, give);
    } else {
        pure_orphans_are_unused(v, n - 1);
        picks::made_of_one_more(orphans::pure_names(v, n - 1), n - 1, keep, give);
        assert(v[n - 1]@.optional_for.len() == v[n - 1].optional_for@.len());
        assert(keep(n - 1) == (v[n - 1].optional_for@.len() == 0));
        assert(give(n - 1) == v[n - 1].name@);
    }
}

/// The orphans that are left over are those that were not selected, in order.
pub proof fn unselected_orphans_remain(v: Seq<OrphanPackage>, gone: Seq<Seq<char>>, n: int)
    requires
        0 <= n <= v.len(),
    ensures
        picks::made_of(
            orphans::remaining_upto(v, gone, n),
            n,
            |i: int| !gone.contains(v[i].name@),
            |i: int| v[i]@,
        ),
    decreases n,
{
    let keep = |i: int| !gone.contains(v[i].name@);
    let give = |i: int| v[i]@;
    if n == 0 {
        picks::made_of_none(keep, give);
    } else {
        unselected_orphans_remain(v, gone, n - 1);
        picks::made_of_one_more(orphans::remaining_upto(v, gone, n - 1), n - 1, keep, give);
        assert(keep(n - 1) == !gone.contains(v[n - 1].name@));
        assert(give(n - 1) == v[n - 1]@);
    }
}

/// An orphan is news where it was not known, or was not pure and is now, or the other way
/// round.
pub proof fn news_is_what_is_unknown(o: OrphanPackage, known: Seq<(Seq<char>, KnownOrphan)>)
    ensures
        strmap::lookup(known, o.name@) is None ==> orphans::is_news(o, known),
        strmap::lookup(known, o.name@) matches Some(k) ==> (orphans::is_news(o, known) <==> k.is_pure
            != (o.optional_for@.len() == 0)),
{
    assert(o@.optional_for.len() == o.optional_for@.len());
}

/// Of the orphans exactly those that are there are remembered, each as pure or not.
pub proof fn all_orphans_are_remembered(v: Seq<OrphanPackage>, n: int, name: Seq<char>)
    requires
        0 <= n <= v.len(),
    ensures
        match orphans::remembered(v, n, name) {
            Some((pure, uses)) => exists|i: int|
                0 <= i < n && (#[trigger] v[i]).name@ == name && pure == (v[i].optional_for@.len() == 0)
                    && uses == text::texts(v[i].optional_for@),
            None => forall|i: int| 0 <= i < n ==> (#[trigger] v[i]).name@ != name,
        },
    decreases n,
{
    if n > 0 {
        all_orphans_are_remembered(v, n - 1, name);
        assert(v[n - 1]@.optional_for.len() == v[n - 1].optional_for@.len());
        if v[n - 1].name@ == name {
            assert(v[n - 1].name@ == name);
        } else if orphans::remembered(v, n - 1, name) is Some {
            let (pure, uses) = orphans::remembered(v, n - 1, name)->0;
            let i = choose|i: int|
                0 <= i < n - 1 && (#[trigger] v[i]).name@ == name && pure == (v[i].optional_for@.len()
                    == 0) && uses == text::texts(v[i].optional_for@);
            assert(v[i].name@ == name);
        }
    }
}

} // verus!
