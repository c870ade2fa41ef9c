//! What the resolver promises, said of the databases and the configuration alone: which
//! package of which repository an installed package is updated to, and when.
use crate::aur::AurItem;
use crate::db::{AlpmManager, LocalPackage, SyncDb, SyncPackage, VersionOrder};
use crate::db;
use crate::patterns;
use crate::resolver::{AurOffer, Inputs, ResolvedView};
use crate::resolver;
use crate::strmap;
use crate::text;
use vstd::prelude::*;
use vstd::string::*;

verus! {

// ---------------------------------------------------------------------------------------
// What a repository has

/// `d` is the place of the database named `repo`, the first one if there are more.
pub open spec fn is_db(sync: Seq<SyncDb>, repo: Seq<char>, d: int) -> bool {
    &&& 0 <= d < sync.len()
    &&& sync[d].name@ == repo
    &&& forall|e: int| 0 <= e < d ==> (#[trigger] sync[e]).name@ != repo
}

/// `k` is the place of the package `name`, the first one if there are more.
pub open spec fn is_pkg(pkgs: Seq<SyncPackage>, name: Seq<char>, k: int) -> bool {
    &&& 0 <= k < pkgs.len()
    &&& pkgs[k].name@ == name
    &&& forall|e: int| 0 <= e < k ==> (#[trigger] pkgs[e]).name@ != name
}

/// The repository `repo` has `q` as its package `name`, in its database at `d`.
pub open spec fn holds_at(m: AlpmManager, repo: Seq<char>, name: Seq<char>, q: SyncPackage, d: int, k: int) -> bool {
    is_db(m.sync@, repo, d) && is_pkg(m.sync@[d].pkgs@, name, k) && m.sync@[d].pkgs@[k] == q
}

/// The repository `repo` has `q` as its package `name`.
pub open spec fn has(m: AlpmManager, repo: Seq<char>, name: Seq<char>, q: SyncPackage) -> bool {
    exists|d: int, k: int| holds_at(m, repo, name, q, d, k)
}

/// The repository `repo` has no package `name`, or is no repository.
pub open spec fn lacks(m: AlpmManager, repo: Seq<char>, name: Seq<char>) -> bool {
    forall|q: SyncPackage| !#[trigger] has(m, repo, name, q)
}

/// A repository has at most one package of a name, and it is found.
pub proof fn what_a_repo_has(m: AlpmManager, repo: Seq<char>, name: Seq<char>)
    ensures
        forall|q: SyncPackage| #[trigger]
            has(m, repo, name, q) <==> db::sync_pkg(m.sync@, repo, name) == Some(q),
        lacks(m, repo, name) <==> db::sync_pkg(m.sync@, repo, name) is None,
{
    crate::download_plan::db_from_in_range(m.sync@, repo, 0);
    first_db(m.sync@, repo, 0);
    match db::db_from(m.sync@, repo, 0) {
        Some(d) => {
            db::pkg_from_found(m.sync@[d].pkgs@, name, 0);
            match db::pkg_from(m.sync@[d].pkgs@, name, 0) {
                Some(k) => {
                    let q = m.sync@[d].pkgs@[k];
                    assert(holds_at(m, repo, name, q, d, k));
                    assert(has(m, repo, name, q));
                    assert forall|p: SyncPackage| #[trigger] has(m, repo, name, p) implies p == q by {
                        let (e, l) = choose|e: int, l: int| holds_at(m, repo, name, p, e, l);
                        assert(e == d);
                        assert(l == k);
                    }
                },
                None => {
                    assert forall|p: SyncPackage| !#[trigger] has(m, repo, name, p) by {
                        if has(m, repo, name, p) {
                            let (e, l) = choose|e: int, l: int| holds_at(m, repo, name, p, e, l);
                            assert(e == d);
                        }
                    }
                },
            }
        },
        None => {
            assert forall|p: SyncPackage| !#[trigger] has(m, repo, name, p) by {
                if has(m, repo, name, p) {
                    let (e, l) = choose|e: int, l: int| holds_at(m, repo, name, p, e, l);
                    assert(m.sync@[e].name@ == repo);
                }
            }
        },
    }
}

proof fn first_db(sync: Seq<SyncDb>, repo: Seq<char>, i: int)
    requires
        0 <= i <= sync.len(),
    ensures
        match db::db_from(sync, repo, i) {
            Some(d) => i <= d < sync.len() && sync[d].name@ == repo && forall|e: int|
                i <= e < d ==> (#[trigger] sync[e]).name@ != repo,
            None => forall|e: int| i <= e < sync.len() ==> (#[trigger] sync[e]).name@ != repo,
        },
    decreases sync.len() - i,
{
    if i < sync.len() && sync[i].name@ != repo {
        first_db(sync, repo, i + 1);
    }
}

// ---------------------------------------------------------------------------------------
// Pins

/// A pin of exactly this name is in force where pinning is on, and none is where it is off.
pub proof fn exact_pin_is_in_force(s: Inputs, k: int)
    requires
        s.config.pins.ordered(),
        0 <= k < s.config.pins@.len(),
    ensures
        s.config.features.pinning ==> resolver::active_pin(s, s.config.pins@[k].0) == Some(
            s.config.pins@[k].1@,
        ),
        !s.config.features.pinning ==> resolver::active_pin(s, s.config.pins@[k].0) is None,
{
    strmap::lookup_entry(s.config.pins@, k);
}

/// A package is pinned only by a rule that names it or matches it, and to the repository of
/// that rule.
pub proof fn pin_needs_a_rule(s: Inputs, name: Seq<char>)
    ensures
        resolver::active_pin(s, name) matches Some(repo) ==> s.config.features.pinning && exists|k: int|
            0 <= k < s.config.pins@.len() && (#[trigger] s.config.pins@[k]).1@ == repo && (
            s.config.pins@[k].0 == name || (patterns::is_glob(s.config.pins@[k].0)
                && patterns::glob_hit(s.config.pins@[k].0, name))),
{
    let pins = s.config.pins@;
    strmap::lookup_from_found(pins, name, 0);
    if resolver::active_pin(s, name) is Some && strmap::lookup(pins, name) is None {
        let ks = strmap::keys(pins);
        let rules = resolver::valued(patterns::glob_rules(pins));
        patterns::glob_order_is_longest_first(ks, ks.len() as int);
        patterns::first_hit_is_first(rules, name, 0);
        let i = patterns::first_hit(rules, name, 0)->0;
        let k = patterns::glob_order(ks)[i];
        assert(rules[i].0 == pins[k].0);
        assert(ks[k] == pins[k].0);
    }
}

/// A package that a pattern matches, and no exact pin names, is pinned where pinning is on;
/// the rule that decides is no shorter than any pattern that matches.
pub proof fn pattern_pins(s: Inputs, name: Seq<char>, other: int)
    requires
        s.config.features.pinning,
        strmap::lookup(s.config.pins@, name) is None,
        0 <= other < s.config.pins@.len(),
        patterns::is_glob(s.config.pins@[other].0),
        patterns::glob_hit(s.config.pins@[other].0, name),
    ensures
        resolver::active_pin(s, name) matches Some(repo) && exists|k: int|
            0 <= k < s.config.pins@.len() && (#[trigger] s.config.pins@[k]).1@ == repo
                && patterns::glob_hit(s.config.pins@[k].0, name) && patterns::byte_len(
                s.config.pins@[k].0,
            ) >= patterns::byte_len(s.config.pins@[other].0),
{
    resolver::longest_pattern_wins(name, s.config.pins@, other);
}

/// What the order of the two versions makes of a pinned package. It is left alone only in
/// exactly the version of its repository.
pub open spec fn pinned_fate(o: ResolvedView, order: VersionOrder, same_text: bool) -> bool {
    &&& o.needs_update == !(order == VersionOrder::Same && same_text)
    &&& o.is_downgrade == (order == VersionOrder::Older)
    &&& o.update_type == match order {
        VersionOrder::Newer => "upgrade"@,
        VersionOrder::Older => "downgrade"@,
        VersionOrder::Same => if same_text {
            "up_to_date"@
        } else {
            "pin_sync"@
        },
    }
}

/// What the order of the two versions makes of any other package: only a newer version is an
/// update.
pub open spec fn plain_fate(o: ResolvedView, order: VersionOrder) -> bool {
    &&& o.needs_update == (order == VersionOrder::Newer)
    &&& !o.is_downgrade
    &&& o.update_type == if order == VersionOrder::Newer {
        "upgrade"@
    } else {
        "up_to_date"@
    }
}

/// The outcome offers the package `q` of the repository `repo`.
pub open spec fn offers(o: ResolvedView, p: LocalPackage, repo: Seq<char>, q: SyncPackage) -> bool {
    &&& o.name == p.name@
    &&& o.installed_ver == p.version@
    &&& o.installed_size == p.isize
    &&& !o.held
    &&& o.candidate matches Some(c) && {
        &&& c.name == q.name@
        &&& c.repo == repo
        &&& c.version == q.version@
        &&& c.csize == q.csize
        &&& c.isize == q.isize
        &&& c.builddate == q.builddate
        &&& !c.is_aur
        &&& c.depends == text::texts(q.depends@)
    }
    &&& o.net_delta == if q.isize > 0 {
        Some((q.isize - p.isize) as i64)
    } else {
        None::<i64>
    }
}

/// The outcome offers what the AUR has.
pub open spec fn offers_aur(o: ResolvedView, p: LocalPackage, a: AurItem) -> bool {
    &&& o.name == p.name@
    &&& o.installed_ver == p.version@
    &&& !o.held
    &&& o.candidate matches Some(c) && {
        &&& c.name == a.name@
        &&& c.repo == "aur"@
        &&& c.version == a.version@
        &&& c.is_aur
    }
    &&& o.net_delta is None
}

/// A pinned package goes to the version that the repository of its pin has, back to an older
/// one too, and is left alone only in exactly that version.
pub proof fn pinned_package_follows_its_pin(s: Inputs, p: LocalPackage, repo: Seq<char>, q: SyncPackage)
    requires
        resolver::active_pin(s, p.name@) == Some(repo),
        !text::same_ignoring_case(repo, "aur"@),
        has(*s.manager, repo, p.name@, q),
    ensures
        offers(resolver::outcome(s, p), p, repo, q),
        pinned_fate(resolver::outcome(s, p), q.versus_installed, q.version@ == p.version@),
        resolver::outcome(s, p).state == "custom"@,
        resolver::outcome(s, p).pinned_repo == Some(repo),
        !resolver::outcome(s, p).diverted_from_top,
{
    what_a_repo_has(*s.manager, repo, p.name@);
}

/// The same for a pin to the AUR.
pub proof fn pinned_package_follows_the_aur(s: Inputs, p: LocalPackage, repo: Seq<char>, a: AurOffer)
    requires
        resolver::active_pin(s, p.name@) == Some(repo),
        text::same_ignoring_case(repo, "aur"@),
        strmap::lookup(s.aur@, p.name@) == Some(a),
    ensures
        offers_aur(resolver::outcome(s, p), p, a.item),
        pinned_fate(resolver::outcome(s, p), a.versus_installed, a.item.version@ == p.version@),
        resolver::outcome(s, p).state == "custom"@,
        resolver::outcome(s, p).pinned_repo == Some(repo),
{
}

/// A pinned package that the repository of its pin does not have stays as it is, whatever
/// other repositories have, and its pin is reported.
pub proof fn pin_to_nowhere_is_reported(s: Inputs, i: int, repo: Seq<char>)
    requires
        0 <= i < s.manager.local@.len(),
        resolver::active_pin(s, s.manager.local@[i].name@) == Some(repo),
        if text::same_ignoring_case(repo, "aur"@) {
            strmap::lookup(s.aur@, s.manager.local@[i].name@) is None
        } else {
            lacks(*s.manager, repo, s.manager.local@[i].name@)
        },
    ensures
        resolver::outcome(s, s.manager.local@[i]).candidate is None,
        !resolver::outcome(s, s.manager.local@[i]).needs_update,
        resolver::dead_pins(s, s.manager.local@.len() as int).contains(
            (s.manager.local@[i].name@, repo),
        ),
{
    what_a_repo_has(*s.manager, repo, s.manager.local@[i].name@);
    dead_pin_is_listed(s, i, s.manager.local@.len() as int);
}

proof fn dead_pin_is_listed(s: Inputs, i: int, n: int)
    requires
        0 <= i < n <= s.manager.local@.len(),
        resolver::active_pin(s, s.manager.local@[i].name@) is Some,
        resolver::outcome(s, s.manager.local@[i]).candidate is None,
    ensures
        resolver::dead_pins(s, n).contains(
            (s.manager.local@[i].name@, resolver::active_pin(s, s.manager.local@[i].name@)->0),
        ),
    decreases n,
{
    let pair = (s.manager.local@[i].name@, resolver::active_pin(s, s.manager.local@[i].name@)->0);
    let before = resolver::dead_pins(s, n - 1);
    if i < n - 1 {
        dead_pin_is_listed(s, i, n - 1);
        let k = choose|k: int| 0 <= k < before.len() && before[k] == pair;
        assert(resolver::dead_pins(s, n)[k] == pair);
    } else {
        assert(resolver::dead_pins(s, n)[before.len() as int] == pair);
    }
}

/// Only pins of installed packages that lead nowhere are reported.
pub proof fn reported_pins_lead_nowhere(s: Inputs, n: int, pair: (Seq<char>, Seq<char>))
    requires
        0 <= n <= s.manager.local@.len(),
        resolver::dead_pins(s, n).contains(pair),
    ensures
        resolver::active_pin(s, pair.0) == Some(pair.1),
        exists|i: int| 0 <= i < n && (#[trigger] s.manager.local@[i]).name@ == pair.0,
        if text::same_ignoring_case(pair.1, "aur"@) {
            strmap::lookup(s.aur@, pair.0) is None
        } else {
            lacks(*s.manager, pair.1, pair.0)
        },
    decreases n,
{
    if n > 0 {
        let all = resolver::dead_pins(s, n);
        let before = resolver::dead_pins(s, n - 1);
        let k = choose|k: int| 0 <= k < all.len() && all[k] == pair;
        if k < before.len() {
            assert(before[k] == pair);
            reported_pins_lead_nowhere(s, n - 1, pair);
        } else {
            assert(s.manager.local@[n - 1].name@ == pair.0);
            what_a_repo_has(*s.manager, pair.1, pair.0);
        }
    }
}

// ---------------------------------------------------------------------------------------
// Priorities, exclusions and stickiness

/// The repository at `i`, in order of priority, may provide the package and has it as `q`.
pub open spec fn may_provide(s: Inputs, name: Seq<char>, i: int, q: SyncPackage) -> bool {
    &&& 0 <= i < s.manager.repos@.len()
    &&& !shut_out(s, name, s.manager.repos@[i]@)
    &&& has(*s.manager, s.manager.repos@[i]@, name, q)
}

/// An exclusion keeps `repo` from providing the package.
pub open spec fn shut_out(s: Inputs, name: Seq<char>, repo: Seq<char>) -> bool {
    s.config.features.pinning && exists|k: int, j: int|
        #![trigger s.config.exclude@[k].1@[j]]
        0 <= k < s.config.exclude@.len() && s.config.exclude@[k].0 == repo && 0 <= j
            < s.config.exclude@[k].1@.len() && (s.config.exclude@[k].1@[j]@ == name
            || patterns::glob_hit(s.config.exclude@[k].1@[j]@, name))
}

proof fn shut_out_is_barred(s: Inputs, name: Seq<char>, repo: Seq<char>)
    requires
        s.config.exclude.ordered(),
    ensures
        shut_out(s, name, repo) == resolver::barred(s, name, repo),
{
    let ex = s.config.exclude@;
    strmap::lookup_from_found(ex, repo, 0);
    if shut_out(s, name, repo) {
        let (k, j) = choose|k: int, j: int|
            #![trigger s.config.exclude@[k].1@[j]]
            0 <= k < ex.len() && ex[k].0 == repo && 0 <= j < ex[k].1@.len() && (ex[k].1@[j]@ == name
                || patterns::glob_hit(ex[k].1@[j]@, name));
        strmap::lookup_entry(ex, k);
        assert(resolver::pattern_covers(ex[k].1@[j]@, name));
    }
    if resolver::barred(s, name, repo) {
        let ps = strmap::lookup(ex, repo)->0;
        let k = choose|k: int| 0 <= k < ex.len() && (#[trigger] ex[k]).0 == repo && strmap::lookup_from(
            ex,
            repo,
            0,
        ) == Some(ex[k].1);
        let j = choose|j: int|
            0 <= j < ps@.len() && resolver::pattern_covers((#[trigger] ps@[j])@, name);
        assert(ex[k].1@[j]@ == ps@[j]@);
    }
}

/// What a package came from, where that is on record; else the first repository that has it
/// in the installed version; else the first that has it at all.
pub open spec fn is_home(s: Inputs, name: Seq<char>, home: Seq<char>) -> bool {
    let m = *s.manager;
    match strmap::lookup(s.installed_dbs@, name) {
        Some(d) if d@.len() > 0 => home == d@,
        _ => {
            ||| exists|i: int, q: SyncPackage|
                0 <= i < m.repos@.len() && m.repos@[i]@ == home && q.versus_installed
                    == VersionOrder::Same && #[trigger] has(m, m.repos@[i]@, name, q) && forall|j: int,
                    r: SyncPackage|
                    0 <= j < i && #[trigger] has(m, m.repos@[j]@, name, r) ==> r.versus_installed
                        != VersionOrder::Same
            ||| (forall|j: int, r: SyncPackage|
                0 <= j < m.repos@.len() && #[trigger] has(m, m.repos@[j]@, name, r)
                    ==> r.versus_installed != VersionOrder::Same) && exists|i: int, q: SyncPackage|
                0 <= i < m.repos@.len() && m.repos@[i]@ == home && #[trigger] has(
                    m,
                    m.repos@[i]@,
                    name,
                    q,
                ) && forall|j: int| 0 <= j < i ==> lacks(m, (#[trigger] m.repos@[j])@, name)
        },
    }
}

proof fn open_repo_found(s: Inputs, name: Seq<char>, i: int, k: int, q: SyncPackage)
    requires
        s.config.exclude.ordered(),
        0 <= k <= i,
        may_provide(s, name, i, q),
        forall|j: int, r: SyncPackage| 0 <= j < i ==> !#[trigger] may_provide(s, name, j, r),
    ensures
        resolver::open_repo(s, name, k) == Some(i),
    decreases i - k,
{
    shut_out_is_barred(s, name, s.manager.repos@[k]@);
    what_a_repo_has(*s.manager, s.manager.repos@[k]@, name);
    if k < i {
        if db::sync_pkg(s.manager.sync@, s.manager.repos@[k]@, name) is Some {
            let r = db::sync_pkg(s.manager.sync@, s.manager.repos@[k]@, name)->0;
            assert(has(*s.manager, s.manager.repos@[k]@, name, r));
            assert(!may_provide(s, name, k, r));
        }
        open_repo_found(s, name, i, k + 1, q);
    }
}

proof fn no_open_repo(s: Inputs, name: Seq<char>, k: int)
    requires
        s.config.exclude.ordered(),
        0 <= k <= s.manager.repos@.len(),
        forall|j: int, r: SyncPackage| !#[trigger] may_provide(s, name, j, r),
    ensures
        resolver::open_repo(s, name, k) is None,
    decreases s.manager.repos@.len() - k,
{
    if k < s.manager.repos@.len() {
        shut_out_is_barred(s, name, s.manager.repos@[k]@);
        what_a_repo_has(*s.manager, s.manager.repos@[k]@, name);
        if db::sync_pkg(s.manager.sync@, s.manager.repos@[k]@, name) is Some {
            let r = db::sync_pkg(s.manager.sync@, s.manager.repos@[k]@, name)->0;
            assert(has(*s.manager, s.manager.repos@[k]@, name, r));
            assert(!may_provide(s, name, k, r));
        }
        no_open_repo(s, name, k + 1);
    }
}

/// The repository that holds a package is the first one, in order of priority, that has it.
pub proof fn first_holder(m: AlpmManager, name: Seq<char>, t: int, k: int, q: SyncPackage)
    requires
        0 <= k <= t < m.repos@.len(),
        has(m, m.repos@[t]@, name, q),
        forall|j: int| 0 <= j < t ==> lacks(m, (#[trigger] m.repos@[j])@, name),
    ensures
        resolver::holding_repo(m, name, k) == Some(t),
    decreases t - k,
{
    what_a_repo_has(m, m.repos@[k]@, name);
    if k < t {
        assert(lacks(m, m.repos@[k]@, name));
        first_holder(m, name, t, k + 1, q);
    }
}

/// The package can stay with `home`: that is asked for, `home` may provide it, and has it.
pub open spec fn can_stay(s: Inputs, name: Seq<char>, home: Seq<char>) -> bool {
    &&& s.config.features.vendor_stickiness
    &&& home.len() > 0
    &&& !shut_out(s, name, home)
    &&& if text::same_ignoring_case(home, "aur"@) {
        strmap::lookup(s.aur@, name) is Some
    } else {
        !lacks(*s.manager, home, name)
    }
}

proof fn can_stay_is_stays(s: Inputs, name: Seq<char>)
    requires
        s.config.exclude.ordered(),
    ensures
        can_stay(s, name, resolver::origin_of(s, name)) == resolver::stays(s, name),
{
    shut_out_is_barred(s, name, resolver::origin_of(s, name));
    what_a_repo_has(*s.manager, resolver::origin_of(s, name), name);
}

/// A package that can stay with the repository it came from stays there, whatever the
/// priorities are; only a newer version is an update.
pub proof fn sticky_package_follows_its_origin(s: Inputs, p: LocalPackage, home: Seq<char>, q: SyncPackage)
    requires
        s.config.exclude.ordered(),
        resolver::active_pin(s, p.name@) is None,
        home == resolver::outcome(s, p).installed_db,
        can_stay(s, p.name@, home),
        !text::same_ignoring_case(home, "aur"@),
        has(*s.manager, home, p.name@, q),
    ensures
        offers(resolver::outcome(s, p), p, home, q),
        plain_fate(resolver::outcome(s, p), q.versus_installed),
        resolver::outcome(s, p).state == "sticky"@,
        !resolver::outcome(s, p).diverted_from_top,
{
    can_stay_is_stays(s, p.name@);
    what_a_repo_has(*s.manager, home, p.name@);
}

/// The same for a package that came from the AUR.
pub proof fn sticky_package_follows_the_aur(s: Inputs, p: LocalPackage, a: AurOffer)
    requires
        s.config.exclude.ordered(),
        resolver::active_pin(s, p.name@) is None,
        can_stay(s, p.name@, resolver::outcome(s, p).installed_db),
        text::same_ignoring_case(resolver::outcome(s, p).installed_db, "aur"@),
        strmap::lookup(s.aur@, p.name@) == Some(a),
    ensures
        offers_aur(resolver::outcome(s, p), p, a.item),
        plain_fate(resolver::outcome(s, p), a.versus_installed),
        resolver::outcome(s, p).state == "sticky"@,
{
    can_stay_is_stays(s, p.name@);
}

/// Without a pin, and where it cannot stay, a package follows the repository of highest
/// priority that may provide it and has it; only a newer version is an update. It is marked as
/// diverted exactly where a repository of higher priority has the package too.
pub proof fn unpinned_package_follows_the_priorities(
    s: Inputs,
    p: LocalPackage,
    i: int,
    q: SyncPackage,
    t: int,
    top: SyncPackage,
)
    requires
        s.config.exclude.ordered(),
        resolver::active_pin(s, p.name@) is None,
        !can_stay(s, p.name@, resolver::outcome(s, p).installed_db),
        may_provide(s, p.name@, i, q),
        forall|j: int, r: SyncPackage| 0 <= j < i ==> !#[trigger] may_provide(s, p.name@, j, r),
        0 <= t < s.manager.repos@.len(),
        has(*s.manager, s.manager.repos@[t]@, p.name@, top),
        forall|j: int| 0 <= j < t ==> lacks(*s.manager, (#[trigger] s.manager.repos@[j])@, p.name@),
    ensures
        offers(resolver::outcome(s, p), p, s.manager.repos@[i]@, q),
        plain_fate(resolver::outcome(s, p), q.versus_installed),
        resolver::outcome(s, p).state == "default"@,
        resolver::outcome(s, p).pinned_repo is None,
        resolver::outcome(s, p).natural_top_repo == Some(s.manager.repos@[t]@),
        resolver::outcome(s, p).diverted_from_top == (s.manager.repos@[i]@ != s.manager.repos@[t]@),
{
    can_stay_is_stays(s, p.name@);
    open_repo_found(s, p.name@, i, 0, q);
    what_a_repo_has(*s.manager, s.manager.repos@[i]@, p.name@);
    first_holder(*s.manager, p.name@, t, 0, top);
}

/// A package that no repository may provide follows the AUR, if it is there.
pub proof fn unpinned_package_falls_back_on_the_aur(s: Inputs, p: LocalPackage)
    requires
        s.config.exclude.ordered(),
        resolver::active_pin(s, p.name@) is None,
        !can_stay(s, p.name@, resolver::outcome(s, p).installed_db),
        forall|j: int, r: SyncPackage| !#[trigger] may_provide(s, p.name@, j, r),
    ensures
        match strmap::lookup(s.aur@, p.name@) {
            Some(a) => offers_aur(resolver::outcome(s, p), p, a.item) && plain_fate(
                resolver::outcome(s, p),
                a.versus_installed,
            ),
            None => resolver::outcome(s, p).candidate is None && !resolver::outcome(s, p).needs_update,
        },
{
    can_stay_is_stays(s, p.name@);
    no_open_repo(s, p.name@, 0);
}

proof fn same_version_first(s: Inputs, name: Seq<char>, k: int)
    requires
        0 <= k <= s.manager.repos@.len(),
        forall|j: int, r: SyncPackage|
            0 <= j < k && #[trigger] has(*s.manager, s.manager.repos@[j]@, name, r)
                ==> r.versus_installed != VersionOrder::Same,
    ensures
        match resolver::same_version_repo(*s.manager, name, k) {
            Some(i) => k <= i < s.manager.repos@.len() && exists|q: SyncPackage|
                q.versus_installed == VersionOrder::Same && #[trigger] has(
                    *s.manager,
                    s.manager.repos@[i]@,
                    name,
                    q,
                ) && forall|j: int, r: SyncPackage|
                    0 <= j < i && #[trigger] has(*s.manager, s.manager.repos@[j]@, name, r)
                        ==> r.versus_installed != VersionOrder::Same,
            None => forall|j: int, r: SyncPackage|
                0 <= j < s.manager.repos@.len() && #[trigger] has(
                    *s.manager,
                    s.manager.repos@[j]@,
                    name,
                    r,
                ) ==> r.versus_installed != VersionOrder::Same,
        },
    decreases s.manager.repos@.len() - k,
{
    if k < s.manager.repos@.len() {
        what_a_repo_has(*s.manager, s.manager.repos@[k]@, name);
        if resolver::same_version_in(*s.manager, name, s.manager.repos@[k]@) {
            let q = db::sync_pkg(s.manager.sync@, s.manager.repos@[k]@, name)->0;
            assert(has(*s.manager, s.manager.repos@[k]@, name, q));
        } else {
            same_version_first(s, name, k + 1);
        }
    }
}

proof fn holding_first(s: Inputs, name: Seq<char>, k: int)
    requires
        0 <= k <= s.manager.repos@.len(),
        forall|j: int| 0 <= j < k ==> lacks(*s.manager, (#[trigger] s.manager.repos@[j])@, name),
    ensures
        match resolver::holding_repo(*s.manager, name, k) {
            Some(i) => k <= i < s.manager.repos@.len() && (exists|q: SyncPackage|
                #[trigger] has(*s.manager, s.manager.repos@[i]@, name, q)) && forall|j: int|
                0 <= j < i ==> lacks(*s.manager, (#[trigger] s.manager.repos@[j])@, name),
            None => forall|j: int|
                0 <= j < s.manager.repos@.len() ==> lacks(
                    *s.manager,
                    (#[trigger] s.manager.repos@[j])@,
                    name,
                ),
        },
    decreases s.manager.repos@.len() - k,
{
    if k < s.manager.repos@.len() {
        what_a_repo_has(*s.manager, s.manager.repos@[k]@, name);
        if db::sync_pkg(s.manager.sync@, s.manager.repos@[k]@, name) is Some {
            let q = db::sync_pkg(s.manager.sync@, s.manager.repos@[k]@, name)->0;
            assert(has(*s.manager, s.manager.repos@[k]@, name, q));
        } else {
            assert(lacks(*s.manager, s.manager.repos@[k]@, name));
            holding_first(s, name, k + 1);
        }
    }
}

/// The origin of a package is the one on record, else the first repository that has it in
/// the installed version, else the first that has it; it is unknown only where none has it.
pub proof fn origin_is_home(s: Inputs, p: LocalPackage)
    ensures
        is_home(s, p.name@, resolver::outcome(s, p).installed_db) || (resolver::outcome(
            s,
            p,
        ).installed_db.len() == 0 && forall|j: int|
            0 <= j < s.manager.repos@.len() ==> lacks(
                *s.manager,
                (#[trigger] s.manager.repos@[j])@,
                p.name@,
            )),
{
    same_version_first(s, p.name@, 0);
    holding_first(s, p.name@, 0);
}

// ---------------------------------------------------------------------------------------
// Delays and holds

/// The age of a build in seconds; one without a date counts as 9999 days old.
pub open spec fn age_of(builddate: i64, now: i64) -> int {
    if builddate <= 0 {
        863913600
    } else if now <= builddate {
        0
    } else {
        now - builddate
    }
}

/// So many days are what is left of so many seconds: at least one, and else with 0.99 of a day
/// added and the rest of a day dropped, but for two seconds either way.
pub open spec fn days_for(left: int, seconds: int) -> bool {
    &&& 1 <= left
    &&& 86400 * left > seconds - 866
    &&& left == 1 || 86400 * left < seconds + 85539
}

/// An update is held by its own delay of so many days, and is told what is left of it.
pub open spec fn held_for(s: Inputs, p: LocalPackage, days: u32) -> bool {
    let o = resolver::delayed_outcome(s, p);
    let age = age_of(resolver::outcome(s, p).candidate->0.builddate, s.now);
    &&& o.held == (age < days * 86400)
    &&& age < days * 86400 ==> exists|left: int|
        left <= days && days_for(left, days * 86400 - age) && o.hold_reason
            == #[trigger] resolver::delay_text(left)
}

/// An update whose package has a delay of its own is held exactly while it is younger than
/// that.
pub proof fn young_update_is_held(s: Inputs, p: LocalPackage, k: int)
    requires
        s.config.delay.ordered(),
        s.config.features.stability_delays,
        0 <= k < s.config.delay@.len(),
        s.config.delay@[k].0 == p.name@,
        resolver::outcome(s, p).needs_update,
        resolver::outcome(s, p).candidate is Some,
    ensures
        held_for(s, p, s.config.delay@[k].1),
{
    strmap::lookup_entry(s.config.delay@, k);
    let days = s.config.delay@[k].1;
    let b = resolver::outcome(s, p).candidate->0.builddate;
    if resolver::days_left(b, days, s.now) is Some {
        resolver::days_left_bounds(b, days, s.now);
        crate::double::left_is_close(days as int, age_of(b, s.now));
        assert(resolver::delayed_outcome(s, p).hold_reason == resolver::delay_text(
            resolver::days_left(b, days, s.now)->0,
        ));
    }
}

/// Where only patterns cover the package, one of the longest that match decides.
pub proof fn young_update_is_held_by_a_pattern(s: Inputs, p: LocalPackage, other: int)
    requires
        s.config.features.stability_delays,
        strmap::lookup(s.config.delay@, p.name@) is None,
        0 <= other < s.config.delay@.len(),
        patterns::is_glob(s.config.delay@[other].0),
        patterns::glob_hit(s.config.delay@[other].0, p.name@),
        resolver::outcome(s, p).needs_update,
        resolver::outcome(s, p).candidate is Some,
    ensures
        exists|k: int|
            0 <= k < s.config.delay@.len() && patterns::glob_hit(
                (#[trigger] s.config.delay@[k]).0,
                p.name@,
            ) && patterns::byte_len(s.config.delay@[k].0) >= patterns::byte_len(
                s.config.delay@[other].0,
            ) && held_for(s, p, s.config.delay@[k].1),
{
    let delays = s.config.delay@;
    let name = p.name@;
    let ks = strmap::keys(delays);
    let order = patterns::glob_order(ks);
    let rules = patterns::glob_rules(delays);
    patterns::glob_order_is_longest_first(ks, ks.len() as int);
    patterns::first_hit_is_first(rules, name, 0);
    assert(ks[other] == delays[other].0);
    assert(order.contains(other));
    let at = choose|at: int| 0 <= at < order.len() && order[at] == other;
    assert(rules[at].0 == delays[other].0);
    let i = patterns::first_hit(rules, name, 0)->0;
    let k = order[i];
    assert(rules[i] == delays[k]);
    assert(ks[k] == delays[k].0);
    if i < at {
        assert(patterns::byte_len(ks[order[i]]) >= patterns::byte_len(ks[order[at]]));
    }
    let days = delays[k].1;
    let b = resolver::outcome(s, p).candidate->0.builddate;
    if resolver::days_left(b, days, s.now) is Some {
        resolver::days_left_bounds(b, days, s.now);
        crate::double::left_is_close(days as int, age_of(b, s.now));
        assert(resolver::delayed_outcome(s, p).hold_reason == resolver::delay_text(
            resolver::days_left(b, days, s.now)->0,
        ));
    }
}

/// What no delay covers is not held by one, nor is what needs no update, nor anything while
/// delays are switched off.
pub proof fn nothing_else_is_held(s: Inputs, p: LocalPackage)
    requires
        !s.config.features.stability_delays || !resolver::outcome(s, p).needs_update || forall|k: int|
            0 <= k < s.config.delay@.len() ==> (#[trigger] s.config.delay@[k]).0 != p.name@ && !(
            patterns::is_glob(s.config.delay@[k].0) && patterns::glob_hit(
                s.config.delay@[k].0,
                p.name@,
            )),
    ensures
        !resolver::delayed_outcome(s, p).held,
        resolver::delayed_outcome(s, p) == resolver::outcome(s, p),
{
    let delays = s.config.delay@;
    strmap::lookup_from_found(delays, p.name@, 0);
    let ks = strmap::keys(delays);
    let rules = patterns::glob_rules(delays);
    patterns::glob_order_is_longest_first(ks, ks.len() as int);
    patterns::first_hit_is_first(rules, p.name@, 0);
    if patterns::first_hit(rules, p.name@, 0) is Some {
        let i = patterns::first_hit(rules, p.name@, 0)->0;
        let k = patterns::glob_order(ks)[i];
        assert(rules[i] == delays[k]);
        assert(ks[k] == delays[k].0);
    }
}

/// The results for all installed packages, with the holds that cascade.
pub open spec fn resolved(s: Inputs, after: Seq<ResolvedView>) -> bool {
    &&& after.len() == s.manager.local@.len()
    &&& forall|i: int|
        0 <= i < after.len() ==> resolver::cascaded(
            *s.manager,
            resolver::own_holds(s),
            resolver::delayed_outcome(s, s.manager.local@[i]),
            #[trigger] after[i],
            i,
        )
}

/// The installed package at `i` names the one at `k`, or something that this one provides,
/// among its dependencies.
pub open spec fn needs_other(m: AlpmManager, i: int, k: int) -> bool {
    exists|x: int|
        0 <= x < m.local@[i].depends@.len() && ((#[trigger] m.local@[i].depends@[x])@
            == m.local@[k].name@ || text::texts(m.local@[k].provides@).contains(
            m.local@[i].depends@[x]@,
        ))
}

/// A hold changes nothing of a result but the hold itself.
pub proof fn holding_changes_nothing_else(s: Inputs, after: Seq<ResolvedView>, i: int)
    requires
        resolved(s, after),
        0 <= i < after.len(),
    ensures
        ({
            let o = resolver::outcome(s, s.manager.local@[i]);
            after[i] == (ResolvedView {
                held: after[i].held,
                hold_reason: after[i].hold_reason,
                ..o
            })
        }),
        resolver::delayed_outcome(s, s.manager.local@[i]).held ==> after[i].held,
{
    assert(resolver::cascaded(
        *s.manager,
        resolver::own_holds(s),
        resolver::delayed_outcome(s, s.manager.local@[i]),
        after[i],
        i,
    ));
}

/// An update is held where it depends on a package whose update is held.
pub proof fn held_update_holds_its_dependents(s: Inputs, after: Seq<ResolvedView>, i: int, k: int)
    requires
        resolved(s, after),
        0 <= i < after.len(),
        0 <= k < after.len(),
        after[k].held,
        needs_other(*s.manager, i, k),
        after[i].needs_update,
    ensures
        after[i].held,
{
    let m = *s.manager;
    let own = resolver::own_holds(s);
    assert(resolver::cascaded(m, own, resolver::delayed_outcome(s, m.local@[k]), after[k], k));
    assert(resolver::cascaded(m, own, resolver::delayed_outcome(s, m.local@[i]), after[i], i));
    if own[k] {
        assert(resolver::reached(m, own, 0, k));
        assert(resolver::touched(m, own, k));
    }
    assert(resolver::touched(m, own, k));
    let x = choose|x: int|
        0 <= x < m.local@[i].depends@.len() && ((#[trigger] m.local@[i].depends@[x])@
            == m.local@[k].name@ || text::texts(m.local@[k].provides@).contains(
            m.local@[i].depends@[x]@,
        ));
    assert(db::names_target(m, m.local@[k].name@, m.local@[i].depends@[x]@)) by {
        if m.local@[i].depends@[x]@ != m.local@[k].name@ {
            assert(m.local@[k].name@ == m.local@[k].name@);
        }
    }
    assert(resolver::edge(m, k, i));
    resolver::touch_spreads(m, own, k, i);
}

proof fn no_cause_no_reach(m: AlpmManager, held: Seq<bool>, n: nat, i: int)
    requires
        held.len() == m.local@.len(),
        forall|k: int| 0 <= k < held.len() ==> !#[trigger] held[k],
    ensures
        !resolver::reached(m, held, n, i),
    decreases n,
{
    if n > 0 {
        no_cause_no_reach(m, held, (n - 1) as nat, i);
        assert forall|k: int| !(resolver::reached(m, held, (n - 1) as nat, k) && #[trigger] resolver::edge(m, k, i)) by {
            no_cause_no_reach(m, held, (n - 1) as nat, k);
        }
    }
}

/// Nothing is held where no update is held by its own delay.
pub proof fn no_hold_without_a_delay(s: Inputs, after: Seq<ResolvedView>, i: int)
    requires
        resolved(s, after),
        0 <= i < after.len(),
        forall|k: int|
            0 <= k < after.len() ==> !resolver::delayed_outcome(s, #[trigger] s.manager.local@[k]).held,
    ensures
        !after[i].held,
{
    let m = *s.manager;
    let own = resolver::own_holds(s);
    assert forall|k: int| 0 <= k < own.len() implies !#[trigger] own[k] by {
        assert(!resolver::delayed_outcome(s, m.local@[k]).held);
    }
    assert(resolver::cascaded(m, own, resolver::delayed_outcome(s, m.local@[i]), after[i], i));
    if resolver::touched(m, own, i) {
        let n = choose|n: nat| resolver::reached(m, own, n, i);
        no_cause_no_reach(m, own, n, i);
    }
}

/// An update that is not held by its own delay is held only because it depends on another
/// package, and says on which.
pub proof fn cascading_hold_names_its_cause(s: Inputs, after: Seq<ResolvedView>, i: int)
    requires
        resolved(s, after),
        0 <= i < after.len(),
        after[i].held,
        !resolver::delayed_outcome(s, s.manager.local@[i]).held,
    ensures
        after[i].needs_update,
        exists|k: int|
            0 <= k < after.len() && db::is_dependent(
                *s.manager,
                (#[trigger] s.manager.local@[k]).name@,
                s.manager.local@[i].name@,
            ) && after[i].hold_reason == "Cascade hold: depends on held "@ + s.manager.local@[k].name@,
{
    let m = *s.manager;
    let own = resolver::own_holds(s);
    assert(resolver::cascaded(m, own, resolver::delayed_outcome(s, m.local@[i]), after[i], i));
    let before = resolver::delayed_outcome(s, m.local@[i]);
    let k = choose|k: int|
        resolver::touched(m, own, k) && #[trigger] resolver::edge(m, k, i) && after[i] == (ResolvedView {
            held: true,
            hold_reason: resolver::cascade_text(m.local@[k].name@),
            ..before
        });
    assert(m.local@[i].name@ == m.local@[i].name@);
    assert(db::is_dependent(m, m.local@[k].name@, m.local@[i].name@));
}

// ---------------------------------------------------------------------------------------
// The lists

/// The list of updates holds every update that is not held, and nothing else; that of held
/// updates holds the others.
pub proof fn lists_share_the_updates_out(
    packages: Seq<resolver::ResolvedPackage>,
    updates: Seq<resolver::ResolvedPackage>,
    held: Seq<resolver::ResolvedPackage>,
)
    requires
        resolver::listing(packages, updates, false, true),
        resolver::listing(packages, held, true, false),
    ensures
        forall|i: int|
            0 <= i < updates.len() ==> (#[trigger] updates[i]).needs_update && !updates[i].held,
        forall|i: int| 0 <= i < held.len() ==> (#[trigger] held[i]).needs_update && held[i].held,
        forall|k: int|
            0 <= k < packages.len() && (#[trigger] packages[k]).needs_update ==> if packages[k].held {
                exists|i: int| 0 <= i < held.len() && (#[trigger] held[i])@ == packages[k]@
            } else {
                exists|i: int| 0 <= i < updates.len() && (#[trigger] updates[i])@ == packages[k]@
            },
        forall|i: int, j: int|
            0 <= i < j < updates.len() && (#[trigger] updates[j]).state@ == "custom"@ ==> (
            #[trigger] updates[i]).state@ == "custom"@,
        forall|i: int, j: int|
            0 <= i < j < held.len() ==> text::precedes(
                (#[trigger] held[i]).name@,
                (#[trigger] held[j]).name@,
            ),
        forall|i: int, j: int|
            0 <= i < j < updates.len() && (#[trigger] updates[i]).state@ == (
            #[trigger] updates[j]).state@ ==> text::precedes(updates[i].name@, updates[j].name@),
{
    assert forall|i: int| 0 <= i < updates.len() implies (#[trigger] updates[i]).needs_update
        && !updates[i].held by {
        assert(resolver::comes_from(packages, updates[i]@, false));
        assert(updates[i]@.needs_update == updates[i].needs_update);
        assert(updates[i]@.held == updates[i].held);
    }
    assert forall|i: int| 0 <= i < held.len() implies (#[trigger] held[i]).needs_update && held[i].held by {
        assert(resolver::comes_from(packages, held[i]@, true));
        assert(held[i]@.needs_update == held[i].needs_update);
        assert(held[i]@.held == held[i].held);
    }
    assert forall|k: int|
        0 <= k < packages.len() && (#[trigger] packages[k]).needs_update implies if packages[k].held {
        exists|i: int| 0 <= i < held.len() && (#[trigger] held[i])@ == packages[k]@
    } else {
        exists|i: int| 0 <= i < updates.len() && (#[trigger] updates[i])@ == packages[k]@
    } by {
        assert(packages[k]@.needs_update && packages[k]@.held == packages[k].held);
        if packages[k].held {
            assert(resolver::is_listed(packages[k]@, true));
            assert(resolver::lists(held, packages[k]@));
        } else {
            assert(resolver::is_listed(packages[k]@, false));
            assert(resolver::lists(updates, packages[k]@));
        }
    }
    assert forall|i: int, j: int|
        0 <= i < j < updates.len() && (#[trigger] updates[j]).state@ == "custom"@ implies (
    #[trigger] updates[i]).state@ == "custom"@ by {
        assert(resolver::listed_before(true, updates[i]@, updates[j]@));
    }
    assert forall|i: int, j: int| 0 <= i < j < held.len() implies text::precedes(
        (#[trigger] held[i]).name@,
        (#[trigger] held[j]).name@,
    ) by {
        assert(resolver::listed_before(false, held[i]@, held[j]@));
    }
    assert forall|i: int, j: int|
        0 <= i < j < updates.len() && (#[trigger] updates[i]).state@ == (
        #[trigger] updates[j]).state@ implies text::precedes(updates[i].name@, updates[j].name@) by {
        assert(resolver::listed_before(true, updates[i]@, updates[j]@));
    }
}

/// A candidate that neither a pin nor an origin decides, from another repository than the one
/// of highest priority that has the package, is told to be diverted; no other is.
pub proof fn top_repo_is_the_first_that_has(s: Inputs, name: Seq<char>, t: int, top: SyncPackage)
    requires
        0 <= t < s.manager.repos@.len(),
        has(*s.manager, s.manager.repos@[t]@, name, top),
        forall|j: int| 0 <= j < t ==> lacks(*s.manager, (#[trigger] s.manager.repos@[j])@, name),
    ensures
        forall|p: LocalPackage|
            p.name@ == name ==> {
                let o = #[trigger] resolver::outcome(s, p);
                &&& o.natural_top_repo == Some(s.manager.repos@[t]@)
                &&& o.diverted_from_top == (o.state != "custom"@ && o.state != "sticky"@
                    && o.candidate is Some && o.candidate->0.repo != s.manager.repos@[t]@)
            },
{
    first_holder(*s.manager, name, t, 0, top);
    reveal_strlit("custom");
    reveal_strlit("sticky");
    reveal_strlit("default");
    assert("default"@.len() != "custom"@.len());
    assert("default"@[0] != "sticky"@[0]);
}

/// Updates that stay with their origin come right behind the pinned ones.
pub proof fn sticky_updates_follow_the_pinned(
    packages: Seq<resolver::ResolvedPackage>,
    updates: Seq<resolver::ResolvedPackage>,
    i: int,
    j: int,
)
    requires
        resolver::listing(packages, updates, false, true),
        0 <= i < j < updates.len(),
        updates[j].state@ == "sticky"@,
    ensures
        updates[i].state@ == "custom"@ || updates[i].state@ == "sticky"@,
{
    assert(resolver::listed_before(true, updates[i]@, updates[j]@));
    assert(updates[i]@.state == updates[i].state@ && updates[j]@.state == updates[j].state@);
    reveal_strlit("custom");
    reveal_strlit("sticky");
    assert("custom"@[0] != "sticky"@[0]);
}

} // verus!
