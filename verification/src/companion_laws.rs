//! What is promised of the packages that go along with one that is pinned, and of the
//! packages that depend on another.
use crate::aur::AurItem;
use crate::aur;
use crate::db::{AlpmManager, SyncPackage};
use crate::db;
use crate::patterns;
use crate::resolve_laws;
use crate::strmap;
use crate::text;
use vstd::prelude::*;
use vstd::string::*;

verus! {

pub open spec fn installed(m: AlpmManager, name: Seq<char>) -> bool {
    exists|i: int| 0 <= i < m.local@.len() && (#[trigger] m.local@[i]).name@ == name
}

/// A pin, exact or by a pattern, keeps `name` in `repo`.
pub open spec fn pinned_here(pins: Seq<(Seq<char>, String)>, repo: Seq<char>, name: Seq<char>) -> bool {
    exists|k: int|
        0 <= k < pins.len() && (#[trigger] pins[k]).1@ == repo && (pins[k].0 == name || (
        patterns::is_glob(pins[k].0) && patterns::glob_hit(pins[k].0, name)))
}

/// The base of a package; its own name where it has none.
pub open spec fn base_of(p: SyncPackage) -> Seq<char> {
    match p.base {
        Some(b) => b@,
        None => p.name@,
    }
}

/// `name` is `stem`, a hyphen and more.
pub open spec fn extends(name: Seq<char>, stem: Seq<char>) -> bool {
    &&& name.len() > stem.len()
    &&& forall|c: int| 0 <= c < stem.len() ==> #[trigger] name[c] == stem[c]
    &&& name[stem.len() as int] == '-'
}

proof fn part_extends(name: Seq<char>, stem: Seq<char>)
    ensures
        db::part_of(name, stem) == extends(name, stem),
{
    reveal_strlit("-");
    let lead = stem + "-"@;
    assert(lead.len() == stem.len() + 1);
    if db::part_of(name, stem) {
        let t = name.take(lead.len() as int);
        assert forall|c: int| 0 <= c < stem.len() implies #[trigger] name[c] == stem[c] by {
            assert(t[c] == name[c] && lead[c] == stem[c]);
        }
        assert(t[stem.len() as int] == name[stem.len() as int]);
    }
    if extends(name, stem) {
        assert(name.take(lead.len() as int) =~= lead);
    }
}

/// The package at `k` of the repository goes along with `target`.
pub open spec fn goes_along(
    m: AlpmManager,
    repo: Seq<char>,
    target: SyncPackage,
    pins: Seq<(Seq<char>, String)>,
    p: SyncPackage,
) -> bool {
    &&& p.name@ != target.name@
    &&& base_of(p) == base_of(target) || extends(p.name@, target.name@) || extends(
        p.name@,
        base_of(target),
    )
    &&& installed(m, p.name@) || exists|x: int|
        0 <= x < target.depends@.len() && (#[trigger] target.depends@[x])@ == p.name@
    &&& !pinned_here(pins, repo, p.name@)
}

/// With a package of a repository go exactly the other packages of that repository that have
/// the same base, or whose names extend its own or its base's, as far as they are installed
/// or it depends on them, and no pin keeps them there already.
pub proof fn companions_go_along(
    m: AlpmManager,
    pkg: Seq<char>,
    repo: Seq<char>,
    pins: Seq<(Seq<char>, String)>,
    aur: Option<AurItem>,
    d: int,
    t: int,
    name: Seq<char>,
)
    requires
        !text::same_ignoring_case(repo, "aur"@),
        resolve_laws::is_db(m.sync@, repo, d),
        resolve_laws::is_pkg(m.sync@[d].pkgs@, pkg, t),
    ensures
        db::companion(m, pkg, repo, pins, aur, name) <==> exists|k: int|
            0 <= k < m.sync@[d].pkgs@.len() && (#[trigger] m.sync@[d].pkgs@[k]).name@ == name
                && goes_along(m, repo, m.sync@[d].pkgs@[t], pins, m.sync@[d].pkgs@[k]),
{
    let target = m.sync@[d].pkgs@[t];
    let pkgs = m.sync@[d].pkgs@;
    resolve_laws::what_a_repo_has(m, repo, pkg);
    assert(resolve_laws::holds_at(m, repo, pkg, target, d, t));
    assert(resolve_laws::has(m, repo, pkg, target));
    crate::download_plan::db_from_in_range(m.sync@, repo, 0);
    first_db_is(m.sync@, repo, d, 0);
    assert(db::db_pkg(m.sync@[d], pkg) == Some(target));
    assert forall|k: int| 0 <= k < pkgs.len() implies db::sync_companion(
        m,
        target,
        pkg,
        repo,
        pins,
        #[trigger] pkgs[k],
    ) == goes_along(m, repo, target, pins, pkgs[k]) by {
        let p = pkgs[k];
        part_extends(p.name@, pkg);
        part_extends(p.name@, db::text_or(target.base, pkg));
        kept_is_pinned(pins, repo, p.name@);
        let ds = text::texts(target.depends@);
        if ds.contains(p.name@) {
            let x = choose|x: int| 0 <= x < ds.len() && ds[x] == p.name@;
            assert(target.depends@[x]@ == p.name@);
        }
        if exists|x: int| 0 <= x < target.depends@.len() && (#[trigger] target.depends@[x])@ == p.name@ {
            let x = choose|x: int|
                0 <= x < target.depends@.len() && (#[trigger] target.depends@[x])@ == p.name@;
            assert(ds[x] == p.name@);
        }
    }
    if db::companion(m, pkg, repo, pins, aur, name) {
        let k = choose|k: int|
            0 <= k < pkgs.len() && (#[trigger] pkgs[k]).name@ == name && db::sync_companion(
                m,
                target,
                pkg,
                repo,
                pins,
                pkgs[k],
            );
        assert(goes_along(m, repo, target, pins, pkgs[k]));
    }
    if exists|k: int|
        0 <= k < pkgs.len() && (#[trigger] pkgs[k]).name@ == name && goes_along(
            m,
            repo,
            target,
            pins,
            pkgs[k],
        ) {
        let k = choose|k: int|
            0 <= k < pkgs.len() && (#[trigger] pkgs[k]).name@ == name && goes_along(
                m,
                repo,
                target,
                pins,
                pkgs[k],
            );
        assert(db::sync_companion(m, target, pkg, repo, pins, pkgs[k]));
    }
}

proof fn first_db_is(sync: Seq<db::SyncDb>, repo: Seq<char>, d: int, i: int)
    requires
        resolve_laws::is_db(sync, repo, d),
        0 <= i <= d,
    ensures
        db::db_from(sync, repo, i) == Some(d),
    decreases d - i,
{
    if i < d {
        assert(sync[i].name@ != repo);
        first_db_is(sync, repo, d, i + 1);
    }
}

proof fn kept_is_pinned(pins: Seq<(Seq<char>, String)>, repo: Seq<char>, name: Seq<char>)
    ensures
        db::kept_in(pins, repo, name) == pinned_here(pins, repo, name),
{
    if db::kept_in(pins, repo, name) {
        let k = choose|k: int| 0 <= k < pins.len() && #[trigger] db::pin_covers(pins, repo, name, k);
        assert(pins[k].1@ == repo);
    }
    if pinned_here(pins, repo, name) {
        let k = choose|k: int|
            0 <= k < pins.len() && (#[trigger] pins[k]).1@ == repo && (pins[k].0 == name || (
            patterns::is_glob(pins[k].0) && patterns::glob_hit(pins[k].0, name)));
        assert(db::pin_covers(pins, repo, name, k));
    }
}

/// With a package of the AUR go exactly the other installed packages that it depends on or
/// whose names extend its own or its base's, unless they are pinned to the AUR already.
pub proof fn aur_companions_go_along(
    m: AlpmManager,
    pkg: Seq<char>,
    repo: Seq<char>,
    pins: Seq<(Seq<char>, String)>,
    item: AurItem,
    name: Seq<char>,
)
    requires
        text::same_ignoring_case(repo, "aur"@),
    ensures
        db::companion(m, pkg, repo, pins, Some(item), name) <==> {
            &&& installed(m, name)
            &&& name != pkg
            &&& !(strmap::lookup(pins, name) matches Some(r) && text::same_ignoring_case(r@, "aur"@))
            &&& {
                ||| exists|x: int|
                    0 <= x < item.depends@.len() && aur::dep_name((#[trigger] item.depends@[x])@) == name
                ||| extends(name, pkg)
                ||| extends(name, match item.package_base {
                    Some(b) => b@,
                    None => pkg,
                })
            }
        },
        !db::companion(m, pkg, repo, pins, None, name),
{
    part_extends(name, pkg);
    part_extends(name, db::text_or(item.package_base, pkg));
}

/// Nothing goes along with a package that the repository does not have.
pub proof fn unknown_package_has_no_companions(
    m: AlpmManager,
    pkg: Seq<char>,
    repo: Seq<char>,
    pins: Seq<(Seq<char>, String)>,
    aur: Option<AurItem>,
    name: Seq<char>,
)
    requires
        !text::same_ignoring_case(repo, "aur"@),
        resolve_laws::lacks(m, repo, pkg),
    ensures
        !db::companion(m, pkg, repo, pins, aur, name),
{
    resolve_laws::what_a_repo_has(m, repo, pkg);
}

/// An installed package depends on another exactly where one of its dependencies is that
/// package's name or something that it provides, as installed or in a repository.
pub proof fn dependents_name_what_they_need(m: AlpmManager, target: Seq<char>, name: Seq<char>)
    ensures
        db::is_dependent(m, target, name) <==> exists|i: int, x: int|
            0 <= i < m.local@.len() && m.local@[i].name@ == name && 0 <= x
                < m.local@[i].depends@.len() && provides_name(
                m,
                target,
                (#[trigger] m.local@[i].depends@[x])@,
            ),
{
    if db::is_dependent(m, target, name) {
        let i = choose|i: int|
            0 <= i < m.local@.len() && (#[trigger] m.local@[i]).name@ == name && db::depends_on(
                m,
                m.local@[i],
                target,
            );
        let x = choose|x: int|
            0 <= x < m.local@[i].depends@.len() && db::names_target(
                m,
                target,
                (#[trigger] m.local@[i].depends@[x])@,
            );
        names_provided(m, target, m.local@[i].depends@[x]@);
    }
    if exists|i: int, x: int|
        0 <= i < m.local@.len() && m.local@[i].name@ == name && 0 <= x < m.local@[i].depends@.len()
            && provides_name(m, target, (#[trigger] m.local@[i].depends@[x])@) {
        let (i, x) = choose|i: int, x: int|
            0 <= i < m.local@.len() && m.local@[i].name@ == name && 0 <= x
                < m.local@[i].depends@.len() && provides_name(
                m,
                target,
                (#[trigger] m.local@[i].depends@[x])@,
            );
        names_provided(m, target, m.local@[i].depends@[x]@);
        assert(db::depends_on(m, m.local@[i], target));
        assert(m.local@[i].name@ == name);
    }
}

/// The package `target` is called `t`, or provides it.
pub open spec fn provides_name(m: AlpmManager, target: Seq<char>, t: Seq<char>) -> bool {
    ||| t == target
    ||| exists|i: int, x: int|
        0 <= i < m.local@.len() && m.local@[i].name@ == target && 0 <= x
            < m.local@[i].provides@.len() && (#[trigger] m.local@[i].provides@[x])@ == t
    ||| exists|d: int, k: int, x: int|
        0 <= d < m.sync@.len() && resolve_laws::is_pkg(m.sync@[d].pkgs@, target, k) && 0 <= x
            < m.sync@[d].pkgs@[k].provides@.len() && (#[trigger] m.sync@[d].pkgs@[k].provides@[x])@
            == t
}

proof fn listed_in(v: Seq<String>, t: Seq<char>)
    ensures
        text::texts(v).contains(t) <==> exists|x: int| 0 <= x < v.len() && (#[trigger] v[x])@ == t,
{
    let s = text::texts(v);
    if s.contains(t) {
        let x = choose|x: int| 0 <= x < s.len() && s[x] == t;
        assert(v[x]@ == t);
    }
    if exists|x: int| 0 <= x < v.len() && (#[trigger] v[x])@ == t {
        let x = choose|x: int| 0 <= x < v.len() && (#[trigger] v[x])@ == t;
        assert(s[x] == t);
    }
}

proof fn names_provided(m: AlpmManager, target: Seq<char>, t: Seq<char>)
    ensures
        db::names_target(m, target, t) == provides_name(m, target, t),
{
    if db::names_target(m, target, t) && t != target {
        if exists|i: int|
            0 <= i < m.local@.len() && (#[trigger] m.local@[i]).name@ == target && text::texts(
                m.local@[i].provides@,
            ).contains(t) {
            let i = choose|i: int|
                0 <= i < m.local@.len() && (#[trigger] m.local@[i]).name@ == target && text::texts(
                    m.local@[i].provides@,
                ).contains(t);
            listed_in(m.local@[i].provides@, t);
            let x = choose|x: int|
                0 <= x < m.local@[i].provides@.len() && (#[trigger] m.local@[i].provides@[x])@ == t;
            assert(m.local@[i].provides@[x]@ == t);
        } else {
            let d = choose|d: int|
                0 <= d < m.sync@.len() && match db::db_pkg(#[trigger] m.sync@[d], target) {
                    Some(p) => text::texts(p.provides@).contains(t),
                    None => false,
                };
            db::pkg_from_found(m.sync@[d].pkgs@, target, 0);
            let k = db::pkg_from(m.sync@[d].pkgs@, target, 0)->0;
            assert(resolve_laws::is_pkg(m.sync@[d].pkgs@, target, k));
            listed_in(m.sync@[d].pkgs@[k].provides@, t);
            let x = choose|x: int|
                0 <= x < m.sync@[d].pkgs@[k].provides@.len() && (
                #[trigger] m.sync@[d].pkgs@[k].provides@[x])@ == t;
            assert(m.sync@[d].pkgs@[k].provides@[x]@ == t);
        }
    }
    if provides_name(m, target, t) && t != target {
        if exists|i: int, x: int|
            0 <= i < m.local@.len() && m.local@[i].name@ == target && 0 <= x
                < m.local@[i].provides@.len() && (#[trigger] m.local@[i].provides@[x])@ == t {
            let (i, x) = choose|i: int, x: int|
                0 <= i < m.local@.len() && m.local@[i].name@ == target && 0 <= x
                    < m.local@[i].provides@.len() && (#[trigger] m.local@[i].provides@[x])@ == t;
            listed_in(m.local@[i].provides@, t);
            assert(m.local@[i].name@ == target);
        } else {
            let (d, k, x) = choose|d: int, k: int, x: int|
                0 <= d < m.sync@.len() && resolve_laws::is_pkg(m.sync@[d].pkgs@, target, k) && 0 <= x
                    < m.sync@[d].pkgs@[k].provides@.len() && (
                #[trigger] m.sync@[d].pkgs@[k].provides@[x])@ == t;
            db::pkg_from_found(m.sync@[d].pkgs@, target, 0);
            listed_in(m.sync@[d].pkgs@[k].provides@, t);
            assert(db::db_pkg(m.sync@[d], target) == Some(m.sync@[d].pkgs@[k]));
        }
    }
}

} // verus!
