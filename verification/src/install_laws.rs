//! What is promised of an installation: where targets go, what conflicts, what a delay
//! concerns and what is pinned afterwards.
use crate::aur::AurItem;
use crate::db::{AlpmManager, LocalPackage, SyncPackage};
use crate::download_plan::Known;
use crate::download_plan;
use crate::install::{InstallPlanView, RunResult};
use crate::install;
use crate::picks;
use crate::resolve_laws;
use crate::strmap;
use crate::text;
use crate::text_laws;
use crate::utils;
use vstd::prelude::*;
use vstd::string::*;

verus! {

/// A target that names a repository is asked for from there, with all its companions, and
/// each of them is pinned there; nothing else of the plan changes.
pub proof fn named_repo_provides_and_pins(
    p: InstallPlanView,
    repos: Seq<Seq<char>>,
    repo: Seq<char>,
    pkg: Seq<char>,
    in_sync: bool,
    in_aur: bool,
    companions: Seq<Seq<char>>,
)
    requires
        !repo.contains('/'),
        repos.contains(repo),
        !text::same_ignoring_case(repo, "aur"@),
    ensures
        install::placed(p, repos, repo.push('/') + pkg, in_sync, in_aur, companions) matches Ok(q)
            && {
            let n = p.pacman.len() as int;
            let m = p.pins.len() as int;
            &&& q.aur == p.aur
            &&& q.pacman.len() == n + 1 + companions.len()
            &&& q.pacman.take(n) == p.pacman
            &&& q.pacman[n] == repo.push('/') + pkg
            &&& forall|i: int|
                0 <= i < companions.len() ==> q.pacman[n + 1 + i] == repo.push('/') + (
                #[trigger] companions[i])
            &&& q.pins.len() == m + 1 + companions.len()
            &&& q.pins.take(m) == p.pins
            &&& q.pins[m] == (pkg, repo)
            &&& forall|i: int|
                0 <= i < companions.len() ==> q.pins[m + 1 + i] == (#[trigger] companions[i], repo)
        },
{
    reveal_strlit("/");
    text_laws::cut_takes_apart(repo, '/', pkg);
    let q = install::placed(p, repos, repo.push('/') + pkg, in_sync, in_aur, companions)->Ok_0;
    let n = p.pacman.len() as int;
    let m = p.pins.len() as int;
    let names = seq![pkg] + companions;
    assert(names[0] == pkg);
    assert(q.pacman.take(n) =~= p.pacman);
    assert(q.pins.take(m) =~= p.pins);
    assert(repo + "/"@ =~= repo.push('/'));
    assert forall|i: int| 0 <= i < companions.len() implies q.pacman[n + 1 + i] == repo.push('/') + (
    #[trigger] companions[i]) && q.pins[m + 1 + i] == (companions[i], repo) by {
        assert(names[1 + i] == companions[i]);
    }
}

/// A target that names the AUR is left to the helper, with all its companions, under their
/// bare names, and each is pinned to the AUR.
pub proof fn named_aur_provides_and_pins(
    p: InstallPlanView,
    repos: Seq<Seq<char>>,
    pkg: Seq<char>,
    in_sync: bool,
    in_aur: bool,
    companions: Seq<Seq<char>>,
)
    ensures
        install::placed(p, repos, "aur"@.push('/') + pkg, in_sync, in_aur, companions) matches Ok(q)
            && {
            let n = p.aur.len() as int;
            let m = p.pins.len() as int;
            &&& q.pacman == p.pacman
            &&& q.aur.len() == n + 1 + companions.len()
            &&& q.aur.take(n) == p.aur
            &&& q.aur[n] == pkg
            &&& forall|i: int| 0 <= i < companions.len() ==> q.aur[n + 1 + i] == #[trigger] companions[i]
            &&& q.pins.len() == m + 1 + companions.len()
            &&& q.pins.take(m) == p.pins
            &&& q.pins[m] == (pkg, "aur"@)
            &&& forall|i: int|
                0 <= i < companions.len() ==> q.pins[m + 1 + i] == (#[trigger] companions[i], "aur"@)
        },
{
    reveal_strlit("aur");
    text_laws::cut_takes_apart("aur"@, '/', pkg);
    let q = install::placed(p, repos, "aur"@.push('/') + pkg, in_sync, in_aur, companions)->Ok_0;
    let n = p.aur.len() as int;
    let m = p.pins.len() as int;
    let names = seq![pkg] + companions;
    assert(names[0] == pkg);
    assert(q.aur.take(n) =~= p.aur);
    assert(q.pins.take(m) =~= p.pins);
    assert forall|i: int| 0 <= i < companions.len() implies q.aur[n + 1 + i] == (
    #[trigger] companions[i]) && q.pins[m + 1 + i] == (companions[i], "aur"@) by {
        assert(names[1 + i] == companions[i]);
    }
}

/// A target that names a repository that is not configured is refused.
pub proof fn unknown_repo_is_refused(
    p: InstallPlanView,
    repos: Seq<Seq<char>>,
    repo: Seq<char>,
    pkg: Seq<char>,
    in_sync: bool,
    in_aur: bool,
    companions: Seq<Seq<char>>,
)
    requires
        !repo.contains('/'),
        !repos.contains(repo),
        repo != "aur"@,
    ensures
        install::placed(p, repos, repo.push('/') + pkg, in_sync, in_aur, companions) is Err,
{
    text_laws::cut_takes_apart(repo, '/', pkg);
}

/// A bare name goes to pacman and is not pinned, unless only the AUR has it: such a one goes
/// to the helper and is pinned to the AUR.
pub proof fn bare_name_goes_where_it_is(
    p: InstallPlanView,
    repos: Seq<Seq<char>>,
    name: Seq<char>,
    in_sync: bool,
    in_aur: bool,
    companions: Seq<Seq<char>>,
)
    requires
        !name.contains('/'),
    ensures
        install::placed(p, repos, name, in_sync, in_aur, companions) matches Ok(q) && if in_aur
            && !in_sync {
            &&& q.pacman == p.pacman
            &&& q.aur == p.aur.push(name)
            &&& q.pins == p.pins.push((name, "aur"@))
        } else {
            &&& q.pacman == p.pacman.push(name)
            &&& q.aur == p.aur
            &&& q.pins == p.pins
        },
{
    text_laws::text_is_cut_at_the_first(name, '/');
    if text::cut(name, '/') is Some {
        let (a, b) = text::cut(name, '/')->0;
        assert(name[a.len() as int] == '/');
    }
}

/// The package that a target means, in the database `d`.
pub open spec fn meant_in(m: AlpmManager, k: Known, repo: Option<Seq<char>>, name: Seq<char>, d: int) -> bool {
    &&& 0 <= d < m.sync@.len()
    &&& repo is Some ==> m.sync@[d].name@ == repo->0
    &&& download_plan::find_in_db(m, k, d, name) is At
}

/// A target means the package of the first database that has it, among those of the
/// repository that it names, if it names one.
pub proof fn target_means_the_first_that_has_it(
    m: AlpmManager,
    k: Known,
    repo: Option<Seq<char>>,
    name: Seq<char>,
    from: int,
)
    requires
        0 <= from,
    ensures
        match install::meant_from(m, k, repo, name, from) {
            Some((e, i)) => exists|d: int|
                from <= d && #[trigger] meant_in(m, k, repo, name, d) && download_plan::find_in_db(
                    m,
                    k,
                    d,
                    name,
                ) == download_plan::Found::At(e, i) && forall|c: int|
                    from <= c < d ==> !#[trigger] meant_in(m, k, repo, name, c),
            None => forall|d: int| from <= d ==> !#[trigger] meant_in(m, k, repo, name, d),
        },
    decreases m.sync@.len() - from,
{
    if from < m.sync@.len() {
        target_means_the_first_that_has_it(m, k, repo, name, from + 1);
        if meant_in(m, k, repo, name, from) {
            assert(meant_in(m, k, repo, name, from));
        } else {
            match install::meant_from(m, k, repo, name, from + 1) {
                Some((e, i)) => {
                    let d = choose|d: int|
                        from + 1 <= d && #[trigger] meant_in(m, k, repo, name, d)
                            && download_plan::find_in_db(m, k, d, name) == download_plan::Found::At(
                            e,
                            i,
                        ) && forall|c: int|
                            from + 1 <= c < d ==> !#[trigger] meant_in(m, k, repo, name, c);
                    assert(meant_in(m, k, repo, name, d));
                },
                None => {},
            }
        }
    }
}

/// The installed package `inst` is one that `q` cannot stand beside: `q` says so, or it says
/// so of `q` or of something that `q` provides.
pub open spec fn clashes(local: Seq<LocalPackage>, q: SyncPackage, inst: Seq<char>) -> bool {
    &&& inst != q.name@
    &&& {
        ||| exists|x: int|
            0 <= x < q.conflicts@.len() && text::opt_text((#[trigger] q.conflicts@[x]).installed) == Some(inst)
        ||| exists|y: int|
            0 <= y < local.len() && (#[trigger] local[y]).name@ == inst && objects_to(local[y], q)
    }
}

pub open spec fn objects_to(p: LocalPackage, q: SyncPackage) -> bool {
    ||| names_in(p.conflicts@, q.name@)
    ||| exists|z: int| 0 <= z < q.provides@.len() && names_in(p.conflicts@, (#[trigger] q.provides@[z])@)
}

pub open spec fn names_in(v: Seq<String>, t: Seq<char>) -> bool {
    exists|x: int| 0 <= x < v.len() && (#[trigger] v[x])@ == t
}

proof fn texts_list(v: Seq<String>, t: Seq<char>)
    ensures
        text::texts(v).contains(t) == names_in(v, t),
{
    let s = text::texts(v);
    if s.contains(t) {
        let x = choose|x: int| 0 <= x < s.len() && s[x] == t;
        assert(v[x]@ == t);
    }
    if names_in(v, t) {
        let x = choose|x: int| 0 <= x < v.len() && (#[trigger] v[x])@ == t;
        assert(s[x] == t);
    }
}

proof fn add_pair_holds(
    s: Seq<(Seq<char>, Seq<char>)>,
    cand: Seq<char>,
    inst: Seq<char>,
    a: Seq<char>,
    b: Seq<char>,
)
    ensures
        install::add_pair(s, cand, inst).contains((a, b)) <==> s.contains((a, b)) || (a == cand && b
            == inst && inst != cand),
{
    let t = install::add_pair(s, cand, inst);
    if inst != cand && !s.contains((cand, inst)) {
        if t.contains((a, b)) {
            let k = choose|k: int| 0 <= k < t.len() && t[k] == (a, b);
            if k < s.len() {
                assert(s[k] == (a, b));
            }
        }
        if s.contains((a, b)) {
            let k = choose|k: int| 0 <= k < s.len() && s[k] == (a, b);
            assert(t[k] == (a, b));
        }
        assert(t[s.len() as int] == (cand, inst));
    }
}

pub open spec fn own_clash(q: SyncPackage, inst: Seq<char>, n: int) -> bool {
    exists|x: int|
        0 <= x < n && text::opt_text((#[trigger] q.conflicts@[x]).installed) == Some(inst)
}

pub open spec fn named_clash(local: Seq<LocalPackage>, dep: Seq<char>, inst: Seq<char>, n: int) -> bool {
    exists|y: int|
        0 <= y < n && (#[trigger] local[y]).name@ == inst && names_in(local[y].conflicts@, dep)
}

pub open spec fn provided_clash(local: Seq<LocalPackage>, q: SyncPackage, inst: Seq<char>, n: int) -> bool {
    exists|z: int|
        0 <= z < n && named_clash(local, (#[trigger] q.provides@[z])@, inst, local.len() as int)
}

proof fn own_holds(
    s: Seq<(Seq<char>, Seq<char>)>,
    q: SyncPackage,
    n: int,
    a: Seq<char>,
    b: Seq<char>,
)
    requires
        0 <= n <= q.conflicts@.len(),
    ensures
        install::own_conflicts(s, q, n).contains((a, b)) <==> s.contains((a, b)) || (a == q.name@ && b
            != a && own_clash(q, b, n)),
    decreases n,
{
    if n > 0 {
        own_holds(s, q, n - 1, a, b);
        match q.conflicts@[n - 1].installed {
            Some(i) => {
                add_pair_holds(install::own_conflicts(s, q, n - 1), q.name@, i@, a, b);
            },
            None => {},
        }
        if own_clash(q, b, n) && !own_clash(q, b, n - 1) {
            let x = choose|x: int|
                0 <= x < n && text::opt_text((#[trigger] q.conflicts@[x]).installed) == Some(b);
            assert(x == n - 1);
        }
        if own_clash(q, b, n - 1) {
            let x = choose|x: int|
                0 <= x < n - 1 && text::opt_text((#[trigger] q.conflicts@[x]).installed) == Some(b);
            assert(q.conflicts@[x].installed is Some);
        }
    }
}

proof fn declared_holds(
    s: Seq<(Seq<char>, Seq<char>)>,
    local: Seq<LocalPackage>,
    cand: Seq<char>,
    dep: Seq<char>,
    n: int,
    a: Seq<char>,
    b: Seq<char>,
)
    requires
        0 <= n <= local.len(),
    ensures
        install::declared_conflicts(s, local, cand, dep, n).contains((a, b)) <==> s.contains((a, b))
            || (a == cand && b != a && named_clash(local, dep, b, n)),
    decreases n,
{
    if n > 0 {
        declared_holds(s, local, cand, dep, n - 1, a, b);
        let before = install::declared_conflicts(s, local, cand, dep, n - 1);
        texts_list(local[n - 1].conflicts@, dep);
        add_pair_holds(before, cand, local[n - 1].name@, a, b);
        if named_clash(local, dep, b, n - 1) {
            let y = choose|y: int|
                0 <= y < n - 1 && (#[trigger] local[y]).name@ == b && names_in(local[y].conflicts@, dep);
            assert(local[y].name@ == b);
        }
        if named_clash(local, dep, b, n) && !named_clash(local, dep, b, n - 1) {
            let y = choose|y: int|
                0 <= y < n && (#[trigger] local[y]).name@ == b && names_in(local[y].conflicts@, dep);
            assert(y == n - 1);
        }
    }
}

proof fn provided_holds(
    s: Seq<(Seq<char>, Seq<char>)>,
    local: Seq<LocalPackage>,
    q: SyncPackage,
    n: int,
    a: Seq<char>,
    b: Seq<char>,
)
    requires
        0 <= n <= q.provides@.len(),
    ensures
        install::provided_conflicts(s, local, q, n).contains((a, b)) <==> s.contains((a, b)) || (a
            == q.name@ && b != a && provided_clash(local, q, b, n)),
    decreases n,
{
    if n > 0 {
        provided_holds(s, local, q, n - 1, a, b);
        declared_holds(
            install::provided_conflicts(s, local, q, n - 1),
            local,
            q.name@,
            q.provides@[n - 1]@,
            local.len() as int,
            a,
            b,
        );
        if provided_clash(local, q, b, n - 1) {
            let z = choose|z: int|
                0 <= z < n - 1 && named_clash(
                    local,
                    (#[trigger] q.provides@[z])@,
                    b,
                    local.len() as int,
                );
            assert(named_clash(local, q.provides@[z]@, b, local.len() as int));
        }
        if provided_clash(local, q, b, n) && !provided_clash(local, q, b, n - 1) {
            let z = choose|z: int|
                0 <= z < n && named_clash(local, (#[trigger] q.provides@[z])@, b, local.len() as int);
            assert(z == n - 1);
        }
        if named_clash(local, q.provides@[n - 1]@, b, local.len() as int) {
            assert(provided_clash(local, q, b, n));
        }
    }
}

proof fn clash_parts(local: Seq<LocalPackage>, q: SyncPackage, b: Seq<char>)
    ensures
        clashes(local, q, b) <==> b != q.name@ && (own_clash(q, b, q.conflicts@.len() as int)
            || named_clash(local, q.name@, b, local.len() as int) || provided_clash(
            local,
            q,
            b,
            q.provides@.len() as int,
        )),
{
    let n = local.len() as int;
    if named_clash(local, q.name@, b, n) {
        let y = choose|y: int|
            0 <= y < n && (#[trigger] local[y]).name@ == b && names_in(local[y].conflicts@, q.name@);
        assert(objects_to(local[y], q));
    }
    if provided_clash(local, q, b, q.provides@.len() as int) {
        let z = choose|z: int|
            0 <= z < q.provides@.len() && named_clash(local, (#[trigger] q.provides@[z])@, b, n);
        let y = choose|y: int|
            0 <= y < n && (#[trigger] local[y]).name@ == b && names_in(
                local[y].conflicts@,
                q.provides@[z]@,
            );
        assert(objects_to(local[y], q));
    }
    if exists|y: int|
        0 <= y < local.len() && (#[trigger] local[y]).name@ == b && objects_to(local[y], q) {
        let y = choose|y: int|
            0 <= y < local.len() && (#[trigger] local[y]).name@ == b && objects_to(local[y], q);
        if names_in(local[y].conflicts@, q.name@) {
            assert(named_clash(local, q.name@, b, n));
        } else {
            let z = choose|z: int|
                0 <= z < q.provides@.len() && names_in(local[y].conflicts@, (#[trigger] q.provides@[z])@);
            assert(local[y].name@ == b);
            assert(named_clash(local, q.provides@[z]@, b, n));
            assert(provided_clash(local, q, b, q.provides@.len() as int));
        }
    }
}

/// The target at `t` means the package `q`.
pub open spec fn means(m: AlpmManager, k: Known, t: Seq<char>, q: SyncPackage) -> bool {
    install::meant(m, k, t) matches Some((d, i)) && m.sync@[d].pkgs@[i] == q
}

/// A conflict is told exactly where a target means a package that clashes with an installed
/// one.
pub proof fn told_conflicts_are_the_clashes(
    m: AlpmManager,
    k: Known,
    ts: Seq<Seq<char>>,
    n: int,
    a: Seq<char>,
    b: Seq<char>,
)
    requires
        0 <= n <= ts.len(),
    ensures
        install::target_conflicts(m, k, ts, n).contains((a, b)) <==> target_clash(m, k, ts, n, a, b),
    decreases n,
{
    if n > 0 {
        told_conflicts_are_the_clashes(m, k, ts, n - 1, a, b);
        let before = install::target_conflicts(m, k, ts, n - 1);
        match install::meant(m, k, ts[n - 1]) {
            Some((d, i)) => {
                let q = m.sync@[d].pkgs@[i];
                let own = install::own_conflicts(before, q, q.conflicts@.len() as int);
                let named = install::declared_conflicts(
                    own,
                    m.local@,
                    q.name@,
                    q.name@,
                    m.local@.len() as int,
                );
                own_holds(before, q, q.conflicts@.len() as int, a, b);
                declared_holds(own, m.local@, q.name@, q.name@, m.local@.len() as int, a, b);
                provided_holds(named, m.local@, q, q.provides@.len() as int, a, b);
                clash_parts(m.local@, q, b);
                if a == q.name@ && clashes(m.local@, q, b) {
                    assert(means(m, k, ts[n - 1], q));
                    assert(target_clash_at(m, k, ts[n - 1], a, b));
                }
            },
            None => {},
        }
        if target_clash(m, k, ts, n - 1, a, b) {
            let x = choose|x: int| 0 <= x < n - 1 && target_clash_at(m, k, #[trigger] ts[x], a, b);
            assert(target_clash_at(m, k, ts[x], a, b));
        }
        if target_clash(m, k, ts, n, a, b) && !target_clash(m, k, ts, n - 1, a, b) {
            let x = choose|x: int| 0 <= x < n && target_clash_at(m, k, #[trigger] ts[x], a, b);
            assert(x == n - 1);
        }
    }
}

pub open spec fn target_clash(
    m: AlpmManager,
    k: Known,
    ts: Seq<Seq<char>>,
    n: int,
    a: Seq<char>,
    b: Seq<char>,
) -> bool {
    exists|x: int| 0 <= x < n && target_clash_at(m, k, #[trigger] ts[x], a, b)
}

pub open spec fn target_clash_at(m: AlpmManager, k: Known, t: Seq<char>, a: Seq<char>, b: Seq<char>) -> bool {
    exists|q: SyncPackage| #[trigger] means(m, k, t, q) && q.name@ == a && clashes(m.local@, q, b)
}

/// A package is told to be too new exactly where it is younger than the delay asks for, with
/// the days that are left.
pub proof fn young_package_is_told(built: i64, days: u32, now: i64)
    ensures
        install::release_days_left(built, days, now) is Some <==> now - built < days * 86400,
        now >= built ==> (install::release_days_left(built, days, now) matches Some(left)
            ==> resolve_laws::days_for(left, days * 86400 - (now - built))),
{
    if now >= built && now - built < days * 86400 {
        crate::double::left_is_close(days as int, now - built);
    }
}

/// The date that counts is that of the package in the named repository, that of the AUR where
/// it is named, and else that of the first repository that has the package.
pub proof fn release_date_is_of_the_provider(
    m: AlpmManager,
    repo: Seq<char>,
    aur: Option<AurItem>,
    pkg: Seq<char>,
    q: SyncPackage,
)
    requires
        resolve_laws::has(m, repo, pkg, q),
    ensures
        !text::same_ignoring_case(repo, "aur"@) ==> install::release_date(m, Some(repo), aur, pkg)
            == Some(q.builddate),
        forall|t: int|
            0 <= t < m.repos@.len() && (#[trigger] m.repos@[t])@ == repo && (forall|j: int|
                0 <= j < t ==> resolve_laws::lacks(m, (#[trigger] m.repos@[j])@, pkg))
                ==> install::release_date(m, None, aur, pkg) == Some(q.builddate),
{
    resolve_laws::what_a_repo_has(m, repo, pkg);
    assert forall|t: int|
        0 <= t < m.repos@.len() && (#[trigger] m.repos@[t])@ == repo && (forall|j: int|
            0 <= j < t ==> resolve_laws::lacks(m, (#[trigger] m.repos@[j])@, pkg)) implies install::release_date(
        m,
        None,
        aur,
        pkg,
    ) == Some(q.builddate) by {
        resolve_laws::first_holder(m, pkg, t, 0, q);
    }
}

/// The dependencies that a delay concerns are those that are not installed, each once.
pub proof fn unmet_are_not_installed(k: Known, deps: Seq<Seq<char>>, n: int, x: Seq<char>)
    requires
        0 <= n <= deps.len(),
    ensures
        install::unmet_upto(k, deps, n).contains(x) <==> (exists|i: int|
            0 <= i < n && #[trigger] deps[i] == x) && !(strmap::lookup(k.deps@, x) matches Some(a)
            && a.installed),
        install::unmet_upto(k, deps, n).no_duplicates(),
    decreases n,
{
    if n > 0 {
        unmet_are_not_installed(k, deps, n - 1, x);
        let before = install::unmet_upto(k, deps, n - 1);
        let d = deps[n - 1];
        let now = install::unmet_upto(k, deps, n);
        if before.contains(x) {
            let j = choose|j: int| 0 <= j < before.len() && before[j] == x;
            assert(now[j] == x);
            let i = choose|i: int| 0 <= i < n - 1 && #[trigger] deps[i] == x;
            assert(deps[i] == x);
        }
        if now.contains(x) && !before.contains(x) {
            let j = choose|j: int| 0 <= j < now.len() && now[j] == x;
            if j < before.len() {
                assert(before[j] == x);
            }
            assert(x == d);
            assert(deps[n - 1] == x);
        }
        if now == before.push(d) {
            assert(now[before.len() as int] == d);
        }
    }
}

/// What was installed is what was asked for from the programs that succeeded.
pub proof fn installed_is_what_succeeded(p: InstallPlanView, pacman: RunResult, aur: RunResult, t: Seq<char>)
    ensures
        install::installed_of(p, pacman, aur).contains(t) <==> {
            ||| p.pacman.contains(t) && pacman is Success
            ||| p.aur.contains(t) && aur is Success && (p.pacman.len() == 0 || pacman is Success)
        },
{
    let a = if p.pacman.len() > 0 && pacman is Success {
        p.pacman
    } else {
        Seq::empty()
    };
    let b = if install::helper_runs(p, pacman) && aur is Success {
        p.aur
    } else {
        Seq::empty()
    };
    let all = a + b;
    if all.contains(t) {
        let k = choose|k: int| 0 <= k < all.len() && all[k] == t;
        if k < a.len() {
            assert(a[k] == t);
        } else {
            assert(b[k - a.len()] == t);
        }
    }
    if a.contains(t) {
        let k = choose|k: int| 0 <= k < a.len() && a[k] == t;
        assert(all[k] == t);
    }
    if b.contains(t) {
        let k = choose|k: int| 0 <= k < b.len() && b[k] == t;
        assert(all[a.len() + k] == t);
    }
}

/// Of the pins of a plan exactly those are kept whose package was installed, by its name or
/// with its repository, in order.
pub proof fn pins_of_the_installed_are_kept(
    installed: Seq<Seq<char>>,
    pins: Seq<(Seq<char>, Seq<char>)>,
    n: int,
)
    requires
        0 <= n <= pins.len(),
    ensures
        picks::made_of(
            install::confirmed_upto(installed, pins, n),
            n,
            |i: int|
                installed.contains(pins[i].0) || installed.contains(pins[i].1.push('/') + pins[i].0),
            |i: int| pins[i],
        ),
    decreases n,
{
    let keep = |i: int|
        installed.contains(pins[i].0) || installed.contains(pins[i].1.push('/') + pins[i].0);
    let give = |i: int| pins[i];
    if n == 0 {
        picks::made_of_none(keep, give);
    } else {
        pins_of_the_installed_are_kept(installed, pins, n - 1);
        picks::made_of_one_more(install::confirmed_upto(installed, pins, n - 1), n - 1, keep, give);
        reveal_strlit("/");
        let (a, b) = pins[n - 1];
        assert(b + "/"@ =~= b.push('/'));
        assert(keep(n - 1) == (installed.contains(a) || installed.contains(b.push('/') + a)));
        assert(give(n - 1) == pins[n - 1]);
    }
}

/// A pin that is added wins over one that was there and over those added before it; the
/// others stay.
pub proof fn last_added_pin_wins(
    pins: Seq<(Seq<char>, String)>,
    added: Seq<(Seq<char>, Seq<char>)>,
    n: int,
    name: Seq<char>,
)
    requires
        0 <= n <= added.len(),
    ensures
        forall|k: int|
            0 <= k < n && (#[trigger] added[k]).0 == name && (forall|j: int|
                k < j < n ==> (#[trigger] added[j]).0 != name) ==> install::pin_after(
                pins,
                added,
                n,
                name,
            ) == Some(added[k].1),
        (forall|k: int| 0 <= k < n ==> (#[trigger] added[k]).0 != name) ==> install::pin_after(
            pins,
            added,
            n,
            name,
        ) == text::opt_text(strmap::lookup(pins, name)),
    decreases n,
{
    if n > 0 {
        last_added_pin_wins(pins, added, n - 1, name);
    }
}

proof fn unsafe_is_first(ts: Seq<Seq<char>>, i: int)
    requires
        0 <= i,
    ensures
        match install::unsafe_from(ts, i) {
            Some(k) => i <= k < ts.len() && !utils::safe_install_target(ts[k]) && forall|j: int|
                i <= j < k ==> utils::safe_install_target(#[trigger] ts[j]),
            None => forall|j: int| i <= j < ts.len() ==> utils::safe_install_target(#[trigger] ts[j]),
        },
    decreases ts.len() - i,
{
    if i < ts.len() {
        unsafe_is_first(ts, i + 1);
    }
}

/// The target that is refused is the first one that is not safe; none is refused only where
/// all are.
pub proof fn first_unsafe_target_is_refused(ts: Seq<Seq<char>>)
    ensures
        match install::unsafe_from(ts, 0) {
            Some(k) => 0 <= k < ts.len() && !utils::safe_install_target(ts[k]) && forall|j: int|
                0 <= j < k ==> utils::safe_install_target(#[trigger] ts[j]),
            None => forall|j: int| 0 <= j < ts.len() ==> utils::safe_install_target(#[trigger] ts[j]),
        },
{
    unsafe_is_first(ts, 0);
}

/// A safe target is a safe name, or two of them with a slash between.
pub proof fn safe_target_is_a_safe_name(repo: Seq<char>, pkg: Seq<char>)
    requires
        utils::safe_pkg_name(repo),
        utils::safe_pkg_name(pkg),
    ensures
        utils::safe_install_target(pkg),
        utils::safe_install_target(repo.push('/') + pkg),
        !utils::safe_install_target(repo.push('/') + pkg.push('/')),
        !utils::safe_install_target(pkg.push('/')),
{
    assert(!repo.contains('/')) by {
        if repo.contains('/') {
            let k = choose|k: int| 0 <= k < repo.len() && repo[k] == '/';
            assert(utils::name_char(repo[k]));
        }
    }
    assert(!pkg.contains('/')) by {
        if pkg.contains('/') {
            let k = choose|k: int| 0 <= k < pkg.len() && pkg[k] == '/';
            assert(utils::name_char(pkg[k]));
        }
    }
    unspaced_is_trimmed(pkg);
    text_laws::text_is_cut_at_the_first(pkg, '/');
    if text::cut(pkg, '/') is Some {
        let (a, b) = text::cut(pkg, '/')->0;
        assert(pkg[a.len() as int] == '/');
    }
    let both = repo.push('/') + pkg;
    assert(both[0] == repo[0] && both.last() == pkg.last());
    assert(utils::name_char(repo[0]) && utils::name_char(pkg[pkg.len() - 1]));
    unspaced_is_trimmed(both);
    text_laws::cut_takes_apart(repo, '/', pkg);
    let more = repo.push('/') + pkg.push('/');
    assert(more[0] == repo[0] && more.last() == '/');
    unspaced_is_trimmed(more);
    text_laws::cut_takes_apart(repo, '/', pkg.push('/'));
    assert(pkg.push('/')[pkg.len() as int] == '/');
    assert(!utils::name_char('/'));
    let slash = pkg.push('/');
    assert(slash[0] == pkg[0] && slash.last() == '/');
    assert(utils::name_char(pkg[0]));
    unspaced_is_trimmed(slash);
    text_laws::cut_takes_apart(pkg, '/', Seq::empty());
    assert(pkg.push('/') + Seq::<char>::empty() =~= pkg.push('/'));
}

proof fn unspaced_is_trimmed(s: Seq<char>)
    requires
        s.len() > 0,
        utils::name_char(s[0]) || s[0] == '/',
        utils::name_char(s.last()) || s.last() == '/',
    ensures
        text::trim(s) == s,
{
    assert(!text::is_space(s[0]));
    assert(!text::is_space(s.last()));
}

/// An answer is yes or no by its letters, in any case, with white space around it or not.
pub proof fn answers_are_read(a: Seq<char>)
    ensures
        install::says_yes(a) <==> text::lower(text::trim(a)) == "y"@ || text::lower(text::trim(a))
            == "yes"@,
        install::says_no(a) <==> text::lower(text::trim(a)) == "n"@ || text::lower(text::trim(a))
            == "no"@,
        !(install::says_yes(a) && install::says_no(a)),
        install::is_blank(a) ==> !install::says_yes(a) && !install::says_no(a),
{
    reveal_strlit("y");
    reveal_strlit("yes");
    reveal_strlit("n");
    reveal_strlit("no");
    assert("y"@[0] != "n"@[0]);
    assert("y"@.len() != "no"@.len());
    assert("yes"@.len() != "n"@.len());
    assert("yes"@.len() != "no"@.len());
}

} // verus!
