//! What is promised of the queries to the AUR and of the other package managers.
use crate::aur::AurItem;
use crate::aur;
use crate::db::{DbFiles, VersionOrder};
use crate::db;
use crate::integrations::{ExternalUpdate, IntegrationProvider, PipxApp, Provider, UpdateView};
use crate::integrations;
use crate::picks;
use crate::pm::Process;
use crate::pm;
use crate::strmap;
use crate::text;
use crate::upgrade;
use vstd::prelude::*;
use vstd::string::*;

verus! {

// ---------------------------------------------------------------------------------------
// The AUR

proof fn constraint_is_first(s: Seq<char>, i: int)
    requires
        0 <= i <= s.len(),
    ensures
        i <= aur::constraint_from(s, i) <= s.len(),
        forall|k: int|
            i <= k < aur::constraint_from(s, i) ==> #[trigger] s[k] != '<' && s[k] != '>' && s[k] != '=',
        aur::constraint_from(s, i) < s.len() ==> {
            let c = s[aur::constraint_from(s, i)];
            c == '<' || c == '>' || c == '='
        },
    decreases s.len() - i,
{
    if i < s.len() && !aur::constraint_char(s[i]) {
        constraint_is_first(s, i + 1);
    }
}

/// The name in a dependency is what stands before the first sign of a constraint.
pub proof fn dependency_names_end_at_a_constraint(name: Seq<char>, rest: Seq<char>)
    requires
        forall|k: int|
            0 <= k < name.len() ==> #[trigger] name[k] != '<' && name[k] != '>' && name[k] != '=',
        rest.len() > 0 ==> rest[0] == '<' || rest[0] == '>' || rest[0] == '=',
    ensures
        aur::dep_name(name + rest) == name,
{
    let s = name + rest;
    constraint_is_first(s, 0);
    let c = aur::constraint_from(s, 0);
    if c < name.len() {
        assert(s[c] == name[c]);
    }
    if c > name.len() {
        assert(s[name.len() as int] == rest[0]);
    }
    assert(s.take(c) =~= name);
}

/// All names are asked for, in turn, no more than fifty at a time.
pub proof fn all_names_are_asked_for(names: Seq<Seq<char>>, from: int, k: int)
    requires
        0 <= from,
        0 <= k,
    ensures
        from < names.len() ==> 50 * (aur::query_urls(names, from).len() - 1) < names.len() - from
            <= 50 * aur::query_urls(names, from).len(),
        from >= names.len() ==> aur::query_urls(names, from).len() == 0,
        from + 50 * k < names.len() ==> k < aur::query_urls(names, from).len() && aur::query_urls(
            names,
            from,
        )[k] == aur::query_url(
            names,
            from + 50 * k,
            if from + 50 * k + 50 < names.len() {
                from + 50 * k + 50
            } else {
                names.len() as int
            },
        ),
    decreases names.len() - from,
{
    if from < names.len() {
        let to = if from + 50 < names.len() {
            from + 50
        } else {
            names.len() as int
        };
        all_names_are_asked_for(names, to, 0);
        if k > 0 {
            all_names_are_asked_for(names, to, k - 1);
            if from + 50 * k < names.len() {
                assert(to == from + 50);
                assert(aur::query_urls(names, from)[k] == aur::query_urls(names, to)[k - 1]);
            }
        }
    }
}

/// Letters, digits and the four other plain signs stand in an address as they are.
pub proof fn plain_bytes_stay(s: Seq<u8>)
    requires
        forall|i: int| 0 <= i < s.len() ==> aur::plain_byte(#[trigger] s[i]),
    ensures
        aur::encoded_bytes(s).len() == s.len(),
        forall|i: int| 0 <= i < s.len() ==> #[trigger] aur::encoded_bytes(s)[i] == s[i] as char,
    decreases s.len(),
{
    if s.len() > 0 {
        let t = s.drop_last();
        assert forall|i: int| 0 <= i < t.len() implies aur::plain_byte(#[trigger] t[i]) by {
            assert(t[i] == s[i]);
        }
        plain_bytes_stay(t);
        assert(aur::plain_byte(s[s.len() - 1]));
        assert forall|i: int| 0 <= i < s.len() implies #[trigger] aur::encoded_bytes(s)[i] == s[i] as char by {
            if i < t.len() {
                assert(aur::encoded_bytes(t)[i] == t[i] as char);
            }
        }
    }
}

/// What was answered last for a name is what is known of it; a name without an answer stays
/// as it was known.
pub proof fn last_answer_counts(
    known: Seq<(Seq<char>, AurItem)>,
    items: Seq<AurItem>,
    n: int,
    name: Seq<char>,
)
    requires
        0 <= n <= items.len(),
    ensures
        forall|k: int|
            0 <= k < n && (#[trigger] items[k]).name@ == name && (forall|j: int|
                k < j < n ==> (#[trigger] items[j]).name@ != name) ==> aur::merged_item(
                known,
                items,
                n,
                name,
            ) == Some(items[k]),
        (forall|k: int| 0 <= k < n ==> (#[trigger] items[k]).name@ != name) ==> aur::merged_item(
            known,
            items,
            n,
            name,
        ) == strmap::lookup(known, name),
    decreases n,
{
    if n > 0 {
        last_answer_counts(known, items, n - 1, name);
    }
}

// ---------------------------------------------------------------------------------------
// Other package managers

/// An update of Flatpak has an id; a line with fewer than four columns, or without an id, is
/// none.
pub proof fn flatpak_lines_need_an_id(line: Seq<char>)
    ensures
        ({
            let parts = text::split_on(line, '\t');
            match integrations::flatpak_line(line) {
                Some(u) => {
                    &&& parts.len() >= 4
                    &&& u.runner == "Flatpak"@
                    &&& u.id == integrations::clean_part(parts[1])
                    &&& u.id.len() > 0
                    &&& integrations::clean_part(parts[0]).len() > 0 ==> u.name == integrations::clean_part(
                        parts[0],
                    )
                    &&& integrations::clean_part(parts[0]).len() == 0 ==> u.name == u.id
                    &&& integrations::clean_part(parts[2]).len() > 0 ==> u.version
                        == integrations::clean_part(parts[2])
                    &&& integrations::clean_part(parts[3]).len() > 0 ==> u.repo == integrations::clean_part(
                        parts[3],
                    )
                },
                None => parts.len() < 4 || integrations::clean_part(parts[1]).len() == 0,
            }
        }),
{
}

/// The updates of Flatpak are those of the lines, in order.
pub proof fn flatpak_lines_are_read(ls: Seq<Seq<char>>, n: int)
    requires
        0 <= n <= ls.len(),
    ensures
        picks::made_of(
            integrations::flatpak_upto(ls, n),
            n,
            |i: int| integrations::flatpak_line(ls[i]) is Some,
            |i: int| integrations::flatpak_line(ls[i])->0,
        ),
    decreases n,
{
    let keep = |i: int| integrations::flatpak_line(ls[i]) is Some;
    let give = |i: int| integrations::flatpak_line(ls[i])->0;
    if n == 0 {
        picks::made_of_none(keep, give);
    } else {
        flatpak_lines_are_read(ls, n - 1);
        picks::made_of_one_more(integrations::flatpak_upto(ls, n - 1), n - 1, keep, give);
        assert(keep(n - 1) == (integrations::flatpak_line(ls[n - 1]) is Some));
        assert(give(n - 1) == integrations::flatpak_line(ls[n - 1])->0);
    }
}

/// Each line of Nix is an update of what it names.
pub proof fn nix_lines_are_read(ls: Seq<Seq<char>>, n: int)
    requires
        0 <= n <= ls.len(),
    ensures
        integrations::nix_upto(ls, n).len() == n,
        forall|i: int|
            0 <= i < n ==> (#[trigger] integrations::nix_upto(ls, n)[i]).id == ls[i]
                && integrations::nix_upto(ls, n)[i].name == ls[i] && integrations::nix_upto(ls, n)[i].runner
                == "Nix"@,
    decreases n,
{
    if n > 0 {
        nix_lines_are_read(ls, n - 1);
    }
}

/// An application of Pipx has an update where the newest version is known and newer than the
/// installed one.
pub open spec fn has_newer(a: PipxApp) -> bool {
    a.latest is Some && a.versus_installed == VersionOrder::Newer
}

pub open spec fn newer_of(a: PipxApp) -> UpdateView {
    UpdateView {
        runner: "Pipx"@,
        id: a.name@,
        name: a.name@,
        repo: "pypi"@,
        version: a.latest->0@,
    }
}

pub open spec fn told_of(apps: Seq<PipxApp>, u: UpdateView, j: int) -> bool {
    0 <= j < apps.len() && has_newer(apps[j]) && newer_of(apps[j]) == u
}

proof fn pipx_from_holds(apps: Seq<PipxApp>, workers: int, w: int, i: int, u: UpdateView)
    requires
        1 <= workers <= 4,
        0 <= w <= workers,
        0 <= i,
        w < workers ==> i % workers == w,
    ensures
        integrations::pipx_from(apps, workers, w, i).contains(u) <==> exists|j: int|
            #[trigger] told_of(apps, u, j) && (j % workers > w || (j % workers == w && j >= i)),
    decreases
        workers - w,
        (if i < apps.len() {
            apps.len() - i
        } else {
            0
        }),
{
    let all = integrations::pipx_from(apps, workers, w, i);
    if w >= workers {
        assert forall|j: int| #[trigger] told_of(apps, u, j) implies j % workers < w by {
            residue(j, workers);
        }
        assert(all.len() == 0);
    } else if i >= apps.len() {
        if w + 1 < workers {
            assert((w + 1) % workers == w + 1) by {
                residue(w + 1, workers);
            }
        }
        pipx_from_holds(apps, workers, w + 1, w + 1, u);
        assert forall|j: int| #[trigger] told_of(apps, u, j) implies ((j % workers > w || (j % workers
            == w && j >= i)) == (j % workers > w + 1 || (j % workers == w + 1 && j >= w + 1))) by {
            residue(j, workers);
        }
    } else {
        step_over(i, workers);
        pipx_from_holds(apps, workers, w, i + workers, u);
        let rest = integrations::pipx_from(apps, workers, w, i + workers);
        assert forall|j: int| #[trigger] told_of(apps, u, j) && j != i implies ((j % workers > w || (j
            % workers == w && j >= i)) == (j % workers > w || (j % workers == w && j >= i + workers))) by {
            next_with_residue(i, j, workers);
        }
        if told_of(apps, u, i) {
            assert(integrations::pipx_update(apps[i]) == Some(u));
            assert(all[0] == u);
        }
        match integrations::pipx_update(apps[i]) {
            Some(x) => {
                assert(told_of(apps, x, i));
                if all.contains(u) && u != x {
                    let k = choose|k: int| 0 <= k < all.len() && all[k] == u;
                    assert(rest[k - 1] == u);
                }
                if rest.contains(u) {
                    let k = choose|k: int| 0 <= k < rest.len() && rest[k] == u;
                    assert(all[k + 1] == u);
                }
            },
            None => {},
        }
    }
}

proof fn residue(j: int, m: int)
    requires
        0 <= j,
        1 <= m <= 4,
    ensures
        0 <= j % m < m,
        j % m <= j,
        j < m ==> j % m == j,
{
    if m == 1 {
    } else if m == 2 {
    } else if m == 3 {
    } else {
        assert(m == 4);
    }
}

proof fn step_over(i: int, m: int)
    requires
        0 <= i,
        1 <= m <= 4,
    ensures
        (i + m) % m == i % m,
{
    if m == 1 {
    } else if m == 2 {
    } else if m == 3 {
    } else {
        assert(m == 4);
    }
}

proof fn next_with_residue(i: int, j: int, m: int)
    requires
        0 <= i,
        0 <= j,
        1 <= m <= 4,
    ensures
        j % m == i % m && j > i ==> j >= i + m,
{
    if m == 1 {
    } else if m == 2 {
    } else if m == 3 {
    } else {
        assert(m == 4);
    }
}

/// However the applications are shared out, an update is told exactly for those with a newer
/// version.
pub proof fn newer_applications_are_told(apps: Seq<PipxApp>, u: UpdateView)
    ensures
        integrations::pipx_from(apps, integrations::pipx_workers(apps.len() as int), 0, 0).contains(u)
            <==> exists|j: int| #[trigger] told_of(apps, u, j),
{
    let m = integrations::pipx_workers(apps.len() as int);
    residue(0, m);
    pipx_from_holds(apps, m, 0, 0, u);
    assert forall|j: int| #[trigger] told_of(apps, u, j) implies j % m > 0 || (j % m == 0 && j >= 0) by {
        residue(j, m);
    }
}

/// Of the applications that are listed those without a version are passed over.
pub proof fn unversioned_applications_are_passed_over(apps: Seq<(Seq<char>, Seq<char>)>, n: int)
    requires
        0 <= n <= apps.len(),
    ensures
        picks::made_of(
            integrations::versioned_upto(apps, n),
            n,
            |i: int| apps[i].1.len() > 0,
            |i: int| apps[i],
        ),
    decreases n,
{
    let keep = |i: int| apps[i].1.len() > 0;
    let give = |i: int| apps[i];
    if n == 0 {
        picks::made_of_none(keep, give);
    } else {
        unversioned_applications_are_passed_over(apps, n - 1);
        picks::made_of_one_more(integrations::versioned_upto(apps, n - 1), n - 1, keep, give);
        assert(keep(n - 1) == (apps[n - 1].1.len() > 0));
        assert(give(n - 1) == apps[n - 1]);
    }
}

/// The updates of a package manager are those with its name, in order.
pub proof fn updates_go_to_their_runner(label: Seq<char>, all: Seq<ExternalUpdate>, n: int)
    requires
        0 <= n <= all.len(),
    ensures
        picks::made_of(
            integrations::updates_of(label, all, n),
            n,
            |i: int| all[i].runner@ == label,
            |i: int| all[i]@,
        ),
    decreases n,
{
    let keep = |i: int| all[i].runner@ == label;
    let give = |i: int| all[i]@;
    if n == 0 {
        picks::made_of_none(keep, give);
    } else {
        updates_go_to_their_runner(label, all, n - 1);
        picks::made_of_one_more(integrations::updates_of(label, all, n - 1), n - 1, keep, give);
        assert(keep(n - 1) == (all[n - 1].runner@ == label));
        assert(give(n - 1) == all[n - 1]@);
    }
}

/// Other package managers are run exactly where they have updates, in order.
pub proof fn managers_with_updates_are_run(ps: Seq<Provider>, ext: Seq<ExternalUpdate>, n: int)
    requires
        0 <= n <= ps.len(),
    ensures
        picks::made_of(
            upgrade::external_upto(ps, ext, n),
            n,
            |i: int| exists|k: int| 0 <= k < ext.len() && (#[trigger] ext[k]).runner@ == ps[i].label(),
            |i: int|
                ps[i].upgrade_text(
                    upgrade::view_ids(
                        integrations::updates_of(ps[i].label(), ext, ext.len() as int),
                    ),
                ),
        ),
    decreases n,
{
    let keep = |i: int|
        exists|k: int| 0 <= k < ext.len() && (#[trigger] ext[k]).runner@ == ps[i].label();
    let give = |i: int|
        ps[i].upgrade_text(
            upgrade::view_ids(integrations::updates_of(ps[i].label(), ext, ext.len() as int)),
        );
    if n == 0 {
        picks::made_of_none(keep, give);
    } else {
        managers_with_updates_are_run(ps, ext, n - 1);
        picks::made_of_one_more(upgrade::external_upto(ps, ext, n - 1), n - 1, keep, give);
        let label = ps[n - 1].label();
        let own = integrations::updates_of(label, ext, ext.len() as int);
        some_update(label, ext, ext.len() as int);
        assert(keep(n - 1) == exists|k: int|
            0 <= k < ext.len() && (#[trigger] ext[k]).runner@ == label);
        assert(give(n - 1) == ps[n - 1].upgrade_text(upgrade::view_ids(own)));
    }
}

proof fn some_update(label: Seq<char>, all: Seq<ExternalUpdate>, n: int)
    requires
        0 <= n <= all.len(),
    ensures
        integrations::updates_of(label, all, n).len() > 0 <==> exists|k: int|
            0 <= k < n && (#[trigger] all[k]).runner@ == label,
    decreases n,
{
    if n > 0 {
        some_update(label, all, n - 1);
        if all[n - 1].runner@ == label {
            assert(all[n - 1].runner@ == label);
        }
    }
}

// ---------------------------------------------------------------------------------------
// Repositories

/// The lines of an output are trimmed, and blank ones are passed over.
pub proof fn blank_lines_are_passed_over(ls: Seq<Seq<char>>, n: int)
    requires
        0 <= n <= ls.len(),
    ensures
        picks::made_of(
            db::nonblank_lines(ls, n),
            n,
            |i: int| text::trim(ls[i]).len() > 0,
            |i: int| text::trim(ls[i]),
        ),
    decreases n,
{
    let keep = |i: int| text::trim(ls[i]).len() > 0;
    let give = |i: int| text::trim(ls[i]);
    if n == 0 {
        picks::made_of_none(keep, give);
    } else {
        blank_lines_are_passed_over(ls, n - 1);
        picks::made_of_one_more(db::nonblank_lines(ls, n - 1), n - 1, keep, give);
        assert(keep(n - 1) == (text::trim(ls[n - 1]).len() > 0));
        assert(give(n - 1) == text::trim(ls[n - 1]));
    }
}

/// A database is warned of exactly where one of its files is empty or both are missing.
pub proof fn damaged_databases_are_warned_of(
    repos: Seq<Seq<char>>,
    dir: Seq<char>,
    files: Seq<DbFiles>,
    n: int,
)
    requires
        0 <= n <= repos.len(),
        files.len() == repos.len(),
    ensures
        picks::made_of(
            db::db_warnings(repos, dir, files, n),
            n,
            |i: int|
                (files[i].db_exists && files[i].db_empty) || (files[i].tar_exists && files[i].tar_empty)
                    || !(files[i].db_exists || files[i].tar_exists),
            |i: int| db::db_warning(repos[i], dir, files[i])->0,
        ),
    decreases n,
{
    let keep = |i: int|
        (files[i].db_exists && files[i].db_empty) || (files[i].tar_exists && files[i].tar_empty) || !(
        files[i].db_exists || files[i].tar_exists);
    let give = |i: int| db::db_warning(repos[i], dir, files[i])->0;
    if n == 0 {
        picks::made_of_none(keep, give);
    } else {
        damaged_databases_are_warned_of(repos, dir, files, n - 1);
        picks::made_of_one_more(db::db_warnings(repos, dir, files, n - 1), n - 1, keep, give);
        let f = files[n - 1];
        assert(keep(n - 1) == ((f.db_exists && f.db_empty) || (f.tar_exists && f.tar_empty) || !(
        f.db_exists || f.tar_exists)));
        assert(give(n - 1) == db::db_warning(repos[n - 1], dir, f)->0);
    }
}

proof fn added_keep_their_places(s: Seq<Seq<char>>, xs: Seq<Seq<char>>, n: int)
    requires
        0 <= n <= xs.len(),
    ensures
        db::add_all_new(s, xs, n).len() >= s.len(),
        db::add_all_new(s, xs, n).take(s.len() as int) == s,
    decreases n,
{
    if n > 0 {
        added_keep_their_places(s, xs, n - 1);
        let before = db::add_all_new(s, xs, n - 1);
        let after = db::add_all_new(s, xs, n);
        assert(after.take(s.len() as int) =~= before.take(s.len() as int));
    } else {
        assert(s.take(s.len() as int) =~= s);
    }
}

proof fn distinct_are_all_added(xs: Seq<Seq<char>>, n: int)
    requires
        0 <= n <= xs.len(),
        xs.no_duplicates(),
    ensures
        db::add_all_new(Seq::empty(), xs, n) == xs.take(n),
    decreases n,
{
    if n > 0 {
        distinct_are_all_added(xs, n - 1);
        let before = xs.take(n - 1);
        if before.contains(xs[n - 1]) {
            let k = choose|k: int| 0 <= k < before.len() && before[k] == xs[n - 1];
            assert(xs[k] == xs[n - 1]);
        }
        assert(before.push(xs[n - 1]) =~= xs.take(n));
    } else {
        assert(xs.take(0) =~= Seq::empty());
    }
}

/// The repositories that the configuration orders come first, in that order; without such an
/// order they stay as they were found.
pub proof fn configured_order_comes_first(found: Seq<Seq<char>>, order: Seq<Seq<char>>)
    requires
        order.no_duplicates(),
    ensures
        db::ordered_repos(found, order).len() >= order.len(),
        db::ordered_repos(found, order).take(order.len() as int) == order,
        order.len() == 0 ==> db::ordered_repos(found, order) == found,
{
    if order.len() == 0 {
        assert(found.take(0) =~= order);
    } else {
        distinct_are_all_added(order, order.len() as int);
        assert(order.take(order.len() as int) =~= order);
        added_keep_their_places(order, found, found.len() as int);
    }
}

// ---------------------------------------------------------------------------------------
// The lock

/// A flag that says how long to wait for the lock is found wherever it stands before another
/// one; without a number it means ten minutes.
pub proof fn waiting_time_is_read(flags: Seq<Seq<char>>, i: int, rest: Seq<Seq<char>>, n: nat)
    requires
        n <= u64::MAX,
        0 <= i <= flags.len(),
        forall|k: int|
            0 <= k < flags.len() ==> !text::begins(#[trigger] flags[k], "--wait"@),
    ensures
        pm::wait_from(flags + (seq!["--wait="@ + text::digits_of(n)] + rest), i) == Some(n as int),
        pm::wait_from(flags + (seq!["--wait"@, text::digits_of(n)] + rest), i) == Some(n as int),
        pm::wait_from(flags + seq!["--wait"@], i) == Some(600int),
        pm::wait_from(flags, i) is None,
    decreases flags.len() - i,
{
    reveal_strlit("--wait");
    reveal_strlit("--wait=");
    text::number_round_trip(n, u64::MAX as int);
    let a = flags + (seq!["--wait="@ + text::digits_of(n)] + rest);
    let b = flags + (seq!["--wait"@, text::digits_of(n)] + rest);
    let c = flags + seq!["--wait"@];
    if i < flags.len() {
        waiting_time_is_read(flags, i + 1, rest, n);
        let f = flags[i];
        assert(a[i] == f && b[i] == f && c[i] == f);
        assert(!text::begins(f, "--wait"@));
        if f == "--wait"@ {
            assert(f.take(6) =~= "--wait"@);
        }
        if text::begins(f, "--wait="@) {
            assert(f.take(6) =~= "--wait"@) by {
                assert forall|k: int| 0 <= k < 6 implies f[k] == "--wait"@[k] by {
                    assert(f.take(7)[k] == "--wait="@[k]);
                }
            }
        }
    } else {
        let w = "--wait="@ + text::digits_of(n);
        assert(a[i] == w);
        assert(w.take(7) =~= "--wait="@);
        assert(w.skip(7) =~= text::digits_of(n));
        assert(b[i] == "--wait"@ && b[i + 1] == text::digits_of(n));
        assert(c[i] == "--wait"@);
    }
}

/// The process that is told to hold the lock is the first other one that is a package
/// manager.
pub proof fn first_manager_is_found(ps: Seq<Process>, my_pid: i32, i: int)
    requires
        0 <= i,
    ensures
        match pm::manager_from(ps, my_pid, i) {
            Some(k) => i <= k < ps.len() && is_other_manager(ps[k], my_pid) && forall|j: int|
                i <= j < k ==> !is_other_manager(#[trigger] ps[j], my_pid),
            None => forall|j: int| i <= j < ps.len() ==> !is_other_manager(#[trigger] ps[j], my_pid),
        },
    decreases ps.len() - i,
{
    if i < ps.len() {
        first_manager_is_found(ps, my_pid, i + 1);
        managers_by_name(ps[i], my_pid);
    }
}

pub open spec fn is_other_manager(p: Process, my_pid: i32) -> bool {
    &&& text::number(p.entry@, i32::MAX as int) matches Some(n) && n != my_pid
    &&& p.comm matches Some(c) && seq![
        "pacman"@,
        "paru"@,
        "yay"@,
        "pamac-daemon"@,
        "packagekitd"@,
        "pamac"@,
        "pacpin"@,
        "pin"@,
    ].contains(text::trim(c@))
}

proof fn managers_by_name(p: Process, my_pid: i32)
    ensures
        pm::runs_manager(p, my_pid) == is_other_manager(p, my_pid),
{
    let all = seq![
        "pacman"@,
        "paru"@,
        "yay"@,
        "pamac-daemon"@,
        "packagekitd"@,
        "pamac"@,
        "pacpin"@,
        "pin"@,
    ];
    assert(all[0] == "pacman"@ && all[1] == "paru"@ && all[2] == "yay"@ && all[3] == "pamac-daemon"@
        && all[4] == "packagekitd"@ && all[5] == "pamac"@ && all[6] == "pacpin"@ && all[7] == "pin"@);
}

} // verus!
