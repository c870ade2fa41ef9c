//! Queries: what is pinned and pending, what the repositories hold, and which programs there
//! are.
use crate::config::Config;
use crate::db::{AlpmManager, SyncDb, SyncPackage, VersionOrder};
use crate::db;
use crate::order::sorted_by_name;
use crate::order;
use crate::orphans::OrphanPackage;
use crate::paths::join_path;
use crate::paths;
use crate::pins::{PinnedPackage, PinnedView, names_of_pinned, pinned_packages};
use crate::pins;
use crate::strmap::StrMap;
use crate::style::{Line, Page, Style, padded_end};
use crate::style;
use crate::text::{insert_ascending, list_contains, no_strings, number_text, push_str, split_string, starts_with, text3};
use crate::text;
use crate::transaction::make_counted_heading;
use crate::transaction;
use crate::ui::format_size;
use crate::ui;
use crate::views::sum_sizes;
use crate::views;
use vstd::prelude::*;
use vstd::string::*;

verus! {

// ---------------------------------------------------------------------------------------
// Check

pub open spec fn shielded_row(p: PinnedView) -> Seq<(Seq<char>, Style)> {
    style::row8(
        ("  • "@, Style::Plain),
        (style::pad_end(p.name, 28), Style::Cyan),
        (" ➔  ["@, Style::Plain),
        (p.repo, Style::Green),
        ("] "@, Style::Plain),
        (
            style::pad_end(
                match p.candidate {
                    Some(v) => v,
                    None => "pinned"@,
                },
                18,
            ),
            Style::Green,
        ),
        (" "@, Style::Plain),
        ("(Shielded)"@, Style::Dimmed),
    )
}

pub open spec fn shielded_rows(v: Seq<PinnedView>, order: Seq<int>, n: int) -> Seq<
    Seq<(Seq<char>, Style)>,
>
    decreases n,
{
    if n <= 0 {
        Seq::empty()
    } else {
        shielded_rows(v, order, n - 1).push(shielded_row(v[order[n - 1]]))
    }
}

/// What comes before the pending transaction: the pinned packages in the given order, and
/// whether packages stay with their repositories.
pub open spec fn check_page(c: Config, v: Seq<PinnedView>, order: Seq<int>) -> Seq<
    Seq<(Seq<char>, Style)>,
> {
    (if v.len() > 0 {
        transaction::counted_heading("Active Custom Pins ("@, v.len() as int, " packages):"@, Style::Bold)
            + shielded_rows(v, order, v.len() as int)
    } else {
        Seq::empty()
    }) + (if c.features.vendor_stickiness {
        style::page2(
            style::empty_row(),
            style::row1(
                (
                    "ℹ Vendor Stickiness: ACTIVE (packages stay bound to originating repository unless pinned)"@,
                    Style::Blue,
                ),
            ),
        )
    } else {
        Seq::empty()
    })
}

pub open spec fn checks_pins(
    c: Config,
    v: Seq<PinnedView>,
    page: Seq<Seq<(Seq<char>, Style)>>,
) -> bool {
    exists|order: Seq<int>| #[trigger]
        order::name_order(pins::pinned_names(v), order) && page == check_page(c, v, order)
}

fn make_shielded_row(p: &PinnedPackage) -> (r: Line)
    ensures
        r@ == shielded_row(p@),
{
    let name = padded_end(&p.name, 28);
    let version: &str = match &p.candidate {
        Some(v) => v.as_str(),
        None => "pinned",
    };
    let wide = padded_end(version, 18);
    Line::new().with("  • ", Style::Plain).with(&name, Style::Cyan).with(
        " ➔  [",
        Style::Plain,
    ).with(&p.repo, Style::Green).with("] ", Style::Plain).with(&wide, Style::Green).with(
        " ",
        Style::Plain,
    ).with("(Shielded)", Style::Dimmed)
}

/// Shows the installed packages that pins apply to, by name, and whether packages stay with
/// their repositories.
pub fn cmd_check(config: &Config, m: &AlpmManager, dbs: &StrMap<String>) -> (r: Page)
    ensures
        checks_pins(*config, pins::pinned_upto(*m, *config, dbs@, m.local@.len() as int), r@),
{
    let matches = pinned_packages(m, config, dbs);
    let names = names_of_pinned(&matches);
    let order = sorted_by_name(&names);
    let ghost v = pins::pinned_views(matches@);
    let ghost o = order::places(order@);
    let n: usize = matches.len();
    assert(v.len() == n);
    assert(pins::pinned_names(v).len() == n);
    assert(o.len() == order@.len());
    let list = if n > 0 {
        let head = make_counted_heading("Active Custom Pins (", n, " packages):", Style::Bold);
        let mut rows = Page::new();
        let mut i: usize = 0;
        while i < n
            invariant
                i <= n,
                n == matches@.len(),
                n == order@.len(),
                v == pins::pinned_views(matches@),
                v.len() == n,
                pins::pinned_names(v).len() == n,
                o == order::places(order@),
                order::name_order(pins::pinned_names(v), o),
                rows@ == shielded_rows(v, o, i as int),
            decreases n - i,
        {
            assert(0 <= o[i as int] < n);
            let k: usize = order[i];
            assert(o[i as int] == k);
            assert(v[k as int] == matches@[k as int]@);
            rows = rows.with(make_shielded_row(&matches[k]));
            i += 1;
        }
        head.and(rows)
    } else {
        Page::new()
    };
    let sticky = if config.features.vendor_stickiness {
        Page::new().gap().line(
            "ℹ Vendor Stickiness: ACTIVE (packages stay bound to originating repository unless pinned)",
            Style::Blue,
        )
    } else {
        Page::new()
    };
    let page = list.and(sticky);
    proof {
        assert(order::name_order(pins::pinned_names(v), o));
        assert(page@ == check_page(*config, v, o));
    }
    page
}

/// The note on orphans behind a check, where there are any.
pub fn orphans_note(orphans: &Vec<OrphanPackage>) -> (r: Page)
    requires
        views::orphan_sizes_fit(orphans@, None),
    ensures
        r@ == if orphans@.len() == 0 {
            Seq::empty()
        } else {
            style::page2(
                style::empty_row(),
                style::row3(
                    (
                        "🧹 "@ + text::digits_of(orphans@.len()) + " orphaned package(s) detected ("@
                            + ui::size_text(views::orphan_size(orphans@, None, orphans@.len() as int)) + ")"@,
                        Style::BoldYellow,
                    ),
                    (" "@, Style::Plain),
                    (
                        "— run 'pacpin orphans -c' to remove unneeded dependencies"@,
                        Style::Dimmed,
                    ),
                ),
            )
        },
{
    if orphans.len() == 0 {
        return Page::new();
    }
    let (total, _count) = sum_sizes(orphans, None);
    let n = number_text(orphans.len() as u64);
    let s = format_size(total);
    let a = text3("🧹 ", &n, " orphaned package(s) detected (");
    let t = text3(&a, &s, ")");
    Page::new().gap().with(
        Line::new().with(&t, Style::BoldYellow).with(" ", Style::Plain).with(
            "— run 'pacpin orphans -c' to remove unneeded dependencies",
            Style::Dimmed,
        ),
    )
}

// ---------------------------------------------------------------------------------------
// The contents of repositories

/// The line of a package in a listing: whether it is installed, and in which version where
/// that is another one.
pub open spec fn listing_line(m: AlpmManager, db: Seq<char>, p: SyncPackage) -> Seq<char> {
    db + " "@ + p.name@ + " "@ + p.version@ + (match db::local_from(m.local@, p.name@, 0) {
        Some(i) => if p.versus_installed == VersionOrder::Same {
            " [installed]"@
        } else {
            " [installed: "@ + m.local@[i].version@ + "]"@
        },
        None => Seq::empty(),
    })
}

pub open spec fn db_listing(m: AlpmManager, db: SyncDb, n: int) -> Seq<Seq<char>>
    decreases n,
{
    if n <= 0 {
        Seq::empty()
    } else {
        db_listing(m, db, n - 1).push(listing_line(m, db.name@, db.pkgs@[n - 1]))
    }
}

/// The packages of those of the first `n` repositories that are asked for; of all, where none
/// is named.
pub open spec fn sync_listing(m: AlpmManager, repos: Seq<Seq<char>>, n: int) -> Seq<Seq<char>>
    decreases n,
{
    if n <= 0 {
        Seq::empty()
    } else {
        let db = m.sync@[n - 1];
        let before = sync_listing(m, repos, n - 1);
        if repos.len() == 0 || repos.contains(db.name@) {
            before + db_listing(m, db, db.pkgs@.len() as int)
        } else {
            before
        }
    }
}

/// The first of the repositories, from the `i`-th on, that does not exist.
pub open spec fn missing_repo(m: AlpmManager, repos: Seq<Seq<char>>, i: int) -> Option<int>
    decreases repos.len() - i,
{
    if i < 0 || i >= repos.len() {
        None
    } else if db::db_from(m.sync@, repos[i], 0) is None {
        Some(i)
    } else {
        missing_repo(m, repos, i + 1)
    }
}

fn make_listing_line(m: &AlpmManager, db: &str, p: &SyncPackage) -> (r: String)
    ensures
        r@ == listing_line(*m, db@, *p),
{
    let mut out = text3(db, " ", &p.name);
    out.append(" ");
    out.append(&p.version);
    match m.local_index(&p.name) {
        Some(i) => {
            if p.versus_installed == VersionOrder::Same {
                out.append(" [installed]");
            } else {
                out.append(" [installed: ");
                out.append(&m.local[i].version);
                out.append("]");
            }
        },
        None => {},
    }
    assert(out@ =~= listing_line(*m, db@, *p));
    out
}

/// The packages of repositories, one on each line; an error where one does not exist.
pub fn cmd_sync_list(m: &AlpmManager, repos: &Vec<String>) -> (r: Result<Vec<String>, String>)
    ensures
        match missing_repo(*m, text::texts(repos@), 0) {
            Some(k) => r is Err && r->Err_0@ == "error: repository '"@ + repos@[k]@
                + "' was not found"@,
            None => r is Ok && text::texts(r->Ok_0@) == sync_listing(
                *m,
                text::texts(repos@),
                m.sync@.len() as int,
            ),
        },
{
    let ghost all = text::texts(repos@);
    assert(all.len() == repos@.len());
    let mut k: usize = 0;
    while k < repos.len()
        invariant
            k <= repos@.len(),
            all == text::texts(repos@),
            all.len() == repos@.len(),
            missing_repo(*m, all, 0) == missing_repo(*m, all, k as int),
        decreases repos@.len() - k,
    {
        assert(all[k as int] == repos@[k as int]@);
        if m.find_db(&repos[k]).is_none() {
            return Err(text3("error: repository '", &repos[k], "' was not found"));
        }
        k += 1;
    }
    let mut out = no_strings();
    let mut d: usize = 0;
    while d < m.sync.len()
        invariant
            d <= m.sync@.len(),
            all == text::texts(repos@),
            all.len() == repos@.len(),
            text::texts(out@) == sync_listing(*m, all, d as int),
        decreases m.sync@.len() - d,
    {
        let db = &m.sync[d];
        if repos.len() == 0 || list_contains(repos, &db.name) {
            let ghost before = text::texts(out@);
            let mut i: usize = 0;
            assert(before + Seq::<Seq<char>>::empty() =~= before);
            while i < db.pkgs.len()
                invariant
                    i <= db.pkgs@.len(),
                    text::texts(out@) == before + db_listing(*m, *db, i as int),
                decreases db.pkgs@.len() - i,
            {
                let ghost so_far = text::texts(out@);
                let line = make_listing_line(m, &db.name, &db.pkgs[i]);
                push_str(&mut out, &line);
                proof {
                    let some = db_listing(*m, *db, i as int);
                    assert(text::texts(out@) =~= so_far.push(line@));
                    assert((before + some).push(line@) =~= before + some.push(line@));
                }
                i += 1;
            }
        }
        d += 1;
    }
    Ok(out)
}

/// Some package belongs to the group.
pub open spec fn group_exists(m: AlpmManager, group: Seq<char>) -> bool {
    exists|d: int, i: int|
        0 <= d < m.sync@.len() && 0 <= i < m.sync@[d].pkgs@.len() && text::texts(
            (#[trigger] m.sync@[d].pkgs@[i]).groups@,
        ).contains(group)
}

/// The members, among the first `n` groups of a package, of the groups that are asked for.
pub open spec fn member_lines(p: SyncPackage, groups: Seq<Seq<char>>, n: int) -> Seq<Seq<char>>
    decreases n,
{
    if n <= 0 {
        Seq::empty()
    } else {
        let g = p.groups@[n - 1]@;
        if groups.contains(g) {
            member_lines(p, groups, n - 1).push(g + " "@ + p.name@)
        } else {
            member_lines(p, groups, n - 1)
        }
    }
}

pub open spec fn db_members(db: SyncDb, groups: Seq<Seq<char>>, n: int) -> Seq<Seq<char>>
    decreases n,
{
    if n <= 0 {
        Seq::empty()
    } else {
        let p = db.pkgs@[n - 1];
        db_members(db, groups, n - 1) + member_lines(p, groups, p.groups@.len() as int)
    }
}

pub open spec fn all_members(m: AlpmManager, groups: Seq<Seq<char>>, n: int) -> Seq<Seq<char>>
    decreases n,
{
    if n <= 0 {
        Seq::empty()
    } else {
        let db = m.sync@[n - 1];
        all_members(m, groups, n - 1) + db_members(db, groups, db.pkgs@.len() as int)
    }
}

/// Some package, of those before the given place, belongs to the group.
spec fn group_before(m: AlpmManager, group: Seq<char>, d: int, i: int, g: int) -> bool {
    exists|x: int, y: int, z: int|
        {
            &&& 0 <= x < m.sync@.len()
            &&& 0 <= y < m.sync@[x].pkgs@.len()
            &&& 0 <= z < m.sync@[x].pkgs@[y].groups@.len()
            &&& x < d || (x == d && y < i) || (x == d && y == i && z < g)
            &&& (#[trigger] m.sync@[x].pkgs@[y].groups@[z])@ == group
        }
}

proof fn group_step(m: AlpmManager, t: Seq<char>, d: int, i: int, g: int)
    requires
        0 <= d < m.sync@.len(),
        0 <= i < m.sync@[d].pkgs@.len(),
        0 <= g < m.sync@[d].pkgs@[i].groups@.len(),
    ensures
        group_before(m, t, d, i, g + 1) <==> (group_before(m, t, d, i, g)
            || m.sync@[d].pkgs@[i].groups@[g]@ == t),
{
    if group_before(m, t, d, i, g + 1) {
        let (x, y, z) = choose|x: int, y: int, z: int|
            {
                &&& 0 <= x < m.sync@.len()
                &&& 0 <= y < m.sync@[x].pkgs@.len()
                &&& 0 <= z < m.sync@[x].pkgs@[y].groups@.len()
                &&& x < d || (x == d && y < i) || (x == d && y == i && z < g + 1)
                &&& (#[trigger] m.sync@[x].pkgs@[y].groups@[z])@ == t
            };
        assert(m.sync@[x].pkgs@[y].groups@[z]@ == t);
        if !(x == d && y == i && z == g) {
            assert(group_before(m, t, d, i, g));
        }
    }
    if group_before(m, t, d, i, g) {
        let (x, y, z) = choose|x: int, y: int, z: int|
            {
                &&& 0 <= x < m.sync@.len()
                &&& 0 <= y < m.sync@[x].pkgs@.len()
                &&& 0 <= z < m.sync@[x].pkgs@[y].groups@.len()
                &&& x < d || (x == d && y < i) || (x == d && y == i && z < g)
                &&& (#[trigger] m.sync@[x].pkgs@[y].groups@[z])@ == t
            };
        assert(m.sync@[x].pkgs@[y].groups@[z]@ == t);
    }
    if m.sync@[d].pkgs@[i].groups@[g]@ == t {
        assert(m.sync@[d].pkgs@[i].groups@[g]@ == t);
    }
}

proof fn group_move(m: AlpmManager, t: Seq<char>, d: int, i: int, g: int, e: int, j: int)
    requires
        0 <= d < m.sync@.len(),
        (e == d && j == i + 1 && 0 <= i < m.sync@[d].pkgs@.len() && g
            == m.sync@[d].pkgs@[i].groups@.len()) || (e == d + 1 && j == 0 && g == 0 && i
            == m.sync@[d].pkgs@.len()),
    ensures
        group_before(m, t, e, j, 0) <==> group_before(m, t, d, i, g),
{
    if group_before(m, t, e, j, 0) {
        let (x, y, z) = choose|x: int, y: int, z: int|
            {
                &&& 0 <= x < m.sync@.len()
                &&& 0 <= y < m.sync@[x].pkgs@.len()
                &&& 0 <= z < m.sync@[x].pkgs@[y].groups@.len()
                &&& x < e || (x == e && y < j) || (x == e && y == j && z < 0)
                &&& (#[trigger] m.sync@[x].pkgs@[y].groups@[z])@ == t
            };
        assert(m.sync@[x].pkgs@[y].groups@[z]@ == t);
    }
    if group_before(m, t, d, i, g) {
        let (x, y, z) = choose|x: int, y: int, z: int|
            {
                &&& 0 <= x < m.sync@.len()
                &&& 0 <= y < m.sync@[x].pkgs@.len()
                &&& 0 <= z < m.sync@[x].pkgs@[y].groups@.len()
                &&& x < d || (x == d && y < i) || (x == d && y == i && z < g)
                &&& (#[trigger] m.sync@[x].pkgs@[y].groups@[z])@ == t
            };
        assert(m.sync@[x].pkgs@[y].groups@[z]@ == t);
    }
}

proof fn group_all(m: AlpmManager, t: Seq<char>)
    ensures
        group_before(m, t, m.sync@.len() as int, 0, 0) <==> group_exists(m, t),
{
    let n = m.sync@.len() as int;
    if group_before(m, t, n, 0, 0) {
        let (x, y, z) = choose|x: int, y: int, z: int|
            {
                &&& 0 <= x < m.sync@.len()
                &&& 0 <= y < m.sync@[x].pkgs@.len()
                &&& 0 <= z < m.sync@[x].pkgs@[y].groups@.len()
                &&& x < n || (x == n && y < 0) || (x == n && y == 0 && z < 0)
                &&& (#[trigger] m.sync@[x].pkgs@[y].groups@[z])@ == t
            };
        let p = m.sync@[x].pkgs@[y];
        assert(text::texts(p.groups@)[z] == t);
    }
    if group_exists(m, t) {
        let (x, y) = choose|d: int, i: int|
            0 <= d < m.sync@.len() && 0 <= i < m.sync@[d].pkgs@.len() && text::texts(
                (#[trigger] m.sync@[d].pkgs@[i]).groups@,
            ).contains(t);
        let p = m.sync@[x].pkgs@[y];
        let z = choose|z: int| 0 <= z < text::texts(p.groups@).len() && text::texts(p.groups@)[z] == t;
        assert(m.sync@[x].pkgs@[y].groups@[z]@ == t);
    }
}

/// All groups, in order.
pub fn all_groups(m: &AlpmManager) -> (r: Vec<String>)
    ensures
        text::ascending(text::texts(r@)),
        forall|t: Seq<char>| #[trigger] text::texts(r@).contains(t) <==> group_exists(*m, t),
{
    let mut out = no_strings();
    let mut d: usize = 0;
    while d < m.sync.len()
        invariant
            d <= m.sync@.len(),
            text::ascending(text::texts(out@)),
            forall|t: Seq<char>| #[trigger]
                text::texts(out@).contains(t) <==> group_before(*m, t, d as int, 0, 0),
        decreases m.sync@.len() - d,
    {
        let mut i: usize = 0;
        while i < m.sync[d].pkgs.len()
            invariant
                d < m.sync@.len(),
                i <= m.sync@[d as int].pkgs@.len(),
                text::ascending(text::texts(out@)),
                forall|t: Seq<char>| #[trigger]
                    text::texts(out@).contains(t) <==> group_before(*m, t, d as int, i as int, 0),
            decreases m.sync@[d as int].pkgs@.len() - i,
        {
            let groups = &m.sync[d].pkgs[i].groups;
            let mut g: usize = 0;
            while g < groups.len()
                invariant
                    d < m.sync@.len(),
                    i < m.sync@[d as int].pkgs@.len(),
                    *groups == m.sync@[d as int].pkgs@[i as int].groups,
                    g <= groups@.len(),
                    text::ascending(text::texts(out@)),
                    forall|t: Seq<char>| #[trigger]
                        text::texts(out@).contains(t) <==> group_before(
                            *m,
                            t,
                            d as int,
                            i as int,
                            g as int,
                        ),
                decreases groups@.len() - g,
            {
                let ghost before = text::texts(out@);
                insert_ascending(&mut out, groups[g].clone());
                proof {
                    assert forall|t: Seq<char>| #[trigger] text::texts(out@).contains(t)
                        <==> group_before(*m, t, d as int, i as int, g + 1) by {
                        group_step(*m, t, d as int, i as int, g as int);
                        assert(before.contains(t) <==> group_before(
                            *m,
                            t,
                            d as int,
                            i as int,
                            g as int,
                        ));
                    }
                }
                g += 1;
            }
            proof {
                assert forall|t: Seq<char>| #[trigger] text::texts(out@).contains(t) <==> group_before(
                    *m,
                    t,
                    d as int,
                    i + 1,
                    0,
                ) by {
                    group_move(*m, t, d as int, i as int, g as int, d as int, i + 1);
                }
            }
            i += 1;
        }
        proof {
            assert forall|t: Seq<char>| #[trigger] text::texts(out@).contains(t) <==> group_before(
                *m,
                t,
                d + 1,
                0,
                0,
            ) by {
                group_move(*m, t, d as int, i as int, 0, d + 1, 0);
            }
        }
        d += 1;
    }
    proof {
        assert forall|t: Seq<char>| #[trigger] text::texts(out@).contains(t) <==> group_exists(*m, t) by {
            group_all(*m, t);
        }
    }
    out
}

fn push_members(out: &mut Vec<String>, p: &SyncPackage, groups: &Vec<String>)
    ensures
        text::texts(final(out)@) == text::texts(old(out)@) + member_lines(
            *p,
            text::texts(groups@),
            p.groups@.len() as int,
        ),
{
    let ghost first = text::texts(out@);
    let mut i: usize = 0;
    assert(first + Seq::<Seq<char>>::empty() =~= first);
    while i < p.groups.len()
        invariant
            i <= p.groups@.len(),
            text::texts(out@) == first + member_lines(*p, text::texts(groups@), i as int),
        decreases p.groups@.len() - i,
    {
        if list_contains(groups, &p.groups[i]) {
            let ghost before = text::texts(out@);
            let line = text3(&p.groups[i], " ", &p.name);
            push_str(out, &line);
            proof {
                let some = member_lines(*p, text::texts(groups@), i as int);
                assert(text::texts(out@) =~= before.push(line@));
                assert((first + some).push(line@) =~= first + some.push(line@));
            }
        }
        i += 1;
    }
}

/// All groups, in order; or the members of the groups that are named, in the order of the
/// repositories.
pub fn cmd_sync_groups(m: &AlpmManager, groups: &Vec<String>) -> (r: Vec<String>)
    ensures
        if groups@.len() == 0 {
            text::ascending(text::texts(r@)) && forall|t: Seq<char>| #[trigger]
                text::texts(r@).contains(t) <==> group_exists(*m, t)
        } else {
            text::texts(r@) == all_members(*m, text::texts(groups@), m.sync@.len() as int)
        },
{
    if groups.len() == 0 {
        return all_groups(m);
    }
    let ghost gs = text::texts(groups@);
    let mut out = no_strings();
    let mut d: usize = 0;
    while d < m.sync.len()
        invariant
            d <= m.sync@.len(),
            gs == text::texts(groups@),
            text::texts(out@) == all_members(*m, gs, d as int),
        decreases m.sync@.len() - d,
    {
        let db = &m.sync[d];
        let ghost before = text::texts(out@);
        let mut i: usize = 0;
        assert(before + Seq::<Seq<char>>::empty() =~= before);
        while i < db.pkgs.len()
            invariant
                i <= db.pkgs@.len(),
                gs == text::texts(groups@),
                text::texts(out@) == before + db_members(*db, gs, i as int),
            decreases db.pkgs@.len() - i,
        {
            push_members(&mut out, &db.pkgs[i], groups);
            proof {
                let some = db_members(*db, gs, i as int);
                let p = db.pkgs@[i as int];
                let more = member_lines(p, gs, p.groups@.len() as int);
                assert(before + some + more =~= before + (some + more));
            }
            i += 1;
        }
        d += 1;
    }
    out
}

// ---------------------------------------------------------------------------------------
// Programs

/// The paths at which a program is looked for: an absolute one as it is, any other below the
/// directories of the search path.
pub open spec fn program_paths(cmd: Seq<char>, dirs: Seq<Seq<char>>) -> Seq<Seq<char>> {
    if text::begins(cmd, "/"@) {
        Seq::empty().push(cmd)
    } else {
        Seq::new(dirs.len(), |i: int| paths::joined(dirs[i], cmd))
    }
}

/// The paths at which a program is looked for, given the search path, if there is one.
pub fn command_paths(cmd: &str, path: Option<&str>) -> (r: Vec<String>)
    ensures
        text::texts(r@) == program_paths(
            cmd@,
            match path {
                Some(p) => text::split_on(p@, ':'),
                None => Seq::empty(),
            },
        ),
{
    let mut out = no_strings();
    if starts_with(cmd, "/") {
        push_str(&mut out, cmd);
        assert(text::texts(out@) =~= Seq::empty().push(cmd@));
        return out;
    }
    let dirs = match path {
        Some(p) => split_string(p, ':'),
        None => no_strings(),
    };
    let ghost all = text::texts(dirs@);
    let ghost goal = program_paths(cmd@, all);
    let mut i: usize = 0;
    assert(text::texts(out@) =~= goal.take(0));
    while i < dirs.len()
        invariant
            i <= dirs@.len(),
            all == text::texts(dirs@),
            all.len() == dirs@.len(),
            !text::begins(cmd@, "/"@),
            goal == program_paths(cmd@, all),
            text::texts(out@) == goal.take(i as int),
        decreases dirs@.len() - i,
    {
        let ghost before = text::texts(out@);
        assert(all[i as int] == dirs@[i as int]@);
        let p = join_path(&dirs[i], cmd);
        push_str(&mut out, &p);
        assert(text::texts(out@) =~= before.push(goal[i as int]));
        i += 1;
        assert(text::texts(out@) =~= goal.take(i as int));
    }
    assert(goal.take(i as int) =~= goal);
    out
}

/// Whether a program is there: one of its paths is an executable file.
pub fn is_command_available(executable: &Vec<bool>) -> (r: bool)
    ensures
        r == executable@.contains(true),
{
    let mut i: usize = 0;
    while i < executable.len()
        invariant
            i <= executable@.len(),
            forall|j: int| 0 <= j < i ==> !(#[trigger] executable@[j]),
        decreases executable@.len() - i,
    {
        if executable[i] {
            assert(executable@[i as int] == true);
            return true;
        }
        i += 1;
    }
    false
}

} // verus!
