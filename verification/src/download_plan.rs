//! Which archives to download so that a package can run: the package and those of its
//! dependencies that are not installed, each behind its own dependencies.
use crate::db::{AlpmManager, SyncDb, SyncPackage};
use crate::db;
use crate::strmap::StrMap;
use crate::strmap;
use crate::text::{clone_opt_string, list_contains, str_eq, strip_end_char};
use crate::text;
use vstd::prelude::*;
use vstd::string::*;

verus! {

/// An archive to download.
#[derive(Debug, Clone)]
pub struct DownloadTarget {
    pub name: String,
    pub url: String,
    pub candidate_urls: Vec<String>,
    pub sha256: Option<String>,
}

#[verifier::ext_equal]
pub struct TargetView {
    pub name: Seq<char>,
    pub url: Seq<char>,
    pub candidate_urls: Seq<Seq<char>>,
    pub sha256: Option<Seq<char>>,
}

impl View for DownloadTarget {
    type V = TargetView;

    open spec fn view(&self) -> TargetView {
        TargetView {
            name: self.name@,
            url: self.url@,
            candidate_urls: text::texts(self.candidate_urls@),
            sha256: text::opt_text(self.sha256),
        }
    }
}

pub open spec fn targets(v: Seq<DownloadTarget>) -> Seq<TargetView> {
    Seq::new(v.len(), |i: int| v[i]@)
}

/// What the package manager's own dependency resolution answers for one dependency: whether
/// an installed package satisfies it, and for each database the position of the package in
/// it that does.
#[derive(Debug, Clone)]
pub struct DepAnswer {
    pub installed: bool,
    pub offers: Vec<Option<usize>>,
}

/// The answers that are known so far: for dependencies, and for the servers of repositories.
#[derive(Debug, Clone)]
pub struct Known {
    pub deps: StrMap<DepAnswer>,
    pub servers: StrMap<Vec<String>>,
}

/// How far the known answers lead.
pub enum Plan {
    Ready(Vec<DownloadTarget>),
    Failed(String),
    /// It has to be known what satisfies this dependency.
    NeedDep(String),
    /// The servers of this repository have to be known.
    NeedServers(String),
}

pub enum PlanView {
    Ready(Seq<TargetView>),
    Failed(Seq<char>),
    NeedDep(Seq<char>),
    NeedServers(Seq<char>),
}

impl View for Plan {
    type V = PlanView;

    open spec fn view(&self) -> PlanView {
        match *self {
            Plan::Ready(v) => PlanView::Ready(targets(v@)),
            Plan::Failed(e) => PlanView::Failed(e@),
            Plan::NeedDep(d) => PlanView::NeedDep(d@),
            Plan::NeedServers(r) => PlanView::NeedServers(r@),
        }
    }
}

// ---------------------------------------------------------------------------------------
// Finding packages

/// The package of database `d` that an answer names.
pub open spec fn offer_in(m: AlpmManager, a: DepAnswer, d: int) -> Option<int> {
    if 0 <= d < a.offers@.len() && d < m.sync@.len() {
        match a.offers@[d] {
            Some(i) => if i < m.sync@[d].pkgs@.len() {
                Some(i as int)
            } else {
                None
            },
            None => None,
        }
    } else {
        None
    }
}

/// The first repository from `r` on, in order of priority, that an answer has an offer for:
/// its database and the package in it.
pub open spec fn first_offer(m: AlpmManager, a: DepAnswer, r: int) -> Option<(int, int)>
    decreases m.repos@.len() - r,
{
    if r < 0 || r >= m.repos@.len() {
        None
    } else {
        match db::db_from(m.sync@, m.repos@[r]@, 0) {
            Some(d) => match offer_in(m, a, d) {
                Some(i) => Some((d, i)),
                None => first_offer(m, a, r + 1),
            },
            None => first_offer(m, a, r + 1),
        }
    }
}

/// A step of the search for the package that was asked for.
pub enum Found {
    At(int, int),
    Ask,
    Nowhere,
}

/// The package `name` in the database `d`: under its own name, else what satisfies it.
pub open spec fn find_in_db(m: AlpmManager, k: Known, d: int, name: Seq<char>) -> Found {
    match db::pkg_from(m.sync@[d].pkgs@, name, 0) {
        Some(i) => Found::At(d, i),
        None => match strmap::lookup(k.deps@, name) {
            Some(a) => match offer_in(m, a, d) {
                Some(i) => Found::At(d, i),
                None => Found::Nowhere,
            },
            None => Found::Ask,
        },
    }
}

/// The package `name` in the repositories from `r` on.
pub open spec fn find_from(m: AlpmManager, k: Known, r: int, name: Seq<char>) -> Found
    decreases m.repos@.len() - r,
{
    if r < 0 || r >= m.repos@.len() {
        Found::Nowhere
    } else {
        match db::db_from(m.sync@, m.repos@[r]@, 0) {
            Some(d) => match find_in_db(m, k, d, name) {
                Found::Nowhere => find_from(m, k, r + 1, name),
                other => other,
            },
            None => find_from(m, k, r + 1, name),
        }
    }
}

// ---------------------------------------------------------------------------------------
// Addresses

/// The address of an archive on a server.
pub open spec fn archive_url(server: Seq<char>, filename: Seq<char>) -> Seq<char> {
    text::strip_end(server, '/') + "/"@ + filename
}

pub open spec fn archive_urls(servers: Seq<String>, filename: Seq<char>) -> Seq<Seq<char>> {
    Seq::new(servers.len(), |i: int| archive_url(servers[i]@, filename))
}

/// The target for a package, or what is missing for it.
pub open spec fn target_of(k: Known, repo: Seq<char>, p: SyncPackage) -> Result<TargetView, PlanView> {
    match p.filename {
        None => Err(PlanView::Failed("No filename found for package '"@ + p.name@ + "'"@)),
        Some(f) => match strmap::lookup(k.servers@, repo) {
            None => Err(PlanView::NeedServers(repo)),
            Some(servers) => if servers@.len() == 0 {
                Err(
                    PlanView::Failed(
                        "No mirror server configured for repository '"@ + repo + "'"@,
                    ),
                )
            } else {
                Ok(
                    TargetView {
                        name: p.name@,
                        url: archive_url(servers@[0]@, f@),
                        candidate_urls: archive_urls(servers@, f@),
                        sha256: text::opt_text(p.sha256),
                    },
                )
            },
        },
    }
}

// ---------------------------------------------------------------------------------------
// The walk through the dependencies

/// A package under way: its database, its position there, and how many of its dependencies
/// have been looked at.
#[verifier::ext_equal]
pub struct FrameView {
    pub d: int,
    pub i: int,
    pub k: int,
}

/// The state of the walk.
#[verifier::ext_equal]
pub struct WalkView {
    pub stack: Seq<FrameView>,
    pub seen_deps: Seq<Seq<char>>,
    pub seen_pkgs: Seq<Seq<char>>,
    pub out: Seq<TargetView>,
}

pub open spec fn in_range(m: AlpmManager, d: int, i: int) -> bool {
    0 <= d < m.sync@.len() && 0 <= i < m.sync@[d].pkgs@.len()
}

pub open spec fn frame_pkg(m: AlpmManager, f: FrameView) -> SyncPackage {
    m.sync@[f.d].pkgs@[f.i]
}

pub open spec fn walk_ok(m: AlpmManager, w: WalkView) -> bool {
    forall|x: int|
        0 <= x < w.stack.len() ==> {
            let f = #[trigger] w.stack[x];
            in_range(m, f.d, f.i) && 0 <= f.k <= frame_pkg(m, f).depends@.len()
        }
}

/// One step of the walk: the next dependency of the topmost package is looked at, and where
/// it has to be downloaded it comes on top; a package all of whose dependencies have been
/// looked at is done and becomes a target.
pub open spec fn walk_step(m: AlpmManager, k: Known, w: WalkView) -> Result<WalkView, PlanView> {
    let f = w.stack.last();
    let p = frame_pkg(m, f);
    let on = WalkView {
        stack: w.stack.drop_last().push(FrameView { k: f.k + 1, ..f }),
        ..w
    };
    if f.k >= p.depends@.len() {
        match target_of(k, m.sync@[f.d].name@, p) {
            Ok(t) => Ok(WalkView { stack: w.stack.drop_last(), out: w.out.push(t), ..w }),
            Err(e) => Err(e),
        }
    } else {
        let dep = p.depends@[f.k]@;
        if w.seen_deps.contains(dep) {
            Ok(on)
        } else {
            match strmap::lookup(k.deps@, dep) {
                None => Err(PlanView::NeedDep(dep)),
                Some(a) => {
                    let seen = WalkView { seen_deps: w.seen_deps.push(dep), ..on };
                    if a.installed {
                        Ok(seen)
                    } else {
                        match first_offer(m, a, 0) {
                            None => Ok(seen),
                            Some((d, i)) => {
                                let name = m.sync@[d].pkgs@[i].name@;
                                if w.seen_pkgs.contains(name) {
                                    Ok(seen)
                                } else {
                                    Ok(
                                        WalkView {
                                            stack: seen.stack.push(FrameView { d, i, k: 0 }),
                                            seen_pkgs: w.seen_pkgs.push(name),
                                            ..seen
                                        },
                                    )
                                }
                            },
                        }
                    }
                },
            }
        }
    }
}

/// The number of packages among the first `n` whose names have not been seen.
pub open spec fn unseen_in(pkgs: Seq<SyncPackage>, seen: Seq<Seq<char>>, n: int) -> nat
    decreases n,
{
    if n <= 0 {
        0
    } else {
        unseen_in(pkgs, seen, n - 1) + if seen.contains(pkgs[n - 1].name@) {
            0nat
        } else {
            1nat
        }
    }
}

pub open spec fn unseen(sync: Seq<SyncDb>, seen: Seq<Seq<char>>, n: int) -> nat
    decreases n,
{
    if n <= 0 {
        0
    } else {
        unseen(sync, seen, n - 1) + unseen_in(
            sync[n - 1].pkgs@,
            seen,
            sync[n - 1].pkgs@.len() as int,
        )
    }
}

/// The steps that the packages under way still take of themselves.
pub open spec fn left_in(m: AlpmManager, stack: Seq<FrameView>) -> nat
    decreases stack.len(),
{
    if stack.len() == 0 {
        0
    } else {
        let f = stack.last();
        let rest = frame_pkg(m, f).depends@.len() - f.k;
        left_in(m, stack.drop_last()) + 1 + if rest > 0 {
            rest as nat
        } else {
            0nat
        }
    }
}

proof fn seeing_lowers_in(pkgs: Seq<SyncPackage>, seen: Seq<Seq<char>>, x: Seq<char>, n: int, i: int)
    requires
        0 <= n <= pkgs.len(),
    ensures
        unseen_in(pkgs, seen.push(x), n) <= unseen_in(pkgs, seen, n),
        0 <= i < n && pkgs[i].name@ == x && !seen.contains(x) ==> unseen_in(pkgs, seen.push(x), n)
            < unseen_in(pkgs, seen, n),
    decreases n,
{
    if n > 0 {
        seeing_lowers_in(pkgs, seen, x, n - 1, i);
        let name = pkgs[n - 1].name@;
        if seen.contains(name) {
            let k = choose|k: int| 0 <= k < seen.len() && seen[k] == name;
            assert(seen.push(x)[k] == name);
        }
        if name == x {
            assert(seen.push(x)[seen.len() as int] == name);
        }
    }
}

proof fn seeing_lowers(sync: Seq<SyncDb>, seen: Seq<Seq<char>>, x: Seq<char>, n: int, d: int, i: int)
    requires
        0 <= n <= sync.len(),
    ensures
        unseen(sync, seen.push(x), n) <= unseen(sync, seen, n),
        0 <= d < n && 0 <= i < sync[d].pkgs@.len() && sync[d].pkgs@[i].name@ == x
            && !seen.contains(x) ==> unseen(sync, seen.push(x), n) < unseen(sync, seen, n),
    decreases n,
{
    if n > 0 {
        seeing_lowers(sync, seen, x, n - 1, d, i);
        seeing_lowers_in(sync[n - 1].pkgs@, seen, x, sync[n - 1].pkgs@.len() as int, i);
    }
}

proof fn first_offer_in_range(m: AlpmManager, a: DepAnswer, r: int)
    requires
        0 <= r,
    ensures
        match first_offer(m, a, r) {
            Some((d, i)) => in_range(m, d, i),
            None => true,
        },
    decreases m.repos@.len() - r,
{
    if r < m.repos@.len() {
        first_offer_in_range(m, a, r + 1);
        db_from_in_range(m.sync@, m.repos@[r]@, 0);
    }
}

pub proof fn db_from_in_range(sync: Seq<SyncDb>, name: Seq<char>, i: int)
    requires
        0 <= i <= sync.len(),
    ensures
        match db::db_from(sync, name, i) {
            Some(d) => i <= d < sync.len() && sync[d].name@ == name,
            None => forall|j: int| i <= j < sync.len() ==> (#[trigger] sync[j]).name@ != name,
        },
    decreases sync.len() - i,
{
    if i < sync.len() && sync[i].name@ != name {
        db_from_in_range(sync, name, i + 1);
    }
}

/// A step keeps the walk in order, and leaves fewer packages to be seen or fewer steps to
/// take.
proof fn walk_step_shrinks(m: AlpmManager, k: Known, w: WalkView)
    requires
        walk_ok(m, w),
        w.stack.len() > 0,
    ensures
        match walk_step(m, k, w) {
            Ok(v) => walk_ok(m, v) && {
                let a = unseen(m.sync@, w.seen_pkgs, m.sync@.len() as int);
                let b = unseen(m.sync@, v.seen_pkgs, m.sync@.len() as int);
                b < a || (b == a && left_in(m, v.stack) < left_in(m, w.stack))
            },
            Err(_) => true,
        },
{
    let f = w.stack.last();
    let p = frame_pkg(m, f);
    assert(w.stack[w.stack.len() - 1] == f);
    match walk_step(m, k, w) {
        Ok(v) => {
            let popped = w.stack.drop_last();
            assert forall|x: int| 0 <= x < popped.len() implies {
                let g = #[trigger] popped[x];
                in_range(m, g.d, g.i) && 0 <= g.k <= frame_pkg(m, g).depends@.len()
            } by {
                assert(popped[x] == w.stack[x]);
            }
            if f.k < p.depends@.len() {
                let g = FrameView { k: f.k + 1, ..f };
                let advanced = popped.push(g);
                assert(advanced.drop_last() =~= popped);
                let dep = p.depends@[f.k]@;
                if !w.seen_deps.contains(dep) {
                    let a = strmap::lookup(k.deps@, dep)->0;
                    first_offer_in_range(m, a, 0);
                    match first_offer(m, a, 0) {
                        Some((d, i)) => {
                            seeing_lowers(
                                m.sync@,
                                w.seen_pkgs,
                                m.sync@[d].pkgs@[i].name@,
                                m.sync@.len() as int,
                                d,
                                i,
                            );
                        },
                        None => {},
                    }
                }
            }
        },
        Err(_) => {},
    }
}

/// Where the walk ends: with all targets, or with what stopped it.
pub open spec fn walk(m: AlpmManager, k: Known, w: WalkView) -> PlanView
    decreases unseen(m.sync@, w.seen_pkgs, m.sync@.len() as int), left_in(m, w.stack),
    when walk_ok(m, w)
    via walk_decreases
{
    if w.stack.len() == 0 {
        PlanView::Ready(w.out)
    } else {
        match walk_step(m, k, w) {
            Ok(v) => walk(m, k, v),
            Err(e) => e,
        }
    }
}

#[via_fn]
proof fn walk_decreases(m: AlpmManager, k: Known, w: WalkView) {
    if w.stack.len() > 0 {
        walk_step_shrinks(m, k, w);
    }
}

/// The walk that begins with one package.
pub open spec fn walk_start(m: AlpmManager, d: int, i: int) -> WalkView {
    WalkView {
        stack: seq![FrameView { d, i, k: 0 }],
        seen_deps: Seq::empty(),
        seen_pkgs: seq![m.sync@[d].pkgs@[i].name@],
        out: Seq::empty(),
    }
}

/// The package that is asked for, in a given repository or in the first that has it.
pub open spec fn found_for(m: AlpmManager, k: Known, repo: Option<Seq<char>>, name: Seq<char>) -> Found {
    match repo {
        Some(r) => match db::db_from(m.sync@, r, 0) {
            Some(d) => find_in_db(m, k, d, name),
            None => Found::Nowhere,
        },
        None => find_from(m, k, 0, name),
    }
}

/// The plan for a package.
pub open spec fn plan(m: AlpmManager, k: Known, repo: Option<Seq<char>>, name: Seq<char>) -> PlanView {
    match found_for(m, k, repo, name) {
        Found::At(d, i) => walk(m, k, walk_start(m, d, i)),
        Found::Ask => PlanView::NeedDep(name),
        Found::Nowhere => PlanView::Failed(
            match repo {
                Some(r) => if db::db_from(m.sync@, r, 0) is None {
                    "Repository '"@ + r + "' not found"@
                } else {
                    "Package '"@ + name + "' not found in repository '"@ + r + "'"@
                },
                None => "Package '"@ + name + "' not found in any configured repository"@,
            },
        ),
    }
}

// ---------------------------------------------------------------------------------------
// What holds of every plan

/// The names of the targets are distinct, and with the names of the packages under way they
/// are exactly the names that have been seen; the first name belongs to the package at the
/// bottom.
spec fn walk_inv(m: AlpmManager, w: WalkView, first: Seq<char>) -> bool {
    let names = Seq::new(w.out.len(), |x: int| w.out[x].name);
    let under_way = Seq::new(w.stack.len(), |x: int| frame_pkg(m, w.stack[x]).name@);
    &&& walk_ok(m, w)
    &&& (names + under_way).no_duplicates()
    &&& forall|t: Seq<char>| #[trigger] w.seen_pkgs.contains(t) <==> (names + under_way).contains(t)
    &&& if w.stack.len() > 0 {
        under_way[0] == first
    } else {
        names.len() > 0 && names.last() == first
    }
}

proof fn walk_inv_step(m: AlpmManager, k: Known, w: WalkView, first: Seq<char>)
    requires
        walk_inv(m, w, first),
        w.stack.len() > 0,
        walk_step(m, k, w) is Ok,
    ensures
        walk_inv(m, walk_step(m, k, w)->Ok_0, first),
{
    walk_step_shrinks(m, k, w);
    let v = walk_step(m, k, w)->Ok_0;
    let names = Seq::new(w.out.len(), |x: int| w.out[x].name);
    let under_way = Seq::new(w.stack.len(), |x: int| frame_pkg(m, w.stack[x]).name@);
    let names2 = Seq::new(v.out.len(), |x: int| v.out[x].name);
    let under_way2 = Seq::new(v.stack.len(), |x: int| frame_pkg(m, v.stack[x]).name@);
    let f = w.stack.last();
    let p = frame_pkg(m, f);
    assert(w.stack[w.stack.len() - 1] == f);
    let all = names + under_way;
    let all2 = names2 + under_way2;
    if f.k >= p.depends@.len() {
        assert(names2 =~= names.push(p.name@));
        assert(under_way2 =~= under_way.drop_last());
        assert(under_way.last() == p.name@);
        assert(all2 =~= all.remove(names.len() + under_way.len() - 1).insert(
            names.len() as int,
            p.name@,
        ));
        assert forall|t: Seq<char>| #[trigger] v.seen_pkgs.contains(t) <==> all2.contains(t) by {
            if all.contains(t) {
                let x = choose|x: int| 0 <= x < all.len() && all[x] == t;
                if x < names.len() {
                    assert(all2[x] == t);
                } else if x == all.len() - 1 {
                    assert(all2[names.len() as int] == t);
                } else {
                    assert(all2[x + 1] == t);
                }
            }
            if all2.contains(t) {
                let x = choose|x: int| 0 <= x < all2.len() && all2[x] == t;
                if x < names.len() {
                    assert(all[x] == t);
                } else if x == names.len() {
                    assert(all[all.len() - 1] == t);
                } else {
                    assert(all[x - 1] == t);
                }
            }
        }
        assert(all2.no_duplicates()) by {
            assert forall|x: int, y: int| 0 <= x < y < all2.len() implies all2[x] != all2[y] by {
                let a = if x < names.len() { x } else if x == names.len() { all.len() - 1 } else { x - 1 };
                let b = if y < names.len() { y } else if y == names.len() { all.len() - 1 } else { y - 1 };
                assert(all2[x] == all[a] && all2[y] == all[b] && a != b);
            }
        }
    } else {
        assert(names2 =~= names);
        if v.stack.len() == w.stack.len() {
            assert(under_way2 =~= under_way) by {
                assert forall|x: int| 0 <= x < under_way.len() implies under_way2[x] == under_way[x] by {
                    if x < w.stack.len() - 1 {
                        assert(v.stack[x] == w.stack[x]);
                    }
                }
            }
            assert(v.seen_pkgs == w.seen_pkgs);
        } else {
            let name = v.seen_pkgs.last();
            assert(under_way2 =~= under_way.push(name)) by {
                assert forall|x: int| 0 <= x < under_way.len() implies under_way2[x] == under_way[x] by {
                    if x < w.stack.len() - 1 {
                        assert(v.stack[x] == w.stack[x]);
                    }
                }
            }
            assert(all2 =~= all.push(name));
            assert forall|t: Seq<char>| #[trigger] v.seen_pkgs.contains(t) <==> all2.contains(t) by {
                if v.seen_pkgs.contains(t) {
                    let x = choose|x: int| 0 <= x < v.seen_pkgs.len() && v.seen_pkgs[x] == t;
                    if x < w.seen_pkgs.len() {
                        assert(w.seen_pkgs[x] == t);
                        assert(w.seen_pkgs.contains(t));
                        assert(all.contains(t));
                        let y = choose|y: int| 0 <= y < all.len() && all[y] == t;
                        assert(all2[y] == t);
                    } else {
                        assert(all2[all.len() as int] == t);
                    }
                }
                if all2.contains(t) {
                    let x = choose|x: int| 0 <= x < all2.len() && all2[x] == t;
                    if x < all.len() {
                        assert(all[x] == t);
                        assert(w.seen_pkgs.contains(t));
                        let y = choose|y: int| 0 <= y < w.seen_pkgs.len() && w.seen_pkgs[y] == t;
                        assert(v.seen_pkgs[y] == t);
                    } else {
                        assert(v.seen_pkgs[w.seen_pkgs.len() as int] == t);
                    }
                }
            }
            assert(!all.contains(name));
            assert(all2.no_duplicates()) by {
                assert forall|x: int, y: int| 0 <= x < y < all2.len() implies all2[x] != all2[y] by {
                    if y == all.len() {
                        assert(all[x] != name);
                    }
                }
            }
        }
    }
}

proof fn walk_inv_end(m: AlpmManager, k: Known, w: WalkView, first: Seq<char>)
    requires
        walk_inv(m, w, first),
    ensures
        match walk(m, k, w) {
            PlanView::Ready(out) => {
                &&& out.len() > 0
                &&& out.last().name == first
                &&& forall|x: int, y: int|
                    0 <= x < y < out.len() ==> (#[trigger] out[x]).name != (#[trigger] out[y]).name
            },
            _ => true,
        },
    decreases unseen(m.sync@, w.seen_pkgs, m.sync@.len() as int), left_in(m, w.stack),
{
    if w.stack.len() == 0 {
        let names = Seq::new(w.out.len(), |x: int| w.out[x].name);
        let under_way = Seq::new(w.stack.len(), |x: int| frame_pkg(m, w.stack[x]).name@);
        assert(names + under_way =~= names);
        assert forall|x: int, y: int| 0 <= x < y < w.out.len() implies (#[trigger] w.out[x]).name != (
        #[trigger] w.out[y]).name by {
            assert(names[x] != names[y]);
        }
    } else {
        walk_step_shrinks(m, k, w);
        match walk_step(m, k, w) {
            Ok(v) => {
                walk_inv_step(m, k, w, first);
                walk_inv_end(m, k, v, first);
            },
            Err(_) => {},
        }
    }
}

/// A finished plan ends with the package that was asked for, and names no package twice.
pub proof fn plan_ends_with_target(m: AlpmManager, k: Known, d: int, i: int)
    requires
        in_range(m, d, i),
    ensures
        match walk(m, k, walk_start(m, d, i)) {
            PlanView::Ready(out) => {
                &&& out.len() > 0
                &&& out.last().name == m.sync@[d].pkgs@[i].name@
                &&& forall|x: int, y: int|
                    0 <= x < y < out.len() ==> (#[trigger] out[x]).name != (#[trigger] out[y]).name
            },
            _ => true,
        },
{
    let w = walk_start(m, d, i);
    let first = m.sync@[d].pkgs@[i].name@;
    let names = Seq::new(w.out.len(), |x: int| w.out[x].name);
    let under_way = Seq::new(w.stack.len(), |x: int| frame_pkg(m, w.stack[x]).name@);
    assert(names + under_way =~= seq![first]);
    assert(w.seen_pkgs =~= seq![first]);
    walk_inv_end(m, k, w, first);
}

// ---------------------------------------------------------------------------------------
// Why each archive is in a plan, and in which order

/// The package at a place: a database and a position in it.
pub open spec fn pkg_at(m: AlpmManager, at: (int, int)) -> SyncPackage {
    m.sync@[at.0].pkgs@[at.1]
}

/// The `x`-th dependency of the package at `p` is not satisfied by what is installed, and
/// `q` is the first place that satisfies it.
pub open spec fn brings_by(m: AlpmManager, k: Known, p: (int, int), q: (int, int), x: int) -> bool {
    &&& 0 <= x < pkg_at(m, p).depends@.len()
    &&& strmap::lookup(k.deps@, pkg_at(m, p).depends@[x]@) matches Some(a) && !a.installed
        && first_offer(m, a, 0) == Some(q)
}

/// A dependency of the package at `p` that is not satisfied by what is installed leads to the
/// package at `q`.
pub open spec fn brings(m: AlpmManager, k: Known, p: (int, int), q: (int, int)) -> bool {
    exists|x: int| brings_by(m, k, p, q, x)
}

/// `n` such dependencies lead from `p` to `q`.
pub open spec fn path(m: AlpmManager, k: Known, p: (int, int), q: (int, int), n: nat) -> bool
    decreases n,
{
    if n == 0 {
        p == q
    } else {
        exists|c: (int, int)| path(m, k, p, c, (n - 1) as nat) && #[trigger] brings(m, k, c, q)
    }
}

/// The package at `p` needs the one at `q`, by however many steps.
pub open spec fn leads(m: AlpmManager, k: Known, p: (int, int), q: (int, int)) -> bool {
    exists|n: nat| path(m, k, p, q, n)
}

/// A dependency of the `x`-th archive is satisfied by what is installed, is to be had
/// nowhere, or is met by an archive of the plan: by an earlier one, or, where the two need
/// each other, by any.
pub open spec fn dep_met(
    m: AlpmManager,
    k: Known,
    from: Seq<(int, int)>,
    x: int,
    dep: Seq<char>,
) -> bool {
    match strmap::lookup(k.deps@, dep) {
        None => false,
        Some(a) => a.installed || match first_offer(m, a, 0) {
            None => true,
            Some(q) => exists|z: int|
                0 <= z < from.len() && pkg_at(m, #[trigger] from[z]).name@ == pkg_at(m, q).name@ && (z
                    < x || leads(m, k, from[z], from[x])),
        },
    }
}

/// `from` tells for each archive of a plan the package that it belongs to. All archives but
/// the last, which is that of the package at `target`, are there because a later one needs
/// them, and with each archive come those of what it needs.
pub open spec fn explains(
    m: AlpmManager,
    k: Known,
    from: Seq<(int, int)>,
    out: Seq<TargetView>,
    target: (int, int),
) -> bool {
    &&& from.len() == out.len()
    &&& from.len() > 0
    &&& from.last() == target
    &&& forall|x: int|
        0 <= x < from.len() ==> in_range(m, (#[trigger] from[x]).0, from[x].1) && target_of(
            k,
            m.sync@[from[x].0].name@,
            pkg_at(m, from[x]),
        ) == Ok::<TargetView, PlanView>(out[x])
    &&& forall|x: int|
        0 <= x < from.len() - 1 ==> exists|y: int|
            x < y < from.len() && brings(m, k, #[trigger] from[y], #[trigger] from[x])
    &&& forall|x: int, i: int|
        0 <= x < from.len() && 0 <= i < pkg_at(m, from[x]).depends@.len() ==> dep_met(
            m,
            k,
            from,
            x,
            (#[trigger] pkg_at(m, from[x]).depends@[i])@,
        )
}

/// The archives of a plan for the package at `target` have their reasons and their order.
pub open spec fn is_explained(m: AlpmManager, k: Known, out: Seq<TargetView>, target: (int, int)) -> bool {
    exists|from: Seq<(int, int)>| explains(m, k, from, out, target)
}

spec fn place(f: FrameView) -> (int, int) {
    (f.d, f.i)
}

/// What is known of a dependency once it has been looked at.
spec fn looked_at(m: AlpmManager, k: Known, seen: Seq<Seq<char>>, dep: Seq<char>) -> bool {
    match strmap::lookup(k.deps@, dep) {
        None => false,
        Some(a) => a.installed || match first_offer(m, a, 0) {
            None => true,
            Some(q) => seen.contains(pkg_at(m, q).name@),
        },
    }
}

/// As `dep_met`, where the archive that meets the dependency may still be under way.
spec fn met_or_under_way(
    m: AlpmManager,
    k: Known,
    from: Seq<(int, int)>,
    stack: Seq<FrameView>,
    x: int,
    dep: Seq<char>,
) -> bool {
    ||| dep_met(m, k, from, x, dep)
    ||| strmap::lookup(k.deps@, dep) matches Some(a) && first_offer(m, a, 0) matches Some(q)
        && exists|s: int|
        0 <= s < stack.len() && pkg_at(m, place(#[trigger] stack[s])).name@ == pkg_at(m, q).name@
            && leads(m, k, place(stack[s]), from[x])
}

/// The `x`-th archive is needed by a later one, or by a package under way.
spec fn needed(m: AlpmManager, k: Known, from: Seq<(int, int)>, stack: Seq<FrameView>, x: int) -> bool {
    ||| exists|y: int| x < y < from.len() && brings(m, k, #[trigger] from[y], from[x])
    ||| exists|s: int| 0 <= s < stack.len() && brings(m, k, place(#[trigger] stack[s]), from[x])
}

spec fn explained(
    m: AlpmManager,
    k: Known,
    w: WalkView,
    from: Seq<(int, int)>,
    target: (int, int),
) -> bool {
    &&& walk_inv(m, w, pkg_at(m, target).name@)
    &&& from.len() == w.out.len()
    &&& if w.stack.len() > 0 {
        place(w.stack[0]) == target
    } else {
        from.len() > 0 && from.last() == target
    }
    &&& forall|x: int|
        0 <= x < from.len() ==> in_range(m, (#[trigger] from[x]).0, from[x].1) && target_of(
            k,
            m.sync@[from[x].0].name@,
            pkg_at(m, from[x]),
        ) == Ok::<TargetView, PlanView>(w.out[x])
    &&& forall|t: Seq<char>| #[trigger] w.seen_deps.contains(t) ==> looked_at(m, k, w.seen_pkgs, t)
    &&& forall|s: int, i: int|
        0 <= s < w.stack.len() && 0 <= i < w.stack[s].k ==> looked_at(
            m,
            k,
            w.seen_pkgs,
            (#[trigger] pkg_at(m, place(w.stack[s])).depends@[i])@,
        )
    &&& forall|s: int|
        0 < s < w.stack.len() ==> brings(m, k, place(w.stack[s - 1]), place(#[trigger] w.stack[s]))
    &&& forall|x: int|
        0 <= x < from.len() ==> (#[trigger] needed(m, k, from, w.stack, x)) || (w.stack.len() == 0
            && x == from.len() - 1)
    &&& forall|x: int, i: int|
        0 <= x < from.len() && 0 <= i < pkg_at(m, from[x]).depends@.len() ==> met_or_under_way(
            m,
            k,
            from,
            w.stack,
            x,
            (#[trigger] pkg_at(m, from[x]).depends@[i])@,
        )
}

proof fn leads_to_itself(m: AlpmManager, k: Known, p: (int, int))
    ensures
        leads(m, k, p, p),
{
    assert(path(m, k, p, p, 0));
}

/// Every package under way needs those above it.
proof fn lower_leads_to_upper(m: AlpmManager, k: Known, stack: Seq<FrameView>, s: int, e: int)
    requires
        0 <= s <= e < stack.len(),
        forall|s: int|
            0 < s < stack.len() ==> brings(m, k, place(stack[s - 1]), place(#[trigger] stack[s])),
    ensures
        leads(m, k, place(stack[s]), place(stack[e])),
    decreases e - s,
{
    if s == e {
        leads_to_itself(m, k, place(stack[s]));
    } else {
        lower_leads_to_upper(m, k, stack, s, e - 1);
        let low = place(stack[s]);
        let below = place(stack[e - 1]);
        let n = choose|n: nat| path(m, k, low, below, n);
        assert(brings(m, k, below, place(stack[e])));
        assert(path(m, k, place(stack[s]), place(stack[e]), n + 1));
    }
}

proof fn explained_pop(
    m: AlpmManager,
    k: Known,
    w: WalkView,
    v: WalkView,
    from: Seq<(int, int)>,
    target: (int, int),
)
    requires
        explained(m, k, w, from, target),
        w.stack.len() > 0,
        walk_step(m, k, w) == Ok::<WalkView, PlanView>(v),
        w.stack.last().k >= frame_pkg(m, w.stack.last()).depends@.len(),
    ensures
        explained(m, k, v, from.push(place(w.stack.last())), target),
{
    let first = pkg_at(m, target).name@;
    walk_inv_step(m, k, w, first);
    let f = w.stack.last();
    let top = w.stack.len() - 1;
    assert(w.stack[top] == f);
    let p = pkg_at(m, place(f));
    let next = from.push(place(f));
    let n = from.len() as int;
    assert(v.stack =~= w.stack.drop_last());
    assert(forall|s: int| 0 <= s < v.stack.len() ==> v.stack[s] == w.stack[s]);
    assert(forall|x: int| 0 <= x < n ==> next[x] == from[x]);
    assert(next[n] == place(f));
    assert forall|x: int| 0 <= x < next.len() implies (#[trigger] needed(m, k, next, v.stack, x)) || (
    v.stack.len() == 0 && x == next.len() - 1) by {
        if x < n {
            assert(needed(m, k, from, w.stack, x));
            if exists|y: int| x < y < from.len() && brings(m, k, #[trigger] from[y], from[x]) {
                let y = choose|y: int| x < y < from.len() && brings(m, k, #[trigger] from[y], from[x]);
                assert(brings(m, k, next[y], next[x]));
            } else {
                let s = choose|s: int|
                    0 <= s < w.stack.len() && brings(m, k, place(#[trigger] w.stack[s]), from[x]);
                if s == top {
                    assert(brings(m, k, next[n], next[x]));
                } else {
                    assert(brings(m, k, place(v.stack[s]), next[x]));
                }
            }
        } else if top > 0 {
            assert(brings(m, k, place(w.stack[top - 1]), place(w.stack[top])));
            assert(brings(m, k, place(v.stack[top - 1]), next[x]));
        }
    }
    assert forall|x: int, i: int|
        0 <= x < next.len() && 0 <= i < pkg_at(m, next[x]).depends@.len() implies met_or_under_way(
        m,
        k,
        next,
        v.stack,
        x,
        (#[trigger] pkg_at(m, next[x]).depends@[i])@,
    ) by {
        let dep = pkg_at(m, next[x]).depends@[i]@;
        if x < n {
            assert(pkg_at(m, from[x]).depends@[i]@ == dep);
            assert(met_or_under_way(m, k, from, w.stack, x, dep));
            let a = strmap::lookup(k.deps@, dep)->0;
            if !a.installed && first_offer(m, a, 0) is Some {
                let q = first_offer(m, a, 0)->0;
                if dep_met(m, k, from, x, dep) {
                    let z = choose|z: int|
                        0 <= z < from.len() && pkg_at(m, #[trigger] from[z]).name@ == pkg_at(m, q).name@
                            && (z < x || leads(m, k, from[z], from[x]));
                    assert(pkg_at(m, next[z]).name@ == pkg_at(m, q).name@);
                } else {
                    let s = choose|s: int|
                        0 <= s < w.stack.len() && pkg_at(m, place(#[trigger] w.stack[s])).name@
                            == pkg_at(m, q).name@ && leads(m, k, place(w.stack[s]), from[x]);
                    if s == top {
                        assert(pkg_at(m, next[n]).name@ == pkg_at(m, q).name@);
                        assert(leads(m, k, next[n], next[x]));
                    } else {
                        assert(pkg_at(m, place(v.stack[s])).name@ == pkg_at(m, q).name@);
                    }
                }
            }
        } else {
            assert(pkg_at(m, place(w.stack[top])).depends@[i]@ == dep);
            assert(looked_at(m, k, w.seen_pkgs, dep));
            let a = strmap::lookup(k.deps@, dep)->0;
            if !a.installed && first_offer(m, a, 0) is Some {
                let q = first_offer(m, a, 0)->0;
                let t = pkg_at(m, q).name@;
                let names = Seq::new(w.out.len(), |x: int| w.out[x].name);
                let under_way = Seq::new(w.stack.len(), |x: int| frame_pkg(m, w.stack[x]).name@);
                assert(w.seen_pkgs.contains(t));
                assert((names + under_way).contains(t));
                let z = choose|z: int|
                    0 <= z < (names + under_way).len() && (names + under_way)[z] == t;
                if z < n {
                    assert(w.out[z].name == t);
                    assert(pkg_at(m, from[z]).name@ == t);
                    assert(pkg_at(m, next[z]).name@ == t);
                } else {
                    let s = z - n;
                    assert(under_way[s] == t);
                    assert(pkg_at(m, place(w.stack[s])).name@ == t);
                    lower_leads_to_upper(m, k, w.stack, s, top);
                    if s == top {
                        assert(pkg_at(m, next[n]).name@ == t);
                    } else {
                        assert(pkg_at(m, place(v.stack[s])).name@ == t);
                    }
                }
            }
        }
    }
}

proof fn seeing_more(m: AlpmManager, k: Known, seen: Seq<Seq<char>>, x: Seq<char>, dep: Seq<char>)
    requires
        looked_at(m, k, seen, dep),
    ensures
        looked_at(m, k, seen.push(x), dep),
{
    let a = strmap::lookup(k.deps@, dep)->0;
    if !a.installed && first_offer(m, a, 0) is Some {
        let t = pkg_at(m, first_offer(m, a, 0)->0).name@;
        let z = choose|z: int| 0 <= z < seen.len() && seen[z] == t;
        assert(seen.push(x)[z] == t);
    }
}

proof fn explained_advance(
    m: AlpmManager,
    k: Known,
    w: WalkView,
    v: WalkView,
    from: Seq<(int, int)>,
    target: (int, int),
)
    requires
        explained(m, k, w, from, target),
        w.stack.len() > 0,
        walk_step(m, k, w) == Ok::<WalkView, PlanView>(v),
        w.stack.last().k < frame_pkg(m, w.stack.last()).depends@.len(),
    ensures
        explained(m, k, v, from, target),
{
    let first = pkg_at(m, target).name@;
    walk_inv_step(m, k, w, first);
    let f = w.stack.last();
    let top = w.stack.len() - 1;
    assert(w.stack[top] == f);
    let p = pkg_at(m, place(f));
    let dep = p.depends@[f.k]@;
    assert(forall|s: int| 0 <= s < top ==> v.stack[s] == w.stack[s]);
    assert(v.stack[top] == (FrameView { k: f.k + 1, ..f }));
    assert(forall|s: int| 0 <= s <= top ==> place(v.stack[s]) == place(#[trigger] w.stack[s]));
    let grown = v.stack.len() > w.stack.len();
    if grown {
        assert(v.seen_pkgs =~= w.seen_pkgs.push(v.seen_pkgs.last()));
        assert(brings_by(m, k, place(f), place(v.stack[top + 1]), f.k));
        assert(brings(m, k, place(f), place(v.stack[top + 1])));
    } else {
        assert(v.seen_pkgs == w.seen_pkgs);
    }
    assert forall|t: Seq<char>| looked_at(m, k, w.seen_pkgs, t) implies #[trigger] looked_at(
        m,
        k,
        v.seen_pkgs,
        t,
    ) by {
        if grown {
            seeing_more(m, k, w.seen_pkgs, v.seen_pkgs.last(), t);
        }
    }
    assert(looked_at(m, k, v.seen_pkgs, dep)) by {
        if w.seen_deps.contains(dep) {
            assert(looked_at(m, k, w.seen_pkgs, dep));
        } else if grown {
            assert(v.seen_pkgs[w.seen_pkgs.len() as int] == v.seen_pkgs.last());
        }
    }
    assert forall|t: Seq<char>| #[trigger] v.seen_deps.contains(t) implies looked_at(
        m,
        k,
        v.seen_pkgs,
        t,
    ) by {
        let z = choose|z: int| 0 <= z < v.seen_deps.len() && v.seen_deps[z] == t;
        if z < w.seen_deps.len() {
            assert(w.seen_deps[z] == t);
            assert(w.seen_deps.contains(t));
            assert(looked_at(m, k, w.seen_pkgs, t));
        } else {
            assert(t == dep);
        }
    }
    assert forall|s: int, i: int| 0 <= s < v.stack.len() && 0 <= i < v.stack[s].k implies looked_at(
        m,
        k,
        v.seen_pkgs,
        (#[trigger] pkg_at(m, place(v.stack[s])).depends@[i])@,
    ) by {
        if s < top || (s == top && i < f.k) {
            assert(place(v.stack[s]) == place(w.stack[s]));
            assert(looked_at(m, k, w.seen_pkgs, pkg_at(m, place(w.stack[s])).depends@[i]@));
        }
    }
    assert forall|s: int| 0 < s < v.stack.len() implies brings(
        m,
        k,
        place(v.stack[s - 1]),
        place(#[trigger] v.stack[s]),
    ) by {
        if s <= top {
            assert(brings(m, k, place(w.stack[s - 1]), place(w.stack[s])));
            assert(place(v.stack[s - 1]) == place(w.stack[s - 1]));
        }
    }
    assert forall|x: int| 0 <= x < from.len() implies (#[trigger] needed(m, k, from, v.stack, x)) || (
    v.stack.len() == 0 && x == from.len() - 1) by {
        assert(needed(m, k, from, w.stack, x));
        if exists|s: int| 0 <= s < w.stack.len() && brings(m, k, place(#[trigger] w.stack[s]), from[x]) {
            let s = choose|s: int|
                0 <= s < w.stack.len() && brings(m, k, place(#[trigger] w.stack[s]), from[x]);
            assert(brings(m, k, place(v.stack[s]), from[x]));
        }
    }
    assert forall|x: int, i: int|
        0 <= x < from.len() && 0 <= i < pkg_at(m, from[x]).depends@.len() implies met_or_under_way(
        m,
        k,
        from,
        v.stack,
        x,
        (#[trigger] pkg_at(m, from[x]).depends@[i])@,
    ) by {
        let d = pkg_at(m, from[x]).depends@[i]@;
        assert(met_or_under_way(m, k, from, w.stack, x, d));
        if !dep_met(m, k, from, x, d) {
            let q = first_offer(m, strmap::lookup(k.deps@, d)->0, 0)->0;
            let s = choose|s: int|
                0 <= s < w.stack.len() && pkg_at(m, place(#[trigger] w.stack[s])).name@ == pkg_at(
                    m,
                    q,
                ).name@ && leads(m, k, place(w.stack[s]), from[x]);
            assert(pkg_at(m, place(v.stack[s])).name@ == pkg_at(m, q).name@);
        }
    }
}

proof fn explained_end(
    m: AlpmManager,
    k: Known,
    w: WalkView,
    from: Seq<(int, int)>,
    target: (int, int),
)
    requires
        explained(m, k, w, from, target),
    ensures
        match walk(m, k, w) {
            PlanView::Ready(out) => is_explained(m, k, out, target),
            _ => true,
        },
    decreases unseen(m.sync@, w.seen_pkgs, m.sync@.len() as int), left_in(m, w.stack),
{
    if w.stack.len() == 0 {
        assert forall|x: int| 0 <= x < from.len() - 1 implies exists|y: int|
            x < y < from.len() && brings(m, k, #[trigger] from[y], #[trigger] from[x]) by {
            assert(needed(m, k, from, w.stack, x));
        }
        assert forall|x: int, i: int|
            0 <= x < from.len() && 0 <= i < pkg_at(m, from[x]).depends@.len() implies dep_met(
            m,
            k,
            from,
            x,
            (#[trigger] pkg_at(m, from[x]).depends@[i])@,
        ) by {
            assert(met_or_under_way(m, k, from, w.stack, x, pkg_at(m, from[x]).depends@[i]@));
        }
        assert(explains(m, k, from, w.out, target));
        assert(is_explained(m, k, w.out, target));
    } else {
        walk_step_shrinks(m, k, w);
        match walk_step(m, k, w) {
            Ok(v) => {
                if w.stack.last().k >= frame_pkg(m, w.stack.last()).depends@.len() {
                    explained_pop(m, k, w, v, from, target);
                    explained_end(m, k, v, from.push(place(w.stack.last())), target);
                } else {
                    explained_advance(m, k, w, v, from, target);
                    explained_end(m, k, v, from, target);
                }
            },
            Err(_) => {},
        }
    }
}

proof fn found_in_range(m: AlpmManager, k: Known, repo: Option<Seq<char>>, name: Seq<char>)
    ensures
        found_for(m, k, repo, name) matches Found::At(d, i) ==> in_range(m, d, i),
{
    match repo {
        Some(r) => {
            db_from_in_range(m.sync@, r, 0);
            if let Some(d) = db::db_from(m.sync@, r, 0) {
                db::pkg_from_found(m.sync@[d].pkgs@, name, 0);
            }
        },
        None => {
            found_from_in_range(m, k, 0, name);
        },
    }
}

proof fn found_from_in_range(m: AlpmManager, k: Known, r: int, name: Seq<char>)
    requires
        0 <= r,
    ensures
        find_from(m, k, r, name) matches Found::At(d, i) ==> in_range(m, d, i),
    decreases m.repos@.len() - r,
{
    if r < m.repos@.len() {
        found_from_in_range(m, k, r + 1, name);
        db_from_in_range(m.sync@, m.repos@[r]@, 0);
        if let Some(d) = db::db_from(m.sync@, m.repos@[r]@, 0) {
            db::pkg_from_found(m.sync@[d].pkgs@, name, 0);
        }
    }
}

/// Every archive of a finished plan has its reason and its place. The last one is that of the
/// package that was asked for; each other one is what a dependency of a later one leads to
/// that nothing installed satisfies. And what a package needs is installed, to be had
/// nowhere, or in the plan, before the package unless the two need each other.
pub proof fn plan_is_explained(
    m: AlpmManager,
    k: Known,
    repo: Option<Seq<char>>,
    name: Seq<char>,
    out: Seq<TargetView>,
)
    requires
        plan(m, k, repo, name) == PlanView::Ready(out),
    ensures
        match found_for(m, k, repo, name) {
            Found::At(d, i) => is_explained(m, k, out, (d, i)),
            _ => false,
        },
{
    found_in_range(m, k, repo, name);
    if let Found::At(d, i) = found_for(m, k, repo, name) {
        let w = walk_start(m, d, i);
        let first = m.sync@[d].pkgs@[i].name@;
        let names = Seq::new(w.out.len(), |x: int| w.out[x].name);
        let under_way = Seq::new(w.stack.len(), |x: int| frame_pkg(m, w.stack[x]).name@);
        assert(names + under_way =~= seq![first]);
        assert(w.seen_pkgs =~= seq![first]);
        assert(explained(m, k, w, Seq::empty(), (d, i)));
        explained_end(m, k, w, Seq::empty(), (d, i));
    }
}

// ---------------------------------------------------------------------------------------
// The walk itself

struct Frame {
    d: usize,
    i: usize,
    k: usize,
}

struct Walk {
    stack: Vec<Frame>,
    seen_deps: Vec<String>,
    seen_pkgs: Vec<String>,
    out: Vec<DownloadTarget>,
}

spec fn frames(v: Seq<Frame>) -> Seq<FrameView> {
    Seq::new(v.len(), |x: int| FrameView { d: v[x].d as int, i: v[x].i as int, k: v[x].k as int })
}

spec fn walk_view(w: Walk) -> WalkView {
    WalkView {
        stack: frames(w.stack@),
        seen_deps: text::texts(w.seen_deps@),
        seen_pkgs: text::texts(w.seen_pkgs@),
        out: targets(w.out@),
    }
}

fn make_target(known: &Known, repo: &str, p: &SyncPackage) -> (r: Result<DownloadTarget, Plan>)
    ensures
        match r {
            Ok(t) => target_of(*known, repo@, *p) == Ok::<TargetView, PlanView>(t@),
            Err(e) => target_of(*known, repo@, *p) == Err::<TargetView, PlanView>(e@),
        },
{
    let f = match &p.filename {
        Some(f) => f,
        None => {
            let mut e: String = "No filename found for package '".to_string();
            e.append(&p.name);
            e.append("'");
            return Err(Plan::Failed(e));
        },
    };
    let servers = match known.servers.get(repo) {
        Some(s) => s,
        None => {
            return Err(Plan::NeedServers(repo.to_string()));
        },
    };
    if servers.len() == 0 {
        let mut e: String = "No mirror server configured for repository '".to_string();
        e.append(repo);
        e.append("'");
        return Err(Plan::Failed(e));
    }
    let mut urls: Vec<String> = Vec::new();
    let mut i: usize = 0;
    while i < servers.len()
        invariant
            i <= servers@.len(),
            urls@.len() == i,
            forall|j: int| 0 <= j < i ==> (#[trigger] urls@[j])@ == archive_url(servers@[j]@, f@),
        decreases servers@.len() - i,
    {
        let mut u = strip_end_char(&servers[i], '/');
        u.append("/");
        u.append(f);
        urls.push(u);
        i += 1;
    }
    let url = urls[0].clone();
    let t = DownloadTarget {
        name: p.name.clone(),
        url,
        candidate_urls: urls,
        sha256: clone_opt_string(&p.sha256),
    };
    assert(text::texts(t.candidate_urls@) =~= archive_urls(servers@, f@));
    Ok(t)
}

impl AlpmManager {
    fn db_index(&self, repo: &str) -> (r: Option<usize>)
        ensures
            match r {
                Some(d) => db::db_from(self.sync@, repo@, 0) == Some(d as int) && d < self.sync@.len(),
                None => db::db_from(self.sync@, repo@, 0) is None,
            },
    {
        let mut i: usize = 0;
        while i < self.sync.len()
            invariant
                i <= self.sync@.len(),
                db::db_from(self.sync@, repo@, 0) == db::db_from(self.sync@, repo@, i as int),
            decreases self.sync@.len() - i,
        {
            if str_eq(&self.sync[i].name, repo) {
                return Some(i);
            }
            i += 1;
        }
        None
    }

    fn pkg_index(&self, d: usize, name: &str) -> (r: Option<usize>)
        requires
            d < self.sync@.len(),
        ensures
            match r {
                Some(i) => db::pkg_from(self.sync@[d as int].pkgs@, name@, 0) == Some(i as int) && i
                    < self.sync@[d as int].pkgs@.len(),
                None => db::pkg_from(self.sync@[d as int].pkgs@, name@, 0) is None,
            },
    {
        let pkgs = &self.sync[d].pkgs;
        let mut i: usize = 0;
        while i < pkgs.len()
            invariant
                i <= pkgs@.len(),
                d < self.sync@.len(),
                *pkgs == self.sync@[d as int].pkgs,
                db::pkg_from(pkgs@, name@, 0) == db::pkg_from(pkgs@, name@, i as int),
            decreases pkgs@.len() - i,
        {
            if str_eq(&pkgs[i].name, name) {
                return Some(i);
            }
            i += 1;
        }
        None
    }

    fn offer_at(&self, a: &DepAnswer, d: usize) -> (r: Option<usize>)
        requires
            d < self.sync@.len(),
        ensures
            match r {
                Some(i) => offer_in(*self, *a, d as int) == Some(i as int) && in_range(
                    *self,
                    d as int,
                    i as int,
                ),
                None => offer_in(*self, *a, d as int) is None,
            },
    {
        if d < a.offers.len() {
            if let Some(i) = a.offers[d] {
                if i < self.sync[d].pkgs.len() {
                    return Some(i);
                }
            }
        }
        None
    }

    fn best_offer(&self, a: &DepAnswer) -> (r: Option<(usize, usize)>)
        ensures
            match r {
                Some((d, i)) => first_offer(*self, *a, 0) == Some((d as int, i as int)) && in_range(
                    *self,
                    d as int,
                    i as int,
                ),
                None => first_offer(*self, *a, 0) is None,
            },
    {
        let mut r: usize = 0;
        while r < self.repos.len()
            invariant
                r <= self.repos@.len(),
                first_offer(*self, *a, 0) == first_offer(*self, *a, r as int),
            decreases self.repos@.len() - r,
        {
            if let Some(d) = self.db_index(&self.repos[r]) {
                if let Some(i) = self.offer_at(a, d) {
                    return Some((d, i));
                }
            }
            r += 1;
        }
        None
    }

    pub(crate) fn search_db(&self, known: &Known, d: usize, name: &str) -> (r: Result<Option<(usize, usize)>, ()>)
        requires
            d < self.sync@.len(),
        ensures
            match r {
                Ok(Some((e, i))) => find_in_db(*self, *known, d as int, name@) == Found::At(
                    e as int,
                    i as int,
                ) && in_range(*self, e as int, i as int),
                Ok(None) => find_in_db(*self, *known, d as int, name@) is Nowhere,
                Err(_) => find_in_db(*self, *known, d as int, name@) is Ask,
            },
    {
        if let Some(i) = self.pkg_index(d, name) {
            return Ok(Some((d, i)));
        }
        match known.deps.get(name) {
            Some(a) => match self.offer_at(a, d) {
                Some(i) => Ok(Some((d, i))),
                None => Ok(None),
            },
            None => Err(()),
        }
    }

    fn search(&self, known: &Known, name: &str) -> (r: Result<Option<(usize, usize)>, ()>)
        ensures
            match r {
                Ok(Some((e, i))) => find_from(*self, *known, 0, name@) == Found::At(
                    e as int,
                    i as int,
                ) && in_range(*self, e as int, i as int),
                Ok(None) => find_from(*self, *known, 0, name@) is Nowhere,
                Err(_) => find_from(*self, *known, 0, name@) is Ask,
            },
    {
        let mut r: usize = 0;
        while r < self.repos.len()
            invariant
                r <= self.repos@.len(),
                find_from(*self, *known, 0, name@) == find_from(*self, *known, r as int, name@),
            decreases self.repos@.len() - r,
        {
            if let Some(d) = self.db_index(&self.repos[r]) {
                match self.search_db(known, d, name) {
                    Ok(Some(x)) => {
                        return Ok(Some(x));
                    },
                    Ok(None) => {},
                    Err(_) => {
                        return Err(());
                    },
                }
            }
            r += 1;
        }
        Ok(None)
    }

    fn step(&self, known: &Known, w: &mut Walk) -> (r: Option<Plan>)
        requires
            walk_ok(*self, walk_view(*old(w))),
            old(w).stack@.len() > 0,
        ensures
            match r {
                Some(e) => walk_step(*self, *known, walk_view(*old(w))) == Err::<WalkView, PlanView>(
                    e@,
                ),
                None => walk_step(*self, *known, walk_view(*old(w))) == Ok::<WalkView, PlanView>(
                    walk_view(*final(w)),
                ),
            },
    {
        let ghost before = walk_view(*w);
        let top: usize = w.stack.len() - 1;
        let d: usize = w.stack[top].d;
        let i: usize = w.stack[top].i;
        let k: usize = w.stack[top].k;
        proof {
            assert(before.stack[top as int] == before.stack.last());
        }
        let p = &self.sync[d].pkgs[i];
        if k >= p.depends.len() {
            match make_target(known, &self.sync[d].name, p) {
                Err(e) => {
                    return Some(e);
                },
                Ok(t) => {
                    let _done = w.stack.pop();
                    w.out.push(t);
                    proof {
                        assert(frames(w.stack@) =~= before.stack.drop_last());
                        assert(targets(w.out@) =~= before.out.push(t@));
                    }
                    return None;
                },
            }
        }
        let dep = &p.depends[k];
        if list_contains(&w.seen_deps, dep) {
            w.stack.set(top, Frame { d, i, k: k + 1 });
            proof {
                assert(frames(w.stack@) =~= before.stack.drop_last().push(
                    FrameView { d: d as int, i: i as int, k: k + 1 },
                ));
            }
            return None;
        }
        let a = match known.deps.get(dep) {
            Some(a) => a,
            None => {
                return Some(Plan::NeedDep(dep.clone()));
            },
        };
        w.stack.set(top, Frame { d, i, k: k + 1 });
        w.seen_deps.push(dep.clone());
        let ghost advanced = before.stack.drop_last().push(
            FrameView { d: d as int, i: i as int, k: k + 1 },
        );
        proof {
            assert(frames(w.stack@) =~= advanced);
            assert(text::texts(w.seen_deps@) =~= before.seen_deps.push(dep@));
        }
        if a.installed {
            return None;
        }
        if let Some((e, j)) = self.best_offer(a) {
            let name = &self.sync[e].pkgs[j].name;
            if !list_contains(&w.seen_pkgs, name) {
                w.seen_pkgs.push(name.clone());
                w.stack.push(Frame { d: e, i: j, k: 0 });
                proof {
                    assert(frames(w.stack@) =~= advanced.push(
                        FrameView { d: e as int, i: j as int, k: 0 },
                    ));
                    assert(text::texts(w.seen_pkgs@) =~= before.seen_pkgs.push(name@));
                }
            }
        }
        None
    }

    /// The archives to download for a package, dependencies first, as far as the known
    /// answers lead.
    pub fn resolve_download_urls(&self, repo: Option<&str>, pkg_name: &str, known: &Known) -> (r:
        Plan)
        ensures
            r@ == plan(
                *self,
                *known,
                match repo {
                    Some(x) => Some(x@),
                    None => None,
                },
                pkg_name@,
            ),
    {
        let found: Result<Option<(usize, usize)>, ()> = match repo {
            Some(x) => match self.db_index(x) {
                Some(d) => self.search_db(known, d, pkg_name),
                None => {
                    let mut e: String = "Repository '".to_string();
                    e.append(x);
                    e.append("' not found");
                    return Plan::Failed(e);
                },
            },
            None => self.search(known, pkg_name),
        };
        let (d, i) = match found {
            Err(_) => {
                return Plan::NeedDep(pkg_name.to_string());
            },
            Ok(None) => {
                let mut e: String = "Package '".to_string();
                e.append(pkg_name);
                match repo {
                    Some(x) => {
                        e.append("' not found in repository '");
                        e.append(x);
                        e.append("'");
                    },
                    None => {
                        e.append("' not found in any configured repository");
                    },
                }
                return Plan::Failed(e);
            },
            Ok(Some(x)) => x,
        };
        let mut w = Walk {
            stack: Vec::new(),
            seen_deps: Vec::new(),
            seen_pkgs: Vec::new(),
            out: Vec::new(),
        };
        w.stack.push(Frame { d, i, k: 0 });
        w.seen_pkgs.push(self.sync[d].pkgs[i].name.clone());
        let ghost start = walk_start(*self, d as int, i as int);
        proof {
            assert(walk_view(w) =~= start) by {
                assert(frames(w.stack@) =~= start.stack);
                assert(text::texts(w.seen_deps@) =~= start.seen_deps);
                assert(text::texts(w.seen_pkgs@) =~= start.seen_pkgs);
                assert(targets(w.out@) =~= start.out);
            }
        }
        let ghost goal = walk(*self, *known, start);
        while w.stack.len() > 0
            invariant
                walk_ok(*self, walk_view(w)),
                goal == plan(
                    *self,
                    *known,
                    match repo {
                        Some(x) => Some(x@),
                        None => None,
                    },
                    pkg_name@,
                ),
                goal == walk(*self, *known, walk_view(w)),
                frames(w.stack@).len() == w.stack@.len(),
            decreases
                unseen(self.sync@, walk_view(w).seen_pkgs, self.sync@.len() as int),
                left_in(*self, walk_view(w).stack),
        {
            proof {
                walk_step_shrinks(*self, *known, walk_view(w));
            }
            if let Some(e) = self.step(known, &mut w) {
                return e;
            }
        }
        Plan::Ready(w.out)
    }
}

} // verus!
