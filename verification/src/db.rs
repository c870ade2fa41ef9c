//! A snapshot of the package databases: what is installed, and what the repositories offer.
use crate::aur::{AurItem, clean_dep_name};
use crate::aur;
use crate::paths::join_path;
use crate::paths;
use crate::patterns::{has_glob_chars, matches_glob};
use crate::patterns;
use crate::strmap::StrMap;
use crate::strmap;
use crate::text::{clone_strings, eq_ignore_case, insert_ascending, lines_of, list_contains, starts_with, str_eq, trimmed};
use crate::text;
use vstd::prelude::*;
use vstd::string::*;

verus! {

/// How an offered version compares with the installed one, as the package manager's own
/// version comparison decides it.
#[derive(Debug, Clone, Copy, PartialEq, Eq, Structural)]
pub enum VersionOrder {
    Older,
    Same,
    Newer,
}

/// An installed package.
#[derive(Debug, Clone)]
pub struct LocalPackage {
    pub name: String,
    pub version: String,
    pub isize: i64,
    pub desc: Option<String>,
    /// Installed as a dependency of another package, not on request.
    pub as_dependency: bool,
    /// The names in its dependencies, without version constraints.
    pub depends: Vec<String>,
    pub provides: Vec<String>,
    /// The installed packages that require this one, and those that name it as optional.
    pub required_by: Vec<String>,
    pub optional_for: Vec<String>,
    /// The names in the conflicts that it declares.
    pub conflicts: Vec<String>,
}

/// A conflict that a package of a repository declares, and the installed package that meets
/// it, as the package manager's own dependency resolution finds it.
#[derive(Debug, Clone)]
pub struct Conflict {
    pub name: String,
    pub installed: Option<String>,
}

/// A package of a repository.
#[derive(Debug, Clone)]
pub struct SyncPackage {
    pub name: String,
    pub version: String,
    pub base: Option<String>,
    pub csize: i64,
    pub isize: i64,
    pub desc: Option<String>,
    pub builddate: i64,
    /// The names in its dependencies, without version constraints.
    pub depends: Vec<String>,
    pub provides: Vec<String>,
    pub conflicts: Vec<Conflict>,
    pub groups: Vec<String>,
    pub filename: Option<String>,
    pub sha256: Option<String>,
    /// This version against the installed one of the same name, if there is one.
    pub versus_installed: VersionOrder,
}

/// The database of one repository.
#[derive(Debug, Clone)]
pub struct SyncDb {
    pub name: String,
    pub pkgs: Vec<SyncPackage>,
}

/// The installed packages, the databases of the repositories, and the repositories in the
/// order of their priority.
#[derive(Debug, Clone)]
pub struct AlpmManager {
    pub local: Vec<LocalPackage>,
    pub sync: Vec<SyncDb>,
    pub repos: Vec<String>,
}

/// The first database from `i` on with this name.
pub open spec fn db_from(sync: Seq<SyncDb>, name: Seq<char>, i: int) -> Option<int>
    decreases sync.len() - i,
{
    if i < 0 || i >= sync.len() {
        None
    } else if sync[i].name@ == name {
        Some(i)
    } else {
        db_from(sync, name, i + 1)
    }
}

/// The first package from `i` on with this name.
pub open spec fn pkg_from(pkgs: Seq<SyncPackage>, name: Seq<char>, i: int) -> Option<int>
    decreases pkgs.len() - i,
{
    if i < 0 || i >= pkgs.len() {
        None
    } else if pkgs[i].name@ == name {
        Some(i)
    } else {
        pkg_from(pkgs, name, i + 1)
    }
}

/// The first installed package from `i` on with this name.
pub open spec fn local_from(local: Seq<LocalPackage>, name: Seq<char>, i: int) -> Option<int>
    decreases local.len() - i,
{
    if i < 0 || i >= local.len() {
        None
    } else if local[i].name@ == name {
        Some(i)
    } else {
        local_from(local, name, i + 1)
    }
}

/// The package `name` in one database.
pub open spec fn db_pkg(db: SyncDb, name: Seq<char>) -> Option<SyncPackage> {
    match pkg_from(db.pkgs@, name, 0) {
        Some(i) => Some(db.pkgs@[i]),
        None => None,
    }
}

/// The package `name` in the repository `repo`.
pub open spec fn sync_pkg(sync: Seq<SyncDb>, repo: Seq<char>, name: Seq<char>) -> Option<
    SyncPackage,
> {
    match db_from(sync, repo, 0) {
        Some(d) => db_pkg(sync[d], name),
        None => None,
    }
}

/// Some database holds a package `name`.
pub open spec fn in_some_db(sync: Seq<SyncDb>, name: Seq<char>) -> bool {
    exists|d: int| 0 <= d < sync.len() && db_pkg(#[trigger] sync[d], name) is Some
}

pub proof fn pkg_from_found(pkgs: Seq<SyncPackage>, name: Seq<char>, i: int)
    requires
        0 <= i <= pkgs.len(),
    ensures
        match pkg_from(pkgs, name, i) {
            Some(k) => i <= k < pkgs.len() && pkgs[k].name@ == name && forall|j: int|
                i <= j < k ==> (#[trigger] pkgs[j]).name@ != name,
            None => forall|j: int| i <= j < pkgs.len() ==> (#[trigger] pkgs[j]).name@ != name,
        },
    decreases pkgs.len() - i,
{
    if i < pkgs.len() && pkgs[i].name@ != name {
        pkg_from_found(pkgs, name, i + 1);
    }
}

impl SyncDb {
    pub fn pkg(&self, name: &str) -> (r: Option<&SyncPackage>)
        ensures
            match r {
                Some(p) => db_pkg(*self, name@) == Some(*p),
                None => db_pkg(*self, name@) is None,
            },
    {
        let mut i: usize = 0;
        while i < self.pkgs.len()
            invariant
                i <= self.pkgs@.len(),
                pkg_from(self.pkgs@, name@, 0) == pkg_from(self.pkgs@, name@, i as int),
            decreases self.pkgs@.len() - i,
        {
            if str_eq(&self.pkgs[i].name, name) {
                return Some(&self.pkgs[i]);
            }
            i += 1;
        }
        None
    }
}

/// `s` with `x` at its end, unless it holds `x` already.
pub open spec fn add_new(s: Seq<Seq<char>>, x: Seq<char>) -> Seq<Seq<char>> {
    if s.contains(x) {
        s
    } else {
        s.push(x)
    }
}

/// `s` followed by those of `xs[..n]` that are new, each once.
pub open spec fn add_all_new(s: Seq<Seq<char>>, xs: Seq<Seq<char>>, n: int) -> Seq<Seq<char>>
    decreases n,
{
    if n <= 0 {
        s
    } else {
        add_new(add_all_new(s, xs, n - 1), xs[n - 1])
    }
}

pub fn push_new(v: &mut Vec<String>, s: &str)
    ensures
        text::texts(final(v)@) == add_new(text::texts(old(v)@), s@),
{
    if !list_contains(v, s) {
        let ghost before = text::texts(v@);
        v.push(s.to_string());
        assert(text::texts(v@) =~= before.push(s@));
    }
}

fn push_all_new(v: &mut Vec<String>, xs: &Vec<String>)
    ensures
        text::texts(final(v)@) == add_all_new(text::texts(old(v)@), text::texts(xs@), xs@.len() as int),
{
    let mut i: usize = 0;
    while i < xs.len()
        invariant
            i <= xs@.len(),
            text::texts(v@) == add_all_new(text::texts(old(v)@), text::texts(xs@), i as int),
        decreases xs@.len() - i,
    {
        push_new(v, &xs[i]);
        i += 1;
    }
}

/// The repositories in the order of their priority: those of `repo_order`, then the other
/// discovered ones. Without a configured order the discovered list stands as it is.
pub open spec fn ordered_repos(discovered: Seq<Seq<char>>, repo_order: Seq<Seq<char>>) -> Seq<
    Seq<char>,
> {
    if repo_order.len() == 0 {
        discovered
    } else {
        add_all_new(
            add_all_new(Seq::empty(), repo_order, repo_order.len() as int),
            discovered,
            discovered.len() as int,
        )
    }
}

proof fn add_all_new_holds(s: Seq<Seq<char>>, xs: Seq<Seq<char>>, n: int)
    requires
        0 <= n <= xs.len(),
        s.no_duplicates(),
    ensures
        add_all_new(s, xs, n).no_duplicates(),
        forall|t: Seq<char>| #[trigger]
            add_all_new(s, xs, n).contains(t) <==> s.contains(t) || xs.take(n).contains(t),
        s.len() <= add_all_new(s, xs, n).len(),
        add_all_new(s, xs, n).take(s.len() as int) == s,
    decreases n,
{
    if n > 0 {
        add_all_new_holds(s, xs, n - 1);
        let a = add_all_new(s, xs, n - 1);
        let b = add_all_new(s, xs, n);
        let x = xs[n - 1];
        let p = xs.take(n - 1);
        let q = xs.take(n);
        assert forall|t: Seq<char>| #[trigger] b.contains(t) <==> s.contains(t) || q.contains(t) by {
            if b.contains(t) {
                let k = choose|k: int| 0 <= k < b.len() && b[k] == t;
                if k < a.len() {
                    assert(a[k] == t);
                    assert(a.contains(t));
                    if p.contains(t) {
                        let m = choose|m: int| 0 <= m < p.len() && p[m] == t;
                        assert(q[m] == t);
                    }
                } else {
                    assert(q[n - 1] == t);
                }
            }
            if s.contains(t) {
                assert(a.contains(t));
                let k = choose|k: int| 0 <= k < a.len() && a[k] == t;
                assert(b[k] == t);
            }
            if q.contains(t) {
                let m = choose|m: int| 0 <= m < q.len() && q[m] == t;
                if m < n - 1 {
                    assert(p[m] == t);
                    assert(a.contains(t));
                    let k = choose|k: int| 0 <= k < a.len() && a[k] == t;
                    assert(b[k] == t);
                } else if a.contains(x) {
                    let k = choose|k: int| 0 <= k < a.len() && a[k] == t;
                    assert(b[k] == t);
                } else {
                    assert(b[a.len() as int] == t);
                }
            }
        }
        assert(b.take(s.len() as int) =~= s) by {
            assert(a.take(s.len() as int) =~= s);
            assert forall|k: int| 0 <= k < s.len() implies b[k] == s[k] by {
                assert(a.take(s.len() as int)[k] == a[k]);
            }
        }
    } else {
        assert(xs.take(0) =~= Seq::<Seq<char>>::empty());
        assert(s.take(s.len() as int) =~= s);
    }
}

/// With a configured order every configured and every discovered repository is listed, each
/// once, and nothing else; the configured ones come first.
pub proof fn repo_order_keeps_all(discovered: Seq<Seq<char>>, repo_order: Seq<Seq<char>>)
    requires
        repo_order.len() > 0,
    ensures
        ordered_repos(discovered, repo_order).no_duplicates(),
        forall|t: Seq<char>| #[trigger]
            ordered_repos(discovered, repo_order).contains(t) <==> repo_order.contains(t)
                || discovered.contains(t),
        forall|i: int, j: int|
            0 <= i < ordered_repos(discovered, repo_order).len() && 0 <= j < ordered_repos(
                discovered,
                repo_order,
            ).len() && repo_order.contains(#[trigger] ordered_repos(discovered, repo_order)[i])
                && !repo_order.contains(#[trigger] ordered_repos(discovered, repo_order)[j]) ==> i
                < j,
{
    let first = add_all_new(Seq::empty(), repo_order, repo_order.len() as int);
    let all = ordered_repos(discovered, repo_order);
    add_all_new_holds(Seq::empty(), repo_order, repo_order.len() as int);
    add_all_new_holds(first, discovered, discovered.len() as int);
    assert(repo_order.take(repo_order.len() as int) =~= repo_order);
    assert(discovered.take(discovered.len() as int) =~= discovered);
    assert forall|i: int, j: int|
        0 <= i < all.len() && 0 <= j < all.len() && repo_order.contains(#[trigger] all[i])
            && !repo_order.contains(#[trigger] all[j]) implies i < j by {
        assert(first.contains(all[i]));
        let k = choose|k: int| 0 <= k < first.len() && first[k] == all[i];
        assert(all.take(first.len() as int)[k] == all[k]);
        assert(i == k);
        if j < first.len() {
            assert(all.take(first.len() as int)[j] == all[j]);
            assert(first.contains(all[j]));
        }
    }
}

/// The trimmed lines of a program's output that are not blank.
pub open spec fn output_lines(out: Seq<char>) -> Seq<Seq<char>> {
    nonblank_lines(text::lines(out), text::lines(out).len() as int)
}

pub open spec fn nonblank_lines(ls: Seq<Seq<char>>, n: int) -> Seq<Seq<char>>
    decreases n,
{
    if n <= 0 {
        Seq::empty()
    } else if text::trim(ls[n - 1]).len() == 0 {
        nonblank_lines(ls, n - 1)
    } else {
        nonblank_lines(ls, n - 1).push(text::trim(ls[n - 1]))
    }
}

/// The repositories in the output of a query for them; the standard ones where the query failed
/// or named none.
pub open spec fn discovered_repos(output: Option<Seq<char>>) -> Seq<Seq<char>> {
    match output {
        Some(o) => if output_lines(o).len() == 0 {
            seq!["core"@, "extra"@, "multilib"@]
        } else {
            output_lines(o)
        },
        None => seq!["core"@, "extra"@, "multilib"@],
    }
}

pub fn trimmed_lines(out: &str) -> (r: Vec<String>)
    ensures
        text::texts(r@) == output_lines(out@),
{
    let ls = lines_of(out);
    let mut v: Vec<String> = Vec::new();
    let mut i: usize = 0;
    assert(text::texts(v@) =~= Seq::<Seq<char>>::empty());
    while i < ls.len()
        invariant
            i <= ls@.len(),
            text::texts(ls@) == text::lines(out@),
            text::texts(v@) == nonblank_lines(text::lines(out@), i as int),
        decreases ls@.len() - i,
    {
        let t = trimmed(&ls[i]);
        assert(text::texts(ls@)[i as int] == ls@[i as int]@);
        if !t.as_str().is_empty() {
            let ghost before = text::texts(v@);
            v.push(t);
            assert(text::texts(v@) =~= before.push(t@));
        }
        i += 1;
    }
    v
}

/// The path in the output of a query for it, or `fallback` where there is none.
pub fn path_from_output(output: Option<&str>, fallback: &str) -> (r: String)
    ensures
        r@ == match output {
            Some(o) => if text::trim(o@).len() == 0 {
                fallback@
            } else {
                text::trim(o@)
            },
            None => fallback@,
        },
{
    if let Some(o) = output {
        let t = trimmed(o);
        if !t.as_str().is_empty() {
            return t;
        }
    }
    fallback.to_string()
}

/// The state of the files of one sync database.
#[derive(Debug, Clone, Copy, PartialEq, Eq, Structural)]
pub struct DbFiles {
    /// The size of the database file, if it exists and its size can be read.
    pub db_exists: bool,
    pub db_empty: bool,
    pub tar_exists: bool,
    pub tar_empty: bool,
}

/// The warning that the files of a database call for.
pub open spec fn db_warning(repo: Seq<char>, sync_dir: Seq<char>, f: DbFiles) -> Option<Seq<char>> {
    if (f.db_exists && f.db_empty) || (f.tar_exists && f.tar_empty) {
        Some(
            "Repository '["@ + repo
                + "]' sync database is corrupted (0 bytes). Run 'pin -Sy' or 'pacman -Sy' to synchronize."@,
        )
    } else if !f.db_exists && !f.tar_exists {
        Some(
            "Repository '["@ + repo + "]' has no local database file (expected "@ + paths::joined(
                sync_dir,
                repo + ".db"@,
            ) + "). Run 'pin -Sy' or 'pacman -Sy' to synchronize."@,
        )
    } else {
        None
    }
}

pub open spec fn db_warnings(
    repos: Seq<Seq<char>>,
    sync_dir: Seq<char>,
    files: Seq<DbFiles>,
    n: int,
) -> Seq<Seq<char>>
    decreases n,
{
    if n <= 0 {
        Seq::empty()
    } else {
        match db_warning(repos[n - 1], sync_dir, files[n - 1]) {
            Some(w) => db_warnings(repos, sync_dir, files, n - 1).push(w),
            None => db_warnings(repos, sync_dir, files, n - 1),
        }
    }
}

/// `t` is a name under which the package `target` can be depended on: its own name, or one
/// that it provides as installed or in some repository.
pub open spec fn names_target(m: AlpmManager, target: Seq<char>, t: Seq<char>) -> bool {
    ||| t == target
    ||| exists|i: int|
        0 <= i < m.local@.len() && (#[trigger] m.local@[i]).name@ == target && text::texts(
            m.local@[i].provides@,
        ).contains(t)
    ||| exists|d: int|
        0 <= d < m.sync@.len() && match db_pkg(#[trigger] m.sync@[d], target) {
            Some(p) => text::texts(p.provides@).contains(t),
            None => false,
        }
}

/// The installed package `p` depends on `target` or on something that it provides.
pub open spec fn depends_on(m: AlpmManager, p: LocalPackage, target: Seq<char>) -> bool {
    exists|k: int|
        0 <= k < p.depends@.len() && names_target(m, target, (#[trigger] p.depends@[k])@)
}

/// An installed package of this name depends on `target`.
pub open spec fn is_dependent(m: AlpmManager, target: Seq<char>, name: Seq<char>) -> bool {
    exists|i: int|
        0 <= i < m.local@.len() && (#[trigger] m.local@[i]).name@ == name && depends_on(
            m,
            m.local@[i],
            target,
        )
}

impl AlpmManager {
    /// No two installed packages have the same name.
    pub open spec fn distinct(self) -> bool {
        forall|i: int, j: int|
            0 <= i < j < self.local@.len() ==> (#[trigger] self.local@[i]).name@ != (
            #[trigger] self.local@[j]).name@
    }

    /// The repositories in the order of their priority.
    pub fn repos(&self) -> (r: &Vec<String>)
        ensures
            *r == self.repos,
    {
        &self.repos
    }

    /// Puts the configured repositories first, in their order, and keeps the others behind
    /// them.
    pub fn order_repos(discovered: &Vec<String>, repo_order: &Vec<String>) -> (r: Vec<String>)
        ensures
            text::texts(r@) == ordered_repos(text::texts(discovered@), text::texts(repo_order@)),
    {
        if repo_order.len() == 0 {
            return clone_strings(discovered);
        }
        let mut out: Vec<String> = Vec::new();
        assert(text::texts(out@) =~= Seq::<Seq<char>>::empty());
        push_all_new(&mut out, repo_order);
        push_all_new(&mut out, discovered);
        out
    }

    /// The repositories that there are, in the configured order.
    pub fn resolve_repo_order(output: Option<&str>, repo_order: &Vec<String>) -> (r: Vec<String>)
        ensures
            text::texts(r@) == ordered_repos(
                discovered_repos(
                    match output {
                        Some(o) => Some(o@),
                        None => None,
                    },
                ),
                text::texts(repo_order@),
            ),
    {
        let discovered = Self::discover_repos(output);
        Self::order_repos(&discovered, repo_order)
    }

    /// The repositories in the output of a query for them; the standard ones where the query
    /// failed or named none.
    pub fn discover_repos(output: Option<&str>) -> (r: Vec<String>)
        ensures
            text::texts(r@) == discovered_repos(
                match output {
                    Some(o) => Some(o@),
                    None => None,
                },
            ),
    {
        if let Some(o) = output {
            let v = trimmed_lines(o);
            assert(text::texts(v@).len() == v@.len());
            if v.len() > 0 {
                return v;
            }
        }
        let mut v: Vec<String> = Vec::new();
        v.push("core".to_string());
        v.push("extra".to_string());
        v.push("multilib".to_string());
        assert(text::texts(v@) =~= seq!["core"@, "extra"@, "multilib"@]);
        v
    }

    /// The servers in the output of a query for them; none where the query failed.
    pub fn get_mirror_servers(output: Option<&str>) -> (r: Vec<String>)
        ensures
            text::texts(r@) == match output {
                Some(o) => output_lines(o@),
                None => Seq::<Seq<char>>::empty(),
            },
    {
        match output {
            Some(o) => trimmed_lines(o),
            None => {
                let v: Vec<String> = Vec::new();
                assert(text::texts(v@) =~= Seq::<Seq<char>>::empty());
                v
            },
        }
    }

    /// Where the databases are kept, from the output of a query for it.
    pub fn get_dbpath(output: Option<&str>) -> (r: String)
        ensures
            r@ == match output {
                Some(o) => if text::trim(o@).len() == 0 {
                    "/var/lib/pacman"@
                } else {
                    text::trim(o@)
                },
                None => "/var/lib/pacman"@,
            },
    {
        path_from_output(output, "/var/lib/pacman")
    }

    /// The root of the installation, from the output of a query for it.
    pub fn get_rootdir(output: Option<&str>) -> (r: String)
        ensures
            r@ == match output {
                Some(o) => if text::trim(o@).len() == 0 {
                    "/"@
                } else {
                    text::trim(o@)
                },
                None => "/"@,
            },
    {
        path_from_output(output, "/")
    }

    /// Warns of repositories whose databases are missing or empty; `files` tells the state
    /// of the files of each repository in turn.
    pub fn verify_syncdbs(&self, sync_dir: &str, files: &Vec<DbFiles>) -> (r: Vec<String>)
        requires
            files@.len() == self.repos@.len(),
        ensures
            text::texts(r@) == db_warnings(
                text::texts(self.repos@),
                sync_dir@,
                files@,
                self.repos@.len() as int,
            ),
    {
        let mut out: Vec<String> = Vec::new();
        let mut i: usize = 0;
        assert(text::texts(out@) =~= Seq::<Seq<char>>::empty());
        while i < self.repos.len()
            invariant
                i <= self.repos@.len() == files@.len(),
                text::texts(out@) == db_warnings(text::texts(self.repos@), sync_dir@, files@, i as int),
            decreases self.repos@.len() - i,
        {
            let repo = &self.repos[i];
            let f: DbFiles = files[i];
            assert(text::texts(self.repos@)[i as int] == repo@);
            let ghost before = text::texts(out@);
            if (f.db_exists && f.db_empty) || (f.tar_exists && f.tar_empty) {
                let mut w: String = "Repository '[".to_string();
                w.append(repo);
                w.append(
                    "]' sync database is corrupted (0 bytes). Run 'pin -Sy' or 'pacman -Sy' to synchronize.",
                );
                out.push(w);
                assert(text::texts(out@) =~= before.push(w@));
            } else if !f.db_exists && !f.tar_exists {
                let mut file: String = repo.clone();
                file.append(".db");
                let path = join_path(sync_dir, &file);
                let mut w: String = "Repository '[".to_string();
                w.append(repo);
                w.append("]' has no local database file (expected ");
                w.append(&path);
                w.append("). Run 'pin -Sy' or 'pacman -Sy' to synchronize.");
                out.push(w);
                assert(text::texts(out@) =~= before.push(w@));
            }
            i += 1;
        }
        out
    }

    /// The database of the repository `repo`.
    pub fn find_db(&self, repo: &str) -> (r: Option<&SyncDb>)
        ensures
            match r {
                Some(d) => db_from(self.sync@, repo@, 0) is Some && self.sync@[db_from(
                    self.sync@,
                    repo@,
                    0,
                )->0] == *d,
                None => db_from(self.sync@, repo@, 0) is None,
            },
    {
        let mut i: usize = 0;
        while i < self.sync.len()
            invariant
                i <= self.sync@.len(),
                db_from(self.sync@, repo@, 0) == db_from(self.sync@, repo@, i as int),
            decreases self.sync@.len() - i,
        {
            if str_eq(&self.sync[i].name, repo) {
                return Some(&self.sync[i]);
            }
            i += 1;
        }
        None
    }

    /// The package `name` in the repository `repo`.
    pub fn find_sync(&self, repo: &str, name: &str) -> (r: Option<&SyncPackage>)
        ensures
            match r {
                Some(p) => sync_pkg(self.sync@, repo@, name@) == Some(*p),
                None => sync_pkg(self.sync@, repo@, name@) is None,
            },
    {
        match self.find_db(repo) {
            Some(db) => db.pkg(name),
            None => None,
        }
    }

    /// The position of the installed package `name`.
    pub fn local_index(&self, name: &str) -> (r: Option<usize>)
        ensures
            match r {
                Some(i) => local_from(self.local@, name@, 0) == Some(i as int) && i
                    < self.local@.len() && self.local@[i as int].name@ == name@,
                None => local_from(self.local@, name@, 0) is None && forall|j: int|
                    0 <= j < self.local@.len() ==> (#[trigger] self.local@[j]).name@ != name@,
            },
    {
        let mut i: usize = 0;
        while i < self.local.len()
            invariant
                i <= self.local@.len(),
                local_from(self.local@, name@, 0) == local_from(self.local@, name@, i as int),
                forall|j: int| 0 <= j < i ==> (#[trigger] self.local@[j]).name@ != name@,
            decreases self.local@.len() - i,
        {
            if str_eq(&self.local[i].name, name) {
                return Some(i);
            }
            i += 1;
        }
        None
    }

    /// Whether some repository has a package of this name.
    pub fn is_in_sync(&self, name: &str) -> (r: bool)
        ensures
            r == in_some_db(self.sync@, name@),
    {
        let mut d: usize = 0;
        while d < self.sync.len()
            invariant
                d <= self.sync@.len(),
                forall|e: int| 0 <= e < d ==> db_pkg(#[trigger] self.sync@[e], name@) is None,
            decreases self.sync@.len() - d,
        {
            if self.sync[d].pkg(name).is_some() {
                assert(db_pkg(self.sync@[d as int], name@) is Some);
                return true;
            }
            d += 1;
        }
        false
    }

    /// Whether a dependency on `t` can be one on `target`.
    fn is_name_of(&self, target: &str, t: &str) -> (r: bool)
        ensures
            r == names_target(*self, target@, t@),
    {
        if str_eq(t, target) {
            return true;
        }
        let mut i: usize = 0;
        while i < self.local.len()
            invariant
                i <= self.local@.len(),
                forall|j: int|
                    0 <= j < i ==> !((#[trigger] self.local@[j]).name@ == target@ && text::texts(
                        self.local@[j].provides@,
                    ).contains(t@)),
            decreases self.local@.len() - i,
        {
            if str_eq(&self.local[i].name, target) && list_contains(&self.local[i].provides, t) {
                assert(self.local@[i as int].name@ == target@);
                return true;
            }
            i += 1;
        }
        let mut d: usize = 0;
        while d < self.sync.len()
            invariant
                d <= self.sync@.len(),
                forall|e: int|
                    0 <= e < d ==> !(match db_pkg(#[trigger] self.sync@[e], target@) {
                        Some(p) => text::texts(p.provides@).contains(t@),
                        None => false,
                    }),
            decreases self.sync@.len() - d,
        {
            if let Some(p) = self.sync[d].pkg(target) {
                if list_contains(&p.provides, t) {
                    assert(db_pkg(self.sync@[d as int], target@) is Some);
                    return true;
                }
            }
            d += 1;
        }
        false
    }

    /// The installed packages that depend on `target_pkg`, or on something that it provides,
    /// in the order of their names.
    pub fn get_dependents(&self, target_pkg: &str) -> (r: Vec<String>)
        ensures
            text::ascending(text::texts(r@)),
            forall|t: Seq<char>| #[trigger]
                text::texts(r@).contains(t) <==> is_dependent(*self, target_pkg@, t),
    {
        let mut out: Vec<String> = Vec::new();
        let mut i: usize = 0;
        while i < self.local.len()
            invariant
                i <= self.local@.len(),
                text::ascending(text::texts(out@)),
                forall|t: Seq<char>| #[trigger]
                    text::texts(out@).contains(t) <==> exists|j: int|
                        0 <= j < i && (#[trigger] self.local@[j]).name@ == t && depends_on(
                            *self,
                            self.local@[j],
                            target_pkg@,
                        ),
            decreases self.local@.len() - i,
        {
            let p = &self.local[i];
            let mut hit: bool = false;
            let mut k: usize = 0;
            while k < p.depends.len() && !hit
                invariant
                    k <= p.depends@.len(),
                    hit ==> depends_on(*self, *p, target_pkg@),
                    !hit ==> forall|l: int|
                        0 <= l < k ==> !names_target(
                            *self,
                            target_pkg@,
                            (#[trigger] p.depends@[l])@,
                        ),
                decreases p.depends@.len() - k,
            {
                if self.is_name_of(target_pkg, &p.depends[k]) {
                    assert(names_target(*self, target_pkg@, p.depends@[k as int]@));
                    hit = true;
                }
                k += 1;
            }
            let ghost before = text::texts(out@);
            if hit {
                insert_ascending(&mut out, p.name.clone());
            }
            proof {
                assert forall|t: Seq<char>| #[trigger]
                    text::texts(out@).contains(t) <==> exists|j: int|
                        0 <= j < i + 1 && (#[trigger] self.local@[j]).name@ == t && depends_on(
                            *self,
                            self.local@[j],
                            target_pkg@,
                        ) by {
                    if text::texts(out@).contains(t) {
                        if before.contains(t) {
                            let j = choose|j: int|
                                0 <= j < i && (#[trigger] self.local@[j]).name@ == t && depends_on(
                                    *self,
                                    self.local@[j],
                                    target_pkg@,
                                );
                            assert(self.local@[j].name@ == t);
                        } else {
                            assert(self.local@[i as int].name@ == t);
                        }
                    }
                    if exists|j: int|
                        0 <= j < i + 1 && (#[trigger] self.local@[j]).name@ == t && depends_on(
                            *self,
                            self.local@[j],
                            target_pkg@,
                        ) {
                        let j = choose|j: int|
                            0 <= j < i + 1 && (#[trigger] self.local@[j]).name@ == t && depends_on(
                                *self,
                                self.local@[j],
                                target_pkg@,
                            );
                        if j < i {
                            assert(before.contains(t));
                        }
                    }
                }
            }
            i += 1;
        }
        out
    }
}

// ---------------------------------------------------------------------------------------
// Companions

/// `name` begins with `stem` and a hyphen.
pub open spec fn part_of(name: Seq<char>, stem: Seq<char>) -> bool {
    text::begins(name, stem + "-"@)
}

fn is_part_of(name: &str, stem: &str) -> (r: bool)
    ensures
        r == part_of(name@, stem@),
{
    let mut prefix: String = stem.to_string();
    prefix.append("-");
    starts_with(name, &prefix)
}

pub open spec fn text_or(o: Option<String>, other: Seq<char>) -> Seq<char> {
    match o {
        Some(s) => s@,
        None => other,
    }
}

/// The name of one of the dependencies `deps`, whose version constraints do not count.
pub open spec fn among_deps(deps: Seq<String>, name: Seq<char>) -> bool {
    exists|k: int| 0 <= k < deps.len() && aur::dep_name((#[trigger] deps[k])@) == name
}

/// An installed package that goes along when `pkg` is pinned to the AUR: a direct dependency,
/// or one whose name extends that of the package or of its base; but not one that is pinned
/// to the AUR already.
pub open spec fn aur_companion(
    m: AlpmManager,
    pkg: Seq<char>,
    item: AurItem,
    pins: Seq<(Seq<char>, String)>,
    name: Seq<char>,
) -> bool {
    &&& exists|i: int| 0 <= i < m.local@.len() && (#[trigger] m.local@[i]).name@ == name
    &&& name != pkg
    &&& !(match strmap::lookup(pins, name) {
        Some(r) => text::same_ignoring_case(r@, "aur"@),
        None => false,
    })
    &&& {
        ||| among_deps(item.depends@, name)
        ||| part_of(name, pkg)
        ||| part_of(name, text_or(item.package_base, pkg))
    }
}

/// The pin at `k` keeps `name` in `repo`.
pub open spec fn pin_covers(
    pins: Seq<(Seq<char>, String)>,
    repo: Seq<char>,
    name: Seq<char>,
    k: int,
) -> bool {
    pins[k].1@ == repo && (pins[k].0 == name || (patterns::is_glob(pins[k].0) && patterns::glob_hit(pins[k].0, name)))
}

pub open spec fn kept_in(pins: Seq<(Seq<char>, String)>, repo: Seq<char>, name: Seq<char>) -> bool {
    exists|k: int| 0 <= k < pins.len() && #[trigger] pin_covers(pins, repo, name, k)
}

/// The package `p` of the repository `repo` goes along when `target` of the same repository
/// is pinned to it: both have the same base, or its name extends that of the target or of
/// the target's base; it is installed, or the target depends on it; and no pin keeps it in
/// this repository already.
pub open spec fn sync_companion(
    m: AlpmManager,
    target: SyncPackage,
    pkg: Seq<char>,
    repo: Seq<char>,
    pins: Seq<(Seq<char>, String)>,
    p: SyncPackage,
) -> bool {
    let base = text_or(target.base, pkg);
    let name = p.name@;
    &&& name != pkg
    &&& !kept_in(pins, repo, name)
    &&& (text_or(p.base, name) == base || part_of(name, pkg) || part_of(name, base))
    &&& {
        ||| exists|i: int| 0 <= i < m.local@.len() && (#[trigger] m.local@[i]).name@ == name
        ||| text::texts(target.depends@).contains(name)
    }
}

/// `name` goes along when `pkg` is pinned to `repo`, where `aur` is what the AUR has of
/// `pkg`.
pub open spec fn companion(
    m: AlpmManager,
    pkg: Seq<char>,
    repo: Seq<char>,
    pins: Seq<(Seq<char>, String)>,
    aur: Option<AurItem>,
    name: Seq<char>,
) -> bool {
    if text::same_ignoring_case(repo, "aur"@) {
        match aur {
            Some(item) => aur_companion(m, pkg, item, pins, name),
            None => false,
        }
    } else {
        match db_from(m.sync@, repo, 0) {
            Some(d) => match db_pkg(m.sync@[d], pkg) {
                Some(target) => exists|i: int|
                    0 <= i < m.sync@[d].pkgs@.len() && (#[trigger] m.sync@[d].pkgs@[i]).name@
                        == name && sync_companion(
                        m,
                        target,
                        pkg,
                        repo,
                        pins,
                        m.sync@[d].pkgs@[i],
                    ),
                None => false,
            },
            None => false,
        }
    }
}

fn is_kept_in(pins: &StrMap<String>, repo: &str, name: &str) -> (r: bool)
    ensures
        r == kept_in(pins@, repo@, name@),
{
    let mut k: usize = 0;
    while k < pins.len()
        invariant
            k <= pins@.len(),
            forall|l: int| 0 <= l < k ==> !#[trigger] pin_covers(pins@, repo@, name@, l),
        decreases pins@.len() - k,
    {
        if str_eq(pins.value_at(k), repo) {
            let pattern = pins.key_at(k);
            if str_eq(pattern, name) || (has_glob_chars(pattern) && matches_glob(pattern, name)) {
                assert(pin_covers(pins@, repo@, name@, k as int));
                return true;
            }
        }
        k += 1;
    }
    false
}

fn is_among_deps(deps: &Vec<String>, name: &str) -> (r: bool)
    ensures
        r == among_deps(deps@, name@),
{
    let mut k: usize = 0;
    while k < deps.len()
        invariant
            k <= deps@.len(),
            forall|l: int| 0 <= l < k ==> aur::dep_name((#[trigger] deps@[l])@) != name@,
        decreases deps@.len() - k,
    {
        let d = clean_dep_name(&deps[k]);
        if str_eq(&d, name) {
            assert(aur::dep_name(deps@[k as int]@) == name@);
            return true;
        }
        k += 1;
    }
    false
}

impl AlpmManager {
    fn aur_companions(&self, pkg_name: &str, item: &AurItem, pins: &StrMap<String>) -> (r: Vec<
        String,
    >)
        ensures
            text::ascending(text::texts(r@)),
            forall|t: Seq<char>| #[trigger]
                text::texts(r@).contains(t) <==> aur_companion(*self, pkg_name@, *item, pins@, t),
    {
        let base: String = match &item.package_base {
            Some(b) => b.clone(),
            None => pkg_name.to_string(),
        };
        let mut out: Vec<String> = Vec::new();
        let mut i: usize = 0;
        while i < self.local.len()
            invariant
                i <= self.local@.len(),
                base@ == text_or(item.package_base, pkg_name@),
                text::ascending(text::texts(out@)),
                forall|t: Seq<char>| #[trigger]
                    text::texts(out@).contains(t) <==> aur_companion(*self, pkg_name@, *item, pins@, t)
                        && exists|j: int| 0 <= j < i && (#[trigger] self.local@[j]).name@ == t,
            decreases self.local@.len() - i,
        {
            let name = &self.local[i].name;
            let ghost before = text::texts(out@);
            let pinned: bool = match pins.get(name) {
                Some(r) => eq_ignore_case(r, "aur"),
                None => false,
            };
            let takes: bool = !str_eq(name, pkg_name) && !pinned && (is_among_deps(
                &item.depends,
                name,
            ) || is_part_of(name, pkg_name) || is_part_of(name, &base));
            assert(self.local@[i as int].name@ == name@);
            assert(takes == aur_companion(*self, pkg_name@, *item, pins@, name@));
            if takes {
                insert_ascending(&mut out, name.clone());
            }
            proof {
                assert forall|t: Seq<char>| #[trigger]
                    text::texts(out@).contains(t) <==> aur_companion(*self, pkg_name@, *item, pins@, t)
                        && exists|j: int| 0 <= j < i + 1 && (#[trigger] self.local@[j]).name@ == t by {
                    if text::texts(out@).contains(t) && before.contains(t) {
                        let j = choose|j: int| 0 <= j < i && (#[trigger] self.local@[j]).name@ == t;
                        assert(self.local@[j].name@ == t);
                    }
                    if exists|j: int| 0 <= j < i + 1 && (#[trigger] self.local@[j]).name@ == t {
                        let j = choose|j: int|
                            0 <= j < i + 1 && (#[trigger] self.local@[j]).name@ == t;
                        if aur_companion(*self, pkg_name@, *item, pins@, t) && j < i {
                            assert(before.contains(t));
                        }
                    }
                }
            }
            i += 1;
        }
        out
    }

    /// The packages that go along when a package is pinned to a repository, in the order of
    /// their names; `aur` is what the AUR has of the package.
    pub fn find_companions(
        &self,
        pkg_name: &str,
        repo: &str,
        pins: &StrMap<String>,
        aur: Option<&AurItem>,
    ) -> (r: Vec<String>)
        ensures
            text::ascending(text::texts(r@)),
            forall|t: Seq<char>| #[trigger]
                text::texts(r@).contains(t) <==> companion(
                    *self,
                    pkg_name@,
                    repo@,
                    pins@,
                    match aur {
                        Some(x) => Some(*x),
                        None => None,
                    },
                    t,
                ),
    {
        if eq_ignore_case(repo, "aur") {
            return match aur {
                Some(item) => self.aur_companions(pkg_name, item, pins),
                None => Vec::new(),
            };
        }
        let db = match self.find_db(repo) {
            Some(d) => d,
            None => {
                return Vec::new();
            },
        };
        let target = match db.pkg(pkg_name) {
            Some(p) => p,
            None => {
                return Vec::new();
            },
        };
        let base: String = match &target.base {
            Some(b) => b.clone(),
            None => pkg_name.to_string(),
        };
        let ghost pkgs = db.pkgs@;
        let mut out: Vec<String> = Vec::new();
        let mut i: usize = 0;
        while i < db.pkgs.len()
            invariant
                i <= pkgs.len(),
                pkgs == db.pkgs@,
                base@ == text_or(target.base, pkg_name@),
                text::ascending(text::texts(out@)),
                forall|t: Seq<char>| #[trigger]
                    text::texts(out@).contains(t) <==> exists|j: int|
                        0 <= j < i && (#[trigger] pkgs[j]).name@ == t && sync_companion(
                            *self,
                            *target,
                            pkg_name@,
                            repo@,
                            pins@,
                            pkgs[j],
                        ),
            decreases pkgs.len() - i,
        {
            let p = &db.pkgs[i];
            let name = &p.name;
            let ghost before = text::texts(out@);
            let mut takes: bool = false;
            if !str_eq(name, pkg_name) && !is_kept_in(pins, repo, name) {
                let same_base: bool = match &p.base {
                    Some(b) => str_eq(b, &base),
                    None => str_eq(name, &base),
                };
                if same_base || is_part_of(name, pkg_name) || is_part_of(name, &base) {
                    let at = self.local_index(name);
                    proof {
                        if let Some(k) = at {
                            assert(self.local@[k as int].name@ == name@);
                        }
                    }
                    takes = at.is_some() || list_contains(&target.depends, name);
                }
            }
            assert(takes == sync_companion(*self, *target, pkg_name@, repo@, pins@, *p));
            if takes {
                insert_ascending(&mut out, name.clone());
            }
            proof {
                assert forall|t: Seq<char>| #[trigger]
                    text::texts(out@).contains(t) <==> exists|j: int|
                        0 <= j < i + 1 && (#[trigger] pkgs[j]).name@ == t && sync_companion(
                            *self,
                            *target,
                            pkg_name@,
                            repo@,
                            pins@,
                            pkgs[j],
                        ) by {
                    if text::texts(out@).contains(t) {
                        if before.contains(t) {
                            let j = choose|j: int|
                                0 <= j < i && (#[trigger] pkgs[j]).name@ == t && sync_companion(
                                    *self,
                                    *target,
                                    pkg_name@,
                                    repo@,
                                    pins@,
                                    pkgs[j],
                                );
                            assert(pkgs[j].name@ == t);
                        } else {
                            assert(pkgs[i as int].name@ == t);
                        }
                    }
                    if exists|j: int|
                        0 <= j < i + 1 && (#[trigger] pkgs[j]).name@ == t && sync_companion(
                            *self,
                            *target,
                            pkg_name@,
                            repo@,
                            pins@,
                            pkgs[j],
                        ) {
                        let j = choose|j: int|
                            0 <= j < i + 1 && (#[trigger] pkgs[j]).name@ == t && sync_companion(
                                *self,
                                *target,
                                pkg_name@,
                                repo@,
                                pins@,
                                pkgs[j],
                            );
                        if j < i {
                            assert(before.contains(t));
                        }
                    }
                }
            }
            i += 1;
        }
        out
    }
}

} // verus!
