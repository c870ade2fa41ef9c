//! The journal of transactions: what was done, and how it can be undone.
use crate::db::trimmed_lines;
use crate::db;
use crate::dispatch::Incomplete;
use crate::extract::steps_of;
use crate::extract;
use crate::paths::join_path;
use crate::paths;
use crate::pm::CommandLine;
use crate::pm;
use crate::resolver;
use crate::text::{ends_with, eq_ignore_case, no_strings, number_text, push_str, split_string, starts_with, str_eq, text3, trimmed};
use crate::text;
use crate::upgrade::UpgradeRecord;
use crate::utils::{is_safe_pkg_name, is_safe_version};
use crate::utils;
use vstd::prelude::*;
use vstd::string::*;

verus! {

/// What is recorded of one package; which parts there are depends on the kind of transaction.
#[derive(Debug, Clone)]
pub struct RecordedPackage {
    pub name: Option<String>,
    pub from_repo: Option<String>,
    pub from_version: Option<String>,
    pub to_repo: Option<String>,
    pub to_version: Option<String>,
    pub state: Option<String>,
    pub restored_version: Option<String>,
    pub target: Option<String>,
    pub path: Option<String>,
    /// The package was removed as an orphan.
    pub removed: bool,
}

/// One transaction.
#[derive(Debug, Clone)]
pub struct TransactionRecord {
    pub id: usize,
    pub timestamp: String,
    pub action: String,
    pub command: String,
    pub total_packages: usize,
    pub packages: Vec<RecordedPackage>,
}

pub struct TransactionJournal;

/// A package to be restored: its name, its version and its archive.
#[derive(Debug, Clone)]
pub struct Restore {
    pub name: String,
    pub version: String,
    pub path: String,
}

/// The directory of the program's state below the home directory.
pub open spec fn state_path(home: Seq<char>) -> Seq<char> {
    paths::joined(paths::joined(paths::joined(home, ".local"@), "state"@), "pacpin"@)
}

/// What stands behind the last colon of a version, or all of it.
pub open spec fn without_epoch(version: Seq<char>) -> Seq<char> {
    text::split_on(version, ':').last()
}

/// The versions to look for in file names: with the epoch, where it is there and can stand in
/// a file name, and without it.
pub open spec fn cached_versions(version: Seq<char>) -> Seq<Seq<char>> {
    let bare = without_epoch(version);
    if bare != version && utils::safe_version(version) {
        Seq::empty().push(version).push(bare)
    } else {
        Seq::empty().push(bare)
    }
}

pub open spec fn archive_pattern(dir: Seq<char>, pkg: Seq<char>, version: Seq<char>, ext: Seq<char>) -> Seq<
    char,
> {
    dir + "/"@ + pkg + "-"@ + version + "-*.pkg.tar."@ + ext
}

pub open spec fn version_patterns(dir: Seq<char>, pkg: Seq<char>, versions: Seq<Seq<char>>, n: int) -> Seq<
    Seq<char>,
>
    decreases n,
{
    if n <= 0 {
        Seq::empty()
    } else {
        version_patterns(dir, pkg, versions, n - 1).push(
            archive_pattern(dir, pkg, versions[n - 1], "zst"@),
        ).push(archive_pattern(dir, pkg, versions[n - 1], "xz"@)).push(
            archive_pattern(dir, pkg, versions[n - 1], "gz"@),
        )
    }
}

/// The transactions from the `from`-th on.
pub open spec fn found_id(txs: Seq<TransactionRecord>, id: usize, from: int) -> Option<int>
    decreases txs.len() - from,
{
    if from < 0 || from >= txs.len() {
        None
    } else if txs[from].id == id {
        Some(from)
    } else {
        found_id(txs, id, from + 1)
    }
}

/// The first of the trimmed lines, from the last one up, that is a record.
pub open spec fn last_record(ids: Seq<Option<usize>>, n: int) -> Option<usize>
    decreases n,
{
    if n <= 0 {
        None
    } else if ids[n - 1] is Some {
        ids[n - 1]
    } else {
        last_record(ids, n - 1)
    }
}

/// The last of the transactions from `low` on, up to the `n`-th, that can be rolled back as a
/// matter of course.
pub open spec fn last_change(txs: Seq<TransactionRecord>, low: int, n: int) -> Option<int>
    decreases n,
{
    if n <= low || n <= 0 {
        None
    } else if txs[n - 1].action@ == "upgrade"@ || txs[n - 1].action@ == "install"@ {
        Some(n - 1)
    } else {
        last_change(txs, low, n - 1)
    }
}

/// Only the last 100 transactions are considered where none is named.
pub open spec fn recent_from(count: int, limit: int) -> int {
    if count > limit {
        count - limit
    } else {
        0
    }
}

/// The transaction to roll back, or why there is none.
pub open spec fn rollback_choice(txs: Seq<TransactionRecord>, id: Option<usize>) -> Result<
    int,
    Seq<char>,
> {
    let n = txs.len() as int;
    if n == 0 {
        Err("No transaction history found in history.jsonl."@)
    } else {
        match id {
            Some(i) => match found_id(txs, i, 0) {
                Some(k) => Ok(k),
                None => Err("Error: Transaction #"@ + text::digits_of(i as nat) + " not found."@),
            },
            None => match last_change(txs, recent_from(n, 100), n) {
                Some(k) => Ok(k),
                None => Ok(n - 1),
            },
        }
    }
}

pub open spec fn name_or(p: RecordedPackage, other: Seq<char>) -> Seq<char> {
    match p.name {
        Some(n) => n@,
        None => other,
    }
}

/// The archives that were found, among those of the first `n` packages that had a version
/// before: name, version and path.
pub open spec fn restorable(ps: Seq<RecordedPackage>, cached: Seq<Option<String>>, n: int) -> Seq<
    (Seq<char>, Seq<char>, Seq<char>),
>
    decreases n,
{
    if n <= 0 {
        Seq::empty()
    } else {
        match (ps[n - 1].from_version, cached[n - 1]) {
            (Some(v), Some(p)) => restorable(ps, cached, n - 1).push(
                (name_or(ps[n - 1], Seq::empty()), v@, p@),
            ),
            _ => restorable(ps, cached, n - 1),
        }
    }
}

/// The packages whose archives were not found: name and version.
pub open spec fn unrestorable(ps: Seq<RecordedPackage>, cached: Seq<Option<String>>, n: int) -> Seq<
    (Seq<char>, Seq<char>),
>
    decreases n,
{
    if n <= 0 {
        Seq::empty()
    } else {
        match (ps[n - 1].from_version, cached[n - 1]) {
            (Some(v), None) => unrestorable(ps, cached, n - 1).push(
                (name_or(ps[n - 1], Seq::empty()), v@),
            ),
            _ => unrestorable(ps, cached, n - 1),
        }
    }
}

pub open spec fn restores(v: Seq<Restore>) -> Seq<(Seq<char>, Seq<char>, Seq<char>)> {
    Seq::new(v.len(), |i: int| (v[i].name@, v[i].version@, v[i].path@))
}

pub open spec fn restore_paths(v: Seq<(Seq<char>, Seq<char>, Seq<char>)>) -> Seq<Seq<char>> {
    Seq::new(v.len(), |i: int| v[i].2)
}

/// What is found out before a rollback.
#[derive(Debug, Clone)]
pub struct RollbackPlan {
    pub restore: Vec<Restore>,
    pub missing: Vec<(String, String)>,
}

/// What to do about a rollback.
#[derive(Debug, Clone, Copy, PartialEq, Eq, Structural)]
pub enum RollbackStep {
    /// Archives are missing, and a partial rollback was not asked for.
    Incomplete,
    /// There is nothing to restore.
    Nothing,
    /// Only show the command.
    Show,
    /// The database is locked.
    Locked,
    /// Ask first.
    Ask,
    Run,
}

/// The words behind `sudo` that restore these archives.
pub open spec fn restore_words(paths: Seq<Seq<char>>, noconfirm: bool) -> Seq<Seq<char>> {
    Seq::empty().push("pacman"@).push("-U"@).push("--needed"@) + (if noconfirm {
        Seq::empty().push("--noconfirm"@)
    } else {
        Seq::empty()
    }) + paths
}

/// A path that lies below a directory, both from the root on.
pub open spec fn lies_below(path: Seq<char>, dir: Seq<char>) -> bool {
    let p = extract::path_steps(path);
    let d = extract::path_steps(dir);
    &&& text::begins(path, "/"@)
    &&& text::begins(dir, "/"@)
    &&& d.len() <= p.len()
    &&& p.take(d.len() as int) == d
}

/// A file that fits a pattern for an archive: its path, its name, and its path with all links
/// resolved, if they can be; and the cache directory, resolved too.
#[derive(Debug, Clone)]
pub struct FoundArchive {
    pub path: String,
    pub file_name: String,
    pub canon: Option<String>,
    pub dir_canon: String,
}

/// An archive, no signature, that really lies in the cache directory.
pub open spec fn usable(f: FoundArchive) -> bool {
    !text::ends(f.file_name@, ".sig"@) && f.canon is Some && lies_below(f.canon->0@, f.dir_canon@)
}

/// The first usable one of the files, from the `i`-th on.
pub open spec fn first_usable(found: Seq<FoundArchive>, i: int) -> Option<Seq<char>>
    decreases found.len() - i,
{
    if i < 0 || i >= found.len() {
        None
    } else if usable(found[i]) {
        Some(found[i].path@)
    } else {
        first_usable(found, i + 1)
    }
}

fn is_usable(file_name: &str, canon: Option<&str>, dir_canon: &str) -> (r: bool)
    ensures
        r == (!text::ends(file_name@, ".sig"@) && canon is Some && lies_below(canon->0@, dir_canon@)),
{
    if ends_with(file_name, ".sig") {
        return false;
    }
    match canon {
        None => false,
        Some(c) => {
            if !starts_with(c, "/") || !starts_with(dir_canon, "/") {
                return false;
            }
            let p = steps_of(c);
            let d = steps_of(dir_canon);
            let ghost ps = text::texts(p@);
            let ghost ds = text::texts(d@);
            assert(ps.len() == p@.len() && ds.len() == d@.len());
            if d.len() > p.len() {
                return false;
            }
            let mut i: usize = 0;
            while i < d.len()
                invariant
                    i <= d@.len() <= p@.len(),
                    ps == text::texts(p@),
                    ds == text::texts(d@),
                    canon == Some(c),
                    !text::ends(file_name@, ".sig"@),
                    text::begins(c@, "/"@),
                    text::begins(dir_canon@, "/"@),
                    ps.len() == p@.len(),
                    ds.len() == d@.len(),
                    ps == extract::path_steps(c@),
                    ds == extract::path_steps(dir_canon@),
                    forall|j: int| 0 <= j < i ==> ps[j] == ds[j],
                decreases d@.len() - i,
            {
                assert(ps[i as int] == p@[i as int]@);
                assert(ds[i as int] == d@[i as int]@);
                if !str_eq(&p[i], &d[i]) {
                    assert(ps.take(ds.len() as int)[i as int] != ds[i as int]);
                    return false;
                }
                i += 1;
            }
            assert(ps.take(ds.len() as int) =~= ds);
            true
        },
    }
}

impl TransactionJournal {
    /// The directory of the program's state.
    pub fn state_dir(home: Option<&str>) -> (r: Result<String, String>)
        ensures
            match home {
                Some(h) => r is Ok && r->Ok_0@ == state_path(h@),
                None => r is Err && r->Err_0@ == "Environment variable HOME is not set"@,
            },
    {
        match home {
            Some(h) => {
                let a = join_path(h, ".local");
                let b = join_path(&a, "state");
                Ok(join_path(&b, "pacpin"))
            },
            None => Err("Environment variable HOME is not set".to_string()),
        }
    }

    /// The file that the transactions are recorded in.
    pub fn history_file(home: Option<&str>) -> (r: Result<String, String>)
        ensures
            match home {
                Some(h) => r is Ok && r->Ok_0@ == paths::joined(state_path(h@), "history.jsonl"@),
                None => r is Err && r->Err_0@ == "Environment variable HOME is not set"@,
            },
    {
        match Self::state_dir(home) {
            Ok(d) => Ok(join_path(&d, "history.jsonl")),
            Err(e) => Err(e),
        }
    }

    /// The cache directories in the output of a query for them; the usual one where the query
    /// failed or named none.
    pub fn get_cache_dirs(output: Option<&str>) -> (r: Vec<String>)
        ensures
            text::texts(r@) == match output {
                Some(o) => if db::output_lines(o@).len() == 0 {
                    seq!["/var/cache/pacman/pkg"@]
                } else {
                    db::output_lines(o@)
                },
                None => seq!["/var/cache/pacman/pkg"@],
            },
    {
        let mut dirs = match output {
            Some(o) => trimmed_lines(o),
            None => no_strings(),
        };
        assert(text::texts(dirs@).len() == dirs@.len());
        if dirs.len() == 0 {
            push_str(&mut dirs, "/var/cache/pacman/pkg");
            assert(text::texts(dirs@) =~= seq!["/var/cache/pacman/pkg"@]);
        }
        dirs
    }

    pub fn is_safe_pkg_name(name: &str) -> (r: bool)
        ensures
            r == utils::safe_pkg_name(name@),
    {
        is_safe_pkg_name(name)
    }

    pub fn is_safe_version(ver: &str) -> (r: bool)
        ensures
            r == utils::safe_version(ver@),
    {
        is_safe_version(ver)
    }

    /// The patterns of the archives to look for in a cache directory, in this order; none for
    /// names and versions that must not stand in a path.
    pub fn cached_package_patterns(dir: &str, pkg_name: &str, version: &str) -> (r: Vec<String>)
        ensures
            text::texts(r@) == if !utils::safe_pkg_name(pkg_name@) || !utils::safe_version(without_epoch(version@)) {
                Seq::empty()
            } else {
                version_patterns(
                    dir@,
                    pkg_name@,
                    cached_versions(version@),
                    cached_versions(version@).len() as int,
                )
            },
    {
        let parts = split_string(version, ':');
        let n: usize = parts.len();
        assert(text::texts(parts@).last() == parts@[n - 1]@);
        let bare: &str = parts[n - 1].as_str();
        if !is_safe_pkg_name(pkg_name) || !is_safe_version(bare) {
            return no_strings();
        }
        let mut versions = no_strings();
        if !str_eq(bare, version) && is_safe_version(version) {
            push_str(&mut versions, version);
        }
        push_str(&mut versions, bare);
        assert(text::texts(versions@) =~= cached_versions(version@));
        let ghost all = text::texts(versions@);
        let mut out = no_strings();
        let mut i: usize = 0;
        while i < versions.len()
            invariant
                i <= versions@.len(),
                all == text::texts(versions@),
                text::texts(out@) == version_patterns(dir@, pkg_name@, all, i as int),
            decreases versions@.len() - i,
        {
            assert(all[i as int] == versions@[i as int]@);
            let ghost before = text::texts(out@);
            let a = text3(dir, "/", pkg_name);
            let b = text3(&a, "-", &versions[i]);
            let zst = text3(&b, "-*.pkg.tar.", "zst");
            let xz = text3(&b, "-*.pkg.tar.", "xz");
            let gz = text3(&b, "-*.pkg.tar.", "gz");
            push_str(&mut out, &zst);
            push_str(&mut out, &xz);
            push_str(&mut out, &gz);
            assert(text::texts(out@) =~= before.push(zst@).push(xz@).push(gz@));
            i += 1;
        }
        out
    }

    /// The archive to use among the files that were found, in the order in which they were.
    pub fn find_cached_package(found: &Vec<FoundArchive>) -> (r: Option<String>)
        ensures
            text::opt_text(r) == first_usable(found@, 0),
    {
        let mut i: usize = 0;
        while i < found.len()
            invariant
                i <= found@.len(),
                first_usable(found@, 0) == first_usable(found@, i as int),
            decreases found@.len() - i,
        {
            let canon: Option<&str> = match &found[i].canon {
                Some(c) => Some(c.as_str()),
                None => None,
            };
            if is_usable(&found[i].file_name, canon, &found[i].dir_canon) {
                return Some(found[i].path.clone());
            }
            i += 1;
        }
        None
    }

    /// How much of the end of a journal of this length is searched for the last record.
    pub fn tail_size(len: u64) -> (r: u64)
        ensures
            r == if len < 8192 {
                len
            } else {
                8192
            },
    {
        if len < 8192 {
            len
        } else {
            8192
        }
    }

    /// The id of the last record, given for each line in turn the id of its record, if it is
    /// one.
    pub fn get_last_transaction_id(ids: &Vec<Option<usize>>) -> (r: Option<usize>)
        ensures
            r == last_record(ids@, ids@.len() as int),
    {
        let mut i: usize = ids.len();
        while i > 0
            invariant
                i <= ids@.len(),
                last_record(ids@, ids@.len() as int) == last_record(ids@, i as int),
            decreases i,
        {
            if ids[i - 1].is_some() {
                return ids[i - 1];
            }
            i -= 1;
        }
        None
    }

    /// The id of the next transaction.
    pub fn next_id(last: Option<usize>) -> (r: usize)
        requires
            last != Some(usize::MAX),
        ensures
            r == match last {
                Some(id) => id + 1,
                None => 1,
            },
    {
        match last {
            Some(id) => id + 1,
            None => 1,
        }
    }

    /// The record of a transaction.
    pub fn record_transaction(
        last: Option<usize>,
        timestamp: &str,
        action: &str,
        packages: Vec<RecordedPackage>,
        command: &str,
    ) -> (r: TransactionRecord)
        requires
            last != Some(usize::MAX),
        ensures
            r.id == (match last {
                Some(id) => id + 1,
                None => 1,
            }),
            r.timestamp@ == timestamp@,
            r.action@ == action@,
            r.command@ == command@,
            r.total_packages == packages@.len(),
            r.packages == packages,
    {
        TransactionRecord {
            id: Self::next_id(last),
            timestamp: timestamp.to_string(),
            action: action.to_string(),
            command: command.to_string(),
            total_packages: packages.len(),
            packages,
        }
    }

    /// The last transactions, no more than `limit` of them, oldest first.
    pub fn list_transactions(txs: Vec<TransactionRecord>, limit: usize) -> (r: Vec<
        TransactionRecord,
    >)
        ensures
            r@ == txs@.skip(recent_from(txs@.len() as int, limit as int)),
    {
        let mut all = txs;
        let n: usize = all.len();
        if n > limit {
            let ghost before = all@;
            let tail = all.split_off(n - limit);
            assert(tail@ =~= before.skip(n - limit));
            tail
        } else {
            assert(all@ =~= all@.skip(0));
            all
        }
    }

    /// The place of the transaction with this id.
    pub fn get_transaction(txs: &Vec<TransactionRecord>, tx_id: usize) -> (r: Option<usize>)
        ensures
            match r {
                Some(k) => found_id(txs@, tx_id, 0) == Some(k as int) && k < txs@.len(),
                None => found_id(txs@, tx_id, 0) is None,
            },
    {
        let mut i: usize = 0;
        while i < txs.len()
            invariant
                i <= txs@.len(),
                found_id(txs@, tx_id, 0) == found_id(txs@, tx_id, i as int),
            decreases txs@.len() - i,
        {
            if txs[i].id == tx_id {
                return Some(i);
            }
            i += 1;
        }
        None
    }

    /// The transaction to roll back: the one that was named, else the last upgrade or
    /// installation among the last hundred, else the last one.
    pub fn rollback_target(txs: &Vec<TransactionRecord>, tx_id: Option<usize>) -> (r: Result<
        usize,
        String,
    >)
        ensures
            match r {
                Ok(k) => rollback_choice(txs@, tx_id) == Ok::<int, Seq<char>>(k as int) && k
                    < txs@.len(),
                Err(e) => rollback_choice(txs@, tx_id) == Err::<int, Seq<char>>(e@),
            },
    {
        let n: usize = txs.len();
        if n == 0 {
            return Err("No transaction history found in history.jsonl.".to_string());
        }
        match tx_id {
            Some(id) => match Self::get_transaction(txs, id) {
                Some(k) => Ok(k),
                None => {
                    let d = number_text(id as u64);
                    Err(text3("Error: Transaction #", &d, " not found."))
                },
            },
            None => {
                let low: usize = if n > 100 {
                    n - 100
                } else {
                    0
                };
                let mut i: usize = n;
                while i > low
                    invariant
                        low <= i <= n,
                        n == txs@.len(),
                        low == recent_from(n as int, 100),
                        last_change(txs@, low as int, n as int) == last_change(
                            txs@,
                            low as int,
                            i as int,
                        ),
                        tx_id is None,
                        n > 0,
                    decreases i,
                {
                    if str_eq(&txs[i - 1].action, "upgrade") || str_eq(
                        &txs[i - 1].action,
                        "install",
                    ) {
                        return Ok(i - 1);
                    }
                    i -= 1;
                }
                Ok(n - 1)
            },
        }
    }

    /// What can be restored of a transaction, given for each package in turn the archive that
    /// was found for its former version.
    pub fn rollback_plan(tx: &TransactionRecord, cached: &Vec<Option<String>>) -> (r: RollbackPlan)
        requires
            cached@.len() == tx.packages@.len(),
        ensures
            restores(r.restore@) == restorable(
                tx.packages@,
                cached@,
                tx.packages@.len() as int,
            ),
            resolver::pairs(r.missing@) == unrestorable(tx.packages@, cached@, tx.packages@.len() as int),
    {
        let mut restore: Vec<Restore> = Vec::new();
        let mut missing: Vec<(String, String)> = Vec::new();
        let ps = &tx.packages;
        let mut i: usize = 0;
        assert(restores(restore@) =~= restorable(ps@, cached@, 0));
        assert(resolver::pairs(missing@) =~= unrestorable(ps@, cached@, 0));
        while i < ps.len()
            invariant
                i <= ps@.len(),
                cached@.len() == ps@.len(),
                restores(restore@) == restorable(ps@, cached@, i as int),
                resolver::pairs(missing@) == unrestorable(ps@, cached@, i as int),
            decreases ps@.len() - i,
        {
            if let Some(v) = &ps[i].from_version {
                let name: String = match &ps[i].name {
                    Some(n) => n.clone(),
                    None => String::new(),
                };
                assert(name@ =~= name_or(ps@[i as int], Seq::empty()));
                match &cached[i] {
                    Some(p) => {
                        let ghost before = restores(restore@);
                        restore.push(Restore { name, version: v.clone(), path: p.clone() });
                        assert(restores(restore@) =~= before.push((name@, v@, p@)));
                    },
                    None => {
                        let ghost before = resolver::pairs(missing@);
                        missing.push((name, v.clone()));
                        assert(resolver::pairs(missing@) =~= before.push((name@, v@)));
                    },
                }
            }
            i += 1;
        }
        RollbackPlan { restore, missing }
    }

    /// What to do about a rollback: nothing is restored in part unless that was asked for, and
    /// nothing is changed on a dry run or without consent.
    pub fn rollback(
        plan: &RollbackPlan,
        dry_run: bool,
        allow_partial: bool,
        noconfirm: bool,
        locked: bool,
    ) -> (r: RollbackStep)
        ensures
            r == if plan.missing@.len() > 0 && !allow_partial {
                RollbackStep::Incomplete
            } else if plan.restore@.len() == 0 {
                RollbackStep::Nothing
            } else if dry_run {
                RollbackStep::Show
            } else if locked {
                RollbackStep::Locked
            } else if noconfirm {
                RollbackStep::Run
            } else {
                RollbackStep::Ask
            },
            r == RollbackStep::Run <==> noconfirm && !dry_run && !locked && plan.restore@.len() > 0 && (
            plan.missing@.len() == 0 || allow_partial),
            r == RollbackStep::Ask <==> !noconfirm && !dry_run && !locked && plan.restore@.len() > 0
                && (plan.missing@.len() == 0 || allow_partial),
            r == RollbackStep::Incomplete <==> plan.missing@.len() > 0 && !allow_partial,
    {
        if plan.missing.len() > 0 && !allow_partial {
            RollbackStep::Incomplete
        } else if plan.restore.len() == 0 {
            RollbackStep::Nothing
        } else if dry_run {
            RollbackStep::Show
        } else if locked {
            RollbackStep::Locked
        } else if noconfirm {
            RollbackStep::Run
        } else {
            RollbackStep::Ask
        }
    }

    /// A rollback is confirmed by a `y` and by nothing else.
    pub fn rollback_confirmed(answer: Option<&str>) -> (r: bool)
        ensures
            r == (answer is Some && text::same_ignoring_case(text::trim(answer->0@), "y"@)),
            answer is None ==> !r,
    {
        match answer {
            Some(a) => {
                let t = trimmed(a);
                eq_ignore_case(&t, "y")
            },
            None => false,
        }
    }

    /// The command that restores the archives.
    pub fn rollback_command(plan: &RollbackPlan, noconfirm: bool) -> (r: CommandLine)
        ensures
            pm::runs(r, "sudo"@, restore_words(restore_paths(restores(plan.restore@)), noconfirm)),
    {
        let mut args = no_strings();
        push_str(&mut args, "pacman");
        push_str(&mut args, "-U");
        push_str(&mut args, "--needed");
        assert(text::texts(args@) =~= Seq::empty().push("pacman"@).push("-U"@).push("--needed"@));
        let ghost head = text::texts(args@);
        if noconfirm {
            push_str(&mut args, "--noconfirm");
            assert(text::texts(args@) =~= head + Seq::empty().push("--noconfirm"@));
        } else {
            assert(text::texts(args@) =~= head + Seq::<Seq<char>>::empty());
        }
        let ghost lead = text::texts(args@);
        let ghost paths = restore_paths(restores(plan.restore@));
        let mut i: usize = 0;
        assert(text::texts(args@) =~= lead + paths.take(0));
        while i < plan.restore.len()
            invariant
                i <= plan.restore@.len(),
                paths == restore_paths(restores(plan.restore@)),
                paths.len() == plan.restore@.len(),
                text::texts(args@) == lead + paths.take(i as int),
            decreases plan.restore@.len() - i,
        {
            let ghost before = text::texts(args@);
            assert(paths[i as int] == plan.restore@[i as int].path@);
            push_str(&mut args, &plan.restore[i].path);
            assert(text::texts(args@) =~= before.push(paths[i as int]));
            assert(before.push(paths[i as int]) =~= lead + paths.take(i + 1));
            i += 1;
        }
        assert(paths.take(i as int) =~= paths);
        CommandLine { program: "sudo".to_string(), args }
    }
}

/// What is recorded of an update that was applied.
pub fn recorded_update(u: &UpgradeRecord) -> (r: RecordedPackage)
    ensures
        text::opt_text(r.name) == Some(u.name@),
        text::opt_text(r.from_repo) == Some(u.from_repo@),
        text::opt_text(r.from_version) == Some(u.from_version@),
        text::opt_text(r.to_repo) == Some(u.to_repo@),
        text::opt_text(r.to_version) == Some(u.to_version@),
        text::opt_text(r.state) == Some(u.state@),
        r.restored_version is None,
        r.target is None,
        r.path is None,
        !r.removed,
{
    RecordedPackage {
        name: Some(u.name.clone()),
        from_repo: Some(u.from_repo.clone()),
        from_version: Some(u.from_version.clone()),
        to_repo: Some(u.to_repo.clone()),
        to_version: Some(u.to_version.clone()),
        state: Some(u.state.clone()),
        restored_version: None,
        target: None,
        path: None,
        removed: false,
    }
}

/// What is recorded of a package that was restored.
pub fn recorded_restore(p: &Restore) -> (r: RecordedPackage)
    ensures
        text::opt_text(r.name) == Some(p.name@),
        text::opt_text(r.restored_version) == Some(p.version@),
        text::opt_text(r.path) == Some(p.path@),
        r.from_repo is None,
        r.from_version is None,
        r.to_repo is None,
        r.to_version is None,
        r.state is None,
        r.target is None,
        !r.removed,
{
    RecordedPackage {
        name: Some(p.name.clone()),
        from_repo: None,
        from_version: None,
        to_repo: None,
        to_version: None,
        state: None,
        restored_version: Some(p.version.clone()),
        target: None,
        path: Some(p.path.clone()),
        removed: false,
    }
}

/// What is recorded of a package that was installed or removed by its name.
pub fn recorded_target(name: &str) -> (r: RecordedPackage)
    ensures
        text::opt_text(r.name) == Some(name@),
        text::opt_text(r.target) == Some(name@),
        r.from_repo is None,
        r.from_version is None,
        r.to_repo is None,
        r.to_version is None,
        r.state is None,
        r.restored_version is None,
        r.path is None,
        !r.removed,
{
    RecordedPackage {
        name: Some(name.to_string()),
        from_repo: None,
        from_version: None,
        to_repo: None,
        to_version: None,
        state: None,
        restored_version: None,
        target: Some(name.to_string()),
        path: None,
        removed: false,
    }
}

/// What is recorded of an orphan that was removed.
pub fn recorded_removal(name: &str) -> (r: RecordedPackage)
    ensures
        text::opt_text(r.name) == Some(name@),
        r.removed,
        r.target is None,
        r.from_repo is None,
        r.from_version is None,
        r.to_repo is None,
        r.to_version is None,
        r.state is None,
        r.restored_version is None,
        r.path is None,
{
    RecordedPackage {
        name: Some(name.to_string()),
        from_repo: None,
        from_version: None,
        to_repo: None,
        to_version: None,
        state: None,
        restored_version: None,
        target: None,
        path: None,
        removed: true,
    }
}

// ---------------------------------------------------------------------------------------
// Laws

proof fn restorable_counts(ps: Seq<RecordedPackage>, cached: Seq<Option<String>>, n: int)
    requires
        0 <= n <= ps.len(),
        n <= cached.len(),
    ensures
        restorable(ps, cached, n).len() + unrestorable(ps, cached, n).len() == versions_before(
            ps,
            n,
        ),
    decreases n,
{
    if n > 0 {
        restorable_counts(ps, cached, n - 1);
    }
}

/// How many of the first `n` packages had a version before the transaction.
pub open spec fn versions_before(ps: Seq<RecordedPackage>, n: int) -> int
    decreases n,
{
    if n <= 0 {
        0
    } else if ps[n - 1].from_version is Some {
        versions_before(ps, n - 1) + 1
    } else {
        versions_before(ps, n - 1)
    }
}

/// Every package that had a version before the transaction is either restored or reported as
/// missing; so a rollback without missing archives restores them all.
pub proof fn rollback_accounts_for_all(ps: Seq<RecordedPackage>, cached: Seq<Option<String>>)
    requires
        cached.len() == ps.len(),
    ensures
        restorable(ps, cached, ps.len() as int).len() + unrestorable(
            ps,
            cached,
            ps.len() as int,
        ).len() == versions_before(ps, ps.len() as int),
{
    restorable_counts(ps, cached, ps.len() as int);
}

/// The archives of a rolled-back update are those of the version that was recorded as the one
/// before it.
pub proof fn rollback_restores_the_version_before(u: UpgradeRecord, r: RecordedPackage, path: String)
    requires
        text::opt_text(r.name) == Some(u.name@),
        text::opt_text(r.from_version) == Some(u.from_version@),
    ensures
        restorable(seq![r], seq![Some(path)], 1) == Seq::empty().push(
            (u.name@, u.from_version@, path@),
        ),
{
    reveal_with_fuel(restorable, 2);
}

} // verus!
