//! What is promised of the journal: which transaction is rolled back, what is restored, and
//! which archives are taken for it.
use crate::extract;
use crate::journal::{FoundArchive, RecordedPackage, TransactionRecord};
use crate::journal;
use crate::picks;
use crate::text;
use crate::utils;
use vstd::prelude::*;
use vstd::string::*;

verus! {

/// An upgrade or an installation.
pub open spec fn is_change(t: TransactionRecord) -> bool {
    t.action@ == "upgrade"@ || t.action@ == "install"@
}

proof fn last_change_is_last(txs: Seq<TransactionRecord>, low: int, n: int)
    requires
        0 <= low,
        0 <= n <= txs.len(),
    ensures
        match journal::last_change(txs, low, n) {
            Some(k) => low <= k < n && is_change(txs[k]) && forall|j: int|
                k < j < n ==> !is_change(#[trigger] txs[j]),
            None => forall|j: int| low <= j < n ==> !is_change(#[trigger] txs[j]),
        },
    decreases n,
{
    if n > low && n > 0 {
        last_change_is_last(txs, low, n - 1);
    }
}

/// Where no transaction is named and one of the last hundred is an upgrade or an
/// installation, the one to roll back is such a one, and none behind it is.
pub proof fn last_change_is_rolled_back(txs: Seq<TransactionRecord>, j: int)
    requires
        0 <= j < txs.len(),
        txs.len() - 100 <= j,
        is_change(txs[j]),
    ensures
        journal::rollback_choice(txs, None) matches Ok(k) && {
            &&& j <= k < txs.len()
            &&& is_change(txs[k])
            &&& forall|i: int| k < i < txs.len() ==> !is_change(#[trigger] txs[i])
        },
{
    let n = txs.len() as int;
    last_change_is_last(txs, journal::recent_from(n, 100), n);
}

/// Where no transaction is named and none of the last hundred is an upgrade or an
/// installation, the last one is rolled back.
pub proof fn last_transaction_is_rolled_back(txs: Seq<TransactionRecord>)
    requires
        txs.len() > 0,
        forall|j: int|
            txs.len() - 100 <= j < txs.len() && 0 <= j ==> !is_change(#[trigger] txs[j]),
    ensures
        journal::rollback_choice(txs, None) == Ok::<int, Seq<char>>(txs.len() - 1),
{
    let n = txs.len() as int;
    last_change_is_last(txs, journal::recent_from(n, 100), n);
}

proof fn found_is_first(txs: Seq<TransactionRecord>, id: usize, from: int)
    requires
        0 <= from,
    ensures
        match journal::found_id(txs, id, from) {
            Some(k) => from <= k < txs.len() && txs[k].id == id && forall|j: int|
                from <= j < k ==> (#[trigger] txs[j]).id != id,
            None => forall|j: int| from <= j < txs.len() ==> (#[trigger] txs[j]).id != id,
        },
    decreases txs.len() - from,
{
    if from < txs.len() {
        found_is_first(txs, id, from + 1);
    }
}

/// A transaction that is named is the one with that id, whatever it did; where there is none
/// with it, nothing is rolled back.
pub proof fn named_transaction_is_rolled_back(txs: Seq<TransactionRecord>, id: usize)
    ensures
        match journal::rollback_choice(txs, Some(id)) {
            Ok(k) => 0 <= k < txs.len() && txs[k].id == id && forall|j: int|
                0 <= j < k ==> (#[trigger] txs[j]).id != id,
            Err(_) => forall|j: int| 0 <= j < txs.len() ==> (#[trigger] txs[j]).id != id,
        },
        match journal::found_id(txs, id, 0) {
            Some(k) => 0 <= k < txs.len() && txs[k].id == id && forall|j: int|
                0 <= j < k ==> (#[trigger] txs[j]).id != id,
            None => forall|j: int| 0 <= j < txs.len() ==> (#[trigger] txs[j]).id != id,
        },
{
    found_is_first(txs, id, 0);
}

/// Without a history nothing is rolled back.
pub proof fn empty_history_has_no_rollback(id: Option<usize>)
    ensures
        journal::rollback_choice(Seq::empty(), id) is Err,
{
}

/// The last transactions are as many as asked for, if there are so many, and end with the
/// last one.
pub proof fn recent_transactions_end_the_history(txs: Seq<TransactionRecord>, limit: int)
    requires
        0 <= limit,
    ensures
        ({
            let part = txs.skip(journal::recent_from(txs.len() as int, limit));
            &&& part.len() <= limit
            &&& part.len() == limit || part == txs
            &&& forall|i: int|
                0 <= i < part.len() ==> #[trigger] part[i] == txs[txs.len() - part.len() + i]
        }),
{
    if txs.len() <= limit {
        assert(txs.skip(0) =~= txs);
    }
}

/// The last id on record is that of the last line that is a record.
pub proof fn last_id_is_the_last(ids: Seq<Option<usize>>, n: int)
    requires
        0 <= n <= ids.len(),
    ensures
        match journal::last_record(ids, n) {
            Some(id) => exists|k: int|
                0 <= k < n && #[trigger] ids[k] == Some(id) && forall|j: int|
                    k < j < n ==> (#[trigger] ids[j]) is None,
            None => forall|j: int| 0 <= j < n ==> (#[trigger] ids[j]) is None,
        },
    decreases n,
{
    if n > 0 {
        last_id_is_the_last(ids, n - 1);
        if ids[n - 1] is None {
            if journal::last_record(ids, n - 1) is Some {
                let id = journal::last_record(ids, n - 1)->0;
                let k = choose|k: int|
                    0 <= k < n - 1 && #[trigger] ids[k] == Some(id) && forall|j: int|
                        k < j < n - 1 ==> (#[trigger] ids[j]) is None;
                assert(ids[k] == Some(id));
            }
        } else {
            assert(ids[n - 1] == journal::last_record(ids, n));
        }
    }
}

/// The name on record; empty where there is none.
pub open spec fn recorded_name(p: RecordedPackage) -> Seq<char> {
    match p.name {
        Some(n) => n@,
        None => Seq::empty(),
    }
}

/// A rollback restores each package that had a version before and whose archive was found, to
/// that version and from that archive, in order.
pub proof fn found_versions_are_restored(
    ps: Seq<RecordedPackage>,
    cached: Seq<Option<String>>,
    n: int,
)
    requires
        0 <= n <= ps.len(),
        ps.len() == cached.len(),
    ensures
        picks::made_of(
            journal::restorable(ps, cached, n),
            n,
            |i: int| ps[i].from_version is Some && cached[i] is Some,
            |i: int| (recorded_name(ps[i]), ps[i].from_version->0@, cached[i]->0@),
        ),
    decreases n,
{
    let keep = |i: int| ps[i].from_version is Some && cached[i] is Some;
    let give = |i: int| (recorded_name(ps[i]), ps[i].from_version->0@, cached[i]->0@);
    if n == 0 {
        picks::made_of_none(keep, give);
    } else {
        found_versions_are_restored(ps, cached, n - 1);
        picks::made_of_one_more(journal::restorable(ps, cached, n - 1), n - 1, keep, give);
        assert(keep(n - 1) == (ps[n - 1].from_version is Some && cached[n - 1] is Some));
        assert(give(n - 1) == (
            recorded_name(ps[n - 1]),
            ps[n - 1].from_version->0@,
            cached[n - 1]->0@,
        ));
    }
}

/// A rollback misses each package that had a version before and whose archive was not found.
pub proof fn lost_versions_are_told(ps: Seq<RecordedPackage>, cached: Seq<Option<String>>, n: int)
    requires
        0 <= n <= ps.len(),
        ps.len() == cached.len(),
    ensures
        picks::made_of(
            journal::unrestorable(ps, cached, n),
            n,
            |i: int| ps[i].from_version is Some && cached[i] is None,
            |i: int| (recorded_name(ps[i]), ps[i].from_version->0@),
        ),
    decreases n,
{
    let keep = |i: int| ps[i].from_version is Some && cached[i] is None;
    let give = |i: int| (recorded_name(ps[i]), ps[i].from_version->0@);
    if n == 0 {
        picks::made_of_none(keep, give);
    } else {
        lost_versions_are_told(ps, cached, n - 1);
        picks::made_of_one_more(journal::unrestorable(ps, cached, n - 1), n - 1, keep, give);
        assert(keep(n - 1) == (ps[n - 1].from_version is Some && cached[n - 1] is None));
        assert(give(n - 1) == (recorded_name(ps[n - 1]), ps[n - 1].from_version->0@));
    }
}

/// Pacman is told to install exactly the archives of a rollback, without a question of its
/// own only where none is wanted.
pub proof fn rollback_installs_the_archives(paths: Seq<Seq<char>>, noconfirm: bool)
    ensures
        ({
            let w = journal::restore_words(paths, noconfirm);
            let flags: int = if noconfirm {
                4
            } else {
                3
            };
            &&& w.len() == flags + paths.len()
            &&& w[0] == "pacman"@
            &&& w[1] == "-U"@
            &&& w[2] == "--needed"@
            &&& noconfirm ==> w[3] == "--noconfirm"@
            &&& w.skip(flags) == paths
        }),
{
    let w = journal::restore_words(paths, noconfirm);
    assert(w.skip(if noconfirm {
        4
    } else {
        3
    }) =~= paths);
}

/// A file that can be restored from: no signature, and its steps from the root on begin with
/// those of the cache directory.
pub open spec fn in_cache(f: FoundArchive) -> bool {
    &&& !text::ends(f.file_name@, ".sig"@)
    &&& f.canon matches Some(c) && {
        let p = extract::path_steps(c@);
        let d = extract::path_steps(f.dir_canon@);
        &&& c@.len() > 0 && c@[0] == '/'
        &&& f.dir_canon@.len() > 0 && f.dir_canon@[0] == '/'
        &&& p.len() >= d.len()
        &&& forall|i: int| 0 <= i < d.len() ==> #[trigger] p[i] == d[i]
    }
}

proof fn usable_is_in_cache(f: FoundArchive)
    ensures
        journal::usable(f) == in_cache(f),
{
    reveal_strlit("/");
    if f.canon is Some {
        let c = f.canon->0@;
        let p = extract::path_steps(c);
        let d = extract::path_steps(f.dir_canon@);
        if journal::usable(f) {
            assert(c.take(1)[0] == c[0]);
            assert(f.dir_canon@.take(1)[0] == f.dir_canon@[0]);
            assert forall|i: int| 0 <= i < d.len() implies #[trigger] p[i] == d[i] by {
                assert(p.take(d.len() as int)[i] == p[i]);
            }
        }
        if in_cache(f) {
            assert(c.take(1) =~= "/"@);
            assert(f.dir_canon@.take(1) =~= "/"@);
            assert(p.take(d.len() as int) =~= d);
        }
    }
}

/// The archive that is restored from is the first one that really lies in the cache; it is
/// not found only where none does.
pub proof fn first_archive_in_the_cache_is_used(found: Seq<FoundArchive>, from: int)
    requires
        0 <= from,
    ensures
        match journal::first_usable(found, from) {
            Some(path) => exists|k: int|
                from <= k < found.len() && in_cache(#[trigger] found[k]) && found[k].path@ == path
                    && forall|j: int| from <= j < k ==> !in_cache(#[trigger] found[j]),
            None => forall|j: int| from <= j < found.len() ==> !in_cache(#[trigger] found[j]),
        },
    decreases found.len() - from,
{
    if from < found.len() {
        usable_is_in_cache(found[from]);
        first_archive_in_the_cache_is_used(found, from + 1);
        if !journal::usable(found[from]) && journal::first_usable(found, from + 1) is Some {
            let path = journal::first_usable(found, from + 1)->0;
            let k = choose|k: int|
                from + 1 <= k < found.len() && in_cache(#[trigger] found[k]) && found[k].path@ == path
                    && forall|j: int| from + 1 <= j < k ==> !in_cache(#[trigger] found[j]);
            assert(in_cache(found[k]));
        } else if journal::usable(found[from]) {
            assert(in_cache(found[from]));
        }
    }
}

/// An archive is looked for under the version with its epoch, if it has one that can stand in
/// a file name, before the version without it, and as each of three kinds of archive.
pub proof fn archives_are_looked_for(dir: Seq<char>, pkg: Seq<char>, versions: Seq<Seq<char>>, n: int)
    requires
        0 <= n <= versions.len(),
    ensures
        ({
            let ps = journal::version_patterns(dir, pkg, versions, n);
            &&& ps.len() == 3 * n
            &&& forall|i: int|
                #![trigger versions[i]]
                0 <= i < n ==> {
                    let stem = dir + "/"@ + pkg + "-"@ + versions[i] + "-*.pkg.tar."@;
                    &&& ps[3 * i] == stem + "zst"@
                    &&& ps[3 * i + 1] == stem + "xz"@
                    &&& ps[3 * i + 2] == stem + "gz"@
                }
        }),
    decreases n,
{
    if n > 0 {
        archives_are_looked_for(dir, pkg, versions, n - 1);
    }
}

/// The versions that an archive is looked for under.
pub proof fn epoch_is_tried_first(version: Seq<char>)
    ensures
        ({
            let vs = journal::cached_versions(version);
            &&& 1 <= vs.len() <= 2
            &&& vs.last() == text::split_on(version, ':').last()
            &&& vs.len() == 2 <==> utils::safe_version(version) && vs.last() != version
            &&& vs.len() == 2 ==> vs[0] == version
        }),
{
}

} // verus!
