//! What is promised of downloads and archives: what is taken, from where, and what is
//! unpacked.
use crate::archive;
use crate::db::{AlpmManager, SyncPackage};
use crate::db;
use crate::download::{Attempt, FetchView};
use crate::download;
use crate::download_plan::{DepAnswer, Found, Known};
use crate::download_plan;
use crate::extract::{ArchiveEntry, EntryKind, LinkChain, OnPath, Progress};
use crate::extract;
use crate::paths;
use crate::picks;
use crate::strmap;
use crate::text;
use crate::text_laws;
use vstd::prelude::*;
use vstd::string::*;

verus! {

// ---------------------------------------------------------------------------------------
// Mirrors

/// The archive of a mirror is the wanted one.
pub open spec fn is_wanted_archive(a: Attempt, sum: Seq<char>) -> bool {
    a matches Attempt::Fetched(Ok(h)) && text::same_ignoring_case(h@, sum)
}

/// The mirror could be reached at all, and neither the user nor the disk put an end to it.
pub open spec fn may_go_on(a: Attempt) -> bool {
    !(a is Interrupted) && !(a is NoFile)
}

proof fn good_mirror_from(
    pkg: Seq<char>,
    urls: int,
    sum: Seq<char>,
    attempts: Seq<Attempt>,
    last: Seq<char>,
    k: int,
    i: int,
)
    requires
        0 <= i <= k < attempts.len() <= urls,
        is_wanted_archive(attempts[k], sum),
        forall|j: int|
            i <= j < k ==> may_go_on(#[trigger] attempts[j]) && !is_wanted_archive(attempts[j], sum),
    ensures
        download::mirrors_from(pkg, urls, Some(sum), attempts, last, i) == FetchView::Take(k),
    decreases k - i,
{
    if i < k {
        assert(may_go_on(attempts[i]) && !is_wanted_archive(attempts[i], sum));
        let e = download::mirror_verdict(attempts[i], Some(sum))->Next_0;
        good_mirror_from(pkg, urls, sum, attempts, e, k, i + 1);
    }
}

/// The first archive with the right checksum is taken, after whatever failures.
pub proof fn first_good_mirror_is_taken(
    pkg: Seq<char>,
    urls: int,
    sum: Seq<char>,
    allow_unverified: bool,
    attempts: Seq<Attempt>,
    k: int,
)
    requires
        0 <= k < attempts.len() <= urls,
        is_wanted_archive(attempts[k], sum),
        forall|j: int|
            0 <= j < k ==> may_go_on(#[trigger] attempts[j]) && !is_wanted_archive(attempts[j], sum),
    ensures
        download::fetch_step(pkg, urls, Some(sum), allow_unverified, attempts) == FetchView::Take(k),
{
    good_mirror_from(pkg, urls, sum, attempts, Seq::empty(), k, 0);
}

proof fn next_mirror_from(
    pkg: Seq<char>,
    urls: int,
    sum: Seq<char>,
    attempts: Seq<Attempt>,
    last: Seq<char>,
    i: int,
)
    requires
        0 <= i <= attempts.len() <= urls,
        forall|j: int|
            i <= j < attempts.len() ==> may_go_on(#[trigger] attempts[j]) && !is_wanted_archive(
                attempts[j],
                sum,
            ),
    ensures
        attempts.len() < urls ==> download::mirrors_from(pkg, urls, Some(sum), attempts, last, i)
            == FetchView::Try(attempts.len() as int),
        attempts.len() == urls ==> download::mirrors_from(pkg, urls, Some(sum), attempts, last, i) is Fail,
    decreases attempts.len() - i,
{
    if i < attempts.len() {
        assert(may_go_on(attempts[i]) && !is_wanted_archive(attempts[i], sum));
        let e = download::mirror_verdict(attempts[i], Some(sum))->Next_0;
        next_mirror_from(pkg, urls, sum, attempts, e, i + 1);
    }
}

/// After failures the next mirror is tried, as long as there is one; then the download has
/// failed.
pub proof fn failures_lead_to_the_next_mirror(
    pkg: Seq<char>,
    urls: int,
    sum: Seq<char>,
    allow_unverified: bool,
    attempts: Seq<Attempt>,
)
    requires
        0 < urls,
        attempts.len() <= urls,
        forall|j: int|
            0 <= j < attempts.len() ==> may_go_on(#[trigger] attempts[j]) && !is_wanted_archive(
                attempts[j],
                sum,
            ),
    ensures
        attempts.len() < urls ==> download::fetch_step(
            pkg,
            urls,
            Some(sum),
            allow_unverified,
            attempts,
        ) == FetchView::Try(attempts.len() as int),
        attempts.len() == urls ==> download::fetch_step(
            pkg,
            urls,
            Some(sum),
            allow_unverified,
            attempts,
        ) is Fail,
{
    next_mirror_from(pkg, urls, sum, attempts, Seq::empty(), 0);
}

/// A checksum is never empty.
pub proof fn empty_checksum_is_an_error(path: Seq<char>, small: Seq<char>)
    ensures
        download::hash_result(path, small) matches Ok(h) ==> h == small && h.len() > 0,
        small.len() == 0 ==> download::hash_result(path, small) is Err,
{
}

// ---------------------------------------------------------------------------------------
// Addresses

/// An address has one slash between the server and the file, however many the server ends
/// with.
pub proof fn one_slash_before_the_file(server: Seq<char>, slashes: nat, file: Seq<char>)
    requires
        server.len() > 0 ==> server.last() != '/',
    ensures
        download_plan::archive_url(server + Seq::new(slashes, |i: int| '/'), file) == server.push('/')
            + file,
{
    reveal_strlit("/");
    let s = server + Seq::new(slashes, |i: int| '/');
    text_laws::stripping_takes_off_the_end(s, '/');
    let t = text::strip_end(s, '/');
    if t.len() > server.len() {
        assert(s.take(t.len() as int)[t.len() - 1] == s[t.len() - 1]);
        assert(t.last() == '/');
    }
    if t.len() < server.len() {
        assert(s[server.len() - 1] == server.last());
    }
    assert(t =~= server);
    assert(server + "/"@ =~= server.push('/'));
}

/// A package is downloaded from all servers of its repository, in order, with its checksum;
/// that needs the name of its file and a server.
pub proof fn all_servers_are_candidates(k: Known, repo: Seq<char>, p: SyncPackage)
    ensures
        match download_plan::target_of(k, repo, p) {
            Ok(t) => {
                &&& p.filename is Some
                &&& strmap::lookup(k.servers@, repo) matches Some(s) && {
                    &&& s@.len() > 0
                    &&& t.candidate_urls.len() == s@.len()
                    &&& forall|i: int|
                        0 <= i < s@.len() ==> #[trigger] t.candidate_urls[i]
                            == download_plan::archive_url(s@[i]@, p.filename->0@)
                    &&& t.url == t.candidate_urls[0]
                }
                &&& t.name == p.name@
                &&& t.sha256 == text::opt_text(p.sha256)
            },
            Err(_) => p.filename is None || !(strmap::lookup(k.servers@, repo) matches Some(s)
                && s@.len() > 0),
        },
{
}

/// A package is found under its own name before anything that provides it.
pub proof fn own_name_is_found_first(m: AlpmManager, k: Known, d: int, name: Seq<char>, i: int)
    requires
        0 <= d < m.sync@.len(),
        crate::resolve_laws::is_pkg(m.sync@[d].pkgs@, name, i),
    ensures
        download_plan::find_in_db(m, k, d, name) == Found::At(d, i),
{
    db::pkg_from_found(m.sync@[d].pkgs@, name, 0);
}

/// What satisfies a dependency is taken from the first repository, in order of priority, that
/// offers something.
pub proof fn first_repo_that_offers(m: AlpmManager, a: DepAnswer, r: int)
    requires
        0 <= r,
    ensures
        download_plan::first_offer(m, a, r) matches Some(o) ==> is_first_offer(m, a, r, o),
        download_plan::first_offer(m, a, r) is None ==> forall|p: int|
            r <= p < m.repos@.len() ==> #[trigger] offers_nothing(m, a, p),
    decreases m.repos@.len() - r,
{
    if r < m.repos@.len() {
        let low = r + 1;
        first_repo_that_offers(m, a, low);
        if offers_nothing(m, a, r) {
            assert(download_plan::first_offer(m, a, r) == download_plan::first_offer(m, a, low));
            match download_plan::first_offer(m, a, low) {
                Some(o) => {
                    let (d, i) = o;
                    assert(is_first_offer(m, a, low, o));
                    let q = choose|q: int| #[trigger] offers_first(m, a, low, q, d, i);
                    assert forall|p: int| r <= p < q implies #[trigger] offers_nothing(m, a, p) by {
                        if p > r {
                            assert(low <= p);
                        }
                    }
                    assert(offers_first(m, a, r, q, d, i));
                    offer_is_first(m, a, r, q, o);
                },
                None => {
                    assert forall|p: int| r <= p < m.repos@.len() implies #[trigger] offers_nothing(
                        m,
                        a,
                        p,
                    ) by {
                        if p > r {
                            assert(low <= p);
                        }
                    }
                },
            }
        } else {
            let d = db::db_from(m.sync@, m.repos@[r]@, 0)->0;
            let i = download_plan::offer_in(m, a, d)->0;
            assert(download_plan::first_offer(m, a, r) == Some((d, i)));
            assert(offers_first(m, a, r, r, d, i));
            offer_is_first(m, a, r, r, (d, i));
        }
    } else {
        assert(download_plan::first_offer(m, a, r) is None);
    }
}

/// `o` is what the first repository from `r` on that offers something offers.
pub open spec fn is_first_offer(m: AlpmManager, a: DepAnswer, r: int, o: (int, int)) -> bool {
    exists|q: int| #[trigger] offers_first(m, a, r, q, o.0, o.1)
}

proof fn offer_is_first(m: AlpmManager, a: DepAnswer, r: int, q: int, o: (int, int))
    requires
        offers_first(m, a, r, q, o.0, o.1),
    ensures
        is_first_offer(m, a, r, o),
{
}

/// From `r` on, the repository at `q` is the first that offers something: the package `i` of
/// its database `d`.
pub open spec fn offers_first(m: AlpmManager, a: DepAnswer, r: int, q: int, d: int, i: int) -> bool {
    &&& r <= q
    &&& offers_at(m, a, q, d, i)
    &&& forall|p: int| r <= p < q ==> #[trigger] offers_nothing(m, a, p)
}

pub open spec fn offers_at(m: AlpmManager, a: DepAnswer, q: int, d: int, i: int) -> bool {
    &&& 0 <= q < m.repos@.len()
    &&& db::db_from(m.sync@, m.repos@[q]@, 0) == Some(d)
    &&& download_plan::offer_in(m, a, d) == Some(i)
}

pub open spec fn offers_nothing(m: AlpmManager, a: DepAnswer, p: int) -> bool {
    match db::db_from(m.sync@, m.repos@[p]@, 0) {
        Some(d) => download_plan::offer_in(m, a, d) is None,
        None => true,
    }
}

// ---------------------------------------------------------------------------------------
// Unpacking

/// An entry is refused without a look at anything else where it is one too many, is absolute,
/// goes up, is of another kind than a file, a directory or a link, or makes the whole larger
/// than the limit; what is unpacked stays within fifty thousand entries and five gibibytes.
pub proof fn unpacking_stays_within_bounds(
    name: Seq<char>,
    root: Seq<char>,
    p: Progress,
    e: ArchiveEntry,
    found: Seq<OnPath>,
    link_found: Seq<OnPath>,
)
    ensures
        p.entries >= 50000 ==> extract::entry_error(name, root, p, e, found, link_found) is Some,
        p.size + e.size > 5368709120 ==> extract::entry_error(name, root, p, e, found, link_found) is Some,
        e.kind == EntryKind::Other ==> extract::entry_error(name, root, p, e, found, link_found) is Some,
        text::trim(e.path@).len() > 0 && (text::trim(e.path@)[0] == '/' || text::trim(e.path@)[0] == '\\')
            ==> extract::entry_error(name, root, p, e, found, link_found) is Some,
        extract::symlink_error(root, e.path@, found) is Some ==> extract::entry_error(
            name,
            root,
            p,
            e,
            found,
            link_found,
        ) is Some,
{
}

/// An entry with none of these faults is unpacked.
pub proof fn faultless_entry_is_unpacked(
    name: Seq<char>,
    root: Seq<char>,
    p: Progress,
    e: ArchiveEntry,
    found: Seq<OnPath>,
    link_found: Seq<OnPath>,
)
    requires
        p.entries < 50000,
        p.size + e.size <= 5368709120,
        e.kind != EntryKind::Other,
        archive::safe_entry(e.path@),
        extract::symlink_error(root, e.path@, found) is None,
        e.link is None,
    ensures
        extract::entry_error(name, root, p, e, found, link_found) is None,
{
}

/// An entry with a step up anywhere, or that starts at the root, is not safe.
pub proof fn entry_that_leaves_is_unsafe(entry: Seq<char>, k: int)
    requires
        text::trim(entry).len() > 0,
        0 <= k < archive::slash_parts(text::trim(entry)).len(),
    ensures
        archive::slash_parts(text::trim(entry))[k] == ".."@ ==> !archive::safe_entry(entry),
        text::trim(entry)[0] == '/' || text::trim(entry)[0] == '\\' ==> !archive::safe_entry(entry),
{
    let parts = archive::slash_parts(text::trim(entry));
    assert(parts.contains(parts[k]));
}

/// A relative entry without a step up is safe.
pub proof fn plain_entry_is_safe(entry: Seq<char>)
    requires
        text::trim(entry).len() > 0,
        text::trim(entry)[0] != '/',
        text::trim(entry)[0] != '\\',
        forall|k: int|
            0 <= k < archive::slash_parts(text::trim(entry)).len() ==> #[trigger] archive::slash_parts(
                text::trim(entry),
            )[k] != ".."@,
    ensures
        archive::safe_entry(entry),
{
}

/// The steps of a path are its parts but for empty ones and single dots, in order.
pub proof fn dots_are_no_steps(parts: Seq<Seq<char>>, n: int)
    requires
        0 <= n <= parts.len(),
    ensures
        picks::made_of(
            archive::steps_upto(parts, n),
            n,
            |i: int| parts[i].len() > 0 && parts[i] != "."@,
            |i: int| parts[i],
        ),
    decreases n,
{
    let keep = |i: int| parts[i].len() > 0 && parts[i] != "."@;
    let give = |i: int| parts[i];
    if n == 0 {
        picks::made_of_none(keep, give);
    } else {
        dots_are_no_steps(parts, n - 1);
        picks::made_of_one_more(archive::steps_upto(parts, n - 1), n - 1, keep, give);
        assert(keep(n - 1) == archive::is_step(parts[n - 1]));
        assert(give(n - 1) == parts[n - 1]);
    }
}

/// The chain that is complained of is the first one that leads out or round; none is only
/// where all are sound.
pub proof fn first_bad_link_is_told(root: Seq<char>, chains: Seq<LinkChain>, max: int, i: int)
    requires
        0 <= i,
    ensures
        match extract::first_bad(root, chains, max, i) {
            Some(e) => exists|k: int|
                i <= k < chains.len() && #[trigger] bad_link(root, chains, max, k) && extract::chain_result(
                    root,
                    chains[k],
                    max,
                )->Err_0 == e && forall|j: int|
                    i <= j < k ==> !#[trigger] bad_link(root, chains, max, j),
            None => forall|j: int| i <= j < chains.len() ==> !#[trigger] bad_link(root, chains, max, j),
        },
    decreases chains.len() - i,
{
    if i < chains.len() {
        first_bad_link_is_told(root, chains, max, i + 1);
        if bad_link(root, chains, max, i) {
            assert(bad_link(root, chains, max, i));
        } else if extract::first_bad(root, chains, max, i + 1) is Some {
            let low = i + 1;
            let e = extract::first_bad(root, chains, max, low)->0;
            let k = choose|k: int|
                low <= k < chains.len() && #[trigger] bad_link(root, chains, max, k)
                    && extract::chain_result(root, chains[k], max)->Err_0 == e && forall|j: int|
                    low <= j < k ==> !#[trigger] bad_link(root, chains, max, j);
            assert(bad_link(root, chains, max, k));
        }
    }
}

pub open spec fn bad_link(root: Seq<char>, chains: Seq<LinkChain>, max: int, k: int) -> bool {
    extract::chain_result(root, chains[k], max) is Err
}

/// A link chain longer than allowed is refused.
pub proof fn long_chain_is_refused(
    root: Seq<char>,
    path: Seq<char>,
    max: int,
    targets: Seq<Seq<char>>,
    n: int,
)
    requires
        n > max,
        0 < n <= targets.len(),
    ensures
        extract::follow(root, path, max, targets, n) is Err,
{
}

/// How deep a path is after the steps from `i` up to `k`, which began at the depth `at`.
pub open spec fn height(at: int, steps: Seq<Seq<char>>, i: int, k: int) -> int
    decreases k - i,
{
    if k <= i {
        at
    } else if steps[k - 1] == ".."@ {
        height(at, steps, i, k - 1) - 1
    } else {
        height(at, steps, i, k - 1) + 1
    }
}

proof fn height_of_the_first_step(at: int, steps: Seq<Seq<char>>, i: int, k: int)
    requires
        i < k,
    ensures
        height(at, steps, i, k) == height(
            if steps[i] == ".."@ {
                at - 1
            } else {
                at + 1
            },
            steps,
            i + 1,
            k,
        ),
    decreases k - i,
{
    reveal_with_fuel(height, 2);
    if k > i + 1 {
        height_of_the_first_step(at, steps, i, k - 1);
    }
}

/// The target of a link is followed exactly as long as no step of it goes above the root, be it
/// only to come back behind.
pub proof fn links_never_rise_above_the_root(
    at: Seq<Seq<char>>,
    steps: Seq<Seq<char>>,
    root_len: int,
    i: int,
)
    requires
        0 <= i <= steps.len(),
        0 <= root_len <= at.len(),
    ensures
        extract::go_along(at, steps, root_len, i) is Some <==> forall|k: int|
            i <= k <= steps.len() ==> #[trigger] height(at.len() as int, steps, i, k) >= root_len,
    decreases steps.len() - i,
{
    if i < steps.len() {
        let up = steps[i] == ".."@;
        let next = if up {
            at.drop_last()
        } else {
            at.push(steps[i])
        };
        let n = at.len() as int;
        assert forall|k: int| i < k <= steps.len() implies #[trigger] height(n, steps, i, k) == height(
            if up {
                n - 1
            } else {
                n + 1
            },
            steps,
            i + 1,
            k,
        ) by {
            height_of_the_first_step(n, steps, i, k);
        }
        assert(height(n, steps, i, i) == n);
        if up && at.len() <= root_len {
            assert(height(n, steps, i, i + 1) == n - 1) by {
                reveal_with_fuel(height, 2);
            }
        } else {
            links_never_rise_above_the_root(next, steps, root_len, i + 1);
            if extract::go_along(at, steps, root_len, i) is Some {
                assert forall|k: int| i <= k <= steps.len() implies #[trigger] height(n, steps, i, k)
                    >= root_len by {
                    if k > i {
                        height_of_the_first_step(n, steps, i, k);
                        assert(height(next.len() as int, steps, i + 1, k) >= root_len);
                    }
                }
            } else {
                let k = choose|k: int|
                    i + 1 <= k <= steps.len() && !(#[trigger] height(next.len() as int, steps, i + 1, k)
                        >= root_len);
                height_of_the_first_step(n, steps, i, k);
                assert(height(n, steps, i, k) < root_len);
            }
        }
    } else {
        assert forall|k: int| i <= k <= steps.len() implies #[trigger] height(
            at.len() as int,
            steps,
            i,
            k,
        ) >= root_len by {}
    }
}

/// A link that is followed ends below the root, by its names.
pub proof fn followed_links_end_below_the_root(root: Seq<char>, current: Seq<char>, target: Seq<char>)
    ensures
        extract::link_leads(root, current, target) matches Some(at) ==> {
            let top = extract::path_names(extract::path_steps(root));
            &&& at.len() >= top.len()
            &&& forall|i: int| 0 <= i < top.len() ==> #[trigger] at[i] == top[i]
        },
{
    let top = extract::path_names(extract::path_steps(root));
    match extract::link_leads(root, current, target) {
        Some(at) => {
            assert forall|i: int| 0 <= i < top.len() implies #[trigger] at[i] == top[i] by {
                assert(at.take(top.len() as int)[i] == at[i]);
            }
        },
        None => {},
    }
}

/// The sizes of what was unpacked add up.
pub proof fn sizes_add_up(a: Seq<u64>, b: Seq<u64>, n: int)
    requires
        0 <= n <= b.len(),
    ensures
        extract::total_upto(a + b, a.len() + n) == extract::total_upto(a, a.len() as int)
            + extract::total_upto(b, n),
        forall|x: u64| #[trigger] extract::total_upto(seq![x], 1) == x,
    decreases n,
{
    sizes_of_a_part(a, b, a.len() as int);
    if n > 0 {
        sizes_add_up(a, b, n - 1);
        assert((a + b)[a.len() + n - 1] == b[n - 1]);
    }
    assert forall|x: u64| #[trigger] extract::total_upto(seq![x], 1) == x by {
        assert(extract::total_upto(seq![x], 0) == 0);
        assert(seq![x][0] == x);
    }
}

proof fn sizes_of_a_part(a: Seq<u64>, b: Seq<u64>, n: int)
    requires
        0 <= n <= a.len(),
    ensures
        extract::total_upto(a + b, n) == extract::total_upto(a, n),
    decreases n,
{
    if n > 0 {
        sizes_of_a_part(a, b, n - 1);
        assert((a + b)[n - 1] == a[n - 1]);
    }
}

// ---------------------------------------------------------------------------------------
// Paths

/// A relative part is put below the base with one slash between; an absolute one stands for
/// itself.
pub proof fn parts_go_below_the_base(base: Seq<char>, part: Seq<char>)
    ensures
        part.len() > 0 && part[0] == '/' ==> paths::joined(base, part) == part,
        base.len() > 0 && base.last() != '/' && (part.len() == 0 || part[0] != '/') ==> paths::joined(
            base,
            part,
        ) == base.push('/') + part,
        base.len() > 0 && base.last() == '/' && (part.len() == 0 || part[0] != '/') ==> paths::joined(
            base,
            part,
        ) == base + part,
        base.len() == 0 ==> paths::joined(base, part) == part,
{
    reveal_strlit("/");
    if part.len() > 0 {
        assert(part.take(1)[0] == part[0]);
        if part[0] == '/' {
            assert(part.take(1) =~= "/"@);
        }
    }
    if base.len() > 0 {
        assert(base.skip(base.len() - 1)[0] == base.last());
        if base.last() == '/' {
            assert(base.skip(base.len() - 1) =~= "/"@);
        }
        assert(base + "/"@ =~= base.push('/'));
    }
}

} // verus!
