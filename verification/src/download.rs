//! Getting hold of a package archive: from the local cache or from a mirror, checked.
use crate::archive::parse_pkgname_from_filename;
use crate::archive;
use crate::paths::join_path;
use crate::paths;
use crate::pm::CommandLine;
use crate::pm;
use crate::sandbox::hex_text;
use crate::sandbox;
use crate::text::{ends_with, eq_ignore_case, no_strings, push_str, signed_text, str_eq, text2, text3, to_lowercase, words_of};
use crate::text;
use vstd::prelude::*;
use vstd::string::*;

verus! {

// ---------------------------------------------------------------------------------------
// Checksums

/// How the program that computes checksums has ended.
#[derive(Debug, Clone)]
pub enum HashRun {
    /// It could not be run, for this reason.
    NotRun(String),
    Unsuccessful,
    /// It has written this.
    Output(String),
}

/// The first word of an output, or nothing.
pub open spec fn first_word(s: Seq<char>) -> Seq<char> {
    if text::words(s).len() > 0 {
        text::words(s)[0]
    } else {
        Seq::empty()
    }
}

/// The checksum or the error for an output, once its first word is in small letters.
pub open spec fn hash_result(path: Seq<char>, small: Seq<char>) -> Result<Seq<char>, Seq<char>> {
    if small.len() == 0 {
        Err("Empty hash returned for '"@ + path + "'"@)
    } else {
        Ok(small)
    }
}

/// The checksum of a file, given its first word in small letters.
pub fn settle_hash(path: &str, small: String) -> (r: Result<String, String>)
    ensures
        match r {
            Ok(h) => hash_result(path@, small@) == Ok::<Seq<char>, Seq<char>>(h@),
            Err(e) => hash_result(path@, small@) == Err::<Seq<char>, Seq<char>>(e@),
        },
{
    if small.as_str().is_empty() {
        Err(text3("Empty hash returned for '", path, "'"))
    } else {
        Ok(small)
    }
}

/// The SHA256 checksum of a file, out of what `sha256sum` has written.
pub fn compute_sha256(path: &str, run: &HashRun) -> (r: Result<String, String>)
    ensures
        match *run {
            HashRun::NotRun(e) => r is Err && r->Err_0@ == "Failed to run sha256sum: "@ + e@,
            HashRun::Unsuccessful => r is Err && r->Err_0@ == "sha256sum failed for '"@ + path@
                + "'"@,
            HashRun::Output(out) => match r {
                Ok(h) => hash_result(path@, text::lowercase(first_word(out@))) == Ok::<
                    Seq<char>,
                    Seq<char>,
                >(h@),
                Err(e) => hash_result(path@, text::lowercase(first_word(out@))) == Err::<
                    Seq<char>,
                    Seq<char>,
                >(e@),
            },
        },
{
    match run {
        HashRun::NotRun(e) => Err(text2("Failed to run sha256sum: ", e)),
        HashRun::Unsuccessful => Err(text3("sha256sum failed for '", path, "'")),
        HashRun::Output(out) => {
            let w = words_of(out);
            let ghost all = text::texts(w@);
            assert(all.len() == w@.len());
            let word: String = if w.len() > 0 {
                assert(all[0] == w@[0]@);
                w[0].clone()
            } else {
                String::new()
            };
            assert(word@ =~= first_word(out@));
            let small = to_lowercase(&word);
            settle_hash(path, small)
        },
    }
}

// ---------------------------------------------------------------------------------------
// Temporary files

/// A temporary file is given up after this many names were taken.
pub const MAX_TEMP_ATTEMPTS: u32 = 100;

/// The path to try for a temporary file at the given attempt, out of random bytes.
pub fn create_secure_temp_file(
    dir: &str,
    prefix: &str,
    ext: &str,
    attempt: u32,
    random: &Vec<u8>,
) -> (r: Result<String, String>)
    ensures
        if attempt < MAX_TEMP_ATTEMPTS {
            r is Ok && r->Ok_0@ == paths::joined(
                dir@,
                prefix@ + "-"@ + sandbox::hex_of(random@) + "."@ + ext@,
            )
        } else {
            r is Err && r->Err_0@ == "Failed to create secure temporary file"@
        },
{
    if attempt >= MAX_TEMP_ATTEMPTS {
        return Err("Failed to create secure temporary file".to_string());
    }
    let hex = hex_text(random);
    let mut name: String = text3(prefix, "-", &hex);
    name.append(".");
    name.append(ext);
    Ok(join_path(dir, &name))
}

// ---------------------------------------------------------------------------------------
// The local cache

/// A file in a cache directory, with the time of its last change, if that is known.
#[derive(Debug, Clone)]
pub struct CachedFile {
    pub name: String,
    pub modified: Option<i128>,
}

/// The file name of an archive of the package `pkg`.
pub open spec fn archive_of(name: Seq<char>, pkg: Seq<char>) -> bool {
    &&& text::ends(name, ".pkg.tar.zst"@) || text::ends(name, ".pkg.tar.xz"@) || text::ends(name, ".pkg.tar.gz"@)
    &&& archive::archive_pkgname(name) == Some(pkg)
}

pub fn is_archive_of(name: &str, pkg: &str) -> (r: bool)
    ensures
        r == archive_of(name@, pkg@),
{
    if !(ends_with(name, ".pkg.tar.zst") || ends_with(name, ".pkg.tar.xz") || ends_with(
        name,
        ".pkg.tar.gz",
    )) {
        return false;
    }
    match parse_pkgname_from_filename(name) {
        Some(p) => str_eq(&p, pkg),
        None => false,
    }
}

/// `a` was changed before `b`; an unknown time comes before all others.
pub open spec fn older(a: Option<i128>, b: Option<i128>) -> bool {
    match (a, b) {
        (None, Some(_)) => true,
        (Some(x), Some(y)) => x < y,
        _ => false,
    }
}

fn is_older(a: Option<i128>, b: Option<i128>) -> (r: bool)
    ensures
        r == older(a, b),
{
    match (a, b) {
        (None, Some(_)) => true,
        (Some(x), Some(y)) => x < y,
        _ => false,
    }
}

/// The newest archive of the package among the first `n` files; the last of those that are
/// equally new.
pub open spec fn newest_upto(files: Seq<CachedFile>, pkg: Seq<char>, n: int) -> Option<int>
    decreases n,
{
    if n <= 0 {
        None
    } else {
        let before = newest_upto(files, pkg, n - 1);
        if !archive_of(files[n - 1].name@, pkg) {
            before
        } else {
            match before {
                Some(b) => if older(files[n - 1].modified, files[b].modified) {
                    before
                } else {
                    Some(n - 1)
                },
                None => Some(n - 1),
            }
        }
    }
}

/// The newest archive of the package in a cache directory.
pub fn newest_cached(files: &Vec<CachedFile>, pkg: &str) -> (r: Option<usize>)
    ensures
        match r {
            Some(i) => newest_upto(files@, pkg@, files@.len() as int) == Some(i as int) && i
                < files@.len(),
            None => newest_upto(files@, pkg@, files@.len() as int) is None,
        },
{
    let mut best: Option<usize> = None;
    let mut i: usize = 0;
    while i < files.len()
        invariant
            i <= files@.len(),
            match best {
                Some(b) => newest_upto(files@, pkg@, i as int) == Some(b as int) && b < i,
                None => newest_upto(files@, pkg@, i as int) is None,
            },
        decreases files@.len() - i,
    {
        if is_archive_of(&files[i].name, pkg) {
            match best {
                Some(b) => {
                    if !is_older(files[i].modified, files[b].modified) {
                        best = Some(i);
                    }
                },
                None => {
                    best = Some(i);
                },
            }
        }
        i += 1;
    }
    best
}

/// No archive of the package is newer than the one that is taken.
pub proof fn newest_is_newest(files: Seq<CachedFile>, pkg: Seq<char>, n: int, k: int)
    requires
        0 <= k < n <= files.len(),
        archive_of(files[k].name@, pkg),
    ensures
        newest_upto(files, pkg, n) is Some,
        0 <= newest_upto(files, pkg, n)->0 < n,
        archive_of(files[newest_upto(files, pkg, n)->0].name@, pkg),
        !older(files[newest_upto(files, pkg, n)->0].modified, files[k].modified),
    decreases n,
{
    if k < n - 1 {
        newest_is_newest(files, pkg, n - 1, k);
    } else {
        newest_in_range(files, pkg, n - 1);
    }
}

proof fn newest_in_range(files: Seq<CachedFile>, pkg: Seq<char>, n: int)
    requires
        n <= files.len(),
    ensures
        newest_upto(files, pkg, n) is Some ==> 0 <= newest_upto(files, pkg, n)->0 < n && archive_of(
            files[newest_upto(files, pkg, n)->0].name@,
            pkg,
        ),
    decreases n,
{
    if n > 0 {
        newest_in_range(files, pkg, n - 1);
    }
}

/// What to do about an archive that was found in the cache.
#[derive(Debug, Clone, Copy, PartialEq, Eq, Structural)]
pub enum CacheUse {
    Take,
    /// Its checksum is not the expected one.
    Outdated,
    Ignore,
}


/// Whether to use an archive from the cache. Without an expected checksum it is used only if
/// unverified packages are allowed.
pub fn cache_use(expected: Option<&str>, computed: Option<&str>, allow_unverified: bool) -> (r:
    CacheUse)
    ensures
        match expected {
            Some(e) => if computed is Some && text::same_ignoring_case(computed->0@, e@) {
                r == CacheUse::Take
            } else {
                r == CacheUse::Outdated
            },
            None => if allow_unverified {
                r == CacheUse::Take
            } else {
                r == CacheUse::Ignore
            },
        },
        r == CacheUse::Take && expected is Some ==> computed is Some && text::same_ignoring_case(
            computed->0@,
            expected->0@,
        ),
        r == CacheUse::Take && expected is None ==> allow_unverified,
{
    match expected {
        Some(e) => match computed {
            Some(c) => if eq_ignore_case(c, e) {
                CacheUse::Take
            } else {
                CacheUse::Outdated
            },
            None => CacheUse::Outdated,
        },
        None => if allow_unverified {
            CacheUse::Take
        } else {
            CacheUse::Ignore
        },
    }
}

// ---------------------------------------------------------------------------------------
// Mirrors

/// How the download from one mirror has ended.
#[derive(Debug)]
pub enum Attempt {
    /// The program is being shut down.
    Interrupted,
    /// There is no file to download to, for this reason.
    NoFile(String),
    /// The file is there; its checksum, or why there is none.
    Fetched(Result<String, String>),
    /// The server or the transfer failed, with this exit code.
    Failed(i32),
    /// The download could not be started, for this reason.
    NotStarted(String),
}

/// What to do next.
#[derive(Debug, Clone)]
pub enum Fetch {
    /// Try the mirror with this number.
    Try(usize),
    /// Use what that mirror has sent.
    Take(usize),
    Fail(String),
}

/// How an attempt is judged: whether its file is used, the error of its mirror, or the error
/// that ends it all.
pub enum Verdict {
    Use,
    Next(Seq<char>),
    Stop(Seq<char>),
}

/// Only where no checksum is expected is a file used without one.
pub open spec fn mirror_verdict(a: Attempt, expected: Option<Seq<char>>) -> Verdict {
    match a {
        Attempt::Interrupted => Verdict::Stop("Download interrupted during shutdown"@),
        Attempt::NoFile(e) => Verdict::Stop(e@),
        Attempt::Fetched(hash) => match (expected, hash) {
            (None, _) => Verdict::Use,
            (Some(sum), Ok(h)) => if text::same_ignoring_case(h@, sum) {
                Verdict::Use
            } else {
                Verdict::Next(
                    "SHA256 checksum mismatch (expected: "@ + sum + ", computed: "@ + h@ + ")"@,
                )
            },
            (Some(_), Err(e)) => Verdict::Next("Failed to compute SHA256: "@ + e@),
        },
        Attempt::Failed(code) => Verdict::Next(
            "HTTP download failed with exit code "@ + text::signed_digits(code as int),
        ),
        Attempt::NotStarted(e) => Verdict::Next("Failed to spawn curl: "@ + e@),
    }
}

pub enum FetchView {
    Try(int),
    Take(int),
    Fail(Seq<char>),
}

impl View for Fetch {
    type V = FetchView;

    open spec fn view(&self) -> FetchView {
        match *self {
            Fetch::Try(i) => FetchView::Try(i as int),
            Fetch::Take(i) => FetchView::Take(i as int),
            Fetch::Fail(e) => FetchView::Fail(e@),
        }
    }
}

/// Goes through the attempts from the `i`-th on; `last` is the error of the one before.
pub open spec fn mirrors_from(
    pkg: Seq<char>,
    urls: int,
    expected: Option<Seq<char>>,
    attempts: Seq<Attempt>,
    last: Seq<char>,
    i: int,
) -> FetchView
    decreases urls - i,
{
    if i < 0 || i >= urls {
        FetchView::Fail(
            "Failed to download verified package '"@ + pkg + "' from all candidate mirrors: "@
                + last,
        )
    } else if i >= attempts.len() {
        FetchView::Try(i)
    } else {
        match mirror_verdict(attempts[i], expected) {
            Verdict::Use => FetchView::Take(i),
            Verdict::Stop(e) => FetchView::Fail(e),
            Verdict::Next(e) => mirrors_from(pkg, urls, expected, attempts, e, i + 1),
        }
    }
}

/// What to do after these attempts. Without a checksum in the repository's data nothing is
/// downloaded, unless unverified packages are allowed.
pub open spec fn fetch_step(
    pkg: Seq<char>,
    urls: int,
    expected: Option<Seq<char>>,
    allow_unverified: bool,
    attempts: Seq<Attempt>,
) -> FetchView {
    if expected is None && !allow_unverified {
        FetchView::Fail(
            "Security violation: Repository metadata for '"@ + pkg
                + "' does not provide a SHA256 checksum.\n  Fail-closed policy rejects unverified package downloads.\n  To bypass integrity verification at your own risk, re-run with --allow-unverified."@,
        )
    } else if urls == 0 {
        FetchView::Fail("No download URLs configured for package '"@ + pkg + "'"@)
    } else {
        mirrors_from(pkg, urls, expected, attempts, Seq::empty(), 0)
    }
}

enum Judged {
    Use,
    Next(String),
    Stop(String),
}

fn judge(a: &Attempt, expected: Option<&str>) -> (r: Judged)
    ensures
        match mirror_verdict(
            *a,
            match expected {
                Some(e) => Some(e@),
                None => None,
            },
        ) {
            Verdict::Use => r is Use,
            Verdict::Next(e) => r is Next && r->Next_0@ == e,
            Verdict::Stop(e) => r is Stop && r->Stop_0@ == e,
        },
{
    match a {
        Attempt::Interrupted => Judged::Stop("Download interrupted during shutdown".to_string()),
        Attempt::NoFile(e) => Judged::Stop(e.clone()),
        Attempt::Fetched(hash) => {
            let sum: &str = match expected {
                Some(e) => e,
                None => {
                    return Judged::Use;
                },
            };
            match hash {
                Ok(h) => {
                    if eq_ignore_case(h, sum) {
                        return Judged::Use;
                    }
                    let mut m = text3(
                        "SHA256 checksum mismatch (expected: ",
                        sum,
                        ", computed: ",
                    );
                    m.append(h);
                    m.append(")");
                    Judged::Next(m)
                },
                Err(e) => Judged::Next(text2("Failed to compute SHA256: ", e)),
            }
        },
        Attempt::Failed(code) => {
            let n = signed_text(*code as i64);
            Judged::Next(text2("HTTP download failed with exit code ", &n))
        },
        Attempt::NotStarted(e) => Judged::Next(text2("Failed to spawn curl: ", e)),
    }
}

/// Decides, after the attempts made so far, which mirror to try next, whether to take what
/// one of them has sent, or to give up.
pub fn fetch_package_archive(
    pkg: &str,
    candidate_urls: &Vec<String>,
    expected_sha: Option<&str>,
    allow_unverified: bool,
    attempts: &Vec<Attempt>,
) -> (r: Fetch)
    ensures
        r@ == fetch_step(
            pkg@,
            candidate_urls@.len() as int,
            match expected_sha {
                Some(e) => Some(e@),
                None => None,
            },
            allow_unverified,
            attempts@,
        ),
{
    if expected_sha.is_none() && !allow_unverified {
        return Fetch::Fail(
            text3(
                "Security violation: Repository metadata for '",
                pkg,
                "' does not provide a SHA256 checksum.\n  Fail-closed policy rejects unverified package downloads.\n  To bypass integrity verification at your own risk, re-run with --allow-unverified.",
            ),
        );
    }
    let ghost hash = match expected_sha {
        Some(e) => Some(e@),
        None => None,
    };
    let n: usize = candidate_urls.len();
    if n == 0 {
        return Fetch::Fail(text3("No download URLs configured for package '", pkg, "'"));
    }
    let mut last: String = String::new();
    assert(last@ =~= Seq::<char>::empty());
    let ghost goal = mirrors_from(pkg@, n as int, hash, attempts@, Seq::empty(), 0);
    let mut i: usize = 0;
    while i < n
        invariant
            i <= n,
            hash == (match expected_sha {
                Some(e) => Some(e@),
                None => None,
            }),
            goal == mirrors_from(pkg@, n as int, hash, attempts@, last@, i as int),
            goal == fetch_step(
                pkg@,
                candidate_urls@.len() as int,
                match expected_sha {
                    Some(e) => Some(e@),
                    None => None,
                },
                allow_unverified,
                attempts@,
            ),
        decreases n - i,
    {
        if i >= attempts.len() {
            return Fetch::Try(i);
        }
        match judge(&attempts[i], expected_sha) {
            Judged::Use => {
                return Fetch::Take(i);
            },
            Judged::Stop(e) => {
                return Fetch::Fail(e);
            },
            Judged::Next(e) => {
                last = e;
            },
        }
        i += 1;
    }
    let mut m = text3(
        "Failed to download verified package '",
        pkg,
        "' from all candidate mirrors: ",
    );
    m.append(&last);
    Fetch::Fail(m)
}

proof fn taken_from_fits(
    pkg: Seq<char>,
    urls: int,
    expected: Seq<char>,
    attempts: Seq<Attempt>,
    last: Seq<char>,
    i: int,
)
    requires
        0 <= i,
    ensures
        mirrors_from(pkg, urls, Some(expected), attempts, last, i) matches FetchView::Take(k) ==> {
            &&& i <= k < attempts.len()
            &&& attempts[k] matches Attempt::Fetched(Ok(h)) && text::same_ignoring_case(h@, expected)
        },
    decreases urls - i,
{
    if i < urls && i < attempts.len() {
        match mirror_verdict(attempts[i], Some(expected)) {
            Verdict::Next(e) => {
                taken_from_fits(pkg, urls, expected, attempts, e, i + 1);
            },
            _ => {},
        }
    }
}

/// Where a checksum is expected, only a file with that checksum is ever taken.
pub proof fn taken_archive_is_verified(
    pkg: Seq<char>,
    urls: int,
    expected: Seq<char>,
    allow_unverified: bool,
    attempts: Seq<Attempt>,
    k: int,
)
    requires
        fetch_step(pkg, urls, Some(expected), allow_unverified, attempts) == FetchView::Take(k),
    ensures
        0 <= k < attempts.len(),
        attempts[k] matches Attempt::Fetched(Ok(h)) && text::same_ignoring_case(h@, expected),
{
    taken_from_fits(pkg, urls, expected, attempts, Seq::empty(), 0);
}

proof fn next_from_is_next(
    pkg: Seq<char>,
    urls: int,
    expected: Option<Seq<char>>,
    attempts: Seq<Attempt>,
    last: Seq<char>,
    i: int,
)
    requires
        0 <= i <= attempts.len(),
    ensures
        mirrors_from(pkg, urls, expected, attempts, last, i) matches FetchView::Try(k) ==> k
            == attempts.len() && k < urls,
    decreases urls - i,
{
    if i < urls && i < attempts.len() {
        match mirror_verdict(attempts[i], expected) {
            Verdict::Next(e) => {
                next_from_is_next(pkg, urls, expected, attempts, e, i + 1);
            },
            _ => {},
        }
    }
}

/// The mirrors are tried in turn, each of them at most once.
pub proof fn each_mirror_is_tried_once(
    pkg: Seq<char>,
    urls: int,
    expected: Option<Seq<char>>,
    allow_unverified: bool,
    attempts: Seq<Attempt>,
    k: int,
)
    requires
        fetch_step(pkg, urls, expected, allow_unverified, attempts) == FetchView::Try(k),
    ensures
        k == attempts.len(),
        k < urls,
{
    next_from_is_next(pkg, urls, expected, attempts, Seq::empty(), 0);
}

/// Without a checksum in the repository's data, and without leave to do without one, nothing
/// is downloaded, whatever the mirrors offer.
pub proof fn unverified_is_refused(pkg: Seq<char>, urls: int, attempts: Seq<Attempt>)
    ensures
        fetch_step(pkg, urls, None, false, attempts) is Fail,
{
}

/// The file ending for a download from this address.
pub fn archive_ending(url: &str) -> (r: &'static str)
    ensures
        r@ == if text::ends(url@, ".pkg.tar.xz"@) {
            "pkg.tar.xz"@
        } else {
            "pkg.tar.zst"@
        },
{
    if ends_with(url, ".pkg.tar.xz") {
        "pkg.tar.xz"
    } else {
        "pkg.tar.zst"
    }
}

/// The command that downloads an address to a file, and fails where the server fails.
pub fn download_command(url: &str, file: &str) -> (r: CommandLine)
    ensures
        pm::runs(r, "curl"@, seq!["-sSLf"@, "-o"@, file@, url@]),
{
    let mut args = no_strings();
    push_str(&mut args, "-sSLf");
    push_str(&mut args, "-o");
    push_str(&mut args, file);
    push_str(&mut args, url);
    assert(text::texts(args@) =~= seq!["-sSLf"@, "-o"@, file@, url@]);
    CommandLine { program: "curl".to_string(), args }
}

} // verus!
