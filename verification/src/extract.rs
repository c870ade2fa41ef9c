//! Unpacking a package archive, entry by entry, and checking what lies there afterwards.
use crate::archive::{is_safe_link_destination, is_safe_tar_entry, only_steps};
use crate::archive;
use crate::paths::join_path;
use crate::paths;
use crate::pm::CommandLine;
use crate::pm;
use crate::text::{clone_strings, ends_with, join_strings, list_contains, no_strings, number_text, push_str, split_string, starts_with, str_eq, text2, text3};
use crate::text;
use vstd::prelude::*;
use vstd::string::*;

verus! {

/// An archive may hold this many entries.
pub const MAX_ARCHIVE_ENTRIES: usize = 50_000;

/// An archive may unpack to this many bytes.
pub const MAX_UNPACKED_BYTES: u64 = 5_368_709_120;

/// What lies at a path.
#[derive(Debug, Clone)]
pub enum OnPath {
    Symlink,
    Other,
    Missing,
    /// It could not be looked at, for this reason.
    Failed(String),
}

/// The steps of a path, from the left.
pub open spec fn path_steps(path: Seq<char>) -> Seq<Seq<char>> {
    archive::steps(text::split_on(path, '/'))
}

pub fn steps_of(path: &str) -> (r: Vec<String>)
    ensures
        text::texts(r@) == path_steps(path@),
{
    let parts = split_string(path, '/');
    only_steps(&parts)
}

/// What is found on the `i`-th step down; nothing lies below what has not been looked at.
pub open spec fn found_at(found: Seq<OnPath>, i: int) -> OnPath {
    if 0 <= i < found.len() {
        found[i]
    } else {
        OnPath::Missing
    }
}

/// Walks down the steps of a path and stops with an error at a step up and at a symlink;
/// what does not exist yet cannot be a symlink.
pub open spec fn walk_down(
    relative: Seq<char>,
    steps: Seq<Seq<char>>,
    current: Seq<char>,
    found: Seq<OnPath>,
    i: int,
) -> Option<Seq<char>>
    decreases steps.len() - i,
{
    if i < 0 || i >= steps.len() {
        None
    } else if steps[i] == ".."@ {
        Some("Unsafe archive path: "@ + relative)
    } else {
        let here = paths::joined(current, steps[i]);
        match found_at(found, i) {
            OnPath::Symlink => Some("Archive path traverses a symlink: "@ + here),
            OnPath::Other => walk_down(relative, steps, here, found, i + 1),
            OnPath::Missing => None,
            OnPath::Failed(e) => Some("Cannot inspect archive path '"@ + here + "': "@ + e@),
        }
    }
}

/// The error, if there is one, for unpacking to `relative` below `root`.
pub open spec fn symlink_error(root: Seq<char>, relative: Seq<char>, found: Seq<OnPath>) -> Option<
    Seq<char>,
> {
    if text::begins(relative, "/"@) {
        Some("Unsafe archive path: "@ + relative)
    } else {
        walk_down(relative, path_steps(relative), root, found, 0)
    }
}

/// Nothing may be unpacked through a symlink that is there already. `found` tells what lies
/// at each step of `relative`.
pub fn reject_existing_symlink_components(root: &str, relative: &str, found: &Vec<OnPath>) -> (r:
    Result<(), String>)
    ensures
        match symlink_error(root@, relative@, found@) {
            None => r is Ok,
            Some(e) => r is Err && r->Err_0@ == e,
        },
{
    if starts_with(relative, "/") {
        return Err(text2("Unsafe archive path: ", relative));
    }
    let steps = steps_of(relative);
    let ghost all = text::texts(steps@);
    let mut current: String = root.to_string();
    let mut i: usize = 0;
    while i < steps.len()
        invariant
            i <= steps@.len(),
            all == text::texts(steps@),
            all.len() == steps@.len(),
            all == path_steps(relative@),
            !text::begins(relative@, "/"@),
            symlink_error(root@, relative@, found@) == walk_down(
                relative@,
                all,
                current@,
                found@,
                i as int,
            ),
        decreases steps@.len() - i,
    {
        assert(all[i as int] == steps@[i as int]@);
        if str_eq(&steps[i], "..") {
            return Err(text2("Unsafe archive path: ", relative));
        }
        current = join_path(&current, &steps[i]);
        if i >= found.len() {
            return Ok(());
        }
        match &found[i] {
            OnPath::Symlink => {
                return Err(text2("Archive path traverses a symlink: ", &current));
            },
            OnPath::Other => {},
            OnPath::Missing => {
                return Ok(());
            },
            OnPath::Failed(e) => {
                let mut m = text3("Cannot inspect archive path '", &current, "': ");
                m.append(e);
                return Err(m);
            },
        }
        i += 1;
    }
    Ok(())
}

/// A path on which a symlink is found before anything is missing is refused.
pub proof fn symlink_on_the_way_is_refused(
    root: Seq<char>,
    relative: Seq<char>,
    found: Seq<OnPath>,
    k: int,
)
    requires
        0 <= k < path_steps(relative).len(),
        k < found.len(),
        found[k] is Symlink,
        forall|i: int| 0 <= i < k ==> (#[trigger] found[i]) is Other,
    ensures
        symlink_error(root, relative, found) is Some,
{
    if !text::begins(relative, "/"@) {
        walk_meets_symlink(relative, path_steps(relative), root, found, 0, k);
    }
}

proof fn walk_meets_symlink(
    relative: Seq<char>,
    steps: Seq<Seq<char>>,
    current: Seq<char>,
    found: Seq<OnPath>,
    i: int,
    k: int,
)
    requires
        0 <= i <= k < steps.len(),
        k < found.len(),
        found[k] is Symlink,
        forall|j: int| 0 <= j < k ==> (#[trigger] found[j]) is Other,
    ensures
        walk_down(relative, steps, current, found, i) is Some,
    decreases k - i,
{
    if i < k && steps[i] != ".."@ {
        assert(found[i] is Other);
        walk_meets_symlink(relative, steps, paths::joined(current, steps[i]), found, i + 1, k);
    }
}

// ---------------------------------------------------------------------------------------
// Entries

#[derive(Debug, Clone, Copy, PartialEq, Eq, Structural)]
pub enum EntryKind {
    File,
    Dir,
    Symlink,
    HardLink,
    /// Devices, pipes and whatever else an archive can hold.
    Other,
}

/// One entry of an archive, as its header gives it.
#[derive(Debug, Clone)]
pub struct ArchiveEntry {
    pub path: String,
    pub kind: EntryKind,
    pub link: Option<String>,
    pub size: u64,
}

/// What has been unpacked so far.
#[derive(Debug, Clone, Copy)]
pub struct Progress {
    pub entries: usize,
    pub size: u64,
}

/// Nothing has been unpacked.
pub fn nothing_unpacked() -> (r: Progress)
    ensures
        r.entries == 0,
        r.size == 0,
{
    Progress { entries: 0, size: 0 }
}

pub open spec fn link_is_safe(
    root: Seq<char>,
    e: ArchiveEntry,
    link: Seq<char>,
    found: Seq<OnPath>,
) -> bool {
    if e.kind == EntryKind::HardLink {
        archive::safe_entry(link) && symlink_error(root, link, found) is None
    } else {
        archive::safe_link(e.path@, link)
    }
}

pub open spec fn capped_sum(a: u64, b: u64) -> int {
    if a + b > u64::MAX {
        u64::MAX as int
    } else {
        a + b
    }
}

/// The error, if there is one, that stops the unpacking at the entry `e`.
pub open spec fn entry_error(
    archive: Seq<char>,
    root: Seq<char>,
    p: Progress,
    e: ArchiveEntry,
    found: Seq<OnPath>,
    link_found: Seq<OnPath>,
) -> Option<Seq<char>> {
    if p.entries >= MAX_ARCHIVE_ENTRIES {
        Some(
            "Security violation: archive '"@ + archive
                + "' exceeds maximum allowed file count (50000)"@,
        )
    } else if !archive::safe_entry(e.path@) {
        Some(
            "Security violation in archive '"@ + archive + "': Unsafe archive path '"@ + e.path@
                + "'. Extraction aborted."@,
        )
    } else if e.kind == EntryKind::Other {
        Some("Security violation: unsupported archive entry type for '"@ + e.path@ + "'"@)
    } else if symlink_error(root, e.path@, found) is Some {
        symlink_error(root, e.path@, found)
    } else if e.link is Some && !link_is_safe(root, e, e.link->0@, link_found) {
        Some(
            "Security violation in archive '"@ + archive + "': Unsafe link target '"@ + e.link->0@
                + "' for entry '"@ + e.path@ + "'. Extraction aborted."@,
        )
    } else if capped_sum(p.size, e.size) > MAX_UNPACKED_BYTES {
        Some(
            "Security violation: archive '"@ + archive
                + "' uncompressed size exceeds safety limit of 5 GB. Extraction aborted."@,
        )
    } else {
        None
    }
}

fn entry_link_is_safe(root: &str, e: &ArchiveEntry, link: &str, found: &Vec<OnPath>) -> (r: bool)
    ensures
        r == link_is_safe(root@, *e, link@, found@),
{
    if e.kind == EntryKind::HardLink {
        if !is_safe_tar_entry(link) {
            return false;
        }
        match reject_existing_symlink_components(root, link, found) {
            Ok(()) => true,
            Err(_e) => false,
        }
    } else {
        is_safe_link_destination(&e.path, link)
    }
}

/// Decides whether the next entry may be unpacked, and counts it. `found` and `link_found`
/// tell what lies at the steps of the entry's path and of its hard link.
pub fn check_entry(
    archive: &str,
    root: &str,
    p: Progress,
    e: &ArchiveEntry,
    found: &Vec<OnPath>,
    link_found: &Vec<OnPath>,
) -> (r: Result<Progress, String>)
    ensures
        match entry_error(archive@, root@, p, *e, found@, link_found@) {
            Some(m) => r is Err && r->Err_0@ == m,
            None => r is Ok && r->Ok_0.entries == p.entries + 1 && r->Ok_0.size == p.size + e.size,
        },
{
    if p.entries >= MAX_ARCHIVE_ENTRIES {
        return Err(
            text3(
                "Security violation: archive '",
                archive,
                "' exceeds maximum allowed file count (50000)",
            ),
        );
    }
    if !is_safe_tar_entry(&e.path) {
        let mut m = text3(
            "Security violation in archive '",
            archive,
            "': Unsafe archive path '",
        );
        m.append(&e.path);
        m.append("'. Extraction aborted.");
        return Err(m);
    }
    if e.kind == EntryKind::Other {
        return Err(
            text3("Security violation: unsupported archive entry type for '", &e.path, "'"),
        );
    }
    match reject_existing_symlink_components(root, &e.path, found) {
        Ok(()) => {},
        Err(m) => {
            return Err(m);
        },
    }
    if let Some(link) = &e.link {
        if !entry_link_is_safe(root, e, link, link_found) {
            let mut m = text3(
                "Security violation in archive '",
                archive,
                "': Unsafe link target '",
            );
            m.append(link);
            m.append("' for entry '");
            m.append(&e.path);
            m.append("'. Extraction aborted.");
            return Err(m);
        }
    }
    if p.size > MAX_UNPACKED_BYTES || e.size > MAX_UNPACKED_BYTES - p.size {
        return Err(
            text3(
                "Security violation: archive '",
                archive,
                "' uncompressed size exceeds safety limit of 5 GB. Extraction aborted.",
            ),
        );
    }
    Ok(Progress { entries: p.entries + 1, size: p.size + e.size })
}

/// An entry that gets through is of a plain kind, its path goes down only, and with it the
/// archive stays within its limits.
pub proof fn unpacked_entry_is_harmless(
    archive: Seq<char>,
    root: Seq<char>,
    p: Progress,
    e: ArchiveEntry,
    found: Seq<OnPath>,
    link_found: Seq<OnPath>,
)
    requires
        entry_error(archive, root, p, e, found, link_found) is None,
    ensures
        archive::safe_entry(e.path@),
        e.kind != EntryKind::Other,
        e.link is Some && e.kind != EntryKind::HardLink ==> archive::safe_link(e.path@, e.link->0@),
        e.link is Some && e.kind == EntryKind::HardLink ==> archive::safe_entry(e.link->0@),
        p.entries + 1 <= MAX_ARCHIVE_ENTRIES,
        p.size + e.size <= MAX_UNPACKED_BYTES,
{
}

/// The message for an entry that the unpacking itself has left out.
pub fn escaped_entry(path: &str) -> (r: String)
    ensures
        r@ == "Archive entry '"@ + path@ + "' would escape the extraction root"@,
{
    text3("Archive entry '", path, "' would escape the extraction root")
}

/// The program that unpacks the outer layer of an archive, by the ending of its name.
pub fn decompressor(archive: &str) -> (r: CommandLine)
    ensures
        if text::ends(archive@, ".zst"@) {
            pm::runs(r, "zstd"@, seq!["-dc"@, archive@])
        } else if text::ends(archive@, ".xz"@) {
            pm::runs(r, "xz"@, seq!["-dc"@, archive@])
        } else if text::ends(archive@, ".gz"@) {
            pm::runs(r, "gzip"@, seq!["-dc"@, archive@])
        } else {
            pm::runs(r, "cat"@, seq![archive@])
        },
{
    let program: &str = if ends_with(archive, ".zst") {
        "zstd"
    } else if ends_with(archive, ".xz") {
        "xz"
    } else if ends_with(archive, ".gz") {
        "gzip"
    } else {
        let mut one = no_strings();
        push_str(&mut one, archive);
        assert(text::texts(one@) =~= seq![archive@]);
        return CommandLine { program: "cat".to_string(), args: one };
    };
    let mut args = no_strings();
    push_str(&mut args, "-dc");
    push_str(&mut args, archive);
    assert(text::texts(args@) =~= seq!["-dc"@, archive@]);
    CommandLine { program: program.to_string(), args }
}

/// The outcome of the unpacking: its own error comes before that of the decompressor.
pub fn extract_archive(archive: &str, unpacked: Result<(), String>, decompressed: bool) -> (r: Result<
    (),
    String,
>)
    ensures
        match unpacked {
            Err(e) => r is Err && r->Err_0@ == e@,
            Ok(_) => if decompressed {
                r is Ok
            } else {
                r is Err && r->Err_0@ == "Archive decompression failed for '"@ + archive@ + "'"@
            },
        },
{
    match unpacked {
        Err(e) => Err(e),
        Ok(_) => if decompressed {
            Ok(())
        } else {
            Err(text3("Archive decompression failed for '", archive, "'"))
        },
    }
}

// ---------------------------------------------------------------------------------------
// What lies on disk afterwards

pub open spec fn total_upto(sizes: Seq<u64>, n: int) -> int
    decreases n,
{
    if n <= 0 {
        0
    } else {
        total_upto(sizes, n - 1) + sizes[n - 1]
    }
}

proof fn totals_grow(sizes: Seq<u64>, i: int, n: int)
    requires
        0 <= i <= n,
    ensures
        0 <= total_upto(sizes, i) <= total_upto(sizes, n),
    decreases n,
{
    if i < n {
        totals_grow(sizes, i, n - 1);
    } else if n > 0 {
        totals_grow(sizes, n - 1, n - 1);
    }
}

/// Whether all the files together stay within the limit; the largest limit of all is never
/// exceeded, as sizes are counted up to it and no further.
pub fn verify_disk_size(sizes: &Vec<u64>, limit: u64) -> (r: Result<(), String>)
    ensures
        if total_upto(sizes@, sizes@.len() as int) <= limit || limit == u64::MAX {
            r is Ok
        } else {
            r is Err && r->Err_0@
                == "Security violation: extracted package size exceeds safety limit of 5 GB ("@
                + text::digits_of(limit as nat) + " bytes). Extraction aborted."@
        },
{
    if limit == u64::MAX {
        return Ok(());
    }
    let mut total: u64 = 0;
    let mut i: usize = 0;
    while i < sizes.len()
        invariant
            i <= sizes@.len(),
            total == total_upto(sizes@, i as int),
            total <= limit,
            limit != u64::MAX,
        decreases sizes@.len() - i,
    {
        if sizes[i] > limit - total {
            proof {
                totals_grow(sizes@, i + 1, sizes@.len() as int);
            }
            let n = number_text(limit);
            return Err(
                text3(
                    "Security violation: extracted package size exceeds safety limit of 5 GB (",
                    &n,
                    " bytes). Extraction aborted.",
                ),
            );
        }
        total += sizes[i];
        i += 1;
    }
    Ok(())
}

// ---------------------------------------------------------------------------------------
// Symlinks

pub open spec fn names_upto(steps: Seq<Seq<char>>, n: int) -> Seq<Seq<char>>
    decreases n,
{
    if n <= 0 {
        Seq::empty()
    } else if steps[n - 1] == ".."@ {
        names_upto(steps, n - 1)
    } else {
        names_upto(steps, n - 1).push(steps[n - 1])
    }
}

/// The names on a path, without the steps up.
pub open spec fn path_names(steps: Seq<Seq<char>>) -> Seq<Seq<char>> {
    names_upto(steps, steps.len() as int)
}

fn names_of(steps: &Vec<String>, n: usize) -> (r: Vec<String>)
    requires
        n <= steps@.len(),
    ensures
        text::texts(r@) == names_upto(text::texts(steps@), n as int),
{
    let mut out = no_strings();
    let mut i: usize = 0;
    let ghost all = text::texts(steps@);
    while i < n
        invariant
            i <= n <= steps@.len(),
            all == text::texts(steps@),
            text::texts(out@) == names_upto(all, i as int),
        decreases n - i,
    {
        assert(all[i as int] == steps@[i as int]@);
        if !str_eq(&steps[i], "..") {
            let ghost before = text::texts(out@);
            push_str(&mut out, &steps[i]);
            assert(text::texts(out@) =~= before.push(all[i as int]));
        }
        i += 1;
    }
    out
}

/// Goes along `steps` from `at`, where going up stops at the root; `None` where it would
/// leave the root.
pub open spec fn go_along(
    at: Seq<Seq<char>>,
    steps: Seq<Seq<char>>,
    root_len: int,
    i: int,
) -> Option<Seq<Seq<char>>>
    decreases steps.len() - i,
{
    if i < 0 || i >= steps.len() {
        Some(at)
    } else if steps[i] == ".."@ {
        if at.len() <= root_len {
            None
        } else {
            go_along(at.drop_last(), steps, root_len, i + 1)
        }
    } else {
        go_along(at.push(steps[i]), steps, root_len, i + 1)
    }
}

/// The directory that a link at `current` is read from.
pub open spec fn link_base(root: Seq<char>, current: Seq<char>, target: Seq<char>) -> Seq<Seq<char>> {
    let here = path_steps(current);
    if text::begins(target, "/"@) || here.len() == 0 {
        path_names(path_steps(root))
    } else {
        names_upto(here, here.len() - 1)
    }
}

/// Where a link at `current` with this target leads, if that is inside the root.
pub open spec fn link_leads(root: Seq<char>, current: Seq<char>, target: Seq<char>) -> Option<
    Seq<Seq<char>>,
> {
    let top = path_names(path_steps(root));
    match go_along(link_base(root, current, target), path_steps(target), top.len() as int, 0) {
        None => None,
        Some(at) => if top.len() <= at.len() && at.take(top.len() as int) == top {
            Some(at)
        } else {
            None
        },
    }
}

/// The absolute path with these names.
pub open spec fn absolute(names: Seq<Seq<char>>) -> Seq<char> {
    "/"@ + text::join(names, "/"@)
}

/// Follows the targets read so far: where the next link is to be looked for, or the error.
pub open spec fn follow(
    root: Seq<char>,
    path: Seq<char>,
    max_depth: int,
    targets: Seq<Seq<char>>,
    n: int,
) -> Result<(Seq<char>, Seq<Seq<char>>), Seq<char>>
    decreases n,
{
    if n <= 0 {
        Ok((path, Seq::empty()))
    } else {
        match follow(root, path, max_depth, targets, n - 1) {
            Err(e) => Err(e),
            Ok((current, visited)) => if n > max_depth {
                Err(
                    "Security violation: Symlink '"@ + path + "' exceeds maximum link depth of "@
                        + text::digits_of(max_depth as nat) + " (circular loop detected)."@,
                )
            } else {
                match link_leads(root, current, targets[n - 1]) {
                    None => Err(
                        "Security violation: Symlink '"@ + path
                            + "' resolves to path outside sandbox root."@,
                    ),
                    Some(names) => if visited.contains(absolute(names)) {
                        Err(
                            "Security violation: Circular symlink loop detected involving '"@ + path
                                + "'."@,
                        )
                    } else {
                        Ok((absolute(names), visited.push(absolute(names))))
                    },
                }
            },
        }
    }
}

fn leads_to(root: &str, current: &str, target: &str) -> (r: Option<Vec<String>>)
    ensures
        match r {
            Some(v) => link_leads(root@, current@, target@) == Some(text::texts(v@)),
            None => link_leads(root@, current@, target@) is None,
        },
{
    let root_steps = steps_of(root);
    let top = names_of(&root_steps, root_steps.len());
    let here = steps_of(current);
    let ghost root_all = text::texts(root_steps@);
    assert(root_all.len() == root_steps@.len());
    let ghost here_all = text::texts(here@);
    assert(here_all.len() == here@.len());
    let mut at = if starts_with(target, "/") || here.len() == 0 {
        clone_strings(&top)
    } else {
        names_of(&here, here.len() - 1)
    };
    let ghost top_all = text::texts(top@);
    assert(top_all.len() == top@.len());
    let steps = steps_of(target);
    let ghost all = text::texts(steps@);
    let ghost goal = go_along(text::texts(at@), all, top_all.len() as int, 0);
    let mut i: usize = 0;
    while i < steps.len()
        invariant
            i <= steps@.len(),
            all == text::texts(steps@),
            all.len() == steps@.len(),
            top_all == text::texts(top@),
            top_all.len() == top@.len(),
            goal == go_along(text::texts(at@), all, top_all.len() as int, i as int),
            goal is None ==> link_leads(root@, current@, target@) is None,
        decreases steps@.len() - i,
    {
        assert(all[i as int] == steps@[i as int]@);
        let ghost before = text::texts(at@);
        assert(before.len() == at@.len());
        if str_eq(&steps[i], "..") {
            if at.len() <= top.len() {
                return None;
            }
            let _ = at.pop();
            assert(text::texts(at@) =~= before.drop_last());
        } else {
            push_str(&mut at, &steps[i]);
            assert(text::texts(at@) =~= before.push(all[i as int]));
        }
        i += 1;
    }
    let ghost at_all = text::texts(at@);
    assert(at_all.len() == at@.len());
    if at.len() < top.len() {
        return None;
    }
    let mut k: usize = 0;
    while k < top.len()
        invariant
            k <= top@.len() <= at@.len(),
            at_all == text::texts(at@),
            at_all.len() == at@.len(),
            top_all == text::texts(top@),
            top_all.len() == top@.len(),
            goal == Some(at_all),
            goal == go_along(
                link_base(root@, current@, target@),
                path_steps(target@),
                top_all.len() as int,
                0,
            ),
            top_all == path_names(path_steps(root@)),
            forall|j: int| 0 <= j < k ==> at_all[j] == top_all[j],
        decreases top@.len() - k,
    {
        assert(at_all[k as int] == at@[k as int]@);
        assert(top_all[k as int] == top@[k as int]@);
        if !str_eq(&at[k], &top[k]) {
            assert(at_all.take(top_all.len() as int)[k as int] != top_all[k as int]);
            return None;
        }
        k += 1;
    }
    assert(at_all.take(top_all.len() as int) =~= top_all);
    Some(at)
}

fn absolute_path(names: &Vec<String>) -> (r: String)
    ensures
        r@ == absolute(text::texts(names@)),
{
    let mut out: String = "/".to_string();
    let rest = join_strings(names, "/");
    out.append(&rest);
    out
}

/// Follows the link at `path` through the targets read so far. Where the result is a path,
/// the link there, if there is one, is to be read next.
pub fn follow_links(root: &str, path: &str, targets: &Vec<String>, max_depth: usize) -> (r: Result<
    String,
    String,
>)
    ensures
        match follow(root@, path@, max_depth as int, text::texts(targets@), targets@.len() as int) {
            Ok((p, _visited)) => r is Ok && r->Ok_0@ == p,
            Err(e) => r is Err && r->Err_0@ == e,
        },
{
    let mut current: String = path.to_string();
    let mut visited = no_strings();
    let ghost all = text::texts(targets@);
    let mut i: usize = 0;
    while i < targets.len()
        invariant
            i <= targets@.len(),
            all == text::texts(targets@),
            all.len() == targets@.len(),
            follow(root@, path@, max_depth as int, all, i as int) == Ok::<
                (Seq<char>, Seq<Seq<char>>),
                Seq<char>,
            >((current@, text::texts(visited@))),
        decreases targets@.len() - i,
    {
        assert(all[i as int] == targets@[i as int]@);
        let ghost step = follow(root@, path@, max_depth as int, all, i + 1);
        if i >= max_depth {
            let n = number_text(max_depth as u64);
            let mut m = text3(
                "Security violation: Symlink '",
                path,
                "' exceeds maximum link depth of ",
            );
            m.append(&n);
            m.append(" (circular loop detected).");
            proof {
                error_stays(root@, path@, max_depth as int, all, i + 1, all.len() as int);
            }
            return Err(m);
        }
        match leads_to(root, &current, &targets[i]) {
            None => {
                proof {
                    error_stays(root@, path@, max_depth as int, all, i + 1, all.len() as int);
                }
                return Err(
                    text3(
                        "Security violation: Symlink '",
                        path,
                        "' resolves to path outside sandbox root.",
                    ),
                );
            },
            Some(names) => {
                let next = absolute_path(&names);
                if list_contains(&visited, &next) {
                    proof {
                        error_stays(root@, path@, max_depth as int, all, i + 1, all.len() as int);
                    }
                    return Err(
                        text3(
                            "Security violation: Circular symlink loop detected involving '",
                            path,
                            "'.",
                        ),
                    );
                }
                let ghost before = text::texts(visited@);
                push_str(&mut visited, &next);
                assert(text::texts(visited@) =~= before.push(next@));
                current = next;
            },
        }
        i += 1;
    }
    Ok(current)
}

proof fn error_stays(
    root: Seq<char>,
    path: Seq<char>,
    max_depth: int,
    targets: Seq<Seq<char>>,
    i: int,
    n: int,
)
    requires
        0 <= i <= n,
        follow(root, path, max_depth, targets, i) is Err,
    ensures
        follow(root, path, max_depth, targets, n) == follow(root, path, max_depth, targets, i),
    decreases n,
{
    if i < n {
        error_stays(root, path, max_depth, targets, i, n - 1);
    }
}

/// A symlink and the targets that were read on the way from it.
#[derive(Debug, Clone)]
pub struct LinkChain {
    pub path: String,
    pub targets: Vec<String>,
}

pub open spec fn chain_result(root: Seq<char>, c: LinkChain, max_depth: int) -> Result<
    (Seq<char>, Seq<Seq<char>>),
    Seq<char>,
> {
    follow(root, c.path@, max_depth, text::texts(c.targets@), c.targets@.len() as int)
}

/// The first of the chains, from `i` on, that must not be there.
pub open spec fn first_bad(root: Seq<char>, chains: Seq<LinkChain>, max_depth: int, i: int) -> Option<
    Seq<char>,
>
    decreases chains.len() - i,
{
    if i < 0 || i >= chains.len() {
        None
    } else {
        match chain_result(root, chains[i], max_depth) {
            Err(e) => Some(e),
            Ok(_) => first_bad(root, chains, max_depth, i + 1),
        }
    }
}

/// Checks that no symlink of an unpacked package leads out of its root, runs in circles or
/// is too long a chain.
pub fn validate_symlink_traversal(root: &str, chains: &Vec<LinkChain>, max_depth: usize) -> (r:
    Result<(), String>)
    ensures
        match first_bad(root@, chains@, max_depth as int, 0) {
            None => r is Ok,
            Some(e) => r is Err && r->Err_0@ == e,
        },
{
    let mut i: usize = 0;
    while i < chains.len()
        invariant
            i <= chains@.len(),
            first_bad(root@, chains@, max_depth as int, 0) == first_bad(
                root@,
                chains@,
                max_depth as int,
                i as int,
            ),
        decreases chains@.len() - i,
    {
        match follow_links(root, &chains[i].path, &chains[i].targets, max_depth) {
            Err(e) => {
                return Err(e);
            },
            Ok(_p) => {},
        }
        i += 1;
    }
    Ok(())
}

/// Wherever a link that was accepted leads, it is inside the root.
pub proof fn accepted_link_stays_inside(
    root: Seq<char>,
    path: Seq<char>,
    max_depth: int,
    targets: Seq<Seq<char>>,
    n: int,
)
    requires
        1 <= n,
        follow(root, path, max_depth, targets, n) is Ok,
    ensures
        exists|names: Seq<Seq<char>>|
            {
                let top = path_names(path_steps(root));
                &&& follow(root, path, max_depth, targets, n)->Ok_0.0 == #[trigger] absolute(names)
                &&& top.len() <= names.len()
                &&& names.take(top.len() as int) == top
            },
        n <= max_depth,
{
    let before = follow(root, path, max_depth, targets, n - 1);
    let target = targets[n - 1];
    let names = link_leads(root, before->Ok_0.0, target)->0;
    assert(follow(root, path, max_depth, targets, n)->Ok_0.0 == absolute(names));
}

/// A chain that comes back to where it has been is refused.
pub proof fn accepted_link_never_returns(
    root: Seq<char>,
    path: Seq<char>,
    max_depth: int,
    targets: Seq<Seq<char>>,
    n: int,
)
    requires
        0 <= n,
        follow(root, path, max_depth, targets, n) is Ok,
    ensures
        follow(root, path, max_depth, targets, n)->Ok_0.1.len() == n,
        follow(root, path, max_depth, targets, n)->Ok_0.1.no_duplicates(),
    decreases n,
{
    if n > 0 {
        accepted_link_never_returns(root, path, max_depth, targets, n - 1);
        let before = follow(root, path, max_depth, targets, n - 1)->Ok_0.1;
        let after = follow(root, path, max_depth, targets, n)->Ok_0.1;
        assert forall|i: int, j: int| 0 <= i < after.len() && 0 <= j < after.len() && i
            != j implies after[i] != after[j] by {
            if i < before.len() && j < before.len() {
                assert(after[i] == before[i] && after[j] == before[j]);
            } else if i < before.len() {
                assert(before.contains(before[i]));
            } else {
                assert(before.contains(before[j]));
            }
        }
    }
}

} // verus!
