//! Package archives: which entries may be unpacked, and where links may lead.
use crate::text::{ascii_letter, chars_of, cut_at_last, ends_with, join_strings, list_contains, no_strings, parse_number, push_str, split_chars, starts_with, str_eq, sub_string, text2, text3, trimmed, words_of};
use crate::text;
use vstd::prelude::*;
use vstd::string::*;

verus! {

// ---------------------------------------------------------------------------------------
// Names of entries and links

pub open spec fn is_slash(c: char) -> bool {
    c == '/' || c == '\\'
}

/// `s` with every backslash turned into a slash.
pub open spec fn slashed(s: Seq<char>) -> Seq<char> {
    Seq::new(
        s.len(),
        |i: int|
            if s[i] == '\\' {
                '/'
            } else {
                s[i]
            },
    )
}

/// The parts of `s` between slashes of either kind.
pub open spec fn slash_parts(s: Seq<char>) -> Seq<Seq<char>> {
    text::split_on(slashed(s), '/')
}

pub fn split_slashes(s: &str) -> (r: Vec<String>)
    ensures
        text::texts(r@) == slash_parts(s@),
        r@.len() >= 1,
{
    let cs = chars_of(s);
    let mut out: Vec<char> = Vec::new();
    let mut i: usize = 0;
    while i < cs.len()
        invariant
            i <= cs@.len(),
            cs@ == s@,
            out@ == slashed(s@).take(i as int),
        decreases cs@.len() - i,
    {
        let c: char = if cs[i] == '\\' {
            '/'
        } else {
            cs[i]
        };
        out.push(c);
        i += 1;
        assert(out@ =~= slashed(s@).take(i as int));
    }
    assert(slashed(s@).take(i as int) =~= slashed(s@));
    split_chars(&out, '/')
}

/// A part that leads somewhere: neither empty nor the directory itself.
pub open spec fn is_step(part: Seq<char>) -> bool {
    part.len() > 0 && part != "."@
}

pub open spec fn steps_upto(parts: Seq<Seq<char>>, n: int) -> Seq<Seq<char>>
    decreases n,
{
    if n <= 0 {
        Seq::empty()
    } else if is_step(parts[n - 1]) {
        steps_upto(parts, n - 1).push(parts[n - 1])
    } else {
        steps_upto(parts, n - 1)
    }
}

/// The parts that lead somewhere.
pub open spec fn steps(parts: Seq<Seq<char>>) -> Seq<Seq<char>> {
    steps_upto(parts, parts.len() as int)
}

pub fn only_steps(parts: &Vec<String>) -> (r: Vec<String>)
    ensures
        text::texts(r@) == steps(text::texts(parts@)),
{
    let mut out = no_strings();
    let mut i: usize = 0;
    let ghost all = text::texts(parts@);
    while i < parts.len()
        invariant
            i <= parts@.len(),
            all == text::texts(parts@),
            text::texts(out@) == steps_upto(all, i as int),
        decreases parts@.len() - i,
    {
        assert(all[i as int] == parts@[i as int]@);
        if !parts[i].as_str().is_empty() && !str_eq(&parts[i], ".") {
            let ghost before = text::texts(out@);
            push_str(&mut out, &parts[i]);
            assert(text::texts(out@) =~= before.push(all[i as int]));
        }
        i += 1;
    }
    out
}

/// A path within an archive: it is not absolute and never goes up.
pub open spec fn safe_entry(entry: Seq<char>) -> bool {
    let t = text::trim(entry);
    t.len() == 0 || (!is_slash(t[0]) && !slash_parts(t).contains(".."@))
}

/// Whether the path of an archive entry stays below the directory it is unpacked into.
pub fn is_safe_tar_entry(entry: &str) -> (r: bool)
    ensures
        r == safe_entry(entry@),
{
    let t = trimmed(entry);
    let cs = chars_of(&t);
    if cs.len() == 0 {
        return true;
    }
    if cs[0] == '/' || cs[0] == '\\' {
        return false;
    }
    let parts = split_slashes(&t);
    !list_contains(&parts, "..")
}

/// How many directories below the root one stands after the first `k` parts, going up at
/// each `..`; negative outside of the root.
pub open spec fn depth_after(depth: int, parts: Seq<Seq<char>>, k: int) -> int
    decreases k,
{
    if k <= 0 {
        depth
    } else {
        let d = depth_after(depth, parts, k - 1);
        if !is_step(parts[k - 1]) {
            d
        } else if parts[k - 1] == ".."@ {
            d - 1
        } else {
            d + 1
        }
    }
}

/// How many directories below the root the entry `src` lies.
pub open spec fn entry_depth(src: Seq<char>) -> int {
    let n = steps(slash_parts(text::trim(src))).len();
    if n == 0 {
        0
    } else {
        n - 1
    }
}

/// A drive letter and a colon.
pub open spec fn has_drive(s: Seq<char>) -> bool {
    s.len() >= 2 && text::is_ascii_letter(s[0]) && s[1] == ':'
}

/// A link from `src` to `dst` is relative and never leads above the root, at no step.
pub open spec fn safe_link(src: Seq<char>, dst: Seq<char>) -> bool {
    let t = text::trim(dst);
    &&& t.len() > 0
    &&& !is_slash(t[0])
    &&& !has_drive(t)
    &&& forall|k: int|
        0 <= k <= slash_parts(t).len() ==> #[trigger] depth_after(
            entry_depth(src),
            slash_parts(t),
            k,
        ) >= 0
}

/// Whether a relative link stays inside the root that the archive is unpacked into.
pub fn is_safe_link_destination(src: &str, dst: &str) -> (r: bool)
    ensures
        r == safe_link(src@, dst@),
{
    let t = trimmed(dst);
    let cs = chars_of(&t);
    if cs.len() == 0 {
        return false;
    }
    if cs[0] == '/' || cs[0] == '\\' {
        return false;
    }
    if cs.len() >= 2 && ascii_letter(cs[0]) && cs[1] == ':' {
        return false;
    }
    let from = trimmed(src);
    let from_parts = split_slashes(&from);
    let above = only_steps(&from_parts);
    assert(text::texts(above@).len() == above@.len());
    let mut depth: u128 = if above.len() == 0 {
        0
    } else {
        (above.len() - 1) as u128
    };
    let ghost start = depth as int;
    let parts = split_slashes(&t);
    let ghost all = text::texts(parts@);
    let mut i: usize = 0;
    while i < parts.len()
        invariant
            i <= parts@.len(),
            all == text::texts(parts@),
            all.len() == parts@.len(),
            all == slash_parts(text::trim(dst@)),
            start == entry_depth(src@),
            start <= usize::MAX,
            0 <= depth <= start + i,
            depth == depth_after(start, all, i as int),
            forall|k: int| 0 <= k <= i ==> #[trigger] depth_after(start, all, k) >= 0,
        decreases parts@.len() - i,
    {
        assert(all[i as int] == parts@[i as int]@);
        if !parts[i].as_str().is_empty() && !str_eq(&parts[i], ".") {
            if str_eq(&parts[i], "..") {
                if depth == 0 {
                    assert(depth_after(start, all, i + 1) < 0);
                    return false;
                }
                depth -= 1;
            } else {
                depth += 1;
            }
        }
        assert(depth == depth_after(start, all, i + 1));
        i += 1;
    }
    true
}

/// A safe link never stands above the root, wherever on its way one stops.
pub proof fn safe_link_stays_inside(src: Seq<char>, dst: Seq<char>, k: int)
    requires
        safe_link(src, dst),
        0 <= k <= slash_parts(text::trim(dst)).len(),
    ensures
        depth_after(entry_depth(src), slash_parts(text::trim(dst)), k) >= 0,
{
}

/// No step of a safe entry goes up, so that each leads one directory deeper.
pub proof fn safe_entry_goes_down(entry: Seq<char>, k: int)
    requires
        safe_entry(entry),
        text::trim(entry).len() > 0,
        0 <= k <= slash_parts(text::trim(entry)).len(),
    ensures
        depth_after(0, slash_parts(text::trim(entry)), k) == steps_upto(slash_parts(text::trim(entry)), k).len(),
    decreases k,
{
    if k > 0 {
        safe_entry_goes_down(entry, k - 1);
        let parts = slash_parts(text::trim(entry));
        assert(parts.contains(parts[k - 1]));
    }
}

// ---------------------------------------------------------------------------------------
// Listings

pub open spec fn size_word(w: Seq<char>) -> int {
    match text::number(w, u64::MAX as int) {
        Some(n) => n,
        None => 0,
    }
}

/// The path or the error that a line of a listing stands for.
pub open spec fn listing_entry(line: Seq<char>) -> Result<(Seq<char>, int), Seq<char>> {
    let w = text::words(line);
    if w.len() == 0 {
        Ok((Seq::empty(), 0))
    } else if w.len() < 6 {
        if safe_entry(w.last()) {
            Ok((w.last(), 0))
        } else {
            Err("Unsafe archive path: "@ + w.last())
        }
    } else {
        let path = text::join(w.skip(5), " "@);
        let size = size_word(w[2]);
        let symlink = text::cut_last(path, " -> "@);
        let hardlink = text::cut_last(path, " link to "@);
        if text::begins(w[0], "l"@) && symlink is Some {
            let (src, dst) = symlink->0;
            if !safe_entry(src) {
                Err("Unsafe symlink source entry: "@ + src)
            } else if !safe_link(src, dst) {
                Err("Unsafe symlink destination '"@ + dst + "' points outside sandbox root"@)
            } else {
                Ok((src, size))
            }
        } else if text::begins(w[0], "h"@) && hardlink is Some {
            let (src, dst) = hardlink->0;
            if !safe_entry(src) {
                Err("Unsafe hardlink source entry: "@ + src)
            } else if !safe_entry(dst) || !safe_link(src, dst) {
                Err("Unsafe hardlink destination '"@ + dst + "' points outside sandbox root"@)
            } else {
                Ok((src, size))
            }
        } else if safe_entry(path) {
            Ok((path, size))
        } else {
            Err("Unsafe path traversal entry: "@ + path)
        }
    }
}

/// Checks one line of a detailed archive listing; the path and the size of the entry.
pub fn is_safe_tar_listing_line(line: &str) -> (r: Result<(String, u64), String>)
    ensures
        match r {
            Ok((p, n)) => listing_entry(line@) == Ok::<(Seq<char>, int), Seq<char>>((p@, n as int)),
            Err(e) => listing_entry(line@) == Err::<(Seq<char>, int), Seq<char>>(e@),
        },
{
    let w = words_of(line);
    let ghost all = text::texts(w@);
    assert(all.len() == w@.len());
    let n: usize = w.len();
    if n == 0 {
        let none: String = String::new();
        assert(none@ =~= Seq::<char>::empty());
        return Ok((none, 0));
    }
    if n < 6 {
        assert(all.last() == w@[n - 1]@);
        if is_safe_tar_entry(&w[n - 1]) {
            return Ok((w[n - 1].clone(), 0));
        }
        return Err(text2("Unsafe archive path: ", &w[n - 1]));
    }
    assert(all[0] == w@[0]@);
    assert(all[2] == w@[2]@);
    let size: u64 = match parse_number(&w[2], u64::MAX) {
        Some(v) => v,
        None => 0,
    };
    let mut rest = no_strings();
    let mut i: usize = 5;
    while i < n
        invariant
            5 <= i <= n,
            n == w@.len(),
            all == text::texts(w@),
            all.len() == n,
            text::texts(rest@) == all.subrange(5, i as int),
        decreases n - i,
    {
        let ghost before = text::texts(rest@);
        push_str(&mut rest, &w[i]);
        assert(text::texts(rest@) =~= before.push(all[i as int]));
        i += 1;
        assert(text::texts(rest@) =~= all.subrange(5, i as int));
    }
    assert(all.subrange(5, n as int) =~= all.skip(5));
    let path = join_strings(&rest, " ");
    if starts_with(&w[0], "l") {
        if let Some((src, dst)) = cut_at_last(&path, " -> ") {
            if !is_safe_tar_entry(&src) {
                return Err(text2("Unsafe symlink source entry: ", &src));
            }
            if !is_safe_link_destination(&src, &dst) {
                return Err(
                    text3("Unsafe symlink destination '", &dst, "' points outside sandbox root"),
                );
            }
            return Ok((src, size));
        }
    }
    proof {
        reveal_strlit("l");
        reveal_strlit("h");
    }
    if starts_with(&w[0], "h") {
        if let Some((src, dst)) = cut_at_last(&path, " link to ") {
            if !is_safe_tar_entry(&src) {
                return Err(text2("Unsafe hardlink source entry: ", &src));
            }
            if !is_safe_tar_entry(&dst) || !is_safe_link_destination(&src, &dst) {
                return Err(
                    text3("Unsafe hardlink destination '", &dst, "' points outside sandbox root"),
                );
            }
            return Ok((src, size));
        }
    }
    if !is_safe_tar_entry(&path) {
        return Err(text2("Unsafe path traversal entry: ", &path));
    }
    Ok((path, size))
}

/// What a listing lets through is a safe path.
pub proof fn listed_entries_are_safe(line: Seq<char>)
    requires
        listing_entry(line) is Ok,
    ensures
        safe_entry(listing_entry(line)->Ok_0.0),
{
    assert(text::trim(Seq::<char>::empty()) =~= Seq::<char>::empty());
}

// ---------------------------------------------------------------------------------------
// File names of package archives

/// The file name without the ending of a package archive.
pub open spec fn archive_stem(name: Seq<char>) -> Seq<char> {
    if text::ends(name, ".pkg.tar.zst"@) {
        name.take(name.len() - ".pkg.tar.zst"@.len())
    } else if text::ends(name, ".pkg.tar.xz"@) {
        name.take(name.len() - ".pkg.tar.xz"@.len())
    } else if text::ends(name, ".pkg.tar.gz"@) {
        name.take(name.len() - ".pkg.tar.gz"@.len())
    } else if text::ends(name, ".pkg.tar.bz2"@) {
        name.take(name.len() - ".pkg.tar.bz2"@.len())
    } else {
        name
    }
}

/// What stands before the last hyphen.
pub open spec fn before_hyphen(s: Seq<char>) -> Option<Seq<char>> {
    match text::cut_last(s, "-"@) {
        Some((a, _b)) => Some(a),
        None => None,
    }
}

/// The package name in `<pkgname>-<pkgver>-<pkgrel>-<arch>` and the ending of an archive.
pub open spec fn archive_pkgname(name: Seq<char>) -> Option<Seq<char>> {
    match before_hyphen(archive_stem(name)) {
        None => None,
        Some(a) => match before_hyphen(a) {
            None => None,
            Some(b) => before_hyphen(b),
        },
    }
}

fn without_end(s: &str, end: &str) -> (r: String)
    requires
        text::ends(s@, end@),
    ensures
        r@ == s@.take(s@.len() - end@.len()),
{
    let cs = chars_of(s);
    let n: usize = chars_of(end).len();
    let out = sub_string(&cs, 0, cs.len() - n);
    assert(out@ =~= s@.take(s@.len() - end@.len()));
    out
}

fn stem_of(name: &str) -> (r: String)
    ensures
        r@ == archive_stem(name@),
{
    if ends_with(name, ".pkg.tar.zst") {
        without_end(name, ".pkg.tar.zst")
    } else if ends_with(name, ".pkg.tar.xz") {
        without_end(name, ".pkg.tar.xz")
    } else if ends_with(name, ".pkg.tar.gz") {
        without_end(name, ".pkg.tar.gz")
    } else if ends_with(name, ".pkg.tar.bz2") {
        without_end(name, ".pkg.tar.bz2")
    } else {
        name.to_string()
    }
}

/// The package name in the file name of a package archive.
pub fn parse_pkgname_from_filename(filename: &str) -> (r: Option<String>)
    ensures
        text::opt_text(r) == archive_pkgname(filename@),
{
    let stem = stem_of(filename);
    match cut_at_last(&stem, "-") {
        None => None,
        Some((a, _x)) => match cut_at_last(&a, "-") {
            None => None,
            Some((b, _y)) => match cut_at_last(&b, "-") {
                None => None,
                Some((c, _z)) => Some(c),
            },
        },
    }
}

proof fn hyphen_cut(a: Seq<char>, b: Seq<char>)
    requires
        !b.contains('-'),
    ensures
        before_hyphen(a + "-"@ + b) == Some(a),
{
    reveal_strlit("-");
    let s = a + "-"@ + b;
    assert("-"@ =~= seq!['-']);
    last_hyphen(a, b, s.len() as int);
    assert(s.take(a.len() as int) =~= a);
}

proof fn last_hyphen(a: Seq<char>, b: Seq<char>, i: int)
    requires
        !b.contains('-'),
        "-"@ == seq!['-'],
        a.len() <= i <= a.len() + 1 + b.len(),
    ensures
        text::last_before(a + "-"@ + b, "-"@, i) == Some(a.len() as int),
    decreases i,
{
    let s = a + "-"@ + b;
    if i == a.len() {
        assert(s.subrange(i, i + 1) =~= "-"@);
        assert(text::stands_at(s, "-"@, i));
    } else {
        if i < s.len() {
            assert(s[i] == b[i - a.len() - 1]);
            assert(b.contains(s[i]));
            assert(s.subrange(i, i + 1)[0] == s[i]);
        }
        assert(!text::stands_at(s, "-"@, i));
        last_hyphen(a, b, i - 1);
    }
}

/// The endings of package archives.
pub open spec fn archive_ending(end: Seq<char>) -> bool {
    ||| end == ".pkg.tar.zst"@
    ||| end == ".pkg.tar.xz"@
    ||| end == ".pkg.tar.gz"@
    ||| end == ".pkg.tar.bz2"@
}

proof fn stem_is_read_back(stem: Seq<char>, end: Seq<char>)
    requires
        archive_ending(end),
    ensures
        archive_stem(stem + end) == stem,
{
    reveal_strlit(".pkg.tar.zst");
    reveal_strlit(".pkg.tar.xz");
    reveal_strlit(".pkg.tar.gz");
    reveal_strlit(".pkg.tar.bz2");
    let file = stem + end;
    let n = file.len();
    assert(file.skip(n - end.len()) =~= end);
    assert(file.take(n - end.len()) =~= stem);
    assert(file[n - 1] == end[end.len() - 1]);
    assert(file[n - 2] == end[end.len() - 2]);
    if text::ends(file, ".pkg.tar.zst"@) {
        let t = file.skip(n - 12);
        assert(t[11] == file[n - 1] && t[10] == file[n - 2]);
    }
    if text::ends(file, ".pkg.tar.xz"@) {
        let t = file.skip(n - 11);
        assert(t[10] == file[n - 1] && t[9] == file[n - 2]);
    }
    if text::ends(file, ".pkg.tar.gz"@) {
        let t = file.skip(n - 11);
        assert(t[10] == file[n - 1] && t[9] == file[n - 2]);
    }
}

/// The name of a package is read back from the file name of its archive.
pub proof fn archive_name_is_read_back(
    name: Seq<char>,
    version: Seq<char>,
    release: Seq<char>,
    arch: Seq<char>,
    end: Seq<char>,
)
    requires
        !version.contains('-'),
        !release.contains('-'),
        !arch.contains('-'),
        archive_ending(end),
    ensures
        archive_pkgname(name + "-"@ + version + "-"@ + release + "-"@ + arch + end) == Some(name),
{
    stem_is_read_back(name + "-"@ + version + "-"@ + release + "-"@ + arch, end);
    hyphen_cut(name + "-"@ + version + "-"@ + release, arch);
    hyphen_cut(name + "-"@ + version, release);
    hyphen_cut(name, version);
}

} // verus!
