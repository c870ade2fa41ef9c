//! Validation of names, versions and patterns, and cleaning of text for display.
use crate::text::{ascii_word, chars_of, cut_at, starts_with, str_eq, trimmed};
use crate::text;
use vstd::prelude::*;
use vstd::string::*;

verus! {

pub open spec fn name_char(c: char) -> bool {
    text::is_ascii_word(c) || c == '.' || c == '_' || c == '+' || c == '-' || c == '@'
}

pub open spec fn version_char(c: char) -> bool {
    text::is_ascii_word(c) || c == '.' || c == '_' || c == '+' || c == '-' || c == ':' || c == '~'
}

pub open spec fn pattern_char(c: char) -> bool {
    name_char(c) || c == '*' || c == '?' || c == '[' || c == ']'
}

/// Two full stops stand side by side.
pub open spec fn has_dot_dot(s: Seq<char>) -> bool {
    exists|i: int| 0 <= i && i + 1 < s.len() && #[trigger] s[i] == '.' && s[i + 1] == '.'
}

/// A package name that is safe to hand to other programs.
pub open spec fn safe_pkg_name(s: Seq<char>) -> bool {
    &&& s.len() > 0
    &&& s[0] != '.'
    &&& s[0] != '-'
    &&& !has_dot_dot(s)
    &&& forall|i: int| 0 <= i < s.len() ==> name_char(#[trigger] s[i])
}

pub open spec fn safe_version(s: Seq<char>) -> bool {
    &&& s.len() > 0
    &&& !has_dot_dot(s)
    &&& forall|i: int| 0 <= i < s.len() ==> version_char(#[trigger] s[i])
}

pub open spec fn safe_pattern(s: Seq<char>) -> bool {
    &&& s.len() > 0
    &&& s[0] != '.'
    &&& s[0] != '-'
    &&& !has_dot_dot(s)
    &&& forall|i: int| 0 <= i < s.len() ==> pattern_char(#[trigger] s[i])
}

/// A bare package name, or a repository and a package name with one slash between them.
pub open spec fn safe_install_target(target: Seq<char>) -> bool {
    let t = text::trim(target);
    match text::cut(t, '/') {
        Some((repo, pkg)) => safe_pkg_name(repo) && safe_pkg_name(pkg),
        None => safe_pkg_name(t),
    }
}

fn dot_dot(cs: &[char]) -> (r: bool)
    ensures
        r == has_dot_dot(cs@),
{
    let mut i: usize = 1;
    while i < cs.len()
        invariant
            1 <= i,
            forall|j: int| 0 <= j && j + 1 < i && j + 1 < cs@.len() ==> !(#[trigger] cs@[j] == '.' && cs@[j + 1] == '.'),
        decreases cs@.len() - i,
    {
        if cs[i - 1] == '.' && cs[i] == '.' {
            return true;
        }
        i += 1;
    }
    false
}

pub fn is_safe_pkg_name(name: &str) -> (r: bool)
    ensures
        r == safe_pkg_name(name@),
{
    let cs = chars_of(name);
    if cs.len() == 0 || cs[0] == '.' || cs[0] == '-' || dot_dot(&cs) {
        return false;
    }
    let mut i: usize = 0;
    while i < cs.len()
        invariant
            i <= cs@.len(),
            cs@ == name@,
            forall|j: int| 0 <= j < i ==> name_char(#[trigger] cs@[j]),
        decreases cs@.len() - i,
    {
        let c = cs[i];
        if !(ascii_word(c) || c == '.' || c == '_' || c == '+' || c == '-' || c == '@') {
            return false;
        }
        i += 1;
    }
    true
}

pub fn is_safe_version(ver: &str) -> (r: bool)
    ensures
        r == safe_version(ver@),
{
    let cs = chars_of(ver);
    if cs.len() == 0 || dot_dot(&cs) {
        return false;
    }
    let mut i: usize = 0;
    while i < cs.len()
        invariant
            i <= cs@.len(),
            cs@ == ver@,
            forall|j: int| 0 <= j < i ==> version_char(#[trigger] cs@[j]),
        decreases cs@.len() - i,
    {
        let c = cs[i];
        if !(ascii_word(c) || c == '.' || c == '_' || c == '+' || c == '-' || c == ':' || c == '~') {
            return false;
        }
        i += 1;
    }
    true
}

pub fn is_safe_pattern(pat: &str) -> (r: bool)
    ensures
        r == safe_pattern(pat@),
{
    let cs = chars_of(pat);
    if cs.len() == 0 || cs[0] == '.' || cs[0] == '-' || dot_dot(&cs) {
        return false;
    }
    let mut i: usize = 0;
    while i < cs.len()
        invariant
            i <= cs@.len(),
            cs@ == pat@,
            forall|j: int| 0 <= j < i ==> pattern_char(#[trigger] cs@[j]),
        decreases cs@.len() - i,
    {
        let c = cs[i];
        if !(ascii_word(c) || c == '.' || c == '_' || c == '+' || c == '-' || c == '@' || c == '*'
            || c == '?' || c == '[' || c == ']') {
            return false;
        }
        i += 1;
    }
    true
}

/// Every safe package name is a safe pattern.
pub proof fn safe_name_is_safe_pattern(s: Seq<char>)
    requires
        safe_pkg_name(s),
    ensures
        safe_pattern(s),
{
}

/// A safe name holds no path separator, white space or quote, so it is one word in any
/// command line and one component in any path.
pub proof fn safe_name_has_no_separator(s: Seq<char>, i: int)
    requires
        safe_pkg_name(s),
        0 <= i < s.len(),
    ensures
        s[i] != '/',
        s[i] != '\\',
        s[i] != '\'',
        s[i] != '"',
        !text::is_space(s[i]),
{
}

/// Validates whether an install or removal target is safe: a bare package name or a
/// repository and a package name with one slash between them.
pub fn is_safe_install_target(target: &str) -> (r: bool)
    ensures
        r == safe_install_target(target@),
{
    let t = trimmed(target);
    match cut_at(&t, '/') {
        Some((repo, pkg)) => is_safe_pkg_name(&repo) && is_safe_pkg_name(&pkg),
        None => is_safe_pkg_name(&t),
    }
}

// ---------------------------------------------------------------------------------------
// Kernel packages

/// The names of packages that carry a kernel of their own.
pub open spec fn kernel_names() -> Seq<Seq<char>> {
    seq![
        "linux-lts"@,
        "linux-zen"@,
        "linux-hardened"@,
        "linux-cachyos"@,
        "linux-cachyos-lts"@,
        "linux-cachyos-server"@,
        "linux-cachyos-bore"@,
        "linux-xanmod"@,
        "linux-rt"@,
        "linux-rt-lts"@,
        "linux-tkg"@,
        "linux-bochs"@,
    ]
}

/// A kernel, or a package that belongs to one by its name.
pub open spec fn kernel_package(name: Seq<char>) -> bool {
    &&& name != "linux-firmware"@
    &&& !text::begins(name, "linux-firmware-"@)
    &&& {
        ||| name == "linux"@
        ||| name == "linux-headers"@
        ||| name == "linux-docs"@
        ||| exists|i: int|
            0 <= i < kernel_names().len() && kernel_or_part(name, #[trigger] kernel_names()[i])
    }
}

pub open spec fn kernel_or_part(name: Seq<char>, kernel: Seq<char>) -> bool {
    name == kernel || text::begins(name, kernel + "-"@)
}

/// The packages that carry a kernel.
pub fn kernel_packages() -> (r: Vec<&'static str>)
    ensures
        r@.len() == 13,
        r@[0]@ == "linux"@,
        forall|i: int| 1 <= i < 13 ==> (#[trigger] r@[i])@ == kernel_names()[i - 1],
{
    vec![
        "linux",
        "linux-lts",
        "linux-zen",
        "linux-hardened",
        "linux-cachyos",
        "linux-cachyos-lts",
        "linux-cachyos-server",
        "linux-cachyos-bore",
        "linux-xanmod",
        "linux-rt",
        "linux-rt-lts",
        "linux-tkg",
        "linux-bochs",
    ]
}

pub fn is_kernel_package(name: &str) -> (r: bool)
    ensures
        r == kernel_package(name@),
{
    if str_eq(name, "linux-firmware") || starts_with(name, "linux-firmware-") {
        return false;
    }
    if str_eq(name, "linux") || str_eq(name, "linux-headers") || str_eq(name, "linux-docs") {
        return true;
    }
    let names = kernel_packages();
    let mut i: usize = 1;
    while i < names.len()
        invariant
            1 <= i <= 13,
            names@.len() == 13,
            name@ != "linux-firmware"@,
            !text::begins(name@, "linux-firmware-"@),
            forall|j: int| 1 <= j < 13 ==> (#[trigger] names@[j])@ == kernel_names()[j - 1],
            forall|j: int| 0 <= j < i - 1 ==> !kernel_or_part(name@, #[trigger] kernel_names()[j]),
        decreases 13 - i,
    {
        let mut prefix: String = names[i].to_string();
        prefix.append("-");
        if str_eq(name, names[i]) || starts_with(name, &prefix) {
            assert(kernel_or_part(name@, kernel_names()[i - 1]));
            assert(kernel_package(name@));
            return true;
        }
        i += 1;
    }
    false
}

// ---------------------------------------------------------------------------------------
// Quoting

/// `s` with every single quote closed, escaped and opened again.
pub open spec fn escape_quotes(s: Seq<char>) -> Seq<char>
    decreases s.len(),
{
    if s.len() == 0 {
        Seq::empty()
    } else if s.last() == '\'' {
        escape_quotes(s.drop_last()) + "'\\''"@
    } else {
        escape_quotes(s.drop_last()).push(s.last())
    }
}

/// `s` as one word of a shell command line.
pub open spec fn quoted(s: Seq<char>) -> Seq<char> {
    "'"@ + escape_quotes(s) + "'"@
}

pub fn shell_quote(s: &str) -> (r: String)
    ensures
        r@ == quoted(s@),
{
    let cs = chars_of(s);
    let mut out: String = "'".to_string();
    let mut i: usize = 0;
    assert(cs@.take(0) =~= Seq::<char>::empty());
    assert(out@ =~= "'"@ + escape_quotes(cs@.take(0)));
    while i < cs.len()
        invariant
            i <= cs@.len(),
            out@ == "'"@ + escape_quotes(cs@.take(i as int)),
        decreases cs@.len() - i,
    {
        proof {
            assert(cs@.take(i + 1).drop_last() =~= cs@.take(i as int));
            assert(cs@.take(i + 1).last() == cs@[i as int]);
        }
        if cs[i] == '\'' {
            out.append("'\\''");
            assert(out@ =~= "'"@ + escape_quotes(cs@.take(i + 1)));
        } else {
            out.push(cs[i]);
            assert(out@ =~= "'"@ + escape_quotes(cs@.take(i + 1)));
        }
        i += 1;
    }
    assert(cs@.take(cs@.len() as int) =~= cs@);
    out.append("'");
    out
}

// ---------------------------------------------------------------------------------------
// Text for display

/// The position behind a control sequence whose parameters begin at `i`: behind its final
/// character, which is one of `@` to `~`.
pub open spec fn skip_csi(s: Seq<char>, i: int) -> int
    decreases s.len() - i,
{
    if i < 0 || i >= s.len() {
        s.len() as int
    } else if '@' <= s[i] && s[i] <= '~' {
        i + 1
    } else {
        skip_csi(s, i + 1)
    }
}

/// The position behind an operating system command whose text begins at `i`: behind a bell,
/// or behind an escape and the backslash that may follow it.
pub open spec fn skip_osc(s: Seq<char>, i: int) -> int
    decreases s.len() - i,
{
    if i < 0 || i >= s.len() {
        s.len() as int
    } else if s[i] == '\x07' {
        i + 1
    } else if s[i] == '\x1b' {
        if i + 1 < s.len() && s[i + 1] == '\\' {
            i + 2
        } else {
            i + 1
        }
    } else {
        skip_osc(s, i + 1)
    }
}

/// The position behind the escape sequence that begins with the escape at `i`.
pub open spec fn skip_escape(s: Seq<char>, i: int) -> int {
    if i + 1 >= s.len() {
        s.len() as int
    } else if s[i + 1] == '[' {
        skip_csi(s, i + 2)
    } else if s[i + 1] == ']' {
        skip_osc(s, i + 2)
    } else {
        i + 2
    }
}

pub proof fn skips_advance(s: Seq<char>, i: int)
    requires
        0 <= i <= s.len(),
    ensures
        i <= skip_csi(s, i) <= s.len(),
        i <= skip_osc(s, i) <= s.len(),
        i < s.len() ==> i < skip_escape(s, i) <= s.len(),
    decreases s.len() - i,
{
    if i < s.len() {
        skips_advance(s, i + 1);
        if i + 2 <= s.len() {
            if i + 2 < s.len() {
                skips_advance(s, i + 2);
            }
        }
    }
}

/// Control characters other than tab, line feed and carriage return; delete; and the
/// control characters of the C1 set.
pub open spec fn is_hidden(c: char) -> bool {
    let u = c as u32;
    (u < 0x20 && c != '\t' && c != '\n' && c != '\r') || 0x7f <= u <= 0x9f
}

/// What is left of `s`, from `i` on, without escape sequences and control characters.
pub open spec fn sanitized_from(s: Seq<char>, i: int) -> Seq<char>
    decreases s.len() - i,
{
    if i < 0 || i >= s.len() {
        Seq::empty()
    } else if s[i] == '\x1b' {
        let j = skip_escape(s, i);
        if j <= i || j > s.len() {
            Seq::empty()
        } else {
            sanitized_from(s, j)
        }
    } else if is_hidden(s[i]) {
        sanitized_from(s, i + 1)
    } else {
        seq![s[i]] + sanitized_from(s, i + 1)
    }
}

pub open spec fn sanitized(s: Seq<char>) -> Seq<char> {
    sanitized_from(s, 0)
}

/// Strips control characters and escape sequences from untrusted text, and leaves all other
/// characters, tabs and line ends intact.
pub fn sanitize_display_text(s: &str) -> (r: String)
    ensures
        r@ == sanitized(s@),
{
    let cs = chars_of(s);
    let n: usize = cs.len();
    let mut out: String = String::new();
    let mut i: usize = 0;
    assert(out@ + sanitized_from(cs@, 0) =~= sanitized(cs@));
    while i < n
        invariant
            i <= n == cs@.len(),
            out@ + sanitized_from(cs@, i as int) == sanitized(cs@),
        decreases n - i,
    {
        let c = cs[i];
        if c == '\x1b' {
            let ghost at = i as int;
            proof {
                skips_advance(cs@, at);
            }
            if i + 1 >= n {
                i = n;
            } else if cs[i + 1] == '[' {
                i = i + 2;
                while i < n && !('@' <= cs[i] && cs[i] <= '~')
                    invariant
                        i <= n == cs@.len(),
                        skip_csi(cs@, at + 2) == skip_csi(cs@, i as int),
                    decreases n - i,
                {
                    i += 1;
                }
                if i < n {
                    i += 1;
                }
            } else if cs[i + 1] == ']' {
                i = i + 2;
                while i < n && cs[i] != '\x07' && cs[i] != '\x1b'
                    invariant
                        i <= n == cs@.len(),
                        skip_osc(cs@, at + 2) == skip_osc(cs@, i as int),
                    decreases n - i,
                {
                    i += 1;
                }
                if i < n {
                    if cs[i] == '\x1b' && i + 1 < n && cs[i + 1] == '\\' {
                        i += 2;
                    } else {
                        i += 1;
                    }
                }
            } else {
                i = i + 2;
            }
            assert(i as int == skip_escape(cs@, at));
        } else {
            let u: u32 = c as u32;
            if (u < 0x20 && c != '\t' && c != '\n' && c != '\r') || (0x7f <= u && u <= 0x9f) {
                i += 1;
            } else {
                let ghost before = out@;
                out.push(c);
                proof {
                    assert(before + (seq![c] + sanitized_from(cs@, i + 1)) =~= before.push(c)
                        + sanitized_from(cs@, i + 1));
                }
                i += 1;
            }
        }
    }
    assert(out@ + sanitized_from(cs@, i as int) =~= out@);
    out
}

proof fn sanitized_from_visible(s: Seq<char>, i: int)
    requires
        0 <= i <= s.len(),
    ensures
        forall|k: int|
            0 <= k < sanitized_from(s, i).len() ==> !is_hidden(#[trigger] sanitized_from(s, i)[k])
                && sanitized_from(s, i)[k] != '\x1b',
    decreases s.len() - i,
{
    if i < s.len() {
        skips_advance(s, i);
        if s[i] == '\x1b' {
            sanitized_from_visible(s, skip_escape(s, i));
            assert(sanitized_from(s, i) == sanitized_from(s, skip_escape(s, i)));
        } else {
            sanitized_from_visible(s, i + 1);
            let rest = sanitized_from(s, i + 1);
            assert forall|k: int| 0 <= k < sanitized_from(s, i).len() implies !is_hidden(
                #[trigger] sanitized_from(s, i)[k],
            ) && sanitized_from(s, i)[k] != '\x1b' by {
                if is_hidden(s[i]) {
                    assert(sanitized_from(s, i)[k] == rest[k]);
                } else if k > 0 {
                    assert(sanitized_from(s, i)[k] == rest[k - 1]);
                }
            }
        }
    }
}

/// Sanitised text holds no escape and no control character but tab and line ends.
pub proof fn sanitized_is_visible(s: Seq<char>)
    ensures
        forall|k: int|
            0 <= k < sanitized(s).len() ==> !is_hidden(#[trigger] sanitized(s)[k]) && sanitized(
                s,
            )[k] != '\x1b',
{
    sanitized_from_visible(s, 0);
}

proof fn sanitized_from_keeps(s: Seq<char>, i: int)
    requires
        0 <= i <= s.len(),
        forall|k: int| i <= k < s.len() ==> !is_hidden(#[trigger] s[k]) && s[k] != '\x1b',
    ensures
        sanitized_from(s, i) == s.skip(i),
    decreases s.len() - i,
{
    if i < s.len() {
        assert(!is_hidden(s[i]));
        sanitized_from_keeps(s, i + 1);
        assert(seq![s[i]] + s.skip(i + 1) =~= s.skip(i));
    } else {
        assert(s.skip(i) =~= Seq::<char>::empty());
    }
}

/// Text without escapes and control characters is left as it is.
pub proof fn sanitize_keeps_visible(s: Seq<char>)
    requires
        forall|k: int| 0 <= k < s.len() ==> !is_hidden(#[trigger] s[k]) && s[k] != '\x1b',
    ensures
        sanitized(s) == s,
{
    sanitized_from_keeps(s, 0);
    assert(s.skip(0) =~= s);
}

/// Sanitising twice is the same as sanitising once.
pub proof fn sanitize_twice(s: Seq<char>)
    ensures
        sanitized(sanitized(s)) == sanitized(s),
{
    sanitized_is_visible(s);
    sanitize_keeps_visible(sanitized(s));
}

} // verus!
