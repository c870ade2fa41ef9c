//! Text as a sequence of characters.
//!
//! The functions here give exact meanings to the handful of string operations that the
//! rest of the library is built from. Every specification is a function on `Seq<char>`.
use vstd::prelude::*;
use vstd::string::*;
use vstd::utf8::*;

verus! {

/// `String::push` of the standard library: appends one character.
pub assume_specification[ String::push ](s: &mut String, c: char)
    ensures
        final(s)@ == old(s)@.push(c),
;

// ---------------------------------------------------------------------------------------
// Views

/// The texts of a sequence of strings.
pub open spec fn texts(v: Seq<String>) -> Seq<Seq<char>> {
    Seq::new(v.len(), |i: int| v[i]@)
}

/// The text of an optional string.
pub open spec fn opt_text(o: Option<String>) -> Option<Seq<char>> {
    match o {
        Some(s) => Some(s@),
        None => None,
    }
}

/// The parts of `parts` with `sep` between each two neighbours.
pub open spec fn join(parts: Seq<Seq<char>>, sep: Seq<char>) -> Seq<char>
    decreases parts.len(),
{
    if parts.len() == 0 {
        Seq::empty()
    } else if parts.len() == 1 {
        parts[0]
    } else {
        join(parts.drop_last(), sep) + sep + parts.last()
    }
}

// ---------------------------------------------------------------------------------------
// Character classes

pub open spec fn is_digit(c: char) -> bool {
    '0' <= c && c <= '9'
}

pub open spec fn is_ascii_letter(c: char) -> bool {
    ('a' <= c && c <= 'z') || ('A' <= c && c <= 'Z')
}

pub open spec fn is_ascii_word(c: char) -> bool {
    is_digit(c) || is_ascii_letter(c)
}

/// The characters with the Unicode property White_Space.
pub open spec fn is_space(c: char) -> bool {
    let u = c as u32;
    ||| 0x09 <= u <= 0x0d
    ||| u == 0x20
    ||| u == 0x85
    ||| u == 0xa0
    ||| u == 0x1680
    ||| 0x2000 <= u <= 0x200a
    ||| u == 0x2028
    ||| u == 0x2029
    ||| u == 0x202f
    ||| u == 0x205f
    ||| u == 0x3000
}

pub open spec fn ascii_lower(c: char) -> char {
    if 'A' <= c && c <= 'Z' {
        ((c as u32 + 32) as u32) as char
    } else {
        c
    }
}

/// `s` with every ASCII capital replaced by its small letter.
pub open spec fn lower(s: Seq<char>) -> Seq<char> {
    Seq::new(s.len(), |i: int| ascii_lower(s[i]))
}

/// Equality up to the case of ASCII letters.
pub open spec fn same_ignoring_case(a: Seq<char>, b: Seq<char>) -> bool {
    lower(a) == lower(b)
}

pub fn digit(c: char) -> (r: bool)
    ensures
        r == is_digit(c),
{
    '0' <= c && c <= '9'
}

pub fn ascii_letter(c: char) -> (r: bool)
    ensures
        r == is_ascii_letter(c),
{
    ('a' <= c && c <= 'z') || ('A' <= c && c <= 'Z')
}

pub fn ascii_word(c: char) -> (r: bool)
    ensures
        r == is_ascii_word(c),
{
    digit(c) || ascii_letter(c)
}

pub fn space(c: char) -> (r: bool)
    ensures
        r == is_space(c),
{
    let u: u32 = c as u32;
    (0x09 <= u && u <= 0x0d) || u == 0x20 || u == 0x85 || u == 0xa0 || u == 0x1680 || (0x2000 <= u
        && u <= 0x200a) || u == 0x2028 || u == 0x2029 || u == 0x202f || u == 0x205f || u == 0x3000
}

pub fn lower_char(c: char) -> (r: char)
    ensures
        r == ascii_lower(c),
{
    if 'A' <= c && c <= 'Z' {
        let b: u8 = c as u8;
        (b + 32) as char
    } else {
        c
    }
}

// ---------------------------------------------------------------------------------------
// Basic conversions

pub fn chars_of(s: &str) -> (r: Vec<char>)
    ensures
        r@ == s@,
{
    let mut out: Vec<char> = Vec::new();
    for c in it: s.chars()
        invariant
            it.seq() == s@,
            out@ == s@.take(it.index()),
    {
        out.push(c);
    }
    out
}

pub fn string_of(cs: &[char]) -> (r: String)
    ensures
        r@ == cs@,
{
    sub_string(cs, 0, cs.len())
}

pub fn sub_string(cs: &[char], from: usize, to: usize) -> (r: String)
    requires
        from <= to <= cs@.len(),
    ensures
        r@ == cs@.subrange(from as int, to as int),
{
    let mut out: String = String::new();
    let mut i: usize = from;
    while i < to
        invariant
            from <= i <= to <= cs@.len(),
            out@ == cs@.subrange(from as int, i as int),
        decreases to - i,
    {
        out.push(cs[i]);
        i += 1;
        assert(out@ =~= cs@.subrange(from as int, i as int));
    }
    out
}

pub fn sub_chars(cs: &[char], from: usize, to: usize) -> (r: Vec<char>)
    requires
        from <= to <= cs@.len(),
    ensures
        r@ == cs@.subrange(from as int, to as int),
{
    let mut out: Vec<char> = Vec::new();
    let mut i: usize = from;
    while i < to
        invariant
            from <= i <= to <= cs@.len(),
            out@ == cs@.subrange(from as int, i as int),
        decreases to - i,
    {
        out.push(cs[i]);
        i += 1;
        assert(out@ =~= cs@.subrange(from as int, i as int));
    }
    out
}

/// A copy of a list of strings.
pub fn clone_strings(v: &Vec<String>) -> (r: Vec<String>)
    ensures
        texts(r@) == texts(v@),
        r@.len() == v@.len(),
{
    let mut out: Vec<String> = Vec::new();
    let mut i: usize = 0;
    while i < v.len()
        invariant
            i <= v@.len(),
            out@.len() == i,
            forall|j: int| 0 <= j < i ==> (#[trigger] out@[j])@ == v@[j]@,
        decreases v@.len() - i,
    {
        out.push(v[i].clone());
        i += 1;
    }
    assert(texts(out@) =~= texts(v@));
    out
}

pub fn clone_opt_string(o: &Option<String>) -> (r: Option<String>)
    ensures
        opt_text(r) == opt_text(*o),
{
    match o {
        Some(s) => Some(s.clone()),
        None => None,
    }
}

// ---------------------------------------------------------------------------------------
// Equality and order

pub fn str_eq(a: &str, b: &str) -> (r: bool)
    ensures
        r == (a@ == b@),
{
    let x = a.as_bytes();
    let y = b.as_bytes();
    if x.len() != y.len() {
        return false;
    }
    let mut i: usize = 0;
    while i < x.len()
        invariant
            i <= x@.len(),
            x@.len() == y@.len(),
            x@ == encode_utf8(a@),
            y@ == encode_utf8(b@),
            forall|j: int| 0 <= j < i ==> x@[j] == y@[j],
        decreases x@.len() - i,
    {
        if x[i] != y[i] {
            return false;
        }
        i += 1;
    }
    proof {
        assert(x@ =~= y@);
        encode_utf8_decode_utf8(a@);
        encode_utf8_decode_utf8(b@);
    }
    true
}

/// The order of texts by code points, which is also their order by UTF-8 bytes.
pub open spec fn precedes(a: Seq<char>, b: Seq<char>) -> bool
    decreases a.len(),
{
    if b.len() == 0 {
        false
    } else if a.len() == 0 {
        true
    } else if a[0] != b[0] {
        a[0] < b[0]
    } else {
        precedes(a.skip(1), b.skip(1))
    }
}

/// No text comes before itself.
pub proof fn precedes_irreflexive(a: Seq<char>)
    ensures
        !precedes(a, a),
    decreases a.len(),
{
    if a.len() > 0 {
        precedes_irreflexive(a.skip(1));
    }
}

/// The order of texts is transitive.
pub proof fn precedes_transitive(a: Seq<char>, b: Seq<char>, c: Seq<char>)
    requires
        precedes(a, b),
        precedes(b, c),
    ensures
        precedes(a, c),
    decreases a.len(),
{
    if a.len() > 0 && b.len() > 0 && c.len() > 0 && a[0] == b[0] && b[0] == c[0] {
        precedes_transitive(a.skip(1), b.skip(1), c.skip(1));
    }
}

/// Of two different texts one comes before the other.
pub proof fn precedes_total(a: Seq<char>, b: Seq<char>)
    ensures
        a == b || precedes(a, b) || precedes(b, a),
    decreases a.len(),
{
    if a.len() > 0 && b.len() > 0 && a[0] == b[0] {
        precedes_total(a.skip(1), b.skip(1));
        if a.skip(1) == b.skip(1) {
            assert(a =~= seq![a[0]] + a.skip(1));
            assert(b =~= seq![b[0]] + b.skip(1));
        }
    } else if a.len() == 0 && b.len() == 0 {
        assert(a =~= b);
    }
}

/// Of two texts at most one comes before the other.
pub proof fn precedes_asymmetric(a: Seq<char>, b: Seq<char>)
    requires
        precedes(a, b),
    ensures
        !precedes(b, a),
        a != b,
{
    precedes_irreflexive(a);
    if precedes(b, a) {
        precedes_transitive(a, b, a);
    }
}

pub fn str_precedes(a: &str, b: &str) -> (r: bool)
    ensures
        r == precedes(a@, b@),
{
    let x = chars_of(a);
    let y = chars_of(b);
    let mut i: usize = 0;
    assert(x@.skip(0) =~= x@);
    assert(y@.skip(0) =~= y@);
    while i < x.len() && i < y.len()
        invariant
            i <= x@.len(),
            i <= y@.len(),
            x@ == a@,
            y@ == b@,
            precedes(a@, b@) == precedes(x@.skip(i as int), y@.skip(i as int)),
        decreases x@.len() - i,
    {
        if x[i] != y[i] {
            return x[i] < y[i];
        }
        assert(x@.skip(i as int).skip(1) =~= x@.skip(i + 1));
        assert(y@.skip(i as int).skip(1) =~= y@.skip(i + 1));
        i += 1;
    }
    i < y.len()
}

/// Each text comes before all that follow it.
pub open spec fn ascending(v: Seq<Seq<char>>) -> bool {
    forall|i: int, j: int| 0 <= i < j < v.len() ==> precedes(#[trigger] v[i], #[trigger] v[j])
}

/// Puts `s` into its place in an ascending list, unless it is there already.
pub fn insert_ascending(v: &mut Vec<String>, s: String)
    requires
        ascending(texts(old(v)@)),
    ensures
        ascending(texts(final(v)@)),
        forall|t: Seq<char>| #[trigger]
            texts(final(v)@).contains(t) <==> (texts(old(v)@).contains(t) || t == s@),
{
    let mut i: usize = 0;
    while i < v.len() && str_precedes(&v[i], &s)
        invariant
            i <= v@.len(),
            v@ == old(v)@,
            forall|j: int| 0 <= j < i ==> precedes((#[trigger] v@[j])@, s@),
        decreases v@.len() - i,
    {
        i += 1;
    }
    let ghost before = texts(v@);
    if i < v.len() && str_eq(&v[i], &s) {
        proof {
            assert(before[i as int] == s@);
        }
        return;
    }
    let ghost key = s@;
    v.insert(i, s);
    proof {
        let after = texts(v@);
        assert(after =~= before.insert(i as int, key));
        if i < before.len() {
            precedes_total(before[i as int], key);
        }
        assert forall|a: int, b: int| 0 <= a < b < after.len() implies precedes(
            #[trigger] after[a],
            #[trigger] after[b],
        ) by {
            if a < i && b == i {
                assert(before[a] == old(v)@[a]@);
            } else if a == i && b > i {
                if b > i + 1 {
                    assert(precedes(before[i as int], before[b - 1]));
                    precedes_transitive(key, before[i as int], before[b - 1]);
                }
            } else {
                let x = if a < i { a } else { a - 1 };
                let y = if b < i { b } else { b - 1 };
                assert(precedes(before[x], before[y]));
            }
        }
        assert forall|t: Seq<char>| #[trigger]
            after.contains(t) <==> (before.contains(t) || t == key) by {
            if after.contains(t) {
                let k = choose|k: int| 0 <= k < after.len() && after[k] == t;
                if k < i {
                    assert(before[k] == t);
                } else if k > i {
                    assert(before[k - 1] == t);
                }
            }
            if before.contains(t) {
                let k = choose|k: int| 0 <= k < before.len() && before[k] == t;
                if k < i {
                    assert(after[k] == t);
                } else {
                    assert(after[k + 1] == t);
                }
            }
            if t == key {
                assert(after[i as int] == t);
            }
        }
    }
}

pub fn eq_ignore_case(a: &str, b: &str) -> (r: bool)
    ensures
        r == same_ignoring_case(a@, b@),
{
    let x = lower_string(a);
    let y = lower_string(b);
    str_eq(&x, &y)
}

pub fn lower_string(s: &str) -> (r: String)
    ensures
        r@ == lower(s@),
{
    let mut out: String = String::new();
    for c in it: s.chars()
        invariant
            it.seq() == s@,
            out@ == lower(s@).take(it.index()),
    {
        out.push(lower_char(c));
    }
    assert(out@ =~= lower(s@));
    out
}

// ---------------------------------------------------------------------------------------
// Searching

/// What `str::to_lowercase` of the standard library makes of a text.
pub uninterp spec fn lowercase(s: Seq<char>) -> Seq<char>;

/// `str::to_lowercase` of the standard library. Its result is a function of the text alone;
/// on a text of ASCII characters it changes the ASCII capitals and nothing else. What it does
/// to other characters follows the Unicode tables and is not stated.
#[verifier::external_body]
pub(crate) fn to_lowercase(s: &str) -> (r: String)
    ensures
        r@ == lowercase(s@),
        (forall|i: int| 0 <= i < s@.len() ==> (#[trigger] s@[i] as u32) < 128) ==> r@ == lower(s@),
{
    s.to_lowercase()
}

pub open spec fn begins(s: Seq<char>, p: Seq<char>) -> bool {
    p.len() <= s.len() && s.take(p.len() as int) == p
}

pub open spec fn ends(s: Seq<char>, p: Seq<char>) -> bool {
    p.len() <= s.len() && s.skip(s.len() - p.len()) == p
}

/// `p` stands in `s` at position `i`.
pub open spec fn stands_at(s: Seq<char>, p: Seq<char>, i: int) -> bool {
    0 <= i && i + p.len() <= s.len() && s.subrange(i, i + p.len() as int) == p
}

pub open spec fn holds(s: Seq<char>, p: Seq<char>) -> bool {
    exists|i: int| stands_at(s, p, i)
}

pub fn starts_with(s: &str, p: &str) -> (r: bool)
    ensures
        r == begins(s@, p@),
{
    let x = chars_of(s);
    let y = chars_of(p);
    if y.len() > x.len() {
        return false;
    }
    chars_at(&x, &y, 0)
}

pub fn ends_with(s: &str, p: &str) -> (r: bool)
    ensures
        r == ends(s@, p@),
{
    let x = chars_of(s);
    let y = chars_of(p);
    if y.len() > x.len() {
        return false;
    }
    let at: usize = x.len() - y.len();
    assert(x@.skip(at as int) =~= x@.subrange(at as int, at + y@.len()));
    chars_at(&x, &y, at)
}

pub fn chars_at(x: &[char], y: &[char], at: usize) -> (r: bool)
    requires
        at + y@.len() <= x@.len(),
    ensures
        r == stands_at(x@, y@, at as int),
        at == 0 ==> r == begins(x@, y@),
{
    let n: usize = x.len();
    let mut i: usize = 0;
    while i < y.len()
        invariant
            i <= y@.len(),
            at + y@.len() <= x@.len() == n,
            forall|j: int| 0 <= j < i ==> x@[at + j] == y@[j],
        decreases y@.len() - i,
    {
        if x[at + i] != y[i] {
            proof {
                assert(x@.subrange(at as int, at + y@.len())[i as int] == x@[at + i]);
                if at == 0 {
                    assert(x@.take(y@.len() as int)[i as int] == x@[i as int]);
                }
            }
            return false;
        }
        i += 1;
    }
    proof {
        assert(x@.subrange(at as int, at + y@.len()) =~= y@);
        if at == 0 {
            assert(x@.take(y@.len() as int) =~= y@);
        }
    }
    true
}

pub fn contains(s: &str, p: &str) -> (r: bool)
    ensures
        r == holds(s@, p@),
{
    let x = chars_of(s);
    let y = chars_of(p);
    if y.len() > x.len() {
        return false;
    }
    let last: usize = x.len() - y.len();
    let mut i: usize = 0;
    while i < last
        invariant
            i <= last,
            last == x@.len() - y@.len(),
            x@ == s@,
            y@ == p@,
            forall|j: int| 0 <= j < i ==> !stands_at(s@, p@, j),
        decreases last - i,
    {
        if chars_at(&x, &y, i) {
            return true;
        }
        i += 1;
    }
    chars_at(&x, &y, last)
}

/// The first position at or after `from` that holds `c`; the length of `s` where none does.
pub open spec fn index_from(s: Seq<char>, c: char, from: int) -> int
    decreases s.len() - from,
{
    if from < 0 || from >= s.len() {
        s.len() as int
    } else if s[from] == c {
        from
    } else {
        index_from(s, c, from + 1)
    }
}

pub fn find_char(cs: &[char], c: char, from: usize) -> (r: usize)
    requires
        from <= cs@.len(),
    ensures
        r == index_from(cs@, c, from as int),
        from <= r <= cs@.len(),
        r < cs@.len() ==> cs@[r as int] == c,
        forall|j: int| from <= j < r ==> cs@[j] != c,
{
    let mut i: usize = from;
    while i < cs.len() && cs[i] != c
        invariant
            from <= i <= cs@.len(),
            index_from(cs@, c, from as int) == index_from(cs@, c, i as int),
            forall|j: int| from <= j < i ==> cs@[j] != c,
        decreases cs@.len() - i,
    {
        i += 1;
    }
    i
}

pub fn contains_char(s: &str, c: char) -> (r: bool)
    ensures
        r == s@.contains(c),
{
    let x = chars_of(s);
    let i: usize = find_char(&x, c, 0);
    if i < x.len() {
        assert(s@[i as int] == c);
        true
    } else {
        false
    }
}

/// Whether a list of strings holds the text `s`.
pub fn list_contains(v: &Vec<String>, s: &str) -> (r: bool)
    ensures
        r == texts(v@).contains(s@),
{
    let mut i: usize = 0;
    while i < v.len()
        invariant
            i <= v@.len(),
            forall|j: int| 0 <= j < i ==> (#[trigger] v@[j])@ != s@,
        decreases v@.len() - i,
    {
        if str_eq(&v[i], s) {
            assert(texts(v@)[i as int] == s@);
            return true;
        }
        i += 1;
    }
    proof {
        assert forall|j: int| 0 <= j < texts(v@).len() implies texts(v@)[j] != s@ by {
            assert(texts(v@)[j] == v@[j]@);
        }
    }
    false
}

/// The last position up to `i` at which `p` stands in `s`, if there is one.
pub open spec fn last_before(s: Seq<char>, p: Seq<char>, i: int) -> Option<int>
    decreases i + 1,
{
    if i < 0 {
        None
    } else if stands_at(s, p, i) {
        Some(i)
    } else {
        last_before(s, p, i - 1)
    }
}

/// What stands before and behind the last occurrence of `p` in `s`.
pub open spec fn cut_last(s: Seq<char>, p: Seq<char>) -> Option<(Seq<char>, Seq<char>)> {
    match last_before(s, p, s.len() as int) {
        Some(i) => Some((s.take(i), s.skip(i + p.len()))),
        None => None,
    }
}

pub fn cut_at_last(s: &str, p: &str) -> (r: Option<(String, String)>)
    ensures
        match r {
            Some((a, b)) => cut_last(s@, p@) == Some((a@, b@)),
            None => cut_last(s@, p@) is None,
        },
{
    let x = chars_of(s);
    let y = chars_of(p);
    let n: usize = x.len();
    let m: usize = y.len();
    let mut i: usize = n;
    loop
        invariant
            n == x@.len(),
            m == y@.len(),
            x@ == s@,
            y@ == p@,
            i <= n,
            last_before(s@, p@, s@.len() as int) == last_before(s@, p@, i as int),
        decreases i,
    {
        if m <= n - i {
            if chars_at(&x, &y, i) {
                let a = sub_string(&x, 0, i);
                let b = sub_string(&x, i + m, n);
                proof {
                    assert(a@ =~= s@.take(i as int));
                    assert(b@ =~= s@.skip(i + m));
                }
                return Some((a, b));
            }
        }
        if i == 0 {
            assert(last_before(s@, p@, -1) is None);
            return None;
        }
        i -= 1;
    }
}

// ---------------------------------------------------------------------------------------
// Trimming

pub open spec fn trim_start(s: Seq<char>) -> Seq<char>
    decreases s.len(),
{
    if s.len() > 0 && is_space(s[0]) {
        trim_start(s.skip(1))
    } else {
        s
    }
}

pub open spec fn trim_end(s: Seq<char>) -> Seq<char>
    decreases s.len(),
{
    if s.len() > 0 && is_space(s.last()) {
        trim_end(s.drop_last())
    } else {
        s
    }
}

/// `s` without the white space at both ends.
pub open spec fn trim(s: Seq<char>) -> Seq<char> {
    trim_end(trim_start(s))
}

/// `s` without the run of `c` at its end.
pub open spec fn strip_end(s: Seq<char>, c: char) -> Seq<char>
    decreases s.len(),
{
    if s.len() > 0 && s.last() == c {
        strip_end(s.drop_last(), c)
    } else {
        s
    }
}

pub fn trim_chars(cs: &[char]) -> (r: Vec<char>)
    ensures
        r@ == trim(cs@),
{
    let mut from: usize = 0;
    assert(cs@.skip(0) =~= cs@);
    while from < cs.len() && space(cs[from])
        invariant
            from <= cs@.len(),
            trim_start(cs@) == trim_start(cs@.skip(from as int)),
        decreases cs@.len() - from,
    {
        assert(cs@.skip(from as int).skip(1) =~= cs@.skip(from + 1));
        from += 1;
    }
    let mut to: usize = cs.len();
    assert(cs@.subrange(from as int, to as int) =~= cs@.skip(from as int));
    while to > from && space(cs[to - 1])
        invariant
            from <= to <= cs@.len(),
            trim(cs@) == trim_end(cs@.subrange(from as int, to as int)),
        decreases to,
    {
        assert(cs@.subrange(from as int, to as int).drop_last() =~= cs@.subrange(
            from as int,
            to - 1,
        ));
        to -= 1;
    }
    sub_chars(cs, from, to)
}

pub fn trimmed(s: &str) -> (r: String)
    ensures
        r@ == trim(s@),
{
    let cs = chars_of(s);
    let t = trim_chars(&cs);
    string_of(&t)
}

pub fn trimmed_end(s: &str) -> (r: String)
    ensures
        r@ == trim_end(s@),
{
    let cs = chars_of(s);
    let mut n: usize = cs.len();
    assert(s@.take(n as int) =~= s@);
    while n > 0 && space(cs[n - 1])
        invariant
            n <= cs@.len(),
            cs@ == s@,
            trim_end(s@) == trim_end(s@.take(n as int)),
        decreases n,
    {
        assert(s@.take(n as int).drop_last() =~= s@.take(n - 1));
        n -= 1;
    }
    let out = sub_string(&cs, 0, n);
    assert(out@ =~= s@.take(n as int));
    out
}

pub fn strip_end_char(s: &str, c: char) -> (r: String)
    ensures
        r@ == strip_end(s@, c),
{
    let cs = chars_of(s);
    let mut to: usize = cs.len();
    assert(cs@.subrange(0, to as int) =~= cs@);
    while to > 0 && cs[to - 1] == c
        invariant
            to <= cs@.len(),
            strip_end(cs@, c) == strip_end(cs@.subrange(0, to as int), c),
        decreases to,
    {
        assert(cs@.subrange(0, to as int).drop_last() =~= cs@.subrange(0, to - 1));
        to -= 1;
    }
    sub_string(&cs, 0, to)
}

// ---------------------------------------------------------------------------------------
// Splitting

/// The pieces of `s` between occurrences of `c`, from `start` on, where the piece that
/// begins at `start` is known to hold no `c` before `i`.
pub open spec fn split_from(s: Seq<char>, c: char, start: int, i: int) -> Seq<Seq<char>>
    decreases s.len() - i,
{
    if i < 0 || i >= s.len() {
        seq![s.subrange(start, s.len() as int)]
    } else if s[i] == c {
        seq![s.subrange(start, i)] + split_from(s, c, i + 1, i + 1)
    } else {
        split_from(s, c, start, i + 1)
    }
}

/// The pieces of `s` between the occurrences of `c`.
pub open spec fn split_on(s: Seq<char>, c: char) -> Seq<Seq<char>> {
    split_from(s, c, 0, 0)
}

pub fn split_chars(cs: &[char], c: char) -> (r: Vec<String>)
    ensures
        texts(r@) == split_on(cs@, c),
        r@.len() >= 1,
{
    let mut out: Vec<String> = Vec::new();
    let mut start: usize = 0;
    let mut i: usize = 0;
    assert(texts(out@) + split_from(cs@, c, 0, 0) =~= split_on(cs@, c));
    while i < cs.len()
        invariant
            start <= i <= cs@.len(),
            texts(out@) + split_from(cs@, c, start as int, i as int) == split_on(cs@, c),
        decreases cs@.len() - i,
    {
        if cs[i] == c {
            let ghost before = texts(out@);
            out.push(sub_string(cs, start, i));
            assert(texts(out@) =~= before.push(cs@.subrange(start as int, i as int)));
            start = i + 1;
            proof {
                let piece = out@.last()@;
                assert(before + (seq![piece] + split_from(cs@, c, i + 1, i + 1)) =~= before.push(
                    piece,
                ) + split_from(cs@, c, i + 1, i + 1));
            }
        }
        i += 1;
    }
    let ghost before = texts(out@);
    out.push(sub_string(cs, start, cs.len()));
    assert(texts(out@) =~= before + seq![cs@.subrange(start as int, cs@.len() as int)]);
    out
}

pub fn split_string(s: &str, c: char) -> (r: Vec<String>)
    ensures
        texts(r@) == split_on(s@, c),
        r@.len() >= 1,
{
    let cs = chars_of(s);
    split_chars(&cs, c)
}

/// The first half of `s` at the first `c`, and what follows that `c`.
pub open spec fn cut(s: Seq<char>, c: char) -> Option<(Seq<char>, Seq<char>)> {
    let i = index_from(s, c, 0);
    if i < s.len() {
        Some((s.take(i), s.skip(i + 1)))
    } else {
        None
    }
}

pub fn cut_at(s: &str, c: char) -> (r: Option<(String, String)>)
    ensures
        match r {
            Some((a, b)) => cut(s@, c) == Some((a@, b@)),
            None => cut(s@, c) is None,
        },
{
    let cs = chars_of(s);
    let i: usize = find_char(&cs, c, 0);
    if i < cs.len() {
        let a = sub_string(&cs, 0, i);
        let b = sub_string(&cs, i + 1, cs.len());
        assert(a@ =~= s@.take(i as int));
        assert(b@ =~= s@.skip(i + 1));
        Some((a, b))
    } else {
        None
    }
}

/// `line` as a text line ends: without the line feed and the carriage return before it.
pub open spec fn without_cr(line: Seq<char>) -> Seq<char> {
    if line.len() > 0 && line.last() == '\r' {
        line.drop_last()
    } else {
        line
    }
}

/// The lines of a text, from position `start` on: each ends at a line feed, which together
/// with a carriage return before it is left out; what follows the last line feed is a line
/// of its own unless it is empty.
pub open spec fn lines_from(s: Seq<char>, start: int) -> Seq<Seq<char>>
    decreases s.len() - start,
{
    if start < 0 || start >= s.len() {
        Seq::empty()
    } else {
        let i = index_from(s, '\n', start);
        if i < start || i >= s.len() {
            seq![s.subrange(start, s.len() as int)]
        } else {
            seq![without_cr(s.subrange(start, i))] + lines_from(s, i + 1)
        }
    }
}

pub open spec fn lines(s: Seq<char>) -> Seq<Seq<char>> {
    lines_from(s, 0)
}

pub fn lines_of(s: &str) -> (r: Vec<String>)
    ensures
        texts(r@) == lines(s@),
{
    let cs = chars_of(s);
    let mut out: Vec<String> = Vec::new();
    let mut start: usize = 0;
    assert(texts(out@) + lines_from(cs@, 0) =~= lines(cs@));
    while start < cs.len()
        invariant
            start <= cs@.len(),
            texts(out@) + lines_from(cs@, start as int) == lines(cs@),
        decreases cs@.len() - start,
    {
        let i: usize = find_char(&cs, '\n', start);
        let ghost before = texts(out@);
        if i == cs.len() {
            let piece = sub_string(&cs, start, i);
            out.push(piece);
            assert(texts(out@) =~= before + seq![cs@.subrange(start as int, i as int)]);
            assert(lines_from(cs@, i as int) =~= Seq::<Seq<char>>::empty());
            assert(texts(out@) + lines_from(cs@, i as int) =~= texts(out@));
            start = i;
        } else {
            let to: usize = if i > start && cs[i - 1] == '\r' { i - 1 } else { i };
            let piece = sub_string(&cs, start, to);
            proof {
                let line = cs@.subrange(start as int, i as int);
                assert(i > start ==> line.last() == cs@[i - 1]);
                assert(piece@ =~= without_cr(line));
                assert(before + (seq![piece@] + lines_from(cs@, i + 1)) =~= before.push(piece@)
                    + lines_from(cs@, i + 1));
            }
            out.push(piece);
            assert(texts(out@) =~= before.push(piece@));
            start = i + 1;
        }
    }
    assert(lines_from(cs@, start as int) =~= Seq::<Seq<char>>::empty());
    assert(texts(out@) + lines_from(cs@, start as int) =~= texts(out@));
    out
}

/// The maximal runs of characters that are no white space, from `i` on, where the run that
/// `i` belongs to begins at `start`.
pub open spec fn words_from(s: Seq<char>, start: int, i: int) -> Seq<Seq<char>>
    decreases s.len() - i,
{
    if i < 0 || i >= s.len() {
        if start < s.len() {
            seq![s.subrange(start, s.len() as int)]
        } else {
            Seq::empty()
        }
    } else if is_space(s[i]) {
        if start < i {
            seq![s.subrange(start, i)] + words_from(s, i + 1, i + 1)
        } else {
            words_from(s, i + 1, i + 1)
        }
    } else {
        words_from(s, start, i + 1)
    }
}

/// The pieces of `s` between white space.
pub open spec fn words(s: Seq<char>) -> Seq<Seq<char>> {
    words_from(s, 0, 0)
}

pub fn words_of(s: &str) -> (r: Vec<String>)
    ensures
        texts(r@) == words(s@),
{
    let cs = chars_of(s);
    let mut out: Vec<String> = Vec::new();
    let mut start: usize = 0;
    let mut i: usize = 0;
    assert(texts(out@) + words_from(cs@, 0, 0) =~= words(cs@));
    while i < cs.len()
        invariant
            start <= i <= cs@.len(),
            texts(out@) + words_from(cs@, start as int, i as int) == words(cs@),
        decreases cs@.len() - i,
    {
        if space(cs[i]) {
            if start < i {
                let ghost before = texts(out@);
                let piece = sub_string(&cs, start, i);
                proof {
                    assert(before + (seq![piece@] + words_from(cs@, i + 1, i + 1))
                        =~= before.push(piece@) + words_from(cs@, i + 1, i + 1));
                }
                out.push(piece);
                assert(texts(out@) =~= before.push(piece@));
            }
            start = i + 1;
        }
        i += 1;
    }
    if start < cs.len() {
        let ghost before = texts(out@);
        let piece = sub_string(&cs, start, cs.len());
        out.push(piece);
        assert(texts(out@) =~= before + seq![piece@]);
    } else {
        assert(texts(out@) + Seq::<Seq<char>>::empty() =~= texts(out@));
    }
    out
}

pub fn join_strings(v: &Vec<String>, sep: &str) -> (r: String)
    ensures
        r@ == join(texts(v@), sep@),
{
    let mut out: String = String::new();
    let mut i: usize = 0;
    assert(texts(v@).take(0) =~= Seq::<Seq<char>>::empty());
    while i < v.len()
        invariant
            i <= v@.len(),
            out@ == join(texts(v@).take(i as int), sep@),
        decreases v@.len() - i,
    {
        if i > 0 {
            out.append(sep);
        }
        out.append(v[i].as_str());
        proof {
            let t = texts(v@);
            assert(t.take(i + 1).drop_last() =~= t.take(i as int));
            assert(t.take(i + 1).last() == t[i as int]);
            if i == 0 {
                assert(Seq::<char>::empty() + t[0] =~= t[0]);
            }
        }
        i += 1;
    }
    assert(texts(v@).take(v@.len() as int) =~= texts(v@));
    out
}

// ---------------------------------------------------------------------------------------
// Numbers

pub open spec fn digit_value(c: char) -> int {
    c as int - '0' as int
}

pub open spec fn all_digits(s: Seq<char>) -> bool {
    forall|i: int| 0 <= i < s.len() ==> is_digit(#[trigger] s[i])
}

/// The number that a run of decimal digits stands for.
pub open spec fn decimal(s: Seq<char>) -> int
    decreases s.len(),
{
    if s.len() == 0 {
        0
    } else {
        decimal(s.drop_last()) * 10 + digit_value(s.last())
    }
}

/// What follows an optional leading plus sign.
pub open spec fn unsigned_part(s: Seq<char>) -> Seq<char> {
    if s.len() > 0 && s[0] == '+' {
        s.skip(1)
    } else {
        s
    }
}

/// The unsigned number that `s` is written as, if it is one and at most `max`.
pub open spec fn number(s: Seq<char>, max: int) -> Option<int> {
    let d = unsigned_part(s);
    if d.len() > 0 && all_digits(d) && decimal(d) <= max {
        Some(decimal(d))
    } else {
        None
    }
}

pub fn parse_number(s: &str, max: u64) -> (r: Option<u64>)
    ensures
        match r {
            Some(n) => number(s@, max as int) == Some(n as int),
            None => number(s@, max as int) is None,
        },
{
    let cs = chars_of(s);
    let from: usize = if cs.len() > 0 && cs[0] == '+' { 1 } else { 0 };
    let d = sub_chars(&cs, from, cs.len());
    assert(d@ =~= unsigned_part(s@));
    if d.len() == 0 {
        return None;
    }
    let mut value: u64 = 0;
    let mut over: bool = false;
    let mut i: usize = 0;
    assert(d@.take(0) =~= Seq::<char>::empty());
    while i < d.len()
        invariant
            i <= d@.len(),
            d@ == unsigned_part(s@),
            forall|j: int| 0 <= j < i ==> is_digit(#[trigger] d@[j]),
            !over ==> value as int == decimal(d@.take(i as int)) && value <= max,
            over ==> decimal(d@.take(i as int)) > max,
        decreases d@.len() - i,
    {
        if !digit(d[i]) {
            assert(!all_digits(d@));
            return None;
        }
        let v: u64 = d[i] as u64 - '0' as u64;
        proof {
            assert(d@.take(i + 1).drop_last() =~= d@.take(i as int));
            assert(d@.take(i + 1).last() == d@[i as int]);
        }
        if !over {
            if v > max || value > (max - v) / 10 {
                over = true;
            } else {
                value = value * 10 + v;
            }
        }
        i += 1;
    }
    assert(d@.take(d@.len() as int) =~= d@);
    if over {
        None
    } else {
        Some(value)
    }
}

pub fn parse_usize(s: &str) -> (r: Option<usize>)
    ensures
        match r {
            Some(n) => number(s@, usize::MAX as int) == Some(n as int),
            None => number(s@, usize::MAX as int) is None,
        },
{
    match parse_number(s, usize::MAX as u64) {
        Some(n) => Some(n as usize),
        None => None,
    }
}

pub fn parse_u32(s: &str) -> (r: Option<u32>)
    ensures
        match r {
            Some(n) => number(s@, u32::MAX as int) == Some(n as int),
            None => number(s@, u32::MAX as int) is None,
        },
{
    match parse_number(s, u32::MAX as u64) {
        Some(n) => Some(n as u32),
        None => None,
    }
}

/// The decimal digits of a number.
pub open spec fn digits_of(n: nat) -> Seq<char>
    decreases n,
{
    if n < 10 {
        seq![(('0' as u32 + n) as u32) as char]
    } else {
        digits_of(n / 10).push((('0' as u32 + n % 10) as u32) as char)
    }
}

pub fn number_text(n: u64) -> (r: String)
    ensures
        r@ == digits_of(n as nat),
    decreases n,
{
    let d: u8 = (n % 10) as u8;
    let c: char = (48u8 + d) as char;
    if n < 10 {
        let mut out: String = String::new();
        out.push(c);
        assert(out@ =~= digits_of(n as nat));
        out
    } else {
        let mut out = number_text(n / 10);
        out.push(c);
        out
    }
}

/// A number in decimal, with a minus sign where it is negative.
pub open spec fn signed_digits(n: int) -> Seq<char> {
    if n < 0 {
        "-"@ + digits_of((-n) as nat)
    } else {
        digits_of(n as nat)
    }
}

pub fn signed_text(n: i64) -> (r: String)
    ensures
        r@ == signed_digits(n as int),
{
    if n < 0 {
        let mut out: String = "-".to_string();
        let m: u64 = if n == i64::MIN {
            9223372036854775808u64
        } else {
            (-n) as u64
        };
        let d = number_text(m);
        out.append(&d);
        out
    } else {
        number_text(n as u64)
    }
}

/// Appends a text to a list.
pub fn push_str(v: &mut Vec<String>, s: &str)
    ensures
        texts(final(v)@) == texts(old(v)@).push(s@),
{
    let ghost before = texts(v@);
    v.push(s.to_string());
    assert(texts(v@) =~= before.push(s@));
}

/// Appends all texts of `more` to a list.
pub fn push_strs(v: &mut Vec<String>, more: &Vec<String>)
    ensures
        texts(final(v)@) == texts(old(v)@) + texts(more@),
{
    let ghost before = texts(v@);
    let mut i: usize = 0;
    assert(texts(more@).take(0) =~= Seq::<Seq<char>>::empty());
    assert(before + texts(more@).take(0) =~= before);
    while i < more.len()
        invariant
            i <= more@.len(),
            texts(v@) == before + texts(more@).take(i as int),
        decreases more@.len() - i,
    {
        let ghost mid = texts(v@);
        push_str(v, &more[i]);
        proof {
            assert(texts(more@)[i as int] == more@[i as int]@);
            assert(mid.push(more@[i as int]@) =~= before + texts(more@).take(i + 1));
        }
        i += 1;
    }
    assert(texts(more@).take(more@.len() as int) =~= texts(more@));
}

/// A text without its last character.
pub fn drop_last_char(s: &str) -> (r: String)
    ensures
        r@ == if s@.len() > 0 {
            s@.drop_last()
        } else {
            s@
        },
{
    let cs = chars_of(s);
    if cs.len() == 0 {
        return s.to_string();
    }
    let out = sub_string(&cs, 0, cs.len() - 1);
    assert(out@ =~= s@.drop_last());
    out
}

pub fn text2(a: &str, b: &str) -> (r: String)
    ensures
        r@ == a@ + b@,
{
    let mut out: String = a.to_string();
    out.append(b);
    out
}

pub fn text3(a: &str, b: &str, c: &str) -> (r: String)
    ensures
        r@ == a@ + b@ + c@,
{
    let mut out: String = a.to_string();
    out.append(b);
    out.append(c);
    out
}

/// An empty list of strings.
pub fn no_strings() -> (r: Vec<String>)
    ensures
        texts(r@) == Seq::<Seq<char>>::empty(),
        r@.len() == 0,
{
    let r: Vec<String> = Vec::new();
    assert(texts(r@) =~= Seq::<Seq<char>>::empty());
    r
}

/// Reading back the digits of a number gives that number.
pub proof fn digits_read_back(n: nat)
    ensures
        all_digits(digits_of(n)),
        digits_of(n).len() > 0,
        digits_of(n)[0] != '+',
        decimal(digits_of(n)) == n,
    decreases n,
{
    if n < 10 {
        let s = digits_of(n);
        assert(s.drop_last() =~= Seq::<char>::empty());
        assert(decimal(s) == decimal(s.drop_last()) * 10 + digit_value(s.last()));
    } else {
        digits_read_back(n / 10);
        let s = digits_of(n);
        assert(s.drop_last() =~= digits_of(n / 10));
        assert forall|i: int| 0 <= i < s.len() implies is_digit(#[trigger] s[i]) by {
            if i < s.len() - 1 {
                assert(s[i] == digits_of(n / 10)[i]);
            }
        }
    }
}

/// A number written in decimal is read back unchanged.
pub proof fn number_round_trip(n: nat, max: int)
    requires
        n <= max,
    ensures
        number(digits_of(n), max) == Some(n as int),
{
    digits_read_back(n);
}

} // verus!
