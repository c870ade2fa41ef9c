//! Packages of the Arch User Repository and the queries that find them.
use crate::download::Attempt;
use crate::strmap::StrMap;
use crate::strmap;
use crate::text::{chars_of, join_strings, sub_string};
use crate::text;
use vstd::prelude::*;
use vstd::string::*;
use vstd::utf8::*;

verus! {

/// One package as the AUR describes it.
#[derive(Debug, Clone)]
pub struct AurItem {
    pub name: String,
    pub package_base: Option<String>,
    pub version: String,
    pub description: Option<String>,
    pub last_modified: Option<i64>,
    pub depends: Vec<String>,
    pub make_depends: Vec<String>,
    pub conflicts: Vec<String>,
}

// ---------------------------------------------------------------------------------------
// Dependency names

pub open spec fn constraint_char(c: char) -> bool {
    c == '<' || c == '>' || c == '='
}

/// The first position from `i` on where a version constraint begins.
pub open spec fn constraint_from(s: Seq<char>, i: int) -> int
    decreases s.len() - i,
{
    if i < 0 || i >= s.len() {
        s.len() as int
    } else if constraint_char(s[i]) {
        i
    } else {
        constraint_from(s, i + 1)
    }
}

/// The name in a dependency, without its version constraint.
pub open spec fn dep_name(dep: Seq<char>) -> Seq<char> {
    dep.take(constraint_from(dep, 0))
}

pub fn clean_dep_name(dep: &str) -> (r: String)
    ensures
        r@ == dep_name(dep@),
{
    let cs = chars_of(dep);
    let mut i: usize = 0;
    while i < cs.len() && !(cs[i] == '<' || cs[i] == '>' || cs[i] == '=')
        invariant
            i <= cs@.len(),
            constraint_from(cs@, 0) == constraint_from(cs@, i as int),
        decreases cs@.len() - i,
    {
        i += 1;
    }
    let out = sub_string(&cs, 0, i);
    assert(out@ =~= dep_name(dep@));
    out
}

proof fn constraint_from_bounds(s: Seq<char>, i: int)
    requires
        0 <= i <= s.len(),
    ensures
        i <= constraint_from(s, i) <= s.len(),
        forall|k: int| i <= k < constraint_from(s, i) ==> !constraint_char(#[trigger] s[k]),
    decreases s.len() - i,
{
    if i < s.len() && !constraint_char(s[i]) {
        constraint_from_bounds(s, i + 1);
    }
}

proof fn constraint_from_absent(s: Seq<char>, i: int)
    requires
        0 <= i <= s.len(),
        forall|k: int| i <= k < s.len() ==> !constraint_char(#[trigger] s[k]),
    ensures
        constraint_from(s, i) == s.len(),
    decreases s.len() - i,
{
    if i < s.len() {
        assert(!constraint_char(s[i]));
        constraint_from_absent(s, i + 1);
    }
}

/// Cleaning a dependency that has no version constraint changes nothing, so cleaning twice
/// is the same as cleaning once.
pub proof fn clean_twice(dep: Seq<char>)
    ensures
        dep_name(dep_name(dep)) == dep_name(dep),
        forall|k: int| 0 <= k < dep_name(dep).len() ==> !constraint_char(#[trigger] dep_name(dep)[k]),
{
    constraint_from_bounds(dep, 0);
    let d = dep_name(dep);
    assert forall|k: int| 0 <= k < d.len() implies !constraint_char(#[trigger] d[k]) by {
        assert(d[k] == dep[k]);
    }
    constraint_from_absent(d, 0);
    assert(d.take(d.len() as int) =~= d);
}

// ---------------------------------------------------------------------------------------
// Queries

pub open spec fn plain_byte(b: u8) -> bool {
    ||| 97 <= b <= 122
    ||| 65 <= b <= 90
    ||| 48 <= b <= 57
    ||| b == 45
    ||| b == 95
    ||| b == 46
    ||| b == 126
}

/// The capital hexadecimal digit for a value below sixteen.
pub open spec fn hex_digit(v: u8) -> char {
    if v < 10 {
        (48 + v) as u8 as char
    } else {
        (55 + v) as u8 as char
    }
}

/// A byte of a query: itself where it needs no escape, else a per cent sign and its value.
pub open spec fn encoded_byte(b: u8) -> Seq<char> {
    if plain_byte(b) {
        seq![b as char]
    } else {
        seq!['%', hex_digit(b / 16), hex_digit(b % 16)]
    }
}

pub open spec fn encoded_bytes(s: Seq<u8>) -> Seq<char>
    decreases s.len(),
{
    if s.len() == 0 {
        Seq::empty()
    } else {
        encoded_bytes(s.drop_last()) + encoded_byte(s.last())
    }
}

fn hex_char(v: u8) -> (r: char)
    requires
        v < 16,
    ensures
        r == hex_digit(v),
{
    if v < 10 {
        (48 + v) as char
    } else {
        (55 + v) as char
    }
}

/// `input` as the value of a query parameter.
pub fn urlencoding(input: &str) -> (r: String)
    ensures
        r@ == encoded_bytes(encode_utf8(input@)),
{
    let bytes = input.as_bytes();
    let mut out: String = String::new();
    let mut i: usize = 0;
    assert(bytes@.take(0) =~= Seq::<u8>::empty());
    while i < bytes.len()
        invariant
            i <= bytes@.len(),
            out@ == encoded_bytes(bytes@.take(i as int)),
        decreases bytes@.len() - i,
    {
        let b: u8 = bytes[i];
        proof {
            assert(bytes@.take(i + 1).drop_last() =~= bytes@.take(i as int));
            assert(bytes@.take(i + 1).last() == b);
        }
        let ghost before = out@;
        if (97 <= b && b <= 122) || (65 <= b && b <= 90) || (48 <= b && b <= 57) || b == 45 || b
            == 95 || b == 46 || b == 126 {
            out.push(b as char);
            assert(out@ =~= before + encoded_byte(b));
        } else {
            out.push('%');
            out.push(hex_char(b / 16));
            out.push(hex_char(b % 16));
            assert(out@ =~= before + encoded_byte(b));
        }
        i += 1;
    }
    assert(bytes@.take(bytes@.len() as int) =~= bytes@);
    out
}

/// Encoded text holds only letters, digits, `-`, `_`, `.`, `~` and `%`.
pub proof fn encoded_is_plain(s: Seq<u8>)
    ensures
        forall|i: int|
            0 <= i < encoded_bytes(s).len() ==> {
                let c = #[trigger] encoded_bytes(s)[i];
                text::is_ascii_word(c) || c == '-' || c == '_' || c == '.' || c == '~' || c == '%'
            },
    decreases s.len(),
{
    if s.len() > 0 {
        encoded_is_plain(s.drop_last());
        let head = encoded_bytes(s.drop_last());
        let tail = encoded_byte(s.last());
        assert forall|i: int| 0 <= i < encoded_bytes(s).len() implies {
            let c = #[trigger] encoded_bytes(s)[i];
            text::is_ascii_word(c) || c == '-' || c == '_' || c == '.' || c == '~' || c == '%'
        } by {
            if i < head.len() {
                assert(encoded_bytes(s)[i] == head[i]);
            } else {
                assert(encoded_bytes(s)[i] == tail[i - head.len()]);
            }
        }
    }
}

/// The parameters of a query for the names `names[from..to]`.
pub open spec fn query_params(names: Seq<Seq<char>>, from: int, to: int) -> Seq<Seq<char>> {
    Seq::new((to - from) as nat, |i: int| "arg[]="@ + encoded_bytes(encode_utf8(names[from + i])))
}

/// The address that describes the packages `names[from..to]`.
pub open spec fn query_url(names: Seq<Seq<char>>, from: int, to: int) -> Seq<char> {
    "https://aur.archlinux.org/rpc/v5/info?"@ + text::join(query_params(names, from, to), "&"@)
}

/// The addresses for all names from `from` on, fifty names to an address.
pub open spec fn query_urls(names: Seq<Seq<char>>, from: int) -> Seq<Seq<char>>
    decreases names.len() - from,
{
    if from < 0 || from >= names.len() {
        Seq::empty()
    } else {
        let to = if from + 50 < names.len() {
            from + 50
        } else {
            names.len() as int
        };
        seq![query_url(names, from, to)] + query_urls(names, to)
    }
}

fn one_query_url(names: &Vec<String>, from: usize, to: usize) -> (r: String)
    requires
        from <= to <= names@.len(),
    ensures
        r@ == query_url(text::texts(names@), from as int, to as int),
{
    let mut params: Vec<String> = Vec::new();
    let mut i: usize = from;
    while i < to
        invariant
            from <= i <= to <= names@.len(),
            text::texts(params@) == query_params(text::texts(names@), from as int, i as int),
        decreases to - i,
    {
        let mut p: String = "arg[]=".to_string();
        let e = urlencoding(&names[i]);
        p.append(&e);
        let ghost before = text::texts(params@);
        params.push(p);
        i += 1;
        proof {
            assert(text::texts(params@) =~= before.push(p@));
            assert(text::texts(params@) =~= query_params(text::texts(names@), from as int, i as int));
        }
    }
    let q = join_strings(&params, "&");
    let mut url: String = "https://aur.archlinux.org/rpc/v5/info?".to_string();
    url.append(&q);
    url
}

/// The addresses to ask for a list of packages, in order.
pub fn aur_query_urls(names: &Vec<String>) -> (r: Vec<String>)
    ensures
        text::texts(r@) == query_urls(text::texts(names@), 0),
{
    let mut out: Vec<String> = Vec::new();
    let mut from: usize = 0;
    assert(text::texts(out@) + query_urls(text::texts(names@), 0) =~= query_urls(text::texts(names@), 0));
    while from < names.len()
        invariant
            from <= names@.len(),
            text::texts(out@) + query_urls(text::texts(names@), from as int) == query_urls(text::texts(names@), 0),
        decreases names@.len() - from,
    {
        let to: usize = if names.len() - from > 50 { from + 50 } else { names.len() };
        let url = one_query_url(names, from, to);
        let ghost before = text::texts(out@);
        proof {
            let rest = query_urls(text::texts(names@), to as int);
            assert(query_urls(text::texts(names@), from as int) == seq![url@] + rest);
            assert(before + (seq![url@] + rest) =~= before.push(url@) + rest);
        }
        out.push(url);
        assert(text::texts(out@) =~= before.push(url@));
        from = to;
    }
    assert(text::texts(out@) + query_urls(text::texts(names@), from as int) =~= text::texts(out@));
    out
}

/// What to do after an attempt at a query.
#[derive(Debug, Clone, Copy, PartialEq, Eq, Structural)]
pub enum QueryStep {
    /// Wait this many milliseconds and try again.
    Attempt { wait_ms: u64 },
    /// The query has been answered.
    Done,
    /// All attempts have failed: warn, and go on without an answer.
    GiveUp,
}

/// The step after `attempts` attempts, the last of which was answered or not: three
/// attempts in all, each after the first one later than the one before.
pub fn query_step(attempts: u32, answered: bool) -> (r: QueryStep)
    ensures
        answered ==> r == QueryStep::Done,
        !answered && attempts >= 3 ==> r == QueryStep::GiveUp,
        !answered && attempts == 0 ==> r == (QueryStep::Attempt { wait_ms: 0 }),
        !answered && 0 < attempts < 3 ==> r == (QueryStep::Attempt {
            wait_ms: (400 * (attempts + 1)) as u64,
        }),
{
    if answered {
        QueryStep::Done
    } else if attempts >= 3 {
        QueryStep::GiveUp
    } else if attempts == 0 {
        QueryStep::Attempt { wait_ms: 0 }
    } else {
        QueryStep::Attempt { wait_ms: 400 * (attempts as u64 + 1) }
    }
}

/// The item that answers to `name` after the items `items[..n]` have been taken over into
/// `known`: the last of that name.
pub open spec fn merged_item(
    known: Seq<(Seq<char>, AurItem)>,
    items: Seq<AurItem>,
    n: int,
    name: Seq<char>,
) -> Option<AurItem>
    decreases n,
{
    if n <= 0 {
        strmap::lookup(known, name)
    } else if items[n - 1].name@ == name {
        Some(items[n - 1])
    } else {
        merged_item(known, items, n - 1, name)
    }
}

/// Takes the items of an answer over into `known`, each under its name.
pub fn merge_items(known: &mut StrMap<AurItem>, items: Vec<AurItem>)
    requires
        old(known).ordered(),
    ensures
        final(known).ordered(),
        forall|name: Seq<char>| #[trigger]
            strmap::lookup(final(known)@, name) == merged_item(old(known)@, items@, items@.len() as int, name),
{
    let ghost all = items@;
    let ghost first = known@;
    let mut rest = items;
    let mut taken: Vec<AurItem> = Vec::new();
    while rest.len() > 0
        invariant
            rest@.len() + taken@.len() == all.len(),
            forall|i: int| 0 <= i < rest@.len() ==> rest@[i] == all[i],
            forall|i: int| 0 <= i < taken@.len() ==> taken@[i] == all[all.len() - 1 - i],
        decreases rest@.len(),
    {
        match rest.pop() {
            Some(x) => {
                taken.push(x);
            },
            None => {},
        }
    }
    let ghost mut n: int = 0;
    while taken.len() > 0
        invariant
            known.ordered(),
            0 <= n <= all.len(),
            taken@.len() == all.len() - n,
            forall|i: int| 0 <= i < taken@.len() ==> taken@[i] == all[all.len() - 1 - i],
            forall|name: Seq<char>| #[trigger]
                strmap::lookup(known@, name) == merged_item(first, all, n, name),
        decreases taken@.len(),
    {
        match taken.pop() {
            Some(x) => {
                assert(x == all[n]);
                let key = x.name.clone();
                known.insert(key, x);
                proof {
                    n = n + 1;
                }
            },
            None => {},
        }
    }
}

} // verus!
