//! Shell style patterns, as the `glob` crate compiles and matches them.
use crate::strmap::StrMap;
use crate::strmap;
use crate::text::contains_char;
use vstd::prelude::*;
use vstd::string::*;
use vstd::utf8::*;

verus! {

/// Whether `glob::Pattern::new` accepts the pattern.
pub uninterp spec fn glob_valid(pattern: Seq<char>) -> bool;

/// What `glob::Pattern::matches` answers for a pattern that compiles.
pub uninterp spec fn glob_match(pattern: Seq<char>, name: Seq<char>) -> bool;

/// Whether a text holds one of the characters that make it a pattern.
pub open spec fn is_glob(pattern: Seq<char>) -> bool {
    pattern.contains('*') || pattern.contains('?') || pattern.contains('[')
}

/// Whether a text holds a path separator of any system.
pub open spec fn has_separator(s: Seq<char>) -> bool {
    s.contains('/') || s.contains('\\')
}

/// The pattern compiles and matches the name.
pub open spec fn glob_hit(pattern: Seq<char>, name: Seq<char>) -> bool {
    glob_valid(pattern) && glob_match(pattern, name)
}

/// `glob::Pattern::new`: whether it accepts the pattern. A text without metacharacters is
/// always accepted.
#[verifier::external_body]
pub(crate) fn pattern_compiles(pattern: &str) -> (r: bool)
    ensures
        r == glob_valid(pattern@),
        !is_glob(pattern@) ==> r,
{
    glob::Pattern::new(pattern).is_ok()
}

/// `glob::Pattern::matches` on the compiled pattern, or nothing where the pattern does not
/// compile. A pattern without metacharacters and separators matches its own text alone.
#[verifier::external_body]
pub(crate) fn pattern_matches(pattern: &str, name: &str) -> (r: Option<bool>)
    ensures
        r == if glob_valid(pattern@) {
            Some(glob_match(pattern@, name@))
        } else {
            None
        },
        !is_glob(pattern@) && !has_separator(pattern@) ==> r == Some(pattern@ == name@),
{
    match glob::Pattern::new(pattern) {
        Ok(p) => Some(p.matches(name)),
        Err(_) => None,
    }
}

/// Whether a text has a metacharacter of patterns in it.
pub fn has_glob_chars(s: &str) -> (r: bool)
    ensures
        r == is_glob(s@),
{
    contains_char(s, '*') || contains_char(s, '?') || contains_char(s, '[')
}

/// Whether `pattern` compiles and matches `name`.
pub fn matches_glob(pattern: &str, name: &str) -> (r: bool)
    ensures
        r == glob_hit(pattern@, name@),
        !is_glob(pattern@) && !has_separator(pattern@) ==> r == (pattern@ == name@),
{
    match pattern_matches(pattern, name) {
        Some(b) => b,
        None => false,
    }
}

/// The length of a text in UTF-8.
pub open spec fn byte_len(s: Seq<char>) -> nat {
    encode_utf8(s).len()
}

/// The place in `order`, at or after `i`, of an entry with `size` bytes: behind all that
/// are at least as long.
pub open spec fn place_for(keys: Seq<Seq<char>>, order: Seq<int>, size: nat, i: int) -> int
    decreases order.len() - i,
{
    if i < 0 || i >= order.len() {
        order.len() as int
    } else if byte_len(keys[order[i]]) < size {
        i
    } else {
        place_for(keys, order, size, i + 1)
    }
}

/// The positions of those of the first `n` keys that are compilable patterns, longest
/// pattern first, and equally long ones in the order of the keys.
pub open spec fn glob_order_upto(keys: Seq<Seq<char>>, n: int) -> Seq<int>
    decreases n,
{
    if n <= 0 {
        Seq::empty()
    } else {
        let order = glob_order_upto(keys, n - 1);
        if is_glob(keys[n - 1]) && glob_valid(keys[n - 1]) {
            order.insert(place_for(keys, order, byte_len(keys[n - 1]), 0), n - 1)
        } else {
            order
        }
    }
}

/// The positions of the keys that are compilable patterns, longest pattern first.
pub open spec fn glob_order(keys: Seq<Seq<char>>) -> Seq<int> {
    glob_order_upto(keys, keys.len() as int)
}

/// The entries of a map whose keys are compilable patterns, longest pattern first.
pub open spec fn glob_rules<V>(entries: Seq<(Seq<char>, V)>) -> Seq<(Seq<char>, V)> {
    let order = glob_order(strmap::keys(entries));
    Seq::new(order.len(), |i: int| entries[order[i]])
}

/// The first rule from `i` on whose pattern matches `name`.
pub open spec fn first_hit<V>(rules: Seq<(Seq<char>, V)>, name: Seq<char>, i: int) -> Option<int>
    decreases rules.len() - i,
{
    if i < 0 || i >= rules.len() {
        None
    } else if glob_hit(rules[i].0, name) {
        Some(i)
    } else {
        first_hit(rules, name, i + 1)
    }
}

pub proof fn place_for_bounds(keys: Seq<Seq<char>>, order: Seq<int>, size: nat, i: int)
    requires
        0 <= i <= order.len(),
    ensures
        i <= place_for(keys, order, size, i) <= order.len(),
        forall|k: int|
            i <= k < place_for(keys, order, size, i) ==> byte_len(keys[#[trigger] order[k]])
                >= size,
        place_for(keys, order, size, i) < order.len() ==> byte_len(
            keys[order[place_for(keys, order, size, i)]],
        ) < size,
    decreases order.len() - i,
{
    if i < order.len() && byte_len(keys[order[i]]) >= size {
        place_for_bounds(keys, order, size, i + 1);
    }
}

/// The order of patterns holds exactly the compilable patterns, each once, and none stands
/// before a longer one.
pub proof fn glob_order_is_longest_first(keys: Seq<Seq<char>>, n: int)
    requires
        0 <= n <= keys.len(),
    ensures
        forall|k: int|
            0 <= k < glob_order_upto(keys, n).len() ==> 0 <= #[trigger] glob_order_upto(keys, n)[k]
                < n && is_glob(keys[glob_order_upto(keys, n)[k]]) && glob_valid(
                keys[glob_order_upto(keys, n)[k]],
            ),
        forall|e: int|
            0 <= e < n && is_glob(keys[e]) && glob_valid(keys[e]) ==> #[trigger] glob_order_upto(
                keys,
                n,
            ).contains(e),
        forall|a: int, b: int|
            0 <= a < b < glob_order_upto(keys, n).len() ==> byte_len(
                keys[#[trigger] glob_order_upto(keys, n)[a]],
            ) >= byte_len(keys[#[trigger] glob_order_upto(keys, n)[b]]),
    decreases n,
{
    if n > 0 {
        glob_order_is_longest_first(keys, n - 1);
        let before = glob_order_upto(keys, n - 1);
        let after = glob_order_upto(keys, n);
        if is_glob(keys[n - 1]) && glob_valid(keys[n - 1]) {
            let size = byte_len(keys[n - 1]);
            let p = place_for(keys, before, size, 0);
            place_for_bounds(keys, before, size, 0);
            assert(after == before.insert(p, n - 1));
            assert forall|e: int|
                0 <= e < n && is_glob(keys[e]) && glob_valid(
                    keys[e],
                ) implies #[trigger] after.contains(e) by {
                if e == n - 1 {
                    assert(after[p] == e);
                } else {
                    assert(before.contains(e));
                    let k = choose|k: int| 0 <= k < before.len() && before[k] == e;
                    if k < p {
                        assert(after[k] == e);
                    } else {
                        assert(after[k + 1] == e);
                    }
                }
            }
            assert forall|a: int, b: int| 0 <= a < b < after.len() implies byte_len(
                keys[#[trigger] after[a]],
            ) >= byte_len(keys[#[trigger] after[b]]) by {
                let x = if a < p { a } else { a - 1 };
                let y = if b < p { b } else { b - 1 };
                if a != p && b != p {
                    assert(after[a] == before[x]);
                    assert(after[b] == before[y]);
                } else if a == p {
                    assert(after[b] == before[b - 1]);
                    if b - 1 > p {
                        assert(byte_len(keys[before[p]]) >= byte_len(keys[before[b - 1]]));
                    }
                } else {
                    assert(after[a] == before[a]);
                }
            }
        }
    }
}

pub proof fn first_hit_is_first<V>(rules: Seq<(Seq<char>, V)>, name: Seq<char>, i: int)
    requires
        0 <= i <= rules.len(),
    ensures
        match first_hit(rules, name, i) {
            Some(k) => i <= k < rules.len() && glob_hit(rules[k].0, name) && forall|j: int|
                i <= j < k ==> !glob_hit((#[trigger] rules[j]).0, name),
            None => forall|j: int|
                i <= j < rules.len() ==> !glob_hit((#[trigger] rules[j]).0, name),
        },
    decreases rules.len() - i,
{
    if i < rules.len() && !glob_hit(rules[i].0, name) {
        first_hit_is_first(rules, name, i + 1);
    }
}

/// The positions of the compilable patterns among the keys of a map, longest first.
pub fn pattern_order<V>(m: &StrMap<V>) -> (r: Vec<usize>)
    ensures
        r@.len() == glob_order(strmap::keys(m@)).len(),
        forall|i: int|
            0 <= i < r@.len() ==> (#[trigger] r@[i]) as int == glob_order(strmap::keys(m@))[i] && r@[i]
                < m@.len(),
{
    let mut out: Vec<usize> = Vec::new();
    let mut n: usize = 0;
    let ghost ks = strmap::keys(m@);
    let count: usize = m.len();
    while n < count
        invariant
            n <= count,
            count == m@.len(),
            ks == strmap::keys(m@),
            out@.len() == glob_order_upto(ks, n as int).len(),
            forall|i: int|
                0 <= i < out@.len() ==> (#[trigger] out@[i]) as int == glob_order_upto(
                    ks,
                    n as int,
                )[i] && out@[i] < n,
        decreases count - n,
    {
        let key = m.key_at(n);
        let ghost before = glob_order_upto(ks, n as int);
        if has_glob_chars(key) && pattern_compiles(key) {
            let size: usize = key.as_str().as_bytes().len();
            let mut i: usize = 0;
            while i < out.len() && m.key_at(out[i]).as_str().as_bytes().len() >= size
                invariant
                    i <= out@.len(),
                    n < count,
                    count == m@.len(),
                    ks == strmap::keys(m@),
                    size == byte_len(ks[n as int]),
                    before == glob_order_upto(ks, n as int),
                    out@.len() == before.len(),
                    forall|j: int|
                        0 <= j < out@.len() ==> (#[trigger] out@[j]) as int == before[j] && out@[j]
                            < n,
                    place_for(ks, before, size as nat, 0) == place_for(
                        ks,
                        before,
                        size as nat,
                        i as int,
                    ),
                decreases out@.len() - i,
            {
                assert(out@[i as int] as int == before[i as int]);
                i += 1;
            }
            proof {
                if i < out@.len() {
                    assert(out@[i as int] as int == before[i as int]);
                }
                assert(i as int == place_for(ks, before, size as nat, 0));
            }
            out.insert(i, n);
        }
        n += 1;
    }
    out
}

} // verus!
