//! What is promised of the operations on text.
use crate::text;
use vstd::prelude::*;
use vstd::string::*;

verus! {

proof fn index_is_first(s: Seq<char>, c: char, from: int)
    requires
        0 <= from <= s.len(),
    ensures
        from <= text::index_from(s, c, from) <= s.len(),
        text::index_from(s, c, from) < s.len() ==> s[text::index_from(s, c, from)] == c,
        forall|i: int| from <= i < text::index_from(s, c, from) ==> #[trigger] s[i] != c,
    decreases s.len() - from,
{
    if from < s.len() && s[from] != c {
        index_is_first(s, c, from + 1);
    }
}

/// A text is cut at the first such character: what stands before it does not hold it, and
/// the two parts with it between them are the text. It is not cut only where it has none.
pub proof fn text_is_cut_at_the_first(s: Seq<char>, c: char)
    ensures
        match text::cut(s, c) {
            Some((a, b)) => s == a.push(c) + b && !a.contains(c),
            None => !s.contains(c),
        },
{
    index_is_first(s, c, 0);
    let i = text::index_from(s, c, 0);
    if i < s.len() {
        assert(s.take(i).push(c) + s.skip(i + 1) =~= s);
        if s.take(i).contains(c) {
            let k = choose|k: int| 0 <= k < i && s.take(i)[k] == c;
            assert(s[k] == c);
        }
    }
}

/// The parts of a text that was put together from them.
pub proof fn cut_takes_apart(a: Seq<char>, c: char, b: Seq<char>)
    requires
        !a.contains(c),
    ensures
        text::cut(a.push(c) + b, c) == Some((a, b)),
{
    let s = a.push(c) + b;
    text_is_cut_at_the_first(s, c);
    assert(s[a.len() as int] == c);
    let (x, y) = text::cut(s, c)->0;
    if x.len() < a.len() {
        assert(s[x.len() as int] == c);
        assert(a[x.len() as int] == c);
    }
    if x.len() > a.len() {
        assert(s[a.len() as int] == x[a.len() as int]);
    }
    assert(x =~= a) by {
        assert forall|i: int| 0 <= i < a.len() implies x[i] == a[i] by {
            assert(s[i] == a[i] && s[i] == x[i]);
        }
    }
    assert(y =~= b) by {
        assert forall|i: int| 0 <= i < b.len() implies y[i] == b[i] by {
            assert(s[a.len() + 1 + i] == b[i]);
        }
    }
}

proof fn last_is_last(s: Seq<char>, p: Seq<char>, i: int)
    ensures
        match text::last_before(s, p, i) {
            Some(k) => 0 <= k <= i && text::stands_at(s, p, k) && forall|j: int|
                k < j <= i ==> !#[trigger] text::stands_at(s, p, j),
            None => forall|j: int| 0 <= j <= i ==> !#[trigger] text::stands_at(s, p, j),
        },
    decreases i + 1,
{
    if i >= 0 {
        last_is_last(s, p, i - 1);
    }
}

/// A text is cut at the last place where another stands in it.
pub proof fn text_is_cut_at_the_last(s: Seq<char>, p: Seq<char>)
    ensures
        match text::cut_last(s, p) {
            Some((a, b)) => s == a + p + b && forall|j: int|
                j > a.len() ==> !#[trigger] text::stands_at(s, p, j),
            None => !text::holds(s, p),
        },
{
    last_is_last(s, p, s.len() as int);
    match text::last_before(s, p, s.len() as int) {
        Some(k) => {
            assert(s.subrange(k, k + p.len()) == p);
            assert(s.take(k) + p + s.skip(k + p.len()) =~= s) by {
                assert forall|x: int| 0 <= x < s.len() implies (s.take(k) + p + s.skip(k + p.len()))[x]
                    == s[x] by {
                    if k <= x < k + p.len() {
                        assert(s.subrange(k, k + p.len())[x - k] == s[x]);
                    }
                }
            }
        },
        None => {},
    }
}

proof fn start_is_trimmed(s: Seq<char>)
    ensures
        ({
            let t = text::trim_start(s);
            &&& t.len() <= s.len()
            &&& s.skip(s.len() - t.len()) == t
            &&& forall|i: int| 0 <= i < s.len() - t.len() ==> text::is_space(#[trigger] s[i])
            &&& t.len() > 0 ==> !text::is_space(t[0])
        }),
    decreases s.len(),
{
    if s.len() > 0 && text::is_space(s[0]) {
        start_is_trimmed(s.skip(1));
        let t = text::trim_start(s);
        assert(s.skip(s.len() - t.len()) =~= s.skip(1).skip(s.len() - 1 - t.len()));
        assert forall|i: int| 0 <= i < s.len() - t.len() implies text::is_space(#[trigger] s[i]) by {
            if i > 0 {
                assert(s.skip(1)[i - 1] == s[i]);
            }
        }
    } else {
        assert(s.skip(0) =~= s);
    }
}

proof fn end_is_trimmed(s: Seq<char>)
    ensures
        ({
            let t = text::trim_end(s);
            &&& t.len() <= s.len()
            &&& s.take(t.len() as int) == t
            &&& forall|i: int| t.len() <= i < s.len() ==> text::is_space(#[trigger] s[i])
            &&& t.len() > 0 ==> !text::is_space(t.last())
        }),
    decreases s.len(),
{
    if s.len() > 0 && text::is_space(s.last()) {
        end_is_trimmed(s.drop_last());
        let t = text::trim_end(s);
        assert(s.take(t.len() as int) =~= s.drop_last().take(t.len() as int));
        assert forall|i: int| t.len() <= i < s.len() implies text::is_space(#[trigger] s[i]) by {
            if i < s.len() - 1 {
                assert(s.drop_last()[i] == s[i]);
            }
        }
    } else {
        assert(s.take(s.len() as int) =~= s);
    }
}

/// What is trimmed off a text is white space at its two ends, and no white space is left at
/// either.
pub proof fn trimming_takes_space_off_the_ends(s: Seq<char>) -> (a: int)
    ensures
        ({
            let t = text::trim(s);
            &&& 0 <= a <= a + t.len() <= s.len()
            &&& s.subrange(a, a + t.len()) == t
            &&& forall|i: int|
                0 <= i < a || a + t.len() <= i < s.len() ==> text::is_space(#[trigger] s[i])
            &&& t.len() > 0 ==> !text::is_space(t[0]) && !text::is_space(t.last())
        }),
{
    let m = text::trim_start(s);
    let t = text::trim(s);
    let a = s.len() - m.len();
    start_is_trimmed(s);
    end_is_trimmed(m);
    assert(s.subrange(a, a + t.len()) =~= t) by {
        assert forall|i: int| 0 <= i < t.len() implies s[a + i] == t[i] by {
            assert(m.take(t.len() as int)[i] == m[i]);
            assert(s.skip(a)[i] == s[a + i]);
        }
    }
    assert forall|i: int| 0 <= i < a || a + t.len() <= i < s.len() implies text::is_space(
        #[trigger] s[i],
    ) by {
        if i >= a {
            assert(m[i - a] == s.skip(a)[i - a]);
        }
    }
    if t.len() > 0 {
        assert(m.take(t.len() as int)[0] == m[0]);
    }
    a
}

proof fn parts_join(first: Seq<char>, rest: Seq<Seq<char>>, sep: Seq<char>)
    requires
        rest.len() > 0,
    ensures
        text::join(seq![first] + rest, sep) == first + sep + text::join(rest, sep),
    decreases rest.len(),
{
    let all = seq![first] + rest;
    assert(all.last() == rest.last());
    if rest.len() == 1 {
        assert(all.drop_last() =~= seq![first]);
        assert(text::join(seq![first], sep) == first);
    } else {
        parts_join(first, rest.drop_last(), sep);
        assert(all.drop_last() =~= seq![first] + rest.drop_last());
        assert(first + sep + text::join(rest.drop_last(), sep) + sep + rest.last() =~= first + sep + (
        text::join(rest.drop_last(), sep) + sep + rest.last()));
    }
}

proof fn split_joins(s: Seq<char>, c: char, start: int, i: int)
    requires
        0 <= start <= i <= s.len(),
        forall|k: int| start <= k < i ==> #[trigger] s[k] != c,
    ensures
        text::split_from(s, c, start, i).len() > 0,
        text::join(text::split_from(s, c, start, i), seq![c]) == s.subrange(start, s.len() as int),
        forall|k: int|
            0 <= k < text::split_from(s, c, start, i).len() ==> !(#[trigger] text::split_from(
                s,
                c,
                start,
                i,
            )[k]).contains(c),
    decreases s.len() - i,
{
    let parts = text::split_from(s, c, start, i);
    if i >= s.len() {
        let last = s.subrange(start, s.len() as int);
        if last.contains(c) {
            let k = choose|k: int| 0 <= k < last.len() && last[k] == c;
            assert(s[start + k] == c);
        }
    } else if s[i] == c {
        split_joins(s, c, i + 1, i + 1);
        let first = s.subrange(start, i);
        let rest = text::split_from(s, c, i + 1, i + 1);
        parts_join(first, rest, seq![c]);
        assert(first + seq![c] + s.subrange(i + 1, s.len() as int) =~= s.subrange(
            start,
            s.len() as int,
        ));
        if first.contains(c) {
            let k = choose|k: int| 0 <= k < first.len() && first[k] == c;
            assert(s[start + k] == c);
        }
        assert forall|k: int| 0 <= k < parts.len() implies !(#[trigger] parts[k]).contains(c) by {
            if k > 0 {
                assert(parts[k] == rest[k - 1]);
            }
        }
    } else {
        split_joins(s, c, start, i + 1);
    }
}

/// A text that was split at a character is put together again by joining the parts with it,
/// and no part holds it.
pub proof fn split_and_join(s: Seq<char>, c: char)
    ensures
        text::join(text::split_on(s, c), seq![c]) == s,
        text::split_on(s, c).len() > 0,
        forall|k: int|
            0 <= k < text::split_on(s, c).len() ==> !(#[trigger] text::split_on(s, c)[k]).contains(c),
{
    split_joins(s, c, 0, 0);
    assert(s.subrange(0, s.len() as int) =~= s);
}

proof fn words_are_words(s: Seq<char>, start: int, i: int)
    requires
        0 <= start <= i <= s.len(),
        forall|k: int| start <= k < i ==> !text::is_space(#[trigger] s[k]),
    ensures
        forall|k: int|
            0 <= k < text::words_from(s, start, i).len() ==> is_word(
                #[trigger] text::words_from(s, start, i)[k],
            ),
        letters(text::words_from(s, start, i), text::words_from(s, start, i).len() as int)
            == visible(s, start, s.len() as int),
    decreases s.len() - i,
{
    let ws = text::words_from(s, start, i);
    let n = s.len() as int;
    if i >= s.len() {
        if start < s.len() {
            let w = s.subrange(start, n);
            assert(ws =~= seq![w]);
            assert(ws[0] == w);
            assert forall|k: int| 0 <= k < w.len() implies !text::is_space(#[trigger] w[k]) by {
                assert(w[k] == s[start + k]);
            }
            visible_all(s, start, n);
            assert(letters(ws, 0) =~= Seq::empty());
            assert(letters(ws, 1) =~= w);
        }
    } else if text::is_space(s[i]) {
        words_are_words(s, i + 1, i + 1);
        let rest = text::words_from(s, i + 1, i + 1);
        visible_parts(s, start, i + 1, n);
        visible_all(s, start, i);
        if start < i {
            let w = s.subrange(start, i);
            assert(ws =~= seq![w] + rest);
            assert forall|k: int| 0 <= k < w.len() implies !text::is_space(#[trigger] w[k]) by {
                assert(w[k] == s[start + k]);
            }
            assert forall|k: int| 0 <= k < ws.len() implies is_word(#[trigger] ws[k]) by {
                if k > 0 {
                    assert(ws[k] == rest[k - 1]);
                }
            }
            letters_first(w, rest, rest.len() as int);
        } else {
            assert(s.subrange(start, i) =~= Seq::empty());
            assert(visible(s, start, i + 1) =~= Seq::empty());
            assert(Seq::<char>::empty() + visible(s, i + 1, n) =~= visible(s, i + 1, n));
        }
    } else {
        words_are_words(s, start, i + 1);
    }
}

/// Something, without white space in it.
pub open spec fn is_word(w: Seq<char>) -> bool {
    w.len() > 0 && forall|k: int| 0 <= k < w.len() ==> !text::is_space(#[trigger] w[k])
}

/// The characters of the first `n` texts in a row.
pub open spec fn letters(v: Seq<Seq<char>>, n: int) -> Seq<char>
    decreases n,
{
    if n <= 0 {
        Seq::empty()
    } else {
        letters(v, n - 1) + v[n - 1]
    }
}

/// The characters from `a` up to `b` that are no white space.
pub open spec fn visible(s: Seq<char>, a: int, b: int) -> Seq<char>
    decreases b - a,
{
    if b <= a {
        Seq::empty()
    } else if text::is_space(s[b - 1]) {
        visible(s, a, b - 1)
    } else {
        visible(s, a, b - 1).push(s[b - 1])
    }
}

proof fn visible_all(s: Seq<char>, a: int, b: int)
    requires
        0 <= a <= b <= s.len(),
        forall|k: int| a <= k < b ==> !text::is_space(#[trigger] s[k]),
    ensures
        visible(s, a, b) == s.subrange(a, b),
    decreases b - a,
{
    if a < b {
        visible_all(s, a, b - 1);
        assert(s.subrange(a, b) =~= s.subrange(a, b - 1).push(s[b - 1]));
    } else {
        assert(s.subrange(a, b) =~= Seq::empty());
    }
}

proof fn visible_parts(s: Seq<char>, a: int, m: int, b: int)
    requires
        0 <= a <= m <= b <= s.len(),
    ensures
        visible(s, a, b) == visible(s, a, m) + visible(s, m, b),
    decreases b - m,
{
    if m < b {
        visible_parts(s, a, m, b - 1);
        assert(visible(s, a, b) =~= visible(s, a, m) + visible(s, m, b));
    } else {
        assert(visible(s, m, b) =~= Seq::empty());
        assert(visible(s, a, m) + Seq::<char>::empty() =~= visible(s, a, m));
    }
}

proof fn letters_first(w: Seq<char>, rest: Seq<Seq<char>>, n: int)
    requires
        0 <= n <= rest.len(),
    ensures
        letters(seq![w] + rest, n + 1) == w + letters(rest, n),
    decreases n,
{
    let all = seq![w] + rest;
    if n > 0 {
        letters_first(w, rest, n - 1);
        assert(all[n] == rest[n - 1]);
        assert(letters(all, n + 1) =~= w + letters(rest, n));
    } else {
        assert(letters(all, 0) =~= Seq::empty());
        assert(letters(all, 1) =~= w + letters(rest, 0));
    }
}

/// The words of a text are not empty, hold no white space, and hold in order all that is no
/// white space.
pub proof fn words_hold_all_but_space(s: Seq<char>)
    ensures
        forall|k: int| 0 <= k < text::words(s).len() ==> is_word(#[trigger] text::words(s)[k]),
        letters(text::words(s), text::words(s).len() as int) == visible(s, 0, s.len() as int),
{
    words_are_words(s, 0, 0);
}

proof fn stripped(s: Seq<char>, c: char)
    ensures
        ({
            let t = text::strip_end(s, c);
            &&& t.len() <= s.len()
            &&& s.take(t.len() as int) == t
            &&& forall|i: int| t.len() <= i < s.len() ==> #[trigger] s[i] == c
            &&& t.len() > 0 ==> t.last() != c
        }),
    decreases s.len(),
{
    if s.len() > 0 && s.last() == c {
        stripped(s.drop_last(), c);
        let t = text::strip_end(s, c);
        assert(s.take(t.len() as int) =~= s.drop_last().take(t.len() as int));
        assert forall|i: int| t.len() <= i < s.len() implies #[trigger] s[i] == c by {
            if i < s.len() - 1 {
                assert(s.drop_last()[i] == s[i]);
            }
        }
    } else {
        assert(s.take(s.len() as int) =~= s);
    }
}

/// All such characters at the end of a text are taken off it, and nothing else.
pub proof fn stripping_takes_off_the_end(s: Seq<char>, c: char)
    ensures
        ({
            let t = text::strip_end(s, c);
            &&& t.len() <= s.len()
            &&& s.take(t.len() as int) == t
            &&& forall|i: int| t.len() <= i < s.len() ==> #[trigger] s[i] == c
            &&& t.len() > 0 ==> t.last() != c
        }),
{
    stripped(s, c);
}

/// One text precedes another where it is the beginning of it, or has the smaller character
/// at the first place where they differ.
pub proof fn order_is_by_the_first_difference(a: Seq<char>, b: Seq<char>, k: int)
    requires
        0 <= k <= a.len(),
        k <= b.len(),
        a.take(k) == b.take(k),
    ensures
        k == a.len() && k < b.len() ==> text::precedes(a, b),
        k < a.len() && k == b.len() ==> !text::precedes(a, b),
        k < a.len() && k < b.len() && a[k] != b[k] ==> text::precedes(a, b) == (a[k] < b[k]),
    decreases k,
{
    if k > 0 {
        assert(a.take(k)[0] == a[0]);
        assert(b.take(k)[0] == b[0]);
        let x = a.skip(1);
        let y = b.skip(1);
        assert(x.take(k - 1) =~= y.take(k - 1)) by {
            assert forall|i: int| 0 <= i < k - 1 implies #[trigger] x.take(k - 1)[i] == y.take(k - 1)[i] by {
                assert(a.take(k)[i + 1] == a[i + 1] && b.take(k)[i + 1] == b[i + 1]);
            }
        }
        order_is_by_the_first_difference(x, y, k - 1);
    }
}

/// Joining two lists is joining each and putting the separator between.
pub proof fn joins_add_up(a: Seq<Seq<char>>, b: Seq<Seq<char>>, sep: Seq<char>)
    requires
        a.len() > 0,
        b.len() > 0,
    ensures
        text::join(a + b, sep) == text::join(a, sep) + sep + text::join(b, sep),
        text::join(seq![a[0]], sep) == a[0],
        text::join(Seq::empty(), sep).len() == 0,
    decreases a.len(),
{
    assert(seq![a[0]][0] == a[0]);
    if a.len() == 1 {
        assert(a + b =~= seq![a[0]] + b);
        parts_join(a[0], b, sep);
    } else {
        let rest = a.skip(1);
        joins_add_up(rest, b, sep);
        assert(a + b =~= seq![a[0]] + (rest + b));
        assert(a =~= seq![a[0]] + rest);
        parts_join(a[0], rest + b, sep);
        parts_join(a[0], rest, sep);
        assert(a[0] + sep + (text::join(rest, sep) + sep + text::join(b, sep)) =~= a[0] + sep
            + text::join(rest, sep) + sep + text::join(b, sep));
    }
}

proof fn lines_of_a_tail(s: Seq<char>, k: int, from: int)
    requires
        0 <= k <= from <= s.len(),
    ensures
        text::lines_from(s, from) == text::lines_from(s.skip(k), from - k),
    decreases s.len() - from,
{
    let t = s.skip(k);
    if from < s.len() {
        index_of_a_tail(s, k, '\n', from);
        index_is_first(s, '\n', from);
        let i = text::index_from(s, '\n', from);
        if i < s.len() {
            lines_of_a_tail(s, k, i + 1);
            assert(s.subrange(from, i) =~= t.subrange(from - k, i - k));
        } else {
            assert(s.subrange(from, s.len() as int) =~= t.subrange(from - k, t.len() as int));
        }
    }
}

proof fn index_of_a_tail(s: Seq<char>, k: int, c: char, from: int)
    requires
        0 <= k <= from <= s.len(),
    ensures
        text::index_from(s.skip(k), c, from - k) == text::index_from(s, c, from) - k,
    decreases s.len() - from,
{
    if from < s.len() && s[from] != c {
        index_of_a_tail(s, k, c, from + 1);
    }
}

/// The first line of a text ends at the first line feed, without a carriage return before it;
/// the other lines are those of the rest. What stands behind the last line feed is a line
/// where it is not empty.
pub proof fn lines_end_at_line_feeds(a: Seq<char>, rest: Seq<char>)
    requires
        !a.contains('\n'),
    ensures
        text::lines(a.push('\n') + rest) == seq![
            if a.len() > 0 && a.last() == '\r' {
                a.drop_last()
            } else {
                a
            },
        ] + text::lines(rest),
        a.len() > 0 ==> text::lines(a) == seq![a],
        text::lines(Seq::empty()).len() == 0,
{
    let s = a.push('\n') + rest;
    index_is_first(s, '\n', 0);
    let i = text::index_from(s, '\n', 0);
    assert(s[a.len() as int] == '\n');
    if i < a.len() {
        assert(a[i] == '\n');
    }
    assert(i == a.len());
    assert(s.subrange(0, i) =~= a);
    lines_of_a_tail(s, i + 1, i + 1);
    assert(s.skip(i + 1) =~= rest);
    if a.len() > 0 {
        index_is_first(a, '\n', 0);
        let j = text::index_from(a, '\n', 0);
        if j < a.len() {
            assert(a[j] == '\n');
        }
        assert(a.subrange(0, a.len() as int) =~= a);
    }
}

} // verus!
