//! What the user sees and answers: widths, sizes and selections.
use crate::double::{double_of, nearest_of};
use crate::double;
use crate::patterns;
use crate::style::{Line, Page, Style, repeat_char};
use crate::style;
use crate::text::{chars_of, clone_strings, cut_at, eq_ignore_case, no_strings, number_text, parse_usize, push_str, signed_text, str_eq, sub_chars, sub_string, text2, text3, trimmed, trimmed_end, words_of};
use crate::text;
use vstd::prelude::*;
use vstd::string::*;
use vstd::utf8::*;

verus! {

// ---------------------------------------------------------------------------------------
// Widths

/// Characters that take up no column: controls, joiners and the like.
pub open spec fn takes_no_column(u: u32) -> bool {
    ||| u < 0x20
    ||| 0x7f <= u <= 0x9f
    ||| u == 0xad
    ||| 0x200b <= u <= 0x200f
    ||| u == 0xfeff
    ||| 0x2060 <= u <= 0x206f
}

/// Characters that take up two columns: East Asian wide ones and pictographs.
pub open spec fn takes_two_columns(u: u32) -> bool {
    ||| 0x1100 <= u <= 0x115f
    ||| 0x231a <= u <= 0x231b
    ||| 0x23e9 <= u <= 0x23fa
    ||| 0x25fd <= u <= 0x25fe
    ||| 0x2614 <= u <= 0x2615
    ||| 0x2648 <= u <= 0x2653
    ||| 0x267f <= u <= 0x27bf
    ||| 0x2b1b <= u <= 0x2b55
    ||| 0x2e80 <= u <= 0xa4cf
    ||| 0xac00 <= u <= 0xd7a3
    ||| 0xf900 <= u <= 0xfaff
    ||| 0xfe10 <= u <= 0xfe19
    ||| 0xfe30 <= u <= 0xfe6f
    ||| 0xff00 <= u <= 0xff60
    ||| 0xffe0 <= u <= 0xffe6
    ||| 0x1f000 <= u <= 0x1ffff
    ||| 0x20000 <= u <= 0x3ffff
}

pub open spec fn columns(c: char) -> int {
    let u = c as u32;
    if takes_no_column(u) {
        0
    } else if takes_two_columns(u) {
        2
    } else {
        1
    }
}

/// The columns that a character takes up on a terminal.
pub fn char_width(ch: char) -> (r: usize)
    ensures
        r == columns(ch),
{
    let u: u32 = ch as u32;
    if u < 0x20 || (0x7f <= u && u <= 0x9f) {
        return 0;
    }
    if u == 0xad || (0x200b <= u && u <= 0x200f) || u == 0xfeff || (0x2060 <= u && u <= 0x206f) {
        return 0;
    }
    if (0x1100 <= u && u <= 0x115f) || (0x231a <= u && u <= 0x231b) || (0x23e9 <= u && u <= 0x23fa)
        || (0x25fd <= u && u <= 0x25fe) || (0x2614 <= u && u <= 0x2615) || (0x2648 <= u && u
        <= 0x2653) || (0x267f <= u && u <= 0x27bf) || (0x2b1b <= u && u <= 0x2b55) || (0x2e80 <= u
        && u <= 0xa4cf) || (0xac00 <= u && u <= 0xd7a3) || (0xf900 <= u && u <= 0xfaff) || (0xfe10
        <= u && u <= 0xfe19) || (0xfe30 <= u && u <= 0xfe6f) || (0xff00 <= u && u <= 0xff60) || (
    0xffe0 <= u && u <= 0xffe6) || (0x1f000 <= u && u <= 0x1ffff) || (0x20000 <= u && u
        <= 0x3ffff) {
        return 2;
    }
    1
}

pub open spec fn escape_char() -> char {
    '\u{1b}'
}

/// Whether the character at `n` would stand in an escape sequence, which ends with an `m`.
pub open spec fn in_escape(s: Seq<char>, n: int) -> bool
    decreases n,
{
    if n <= 0 {
        false
    } else if s[n - 1] == escape_char() {
        true
    } else {
        in_escape(s, n - 1) && s[n - 1] != 'm'
    }
}

/// The columns of the first `n` characters, escape sequences left out.
pub open spec fn width_upto(s: Seq<char>, n: int) -> int
    decreases n,
{
    if n <= 0 {
        0
    } else if s[n - 1] == escape_char() || in_escape(s, n - 1) {
        width_upto(s, n - 1)
    } else {
        width_upto(s, n - 1) + columns(s[n - 1])
    }
}

/// The columns that a text takes up.
pub open spec fn width(s: Seq<char>) -> int {
    width_upto(s, s.len() as int)
}

proof fn encode_push(s: Seq<char>, c: char)
    ensures
        encode_utf8(s.push(c)) == encode_utf8(s) + encode_scalar(c as u32),
    decreases s.len(),
{
    if s.len() == 0 {
        assert(s.push(c).drop_first() =~= Seq::<char>::empty());
        assert(encode_utf8(s.push(c).drop_first()) =~= Seq::<u8>::empty());
        assert(encode_utf8(s.push(c)) =~= encode_utf8(s) + encode_scalar(c as u32));
    } else {
        encode_push(s.drop_first(), c);
        assert(s.push(c).drop_first() =~= s.drop_first().push(c));
        assert(encode_utf8(s.push(c)) =~= encode_utf8(s) + encode_scalar(c as u32));
    }
}

proof fn width_within_bytes(s: Seq<char>, n: int)
    requires
        0 <= n <= s.len(),
    ensures
        0 <= width_upto(s, n) <= encode_utf8(s.take(n)).len(),
    decreases n,
{
    if n > 0 {
        width_within_bytes(s, n - 1);
        assert(s.take(n) =~= s.take(n - 1).push(s[n - 1]));
        encode_push(s.take(n - 1), s[n - 1]);
    }
}

proof fn width_grows(s: Seq<char>, i: int, n: int)
    requires
        0 <= i <= n,
    ensures
        0 <= width_upto(s, i) <= width_upto(s, n),
    decreases n,
{
    if i < n {
        width_grows(s, i, n - 1);
    } else if n > 0 {
        width_grows(s, n - 1, n - 1);
    }
}

/// The columns that a text takes up, escape sequences left out.
pub fn str_width(s: &str) -> (r: usize)
    ensures
        r == width(s@),
{
    let bytes: usize = s.as_bytes().len();
    let cs = chars_of(s);
    proof {
        width_within_bytes(s@, s@.len() as int);
        assert(s@.take(s@.len() as int) =~= s@);
    }
    let mut w: usize = 0;
    let mut inside: bool = false;
    let mut i: usize = 0;
    while i < cs.len()
        invariant
            i <= cs@.len(),
            cs@ == s@,
            bytes == encode_utf8(s@).len(),
            width(s@) <= bytes,
            inside == in_escape(s@, i as int),
            w == width_upto(s@, i as int),
        decreases cs@.len() - i,
    {
        let c: char = cs[i];
        proof {
            width_grows(s@, i + 1, s@.len() as int);
        }
        if c == '\u{1b}' {
            inside = true;
        } else if inside {
            if c == 'm' {
                inside = false;
            }
        } else {
            w += char_width(c);
        }
        i += 1;
    }
    w
}

pub open spec fn no_escape(s: Seq<char>) -> bool {
    forall|i: int| 0 <= i < s.len() ==> #[trigger] s[i] != escape_char()
}

proof fn escape_free(s: Seq<char>, n: int)
    requires
        no_escape(s),
        n <= s.len(),
    ensures
        !in_escape(s, n),
    decreases n,
{
    if n > 0 {
        escape_free(s, n - 1);
    }
}

proof fn width_of_part(a: Seq<char>, b: Seq<char>, n: int)
    requires
        no_escape(a),
        0 <= n <= b.len(),
    ensures
        in_escape(a + b, a.len() + n) == in_escape(b, n),
        width_upto(a + b, a.len() + n) == width(a) + width_upto(b, n),
    decreases n,
{
    if n > 0 {
        width_of_part(a, b, n - 1);
        assert((a + b)[a.len() + n - 1] == b[n - 1]);
    } else {
        escape_free(a, a.len() as int);
        width_same(a, b, a.len() as int);
    }
}

proof fn width_same(a: Seq<char>, b: Seq<char>, n: int)
    requires
        0 <= n <= a.len(),
    ensures
        in_escape(a + b, n) == in_escape(a, n),
        width_upto(a + b, n) == width_upto(a, n),
    decreases n,
{
    if n > 0 {
        width_same(a, b, n - 1);
        assert((a + b)[n - 1] == a[n - 1]);
    }
}

/// The widths of two texts add up, where the first holds no escape sequence.
pub proof fn widths_add_up(a: Seq<char>, b: Seq<char>)
    requires
        no_escape(a),
    ensures
        width(a + b) == width(a) + width(b),
{
    width_of_part(a, b, b.len() as int);
}

proof fn spaces_width_upto(n: int, k: int)
    requires
        0 <= k <= n,
    ensures
        width_upto(style::repeated(' ', n), k) == k,
    decreases k,
{
    if k > 0 {
        spaces_width_upto(n, k - 1);
        assert(no_escape(style::repeated(' ', n)));
        escape_free(style::repeated(' ', n), k - 1);
        assert(style::repeated(' ', n)[k - 1] == ' ');
    }
}

/// Spaces take up one column each.
pub proof fn spaces_width(n: int)
    requires
        0 <= n,
    ensures
        width(style::repeated(' ', n)) == n,
        no_escape(style::repeated(' ', n)),
{
    spaces_width_upto(n, n);
}

/// The longest beginning of `s`, of at most `n` characters, that takes up no more than `max`
/// columns.
pub open spec fn fitting(s: Seq<char>, max: int, n: int) -> int
    decreases n,
{
    if n <= 0 || width_upto(s, n) <= max {
        n
    } else {
        fitting(s, max, n - 1)
    }
}

/// `s`, cut down to `max` columns with an ellipsis at the end where it is wider.
pub open spec fn truncated(s: Seq<char>, max: int) -> Seq<char> {
    if width(s) <= max {
        s
    } else if max <= 0 {
        Seq::empty()
    } else {
        s.take(fitting(s, max - 1, s.len() as int)).push('…')
    }
}

/// Cuts a text down to a number of columns, and marks the cut with an ellipsis.
pub fn truncate_str(s: &str, max: usize) -> (r: String)
    ensures
        r@ == truncated(s@, max as int),
{
    let total: usize = str_width(s);
    if total <= max {
        return s.to_string();
    }
    if max == 0 {
        let none: String = String::new();
        assert(none@ =~= Seq::<char>::empty());
        return none;
    }
    let cs = chars_of(s);
    let mut i: usize = 0;
    let mut w: usize = 0;
    let mut inside: bool = false;
    let mut best: usize = 0;
    let n: usize = cs.len();
    while i < n
        invariant
            i <= n,
            n == cs@.len(),
            cs@ == s@,
            total == width(s@),
            0 < max,
            max < total,
            best <= i,
            inside == in_escape(s@, i as int),
            w == width_upto(s@, i as int),
            width_upto(s@, best as int) <= max - 1,
            forall|k: int| best < k <= i ==> #[trigger] width_upto(s@, k) > max - 1,
        decreases n - i,
    {
        let c: char = cs[i];
        proof {
            width_grows(s@, i + 1, s@.len() as int);
            width_grows(s@, i as int, i + 1);
        }
        if c == '\u{1b}' {
            inside = true;
        } else if inside {
            if c == 'm' {
                inside = false;
            }
        } else {
            w += char_width(c);
        }
        i += 1;
        if w <= max - 1 {
            best = i;
        }
    }
    proof {
        fitting_is_best(s@, max - 1, best as int, n as int);
    }
    let mut out = sub_string(&cs, 0, best);
    assert(out@ =~= s@.take(best as int));
    out.push('…');
    out
}

proof fn fitting_is_best(s: Seq<char>, max: int, best: int, n: int)
    requires
        0 <= best <= n,
        width_upto(s, best) <= max,
        forall|k: int| best < k <= n ==> #[trigger] width_upto(s, k) > max,
    ensures
        fitting(s, max, n) == best,
    decreases n,
{
    if best < n {
        assert(width_upto(s, n) > max);
        fitting_is_best(s, max, best, n - 1);
    }
}

proof fn fitting_fits(s: Seq<char>, max: int, n: int)
    requires
        0 <= n <= s.len(),
        0 <= max,
    ensures
        0 <= fitting(s, max, n) <= n,
        width_upto(s, fitting(s, max, n)) <= max,
    decreases n,
{
    if n > 0 && width_upto(s, n) > max {
        fitting_fits(s, max, n - 1);
    }
}

/// A text that was cut takes up no more columns than it was cut to, and where something was
/// cut off it ends with an ellipsis.
pub proof fn truncation_fits(s: Seq<char>, max: int)
    requires
        0 <= max,
    ensures
        width(truncated(s, max)) <= max,
        0 < max < width(s) ==> truncated(s, max).last() == '…',
{
    if width(s) > max && max > 0 {
        let k = fitting(s, max - 1, s.len() as int);
        fitting_fits(s, max - 1, s.len() as int);
        let head = s.take(k);
        let t = head.push('…');
        assert(t =~= head + seq!['…']);
        assert(head + s.skip(k) =~= s);
        width_same(head, s.skip(k), k);
        width_same(head, seq!['…'], k);
        assert(width_upto(t, k) == width_upto(s, k));
        assert(t[k] == '…');
        assert(columns('…') == 1);
    }
}

// ---------------------------------------------------------------------------------------
// Boxes

/// A line of a box: a text, filled up to the inner width, between two borders.
pub open spec fn boxed(text: Seq<char>, inner: int) -> Seq<char> {
    "│"@ + text + style::repeated(' ', inner - width(text)) + "│"@
}

/// All lines of a box are equally wide, as long as their texts are no wider than the box and
/// hold no escape sequences.
pub proof fn boxed_lines_align(text: Seq<char>, inner: int)
    requires
        no_escape(text),
        width(text) <= inner,
    ensures
        width(boxed(text, inner)) == inner + 2,
{
    reveal_strlit("│");
    let bar = "│"@;
    let fill = style::repeated(' ', inner - width(text));
    assert(bar =~= seq!['│']);
    assert(columns('│') == 1);
    assert(width_upto(bar, 0) == 0);
    assert(width(bar) == 1) by {
        assert(!in_escape(bar, 0));
        assert(bar[0] == '│');
        assert(width_upto(bar, 1) == width_upto(bar, 0) + columns(bar[0]));
    }
    width_grows(text, 0, text.len() as int);
    spaces_width(inner - width(text));
    assert(no_escape(bar));
    widths_add_up(bar, text);
    assert(no_escape(bar + text));
    widths_add_up(bar + text, fill);
    assert(no_escape(bar + text + fill));
    widths_add_up(bar + text + fill, bar);
}

// ---------------------------------------------------------------------------------------
// Sizes

pub open spec fn magnitude(n: int) -> int {
    if n < 0 {
        -n
    } else {
        n
    }
}

/// The digits of `n` with leading zeros up to `places` of them.
pub open spec fn digits_padded(n: int, places: int) -> Seq<char> {
    style::repeated('0', places - text::digits_of(n as nat).len()) + text::digits_of(n as nat)
}

/// `n / unit` with one decimal place where `scale` is 10, and two where it is 100.
pub open spec fn fraction_text(n: int, unit: int, scale: int) -> Seq<char> {
    let v = double::nearest(double::in_double(magnitude(n)) * scale, unit);
    (if n < 0 {
        "-"@
    } else {
        Seq::empty()
    }) + text::digits_of((v / scale) as nat) + "."@ + digits_padded(
        v % scale,
        if scale == 10 {
            1
        } else {
            2
        },
    )
}

/// A number of bytes in the unit that suits it.
pub open spec fn size_text(n: int) -> Seq<char> {
    if magnitude(n) < 1024 {
        text::signed_digits(n) + " B"@
    } else if double::in_double(magnitude(n)) < 1_048_576 {
        fraction_text(n, 1024, 10) + " KiB"@
    } else if double::in_double(magnitude(n)) < 1_073_741_824 {
        fraction_text(n, 1_048_576, 100) + " MiB"@
    } else {
        fraction_text(n, 1_073_741_824, 100) + " GiB"@
    }
}

fn zeros_before(n: u64, places: usize) -> (r: String)
    ensures
        r@ == digits_padded(n as int, places as int),
{
    let d = number_text(n);
    let len: usize = chars_of(&d).len();
    let zeros: String = if len >= places {
        String::new()
    } else {
        repeat_char('0', places - len)
    };
    assert(zeros@ =~= style::repeated('0', places - text::digits_of(n as nat).len()));
    text2(&zeros, &d)
}

fn fraction(n: i64, unit: u64, scale: u64) -> (r: String)
    requires
        n != i64::MIN,
        unit == 1024 || unit == 1_048_576 || unit == 1_073_741_824,
        scale == 10 || scale == 100,
    ensures
        r@ == fraction_text(n as int, unit as int, scale as int),
{
    let m: u64 = if n < 0 {
        (-n) as u64
    } else {
        n as u64
    };
    proof {
        double::double_bound(m as int);
    }
    let d: u64 = double_of(m as u128) as u64;
    assert((d as int) * (scale as int) <= (d as int) * 100) by (nonlinear_arith)
        requires
            scale <= 100,
            d >= 0,
    ;
    let v: u128 = nearest_of((d as u128) * (scale as u128), unit as u128);
    assert(v <= 0x2_0000_0000_0000_0000) by {
        let top = (d as int) * (scale as int);
        assert(top <= 0x8000_0000_0000_1000 * 100);
        if unit == 1024 {
            assert(top / 1024 <= 0x8000_0000_0000_1000int * 100 / 1024);
        } else if unit == 1_048_576 {
            assert(top / 1_048_576 <= 0x8000_0000_0000_1000int * 100 / 1024);
        } else {
            assert(top / 1_073_741_824 <= 0x8000_0000_0000_1000int * 100 / 1024);
        }
    }
    let whole: u64 = (v / (scale as u128)) as u64;
    let part: u64 = (v % (scale as u128)) as u64;
    let mut out: String = if n < 0 {
        "-".to_string()
    } else {
        String::new()
    };
    assert(n >= 0 ==> out@ =~= Seq::<char>::empty());
    let a = number_text(whole);
    out.append(&a);
    out.append(".");
    let b = zeros_before(
        part,
        if scale == 10 {
            1
        } else {
            2
        },
    );
    out.append(&b);
    out
}

/// A number of bytes in the unit that suits it: whole bytes, KiB with one decimal place, MiB
/// and GiB with two.
pub fn format_size(bytes_val: i64) -> (r: String)
    requires
        bytes_val != i64::MIN,
    ensures
        r@ == size_text(bytes_val as int),
{
    let m: u64 = if bytes_val < 0 {
        (-bytes_val) as u64
    } else {
        bytes_val as u64
    };
    proof {
        double::double_bound(m as int);
    }
    let d: u64 = double_of(m as u128) as u64;
    if m < 1024 {
        let n = signed_text(bytes_val);
        text2(&n, " B")
    } else if d < 1_048_576 {
        let n = fraction(bytes_val, 1024, 10);
        text2(&n, " KiB")
    } else if d < 1_073_741_824 {
        let n = fraction(bytes_val, 1_048_576, 100);
        text2(&n, " MiB")
    } else {
        let n = fraction(bytes_val, 1_073_741_824, 100);
        text2(&n, " GiB")
    }
}

/// A change in size with its sign; growth is a warning, shrinking is good.
pub open spec fn delta_span(delta: int) -> (Seq<char>, Style) {
    if delta > 0 {
        ("+"@ + size_text(delta), Style::Yellow)
    } else if delta < 0 {
        ("-"@ + size_text(-delta), Style::Green)
    } else {
        ("~0 B"@, Style::Gray)
    }
}

/// A change in size with its sign, and the style to show it in.
pub fn format_delta_text(delta: i64) -> (r: (String, Style))
    requires
        delta != i64::MIN,
    ensures
        (r.0@, r.1) == delta_span(delta as int),
{
    if delta > 0 {
        let s = format_size(delta);
        (text2("+", &s), Style::Yellow)
    } else if delta < 0 {
        let s = format_size(-delta);
        (text2("-", &s), Style::Green)
    } else {
        ("~0 B".to_string(), Style::Gray)
    }
}

// ---------------------------------------------------------------------------------------
// Selections

/// The number `idx` is named by a token: a number, or two numbers with a hyphen between them
/// for all numbers from the one to the other.
pub open spec fn token_names(token: Seq<char>, idx: int) -> bool {
    match text::cut(token, '-') {
        Some((a, b)) => {
            let x = text::number(a, usize::MAX as int);
            let y = text::number(b, usize::MAX as int);
            &&& x is Some
            &&& y is Some
            &&& (x->0 <= idx <= y->0 || y->0 <= idx <= x->0)
        },
        None => text::number(token, usize::MAX as int) == Some(idx),
    }
}

pub open spec fn tokens_name(tokens: Seq<Seq<char>>, idx: int) -> bool {
    exists|t: int| 0 <= t < tokens.len() && token_names(#[trigger] tokens[t], idx)
}

/// `s` with every comma turned into a space.
pub open spec fn without_commas(s: Seq<char>) -> Seq<char> {
    Seq::new(
        s.len(),
        |i: int|
            if s[i] == ',' {
                ' '
            } else {
                s[i]
            },
    )
}

/// Those of the first `n` items whose numbers, counted from one, are named; or the others.
pub open spec fn named_items(items: Seq<Seq<char>>, tokens: Seq<Seq<char>>, invert: bool, n: int) -> Seq<
    Seq<char>,
>
    decreases n,
{
    if n <= 0 {
        Seq::empty()
    } else if tokens_name(tokens, n) != invert {
        named_items(items, tokens, invert, n - 1).push(items[n - 1])
    } else {
        named_items(items, tokens, invert, n - 1)
    }
}

/// The items that an answer selects: all on an empty one, and all but the named ones behind a
/// caret.
pub open spec fn selection(raw: Seq<char>, items: Seq<Seq<char>>) -> Seq<Seq<char>> {
    if raw.len() == 0 || text::same_ignoring_case(raw, "all"@) {
        items
    } else if text::same_ignoring_case(raw, "none"@) || raw == "^"@ {
        Seq::empty()
    } else {
        let invert = raw[0] == '^';
        let rest = if invert {
            raw.skip(1)
        } else {
            raw
        };
        named_items(items, text::words(without_commas(rest)), invert, items.len() as int)
    }
}

fn names_index(token: &str, idx: usize) -> (r: bool)
    ensures
        r == token_names(token@, idx as int),
{
    match cut_at(token, '-') {
        Some((a, b)) => match (parse_usize(&a), parse_usize(&b)) {
            (Some(x), Some(y)) => (x <= idx && idx <= y) || (y <= idx && idx <= x),
            _ => false,
        },
        None => match parse_usize(token) {
            Some(x) => x == idx,
            None => false,
        },
    }
}

fn any_names(tokens: &Vec<String>, idx: usize) -> (r: bool)
    ensures
        r == tokens_name(text::texts(tokens@), idx as int),
{
    let ghost all = text::texts(tokens@);
    let mut i: usize = 0;
    while i < tokens.len()
        invariant
            i <= tokens@.len(),
            all == text::texts(tokens@),
            all.len() == tokens@.len(),
            forall|t: int| 0 <= t < i ==> !token_names(#[trigger] all[t], idx as int),
        decreases tokens@.len() - i,
    {
        assert(all[i as int] == tokens@[i as int]@);
        if names_index(&tokens[i], idx) {
            return true;
        }
        i += 1;
    }
    false
}

fn comma_free(cs: &[char]) -> (r: String)
    ensures
        r@ == without_commas(cs@),
{
    let mut out: String = String::new();
    let mut i: usize = 0;
    assert(out@ =~= without_commas(cs@).take(0));
    while i < cs.len()
        invariant
            i <= cs@.len(),
            out@ == without_commas(cs@).take(i as int),
        decreases cs@.len() - i,
    {
        out.push(
            if cs[i] == ',' {
                ' '
            } else {
                cs[i]
            },
        );
        i += 1;
        assert(out@ =~= without_commas(cs@).take(i as int));
    }
    assert(without_commas(cs@).take(i as int) =~= without_commas(cs@));
    out
}

/// The items that an answer selects, in their own order.
pub fn parse_selection_indices(raw: &str, items: &Vec<String>) -> (r: Vec<String>)
    ensures
        text::texts(r@) == selection(raw@, text::texts(items@)),
{
    if raw.is_empty() || eq_ignore_case(raw, "all") {
        return clone_strings(items);
    }
    if eq_ignore_case(raw, "none") || str_eq(raw, "^") {
        return no_strings();
    }
    let cs = chars_of(raw);
    let invert: bool = cs[0] == '^';
    let rest = if invert {
        sub_chars(&cs, 1, cs.len())
    } else {
        sub_chars(&cs, 0, cs.len())
    };
    proof {
        assert(invert ==> rest@ =~= raw@.skip(1));
        assert(!invert ==> rest@ =~= raw@);
    }
    let spaced = comma_free(&rest);
    let tokens = words_of(&spaced);
    let mut out = no_strings();
    let ghost all = text::texts(items@);
    let ghost named = text::texts(tokens@);
    let mut i: usize = 0;
    while i < items.len()
        invariant
            i <= items@.len(),
            all == text::texts(items@),
            named == text::texts(tokens@),
            text::texts(out@) == named_items(all, named, invert, i as int),
        decreases items@.len() - i,
    {
        assert(all[i as int] == items@[i as int]@);
        if any_names(&tokens, i + 1) != invert {
            let ghost before = text::texts(out@);
            push_str(&mut out, &items[i]);
            assert(text::texts(out@) =~= before.push(all[i as int]));
        }
        i += 1;
    }
    out
}

/// The items that are selected by an answer; none where there is nothing to select or no
/// answer.
pub fn prompt_items_selection(answer: Option<&str>, items: &Vec<String>) -> (r: Vec<String>)
    ensures
        text::texts(r@) == if items@.len() == 0 || answer is None {
            Seq::empty()
        } else {
            selection(text::trim(answer->0@), text::texts(items@))
        },
{
    if items.len() == 0 {
        return no_strings();
    }
    match answer {
        Some(a) => {
            let raw = trimmed(a);
            parse_selection_indices(&raw, items)
        },
        None => no_strings(),
    }
}

proof fn named_from_items(items: Seq<Seq<char>>, tokens: Seq<Seq<char>>, invert: bool, n: int, x: Seq<char>)
    requires
        n <= items.len(),
        named_items(items, tokens, invert, n).contains(x),
    ensures
        items.contains(x),
    decreases n,
{
    if n > 0 {
        let before = named_items(items, tokens, invert, n - 1);
        if before.contains(x) {
            named_from_items(items, tokens, invert, n - 1, x);
        } else if tokens_name(tokens, n) != invert {
            let after = before.push(items[n - 1]);
            let k = choose|k: int| 0 <= k < after.len() && after[k] == x;
            if k < before.len() {
                assert(before[k] == x);
            }
            assert(items[n - 1] == x);
        }
    }
}

/// Whatever is answered, nothing is selected that was not offered.
pub proof fn only_offered_items_are_selected(raw: Seq<char>, items: Seq<Seq<char>>, x: Seq<char>)
    requires
        selection(raw, items).contains(x),
    ensures
        items.contains(x),
{
    if raw.len() == 0 || text::same_ignoring_case(raw, "all"@) {
    } else if text::same_ignoring_case(raw, "none"@) || raw == "^"@ {
    } else {
        let invert = raw[0] == '^';
        let rest = if invert {
            raw.skip(1)
        } else {
            raw
        };
        named_from_items(
            items,
            text::words(without_commas(rest)),
            invert,
            items.len() as int,
            x,
        );
    }
}

/// `part` stands at the positions `at` of `items`, one behind the other.
pub open spec fn picked_at(part: Seq<Seq<char>>, items: Seq<Seq<char>>, at: Seq<int>) -> bool {
    &&& at.len() == part.len()
    &&& forall|x: int| 0 <= x < at.len() ==> 0 <= (#[trigger] at[x]) < items.len() && part[x] == items[at[x]]
    &&& forall|x: int, y: int| 0 <= x < y < at.len() ==> (#[trigger] at[x]) < (#[trigger] at[y])
}

/// `part` holds some of the items in their order.
pub open spec fn keeps_order(part: Seq<Seq<char>>, items: Seq<Seq<char>>) -> bool {
    exists|at: Seq<int>| picked_at(part, items, at)
}

proof fn named_in_order(items: Seq<Seq<char>>, tokens: Seq<Seq<char>>, invert: bool, n: int)
    requires
        0 <= n <= items.len(),
    ensures
        keeps_order(named_items(items, tokens, invert, n), items),
        keeps_order(named_items(items, tokens, invert, n), items.take(n)),
    decreases n,
{
    let part = named_items(items, tokens, invert, n);
    if n <= 0 {
        assert(picked_at(part, items, Seq::empty()));
        assert(picked_at(part, items.take(n), Seq::empty()));
    } else {
        named_in_order(items, tokens, invert, n - 1);
        let before = named_items(items, tokens, invert, n - 1);
        let head = items.take(n - 1);
        let at = choose|at: Seq<int>| picked_at(before, head, at);
        let now = if tokens_name(tokens, n) != invert {
            at.push(n - 1)
        } else {
            at
        };
        assert forall|x: int| 0 <= x < now.len() implies 0 <= (#[trigger] now[x]) < n && part[x]
            == items[now[x]] by {
            if x < at.len() {
                assert(now[x] == at[x]);
                assert(before[x] == head[at[x]]);
            }
        }
        assert forall|x: int, y: int| 0 <= x < y < now.len() implies (#[trigger] now[x]) < (
        #[trigger] now[y]) by {
            assert(at[x] == now[x]);
            if y < at.len() {
                assert(at[y] == now[y]);
            }
        }
        assert(picked_at(part, items, now));
        assert(picked_at(part, items.take(n), now));
    }
}

proof fn named_holds(items: Seq<Seq<char>>, tokens: Seq<Seq<char>>, invert: bool, n: int, i: int)
    requires
        0 <= i < items.len(),
        0 <= n <= items.len(),
        items.no_duplicates(),
    ensures
        named_items(items, tokens, invert, n).contains(items[i]) <==> i < n && tokens_name(
            tokens,
            i + 1,
        ) != invert,
    decreases n,
{
    if n > 0 {
        named_holds(items, tokens, invert, n - 1, i);
        let before = named_items(items, tokens, invert, n - 1);
        let part = named_items(items, tokens, invert, n);
        if before.contains(items[i]) {
            let x = choose|x: int| 0 <= x < before.len() && before[x] == items[i];
            assert(part[x] == items[i]);
        }
        if part.contains(items[i]) {
            let x = choose|x: int| 0 <= x < part.len() && part[x] == items[i];
            if x < before.len() {
                assert(before[x] == items[i]);
            }
        }
        if i == n - 1 && tokens_name(tokens, n) != invert {
            assert(part[before.len() as int] == items[i]);
        }
    }
}

spec fn made_of(w: Seq<char>, s: Seq<char>) -> bool {
    w.len() > 0 && forall|c: int| 0 <= c < w.len() ==> s.contains(#[trigger] w[c])
}

proof fn part_is_made_of(s: Seq<char>, a: int, b: int)
    requires
        0 <= a < b <= s.len(),
    ensures
        made_of(s.subrange(a, b), s),
{
    let w = s.subrange(a, b);
    assert forall|c: int| 0 <= c < w.len() implies s.contains(#[trigger] w[c]) by {
        assert(w[c] == s[a + c]);
    }
}

/// The words of a text are not empty, and hold nothing but its characters.
proof fn words_hold_characters(s: Seq<char>, start: int, i: int)
    requires
        0 <= start <= i <= s.len(),
    ensures
        forall|t: int|
            0 <= t < text::words_from(s, start, i).len() ==> made_of(
                #[trigger] text::words_from(s, start, i)[t],
                s,
            ),
    decreases s.len() - i,
{
    let all = text::words_from(s, start, i);
    if i < s.len() && text::is_space(s[i]) {
        words_hold_characters(s, i + 1, i + 1);
        let rest = text::words_from(s, i + 1, i + 1);
        if start < i {
            part_is_made_of(s, start, i);
            assert(all =~= seq![s.subrange(start, i)] + rest);
            assert forall|t: int| 0 <= t < all.len() implies made_of(#[trigger] all[t], s) by {
                if t > 0 {
                    assert(all[t] == rest[t - 1]);
                }
            }
        } else {
            assert(all == rest);
        }
    } else if i < s.len() {
        words_hold_characters(s, start, i + 1);
        assert(all == text::words_from(s, start, i + 1));
    } else if start < s.len() {
        part_is_made_of(s, start, s.len() as int);
        assert(all == seq![s.subrange(start, s.len() as int)]);
    } else {
        assert(all.len() == 0);
    }
}

proof fn no_hyphen_no_cut(s: Seq<char>, from: int)
    requires
        0 <= from,
        forall|c: int| 0 <= c < s.len() ==> text::is_ascii_letter(#[trigger] s[c]),
    ensures
        text::index_from(s, '-', from) == s.len(),
    decreases s.len() - from,
{
    if from < s.len() {
        assert(text::is_ascii_letter(s[from]));
        no_hyphen_no_cut(s, from + 1);
    }
}

/// Letters name no numbers.
proof fn letters_name_nothing(s: Seq<char>, idx: int)
    requires
        forall|c: int| 0 <= c < s.len() ==> text::is_ascii_letter(#[trigger] s[c]),
    ensures
        !tokens_name(text::words(without_commas(s)), idx),
{
    let plain = without_commas(s);
    assert(plain =~= s) by {
        assert forall|c: int| 0 <= c < s.len() implies plain[c] == s[c] by {
            assert(text::is_ascii_letter(s[c]));
        }
    }
    words_hold_characters(s, 0, 0);
    let tokens = text::words(s);
    assert forall|t: int| 0 <= t < tokens.len() implies !token_names(#[trigger] tokens[t], idx) by {
        let w = text::words_from(s, 0, 0)[t];
        assert(w == tokens[t]);
        assert(made_of(w, s));
        assert forall|c: int| 0 <= c < w.len() implies text::is_ascii_letter(#[trigger] w[c]) by {
            assert(s.contains(w[c]));
            let k = choose|k: int| 0 <= k < s.len() && s[k] == w[c];
            assert(text::is_ascii_letter(s[k]));
        }
        no_hyphen_no_cut(w, 0);
        assert(text::is_ascii_letter(w[0]));
        assert(text::unsigned_part(w) == w);
        assert(!text::is_digit(w[0]));
    }
}

proof fn nothing_named(items: Seq<Seq<char>>, tokens: Seq<Seq<char>>, n: int)
    requires
        forall|idx: int| !(#[trigger] tokens_name(tokens, idx)),
    ensures
        named_items(items, tokens, false, n) == Seq::<Seq<char>>::empty(),
    decreases n,
{
    if n > 0 {
        nothing_named(items, tokens, n - 1);
    }
}

/// A list of numbers and the same list behind a caret share the items out: where none
/// repeats, each is selected by exactly one of the two answers, and both keep the order.
pub proof fn caret_selects_the_others(items: Seq<Seq<char>>, list: Seq<char>)
    requires
        items.no_duplicates(),
        list.len() > 0,
        list[0] != '^',
        !text::same_ignoring_case(list, "all"@),
    ensures
        forall|i: int|
            0 <= i < items.len() ==> selection(list, items).contains(#[trigger] items[i])
                != selection(seq!['^'] + list, items).contains(items[i]),
        keeps_order(selection(list, items), items),
        keeps_order(selection(seq!['^'] + list, items), items),
{
    reveal_strlit("^");
    reveal_strlit("all");
    reveal_strlit("none");
    let other = seq!['^'] + list;
    let n = items.len() as int;
    let tokens = text::words(without_commas(list));
    assert(other.skip(1) =~= list);
    assert(other[0] == '^');
    assert(list != "^"@);
    assert(other.len() > 1);
    assert(text::lower(other)[0] == '^');
    assert(text::lower("all"@)[0] == 'a');
    assert(text::lower("none"@)[0] == 'n');
    if text::same_ignoring_case(list, "none"@) {
        assert(text::lower(list).len() == 4);
        assert forall|c: int| 0 <= c < list.len() implies text::is_ascii_letter(#[trigger] list[c]) by {
            assert(text::lower(list)[c] == text::ascii_lower(list[c]));
            assert(text::lower("none"@)[c] == text::ascii_lower("none"@[c]));
        }
        assert forall|idx: int| !(#[trigger] tokens_name(tokens, idx)) by {
            letters_name_nothing(list, idx);
        }
        nothing_named(items, tokens, n);
    }
    assert(selection(list, items) == named_items(items, tokens, false, n));
    assert(selection(other, items) == named_items(items, tokens, true, n));
    named_in_order(items, tokens, false, n);
    named_in_order(items, tokens, true, n);
    assert forall|i: int| 0 <= i < items.len() implies selection(list, items).contains(
        #[trigger] items[i],
    ) != selection(other, items).contains(items[i]) by {
        named_holds(items, tokens, false, n, i);
        named_holds(items, tokens, true, n, i);
    }
}

// ---------------------------------------------------------------------------------------
// Lists of choices

/// One entry of a numbered list.
pub open spec fn numbered_entry(items: Seq<Seq<char>>, i: int) -> Seq<char> {
    text::digits_of((i + 1) as nat) + ") "@ + items[i]
}

/// Lines of entries, each as full as 80 bytes allow, from the `i`-th entry on; `current` is
/// the line that is being filled.
pub open spec fn entry_lines(items: Seq<Seq<char>>, current: Seq<char>, i: int) -> Seq<Seq<char>>
    decreases items.len() - i,
{
    if i < 0 || i >= items.len() {
        if text::trim(current).len() > 0 {
            seq![text::trim_end(current)]
        } else {
            Seq::empty()
        }
    } else {
        let entry = numbered_entry(items, i);
        if patterns::byte_len(current) + patterns::byte_len(entry) + 2 > 80 {
            seq![text::trim_end(current)] + entry_lines(items, "   "@ + entry + "  "@, i + 1)
        } else {
            entry_lines(items, current + entry + "  "@, i + 1)
        }
    }
}

/// The lines that offer a numbered list of choices.
pub fn choice_lines(items: &Vec<String>) -> (r: Vec<String>)
    requires
        items@.len() < u64::MAX,
    ensures
        text::texts(r@) == entry_lines(text::texts(items@), "   "@, 0),
{
    let mut out = no_strings();
    let mut current: String = "   ".to_string();
    let ghost all = text::texts(items@);
    let ghost goal = entry_lines(all, "   "@, 0);
    let mut i: usize = 0;
    assert(text::texts(out@) + goal =~= goal);
    while i < items.len()
        invariant
            i <= items@.len(),
            items@.len() < u64::MAX,
            all == text::texts(items@),
            all.len() == items@.len(),
            text::texts(out@) + entry_lines(all, current@, i as int) == goal,
        decreases items@.len() - i,
    {
        assert(all[i as int] == items@[i as int]@);
        let n = number_text(i as u64 + 1);
        let entry = text3(&n, ") ", &items[i]);
        let a: usize = current.as_str().as_bytes().len();
        let b: usize = entry.as_str().as_bytes().len();
        if a as u128 + b as u128 + 2 > 80 {
            let ghost before = text::texts(out@);
            let line = trimmed_end(&current);
            push_str(&mut out, &line);
            current = text3("   ", &entry, "  ");
            proof {
                let rest = entry_lines(all, current@, i + 1);
                assert(text::texts(out@) =~= before.push(line@));
                assert(before + (seq![line@] + rest) =~= before.push(line@) + rest);
            }
        } else {
            current.append(&entry);
            current.append("  ");
        }
        i += 1;
    }
    let t = trimmed(&current);
    let ghost before = text::texts(out@);
    if !t.as_str().is_empty() {
        let line = trimmed_end(&current);
        push_str(&mut out, &line);
        assert(text::texts(out@) =~= before + seq![line@]);
    } else {
        assert(text::texts(out@) =~= before + Seq::<Seq<char>>::empty());
    }
    out
}

/// The prompt of a choice among the packages of a group.
pub fn prompt_multiselect(title: &str, repo: &str, items: &Vec<String>) -> (r: Page)
    requires
        items@.len() < u64::MAX,
    ensures
        if items@.len() == 0 {
            r@ == Seq::<Seq<(Seq<char>, Style)>>::empty()
        } else {
            r@ == style::page3(
                style::empty_row(),
                style::row4(
                    ("::"@, Style::Cyan),
                    (" "@, Style::Plain),
                    (title@, Style::Bold),
                    (":"@, Style::Plain),
                ),
                style::row3(
                    ("::"@, Style::Cyan),
                    (" Repository "@, Style::Plain),
                    (repo@, Style::Green),
                ),
            ) + plain_lines(entry_lines(text::texts(items@), "   "@, 0))
        },
{
    if items.len() == 0 {
        return Page::new();
    }
    let head = Page::new().gap().with(
        Line::new().with("::", Style::Cyan).with(" ", Style::Plain).with(title, Style::Bold).with(
            ":",
            Style::Plain,
        ),
    ).with(
        Line::new().with("::", Style::Cyan).with(" Repository ", Style::Plain).with(
            repo,
            Style::Green,
        ),
    );
    let lines = choice_lines(items);
    let rest = plain_page(&lines);
    head.and(rest)
}

/// Lines without styles.
pub open spec fn plain_lines(lines: Seq<Seq<char>>) -> Seq<Seq<(Seq<char>, Style)>> {
    Seq::new(lines.len(), |i: int| style::row1((lines[i], Style::Plain)))
}

pub fn plain_page(lines: &Vec<String>) -> (r: Page)
    ensures
        r@ == plain_lines(text::texts(lines@)),
{
    let mut out = Page::new();
    let ghost all = text::texts(lines@);
    let mut i: usize = 0;
    assert(out@ =~= plain_lines(all).take(0));
    while i < lines.len()
        invariant
            i <= lines@.len(),
            all == text::texts(lines@),
            all.len() == lines@.len(),
            out@ == plain_lines(all).take(i as int),
        decreases lines@.len() - i,
    {
        assert(all[i as int] == lines@[i as int]@);
        out = out.line(&lines[i], Style::Plain);
        i += 1;
        assert(out@ =~= plain_lines(all).take(i as int));
    }
    assert(plain_lines(all).take(i as int) =~= plain_lines(all));
    out
}

} // verus!
