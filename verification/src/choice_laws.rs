//! What is promised of the answers to a numbered list, and of the sums that are shown with it.
use crate::orphans::OrphanPackage;
use crate::orphans;
use crate::picks;
use crate::text;
use crate::text_laws;
use crate::ui;
use crate::views;
use vstd::prelude::*;
use vstd::string::*;

verus! {

/// The items that a list of numbers selects are those whose place, counted from one, it
/// names, or with a caret those that it does not name, in the order of the list.
pub proof fn numbers_select_places(
    items: Seq<Seq<char>>,
    tokens: Seq<Seq<char>>,
    invert: bool,
    n: int,
)
    requires
        0 <= n <= items.len(),
    ensures
        picks::made_of(
            ui::named_items(items, tokens, invert, n),
            n,
            |i: int| ui::tokens_name(tokens, i + 1) != invert,
            |i: int| items[i],
        ),
    decreases n,
{
    let keep = |i: int| ui::tokens_name(tokens, i + 1) != invert;
    let give = |i: int| items[i];
    if n == 0 {
        picks::made_of_none(keep, give);
    } else {
        numbers_select_places(items, tokens, invert, n - 1);
        picks::made_of_one_more(ui::named_items(items, tokens, invert, n - 1), n - 1, keep, give);
        assert(keep(n - 1) == (ui::tokens_name(tokens, n) != invert));
        assert(give(n - 1) == items[n - 1]);
    }
}

proof fn digits_without_hyphen(n: nat)
    ensures
        !text::digits_of(n).contains('-'),
{
    text::digits_read_back(n);
    if text::digits_of(n).contains('-') {
        let k = choose|k: int| 0 <= k < text::digits_of(n).len() && text::digits_of(n)[k] == '-';
        assert(text::is_digit(text::digits_of(n)[k]));
    }
}

/// A number names its own place, and no other.
pub proof fn number_names_its_place(n: nat, idx: int)
    requires
        n <= usize::MAX,
    ensures
        ui::token_names(text::digits_of(n), idx) <==> idx == n,
{
    text::number_round_trip(n, usize::MAX as int);
    digits_without_hyphen(n);
    text_laws::text_is_cut_at_the_first(text::digits_of(n), '-');
    if text::cut(text::digits_of(n), '-') is Some {
        let (a, b) = text::cut(text::digits_of(n), '-')->0;
        assert(text::digits_of(n)[a.len() as int] == '-');
    }
}

/// Two numbers with a hyphen between them name all places from the one to the other, both of
/// them too, whichever comes first.
pub proof fn range_names_all_between(a: nat, b: nat, idx: int)
    requires
        a <= usize::MAX,
        b <= usize::MAX,
    ensures
        ui::token_names(text::digits_of(a).push('-') + text::digits_of(b), idx) <==> (a <= idx <= b
            || b <= idx <= a),
{
    text::number_round_trip(a, usize::MAX as int);
    text::number_round_trip(b, usize::MAX as int);
    digits_without_hyphen(a);
    text_laws::cut_takes_apart(text::digits_of(a), '-', text::digits_of(b));
}

/// No answer and `all` select everything; `none` and a lone caret select nothing.
pub proof fn plain_answers(raw: Seq<char>, items: Seq<Seq<char>>)
    ensures
        raw.len() == 0 ==> ui::selection(raw, items) == items,
        text::same_ignoring_case(raw, "all"@) ==> ui::selection(raw, items) == items,
        text::same_ignoring_case(raw, "none"@) ==> ui::selection(raw, items).len() == 0,
        raw == "^"@ ==> ui::selection(raw, items).len() == 0,
{
    reveal_strlit("all");
    reveal_strlit("none");
    reveal_strlit("^");
    assert(text::lower(raw).len() == raw.len());
    assert(text::lower("all"@).len() == 3);
    assert(text::lower("none"@).len() == 4);
}

/// Without an answer no orphan is selected; an empty one selects the pure orphans, or all
/// where none is pure.
pub proof fn empty_answer_spares_optional_orphans(v: Seq<OrphanPackage>, answer: Seq<char>)
    requires
        text::trim(answer).len() == 0,
    ensures
        views::orphan_selection(v, None).len() == 0,
        ({
            let pure = orphans::pure_names(v, v.len() as int);
            views::orphan_selection(v, Some(answer)) == if pure.len() > 0 {
                pure
            } else {
                orphans::orphan_names(v)
            }
        }),
{
    if v.len() == 0 {
        assert(orphans::orphan_names(v) =~= Seq::empty());
        assert(orphans::pure_names(v, 0).len() == 0);
    }
}

/// The words for a group of orphans select that group.
pub proof fn words_select_orphans(v: Seq<OrphanPackage>, answer: Seq<char>)
    ensures
        ({
            let raw = text::trim(answer);
            let got = views::orphan_selection(v, Some(answer));
            &&& text::same_ignoring_case(raw, "pure"@) || text::same_ignoring_case(raw, "p"@)
                || text::same_ignoring_case(raw, "safe"@) ==> got == orphans::pure_names(
                v,
                v.len() as int,
            )
            &&& text::same_ignoring_case(raw, "all"@) || text::same_ignoring_case(raw, "a"@) ==> got
                == orphans::orphan_names(v)
            &&& text::same_ignoring_case(raw, "none"@) || text::same_ignoring_case(raw, "n"@) ==> got.len()
                == 0
        }),
{
    reveal_strlit("pure");
    reveal_strlit("p");
    reveal_strlit("safe");
    reveal_strlit("all");
    reveal_strlit("a");
    reveal_strlit("none");
    reveal_strlit("n");
    let raw = text::trim(answer);
    let l = text::lower(raw);
    assert(l.len() == raw.len());
    assert(text::lower("pure"@)[0] == 'p');
    assert(text::lower("p"@)[0] == 'p');
    assert(text::lower("safe"@)[0] == 's');
    assert(text::lower("all"@)[0] == 'a');
    assert(text::lower("a"@)[0] == 'a');
    assert(text::lower("none"@)[0] == 'n');
    assert(text::lower("n"@)[0] == 'n');
    if v.len() == 0 {
        assert(orphans::orphan_names(v) =~= Seq::empty());
        assert(orphans::pure_names(v, 0) =~= Seq::empty());
    }
}

/// The size of all orphans is that of the pure ones and that of the others together, and so
/// is their number; there are as many pure ones as are told by name.
pub proof fn orphans_add_up(v: Seq<OrphanPackage>, n: int)
    requires
        0 <= n <= v.len(),
    ensures
        views::orphan_size(v, None, n) == views::orphan_size(v, Some(true), n) + views::orphan_size(
            v,
            Some(false),
            n,
        ),
        views::orphan_count(v, Some(true), n) + views::orphan_count(v, Some(false), n) == n,
        views::orphan_count(v, Some(true), n) == orphans::pure_names(v, n).len(),
    decreases n,
{
    if n > 0 {
        orphans_add_up(v, n - 1);
    }
}

/// The size of one orphan is its own, and the sizes of two lists add up.
pub proof fn orphan_sizes_add_up(a: Seq<OrphanPackage>, b: Seq<OrphanPackage>, n: int)
    requires
        0 <= n <= b.len(),
    ensures
        views::orphan_size(a + b, None, a.len() + n) == views::orphan_size(a, None, a.len() as int)
            + views::orphan_size(b, None, n),
        forall|o: OrphanPackage| #[trigger] views::orphan_size(seq![o], None, 1) == o.isize,
    decreases n,
{
    orphan_sizes_of_a_part(a, b, a.len() as int);
    if n > 0 {
        orphan_sizes_add_up(a, b, n - 1);
        assert((a + b)[a.len() + n - 1] == b[n - 1]);
    }
    assert forall|o: OrphanPackage| #[trigger] views::orphan_size(seq![o], None, 1) == o.isize by {
        assert(views::orphan_size(seq![o], None, 0) == 0);
        assert(seq![o][0] == o);
    }
}

proof fn orphan_sizes_of_a_part(a: Seq<OrphanPackage>, b: Seq<OrphanPackage>, n: int)
    requires
        0 <= n <= a.len(),
    ensures
        views::orphan_size(a + b, None, n) == views::orphan_size(a, None, n),
    decreases n,
{
    if n > 0 {
        orphan_sizes_of_a_part(a, b, n - 1);
        assert((a + b)[n - 1] == a[n - 1]);
    }
}

} // verus!
