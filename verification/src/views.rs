//! The views of pending transactions and of orphaned packages.
use crate::orphans::{OrphanManager, OrphanPackage};
use crate::orphans;
use crate::style::{Line, Page, Style, padded_end, padded_start};
use crate::style;
use crate::text::{eq_ignore_case, join_strings, no_strings, number_text, str_eq, text2, text3, trimmed};
use crate::text;
use crate::tui_select::{CheckboxItem, ItemView};
use crate::tui_select;
use crate::ui::{format_size, parse_selection_indices};
use crate::ui;
use vstd::prelude::*;
use vstd::string::*;

verus! {

// ---------------------------------------------------------------------------------------
// Sums of sizes

pub open spec fn fits_i64(n: int) -> bool {
    i64::MIN <= n <= i64::MAX
}

/// Whether an orphan counts: all do, or only the pure or only the optional ones.
pub open spec fn counts(o: OrphanPackage, which: Option<bool>) -> bool {
    which is None || which == Some(orphans::pure_orphan(o@))
}

/// The installed sizes of the orphans that count, among the first `n`.
pub open spec fn orphan_size(v: Seq<OrphanPackage>, which: Option<bool>, n: int) -> int
    decreases n,
{
    if n <= 0 {
        0
    } else if counts(v[n - 1], which) {
        orphan_size(v, which, n - 1) + v[n - 1].isize
    } else {
        orphan_size(v, which, n - 1)
    }
}

pub open spec fn orphan_count(v: Seq<OrphanPackage>, which: Option<bool>, n: int) -> int
    decreases n,
{
    if n <= 0 {
        0
    } else if counts(v[n - 1], which) {
        orphan_count(v, which, n - 1) + 1
    } else {
        orphan_count(v, which, n - 1)
    }
}

/// The sums of sizes stay within 64 bits all the way.
pub open spec fn orphan_sizes_fit(v: Seq<OrphanPackage>, which: Option<bool>) -> bool {
    &&& forall|n: int| 0 <= n <= v.len() ==> fits_i64(#[trigger] orphan_size(v, which, n))
    &&& orphan_size(v, which, v.len() as int) != i64::MIN
}

pub fn sum_sizes(v: &Vec<OrphanPackage>, which: Option<bool>) -> (r: (i64, usize))
    requires
        orphan_sizes_fit(v@, which),
    ensures
        r.0 == orphan_size(v@, which, v@.len() as int),
        r.1 == orphan_count(v@, which, v@.len() as int),
{
    let mut total: i64 = 0;
    let mut count: usize = 0;
    let mut i: usize = 0;
    while i < v.len()
        invariant
            i <= v@.len(),
            orphan_sizes_fit(v@, which),
            count <= i,
            total == orphan_size(v@, which, i as int),
            count == orphan_count(v@, which, i as int),
        decreases v@.len() - i,
    {
        assert(fits_i64(orphan_size(v@, which, i + 1)));
        let pure: bool = v[i].is_pure();
        let in_it: bool = match which {
            None => true,
            Some(w) => w == pure,
        };
        if in_it {
            total += v[i].isize;
            count += 1;
        }
        i += 1;
    }
    (total, count)
}

// ---------------------------------------------------------------------------------------
// Orphans

/// What is said of an orphan behind its size: why it is one.
pub open spec fn orphan_note(o: OrphanPackage) -> Seq<(Seq<char>, Style)> {
    if o.is_projected {
        style::row3(
            (" ["@, Style::Plain),
            ("projected: dropped by "@ + text::join(text::texts(o.dropped_by@), ", "@), Style::Cyan),
            ("]"@, Style::Plain),
        )
    } else if !orphans::pure_orphan(o@) {
        style::row3(
            (" (opt for: "@, Style::Plain),
            (text::join(text::texts(o.optional_for@), ", "@), Style::Dimmed),
            (")"@, Style::Plain),
        )
    } else {
        style::empty_row()
    }
}

pub open spec fn orphan_desc(o: OrphanPackage) -> Seq<(Seq<char>, Style)> {
    if o.desc@.len() > 0 {
        style::row2((" — "@, Style::Plain), (o.desc@, Style::Dimmed))
    } else {
        style::empty_row()
    }
}

/// The line of the orphan with this index.
pub open spec fn orphan_row(o: OrphanPackage, index: int) -> Seq<(Seq<char>, Style)> {
    style::row6(
        ("  "@ + style::pad_start(text::digits_of((index + 1) as nat), 2) + ") "@, Style::Plain),
        (style::pad_end(o.name@, 26), Style::Bold),
        (" "@, Style::Plain),
        (style::pad_end(o.version@, 16), Style::Dimmed),
        (" "@, Style::Plain),
        (style::pad_start(ui::size_text(o.isize as int), 10), Style::Yellow),
    ) + orphan_note(o) + orphan_desc(o)
}

/// The lines of the orphans that count, among the first `n`.
pub open spec fn orphan_rows(v: Seq<OrphanPackage>, which: Option<bool>, n: int) -> Seq<
    Seq<(Seq<char>, Style)>,
>
    decreases n,
{
    if n <= 0 {
        Seq::empty()
    } else if counts(v[n - 1], which) {
        orphan_rows(v, which, n - 1).push(orphan_row(v[n - 1], n - 1))
    } else {
        orphan_rows(v, which, n - 1)
    }
}

pub open spec fn amount(count: int, between: Seq<char>, size: int) -> Seq<char> {
    text::digits_of(count as nat) + between + ui::size_text(size)
}

/// The page on orphans: the pure ones, then those that are used optionally.
pub open spec fn orphans_page(v: Seq<OrphanPackage>) -> Seq<Seq<(Seq<char>, Style)>> {
    let n = v.len() as int;
    let pure = orphan_count(v, Some(true), n);
    let optional = orphan_count(v, Some(false), n);
    if n == 0 {
        Seq::empty()
    } else {
        style::page2(
            style::empty_row(),
            style::row1(
                (
                    "🧹 Orphaned Packages Detected ("@ + amount(
                        n,
                        " unneeded — "@,
                        orphan_size(v, None, n),
                    ) + "):"@,
                    Style::BoldYellow,
                ),
            ),
        ) + (if pure > 0 {
            style::page1(
                style::row2(
                    ("  "@, Style::Plain),
                    (
                        "▶ Pure Orphans ("@ + amount(
                            pure,
                            " unneeded — "@,
                            orphan_size(v, Some(true), n),
                        ) + ") [Safe to remove]:"@,
                        Style::BoldGreen,
                    ),
                ),
            ) + orphan_rows(v, Some(true), n)
        } else {
            Seq::empty()
        }) + (if optional > 0 {
            (if pure > 0 {
                style::page1(style::empty_row())
            } else {
                Seq::empty()
            }) + (style::page1(
                style::row2(
                    ("  "@, Style::Plain),
                    (
                        "▶ Optional Dependencies ("@ + amount(
                            optional,
                            " unneeded strictly — "@,
                            orphan_size(v, Some(false), n),
                        ) + ") [Used optionally by installed apps]:"@,
                        Style::BoldYellow,
                    ),
                ),
            ) + orphan_rows(v, Some(false), n))
        } else {
            Seq::empty()
        })
    }
}

fn amount_text(count: usize, between: &str, size: i64) -> (r: String)
    requires
        size != i64::MIN,
    ensures
        r@ == amount(count as int, between@, size as int),
{
    let n = number_text(count as u64);
    let s = format_size(size);
    text3(&n, between, &s)
}

fn make_orphan_row(o: &OrphanPackage, index: usize) -> (r: Line)
    requires
        o.isize != i64::MIN,
        index < usize::MAX,
    ensures
        r@ == orphan_row(*o, index as int),
{
    let n = number_text(index as u64 + 1);
    let num = padded_start(&n, 2);
    let lead = text3("  ", &num, ") ");
    let name = padded_end(&o.name, 26);
    let version = padded_end(&o.version, 16);
    let s = format_size(o.isize);
    let size = padded_start(&s, 10);
    let mut line = Line::new().with(&lead, Style::Plain).with(&name, Style::Bold).with(
        " ",
        Style::Plain,
    ).with(&version, Style::Dimmed).with(" ", Style::Plain).with(&size, Style::Yellow);
    let ghost head = line@;
    if o.is_projected {
        let by = join_strings(&o.dropped_by, ", ");
        let note = text2("projected: dropped by ", &by);
        line = line.with(" [", Style::Plain).with(&note, Style::Cyan).with("]", Style::Plain);
    } else if !o.is_pure() {
        let by = join_strings(&o.optional_for, ", ");
        line = line.with(" (opt for: ", Style::Plain).with(&by, Style::Dimmed).with(
            ")",
            Style::Plain,
        );
    }
    assert(line@ =~= head + orphan_note(*o));
    let ghost mid = line@;
    if !o.desc.as_str().is_empty() {
        line = line.with(" — ", Style::Plain).with(&o.desc, Style::Dimmed);
    }
    assert(line@ =~= mid + orphan_desc(*o));
    line
}

fn make_orphan_rows(v: &Vec<OrphanPackage>, which: bool) -> (r: Page)
    requires
        forall|i: int| 0 <= i < v@.len() ==> (#[trigger] v@[i]).isize != i64::MIN,
    ensures
        r@ == orphan_rows(v@, Some(which), v@.len() as int),
{
    let mut page = Page::new();
    let mut i: usize = 0;
    while i < v.len()
        invariant
            i <= v@.len(),
            forall|i: int| 0 <= i < v@.len() ==> (#[trigger] v@[i]).isize != i64::MIN,
            page@ == orphan_rows(v@, Some(which), i as int),
        decreases v@.len() - i,
    {
        if v[i].is_pure() == which {
            page = page.with(make_orphan_row(&v[i], i));
        }
        i += 1;
    }
    page
}

/// Shows the orphans, with their sizes and the reasons why they are orphans.
pub fn render_orphans_summary(orphans: &Vec<OrphanPackage>) -> (r: Page)
    requires
        forall|i: int| 0 <= i < orphans@.len() ==> (#[trigger] orphans@[i]).isize != i64::MIN,
        orphan_sizes_fit(orphans@, None),
        orphan_sizes_fit(orphans@, Some(true)),
        orphan_sizes_fit(orphans@, Some(false)),
    ensures
        r@ == orphans_page(orphans@),
{
    if orphans.len() == 0 {
        return Page::new();
    }
    let (total, _all) = sum_sizes(orphans, None);
    let (pure_size, pure) = sum_sizes(orphans, Some(true));
    let (optional_size, optional) = sum_sizes(orphans, Some(false));
    let a = amount_text(orphans.len(), " unneeded — ", total);
    let title = text3("🧹 Orphaned Packages Detected (", &a, "):");
    let mut page = Page::new().gap().line(&title, Style::BoldYellow);
    let ghost head = page@;
    if pure > 0 {
        let b = amount_text(pure, " unneeded — ", pure_size);
        let t = text3("▶ Pure Orphans (", &b, ") [Safe to remove]:");
        let rows = make_orphan_rows(orphans, true);
        let part = Page::new().with(Line::new().with("  ", Style::Plain).with(&t, Style::BoldGreen)).and(
            rows,
        );
        page = page.and(part);
    }
    proof {
        if pure == 0 {
            assert(page@ =~= head + Seq::<Seq<(Seq<char>, Style)>>::empty());
        }
    }
    let ghost mid = page@;
    if optional > 0 {
        let b = amount_text(optional, " unneeded strictly — ", optional_size);
        let t = text3(
            "▶ Optional Dependencies (",
            &b,
            ") [Used optionally by installed apps]:",
        );
        let rows = make_orphan_rows(orphans, false);
        let part = Page::new().with(
            Line::new().with("  ", Style::Plain).with(&t, Style::BoldYellow),
        ).and(rows);
        let gap = if pure > 0 {
            Page::new().gap()
        } else {
            Page::new()
        };
        let tail = gap.and(part);
        page = page.and(tail);
    } else {
        assert(page@ =~= mid + Seq::<Seq<(Seq<char>, Style)>>::empty());
    }
    page
}

/// The question which orphans to remove.
pub fn orphan_prompt(orphans: &Vec<OrphanPackage>, is_after_upgrade: bool) -> (r: &'static str)
    ensures
        r@ == if orphans::pure_names(orphans@, orphans@.len() as int).len() > 0 {
            if is_after_upgrade {
                "Remove orphaned packages after upgrade? (default=pure, 'p' for pure, 'all' for all, 'none' to skip):"@
            } else {
                "Enter orphaned packages to remove (default=pure, 'p' for pure, 'all' for all, 'none' to skip):"@
            }
        } else if is_after_upgrade {
            "Remove orphaned packages after upgrade? (default=all, 'none' to skip):"@
        } else {
            "Enter orphaned packages to remove (default=all, 'none' to skip):"@
        },
{
    let pure = OrphanManager::pure_orphans(orphans);
    assert(text::texts(pure@).len() == pure@.len());
    if pure.len() > 0 {
        if is_after_upgrade {
            "Remove orphaned packages after upgrade? (default=pure, 'p' for pure, 'all' for all, 'none' to skip):"
        } else {
            "Enter orphaned packages to remove (default=pure, 'p' for pure, 'all' for all, 'none' to skip):"
        }
    } else if is_after_upgrade {
        "Remove orphaned packages after upgrade? (default=all, 'none' to skip):"
    } else {
        "Enter orphaned packages to remove (default=all, 'none' to skip):"
    }
}

/// The orphans that an answer selects: by default the pure ones, or all where none is pure.
pub open spec fn orphan_selection(v: Seq<OrphanPackage>, answer: Option<Seq<char>>) -> Seq<Seq<char>> {
    let pure = orphans::pure_names(v, v.len() as int);
    let all = orphans::orphan_names(v);
    if v.len() == 0 || answer is None {
        Seq::empty()
    } else {
        let raw = text::trim(answer->0);
        if raw.len() == 0 {
            if pure.len() > 0 {
                pure
            } else {
                all
            }
        } else if text::same_ignoring_case(raw, "p"@) || text::same_ignoring_case(raw, "pure"@)
            || text::same_ignoring_case(raw, "safe"@) {
            pure
        } else if text::same_ignoring_case(raw, "a"@) || text::same_ignoring_case(raw, "all"@) {
            all
        } else if text::same_ignoring_case(raw, "n"@) || text::same_ignoring_case(raw, "none"@) || raw == "^"@ {
            Seq::empty()
        } else {
            ui::selection(raw, all)
        }
    }
}

/// The names of the orphans to remove, by the user's answer; none where there is no answer.
pub fn prompt_orphan_selection(orphans: &Vec<OrphanPackage>, answer: Option<&str>) -> (r: Vec<String>)
    ensures
        text::texts(r@) == orphan_selection(
            orphans@,
            match answer {
                Some(a) => Some(a@),
                None => None,
            },
        ),
{
    if orphans.len() == 0 {
        return no_strings();
    }
    match answer {
        None => no_strings(),
        Some(a) => {
            let pure = OrphanManager::pure_orphans(orphans);
            let all = OrphanManager::names(orphans);
            assert(text::texts(pure@).len() == pure@.len());
            let raw = trimmed(a);
            if raw.as_str().is_empty() {
                return if pure.len() > 0 {
                    pure
                } else {
                    all
                };
            }
            if eq_ignore_case(&raw, "p") || eq_ignore_case(&raw, "pure") || eq_ignore_case(
                &raw,
                "safe",
            ) {
                return pure;
            }
            if eq_ignore_case(&raw, "a") || eq_ignore_case(&raw, "all") {
                return all;
            }
            if eq_ignore_case(&raw, "n") || eq_ignore_case(&raw, "none") || str_eq(&raw, "^") {
                return no_strings();
            }
            parse_selection_indices(&raw, &all)
        },
    }
}

/// What the menu says of an orphan: its size, what uses it optionally, and what it is.
pub open spec fn orphan_summary(o: OrphanPackage) -> Seq<char> {
    ui::size_text(o.isize as int) + (if orphans::pure_orphan(o@) {
        Seq::empty()
    } else {
        " (for: "@ + text::join(text::texts(o.optional_for@), ", "@) + ")"@
    }) + (if o.desc@.len() > 0 {
        " — "@ + o.desc@
    } else {
        Seq::empty()
    })
}

/// The menu entry of an orphan. The pure ones are checked from the start.
pub open spec fn orphan_item(o: OrphanPackage) -> ItemView {
    ItemView {
        id: o.name@,
        label: o.name@,
        description: orphan_summary(o),
        is_pure: orphans::pure_orphan(o@),
        checked: orphans::pure_orphan(o@),
    }
}

/// The entries of the menu on orphans.
pub fn orphan_items(orphans: &Vec<OrphanPackage>) -> (r: Vec<CheckboxItem>)
    requires
        forall|i: int| 0 <= i < orphans@.len() ==> (#[trigger] orphans@[i]).isize != i64::MIN,
    ensures
        tui_select::item_views(r@) == Seq::new(orphans@.len(), |i: int| orphan_item(orphans@[i])),
{
    let mut out: Vec<CheckboxItem> = Vec::new();
    let mut i: usize = 0;
    while i < orphans.len()
        invariant
            i <= orphans@.len(),
            out@.len() == i,
            forall|i: int| 0 <= i < orphans@.len() ==> (#[trigger] orphans@[i]).isize != i64::MIN,
            forall|j: int| 0 <= j < i ==> (#[trigger] out@[j])@ == orphan_item(orphans@[j]),
        decreases orphans@.len() - i,
    {
        let o = &orphans[i];
        let pure = o.is_pure();
        let mut what = format_size(o.isize);
        if !pure {
            let users = join_strings(&o.optional_for, ", ");
            let note = text3(" (for: ", &users, ")");
            what = text2(&what, &note);
        }
        if !o.desc.as_str().is_empty() {
            what = text3(&what, " — ", &o.desc);
        }
        assert(what@ =~= orphan_summary(*o));
        out.push(CheckboxItem::new(&o.name, &o.name, &what, pure, pure));
        i += 1;
    }
    assert(tui_select::item_views(out@) =~= Seq::new(
        orphans@.len(),
        |i: int| orphan_item(orphans@[i]),
    ));
    out
}

} // verus!
