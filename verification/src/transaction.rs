//! The view of a pending transaction: what is held, what is updated, and what it amounts to.
use crate::integrations::ExternalUpdate;
use crate::resolver::{CandidatePackage, ResolveResult, ResolvedPackage};
use crate::style::{Line, Page, Style, padded_end, padded_start, repeat_char};
use crate::style;
use crate::text::{chars_of, eq_ignore_case, number_text, str_eq, text2, text3};
use crate::text;
use crate::ui::{format_delta_text, format_size, str_width};
use crate::ui;
use crate::views;
use vstd::prelude::*;
use vstd::string::*;

verus! {

// ---------------------------------------------------------------------------------------
// Pins without a package, and packages held back

pub open spec fn missing_pin_row(pin: (String, String)) -> Seq<(Seq<char>, Style)> {
    style::row5(
        ("  • "@, Style::Plain),
        (style::pad_end(pin.0@, 28), Style::Bold),
        (" ➔ ["@, Style::Plain),
        (pin.1@, Style::Red),
        ("] NOT FOUND"@, Style::Plain),
    )
}

pub open spec fn missing_pin_rows(pins: Seq<(String, String)>, n: int) -> Seq<
    Seq<(Seq<char>, Style)>,
>
    decreases n,
{
    if n <= 0 {
        Seq::empty()
    } else {
        missing_pin_rows(pins, n - 1).push(missing_pin_row(pins[n - 1]))
    }
}

/// A heading with a number in it, behind an empty line.
pub open spec fn counted_heading(before: Seq<char>, n: int, after: Seq<char>, style: Style) -> Seq<
    Seq<(Seq<char>, Style)>,
> {
    style::page2(style::empty_row(), style::row1((before + text::digits_of(n as nat) + after, style)))
}

pub fn make_counted_heading(before: &str, n: usize, after: &str, style: Style) -> (r: Page)
    ensures
        r@ == counted_heading(before@, n as int, after@, style),
{
    let d = number_text(n as u64);
    let t = text3(before, &d, after);
    Page::new().gap().line(&t, style)
}

pub open spec fn missing_pins_page(pins: Seq<(String, String)>) -> Seq<Seq<(Seq<char>, Style)>> {
    if pins.len() == 0 {
        Seq::empty()
    } else {
        counted_heading(
            "⚠ Unresolved Custom Pins ("@,
            pins.len() as int,
            "):"@,
            Style::BoldYellow,
        ) + missing_pin_rows(pins, pins.len() as int)
    }
}

fn make_missing_pins(pins: &Vec<(String, String)>) -> (r: Page)
    ensures
        r@ == missing_pins_page(pins@),
{
    if pins.len() == 0 {
        return Page::new();
    }
    let head = make_counted_heading(
        "⚠ Unresolved Custom Pins (",
        pins.len(),
        "):",
        Style::BoldYellow,
    );
    let mut rows = Page::new();
    let mut i: usize = 0;
    while i < pins.len()
        invariant
            i <= pins@.len(),
            rows@ == missing_pin_rows(pins@, i as int),
        decreases pins@.len() - i,
    {
        let name = padded_end(&pins[i].0, 28);
        rows = rows.with(
            Line::new().with("  • ", Style::Plain).with(&name, Style::Bold).with(
                " ➔ [",
                Style::Plain,
            ).with(&pins[i].1, Style::Red).with("] NOT FOUND", Style::Plain),
        );
        i += 1;
    }
    head.and(rows)
}

pub open spec fn held_row(p: ResolvedPackage) -> Seq<(Seq<char>, Style)> {
    style::row5(
        ("  • "@, Style::Plain),
        (style::pad_end(p.name@, 28), Style::Bold),
        (
            " : "@ + p.installed_ver@ + " ➔ "@ + (match p.candidate {
                Some(c) => c.version@,
                None => "unknown"@,
            }) + "  ("@,
            Style::Plain,
        ),
        (
            if p.hold_reason@.len() == 0 {
                "held"@
            } else {
                p.hold_reason@
            },
            Style::Yellow,
        ),
        (")"@, Style::Plain),
    )
}

pub open spec fn held_rows(held: Seq<ResolvedPackage>, n: int) -> Seq<Seq<(Seq<char>, Style)>>
    decreases n,
{
    if n <= 0 {
        Seq::empty()
    } else {
        held_rows(held, n - 1).push(held_row(held[n - 1]))
    }
}

pub open spec fn held_page(held: Seq<ResolvedPackage>) -> Seq<Seq<(Seq<char>, Style)>> {
    if held.len() == 0 {
        Seq::empty()
    } else {
        counted_heading("⏸ Held Packages ("@, held.len() as int, "):"@, Style::BoldYellow)
            + held_rows(held, held.len() as int)
    }
}

fn make_held(held: &Vec<ResolvedPackage>) -> (r: Page)
    ensures
        r@ == held_page(held@),
{
    if held.len() == 0 {
        return Page::new();
    }
    let head = make_counted_heading("⏸ Held Packages (", held.len(), "):", Style::BoldYellow);
    let mut rows = Page::new();
    let mut i: usize = 0;
    while i < held.len()
        invariant
            i <= held@.len(),
            rows@ == held_rows(held@, i as int),
        decreases held@.len() - i,
    {
        let p = &held[i];
        let name = padded_end(&p.name, 28);
        let version: &str = match &p.candidate {
            Some(c) => c.version.as_str(),
            None => "unknown",
        };
        let mut mid = text3(" : ", &p.installed_ver, " ➔ ");
        mid.append(version);
        mid.append("  (");
        let reason: &str = if p.hold_reason.as_str().is_empty() {
            "held"
        } else {
            p.hold_reason.as_str()
        };
        rows = rows.with(
            Line::new().with("  • ", Style::Plain).with(&name, Style::Bold).with(
                &mid,
                Style::Plain,
            ).with(reason, Style::Yellow).with(")", Style::Plain),
        );
        i += 1;
    }
    head.and(rows)
}

// ---------------------------------------------------------------------------------------
// The table of updates

/// The badge of an update: how the package got to its repository.
pub open spec fn state_badge(p: ResolvedPackage) -> (Seq<char>, Style) {
    if p.state@ == "custom"@ {
        if p.is_downgrade {
            ("[down]"@, Style::Red)
        } else if p.update_type@ == "pin_sync"@ {
            ("[sync]"@, Style::Magenta)
        } else {
            ("[custom]"@, Style::Cyan)
        }
    } else if p.state@ == "sticky"@ {
        ("[sticky]"@, Style::Blue)
    } else {
        ("[default]"@, Style::Green)
    }
}

fn badge_of(p: &ResolvedPackage) -> (r: (&'static str, Style))
    ensures
        (r.0@, r.1) == state_badge(*p),
{
    if str_eq(&p.state, "custom") {
        if p.is_downgrade {
            ("[down]", Style::Red)
        } else if str_eq(&p.update_type, "pin_sync") {
            ("[sync]", Style::Magenta)
        } else {
            ("[custom]", Style::Cyan)
        }
    } else if str_eq(&p.state, "sticky") {
        ("[sticky]", Style::Blue)
    } else {
        ("[default]", Style::Green)
    }
}

/// A size, or a hyphen where it is not known.
pub open spec fn known_size(n: i64) -> Seq<char> {
    if n > 0 {
        ui::size_text(n as int)
    } else {
        "-"@
    }
}

fn size_or_hyphen(n: i64) -> (r: String)
    ensures
        r@ == known_size(n),
{
    if n > 0 {
        format_size(n)
    } else {
        "-".to_string()
    }
}

pub open spec fn known_delta(d: Option<i64>) -> (Seq<char>, Style) {
    match d {
        Some(n) => ui::delta_span(n as int),
        None => ("-"@, Style::Gray),
    }
}

/// The characters that switch the bold style on and off; they count where a coloured text is
/// filled up with spaces.
pub open spec fn hidden_chars(colors: bool) -> int {
    if colors {
        8
    } else {
        0
    }
}

/// The line of an update to the candidate `c`.
pub open spec fn update_row(p: ResolvedPackage, c: CandidatePackage, colors: bool) -> Seq<
    (Seq<char>, Style),
> {
    let (badge, badge_style) = state_badge(p);
    let (delta, delta_style) = known_delta(p.net_delta);
    let versions = p.installed_ver@ + " ➔ "@;
    style::row9(
        ("  "@, Style::Plain),
        (style::pad_end(badge, 9), badge_style),
        (" "@, Style::Plain),
        (style::pad_end(p.name@, 28), Style::Bold),
        (" "@, Style::Plain),
        (
            style::pad_end("["@ + c.repo@ + "]"@, 12),
            if p.state@ == "custom"@ {
                Style::Yellow
            } else {
                Style::Dimmed
            },
        ),
        (" "@ + versions, Style::Plain),
        (c.version@, Style::Bold),
        (
            style::repeated(
                ' ',
                32 - hidden_chars(colors) - versions.len() - c.version@.len(),
            ) + " "@,
            Style::Plain,
        ),
    ).push((style::pad_start(known_size(c.csize), 10), Style::Dimmed)).push((" "@, Style::Plain)).push(
        (style::pad_start(known_size(c.isize), 10), Style::Dimmed),
    ).push((" "@, Style::Plain)).push((style::pad_start(delta, 11), delta_style))
}

fn make_update_row(p: &ResolvedPackage, c: &CandidatePackage, colors: bool) -> (r: Line)
    requires
        p.net_delta != Some(i64::MIN),
    ensures
        r@ == update_row(*p, *c, colors),
{
    let (badge, badge_style) = badge_of(p);
    let (delta, delta_style) = match p.net_delta {
        Some(n) => format_delta_text(n),
        None => ("-".to_string(), Style::Gray),
    };
    let state = padded_end(badge, 9);
    let name = padded_end(&p.name, 28);
    let r = text3("[", &c.repo, "]");
    let repo = padded_end(&r, 12);
    let repo_style = if str_eq(&p.state, "custom") {
        Style::Yellow
    } else {
        Style::Dimmed
    };
    let versions = text2(&p.installed_ver, " ➔ ");
    let lead = text2(" ", &versions);
    let used: u128 = chars_of(&versions).len() as u128 + chars_of(&c.version).len() as u128;
    let room: u128 = if colors {
        24
    } else {
        32
    };
    let fill = if used < room {
        repeat_char(' ', (room - used) as usize)
    } else {
        String::new()
    };
    assert(fill@ =~= style::repeated(
        ' ',
        32 - hidden_chars(colors) - versions@.len() - c.version@.len(),
    ));
    let tail = text2(&fill, " ");
    let a = size_or_hyphen(c.csize);
    let csize = padded_start(&a, 10);
    let b = size_or_hyphen(c.isize);
    let isize_ = padded_start(&b, 10);
    let d = padded_start(&delta, 11);
    Line::new().with("  ", Style::Plain).with(&state, badge_style).with(" ", Style::Plain).with(
        &name,
        Style::Bold,
    ).with(" ", Style::Plain).with(&repo, repo_style).with(&lead, Style::Plain).with(
        &c.version,
        Style::Bold,
    ).with(&tail, Style::Plain).with(&csize, Style::Dimmed).with(" ", Style::Plain).with(
        &isize_,
        Style::Dimmed,
    ).with(" ", Style::Plain).with(&d, delta_style)
}

pub open spec fn update_rows(us: Seq<ResolvedPackage>, colors: bool, n: int) -> Seq<
    Seq<(Seq<char>, Style)>,
>
    decreases n,
{
    if n <= 0 {
        Seq::empty()
    } else {
        match us[n - 1].candidate {
            Some(c) => update_rows(us, colors, n - 1).push(update_row(us[n - 1], c, colors)),
            None => update_rows(us, colors, n - 1),
        }
    }
}

/// What the updates add up to.
#[derive(Debug, Clone, Copy)]
pub struct Totals {
    pub download: i64,
    pub installed: i64,
    pub delta: i64,
    pub custom: usize,
    pub default: usize,
    pub pacman: usize,
    pub aur: usize,
}

pub struct TotalsView {
    pub download: int,
    pub installed: int,
    pub delta: int,
    pub custom: int,
    pub default: int,
    pub pacman: int,
    pub aur: int,
}

pub open spec fn update_totals(us: Seq<ResolvedPackage>, n: int) -> TotalsView
    decreases n,
{
    if n <= 0 {
        TotalsView {
            download: 0,
            installed: 0,
            delta: 0,
            custom: 0,
            default: 0,
            pacman: 0,
            aur: 0,
        }
    } else {
        let t = update_totals(us, n - 1);
        let p = us[n - 1];
        match p.candidate {
            None => t,
            Some(c) => TotalsView {
                download: t.download + c.csize,
                installed: t.installed + c.isize,
                delta: t.delta + (match p.net_delta {
                    Some(d) => d as int,
                    None => 0,
                }),
                custom: t.custom + (if p.state@ == "custom"@ {
                    1int
                } else {
                    0
                }),
                default: t.default + (if p.state@ == "custom"@ {
                    0int
                } else {
                    1
                }),
                pacman: t.pacman + (if c.is_aur {
                    0int
                } else {
                    1
                }),
                aur: t.aur + (if c.is_aur {
                    1int
                } else {
                    0
                }),
            },
        }
    }
}

/// All sums over the first updates stay within 64 bits, and the sizes can be shown.
pub open spec fn totals_fit(us: Seq<ResolvedPackage>) -> bool {
    let last = update_totals(us, us.len() as int);
    &&& forall|n: int|
        0 <= n <= us.len() ==> {
            let t = #[trigger] update_totals(us, n);
            views::fits_i64(t.download) && views::fits_i64(t.installed) && views::fits_i64(t.delta)
        }
    &&& last.download != i64::MIN
    &&& last.installed != i64::MIN
    &&& last.delta != i64::MIN
    &&& forall|i: int|
        0 <= i < us.len() ==> (#[trigger] us[i]).net_delta != Some(i64::MIN)
}

fn make_updates(us: &Vec<ResolvedPackage>, colors: bool) -> (r: (Page, Totals))
    requires
        totals_fit(us@),
    ensures
        r.0@ == update_rows(us@, colors, us@.len() as int),
        r.1.download == update_totals(us@, us@.len() as int).download,
        r.1.installed == update_totals(us@, us@.len() as int).installed,
        r.1.delta == update_totals(us@, us@.len() as int).delta,
        r.1.custom == update_totals(us@, us@.len() as int).custom,
        r.1.default == update_totals(us@, us@.len() as int).default,
        r.1.pacman == update_totals(us@, us@.len() as int).pacman,
        r.1.aur == update_totals(us@, us@.len() as int).aur,
        r.1.custom + r.1.default <= us@.len(),
{
    let mut rows = Page::new();
    let mut t = Totals {
        download: 0,
        installed: 0,
        delta: 0,
        custom: 0,
        default: 0,
        pacman: 0,
        aur: 0,
    };
    let mut i: usize = 0;
    while i < us.len()
        invariant
            i <= us@.len(),
            totals_fit(us@),
            rows@ == update_rows(us@, colors, i as int),
            t.download == update_totals(us@, i as int).download,
            t.installed == update_totals(us@, i as int).installed,
            t.delta == update_totals(us@, i as int).delta,
            t.custom == update_totals(us@, i as int).custom,
            t.default == update_totals(us@, i as int).default,
            t.pacman == update_totals(us@, i as int).pacman,
            t.aur == update_totals(us@, i as int).aur,
            t.custom + t.default <= i,
            t.pacman + t.aur <= i,
        decreases us@.len() - i,
    {
        let p = &us[i];
        let ghost next = update_totals(us@, i + 1);
        assert(views::fits_i64(next.download) && views::fits_i64(next.installed) && views::fits_i64(next.delta));
        if let Some(c) = &p.candidate {
            rows = rows.with(make_update_row(p, c, colors));
            if c.is_aur {
                t.aur += 1;
            } else {
                t.pacman += 1;
            }
            if str_eq(&p.state, "custom") {
                t.custom += 1;
            } else {
                t.default += 1;
            }
            t.download += c.csize;
            t.installed += c.isize;
            match p.net_delta {
                Some(d) => {
                    t.delta += d;
                },
                None => {},
            }
        }
        i += 1;
    }
    (rows, t)
}

pub open spec fn updates_page(us: Seq<ResolvedPackage>, colors: bool) -> Seq<
    Seq<(Seq<char>, Style)>,
> {
    if us.len() == 0 {
        Seq::empty()
    } else {
        counted_heading("Pending Package Transactions ("@, us.len() as int, "):"@, Style::Bold)
            + style::page2(
            style::row1(
                (
                    "  STATE     PACKAGE                      REPO         VERSION                            DOWNLOAD  INSTALLED   NET DELTA"@,
                    Style::Bold,
                ),
            ),
            style::row1(
                (
                    "  ───────── ──────────────────────────── ──────────── ──────────────────────────────── ────────── ────────── ───────────"@,
                    Style::Plain,
                ),
            ),
        ) + update_rows(us, colors, us.len() as int)
    }
}

// ---------------------------------------------------------------------------------------
// Updates of other package managers

pub open spec fn external_row(e: ExternalUpdate) -> Seq<(Seq<char>, Style)> {
    style::row8(
        ("  "@, Style::Plain),
        (style::pad_end(e.runner@, 10), Style::Cyan),
        (" "@, Style::Plain),
        (style::pad_end(e.name@, 32), Style::Bold),
        (" "@, Style::Plain),
        (style::pad_end("["@ + e.repo@ + "]"@, 12), Style::Dimmed),
        (" "@, Style::Plain),
        (style::pad_end(e.version@, 24), Style::Green),
    )
}

pub open spec fn external_rows(es: Seq<ExternalUpdate>, n: int) -> Seq<Seq<(Seq<char>, Style)>>
    decreases n,
{
    if n <= 0 {
        Seq::empty()
    } else {
        external_rows(es, n - 1).push(external_row(es[n - 1]))
    }
}

pub open spec fn external_page(es: Seq<ExternalUpdate>) -> Seq<Seq<(Seq<char>, Style)>> {
    if es.len() == 0 {
        Seq::empty()
    } else {
        counted_heading("External Package Transactions ("@, es.len() as int, "):"@, Style::Bold)
            + style::page2(
            style::row1(
                (
                    "  RUNNER     PACKAGE / APP ID                 REPO         TARGET VERSION          "@,
                    Style::Bold,
                ),
            ),
            style::row1(
                (
                    "  ────────── ──────────────────────────────── ──────────── ────────────────────────"@,
                    Style::Plain,
                ),
            ),
        ) + external_rows(es, es.len() as int)
    }
}

fn make_external(es: &Vec<ExternalUpdate>) -> (r: Page)
    ensures
        r@ == external_page(es@),
{
    if es.len() == 0 {
        return Page::new();
    }
    let head = make_counted_heading(
        "External Package Transactions (",
        es.len(),
        "):",
        Style::Bold,
    );
    let table = Page::new().line(
        "  RUNNER     PACKAGE / APP ID                 REPO         TARGET VERSION          ",
        Style::Bold,
    ).line(
        "  ────────── ──────────────────────────────── ──────────── ────────────────────────",
        Style::Plain,
    );
    let mut rows = Page::new();
    let mut i: usize = 0;
    while i < es.len()
        invariant
            i <= es@.len(),
            rows@ == external_rows(es@, i as int),
        decreases es@.len() - i,
    {
        let e = &es[i];
        let runner = padded_end(&e.runner, 10);
        let name = padded_end(&e.name, 32);
        let r = text3("[", &e.repo, "]");
        let repo = padded_end(&r, 12);
        let version = padded_end(&e.version, 24);
        rows = rows.with(
            Line::new().with("  ", Style::Plain).with(&runner, Style::Cyan).with(
                " ",
                Style::Plain,
            ).with(&name, Style::Bold).with(" ", Style::Plain).with(&repo, Style::Dimmed).with(
                " ",
                Style::Plain,
            ).with(&version, Style::Green),
        );
        i += 1;
    }
    head.and(table).and(rows)
}

/// How many of the first `n` updates are run by `runner`.
pub open spec fn run_by(es: Seq<ExternalUpdate>, runner: Seq<char>, n: int) -> int
    decreases n,
{
    if n <= 0 {
        0
    } else if es[n - 1].runner@ == runner {
        run_by(es, runner, n - 1) + 1
    } else {
        run_by(es, runner, n - 1)
    }
}

fn count_run_by(es: &Vec<ExternalUpdate>, runner: &str) -> (r: usize)
    ensures
        r == run_by(es@, runner@, es@.len() as int),
{
    let mut count: usize = 0;
    let mut i: usize = 0;
    while i < es.len()
        invariant
            i <= es@.len(),
            count <= i,
            count == run_by(es@, runner@, i as int),
        decreases es@.len() - i,
    {
        if str_eq(&es[i].runner, runner) {
            count += 1;
        }
        i += 1;
    }
    count
}

// ---------------------------------------------------------------------------------------
// The summary

/// The inner width of the summary.
pub const CARD_WIDTH: usize = 58;

/// A line of the summary: a label on the left, and a value on the right.
pub open spec fn card_row(label: Seq<char>, value: Seq<char>, style: Style) -> Seq<
    (Seq<char>, Style),
> {
    style::row3(
        (
            "  │ "@ + label + style::repeated(' ', CARD_WIDTH - ui::width(label) - ui::width(value) - 2),
            Style::Plain,
        ),
        (value, style),
        (" │"@, Style::Plain),
    )
}

/// A line of the summary.
pub fn card_line(label: &str, value: &str, style: Style) -> (r: Line)
    ensures
        r@ == card_row(label@, value@, style),
{
    let used: u128 = str_width(label) as u128 + str_width(value) as u128 + 2;
    let fill = if used <= CARD_WIDTH as u128 {
        repeat_char(' ', (CARD_WIDTH as u128 - used) as usize)
    } else {
        String::new()
    };
    assert(fill@ =~= style::repeated(' ', CARD_WIDTH - ui::width(label@) - ui::width(value@) - 2));
    let left = text3("  │ ", label, &fill);
    Line::new().with(&left, Style::Plain).with(value, style).with(" │", Style::Plain)
}

/// All lines of the summary are as wide as its border, as long as what they say has room and
/// holds no escape sequences.
pub proof fn card_lines_align(label: Seq<char>, value: Seq<char>, style: Style)
    requires
        ui::no_escape(label),
        ui::no_escape(value),
        ui::width(label) + ui::width(value) + 2 <= CARD_WIDTH,
    ensures
        ui::width(style::plain_text(card_row(label, value, style))) == CARD_WIDTH + 4,
{
    reveal_strlit("  │ ");
    reveal_strlit(" │");
    let left = "  │ "@;
    let right = " │"@;
    let fill = style::repeated(' ', CARD_WIDTH - ui::width(label) - ui::width(value) - 2);
    let row = card_row(label, value, style);
    reveal_with_fuel(style::plain_text, 4);
    assert(row.drop_last() =~= style::row2((left + label + fill, Style::Plain), (value, style)));
    assert(row.drop_last().drop_last() =~= style::row1((left + label + fill, Style::Plain)));
    assert(row.drop_last().drop_last().drop_last() =~= Seq::<(Seq<char>, Style)>::empty());
    assert(style::plain_text(row) =~= left + label + fill + value + right);
    assert(ui::columns('│') == 1 && ui::columns(' ') == 1);
    assert(ui::width(left) == 4) by {
        reveal_with_fuel(ui::width_upto, 5);
        reveal_with_fuel(ui::in_escape, 5);
    }
    assert(ui::width(right) == 2) by {
        reveal_with_fuel(ui::width_upto, 3);
        reveal_with_fuel(ui::in_escape, 3);
    }
    ui::spaces_width(CARD_WIDTH - ui::width(label) - ui::width(value) - 2);
    assert(ui::no_escape(left));
    ui::widths_add_up(left, label);
    assert(ui::no_escape(left + label));
    ui::widths_add_up(left + label, fill);
    assert(ui::no_escape(left + label + fill));
    ui::widths_add_up(left + label + fill, value);
    assert(ui::no_escape(left + label + fill + value));
    ui::widths_add_up(left + label + fill + value, right);
}

/// A line of the summary with a count, where there is something to count.
pub open spec fn counted_card(label: Seq<char>, n: int, what: Seq<char>, style: Style) -> Seq<
    Seq<(Seq<char>, Style)>,
> {
    if n > 0 {
        style::page1(card_row(label, text::digits_of(n as nat) + what, style))
    } else {
        Seq::empty()
    }
}

fn make_counted_card(label: &str, n: usize, what: &str, style: Style) -> (r: Page)
    ensures
        r@ == counted_card(label@, n as int, what@, style),
{
    if n > 0 {
        let d = number_text(n as u64);
        let v = text2(&d, what);
        Page::new().with(card_line(label, &v, style))
    } else {
        Page::new()
    }
}

/// How a helper is called in the summary.
pub open spec fn helper_title(helper: Seq<char>) -> Seq<char> {
    if text::same_ignoring_case(helper, "paru"@) {
        "Paru"@
    } else if text::same_ignoring_case(helper, "yay"@) {
        "Yay"@
    } else {
        helper
    }
}

fn title_of(helper: &str) -> (r: String)
    ensures
        r@ == helper_title(helper@),
{
    if eq_ignore_case(helper, "paru") {
        "Paru".to_string()
    } else if eq_ignore_case(helper, "yay") {
        "Yay".to_string()
    } else {
        helper.to_string()
    }
}

pub open spec fn border_row(left: Seq<char>, right: Seq<char>) -> Seq<(Seq<char>, Style)> {
    style::row1((left + style::repeated('─', CARD_WIDTH as int) + right, Style::Plain))
}

fn border_line(left: &str, right: &str) -> (r: Line)
    ensures
        r@ == border_row(left@, right@),
{
    let rule = repeat_char('─', CARD_WIDTH);
    let t = text3(left, &rule, right);
    Line::new().with(&t, Style::Plain)
}

/// The summary.
pub open spec fn card_page(
    us: Seq<ResolvedPackage>,
    held: int,
    helper: Seq<char>,
    es: Seq<ExternalUpdate>,
) -> Seq<Seq<(Seq<char>, Style)>> {
    let t = update_totals(us, us.len() as int);
    let n = es.len() as int;
    let (delta, delta_style) = ui::delta_span(t.delta);
    style::page3(
        style::empty_row(),
        border_row("  ┌"@, "┐"@),
        card_row(
            "📦 Packages to Upgrade : "@,
            text::digits_of((us.len() + es.len()) as nat) + " ("@ + text::digits_of(t.custom as nat)
                + " custom, "@ + text::digits_of((t.default + n) as nat) + " default)"@,
            Style::Bold,
        ),
    ) + counted_card("  • Pacman             : "@, t.pacman, " updates"@, Style::Cyan)
        + counted_card(
        "  • "@ + style::pad_end(helper_title(helper), 18) + " : "@,
        t.aur,
        " updates"@,
        Style::Yellow,
    ) + counted_card(
        "  • Flatpak            : "@,
        run_by(es, "Flatpak"@, n),
        " updates"@,
        Style::Blue,
    ) + counted_card(
        "  • Nix                : "@,
        run_by(es, "Nix"@, n),
        " updates"@,
        Style::Magenta,
    ) + counted_card("⏸ Packages Held Back  : "@, held, " packages"@, Style::Yellow) + style::page5(
        card_row("📥 Total Download Size : "@, ui::size_text(t.download), Style::Cyan),
        card_row("💾 Total Install Size  : "@, ui::size_text(t.installed), Style::Dimmed),
        card_row("📊 Net Space Delta     : "@, delta, delta_style),
        border_row("  └"@, "┘"@),
        style::empty_row(),
    )
}

fn make_card(
    t: &Totals,
    updates: usize,
    held: usize,
    helper: &str,
    es: &Vec<ExternalUpdate>,
    us: &Vec<ResolvedPackage>,
) -> (r: Page)
    requires
        totals_fit(us@),
        updates == us@.len(),
        updates + es@.len() <= u64::MAX,
        t.custom + t.default <= us@.len(),
        t.download == update_totals(us@, us@.len() as int).download,
        t.installed == update_totals(us@, us@.len() as int).installed,
        t.delta == update_totals(us@, us@.len() as int).delta,
        t.custom == update_totals(us@, us@.len() as int).custom,
        t.default == update_totals(us@, us@.len() as int).default,
        t.pacman == update_totals(us@, us@.len() as int).pacman,
        t.aur == update_totals(us@, us@.len() as int).aur,
    ensures
        r@ == card_page(us@, held as int, helper@, es@),
{
    let all = number_text(updates as u64 + es.len() as u64);
    let custom = number_text(t.custom as u64);
    let default = number_text(t.default as u64 + es.len() as u64);
    let mut summary = text3(&all, " (", &custom);
    summary.append(" custom, ");
    summary.append(&default);
    summary.append(" default)");
    let mut page = Page::new().gap().with(border_line("  ┌", "┐")).with(
        card_line("📦 Packages to Upgrade : ", &summary, Style::Bold),
    );
    page = page.and(
        make_counted_card("  • Pacman             : ", t.pacman, " updates", Style::Cyan),
    );
    let title = title_of(helper);
    let wide = padded_end(&title, 18);
    let label = text3("  • ", &wide, " : ");
    page = page.and(make_counted_card(&label, t.aur, " updates", Style::Yellow));
    let flatpak = count_run_by(es, "Flatpak");
    page = page.and(
        make_counted_card("  • Flatpak            : ", flatpak, " updates", Style::Blue),
    );
    let nix = count_run_by(es, "Nix");
    page = page.and(
        make_counted_card("  • Nix                : ", nix, " updates", Style::Magenta),
    );
    page = page.and(
        make_counted_card("⏸ Packages Held Back  : ", held, " packages", Style::Yellow),
    );
    let download = format_size(t.download);
    let installed = format_size(t.installed);
    let (delta, delta_style) = format_delta_text(t.delta);
    let end = Page::new().with(
        card_line("📥 Total Download Size : ", &download, Style::Cyan),
    ).with(card_line("💾 Total Install Size  : ", &installed, Style::Dimmed)).with(
        card_line("📊 Net Space Delta     : ", &delta, delta_style),
    ).with(border_line("  └", "┘")).gap();
    page.and(end)
}

/// The whole view.
pub open spec fn transaction_page(
    data: ResolveResult,
    helper: Seq<char>,
    es: Seq<ExternalUpdate>,
    colors: bool,
) -> Seq<Seq<(Seq<char>, Style)>> {
    let top = missing_pins_page(data.unresolved_pins@) + held_page(data.held_packages@);
    if data.updates@.len() == 0 && es.len() == 0 {
        if data.held_packages@.len() == 0 {
            top + style::page3(
                style::empty_row(),
                style::row1(("✔ System is fully up to date!"@, Style::Green)),
                style::row1(
                    (
                        "  "@ + text::digits_of(data.installed_count as nat)
                            + " packages inspected across "@ + text::digits_of(
                            data.repos@.len() as nat,
                        ) + " repositories."@,
                        Style::Plain,
                    ),
                ),
            )
        } else {
            top
        }
    } else {
        top + updates_page(data.updates@, colors) + external_page(es) + card_page(
            data.updates@,
            data.held_packages@.len() as int,
            helper,
            es,
        )
    }
}

/// Shows what is pending: pins without a package, packages held back, updates with their
/// sizes, updates of other package managers, and a summary.
pub fn render_transaction_view(
    data: &ResolveResult,
    helper: &str,
    external_updates: &Vec<ExternalUpdate>,
    colors: bool,
) -> (r: Page)
    requires
        totals_fit(data.updates@),
        data.updates@.len() + external_updates@.len() <= u64::MAX,
    ensures
        r@ == transaction_page(*data, helper@, external_updates@, colors),
{
    let pins = make_missing_pins(&data.unresolved_pins);
    let held = make_held(&data.held_packages);
    let top = pins.and(held);
    if data.updates.len() == 0 && external_updates.len() == 0 {
        if data.held_packages.len() == 0 {
            let n = number_text(data.installed_count as u64);
            let k = number_text(data.repos.len() as u64);
            let mut t = text3("  ", &n, " packages inspected across ");
            t.append(&k);
            t.append(" repositories.");
            let done = Page::new().gap().line("✔ System is fully up to date!", Style::Green).line(
                &t,
                Style::Plain,
            );
            return top.and(done);
        }
        return top;
    }
    let (rows, t) = make_updates(&data.updates, colors);
    let table = if data.updates.len() == 0 {
        Page::new()
    } else {
        let head = make_counted_heading(
            "Pending Package Transactions (",
            data.updates.len(),
            "):",
            Style::Bold,
        );
        let columns = Page::new().line(
            "  STATE     PACKAGE                      REPO         VERSION                            DOWNLOAD  INSTALLED   NET DELTA",
            Style::Bold,
        ).line(
            "  ───────── ──────────────────────────── ──────────── ──────────────────────────────── ────────── ────────── ───────────",
            Style::Plain,
        );
        head.and(columns).and(rows)
    };
    let external = make_external(external_updates);
    let card = make_card(
        &t,
        data.updates.len(),
        data.held_packages.len(),
        helper,
        external_updates,
        &data.updates,
    );
    top.and(table).and(external).and(card)
}

} // verus!
