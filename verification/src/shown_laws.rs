//! What is promised of what is shown: that a line tells what it is about, and that sizes and
//! quotes are written as they are meant.
use crate::history;
use crate::journal::RecordedPackage;
use crate::pins::PinnedView;
use crate::pins;
use crate::pm::InstallOptions;
use crate::pm;
use crate::query;
use crate::resolver::{CandidatePackage, ResolvedPackage};
use crate::restart::{ProcessRestartInfo, ServiceView};
use crate::restart;
use crate::style::Style;
use crate::style;
use crate::text;
use crate::transaction;
use crate::tui_select;
use crate::ui;
use crate::utils;
use vstd::prelude::*;
use vstd::string::*;

verus! {

// ---------------------------------------------------------------------------------------
// Lines

/// The words of a line hold a text.
#[verifier::opaque]
pub open spec fn shows(line: Seq<(Seq<char>, Style)>, t: Seq<char>) -> bool {
    text::holds(style::plain_text(line), t)
}

proof fn held_in_parts(a: Seq<char>, t: Seq<char>, b: Seq<char>)
    ensures
        text::holds(a + t + b, t),
{
    let s = a + t + b;
    assert(s.subrange(a.len() as int, (a.len() + t.len()) as int) =~= t);
    assert(text::stands_at(s, t, a.len() as int));
}

proof fn held_in_held(s: Seq<char>, m: Seq<char>, t: Seq<char>)
    requires
        text::holds(s, m),
        text::holds(m, t),
    ensures
        text::holds(s, t),
{
    let i = choose|i: int| text::stands_at(s, m, i);
    let j = choose|j: int| text::stands_at(m, t, j);
    assert(s.subrange(i + j, i + j + t.len()) =~= t) by {
        assert forall|k: int| 0 <= k < t.len() implies s[i + j + k] == t[k] by {
            assert(s.subrange(i, i + m.len())[j + k] == m[j + k]);
            assert(m.subrange(j, j + t.len())[k] == t[k]);
        }
    }
    assert(text::stands_at(s, t, i + j));
}

proof fn span_is_shown(line: Seq<(Seq<char>, Style)>, k: int, t: Seq<char>)
    requires
        0 <= k < line.len(),
        text::holds(line[k].0, t),
    ensures
        shows(line, t),
    decreases line.len(),
{
    reveal(shows);
    let before = style::plain_text(line.drop_last());
    let last = line.last().0;
    if k == line.len() - 1 {
        held_in_parts(before, last, Seq::empty());
        assert(before + last + Seq::<char>::empty() =~= before + last);
        held_in_held(before + last, last, t);
    } else {
        assert(line.drop_last()[k] == line[k]);
        span_is_shown(line.drop_last(), k, t);
        held_in_parts(Seq::empty(), before, last);
        assert(Seq::<char>::empty() + before + last =~= before + last);
        held_in_held(before + last, before, t);
    }
}

proof fn padded_is_held(s: Seq<char>, n: int)
    ensures
        text::holds(style::pad_end(s, n), s),
        text::holds(style::pad_start(s, n), s),
        text::holds(s, s),
{
    let fill = style::repeated(' ', n - s.len());
    held_in_parts(Seq::empty(), s, fill);
    assert(Seq::<char>::empty() + s + fill =~= style::pad_end(s, n));
    held_in_parts(fill, s, Seq::empty());
    assert(fill + s + Seq::<char>::empty() =~= style::pad_start(s, n));
    held_in_parts(Seq::empty(), s, Seq::empty());
    assert(Seq::<char>::empty() + s + Seq::<char>::empty() =~= s);
}

/// The line of an update names the package, the repository and both versions, and tells a
/// step back.
pub proof fn update_is_shown(p: ResolvedPackage, c: CandidatePackage, colors: bool)
    ensures
        ({
            let row = transaction::update_row(p, c, colors);
            &&& shows(row, p.name@)
            &&& shows(row, c.repo@)
            &&& shows(row, p.installed_ver@)
            &&& shows(row, c.version@)
            &&& p.state@ == "custom"@ && p.is_downgrade ==> shows(row, "[down]"@)
        }),
{
    let row = transaction::update_row(p, c, colors);
    padded_is_held(p.name@, 28);
    assert(row[3].0 == style::pad_end(p.name@, 28));
    span_is_shown(row, 3, p.name@);
    let repo = "["@ + c.repo@ + "]"@;
    padded_is_held(repo, 12);
    held_in_parts("["@, c.repo@, "]"@);
    held_in_held(style::pad_end(repo, 12), repo, c.repo@);
    assert(row[5].0 == style::pad_end(repo, 12));
    span_is_shown(row, 5, c.repo@);
    let v = " "@ + (p.installed_ver@ + " ➔ "@);
    held_in_parts(" "@, p.installed_ver@, " ➔ "@);
    assert(v =~= " "@ + p.installed_ver@ + " ➔ "@);
    assert(row[6].0 == v);
    span_is_shown(row, 6, p.installed_ver@);
    padded_is_held(c.version@, 0);
    assert(row[7].0 == c.version@);
    span_is_shown(row, 7, c.version@);
    padded_is_held(transaction::state_badge(p).0, 9);
    assert(row[1].0 == style::pad_end(transaction::state_badge(p).0, 9));
    span_is_shown(row, 1, transaction::state_badge(p).0);
}

/// The line of a held update names the package, its versions and why it is held.
pub proof fn held_update_is_shown(p: ResolvedPackage)
    ensures
        ({
            let row = transaction::held_row(p);
            &&& shows(row, p.name@)
            &&& p.hold_reason@.len() > 0 ==> shows(row, p.hold_reason@)
            &&& shows(row, p.installed_ver@)
            &&& p.candidate matches Some(c) ==> shows(row, c.version@)
        }),
{
    let row = transaction::held_row(p);
    padded_is_held(p.name@, 28);
    assert(row[1].0 == style::pad_end(p.name@, 28));
    span_is_shown(row, 1, p.name@);
    padded_is_held(row[3].0, 0);
    span_is_shown(row, 3, row[3].0);
    let to = match p.candidate {
        Some(c) => c.version@,
        None => "unknown"@,
    };
    let middle = row[2].0;
    assert(middle == " : "@ + p.installed_ver@ + " ➔ "@ + to + "  ("@);
    held_in_parts(" : "@, p.installed_ver@, " ➔ "@ + to + "  ("@);
    assert(" : "@ + p.installed_ver@ + (" ➔ "@ + to + "  ("@) =~= middle);
    span_is_shown(row, 2, p.installed_ver@);
    held_in_parts(" : "@ + p.installed_ver@ + " ➔ "@, to, "  ("@);
    span_is_shown(row, 2, to);
}

/// The line of a pin that leads nowhere names the package and the repository.
pub proof fn dead_pin_is_shown(pin: (String, String))
    ensures
        shows(transaction::missing_pin_row(pin), pin.0@),
        shows(transaction::missing_pin_row(pin), pin.1@),
{
    let row = transaction::missing_pin_row(pin);
    padded_is_held(pin.0@, 28);
    padded_is_held(pin.1@, 0);
    assert(row[1].0 == style::pad_end(pin.0@, 28));
    assert(row[3].0 == pin.1@);
    span_is_shown(row, 1, pin.0@);
    span_is_shown(row, 3, pin.1@);
}

/// The line of a rule names the pattern and the repository.
pub proof fn pin_is_shown(pattern: Seq<char>, repo: Seq<char>)
    ensures
        shows(pins::pin_row(pattern, repo), pattern),
        shows(pins::pin_row(pattern, repo), repo),
{
    let row = pins::pin_row(pattern, repo);
    padded_is_held(pattern, 26);
    padded_is_held(repo, 0);
    assert(row[1].0 == style::pad_end(pattern, 26));
    assert(row[3].0 == repo);
    span_is_shown(row, 1, pattern);
    span_is_shown(row, 3, repo);
}

/// The line of a pinned package in a check names it and the repository it is kept in.
pub proof fn shielded_package_is_shown(p: PinnedView)
    ensures
        shows(query::shielded_row(p), p.name),
        shows(query::shielded_row(p), p.repo),
        p.candidate matches Some(v) ==> shows(query::shielded_row(p), v),
{
    let row = query::shielded_row(p);
    padded_is_held(p.name, 28);
    padded_is_held(p.repo, 0);
    assert(row[1].0 == style::pad_end(p.name, 28));
    assert(row[3].0 == p.repo);
    span_is_shown(row, 1, p.name);
    span_is_shown(row, 3, p.repo);
    match p.candidate {
        Some(v) => {
            padded_is_held(v, 18);
            assert(row[5].0 == style::pad_end(v, 18));
            span_is_shown(row, 5, v);
        },
        None => {},
    }
}

/// The advice for a service names it and says how to restart it: with the rights of the
/// system or of the user, by a new session, or by hand.
pub proof fn advice_is_shown(info: ProcessRestartInfo)
    ensures
        ({
            let row = restart::advice_row(info);
            match info.service@ {
                ServiceView::SystemdSystem(n) => shows(row, n) && shows(
                    row,
                    "sudo systemctl restart "@ + n,
                ),
                ServiceView::SystemdUser(n) => shows(row, n) && if n == "systemd --user"@ {
                    shows(row, "systemctl --user daemon-reexec"@)
                } else {
                    shows(row, "systemctl --user restart "@ + n)
                },
                ServiceView::SessionComponent(n) => shows(row, n) && shows(
                    row,
                    "re-login or reboot to apply (desktop session)"@,
                ),
                ServiceView::Process { name, pid } => shows(row, name) && shows(
                    row,
                    "restart application"@,
                ),
            }
        }),
{
    let row = restart::advice_row(info);
    let (name, what) = restart::advice(info.service@);
    assert(row[1] == name && row[5] == what);
    assert(shows(row, what.0)) by {
        padded_is_held(what.0, 0);
        span_is_shown(row, 5, what.0);
    }
    match info.service@ {
        ServiceView::SystemdSystem(n) => {
            padded_name_is_shown(row, 1, n, 34);
        },
        ServiceView::SystemdUser(n) => {
            padded_name_is_shown(row, 1, n, 34);
        },
        ServiceView::SessionComponent(n) => {
            padded_name_is_shown(row, 1, n, 34);
        },
        ServiceView::Process { name: n, pid } => {
            process_is_shown(row, n, pid);
        },
    }
}

proof fn padded_name_is_shown(row: Seq<(Seq<char>, Style)>, k: int, name: Seq<char>, n: int)
    requires
        0 <= k < row.len(),
        row[k].0 == style::pad_end(name, n),
    ensures
        shows(row, name),
{
    padded_is_held(name, n);
    span_is_shown(row, k, name);
}

proof fn first_part_is_held(n: Seq<char>, a: Seq<char>, b: Seq<char>, c: Seq<char>)
    ensures
        text::holds(n + a + b + c, n),
{
    let s = n + a + b + c;
    assert(s.subrange(0, n.len() as int) =~= n);
    assert(text::stands_at(s, n, 0));
}

proof fn part_of_padded_is_shown(row: Seq<(Seq<char>, Style)>, k: int, full: Seq<char>, w: int, n: Seq<char>)
    requires
        0 <= k < row.len(),
        row[k].0 == style::pad_end(full, w),
        text::holds(full, n),
    ensures
        shows(row, n),
{
    padded_is_held(full, w);
    held_in_held(style::pad_end(full, w), full, n);
    span_is_shown(row, k, n);
}

proof fn process_is_shown(row: Seq<(Seq<char>, Style)>, n: Seq<char>, pid: u32)
    requires
        row.len() > 1,
        row[1].0 == style::pad_end(n + " (PID "@ + text::digits_of(pid as nat) + ")"@, 34),
    ensures
        shows(row, n),
{
    first_part_is_held(n, " (PID "@, text::digits_of(pid as nat), ")"@);
    part_of_padded_is_shown(row, 1, n + " (PID "@ + text::digits_of(pid as nat) + ")"@, 34, n);
}

/// The line of a recorded package names it and, where they are known, both versions, or the
/// version that was restored.
pub proof fn recorded_package_is_shown(p: RecordedPackage)
    ensures
        ({
            let row = history::recorded_row(p);
            &&& p.name matches Some(n) ==> shows(row, n@)
            &&& (p.from_version is Some && p.to_version is Some && p.from_version->0@ != "?"@
                && p.to_version->0@ != "?"@) ==> shows(row, p.from_version->0@) && shows(
                row,
                p.to_version->0@,
            )
            &&& (p.from_version is None && p.restored_version is Some) ==> shows(
                row,
                p.restored_version->0@,
            )
        }),
{
    let row = history::recorded_row(p);
    let name = history::or_text(p.name, "unknown"@);
    let from = history::or_text(p.from_version, "?"@);
    let to = history::or_text(p.to_version, "?"@);
    padded_is_held(name, 28);
    assert(row[1].0 == style::pad_end(name, 28));
    span_is_shown(row, 1, name);
    if from != "?"@ && to != "?"@ {
        let a = " : ["@ + history::or_text(p.from_repo, "?"@) + "] "@;
        let b = " ➔ ["@ + history::or_text(p.to_repo, "?"@) + "] "@;
        let middle = row[2].0;
        assert(middle =~= a + from + (b + to + " "@));
        held_in_parts(a, from, b + to + " "@);
        span_is_shown(row, 2, from);
        assert(middle =~= (a + from + b) + to + " "@);
        held_in_parts(a + from + b, to, " "@);
        span_is_shown(row, 2, to);
    } else if p.restored_version is Some {
        padded_is_held(p.restored_version->0@, 0);
        assert(row[3].0 == p.restored_version->0@);
        span_is_shown(row, 3, p.restored_version->0@);
    }
}

// ---------------------------------------------------------------------------------------
// Sizes

/// A negative size is written as the positive one with a minus before it.
pub proof fn sizes_are_mirrored(n: int)
    requires
        n > 0,
    ensures
        ui::size_text(-n) == "-"@ + ui::size_text(n),
{
    assert(ui::magnitude(-n) == ui::magnitude(n));
    let minus = "-"@;
    if n < 1024 {
        assert(minus + text::digits_of(n as nat) + " B"@ =~= minus + (text::digits_of(n as nat) + " B"@));
    } else {
        fraction_is_mirrored(n, 1024, 10);
        fraction_is_mirrored(n, 1_048_576, 100);
        fraction_is_mirrored(n, 1_073_741_824, 100);
        let a = ui::fraction_text(n, 1024, 10);
        let b = ui::fraction_text(n, 1_048_576, 100);
        let c = ui::fraction_text(n, 1_073_741_824, 100);
        assert(minus + a + " KiB"@ =~= minus + (a + " KiB"@));
        assert(minus + b + " MiB"@ =~= minus + (b + " MiB"@));
        assert(minus + c + " GiB"@ =~= minus + (c + " GiB"@));
    }
}

proof fn fraction_is_mirrored(n: int, unit: int, scale: int)
    requires
        n > 0,
    ensures
        ui::fraction_text(-n, unit, scale) == "-"@ + ui::fraction_text(n, unit, scale),
{
    assert(ui::magnitude(-n) == ui::magnitude(n));
    let v = crate::double::nearest(crate::double::in_double(n) * scale, unit);
    let rest = text::digits_of((v / scale) as nat) + "."@ + ui::digits_padded(
        v % scale,
        if scale == 10 {
            1
        } else {
            2
        },
    );
    assert(ui::fraction_text(n, unit, scale) =~= rest);
    assert(ui::fraction_text(-n, unit, scale) =~= "-"@ + rest);
}

/// Small sizes are written in bytes, exactly.
pub proof fn small_sizes_are_exact(n: int)
    requires
        0 <= n < 1024,
    ensures
        ui::size_text(n) == text::digits_of(n as nat) + " B"@,
{
}

/// A change of the space on disk is written with its sign.
pub proof fn deltas_have_a_sign(n: int)
    ensures
        n > 0 ==> ui::delta_span(n).0 == "+"@ + ui::size_text(n),
        n < 0 ==> ui::delta_span(n).0 == "-"@ + ui::size_text(-n),
        n == 0 ==> ui::delta_span(n).0 == "~0 B"@,
{
}

// ---------------------------------------------------------------------------------------
// Names and quotes

/// A safe name has a letter, a digit or one of few signs in each place, no two dots in a row,
/// and neither a dot nor a hyphen in front.
pub proof fn safe_names(s: Seq<char>, k: int)
    requires
        utils::safe_pkg_name(s),
        0 <= k < s.len(),
    ensures
        s[0] != '-',
        s[0] != '.',
        text::is_ascii_letter(s[k]) || text::is_digit(s[k]) || seq!['.', '_', '+', '-', '@'].contains(s[k]),
        k + 1 < s.len() ==> !(s[k] == '.' && s[k + 1] == '.'),
{
    assert(utils::name_char(s[k]));
    let signs = seq!['.', '_', '+', '-', '@'];
    assert(signs[0] == '.' && signs[1] == '_' && signs[2] == '+' && signs[3] == '-' && signs[4] == '@');
    if k + 1 < s.len() && s[k] == '.' && s[k + 1] == '.' {
        assert(utils::has_dot_dot(s));
    }
}

/// A name of letters and digits is safe.
pub proof fn plain_names_are_safe(s: Seq<char>)
    requires
        s.len() > 0,
        forall|i: int|
            0 <= i < s.len() ==> text::is_ascii_letter(#[trigger] s[i]) || text::is_digit(s[i]),
    ensures
        utils::safe_pkg_name(s),
        utils::safe_version(s),
        utils::safe_pattern(s),
{
    assert(text::is_ascii_letter(s[0]) || text::is_digit(s[0]));
    assert forall|i: int| 0 <= i < s.len() implies utils::name_char(#[trigger] s[i]) && utils::version_char(
        s[i],
    ) && utils::pattern_char(s[i]) by {}
    if utils::has_dot_dot(s) {
        let i = choose|i: int| 0 <= i && i + 1 < s.len() && #[trigger] s[i] == '.' && s[i + 1] == '.';
        assert(text::is_ascii_letter(s[i]) || text::is_digit(s[i]));
    }
}

proof fn escapes_add_up(a: Seq<char>, b: Seq<char>)
    ensures
        utils::escape_quotes(a + b) == utils::escape_quotes(a) + utils::escape_quotes(b),
    decreases b.len(),
{
    if b.len() == 0 {
        assert(a + b =~= a);
        assert(utils::escape_quotes(a) + utils::escape_quotes(b) =~= utils::escape_quotes(a));
    } else {
        let t = b.drop_last();
        escapes_add_up(a, t);
        assert((a + b).drop_last() =~= a + t);
        assert((a + b).last() == b.last());
        if b.last() == '\'' {
            assert(utils::escape_quotes(a) + utils::escape_quotes(t) + "'\\''"@ =~= utils::escape_quotes(a)
                + (utils::escape_quotes(t) + "'\\''"@));
        } else {
            assert((utils::escape_quotes(a) + utils::escape_quotes(t)).push(b.last())
                =~= utils::escape_quotes(a) + utils::escape_quotes(t).push(b.last()));
        }
    }
}

/// A word for the shell stands in single quotes; a quote in it ends them, stands escaped, and
/// opens them again, and everything else stays.
pub proof fn quotes_are_escaped(a: Seq<char>, b: Seq<char>)
    requires
        !a.contains('\''),
    ensures
        utils::quoted(a) == "'"@ + a + "'"@,
        utils::quoted(a.push('\'') + b) == "'"@ + a + "'\\''"@ + utils::escape_quotes(b) + "'"@,
{
    unquoted_stays(a);
    escapes_add_up(a.push('\''), b);
    assert(a.push('\'').drop_last() =~= a);
    assert(utils::escape_quotes(a.push('\'')) == a + "'\\''"@);
    assert("'"@ + (a + "'\\''"@ + utils::escape_quotes(b)) + "'"@ =~= "'"@ + a + "'\\''"@
        + utils::escape_quotes(b) + "'"@);
}

proof fn unquoted_stays(a: Seq<char>)
    requires
        !a.contains('\''),
    ensures
        utils::escape_quotes(a) == a,
    decreases a.len(),
{
    if a.len() > 0 {
        let t = a.drop_last();
        assert(!t.contains('\'')) by {
            if t.contains('\'') {
                let k = choose|k: int| 0 <= k < t.len() && t[k] == '\'';
                assert(a[k] == '\'');
            }
        }
        unquoted_stays(t);
        assert(a[a.len() - 1] != '\'') by {
            if a[a.len() - 1] == '\'' {
                assert(a.contains('\''));
            }
        }
        assert(t.push(a.last()) =~= a);
    }
}

// ---------------------------------------------------------------------------------------
// Commands that are shown

/// The operation is a full upgrade only where that is asked for, with fresh databases only
/// where these are.
pub proof fn operation_is_as_asked(refresh: bool)
    ensures
        pm::pacman_op(refresh, false) == "-S"@,
        pm::pacman_op(true, true) == "-Syu"@,
        pm::pacman_op(false, true) == "-Su"@,
        pm::aur_op(refresh, true, false) == "-S"@,
        pm::aur_op(refresh, true, true) == pm::pacman_op(refresh, true),
{
}

/// The words before the targets: what is asked for, then all flags that are handed on, then a
/// double hyphen.
pub proof fn options_come_before_the_targets(o: InstallOptions)
    ensures
        ({
            let w = pm::option_words(o);
            let flags = text::texts(o.forwarded_flags@);
            &&& w.len() >= flags.len() + 1
            &&& w.last() == "--"@
            &&& w.subrange(w.len() - 1 - flags.len(), w.len() - 1) == flags
            &&& o.needed ==> w[0] == "--needed"@
            &&& o.noconfirm ==> w[if o.needed {
                1
            } else {
                0
            }] == "--noconfirm"@
            &&& !o.needed && !o.noconfirm ==> w.len() == flags.len() + 1
        }),
{
    let w = pm::option_words(o);
    let flags = text::texts(o.forwarded_flags@);
    assert(w.subrange(w.len() - 1 - flags.len(), w.len() - 1) =~= flags);
}

/// The commands of an installation: pacman for its targets, then the helper for its own; a
/// mere refresh is shown before them where nothing is to be done but shown.
pub proof fn installation_commands_are_shown(
    pacman: Seq<Seq<char>>,
    aur: Seq<Seq<char>>,
    helper: Seq<char>,
    o: InstallOptions,
    sysupgrade: bool,
)
    ensures
        ({
            let all = pm::install_commands(pacman, aur, helper, o, sysupgrade);
            let refresh: int = if o.dry_run && o.refresh && !sysupgrade {
                1
            } else {
                0
            };
            let first: int = refresh + if pacman.len() > 0 {
                1int
            } else {
                0
            };
            &&& all.len() == first + if aur.len() > 0 {
                1int
            } else {
                0
            }
            &&& refresh == 1 ==> all[0] == "sudo pacman -Sy"@
            &&& pacman.len() > 0 ==> all[refresh] == pm::shown_command(
                pm::pacman_words(o, pm::pacman_op(o.refresh, sysupgrade)),
                pacman,
            )
            &&& aur.len() > 0 ==> all[first] == pm::shown_command(
                pm::aur_words(o, helper, pm::aur_op(o.refresh, sysupgrade, pacman.len() == 0)),
                aur,
            )
        }),
{
}

/// A menu shows at least one item and never more than eighteen, nor more than there are.
pub proof fn menu_shows_some_items(height: int, count: int)
    requires
        height >= 0,
        count > 0,
    ensures
        1 <= tui_select::visible_items(height, count) <= 18,
        tui_select::visible_items(height, count) <= count,
{
}

} // verus!
