//! The views of the journal: one transaction, the list of the last ones, and a rollback.
use crate::journal::{RecordedPackage, RollbackPlan, TransactionJournal, TransactionRecord};
use crate::journal;
use crate::paths::last_component;
use crate::paths;
use crate::resolver;
use crate::style::{Line, Page, Style, padded_end};
use crate::style;
use crate::text::{insert_ascending, join_strings, no_strings, number_text, str_eq, text2, text3};
use crate::text;
use crate::transaction::make_counted_heading;
use crate::transaction;
use vstd::prelude::*;
use vstd::string::*;

verus! {

/// The heading of every view.
pub open spec fn banner() -> Seq<Seq<(Seq<char>, Style)>> {
    style::page2(
        style::empty_row(),
        style::row5(
            ("pacpin v3.1"@, Style::BoldCyan),
            (" • "@, Style::Plain),
            ("Declarative Package Resolver & Upgrade Engine"@, Style::Dimmed),
            (" "@, Style::Plain),
            ("(GPLv3)"@, Style::Dimmed),
        ),
    )
}

pub fn print_banner() -> (r: Page)
    ensures
        r@ == banner(),
{
    Page::new().gap().with(
        Line::new().with("pacpin v3.1", Style::BoldCyan).with(" • ", Style::Plain).with(
            "Declarative Package Resolver & Upgrade Engine",
            Style::Dimmed,
        ).with(" ", Style::Plain).with("(GPLv3)", Style::Dimmed),
    )
}

pub open spec fn or_text(o: Option<String>, other: Seq<char>) -> Seq<char> {
    match o {
        Some(s) => s@,
        None => other,
    }
}

fn text_or(o: &Option<String>, other: &str) -> (r: String)
    ensures
        r@ == or_text(*o, other@),
{
    match o {
        Some(s) => s.clone(),
        None => other.to_string(),
    }
}

// ---------------------------------------------------------------------------------------
// One transaction

pub open spec fn recorded_badge(state: Seq<char>) -> (Seq<char>, Style) {
    if state == "custom"@ {
        ("(custom)"@, Style::Cyan)
    } else if state == "sticky"@ {
        ("(sticky)"@, Style::Blue)
    } else {
        ("(default)"@, Style::Dimmed)
    }
}

/// The line of a recorded package: from where to where it went, what it was restored to, or
/// what it was the target of.
pub open spec fn recorded_row(p: RecordedPackage) -> Seq<(Seq<char>, Style)> {
    let name = or_text(p.name, "unknown"@);
    let from = or_text(p.from_version, "?"@);
    let to = or_text(p.to_version, "?"@);
    if from != "?"@ && to != "?"@ {
        style::row4(
            ("  • "@, Style::Plain),
            (style::pad_end(name, 28), Style::Bold),
            (
                " : ["@ + or_text(p.from_repo, "?"@) + "] "@ + from + " ➔ ["@ + or_text(
                    p.to_repo,
                    "?"@,
                ) + "] "@ + to + " "@,
                Style::Plain,
            ),
            recorded_badge(or_text(p.state, "default"@)),
        )
    } else if p.restored_version is Some {
        style::row4(
            ("  • "@, Style::Plain),
            (style::pad_end(name, 28), Style::Bold),
            (" : restored to "@, Style::Plain),
            (p.restored_version->0@, Style::Green),
        )
    } else {
        style::row3(
            ("  • "@, Style::Plain),
            (style::pad_end(name, 28), Style::Bold),
            (" : "@ + or_text(p.target, name), Style::Plain),
        )
    }
}

pub open spec fn recorded_rows(ps: Seq<RecordedPackage>, n: int) -> Seq<Seq<(Seq<char>, Style)>>
    decreases n,
{
    if n <= 0 {
        Seq::empty()
    } else {
        recorded_rows(ps, n - 1).push(recorded_row(ps[n - 1]))
    }
}

fn make_recorded_row(p: &RecordedPackage) -> (r: Line)
    ensures
        r@ == recorded_row(*p),
{
    let name = text_or(&p.name, "unknown");
    let wide = padded_end(&name, 28);
    let from = text_or(&p.from_version, "?");
    let to = text_or(&p.to_version, "?");
    let lead = Line::new().with("  • ", Style::Plain).with(&wide, Style::Bold);
    if !str_eq(&from, "?") && !str_eq(&to, "?") {
        let from_repo = text_or(&p.from_repo, "?");
        let to_repo = text_or(&p.to_repo, "?");
        let mut t = text3(" : [", &from_repo, "] ");
        t.append(&from);
        t.append(" ➔ [");
        t.append(&to_repo);
        t.append("] ");
        t.append(&to);
        t.append(" ");
        let state = text_or(&p.state, "default");
        let (badge, style) = if str_eq(&state, "custom") {
            ("(custom)", Style::Cyan)
        } else if str_eq(&state, "sticky") {
            ("(sticky)", Style::Blue)
        } else {
            ("(default)", Style::Dimmed)
        };
        return lead.with(&t, Style::Plain).with(badge, style);
    }
    match &p.restored_version {
        Some(v) => lead.with(" : restored to ", Style::Plain).with(v, Style::Green),
        None => {
            let target = text_or(&p.target, &name);
            let t = text2(" : ", &target);
            lead.with(&t, Style::Plain)
        },
    }
}

/// The view of one transaction.
pub open spec fn transaction_view(tx: TransactionRecord) -> Seq<Seq<(Seq<char>, Style)>> {
    style::page5(
        style::empty_row(),
        style::row4(
            ("Transaction #"@ + text::digits_of(tx.id as nat), Style::Bold),
            (" ("@ + tx.timestamp@ + " — Action: "@, Style::Plain),
            (tx.action@, Style::Green),
            (")"@, Style::Plain),
        ),
        style::row2(("Command: "@, Style::Plain), (tx.command@, Style::Dimmed)),
        style::empty_row(),
        style::row1(
            (
                "Packages Involved ("@ + text::digits_of(tx.packages@.len() as nat) + "):"@,
                Style::Bold,
            ),
        ),
    ) + recorded_rows(tx.packages@, tx.packages@.len() as int) + style::page1(style::empty_row())
}

/// The view of one transaction.
pub fn show_transaction(tx: &TransactionRecord) -> (r: Page)
    ensures
        r@ == transaction_view(*tx),
{
    let id = number_text(tx.id as u64);
    let title = text2("Transaction #", &id);
    let when = text3(" (", &tx.timestamp, " — Action: ");
    let n = number_text(tx.packages.len() as u64);
    let involved = text3("Packages Involved (", &n, "):");
    let head = Page::new().gap().with(
        Line::new().with(&title, Style::Bold).with(&when, Style::Plain).with(
            &tx.action,
            Style::Green,
        ).with(")", Style::Plain),
    ).with(Line::new().with("Command: ", Style::Plain).with(&tx.command, Style::Dimmed)).gap().line(
        &involved,
        Style::Bold,
    );
    let mut rows = Page::new();
    let mut i: usize = 0;
    while i < tx.packages.len()
        invariant
            i <= tx.packages@.len(),
            rows@ == recorded_rows(tx.packages@, i as int),
        decreases tx.packages@.len() - i,
    {
        rows = rows.with(make_recorded_row(&tx.packages[i]));
        i += 1;
    }
    let end = Page::new().gap();
    head.and(rows).and(end)
}

// ---------------------------------------------------------------------------------------
// The list of transactions

/// A repository that a package of the transaction went to.
pub open spec fn goes_to(ps: Seq<RecordedPackage>, repo: Seq<char>) -> bool {
    repo.len() > 0 && repo != "unknown"@ && exists|i: int|
        0 <= i < ps.len() && text::opt_text((#[trigger] ps[i]).to_repo) == Some(repo)
}

/// All repositories that packages of the transaction went to, in order.
pub open spec fn repos_of(ps: Seq<RecordedPackage>, repos: Seq<Seq<char>>) -> bool {
    text::ascending(repos) && forall|t: Seq<char>| #[trigger] repos.contains(t) <==> goes_to(ps, t)
}

pub open spec fn repos_text(repos: Seq<Seq<char>>) -> Seq<char> {
    if repos.len() == 0 {
        Seq::empty()
    } else {
        "["@ + text::join(repos, ", "@) + "]"@
    }
}

pub open spec fn listed_row(tx: TransactionRecord, repos: Seq<Seq<char>>) -> Seq<
    (Seq<char>, Style),
> {
    style::row1(
        (
            "  "@ + style::pad_end(text::digits_of(tx.id as nat), 5) + " "@ + style::pad_end(tx.timestamp@, 20) + " "@
                + style::pad_end(tx.action@, 10) + " "@ + style::pad_end(
                text::digits_of(tx.total_packages as nat),
                10,
            ) + " "@ + repos_text(repos),
            Style::Plain,
        ),
    )
}

/// The line of a transaction in the list.
pub open spec fn lists_transaction(tx: TransactionRecord, row: Seq<(Seq<char>, Style)>) -> bool {
    exists|repos: Seq<Seq<char>>| #[trigger]
        repos_of(tx.packages@, repos) && row == listed_row(tx, repos)
}

fn repos_in(ps: &Vec<RecordedPackage>) -> (r: Vec<String>)
    ensures
        repos_of(ps@, text::texts(r@)),
{
    let mut out = no_strings();
    let mut i: usize = 0;
    while i < ps.len()
        invariant
            i <= ps@.len(),
            repos_of(ps@.take(i as int), text::texts(out@)),
        decreases ps@.len() - i,
    {
        let ghost before = text::texts(out@);
        let ghost some = ps@.take(i as int);
        let ghost more = ps@.take(i + 1);
        assert(more =~= some.push(ps@[i as int]));
        match &ps[i].to_repo {
            Some(repo) => {
                if !repo.as_str().is_empty() && !str_eq(repo, "unknown") {
                    insert_ascending(&mut out, repo.clone());
                }
            },
            None => {},
        }
        proof {
            assert forall|t: Seq<char>| #[trigger] text::texts(out@).contains(t) <==> goes_to(
                more,
                t,
            ) by {
                if goes_to(more, t) {
                    let k = choose|k: int|
                        0 <= k < more.len() && text::opt_text((#[trigger] more[k]).to_repo) == Some(t);
                    if k < i {
                        assert(some[k] == more[k]);
                        assert(goes_to(some, t));
                        assert(before.contains(t));
                    }
                }
                if goes_to(some, t) {
                    let k = choose|k: int|
                        0 <= k < some.len() && text::opt_text((#[trigger] some[k]).to_repo) == Some(t);
                    assert(more[k] == some[k]);
                }
                assert(more[i as int] == ps@[i as int]);
                assert(before.contains(t) <==> goes_to(some, t));
            }
        }
        i += 1;
    }
    assert(ps@.take(i as int) =~= ps@);
    out
}

/// The view of these transactions, one line for each below a heading.
pub open spec fn lists_history(
    txs: Seq<TransactionRecord>,
    page: Seq<Seq<(Seq<char>, Style)>>,
) -> bool {
    if txs.len() == 0 {
        page == style::page2(
            style::empty_row(),
            style::row1(("No transactions recorded yet in history.jsonl."@, Style::Yellow)),
        )
    } else {
        let n = txs.len() as int;
        &&& page.len() == n + 8
        &&& page.take(4) == transaction::counted_heading("Transaction Journal (Last "@, n, "):"@, Style::Bold)
            + style::page2(
            style::row1(
                (
                    "  ID    TIMESTAMP            ACTION     PACKAGES   SUMMARY"@,
                    Style::Plain,
                ),
            ),
            style::row1(
                (
                    "  ───── ──────────────────── ────────── ────────── ─────────────────────────"@,
                    Style::Plain,
                ),
            ),
        )
        &&& forall|i: int|
            0 <= i < n ==> lists_transaction(txs[i], #[trigger] page[i + 4])
        &&& page.skip(n + 4) == style::page4(
            style::empty_row(),
            style::row1(
                ("Use 'pacpin history <id>' to inspect full package diff."@, Style::Dimmed),
            ),
            style::row1(
                (
                    "Use 'pacpin rollback [id]' to restore previous package versions."@,
                    Style::Dimmed,
                ),
            ),
            style::empty_row(),
        )
    }
}

/// The view of the last transactions.
pub fn list_history(txs: &Vec<TransactionRecord>) -> (r: Page)
    ensures
        lists_history(txs@, r@),
{
    if txs.len() == 0 {
        return Page::new().gap().line(
            "No transactions recorded yet in history.jsonl.",
            Style::Yellow,
        );
    }
    let head = make_counted_heading("Transaction Journal (Last ", txs.len(), "):", Style::Bold);
    let table = Page::new().line(
        "  ID    TIMESTAMP            ACTION     PACKAGES   SUMMARY",
        Style::Plain,
    ).line(
        "  ───── ──────────────────── ────────── ────────── ─────────────────────────",
        Style::Plain,
    );
    let mut rows = Page::new();
    let mut i: usize = 0;
    while i < txs.len()
        invariant
            i <= txs@.len(),
            rows@.len() == i,
            forall|j: int| 0 <= j < i ==> lists_transaction(txs@[j], #[trigger] rows@[j]),
        decreases txs@.len() - i,
    {
        let tx = &txs[i];
        let repos = repos_in(&tx.packages);
        assert(text::texts(repos@).len() == repos@.len());
        let summary = if repos.len() == 0 {
            String::new()
        } else {
            let j = join_strings(&repos, ", ");
            text3("[", &j, "]")
        };
        assert(summary@ =~= repos_text(text::texts(repos@)));
        let id = number_text(tx.id as u64);
        let a = padded_end(&id, 5);
        let b = padded_end(&tx.timestamp, 20);
        let c = padded_end(&tx.action, 10);
        let total = number_text(tx.total_packages as u64);
        let d = padded_end(&total, 10);
        let mut t = text3("  ", &a, " ");
        t.append(&b);
        t.append(" ");
        t.append(&c);
        t.append(" ");
        t.append(&d);
        t.append(" ");
        t.append(&summary);
        let line = Line::new().with(&t, Style::Plain);
        let ghost shown = line@;
        let ghost before = rows@;
        rows = rows.with(line);
        proof {
            assert(shown == listed_row(*tx, text::texts(repos@)));
            assert(repos_of(tx.packages@, text::texts(repos@)));
            assert(lists_transaction(*tx, shown));
            assert forall|j: int| 0 <= j < i + 1 implies lists_transaction(
                txs@[j],
                #[trigger] rows@[j],
            ) by {
                if j < i {
                    assert(rows@[j] == before[j]);
                } else {
                    assert(rows@[j] == shown);
                }
            }
        }
        i += 1;
    }
    let end = Page::new().gap().line(
        "Use 'pacpin history <id>' to inspect full package diff.",
        Style::Dimmed,
    ).line(
        "Use 'pacpin rollback [id]' to restore previous package versions.",
        Style::Dimmed,
    ).gap();
    let ghost top = head@ + table@;
    let ghost mid = rows@;
    let ghost foot = end@;
    let page = head.and(table).and(rows).and(end);
    proof {
        assert(page@ =~= top + mid + foot);
        assert(page@.take(4) =~= top);
        assert(page@.skip(txs@.len() as int + 4) =~= foot);
        assert forall|i: int| 0 <= i < txs@.len() implies lists_transaction(
            txs@[i],
            #[trigger] page@[i + 4],
        ) by {
            assert(page@[i + 4] == mid[i]);
        }
    }
    page
}

/// What is shown for a transaction that was named, or for the last fifteen.
pub open spec fn history_error(id: usize) -> Seq<char> {
    "Error: Transaction #"@ + text::digits_of(id as nat) + " not found in history."@
}

/// The journal: one transaction, or the last fifteen; an error where the one that was named is
/// not there.
pub fn cmd_history(txs: Vec<TransactionRecord>, tx_id: Option<usize>) -> (r: Result<Page, String>)
    ensures
        match tx_id {
            Some(id) => match journal::found_id(txs@, id, 0) {
                Some(k) => r is Ok && r->Ok_0@ == transaction_view(txs@[k]),
                None => r is Err && r->Err_0@ == history_error(id),
            },
            None => r is Ok && lists_history(
                txs@.skip(journal::recent_from(txs@.len() as int, 15)),
                r->Ok_0@,
            ),
        },
{
    match tx_id {
        Some(id) => match TransactionJournal::get_transaction(&txs, id) {
            Some(k) => Ok(show_transaction(&txs[k])),
            None => {
                let d = number_text(id as u64);
                Err(text3("Error: Transaction #", &d, " not found in history."))
            },
        },
        None => {
            let last = TransactionJournal::list_transactions(txs, 15);
            Ok(list_history(&last))
        },
    }
}

// ---------------------------------------------------------------------------------------
// A rollback

pub open spec fn rollback_heading(tx: TransactionRecord) -> Seq<Seq<(Seq<char>, Style)>> {
    style::page2(
        style::empty_row(),
        style::row2(
            ("Rolling Back Transaction #"@ + text::digits_of(tx.id as nat), Style::Bold),
            (" ("@ + tx.timestamp@ + " — "@ + tx.action@ + ")"@, Style::Plain),
        ),
    )
}

pub open spec fn absent_rows(missing: Seq<(Seq<char>, Seq<char>)>, n: int) -> Seq<
    Seq<(Seq<char>, Style)>,
>
    decreases n,
{
    if n <= 0 {
        Seq::empty()
    } else {
        absent_rows(missing, n - 1).push(
            style::row2(
                ("  • "@, Style::Plain),
                (missing[n - 1].0 + " "@ + missing[n - 1].1, Style::Red),
            ),
        )
    }
}

/// The archives that are missing, and what follows where a partial rollback is not allowed.
pub open spec fn absent_page(missing: Seq<(Seq<char>, Seq<char>)>, allow_partial: bool) -> Seq<
    Seq<(Seq<char>, Style)>,
> {
    let n = missing.len() as int;
    if n == 0 {
        Seq::empty()
    } else {
        transaction::counted_heading(
            "Warning: "@,
            n,
            " package archive(s) not found in cache:"@,
            Style::Yellow,
        ) + absent_rows(missing, n) + (if allow_partial {
            Seq::empty()
        } else {
            style::page4(
                style::empty_row(),
                style::row1(
                    (
                        "Error: Rollback aborted to prevent broken dependencies and partial downgrade."@,
                        Style::BoldRed,
                    ),
                ),
                style::row1(
                    (
                        "  "@ + text::digits_of(n as nat)
                            + " package archive(s) are missing from the pacman cache."@,
                        Style::Plain,
                    ),
                ),
                style::row1(
                    (
                        "  To force a partial rollback of only available packages, pass --allow-partial."@,
                        Style::Plain,
                    ),
                ),
            )
        })
    }
}

pub open spec fn restore_rows(v: Seq<(Seq<char>, Seq<char>, Seq<char>)>, n: int) -> Seq<
    Seq<(Seq<char>, Style)>,
>
    decreases n,
{
    if n <= 0 {
        Seq::empty()
    } else {
        restore_rows(v, n - 1).push(
            style::row5(
                ("  ✔ "@, Style::Plain),
                (style::pad_end(v[n - 1].0, 28), Style::Cyan),
                (" ➔ "@, Style::Plain),
                (v[n - 1].1, Style::Green),
                (" ("@ + paths::base_name(v[n - 1].2) + ")"@, Style::Plain),
            ),
        )
    }
}

/// The view of a rollback, before it is run.
pub open spec fn rollback_view(
    tx: TransactionRecord,
    restore: Seq<(Seq<char>, Seq<char>, Seq<char>)>,
    missing: Seq<(Seq<char>, Seq<char>)>,
    allow_partial: bool,
) -> Seq<Seq<(Seq<char>, Style)>> {
    rollback_heading(tx) + absent_page(missing, allow_partial) + (if missing.len() > 0
        && !allow_partial {
        Seq::empty()
    } else if restore.len() == 0 {
        transaction::counted_heading(
            "Error: No restorable cached package archives available for Transaction #"@,
            tx.id as int,
            "."@,
            Style::Red,
        )
    } else {
        transaction::counted_heading("Packages to Restore ("@, restore.len() as int, "):"@, Style::Bold)
            + restore_rows(restore, restore.len() as int)
    })
}

fn make_absent(missing: &Vec<(String, String)>, allow_partial: bool) -> (r: Page)
    ensures
        r@ == absent_page(resolver::pairs(missing@), allow_partial),
{
    if missing.len() == 0 {
        return Page::new();
    }
    let head = make_counted_heading(
        "Warning: ",
        missing.len(),
        " package archive(s) not found in cache:",
        Style::Yellow,
    );
    let ghost all = resolver::pairs(missing@);
    let mut rows = Page::new();
    let mut i: usize = 0;
    while i < missing.len()
        invariant
            i <= missing@.len(),
            all == resolver::pairs(missing@),
            rows@ == absent_rows(all, i as int),
        decreases missing@.len() - i,
    {
        assert(all[i as int] == (missing@[i as int].0@, missing@[i as int].1@));
        let t = text3(&missing[i].0, " ", &missing[i].1);
        rows = rows.with(Line::new().with("  • ", Style::Plain).with(&t, Style::Red));
        i += 1;
    }
    let end = if allow_partial {
        Page::new()
    } else {
        let n = number_text(missing.len() as u64);
        let t = text3("  ", &n, " package archive(s) are missing from the pacman cache.");
        Page::new().gap().line(
            "Error: Rollback aborted to prevent broken dependencies and partial downgrade.",
            Style::BoldRed,
        ).line(&t, Style::Plain).line(
            "  To force a partial rollback of only available packages, pass --allow-partial.",
            Style::Plain,
        )
    };
    head.and(rows).and(end)
}

/// The view of a rollback, before it is run.
pub fn show_rollback(tx: &TransactionRecord, plan: &RollbackPlan, allow_partial: bool) -> (r: Page)
    ensures
        r@ == rollback_view(*tx, journal::restores(plan.restore@), resolver::pairs(plan.missing@), allow_partial),
{
    let id = number_text(tx.id as u64);
    let title = text2("Rolling Back Transaction #", &id);
    let mut when = text3(" (", &tx.timestamp, " — ");
    when.append(&tx.action);
    when.append(")");
    let head = Page::new().gap().with(
        Line::new().with(&title, Style::Bold).with(&when, Style::Plain),
    );
    let absent = make_absent(&plan.missing, allow_partial);
    let ghost all = journal::restores(plan.restore@);
    let rest = if plan.missing.len() > 0 && !allow_partial {
        Page::new()
    } else if plan.restore.len() == 0 {
        make_counted_heading(
            "Error: No restorable cached package archives available for Transaction #",
            tx.id,
            ".",
            Style::Red,
        )
    } else {
        let top = make_counted_heading(
            "Packages to Restore (",
            plan.restore.len(),
            "):",
            Style::Bold,
        );
        let mut rows = Page::new();
        let mut i: usize = 0;
        while i < plan.restore.len()
            invariant
                i <= plan.restore@.len(),
                all == journal::restores(plan.restore@),
                rows@ == restore_rows(all, i as int),
            decreases plan.restore@.len() - i,
        {
            let p = &plan.restore[i];
            assert(all[i as int] == (p.name@, p.version@, p.path@));
            let name = padded_end(&p.name, 28);
            let file = last_component(&p.path);
            let t = text3(" (", &file, ")");
            rows = rows.with(
                Line::new().with("  ✔ ", Style::Plain).with(&name, Style::Cyan).with(
                    " ➔ ",
                    Style::Plain,
                ).with(&p.version, Style::Green).with(&t, Style::Plain),
            );
            i += 1;
        }
        top.and(rows)
    };
    head.and(absent).and(rest)
}

} // verus!
