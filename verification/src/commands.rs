//! The commands that change the rules, and what is said about them.
use crate::aur::AurItem;
use crate::cli::find_matching_pin;
use crate::config::Config;
use crate::db::{AlpmManager, push_new};
use crate::db;
use crate::install::{blank, is_yes};
use crate::install;
use crate::orphans::{OrphanManager, OrphanPackage};
use crate::orphans;
use crate::patterns::{has_glob_chars, pattern_compiles};
use crate::patterns;
use crate::pins::{make_order_rows, make_pin_row};
use crate::pins;
use crate::repo_menu::is_repo_name;
use crate::repo_menu;
use crate::resolver;
use crate::strmap::StrMap;
use crate::strmap;
use crate::style::{Line, Page, Style};
use crate::style;
use crate::text::{clone_strings, join_strings, list_contains, no_strings, number_text, push_str, push_strs, starts_with, str_eq, text2, text3};
use crate::text;
use crate::utils::is_safe_pattern;
use crate::utils;
use crate::views::prompt_orphan_selection;
use crate::views;
use vstd::prelude::*;
use vstd::string::*;

verus! {

// ---------------------------------------------------------------------------------------
// The order of repositories

/// Takes over a new order of repositories, if there is one, and says so.
pub fn cmd_repos(config: &mut Config, new_order: Option<Vec<String>>) -> (r: Page)
    requires
        old(config).ordered(),
    ensures
        final(config).ordered(),
        final(config).pins == old(config).pins,
        final(config).exclude == old(config).exclude,
        final(config).delay == old(config).delay,
        final(config).features == old(config).features,
        final(config).options == old(config).options,
        final(config).integrations == old(config).integrations,
        match new_order {
            Some(v) => {
                &&& text::texts(final(config).repo_order@) == text::texts(v@)
                &&& r@ == style::page1(
                    style::row1(
                        (
                            "✔ Successfully saved repository search priority order ("@ + text::digits_of(
                                v@.len() as nat,
                            ) + " repositories):"@,
                            Style::BoldGreen,
                        ),
                    ),
                ) + pins::order_rows(text::texts(v@), "  "@, v@.len() as int) + style::page1(style::empty_row())
            },
            None => {
                &&& final(config).repo_order == old(config).repo_order
                &&& r@ == style::page1(style::row1(("Repository order unchanged."@, Style::Dimmed)))
            },
        },
{
    match new_order {
        Some(v) => {
            let n = number_text(v.len() as u64);
            let t = text3(
                "✔ Successfully saved repository search priority order (",
                &n,
                " repositories):",
            );
            let head = Page::new().line(&t, Style::BoldGreen);
            let rows = make_order_rows(&v, "  ");
            config.repo_order = v;
            head.and(rows).and(Page::new().gap())
        },
        None => Page::new().line("Repository order unchanged.", Style::Dimmed),
    }
}

// ---------------------------------------------------------------------------------------
// Pins

/// What is wrong with a request to pin.
#[derive(Debug, Clone)]
pub enum PinError {
    BadRepo,
    UnknownRepo,
    NoPatterns,
    BadPattern(String),
}

/// The first of the patterns, from the `i`-th on, that cannot be pinned; `valid` tells which
/// of them are patterns at all.
pub open spec fn first_bad_pattern(patterns: Seq<Seq<char>>, valid: Seq<bool>, i: int) -> Option<int>
    decreases patterns.len() - i,
{
    if i < 0 || i >= patterns.len() {
        None
    } else if !utils::safe_pattern(patterns[i]) || !valid[i] {
        Some(i)
    } else {
        first_bad_pattern(patterns, valid, i + 1)
    }
}

/// The first of the patterns that cannot be pinned.
pub fn find_bad_pattern(patterns: &Vec<String>, valid: &Vec<bool>) -> (r: Option<usize>)
    requires
        valid@.len() == patterns@.len(),
    ensures
        match r {
            Some(i) => first_bad_pattern(text::texts(patterns@), valid@, 0) == Some(i as int) && i
                < patterns@.len(),
            None => first_bad_pattern(text::texts(patterns@), valid@, 0) is None,
        },
{
    let ghost all = text::texts(patterns@);
    let mut i: usize = 0;
    while i < patterns.len()
        invariant
            i <= patterns@.len(),
            valid@.len() == patterns@.len(),
            all == text::texts(patterns@),
            all.len() == patterns@.len(),
            first_bad_pattern(all, valid@, 0) == first_bad_pattern(all, valid@, i as int),
        decreases patterns@.len() - i,
    {
        assert(all[i as int] == patterns@[i as int]@);
        if !is_safe_pattern(&patterns[i]) || !valid[i] {
            return Some(i);
        }
        i += 1;
    }
    None
}

/// Which of the patterns are valid globs.
pub open spec fn globs_valid(patterns: Seq<Seq<char>>) -> Seq<bool> {
    Seq::new(patterns.len(), |i: int| patterns::glob_valid(patterns[i]))
}

/// Whether the request can be granted: the repository is known, and all patterns are safe and
/// valid.
pub fn check_pin(repo: &str, patterns: &Vec<String>, known_repos: &Vec<String>) -> (r: Result<
    (),
    PinError,
>)
    ensures
        ({
            let ps = text::texts(patterns@);
            let bad = first_bad_pattern(ps, globs_valid(ps), 0);
            if !repo_menu::repo_name(repo@) {
                r is Err && r->Err_0 is BadRepo
            } else if !text::texts(known_repos@).contains(repo@) && repo@ != "aur"@ {
                r is Err && r->Err_0 is UnknownRepo
            } else if ps.len() == 0 {
                r is Err && r->Err_0 is NoPatterns
            } else if bad is Some {
                r is Err && r->Err_0 is BadPattern && r->Err_0->BadPattern_0@ == ps[bad->0]
            } else {
                r is Ok
            }
        }),
        r is Ok ==> patterns@.len() > 0 && repo_menu::repo_name(repo@) && (text::texts(
            known_repos@,
        ).contains(repo@) || repo@ == "aur"@),
{
    let ghost ps = text::texts(patterns@);
    assert(ps.len() == patterns@.len());
    if !is_repo_name(repo) {
        return Err(PinError::BadRepo);
    }
    if !list_contains(known_repos, repo) && !str_eq(repo, "aur") {
        return Err(PinError::UnknownRepo);
    }
    if patterns.len() == 0 {
        return Err(PinError::NoPatterns);
    }
    let mut valid: Vec<bool> = Vec::new();
    let mut i: usize = 0;
    while i < patterns.len()
        invariant
            i <= patterns@.len(),
            ps == text::texts(patterns@),
            ps.len() == patterns@.len(),
            valid@.len() == i,
            forall|j: int| 0 <= j < i ==> (#[trigger] valid@[j]) == patterns::glob_valid(ps[j]),
        decreases patterns@.len() - i,
    {
        assert(ps[i as int] == patterns@[i as int]@);
        valid.push(pattern_compiles(&patterns[i]));
        i += 1;
    }
    assert(valid@ =~= globs_valid(ps));
    match find_bad_pattern(patterns, &valid) {
        Some(k) => {
            assert(ps[k as int] == patterns@[k as int]@);
            Err(PinError::BadPattern(patterns[k].clone()))
        },
        None => Ok(()),
    }
}

/// What is said about a request that cannot be granted.
pub fn pin_error_text(e: &PinError, repo: &str, known_repos: &Vec<String>) -> (r: (String, Option<
    String,
>))
    ensures
        match *e {
            PinError::BadRepo => {
                &&& r.0@ == "Error: Invalid repository name '["@ + repo@ + "]'."@
                &&& text::opt_text(r.1) == Some(
                    "Repository names may only contain letters, numbers, hyphens, and underscores."@,
                )
            },
            PinError::UnknownRepo => {
                &&& r.0@ == "Error: Repository '["@ + repo@ + "]' is not recognized."@
                &&& text::opt_text(r.1) == Some(
                    "Available repositories on your system: "@ + text::join(
                        text::texts(known_repos@).push("aur"@),
                        ", "@,
                    ),
                )
            },
            PinError::NoPatterns => {
                &&& r.0@ == "Error: No packages or patterns specified to pin."@
                &&& r.1 is None
            },
            PinError::BadPattern(p) => {
                &&& r.0@ == "Error: Invalid package pattern '"@ + p@
                    + "'. Patterns must be valid glob expressions without shell metacharacters or whitespace."@
                &&& r.1 is None
            },
        },
{
    match e {
        PinError::BadRepo => (
            text3("Error: Invalid repository name '[", repo, "]'."),
            Some(
                "Repository names may only contain letters, numbers, hyphens, and underscores.".to_string(),
            ),
        ),
        PinError::UnknownRepo => {
            let mut all = clone_strings(known_repos);
            let ghost before = text::texts(all@);
            push_str(&mut all, "aur");
            assert(text::texts(all@) =~= before.push("aur"@));
            let j = join_strings(&all, ", ");
            (
                text3("Error: Repository '[", repo, "]' is not recognized."),
                Some(text2("Available repositories on your system: ", &j)),
            )
        },
        PinError::NoPatterns => (
            "Error: No packages or patterns specified to pin.".to_string(),
            None,
        ),
        PinError::BadPattern(p) => (
            text3(
                "Error: Invalid package pattern '",
                p,
                "'. Patterns must be valid glob expressions without shell metacharacters or whitespace.",
            ),
            None,
        ),
    }
}

/// Adds those of the first `n` names that are neither in `skip` nor there already.
pub open spec fn gathered(
    before: Seq<Seq<char>>,
    names: Seq<Seq<char>>,
    skip: Seq<Seq<char>>,
    n: int,
) -> Seq<Seq<char>>
    decreases n,
{
    if n <= 0 {
        before
    } else {
        let so_far = gathered(before, names, skip, n - 1);
        if skip.contains(names[n - 1]) {
            so_far
        } else {
            db::add_new(so_far, names[n - 1])
        }
    }
}

fn gather(into: &mut Vec<String>, names: &Vec<String>, skip: &Vec<String>)
    ensures
        text::texts(final(into)@) == gathered(
            text::texts(old(into)@),
            text::texts(names@),
            text::texts(skip@),
            names@.len() as int,
        ),
{
    let ghost first = text::texts(into@);
    let ghost all = text::texts(names@);
    let mut i: usize = 0;
    while i < names.len()
        invariant
            i <= names@.len(),
            all == text::texts(names@),
            text::texts(into@) == gathered(first, all, text::texts(skip@), i as int),
        decreases names@.len() - i,
    {
        assert(all[i as int] == names@[i as int]@);
        if !list_contains(skip, &names[i]) {
            push_new(into, &names[i]);
        }
        i += 1;
    }
}

/// The companions of one pattern, in order; a glob has none.
pub open spec fn companions_of(
    m: AlpmManager,
    pattern: Seq<char>,
    repo: Seq<char>,
    pins: Seq<(Seq<char>, String)>,
    aur: Option<AurItem>,
    list: Seq<Seq<char>>,
) -> bool {
    if patterns::is_glob(pattern) {
        list.len() == 0
    } else {
        text::ascending(list) && forall|t: Seq<char>| #[trigger]
            list.contains(t) <==> db::companion(m, pattern, repo, pins, aur, t)
    }
}

/// All companions of the first `n` patterns, given those of each: each once, and none that is
/// asked for anyway.
pub open spec fn all_gathered(lists: Seq<Seq<Seq<char>>>, patterns: Seq<Seq<char>>, n: int) -> Seq<
    Seq<char>,
>
    decreases n,
{
    if n <= 0 {
        Seq::empty()
    } else {
        gathered(
            all_gathered(lists, patterns, n - 1),
            lists[n - 1],
            patterns,
            lists[n - 1].len() as int,
        )
    }
}

/// The lists of companions of all patterns.
pub open spec fn companion_lists(
    m: AlpmManager,
    patterns: Seq<Seq<char>>,
    repo: Seq<char>,
    pins: Seq<(Seq<char>, String)>,
    aur: Seq<Option<AurItem>>,
    lists: Seq<Seq<Seq<char>>>,
) -> bool {
    &&& lists.len() == patterns.len()
    &&& forall|i: int|
        0 <= i < patterns.len() ==> companions_of(
            m,
            patterns[i],
            repo,
            pins,
            aur[i],
            #[trigger] lists[i],
        )
}

/// The packages to offer along with those that are to be pinned. `aur` holds the AUR's answer
/// for each pattern, where there is one.
pub fn pin_companions(
    m: &AlpmManager,
    patterns: &Vec<String>,
    repo: &str,
    pins: &StrMap<String>,
    aur: &Vec<Option<AurItem>>,
) -> (r: Vec<String>)
    requires
        aur@.len() == patterns@.len(),
    ensures
        exists|lists: Seq<Seq<Seq<char>>>| #[trigger]
            companion_lists(*m, text::texts(patterns@), repo@, pins@, aur@, lists) && text::texts(r@)
                == all_gathered(lists, text::texts(patterns@), patterns@.len() as int),
{
    let ghost all = text::texts(patterns@);
    let ghost mut lists: Seq<Seq<Seq<char>>> = Seq::empty();
    let mut out = no_strings();
    let mut i: usize = 0;
    while i < patterns.len()
        invariant
            i <= patterns@.len(),
            aur@.len() == patterns@.len(),
            all == text::texts(patterns@),
            all.len() == patterns@.len(),
            lists.len() == i,
            forall|j: int|
                0 <= j < i ==> companions_of(
                    *m,
                    all[j],
                    repo@,
                    pins@,
                    aur@[j],
                    #[trigger] lists[j],
                ),
            text::texts(out@) == all_gathered(lists, all, i as int),
        decreases patterns@.len() - i,
    {
        assert(all[i as int] == patterns@[i as int]@);
        let names = if has_glob_chars(&patterns[i]) {
            no_strings()
        } else {
            let item: Option<&AurItem> = match &aur[i] {
                Some(x) => Some(x),
                None => None,
            };
            m.find_companions(&patterns[i], repo, pins, item)
        };
        gather(&mut out, &names, patterns);
        proof {
            let before = lists;
            let list = text::texts(names@);
            assert(list.len() == names@.len());
            lists = lists.push(list);
            gathered_keeps(before, lists, all, i as int);
            assert forall|j: int| 0 <= j < i + 1 implies companions_of(
                *m,
                all[j],
                repo@,
                pins@,
                aur@[j],
                #[trigger] lists[j],
            ) by {
                if j < i {
                    assert(lists[j] == before[j]);
                }
            }
        }
        i += 1;
    }
    proof {
        assert(companion_lists(*m, all, repo@, pins@, aur@, lists));
    }
    out
}

proof fn gathered_keeps(
    a: Seq<Seq<Seq<char>>>,
    b: Seq<Seq<Seq<char>>>,
    patterns: Seq<Seq<char>>,
    n: int,
)
    requires
        0 <= n <= a.len(),
        n <= b.len(),
        forall|j: int| 0 <= j < n ==> a[j] == b[j],
    ensures
        all_gathered(a, patterns, n) == all_gathered(b, patterns, n),
    decreases n,
{
    if n > 0 {
        gathered_keeps(a, b, patterns, n - 1);
    }
}

/// The heading of the offer of companions.
pub fn companion_title(patterns: &Vec<String>, repo: &str) -> (r: String)
    requires
        patterns@.len() > 0,
    ensures
        r@ == if patterns@.len() == 1 {
            "'"@ + patterns@[0]@ + "' has companion packages in ["@ + repo@
                + "] to avoid version mismatches"@
        } else {
            "Target packages have companion packages in ["@ + repo@
                + "] to avoid version mismatches"@
        },
{
    if patterns.len() == 1 {
        let a = text3("'", &patterns[0], "' has companion packages in [");
        text3(&a, repo, "] to avoid version mismatches")
    } else {
        text3(
            "Target packages have companion packages in [",
            repo,
            "] to avoid version mismatches",
        )
    }
}

/// All the names are pinned to the repository, and nothing else is changed.
pub open spec fn rules_pinned(
    after: Seq<(Seq<char>, String)>,
    before: Seq<(Seq<char>, String)>,
    names: Seq<Seq<char>>,
    repo: Seq<char>,
) -> bool {
    forall|k: Seq<char>|
        if names.contains(k) {
            text::opt_text(#[trigger] strmap::lookup(after, k)) == Some(repo)
        } else {
            strmap::lookup(after, k) == strmap::lookup(before, k)
        }
}

/// Pins all the names to the repository.
pub fn apply_pins(pins: &mut StrMap<String>, names: &Vec<String>, repo: &str)
    requires
        old(pins).ordered(),
    ensures
        final(pins).ordered(),
        rules_pinned(final(pins)@, old(pins)@, text::texts(names@), repo@),
{
    let ghost first = pins@;
    let ghost all = text::texts(names@);
    let mut i: usize = 0;
    assert(rules_pinned(pins@, first, all.take(0), repo@));
    while i < names.len()
        invariant
            i <= names@.len(),
            all == text::texts(names@),
            all.len() == names@.len(),
            pins.ordered(),
            rules_pinned(pins@, first, all.take(i as int), repo@),
        decreases names@.len() - i,
    {
        let ghost before = pins@;
        assert(all[i as int] == names@[i as int]@);
        pins.insert(names[i].clone(), repo.to_string());
        proof {
            let done = all.take(i as int);
            let next = all.take(i + 1);
            assert(next =~= done.push(all[i as int]));
            assert forall|k: Seq<char>|
                if next.contains(k) {
                    text::opt_text(#[trigger] strmap::lookup(pins@, k)) == Some(repo@)
                } else {
                    strmap::lookup(pins@, k) == strmap::lookup(first, k)
                } by {
                let was = strmap::lookup(before, k);
                if done.contains(k) {
                    let j = choose|j: int| 0 <= j < done.len() && done[j] == k;
                    assert(next[j] == k);
                }
                if next.contains(k) && k != all[i as int] {
                    let j = choose|j: int| 0 <= j < next.len() && next[j] == k;
                    assert(done[j] == k);
                }
                assert(next[i as int] == all[i as int]);
            }
        }
        i += 1;
    }
    assert(all.take(i as int) =~= all);
}

pub open spec fn pinned_list(names: Seq<Seq<char>>, repo: Seq<char>, n: int) -> Seq<
    Seq<(Seq<char>, Style)>,
>
    decreases n,
{
    if n <= 0 {
        Seq::empty()
    } else {
        pinned_list(names, repo, n - 1).push(pins::pin_row(names[n - 1], repo))
    }
}

/// Pins the patterns, and the companions that were selected, and says so.
pub fn cmd_pin(config: &mut Config, repo: &str, patterns: &Vec<String>, selected: &Vec<String>) -> (r:
    Page)
    requires
        old(config).ordered(),
    ensures
        final(config).ordered(),
        rules_pinned(
            final(config).pins@,
            old(config).pins@,
            text::texts(patterns@) + text::texts(selected@),
            repo@,
        ),
        final(config).repo_order == old(config).repo_order,
        final(config).exclude == old(config).exclude,
        final(config).delay == old(config).delay,
        final(config).features == old(config).features,
        final(config).options == old(config).options,
        final(config).integrations == old(config).integrations,
        ({
            let names = text::texts(patterns@) + text::texts(selected@);
            r@ == if names.len() == 1 {
                style::page1(
                    style::row1(
                        (
                            "✔ Successfully pinned '"@ + names[0] + "' to repository ["@ + repo@
                                + "]."@,
                            Style::Green,
                        ),
                    ),
                )
            } else {
                style::page1(
                    style::row1(
                        (
                            "✔ Successfully pinned "@ + text::digits_of(names.len())
                                + " package(s) to ["@ + repo@ + "]:"@,
                            Style::Green,
                        ),
                    ),
                ) + pinned_list(names, repo@, names.len() as int)
            }
        }),
{
    let mut names = clone_strings(patterns);
    push_strs(&mut names, selected);
    let ghost all = text::texts(names@);
    assert(all.len() == names@.len());
    apply_pins(&mut config.pins, &names, repo);
    if names.len() == 1 {
        assert(all[0] == names@[0]@);
        let a = text3("✔ Successfully pinned '", &names[0], "' to repository [");
        let t = text3(&a, repo, "].");
        return Page::new().line(&t, Style::Green);
    }
    let n = number_text(names.len() as u64);
    let a = text3("✔ Successfully pinned ", &n, " package(s) to [");
    let t = text3(&a, repo, "]:");
    let head = Page::new().line(&t, Style::Green);
    let mut rows = Page::new();
    let mut i: usize = 0;
    while i < names.len()
        invariant
            i <= names@.len(),
            all == text::texts(names@),
            all.len() == names@.len(),
            rows@ == pinned_list(all, repo@, i as int),
        decreases names@.len() - i,
    {
        assert(all[i as int] == names@[i as int]@);
        rows = rows.with(make_pin_row(&names[i], repo));
        i += 1;
    }
    head.and(rows)
}

/// Removes a pin. The result tells whether it was there.
pub fn cmd_unpin(config: &mut Config, pattern: &str) -> (r: (bool, String))
    requires
        old(config).ordered(),
    ensures
        final(config).ordered(),
        r.0 == (strmap::lookup(old(config).pins@, pattern@) is Some),
        forall|k: Seq<char>| #[trigger]
            strmap::lookup(final(config).pins@, k) == if k == pattern@ {
                None
            } else {
                strmap::lookup(old(config).pins@, k)
            },
        final(config).repo_order == old(config).repo_order,
        final(config).exclude == old(config).exclude,
        final(config).delay == old(config).delay,
        final(config).features == old(config).features,
        final(config).options == old(config).options,
        final(config).integrations == old(config).integrations,
        r.1@ == if r.0 {
            "✔ Unpinned '"@ + pattern@ + "'."@
        } else {
            "Pattern '"@ + pattern@ + "' was not pinned."@
        },
{
    if config.pins.remove(pattern) {
        (true, text3("✔ Unpinned '", pattern, "'."))
    } else {
        (false, text3("Pattern '", pattern, "' was not pinned."))
    }
}

/// A pin that is set and removed again leaves no trace.
pub proof fn unpin_undoes_pin(
    before: Seq<(Seq<char>, String)>,
    pinned: Seq<(Seq<char>, String)>,
    after: Seq<(Seq<char>, String)>,
    name: Seq<char>,
    repo: Seq<char>,
    k: Seq<char>,
)
    requires
        strmap::lookup(before, name) is None,
        rules_pinned(pinned, before, seq![name], repo),
        forall|x: Seq<char>| #[trigger]
            strmap::lookup(after, x) == if x == name {
                None
            } else {
                strmap::lookup(pinned, x)
            },
    ensures
        strmap::lookup(after, k) == strmap::lookup(before, k),
{
    let was = strmap::lookup(pinned, k);
    if k != name {
        assert(!seq![name].contains(k));
    }
}

// ---------------------------------------------------------------------------------------
// Delays

/// Sets a delay. A name that must not stand in a rule is refused.
pub fn cmd_delay(config: &mut Config, pkg: &str, days: u32) -> (r: Result<String, String>)
    requires
        old(config).ordered(),
    ensures
        final(config).ordered(),
        final(config).pins == old(config).pins,
        final(config).repo_order == old(config).repo_order,
        final(config).exclude == old(config).exclude,
        final(config).features == old(config).features,
        final(config).options == old(config).options,
        final(config).integrations == old(config).integrations,
        if utils::safe_pattern(pkg@) {
            &&& r is Ok
            &&& r->Ok_0@ == "✔ Set "@ + text::digits_of(days as nat) + "-day stability delay on '"@ + pkg@
                + "'."@
            &&& forall|k: Seq<char>| #[trigger]
                strmap::lookup(final(config).delay@, k) == if k == pkg@ {
                    Some(days)
                } else {
                    strmap::lookup(old(config).delay@, k)
                }
        } else {
            &&& r is Err
            &&& r->Err_0@ == "Error: Invalid package or pattern '"@ + pkg@ + "'."@
            &&& final(config).delay == old(config).delay
        },
{
    if !is_safe_pattern(pkg) {
        return Err(text3("Error: Invalid package or pattern '", pkg, "'."));
    }
    config.delay.insert(pkg.to_string(), days);
    let d = number_text(days as u64);
    let a = text3("✔ Set ", &d, "-day stability delay on '");
    Ok(text3(&a, pkg, "'."))
}

pub open spec fn bullet_rows(names: Seq<Seq<char>>, n: int) -> Seq<Seq<(Seq<char>, Style)>>
    decreases n,
{
    if n <= 0 {
        Seq::empty()
    } else {
        bullet_rows(names, n - 1).push(
            style::row2(("    • "@, Style::Plain), (names[n - 1], Style::Yellow)),
        )
    }
}

/// The page on the packages that are held along with a delayed one.
pub open spec fn held_along_page(names: Seq<Seq<char>>) -> Seq<Seq<(Seq<char>, Style)>> {
    if names.len() == 0 {
        Seq::empty()
    } else {
        style::page1(
            style::row1(
                (
                    ":: Notice: The following installed package(s) will also be held during this window to prevent ABI breakage:"@,
                    Style::Cyan,
                ),
            ),
        ) + bullet_rows(names, names.len() as int)
    }
}

/// The installed packages that depend on `pkg`, in order; none for a glob.
pub open spec fn held_along(m: AlpmManager, pkg: Seq<char>, names: Seq<Seq<char>>) -> bool {
    if patterns::is_glob(pkg) {
        names.len() == 0
    } else {
        text::ascending(names) && forall|t: Seq<char>| #[trigger]
            names.contains(t) <==> db::is_dependent(m, pkg, t)
    }
}

/// The notice which packages are held along with a delayed one.
pub fn delay_notice(m: &AlpmManager, pkg: &str) -> (r: Page)
    ensures
        exists|names: Seq<Seq<char>>| #[trigger]
            held_along(*m, pkg@, names) && r@ == held_along_page(names),
{
    let names = if has_glob_chars(pkg) {
        no_strings()
    } else {
        m.get_dependents(pkg)
    };
    let ghost all = text::texts(names@);
    assert(all.len() == names@.len());
    assert(held_along(*m, pkg@, all));
    if names.len() == 0 {
        assert(held_along_page(all) =~= Seq::<Seq<(Seq<char>, Style)>>::empty());
        return Page::new();
    }
    let head = Page::new().line(
        ":: Notice: The following installed package(s) will also be held during this window to prevent ABI breakage:",
        Style::Cyan,
    );
    let mut rows = Page::new();
    let mut i: usize = 0;
    while i < names.len()
        invariant
            i <= names@.len(),
            all == text::texts(names@),
            rows@ == bullet_rows(all, i as int),
        decreases names@.len() - i,
    {
        assert(all[i as int] == names@[i as int]@);
        rows = rows.with(Line::new().with("    • ", Style::Plain).with(&names[i], Style::Yellow));
        i += 1;
    }
    head.and(rows)
}

/// Removes a delay. The result tells whether it was there.
pub fn cmd_undelay(config: &mut Config, pkg: &str) -> (r: (bool, String))
    requires
        old(config).ordered(),
    ensures
        final(config).ordered(),
        r.0 == (strmap::lookup(old(config).delay@, pkg@) is Some),
        forall|k: Seq<char>| #[trigger]
            strmap::lookup(final(config).delay@, k) == if k == pkg@ {
                None
            } else {
                strmap::lookup(old(config).delay@, k)
            },
        final(config).pins == old(config).pins,
        final(config).repo_order == old(config).repo_order,
        final(config).exclude == old(config).exclude,
        final(config).features == old(config).features,
        final(config).options == old(config).options,
        final(config).integrations == old(config).integrations,
        r.1@ == if r.0 {
            "✔ Removed stability delay on '"@ + pkg@ + "'."@
        } else {
            "Package '"@ + pkg@ + "' did not have a delay rule."@
        },
{
    if config.delay.remove(pkg) {
        (true, text3("✔ Removed stability delay on '", pkg, "'."))
    } else {
        (false, text3("Package '", pkg, "' did not have a delay rule."))
    }
}

// ---------------------------------------------------------------------------------------
// Rules of removed packages

/// A rule is removed along with its package: on a yes or on nothing at all, and without a
/// question only where none can be asked for.
pub open spec fn rule_removed(
    noconfirm: bool,
    certain: bool,
    interactive: bool,
    answer: Option<Seq<char>>,
) -> bool {
    if noconfirm {
        certain
    } else if interactive {
        answer is Some && (install::is_blank(answer->0) || install::says_yes(answer->0))
    } else {
        false
    }
}

fn removes_rule(noconfirm: bool, certain: bool, interactive: bool, answer: Option<&str>) -> (r: bool)
    ensures
        r == rule_removed(
            noconfirm,
            certain,
            interactive,
            match answer {
                Some(a) => Some(a@),
                None => None,
            },
        ),
{
    if noconfirm {
        certain
    } else if interactive {
        match answer {
            Some(a) => blank(a) || is_yes(a),
            None => false,
        }
    } else {
        false
    }
}

/// The rules that were removed along with a package.
#[derive(Debug, Clone)]
pub struct RemovedRules {
    /// The pattern and the repository of the pin.
    pub pin: Option<(String, String)>,
    pub delay: Option<u32>,
}

/// The pattern that is removed along with the package.
pub open spec fn removed_pattern(
    config: Config,
    pkg: Seq<char>,
    noconfirm: bool,
    interactive: bool,
    answer: Option<Seq<char>>,
) -> Option<(Seq<char>, Seq<char>)> {
    match resolver::pin_rule(pkg, config.pins@, resolver::valued(patterns::glob_rules(config.pins@))) {
        Some((pattern, repo, exact)) => if rule_removed(noconfirm, exact, interactive, answer) {
            Some((pattern, repo))
        } else {
            None
        },
        None => None,
    }
}

pub open spec fn names_pattern(gone: Option<(Seq<char>, Seq<char>)>, k: Seq<char>) -> bool {
    match gone {
        Some((p, _repo)) => p == k,
        None => false,
    }
}

/// Removes the rules of a package that was removed, as far as the answers want it. A pattern
/// may apply to other packages too, so that it survives where nobody is asked.
pub fn check_and_prompt_smart_unpin(
    config: &mut Config,
    pkg: &str,
    noconfirm: bool,
    interactive: bool,
    pin_answer: Option<&str>,
    delay_answer: Option<&str>,
) -> (r: RemovedRules)
    requires
        old(config).ordered(),
    ensures
        final(config).ordered(),
        ({
            let pin_words = match pin_answer {
                Some(a) => Some(a@),
                None => None,
            };
            let delay_words = match delay_answer {
                Some(a) => Some(a@),
                None => None,
            };
            let gone = removed_pattern(*old(config), pkg@, noconfirm, interactive, pin_words);
            let held = strmap::lookup(old(config).delay@, pkg@);
            let free = held is Some && rule_removed(noconfirm, true, interactive, delay_words);
            &&& match r.pin {
                Some((p, repo)) => gone == Some((p@, repo@)),
                None => gone is None,
            }
            &&& r.delay == if free {
                held
            } else {
                None
            }
            &&& forall|k: Seq<char>| #[trigger]
                strmap::lookup(final(config).pins@, k) == if names_pattern(gone, k) {
                    None
                } else {
                    strmap::lookup(old(config).pins@, k)
                }
            &&& forall|k: Seq<char>| #[trigger]
                strmap::lookup(final(config).delay@, k) == if free && k == pkg@ {
                    None
                } else {
                    strmap::lookup(old(config).delay@, k)
                }
        }),
        final(config).repo_order == old(config).repo_order,
        final(config).exclude == old(config).exclude,
        final(config).features == old(config).features,
        final(config).options == old(config).options,
        final(config).integrations == old(config).integrations,
{
    let mut pin: Option<(String, String)> = None;
    match find_matching_pin(pkg, &config.pins) {
        Some((pattern, repo, exact)) => {
            if removes_rule(noconfirm, exact, interactive, pin_answer) {
                let _ = config.pins.remove(&pattern);
                pin = Some((pattern, repo));
            }
        },
        None => {},
    }
    let held: Option<u32> = match config.delay.get(pkg) {
        Some(d) => Some(*d),
        None => None,
    };
    let mut delay: Option<u32> = None;
    if held.is_some() && removes_rule(noconfirm, true, interactive, delay_answer) {
        let _ = config.delay.remove(pkg);
        delay = held;
    }
    RemovedRules { pin, delay }
}

/// Where nobody is asked, a pattern survives the removal of a package that it applies to.
pub proof fn patterns_survive_unasked(config: Config, pkg: Seq<char>, interactive: bool, answer: Option<Seq<char>>)
    requires
        strmap::lookup(config.pins@, pkg) is None,
    ensures
        removed_pattern(config, pkg, true, interactive, answer) is None,
{
}

/// The question whether to remove the pin of a removed package.
pub fn unpin_prompt(pkg: &str, pattern: &str, repo: &str, exact: bool) -> (r: Line)
    ensures
        r@ == if exact {
            style::row5(
                (":: Package '"@, Style::Plain),
                (pkg@, Style::BoldCyan),
                ("' is pinned to repository ["@, Style::Plain),
                (repo@, Style::Green),
                ("]. Remove this pin rule from config? [Y/n] "@, Style::Plain),
            )
        } else {
            style::row7(
                (":: Package '"@, Style::Plain),
                (pkg@, Style::BoldCyan),
                ("' matched wildcard pin '"@, Style::Plain),
                (pattern@, Style::Yellow),
                ("' ➔ ["@, Style::Plain),
                (repo@, Style::Green),
                ("]. Remove this pin rule from config? [Y/n] "@, Style::Plain),
            )
        },
{
    let line = Line::new().with(":: Package '", Style::Plain).with(pkg, Style::BoldCyan);
    if exact {
        line.with("' is pinned to repository [", Style::Plain).with(repo, Style::Green).with(
            "]. Remove this pin rule from config? [Y/n] ",
            Style::Plain,
        )
    } else {
        line.with("' matched wildcard pin '", Style::Plain).with(pattern, Style::Yellow).with(
            "' ➔ [",
            Style::Plain,
        ).with(repo, Style::Green).with(
            "]. Remove this pin rule from config? [Y/n] ",
            Style::Plain,
        )
    }
}

// ---------------------------------------------------------------------------------------
// Removal, reset and orphans

pub open spec fn options_upto(args: Seq<Seq<char>>, hyphen: bool, n: int) -> Seq<Seq<char>>
    decreases n,
{
    if n <= 0 {
        Seq::empty()
    } else if text::begins(args[n - 1], "-"@) == hyphen {
        options_upto(args, hyphen, n - 1).push(args[n - 1])
    } else {
        options_upto(args, hyphen, n - 1)
    }
}

/// The targets and the flags of a removal; the friendly form removes what is no longer needed
/// along with the package.
pub fn cmd_remove(args: &Vec<String>, is_friendly: bool) -> (r: (Vec<String>, Vec<String>))
    ensures
        text::texts(r.0@) == options_upto(text::texts(args@), false, args@.len() as int),
        text::texts(r.1@) == (if is_friendly {
            Seq::empty().push("-Rns"@)
        } else {
            Seq::empty()
        }) + options_upto(text::texts(args@), true, args@.len() as int),
{
    let ghost all = text::texts(args@);
    let mut targets = no_strings();
    let mut flags = no_strings();
    if is_friendly {
        push_str(&mut flags, "-Rns");
    }
    let ghost lead = if is_friendly {
        Seq::empty().push("-Rns"@)
    } else {
        Seq::<Seq<char>>::empty()
    };
    assert(text::texts(flags@) =~= lead);
    assert(lead + Seq::<Seq<char>>::empty() =~= lead);
    let mut i: usize = 0;
    while i < args.len()
        invariant
            i <= args@.len(),
            all == text::texts(args@),
            text::texts(targets@) == options_upto(all, false, i as int),
            text::texts(flags@) == lead + options_upto(all, true, i as int),
        decreases args@.len() - i,
    {
        assert(all[i as int] == args@[i as int]@);
        if starts_with(&args[i], "-") {
            let ghost before = text::texts(flags@);
            let ghost some = options_upto(all, true, i as int);
            push_str(&mut flags, &args[i]);
            assert(text::texts(flags@) =~= before.push(all[i as int]));
            assert(lead + some.push(all[i as int]) =~= (lead + some).push(all[i as int]));
        } else {
            let ghost before = text::texts(targets@);
            push_str(&mut targets, &args[i]);
            assert(text::texts(targets@) =~= before.push(all[i as int]));
        }
        i += 1;
    }
    (targets, flags)
}

/// What to do about a reset of the configuration.
#[derive(Debug, Clone, Copy, PartialEq, Eq, Structural)]
pub enum ResetStep {
    /// There is nothing to reset.
    Nothing,
    /// Nobody can be asked, and nobody has said that it is all right.
    Refuse,
    Ask,
    Run,
}

pub fn cmd_reset(config_exists: bool, force: bool, noconfirm: bool, interactive: bool) -> (r: ResetStep)
    ensures
        r == if !config_exists {
            ResetStep::Nothing
        } else if force || noconfirm {
            ResetStep::Run
        } else if interactive {
            ResetStep::Ask
        } else {
            ResetStep::Refuse
        },
        r == ResetStep::Nothing <==> !config_exists,
        r == ResetStep::Run <==> config_exists && (force || noconfirm),
        r == ResetStep::Ask ==> interactive,
{
    if !config_exists {
        ResetStep::Nothing
    } else if force || noconfirm {
        ResetStep::Run
    } else if interactive {
        ResetStep::Ask
    } else {
        ResetStep::Refuse
    }
}

/// A reset is confirmed by a yes and by nothing else.
pub fn reset_confirmed(answer: Option<&str>) -> (r: bool)
    ensures
        r == (answer is Some && install::says_yes(answer->0@)),
        answer is None ==> !r,
{
    match answer {
        Some(a) => is_yes(a),
        None => false,
    }
}

/// The file that a configuration file is saved in before it is reset.
pub fn backup_path(path: &str, time: &str) -> (r: String)
    ensures
        r@ == path@ + ".bak."@ + time@,
{
    text3(path, ".bak.", time)
}

/// The orphans to remove: those that were selected, or without a question the pure ones.
pub fn orphans_to_remove(orphans: &Vec<OrphanPackage>, noconfirm: bool, answer: Option<&str>) -> (r: Vec<
    String,
>)
    ensures
        text::texts(r@) == if noconfirm {
            orphans::pure_names(orphans@, orphans@.len() as int)
        } else {
            views::orphan_selection(
                orphans@,
                match answer {
                    Some(a) => Some(a@),
                    None => None,
                },
            )
        },
{
    if noconfirm {
        OrphanManager::pure_orphans(orphans)
    } else {
        prompt_orphan_selection(orphans, answer)
    }
}

/// The orphans that are remembered: all, but for those that were removed.
pub fn cmd_orphans(orphans: &Vec<OrphanPackage>, selected: &Vec<String>, removed: bool) -> (r: Vec<
    OrphanPackage,
>)
    ensures
        orphans::orphan_views(r@) == orphans::remaining_upto(
            orphans@,
            if removed {
                text::texts(selected@)
            } else {
                Seq::empty()
            },
            orphans@.len() as int,
        ),
{
    if removed {
        OrphanManager::remaining(orphans, selected)
    } else {
        let none = no_strings();
        OrphanManager::remaining(orphans, &none)
    }
}

} // verus!
