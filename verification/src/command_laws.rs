//! What is promised of the commands that show and change the rules, and of the listings.
use crate::commands;
use crate::config::{Config, ConfigFile};
use crate::config;
use crate::db::{AlpmManager, SyncDb, SyncPackage, VersionOrder};
use crate::db;
use crate::install;
use crate::patterns;
use crate::picks;
use crate::pins;
use crate::query;
use crate::resolver;
use crate::strmap;
use crate::text;
use crate::utils;
use vstd::prelude::*;
use vstd::string::*;

verus! {

// ---------------------------------------------------------------------------------------
// Pins

/// The installed packages that are told to be pinned are exactly those with a pin, in order,
/// each with the repository of its pin.
pub proof fn pinned_packages_are_listed(
    m: AlpmManager,
    config: Config,
    dbs: Seq<(Seq<char>, String)>,
    n: int,
)
    requires
        0 <= n <= m.local@.len(),
    ensures
        picks::made_of(
            pins::pinned_upto(m, config, dbs, n),
            n,
            |i: int| resolver::pinned_to(m.local@[i].name@, config.pins@) is Some,
            |i: int|
                pins::pinned_view(
                    m,
                    config,
                    dbs,
                    i,
                    resolver::pinned_to(m.local@[i].name@, config.pins@)->0,
                ),
        ),
    decreases n,
{
    let keep = |i: int| resolver::pinned_to(m.local@[i].name@, config.pins@) is Some;
    let give = |i: int|
        pins::pinned_view(
            m,
            config,
            dbs,
            i,
            resolver::pinned_to(m.local@[i].name@, config.pins@)->0,
        );
    if n == 0 {
        picks::made_of_none(keep, give);
    } else {
        pinned_packages_are_listed(m, config, dbs, n - 1);
        picks::made_of_one_more(pins::pinned_upto(m, config, dbs, n - 1), n - 1, keep, give);
        assert(keep(n - 1) == (resolver::pinned_to(m.local@[n - 1].name@, config.pins@) is Some));
        assert(give(n - 1) == pins::pinned_view(
            m,
            config,
            dbs,
            n - 1,
            resolver::pinned_to(m.local@[n - 1].name@, config.pins@)->0,
        ));
    }
}

/// What is shown of a pinned package: its version, where it came from, and what the
/// repository of its pin has; a delay only where delays are in force.
pub proof fn pinned_package_is_shown(
    m: AlpmManager,
    config: Config,
    dbs: Seq<(Seq<char>, String)>,
    i: int,
    repo: Seq<char>,
)
    ensures
        ({
            let v = pins::pinned_view(m, config, dbs, i, repo);
            &&& v.name == m.local@[i].name@
            &&& v.version == m.local@[i].version@
            &&& v.repo == repo
            &&& v.candidate is Some <==> db::sync_pkg(m.sync@, repo, v.name) is Some
            &&& v.candidate matches Some(c) ==> c == db::sync_pkg(m.sync@, repo, v.name)->0.version@
            &&& !config.features.stability_delays ==> v.delay is None
        }),
{
}

proof fn bad_is_first(ps: Seq<Seq<char>>, valid: Seq<bool>, i: int)
    requires
        0 <= i,
        valid.len() == ps.len(),
    ensures
        match commands::first_bad_pattern(ps, valid, i) {
            Some(k) => i <= k < ps.len() && !(utils::safe_pattern(ps[k]) && valid[k]) && forall|j: int|
                i <= j < k ==> utils::safe_pattern(#[trigger] ps[j]) && valid[j],
            None => forall|j: int|
                i <= j < ps.len() ==> utils::safe_pattern(#[trigger] ps[j]) && valid[j],
        },
    decreases ps.len() - i,
{
    if i < ps.len() {
        bad_is_first(ps, valid, i + 1);
        if utils::safe_pattern(ps[i]) && valid[i] {
            let rest = commands::first_bad_pattern(ps, valid, i + 1);
            assert(commands::first_bad_pattern(ps, valid, i) == rest);
        } else {
            assert(commands::first_bad_pattern(ps, valid, i) == Some(i));
        }
    }
}

/// Patterns are pinned only if all of them are safe and valid; the one that is complained of
/// is the first that is not.
pub proof fn only_sound_patterns_are_pinned(ps: Seq<Seq<char>>)
    ensures
        match commands::first_bad_pattern(ps, commands::globs_valid(ps), 0) {
            Some(k) => 0 <= k < ps.len() && !(utils::safe_pattern(ps[k]) && patterns::glob_valid(ps[k]))
                && forall|j: int|
                0 <= j < k ==> utils::safe_pattern(#[trigger] ps[j]) && patterns::glob_valid(ps[j]),
            None => forall|j: int|
                0 <= j < ps.len() ==> utils::safe_pattern(#[trigger] ps[j]) && patterns::glob_valid(
                    ps[j],
                ),
        },
{
    bad_is_first(ps, commands::globs_valid(ps), 0);
}

proof fn add_new_holds(s: Seq<Seq<char>>, x: Seq<char>, t: Seq<char>)
    ensures
        db::add_new(s, x).contains(t) <==> s.contains(t) || t == x,
        s.no_duplicates() ==> db::add_new(s, x).no_duplicates(),
{
    let r = db::add_new(s, x);
    if !s.contains(x) {
        assert(r[s.len() as int] == x);
        if s.contains(t) {
            let k = choose|k: int| 0 <= k < s.len() && s[k] == t;
            assert(r[k] == t);
        }
        if r.contains(t) && t != x {
            let k = choose|k: int| 0 <= k < r.len() && r[k] == t;
            assert(s[k] == t);
        }
    }
}

proof fn gathered_holds(
    before: Seq<Seq<char>>,
    names: Seq<Seq<char>>,
    skip: Seq<Seq<char>>,
    n: int,
    t: Seq<char>,
)
    requires
        0 <= n <= names.len(),
    ensures
        commands::gathered(before, names, skip, n).contains(t) <==> before.contains(t) || (
        !skip.contains(t) && names.take(n).contains(t)),
        before.no_duplicates() ==> commands::gathered(before, names, skip, n).no_duplicates(),
    decreases n,
{
    if n > 0 {
        gathered_holds(before, names, skip, n - 1, t);
        add_new_holds(commands::gathered(before, names, skip, n - 1), names[n - 1], t);
        let a = names.take(n - 1);
        let b = names.take(n);
        assert(b[n - 1] == names[n - 1]);
        if a.contains(t) {
            let k = choose|k: int| 0 <= k < a.len() && a[k] == t;
            assert(b[k] == t);
        }
        if b.contains(t) && t != names[n - 1] {
            let k = choose|k: int| 0 <= k < b.len() && b[k] == t;
            assert(a[k] == t);
        }
    }
}

/// The companions that are offered are those of any of the patterns, each once, without the
/// patterns themselves.
pub proof fn all_companions_are_offered(
    lists: Seq<Seq<Seq<char>>>,
    ps: Seq<Seq<char>>,
    n: int,
    t: Seq<char>,
)
    requires
        0 <= n <= lists.len(),
    ensures
        commands::all_gathered(lists, ps, n).contains(t) <==> !ps.contains(t) && exists|i: int|
            0 <= i < n && (#[trigger] lists[i]).contains(t),
        commands::all_gathered(lists, ps, n).no_duplicates(),
    decreases n,
{
    if n > 0 {
        all_companions_are_offered(lists, ps, n - 1, t);
        let l = lists[n - 1];
        gathered_holds(commands::all_gathered(lists, ps, n - 1), l, ps, l.len() as int, t);
        assert(l.take(l.len() as int) =~= l);
    }
}

/// A pin that names the package is removed with it without a question where none is wanted; a
/// pattern, which may concern others, never is. Else it is up to the answer, and an answer is
/// taken only from a terminal.
pub proof fn pattern_rules_outlive_their_packages(
    config: Config,
    pkg: Seq<char>,
    interactive: bool,
    answer: Option<Seq<char>>,
)
    ensures
        strmap::lookup(config.pins@, pkg) matches Some(repo) ==> commands::removed_pattern(
            config,
            pkg,
            true,
            interactive,
            answer,
        ) == Some((pkg, repo@)),
        strmap::lookup(config.pins@, pkg) is None ==> commands::removed_pattern(
            config,
            pkg,
            true,
            interactive,
            answer,
        ) is None,
        commands::removed_pattern(config, pkg, false, false, answer) is None,
        answer is None ==> commands::removed_pattern(config, pkg, false, true, answer) is None,
        answer matches Some(a) ==> install::says_no(a) ==> commands::removed_pattern(
            config,
            pkg,
            false,
            true,
            answer,
        ) is None,
        answer matches Some(a) ==> install::says_yes(a) && resolver::pinned_to(pkg, config.pins@) is Some
            ==> (commands::removed_pattern(config, pkg, false, true, answer) matches Some((_, repo))
            && Some(repo) == resolver::pinned_to(pkg, config.pins@)),
{
    if answer is Some {
        crate::install_laws::answers_are_read(answer->0);
    }
}

/// The names that are pinned follow that repository from then on, whatever patterns say; the
/// rules of all other names stay.
pub proof fn pinning_moves_only_what_is_named(
    after: Seq<(Seq<char>, String)>,
    before: Seq<(Seq<char>, String)>,
    names: Seq<Seq<char>>,
    repo: Seq<char>,
    k: Seq<char>,
)
    requires
        commands::rules_pinned(after, before, names, repo),
    ensures
        names.contains(k) ==> resolver::pinned_to(k, after) == Some(repo),
        !names.contains(k) ==> strmap::lookup(after, k) == strmap::lookup(before, k),
{
    let now = text::opt_text(strmap::lookup(after, k));
    assert(names.contains(k) ==> now == Some(repo));
}

/// Of the words behind a removal, those with a hyphen in front are options and the others are
/// packages, each in order.
pub proof fn words_are_options_or_packages(args: Seq<Seq<char>>, hyphen: bool, n: int)
    requires
        0 <= n <= args.len(),
    ensures
        picks::made_of(
            commands::options_upto(args, hyphen, n),
            n,
            |i: int| (args[i].len() > 0 && args[i][0] == '-') == hyphen,
            |i: int| args[i],
        ),
    decreases n,
{
    let keep = |i: int| (args[i].len() > 0 && args[i][0] == '-') == hyphen;
    let give = |i: int| args[i];
    if n == 0 {
        picks::made_of_none(keep, give);
    } else {
        words_are_options_or_packages(args, hyphen, n - 1);
        picks::made_of_one_more(commands::options_upto(args, hyphen, n - 1), n - 1, keep, give);
        reveal_strlit("-");
        let a = args[n - 1];
        if a.len() > 0 {
            assert(a.take(1)[0] == a[0]);
            if a[0] == '-' {
                assert(a.take(1) =~= "-"@);
            }
        }
        assert(keep(n - 1) == ((a.len() > 0 && a[0] == '-') == hyphen));
        assert(give(n - 1) == a);
    }
}

// ---------------------------------------------------------------------------------------
// Configuration

/// A helper is accepted exactly where it is a trusted one, or an absolute path to a file,
/// without white space or anything that a shell would act on; it is taken as it stands.
pub proof fn only_safe_helpers_are_accepted(helper: Seq<char>, is_file: bool)
    ensures
        match config::helper_choice(helper, is_file) {
            Ok(h) => {
                &&& h == text::trim(helper)
                &&& h.len() > 0
                &&& forall|i: int|
                    0 <= i < h.len() ==> !seq![
                        ';',
                        '&',
                        '|',
                        '`',
                        '$',
                        '(',
                        ')',
                        '{',
                        '}',
                        '<',
                        '>',
                        '~',
                        ' ',
                        '\t',
                        '\n',
                        '\r',
                    ].contains(#[trigger] h[i])
                &&& (h[0] == '/' && is_file) || config::trusted_helper(h)
            },
            Err(_) => {
                let h = text::trim(helper);
                ||| h.len() == 0
                ||| exists|i: int| 0 <= i < h.len() && config::shell_char(#[trigger] h[i])
                ||| !(h[0] == '/' && is_file) && !config::trusted_helper(h)
            },
        },
{
    reveal_strlit("/");
    let h = text::trim(helper);
    if h.len() > 0 {
        assert(h.take(1)[0] == h[0]);
        if h[0] == '/' {
            assert(h.take(1) =~= "/"@);
        }
    }
    if config::helper_choice(helper, is_file) is Ok {
        assert forall|i: int| 0 <= i < h.len() implies !seq![
            ';',
            '&',
            '|',
            '`',
            '$',
            '(',
            ')',
            '{',
            '}',
            '<',
            '>',
            '~',
            ' ',
            '\t',
            '\n',
            '\r',
        ].contains(#[trigger] h[i]) by {
            assert(!config::shell_char(h[i]));
        }
    }
}

/// The helpers that are trusted by name.
pub proof fn trusted_helpers(name: Seq<char>)
    ensures
        config::trusted_helper(name) <==> seq![
            "paru"@,
            "yay"@,
            "pikaur"@,
            "aurman"@,
            "pakku"@,
            "trizen"@,
        ].contains(name),
{
    let all = seq!["paru"@, "yay"@, "pikaur"@, "aurman"@, "pakku"@, "trizen"@];
    assert(all[0] == "paru"@ && all[1] == "yay"@ && all[2] == "pikaur"@ && all[3] == "aurman"@
        && all[4] == "pakku"@ && all[5] == "trizen"@);
}

/// A switch that the file sets is as the file says; pinning, the care for orphans and shell
/// aliases are on where it does not say, and the rest is off.
pub proof fn switches_are_as_the_file_says(f: ConfigFile)
    ensures
        ({
            let g = config::features_of(f);
            &&& g.pinning == !(f.pinning == Some(false))
            &&& g.smart_orphans == !(f.smart_orphans == Some(false))
            &&& g.shell_aliases == !(f.shell_aliases == Some(false))
            &&& g.stability_delays == (f.stability_delays == Some(true))
            &&& g.integrations == (f.integrations == Some(true))
            &&& g.vendor_stickiness == (f.vendor_stickiness == Some(true))
        }),
{
}

// ---------------------------------------------------------------------------------------
// Listings

/// The line for a package tells whether it is installed, and in which version if that is
/// another one.
pub proof fn listing_tells_what_is_installed(m: AlpmManager, db: Seq<char>, p: SyncPackage, i: int)
    requires
        0 <= i < m.local@.len(),
        m.local@[i].name@ == p.name@,
        forall|j: int| 0 <= j < i ==> (#[trigger] m.local@[j]).name@ != p.name@,
    ensures
        query::listing_line(m, db, p) == db + " "@ + p.name@ + " "@ + p.version@ + if p.versus_installed
            == VersionOrder::Same {
            " [installed]"@
        } else {
            " [installed: "@ + m.local@[i].version@ + "]"@
        },
{
    local_is_found(m, p.name@, i, 0);
}

proof fn local_is_found(m: AlpmManager, name: Seq<char>, i: int, from: int)
    requires
        0 <= from <= i < m.local@.len(),
        m.local@[i].name@ == name,
        forall|j: int| 0 <= j < i ==> (#[trigger] m.local@[j]).name@ != name,
    ensures
        db::local_from(m.local@, name, from) == Some(i),
    decreases i - from,
{
    if from < i {
        assert(m.local@[from].name@ != name);
        local_is_found(m, name, i, from + 1);
    }
}

proof fn local_is_missing(m: AlpmManager, name: Seq<char>, from: int)
    requires
        0 <= from,
        forall|j: int| 0 <= j < m.local@.len() ==> (#[trigger] m.local@[j]).name@ != name,
    ensures
        db::local_from(m.local@, name, from) is None,
    decreases m.local@.len() - from,
{
    if from < m.local@.len() {
        assert(m.local@[from].name@ != name);
        local_is_missing(m, name, from + 1);
    }
}

/// The line for a package that is not installed says nothing of that.
pub proof fn listing_leaves_others_plain(m: AlpmManager, db: Seq<char>, p: SyncPackage)
    requires
        forall|j: int| 0 <= j < m.local@.len() ==> (#[trigger] m.local@[j]).name@ != p.name@,
    ensures
        query::listing_line(m, db, p) == db + " "@ + p.name@ + " "@ + p.version@,
{
    local_is_missing(m, p.name@, 0);
    assert(db + " "@ + p.name@ + " "@ + p.version@ + Seq::<char>::empty() =~= db + " "@ + p.name@
        + " "@ + p.version@);
}

/// The listing of a database has one line for each package, in order.
pub proof fn database_is_listed(m: AlpmManager, db: SyncDb, n: int)
    requires
        0 <= n <= db.pkgs@.len(),
    ensures
        query::db_listing(m, db, n).len() == n,
        forall|i: int|
            0 <= i < n ==> #[trigger] query::db_listing(m, db, n)[i] == query::listing_line(
                m,
                db.name@,
                db.pkgs@[i],
            ),
    decreases n,
{
    if n > 0 {
        database_is_listed(m, db, n - 1);
    }
}

/// The database is to be listed: it is named, or none is.
pub open spec fn is_wanted(repos: Seq<Seq<char>>, db: SyncDb) -> bool {
    repos.len() == 0 || repos.contains(db.name@)
}

/// A line is in the listing exactly where a database that is to be listed has a package with
/// it.
pub proof fn wanted_databases_are_listed(m: AlpmManager, repos: Seq<Seq<char>>, n: int, line: Seq<char>)
    requires
        0 <= n <= m.sync@.len(),
    ensures
        query::sync_listing(m, repos, n).contains(line) <==> listed_line(m, repos, n, line),
    decreases n,
{
    if n > 0 {
        wanted_databases_are_listed(m, repos, n - 1, line);
        let before = query::sync_listing(m, repos, n - 1);
        let db = m.sync@[n - 1];
        let own = query::db_listing(m, db, db.pkgs@.len() as int);
        database_is_listed(m, db, db.pkgs@.len() as int);
        let all = before + own;
        if before.contains(line) {
            let k = choose|k: int| 0 <= k < before.len() && before[k] == line;
            assert(all[k] == line);
            let low = n - 1;
            let (d, i) = choose|d: int, i: int| line_at(m, repos, low, line, d, i);
            assert(line_at(m, repos, n, line, d, i));
        }
        if own.contains(line) && is_wanted(repos, db) {
            let k = choose|k: int| 0 <= k < own.len() && own[k] == line;
            assert(all[before.len() + k] == line);
            assert(line_at(m, repos, n, line, n - 1, k));
        }
        if all.contains(line) && is_wanted(repos, db) {
            let k = choose|k: int| 0 <= k < all.len() && all[k] == line;
            if k < before.len() {
                assert(before[k] == line);
            } else {
                assert(own[k - before.len()] == line);
            }
        }
        if listed_line(m, repos, n, line) {
            let (d, i) = choose|d: int, i: int| line_at(m, repos, n, line, d, i);
            if d < n - 1 {
                assert(line_at(m, repos, n - 1, line, d, i));
            } else {
                assert(own[i] == line);
            }
        }
    }
}

pub open spec fn line_at(
    m: AlpmManager,
    repos: Seq<Seq<char>>,
    n: int,
    line: Seq<char>,
    d: int,
    i: int,
) -> bool {
    &&& 0 <= d < n
    &&& is_wanted(repos, m.sync@[d])
    &&& 0 <= i < m.sync@[d].pkgs@.len()
    &&& line == query::listing_line(m, m.sync@[d].name@, m.sync@[d].pkgs@[i])
}

pub open spec fn listed_line(m: AlpmManager, repos: Seq<Seq<char>>, n: int, line: Seq<char>) -> bool {
    exists|d: int, i: int| line_at(m, repos, n, line, d, i)
}

/// The repository that is complained of is the first one that has no database.
pub proof fn first_missing_repo_is_told(m: AlpmManager, repos: Seq<Seq<char>>, i: int)
    requires
        0 <= i,
    ensures
        match query::missing_repo(m, repos, i) {
            Some(k) => i <= k < repos.len() && !has_db(m, repos[k]) && forall|j: int|
                i <= j < k ==> has_db(m, #[trigger] repos[j]),
            None => forall|j: int| i <= j < repos.len() ==> has_db(m, #[trigger] repos[j]),
        },
    decreases repos.len() - i,
{
    if i < repos.len() {
        first_missing_repo_is_told(m, repos, i + 1);
        db_is_there(m.sync@, repos[i], 0);
    }
}

pub open spec fn has_db(m: AlpmManager, repo: Seq<char>) -> bool {
    exists|d: int| 0 <= d < m.sync@.len() && (#[trigger] m.sync@[d]).name@ == repo
}

proof fn db_is_there(sync: Seq<SyncDb>, repo: Seq<char>, i: int)
    requires
        0 <= i,
    ensures
        db::db_from(sync, repo, i) is Some <==> exists|d: int|
            i <= d < sync.len() && (#[trigger] sync[d]).name@ == repo,
    decreases sync.len() - i,
{
    if i < sync.len() {
        db_is_there(sync, repo, i + 1);
        if sync[i].name@ == repo {
            assert(sync[i].name@ == repo);
        }
    }
}

/// The lines for a package tell its groups among those that are asked for, in order.
pub proof fn members_are_told_by_group(p: SyncPackage, groups: Seq<Seq<char>>, n: int)
    requires
        0 <= n <= p.groups@.len(),
    ensures
        picks::made_of(
            query::member_lines(p, groups, n),
            n,
            |i: int| groups.contains(p.groups@[i]@),
            |i: int| p.groups@[i]@.push(' ') + p.name@,
        ),
    decreases n,
{
    let keep = |i: int| groups.contains(p.groups@[i]@);
    let give = |i: int| p.groups@[i]@.push(' ') + p.name@;
    if n == 0 {
        picks::made_of_none(keep, give);
    } else {
        members_are_told_by_group(p, groups, n - 1);
        picks::made_of_one_more(query::member_lines(p, groups, n - 1), n - 1, keep, give);
        reveal_strlit(" ");
        let g = p.groups@[n - 1]@;
        assert(g + " "@ =~= g.push(' '));
        assert(keep(n - 1) == groups.contains(g));
        assert(give(n - 1) == g.push(' ') + p.name@);
    }
}

} // verus!
