//! The command line: what a call of the program asks for.
use crate::patterns;
use crate::resolver::ResolverEngine;
use crate::resolver;
use crate::strmap::StrMap;
use crate::text::{chars_of, contains_char, lines_of, list_contains, no_strings, parse_number, push_str, push_strs, starts_with, str_eq, sub_string, text3, trimmed};
use crate::text;
use vstd::prelude::*;
use vstd::string::*;

verus! {

// ---------------------------------------------------------------------------------------
// Options and targets

/// Options that are followed by a value of their own.
pub open spec fn takes_value(arg: Seq<char>) -> bool {
    ||| arg == "--ignore"@
    ||| arg == "--ignoregroup"@
    ||| arg == "--config"@
    ||| arg == "--cachedir"@
    ||| arg == "--root"@
    ||| arg == "-r"@
    ||| arg == "--dbpath"@
    ||| arg == "-b"@
    ||| arg == "--logfile"@
    ||| arg == "--gpgdir"@
    ||| arg == "--hookdir"@
    ||| arg == "--overwrite"@
    ||| arg == "--assume-installed"@
    ||| arg == "--color"@
    ||| arg == "--arch"@
    ||| arg == "--print-format"@
}

/// How many of the arguments from the `i`-th on belong to the option there: its value, where
/// it has one, is part of it.
pub open spec fn option_len(args: Seq<Seq<char>>, i: int) -> int {
    let more = i + 1 < args.len();
    if args[i] == "--wait"@ {
        if more && text::number(args[i + 1], u64::MAX as int) is Some {
            2
        } else {
            1
        }
    } else if takes_value(args[i]) && more {
        2
    } else {
        1
    }
}

/// An argument that begins an option.
pub open spec fn is_option(arg: Seq<char>) -> bool {
    arg == "--wait"@ || takes_value(arg) || text::begins(arg, "-"@)
}

/// The targets among the arguments from the `i`-th on: what is no option, and all that stands
/// behind a double hyphen.
pub open spec fn targets_from(args: Seq<Seq<char>>, i: int) -> Seq<Seq<char>>
    decreases args.len() - i,
{
    if i < 0 || i >= args.len() {
        Seq::empty()
    } else if args[i] == "--"@ {
        args.skip(i + 1)
    } else if is_option(args[i]) {
        targets_from(args, i + option_len(args, i))
    } else {
        seq![args[i]] + targets_from(args, i + 1)
    }
}

/// The options among the arguments from the `i`-th on, with their values.
pub open spec fn options_from(args: Seq<Seq<char>>, i: int) -> Seq<Seq<char>>
    decreases args.len() - i,
{
    if i < 0 || i >= args.len() {
        Seq::empty()
    } else if args[i] == "--"@ {
        Seq::empty()
    } else if is_option(args[i]) {
        args.subrange(i, i + option_len(args, i)) + options_from(args, i + option_len(args, i))
    } else {
        options_from(args, i + 1)
    }
}

pub open spec fn targets_of(args: Seq<Seq<char>>) -> Seq<Seq<char>> {
    targets_from(args, 0)
}

pub open spec fn options_of(args: Seq<Seq<char>>) -> Seq<Seq<char>> {
    options_from(args, 0)
}

fn has_value(arg: &str) -> (r: bool)
    ensures
        r == takes_value(arg@),
{
    str_eq(arg, "--ignore") || str_eq(arg, "--ignoregroup") || str_eq(arg, "--config") || str_eq(
        arg,
        "--cachedir",
    ) || str_eq(arg, "--root") || str_eq(arg, "-r") || str_eq(arg, "--dbpath") || str_eq(arg, "-b")
        || str_eq(arg, "--logfile") || str_eq(arg, "--gpgdir") || str_eq(arg, "--hookdir")
        || str_eq(arg, "--overwrite") || str_eq(arg, "--assume-installed") || str_eq(arg, "--color")
        || str_eq(arg, "--arch") || str_eq(arg, "--print-format")
}

fn option_size(args: &Vec<String>, i: usize) -> (r: usize)
    requires
        i < args@.len(),
    ensures
        r == option_len(text::texts(args@), i as int),
        i + r <= args@.len(),
        1 <= r <= 2,
{
    let ghost all = text::texts(args@);
    let n: usize = args.len();
    assert(all.len() == n);
    assert(all[i as int] == args@[i as int]@);
    let more: bool = i < n - 1;
    if more {
        assert(all[i + 1] == args@[i + 1]@);
    }
    if str_eq(&args[i], "--wait") {
        if more {
            match parse_number(&args[i + 1], u64::MAX) {
                Some(_n) => 2,
                None => 1,
            }
        } else {
            1
        }
    } else if has_value(&args[i]) && more {
        2
    } else {
        1
    }
}

pub fn rest_of(args: &Vec<String>, from: usize) -> (r: Vec<String>)
    requires
        from <= args@.len(),
    ensures
        text::texts(r@) == text::texts(args@).skip(from as int),
{
    part_of(args, from, args.len())
}

pub fn part_of(args: &Vec<String>, from: usize, to: usize) -> (r: Vec<String>)
    requires
        from <= to <= args@.len(),
    ensures
        text::texts(r@) == text::texts(args@).subrange(from as int, to as int),
        to == args@.len() ==> text::texts(r@) == text::texts(args@).skip(from as int),
{
    let ghost all = text::texts(args@);
    let mut out = no_strings();
    let mut i: usize = from;
    assert(text::texts(out@) =~= all.subrange(from as int, from as int));
    while i < to
        invariant
            from <= i <= to <= args@.len(),
            all == text::texts(args@),
            all.len() == args@.len(),
            text::texts(out@) == all.subrange(from as int, i as int),
        decreases to - i,
    {
        let ghost before = text::texts(out@);
        assert(all[i as int] == args@[i as int]@);
        push_str(&mut out, &args[i]);
        assert(text::texts(out@) =~= before.push(all[i as int]));
        i += 1;
        assert(text::texts(out@) =~= all.subrange(from as int, i as int));
    }
    assert(to == args@.len() ==> all.subrange(from as int, to as int) =~= all.skip(from as int));
    out
}

/// Tells the targets of a call from its options.
pub fn parse_pacman_cli_args(args: &Vec<String>) -> (r: (Vec<String>, Vec<String>))
    ensures
        text::texts(r.0@) == targets_of(text::texts(args@)),
        text::texts(r.1@) == options_of(text::texts(args@)),
{
    let ghost all = text::texts(args@);
    let mut targets = no_strings();
    let mut options = no_strings();
    let n: usize = args.len();
    let mut i: usize = 0;
    assert(text::texts(targets@) + targets_of(all) =~= targets_of(all));
    assert(text::texts(options@) + options_of(all) =~= options_of(all));
    while i < n
        invariant
            i <= n,
            n == args@.len(),
            all == text::texts(args@),
            all.len() == n,
            text::texts(targets@) + targets_from(all, i as int) == targets_of(all),
            text::texts(options@) + options_from(all, i as int) == options_of(all),
        decreases n - i,
    {
        assert(all[i as int] == args@[i as int]@);
        let ghost old_targets = text::texts(targets@);
        let ghost old_options = text::texts(options@);
        if str_eq(&args[i], "--") {
            let rest = rest_of(args, i + 1);
            push_strs(&mut targets, &rest);
            assert(old_options + Seq::<Seq<char>>::empty() =~= old_options);
            return (targets, options);
        }
        if str_eq(&args[i], "--wait") || has_value(&args[i]) || starts_with(&args[i], "-") {
            let k: usize = option_size(args, i);
            let part = part_of(args, i, i + k);
            push_strs(&mut options, &part);
            proof {
                let piece = all.subrange(i as int, i + k);
                let rest = options_from(all, i + k);
                assert(old_options + (piece + rest) =~= old_options + piece + rest);
            }
            i += k;
        } else {
            push_str(&mut targets, &args[i]);
            proof {
                let rest = targets_from(all, i + 1);
                assert(text::texts(targets@) =~= old_targets.push(all[i as int]));
                assert(old_targets + (seq![all[i as int]] + rest) =~= old_targets.push(
                    all[i as int],
                ) + rest);
            }
            i += 1;
        }
    }
    assert(text::texts(targets@) + Seq::<Seq<char>>::empty() =~= text::texts(targets@));
    assert(text::texts(options@) + Seq::<Seq<char>>::empty() =~= text::texts(options@));
    (targets, options)
}

/// Behind a double hyphen everything is a target, whatever it looks like.
pub proof fn double_hyphen_ends_options(after: Seq<Seq<char>>)
    ensures
        targets_of(seq!["--"@] + after) == after,
        options_of(seq!["--"@] + after).len() == 0,
{
    let args = seq!["--"@] + after;
    assert(args[0] == "--"@);
    assert(args.skip(1) =~= after);
}

// ---------------------------------------------------------------------------------------
// Flags

/// The short option `arg` holds the letter `c`.
pub open spec fn short_flag(arg: Seq<char>, c: char) -> bool {
    text::begins(arg, "-"@) && !text::begins(arg, "--"@) && arg.skip(1).contains(c)
}

pub open spec fn any_short(args: Seq<Seq<char>>, c: char) -> bool {
    exists|i: int| 0 <= i < args.len() && short_flag(#[trigger] args[i], c)
}

fn is_short_flag(arg: &str, c: char) -> (r: bool)
    ensures
        r == short_flag(arg@, c),
{
    if !starts_with(arg, "-") || starts_with(arg, "--") {
        return false;
    }
    let cs = chars_of(arg);
    proof {
        reveal_strlit("-");
    }
    let rest = sub_string(&cs, 1, cs.len());
    assert(rest@ =~= arg@.skip(1));
    contains_char(&rest, c)
}

pub fn has_short(args: &Vec<String>, c: char) -> (r: bool)
    ensures
        r == any_short(text::texts(args@), c),
{
    let ghost all = text::texts(args@);
    let mut i: usize = 0;
    while i < args.len()
        invariant
            i <= args@.len(),
            all == text::texts(args@),
            all.len() == args@.len(),
            forall|j: int| 0 <= j < i ==> !short_flag(#[trigger] all[j], c),
        decreases args@.len() - i,
    {
        assert(all[i as int] == args@[i as int]@);
        if is_short_flag(&args[i], c) {
            return true;
        }
        i += 1;
    }
    false
}

/// The letter stands in the first argument or among the options.
pub open spec fn flag_given(first: Seq<char>, options: Seq<Seq<char>>, c: char) -> bool {
    short_flag(first, c) || any_short(options, c)
}

/// Another operation on the sync databases than an upgrade.
pub open spec fn other_operation(first: Seq<char>, options: Seq<Seq<char>>) -> bool {
    ||| flag_given(first, options, 's')
    ||| flag_given(first, options, 'i')
    ||| flag_given(first, options, 'w')
    ||| flag_given(first, options, 'p')
    ||| flag_given(first, options, 'l')
    ||| flag_given(first, options, 'g')
    ||| flag_given(first, options, 'c') && !flag_given(first, options, 'u')
    ||| options.contains("--search"@)
    ||| options.contains("--info"@)
    ||| options.contains("--downloadonly"@)
    ||| options.contains("--print"@)
    ||| options.contains("--print-uris"@)
    ||| options.contains("--list"@)
    ||| options.contains("--groups"@)
}

/// The call asks for an upgrade of the whole system.
pub open spec fn asks_upgrade(args: Seq<Seq<char>>) -> bool {
    if args.len() == 0 {
        false
    } else if args[0] == "upgrade"@ || args[0] == "up"@ {
        true
    } else if !text::begins(args[0], "-S"@) {
        false
    } else {
        let options = options_of(args.skip(1));
        &&& targets_of(args.skip(1)).len() == 0
        &&& !other_operation(args[0], options)
        &&& (flag_given(args[0], options, 'u') || flag_given(args[0], options, 'y')
            || options.contains("--sysupgrade"@) || options.contains("--refresh"@))
    }
}

fn gives_flag(first: &str, options: &Vec<String>, c: char) -> (r: bool)
    ensures
        r == flag_given(first@, text::texts(options@), c),
{
    is_short_flag(first, c) || has_short(options, c)
}

fn is_other_operation(first: &str, options: &Vec<String>) -> (r: bool)
    ensures
        r == other_operation(first@, text::texts(options@)),
{
    gives_flag(first, options, 's') || gives_flag(first, options, 'i') || gives_flag(
        first,
        options,
        'w',
    ) || gives_flag(first, options, 'p') || gives_flag(first, options, 'l') || gives_flag(
        first,
        options,
        'g',
    ) || (gives_flag(first, options, 'c') && !gives_flag(first, options, 'u')) || list_contains(
        options,
        "--search",
    ) || list_contains(options, "--info") || list_contains(options, "--downloadonly")
        || list_contains(options, "--print") || list_contains(options, "--print-uris")
        || list_contains(options, "--list") || list_contains(options, "--groups")
}

/// Whether a call asks for an upgrade of the whole system.
pub fn is_upgrade_invocation(args: &Vec<String>) -> (r: bool)
    ensures
        r == asks_upgrade(text::texts(args@)),
{
    let ghost all = text::texts(args@);
    assert(all.len() == args@.len());
    if args.len() == 0 {
        return false;
    }
    assert(all[0] == args@[0]@);
    if str_eq(&args[0], "upgrade") || str_eq(&args[0], "up") {
        return true;
    }
    if !starts_with(&args[0], "-S") {
        return false;
    }
    let rest = rest_of(args, 1);
    let (targets, options) = parse_pacman_cli_args(&rest);
    assert(text::texts(targets@).len() == targets@.len());
    if targets.len() > 0 {
        return false;
    }
    if is_other_operation(&args[0], &options) {
        return false;
    }
    gives_flag(&args[0], &options, 'u') || gives_flag(&args[0], &options, 'y') || list_contains(
        &options,
        "--sysupgrade",
    ) || list_contains(&options, "--refresh")
}

/// A query of the file database that refreshes it first, and so needs more rights.
pub open spec fn refreshes_files(args: Seq<Seq<char>>) -> bool {
    options_of(args).contains("--refresh"@) || any_short(options_of(args), 'y')
}

pub fn pacman_files_needs_sudo(args: &Vec<String>) -> (r: bool)
    ensures
        r == refreshes_files(text::texts(args@)),
{
    let (_targets, options) = parse_pacman_cli_args(args);
    list_contains(&options, "--refresh") || has_short(&options, 'y')
}

/// A call with a target is no upgrade of the whole system.
pub proof fn targets_are_no_upgrade(args: Seq<Seq<char>>)
    requires
        args.len() > 0,
        text::begins(args[0], "-S"@),
        targets_of(args.skip(1)).len() > 0,
        args[0] != "upgrade"@,
        args[0] != "up"@,
    ensures
        !asks_upgrade(args),
{
}

// ---------------------------------------------------------------------------------------
// Pins

/// The rule that a package is pinned by: its pattern, its repository, and whether it names the
/// package itself.
pub fn find_matching_pin(pkg: &str, pins: &StrMap<String>) -> (r: Option<(String, String, bool)>)
    ensures
        match r {
            Some((rule, repo, exact)) => resolver::pin_rule(
                pkg@,
                pins@,
                resolver::valued(patterns::glob_rules(pins@)),
            ) == Some((rule@, repo@, exact)),
            None => resolver::pin_rule(pkg@, pins@, resolver::valued(patterns::glob_rules(pins@))) is None,
        },
{
    let globs = ResolverEngine::compile_glob_pins(pins);
    ResolverEngine::find_matching_pin_rule(pkg, pins, &globs)
}

/// What has been read of a file.
#[derive(Debug, Clone)]
pub enum FileText {
    Content(String),
    /// It could not be read, for this reason.
    Failed(String),
}

/// The patterns in a list: one on each line, without blank lines and comments.
pub open spec fn listed_upto(ls: Seq<Seq<char>>, n: int) -> Seq<Seq<char>>
    decreases n,
{
    if n <= 0 {
        Seq::empty()
    } else {
        let t = text::trim(ls[n - 1]);
        if t.len() > 0 && !text::begins(t, "#"@) {
            listed_upto(ls, n - 1).push(t)
        } else {
            listed_upto(ls, n - 1)
        }
    }
}

pub open spec fn listed_patterns(content: Seq<char>) -> Seq<Seq<char>> {
    listed_upto(text::lines(content), text::lines(content).len() as int)
}

fn patterns_in(content: &str) -> (r: Vec<String>)
    ensures
        text::texts(r@) == listed_patterns(content@),
{
    let ls = lines_of(content);
    let ghost all = text::texts(ls@);
    let mut out = no_strings();
    let mut i: usize = 0;
    while i < ls.len()
        invariant
            i <= ls@.len(),
            all == text::texts(ls@),
            text::texts(out@) == listed_upto(all, i as int),
        decreases ls@.len() - i,
    {
        assert(all[i as int] == ls@[i as int]@);
        let t = trimmed(&ls[i]);
        if !t.as_str().is_empty() && !starts_with(&t, "#") {
            let ghost before = text::texts(out@);
            push_str(&mut out, &t);
            assert(text::texts(out@) =~= before.push(t@));
        }
        i += 1;
    }
    out
}

pub open spec fn is_file_flag(arg: Seq<char>) -> bool {
    arg == "-f"@ || arg == "--file"@
}

/// The positional arguments from the `i`-th on.
pub open spec fn positional_from(args: Seq<Seq<char>>, i: int) -> Seq<Seq<char>>
    decreases args.len() - i,
{
    if i < 0 || i >= args.len() {
        Seq::empty()
    } else if is_file_flag(args[i]) {
        if i + 1 < args.len() {
            positional_from(args, i + 2)
        } else {
            Seq::empty()
        }
    } else {
        seq![args[i]] + positional_from(args, i + 1)
    }
}

/// The patterns out of the files that are named from the `i`-th argument on, the first of
/// which is the `k`-th file; or the error.
pub open spec fn file_patterns_from(
    args: Seq<Seq<char>>,
    files: Seq<FileText>,
    i: int,
    k: int,
) -> Result<Seq<Seq<char>>, Seq<char>>
    decreases args.len() - i,
{
    if i < 0 || i >= args.len() {
        Ok(Seq::empty())
    } else if is_file_flag(args[i]) {
        if i + 1 >= args.len() {
            Err("'-f/--file' requires a file path."@)
        } else {
            match files[k] {
                FileText::Failed(e) => Err(
                    "Error reading package list file '"@ + args[i + 1] + "': "@ + e@,
                ),
                FileText::Content(c) => match file_patterns_from(args, files, i + 2, k + 1) {
                    Ok(more) => Ok(listed_patterns(c@) + more),
                    Err(e) => Err(e),
                },
            }
        }
    } else {
        file_patterns_from(args, files, i + 1, k)
    }
}

/// The files that are named from the `i`-th argument on.
pub open spec fn files_from(args: Seq<Seq<char>>, i: int) -> Seq<Seq<char>>
    decreases args.len() - i,
{
    if i < 0 || i >= args.len() {
        Seq::empty()
    } else if is_file_flag(args[i]) {
        if i + 1 < args.len() {
            seq![args[i + 1]] + files_from(args, i + 2)
        } else {
            Seq::empty()
        }
    } else {
        files_from(args, i + 1)
    }
}

/// The repository and the patterns to pin to it: the repository may come first or last.
pub open spec fn pin_request(
    positional: Seq<Seq<char>>,
    listed: Seq<Seq<char>>,
    known: Seq<Seq<char>>,
) -> Result<(Seq<char>, Seq<Seq<char>>), Seq<char>> {
    let n = positional.len() as int;
    if n == 0 {
        Err("'pacpin pin' requires a repository name."@)
    } else if n == 1 {
        if listed.len() == 0 {
            Err("'pacpin pin' requires both a repository and at least one package."@)
        } else {
            Ok((positional[0], listed))
        }
    } else if known.contains(positional[n - 1]) && !known.contains(positional[0]) {
        Ok((positional[n - 1], positional.take(n - 1) + listed))
    } else {
        Ok((positional[0], positional.skip(1) + listed))
    }
}

/// The files that are named, in order.
pub fn pin_files(args: &Vec<String>) -> (r: Vec<String>)
    ensures
        text::texts(r@) == files_from(text::texts(args@), 0),
{
    let ghost all = text::texts(args@);
    let n: usize = args.len();
    let mut out = no_strings();
    let mut i: usize = 0;
    assert(text::texts(out@) + files_from(all, 0) =~= files_from(all, 0));
    while i < n
        invariant
            i <= n,
            n == args@.len(),
            all == text::texts(args@),
            all.len() == n,
            text::texts(out@) + files_from(all, i as int) == files_from(all, 0),
        decreases n - i,
    {
        assert(all[i as int] == args@[i as int]@);
        if str_eq(&args[i], "-f") || str_eq(&args[i], "--file") {
            if i >= n - 1 {
                assert(text::texts(out@) + Seq::<Seq<char>>::empty() =~= text::texts(out@));
                return out;
            }
            let ghost before = text::texts(out@);
            assert(all[i + 1] == args@[i + 1]@);
            push_str(&mut out, &args[i + 1]);
            proof {
                let rest = files_from(all, i + 2);
                assert(text::texts(out@) =~= before.push(all[i + 1]));
                assert(before + (seq![all[i + 1]] + rest) =~= before.push(all[i + 1]) + rest);
            }
            i += 2;
        } else {
            i += 1;
        }
    }
    assert(text::texts(out@) + Seq::<Seq<char>>::empty() =~= text::texts(out@));
    out
}

/// The repository and the patterns that a call wants to pin. `files` are the contents of the
/// files that it names, in order.
pub fn parse_pin_args(pin_args: &Vec<String>, known_repos: &Vec<String>, files: &Vec<FileText>) -> (r:
    Result<(String, Vec<String>), String>)
    requires
        files@.len() == files_from(text::texts(pin_args@), 0).len(),
    ensures
        match file_patterns_from(text::texts(pin_args@), files@, 0, 0) {
            Err(e) => r is Err && r->Err_0@ == e,
            Ok(listed) => match pin_request(
                positional_from(text::texts(pin_args@), 0),
                listed,
                text::texts(known_repos@),
            ) {
                Err(e) => r is Err && r->Err_0@ == e,
                Ok((repo, patterns)) => r is Ok && r->Ok_0.0@ == repo && text::texts(r->Ok_0.1@)
                    == patterns,
            },
        },
{
    let ghost all = text::texts(pin_args@);
    let n: usize = pin_args.len();
    let total: usize = files.len();
    let mut listed = no_strings();
    let mut positional = no_strings();
    let mut i: usize = 0;
    let mut k: usize = 0;
    assert(text::texts(positional@) + positional_from(all, 0) =~= positional_from(all, 0));
    proof {
        match file_patterns_from(all, files@, 0, 0) {
            Ok(more) => {
                assert(text::texts(listed@) + more =~= more);
            },
            Err(_) => {},
        }
    }
    while i < n
        invariant
            i <= n,
            n == pin_args@.len(),
            total == files@.len(),
            all == text::texts(pin_args@),
            all.len() == n,
            files@.len() == files_from(all, 0).len(),
            k + files_from(all, i as int).len() == files_from(all, 0).len(),
            text::texts(positional@) + positional_from(all, i as int) == positional_from(all, 0),
            match file_patterns_from(all, files@, i as int, k as int) {
                Ok(more) => file_patterns_from(all, files@, 0, 0) == Ok::<
                    Seq<Seq<char>>,
                    Seq<char>,
                >(text::texts(listed@) + more),
                Err(e) => file_patterns_from(all, files@, 0, 0) == Err::<
                    Seq<Seq<char>>,
                    Seq<char>,
                >(e),
            },
        decreases n - i,
    {
        assert(all[i as int] == pin_args@[i as int]@);
        if str_eq(&pin_args[i], "-f") || str_eq(&pin_args[i], "--file") {
            if i >= n - 1 {
                return Err("'-f/--file' requires a file path.".to_string());
            }
            assert(all[i + 1] == pin_args@[i + 1]@);
            match &files[k] {
                FileText::Failed(e) => {
                    let mut m = text3(
                        "Error reading package list file '",
                        &pin_args[i + 1],
                        "': ",
                    );
                    m.append(e);
                    return Err(m);
                },
                FileText::Content(c) => {
                    let more = patterns_in(c);
                    let ghost before = text::texts(listed@);
                    push_strs(&mut listed, &more);
                    proof {
                        match file_patterns_from(all, files@, i + 2, k + 1) {
                            Ok(tail) => {
                                let piece = listed_patterns(c@);
                                assert(before + (piece + tail) =~= before + piece + tail);
                            },
                            Err(_) => {},
                        }
                    }
                },
            }
            assert(k < total);
            k += 1;
            i += 2;
        } else {
            let ghost before = text::texts(positional@);
            push_str(&mut positional, &pin_args[i]);
            proof {
                let rest = positional_from(all, i + 1);
                assert(text::texts(positional@) =~= before.push(all[i as int]));
                assert(before + (seq![all[i as int]] + rest) =~= before.push(all[i as int]) + rest);
            }
            i += 1;
        }
    }
    assert(text::texts(positional@) + Seq::<Seq<char>>::empty() =~= text::texts(positional@));
    assert(text::texts(listed@) + Seq::<Seq<char>>::empty() =~= text::texts(listed@));
    settle_pin_args(&positional, listed, known_repos)
}

fn settle_pin_args(positional: &Vec<String>, listed: Vec<String>, known_repos: &Vec<String>) -> (r:
    Result<(String, Vec<String>), String>)
    ensures
        match pin_request(text::texts(positional@), text::texts(listed@), text::texts(known_repos@)) {
            Err(e) => r is Err && r->Err_0@ == e,
            Ok((repo, patterns)) => r is Ok && r->Ok_0.0@ == repo && text::texts(r->Ok_0.1@) == patterns,
        },
{
    let n: usize = positional.len();
    let ghost all = text::texts(positional@);
    assert(all.len() == n);
    assert(text::texts(listed@).len() == listed@.len());
    if n == 0 {
        return Err("'pacpin pin' requires a repository name.".to_string());
    }
    assert(all[0] == positional@[0]@);
    assert(all[n - 1] == positional@[n - 1]@);
    if n == 1 {
        if listed.len() == 0 {
            return Err(
                "'pacpin pin' requires both a repository and at least one package.".to_string(),
            );
        }
        return Ok((positional[0].clone(), listed));
    }
    if list_contains(known_repos, &positional[n - 1]) && !list_contains(
        known_repos,
        &positional[0],
    ) {
        let mut patterns = part_of(positional, 0, n - 1);
        assert(all.subrange(0, n - 1) =~= all.take(n - 1));
        push_strs(&mut patterns, &listed);
        Ok((positional[n - 1].clone(), patterns))
    } else {
        let mut patterns = rest_of(positional, 1);
        push_strs(&mut patterns, &listed);
        Ok((positional[0].clone(), patterns))
    }
}

/// The repository may be named first or last: where only one of two names is a repository,
/// both orders mean the same.
pub proof fn pin_order_does_not_matter(repo: Seq<char>, pattern: Seq<char>, known: Seq<Seq<char>>)
    requires
        known.contains(repo),
        !known.contains(pattern),
    ensures
        pin_request(seq![repo, pattern], Seq::empty(), known) == pin_request(
            seq![pattern, repo],
            Seq::empty(),
            known,
        ),
        pin_request(seq![repo, pattern], Seq::empty(), known) == Ok::<
            (Seq<char>, Seq<Seq<char>>),
            Seq<char>,
        >((repo, seq![pattern])),
{
    let none = Seq::<Seq<char>>::empty();
    assert(seq![repo, pattern].skip(1) + none =~= seq![pattern]);
    assert(seq![pattern, repo].take(1) + none =~= seq![pattern]);
}

} // verus!
