//! What is promised of the command line: what each command is taken for, and how its words
//! are told apart.
use crate::cli::FileText;
use crate::cli;
use crate::dispatch::{ActionView, Incomplete, TryCall};
use crate::dispatch;
use crate::picks;
use crate::sandbox::TryView;
use crate::text;
use vstd::prelude::*;
use vstd::string::*;

verus! {

// ---------------------------------------------------------------------------------------
// Commands

/// A letter of a word.
spec fn letter(c: Seq<char>, k: int) -> char {
    c[k]
}

proof fn plain_word_is_no_option(c: Seq<char>)
    requires
        c.len() > 0,
        c[0] != '-',
    ensures
        !text::begins(c, "-S"@),
        !text::begins(c, "-Sw"@),
        !text::begins(c, "-Q"@),
        !text::begins(c, "-T"@),
        !text::begins(c, "-R"@),
        !text::begins(c, "-F"@),
        !text::begins(c, "-U"@),
        !text::begins(c, "-D"@),
        !text::begins(c, "-"@),
{
    reveal_strlit("-S");
    reveal_strlit("-Sw");
    reveal_strlit("-Q");
    reveal_strlit("-T");
    reveal_strlit("-R");
    reveal_strlit("-F");
    reveal_strlit("-U");
    reveal_strlit("-D");
    reveal_strlit("-");
    assert(c.take(1)[0] == c[0]);
    if c.len() >= 2 {
        assert(c.take(2)[0] == c[0]);
    }
    if c.len() >= 3 {
        assert(c.take(3)[0] == c[0]);
    }
}

proof fn own_words_are_no_others(c: Seq<char>)
    requires
        ({
            ||| c == "history"@ || c == "rollback"@ || c == "run"@ || c == "try"@
            ||| c == "needrestart"@ || c == "restart-check"@ || c == "delay"@ || c == "undelay"@
            ||| c == "list"@ || c == "orphans"@ || c == "autoremove"@ || c == "keep"@ || c == "adopt"@
            ||| c == "pin"@ || c == "add-pin"@ || c == "add-pins"@ || c == "unpin"@
        }),
    ensures
        forall|args: Seq<Seq<char>>|
            args.len() > 0 && args[0] == c ==> #[trigger] dispatch::action_of(args)
                == dispatch::own_action(args),
{
    reveal_strlit("-v");
    reveal_strlit("-V");
    reveal_strlit("--version");
    reveal_strlit("-h");
    reveal_strlit("--help");
    reveal_strlit("help");
    reveal_strlit("reset");
    reveal_strlit("config-reset");
    reveal_strlit("config");
    reveal_strlit("init");
    reveal_strlit("setup");
    reveal_strlit("repos");
    reveal_strlit("repo-order");
    reveal_strlit("priority");
    reveal_strlit("check");
    reveal_strlit("upgrade");
    reveal_strlit("up");
    reveal_strlit("search");
    reveal_strlit("info");
    reveal_strlit("clean");
    reveal_strlit("clean-cache");
    reveal_strlit("-Sc");
    reveal_strlit("-Scc");
    reveal_strlit("-Sw");
    reveal_strlit("-S");
    reveal_strlit("-T");
    reveal_strlit("-Q");
    reveal_strlit("-R");
    reveal_strlit("-F");
    reveal_strlit("-U");
    reveal_strlit("-D");
    reveal_strlit("install");
    reveal_strlit("remove");
    reveal_strlit("rm");
    reveal_strlit("history");
    reveal_strlit("rollback");
    reveal_strlit("run");
    reveal_strlit("try");
    reveal_strlit("needrestart");
    reveal_strlit("restart-check");
    reveal_strlit("delay");
    reveal_strlit("undelay");
    reveal_strlit("list");
    reveal_strlit("orphans");
    reveal_strlit("autoremove");
    reveal_strlit("keep");
    reveal_strlit("adopt");
    reveal_strlit("pin");
    reveal_strlit("add-pin");
    reveal_strlit("add-pins");
    reveal_strlit("unpin");
    reveal_strlit("-");
    assert(letter(c, 0) == c[0] && letter(c, 1) == c[1] && letter(c, 2) == c[2]);
    plain_word_is_no_option(c);
    assert forall|args: Seq<Seq<char>>| args.len() > 0 && args[0] == c implies #[trigger] dispatch::action_of(
        args,
    ) == dispatch::own_action(args) by {
        assert(dispatch::early_action(args) is None);
        assert(!cli::asks_upgrade(args));
        assert(dispatch::manager_action(args) is None);
    }
}

/// A rollback is of the last number that is given, if any; it is shown only, is partial, or
/// goes without a question, exactly where that is asked for.
pub proof fn rollback_is_asked_for(args: Seq<Seq<char>>)
    requires
        args.len() > 0,
        args[0] == "rollback"@,
    ensures
        dispatch::action_of(args) matches ActionView::Rollback { id, dry_run, allow_partial, noconfirm }
            && {
            &&& dry_run <==> args.contains("-n"@) || args.contains("--dry-run"@)
            &&& allow_partial <==> args.contains("--allow-partial"@) || args.contains("--partial"@)
                || args.contains("-f"@) || args.contains("--force"@)
            &&& noconfirm <==> args.contains("--noconfirm"@)
            &&& match id {
                Some(n) => exists|k: int|
                    1 <= k < args.len() && text::number(#[trigger] args[k], usize::MAX as int) == Some(
                        n as int,
                    ) && forall|j: int|
                        k < j < args.len() ==> text::number(#[trigger] args[j], usize::MAX as int) is None,
                None => forall|k: int|
                    1 <= k < args.len() ==> text::number(#[trigger] args[k], usize::MAX as int) is None,
            }
        },
{
    reveal_strlit("history");
    reveal_strlit("rollback");
    own_words_are_no_others(args[0]);
    last_number_is_last(args, args.len() as int);
}

proof fn last_number_is_last(args: Seq<Seq<char>>, n: int)
    requires
        0 <= n <= args.len(),
    ensures
        match dispatch::last_number(args, n) {
            Some(v) => 0 <= v <= usize::MAX && exists|k: int|
                1 <= k < n && text::number(#[trigger] args[k], usize::MAX as int) == Some(v) && forall|
                    j: int,
                |
                    k < j < n ==> text::number(#[trigger] args[j], usize::MAX as int) is None,
            None => forall|k: int|
                1 <= k < n ==> text::number(#[trigger] args[k], usize::MAX as int) is None,
        },
    decreases n,
{
    if n > 1 {
        last_number_is_last(args, n - 1);
        match text::number(args[n - 1], usize::MAX as int) {
            Some(v) => {
                text_number_bounds(args[n - 1]);
            },
            None => {
                if dispatch::last_number(args, n - 1) is Some {
                    let v = dispatch::last_number(args, n - 1)->0;
                    let k = choose|k: int|
                        1 <= k < n - 1 && text::number(#[trigger] args[k], usize::MAX as int) == Some(v)
                            && forall|j: int|
                            k < j < n - 1 ==> text::number(#[trigger] args[j], usize::MAX as int) is None;
                    assert(text::number(args[k], usize::MAX as int) == Some(v));
                }
            },
        }
    }
}

proof fn text_number_bounds(s: Seq<char>)
    ensures
        text::number(s, usize::MAX as int) matches Some(v) ==> 0 <= v <= usize::MAX,
{
    if text::number(s, usize::MAX as int) is Some {
        decimal_not_negative(text::unsigned_part(s));
    }
}

proof fn decimal_not_negative(d: Seq<char>)
    requires
        text::all_digits(d),
    ensures
        text::decimal(d) >= 0,
    decreases d.len(),
{
    if d.len() > 0 {
        assert forall|i: int| 0 <= i < d.drop_last().len() implies text::is_digit(
            #[trigger] d.drop_last()[i],
        ) by {
            assert(d.drop_last()[i] == d[i]);
        }
        decimal_not_negative(d.drop_last());
        assert(text::is_digit(d[d.len() - 1]));
    }
}

/// The commands of the program itself, by their first word.
pub proof fn own_commands(args: Seq<Seq<char>>)
    requires
        args.len() > 0,
    ensures
        ({
            let c = args[0];
            let a = dispatch::action_of(args);
            &&& c == "run"@ ==> a == ActionView::Run(args)
            &&& c == "try"@ ==> a == ActionView::Try(args)
            &&& c == "needrestart"@ || c == "restart-check"@ ==> a == ActionView::NeedRestart
            &&& c == "list"@ ==> a == ActionView::List
            &&& c == "pin"@ || c == "add-pin"@ || c == "add-pins"@ ==> a == ActionView::Pin(args.skip(1))
            &&& c == "history"@ ==> a is History
            &&& c == "history"@ && args.len() == 1 ==> a == ActionView::History(None)
            &&& c == "autoremove"@ ==> (a matches ActionView::Orphans { clean, noconfirm } && clean
                && noconfirm == args.contains("--noconfirm"@))
            &&& c == "orphans"@ ==> (a matches ActionView::Orphans { clean, noconfirm } && clean == (
            args.contains("-c"@) || args.contains("--clean"@)) && noconfirm == args.contains(
                "--noconfirm"@,
            ))
        }),
{
    let c = args[0];
    reveal_strlit("history");
    reveal_strlit("rollback");
    reveal_strlit("run");
    reveal_strlit("try");
    reveal_strlit("needrestart");
    reveal_strlit("restart-check");
    reveal_strlit("delay");
    reveal_strlit("undelay");
    reveal_strlit("list");
    reveal_strlit("orphans");
    reveal_strlit("autoremove");
    reveal_strlit("keep");
    reveal_strlit("adopt");
    reveal_strlit("pin");
    reveal_strlit("add-pin");
    reveal_strlit("add-pins");
    reveal_strlit("unpin");
    assert(letter(c, 0) == c[0] && letter(c, 1) == c[1] && letter(c, 2) == c[2]);
    if c == "run"@ || c == "try"@ || c == "needrestart"@ || c == "restart-check"@ || c == "list"@ || c
        == "pin"@ || c == "add-pin"@ || c == "add-pins"@ || c == "history"@ || c == "autoremove"@ || c
        == "orphans"@ {
        own_words_are_no_others(c);
    }
}

/// A rule needs its words: a delay a package and a number of days, the others a name; where
/// they are missing that is told.
pub proof fn rules_need_their_words(args: Seq<Seq<char>>)
    requires
        args.len() > 0,
    ensures
        ({
            let c = args[0];
            let a = dispatch::action_of(args);
            &&& c == "delay"@ ==> match a {
                ActionView::Delay { pkg, days } => args.len() >= 3 && pkg == args[1] && text::number(
                    args[2],
                    u32::MAX as int,
                ) == Some(days as int),
                _ => a == ActionView::Incomplete(Incomplete::Delay) && (args.len() < 3 || text::number(
                    args[2],
                    u32::MAX as int,
                ) is None),
            }
            &&& c == "undelay"@ && args.len() >= 2 ==> a == ActionView::Undelay(args[1])
            &&& c == "undelay"@ && args.len() == 1 ==> a == ActionView::Incomplete(Incomplete::Undelay)
            &&& (c == "keep"@ || c == "adopt"@) && args.len() >= 2 ==> a == ActionView::Keep(args.skip(1))
            &&& (c == "keep"@ || c == "adopt"@) && args.len() == 1 ==> a == ActionView::Incomplete(
                Incomplete::Keep,
            )
            &&& c == "unpin"@ && args.len() >= 2 ==> a == ActionView::Unpin(args[1])
            &&& c == "unpin"@ && args.len() == 1 ==> a == ActionView::Incomplete(Incomplete::Unpin)
        }),
{
    let c = args[0];
    reveal_strlit("history");
    reveal_strlit("rollback");
    reveal_strlit("run");
    reveal_strlit("try");
    reveal_strlit("needrestart");
    reveal_strlit("restart-check");
    reveal_strlit("delay");
    reveal_strlit("undelay");
    reveal_strlit("list");
    reveal_strlit("orphans");
    reveal_strlit("autoremove");
    reveal_strlit("keep");
    reveal_strlit("adopt");
    reveal_strlit("pin");
    reveal_strlit("add-pin");
    reveal_strlit("add-pins");
    reveal_strlit("unpin");
    assert(letter(c, 0) == c[0] && letter(c, 1) == c[1] && letter(c, 2) == c[2]);
    if c == "delay"@ || c == "undelay"@ || c == "keep"@ || c == "adopt"@ || c == "unpin"@ {
        own_words_are_no_others(c);
        if c == "delay"@ && args.len() >= 3 && text::number(args[2], u32::MAX as int) is Some {
            decimal_not_negative(text::unsigned_part(args[2]));
        }
    }
}

/// Without a word, help is shown; the version, help, setup and reset come before all else.
pub proof fn early_commands(args: Seq<Seq<char>>)
    ensures
        args.len() == 0 ==> dispatch::action_of(args) == ActionView::Help,
        args.len() > 0 ==> ({
            let c = args[0];
            let a = dispatch::action_of(args);
            &&& c == "--version"@ || c == "-V"@ || c == "-v"@ ==> a == ActionView::Version
            &&& c == "--help"@ || c == "-h"@ || c == "help"@ ==> a == ActionView::Help
            &&& c == "init"@ || c == "setup"@ ==> (a matches ActionView::Init { reset } && reset == (
            args.contains("-r"@) || args.contains("--reset"@)))
            &&& c == "reset"@ || c == "config-reset"@ ==> (a matches ActionView::Reset { force, noconfirm }
                && force == (args.contains("-f"@) || args.contains("--force"@) || args.contains("-y"@))
                && noconfirm == args.contains("--noconfirm"@))
        }),
{
    reveal_strlit("-v");
    reveal_strlit("-V");
    reveal_strlit("--version");
    reveal_strlit("-h");
    reveal_strlit("--help");
    reveal_strlit("help");
    reveal_strlit("reset");
    reveal_strlit("config-reset");
    reveal_strlit("config");
    reveal_strlit("init");
    reveal_strlit("setup");
    let c = args[0];
    assert(letter(c, 0) == c[0] && letter(c, 1) == c[1] && letter(c, 2) == c[2]);
}

/// The words for an upgrade, an installation and a removal.
pub proof fn package_commands(args: Seq<Seq<char>>)
    requires
        args.len() > 0,
    ensures
        ({
            let c = args[0];
            let a = dispatch::action_of(args);
            let tail = args.skip(1);
            &&& c == "upgrade"@ || c == "up"@ ==> (a matches ActionView::Upgrade {
                flags,
                dry_run,
                refresh,
                noconfirm,
                autoremove,
            } && flags == cli::options_of(tail) && dry_run == (args.contains("--dry-run"@)
                || cli::any_short(args, 'n')) && refresh == (args.contains("--refresh"@)
                || cli::any_short(args, 'y')) && noconfirm == args.contains("--noconfirm"@)
                && autoremove == (args.contains("--clean"@) || args.contains("--autoremove"@)
                || cli::any_short(args, 'c')))
            &&& c == "install"@ ==> (a matches ActionView::Install { targets, flags } && targets
                == cli::targets_of(tail) && flags == cli::options_of(tail))
            &&& c == "remove"@ || c == "rm"@ ==> a == (ActionView::Remove { args: tail, friendly: true })
            &&& text::begins(c, "-R"@) ==> a == (ActionView::Remove { args, friendly: false })
            &&& c == "search"@ ==> a == ActionView::Search(tail)
            &&& c == "info"@ ==> a == ActionView::Info(tail)
        }),
{
    let c = args[0];
    let tail = args.skip(1);
    reveal_strlit("-v");
    reveal_strlit("-V");
    reveal_strlit("--version");
    reveal_strlit("-h");
    reveal_strlit("--help");
    reveal_strlit("help");
    reveal_strlit("reset");
    reveal_strlit("config-reset");
    reveal_strlit("config");
    reveal_strlit("init");
    reveal_strlit("setup");
    reveal_strlit("repos");
    reveal_strlit("repo-order");
    reveal_strlit("priority");
    reveal_strlit("check");
    reveal_strlit("upgrade");
    reveal_strlit("up");
    reveal_strlit("search");
    reveal_strlit("info");
    reveal_strlit("clean");
    reveal_strlit("clean-cache");
    reveal_strlit("-Sc");
    reveal_strlit("-Scc");
    reveal_strlit("-Sw");
    reveal_strlit("-S");
    reveal_strlit("-T");
    reveal_strlit("-Q");
    reveal_strlit("-R");
    reveal_strlit("-F");
    reveal_strlit("-U");
    reveal_strlit("-D");
    reveal_strlit("install");
    reveal_strlit("remove");
    reveal_strlit("rm");
    reveal_strlit("history");
    reveal_strlit("rollback");
    reveal_strlit("run");
    reveal_strlit("try");
    reveal_strlit("needrestart");
    reveal_strlit("restart-check");
    reveal_strlit("delay");
    reveal_strlit("undelay");
    reveal_strlit("list");
    reveal_strlit("orphans");
    reveal_strlit("autoremove");
    reveal_strlit("keep");
    reveal_strlit("adopt");
    reveal_strlit("pin");
    reveal_strlit("add-pin");
    reveal_strlit("add-pins");
    reveal_strlit("unpin");
    reveal_strlit("-");
    assert(letter(c, 0) == c[0] && letter(c, 1) == c[1] && letter(c, 2) == c[2]);
    assert(cli::options_of(tail) + Seq::<Seq<char>>::empty() =~= cli::options_of(tail));
    if c == "upgrade"@ || c == "up"@ || c == "install"@ || c == "remove"@ || c == "rm"@ || c == "search"@
        || c == "info"@ {
        plain_word_is_no_option(c);
        assert(dispatch::early_action(args) is None);
    }
    if text::begins(c, "-R"@) {
        assert(c.take(2)[0] == c[0] && c.take(2)[1] == c[1]);
        if c.len() >= 3 {
            assert(c.take(3)[1] == c[1]);
        }
        assert(dispatch::early_action(args) is None);
    }
}

/// A word that is no command is told to be unknown; an option that is none of its own is left
/// to the helper.
pub proof fn others_are_left_to_the_helper(args: Seq<Seq<char>>)
    requires
        args.len() > 0,
    ensures
        dispatch::action_of(args) matches ActionView::Unknown(c) ==> c == args[0] && !text::begins(
            args[0],
            "-"@,
        ),
        dispatch::action_of(args) is Helper ==> text::begins(args[0], "-"@),
{
}

// ---------------------------------------------------------------------------------------
// Targets and options

/// Without an option and without a double hyphen all words are targets.
pub proof fn plain_words_are_targets(args: Seq<Seq<char>>, i: int)
    requires
        0 <= i <= args.len(),
        forall|k: int|
            0 <= k < args.len() ==> (#[trigger] args[k]).len() == 0 || args[k][0] != '-',
    ensures
        cli::targets_from(args, i) == args.skip(i),
        cli::options_from(args, i).len() == 0,
    decreases args.len() - i,
{
    if i < args.len() {
        plain_words_are_targets(args, i + 1);
        hyphens(args[i]);
        assert(seq![args[i]] + args.skip(i + 1) =~= args.skip(i));
    } else {
        assert(args.skip(i) =~= Seq::empty());
    }
}

proof fn hyphens(a: Seq<char>)
    ensures
        cli::is_option(a) ==> a.len() > 0 && a[0] == '-',
        a.len() > 0 && a[0] == '-' ==> cli::is_option(a),
        a == "--"@ ==> a.len() > 0 && a[0] == '-',
{
    reveal_strlit("-");
    reveal_strlit("--");
    reveal_strlit("--wait");
    reveal_strlit("--ignore");
    reveal_strlit("--ignoregroup");
    reveal_strlit("--config");
    reveal_strlit("--cachedir");
    reveal_strlit("--root");
    reveal_strlit("-r");
    reveal_strlit("--dbpath");
    reveal_strlit("-b");
    reveal_strlit("--logfile");
    reveal_strlit("--gpgdir");
    reveal_strlit("--hookdir");
    reveal_strlit("--overwrite");
    reveal_strlit("--assume-installed");
    reveal_strlit("--color");
    reveal_strlit("--arch");
    reveal_strlit("--print-format");
    if a.len() > 0 {
        assert(a.take(1)[0] == a[0]);
        if a[0] == '-' {
            assert(a.take(1) =~= "-"@);
        }
    }
}

/// No word is lost: each is a target or belongs to an option, but for a double hyphen.
pub proof fn no_word_is_lost(args: Seq<Seq<char>>, i: int)
    requires
        0 <= i <= args.len(),
    ensures
        cli::targets_from(args, i).len() + cli::options_from(args, i).len() == args.len() - i || (
        cli::targets_from(args, i).len() + cli::options_from(args, i).len() == args.len() - i - 1
            && exists|k: int| i <= k < args.len() && #[trigger] args[k] == "--"@),
        forall|x: Seq<char>|
            #[trigger] cli::targets_from(args, i).contains(x) ==> args.contains(x),
    decreases args.len() - i,
{
    if i < args.len() {
        if args[i] == "--"@ {
            let rest = args.skip(i + 1);
            assert forall|x: Seq<char>| #[trigger] cli::targets_from(args, i).contains(x) implies args.contains(
                x,
            ) by {
                let k = choose|k: int| 0 <= k < rest.len() && rest[k] == x;
                assert(args[i + 1 + k] == x);
            }
            assert(args[i] == "--"@);
        } else if cli::is_option(args[i]) {
            no_word_is_lost(args, i + cli::option_len(args, i));
        } else {
            no_word_is_lost(args, i + 1);
            let more = cli::targets_from(args, i + 1);
            assert forall|x: Seq<char>| #[trigger] cli::targets_from(args, i).contains(x) implies args.contains(
                x,
            ) by {
                let t = cli::targets_from(args, i);
                let k = choose|k: int| 0 <= k < t.len() && t[k] == x;
                if k == 0 {
                    assert(args[i] == x);
                } else {
                    assert(more[k - 1] == x);
                    assert(more.contains(x));
                }
            }
        }
    }
}

/// An option that takes a value takes the word behind it along, whatever that is.
pub proof fn option_takes_its_value(arg: Seq<char>, value: Seq<char>, rest: Seq<Seq<char>>)
    requires
        cli::takes_value(arg),
    ensures
        cli::targets_of(seq![arg, value] + rest) == cli::targets_from(seq![arg, value] + rest, 2),
        cli::options_of(seq![arg, value] + rest).len() >= 2,
        cli::options_of(seq![arg, value] + rest)[0] == arg,
        cli::options_of(seq![arg, value] + rest)[1] == value,
{
    let args = seq![arg, value] + rest;
    assert(args[0] == arg && args[1] == value);
    value_takers_are_words(arg);
}

proof fn value_takers_are_words(arg: Seq<char>)
    requires
        cli::takes_value(arg),
    ensures
        arg != "--"@,
        arg != "--wait"@,
{
    reveal_strlit("--");
    reveal_strlit("--wait");
    reveal_strlit("--ignore");
    reveal_strlit("--ignoregroup");
    reveal_strlit("--config");
    reveal_strlit("--cachedir");
    reveal_strlit("--root");
    reveal_strlit("-r");
    reveal_strlit("--dbpath");
    reveal_strlit("-b");
    reveal_strlit("--logfile");
    reveal_strlit("--gpgdir");
    reveal_strlit("--hookdir");
    reveal_strlit("--overwrite");
    reveal_strlit("--assume-installed");
    reveal_strlit("--color");
    reveal_strlit("--arch");
    reveal_strlit("--print-format");
    assert(letter(arg, 1) == arg[1] && letter(arg, 2) == arg[2]);
    assert(arg.len() == 2 ==> arg[1] != '-') by {
        if arg.len() == 2 {
            assert(arg == "-r"@ || arg == "-b"@);
            assert("-r"@[1] == 'r' && "-b"@[1] == 'b');
        }
    }
    assert("--"@.len() == 2 && "--"@[1] == '-');
}

// ---------------------------------------------------------------------------------------
// The words of a pin

/// The lines of a list of packages are trimmed; blank ones and comments are passed over.
pub proof fn comments_are_passed_over(ls: Seq<Seq<char>>, n: int)
    requires
        0 <= n <= ls.len(),
    ensures
        picks::made_of(
            cli::listed_upto(ls, n),
            n,
            |i: int| text::trim(ls[i]).len() > 0 && text::trim(ls[i])[0] != '#',
            |i: int| text::trim(ls[i]),
        ),
    decreases n,
{
    let keep = |i: int| text::trim(ls[i]).len() > 0 && text::trim(ls[i])[0] != '#';
    let give = |i: int| text::trim(ls[i]);
    if n == 0 {
        picks::made_of_none(keep, give);
    } else {
        comments_are_passed_over(ls, n - 1);
        picks::made_of_one_more(cli::listed_upto(ls, n - 1), n - 1, keep, give);
        reveal_strlit("#");
        let t = text::trim(ls[n - 1]);
        if t.len() > 0 {
            assert(t.take(1)[0] == t[0]);
            if t[0] == '#' {
                assert(t.take(1) =~= "#"@);
            }
        }
        assert(keep(n - 1) == (t.len() > 0 && t[0] != '#'));
        assert(give(n - 1) == t);
    }
}

/// Each word of a pin is a name, or a file together with the flag before it; a flag without a
/// file is an error.
pub proof fn pin_words_are_names_or_files(args: Seq<Seq<char>>, files: Seq<FileText>, i: int, k: int)
    requires
        0 <= i <= args.len(),
    ensures
        cli::file_patterns_from(args, files, i, k) is Ok ==> cli::positional_from(args, i).len() + 2
            * cli::files_from(args, i).len() == args.len() - i,
        args.len() > i && cli::is_file_flag(args.last()) && cli::files_from(args, i).len() == 0
            ==> cli::file_patterns_from(args, files, i, k) is Err,
    decreases args.len() - i,
{
    if i < args.len() {
        if cli::is_file_flag(args[i]) {
            if i + 1 < args.len() {
                pin_words_are_names_or_files(args, files, i + 2, k + 1);
            }
        } else {
            pin_words_are_names_or_files(args, files, i + 1, k);
        }
    }
}

/// A pin names its repository first, or last where only the last word is the name of one; all
/// other names are pinned, and those of the files after them.
pub proof fn pin_names_its_repo(names: Seq<Seq<char>>, listed: Seq<Seq<char>>, known: Seq<Seq<char>>)
    requires
        names.len() >= 1,
    ensures
        match cli::pin_request(names, listed, known) {
            Ok((repo, patterns)) => {
                let n = names.len() as int;
                &&& patterns.len() == n - 1 + listed.len()
                &&& patterns.skip(n - 1) == listed
                &&& if n > 1 && known.contains(names[n - 1]) && !known.contains(names[0]) {
                    repo == names[n - 1] && patterns.take(n - 1) == names.take(n - 1)
                } else {
                    repo == names[0] && patterns.take(n - 1) == names.skip(1)
                }
            },
            Err(_) => names.len() == 1 && listed.len() == 0,
        },
{
    let n = names.len() as int;
    match cli::pin_request(names, listed, known) {
        Ok((repo, patterns)) => {
            assert(patterns.skip(n - 1) =~= listed);
            if n > 1 && known.contains(names[n - 1]) && !known.contains(names[0]) {
                assert(patterns.take(n - 1) =~= names.take(n - 1));
            } else {
                assert(patterns.take(n - 1) =~= names.skip(1));
            }
        },
        Err(_) => {},
    }
}

// ---------------------------------------------------------------------------------------
// Trying a package

/// Where a package is tried, nothing is opened to it that is not asked for by name.
pub proof fn nothing_is_opened_unasked(args: Seq<Seq<char>>, i: int, c: TryCall)
    requires
        0 <= i,
    ensures
        ({
            let r = dispatch::try_from(args, i, c, false).options;
            let o = c.options;
            &&& r.no_sandbox && !o.no_sandbox ==> args.contains("--no-sandbox"@) || args.contains("--bare"@)
                || args.contains("--unsandboxed"@)
            &&& r.share_net && !o.share_net ==> args.contains("--net"@) || args.contains("--network"@)
                || args.contains("--share-net"@)
            &&& r.rw_cwd && !o.rw_cwd ==> args.contains("--rw"@) || args.contains("--rw-cwd"@)
                || args.contains("--write-cwd"@)
            &&& r.gui && !o.gui ==> args.contains("--gui"@)
            &&& r.audio && !o.audio ==> args.contains("--audio"@)
            &&& r.allow_unverified && !o.allow_unverified ==> args.contains("--allow-unverified"@)
            &&& r.noconfirm && !o.noconfirm ==> args.contains("--noconfirm"@) || args.contains("-y"@)
            &&& r.is_run_mode == o.is_run_mode
        }),
    decreases args.len() - i,
{
    if i < args.len() {
        assert(args.contains(args[i]));
        if args[i] == "--"@ {
        } else if args[i] == "--bin"@ && i + 1 < args.len() {
            nothing_is_opened_unasked(
                args,
                i + 2,
                TryCall {
                    options: TryView { bin: Some(args[i + 1]), ..c.options },
                    ..c
                },
            );
        } else {
            nothing_is_opened_unasked(args, i + 1, dispatch::try_arg(c, args[i], false));
        }
    }
}

/// A tried package is shut in and cut off at first; a package that is run is not.
pub proof fn trying_starts_shut_in()
    ensures
        ({
            let o = dispatch::try_start(false).options;
            !o.no_sandbox && !o.share_net && !o.rw_cwd && !o.gui && !o.audio && !o.allow_unverified
                && !o.is_run_mode
        }),
        ({
            let o = dispatch::try_start(true).options;
            o.no_sandbox && o.share_net && o.rw_cwd && !o.allow_unverified && o.is_run_mode
        }),
{
}

/// What stands behind a double hyphen is handed on to the program as it is.
pub proof fn words_behind_the_double_hyphen(
    before: TryCall,
    args: Seq<Seq<char>>,
    i: int,
    run: bool,
)
    requires
        0 <= i < args.len(),
        args[i] == "--"@,
    ensures
        dispatch::try_from(args, i, before, run).options == before.options,
        dispatch::try_from(args, i, before, run).pkg == before.pkg,
        dispatch::try_from(args, i, before, run).rest == before.rest + args.skip(i + 1),
{
}

/// The first word without a hyphen is the package; later ones are words for the program.
pub proof fn first_plain_word_is_the_package(c: TryCall, a: Seq<char>, run: bool)
    requires
        a.len() > 0,
        a[0] != '-',
    ensures
        c.pkg is None ==> dispatch::try_arg(c, a, run) == (TryCall { pkg: Some(a), ..c }),
        c.pkg is Some ==> dispatch::try_arg(c, a, run) == (TryCall { rest: c.rest.push(a), ..c }),
{
    reveal_strlit("--sandbox");
    reveal_strlit("--sandboxed");
    reveal_strlit("--no-sandbox");
    reveal_strlit("--bare");
    reveal_strlit("--unsandboxed");
    reveal_strlit("--net");
    reveal_strlit("--network");
    reveal_strlit("--share-net");
    reveal_strlit("--rw");
    reveal_strlit("--rw-cwd");
    reveal_strlit("--write-cwd");
    reveal_strlit("--gui");
    reveal_strlit("--audio");
    reveal_strlit("--allow-unverified");
    reveal_strlit("--noconfirm");
    reveal_strlit("-y");
    reveal_strlit("--bin");
    reveal_strlit("--bin=");
    reveal_strlit("-");
    assert(a.take(1)[0] == a[0]);
    if a.len() >= 6 {
        assert(a.take(6)[0] == a[0]);
    }
}

} // verus!
