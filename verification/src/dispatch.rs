//! Which command a call of the program is, with what it is to work on.
use crate::cli::{has_short, is_upgrade_invocation, pacman_files_needs_sudo, parse_pacman_cli_args, rest_of};
use crate::cli;
use crate::pm::CommandLine;
use crate::pm;
use crate::sandbox::{TryOptions, TryView};
use crate::text::{chars_of, clone_strings, contains, contains_char, list_contains, no_strings, parse_u32, parse_usize, push_str, push_strs, starts_with, str_eq, sub_string};
use crate::text;
use vstd::prelude::*;
use vstd::string::*;

verus! {

// ---------------------------------------------------------------------------------------
// Running a package without installing it

/// What a call to run a package asks for, as far as it has been read.
#[verifier::ext_equal]
pub struct TryCall {
    pub options: TryView,
    pub pkg: Option<Seq<char>>,
    pub rest: Seq<Seq<char>>,
}

/// The options of a call before its first argument is read.
pub open spec fn try_start(run: bool) -> TryCall {
    TryCall {
        options: TryView {
            no_sandbox: run,
            share_net: run,
            rw_cwd: run,
            gui: false,
            audio: false,
            bin: None,
            allow_unverified: false,
            is_run_mode: run,
            noconfirm: false,
        },
        pkg: None,
        rest: Seq::empty(),
    }
}

/// What one argument adds: an option of the program, the package, or an argument for it.
pub open spec fn try_arg(c: TryCall, a: Seq<char>, run: bool) -> TryCall {
    let o = c.options;
    if run && (a == "--sandbox"@ || a == "--sandboxed"@) {
        TryCall { options: TryView { no_sandbox: false, is_run_mode: false, ..o }, ..c }
    } else if !run && (a == "--no-sandbox"@ || a == "--bare"@ || a == "--unsandboxed"@) {
        TryCall { options: TryView { no_sandbox: true, ..o }, ..c }
    } else if !run && (a == "--net"@ || a == "--network"@ || a == "--share-net"@) {
        TryCall { options: TryView { share_net: true, ..o }, ..c }
    } else if !run && (a == "--rw"@ || a == "--rw-cwd"@ || a == "--write-cwd"@) {
        TryCall { options: TryView { rw_cwd: true, ..o }, ..c }
    } else if !run && a == "--gui"@ {
        TryCall { options: TryView { gui: true, ..o }, ..c }
    } else if !run && a == "--audio"@ {
        TryCall { options: TryView { audio: true, ..o }, ..c }
    } else if a == "--allow-unverified"@ {
        TryCall { options: TryView { allow_unverified: true, ..o }, ..c }
    } else if a == "--noconfirm"@ || a == "-y"@ {
        TryCall { options: TryView { noconfirm: true, ..o }, ..c }
    } else if a == "--bin"@ {
        c
    } else if text::begins(a, "--bin="@) {
        TryCall { options: TryView { bin: Some(a.skip("--bin="@.len() as int)), ..o }, ..c }
    } else if c.pkg is None && !text::begins(a, "-"@) {
        TryCall { pkg: Some(a), ..c }
    } else {
        TryCall { rest: c.rest.push(a), ..c }
    }
}

/// Reads the arguments from the `i`-th on; behind a double hyphen all are for the package.
pub open spec fn try_from(args: Seq<Seq<char>>, i: int, c: TryCall, run: bool) -> TryCall
    decreases args.len() - i,
{
    if i < 0 || i >= args.len() {
        c
    } else if args[i] == "--"@ {
        TryCall { rest: c.rest + args.skip(i + 1), ..c }
    } else if args[i] == "--bin"@ && i + 1 < args.len() {
        try_from(
            args,
            i + 2,
            TryCall { options: TryView { bin: Some(args[i + 1]), ..c.options }, ..c },
            run,
        )
    } else {
        try_from(args, i + 1, try_arg(c, args[i], run), run)
    }
}

fn after_bin(a: &str) -> (r: Option<String>)
    ensures
        match r {
            Some(b) => text::begins(a@, "--bin="@) && b@ == a@.skip("--bin="@.len() as int),
            None => !text::begins(a@, "--bin="@),
        },
{
    if !starts_with(a, "--bin=") {
        return None;
    }
    let cs = chars_of(a);
    let n: usize = chars_of("--bin=").len();
    let out = sub_string(&cs, n, cs.len());
    assert(out@ =~= a@.skip("--bin="@.len() as int));
    Some(out)
}

fn take_try_arg(
    o: &mut TryOptions,
    pkg: &mut Option<String>,
    rest: &mut Vec<String>,
    a: &str,
    run: bool,
)
    ensures
        (TryCall { options: final(o)@, pkg: text::opt_text(*final(pkg)), rest: text::texts(final(rest)@) })
            == try_arg(
            TryCall { options: old(o)@, pkg: text::opt_text(*old(pkg)), rest: text::texts(old(rest)@) },
            a@,
            run,
        ),
{
    if run && (str_eq(a, "--sandbox") || str_eq(a, "--sandboxed")) {
        o.no_sandbox = false;
        o.is_run_mode = false;
    } else if !run && (str_eq(a, "--no-sandbox") || str_eq(a, "--bare") || str_eq(
        a,
        "--unsandboxed",
    )) {
        o.no_sandbox = true;
    } else if !run && (str_eq(a, "--net") || str_eq(a, "--network") || str_eq(a, "--share-net")) {
        o.share_net = true;
    } else if !run && (str_eq(a, "--rw") || str_eq(a, "--rw-cwd") || str_eq(a, "--write-cwd")) {
        o.rw_cwd = true;
    } else if !run && str_eq(a, "--gui") {
        o.gui = true;
    } else if !run && str_eq(a, "--audio") {
        o.audio = true;
    } else if str_eq(a, "--allow-unverified") {
        o.allow_unverified = true;
    } else if str_eq(a, "--noconfirm") || str_eq(a, "-y") {
        o.noconfirm = true;
    } else if str_eq(a, "--bin") {
    } else {
        match after_bin(a) {
            Some(b) => {
                o.bin = Some(b);
            },
            None => {
                if pkg.is_none() && !starts_with(a, "-") {
                    *pkg = Some(a.to_string());
                } else {
                    let ghost before = text::texts(rest@);
                    push_str(rest, a);
                    assert(text::texts(rest@) =~= before.push(a@));
                }
            },
        }
    }
}

/// The options, the package and its arguments in a call to run a package.
pub fn parse_try_args(args: &Vec<String>, run: bool) -> (r: (TryOptions, Option<String>, Vec<
    String,
>))
    ensures
        (TryCall { options: r.0@, pkg: text::opt_text(r.1), rest: text::texts(r.2@) }) == try_from(
            text::texts(args@),
            1,
            try_start(run),
            run,
        ),
{
    let mut o = if run {
        TryOptions::for_run()
    } else {
        TryOptions::default()
    };
    let mut pkg: Option<String> = None;
    let mut rest = no_strings();
    let ghost all = text::texts(args@);
    let ghost goal = try_from(all, 1, try_start(run), run);
    let n: usize = args.len();
    let mut i: usize = 1;
    assert((TryCall { options: o@, pkg: text::opt_text(pkg), rest: text::texts(rest@) }) =~= try_start(run));
    while i < n
        invariant
            1 <= i,
            n == args@.len(),
            all == text::texts(args@),
            all.len() == n,
            i <= n || n == 0,
            goal == try_from(
                all,
                i as int,
                (TryCall { options: o@, pkg: text::opt_text(pkg), rest: text::texts(rest@) }),
                run,
            ),
            goal == try_from(text::texts(args@), 1, try_start(run), run),
        decreases n - i,
    {
        assert(all[i as int] == args@[i as int]@);
        if str_eq(&args[i], "--") {
            let tail = rest_of(args, i + 1);
            push_strs(&mut rest, &tail);
            return (o, pkg, rest);
        }
        if str_eq(&args[i], "--bin") && i < n - 1 {
            assert(all[i + 1] == args@[i + 1]@);
            o.bin = Some(args[i + 1].clone());
            i += 2;
        } else {
            take_try_arg(&mut o, &mut pkg, &mut rest, &args[i], run);
            i += 1;
        }
    }
    (o, pkg, rest)
}

// ---------------------------------------------------------------------------------------
// Commands

/// What a call asks for.
#[derive(Debug, Clone)]
pub enum Action {
    Version,
    Help,
    Reset { force: bool, noconfirm: bool },
    Init { reset: bool },
    Repos,
    Check(Vec<String>),
    Upgrade {
        flags: Vec<String>,
        dry_run: bool,
        refresh: bool,
        noconfirm: bool,
        autoremove: bool,
    },
    Search(Vec<String>),
    Info(Vec<String>),
    Clean(Vec<String>),
    /// Hand the call on to the package manager, with more rights or without.
    Forward { sudo: bool },
    PrintUris(Vec<String>),
    SyncList(Vec<String>),
    SyncGroups(Vec<String>),
    Install { targets: Vec<String>, flags: Vec<String> },
    Remove { args: Vec<String>, friendly: bool },
    History(Option<usize>),
    Rollback { id: Option<usize>, dry_run: bool, allow_partial: bool, noconfirm: bool },
    Run(Vec<String>),
    Try(Vec<String>),
    NeedRestart,
    Delay { pkg: String, days: u32 },
    Undelay(String),
    List,
    Orphans { clean: bool, noconfirm: bool },
    Keep(Vec<String>),
    Pin(Vec<String>),
    Unpin(String),
    /// The command lacks an argument.
    Incomplete(Incomplete),
    /// Hand the call on to the AUR helper.
    Helper,
    Unknown(String),
}

#[derive(Debug, Clone, Copy, PartialEq, Eq, Structural)]
pub enum Incomplete {
    Delay,
    Undelay,
    Keep,
    Unpin,
}

#[verifier::ext_equal]
pub enum ActionView {
    Version,
    Help,
    Reset { force: bool, noconfirm: bool },
    Init { reset: bool },
    Repos,
    Check(Seq<Seq<char>>),
    Upgrade {
        flags: Seq<Seq<char>>,
        dry_run: bool,
        refresh: bool,
        noconfirm: bool,
        autoremove: bool,
    },
    Search(Seq<Seq<char>>),
    Info(Seq<Seq<char>>),
    Clean(Seq<Seq<char>>),
    Forward { sudo: bool },
    PrintUris(Seq<Seq<char>>),
    SyncList(Seq<Seq<char>>),
    SyncGroups(Seq<Seq<char>>),
    Install { targets: Seq<Seq<char>>, flags: Seq<Seq<char>> },
    Remove { args: Seq<Seq<char>>, friendly: bool },
    History(Option<usize>),
    Rollback { id: Option<usize>, dry_run: bool, allow_partial: bool, noconfirm: bool },
    Run(Seq<Seq<char>>),
    Try(Seq<Seq<char>>),
    NeedRestart,
    Delay { pkg: Seq<char>, days: u32 },
    Undelay(Seq<char>),
    List,
    Orphans { clean: bool, noconfirm: bool },
    Keep(Seq<Seq<char>>),
    Pin(Seq<Seq<char>>),
    Unpin(Seq<char>),
    Incomplete(Incomplete),
    Helper,
    Unknown(Seq<char>),
}

impl View for Action {
    type V = ActionView;

    open spec fn view(&self) -> ActionView {
        match *self {
            Action::Version => ActionView::Version,
            Action::Help => ActionView::Help,
            Action::Reset { force, noconfirm } => ActionView::Reset { force, noconfirm },
            Action::Init { reset } => ActionView::Init { reset },
            Action::Repos => ActionView::Repos,
            Action::Check(v) => ActionView::Check(text::texts(v@)),
            Action::Upgrade { flags, dry_run, refresh, noconfirm, autoremove } => ActionView::Upgrade {
                flags: text::texts(flags@),
                dry_run,
                refresh,
                noconfirm,
                autoremove,
            },
            Action::Search(v) => ActionView::Search(text::texts(v@)),
            Action::Info(v) => ActionView::Info(text::texts(v@)),
            Action::Clean(v) => ActionView::Clean(text::texts(v@)),
            Action::Forward { sudo } => ActionView::Forward { sudo },
            Action::PrintUris(v) => ActionView::PrintUris(text::texts(v@)),
            Action::SyncList(v) => ActionView::SyncList(text::texts(v@)),
            Action::SyncGroups(v) => ActionView::SyncGroups(text::texts(v@)),
            Action::Install { targets, flags } => ActionView::Install {
                targets: text::texts(targets@),
                flags: text::texts(flags@),
            },
            Action::Remove { args, friendly } => ActionView::Remove {
                args: text::texts(args@),
                friendly,
            },
            Action::History(id) => ActionView::History(id),
            Action::Rollback { id, dry_run, allow_partial, noconfirm } => ActionView::Rollback {
                id,
                dry_run,
                allow_partial,
                noconfirm,
            },
            Action::Run(v) => ActionView::Run(text::texts(v@)),
            Action::Try(v) => ActionView::Try(text::texts(v@)),
            Action::NeedRestart => ActionView::NeedRestart,
            Action::Delay { pkg, days } => ActionView::Delay { pkg: pkg@, days },
            Action::Undelay(p) => ActionView::Undelay(p@),
            Action::List => ActionView::List,
            Action::Orphans { clean, noconfirm } => ActionView::Orphans { clean, noconfirm },
            Action::Keep(v) => ActionView::Keep(text::texts(v@)),
            Action::Pin(v) => ActionView::Pin(text::texts(v@)),
            Action::Unpin(p) => ActionView::Unpin(p@),
            Action::Incomplete(w) => ActionView::Incomplete(w),
            Action::Helper => ActionView::Helper,
            Action::Unknown(c) => ActionView::Unknown(c@),
        }
    }
}

/// The call is an operation on the sync databases, and has the letter in its first argument or
/// one of the two options.
pub open spec fn sync_with(args: Seq<Seq<char>>, letter: char, short: Seq<char>, long: Seq<char>) -> bool {
    text::begins(args[0], "-S"@) && (args[0].contains(letter) || args.contains(short) || args.contains(
        long,
    ))
}

fn is_sync_with(args: &Vec<String>, letter: char, short: &str, long: &str) -> (r: bool)
    requires
        args@.len() > 0,
    ensures
        r == sync_with(text::texts(args@), letter, short@, long@),
{
    assert(text::texts(args@)[0] == args@[0]@);
    starts_with(&args[0], "-S") && (contains_char(&args[0], letter) || list_contains(args, short)
        || list_contains(args, long))
}

/// The arguments behind the first one, among the first `n`, but for the option itself.
pub open spec fn without_option(
    args: Seq<Seq<char>>,
    short: Seq<char>,
    long: Seq<char>,
    joint: Seq<char>,
    n: int,
) -> Seq<Seq<char>>
    decreases n,
{
    if n <= 1 {
        Seq::empty()
    } else {
        let a = args[n - 1];
        let before = without_option(args, short, long, joint, n - 1);
        if a != short && a != long && !text::begins(a, joint) {
            before.push(a)
        } else {
            before
        }
    }
}

fn drop_option(args: &Vec<String>, short: &str, long: &str, joint: &str) -> (r: Vec<String>)
    ensures
        text::texts(r@) == without_option(text::texts(args@), short@, long@, joint@, args@.len() as int),
{
    let ghost all = text::texts(args@);
    let n: usize = args.len();
    let mut out = no_strings();
    if n == 0 {
        return out;
    }
    let mut i: usize = 1;
    while i < n
        invariant
            1 <= i <= n,
            n == args@.len(),
            all == text::texts(args@),
            text::texts(out@) == without_option(all, short@, long@, joint@, i as int),
        decreases n - i,
    {
        assert(all[i as int] == args@[i as int]@);
        if !str_eq(&args[i], short) && !str_eq(&args[i], long) && !starts_with(&args[i], joint) {
            let ghost before = text::texts(out@);
            push_str(&mut out, &args[i]);
            assert(text::texts(out@) =~= before.push(all[i as int]));
        }
        i += 1;
    }
    out
}

/// The words of a query: those behind the first argument, and what is joined to it.
pub open spec fn query_words(args: Seq<Seq<char>>, short: Seq<char>, long: Seq<char>, joint: Seq<char>) -> Seq<
    Seq<char>,
> {
    if text::begins(args[0], "-S"@) {
        (if args[0].len() > 3 && text::begins(args[0], joint) {
            Seq::empty().push(args[0].skip(3))
        } else {
            Seq::empty()
        }) + without_option(args, short, long, joint, args.len() as int)
    } else {
        args.skip(1)
    }
}

fn chars_from(s: &str, n: usize) -> (r: String)
    requires
        n <= s@.len(),
    ensures
        r@ == s@.skip(n as int),
{
    let cs = chars_of(s);
    let out = sub_string(&cs, n, cs.len());
    assert(out@ =~= s@.skip(n as int));
    out
}

fn query_of(args: &Vec<String>, short: &str, long: &str, joint: &str) -> (r: Vec<String>)
    requires
        args@.len() > 0,
    ensures
        text::texts(r@) == query_words(text::texts(args@), short@, long@, joint@),
{
    assert(text::texts(args@)[0] == args@[0]@);
    if !starts_with(&args[0], "-S") {
        return rest_of(args, 1);
    }
    let mut out = no_strings();
    let size: usize = chars_of(&args[0]).len();
    if size > 3 && starts_with(&args[0], joint) {
        let tail = chars_from(&args[0], 3);
        push_str(&mut out, &tail);
        assert(text::texts(out@) =~= Seq::empty().push(tail@));
    }
    let rest = drop_option(args, short, long, joint);
    push_strs(&mut out, &rest);
    out
}

/// Some argument behind the first one is no option.
pub open spec fn has_operand(args: Seq<Seq<char>>) -> bool {
    exists|i: int| 1 <= i < args.len() && !text::begins(#[trigger] args[i], "-"@)
}

fn any_operand(args: &Vec<String>) -> (r: bool)
    requires
        args@.len() > 0,
    ensures
        r == has_operand(text::texts(args@)),
{
    let ghost all = text::texts(args@);
    let mut i: usize = 1;
    while i < args.len()
        invariant
            1 <= i <= args@.len(),
            all == text::texts(args@),
            all.len() == args@.len(),
            forall|j: int| 1 <= j < i ==> text::begins(#[trigger] all[j], "-"@),
        decreases args@.len() - i,
    {
        assert(all[i as int] == args@[i as int]@);
        if !starts_with(&args[i], "-") {
            return true;
        }
        i += 1;
    }
    false
}

/// The options that are joined to an installation.
pub open spec fn joint_options(cmd: Seq<char>) -> Seq<Seq<char>> {
    let sub = cmd.skip(2);
    if text::begins(cmd, "-S"@) && cmd.len() > 2 {
        (if text::holds(sub, "yy"@) {
            Seq::empty().push("-yy"@)
        } else if sub.contains('y') {
            Seq::empty().push("-y"@)
        } else {
            Seq::empty()
        }) + (if text::holds(sub, "uu"@) {
            Seq::empty().push("-uu"@)
        } else if sub.contains('u') {
            Seq::empty().push("-u"@)
        } else {
            Seq::empty()
        }) + (if sub.contains('n') {
            Seq::empty().push("-n"@)
        } else {
            Seq::empty()
        })
    } else {
        Seq::empty()
    }
}

fn joint_flags(cmd: &str) -> (r: Vec<String>)
    ensures
        text::texts(r@) == joint_options(cmd@),
{
    let mut out = no_strings();
    let size: usize = chars_of(cmd).len();
    if !starts_with(cmd, "-S") || size <= 2 {
        return out;
    }
    let sub = chars_from(cmd, 2);
    if contains(&sub, "yy") {
        push_str(&mut out, "-yy");
    } else if contains_char(&sub, 'y') {
        push_str(&mut out, "-y");
    }
    if contains(&sub, "uu") {
        push_str(&mut out, "-uu");
    } else if contains_char(&sub, 'u') {
        push_str(&mut out, "-u");
    }
    if contains_char(&sub, 'n') {
        push_str(&mut out, "-n");
    }
    assert(text::texts(out@) =~= joint_options(cmd@));
    out
}

/// The last of the arguments up to the `n`-th, but for the first, that is a number.
pub open spec fn last_number(args: Seq<Seq<char>>, n: int) -> Option<int>
    decreases n,
{
    if n <= 1 {
        None
    } else {
        match text::number(args[n - 1], usize::MAX as int) {
            Some(v) => Some(v),
            None => last_number(args, n - 1),
        }
    }
}

fn find_last_number(args: &Vec<String>) -> (r: Option<usize>)
    requires
        args@.len() > 0,
    ensures
        match r {
            Some(v) => last_number(text::texts(args@), args@.len() as int) == Some(v as int),
            None => last_number(text::texts(args@), args@.len() as int) is None,
        },
{
    let ghost all = text::texts(args@);
    let mut i: usize = args.len();
    while i > 1
        invariant
            1 <= i <= args@.len(),
            all == text::texts(args@),
            last_number(all, args@.len() as int) == last_number(all, i as int),
        decreases i,
    {
        assert(all[i - 1] == args@[i - 1]@);
        match parse_usize(&args[i - 1]) {
            Some(v) => {
                return Some(v);
            },
            None => {},
        }
        i -= 1;
    }
    None
}

pub open spec fn opt_usize(o: Option<int>) -> Option<usize> {
    match o {
        Some(n) => Some(n as usize),
        None => None,
    }
}

/// The commands that need no configuration.
pub open spec fn early_action(args: Seq<Seq<char>>) -> Option<ActionView> {
    if args.len() == 0 {
        Some(ActionView::Help)
    } else {
        let c = args[0];
        if c == "-v"@ || c == "-V"@ || c == "--version"@ {
            Some(ActionView::Version)
        } else if c == "-h"@ || c == "--help"@ || c == "help"@ {
            Some(ActionView::Help)
        } else if c == "reset"@ || c == "config-reset"@ || (args.len() >= 2 && c == "config"@
            && args[1] == "reset"@) {
            Some(
                ActionView::Reset {
                    force: args.contains("-f"@) || args.contains("--force"@) || args.contains(
                        "-y"@,
                    ),
                    noconfirm: args.contains("--noconfirm"@),
                },
            )
        } else if c == "init"@ || c == "setup"@ {
            Some(ActionView::Init { reset: args.contains("-r"@) || args.contains("--reset"@) })
        } else {
            None
        }
    }
}

/// The operations of the package manager, and the words for them.
pub open spec fn manager_action(args: Seq<Seq<char>>) -> Option<ActionView> {
    let c = args[0];
    let tail = args.skip(1);
    if c == "repos"@ || c == "repo-order"@ || c == "priority"@ {
        Some(ActionView::Repos)
    } else if c == "check"@ || (text::begins(c, "-Q"@) && c.contains('u')) {
        Some(
            ActionView::Check(
                (if text::begins(c, "-Q"@) && c.contains('q') {
                    Seq::empty().push("-q"@)
                } else {
                    Seq::empty()
                }) + tail,
            ),
        )
    } else if cli::asks_upgrade(args) {
        Some(
            ActionView::Upgrade {
                flags: cli::options_of(tail),
                dry_run: args.contains("--dry-run"@) || cli::any_short(args, 'n'),
                refresh: args.contains("--refresh"@) || cli::any_short(args, 'y'),
                noconfirm: args.contains("--noconfirm"@),
                autoremove: args.contains("--clean"@) || args.contains("--autoremove"@)
                    || cli::any_short(args, 'c'),
            },
        )
    } else if c == "search"@ || sync_with(args, 's', "-s"@, "--search"@) {
        Some(ActionView::Search(query_words(args, "-s"@, "--search"@, "-Ss"@)))
    } else if c == "info"@ || sync_with(args, 'i', "-i"@, "--info"@) {
        Some(ActionView::Info(query_words(args, "-i"@, "--info"@, "-Si"@)))
    } else if c == "clean"@ || c == "clean-cache"@ || c == "-Sc"@ || c == "-Scc"@ || (sync_with(
        args,
        'c',
        "-c"@,
        "--clean"@,
    ) && !has_operand(args)) {
        Some(
            ActionView::Clean(without_option(args, "-c"@, "--clean"@, "-Sc"@, args.len() as int)),
        )
    } else if text::begins(c, "-Sw"@) || (text::begins(c, "-S"@) && (args.contains("-w"@) || args.contains(
        "--downloadonly"@,
    ))) {
        Some(ActionView::Forward { sudo: true })
    } else if sync_with(args, 'p', "-p"@, "--print-uris"@) || (text::begins(c, "-S"@) && args.contains(
        "--print"@,
    )) {
        Some(ActionView::PrintUris(cli::targets_of(tail)))
    } else if sync_with(args, 'l', "-l"@, "--list"@) {
        Some(ActionView::SyncList(cli::targets_of(tail)))
    } else if sync_with(args, 'g', "-g"@, "--groups"@) {
        Some(ActionView::SyncGroups(cli::targets_of(tail)))
    } else if text::begins(c, "-T"@) {
        Some(ActionView::Forward { sudo: false })
    } else if c == "-S"@ || c == "install"@ || (text::begins(c, "-S"@) && cli::targets_of(tail).len() > 0) {
        Some(
            ActionView::Install {
                targets: cli::targets_of(tail),
                flags: cli::options_of(tail) + joint_options(c),
            },
        )
    } else if c == "remove"@ || c == "rm"@ {
        Some(ActionView::Remove { args: tail, friendly: true })
    } else if text::begins(c, "-R"@) {
        Some(ActionView::Remove { args, friendly: false })
    } else if text::begins(c, "-Q"@) {
        Some(ActionView::Forward { sudo: false })
    } else if text::begins(c, "-F"@) {
        Some(ActionView::Forward { sudo: cli::refreshes_files(args) })
    } else if text::begins(c, "-U"@) || text::begins(c, "-D"@) {
        Some(ActionView::Forward { sudo: true })
    } else {
        None
    }
}

/// The other commands of the program.
pub open spec fn own_action(args: Seq<Seq<char>>) -> ActionView {
    let c = args[0];
    let tail = args.skip(1);
    if c == "history"@ {
        ActionView::History(
            if args.len() > 1 {
                opt_usize(text::number(args[1], usize::MAX as int))
            } else {
                None
            },
        )
    } else if c == "rollback"@ {
        ActionView::Rollback {
            id: opt_usize(last_number(args, args.len() as int)),
            dry_run: args.contains("-n"@) || args.contains("--dry-run"@),
            allow_partial: args.contains("--allow-partial"@) || args.contains("--partial"@)
                || args.contains("-f"@) || args.contains("--force"@),
            noconfirm: args.contains("--noconfirm"@),
        }
    } else if c == "run"@ {
        ActionView::Run(args)
    } else if c == "try"@ {
        ActionView::Try(args)
    } else if c == "needrestart"@ || c == "restart-check"@ {
        ActionView::NeedRestart
    } else if c == "delay"@ {
        if args.len() < 3 || text::number(args[2], u32::MAX as int) is None {
            ActionView::Incomplete(Incomplete::Delay)
        } else {
            ActionView::Delay {
                pkg: args[1],
                days: text::number(args[2], u32::MAX as int)->0 as u32,
            }
        }
    } else if c == "undelay"@ {
        if args.len() < 2 {
            ActionView::Incomplete(Incomplete::Undelay)
        } else {
            ActionView::Undelay(args[1])
        }
    } else if c == "list"@ {
        ActionView::List
    } else if c == "orphans"@ || c == "autoremove"@ {
        ActionView::Orphans {
            clean: args.contains("-c"@) || args.contains("--clean"@) || c == "autoremove"@,
            noconfirm: args.contains("--noconfirm"@),
        }
    } else if c == "keep"@ || c == "adopt"@ {
        if args.len() < 2 {
            ActionView::Incomplete(Incomplete::Keep)
        } else {
            ActionView::Keep(tail)
        }
    } else if c == "pin"@ || c == "add-pin"@ || c == "add-pins"@ {
        ActionView::Pin(tail)
    } else if c == "unpin"@ {
        if args.len() < 2 {
            ActionView::Incomplete(Incomplete::Unpin)
        } else {
            ActionView::Unpin(args[1])
        }
    } else if text::begins(c, "-"@) {
        ActionView::Helper
    } else {
        ActionView::Unknown(c)
    }
}

/// What a call asks for.
pub open spec fn action_of(args: Seq<Seq<char>>) -> ActionView {
    match early_action(args) {
        Some(a) => a,
        None => match manager_action(args) {
            Some(a) => a,
            None => own_action(args),
        },
    }
}

/// An operation of the package manager that only reads is run without more rights, and one
/// that changes the system with them; a look into the files database needs them where it
/// fetches that database.
pub proof fn rights_follow_the_operation(args: Seq<Seq<char>>)
    requires
        args.len() > 0,
    ensures
        text::begins(args[0], "-U"@) ==> action_of(args) == (ActionView::Forward { sudo: true }),
        text::begins(args[0], "-D"@) ==> action_of(args) == (ActionView::Forward { sudo: true }),
        text::begins(args[0], "-T"@) ==> action_of(args) == (ActionView::Forward { sudo: false }),
        text::begins(args[0], "-Q"@) && !args[0].contains('u') ==> action_of(args) == (
        ActionView::Forward { sudo: false }),
        text::begins(args[0], "-F"@) ==> action_of(args) == (ActionView::Forward {
            sudo: cli::refreshes_files(args),
        }),
{
    let c = args[0];
    if c.len() >= 2 {
        assert(c.take(2)[0] == c[0] && c.take(2)[1] == c[1]);
    }
    if c.len() >= 3 {
        assert(c.take(3)[1] == c[1]);
    }
    reveal_strlit("-v");
    reveal_strlit("-V");
    reveal_strlit("--version");
    reveal_strlit("-h");
    reveal_strlit("--help");
    reveal_strlit("help");
    reveal_strlit("reset");
    reveal_strlit("config-reset");
    reveal_strlit("config");
    reveal_strlit("init");
    reveal_strlit("setup");
    reveal_strlit("repos");
    reveal_strlit("repo-order");
    reveal_strlit("priority");
    reveal_strlit("check");
    reveal_strlit("upgrade");
    reveal_strlit("up");
    reveal_strlit("search");
    reveal_strlit("info");
    reveal_strlit("clean");
    reveal_strlit("clean-cache");
    reveal_strlit("-Sc");
    reveal_strlit("-Scc");
    reveal_strlit("-Sw");
    reveal_strlit("-S");
    reveal_strlit("-T");
    reveal_strlit("install");
    reveal_strlit("remove");
    reveal_strlit("rm");
    reveal_strlit("-R");
    reveal_strlit("-Q");
    reveal_strlit("-F");
    reveal_strlit("-U");
    reveal_strlit("-D");
}

fn find_early(args: &Vec<String>) -> (r: Option<Action>)
    ensures
        match r {
            Some(a) => early_action(text::texts(args@)) == Some(a@),
            None => early_action(text::texts(args@)) is None,
        },
{
    let ghost all = text::texts(args@);
    assert(all.len() == args@.len());
    if args.len() == 0 {
        return Some(Action::Help);
    }
    assert(all[0] == args@[0]@);
    let c: &str = args[0].as_str();
    if str_eq(c, "-v") || str_eq(c, "-V") || str_eq(c, "--version") {
        return Some(Action::Version);
    }
    if str_eq(c, "-h") || str_eq(c, "--help") || str_eq(c, "help") {
        return Some(Action::Help);
    }
    if args.len() >= 2 {
        assert(all[1] == args@[1]@);
    }
    if str_eq(c, "reset") || str_eq(c, "config-reset") || (args.len() >= 2 && str_eq(c, "config")
        && str_eq(&args[1], "reset")) {
        let force: bool = list_contains(args, "-f") || list_contains(args, "--force")
            || list_contains(args, "-y");
        return Some(Action::Reset { force, noconfirm: list_contains(args, "--noconfirm") });
    }
    if str_eq(c, "init") || str_eq(c, "setup") {
        let reset: bool = list_contains(args, "-r") || list_contains(args, "--reset");
        return Some(Action::Init { reset });
    }
    None
}

fn make_check(args: &Vec<String>) -> (r: Vec<String>)
    requires
        args@.len() > 0,
    ensures
        text::texts(r@) == (if text::begins(text::texts(args@)[0], "-Q"@) && text::texts(args@)[0].contains('q') {
            Seq::empty().push("-q"@)
        } else {
            Seq::empty()
        }) + text::texts(args@).skip(1),
{
    assert(text::texts(args@)[0] == args@[0]@);
    let mut out = no_strings();
    if starts_with(&args[0], "-Q") && contains_char(&args[0], 'q') {
        push_str(&mut out, "-q");
        assert(text::texts(out@) =~= Seq::empty().push("-q"@));
    }
    let rest = rest_of(args, 1);
    push_strs(&mut out, &rest);
    out
}

fn find_manager(args: &Vec<String>) -> (r: Option<Action>)
    requires
        args@.len() > 0,
    ensures
        match r {
            Some(a) => manager_action(text::texts(args@)) == Some(a@),
            None => manager_action(text::texts(args@)) is None,
        },
{
    let ghost all = text::texts(args@);
    assert(all.len() == args@.len());
    assert(all[0] == args@[0]@);
    let c: &str = args[0].as_str();
    if str_eq(c, "repos") || str_eq(c, "repo-order") || str_eq(c, "priority") {
        return Some(Action::Repos);
    }
    if str_eq(c, "check") || (starts_with(c, "-Q") && contains_char(c, 'u')) {
        return Some(Action::Check(make_check(args)));
    }
    let tail = rest_of(args, 1);
    let (targets, options) = parse_pacman_cli_args(&tail);
    assert(text::texts(targets@).len() == targets@.len());
    if is_upgrade_invocation(args) {
        let dry_run: bool = list_contains(args, "--dry-run") || has_short(args, 'n');
        let refresh: bool = list_contains(args, "--refresh") || has_short(args, 'y');
        let autoremove: bool = list_contains(args, "--clean") || list_contains(
            args,
            "--autoremove",
        ) || has_short(args, 'c');
        let noconfirm: bool = list_contains(args, "--noconfirm");
        return Some(
            Action::Upgrade { flags: options, dry_run, refresh, noconfirm, autoremove },
        );
    }
    if str_eq(c, "search") || is_sync_with(args, 's', "-s", "--search") {
        return Some(Action::Search(query_of(args, "-s", "--search", "-Ss")));
    }
    if str_eq(c, "info") || is_sync_with(args, 'i', "-i", "--info") {
        return Some(Action::Info(query_of(args, "-i", "--info", "-Si")));
    }
    if str_eq(c, "clean") || str_eq(c, "clean-cache") || str_eq(c, "-Sc") || str_eq(c, "-Scc") || (
    is_sync_with(args, 'c', "-c", "--clean") && !any_operand(args)) {
        return Some(Action::Clean(drop_option(args, "-c", "--clean", "-Sc")));
    }
    if starts_with(c, "-Sw") || (starts_with(c, "-S") && (list_contains(args, "-w")
        || list_contains(args, "--downloadonly"))) {
        return Some(Action::Forward { sudo: true });
    }
    if is_sync_with(args, 'p', "-p", "--print-uris") || (starts_with(c, "-S") && list_contains(
        args,
        "--print",
    )) {
        return Some(Action::PrintUris(targets));
    }
    if is_sync_with(args, 'l', "-l", "--list") {
        return Some(Action::SyncList(targets));
    }
    if is_sync_with(args, 'g', "-g", "--groups") {
        return Some(Action::SyncGroups(targets));
    }
    if starts_with(c, "-T") {
        return Some(Action::Forward { sudo: false });
    }
    if str_eq(c, "-S") || str_eq(c, "install") || (starts_with(c, "-S") && targets.len() > 0) {
        let mut flags = options;
        let more = joint_flags(c);
        push_strs(&mut flags, &more);
        return Some(Action::Install { targets, flags });
    }
    if str_eq(c, "remove") || str_eq(c, "rm") {
        return Some(Action::Remove { args: tail, friendly: true });
    }
    if starts_with(c, "-R") {
        return Some(Action::Remove { args: clone_strings(args), friendly: false });
    }
    if starts_with(c, "-Q") {
        return Some(Action::Forward { sudo: false });
    }
    if starts_with(c, "-F") {
        return Some(Action::Forward { sudo: pacman_files_needs_sudo(args) });
    }
    if starts_with(c, "-U") || starts_with(c, "-D") {
        return Some(Action::Forward { sudo: true });
    }
    None
}

fn find_own(args: &Vec<String>) -> (r: Action)
    requires
        args@.len() > 0,
    ensures
        r@ == own_action(text::texts(args@)),
{
    let ghost all = text::texts(args@);
    assert(all.len() == args@.len());
    assert(all[0] == args@[0]@);
    let n: usize = args.len();
    if n > 1 {
        assert(all[1] == args@[1]@);
    }
    if n > 2 {
        assert(all[2] == args@[2]@);
    }
    let c: &str = args[0].as_str();
    if str_eq(c, "history") {
        return Action::History(
            if n > 1 {
                parse_usize(&args[1])
            } else {
                None
            },
        );
    }
    if str_eq(c, "rollback") {
        let dry_run: bool = list_contains(args, "-n") || list_contains(args, "--dry-run");
        let allow_partial: bool = list_contains(args, "--allow-partial") || list_contains(
            args,
            "--partial",
        ) || list_contains(args, "-f") || list_contains(args, "--force");
        return Action::Rollback {
            id: find_last_number(args),
            dry_run,
            allow_partial,
            noconfirm: list_contains(args, "--noconfirm"),
        };
    }
    if str_eq(c, "run") {
        return Action::Run(clone_strings(args));
    }
    if str_eq(c, "try") {
        return Action::Try(clone_strings(args));
    }
    if str_eq(c, "needrestart") || str_eq(c, "restart-check") {
        return Action::NeedRestart;
    }
    if str_eq(c, "delay") {
        if n < 3 {
            return Action::Incomplete(Incomplete::Delay);
        }
        return match parse_u32(&args[2]) {
            Some(days) => Action::Delay { pkg: args[1].clone(), days },
            None => Action::Incomplete(Incomplete::Delay),
        };
    }
    if str_eq(c, "undelay") {
        if n < 2 {
            return Action::Incomplete(Incomplete::Undelay);
        }
        return Action::Undelay(args[1].clone());
    }
    if str_eq(c, "list") {
        return Action::List;
    }
    if str_eq(c, "orphans") || str_eq(c, "autoremove") {
        let clean: bool = list_contains(args, "-c") || list_contains(args, "--clean") || str_eq(
            c,
            "autoremove",
        );
        return Action::Orphans { clean, noconfirm: list_contains(args, "--noconfirm") };
    }
    if str_eq(c, "keep") || str_eq(c, "adopt") {
        if n < 2 {
            return Action::Incomplete(Incomplete::Keep);
        }
        return Action::Keep(rest_of(args, 1));
    }
    if str_eq(c, "pin") || str_eq(c, "add-pin") || str_eq(c, "add-pins") {
        return Action::Pin(rest_of(args, 1));
    }
    if str_eq(c, "unpin") {
        if n < 2 {
            return Action::Incomplete(Incomplete::Unpin);
        }
        return Action::Unpin(args[1].clone());
    }
    if starts_with(c, "-") {
        Action::Helper
    } else {
        Action::Unknown(args[0].clone())
    }
}

/// What a call of the program asks for.
pub fn dispatch(args: &Vec<String>) -> (r: Action)
    ensures
        r@ == action_of(text::texts(args@)),
{
    assert(text::texts(args@).len() == args@.len());
    match find_early(args) {
        Some(a) => a,
        None => match find_manager(args) {
            Some(a) => a,
            None => find_own(args),
        },
    }
}

/// Whether the setup is run before a call: where there is no configuration yet and someone can
/// answer.
pub fn needs_setup(config_exists: bool, interactive: bool) -> (r: bool)
    ensures
        r == (!config_exists && interactive),
{
    !config_exists && interactive
}

/// The command that marks packages as wanted, so that they are no orphans.
pub fn keep_command(pkgs: &Vec<String>) -> (r: CommandLine)
    ensures
        pm::runs(r, "sudo"@, seq!["pacman"@, "-D"@, "--asexplicit"@] + text::texts(pkgs@)),
{
    let mut args = no_strings();
    push_str(&mut args, "pacman");
    push_str(&mut args, "-D");
    push_str(&mut args, "--asexplicit");
    assert(text::texts(args@) =~= seq!["pacman"@, "-D"@, "--asexplicit"@]);
    push_strs(&mut args, pkgs);
    CommandLine { program: "sudo".to_string(), args }
}

} // verus!
