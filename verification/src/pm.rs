//! Installing and removing packages: what is checked before, which commands are run, and
//! what is recorded after.
use crate::text::{chars_of, contains_char, join_strings, no_strings, number_text, parse_number, push_str, push_strs, signed_text, starts_with, str_eq, sub_string, trimmed, words_of};
use crate::text;
use crate::utils::shell_quote;
use crate::utils;
use vstd::prelude::*;
use vstd::string::*;

verus! {

#[derive(Debug, Clone)]
pub struct InstallOptions {
    pub needed: bool,
    pub noconfirm: bool,
    pub refresh: bool,
    pub sysupgrade: bool,
    pub dry_run: bool,
    pub forwarded_flags: Vec<String>,
}

impl Default for InstallOptions {
    fn default() -> (r: Self)
        ensures
            r.needed,
            !r.noconfirm,
            !r.refresh,
            !r.sysupgrade,
            !r.dry_run,
            r.forwarded_flags@.len() == 0,
    {
        InstallOptions {
            needed: true,
            noconfirm: false,
            refresh: false,
            sysupgrade: false,
            dry_run: false,
            forwarded_flags: Vec::new(),
        }
    }
}

/// A program and its arguments.
#[derive(Debug, Clone)]
pub struct CommandLine {
    pub program: String,
    pub args: Vec<String>,
}

/// `c` runs `program` with `args`.
pub open spec fn runs(c: CommandLine, program: Seq<char>, args: Seq<Seq<char>>) -> bool {
    c.program@ == program && text::texts(c.args@) == args
}

// ---------------------------------------------------------------------------------------
// Commands

/// The options that both programs get, then a double hyphen.
pub open spec fn option_words(o: InstallOptions) -> Seq<Seq<char>> {
    (if o.needed {
        seq!["--needed"@]
    } else {
        Seq::empty()
    }) + (if o.noconfirm {
        seq!["--noconfirm"@]
    } else {
        Seq::empty()
    }) + text::texts(o.forwarded_flags@) + seq!["--"@]
}

/// Synchronise, also refresh, also upgrade everything.
pub open spec fn pacman_op(refresh: bool, sysupgrade: bool) -> Seq<char> {
    if sysupgrade {
        if refresh {
            "-Syu"@
        } else {
            "-Su"@
        }
    } else {
        "-S"@
    }
}

/// The helper upgrades everything only where pacman has nothing to do.
pub open spec fn aur_op(refresh: bool, sysupgrade: bool, alone: bool) -> Seq<char> {
    pacman_op(refresh, sysupgrade && alone)
}

/// A target as a word of a command line that is shown or recorded.
pub open spec fn shown_target(t: Seq<char>) -> Seq<char> {
    if t.contains(' ') || t.contains('\'') || t.contains('"') {
        utils::quoted(t)
    } else {
        t
    }
}

pub open spec fn shown_targets(ts: Seq<Seq<char>>) -> Seq<Seq<char>> {
    Seq::new(ts.len(), |i: int| shown_target(ts[i]))
}

/// A command as it is shown: its words, and behind them the targets.
pub open spec fn shown_command(words: Seq<Seq<char>>, ts: Seq<Seq<char>>) -> Seq<char> {
    text::join(words, " "@) + " "@ + text::join(shown_targets(ts), " "@)
}

pub open spec fn pacman_words(o: InstallOptions, op: Seq<char>) -> Seq<Seq<char>> {
    seq!["sudo"@, "pacman"@, op] + option_words(o)
}

pub open spec fn aur_words(o: InstallOptions, helper: Seq<char>, op: Seq<char>) -> Seq<Seq<char>> {
    seq![helper, op, "--aur"@] + option_words(o)
}

/// The commands that install the targets, as they are shown.
pub open spec fn install_commands(
    pacman: Seq<Seq<char>>,
    aur: Seq<Seq<char>>,
    helper: Seq<char>,
    o: InstallOptions,
    sysupgrade: bool,
) -> Seq<Seq<char>> {
    (if o.dry_run && o.refresh && !sysupgrade {
        seq!["sudo pacman -Sy"@]
    } else {
        Seq::empty()
    }) + (if pacman.len() > 0 {
        seq![shown_command(pacman_words(o, pacman_op(o.refresh, sysupgrade)), pacman)]
    } else {
        Seq::empty()
    }) + (if aur.len() > 0 {
        seq![
            shown_command(
                aur_words(o, helper, aur_op(o.refresh, sysupgrade, pacman.len() == 0)),
                aur,
            ),
        ]
    } else {
        Seq::empty()
    })
}

fn push_options(words: &mut Vec<String>, o: &InstallOptions)
    ensures
        text::texts(final(words)@) == text::texts(old(words)@) + option_words(*o),
{
    let ghost before = text::texts(words@);
    if o.needed {
        push_str(words, "--needed");
    }
    if o.noconfirm {
        push_str(words, "--noconfirm");
    }
    push_strs(words, &o.forwarded_flags);
    push_str(words, "--");
    assert(text::texts(words@) =~= before + option_words(*o));
}

fn show_targets(ts: &Vec<String>) -> (r: Vec<String>)
    ensures
        text::texts(r@) == shown_targets(text::texts(ts@)),
{
    let mut out: Vec<String> = Vec::new();
    let mut i: usize = 0;
    while i < ts.len()
        invariant
            i <= ts@.len(),
            out@.len() == i,
            forall|j: int| 0 <= j < i ==> (#[trigger] out@[j])@ == shown_target(ts@[j]@),
        decreases ts@.len() - i,
    {
        let t = &ts[i];
        if contains_char(t, ' ') || contains_char(t, '\'') || contains_char(t, '"') {
            out.push(shell_quote(t));
        } else {
            out.push(t.clone());
        }
        i += 1;
    }
    assert(text::texts(out@) =~= shown_targets(text::texts(ts@)));
    out
}

fn show_command(words: &Vec<String>, ts: &Vec<String>) -> (r: String)
    ensures
        r@ == shown_command(text::texts(words@), text::texts(ts@)),
{
    let mut s = join_strings(words, " ");
    s.append(" ");
    let shown = show_targets(ts);
    let t = join_strings(&shown, " ");
    s.append(&t);
    s
}

/// The operation that pacman is asked for.
pub fn pacman_operation(refresh: bool, sysupgrade: bool) -> (r: &'static str)
    ensures
        r@ == pacman_op(refresh, sysupgrade),
{
    if sysupgrade {
        if refresh {
            "-Syu"
        } else {
            "-Su"
        }
    } else {
        "-S"
    }
}

pub(crate) fn pacman_command_words(o: &InstallOptions, op: &str) -> (r: Vec<String>)
    ensures
        text::texts(r@) == pacman_words(*o, op@),
{
    let mut w = no_strings();
    push_str(&mut w, "sudo");
    push_str(&mut w, "pacman");
    push_str(&mut w, op);
    assert(text::texts(w@) =~= seq!["sudo"@, "pacman"@, op@]);
    push_options(&mut w, o);
    w
}

pub(crate) fn aur_command_words(o: &InstallOptions, helper: &str, op: &str) -> (r: Vec<String>)
    ensures
        text::texts(r@) == aur_words(*o, helper@, op@),
{
    let mut w = no_strings();
    push_str(&mut w, helper);
    push_str(&mut w, op);
    push_str(&mut w, "--aur");
    assert(text::texts(w@) =~= seq![helper@, op@, "--aur"@]);
    push_options(&mut w, o);
    w
}

/// The commands that install the targets, as they are shown, and the operations that pacman
/// and the AUR helper are asked for.
pub fn build_install_commands(
    pacman_targets: &Vec<String>,
    aur_targets: &Vec<String>,
    helper: &str,
    options: &InstallOptions,
    sysupgrade: bool,
) -> (r: (Vec<String>, &'static str, &'static str))
    ensures
        text::texts(r.0@) == install_commands(
            text::texts(pacman_targets@),
            text::texts(aur_targets@),
            helper@,
            *options,
            sysupgrade,
        ),
        r.1@ == pacman_op(options.refresh, sysupgrade),
        r.2@ == aur_op(options.refresh, sysupgrade, pacman_targets@.len() == 0),
{
    let op = pacman_operation(options.refresh, sysupgrade);
    let helper_op = pacman_operation(options.refresh, sysupgrade && pacman_targets.len() == 0);
    let mut out = no_strings();
    if options.dry_run && options.refresh && !sysupgrade {
        push_str(&mut out, "sudo pacman -Sy");
    }
    let ghost first = text::texts(out@);
    if pacman_targets.len() > 0 {
        let w = pacman_command_words(options, op);
        let c = show_command(&w, pacman_targets);
        push_str(&mut out, &c);
    }
    let ghost second = text::texts(out@);
    if aur_targets.len() > 0 {
        let w = aur_command_words(options, helper, helper_op);
        let c = show_command(&w, aur_targets);
        push_str(&mut out, &c);
    }
    assert(text::texts(out@) =~= install_commands(
        text::texts(pacman_targets@),
        text::texts(aur_targets@),
        helper@,
        *options,
        sysupgrade,
    ));
    (out, op, helper_op)
}

/// The command that installs targets with pacman.
pub fn pacman_install(pacman_targets: &Vec<String>, options: &InstallOptions, sysupgrade: bool) -> (r:
    CommandLine)
    ensures
        runs(
            r,
            "sudo"@,
            seq!["pacman"@, pacman_op(options.refresh, sysupgrade)] + option_words(*options)
                + text::texts(pacman_targets@),
        ),
{
    let mut a = no_strings();
    push_str(&mut a, "pacman");
    push_str(&mut a, pacman_operation(options.refresh, sysupgrade));
    assert(text::texts(a@) =~= seq!["pacman"@, pacman_op(options.refresh, sysupgrade)]);
    push_options(&mut a, options);
    push_strs(&mut a, pacman_targets);
    CommandLine { program: "sudo".to_string(), args: a }
}

/// The command that installs targets with the AUR helper.
pub fn aur_install(
    aur_targets: &Vec<String>,
    helper: &str,
    options: &InstallOptions,
    sysupgrade: bool,
    alone: bool,
) -> (r: CommandLine)
    ensures
        runs(
            r,
            helper@,
            seq![aur_op(options.refresh, sysupgrade, alone), "--aur"@] + option_words(*options)
                + text::texts(aur_targets@),
        ),
{
    let mut a = no_strings();
    push_str(&mut a, pacman_operation(options.refresh, sysupgrade && alone));
    push_str(&mut a, "--aur");
    assert(text::texts(a@) =~= seq![aur_op(options.refresh, sysupgrade, alone), "--aur"@]);
    push_options(&mut a, options);
    push_strs(&mut a, aur_targets);
    CommandLine { program: helper.to_string(), args: a }
}

/// In the command line that is handed to pacman, everything behind the double hyphen is a
/// target, and there are no others: a target can never be read as an option.
pub proof fn targets_follow_double_hyphen(
    o: InstallOptions,
    op: Seq<char>,
    ts: Seq<Seq<char>>,
    i: int,
)
    requires
        0 <= i < ts.len(),
    ensures
        ({
            let all = seq!["pacman"@, op] + option_words(o) + ts;
            let at = all.len() - ts.len() - 1;
            all[at] == "--"@ && all[at + 1 + i] == ts[i]
        }),
{
    let head = seq!["pacman"@, op] + option_words(o);
    let all = head + ts;
    assert(option_words(o).last() == "--"@);
    assert(head[head.len() - 1] == option_words(o)[option_words(o).len() - 1]);
}

// ---------------------------------------------------------------------------------------
// The database lock

/// The waiting time that the flags ask for, from position `i` on: the first `--wait=` with a
/// number, or `--wait` with a number behind it or else 600.
pub open spec fn wait_from(flags: Seq<Seq<char>>, i: int) -> Option<int>
    decreases flags.len() - i,
{
    if i < 0 || i >= flags.len() {
        None
    } else if text::begins(flags[i], "--wait="@) {
        match text::number(flags[i].skip(7), u64::MAX as int) {
            Some(n) => Some(n),
            None => wait_from(flags, i + 1),
        }
    } else if flags[i] == "--wait"@ {
        if i + 1 < flags.len() {
            match text::number(flags[i + 1], u64::MAX as int) {
                Some(n) => Some(n),
                None => Some(600),
            }
        } else {
            Some(600)
        }
    } else {
        wait_from(flags, i + 1)
    }
}

/// The seconds to wait for the database lock, where the flags ask for it.
pub fn wait_seconds(flags: &Vec<String>) -> (r: Option<u64>)
    ensures
        match r {
            Some(n) => wait_from(text::texts(flags@), 0) == Some(n as int),
            None => wait_from(text::texts(flags@), 0) is None,
        },
{
    proof {
        reveal_strlit("--wait=");
    }
    let ghost all = text::texts(flags@);
    let mut i: usize = 0;
    while i < flags.len()
        invariant
            i <= flags@.len(),
            all == text::texts(flags@),
            "--wait="@.len() == 7,
            wait_from(all, 0) == wait_from(all, i as int),
        decreases flags@.len() - i,
    {
        let f = &flags[i];
        assert(all[i as int] == f@);
        if starts_with(f, "--wait=") {
            let cs = chars_of(f);
            let rest = sub_string(&cs, 7, cs.len());
            assert(rest@ =~= f@.skip(7));
            if let Some(n) = parse_number(&rest, u64::MAX) {
                return Some(n);
            }
        } else if str_eq(f, "--wait") {
            if i + 1 < flags.len() {
                assert(all[i + 1] == flags@[i + 1]@);
                if let Some(n) = parse_number(&flags[i + 1], u64::MAX) {
                    return Some(n);
                }
            }
            return Some(600);
        }
        i += 1;
    }
    None
}

/// The lock of the package database, and the process that holds it.
#[derive(Debug, Clone)]
pub struct LockInfo {
    pub path: String,
    pub pid: Option<i32>,
    pub process_name: Option<String>,
    pub is_alive: bool,
}

/// The process number in a lock file: its first word, if that is a positive number.
pub open spec fn pid_in(content: Seq<char>) -> Option<int> {
    let ws = text::words(content);
    if ws.len() == 0 {
        None
    } else {
        match text::number(ws[0], i32::MAX as int) {
            Some(n) => if n > 0 {
                Some(n)
            } else {
                None
            },
            None => None,
        }
    }
}

pub fn lock_pid(content: &str) -> (r: Option<i32>)
    ensures
        match r {
            Some(n) => pid_in(content@) == Some(n as int) && n > 0,
            None => pid_in(content@) is None,
        },
{
    let ws = words_of(content);
    if ws.len() == 0 {
        assert(text::texts(ws@).len() == 0);
        return None;
    }
    assert(text::texts(ws@)[0] == ws@[0]@);
    match parse_number(&ws[0], i32::MAX as u64) {
        Some(n) => if n > 0 {
            Some(n as i32)
        } else {
            None
        },
        None => None,
    }
}

/// The programs that take the lock.
pub open spec fn manager_name(name: Seq<char>) -> bool {
    ||| name == "pacman"@
    ||| name == "paru"@
    ||| name == "yay"@
    ||| name == "pamac-daemon"@
    ||| name == "packagekitd"@
    ||| name == "pamac"@
    ||| name == "pacpin"@
    ||| name == "pin"@
}

pub fn is_manager_name(name: &str) -> (r: bool)
    ensures
        r == manager_name(name@),
{
    str_eq(name, "pacman") || str_eq(name, "paru") || str_eq(name, "yay") || str_eq(
        name,
        "pamac-daemon",
    ) || str_eq(name, "packagekitd") || str_eq(name, "pamac") || str_eq(name, "pacpin") || str_eq(
        name,
        "pin",
    )
}

/// A running process: the name of its entry, and the name of its program where that can be
/// read.
#[derive(Debug, Clone)]
pub struct Process {
    pub entry: String,
    pub comm: Option<String>,
}

/// A process other than `my_pid` that runs a program which takes the lock.
pub open spec fn runs_manager(p: Process, my_pid: i32) -> bool {
    match (text::number(p.entry@, i32::MAX as int), p.comm) {
        (Some(n), Some(c)) => n != my_pid && manager_name(text::trim(c@)),
        _ => false,
    }
}

/// The first process from `i` on that runs a program which takes the lock.
pub open spec fn manager_from(ps: Seq<Process>, my_pid: i32, i: int) -> Option<int>
    decreases ps.len() - i,
{
    if i < 0 || i >= ps.len() {
        None
    } else if runs_manager(ps[i], my_pid) {
        Some(i)
    } else {
        manager_from(ps, my_pid, i + 1)
    }
}

/// What is known of a lock without a process number: the first running program that takes
/// locks is taken to hold it, and without one it is stale.
pub fn lock_by_processes(path: &str, my_pid: i32, ps: &Vec<Process>) -> (r: LockInfo)
    ensures
        r.path@ == path@,
        match manager_from(ps@, my_pid, 0) {
            Some(i) => {
                &&& r.is_alive
                &&& r.pid is Some
                &&& text::number(ps@[i].entry@, i32::MAX as int) == Some(r.pid->0 as int)
                &&& text::opt_text(r.process_name) == Some(text::trim(ps@[i].comm->0@))
            },
            None => !r.is_alive && r.pid is None && r.process_name is None,
        },
{
    let mut i: usize = 0;
    while i < ps.len()
        invariant
            i <= ps@.len(),
            manager_from(ps@, my_pid, 0) == manager_from(ps@, my_pid, i as int),
        decreases ps@.len() - i,
    {
        let p = &ps[i];
        if let Some(n) = parse_number(&p.entry, i32::MAX as u64) {
            let pid: i32 = n as i32;
            if pid != my_pid {
                if let Some(c) = &p.comm {
                    let name = trimmed(c);
                    if is_manager_name(&name) {
                        return LockInfo {
                            path: path.to_string(),
                            pid: Some(pid),
                            process_name: Some(name),
                            is_alive: true,
                        };
                    }
                }
            }
        }
        i += 1;
    }
    LockInfo { path: path.to_string(), pid: None, process_name: None, is_alive: false }
}

/// What is known of a lock with a process number.
pub fn lock_by_pid(path: &str, pid: i32, is_alive: bool, comm: Option<&str>) -> (r: LockInfo)
    ensures
        r.path@ == path@,
        r.pid == Some(pid),
        r.is_alive == is_alive,
        text::opt_text(r.process_name) == match comm {
            Some(c) => if is_alive {
                Some(text::trim(c@))
            } else {
                None
            },
            None => None,
        },
{
    let name: Option<String> = match comm {
        Some(c) => if is_alive {
            Some(trimmed(c))
        } else {
            None
        },
        None => None,
    };
    LockInfo { path: path.to_string(), pid: Some(pid), process_name: name, is_alive }
}

/// Why a lock is in the way.
pub open spec fn lock_text(l: LockInfo) -> Seq<char> {
    let remove = "If no other package manager is active, remove it with: sudo rm "@ + l.path@;
    if !l.is_alive {
        match l.pid {
            Some(pid) => "Pacman database lock exists ("@ + l.path@ + "), but process PID "@
                + text::signed_digits(pid as int) + " is no longer running (stale lock).\n"@ + remove,
            None => "Pacman database lock exists ("@ + l.path@
                + "), but no active package manager process (pacman, paru, yay) is running (stale lock).\n"@
                + remove,
        }
    } else {
        "Pacman database is locked ("@ + l.path@ + "). "@ + match (l.process_name, l.pid) {
            (Some(name), Some(pid)) => "Process '"@ + name@ + "' (PID "@ + text::signed_digits(pid as int)
                + ") is currently running."@,
            (Some(name), None) => "Process '"@ + name@ + "' is currently running."@,
            (None, Some(pid)) => "Process PID "@ + text::signed_digits(pid as int)
                + " is currently running."@,
            (None, None) => "Another package management process is currently running."@,
        }
    }
}

/// Whether the database can be used: not while there is a lock.
pub fn check_lock(info: &Option<LockInfo>) -> (r: Result<(), String>)
    ensures
        match info {
            None => r is Ok,
            Some(l) => r is Err && r->Err_0@ == lock_text(*l),
        },
{
    let l = match info {
        None => {
            return Ok(());
        },
        Some(l) => l,
    };
    let mut remove: String =
        "If no other package manager is active, remove it with: sudo rm ".to_string();
    remove.append(&l.path);
    if !l.is_alive {
        let mut e: String = "Pacman database lock exists (".to_string();
        e.append(&l.path);
        match l.pid {
            Some(pid) => {
                e.append("), but process PID ");
                let p = signed_text(pid as i64);
                e.append(&p);
                e.append(" is no longer running (stale lock).\n");
            },
            None => {
                e.append(
                    "), but no active package manager process (pacman, paru, yay) is running (stale lock).\n",
                );
            },
        }
        e.append(&remove);
        return Err(e);
    }
    let mut tail: String = String::new();
    match &l.process_name {
        Some(name) => {
            tail.append("Process '");
            tail.append(name);
            match l.pid {
                Some(pid) => {
                    tail.append("' (PID ");
                    let p = signed_text(pid as i64);
                    tail.append(&p);
                    tail.append(") is currently running.");
                },
                None => {
                    tail.append("' is currently running.");
                },
            }
        },
        None => match l.pid {
            Some(pid) => {
                tail.append("Process PID ");
                let p = signed_text(pid as i64);
                tail.append(&p);
                tail.append(" is currently running.");
            },
            None => {
                tail.append("Another package management process is currently running.");
            },
        },
    }
    proof {
        let empty = Seq::<char>::empty();
        assert(empty + "Process '"@ =~= "Process '"@);
        assert(empty + "Process PID "@ =~= "Process PID "@);
        assert(empty + "Another package management process is currently running."@
            =~= "Another package management process is currently running."@);
    }
    let mut e: String = "Pacman database is locked (".to_string();
    e.append(&l.path);
    e.append("). ");
    e.append(&tail);
    Err(e)
}

/// What to do while waiting for the lock.
#[derive(Debug, Clone)]
pub enum LockWait {
    /// The database is free.
    Free,
    /// Waiting is of no use, or has taken too long.
    Fail(String),
    /// Look again in half a second.
    Again,
}

/// The next step of waiting for the lock, `elapsed_ms` milliseconds after it began: a stale
/// lock fails at once, and a live one when the time is up.
pub fn wait_for_lock(info: &Option<LockInfo>, elapsed_ms: u64, max_wait_secs: u64) -> (r: LockWait)
    ensures
        match info {
            None => r is Free,
            Some(l) => if !l.is_alive {
                r is Fail && r->Fail_0@ == lock_text(*l)
            } else if elapsed_ms >= max_wait_secs * 1000 {
                r is Fail && r->Fail_0@ == "Timed out waiting for pacman database lock after "@
                    + text::digits_of(max_wait_secs as nat) + "s: "@ + lock_text(*l)
            } else {
                r is Again
            },
        },
{
    match info {
        None => LockWait::Free,
        Some(l) => {
            let text: String = match check_lock(info) {
                Ok(()) => String::new(),
                Err(e) => e,
            };
            if !l.is_alive {
                return LockWait::Fail(text);
            }
            if elapsed_ms as u128 >= max_wait_secs as u128 * 1000 {
                let mut e: String = "Timed out waiting for pacman database lock after ".to_string();
                let s = number_text(max_wait_secs);
                e.append(&s);
                e.append("s: ");
                e.append(&text);
                return LockWait::Fail(e);
            }
            LockWait::Again
        },
    }
}

} // verus!
