//! The course of an installation or a removal, decision by decision.

use crate::aur::{AurItem, clean_dep_name};
use crate::aur;
use crate::config::Config;
use crate::db::{AlpmManager, LocalPackage, SyncPackage, push_new};
use crate::db;
use crate::double::{days_left_of, tenths_of};
use crate::double;
use crate::download_plan::{Found, Known};
use crate::download_plan;
use crate::pm::{CommandLine, InstallOptions, aur_command_words, pacman_command_words, pacman_operation, wait_seconds};
use crate::pm;
use crate::resolver::{DAY, ResolverEngine};
use crate::resolver;
use crate::strmap::StrMap;
use crate::strmap;
use crate::text::{clone_strings, cut_at, eq_ignore_case, join_strings, list_contains, lower_string, no_strings, number_text, push_str, push_strs, signed_text, str_eq, text3, trimmed};
use crate::text;
use crate::utils::is_safe_install_target;
use crate::utils;
use vstd::prelude::*;
use vstd::string::*;

verus! {

/// How a program that was run has ended.
#[derive(Debug, Clone)]
pub enum RunResult {
    Success,
    /// It ended with this code; 1 where it was stopped without one.
    Exit(i32),
    /// It could not be run, for this reason.
    Failed(String),
}

// ---------------------------------------------------------------------------------------
// Before anything is run

/// The first target from `i` on that is unsafe.
pub open spec fn unsafe_from(ts: Seq<Seq<char>>, i: int) -> Option<int>
    decreases ts.len() - i,
{
    if i < 0 || i >= ts.len() {
        None
    } else if !utils::safe_install_target(ts[i]) {
        Some(i)
    } else {
        unsafe_from(ts, i + 1)
    }
}

proof fn unsafe_from_none(ts: Seq<Seq<char>>, i: int, k: int)
    requires
        unsafe_from(ts, i) is None,
        0 <= i <= k < ts.len(),
    ensures
        utils::safe_install_target(ts[k]),
    decreases k - i,
{
    if i < k {
        unsafe_from_none(ts, i + 1, k);
    }
}

/// Where a request is accepted, every target of it is safe.
pub proof fn accepted_targets_are_safe(ts: Seq<Seq<char>>, k: int)
    requires
        unsafe_from(ts, 0) is None,
        0 <= k < ts.len(),
    ensures
        utils::safe_install_target(ts[k]),
{
    unsafe_from_none(ts, 0, k);
}

fn first_unsafe(ts: &Vec<String>) -> (r: Option<usize>)
    ensures
        match r {
            Some(i) => unsafe_from(text::texts(ts@), 0) == Some(i as int) && i < ts@.len(),
            None => unsafe_from(text::texts(ts@), 0) is None,
        },
{
    let ghost all = text::texts(ts@);
    let mut i: usize = 0;
    while i < ts.len()
        invariant
            i <= ts@.len(),
            all == text::texts(ts@),
            unsafe_from(all, 0) == unsafe_from(all, i as int),
        decreases ts@.len() - i,
    {
        assert(all[i as int] == ts@[i as int]@);
        if !is_safe_install_target(&ts[i]) {
            return Some(i);
        }
        i += 1;
    }
    None
}

/// Accepts or refuses a request to install: there must be targets, and all of them safe.
/// What comes back is the time to wait for the database lock, if the flags ask for it.
pub fn install(targets: &Vec<String>, options: &InstallOptions) -> (r: Result<Option<u64>, String>)
    ensures
        match r {
            Ok(w) => {
                &&& targets@.len() > 0
                &&& unsafe_from(text::texts(targets@), 0) is None
                &&& match w {
                    Some(n) => pm::wait_from(text::texts(options.forwarded_flags@), 0) == Some(n as int),
                    None => pm::wait_from(text::texts(options.forwarded_flags@), 0) is None,
                }
            },
            Err(e) => if targets@.len() == 0 {
                e@ == "No package targets specified."@
            } else {
                unsafe_from(text::texts(targets@), 0) is Some && e@ == "Refusing unsafe package target '"@
                    + targets@[unsafe_from(text::texts(targets@), 0)->0]@ + "'."@
            },
        },
{
    if targets.len() == 0 {
        return Err("No package targets specified.".to_string());
    }
    if let Some(i) = first_unsafe(targets) {
        let mut e: String = "Refusing unsafe package target '".to_string();
        e.append(&targets[i]);
        e.append("'.");
        return Err(e);
    }
    Ok(wait_seconds(&options.forwarded_flags))
}

/// Whether an installation may go on that refreshes the databases without upgrading the
/// system.
#[derive(Debug, Clone)]
pub enum Gate {
    /// Nothing speaks against it.
    Open,
    /// Warn, and go on.
    Warn,
    /// Ask whether to upgrade the whole system instead.
    Ask,
    Refuse(String),
}

pub open spec fn refusal_text() -> Seq<char> {
    "Error: Partial upgrade requested ('-Sy' with targets) in non-interactive environment without --noconfirm. Use '-Syu' for a full safe upgrade, or provide --noconfirm."@
}

pub fn partial_upgrade_gate(options: &InstallOptions, terminal: bool) -> (r: Gate)
    ensures
        ({
            let partial = options.refresh && !options.sysupgrade;
            if !partial {
                r is Open
            } else if options.dry_run || options.noconfirm {
                r is Warn
            } else if terminal {
                r is Ask
            } else {
                r is Refuse && r->Refuse_0@ == refusal_text()
            }
        }),
        r is Open <==> options.sysupgrade || !options.refresh,
        r is Refuse ==> !terminal && !options.noconfirm && !options.dry_run,
        r is Warn ==> options.noconfirm || options.dry_run,
        r is Ask ==> terminal,
{
    if !(options.refresh && !options.sysupgrade) {
        Gate::Open
    } else if options.dry_run || options.noconfirm {
        Gate::Warn
    } else if terminal {
        Gate::Ask
    } else {
        Gate::Refuse(
            "Error: Partial upgrade requested ('-Sy' with targets) in non-interactive environment without --noconfirm. Use '-Syu' for a full safe upgrade, or provide --noconfirm.".to_string(),
        )
    }
}

/// An answer, without regard to case and to white space around it.
pub open spec fn answered(s: Seq<char>, word: Seq<char>) -> bool {
    text::lower(text::trim(s)) == word
}

pub open spec fn says_yes(s: Seq<char>) -> bool {
    answered(s, "y"@) || answered(s, "yes"@)
}

pub open spec fn says_no(s: Seq<char>) -> bool {
    answered(s, "n"@) || answered(s, "no"@)
}

pub fn is_yes(s: &str) -> (r: bool)
    ensures
        r == says_yes(s@),
{
    let t = trimmed(s);
    let l = lower_string(&t);
    str_eq(&l, "y") || str_eq(&l, "yes")
}

pub fn is_no(s: &str) -> (r: bool)
    ensures
        r == says_no(s@),
{
    let t = trimmed(s);
    let l = lower_string(&t);
    str_eq(&l, "n") || str_eq(&l, "no")
}

pub open spec fn is_blank(s: Seq<char>) -> bool {
    text::trim(s).len() == 0
}

pub fn blank(s: &str) -> (r: bool)
    ensures
        r == is_blank(s@),
{
    let t = trimmed(s);
    t.as_str().is_empty()
}

/// What follows from the answer to the question for a full upgrade.
#[derive(Debug, Clone)]
pub enum UpgradeAnswer {
    /// Upgrade the whole system.
    Full,
    /// Ask whether to go on with the partial upgrade.
    AskPartial,
    Abort(String),
}

/// `answer` is nothing where none could be read.
pub fn upgrade_answer(answer: Option<&str>) -> (r: UpgradeAnswer)
    ensures
        match answer {
            None => r is Abort && r->Abort_0@ == "Aborted."@,
            Some(a) => if is_blank(a@) || says_yes(a@) {
                r is Full
            } else {
                r is AskPartial
            },
        },
{
    match answer {
        None => UpgradeAnswer::Abort("Aborted.".to_string()),
        Some(a) => if blank(a) || is_yes(a) {
            UpgradeAnswer::Full
        } else {
            UpgradeAnswer::AskPartial
        },
    }
}

/// Whether to go on with a partial upgrade: only on a clear yes.
pub fn partial_answer(answer: Option<&str>) -> (r: Result<(), String>)
    ensures
        match answer {
            None => r is Err && r->Err_0@ == "Aborted."@,
            Some(a) => if says_yes(a@) {
                r is Ok
            } else {
                r is Err && r->Err_0@ == "Aborted partial upgrade to prevent system breakage."@
            },
        },
        r is Ok <==> answer is Some && says_yes(answer->0@),
{
    match answer {
        None => Err("Aborted.".to_string()),
        Some(a) => if is_yes(a) {
            Ok(())
        } else {
            Err("Aborted partial upgrade to prevent system breakage.".to_string())
        },
    }
}

/// What the end of a database refresh means for the installation.
pub fn refresh_result(run: &RunResult) -> (r: Result<(), String>)
    ensures
        match run {
            RunResult::Success => r is Ok,
            RunResult::Exit(c) => r is Err && r->Err_0@ == "Database refresh failed with exit code "@
                + text::signed_digits(*c as int) + "."@,
            RunResult::Failed(e) => r is Err && r->Err_0@ == "Failed to run sudo pacman: "@ + e@,
        },
{
    match run {
        RunResult::Success => Ok(()),
        RunResult::Exit(c) => {
            let mut e: String = "Database refresh failed with exit code ".to_string();
            let n = signed_text(*c as i64);
            e.append(&n);
            e.append(".");
            Err(e)
        },
        RunResult::Failed(x) => {
            let mut e: String = "Failed to run sudo pacman: ".to_string();
            e.append(x);
            Err(e)
        },
    }
}

// ---------------------------------------------------------------------------------------
// Where each target is installed from

/// What is going to be installed by which program, and which pins follow if it works.
#[derive(Debug, Clone)]
pub struct InstallPlan {
    pub pacman_targets: Vec<String>,
    pub aur_targets: Vec<String>,
    pub pending_pins: Vec<(String, String)>,
}

#[verifier::ext_equal]
pub struct InstallPlanView {
    pub pacman: Seq<Seq<char>>,
    pub aur: Seq<Seq<char>>,
    pub pins: Seq<(Seq<char>, Seq<char>)>,
}

impl View for InstallPlan {
    type V = InstallPlanView;

    open spec fn view(&self) -> InstallPlanView {
        InstallPlanView {
            pacman: text::texts(self.pacman_targets@),
            aur: text::texts(self.aur_targets@),
            pins: resolver::pairs(self.pending_pins@),
        }
    }
}

/// The names in `names`, each below `repo`.
pub open spec fn qualified(repo: Seq<char>, names: Seq<Seq<char>>) -> Seq<Seq<char>> {
    Seq::new(names.len(), |i: int| repo + "/"@ + names[i])
}

/// The names in `names`, each with `repo`.
pub open spec fn pinned_all(repo: Seq<char>, names: Seq<Seq<char>>) -> Seq<(Seq<char>, Seq<char>)> {
    Seq::new(names.len(), |i: int| (names[i], repo))
}

/// A plan with one more target. A target with a repository brings its companions along and
/// is pinned to that repository; one without goes to pacman if a repository has it, else to
/// the AUR helper if the AUR has it, and is then pinned to the AUR.
pub open spec fn placed(
    p: InstallPlanView,
    repos: Seq<Seq<char>>,
    target: Seq<char>,
    in_sync: bool,
    in_aur: bool,
    companions: Seq<Seq<char>>,
) -> Result<InstallPlanView, Seq<char>> {
    match text::cut(target, '/') {
        Some((repo, pkg)) => {
            let names = seq![pkg] + companions;
            if !(repos.contains(repo) || repo == "aur"@) {
                Err(
                    "Repository '["@ + repo + "]' is not recognized. Configured repositories: "@
                        + text::join(repos.push("aur"@), ", "@),
                )
            } else if text::same_ignoring_case(repo, "aur"@) {
                Ok(
                    InstallPlanView {
                        aur: p.aur + names,
                        pins: p.pins + pinned_all("aur"@, names),
                        ..p
                    },
                )
            } else {
                Ok(
                    InstallPlanView {
                        pacman: p.pacman + qualified(repo, names),
                        pins: p.pins + pinned_all(repo, names),
                        ..p
                    },
                )
            }
        },
        None => if !in_sync && in_aur {
            Ok(
                InstallPlanView {
                    aur: p.aur.push(target),
                    pins: p.pins.push((target, "aur"@)),
                    ..p
                },
            )
        } else {
            Ok(InstallPlanView { pacman: p.pacman.push(target), ..p })
        },
    }
}

fn push_pin(pins: &mut Vec<(String, String)>, name: &str, repo: &str)
    ensures
        resolver::pairs(final(pins)@) == resolver::pairs(old(pins)@).push((name@, repo@)),
{
    let ghost before = resolver::pairs(pins@);
    pins.push((name.to_string(), repo.to_string()));
    assert(resolver::pairs(pins@) =~= before.push((name@, repo@)));
}

impl InstallPlan {
    pub fn new() -> (r: Self)
        ensures
            r@ == (InstallPlanView { pacman: Seq::empty(), aur: Seq::empty(), pins: Seq::empty() }),
    {
        let r = InstallPlan {
            pacman_targets: Vec::new(),
            aur_targets: Vec::new(),
            pending_pins: Vec::new(),
        };
        assert(r@ =~= (InstallPlanView { pacman: Seq::empty(), aur: Seq::empty(), pins: Seq::empty() }));
        r
    }

    fn add_from_repo(&mut self, repo: &str, name: &str, aur: bool)
        ensures
            aur ==> final(self)@ == (InstallPlanView {
                aur: old(self)@.aur.push(name@),
                pins: old(self)@.pins.push((name@, "aur"@)),
                ..old(self)@
            }),
            !aur ==> final(self)@ == (InstallPlanView {
                pacman: old(self)@.pacman.push(repo@ + "/"@ + name@),
                pins: old(self)@.pins.push((name@, repo@)),
                ..old(self)@
            }),
    {
        if aur {
            push_pin(&mut self.pending_pins, name, "aur");
            push_str(&mut self.aur_targets, name);
        } else {
            push_pin(&mut self.pending_pins, name, repo);
            let mut t: String = repo.to_string();
            t.append("/");
            t.append(name);
            push_str(&mut self.pacman_targets, &t);
        }
    }

    /// Takes a target into the plan; `repos` are the configured repositories, `in_sync` and
    /// `in_aur` say where a target without a repository is to be had, and `companions` are
    /// the packages that were chosen to go along with one that names its repository.
    pub fn place(
        &mut self,
        repos: &Vec<String>,
        target: &str,
        in_sync: bool,
        in_aur: bool,
        companions: &Vec<String>,
    ) -> (r: Result<(), String>)
        ensures
            match placed(
                old(self)@,
                text::texts(repos@),
                target@,
                in_sync,
                in_aur,
                text::texts(companions@),
            ) {
                Ok(p) => r is Ok && final(self)@ == p,
                Err(e) => r is Err && r->Err_0@ == e && final(self)@ == old(self)@,
            },
    {
        let ghost before = self@;
        match cut_at(target, '/') {
            Some((repo, pkg)) => {
                if !(list_contains(repos, &repo) || str_eq(&repo, "aur")) {
                    let mut known = clone_strings(repos);
                    push_str(&mut known, "aur");
                    let list = join_strings(&known, ", ");
                    let mut e: String = "Repository '[".to_string();
                    e.append(&repo);
                    e.append("]' is not recognized. Configured repositories: ");
                    e.append(&list);
                    return Err(e);
                }
                let aur: bool = eq_ignore_case(&repo, "aur");
                self.add_from_repo(&repo, &pkg, aur);
                let ghost names = seq![pkg@] + text::texts(companions@);
                let ghost goal = if aur {
                    InstallPlanView {
                        aur: before.aur + names.take(1),
                        pins: before.pins + pinned_all("aur"@, names.take(1)),
                        ..before
                    }
                } else {
                    InstallPlanView {
                        pacman: before.pacman + qualified(repo@, names.take(1)),
                        pins: before.pins + pinned_all(repo@, names.take(1)),
                        ..before
                    }
                };
                assert(self@ =~= goal);
                let mut i: usize = 0;
                while i < companions.len()
                    invariant
                        i <= companions@.len(),
                        names == seq![pkg@] + text::texts(companions@),
                        aur ==> self@ == (InstallPlanView {
                            aur: before.aur + names.take(i + 1),
                            pins: before.pins + pinned_all("aur"@, names.take(i + 1)),
                            ..before
                        }),
                        !aur ==> self@ == (InstallPlanView {
                            pacman: before.pacman + qualified(repo@, names.take(i + 1)),
                            pins: before.pins + pinned_all(repo@, names.take(i + 1)),
                            ..before
                        }),
                    decreases companions@.len() - i,
                {
                    let ghost mid = self@;
                    self.add_from_repo(&repo, &companions[i], aur);
                    proof {
                        let a = names.take(i + 1);
                        let b = names.take(i + 2);
                        let n = companions@[i as int]@;
                        assert(names[i + 1] == n);
                        assert(b =~= a.push(n));
                        assert((before.aur + a).push(n) =~= before.aur + b);
                        assert((before.pacman + qualified(repo@, a)).push(repo@ + "/"@ + n)
                            =~= before.pacman + qualified(repo@, b));
                        assert((before.pins + pinned_all("aur"@, a)).push((n, "aur"@))
                            =~= before.pins + pinned_all("aur"@, b));
                        assert((before.pins + pinned_all(repo@, a)).push((n, repo@)) =~= before.pins
                            + pinned_all(repo@, b));
                    }
                    i += 1;
                }
                proof {
                    assert(names.take(companions@.len() as int + 1) =~= names);
                }
                Ok(())
            },
            None => {
                if !in_sync && in_aur {
                    push_str(&mut self.aur_targets, target);
                    push_pin(&mut self.pending_pins, target, "aur");
                } else {
                    push_str(&mut self.pacman_targets, target);
                }
                Ok(())
            },
        }
    }
}

// ---------------------------------------------------------------------------------------
// Conflicts with installed packages

/// The package that a target means: in the given repository or in any, under its own name or
/// as what satisfies it, in the first database from `d` on.
pub open spec fn meant_from(
    m: AlpmManager,
    k: Known,
    repo: Option<Seq<char>>,
    name: Seq<char>,
    d: int,
) -> Option<(int, int)>
    decreases m.sync@.len() - d,
{
    if d < 0 || d >= m.sync@.len() {
        None
    } else {
        match download_plan::find_in_db(m, k, d, name) {
            Found::At(e, i) => if repo is None || m.sync@[d].name@ == repo->0 {
                Some((e, i))
            } else {
                meant_from(m, k, repo, name, d + 1)
            },
            _ => meant_from(m, k, repo, name, d + 1),
        }
    }
}

pub open spec fn meant(m: AlpmManager, k: Known, target: Seq<char>) -> Option<(int, int)> {
    match text::cut(target, '/') {
        Some((repo, pkg)) => meant_from(m, k, Some(repo), pkg, 0),
        None => meant_from(m, k, None, target, 0),
    }
}

/// `s` with the pair of `cand` and `inst`, unless both are the same or the pair is there.
pub open spec fn add_pair(
    s: Seq<(Seq<char>, Seq<char>)>,
    cand: Seq<char>,
    inst: Seq<char>,
) -> Seq<(Seq<char>, Seq<char>)> {
    if inst == cand || s.contains((cand, inst)) {
        s
    } else {
        s.push((cand, inst))
    }
}

/// The conflicts of a candidate with what is installed, by its own first `n` declarations.
pub open spec fn own_conflicts(
    s: Seq<(Seq<char>, Seq<char>)>,
    p: SyncPackage,
    n: int,
) -> Seq<(Seq<char>, Seq<char>)>
    decreases n,
{
    if n <= 0 {
        s
    } else {
        match p.conflicts@[n - 1].installed {
            Some(inst) => add_pair(own_conflicts(s, p, n - 1), p.name@, inst@),
            None => own_conflicts(s, p, n - 1),
        }
    }
}

/// The conflicts that the first `n` installed packages declare with `dep`, as conflicts of
/// the candidate `cand`.
pub open spec fn declared_conflicts(
    s: Seq<(Seq<char>, Seq<char>)>,
    local: Seq<LocalPackage>,
    cand: Seq<char>,
    dep: Seq<char>,
    n: int,
) -> Seq<(Seq<char>, Seq<char>)>
    decreases n,
{
    if n <= 0 {
        s
    } else {
        let before = declared_conflicts(s, local, cand, dep, n - 1);
        if text::texts(local[n - 1].conflicts@).contains(dep) {
            add_pair(before, cand, local[n - 1].name@)
        } else {
            before
        }
    }
}

/// The conflicts that installed packages declare with the first `n` names that the candidate
/// provides.
pub open spec fn provided_conflicts(
    s: Seq<(Seq<char>, Seq<char>)>,
    local: Seq<LocalPackage>,
    p: SyncPackage,
    n: int,
) -> Seq<(Seq<char>, Seq<char>)>
    decreases n,
{
    if n <= 0 {
        s
    } else {
        declared_conflicts(
            provided_conflicts(s, local, p, n - 1),
            local,
            p.name@,
            p.provides@[n - 1]@,
            local.len() as int,
        )
    }
}

/// All conflicts of one candidate.
pub open spec fn conflicts_of(
    s: Seq<(Seq<char>, Seq<char>)>,
    local: Seq<LocalPackage>,
    p: SyncPackage,
) -> Seq<(Seq<char>, Seq<char>)> {
    provided_conflicts(
        declared_conflicts(
            own_conflicts(s, p, p.conflicts@.len() as int),
            local,
            p.name@,
            p.name@,
            local.len() as int,
        ),
        local,
        p,
        p.provides@.len() as int,
    )
}

/// The conflicts of the first `n` targets.
pub open spec fn target_conflicts(m: AlpmManager, k: Known, ts: Seq<Seq<char>>, n: int) -> Seq<
    (Seq<char>, Seq<char>),
>
    decreases n,
{
    if n <= 0 {
        Seq::empty()
    } else {
        let before = target_conflicts(m, k, ts, n - 1);
        match meant(m, k, ts[n - 1]) {
            Some((d, i)) => conflicts_of(before, m.local@, m.sync@[d].pkgs@[i]),
            None => before,
        }
    }
}

fn pair_in(s: &Vec<(String, String)>, a: &str, b: &str) -> (r: bool)
    ensures
        r == resolver::pairs(s@).contains((a@, b@)),
{
    let mut i: usize = 0;
    while i < s.len()
        invariant
            i <= s@.len(),
            forall|j: int| 0 <= j < i ==> resolver::pairs(s@)[j] != (a@, b@),
        decreases s@.len() - i,
    {
        if str_eq(&s[i].0, a) && str_eq(&s[i].1, b) {
            assert(resolver::pairs(s@)[i as int] == (a@, b@));
            return true;
        }
        i += 1;
    }
    false
}

fn push_pair(s: &mut Vec<(String, String)>, cand: &str, inst: &str)
    ensures
        resolver::pairs(final(s)@) == add_pair(resolver::pairs(old(s)@), cand@, inst@),
{
    if !str_eq(inst, cand) && !pair_in(s, cand, inst) {
        push_pin(s, cand, inst);
    }
}

fn push_declared(s: &mut Vec<(String, String)>, m: &AlpmManager, cand: &str, dep: &str)
    ensures
        resolver::pairs(final(s)@) == declared_conflicts(
            resolver::pairs(old(s)@),
            m.local@,
            cand@,
            dep@,
            m.local@.len() as int,
        ),
{
    let mut i: usize = 0;
    while i < m.local.len()
        invariant
            i <= m.local@.len(),
            resolver::pairs(s@) == declared_conflicts(resolver::pairs(old(s)@), m.local@, cand@, dep@, i as int),
        decreases m.local@.len() - i,
    {
        if list_contains(&m.local[i].conflicts, dep) {
            push_pair(s, cand, &m.local[i].name);
        }
        i += 1;
    }
}

impl AlpmManager {
    fn meant_in(&self, known: &Known, repo: Option<&str>, name: &str) -> (r: Option<(usize, usize)>)
        ensures
            match r {
                Some((d, i)) => meant_from(
                    *self,
                    *known,
                    match repo {
                        Some(x) => Some(x@),
                        None => None,
                    },
                    name@,
                    0,
                ) == Some((d as int, i as int)) && download_plan::in_range(*self, d as int, i as int),
                None => meant_from(
                    *self,
                    *known,
                    match repo {
                        Some(x) => Some(x@),
                        None => None,
                    },
                    name@,
                    0,
                ) is None,
            },
    {
        let ghost want = match repo {
            Some(x) => Some(x@),
            None => None,
        };
        let mut d: usize = 0;
        while d < self.sync.len()
            invariant
                d <= self.sync@.len(),
                want == (match repo {
                    Some(x) => Some(x@),
                    None => None,
                }),
                meant_from(*self, *known, want, name@, 0) == meant_from(
                    *self,
                    *known,
                    want,
                    name@,
                    d as int,
                ),
            decreases self.sync@.len() - d,
        {
            let here: bool = match repo {
                Some(x) => str_eq(&self.sync[d].name, x),
                None => true,
            };
            if let Ok(Some(x)) = self.search_db(known, d, name) {
                if here {
                    return Some(x);
                }
            }
            d += 1;
        }
        None
    }
}

/// The conflicts between the packages that the targets mean and installed packages: pairs of
/// a candidate and an installed package, each once. What satisfies a target that is no
/// package name is taken from `known`.
pub fn check_package_conflicts(manager: &AlpmManager, targets: &Vec<String>, known: &Known) -> (r: Vec<
    (String, String),
>)
    ensures
        resolver::pairs(r@) == target_conflicts(*manager, *known, text::texts(targets@), targets@.len() as int),
{
    let mut out: Vec<(String, String)> = Vec::new();
    let mut n: usize = 0;
    assert(resolver::pairs(out@) =~= Seq::<(Seq<char>, Seq<char>)>::empty());
    while n < targets.len()
        invariant
            n <= targets@.len(),
            resolver::pairs(out@) == target_conflicts(*manager, *known, text::texts(targets@), n as int),
        decreases targets@.len() - n,
    {
        let t = &targets[n];
        assert(text::texts(targets@)[n as int] == t@);
        let found: Option<(usize, usize)> = match cut_at(t, '/') {
            Some((repo, pkg)) => manager.meant_in(known, Some(repo.as_str()), &pkg),
            None => manager.meant_in(known, None, t),
        };
        if let Some((d, i)) = found {
            let p = &manager.sync[d].pkgs[i];
            let ghost s0 = resolver::pairs(out@);
            let mut c: usize = 0;
            while c < p.conflicts.len()
                invariant
                    c <= p.conflicts@.len(),
                    resolver::pairs(out@) == own_conflicts(s0, *p, c as int),
                decreases p.conflicts@.len() - c,
            {
                if let Some(inst) = &p.conflicts[c].installed {
                    push_pair(&mut out, &p.name, inst);
                }
                c += 1;
            }
            push_declared(&mut out, manager, &p.name, &p.name);
            let ghost s1 = resolver::pairs(out@);
            let mut v: usize = 0;
            while v < p.provides.len()
                invariant
                    v <= p.provides@.len(),
                    resolver::pairs(out@) == provided_conflicts(s1, manager.local@, *p, v as int),
                decreases p.provides@.len() - v,
            {
                push_declared(&mut out, manager, &p.name, &p.provides[v]);
                v += 1;
            }
        }
        n += 1;
    }
    out
}

/// No pair occurs twice, and none pairs a package with itself.
pub open spec fn proper_pairs(s: Seq<(Seq<char>, Seq<char>)>) -> bool {
    &&& forall|i: int, j: int| 0 <= i < j < s.len() ==> #[trigger] s[i] != #[trigger] s[j]
    &&& forall|i: int| 0 <= i < s.len() ==> (#[trigger] s[i]).0 != s[i].1
}

proof fn own_conflicts_proper(s: Seq<(Seq<char>, Seq<char>)>, p: SyncPackage, n: int)
    requires
        proper_pairs(s),
    ensures
        proper_pairs(own_conflicts(s, p, n)),
    decreases n,
{
    if n > 0 {
        own_conflicts_proper(s, p, n - 1);
    }
}

proof fn declared_conflicts_proper(
    s: Seq<(Seq<char>, Seq<char>)>,
    local: Seq<LocalPackage>,
    cand: Seq<char>,
    dep: Seq<char>,
    n: int,
)
    requires
        proper_pairs(s),
    ensures
        proper_pairs(declared_conflicts(s, local, cand, dep, n)),
    decreases n,
{
    if n > 0 {
        declared_conflicts_proper(s, local, cand, dep, n - 1);
    }
}

proof fn provided_conflicts_proper(
    s: Seq<(Seq<char>, Seq<char>)>,
    local: Seq<LocalPackage>,
    p: SyncPackage,
    n: int,
)
    requires
        proper_pairs(s),
    ensures
        proper_pairs(provided_conflicts(s, local, p, n)),
    decreases n,
{
    if n > 0 {
        provided_conflicts_proper(s, local, p, n - 1);
        declared_conflicts_proper(
            provided_conflicts(s, local, p, n - 1),
            local,
            p.name@,
            p.provides@[n - 1]@,
            local.len() as int,
        );
    }
}

/// No conflict is reported twice, and no package is reported to conflict with itself.
pub proof fn conflicts_are_proper(m: AlpmManager, k: Known, ts: Seq<Seq<char>>, n: int)
    ensures
        proper_pairs(target_conflicts(m, k, ts, n)),
    decreases n,
{
    if n > 0 {
        conflicts_are_proper(m, k, ts, n - 1);
        match meant(m, k, ts[n - 1]) {
            Some((d, i)) => {
                let s = target_conflicts(m, k, ts, n - 1);
                let p = m.sync@[d].pkgs@[i];
                own_conflicts_proper(s, p, p.conflicts@.len() as int);
                let s1 = own_conflicts(s, p, p.conflicts@.len() as int);
                declared_conflicts_proper(s1, m.local@, p.name@, p.name@, m.local@.len() as int);
                let s2 = declared_conflicts(s1, m.local@, p.name@, p.name@, m.local@.len() as int);
                provided_conflicts_proper(s2, m.local@, p, p.provides@.len() as int);
            },
            None => {},
        }
    }
}

// ---------------------------------------------------------------------------------------
// Delays of packages that are about to be installed

/// The days that a release of the time `built` has still to wait at the time `now`, as
/// `days_left` counts them, but without regard to whether the release lies in the past or
/// its time is unknown.
pub open spec fn release_days_left(built: i64, days: u32, now: i64) -> Option<int> {
    if days * DAY <= now - built {
        None
    } else {
        Some(double::whole_days_left(days as int, now - built))
    }
}

/// A package that is younger than its delay asks for.
#[derive(Debug, Clone)]
pub struct DelayNotice {
    /// Which package it is, and for which it is needed.
    pub label: String,
    pub age_seconds: i64,
    pub required_days: u32,
    pub days_left: u32,
}

pub open spec fn delay_label(pkg: Seq<char>, root: Seq<char>, dependency: bool) -> Seq<char> {
    if dependency {
        "Dependency '"@ + pkg + "' (required by '"@ + root + "')"@
    } else {
        "Package '"@ + pkg + "'"@
    }
}

/// When the release of a package was built that would be installed: the AUR's where the
/// repository is the AUR, else that of the given repository, or of the first that has it.
pub open spec fn release_date(
    m: AlpmManager,
    repo: Option<Seq<char>>,
    aur: Option<AurItem>,
    pkg: Seq<char>,
) -> Option<i64> {
    match repo {
        Some(r) => if text::same_ignoring_case(r, "aur"@) {
            match aur {
                Some(item) => item.last_modified,
                None => None,
            }
        } else {
            match db::sync_pkg(m.sync@, r, pkg) {
                Some(p) => Some(p.builddate),
                None => None,
            }
        },
        None => match resolver::holding_repo(m, pkg, 0) {
            Some(i) => Some(db::sync_pkg(m.sync@, m.repos@[i]@, pkg)->0.builddate),
            None => None,
        },
    }
}

fn find_release_date(m: &AlpmManager, repo: Option<&str>, aur: Option<&AurItem>, pkg: &str) -> (r:
    Option<i64>)
    ensures
        r == release_date(
            *m,
            match repo {
                Some(x) => Some(x@),
                None => None,
            },
            match aur {
                Some(x) => Some(*x),
                None => None,
            },
            pkg@,
        ),
{
    match repo {
        Some(x) => {
            if eq_ignore_case(x, "aur") {
                match aur {
                    Some(item) => item.last_modified,
                    None => None,
                }
            } else {
                match m.find_sync(x, pkg) {
                    Some(p) => Some(p.builddate),
                    None => None,
                }
            }
        },
        None => {
            let mut i: usize = 0;
            while i < m.repos.len()
                invariant
                    i <= m.repos@.len(),
                    repo is None,
                    resolver::holding_repo(*m, pkg@, 0) == resolver::holding_repo(*m, pkg@, i as int),
                decreases m.repos@.len() - i,
            {
                if let Some(p) = m.find_sync(&m.repos[i], pkg) {
                    return Some(p.builddate);
                }
                i += 1;
            }
            None
        },
    }
}

/// Whether a package that is not installed is younger than its delay asks for, and what to
/// say of it then. `satisfied` says whether an installed package satisfies it, `aur` is what
/// the AUR has of it.
pub fn check_single_pkg_delay(
    pkg: &str,
    root_target: &str,
    repo: Option<&str>,
    is_dependency: bool,
    satisfied: bool,
    aur: Option<&AurItem>,
    config: &Config,
    glob_delays: &Vec<(String, u32)>,
    manager: &AlpmManager,
    now: i64,
) -> (r: Option<DelayNotice>)
    ensures
        ({
            let installed = satisfied || exists|i: int|
                0 <= i < manager.local@.len() && (#[trigger] manager.local@[i]).name@ == pkg@;
            let days = resolver::delay_for(pkg@, config.delay@, resolver::numbered(glob_delays@));
            let built = release_date(
                *manager,
                match repo {
                    Some(x) => Some(x@),
                    None => None,
                },
                match aur {
                    Some(x) => Some(*x),
                    None => None,
                },
                pkg@,
            );
            match r {
                Some(n) => {
                    &&& !installed && days is Some && built is Some
                    &&& n.label@ == delay_label(pkg@, root_target@, is_dependency)
                    &&& n.required_days == days->0
                    &&& release_days_left(built->0, days->0, now) == Some(n.days_left as int)
                    &&& n.age_seconds == if now - built->0 < i64::MIN {
                        i64::MIN as int
                    } else {
                        now - built->0
                    }
                },
                None => installed || days is None || built is None || release_days_left(
                    built->0,
                    days->0,
                    now,
                ) is None,
            }
        }),
{
    if satisfied {
        return None;
    }
    let at = manager.local_index(pkg);
    if at.is_some() {
        proof {
            let i = at->0;
            assert(manager.local@[i as int].name@ == pkg@);
        }
        return None;
    }
    let days: u32 = match ResolverEngine::match_delay_days(pkg, &config.delay, glob_delays) {
        Some(d) => d,
        None => {
            return None;
        },
    };
    let built: i64 = match find_release_date(manager, repo, aur, pkg) {
        Some(b) => b,
        None => {
            return None;
        },
    };
    let age: i128 = now as i128 - built as i128;
    if days as i128 * 86400 <= age {
        return None;
    }
    let left: u32 = days_left_of(days, age);
    let mut label: String = String::new();
    if is_dependency {
        label.append("Dependency '");
        label.append(pkg);
        label.append("' (required by '");
        label.append(root_target);
        label.append("')");
    } else {
        label.append("Package '");
        label.append(pkg);
        label.append("'");
    }
    proof {
        assert(Seq::<char>::empty() + "Dependency '"@ =~= "Dependency '"@);
        assert(Seq::<char>::empty() + "Package '"@ =~= "Package '"@);
    }
    let age_seconds: i64 = if age < i64::MIN as i128 {
        i64::MIN
    } else {
        age as i64
    };
    Some(DelayNotice { label, age_seconds, required_days: days, days_left: left })
}

/// Whether a notice has to be confirmed, or is only shown.
pub fn notice_needs_answer(noconfirm: bool, terminal: bool) -> (r: bool)
    ensures
        r == (terminal && !noconfirm),
{
    terminal && !noconfirm
}

/// A number of tenths, with the decimal point.
pub open spec fn tenths_text(n: int) -> Seq<char> {
    text::digits_of((n / 10) as nat) + "."@ + text::digits_of((n % 10) as nat)
}

/// What is said of a young package, with its age in days.
pub fn notice_text(n: &DelayNotice, asks: bool) -> (r: String)
    ensures
        r@ == n.label@ + " was released "@ + tenths_text(double::tenths(n.age_seconds as int)) + " days ago (within your "@ + text::digits_of(
            n.required_days as nat,
        ) + "d stability delay buffer, "@ + text::digits_of(n.days_left as nat) + (if asks {
            "d remaining).\n   Arch mirrors only host the latest version. Proceed with installation? [Y/n] "@
        } else {
            "d remaining). Proceeding in non-interactive mode."@
        }),
{
    let mut t: String = n.label.clone();
    t.append(" was released ");
    let age: u64 = tenths_of(n.age_seconds);
    let whole = number_text(age / 10);
    let part = number_text(age % 10);
    let shown = text3(&whole, ".", &part);
    t.append(&shown);
    t.append(" days ago (within your ");
    let d = number_text(n.required_days as u64);
    t.append(&d);
    t.append("d stability delay buffer, ");
    let l = number_text(n.days_left as u64);
    t.append(&l);
    if asks {
        t.append(
            "d remaining).\n   Arch mirrors only host the latest version. Proceed with installation? [Y/n] ",
        );
    } else {
        t.append("d remaining). Proceeding in non-interactive mode.");
    }
    t
}

/// Whether to install a young package after all: unless the answer is a clear no.
pub fn notice_answer(n: &DelayNotice, answer: Option<&str>) -> (r: Result<(), String>)
    ensures
        match answer {
            Some(a) => if says_no(a@) {
                r is Err && r->Err_0@ == "Installation cancelled: "@ + n.label@
                    + " violates active "@ + text::digits_of(n.required_days as nat)
                    + "-day stability delay policy ("@ + text::digits_of(n.days_left as nat)
                    + "d remaining)."@
            } else {
                r is Ok
            },
            None => r is Ok,
        },
        r is Err <==> answer is Some && says_no(answer->0@),
{
    if let Some(a) = answer {
        if is_no(a) {
            let mut e: String = "Installation cancelled: ".to_string();
            e.append(&n.label);
            e.append(" violates active ");
            let d = number_text(n.required_days as u64);
            e.append(&d);
            e.append("-day stability delay policy (");
            let l = number_text(n.days_left as u64);
            e.append(&l);
            e.append("d remaining).");
            return Err(e);
        }
    }
    Ok(())
}

/// The direct dependencies of a target: those of its AUR package where the repository is the
/// AUR, else those of the package that it means in the given repository or in the first
/// database that has it.
pub open spec fn direct_deps(
    m: AlpmManager,
    k: Known,
    target: Seq<char>,
    repo: Option<Seq<char>>,
    aur: Option<AurItem>,
) -> Seq<Seq<char>> {
    if repo is Some && text::same_ignoring_case(repo->0, "aur"@) {
        match aur {
            Some(item) => Seq::new(item.depends@.len(), |i: int| aur::dep_name(item.depends@[i]@)),
            None => Seq::empty(),
        }
    } else {
        match meant_from(m, k, repo, target, 0) {
            Some((d, i)) => text::texts(m.sync@[d].pkgs@[i].depends@),
            None => Seq::empty(),
        }
    }
}

/// Those of the first `n` dependencies that no installed package satisfies, each once.
pub open spec fn unmet_upto(k: Known, deps: Seq<Seq<char>>, n: int) -> Seq<Seq<char>>
    decreases n,
{
    if n <= 0 {
        Seq::empty()
    } else {
        let d = deps[n - 1];
        let met = match strmap::lookup(k.deps@, d) {
            Some(a) => a.installed,
            None => false,
        };
        if met {
            unmet_upto(k, deps, n - 1)
        } else {
            db::add_new(unmet_upto(k, deps, n - 1), d)
        }
    }
}

/// The dependencies of a target whose delays have to be checked besides its own: the direct
/// ones that no installed package satisfies, each once. Where delays are off there are none.
pub fn verify_target_and_dependencies_delay(
    target: &str,
    repo: Option<&str>,
    aur: Option<&AurItem>,
    config: &Config,
    manager: &AlpmManager,
    known: &Known,
) -> (r: Vec<String>)
    ensures
        text::texts(r@) == if !config.features.stability_delays {
            Seq::<Seq<char>>::empty()
        } else {
            let deps = direct_deps(
                *manager,
                *known,
                target@,
                match repo {
                    Some(x) => Some(x@),
                    None => None,
                },
                match aur {
                    Some(x) => Some(*x),
                    None => None,
                },
            );
            unmet_upto(*known, deps, deps.len() as int)
        },
{
    if !config.features.stability_delays {
        return no_strings();
    }
    let from_aur: bool = match repo {
        Some(x) => eq_ignore_case(x, "aur"),
        None => false,
    };
    let mut deps = no_strings();
    if from_aur {
        if let Some(item) = aur {
            let ghost all = Seq::new(item.depends@.len(), |i: int| aur::dep_name(item.depends@[i]@));
            let mut i: usize = 0;
            assert(all.take(0) =~= Seq::<Seq<char>>::empty());
            while i < item.depends.len()
                invariant
                    i <= item.depends@.len(),
                    all == Seq::new(item.depends@.len(), |i: int| aur::dep_name(item.depends@[i]@)),
                    text::texts(deps@) == all.take(i as int),
                decreases item.depends@.len() - i,
            {
                let d = clean_dep_name(&item.depends[i]);
                push_str(&mut deps, &d);
                assert(all.take(i + 1) =~= all.take(i as int).push(d@));
                i += 1;
            }
            assert(all.take(all.len() as int) =~= all);
        }
    } else {
        if let Some((d, i)) = manager.meant_in(known, repo, target) {
            deps = clone_strings(&manager.sync[d].pkgs[i].depends);
        }
    }
    let ghost all = text::texts(deps@);
    let mut out = no_strings();
    let mut i: usize = 0;
    while i < deps.len()
        invariant
            i <= deps@.len(),
            all == text::texts(deps@),
            text::texts(out@) == unmet_upto(*known, all, i as int),
        decreases deps@.len() - i,
    {
        assert(all[i as int] == deps@[i as int]@);
        let met: bool = match known.deps.get(&deps[i]) {
            Some(a) => a.installed,
            None => false,
        };
        if !met {
            push_new(&mut out, &deps[i]);
        }
        i += 1;
    }
    out
}

// ---------------------------------------------------------------------------------------
// After the commands

/// What was installed, what to record, and how the installation ends.
#[derive(Debug, Clone)]
pub struct InstallOutcome {
    pub installed: Vec<String>,
    /// The pins that have been confirmed by the installation.
    pub pins: Vec<(String, String)>,
    /// The commands to record, where something was installed.
    pub record: Option<String>,
    /// Why the installation failed, where it did.
    pub error: Option<String>,
}

/// A command as it is recorded.
pub open spec fn recorded_command(words: Seq<Seq<char>>, ts: Seq<Seq<char>>) -> Seq<char> {
    text::join(words, " "@) + " "@ + text::join(ts, " "@)
}

pub(crate) fn record_command(words: &Vec<String>, ts: &Vec<String>) -> (r: String)
    ensures
        r@ == recorded_command(text::texts(words@), text::texts(ts@)),
{
    let mut s = join_strings(words, " ");
    s.append(" ");
    let t = join_strings(ts, " ");
    s.append(&t);
    s
}

/// Why a command failed.
pub open spec fn failure_text(run: RunResult) -> Option<Seq<char>> {
    match run {
        RunResult::Success => None,
        RunResult::Exit(c) => Some(
            "Installation command exited with code "@ + text::signed_digits(c as int) + "."@,
        ),
        RunResult::Failed(e) => Some("Installation execution failed: "@ + e@),
    }
}

fn tell_failure(run: &RunResult) -> (r: Option<String>)
    ensures
        text::opt_text(r) == failure_text(*run),
{
    match run {
        RunResult::Success => None,
        RunResult::Exit(c) => {
            let mut e: String = "Installation command exited with code ".to_string();
            let n = signed_text(*c as i64);
            e.append(&n);
            e.append(".");
            Some(e)
        },
        RunResult::Failed(x) => {
            let mut e: String = "Installation execution failed: ".to_string();
            e.append(x);
            Some(e)
        },
    }
}

/// The AUR helper is run where it has targets, and pacman had none or succeeded.
pub open spec fn helper_runs(p: InstallPlanView, pacman: RunResult) -> bool {
    p.aur.len() > 0 && (p.pacman.len() == 0 || pacman is Success)
}

/// Whether the AUR helper is to be run, after pacman has ended as `pacman` says.
pub fn should_run_helper(plan: &InstallPlan, pacman: &RunResult) -> (r: bool)
    ensures
        r == helper_runs(plan@, *pacman),
{
    let ok: bool = match pacman {
        RunResult::Success => true,
        _ => false,
    };
    plan.aur_targets.len() > 0 && (plan.pacman_targets.len() == 0 || ok)
}

/// The targets that were installed.
pub open spec fn installed_of(p: InstallPlanView, pacman: RunResult, aur: RunResult) -> Seq<
    Seq<char>,
> {
    (if p.pacman.len() > 0 && pacman is Success {
        p.pacman
    } else {
        Seq::empty()
    }) + (if helper_runs(p, pacman) && aur is Success {
        p.aur
    } else {
        Seq::empty()
    })
}

/// A pin is confirmed where its package was installed, under its name or with its
/// repository before it.
pub open spec fn confirmed(installed: Seq<Seq<char>>, pin: (Seq<char>, Seq<char>)) -> bool {
    installed.contains(pin.0) || installed.contains(pin.1 + "/"@ + pin.0)
}

pub open spec fn confirmed_upto(
    installed: Seq<Seq<char>>,
    pins: Seq<(Seq<char>, Seq<char>)>,
    n: int,
) -> Seq<(Seq<char>, Seq<char>)>
    decreases n,
{
    if n <= 0 {
        Seq::empty()
    } else if confirmed(installed, pins[n - 1]) {
        confirmed_upto(installed, pins, n - 1).push(pins[n - 1])
    } else {
        confirmed_upto(installed, pins, n - 1)
    }
}

/// The commands that succeeded, as they are recorded.
pub open spec fn succeeded_commands(
    p: InstallPlanView,
    o: InstallOptions,
    helper: Seq<char>,
    sysupgrade: bool,
    pacman: RunResult,
    aur: RunResult,
) -> Seq<Seq<char>> {
    (if p.pacman.len() > 0 && pacman is Success {
        seq![
            recorded_command(pm::pacman_words(o, pm::pacman_op(o.refresh, sysupgrade)), p.pacman),
        ]
    } else {
        Seq::empty()
    }) + (if helper_runs(p, pacman) && aur is Success {
        seq![
            recorded_command(
                pm::aur_words(o, helper, pm::aur_op(o.refresh, sysupgrade, p.pacman.len() == 0)),
                p.aur,
            ),
        ]
    } else {
        Seq::empty()
    })
}

/// What an installation comes to, after pacman and the AUR helper have ended as `pacman` and
/// `aur` say; the result of a program that was not run does not count.
pub fn settle_install(
    plan: &InstallPlan,
    options: &InstallOptions,
    helper: &str,
    sysupgrade: bool,
    pacman: &RunResult,
    aur: &RunResult,
) -> (r: InstallOutcome)
    ensures
        text::texts(r.installed@) == installed_of(plan@, *pacman, *aur),
        resolver::pairs(r.pins@) == confirmed_upto(
            installed_of(plan@, *pacman, *aur),
            plan@.pins,
            plan@.pins.len() as int,
        ),
        text::opt_text(r.record) == if installed_of(plan@, *pacman, *aur).len() > 0 {
            Some(
                text::join(
                    succeeded_commands(plan@, *options, helper@, sysupgrade, *pacman, *aur),
                    " && "@,
                ),
            )
        } else {
            None
        },
        text::opt_text(r.error) == if plan@.pacman.len() > 0 && !(*pacman is Success) {
            failure_text(*pacman)
        } else if helper_runs(plan@, *pacman) {
            failure_text(*aur)
        } else {
            None
        },
        plan@.pacman.len() > 0 && !(*pacman is Success) ==> r.installed@.len() == 0 && r.pins@.len()
            == 0 && r.record is None && r.error is Some,
        r.error is None ==> text::texts(r.installed@) == plan@.pacman + plan@.aur,
{
    let mut installed = no_strings();
    let mut commands = no_strings();
    let mut error: Option<String> = None;
    let ghost p = plan@;
    let with_helper: bool = should_run_helper(plan, pacman);
    if plan.pacman_targets.len() > 0 {
        match pacman {
            RunResult::Success => {
                push_strs(&mut installed, &plan.pacman_targets);
                let w = pacman_command_words(options, pacman_operation(options.refresh, sysupgrade));
                let c = record_command(&w, &plan.pacman_targets);
                push_str(&mut commands, &c);
            },
            _ => {
                error = tell_failure(pacman);
            },
        }
    }
    if with_helper {
        match aur {
            RunResult::Success => {
                push_strs(&mut installed, &plan.aur_targets);
                let op = pacman_operation(
                    options.refresh,
                    sysupgrade && plan.pacman_targets.len() == 0,
                );
                let w = aur_command_words(options, helper, op);
                let c = record_command(&w, &plan.aur_targets);
                push_str(&mut commands, &c);
            },
            _ => {
                error = tell_failure(aur);
            },
        }
    }
    proof {
        assert(text::texts(installed@) =~= installed_of(p, *pacman, *aur));
        assert(text::texts(commands@) =~= succeeded_commands(
            p,
            *options,
            helper@,
            sysupgrade,
            *pacman,
            *aur,
        ));
    }
    let mut pins: Vec<(String, String)> = Vec::new();
    let mut i: usize = 0;
    assert(resolver::pairs(pins@) =~= Seq::<(Seq<char>, Seq<char>)>::empty());
    while i < plan.pending_pins.len()
        invariant
            i <= plan.pending_pins@.len(),
            p == plan@,
            text::texts(installed@) == installed_of(p, *pacman, *aur),
            resolver::pairs(pins@) == confirmed_upto(installed_of(p, *pacman, *aur), p.pins, i as int),
        decreases plan.pending_pins@.len() - i,
    {
        let name = &plan.pending_pins[i].0;
        let repo = &plan.pending_pins[i].1;
        assert(p.pins[i as int] == (name@, repo@));
        let mut full: String = repo.clone();
        full.append("/");
        full.append(name);
        if list_contains(&installed, name) || list_contains(&installed, &full) {
            push_pin(&mut pins, name, repo);
        }
        i += 1;
    }
    let record: Option<String> = if installed.len() > 0 {
        Some(join_strings(&commands, " && "))
    } else {
        None
    };
    proof {
        assert(text::texts(installed@).len() == installed@.len());
        assert(resolver::pairs(pins@).len() == pins@.len());
        if p.pacman.len() > 0 && !(*pacman is Success) {
            failure_pins_nothing(p, *pacman, *aur);
        }
    }
    InstallOutcome { installed, pins, record, error }
}

/// Where the installation failed as a whole, nothing is pinned and nothing is recorded.
pub proof fn failure_pins_nothing(p: InstallPlanView, pacman: RunResult, aur: RunResult)
    requires
        p.pacman.len() > 0,
        !(pacman is Success),
    ensures
        installed_of(p, pacman, aur).len() == 0,
        confirmed_upto(installed_of(p, pacman, aur), p.pins, p.pins.len() as int).len() == 0,
{
    nothing_confirmed(installed_of(p, pacman, aur), p.pins, p.pins.len() as int);
}

proof fn nothing_confirmed(
    installed: Seq<Seq<char>>,
    pins: Seq<(Seq<char>, Seq<char>)>,
    n: int,
)
    requires
        installed.len() == 0,
    ensures
        confirmed_upto(installed, pins, n).len() == 0,
    decreases n,
{
    if n > 0 {
        nothing_confirmed(installed, pins, n - 1);
    }
}

/// The repository that `name` is pinned to after the first `n` of `added` have been taken
/// over into `pins`: the last one counts.
pub open spec fn pin_after(
    pins: Seq<(Seq<char>, String)>,
    added: Seq<(Seq<char>, Seq<char>)>,
    n: int,
    name: Seq<char>,
) -> Option<Seq<char>>
    decreases n,
{
    if n <= 0 {
        text::opt_text(strmap::lookup(pins, name))
    } else if added[n - 1].0 == name {
        Some(added[n - 1].1)
    } else {
        pin_after(pins, added, n - 1, name)
    }
}

/// Takes pins over into the configuration.
pub fn add_pins(pins: &mut StrMap<String>, added: &Vec<(String, String)>)
    requires
        old(pins).ordered(),
    ensures
        final(pins).ordered(),
        forall|name: Seq<char>|
            text::opt_text(#[trigger] strmap::lookup(final(pins)@, name)) == pin_after(
                old(pins)@,
                resolver::pairs(added@),
                added@.len() as int,
                name,
            ),
{
    let ghost first = pins@;
    let mut i: usize = 0;
    while i < added.len()
        invariant
            i <= added@.len(),
            pins.ordered(),
            first == old(pins)@,
            forall|name: Seq<char>|
                text::opt_text(#[trigger] strmap::lookup(pins@, name)) == pin_after(
                    first,
                    resolver::pairs(added@),
                    i as int,
                    name,
                ),
        decreases added@.len() - i,
    {
        assert(resolver::pairs(added@)[i as int] == (added@[i as int].0@, added@[i as int].1@));
        pins.insert(added[i].0.clone(), added[i].1.clone());
        i += 1;
    }
}

// ---------------------------------------------------------------------------------------
// Removal and queries

/// A removal that has been accepted.
#[derive(Debug, Clone)]
pub struct Removal {
    pub wait: Option<u64>,
    pub command: CommandLine,
    /// The command as it is recorded.
    pub record: String,
}

/// Accepts or refuses a request to remove packages: there must be targets, and all of them
/// safe.
pub fn remove(targets: &Vec<String>, flags: &Vec<String>) -> (r: Result<Removal, String>)
    ensures
        match r {
            Ok(x) => {
                let args = text::texts(flags@) + seq!["--"@] + text::texts(targets@);
                &&& targets@.len() > 0
                &&& unsafe_from(text::texts(targets@), 0) is None
                &&& match x.wait {
                    Some(n) => pm::wait_from(text::texts(flags@), 0) == Some(n as int),
                    None => pm::wait_from(text::texts(flags@), 0) is None,
                }
                &&& pm::runs(x.command, "sudo"@, seq!["pacman"@] + args)
                &&& x.record@ == "sudo pacman "@ + text::join(args, " "@)
            },
            Err(e) => if targets@.len() == 0 {
                e@ == "No package targets specified for removal."@
            } else {
                unsafe_from(text::texts(targets@), 0) is Some && e@
                    == "Refusing unsafe package target for removal: '"@
                    + targets@[unsafe_from(text::texts(targets@), 0)->0]@ + "'."@
            },
        },
{
    if targets.len() == 0 {
        return Err("No package targets specified for removal.".to_string());
    }
    if let Some(i) = first_unsafe(targets) {
        let mut e: String = "Refusing unsafe package target for removal: '".to_string();
        e.append(&targets[i]);
        e.append("'.");
        return Err(e);
    }
    let mut args = clone_strings(flags);
    push_str(&mut args, "--");
    assert(text::texts(args@) =~= text::texts(flags@) + seq!["--"@]);
    push_strs(&mut args, targets);
    let shown = join_strings(&args, " ");
    let mut record: String = "sudo pacman ".to_string();
    record.append(&shown);
    let mut all = no_strings();
    push_str(&mut all, "pacman");
    push_strs(&mut all, &args);
    assert(text::texts(all@) =~= seq!["pacman"@] + text::texts(args@));
    Ok(
        Removal {
            wait: wait_seconds(flags),
            command: CommandLine { program: "sudo".to_string(), args: all },
            record,
        },
    )
}

/// How a removal ends.
pub fn removal_result(run: &RunResult) -> (r: Result<(), String>)
    ensures
        match run {
            RunResult::Success => r is Ok,
            RunResult::Exit(c) => r is Err && r->Err_0@ == "Removal exited with code "@
                + text::signed_digits(*c as int) + "."@,
            RunResult::Failed(e) => r is Err && r->Err_0@ == "Failed to run sudo pacman: "@ + e@,
        },
{
    match run {
        RunResult::Success => Ok(()),
        RunResult::Exit(c) => {
            let mut e: String = "Removal exited with code ".to_string();
            let n = signed_text(*c as i64);
            e.append(&n);
            e.append(".");
            Err(e)
        },
        RunResult::Failed(x) => {
            let mut e: String = "Failed to run sudo pacman: ".to_string();
            e.append(x);
            Err(e)
        },
    }
}

fn with_operation(program: &str, op: &str, args: &Vec<String>) -> (r: CommandLine)
    ensures
        pm::runs(r, program@, seq![op@] + text::texts(args@)),
{
    let mut all = no_strings();
    push_str(&mut all, op);
    push_strs(&mut all, args);
    assert(text::texts(all@) =~= seq![op@] + text::texts(args@));
    CommandLine { program: program.to_string(), args: all }
}

/// The command that searches for packages: the helper's where it can be run, else pacman's.
pub fn search(helper: &str, helper_available: bool, query_args: &Vec<String>) -> (r: Result<
    CommandLine,
    String,
>)
    ensures
        if query_args@.len() == 0 {
            r is Err && r->Err_0@ == "No search query provided."@
        } else {
            r is Ok && pm::runs(
                r->Ok_0,
                if helper_available {
                    helper@
                } else {
                    "pacman"@
                },
                seq!["-Ss"@] + text::texts(query_args@),
            )
        },
{
    if query_args.len() == 0 {
        return Err("No search query provided.".to_string());
    }
    let program: &str = if helper_available {
        helper
    } else {
        "pacman"
    };
    Ok(with_operation(program, "-Ss", query_args))
}

/// The command that describes packages.
pub fn info(helper: &str, helper_available: bool, pkg_args: &Vec<String>) -> (r: Result<
    CommandLine,
    String,
>)
    ensures
        if pkg_args@.len() == 0 {
            r is Err && r->Err_0@ == "No package specified."@
        } else {
            r is Ok && pm::runs(
                r->Ok_0,
                if helper_available {
                    helper@
                } else {
                    "pacman"@
                },
                seq!["-Si"@] + text::texts(pkg_args@),
            )
        },
{
    if pkg_args.len() == 0 {
        return Err("No package specified.".to_string());
    }
    let program: &str = if helper_available {
        helper
    } else {
        "pacman"
    };
    Ok(with_operation(program, "-Si", pkg_args))
}

/// The command that cleans the package cache.
pub fn clean(helper: &str, helper_available: bool, extra_args: &Vec<String>) -> (r: CommandLine)
    ensures
        if helper_available {
            pm::runs(r, helper@, seq!["-Sc"@] + text::texts(extra_args@))
        } else {
            pm::runs(r, "sudo"@, seq!["pacman"@] + (seq!["-Sc"@] + text::texts(extra_args@)))
        },
{
    if helper_available {
        return with_operation(helper, "-Sc", extra_args);
    }
    let inner = with_operation("sudo", "-Sc", extra_args);
    with_operation("sudo", "pacman", &inner.args)
}

/// The command that hands arguments on to pacman.
pub fn forward_pacman(args: &Vec<String>, needs_sudo: bool) -> (r: CommandLine)
    ensures
        if needs_sudo {
            pm::runs(r, "sudo"@, seq!["pacman"@] + text::texts(args@))
        } else {
            pm::runs(r, "pacman"@, text::texts(args@))
        },
{
    if needs_sudo {
        with_operation("sudo", "pacman", args)
    } else {
        CommandLine { program: "pacman".to_string(), args: clone_strings(args) }
    }
}

} // verus!
