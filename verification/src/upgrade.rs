//! The upgrade of the whole system: which commands it takes, and what follows from how they
//! end.
use crate::install::{RunResult, blank, is_yes, record_command};
use crate::install;
use crate::integrations::{ExternalUpdate, IntegrationProvider, IntegrationsManager, Provider, UpdateView};
use crate::integrations;
use crate::orphans::{OrphanManager, OrphanPackage};
use crate::orphans;
use crate::pm::{CommandLine, InstallOptions};
use crate::pm;
use crate::resolver::{CandidatePackage, ResolvedPackage, ResolvedView};
use crate::text::{chars_of, find_char, join_strings, list_contains, no_strings, push_str, push_strs, starts_with, str_eq, sub_chars};
use crate::text;
use vstd::prelude::*;
use vstd::string::*;

verus! {

// ---------------------------------------------------------------------------------------
// Flags

/// A bundle of one-letter flags: one hyphen, not two.
pub open spec fn is_short(f: Seq<char>) -> bool {
    text::begins(f, "-"@) && !text::begins(f, "--"@)
}

/// A bundle of one-letter flags with this letter in it.
pub open spec fn short_has(f: Seq<char>, c: char) -> bool {
    is_short(f) && f.skip(1).contains(c)
}

/// A bundle of no other letters than `y`, `u` and `n`.
pub open spec fn short_of_yun(f: Seq<char>) -> bool {
    is_short(f) && forall|i: int|
        1 <= i < f.len() ==> #[trigger] f[i] == 'y' || f[i] == 'u' || f[i] == 'n'
}

pub open spec fn any_flag(flags: Seq<Seq<char>>, long: Seq<char>, c: char) -> bool {
    exists|i: int| 0 <= i < flags.len() && flag_says(#[trigger] flags[i], long, c)
}

pub open spec fn flag_says(f: Seq<char>, long: Seq<char>, c: char) -> bool {
    f == long || short_has(f, c)
}

/// A flag that is handed on to the programs that are run.
pub open spec fn is_forwarded(f: Seq<char>) -> bool {
    !(f == "--refresh"@ || f == "--sysupgrade"@ || f == "--dry-run"@ || f == "--noconfirm"@ || f
        == "--needed"@ || short_of_yun(f))
}

pub open spec fn forwarded_upto(flags: Seq<Seq<char>>, n: int) -> Seq<Seq<char>>
    decreases n,
{
    if n <= 0 {
        Seq::empty()
    } else if is_forwarded(flags[n - 1]) {
        forwarded_upto(flags, n - 1).push(flags[n - 1])
    } else {
        forwarded_upto(flags, n - 1)
    }
}

fn short(f: &str) -> (r: bool)
    ensures
        r == is_short(f@),
{
    starts_with(f, "-") && !starts_with(f, "--")
}

fn short_with(f: &str, c: char) -> (r: bool)
    ensures
        r == short_has(f@, c),
{
    if !short(f) {
        return false;
    }
    proof {
        reveal_strlit("-");
    }
    let cs = chars_of(f);
    let rest = sub_chars(&cs, 1, cs.len());
    assert(rest@ =~= f@.skip(1));
    let i: usize = find_char(&rest, c, 0);
    if i < rest.len() {
        assert(rest@[i as int] == c);
        true
    } else {
        false
    }
}

fn only_yun(f: &str) -> (r: bool)
    ensures
        r == short_of_yun(f@),
{
    if !short(f) {
        return false;
    }
    let cs = chars_of(f);
    let mut i: usize = 1;
    while i < cs.len()
        invariant
            1 <= i,
            cs@ == f@,
            forall|j: int|
                1 <= j < i && j < cs@.len() ==> #[trigger] cs@[j] == 'y' || cs@[j] == 'u' || cs@[j]
                    == 'n',
        decreases cs@.len() - i,
    {
        if !(cs[i] == 'y' || cs[i] == 'u' || cs[i] == 'n') {
            assert(f@[i as int] == cs@[i as int]);
            return false;
        }
        i += 1;
    }
    true
}

fn has_flag(flags: &Vec<String>, long: &str, c: char) -> (r: bool)
    ensures
        r == any_flag(text::texts(flags@), long@, c),
{
    let ghost all = text::texts(flags@);
    let mut i: usize = 0;
    while i < flags.len()
        invariant
            i <= flags@.len(),
            all == text::texts(flags@),
            forall|j: int| 0 <= j < i ==> !flag_says(#[trigger] all[j], long@, c),
        decreases flags@.len() - i,
    {
        assert(all[i as int] == flags@[i as int]@);
        if str_eq(&flags[i], long) || short_with(&flags[i], c) {
            assert(flag_says(all[i as int], long@, c));
            return true;
        }
        i += 1;
    }
    false
}

/// Reads the flags of an installation; those that mean nothing here are handed on.
pub fn parse_install_flags(flags: &Vec<String>) -> (r: InstallOptions)
    ensures
        r.needed,
        r.noconfirm == text::texts(flags@).contains("--noconfirm"@),
        r.dry_run == any_flag(text::texts(flags@), "--dry-run"@, 'n'),
        r.refresh == any_flag(text::texts(flags@), "--refresh"@, 'y'),
        r.sysupgrade == any_flag(text::texts(flags@), "--sysupgrade"@, 'u'),
        text::texts(r.forwarded_flags@) == forwarded_upto(text::texts(flags@), flags@.len() as int),
{
    let mut forwarded = no_strings();
    let mut i: usize = 0;
    while i < flags.len()
        invariant
            i <= flags@.len(),
            text::texts(forwarded@) == forwarded_upto(text::texts(flags@), i as int),
        decreases flags@.len() - i,
    {
        let f = &flags[i];
        assert(text::texts(flags@)[i as int] == f@);
        if !(str_eq(f, "--refresh") || str_eq(f, "--sysupgrade") || str_eq(f, "--dry-run")
            || str_eq(f, "--noconfirm") || str_eq(f, "--needed") || only_yun(f)) {
            push_str(&mut forwarded, f);
        }
        i += 1;
    }
    InstallOptions {
        needed: true,
        noconfirm: list_contains(flags, "--noconfirm"),
        refresh: has_flag(flags, "--refresh", 'y'),
        sysupgrade: has_flag(flags, "--sysupgrade", 'u'),
        dry_run: has_flag(flags, "--dry-run", 'n'),
        forwarded_flags: forwarded,
    }
}

/// A flag of an upgrade that is not handed on.
pub open spec fn upgrade_keeps(f: Seq<char>) -> bool {
    ||| f == "-y"@
    ||| f == "--refresh"@
    ||| f == "-yy"@
    ||| f == "-u"@
    ||| f == "--sysupgrade"@
    ||| f == "-uu"@
    ||| f == "-c"@
    ||| f == "--clean"@
    ||| f == "--autoremove"@
    ||| f == "-n"@
    ||| f == "--dry-run"@
    ||| f == "--noconfirm"@
    ||| f == "--needed"@
}

pub open spec fn upgrade_flags_upto(flags: Seq<Seq<char>>, n: int) -> Seq<Seq<char>>
    decreases n,
{
    if n <= 0 {
        Seq::empty()
    } else if upgrade_keeps(flags[n - 1]) {
        upgrade_flags_upto(flags, n - 1)
    } else {
        upgrade_flags_upto(flags, n - 1).push(flags[n - 1])
    }
}

fn is_kept(f: &str) -> (r: bool)
    ensures
        r == upgrade_keeps(f@),
{
    str_eq(f, "-y") || str_eq(f, "--refresh") || str_eq(f, "-yy") || str_eq(f, "-u") || str_eq(
        f,
        "--sysupgrade",
    ) || str_eq(f, "-uu") || str_eq(f, "-c") || str_eq(f, "--clean") || str_eq(f, "--autoremove")
        || str_eq(f, "-n") || str_eq(f, "--dry-run") || str_eq(f, "--noconfirm") || str_eq(
        f,
        "--needed",
    )
}

// ---------------------------------------------------------------------------------------
// Commands

/// How an update is asked for: with its repository where a pin decides, where the package
/// stays with the repository it came from, or where the repository of highest priority was
/// passed over.
pub open spec fn upgrade_target(u: ResolvedPackage, c: CandidatePackage) -> Seq<char> {
    if u.state@ == "custom"@ || u.state@ == "sticky"@ || u.diverted_from_top {
        c.repo@ + "/"@ + u.name@
    } else {
        u.name@
    }
}

/// The targets for pacman among the first `n` updates.
pub open spec fn pacman_upto(us: Seq<ResolvedPackage>, n: int) -> Seq<Seq<char>>
    decreases n,
{
    if n <= 0 {
        Seq::empty()
    } else {
        match us[n - 1].candidate {
            Some(c) => if c.is_aur {
                pacman_upto(us, n - 1)
            } else {
                pacman_upto(us, n - 1).push(upgrade_target(us[n - 1], c))
            },
            None => pacman_upto(us, n - 1),
        }
    }
}

/// The targets for the AUR helper among the first `n` updates.
pub open spec fn aur_upto(us: Seq<ResolvedPackage>, n: int) -> Seq<Seq<char>>
    decreases n,
{
    if n <= 0 {
        Seq::empty()
    } else {
        match us[n - 1].candidate {
            Some(c) => if c.is_aur {
                aur_upto(us, n - 1).push(us[n - 1].name@)
            } else {
                aur_upto(us, n - 1)
            },
            None => aur_upto(us, n - 1),
        }
    }
}

/// A pinned update is asked for from the repository of its candidate, whatever other
/// repositories have the package.
pub proof fn pinned_update_names_its_repo(u: ResolvedPackage, c: CandidatePackage)
    requires
        u.state@ == "custom"@,
    ensures
        upgrade_target(u, c) == c.repo@ + "/"@ + u.name@,
{
}

/// An update that stays with a repository is asked for from that repository, whatever the
/// priorities of the others are.
pub proof fn sticky_update_names_its_repo(us: Seq<ResolvedPackage>, k: int)
    requires
        0 <= k < us.len(),
        us[k].state@ == "sticky"@,
        us[k].candidate matches Some(c) && !c.is_aur,
    ensures
        pacman_upto(us, us.len() as int).contains(us[k].candidate->0.repo@ + "/"@ + us[k].name@),
{
    pacman_target_is_listed(us, k, us.len() as int);
}

proof fn pacman_target_is_listed(us: Seq<ResolvedPackage>, k: int, n: int)
    requires
        0 <= k < n <= us.len(),
        us[k].candidate matches Some(c) && !c.is_aur,
    ensures
        pacman_upto(us, n).contains(upgrade_target(us[k], us[k].candidate->0)),
    decreases n,
{
    let before = pacman_upto(us, n - 1);
    if k < n - 1 {
        pacman_target_is_listed(us, k, n - 1);
        let t = upgrade_target(us[k], us[k].candidate->0);
        let j = choose|j: int| 0 <= j < before.len() && before[j] == t;
        assert(pacman_upto(us, n)[j] == t);
    } else {
        assert(pacman_upto(us, n)[before.len() as int] == upgrade_target(us[k], us[k].candidate->0));
    }
}

pub open spec fn view_ids(v: Seq<UpdateView>) -> Seq<Seq<char>> {
    Seq::new(v.len(), |i: int| v[i].id)
}

/// The commands of the first `n` other package managers that have updates.
pub open spec fn external_upto(ps: Seq<Provider>, ext: Seq<ExternalUpdate>, n: int) -> Seq<Seq<char>>
    decreases n,
{
    if n <= 0 {
        Seq::empty()
    } else {
        let own = integrations::updates_of(ps[n - 1].label(), ext, ext.len() as int);
        if own.len() == 0 {
            external_upto(ps, ext, n - 1)
        } else {
            external_upto(ps, ext, n - 1).push(ps[n - 1].upgrade_text(view_ids(own)))
        }
    }
}

pub open spec fn upgrade_pacman_words(flags: Seq<Seq<char>>) -> Seq<Seq<char>> {
    seq!["sudo"@, "pacman"@, "-S"@, "--needed"@, "--noconfirm"@] + flags
}

pub open spec fn upgrade_aur_words(helper: Seq<char>, flags: Seq<Seq<char>>) -> Seq<Seq<char>> {
    seq![helper, "-S"@, "--needed"@, "--aur"@, "--noconfirm"@] + flags
}

pub open spec fn upgrade_commands(
    pacman: Seq<Seq<char>>,
    aur: Seq<Seq<char>>,
    helper: Seq<char>,
    flags: Seq<Seq<char>>,
    external: Seq<Seq<char>>,
) -> Seq<Seq<char>> {
    (if pacman.len() > 0 {
        seq![install::recorded_command(upgrade_pacman_words(flags), pacman)]
    } else {
        Seq::empty()
    }) + (if aur.len() > 0 {
        seq![install::recorded_command(upgrade_aur_words(helper, flags), aur)]
    } else {
        Seq::empty()
    }) + external
}

/// The package manager and the helper are never left to ask on their own: the one question
/// of an upgrade is the program's.
pub proof fn upgrade_asks_once(helper: Seq<char>, flags: Seq<Seq<char>>)
    ensures
        upgrade_pacman_words(flags).contains("--noconfirm"@),
        upgrade_aur_words(helper, flags).contains("--noconfirm"@),
{
    assert(upgrade_pacman_words(flags)[4] == "--noconfirm"@);
    assert(upgrade_aur_words(helper, flags)[4] == "--noconfirm"@);
}

/// What an upgrade runs.
#[derive(Debug, Clone)]
pub struct UpgradePlan {
    pub pacman_targets: Vec<String>,
    pub aur_targets: Vec<String>,
    pub flags: Vec<String>,
    /// All commands, as they are shown.
    pub commands: Vec<String>,
}

fn pacman_words_of(flags: &Vec<String>) -> (r: Vec<String>)
    ensures
        text::texts(r@) == upgrade_pacman_words(text::texts(flags@)),
{
    let mut w = no_strings();
    push_str(&mut w, "sudo");
    push_str(&mut w, "pacman");
    push_str(&mut w, "-S");
    push_str(&mut w, "--needed");
    push_str(&mut w, "--noconfirm");
    assert(text::texts(w@) =~= seq!["sudo"@, "pacman"@, "-S"@, "--needed"@, "--noconfirm"@]);
    push_strs(&mut w, flags);
    w
}

fn aur_words_of(helper: &str, flags: &Vec<String>) -> (r: Vec<String>)
    ensures
        text::texts(r@) == upgrade_aur_words(helper@, text::texts(flags@)),
{
    let mut w = no_strings();
    push_str(&mut w, helper);
    push_str(&mut w, "-S");
    push_str(&mut w, "--needed");
    push_str(&mut w, "--aur");
    push_str(&mut w, "--noconfirm");
    assert(text::texts(w@) =~= seq![helper@, "-S"@, "--needed"@, "--aur"@, "--noconfirm"@]);
    push_strs(&mut w, flags);
    w
}

/// The commands that an upgrade takes: one for pacman, one for the AUR helper, and one for
/// each other package manager that has updates.
pub fn cmd_upgrade(
    updates: &Vec<ResolvedPackage>,
    helper: &str,
    extra_flags: &Vec<String>,
    providers: &Vec<Provider>,
    external: &Vec<ExternalUpdate>,
) -> (r: UpgradePlan)
    ensures
        text::texts(r.pacman_targets@) == pacman_upto(updates@, updates@.len() as int),
        text::texts(r.aur_targets@) == aur_upto(updates@, updates@.len() as int),
        text::texts(r.flags@) == upgrade_flags_upto(text::texts(extra_flags@), extra_flags@.len() as int),
        text::texts(r.commands@) == upgrade_commands(
            pacman_upto(updates@, updates@.len() as int),
            aur_upto(updates@, updates@.len() as int),
            helper@,
            upgrade_flags_upto(text::texts(extra_flags@), extra_flags@.len() as int),
            external_upto(providers@, external@, providers@.len() as int),
        ),
{
    let mut pacman = no_strings();
    let mut aur = no_strings();
    let mut i: usize = 0;
    while i < updates.len()
        invariant
            i <= updates@.len(),
            text::texts(pacman@) == pacman_upto(updates@, i as int),
            text::texts(aur@) == aur_upto(updates@, i as int),
        decreases updates@.len() - i,
    {
        let u = &updates[i];
        if let Some(c) = &u.candidate {
            if c.is_aur {
                push_str(&mut aur, &u.name);
            } else if str_eq(&u.state, "custom") || str_eq(&u.state, "sticky")
                || u.diverted_from_top {
                let mut t: String = c.repo.clone();
                t.append("/");
                t.append(&u.name);
                push_str(&mut pacman, &t);
            } else {
                push_str(&mut pacman, &u.name);
            }
        }
        i += 1;
    }
    let mut flags = no_strings();
    let mut f: usize = 0;
    while f < extra_flags.len()
        invariant
            f <= extra_flags@.len(),
            text::texts(flags@) == upgrade_flags_upto(text::texts(extra_flags@), f as int),
        decreases extra_flags@.len() - f,
    {
        assert(text::texts(extra_flags@)[f as int] == extra_flags@[f as int]@);
        if !is_kept(&extra_flags[f]) {
            push_str(&mut flags, &extra_flags[f]);
        }
        f += 1;
    }
    let mut commands = no_strings();
    if pacman.len() > 0 {
        let w = pacman_words_of(&flags);
        let c = record_command(&w, &pacman);
        push_str(&mut commands, &c);
    }
    if aur.len() > 0 {
        let w = aur_words_of(helper, &flags);
        let c = record_command(&w, &aur);
        push_str(&mut commands, &c);
    }
    let mut others = no_strings();
    let mut p: usize = 0;
    while p < providers.len()
        invariant
            p <= providers@.len(),
            text::texts(others@) == external_upto(providers@, external@, p as int),
        decreases providers@.len() - p,
    {
        let provider: Provider = providers[p];
        let own = IntegrationsManager::updates_for(provider, external);
        proof {
            assert(integrations::update_views(own@).len() == own@.len());
            assert(integrations::update_ids(own@) =~= view_ids(integrations::update_views(own@)));
        }
        if own.len() > 0 {
            let c = provider.upgrade_command_str(&own);
            push_str(&mut others, &c);
        }
        p += 1;
    }
    push_strs(&mut commands, &others);
    assert(text::texts(pacman@).len() == pacman@.len());
    assert(text::texts(aur@).len() == aur@.len());
    assert(text::texts(commands@) =~= upgrade_commands(
        text::texts(pacman@),
        text::texts(aur@),
        helper@,
        text::texts(flags@),
        text::texts(others@),
    ));
    UpgradePlan { pacman_targets: pacman, aur_targets: aur, flags, commands }
}

/// The command that upgrades with pacman.
pub fn upgrade_pacman_command(plan: &UpgradePlan) -> (r: CommandLine)
    ensures
        pm::runs(
            r,
            "sudo"@,
            seq!["pacman"@, "-S"@, "--needed"@, "--noconfirm"@] + text::texts(plan.flags@) + text::texts(
                plan.pacman_targets@,
            ),
        ),
{
    let mut a = no_strings();
    push_str(&mut a, "pacman");
    push_str(&mut a, "-S");
    push_str(&mut a, "--needed");
    push_str(&mut a, "--noconfirm");
    assert(text::texts(a@) =~= seq!["pacman"@, "-S"@, "--needed"@, "--noconfirm"@]);
    push_strs(&mut a, &plan.flags);
    push_strs(&mut a, &plan.pacman_targets);
    CommandLine { program: "sudo".to_string(), args: a }
}

/// The command that upgrades with the AUR helper.
pub fn upgrade_aur_command(plan: &UpgradePlan, helper: &str) -> (r: CommandLine)
    ensures
        pm::runs(
            r,
            helper@,
            seq!["-S"@, "--needed"@, "--aur"@, "--noconfirm"@] + text::texts(plan.flags@) + text::texts(
                plan.aur_targets@,
            ),
        ),
{
    let mut a = no_strings();
    push_str(&mut a, "-S");
    push_str(&mut a, "--needed");
    push_str(&mut a, "--aur");
    push_str(&mut a, "--noconfirm");
    assert(text::texts(a@) =~= seq!["-S"@, "--needed"@, "--aur"@, "--noconfirm"@]);
    push_strs(&mut a, &plan.flags);
    push_strs(&mut a, &plan.aur_targets);
    CommandLine { program: helper.to_string(), args: a }
}

// ---------------------------------------------------------------------------------------
// Orphans along the way

/// What happens to orphans.
#[derive(Debug, Clone, Copy, PartialEq, Eq, Structural)]
pub enum OrphanStep {
    /// Ask which ones to remove.
    Ask,
    /// Remove the pure ones.
    RemovePure,
    /// Remove none.
    Keep,
    /// Remember them, and nothing else.
    Remember,
    /// Leave everything as it is.
    Leave,
}

/// What happens to orphans when there is nothing to upgrade; `has_record` says whether it is
/// known which orphans have been told of.
pub fn orphans_when_idle(
    autoremove: bool,
    changed: bool,
    dry_run: bool,
    noconfirm: bool,
    any: bool,
    has_record: bool,
) -> (r: OrphanStep)
    ensures
        r == if (autoremove || changed) && !dry_run && any {
            if !noconfirm {
                OrphanStep::Ask
            } else if autoremove {
                OrphanStep::RemovePure
            } else {
                OrphanStep::Keep
            }
        } else if !dry_run && !has_record {
            OrphanStep::Remember
        } else {
            OrphanStep::Leave
        },
        dry_run ==> r == OrphanStep::Leave,
        r == OrphanStep::RemovePure ==> autoremove && noconfirm && any,
        r == OrphanStep::Ask ==> !noconfirm && any,
        !any && has_record ==> r == OrphanStep::Leave,
{
    if (autoremove || changed) && !dry_run && any {
        if !noconfirm {
            OrphanStep::Ask
        } else if autoremove {
            OrphanStep::RemovePure
        } else {
            OrphanStep::Keep
        }
    } else if !dry_run && !has_record {
        OrphanStep::Remember
    } else {
        OrphanStep::Leave
    }
}

/// Which orphans are removed after an upgrade.
pub fn orphans_after_upgrade(autoremove: bool, changed: bool, noconfirm: bool, any: bool) -> (r:
    OrphanStep)
    ensures
        r == if !noconfirm {
            if (autoremove || changed) && any {
                OrphanStep::Ask
            } else {
                OrphanStep::Keep
            }
        } else if autoremove && any {
            OrphanStep::RemovePure
        } else {
            OrphanStep::Keep
        },
        r == OrphanStep::RemovePure <==> autoremove && noconfirm && any,
        r == OrphanStep::Ask <==> !noconfirm && any && (autoremove || changed),
{
    if !noconfirm {
        if (autoremove || changed) && any {
            OrphanStep::Ask
        } else {
            OrphanStep::Keep
        }
    } else if autoremove && any {
        OrphanStep::RemovePure
    } else {
        OrphanStep::Keep
    }
}

/// The command that a dry run shows for orphans, where there are any to show.
pub fn projected_removal(orphans: &Vec<OrphanPackage>, shown: bool) -> (r: Option<String>)
    ensures
        text::opt_text(r) == if shown && orphans@.len() > 0 {
            Some("sudo pacman -Rns --noconfirm "@ + text::join(orphans::orphan_names(orphans@), " "@))
        } else {
            None
        },
{
    if !shown || orphans.len() == 0 {
        return None;
    }
    let names = OrphanManager::names(orphans);
    let list = join_strings(&names, " ");
    let mut out: String = "sudo pacman -Rns --noconfirm ".to_string();
    out.append(&list);
    Some(out)
}

// ---------------------------------------------------------------------------------------
// Confirmation and outcome

/// Whether an upgrade may begin.
#[derive(Debug, Clone, Copy, PartialEq, Eq, Structural)]
pub enum Confirmation {
    Proceed,
    Ask,
    /// It would have to be confirmed, and nobody can be asked.
    Impossible,
}

pub fn upgrade_confirmation(noconfirm: bool, terminal: bool) -> (r: Confirmation)
    ensures
        r == if noconfirm {
            Confirmation::Proceed
        } else if terminal {
            Confirmation::Ask
        } else {
            Confirmation::Impossible
        },
        r == Confirmation::Proceed <==> noconfirm,
        r == Confirmation::Ask <==> !noconfirm && terminal,
{
    if noconfirm {
        Confirmation::Proceed
    } else if terminal {
        Confirmation::Ask
    } else {
        Confirmation::Impossible
    }
}

/// Whether an answer lets the upgrade begin: a yes, or nothing at all.
pub fn upgrade_confirmed(answer: Option<&str>) -> (r: bool)
    ensures
        r == match answer {
            Some(a) => install::is_blank(a@) || install::says_yes(a@),
            None => false,
        },
        answer is None ==> !r,
        answer is Some && install::says_yes(answer->0@) ==> r,
{
    match answer {
        Some(a) => blank(a) || is_yes(a),
        None => false,
    }
}

/// How an upgrade ends.
#[derive(Debug, Clone)]
pub enum UpgradeEnd {
    Complete,
    /// End the program with this code.
    Exit(i32),
    /// A program could not be run.
    Failed(String),
}

/// A command of another package manager, and whether it succeeded.
#[derive(Debug, Clone)]
pub struct ExternalRun {
    pub command: String,
    pub success: bool,
}

/// What an upgrade has come to.
#[derive(Debug, Clone)]
pub struct UpgradeOutcome {
    /// The updates that were applied, in the order of the programs that applied them.
    pub applied: Vec<ResolvedPackage>,
    /// The commands to record, where anything was applied.
    pub record: Option<String>,
    pub end: UpgradeEnd,
}

pub open spec fn resolved_views(v: Seq<ResolvedPackage>) -> Seq<ResolvedView> {
    Seq::new(v.len(), |i: int| v[i]@)
}

/// Those of the first `n` updates that come from the AUR, or those that do not.
pub open spec fn applied_upto(us: Seq<ResolvedPackage>, aur: bool, n: int) -> Seq<ResolvedView>
    decreases n,
{
    if n <= 0 {
        Seq::empty()
    } else {
        match us[n - 1].candidate {
            Some(c) => if c.is_aur == aur {
                applied_upto(us, aur, n - 1).push(us[n - 1]@)
            } else {
                applied_upto(us, aur, n - 1)
            },
            None => applied_upto(us, aur, n - 1),
        }
    }
}

fn push_applied(out: &mut Vec<ResolvedPackage>, updates: &Vec<ResolvedPackage>, aur: bool)
    ensures
        resolved_views(final(out)@) == resolved_views(old(out)@) + applied_upto(
            updates@,
            aur,
            updates@.len() as int,
        ),
{
    let ghost before = resolved_views(out@);
    let mut i: usize = 0;
    assert(before + Seq::<ResolvedView>::empty() =~= before);
    while i < updates.len()
        invariant
            i <= updates@.len(),
            resolved_views(out@) == before + applied_upto(updates@, aur, i as int),
        decreases updates@.len() - i,
    {
        if let Some(c) = &updates[i].candidate {
            if c.is_aur == aur {
                let ghost mid = resolved_views(out@);
                out.push(updates[i].dup());
                proof {
                    assert(resolved_views(out@) =~= mid.push(updates@[i as int]@));
                    assert((before + applied_upto(updates@, aur, i as int)).push(
                        updates@[i as int]@,
                    ) =~= before + applied_upto(updates@, aur, i as int).push(
                        updates@[i as int]@,
                    ));
                }
            }
        }
        i += 1;
    }
}

/// The commands of other package managers that succeeded, of the first `n`.
pub open spec fn external_done(runs: Seq<ExternalRun>, n: int) -> Seq<Seq<char>>
    decreases n,
{
    if n <= 0 {
        Seq::empty()
    } else if runs[n - 1].success {
        external_done(runs, n - 1).push(runs[n - 1].command@)
    } else {
        external_done(runs, n - 1)
    }
}

pub open spec fn all_done(runs: Seq<ExternalRun>) -> bool {
    forall|i: int| 0 <= i < runs.len() ==> (#[trigger] runs[i]).success
}

/// Pacman has targets and succeeded.
pub open spec fn pacman_done(pacman: Seq<Seq<char>>, run: RunResult) -> bool {
    pacman.len() > 0 && run is Success
}

/// Nothing that was run so far has failed.
pub open spec fn repos_ok(
    pacman: Seq<Seq<char>>,
    aur: Seq<Seq<char>>,
    run: RunResult,
    aur_run: RunResult,
) -> bool {
    (pacman.len() == 0 || run is Success) && (aur.len() == 0 || aur_run is Success)
}

pub open spec fn end_of(run: RunResult) -> UpgradeEnd {
    match run {
        RunResult::Success => UpgradeEnd::Complete,
        RunResult::Exit(c) => UpgradeEnd::Exit(c),
        RunResult::Failed(e) => UpgradeEnd::Failed(e),
    }
}

fn tell_end(run: &RunResult) -> (r: UpgradeEnd)
    ensures
        r == end_of(*run),
{
    match run {
        RunResult::Success => UpgradeEnd::Complete,
        RunResult::Exit(c) => UpgradeEnd::Exit(*c),
        RunResult::Failed(e) => UpgradeEnd::Failed(e.clone()),
    }
}

/// Whether the AUR helper is run after pacman has ended so: where it has targets, and pacman
/// had none or succeeded.
pub fn upgrade_runs_helper(plan: &UpgradePlan, pacman: &RunResult) -> (r: bool)
    ensures
        r == (plan.aur_targets@.len() > 0 && (plan.pacman_targets@.len() == 0 || *pacman is Success)),
{
    plan.aur_targets.len() > 0 && (plan.pacman_targets.len() == 0 || matches!(
        pacman,
        RunResult::Success
    ))
}

/// Whether the other package managers are run after pacman and the AUR helper have ended so:
/// where neither has failed.
pub fn upgrade_runs_others(plan: &UpgradePlan, pacman: &RunResult, aur: &RunResult) -> (r: bool)
    ensures
        r == repos_ok(
            text::texts(plan.pacman_targets@),
            text::texts(plan.aur_targets@),
            *pacman,
            *aur,
        ),
{
    (plan.pacman_targets.len() == 0 || matches!(pacman, RunResult::Success)) && (
    plan.aur_targets.len() == 0 || matches!(aur, RunResult::Success))
}

/// What an upgrade has come to: pacman ended as `pacman` says, the AUR helper, which runs
/// only if pacman did not fail, as `aur` says, and the other package managers, which run only
/// if neither failed, as `external` says. The results of programs that were not run do not
/// count.
pub fn settle_upgrade(
    plan: &UpgradePlan,
    updates: &Vec<ResolvedPackage>,
    helper: &str,
    pacman: &RunResult,
    aur: &RunResult,
    external: &Vec<ExternalRun>,
) -> (r: UpgradeOutcome)
    ensures
        ({
            let pt = text::texts(plan.pacman_targets@);
            let at = text::texts(plan.aur_targets@);
            let n = updates@.len() as int;
            let no_views = Seq::<ResolvedView>::empty();
            let none = Seq::<Seq<char>>::empty();
            let with_aur = at.len() > 0 && (pt.len() == 0 || *pacman is Success);
            let with_ext = repos_ok(pt, at, *pacman, *aur);
            let applied = (if pacman_done(pt, *pacman) {
                applied_upto(updates@, false, n)
            } else {
                no_views
            }) + (if with_aur && *aur is Success {
                applied_upto(updates@, true, n)
            } else {
                no_views
            });
            let done = (if pacman_done(pt, *pacman) {
                seq![install::recorded_command(upgrade_pacman_words(text::texts(plan.flags@)), pt)]
            } else {
                none
            }) + (if with_aur && *aur is Success {
                seq![install::recorded_command(upgrade_aur_words(helper@, text::texts(plan.flags@)), at)]
            } else {
                none
            }) + (if with_ext {
                external_done(external@, external@.len() as int)
            } else {
                none
            });
            &&& resolved_views(r.applied@) == applied
            &&& text::opt_text(r.record) == if applied.len() > 0 {
                Some(text::join(done, " && "@))
            } else {
                None
            }
            &&& r.end == if pt.len() > 0 && !(*pacman is Success) {
                end_of(*pacman)
            } else if with_aur && !(*aur is Success) {
                end_of(*aur)
            } else if !all_done(external@) {
                UpgradeEnd::Exit(0)
            } else {
                UpgradeEnd::Complete
            }
        }),
        plan.pacman_targets@.len() > 0 && !(*pacman is Success) ==> r.applied@.len() == 0
            && r.record is None && !(r.end is Complete),
        r.end is Complete ==> (plan.pacman_targets@.len() == 0 || *pacman is Success) && (
        plan.aur_targets@.len() == 0 || *aur is Success) && all_done(external@),
{
    let mut applied: Vec<ResolvedPackage> = Vec::new();
    let mut done = no_strings();
    let mut end: UpgradeEnd = UpgradeEnd::Complete;
    let mut ok: bool = true;
    let ghost pt = text::texts(plan.pacman_targets@);
    let ghost at = text::texts(plan.aur_targets@);
    assert(resolved_views(applied@) =~= Seq::<ResolvedView>::empty());
    if plan.pacman_targets.len() > 0 {
        match pacman {
            RunResult::Success => {
                push_applied(&mut applied, updates, false);
                let w = pacman_words_of(&plan.flags);
                let c = record_command(&w, &plan.pacman_targets);
                push_str(&mut done, &c);
            },
            _ => {
                end = tell_end(pacman);
                ok = false;
            },
        }
    }
    if ok && plan.aur_targets.len() > 0 {
        match aur {
            RunResult::Success => {
                push_applied(&mut applied, updates, true);
                let w = aur_words_of(helper, &plan.flags);
                let c = record_command(&w, &plan.aur_targets);
                push_str(&mut done, &c);
            },
            _ => {
                end = tell_end(aur);
                ok = false;
            },
        }
    }
    let ghost before = text::texts(done@);
    if ok {
        let mut all: bool = true;
        let mut ext = no_strings();
        let mut i: usize = 0;
        while i < external.len()
            invariant
                i <= external@.len(),
                text::texts(ext@) == external_done(external@, i as int),
                all == (forall|j: int| 0 <= j < i ==> (#[trigger] external@[j]).success),
            decreases external@.len() - i,
        {
            if external[i].success {
                push_str(&mut ext, &external[i].command);
            } else {
                all = false;
            }
            i += 1;
        }
        push_strs(&mut done, &ext);
        if !all {
            end = UpgradeEnd::Exit(0);
        }
    }
    assert(resolved_views(applied@).len() == applied@.len());
    let record: Option<String> = if applied.len() > 0 {
        Some(join_strings(&done, " && "))
    } else {
        None
    };
    proof {
        let none = Seq::<Seq<char>>::empty();
        let n = updates@.len() as int;
        let with_aur = at.len() > 0 && (pt.len() == 0 || *pacman is Success);
        let a = if pacman_done(pt, *pacman) {
            applied_upto(updates@, false, n)
        } else {
            Seq::<ResolvedView>::empty()
        };
        let b = if with_aur && *aur is Success {
            applied_upto(updates@, true, n)
        } else {
            Seq::<ResolvedView>::empty()
        };
        assert(resolved_views(applied@) =~= a + b);
        let x = if pacman_done(pt, *pacman) {
            seq![install::recorded_command(upgrade_pacman_words(text::texts(plan.flags@)), pt)]
        } else {
            none
        };
        let y = if with_aur && *aur is Success {
            seq![install::recorded_command(upgrade_aur_words(helper@, text::texts(plan.flags@)), at)]
        } else {
            none
        };
        let z = if repos_ok(pt, at, *pacman, *aur) {
            external_done(external@, external@.len() as int)
        } else {
            none
        };
        assert(text::texts(done@) =~= x + y + z);
    }
    UpgradeOutcome { applied, record, end }
}

/// What is recorded of an applied update.
#[derive(Debug, Clone)]
pub struct UpgradeRecord {
    pub name: String,
    pub from_repo: String,
    pub from_version: String,
    pub to_repo: String,
    pub to_version: String,
    pub state: String,
}

pub fn upgrade_record(u: &ResolvedPackage) -> (r: UpgradeRecord)
    ensures
        r.name@ == u.name@,
        r.from_repo@ == integrations::or_else_text(u.installed_db@, "unknown"@),
        r.from_version@ == u.installed_ver@,
        r.to_repo@ == (match u.candidate {
            Some(c) => c.repo@,
            None => "unknown"@,
        }),
        r.to_version@ == (match u.candidate {
            Some(c) => c.version@,
            None => "unknown"@,
        }),
        r.state@ == u.state@,
{
    let (repo, version): (String, String) = match &u.candidate {
        Some(c) => (c.repo.clone(), c.version.clone()),
        None => ("unknown".to_string(), "unknown".to_string()),
    };
    UpgradeRecord {
        name: u.name.clone(),
        from_repo: if u.installed_db.as_str().is_empty() {
            "unknown".to_string()
        } else {
            u.installed_db.clone()
        },
        from_version: u.installed_ver.clone(),
        to_repo: repo,
        to_version: version,
        state: u.state.clone(),
    }
}

} // verus!
