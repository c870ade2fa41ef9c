//! What is promised of an upgrade: which updates are asked for, from where, and with which
//! flags.
use crate::db::{LocalPackage, SyncPackage};
use crate::install::RunResult;
use crate::picks;
use crate::resolve_laws;
use crate::resolver::{Inputs, ResolvedPackage};
use crate::resolver;
use crate::text;
use crate::upgrade::ExternalRun;
use crate::upgrade;
use vstd::prelude::*;
use vstd::string::*;

verus! {

/// An update that pacman makes.
pub open spec fn from_repos(u: ResolvedPackage) -> bool {
    u.candidate matches Some(c) && !c.is_aur
}

/// An update that the AUR helper makes.
pub open spec fn from_the_aur(u: ResolvedPackage) -> bool {
    u.candidate matches Some(c) && c.is_aur
}

/// The package, with the repository it is wanted from.
pub open spec fn repo_and_name(u: ResolvedPackage) -> Seq<char> {
    u.candidate->0.repo@.push('/') + u.name@
}

/// A bare name will do where no rule and no origin decides and the repository of highest
/// priority was not passed over.
pub open spec fn asked_for(u: ResolvedPackage) -> Seq<char> {
    if u.state@ != "custom"@ && u.state@ != "sticky"@ && !u.diverted_from_top {
        u.name@
    } else {
        repo_and_name(u)
    }
}

/// Pacman is asked for exactly the updates from repositories, in order.
pub proof fn repository_updates_are_asked_for(us: Seq<ResolvedPackage>, n: int)
    requires
        0 <= n <= us.len(),
    ensures
        picks::made_of(
            upgrade::pacman_upto(us, n),
            n,
            |i: int| from_repos(us[i]),
            |i: int| asked_for(us[i]),
        ),
    decreases n,
{
    let keep = |i: int| from_repos(us[i]);
    let give = |i: int| asked_for(us[i]);
    if n == 0 {
        picks::made_of_none(keep, give);
    } else {
        repository_updates_are_asked_for(us, n - 1);
        picks::made_of_one_more(upgrade::pacman_upto(us, n - 1), n - 1, keep, give);
        if from_repos(us[n - 1]) {
            target_is_asked_for(us[n - 1]);
        }
        assert(keep(n - 1) == from_repos(us[n - 1]));
        assert(give(n - 1) == asked_for(us[n - 1]));
    }
}

proof fn target_is_asked_for(u: ResolvedPackage)
    requires
        u.candidate is Some,
    ensures
        upgrade::upgrade_target(u, u.candidate->0) == asked_for(u),
        repo_and_name(u) != u.name@,
{
    reveal_strlit("/");
    assert(u.candidate->0.repo@ + "/"@ =~= u.candidate->0.repo@.push('/'));
    assert(repo_and_name(u).len() > u.name@.len());
}

/// The AUR helper is asked for exactly the updates from the AUR, in order.
pub proof fn aur_updates_are_asked_for(us: Seq<ResolvedPackage>, n: int)
    requires
        0 <= n <= us.len(),
    ensures
        picks::made_of(
            upgrade::aur_upto(us, n),
            n,
            |i: int| from_the_aur(us[i]),
            |i: int| us[i].name@,
        ),
    decreases n,
{
    let keep = |i: int| from_the_aur(us[i]);
    let give = |i: int| us[i].name@;
    if n == 0 {
        picks::made_of_none(keep, give);
    } else {
        aur_updates_are_asked_for(us, n - 1);
        picks::made_of_one_more(upgrade::aur_upto(us, n - 1), n - 1, keep, give);
        assert(keep(n - 1) == from_the_aur(us[n - 1]));
        assert(give(n - 1) == us[n - 1].name@);
    }
}

/// What is recorded as done are exactly the updates of the program that was run, in order.
pub proof fn applied_updates_are_those_of_the_runner(us: Seq<ResolvedPackage>, aur: bool, n: int)
    requires
        0 <= n <= us.len(),
    ensures
        picks::made_of(
            upgrade::applied_upto(us, aur, n),
            n,
            |i: int| if aur {
                from_the_aur(us[i])
            } else {
                from_repos(us[i])
            },
            |i: int| us[i]@,
        ),
    decreases n,
{
    let keep = |i: int| if aur {
        from_the_aur(us[i])
    } else {
        from_repos(us[i])
    };
    let give = |i: int| us[i]@;
    if n == 0 {
        picks::made_of_none(keep, give);
    } else {
        applied_updates_are_those_of_the_runner(us, aur, n - 1);
        picks::made_of_one_more(upgrade::applied_upto(us, aur, n - 1), n - 1, keep, give);
        assert(keep(n - 1) == if aur {
            from_the_aur(us[n - 1])
        } else {
            from_repos(us[n - 1])
        });
        assert(give(n - 1) == us[n - 1]@);
    }
}

/// The update `u` was resolved for the installed package `p`; a hold changes none of this.
pub open spec fn resolved_from(u: ResolvedPackage, s: Inputs, p: LocalPackage) -> bool {
    let o = resolver::outcome(s, p);
    &&& u@.name == o.name
    &&& u@.state == o.state
    &&& u@.candidate == o.candidate
    &&& u@.diverted_from_top == o.diverted_from_top
}

/// The repository at `t` is the one of highest priority that has the package.
pub open spec fn is_top(s: Inputs, name: Seq<char>, t: int, top: SyncPackage) -> bool {
    &&& 0 <= t < s.manager.repos@.len()
    &&& resolve_laws::has(*s.manager, s.manager.repos@[t]@, name, top)
    &&& forall|j: int|
        0 <= j < t ==> resolve_laws::lacks(*s.manager, (#[trigger] s.manager.repos@[j])@, name)
}

/// Of the updates that were resolved, pacman is asked for each one whose candidate does not
/// come from the repository of highest priority that has the package as that repository, a
/// slash and its name; a bare name stands only for the candidate of that repository.
pub proof fn passed_over_repo_is_never_asked(
    us: Seq<ResolvedPackage>,
    k: int,
    s: Inputs,
    p: LocalPackage,
    t: int,
    top: SyncPackage,
)
    requires
        0 <= k < us.len(),
        from_repos(us[k]),
        resolved_from(us[k], s, p),
        is_top(s, p.name@, t, top),
    ensures
        us[k].candidate->0.repo@ != s.manager.repos@[t]@ ==> upgrade::pacman_upto(
            us,
            us.len() as int,
        ).contains(us[k].candidate->0.repo@.push('/') + p.name@),
        upgrade::upgrade_target(us[k], us[k].candidate->0) == p.name@ ==> us[k].candidate->0.repo@
            == s.manager.repos@[t]@,
{
    let n = us.len() as int;
    let keep = |i: int| from_repos(us[i]);
    let give = |i: int| asked_for(us[i]);
    repository_updates_are_asked_for(us, n);
    picks::made_of_holds(upgrade::pacman_upto(us, n), n, keep, give, asked_for(us[k]));
    assert(keep(k) && give(k) == asked_for(us[k]));
    target_is_asked_for(us[k]);
    resolve_laws::top_repo_is_the_first_that_has(s, p.name@, t, top);
}

/// A pinned update, and one that stays with its origin, always names its repository.
pub proof fn decided_update_names_its_repo(us: Seq<ResolvedPackage>, k: int)
    requires
        0 <= k < us.len(),
        from_repos(us[k]),
        us[k].state@ == "custom"@ || us[k].state@ == "sticky"@,
    ensures
        upgrade::pacman_upto(us, us.len() as int).contains(
            us[k].candidate->0.repo@.push('/') + us[k].name@,
        ),
{
    let n = us.len() as int;
    let keep = |i: int| from_repos(us[i]);
    let give = |i: int| asked_for(us[i]);
    repository_updates_are_asked_for(us, n);
    picks::made_of_holds(upgrade::pacman_upto(us, n), n, keep, give, asked_for(us[k]));
    assert(keep(k) && give(k) == asked_for(us[k]));
}

/// A bundle of short flags, all of whose letters are among the given ones.
pub open spec fn bundle_of(f: Seq<char>, letters: Seq<char>) -> bool {
    &&& f.len() >= 1
    &&& f[0] == '-'
    &&& forall|i: int| 1 <= i < f.len() ==> letters.contains(#[trigger] f[i])
}

/// A flag that the program itself acts on in an upgrade.
pub open spec fn is_own_upgrade_flag(f: Seq<char>) -> bool {
    seq![
        "-y"@,
        "-yy"@,
        "--refresh"@,
        "-u"@,
        "-uu"@,
        "--sysupgrade"@,
        "-c"@,
        "--clean"@,
        "--autoremove"@,
        "-n"@,
        "--dry-run"@,
        "--noconfirm"@,
        "--needed"@,
    ].contains(f)
}

/// In an upgrade all flags but the program's own are handed on, in order.
pub proof fn other_upgrade_flags_are_handed_on(flags: Seq<Seq<char>>, n: int)
    requires
        0 <= n <= flags.len(),
    ensures
        picks::made_of(
            upgrade::upgrade_flags_upto(flags, n),
            n,
            |i: int| !is_own_upgrade_flag(flags[i]),
            |i: int| flags[i],
        ),
    decreases n,
{
    let keep = |i: int| !is_own_upgrade_flag(flags[i]);
    let give = |i: int| flags[i];
    if n == 0 {
        picks::made_of_none(keep, give);
    } else {
        other_upgrade_flags_are_handed_on(flags, n - 1);
        picks::made_of_one_more(upgrade::upgrade_flags_upto(flags, n - 1), n - 1, keep, give);
        own_upgrade_flags(flags[n - 1]);
        assert(keep(n - 1) == !is_own_upgrade_flag(flags[n - 1]));
        assert(give(n - 1) == flags[n - 1]);
    }
}

proof fn own_upgrade_flags(f: Seq<char>)
    ensures
        upgrade::upgrade_keeps(f) == is_own_upgrade_flag(f),
{
    let own = seq![
        "-y"@,
        "-yy"@,
        "--refresh"@,
        "-u"@,
        "-uu"@,
        "--sysupgrade"@,
        "-c"@,
        "--clean"@,
        "--autoremove"@,
        "-n"@,
        "--dry-run"@,
        "--noconfirm"@,
        "--needed"@,
    ];
    assert(own[0] == "-y"@ && own[1] == "-yy"@ && own[2] == "--refresh"@ && own[3] == "-u"@ && own[4]
        == "-uu"@ && own[5] == "--sysupgrade"@ && own[6] == "-c"@ && own[7] == "--clean"@ && own[8]
        == "--autoremove"@ && own[9] == "-n"@ && own[10] == "--dry-run"@ && own[11]
        == "--noconfirm"@ && own[12] == "--needed"@);
}

/// A flag that the program itself acts on elsewhere: one of five words, or a bundle of the
/// letters `y`, `u` and `n`.
pub open spec fn is_own_flag(f: Seq<char>) -> bool {
    ||| seq!["--refresh"@, "--sysupgrade"@, "--dry-run"@, "--noconfirm"@, "--needed"@].contains(f)
    ||| bundle_of(f, seq!['y', 'u', 'n'])
}

/// All flags but the program's own are handed on, in order.
pub proof fn other_flags_are_handed_on(flags: Seq<Seq<char>>, n: int)
    requires
        0 <= n <= flags.len(),
    ensures
        picks::made_of(
            upgrade::forwarded_upto(flags, n),
            n,
            |i: int| !is_own_flag(flags[i]),
            |i: int| flags[i],
        ),
    decreases n,
{
    let keep = |i: int| !is_own_flag(flags[i]);
    let give = |i: int| flags[i];
    if n == 0 {
        picks::made_of_none(keep, give);
    } else {
        other_flags_are_handed_on(flags, n - 1);
        picks::made_of_one_more(upgrade::forwarded_upto(flags, n - 1), n - 1, keep, give);
        own_flags(flags[n - 1]);
        assert(keep(n - 1) == !is_own_flag(flags[n - 1]));
        assert(give(n - 1) == flags[n - 1]);
    }
}

proof fn own_flags(f: Seq<char>)
    ensures
        upgrade::is_forwarded(f) == !is_own_flag(f),
{
    reveal_strlit("-");
    reveal_strlit("--");
    let own = seq!["--refresh"@, "--sysupgrade"@, "--dry-run"@, "--noconfirm"@, "--needed"@];
    assert(own[0] == "--refresh"@ && own[1] == "--sysupgrade"@ && own[2] == "--dry-run"@ && own[3]
        == "--noconfirm"@ && own[4] == "--needed"@);
    let letters = seq!['y', 'u', 'n'];
    assert(letters[0] == 'y' && letters[1] == 'u' && letters[2] == 'n');
    if upgrade::short_of_yun(f) {
        assert(f.take(1)[0] == f[0]);
        assert forall|i: int| 1 <= i < f.len() implies letters.contains(#[trigger] f[i]) by {}
        assert(bundle_of(f, letters));
    }
    if bundle_of(f, letters) {
        assert(f.take(1) =~= "-"@);
        if text::begins(f, "--"@) {
            assert(f.take(2)[1] == f[1]);
            assert(letters.contains(f[1]));
        }
        assert forall|i: int| 1 <= i < f.len() implies #[trigger] f[i] == 'y' || f[i] == 'u' || f[i]
            == 'n' by {
            assert(letters.contains(f[i]));
        }
    }
}

/// A flag is given by its long name, or by its letter anywhere in a bundle of one-letter
/// flags behind one hyphen.
pub proof fn flags_are_told_by_name_or_letter(flags: Seq<Seq<char>>, long: Seq<char>, c: char)
    ensures
        upgrade::any_flag(flags, long, c) <==> exists|i: int|
            0 <= i < flags.len() && (#[trigger] flags[i] == long || letter_in_bundle(flags[i], c)),
{
    assert forall|i: int| 0 <= i < flags.len() implies upgrade::flag_says(#[trigger] flags[i], long, c)
        == (flags[i] == long || letter_in_bundle(flags[i], c)) by {
        letters_of_a_bundle(flags[i], c);
    }
    if exists|i: int|
        0 <= i < flags.len() && (#[trigger] flags[i] == long || letter_in_bundle(flags[i], c)) {
        let i = choose|i: int|
            0 <= i < flags.len() && (#[trigger] flags[i] == long || letter_in_bundle(flags[i], c));
        assert(upgrade::flag_says(flags[i], long, c));
    }
}

pub open spec fn letter_in_bundle(f: Seq<char>, c: char) -> bool {
    &&& f.len() >= 1
    &&& f[0] == '-'
    &&& f.len() >= 2 ==> f[1] != '-'
    &&& exists|i: int| 1 <= i < f.len() && #[trigger] f[i] == c
}

proof fn letters_of_a_bundle(f: Seq<char>, c: char)
    ensures
        upgrade::short_has(f, c) == letter_in_bundle(f, c),
{
    reveal_strlit("-");
    reveal_strlit("--");
    if upgrade::short_has(f, c) {
        assert(f.take(1)[0] == f[0]);
        let rest = f.skip(1);
        let k = choose|k: int| 0 <= k < rest.len() && rest[k] == c;
        assert(f[k + 1] == c);
        if f[1] == '-' {
            assert(f.take(2) =~= "--"@);
        }
    }
    if letter_in_bundle(f, c) {
        assert(f.take(1) =~= "-"@);
        let i = choose|i: int| 1 <= i < f.len() && #[trigger] f[i] == c;
        assert(f.skip(1)[i - 1] == c);
        if text::begins(f, "--"@) {
            assert(f.take(2)[1] == f[1]);
        }
    }
}

/// Of the commands of other package managers exactly those that succeeded are recorded.
pub proof fn only_successes_are_recorded(runs: Seq<ExternalRun>, n: int)
    requires
        0 <= n <= runs.len(),
    ensures
        picks::made_of(
            upgrade::external_done(runs, n),
            n,
            |i: int| runs[i].success,
            |i: int| runs[i].command@,
        ),
    decreases n,
{
    let keep = |i: int| runs[i].success;
    let give = |i: int| runs[i].command@;
    if n == 0 {
        picks::made_of_none(keep, give);
    } else {
        only_successes_are_recorded(runs, n - 1);
        picks::made_of_one_more(upgrade::external_done(runs, n - 1), n - 1, keep, give);
        assert(keep(n - 1) == runs[n - 1].success);
        assert(give(n - 1) == runs[n - 1].command@);
    }
}

/// An upgrade runs pacman where it has targets, then the helper where it has some, then all
/// other package managers, each with the flags and all of its targets.
pub proof fn commands_are_for_what_has_targets(
    pacman: Seq<Seq<char>>,
    aur: Seq<Seq<char>>,
    helper: Seq<char>,
    flags: Seq<Seq<char>>,
    external: Seq<Seq<char>>,
)
    ensures
        ({
            let all = upgrade::upgrade_commands(pacman, aur, helper, flags, external);
            let first: int = if pacman.len() > 0 {
                1
            } else {
                0
            };
            let own: int = if aur.len() > 0 {
                first + 1
            } else {
                first
            };
            &&& all.len() == own + external.len()
            &&& all.skip(own) == external
            &&& pacman.len() > 0 ==> all[0] == text::join(
                seq!["sudo"@, "pacman"@, "-S"@, "--needed"@, "--noconfirm"@] + flags,
                " "@,
            ) + " "@ + text::join(pacman, " "@)
            &&& aur.len() > 0 ==> all[first] == text::join(
                seq![helper, "-S"@, "--needed"@, "--aur"@, "--noconfirm"@] + flags,
                " "@,
            ) + " "@ + text::join(aur, " "@)
        }),
{
    let all = upgrade::upgrade_commands(pacman, aur, helper, flags, external);
    let own: int = (if pacman.len() > 0 {
        1int
    } else {
        0
    }) + (if aur.len() > 0 {
        1int
    } else {
        0
    });
    assert(all.skip(own) =~= external);
}

/// Nothing has failed where each program that has targets succeeded; only then are the other
/// package managers run.
pub proof fn others_wait_for_success(
    pacman: Seq<Seq<char>>,
    aur: Seq<Seq<char>>,
    run: RunResult,
    aur_run: RunResult,
)
    ensures
        upgrade::repos_ok(pacman, aur, run, aur_run) <==> (pacman.len() > 0 ==> run is Success) && (
        aur.len() > 0 ==> aur_run is Success),
        upgrade::pacman_done(pacman, run) ==> run is Success && pacman.len() > 0,
{
}

} // verus!
