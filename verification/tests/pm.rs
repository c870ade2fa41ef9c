//! Installation and removal: command lines, the lock, conflicts and what is recorded.
use pacpin::config::Config;
use pacpin::db::{AlpmManager, Conflict, LocalPackage, SyncDb, SyncPackage, VersionOrder};
use pacpin::download_plan::{DepAnswer, Known};
use pacpin::install::{
    add_pins, blank, check_package_conflicts, check_single_pkg_delay, clean, forward_pacman, info,
    install, is_no, is_yes, notice_answer, notice_needs_answer, notice_text, partial_answer,
    partial_upgrade_gate, refresh_result, removal_result, remove, search, settle_install,
    should_run_helper, upgrade_answer, verify_target_and_dependencies_delay, Gate, InstallPlan,
    RunResult, UpgradeAnswer,
};
use pacpin::pm::{
    aur_install, build_install_commands, check_lock, is_manager_name, lock_by_pid,
    lock_by_processes, lock_pid, pacman_install, pacman_operation,
    wait_for_lock, wait_seconds, InstallOptions, LockInfo, LockWait, Process,
};
use pacpin::resolver::ResolverEngine;
use pacpin::strmap::StrMap;

fn to_vec(slice: &[&str]) -> Vec<String> {
    slice.iter().map(|s| s.to_string()).collect()
}

fn nothing_known() -> Known {
    Known { deps: StrMap::new(), servers: StrMap::new() }
}

fn local(name: &str) -> LocalPackage {
    LocalPackage {
        name: name.to_string(),
        version: "1.0-1".to_string(),
        isize: 100,
        desc: None,
        as_dependency: false,
        depends: Vec::new(),
        provides: Vec::new(),
        required_by: Vec::new(),
        optional_for: Vec::new(),
        conflicts: Vec::new(),
    }
}

fn sync(name: &str) -> SyncPackage {
    SyncPackage {
        name: name.to_string(),
        version: "2.0-1".to_string(),
        base: None,
        csize: 10,
        isize: 110,
        desc: None,
        builddate: 1_000_000,
        depends: Vec::new(),
        provides: Vec::new(),
        conflicts: Vec::new(),
        groups: Vec::new(),
        filename: None,
        sha256: None,
        versus_installed: VersionOrder::Newer,
    }
}

fn manager(locals: Vec<LocalPackage>, pkgs: Vec<SyncPackage>) -> AlpmManager {
    AlpmManager {
        local: locals,
        sync: vec![SyncDb { name: "extra".to_string(), pkgs }],
        repos: to_vec(&["extra"]),
    }
}

fn options(refresh: bool, sysupgrade: bool, dry_run: bool) -> InstallOptions {
    InstallOptions {
        needed: true,
        noconfirm: false,
        refresh,
        sysupgrade,
        dry_run,
        forwarded_flags: Vec::new(),
    }
}

#[test]
fn test_install_options_default() {
    let opts = InstallOptions::default();
    assert!(opts.needed);
    assert!(!opts.noconfirm);
    assert!(!opts.refresh);
    assert!(!opts.sysupgrade);
    assert!(!opts.dry_run);
    assert!(opts.forwarded_flags.is_empty());
}

#[test]
fn test_empty_targets_rejected() {
    let opts = InstallOptions::default();
    let res = install(&Vec::new(), &opts);
    assert!(res.is_err());
    assert_eq!(res.unwrap_err(), "No package targets specified.");
}

#[test]
fn test_unknown_repo_rejected() {
    let opts = InstallOptions::default();
    let targets = to_vec(&["nonexistent_repo/foobar"]);
    assert!(install(&targets, &opts).is_ok());
    let mut plan = InstallPlan::new();
    let res = plan.place(&to_vec(&["core", "extra"]), &targets[0], false, false, &Vec::new());
    assert!(res.is_err());
    assert!(res.unwrap_err().contains("Repository '[nonexistent_repo]' is not recognized"));
}

#[test]
fn test_check_lock_when_no_lock() {
    assert!(check_lock(&None).is_ok());
}

#[test]
fn test_lock_inspection_live_and_stale_pids() {
    let pid = lock_pid("4321\n").unwrap();
    let live = lock_by_pid("/tmp/pacpin-lock-test", pid, true, Some("pacman\n"));
    assert_eq!(live.pid, Some(4321));
    assert!(live.is_alive);

    let content = format!("{}\n", i32::MAX);
    let stale = lock_by_pid("/tmp/pacpin-lock-test", lock_pid(&content).unwrap(), false, None);
    assert_eq!(stale.pid, Some(i32::MAX));
    assert!(!stale.is_alive);
    assert!(check_lock(&Some(live)).is_err());
    assert!(check_lock(&Some(stale)).is_err());
}

#[test]
fn test_wait_for_lock_succeeds_when_unlocked() {
    assert!(matches!(wait_for_lock(&None, 0, 1), LockWait::Free));
}

#[test]
fn waiting_for_a_lock_ends() {
    let held = || {
        Some(LockInfo {
            path: "/var/lib/pacman/db.lck".to_string(),
            pid: Some(1),
            process_name: None,
            is_alive: true,
        })
    };
    assert!(matches!(wait_for_lock(&held(), 0, 1), LockWait::Again));
    assert!(matches!(wait_for_lock(&held(), 5000, 1), LockWait::Fail(_)));
}

#[test]
fn a_lock_without_a_number_is_ascribed_to_a_manager() {
    assert_eq!(lock_pid("none"), None);
    assert_eq!(lock_pid(""), None);
    assert!(is_manager_name("pacman") && !is_manager_name("bash"));
    let ps = vec![
        Process { entry: "12".to_string(), comm: Some("bash".to_string()) },
        Process { entry: "77".to_string(), comm: Some("pacman".to_string()) },
    ];
    let found = lock_by_processes("/l", 5, &ps);
    assert_eq!(found.pid, Some(77));
    assert!(found.is_alive);
    let own = lock_by_processes("/l", 77, &ps);
    assert_eq!(own.pid, None);
}

#[test]
fn test_wait_flag_parsing() {
    assert_eq!(wait_seconds(&to_vec(&["--wait", "42"])), Some(42));
    assert_eq!(wait_seconds(&to_vec(&["--wait=15"])), Some(15));
}

#[test]
fn waiting_without_a_number_takes_ten_minutes() {
    assert_eq!(wait_seconds(&to_vec(&["--wait"])), Some(600));
    assert_eq!(wait_seconds(&to_vec(&["--wait", "soon"])), Some(600));
    assert_eq!(wait_seconds(&to_vec(&["--needed"])), None);
}

#[test]
fn test_build_install_commands() {
    let targets = to_vec(&["ollama"]);
    let no_aur = Vec::new();

    // 1. Dry run with refresh only (-Sy): includes sudo pacman -Sy and sudo pacman -S
    let opts_dry_sy = options(true, false, true);
    let (cmds, op, _) = build_install_commands(&targets, &no_aur, "paru", &opts_dry_sy, false);
    assert_eq!(op, "-S");
    assert_eq!(
        cmds,
        vec!["sudo pacman -Sy".to_string(), "sudo pacman -S --needed -- ollama".to_string()]
    );

    // 2. Real execution with refresh only: no second refresh in the command
    let opts_sy = options(true, false, false);
    let (cmds, op, _) = build_install_commands(&targets, &no_aur, "paru", &opts_sy, false);
    assert_eq!(op, "-S");
    assert_eq!(cmds, vec!["sudo pacman -S --needed -- ollama".to_string()]);

    // 3. Sysupgrade (-Syu): atomic full upgrade, no duplicate -Sy
    let opts_syu = options(true, true, false);
    let (cmds, op, _) = build_install_commands(&targets, &no_aur, "paru", &opts_syu, true);
    assert_eq!(op, "-Syu");
    assert_eq!(cmds, vec!["sudo pacman -Syu --needed -- ollama".to_string()]);

    // 4. Sysupgrade without refresh (-Su):
    let opts_su = options(false, true, false);
    let (cmds, op, _) = build_install_commands(&targets, &no_aur, "paru", &opts_su, true);
    assert_eq!(op, "-Su");
    assert_eq!(cmds, vec!["sudo pacman -Su --needed -- ollama".to_string()]);

    // 5. AUR targets with sysupgrade when no repo targets:
    let aur_targets = to_vec(&["google-chrome"]);
    let (cmds, _op, aur_op) =
        build_install_commands(&Vec::new(), &aur_targets, "paru", &opts_syu, true);
    assert_eq!(aur_op, "-Syu");
    assert_eq!(cmds, vec!["paru -Syu --aur --needed -- google-chrome".to_string()]);
}

#[test]
fn test_install_unsafe_target_rejected() {
    let opts = InstallOptions::default();

    let res_flag = install(&to_vec(&["--config=/tmp/bad"]), &opts);
    assert!(res_flag.is_err());
    assert!(res_flag.unwrap_err().contains("Refusing unsafe package target"));

    let res_hyphen = install(&to_vec(&["-badpkg"]), &opts);
    assert!(res_hyphen.is_err());

    let res_remove = remove(&to_vec(&["--dbpath=/tmp/bad"]), &Vec::new());
    assert!(res_remove.is_err());
    let why = match res_remove {
        Err(e) => e,
        Ok(_) => String::new(),
    };
    assert!(why.contains("Refusing unsafe package target for removal"));
}

#[test]
fn test_check_package_conflicts_runs_safely() {
    let m = manager(vec![local("a")], vec![sync("b")]);
    let empty = check_package_conflicts(&m, &Vec::new(), &nothing_known());
    assert!(empty.is_empty());

    let non_existent =
        check_package_conflicts(&m, &to_vec(&["nonexistent_pkg_xyz_12345"]), &nothing_known());
    assert!(non_existent.is_empty());
}

#[test]
fn a_target_that_conflicts_with_an_installed_package_is_named() {
    let mut b = sync("b");
    b.conflicts.push(Conflict { name: "a".to_string(), installed: Some("a".to_string()) });
    let m = manager(vec![local("a")], vec![b]);
    let found = check_package_conflicts(&m, &to_vec(&["b"]), &nothing_known());
    assert_eq!(found, vec![("b".to_string(), "a".to_string())]);
}

#[test]
fn a_target_is_placed_with_its_pins() {
    let repos = to_vec(&["core", "extra"]);
    let mut plan = InstallPlan::new();
    assert!(plan.place(&repos, "extra/gimp", false, false, &to_vec(&["gimp-help"])).is_ok());
    assert!(plan.place(&repos, "ripgrep", true, false, &Vec::new()).is_ok());
    assert!(plan.place(&repos, "yay-bin", false, true, &Vec::new()).is_ok());
    assert_eq!(plan.pacman_targets, vec!["extra/gimp", "extra/gimp-help", "ripgrep"]);
    assert_eq!(plan.aur_targets, vec!["yay-bin"]);
    assert_eq!(
        plan.pending_pins,
        vec![
            ("gimp".to_string(), "extra".to_string()),
            ("gimp-help".to_string(), "extra".to_string()),
            ("yay-bin".to_string(), "aur".to_string()),
        ]
    );
}

#[test]
fn nothing_is_pinned_where_the_installation_fails() {
    let repos = to_vec(&["extra"]);
    let mut plan = InstallPlan::new();
    assert!(plan.place(&repos, "extra/gimp", false, false, &Vec::new()).is_ok());
    let opts = options(false, false, false);
    let failed =
        settle_install(&plan, &opts, "paru", false, &RunResult::Exit(1), &RunResult::Success);
    assert!(failed.pins.is_empty() && failed.error.is_some() && failed.record.is_none());
    let done =
        settle_install(&plan, &opts, "paru", false, &RunResult::Success, &RunResult::Success);
    assert_eq!(done.pins, vec![("gimp".to_string(), "extra".to_string())]);
    assert!(done.error.is_none() && done.record.is_some());
    assert!(should_run_helper(&plan, &RunResult::Exit(1)) == false);
    let mut pins = StrMap::new();
    add_pins(&mut pins, &done.pins);
    assert_eq!(pins.get("gimp").unwrap(), "extra");
}

#[test]
fn a_refresh_alone_needs_an_answer() {
    assert!(matches!(partial_upgrade_gate(&options(false, false, false), true), Gate::Open));
    assert!(matches!(partial_upgrade_gate(&options(true, true, false), true), Gate::Open));
    assert!(matches!(partial_upgrade_gate(&options(true, false, true), true), Gate::Warn));
    assert!(matches!(partial_upgrade_gate(&options(true, false, false), true), Gate::Ask));
    assert!(matches!(partial_upgrade_gate(&options(true, false, false), false), Gate::Refuse(_)));
    assert!(matches!(upgrade_answer(Some("y\n")), UpgradeAnswer::Full));
    assert!(matches!(upgrade_answer(Some("n\n")), UpgradeAnswer::AskPartial));
    assert!(matches!(upgrade_answer(None), UpgradeAnswer::Abort(_)));
    assert!(partial_answer(Some("yes")).is_ok());
    assert!(partial_answer(Some("")).is_err());
    assert!(partial_answer(None).is_err());
    assert!(is_yes("Y") && is_yes(" yes ") && !is_yes("yep"));
    assert!(is_no("NO") && !is_no("nah") && blank(" \n") && !blank("x"));
}

#[test]
fn a_young_release_is_announced() {
    let mut config = Config::default();
    config.features.stability_delays = true;
    config.delay.insert("b".to_string(), 3);
    let globs = ResolverEngine::compile_glob_delays(&config.delay);
    let m = manager(vec![], vec![sync("b")]);
    let now = 1_000_000 + 86_400;
    let n = check_single_pkg_delay("b", "b", None, false, false, None, &config, &globs, &m, now)
        .unwrap();
    assert_eq!((n.required_days, n.days_left, n.age_seconds), (3, 2, 86_400));
    assert!(notice_needs_answer(false, true) && !notice_needs_answer(true, true));
    assert_eq!(
        notice_text(&n, false),
        "Package 'b' was released 1.0 days ago (within your 3d stability delay buffer, 2d remaining). Proceeding in non-interactive mode."
    );
    assert!(notice_text(&n, true).ends_with("Proceed with installation? [Y/n] "));
    assert!(notice_answer(&n, Some("y")).is_ok());
    assert!(notice_answer(&n, Some("")).is_ok() && notice_answer(&n, None).is_ok());
    assert_eq!(
        notice_answer(&n, Some(" No\n")).unwrap_err(),
        "Installation cancelled: Package 'b' violates active 3-day stability delay policy (2d remaining)."
    );
    let later = now + 3 * 86_400;
    assert!(check_single_pkg_delay("b", "b", None, false, false, None, &config, &globs, &m, later)
        .is_none());
}

#[test]
fn the_unmet_dependencies_of_a_target_are_listed() {
    let mut config = Config::default();
    config.features.stability_delays = true;
    let mut b = sync("b");
    b.depends = to_vec(&["c", "d", "c"]);
    let m = manager(vec![], vec![b]);
    let mut known = nothing_known();
    known.deps.insert("d".to_string(), DepAnswer { installed: true, offers: vec![None] });
    let unmet = verify_target_and_dependencies_delay("b", None, None, &config, &m, &known);
    assert_eq!(unmet, vec!["c"]);
}

#[test]
fn removal_hands_its_targets_to_pacman() {
    let r = match remove(&to_vec(&["a", "b"]), &to_vec(&["-R", "-s"])) {
        Ok(r) => r,
        Err(e) => panic!("{}", e),
    };
    assert_eq!(r.command.program, "sudo");
    assert_eq!(&r.command.args[..2], &to_vec(&["pacman", "-R"])[..]);
    assert!(r.command.args.ends_with(&to_vec(&["--", "a", "b"])));
    assert!(removal_result(&RunResult::Success).is_ok());
    assert!(removal_result(&RunResult::Exit(2)).is_err());
    assert!(removal_result(&RunResult::Failed("gone".to_string())).is_err());
    assert!(refresh_result(&RunResult::Success).is_ok());
    assert!(refresh_result(&RunResult::Exit(1)).is_err());
}

#[test]
fn queries_go_to_the_helper_where_there_is_one() {
    let args = to_vec(&["vim"]);
    let by_helper = search("paru", true, &args).unwrap();
    let by_pacman = search("paru", false, &args).unwrap();
    assert_eq!(by_helper.program, "paru");
    assert_eq!(by_pacman.program, "pacman");
    assert_eq!(info("yay", true, &args).unwrap().program, "yay");
    assert_eq!(info("yay", false, &args).unwrap().program, "pacman");
    assert_eq!(clean("paru", true, &Vec::new()).program, "paru");
    let forwarded = forward_pacman(&to_vec(&["-Q"]), false);
    assert_eq!((forwarded.program.as_str(), forwarded.args), ("pacman", to_vec(&["-Q"])));
    let forwarded = forward_pacman(&to_vec(&["-U"]), true);
    assert_eq!((forwarded.program.as_str(), forwarded.args), ("sudo", to_vec(&["pacman", "-U"])));
}

#[test]
fn installs_are_spelled_out() {
    let targets = to_vec(&["extra/a", "b"]);
    let opts = options(true, true, false);
    let c = pacman_install(&targets, &opts, true);
    assert_eq!(c.program, "sudo");
    assert_eq!(c.args[..2], ["pacman", "-Syu"]);
    assert_eq!(c.args[c.args.len() - 2..], ["extra/a", "b"]);
    assert!(c.args.contains(&"--needed".to_string()));
    assert_eq!(pacman_operation(false, true), "-Su");
    assert_eq!(pacman_operation(true, false), "-S");
    // The helper upgrades the system only where the package manager has not done so.
    assert_eq!(aur_install(&targets, "paru", &opts, true, true).args[..2], ["-Syu", "--aur"]);
    let a = aur_install(&targets, "paru", &opts, true, false);
    assert_eq!(a.program, "paru");
    assert_eq!(a.args[..2], ["-S", "--aur"]);
}
