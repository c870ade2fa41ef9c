//! The first launch, shell aliases and the commands on rules.
use pacpin::alias::AliasManager;
use pacpin::commands::{
    backup_path, check_and_prompt_smart_unpin, check_pin, cmd_delay, cmd_pin, cmd_remove,
    cmd_repos, cmd_reset, cmd_undelay, cmd_unpin, companion_title, delay_notice, find_bad_pattern,
    pin_companions, pin_error_text, reset_confirmed, unpin_prompt, PinError, ResetStep,
};
use pacpin::config::Config;
use pacpin::db::{AlpmManager, LocalPackage, SyncDb, SyncPackage, VersionOrder};
use pacpin::order::sorted_by_name;
use pacpin::paths::{join_path, last_component};
use pacpin::pins::{cmd_list, pinned_packages};
use pacpin::query::{all_groups, cmd_check, cmd_sync_groups, cmd_sync_list};
use pacpin::strmap::StrMap;
use pacpin::style::Page;
use pacpin::text::{number_text, parse_number, signed_text, split_string, words_of};
use pacpin::upgrade::{
    cmd_upgrade, orphans_after_upgrade, orphans_when_idle, settle_upgrade, upgrade_confirmation,
    upgrade_confirmed, upgrade_runs_helper, upgrade_runs_others, Confirmation, OrphanStep, UpgradeEnd,
};
use pacpin::install::RunResult;
use pacpin::wizard::{
    detect_aur_helper, has_cachyos_repos, is_asked, is_default_yes, no_answers, preserved_note,
    prompt_input, prompt_yn, question_text, repo_lines, run_first_launch_wizard, take_answer,
    yn_hint, Question, WizardFacts,
};

fn to_vec(slice: &[&str]) -> Vec<String> {
    slice.iter().map(|s| s.to_string()).collect()
}

fn plain(page: &Page) -> String {
    page.lines.iter().map(|l| l.plain()).collect::<Vec<_>>().join("\n")
}

fn local(name: &str) -> LocalPackage {
    LocalPackage {
        name: name.to_string(),
        version: "1.0-1".to_string(),
        isize: 100,
        desc: None,
        as_dependency: false,
        depends: Vec::new(),
        provides: Vec::new(),
        required_by: Vec::new(),
        optional_for: Vec::new(),
        conflicts: Vec::new(),
    }
}

fn sync(name: &str, groups: &[&str]) -> SyncPackage {
    SyncPackage {
        name: name.to_string(),
        version: "2.0-1".to_string(),
        base: None,
        csize: 10,
        isize: 110,
        desc: None,
        builddate: 1_000_000,
        depends: Vec::new(),
        provides: Vec::new(),
        conflicts: Vec::new(),
        groups: to_vec(groups),
        filename: None,
        sha256: None,
        versus_installed: VersionOrder::Newer,
    }
}

fn machine() -> AlpmManager {
    AlpmManager {
        local: vec![local("mesa")],
        sync: vec![SyncDb {
            name: "extra".to_string(),
            pkgs: vec![sync("mesa", &["gfx"]), sync("vim", &["editors", "gfx"])],
        }],
        repos: to_vec(&["extra"]),
    }
}

#[test]
fn test_marker_path() {
    let path = AliasManager::marker_path(Some("/home/u"))
        .expect("marker_path should resolve when HOME is set");
    assert!(path.contains("alias_notified"));
    assert_eq!(AliasManager::marker_path(None), None);
}

#[test]
fn an_alias_is_added_once() {
    let added = AliasManager::setup_aliases("export A=1\n", false).unwrap();
    assert_eq!(added, "# Added by pacpin\nalias pin=\"pacpin\"\nalias pacpin=\"pacpin\"\n");
    let after = format!("export A=1\n{}", added);
    assert_eq!(AliasManager::setup_aliases(&after, false), None);
    let fish = AliasManager::setup_aliases("set A 1", true).unwrap();
    assert!(fish.starts_with("\n# Added by pacpin\nalias pin \"pacpin\"\n"));
    assert_eq!(AliasManager::setup_aliases(&fish, true), None);
    assert!(!AliasManager::is_notified(Some("/home/u"), false));
    assert!(AliasManager::is_notified(Some("/home/u"), true));
    let files = AliasManager::shell_files("/home/u");
    assert!(files.iter().all(|f| f.path.starts_with("/home/u/")));
    let page = AliasManager::check_and_notify_once("pacpin", &to_vec(&["~/.bashrc"]));
    assert!(plain(&page).contains("~/.bashrc"));
}

#[test]
fn unpinning_undoes_pinning() {
    let mut config = Config::default();
    cmd_pin(&mut config, "extra", &to_vec(&["mesa"]), &Vec::new());
    assert_eq!(config.pins.get("mesa").unwrap(), "extra");
    let (done, text) = cmd_unpin(&mut config, "mesa");
    assert!(done && text.contains("mesa"));
    assert!(config.pins.get("mesa").is_none());
    assert!(!cmd_unpin(&mut config, "mesa").0);
}

#[test]
fn each_refusal_of_a_pin_is_told() {
    let known = to_vec(&["core", "extra"]);
    let kind = |repo: &str, patterns: &[&str]| check_pin(repo, &to_vec(patterns), &known);
    assert!(kind("extra", &["mesa", "linux-*"]).is_ok());
    assert!(matches!(kind("ex tra", &["a"]), Err(PinError::BadRepo)));
    assert!(matches!(kind("multilib", &["a"]), Err(PinError::UnknownRepo)));
    assert!(matches!(kind("extra", &[]), Err(PinError::NoPatterns)));
    assert!(matches!(kind("extra", &["a;b"]), Err(PinError::BadPattern(_))));
    assert!(matches!(kind("extra", &["a["]), Err(PinError::BadPattern(_))));
    let (text, _) = pin_error_text(&PinError::UnknownRepo, "multilib", &known);
    assert!(text.contains("multilib"));
    assert_eq!(find_bad_pattern(&to_vec(&["a", "b"]), &vec![true, false]), Some(1));
    assert!(companion_title(&to_vec(&["mesa"]), "extra").contains("extra"));
    let none = pin_companions(&machine(), &to_vec(&["mesa"]), "extra", &StrMap::new(), &vec![None]);
    assert!(none.is_empty());
}

#[test]
fn delays_come_and_go() {
    let mut config = Config::default();
    assert!(cmd_delay(&mut config, "linux", 5).is_ok());
    assert_eq!(config.delay.get("linux"), Some(&5));
    assert!(cmd_delay(&mut config, "a;b", 5).is_err());
    assert!(cmd_undelay(&mut config, "linux").0);
    assert!(!cmd_undelay(&mut config, "linux").0);
    let _ = delay_notice(&machine(), "mesa");
}

#[test]
fn a_removed_package_gives_its_rules_up() {
    let mut config = Config::default();
    config.pins.insert("mesa".to_string(), "extra".to_string());
    config.pins.insert("lib*".to_string(), "core".to_string());
    let gone = check_and_prompt_smart_unpin(&mut config, "mesa", true, false, None, None);
    assert_eq!(gone.pin, Some(("mesa".to_string(), "extra".to_string())));
    assert!(config.pins.get("mesa").is_none());
    let kept = check_and_prompt_smart_unpin(&mut config, "libx", true, false, None, None);
    assert_eq!(kept.pin, None);
    assert!(config.pins.get("lib*").is_some());
    assert!(unpin_prompt("libx", "lib*", "core", false).plain().contains("lib*"));
    let (targets, flags) = cmd_remove(&to_vec(&["-s", "a"]), true);
    assert_eq!((targets, flags), (to_vec(&["a"]), to_vec(&["-Rns", "-s"])));
    let (targets, flags) = cmd_remove(&to_vec(&["-R", "a"]), false);
    assert_eq!((targets, flags), (to_vec(&["a"]), to_vec(&["-R"])));
}

#[test]
fn the_configuration_is_reset_on_demand() {
    assert!(cmd_reset(false, true, false, true) == ResetStep::Nothing);
    assert!(cmd_reset(true, true, false, false) == ResetStep::Run);
    assert!(cmd_reset(true, false, false, true) == ResetStep::Ask);
    assert!(cmd_reset(true, false, false, false) == ResetStep::Refuse);
    assert!(reset_confirmed(Some("y")) && !reset_confirmed(Some("")) && !reset_confirmed(None));
    assert!(backup_path("/c/config.toml", "20260101").contains("20260101"));
    let mut config = Config::default();
    cmd_repos(&mut config, Some(to_vec(&["extra", "core"])));
    assert_eq!(config.repo_order, vec!["extra", "core"]);
    cmd_repos(&mut config, None);
    assert_eq!(config.repo_order, vec!["extra", "core"]);
}

#[test]
fn answers_to_questions() {
    assert!(prompt_yn(Some(""), true) && !prompt_yn(Some(""), false));
    assert!(prompt_yn(Some("YES"), false) && !prompt_yn(Some("n"), true));
    assert_ne!(yn_hint(true), yn_hint(false));
    assert_eq!(prompt_input(Some(" 7 \n"), "3"), "7");
    assert_eq!(prompt_input(Some(""), "3"), "3");
    assert_eq!(detect_aur_helper(&to_vec(&["yay"])), Some("yay".to_string()));
    assert_eq!(detect_aur_helper(&Vec::new()), None);
    assert!(has_cachyos_repos(Some("[cachyos]\n")) && !has_cachyos_repos(None));
}

#[test]
fn the_wizard_keeps_pins() {
    let mut existing = Config::default();
    existing.pins.insert("mesa".to_string(), "extra".to_string());
    let facts = WizardFacts {
        config_exists: true,
        force: true,
        reset: false,
        cachyos: false,
        helper: Some("yay".to_string()),
        flatpak: true,
        nix: false,
    };
    let mut answers = no_answers();
    for q in [Question::Pinning, Question::Delays, Question::DelayDays, Question::Flatpak] {
        if is_asked(q, &facts, &answers) {
            assert!(!question_text(q, &facts).is_empty());
            let answer = if is_default_yes(q) { "" } else { "y" };
            take_answer(q, &mut answers, Some(answer));
        }
    }
    let c = run_first_launch_wizard(Some(existing), &facts, &answers, None);
    assert_eq!(c.pins.get("mesa").unwrap(), "extra");
    assert!(preserved_note(&c).is_some());
    assert!(repo_lines(&to_vec(&["core", "extra"])).len() >= 1);
}

#[test]
fn rules_are_listed() {
    let m = machine();
    let mut config = Config::default();
    config.pins.insert("mesa".to_string(), "extra".to_string());
    let dbs = StrMap::new();
    assert_eq!(pinned_packages(&m, &config, &dbs).len(), 1);
    assert!(plain(&cmd_list(&config, &m, &dbs)).contains("mesa"));
    assert!(plain(&cmd_check(&config, &m, &dbs)).contains("mesa"));
}

#[test]
fn repositories_and_groups_are_listed() {
    let m = machine();
    let all = cmd_sync_list(&m, &to_vec(&["extra"])).unwrap();
    assert_eq!(all.len(), 2);
    assert!(all[0].starts_with("extra mesa 2.0-1"));
    assert!(cmd_sync_list(&m, &to_vec(&["core"])).is_err());
    // Versions that compare as the same are one version, however they are written.
    let mut same = machine();
    let at = same.local.iter().position(|p| p.name == "mesa").unwrap();
    same.local[at].version = "0:2.0-1".to_string();
    same.sync[0].pkgs[0].versus_installed = VersionOrder::Same;
    let listed = cmd_sync_list(&same, &to_vec(&["extra"])).unwrap();
    assert_eq!(listed[0], "extra mesa 2.0-1 [installed]");
    same.sync[0].pkgs[0].versus_installed = VersionOrder::Newer;
    let listed = cmd_sync_list(&same, &to_vec(&["extra"])).unwrap();
    assert_eq!(listed[0], "extra mesa 2.0-1 [installed: 0:2.0-1]");
    assert_eq!(all_groups(&m), vec!["editors", "gfx"]);
    assert_eq!(cmd_sync_groups(&m, &to_vec(&["gfx"])).len(), 2);
}

#[test]
fn an_upgrade_is_settled() {
    let plan = cmd_upgrade(&Vec::new(), "paru", &Vec::new(), &Vec::new(), &Vec::new());
    let end = settle_upgrade(&plan, &Vec::new(), "paru", &RunResult::Success, &RunResult::Success, &Vec::new());
    assert!(matches!(end.end, UpgradeEnd::Complete));
    assert!(!upgrade_runs_helper(&plan, &RunResult::Success));
    assert!(upgrade_runs_others(&plan, &RunResult::Exit(1), &RunResult::Exit(1)));
    let mut full = plan.clone();
    full.aur_targets = to_vec(&["b"]);
    assert!(upgrade_runs_helper(&full, &RunResult::Exit(1)));
    full.pacman_targets = to_vec(&["a"]);
    assert!(upgrade_runs_helper(&full, &RunResult::Success));
    assert!(!upgrade_runs_helper(&full, &RunResult::Exit(1)));
    assert!(!upgrade_runs_helper(&full, &RunResult::Failed("no".to_string())));
    assert!(upgrade_runs_others(&full, &RunResult::Success, &RunResult::Success));
    assert!(!upgrade_runs_others(&full, &RunResult::Exit(1), &RunResult::Success));
    assert!(!upgrade_runs_others(&full, &RunResult::Success, &RunResult::Exit(1)));
    assert!(upgrade_confirmation(true, false) == Confirmation::Proceed);
    assert!(upgrade_confirmation(false, true) == Confirmation::Ask);
    assert!(upgrade_confirmation(false, false) == Confirmation::Impossible);
    assert!(upgrade_confirmed(Some("")) && !upgrade_confirmed(Some("n")) && !upgrade_confirmed(None));
    assert!(orphans_after_upgrade(true, true, true, true) == OrphanStep::RemovePure);
    assert!(orphans_when_idle(false, false, false, false, false, true) != OrphanStep::Ask);
}

#[test]
fn texts_and_paths() {
    assert_eq!(number_text(0), "0");
    assert_eq!(parse_number(&number_text(u64::MAX), u64::MAX), Some(u64::MAX));
    assert_eq!(parse_number("300", 255), None);
    assert_eq!(signed_text(i64::MIN), i64::MIN.to_string());
    assert_eq!(split_string("a,,b", ','), vec!["a", "", "b"]);
    assert_eq!(words_of(" a \t b\n"), vec!["a", "b"]);
    assert_eq!(join_path("/a/", "b"), "/a/b");
    assert_eq!(join_path("/a", "/b"), "/b");
    assert_eq!(last_component("/a/b"), "b");
    assert_eq!(sorted_by_name(&to_vec(&["b", "a"])), vec![1, 0]);
}
