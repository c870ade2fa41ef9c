//! Pins, exclusions, delays and the resolution of every installed package.
use pacpin::aur::{aur_query_urls, clean_dep_name, merge_items, query_step, urlencoding, AurItem, QueryStep};
use pacpin::config::Config;
use pacpin::db::{AlpmManager, LocalPackage, SyncDb, SyncPackage, VersionOrder};
use pacpin::patterns::{has_glob_chars, matches_glob, pattern_order};
use pacpin::resolver::{
    delay_left, load_installed_dbs, packages_to_query, parse_desc, AurOffer, CandidatePackage,
    ResolveResult, ResolverEngine, DAY,
};
use pacpin::strmap::StrMap;
use pacpin::upgrade::{cmd_upgrade, upgrade_aur_command, upgrade_pacman_command, upgrade_record};

fn to_vec(slice: &[&str]) -> Vec<String> {
    slice.iter().map(|s| s.to_string()).collect()
}

fn candidate(name: &str, repo: &str, csize: i64, isize: i64, is_aur: bool) -> CandidatePackage {
    CandidatePackage {
        name: name.to_string(),
        version: "1.0".to_string(),
        repo: repo.to_string(),
        base: name.to_string(),
        csize,
        isize,
        desc: "".to_string(),
        builddate: 1000,
        is_aur,
        depends: Vec::new(),
    }
}

fn local(name: &str) -> LocalPackage {
    LocalPackage {
        name: name.to_string(),
        version: "1.0-1".to_string(),
        isize: 100,
        desc: None,
        as_dependency: false,
        depends: Vec::new(),
        provides: Vec::new(),
        required_by: Vec::new(),
        optional_for: Vec::new(),
        conflicts: Vec::new(),
    }
}

fn sync(name: &str, version: &str, order: VersionOrder) -> SyncPackage {
    SyncPackage {
        name: name.to_string(),
        version: version.to_string(),
        base: None,
        csize: 10,
        isize: 110,
        desc: None,
        builddate: 1_000_000,
        depends: Vec::new(),
        provides: Vec::new(),
        conflicts: Vec::new(),
        groups: Vec::new(),
        filename: None,
        sha256: None,
        versus_installed: order,
    }
}

fn item(name: &str, version: &str) -> AurItem {
    AurItem {
        name: name.to_string(),
        package_base: None,
        version: version.to_string(),
        description: None,
        last_modified: Some(1_000_000),
        depends: Vec::new(),
        make_depends: Vec::new(),
        conflicts: Vec::new(),
    }
}

/// mesa in two repositories, and one package that is in none.
fn machine() -> AlpmManager {
    AlpmManager {
        local: vec![local("foreign"), local("mesa")],
        sync: vec![
            SyncDb {
                name: "cachyos".to_string(),
                pkgs: vec![sync("mesa", "3.0-1", VersionOrder::Newer)],
            },
            SyncDb {
                name: "core".to_string(),
                pkgs: vec![sync("mesa", "2.0-1", VersionOrder::Newer)],
            },
        ],
        repos: to_vec(&["cachyos", "core"]),
    }
}

fn resolve(m: &AlpmManager, config: &Config, aur: &StrMap<AurOffer>, now: i64) -> ResolveResult {
    ResolverEngine::new(m).resolve_all(config, aur, &StrMap::new(), now)
}

#[test]
fn test_is_pinned_exact_and_glob() {
    let mut pins = StrMap::new();
    pins.insert("mesa".to_string(), "core".to_string());
    pins.insert("linux-firmware*".to_string(), "cachyos".to_string());

    assert_eq!(ResolverEngine::is_pinned("mesa", &pins), Some("core".to_string()));
    assert_eq!(
        ResolverEngine::is_pinned("linux-firmware-whence", &pins),
        Some("cachyos".to_string())
    );
    assert_eq!(ResolverEngine::is_pinned("git", &pins), None);
}

#[test]
fn test_is_excluded() {
    let mut excludes = StrMap::new();
    excludes.insert("cachyos".to_string(), to_vec(&["linux-firmware*", "systemd"]));

    assert!(ResolverEngine::is_excluded("linux-firmware-intel", "cachyos", &excludes));
    assert!(ResolverEngine::is_excluded("systemd", "cachyos", &excludes));
    assert!(!ResolverEngine::is_excluded("linux", "cachyos", &excludes));
    assert!(!ResolverEngine::is_excluded("systemd", "core", &excludes));
}

#[test]
fn test_load_installed_dbs_executes() {
    let desc = "%NAME%\nmesa\n\n%VERSION%\n1\n\n%INSTALLED_DB%\ncore\n";
    assert_eq!(parse_desc(desc), Some(("mesa".to_string(), "core".to_string())));
    let dbs = load_installed_dbs(&vec![desc.to_string(), "%NAME%\nonly\n".to_string()]);
    assert!(!dbs.is_empty());
    assert_eq!(dbs.get("mesa").unwrap(), "core");
    assert!(dbs.get("only").is_none());
}

#[test]
fn test_candidate_package_age_days() {
    let now: i64 = 1_700_000_000;
    let mut cand_recent = candidate("test-pkg", "aur", 0, 0, true);
    cand_recent.builddate = now - 86400 * 2; // 2 days ago
    let age = cand_recent.age_seconds(now).unwrap() as f64 / 86400.0;
    assert!((1.9..=2.1).contains(&age));

    let mut cand_zero = cand_recent.dup();
    cand_zero.builddate = 0;
    assert_eq!(cand_zero.age_seconds(now), None);
    cand_zero.builddate = now + 5;
    assert_eq!(cand_zero.age_seconds(now), Some(0));
}

#[test]
fn test_match_delay_days_exact_and_glob() {
    let mut delays = StrMap::new();
    delays.insert("linux".to_string(), 5);
    delays.insert("linux-*".to_string(), 3);
    delays.insert("*nvidia*".to_string(), 7);

    let glob_delays = ResolverEngine::compile_glob_delays(&delays);

    // Exact match takes precedence
    assert_eq!(ResolverEngine::match_delay_days("linux", &delays, &glob_delays), Some(5));
    // Glob pattern matches
    assert_eq!(ResolverEngine::match_delay_days("linux-zen", &delays, &glob_delays), Some(3));
    assert_eq!(
        ResolverEngine::match_delay_days("linux-cachyos-bore", &delays, &glob_delays),
        Some(3)
    );
    assert_eq!(ResolverEngine::match_delay_days("nvidia-utils", &delays, &glob_delays), Some(7));
    // Non-matching
    assert_eq!(ResolverEngine::match_delay_days("mesa", &delays, &glob_delays), None);
}

#[test]
fn test_candidate_package_from_aur() {
    let aur_item = AurItem {
        name: "mcpelauncher-ui".to_string(),
        package_base: Some("mcpelauncher".to_string()),
        version: "1.0.0-1".to_string(),
        description: Some("Launcher UI".to_string()),
        last_modified: Some(1700000000),
        depends: vec!["mcpelauncher-linux".to_string(), "qt6-base>=6.5".to_string()],
        make_depends: vec!["cmake".to_string()],
        conflicts: vec![],
    };
    let cand = CandidatePackage::from_aur(&aur_item);
    assert_eq!(cand.name, "mcpelauncher-ui");
    assert_eq!(cand.base, "mcpelauncher");
    assert_eq!(cand.repo, "aur");
    assert_eq!(cand.depends, vec!["mcpelauncher-linux", "qt6-base"]);
    assert!(cand.is_aur);
}

#[test]
fn test_compute_net_delta() {
    // AUR candidate: size is unbuilt/unknown, must never falsely report -installed_size
    let aur_cand = candidate("antigravity", "aur", 0, 0, true);
    let antigravity_inst_size = 507 * 1024 * 1024;
    assert_eq!(aur_cand.compute_net_delta(antigravity_inst_size), None);

    // Built/cached AUR candidate: has real isize, computes exact delta
    let aur_cand_cached =
        candidate("antigravity", "aur", 156 * 1024 * 1024, 495 * 1024 * 1024, true);
    assert_eq!(aur_cand_cached.compute_net_delta(507 * 1024 * 1024), Some(-12 * 1024 * 1024));

    // Repo candidate: size increases
    let repo_cand_growth = candidate("glibc", "core", 10 * 1024 * 1024, 50 * 1024 * 1024, false);
    assert_eq!(repo_cand_growth.compute_net_delta(45 * 1024 * 1024), Some(5 * 1024 * 1024));

    // Repo candidate: size decreases
    assert_eq!(repo_cand_growth.compute_net_delta(55 * 1024 * 1024), Some(-5 * 1024 * 1024));

    // Missing metadata candidate (both csize and isize are 0)
    let missing_meta_cand = candidate("empty-meta", "extra", 0, 0, false);
    assert_eq!(missing_meta_cand.compute_net_delta(1024), None);
}

#[test]
fn the_first_repository_decides_unless_a_pin_does() {
    let m = machine();
    let none: StrMap<AurOffer> = StrMap::new();
    let mut config = Config::default();
    let r = resolve(&m, &config, &none, 2_000_000);
    assert_eq!(r.installed_count, 2);
    assert_eq!(r.updates.len(), 1);
    assert_eq!(r.updates[0].candidate.as_ref().unwrap().repo, "cachyos");
    assert_eq!(r.updates[0].net_delta, Some(10));

    config.pins.insert("mes?".to_string(), "core".to_string());
    let r = resolve(&m, &config, &none, 2_000_000);
    assert_eq!(r.updates[0].candidate.as_ref().unwrap().repo, "core");
    assert_eq!(r.updates[0].pinned_repo.as_deref(), Some("core"));
    assert_eq!(r.updates[0].natural_top_repo.as_deref(), Some("cachyos"));
    assert_eq!(r.updates[0].state, "custom");
    assert!(!r.updates[0].diverted_from_top);

    config.features.pinning = false;
    let r = resolve(&m, &config, &none, 2_000_000);
    assert_eq!(r.updates[0].candidate.as_ref().unwrap().repo, "cachyos");
}

#[test]
fn an_excluded_repository_is_passed_over() {
    let m = machine();
    let mut config = Config::default();
    config.exclude.insert("cachyos".to_string(), to_vec(&["mesa"]));
    let r = resolve(&m, &config, &StrMap::new(), 2_000_000);
    assert_eq!(r.updates[0].candidate.as_ref().unwrap().repo, "core");
}

#[test]
fn a_pin_that_nothing_meets_is_reported() {
    let m = machine();
    let mut config = Config::default();
    config.pins.insert("mesa".to_string(), "multilib".to_string());
    let r = resolve(&m, &config, &StrMap::new(), 2_000_000);
    assert_eq!(r.unresolved_pins, vec![("mesa".to_string(), "multilib".to_string())]);
    assert!(r.updates.is_empty());
}

#[test]
fn a_delay_holds_an_update_back_and_what_needs_it() {
    let mut m = machine();
    m.local[1].required_by = to_vec(&["foreign"]);
    m.local[0].depends = to_vec(&["mesa"]);
    let mut config = Config::default();
    config.features.stability_delays = true;
    config.delay.insert("mesa".to_string(), 3);
    let now = 1_000_000 + 86_400;
    let r = resolve(&m, &config, &StrMap::new(), now);
    assert!(r.updates.is_empty());
    assert_eq!(r.held_packages.len(), 1);
    assert!(r.held_packages[0].held);
    assert!(!r.held_packages[0].hold_reason.is_empty());
    let r = resolve(&m, &config, &StrMap::new(), 1_000_000 + 3 * 86_400);
    assert_eq!(r.updates.len(), 1);
    assert_eq!(delay_left(1_000_000, 3, now), Some(2));
    assert_eq!(delay_left(1_000_000, 3, 1_000_000 + 3 * DAY as i64), None);
}

#[test]
fn a_foreign_package_is_updated_from_the_aur() {
    let m = machine();
    let config = Config::default();
    assert_eq!(packages_to_query(&m, &config), vec!["foreign"]);
    let mut aur = StrMap::new();
    aur.insert(
        "foreign".to_string(),
        AurOffer { item: item("foreign", "9"), versus_installed: VersionOrder::Newer },
    );
    let r = resolve(&m, &config, &aur, 2_000_000);
    let names: Vec<&str> = r.updates.iter().map(|u| u.name.as_str()).collect();
    assert!(names.contains(&"foreign") && names.contains(&"mesa"));
    let f = r.updates.iter().find(|u| u.name == "foreign").unwrap();
    assert_eq!(f.net_delta, None);
    assert!(f.candidate.as_ref().unwrap().is_aur);
}

#[test]
fn patterns_are_tried_from_the_longest_on() {
    assert!(has_glob_chars("a*") && has_glob_chars("a?") && !has_glob_chars("a"));
    assert!(matches_glob("linux-*", "linux-zen") && !matches_glob("linux-*", "linux"));
    assert!(matches_glob("mesa?", "mesa2") && !matches_glob("[", "["));
    let mut m = StrMap::new();
    m.insert("a*".to_string(), 0);
    m.insert("abc*".to_string(), 0);
    m.insert("plain".to_string(), 0);
    let order: Vec<String> = pattern_order(&m).iter().map(|i| m.key_at(*i).clone()).collect();
    assert_eq!(order, vec!["abc*", "a*"]);
}

#[test]
fn maps_keep_their_keys_in_order() {
    let mut m = StrMap::new();
    for (i, k) in ["c", "a", "b", "a"].iter().enumerate() {
        m.insert(k.to_string(), i);
    }
    assert_eq!(m.len(), 3);
    assert_eq!((m.key_at(0).as_str(), *m.value_at(0)), ("a", 3));
    assert!(m.remove("b") && !m.remove("b"));
    m.append("d".to_string(), 9);
    assert_eq!(m.get("d"), Some(&9));
    assert_eq!(m.get("b"), None);
}

#[test]
fn queries_to_the_aur() {
    assert_eq!(clean_dep_name("qt6-base>=6.5"), "qt6-base");
    assert_eq!(clean_dep_name("glibc"), "glibc");
    assert_eq!(clean_dep_name(&clean_dep_name("a<1=2")), "a");
    assert_eq!(urlencoding("a b/é-_.~"), "a%20b%2F%C3%A9-_.~");
    let urls = aur_query_urls(&to_vec(&["a", "c++"]));
    assert_eq!(urls.len(), 1);
    assert!(urls[0].ends_with("arg[]=a&arg[]=c%2B%2B"));
    assert!(aur_query_urls(&Vec::new()).is_empty());
    assert!(matches!(query_step(0, false), QueryStep::Attempt { .. }));
    let mut known = StrMap::new();
    merge_items(&mut known, vec![item("a", "1"), item("a", "2")]);
    assert_eq!(known.get("a").unwrap().version, "2");
}

#[test]
fn a_sticky_package_stays_where_it_came_from() {
    let m = machine();
    let mut origins = StrMap::new();
    origins.insert("mesa".to_string(), "core".to_string());
    let mut config = Config::default();
    config.features.vendor_stickiness = true;
    let engine = ResolverEngine::new(&m);
    let none: StrMap<AurOffer> = StrMap::new();
    let r = engine.resolve_all(&config, &none, &origins, 2_000_000);
    assert_eq!(r.updates[0].candidate.as_ref().unwrap().repo, "core");
    assert_eq!(r.updates[0].state, "sticky");
    let plan = cmd_upgrade(&r.updates, "paru", &Vec::new(), &Vec::new(), &Vec::new());
    assert_eq!(plan.pacman_targets, vec!["core/mesa"]);
    assert!(upgrade_pacman_command(&plan).args.contains(&"core/mesa".to_string()));
    assert_eq!(r.updates[0].installed_db, "core");

    // An excluded origin holds nothing back.
    config.exclude.insert("core".to_string(), to_vec(&["mesa"]));
    let r = engine.resolve_all(&config, &none, &origins, 2_000_000);
    assert_eq!(r.updates[0].candidate.as_ref().unwrap().repo, "cachyos");
    assert_eq!(r.updates[0].state, "default");

    // A pin is stronger, and without the feature the priorities decide.
    config.exclude = StrMap::new();
    config.pins.insert("mesa".to_string(), "cachyos".to_string());
    let r = engine.resolve_all(&config, &none, &origins, 2_000_000);
    assert_eq!(r.updates[0].candidate.as_ref().unwrap().repo, "cachyos");
    assert_eq!(r.updates[0].state, "custom");
    config.pins = StrMap::new();
    config.features.vendor_stickiness = false;
    let r = engine.resolve_all(&config, &none, &origins, 2_000_000);
    assert_eq!(r.updates[0].candidate.as_ref().unwrap().repo, "cachyos");
    assert_eq!(r.updates[0].state, "default");
}

#[test]
fn upgrades_run_without_further_questions() {
    let m = machine();
    let config = Config::default();
    let r = resolve(&m, &config, &StrMap::new(), 2_000_000);
    let plan = cmd_upgrade(&r.updates, "paru", &to_vec(&["--overwrite=x"]), &Vec::new(), &Vec::new());
    let c = upgrade_pacman_command(&plan);
    assert_eq!(c.program, "sudo");
    assert_eq!(c.args[..4], ["pacman", "-S", "--needed", "--noconfirm"]);
    assert_eq!(plan.commands.len(), 1);
    let a = upgrade_aur_command(&plan, "paru");
    assert_eq!(a.program, "paru");
    assert_eq!(a.args[..4], ["-S", "--needed", "--aur", "--noconfirm"]);

    let record = upgrade_record(&r.updates[0]);
    assert_eq!(record.name, "mesa");
    assert_eq!(record.from_repo, "cachyos");
    assert_eq!(record.from_version, "1.0-1");
    assert_eq!(record.to_repo, "cachyos");
    assert_eq!(record.to_version, "3.0-1");
    assert_eq!(record.state, "default");
}
