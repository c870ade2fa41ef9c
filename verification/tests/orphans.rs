//! Orphaned packages.
use pacpin::commands::{cmd_orphans, orphans_to_remove};
use pacpin::db::{AlpmManager, LocalPackage};
use pacpin::orphans::{KnownOrphan, OrphanManager, OrphanPackage};
use pacpin::query::orphans_note;
use pacpin::strmap::StrMap;
use pacpin::upgrade::projected_removal;
use pacpin::views::{
    orphan_items, orphan_prompt, prompt_orphan_selection, render_orphans_summary, sum_sizes,
};

fn orphan(name: &str, isize: i64, optional_for: &[&str]) -> OrphanPackage {
    OrphanPackage {
        name: name.to_string(),
        version: "1.0".to_string(),
        isize,
        desc: "".to_string(),
        is_projected: false,
        dropped_by: Vec::new(),
        optional_for: optional_for.iter().map(|s| s.to_string()).collect(),
    }
}

#[test]
fn test_orphan_is_pure() {
    let pure = orphan("pure-pkg", 100, &[]);
    assert!(pure.is_pure());
    let opt = orphan("opt-pkg", 200, &["parent-app"]);
    assert!(!opt.is_pure());
}

#[test]
fn test_has_changed_logic() {
    let mut known = StrMap::new();
    known.insert(
        "ladspa".to_string(),
        KnownOrphan { is_pure: false, optional_for: vec!["ffmpeg".to_string()] },
    );
    known.insert("meson".to_string(), KnownOrphan { is_pure: true, optional_for: Vec::new() });

    // 1. Identical current state -> no change
    let current_identical = vec![orphan("ladspa", 100, &["ffmpeg"]), orphan("meson", 200, &[])];
    assert!(!OrphanManager::has_changed(&current_identical, Some(&known)));

    // 2. 'ladspa' converts from optional to pure -> MUST detect change!
    let current_converted = vec![orphan("ladspa", 100, &[]), orphan("meson", 200, &[])];
    assert!(OrphanManager::has_changed(&current_converted, Some(&known)));

    // 3. Brand new orphan appears -> MUST detect change!
    let current_new_orphan = vec![orphan("new-orphan", 50, &[])];
    assert!(OrphanManager::has_changed(&current_new_orphan, Some(&known)));
}

#[test]
fn test_pure_orphan_filtering() {
    let orphans = vec![orphan("pure-orphan", 100, &[]), orphan("opt-plugin", 200, &["ffmpeg"])];
    let pure = OrphanManager::pure_orphans(&orphans);
    assert_eq!(pure, vec!["pure-orphan"]);
}

#[test]
fn orphans_that_were_told_are_no_news() {
    let orphans = vec![orphan("a", 1, &[]), orphan("b", 1, &["c"])];
    let known = OrphanManager::save_known(&orphans);
    assert!(!OrphanManager::has_changed(&orphans, Some(&known)));
    assert!(OrphanManager::has_changed(&orphans, None));
    let named = OrphanManager::load_known(&vec!["a".to_string()]);
    assert!(!named.get("a").unwrap().is_pure);
    assert_eq!(
        OrphanManager::state_file(Some("/home/u")).unwrap().rsplit('/').next(),
        Some("known_orphans.json")
    );
}

#[test]
fn orphans_are_detected_in_order() {
    let mut a = LocalPackage {
        name: "a".to_string(),
        version: "1".to_string(),
        isize: 5,
        desc: None,
        as_dependency: true,
        depends: Vec::new(),
        provides: Vec::new(),
        required_by: Vec::new(),
        optional_for: Vec::new(),
        conflicts: Vec::new(),
    };
    let b = LocalPackage { name: "b".to_string(), as_dependency: false, ..a.clone() };
    a.desc = Some("d".to_string());
    let m = AlpmManager { local: vec![a, b], sync: Vec::new(), repos: Vec::new() };
    let found = OrphanManager::detect(&m, &Vec::new());
    assert_eq!(OrphanManager::names(&found), vec!["a"]);
    assert!(!found[0].is_projected);
}

#[test]
fn the_selection_of_orphans() {
    let orphans = vec![orphan("a", 1024, &[]), orphan("b", 2048, &["c"])];
    assert_eq!(sum_sizes(&orphans, None), (3072, 2));
    assert_eq!(sum_sizes(&orphans, Some(true)), (1024, 1));
    assert!(prompt_orphan_selection(&orphans, None).is_empty());
    assert_eq!(prompt_orphan_selection(&orphans, Some("all")), vec!["a", "b"]);
    assert!(!orphan_prompt(&orphans, true).is_empty());
    assert!(!render_orphans_summary(&orphans).lines.is_empty());
    assert!(!orphans_note(&orphans).lines.is_empty());
    assert_eq!(orphans_to_remove(&orphans, true, None), vec!["a"]);
    let left = cmd_orphans(&orphans, &vec!["a".to_string()], true);
    assert_eq!(OrphanManager::names(&left), vec!["b"]);
    let (command, text) = OrphanManager::execute_removal(&vec!["a".to_string()]).unwrap();
    assert_eq!(command.program, "sudo");
    assert!(text.contains("a"));
    assert!(OrphanManager::execute_removal(&Vec::new()).is_none());
}

#[test]
fn orphans_are_offered_in_the_menu() {
    let mut yaml = orphan("libyaml", 838861, &[]);
    yaml.desc = "YAML 1.1 parser".to_string();
    let mut pillow = orphan("python-pillow", 1258291, &["gimp", "krita"]);
    pillow.desc = "Python Imaging Library".to_string();
    let items = orphan_items(&vec![yaml, pillow, orphan("bare", 2048, &[])]);
    assert_eq!(items.len(), 3);
    assert_eq!(items[0].id, "libyaml");
    assert_eq!(items[0].label, "libyaml");
    assert!(items[0].description.ends_with(" — YAML 1.1 parser"));
    assert!(items[0].is_pure && items[0].checked);
    assert_eq!(items[1].description, "1.20 MiB (for: gimp, krita) — Python Imaging Library");
    assert!(!items[1].is_pure && !items[1].checked);
    assert!(!items[2].description.contains('—'));
    assert!(orphan_items(&Vec::new()).is_empty());
}

#[test]
fn a_dry_run_tells_what_would_be_removed() {
    let all = vec![orphan("a", 1, &[]), orphan("b", 2, &["c"])];
    assert_eq!(
        projected_removal(&all, true).as_deref(),
        Some("sudo pacman -Rns --noconfirm a b")
    );
    assert_eq!(projected_removal(&all, false), None);
    assert_eq!(projected_removal(&Vec::new(), true), None);
}

#[test]
fn remembered_orphans_are_read_in_either_form() {
    // A mere list of names is still read, and a pure orphan is told of again.
    let known = OrphanManager::known_from("[\"meson\", \"ladspa\"]", None).unwrap();
    assert!(!known.get("meson").unwrap().is_pure);
    assert!(known.get("ladspa").unwrap().optional_for.is_empty());
    assert!(known.get("other").is_none());
    assert!(OrphanManager::has_changed(&vec![orphan("meson", 1, &[])], Some(&known)));
    assert!(!OrphanManager::has_changed(&vec![orphan("ladspa", 1, &["ffmpeg"])], Some(&known)));

    let mut current = StrMap::new();
    current.insert("meson".to_string(), KnownOrphan { is_pure: true, optional_for: Vec::new() });
    let kept = OrphanManager::known_from("[\"ladspa\"]", Some(current)).unwrap();
    assert!(kept.get("meson").unwrap().is_pure && kept.get("ladspa").is_none());

    for broken in ["", "{", "[1]", "\"meson\"", "{\"meson\": 1}"] {
        assert!(OrphanManager::known_from(broken, None).is_none());
    }
    assert!(OrphanManager::known_from("[]", None).unwrap().is_empty());
}
