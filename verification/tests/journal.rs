//! The record of transactions and the way back.
use pacpin::history::{cmd_history, list_history, print_banner, show_rollback, show_transaction};
use pacpin::journal::{
    recorded_removal, recorded_restore, recorded_target, recorded_update, FoundArchive, RecordedPackage, Restore, RollbackStep,
    TransactionJournal, TransactionRecord,
};
use pacpin::upgrade::UpgradeRecord;

fn package(name: &str, from: Option<&str>, to: Option<&str>) -> RecordedPackage {
    RecordedPackage {
        name: Some(name.to_string()),
        from_repo: None,
        from_version: from.map(|v| v.to_string()),
        to_repo: None,
        to_version: to.map(|v| v.to_string()),
        state: None,
        restored_version: None,
        target: None,
        path: None,
        removed: false,
    }
}

fn record(id: usize, action: &str, packages: Vec<RecordedPackage>) -> TransactionRecord {
    TransactionRecord {
        id,
        timestamp: "2026-09-20 12:00:00".to_string(),
        action: action.to_string(),
        command: "pacpin upgrade".to_string(),
        total_packages: packages.len(),
        packages,
    }
}

#[test]
fn test_get_last_transaction_id() {
    let sample = "{\"id\":1,\"timestamp\":\"2026-09-20 12:00:00\",\"action\":\"install\",\"command\":\"pacpin -S foo\",\"total_packages\":1,\"packages\":[]}\n{\"id\":42,\"timestamp\":\"2026-09-20 12:10:00\",\"action\":\"upgrade\",\"command\":\"pacpin upgrade\",\"total_packages\":1,\"packages\":[]}\n";
    let ids: Vec<Option<usize>> = sample
        .lines()
        .map(|l| {
            let v: serde_json::Value = serde_json::from_str(l).ok()?;
            v.get("id").and_then(|i| i.as_u64()).map(|i| i as usize)
        })
        .collect();
    assert_eq!(TransactionJournal::get_last_transaction_id(&ids), Some(42));
}

#[test]
fn a_broken_last_line_is_passed_over() {
    assert_eq!(TransactionJournal::get_last_transaction_id(&vec![Some(3), None]), Some(3));
    assert_eq!(TransactionJournal::get_last_transaction_id(&vec![None]), None);
    assert_eq!(TransactionJournal::next_id(None), 1);
    assert_eq!(TransactionJournal::next_id(Some(41)), 42);
}

#[test]
fn test_find_cached_package_rejection() {
    // Traversal versions and names give no pattern to look for
    assert!(TransactionJournal::cached_package_patterns("/cache", "../etc", "1.0").is_empty());
    assert!(TransactionJournal::cached_package_patterns("/cache", "a", "../1").is_empty());
    assert_eq!(TransactionJournal::find_cached_package(&Vec::new()), None);
    assert!(!TransactionJournal::cached_package_patterns("/cache", "pacpin-nonexistent-xyz-pkg", "99.99").is_empty());
}

#[test]
fn a_cached_archive_has_to_lie_in_the_cache() {
    let found = |canon: Option<&str>| FoundArchive {
        path: "/cache/jq-1.0-1-x86_64.pkg.tar.zst".to_string(),
        file_name: "jq-1.0-1-x86_64.pkg.tar.zst".to_string(),
        canon: canon.map(|c| c.to_string()),
        dir_canon: "/cache".to_string(),
    };
    let inside = found(Some("/cache/jq-1.0-1-x86_64.pkg.tar.zst"));
    let outside = found(Some("/tmp/jq-1.0-1-x86_64.pkg.tar.zst"));
    assert!(TransactionJournal::find_cached_package(&vec![outside, inside]).is_some());
    assert_eq!(TransactionJournal::find_cached_package(&vec![found(Some("/cachex/a"))]), None);
    assert_eq!(TransactionJournal::find_cached_package(&vec![found(None)]), None);
}

#[test]
fn a_rollback_accounts_for_every_earlier_version() {
    let tx = record(
        7,
        "upgrade",
        vec![
            package("a", Some("1.0-1"), Some("2.0-1")),
            package("b", Some("1.0-1"), Some("2.0-1")),
            package("c", None, Some("2.0-1")),
        ],
    );
    let cached = vec![Some("/cache/a-1.0-1".to_string()), None, None];
    let plan = TransactionJournal::rollback_plan(&tx, &cached);
    assert_eq!(plan.restore.len(), 1);
    assert_eq!(plan.restore[0].version, "1.0-1");
    assert_eq!(plan.missing, vec![("b".to_string(), "1.0-1".to_string())]);
    assert!(TransactionJournal::rollback(&plan, false, false, false, false) == RollbackStep::Incomplete);
    assert!(TransactionJournal::rollback(&plan, false, true, false, false) == RollbackStep::Ask);
    assert!(TransactionJournal::rollback(&plan, false, true, true, false) == RollbackStep::Run);
    assert!(TransactionJournal::rollback(&plan, true, true, false, false) == RollbackStep::Show);
    assert!(TransactionJournal::rollback(&plan, false, true, false, true) == RollbackStep::Locked);
    let command = TransactionJournal::rollback_command(&plan, true);
    assert_eq!(command.program, "sudo");
    assert!(command.args.contains(&"--noconfirm".to_string()));
    assert_eq!(command.args.last().unwrap(), "/cache/a-1.0-1");
    assert!(TransactionJournal::rollback_confirmed(Some("y\n")));
    assert!(!TransactionJournal::rollback_confirmed(None));
    assert!(!show_rollback(&tx, &plan, true).lines.is_empty());
}

#[test]
fn the_last_change_is_taken_back_by_default() {
    let txs = vec![record(1, "upgrade", vec![]), record(2, "rollback", vec![])];
    assert_eq!(TransactionJournal::rollback_target(&txs, None), Ok(0));
    assert_eq!(TransactionJournal::rollback_target(&txs, Some(2)), Ok(1));
    assert!(TransactionJournal::rollback_target(&txs, Some(9)).is_err());
    assert_eq!(TransactionJournal::get_transaction(&txs, 2), Some(1));
    let none: Vec<TransactionRecord> = Vec::new();
    assert!(TransactionJournal::rollback_target(&none, None).is_err());
}

#[test]
fn the_history_is_shown() {
    let txs = || vec![record(1, "upgrade", vec![package("a", Some("1"), Some("2"))])];
    assert!(cmd_history(txs(), Some(1)).is_ok());
    assert!(cmd_history(txs(), Some(5)).is_err());
    assert!(!list_history(&txs()).lines.is_empty());
    let shown: String = show_transaction(&txs()[0]).lines.iter().map(|l| l.plain() + "\n").collect();
    assert!(shown.contains("a") && shown.contains("upgrade"));
    assert!(!print_banner().lines.is_empty());
    assert_eq!(TransactionJournal::list_transactions(txs(), 0).len(), 0);
}

#[test]
fn records_are_numbered_and_counted() {
    let up = UpgradeRecord {
        name: "a".to_string(),
        from_repo: "core".to_string(),
        from_version: "1".to_string(),
        to_repo: "extra".to_string(),
        to_version: "2".to_string(),
        state: "default".to_string(),
    };
    let p = recorded_update(&up);
    assert_eq!(p.from_version.as_deref(), Some("1"));
    let back = recorded_restore(&Restore {
        name: "a".to_string(),
        version: "1".to_string(),
        path: "/c".to_string(),
    });
    assert_eq!(back.restored_version.as_deref(), Some("1"));
    let r = TransactionJournal::record_transaction(Some(4), "now", "upgrade", vec![p], "cmd");
    assert_eq!((r.id, r.total_packages), (5, 1));
    assert!(TransactionJournal::state_dir(None).is_err());
    assert!(TransactionJournal::history_file(Some("/home/u")).unwrap().starts_with("/home/u/"));
    assert_eq!(TransactionJournal::get_cache_dirs(None), vec!["/var/cache/pacman/pkg"]);
    assert!(TransactionJournal::tail_size(10) <= 10);
}

#[test]
fn what_is_recorded_of_targets_and_orphans() {
    let t = recorded_target("mesa");
    assert_eq!(t.name.as_deref(), Some("mesa"));
    assert_eq!(t.target.as_deref(), Some("mesa"));
    assert!(!t.removed && t.from_version.is_none() && t.to_version.is_none());
    let o = recorded_removal("meson");
    assert_eq!(o.name.as_deref(), Some("meson"));
    assert!(o.removed && o.target.is_none() && o.restored_version.is_none());
}
