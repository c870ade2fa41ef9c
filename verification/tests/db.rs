//! Package databases: the order of repositories, downloads and companions.
use pacpin::aur::AurItem;
use pacpin::db::{
    path_from_output, trimmed_lines, AlpmManager, DbFiles, LocalPackage, SyncDb, SyncPackage,
    VersionOrder,
};
use pacpin::download_plan::{DepAnswer, DownloadTarget, Known, Plan};
use pacpin::strmap::StrMap;

fn to_vec(slice: &[&str]) -> Vec<String> {
    slice.iter().map(|s| s.to_string()).collect()
}

fn local(name: &str) -> LocalPackage {
    LocalPackage {
        name: name.to_string(),
        version: "1.0-1".to_string(),
        isize: 100,
        desc: None,
        as_dependency: false,
        depends: Vec::new(),
        provides: Vec::new(),
        required_by: Vec::new(),
        optional_for: Vec::new(),
        conflicts: Vec::new(),
    }
}

fn sync(name: &str, depends: &[&str]) -> SyncPackage {
    SyncPackage {
        name: name.to_string(),
        version: "2.28.1-1".to_string(),
        base: Some(name.to_string()),
        csize: 10,
        isize: 110,
        desc: None,
        builddate: 1_000_000,
        depends: to_vec(depends),
        provides: Vec::new(),
        conflicts: Vec::new(),
        groups: Vec::new(),
        filename: Some(format!("{}-2.28.1-1-x86_64.pkg.tar.zst", name)),
        sha256: Some("ab".repeat(32)),
        versus_installed: VersionOrder::Newer,
    }
}

fn machine(pkgs: Vec<SyncPackage>) -> AlpmManager {
    AlpmManager {
        local: vec![local("glibc")],
        sync: vec![SyncDb { name: "extra".to_string(), pkgs }],
        repos: to_vec(&["extra"]),
    }
}

#[test]
fn test_order_repos_empty_override() {
    let discovered = to_vec(&["cachyos", "core", "extra"]);
    let order = AlpmManager::order_repos(&discovered, &Vec::new());
    assert_eq!(order, discovered);
}

#[test]
fn test_order_repos_prioritization() {
    let discovered = to_vec(&["cachyos", "core", "extra", "multilib"]);
    let repo_order = to_vec(&["core", "extra"]);
    let order = AlpmManager::order_repos(&discovered, &repo_order);
    assert_eq!(order, vec!["core", "extra", "cachyos", "multilib"]);
}

#[test]
fn test_order_repos_with_custom_new_repo() {
    let discovered = to_vec(&["core", "extra"]);
    let repo_order = to_vec(&["custom-repo", "core"]);
    let order = AlpmManager::order_repos(&discovered, &repo_order);
    assert_eq!(order, vec!["custom-repo", "core", "extra"]);
}

#[test]
fn test_alpm_find_satisfier() {
    let m = machine(vec![sync("nix", &["glibc", "sqlite"])]);
    let (repo, pkg) = match m.find_sync("extra", "nix") {
        Some(p) => ("extra", p),
        None => panic!("nix is not found"),
    };
    assert_eq!(repo, "extra");
    assert!(pkg.sha256.is_some() && pkg.filename.is_some());
    assert!(m.local_index("glibc").is_some() && m.local_index("sqlite").is_none());
    assert!(m.is_in_sync("nix") && !m.is_in_sync("glibc"));
}

/// Answers each question of the plan in turn, as a machine would on which `installed` is
/// installed and all other dependencies are in the repository under their own names.
fn planned(m: &AlpmManager, repo: Option<&str>, pkg: &str, installed: &[&str]) -> Result<Vec<DownloadTarget>, String> {
    let mut known = Known { deps: StrMap::new(), servers: StrMap::new() };
    for _ in 0..50 {
        match m.resolve_download_urls(repo, pkg, &known) {
            Plan::Ready(list) => return Ok(list),
            Plan::Failed(e) => return Err(e),
            Plan::NeedDep(d) => {
                let offers = m
                    .sync
                    .iter()
                    .map(|db| db.pkgs.iter().position(|p| p.name == d))
                    .collect();
                let here = installed.contains(&d.as_str());
                known.deps.insert(d, DepAnswer { installed: here, offers });
            }
            Plan::NeedServers(r) => {
                known.servers.insert(r.clone(), vec![format!("https://mirror.example/{}", r)]);
            }
        }
    }
    Err("no end".to_string())
}

#[test]
fn test_resolve_download_urls_nix() {
    let m = machine(vec![sync("nix", &["glibc", "sqlite"]), sync("sqlite", &["glibc"])]);
    let urls = planned(&m, None, "nix", &["glibc"]);
    assert!(urls.is_ok());
    let list = urls.unwrap();
    assert!(!list.is_empty());
    // nix should be the last item
    let last = list.last().unwrap();
    assert_eq!(last.name, "nix");
    assert!(last.url.contains("nix-"));
    assert!(last.sha256.is_some());
    assert_eq!(list.len(), 2);
    assert_eq!(list[0].name, "sqlite");
    assert_eq!(list[0].url, "https://mirror.example/extra/sqlite-2.28.1-1-x86_64.pkg.tar.zst");
}

#[test]
fn what_is_in_no_repository_cannot_be_downloaded() {
    let m = machine(vec![sync("nix", &["ghost"])]);
    assert!(planned(&m, None, "unknown", &[]).is_err());
    assert!(planned(&m, Some("core"), "nix", &[]).is_err());
}

#[test]
fn dependencies_that_need_each_other_are_fetched_once() {
    let m = machine(vec![sync("a", &["b"]), sync("b", &["a"])]);
    let list = planned(&m, Some("extra"), "a", &[]).unwrap();
    let names: Vec<&str> = list.iter().map(|t| t.name.as_str()).collect();
    assert_eq!(names, vec!["b", "a"]);
}

#[test]
fn what_a_package_needs_is_fetched_before_it() {
    let m = machine(vec![
        sync("top", &["left", "right", "here"]),
        sync("left", &["base", "here"]),
        sync("right", &["left", "base", "extra-of-right"]),
        sync("base", &[]),
        sync("extra-of-right", &["ghost"]),
        sync("here", &["never"]),
        sync("never", &[]),
    ]);
    let list = planned(&m, None, "top", &["here"]).unwrap();
    let names: Vec<&str> = list.iter().map(|t| t.name.as_str()).collect();
    assert_eq!(names, vec!["base", "left", "extra-of-right", "right", "top"]);
}

#[test]
fn test_verify_syncdbs() {
    let mut m = machine(Vec::new());
    m.repos = to_vec(&["core", "extra", "multilib"]);
    let file = |exists: bool, empty: bool| DbFiles {
        db_exists: exists,
        db_empty: empty,
        tar_exists: false,
        tar_empty: false,
    };
    let files = vec![file(true, false), file(false, false), file(true, true)];
    let warnings = m.verify_syncdbs("/var/lib/pacman/sync", &files);
    for w in &warnings {
        assert!(!w.is_empty());
    }
    assert_eq!(warnings.len(), 2);
    assert!(warnings[0].contains("extra") && warnings[1].contains("multilib"));
}

#[test]
fn outputs_of_the_package_manager_are_read() {
    assert_eq!(AlpmManager::discover_repos(Some("core\n extra \n\ncore\n")), vec!["core", "extra", "core"]);
    assert_eq!(AlpmManager::get_dbpath(Some(" /db/ \n")), "/db/");
    assert_eq!(AlpmManager::get_dbpath(None), "/var/lib/pacman");
    assert_eq!(AlpmManager::get_rootdir(Some("\n")), "/");
    assert_eq!(AlpmManager::get_mirror_servers(Some("https://a/x\nhttps://b/y\n")), vec!["https://a/x", "https://b/y"]);
    assert_eq!(trimmed_lines(" a \n\n b"), vec!["a", "b"]);
    assert_eq!(path_from_output(Some(""), "/f"), "/f");
    let order = AlpmManager::resolve_repo_order(Some("core\nextra\n"), &to_vec(&["extra"]));
    assert_eq!(order, vec!["extra", "core"]);
    let m = machine(Vec::new());
    assert_eq!(m.repos(), &to_vec(&["extra"]));
    assert!(m.find_db("extra").is_some() && m.find_db("core").is_none());
}

#[test]
fn companions_come_from_the_same_base() {
    let mut a = sync("gimp", &[]);
    let mut b = sync("gimp-help", &[]);
    a.base = Some("gimp".to_string());
    b.base = Some("gimp".to_string());
    let mut m = machine(vec![a, b]);
    m.local = vec![local("gimp"), local("gimp-help")];
    let none: Option<&AurItem> = None;
    assert_eq!(m.find_companions("gimp", "extra", &StrMap::new(), none), vec!["gimp-help"]);
    let mut pins = StrMap::new();
    pins.insert("gimp-help".to_string(), "extra".to_string());
    assert!(m.find_companions("gimp", "extra", &pins, none).is_empty());
    m.local[1].depends = to_vec(&["gimp"]);
    m.local[0].required_by = to_vec(&["gimp-help"]);
    assert_eq!(m.get_dependents("gimp"), vec!["gimp-help"]);
}
