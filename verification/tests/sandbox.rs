//! Trying packages out: targets, options, directories and the container.
use pacpin::container::{
    add_host_runtime_mounts, add_package_data_mounts, bwrap_probe, check_bwrap_capability,
    install_answer, make_data_path, make_library_path, make_search_path, probe_failure, run_gate,
    try_pacman, Container, PackageData, Probe, RunGate,
};
use pacpin::download::{
    archive_ending, cache_use, compute_sha256, create_secure_temp_file, download_command,
    fetch_package_archive, is_archive_of, newest_cached, Attempt, CacheUse, CachedFile, Fetch,
    HashRun, MAX_TEMP_ATTEMPTS,
};
use pacpin::sandbox::{
    batch_end, check_runtime_dir, cleanup_active_targets, cmd_try, download_step,
    download_targets_parallel,
    find_executable, flatpak_install, flatpak_run, flatpak_uninstall, hex_text, host_only_provider,
    is_executable_file, is_plain_component, is_private_dir, is_safe_flatpak_id, is_terminating,
    parse_target, private_runtime_subdir, register_cleanup_target, safe_wayland_socket,
    sandbox_dir_name, sandbox_owner, sandbox_subdir, should_bind_cwd, should_clean_stale_sandbox,
    take_batch, try_flatpak, try_nix, try_pipx, unregister_cleanup_target, CleanupRegistry, DirFacts,
    DownloadStep, Owner,
    Route, SandboxGuard, TryOptions, MAX_PARALLEL_DOWNLOADS,
};

fn to_vec(slice: &[&str]) -> Vec<String> {
    slice.iter().map(|s| s.to_string()).collect()
}

fn parts(target: &str) -> (Option<String>, String) {
    parse_target(target)
}

fn pair(prefix: Option<&str>, name: &str) -> (Option<String>, String) {
    (prefix.map(|p| p.to_string()), name.to_string())
}

#[test]
fn test_parse_target() {
    assert_eq!(parts("flatpak/org.gnome.Calculator"), pair(Some("flatpak"), "org.gnome.Calculator"));
    assert_eq!(parts("flatpak:org.gnome.Calculator"), pair(Some("flatpak"), "org.gnome.Calculator"));
    assert_eq!(parts("nix/fastfetch"), pair(Some("nix"), "fastfetch"));
    assert_eq!(parts("nix:fastfetch"), pair(Some("nix"), "fastfetch"));
    assert_eq!(parts("nixpkgs#ripgrep"), pair(Some("nix"), "ripgrep"));
    assert_eq!(parts("pipx/cowsay"), pair(Some("pipx"), "cowsay"));
    assert_eq!(parts("pipx:cowsay"), pair(Some("pipx"), "cowsay"));
    assert_eq!(parts("extra/tree"), pair(Some("extra"), "tree"));
    assert_eq!(parts("tree"), pair(None, "tree"));
}

#[test]
fn test_host_only_providers_require_explicit_opt_in() {
    for target in ["nix/fastfetch", "nixpkgs#ripgrep", "pipx/cowsay"] {
        assert!(host_only_provider(parse_target(target).0.as_deref()));
        assert!(matches!(cmd_try(target, false), Route::Refuse(_)));
        assert!(!matches!(cmd_try(target, true), Route::Refuse(_)));
    }
    assert!(!host_only_provider(parse_target("flatpak/org.gnome.Calculator").0.as_deref()));
    assert!(!host_only_provider(parse_target("extra/jq").0.as_deref()));
}

#[test]
fn test_is_safe_flatpak_id() {
    assert!(is_safe_flatpak_id("org.gnome.Calculator"));
    assert!(is_safe_flatpak_id("com.spotify.Client"));
    assert!(is_safe_flatpak_id("com.github.tchx84.Flatseal"));
    assert!(!is_safe_flatpak_id("org.gnome/calc"));
    assert!(!is_safe_flatpak_id("org.gnome;rm -rf"));
}

#[test]
fn test_is_executable_file() {
    // /bin/sh and /etc/passwd as they commonly are
    assert!(is_executable_file(true, 0o100755));
    assert!(!is_executable_file(true, 0o100644));
    assert!(!is_executable_file(false, 0o40755));
}

#[test]
fn test_try_options_default() {
    let opts = TryOptions::default();
    assert!(!opts.no_sandbox);
    assert!(!opts.share_net);
    assert!(!opts.rw_cwd);
    assert!(!opts.gui);
    assert!(!opts.audio);
    assert!(opts.bin.is_none());
    assert!(!opts.allow_unverified);
    assert!(!opts.is_run_mode);
}

#[test]
fn test_try_options_for_run() {
    let opts = TryOptions::for_run();
    assert!(opts.no_sandbox);
    assert!(opts.share_net);
    assert!(opts.rw_cwd);
    assert!(!opts.gui);
    assert!(!opts.audio);
    assert!(opts.bin.is_none());
    assert!(!opts.allow_unverified);
    assert!(opts.is_run_mode);
    assert!(!opts.noconfirm);
}

#[test]
fn test_cleanup_registry() {
    let mut registry = CleanupRegistry::new();
    assert!(!is_terminating(&registry));
    assert!(!register_cleanup_target(&mut registry, "/tmp/pacpin-test-cleanup-reg"));
    assert_eq!(cleanup_active_targets(&mut registry), vec!["/tmp/pacpin-test-cleanup-reg"]);
    assert!(registry.targets.is_empty() && !is_terminating(&registry));
    registry.terminating = true;
    // Once it terminates, what is registered has to be removed at once
    assert!(register_cleanup_target(&mut registry, "/tmp/late"));
}

#[test]
fn test_guard_preserves_cached_archive() {
    let mut registry = CleanupRegistry::new();
    let (guard, at_once) = SandboxGuard::new(&mut registry, "/tmp/pacpin-try-cache-test");
    assert!(!at_once);
    guard.register_tarball(&mut registry, "/tmp/pacpin-cache-test.pkg.tar.zst");
    let removed = guard.leftovers();
    assert!(removed.contains(&"/tmp/pacpin-try-cache-test".to_string()));
    assert!(!removed.contains(&"/tmp/pacpin-cache-test.pkg.tar.zst".to_string()));
    unregister_cleanup_target(&mut registry, "/tmp/pacpin-try-cache-test");
    assert!(!registry.targets.contains(&"/tmp/pacpin-try-cache-test".to_string()));
}

#[test]
fn test_stale_cleanup_keeps_live_sandbox() {
    let live = sandbox_dir_name("pacpin-run-live-test", 1234, &vec![1, 2, 0xab]);
    assert!(matches!(sandbox_owner(&live), Owner::Process(1234)));
    assert!(!should_clean_stale_sandbox(&live, false, Some(1_000_000)));

    let dead = format!("pacpin-run-dead-test-pid{}-123", i32::MAX);
    assert!(should_clean_stale_sandbox(&dead, true, None));
    assert!(matches!(sandbox_owner("other"), Owner::Foreign));
    assert_eq!(hex_text(&vec![1, 2, 0xab]), "0102ab");
    assert_ne!(sandbox_subdir("pacpin-run-x"), sandbox_subdir("pacpin-try-x"));
}

#[test]
fn test_cwd_mount_policy_protects_home_and_system() {
    let home = "/tmp/pacpin-home-policy";
    assert!(!should_bind_cwd(Some("/"), Some(home)));
    assert!(!should_bind_cwd(Some("/etc"), Some(home)));
    assert!(!should_bind_cwd(Some(home), Some(home)));
    assert!(!should_bind_cwd(Some("/tmp/pacpin-home-policy/private"), Some(home)));
}

#[test]
fn test_package_data_mounts_preserve_absolute_lookup_paths() {
    let mut data = PackageData {
        share: true,
        libexec: false,
        etc: true,
        overlay: false,
        etc_entries: Vec::new(), // the host has no /etc/figlet
    };
    let mut args = Vec::new();
    add_package_data_mounts(&mut args, "/root", &data);
    assert!(args.windows(3).any(|w| w[0] == "--ro-bind" && w[2] == "/usr/share"));
    assert!(!args.windows(3).any(|w| w[0] == "--ro-bind" && w[2] == "/etc/figlet"));
    data.overlay = true;
    let mut overlay_args = Vec::new();
    add_package_data_mounts(&mut overlay_args, "/root", &data);
    assert!(overlay_args.windows(2).any(|w| w == ["--ro-overlay", "/usr/share"]));
    assert!(overlay_args.windows(2).any(|w| w == ["--ro-overlay", "/etc"]));
}

#[test]
fn test_runtime_directory_rejects_symlink_and_public_permissions() {
    let facts = |is_symlink: bool, mode: u32| DirFacts { is_dir: !is_symlink, is_symlink, owned: true, mode };
    assert!(check_runtime_dir("/run/user/1000", Some(facts(false, 0o700))).is_ok());
    assert!(check_runtime_dir("/run/user/1000", Some(facts(true, 0o777))).is_err());
    assert!(check_runtime_dir("/run/user/1000", Some(facts(false, 0o755))).is_err());
    assert!(check_runtime_dir("/run/user/1000", None).is_err());
    assert!(is_private_dir(facts(false, 0o40700)));
    let (base, sub) = private_runtime_subdir("/run/user/1000", "run");
    assert!(base.starts_with("/run/user/1000/") && sub.starts_with(&base));
}

#[test]
fn test_wayland_socket_must_be_real_socket_with_safe_basename() {
    let private = || Some(DirFacts { is_dir: true, is_symlink: false, owned: true, mode: 0o700 });
    assert_eq!(
        safe_wayland_socket("/run/user/1", "wayland-0", private(), true),
        Some("/run/user/1/wayland-0".to_string())
    );
    for display in ["", ".", "..", "../passwd", "/etc/passwd", "nested/wayland-0"] {
        assert_eq!(safe_wayland_socket("/run/user/1", display, private(), true), None);
        assert!(!is_plain_component(display));
    }
    assert_eq!(safe_wayland_socket("/run/user/1", "wayland-link", private(), false), None);
}

fn guard(dir: &str) -> SandboxGuard {
    SandboxGuard { sandbox_dir: dir.to_string(), downloaded_tarballs: Vec::new() }
}

#[test]
fn a_batch_leaves_its_files_to_the_guard() {
    let mut guard = guard("/tmp/d");
    let first = vec![
        (Ok("/cache/a".to_string()), Vec::new()),
        (Ok("/tmp/b2".to_string()), to_vec(&["/tmp/b1", "/tmp/b2"])),
    ];
    assert_eq!(take_batch(&mut guard, &first), Ok(to_vec(&["/cache/a", "/tmp/b2"])));
    let second = vec![
        (Err("one".to_string()), to_vec(&["/tmp/c"])),
        (Err("two".to_string()), to_vec(&["/tmp/d"])),
    ];
    assert_eq!(take_batch(&mut guard, &second), Err("one".to_string()));
    assert_eq!(guard.downloaded_tarballs, vec!["/tmp/b1", "/tmp/b2", "/tmp/c", "/tmp/d"]);
    assert!(matches!(download_step(0, &Vec::new()), DownloadStep::Done(_)));
    assert!(matches!(download_step(5, &Vec::new()), DownloadStep::Fetch(0, 2)));
    assert!(matches!(download_step(3, &vec![Ok(to_vec(&["a", "b"]))]), DownloadStep::Fetch(2, 3)));
}

#[test]
fn test_downloads_overlap_but_preserve_extraction_order() {
    let results: Vec<Result<String, String>> = (0..3).map(|i| Ok(format!("pkg-{}", i))).collect();
    let archives = download_targets_parallel(&results).unwrap();
    assert_eq!(archives, vec!["pkg-0", "pkg-1", "pkg-2"]);
    let mut guard = guard("/tmp/pacpin-run-parallel-test");
    let mut batches = Vec::new();
    let mut fetched = Vec::new();
    let end = loop {
        match download_step(3, &batches) {
            DownloadStep::Fetch(from, to) => {
                assert!(to - from <= 2);
                fetched.extend(from..to);
                let batch = (from..to).map(|i| (Ok(format!("pkg-{}", i)), Vec::new())).collect();
                batches.push(take_batch(&mut guard, &batch));
            }
            other => break other,
        }
    };
    assert_eq!(fetched, vec![0, 1, 2]);
    match end {
        DownloadStep::Done(all) => assert_eq!(all, vec!["pkg-0", "pkg-1", "pkg-2"]),
        _ => panic!("the downloads have not ended"),
    }
    assert!(guard.downloaded_tarballs.is_empty());
    assert_eq!(MAX_PARALLEL_DOWNLOADS, 2);
    assert_eq!((batch_end(0, 3), batch_end(2, 3)), (2, 3));
}

#[test]
fn test_parallel_download_error_cleans_owned_files() {
    let results = vec![Ok("a".to_string()), Err("test failure at /tmp/x".to_string())];
    assert_eq!(download_targets_parallel(&results), Err("test failure at /tmp/x".to_string()));
    let mut guard = guard("/tmp/pacpin-run-download-error-test");
    let broken = vec![(Err("test failure at /tmp/x".to_string()), to_vec(&["/tmp/x"]))];
    let result = take_batch(&mut guard, &broken);
    assert_eq!(result, Err("test failure at /tmp/x".to_string()));
    assert_eq!(guard.downloaded_tarballs, vec!["/tmp/x"]);
    assert!(matches!(download_step(5, &vec![Ok(to_vec(&["a", "b"])), result]), DownloadStep::Fail(_)));
    let gone = guard.leftovers();
    assert!(gone.contains(&"/tmp/x".to_string()));
    assert!(gone.contains(&"/tmp/pacpin-run-download-error-test".to_string()));
}

#[test]
fn test_requested_binary_cannot_escape_package_root() {
    for name in ["/bin/sh", "../../bin/sh", "../sh", "-sh", "\\bin\\sh"] {
        assert!(find_executable("/root", "test", Some(name), &Vec::new())
            .unwrap_err()
            .contains("single executable"));
    }
}

#[test]
fn the_program_of_a_package_is_found() {
    let found = to_vec(&["/root/usr/bin/other", "/root/usr/bin/jq"]);
    assert_eq!(find_executable("/root", "jq", None, &found).unwrap(), "/root/usr/bin/jq");
    assert_eq!(
        find_executable("/root", "jq", Some("other"), &found).unwrap(),
        "/root/usr/bin/other"
    );
    assert!(find_executable("/root", "jq", None, &Vec::new()).is_err());
    assert!(find_executable("/root", "jq", Some("nothing"), &found).is_err());
}

#[test]
fn test_check_bwrap_capability_runs() {
    assert!(check_bwrap_capability(&Probe::Works).is_ok());
    assert!(check_bwrap_capability(&Probe::Missing).is_err());
    assert!(check_bwrap_capability(&Probe::Refused("no".to_string())).is_err());
    assert!(check_bwrap_capability(&Probe::Failed("no".to_string())).is_err());
    assert!(!probe_failure("").is_empty());
    assert_eq!(bwrap_probe(&to_vec(&["/usr"]), false).program, "bwrap");
}

#[test]
fn test_cwd_is_home_logic() {
    assert!(!should_bind_cwd(Some("/srv/home-x"), Some("/srv/home-x")));
    assert!(!should_bind_cwd(None, Some("/srv/home-x")));
    assert!(!should_bind_cwd(Some("/srv/work"), None));
    assert!(should_bind_cwd(Some("/srv/work"), Some("/srv/home-x")));
}

fn container() -> Container {
    Container {
        sandbox_dir: "/tmp/sb".to_string(),
        host_dirs: to_vec(&["/usr"]),
        data: PackageData {
            share: false,
            libexec: false,
            etc: false,
            overlay: false,
            etc_entries: Vec::new(),
        },
        home: "/home/u".to_string(),
        home_exists: true,
        cwd: "/srv/work".to_string(),
        resolved_cwd: Some("/srv/work".to_string()),
        resolved_home: Some("/home/me".to_string()),
        x11: true,
        dri: true,
        snd: true,
        display: Some(":0".to_string()),
        wayland: None,
        user: "u".to_string(),
        logname: "u".to_string(),
        lang: "C".to_string(),
        lc_all: "C".to_string(),
        term: "xterm".to_string(),
        binary: "/tmp/sb/usr/bin/jq".to_string(),
    }
}

#[test]
fn a_container_is_cut_off_unless_it_is_asked_for() {
    let c = container();
    let o = TryOptions::default();
    let run = try_pacman(&c, &o, &to_vec(&["-r", "."]));
    assert_eq!(run.program, "bwrap");
    assert!(run.args.contains(&"--unshare-all".to_string()));
    assert!(!run.args.contains(&"--share-net".to_string()));
    assert!(run.args.ends_with(&to_vec(&["/tmp/sb/usr/bin/jq", "-r", "."])));
    let mut open = TryOptions::default();
    open.share_net = true;
    assert!(try_pacman(&c, &open, &Vec::new()).args.contains(&"--share-net".to_string()));
    assert!(run.args.windows(3).any(|w| w[0] == "--ro-bind" && w[1] == "/srv/work" && w[2] == "/srv/work"));
    open.rw_cwd = true;
    let written = try_pacman(&c, &open, &Vec::new()).args;
    assert!(written.windows(3).any(|w| w[0] == "--bind" && w[1] == "/srv/work" && w[2] == "/srv/work"));
    for private in ["/home/me/x", "/home", "/etc/x", "/"] {
        let mut at = container();
        at.resolved_cwd = Some(private.to_string());
        let args = try_pacman(&at, &open, &Vec::new()).args;
        assert!(!args.contains(&"--bind".to_string()));
        assert!(args.windows(2).any(|w| w[0] == "--chdir" && w[1] == "/tmp"));
    }
    let mut lost = container();
    lost.resolved_home = None;
    assert!(!try_pacman(&lost, &open, &Vec::new()).args.contains(&"--bind".to_string()));
    let mut mounts = Vec::new();
    add_host_runtime_mounts(&mut mounts, &to_vec(&["/usr"]));
    assert!(mounts.contains(&"/usr".to_string()));
    assert!(make_search_path("/tmp/sb", "/usr/bin").starts_with("/tmp/sb/"));
    assert!(make_library_path("/tmp/sb", "").starts_with("/tmp/sb/"));
    assert!(make_data_path("/tmp/sb", "/usr/share").ends_with("/usr/share"));
}

#[test]
fn a_run_without_a_container_needs_no_probe() {
    assert!(matches!(run_gate("jq", true, &Probe::Missing, false), RunGate::Ready));
    assert!(matches!(run_gate("jq", false, &Probe::Works, false), RunGate::Ready));
    assert!(matches!(run_gate("jq", false, &Probe::Missing, true), RunGate::AskInstall));
    assert!(matches!(run_gate("jq", false, &Probe::Missing, false), RunGate::Refuse(_)));
    assert!(install_answer(Some("n")).is_err());
}

#[test]
fn runs_of_other_managers() {
    assert!(try_flatpak("org.gnome.Calculator", true).is_ok());
    assert!(try_flatpak("org.gnome.Calculator", false).is_err());
    assert!(try_flatpak("a;b", true).is_err());
    assert_eq!(flatpak_install("a.b.C").args.last().unwrap(), "a.b.C");
    assert_eq!(flatpak_uninstall("a.b.C").program, "flatpak");
    assert_eq!(flatpak_run("a.b.C", &to_vec(&["x"])).args.last().unwrap(), "x");
    let (first, second) = try_nix("fastfetch", &Vec::new(), true).unwrap();
    assert_ne!(first.program, second.program);
    assert!(try_nix("fastfetch", &Vec::new(), false).is_err());
    assert_eq!(try_pipx("cowsay", &to_vec(&["hi"]), true).unwrap().program, "pipx");
    assert!(try_pipx("a b", &Vec::new(), true).is_err());
}

#[test]
fn checksums_are_read_in_small_letters() {
    let sum = "AB".repeat(32);
    let out = HashRun::Output(format!("{}  /tmp/f\n", sum));
    assert_eq!(compute_sha256("/tmp/f", &out).unwrap(), "ab".repeat(32));
    assert_eq!(
        compute_sha256("/tmp/f", &HashRun::Output(" \n".to_string())).unwrap_err(),
        "Empty hash returned for '/tmp/f'"
    );
    assert_eq!(
        compute_sha256("/tmp/f", &HashRun::Unsuccessful).unwrap_err(),
        "sha256sum failed for '/tmp/f'"
    );
    assert_eq!(
        compute_sha256("/tmp/f", &HashRun::NotRun("gone".to_string())).unwrap_err(),
        "Failed to run sha256sum: gone"
    );
}

#[test]
fn an_archive_is_taken_only_with_its_checksum() {
    let sum = "ab".repeat(32);
    let urls = to_vec(&["https://a/x.pkg.tar.zst", "https://b/x.pkg.tar.zst"]);
    let step = |attempts: Vec<Attempt>| fetch_package_archive("x", &urls, Some(&sum), false, &attempts);
    assert!(matches!(step(vec![]), Fetch::Try(0)));
    let wrong = || Attempt::Fetched(Ok("cd".repeat(32)));
    let right = || Attempt::Fetched(Ok("ab".repeat(32)));
    assert!(matches!(step(vec![wrong()]), Fetch::Try(1)));
    assert!(matches!(step(vec![wrong(), right()]), Fetch::Take(1)));
    assert!(matches!(step(vec![wrong(), wrong()]), Fetch::Fail(_)));
    assert!(matches!(step(vec![Attempt::Interrupted]), Fetch::Fail(_)));
    assert!(matches!(step(vec![Attempt::Failed(22)]), Fetch::Try(1)));
    assert!(matches!(step(vec![Attempt::NotStarted("no".to_string())]), Fetch::Try(1)));
    assert!(matches!(fetch_package_archive("x", &urls, None, false, &vec![]), Fetch::Fail(_)));
    assert!(matches!(fetch_package_archive("x", &urls, None, true, &vec![]), Fetch::Try(0)));
    // An empty checksum is one that nothing has.
    let empty = |attempts: Vec<Attempt>, allow: bool| fetch_package_archive("x", &urls, Some(""), allow, &attempts);
    assert!(matches!(empty(vec![right()], false), Fetch::Try(1)));
    assert!(matches!(empty(vec![right()], true), Fetch::Try(1)));
    assert!(matches!(empty(vec![right(), wrong()], false), Fetch::Fail(_)));
    // Without a checksum the file is taken where that is allowed.
    assert!(matches!(fetch_package_archive("x", &urls, None, true, &vec![right()]), Fetch::Take(0)));
    assert!(matches!(
        fetch_package_archive("x", &urls, None, true, &vec![Attempt::Fetched(Err("no".to_string()))]),
        Fetch::Take(0)
    ));
    assert!(matches!(cache_use(Some(""), Some(&sum), true), CacheUse::Outdated));
    assert!(matches!(cache_use(Some(&sum), Some(&sum), false), CacheUse::Take));
    assert!(matches!(cache_use(Some(&sum), Some("cd"), false), CacheUse::Outdated));
}

#[test]
fn the_newest_cached_archive_is_taken() {
    let file = |name: &str, modified: Option<i128>| CachedFile { name: name.to_string(), modified };
    let files = vec![
        file("jq-1.6-1-x86_64.pkg.tar.zst", Some(5)),
        file("jq-1.7-1-x86_64.pkg.tar.zst", Some(9)),
        file("jq-extra-2-1-any.pkg.tar.zst", Some(99)),
    ];
    assert_eq!(newest_cached(&files, "jq"), Some(1));
    assert_eq!(newest_cached(&files, "none"), None);
    assert!(is_archive_of("jq-1.6-1-x86_64.pkg.tar.zst", "jq"));
    assert!(!is_archive_of("jq-1.6-1-x86_64.pkg.tar.zst.sig", "jq"));
    assert_eq!(archive_ending("https://a/x.pkg.tar.xz"), "pkg.tar.xz");
    assert_eq!(download_command("https://a/x", "/tmp/y").program, "curl");
    let name = create_secure_temp_file("/tmp", "pacpin", "pkg", 0, &vec![1, 2]).unwrap();
    assert!(name.starts_with("/tmp/pacpin") && name.ends_with(".pkg"));
    assert!(create_secure_temp_file("/tmp", "pacpin", "pkg", MAX_TEMP_ATTEMPTS, &vec![]).is_err());
}
