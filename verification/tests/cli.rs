//! Command lines: their options, their targets and what they ask for.
use pacpin::cli::{
    find_matching_pin, has_short, is_upgrade_invocation, pacman_files_needs_sudo,
    parse_pacman_cli_args, parse_pin_args, part_of, pin_files, rest_of, FileText,
};
use pacpin::dispatch::{dispatch, keep_command, needs_setup, parse_try_args, Action, Incomplete};
use pacpin::query::{command_paths, is_command_available};
use pacpin::sandbox::is_executable_file;
use pacpin::strmap::StrMap;
use pacpin::upgrade::parse_install_flags;

fn to_vec(slice: &[&str]) -> Vec<String> {
    slice.iter().map(|s| s.to_string()).collect()
}

#[test]
fn test_is_command_available() {
    let path = Some("/usr/local/bin:/usr/bin:/bin");
    let available = |cmd: &str| {
        let hits: Vec<bool> = command_paths(cmd, path)
            .iter()
            .map(|p| is_executable_file(std::path::Path::new(p).is_file(), 0o755))
            .collect();
        is_command_available(&hits)
    };
    assert!(available("sh") || available("bash"));
    assert!(!available("this_binary_does_not_exist_xyz123"));
}

#[test]
fn test_is_command_available_permissions() {
    assert_eq!(command_paths("/tmp/pacpin_non_exec_test", Some("/bin")), vec!["/tmp/pacpin_non_exec_test"]);
    assert!(!is_command_available(&vec![is_executable_file(true, 0o644)]));
    assert!(is_command_available(&vec![is_executable_file(true, 0o755)]));
    assert_eq!(command_paths("sh", Some("/usr/bin:/bin")), vec!["/usr/bin/sh", "/bin/sh"]);
    assert_eq!(command_paths("sh", None), Vec::<String>::new());
}

#[test]
fn test_find_matching_pin_exact_and_glob() {
    let mut pins = StrMap::new();
    pins.insert("mesa".to_string(), "core".to_string());
    pins.insert("linux-*".to_string(), "extra".to_string());
    pins.insert("linux-firmware*".to_string(), "cachyos".to_string());

    assert_eq!(
        find_matching_pin("mesa", &pins),
        Some(("mesa".to_string(), "core".to_string(), true))
    );
    // Specificity tie-break: "linux-firmware*" must beat "linux-*" despite ASCII key order
    assert_eq!(
        find_matching_pin("linux-firmware-intel", &pins),
        Some(("linux-firmware*".to_string(), "cachyos".to_string(), false))
    );
    assert_eq!(
        find_matching_pin("linux-zen", &pins),
        Some(("linux-*".to_string(), "extra".to_string(), false))
    );
    assert_eq!(find_matching_pin("git", &pins), None);
}

#[test]
fn test_parse_pin_args_legacy_syntax() {
    let known_repos = to_vec(&["core", "extra", "aur"]);
    let args = to_vec(&["linux-firmware*", "core"]);
    let (repo, patterns) = parse_pin_args(&args, &known_repos, &Vec::new()).unwrap();
    assert_eq!(repo, "core");
    assert_eq!(patterns, vec!["linux-firmware*"]);
}

#[test]
fn test_parse_pin_args_repo_first() {
    let known_repos = to_vec(&["core", "extra", "aur"]);
    let args = to_vec(&["core", "linux-firmware*"]);
    let (repo, patterns) = parse_pin_args(&args, &known_repos, &Vec::new()).unwrap();
    assert_eq!(repo, "core");
    assert_eq!(patterns, vec!["linux-firmware*"]);
}

#[test]
fn test_parse_pin_args_batch() {
    let known_repos = to_vec(&["core", "extra", "aur"]);
    let args = to_vec(&["core", "pkg1", "pkg2", "pkg3"]);
    let (repo, patterns) = parse_pin_args(&args, &known_repos, &Vec::new()).unwrap();
    assert_eq!(repo, "core");
    assert_eq!(patterns, vec!["pkg1", "pkg2", "pkg3"]);
}

#[test]
fn test_parse_pin_args_file() {
    let known_repos = to_vec(&["core", "extra", "aur"]);
    let args = to_vec(&["core", "-f", "/tmp/pacpin_test_pkgs.txt"]);
    assert_eq!(pin_files(&args), vec!["/tmp/pacpin_test_pkgs.txt"]);
    let files = vec![FileText::Content("pkgA\n# comment\npkgB\n\npkgC\n".to_string())];
    let (repo, patterns) = parse_pin_args(&args, &known_repos, &files).unwrap();
    assert_eq!(repo, "core");
    assert_eq!(patterns, vec!["pkgA", "pkgB", "pkgC"]);
}

#[test]
fn pin_arguments_that_cannot_be_read_are_refused() {
    let known_repos = to_vec(&["core"]);
    let args = to_vec(&["core", "-f", "/gone"]);
    let files = vec![FileText::Failed("No such file".to_string())];
    assert!(parse_pin_args(&args, &known_repos, &files).is_err());
    let args = to_vec(&["core", "-f"]);
    assert!(parse_pin_args(&args, &known_repos, &Vec::new()).is_err());
    assert!(parse_pin_args(&Vec::new(), &known_repos, &Vec::new()).is_err());
}

#[test]
fn the_order_of_one_repository_and_one_pattern_does_not_matter() {
    let known = to_vec(&["core", "extra"]);
    let ab = parse_pin_args(&to_vec(&["mesa", "extra"]), &known, &Vec::new()).unwrap();
    let ba = parse_pin_args(&to_vec(&["extra", "mesa"]), &known, &Vec::new()).unwrap();
    assert_eq!(ab, ba);
}

#[test]
fn test_is_upgrade_invocation() {
    // Valid upgrade forms
    assert!(is_upgrade_invocation(&to_vec(&["upgrade"])));
    assert!(is_upgrade_invocation(&to_vec(&["up"])));
    assert!(is_upgrade_invocation(&to_vec(&["-Syu"])));
    assert!(is_upgrade_invocation(&to_vec(&["-Suy"])));
    assert!(is_upgrade_invocation(&to_vec(&["-Su"])));
    assert!(is_upgrade_invocation(&to_vec(&["-Sy"])));
    assert!(is_upgrade_invocation(&to_vec(&["-Syuu"])));
    assert!(is_upgrade_invocation(&to_vec(&["-S", "-y", "-u"])));
    assert!(is_upgrade_invocation(&to_vec(&["-S", "-u", "-y"])));
    assert!(is_upgrade_invocation(&to_vec(&["-S", "-u"])));
    assert!(is_upgrade_invocation(&to_vec(&["-S", "-y"])));
    assert!(is_upgrade_invocation(&to_vec(&["-S", "-u", "-n"])));
    assert!(is_upgrade_invocation(&to_vec(&["-Syu", "--noconfirm"])));
    assert!(is_upgrade_invocation(&to_vec(&["-S", "--sysupgrade"])));

    // Non-upgrade forms (should not match upgrade)
    assert!(!is_upgrade_invocation(&to_vec(&["-S"])));
    assert!(!is_upgrade_invocation(&to_vec(&["-S", "ripgrep"])));
    assert!(!is_upgrade_invocation(&to_vec(&["-Syu", "ripgrep"])));
    assert!(!is_upgrade_invocation(&to_vec(&["-Ss", "ripgrep"])));
    assert!(!is_upgrade_invocation(&to_vec(&["-S", "-s", "ripgrep"])));
    assert!(!is_upgrade_invocation(&to_vec(&["-Si", "ripgrep"])));
    assert!(!is_upgrade_invocation(&to_vec(&["-S", "-i", "ripgrep"])));
    assert!(!is_upgrade_invocation(&to_vec(&["-Sc"])));
    assert!(!is_upgrade_invocation(&to_vec(&["-S", "-c"])));
    assert!(!is_upgrade_invocation(&to_vec(&["-Sw", "ripgrep"])));
    assert!(!is_upgrade_invocation(&to_vec(&["-Sp", "ripgrep"])));
    assert!(!is_upgrade_invocation(&to_vec(&["check"])));
    assert!(!is_upgrade_invocation(&to_vec(&["-Qu"])));

    // Upgrade with option-consuming flags
    assert!(is_upgrade_invocation(&to_vec(&["-Syu", "--ignore", "linux"])));
    assert!(is_upgrade_invocation(&to_vec(&["-Syu", "--ignore=linux"])));
    assert!(is_upgrade_invocation(&to_vec(&["-S", "-u", "--overwrite", "/usr/*"])));
    assert!(is_upgrade_invocation(&to_vec(&["-Syu", "--assume-installed", "foo:1.0"])));
}

#[test]
fn test_parse_pacman_cli_args() {
    // Separates option arguments from targets
    let (targets, flags) =
        parse_pacman_cli_args(&to_vec(&["--ignore", "linux", "--noconfirm", "neovim"]));
    assert_eq!(targets, vec!["neovim"]);
    assert_eq!(flags, vec!["--ignore", "linux", "--noconfirm"]);

    // Handles --ignore=linux equals syntax
    let (targets, flags) = parse_pacman_cli_args(&to_vec(&["--ignore=linux", "ripgrep"]));
    assert_eq!(targets, vec!["ripgrep"]);
    assert_eq!(flags, vec!["--ignore=linux"]);

    // Handles double dash -- to treat everything after as targets
    let (targets, flags) = parse_pacman_cli_args(&to_vec(&["-S", "--", "--ignore", "foo"]));
    assert_eq!(flags, vec!["-S"]);
    assert_eq!(targets, vec!["--ignore", "foo"]);

    // Handles config, dbpath, root, overwrite flags consuming arguments
    let (targets, flags) = parse_pacman_cli_args(&to_vec(&[
        "--config",
        "/etc/pacman.conf",
        "-b",
        "/var/lib/pacman",
        "--overwrite",
        "/usr/share/*",
        "git",
    ]));
    assert_eq!(targets, vec!["git"]);
    assert_eq!(
        flags,
        vec![
            "--config",
            "/etc/pacman.conf",
            "-b",
            "/var/lib/pacman",
            "--overwrite",
            "/usr/share/*"
        ]
    );

    let args = to_vec(&[
        "--ignore", "linux", "--overwrite", "*", "--assume-installed", "foo=1.0",
        "--noconfirm", "bar",
    ]);
    let (targets, flags) = parse_pacman_cli_args(&args);
    assert_eq!(targets, vec!["bar"]);
    assert_eq!(flags, args[..7]);
    assert!(!is_upgrade_invocation(&to_vec(&[
        "-Syu", "--ignore", "linux", "--overwrite", "*",
        "--assume-installed", "foo=1.0", "bar",
    ])));
}

#[test]
fn test_pacman_files_needs_sudo() {
    // Read-only queries should NOT require sudo
    assert!(!pacman_files_needs_sudo(&to_vec(&["-F", "python"])));
    assert!(!pacman_files_needs_sudo(&to_vec(&["-Fl", "ripgrep"])));
    assert!(!pacman_files_needs_sudo(&to_vec(&["-Fs", "libssl.so"])));
    assert!(!pacman_files_needs_sudo(&to_vec(&["-F", "-b", "/var/lib/pacman", "python"])));

    // Sync / refresh actions DO require sudo
    assert!(pacman_files_needs_sudo(&to_vec(&["-Fy"])));
    assert!(pacman_files_needs_sudo(&to_vec(&["-Fyy"])));
    assert!(pacman_files_needs_sudo(&to_vec(&["-F", "-y"])));
    assert!(pacman_files_needs_sudo(&to_vec(&["-F", "--refresh"])));
    assert!(pacman_files_needs_sudo(&to_vec(&["-Fy", "python"])));
}

#[test]
fn test_find_matching_pin_exact_and_wildcard() {
    let mut pins = StrMap::new();
    pins.insert("linux-cachyos*".to_string(), "cachyos".to_string());
    pins.insert("neovim".to_string(), "extra".to_string());

    let res_exact = find_matching_pin("neovim", &pins);
    assert_eq!(res_exact, Some(("neovim".to_string(), "extra".to_string(), true)));

    let res_wildcard = find_matching_pin("linux-cachyos-headers", &pins);
    assert_eq!(
        res_wildcard,
        Some(("linux-cachyos*".to_string(), "cachyos".to_string(), false))
    );

    let res_none = find_matching_pin("ripgrep", &pins);
    assert_eq!(res_none, None);
}

#[test]
fn test_parse_install_flags() {
    // Standalone -y (refresh without sysupgrade)
    let opts = parse_install_flags(&to_vec(&["-y"]));
    assert!(opts.refresh);
    assert!(!opts.sysupgrade);
    assert!(!opts.dry_run);
    assert!(opts.forwarded_flags.is_empty());

    // Standalone -u (sysupgrade without refresh)
    let opts = parse_install_flags(&to_vec(&["-u"]));
    assert!(!opts.refresh);
    assert!(opts.sysupgrade);
    assert!(opts.forwarded_flags.is_empty());

    // Combined -yu and -uy (refresh and sysupgrade)
    let opts = parse_install_flags(&to_vec(&["-yu"]));
    assert!(opts.refresh);
    assert!(opts.sysupgrade);
    assert!(opts.forwarded_flags.is_empty());

    let opts = parse_install_flags(&to_vec(&["-uy"]));
    assert!(opts.refresh);
    assert!(opts.sysupgrade);
    assert!(opts.forwarded_flags.is_empty());

    // Long options
    let opts = parse_install_flags(&to_vec(&["--refresh", "--sysupgrade", "--noconfirm"]));
    assert!(opts.refresh);
    assert!(opts.sysupgrade);
    assert!(opts.noconfirm);
    assert!(opts.forwarded_flags.is_empty());

    // Forwarding unrecognized flags while consuming internal ones
    let opts = parse_install_flags(&to_vec(&["-yu", "--overwrite", "*", "--cachedir=/tmp"]));
    assert!(opts.refresh);
    assert!(opts.sysupgrade);
    assert_eq!(opts.forwarded_flags, vec!["--overwrite", "*", "--cachedir=/tmp"]);
}

#[test]
fn parts_of_a_command_line() {
    let args = to_vec(&["a", "b", "c"]);
    assert_eq!(rest_of(&args, 1), vec!["b", "c"]);
    assert_eq!(rest_of(&args, 3), Vec::<String>::new());
    assert_eq!(part_of(&args, 0, 2), vec!["a", "b"]);
    assert!(has_short(&to_vec(&["-Sy"]), 'y'));
    assert!(!has_short(&to_vec(&["--yes"]), 'y'));
}

#[test]
fn commands_are_told_apart() {
    assert!(matches!(dispatch(&to_vec(&["--version"])), Action::Version));
    assert!(matches!(dispatch(&to_vec(&["--help"])), Action::Help));
    assert!(matches!(dispatch(&to_vec(&[])), Action::Help));
    assert!(matches!(dispatch(&to_vec(&["unpin"])), Action::Incomplete(Incomplete::Unpin)));
    assert!(matches!(dispatch(&to_vec(&["delay", "linux"])), Action::Incomplete(Incomplete::Delay)));
    match dispatch(&to_vec(&["unpin", "mesa"])) {
        Action::Unpin(p) => assert_eq!(p, "mesa"),
        _ => panic!("not an unpin"),
    }
}

#[test]
fn options_of_a_trial_run() {
    let (opts, pkg, rest) = parse_try_args(&to_vec(&["try", "--net", "jq", "-r", "."]), false);
    assert!(opts.share_net && !opts.no_sandbox && !opts.is_run_mode);
    assert_eq!(pkg.as_deref(), Some("jq"));
    assert_eq!(rest, vec!["-r", "."]);
    let (opts, pkg, rest) = parse_try_args(&to_vec(&["run"]), true);
    assert!(opts.is_run_mode && opts.no_sandbox);
    assert_eq!((pkg, rest), (None, Vec::new()));
}

#[test]
fn setup_comes_before_the_first_use() {
    assert!(needs_setup(false, true));
    assert!(!needs_setup(true, true));
    assert!(!needs_setup(false, false));
    let keep = keep_command(&to_vec(&["a", "b"]));
    assert!(keep.args.ends_with(&to_vec(&["a", "b"])));
}

#[test]
fn rights_are_asked_for_where_they_are_needed() {
    for args in [&["-U", "x.pkg.tar.zst"][..], &["-D", "--asdeps", "x"], &["-Sw", "x"], &["-Fy"]] {
        assert!(matches!(dispatch(&to_vec(args)), Action::Forward { sudo: true }));
    }
    for args in [&["-Q"][..], &["-Qi", "x"], &["-Qdt"], &["-T", "x"], &["-F", "x"]] {
        assert!(matches!(dispatch(&to_vec(args)), Action::Forward { sudo: false }));
    }
    assert!(matches!(dispatch(&to_vec(&["-Qu"])), Action::Check(_)));
}
