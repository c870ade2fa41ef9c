//! Package archives: their names, their listings and what may be unpacked.
use pacpin::archive::{
    is_safe_link_destination, is_safe_tar_entry, is_safe_tar_listing_line, only_steps,
    parse_pkgname_from_filename, split_slashes,
};
use pacpin::extract::{
    check_entry, decompressor, escaped_entry, extract_archive, follow_links, nothing_unpacked,
    reject_existing_symlink_components, steps_of, validate_symlink_traversal, verify_disk_size,
    ArchiveEntry, EntryKind, LinkChain, OnPath, Progress, MAX_ARCHIVE_ENTRIES, MAX_UNPACKED_BYTES,
};

fn entry(path: &str, kind: EntryKind, link: Option<&str>, size: u64) -> ArchiveEntry {
    ArchiveEntry { path: path.to_string(), kind, link: link.map(|l| l.to_string()), size }
}

/// What lies at each step of a path, where `made` lists what was unpacked so far.
fn look(path: &str, made: &Vec<(String, bool)>) -> Vec<OnPath> {
    let mut found = Vec::new();
    let mut at = String::new();
    for step in steps_of(path) {
        if !at.is_empty() {
            at.push('/');
        }
        at.push_str(&step);
        found.push(match made.iter().find(|m| m.0 == at) {
            Some((_, true)) => OnPath::Symlink,
            Some((_, false)) => OnPath::Other,
            None => OnPath::Missing,
        });
    }
    found
}

/// Unpacks an archive into a list of paths, each with whether it is a symbolic link.
fn unpack(name: &str, bytes: &[u8]) -> (Result<(), String>, Vec<(String, bool)>) {
    let mut made: Vec<(String, bool)> = Vec::new();
    let unpacked = walk(name, bytes, &mut made);
    (extract_archive(name, unpacked, true), made)
}

fn walk(name: &str, bytes: &[u8], made: &mut Vec<(String, bool)>) -> Result<(), String> {
    let mut archive = tar::Archive::new(bytes);
    let mut progress = nothing_unpacked();
    for read in archive.entries().map_err(|e| e.to_string())? {
        let read = read.map_err(|e| e.to_string())?;
        let t = read.header().entry_type();
        let kind = if t.is_file() {
            EntryKind::File
        } else if t.is_dir() {
            EntryKind::Dir
        } else if t.is_symlink() {
            EntryKind::Symlink
        } else if t.is_hard_link() {
            EntryKind::HardLink
        } else {
            EntryKind::Other
        };
        let path = read.path().unwrap().to_string_lossy().to_string();
        let link = read.link_name().unwrap().map(|l| l.to_string_lossy().to_string());
        let link_found = look(link.as_deref().unwrap_or(""), made);
        let e = ArchiveEntry { path: path.clone(), kind, link, size: read.size() };
        progress = check_entry(name, "/out", progress, &e, &look(&path, made), &link_found)?;
        let mut at = String::new();
        for step in steps_of(&path) {
            if !at.is_empty() {
                at.push('/');
            }
            at.push_str(&step);
            if made.iter().all(|m| m.0 != at) {
                made.push((at.clone(), at == path && e.kind == EntryKind::Symlink));
            }
        }
    }
    Ok(())
}

fn missing(n: usize) -> Vec<OnPath> {
    (0..n).map(|_| OnPath::Missing).collect()
}

fn chain(path: &str, targets: &[&str]) -> LinkChain {
    LinkChain {
        path: path.to_string(),
        targets: targets.iter().map(|t| t.to_string()).collect(),
    }
}

#[test]
fn test_rejects_existing_symlink_in_archive_path() {
    assert_eq!(steps_of("usr/link/payload"), vec!["usr", "link", "payload"]);
    let found = vec![OnPath::Other, OnPath::Symlink, OnPath::Missing];
    assert!(reject_existing_symlink_components("/root", "usr/link/payload", &found).is_err());
    let found = vec![OnPath::Other, OnPath::Missing, OnPath::Missing];
    assert!(reject_existing_symlink_components("/root", "usr/new/payload", &found).is_ok());
}

#[test]
fn test_extract_rejects_special_archive_entries() {
    let mut builder = tar::Builder::new(Vec::new());
    let mut header = tar::Header::new_gnu();
    header.set_entry_type(tar::EntryType::Char);
    header.set_size(0);
    header.set_cksum();
    builder.append_data(&mut header, "dev/hostile", std::io::empty()).unwrap();
    let bytes = builder.into_inner().unwrap();
    let (result, made) = unpack("special.tar", &bytes);
    assert!(result.unwrap_err().contains("unsupported archive entry type"));
    assert!(made.is_empty());
}

#[test]
fn test_extract_rejects_malformed_archive() {
    let (result, made) = unpack("bad.tar", &[0xff; 512]);
    assert!(result.is_err());
    assert!(made.is_empty());
    assert!(extract_archive("bad.tar", Ok(()), false).is_err());
    assert!(extract_archive("good.tar", Ok(()), true).is_ok());
}

#[test]
fn test_extract_rejects_symlink_parent_from_earlier_entry() {
    let mut builder = tar::Builder::new(Vec::new());
    let mut link = tar::Header::new_gnu();
    link.set_entry_type(tar::EntryType::Symlink);
    link.set_size(0);
    link.set_cksum();
    builder.append_link(&mut link, "usr/link", "../other").unwrap();
    let mut file = tar::Header::new_gnu();
    file.set_size(7);
    file.set_cksum();
    builder.append_data(&mut file, "usr/link/payload", &b"payload"[..]).unwrap();
    let bytes = builder.into_inner().unwrap();
    let (result, made) = unpack("linked.tar", &bytes);
    assert!(result.unwrap_err().contains("traverses a symlink"));
    assert!(made.contains(&("usr/link".to_string(), true)));
    assert!(made.iter().all(|m| m.0 != "usr/link/payload"));
}

#[test]
fn test_extract_rejects_oversized_header_before_writing() {
    let mut header = tar::Header::new_gnu();
    header.set_path("huge-file").unwrap();
    header.set_size(MAX_UNPACKED_BYTES + 1);
    header.set_cksum();
    let (result, made) = unpack("huge.tar", &header.as_bytes()[..]);
    assert!(result.unwrap_err().contains("uncompressed size exceeds"));
    assert!(made.is_empty());
}

#[test]
fn an_entry_counts_towards_the_limits() {
    let e = entry("usr/bin/jq", EntryKind::File, None, 10);
    let p = check_entry("a.tar", "/out", nothing_unpacked(), &e, &missing(3), &missing(0)).unwrap();
    assert_eq!((p.entries, p.size), (1, 10));
    let full = Progress { entries: MAX_ARCHIVE_ENTRIES, size: 0 };
    assert!(check_entry("a.tar", "/out", full, &e, &missing(3), &missing(0)).is_err());
    let heavy = Progress { entries: 1, size: MAX_UNPACKED_BYTES - 9 };
    assert!(check_entry("a.tar", "/out", heavy, &e, &missing(3), &missing(0)).is_err());
    let up = entry("../x", EntryKind::File, None, 0);
    assert!(check_entry("a.tar", "/out", nothing_unpacked(), &up, &missing(2), &missing(0)).is_err());
    let out = entry("usr/x", EntryKind::Symlink, Some("../../etc/passwd"), 0);
    assert!(check_entry("a.tar", "/out", nothing_unpacked(), &out, &missing(2), &missing(0)).is_err());
    let hard = entry("usr/x", EntryKind::HardLink, Some("../etc/shadow"), 0);
    assert!(check_entry("a.tar", "/out", nothing_unpacked(), &hard, &missing(2), &missing(2)).is_err());
    let hard = entry("usr/x", EntryKind::HardLink, Some("usr/y"), 0);
    assert!(check_entry("a.tar", "/out", nothing_unpacked(), &hard, &missing(2), &missing(2)).is_ok());
    let linked = vec![OnPath::Symlink];
    assert!(check_entry("a.tar", "/out", nothing_unpacked(), &hard, &missing(2), &linked).is_err());
    assert!(escaped_entry("a/b").contains("a/b"));
}

#[test]
fn unpacked_files_stay_below_the_limit() {
    assert!(verify_disk_size(&vec![1, 2, 3], 6).is_ok());
    assert!(verify_disk_size(&vec![1, 2, 4], 6).is_err());
    assert!(verify_disk_size(&vec![u64::MAX, u64::MAX], u64::MAX).is_ok());
}

#[test]
fn archives_are_unpacked_by_the_tool_of_their_ending() {
    let zst = decompressor("/c/a.pkg.tar.zst");
    let xz = decompressor("/c/a.pkg.tar.xz");
    assert_ne!(zst.program, xz.program);
    assert!(zst.args.contains(&"/c/a.pkg.tar.zst".to_string()));
}

#[test]
fn download_test_is_safe_tar_entry() {
    assert!(is_safe_tar_entry("usr/bin/foo"));
    assert!(is_safe_tar_entry("etc/config.toml"));
    assert!(!is_safe_tar_entry("/etc/shadow"));
    assert!(!is_safe_tar_entry("../../../etc/shadow"));
    assert!(!is_safe_tar_entry("usr/../bin/foo"));
}

#[test]
fn test_is_safe_link_destination() {
    assert!(is_safe_link_destination("usr/bin/foo", "bar"));
    assert!(is_safe_link_destination("usr/bin/foo", "../lib/libfoo.so"));
    assert!(!is_safe_link_destination("usr/bin/foo", "../../../etc/shadow"));
    assert!(!is_safe_link_destination("usr/bin/foo", "/etc/shadow"));
}

#[test]
fn test_validate_symlink_traversal_safe() {
    let chains = vec![chain("/tmp/root/usr/bin/link_bin", &["target_bin"])];
    assert!(validate_symlink_traversal("/tmp/root", &chains, 32).is_ok());
}

#[test]
fn test_validate_symlink_traversal_cycle_rejected() {
    let chains = vec![
        chain("/tmp/root/usr/bin/loop_a", &["loop_b", "loop_a", "loop_b"]),
        chain("/tmp/root/usr/bin/loop_b", &["loop_a", "loop_b", "loop_a"]),
    ];
    let res = validate_symlink_traversal("/tmp/root", &chains, 32);
    assert!(res.is_err());
    assert!(res.unwrap_err().contains("Circular symlink loop"));
}

#[test]
fn test_validate_symlink_traversal_escaping_rejected() {
    let chains = vec![chain(
        "/tmp/root/usr/bin/bad_link",
        &["../../../../../../../../../etc/passwd"],
    )];
    let res = validate_symlink_traversal("/tmp/root", &chains, 32);
    assert!(res.is_err());
    assert!(res.unwrap_err().contains("outside sandbox root"));
}

#[test]
fn a_chain_of_links_ends_at_its_last_target() {
    let targets: Vec<String> = vec!["b".to_string(), "../c".to_string()];
    assert_eq!(follow_links("/r", "/r/d/a", &targets, 32).unwrap(), "/r/c");
    assert!(follow_links("/r", "/r/d/a", &targets, 1).is_err());
}

#[test]
fn test_parse_pkgname_from_filename() {
    let name = |f: &str| parse_pkgname_from_filename(f);
    assert_eq!(name("gcc-14.2.1-1-x86_64.pkg.tar.zst").as_deref(), Some("gcc"));
    assert_eq!(name("gcc-libs-14.2.1-1-x86_64.pkg.tar.zst").as_deref(), Some("gcc-libs"));
    assert_eq!(
        name("linux-headers-6.10.1.arch1-1-x86_64.pkg.tar.zst").as_deref(),
        Some("linux-headers")
    );
    assert_eq!(name("linux-6.10.1.arch1-1-x86_64.pkg.tar.xz").as_deref(), Some("linux"));
    assert_eq!(name("python-pip-24.0-1-any.pkg.tar.gz").as_deref(), Some("python-pip"));
    assert_eq!(name("malformed"), None);
}

#[test]
fn test_hardlink_escape_rejected() {
    let bad_hl = "hrw-r--r-- 0/0 0 1970-01-01 05:30 usr/bin/bad link to ../etc/shadow";
    assert!(is_safe_tar_listing_line(bad_hl).is_err());

    let bad_hl_abs = "hrw-r--r-- 0/0 0 1970-01-01 05:30 usr/bin/bad link to /etc/shadow";
    assert!(is_safe_tar_listing_line(bad_hl_abs).is_err());

    let good_hl = "hrw-r--r-- 0/0 0 1970-01-01 05:30 usr/bin/good link to usr/bin/orig";
    assert!(is_safe_tar_listing_line(good_hl).is_ok());
}

#[test]
fn test_tar_trick_names_rejected() {
    let tricky_symlink = "lrwxrwxrwx 0/0 0 1970-01-01 05:30 a -> b -> ../etc/passwd";
    assert!(is_safe_tar_listing_line(tricky_symlink).is_err());

    let tricky_symlink_deep =
        "lrwxrwxrwx 0/0 0 1970-01-01 05:30 usr/share/x -> y -> ../../../etc/shadow";
    assert!(is_safe_tar_listing_line(tricky_symlink_deep).is_err());

    let tricky_hardlink = "hrw-r--r-- 0/0 0 1970-01-01 05:30 a link to b link to /etc/shadow";
    assert!(is_safe_tar_listing_line(tricky_hardlink).is_err());

    let tricky_regular = "-rw-r--r-- 0/0 0 1970-01-01 05:30 usr/share/doc/a -> b.txt";
    assert!(is_safe_tar_listing_line(tricky_regular).is_ok());
}

#[test]
fn sandbox_test_is_safe_tar_entry() {
    assert!(is_safe_tar_entry(".PKGINFO"));
    assert!(is_safe_tar_entry(".BUILDINFO"));
    assert!(is_safe_tar_entry("usr/bin/jq"));
    assert!(is_safe_tar_entry("./usr/bin/jq"));
    assert!(is_safe_tar_entry("usr/share/man/man1/jq.1.gz"));
    assert!(is_safe_tar_entry(".hidden/file"));
    assert!(is_safe_tar_entry(""));

    // Unsafe entries
    assert!(!is_safe_tar_entry("/etc/shadow"));
    assert!(!is_safe_tar_entry("/usr/bin/jq"));
    assert!(!is_safe_tar_entry("../../../etc/shadow"));
    assert!(!is_safe_tar_entry("usr/bin/../../etc/passwd"));
    assert!(!is_safe_tar_entry("usr/bin/.."));
    assert!(!is_safe_tar_entry(".."));
    assert!(!is_safe_tar_entry("\\etc\\shadow"));
    assert!(!is_safe_tar_entry("..\\..\\windows\\system32"));
}

#[test]
fn test_is_safe_tar_listing_line() {
    // Safe regular file
    let regular = "-rwxr-xr-x 0/0 12345 2026-09-01 12:00 usr/bin/jq";
    let res = is_safe_tar_listing_line(regular).unwrap();
    assert_eq!(res.0, "usr/bin/jq");
    assert_eq!(res.1, 12345);

    // Safe relative symlink
    let symlink = "lrwxrwxrwx 0/0 0 2026-09-01 12:00 usr/bin/jq-sym -> jq";
    let res = is_safe_tar_listing_line(symlink).unwrap();
    assert_eq!(res.0, "usr/bin/jq-sym");

    // Safe relative hardlink
    let hardlink = "hrwxr-xr-x 0/0 0 2026-09-01 12:00 usr/bin/jq-link link to usr/bin/jq";
    let res = is_safe_tar_listing_line(hardlink).unwrap();
    assert_eq!(res.0, "usr/bin/jq-link");

    // Unsafe absolute symlink
    let bad_symlink = "lrwxrwxrwx 0/0 0 2026-09-01 12:00 usr/bin/bad -> /etc/shadow";
    assert!(is_safe_tar_listing_line(bad_symlink).is_err());

    // Unsafe path traversal symlink (exceeds root)
    let escaping_symlink =
        "lrwxrwxrwx 0/0 0 2026-09-01 12:00 usr/bin/bad -> ../../../etc/passwd";
    assert!(is_safe_tar_listing_line(escaping_symlink).is_err());

    // Safe deep internal relative symlink
    let deep_internal_symlink = "lrwxrwxrwx 0/0 0 2026-09-01 12:00 usr/lib/rustlib/x86_64-unknown-linux-gnu/bin/gcc-ld/ld.lld -> ../../../../../bin/ld.lld";
    assert!(is_safe_tar_listing_line(deep_internal_symlink).is_ok());

    // Unsafe escaping symlink from deep directory
    let deep_escaping_symlink = "lrwxrwxrwx 0/0 0 2026-09-01 12:00 usr/lib/rustlib/x86_64-unknown-linux-gnu/bin/gcc-ld/ld.lld -> ../../../../../../../etc/shadow";
    assert!(is_safe_tar_listing_line(deep_escaping_symlink).is_err());

    // Unsafe hardlink
    let bad_hardlink = "hrwxr-xr-x 0/0 0 2026-09-01 12:00 usr/bin/bad link to /etc/shadow";
    assert!(is_safe_tar_listing_line(bad_hardlink).is_err());
}

#[test]
fn paths_fall_apart_at_their_slashes() {
    let parts = split_slashes("usr//./bin/");
    assert_eq!(parts, vec!["usr", "", ".", "bin", ""]);
    assert_eq!(only_steps(&parts), vec!["usr", "bin"]);
    assert_eq!(is_safe_tar_listing_line("short line"), Ok(("line".to_string(), 0)));
    assert_eq!(is_safe_tar_listing_line("short ../x"), Err("Unsafe archive path: ../x".to_string()));
    assert_eq!(is_safe_tar_listing_line(" "), Ok((String::new(), 0)));
}

#[test]
fn names_are_read_back_from_every_kind_of_archive() {
    for end in [".pkg.tar.zst", ".pkg.tar.xz", ".pkg.tar.gz", ".pkg.tar.bz2"] {
        let file = format!("lib32-mesa-1:25.0-2-x86_64{}", end);
        assert_eq!(parse_pkgname_from_filename(&file).as_deref(), Some("lib32-mesa"));
    }
}
