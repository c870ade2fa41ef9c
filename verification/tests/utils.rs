//! The rules on names, versions and patterns, and what is shown on a terminal.
use pacpin::journal::TransactionJournal;
use pacpin::utils::{
    is_kernel_package, is_safe_install_target, is_safe_pattern, is_safe_pkg_name, is_safe_version,
    kernel_packages, sanitize_display_text, shell_quote,
};

#[test]
fn utils_test_is_safe_pkg_name() {
    assert!(is_safe_pkg_name("linux"));
    assert!(is_safe_pkg_name("linux-cachyos"));
    assert!(is_safe_pkg_name("lib32-glibc"));
    assert!(is_safe_pkg_name("python@3.12"));
    assert!(is_safe_pkg_name("gcc-libs"));

    assert!(!is_safe_pkg_name(""));
    assert!(!is_safe_pkg_name("../etc/passwd"));
    assert!(!is_safe_pkg_name("foo/bar"));
    assert!(!is_safe_pkg_name("foo\\bar"));
    assert!(!is_safe_pkg_name("foo;rm"));
    assert!(!is_safe_pkg_name("foo*"));
    assert!(!is_safe_pkg_name("pkg name"));
    assert!(!is_safe_pkg_name("-badname"));
    assert!(!is_safe_pkg_name(".badname"));
}

#[test]
fn test_is_safe_install_target() {
    assert!(is_safe_install_target("ollama"));
    assert!(is_safe_install_target("extra/ollama"));
    assert!(is_safe_install_target("cachyos/linux-cachyos"));
    assert!(is_safe_install_target("lib32-glibc"));

    assert!(!is_safe_install_target(""));
    assert!(!is_safe_install_target("-S"));
    assert!(!is_safe_install_target("--config=/tmp/bad"));
    assert!(!is_safe_install_target("-bad"));
    assert!(!is_safe_install_target(".bad"));
    assert!(!is_safe_install_target("extra/"));
    assert!(!is_safe_install_target("/ollama"));
    assert!(!is_safe_install_target("extra/../etc/passwd"));
    assert!(!is_safe_install_target("extra/sub/pkg"));
    assert!(!is_safe_install_target("ollama;rm -rf /"));
}

#[test]
fn test_sanitize_display_text() {
    assert_eq!(sanitize_display_text("Normal text"), "Normal text");
    assert_eq!(sanitize_display_text("Line 1\nLine 2"), "Line 1\nLine 2");
    assert_eq!(
        sanitize_display_text("Emojis: 🚀 and symbols: — ✔"),
        "Emojis: 🚀 and symbols: — ✔"
    );

    // ANSI color escapes
    assert_eq!(sanitize_display_text("\x1b[31mRed Text\x1b[0m"), "Red Text");
    // Cursor movement / clear screen
    assert_eq!(sanitize_display_text("\x1b[2J\x1b[HClear"), "Clear");
    // OSC hyperlink
    assert_eq!(
        sanitize_display_text("\x1b]8;;https://malicious.link\x07Click Here\x1b]8;;\x07"),
        "Click Here"
    );
    // C0 control chars
    assert_eq!(sanitize_display_text("Bell\x07 and Backspace\x08"), "Bell and Backspace");
}

#[test]
fn sanitizing_again_changes_nothing() {
    for s in ["a\x1b[1mb\x07c\u{9b}31md", "\x1b]0;t\x1b\\x", "\x1b", "tab\there\n"] {
        let once = sanitize_display_text(s);
        assert_eq!(sanitize_display_text(&once), once);
        assert!(!once.contains('\x1b') && !once.contains('\x07'));
    }
}

#[test]
fn utils_test_is_safe_version() {
    assert!(is_safe_version("6.13.4-1"));
    assert!(is_safe_version("1:2.35.2-2.1"));
    assert!(!is_safe_version("1.0; rm -rf /"));
    assert!(!is_safe_version(""));
}

#[test]
fn test_shell_quote() {
    assert_eq!(shell_quote("simple"), "'simple'");
    assert_eq!(shell_quote("with space"), "'with space'");
    assert_eq!(shell_quote("it's"), "'it'\\''s'");
    assert_eq!(shell_quote("; rm -rf /"), "'; rm -rf /'");
}

#[test]
fn test_is_kernel_package() {
    assert!(is_kernel_package("linux"));
    assert!(is_kernel_package("linux-headers"));
    assert!(is_kernel_package("linux-lts"));
    assert!(is_kernel_package("linux-zen"));
    assert!(is_kernel_package("linux-cachyos"));
    assert!(is_kernel_package("linux-cachyos-bore"));
    assert!(is_kernel_package("linux-xanmod"));
    assert!(!is_kernel_package("linux-firmware"));
    assert!(!is_kernel_package("util-linux"));
}

#[test]
fn every_listed_kernel_is_a_kernel() {
    let all = kernel_packages();
    assert!(!all.is_empty());
    for k in all {
        assert!(is_kernel_package(k));
    }
}

#[test]
fn test_is_safe_pattern() {
    assert!(is_safe_pattern("linux*"));
    assert!(is_safe_pattern("linux-*"));
    assert!(is_safe_pattern("*nvidia*"));
    assert!(is_safe_pattern("mesa?"));
    assert!(!is_safe_pattern(""));
    assert!(!is_safe_pattern("; rm -rf /"));
    assert!(!is_safe_pattern("../foo"));
    assert!(!is_safe_pattern("/etc/*"));
}

#[test]
fn a_safe_name_is_a_safe_pattern_and_has_no_separator() {
    for name in ["linux", "python@3.12", "a+b_c.d"] {
        assert!(is_safe_pkg_name(name) && is_safe_pattern(name) && !name.contains('/'));
    }
}

#[test]
fn journal_test_is_safe_pkg_name() {
    assert!(TransactionJournal::is_safe_pkg_name("linux"));
    assert!(TransactionJournal::is_safe_pkg_name("linux-cachyos"));
    assert!(TransactionJournal::is_safe_pkg_name("lib32-glibc"));
    assert!(TransactionJournal::is_safe_pkg_name("python@3.12"));
    assert!(TransactionJournal::is_safe_pkg_name("gcc-libs"));

    assert!(!TransactionJournal::is_safe_pkg_name(""));
    assert!(!TransactionJournal::is_safe_pkg_name("../etc/passwd"));
    assert!(!TransactionJournal::is_safe_pkg_name("foo/bar"));
    assert!(!TransactionJournal::is_safe_pkg_name("foo\\bar"));
    assert!(!TransactionJournal::is_safe_pkg_name("foo;rm"));
    assert!(!TransactionJournal::is_safe_pkg_name("foo*"));
    assert!(!TransactionJournal::is_safe_pkg_name("pkg name"));
}

#[test]
fn journal_test_is_safe_version() {
    assert!(TransactionJournal::is_safe_version("1.2.3"));
    assert!(TransactionJournal::is_safe_version("20260916-1"));
    assert!(TransactionJournal::is_safe_version("1:2.3-1"));
    assert!(TransactionJournal::is_safe_version("2.4.0~rc1"));

    assert!(!TransactionJournal::is_safe_version(""));
    assert!(!TransactionJournal::is_safe_version("../../foo"));
    assert!(!TransactionJournal::is_safe_version("1.0/2"));
    assert!(!TransactionJournal::is_safe_version("1.0;rm -rf"));
}
