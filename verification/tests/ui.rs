//! What is shown: widths, sizes, menus and pages.
use pacpin::checkbox_view::{frame, make_centered, make_rule, render_checkbox_ui};
use pacpin::repo_menu::{
    is_repo_name, open_repo_menu, render_menu_ui, repo_box_width, run_repo_menu, RepoStep,
};
use pacpin::resolver::{CandidatePackage, ResolveResult, ResolvedPackage};
use pacpin::style::{padded_end, padded_start, repeat_char, Line, Page, Style};
use pacpin::transaction::{card_line, render_transaction_view, CARD_WIDTH};
use pacpin::tui_select::{
    matching_items, menu_layout, open_menu, prepare, run_checkbox_menu, CheckboxItem, Key, Menu,
    MenuEvent, MenuStep, MENU_FIXED_ROWS,
};
use pacpin::ui::{
    char_width, choice_lines, format_delta_text, format_size, parse_selection_indices,
    prompt_items_selection, prompt_multiselect, str_width, truncate_str,
};

fn to_vec(slice: &[&str]) -> Vec<String> {
    slice.iter().map(|s| s.to_string()).collect()
}

fn plain(page: &Page) -> String {
    page.lines.iter().map(|l| l.plain()).collect::<Vec<_>>().join("\n")
}

#[test]
fn inline_menu_keeps_history_visible() {
    assert_eq!(menu_layout(24, 50), (4, 8));
    assert_eq!(menu_layout(40, 50), (15, 13));
    assert_eq!(menu_layout(24, 2), (2, 10));
}

#[test]
fn test_checkbox_item_creation() {
    let item = CheckboxItem::new("libyaml", "libyaml", "0.8 MiB [Pure]", true, true);
    assert_eq!(item.id, "libyaml");
    assert_eq!(item.label, "libyaml");
    assert!(item.is_pure);
    assert!(item.checked);
}

fn press(m: &mut Menu, c: char) -> MenuStep {
    let matching = matching_items(&m.items, &m.search_query);
    run_checkbox_menu(m, &matching, 5, MenuEvent::Key(Key::Char(c), false))
}

#[test]
fn test_batch_toggle_all_and_none() {
    let items = vec![
        CheckboxItem::new("a", "a", "", true, false),
        CheckboxItem::new("b", "b", "", false, false),
        CheckboxItem::new("c", "c", "", true, false),
    ];
    let mut m = open_menu(items, true, 40).unwrap();

    // Select All
    press(&mut m, 'a');
    assert!(m.items.iter().all(|i| i.checked));

    // Select None
    press(&mut m, 'n');
    assert!(m.items.iter().all(|i| !i.checked));

    // Select Pure Only
    press(&mut m, 'p');
    assert!(m.items[0].checked);
    assert!(!m.items[1].checked);
    assert!(m.items[2].checked);

    // Invert
    press(&mut m, 'i');
    assert!(!m.items[0].checked);
    assert!(m.items[1].checked);
    assert!(!m.items[2].checked);
}

#[test]
fn keys_move_and_confirm() {
    let items = vec![
        CheckboxItem::new("a", "Alpha", "", true, true),
        CheckboxItem::new("b", "Beta", "", false, false),
    ];
    let mut m = open_menu(items, true, 40).unwrap();
    let all = matching_items(&m.items, "");
    run_checkbox_menu(&mut m, &all, 5, MenuEvent::Key(Key::Down, false));
    assert_eq!(m.selected, 1);
    run_checkbox_menu(&mut m, &all, 5, MenuEvent::Key(Key::Char(' '), false));
    match run_checkbox_menu(&mut m, &all, 5, MenuEvent::Key(Key::Enter, false)) {
        MenuStep::Confirm(ids) => assert_eq!(ids, vec!["a", "b"]),
        _ => panic!("not confirmed"),
    }
    assert!(matches!(
        run_checkbox_menu(&mut m, &all, 5, MenuEvent::Key(Key::Esc, false)),
        MenuStep::Cancel
    ));
    assert_eq!(matching_items(&m.items, "BET"), vec![1]);
    assert_eq!(matching_items(&m.items, "ÄLP"), Vec::<usize>::new());
    let picture = prepare(&mut m, 80, 24);
    assert_eq!(picture.matching, vec![0, 1]);
    assert!(open_menu(Vec::new(), true, 40).is_none());
    assert!(open_menu(vec![CheckboxItem::new("a", "a", "", true, true)], false, 40).is_none());
}

#[test]
fn test_multibyte_utf8_truncation() {
    let label = "🚀🦀日本語ラベル";
    let truncated = truncate_str(label, 5);
    assert!(truncated.ends_with('…'));
    assert!(str_width(&truncated) <= 5);

    let desc = "这是一个很长的描述字符串用于测试中文字符截断边界";
    let desc_trunc = truncate_str(desc, 10);
    assert!(desc_trunc.ends_with('…'));
    assert!(str_width(&desc_trunc) <= 10);
}

#[test]
fn test_render_checkbox_ui_box_alignment() {
    let items = vec![
        CheckboxItem::new("libyaml", "libyaml", "0.8 MiB — YAML 1.1 parser", true, true),
        CheckboxItem::new(
            "python-pillow",
            "python-pillow",
            "1.2 MiB (for: gimp, krita) — Python Imaging Library",
            false,
            false,
        ),
        CheckboxItem::new(
            "unicode-test",
            "unicode-🚀-pkg",
            "4.5 MiB — 测试中文与EM-DASH—符号",
            true,
            false,
        ),
    ];

    for box_width in [72, 80, 88, 100] {
        let matching = vec![0, 1, 2];
        let page = render_checkbox_ui(
            "SELECT ORPHANED PACKAGES TO REMOVE",
            "Pure orphans are pre-selected ([x]). Optional plugins are unchecked ([ ]).",
            &items,
            &matching,
            0,
            0,
            5,
            box_width,
            false,
            "",
        );
        assert_eq!(page.lines.len(), MENU_FIXED_ROWS + 5);
        let lines: Vec<String> =
            page.lines.iter().map(|l| l.plain()).filter(|l| !l.is_empty()).collect();
        assert!(!lines.is_empty());
        for line in lines {
            let w = str_width(&line);
            assert_eq!(
                w, box_width,
                "Line '{}' has display width {} instead of expected {} for box_width {}",
                line, w, box_width, box_width
            );
        }
    }
}

#[test]
fn test_card_line_alignment() {
    let card_inner_w = CARD_WIDTH;
    assert_eq!(card_inner_w, 58);
    let test_cases = vec![
        ("📦 Packages to Upgrade : ", "1 (0 custom, 1 default)"),
        ("⏸ Packages Held Back  : ", "1 packages"),
        ("📥 Total Download Size : ", "2.30 MiB"),
        ("💾 Total Install Size  : ", "7.60 MiB"),
        ("📊 Net Space Delta     : ", "+601.3 KiB"),
    ];

    let top_border = format!("  ┌{}┐", "─".repeat(card_inner_w));
    let expected_width = str_width(&top_border);

    for (label, val) in test_cases {
        let line = card_line(label, val, Style::Plain).plain();
        let pad = card_inner_w - str_width(label) - str_width(val) - 2;
        assert_eq!(line, format!("  │ {}{}{} │", label, " ".repeat(pad), val));
        assert_eq!(
            str_width(&line),
            expected_width,
            "Line '{}' visual width mismatch: got {}, expected {}",
            label,
            str_width(&line),
            expected_width
        );
    }
}

#[test]
fn test_parse_selection_indices() {
    let items = to_vec(&["pkgA", "pkgB", "pkgC", "pkgD"]);

    assert_eq!(parse_selection_indices("", &items), items);
    assert_eq!(parse_selection_indices("all", &items), items);
    assert_eq!(parse_selection_indices("ALL", &items), items);
    assert_eq!(parse_selection_indices("none", &items), Vec::<String>::new());
    assert_eq!(parse_selection_indices("^", &items), Vec::<String>::new());

    assert_eq!(parse_selection_indices("1 3", &items), vec!["pkgA", "pkgC"]);
    assert_eq!(parse_selection_indices("1-2", &items), vec!["pkgA", "pkgB"]);
    assert_eq!(parse_selection_indices("2-4", &items), vec!["pkgB", "pkgC", "pkgD"]);
    assert_eq!(parse_selection_indices("^2", &items), vec!["pkgA", "pkgC", "pkgD"]);
}

#[test]
fn selections_out_of_range_select_nothing() {
    let items = to_vec(&["a", "b"]);
    assert_eq!(parse_selection_indices("7", &items), Vec::<String>::new());
    assert_eq!(parse_selection_indices("0", &items), Vec::<String>::new());
    assert_eq!(prompt_items_selection(Some("2"), &items), vec!["b"]);
    assert_eq!(choice_lines(&items), vec!["   1) a  2) b"]);
    assert!(!prompt_multiselect("T", "extra", &items).lines.is_empty());
}

/// A size as a floating-point computation shows it.
fn size_by_float(bytes_val: i64) -> String {
    let abs_val = bytes_val.abs() as f64;
    if abs_val < 1024.0 {
        format!("{} B", bytes_val)
    } else if abs_val < 1024.0 * 1024.0 {
        format!("{:.1} KiB", (bytes_val as f64) / 1024.0)
    } else if abs_val < 1024.0 * 1024.0 * 1024.0 {
        format!("{:.2} MiB", (bytes_val as f64) / (1024.0 * 1024.0))
    } else {
        format!("{:.2} GiB", (bytes_val as f64) / (1024.0 * 1024.0 * 1024.0))
    }
}

#[test]
fn sizes_are_shown_in_their_units() {
    assert_eq!(format_size(0), "0 B");
    assert_eq!(format_size(-1023), "-1023 B");
    assert_eq!(format_size(1536), "1.5 KiB");
    assert_eq!(format_size(2_411_725), "2.30 MiB");
    assert_eq!(format_size(1 << 40), "1024.00 GiB");
    // Ties, numbers at the edges of the units, and numbers that a double cannot hold
    for shift in 0..63 {
        for add in -3..=3 {
            for mul in [1i64, 3, 5, 25, 125, 625] {
                let n = match (1i64 << shift).checked_mul(mul) {
                    Some(n) => n.saturating_add(add),
                    None => i64::MAX - add.abs(),
                };
                if n != i64::MIN {
                    assert_eq!(format_size(n), size_by_float(n));
                    assert_eq!(format_size(-n), size_by_float(-n));
                }
            }
        }
    }
    let mut x: u64 = 0x9e37_79b9_7f4a_7c15;
    for _ in 0..20_000 {
        x ^= x << 13;
        x ^= x >> 7;
        x ^= x << 17;
        let n = ((x >> 1) >> (x % 63)) as i64;
        assert_eq!(format_size(n), size_by_float(n));
    }
    assert_eq!(format_delta_text(615_731), ("+601.3 KiB".to_string(), Style::Yellow));
    assert_eq!(format_delta_text(-1024), ("-1.0 KiB".to_string(), Style::Green));
    assert_eq!(format_delta_text(0), ("~0 B".to_string(), Style::Gray));
}

#[test]
fn widths_of_characters_add_up() {
    assert_eq!(char_width('a'), 1);
    assert_eq!(char_width('日'), 2);
    assert_eq!(str_width("a日"), str_width("a") + str_width("日"));
    assert_eq!(truncate_str("short", 10), "short");
    assert_eq!(str_width(&padded_end("ab", 5)), 5);
    assert_eq!(padded_start("ab", 4), "  ab");
    assert_eq!(repeat_char('─', 3), "───");
    assert_eq!(str_width(&make_rule("┌", "┐", 10).plain()), 12);
    assert_eq!(make_centered("日本", Style::Bold, 10).plain(), "   日本");
    assert_eq!(str_width(&frame(Line::new().with("x", Style::Red), 10).plain()), 12);
}

#[test]
fn repositories_are_moved_and_moved_back() {
    let mut m = open_repo_menu(&to_vec(&["core", "extra", "multilib"]));
    run_repo_menu(&mut m, Key::Down, false, true);
    assert_eq!(m.repos, vec!["extra", "core", "multilib"]);
    run_repo_menu(&mut m, Key::Up, false, true);
    assert_eq!(m.repos, vec!["core", "extra", "multilib"]);
    match run_repo_menu(&mut m, Key::Enter, false, false) {
        RepoStep::Save(order) => assert_eq!(order, m.repos),
        _ => panic!("not saved"),
    }
    assert!(matches!(run_repo_menu(&mut m, Key::Esc, false, false), RepoStep::Cancel));
    assert!(is_repo_name("chaotic-aur") && !is_repo_name("a b") && !is_repo_name(""));
    let width = repo_box_width(80);
    for line in render_menu_ui(&m, width).lines {
        let text = line.plain();
        assert!(text.is_empty() || str_width(&text) <= width + 4);
    }
}

fn update(name: &str, state: &str, net_delta: Option<i64>) -> ResolvedPackage {
    ResolvedPackage {
        name: name.to_string(),
        state: state.to_string(),
        pinned_repo: None,
        installed_ver: "1.0-1".to_string(),
        installed_size: 100,
        installed_db: "core".to_string(),
        candidate: Some(CandidatePackage {
            name: name.to_string(),
            version: "2.0-1".to_string(),
            repo: "core".to_string(),
            base: name.to_string(),
            csize: 1024,
            isize: 2048,
            desc: "".to_string(),
            builddate: 1000,
            is_aur: false,
            depends: Vec::new(),
        }),
        natural_top_repo: None,
        diverted_from_top: false,
        needs_update: true,
        update_type: "upgrade".to_string(),
        is_downgrade: false,
        net_delta,
        held: false,
        hold_reason: "".to_string(),
    }
}

#[test]
fn the_transaction_is_summed_up() {
    let data = ResolveResult {
        installed_count: 1,
        repos: to_vec(&["core"]),
        packages: Vec::new(),
        updates: vec![update("mesa", "default", Some(1948))],
        held_packages: Vec::new(),
        unresolved_pins: Vec::new(),
    };
    let page = render_transaction_view(&data, "paru", &Vec::new(), false);
    let text = plain(&page);
    assert!(text.contains("mesa"));
    assert!(text.contains("1 (0 custom, 1 default)"));
    assert!(text.contains("2.0-1"));
}

#[test]
fn a_caret_turns_a_selection_round() {
    let items: Vec<String> = (1..=9).map(|i| format!("item{}", i)).collect();
    for list in ["1", "2-4", "1 3, 9", "9-7 2", "x", "0 10", "none", "NoNe", " "] {
        let some = parse_selection_indices(list, &items);
        let others = parse_selection_indices(&format!("^{}", list), &items);
        assert!(items.iter().all(|i| some.contains(i) != others.contains(i)));
        let place = |i: &String| items.iter().position(|x| x == i);
        assert!(some.windows(2).all(|w| place(&w[0]) < place(&w[1])));
        assert!(others.windows(2).all(|w| place(&w[0]) < place(&w[1])));
    }
}
