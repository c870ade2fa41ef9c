//! The menu that orders the repositories: its keys and its picture.
use crate::checkbox_view::make_rule;
use crate::checkbox_view;
use crate::patterns;
use crate::style::{Line, Page, Style, padded_start, repeat_char};
use crate::style;
use crate::text::{ascii_word, chars_of, clone_strings, drop_last_char, list_contains, no_strings, number_text, push_str, text2, text3, trimmed};
use crate::text;
use crate::tui_select::Key;
use crate::tui_select;
use vstd::prelude::*;
use vstd::string::*;

verus! {

// ---------------------------------------------------------------------------------------
// State

/// The menu while it is open.
#[derive(Debug, Clone)]
pub struct RepoMenu {
    pub repos: Vec<String>,
    pub selected: usize,
    pub adding_mode: bool,
    pub add_input: String,
    /// What was last reported, and whether it is an error.
    pub status_msg: Option<(String, bool)>,
}

#[verifier::ext_equal]
pub struct RepoMenuView {
    pub repos: Seq<Seq<char>>,
    pub selected: int,
    pub adding: bool,
    pub input: Seq<char>,
    pub status: Option<(Seq<char>, bool)>,
}

pub open spec fn status_view(s: Option<(String, bool)>) -> Option<(Seq<char>, bool)> {
    match s {
        Some((t, e)) => Some((t@, e)),
        None => None,
    }
}

impl View for RepoMenu {
    type V = RepoMenuView;

    open spec fn view(&self) -> RepoMenuView {
        RepoMenuView {
            repos: text::texts(self.repos@),
            selected: self.selected as int,
            adding: self.adding_mode,
            input: self.add_input@,
            status: status_view(self.status_msg),
        }
    }
}

impl RepoMenuView {
    /// There is a repository, and one of them is marked.
    pub open spec fn valid(self) -> bool {
        0 <= self.selected < self.repos.len()
    }
}

/// Opens the menu; without repositories it starts with the usual ones.
pub fn open_repo_menu(initial_repos: &Vec<String>) -> (r: RepoMenu)
    ensures
        r@ == (RepoMenuView {
            repos: if initial_repos@.len() == 0 {
                Seq::empty().push("core"@).push("extra"@).push("multilib"@)
            } else {
                text::texts(initial_repos@)
            },
            selected: 0,
            adding: false,
            input: Seq::empty(),
            status: None,
        }),
        r@.valid(),
{
    let repos = if initial_repos.len() == 0 {
        let mut v = no_strings();
        push_str(&mut v, "core");
        push_str(&mut v, "extra");
        push_str(&mut v, "multilib");
        assert(text::texts(v@) =~= Seq::empty().push("core"@).push("extra"@).push("multilib"@));
        v
    } else {
        clone_strings(initial_repos)
    };
    assert(text::texts(repos@).len() == repos@.len());
    let m = RepoMenu {
        repos,
        selected: 0,
        adding_mode: false,
        add_input: String::new(),
        status_msg: None,
    };
    assert(m@.input =~= Seq::<char>::empty());
    m
}

// ---------------------------------------------------------------------------------------
// Keys

/// What an event does.
#[derive(Debug, Clone)]
pub enum RepoStep {
    Stay,
    Cancel,
    /// Save the repositories in this order.
    Save(Vec<String>),
}

pub open spec fn repo_char(c: char) -> bool {
    text::is_ascii_word(c) || c == '-' || c == '_'
}

/// A name that a repository can have.
pub open spec fn repo_name(s: Seq<char>) -> bool {
    s.len() > 0 && forall|i: int| 0 <= i < s.len() ==> repo_char(#[trigger] s[i])
}

pub fn is_repo_name(s: &str) -> (r: bool)
    ensures
        r == repo_name(s@),
{
    let cs = chars_of(s);
    let mut i: usize = 0;
    while i < cs.len()
        invariant
            i <= cs@.len(),
            cs@ == s@,
            forall|j: int| 0 <= j < i ==> repo_char(#[trigger] s@[j]),
        decreases cs@.len() - i,
    {
        if !(ascii_word(cs[i]) || cs[i] == '-' || cs[i] == '_') {
            assert(!repo_char(s@[i as int]));
            return false;
        }
        i += 1;
    }
    cs.len() > 0
}

/// What a key does while a name is typed.
pub open spec fn adding_key(m: RepoMenuView, key: Key) -> RepoMenuView {
    match key {
        Key::Enter => {
            let name = text::trim(m.input);
            if !repo_name(name) {
                RepoMenuView {
                    status: Some(
                        (
                            "Invalid name: use only letters, numbers, hyphens, and underscores"@,
                            true,
                        ),
                    ),
                    ..m
                }
            } else if m.repos.contains(name) {
                RepoMenuView {
                    status: Some(
                        ("Repository '["@ + name + "]' is already in the list"@, true),
                    ),
                    ..m
                }
            } else {
                RepoMenuView {
                    repos: m.repos.insert(m.selected + 1, name),
                    selected: m.selected + 1,
                    adding: false,
                    input: Seq::empty(),
                    status: Some(("Added repository '["@ + name + "]'"@, false)),
                }
            }
        },
        Key::Esc => RepoMenuView { adding: false, input: Seq::empty(), status: None, ..m },
        Key::Backspace => RepoMenuView {
            input: if m.input.len() > 0 {
                m.input.drop_last()
            } else {
                m.input
            },
            ..m
        },
        Key::Char(c) => if patterns::byte_len(m.input) < 32 && repo_char(c) {
            RepoMenuView { input: m.input.push(c), ..m }
        } else {
            m
        },
        _ => m,
    }
}

pub open spec fn swapped(v: Seq<Seq<char>>, i: int, j: int) -> Seq<Seq<char>> {
    v.update(i, v[j]).update(j, v[i])
}

/// The marked repository moves one place up, if there is one.
pub open spec fn moved_up(m: RepoMenuView) -> RepoMenuView {
    if m.selected > 0 {
        RepoMenuView {
            repos: swapped(m.repos, m.selected, m.selected - 1),
            selected: m.selected - 1,
            status: None,
            ..m
        }
    } else {
        RepoMenuView { status: None, ..m }
    }
}

/// The marked repository moves one place down, if there is one.
pub open spec fn moved_down(m: RepoMenuView) -> RepoMenuView {
    if m.selected + 1 < m.repos.len() {
        RepoMenuView {
            repos: swapped(m.repos, m.selected, m.selected + 1),
            selected: m.selected + 1,
            status: None,
            ..m
        }
    } else {
        RepoMenuView { status: None, ..m }
    }
}

/// The marked repository is removed, unless it is the last one.
pub open spec fn deleted(m: RepoMenuView) -> RepoMenuView {
    if m.repos.len() > 1 {
        let left = m.repos.remove(m.selected);
        RepoMenuView {
            repos: left,
            selected: if m.selected >= left.len() {
                left.len() - 1
            } else {
                m.selected
            },
            status: Some(("Removed repository '["@ + m.repos[m.selected] + "]'"@, false)),
            ..m
        }
    } else {
        RepoMenuView { status: Some(("Cannot remove the last repository"@, true)), ..m }
    }
}

/// What a key does to the list.
pub open spec fn list_key(m: RepoMenuView, key: Key, shift: bool) -> RepoMenuView {
    match key {
        Key::Up | Key::Char('k') => if shift {
            moved_up(m)
        } else {
            RepoMenuView { selected: tui_select::at_least(m.selected - 1, 0), status: None, ..m }
        },
        Key::Down | Key::Char('j') => if shift {
            moved_down(m)
        } else {
            RepoMenuView {
                selected: tui_select::at_most(m.selected + 1, m.repos.len() - 1),
                status: None,
                ..m
            }
        },
        Key::Char('+') | Key::Char('=') | Key::Char('K') => moved_up(m),
        Key::Char('-') | Key::Char('_') | Key::Char('J') => moved_down(m),
        Key::Char('a') | Key::Char('A') => RepoMenuView {
            adding: true,
            input: Seq::empty(),
            status: None,
            ..m
        },
        Key::Char('d') | Key::Char('D') | Key::Delete => deleted(m),
        _ => m,
    }
}

pub open spec fn cancels_repos(m: RepoMenuView, key: Key, control: bool) -> bool {
    ||| control && (key == Key::Char('c') || key == Key::Char('C'))
    ||| !m.adding && (key == Key::Esc || key == Key::Char('q') || key == Key::Char('Q'))
}

fn swap_strings(v: &mut Vec<String>, i: usize, j: usize)
    requires
        i < old(v)@.len(),
        j < old(v)@.len(),
    ensures
        text::texts(final(v)@) == swapped(text::texts(old(v)@), i as int, j as int),
{
    let ghost before = text::texts(v@);
    let a = v[i].clone();
    let b = v[j].clone();
    v.set(i, b);
    v.set(j, a);
    assert(text::texts(v@) =~= swapped(before, i as int, j as int));
}

fn move_up(m: &mut RepoMenu)
    requires
        old(m)@.valid(),
    ensures
        final(m)@ == moved_up(old(m)@),
{
    m.status_msg = None;
    if m.selected > 0 {
        swap_strings(&mut m.repos, m.selected, m.selected - 1);
        m.selected -= 1;
    }
}

fn move_down(m: &mut RepoMenu)
    requires
        old(m)@.valid(),
    ensures
        final(m)@ == moved_down(old(m)@),
{
    m.status_msg = None;
    assert(m@.repos.len() == m.repos@.len());
    if m.selected < m.repos.len() - 1 {
        swap_strings(&mut m.repos, m.selected, m.selected + 1);
        m.selected += 1;
    }
}

fn delete_repo(m: &mut RepoMenu)
    requires
        old(m)@.valid(),
    ensures
        final(m)@ == deleted(old(m)@),
{
    let ghost before = text::texts(m.repos@);
    assert(before.len() == m.repos@.len());
    if m.repos.len() > 1 {
        assert(before[m.selected as int] == m.repos@[m.selected as int]@);
        let removed = m.repos.remove(m.selected);
        assert(text::texts(m.repos@) =~= before.remove(m.selected as int));
        if m.selected >= m.repos.len() {
            m.selected = m.repos.len() - 1;
        }
        m.status_msg = Some((text3("Removed repository '[", &removed, "]'"), false));
    } else {
        m.status_msg = Some(("Cannot remove the last repository".to_string(), true));
    }
}

fn do_adding_key(m: &mut RepoMenu, key: Key)
    requires
        old(m)@.valid(),
    ensures
        final(m)@ == adding_key(old(m)@, key),
{
    let _count: usize = m.repos.len();
    assert(m@.repos.len() == _count);
    match key {
        Key::Enter => {
            let name = trimmed(&m.add_input);
            if !is_repo_name(&name) {
                m.status_msg = Some(
                    (
                        "Invalid name: use only letters, numbers, hyphens, and underscores".to_string(),
                        true,
                    ),
                );
            } else if list_contains(&m.repos, &name) {
                m.status_msg = Some(
                    (text3("Repository '[", &name, "]' is already in the list"), true),
                );
            } else {
                let ghost before = text::texts(m.repos@);
                let ghost added = name@;
                m.status_msg = Some((text3("Added repository '[", &name, "]'"), false));
                let at: usize = m.selected + 1;
                m.repos.insert(at, name);
                assert(text::texts(m.repos@) =~= before.insert(at as int, added));
                m.selected = at;
                m.adding_mode = false;
                m.add_input = String::new();
                assert(m.add_input@ =~= Seq::<char>::empty());
            }
        },
        Key::Esc => {
            m.adding_mode = false;
            m.add_input = String::new();
            m.status_msg = None;
            assert(m.add_input@ =~= Seq::<char>::empty());
        },
        Key::Backspace => {
            m.add_input = drop_last_char(&m.add_input);
        },
        Key::Char(c) => {
            if m.add_input.as_str().as_bytes().len() < 32 && (ascii_word(c) || c == '-' || c
                == '_') {
                m.add_input.push(c);
            }
        },
        _ => {},
    }
}

fn do_list_key(m: &mut RepoMenu, key: Key, shift: bool)
    requires
        old(m)@.valid(),
    ensures
        final(m)@ == list_key(old(m)@, key, shift),
{
    assert(m@.repos.len() == m.repos@.len());
    match key {
        Key::Up | Key::Char('k') => {
            if shift {
                move_up(m);
            } else {
                m.status_msg = None;
                if m.selected > 0 {
                    m.selected -= 1;
                }
            }
        },
        Key::Down | Key::Char('j') => {
            if shift {
                move_down(m);
            } else {
                m.status_msg = None;
                if m.selected < m.repos.len() - 1 {
                    m.selected += 1;
                }
            }
        },
        Key::Char('+') | Key::Char('=') | Key::Char('K') => {
            move_up(m);
        },
        Key::Char('-') | Key::Char('_') | Key::Char('J') => {
            move_down(m);
        },
        Key::Char('a') | Key::Char('A') => {
            m.adding_mode = true;
            m.add_input = String::new();
            m.status_msg = None;
            assert(m.add_input@ =~= Seq::<char>::empty());
        },
        Key::Char('d') | Key::Char('D') | Key::Delete => {
            delete_repo(m);
        },
        _ => {},
    }
}

/// Handles one key of the menu.
pub fn run_repo_menu(m: &mut RepoMenu, key: Key, control: bool, shift: bool) -> (r: RepoStep)
    requires
        old(m)@.valid(),
    ensures
        if cancels_repos(old(m)@, key, control) {
            r is Cancel && final(m)@ == old(m)@
        } else if !old(m)@.adding && key == Key::Enter {
            &&& r is Save
            &&& text::texts(r->Save_0@) == old(m)@.repos
            &&& final(m)@ == old(m)@
        } else {
            &&& r is Stay
            &&& final(m)@ == if old(m)@.adding {
                adding_key(old(m)@, key)
            } else {
                list_key(old(m)@, key, shift)
            }
        },
        final(m)@.valid(),
{
    if control && (key == Key::Char('c') || key == Key::Char('C')) {
        return RepoStep::Cancel;
    }
    if m.adding_mode {
        do_adding_key(m, key);
        return RepoStep::Stay;
    }
    if key == Key::Esc || key == Key::Char('q') || key == Key::Char('Q') {
        return RepoStep::Cancel;
    }
    if key == Key::Enter {
        return RepoStep::Save(clone_strings(&m.repos));
    }
    do_list_key(m, key, shift);
    RepoStep::Stay
}

// ---------------------------------------------------------------------------------------
// Laws of the keys

proof fn swap_keeps(v: Seq<Seq<char>>, i: int, j: int)
    requires
        0 <= i < v.len(),
        0 <= j < v.len(),
    ensures
        swapped(v, i, j).len() == v.len(),
        forall|x: Seq<char>| #[trigger] swapped(v, i, j).contains(x) <==> v.contains(x),
        v.no_duplicates() ==> swapped(v, i, j).no_duplicates(),
{
    let w = swapped(v, i, j);
    assert forall|x: Seq<char>| #[trigger] w.contains(x) <==> v.contains(x) by {
        if w.contains(x) {
            let k = choose|k: int| 0 <= k < w.len() && w[k] == x;
            assert(v.contains(v[k]) && v.contains(v[i]) && v.contains(v[j]));
        }
        if v.contains(x) {
            let k = choose|k: int| 0 <= k < v.len() && v[k] == x;
            if k == i {
                assert(w[j] == x);
            } else if k == j {
                assert(w[i] == x);
            } else {
                assert(w[k] == x);
            }
        }
    }
}

/// Moving the marked repository keeps all repositories, whatever the key.
pub proof fn moving_keeps_all_repos(m: RepoMenuView, x: Seq<char>)
    requires
        m.valid(),
    ensures
        moved_up(m).repos.contains(x) <==> m.repos.contains(x),
        moved_down(m).repos.contains(x) <==> m.repos.contains(x),
        moved_up(m).repos.len() == m.repos.len(),
        moved_down(m).repos.len() == m.repos.len(),
{
    if m.selected > 0 {
        swap_keeps(m.repos, m.selected, m.selected - 1);
    }
    if m.selected + 1 < m.repos.len() {
        swap_keeps(m.repos, m.selected, m.selected + 1);
    }
}

/// Moving a repository up and down again leaves everything in its place.
pub proof fn moving_back_is_nothing(m: RepoMenuView)
    requires
        m.valid(),
        m.selected > 0,
    ensures
        moved_down(moved_up(m)).repos == m.repos,
        moved_down(moved_up(m)).selected == m.selected,
{
    assert(moved_down(moved_up(m)).repos =~= m.repos);
}

/// No key lists a repository twice, and none leaves the list empty.
pub proof fn repos_stay_distinct(m: RepoMenuView, key: Key, shift: bool)
    requires
        m.valid(),
        m.repos.no_duplicates(),
    ensures
        list_key(m, key, shift).valid(),
        list_key(m, key, shift).repos.no_duplicates(),
        adding_key(m, key).valid(),
        adding_key(m, key).repos.no_duplicates(),
{
    if m.selected > 0 {
        swap_keeps(m.repos, m.selected, m.selected - 1);
    }
    if m.selected + 1 < m.repos.len() {
        swap_keeps(m.repos, m.selected, m.selected + 1);
    }
    let name = text::trim(m.input);
    if !m.repos.contains(name) {
        let w = m.repos.insert(m.selected + 1, name);
        assert forall|i: int, j: int| 0 <= i < w.len() && 0 <= j < w.len() && i != j implies w[i]
            != w[j] by {
            let a = if i <= m.selected {
                i
            } else {
                i - 1
            };
            let b = if j <= m.selected {
                j
            } else {
                j - 1
            };
            if i == m.selected + 1 {
                assert(m.repos.contains(m.repos[b]));
                assert(w[j] == m.repos[b]);
            } else if j == m.selected + 1 {
                assert(m.repos.contains(m.repos[a]));
                assert(w[i] == m.repos[a]);
            } else {
                assert(w[i] == m.repos[a] && w[j] == m.repos[b]);
            }
        }
    }
}

// ---------------------------------------------------------------------------------------
// Picture

/// The width of the box on a terminal of this width.
pub fn repo_box_width(term_width: usize) -> (r: usize)
    ensures
        r == tui_select::at_least(tui_select::at_most(term_width as int, 84), 60),
{
    let w: usize = if term_width > 84 {
        84
    } else {
        term_width
    };
    if w < 60 {
        60
    } else {
        w
    }
}

/// What is said of the place of a repository.
pub open spec fn place_text(i: int, count: int) -> Seq<char> {
    if i == 0 {
        "(Priority 1 - Highest)"@
    } else if i == count - 1 {
        "(Priority "@ + text::digits_of((i + 1) as nat) + " - Lowest)"@
    } else {
        "(Priority "@ + text::digits_of((i + 1) as nat) + ")"@
    }
}

pub open spec fn place_style(i: int, count: int, marked: bool) -> Style {
    if i == 0 {
        if marked {
            Style::BoldGreen
        } else {
            Style::DimGreen
        }
    } else if i == count - 1 || !marked {
        Style::Dimmed
    } else {
        Style::Cyan
    }
}

/// The spaces behind a repository, counted by bytes.
pub open spec fn place_fill(num: Seq<char>, repo: Seq<char>, place: Seq<char>, tag: Seq<char>, inner: int) -> Seq<
    char,
> {
    style::repeated(' ', inner - (3 + patterns::byte_len(num) + patterns::byte_len(repo) + 1 + patterns::byte_len(place) + patterns::byte_len(tag)))
}

/// The line of the repository with the index `i`.
pub open spec fn repo_row(repo: Seq<char>, i: int, count: int, marked: bool, inner: int) -> Seq<
    (Seq<char>, Style),
> {
    let num = style::pad_start(text::digits_of((i + 1) as nat), 2) + "."@;
    let shown = " ["@ + repo + "]"@;
    let place = place_text(i, count);
    let style = place_style(i, count, marked);
    if marked {
        style::row9(
            ("│"@, Style::Plain),
            (" ▶ "@, Style::BoldCyan),
            (num, Style::Bold),
            (shown, Style::BoldYellow),
            (" "@, Style::Plain),
            (place, style),
            (" "@, Style::Plain),
            (" ◄ SELECTED "@, Style::BoldCyan),
            (place_fill(num, shown, place, " ◄ SELECTED "@, inner) + "│"@, Style::Plain),
        )
    } else {
        style::row6(
            ("│   "@, Style::Plain),
            (num, Style::Dimmed),
            (shown, Style::White),
            (" "@, Style::Plain),
            (place, style),
            (place_fill(num, shown, place, Seq::empty(), inner) + "│"@, Style::Plain),
        )
    }
}

pub open spec fn repo_rows(repos: Seq<Seq<char>>, selected: int, inner: int, n: int) -> Seq<
    Seq<(Seq<char>, Style)>,
>
    decreases n,
{
    if n <= 0 {
        Seq::empty()
    } else {
        repo_rows(repos, selected, inner, n - 1).push(
            repo_row(repos[n - 1], n - 1, repos.len() as int, n - 1 == selected, inner),
        )
    }
}

/// A text on the left of a line of the box, filled up by bytes.
pub open spec fn text_row(text: Seq<char>, style: Style, inner: int) -> Seq<(Seq<char>, Style)> {
    style::row3(
        ("│"@, Style::Plain),
        (text, style),
        (style::repeated(' ', inner - patterns::byte_len(text)) + "│"@, Style::Plain),
    )
}

/// A text in the middle of a line of the box.
pub open spec fn middle_row(text: Seq<char>, style: Style, inner: int) -> Seq<(Seq<char>, Style)> {
    let pad = tui_select::at_least(inner - patterns::byte_len(text), 0) / 2;
    style::row3(
        ("│"@ + style::repeated(' ', pad), Style::Plain),
        (text, style),
        (style::repeated(' ', inner - pad - patterns::byte_len(text)) + "│"@, Style::Plain),
    )
}

pub open spec fn blank_row(inner: int) -> Seq<(Seq<char>, Style)> {
    style::row1(("│"@ + style::repeated(' ', inner) + "│"@, Style::Plain))
}

/// The line with what was last reported.
pub open spec fn status_row(status: Option<(Seq<char>, bool)>, inner: int) -> Seq<
    (Seq<char>, Style),
> {
    match status {
        None => blank_row(inner),
        Some((msg, error)) => style::row3(
            ("│"@, Style::Plain),
            if error {
                (" ⚠ "@ + msg, Style::BoldRed)
            } else {
                (" ✔ "@ + msg, Style::BoldGreen)
            },
            (style::repeated(' ', inner - (patterns::byte_len(msg) + 3)) + "│"@, Style::Plain),
        ),
    }
}

/// The picture of the menu.
pub open spec fn repo_page(m: RepoMenuView, box_width: int) -> Seq<Seq<(Seq<char>, Style)>> {
    let inner = tui_select::at_least(box_width - 2, 0);
    style::page5(
        checkbox_view::rule("┌"@, "┐"@, inner),
        middle_row("BIOS REPOSITORY PRIORITY & SEARCH ORDER"@, Style::BoldYellow, inner),
        middle_row(
            "Higher priority repositories are searched first for packages"@,
            Style::Dimmed,
            inner,
        ),
        checkbox_view::rule("├"@, "┤"@, inner),
        blank_row(inner),
    ) + repo_rows(m.repos, m.selected, inner, m.repos.len() as int) + style::page6(
        blank_row(inner),
        status_row(m.status, inner),
        checkbox_view::rule("├"@, "┤"@, inner),
        if m.adding {
            text_row(" Enter repository name: "@ + m.input + "█"@, Style::BoldYellow, inner)
        } else {
            text_row(
                " [↑/↓] or [k/j] Select    [+/-] Move Priority    [a] Add Repo"@,
                Style::Cyan,
                inner,
            )
        },
        if m.adding {
            text_row(" [Enter] Confirm   [Esc] Cancel"@, Style::Dimmed, inner)
        } else {
            text_row(
                " [d] Delete Repo          [Enter] Save Order     [Esc/q] Cancel"@,
                Style::Dimmed,
                inner,
            )
        },
        checkbox_view::rule("└"@, "┘"@, inner),
    )
}

fn bytes_in(s: &str) -> (r: u128)
    ensures
        r == patterns::byte_len(s@),
        r <= usize::MAX,
{
    s.as_bytes().len() as u128
}

fn spaces_left(inner: usize, used: u128) -> (r: String)
    ensures
        r@ == style::repeated(' ', inner - used),
{
    if used < inner as u128 {
        repeat_char(' ', (inner as u128 - used) as usize)
    } else {
        let none: String = String::new();
        assert(none@ =~= style::repeated(' ', inner - used));
        none
    }
}

fn make_repo_row(repo: &str, i: usize, count: usize, marked: bool, inner: usize) -> (r: Line)
    requires
        i < count,
    ensures
        r@ == repo_row(repo@, i as int, count as int, marked, inner as int),
{
    let d = number_text(i as u64 + 1);
    let p = padded_start(&d, 2);
    let num = text2(&p, ".");
    let shown = text3(" [", repo, "]");
    let place = if i == 0 {
        "(Priority 1 - Highest)".to_string()
    } else if i == count - 1 {
        text3("(Priority ", &d, " - Lowest)")
    } else {
        text3("(Priority ", &d, ")")
    };
    let style = if i == 0 {
        if marked {
            Style::BoldGreen
        } else {
            Style::DimGreen
        }
    } else if i == count - 1 || !marked {
        Style::Dimmed
    } else {
        Style::Cyan
    };
    let tag: &str = if marked {
        " ◄ SELECTED "
    } else {
        ""
    };
    proof {
        reveal_strlit("");
        assert(""@ =~= Seq::<char>::empty());
    }
    let used: u128 = 3 + bytes_in(&num) + bytes_in(&shown) + 1 + bytes_in(&place) + bytes_in(tag);
    let fill = spaces_left(inner, used);
    let end = text2(&fill, "│");
    if marked {
        Line::new().with("│", Style::Plain).with(" ▶ ", Style::BoldCyan).with(
            &num,
            Style::Bold,
        ).with(&shown, Style::BoldYellow).with(" ", Style::Plain).with(&place, style).with(
            " ",
            Style::Plain,
        ).with(" ◄ SELECTED ", Style::BoldCyan).with(&end, Style::Plain)
    } else {
        Line::new().with("│   ", Style::Plain).with(&num, Style::Dimmed).with(
            &shown,
            Style::White,
        ).with(" ", Style::Plain).with(&place, style).with(&end, Style::Plain)
    }
}

fn make_text_row(text: &str, style: Style, inner: usize) -> (r: Line)
    ensures
        r@ == text_row(text@, style, inner as int),
{
    let fill = spaces_left(inner, bytes_in(text));
    let end = text2(&fill, "│");
    Line::new().with("│", Style::Plain).with(text, style).with(&end, Style::Plain)
}

fn make_middle_row(text: &str, style: Style, inner: usize) -> (r: Line)
    ensures
        r@ == middle_row(text@, style, inner as int),
{
    let n: u128 = bytes_in(text);
    let free: usize = if n < inner as u128 {
        (inner as u128 - n) as usize
    } else {
        0
    };
    let pad: usize = free / 2;
    let left = repeat_char(' ', pad);
    let start = text2("│", &left);
    let fill = spaces_left(inner, pad as u128 + n);
    let end = text2(&fill, "│");
    Line::new().with(&start, Style::Plain).with(text, style).with(&end, Style::Plain)
}

fn make_blank_row(inner: usize) -> (r: Line)
    ensures
        r@ == blank_row(inner as int),
{
    let fill = repeat_char(' ', inner);
    let t = text3("│", &fill, "│");
    Line::new().with(&t, Style::Plain)
}

fn make_status_row(status: &Option<(String, bool)>, inner: usize) -> (r: Line)
    ensures
        r@ == status_row(status_view(*status), inner as int),
{
    match status {
        None => make_blank_row(inner),
        Some((msg, error)) => {
            let fill = spaces_left(inner, bytes_in(msg) + 3);
            let end = text2(&fill, "│");
            let (text, style) = if *error {
                (text2(" ⚠ ", msg), Style::BoldRed)
            } else {
                (text2(" ✔ ", msg), Style::BoldGreen)
            };
            Line::new().with("│", Style::Plain).with(&text, style).with(&end, Style::Plain)
        },
    }
}

/// The picture of the menu in a box of the given width.
pub fn render_menu_ui(m: &RepoMenu, box_width: usize) -> (r: Page)
    ensures
        r@ == repo_page(m@, box_width as int),
{
    let inner: usize = if box_width > 2 {
        box_width - 2
    } else {
        0
    };
    let head = Page::new().with(make_rule("┌", "┐", inner)).with(
        make_middle_row("BIOS REPOSITORY PRIORITY & SEARCH ORDER", Style::BoldYellow, inner),
    ).with(
        make_middle_row(
            "Higher priority repositories are searched first for packages",
            Style::Dimmed,
            inner,
        ),
    ).with(make_rule("├", "┤", inner)).with(make_blank_row(inner));
    let mut rows = Page::new();
    let ghost all = text::texts(m.repos@);
    let mut i: usize = 0;
    while i < m.repos.len()
        invariant
            i <= m.repos@.len(),
            all == text::texts(m.repos@),
            all.len() == m.repos@.len(),
            rows@ == repo_rows(all, m.selected as int, inner as int, i as int),
        decreases m.repos@.len() - i,
    {
        assert(all[i as int] == m.repos@[i as int]@);
        rows = rows.with(make_repo_row(&m.repos[i], i, m.repos.len(), i == m.selected, inner));
        i += 1;
    }
    let first = if m.adding_mode {
        let t = text3(" Enter repository name: ", &m.add_input, "█");
        make_text_row(&t, Style::BoldYellow, inner)
    } else {
        make_text_row(
            " [↑/↓] or [k/j] Select    [+/-] Move Priority    [a] Add Repo",
            Style::Cyan,
            inner,
        )
    };
    let second = if m.adding_mode {
        make_text_row(" [Enter] Confirm   [Esc] Cancel", Style::Dimmed, inner)
    } else {
        make_text_row(
            " [d] Delete Repo          [Enter] Save Order     [Esc/q] Cancel",
            Style::Dimmed,
            inner,
        )
    };
    let end = Page::new().with(make_blank_row(inner)).with(
        make_status_row(&m.status_msg, inner),
    ).with(make_rule("├", "┤", inner)).with(first).with(second).with(
        make_rule("└", "┘", inner),
    );
    head.and(rows).and(end)
}

} // verus!
