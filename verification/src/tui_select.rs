//! A menu of checkboxes: its layout, its keys and its picture.
use crate::patterns;
use crate::text::{contains, drop_last_char, no_strings, push_str, to_lowercase};
use crate::text;
use vstd::prelude::*;
use vstd::string::*;

verus! {

/// The lines of the menu besides those of its items.
pub const MENU_FIXED_ROWS: usize = 12;

/// One entry of the menu.
#[derive(Debug, Clone)]
pub struct CheckboxItem {
    pub id: String,
    pub label: String,
    pub description: String,
    pub is_pure: bool,
    pub checked: bool,
}

#[verifier::ext_equal]
pub struct ItemView {
    pub id: Seq<char>,
    pub label: Seq<char>,
    pub description: Seq<char>,
    pub is_pure: bool,
    pub checked: bool,
}

impl View for CheckboxItem {
    type V = ItemView;

    open spec fn view(&self) -> ItemView {
        ItemView {
            id: self.id@,
            label: self.label@,
            description: self.description@,
            is_pure: self.is_pure,
            checked: self.checked,
        }
    }
}

pub open spec fn item_views(v: Seq<CheckboxItem>) -> Seq<ItemView> {
    Seq::new(v.len(), |i: int| v[i]@)
}

impl CheckboxItem {
    pub fn new(id: &str, label: &str, description: &str, is_pure: bool, checked: bool) -> (r: Self)
        ensures
            r@ == (ItemView { id: id@, label: label@, description: description@, is_pure, checked }),
    {
        CheckboxItem {
            id: id.to_string(),
            label: label.to_string(),
            description: description.to_string(),
            is_pure,
            checked,
        }
    }
}

// ---------------------------------------------------------------------------------------
// Layout

pub open spec fn at_least(a: int, b: int) -> int {
    if a < b {
        b
    } else {
        a
    }
}

pub open spec fn at_most(a: int, b: int) -> int {
    if a > b {
        b
    } else {
        a
    }
}

/// How many items are shown: at most 18, and so many that a third of the screen, and at least
/// four lines, are left above the menu; but always one.
pub open spec fn visible_items(height: int, count: int) -> int {
    at_most(
        at_most(count, 18),
        at_least(height - (at_least(height / 3, 4) + MENU_FIXED_ROWS), 1),
    )
}

/// The number of items shown and the line that the menu begins in.
pub fn menu_layout(term_height: usize, item_count: usize) -> (r: (usize, u16))
    ensures
        r.0 == visible_items(term_height as int, item_count as int),
        r.1 == at_least(term_height - (MENU_FIXED_ROWS + r.0), 0) % 0x1_0000,
{
    let third: usize = term_height / 3;
    let history: usize = if third < 4 {
        4
    } else {
        third
    };
    let room: usize = if term_height > history + MENU_FIXED_ROWS {
        term_height - (history + MENU_FIXED_ROWS)
    } else {
        0
    };
    let room: usize = if room < 1 {
        1
    } else {
        room
    };
    let count: usize = if item_count > 18 {
        18
    } else {
        item_count
    };
    let visible: usize = if count > room {
        room
    } else {
        count
    };
    let start: usize = if term_height > MENU_FIXED_ROWS + visible {
        term_height - (MENU_FIXED_ROWS + visible)
    } else {
        0
    };
    let row: usize = start % 0x1_0000;
    (visible, row as u16)
}

/// The menu and the space above it fit on the screen, and at least a third of the screen stays
/// as it was, wherever there is room for one item and that space.
pub proof fn history_stays_visible(height: int, count: int)
    requires
        0 <= count,
        0 <= height < 0x1_0000,
        at_least(height / 3, 4) + MENU_FIXED_ROWS + 1 <= height,
    ensures
        at_least(height / 3, 4) <= at_least(
            height - (MENU_FIXED_ROWS + visible_items(height, count)),
            0,
        ),
{
}

// ---------------------------------------------------------------------------------------
// State

/// A menu while it is open.
#[derive(Debug, Clone)]
pub struct Menu {
    pub items: Vec<CheckboxItem>,
    pub selected: usize,
    pub viewport_offset: usize,
    pub search_mode: bool,
    pub search_query: String,
}

#[verifier::ext_equal]
pub struct MenuView {
    pub items: Seq<ItemView>,
    pub selected: int,
    pub offset: int,
    pub searching: bool,
    pub query: Seq<char>,
}

impl View for Menu {
    type V = MenuView;

    open spec fn view(&self) -> MenuView {
        MenuView {
            items: item_views(self.items@),
            selected: self.selected as int,
            offset: self.viewport_offset as int,
            searching: self.search_mode,
            query: self.search_query@,
        }
    }
}

/// Opens a menu. There is none without items, without a terminal, or without the room for one
/// item.
pub fn open_menu(items: Vec<CheckboxItem>, terminal: bool, term_height: usize) -> (r: Option<Menu>)
    ensures
        match r {
            Some(m) => m@ == (MenuView {
                items: item_views(items@),
                selected: 0,
                offset: 0,
                searching: false,
                query: Seq::empty(),
            }),
            None => true,
        },
        r is Some <==> terminal && items@.len() > 0 && term_height >= MENU_FIXED_ROWS + 1,
{
    if !terminal || items.len() == 0 || term_height < MENU_FIXED_ROWS + 1 {
        return None;
    }
    let m = Menu {
        items,
        selected: 0,
        viewport_offset: 0,
        search_mode: false,
        search_query: String::new(),
    };
    assert(m@.query =~= Seq::<char>::empty());
    Some(m)
}

/// The texts of an item and of a search, in small letters, fit.
pub open spec fn lowered_match(label: Seq<char>, description: Seq<char>, query: Seq<char>) -> bool {
    text::holds(label, query) || text::holds(description, query)
}

/// Whether an item is found by a search; all three texts are in small letters already.
pub fn matches_lowered(label: &str, description: &str, query: &str) -> (r: bool)
    ensures
        r == lowered_match(label@, description@, query@),
{
    contains(label, query) || contains(description, query)
}

/// An item is found by a search.
pub open spec fn found(item: ItemView, query: Seq<char>) -> bool {
    query.len() == 0 || lowered_match(
        text::lowercase(item.label),
        text::lowercase(item.description),
        text::lowercase(query),
    )
}

/// The indices of those of the first `n` items that are found.
pub open spec fn found_upto(items: Seq<ItemView>, query: Seq<char>, n: int) -> Seq<int>
    decreases n,
{
    if n <= 0 {
        Seq::empty()
    } else if found(items[n - 1], query) {
        found_upto(items, query, n - 1).push(n - 1)
    } else {
        found_upto(items, query, n - 1)
    }
}

pub open spec fn indices(v: Seq<usize>) -> Seq<int> {
    Seq::new(v.len(), |i: int| v[i] as int)
}

/// Indices of items.
pub open spec fn indexed(matching: Seq<usize>, count: int) -> bool {
    forall|i: int| 0 <= i < matching.len() ==> (#[trigger] matching[i]) < count
}

/// Indices of items, in ascending order.
pub open spec fn picks(matching: Seq<usize>, count: int) -> bool {
    &&& indexed(matching, count)
    &&& forall|i: int, j: int|
        0 <= i < j < matching.len() ==> (#[trigger] matching[i]) < (#[trigger] matching[j])
}

/// The indices of the items that the search finds; all of them without a search.
pub fn matching_items(items: &Vec<CheckboxItem>, query: &str) -> (r: Vec<usize>)
    ensures
        indices(r@) == found_upto(item_views(items@), query@, items@.len() as int),
        picks(r@, items@.len() as int),
        r@.len() <= items@.len(),
{
    let q = to_lowercase(query);
    let ghost views = item_views(items@);
    let mut out: Vec<usize> = Vec::new();
    let mut i: usize = 0;
    assert(indices(out@) =~= Seq::<int>::empty());
    while i < items.len()
        invariant
            i <= items@.len(),
            views == item_views(items@),
            q@ == text::lowercase(query@),
            indices(out@) == found_upto(views, query@, i as int),
            picks(out@, i as int),
            out@.len() <= i,
        decreases items@.len() - i,
    {
        assert(views[i as int] == items@[i as int]@);
        let ghost before = indices(out@);
        let ghost old_out = out@;
        let hit: bool = if query.is_empty() {
            true
        } else {
            let label = to_lowercase(&items[i].label);
            let description = to_lowercase(&items[i].description);
            matches_lowered(&label, &description, &q)
        };
        if hit {
            out.push(i);
            assert(indices(out@) =~= before.push(i as int));
            assert forall|a: int, b: int| 0 <= a < b < out@.len() implies (#[trigger] out@[a]) < (
            #[trigger] out@[b]) by {
                if b < old_out.len() {
                    assert(old_out[a] < old_out[b]);
                } else {
                    assert(old_out[a] < i);
                }
            }
        }
        i += 1;
    }
    out
}

/// The marked item and the window, kept where there is something to show: the mark goes no
/// further than the last item that is found, and the window follows the mark.
pub open spec fn settled(m: MenuView, matched: int, visible: int) -> MenuView {
    let selected = if m.selected >= matched && matched > 0 {
        matched - 1
    } else {
        m.selected
    };
    let offset = if selected < m.offset {
        selected
    } else if selected >= m.offset + visible {
        selected - visible + 1
    } else {
        m.offset
    };
    MenuView { selected, offset, ..m }
}

/// What is shown next: the items that are found, the width of the box, the number of visible
/// items and the first line.
#[derive(Debug, Clone)]
pub struct Picture {
    pub matching: Vec<usize>,
    pub box_width: usize,
    pub max_visible: usize,
    pub start_row: u16,
}

/// Gets the menu ready to be shown on a terminal of this size.
pub fn prepare(m: &mut Menu, term_width: usize, term_height: usize) -> (r: Picture)
    requires
        old(m).items@.len() > 0,
    ensures
        indices(r.matching@) == found_upto(
            old(m)@.items,
            old(m)@.query,
            old(m)@.items.len() as int,
        ),
        picks(r.matching@, final(m).items@.len() as int),
        r.box_width == at_most(term_width as int, 100),
        r.max_visible == visible_items(term_height as int, old(m).items@.len() as int),
        r.max_visible >= 1,
        r.start_row == at_least(term_height - (MENU_FIXED_ROWS + r.max_visible), 0) % 0x1_0000,
        final(m)@ == settled(old(m)@, r.matching@.len() as int, r.max_visible as int),
{
    let matching = matching_items(&m.items, &m.search_query);
    let count: usize = matching.len();
    if m.selected >= count && count > 0 {
        m.selected = count - 1;
    }
    let box_width: usize = if term_width > 100 {
        100
    } else {
        term_width
    };
    let (max_visible, start_row) = menu_layout(term_height, m.items.len());
    if m.selected < m.viewport_offset {
        m.viewport_offset = m.selected;
    } else if m.selected - m.viewport_offset >= max_visible {
        m.viewport_offset = m.selected - max_visible + 1;
    }
    Picture { matching, box_width, max_visible, start_row }
}

// ---------------------------------------------------------------------------------------
// Keys

#[derive(Debug, Clone, Copy, PartialEq, Eq, Structural)]
pub enum Key {
    Up,
    Down,
    PageUp,
    PageDown,
    Home,
    End,
    Enter,
    Esc,
    Backspace,
    Delete,
    Char(char),
    Other,
}

/// What comes from the terminal.
#[derive(Debug, Clone, Copy, PartialEq, Eq, Structural)]
pub enum MenuEvent {
    /// A key, and whether the control key was held.
    Key(Key, bool),
    Other,
    Failed,
}

/// What an event does to the menu.
#[derive(Debug, Clone)]
pub enum MenuStep {
    Stay,
    Cancel,
    /// The ids of the checked items.
    Confirm(Vec<String>),
}

/// How the boxes of the found items are set.
pub enum Boxes {
    Check,
    Clear,
    PureOnly,
    Flip,
}

pub open spec fn set_box(item: ItemView, how: Boxes) -> ItemView {
    ItemView {
        checked: match how {
            Boxes::Check => true,
            Boxes::Clear => false,
            Boxes::PureOnly => item.is_pure,
            Boxes::Flip => !item.checked,
        },
        ..item
    }
}

/// The items after the boxes of those among `matching` are set.
pub open spec fn set_boxes(items: Seq<ItemView>, matching: Seq<int>, how: Boxes) -> Seq<ItemView> {
    Seq::new(
        items.len(),
        |i: int|
            if matching.contains(i) {
                set_box(items[i], how)
            } else {
                items[i]
            },
    )
}

/// The ids of the checked ones among the first `n` items.
pub open spec fn checked_ids(items: Seq<ItemView>, n: int) -> Seq<Seq<char>>
    decreases n,
{
    if n <= 0 {
        Seq::empty()
    } else if items[n - 1].checked {
        checked_ids(items, n - 1).push(items[n - 1].id)
    } else {
        checked_ids(items, n - 1)
    }
}

/// What a key does while a search is typed.
pub open spec fn search_key(m: MenuView, key: Key) -> MenuView {
    match key {
        Key::Enter => MenuView { searching: false, ..m },
        Key::Esc => MenuView {
            searching: false,
            query: Seq::empty(),
            selected: 0,
            offset: 0,
            ..m
        },
        Key::Backspace => MenuView {
            query: if m.query.len() > 0 {
                m.query.drop_last()
            } else {
                m.query
            },
            selected: 0,
            offset: 0,
            ..m
        },
        Key::Char(c) => if patterns::byte_len(m.query) < 32 {
            MenuView { query: m.query.push(c), selected: 0, offset: 0, ..m }
        } else {
            m
        },
        _ => m,
    }
}

/// What a key does to the menu itself.
pub open spec fn menu_key(m: MenuView, matching: Seq<int>, visible: int, key: Key) -> MenuView {
    let count = matching.len() as int;
    match key {
        Key::Up | Key::Char('k') => MenuView { selected: at_least(m.selected - 1, 0), ..m },
        Key::Down | Key::Char('j') => if m.selected + 1 < count {
            MenuView { selected: m.selected + 1, ..m }
        } else {
            m
        },
        Key::PageUp => MenuView { selected: at_least(m.selected - visible, 0), ..m },
        Key::PageDown => if count > 0 {
            MenuView { selected: at_most(m.selected + visible, count - 1), ..m }
        } else {
            m
        },
        Key::Home => MenuView { selected: 0, ..m },
        Key::End => if count > 0 {
            MenuView { selected: count - 1, ..m }
        } else {
            m
        },
        Key::Char(' ') => if m.selected < count {
            MenuView {
                items: m.items.update(
                    matching[m.selected],
                    set_box(m.items[matching[m.selected]], Boxes::Flip),
                ),
                ..m
            }
        } else {
            m
        },
        Key::Char('a') | Key::Char('A') => MenuView {
            items: set_boxes(m.items, matching, Boxes::Check),
            ..m
        },
        Key::Char('n') | Key::Char('N') => MenuView {
            items: set_boxes(m.items, matching, Boxes::Clear),
            ..m
        },
        Key::Char('p') | Key::Char('P') => MenuView {
            items: set_boxes(m.items, matching, Boxes::PureOnly),
            ..m
        },
        Key::Char('i') | Key::Char('I') => MenuView {
            items: set_boxes(m.items, matching, Boxes::Flip),
            ..m
        },
        Key::Char('/') => MenuView { searching: true, ..m },
        _ => m,
    }
}

/// The event ends the menu without a choice.
pub open spec fn cancels(m: MenuView, event: MenuEvent) -> bool {
    match event {
        MenuEvent::Failed => true,
        MenuEvent::Other => false,
        MenuEvent::Key(key, control) => {
            ||| control && (key == Key::Char('c') || key == Key::Char('C'))
            ||| !m.searching && (key == Key::Esc || key == Key::Char('q') || key == Key::Char('Q'))
        },
    }
}

/// The event ends the menu with a choice.
pub open spec fn confirms(m: MenuView, event: MenuEvent) -> bool {
    !m.searching && (event == MenuEvent::Key(Key::Enter, true) || event == MenuEvent::Key(
        Key::Enter,
        false,
    ))
}

/// The menu after an event that does not end it.
pub open spec fn after_event(m: MenuView, matching: Seq<int>, visible: int, event: MenuEvent) -> MenuView {
    match event {
        MenuEvent::Key(key, _) => if m.searching {
            search_key(m, key)
        } else {
            menu_key(m, matching, visible, key)
        },
        _ => m,
    }
}

fn apply_boxes(items: &mut Vec<CheckboxItem>, matching: &Vec<usize>, how: Boxes)
    requires
        picks(matching@, old(items)@.len() as int),
    ensures
        item_views(final(items)@) == set_boxes(item_views(old(items)@), indices(matching@), how),
{
    let ghost start = item_views(items@);
    let ghost all = indices(matching@);
    let mut k: usize = 0;
    assert(item_views(items@) =~= set_boxes(start, all.take(0), how));
    while k < matching.len()
        invariant
            k <= matching@.len(),
            all == indices(matching@),
            all.len() == matching@.len(),
            items@.len() == start.len(),
            picks(matching@, items@.len() as int),
            item_views(items@) == set_boxes(start, all.take(k as int), how),
        decreases matching@.len() - k,
    {
        let idx: usize = matching[k];
        let ghost before = item_views(items@);
        let ghost done = all.take(k as int);
        let ghost next = all.take(k + 1);
        assert(!done.contains(idx as int)) by {
            if done.contains(idx as int) {
                let j = choose|j: int| 0 <= j < done.len() && done[j] == idx as int;
                assert(matching@[j] < matching@[k as int]);
            }
        }
        assert(before[idx as int] == start[idx as int]);
        assert(before[idx as int] == items@[idx as int]@);
        let value: bool = match how {
            Boxes::Check => true,
            Boxes::Clear => false,
            Boxes::PureOnly => items[idx].is_pure,
            Boxes::Flip => !items[idx].checked,
        };
        let item = CheckboxItem::new(
            &items[idx].id,
            &items[idx].label,
            &items[idx].description,
            items[idx].is_pure,
            value,
        );
        items.set(idx, item);
        proof {
            let after = item_views(items@);
            assert(next =~= done.push(idx as int));
            assert forall|i: int| 0 <= i < start.len() implies #[trigger] after[i] == set_boxes(
                start,
                next,
                how,
            )[i] by {
                if i == idx {
                    assert(next[k as int] == i);
                    assert(next.contains(i));
                } else {
                    assert(after[i] == before[i]);
                    if done.contains(i) {
                        let j = choose|j: int| 0 <= j < done.len() && done[j] == i;
                        assert(next[j] == i);
                    }
                    if next.contains(i) {
                        let j = choose|j: int| 0 <= j < next.len() && next[j] == i;
                        assert(j < k);
                        assert(done[j] == i);
                    }
                }
            }
            assert(after =~= set_boxes(start, next, how));
        }
        k += 1;
    }
    assert(all.take(k as int) =~= all);
}

fn collect_checked(items: &Vec<CheckboxItem>) -> (r: Vec<String>)
    ensures
        text::texts(r@) == checked_ids(item_views(items@), items@.len() as int),
{
    let ghost views = item_views(items@);
    let mut out = no_strings();
    let mut i: usize = 0;
    while i < items.len()
        invariant
            i <= items@.len(),
            views == item_views(items@),
            text::texts(out@) == checked_ids(views, i as int),
        decreases items@.len() - i,
    {
        assert(views[i as int] == items@[i as int]@);
        if items[i].checked {
            let ghost before = text::texts(out@);
            push_str(&mut out, &items[i].id);
            assert(text::texts(out@) =~= before.push(views[i as int].id));
        }
        i += 1;
    }
    out
}

fn do_search_key(m: &mut Menu, key: Key)
    ensures
        final(m)@ == search_key(old(m)@, key),
{
    match key {
        Key::Enter => {
            m.search_mode = false;
        },
        Key::Esc => {
            m.search_mode = false;
            m.search_query = String::new();
            m.selected = 0;
            m.viewport_offset = 0;
            assert(m.search_query@ =~= Seq::<char>::empty());
        },
        Key::Backspace => {
            m.search_query = drop_last_char(&m.search_query);
            m.selected = 0;
            m.viewport_offset = 0;
        },
        Key::Char(c) => {
            if m.search_query.as_str().as_bytes().len() < 32 {
                m.search_query.push(c);
                m.selected = 0;
                m.viewport_offset = 0;
            }
        },
        _ => {},
    }
}

fn do_menu_key(m: &mut Menu, matching: &Vec<usize>, max_visible: usize, key: Key)
    requires
        picks(matching@, old(m).items@.len() as int),
    ensures
        final(m)@ == menu_key(old(m)@, indices(matching@), max_visible as int, key),
{
    let count: usize = matching.len();
    let ghost all = indices(matching@);
    assert(all.len() == matching@.len());
    match key {
        Key::Up | Key::Char('k') => {
            if m.selected > 0 {
                m.selected -= 1;
            }
        },
        Key::Down | Key::Char('j') => {
            if count > 0 && m.selected < count - 1 {
                m.selected += 1;
            }
        },
        Key::PageUp => {
            if m.selected >= max_visible {
                m.selected -= max_visible;
            } else {
                m.selected = 0;
            }
        },
        Key::PageDown => {
            if count > 0 {
                if m.selected > count - 1 || max_visible > count - 1 - m.selected {
                    m.selected = count - 1;
                } else {
                    m.selected += max_visible;
                }
            }
        },
        Key::Home => {
            m.selected = 0;
        },
        Key::End => {
            if count > 0 {
                m.selected = count - 1;
            }
        },
        Key::Char(' ') => {
            if m.selected < count {
                let idx: usize = matching[m.selected];
                assert(all[m.selected as int] == idx);
                assert(item_views(m.items@)[idx as int] == m.items@[idx as int]@);
                let ghost before = item_views(m.items@);
                let item = CheckboxItem::new(
                    &m.items[idx].id,
                    &m.items[idx].label,
                    &m.items[idx].description,
                    m.items[idx].is_pure,
                    !m.items[idx].checked,
                );
                let ghost flipped = item@;
                m.items.set(idx, item);
                assert(item_views(m.items@) =~= before.update(idx as int, flipped));
            }
        },
        Key::Char('a') | Key::Char('A') => {
            apply_boxes(&mut m.items, matching, Boxes::Check);
        },
        Key::Char('n') | Key::Char('N') => {
            apply_boxes(&mut m.items, matching, Boxes::Clear);
        },
        Key::Char('p') | Key::Char('P') => {
            apply_boxes(&mut m.items, matching, Boxes::PureOnly);
        },
        Key::Char('i') | Key::Char('I') => {
            apply_boxes(&mut m.items, matching, Boxes::Flip);
        },
        Key::Char('/') => {
            m.search_mode = true;
        },
        _ => {},
    }
}

/// Handles one event of the menu, with the items that the search finds and the number of
/// visible ones.
pub fn run_checkbox_menu(m: &mut Menu, matching: &Vec<usize>, max_visible: usize, event: MenuEvent) -> (r:
    MenuStep)
    requires
        picks(matching@, old(m).items@.len() as int),
    ensures
        if cancels(old(m)@, event) {
            r is Cancel && final(m)@ == old(m)@
        } else if confirms(old(m)@, event) {
            &&& r is Confirm
            &&& text::texts(r->Confirm_0@) == checked_ids(old(m)@.items, old(m)@.items.len() as int)
            &&& final(m)@ == old(m)@
        } else {
            &&& r is Stay
            &&& final(m)@ == after_event(
                old(m)@,
                indices(matching@),
                max_visible as int,
                event,
            )
        },
{
    match event {
        MenuEvent::Failed => MenuStep::Cancel,
        MenuEvent::Other => MenuStep::Stay,
        MenuEvent::Key(key, control) => {
            if control && (key == Key::Char('c') || key == Key::Char('C')) {
                return MenuStep::Cancel;
            }
            if m.search_mode {
                do_search_key(m, key);
                return MenuStep::Stay;
            }
            if key == Key::Esc || key == Key::Char('q') || key == Key::Char('Q') {
                return MenuStep::Cancel;
            }
            if key == Key::Enter {
                return MenuStep::Confirm(collect_checked(&m.items));
            }
            do_menu_key(m, matching, max_visible, key);
            MenuStep::Stay
        },
    }
}

// ---------------------------------------------------------------------------------------
// Laws of the keys

/// The mark stands on an item that is found, or on the first place where none is; and the
/// window does not begin behind the mark.
pub open spec fn in_place(m: MenuView, matched: int) -> bool {
    0 <= m.offset <= m.selected && (m.selected < matched || m.selected == 0)
}

/// What is shown is always in place, and shows the marked item.
pub proof fn settled_is_in_place(m: MenuView, matched: int, visible: int)
    requires
        in_place(m, matched),
        1 <= visible,
        0 <= matched,
    ensures
        in_place(settled(m, matched, visible), matched),
        settled(m, matched, visible).selected < settled(m, matched, visible).offset + visible,
{
}

/// No key takes the menu out of place: after one that leaves the search alone, the mark is
/// still on an item that is found; after one that changes it, on the first place.
pub proof fn keys_keep_in_place(m: MenuView, matching: Seq<int>, visible: int, event: MenuEvent)
    requires
        in_place(m, matching.len() as int),
        1 <= visible,
        m.offset <= m.selected < m.offset + visible,
        forall|k: int| 0 <= k < matching.len() ==> 0 <= #[trigger] matching[k] < m.items.len(),
    ensures
        ({
            let after = after_event(m, matching, visible, event);
            &&& after.query == m.query ==> 0 <= after.selected && (after.selected
                < matching.len() || after.selected == 0)
            &&& after.query != m.query ==> after.selected == 0 && after.offset == 0
            &&& after.items.len() == m.items.len()
        }),
{
}

/// Flipping all boxes twice changes nothing.
pub proof fn flipping_twice_is_nothing(items: Seq<ItemView>, matching: Seq<int>)
    ensures
        set_boxes(set_boxes(items, matching, Boxes::Flip), matching, Boxes::Flip) == items,
{
    let once = set_boxes(items, matching, Boxes::Flip);
    let twice = set_boxes(once, matching, Boxes::Flip);
    assert forall|i: int| 0 <= i < items.len() implies #[trigger] twice[i] == items[i] by {
        assert(once[i] == if matching.contains(i) {
            set_box(items[i], Boxes::Flip)
        } else {
            items[i]
        });
    }
    assert(twice =~= items);
}

/// Keys change boxes of found items only, and never what an item is.
pub proof fn hidden_items_keep_their_boxes(
    m: MenuView,
    matching: Seq<int>,
    visible: int,
    event: MenuEvent,
    i: int,
)
    requires
        0 <= i < m.items.len(),
        0 <= m.selected,
        forall|k: int| 0 <= k < matching.len() ==> 0 <= #[trigger] matching[k] < m.items.len(),
    ensures
        ({
            let after = after_event(m, matching, visible, event).items[i];
            &&& after.id == m.items[i].id
            &&& after.label == m.items[i].label
            &&& after.description == m.items[i].description
            &&& after.is_pure == m.items[i].is_pure
            &&& !matching.contains(i) ==> after == m.items[i]
        }),
{
    if m.selected < matching.len() {
        assert(matching.contains(matching[m.selected]));
    }
}

} // verus!
