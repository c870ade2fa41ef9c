//! The picture of a menu of checkboxes.
use crate::style::{Line, Page, Style, padded_start, repeat_char};
use crate::style;
use crate::text::{contains, lower_string, number_text, text2, text3};
use crate::text;
use crate::tui_select::{CheckboxItem, ItemView, MENU_FIXED_ROWS};
use crate::tui_select;
use crate::ui::{str_width, truncate_str};
use crate::ui;
use vstd::prelude::*;
use vstd::string::*;

verus! {

/// A line within the box: its pieces, filled up to the inner width, between two borders.
pub open spec fn framed(pieces: Seq<(Seq<char>, Style)>, inner: int) -> Seq<(Seq<char>, Style)> {
    style::row1(("│"@, Style::BoldCyan)) + pieces + style::row2(
        (style::repeated(' ', inner - ui::width(style::plain_text(pieces))), Style::Plain),
        ("│"@, Style::BoldCyan),
    )
}

pub fn frame(pieces: Line, inner: usize) -> (r: Line)
    ensures
        r@ == framed(pieces@, inner as int),
{
    let text = pieces.plain();
    let used: usize = str_width(&text);
    let fill = if used < inner {
        repeat_char(' ', inner - used)
    } else {
        String::new()
    };
    assert(fill@ =~= style::repeated(' ', inner - ui::width(style::plain_text(pieces@))));
    let end = Line::new().with(&fill, Style::Plain).with("│", Style::BoldCyan);
    Line::new().with("│", Style::BoldCyan).and(pieces).and(end)
}

/// A border or a rule across the box.
pub open spec fn rule(left: Seq<char>, right: Seq<char>, inner: int) -> Seq<(Seq<char>, Style)> {
    style::row1((left + style::repeated('─', inner) + right, Style::BoldCyan))
}

pub fn make_rule(left: &str, right: &str, inner: usize) -> (r: Line)
    ensures
        r@ == rule(left@, right@, inner as int),
{
    let bar = repeat_char('─', inner);
    let t = text3(left, &bar, right);
    Line::new().with(&t, Style::BoldCyan)
}

/// A text in the middle of a line.
pub open spec fn centered(text: Seq<char>, style: Style, inner: int) -> Seq<(Seq<char>, Style)> {
    style::row2((style::repeated(' ', tui_select::at_least(inner - ui::width(text), 0) / 2), Style::Plain), (text, style))
}

pub fn make_centered(text: &str, style: Style, inner: usize) -> (r: Line)
    ensures
        r@ == centered(text@, style, inner as int),
{
    let w: usize = str_width(text);
    let free: usize = if w < inner {
        inner - w
    } else {
        0
    };
    let pad = repeat_char(' ', free / 2);
    Line::new().with(&pad, Style::Plain).with(text, style)
}

/// Some item is not pure, or the title speaks of orphans.
pub open spec fn shows_purity(title: Seq<char>, items: Seq<ItemView>) -> bool {
    (exists|i: int| 0 <= i < items.len() && !(#[trigger] items[i]).is_pure) || text::holds(
        text::lower(title),
        "orphan"@,
    )
}

fn has_purity(title: &str, items: &Vec<CheckboxItem>) -> (r: bool)
    ensures
        r == shows_purity(title@, tui_select::item_views(items@)),
{
    let ghost views = tui_select::item_views(items@);
    let mut i: usize = 0;
    while i < items.len()
        invariant
            i <= items@.len(),
            views == tui_select::item_views(items@),
            views.len() == items@.len(),
            forall|j: int| 0 <= j < i ==> (#[trigger] views[j]).is_pure,
        decreases items@.len() - i,
    {
        assert(views[i as int] == items@[i as int]@);
        if !items[i].is_pure {
            return true;
        }
        i += 1;
    }
    let t = lower_string(title);
    contains(&t, "orphan")
}

/// The width of the column of labels.
pub const LABEL_WIDTH: usize = 24;

/// A label that fills its column.
pub open spec fn label_cell(label: Seq<char>) -> Seq<char> {
    if ui::width(label) > LABEL_WIDTH {
        ui::truncated(label, LABEL_WIDTH as int)
    } else {
        label + style::repeated(' ', LABEL_WIDTH - ui::width(label))
    }
}

fn make_label_cell(label: &str) -> (r: String)
    ensures
        r@ == label_cell(label@),
{
    let w: usize = str_width(label);
    if w > LABEL_WIDTH {
        truncate_str(label, LABEL_WIDTH)
    } else {
        let fill = repeat_char(' ', LABEL_WIDTH - w);
        text2(label, &fill)
    }
}

/// The columns that are left for a description.
pub open spec fn desc_room(inner: int, purity: bool, marked: bool) -> int {
    tui_select::at_least(
        inner - (3 + 4 + 4 + (if purity {
            7int
        } else {
            0
        }) + LABEL_WIDTH + (if marked {
            2int
        } else {
            0
        }) + 1),
        0,
    )
}

/// A description, cut to the room that there is for it.
pub open spec fn desc_cell(desc: Seq<char>, room: int) -> Seq<char> {
    if ui::width(desc) > room && room > 3 {
        ui::truncated(desc, room)
    } else {
        desc
    }
}

pub open spec fn check_span(checked: bool) -> (Seq<char>, Style) {
    if checked {
        ("[x] "@, Style::BoldGreen)
    } else {
        ("[ ] "@, Style::Dimmed)
    }
}

pub open spec fn purity_span(purity: bool, pure: bool) -> (Seq<char>, Style) {
    if !purity {
        (Seq::empty(), Style::Plain)
    } else if pure {
        ("[pure] "@, Style::BoldGreen)
    } else {
        ("[opt]  "@, Style::BoldYellow)
    }
}

/// The line of an item, with its number.
pub open spec fn item_pieces(item: ItemView, num: int, marked: bool, purity: bool, inner: int) -> Seq<
    (Seq<char>, Style),
> {
    let number = style::pad_start(text::digits_of(num as nat), 2) + ". "@;
    let label = label_cell(item.label);
    let desc = desc_cell(item.description, desc_room(inner, purity, marked));
    if marked {
        style::row7(
            (" ▶ "@, Style::BoldCyan),
            check_span(item.checked),
            (number, Style::Bold),
            purity_span(purity, item.is_pure),
            (label, Style::BoldYellow),
            (desc, Style::Cyan),
            (" ◄"@, Style::BoldCyan),
        )
    } else {
        style::row6(
            ("   "@, Style::Plain),
            check_span(item.checked),
            (number, Style::Dimmed),
            purity_span(purity, item.is_pure),
            (label, Style::White),
            (desc, Style::Dimmed),
        )
    }
}

fn make_item(item: &CheckboxItem, num: u64, marked: bool, purity: bool, inner: usize) -> (r: Line)
    ensures
        r@ == item_pieces(item@, num as int, marked, purity, inner as int),
{
    let d = number_text(num);
    let p = padded_start(&d, 2);
    let number = text2(&p, ". ");
    let label = make_label_cell(&item.label);
    let taken: usize = 36 + (if purity {
        7usize
    } else {
        0
    }) + (if marked {
        2usize
    } else {
        0
    });
    let room: usize = if inner > taken {
        inner - taken
    } else {
        0
    };
    let desc = if str_width(&item.description) > room && room > 3 {
        truncate_str(&item.description, room)
    } else {
        item.description.clone()
    };
    let (check, check_style) = if item.checked {
        ("[x] ", Style::BoldGreen)
    } else {
        ("[ ] ", Style::Dimmed)
    };
    let (badge, badge_style) = if !purity {
        ("", Style::Plain)
    } else if item.is_pure {
        ("[pure] ", Style::BoldGreen)
    } else {
        ("[opt]  ", Style::BoldYellow)
    };
    proof {
        reveal_strlit("");
        assert(""@ =~= Seq::<char>::empty());
    }
    if marked {
        Line::new().with(" ▶ ", Style::BoldCyan).with(check, check_style).with(
            &number,
            Style::Bold,
        ).with(badge, badge_style).with(&label, Style::BoldYellow).with(&desc, Style::Cyan).with(
            " ◄",
            Style::BoldCyan,
        )
    } else {
        Line::new().with("   ", Style::Plain).with(check, check_style).with(
            &number,
            Style::Dimmed,
        ).with(badge, badge_style).with(&label, Style::White).with(&desc, Style::Dimmed)
    }
}

/// The first `k` lines of the window on the items; lines without an item stay empty.
pub open spec fn window_rows(
    items: Seq<ItemView>,
    matching: Seq<int>,
    selected: int,
    offset: int,
    purity: bool,
    inner: int,
    k: int,
) -> Seq<Seq<(Seq<char>, Style)>>
    decreases k,
{
    if k <= 0 {
        Seq::empty()
    } else {
        let at = offset + k - 1;
        window_rows(items, matching, selected, offset, purity, inner, k - 1).push(
            framed(
                if at < matching.len() {
                    item_pieces(items[matching[at]], at + 1, at == selected, purity, inner)
                } else {
                    style::empty_row()
                },
                inner,
            ),
        )
    }
}

fn make_window(
    items: &Vec<CheckboxItem>,
    matching: &Vec<usize>,
    selected: usize,
    offset: usize,
    max_visible: usize,
    purity: bool,
    inner: usize,
) -> (r: Page)
    requires
        tui_select::indexed(matching@, items@.len() as int),
        offset <= matching@.len(),
    ensures
        r@ == window_rows(
            tui_select::item_views(items@),
            tui_select::indices(matching@),
            selected as int,
            offset as int,
            purity,
            inner as int,
            max_visible as int,
        ),
{
    let ghost views = tui_select::item_views(items@);
    let ghost all = tui_select::indices(matching@);
    let mut page = Page::new();
    let mut k: usize = 0;
    while k < max_visible
        invariant
            k <= max_visible,
            views == tui_select::item_views(items@),
            all == tui_select::indices(matching@),
            all.len() == matching@.len(),
            tui_select::indexed(matching@, items@.len() as int),
            offset <= matching@.len(),
            page@ == window_rows(
                views,
                all,
                selected as int,
                offset as int,
                purity,
                inner as int,
                k as int,
            ),
        decreases max_visible - k,
    {
        let pieces = if k < matching.len() - offset {
            let at: usize = offset + k;
            assert(all[at as int] == matching@[at as int]);
            let idx: usize = matching[at];
            assert(views[idx as int] == items@[idx as int]@);
            make_item(&items[idx], at as u64 + 1, at == selected, purity, inner)
        } else {
            Line::new()
        };
        page = page.with(frame(pieces, inner));
        k += 1;
    }
    page
}

/// How many of the first `n` items are checked.
pub open spec fn checked_count(items: Seq<ItemView>, n: int) -> int
    decreases n,
{
    if n <= 0 {
        0
    } else if items[n - 1].checked {
        checked_count(items, n - 1) + 1
    } else {
        checked_count(items, n - 1)
    }
}

fn count_checked(items: &Vec<CheckboxItem>) -> (r: usize)
    ensures
        r == checked_count(tui_select::item_views(items@), items@.len() as int),
{
    let ghost views = tui_select::item_views(items@);
    let mut n: usize = 0;
    let mut i: usize = 0;
    while i < items.len()
        invariant
            i <= items@.len(),
            views == tui_select::item_views(items@),
            n <= i,
            n == checked_count(views, i as int),
        decreases items@.len() - i,
    {
        assert(views[i as int] == items@[i as int]@);
        if items[i].checked {
            n += 1;
        }
        i += 1;
    }
    n
}

/// The line above the items: how many of them are out of sight there.
pub open spec fn above_pieces(offset: int) -> Seq<(Seq<char>, Style)> {
    if offset > 0 {
        style::row1(
            (
                "   ▲ "@ + text::digits_of(offset as nat) + " more items above..."@,
                Style::BoldYellow,
            ),
        )
    } else {
        style::empty_row()
    }
}

/// The line below the items: how many are out of sight there, and how many are checked.
pub open spec fn below_pieces(below: int, checked: int, total: int) -> Seq<(Seq<char>, Style)> {
    let selected = "(Selected: "@ + text::digits_of(checked as nat) + "/"@ + text::digits_of(total as nat)
        + " items)"@;
    if below > 0 {
        style::row1(
            (
                "   ▼ "@ + text::digits_of(below as nat) + " more below... "@ + selected,
                Style::BoldYellow,
            ),
        )
    } else {
        style::row1(("   "@ + selected, Style::Dimmed))
    }
}

/// The last line: the search, or the keys that end the menu.
pub open spec fn foot_pieces(searching: bool, query: Seq<char>, matched: int) -> Seq<
    (Seq<char>, Style),
> {
    if searching {
        style::row1((" Search: "@ + query + "█ (Enter to lock, Esc to clear)"@, Style::BoldYellow))
    } else if query.len() > 0 {
        style::row1(
            (
                " Filter active: '"@ + query + "' ("@ + text::digits_of(matched as nat)
                    + " matches) - press [/] to edit"@,
                Style::Cyan,
            ),
        )
    } else {
        style::row1((" [Enter] Confirm Selection    [Esc/q] Cancel / Abort"@, Style::Dimmed))
    }
}

pub open spec fn keys_text(purity: bool) -> Seq<char> {
    if purity {
        " [Space] Toggle    [a] All     [n] None    [p] Pure Only  [i] Invert"@
    } else {
        " [Space] Toggle    [a] All     [n] None    [i] Invert"@
    }
}

/// The picture of the menu in a box of the given width.
pub open spec fn menu_page(
    title: Seq<char>,
    subtitle: Seq<char>,
    items: Seq<ItemView>,
    matching: Seq<int>,
    selected: int,
    offset: int,
    visible: int,
    box_width: int,
    searching: bool,
    query: Seq<char>,
) -> Seq<Seq<(Seq<char>, Style)>> {
    let inner = tui_select::at_least(box_width - 2, 0);
    let purity = shows_purity(title, items);
    let below = tui_select::at_least(matching.len() - (offset + visible), 0);
    style::page6(
        rule("┌"@, "┐"@, inner),
        framed(centered(title, Style::BoldYellow, inner), inner),
        framed(centered(ui::truncated(subtitle, inner), Style::Dimmed, inner), inner),
        rule("├"@, "┤"@, inner),
        framed(style::row1((ui::truncated(keys_text(purity), inner), Style::Cyan)), inner),
        framed(
            style::row1(
                (
                    ui::truncated(
                        " [↑/↓] Navigate    [PgUp/Dn] Scroll        [/] Search     [Enter] Confirm"@,
                        inner,
                    ),
                    Style::Dimmed,
                ),
            ),
            inner,
        ),
    ) + style::page2(rule("├"@, "┤"@, inner), framed(above_pieces(offset), inner)) + window_rows(
        items,
        matching,
        selected,
        offset,
        purity,
        inner,
        visible,
    ) + style::page4(
        framed(
            below_pieces(below, checked_count(items, items.len() as int), items.len() as int),
            inner,
        ),
        rule("├"@, "┤"@, inner),
        framed(foot_pieces(searching, query, matching.len() as int), inner),
        rule("└"@, "┘"@, inner),
    )
}

fn make_above(offset: usize) -> (r: Line)
    ensures
        r@ == above_pieces(offset as int),
{
    if offset > 0 {
        let n = number_text(offset as u64);
        let t = text3("   ▲ ", &n, " more items above...");
        Line::new().with(&t, Style::BoldYellow)
    } else {
        Line::new()
    }
}

fn make_below(below: usize, checked: usize, total: usize) -> (r: Line)
    ensures
        r@ == below_pieces(below as int, checked as int, total as int),
{
    let a = number_text(checked as u64);
    let b = number_text(total as u64);
    let mut selected = text3("(Selected: ", &a, "/");
    selected.append(&b);
    selected.append(" items)");
    if below > 0 {
        let n = number_text(below as u64);
        let mut t = text3("   ▼ ", &n, " more below... ");
        t.append(&selected);
        Line::new().with(&t, Style::BoldYellow)
    } else {
        let t = text2("   ", &selected);
        Line::new().with(&t, Style::Dimmed)
    }
}

fn make_foot(searching: bool, query: &str, matched: usize) -> (r: Line)
    ensures
        r@ == foot_pieces(searching, query@, matched as int),
{
    if searching {
        let t = text3(" Search: ", query, "█ (Enter to lock, Esc to clear)");
        Line::new().with(&t, Style::BoldYellow)
    } else if !query.is_empty() {
        let n = number_text(matched as u64);
        let mut t = text3(" Filter active: '", query, "' (");
        t.append(&n);
        t.append(" matches) - press [/] to edit");
        Line::new().with(&t, Style::Cyan)
    } else {
        Line::new().with(
            " [Enter] Confirm Selection    [Esc/q] Cancel / Abort",
            Style::Dimmed,
        )
    }
}

/// The picture of the menu in a box of the given width.
pub fn render_checkbox_ui(
    title: &str,
    subtitle: &str,
    items: &Vec<CheckboxItem>,
    matching_indices: &Vec<usize>,
    selected: usize,
    viewport_offset: usize,
    max_visible: usize,
    box_width: usize,
    search_mode: bool,
    search_query: &str,
) -> (r: Page)
    requires
        tui_select::indexed(matching_indices@, items@.len() as int),
        viewport_offset <= matching_indices@.len(),
    ensures
        r@ == menu_page(
            title@,
            subtitle@,
            tui_select::item_views(items@),
            tui_select::indices(matching_indices@),
            selected as int,
            viewport_offset as int,
            max_visible as int,
            box_width as int,
            search_mode,
            search_query@,
        ),
{
    let inner: usize = if box_width > 2 {
        box_width - 2
    } else {
        0
    };
    let purity: bool = has_purity(title, items);
    let sub = truncate_str(subtitle, inner);
    let keys = truncate_str(
        if purity {
            " [Space] Toggle    [a] All     [n] None    [p] Pure Only  [i] Invert"
        } else {
            " [Space] Toggle    [a] All     [n] None    [i] Invert"
        },
        inner,
    );
    let moves = truncate_str(
        " [↑/↓] Navigate    [PgUp/Dn] Scroll        [/] Search     [Enter] Confirm",
        inner,
    );
    let head = Page::new().with(make_rule("┌", "┐", inner)).with(
        frame(make_centered(title, Style::BoldYellow, inner), inner),
    ).with(frame(make_centered(&sub, Style::Dimmed, inner), inner)).with(
        make_rule("├", "┤", inner),
    ).with(frame(Line::new().with(&keys, Style::Cyan), inner)).with(
        frame(Line::new().with(&moves, Style::Dimmed), inner),
    );
    let top = Page::new().with(make_rule("├", "┤", inner)).with(
        frame(make_above(viewport_offset), inner),
    );
    let window = make_window(
        items,
        matching_indices,
        selected,
        viewport_offset,
        max_visible,
        purity,
        inner,
    );
    let total: usize = matching_indices.len();
    let below: usize = if max_visible < total - viewport_offset {
        total - viewport_offset - max_visible
    } else {
        0
    };
    let checked: usize = count_checked(items);
    let end = Page::new().with(frame(make_below(below, checked, items.len()), inner)).with(
        make_rule("├", "┤", inner),
    ).with(frame(make_foot(search_mode, search_query, total), inner)).with(
        make_rule("└", "┘", inner),
    );
    head.and(top).and(window).and(end)
}

// ---------------------------------------------------------------------------------------
// Laws of the picture

proof fn window_len(
    items: Seq<ItemView>,
    matching: Seq<int>,
    selected: int,
    offset: int,
    purity: bool,
    inner: int,
    k: int,
)
    requires
        0 <= k,
    ensures
        window_rows(items, matching, selected, offset, purity, inner, k).len() == k,
    decreases k,
{
    if k > 0 {
        window_len(items, matching, selected, offset, purity, inner, k - 1);
    }
}

/// The menu always takes up its fixed lines and one line for each visible item.
pub proof fn menu_height(
    title: Seq<char>,
    subtitle: Seq<char>,
    items: Seq<ItemView>,
    matching: Seq<int>,
    selected: int,
    offset: int,
    visible: int,
    box_width: int,
    searching: bool,
    query: Seq<char>,
)
    requires
        0 <= visible,
    ensures
        menu_page(
            title,
            subtitle,
            items,
            matching,
            selected,
            offset,
            visible,
            box_width,
            searching,
            query,
        ).len() == MENU_FIXED_ROWS + visible,
{
    let inner = tui_select::at_least(box_width - 2, 0);
    window_len(items, matching, selected, offset, shows_purity(title, items), inner, visible);
}

proof fn plain_of_sum(a: Seq<(Seq<char>, Style)>, b: Seq<(Seq<char>, Style)>)
    ensures
        style::plain_text(a + b) == style::plain_text(a) + style::plain_text(b),
    decreases b.len(),
{
    if b.len() == 0 {
        assert(a + b =~= a);
        assert(style::plain_text(a) + style::plain_text(b) =~= style::plain_text(a));
    } else {
        plain_of_sum(a, b.drop_last());
        assert((a + b).drop_last() =~= a + b.drop_last());
        assert(style::plain_text(a + b) =~= style::plain_text(a) + style::plain_text(b));
    }
}

proof fn plain_of_one(t: Seq<char>, s: Style)
    ensures
        style::plain_text(style::row1((t, s))) == t,
{
    assert(style::row1((t, s)).drop_last() =~= Seq::<(Seq<char>, Style)>::empty());
    assert(style::plain_text(Seq::<(Seq<char>, Style)>::empty()) =~= Seq::<char>::empty());
    assert(style::row1((t, s)).last() == (t, s));
    assert(style::plain_text(style::row1((t, s))) =~= t);
}

/// A line within the box is exactly as wide as the box, as long as what it says is no wider
/// than the inside and holds no escape sequences.
pub proof fn framed_lines_align(pieces: Seq<(Seq<char>, Style)>, inner: int)
    requires
        ui::no_escape(style::plain_text(pieces)),
        ui::width(style::plain_text(pieces)) <= inner,
    ensures
        style::plain_text(framed(pieces, inner)) == ui::boxed(style::plain_text(pieces), inner),
        ui::width(style::plain_text(framed(pieces, inner))) == inner + 2,
{
    let text = style::plain_text(pieces);
    let fill = style::repeated(' ', inner - ui::width(text));
    let bar = style::row1(("│"@, Style::BoldCyan));
    let end = style::row2((fill, Style::Plain), ("│"@, Style::BoldCyan));
    plain_of_one("│"@, Style::BoldCyan);
    plain_of_one(fill, Style::Plain);
    assert(end.drop_last() =~= style::row1((fill, Style::Plain)));
    assert(style::plain_text(end) =~= fill + "│"@);
    plain_of_sum(bar, pieces);
    plain_of_sum(bar + pieces, end);
    assert(style::plain_text(framed(pieces, inner)) =~= ui::boxed(text, inner));
    ui::boxed_lines_align(text, inner);
}

} // verus!
