//! What is promised of the menus and of the setup: what the keys choose and what the answers
//! configure.
use crate::checkbox_view;
use crate::config::Config;
use crate::install;
use crate::picks;
use crate::repo_menu::RepoMenuView;
use crate::repo_menu;
use crate::resolver;
use crate::strmap;
use crate::text;
use crate::tui_select::{ItemView, Key, MenuEvent, MenuView};
use crate::tui_select;
use crate::wizard::{AnswersView, Question, WizardFacts};
use crate::wizard;
use vstd::prelude::*;
use vstd::string::*;

verus! {

// ---------------------------------------------------------------------------------------
// Check boxes

/// What a menu gives back are the ids of the items that are checked, in order, also those
/// that a search hides.
pub proof fn checked_items_are_given_back(items: Seq<ItemView>, n: int)
    requires
        0 <= n <= items.len(),
    ensures
        picks::made_of(
            tui_select::checked_ids(items, n),
            n,
            |i: int| items[i].checked,
            |i: int| items[i].id,
        ),
        checkbox_view::checked_count(items, n) == tui_select::checked_ids(items, n).len(),
    decreases n,
{
    let keep = |i: int| items[i].checked;
    let give = |i: int| items[i].id;
    if n == 0 {
        picks::made_of_none(keep, give);
    } else {
        checked_items_are_given_back(items, n - 1);
        picks::made_of_one_more(tui_select::checked_ids(items, n - 1), n - 1, keep, give);
        assert(keep(n - 1) == items[n - 1].checked);
        assert(give(n - 1) == items[n - 1].id);
    }
}

/// A search shows the items whose label or description holds what is searched for, in order,
/// and an empty one shows all.
pub proof fn search_shows_what_it_finds(items: Seq<ItemView>, query: Seq<char>, n: int)
    requires
        0 <= n <= items.len(),
    ensures
        picks::made_of(
            tui_select::found_upto(items, query, n),
            n,
            |i: int|
                query.len() == 0 || text::holds(text::lowercase(items[i].label), text::lowercase(query))
                    || text::holds(text::lowercase(items[i].description), text::lowercase(query)),
            |i: int| i,
        ),
    decreases n,
{
    let keep = |i: int|
        query.len() == 0 || text::holds(text::lowercase(items[i].label), text::lowercase(query))
            || text::holds(text::lowercase(items[i].description), text::lowercase(query));
    let give = |i: int| i;
    if n == 0 {
        picks::made_of_none(keep, give);
    } else {
        search_shows_what_it_finds(items, query, n - 1);
        picks::made_of_one_more(tui_select::found_upto(items, query, n - 1), n - 1, keep, give);
        assert(keep(n - 1) == tui_select::found(items[n - 1], query));
        assert(give(n - 1) == n - 1);
    }
}

/// The keys for all, none, pure ones and the others set the boxes of the items that are
/// shown, and of no others.
pub proof fn keys_set_the_boxes_that_are_shown(m: MenuView, shown: Seq<int>, visible: int, i: int)
    requires
        !m.searching,
        0 <= i < m.items.len(),
    ensures
        ({
            let was = m.items[i];
            let all = tui_select::after_event(m, shown, visible, MenuEvent::Key(Key::Char('a'), false)).items;
            let none = tui_select::after_event(m, shown, visible, MenuEvent::Key(Key::Char('n'), false)).items;
            let pure = tui_select::after_event(m, shown, visible, MenuEvent::Key(Key::Char('p'), false)).items;
            let flip = tui_select::after_event(m, shown, visible, MenuEvent::Key(Key::Char('i'), false)).items;
            &&& all.len() == m.items.len() && none.len() == m.items.len()
            &&& pure.len() == m.items.len() && flip.len() == m.items.len()
            &&& all[i].id == was.id && none[i].id == was.id && pure[i].id == was.id && flip[i].id
                == was.id
            &&& if shown.contains(i) {
                &&& all[i].checked
                &&& !none[i].checked
                &&& pure[i].checked == was.is_pure
                &&& flip[i].checked != was.checked
            } else {
                &&& all[i] == was && none[i] == was
                &&& pure[i] == was && flip[i] == was
            }
        }),
{
}

/// The space bar turns the box of the item under the bar, and no other one; the other keys
/// that move leave all boxes alone.
pub proof fn space_turns_one_box(m: MenuView, shown: Seq<int>, visible: int, i: int)
    requires
        !m.searching,
        0 <= m.selected < shown.len(),
        forall|k: int| 0 <= k < shown.len() ==> 0 <= #[trigger] shown[k] < m.items.len(),
        0 <= i < m.items.len(),
    ensures
        ({
            let after = tui_select::after_event(m, shown, visible, MenuEvent::Key(Key::Char(' '), false));
            &&& after.items.len() == m.items.len()
            &&& after.items[i].checked == (m.items[i].checked != (i == shown[m.selected]))
            &&& after.items[i].id == m.items[i].id
            &&& after.selected == m.selected
        }),
{
    assert(0 <= shown[m.selected] < m.items.len());
}

/// The bar moves by one line or one page, stays on the list, and no box changes with it.
pub proof fn keys_move_the_bar(m: MenuView, shown: Seq<int>, visible: int)
    requires
        !m.searching,
        0 <= m.selected < shown.len(),
        visible >= 1,
    ensures
        ({
            let up = tui_select::menu_key(m, shown, visible, Key::Up);
            let down = tui_select::menu_key(m, shown, visible, Key::Down);
            let page_up = tui_select::menu_key(m, shown, visible, Key::PageUp);
            let page_down = tui_select::menu_key(m, shown, visible, Key::PageDown);
            let home = tui_select::menu_key(m, shown, visible, Key::Home);
            let end = tui_select::menu_key(m, shown, visible, Key::End);
            &&& m.selected > 0 ==> up.selected == m.selected - 1
            &&& m.selected == 0 ==> up.selected == 0
            &&& m.selected < shown.len() - 1 ==> down.selected == m.selected + 1
            &&& m.selected == shown.len() - 1 ==> down.selected == m.selected
            &&& m.selected >= visible ==> page_up.selected == m.selected - visible
            &&& m.selected < visible ==> page_up.selected == 0
            &&& m.selected + visible < shown.len() ==> page_down.selected == m.selected + visible
            &&& m.selected + visible >= shown.len() ==> page_down.selected == shown.len() - 1
            &&& home.selected == 0
            &&& end.selected == shown.len() - 1
            &&& up.items == m.items && down.items == m.items && page_up.items == m.items
            &&& page_down.items == m.items && home.items == m.items && end.items == m.items
        }),
{
}

/// While a search is typed no key cancels, confirms or turns a box, but for the break.
pub proof fn typing_a_search_chooses_nothing(m: MenuView, shown: Seq<int>, visible: int, key: Key)
    requires
        m.searching,
    ensures
        !tui_select::cancels(m, MenuEvent::Key(key, false)),
        !tui_select::confirms(m, MenuEvent::Key(key, false)),
        tui_select::after_event(m, shown, visible, MenuEvent::Key(key, false)).items == m.items,
        tui_select::cancels(m, MenuEvent::Key(Key::Char('c'), true)),
{
}

/// Outside a search, escape and `q` cancel, and enter confirms.
pub proof fn closing_keys(m: MenuView)
    requires
        !m.searching,
    ensures
        tui_select::cancels(m, MenuEvent::Key(Key::Esc, false)),
        tui_select::cancels(m, MenuEvent::Key(Key::Char('q'), false)),
        tui_select::confirms(m, MenuEvent::Key(Key::Enter, false)),
        !tui_select::cancels(m, MenuEvent::Key(Key::Enter, false)),
        !tui_select::confirms(m, MenuEvent::Key(Key::Esc, false)),
        tui_select::cancels(m, MenuEvent::Failed),
{
}

// ---------------------------------------------------------------------------------------
// The order of repositories

/// A new repository is put below the bar, and the bar on it; the others keep their order.
pub proof fn new_repo_goes_below_the_bar(m: RepoMenuView)
    requires
        m.valid(),
        m.adding,
        repo_menu::repo_name(text::trim(m.input)),
        !m.repos.contains(text::trim(m.input)),
    ensures
        ({
            let after = repo_menu::adding_key(m, Key::Enter);
            &&& after.repos.len() == m.repos.len() + 1
            &&& after.repos[m.selected + 1] == text::trim(m.input)
            &&& after.repos.take(m.selected + 1) == m.repos.take(m.selected + 1)
            &&& after.repos.skip(m.selected + 2) == m.repos.skip(m.selected + 1)
            &&& after.selected == m.selected + 1
            &&& !after.adding
        }),
{
    let after = repo_menu::adding_key(m, Key::Enter);
    assert(after.repos.take(m.selected + 1) =~= m.repos.take(m.selected + 1));
    assert(after.repos.skip(m.selected + 2) =~= m.repos.skip(m.selected + 1));
}

/// A name that is no name of a repository, or is in the list, is not added, and can be
/// corrected.
pub proof fn bad_repo_is_not_added(m: RepoMenuView)
    requires
        m.adding,
        !repo_menu::repo_name(text::trim(m.input)) || m.repos.contains(text::trim(m.input)),
    ensures
        ({
            let after = repo_menu::adding_key(m, Key::Enter);
            &&& after.repos == m.repos
            &&& after.adding
            &&& after.input == m.input
            &&& after.status matches Some((_, error)) && error
        }),
{
}

/// Only the repository under the bar is removed, and never the last one.
pub proof fn repo_under_the_bar_is_removed(m: RepoMenuView)
    requires
        m.valid(),
        !m.adding,
    ensures
        ({
            let after = repo_menu::list_key(m, Key::Delete, false);
            if m.repos.len() > 1 {
                &&& after.repos.len() == m.repos.len() - 1
                &&& after.repos.take(m.selected) == m.repos.take(m.selected)
                &&& after.repos.skip(m.selected) == m.repos.skip(m.selected + 1)
            } else {
                after.repos == m.repos
            }
        }),
{
    let after = repo_menu::list_key(m, Key::Delete, false);
    if m.repos.len() > 1 {
        assert(after.repos.take(m.selected) =~= m.repos.take(m.selected));
        assert(after.repos.skip(m.selected) =~= m.repos.skip(m.selected + 1));
    }
}

/// Moving a repository up gives it the place above, and the one there its own.
pub proof fn moving_up_trades_places(m: RepoMenuView)
    requires
        m.valid(),
        m.selected > 0,
    ensures
        ({
            let after = repo_menu::moved_up(m);
            &&& after.repos[m.selected - 1] == m.repos[m.selected]
            &&& after.repos[m.selected] == m.repos[m.selected - 1]
            &&& after.selected == m.selected - 1
            &&& forall|i: int|
                0 <= i < m.repos.len() && i != m.selected && i != m.selected - 1
                    ==> #[trigger] after.repos[i] == m.repos[i]
        }),
{
}

// ---------------------------------------------------------------------------------------
// The setup

/// A question is answered by yes or no; anything else, and no answer, means the default.
pub proof fn unclear_answer_means_the_default(a: Seq<char>, default_yes: bool)
    ensures
        wizard::yes_no(None, default_yes) == default_yes,
        install::says_yes(a) ==> wizard::yes_no(Some(a), default_yes),
        install::says_no(a) ==> !wizard::yes_no(Some(a), default_yes),
        !install::says_yes(a) && !install::says_no(a) ==> wizard::yes_no(Some(a), default_yes)
            == default_yes,
{
    crate::install_laws::answers_are_read(a);
}

/// An answer to one question settles that one alone.
pub proof fn answer_settles_its_question(q: Question, a: AnswersView, answer: Option<Seq<char>>)
    ensures
        ({
            let b = wizard::answered_with(q, a, answer);
            let yes = wizard::yes_no(answer, wizard::default_yes(q));
            &&& q == Question::Reconfigure ==> b == (AnswersView { reconfigure: yes, ..a })
            &&& q == Question::Pinning ==> b == (AnswersView { pinning: yes, ..a })
            &&& q == Question::Protection ==> b == (AnswersView { protection: yes, ..a })
            &&& q == Question::Order ==> b == (AnswersView { order: yes, ..a })
            &&& q == Question::Delays ==> b == (AnswersView { delays: yes, ..a })
            &&& q == Question::KernelDelay ==> b == (AnswersView { kernel_delay: yes, ..a })
            &&& q == Question::Orphans ==> b == (AnswersView { orphans: yes, ..a })
            &&& q == Question::UseHelper ==> b == (AnswersView { use_helper: yes, ..a })
            &&& q == Question::Flatpak ==> b == (AnswersView { flatpak: yes, ..a })
            &&& q == Question::Nix ==> b == (AnswersView { nix: yes, ..a })
            &&& q == Question::DelayDays ==> b == (AnswersView { days: b.days, ..a })
            &&& q == Question::HelperName ==> b == (AnswersView { helper_name: b.helper_name, ..a })
        }),
{
}

/// Where no answer is given, only pinning with its protection, the delay of the kernel, the
/// care for orphans and the helper that was found are taken.
pub proof fn silence_takes_the_defaults(q: Question)
    ensures
        wizard::yes_no(None, wizard::default_yes(q)) <==> (q == Question::Pinning || q
            == Question::Protection || q == Question::KernelDelay || q == Question::Orphans || q
            == Question::UseHelper),
{
}

/// An existing configuration is left alone where the setup is declined: nothing more is asked.
pub proof fn declined_setup_asks_nothing(q: Question, f: WizardFacts, a: AnswersView)
    requires
        !a.reconfigure,
        q != Question::Reconfigure,
    ensures
        !wizard::asked(q, f, a),
{
}

/// What does not apply is not asked: a protection without the repositories it is against, a
/// number of days without delays, a helper or an integration that is not there.
pub proof fn only_what_applies_is_asked(f: WizardFacts, a: AnswersView)
    ensures
        !f.config_exists ==> !wizard::asked(Question::Reconfigure, f, a),
        !f.cachyos ==> !wizard::asked(Question::Protection, f, a),
        !a.pinning ==> !wizard::asked(Question::Protection, f, a) && !wizard::asked(
            Question::Order,
            f,
            a,
        ),
        !a.delays ==> !wizard::asked(Question::DelayDays, f, a) && !wizard::asked(
            Question::KernelDelay,
            f,
            a,
        ),
        f.helper is None ==> !wizard::asked(Question::UseHelper, f, a),
        f.helper is Some && a.use_helper ==> !wizard::asked(Question::HelperName, f, a),
        !f.flatpak ==> !wizard::asked(Question::Flatpak, f, a),
        !f.nix ==> !wizard::asked(Question::Nix, f, a),
        a.reconfigure ==> wizard::asked(Question::Pinning, f, a) && wizard::asked(
            Question::Delays,
            f,
            a,
        ) && wizard::asked(Question::Orphans, f, a),
{
}

/// The protection pins the firmware and microcode to `core`, and keeps the firmware of the
/// other repositories out; without it no rule is added.
pub proof fn protection_pins_the_firmware(
    r: Config,
    base: Config,
    f: WizardFacts,
    a: AnswersView,
    order: Option<Seq<Seq<char>>>,
)
    requires
        wizard::configured(r, base, f, a, order),
    ensures
        a.pinning && f.cachyos && a.protection ==> resolver::pinned_to("amd-ucode"@, r.pins@) == Some(
            "core"@,
        ) && resolver::pinned_to("intel-ucode"@, r.pins@) == Some("core"@) && resolver::pinned_to(
            "linux-firmware*"@,
            r.pins@,
        ) == Some("core"@),
        !(a.pinning && f.cachyos && a.protection) ==> forall|k: Seq<char>|
            #[trigger] strmap::lookup(r.pins@, k) == strmap::lookup(base.pins@, k),
        !a.delays || !a.kernel_delay ==> forall|k: Seq<char>|
            #[trigger] strmap::lookup(r.delay@, k) == strmap::lookup(base.delay@, k),
{
    let x = strmap::lookup(r.pins@, "amd-ucode"@);
    let y = strmap::lookup(r.pins@, "intel-ucode"@);
    let z = strmap::lookup(r.pins@, "linux-firmware*"@);
}

/// A number of days that cannot be read means three.
pub proof fn unread_days_mean_three(n: nat)
    ensures
        n <= u32::MAX ==> wizard::delay_days(text::digits_of(n)) == n,
        wizard::delay_days(Seq::empty()) == 3,
{
    if n <= u32::MAX {
        text::number_round_trip(n, u32::MAX as int);
    }
}

/// The helper that is found is the first installed one of those that are looked for.
pub proof fn first_installed_helper_is_found(installed: Seq<Seq<char>>)
    ensures
        installed.contains("paru"@) ==> wizard::first_helper(installed, 0) == Some("paru"@),
        !installed.contains("paru"@) && installed.contains("yay"@) ==> wizard::first_helper(installed, 0)
            == Some("yay"@),
        wizard::first_helper(installed, 0) matches Some(h) ==> installed.contains(h),
        wizard::first_helper(installed, 0) is None <==> !installed.contains("paru"@)
            && !installed.contains("yay"@) && !installed.contains("pikaur"@) && !installed.contains(
            "trizen"@,
        ),
{
    reveal_with_fuel(wizard::first_helper, 6);
    let h = wizard::helper_names();
    assert(h[0] == "paru"@ && h[1] == "yay"@ && h[2] == "pikaur"@ && h[3] == "trizen"@);
}

} // verus!
