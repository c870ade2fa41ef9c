//! What is promised of the records of the installed packages, and of which packages the AUR is
//! asked about.
use crate::config::Config;
use crate::db::AlpmManager;
use crate::db;
use crate::patterns;
use crate::resolver;
use crate::text;
use vstd::prelude::*;
use vstd::string::*;

verus! {

// ---------------------------------------------------------------------------------------
// What the AUR is asked about

/// No repository has a package of this name.
pub open spec fn is_foreign(m: AlpmManager, name: Seq<char>) -> bool {
    forall|d: int, k: int|
        0 <= d < m.sync@.len() && 0 <= k < m.sync@[d].pkgs@.len() ==> (#[trigger] m.sync@[d].pkgs@[k]).name@
            != name
}

proof fn in_db_or_foreign(m: AlpmManager, name: Seq<char>)
    ensures
        db::in_some_db(m.sync@, name) == !is_foreign(m, name),
{
    if db::in_some_db(m.sync@, name) {
        let d = choose|d: int|
            0 <= d < m.sync@.len() && db::db_pkg(#[trigger] m.sync@[d], name) is Some;
        db::pkg_from_found(m.sync@[d].pkgs@, name, 0);
        let k = db::pkg_from(m.sync@[d].pkgs@, name, 0)->0;
        assert(m.sync@[d].pkgs@[k].name@ == name);
    }
    if !is_foreign(m, name) {
        let (d, k) = choose|d: int, k: int|
            0 <= d < m.sync@.len() && 0 <= k < m.sync@[d].pkgs@.len() && (
            #[trigger] m.sync@[d].pkgs@[k]).name@ == name;
        db::pkg_from_found(m.sync@[d].pkgs@, name, 0);
        assert(db::db_pkg(m.sync@[d], name) is Some);
    }
}

proof fn add_new_adds(s: Seq<Seq<char>>, x: Seq<char>, t: Seq<char>)
    ensures
        db::add_new(s, x).contains(t) <==> s.contains(t) || t == x,
{
    let r = db::add_new(s, x);
    if !s.contains(x) {
        assert(r[s.len() as int] == x);
        if s.contains(t) {
            let k = choose|k: int| 0 <= k < s.len() && s[k] == t;
            assert(r[k] == t);
        }
        if r.contains(t) && t != x {
            let k = choose|k: int| 0 <= k < r.len() && r[k] == t;
            assert(s[k] == t);
        }
    }
}

/// The first `n` installed packages hold one of this name.
pub open spec fn is_installed(m: AlpmManager, n: int, name: Seq<char>) -> bool {
    exists|i: int| 0 <= i < n && (#[trigger] m.local@[i]).name@ == name
}

proof fn one_more_installed(m: AlpmManager, n: int, name: Seq<char>)
    requires
        0 < n <= m.local@.len(),
    ensures
        is_installed(m, n, name) <==> is_installed(m, n - 1, name) || m.local@[n - 1].name@ == name,
{
    if m.local@[n - 1].name@ == name {
        assert(m.local@[n - 1].name@ == name);
    }
}

proof fn foreign_holds(m: AlpmManager, n: int, t: Seq<char>)
    requires
        0 <= n <= m.local@.len(),
    ensures
        resolver::foreign_upto(m, n).contains(t) <==> is_installed(m, n, t) && is_foreign(m, t),
    decreases n,
{
    if n > 0 {
        foreign_holds(m, n - 1, t);
        one_more_installed(m, n, t);
        let name = m.local@[n - 1].name@;
        in_db_or_foreign(m, name);
        add_new_adds(resolver::foreign_upto(m, n - 1), name, t);
    }
}

proof fn matching_holds(m: AlpmManager, pattern: Seq<char>, names: Seq<Seq<char>>, n: int, t: Seq<char>)
    requires
        0 <= n <= m.local@.len(),
    ensures
        resolver::matching_upto(m, pattern, names, n).contains(t) <==> names.contains(t) || (is_installed(
            m,
            n,
            t,
        ) && patterns::glob_hit(pattern, t)),
    decreases n,
{
    if n > 0 {
        matching_holds(m, pattern, names, n - 1, t);
        one_more_installed(m, n, t);
        add_new_adds(
            resolver::matching_upto(m, pattern, names, n - 1),
            m.local@[n - 1].name@,
            t,
        );
    }
}

/// One of the first `n` pins leads to the AUR and covers the name: it is the name, or a
/// pattern that matches an installed package of it.
pub open spec fn aur_pin_covers(m: AlpmManager, pins: Seq<(Seq<char>, String)>, n: int, t: Seq<char>) -> bool {
    exists|k: int|
        0 <= k < n && text::same_ignoring_case((#[trigger] pins[k]).1@, "aur"@) && ((pins[k].0 == t
            && !patterns::is_glob(t)) || (is_installed(m, m.local@.len() as int, t)
            && patterns::glob_hit(pins[k].0, t)))
}

proof fn aur_pins_hold(
    m: AlpmManager,
    pins: Seq<(Seq<char>, String)>,
    names: Seq<Seq<char>>,
    n: int,
    t: Seq<char>,
)
    requires
        0 <= n <= pins.len(),
    ensures
        resolver::aur_pins_upto(m, pins, names, n).contains(t) <==> names.contains(t) || aur_pin_covers(
            m,
            pins,
            n,
            t,
        ),
    decreases n,
{
    if n > 0 {
        aur_pins_hold(m, pins, names, n - 1, t);
        let before = resolver::aur_pins_upto(m, pins, names, n - 1);
        let pattern = pins[n - 1].0;
        let more = resolver::matching_upto(m, pattern, before, m.local@.len() as int);
        matching_holds(m, pattern, before, m.local@.len() as int, t);
        add_new_adds(more, pattern, t);
        if aur_pin_covers(m, pins, n, t) && !aur_pin_covers(m, pins, n - 1, t) {
            let k = choose|k: int|
                0 <= k < n && text::same_ignoring_case((#[trigger] pins[k]).1@, "aur"@) && ((pins[k].0
                    == t && !patterns::is_glob(t)) || (is_installed(m, m.local@.len() as int, t)
                    && patterns::glob_hit(pins[k].0, t)));
            assert(k == n - 1) by {
                if k < n - 1 {
                    assert(pins[k].0 == pins[k].0);
                }
            }
        }
        if aur_pin_covers(m, pins, n - 1, t) {
            let k = choose|k: int|
                0 <= k < n - 1 && text::same_ignoring_case((#[trigger] pins[k]).1@, "aur"@) && ((
                pins[k].0 == t && !patterns::is_glob(t)) || (is_installed(m, m.local@.len() as int, t)
                    && patterns::glob_hit(pins[k].0, t)));
            assert(text::same_ignoring_case(pins[k].1@, "aur"@));
        }
        if text::same_ignoring_case(pins[n - 1].1@, "aur"@) && ((pattern == t && !patterns::is_glob(t))
            || (is_installed(m, m.local@.len() as int, t) && patterns::glob_hit(pattern, t))) {
            assert(aur_pin_covers(m, pins, n, t));
        }
    }
}

/// The AUR is asked about exactly the installed packages that no repository has and, where
/// pins are in force, about what is pinned to it.
pub proof fn foreign_and_pinned_are_asked_about(m: AlpmManager, config: Config, t: Seq<char>)
    ensures
        resolver::aur_names(m, config).contains(t) <==> (is_installed(m, m.local@.len() as int, t)
            && is_foreign(m, t)) || (config.features.pinning && aur_pin_covers(
            m,
            config.pins@,
            config.pins@.len() as int,
            t,
        )),
{
    foreign_holds(m, m.local@.len() as int, t);
    aur_pins_hold(
        m,
        config.pins@,
        resolver::foreign_upto(m, m.local@.len() as int),
        config.pins@.len() as int,
        t,
    );
}

// ---------------------------------------------------------------------------------------
// Records of the installed packages

/// The lines that hold no marker.
pub open spec fn unmarked(ls: Seq<Seq<char>>, a: int, b: int) -> bool {
    forall|i: int| a <= i < b ==> #[trigger] ls[i] != "%NAME%"@ && ls[i] != "%INSTALLED_DB%"@
}

proof fn unmarked_lines_say_nothing(
    ls: Seq<Seq<char>>,
    a: int,
    b: int,
    name: Option<Seq<char>>,
    origin: Option<Seq<char>>,
)
    requires
        0 <= a <= b <= ls.len(),
        unmarked(ls, a, b),
    ensures
        resolver::desc_from(ls, a, name, origin) == resolver::desc_from(ls, b, name, origin),
    decreases b - a,
{
    if a < b {
        assert(ls[a] != "%NAME%"@);
        unmarked_lines_say_nothing(ls, a + 1, b, name, origin);
    }
}

/// The name and the origin of a package are what stands, trimmed, in the lines behind their
/// markers, whatever else is there.
pub proof fn values_stand_behind_their_markers(content: Seq<char>, a: int, b: int)
    requires
        0 <= a,
        a + 1 < b,
        b + 1 < text::lines(content).len(),
        unmarked(text::lines(content), 0, a),
        unmarked(text::lines(content), a + 2, b),
        ({
            let ls = text::lines(content);
            ||| ls[a] == "%NAME%"@ && ls[b] == "%INSTALLED_DB%"@
            ||| ls[a] == "%INSTALLED_DB%"@ && ls[b] == "%NAME%"@
        }),
    ensures
        ({
            let ls = text::lines(content);
            let x = text::trim(ls[a + 1]);
            let y = text::trim(ls[b + 1]);
            resolver::described(content) == Some(
                if ls[a] == "%NAME%"@ {
                    (x, y)
                } else {
                    (y, x)
                },
            )
        }),
{
    reveal_strlit("%NAME%");
    reveal_strlit("%INSTALLED_DB%");
    assert("%NAME%"@.len() != "%INSTALLED_DB%"@.len());
    let ls = text::lines(content);
    let none = None::<Seq<char>>;
    unmarked_lines_say_nothing(ls, 0, a, none, none);
    let x = Some(text::trim(ls[a + 1]));
    let y = Some(text::trim(ls[b + 1]));
    if ls[a] == "%NAME%"@ {
        assert(resolver::desc_from(ls, a, none, none) == resolver::desc_from(ls, a + 2, x, none));
        unmarked_lines_say_nothing(ls, a + 2, b, x, none);
        assert(resolver::desc_from(ls, b, x, none) == resolver::desc_from(ls, b + 2, x, y));
    } else {
        assert(resolver::desc_from(ls, a, none, none) == resolver::desc_from(ls, a + 2, none, x));
        unmarked_lines_say_nothing(ls, a + 2, b, none, x);
        assert(resolver::desc_from(ls, b, none, x) == resolver::desc_from(ls, b + 2, y, x));
    }
}

/// A description without one of the two markers tells nothing.
pub proof fn both_markers_are_needed(content: Seq<char>)
    requires
        unmarked(text::lines(content), 0, text::lines(content).len() as int),
    ensures
        resolver::described(content) is None,
{
    let ls = text::lines(content);
    unmarked_lines_say_nothing(ls, 0, ls.len() as int, None, None);
}

/// The origin on record of a package is that of the last description of it.
pub proof fn last_description_counts(contents: Seq<String>, n: int, name: Seq<char>)
    requires
        0 <= n <= contents.len(),
    ensures
        match resolver::recorded_db(contents, n, name) {
            Some(d) => exists|k: int|
                0 <= k < n && resolver::described((#[trigger] contents[k])@) == Some((name, d))
                    && forall|j: int|
                    k < j < n ==> !(resolver::described((#[trigger] contents[j])@) matches Some((x, _))
                        && x == name),
            None => forall|j: int|
                0 <= j < n ==> !(resolver::described((#[trigger] contents[j])@) matches Some((x, _)) && x
                    == name),
        },
    decreases n,
{
    if n > 0 {
        last_description_counts(contents, n - 1, name);
        let last = resolver::described(contents[n - 1]@);
        let (own, origin) = last->0;
        if last is Some && own == name {
            assert(last == Some((name, origin)));
        } else if resolver::recorded_db(contents, n - 1, name) is Some {
            let d = resolver::recorded_db(contents, n - 1, name)->0;
            let low = n - 1;
            let k = choose|k: int|
                0 <= k < low && resolver::described((#[trigger] contents[k])@) == Some((name, d))
                    && forall|j: int|
                    k < j < low ==> !(resolver::described((#[trigger] contents[j])@) matches Some((x, _))
                        && x == name);
            assert(resolver::described(contents[k]@) == Some((name, d)));
        }
    }
}

/// What an update adds to the disk is the difference of the sizes, where the new one is known.
pub proof fn delta_is_the_difference(size: i64, installed: i64)
    requires
        i64::MIN <= size - installed <= i64::MAX,
    ensures
        size > 0 ==> resolver::net_delta_of(size, installed) == Some((size - installed) as i64)
            && resolver::net_delta_of(size, installed)->0 + installed == size,
        size <= 0 ==> resolver::net_delta_of(size, installed) is None,
{
}

} // verus!
