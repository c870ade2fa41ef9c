//! The commands on pins, delays and the order of repositories, and what they show.
use crate::config::{Config, IntegrationsConfig};
use crate::db::AlpmManager;
use crate::db;
use crate::order::sorted_by_name;
use crate::order;
use crate::patterns;
use crate::repo_menu;
use crate::resolver::ResolverEngine;
use crate::resolver;
use crate::strmap::StrMap;
use crate::strmap;
use crate::style::{Line, Page, Style, padded_end, padded_start};
use crate::style;
use crate::text::{join_strings, no_strings, number_text, push_str, text3};
use crate::text;
use crate::transaction::make_counted_heading;
use crate::transaction;
use vstd::prelude::*;
use vstd::string::*;

verus! {

// ---------------------------------------------------------------------------------------
// Installed packages with pins

/// An installed package that a pin applies to.
#[derive(Debug, Clone)]
pub struct PinnedPackage {
    pub name: String,
    pub version: String,
    /// The repository it was installed from, if that is known.
    pub installed_db: String,
    pub repo: String,
    /// Its version in the repository it is pinned to.
    pub candidate: Option<String>,
    /// The days that its updates are held.
    pub delay: Option<u32>,
}

#[verifier::ext_equal]
pub struct PinnedView {
    pub name: Seq<char>,
    pub version: Seq<char>,
    pub installed_db: Seq<char>,
    pub repo: Seq<char>,
    pub candidate: Option<Seq<char>>,
    pub delay: Option<u32>,
}

impl View for PinnedPackage {
    type V = PinnedView;

    open spec fn view(&self) -> PinnedView {
        PinnedView {
            name: self.name@,
            version: self.version@,
            installed_db: self.installed_db@,
            repo: self.repo@,
            candidate: text::opt_text(self.candidate),
            delay: self.delay,
        }
    }
}

pub open spec fn pinned_views(v: Seq<PinnedPackage>) -> Seq<PinnedView> {
    Seq::new(v.len(), |i: int| v[i]@)
}

pub open spec fn pinned_names(v: Seq<PinnedView>) -> Seq<Seq<char>> {
    Seq::new(v.len(), |i: int| v[i].name)
}

/// What is shown of an installed package that is pinned to `repo`.
pub open spec fn pinned_view(
    m: AlpmManager,
    config: Config,
    dbs: Seq<(Seq<char>, String)>,
    i: int,
    repo: Seq<char>,
) -> PinnedView {
    let p = m.local@[i];
    PinnedView {
        name: p.name@,
        version: p.version@,
        installed_db: match strmap::lookup(dbs, p.name@) {
            Some(d) => d@,
            None => Seq::empty(),
        },
        repo,
        candidate: match db::sync_pkg(m.sync@, repo, p.name@) {
            Some(c) => Some(c.version@),
            None => None,
        },
        delay: if config.features.stability_delays {
            resolver::delay_for(p.name@, config.delay@, patterns::glob_rules(config.delay@))
        } else {
            None
        },
    }
}

/// The pinned ones among the first `n` installed packages.
pub open spec fn pinned_upto(
    m: AlpmManager,
    config: Config,
    dbs: Seq<(Seq<char>, String)>,
    n: int,
) -> Seq<PinnedView>
    decreases n,
{
    if n <= 0 {
        Seq::empty()
    } else {
        match resolver::pinned_to(m.local@[n - 1].name@, config.pins@) {
            Some(repo) => pinned_upto(m, config, dbs, n - 1).push(
                pinned_view(m, config, dbs, n - 1, repo),
            ),
            None => pinned_upto(m, config, dbs, n - 1),
        }
    }
}

/// The installed packages that pins apply to.
pub fn pinned_packages(m: &AlpmManager, config: &Config, dbs: &StrMap<String>) -> (r: Vec<
    PinnedPackage,
>)
    ensures
        pinned_views(r@) == pinned_upto(*m, *config, dbs@, m.local@.len() as int),
{
    let globs = ResolverEngine::compile_glob_pins(&config.pins);
    let glob_delays = ResolverEngine::compile_glob_delays(&config.delay);
    let mut out: Vec<PinnedPackage> = Vec::new();
    let mut i: usize = 0;
    assert(pinned_views(out@) =~= Seq::<PinnedView>::empty());
    while i < m.local.len()
        invariant
            i <= m.local@.len(),
            resolver::pairs(globs@) == resolver::valued(patterns::glob_rules(config.pins@)),
            resolver::numbered(glob_delays@) == patterns::glob_rules(config.delay@),
            pinned_views(out@) == pinned_upto(*m, *config, dbs@, i as int),
        decreases m.local@.len() - i,
    {
        let p = &m.local[i];
        match ResolverEngine::match_pinned_package(&p.name, &config.pins, &globs) {
            Some(repo) => {
                let installed_db: String = match dbs.get(&p.name) {
                    Some(d) => d.clone(),
                    None => String::new(),
                };
                let candidate: Option<String> = match m.find_sync(&repo, &p.name) {
                    Some(c) => Some(c.version.clone()),
                    None => None,
                };
                let delay: Option<u32> = if config.features.stability_delays {
                    ResolverEngine::match_delay_days(&p.name, &config.delay, &glob_delays)
                } else {
                    None
                };
                let ghost before = pinned_views(out@);
                let entry = PinnedPackage {
                    name: p.name.clone(),
                    version: p.version.clone(),
                    installed_db,
                    repo,
                    candidate,
                    delay,
                };
                assert(entry@ =~= pinned_view(*m, *config, dbs@, i as int, repo@));
                let ghost shown = entry@;
                out.push(entry);
                assert(pinned_views(out@) =~= before.push(shown));
            },
            None => {},
        }
        i += 1;
    }
    out
}

pub fn names_of_pinned(v: &Vec<PinnedPackage>) -> (r: Vec<String>)
    ensures
        text::texts(r@) == pinned_names(pinned_views(v@)),
{
    let mut out = no_strings();
    let ghost goal = pinned_names(pinned_views(v@));
    let mut i: usize = 0;
    assert(text::texts(out@) =~= goal.take(0));
    while i < v.len()
        invariant
            i <= v@.len(),
            goal == pinned_names(pinned_views(v@)),
            goal.len() == v@.len(),
            text::texts(out@) == goal.take(i as int),
        decreases v@.len() - i,
    {
        let ghost before = text::texts(out@);
        push_str(&mut out, &v[i].name);
        assert(goal[i as int] == v@[i as int].name@);
        assert(text::texts(out@) =~= before.push(goal[i as int]));
        i += 1;
        assert(text::texts(out@) =~= goal.take(i as int));
    }
    assert(goal.take(i as int) =~= goal);
    out
}

// ---------------------------------------------------------------------------------------
// The list of rules

pub open spec fn switch_span(on: bool) -> (Seq<char>, Style) {
    if on {
        ("Enabled"@, Style::Green)
    } else {
        ("Disabled"@, Style::Dimmed)
    }
}

fn switch(label: &str, on: bool) -> (r: Line)
    ensures
        r@ == style::row2((label@, Style::Plain), switch_span(on)),
{
    let line = Line::new().with(label, Style::Plain);
    if on {
        line.with("Enabled", Style::Green)
    } else {
        line.with("Disabled", Style::Dimmed)
    }
}

/// The other package managers that are switched on.
pub open spec fn enabled_managers(c: IntegrationsConfig) -> Seq<Seq<char>> {
    (if c.flatpak {
        Seq::empty().push("Flatpak"@)
    } else {
        Seq::empty()
    }) + (if c.nix {
        Seq::empty().push("Nix"@)
    } else {
        Seq::empty()
    }) + (if c.pipx {
        Seq::empty().push("Pipx"@)
    } else {
        Seq::empty()
    })
}

pub open spec fn integrations_span(c: Config) -> (Seq<char>, Style) {
    let managers = enabled_managers(c.integrations);
    if !c.features.integrations {
        ("Disabled"@, Style::Dimmed)
    } else if managers.len() == 0 {
        ("Enabled (none active)"@, Style::Yellow)
    } else {
        ("Enabled ("@ + text::join(managers, ", "@) + ")"@, Style::Green)
    }
}

pub open spec fn features_page(c: Config) -> Seq<Seq<(Seq<char>, Style)>> {
    style::page2(style::empty_row(), style::row1(("Active Engine Features:"@, Style::Bold))) + style::page5(
        style::row2(("  • Repository Pinning:      "@, Style::Plain), switch_span(c.features.pinning)),
        style::row2(
            ("  • Vendor Stickiness:       "@, Style::Plain),
            if c.features.vendor_stickiness {
                ("Enabled (packages bound to originating repository)"@, Style::Blue)
            } else {
                ("Disabled"@, Style::Dimmed)
            },
        ),
        style::row2(
            ("  • Smart Orphan Lifecycle:  "@, Style::Plain),
            switch_span(c.features.smart_orphans),
        ),
        style::row2(
            ("  • Stability Delay Buffers: "@, Style::Plain),
            switch_span(c.features.stability_delays),
        ),
        style::row2(("  • External Integrations:   "@, Style::Plain), integrations_span(c)),
    )
}

fn make_features(c: &Config) -> (r: Page)
    ensures
        r@ == features_page(*c),
{
    let (sticky, sticky_style) = if c.features.vendor_stickiness {
        ("Enabled (packages bound to originating repository)", Style::Blue)
    } else {
        ("Disabled", Style::Dimmed)
    };
    let mut managers = no_strings();
    if c.integrations.flatpak {
        push_str(&mut managers, "Flatpak");
    }
    if c.integrations.nix {
        push_str(&mut managers, "Nix");
    }
    if c.integrations.pipx {
        push_str(&mut managers, "Pipx");
    }
    assert(text::texts(managers@) =~= enabled_managers(c.integrations));
    assert(text::texts(managers@).len() == managers@.len());
    let (external, external_style) = if !c.features.integrations {
        ("Disabled".to_string(), Style::Dimmed)
    } else if managers.len() == 0 {
        ("Enabled (none active)".to_string(), Style::Yellow)
    } else {
        let j = join_strings(&managers, ", ");
        (text3("Enabled (", &j, ")"), Style::Green)
    };
    let head = Page::new().gap().line("Active Engine Features:", Style::Bold);
    let rows = Page::new().with(
        switch("  • Repository Pinning:      ", c.features.pinning),
    ).with(
        Line::new().with("  • Vendor Stickiness:       ", Style::Plain).with(
            sticky,
            sticky_style,
        ),
    ).with(switch("  • Smart Orphan Lifecycle:  ", c.features.smart_orphans)).with(
        switch("  • Stability Delay Buffers: ", c.features.stability_delays),
    ).with(
        Line::new().with("  • External Integrations:   ", Style::Plain).with(
            &external,
            external_style,
        ),
    );
    head.and(rows)
}

pub open spec fn order_style(i: int, count: int) -> Style {
    if i == 0 {
        Style::BoldGreen
    } else if i == count - 1 {
        Style::Dimmed
    } else {
        Style::Cyan
    }
}

/// The lines of the first `n` repositories of an order.
pub open spec fn order_rows(repos: Seq<Seq<char>>, indent: Seq<char>, n: int) -> Seq<
    Seq<(Seq<char>, Style)>,
>
    decreases n,
{
    if n <= 0 {
        Seq::empty()
    } else {
        order_rows(repos, indent, n - 1).push(
            style::row4(
                (indent + style::pad_start(text::digits_of(n as nat), 2) + ". ["@, Style::Plain),
                (repos[n - 1], Style::Cyan),
                ("] "@, Style::Plain),
                (repo_menu::place_text(n - 1, repos.len() as int), order_style(n - 1, repos.len() as int)),
            ),
        )
    }
}

pub fn make_order_rows(repos: &Vec<String>, indent: &str) -> (r: Page)
    ensures
        r@ == order_rows(text::texts(repos@), indent@, repos@.len() as int),
{
    let ghost all = text::texts(repos@);
    let count: usize = repos.len();
    let mut page = Page::new();
    let mut i: usize = 0;
    while i < count
        invariant
            i <= count,
            count == repos@.len(),
            all == text::texts(repos@),
            all.len() == count,
            page@ == order_rows(all, indent@, i as int),
        decreases count - i,
    {
        assert(all[i as int] == repos@[i as int]@);
        let d = number_text(i as u64 + 1);
        let p = padded_start(&d, 2);
        let lead = text3(indent, &p, ". [");
        let place = if i == 0 {
            "(Priority 1 - Highest)".to_string()
        } else if i == count - 1 {
            text3("(Priority ", &d, " - Lowest)")
        } else {
            text3("(Priority ", &d, ")")
        };
        let style = if i == 0 {
            Style::BoldGreen
        } else if i == count - 1 {
            Style::Dimmed
        } else {
            Style::Cyan
        };
        page = page.with(
            Line::new().with(&lead, Style::Plain).with(&repos[i], Style::Cyan).with(
                "] ",
                Style::Plain,
            ).with(&place, style),
        );
        i += 1;
    }
    page
}

pub open spec fn pin_rows(pins: Seq<(Seq<char>, String)>, n: int) -> Seq<Seq<(Seq<char>, Style)>>
    decreases n,
{
    if n <= 0 {
        Seq::empty()
    } else {
        pin_rows(pins, n - 1).push(pin_row(pins[n - 1].0, pins[n - 1].1@))
    }
}

pub open spec fn pin_row(pattern: Seq<char>, repo: Seq<char>) -> Seq<(Seq<char>, Style)> {
    style::row5(
        ("    • "@, Style::Plain),
        (style::pad_end(pattern, 26), Style::Cyan),
        (" ➔  ["@, Style::Plain),
        (repo, Style::Green),
        ("]"@, Style::Plain),
    )
}

pub fn make_pin_row(pattern: &str, repo: &str) -> (r: Line)
    ensures
        r@ == pin_row(pattern@, repo@),
{
    let wide = padded_end(pattern, 26);
    Line::new().with("    • ", Style::Plain).with(&wide, Style::Cyan).with(
        " ➔  [",
        Style::Plain,
    ).with(repo, Style::Green).with("]", Style::Plain)
}

pub open spec fn exclusion_rows(ex: Seq<(Seq<char>, Vec<String>)>, n: int) -> Seq<
    Seq<(Seq<char>, Style)>,
>
    decreases n,
{
    if n <= 0 {
        Seq::empty()
    } else {
        exclusion_rows(ex, n - 1).push(
            style::row4(
                ("    • ["@, Style::Plain),
                (ex[n - 1].0, Style::Yellow),
                ("] excludes ➔  "@, Style::Plain),
                (text::join(text::texts(ex[n - 1].1@), ", "@), Style::Red),
            ),
        )
    }
}

pub open spec fn delay_rows(ds: Seq<(Seq<char>, u32)>, n: int) -> Seq<Seq<(Seq<char>, Style)>>
    decreases n,
{
    if n <= 0 {
        Seq::empty()
    } else {
        delay_rows(ds, n - 1).push(
            style::row3(
                ("    • "@, Style::Plain),
                (style::pad_end(ds[n - 1].0, 26), Style::Yellow),
                (
                    " ➔  "@ + text::digits_of(ds[n - 1].1 as nat) + " days hold buffer"@,
                    Style::Plain,
                ),
            ),
        )
    }
}

pub open spec fn indented(text: Seq<char>, style: Style) -> Seq<(Seq<char>, Style)> {
    style::row2(("  "@, Style::Plain), (text, style))
}

/// The rules: the order of repositories, the pins, the exclusions and the delays.
pub open spec fn rules_page(c: Config) -> Seq<Seq<(Seq<char>, Style)>> {
    let repos = text::texts(c.repo_order@);
    style::page2(style::empty_row(), style::row1(("Configured Repository Rules:"@, Style::Bold))) + (if repos.len()
        > 0 {
        style::page1(indented("Repository Search Priority Order:"@, Style::Bold)) + order_rows(
            repos,
            "    "@,
            repos.len() as int,
        ) + style::page1(style::empty_row())
    } else {
        Seq::empty()
    }) + (if c.pins@.len() == 0 {
        style::page1(indented("No custom package pins configured."@, Style::Yellow))
    } else {
        style::page1(indented("Custom Pins (Locked Targets):"@, Style::Bold)) + pin_rows(
            c.pins@,
            c.pins@.len() as int,
        )
    }) + (if c.exclude@.len() > 0 {
        style::page2(style::empty_row(), indented("Repository Exclusions:"@, Style::Bold)) + exclusion_rows(
            c.exclude@,
            c.exclude@.len() as int,
        )
    } else {
        Seq::empty()
    }) + (if c.delay@.len() > 0 {
        style::page2(style::empty_row(), indented("Stability Delay Rules:"@, Style::Bold)) + delay_rows(
            c.delay@,
            c.delay@.len() as int,
        )
    } else {
        Seq::empty()
    })
}

fn indent(text: &str, style: Style) -> (r: Line)
    ensures
        r@ == indented(text@, style),
{
    Line::new().with("  ", Style::Plain).with(text, style)
}

fn make_pin_rows(pins: &StrMap<String>) -> (r: Page)
    ensures
        r@ == pin_rows(pins@, pins@.len() as int),
{
    let n: usize = pins.len();
    let mut page = Page::new();
    let mut i: usize = 0;
    while i < n
        invariant
            i <= n,
            n == pins@.len(),
            page@ == pin_rows(pins@, i as int),
        decreases n - i,
    {
        page = page.with(make_pin_row(pins.key_at(i), pins.value_at(i)));
        i += 1;
    }
    page
}

fn make_exclusion_rows(ex: &StrMap<Vec<String>>) -> (r: Page)
    ensures
        r@ == exclusion_rows(ex@, ex@.len() as int),
{
    let n: usize = ex.len();
    let mut page = Page::new();
    let mut i: usize = 0;
    while i < n
        invariant
            i <= n,
            n == ex@.len(),
            page@ == exclusion_rows(ex@, i as int),
        decreases n - i,
    {
        let pats = join_strings(ex.value_at(i), ", ");
        page = page.with(
            Line::new().with("    • [", Style::Plain).with(ex.key_at(i), Style::Yellow).with(
                "] excludes ➔  ",
                Style::Plain,
            ).with(&pats, Style::Red),
        );
        i += 1;
    }
    page
}

fn make_delay_rows(ds: &StrMap<u32>) -> (r: Page)
    ensures
        r@ == delay_rows(ds@, ds@.len() as int),
{
    let n: usize = ds.len();
    let mut page = Page::new();
    let mut i: usize = 0;
    while i < n
        invariant
            i <= n,
            n == ds@.len(),
            page@ == delay_rows(ds@, i as int),
        decreases n - i,
    {
        let wide = padded_end(ds.key_at(i), 26);
        let days: u32 = *ds.value_at(i);
        let d = number_text(days as u64);
        let t = text3(" ➔  ", &d, " days hold buffer");
        page = page.with(
            Line::new().with("    • ", Style::Plain).with(&wide, Style::Yellow).with(
                &t,
                Style::Plain,
            ),
        );
        i += 1;
    }
    page
}

fn make_rules(c: &Config) -> (r: Page)
    ensures
        r@ == rules_page(*c),
{
    assert(text::texts(c.repo_order@).len() == c.repo_order@.len());
    let head = Page::new().gap().line("Configured Repository Rules:", Style::Bold);
    let order = if c.repo_order.len() > 0 {
        Page::new().with(indent("Repository Search Priority Order:", Style::Bold)).and(
            make_order_rows(&c.repo_order, "    "),
        ).and(Page::new().gap())
    } else {
        Page::new()
    };
    let pins = if c.pins.is_empty() {
        Page::new().with(indent("No custom package pins configured.", Style::Yellow))
    } else {
        Page::new().with(indent("Custom Pins (Locked Targets):", Style::Bold)).and(
            make_pin_rows(&c.pins),
        )
    };
    let exclude = if !c.exclude.is_empty() {
        Page::new().gap().with(indent("Repository Exclusions:", Style::Bold)).and(
            make_exclusion_rows(&c.exclude),
        )
    } else {
        Page::new()
    };
    let delay = if !c.delay.is_empty() {
        Page::new().gap().with(indent("Stability Delay Rules:", Style::Bold)).and(
            make_delay_rows(&c.delay),
        )
    } else {
        Page::new()
    };
    head.and(order).and(pins).and(exclude).and(delay)
}

// ---------------------------------------------------------------------------------------
// The list of pinned packages

pub open spec fn pinned_status(p: PinnedView) -> Seq<(Seq<char>, Style)> {
    match p.candidate {
        Some(v) => style::row1((" ➔ ["@ + p.repo + "] "@ + v, Style::Plain)),
        None => style::row2((" ➔ "@, Style::Plain), ("["@ + p.repo + "] NOT FOUND"@, Style::Red)),
    }
}

pub open spec fn pinned_delay(p: PinnedView) -> Seq<(Seq<char>, Style)> {
    match p.delay {
        Some(d) => style::row2(
            (" "@, Style::Plain),
            ("[DELAYED - "@ + text::digits_of(d as nat) + "d buffer]"@, Style::Yellow),
        ),
        None => style::empty_row(),
    }
}

/// The line of a pinned package.
pub open spec fn pinned_row(p: PinnedView) -> Seq<(Seq<char>, Style)> {
    style::row3(
        ("  ✔ "@, Style::Plain),
        (style::pad_end(p.name, 28), Style::Bold),
        (
            " : "@ + p.version + (if p.installed_db.len() > 0 {
                " (installed from ["@ + p.installed_db + "])"@
            } else {
                Seq::empty()
            }),
            Style::Plain,
        ),
    ) + pinned_status(p) + pinned_delay(p)
}

pub open spec fn pinned_rows(v: Seq<PinnedView>, order: Seq<int>, n: int) -> Seq<
    Seq<(Seq<char>, Style)>,
>
    decreases n,
{
    if n <= 0 {
        Seq::empty()
    } else {
        pinned_rows(v, order, n - 1).push(pinned_row(v[order[n - 1]]))
    }
}

/// The whole list, with the pinned packages in the given order.
pub open spec fn list_page(c: Config, v: Seq<PinnedView>, order: Seq<int>) -> Seq<
    Seq<(Seq<char>, Style)>,
> {
    features_page(c) + rules_page(c) + (if v.len() > 0 {
        transaction::counted_heading(
            "Installed Packages with Custom Pins ("@,
            v.len() as int,
            "):"@,
            Style::Bold,
        ) + pinned_rows(v, order, v.len() as int)
    } else {
        Seq::empty()
    }) + style::page1(style::empty_row())
}

/// The whole list, with the pinned packages in the order of their names.
pub open spec fn lists_pins(
    c: Config,
    v: Seq<PinnedView>,
    page: Seq<Seq<(Seq<char>, Style)>>,
) -> bool {
    exists|order: Seq<int>| #[trigger]
        order::name_order(pinned_names(v), order) && page == list_page(c, v, order)
}

fn make_pinned_row(p: &PinnedPackage) -> (r: Line)
    ensures
        r@ == pinned_row(p@),
{
    let wide = padded_end(&p.name, 28);
    let from: String = if !p.installed_db.as_str().is_empty() {
        text3(" (installed from [", &p.installed_db, "])")
    } else {
        String::new()
    };
    assert(p.installed_db@.len() == 0 ==> from@ =~= Seq::<char>::empty());
    let t = text3(" : ", &p.version, &from);
    let mut line = Line::new().with("  ✔ ", Style::Plain).with(&wide, Style::Bold).with(
        &t,
        Style::Plain,
    );
    let ghost head = line@;
    match &p.candidate {
        Some(v) => {
            let mut s = text3(" ➔ [", &p.repo, "] ");
            s.append(v);
            line = line.with(&s, Style::Plain);
        },
        None => {
            let s = text3("[", &p.repo, "] NOT FOUND");
            line = line.with(" ➔ ", Style::Plain).with(&s, Style::Red);
        },
    }
    assert(line@ =~= head + pinned_status(p@));
    let ghost mid = line@;
    if let Some(d) = p.delay {
        let n = number_text(d as u64);
        let s = text3("[DELAYED - ", &n, "d buffer]");
        line = line.with(" ", Style::Plain).with(&s, Style::Yellow);
    }
    assert(line@ =~= mid + pinned_delay(p@));
    line
}

/// Shows the features, the rules, and the installed packages that pins apply to, by name.
pub fn cmd_list(config: &Config, m: &AlpmManager, dbs: &StrMap<String>) -> (r: Page)
    ensures
        lists_pins(*config, pinned_upto(*m, *config, dbs@, m.local@.len() as int), r@),
{
    let features = make_features(config);
    let rules = make_rules(config);
    let matches = pinned_packages(m, config, dbs);
    let names = names_of_pinned(&matches);
    let order = sorted_by_name(&names);
    let ghost v = pinned_views(matches@);
    let ghost o = order::places(order@);
    let n: usize = matches.len();
    assert(v.len() == n);
    assert(pinned_names(v).len() == n);
    assert(o.len() == order@.len());
    let list = if n > 0 {
        let head = make_counted_heading(
            "Installed Packages with Custom Pins (",
            n,
            "):",
            Style::Bold,
        );
        let mut rows = Page::new();
        let mut i: usize = 0;
        while i < n
            invariant
                i <= n,
                n == matches@.len(),
                n == order@.len(),
                v == pinned_views(matches@),
                v.len() == n,
                pinned_names(v).len() == n,
                o == order::places(order@),
                order::name_order(pinned_names(v), o),
                rows@ == pinned_rows(v, o, i as int),
            decreases n - i,
        {
            assert(0 <= o[i as int] < n);
            let k: usize = order[i];
            assert(o[i as int] == k);
            assert(v[k as int] == matches@[k as int]@);
            rows = rows.with(make_pinned_row(&matches[k]));
            i += 1;
        }
        head.and(rows)
    } else {
        Page::new()
    };
    let page = features.and(rules).and(list).and(Page::new().gap());
    proof {
        assert(order::name_order(pinned_names(v), o));
        assert(page@ == list_page(*config, v, o));
    }
    page
}

} // verus!
