//! Which update each installed package gets, from where, and which updates are held back.
use crate::aur::{AurItem, clean_dep_name};
use crate::aur;
use crate::config::Config;
use crate::db::{AlpmManager, LocalPackage, SyncPackage, VersionOrder, push_new};
use crate::db;
use crate::double::days_left_of;
use crate::double;
use crate::download_plan;
use crate::patterns::{has_glob_chars, matches_glob, pattern_order};
use crate::patterns;
use crate::strmap::StrMap;
use crate::strmap;
use crate::text::{clone_opt_string, clone_strings, eq_ignore_case, lines_of, number_text, str_eq, str_precedes, trimmed};
use crate::text;
use vstd::prelude::*;
use vstd::string::*;

verus! {

/// A package as it would be installed.
#[derive(Debug, Clone)]
pub struct CandidatePackage {
    pub name: String,
    pub version: String,
    pub repo: String,
    pub base: String,
    pub csize: i64,
    pub isize: i64,
    pub desc: String,
    pub builddate: i64,
    pub is_aur: bool,
    pub depends: Vec<String>,
}

/// The contents of a `CandidatePackage`.
#[verifier::ext_equal]
pub struct CandidateView {
    pub name: Seq<char>,
    pub version: Seq<char>,
    pub repo: Seq<char>,
    pub base: Seq<char>,
    pub csize: i64,
    pub isize: i64,
    pub desc: Seq<char>,
    pub builddate: i64,
    pub is_aur: bool,
    pub depends: Seq<Seq<char>>,
}

impl View for CandidatePackage {
    type V = CandidateView;

    open spec fn view(&self) -> CandidateView {
        CandidateView {
            name: self.name@,
            version: self.version@,
            repo: self.repo@,
            base: self.base@,
            csize: self.csize,
            isize: self.isize,
            desc: self.desc@,
            builddate: self.builddate,
            is_aur: self.is_aur,
            depends: text::texts(self.depends@),
        }
    }
}

pub open spec fn opt_candidate(c: Option<CandidatePackage>) -> Option<CandidateView> {
    match c {
        Some(x) => Some(x@),
        None => None,
    }
}

/// The outcome for one installed package.
#[derive(Debug, Clone)]
pub struct ResolvedPackage {
    pub name: String,
    /// `custom` where a pin decides, `sticky` where the package stays with the repository it
    /// came from, else `default`.
    pub state: String,
    pub pinned_repo: Option<String>,
    pub installed_ver: String,
    pub installed_size: i64,
    pub installed_db: String,
    pub candidate: Option<CandidatePackage>,
    pub natural_top_repo: Option<String>,
    pub diverted_from_top: bool,
    pub needs_update: bool,
    pub update_type: String,
    pub is_downgrade: bool,
    pub net_delta: Option<i64>,
    pub held: bool,
    pub hold_reason: String,
}

/// The contents of a `ResolvedPackage`.
#[verifier::ext_equal]
pub struct ResolvedView {
    pub name: Seq<char>,
    pub state: Seq<char>,
    pub pinned_repo: Option<Seq<char>>,
    pub installed_ver: Seq<char>,
    pub installed_size: i64,
    pub installed_db: Seq<char>,
    pub candidate: Option<CandidateView>,
    pub natural_top_repo: Option<Seq<char>>,
    pub diverted_from_top: bool,
    pub needs_update: bool,
    pub update_type: Seq<char>,
    pub is_downgrade: bool,
    pub net_delta: Option<i64>,
    pub held: bool,
    pub hold_reason: Seq<char>,
}

impl View for ResolvedPackage {
    type V = ResolvedView;

    open spec fn view(&self) -> ResolvedView {
        ResolvedView {
            name: self.name@,
            state: self.state@,
            pinned_repo: text::opt_text(self.pinned_repo),
            installed_ver: self.installed_ver@,
            installed_size: self.installed_size,
            installed_db: self.installed_db@,
            candidate: opt_candidate(self.candidate),
            natural_top_repo: text::opt_text(self.natural_top_repo),
            diverted_from_top: self.diverted_from_top,
            needs_update: self.needs_update,
            update_type: self.update_type@,
            is_downgrade: self.is_downgrade,
            net_delta: self.net_delta,
            held: self.held,
            hold_reason: self.hold_reason@,
        }
    }
}

/// The outcome for a whole installation.
#[derive(Debug, Clone)]
pub struct ResolveResult {
    pub installed_count: usize,
    pub repos: Vec<String>,
    /// One outcome for each installed package, in the order of the packages.
    pub packages: Vec<ResolvedPackage>,
    pub updates: Vec<ResolvedPackage>,
    pub held_packages: Vec<ResolvedPackage>,
    pub unresolved_pins: Vec<(String, String)>,
}

/// An AUR package and how its version compares with the installed one.
#[derive(Debug, Clone)]
pub struct AurOffer {
    pub item: AurItem,
    pub versus_installed: VersionOrder,
}

impl ResolvedPackage {
    pub fn dup(&self) -> (r: Self)
        ensures
            r@ == self@,
    {
        ResolvedPackage {
            name: self.name.clone(),
            state: self.state.clone(),
            pinned_repo: clone_opt_string(&self.pinned_repo),
            installed_ver: self.installed_ver.clone(),
            installed_size: self.installed_size,
            installed_db: self.installed_db.clone(),
            candidate: match &self.candidate {
                Some(c) => Some(c.dup()),
                None => None,
            },
            natural_top_repo: clone_opt_string(&self.natural_top_repo),
            diverted_from_top: self.diverted_from_top,
            needs_update: self.needs_update,
            update_type: self.update_type.clone(),
            is_downgrade: self.is_downgrade,
            net_delta: self.net_delta,
            held: self.held,
            hold_reason: self.hold_reason.clone(),
        }
    }
}

impl CandidatePackage {
    pub fn dup(&self) -> (r: Self)
        ensures
            r@ == self@,
    {
        CandidatePackage {
            name: self.name.clone(),
            version: self.version.clone(),
            repo: self.repo.clone(),
            base: self.base.clone(),
            csize: self.csize,
            isize: self.isize,
            desc: self.desc.clone(),
            builddate: self.builddate,
            is_aur: self.is_aur,
            depends: clone_strings(&self.depends),
        }
    }

    /// The candidate that an AUR package makes: its sizes are unknown until it is built.
    pub fn from_aur(aur_pkg: &AurItem) -> (r: Self)
        ensures
            r@ == candidate_of_aur(*aur_pkg),
    {
        let mut depends: Vec<String> = Vec::new();
        let mut i: usize = 0;
        while i < aur_pkg.depends.len()
            invariant
                i <= aur_pkg.depends@.len(),
                depends@.len() == i,
                forall|j: int|
                    0 <= j < i ==> (#[trigger] depends@[j])@ == aur::dep_name(aur_pkg.depends@[j]@),
            decreases aur_pkg.depends@.len() - i,
        {
            depends.push(clean_dep_name(&aur_pkg.depends[i]));
            i += 1;
        }
        let base: String = match &aur_pkg.package_base {
            Some(b) => b.clone(),
            None => aur_pkg.name.clone(),
        };
        let desc: String = match &aur_pkg.description {
            Some(d) => d.clone(),
            None => String::new(),
        };
        let r = CandidatePackage {
            name: aur_pkg.name.clone(),
            version: aur_pkg.version.clone(),
            repo: "aur".to_string(),
            base,
            csize: 0,
            isize: 0,
            desc,
            builddate: match aur_pkg.last_modified {
                Some(t) => t,
                None => 0,
            },
            is_aur: true,
            depends,
        };
        assert(r@ =~= candidate_of_aur(*aur_pkg)) by {
            assert(text::texts(r.depends@) =~= candidate_of_aur(*aur_pkg).depends);
        }
        r
    }

    /// How much more room the package takes than the installed one; unknown where its own
    /// size is unknown.
    pub fn compute_net_delta(&self, installed_size: i64) -> (r: Option<i64>)
        requires
            self.isize > 0 ==> self.isize - installed_size <= i64::MAX,
        ensures
            r == net_delta_of(self.isize, installed_size),
    {
        if self.isize > 0 {
            Some(self.isize - installed_size)
        } else {
            None
        }
    }

    /// The age of the package in whole seconds at the time `now`, never negative; nothing
    /// where its build date is unknown.
    pub fn age_seconds(&self, now: i64) -> (r: Option<u64>)
        ensures
            match r {
                Some(a) => age_at(self.builddate, now) == Some(a as int),
                None => age_at(self.builddate, now) is None,
            },
    {
        if self.builddate <= 0 {
            None
        } else if now <= self.builddate {
            Some(0)
        } else {
            Some((now - self.builddate) as u64)
        }
    }
}

pub open spec fn net_delta_of(size: i64, installed_size: i64) -> Option<i64> {
    if size > 0 {
        Some((size - installed_size) as i64)
    } else {
        None
    }
}

pub open spec fn age_at(builddate: i64, now: i64) -> Option<int> {
    if builddate <= 0 {
        None
    } else if now <= builddate {
        Some(0)
    } else {
        Some(now - builddate)
    }
}

/// The candidate for a package of the AUR.
pub open spec fn candidate_of_aur(a: AurItem) -> CandidateView {
    CandidateView {
        name: a.name@,
        version: a.version@,
        repo: "aur"@,
        base: match a.package_base {
            Some(b) => b@,
            None => a.name@,
        },
        csize: 0,
        isize: 0,
        desc: match a.description {
            Some(d) => d@,
            None => Seq::empty(),
        },
        builddate: match a.last_modified {
            Some(t) => t,
            None => 0,
        },
        is_aur: true,
        depends: Seq::new(a.depends@.len(), |i: int| aur::dep_name(a.depends@[i]@)),
    }
}

/// The candidate for a package of the repository `repo`.
pub open spec fn candidate_of(p: SyncPackage, repo: Seq<char>) -> CandidateView {
    CandidateView {
        name: p.name@,
        version: p.version@,
        repo,
        base: match p.base {
            Some(b) => b@,
            None => p.name@,
        },
        csize: p.csize,
        isize: p.isize,
        desc: match p.desc {
            Some(d) => d@,
            None => Seq::empty(),
        },
        builddate: p.builddate,
        is_aur: false,
        depends: text::texts(p.depends@),
    }
}

fn sync_candidate(p: &SyncPackage, repo: &str) -> (r: CandidatePackage)
    ensures
        r@ == candidate_of(*p, repo@),
{
    CandidatePackage {
        name: p.name.clone(),
        version: p.version.clone(),
        repo: repo.to_string(),
        base: match &p.base {
            Some(b) => b.clone(),
            None => p.name.clone(),
        },
        csize: p.csize,
        isize: p.isize,
        desc: match &p.desc {
            Some(d) => d.clone(),
            None => String::new(),
        },
        builddate: p.builddate,
        is_aur: false,
        depends: clone_strings(&p.depends),
    }
}

// ---------------------------------------------------------------------------------------
// Pins, delays and exclusions

/// Pairs of strings as pairs of texts.
pub open spec fn pairs(v: Seq<(String, String)>) -> Seq<(Seq<char>, Seq<char>)> {
    Seq::new(v.len(), |i: int| (v[i].0@, v[i].1@))
}

/// Patterns with numbers.
pub open spec fn numbered(v: Seq<(String, u32)>) -> Seq<(Seq<char>, u32)> {
    Seq::new(v.len(), |i: int| (v[i].0@, v[i].1))
}

/// An association list whose values are strings, as one of texts.
pub open spec fn valued(e: Seq<(Seq<char>, String)>) -> Seq<(Seq<char>, Seq<char>)> {
    Seq::new(e.len(), |i: int| (e[i].0, e[i].1@))
}

/// The pin for `name`: a pin of exactly that name, else the first matching pattern of
/// `globs`. With it come the pin's own text and whether it is exact.
pub open spec fn pin_rule(
    name: Seq<char>,
    pins: Seq<(Seq<char>, String)>,
    globs: Seq<(Seq<char>, Seq<char>)>,
) -> Option<(Seq<char>, Seq<char>, bool)> {
    match strmap::lookup(pins, name) {
        Some(repo) => Some((name, repo@, true)),
        None => match patterns::first_hit(globs, name, 0) {
            Some(i) => Some((globs[i].0, globs[i].1, false)),
            None => None,
        },
    }
}

/// The repository that `name` is pinned to.
pub open spec fn pinned_to(name: Seq<char>, pins: Seq<(Seq<char>, String)>) -> Option<Seq<char>> {
    match pin_rule(name, pins, valued(patterns::glob_rules(pins))) {
        Some((_, repo, _)) => Some(repo),
        None => None,
    }
}

/// The days that an update of `name` has to wait.
pub open spec fn delay_for(
    name: Seq<char>,
    delays: Seq<(Seq<char>, u32)>,
    globs: Seq<(Seq<char>, u32)>,
) -> Option<u32> {
    match strmap::lookup(delays, name) {
        Some(d) => Some(d),
        None => match patterns::first_hit(globs, name, 0) {
            Some(i) => Some(globs[i].1),
            None => None,
        },
    }
}

/// `repo` is not to provide `name`.
pub open spec fn excluded(
    name: Seq<char>,
    repo: Seq<char>,
    excludes: Seq<(Seq<char>, Vec<String>)>,
) -> bool {
    match strmap::lookup(excludes, repo) {
        Some(patterns) => some_pattern_covers(patterns@, name),
        None => false,
    }
}

pub open spec fn some_pattern_covers(patterns: Seq<String>, name: Seq<char>) -> bool {
    exists|i: int| 0 <= i < patterns.len() && pattern_covers((#[trigger] patterns[i])@, name)
}

pub open spec fn pattern_covers(pattern: Seq<char>, name: Seq<char>) -> bool {
    pattern == name || patterns::glob_hit(pattern, name)
}

/// An exact pin decides, whatever patterns there are.
pub proof fn exact_pin_wins(name: Seq<char>, pins: Seq<(Seq<char>, String)>)
    requires
        strmap::lookup(pins, name) is Some,
    ensures
        pinned_to(name, pins) == Some(strmap::lookup(pins, name)->0@),
{
}

/// Without an exact pin, the pattern that decides is at least as long as every other pin
/// pattern that matches; and if any pattern matches, one decides.
pub proof fn longest_pattern_wins(name: Seq<char>, pins: Seq<(Seq<char>, String)>, other: int)
    requires
        strmap::lookup(pins, name) is None,
        0 <= other < pins.len(),
        patterns::is_glob(pins[other].0),
        patterns::glob_hit(pins[other].0, name),
    ensures
        match pin_rule(name, pins, valued(patterns::glob_rules(pins))) {
            Some((pattern, repo, exact)) => {
                &&& !exact
                &&& patterns::glob_hit(pattern, name)
                &&& patterns::byte_len(pattern) >= patterns::byte_len(pins[other].0)
                &&& exists|k: int|
                    0 <= k < pins.len() && (#[trigger] pins[k]).0 == pattern && pins[k].1@ == repo
            },
            None => false,
        },
{
    let ks = strmap::keys(pins);
    let order = patterns::glob_order(ks);
    let rules = valued(patterns::glob_rules(pins));
    patterns::glob_order_is_longest_first(ks, ks.len() as int);
    patterns::first_hit_is_first(rules, name, 0);
    assert(ks[other] == pins[other].0);
    assert(order.contains(other));
    let at = choose|at: int| 0 <= at < order.len() && order[at] == other;
    assert(rules[at].0 == pins[other].0);
    let hit = patterns::first_hit(rules, name, 0);
    assert(hit is Some);
    let i = hit->0;
    assert(i <= at);
    assert(rules[i].0 == pins[order[i]].0);
    if i < at {
        assert(patterns::byte_len(ks[order[i]]) >= patterns::byte_len(ks[order[at]]));
    }
}

// ---------------------------------------------------------------------------------------
// The choice of a candidate

/// Everything that decides the outcome for a package.
pub struct Inputs<'a> {
    pub manager: &'a AlpmManager,
    pub config: &'a Config,
    pub aur: &'a StrMap<AurOffer>,
    pub installed_dbs: &'a StrMap<String>,
    pub now: i64,
}

/// The first repository, from `i` on in order of priority, that has a package `name`.
pub open spec fn holding_repo(m: AlpmManager, name: Seq<char>, i: int) -> Option<int>
    decreases m.repos@.len() - i,
{
    if i < 0 || i >= m.repos@.len() {
        None
    } else if db::sync_pkg(m.sync@, m.repos@[i]@, name) is Some {
        Some(i)
    } else {
        holding_repo(m, name, i + 1)
    }
}

/// The first repository, from `i` on, that has `name` in the installed version.
pub open spec fn same_version_repo(m: AlpmManager, name: Seq<char>, i: int) -> Option<int>
    decreases m.repos@.len() - i,
{
    if i < 0 || i >= m.repos@.len() {
        None
    } else if same_version_in(m, name, m.repos@[i]@) {
        Some(i)
    } else {
        same_version_repo(m, name, i + 1)
    }
}

pub open spec fn same_version_in(m: AlpmManager, name: Seq<char>, repo: Seq<char>) -> bool {
    match db::sync_pkg(m.sync@, repo, name) {
        Some(p) => p.versus_installed == VersionOrder::Same,
        None => false,
    }
}

/// The first repository, from `i` on, that has `name` and is not excluded from providing it.
pub open spec fn open_repo(s: Inputs, name: Seq<char>, i: int) -> Option<int>
    decreases s.manager.repos@.len() - i,
{
    if i < 0 || i >= s.manager.repos@.len() {
        None
    } else if !barred(s, name, s.manager.repos@[i]@) && db::sync_pkg(
        s.manager.sync@,
        s.manager.repos@[i]@,
        name,
    ) is Some {
        Some(i)
    } else {
        open_repo(s, name, i + 1)
    }
}

/// Pinning is on and `repo` is excluded for `name`.
pub open spec fn barred(s: Inputs, name: Seq<char>, repo: Seq<char>) -> bool {
    s.config.features.pinning && excluded(name, repo, s.config.exclude@)
}

/// The repository that a package came from: the one on record; else the first that has it in
/// the installed version; else the first that has it at all.
pub open spec fn origin_of(s: Inputs, name: Seq<char>) -> Seq<char> {
    let recorded = match strmap::lookup(s.installed_dbs@, name) {
        Some(d) => d@,
        None => Seq::empty(),
    };
    let m = *s.manager;
    if recorded.len() > 0 {
        recorded
    } else {
        match same_version_repo(m, name, 0) {
            Some(i) => m.repos@[i]@,
            None => match holding_repo(m, name, 0) {
                Some(i) => m.repos@[i]@,
                None => Seq::empty(),
            },
        }
    }
}

/// A candidate, how it compares with the installed version, and whether it was chosen
/// because the package stays with the repository it came from.
pub struct Choice {
    pub candidate: Option<CandidatePackage>,
    pub order: VersionOrder,
    pub sticky: bool,
}

#[verifier::ext_equal]
pub struct ChoiceView {
    pub candidate: Option<CandidateView>,
    pub order: VersionOrder,
    pub sticky: bool,
}

impl View for Choice {
    type V = ChoiceView;

    open spec fn view(&self) -> ChoiceView {
        ChoiceView {
            candidate: opt_candidate(self.candidate),
            order: self.order,
            sticky: self.sticky,
        }
    }
}

pub open spec fn no_choice() -> ChoiceView {
    ChoiceView { candidate: None, order: VersionOrder::Same, sticky: false }
}

pub open spec fn aur_choice(s: Inputs, name: Seq<char>, sticky: bool) -> ChoiceView {
    match strmap::lookup(s.aur@, name) {
        Some(o) => ChoiceView {
            candidate: Some(candidate_of_aur(o.item)),
            order: o.versus_installed,
            sticky,
        },
        None => no_choice(),
    }
}

pub open spec fn sync_choice(s: Inputs, repo: Seq<char>, name: Seq<char>, sticky: bool) -> ChoiceView {
    match db::sync_pkg(s.manager.sync@, repo, name) {
        Some(p) => ChoiceView {
            candidate: Some(candidate_of(p, repo)),
            order: p.versus_installed,
            sticky,
        },
        None => no_choice(),
    }
}

/// What `repo` offers, where the AUR counts as a repository of that name.
pub open spec fn offer_of(s: Inputs, repo: Seq<char>, name: Seq<char>, sticky: bool) -> ChoiceView {
    if text::same_ignoring_case(repo, "aur"@) {
        aur_choice(s, name, sticky)
    } else {
        sync_choice(s, repo, name, sticky)
    }
}

/// What the repositories offer in order of priority, and the AUR behind them.
pub open spec fn priority_choice(s: Inputs, name: Seq<char>) -> ChoiceView {
    match open_repo(s, name, 0) {
        Some(i) => sync_choice(s, s.manager.repos@[i]@, name, false),
        None => aur_choice(s, name, false),
    }
}

/// A package stays with its repository of origin: the feature is on, the origin is known and
/// not excluded, and it has the package.
pub open spec fn stays(s: Inputs, name: Seq<char>) -> bool {
    let home = origin_of(s, name);
    s.config.features.vendor_stickiness && home.len() > 0 && !barred(s, name, home) && offer_of(
        s,
        home,
        name,
        true,
    ).candidate is Some
}

/// The repository that a pin asks for, where pinning is on.
pub open spec fn active_pin(s: Inputs, name: Seq<char>) -> Option<Seq<char>> {
    if s.config.features.pinning {
        pinned_to(name, s.config.pins@)
    } else {
        None
    }
}

/// The candidate for a package: what its pin asks for and nothing else; without a pin, what
/// its origin offers if it stays there, else what the first open repository offers.
pub open spec fn choice_for(s: Inputs, name: Seq<char>) -> ChoiceView {
    match active_pin(s, name) {
        Some(repo) => offer_of(s, repo, name, false),
        None => if stays(s, name) {
            offer_of(s, origin_of(s, name), name, true)
        } else {
            priority_choice(s, name)
        },
    }
}

/// What a candidate means for the installed package: an update, of which kind, and whether
/// it goes back to an older version. Only a pin asks for an older version, or for another
/// spelling of the same one.
pub open spec fn verdict(
    pinned: bool,
    order: VersionOrder,
    same_text: bool,
) -> (bool, Seq<char>, bool) {
    match order {
        VersionOrder::Newer => (true, "upgrade"@, false),
        VersionOrder::Older => if pinned {
            (true, "downgrade"@, true)
        } else {
            (false, "up_to_date"@, false)
        },
        VersionOrder::Same => if pinned && !same_text {
            (true, "pin_sync"@, false)
        } else {
            (false, "up_to_date"@, false)
        },
    }
}

pub open spec fn verdict_for(s: Inputs, p: LocalPackage) -> (bool, Seq<char>, bool) {
    let c = choice_for(s, p.name@);
    match c.candidate {
        Some(x) => verdict(active_pin(s, p.name@) is Some, c.order, x.version == p.version@),
        None => (false, "up_to_date"@, false),
    }
}

/// The outcome for one installed package, before any hold.
pub open spec fn outcome(s: Inputs, p: LocalPackage) -> ResolvedView {
    let name = p.name@;
    let pin = active_pin(s, name);
    let c = choice_for(s, name);
    let v = verdict_for(s, p);
    let top = match holding_repo(*s.manager, name, 0) {
        Some(i) => Some(s.manager.repos@[i]@),
        None => None,
    };
    ResolvedView {
        name,
        state: if pin is Some {
            "custom"@
        } else if c.sticky {
            "sticky"@
        } else {
            "default"@
        },
        pinned_repo: pin,
        installed_ver: p.version@,
        installed_size: p.isize,
        installed_db: origin_of(s, name),
        candidate: c.candidate,
        natural_top_repo: top,
        diverted_from_top: pin is None && !c.sticky && c.candidate is Some && top is Some
            && c.candidate->0.repo != top->0,
        needs_update: v.0,
        update_type: v.1,
        is_downgrade: v.2,
        net_delta: match c.candidate {
            Some(x) => net_delta_of(x.isize, p.isize),
            None => None,
        },
        held: false,
        hold_reason: Seq::empty(),
    }
}

/// A pinned package is offered by the repository of its pin or not at all.
pub proof fn pin_confines(s: Inputs, name: Seq<char>)
    requires
        active_pin(s, name) is Some,
        choice_for(s, name).candidate is Some,
    ensures
        ({
            let repo = active_pin(s, name)->0;
            let c = choice_for(s, name).candidate->0;
            c.repo == repo || (text::same_ignoring_case(repo, "aur"@) && c.is_aur && c.repo == "aur"@)
        }),
{
}

/// Without a pin no candidate leads to an older version or to a mere respelling.
pub proof fn only_pins_go_back(s: Inputs, p: LocalPackage)
    requires
        active_pin(s, p.name@) is None,
    ensures
        !outcome(s, p).is_downgrade,
        outcome(s, p).needs_update ==> outcome(s, p).update_type == "upgrade"@ && choice_for(
            s,
            p.name@,
        ).order == VersionOrder::Newer,
{
}

/// An excluded repository offers nothing to a package that is not pinned.
pub proof fn excluded_repo_is_passed_over(s: Inputs, name: Seq<char>)
    requires
        active_pin(s, name) is None,
        choice_for(s, name).candidate is Some,
        !choice_for(s, name).candidate->0.is_aur,
    ensures
        !barred(s, name, choice_for(s, name).candidate->0.repo),
{
    if !stays(s, name) {
        open_repo_is_open(s, name, 0);
    }
}

proof fn open_repo_is_open(s: Inputs, name: Seq<char>, i: int)
    requires
        0 <= i <= s.manager.repos@.len(),
    ensures
        match open_repo(s, name, i) {
            Some(k) => i <= k < s.manager.repos@.len() && !barred(s, name, s.manager.repos@[k]@)
                && db::sync_pkg(s.manager.sync@, s.manager.repos@[k]@, name) is Some && forall|j: int|
                i <= j < k ==> barred(s, name, (#[trigger] s.manager.repos@[j])@) || db::sync_pkg(
                    s.manager.sync@,
                    s.manager.repos@[j]@,
                    name,
                ) is None,
            None => forall|j: int|
                i <= j < s.manager.repos@.len() ==> barred(
                    s,
                    name,
                    (#[trigger] s.manager.repos@[j])@,
                ) || db::sync_pkg(s.manager.sync@, s.manager.repos@[j]@, name) is None,
        },
    decreases s.manager.repos@.len() - i,
{
    if i < s.manager.repos@.len() && (barred(s, name, s.manager.repos@[i]@) || db::sync_pkg(
        s.manager.sync@,
        s.manager.repos@[i]@,
        name,
    ) is None) {
        open_repo_is_open(s, name, i + 1);
    }
}

/// Without pin and stickiness, no repository of higher priority than the chosen one could
/// have provided the package.
pub proof fn priority_decides(s: Inputs, name: Seq<char>, i: int, j: int)
    requires
        active_pin(s, name) is None,
        !stays(s, name),
        open_repo(s, name, 0) == Some(i),
        0 <= j < i,
    ensures
        choice_for(s, name).candidate is Some,
        choice_for(s, name).candidate->0.repo == s.manager.repos@[i]@,
        barred(s, name, s.manager.repos@[j]@) || db::sync_pkg(
            s.manager.sync@,
            s.manager.repos@[j]@,
            name,
        ) is None,
{
    open_repo_is_open(s, name, 0);
    assert(s.manager.repos@[j]@ == s.manager.repos@[j]@);
}

/// With vendor stickiness off no package is marked as sticky.
pub proof fn stickiness_is_opt_in(s: Inputs, p: LocalPackage)
    requires
        !s.config.features.vendor_stickiness,
    ensures
        outcome(s, p).state == "custom"@ || outcome(s, p).state == "default"@,
        !choice_for(s, p.name@).sticky,
{
}

/// A package that stays is offered by the repository it came from, whatever the priorities
/// are, unless a pin asks for another one.
pub proof fn sticky_stays_home(s: Inputs, name: Seq<char>)
    requires
        active_pin(s, name) is None,
        stays(s, name),
    ensures
        choice_for(s, name).sticky,
        choice_for(s, name).candidate is Some,
        choice_for(s, name).candidate->0.repo == if text::same_ignoring_case(
            origin_of(s, name),
            "aur"@,
        ) {
            "aur"@
        } else {
            origin_of(s, name)
        },
{
}

proof fn open_repo_is_held(s: Inputs, name: Seq<char>, i: int)
    requires
        0 <= i <= s.manager.repos@.len(),
        open_repo(s, name, i) is Some,
    ensures
        holding_repo(*s.manager, name, i) is Some,
    decreases s.manager.repos@.len() - i,
{
    if holding_repo(*s.manager, name, i) is None {
        open_repo_is_held(s, name, i + 1);
    }
}

/// An update that no pin, no origin and no exclusion sends elsewhere comes from the
/// repository of highest priority that has the package.
pub proof fn plain_update_is_of_the_top_repo(s: Inputs, p: LocalPackage)
    requires
        outcome(s, p).state == "default"@,
        !outcome(s, p).diverted_from_top,
        outcome(s, p).candidate matches Some(c) && !c.is_aur,
    ensures
        outcome(s, p).natural_top_repo == Some(outcome(s, p).candidate->0.repo),
{
    reveal_strlit("custom");
    reveal_strlit("sticky");
    reveal_strlit("default");
    assert("custom"@[0] != "default"@[0]);
    assert("sticky"@[0] != "default"@[0]);
    open_repo_is_held(s, p.name@, 0);
}

// ---------------------------------------------------------------------------------------
// Delays

/// The seconds of a day.
pub const DAY: u64 = 86400;

/// Of an update that was built at `builddate` and has to wait `days` days: the days that are
/// left at the time `now`, as `whole_days_left` counts them; nothing where the wait is over. A
/// package without a build date counts as 9999 days old.
pub open spec fn days_left(builddate: i64, days: u32, now: i64) -> Option<int> {
    let age = match age_at(builddate, now) {
        Some(a) => a,
        None => 9999 * DAY,
    };
    if days * DAY <= age {
        None
    } else {
        Some(double::whole_days_left(days as int, age))
    }
}

/// The days left of a delay, as `days_left` has them.
pub fn delay_left(builddate: i64, days: u32, now: i64) -> (r: Option<u64>)
    ensures
        match r {
            Some(n) => days_left(builddate, days, now) == Some(n as int) && n >= 1,
            None => days_left(builddate, days, now) is None,
        },
{
    let age: u64 = if builddate <= 0 {
        9999 * DAY
    } else if now <= builddate {
        0
    } else {
        (now - builddate) as u64
    };
    let wait: u64 = days as u64 * DAY;
    if wait <= age {
        return None;
    }
    Some(days_left_of(days, age as i128) as u64)
}

/// The days that are left never exceed the days asked for, nor fall below one.
pub proof fn days_left_bounds(builddate: i64, days: u32, now: i64)
    requires
        days_left(builddate, days, now) is Some,
    ensures
        1 <= days_left(builddate, days, now)->0 <= days,
{
    let age = match age_at(builddate, now) {
        Some(a) => a,
        None => 9999 * DAY,
    };
    double::left_bounds(days as int, age);
}

/// A longer delay never ends earlier.
pub proof fn longer_delay_holds_longer(builddate: i64, days: u32, more: u32, now: i64)
    requires
        days <= more,
        days_left(builddate, days, now) is Some,
    ensures
        days_left(builddate, more, now) is Some,
        days_left(builddate, days, now)->0 <= days_left(builddate, more, now)->0,
{
    let age = match age_at(builddate, now) {
        Some(a) => a,
        None => 9999 * DAY,
    };
    double::left_order(days as int, more as int, age);
}

/// As time goes on a hold that has ended stays ended.
pub proof fn delay_stays_over(builddate: i64, days: u32, now: i64, later: i64)
    requires
        now <= later,
        days_left(builddate, days, now) is None,
    ensures
        days_left(builddate, days, later) is None,
{
}

pub open spec fn delay_text(days: int) -> Seq<char> {
    "Delay buffer: "@ + text::digits_of(days as nat) + "d remaining"@
}

pub open spec fn cascade_text(parent: Seq<char>) -> Seq<char> {
    "Cascade hold: depends on held "@ + parent
}

/// The days that the update of a package is still held by its own delay.
pub open spec fn own_hold(s: Inputs, p: LocalPackage) -> Option<int> {
    let o = outcome(s, p);
    if s.config.features.stability_delays && o.needs_update && o.candidate is Some {
        match delay_for(p.name@, s.config.delay@, patterns::glob_rules(s.config.delay@)) {
            Some(days) => days_left(o.candidate->0.builddate, days, s.now),
            None => None,
        }
    } else {
        None
    }
}

// ---------------------------------------------------------------------------------------
// Cascading holds

/// The installed package at `j` depends on the one at `i`.
pub open spec fn edge(m: AlpmManager, i: int, j: int) -> bool {
    0 <= i < m.local@.len() && 0 <= j < m.local@.len() && db::depends_on(
        m,
        m.local@[j],
        m.local@[i].name@,
    )
}

/// The package at `i` is held itself, or depends in at most `n` steps on one that is.
pub open spec fn reached(m: AlpmManager, held: Seq<bool>, n: nat, i: int) -> bool
    decreases n,
{
    if n == 0 {
        0 <= i < m.local@.len() && held[i]
    } else {
        reached(m, held, (n - 1) as nat, i) || exists|k: int|
            reached(m, held, (n - 1) as nat, k) && #[trigger] edge(m, k, i)
    }
}

/// The package at `i` is held itself, or depends, in however many steps, on one that is.
pub open spec fn touched(m: AlpmManager, held: Seq<bool>, i: int) -> bool {
    exists|n: nat| reached(m, held, n, i)
}

proof fn reached_in_range(m: AlpmManager, held: Seq<bool>, n: nat, i: int)
    requires
        reached(m, held, n, i),
    ensures
        0 <= i < m.local@.len(),
    decreases n,
{
    if n > 0 && reached(m, held, (n - 1) as nat, i) {
        reached_in_range(m, held, (n - 1) as nat, i);
    }
}

/// What depends on a touched package is touched.
pub proof fn touch_spreads(m: AlpmManager, held: Seq<bool>, k: int, i: int)
    requires
        touched(m, held, k),
        edge(m, k, i),
    ensures
        touched(m, held, i),
{
    let n = choose|n: nat| reached(m, held, n, k);
    assert(reached(m, held, n + 1, i));
}

proof fn closed_set_is_touched(
    m: AlpmManager,
    held: Seq<bool>,
    visited: Seq<bool>,
    n: nat,
    i: int,
)
    requires
        held.len() == m.local@.len(),
        visited.len() == m.local@.len(),
        forall|k: int| 0 <= k < held.len() && #[trigger] held[k] ==> visited[k],
        forall|k: int, j: int|
            0 <= k < visited.len() && visited[k] && #[trigger] edge(m, k, j) ==> visited[j],
        reached(m, held, n, i),
    ensures
        0 <= i < visited.len(),
        visited[i],
    decreases n,
{
    reached_in_range(m, held, n, i);
    if n > 0 {
        if reached(m, held, (n - 1) as nat, i) {
            closed_set_is_touched(m, held, visited, (n - 1) as nat, i);
        } else {
            let k = choose|k: int| reached(m, held, (n - 1) as nat, k) && #[trigger] edge(m, k, i);
            closed_set_is_touched(m, held, visited, (n - 1) as nat, k);
        }
    } else {
        assert(held[i]);
    }
}

/// The number of entries that are false.
spec fn unmarked(v: Seq<bool>) -> nat
    decreases v.len(),
{
    if v.len() == 0 {
        0
    } else {
        unmarked(v.drop_last()) + if v.last() {
            0nat
        } else {
            1nat
        }
    }
}

proof fn marking_lowers(v: Seq<bool>, i: int)
    requires
        0 <= i < v.len(),
        !v[i],
    ensures
        unmarked(v.update(i, true)) + 1 == unmarked(v),
    decreases v.len(),
{
    let w = v.update(i, true);
    if i == v.len() - 1 {
        assert(w.drop_last() =~= v.drop_last());
    } else {
        assert(w.drop_last() =~= v.drop_last().update(i, true));
        marking_lowers(v.drop_last(), i);
    }
}

/// `after` is `before` with the holds that cascade from the packages marked in `held`: each
/// update that depends on one of them, in however many steps, is held too, and says which
/// package it depends on.
pub open spec fn cascaded(
    m: AlpmManager,
    held: Seq<bool>,
    before: ResolvedView,
    after: ResolvedView,
    i: int,
) -> bool {
    if before.needs_update && !before.held && touched(m, held, i) {
        exists|k: int|
            touched(m, held, k) && #[trigger] edge(m, k, i) && after == (ResolvedView {
                held: true,
                hold_reason: cascade_text(m.local@[k].name@),
                ..before
            })
    } else {
        after == before
    }
}

spec fn settled(
    m: AlpmManager,
    visited: Seq<bool>,
    now: Seq<ResolvedPackage>,
    k: int,
) -> bool {
    forall|j: int| #[trigger]
        edge(m, k, j) ==> visited[j] && (now[j].needs_update ==> now[j].held)
}

spec fn pending(queue: Seq<usize>, head: int, k: int) -> bool {
    exists|q: int| head <= q < queue.len() && (#[trigger] queue[q]) as int == k
}

spec fn partly(
    m: AlpmManager,
    held: Seq<bool>,
    before: ResolvedView,
    after: ResolvedView,
    i: int,
) -> bool {
    after == before || (before.needs_update && !before.held && cascaded(m, held, before, after, i)
        && touched(m, held, i))
}

/// Holds back every update that depends, in however many steps, on a held one.
pub fn cascade_holds(m: &AlpmManager, packages: &mut Vec<ResolvedPackage>)
    requires
        m.distinct(),
        old(packages)@.len() == m.local@.len(),
    ensures
        final(packages)@.len() == old(packages)@.len(),
        ({
            let held = Seq::new(old(packages)@.len(), |i: int| old(packages)@[i].held);
            forall|i: int|
                0 <= i < final(packages)@.len() ==> #[trigger] cascaded(
                    *m,
                    held,
                    old(packages)@[i]@,
                    final(packages)@[i]@,
                    i,
                )
        }),
{
    let n: usize = packages.len();
    let ghost first = packages@;
    let ghost held = Seq::new(first.len(), |i: int| first[i].held);
    let mut visited: Vec<bool> = Vec::new();
    let mut queue: Vec<usize> = Vec::new();
    let mut i: usize = 0;
    while i < n
        invariant
            i <= n,
            n == first.len() == m.local@.len(),
            packages@ == first,
            held == Seq::new(first.len(), |i: int| first[i].held),
            visited@.len() == i,
            forall|k: int| 0 <= k < i ==> visited@[k] == held[k],
            forall|q: int|
                0 <= q < queue@.len() ==> (#[trigger] queue@[q]) < i && held[queue@[q] as int],
            forall|k: int| 0 <= k < i && held[k] ==> #[trigger] pending(queue@, 0, k),
        decreases n - i,
    {
        let h: bool = packages[i].held;
        let ghost before = queue@;
        visited.push(h);
        if h {
            queue.push(i);
        }
        proof {
            assert forall|k: int| 0 <= k < i + 1 && held[k] implies #[trigger] pending(
                queue@,
                0,
                k,
            ) by {
                if k < i {
                    assert(pending(before, 0, k));
                    let q = choose|q: int|
                        0 <= q < before.len() && (#[trigger] before[q]) as int == k;
                    assert(queue@[q] as int == k);
                } else {
                    assert(queue@[queue@.len() - 1] as int == k);
                }
            }
        }
        i += 1;
    }
    proof {
        assert forall|k: int| 0 <= k < n && visited@[k] implies touched(*m, held, k) by {
            assert(reached(*m, held, 0, k));
        }
    }
    let mut head: usize = 0;
    while head < queue.len()
        invariant
            m.distinct(),
            n == first.len() == m.local@.len(),
            packages@.len() == n,
            visited@.len() == n,
            held.len() == n,
            held == Seq::new(first.len(), |i: int| first[i].held),
            head <= queue@.len(),
            forall|q: int| 0 <= q < queue@.len() ==> (#[trigger] queue@[q]) < n && visited@[queue@[q] as int],
            forall|k: int| 0 <= k < n && held[k] ==> visited@[k],
            forall|k: int| 0 <= k < n && #[trigger] visited@[k] ==> touched(*m, held, k),
            forall|k: int|
                0 <= k < n && #[trigger] visited@[k] ==> pending(queue@, head as int, k) || settled(
                    *m,
                    visited@,
                    packages@,
                    k,
                ),
            forall|k: int|
                0 <= k < n ==> partly(*m, held, first[k]@, (#[trigger] packages@[k])@, k),
        decreases unmarked(visited@) + (queue@.len() - head),
    {
        let cur: usize = queue[head];
        assert(visited@[cur as int]);
        let ghost at = head as int;
        let deps = m.get_dependents(&m.local[cur].name);
        let ghost size = unmarked(visited@) + (queue@.len() - head);
        head += 1;
        let mut d: usize = 0;
        while d < deps.len()
            invariant
                m.distinct(),
                n == first.len() == m.local@.len(),
                packages@.len() == n,
                visited@.len() == n,
                held.len() == n,
                held == Seq::new(first.len(), |i: int| first[i].held),
                cur < n,
                d <= deps@.len(),
                head == at + 1,
                head <= queue@.len(),
                forall|t: Seq<char>| #[trigger]
                    text::texts(deps@).contains(t) <==> db::is_dependent(*m, m.local@[cur as int].name@, t),
                touched(*m, held, cur as int),
                forall|q: int|
                    0 <= q < queue@.len() ==> (#[trigger] queue@[q]) < n
                        && visited@[queue@[q] as int],
                forall|k: int| 0 <= k < n && held[k] ==> visited@[k],
                forall|k: int| 0 <= k < n && #[trigger] visited@[k] ==> touched(*m, held, k),
                forall|k: int|
                    0 <= k < n && #[trigger] visited@[k] && k != cur ==> pending(
                        queue@,
                        head as int,
                        k,
                    ) || settled(*m, visited@, packages@, k),
                forall|k: int|
                    0 <= k < n ==> partly(*m, held, first[k]@, (#[trigger] packages@[k])@, k),
                forall|e: int, j: int|
                    0 <= e < d && 0 <= j < n && (#[trigger] m.local@[j]).name@ == (
                    #[trigger] deps@[e])@ ==> visited@[j] && (packages@[j].needs_update
                        ==> packages@[j].held),
                unmarked(visited@) + (queue@.len() - head) + 1 == size,
            decreases deps@.len() - d,
        {
            let name = &deps[d];
            assert(text::texts(deps@)[d as int] == name@);
            assert(text::texts(deps@).contains(name@));
            assert(db::is_dependent(*m, m.local@[cur as int].name@, name@));
            let found = m.local_index(name);
            match found {
                Some(j) => {
                    proof {
                        let w = choose|w: int|
                            0 <= w < m.local@.len() && (#[trigger] m.local@[w]).name@ == name@
                                && db::depends_on(*m, m.local@[w], m.local@[cur as int].name@);
                        if w < j {
                            assert(m.local@[w].name@ != m.local@[j as int].name@);
                        } else if w > j {
                            assert(m.local@[j as int].name@ != m.local@[w].name@);
                        }
                        assert(edge(*m, cur as int, j as int));
                        touch_spreads(*m, held, cur as int, j as int);
                    }
                    let ghost old_packages = packages@;
                    let ghost old_visited = visited@;
                    let ghost old_queue = queue@;
                    if packages[j].needs_update && !packages[j].held {
                        let mut item = packages[j].dup();
                        item.held = true;
                        let mut reason: String = "Cascade hold: depends on held ".to_string();
                        reason.append(&m.local[cur].name);
                        item.hold_reason = reason;
                        proof {
                            assert(item@ =~= (ResolvedView {
                                held: true,
                                hold_reason: cascade_text(m.local@[cur as int].name@),
                                ..first[j as int]@
                            }));
                            assert(cascaded(*m, held, first[j as int]@, item@, j as int));
                        }
                        packages.set(j, item);
                    }
                    if !visited[j] {
                        proof {
                            marking_lowers(visited@, j as int);
                        }
                        visited.set(j, true);
                        queue.push(j);
                    }
                    proof {
                        assert forall|k: int| 0 <= k < n && #[trigger] visited@[k] && k != cur implies pending(
                            queue@,
                            head as int,
                            k,
                        ) || settled(*m, visited@, packages@, k) by {
                            if old_visited[k] {
                                if pending(old_queue, head as int, k) {
                                    let q = choose|q: int|
                                        head <= q < old_queue.len() && (
                                        #[trigger] old_queue[q]) as int == k;
                                    assert(queue@[q] as int == k);
                                } else {
                                    assert(settled(*m, old_visited, old_packages, k));
                                    assert forall|x: int| #[trigger] edge(*m, k, x) implies visited@[x]
                                        && (packages@[x].needs_update ==> packages@[x].held) by {
                                        assert(old_visited[x]);
                                    }
                                }
                            } else {
                                assert(k == j);
                                assert(queue@[queue@.len() - 1] as int == k);
                            }
                        }
                    }
                },
                None => {
                    proof {
                        let w = choose|w: int|
                            0 <= w < m.local@.len() && (#[trigger] m.local@[w]).name@ == name@
                                && db::depends_on(*m, m.local@[w], m.local@[cur as int].name@);
                        assert(m.local@[w].name@ != name@);
                    }
                },
            }
            d += 1;
        }
        proof {
            assert(settled(*m, visited@, packages@, cur as int)) by {
                assert forall|j: int| #[trigger] edge(*m, cur as int, j) implies visited@[j] && (
                packages@[j].needs_update ==> packages@[j].held) by {
                    let t = m.local@[j].name@;
                    assert(db::is_dependent(*m, m.local@[cur as int].name@, t));
                    assert(text::texts(deps@).contains(t));
                    let e = choose|e: int| 0 <= e < text::texts(deps@).len() && text::texts(deps@)[e] == t;
                    assert(deps@[e]@ == t);
                }
            }
        }
    }
    proof {
        assert forall|i: int| 0 <= i < packages@.len() implies #[trigger] cascaded(
            *m,
            held,
            first[i]@,
            packages@[i]@,
            i,
        ) by {
            assert(partly(*m, held, first[i]@, packages@[i]@, i));
            if first[i].needs_update && !first[i].held && touched(*m, held, i) {
                assert forall|k: int, j: int|
                    0 <= k < visited@.len() && visited@[k] && #[trigger] edge(
                        *m,
                        k,
                        j,
                    ) implies visited@[j] by {
                    assert(!pending(queue@, head as int, k));
                    assert(settled(*m, visited@, packages@, k));
                }
                let w = choose|w: nat| reached(*m, held, w, i);
                assert(!held[i]);
                step_before(*m, held, w, i);
                let k = choose|k: int| touched(*m, held, k) && #[trigger] edge(*m, k, i);
                let v = choose|v: nat| reached(*m, held, v, k);
                closed_set_is_touched(*m, held, visited@, v, k);
                assert(visited@[k]);
                assert(!pending(queue@, head as int, k));
                assert(settled(*m, visited@, packages@, k));
                assert(packages@[i]@.needs_update ==> packages@[i]@.held);
            }
        }
    }
}

proof fn step_before(m: AlpmManager, held: Seq<bool>, n: nat, i: int)
    requires
        reached(m, held, n, i),
        !held[i],
    ensures
        exists|k: int| touched(m, held, k) && #[trigger] edge(m, k, i),
    decreases n,
{
    if n > 0 {
        if reached(m, held, (n - 1) as nat, i) {
            step_before(m, held, (n - 1) as nat, i);
        } else {
            let k = choose|k: int| reached(m, held, (n - 1) as nat, k) && #[trigger] edge(m, k, i);
            assert(touched(m, held, k));
        }
    }
}

// ---------------------------------------------------------------------------------------
// Sorted results

/// Custom updates come before sticky ones, and these before all others.
pub open spec fn rank(state: Seq<char>) -> int {
    if state == "custom"@ {
        0
    } else if state == "sticky"@ {
        1
    } else {
        2
    }
}

fn rank_of(state: &str) -> (r: u8)
    ensures
        r as int == rank(state@),
{
    if str_eq(state, "custom") {
        0
    } else if str_eq(state, "sticky") {
        1
    } else {
        2
    }
}

/// The order of results: by rank, where `by_rank` asks for it, then by name.
pub open spec fn listed_before(by_rank: bool, a: ResolvedView, b: ResolvedView) -> bool {
    if by_rank && rank(a.state) != rank(b.state) {
        rank(a.state) < rank(b.state)
    } else {
        text::precedes(a.name, b.name)
    }
}

fn goes_before(by_rank: bool, a: &ResolvedPackage, b: &ResolvedPackage) -> (r: bool)
    ensures
        r == listed_before(by_rank, a@, b@),
{
    let x: u8 = rank_of(&a.state);
    let y: u8 = rank_of(&b.state);
    if by_rank && x != y {
        x < y
    } else {
        str_precedes(&a.name, &b.name)
    }
}

proof fn listed_transitive(by_rank: bool, a: ResolvedView, b: ResolvedView, c: ResolvedView)
    requires
        listed_before(by_rank, a, b),
        listed_before(by_rank, b, c),
    ensures
        listed_before(by_rank, a, c),
{
    if !by_rank || (rank(a.state) == rank(b.state) && rank(b.state) == rank(c.state)) {
        text::precedes_transitive(a.name, b.name, c.name);
    }
}

/// An update that is to be listed: held or not, as `held` says.
pub open spec fn is_listed(p: ResolvedView, held: bool) -> bool {
    p.needs_update && p.held == held
}

/// One of the packages that are to be listed has these contents.
pub open spec fn comes_from(packages: Seq<ResolvedPackage>, v: ResolvedView, held: bool) -> bool {
    exists|k: int|
        0 <= k < packages.len() && is_listed(packages[k]@, held) && (#[trigger] packages[k])@ == v
}

/// The list has an item with these contents.
pub open spec fn lists(list: Seq<ResolvedPackage>, v: ResolvedView) -> bool {
    exists|i: int| 0 <= i < list.len() && (#[trigger] list[i])@ == v
}

/// `list` holds exactly the updates among `packages` that are held, or that are not, as
/// `held` says, each once, in order.
pub open spec fn listing(
    packages: Seq<ResolvedPackage>,
    list: Seq<ResolvedPackage>,
    held: bool,
    by_rank: bool,
) -> bool {
    &&& forall|i: int, j: int|
        0 <= i < j < list.len() ==> listed_before(by_rank, (#[trigger] list[i])@, (#[trigger] list[j])@)
    &&& forall|i: int| 0 <= i < list.len() ==> comes_from(packages, (#[trigger] list[i])@, held)
    &&& forall|k: int|
        0 <= k < packages.len() && is_listed((#[trigger] packages[k])@, held) ==> lists(
            list,
            packages[k]@,
        )
}

/// The names of the packages differ.
pub open spec fn distinct_names(packages: Seq<ResolvedPackage>) -> bool {
    forall|i: int, j: int|
        0 <= i < j < packages.len() ==> (#[trigger] packages[i]).name@ != (
        #[trigger] packages[j]).name@
}

/// The updates that are held, or those that are not, in order.
pub fn list_updates(packages: &Vec<ResolvedPackage>, held: bool, by_rank: bool) -> (r: Vec<
    ResolvedPackage,
>)
    requires
        distinct_names(packages@),
    ensures
        listing(packages@, r@, held, by_rank),
{
    let mut out: Vec<ResolvedPackage> = Vec::new();
    let mut n: usize = 0;
    while n < packages.len()
        invariant
            n <= packages@.len(),
            distinct_names(packages@),
            listing(packages@.take(n as int), out@, held, by_rank),
        decreases packages@.len() - n,
    {
        let p = &packages[n];
        let ghost before = out@;
        let ghost part = packages@.take(n as int);
        let ghost next = packages@.take(n + 1);
        assert(next =~= part.push(*p));
        if p.needs_update && p.held == held {
            let item = p.dup();
            let mut i: usize = 0;
            while i < out.len() && goes_before(by_rank, &out[i], p)
                invariant
                    i <= out@.len(),
                    out@ == before,
                    forall|j: int| 0 <= j < i ==> listed_before(by_rank, (#[trigger] before[j])@, p@),
                decreases out@.len() - i,
            {
                i += 1;
            }
            out.insert(i, item);
            proof {
                list_grows(part, *p, before, item, i as int, held, by_rank, packages@);
            }
        } else {
            proof {
                list_stays(part, *p, before, held, by_rank);
            }
        }
        n += 1;
    }
    assert(packages@.take(packages@.len() as int) =~= packages@);
    out
}

proof fn comes_from_more(part: Seq<ResolvedPackage>, p: ResolvedPackage, v: ResolvedView, held: bool)
    requires
        comes_from(part, v, held),
    ensures
        comes_from(part.push(p), v, held),
{
    let k = choose|k: int|
        0 <= k < part.len() && is_listed(part[k]@, held) && (#[trigger] part[k])@ == v;
    assert(part.push(p)[k] == part[k]);
}

proof fn lists_more(list: Seq<ResolvedPackage>, at: int, item: ResolvedPackage, v: ResolvedView)
    requires
        0 <= at <= list.len(),
        lists(list, v) || item@ == v,
    ensures
        lists(list.insert(at, item), v),
{
    let longer = list.insert(at, item);
    if lists(list, v) {
        let i = choose|i: int| 0 <= i < list.len() && (#[trigger] list[i])@ == v;
        if i < at {
            assert(longer[i] == list[i]);
        } else {
            assert(longer[i + 1] == list[i]);
        }
    } else {
        assert(longer[at] == item);
    }
}

proof fn list_stays(
    part: Seq<ResolvedPackage>,
    p: ResolvedPackage,
    list: Seq<ResolvedPackage>,
    held: bool,
    by_rank: bool,
)
    requires
        listing(part, list, held, by_rank),
        !is_listed(p@, held),
    ensures
        listing(part.push(p), list, held, by_rank),
{
    let next = part.push(p);
    assert forall|i: int| 0 <= i < list.len() implies comes_from(next, (#[trigger] list[i])@, held) by {
        comes_from_more(part, p, list[i]@, held);
    }
    assert forall|k: int| 0 <= k < next.len() && is_listed((#[trigger] next[k])@, held) implies lists(
        list,
        next[k]@,
    ) by {
        assert(next[k] == part[k]);
    }
}

proof fn list_grows(
    part: Seq<ResolvedPackage>,
    p: ResolvedPackage,
    list: Seq<ResolvedPackage>,
    item: ResolvedPackage,
    at: int,
    held: bool,
    by_rank: bool,
    all: Seq<ResolvedPackage>,
)
    requires
        listing(part, list, held, by_rank),
        is_listed(p@, held),
        item@ == p@,
        0 <= at <= list.len(),
        distinct_names(all),
        part.len() < all.len(),
        part =~= all.take(part.len() as int),
        p == all[part.len() as int],
        forall|j: int| 0 <= j < at ==> listed_before(by_rank, (#[trigger] list[j])@, p@),
        at < list.len() ==> !listed_before(by_rank, list[at]@, p@),
    ensures
        listing(part.push(p), list.insert(at, item), held, by_rank),
{
    let next = part.push(p);
    let longer = list.insert(at, item);
    if at < list.len() {
        assert(comes_from(part, list[at]@, held));
        let k = choose|k: int|
            0 <= k < part.len() && is_listed(part[k]@, held) && (#[trigger] part[k])@ == list[at]@;
        assert(part[k] == all[k]);
        assert(all[k].name@ != all[part.len() as int].name@);
        text::precedes_total(list[at].name@, p.name@);
        assert(listed_before(by_rank, p@, list[at]@));
    }
    assert forall|i: int, j: int| 0 <= i < j < longer.len() implies listed_before(
        by_rank,
        (#[trigger] longer[i])@,
        (#[trigger] longer[j])@,
    ) by {
        if i == at {
            assert(longer[j] == list[j - 1]);
            if j - 1 > at {
                assert(listed_before(by_rank, list[at]@, list[j - 1]@));
                listed_transitive(by_rank, p@, list[at]@, list[j - 1]@);
            }
        } else if j == at {
            assert(longer[i] == list[i]);
        } else {
            let x = if i < at { i } else { i - 1 };
            let y = if j < at { j } else { j - 1 };
            assert(longer[i] == list[x]);
            assert(longer[j] == list[y]);
        }
    }
    assert forall|i: int| 0 <= i < longer.len() implies comes_from(
        next,
        (#[trigger] longer[i])@,
        held,
    ) by {
        if i == at {
            assert(next[part.len() as int] == p);
        } else {
            let x = if i < at { i } else { i - 1 };
            assert(longer[i] == list[x]);
            comes_from_more(part, p, list[x]@, held);
        }
    }
    assert forall|k: int| 0 <= k < next.len() && is_listed((#[trigger] next[k])@, held) implies lists(
        longer,
        next[k]@,
    ) by {
        if k < part.len() {
            assert(next[k] == part[k]);
        }
        lists_more(list, at, item, next[k]@);
    }
}

// ---------------------------------------------------------------------------------------
// The engine

/// The pins that lead nowhere, of the first `n` installed packages: the package is pinned,
/// and the repository of the pin does not have it.
pub open spec fn dead_pins(s: Inputs, n: int) -> Seq<(Seq<char>, Seq<char>)>
    decreases n,
{
    if n <= 0 {
        Seq::empty()
    } else {
        let name = s.manager.local@[n - 1].name@;
        match active_pin(s, name) {
            Some(repo) => if offer_of(s, repo, name, false).candidate is None {
                dead_pins(s, n - 1).push((name, repo))
            } else {
                dead_pins(s, n - 1)
            },
            None => dead_pins(s, n - 1),
        }
    }
}

/// Which installed packages are held by their own delay.
pub open spec fn own_holds(s: Inputs) -> Seq<bool> {
    Seq::new(s.manager.local@.len(), |i: int| own_hold(s, s.manager.local@[i]) is Some)
}

/// The outcome for one installed package with the hold of its own delay, if there is one.
pub open spec fn delayed_outcome(s: Inputs, p: LocalPackage) -> ResolvedView {
    match own_hold(s, p) {
        Some(days) => ResolvedView { held: true, hold_reason: delay_text(days), ..outcome(s, p) },
        None => outcome(s, p),
    }
}

/// The difference between the size of a package of a repository and that of the installed one
/// can be stated in 64 bits.
pub open spec fn size_fits(q: SyncPackage, p: LocalPackage) -> bool {
    q.name@ == p.name@ && q.isize > 0 ==> q.isize - p.isize <= i64::MAX
}

pub open spec fn deltas_fit(m: AlpmManager, p: LocalPackage) -> bool {
    forall|d: int, k: int|
        0 <= d < m.sync@.len() && 0 <= k < m.sync@[d].pkgs@.len() ==> size_fits(
            #[trigger] m.sync@[d].pkgs@[k],
            p,
        )
}

/// All differences of sizes can be stated.
pub open spec fn sizes_fit(m: AlpmManager) -> bool {
    forall|i: int| 0 <= i < m.local@.len() ==> deltas_fit(m, #[trigger] m.local@[i])
}

proof fn choice_fits(s: Inputs, p: LocalPackage, repo: Seq<char>, sticky: bool)
    requires
        deltas_fit(*s.manager, p),
    ensures
        match sync_choice(s, repo, p.name@, sticky).candidate {
            Some(x) => x.isize > 0 ==> x.isize - p.isize <= i64::MAX,
            None => true,
        },
{
    let sync = s.manager.sync@;
    download_plan::db_from_in_range(sync, repo, 0);
    if let Some(d) = db::db_from(sync, repo, 0) {
        db::pkg_from_found(sync[d].pkgs@, p.name@, 0);
        if let Some(k) = db::pkg_from(sync[d].pkgs@, p.name@, 0) {
            assert(size_fits(sync[d].pkgs@[k], p));
        }
    }
}

proof fn candidate_fits(s: Inputs, p: LocalPackage)
    requires
        deltas_fit(*s.manager, p),
    ensures
        match choice_for(s, p.name@).candidate {
            Some(x) => x.isize > 0 ==> x.isize - p.isize <= i64::MAX,
            None => true,
        },
{
    match active_pin(s, p.name@) {
        Some(repo) => choice_fits(s, p, repo, false),
        None => {
            choice_fits(s, p, origin_of(s, p.name@), true);
            if let Some(i) = open_repo(s, p.name@, 0) {
                choice_fits(s, p, s.manager.repos@[i]@, false);
            }
        },
    }
}

/// Decides, for a snapshot of the databases, which updates there are.
pub struct ResolverEngine<'a> {
    pub manager: &'a AlpmManager,
}

impl<'a> ResolverEngine<'a> {
    pub fn new(manager: &'a AlpmManager) -> (r: Self)
        ensures
            r.manager == manager,
    {
        ResolverEngine { manager }
    }

    /// The pin for a package: its own text, its repository, and whether it is exact.
    pub fn find_matching_pin_rule(
        pkg_name: &str,
        pins: &StrMap<String>,
        glob_pins: &Vec<(String, String)>,
    ) -> (r: Option<(String, String, bool)>)
        ensures
            match r {
                Some((rule, repo, exact)) => pin_rule(pkg_name@, pins@, pairs(glob_pins@)) == Some(
                    (rule@, repo@, exact),
                ),
                None => pin_rule(pkg_name@, pins@, pairs(glob_pins@)) is None,
            },
    {
        if let Some(repo) = pins.get(pkg_name) {
            return Some((pkg_name.to_string(), repo.clone(), true));
        }
        let ghost rules = pairs(glob_pins@);
        let mut i: usize = 0;
        while i < glob_pins.len()
            invariant
                i <= glob_pins@.len(),
                rules == pairs(glob_pins@),
                strmap::lookup(pins@, pkg_name@) is None,
                patterns::first_hit(rules, pkg_name@, 0) == patterns::first_hit(rules, pkg_name@, i as int),
            decreases glob_pins@.len() - i,
        {
            assert(rules[i as int] == (glob_pins@[i as int].0@, glob_pins@[i as int].1@));
            if matches_glob(&glob_pins[i].0, pkg_name) {
                return Some((glob_pins[i].0.clone(), glob_pins[i].1.clone(), false));
            }
            i += 1;
        }
        None
    }

    /// The repository that a package is pinned to.
    pub fn match_pinned_package(
        pkg_name: &str,
        pins: &StrMap<String>,
        glob_pins: &Vec<(String, String)>,
    ) -> (r: Option<String>)
        ensures
            text::opt_text(r) == match pin_rule(pkg_name@, pins@, pairs(glob_pins@)) {
                Some((_, repo, _)) => Some(repo),
                None => None,
            },
    {
        match Self::find_matching_pin_rule(pkg_name, pins, glob_pins) {
            Some((_, repo, _)) => Some(repo),
            None => None,
        }
    }

    /// The pins whose names are patterns, longest pattern first.
    pub fn compile_glob_pins(pins: &StrMap<String>) -> (r: Vec<(String, String)>)
        ensures
            pairs(r@) == valued(patterns::glob_rules(pins@)),
    {
        let order = pattern_order(pins);
        let mut out: Vec<(String, String)> = Vec::new();
        let mut i: usize = 0;
        while i < order.len()
            invariant
                i <= order@.len(),
                out@.len() == i,
                order@.len() == patterns::glob_order(strmap::keys(pins@)).len(),
                forall|j: int|
                    0 <= j < order@.len() ==> (#[trigger] order@[j]) as int == patterns::glob_order(
                        strmap::keys(pins@),
                    )[j] && order@[j] < pins@.len(),
                forall|j: int|
                    0 <= j < i ==> (#[trigger] out@[j]).0@ == patterns::glob_rules(pins@)[j].0 && out@[j].1@
                        == patterns::glob_rules(pins@)[j].1@,
            decreases order@.len() - i,
        {
            let k: usize = order[i];
            out.push((pins.key_at(k).clone(), pins.value_at(k).clone()));
            i += 1;
        }
        assert(pairs(out@) =~= valued(patterns::glob_rules(pins@)));
        out
    }

    /// The repository that a package is pinned to by the pins of a configuration.
    pub fn is_pinned(pkg_name: &str, pins: &StrMap<String>) -> (r: Option<String>)
        ensures
            text::opt_text(r) == pinned_to(pkg_name@, pins@),
    {
        let globs = Self::compile_glob_pins(pins);
        Self::match_pinned_package(pkg_name, pins, &globs)
    }

    /// The delays whose names are patterns, longest pattern first.
    pub fn compile_glob_delays(delays: &StrMap<u32>) -> (r: Vec<(String, u32)>)
        ensures
            numbered(r@) == patterns::glob_rules(delays@),
    {
        let order = pattern_order(delays);
        let mut out: Vec<(String, u32)> = Vec::new();
        let mut i: usize = 0;
        while i < order.len()
            invariant
                i <= order@.len(),
                out@.len() == i,
                order@.len() == patterns::glob_order(strmap::keys(delays@)).len(),
                forall|j: int|
                    0 <= j < order@.len() ==> (#[trigger] order@[j]) as int == patterns::glob_order(
                        strmap::keys(delays@),
                    )[j] && order@[j] < delays@.len(),
                forall|j: int|
                    0 <= j < i ==> (#[trigger] out@[j]).0@ == patterns::glob_rules(delays@)[j].0 && out@[j].1
                        == patterns::glob_rules(delays@)[j].1,
            decreases order@.len() - i,
        {
            let k: usize = order[i];
            out.push((delays.key_at(k).clone(), *delays.value_at(k)));
            i += 1;
        }
        assert(numbered(out@) =~= patterns::glob_rules(delays@));
        out
    }

    /// The days that an update of a package has to wait.
    pub fn match_delay_days(
        pkg_name: &str,
        delays: &StrMap<u32>,
        glob_delays: &Vec<(String, u32)>,
    ) -> (r: Option<u32>)
        ensures
            r == delay_for(pkg_name@, delays@, numbered(glob_delays@)),
    {
        if let Some(days) = delays.get(pkg_name) {
            return Some(*days);
        }
        let ghost rules = numbered(glob_delays@);
        let mut i: usize = 0;
        while i < glob_delays.len()
            invariant
                i <= glob_delays@.len(),
                rules == numbered(glob_delays@),
                strmap::lookup(delays@, pkg_name@) is None,
                patterns::first_hit(rules, pkg_name@, 0) == patterns::first_hit(rules, pkg_name@, i as int),
            decreases glob_delays@.len() - i,
        {
            assert(rules[i as int] == (glob_delays@[i as int].0@, glob_delays@[i as int].1));
            if matches_glob(&glob_delays[i].0, pkg_name) {
                return Some(glob_delays[i].1);
            }
            i += 1;
        }
        None
    }

    /// Whether a repository is excluded from providing a package.
    pub fn is_excluded(pkg_name: &str, repo: &str, excludes: &StrMap<Vec<String>>) -> (r: bool)
        ensures
            r == excluded(pkg_name@, repo@, excludes@),
    {
        if let Some(patterns) = excludes.get(repo) {
            let mut i: usize = 0;
            while i < patterns.len()
                invariant
                    i <= patterns@.len(),
                    strmap::lookup(excludes@, repo@) == Some(*patterns),
                    forall|j: int|
                        0 <= j < i ==> !pattern_covers((#[trigger] patterns@[j])@, pkg_name@),
                decreases patterns@.len() - i,
            {
                if str_eq(&patterns[i], pkg_name) || matches_glob(&patterns[i], pkg_name) {
                    assert(pattern_covers(patterns@[i as int]@, pkg_name@));
                    assert(some_pattern_covers(patterns@, pkg_name@));
                    return true;
                }
                i += 1;
            }
        }
        false
    }

    fn is_barred(s: &Inputs, name: &str, repo: &str) -> (r: bool)
        ensures
            r == barred(*s, name@, repo@),
    {
        s.config.features.pinning && Self::is_excluded(name, repo, &s.config.exclude)
    }

    fn origin(s: &Inputs, name: &str) -> (r: String)
        ensures
            r@ == origin_of(*s, name@),
    {
        if let Some(d) = s.installed_dbs.get(name) {
            if !d.as_str().is_empty() {
                return d.clone();
            }
        }
        let m = s.manager;
        let mut fallback: Option<usize> = None;
        let mut i: usize = 0;
        while i < m.repos.len()
            invariant
                i <= m.repos@.len(),
                m == s.manager,
                same_version_repo(*m, name@, 0) == same_version_repo(*m, name@, i as int),
                match fallback {
                    Some(k) => k < m.repos@.len() && holding_repo(*m, name@, 0) == Some(k as int),
                    None => holding_repo(*m, name@, 0) == holding_repo(*m, name@, i as int),
                },
                origin_of(*s, name@) == match same_version_repo(*m, name@, 0) {
                    Some(k) => m.repos@[k]@,
                    None => match holding_repo(*m, name@, 0) {
                        Some(k) => m.repos@[k]@,
                        None => Seq::empty(),
                    },
                },
            decreases m.repos@.len() - i,
        {
            if let Some(p) = m.find_sync(&m.repos[i], name) {
                if p.versus_installed == VersionOrder::Same {
                    return m.repos[i].clone();
                } else if fallback.is_none() {
                    fallback = Some(i);
                }
            }
            i += 1;
        }
        match fallback {
            Some(k) => m.repos[k].clone(),
            None => String::new(),
        }
    }

    fn top_repo(m: &AlpmManager, name: &str) -> (r: Option<String>)
        ensures
            text::opt_text(r) == match holding_repo(*m, name@, 0) {
                Some(i) => Some(m.repos@[i]@),
                None => None,
            },
    {
        let mut i: usize = 0;
        while i < m.repos.len()
            invariant
                i <= m.repos@.len(),
                holding_repo(*m, name@, 0) == holding_repo(*m, name@, i as int),
            decreases m.repos@.len() - i,
        {
            if m.find_sync(&m.repos[i], name).is_some() {
                return Some(m.repos[i].clone());
            }
            i += 1;
        }
        None
    }

    fn offer(s: &Inputs, repo: &str, name: &str, sticky: bool) -> (r: Choice)
        ensures
            r@ == offer_of(*s, repo@, name@, sticky),
    {
        if eq_ignore_case(repo, "aur") {
            Self::aur_offer(s, name, sticky)
        } else {
            Self::sync_offer(s, repo, name, sticky)
        }
    }

    fn aur_offer(s: &Inputs, name: &str, sticky: bool) -> (r: Choice)
        ensures
            r@ == aur_choice(*s, name@, sticky),
    {
        match s.aur.get(name) {
            Some(o) => Choice {
                candidate: Some(CandidatePackage::from_aur(&o.item)),
                order: o.versus_installed,
                sticky,
            },
            None => Choice { candidate: None, order: VersionOrder::Same, sticky: false },
        }
    }

    fn sync_offer(s: &Inputs, repo: &str, name: &str, sticky: bool) -> (r: Choice)
        ensures
            r@ == sync_choice(*s, repo@, name@, sticky),
    {
        match s.manager.find_sync(repo, name) {
            Some(p) => Choice {
                candidate: Some(sync_candidate(p, repo)),
                order: p.versus_installed,
                sticky,
            },
            None => Choice { candidate: None, order: VersionOrder::Same, sticky: false },
        }
    }

    fn by_priority(s: &Inputs, name: &str) -> (r: Choice)
        ensures
            r@ == priority_choice(*s, name@),
    {
        let m = s.manager;
        let mut i: usize = 0;
        while i < m.repos.len()
            invariant
                i <= m.repos@.len(),
                m == s.manager,
                open_repo(*s, name@, 0) == open_repo(*s, name@, i as int),
            decreases m.repos@.len() - i,
        {
            if !Self::is_barred(s, name, &m.repos[i]) {
                if m.find_sync(&m.repos[i], name).is_some() {
                    return Self::sync_offer(s, &m.repos[i], name, false);
                }
            }
            i += 1;
        }
        Self::aur_offer(s, name, false)
    }

    fn choose_candidate(s: &Inputs, name: &str, pin: &Option<String>, home: &str) -> (r: Choice)
        requires
            text::opt_text(*pin) == active_pin(*s, name@),
            home@ == origin_of(*s, name@),
        ensures
            r@ == choice_for(*s, name@),
    {
        if let Some(repo) = pin {
            return Self::offer(s, repo, name, false);
        }
        if s.config.features.vendor_stickiness && !home.is_empty() && !Self::is_barred(
            s,
            name,
            home,
        ) {
            let c = Self::offer(s, home, name, true);
            if c.candidate.is_some() {
                return c;
            }
        }
        Self::by_priority(s, name)
    }

    /// The outcome for one installed package, before any hold, and whether its pin leads
    /// nowhere.
    pub fn resolve_one(s: &Inputs, p: &LocalPackage, globs: &Vec<(String, String)>) -> (r: (
        ResolvedPackage,
        bool,
    ))
        requires
            deltas_fit(*s.manager, *p),
            s.config.features.pinning ==> pairs(globs@) == valued(patterns::glob_rules(s.config.pins@)),
        ensures
            r.0@ == outcome(*s, *p),
            r.1 == (match active_pin(*s, p.name@) {
                Some(repo) => offer_of(*s, repo, p.name@, false).candidate is None,
                None => false,
            }),
    {
        let name = &p.name;
        let home = Self::origin(s, name);
        let pin: Option<String> = if s.config.features.pinning {
            Self::match_pinned_package(name, &s.config.pins, globs)
        } else {
            None
        };
        let custom: bool = pin.is_some();
        let top = Self::top_repo(s.manager, name);
        let choice = Self::choose_candidate(s, name, &pin, &home);
        let mut needs_update: bool = false;
        let mut update_type: &str = "up_to_date";
        let mut is_downgrade: bool = false;
        let mut net_delta: Option<i64> = None;
        let mut diverted: bool = false;
        if let Some(c) = &choice.candidate {
            match choice.order {
                VersionOrder::Newer => {
                    needs_update = true;
                    update_type = "upgrade";
                },
                VersionOrder::Older => {
                    if custom {
                        needs_update = true;
                        update_type = "downgrade";
                        is_downgrade = true;
                    }
                },
                VersionOrder::Same => {
                    if custom && !str_eq(&c.version, &p.version) {
                        needs_update = true;
                        update_type = "pin_sync";
                    }
                },
            }
            proof {
                candidate_fits(*s, *p);
            }
            net_delta = c.compute_net_delta(p.isize);
            if let Some(t) = &top {
                diverted = !custom && !choice.sticky && !str_eq(&c.repo, t);
            }
        }
        let dead: bool = custom && choice.candidate.is_none();
        let state: &str = if custom {
            "custom"
        } else if choice.sticky {
            "sticky"
        } else {
            "default"
        };
        let out = ResolvedPackage {
            name: name.clone(),
            state: state.to_string(),
            pinned_repo: pin,
            installed_ver: p.version.clone(),
            installed_size: p.isize,
            installed_db: home,
            candidate: choice.candidate,
            natural_top_repo: top,
            diverted_from_top: diverted,
            needs_update,
            update_type: update_type.to_string(),
            is_downgrade,
            net_delta,
            held: false,
            hold_reason: String::new(),
        };
        assert(out@ =~= outcome(*s, *p));
        (out, dead)
    }

    fn hold_by_delay(
        s: &Inputs,
        p: &LocalPackage,
        item: &mut ResolvedPackage,
        globs: &Vec<(String, u32)>,
    )
        requires
            s.config.features.stability_delays,
            numbered(globs@) == patterns::glob_rules(s.config.delay@),
            old(item)@ == outcome(*s, *p),
        ensures
            final(item)@ == delayed_outcome(*s, *p),
    {
        if !item.needs_update {
            return;
        }
        let built: i64 = match &item.candidate {
            Some(c) => c.builddate,
            None => {
                return;
            },
        };
        if let Some(days) = Self::match_delay_days(&p.name, &s.config.delay, globs) {
            if let Some(left) = delay_left(built, days, s.now) {
                let mut reason: String = "Delay buffer: ".to_string();
                let t = number_text(left);
                reason.append(&t);
                reason.append("d remaining");
                item.held = true;
                item.hold_reason = reason;
                assert(item@ =~= delayed_outcome(*s, *p));
            }
        }
    }

    /// Decides, for every installed package, whether and from where it is updated, and which
    /// updates are held back. `aur_data` holds what the AUR has of the packages that it was
    /// asked for, `installed_dbs` the repositories on record, and `now` is the time in
    /// seconds.
    pub fn resolve_all(
        &self,
        config: &Config,
        aur_data: &StrMap<AurOffer>,
        installed_dbs: &StrMap<String>,
        now: i64,
    ) -> (r: ResolveResult)
        requires
            self.manager.distinct(),
            sizes_fit(*self.manager),
        ensures
            r.installed_count == self.manager.local@.len(),
            text::texts(r.repos@) == text::texts(self.manager.repos@),
            r.packages@.len() == self.manager.local@.len(),
            ({
                let s = Inputs { manager: self.manager, config, aur: aur_data, installed_dbs, now };
                &&& forall|i: int|
                    0 <= i < r.packages@.len() ==> cascaded(
                        *self.manager,
                        own_holds(s),
                        delayed_outcome(s, self.manager.local@[i]),
                        (#[trigger] r.packages@[i])@,
                        i,
                    )
                &&& pairs(r.unresolved_pins@) == dead_pins(s, self.manager.local@.len() as int)
            }),
            listing(r.packages@, r.updates@, false, true),
            listing(r.packages@, r.held_packages@, true, false),
    {
        let s = Inputs { manager: self.manager, config, aur: aur_data, installed_dbs, now };
        let m = self.manager;
        let globs: Vec<(String, String)> = if config.features.pinning {
            Self::compile_glob_pins(&config.pins)
        } else {
            Vec::new()
        };
        let delays: Vec<(String, u32)> = if config.features.stability_delays {
            Self::compile_glob_delays(&config.delay)
        } else {
            Vec::new()
        };
        let mut packages: Vec<ResolvedPackage> = Vec::new();
        let mut unresolved: Vec<(String, String)> = Vec::new();
        let mut i: usize = 0;
        assert(pairs(unresolved@) =~= Seq::<(Seq<char>, Seq<char>)>::empty());
        while i < m.local.len()
            invariant
                i <= m.local@.len(),
                m == self.manager,
                s.manager == m,
                s.config == config,
                s.aur == aur_data,
                s.installed_dbs == installed_dbs,
                s.now == now,
                sizes_fit(*m),
                config.features.pinning ==> pairs(globs@) == valued(patterns::glob_rules(config.pins@)),
                config.features.stability_delays ==> numbered(delays@) == patterns::glob_rules(config.delay@),
                packages@.len() == i,
                forall|k: int|
                    0 <= k < i ==> (#[trigger] packages@[k])@ == delayed_outcome(s, m.local@[k]),
                pairs(unresolved@) == dead_pins(s, i as int),
            decreases m.local@.len() - i,
        {
            let (mut item, dead) = Self::resolve_one(&s, &m.local[i], &globs);
            if dead {
                if let Some(repo) = &item.pinned_repo {
                    let ghost before = pairs(unresolved@);
                    unresolved.push((item.name.clone(), repo.clone()));
                    assert(pairs(unresolved@) =~= before.push((item.name@, repo@)));
                }
            }
            if config.features.stability_delays {
                Self::hold_by_delay(&s, &m.local[i], &mut item, &delays);
            }
            packages.push(item);
            i += 1;
        }
        let ghost before = packages@;
        proof {
            let held = Seq::new(before.len(), |k: int| before[k].held);
            assert(held =~= own_holds(s)) by {
                assert forall|k: int| 0 <= k < before.len() implies held[k] == own_holds(s)[k] by {
                    assert(before[k]@ == delayed_outcome(s, m.local@[k]));
                    assert(before[k].held == before[k]@.held);
                }
            }
        }
        cascade_holds(m, &mut packages);
        proof {
            assert forall|k: int| 0 <= k < packages@.len() implies cascaded(
                *m,
                own_holds(s),
                delayed_outcome(s, m.local@[k]),
                (#[trigger] packages@[k])@,
                k,
            ) by {
                assert(before[k]@ == delayed_outcome(s, m.local@[k]));
                assert(cascaded(*m, own_holds(s), before[k]@, packages@[k]@, k));
            }
            assert(distinct_names(packages@)) by {
                assert forall|a: int, b: int| 0 <= a < b < packages@.len() implies (
                #[trigger] packages@[a]).name@ != (#[trigger] packages@[b]).name@ by {
                    assert(packages@[a]@.name == m.local@[a].name@);
                    assert(packages@[b]@.name == m.local@[b].name@);
                    assert(m.local@[a].name@ != m.local@[b].name@);
                }
            }
        }
        let updates = list_updates(&packages, false, true);
        let held_packages = list_updates(&packages, true, false);
        ResolveResult {
            installed_count: m.local.len(),
            repos: clone_strings(&m.repos),
            packages,
            updates,
            held_packages,
            unresolved_pins: unresolved,
        }
    }
}

// ---------------------------------------------------------------------------------------
// What to ask the AUR for

/// The first `n` installed packages that no repository has, each once.
pub open spec fn foreign_upto(m: AlpmManager, n: int) -> Seq<Seq<char>>
    decreases n,
{
    if n <= 0 {
        Seq::empty()
    } else {
        let name = m.local@[n - 1].name@;
        if db::in_some_db(m.sync@, name) {
            foreign_upto(m, n - 1)
        } else {
            db::add_new(foreign_upto(m, n - 1), name)
        }
    }
}

/// `names` and those of the first `n` installed packages that match `pattern`, each once.
pub open spec fn matching_upto(
    m: AlpmManager,
    pattern: Seq<char>,
    names: Seq<Seq<char>>,
    n: int,
) -> Seq<Seq<char>>
    decreases n,
{
    if n <= 0 {
        names
    } else {
        let name = m.local@[n - 1].name@;
        if patterns::glob_hit(pattern, name) {
            db::add_new(matching_upto(m, pattern, names, n - 1), name)
        } else {
            matching_upto(m, pattern, names, n - 1)
        }
    }
}

/// `names` and what the first `n` pins to the AUR cover: the installed packages that match,
/// and the pin itself where it is no pattern.
pub open spec fn aur_pins_upto(
    m: AlpmManager,
    pins: Seq<(Seq<char>, String)>,
    names: Seq<Seq<char>>,
    n: int,
) -> Seq<Seq<char>>
    decreases n,
{
    if n <= 0 {
        names
    } else {
        let before = aur_pins_upto(m, pins, names, n - 1);
        let pattern = pins[n - 1].0;
        if !text::same_ignoring_case(pins[n - 1].1@, "aur"@) {
            before
        } else {
            let more = matching_upto(m, pattern, before, m.local@.len() as int);
            if patterns::is_glob(pattern) {
                more
            } else {
                db::add_new(more, pattern)
            }
        }
    }
}

/// The packages that the AUR is asked about.
pub open spec fn aur_names(m: AlpmManager, config: Config) -> Seq<Seq<char>> {
    let foreign = foreign_upto(m, m.local@.len() as int);
    if config.features.pinning {
        aur_pins_upto(m, config.pins@, foreign, config.pins@.len() as int)
    } else {
        foreign
    }
}

proof fn matching_keeps(
    m: AlpmManager,
    pattern: Seq<char>,
    names: Seq<Seq<char>>,
    n: int,
    t: Seq<char>,
)
    requires
        names.contains(t),
    ensures
        matching_upto(m, pattern, names, n).contains(t),
    decreases n,
{
    if n > 0 {
        matching_keeps(m, pattern, names, n - 1, t);
        added_keeps(matching_upto(m, pattern, names, n - 1), m.local@[n - 1].name@, t);
    }
}

proof fn added_keeps(s: Seq<Seq<char>>, x: Seq<char>, t: Seq<char>)
    ensures
        db::add_new(s, x).contains(x),
        s.contains(t) ==> db::add_new(s, x).contains(t),
{
    if !s.contains(x) {
        assert(s.push(x)[s.len() as int] == x);
    }
    if s.contains(t) {
        let k = choose|k: int| 0 <= k < s.len() && s[k] == t;
        assert(db::add_new(s, x)[k] == t);
    }
}

proof fn aur_pins_keep(
    m: AlpmManager,
    pins: Seq<(Seq<char>, String)>,
    names: Seq<Seq<char>>,
    n: int,
    t: Seq<char>,
)
    requires
        names.contains(t),
    ensures
        aur_pins_upto(m, pins, names, n).contains(t),
    decreases n,
{
    if n > 0 {
        aur_pins_keep(m, pins, names, n - 1, t);
        let before = aur_pins_upto(m, pins, names, n - 1);
        matching_keeps(m, pins[n - 1].0, before, m.local@.len() as int, t);
        added_keeps(
            matching_upto(m, pins[n - 1].0, before, m.local@.len() as int),
            pins[n - 1].0,
            t,
        );
    }
}

proof fn foreign_is_listed(m: AlpmManager, n: int, i: int)
    requires
        0 <= i < n <= m.local@.len(),
        !db::in_some_db(m.sync@, m.local@[i].name@),
    ensures
        foreign_upto(m, n).contains(m.local@[i].name@),
    decreases n,
{
    if i < n - 1 {
        foreign_is_listed(m, n - 1, i);
        added_keeps(foreign_upto(m, n - 1), m.local@[n - 1].name@, m.local@[i].name@);
    } else {
        added_keeps(foreign_upto(m, n - 1), m.local@[i].name@, m.local@[i].name@);
    }
}

/// Every installed package that no repository has is asked for.
pub proof fn foreign_packages_are_asked_for(m: AlpmManager, config: Config, i: int)
    requires
        0 <= i < m.local@.len(),
        !db::in_some_db(m.sync@, m.local@[i].name@),
    ensures
        aur_names(m, config).contains(m.local@[i].name@),
{
    foreign_is_listed(m, m.local@.len() as int, i);
    aur_pins_keep(
        m,
        config.pins@,
        foreign_upto(m, m.local@.len() as int),
        config.pins@.len() as int,
        m.local@[i].name@,
    );
}

/// The packages to ask the AUR about: those that no repository has, and those that are
/// pinned to the AUR.
pub fn packages_to_query(m: &AlpmManager, config: &Config) -> (r: Vec<String>)
    ensures
        text::texts(r@) == aur_names(*m, *config),
{
    let mut out: Vec<String> = Vec::new();
    let mut i: usize = 0;
    assert(text::texts(out@) =~= Seq::<Seq<char>>::empty());
    while i < m.local.len()
        invariant
            i <= m.local@.len(),
            text::texts(out@) == foreign_upto(*m, i as int),
        decreases m.local@.len() - i,
    {
        if !m.is_in_sync(&m.local[i].name) {
            push_new(&mut out, &m.local[i].name);
        }
        i += 1;
    }
    if !config.features.pinning {
        return out;
    }
    let ghost foreign = text::texts(out@);
    let mut k: usize = 0;
    while k < config.pins.len()
        invariant
            k <= config.pins@.len(),
            foreign == foreign_upto(*m, m.local@.len() as int),
            text::texts(out@) == aur_pins_upto(*m, config.pins@, foreign, k as int),
        decreases config.pins@.len() - k,
    {
        let pattern = config.pins.key_at(k);
        if eq_ignore_case(config.pins.value_at(k), "aur") {
            let ghost before = text::texts(out@);
            let mut j: usize = 0;
            while j < m.local.len()
                invariant
                    j <= m.local@.len(),
                    text::texts(out@) == matching_upto(*m, pattern@, before, j as int),
                decreases m.local@.len() - j,
            {
                if matches_glob(pattern, &m.local[j].name) {
                    push_new(&mut out, &m.local[j].name);
                }
                j += 1;
            }
            if !has_glob_chars(pattern) {
                push_new(&mut out, pattern);
            }
        }
        k += 1;
    }
    out
}

// ---------------------------------------------------------------------------------------
// The repositories on record

/// What the description of an installed package says of its name and of its repository of
/// origin, read from line `i` on: the line behind a marker holds the value, and reading ends
/// when both are known.
pub open spec fn desc_from(
    ls: Seq<Seq<char>>,
    i: int,
    name: Option<Seq<char>>,
    db: Option<Seq<char>>,
) -> (Option<Seq<char>>, Option<Seq<char>>)
    decreases ls.len() - i,
{
    if i < 0 || i >= ls.len() || (name is Some && db is Some) {
        (name, db)
    } else if ls[i] == "%NAME%"@ && i + 1 < ls.len() {
        desc_from(ls, i + 2, Some(text::trim(ls[i + 1])), db)
    } else if ls[i] == "%INSTALLED_DB%"@ && i + 1 < ls.len() {
        desc_from(ls, i + 2, name, Some(text::trim(ls[i + 1])))
    } else {
        desc_from(ls, i + 1, name, db)
    }
}

/// The name and the repository of origin in the description of an installed package, where
/// both are there.
pub open spec fn described(content: Seq<char>) -> Option<(Seq<char>, Seq<char>)> {
    match desc_from(text::lines(content), 0, None, None) {
        (Some(n), Some(d)) => Some((n, d)),
        _ => None,
    }
}

/// Reads the description of an installed package.
pub fn parse_desc(content: &str) -> (r: Option<(String, String)>)
    ensures
        match r {
            Some((n, d)) => described(content@) == Some((n@, d@)),
            None => described(content@) is None,
        },
{
    proof {
        reveal_strlit("%NAME%");
        reveal_strlit("%INSTALLED_DB%");
        assert("%NAME%"@.len() != "%INSTALLED_DB%"@.len());
    }
    let ls = lines_of(content);
    let ghost all = text::lines(content@);
    let mut name: Option<String> = None;
    let mut db: Option<String> = None;
    let mut i: usize = 0;
    while i < ls.len() && !(name.is_some() && db.is_some())
        invariant
            i <= ls@.len(),
            "%NAME%"@ != "%INSTALLED_DB%"@,
            all == text::lines(content@),
            text::texts(ls@) == all,
            desc_from(all, 0, None, None) == desc_from(
                all,
                i as int,
                text::opt_text(name),
                text::opt_text(db),
            ),
        decreases ls@.len() - i,
    {
        assert(all[i as int] == ls@[i as int]@);
        if i + 1 < ls.len() {
            assert(all[i + 1] == ls@[i + 1]@);
            if str_eq(&ls[i], "%NAME%") {
                name = Some(trimmed(&ls[i + 1]));
                i += 2;
            } else if str_eq(&ls[i], "%INSTALLED_DB%") {
                db = Some(trimmed(&ls[i + 1]));
                i += 2;
            } else {
                i += 1;
            }
        } else {
            i += 1;
        }
    }
    match name {
        Some(n) => match db {
            Some(d) => Some((n, d)),
            None => None,
        },
        None => None,
    }
}

/// The repository on record for `name` in the first `n` descriptions: the last one counts.
pub open spec fn recorded_db(contents: Seq<String>, n: int, name: Seq<char>) -> Option<Seq<char>>
    decreases n,
{
    if n <= 0 {
        None
    } else {
        match described(contents[n - 1]@) {
            Some((k, d)) => if k == name {
                Some(d)
            } else {
                recorded_db(contents, n - 1, name)
            },
            None => recorded_db(contents, n - 1, name),
        }
    }
}

/// The repositories of origin in a list of descriptions.
pub fn load_installed_dbs(contents: &Vec<String>) -> (r: StrMap<String>)
    ensures
        r.ordered(),
        forall|name: Seq<char>|
            text::opt_text(#[trigger] strmap::lookup(r@, name)) == recorded_db(
                contents@,
                contents@.len() as int,
                name,
            ),
{
    let mut map: StrMap<String> = StrMap::new();
    let mut i: usize = 0;
    while i < contents.len()
        invariant
            i <= contents@.len(),
            map.ordered(),
            forall|name: Seq<char>|
                text::opt_text(#[trigger] strmap::lookup(map@, name)) == recorded_db(contents@, i as int, name),
        decreases contents@.len() - i,
    {
        if let Some((n, d)) = parse_desc(&contents[i]) {
            map.insert(n, d);
        }
        i += 1;
    }
    map
}

} // verus!
