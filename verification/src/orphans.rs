//! Packages that nothing requires any more.
use crate::db::{AlpmManager, LocalPackage};
use crate::journal::TransactionJournal;
use crate::journal;
use crate::json::json_strings;
use crate::json;
use crate::paths::join_path;
use crate::paths;
use crate::pm::CommandLine;
use crate::pm;
use crate::resolver::{CandidatePackage, ResolvedPackage};
use crate::strmap::StrMap;
use crate::strmap;
use crate::text::{clone_strings, join_strings, list_contains, no_strings, push_str, push_strs, str_eq, str_precedes};
use crate::text;
use vstd::prelude::*;
use vstd::string::*;

verus! {

#[derive(Debug, Clone)]
pub struct OrphanPackage {
    pub name: String,
    pub version: String,
    pub isize: i64,
    pub desc: String,
    /// It becomes an orphan only through the pending updates.
    pub is_projected: bool,
    pub dropped_by: Vec<String>,
    pub optional_for: Vec<String>,
}

#[verifier::ext_equal]
pub struct OrphanView {
    pub name: Seq<char>,
    pub version: Seq<char>,
    pub isize: i64,
    pub desc: Seq<char>,
    pub is_projected: bool,
    pub dropped_by: Seq<Seq<char>>,
    pub optional_for: Seq<Seq<char>>,
}

impl View for OrphanPackage {
    type V = OrphanView;

    open spec fn view(&self) -> OrphanView {
        OrphanView {
            name: self.name@,
            version: self.version@,
            isize: self.isize,
            desc: self.desc@,
            is_projected: self.is_projected,
            dropped_by: text::texts(self.dropped_by@),
            optional_for: text::texts(self.optional_for@),
        }
    }
}

impl OrphanPackage {
    /// Nothing installed names it as optional either.
    pub fn is_pure(&self) -> (r: bool)
        ensures
            r == pure_orphan(self@),
    {
        assert(self@.optional_for.len() == self.optional_for@.len());
        self.optional_for.len() == 0
    }

    pub fn dup(&self) -> (r: Self)
        ensures
            r@ == self@,
    {
        OrphanPackage {
            name: self.name.clone(),
            version: self.version.clone(),
            isize: self.isize,
            desc: self.desc.clone(),
            is_projected: self.is_projected,
            dropped_by: clone_strings(&self.dropped_by),
            optional_for: clone_strings(&self.optional_for),
        }
    }
}

pub open spec fn pure_orphan(o: OrphanView) -> bool {
    o.optional_for.len() == 0
}

/// What is remembered of an orphan that the user has been told of.
#[derive(Debug, Clone)]
pub struct KnownOrphan {
    pub is_pure: bool,
    pub optional_for: Vec<String>,
}

// ---------------------------------------------------------------------------------------
// Detection

/// The candidate of the last update of the package `name` among the first `n`.
pub open spec fn candidate_upto(updates: Seq<ResolvedPackage>, n: int, name: Seq<char>) -> Option<
    CandidatePackage,
>
    decreases n,
{
    if n <= 0 {
        None
    } else if updates[n - 1].candidate is Some && updates[n - 1].name@ == name {
        updates[n - 1].candidate
    } else {
        candidate_upto(updates, n - 1, name)
    }
}

/// The update of `parent` no longer depends on `name`.
pub open spec fn drops(updates: Seq<ResolvedPackage>, parent: Seq<char>, name: Seq<char>) -> bool {
    match candidate_upto(updates, updates.len() as int, parent) {
        Some(c) => !text::texts(c.depends@).contains(name),
        None => false,
    }
}

pub open spec fn all_drop(updates: Seq<ResolvedPackage>, parents: Seq<String>, name: Seq<char>) -> bool {
    forall|k: int| 0 <= k < parents.len() ==> drops(updates, (#[trigger] parents[k])@, name)
}

/// The orphan that an installed package is or will be: one that came as a dependency and
/// that nothing requires, or whose every parent drops it with its update.
pub open spec fn orphan_of(p: LocalPackage, updates: Seq<ResolvedPackage>) -> Option<OrphanView> {
    let now = p.required_by@.len() == 0;
    if p.as_dependency && (now || all_drop(updates, p.required_by@, p.name@)) {
        Some(
            OrphanView {
                name: p.name@,
                version: p.version@,
                isize: p.isize,
                desc: match p.desc {
                    Some(d) => d@,
                    None => Seq::empty(),
                },
                is_projected: !now,
                dropped_by: text::texts(p.required_by@),
                optional_for: text::texts(p.optional_for@),
            },
        )
    } else {
        None
    }
}

/// Pure orphans come first, then by name.
pub open spec fn orphan_before(a: OrphanView, b: OrphanView) -> bool {
    if pure_orphan(a) != pure_orphan(b) {
        pure_orphan(a)
    } else {
        text::precedes(a.name, b.name)
    }
}

pub open spec fn is_orphan_of(
    local: Seq<LocalPackage>,
    updates: Seq<ResolvedPackage>,
    v: OrphanView,
) -> bool {
    exists|k: int| 0 <= k < local.len() && orphan_of(#[trigger] local[k], updates) == Some(v)
}

pub open spec fn orphan_listed(list: Seq<OrphanPackage>, v: OrphanView) -> bool {
    exists|i: int| 0 <= i < list.len() && (#[trigger] list[i])@ == v
}

/// `list` holds exactly the orphans among the installed packages, each once, in order.
pub open spec fn orphan_listing(
    local: Seq<LocalPackage>,
    updates: Seq<ResolvedPackage>,
    list: Seq<OrphanPackage>,
) -> bool {
    &&& forall|i: int, j: int|
        0 <= i < j < list.len() ==> orphan_before((#[trigger] list[i])@, (#[trigger] list[j])@)
    &&& forall|i: int| 0 <= i < list.len() ==> is_orphan_of(local, updates, (#[trigger] list[i])@)
    &&& forall|k: int|
        0 <= k < local.len() && orphan_of(#[trigger] local[k], updates) is Some ==> orphan_listed(
            list,
            orphan_of(local[k], updates)->0,
        )
}

fn find_candidate<'a>(updates: &'a Vec<ResolvedPackage>, name: &str) -> (r: Option<
    &'a CandidatePackage,
>)
    ensures
        match r {
            Some(c) => candidate_upto(updates@, updates@.len() as int, name@) == Some(*c),
            None => candidate_upto(updates@, updates@.len() as int, name@) is None,
        },
{
    let mut n: usize = updates.len();
    while n > 0
        invariant
            n <= updates@.len(),
            candidate_upto(updates@, updates@.len() as int, name@) == candidate_upto(
                updates@,
                n as int,
                name@,
            ),
        decreases n,
    {
        if let Some(c) = &updates[n - 1].candidate {
            if str_eq(&updates[n - 1].name, name) {
                return Some(c);
            }
        }
        n -= 1;
    }
    None
}

fn all_parents_drop(updates: &Vec<ResolvedPackage>, parents: &Vec<String>, name: &str) -> (r: bool)
    ensures
        r == all_drop(updates@, parents@, name@),
{
    let mut k: usize = 0;
    while k < parents.len()
        invariant
            k <= parents@.len(),
            forall|l: int| 0 <= l < k ==> drops(updates@, (#[trigger] parents@[l])@, name@),
        decreases parents@.len() - k,
    {
        let ok: bool = match find_candidate(updates, &parents[k]) {
            Some(c) => !list_contains(&c.depends, name),
            None => false,
        };
        if !ok {
            assert(!drops(updates@, parents@[k as int]@, name@));
            return false;
        }
        k += 1;
    }
    true
}

fn make_orphan(p: &LocalPackage, updates: &Vec<ResolvedPackage>) -> (r: Option<OrphanPackage>)
    ensures
        match r {
            Some(o) => orphan_of(*p, updates@) == Some(o@),
            None => orphan_of(*p, updates@) is None,
        },
{
    if !p.as_dependency {
        return None;
    }
    let now: bool = p.required_by.len() == 0;
    if !now && !all_parents_drop(updates, &p.required_by, &p.name) {
        return None;
    }
    let desc: String = match &p.desc {
        Some(d) => d.clone(),
        None => String::new(),
    };
    Some(
        OrphanPackage {
            name: p.name.clone(),
            version: p.version.clone(),
            isize: p.isize,
            desc,
            is_projected: !now,
            dropped_by: clone_strings(&p.required_by),
            optional_for: clone_strings(&p.optional_for),
        },
    )
}

fn goes_first(a: &OrphanPackage, b: &OrphanPackage) -> (r: bool)
    ensures
        r == orphan_before(a@, b@),
{
    let x: bool = a.is_pure();
    let y: bool = b.is_pure();
    if x != y {
        x
    } else {
        str_precedes(&a.name, &b.name)
    }
}

proof fn orphan_transitive(a: OrphanView, b: OrphanView, c: OrphanView)
    requires
        orphan_before(a, b),
        orphan_before(b, c),
    ensures
        orphan_before(a, c),
{
    if pure_orphan(a) == pure_orphan(b) && pure_orphan(b) == pure_orphan(c) {
        text::precedes_transitive(a.name, b.name, c.name);
    }
}

proof fn is_orphan_of_more(
    part: Seq<LocalPackage>,
    p: LocalPackage,
    updates: Seq<ResolvedPackage>,
    v: OrphanView,
)
    requires
        is_orphan_of(part, updates, v),
    ensures
        is_orphan_of(part.push(p), updates, v),
{
    let k = choose|k: int| 0 <= k < part.len() && orphan_of(#[trigger] part[k], updates) == Some(v);
    assert(part.push(p)[k] == part[k]);
}

proof fn orphan_listed_more(list: Seq<OrphanPackage>, at: int, item: OrphanPackage, v: OrphanView)
    requires
        0 <= at <= list.len(),
        orphan_listed(list, v) || item@ == v,
    ensures
        orphan_listed(list.insert(at, item), v),
{
    let longer = list.insert(at, item);
    if orphan_listed(list, v) {
        let i = choose|i: int| 0 <= i < list.len() && (#[trigger] list[i])@ == v;
        if i < at {
            assert(longer[i] == list[i]);
        } else {
            assert(longer[i + 1] == list[i]);
        }
    } else {
        assert(longer[at] == item);
    }
}

proof fn orphan_list_grows(
    m: AlpmManager,
    n: int,
    updates: Seq<ResolvedPackage>,
    list: Seq<OrphanPackage>,
    item: OrphanPackage,
    at: int,
)
    requires
        m.distinct(),
        0 <= n < m.local@.len(),
        orphan_listing(m.local@.take(n), updates, list),
        orphan_of(m.local@[n], updates) == Some(item@),
        0 <= at <= list.len(),
        forall|j: int| 0 <= j < at ==> orphan_before((#[trigger] list[j])@, item@),
        at < list.len() ==> !orphan_before(list[at]@, item@),
    ensures
        orphan_listing(m.local@.take(n + 1), updates, list.insert(at, item)),
{
    let part = m.local@.take(n);
    let p = m.local@[n];
    let next = m.local@.take(n + 1);
    assert(next =~= part.push(p));
    let longer = list.insert(at, item);
    if at < list.len() {
        assert(is_orphan_of(part, updates, list[at]@));
        let k = choose|k: int|
            0 <= k < part.len() && orphan_of(#[trigger] part[k], updates) == Some(list[at]@);
        assert(part[k] == m.local@[k]);
        assert(m.local@[k].name@ != m.local@[n].name@);
        text::precedes_total(list[at].name@, item.name@);
        assert(orphan_before(item@, list[at]@));
    }
    assert forall|i: int, j: int| 0 <= i < j < longer.len() implies orphan_before(
        (#[trigger] longer[i])@,
        (#[trigger] longer[j])@,
    ) by {
        if i == at {
            assert(longer[j] == list[j - 1]);
            if j - 1 > at {
                assert(orphan_before(list[at]@, list[j - 1]@));
                orphan_transitive(item@, list[at]@, list[j - 1]@);
            }
        } else if j == at {
            assert(longer[i] == list[i]);
        } else {
            let x = if i < at { i } else { i - 1 };
            let y = if j < at { j } else { j - 1 };
            assert(longer[i] == list[x]);
            assert(longer[j] == list[y]);
        }
    }
    assert forall|i: int| 0 <= i < longer.len() implies is_orphan_of(
        next,
        updates,
        (#[trigger] longer[i])@,
    ) by {
        if i == at {
            assert(next[n] == p);
            assert(longer[at] == item);
        } else {
            let x = if i < at { i } else { i - 1 };
            assert(longer[i] == list[x]);
            is_orphan_of_more(part, p, updates, list[x]@);
        }
    }
    assert forall|k: int| 0 <= k < next.len() && orphan_of(
        #[trigger] next[k],
        updates,
    ) is Some implies orphan_listed(longer, orphan_of(next[k], updates)->0) by {
        if k < n {
            assert(next[k] == part[k]);
        }
        orphan_listed_more(list, at, item, orphan_of(next[k], updates)->0);
    }
}

proof fn orphan_list_stays(
    m: AlpmManager,
    n: int,
    updates: Seq<ResolvedPackage>,
    list: Seq<OrphanPackage>,
)
    requires
        0 <= n < m.local@.len(),
        orphan_listing(m.local@.take(n), updates, list),
        orphan_of(m.local@[n], updates) is None,
    ensures
        orphan_listing(m.local@.take(n + 1), updates, list),
{
    let part = m.local@.take(n);
    let p = m.local@[n];
    let next = m.local@.take(n + 1);
    assert(next =~= part.push(p));
    assert forall|i: int| 0 <= i < list.len() implies is_orphan_of(
        next,
        updates,
        (#[trigger] list[i])@,
    ) by {
        is_orphan_of_more(part, p, updates, list[i]@);
    }
    assert forall|k: int| 0 <= k < next.len() && orphan_of(
        #[trigger] next[k],
        updates,
    ) is Some implies orphan_listed(list, orphan_of(next[k], updates)->0) by {
        assert(next[k] == part[k]);
    }
}

/// The orphans with these names.
pub open spec fn orphan_names(v: Seq<OrphanPackage>) -> Seq<Seq<char>> {
    Seq::new(v.len(), |i: int| v[i].name@)
}

pub open spec fn orphan_views(v: Seq<OrphanPackage>) -> Seq<OrphanView> {
    Seq::new(v.len(), |i: int| v[i]@)
}

/// The names of the pure ones among the first `n`.
pub open spec fn pure_names(v: Seq<OrphanPackage>, n: int) -> Seq<Seq<char>>
    decreases n,
{
    if n <= 0 {
        Seq::empty()
    } else if pure_orphan(v[n - 1]@) {
        pure_names(v, n - 1).push(v[n - 1].name@)
    } else {
        pure_names(v, n - 1)
    }
}

/// Those of the first `n` whose names are not among `gone`.
pub open spec fn remaining_upto(v: Seq<OrphanPackage>, gone: Seq<Seq<char>>, n: int) -> Seq<
    OrphanView,
>
    decreases n,
{
    if n <= 0 {
        Seq::empty()
    } else if gone.contains(v[n - 1].name@) {
        remaining_upto(v, gone, n - 1)
    } else {
        remaining_upto(v, gone, n - 1).push(v[n - 1]@)
    }
}

/// `o` has not been told of, or has become pure or impure since.
pub open spec fn is_news(o: OrphanPackage, known: Seq<(Seq<char>, KnownOrphan)>) -> bool {
    match strmap::lookup(known, o.name@) {
        None => true,
        Some(k) => k.is_pure != pure_orphan(o@),
    }
}

/// The record of `name` in what is remembered of the first `n` orphans: the last one counts.
pub open spec fn remembered(v: Seq<OrphanPackage>, n: int, name: Seq<char>) -> Option<
    (bool, Seq<Seq<char>>),
>
    decreases n,
{
    if n <= 0 {
        None
    } else if v[n - 1].name@ == name {
        Some((pure_orphan(v[n - 1]@), v[n - 1]@.optional_for))
    } else {
        remembered(v, n - 1, name)
    }
}

pub open spec fn known_view(o: Option<KnownOrphan>) -> Option<(bool, Seq<Seq<char>>)> {
    match o {
        Some(k) => Some((k.is_pure, text::texts(k.optional_for@))),
        None => None,
    }
}

pub struct OrphanManager;

impl OrphanManager {
    /// The file that known orphans are remembered in.
    pub fn state_file(home: Option<&str>) -> (r: Option<String>)
        ensures
            text::opt_text(r) == match home {
                Some(h) => Some(paths::joined(journal::state_path(h@), "known_orphans.json"@)),
                None => None,
            },
    {
        match TransactionJournal::state_dir(home) {
            Ok(d) => Some(join_path(&d, "known_orphans.json")),
            Err(_e) => None,
        }
    }

    /// The orphans of an installation, with those that the pending updates will make.
    pub fn detect(manager: &AlpmManager, updates: &Vec<ResolvedPackage>) -> (r: Vec<OrphanPackage>)
        requires
            manager.distinct(),
        ensures
            orphan_listing(manager.local@, updates@, r@),
    {
        let mut out: Vec<OrphanPackage> = Vec::new();
        let mut n: usize = 0;
        while n < manager.local.len()
            invariant
                n <= manager.local@.len(),
                manager.distinct(),
                orphan_listing(manager.local@.take(n as int), updates@, out@),
            decreases manager.local@.len() - n,
        {
            let ghost before = out@;
            match make_orphan(&manager.local[n], updates) {
                Some(item) => {
                    let mut i: usize = 0;
                    while i < out.len() && goes_first(&out[i], &item)
                        invariant
                            i <= out@.len(),
                            out@ == before,
                            forall|j: int|
                                0 <= j < i ==> orphan_before((#[trigger] before[j])@, item@),
                        decreases out@.len() - i,
                    {
                        i += 1;
                    }
                    proof {
                        orphan_list_grows(*manager, n as int, updates@, before, item, i as int);
                    }
                    out.insert(i, item);
                },
                None => {
                    proof {
                        orphan_list_stays(*manager, n as int, updates@, before);
                    }
                },
            }
            n += 1;
        }
        assert(manager.local@.take(manager.local@.len() as int) =~= manager.local@);
        out
    }

    /// Whether there is an orphan to tell of that was not known, or not as pure or impure as
    /// it is now. Without any record every orphan is news.
    pub fn has_changed(current: &Vec<OrphanPackage>, known: Option<&StrMap<KnownOrphan>>) -> (r:
        bool)
        ensures
            r == match known {
                Some(k) => exists|i: int|
                    0 <= i < current@.len() && is_news(#[trigger] current@[i], k@),
                None => current@.len() > 0,
            },
    {
        match known {
            None => current.len() > 0,
            Some(k) => {
                let mut i: usize = 0;
                while i < current.len()
                    invariant
                        i <= current@.len(),
                        known == Some(k),
                        forall|j: int| 0 <= j < i ==> !is_news(#[trigger] current@[j], k@),
                    decreases current@.len() - i,
                {
                    let news: bool = match k.get(&current[i].name) {
                        None => true,
                        Some(record) => record.is_pure != current[i].is_pure(),
                    };
                    if news {
                        assert(is_news(current@[i as int], k@));
                        return true;
                    }
                    i += 1;
                }
                false
            },
        }
    }

    /// What to remember of the orphans that have been told of.
    pub fn save_known(orphans: &Vec<OrphanPackage>) -> (r: StrMap<KnownOrphan>)
        ensures
            r.ordered(),
            forall|name: Seq<char>|
                known_view(#[trigger] strmap::lookup(r@, name)) == remembered(
                    orphans@,
                    orphans@.len() as int,
                    name,
                ),
    {
        let mut map: StrMap<KnownOrphan> = StrMap::new();
        let mut i: usize = 0;
        while i < orphans.len()
            invariant
                i <= orphans@.len(),
                map.ordered(),
                forall|name: Seq<char>|
                    known_view(#[trigger] strmap::lookup(map@, name)) == remembered(
                        orphans@,
                        i as int,
                        name,
                    ),
            decreases orphans@.len() - i,
        {
            let o = &orphans[i];
            map.insert(
                o.name.clone(),
                KnownOrphan { is_pure: o.is_pure(), optional_for: clone_strings(&o.optional_for) },
            );
            i += 1;
        }
        map
    }

    /// The record that a mere list of names stands for: none of them counts as pure, so that
    /// a pure orphan is told of again.
    pub fn load_known(names: &Vec<String>) -> (r: StrMap<KnownOrphan>)
        ensures
            r.ordered(),
            forall|name: Seq<char>|
                known_view(#[trigger] strmap::lookup(r@, name)) == if text::texts(names@).contains(name) {
                    Some((false, Seq::<Seq<char>>::empty()))
                } else {
                    None
                },
    {
        let mut map: StrMap<KnownOrphan> = StrMap::new();
        let mut i: usize = 0;
        while i < names.len()
            invariant
                i <= names@.len(),
                map.ordered(),
                forall|name: Seq<char>|
                    known_view(#[trigger] strmap::lookup(map@, name)) == if text::texts(names@).take(
                        i as int,
                    ).contains(name) {
                        Some((false, Seq::<Seq<char>>::empty()))
                    } else {
                        None
                    },
            decreases names@.len() - i,
        {
            let ghost a = text::texts(names@).take(i as int);
            let ghost b = text::texts(names@).take(i + 1);
            map.insert(
                names[i].clone(),
                KnownOrphan { is_pure: false, optional_for: no_strings() },
            );
            proof {
                assert(b =~= a.push(names@[i as int]@));
                assert forall|name: Seq<char>|
                    known_view(#[trigger] strmap::lookup(map@, name)) == if b.contains(name) {
                        Some((false, Seq::<Seq<char>>::empty()))
                    } else {
                        None
                    } by {
                    if a.contains(name) {
                        let k = choose|k: int| 0 <= k < a.len() && a[k] == name;
                        assert(b[k] == name);
                    }
                    if name == names@[i as int]@ {
                        assert(b[i as int] == name);
                    }
                }
            }
            i += 1;
        }
        assert(text::texts(names@).take(names@.len() as int) =~= text::texts(names@));
        map
    }

    /// What is remembered in a file with this content: `current` where the content is a record
    /// of orphans, else what a mere list of names stands for; nothing where it is neither.
    pub fn known_from(content: &str, current: Option<StrMap<KnownOrphan>>) -> (r: Option<
        StrMap<KnownOrphan>,
    >)
        ensures
            match current {
                Some(m) => r == Some(m),
                None => match json::strings_in(content@) {
                    Some(names) => r is Some && r->0.ordered() && forall|name: Seq<char>|
                        known_view(#[trigger] strmap::lookup(r->0@, name)) == if names.contains(name) {
                            Some((false, Seq::<Seq<char>>::empty()))
                        } else {
                            None
                        },
                    None => r is None,
                },
            },
    {
        if current.is_some() {
            return current;
        }
        match json_strings(content) {
            Some(names) => Some(OrphanManager::load_known(&names)),
            None => None,
        }
    }

    /// The names of the pure orphans.
    pub fn pure_orphans(orphans: &Vec<OrphanPackage>) -> (r: Vec<String>)
        ensures
            text::texts(r@) == pure_names(orphans@, orphans@.len() as int),
    {
        let mut out = no_strings();
        let mut i: usize = 0;
        while i < orphans.len()
            invariant
                i <= orphans@.len(),
                text::texts(out@) == pure_names(orphans@, i as int),
            decreases orphans@.len() - i,
        {
            if orphans[i].is_pure() {
                push_str(&mut out, &orphans[i].name);
            }
            i += 1;
        }
        out
    }

    /// The names of all orphans.
    pub fn names(orphans: &Vec<OrphanPackage>) -> (r: Vec<String>)
        ensures
            text::texts(r@) == orphan_names(orphans@),
    {
        let mut out: Vec<String> = Vec::new();
        let mut i: usize = 0;
        while i < orphans.len()
            invariant
                i <= orphans@.len(),
                out@.len() == i,
                forall|j: int| 0 <= j < i ==> (#[trigger] out@[j])@ == orphans@[j].name@,
            decreases orphans@.len() - i,
        {
            out.push(orphans[i].name.clone());
            i += 1;
        }
        assert(text::texts(out@) =~= orphan_names(orphans@));
        out
    }

    /// The orphans that are left when those in `selected` are removed.
    pub fn remaining(orphans: &Vec<OrphanPackage>, selected: &Vec<String>) -> (r: Vec<OrphanPackage>)
        ensures
            orphan_views(r@) == remaining_upto(orphans@, text::texts(selected@), orphans@.len() as int),
    {
        let mut out: Vec<OrphanPackage> = Vec::new();
        let mut i: usize = 0;
        assert(orphan_views(out@) =~= Seq::<OrphanView>::empty());
        while i < orphans.len()
            invariant
                i <= orphans@.len(),
                orphan_views(out@) == remaining_upto(orphans@, text::texts(selected@), i as int),
            decreases orphans@.len() - i,
        {
            if !list_contains(selected, &orphans[i].name) {
                let ghost before = orphan_views(out@);
                out.push(orphans[i].dup());
                assert(orphan_views(out@) =~= before.push(orphans@[i as int]@));
            }
            i += 1;
        }
        out
    }

    /// The command that removes orphans, and its text for the record; nothing where there is
    /// nothing to remove.
    pub fn execute_removal(selected: &Vec<String>) -> (r: Option<(CommandLine, String)>)
        ensures
            match r {
                Some((c, text)) => {
                    let args = seq!["pacman"@, "-Rns"@, "--noconfirm"@] + text::texts(selected@);
                    &&& selected@.len() > 0
                    &&& pm::runs(c, "sudo"@, args)
                    &&& text@ == "sudo "@ + text::join(args, " "@)
                },
                None => selected@.len() == 0,
            },
    {
        if selected.len() == 0 {
            return None;
        }
        let mut args = no_strings();
        push_str(&mut args, "pacman");
        push_str(&mut args, "-Rns");
        push_str(&mut args, "--noconfirm");
        assert(text::texts(args@) =~= seq!["pacman"@, "-Rns"@, "--noconfirm"@]);
        push_strs(&mut args, selected);
        let shown = join_strings(&args, " ");
        let mut text: String = "sudo ".to_string();
        text.append(&shown);
        Some((CommandLine { program: "sudo".to_string(), args }, text))
    }
}

/// A pure orphan of which only the name was remembered is told of again, and any other one
/// is not.
pub proof fn listed_orphan_is_news_if_pure(
    o: OrphanPackage,
    known: Seq<(Seq<char>, KnownOrphan)>,
    names: Seq<Seq<char>>,
)
    requires
        names.contains(o.name@),
        forall|name: Seq<char>|
            known_view(#[trigger] strmap::lookup(known, name)) == if names.contains(name) {
                Some((false, Seq::<Seq<char>>::empty()))
            } else {
                None
            },
    ensures
        is_news(o, known) == pure_orphan(o@),
{
    assert(known_view(strmap::lookup(known, o.name@)) == Some((false, Seq::<Seq<char>>::empty())));
}

/// What has just been remembered is no news.
pub proof fn told_orphans_are_no_news(
    v: Seq<OrphanPackage>,
    known: Seq<(Seq<char>, KnownOrphan)>,
    i: int,
)
    requires
        0 <= i < v.len(),
        forall|a: int, b: int| 0 <= a < b < v.len() ==> (#[trigger] v[a]).name@ != (#[trigger] v[b]).name@,
        forall|name: Seq<char>|
            known_view(#[trigger] strmap::lookup(known, name)) == remembered(v, v.len() as int, name),
    ensures
        !is_news(v[i], known),
{
    remembered_entry(v, v.len() as int, i);
    assert(known_view(strmap::lookup(known, v[i].name@)) == remembered(v, v.len() as int, v[i].name@));
}

proof fn remembered_entry(v: Seq<OrphanPackage>, n: int, i: int)
    requires
        0 <= i < n <= v.len(),
        forall|a: int, b: int| 0 <= a < b < v.len() ==> (#[trigger] v[a]).name@ != (#[trigger] v[b]).name@,
    ensures
        remembered(v, n, v[i].name@) == Some((pure_orphan(v[i]@), v[i]@.optional_for)),
    decreases n,
{
    if i < n - 1 {
        assert(v[i].name@ != v[n - 1].name@);
        remembered_entry(v, n - 1, i);
    }
}

} // verus!
