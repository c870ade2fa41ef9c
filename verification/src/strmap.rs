//! A map from texts to values that is walked in the order of its keys.
use crate::text::{str_eq, str_precedes};
use crate::text;
use vstd::prelude::*;

verus! {

/// The keys of an association list.
pub open spec fn keys<V>(entries: Seq<(Seq<char>, V)>) -> Seq<Seq<char>> {
    Seq::new(entries.len(), |i: int| entries[i].0)
}

/// The value of the first entry from `i` on whose key is `key`.
pub open spec fn lookup_from<V>(entries: Seq<(Seq<char>, V)>, key: Seq<char>, i: int) -> Option<V>
    decreases entries.len() - i,
{
    if i < 0 || i >= entries.len() {
        None
    } else if entries[i].0 == key {
        Some(entries[i].1)
    } else {
        lookup_from(entries, key, i + 1)
    }
}

/// The value stored under `key`.
pub open spec fn lookup<V>(entries: Seq<(Seq<char>, V)>, key: Seq<char>) -> Option<V> {
    lookup_from(entries, key, 0)
}

pub proof fn lookup_from_found<V>(entries: Seq<(Seq<char>, V)>, key: Seq<char>, i: int)
    requires
        0 <= i <= entries.len(),
    ensures
        lookup_from(entries, key, i) is Some <==> exists|k: int|
            i <= k < entries.len() && (#[trigger] entries[k]).0 == key,
        lookup_from(entries, key, i) is Some ==> exists|k: int|
            i <= k < entries.len() && (#[trigger] entries[k]).0 == key && lookup_from(
                entries,
                key,
                i,
            ) == Some(entries[k].1),
    decreases entries.len() - i,
{
    if i < entries.len() && entries[i].0 != key {
        lookup_from_found(entries, key, i + 1);
    }
}

/// In an ascending list the value of a key is that of the only entry with this key.
pub proof fn lookup_entry<V>(entries: Seq<(Seq<char>, V)>, k: int)
    requires
        text::ascending(keys(entries)),
        0 <= k < entries.len(),
    ensures
        lookup(entries, entries[k].0) == Some(entries[k].1),
{
    lookup_skip(entries, entries[k].0, 0, k);
}

proof fn lookup_skip<V>(entries: Seq<(Seq<char>, V)>, key: Seq<char>, i: int, k: int)
    requires
        text::ascending(keys(entries)),
        0 <= i <= k < entries.len(),
        entries[k].0 == key,
    ensures
        lookup_from(entries, key, i) == Some(entries[k].1),
    decreases k - i,
{
    if i < k {
        assert(text::precedes(keys(entries)[i], keys(entries)[k]));
        text::precedes_asymmetric(keys(entries)[i], keys(entries)[k]);
        lookup_skip(entries, key, i + 1, k);
    }
}

/// A map from texts to values; its entries are kept in ascending order of their keys.
#[derive(Debug, Clone)]
pub struct StrMap<V> {
    entries: Vec<(String, V)>,
}

impl<V> View for StrMap<V> {
    type V = Seq<(Seq<char>, V)>;

    closed spec fn view(&self) -> Seq<(Seq<char>, V)> {
        Seq::new(self.entries@.len(), |i: int| (self.entries@[i].0@, self.entries@[i].1))
    }
}

impl<V> StrMap<V> {
    /// The keys ascend, so each occurs once.
    pub open spec fn ordered(self) -> bool {
        text::ascending(keys(self@))
    }

    pub fn new() -> (r: Self)
        ensures
            r@ == Seq::<(Seq<char>, V)>::empty(),
            r.ordered(),
    {
        let r = StrMap { entries: Vec::new() };
        assert(r@ =~= Seq::<(Seq<char>, V)>::empty());
        r
    }

    pub fn len(&self) -> (r: usize)
        ensures
            r == self@.len(),
    {
        self.entries.len()
    }

    pub fn is_empty(&self) -> (r: bool)
        ensures
            r == (self@.len() == 0),
    {
        self.entries.len() == 0
    }

    pub fn key_at(&self, i: usize) -> (r: &String)
        requires
            i < self@.len(),
        ensures
            r@ == self@[i as int].0,
    {
        &self.entries[i].0
    }

    pub fn value_at(&self, i: usize) -> (r: &V)
        requires
            i < self@.len(),
        ensures
            *r == self@[i as int].1,
    {
        &self.entries[i].1
    }

    pub fn get(&self, key: &str) -> (r: Option<&V>)
        ensures
            match r {
                Some(v) => lookup(self@, key@) == Some(*v),
                None => lookup(self@, key@) is None,
            },
    {
        let mut i: usize = 0;
        while i < self.entries.len()
            invariant
                i <= self.entries@.len(),
                lookup(self@, key@) == lookup_from(self@, key@, i as int),
            decreases self.entries@.len() - i,
        {
            if str_eq(&self.entries[i].0, key) {
                return Some(&self.entries[i].1);
            }
            i += 1;
        }
        None
    }

    /// Stores `value` under `key`, in place of an earlier value under it.
    pub fn insert(&mut self, key: String, value: V)
        requires
            old(self).ordered(),
        ensures
            final(self).ordered(),
            forall|k: Seq<char>| #[trigger]
                lookup(final(self)@, k) == if k == key@ {
                    Some(value)
                } else {
                    lookup(old(self)@, k)
                },
    {
        let mut i: usize = 0;
        let ghost before = self@;
        while i < self.entries.len() && str_precedes(&self.entries[i].0, &key)
            invariant
                i <= self.entries@.len(),
                self@ == before,
                forall|j: int| 0 <= j < i ==> text::precedes((#[trigger] before[j]).0, key@),
            decreases self.entries@.len() - i,
        {
            i += 1;
        }
        let ghost kv = key@;
        if i < self.entries.len() && str_eq(&self.entries[i].0, &key) {
            let old_entry = self.entries.remove(i);
            let ghost mid = self@;
            assert(mid =~= before.remove(i as int));
            self.entries.insert(i, (key, value));
            proof {
                let after = self@;
                assert(after =~= before.update(i as int, (kv, value)));
                assert(keys(after) =~= keys(before));
                assert forall|k: Seq<char>| #[trigger]
                    lookup(after, k) == (if k == kv {
                        Some(value)
                    } else {
                        lookup(before, k)
                    }) by {
                    if k == kv {
                        lookup_entry(after, i as int);
                    } else {
                        lookup_update_other(before, i as int, kv, value, k, 0);
                    }
                }
            }
            return;
        }
        self.entries.insert(i, (key, value));
        proof {
            let after = self@;
            assert(after =~= before.insert(i as int, (kv, value)));
            if i < before.len() {
                text::precedes_total(before[i as int].0, kv);
            }
            assert forall|a: int, b: int| 0 <= a < b < keys(after).len() implies text::precedes(
                #[trigger] keys(after)[a],
                #[trigger] keys(after)[b],
            ) by {
                if a < i && b == i {
                } else if a == i {
                    if b > i + 1 {
                        assert(text::precedes(keys(before)[i as int], keys(before)[b - 1]));
                        text::precedes_transitive(kv, before[i as int].0, before[b - 1].0);
                    }
                } else {
                    let x = if a < i { a } else { a - 1 };
                    let y = if b < i { b } else { b - 1 };
                    assert(text::precedes(keys(before)[x], keys(before)[y]));
                }
            }
            assert forall|k: Seq<char>| #[trigger]
                lookup(after, k) == (if k == kv {
                    Some(value)
                } else {
                    lookup(before, k)
                }) by {
                if k == kv {
                    lookup_entry(after, i as int);
                } else {
                    lookup_insert_other(before, i as int, kv, value, k, 0);
                }
            }
        }
    }

    /// Stores `value` under a key that comes after all others.
    pub fn append(&mut self, key: String, value: V)
        requires
            old(self).ordered(),
            old(self)@.len() > 0 ==> text::precedes(old(self)@.last().0, key@),
        ensures
            final(self).ordered(),
            final(self)@ == old(self)@.push((key@, value)),
    {
        let ghost before = self@;
        let ghost kv = key@;
        self.entries.push((key, value));
        proof {
            let after = self@;
            assert(after =~= before.push((kv, value)));
            assert forall|a: int, b: int| 0 <= a < b < keys(after).len() implies text::precedes(
                #[trigger] keys(after)[a],
                #[trigger] keys(after)[b],
            ) by {
                if b == before.len() {
                    let l = before.len() - 1;
                    if a < l {
                        assert(text::precedes(keys(before)[a], keys(before)[l]));
                        text::precedes_transitive(before[a].0, before[l].0, kv);
                    }
                } else {
                    assert(text::precedes(keys(before)[a], keys(before)[b]));
                }
            }
        }
    }

    /// Removes the entry under `key`; `true` if there was one.
    pub fn remove(&mut self, key: &str) -> (r: bool)
        requires
            old(self).ordered(),
        ensures
            final(self).ordered(),
            r == (lookup(old(self)@, key@) is Some),
            forall|k: Seq<char>| #[trigger]
                lookup(final(self)@, k) == if k == key@ {
                    None
                } else {
                    lookup(old(self)@, k)
                },
            final(self)@.len() == old(self)@.len() - (if r {
                1int
            } else {
                0
            }),
    {
        let ghost before = self@;
        let mut i: usize = 0;
        while i < self.entries.len()
            invariant
                i <= self.entries@.len(),
                self@ == before,
                *self == *old(self),
                before == old(self)@,
                text::ascending(keys(before)),
                lookup(before, key@) == lookup_from(before, key@, i as int),
            decreases self.entries@.len() - i,
        {
            if str_eq(&self.entries[i].0, key) {
                let _gone = self.entries.remove(i);
                proof {
                    let after = self@;
                    assert(after =~= before.remove(i as int));
                    assert forall|a: int, b: int| 0 <= a < b < keys(after).len() implies text::precedes(
                        #[trigger] keys(after)[a],
                        #[trigger] keys(after)[b],
                    ) by {
                        let x = if a < i { a } else { a + 1 };
                        let y = if b < i { b } else { b + 1 };
                        assert(text::precedes(keys(before)[x], keys(before)[y]));
                    }
                    assert forall|k: Seq<char>| #[trigger]
                        lookup(after, k) == (if k == key@ {
                            None
                        } else {
                            lookup(before, k)
                        }) by {
                        if k == key@ {
                            lookup_from_found(after, k, 0);
                            if lookup(after, k) is Some {
                                let j = choose|j: int|
                                    0 <= j < after.len() && (#[trigger] after[j]).0 == k;
                                let x = if j < i { j } else { j + 1 };
                                assert(keys(before)[x] == keys(before)[i as int]);
                                if x < i {
                                    assert(text::precedes(keys(before)[x], keys(before)[i as int]));
                                } else {
                                    assert(text::precedes(keys(before)[i as int], keys(before)[x]));
                                }
                                text::precedes_irreflexive(k);
                            }
                        } else {
                            lookup_remove_other(before, i as int, k, 0);
                        }
                    }
                }
                return true;
            }
            i += 1;
        }
        proof {
            assert forall|k: Seq<char>| #[trigger]
                lookup(before, k) == (if k == key@ {
                    None
                } else {
                    lookup(before, k)
                }) by {}
        }
        false
    }
}

proof fn lookup_update_other<V>(
    e: Seq<(Seq<char>, V)>,
    at: int,
    key: Seq<char>,
    value: V,
    k: Seq<char>,
    i: int,
)
    requires
        0 <= at < e.len(),
        e[at].0 == key,
        k != key,
        0 <= i <= e.len(),
    ensures
        lookup_from(e.update(at, (key, value)), k, i) == lookup_from(e, k, i),
    decreases e.len() - i,
{
    if i < e.len() {
        lookup_update_other(e, at, key, value, k, i + 1);
    }
}

proof fn lookup_insert_other<V>(
    e: Seq<(Seq<char>, V)>,
    at: int,
    key: Seq<char>,
    value: V,
    k: Seq<char>,
    i: int,
)
    requires
        0 <= at <= e.len(),
        k != key,
        0 <= i <= e.len(),
    ensures
        lookup_from(e.insert(at, (key, value)), k, if i <= at { i } else { i + 1 })
            == lookup_from(e, k, i),
    decreases e.len() - i,
{
    let f = e.insert(at, (key, value));
    if i < e.len() {
        lookup_insert_other(e, at, key, value, k, i + 1);
    }
    if i == at {
        assert(lookup_from(f, k, at) == lookup_from(f, k, at + 1));
        if i < e.len() {
            assert(f[at + 1] == e[at]);
            assert(lookup_from(f, k, at + 1) == if e[at].0 == k {
                Some(e[at].1)
            } else {
                lookup_from(f, k, at + 2)
            });
        }
    }
}

proof fn lookup_remove_other<V>(e: Seq<(Seq<char>, V)>, at: int, k: Seq<char>, i: int)
    requires
        0 <= at < e.len(),
        k != e[at].0,
        0 <= i <= e.len(),
    ensures
        lookup_from(e.remove(at), k, if i <= at { i } else { i - 1 }) == lookup_from(e, k, i),
    decreases e.len() - i,
{
    let f = e.remove(at);
    if i < e.len() {
        lookup_remove_other(e, at, k, i + 1);
        if i < at {
            assert(f[i] == e[i]);
        } else if i > at {
            assert(f[i - 1] == e[i]);
        }
    }
}

} // verus!
