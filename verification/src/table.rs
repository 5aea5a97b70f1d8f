//! An insertion-ordered table keyed by text.
//!
//! The table is the model of every name-indexed registry in this crate. Its
//! contents are a sequence of `(key, value)` entries; a lookup finds the first
//! entry under a key, and `insert` never creates a second one, so a table
//! grown from `new` by `insert` holds each key at most once.

use vstd::prelude::*;
use crate::text::{first_index_of, lemma_first_index_of, lemma_first_index_is, str_equal};

verus! {

/// The keys of a sequence of entries, in order.
pub open spec fn keys_of<V>(e: Seq<(Seq<char>, V)>) -> Seq<Seq<char>> {
    Seq::new(e.len(), |i: int| e[i].0)
}

/// Position of the first entry under `key`, or `e.len()` when there is none.
pub open spec fn position_of<V>(e: Seq<(Seq<char>, V)>, key: Seq<char>) -> int {
    first_index_of(keys_of(e), key)
}

/// Whether some entry stands under `key`.
pub open spec fn has_key<V>(e: Seq<(Seq<char>, V)>, key: Seq<char>) -> bool {
    exists|i: int| 0 <= i < e.len() && (#[trigger] e[i]).0 == key
}

/// The value of the first entry under `key`.
pub open spec fn lookup<V>(e: Seq<(Seq<char>, V)>, key: Seq<char>) -> Option<V> {
    let i = position_of(e, key);
    if 0 <= i < e.len() {
        Some(e[i].1)
    } else {
        None
    }
}

/// The entries after `key` has been bound to `value`: the first entry under
/// `key` gets the new value in place, or a new entry is added at the end.
pub open spec fn with_entry<V>(e: Seq<(Seq<char>, V)>, key: Seq<char>, value: V) -> Seq<
    (Seq<char>, V),
> {
    let i = position_of(e, key);
    if 0 <= i < e.len() {
        e.update(i, (key, value))
    } else {
        e.push((key, value))
    }
}

/// No key stands in two entries.
pub open spec fn distinct_keys<V>(e: Seq<(Seq<char>, V)>) -> bool {
    forall|i: int, j: int| 0 <= i < j < e.len() ==> (#[trigger] e[i]).0 != (#[trigger] e[j]).0
}

/// What `position_of` finds: the least position under `key`.
pub proof fn lemma_position_of<V>(e: Seq<(Seq<char>, V)>, key: Seq<char>)
    ensures
        0 <= position_of(e, key) <= e.len(),
        forall|j: int| 0 <= j < position_of(e, key) ==> (#[trigger] e[j]).0 != key,
        position_of(e, key) < e.len() ==> e[position_of(e, key)].0 == key,
        has_key(e, key) <==> position_of(e, key) < e.len(),
        lookup(e, key) is Some <==> has_key(e, key),
{
    let k = keys_of(e);
    lemma_first_index_of(k, key);
    let p = position_of(e, key);
    assert forall|j: int| 0 <= j < p implies (#[trigger] e[j]).0 != key by {
        assert(k[j] == e[j].0);
    }
    if p < e.len() {
        assert(k[p] == e[p].0);
    }
    if has_key(e, key) {
        let i = choose|i: int| 0 <= i < e.len() && (#[trigger] e[i]).0 == key;
        assert(k[i] == key);
        if p >= e.len() {
            assert(e[i].0 != key);
        }
    }
}

/// An entry under `key` with no entry under `key` before it is the one that
/// `position_of` finds.
pub proof fn lemma_position_is<V>(e: Seq<(Seq<char>, V)>, key: Seq<char>, k: int)
    requires
        0 <= k <= e.len(),
        forall|j: int| 0 <= j < k ==> (#[trigger] e[j]).0 != key,
        k < e.len() ==> e[k].0 == key,
    ensures
        position_of(e, key) == k,
{
    let ks = keys_of(e);
    assert forall|j: int| 0 <= j < k implies ks[j] != key by {
        assert(ks[j] == e[j].0);
    }
    lemma_first_index_is(ks, key, k);
}

/// Binding a key keeps the keys distinct, binds `key` to `value` and leaves
/// every other key as it was.
pub proof fn lemma_with_entry<V>(e: Seq<(Seq<char>, V)>, key: Seq<char>, value: V)
    ensures
        distinct_keys(e) ==> distinct_keys(with_entry(e, key, value)),
        lookup(with_entry(e, key, value), key) == Some(value),
        forall|other: Seq<char>|
            other != key ==> #[trigger] lookup(with_entry(e, key, value), other) == lookup(
                e,
                other,
            ),
        forall|other: Seq<char>|
            #[trigger] has_key(with_entry(e, key, value), other) <==> (other == key || has_key(
                e,
                other,
            )),
{
    let w = with_entry(e, key, value);
    let p = position_of(e, key);
    lemma_position_of(e, key);
    lemma_position_is(w, key, p);
    assert forall|other: Seq<char>| other != key implies #[trigger] lookup(w, other) == lookup(
        e,
        other,
    ) by {
        let q = position_of(e, other);
        lemma_position_of(e, other);
        if q < e.len() {
            assert(q != p);
            assert(w[q] == e[q]);
            assert forall|j: int| 0 <= j < q implies (#[trigger] w[j]).0 != other by {
                assert(e[j].0 != other);
            }
            lemma_position_is(w, other, q);
        } else {
            assert forall|j: int| 0 <= j < w.len() implies (#[trigger] w[j]).0 != other by {
                if j < e.len() {
                    assert(e[j].0 != other);
                }
            }
            lemma_position_is(w, other, w.len() as int);
        }
    }
    assert forall|other: Seq<char>| #[trigger]
        has_key(w, other) <==> (other == key || has_key(e, other)) by {
        lemma_position_of(w, other);
        lemma_position_of(e, other);
        if other == key {
        } else {
            assert(lookup(w, other) == lookup(e, other));
        }
    }
    if distinct_keys(e) {
        assert forall|i: int, j: int| 0 <= i < j < w.len() implies (#[trigger] w[i]).0 != (
        #[trigger] w[j]).0 by {
            if p < e.len() {
                assert(w[i].0 == e[i].0);
                assert(w[j].0 == e[j].0);
            } else if j < e.len() {
                assert(w[i].0 == e[i].0);
                assert(w[j].0 == e[j].0);
            } else {
                assert(w[i].0 == e[i].0);
            }
        }
    }
}

/// An insertion-ordered association of text keys with values.
#[derive(Clone, Debug)]
pub struct Table<V> {
    entries: Vec<(String, V)>,
}

impl<V> Table<V> {
    /// No key stands in two entries. `new` gives such a table and `insert`
    /// and `value_mut` keep it so.
    pub open spec fn wf(&self) -> bool {
        distinct_keys(self.entries())
    }

    /// The entries in insertion order, each key as its character sequence.
    pub closed spec fn entries(&self) -> Seq<(Seq<char>, V)> {
        Seq::new(self.entries@.len(), |i: int| (self.entries@[i].0@, self.entries@[i].1))
    }

    /// The value bound to `key`, if any.
    pub open spec fn spec_get(&self, key: Seq<char>) -> Option<V> {
        lookup(self.entries(), key)
    }

    /// Whether `key` is bound.
    pub open spec fn spec_contains(&self, key: Seq<char>) -> bool {
        has_key(self.entries(), key)
    }

    /// An empty table.
    pub fn new() -> (t: Self)
        ensures
            t.entries() == Seq::<(Seq<char>, V)>::empty(),
            t.wf(),
    {
        let t = Table { entries: Vec::new() };
        assert(t.entries() =~= Seq::<(Seq<char>, V)>::empty());
        t
    }

    /// Number of entries.
    pub fn len(&self) -> (n: usize)
        ensures
            n == self.entries().len(),
    {
        self.entries.len()
    }

    /// Whether the table holds no entry.
    pub fn is_empty(&self) -> (b: bool)
        ensures
            b == (self.entries().len() == 0),
    {
        self.entries.len() == 0
    }

    /// The key of entry `i`.
    pub fn key(&self, i: usize) -> (k: &String)
        requires
            i < self.entries().len(),
        ensures
            k@ == self.entries()[i as int].0,
    {
        &self.entries[i].0
    }

    /// The value of entry `i`.
    pub fn value(&self, i: usize) -> (v: &V)
        requires
            i < self.entries().len(),
        ensures
            *v == self.entries()[i as int].1,
    {
        &self.entries[i].1
    }

    /// Mutable access to the value of entry `i`; the key stays.
    pub fn value_mut(&mut self, i: usize) -> (r: &mut V)
        requires
            i < old(self).entries().len(),
        ensures
            *r == old(self).entries()[i as int].1,
            final(self).entries() == old(self).entries().update(
                i as int,
                (old(self).entries()[i as int].0, *final(r)),
            ),
            old(self).wf() ==> final(self).wf(),
    {
        proof {
            let e = self.entries();
            assert forall|v: V| distinct_keys(e) implies #[trigger] distinct_keys(
                e.update(i as int, (e[i as int].0, v)),
            ) by {
                let u = e.update(i as int, (e[i as int].0, v));
                assert forall|a: int, b: int| 0 <= a < b < u.len() implies (#[trigger] u[a]).0 != (
                #[trigger] u[b]).0 by {
                    assert(u[a].0 == e[a].0);
                    assert(u[b].0 == e[b].0);
                }
            }
        }
        &mut self.entries[i].1
    }

    /// Position of the first entry under `key`.
    pub fn find(&self, key: &str) -> (r: Option<usize>)
        ensures
            match r {
                Some(i) => i < self.entries().len() && i == position_of(self.entries(), key@),
                None => !self.spec_contains(key@),
            },
    {
        let n = self.entries.len();
        let mut i: usize = 0;
        while i < n
            invariant
                n == self.entries@.len(),
                i <= n,
                forall|j: int| 0 <= j < i ==> (#[trigger] self.entries()[j]).0 != key@,
            decreases n - i,
        {
            if str_equal(self.entries[i].0.as_str(), key) {
                proof {
                    lemma_position_is(self.entries(), key@, i as int);
                }
                return Some(i);
            }
            i += 1;
        }
        None
    }

    /// Whether `key` is bound.
    pub fn contains_key(&self, key: &str) -> (b: bool)
        ensures
            b == self.spec_contains(key@),
    {
        proof {
            lemma_position_of(self.entries(), key@);
        }
        self.find(key).is_some()
    }

    /// The value bound to `key`.
    pub fn get(&self, key: &str) -> (r: Option<&V>)
        ensures
            match r {
                Some(v) => self.spec_get(key@) == Some(*v),
                None => self.spec_get(key@) is None,
            },
    {
        proof {
            lemma_position_of(self.entries(), key@);
        }
        match self.find(key) {
            Some(i) => Some(&self.entries[i].1),
            None => None,
        }
    }

    /// A table with the keys of this one, in the same order, and `values` in
    /// place of the values.
    pub fn with_values<U>(&self, values: Vec<U>) -> (t: Table<U>)
        requires
            values@.len() == self.entries().len(),
        ensures
            t.entries() == Seq::new(
                self.entries().len(),
                |i: int| (self.entries()[i].0, values@[i]),
            ),
            self.wf() ==> t.wf(),
    {
        let ghost all = values@;
        let n = self.entries.len();
        let mut values = values;
        let mut entries: Vec<(String, U)> = Vec::new();
        let mut i: usize = 0;
        while i < n
            invariant
                n == self.entries@.len(),
                all.len() == n,
                i <= n,
                values@ =~= all.skip(i as int),
                entries@.len() == i,
                forall|k: int|
                    0 <= k < i ==> (#[trigger] entries@[k]).0@ == self.entries@[k].0@
                        && entries@[k].1 == all[k],
            decreases n - i,
        {
            let value = values.remove(0);
            entries.push((self.entries[i].0.clone(), value));
            i += 1;
        }
        let t = Table { entries };
        proof {
            assert(t.entries() =~= Seq::new(
                self.entries().len(),
                |i: int| (self.entries()[i].0, all[i]),
            ));
            if self.wf() {
                assert forall|a: int, b: int| 0 <= a < b < t.entries().len() implies (
                #[trigger] t.entries()[a]).0 != (#[trigger] t.entries()[b]).0 by {
                    assert(self.entries()[a].0 != self.entries()[b].0);
                }
            }
        }
        t
    }

    /// Binds `key` to `value` and returns the value it was bound to before.
    pub fn insert(&mut self, key: String, value: V) -> (previous: Option<V>)
        ensures
            final(self).entries() == with_entry(old(self).entries(), key@, value),
            previous == old(self).spec_get(key@),
            old(self).wf() ==> final(self).wf(),
    {
        proof {
            lemma_position_of(self.entries(), key@);
            lemma_with_entry(self.entries(), key@, value);
        }
        match self.find(key.as_str()) {
            Some(i) => {
                let ghost before = self.entries();
                let old_entry = self.entries.remove(i);
                self.entries.insert(i, (key, value));
                assert(self.entries() =~= before.update(i as int, (key@, value)));
                Some(old_entry.1)
            },
            None => {
                let ghost before = self.entries();
                self.entries.push((key, value));
                assert(self.entries() =~= before.push((key@, value)));
                None
            },
        }
    }
}
impl<V: DeepView> DeepView for Table<V> {
    type V = Seq<(Seq<char>, V::V)>;

    /// The entries with each value replaced by its own deep view.
    open spec fn deep_view(&self) -> Seq<(Seq<char>, V::V)> {
        Seq::new(
            self.entries().len(),
            |i: int| (self.entries()[i].0, self.entries()[i].1.deep_view()),
        )
    }
}

/// Changing the value of an entry changes that entry of the deep view.
pub proof fn lemma_update_deep<V: DeepView>(before: Table<V>, after: Table<V>, i: int, value: V)
    requires
        0 <= i < before.entries().len(),
        after.entries() == before.entries().update(i, (before.entries()[i].0, value)),
    ensures
        after.deep_view() == before.deep_view().update(
            i,
            (before.entries()[i].0, value.deep_view()),
        ),
{
    assert(after.deep_view() =~= before.deep_view().update(
        i,
        (before.entries()[i].0, value.deep_view()),
    ));
}

/// Looking a key up commutes with taking the deep view of the values.
pub proof fn lemma_lookup_deep<V: DeepView>(t: Table<V>, key: Seq<char>)
    ensures
        position_of(t.deep_view(), key) == position_of(t.entries(), key),
        has_key(t.deep_view(), key) == has_key(t.entries(), key),
        lookup(t.deep_view(), key) == match lookup(t.entries(), key) {
            Some(v) => Some(v.deep_view()),
            None => None,
        },
        distinct_keys(t.deep_view()) == distinct_keys(t.entries()),
{
    let d = t.deep_view();
    let e = t.entries();
    assert(keys_of(d) =~= keys_of(e));
    lemma_position_of(d, key);
    lemma_position_of(e, key);
    if distinct_keys(e) {
        assert forall|i: int, j: int| 0 <= i < j < d.len() implies (#[trigger] d[i]).0 != (
        #[trigger] d[j]).0 by {
            assert(e[i].0 != e[j].0);
        }
    }
    if distinct_keys(d) {
        assert forall|i: int, j: int| 0 <= i < j < e.len() implies (#[trigger] e[i]).0 != (
        #[trigger] e[j]).0 by {
            assert(d[i].0 != d[j].0);
        }
    }
}

/// Binding a key in a table binds it in the deep view of the table.
pub proof fn lemma_with_entry_deep<V: DeepView>(
    before: Table<V>,
    after: Table<V>,
    key: Seq<char>,
    value: V,
)
    requires
        after.entries() == with_entry(before.entries(), key, value),
    ensures
        after.deep_view() == with_entry(before.deep_view(), key, value.deep_view()),
{
    lemma_lookup_deep(before, key);
    lemma_position_of(before.entries(), key);
    assert(after.deep_view() =~= with_entry(before.deep_view(), key, value.deep_view()));
}

} // verus!
