//! Small keyed tables backed by a vector of entries.
//!
//! An entry list with pairwise distinct keys is read as a finite map from
//! the keys' views to the stored values. Entries keep the order in which
//! their keys were first inserted, so walking a table is deterministic.
use crate::event_system::{Event, EventCallback};
use vstd::prelude::*;

verus! {

/// Keys of a table: comparison in executable code agrees with equality of views.
pub trait TableKey: View + Sized {
    fn same_key(&self, other: &Self) -> (r: bool)
        ensures
            r == (self@ == other@),
    ;
}

impl TableKey for u128 {
    fn same_key(&self, other: &Self) -> (r: bool) {
        *self == *other
    }
}

impl TableKey for String {
    fn same_key(&self, other: &Self) -> (r: bool) {
        *self == *other
    }
}

/// No two entries carry keys with the same view.
pub open spec fn unique_keys<K: View, V>(s: Seq<(K, V)>) -> bool {
    forall|i: int, j: int|
        #![trigger s[i], s[j]]
        0 <= i < s.len() && 0 <= j < s.len() && s[i].0@ == s[j].0@ ==> i == j
}

/// Some entry carries key `k`.
pub open spec fn has_key<K: View, V>(s: Seq<(K, V)>, k: K::V) -> bool {
    exists|i: int| #![trigger s[i]] 0 <= i < s.len() && s[i].0@ == k
}

/// The position of an entry that carries key `k`.
pub open spec fn key_pos<K: View, V>(s: Seq<(K, V)>, k: K::V) -> int {
    choose|i: int| #![trigger s[i]] 0 <= i < s.len() && s[i].0@ == k
}

/// The map that an entry list stands for.
pub open spec fn entries_map<K: View, V>(s: Seq<(K, V)>) -> Map<K::V, V> {
    Map::new(|k: K::V| has_key(s, k), |k: K::V| s[key_pos(s, k)].1)
}

/// In an entry list with distinct keys, the key of entry `i` is found at `i`.
pub proof fn lemma_key_pos<K: View, V>(s: Seq<(K, V)>, i: int)
    requires
        unique_keys(s),
        0 <= i < s.len(),
    ensures
        has_key(s, s[i].0@),
        key_pos(s, s[i].0@) == i,
        entries_map(s).contains_key(s[i].0@),
        entries_map(s)[s[i].0@] == s[i].1,
{
    assert(s[i].0@ == s[i].0@);
    let p = key_pos(s, s[i].0@);
    assert(s[p] == s[p] && s[i] == s[i]);
}

/// Replacing the value of entry `i` replaces the value of its key in the map.
pub proof fn lemma_update_value<K: View, V>(s: Seq<(K, V)>, i: int, v: V)
    requires
        unique_keys(s),
        0 <= i < s.len(),
    ensures
        unique_keys(s.update(i, (s[i].0, v))),
        entries_map(s.update(i, (s[i].0, v))) == entries_map(s).insert(s[i].0@, v),
{
    let t = s.update(i, (s[i].0, v));
    assert forall|a: int, b: int|
        #![trigger t[a], t[b]]
        0 <= a < t.len() && 0 <= b < t.len() && t[a].0@ == t[b].0@ implies a == b by {
        assert(s[a] == s[a] && s[b] == s[b]);
    }
    let m = entries_map(s).insert(s[i].0@, v);
    assert forall|k: K::V| #[trigger] entries_map(t).contains_key(k) == m.contains_key(k) by {
        if has_key(t, k) {
            let p = key_pos(t, k);
            assert(s[p] == s[p]);
        }
        if has_key(s, k) {
            let p = key_pos(s, k);
            assert(t[p] == t[p]);
        }
        assert(t[i] == t[i]);
    }
    assert forall|k: K::V| #[trigger] entries_map(t).contains_key(k) implies entries_map(t)[k]
        == m[k] by {
        let p = key_pos(t, k);
        lemma_key_pos(t, p);
        if p != i {
            assert(s[p] == s[p]);
            lemma_key_pos(s, p);
        } else {
            assert(t[i] == t[i]);
        }
    }
    assert(entries_map(t) =~= m);
}

/// Appending an entry with a fresh key adds that key to the map.
pub proof fn lemma_push_fresh<K: View, V>(s: Seq<(K, V)>, key: K, v: V)
    requires
        unique_keys(s),
        !has_key(s, key@),
    ensures
        unique_keys(s.push((key, v))),
        entries_map(s.push((key, v))) == entries_map(s).insert(key@, v),
{
    let t = s.push((key, v));
    let n = s.len() as int;
    assert forall|a: int, b: int|
        #![trigger t[a], t[b]]
        0 <= a < t.len() && 0 <= b < t.len() && t[a].0@ == t[b].0@ implies a == b by {
        if a < n {
            assert(s[a] == s[a]);
        }
        if b < n {
            assert(s[b] == s[b]);
        }
    }
    let m = entries_map(s).insert(key@, v);
    assert forall|k: K::V| #[trigger] entries_map(t).contains_key(k) == m.contains_key(k) by {
        if has_key(t, k) {
            let p = key_pos(t, k);
            if p < n {
                assert(t[p] == s[p]);
                assert(s[p].0@ == k);
            }
        }
        if has_key(s, k) {
            let p = key_pos(s, k);
            assert(t[p] == s[p]);
            assert(t[p].0@ == k);
        }
        assert(t[n].0@ == key@);
    }
    assert forall|k: K::V| #[trigger] entries_map(t).contains_key(k) implies entries_map(t)[k]
        == m[k] by {
        let p = key_pos(t, k);
        lemma_key_pos(t, p);
        if p < n {
            assert(s[p] == s[p]);
            lemma_key_pos(s, p);
        }
    }
    assert(entries_map(t) =~= m);
}

/// Removing entry `i` removes its key from the map.
pub proof fn lemma_remove_entry<K: View, V>(s: Seq<(K, V)>, i: int)
    requires
        unique_keys(s),
        0 <= i < s.len(),
    ensures
        unique_keys(s.remove(i)),
        entries_map(s.remove(i)) == entries_map(s).remove(s[i].0@),
{
    let t = s.remove(i);
    assert forall|a: int, b: int|
        #![trigger t[a], t[b]]
        0 <= a < t.len() && 0 <= b < t.len() && t[a].0@ == t[b].0@ implies a == b by {
        let a2 = if a < i { a } else { a + 1 };
        let b2 = if b < i { b } else { b + 1 };
        assert(s[a2] == s[a2] && s[b2] == s[b2]);
    }
    let m = entries_map(s).remove(s[i].0@);
    assert forall|k: K::V| #[trigger] entries_map(t).contains_key(k) == m.contains_key(k) by {
        if has_key(t, k) {
            let p = key_pos(t, k);
            let p2 = if p < i { p } else { p + 1 };
            assert(s[p2] == s[p2]);
            assert(s[i] == s[i]);
        }
        if has_key(s, k) && k != s[i].0@ {
            let p = key_pos(s, k);
            assert(s[p] == s[p]);
            if p < i {
                assert(t[p] == t[p]);
            } else {
                assert(t[p - 1] == t[p - 1]);
            }
        }
    }
    assert forall|k: K::V| #[trigger] entries_map(t).contains_key(k) implies entries_map(t)[k]
        == m[k] by {
        let p = key_pos(t, k);
        lemma_key_pos(t, p);
        let p2 = if p < i { p } else { p + 1 };
        assert(s[p2] == s[p2]);
        lemma_key_pos(s, p2);
    }
    assert(entries_map(t) =~= m);
}

/// Finds the position of the entry with key `key`, if there is one.
pub fn find_key<K: TableKey, V>(entries: &Vec<(K, V)>, key: &K) -> (r: Option<usize>)
    requires
        unique_keys(entries@),
    ensures
        match r {
            Some(i) => i < entries@.len() && entries@[i as int].0@ == key@ && has_key(
                entries@,
                key@,
            ) && key_pos(entries@, key@) == i,
            None => !has_key(entries@, key@),
        },
{
    let mut i: usize = 0;
    while i < entries.len()
        invariant
            unique_keys(entries@),
            i <= entries@.len(),
            forall|j: int| 0 <= j < i ==> #[trigger] entries@[j].0@ != key@,
        decreases entries@.len() - i,
    {
        if entries[i].0.same_key(key) {
            proof {
                lemma_key_pos(entries@, i as int);
            }
            return Some(i);
        }
        i = i + 1;
    }
    None
}

/// A table from keys to values.
#[verifier::reject_recursive_types(K)]
pub struct Table<K, V> {
    entries: Vec<(K, V)>,
}

impl<K: TableKey, V> View for Table<K, V> {
    type V = Map<K::V, V>;

    closed spec fn view(&self) -> Map<K::V, V> {
        entries_map(self.entries@)
    }
}

impl<K: TableKey, V> Table<K, V> {
    /// The table's entries are well formed: no key occurs twice.
    pub closed spec fn wf(&self) -> bool {
        unique_keys(self.entries@)
    }

    /// A table without entries.
    pub fn new() -> (t: Self)
        ensures
            t.wf(),
            t@ == Map::<K::V, V>::empty(),
    {
        let t = Table { entries: Vec::new() };
        assert(t@ =~= Map::<K::V, V>::empty());
        t
    }

    /// The value stored under `key`.
    pub fn get(&self, key: &K) -> (r: Option<&V>)
        requires
            self.wf(),
        ensures
            match r {
                Some(v) => self@.contains_key(key@) && *v == self@[key@],
                None => !self@.contains_key(key@),
            },
    {
        match find_key(&self.entries, key) {
            Some(i) => Some(&self.entries[i].1),
            None => None,
        }
    }

    /// The slot in which the value under `key` is stored; what the slot
    /// holds when the borrow ends is what the table then stores under `key`.
    pub fn get_mut(&mut self, key: &K) -> (r: Option<&mut V>)
        requires
            old(self).wf(),
        ensures
            final(self).wf(),
            match r {
                Some(v) => old(self)@.contains_key(key@) && *v == old(self)@[key@] && final(self)@
                    == old(self)@.insert(key@, *final(v)),
                None => !old(self)@.contains_key(key@) && final(self)@ == old(self)@,
            },
    {
        match find_key(&self.entries, key) {
            Some(i) => {
                let ghost s = self.entries@;
                proof {
                    lemma_key_pos(s, i as int);
                }
                let slot = &mut self.entries[i].1;
                proof {
                    lemma_update_value(s, i as int, *final(slot));
                }
                Some(slot)
            },
            None => None,
        }
    }

    /// Stores `value` under `key`, replacing what was stored there; the
    /// value that was replaced comes back.
    pub fn insert(&mut self, key: K, value: V) -> (r: Option<V>)
        requires
            old(self).wf(),
        ensures
            final(self).wf(),
            final(self)@ == old(self)@.insert(key@, value),
            match r {
                Some(v) => old(self)@.contains_key(key@) && v == old(self)@[key@],
                None => !old(self)@.contains_key(key@),
            },
    {
        match find_key(&self.entries, &key) {
            Some(i) => {
                let ghost s = self.entries@;
                proof {
                    lemma_key_pos(s, i as int);
                    lemma_update_value(s, i as int, value);
                }
                let mut old_value = value;
                std::mem::swap(&mut self.entries[i].1, &mut old_value);
                assert(self.entries@ =~= s.update(i as int, (s[i as int].0, value)));
                Some(old_value)
            },
            None => {
                proof {
                    lemma_push_fresh(self.entries@, key, value);
                }
                self.entries.push((key, value));
                None
            },
        }
    }

    /// Removes what is stored under `key` and hands it back.
    pub fn remove(&mut self, key: &K) -> (r: Option<V>)
        requires
            old(self).wf(),
        ensures
            final(self).wf(),
            final(self)@ == old(self)@.remove(key@),
            match r {
                Some(v) => old(self)@.contains_key(key@) && v == old(self)@[key@],
                None => !old(self)@.contains_key(key@),
            },
    {
        match find_key(&self.entries, key) {
            Some(i) => {
                proof {
                    lemma_key_pos(self.entries@, i as int);
                    lemma_remove_entry(self.entries@, i as int);
                }
                let (_, v) = self.entries.remove(i);
                Some(v)
            },
            None => {
                assert(old(self)@.remove(key@) =~= old(self)@);
                None
            },
        }
    }

}

impl<K: TableKey, V: EventCallback> Table<K, V> {
    /// Calls every stored value with `event`, each once; the keys stay.
    pub fn call_each(&mut self, event: &Event)
        requires
            old(self).wf(),
        ensures
            final(self).wf(),
            final(self)@.dom() == old(self)@.dom(),
            forall|k: K::V|
                #![trigger final(self)@[k]]
                old(self)@.contains_key(k) ==> V::called_with(old(self)@[k], *event, final(self)@[k]),
    {
        let ghost s = self.entries@;
        let n = self.entries.len();
        let mut i: usize = 0;
        while i < n
            invariant
                n == s.len(),
                unique_keys(s),
                i <= n,
                self.entries@.len() == n,
                forall|j: int| 0 <= j < n ==> #[trigger] self.entries@[j].0 == s[j].0,
                forall|j: int|
                    0 <= j < i ==> V::called_with(s[j].1, *event, #[trigger] self.entries@[j].1),
                forall|j: int| i <= j < n ==> #[trigger] self.entries@[j] == s[j],
            decreases n - i,
        {
            self.entries[i].1.call(event);
            i = i + 1;
        }
        proof {
            let t = self.entries@;
            assert forall|a: int, b: int|
                #![trigger t[a], t[b]]
                0 <= a < t.len() && 0 <= b < t.len() && t[a].0@ == t[b].0@ implies a == b by {
                assert(s[a].0 == t[a].0 && s[b].0 == t[b].0);
            }
            assert forall|k: K::V| #[trigger] has_key(t, k) == has_key(s, k) by {
                if has_key(t, k) {
                    let p = key_pos(t, k);
                    assert(s[p].0 == t[p].0);
                }
                if has_key(s, k) {
                    let p = key_pos(s, k);
                    assert(s[p].0 == t[p].0);
                }
            }
            assert(self@.dom() =~= old(self)@.dom());
            assert forall|k: K::V| #[trigger] old(self)@.contains_key(k) implies V::called_with(
                old(self)@[k],
                *event,
                self@[k],
            ) by {
                let p = key_pos(s, k);
                lemma_key_pos(s, p);
                assert(s[p].0 == t[p].0);
                lemma_key_pos(t, p);
            }
        }
    }
}

impl<V> Table<u128, V> {
    /// The keys of the table, each once.
    pub fn keys(&self) -> (r: Vec<u128>)
        requires
            self.wf(),
        ensures
            r@.no_duplicates(),
            forall|k: u128| r@.contains(k) <==> self@.contains_key(k),
    {
        let mut r: Vec<u128> = Vec::new();
        let mut i: usize = 0;
        while i < self.entries.len()
            invariant
                self.wf(),
                i <= self.entries@.len(),
                r@.len() == i,
                forall|j: int| 0 <= j < i ==> #[trigger] r@[j] == self.entries@[j].0,
            decreases self.entries@.len() - i,
        {
            r.push(self.entries[i].0);
            i = i + 1;
        }
        proof {
            let s = self.entries@;
            assert(self@ == entries_map(s));
            assert forall|a: int, b: int| 0 <= a < r@.len() && 0 <= b < r@.len() && a != b implies r@[a]
                != r@[b] by {
                assert(s[a] == s[a] && s[b] == s[b]);
            }
            assert forall|k: u128| r@.contains(k) <==> self@.contains_key(k) by {
                if r@.contains(k) {
                    let j = choose|j: int| 0 <= j < r@.len() && r@[j] == k;
                    assert(s[j].0@ == k);
                    assert(has_key(s, k));
                }
                if self@.contains_key(k) {
                    assert(has_key(s, k));
                    let p = key_pos(s, k);
                    assert(s[p].0@ == k);
                    assert(r@[p] == k);
                }
            }
        }
        r
    }
}

} // verus!
