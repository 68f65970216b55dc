//! A small map keyed by strings, with the keys kept unique, used for the
//! pending tool approvals (request id to answer channel) and the MCP
//! registry (server name to client, server name to last error).
use vstd::prelude::*;
use crate::text::{chars_of, eq_str};

verus! {

broadcast use vstd::string::group_string_axioms;

/// Entries keyed by string; no key occurs twice. Entries keep the order in
/// which their keys were first inserted.
pub struct KeyedStore<T> {
    entries: Vec<(String, T)>,
}

/// No key occurs twice in `s`.
pub open spec fn keys_unique<T>(s: Seq<(String, T)>) -> bool {
    forall|i: int, j: int| 0 <= i < j < s.len() ==> (#[trigger] s[i]).0@ != (#[trigger] s[j]).0@
}

/// The key `k` occurs in `s`.
pub open spec fn has_key<T>(s: Seq<(String, T)>, k: Seq<char>) -> bool {
    exists|i: int| 0 <= i < s.len() && (#[trigger] s[i]).0@ == k
}

/// The map that a sequence of entries with unique keys stands for.
pub open spec fn entries_map<T>(s: Seq<(String, T)>) -> Map<Seq<char>, T> {
    Map::new(
        |k: Seq<char>| has_key(s, k),
        |k: Seq<char>| s[choose|i: int| 0 <= i < s.len() && (#[trigger] s[i]).0@ == k].1,
    )
}

/// With unique keys, the entry at `i` is what the map holds for its key.
pub proof fn lemma_entries_map_at<T>(s: Seq<(String, T)>, i: int)
    requires
        keys_unique(s),
        0 <= i < s.len(),
    ensures
        entries_map(s).contains_key(s[i].0@),
        entries_map(s)[s[i].0@] == s[i].1,
{
    let k = s[i].0@;
    assert(has_key(s, k));
    let j = choose|j: int| 0 <= j < s.len() && (#[trigger] s[j]).0@ == k;
    if j != i {
        if i < j {
            assert(s[i].0@ != s[j].0@);
        } else {
            assert(s[j].0@ != s[i].0@);
        }
    }
}

impl<T> KeyedStore<T> {
    #[verifier::type_invariant]
    spec fn unique(self) -> bool {
        keys_unique(self.entries@)
    }

    /// The store as a map from key to value.
    pub closed spec fn view(&self) -> Map<Seq<char>, T> {
        entries_map(self.entries@)
    }

    /// The keys, in the order they were first inserted.
    pub closed spec fn key_order(&self) -> Seq<Seq<char>> {
        self.entries@.map_values(|e: (String, T)| e.0@)
    }

    /// An empty store.
    pub fn new() -> (s: Self)
        ensures
            s.view() == Map::<Seq<char>, T>::empty(),
            s.key_order().len() == 0,
    {
        let s = KeyedStore { entries: Vec::new() };
        assert(s.view() =~= Map::<Seq<char>, T>::empty());
        s
    }

    /// The position of `key`, if present.
    fn position(&self, key: &str) -> (r: Option<usize>)
        ensures
            r matches Some(i) ==> i < self.entries@.len() && self.entries@[i as int].0@ == key@,
            r is None ==> !has_key(self.entries@, key@),
    {
        let kv = chars_of(key);
        let mut i: usize = 0;
        while i < self.entries.len()
            invariant
                i <= self.entries@.len(),
                kv@ == key@,
                forall|j: int| 0 <= j < i ==> (#[trigger] self.entries@[j]).0@ != key@,
            decreases self.entries@.len() - i,
        {
            let here = chars_of(self.entries[i].0.as_str());
            if eq_str(&here, key) {
                return Some(i);
            }
            i = i + 1;
        }
        None
    }

    /// Whether `key` is present.
    pub fn contains(&self, key: &str) -> (b: bool)
        ensures
            b == self.view().contains_key(key@),
    {
        self.position(key).is_some()
    }

    /// The number of entries.
    pub fn len(&self) -> (n: usize)
        ensures
            n == self.key_order().len(),
    {
        self.entries.len()
    }

    /// The value stored under `key`, if any.
    pub fn get(&self, key: &str) -> (r: Option<&T>)
        ensures
            r is Some <==> self.view().contains_key(key@),
            r matches Some(v) ==> *v == self.view()[key@],
    {
        proof {
            use_type_invariant(self);
        }
        match self.position(key) {
            Some(i) => {
                proof {
                    lemma_entries_map_at(self.entries@, i as int);
                }
                Some(&self.entries[i].1)
            },
            None => None,
        }
    }

    /// Stores `value` under `key`, returning the value it replaces.
    pub fn insert(&mut self, key: String, value: T) -> (old_value: Option<T>)
        ensures
            final(self).view() == old(self).view().insert(key@, value),
            old(self).view().contains_key(key@) ==> (old_value matches Some(v) && v == old(
                self,
            ).view()[key@]),
            !old(self).view().contains_key(key@) ==> old_value is None,
    {
        proof {
            use_type_invariant(&*self);
        }
        let ghost before = self.entries@;
        match self.position(key.as_str()) {
            Some(i) => {
                proof {
                    lemma_entries_map_at(before, i as int);
                }
                let mut entry = (key, value);
                let ghost new_entry = entry;
                self.swap_entry(i, &mut entry);
                proof {
                    let after = self.entries@;
                    assert(after == before.update(i as int, new_entry));
                    assert forall|k: Seq<char>| #[trigger] entries_map(after).contains_key(k)
                        == entries_map(before).insert(key@, value).contains_key(k) by {
                        if has_key(before, k) {
                            let j = choose|j: int| 0 <= j < before.len() && (#[trigger] before[j]).0@ == k;
                            assert(after[j].0@ == k || j == i);
                        }
                        if has_key(after, k) {
                            let j = choose|j: int| 0 <= j < after.len() && (#[trigger] after[j]).0@ == k;
                            assert(before[j].0@ == k || j == i);
                        }
                    }
                    assert forall|k: Seq<char>| #[trigger] entries_map(after).contains_key(k)
                        implies entries_map(after)[k] == entries_map(before).insert(key@, value)[k] by {
                        let j = choose|j: int| 0 <= j < after.len() && (#[trigger] after[j]).0@ == k;
                        lemma_entries_map_at(after, j);
                        if j != i {
                            lemma_entries_map_at(before, j);
                        }
                    }
                    assert(entries_map(after) =~= entries_map(before).insert(key@, value));
                }
                Some(entry.1)
            },
            None => {
                self.push_entry(key, value);
                proof {
                    let after = self.entries@;
                    assert forall|k: Seq<char>| #[trigger] entries_map(after).contains_key(k)
                        == entries_map(before).insert(key@, value).contains_key(k) by {
                        if has_key(before, k) {
                            let j = choose|j: int| 0 <= j < before.len() && (#[trigger] before[j]).0@ == k;
                            assert(after[j].0@ == k);
                        }
                        if k == key@ {
                            assert(after[before.len() as int].0@ == k);
                        }
                    }
                    assert forall|k: Seq<char>| #[trigger] entries_map(after).contains_key(k)
                        implies entries_map(after)[k] == entries_map(before).insert(key@, value)[k] by {
                        let j = choose|j: int| 0 <= j < after.len() && (#[trigger] after[j]).0@ == k;
                        lemma_entries_map_at(after, j);
                        if j < before.len() {
                            lemma_entries_map_at(before, j);
                        }
                    }
                    assert(entries_map(after) =~= entries_map(before).insert(key@, value));
                }
                None
            },
        }
    }

    /// Replaces the entry at `i` with `entry`, handing back the old one.
    fn swap_entry(&mut self, i: usize, entry: &mut (String, T))
        requires
            i < old(self).entries@.len(),
            old(self).entries@[i as int].0@ == old(entry).0@,
        ensures
            final(self).entries@ == old(self).entries@.update(i as int, *old(entry)),
            *final(entry) == old(self).entries@[i as int],
    {
        proof {
            use_type_invariant(&*self);
        }
        let ghost before = self.entries@;
        let ghost incoming = *entry;
        let mut entries = Vec::new();
        std::mem::swap(&mut entries, &mut self.entries);
        std::mem::swap(&mut entries[i], entry);
        assert(entries@ == before.update(i as int, incoming));
        assert forall|a: int, b: int| 0 <= a < b < entries@.len() implies (#[trigger] entries@[a]).0@
            != (#[trigger] entries@[b]).0@ by {
            assert(before[a].0@ != before[b].0@);
        }
        self.entries = entries;
    }

    /// Appends an entry whose key is not present.
    fn push_entry(&mut self, key: String, value: T)
        requires
            !has_key(old(self).entries@, key@),
        ensures
            final(self).entries@ == old(self).entries@.push((key, value)),
    {
        proof {
            use_type_invariant(&*self);
        }
        let ghost before = self.entries@;
        let mut entries = Vec::new();
        std::mem::swap(&mut entries, &mut self.entries);
        entries.push((key, value));
        assert forall|a: int, b: int| 0 <= a < b < entries@.len() implies (#[trigger] entries@[a]).0@
            != (#[trigger] entries@[b]).0@ by {
            if b == before.len() {
                assert(before[a].0@ != key@);
            } else {
                assert(before[a].0@ != before[b].0@);
            }
        }
        self.entries = entries;
    }

    /// Removes `key`, returning its value if it was present.
    pub fn remove(&mut self, key: &str) -> (r: Option<T>)
        ensures
            final(self).view() == old(self).view().remove(key@),
            old(self).view().contains_key(key@) ==> (r matches Some(v) && v == old(self).view()[key@]),
            !old(self).view().contains_key(key@) ==> r is None,
    {
        proof {
            use_type_invariant(&*self);
        }
        let ghost before = self.entries@;
        match self.position(key) {
            None => {
                assert(entries_map(before).remove(key@) =~= entries_map(before));
                None
            },
            Some(i) => {
                proof {
                    lemma_entries_map_at(before, i as int);
                }
                let mut entries = Vec::new();
                std::mem::swap(&mut entries, &mut self.entries);
                let (_k, v) = entries.remove(i);
                let ghost after = entries@;
                assert(after == before.remove(i as int));
                assert forall|a: int, b: int| 0 <= a < b < after.len() implies (#[trigger] after[a]).0@
                    != (#[trigger] after[b]).0@ by {
                    let a0 = if a < i { a } else { a + 1 };
                    let b0 = if b < i { b } else { b + 1 };
                    assert(after[a] == before[a0] && after[b] == before[b0]);
                    assert(before[a0].0@ != before[b0].0@);
                }
                proof {
                    assert forall|k: Seq<char>| #[trigger] entries_map(after).contains_key(k)
                        == entries_map(before).remove(key@).contains_key(k) by {
                        if has_key(before, k) && k != key@ {
                            let j = choose|j: int| 0 <= j < before.len() && (#[trigger] before[j]).0@ == k;
                            let j2 = if j < i { j } else { j - 1 };
                            assert(j != i);
                            assert(after[j2] == before[j]);
                        }
                        if has_key(after, k) {
                            let j = choose|j: int| 0 <= j < after.len() && (#[trigger] after[j]).0@ == k;
                            let j0 = if j < i { j } else { j + 1 };
                            assert(after[j] == before[j0]);
                            if j < i {
                                assert(before[j0].0@ != before[i as int].0@);
                            } else {
                                assert(before[i as int].0@ != before[j0].0@);
                            }
                        }
                    }
                    assert forall|k: Seq<char>| #[trigger] entries_map(after).contains_key(k)
                        implies entries_map(after)[k] == entries_map(before).remove(key@)[k] by {
                        let j = choose|j: int| 0 <= j < after.len() && (#[trigger] after[j]).0@ == k;
                        let j0 = if j < i { j } else { j + 1 };
                        assert(after[j] == before[j0]);
                        lemma_entries_map_at(after, j);
                        lemma_entries_map_at(before, j0);
                    }
                    assert(entries_map(after) =~= entries_map(before).remove(key@));
                }
                self.entries = entries;
                Some(v)
            },
        }
    }

    /// Removes every entry.
    pub fn clear(&mut self)
        ensures
            final(self).view() == Map::<Seq<char>, T>::empty(),
            final(self).key_order().len() == 0,
    {
        self.entries = Vec::new();
        assert(self.view() =~= Map::<Seq<char>, T>::empty());
    }

    /// The keys, in the order they were first inserted.
    pub fn keys(&self) -> (r: Vec<String>)
        ensures
            r@.map_values(|s: String| s@) == self.key_order(),
    {
        let mut r: Vec<String> = Vec::new();
        let mut i: usize = 0;
        while i < self.entries.len()
            invariant
                i <= self.entries@.len(),
                r@.map_values(|s: String| s@) == self.entries@.take(i as int).map_values(
                    |e: (String, T)| e.0@,
                ),
            decreases self.entries@.len() - i,
        {
            let ghost prev = r@;
            r.push(self.entries[i].0.clone());
            i = i + 1;
            assert(self.entries@.take(i as int) =~= self.entries@.take(i - 1).push(self.entries@[i - 1]));
            assert(r@ =~= prev.push(self.entries@[i - 1].0));
            assert(r@.map_values(|s: String| s@) =~= prev.map_values(|s: String| s@).push(
                self.entries@[i - 1].0@,
            ));
            assert(self.entries@.take(i as int).map_values(|e: (String, T)| e.0@) =~= self.entries@.take(
                i - 1,
            ).map_values(|e: (String, T)| e.0@).push(self.entries@[i - 1].0@));
        }
        assert(self.entries@.take(i as int) =~= self.entries@);
        r
    }

    /// The values, in key order.
    pub fn values(&self) -> (r: Vec<&T>)
        ensures
            r@.len() == self.key_order().len(),
            forall|i: int| 0 <= i < r@.len() ==> *r@[i] == self.view()[#[trigger] self.key_order()[i]],
    {
        proof {
            use_type_invariant(self);
        }
        let mut r: Vec<&T> = Vec::new();
        let mut i: usize = 0;
        while i < self.entries.len()
            invariant
                i <= self.entries@.len(),
                keys_unique(self.entries@),
                r@.len() == i,
                forall|j: int| 0 <= j < i ==> *r@[j] == (#[trigger] self.entries@[j]).1,
            decreases self.entries@.len() - i,
        {
            r.push(&self.entries[i].1);
            i = i + 1;
        }
        proof {
            assert forall|j: int| 0 <= j < r@.len() implies *r@[j] == self.view()[
                #[trigger] self.key_order()[j]] by {
                lemma_entries_map_at(self.entries@, j);
            }
        }
        r
    }
}

/// A value stored under a key is handed out by the next removal of that
/// key (`insert`, then `remove`, returns it), and by no removal after that.
pub proof fn law_insert_then_remove<T>(m: Map<Seq<char>, T>, k: Seq<char>, v: T)
    ensures
        m.insert(k, v).contains_key(k),
        m.insert(k, v)[k] == v,
        !m.insert(k, v).remove(k).contains_key(k),
{
}

/// Storing or removing one key leaves every other key as it was.
pub proof fn law_other_keys_untouched<T>(m: Map<Seq<char>, T>, k: Seq<char>, v: T, other: Seq<char>)
    requires
        other != k,
    ensures
        m.insert(k, v).contains_key(other) == m.contains_key(other),
        m.remove(k).contains_key(other) == m.contains_key(other),
        m.contains_key(other) ==> m.insert(k, v)[other] == m[other] && m.remove(k)[other] == m[other],
{
}

} // verus!
