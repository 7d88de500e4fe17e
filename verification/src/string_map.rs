//! A map keyed by strings, kept as a vector of distinct keys.
//!
//! Every table of this library that is looked up by name (nodes, pending
//! interests, forwarding entries, identities, ...) is a `StringMap`. Its view
//! is a `Map<Seq<char>, V>`; the order of the entries is the order in which
//! their keys were first inserted, minus those removed since.
use vstd::prelude::*;

verus! {

/// The sequence of the keys of `s`, as character sequences.
pub open spec fn keys_of<V>(s: Seq<(String, V)>) -> Seq<Seq<char>> {
    s.map_values(|e: (String, V)| e.0@)
}

/// The position at which key `k` stands in `s` (meaningful when it stands there).
pub open spec fn position_of<V>(s: Seq<(String, V)>, k: Seq<char>) -> int {
    choose|i: int| 0 <= i < s.len() && s[i].0@ == k
}

/// The map that a sequence of entries with distinct keys stands for.
pub open spec fn map_of<V>(s: Seq<(String, V)>) -> Map<Seq<char>, V> {
    Map::new(|k: Seq<char>| keys_of(s).contains(k), |k: Seq<char>| s[position_of(s, k)].1)
}

#[derive(Debug, Clone)]
pub struct StringMap<V> {
    entries: Vec<(String, V)>,
}

impl<V> View for StringMap<V> {
    type V = Map<Seq<char>, V>;

    closed spec fn view(&self) -> Map<Seq<char>, V> {
        map_of(self.entries@)
    }
}

impl<V> StringMap<V> {
    /// The keys, in the order in which the entries are kept.
    pub closed spec fn key_seq(&self) -> Seq<Seq<char>> {
        keys_of(self.entries@)
    }

    /// The entries, in the order in which they are kept.
    pub closed spec fn entry_seq(&self) -> Seq<(String, V)> {
        self.entries@
    }

    /// Well-formedness: no key occurs twice.
    pub open spec fn wf(&self) -> bool {
        self.key_seq().no_duplicates()
    }

    /// The keys are those of the entries, position by position.
    pub proof fn lemma_key_seq(&self)
        ensures
            self.key_seq().len() == self.entry_seq().len(),
            forall|i: int| 0 <= i < self.key_seq().len() ==> #[trigger] self.key_seq()[i] == self.entry_seq()[i].0@,
    {
    }

    /// In a well-formed map, the key at position `i` maps to the value at position `i`.
    pub proof fn lemma_entry(&self, i: int)
        requires
            self.wf(),
            0 <= i < self.entry_seq().len(),
        ensures
            self@.contains_key(self.entry_seq()[i].0@),
            self@[self.entry_seq()[i].0@] == self.entry_seq()[i].1,
            position_of(self.entry_seq(), self.entry_seq()[i].0@) == i,
    {
        let s = self.entries@;
        let k = s[i].0@;
        assert(keys_of(s)[i] == k);
        assert(keys_of(s).contains(k));
        let j = position_of(s, k);
        assert(0 <= j < s.len() && s[j].0@ == k);
        assert(keys_of(s)[j] == keys_of(s)[i]);
    }

    /// In a well-formed map, a key is present exactly when it stands at some position.
    pub proof fn lemma_contains(&self, k: Seq<char>)
        ensures
            self@.contains_key(k) <==> exists|i: int|
                0 <= i < self.entry_seq().len() && #[trigger] self.entry_seq()[i].0@ == k,
    {
        let s = self.entry_seq();
        if self@.contains_key(k) {
            assert(keys_of(s).contains(k));
            let i = choose|i: int| 0 <= i < keys_of(s).len() && keys_of(s)[i] == k;
            assert(s[i].0@ == k);
        }
        if exists|i: int| 0 <= i < s.len() && #[trigger] s[i].0@ == k {
            let i = choose|i: int| 0 <= i < s.len() && #[trigger] s[i].0@ == k;
            assert(keys_of(s)[i] == k);
            assert(keys_of(s).contains(k));
        }
    }

    /// The domain of a well-formed map is finite and has as many keys as there are entries.
    pub proof fn lemma_len(&self)
        requires
            self.wf(),
        ensures
            self@.dom().finite(),
            self@.dom().len() == self.entry_seq().len(),
            self@.dom() == self.key_seq().to_set(),
    {
        let ks = self.key_seq();
        assert(self@.dom() =~= ks.to_set());
        vstd::seq_lib::seq_to_set_is_finite(ks);
        ks.unique_seq_to_set();
    }

    /// An empty map.
    pub fn new() -> (m: Self)
        ensures
            m.wf(),
            m@ == Map::<Seq<char>, V>::empty(),
            m.key_seq() == Seq::<Seq<char>>::empty(),
    {
        let m = StringMap { entries: Vec::new() };
        assert(m@ =~= Map::<Seq<char>, V>::empty());
        assert(m.key_seq() =~= Seq::<Seq<char>>::empty());
        m
    }

    /// The number of entries.
    pub fn len(&self) -> (n: usize)
        requires
            self.wf(),
        ensures
            n == self@.len(),
            n == self.key_seq().len(),
    {
        proof {
            self.lemma_len();
        }
        self.entries.len()
    }

    /// Whether the map holds no entry.
    pub fn is_empty(&self) -> (b: bool)
        requires
            self.wf(),
        ensures
            b == (self@.len() == 0),
            b == (self@ == Map::<Seq<char>, V>::empty()),
    {
        proof {
            self.lemma_len();
            if self.entries@.len() > 0 {
                self.lemma_entry(0);
            } else {
                assert(self@ =~= Map::<Seq<char>, V>::empty());
            }
        }
        self.entries.len() == 0
    }

    /// The position of key `k`, if it is present.
    pub fn position(&self, k: &String) -> (r: Option<usize>)
        requires
            self.wf(),
        ensures
            r.is_none() <==> !self@.contains_key(k@),
            r matches Some(i) ==> i < self.entry_seq().len() && self.entry_seq()[i as int].0@ == k@,
    {
        let n = self.entries.len();
        let mut i: usize = 0;
        while i < n
            invariant
                n == self.entries@.len(),
                i <= n,
                forall|j: int| 0 <= j < i ==> self.entries@[j].0@ != k@,
            decreases n - i,
        {
            if self.entries[i].0 == *k {
                proof {
                    self.lemma_contains(k@);
                }
                return Some(i);
            }
            i = i + 1;
        }
        proof {
            self.lemma_contains(k@);
        }
        None
    }

    /// Whether key `k` is present.
    pub fn contains_key(&self, k: &String) -> (b: bool)
        requires
            self.wf(),
        ensures
            b == self@.contains_key(k@),
    {
        self.position(k).is_some()
    }

    /// The value that key `k` maps to, if any.
    pub fn get(&self, k: &String) -> (r: Option<&V>)
        requires
            self.wf(),
        ensures
            r.is_none() <==> !self@.contains_key(k@),
            r matches Some(v) ==> self@.contains_key(k@) && *v == self@[k@],
    {
        match self.position(k) {
            Some(i) => {
                proof {
                    self.lemma_entry(i as int);
                }
                Some(&self.entries[i].1)
            },
            None => None,
        }
    }

    /// The key at position `i`.
    pub fn key_at(&self, i: usize) -> (k: &String)
        requires
            i < self.key_seq().len(),
        ensures
            k@ == self.key_seq()[i as int],
            *k == self.entry_seq()[i as int].0,
    {
        &self.entries[i].0
    }

    /// The value at position `i`.
    pub fn value_at(&self, i: usize) -> (v: &V)
        requires
            self.wf(),
            i < self.key_seq().len(),
        ensures
            *v == self@[self.key_seq()[i as int]],
            *v == self.entry_seq()[i as int].1,
    {
        proof {
            self.lemma_entry(i as int);
        }
        &self.entries[i].1
    }

    /// Maps `k` to `v`. A present key keeps its position; a new key goes last.
    /// Returns the value that `k` mapped to before, if any.
    pub fn insert(&mut self, k: String, v: V) -> (old_value: Option<V>)
        requires
            old(self).wf(),
        ensures
            final(self).wf(),
            final(self)@ == old(self)@.insert(k@, v),
            old(self)@.contains_key(k@) ==> old_value == Some(old(self)@[k@]) && final(self).key_seq() == old(self).key_seq(),
            !old(self)@.contains_key(k@) ==> old_value.is_none() && final(self).key_seq() == old(self).key_seq().push(k@),
    {
        let ghost old_s = self.entries@;
        match self.position(&k) {
            Some(i) => {
                proof {
                    self.lemma_entry(i as int);
                }
                let mut e = (k, v);
                self.entries.set_and_swap(i, &mut e);
                let ghost new_s = self.entries@;
                proof {
                    assert(keys_of(new_s) =~= keys_of(old_s));
                    assert forall|key: Seq<char>|
                        #![auto]
                        map_of(new_s).contains_key(key) implies map_of(new_s)[key] == old_s.update(
                        i as int,
                        (e.0, v),
                    )[position_of(new_s, key)].1 by {}
                    assert forall|key: Seq<char>| #![auto] map_of(new_s).contains_key(key) && key != k@
                        implies map_of(new_s)[key] == map_of(old_s)[key] by {
                        self.lemma_contains(key);
                        let j = choose|j: int| 0 <= j < new_s.len() && #[trigger] new_s[j].0@ == key;
                        assert(j != i);
                        assert(keys_of(new_s)[j] == key);
                        let p = position_of(new_s, key);
                        assert(keys_of(new_s)[p] == key);
                        let q = position_of(old_s, key);
                        assert(keys_of(old_s)[j] == key);
                        assert(keys_of(old_s).contains(key));
                        assert(keys_of(old_s)[q] == key);
                    }
                    assert(keys_of(new_s)[i as int] == k@);
                    assert(keys_of(new_s).contains(k@));
                    let p = position_of(new_s, k@);
                    assert(keys_of(new_s)[p] == k@);
                    assert(map_of(new_s) =~= map_of(old_s).insert(k@, v));
                }
                Some(e.1)
            },
            None => {
                let ghost kv = k@;
                self.entries.push((k, v));
                let ghost new_s = self.entries@;
                proof {
                    assert(keys_of(new_s) =~= keys_of(old_s).push(kv));
                    assert(!keys_of(old_s).contains(kv));
                    assert forall|key: Seq<char>| #![auto] map_of(new_s).contains_key(key) && key != kv
                        implies map_of(new_s)[key] == map_of(old_s)[key] by {
                        let p = position_of(new_s, key);
                        assert(keys_of(new_s).contains(key));
                        let j = choose|j: int| 0 <= j < keys_of(new_s).len() && keys_of(new_s)[j] == key;
                        assert(keys_of(new_s)[p] == key);
                        assert(p < old_s.len());
                        assert(keys_of(old_s)[p] == key);
                        assert(keys_of(old_s).contains(key));
                        let q = position_of(old_s, key);
                        assert(keys_of(old_s)[q] == key);
                    }
                    let last = old_s.len() as int;
                    assert(keys_of(new_s)[last] == kv);
                    assert forall|key: Seq<char>| #![auto] map_of(old_s).contains_key(key)
                        implies map_of(new_s).contains_key(key) by {
                        let q = position_of(old_s, key);
                        assert(keys_of(old_s).contains(key));
                        let j = choose|j: int| 0 <= j < keys_of(old_s).len() && keys_of(old_s)[j] == key;
                        assert(keys_of(old_s)[q] == key);
                        assert(keys_of(new_s)[q] == key);
                    }
                    assert(keys_of(new_s).contains(kv));
                    let p = position_of(new_s, kv);
                    assert(keys_of(new_s)[p] == kv);
                    assert(map_of(new_s) =~= map_of(old_s).insert(kv, v));
                }
                None
            },
        }
    }

    /// Removes key `k`, handing back the value it mapped to, if any.
    /// The other entries keep their order.
    pub fn remove(&mut self, k: &String) -> (old_value: Option<V>)
        requires
            old(self).wf(),
        ensures
            final(self).wf(),
            final(self)@ == old(self)@.remove(k@),
            old(self)@.contains_key(k@) ==> old_value == Some(old(self)@[k@]),
            !old(self)@.contains_key(k@) ==> old_value.is_none() && final(self).key_seq() == old(self).key_seq(),
            final(self).key_seq().to_set() == old(self).key_seq().to_set().remove(k@),
    {
        let ghost old_s = self.entries@;
        match self.position(k) {
            Some(i) => {
                proof {
                    self.lemma_entry(i as int);
                }
                let e = self.entries.remove(i);
                let ghost new_s = self.entries@;
                proof {
                    assert(keys_of(new_s) =~= keys_of(old_s).remove(i as int));
                    assert forall|key: Seq<char>| #![auto] map_of(new_s).contains_key(key)
                        implies key != k@ && map_of(old_s).contains_key(key) && map_of(new_s)[key]
                        == map_of(old_s)[key] by {
                        let p = position_of(new_s, key);
                        assert(keys_of(new_s).contains(key));
                        let j = choose|j: int| 0 <= j < keys_of(new_s).len() && keys_of(new_s)[j] == key;
                        assert(keys_of(new_s)[p] == key);
                        let op = if p < i { p } else { p + 1 };
                        assert(keys_of(old_s)[op] == key);
                        assert(op != i);
                        assert(keys_of(old_s).contains(key));
                        let q = position_of(old_s, key);
                        assert(keys_of(old_s)[q] == key);
                    }
                    assert forall|key: Seq<char>| #![auto] map_of(old_s).contains_key(key) && key != k@
                        implies map_of(new_s).contains_key(key) by {
                        let q = position_of(old_s, key);
                        assert(keys_of(old_s).contains(key));
                        let j = choose|j: int| 0 <= j < keys_of(old_s).len() && keys_of(old_s)[j] == key;
                        assert(keys_of(old_s)[q] == key);
                        assert(q != i);
                        let np = if q < i { q } else { q - 1 };
                        assert(keys_of(new_s)[np] == key);
                    }
                    assert(map_of(new_s) =~= map_of(old_s).remove(k@));
                    assert(keys_of(new_s).to_set() =~= keys_of(old_s).to_set().remove(k@)) by {
                        assert forall|key: Seq<char>| keys_of(new_s).to_set().contains(key)
                            <==> keys_of(old_s).to_set().remove(k@).contains(key) by {
                            if keys_of(old_s).to_set().remove(k@).contains(key) {
                                assert(map_of(old_s).contains_key(key));
                            }
                            if keys_of(new_s).to_set().contains(key) {
                                assert(map_of(new_s).contains_key(key));
                            }
                        }
                    }
                }
                Some(e.1)
            },
            None => {
                proof {
                    assert(map_of(old_s) =~= map_of(old_s).remove(k@));
                    assert(keys_of(old_s).to_set() =~= keys_of(old_s).to_set().remove(k@));
                }
                None
            },
        }
    }
}

/// A read gives back the last write under its key, and nothing once the
/// key is removed; keys not written keep what they held.
pub proof fn lemma_read_after_write<V>(
    before: Map<Seq<char>, V>,
    written: Map<Seq<char>, V>,
    removed: Map<Seq<char>, V>,
    k: Seq<char>,
    v: V,
    other: Seq<char>,
)
    requires
        written == before.insert(k, v),
        removed == written.remove(k),
        other != k,
    ensures
        written.contains_key(k) && written[k] == v,
        !removed.contains_key(k),
        written.contains_key(other) == before.contains_key(other),
        removed.contains_key(other) == before.contains_key(other),
        before.contains_key(other) ==> written[other] == before[other] && removed[other] == before[other],
{
}

} // verus!
