//! A small insertion-ordered dictionary keyed by strings.
//!
//! The dictionary is the executable counterpart of a finite
//! `Map<Seq<char>, V::V>`: keys are compared by their characters and values
//! are seen through their view.

use vstd::prelude::*;

verus! {

/// Whether some entry of `entries` carries the key `key`.
pub open spec fn has_key<V>(entries: Seq<(String, V)>, key: Seq<char>) -> bool {
    exists|i: int| 0 <= i < entries.len() && (#[trigger] entries[i]).0@ == key
}

/// Whether `i` is the position of the first entry that carries `key`.
pub open spec fn is_first_index<V>(entries: Seq<(String, V)>, key: Seq<char>, i: int) -> bool {
    &&& 0 <= i < entries.len()
    &&& entries[i].0@ == key
    &&& forall|j: int| 0 <= j < i ==> (#[trigger] entries[j]).0@ != key
}

/// The position of the first entry that carries `key`.
pub open spec fn first_index<V>(entries: Seq<(String, V)>, key: Seq<char>) -> int {
    choose|i: int| is_first_index(entries, key, i)
}

/// The map that a sequence of entries stands for: the first entry of a key decides.
pub open spec fn entries_map<V: View>(entries: Seq<(String, V)>) -> Map<Seq<char>, V::V> {
    Map::new(
        |k: Seq<char>| has_key(entries, k),
        |k: Seq<char>| entries[first_index(entries, k)].1@,
    )
}

/// A key that occurs has a first position, and that position is unique.
pub proof fn lemma_first_index<V>(entries: Seq<(String, V)>, key: Seq<char>)
    requires
        has_key(entries, key),
    ensures
        is_first_index(entries, key, first_index(entries, key)),
        forall|i: int| is_first_index(entries, key, i) ==> i == first_index(entries, key),
{
    let w = choose|i: int| 0 <= i < entries.len() && (#[trigger] entries[i]).0@ == key;
    lemma_first_index_below(entries, key, w);
    let f = first_index(entries, key);
    assert forall|i: int| is_first_index(entries, key, i) implies i == f by {
        if i < f {
            assert(entries[i].0@ != key);
        } else if f < i {
            assert(entries[f].0@ != key);
        }
    }
}

proof fn lemma_first_index_below<V>(entries: Seq<(String, V)>, key: Seq<char>, w: int)
    requires
        0 <= w < entries.len(),
        entries[w].0@ == key,
    ensures
        exists|i: int| is_first_index(entries, key, i),
    decreases w,
{
    if forall|j: int| 0 <= j < w ==> (#[trigger] entries[j]).0@ != key {
        assert(is_first_index(entries, key, w));
    } else {
        let j = choose|j: int| 0 <= j < w && (#[trigger] entries[j]).0@ == key;
        lemma_first_index_below(entries, key, j);
    }
}

/// The first position of a key, once known, is the one `first_index` names.
pub proof fn lemma_first_index_is<V>(entries: Seq<(String, V)>, key: Seq<char>, i: int)
    requires
        is_first_index(entries, key, i),
    ensures
        has_key(entries, key),
        first_index(entries, key) == i,
{
    assert(entries[i].0@ == key);
    lemma_first_index(entries, key);
}

/// An insertion-ordered dictionary from strings to `V`.
pub struct Dict<V> {
    entries: Vec<(String, V)>,
}

impl<V: View> View for Dict<V> {
    type V = Map<Seq<char>, V::V>;

    closed spec fn view(&self) -> Map<Seq<char>, V::V> {
        entries_map(self.entries@)
    }
}

impl<V> Dict<V> {
    /// No key occurs in two entries.
    #[verifier::type_invariant]
    spec fn distinct_keys(&self) -> bool {
        forall|i: int, j: int|
            0 <= i < j < self.entries@.len() ==> (#[trigger] self.entries@[i]).0@ != (
            #[trigger] self.entries@[j]).0@
    }
}

impl<V: View> Dict<V> {
    /// The keys in the order in which they were first inserted.
    pub closed spec fn key_seq(&self) -> Seq<Seq<char>> {
        Seq::new(self.entries@.len(), |i: int| self.entries@[i].0@)
    }

    /// The map holds finitely many keys.
    pub proof fn lemma_finite(&self)
        ensures
            self@.dom().finite(),
    {
        self.lemma_key_seq();
        vstd::seq_lib::seq_to_set_is_finite(self.key_seq());
        assert(self@.dom() =~= self.key_seq().to_set());
    }

    /// Every key of the map occurs in `key_seq`, and nothing else does.
    pub proof fn lemma_key_seq(&self)
        ensures
            forall|k: Seq<char>| self@.contains_key(k) <==> self.key_seq().contains(k),
    {
        let ks = self.key_seq();
        assert forall|k: Seq<char>| self@.contains_key(k) <==> ks.contains(k) by {
            if self@.contains_key(k) {
                let i = choose|i: int|
                    0 <= i < self.entries@.len() && (#[trigger] self.entries@[i]).0@ == k;
                assert(ks[i] == k);
            }
            if ks.contains(k) {
                let i = choose|i: int| 0 <= i < ks.len() && ks[i] == k;
                assert(self.entries@[i].0@ == k);
            }
        }
    }

    /// An empty dictionary.
    pub fn new() -> (d: Self)
        ensures
            d@ == Map::<Seq<char>, V::V>::empty(),
            d.key_seq() == Seq::<Seq<char>>::empty(),
    {
        let d = Dict { entries: Vec::new() };
        assert(d@ =~= Map::<Seq<char>, V::V>::empty());
        assert(d.key_seq() =~= Seq::<Seq<char>>::empty());
        d
    }

    /// The number of entries.
    pub fn len(&self) -> (n: usize)
        ensures
            n == self.key_seq().len(),
            n == self@.dom().len(),
            self.key_seq().no_duplicates(),
    {
        proof {
            use_type_invariant(self);
            let ks = self.key_seq();
            assert forall|i: int, j: int|
                0 <= i < ks.len() && 0 <= j < ks.len() && i != j implies ks[i] != ks[j] by {
                if i < j {
                    assert(self.entries@[i].0@ != self.entries@[j].0@);
                } else {
                    assert(self.entries@[j].0@ != self.entries@[i].0@);
                }
            }
            self.lemma_key_seq();
            ks.unique_seq_to_set();
            assert(self@.dom() =~= ks.to_set());
        }
        self.entries.len()
    }

    /// The key of the entry at position `i`.
    pub fn key_at(&self, i: usize) -> (k: &String)
        requires
            i < self.key_seq().len(),
        ensures
            k@ == self.key_seq()[i as int],
            self@.contains_key(k@),
    {
        proof {
            self.lemma_key_seq();
            assert(self.key_seq()[i as int] == self.entries@[i as int].0@);
        }
        &self.entries[i].0
    }

    fn position(&self, key: &String) -> (r: Option<usize>)
        ensures
            match r {
                Some(i) => is_first_index(self.entries@, key@, i as int),
                None => !has_key(self.entries@, key@),
            },
    {
        let mut i: usize = 0;
        while i < self.entries.len()
            invariant
                i <= self.entries@.len(),
                forall|j: int| 0 <= j < i ==> (#[trigger] self.entries@[j]).0@ != key@,
            decreases self.entries@.len() - i,
        {
            if self.entries[i].0 == *key {
                return Some(i);
            }
            i += 1;
        }
        None
    }

    /// Whether `key` has a value.
    pub fn contains_key(&self, key: &String) -> (b: bool)
        ensures
            b == self@.contains_key(key@),
    {
        self.position(key).is_some()
    }

    /// The value of `key`, if it has one.
    pub fn get(&self, key: &String) -> (r: Option<&V>)
        ensures
            match r {
                Some(v) => self@.contains_key(key@) && v@ == self@[key@],
                None => !self@.contains_key(key@),
            },
    {
        match self.position(key) {
            Some(i) => {
                proof {
                    lemma_first_index(self.entries@, key@);
                }
                Some(&self.entries[i].1)
            },
            None => None,
        }
    }

    /// Gives `key` the value `value`, replacing the value it had.
    pub fn insert(&mut self, key: String, value: V)
        ensures
            final(self)@ == old(self)@.insert(key@, value@),
            final(self).key_seq() == if old(self)@.contains_key(key@) {
                old(self).key_seq()
            } else {
                old(self).key_seq().push(key@)
            },
    {
        proof {
            use_type_invariant(&*self);
        }
        let found = self.position(&key);
        let ghost before = self.entries@;
        let mut entries: Vec<(String, V)> = Vec::new();
        std::mem::swap(&mut self.entries, &mut entries);
        match found {
            Some(i) => {
                entries.set(i, (key, value));
                proof {
                    let after = entries@;
                    assert forall|k: Seq<char>| has_key(before, k) <==> has_key(after, k) by {
                        if has_key(before, k) {
                            let j = choose|j: int|
                                0 <= j < before.len() && (#[trigger] before[j]).0@ == k;
                            assert(after[j].0@ == k);
                        }
                        if has_key(after, k) {
                            let j = choose|j: int|
                                0 <= j < after.len() && (#[trigger] after[j]).0@ == k;
                            assert(before[j].0@ == k);
                        }
                    }
                    assert forall|k: Seq<char>| has_key(before, k) implies first_index(before, k)
                        == first_index(after, k) by {
                        lemma_first_index(before, k);
                        lemma_first_index(after, k);
                        let f = first_index(before, k);
                        assert(after[f].0@ == k);
                        assert forall|j: int| 0 <= j < f implies (#[trigger] after[j]).0@ != k by {
                            assert(before[j].0@ != k);
                        }
                        assert(is_first_index(after, k, f));
                    }
                    lemma_first_index_is(before, key@, i as int);
                    let m = entries_map(before).insert(key@, value@);
                    assert forall|k: Seq<char>|
                        entries_map(after).contains_key(k) implies #[trigger] entries_map(
                        after,
                    )[k] == m[k] by {
                        let f = first_index(before, k);
                        assert(f == first_index(after, k));
                        if k == key@ {
                            assert(f == i);
                        } else {
                            lemma_first_index(before, k);
                            assert(f != i);
                            assert(after[f] == before[f]);
                        }
                    }
                    assert(entries_map(after) =~= m);
                    assert forall|x: int, y: int| 0 <= x < y < after.len() implies (
                    #[trigger] after[x]).0@ != (#[trigger] after[y]).0@ by {
                        assert(before[x].0@ != before[y].0@);
                    }
                }
            },
            None => {
                entries.push((key, value));
                proof {
                    let after = entries@;
                    let n = before.len() as int;
                    assert(after[n].0@ == key@);
                    assert forall|k: Seq<char>| has_key(after, k) <==> (has_key(before, k) || k
                        == key@) by {
                        if has_key(before, k) {
                            let j = choose|j: int|
                                0 <= j < before.len() && (#[trigger] before[j]).0@ == k;
                            assert(after[j].0@ == k);
                        }
                        if has_key(after, k) {
                            let j = choose|j: int|
                                0 <= j < after.len() && (#[trigger] after[j]).0@ == k;
                            if j < n {
                                assert(before[j].0@ == k);
                            }
                        }
                    }
                    assert forall|k: Seq<char>| has_key(before, k) implies first_index(before, k)
                        == first_index(after, k) by {
                        lemma_first_index(before, k);
                        lemma_first_index(after, k);
                        let f = first_index(before, k);
                        assert(after[f].0@ == k);
                        assert forall|j: int| 0 <= j < f implies (#[trigger] after[j]).0@ != k by {
                            assert(before[j].0@ != k);
                        }
                        assert(is_first_index(after, k, f));
                    }
                    assert(has_key(after, key@));
                    lemma_first_index(after, key@);
                    assert forall|j: int| 0 <= j < n implies (#[trigger] after[j]).0@ != key@ by {
                        assert(before[j].0@ != key@);
                    }
                    assert(is_first_index(after, key@, n));
                    lemma_first_index_is(after, key@, n);
                    let m = entries_map(before).insert(key@, value@);
                    assert forall|k: Seq<char>|
                        entries_map(after).contains_key(k) implies #[trigger] entries_map(
                        after,
                    )[k] == m[k] by {
                        if k != key@ {
                            let f = first_index(before, k);
                            lemma_first_index(before, k);
                            assert(f == first_index(after, k));
                            assert(after[f] == before[f]);
                        }
                    }
                    assert(entries_map(after) =~= m);
                    assert forall|x: int, y: int| 0 <= x < y < after.len() implies (
                    #[trigger] after[x]).0@ != (#[trigger] after[y]).0@ by {
                        if y < n {
                            assert(before[x].0@ != before[y].0@);
                        } else {
                            assert(before[x].0@ != key@);
                        }
                    }
                }
            },
        }
        self.entries = entries;
        proof {
            let was = old(self).key_seq();
            let now = self.key_seq();
            if old(self)@.contains_key(key@) {
                assert(now =~= was);
            } else {
                assert(now =~= was.push(key@));
            }
        }
    }

    /// Removes every entry.
    pub fn clear(&mut self)
        ensures
            final(self)@ == Map::<Seq<char>, V::V>::empty(),
            final(self).key_seq() == Seq::<Seq<char>>::empty(),
    {
        self.entries = Vec::new();
        assert(self@ =~= Map::<Seq<char>, V::V>::empty());
        assert(self.key_seq() =~= Seq::<Seq<char>>::empty());
    }
}

} // verus!
