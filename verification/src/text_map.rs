//! A map from strings to values that keeps its entries in the order of first insertion.

use crate::text::same;
use vstd::prelude::*;

verus! {

broadcast use vstd::string::group_string_axioms;

/// A map keyed by text.
///
/// The model of a map is `self@`, a `Map` from key texts to values. `self.keys()` gives the key
/// texts in the order in which [`TextMap::entry`] hands the entries out.
#[derive(Debug)]
pub struct TextMap<V> {
    entries: Vec<(String, V)>,
}

/// Where `key` stands among `entries`, if it does.
spec fn stands_at<V>(entries: Seq<(String, V)>, key: Seq<char>, i: int) -> bool {
    0 <= i < entries.len() && entries[i].0@ == key
}

/// No key occurs twice.
spec fn distinct<V>(entries: Seq<(String, V)>) -> bool {
    forall|i: int, j: int|
        0 <= i < entries.len() && 0 <= j < entries.len() && i != j ==> #[trigger] entries[i].0@
            != #[trigger] entries[j].0@
}

/// The map that `entries` lists.
spec fn listed<V>(entries: Seq<(String, V)>) -> Map<Seq<char>, V> {
    Map::new(
        |key: Seq<char>| exists|i: int| stands_at(entries, key, i),
        |key: Seq<char>| entries[choose|i: int| stands_at(entries, key, i)].1,
    )
}

proof fn lemma_listed<V>(entries: Seq<(String, V)>, i: int)
    requires
        distinct(entries),
        0 <= i < entries.len(),
    ensures
        listed(entries).dom().contains(entries[i].0@),
        listed(entries)[entries[i].0@] == entries[i].1,
{
    let key = entries[i].0@;
    assert(stands_at(entries, key, i));
    let j = choose|j: int| stands_at(entries, key, j);
    assert(stands_at(entries, key, j));
    assert(j == i);
}

impl<V> View for TextMap<V> {
    type V = Map<Seq<char>, V>;

    closed spec fn view(&self) -> Map<Seq<char>, V> {
        listed(self.entries@)
    }
}

impl<V> TextMap<V> {
    #[verifier::type_invariant]
    spec fn keys_are_distinct(self) -> bool {
        distinct(self.entries@)
    }

    /// The keys, in the order of the entries.
    pub closed spec fn keys(self) -> Seq<Seq<char>> {
        self.entries@.map_values(|entry: (String, V)| entry.0@)
    }

    /// The empty map.
    pub fn new() -> (r: Self)
        ensures
            r@ == Map::<Seq<char>, V>::empty(),
            r.keys() == Seq::<Seq<char>>::empty(),
    {
        let r = TextMap { entries: Vec::new() };
        assert(r@ =~= Map::<Seq<char>, V>::empty());
        assert(r.keys() =~= Seq::<Seq<char>>::empty());
        r
    }

    /// The number of entries. Each key stands once, and the keys are those of the model.
    pub fn len(&self) -> (r: usize)
        ensures
            r == self.keys().len(),
            self.keys().no_duplicates(),
            self@.dom() == self.keys().to_set(),
    {
        proof {
            use_type_invariant(&*self);
            let keys = self.keys();
            assert forall|key: Seq<char>| self@.dom().contains(key) == keys.to_set().contains(
                key,
            ) by {
                if self@.dom().contains(key) {
                    let i = choose|i: int| stands_at(self.entries@, key, i);
                    assert(keys[i] == key);
                }
                if keys.to_set().contains(key) {
                    let i = choose|i: int| 0 <= i < keys.len() && keys[i] == key;
                    assert(stands_at(self.entries@, key, i));
                }
            }
            assert(self@.dom() =~= keys.to_set());
        }
        self.entries.len()
    }

    /// The entry at position `i`.
    pub fn entry(&self, i: usize) -> (r: (&String, &V))
        requires
            i < self.keys().len(),
        ensures
            r.0@ == self.keys()[i as int],
            self@.dom().contains(r.0@),
            *r.1 == self@[r.0@],
    {
        proof {
            use_type_invariant(&*self);
            lemma_listed(self.entries@, i as int);
        }
        let entry = &self.entries[i];
        (&entry.0, &entry.1)
    }

    /// The position of `key`.
    fn position(&self, key: &str) -> (r: Option<usize>)
        ensures
            match r {
                Some(i) => stands_at(self.entries@, key@, i as int),
                None => !self@.dom().contains(key@),
            },
    {
        let mut i: usize = 0;
        while i < self.entries.len()
            invariant
                i <= self.entries@.len(),
                forall|j: int| 0 <= j < i ==> #[trigger] self.entries@[j].0@ != key@,
            decreases self.entries@.len() - i,
        {
            if same(self.entries[i].0.as_str(), key) {
                return Some(i);
            }
            i += 1;
        }
        assert forall|j: int| !stands_at(self.entries@, key@, j) by {}
        None
    }

    /// The value of `key`.
    pub fn get(&self, key: &str) -> (r: Option<&V>)
        ensures
            match r {
                Some(value) => self@.dom().contains(key@) && *value == self@[key@],
                None => !self@.dom().contains(key@),
            },
    {
        match self.position(key) {
            Some(i) => {
                proof {
                    use_type_invariant(&*self);
                    lemma_listed(self.entries@, i as int);
                }
                Some(&self.entries[i].1)
            },
            None => None,
        }
    }

    /// Whether `key` has a value.
    pub fn contains_key(&self, key: &str) -> (r: bool)
        ensures
            r == self@.dom().contains(key@),
    {
        self.get(key).is_some()
    }

    /// Gives `key` the value `value` and returns the value it had before.
    pub fn insert(&mut self, key: String, value: V) -> (r: Option<V>)
        ensures
            final(self)@ == old(self)@.insert(key@, value),
            match r {
                Some(before) => old(self)@.dom().contains(key@) && before == old(self)@[key@],
                None => !old(self)@.dom().contains(key@),
            },
    {
        proof {
            use_type_invariant(&*self);
        }
        let ghost before = self.entries@;
        let found = self.position(key.as_str());
        let mut entries: Vec<(String, V)> = Vec::new();
        std::mem::swap(&mut entries, &mut self.entries);
        let ghost text = key@;
        let mut r: Option<V> = None;
        match found {
            Some(i) => {
                proof {
                    lemma_listed(before, i as int);
                }
                let (_, replaced) = entries.remove(i);
                entries.insert(i, (key, value));
                r = Some(replaced);
                assert(entries@ =~= before.update(i as int, (key, value)));
            },
            None => {
                entries.push((key, value));
            },
        }
        proof {
            let after = entries@;
            let slot = if found is Some { found->0 as int } else { before.len() as int };
            assert(after[slot].0@ == text);
            assert forall|i: int, j: int|
                0 <= i < after.len() && 0 <= j < after.len() && i
                    != j implies #[trigger] after[i].0@ != #[trigger] after[j].0@ by {
                if found is None {
                    if i == slot {
                        assert(!stands_at(before, text, j));
                        assert(j < before.len());
                    }
                    if j == slot {
                        assert(!stands_at(before, text, i));
                    }
                } else {
                    assert(before[i].0@ != before[j].0@);
                }
            }
            let target = listed(before).insert(text, value);
            assert forall|k: Seq<char>| #[trigger]
                listed(after).dom().contains(k) == target.dom().contains(k) by {
                if listed(after).dom().contains(k) && k != text {
                    let i = choose|i: int| stands_at(after, k, i);
                    assert(stands_at(before, k, i));
                }
                if listed(before).dom().contains(k) {
                    let i = choose|i: int| stands_at(before, k, i);
                    assert(stands_at(after, k, i));
                }
                if k == text {
                    assert(stands_at(after, k, slot));
                }
            }
            assert forall|k: Seq<char>| #[trigger]
                listed(after).dom().contains(k) implies listed(after)[k] == target[k] by {
                let i = choose|i: int| stands_at(after, k, i);
                lemma_listed(after, i);
                if k == text {
                    lemma_listed(after, slot);
                } else {
                    assert(before[i] == after[i]);
                    lemma_listed(before, i);
                }
            }
            assert(listed(after) =~= target);
        }
        self.entries = entries;
        r
    }

    /// Takes `key` out and returns the value it had.
    pub fn remove(&mut self, key: &str) -> (r: Option<V>)
        ensures
            final(self)@ == old(self)@.remove(key@),
            match r {
                Some(before) => old(self)@.dom().contains(key@) && before == old(self)@[key@],
                None => !old(self)@.dom().contains(key@),
            },
    {
        proof {
            use_type_invariant(&*self);
        }
        let ghost before = self.entries@;
        match self.position(key) {
            None => {
                assert(self@.remove(key@) =~= self@);
                None
            },
            Some(slot) => {
                let mut entries: Vec<(String, V)> = Vec::new();
                std::mem::swap(&mut entries, &mut self.entries);
                let (_, value) = entries.remove(slot);
                proof {
                    let after = entries@;
                    lemma_listed(before, slot as int);
                    assert(after =~= before.remove(slot as int));
                    assert forall|i: int|
                        0 <= i < after.len() implies #[trigger] after[i] == before[if i < slot {
                        i
                    } else {
                        i + 1
                    }] by {}
                    assert(distinct(after));
                    assert forall|k: Seq<char>| #[trigger]
                        listed(after).dom().contains(k) == listed(before).remove(
                        key@,
                    ).dom().contains(k) by {
                        if listed(after).dom().contains(k) {
                            let i = choose|i: int| stands_at(after, k, i);
                            let j = if i < slot { i } else { i + 1 };
                            assert(after[i] == before[j]);
                            assert(stands_at(before, k, j));
                        }
                        if listed(before).dom().contains(k) && k != key@ {
                            let j = choose|j: int| stands_at(before, k, j);
                            let i = if j < slot { j } else { j - 1 };
                            assert(after[i] == before[j]);
                            assert(stands_at(after, k, i));
                        }
                    }
                    assert forall|k: Seq<char>| #[trigger]
                        listed(after).dom().contains(k) implies listed(after)[k] == listed(
                        before,
                    ).remove(key@)[k] by {
                        let i = choose|i: int| stands_at(after, k, i);
                        let j = if i < slot { i } else { i + 1 };
                        assert(after[i] == before[j]);
                        lemma_listed(after, i);
                        lemma_listed(before, j);
                    }
                    assert(listed(after) =~= listed(before).remove(key@));
                }
                self.entries = entries;
                Some(value)
            },
        }
    }
}

impl<V: Clone> Clone for TextMap<V> {
    fn clone(&self) -> (r: Self)
        ensures
            r.keys() == self.keys(),
            r@.dom() == self@.dom(),
            forall|key: Seq<char>| #[trigger]
                r@.dom().contains(key) ==> cloned::<V>(self@[key], r@[key]),
    {
        proof {
            use_type_invariant(&*self);
        }
        let mut entries: Vec<(String, V)> = Vec::new();
        let n = self.entries.len();
        let mut i: usize = 0;
        while i < n
            invariant
                i <= n,
                n == self.entries@.len(),
                entries@.len() == i,
                forall|j: int|
                    0 <= j < i ==> (#[trigger] entries@[j]).0@ == self.entries@[j].0@
                        && cloned::<V>(self.entries@[j].1, entries@[j].1),
            decreases n - i,
        {
            let entry = &self.entries[i];
            entries.push((entry.0.clone(), entry.1.clone()));
            i += 1;
        }
        proof {
            let before = self.entries@;
            let after = entries@;
            assert(distinct(after));
            assert forall|k: Seq<char>| #[trigger]
                listed(after).dom().contains(k) == listed(before).dom().contains(k) by {
                if listed(after).dom().contains(k) {
                    let j = choose|j: int| stands_at(after, k, j);
                    assert(stands_at(before, k, j));
                }
                if listed(before).dom().contains(k) {
                    let j = choose|j: int| stands_at(before, k, j);
                    assert(stands_at(after, k, j));
                }
            }
            assert(listed(after).dom() =~= listed(before).dom());
            assert forall|k: Seq<char>| #[trigger] listed(after).dom().contains(k) implies cloned::<
                V,
            >(listed(before)[k], listed(after)[k]) by {
                let j = choose|j: int| stands_at(after, k, j);
                lemma_listed(after, j);
                lemma_listed(before, j);
            }
        }
        let r = TextMap { entries };
        assert(r.keys() =~= self.keys());
        r
    }
}

} // verus!
