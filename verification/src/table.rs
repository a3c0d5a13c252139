//! A small map keyed by text.
//!
//! `Table<V>` is an association list in which no key occurs twice. Its
//! mathematical model is the sequence of its entries in the order in which
//! their keys first arrived (`pairs`), and the map that this sequence
//! describes (the view).

use vstd::prelude::*;

verus! {

/// Whether some entry of `pairs` has the key `key`.
pub open spec fn has_key<V>(pairs: Seq<(Seq<char>, V)>, key: Seq<char>) -> bool {
    exists|i: int| 0 <= i < pairs.len() && (#[trigger] pairs[i]).0 == key
}

/// The index of an entry of `pairs` with the key `key`, where there is one.
pub open spec fn index_of<V>(pairs: Seq<(Seq<char>, V)>, key: Seq<char>) -> int {
    choose|i: int| 0 <= i < pairs.len() && (#[trigger] pairs[i]).0 == key
}

/// Whether no key occurs twice in `pairs`.
pub open spec fn distinct_keys<V>(pairs: Seq<(Seq<char>, V)>) -> bool {
    forall|i: int, j: int|
        0 <= i < j < pairs.len() ==> (#[trigger] pairs[i]).0 != (#[trigger] pairs[j]).0
}

/// The map that a sequence of entries describes.
pub open spec fn to_map<V>(pairs: Seq<(Seq<char>, V)>) -> Map<Seq<char>, V> {
    Map::new(|k: Seq<char>| has_key(pairs, k), |k: Seq<char>| pairs[index_of(pairs, k)].1)
}

/// With distinct keys, every entry is what the map holds under its key.
pub proof fn lemma_entry_in_map<V>(pairs: Seq<(Seq<char>, V)>, i: int)
    requires
        distinct_keys(pairs),
        0 <= i < pairs.len(),
    ensures
        to_map(pairs).dom().contains(pairs[i].0),
        to_map(pairs)[pairs[i].0] == pairs[i].1,
        index_of(pairs, pairs[i].0) == i,
{
    let k = pairs[i].0;
    assert(has_key(pairs, k));
    let j = index_of(pairs, k);
    assert(0 <= j < pairs.len() && pairs[j].0 == k);
    if j != i {
        if j < i {
            assert(pairs[j].0 != pairs[i].0);
        } else {
            assert(pairs[i].0 != pairs[j].0);
        }
    }
}

/// Appending an entry under a new key inserts it into the map.
pub proof fn lemma_push_inserts<V>(pairs: Seq<(Seq<char>, V)>, key: Seq<char>, value: V)
    requires
        distinct_keys(pairs),
        !has_key(pairs, key),
    ensures
        distinct_keys(pairs.push((key, value))),
        to_map(pairs.push((key, value))) == to_map(pairs).insert(key, value),
{
    let next = pairs.push((key, value));
    assert(distinct_keys(next)) by {
        assert forall|i: int, j: int| 0 <= i < j < next.len() implies (#[trigger] next[i]).0 != (
        #[trigger] next[j]).0 by {
            if j < pairs.len() {
                assert(pairs[i].0 != pairs[j].0);
            } else {
                assert(pairs[i].0 != key);
            }
        }
    }
    let last = pairs.len() as int;
    assert forall|k: Seq<char>| #[trigger] has_key(next, k) <==> (k == key || has_key(pairs, k)) by {
        if has_key(next, k) {
            let i = index_of(next, k);
            if i < last {
                assert(pairs[i].0 == k);
            }
        }
        if k == key {
            assert(next[last].0 == k);
        }
        if has_key(pairs, k) {
            let i = index_of(pairs, k);
            assert(next[i].0 == k);
        }
    }
    assert forall|k: Seq<char>| has_key(next, k) implies #[trigger] to_map(next)[k] == to_map(
        pairs,
    ).insert(key, value)[k] by {
        let i = index_of(next, k);
        lemma_entry_in_map(next, i);
        if i < last {
            assert(pairs[i].0 == k);
            lemma_entry_in_map(pairs, i);
        }
    }
    assert(to_map(next) =~= to_map(pairs).insert(key, value));
}

/// Replacing the value of an entry replaces it in the map.
pub proof fn lemma_update_inserts<V>(pairs: Seq<(Seq<char>, V)>, i: int, value: V)
    requires
        distinct_keys(pairs),
        0 <= i < pairs.len(),
    ensures
        distinct_keys(pairs.update(i, (pairs[i].0, value))),
        to_map(pairs.update(i, (pairs[i].0, value))) == to_map(pairs).insert(pairs[i].0, value),
{
    let key = pairs[i].0;
    let next = pairs.update(i, (key, value));
    assert(distinct_keys(next)) by {
        assert forall|a: int, b: int| 0 <= a < b < next.len() implies (#[trigger] next[a]).0 != (
        #[trigger] next[b]).0 by {
            assert(pairs[a].0 != pairs[b].0);
        }
    }
    assert forall|k: Seq<char>| #[trigger] has_key(next, k) <==> has_key(pairs, k) by {
        if has_key(next, k) {
            let j = index_of(next, k);
            assert(pairs[j].0 == k);
        }
        if has_key(pairs, k) {
            let j = index_of(pairs, k);
            assert(next[j].0 == k);
        }
    }
    assert(has_key(pairs, key));
    assert forall|k: Seq<char>| has_key(next, k) implies #[trigger] to_map(next)[k] == to_map(
        pairs,
    ).insert(key, value)[k] by {
        let j = index_of(next, k);
        lemma_entry_in_map(next, j);
        if j != i {
            assert(pairs[j].0 == k);
            lemma_entry_in_map(pairs, j);
            if j < i {
                assert(pairs[j].0 != pairs[i].0);
            } else {
                assert(pairs[i].0 != pairs[j].0);
            }
        }
    }
    assert(to_map(next) =~= to_map(pairs).insert(key, value));
}

/// With distinct keys, the map has as many keys as there are entries.
pub proof fn lemma_size<V>(pairs: Seq<(Seq<char>, V)>)
    requires
        distinct_keys(pairs),
    ensures
        to_map(pairs).dom().finite(),
        to_map(pairs).dom().len() == pairs.len(),
    decreases pairs.len(),
{
    if pairs.len() == 0 {
        assert(to_map(pairs).dom() =~= Set::<Seq<char>>::empty());
    } else {
        let rest = pairs.drop_last();
        let last = pairs.last();
        assert(distinct_keys(rest)) by {
            assert forall|i: int, j: int| 0 <= i < j < rest.len() implies (#[trigger] rest[i]).0 != (
            #[trigger] rest[j]).0 by {
                assert(pairs[i].0 != pairs[j].0);
            }
        }
        assert(!has_key(rest, last.0)) by {
            if has_key(rest, last.0) {
                let i = index_of(rest, last.0);
                assert(pairs[i].0 != pairs[pairs.len() - 1].0);
            }
        }
        lemma_size(rest);
        lemma_push_inserts(rest, last.0, last.1);
        assert(rest.push((last.0, last.1)) =~= pairs);
        assert(to_map(pairs).dom() =~= to_map(rest).dom().insert(last.0));
    }
}

/// A map keyed by text, in which no key occurs twice.
#[derive(Debug)]
pub struct Table<V> {
    entries: Vec<(String, V)>,
}

/// The entries of a vector with each key taken by its view.
pub open spec fn pairs_of<V>(entries: Seq<(String, V)>) -> Seq<(Seq<char>, V)> {
    entries.map_values(|e: (String, V)| (e.0@, e.1))
}

impl<V> View for Table<V> {
    type V = Map<Seq<char>, V>;

    /// The map from each key to its value.
    open spec fn view(&self) -> Map<Seq<char>, V> {
        to_map(self.pairs())
    }
}

impl<V> Table<V> {
    #[verifier::type_invariant]
    spec fn well_formed(self) -> bool {
        distinct_keys(pairs_of(self.entries@))
    }

    /// The entries, in the order in which their keys first arrived.
    pub closed spec fn pairs(&self) -> Seq<(Seq<char>, V)> {
        pairs_of(self.entries@)
    }

    /// An empty table.
    pub fn new() -> (r: Self)
        ensures
            r.pairs() == Seq::<(Seq<char>, V)>::empty(),
            r@ == Map::<Seq<char>, V>::empty(),
    {
        let r = Table { entries: Vec::new() };
        assert(r.pairs() =~= Seq::<(Seq<char>, V)>::empty());
        assert(r@ =~= Map::<Seq<char>, V>::empty());
        r
    }

    /// The number of entries.
    pub fn len(&self) -> (n: usize)
        ensures
            n == self.pairs().len(),
            distinct_keys(self.pairs()),
    {
        proof {
            use_type_invariant(self);
        }
        self.entries.len()
    }

    /// The key of the entry at `index`.
    pub fn key_at(&self, index: usize) -> (key: &String)
        requires
            index < self.pairs().len(),
        ensures
            key@ == self.pairs()[index as int].0,
            self@.dom().contains(key@),
    {
        proof {
            use_type_invariant(self);
            lemma_entry_in_map(self.pairs(), index as int);
        }
        &self.entries[index].0
    }

    /// The value of the entry at `index`.
    pub fn value_at(&self, index: usize) -> (value: &V)
        requires
            index < self.pairs().len(),
        ensures
            *value == self.pairs()[index as int].1,
            *value == self@[self.pairs()[index as int].0],
    {
        proof {
            use_type_invariant(self);
            lemma_entry_in_map(self.pairs(), index as int);
        }
        &self.entries[index].1
    }

    /// The index of the entry with the key `key`, if there is one.
    pub fn position(&self, key: &str) -> (r: Option<usize>)
        ensures
            r is Some <==> self@.dom().contains(key@),
            r matches Some(i) ==> i < self.pairs().len() && self.pairs()[i as int].0 == key@,
            distinct_keys(self.pairs()),
    {
        proof {
            use_type_invariant(self);
        }
        let wanted = key.to_owned();
        let mut i: usize = 0;
        while i < self.entries.len()
            invariant
                i <= self.entries.len(),
                wanted@ == key@,
                distinct_keys(self.pairs()),
                forall|j: int| 0 <= j < i ==> (#[trigger] self.pairs()[j]).0 != key@,
            decreases self.entries.len() - i,
        {
            if self.entries[i].0 == wanted {
                assert(self.pairs()[i as int].0 == key@);
                return Some(i);
            }
            i += 1;
        }
        assert(!has_key(self.pairs(), key@));
        None
    }

    /// Whether the table has the key `key`.
    pub fn contains_key(&self, key: &str) -> (r: bool)
        ensures
            r == self@.dom().contains(key@),
    {
        self.position(key).is_some()
    }

    /// The value under `key`, if there is one.
    pub fn get(&self, key: &str) -> (r: Option<&V>)
        ensures
            r is Some <==> self@.dom().contains(key@),
            r matches Some(v) ==> *v == self@[key@],
    {
        match self.position(key) {
            Some(i) => {
                proof {
                    lemma_entry_in_map(self.pairs(), i as int);
                }
                Some(&self.entries[i].1)
            },
            None => None,
        }
    }

    /// A copy of this table.
    pub fn duplicate(&self) -> (r: Self) where V: Copy
        ensures
            r.pairs() == self.pairs(),
            r@ == self@,
    {
        proof {
            use_type_invariant(self);
        }
        let mut entries: Vec<(String, V)> = Vec::new();
        let mut i: usize = 0;
        while i < self.entries.len()
            invariant
                i <= self.entries.len(),
                pairs_of(entries@) == pairs_of(self.entries@).take(i as int),
            decreases self.entries.len() - i,
        {
            let key = self.entries[i].0.clone();
            let value = self.entries[i].1;
            let ghost earlier = pairs_of(entries@);
            entries.push((key, value));
            assert(pairs_of(entries@) =~= earlier.push((key@, value)));
            assert(pairs_of(self.entries@)[i as int] == (key@, value));
            assert(pairs_of(entries@) =~= pairs_of(self.entries@).take(i + 1));
            i += 1;
        }
        assert(pairs_of(self.entries@).take(i as int) =~= pairs_of(self.entries@));
        Table { entries }
    }

    /// Puts `value` under `key`, in place of what was there. A new key goes
    /// to the end; a key that is present keeps its place.
    pub fn insert(&mut self, key: String, value: V)
        ensures
            final(self)@ == old(self)@.insert(key@, value),
            old(self)@.dom().contains(key@) ==> final(self).pairs() == old(self).pairs().update(
                index_of(old(self).pairs(), key@),
                (key@, value),
            ),
            !old(self)@.dom().contains(key@) ==> final(self).pairs() == old(self).pairs().push(
                (key@, value),
            ),
            distinct_keys(final(self).pairs()),
    {
        let found = self.position(key.as_str());
        let ghost before = self.pairs();
        let mut entries: Vec<(String, V)> = Vec::new();
        assert(pairs_of(entries@) =~= Seq::<(Seq<char>, V)>::empty());
        core::mem::swap(&mut self.entries, &mut entries);
        match found {
            Some(i) => {
                proof {
                    lemma_entry_in_map(before, i as int);
                    lemma_update_inserts(before, i as int, value);
                    assert(pairs_of(entries@.update(i as int, (key, value))) =~= before.update(
                        i as int,
                        (key@, value),
                    ));
                }
                entries.set(i, (key, value));
            },
            None => {
                proof {
                    lemma_push_inserts(before, key@, value);
                    assert(pairs_of(entries@.push((key, value))) =~= before.push((key@, value)));
                }
                entries.push((key, value));
            },
        }
        core::mem::swap(&mut self.entries, &mut entries);
    }
}

} // verus!
