//! Sets and maps keyed by ids.
use vstd::prelude::*;
use crate::text::same_str;

verus! {

/// The texts of a row of strings.
pub open spec fn names(ids: Seq<String>) -> Seq<Seq<char>> {
    ids.map_values(|id: String| id@)
}

fn position_of(ids: &Vec<String>, id: &str) -> (at: Option<usize>)
    ensures
        match at {
            Some(i) => i < ids@.len() && names(ids@)[i as int] == id@,
            None => !names(ids@).contains(id@),
        },
{
    let mut i: usize = 0;
    while i < ids.len()
        invariant
            i <= ids@.len(),
            forall|j: int| 0 <= j < i ==> names(ids@)[j] != id@,
        decreases ids.len() - i,
    {
        if same_str(ids[i].as_str(), id) {
            return Some(i);
        }
        i = i + 1;
    }
    None
}

/// A set of ids.
pub struct IdSet {
    ids: Vec<String>,
}

impl View for IdSet {
    type V = Set<Seq<char>>;

    closed spec fn view(&self) -> Set<Seq<char>> {
        names(self.ids@).to_set()
    }
}

impl IdSet {
    /// Each id is held once.
    pub closed spec fn wf(&self) -> bool {
        names(self.ids@).no_duplicates()
    }

    /// The ids, in the order in which [`IdSet::ids`] gives them.
    pub closed spec fn order(&self) -> Seq<Seq<char>> {
        names(self.ids@)
    }

    /// The ids in their order are the ids of the set, each once.
    pub proof fn lemma_order(&self)
        requires
            self.wf(),
        ensures
            self.order().no_duplicates(),
            self.order().to_set() == self@,
    {
    }

    /// The empty set.
    pub fn new() -> (set: IdSet)
        ensures
            set.wf(),
            set@ == Set::<Seq<char>>::empty(),
    {
        let set = IdSet { ids: Vec::new() };
        assert(set@ =~= Set::<Seq<char>>::empty());
        set
    }

    /// Whether an id is in the set.
    pub fn contains(&self, id: &str) -> (yes: bool)
        ensures
            yes == self@.contains(id@),
    {
        match position_of(&self.ids, id) {
            Some(i) => {
                assert(names(self.ids@).contains(names(self.ids@)[i as int]));
                true
            },
            None => false,
        }
    }

    /// Puts an id into the set.
    pub fn insert(&mut self, id: String)
        requires
            old(self).wf(),
        ensures
            final(self).wf(),
            final(self)@ == old(self)@.insert(id@),
    {
        if !self.contains(id.as_str()) {
            let ghost before = names(self.ids@);
            self.ids.push(id);
            let ghost after = names(self.ids@);
            proof {
                assert(after == before.push(id@));
                assert forall|k: Seq<char>| after.contains(k) == (before.contains(k) || k
                    == id@) by {
                    if before.contains(k) {
                        let i = before.index_of(k);
                        assert(after[i] == k);
                    }
                    assert(after[before.len() as int] == id@);
                }
            }
        }
        assert(self@ =~= old(self)@.insert(id@));
    }

    /// Takes an id out of the set.
    pub fn remove(&mut self, id: &str)
        requires
            old(self).wf(),
        ensures
            final(self).wf(),
            final(self)@ == old(self)@.remove(id@),
    {
        match position_of(&self.ids, id) {
            Some(i) => {
                let ghost before = names(self.ids@);
                let _ = self.ids.remove(i);
                proof {
                    lemma_removed(before, i as int);
                    assert(names(self.ids@) == before.remove(i as int));
                }
            },
            None => {},
        }
        assert(self@ =~= old(self)@.remove(id@));
    }

    /// Empties the set.
    pub fn clear(&mut self)
        ensures
            final(self).wf(),
            final(self)@ == Set::<Seq<char>>::empty(),
    {
        self.ids.clear();
        assert(self@ =~= Set::<Seq<char>>::empty());
    }

    /// Whether the set is empty.
    pub fn is_empty(&self) -> (yes: bool)
        ensures
            yes == (self@ == Set::<Seq<char>>::empty()),
    {
        let yes = self.ids.len() == 0;
        proof {
            if yes {
                assert(self@ =~= Set::<Seq<char>>::empty());
            } else {
                assert(names(self.ids@).contains(names(self.ids@)[0]));
                assert(self@.contains(names(self.ids@)[0]));
            }
        }
        yes
    }

    /// The ids in the set, each once.
    pub fn ids(&self) -> (ids: &Vec<String>)
        ensures
            names(ids@) == self.order(),
    {
        &self.ids
    }
}

proof fn lemma_removed(before: Seq<Seq<char>>, i: int)
    requires
        before.no_duplicates(),
        0 <= i < before.len(),
    ensures
        before.remove(i).no_duplicates(),
        forall|k: Seq<char>|
            #[trigger] before.remove(i).contains(k) <==> before.contains(k) && k != before[i],
{
    let after = before.remove(i);
    assert forall|k: Seq<char>| #[trigger] after.contains(k) <==> before.contains(k) && k
        != before[i] by {
        if after.contains(k) {
            let j = after.index_of(k);
            if j < i {
                assert(before[j] == k);
            } else {
                assert(before[j + 1] == k);
            }
        }
        if before.contains(k) && k != before[i] {
            let j = before.index_of(k);
            if j < i {
                assert(after[j] == k);
            } else {
                assert(after[j - 1] == k);
            }
        }
    }
}

/// A map from ids to values.
pub struct IdMap<V> {
    keys: Vec<String>,
    values: Vec<V>,
}

impl<V> View for IdMap<V> {
    type V = Map<Seq<char>, V>;

    closed spec fn view(&self) -> Map<Seq<char>, V> {
        paired(names(self.keys@), self.values@)
    }
}

/// The map that takes each key to the value in the same place.
pub open spec fn paired<V>(keys: Seq<Seq<char>>, values: Seq<V>) -> Map<Seq<char>, V> {
    Map::new(|k: Seq<char>| keys.contains(k), |k: Seq<char>| values[keys.index_of(k)])
}

proof fn lemma_paired<V>(keys: Seq<Seq<char>>, values: Seq<V>, i: int)
    requires
        keys.no_duplicates(),
        keys.len() == values.len(),
        0 <= i < keys.len(),
    ensures
        paired(keys, values).dom().contains(keys[i]),
        paired(keys, values)[keys[i]] == values[i],
{
    assert(keys.contains(keys[i]));
    let j = keys.index_of(keys[i]);
    assert(keys[j] == keys[i]);
}

proof fn lemma_paired_len<V>(keys: Seq<Seq<char>>, values: Seq<V>)
    requires
        keys.no_duplicates(),
    ensures
        paired(keys, values).dom().finite(),
        paired(keys, values).dom().len() == keys.len(),
        paired(keys, values).dom() == keys.to_set(),
{
    keys.unique_seq_to_set();
    assert(paired(keys, values).dom() =~= keys.to_set());
}

impl<V> IdMap<V> {
    /// Each key is held once, next to its value.
    pub closed spec fn wf(&self) -> bool {
        &&& names(self.keys@).no_duplicates()
        &&& self.keys@.len() == self.values@.len()
    }

    /// The keys, in the order in which [`IdMap::keys`] gives them.
    pub closed spec fn key_order(&self) -> Seq<Seq<char>> {
        names(self.keys@)
    }

    /// The keys in their order are the keys of the map, each once.
    pub proof fn lemma_key_order(&self)
        requires
            self.wf(),
        ensures
            self.key_order().no_duplicates(),
            self.key_order().to_set() == self@.dom(),
            self.key_order().len() == self@.dom().len(),
            self@.dom().finite(),
    {
        lemma_paired_len(names(self.keys@), self.values@);
    }

    /// The empty map.
    pub fn new() -> (map: IdMap<V>)
        ensures
            map.wf(),
            map@ == Map::<Seq<char>, V>::empty(),
    {
        let map = IdMap { keys: Vec::new(), values: Vec::new() };
        assert(map@ =~= Map::<Seq<char>, V>::empty());
        map
    }

    /// The number of keys.
    pub fn len(&self) -> (count: usize)
        requires
            self.wf(),
        ensures
            count == self@.dom().len(),
            self@.dom().finite(),
    {
        proof {
            lemma_paired_len(names(self.keys@), self.values@);
        }
        self.keys.len()
    }

    /// The keys, each once.
    pub fn keys(&self) -> (keys: &Vec<String>)
        requires
            self.wf(),
        ensures
            names(keys@) == self.key_order(),
    {
        &self.keys
    }

    /// The values, in the order of the keys.
    pub fn values(&self) -> (values: &Vec<V>)
        requires
            self.wf(),
        ensures
            values@.len() == self.key_order().len(),
            forall|i: int|
                0 <= i < values@.len() ==> #[trigger] values@[i] == self@[self.key_order()[i]],
    {
        proof {
            assert forall|i: int| 0 <= i < self.values@.len() implies #[trigger] self.values@[i]
                == self@[self.key_order()[i]] by {
                lemma_paired(names(self.keys@), self.values@, i);
            }
        }
        &self.values
    }

    /// The value of a key.
    pub fn get(&self, key: &str) -> (value: Option<&V>)
        requires
            self.wf(),
        ensures
            match value {
                Some(value) => self@.dom().contains(key@) && *value == self@[key@],
                None => !self@.dom().contains(key@),
            },
    {
        match position_of(&self.keys, key) {
            Some(i) => {
                proof {
                    lemma_paired(names(self.keys@), self.values@, i as int);
                }
                Some(&self.values[i])
            },
            None => None,
        }
    }

    /// Takes a key out of the map; gives its value.
    pub fn remove(&mut self, key: &str) -> (value: Option<V>)
        requires
            old(self).wf(),
        ensures
            final(self).wf(),
            final(self)@ == old(self)@.remove(key@),
            match value {
                Some(value) => old(self)@.dom().contains(key@) && value == old(self)@[key@],
                None => !old(self)@.dom().contains(key@),
            },
    {
        match position_of(&self.keys, key) {
            Some(i) => {
                let ghost keys = names(self.keys@);
                let ghost values = self.values@;
                let _ = self.keys.remove(i);
                let value = self.values.remove(i);
                proof {
                    let i = i as int;
                    lemma_removed(keys, i);
                    lemma_paired(keys, values, i);
                    assert(names(self.keys@) == keys.remove(i));
                    let left = keys.remove(i);
                    assert(self@ =~= old(self)@.remove(key@)) by {
                        assert forall|k: Seq<char>| left.contains(k) implies #[trigger] self@[k]
                            == old(self)@[k] by {
                            let j = left.index_of(k);
                            lemma_paired(left, self.values@, j);
                            if j < i {
                                assert(keys[j] == k);
                                lemma_paired(keys, values, j);
                            } else {
                                assert(keys[j + 1] == k);
                                lemma_paired(keys, values, j + 1);
                            }
                        }
                    }
                }
                Some(value)
            },
            None => {
                assert(self@ =~= old(self)@.remove(key@));
                None
            },
        }
    }

    /// Puts a key and its value into the map.
    pub fn insert(&mut self, key: String, value: V)
        requires
            old(self).wf(),
        ensures
            final(self).wf(),
            final(self)@ == old(self)@.insert(key@, value),
    {
        let _ = self.remove(key.as_str());
        let ghost keys = names(self.keys@);
        let ghost values = self.values@;
        let ghost before = self@;
        assert(!before.dom().contains(key@));
        assert(!keys.contains(key@));
        self.keys.push(key);
        self.values.push(value);
        proof {
            let all = names(self.keys@);
            assert(all == keys.push(key@));
            assert(all.no_duplicates());
            assert(self@ =~= old(self)@.insert(key@, value)) by {
                assert forall|k: Seq<char>| all.contains(k) == (keys.contains(k) || k == key@) by {
                    if keys.contains(k) {
                        assert(all[keys.index_of(k)] == k);
                    }
                    assert(all[keys.len() as int] == key@);
                }
                assert(self@.dom() =~= before.dom().insert(key@)) by {
                    assert(before == paired(keys, values));
                    assert forall|k: Seq<char>| #[trigger]
                        self@.dom().contains(k) == before.dom().insert(key@).contains(k) by {
                        assert(all.contains(k) == (keys.contains(k) || k == key@));
                    }
                }
                assert(self@.dom() =~= old(self)@.insert(key@, value).dom());
                assert forall|k: Seq<char>| all.contains(k) implies #[trigger] self@[k]
                    == old(self)@.insert(key@, value)[k] by {
                    let j = all.index_of(k);
                    lemma_paired(all, self.values@, j);
                    if j < keys.len() {
                        lemma_paired(keys, values, j);
                        assert(keys[j] == k);
                        assert(keys.contains(k));
                    }
                }
            }
        }
    }

    /// Empties the map; gives its values in the order of the keys.
    pub fn drain(&mut self) -> (values: Vec<V>)
        requires
            old(self).wf(),
        ensures
            final(self).wf(),
            final(self)@ == Map::<Seq<char>, V>::empty(),
            values@.len() == old(self).key_order().len(),
            forall|i: int|
                0 <= i < values@.len() ==> #[trigger] values@[i] == old(self)@[old(
                    self,
                ).key_order()[i]],
    {
        proof {
            assert forall|i: int| 0 <= i < self.values@.len() implies #[trigger] self.values@[i]
                == self@[self.key_order()[i]] by {
                lemma_paired(names(self.keys@), self.values@, i);
            }
        }
        let mut values: Vec<V> = Vec::new();
        values.append(&mut self.values);
        self.keys.clear();
        assert(self@ =~= Map::<Seq<char>, V>::empty());
        values
    }
}

} // verus!
