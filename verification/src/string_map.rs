//! A mapping from strings to strings that remembers the order in which its
//! keys first came.

use crate::text::str_eq;
use vstd::prelude::*;

verus! {

/// The texts of a list of string pairs.
pub open spec fn pair_texts(pairs: Seq<(String, String)>) -> Seq<(Seq<char>, Seq<char>)> {
    Seq::new(pairs.len(), |i: int| (pairs[i].0@, pairs[i].1@))
}

/// The mapping that a list of pairs builds when they are inserted in order:
/// of two pairs with one key, the later one stays.
pub open spec fn map_of(pairs: Seq<(Seq<char>, Seq<char>)>) -> Map<Seq<char>, Seq<char>>
    decreases pairs.len(),
{
    if pairs.len() == 0 {
        Map::empty()
    } else {
        map_of(pairs.drop_last()).insert(pairs.last().0, pairs.last().1)
    }
}

/// No two pairs of the list have the same key.
pub open spec fn distinct_keys(pairs: Seq<(Seq<char>, Seq<char>)>) -> bool {
    forall|i: int, j: int| 0 <= i < j < pairs.len() ==> pairs[i].0 != pairs[j].0
}

/// The keys of `map_of(pairs)` are the keys of the pairs.
pub proof fn lemma_map_of_dom(pairs: Seq<(Seq<char>, Seq<char>)>, key: Seq<char>)
    ensures
        map_of(pairs).dom().contains(key) <==> exists|i: int|
            0 <= i < pairs.len() && pairs[i].0 == key,
    decreases pairs.len(),
{
    if pairs.len() > 0 {
        let front = pairs.drop_last();
        lemma_map_of_dom(front, key);
        if map_of(pairs).dom().contains(key) {
            if pairs.last().0 == key {
                assert(pairs[pairs.len() - 1].0 == key);
            } else {
                let i = choose|i: int| 0 <= i < front.len() && front[i].0 == key;
                assert(pairs[i].0 == key);
            }
        }
        if exists|i: int| 0 <= i < pairs.len() && pairs[i].0 == key {
            let i = choose|i: int| 0 <= i < pairs.len() && pairs[i].0 == key;
            if i < front.len() {
                assert(front[i].0 == key);
            }
        }
    }
}

/// Where keys are distinct, each pair is found in the mapping as it stands
/// in the list.
pub proof fn lemma_map_of_value(pairs: Seq<(Seq<char>, Seq<char>)>, i: int)
    requires
        distinct_keys(pairs),
        0 <= i < pairs.len(),
    ensures
        map_of(pairs).dom().contains(pairs[i].0),
        map_of(pairs)[pairs[i].0] == pairs[i].1,
    decreases pairs.len(),
{
    let front = pairs.drop_last();
    if i < pairs.len() - 1 {
        assert(distinct_keys(front)) by {
            assert forall|a: int, b: int| 0 <= a < b < front.len() implies front[a].0
                != front[b].0 by {
                assert(pairs[a].0 != pairs[b].0);
            }
        }
        lemma_map_of_value(front, i);
        assert(front[i] == pairs[i]);
        assert(pairs[i].0 != pairs[pairs.len() - 1].0);
    }
}

/// Where keys are distinct, the mapping has as many keys as the list has
/// pairs.
pub proof fn lemma_map_of_len(pairs: Seq<(Seq<char>, Seq<char>)>)
    requires
        distinct_keys(pairs),
    ensures
        map_of(pairs).dom().finite(),
        map_of(pairs).dom().len() == pairs.len(),
    decreases pairs.len(),
{
    if pairs.len() > 0 {
        let front = pairs.drop_last();
        assert(distinct_keys(front)) by {
            assert forall|a: int, b: int| 0 <= a < b < front.len() implies front[a].0
                != front[b].0 by {
                assert(pairs[a].0 != pairs[b].0);
            }
        }
        lemma_map_of_len(front);
        lemma_map_of_dom(front, pairs.last().0);
        if map_of(front).dom().contains(pairs.last().0) {
            let i = choose|i: int| 0 <= i < front.len() && front[i].0 == pairs.last().0;
            assert(pairs[i].0 != pairs[pairs.len() - 1].0);
        }
        assert(map_of(pairs).dom() =~= map_of(front).dom().insert(pairs.last().0));
    }
}

/// A finite mapping from strings to strings.
#[derive(Debug)]
pub struct StringMap {
    entries: Vec<(String, String)>,
}

impl View for StringMap {
    type V = Map<Seq<char>, Seq<char>>;

    closed spec fn view(&self) -> Map<Seq<char>, Seq<char>> {
        map_of(pair_texts(self.entries@))
    }
}

impl StringMap {
    /// No key is stored twice.
    #[verifier::type_invariant]
    spec fn no_key_twice(&self) -> bool {
        distinct_keys(pair_texts(self.entries@))
    }

    /// The empty mapping.
    pub fn new() -> (map: StringMap)
        ensures
            map@ == Map::<Seq<char>, Seq<char>>::empty(),
    {
        StringMap { entries: Vec::new() }
    }

    /// Index of the entry for `key`, if there is one.
    fn position(&self, key: &str) -> (at: Option<usize>)
        ensures
            match at {
                Some(i) => i < self.entries@.len() && self.entries@[i as int].0@ == key@,
                None => forall|j: int| 0 <= j < self.entries@.len() ==> self.entries@[j].0@ != key@,
            },
    {
        let mut i: usize = 0;
        while i < self.entries.len()
            invariant
                i <= self.entries@.len(),
                forall|j: int| 0 <= j < i ==> self.entries@[j].0@ != key@,
            decreases self.entries@.len() - i,
        {
            if str_eq(self.entries[i].0.as_str(), key) {
                return Some(i);
            }
            i = i + 1;
        }
        None
    }

    /// The value stored for `key`, if any.
    pub fn get(&self, key: &str) -> (value: Option<&String>)
        ensures
            match value {
                Some(v) => self@.dom().contains(key@) && self@[key@] == v@,
                None => !self@.dom().contains(key@),
            },
    {
        proof {
            use_type_invariant(self);
            lemma_map_of_dom(pair_texts(self.entries@), key@);
        }
        match self.position(key) {
            Some(i) => {
                proof {
                    lemma_map_of_value(pair_texts(self.entries@), i as int);
                }
                Some(&self.entries[i].1)
            },
            None => {
                proof {
                    if self@.dom().contains(key@) {
                        let j = choose|j: int|
                            0 <= j < pair_texts(self.entries@).len() && pair_texts(
                                self.entries@,
                            )[j].0 == key@;
                        assert(self.entries@[j].0@ == key@);
                    }
                }
                None
            },
        }
    }

    /// Stores `value` for `key`, in place of what was stored for it before.
    pub fn insert(&mut self, key: String, value: String)
        ensures
            final(self)@ == old(self)@.insert(key@, value@),
    {
        proof {
            use_type_invariant(&*self);
        }
        let ghost before = pair_texts(self.entries@);
        let found = self.position(key.as_str());
        let mut entries: Vec<(String, String)> = Vec::new();
        core::mem::swap(&mut self.entries, &mut entries);
        match found {
            Some(i) => {
                entries.set(i, (key, value));
                proof {
                    let after = pair_texts(entries@);
                    assert(after == before.update(i as int, (key@, value@)));
                    assert(distinct_keys(after)) by {
                        assert forall|a: int, b: int| 0 <= a < b < after.len() implies after[a].0
                            != after[b].0 by {
                            assert(before[a].0 != before[b].0);
                        }
                    }
                    assert(map_of(after) =~= map_of(before).insert(key@, value@)) by {
                        assert forall|k: Seq<char>|
                            map_of(after).dom().contains(k) <==> map_of(before).insert(
                                key@,
                                value@,
                            ).dom().contains(k) by {
                            lemma_map_of_dom(after, k);
                            lemma_map_of_dom(before, k);
                            if map_of(after).dom().contains(k) {
                                let j = choose|j: int| 0 <= j < after.len() && after[j].0 == k;
                                assert(before[j].0 == k);
                            }
                            if map_of(before).dom().contains(k) {
                                let j = choose|j: int| 0 <= j < before.len() && before[j].0 == k;
                                assert(after[j].0 == k);
                            }
                            if k == key@ {
                                assert(after[i as int].0 == k);
                            }
                        }
                        assert forall|k: Seq<char>| map_of(after).dom().contains(k) implies map_of(
                            after,
                        )[k] == map_of(before).insert(key@, value@)[k] by {
                            lemma_map_of_dom(after, k);
                            let j = choose|j: int| 0 <= j < after.len() && after[j].0 == k;
                            lemma_map_of_value(after, j);
                            lemma_map_of_value(before, j);
                            if j != i {
                                assert(before[j].0 != before[i as int].0);
                            }
                        }
                    }
                }
            },
            None => {
                entries.push((key, value));
                proof {
                    let after = pair_texts(entries@);
                    assert(after == before.push((key@, value@)));
                    assert(after.drop_last() == before);
                    assert(distinct_keys(after)) by {
                        assert forall|a: int, b: int| 0 <= a < b < after.len() implies after[a].0
                            != after[b].0 by {
                            if b < before.len() {
                                assert(before[a].0 != before[b].0);
                            } else {
                                assert(self.entries@.len() == 0);
                                assert(before[a].0 != key@);
                            }
                        }
                    }
                }
            },
        }
        self.entries = entries;
    }

    /// Number of keys.
    pub fn len(&self) -> (n: usize)
        ensures
            n == self@.dom().len(),
            n == self.entries().len(),
    {
        proof {
            use_type_invariant(self);
            lemma_map_of_len(pair_texts(self.entries@));
        }
        self.entries.len()
    }

    /// The stored pairs as a mathematical sequence, in the order in which
    /// their keys first came.
    pub closed spec fn entries(&self) -> Seq<(Seq<char>, Seq<char>)> {
        pair_texts(self.entries@)
    }

    /// The stored pairs, in the order in which their keys first came. Their
    /// keys are distinct, and together they make up the mapping.
    pub fn pairs(&self) -> (pairs: &Vec<(String, String)>)
        ensures
            pair_texts(pairs@) == self.entries(),
            distinct_keys(self.entries()),
            map_of(self.entries()) == self@,
    {
        proof {
            use_type_invariant(self);
        }
        &self.entries
    }

    /// The mapping that the pairs build when they are inserted in order.
    pub fn from_pairs(pairs: &Vec<(String, String)>) -> (map: StringMap)
        ensures
            map@ == map_of(pair_texts(pairs@)),
    {
        let mut map = StringMap::new();
        let mut i: usize = 0;
        while i < pairs.len()
            invariant
                i <= pairs@.len(),
                map@ == map_of(pair_texts(pairs@).take(i as int)),
            decreases pairs@.len() - i,
        {
            proof {
                let next = pair_texts(pairs@).take(i + 1);
                assert(next.drop_last() == pair_texts(pairs@).take(i as int));
                assert(next.last() == (pairs@[i as int].0@, pairs@[i as int].1@));
            }
            map.insert(pairs[i].0.clone(), pairs[i].1.clone());
            i = i + 1;
        }
        proof {
            assert(pair_texts(pairs@).take(pairs@.len() as int) == pair_texts(pairs@));
        }
        map
    }
}

impl Clone for StringMap {
    fn clone(&self) -> (copy: StringMap)
        ensures
            copy@ == self@,
            copy.entries() == self.entries(),
    {
        proof {
            use_type_invariant(self);
        }
        let mut entries: Vec<(String, String)> = Vec::new();
        let mut i: usize = 0;
        while i < self.entries.len()
            invariant
                i <= self.entries@.len(),
                pair_texts(entries@) == pair_texts(self.entries@).take(i as int),
            decreases self.entries@.len() - i,
        {
            let ghost before = pair_texts(entries@);
            entries.push((self.entries[i].0.clone(), self.entries[i].1.clone()));
            proof {
                let e = (self.entries@[i as int].0@, self.entries@[i as int].1@);
                assert(pair_texts(entries@) =~= before.push(e));
                assert(pair_texts(self.entries@).take(i + 1) =~= pair_texts(self.entries@).take(
                    i as int,
                ).push(e));
            }
            i = i + 1;
        }
        proof {
            assert(pair_texts(self.entries@).take(self.entries@.len() as int) == pair_texts(
                self.entries@,
            ));
        }
        StringMap { entries }
    }
}

} // verus!
