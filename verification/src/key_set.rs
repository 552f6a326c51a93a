//! A set of opaque strings, such as the API keys a gateway accepts.

use crate::text::{str_eq, texts};
use vstd::prelude::*;

verus! {

/// A finite set of strings. Membership is by exact text: nothing is trimmed
/// and case matters.
#[derive(Debug)]
pub struct KeySet {
    items: Vec<String>,
}

impl View for KeySet {
    type V = Set<Seq<char>>;

    closed spec fn view(&self) -> Set<Seq<char>> {
        texts(self.items@).to_set()
    }
}

impl KeySet {
    /// No text is stored twice.
    #[verifier::type_invariant]
    spec fn no_key_twice(&self) -> bool {
        texts(self.items@).no_duplicates()
    }

    /// The empty set.
    pub fn new() -> (set: KeySet)
        ensures
            set@ == Set::<Seq<char>>::empty(),
    {
        let set = KeySet { items: Vec::new() };
        assert(set@ =~= Set::<Seq<char>>::empty());
        set
    }

    /// Tells whether `key` is a member.
    pub fn contains(&self, key: &str) -> (found: bool)
        ensures
            found == self@.contains(key@),
    {
        let mut i: usize = 0;
        while i < self.items.len()
            invariant
                i <= self.items@.len(),
                forall|j: int| 0 <= j < i ==> texts(self.items@)[j] != key@,
            decreases self.items@.len() - i,
        {
            if str_eq(self.items[i].as_str(), key) {
                assert(texts(self.items@)[i as int] == key@);
                return true;
            }
            i = i + 1;
        }
        false
    }

    /// Adds `key`; a key that is already a member is not stored again.
    pub fn insert(&mut self, key: String)
        ensures
            final(self)@ == old(self)@.insert(key@),
    {
        proof {
            use_type_invariant(&*self);
        }
        if !self.contains(key.as_str()) {
            let ghost before = texts(self.items@);
            let mut items: Vec<String> = Vec::new();
            core::mem::swap(&mut self.items, &mut items);
            items.push(key);
            proof {
                assert(texts(items@) == before.push(key@));
            }
            self.items = items;
            proof {
                let after = texts(self.items@);
                assert(after == before.push(key@));
                assert(after.to_set() =~= before.to_set().insert(key@)) by {
                    assert forall|k: Seq<char>| after.contains(k) <==> (before.contains(k) || k
                        == key@) by {
                        if after.contains(k) {
                            let i = choose|i: int| 0 <= i < after.len() && after[i] == k;
                            if i < before.len() {
                                assert(before[i] == k);
                            }
                        }
                        if before.contains(k) {
                            let i = choose|i: int| 0 <= i < before.len() && before[i] == k;
                            assert(after[i] == k);
                        }
                        if k == key@ {
                            assert(after[before.len() as int] == k);
                        }
                    }
                }
            }
        } else {
            assert(self@.insert(key@) =~= self@);
        }
    }

    /// Number of members.
    pub fn len(&self) -> (n: usize)
        ensures
            self@.finite(),
            n == self@.len(),
    {
        proof {
            use_type_invariant(self);
            vstd::seq_lib::seq_to_set_is_finite(texts(self.items@));
            texts(self.items@).unique_seq_to_set();
        }
        self.items.len()
    }

    /// Tells whether the set has no member.
    pub fn is_empty(&self) -> (empty: bool)
        ensures
            empty == (self@ == Set::<Seq<char>>::empty()),
    {
        proof {
            if self.items@.len() > 0 {
                assert(texts(self.items@)[0] == self.items@[0]@);
                assert(self@.contains(self.items@[0]@));
            } else {
                assert(self@ =~= Set::<Seq<char>>::empty());
            }
        }
        self.items.len() == 0
    }

    /// The members, each once, in the order in which they were added.
    pub fn keys(&self) -> (keys: &Vec<String>)
        ensures
            texts(keys@).to_set() == self@,
            texts(keys@).no_duplicates(),
    {
        proof {
            use_type_invariant(self);
        }
        &self.items
    }

    /// The set of the texts of `keys`.
    pub fn from_keys(keys: Vec<String>) -> (set: KeySet)
        ensures
            set@ == texts(keys@).to_set(),
    {
        let mut set = KeySet::new();
        let ghost all = texts(keys@);
        let mut keys = keys;
        // Keys are moved out from the back: the order of insertion does not
        // matter to a set.
        while keys.len() > 0
            invariant
                keys@.len() <= all.len(),
                texts(keys@) == all.take(keys@.len() as int),
                forall|k: Seq<char>|
                    set@.contains(k) <==> exists|i: int|
                        keys@.len() <= i < all.len() && all[i] == k,
            decreases keys@.len(),
        {
            let ghost n = keys@.len();
            let ghost before = set@;
            let ghost prev = texts(keys@);
            let key = keys.pop().unwrap();
            proof {
                assert(texts(keys@) =~= all.take(keys@.len() as int)) by {
                    assert forall|i: int| 0 <= i < keys@.len() implies texts(keys@)[i]
                        == all.take(keys@.len() as int)[i] by {
                        assert(prev[i] == all.take(n as int)[i]);
                    }
                }
                assert(key@ == all[n - 1]) by {
                    assert(prev[n - 1] == all.take(n as int)[n - 1]);
                }
            }
            set.insert(key);
            proof {
                assert forall|k: Seq<char>|
                    set@.contains(k) <==> exists|i: int|
                        keys@.len() <= i < all.len() && all[i] == k by {
                    if set@.contains(k) {
                        if before.contains(k) {
                            let i = choose|i: int| n <= i < all.len() && all[i] == k;
                            assert(keys@.len() <= i < all.len() && all[i] == k);
                        } else {
                            assert(all[n - 1] == k);
                        }
                    }
                    if exists|i: int| keys@.len() <= i < all.len() && all[i] == k {
                        let i = choose|i: int| keys@.len() <= i < all.len() && all[i] == k;
                        if i >= n {
                            assert(before.contains(k));
                        }
                    }
                }
            }
        }
        proof {
            assert(set@ =~= all.to_set()) by {
                assert forall|k: Seq<char>| set@.contains(k) <==> all.contains(k) by {
                    if set@.contains(k) {
                        let i = choose|i: int| 0 <= i < all.len() && all[i] == k;
                    }
                    if all.contains(k) {
                        let i = choose|i: int| 0 <= i < all.len() && all[i] == k;
                        assert(keys@.len() <= i < all.len() && all[i] == k);
                    }
                }
            }
        }
        set
    }
}

impl Clone for KeySet {
    fn clone(&self) -> (copy: KeySet)
        ensures
            copy@ == self@,
    {
        proof {
            use_type_invariant(self);
        }
        let mut items: Vec<String> = Vec::new();
        let mut i: usize = 0;
        while i < self.items.len()
            invariant
                i <= self.items@.len(),
                texts(items@) == texts(self.items@).take(i as int),
            decreases self.items@.len() - i,
        {
            let ghost before = texts(items@);
            items.push(self.items[i].clone());
            proof {
                assert(texts(items@) =~= before.push(self.items@[i as int]@));
                assert(texts(self.items@).take(i + 1) =~= texts(self.items@).take(i as int).push(
                    self.items@[i as int]@,
                ));
            }
            i = i + 1;
        }
        proof {
            assert(texts(self.items@).take(self.items@.len() as int) == texts(self.items@));
        }
        KeySet { items }
    }
}

} // verus!
