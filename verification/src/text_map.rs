//! A small map from texts to texts.
//!
//! It stands where a hash map keyed by strings would: its value is a `Map`
//! of character sequences, and nothing depends on an order of iteration.

use crate::seqs::{any_where, first_where, lemma_any_where, lemma_first_where, lemma_first_where_is};
use crate::text::same_text;
use vstd::prelude::*;

verus! {

/// Pairs whose key is `key`.
pub open spec fn key_is(key: Seq<char>) -> spec_fn((Seq<char>, Seq<char>)) -> bool {
    |pair: (Seq<char>, Seq<char>)| pair.0 == key
}

/// The map that a list of pairs stands for: each key is bound to the value
/// of its first pair.
pub open spec fn map_of(pairs: Seq<(Seq<char>, Seq<char>)>) -> Map<Seq<char>, Seq<char>> {
    Map::new(
        |key: Seq<char>| any_where(pairs, key_is(key)),
        |key: Seq<char>| pairs[first_where(pairs, key_is(key))].1,
    )
}

/// The pairs of texts that pairs of strings stand for.
pub open spec fn pairs_of(pairs: Seq<(String, String)>) -> Seq<(Seq<char>, Seq<char>)> {
    Seq::new(pairs.len(), |i: int| (pairs[i].0@, pairs[i].1@))
}

/// No key stands in two pairs.
pub open spec fn distinct_keys(pairs: Seq<(Seq<char>, Seq<char>)>) -> bool {
    forall|i: int, j: int|
        0 <= i < j < pairs.len() ==> (#[trigger] pairs[i]).0 != (#[trigger] pairs[j]).0
}

/// A map from texts to texts.
#[derive(Debug)]
pub struct TextMap {
    entries: Vec<(String, String)>,
}

impl View for TextMap {
    type V = Map<Seq<char>, Seq<char>>;

    closed spec fn view(&self) -> Map<Seq<char>, Seq<char>> {
        map_of(self.pairs())
    }
}

proof fn lemma_map_of_update(pairs: Seq<(Seq<char>, Seq<char>)>, at: int, value: Seq<char>)
    requires
        0 <= at < pairs.len(),
        distinct_keys(pairs),
    ensures
        map_of(pairs.update(at, (pairs[at].0, value))) == map_of(pairs).insert(pairs[at].0, value),
        distinct_keys(pairs.update(at, (pairs[at].0, value))),
{
    let key = pairs[at].0;
    let after = pairs.update(at, (key, value));
    assert forall|k: Seq<char>|
        (#[trigger] any_where(after, key_is(k))) == map_of(pairs).insert(key, value).dom().contains(
            k,
        ) && (any_where(after, key_is(k)) ==> after[first_where(after, key_is(k))].1 == map_of(
            pairs,
        ).insert(key, value)[k]) by {
        let p = key_is(k);
        lemma_first_where(pairs, p);
        lemma_first_where(after, p);
        let a = first_where(pairs, p);
        assert forall|j: int| 0 <= j < a implies !p(#[trigger] after[j]) by {
            assert(!p(pairs[j]));
        }
        if a < pairs.len() {
            assert(p(after[a]));
        }
        lemma_first_where_is(after, p, a);
        if k == key {
            assert(p(pairs[at]));
            lemma_any_where(pairs, p);
            if a != at {
                assert(pairs[a].0 == pairs[at].0);
            }
        } else if a < pairs.len() {
            assert(a != at);
        }
    }
    assert(map_of(after) =~= map_of(pairs).insert(key, value));
}

proof fn lemma_map_of_push(pairs: Seq<(Seq<char>, Seq<char>)>, key: Seq<char>, value: Seq<char>)
    requires
        distinct_keys(pairs),
        !any_where(pairs, key_is(key)),
    ensures
        map_of(pairs.push((key, value))) == map_of(pairs).insert(key, value),
        distinct_keys(pairs.push((key, value))),
{
    let after = pairs.push((key, value));
    lemma_first_where(pairs, key_is(key));
    assert forall|k: Seq<char>|
        (#[trigger] any_where(after, key_is(k))) == map_of(pairs).insert(key, value).dom().contains(
            k,
        ) && (any_where(after, key_is(k)) ==> after[first_where(after, key_is(k))].1 == map_of(
            pairs,
        ).insert(key, value)[k]) by {
        let p = key_is(k);
        lemma_first_where(pairs, p);
        let a = first_where(pairs, p);
        assert forall|j: int| 0 <= j < a implies !p(#[trigger] after[j]) by {
            assert(!p(pairs[j]));
        }
        if a < pairs.len() {
            assert(after[a] == pairs[a]);
            lemma_first_where_is(after, p, a);
        } else if k == key {
            assert(p(after[a]));
            lemma_first_where_is(after, p, a);
        } else {
            lemma_first_where_is(after, p, a + 1);
        }
    }
    assert(map_of(after) =~= map_of(pairs).insert(key, value));
    assert forall|i: int, j: int| 0 <= i < j < after.len() implies (#[trigger] after[i]).0 != (
    #[trigger] after[j]).0 by {
        assert(after[i] == pairs[i]);
        if j == pairs.len() {
            assert(!key_is(key)(pairs[i]));
        } else {
            assert(after[j] == pairs[j]);
        }
    }
}

impl TextMap {
    /// The pairs behind the map.
    pub closed spec fn pairs(&self) -> Seq<(Seq<char>, Seq<char>)> {
        Seq::new(self.entries.len() as nat, |i: int| (self.entries[i].0@, self.entries[i].1@))
    }

    #[verifier::type_invariant]
    spec fn distinct(self) -> bool {
        distinct_keys(self.pairs())
    }

    /// The empty map.
    pub fn new() -> (map: Self)
        ensures
            map@ == Map::<Seq<char>, Seq<char>>::empty(),
    {
        let map = TextMap { entries: Vec::new() };
        proof {
            assert forall|k: Seq<char>| !(#[trigger] any_where(map.pairs(), key_is(k))) by {
                lemma_first_where(map.pairs(), key_is(k));
            }
            assert(map@ =~= Map::<Seq<char>, Seq<char>>::empty());
        }
        map
    }

    fn position(&self, key: &str) -> (found: Option<usize>)
        ensures
            match found {
                Some(i) => i < self.pairs().len() && i == first_where(self.pairs(), key_is(key@)),
                None => !any_where(self.pairs(), key_is(key@)),
            },
    {
        let ghost p = key_is(key@);
        let mut i: usize = 0;
        while i < self.entries.len()
            invariant
                i <= self.entries.len(),
                p == key_is(key@),
                forall|j: int| 0 <= j < i ==> !p(#[trigger] self.pairs()[j]),
            decreases self.entries.len() - i,
        {
            if same_text(self.entries[i].0.as_str(), key) {
                proof {
                    assert(p(self.pairs()[i as int]));
                    lemma_first_where_is(self.pairs(), p, i as int);
                }
                return Some(i);
            }
            i += 1;
        }
        proof {
            lemma_first_where_is(self.pairs(), p, self.entries.len() as int);
        }
        None
    }

    /// Whether `key` is bound.
    pub fn contains_key(&self, key: &str) -> (found: bool)
        ensures
            found == self@.dom().contains(key@),
    {
        self.position(key).is_some()
    }

    /// The value bound to `key`.
    pub fn get(&self, key: &str) -> (found: Option<&String>)
        ensures
            match found {
                Some(value) => self@.dom().contains(key@) && value@ == self@[key@],
                None => !self@.dom().contains(key@),
            },
    {
        match self.position(key) {
            Some(i) => Some(&self.entries[i].1),
            None => None,
        }
    }

    /// Whether nothing is bound.
    pub fn is_empty(&self) -> (empty: bool)
        ensures
            empty == (self@ == Map::<Seq<char>, Seq<char>>::empty()),
    {
        proof {
            if self.entries.len() > 0 {
                let k = self.pairs()[0].0;
                assert(key_is(k)(self.pairs()[0]));
                lemma_any_where(self.pairs(), key_is(k));
                assert(self@.dom().contains(k));
            } else {
                assert forall|k: Seq<char>| !(#[trigger] any_where(self.pairs(), key_is(k))) by {
                    lemma_first_where(self.pairs(), key_is(k));
                }
                assert(self@ =~= Map::<Seq<char>, Seq<char>>::empty());
            }
        }
        self.entries.len() == 0
    }

    /// Binds `key` to `value`, in place of what it was bound to.
    pub fn insert(&mut self, key: String, value: String)
        ensures
            final(self)@ == old(self)@.insert(key@, value@),
    {
        proof {
            use_type_invariant(&*self);
        }
        let ghost before = self.pairs();
        let ghost k = key@;
        let ghost v = value@;
        let found = self.position(key.as_str());
        let mut entries: Vec<(String, String)> = Vec::new();
        core::mem::swap(&mut self.entries, &mut entries);
        assert(self.pairs() =~= Seq::<(Seq<char>, Seq<char>)>::empty());
        match found {
            Some(at) => {
                proof {
                    lemma_first_where(before, key_is(k));
                    lemma_map_of_update(before, at as int, v);
                }
                entries[at] = (key, value);
            },
            None => {
                proof {
                    lemma_map_of_push(before, k, v);
                }
                entries.push((key, value));
            },
        }
        let ghost after = Seq::new(entries.len() as nat, |i: int| (entries[i].0@, entries[i].1@));
        proof {
            if found is Some {
                assert(after =~= before.update(found->0 as int, (before[found->0 as int].0, v)));
            } else {
                assert(after =~= before.push((k, v)));
            }
        }
        core::mem::swap(&mut self.entries, &mut entries);
        assert(self.pairs() =~= after);
    }

    /// The bindings as pairs of key and value, no key twice.
    pub fn entries(&self) -> (pairs: Vec<(String, String)>)
        ensures
            distinct_keys(pairs_of(pairs@)),
            map_of(pairs_of(pairs@)) == self@,
    {
        proof {
            use_type_invariant(self);
        }
        let mut pairs: Vec<(String, String)> = Vec::new();
        let mut i: usize = 0;
        while i < self.entries.len()
            invariant
                i <= self.entries.len(),
                pairs.len() == i,
                forall|j: int|
                    0 <= j < i ==> (#[trigger] pairs@[j]).0@ == self.entries[j].0@ && pairs@[j].1@
                        == self.entries[j].1@,
            decreases self.entries.len() - i,
        {
            pairs.push((self.entries[i].0.clone(), self.entries[i].1.clone()));
            i += 1;
        }
        assert(pairs_of(pairs@) =~= self.pairs());
        pairs
    }

    /// Takes over every binding of `other`, in place of what its keys were
    /// bound to here.
    pub fn extend(&mut self, other: &TextMap)
        ensures
            final(self)@ == old(self)@.union_prefer_right(other@),
    {
        proof {
            use_type_invariant(other);
        }
        let ghost theirs = other.pairs();
        let ghost before = self@;
        let mut i: usize = 0;
        proof {
            assert forall|k: Seq<char>| !(#[trigger] any_where(theirs.take(0), key_is(k))) by {
                lemma_first_where(theirs.take(0), key_is(k));
            }
            assert(before.union_prefer_right(map_of(theirs.take(0))) =~= before);
        }
        while i < other.entries.len()
            invariant
                i <= other.entries.len(),
                theirs == other.pairs(),
                distinct_keys(theirs),
                self@ == before.union_prefer_right(map_of(theirs.take(i as int))),
            decreases other.entries.len() - i,
        {
            proof {
                let done = theirs.take(i as int);
                let pair = theirs[i as int];
                assert(theirs.take(i as int + 1) =~= done.push(pair));
                assert forall|a: int, b: int| 0 <= a < b < done.len() implies (
                #[trigger] done[a]).0 != (#[trigger] done[b]).0 by {
                    assert(done[a] == theirs[a] && done[b] == theirs[b]);
                }
                assert forall|j: int| 0 <= j < done.len() implies !key_is(pair.0)(
                    #[trigger] done[j],
                ) by {
                    assert(done[j] == theirs[j]);
                }
                lemma_first_where_is(done, key_is(pair.0), done.len() as int);
                lemma_map_of_push(done, pair.0, pair.1);
                assert(before.union_prefer_right(map_of(done)).insert(pair.0, pair.1)
                    =~= before.union_prefer_right(map_of(done).insert(pair.0, pair.1)));
            }
            self.insert(other.entries[i].0.clone(), other.entries[i].1.clone());
            i += 1;
        }
        assert(theirs.take(other.entries.len() as int) =~= theirs);
    }

    /// Unbinds every key.
    pub fn clear(&mut self)
        ensures
            final(self)@ == Map::<Seq<char>, Seq<char>>::empty(),
    {
        let mut entries: Vec<(String, String)> = Vec::new();
        core::mem::swap(&mut self.entries, &mut entries);
        proof {
            assert forall|k: Seq<char>| !(#[trigger] any_where(self.pairs(), key_is(k))) by {
                lemma_first_where(self.pairs(), key_is(k));
            }
            assert(self@ =~= Map::<Seq<char>, Seq<char>>::empty());
        }
    }
}

} // verus!
