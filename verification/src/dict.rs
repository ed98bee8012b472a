//! Object maps as rows of entries, each key once.
use vstd::prelude::*;

use crate::text::same_text;
use crate::value::{pair_views, unit, Datum, Dict, Dynamic};

verus! {

/// The first entry with this key is the one at `i`.
pub open spec fn key_at(pairs: Seq<(Seq<char>, Datum)>, key: Seq<char>, i: int) -> bool {
    &&& 0 <= i < pairs.len()
    &&& pairs[i].0 == key
    &&& forall|j: int| 0 <= j < i ==> (#[trigger] pairs[j]).0 != key
}

/// Where a key's entry is, if it has one.
pub open spec fn find_key(pairs: Seq<(Seq<char>, Datum)>, key: Seq<char>) -> Option<int> {
    if exists|i: int| key_at(pairs, key, i) {
        Some(choose|i: int| key_at(pairs, key, i))
    } else {
        None
    }
}

/// The map with a key bound to a value.
pub open spec fn bound(pairs: Seq<(Seq<char>, Datum)>, key: Seq<char>, value: Datum) -> Seq<
    (Seq<char>, Datum),
> {
    match find_key(pairs, key) {
        Some(i) => pairs.update(i, (key, value)),
        None => pairs.push((key, value)),
    }
}

/// Each key stands once.
pub open spec fn keys_once(pairs: Seq<(Seq<char>, Datum)>) -> bool {
    forall|i: int, j: int|
        0 <= i < j < pairs.len() ==> (#[trigger] pairs[i]).0 != (#[trigger] pairs[j]).0
}

pub proof fn find_key_is(pairs: Seq<(Seq<char>, Datum)>, key: Seq<char>, i: int)
    requires
        key_at(pairs, key, i),
    ensures
        find_key(pairs, key) == Some(i),
{
    let k = choose|k: int| key_at(pairs, key, k);
    assert(key_at(pairs, key, k));
    if k < i {
        assert(pairs[k].0 != key);
    } else if i < k {
        assert(pairs[i].0 != key);
    }
}

/// Binding a key keeps each key once.
pub proof fn binding_keeps_keys_once(
    pairs: Seq<(Seq<char>, Datum)>,
    key: Seq<char>,
    value: Datum,
)
    requires
        keys_once(pairs),
    ensures
        keys_once(bound(pairs, key, value)),
{
    let after = bound(pairs, key, value);
    match find_key(pairs, key) {
        Some(i) => {
            assert(key_at(pairs, key, i));
            assert forall|a: int, b: int| 0 <= a < b < after.len() implies (#[trigger] after[a]).0
                != (#[trigger] after[b]).0 by {
                assert(pairs[a].0 != pairs[b].0);
                assert(after[a].0 == pairs[a].0);
                assert(after[b].0 == pairs[b].0);
            }
        },
        None => {
            assert forall|j: int| 0 <= j < pairs.len() implies (#[trigger] pairs[j]).0 != key by {
                if pairs[j].0 == key {
                    first_of(pairs, key, j);
                }
            }
        },
    }
}

/// Where a key stands at all, it has a first entry.
pub proof fn first_of(pairs: Seq<(Seq<char>, Datum)>, key: Seq<char>, j: int)
    requires
        0 <= j < pairs.len(),
        pairs[j].0 == key,
    ensures
        exists|i: int| key_at(pairs, key, i),
    decreases j,
{
    if exists|k: int| 0 <= k < j && (#[trigger] pairs[k]).0 == key {
        let k = choose|k: int| 0 <= k < j && (#[trigger] pairs[k]).0 == key;
        first_of(pairs, key, k);
    } else {
        assert(key_at(pairs, key, j));
    }
}

/// Reading a key just bound gives the value bound to it, and binding it leaves
/// every other key's value alone.
pub proof fn bound_then_found(
    pairs: Seq<(Seq<char>, Datum)>,
    key: Seq<char>,
    value: Datum,
    other: Seq<char>,
)
    requires
        other != key,
    ensures
        find_key(bound(pairs, key, value), key) matches Some(i) && bound(pairs, key, value)[i].1
            == value,
        find_key(pairs, other) matches Some(i) ==> find_key(bound(pairs, key, value), other)
            == Some(i) && bound(pairs, key, value)[i] == pairs[i],
        find_key(pairs, other) is None ==> find_key(bound(pairs, key, value), other) is None,
{
    let after = bound(pairs, key, value);
    match find_key(pairs, key) {
        Some(i) => {
            assert(key_at(pairs, key, i));
            assert(key_at(after, key, i));
            find_key_is(after, key, i);
        },
        None => {
            let i = pairs.len() as int;
            assert forall|j: int| 0 <= j < i implies (#[trigger] after[j]).0 != key by {
                if pairs[j].0 == key {
                    first_of(pairs, key, j);
                }
            }
            assert(key_at(after, key, i));
            find_key_is(after, key, i);
        },
    }
    match find_key(pairs, other) {
        Some(i) => {
            assert(key_at(pairs, other, i));
            assert(key_at(after, other, i));
            find_key_is(after, other, i);
        },
        None => {
            if exists|i: int| key_at(after, other, i) {
                let i = choose|i: int| key_at(after, other, i);
                assert(pairs[i].0 == other);
                first_of(pairs, other, i);
            }
        },
    }
}

/// Every pair of a row bound, in order.
pub open spec fn all_bound(
    pairs: Seq<(Seq<char>, Datum)>,
    more: Seq<(Seq<char>, Datum)>,
) -> Seq<(Seq<char>, Datum)>
    decreases more.len(),
{
    if more.len() == 0 {
        pairs
    } else {
        bound(all_bound(pairs, more.drop_last()), more.last().0, more.last().1)
    }
}

/// Find a key's entry.
pub fn find(pairs: &Vec<(String, Dynamic)>, key: &str) -> (at: Option<usize>)
    ensures
        match at {
            Some(i) => i < pairs@.len() && find_key(pair_views(pairs@), key@) == Some(i as int),
            None => find_key(pair_views(pairs@), key@) is None,
        },
{
    let ghost seen = pair_views(pairs@);
    let mut i: usize = 0;
    while i < pairs.len()
        invariant
            i <= pairs@.len(),
            seen == pair_views(pairs@),
            forall|j: int| 0 <= j < i ==> (#[trigger] seen[j]).0 != key@,
        decreases pairs@.len() - i,
    {
        if same_text(pairs[i].0.as_str(), key) {
            proof {
                assert(seen[i as int].0 == key@);
                find_key_is(seen, key@, i as int);
            }
            return Some(i);
        }
        assert(seen[i as int].0 != key@);
        i = i + 1;
    }
    None
}

impl Dict {
    /// A map with nothing in it.
    pub fn new() -> (dict: Dict)
        ensures
            dict@ == Seq::<(Seq<char>, Datum)>::empty(),
    {
        let dict = Dict { pairs: Vec::new() };
        assert(dict@ =~= Seq::empty());
        dict
    }

    /// A map with these entries bound in order.
    pub fn of(pairs: Vec<(String, Dynamic)>) -> (dict: Dict)
        ensures
            dict@ == all_bound(Seq::empty(), pair_views(pairs@)),
            keys_once(dict@),
    {
        let mut dict = Dict::new();
        dict.bind_all(pairs);
        dict.keys_stand_once();
        dict
    }

    /// The entries.
    pub fn pairs(&self) -> (pairs: &Vec<(String, Dynamic)>)
        ensures
            pair_views(pairs@) == self@,
            keys_once(self@),
    {
        self.keys_stand_once();
        &self.pairs
    }

    /// Each key of a map stands once, whatever was done to the map.
    fn keys_stand_once(&self)
        ensures
            keys_once(self@),
    {
        proof {
            use_type_invariant(self);
            assert forall|i: int, j: int| 0 <= i < j < self@.len() implies (#[trigger] self@[i]).0
                != (#[trigger] self@[j]).0 by {
                assert(self.pairs@[i].0@ != self.pairs@[j].0@);
            }
        }
    }

    /// Find a key's entry.
    pub fn find(&self, key: &str) -> (at: Option<usize>)
        ensures
            match at {
                Some(i) => i < self@.len() && find_key(self@, key@) == Some(i as int)
                    && self@[i as int].0 == key@,
                None => find_key(self@, key@) is None,
            },
    {
        let at = find(&self.pairs, key);
        proof {
            if at is Some {
                assert(key_at(self@, key@, find_key(self@, key@)->0));
            }
        }
        at
    }

    /// The value of an entry.
    pub fn get(&self, i: usize) -> (value: &Dynamic)
        requires
            i < self@.len(),
        ensures
            value@ == self@[i as int].1,
    {
        &self.pairs[i].1
    }

    /// Move the value of an entry out, leaving unit behind.
    pub fn take(&mut self, i: usize) -> (value: Dynamic)
        requires
            i < old(self)@.len(),
        ensures
            value@ == old(self)@[i as int].1,
            final(self)@ == old(self)@.update(i as int, (old(self)@[i as int].0, unit())),
    {
        let mut value = Dynamic::unit();
        self.swap(i, &mut value);
        value
    }

    /// Replace the value of an entry.
    pub fn put(&mut self, i: usize, value: Dynamic)
        requires
            i < old(self)@.len(),
        ensures
            final(self)@ == old(self)@.update(i as int, (old(self)@[i as int].0, value@)),
    {
        let mut value = value;
        self.swap(i, &mut value);
    }

    fn swap(&mut self, i: usize, value: &mut Dynamic)
        requires
            i < old(self)@.len(),
        ensures
            final(value)@ == old(self)@[i as int].1,
            final(self)@ == old(self)@.update(i as int, (old(self)@[i as int].0, old(value)@)),
    {
        let ghost before = *self;
        let mut pairs = self.take_pairs();
        core::mem::swap(&mut pairs[i].1, value);
        *self = Dict { pairs };
        assert(self@ =~= before@.update(i as int, (before@[i as int].0, old(value)@)));
    }

    /// Bind a key to a value.
    pub fn insert(&mut self, key: &str, value: Dynamic)
        ensures
            final(self)@ == bound(old(self)@, key@, value@),
    {
        match self.find(key) {
            Some(i) => {
                self.put(i, value);
            },
            None => {
                let ghost before = *self;
                let mut pairs = self.take_pairs();
                proof {
                    assert forall|j: int| 0 <= j < before.pairs@.len() implies (
                    #[trigger] before.pairs@[j]).0@ != key@ by {
                        if before.pairs@[j].0@ == key@ {
                            assert(before@[j].0 == key@);
                            first_of(before@, key@, j);
                        }
                    }
                }
                pairs.push((key.to_owned(), value));
                *self = Dict { pairs };
                assert(self@ =~= before@.push((key@, value@)));
            },
        }
    }

    /// Bind every entry of another map.
    pub fn insert_all(&mut self, more: Dict)
        ensures
            final(self)@ == all_bound(old(self)@, more@),
    {
        self.bind_all(more.pairs);
    }

    fn bind_all(&mut self, more: Vec<(String, Dynamic)>)
        ensures
            final(self)@ == all_bound(old(self)@, pair_views(more@)),
    {
        let ghost whole = pair_views(more@);
        let mut more = more;
        let len: usize = more.len();
        let mut i: usize = 0;
        while i < len
            invariant
                i <= len,
                len == more@.len(),
                whole.len() == len,
                forall|j: int|
                    i <= j < len ==> (#[trigger] more@[j]).0@ == whole[j].0
                        && more@[j].1@ == whole[j].1,
                self@ == all_bound(old(self)@, whole.subrange(0, i as int)),
            decreases len - i,
        {
            let mut entry = (String::new(), Dynamic::unit());
            more.set_and_swap(i, &mut entry);
            assert(whole.subrange(0, i + 1).drop_last() =~= whole.subrange(0, i as int));
            assert(whole.subrange(0, i + 1).last() == whole[i as int]);
            self.insert(entry.0.as_str(), entry.1);
            i = i + 1;
        }
        assert(whole.subrange(0, len as int) =~= whole);
    }
}

} // verus!
