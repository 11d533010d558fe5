//! The typed key-value token store.
//!
//! A key type knows how to encode itself to a lookup string and which value
//! type it maps to; a value type knows how to encode itself to a storable
//! string and how to decode one. The store itself is encoding-agnostic: it
//! holds string pairs, keeps at most one value per key, and a `put` with an
//! existing key overwrites rather than duplicates. Its abstract state is the
//! map from key strings to value strings.

use vstd::prelude::*;

use crate::errors::AppError;

verus! {

/// A value storable under a key: it encodes itself to a string, and decodes
/// exactly the strings that `spec_is_valid` accepts. Encoding always yields
/// a decodable string, so a value written through the typed interface is
/// never misread.
pub trait RedisValue: View<V = Seq<char>> + Sized {
    /// The stored strings that decode successfully.
    spec fn spec_is_valid(s: Seq<char>) -> bool;

    /// The storable encoding: the value's own characters.
    fn inner(&self) -> (r: String)
        ensures
            r@ == self@,
            Self::spec_is_valid(self@),
    ;

    /// Decodes a stored string. Absence of meaning is a typed conversion
    /// error, never a panic or a default value.
    fn try_from_stored(s: &str) -> (r: Result<Self, AppError>)
        ensures
            r is Ok <==> Self::spec_is_valid(s@),
            r is Ok ==> r->Ok_0@ == s@,
            r is Err ==> r->Err_0 is ConversionEntityError,
    ;
}

/// A lookup key: it encodes itself to the string the store is addressed by,
/// and declares which value type it maps to.
pub trait RedisKey: View<V = Seq<char>> + Sized {
    type Value: RedisValue;

    /// The lookup encoding: the key's own characters.
    fn inner(&self) -> (r: String)
        ensures
            r@ == self@,
    ;
}

/// The store's abstract state: the map holding, for each key string, the
/// single value string stored under it.
pub closed spec fn map_of(es: Seq<(String, String)>) -> Map<Seq<char>, Seq<char>>
    decreases es.len(),
{
    if es.len() == 0 {
        Map::empty()
    } else {
        map_of(es.drop_last()).insert(es.last().0@, es.last().1@)
    }
}

/// No two entries carry the same key string.
spec fn unique_keys(es: Seq<(String, String)>) -> bool {
    forall|i: int, j: int|
        0 <= i < j < es.len() ==> (#[trigger] es[i].0@) != (#[trigger] es[j].0@)
}

proof fn lemma_map_of_dom(es: Seq<(String, String)>, k: Seq<char>)
    ensures
        map_of(es).contains_key(k) <==> exists|i: int| 0 <= i < es.len() && (#[trigger] es[i].0@) == k,
    decreases es.len(),
{
    if es.len() == 0 {
    } else {
        let dl = es.drop_last();
        lemma_map_of_dom(dl, k);
        if es.last().0@ == k {
            assert(es[es.len() - 1].0@ == k);
        } else {
            if map_of(es).contains_key(k) {
                let i = choose|i: int| 0 <= i < dl.len() && (#[trigger] dl[i].0@) == k;
                assert(es[i].0@ == k);
            }
            if exists|i: int| 0 <= i < es.len() && (#[trigger] es[i].0@) == k {
                let i = choose|i: int| 0 <= i < es.len() && (#[trigger] es[i].0@) == k;
                assert(i < es.len() - 1);
                assert(dl[i].0@ == k);
            }
        }
    }
}

proof fn lemma_map_of_val(es: Seq<(String, String)>, i: int)
    requires
        unique_keys(es),
        0 <= i < es.len(),
    ensures
        map_of(es).contains_key(es[i].0@),
        map_of(es)[es[i].0@] == es[i].1@,
    decreases es.len(),
{
    let dl = es.drop_last();
    if i == es.len() - 1 {
    } else {
        assert(dl[i] == es[i]);
        lemma_map_of_val(dl, i);
        assert(es[i].0@ != es[es.len() - 1].0@);
    }
}

proof fn lemma_map_of_remove(es: Seq<(String, String)>, i: int)
    requires
        unique_keys(es),
        0 <= i < es.len(),
    ensures
        map_of(es.remove(i)) == map_of(es).remove(es[i].0@),
    decreases es.len(),
{
    let k = es[i].0@;
    let dl = es.drop_last();
    if i == es.len() - 1 {
        assert(es.remove(i) =~= dl);
        lemma_map_of_dom(dl, k);
        assert(forall|j: int| 0 <= j < dl.len() ==> (#[trigger] dl[j].0@) == es[j].0@ && es[j].0@ != k);
        assert(!map_of(dl).contains_key(k));
        assert(map_of(dl).insert(k, es.last().1@).remove(k) =~= map_of(dl));
    } else {
        let last = es.last();
        assert(es.remove(i).drop_last() =~= dl.remove(i));
        assert(es.remove(i).last() == last);
        assert(es.remove(i).len() > 0);
        assert(map_of(es.remove(i)) == map_of(dl.remove(i)).insert(last.0@, last.1@));
        assert(dl[i] == es[i]);
        lemma_map_of_remove(dl, i);
        assert(k != last.0@);
        assert(map_of(dl).remove(k).insert(last.0@, last.1@) =~= map_of(dl).insert(
            last.0@,
            last.1@,
        ).remove(k));
    }
}

/// In-memory realization of the string-addressed store: one entry per key.
pub struct KvStore {
    entries: Vec<(String, String)>,
}

impl View for KvStore {
    type V = Map<Seq<char>, Seq<char>>;

    closed spec fn view(&self) -> Map<Seq<char>, Seq<char>> {
        map_of(self.entries@)
    }
}

impl KvStore {
    /// At most one value is associated with a given key at any time.
    #[verifier::type_invariant]
    spec fn wf(self) -> bool {
        unique_keys(self.entries@)
    }

    /// An empty store.
    pub fn new() -> (r: KvStore)
        ensures
            r@ == Map::<Seq<char>, Seq<char>>::empty(),
    {
        KvStore { entries: Vec::new() }
    }

    /// The index of the entry holding `k`, if one does.
    fn find_index(entries: &Vec<(String, String)>, k: &String) -> (r: Option<usize>)
        ensures
            match r {
                Some(i) => i < entries@.len() && entries@[i as int].0@ == k@,
                None => forall|j: int|
                    0 <= j < entries@.len() ==> (#[trigger] entries@[j].0@) != k@,
            },
    {
        let mut i: usize = 0;
        while i < entries.len()
            invariant
                i <= entries@.len(),
                forall|j: int| 0 <= j < i ==> (#[trigger] entries@[j].0@) != k@,
            decreases entries@.len() - i,
        {
            let e = &entries[i];
            if e.0 == *k {
                return Some(i);
            }
            i = i + 1;
        }
        None
    }

    /// Stores `value` under `key`, through their own encodings. A `put`
    /// with an existing key overwrites the value stored there.
    pub fn put<K: RedisKey>(&mut self, key: &K, value: &K::Value)
        ensures
            final(self)@ == old(self)@.insert(key@, value@),
            <K::Value as RedisValue>::spec_is_valid(value@),
    {
        let k = key.inner();
        let v = value.inner();
        self.put_raw(k, v);
    }

    /// Stores a raw string under a raw key string, as the string-addressed
    /// backend itself would; nothing checks that the value decodes.
    pub fn put_raw(&mut self, key: String, value: String)
        ensures
            final(self)@ == old(self)@.insert(key@, value@),
    {
        proof {
            use_type_invariant(&*self);
        }
        let k = key;
        let v = value;
        let mut entries: Vec<(String, String)> = Vec::new();
        std::mem::swap(&mut entries, &mut self.entries);
        let found = Self::find_index(&entries, &k);
        match found {
            Some(i) => {
                proof {
                    lemma_map_of_remove(entries@, i as int);
                }
                entries.remove(i);
                proof {
                    assert forall|a: int, b: int|
                        0 <= a < b < entries@.len() implies (#[trigger] entries@[a].0@) != (
                    #[trigger] entries@[b].0@) by {}
                    lemma_map_of_dom(entries@, k@);
                }
            },
            None => {
                proof {
                    lemma_map_of_dom(entries@, k@);
                    assert(map_of(entries@).remove(k@) =~= map_of(entries@));
                }
            },
        }
        proof {
            assert(forall|j: int|
                0 <= j < entries@.len() ==> (#[trigger] entries@[j].0@) != k@);
            assert(map_of(entries@) =~= old(self)@.remove(key@));
        }
        let ghost pre = entries@;
        entries.push((k, v));
        proof {
            assert(entries@.drop_last() =~= pre);
            assert(entries@.last() == (k, v));
            assert(map_of(entries@) == map_of(pre).insert(k@, v@));
            assert(old(self)@.remove(key@).insert(key@, value@) =~= old(self)@.insert(
                key@,
                value@,
            ));
        }
        self.entries = entries;
    }

    /// Looks the key up and decodes what is stored there. An absent key is
    /// a normal `None`; a stored string the value type cannot decode is a
    /// conversion error, distinguishable from absence.
    pub fn get<K: RedisKey>(&self, key: &K) -> (r: Result<Option<K::Value>, AppError>)
        ensures
            match r {
                Ok(Some(v)) => self@.contains_key(key@)
                    && <K::Value as RedisValue>::spec_is_valid(self@[key@]) && v@ == self@[key@],
                Ok(None) => !self@.contains_key(key@),
                Err(e) => self@.contains_key(key@)
                    && !<K::Value as RedisValue>::spec_is_valid(self@[key@])
                    && e is ConversionEntityError,
            },
    {
        proof {
            use_type_invariant(&*self);
        }
        let k = key.inner();
        let found = Self::find_index(&self.entries, &k);
        match found {
            Some(i) => {
                proof {
                    lemma_map_of_val(self.entries@, i as int);
                }
                let e = &self.entries[i];
                match <K::Value as RedisValue>::try_from_stored(e.1.as_str()) {
                    Ok(v) => Ok(Some(v)),
                    Err(err) => Err(err),
                }
            },
            None => {
                proof {
                    lemma_map_of_dom(self.entries@, k@);
                }
                Ok(None)
            },
        }
    }

    /// Removes whatever is stored under `key`; removing an absent key
    /// changes nothing.
    pub fn delete<K: RedisKey>(&mut self, key: &K)
        ensures
            final(self)@ == old(self)@.remove(key@),
    {
        proof {
            use_type_invariant(&*self);
        }
        let k = key.inner();
        let mut entries: Vec<(String, String)> = Vec::new();
        std::mem::swap(&mut entries, &mut self.entries);
        let found = Self::find_index(&entries, &k);
        match found {
            Some(i) => {
                proof {
                    lemma_map_of_remove(entries@, i as int);
                }
                entries.remove(i);
                proof {
                    assert forall|a: int, b: int|
                        0 <= a < b < entries@.len() implies (#[trigger] entries@[a].0@) != (
                    #[trigger] entries@[b].0@) by {}
                }
            },
            None => {
                proof {
                    lemma_map_of_dom(entries@, k@);
                    assert(map_of(entries@).remove(k@) =~= map_of(entries@));
                }
            },
        }
        self.entries = entries;
    }
}

} // verus!
