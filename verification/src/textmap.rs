//! A map from text to values that keeps its keys in dictionary order.
use crate::text;
use crate::text::comes_before;
use vstd::prelude::*;

verus! {

/// Whether `keys` is in strictly ascending dictionary order.
pub open spec fn ascending(keys: Seq<Seq<char>>) -> bool {
    forall|i: int, j: int| 0 <= i < j < keys.len() ==> text::text_lt(#[trigger] keys[i], #[trigger] keys[j])
}

/// The map that pairs `keys[i]` with `vals[i]`.
pub open spec fn paired<V>(keys: Seq<Seq<char>>, vals: Seq<V>) -> Map<Seq<char>, V> {
    Map::new(|k: Seq<char>| keys.contains(k), |k: Seq<char>| vals[keys.index_of(k)])
}

/// An ordered map with text keys. Its view is a `Map`; `keys` lists the keys in
/// dictionary order.
#[derive(Debug, PartialEq, Eq)]
pub struct TextMap<V> {
    table: Table<V>,
}

/// The keys and, at the same places, their values.
#[derive(Debug, PartialEq, Eq)]
struct Table<V> {
    names: Vec<String>,
    vals: Vec<V>,
}

impl<V> View for TextMap<V> {
    type V = Map<Seq<char>, V>;

    closed spec fn view(&self) -> Map<Seq<char>, V> {
        paired(self.table.names.deep_view(), self.table.vals@)
    }
}

/// A key of an ascending list stands at one place only.
proof fn lemma_index_of(keys: Seq<Seq<char>>, i: int)
    requires
        ascending(keys),
        0 <= i < keys.len(),
    ensures
        keys.index_of(keys[i]) == i,
        keys.contains(keys[i]),
{
    let j = keys.index_of(keys[i]);
    assert(keys.contains(keys[i]));
    assert(0 <= j < keys.len() && keys[j] == keys[i]);
    if i < j || j < i {
        text::lemma_text_lt_irreflexive(keys[i]);
    }
}

impl<V> TextMap<V> {
    #[verifier::type_invariant]
    spec fn inv(self) -> bool {
        &&& self.table.names@.len() == self.table.vals@.len()
        &&& ascending(self.table.names.deep_view())
    }

    /// The keys in dictionary order.
    pub closed spec fn keys(&self) -> Seq<Seq<char>> {
        self.table.names.deep_view()
    }

    /// The empty map.
    pub fn new() -> (res: Self)
        ensures
            res@ == Map::<Seq<char>, V>::empty(),
            res.keys() == Seq::<Seq<char>>::empty(),
    {
        let res = TextMap { table: Table { names: Vec::new(), vals: Vec::new() } };
        assert(res.table.names.deep_view() =~= Seq::<Seq<char>>::empty());
        assert(res@ =~= Map::<Seq<char>, V>::empty());
        res
    }

    /// The number of keys. They ascend, and they are the domain of the view.
    pub fn len(&self) -> (res: usize)
        ensures
            res == self.keys().len(),
            ascending(self.keys()),
            forall|k: Seq<char>| #![auto] self@.contains_key(k) <==> self.keys().contains(k),
    {
        proof {
            use_type_invariant(self);
        }
        self.table.names.len()
    }

    /// Whether there is no key.
    pub fn is_empty(&self) -> (res: bool)
        ensures
            res == (self.keys().len() == 0),
    {
        self.table.names.len() == 0
    }

    /// The key at place `i` of the dictionary order.
    pub fn key_at(&self, i: usize) -> (res: &String)
        requires
            i < self.keys().len(),
        ensures
            res@ == self.keys()[i as int],
    {
        &self.table.names[i]
    }

    /// The value of the key at place `i` of the dictionary order.
    pub fn value_at(&self, i: usize) -> (res: &V)
        requires
            i < self.keys().len(),
        ensures
            self@.contains_key(self.keys()[i as int]),
            *res == self@[self.keys()[i as int]],
    {
        proof {
            use_type_invariant(self);
            lemma_index_of(self.table.names.deep_view(), i as int);
        }
        &self.table.vals[i]
    }

    /// The number of keys before `key`.
    fn rank(&self, key: &str) -> (res: usize)
        ensures
            res <= self.table.names@.len(),
            forall|k: int| 0 <= k < res ==> text::text_lt(#[trigger] self.table.names.deep_view()[k], key@),
            forall|k: int|
                res <= k < self.table.names@.len() ==> !text::text_lt(#[trigger] self.table.names.deep_view()[k], key@),
    {
        proof {
            use_type_invariant(self);
        }
        let ghost keys = self.table.names.deep_view();
        let mut i: usize = 0;
        while i < self.table.names.len() && comes_before(self.table.names[i].as_str(), key)
            invariant
                i <= self.table.names@.len(),
                keys == self.table.names.deep_view(),
                forall|k: int| 0 <= k < i ==> text::text_lt(#[trigger] keys[k], key@),
            decreases self.table.names@.len() - i,
        {
            assert(keys[i as int] == self.table.names@[i as int]@);
            i += 1;
        }
        proof {
            assert forall|k: int| i <= k < keys.len() implies !text::text_lt(#[trigger] keys[k], key@) by {
                assert(keys[i as int] == self.table.names@[i as int]@);
                if text::text_lt(keys[k], key@) && k > i {
                    text::lemma_text_lt_transitive(keys[i as int], keys[k], key@);
                }
            }
        }
        i
    }

    /// The place of `key`, if it is in the map.
    pub fn position(&self, key: &str) -> (res: Option<usize>)
        ensures
            res.is_some() == self@.contains_key(key@),
            res.is_some() ==> res.unwrap() < self.keys().len() && self.keys()[res.unwrap() as int]
                == key@ && self.keys().index_of(key@) == res.unwrap(),
    {
        proof {
            use_type_invariant(self);
        }
        let i: usize = self.rank(key);
        let ghost keys = self.table.names.deep_view();
        if i < self.table.names.len() && *self.table.names[i].as_str() == *key {
            proof {
                assert(keys[i as int] == self.table.names@[i as int]@);
                lemma_index_of(keys, i as int);
            }
            Some(i)
        } else {
            proof {
                assert forall|k: int| 0 <= k < keys.len() implies keys[k] != key@ by {
                    text::lemma_text_lt_irreflexive(key@);
                    if i < k {
                        if keys[k] == key@ {
                            assert(text::text_lt(keys[i as int], keys[k]));
                        }
                    }
                    if k == i {
                        assert(keys[k] == self.table.names@[k]@);
                    }
                }
            }
            None
        }
    }

    /// Whether `key` is in the map.
    pub fn contains_key(&self, key: &str) -> (res: bool)
        ensures
            res == self@.contains_key(key@),
    {
        self.position(key).is_some()
    }

    /// The value of `key`.
    pub fn get(&self, key: &str) -> (res: Option<&V>)
        ensures
            res.is_some() == self@.contains_key(key@),
            res.is_some() ==> *res.unwrap() == self@[key@],
    {
        proof {
            use_type_invariant(self);
        }
        match self.position(key) {
            Some(i) => Some(&self.table.vals[i]),
            None => None,
        }
    }

    /// Gives `key` the value `val`, in place of the value it had.
    pub fn insert(&mut self, key: String, val: V)
        ensures
            final(self)@ == old(self)@.insert(key@, val),
            old(self)@.contains_key(key@) ==> final(self).keys() == old(self).keys(),
    {
        proof {
            use_type_invariant(&*self);
        }
        let i: usize = self.rank(key.as_str());
        let known = self.contains_key(key.as_str());
        let ghost keys = self.table.names.deep_view();
        let ghost k0 = key@;
        let ghost vals0 = self.table.vals@;
        let ghost before = *self;
        let mut table: Table<V> = Table { names: Vec::new(), vals: Vec::new() };
        assert(table.names.deep_view() =~= Seq::<Seq<char>>::empty());
        std::mem::swap(&mut table, &mut self.table);
        if known {
            proof {
                text::lemma_text_lt_irreflexive(k0);
                let j = keys.index_of(k0);
                assert(keys[j] == k0);
                if i < j {
                    assert(text::text_lt(keys[i as int], keys[j]));
                }
                assert(j == i);
                lemma_index_of(keys, i as int);
            }
            table.vals[i] = val;
        } else {
            proof {
                assert forall|k: int| i <= k < keys.len() implies text::text_lt(k0, #[trigger] keys[k]) by {
                    text::lemma_text_lt_total(k0, keys[k]);
                    assert(keys.contains(keys[k]));
                }
            }
            table.names.insert(i, key);
            table.vals.insert(i, val);
            proof {
                let after = table.names.deep_view();
                assert(after =~= keys.insert(i as int, k0));
                assert(ascending(after)) by {
                    assert forall|a: int, b: int| 0 <= a < b < after.len() implies text::text_lt(
                        #[trigger] after[a],
                        #[trigger] after[b],
                    ) by {
                        let a0 = if a < i { a } else { a - 1 };
                        let b0 = if b < i { b } else { b - 1 };
                        if a != i {
                            assert(after[a] == keys[a0]);
                        }
                        if b != i {
                            assert(after[b] == keys[b0]);
                        }
                    }
                }
            }
            assert(table.names.deep_view() == keys.insert(i as int, k0));
        }
        self.table = table;
        proof {
            let after = self.table.names.deep_view();
            let m0 = paired(keys, vals0);
            assert(before@ == m0);
            assert forall|k: Seq<char>| after.contains(k) <==> (keys.contains(k) || k == k0) by {
                if keys.contains(k) {
                    let j = keys.index_of(k);
                    let j1 = if known || j < i { j } else { j + 1 };
                    assert(after[j1] == k);
                }
                if k == k0 {
                    assert(after[i as int] == k0);
                }
                if after.contains(k) {
                    let j = after.index_of(k);
                    if !known && j != i {
                        let j0 = if j < i { j } else { j - 1 };
                        assert(keys[j0] == k);
                    }
                }
            }
            assert forall|k: Seq<char>| after.contains(k) implies self@[k] == (if k == k0 {
                val
            } else {
                m0[k]
            }) by {
                let j = after.index_of(k);
                lemma_index_of(after, j);
                if k == k0 {
                    lemma_index_of(after, i as int);
                } else {
                    let j0 = if known || j < i { j } else { j - 1 };
                    assert(keys[j0] == k);
                    lemma_index_of(keys, j0);
                }
            }
            assert(self@ =~= m0.insert(k0, val));
        }
    }

    /// Takes `key` and its value out of the map.
    pub fn remove(&mut self, key: &str) -> (res: Option<V>)
        ensures
            final(self)@ == old(self)@.remove(key@),
            res.is_some() == old(self)@.contains_key(key@),
            res.is_some() ==> res.unwrap() == old(self)@[key@],
            res.is_none() ==> final(self).keys() == old(self).keys(),
    {
        proof {
            use_type_invariant(&*self);
        }
        let ghost keys = self.table.names.deep_view();
        let ghost k0 = key@;
        let ghost vals0 = self.table.vals@;
        let i: usize = match self.position(key) {
            Some(i) => i,
            None => {
                assert(self@.remove(key@) =~= self@);
                return None;
            },
        };
        let ghost before = *self;
        let mut table: Table<V> = Table { names: Vec::new(), vals: Vec::new() };
        assert(table.names.deep_view() =~= Seq::<Seq<char>>::empty());
        std::mem::swap(&mut table, &mut self.table);
        let _ = table.names.remove(i);
        let val = table.vals.remove(i);
        proof {
            lemma_index_of(keys, i as int);
            let after = table.names.deep_view();
            assert(after =~= keys.remove(i as int));
            assert forall|a: int, b: int| 0 <= a < b < after.len() implies text::text_lt(
                #[trigger] after[a],
                #[trigger] after[b],
            ) by {
                let a0 = if a < i { a } else { a + 1 };
                let b0 = if b < i { b } else { b + 1 };
                assert(after[a] == keys[a0]);
                assert(after[b] == keys[b0]);
            }
        }
        self.table = table;
        proof {
            let after = self.table.names.deep_view();
            let m0 = paired(keys, vals0);
            assert(before@ == m0);
            assert forall|k: Seq<char>| after.contains(k) <==> (keys.contains(k) && k != k0) by {
                if keys.contains(k) && k != k0 {
                    let j = keys.index_of(k);
                    let j1 = if j < i { j } else { j - 1 };
                    assert(after[j1] == k);
                }
                if after.contains(k) {
                    let j = after.index_of(k);
                    let j0 = if j < i { j } else { j + 1 };
                    assert(keys[j0] == k);
                    lemma_index_of(keys, j0);
                }
            }
            assert forall|k: Seq<char>| after.contains(k) implies self@[k] == m0[k] by {
                let j = after.index_of(k);
                let j0 = if j < i { j } else { j + 1 };
                assert(keys[j0] == k);
                lemma_index_of(keys, j0);
            }
            assert(self@ =~= m0.remove(k0));
        }
        Some(val)
    }
}

impl<V: Clone> Clone for TextMap<V> {
    /// The map with the same keys and a clone of each value.
    fn clone(&self) -> (res: Self)
        ensures
            res.keys() == self.keys(),
            res@.dom() == self@.dom(),
            forall|k: Seq<char>| #[trigger]
                res@.contains_key(k) ==> cloned::<V>(self@[k], res@[k]),
    {
        proof {
            use_type_invariant(self);
        }
        let names = self.table.names.clone();
        let vals = self.table.vals.clone();
        let ghost keys = self.table.names.deep_view();
        assert(names.deep_view() =~= keys);
        let res = TextMap { table: Table { names, vals } };
        proof {
            assert(res@.dom() =~= self@.dom());
            assert forall|k: Seq<char>| #[trigger] res@.contains_key(k) implies cloned::<V>(
                self@[k],
                res@[k],
            ) by {
                let j = keys.index_of(k);
                assert(cloned::<V>(self.table.vals@[j], res.table.vals@[j]));
            }
        }
        res
    }
}

} // verus!
