//! An insertion-ordered map from string keys to values, the collection behind
//! the key-value store and the recorded HTTP headers.
use vstd::prelude::*;

use crate::text::str_eq;

verus! {

/// No two entries of `s` carry keys with the same text.
pub open spec fn keys_unique<V>(s: Seq<(String, V)>) -> bool {
    forall|i: int, j: int|
        0 <= i < s.len() && 0 <= j < s.len() && i != j ==> #[trigger] s[i].0@ != #[trigger] s[j].0@
}

/// Some entry of `s` has the key `k`.
pub open spec fn has_key<V>(s: Seq<(String, V)>, k: Seq<char>) -> bool {
    exists|i: int| 0 <= i < s.len() && #[trigger] s[i].0@ == k
}

/// An index of `s` whose entry has the key `k`.
pub open spec fn key_index<V>(s: Seq<(String, V)>, k: Seq<char>) -> int {
    choose|i: int| 0 <= i < s.len() && #[trigger] s[i].0@ == k
}

/// The map that the entries `s` describe.
pub open spec fn map_of<V>(s: Seq<(String, V)>) -> Map<Seq<char>, V> {
    Map::new(|k: Seq<char>| has_key(s, k), |k: Seq<char>| s[key_index(s, k)].1)
}

/// The entry at `i` is the one the map holds for its key.
pub proof fn lemma_map_of_at<V>(s: Seq<(String, V)>, i: int)
    requires
        keys_unique(s),
        0 <= i < s.len(),
    ensures
        has_key(s, s[i].0@),
        key_index(s, s[i].0@) == i,
        map_of(s).contains_key(s[i].0@),
        map_of(s)[s[i].0@] == s[i].1,
{
    assert(has_key(s, s[i].0@));
    let j = key_index(s, s[i].0@);
    assert(s[j].0@ == s[i].0@);
}

/// Replacing the value of an entry updates the map at its key.
pub proof fn lemma_map_of_update<V>(s: Seq<(String, V)>, i: int, k: String, v: V)
    requires
        keys_unique(s),
        0 <= i < s.len(),
        s[i].0@ == k@,
    ensures
        keys_unique(s.update(i, (k, v))),
        map_of(s.update(i, (k, v))) == map_of(s).insert(k@, v),
{
    let t = s.update(i, (k, v));
    assert forall|a: int, b: int|
        0 <= a < t.len() && 0 <= b < t.len() && a != b implies #[trigger] t[a].0@ != #[trigger] t[b].0@ by {
        assert(t[a].0@ == s[a].0@);
        assert(t[b].0@ == s[b].0@);
    }
    assert forall|key: Seq<char>| #[trigger] has_key(t, key) == (has_key(s, key) || key == k@) by {
        if has_key(s, key) {
            let j = key_index(s, key);
            assert(t[j].0@ == key);
        }
        if has_key(t, key) {
            let j = key_index(t, key);
            assert(s[j].0@ == key);
        }
        if key == k@ {
            assert(t[i].0@ == key);
        }
    }
    assert forall|key: Seq<char>| #[trigger] map_of(t).contains_key(key) implies map_of(t)[key]
        == map_of(s).insert(k@, v)[key] by {
        if key == k@ {
            lemma_map_of_at(t, i);
        } else {
            let j = key_index(t, key);
            lemma_map_of_at(t, j);
            assert(j != i);
            assert(s[j] == t[j]);
            lemma_map_of_at(s, j);
        }
    }
    assert(map_of(t) =~= map_of(s).insert(k@, v));
}

/// Appending an entry with a fresh key adds it to the map.
pub proof fn lemma_map_of_push<V>(s: Seq<(String, V)>, k: String, v: V)
    requires
        keys_unique(s),
        !has_key(s, k@),
    ensures
        keys_unique(s.push((k, v))),
        map_of(s.push((k, v))) == map_of(s).insert(k@, v),
{
    let t = s.push((k, v));
    let n = s.len() as int;
    assert forall|a: int, b: int|
        0 <= a < t.len() && 0 <= b < t.len() && a != b implies #[trigger] t[a].0@ != #[trigger] t[b].0@ by {
        if a < n && b < n {
            assert(t[a] == s[a] && t[b] == s[b]);
        } else if a < n {
            assert(t[a] == s[a]);
        } else {
            assert(t[b] == s[b]);
        }
    }
    assert forall|key: Seq<char>| #[trigger] has_key(t, key) == (has_key(s, key) || key == k@) by {
        if has_key(s, key) {
            let j = key_index(s, key);
            assert(t[j].0@ == key);
        }
        if has_key(t, key) {
            let j = key_index(t, key);
            if j < n {
                assert(s[j].0@ == key);
            }
        }
        if key == k@ {
            assert(t[n].0@ == key);
        }
    }
    assert forall|key: Seq<char>| #[trigger] map_of(t).contains_key(key) implies map_of(t)[key]
        == map_of(s).insert(k@, v)[key] by {
        if key == k@ {
            lemma_map_of_at(t, n);
        } else {
            let j = key_index(t, key);
            lemma_map_of_at(t, j);
            assert(j != n);
            assert(s[j] == t[j]);
            lemma_map_of_at(s, j);
        }
    }
    assert(map_of(t) =~= map_of(s).insert(k@, v));
}

/// Removing the entry at `i` removes its key from the map.
pub proof fn lemma_map_of_remove<V>(s: Seq<(String, V)>, i: int)
    requires
        keys_unique(s),
        0 <= i < s.len(),
    ensures
        keys_unique(s.remove(i)),
        map_of(s.remove(i)) == map_of(s).remove(s[i].0@),
{
    let t = s.remove(i);
    let k = s[i].0@;
    assert forall|a: int| 0 <= a < t.len() implies #[trigger] t[a] == s[if a < i { a } else { a + 1 }] by {}
    assert forall|a: int, b: int|
        0 <= a < t.len() && 0 <= b < t.len() && a != b implies #[trigger] t[a].0@ != #[trigger] t[b].0@ by {
        assert(t[a] == s[if a < i { a } else { a + 1 }]);
        assert(t[b] == s[if b < i { b } else { b + 1 }]);
    }
    assert forall|key: Seq<char>| #[trigger] has_key(t, key) == (has_key(s, key) && key != k) by {
        if has_key(s, key) && key != k {
            let j = key_index(s, key);
            assert(j != i);
            let a = if j < i { j } else { j - 1 };
            assert(t[a] == s[j]);
        }
        if has_key(t, key) {
            let a = key_index(t, key);
            let j = if a < i { a } else { a + 1 };
            assert(t[a] == s[j]);
            assert(j != i);
        }
    }
    assert forall|key: Seq<char>| #[trigger] map_of(t).contains_key(key) implies map_of(t)[key]
        == map_of(s).remove(k)[key] by {
        let a = key_index(t, key);
        lemma_map_of_at(t, a);
        let j = if a < i { a } else { a + 1 };
        assert(t[a] == s[j]);
        lemma_map_of_at(s, j);
    }
    assert(map_of(t) =~= map_of(s).remove(k));
}

/// Two entry sequences with the same keys at the same places describe maps with
/// the same keys, each found at the same place.
pub proof fn lemma_same_keys<A, B>(s: Seq<(String, A)>, t: Seq<(String, B)>)
    requires
        keys_unique(s),
        s.len() == t.len(),
        forall|i: int| 0 <= i < s.len() ==> #[trigger] s[i].0 == t[i].0,
    ensures
        keys_unique(t),
        forall|k: Seq<char>| #[trigger] has_key(s, k) == has_key(t, k),
        forall|k: Seq<char>| has_key(s, k) ==> #[trigger] key_index(t, k) == key_index(s, k),
{
    assert forall|a: int, b: int|
        0 <= a < t.len() && 0 <= b < t.len() && a != b implies #[trigger] t[a].0@ != #[trigger] t[b].0@ by {
        assert(s[a].0 == t[a].0 && s[b].0 == t[b].0);
    }
    assert forall|k: Seq<char>| #[trigger] has_key(s, k) == has_key(t, k) by {
        if has_key(s, k) {
            let i = key_index(s, k);
            assert(s[i].0 == t[i].0);
        }
        if has_key(t, k) {
            let i = key_index(t, k);
            assert(s[i].0 == t[i].0);
        }
    }
    assert forall|k: Seq<char>| has_key(s, k) implies #[trigger] key_index(t, k) == key_index(s, k) by {
        let i = key_index(s, k);
        assert(s[i].0 == t[i].0);
        lemma_map_of_at(s, i);
        lemma_map_of_at(t, i);
    }
}

/// An insertion-ordered map from string keys to values.
#[derive(Debug)]
pub struct KeyedVec<V> {
    keys: Vec<String>,
    values: Vec<V>,
}

impl<V> View for KeyedVec<V> {
    type V = Map<Seq<char>, V>;

    closed spec fn view(&self) -> Map<Seq<char>, V> {
        map_of(self.entries())
    }
}

impl<V> KeyedVec<V> {
    /// The entries, in insertion order.
    pub closed spec fn entries(&self) -> Seq<(String, V)> {
        Seq::new(self.keys@.len(), |i: int| (self.keys@[i], self.values@[i]))
    }

    /// Keys are unique, and every key has its value.
    pub closed spec fn wf(&self) -> bool {
        &&& self.keys@.len() == self.values@.len()
        &&& keys_unique(self.entries())
    }

    /// Well-formed maps have unique keys.
    pub proof fn lemma_wf(&self)
        requires
            self.wf(),
        ensures
            keys_unique(self.entries()),
            self@ == map_of(self.entries()),
    {
    }

    /// An empty map.
    pub fn new() -> (r: Self)
        ensures
            r.wf(),
            r.entries() == Seq::<(String, V)>::empty(),
            r@ == Map::<Seq<char>, V>::empty(),
    {
        let r = KeyedVec { keys: Vec::new(), values: Vec::new() };
        assert(r.entries() =~= Seq::<(String, V)>::empty());
        assert(map_of(r.entries()) =~= Map::<Seq<char>, V>::empty());
        r
    }

    /// Number of entries.
    pub fn len(&self) -> (n: usize)
        requires
            self.wf(),
        ensures
            n == self.entries().len(),
    {
        self.keys.len()
    }

    /// The key of the entry at index `i`.
    pub fn key_at(&self, i: usize) -> (r: &String)
        requires
            self.wf(),
            i < self.entries().len(),
        ensures
            *r == self.entries()[i as int].0,
    {
        &self.keys[i]
    }

    /// The value of the entry at index `i`.
    pub fn value_at(&self, i: usize) -> (r: &V)
        requires
            self.wf(),
            i < self.entries().len(),
        ensures
            *r == self.entries()[i as int].1,
    {
        &self.values[i]
    }

    /// The index of the entry with key `k`, if any.
    pub fn find(&self, k: &str) -> (r: Option<usize>)
        requires
            self.wf(),
        ensures
            match r {
                Some(i) => i < self.entries().len() && self.entries()[i as int].0@ == k@,
                None => !has_key(self.entries(), k@),
            },
    {
        let mut i: usize = 0;
        while i < self.keys.len()
            invariant
                self.wf(),
                i <= self.keys.len(),
                forall|j: int| 0 <= j < i ==> #[trigger] self.entries()[j].0@ != k@,
            decreases self.keys.len() - i,
        {
            if str_eq(self.keys[i].as_str(), k) {
                return Some(i);
            }
            i = i + 1;
        }
        None
    }

    /// The value stored under `k`.
    pub fn get(&self, k: &str) -> (r: Option<&V>)
        requires
            self.wf(),
        ensures
            match r {
                Some(v) => self@.contains_key(k@) && *v == self@[k@],
                None => !self@.contains_key(k@),
            },
    {
        match self.find(k) {
            Some(i) => {
                proof {
                    lemma_map_of_at(self.entries(), i as int);
                }
                Some(&self.values[i])
            },
            None => None,
        }
    }

    /// Stores `v` under `k`: an existing entry keeps its place, a new one goes last.
    pub fn insert(&mut self, k: String, v: V)
        requires
            old(self).wf(),
        ensures
            final(self).wf(),
            final(self)@ == old(self)@.insert(k@, v),
            has_key(old(self).entries(), k@) ==> final(self).entries() == old(self).entries().update(
                key_index(old(self).entries(), k@),
                (old(self).entries()[key_index(old(self).entries(), k@)].0, v),
            ),
            !has_key(old(self).entries(), k@) ==> final(self).entries() == old(self).entries().push(
                (k, v),
            ),
    {
        let ghost s = self.entries();
        match self.find(k.as_str()) {
            Some(i) => {
                proof {
                    lemma_map_of_at(s, i as int);
                    lemma_map_of_update(s, i as int, s[i as int].0, v);
                }
                self.values.set(i, v);
                assert(self.entries() =~= s.update(i as int, (s[i as int].0, v)));
            },
            None => {
                proof {
                    lemma_map_of_push(s, k, v);
                }
                self.keys.push(k);
                self.values.push(v);
                assert(self.entries() =~= s.push((k, v)));
            },
        }
    }

    /// Removes the entry with key `k`, if any; the others keep their order.
    pub fn remove(&mut self, k: &str)
        requires
            old(self).wf(),
        ensures
            final(self).wf(),
            final(self)@ == old(self)@.remove(k@),
            has_key(old(self).entries(), k@) ==> final(self).entries() == old(self).entries().remove(
                key_index(old(self).entries(), k@),
            ),
            !has_key(old(self).entries(), k@) ==> final(self).entries() == old(self).entries(),
    {
        let ghost s = self.entries();
        match self.find(k) {
            Some(i) => {
                proof {
                    lemma_map_of_at(s, i as int);
                    lemma_map_of_remove(s, i as int);
                }
                self.keys.remove(i);
                self.values.remove(i);
                assert(self.entries() =~= s.remove(i as int));
            },
            None => {
                assert(map_of(s) =~= map_of(s).remove(k@));
            },
        }
    }

    /// Takes out the value at index `i`, leaving `placeholder` in its place.
    pub fn take_at(&mut self, i: usize, placeholder: V) -> (r: V)
        requires
            old(self).wf(),
            i < old(self).entries().len(),
        ensures
            r == old(self).entries()[i as int].1,
            r == old(self)@[old(self).entries()[i as int].0@],
            final(self).wf(),
            final(self).entries() == old(self).entries().update(
                i as int,
                (old(self).entries()[i as int].0, placeholder),
            ),
            final(self)@ == old(self)@.insert(old(self).entries()[i as int].0@, placeholder),
    {
        let ghost s = self.entries();
        proof {
            lemma_map_of_at(s, i as int);
            lemma_map_of_update(s, i as int, s[i as int].0, placeholder);
        }
        let mut tmp = placeholder;
        self.values.set_and_swap(i, &mut tmp);
        assert(self.entries() =~= s.update(i as int, (s[i as int].0, placeholder)));
        tmp
    }

    /// Replaces the value at index `i`, keeping its key.
    pub fn put_at(&mut self, i: usize, v: V)
        requires
            old(self).wf(),
            i < old(self).entries().len(),
        ensures
            final(self).wf(),
            final(self).entries() == old(self).entries().update(
                i as int,
                (old(self).entries()[i as int].0, v),
            ),
            final(self)@ == old(self)@.insert(old(self).entries()[i as int].0@, v),
    {
        let ghost s = self.entries();
        proof {
            lemma_map_of_update(s, i as int, s[i as int].0, v);
        }
        self.values.set(i, v);
        assert(self.entries() =~= s.update(i as int, (s[i as int].0, v)));
    }
}

impl KeyedVec<String> {
    /// A copy of the entries, in order.
    pub fn to_pairs(&self) -> (r: Vec<(String, String)>)
        requires
            self.wf(),
        ensures
            r@ == self.entries(),
    {
        let mut r: Vec<(String, String)> = Vec::new();
        let mut i: usize = 0;
        while i < self.keys.len()
            invariant
                self.wf(),
                i <= self.keys.len(),
                r@ == self.entries().take(i as int),
            decreases self.keys.len() - i,
        {
            r.push((self.keys[i].clone(), self.values[i].clone()));
            assert(self.entries().take(i + 1) =~= self.entries().take(i as int).push(
                self.entries()[i as int],
            ));
            i = i + 1;
        }
        assert(self.entries().take(self.keys.len() as int) =~= self.entries());
        r
    }
}

} // verus!
