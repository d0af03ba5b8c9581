//! A map keyed by strings, the shape of the key/value tables that the
//! kernel's text files describe (one value per key, a later key replacing an
//! earlier one).

use vstd::prelude::*;

verus! {

/// A finite map from strings to values, viewed as `Map<Seq<char>, V::V>`.
pub struct StrMap<V: View> {
    entries: Vec<(String, V)>,
}

pub open spec fn keys_distinct<V>(e: Seq<(String, V)>) -> bool {
    forall|i: int, j: int| 0 <= i < j < e.len() ==> (#[trigger] e[i]).0@ != (#[trigger] e[j]).0@
}

/// The map that inserting the entries of `e`, in order, builds.
pub open spec fn map_of<V: View>(e: Seq<(String, V)>) -> Map<Seq<char>, V::V>
    decreases e.len(),
{
    if e.len() == 0 {
        Map::empty()
    } else {
        map_of(e.drop_last()).insert(e.last().0@, e.last().1@)
    }
}

pub proof fn lemma_map_of_contains<V: View>(e: Seq<(String, V)>, k: Seq<char>)
    ensures
        map_of(e).contains_key(k) <==> exists|i: int| 0 <= i < e.len() && (#[trigger] e[i]).0@ == k,
    decreases e.len(),
{
    if e.len() > 0 {
        let t = e.drop_last();
        lemma_map_of_contains(t, k);
        if map_of(e).contains_key(k) {
            if k == e.last().0@ {
                assert(e[e.len() - 1].0@ == k);
            } else {
                let i = choose|i: int| 0 <= i < t.len() && (#[trigger] t[i]).0@ == k;
                assert(e[i] == t[i]);
            }
        }
        if exists|i: int| 0 <= i < e.len() && (#[trigger] e[i]).0@ == k {
            let i = choose|i: int| 0 <= i < e.len() && (#[trigger] e[i]).0@ == k;
            if i < e.len() - 1 {
                assert(t[i] == e[i]);
            }
        }
    }
}

pub proof fn lemma_map_of_index<V: View>(e: Seq<(String, V)>, i: int)
    requires
        keys_distinct(e),
        0 <= i < e.len(),
    ensures
        map_of(e).contains_key(e[i].0@),
        map_of(e)[e[i].0@] == e[i].1@,
    decreases e.len(),
{
    let t = e.drop_last();
    if i < e.len() - 1 {
        assert(t[i] == e[i]);
        assert(keys_distinct(t)) by {
            assert forall|a: int, b: int| 0 <= a < b < t.len() implies (#[trigger] t[a]).0@
                != (#[trigger] t[b]).0@ by {
                assert(t[a] == e[a] && t[b] == e[b]);
            }
        }
        lemma_map_of_index(t, i);
        assert(e[i].0@ != e[e.len() - 1].0@);
    }
}

pub proof fn lemma_map_of_update<V: View>(e: Seq<(String, V)>, i: int, x: (String, V))
    requires
        keys_distinct(e),
        0 <= i < e.len(),
        e[i].0@ == x.0@,
    ensures
        map_of(e.update(i, x)) == map_of(e).insert(x.0@, x.1@),
        keys_distinct(e.update(i, x)),
    decreases e.len(),
{
    let u = e.update(i, x);
    let t = e.drop_last();
    assert forall|a: int, b: int| 0 <= a < b < u.len() implies (#[trigger] u[a]).0@
        != (#[trigger] u[b]).0@ by {
        assert(u[a].0@ == e[a].0@);
        assert(u[b].0@ == e[b].0@);
    }
    if i == e.len() - 1 {
        assert(u.drop_last() =~= t);
        assert(map_of(u) =~= map_of(e).insert(x.0@, x.1@));
    } else {
        assert(u.drop_last() =~= t.update(i, x));
        assert(keys_distinct(t)) by {
            assert forall|a: int, b: int| 0 <= a < b < t.len() implies (#[trigger] t[a]).0@
                != (#[trigger] t[b]).0@ by {
                assert(t[a] == e[a] && t[b] == e[b]);
            }
        }
        lemma_map_of_update(t, i, x);
        assert(e[i].0@ != e[e.len() - 1].0@);
        assert(map_of(u) =~= map_of(e).insert(x.0@, x.1@));
    }
}

pub proof fn lemma_map_of_len<V: View>(e: Seq<(String, V)>)
    requires
        keys_distinct(e),
    ensures
        map_of(e).dom().finite(),
        map_of(e).dom().len() == e.len(),
    decreases e.len(),
{
    if e.len() > 0 {
        let t = e.drop_last();
        assert(keys_distinct(t)) by {
            assert forall|a: int, b: int| 0 <= a < b < t.len() implies (#[trigger] t[a]).0@
                != (#[trigger] t[b]).0@ by {
                assert(t[a] == e[a] && t[b] == e[b]);
            }
        }
        lemma_map_of_len(t);
        lemma_map_of_contains(t, e.last().0@);
        if map_of(t).contains_key(e.last().0@) {
            let i = choose|i: int| 0 <= i < t.len() && (#[trigger] t[i]).0@ == e.last().0@;
            assert(t[i] == e[i]);
        }
    }
}

pub proof fn lemma_map_of_remove<V: View>(e: Seq<(String, V)>, i: int)
    requires
        keys_distinct(e),
        0 <= i < e.len(),
    ensures
        map_of(e.remove(i)) == map_of(e).remove(e[i].0@),
        keys_distinct(e.remove(i)),
    decreases e.len(),
{
    let u = e.remove(i);
    let t = e.drop_last();
    assert forall|a: int, b: int| 0 <= a < b < u.len() implies (#[trigger] u[a]).0@
        != (#[trigger] u[b]).0@ by {
        let a2 = if a < i { a } else { a + 1 };
        let b2 = if b < i { b } else { b + 1 };
        assert(u[a] == e[a2] && u[b] == e[b2]);
    }
    if i == e.len() - 1 {
        assert(u =~= t);
        lemma_map_of_contains(t, e[i].0@);
        if map_of(t).contains_key(e[i].0@) {
            let j = choose|j: int| 0 <= j < t.len() && (#[trigger] t[j]).0@ == e[i].0@;
            assert(t[j] == e[j]);
        }
        assert(map_of(u) =~= map_of(e).remove(e[i].0@));
    } else {
        assert(keys_distinct(t)) by {
            assert forall|a: int, b: int| 0 <= a < b < t.len() implies (#[trigger] t[a]).0@
                != (#[trigger] t[b]).0@ by {
                assert(t[a] == e[a] && t[b] == e[b]);
            }
        }
        lemma_map_of_remove(t, i);
        assert(u.drop_last() =~= t.remove(i));
        assert(u.last() == e.last());
        assert(t[i] == e[i]);
        assert(e[i].0@ != e.last().0@);
        assert(map_of(u) =~= map_of(e).remove(e[i].0@));
    }
}

impl<V: View> View for StrMap<V> {
    type V = Map<Seq<char>, V::V>;

    closed spec fn view(&self) -> Map<Seq<char>, V::V> {
        map_of(self.entries@)
    }
}

impl<V: View> StrMap<V> {
    #[verifier::type_invariant]
    closed spec fn inv(self) -> bool {
        keys_distinct(self.entries@)
    }

    /// An empty map.
    pub fn new() -> (m: Self)
        ensures
            m@ == Map::<Seq<char>, V::V>::empty(),
    {
        StrMap { entries: Vec::new() }
    }

    /// Number of keys.
    pub fn len(&self) -> (n: usize)
        ensures
            self@.dom().finite(),
            n == self@.dom().len(),
    {
        proof {
            use_type_invariant(self);
            lemma_map_of_len(self.entries@);
        }
        self.entries.len()
    }

    /// Whether the map has no key.
    pub fn is_empty(&self) -> (b: bool)
        ensures
            b <==> self@ == Map::<Seq<char>, V::V>::empty(),
    {
        proof {
            use_type_invariant(self);
            lemma_map_of_len(self.entries@);
        }
        if self.entries.len() == 0 {
            assert(self@ =~= Map::<Seq<char>, V::V>::empty());
            true
        } else {
            proof {
                lemma_map_of_index(self.entries@, 0);
            }
            assert(self@.contains_key(self.entries@[0].0@));
            false
        }
    }

    /// Position of the key `k`, if present.
    fn position(&self, k: &String) -> (r: Option<usize>)
        ensures
            match r {
                Some(i) => i < self.entries@.len() && self.entries@[i as int].0@ == k@,
                None => !self@.contains_key(k@),
            },
    {
        proof {
            lemma_map_of_contains(self.entries@, k@);
        }
        for i in 0..self.entries.len()
            invariant
                forall|j: int| 0 <= j < i ==> (#[trigger] self.entries@[j]).0@ != k@,
        {
            if self.entries[i].0 == *k {
                return Some(i);
            }
        }
        None
    }

    /// The value stored under `k`, if any.
    pub fn get(&self, k: &str) -> (r: Option<&V>)
        ensures
            match r {
                Some(v) => self@.contains_key(k@) && v@ == self@[k@],
                None => !self@.contains_key(k@),
            },
    {
        let key = k.to_owned();
        self.get_key(&key)
    }

    /// The value stored under the key `k`, if any.
    pub fn get_key(&self, k: &String) -> (r: Option<&V>)
        ensures
            match r {
                Some(v) => self@.contains_key(k@) && v@ == self@[k@],
                None => !self@.contains_key(k@),
            },
    {
        proof {
            use_type_invariant(self);
        }
        match self.position(k) {
            Some(i) => {
                proof {
                    lemma_map_of_index(self.entries@, i as int);
                }
                Some(&self.entries[i].1)
            },
            None => None,
        }
    }

    /// Whether `k` is a key.
    pub fn contains_key(&self, k: &String) -> (b: bool)
        ensures
            b == self@.contains_key(k@),
    {
        self.get_key(k).is_some()
    }

    /// Stores `v` under `k`, replacing any earlier value.
    pub fn insert(&mut self, k: String, v: V)
        ensures
            final(self)@ == old(self)@.insert(k@, v@),
    {
        let pos = self.position(&k);
        let mut taken = StrMap::new();
        core::mem::swap(self, &mut taken);
        proof {
            use_type_invariant(&taken);
        }
        let StrMap { entries: mut entries } = taken;
        match pos {
            Some(i) => {
                proof {
                    lemma_map_of_update(entries@, i as int, (k, v));
                }
                entries.set(i, (k, v));
            },
            None => {
                proof {
                    lemma_map_of_contains(entries@, k@);
                    let e = entries@.push((k, v));
                    assert(e.drop_last() =~= entries@);
                    assert forall|a: int, b: int| 0 <= a < b < e.len() implies (#[trigger] e[a]).0@
                        != (#[trigger] e[b]).0@ by {
                        if b == e.len() - 1 {
                            assert(e[a] == entries@[a]);
                        } else {
                            assert(e[a] == entries@[a] && e[b] == entries@[b]);
                        }
                    }
                }
                entries.push((k, v));
            },
        }
        *self = StrMap { entries };
    }

    /// Removes the key `k` and its value, if present.
    pub fn remove(&mut self, k: &String)
        ensures
            final(self)@ == old(self)@.remove(k@),
    {
        let pos = self.position(k);
        match pos {
            Some(i) => {
                let mut taken = StrMap::new();
                core::mem::swap(self, &mut taken);
                proof {
                    use_type_invariant(&taken);
                    lemma_map_of_remove(taken.entries@, i as int);
                }
                let StrMap { entries: mut entries } = taken;
                let _ = entries.remove(i);
                *self = StrMap { entries };
            },
            None => {
                assert(self@.remove(k@) =~= self@);
            },
        }
    }

    /// Removes every key.
    pub fn clear(&mut self)
        ensures
            final(self)@ == Map::<Seq<char>, V::V>::empty(),
    {
        *self = StrMap::new();
    }

    /// The key at position `i` of the map's own order.
    pub fn key_at(&self, i: usize) -> (k: &String)
        requires
            i < self@.dom().len(),
        ensures
            self@.contains_key(k@),
    {
        proof {
            use_type_invariant(self);
            lemma_map_of_len(self.entries@);
            lemma_map_of_index(self.entries@, i as int);
        }
        &self.entries[i].0
    }

    /// The keys, each once, in the map's own order.
    pub fn keys(&self) -> (r: Vec<String>)
        ensures
            r.len() == self@.dom().len(),
            forall|i: int| 0 <= i < r.len() ==> self@.contains_key(#[trigger] r@[i]@),
            forall|i: int, j: int| 0 <= i < j < r.len() ==> (#[trigger] r@[i])@ != (#[trigger] r@[j])@,
            forall|k: Seq<char>| self@.contains_key(k) ==> exists|i: int| 0 <= i < r.len() && (#[trigger] r@[i])@ == k,
    {
        proof {
            use_type_invariant(self);
            lemma_map_of_len(self.entries@);
        }
        let mut r: Vec<String> = Vec::new();
        for i in 0..self.entries.len()
            invariant
                keys_distinct(self.entries@),
                r.len() == i,
                forall|j: int| 0 <= j < i ==> (#[trigger] r@[j])@ == self.entries@[j].0@,
        {
            r.push(self.entries[i].0.clone());
        }
        assert forall|i: int| 0 <= i < r.len() implies self@.contains_key(#[trigger] r@[i]@) by {
            lemma_map_of_index(self.entries@, i);
        }
        assert forall|i: int, j: int| 0 <= i < j < r.len() implies (#[trigger] r@[i])@ != (
        #[trigger] r@[j])@ by {
            assert(self.entries@[i].0@ != self.entries@[j].0@);
        }
        assert forall|k: Seq<char>| self@.contains_key(k) implies exists|i: int|
            0 <= i < r.len() && (#[trigger] r@[i])@ == k by {
            lemma_map_of_contains(self.entries@, k);
            let i = choose|i: int| 0 <= i < self.entries@.len() && (#[trigger] self.entries@[i]).0@ == k;
            assert(r@[i]@ == k);
        }
        r
    }
}

impl StrMap<String> {
    /// Copies every entry of `other` into `self`, replacing the values of keys
    /// that both hold (`HashMap::extend`).
    pub fn extend_from(&mut self, other: &StrMap<String>)
        ensures
            final(self)@ == old(self)@.union_prefer_right(other@),
    {
        proof {
            use_type_invariant(other);
            lemma_map_of_len(other.entries@);
        }
        let n = other.entries.len();
        for i in 0..n
            invariant
                n == other.entries@.len(),
                keys_distinct(other.entries@),
                other@ == map_of(other.entries@),
                self@ == old(self)@.union_prefer_right(map_of(other.entries@.take(i as int))),
        {
            let k = other.entries[i].0.clone();
            let v = other.entries[i].1.clone();
            let ghost before = self@;
            self.insert(k, v);
            proof {
                let e = other.entries@;
                assert(e.take(i + 1).drop_last() =~= e.take(i as int));
                assert(e.take(i + 1).last() == e[i as int]);
                assert(self@ =~= old(self)@.union_prefer_right(map_of(e.take(i + 1))));
            }
        }
        assert(other.entries@.take(n as int) =~= other.entries@);
    }
}

} // verus!
