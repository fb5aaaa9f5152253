//! A map keyed by tab ids, kept as an ordered list of distinct keys.
use vstd::prelude::*;
use crate::state::LiveId;

verus! {

/// A map keyed by tab ids. Keys are distinct; entries keep the order in which
/// their keys were first inserted.
pub struct IdMap<V> {
    keys: Vec<LiveId>,
    vals: Vec<V>,
}

/// In a sequence without repeats, the position of an element is the one it occupies.
pub proof fn lemma_index_of_unique<A>(s: Seq<A>, k: A, i: int)
    requires
        s.no_duplicates(),
        0 <= i < s.len(),
        s[i] == k,
    ensures
        s.index_of(k) == i,
        s.contains(k),
{
    assert(s.contains(k));
}

impl<V> IdMap<V> {
    #[verifier::type_invariant]
    closed spec fn inv(self) -> bool {
        &&& self.keys.len() == self.vals.len()
        &&& forall|i: int, j: int|
            0 <= i < self.keys.len() && 0 <= j < self.keys.len() && i != j ==> self.keys@[i]
                != self.keys@[j]
    }

    /// The keys, in entry order.
    pub closed spec fn key_seq(&self) -> Seq<LiveId> {
        self.keys@
    }

    /// The values, in entry order.
    pub closed spec fn val_seq(&self) -> Seq<V> {
        self.vals@
    }

    /// The map that the entries stand for.
    pub open spec fn view(&self) -> Map<LiveId, V> {
        Map::new(
            |k: LiveId| self.key_seq().contains(k),
            |k: LiveId| self.val_seq()[self.key_seq().index_of(k)],
        )
    }

    proof fn lemma_shape(&self)
        requires
            self.inv(),
        ensures
            self.key_seq().len() == self.val_seq().len(),
            self.key_seq().no_duplicates(),
    {
        assert forall|i: int, j: int|
            0 <= i < self.key_seq().len() && 0 <= j < self.key_seq().len() && i != j implies
                self.key_seq()[i] != self.key_seq()[j] by {}
    }

    /// An empty map.
    pub fn new() -> (m: Self)
        ensures
            m@ == Map::<LiveId, V>::empty(),
            m.key_seq() == Seq::<LiveId>::empty(),
    {
        let m = IdMap { keys: Vec::new(), vals: Vec::new() };
        assert(m@ =~= Map::<LiveId, V>::empty());
        m
    }

    /// The number of entries.
    pub fn len(&self) -> (n: usize)
        ensures
            n == self.key_seq().len(),
            n == self.val_seq().len(),
    {
        proof { use_type_invariant(self); }
        self.keys.len()
    }

    /// The position of `k` among the keys, if it is one.
    pub fn index_of(&self, k: &LiveId) -> (r: Option<usize>)
        ensures
            match r {
                Some(i) => i < self.key_seq().len() && self.key_seq()[i as int] == *k,
                None => !self.key_seq().contains(*k),
            },
            r is Some <==> self@.contains_key(*k),
            r matches Some(i) ==> self.key_seq().index_of(*k) == i,
    {
        proof { use_type_invariant(self); self.lemma_shape(); }
        let mut i: usize = 0;
        while i < self.keys.len()
            invariant
                i <= self.keys.len(),
                self.keys.len() == self.key_seq().len(),
                self.key_seq().no_duplicates(),
                forall|j: int| 0 <= j < i ==> self.key_seq()[j] != *k,
            decreases self.keys.len() - i,
        {
            if self.keys[i] == *k {
                proof {
                    lemma_index_of_unique(self.key_seq(), *k, i as int);
                }
                return Some(i);
            }
            i += 1;
        }
        None
    }

    /// Whether `k` is a key.
    pub fn contains_key(&self, k: &LiveId) -> (b: bool)
        ensures
            b == self@.contains_key(*k),
    {
        self.index_of(k).is_some()
    }

    /// The value stored under `k`, if any.
    pub fn get(&self, k: &LiveId) -> (r: Option<&V>)
        ensures
            match r {
                Some(v) => self@.contains_key(*k) && *v == self@[*k],
                None => !self@.contains_key(*k),
            },
    {
        proof { use_type_invariant(self); }
        match self.index_of(k) {
            Some(i) => Some(&self.vals[i]),
            None => None,
        }
    }

    /// The key of the entry at position `i`.
    pub fn key_at(&self, i: usize) -> (k: &LiveId)
        requires
            i < self.key_seq().len(),
        ensures
            *k == self.key_seq()[i as int],
    {
        proof { use_type_invariant(self); }
        &self.keys[i]
    }

    /// The value of the entry at position `i`.
    pub fn value_at(&self, i: usize) -> (v: &V)
        requires
            i < self.key_seq().len(),
        ensures
            *v == self.val_seq()[i as int],
            *v == self@[self.key_seq()[i as int]],
    {
        proof {
            use_type_invariant(self);
            self.lemma_shape();
            lemma_index_of_unique(self.key_seq(), self.key_seq()[i as int], i as int);
        }
        &self.vals[i]
    }

    /// Puts `v` in the entry at position `i` and gives back the value that was there.
    pub fn replace_at(&mut self, i: usize, v: V) -> (old_v: V)
        requires
            i < old(self).key_seq().len(),
        ensures
            old(self).val_seq().len() == old(self).key_seq().len(),
            old_v == old(self).val_seq()[i as int],
            final(self).key_seq() == old(self).key_seq(),
            final(self).val_seq() == old(self).val_seq().update(i as int, v),
            final(self)@ == old(self)@.insert(old(self).key_seq()[i as int], v),
    {
        proof {
            use_type_invariant(&*self);
            self.lemma_shape();
        }
        let ghost k = self.key_seq()[i as int];
        let ghost before = *self;
        let mut taken = IdMap { keys: Vec::new(), vals: Vec::new() };
        std::mem::swap(&mut taken, self);
        let IdMap { keys, mut vals } = taken;
        let mut tmp = v;
        std::mem::swap(&mut tmp, &mut vals[i]);
        assert(vals@ == before.vals@.update(i as int, v));
        *self = IdMap { keys, vals };
        proof {
            assert(self.key_seq() =~= before.key_seq());
            lemma_index_of_unique(before.key_seq(), k, i as int);
            assert forall|kk: LiveId| #[trigger] self@.contains_key(kk) implies self@[kk]
                == before@.insert(k, v)[kk] by {
                if kk != k {
                    let j = before.key_seq().index_of(kk);
                    assert(j != i);
                }
            }
            assert(self@ =~= before@.insert(k, v));
        }
        tmp
    }

    /// Stores `v` under `k`: in place when `k` is a key, as a new last entry when not.
    /// Gives back the value that was stored under `k`.
    pub fn insert(&mut self, k: LiveId, v: V) -> (old_v: Option<V>)
        ensures
            final(self)@ == old(self)@.insert(k, v),
            old(self)@.contains_key(k) ==> old_v == Some(old(self)@[k]),
            !old(self)@.contains_key(k) ==> old_v is None && final(self).key_seq() == old(
                self,
            ).key_seq().push(k),
            old(self)@.contains_key(k) ==> final(self).key_seq() == old(self).key_seq(),
    {
        match self.index_of(&k) {
            Some(i) => {
                let old_v = self.replace_at(i, v);
                Some(old_v)
            },
            None => {
                proof {
                    use_type_invariant(&*self);
                    self.lemma_shape();
                }
                let ghost before = *self;
                let mut taken = IdMap { keys: Vec::new(), vals: Vec::new() };
        std::mem::swap(&mut taken, self);
        let IdMap { mut keys, mut vals } = taken;
                let ghost kv = k;
                keys.push(k);
                vals.push(v);
                proof {
                    let ks = keys@.map_values(|kk: LiveId| kk);
                    assert(ks =~= before.key_seq().push(kv));
                    assert forall|a: int, b: int|
                        0 <= a < keys.len() && 0 <= b < keys.len() && a != b implies keys@[a] != keys@[b] by {
                        let n = before.key_seq().len() as int;
                        assert(ks[a] == keys@[a]);
                        assert(ks[b] == keys@[b]);
                        if a == n {
                            assert(before.key_seq()[b] == ks[b]);
                        } else if b == n {
                            assert(before.key_seq()[a] == ks[a]);
                        } else {
                            assert(before.keys@[a] == keys@[a]);
                            assert(before.keys@[b] == keys@[b]);
                        }
                    }
                }
                *self = IdMap { keys, vals };
                proof {
                    assert(self.key_seq() =~= before.key_seq().push(k));
                    assert(self.val_seq() =~= before.val_seq().push(v));
                    let n = before.key_seq().len() as int;
                    assert(self.key_seq().no_duplicates()) by {
                        assert forall|a: int, b: int|
                            0 <= a < self.key_seq().len() && 0 <= b < self.key_seq().len() && a != b
                            implies self.key_seq()[a] != self.key_seq()[b] by {
                            if a == n || b == n {
                                if a == n {
                                    assert(before.key_seq().contains(self.key_seq()[b])) by {
                                        assert(before.key_seq()[b] == self.key_seq()[b]);
                                    }
                                } else {
                                    assert(before.key_seq()[a] == self.key_seq()[a]);
                                }
                            }
                        }
                    }
                    lemma_index_of_unique(self.key_seq(), k, n);
                    assert forall|kk: LiveId| #[trigger] self@.contains_key(kk) implies self@[kk]
                        == before@.insert(k, v)[kk] by {
                        if kk != k {
                            let j = before.key_seq().index_of(kk);
                            assert(self.key_seq()[j] == kk);
                        }
                    }
                    assert forall|kk: LiveId| #[trigger] before@.insert(k, v).contains_key(kk)
                        implies self@.contains_key(kk) by {
                        if kk != k {
                            let j = before.key_seq().index_of(kk);
                            assert(self.key_seq()[j] == kk);
                        } else {
                            assert(self.key_seq()[n] == kk);
                        }
                    }
                    assert(self@ =~= before@.insert(k, v));
                }
                None
            },
        }
    }

    /// Removes the entry of `k`, if there is one, keeping the order of the others.
    /// Gives back its value.
    pub fn remove(&mut self, k: &LiveId) -> (old_v: Option<V>)
        ensures
            final(self)@ == old(self)@.remove(*k),
            old(self)@.contains_key(*k) ==> old_v == Some(old(self)@[*k]),
            !old(self)@.contains_key(*k) ==> old_v is None,
    {
        match self.index_of(k) {
            Some(i) => {
                proof {
                    use_type_invariant(&*self);
                    self.lemma_shape();
                }
                let ghost before = *self;
                let mut taken = IdMap { keys: Vec::new(), vals: Vec::new() };
        std::mem::swap(&mut taken, self);
        let IdMap { mut keys, mut vals } = taken;
                let _key = keys.remove(i);
                let v = vals.remove(i);
                proof {
                    assert forall|a: int, b: int|
                        0 <= a < keys.len() && 0 <= b < keys.len() && a != b implies keys@[a] != keys@[b] by {
                        let a2 = if a < i { a } else { a + 1 };
                        let b2 = if b < i { b } else { b + 1 };
                        assert(keys@[a] == before.keys@[a2]);
                        assert(keys@[b] == before.keys@[b2]);
                    }
                }
                *self = IdMap { keys, vals };
                proof {
                    let ks = before.key_seq();
                    assert(self.key_seq() =~= ks.remove(i as int));
                    assert(self.val_seq() =~= before.val_seq().remove(i as int));
                    assert forall|kk: LiveId| #[trigger] self@.contains_key(kk) implies self@[kk]
                        == before@.remove(*k)[kk] && kk != *k by {
                        let j = self.key_seq().index_of(kk);
                        if j < i {
                            assert(ks[j] == kk);
                            assert(kk != *k);
                            lemma_index_of_unique(ks, kk, j);
                        } else {
                            assert(ks[j + 1] == kk);
                            assert(j + 1 != i);
                            lemma_index_of_unique(ks, kk, j + 1);
                        }
                        lemma_index_of_unique(self.key_seq(), kk, j);
                    }
                    assert forall|kk: LiveId| #[trigger] before@.remove(*k).contains_key(kk)
                        implies self@.contains_key(kk) by {
                        let j = ks.index_of(kk);
                        assert(j != i);
                        if j < i {
                            assert(self.key_seq()[j] == kk);
                        } else {
                            assert(self.key_seq()[j - 1] == kk);
                        }
                    }
                    assert(self@ =~= before@.remove(*k));
                }
                Some(v)
            },
            None => {
                proof {
                    assert(self@ =~= self@.remove(*k));
                }
                None
            },
        }
    }
}

} // verus!
