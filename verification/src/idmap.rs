//! An ordered map from 128-bit identifiers to values.
//!
//! Entries are kept in a vector sorted by strictly increasing key, so walking
//! the map visits identifiers in ascending order, as an ordered tree map does.
use vstd::pervasive::VecAdditionalExecFns;
use vstd::prelude::*;

use crate::ids::{EventId, IdempotencyKey};

verus! {

/// Whether a sequence of entries has strictly increasing keys.
pub open spec fn keys_increasing<V>(s: Seq<(u128, V)>) -> bool {
    forall|i: int, j: int| 0 <= i < j < s.len() ==> #[trigger] s[i].0 < #[trigger] s[j].0
}

/// Whether some entry of `s` has key `k`.
pub open spec fn seq_has_key<V>(s: Seq<(u128, V)>, k: u128) -> bool {
    exists|i: int| 0 <= i < s.len() && #[trigger] s[i].0 == k
}

/// The position of the entry with key `k` (meaningful when one exists).
pub open spec fn seq_key_pos<V>(s: Seq<(u128, V)>, k: u128) -> int {
    choose|i: int| 0 <= i < s.len() && #[trigger] s[i].0 == k
}

/// The map that a sorted entry sequence denotes.
pub open spec fn seq_to_map<V>(s: Seq<(u128, V)>) -> Map<u128, V> {
    Map::new(|k: u128| seq_has_key(s, k), |k: u128| s[seq_key_pos(s, k)].1)
}

/// The keys of an entry sequence, in order.
pub open spec fn seq_keys<V>(s: Seq<(u128, V)>) -> Seq<u128> {
    s.map_values(|e: (u128, V)| e.0)
}

/// In a sorted sequence the entry holding a key is unique.
pub proof fn lemma_key_pos<V>(s: Seq<(u128, V)>, i: int)
    requires
        keys_increasing(s),
        0 <= i < s.len(),
    ensures
        seq_has_key(s, s[i].0),
        seq_key_pos(s, s[i].0) == i,
        seq_to_map(s).contains_key(s[i].0),
        seq_to_map(s)[s[i].0] == s[i].1,
{
    let k = s[i].0;
    assert(seq_has_key(s, k));
    let p = seq_key_pos(s, k);
    if p < i {
        assert(s[p].0 < s[i].0);
    } else if p > i {
        assert(s[i].0 < s[p].0);
    }
}

/// Keys and values paired up, position by position.
pub open spec fn zip_entries<V>(k: Seq<u128>, v: Seq<V>) -> Seq<(u128, V)> {
    Seq::new(k.len(), |i: int| (k[i], v[i]))
}

/// Replacing the value at the position of its key replaces it in the map.
proof fn lemma_update_at<V>(s: Seq<(u128, V)>, i: int, v: V)
    requires
        keys_increasing(s),
        0 <= i < s.len(),
    ensures
        keys_increasing(s.update(i, (s[i].0, v))),
        seq_to_map(s.update(i, (s[i].0, v))) == seq_to_map(s).insert(s[i].0, v),
        seq_keys(s.update(i, (s[i].0, v))) == seq_keys(s),
{
    let k = s[i].0;
    let new_s = s.update(i, (k, v));
    assert forall|a: int, b: int| 0 <= a < b < new_s.len() implies #[trigger] new_s[a].0
        < #[trigger] new_s[b].0 by {
        assert(s[a].0 < s[b].0);
    }
    lemma_key_pos(s, i);
    assert forall|x: u128| seq_has_key(new_s, x) == seq_has_key(s, x) by {
        if seq_has_key(s, x) {
            let p = seq_key_pos(s, x);
            assert(new_s[p].0 == x);
        }
        if seq_has_key(new_s, x) {
            let p = seq_key_pos(new_s, x);
            assert(s[p].0 == x);
        }
    }
    assert(seq_to_map(new_s) =~= seq_to_map(s).insert(k, v)) by {
        assert forall|x: u128| #[trigger] seq_has_key(new_s, x) implies seq_to_map(new_s)[x]
            == seq_to_map(s).insert(k, v)[x] by {
            let p = seq_key_pos(new_s, x);
            lemma_key_pos(new_s, p);
            if x != k {
                lemma_key_pos(s, p);
            }
        }
    }
    assert(seq_keys(new_s) =~= seq_keys(s));
}

/// Ordered identifier map: keys and values side by side, keys strictly
/// increasing.
#[derive(Debug, PartialEq, Eq)]
pub struct IdMap<V> {
    keys: Vec<u128>,
    vals: Vec<V>,
}

impl<V> IdMap<V> {
    /// The entries in ascending key order.
    pub closed spec fn entries(&self) -> Seq<(u128, V)> {
        zip_entries(self.keys@, self.vals@)
    }

    #[verifier::type_invariant]
    spec fn sorted(&self) -> bool {
        &&& self.keys@.len() == self.vals@.len()
        &&& forall|i: int, j: int|
            0 <= i < j < self.keys@.len() ==> #[trigger] self.keys@[i] < #[trigger] self.keys@[j]
    }

    proof fn lemma_entries(&self)
        requires
            self.sorted(),
        ensures
            keys_increasing(self.entries()),
            self.entries().len() == self.keys@.len(),
            forall|i: int|
                0 <= i < self.keys@.len() ==> #[trigger] self.entries()[i] == (
                    self.keys@[i],
                    self.vals@[i],
                ),
    {
        assert forall|a: int, b: int| 0 <= a < b < self.entries().len() implies #[trigger] self.entries()[a].0
            < #[trigger] self.entries()[b].0 by {
            assert(self.keys@[a] < self.keys@[b]);
        }
    }

    pub fn new() -> (m: Self)
        ensures
            m.entries() == Seq::<(u128, V)>::empty(),
            m@ == Map::<u128, V>::empty(),
    {
        let m = IdMap { keys: Vec::new(), vals: Vec::new() };
        assert(m.entries() =~= Seq::<(u128, V)>::empty());
        assert(m@ =~= Map::<u128, V>::empty());
        m
    }

    pub fn len(&self) -> (n: usize)
        ensures
            n == self.entries().len(),
            n == self@.len(),
            forall|i: int|
                0 <= i < n ==> self@.contains_key(#[trigger] self.entries()[i].0) && self@[self.entries()[i].0]
                    == self.entries()[i].1,
            forall|k: u128|
                #[trigger] self@.contains_key(k) ==> exists|i: int|
                    0 <= i < n && #[trigger] self.entries()[i].0 == k,
    {
        proof {
            use_type_invariant(self);
            self.lemma_entries();
            lemma_map_len(self.entries());
            assert forall|i: int| 0 <= i < self.entries().len() implies self@.contains_key(
                #[trigger] self.entries()[i].0,
            ) && self@[self.entries()[i].0] == self.entries()[i].1 by {
                lemma_key_pos(self.entries(), i);
            }
            self.lemma_cover();
        }
        self.keys.len()
    }

    pub fn is_empty(&self) -> (b: bool)
        ensures
            b == (self.entries().len() == 0),
            b == (self@ == Map::<u128, V>::empty()),
    {
        proof {
            use_type_invariant(self);
            self.lemma_entries();
            if self.entries().len() > 0 {
                lemma_key_pos(self.entries(), 0);
                assert(self@.contains_key(self.entries()[0].0));
            } else {
                assert(self@ =~= Map::<u128, V>::empty());
            }
        }
        self.keys.len() == 0
    }

    /// The entry at position `i` of the ascending order.
    pub fn entry_at(&self, i: usize) -> (e: (&u128, &V))
        requires
            i < self.entries().len(),
        ensures
            *e.0 == self.entries()[i as int].0,
            *e.1 == self.entries()[i as int].1,
            self@.contains_key(*e.0),
            self@[*e.0] == *e.1,
    {
        proof {
            use_type_invariant(self);
            self.lemma_entries();
            lemma_key_pos(self.entries(), i as int);
        }
        (&self.keys[i], &self.vals[i])
    }

    /// Position of `k` in the ascending order, if present.
    pub fn position(&self, k: u128) -> (r: Option<usize>)
        ensures
            match r {
                Some(i) => i < self.entries().len() && self.entries()[i as int].0 == k
                    && self@.contains_key(k),
                None => !self@.contains_key(k),
            },
    {
        proof {
            use_type_invariant(self);
            self.lemma_entries();
        }
        let mut i: usize = 0;
        while i < self.keys.len()
            invariant
                i <= self.keys@.len(),
                keys_increasing(self.entries()),
                self.entries().len() == self.keys@.len(),
                forall|j: int|
                    0 <= j < self.keys@.len() ==> #[trigger] self.entries()[j] == (
                        self.keys@[j],
                        self.vals@[j],
                    ),
                forall|j: int| 0 <= j < i ==> #[trigger] self.keys@[j] != k,
            decreases self.keys@.len() - i,
        {
            if self.keys[i] == k {
                proof {
                    lemma_key_pos(self.entries(), i as int);
                }
                return Some(i);
            }
            i = i + 1;
        }
        proof {
            if seq_has_key(self.entries(), k) {
                let p = seq_key_pos(self.entries(), k);
                assert(self.keys@[p] == k);
            }
        }
        None
    }

    pub fn contains_key(&self, k: u128) -> (b: bool)
        ensures
            b == self@.contains_key(k),
    {
        self.position(k).is_some()
    }

    pub fn get(&self, k: u128) -> (r: Option<&V>)
        ensures
            match r {
                Some(v) => self@.contains_key(k) && *v == self@[k],
                None => !self@.contains_key(k),
            },
    {
        match self.position(k) {
            Some(i) => {
                proof {
                    use_type_invariant(self);
                    self.lemma_entries();
                    lemma_key_pos(self.entries(), i as int);
                }
                Some(&self.vals[i])
            },
            None => None,
        }
    }

    /// The value for `k`, to change in place.
    pub fn get_mut(&mut self, k: u128) -> (r: Option<&mut V>)
        ensures
            match r {
                Some(v) => old(self)@.contains_key(k) && *v == old(self)@[k] && final(self)@ == old(
                    self,
                )@.insert(k, *final(v)) && seq_keys(final(self).entries()) == seq_keys(
                    old(self).entries(),
                ),
                None => !old(self)@.contains_key(k) && *final(self) == *old(self),
            },
    {
        proof {
            use_type_invariant(&*self);
            self.lemma_entries();
        }
        match self.position(k) {
            Some(i) => {
                let ghost old_s = self.entries();
                proof {
                    lemma_key_pos(old_s, i as int);
                }
                let v = &mut self.vals[i];
                proof {
                    lemma_update_at(old_s, i as int, *final(v));
                    assert(zip_entries(self.keys@, old(self).vals@.update(i as int, *final(v))) =~= old_s.update(
                        i as int,
                        (k, *final(v)),
                    ));
                }
                Some(v)
            },
            None => None,
        }
    }

    /// Inserts or replaces the value for `k`, keeping ascending order.
    pub fn insert(&mut self, k: u128, v: V)
        ensures
            final(self)@ == old(self)@.insert(k, v),
            old(self)@.contains_key(k) ==> seq_keys(final(self).entries()) == seq_keys(
                old(self).entries(),
            ),
    {
        proof {
            use_type_invariant(&*self);
            self.lemma_entries();
        }
        let ghost old_s = self.entries();
        let mut i: usize = 0;
        while i < self.keys.len() && self.keys[i] < k
            invariant
                self.entries() == old_s,
                keys_increasing(old_s),
                old_s.len() == self.keys@.len(),
                forall|j: int| 0 <= j < self.keys@.len() ==> #[trigger] old_s[j] == (self.keys@[j], self.vals@[j]),
                i <= old_s.len(),
                forall|j: int| 0 <= j < i ==> #[trigger] old_s[j].0 < k,
            decreases old_s.len() - i,
        {
            i = i + 1;
        }
        if i < self.keys.len() && self.keys[i] == k {
            proof {
                lemma_update_at(old_s, i as int, v);
            }
            let ghost new_s = old_s.update(i as int, (k, v));
            let mut emptied = IdMap { keys: Vec::new(), vals: Vec::new() };
            std::mem::swap(&mut emptied, self);
            let IdMap { keys: ks, vals: mut vs } = emptied;
            vs.set(i, v);
            proof {
                assert(zip_entries(ks@, vs@) =~= new_s);
            }
            *self = IdMap { keys: ks, vals: vs };
        } else {
            let ghost new_s = old_s.insert(i as int, (k, v));
            proof {
                assert forall|a: int, b: int| 0 <= a < b < new_s.len() implies #[trigger] new_s[a].0
                    < #[trigger] new_s[b].0 by {
                    if b < i {
                        assert(old_s[a].0 < old_s[b].0);
                    } else if b == i {
                        assert(old_s[a].0 < k);
                    } else if a < i {
                        assert(old_s[a].0 < k);
                        if i < old_s.len() {
                            assert(k < old_s[i as int].0);
                            if b - 1 > i {
                                assert(old_s[i as int].0 < old_s[b - 1].0);
                            }
                        }
                    } else if a == i {
                        assert(k < old_s[i as int].0);
                        if b - 1 > i {
                            assert(old_s[i as int].0 < old_s[b - 1].0);
                        }
                    } else {
                        assert(old_s[a - 1].0 < old_s[b - 1].0);
                    }
                }
                assert(!seq_has_key(old_s, k)) by {
                    if seq_has_key(old_s, k) {
                        let p = seq_key_pos(old_s, k);
                        if p < i {
                            assert(old_s[p].0 < k);
                        } else if p > i {
                            assert(old_s[i as int].0 < old_s[p].0);
                            assert(k < old_s[i as int].0);
                        } else {
                            assert(old_s[i as int].0 != k);
                        }
                    }
                }
                assert(seq_to_map(new_s) =~= seq_to_map(old_s).insert(k, v)) by {
                    assert forall|x: u128| seq_has_key(new_s, x) == (seq_has_key(old_s, x) || x
                        == k) by {
                        if seq_has_key(old_s, x) {
                            let p = seq_key_pos(old_s, x);
                            if p < i {
                                assert(new_s[p].0 == x);
                            } else {
                                assert(new_s[p + 1].0 == x);
                            }
                        }
                        if x == k {
                            assert(new_s[i as int].0 == k);
                        }
                        if seq_has_key(new_s, x) {
                            let p = seq_key_pos(new_s, x);
                            if p < i {
                                assert(old_s[p].0 == x);
                            } else if p > i {
                                assert(old_s[p - 1].0 == x);
                            }
                        }
                    }
                    assert forall|x: u128| #[trigger] seq_has_key(new_s, x) implies seq_to_map(
                        new_s,
                    )[x] == seq_to_map(old_s).insert(k, v)[x] by {
                        let p = seq_key_pos(new_s, x);
                        lemma_key_pos(new_s, p);
                        if p < i {
                            lemma_key_pos(old_s, p);
                        } else if p > i {
                            lemma_key_pos(old_s, p - 1);
                        }
                    }
                }
            }
            let mut emptied = IdMap { keys: Vec::new(), vals: Vec::new() };
            std::mem::swap(&mut emptied, self);
            let IdMap { keys: mut ks, vals: mut vs } = emptied;
            ks.insert(i, k);
            vs.insert(i, v);
            proof {
                assert(zip_entries(ks@, vs@) =~= new_s);
                assert forall|a: int, b: int| 0 <= a < b < ks@.len() implies #[trigger] ks@[a]
                    < #[trigger] ks@[b] by {
                    assert(new_s[a].0 < new_s[b].0);
                }
            }
            *self = IdMap { keys: ks, vals: vs };
        }
    }

    /// Removes and returns the value for `k`.
    pub fn take(&mut self, k: u128) -> (r: Option<V>)
        ensures
            final(self)@ == old(self)@.remove(k),
            match r {
                Some(v) => old(self)@.contains_key(k) && v == old(self)@[k],
                None => !old(self)@.contains_key(k) && final(self).entries() == old(self).entries(),
            },
    {
        proof {
            use_type_invariant(&*self);
            self.lemma_entries();
        }
        match self.position(k) {
            None => {
                assert(self@ =~= self@.remove(k));
                None
            },
            Some(i) => {
                let ghost old_s = self.entries();
                let ghost new_s = old_s.remove(i as int);
                proof {
                    lemma_key_pos(old_s, i as int);
                    assert forall|a: int, b: int| 0 <= a < b < new_s.len() implies #[trigger] new_s[a].0
                        < #[trigger] new_s[b].0 by {
                        if b < i {
                            assert(old_s[a].0 < old_s[b].0);
                        } else if a < i {
                            assert(old_s[a].0 < old_s[b + 1].0);
                        } else {
                            assert(old_s[a + 1].0 < old_s[b + 1].0);
                        }
                    }
                    assert(seq_to_map(new_s) =~= seq_to_map(old_s).remove(k)) by {
                        assert forall|x: u128| seq_has_key(new_s, x) == (seq_has_key(old_s, x) && x
                            != k) by {
                            if seq_has_key(old_s, x) && x != k {
                                let p = seq_key_pos(old_s, x);
                                if p < i {
                                    assert(new_s[p].0 == x);
                                } else {
                                    assert(p != i);
                                    assert(new_s[p - 1].0 == x);
                                }
                            }
                            if seq_has_key(new_s, x) {
                                let p = seq_key_pos(new_s, x);
                                if p < i {
                                    assert(old_s[p].0 == x);
                                    assert(old_s[p].0 < old_s[i as int].0);
                                } else {
                                    assert(old_s[p + 1].0 == x);
                                    assert(old_s[i as int].0 < old_s[p + 1].0);
                                }
                            }
                        }
                        assert forall|x: u128| #[trigger] seq_has_key(new_s, x) implies seq_to_map(
                            new_s,
                        )[x] == seq_to_map(old_s).remove(k)[x] by {
                            let p = seq_key_pos(new_s, x);
                            lemma_key_pos(new_s, p);
                            if p < i {
                                lemma_key_pos(old_s, p);
                            } else {
                                lemma_key_pos(old_s, p + 1);
                            }
                        }
                    }
                }
                let mut emptied = IdMap { keys: Vec::new(), vals: Vec::new() };
                std::mem::swap(&mut emptied, self);
                let IdMap { keys: mut ks, vals: mut vs } = emptied;
                ks.remove(i);
                let v = vs.remove(i);
                proof {
                    assert(zip_entries(ks@, vs@) =~= new_s);
                    assert forall|a: int, b: int| 0 <= a < b < ks@.len() implies #[trigger] ks@[a]
                        < #[trigger] ks@[b] by {
                        assert(new_s[a].0 < new_s[b].0);
                    }
                }
                *self = IdMap { keys: ks, vals: vs };
                Some(v)
            },
        }
    }
}

/// A sorted entry sequence denotes a map with as many keys as entries.
pub proof fn lemma_map_len<V>(s: Seq<(u128, V)>)
    requires
        keys_increasing(s),
    ensures
        seq_to_map(s).dom().finite(),
        seq_to_map(s).len() == s.len(),
    decreases s.len(),
{
    if s.len() == 0 {
        assert(seq_to_map(s).dom() =~= Set::<u128>::empty());
    } else {
        let t = s.drop_last();
        let last = s.last();
        assert(keys_increasing(t)) by {
            assert forall|a: int, b: int| 0 <= a < b < t.len() implies #[trigger] t[a].0
                < #[trigger] t[b].0 by {
                assert(s[a].0 < s[b].0);
            }
        }
        lemma_map_len(t);
        assert(seq_to_map(s).dom() =~= seq_to_map(t).dom().insert(last.0)) by {
            assert forall|x: u128| seq_has_key(s, x) == (seq_has_key(t, x) || x == last.0) by {
                if seq_has_key(s, x) {
                    let p = seq_key_pos(s, x);
                    if p < t.len() {
                        assert(t[p].0 == x);
                    }
                }
                if seq_has_key(t, x) {
                    let p = seq_key_pos(t, x);
                    assert(s[p].0 == x);
                }
                if x == last.0 {
                    assert(s[s.len() - 1].0 == x);
                }
            }
        }
        assert(!seq_to_map(t).dom().contains(last.0)) by {
            if seq_has_key(t, last.0) {
                let p = seq_key_pos(t, last.0);
                assert(s[p].0 < s[s.len() - 1].0);
            }
        }
    }
}

impl<V: Clone> Clone for IdMap<V> {
    fn clone(&self) -> (res: Self)
        ensures
            seq_keys(res.entries()) == seq_keys(self.entries()),
            forall|i: int|
                0 <= i < self.entries().len() ==> cloned::<V>(
                    self.entries()[i].1,
                    #[trigger] res.entries()[i].1,
                ),
    {
        proof {
            use_type_invariant(self);
            self.lemma_entries();
        }
        let mut keys: Vec<u128> = Vec::new();
        let mut vals: Vec<V> = Vec::new();
        let mut i: usize = 0;
        while i < self.keys.len()
            invariant
                i <= self.keys@.len(),
                self.keys@.len() == self.vals@.len(),
                keys@.len() == i,
                vals@.len() == i,
                forall|a: int, b: int|
                    0 <= a < b < self.keys@.len() ==> #[trigger] self.keys@[a] < #[trigger] self.keys@[b],
                forall|j: int| 0 <= j < i ==> #[trigger] keys@[j] == self.keys@[j],
                forall|j: int| 0 <= j < i ==> cloned::<V>(self.vals@[j], #[trigger] vals@[j]),
            decreases self.keys@.len() - i,
        {
            keys.push(self.keys[i]);
            vals.push(self.vals[i].clone());
            i = i + 1;
        }
        proof {
            assert forall|a: int, b: int| 0 <= a < b < keys@.len() implies #[trigger] keys@[a]
                < #[trigger] keys@[b] by {
                assert(self.keys@[a] < self.keys@[b]);
            }
        }
        let res = IdMap { keys, vals };
        proof {
            assert(seq_keys(res.entries()) =~= seq_keys(self.entries()));
        }
        res
    }
}

impl<V> IdMap<V> {
    /// A key is present exactly when some entry holds it.
    pub proof fn lemma_cover(&self)
        ensures
            forall|k: u128| #[trigger]
                self@.contains_key(k) <==> exists|i: int|
                    0 <= i < self.entries().len() && #[trigger] self.entries()[i].0 == k,
    {
        assert forall|k: u128| #[trigger]
            self@.contains_key(k) <==> exists|i: int|
                0 <= i < self.entries().len() && #[trigger] self.entries()[i].0 == k by {
            assert(self@.contains_key(k) == seq_has_key(self.entries(), k));
            if seq_has_key(self.entries(), k) {
                let i = seq_key_pos(self.entries(), k);
                assert(self.entries()[i].0 == k);
            }
        }
    }
}

impl<V> View for IdMap<V> {
    type V = Map<u128, V>;

    closed spec fn view(&self) -> Map<u128, V> {
        seq_to_map(self.entries())
    }
}

/// Index from idempotency key text to the event that used it.
#[derive(Debug, PartialEq, Eq)]
pub struct KeyIndex {
    entries: Vec<(IdempotencyKey, EventId)>,
}

/// Whether the key texts of an index are pairwise distinct.
pub open spec fn index_keys_distinct(s: Seq<(IdempotencyKey, EventId)>) -> bool {
    forall|i: int, j: int|
        0 <= i < j < s.len() ==> #[trigger] s[i].0.0@ != #[trigger] s[j].0.0@
}

pub open spec fn index_has(s: Seq<(IdempotencyKey, EventId)>, k: Seq<char>) -> bool {
    exists|i: int| 0 <= i < s.len() && #[trigger] s[i].0.0@ == k
}

pub open spec fn index_pos(s: Seq<(IdempotencyKey, EventId)>, k: Seq<char>) -> int {
    choose|i: int| 0 <= i < s.len() && #[trigger] s[i].0.0@ == k
}

impl KeyIndex {
    #[verifier::type_invariant]
    spec fn distinct(&self) -> bool {
        index_keys_distinct(self.entries@)
    }

    pub fn new() -> (m: Self)
        ensures
            m@ == Map::<Seq<char>, EventId>::empty(),
    {
        let m = KeyIndex { entries: Vec::new() };
        assert(m@ =~= Map::<Seq<char>, EventId>::empty());
        m
    }

    pub fn len(&self) -> (n: usize)
        ensures
            n == self@.len(),
    {
        proof {
            use_type_invariant(self);
            lemma_index_len(self.entries@);
        }
        self.entries.len()
    }

    pub fn get(&self, key: &IdempotencyKey) -> (r: Option<EventId>)
        ensures
            match r {
                Some(id) => self@.contains_key(key.0@) && id == self@[key.0@],
                None => !self@.contains_key(key.0@),
            },
    {
        proof {
            use_type_invariant(self);
        }
        let mut i: usize = 0;
        while i < self.entries.len()
            invariant
                i <= self.entries@.len(),
                index_keys_distinct(self.entries@),
                forall|j: int| 0 <= j < i ==> #[trigger] self.entries@[j].0.0@ != key.0@,
            decreases self.entries@.len() - i,
        {
            if self.entries[i].0.same(key) {
                proof {
                    let p = index_pos(self.entries@, key.0@);
                    assert(index_has(self.entries@, key.0@));
                    if p != i {
                        if p < i {
                            assert(self.entries@[p].0.0@ != self.entries@[i as int].0.0@);
                        } else {
                            assert(self.entries@[i as int].0.0@ != self.entries@[p].0.0@);
                        }
                    }
                }
                return Some(self.entries[i].1);
            }
            i = i + 1;
        }
        None
    }

    /// Records a key that is not yet present.
    pub fn insert(&mut self, key: IdempotencyKey, id: EventId)
        requires
            !old(self)@.contains_key(key.0@),
        ensures
            final(self)@ == old(self)@.insert(key.0@, id),
    {
        proof {
            use_type_invariant(&*self);
        }
        let ghost old_s = self.entries@;
        let ghost k = key.0@;
        let mut entries: Vec<(IdempotencyKey, EventId)> = Vec::new();
        std::mem::swap(&mut entries, &mut self.entries);
        entries.push((key, id));
        proof {
            let new_s = entries@;
            assert(new_s == old_s.push(new_s.last()));
            assert forall|i: int, j: int|
                0 <= i < j < new_s.len() implies #[trigger] new_s[i].0.0@ != #[trigger] new_s[j].0.0@ by {
                if j < old_s.len() {
                    assert(old_s[i].0.0@ != old_s[j].0.0@);
                } else {
                    assert(!index_has(old_s, k));
                    assert(old_s[i].0.0@ != k);
                }
            }
            assert forall|x: Seq<char>| index_has(new_s, x) == (index_has(old_s, x) || x == k) by {
                if index_has(old_s, x) {
                    let p = index_pos(old_s, x);
                    assert(new_s[p].0.0@ == x);
                }
                if x == k {
                    assert(new_s[old_s.len() as int].0.0@ == k);
                }
                if index_has(new_s, x) {
                    let p = index_pos(new_s, x);
                    if p < old_s.len() {
                        assert(old_s[p].0.0@ == x);
                    }
                }
            }
            assert(seq_index_to_map(new_s) =~= seq_index_to_map(old_s).insert(k, id)) by {
                assert forall|x: Seq<char>| #[trigger] index_has(new_s, x) implies seq_index_to_map(
                    new_s,
                )[x] == seq_index_to_map(old_s).insert(k, id)[x] by {
                    let p = index_pos(new_s, x);
                    if x == k {
                        if p < old_s.len() {
                            assert(old_s[p].0.0@ == k);
                            assert(index_has(old_s, k));
                        }
                    } else {
                        assert(p < old_s.len());
                        assert(index_has(old_s, x));
                        let q = index_pos(old_s, x);
                        if p != q {
                            if p < q {
                                assert(old_s[p].0.0@ != old_s[q].0.0@);
                            } else {
                                assert(old_s[q].0.0@ != old_s[p].0.0@);
                            }
                        }
                    }
                }
            }
        }
        self.entries = entries;
    }
}

pub open spec fn seq_index_to_map(s: Seq<(IdempotencyKey, EventId)>) -> Map<Seq<char>, EventId> {
    Map::new(|k: Seq<char>| index_has(s, k), |k: Seq<char>| s[index_pos(s, k)].1)
}

/// An index with distinct keys has as many keys as entries.
pub proof fn lemma_index_len(s: Seq<(IdempotencyKey, EventId)>)
    requires
        index_keys_distinct(s),
    ensures
        seq_index_to_map(s).dom().finite(),
        seq_index_to_map(s).len() == s.len(),
    decreases s.len(),
{
    if s.len() == 0 {
        assert(seq_index_to_map(s).dom() =~= Set::<Seq<char>>::empty());
    } else {
        let t = s.drop_last();
        let last = s.last().0.0@;
        assert(index_keys_distinct(t)) by {
            assert forall|a: int, b: int| 0 <= a < b < t.len() implies #[trigger] t[a].0.0@
                != #[trigger] t[b].0.0@ by {
                assert(s[a].0.0@ != s[b].0.0@);
            }
        }
        lemma_index_len(t);
        assert(seq_index_to_map(s).dom() =~= seq_index_to_map(t).dom().insert(last)) by {
            assert forall|x: Seq<char>| index_has(s, x) == (index_has(t, x) || x == last) by {
                if index_has(s, x) {
                    let p = index_pos(s, x);
                    if p < t.len() {
                        assert(t[p].0.0@ == x);
                    }
                }
                if index_has(t, x) {
                    let p = index_pos(t, x);
                    assert(s[p].0.0@ == x);
                }
                if x == last {
                    assert(s[s.len() - 1].0.0@ == x);
                }
            }
        }
        assert(!seq_index_to_map(t).dom().contains(last)) by {
            if index_has(t, last) {
                let p = index_pos(t, last);
                assert(s[p].0.0@ != s[s.len() - 1].0.0@);
            }
        }
    }
}

impl View for KeyIndex {
    type V = Map<Seq<char>, EventId>;

    closed spec fn view(&self) -> Map<Seq<char>, EventId> {
        seq_index_to_map(self.entries@)
    }
}

impl Clone for KeyIndex {
    fn clone(&self) -> (res: Self)
        ensures
            res@ == self@,
    {
        proof {
            use_type_invariant(self);
        }
        let mut entries: Vec<(IdempotencyKey, EventId)> = Vec::new();
        let mut i: usize = 0;
        while i < self.entries.len()
            invariant
                i <= self.entries@.len(),
                entries@.len() == i,
                index_keys_distinct(self.entries@),
                forall|j: int| 0 <= j < i ==> #[trigger] entries@[j].0.0@ == self.entries@[j].0.0@
                    && entries@[j].1 == self.entries@[j].1,
            decreases self.entries@.len() - i,
        {
            let k = self.entries[i].0.to_string();
            let v = self.entries[i].1;
            entries.push((IdempotencyKey(k), v));
            i = i + 1;
        }
        proof {
            assert forall|a: int, b: int| 0 <= a < b < entries@.len() implies #[trigger] entries@[a].0.0@
                != #[trigger] entries@[b].0.0@ by {
                assert(self.entries@[a].0.0@ != self.entries@[b].0.0@);
            }
            assert forall|x: Seq<char>| index_has(entries@, x) == index_has(self.entries@, x) by {
                if index_has(entries@, x) {
                    let p = index_pos(entries@, x);
                    assert(self.entries@[p].0.0@ == x);
                }
                if index_has(self.entries@, x) {
                    let p = index_pos(self.entries@, x);
                    assert(entries@[p].0.0@ == x);
                }
            }
            assert(seq_index_to_map(entries@) =~= seq_index_to_map(self.entries@)) by {
                assert forall|x: Seq<char>| #[trigger] index_has(entries@, x) implies seq_index_to_map(
                    entries@,
                )[x] == seq_index_to_map(self.entries@)[x] by {
                    let p = index_pos(entries@, x);
                    let q = index_pos(self.entries@, x);
                    assert(self.entries@[p].0.0@ == x);
                    if p != q {
                        if p < q {
                            assert(self.entries@[p].0.0@ != self.entries@[q].0.0@);
                        } else {
                            assert(self.entries@[q].0.0@ != self.entries@[p].0.0@);
                        }
                    }
                }
            }
        }
        KeyIndex { entries }
    }
}

} // verus!
