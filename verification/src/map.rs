//! A map kept in the order of its keys.
//!
//! The entries lie in a vector in ascending key order, one per key, so walking the map is
//! deterministic and the panels list their rows the same way on every run.

use vstd::prelude::*;

use crate::text::{
    comes_before, lemma_precedes_irreflexive, lemma_precedes_total, lemma_precedes_transitive,
    precedes,
};

verus! {

/// A strict total order on the model of a key.
pub trait Ordered: Sized {
    spec fn before(self, other: Self) -> bool;

    proof fn irreflexive(a: Self)
        ensures
            !a.before(a),
    ;

    proof fn transitive(a: Self, b: Self, c: Self)
        requires
            a.before(b),
            b.before(c),
        ensures
            a.before(c),
    ;

    proof fn total(a: Self, b: Self)
        ensures
            a == b || a.before(b) || b.before(a),
    ;
}

/// A key that can be compared.
pub trait MapKey: View where Self::V: Ordered {
    fn is_before(&self, other: &Self) -> (r: bool)
        ensures
            r == self@.before(other@),
    ;
}

impl Ordered for Seq<char> {
    open spec fn before(self, other: Self) -> bool {
        precedes(self, other)
    }

    proof fn irreflexive(a: Self) {
        lemma_precedes_irreflexive(a);
    }

    proof fn transitive(a: Self, b: Self, c: Self) {
        lemma_precedes_transitive(a, b, c);
    }

    proof fn total(a: Self, b: Self) {
        lemma_precedes_total(a, b);
    }
}

impl MapKey for String {
    fn is_before(&self, other: &Self) -> (r: bool) {
        comes_before(self.as_str(), other.as_str())
    }
}

/// The position at which the key `k` stands, or would stand: that of the first entry whose
/// key does not come before it.
pub open spec fn slot<K: Ordered, V>(s: Seq<(K, V)>, k: K) -> int
    decreases s.len(),
{
    if s.len() == 0 || !s[0].0.before(k) {
        0
    } else {
        1 + slot(s.drop_first(), k)
    }
}

/// `s` has an entry for `k`.
pub open spec fn holds_key<K: Ordered, V>(s: Seq<(K, V)>, k: K) -> bool {
    slot(s, k) < s.len() && s[slot(s, k)].0 == k
}

/// What `s` holds for `k`.
pub open spec fn lookup<K: Ordered, V>(s: Seq<(K, V)>, k: K) -> Option<V> {
    if holds_key(s, k) {
        Some(s[slot(s, k)].1)
    } else {
        None
    }
}

/// `s` with `v` for `k`.
pub open spec fn upsert<K: Ordered, V>(s: Seq<(K, V)>, k: K, v: V) -> Seq<(K, V)> {
    if holds_key(s, k) {
        s.update(slot(s, k), (k, v))
    } else {
        s.insert(slot(s, k), (k, v))
    }
}

/// The keys of `s` ascend: one entry per key.
pub open spec fn ordered<K: Ordered, V>(s: Seq<(K, V)>) -> bool {
    forall|i: int, j: int| 0 <= i < j < s.len() ==> (#[trigger] s[i]).0.before((#[trigger] s[j]).0)
}

/// [`slot`] lies in the sequence and every entry before it has a smaller key.
pub proof fn lemma_slot<K: Ordered, V>(s: Seq<(K, V)>, k: K)
    ensures
        0 <= slot(s, k) <= s.len(),
        slot(s, k) < s.len() ==> !s[slot(s, k)].0.before(k),
        forall|i: int| 0 <= i < slot(s, k) ==> (#[trigger] s[i]).0.before(k),
    decreases s.len(),
{
    if s.len() > 0 && s[0].0.before(k) {
        lemma_slot(s.drop_first(), k);
        assert forall|i: int| 0 <= i < slot(s, k) implies (#[trigger] s[i]).0.before(k) by {
            if i > 0 {
                assert(s[i] == s.drop_first()[i - 1]);
            }
        }
    }
}

/// The slot of a key depends on the keys alone.
pub proof fn lemma_slot_of_same_keys<K: Ordered, V, W>(s: Seq<(K, V)>, t: Seq<(K, W)>, k: K)
    requires
        s.len() == t.len(),
        forall|i: int| 0 <= i < s.len() ==> (#[trigger] s[i]).0 == t[i].0,
    ensures
        slot(s, k) == slot(t, k),
        holds_key(s, k) == holds_key(t, k),
    decreases s.len(),
{
    lemma_slot(s, k);
    if s.len() > 0 && s[0].0.before(k) {
        assert forall|i: int| 0 <= i < s.drop_first().len() implies (#[trigger] s.drop_first()[i]).0
            == t.drop_first()[i].0 by {
            assert(s.drop_first()[i] == s[i + 1]);
        }
        lemma_slot_of_same_keys(s.drop_first(), t.drop_first(), k);
    }
}

/// In an ordered map an entry stands in its key's slot, so [`holds_key`] is membership.
pub proof fn lemma_has_is_membership<K: Ordered, V>(s: Seq<(K, V)>, k: K)
    requires
        ordered(s),
    ensures
        holds_key(s, k) <==> exists|i: int| 0 <= i < s.len() && (#[trigger] s[i]).0 == k,
{
    lemma_slot(s, k);
    if exists|i: int| 0 <= i < s.len() && (#[trigger] s[i]).0 == k {
        let i = choose|i: int| 0 <= i < s.len() && (#[trigger] s[i]).0 == k;
        let j = slot(s, k);
        if i < j {
            K::irreflexive(k);
        } else if j < i {
            assert(s[j].0.before(s[i].0));
        }
    }
}

/// In an ordered map every entry is what the map holds for its key.
pub proof fn lemma_entry_is_found<K: Ordered, V>(s: Seq<(K, V)>, i: int)
    requires
        ordered(s),
        0 <= i < s.len(),
    ensures
        lookup(s, s[i].0) == Some(s[i].1),
{
    lemma_has_is_membership(s, s[i].0);
    lemma_slot(s, s[i].0);
    lemma_only_one_entry(s, s[i].0, i, slot(s, s[i].0));
}

/// Writing an entry keeps a map ordered, changes what the map holds for that key and leaves
/// every other key alone.
pub proof fn law_upsert<K: Ordered, V>(s: Seq<(K, V)>, k: K, v: V, other: K)
    requires
        ordered(s),
    ensures
        ordered(upsert(s, k, v)),
        lookup(upsert(s, k, v), k) == Some(v),
        other != k ==> lookup(upsert(s, k, v), other) == lookup(s, other),
{
    let t = upsert(s, k, v);
    let p = slot(s, k);
    lemma_slot(s, k);
    if holds_key(s, k) {
        assert forall|i: int, j: int| 0 <= i < j < t.len() implies (#[trigger] t[i]).0.before(
            (#[trigger] t[j]).0,
        ) by {
            assert(s[i].0.before(s[j].0));
        }
    } else {
        if p < s.len() {
            K::total(k, s[p].0);
        }
        assert forall|i: int, j: int| 0 <= i < j < t.len() implies (#[trigger] t[i]).0.before(
            (#[trigger] t[j]).0,
        ) by {
            if i < p && j == p {
                assert(s[i].0.before(k));
            } else if i == p {
                assert(t[j] == s[j - 1]);
                if j - 1 > p {
                    K::transitive(k, s[p].0, s[j - 1].0);
                }
            } else if i < p && j > p {
                assert(t[j] == s[j - 1]);
                assert(s[i].0.before(s[j - 1].0));
            } else if i > p {
                assert(t[i] == s[i - 1]);
                assert(t[j] == s[j - 1]);
                assert(s[i - 1].0.before(s[j - 1].0));
            } else {
                assert(s[i].0.before(s[j].0));
            }
        }
    }
    assert(t[p] == (k, v));
    lemma_has_is_membership(t, k);
    lemma_slot(t, k);
    lemma_only_one_entry(t, k, p, slot(t, k));
    if other != k {
        lemma_has_is_membership(s, other);
        lemma_has_is_membership(t, other);
        lemma_slot(t, other);
        lemma_slot(s, other);
        let shift = if holds_key(s, k) {
            0int
        } else {
            1int
        };
        if holds_key(s, other) {
            let i = slot(s, other);
            let j = if i < p {
                i
            } else if i == p {
                if holds_key(s, k) {
                    i
                } else {
                    i + 1
                }
            } else {
                i + shift
            };
            assert(t[j] == s[i]);
            lemma_only_one_entry(t, other, j, slot(t, other));
        }
        if holds_key(t, other) {
            let j = slot(t, other);
            assert(j != p);
            let i = if j < p {
                j
            } else {
                j - shift
            };
            assert(s[i] == t[j]);
        }
    }
}

proof fn lemma_only_one_entry<K: Ordered, V>(s: Seq<(K, V)>, k: K, i: int, j: int)
    requires
        ordered(s),
        0 <= i < s.len(),
        0 <= j < s.len(),
        s[i].0 == k,
        s[j].0 == k,
    ensures
        i == j,
{
    K::irreflexive(k);
    if i < j {
        assert(s[i].0.before(s[j].0));
    } else if j < i {
        assert(s[j].0.before(s[i].0));
    }
}

/// `s` with `v` for `k` where `s` has no entry for `k`.
pub open spec fn with_default<K: Ordered, V>(s: Seq<(K, V)>, k: K, v: V) -> Seq<(K, V)> {
    if holds_key(s, k) {
        s
    } else {
        s.insert(slot(s, k), (k, v))
    }
}

/// A key that was given a value has it, in the slot it had before; writing the entry then is
/// writing it at once.
pub proof fn lemma_with_default<K: Ordered, V>(s: Seq<(K, V)>, k: K, v: V, w: V)
    ensures
        slot(with_default(s, k, v), k) == slot(s, k),
        holds_key(with_default(s, k, v), k),
        with_default(s, k, v)[slot(s, k)] == (k, match lookup(s, k) {
            Some(x) => x,
            None => v,
        }),
        with_default(s, k, v).update(slot(s, k), (k, w)) == upsert(s, k, w),
{
    lemma_slot(s, k);
    if !holds_key(s, k) {
        let t = s.insert(slot(s, k), (k, v));
        K::irreflexive(k);
        lemma_slot_is(t, k, slot(s, k));
        assert(t.update(slot(s, k), (k, w)) =~= s.insert(slot(s, k), (k, w)));
    }
}

proof fn lemma_slot_is<K: Ordered, V>(s: Seq<(K, V)>, k: K, p: int)
    requires
        0 <= p < s.len(),
        !s[p].0.before(k),
        forall|i: int| 0 <= i < p ==> (#[trigger] s[i]).0.before(k),
    ensures
        slot(s, k) == p,
    decreases p,
{
    if p > 0 {
        assert(s[0].0.before(k));
        let t = s.drop_first();
        assert(t[p - 1] == s[p]);
        assert forall|i: int| 0 <= i < p - 1 implies (#[trigger] t[i]).0.before(k) by {
            assert(t[i] == s[i + 1]);
        }
        lemma_slot_is(t, k, p - 1);
    }
}

/// The entries with the model of each value.
pub open spec fn models<K, V: View>(s: Seq<(K, V)>) -> Seq<(K, V::V)> {
    Seq::new(s.len(), |i: int| (s[i].0, s[i].1@))
}

/// Looking a key up in the models is looking it up in the entries.
pub proof fn lemma_models<K: Ordered, V: View>(s: Seq<(K, V)>, k: K)
    ensures
        slot(models(s), k) == slot(s, k),
        holds_key(models(s), k) == holds_key(s, k),
        lookup(models(s), k) == (match lookup(s, k) {
            Some(v) => Some(v@),
            None => None,
        }),
{
    lemma_slot(s, k);
    lemma_slot_of_same_keys(s, models(s), k);
}

/// Writing an entry writes the model.
pub proof fn lemma_models_upsert<K: Ordered, V: View>(s: Seq<(K, V)>, k: K, v: V)
    ensures
        models(upsert(s, k, v)) == upsert(models(s), k, v@),
{
    lemma_models(s, k);
    lemma_slot(s, k);
    assert(models(upsert(s, k, v)) =~= upsert(models(s), k, v@));
}

/// A map with its entries in ascending key order.
pub struct OrderedMap<K, V> {
    entries: Vec<(K, V)>,
}

impl<K: View, V> View for OrderedMap<K, V> {
    type V = Seq<(K::V, V)>;

    closed spec fn view(&self) -> Seq<(K::V, V)> {
        Seq::new(self.entries@.len(), |i: int| (self.entries@[i].0@, self.entries@[i].1))
    }
}

impl<K: MapKey, V> OrderedMap<K, V> where K::V: Ordered {
    pub fn new() -> (m: OrderedMap<K, V>)
        ensures
            m@ == Seq::<(K::V, V)>::empty(),
    {
        let m = OrderedMap { entries: Vec::new() };
        assert(m@ =~= Seq::<(K::V, V)>::empty());
        m
    }

    pub fn len(&self) -> (n: usize)
        ensures
            n == self@.len(),
    {
        self.entries.len()
    }

    /// The key of the entry at position `i`.
    pub fn key_at(&self, i: usize) -> (k: &K)
        requires
            i < self@.len(),
        ensures
            k@ == self@[i as int].0,
    {
        &self.entries[i].0
    }

    /// The value of the entry at position `i`.
    pub fn value_at(&self, i: usize) -> (v: &V)
        requires
            i < self@.len(),
        ensures
            *v == self@[i as int].1,
    {
        &self.entries[i].1
    }

    /// The value of the entry at position `i`, to be changed.
    pub fn value_at_mut(&mut self, i: usize) -> (v: &mut V)
        requires
            i < old(self)@.len(),
        ensures
            *v == old(self)@[i as int].1,
            final(self)@ == old(self)@.update(i as int, (old(self)@[i as int].0, *final(v))),
    {
        &mut self.entries[i].1
    }

    /// The position at which `k` stands or would stand.
    pub fn slot_of(&self, k: &K) -> (p: usize)
        ensures
            p == slot(self@, k@),
            p <= self@.len(),
    {
        let mut p: usize = 0;
        assert(self@.skip(0) =~= self@);
        while p < self.entries.len() && self.entries[p].0.is_before(k)
            invariant
                p <= self@.len(),
                self@.len() == self.entries@.len(),
                slot(self@, k@) == p + slot(self@.skip(p as int), k@),
            decreases self@.len() - p,
        {
            assert(self@.skip(p as int).drop_first() =~= self@.skip(p + 1));
            assert(self@.skip(p as int)[0] == self@[p as int]);
            p = p + 1;
        }
        if p < self.entries.len() {
            assert(self@.skip(p as int)[0] == self@[p as int]);
        }
        p
    }

    /// The position of the entry for `k`, where there is one.
    pub fn find(&self, k: &K) -> (r: Option<usize>)
        ensures
            r is Some <==> holds_key(self@, k@),
            r matches Some(i) ==> i == slot(self@, k@) && i < self@.len(),
    {
        let p: usize = self.slot_of(k);
        proof {
            lemma_slot(self@, k@);
        }
        if p < self.entries.len() && !k.is_before(&self.entries[p].0) {
            proof {
                K::V::total(k@, self@[p as int].0);
            }
            Some(p)
        } else {
            proof {
                if p < self@.len() {
                    K::V::irreflexive(k@);
                }
            }
            None
        }
    }

    /// What the map holds for `k`.
    pub fn get(&self, k: &K) -> (r: Option<&V>)
        ensures
            match r {
                Some(v) => lookup(self@, k@) == Some(*v),
                None => lookup(self@, k@) is None,
            },
    {
        match self.find(k) {
            Some(i) => Some(&self.entries[i].1),
            None => None,
        }
    }

    /// Write `v` for `k`.
    pub fn insert(&mut self, k: K, v: V)
        ensures
            final(self)@ == upsert(old(self)@, k@, v),
    {
        match self.find(&k) {
            Some(i) => {
                self.entries.set(i, (k, v));
                assert(self@ =~= upsert(old(self)@, k@, v));
            },
            None => {
                let p: usize = self.slot_of(&k);
                self.entries.insert(p, (k, v));
                assert(self@ =~= upsert(old(self)@, k@, v));
            },
        }
    }

    /// The position of the entry for `k`, which is made with `fresh` where there is none.
    pub fn entry(&mut self, k: K, fresh: V) -> (p: usize)
        ensures
            final(self)@ == with_default(old(self)@, k@, fresh),
            p == slot(old(self)@, k@),
            p < final(self)@.len(),
    {
        let p: usize = self.slot_of(&k);
        proof {
            lemma_slot(self@, k@);
            lemma_with_default(self@, k@, fresh, fresh);
        }
        match self.find(&k) {
            Some(_) => {},
            None => {
                self.entries.insert(p, (k, fresh));
                assert(self@ =~= with_default(old(self)@, k@, fresh));
            },
        }
        p
    }

    /// Remove the entry at position `i`.
    pub fn remove_at(&mut self, i: usize)
        requires
            i < old(self)@.len(),
        ensures
            final(self)@ == old(self)@.remove(i as int),
    {
        self.entries.remove(i);
        assert(self@ =~= old(self)@.remove(i as int));
    }
}

/// What a map holds for a key is the value of its entry for that key, where there is one.
pub proof fn law_lookups_find_their_entry<K: Ordered, V>(s: Seq<(K, V)>, k: K, v: V)
    requires
        ordered(s),
    ensures
        lookup(s, k) == Some(v) <==> s.contains((k, v)),
        lookup(s, k) is None <==> forall|i: int| 0 <= i < s.len() ==> (#[trigger] s[i]).0 != k,
{
    lemma_has_is_membership(s, k);
    lemma_slot(s, k);
    if s.contains((k, v)) {
        let i = choose|i: int| 0 <= i < s.len() && s[i] == (k, v);
        lemma_entry_is_found(s, i);
    }
    if lookup(s, k) == Some(v) {
        assert(s[slot(s, k)] == (k, v));
    }
}

} // verus!
