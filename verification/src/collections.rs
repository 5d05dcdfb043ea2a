//! Maps and sets over the game's closed enums. Every key type numbers its own
//! variants, so a map is a fixed row of slots and iterating one walks the keys
//! in declaration order, which is the order the sorted maps of a save use.
use core::marker::PhantomData;
use vstd::prelude::*;

verus! {

/// A closed set of keys, each with its own slot number.
pub trait Keyed: Sized + Copy {
    /// The slot this key lives in.
    spec fn key(self) -> nat;

    /// How many keys there are.
    spec fn key_count() -> nat;

    fn index(&self) -> (i: usize)
        ensures
            i as nat == self.key(),
            i < Self::key_count(),
    ;

    /// The key living in slot `i`.
    spec fn from_key(i: nat) -> Self;

    fn from_index(i: usize) -> (k: Self)
        requires
            i < Self::key_count(),
        ensures
            k.key() == i as nat,
            k == Self::from_key(i as nat),
    ;

    fn count() -> (n: usize)
        ensures
            n as nat == Self::key_count(),
    ;

    /// Distinct keys have distinct slots, and every slot is in range.
    proof fn key_injective(a: Self, b: Self)
        ensures
            a.key() == b.key() ==> a == b,
            a.key() < Self::key_count(),
            Self::from_key(a.key()) == a,
    ;

    /// Every slot holds the key it names.
    proof fn key_roundtrip(i: nat)
        requires
            i < Self::key_count(),
        ensures
            Self::from_key(i).key() == i,
    ;
}

/// A map from a closed key set to values, with the sorted map's interface.
#[derive(Debug)]
pub struct EnumMap<K, V> {
    slots: Vec<Option<V>>,
    marker: PhantomData<K>,
}

impl<K: Keyed, V> View for EnumMap<K, V> {
    type V = Map<K, V>;

    closed spec fn view(&self) -> Map<K, V> {
        Map::new(
            |k: K| k.key() < self.slots@.len() && self.slots@[k.key() as int] is Some,
            |k: K| self.slots@[k.key() as int]->Some_0,
        )
    }
}

impl<K: Keyed, V: Copy> EnumMap<K, V> {
    /// Every key has its slot.
    pub closed spec fn wf(&self) -> bool {
        self.slots@.len() == K::key_count()
    }

    /// Whether every key has its slot.
    pub fn is_wf(&self) -> (r: bool)
        ensures
            r == self.wf(),
    {
        self.slots.len() == K::count()
    }

    pub fn new() -> (m: Self)
        ensures
            m.wf(),
            m@ == Map::<K, V>::empty(),
    {
        let n = K::count();
        let mut slots: Vec<Option<V>> = Vec::new();
        while slots.len() < n
            invariant
                slots.len() <= n,
                n == K::key_count(),
                forall|i: int| 0 <= i < slots.len() ==> slots@[i] is None,
            decreases n - slots.len(),
        {
            slots.push(None);
        }
        let m = EnumMap { slots, marker: PhantomData };
        assert(m@ =~= Map::<K, V>::empty());
        m
    }

    pub fn get(&self, k: &K) -> (r: Option<&V>)
        requires
            self.wf(),
        ensures
            r is Some <==> self@.contains_key(*k),
            r matches Some(v) ==> *v == self@[*k],
    {
        proof {
            K::key_injective(*k, *k);
        }
        let i = k.index();
        match &self.slots[i] {
            Some(v) => Some(v),
            None => None,
        }
    }

    pub fn contains_key(&self, k: &K) -> (r: bool)
        requires
            self.wf(),
        ensures
            r == self@.contains_key(*k),
    {
        proof {
            K::key_injective(*k, *k);
        }
        let i = k.index();
        self.slots[i].is_some()
    }

    pub fn insert(&mut self, k: K, v: V) -> (r: Option<V>)
        requires
            old(self).wf(),
        ensures
            final(self).wf(),
            final(self)@ == old(self)@.insert(k, v),
            r == (if old(self)@.contains_key(k) { Some(old(self)@[k]) } else { None::<V> }),
    {
        proof {
            K::key_injective(k, k);
        }
        let i = k.index();
        let previous = self.slots[i];
        self.slots.set(i, Some(v));
        proof {
            assert forall|j: K| #[trigger] final(self)@.contains_key(j) == old(self)@.insert(
                k,
                v,
            ).contains_key(j) by {
                K::key_injective(j, k);
            }
            assert forall|j: K| #[trigger] final(self)@.contains_key(j) implies final(self)@[j]
                == old(self)@.insert(k, v)[j] by {
                K::key_injective(j, k);
            }
            assert(final(self)@ =~= old(self)@.insert(k, v));
        }
        previous
    }

    pub fn remove(&mut self, k: &K) -> (r: Option<V>)
        requires
            old(self).wf(),
        ensures
            final(self).wf(),
            final(self)@ == old(self)@.remove(*k),
            r == (if old(self)@.contains_key(*k) { Some(old(self)@[*k]) } else { None::<V> }),
    {
        proof {
            K::key_injective(*k, *k);
        }
        let i = k.index();
        let previous = self.slots[i];
        self.slots.set(i, None);
        proof {
            assert forall|j: K| #[trigger] final(self)@.contains_key(j) == old(self)@.remove(
                *k,
            ).contains_key(j) by {
                K::key_injective(j, *k);
            }
            assert forall|j: K| #[trigger] final(self)@.contains_key(j) implies final(self)@[j]
                == old(self)@.remove(*k)[j] by {
                K::key_injective(j, *k);
            }
            assert(final(self)@ =~= old(self)@.remove(*k));
        }
        previous
    }

    pub fn is_empty(&self) -> (r: bool)
        requires
            self.wf(),
        ensures
            r == (self@ == Map::<K, V>::empty()),
    {
        let n = K::count();
        let mut i: usize = 0;
        while i < n
            invariant
                i <= n,
                n == K::key_count(),
                self.wf(),
                forall|j: int| 0 <= j < i ==> self.slots@[j] is None,
            decreases n - i,
        {
            if self.slots[i].is_some() {
                let k = K::from_index(i);
                assert(self@.contains_key(k));
                assert(!(self@ =~= Map::<K, V>::empty()));
                return false;
            }
            i = i + 1;
        }
        proof {
            assert forall|k: K| !#[trigger] self@.contains_key(k) by {
                K::key_injective(k, k);
            }
            assert(self@ =~= Map::<K, V>::empty());
        }
        true
    }

    pub fn clear(&mut self)
        requires
            old(self).wf(),
        ensures
            final(self).wf(),
            final(self)@ == Map::<K, V>::empty(),
    {
        *self = EnumMap::new();
    }

    /// The value in slot `i`, for walking every key in order.
    pub fn at(&self, i: usize) -> (r: Option<V>)
        requires
            self.wf(),
            i < K::key_count(),
        ensures
            forall|k: K|
                k.key() == i ==> (r is Some <==> self@.contains_key(k)) && (r matches Some(v)
                    ==> v == self@[k]),
    {
        self.slots[i]
    }
}

impl<K: Keyed, V: Copy> Clone for EnumMap<K, V> {
    /// A slot-for-slot copy.
    fn clone(&self) -> (r: Self)
        ensures
            r@ == self@,
            self.wf() ==> r.wf(),
    {
        let mut slots: Vec<Option<V>> = Vec::new();
        let mut i: usize = 0;
        while i < self.slots.len()
            invariant
                i <= self.slots@.len(),
                slots@ == self.slots@.take(i as int),
            decreases self.slots.len() - i,
        {
            slots.push(self.slots[i]);
            i = i + 1;
            assert(slots@ =~= self.slots@.take(i as int));
        }
        assert(slots@ =~= self.slots@);
        EnumMap { slots, marker: PhantomData }
    }
}

/// A set over a closed key set, with the sorted set's interface.
#[derive(Debug)]
pub struct EnumSet<K> {
    slots: Vec<bool>,
    marker: PhantomData<K>,
}

impl<K: Keyed> View for EnumSet<K> {
    type V = Set<K>;

    closed spec fn view(&self) -> Set<K> {
        Set::new(|k: K| k.key() < self.slots@.len() && self.slots@[k.key() as int])
    }
}

impl<K: Keyed> EnumSet<K> {
    pub closed spec fn wf(&self) -> bool {
        self.slots@.len() == K::key_count()
    }

    /// Whether every key has its slot.
    pub fn is_wf(&self) -> (r: bool)
        ensures
            r == self.wf(),
    {
        self.slots.len() == K::count()
    }

    pub fn new() -> (s: Self)
        ensures
            s.wf(),
            s@ == Set::<K>::empty(),
    {
        let n = K::count();
        let mut slots: Vec<bool> = Vec::new();
        while slots.len() < n
            invariant
                slots.len() <= n,
                n == K::key_count(),
                forall|i: int| 0 <= i < slots.len() ==> !slots@[i],
            decreases n - slots.len(),
        {
            slots.push(false);
        }
        let s = EnumSet { slots, marker: PhantomData };
        assert(s@ =~= Set::<K>::empty());
        s
    }

    pub fn contains(&self, k: &K) -> (r: bool)
        requires
            self.wf(),
        ensures
            r == self@.contains(*k),
    {
        proof {
            K::key_injective(*k, *k);
        }
        let i = k.index();
        self.slots[i]
    }

    /// Add a key; whether it was new.
    pub fn insert(&mut self, k: K) -> (r: bool)
        requires
            old(self).wf(),
        ensures
            final(self).wf(),
            final(self)@ == old(self)@.insert(k),
            r == !old(self)@.contains(k),
    {
        proof {
            K::key_injective(k, k);
        }
        let i = k.index();
        let was = self.slots[i];
        self.slots.set(i, true);
        proof {
            assert forall|j: K| #[trigger] final(self)@.contains(j) == old(self)@.insert(k).contains(
                j,
            ) by {
                K::key_injective(j, k);
            }
            assert(final(self)@ =~= old(self)@.insert(k));
        }
        !was
    }

    /// Take a key out; whether it was there.
    pub fn remove(&mut self, k: &K) -> (r: bool)
        requires
            old(self).wf(),
        ensures
            final(self).wf(),
            final(self)@ == old(self)@.remove(*k),
            r == old(self)@.contains(*k),
    {
        proof {
            K::key_injective(*k, *k);
        }
        let i = k.index();
        let was = self.slots[i];
        self.slots.set(i, false);
        proof {
            assert forall|j: K| #[trigger] final(self)@.contains(j) == old(self)@.remove(
                *k,
            ).contains(j) by {
                K::key_injective(j, *k);
            }
            assert(final(self)@ =~= old(self)@.remove(*k));
        }
        was
    }

    pub fn is_empty(&self) -> (r: bool)
        requires
            self.wf(),
        ensures
            r == (self@ == Set::<K>::empty()),
    {
        let n = K::count();
        let mut i: usize = 0;
        while i < n
            invariant
                i <= n,
                n == K::key_count(),
                self.wf(),
                forall|j: int| 0 <= j < i ==> !self.slots@[j],
            decreases n - i,
        {
            if self.slots[i] {
                let k = K::from_index(i);
                assert(self@.contains(k));
                assert(!(self@ =~= Set::<K>::empty()));
                return false;
            }
            i = i + 1;
        }
        proof {
            assert forall|k: K| !#[trigger] self@.contains(k) by {
                K::key_injective(k, k);
            }
            assert(self@ =~= Set::<K>::empty());
        }
        true
    }

    pub fn clear(&mut self)
        requires
            old(self).wf(),
        ensures
            final(self).wf(),
            final(self)@ == Set::<K>::empty(),
    {
        *self = EnumSet::new();
    }
}

impl<K: Keyed> Clone for EnumSet<K> {
    /// A slot-for-slot copy.
    fn clone(&self) -> (r: Self)
        ensures
            r@ == self@,
            self.wf() ==> r.wf(),
    {
        let mut slots: Vec<bool> = Vec::new();
        let mut i: usize = 0;
        while i < self.slots.len()
            invariant
                i <= self.slots@.len(),
                slots@ == self.slots@.take(i as int),
            decreases self.slots.len() - i,
        {
            slots.push(self.slots[i]);
            i = i + 1;
            assert(slots@ =~= self.slots@.take(i as int));
        }
        assert(slots@ =~= self.slots@);
        EnumSet { slots, marker: PhantomData }
    }
}

} // verus!
