//! Key-addressed containers: a growable one whose references re-resolve their
//! key on every redemption, and a fixed-storage one whose key set never
//! changes.
use crate::DefBorrow;
use std::collections::hash_map::Entry;
use std::borrow::Borrow;
use std::collections::HashMap;
use std::hash::Hash;
use std::marker::PhantomData;
use vstd::prelude::*;
use vstd::std_specs::hash::{contains_borrowed_key, maps_borrowed_key_to_value, obeys_key_model};

verus! {

broadcast use vstd::std_specs::hash::group_hash_axioms;

/// Relies on `HashMap::get_mut`: an exclusive borrow of the value stored under
/// `k`, or `None` where `k` has no entry; the map is otherwise left as it was.
#[verifier::external_body]
fn map_get_mut<'a, K: Hash + Eq, V>(h: &'a mut HashMap<K, V>, k: &K) -> (r: Option<&'a mut V>)
    requires
        obeys_key_model::<K>(),
    ensures
        match r {
            Some(v) => {
                &&& old(h)@.contains_key(*k)
                &&& *v == old(h)@[*k]
                &&& final(h)@ == old(h)@.insert(*k, *final(v))
            },
            None => {
                &&& !old(h)@.contains_key(*k)
                &&& final(h)@ == old(h)@
            },
        },
{
    h.get_mut(k)
}

/// A hash map that can only grow: entries are inserted or overwritten, never
/// removed, so a key present once stays present.
pub struct AppendOnlyHashMap<K, V, Tag> {
    h: HashMap<K, V>,
    _tag: PhantomData<Tag>,
}

/// A deferred reference to the entry under a key of an `AppendOnlyHashMap`
/// with the same tag. It holds the key and looks it up on each redemption.
pub struct AppendOnlyHashMapRef<K, V, Tag> {
    k: K,
    _phantom1: PhantomData<V>,
    _phantom2: PhantomData<Tag>,
}

impl<K, V, Tag> View for AppendOnlyHashMap<K, V, Tag> {
    type V = Map<K, V>;

    closed spec fn view(&self) -> Map<K, V> {
        self.h@
    }
}

impl<K, V, Tag> View for AppendOnlyHashMapRef<K, V, Tag> {
    type V = K;

    /// The key that the reference denotes.
    closed spec fn view(&self) -> K {
        self.k
    }
}

impl<K: Clone, V, Tag> Clone for AppendOnlyHashMapRef<K, V, Tag> {
    fn clone(&self) -> (r: Self)
        ensures
            cloned(self@, r@),
    {
        AppendOnlyHashMapRef { k: self.k.clone(), _phantom1: PhantomData, _phantom2: PhantomData }
    }
}

impl<K, V, Tag> AppendOnlyHashMap<K, V, Tag> {
    pub fn new(h: HashMap<K, V>, _tag: Tag) -> (r: AppendOnlyHashMap<K, V, Tag>)
        ensures
            r@ == h@,
    {
        AppendOnlyHashMap { h, _tag: PhantomData }
    }

    /// The value stored under the key that `k` borrows as, if any.
    pub fn get<'a, Q: ?Sized>(&'a self, k: &Q) -> (r: Option<&'a V>)
        where
            K: Borrow<Q>,
            Q: Hash + Eq,
            K: Hash + Eq,
        requires
            obeys_key_model::<K>(),
        ensures
            match r {
                Some(v) => maps_borrowed_key_to_value(self@, k, *v),
                None => !contains_borrowed_key(self@, k),
            },
    {
        self.h.get(k)
    }

    pub fn get_mut<'a>(&'a mut self, k: &K) -> (r: Option<&'a mut V>)
        where
            K: Hash + Eq,
        requires
            obeys_key_model::<K>(),
        ensures
            match r {
                Some(v) => {
                    &&& old(self)@.contains_key(*k)
                    &&& *v == old(self)@[*k]
                    &&& final(self)@ == old(self)@.insert(*k, *final(v))
                },
                None => {
                    &&& !old(self)@.contains_key(*k)
                    &&& final(self)@ == old(self)@
                },
            },
    {
        map_get_mut(&mut self.h, k)
    }

    /// Stores `v` under `k`, handing back the value it replaces, if any.
    pub fn insert(&mut self, k: K, v: V) -> (r: Option<V>)
        where
            K: Hash + Eq,
        requires
            obeys_key_model::<K>(),
        ensures
            final(self)@ == old(self)@.insert(k, v),
            match r {
                Some(prev) => old(self)@.contains_key(k) && prev == old(self)@[k],
                None => !old(self)@.contains_key(k),
            },
    {
        self.h.insert(k, v)
    }

    /// The value under `k`; where there is none, `f()` is stored there first.
    pub fn get_or_insert<'a, F>(&'a mut self, k: K, f: F) -> (r: &'a mut V)
        where
            K: Hash + Eq,
            F: FnOnce() -> V,
        requires
            obeys_key_model::<K>(),
            !old(self)@.contains_key(k) ==> f.requires(()),
        ensures
            old(self)@.contains_key(k) ==> *r == old(self)@[k],
            !old(self)@.contains_key(k) ==> f.ensures((), *r),
            final(self)@ == old(self)@.insert(k, *final(r)),
    {
        match self.h.entry(k) {
            Entry::Occupied(o) => o.into_mut(),
            Entry::Vacant(e) => e.insert(f()),
        }
    }

    /// A reference to the entry under `k`, or `None` where `k` has no entry.
    pub fn deferred(&self, k: K) -> (r: Option<AppendOnlyHashMapRef<K, V, Tag>>)
        where
            K: Hash + Eq,
        requires
            obeys_key_model::<K>(),
        ensures
            r is Some <==> self@.contains_key(k),
            r matches Some(x) ==> x@ == k,
    {
        if self.h.contains_key(&k) {
            Some(AppendOnlyHashMapRef { k: k, _phantom1: PhantomData, _phantom2: PhantomData })
        } else {
            None
        }
    }

    pub fn to_hashmap(self) -> (r: HashMap<K, V>)
        ensures
            r@ == self@,
    {
        self.h
    }
}

impl<K: Hash + Eq, V, Tag> DefBorrow<AppendOnlyHashMap<K, V, Tag>, V> for AppendOnlyHashMapRef<
    K,
    V,
    Tag,
> {
    open spec fn resolves_in(&self, base: &AppendOnlyHashMap<K, V, Tag>) -> bool {
        obeys_key_model::<K>() && base@.contains_key(self@)
    }

    open spec fn target(&self, base: &AppendOnlyHashMap<K, V, Tag>) -> V {
        base@[self@]
    }

    open spec fn replaced(
        &self,
        before: &AppendOnlyHashMap<K, V, Tag>,
        after: &AppendOnlyHashMap<K, V, Tag>,
        t: V,
    ) -> bool {
        after@ == before@.insert(self@, t)
    }

    proof fn lemma_write_then_read(
        &self,
        before: &AppendOnlyHashMap<K, V, Tag>,
        after: &AppendOnlyHashMap<K, V, Tag>,
        t: V,
    ) {
    }

    fn def_borrow<'a>(&self, base: &'a AppendOnlyHashMap<K, V, Tag>) -> (r: &'a V) {
        base.h.get(&self.k).unwrap()
    }

    fn def_borrow_mut<'a>(&self, base: &'a mut AppendOnlyHashMap<K, V, Tag>) -> (r: &'a mut V) {
        map_get_mut(&mut base.h, &self.k).unwrap()
    }
}

/// A deferred reference taken on a growable hash map redeems to the value
/// currently stored under its key: after an overwrite, to the new value.
pub proof fn lemma_key_resolves_after_overwrite<K: Hash + Eq, V, Tag>(
    r: AppendOnlyHashMapRef<K, V, Tag>,
    before: AppendOnlyHashMap<K, V, Tag>,
    v2: V,
    after: AppendOnlyHashMap<K, V, Tag>,
)
    requires
        r.resolves_in(&before),
        after@ == before@.insert(r@, v2),
    ensures
        r.resolves_in(&after),
        r.target(&after) == v2,
{
}

/// Inserting under any key keeps every deferred reference of a growable hash
/// map resolvable.
pub proof fn lemma_key_resolves_after_insert<K: Hash + Eq, V, Tag>(
    r: AppendOnlyHashMapRef<K, V, Tag>,
    before: AppendOnlyHashMap<K, V, Tag>,
    k: K,
    v: V,
    after: AppendOnlyHashMap<K, V, Tag>,
)
    requires
        r.resolves_in(&before),
        after@ == before@.insert(k, v),
    ensures
        r.resolves_in(&after),
        k != r@ ==> r.target(&after) == r.target(&before),
{
}

/// A hash map whose key set is fixed at construction; only the values stored
/// under its keys can change, in place.
pub struct FrozenHashMap<K, V, Tag> {
    h: HashMap<K, V>,
    _tag: PhantomData<Tag>,
}

/// A deferred reference to the entry under a key of a `FrozenHashMap` with
/// the same tag.
pub struct FrozenHashMapRef<K, V, Tag> {
    k: K,
    _phantom1: PhantomData<V>,
    _phantom2: PhantomData<Tag>,
}

impl<K, V, Tag> View for FrozenHashMap<K, V, Tag> {
    type V = Map<K, V>;

    closed spec fn view(&self) -> Map<K, V> {
        self.h@
    }
}

impl<K, V, Tag> View for FrozenHashMapRef<K, V, Tag> {
    type V = K;

    /// The key of the entry that the reference denotes.
    closed spec fn view(&self) -> K {
        self.k
    }
}

/// A reference to a fixed-storage map is a plain value: its copy denotes the
/// same entry.
impl<K: Copy, V, Tag> Clone for FrozenHashMapRef<K, V, Tag> {
    fn clone(&self) -> (r: Self)
        ensures
            r@ == self@,
    {
        FrozenHashMapRef { k: self.k, _phantom1: PhantomData, _phantom2: PhantomData }
    }
}

impl<K: Copy, V, Tag> Copy for FrozenHashMapRef<K, V, Tag> {

}

impl<K, V, Tag> FrozenHashMap<K, V, Tag> {
    pub fn new(h: HashMap<K, V>, _tag: Tag) -> (r: FrozenHashMap<K, V, Tag>)
        ensures
            r@ == h@,
    {
        FrozenHashMap { h, _tag: PhantomData }
    }

    /// The value stored under the key that `k` borrows as, if any.
    pub fn get<'a, Q: ?Sized>(&'a self, k: &Q) -> (r: Option<&'a V>)
        where
            K: Borrow<Q>,
            Q: Hash + Eq,
            K: Hash + Eq,
        requires
            obeys_key_model::<K>(),
        ensures
            match r {
                Some(v) => maps_borrowed_key_to_value(self@, k, *v),
                None => !contains_borrowed_key(self@, k),
            },
    {
        self.h.get(k)
    }

    pub fn get_mut<'a>(&'a mut self, k: &K) -> (r: Option<&'a mut V>)
        where
            K: Hash + Eq,
        requires
            obeys_key_model::<K>(),
        ensures
            match r {
                Some(v) => {
                    &&& old(self)@.contains_key(*k)
                    &&& *v == old(self)@[*k]
                    &&& final(self)@ == old(self)@.insert(*k, *final(v))
                },
                None => {
                    &&& !old(self)@.contains_key(*k)
                    &&& final(self)@ == old(self)@
                },
            },
    {
        map_get_mut(&mut self.h, k)
    }

    /// A reference to the entry under `k`, or `None` where `k` has no entry.
    pub fn deferred(&self, k: K) -> (r: Option<FrozenHashMapRef<K, V, Tag>>)
        where
            K: Eq + Hash,
        requires
            obeys_key_model::<K>(),
        ensures
            r is Some <==> self@.contains_key(k),
            r matches Some(x) ==> x@ == k && x.resolves_in(self),
    {
        if self.h.contains_key(&k) {
            Some(FrozenHashMapRef { k: k, _phantom1: PhantomData, _phantom2: PhantomData })
        } else {
            None
        }
    }

    pub fn to_hashmap(self) -> (r: HashMap<K, V>)
        ensures
            r@ == self@,
    {
        self.h
    }
}

impl<K: Hash + Eq, V, Tag> DefBorrow<FrozenHashMap<K, V, Tag>, V> for FrozenHashMapRef<K, V, Tag> {
    open spec fn resolves_in(&self, base: &FrozenHashMap<K, V, Tag>) -> bool {
        obeys_key_model::<K>() && base@.contains_key(self@)
    }

    open spec fn target(&self, base: &FrozenHashMap<K, V, Tag>) -> V {
        base@[self@]
    }

    open spec fn replaced(
        &self,
        before: &FrozenHashMap<K, V, Tag>,
        after: &FrozenHashMap<K, V, Tag>,
        t: V,
    ) -> bool {
        after@ == before@.insert(self@, t)
    }

    proof fn lemma_write_then_read(
        &self,
        before: &FrozenHashMap<K, V, Tag>,
        after: &FrozenHashMap<K, V, Tag>,
        t: V,
    ) {
    }

    fn def_borrow<'a>(&self, base: &'a FrozenHashMap<K, V, Tag>) -> (r: &'a V) {
        base.h.get(&self.k).unwrap()
    }

    fn def_borrow_mut<'a>(&self, base: &'a mut FrozenHashMap<K, V, Tag>) -> (r: &'a mut V) {
        map_get_mut(&mut base.h, &self.k).unwrap()
    }
}

/// Writing the value under another key of a fixed-storage hash map leaves
/// what a deferred reference denotes unchanged.
pub proof fn lemma_frozen_map_sibling_write<K: Hash + Eq, V, Tag>(
    r: FrozenHashMapRef<K, V, Tag>,
    before: FrozenHashMap<K, V, Tag>,
    other: K,
    v: V,
    after: FrozenHashMap<K, V, Tag>,
)
    requires
        r.resolves_in(&before),
        before@.contains_key(other),
        other != r@,
        after@ == before@.insert(other, v),
    ensures
        r.resolves_in(&after),
        r.target(&after) == r.target(&before),
        after@.dom() == before@.dom(),
{
}

} // verus!
