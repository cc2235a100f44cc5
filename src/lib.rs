//! Containers that hand out deferred references: small values that record
//! where an element lives, and that are later redeemed against the container
//! that issued them to obtain a shared or exclusive borrow of that element.
//!
//! Each container is parameterised by a `Tag` type chosen at construction.
//! The references it issues carry the same `Tag`, so a reference can only be
//! redeemed against a container of the same tag: declaring a fresh, empty tag
//! type for each construction makes cross-container redemption a type error.
use vstd::prelude::*;

mod vec;
pub use vec::{
    lemma_frozen_vec_sibling_write, lemma_index_stable_under_growth, AppendOnlyVec, AppendOnlyVecRef,
    FrozenVec, FrozenVecRef,
};

mod hashmap;
pub use hashmap::{
    lemma_frozen_map_sibling_write, lemma_key_resolves_after_insert,
    lemma_key_resolves_after_overwrite, AppendOnlyHashMap, AppendOnlyHashMapRef, FrozenHashMap,
    FrozenHashMapRef,
};

verus! {

/// A deferred borrow of a `T` that lives inside a `Base`.
pub trait DefBorrow<Base, T>: Sized {
    /// The reference can be resolved in `base`.
    spec fn resolves_in(&self, base: &Base) -> bool;

    /// The element that the reference denotes in `base`.
    spec fn target(&self, base: &Base) -> T;

    /// `after` is `before` with the denoted element replaced by `t` and
    /// nothing else changed.
    spec fn replaced(&self, before: &Base, after: &Base, t: T) -> bool;

    /// Writing through an exclusive borrow and then reading back yields what
    /// was written.
    proof fn lemma_write_then_read(&self, before: &Base, after: &Base, t: T)
        requires
            self.resolves_in(before),
            self.replaced(before, after, t),
        ensures
            self.resolves_in(after),
            self.target(after) == t,
    ;

    /// Carry out the deferred borrow, given the base object we're borrowing from.
    fn def_borrow<'a>(&self, base: &'a Base) -> (r: &'a T)
        requires
            self.resolves_in(base),
        ensures
            *r == self.target(base),
    ;

    /// Carry out the deferred borrow exclusively: whatever is written through
    /// the result becomes the element's new value in `base`.
    fn def_borrow_mut<'a>(&self, base: &'a mut Base) -> (r: &'a mut T)
        requires
            self.resolves_in(old(base)),
        ensures
            *r == self.target(old(base)),
            self.replaced(old(base), final(base), *final(r)),
    ;
}

/// A deferred borrow whose redemption reports success as an `Option`.
pub trait MaybeDefBorrow<Base, T>: Sized {
    /// The reference may be presented to `base`.
    spec fn redeemable(&self, base: &Base) -> bool;

    /// What redemption against `base` gives: `None` where it fails.
    spec fn maybe_target(&self, base: &Base) -> Option<T>;

    /// `after` is `before` with the denoted element replaced by `t` and
    /// nothing else changed.
    spec fn maybe_replaced(&self, before: &Base, after: &Base, t: T) -> bool;

    fn maybe_def_borrow<'a>(&self, base: &'a Base) -> (r: Option<&'a T>)
        requires
            self.redeemable(base),
        ensures
            match r {
                Some(v) => self.maybe_target(base) == Some(*v),
                None => self.maybe_target(base) is None,
            },
    ;

    fn maybe_def_borrow_mut<'a>(&self, base: &'a mut Base) -> (r: Option<&'a mut T>)
        requires
            self.redeemable(old(base)),
        ensures
            match r {
                Some(v) => {
                    &&& self.maybe_target(old(base)) == Some(*v)
                    &&& self.maybe_replaced(old(base), final(base), *final(v))
                },
                None => {
                    &&& self.maybe_target(old(base)) is None
                    &&& *final(base) == *old(base)
                },
            },
    ;
}

/// Every deferred borrow is also a fallible one that always succeeds.
impl<Base, T, D: DefBorrow<Base, T>> MaybeDefBorrow<Base, T> for D {
    open spec fn redeemable(&self, base: &Base) -> bool {
        self.resolves_in(base)
    }

    open spec fn maybe_target(&self, base: &Base) -> Option<T> {
        if self.resolves_in(base) {
            Some(self.target(base))
        } else {
            None
        }
    }

    open spec fn maybe_replaced(&self, before: &Base, after: &Base, t: T) -> bool {
        self.replaced(before, after, t)
    }

    fn maybe_def_borrow<'a>(&self, base: &'a Base) -> (r: Option<&'a T>) {
        Some(self.def_borrow(base))
    }

    fn maybe_def_borrow_mut<'a>(&self, base: &'a mut Base) -> (r: Option<&'a mut T>) {
        Some(self.def_borrow_mut(base))
    }
}

} // verus!
