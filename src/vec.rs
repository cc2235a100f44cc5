//! Index-addressed containers: a growable one whose references re-index on
//! every redemption, and a fixed-storage one whose elements never move.
use crate::DefBorrow;
use std::marker::PhantomData;
use vstd::prelude::*;
use vstd::std_specs::cmp::PartialEqSpec;
use vstd::std_specs::iter::IteratorSpec;

verus! {

/// The iterator that `slice::iter_mut` returns, carried through opaquely.
#[verifier::external_type_specification]
#[verifier::external_body]
#[verifier::reject_recursive_types(T)]
pub struct ExIterMut<'a, T: 'a>(std::slice::IterMut<'a, T>);

/// Relies on `slice::iter_mut`, reached through `Vec`'s deref: an iterator of
/// exclusive borrows of the elements. Writing through a slice cannot change
/// the vector's length.
#[verifier::external_body]
fn vec_iter_mut<'a, T>(v: &'a mut Vec<T>) -> (r: std::slice::IterMut<'a, T>)
    ensures
        final(v)@.len() == old(v)@.len(),
{
    v.iter_mut()
}

/// A vector that can only grow: elements are appended, never removed or
/// reordered, so a position handed out once keeps denoting the same slot.
pub struct AppendOnlyVec<T, Tag> {
    v: Vec<T>,
    _tag: PhantomData<Tag>,
}

/// A deferred reference to the element at a position of an `AppendOnlyVec`
/// with the same tag.
pub struct AppendOnlyVecRef<T, Tag> {
    idx: usize,
    _phantom1: PhantomData<T>,
    _phantom2: PhantomData<Tag>,
}

impl<T, Tag> View for AppendOnlyVec<T, Tag> {
    type V = Seq<T>;

    closed spec fn view(&self) -> Seq<T> {
        self.v@
    }
}

impl<T, Tag> View for AppendOnlyVecRef<T, Tag> {
    type V = nat;

    /// The position that the reference denotes.
    closed spec fn view(&self) -> nat {
        self.idx as nat
    }
}

impl<T, Tag> Clone for AppendOnlyVecRef<T, Tag> {
    fn clone(&self) -> (r: Self)
        ensures
            r@ == self@,
    {
        AppendOnlyVecRef { idx: self.idx, _phantom1: PhantomData, _phantom2: PhantomData }
    }
}

impl<T, Tag> Copy for AppendOnlyVecRef<T, Tag> {

}

impl<T, Tag> AppendOnlyVec<T, Tag> {
    pub fn new(v: Vec<T>, _tag: Tag) -> (r: AppendOnlyVec<T, Tag>)
        ensures
            r@ == v@,
    {
        AppendOnlyVec { v, _tag: PhantomData }
    }

    /// A reference to position `idx`. No bound is checked here: the reference
    /// resolves once the vector holds more than `idx` elements.
    pub fn deferred(&self, idx: usize) -> (r: AppendOnlyVecRef<T, Tag>)
        ensures
            r@ == idx,
    {
        AppendOnlyVecRef { idx, _phantom1: PhantomData, _phantom2: PhantomData }
    }

    pub fn push(&mut self, t: T)
        ensures
            final(self)@ == old(self)@.push(t),
    {
        self.v.push(t);
    }

    pub fn to_vec(self) -> (r: Vec<T>)
        ensures
            r@ == self@,
    {
        self.v
    }

    pub fn iter<'a>(&'a self) -> (r: std::slice::Iter<'a, T>)
        ensures
            r.remaining() == self@.as_ref(),
    {
        self.v.as_slice().iter()
    }

    /// Exclusive borrows of every element, in order; the length stays as it is.
    pub fn iter_mut<'a>(&'a mut self) -> (r: std::slice::IterMut<'a, T>)
        ensures
            final(self)@.len() == old(self)@.len(),
    {
        vec_iter_mut(&mut self.v)
    }

    /// An exclusive borrow of the element at `idx`: what is written through it
    /// becomes that element.
    pub fn get_mut<'a>(&'a mut self, idx: usize) -> (r: &'a mut T)
        requires
            idx < old(self)@.len(),
        ensures
            *r == old(self)@[idx as int],
            final(self)@ == old(self)@.update(idx as int, *final(r)),
    {
        &mut self.v[idx]
    }

    /// References to every position, in order.
    pub fn elems_deferred(&self) -> (r: Vec<AppendOnlyVecRef<T, Tag>>)
        ensures
            r@.len() == self@.len(),
            forall|i: int| 0 <= i < r@.len() ==> (#[trigger] r@[i])@ == i,
    {
        let mut r: Vec<AppendOnlyVecRef<T, Tag>> = Vec::new();
        let n = self.v.len();
        let mut i: usize = 0;
        while i < n
            invariant
                n == self@.len(),
                i <= n,
                r@.len() == i,
                forall|j: int| 0 <= j < r@.len() ==> (#[trigger] r@[j])@ == j,
            decreases n - i,
        {
            r.push(self.deferred(i));
            i = i + 1;
        }
        r
    }
}

/// Two containers are equal where their elements are, position by position.
impl<T: PartialEq, Tag> PartialEq for AppendOnlyVec<T, Tag> {
    fn eq(&self, other: &Self) -> (r: bool) {
        self.v.eq(&other.v)
    }
}

impl<T: PartialEq, Tag> vstd::std_specs::cmp::PartialEqSpecImpl for AppendOnlyVec<T, Tag> {
    open spec fn obeys_eq_spec() -> bool {
        <T as PartialEqSpec>::obeys_eq_spec()
    }

    open spec fn eq_spec(&self, other: &Self) -> bool {
        &&& self@.len() == other@.len()
        &&& forall|i: int| 0 <= i < self@.len() ==> (#[trigger] self@[i]).eq_spec(&other@[i])
    }
}

impl<T: Eq, Tag> Eq for AppendOnlyVec<T, Tag> {

}

impl<T, Tag> std::ops::Index<usize> for AppendOnlyVec<T, Tag> {
    type Output = T;

    fn index(&self, idx: usize) -> (r: &T)
        ensures
            *r == self@[idx as int],
    {
        &self.v[idx]
    }
}

impl<T, Tag> vstd::std_specs::core::IndexSpecImpl<usize> for AppendOnlyVec<T, Tag> {
    open spec fn index_req(&self, idx: &usize) -> bool {
        *idx < self@.len()
    }
}

impl<T, Tag> DefBorrow<AppendOnlyVec<T, Tag>, T> for AppendOnlyVecRef<T, Tag> {
    open spec fn resolves_in(&self, base: &AppendOnlyVec<T, Tag>) -> bool {
        self@ < base@.len()
    }

    open spec fn target(&self, base: &AppendOnlyVec<T, Tag>) -> T {
        base@[self@ as int]
    }

    open spec fn replaced(
        &self,
        before: &AppendOnlyVec<T, Tag>,
        after: &AppendOnlyVec<T, Tag>,
        t: T,
    ) -> bool {
        after@ == before@.update(self@ as int, t)
    }

    proof fn lemma_write_then_read(
        &self,
        before: &AppendOnlyVec<T, Tag>,
        after: &AppendOnlyVec<T, Tag>,
        t: T,
    ) {
    }

    fn def_borrow<'a>(&self, base: &'a AppendOnlyVec<T, Tag>) -> (r: &'a T) {
        &base.v[self.idx]
    }

    fn def_borrow_mut<'a>(&self, base: &'a mut AppendOnlyVec<T, Tag>) -> (r: &'a mut T) {
        &mut base.v[self.idx]
    }
}

/// A deferred reference taken on a growable vector keeps denoting the element
/// that stood at its position when it was taken, however many elements are
/// appended afterwards.
pub proof fn lemma_index_stable_under_growth<T, Tag>(
    r: AppendOnlyVecRef<T, Tag>,
    before: AppendOnlyVec<T, Tag>,
    appended: Seq<T>,
    after: AppendOnlyVec<T, Tag>,
)
    requires
        r@ < before@.len(),
        after@ == before@ + appended,
    ensures
        r.resolves_in(&after),
        r.target(&after) == before@[r@ as int],
{
}

/// A vector whose length is fixed at construction; only the values of its
/// elements can change, in place.
pub struct FrozenVec<T, Tag> {
    v: Vec<T>,
    _tag: PhantomData<Tag>,
}

/// A deferred reference to an element of a `FrozenVec` with the same tag.
#[derive(PartialEq, Eq, PartialOrd, Ord, Hash, Debug)]
pub struct FrozenVecRef<T, Tag> {
    idx: usize,
    _phantom1: PhantomData<T>,
    _phantom2: PhantomData<Tag>,
}

impl<T, Tag> View for FrozenVec<T, Tag> {
    type V = Seq<T>;

    closed spec fn view(&self) -> Seq<T> {
        self.v@
    }
}

impl<T, Tag> View for FrozenVecRef<T, Tag> {
    type V = nat;

    /// The slot that the reference denotes.
    closed spec fn view(&self) -> nat {
        self.idx as nat
    }
}

impl<T, Tag> Clone for FrozenVecRef<T, Tag> {
    fn clone(&self) -> (r: Self)
        ensures
            r@ == self@,
    {
        FrozenVecRef { idx: self.idx, _phantom1: PhantomData, _phantom2: PhantomData }
    }
}

impl<T, Tag> Copy for FrozenVecRef<T, Tag> {

}

impl<T, Tag> FrozenVec<T, Tag> {
    pub fn new(v: Vec<T>, _tag: Tag) -> (r: FrozenVec<T, Tag>)
        ensures
            r@ == v@,
    {
        FrozenVec { v, _tag: PhantomData }
    }

    /// A reference to the element in slot `idx`, which must exist.
    pub fn deferred(&self, idx: usize) -> (r: FrozenVecRef<T, Tag>)
        requires
            idx < self@.len(),
        ensures
            r@ == idx,
            r.resolves_in(self),
    {
        FrozenVecRef { idx, _phantom1: PhantomData, _phantom2: PhantomData }
    }

    pub fn to_vec(self) -> (r: Vec<T>)
        ensures
            r@ == self@,
    {
        self.v
    }

    pub fn iter<'a>(&'a self) -> (r: std::slice::Iter<'a, T>)
        ensures
            r.remaining() == self@.as_ref(),
    {
        self.v.as_slice().iter()
    }

    /// Exclusive borrows of every element, in order; the length stays as it is.
    pub fn iter_mut<'a>(&'a mut self) -> (r: std::slice::IterMut<'a, T>)
        ensures
            final(self)@.len() == old(self)@.len(),
    {
        vec_iter_mut(&mut self.v)
    }

    /// An exclusive borrow of the element at `idx`: what is written through it
    /// becomes that element.
    pub fn get_mut<'a>(&'a mut self, idx: usize) -> (r: &'a mut T)
        requires
            idx < old(self)@.len(),
        ensures
            *r == old(self)@[idx as int],
            final(self)@ == old(self)@.update(idx as int, *final(r)),
    {
        &mut self.v[idx]
    }

    /// References to every slot, in order.
    pub fn elems_deferred(&self) -> (r: Vec<FrozenVecRef<T, Tag>>)
        ensures
            r@.len() == self@.len(),
            forall|i: int| 0 <= i < r@.len() ==> (#[trigger] r@[i])@ == i,
    {
        let mut r: Vec<FrozenVecRef<T, Tag>> = Vec::new();
        let n = self.v.len();
        let mut i: usize = 0;
        while i < n
            invariant
                n == self@.len(),
                i <= n,
                r@.len() == i,
                forall|j: int| 0 <= j < r@.len() ==> (#[trigger] r@[j])@ == j,
            decreases n - i,
        {
            r.push(self.deferred(i));
            i = i + 1;
        }
        r
    }
}

/// Two containers are equal where their elements are, position by position.
impl<T: PartialEq, Tag> PartialEq for FrozenVec<T, Tag> {
    fn eq(&self, other: &Self) -> (r: bool) {
        self.v.eq(&other.v)
    }
}

impl<T: PartialEq, Tag> vstd::std_specs::cmp::PartialEqSpecImpl for FrozenVec<T, Tag> {
    open spec fn obeys_eq_spec() -> bool {
        <T as PartialEqSpec>::obeys_eq_spec()
    }

    open spec fn eq_spec(&self, other: &Self) -> bool {
        &&& self@.len() == other@.len()
        &&& forall|i: int| 0 <= i < self@.len() ==> (#[trigger] self@[i]).eq_spec(&other@[i])
    }
}

impl<T: Eq, Tag> Eq for FrozenVec<T, Tag> {

}

impl<T, Tag> std::ops::Index<usize> for FrozenVec<T, Tag> {
    type Output = T;

    fn index(&self, idx: usize) -> (r: &T)
        ensures
            *r == self@[idx as int],
    {
        &self.v[idx]
    }
}

impl<T, Tag> vstd::std_specs::core::IndexSpecImpl<usize> for FrozenVec<T, Tag> {
    open spec fn index_req(&self, idx: &usize) -> bool {
        *idx < self@.len()
    }
}

impl<T, Tag> DefBorrow<FrozenVec<T, Tag>, T> for FrozenVecRef<T, Tag> {
    open spec fn resolves_in(&self, base: &FrozenVec<T, Tag>) -> bool {
        self@ < base@.len()
    }

    open spec fn target(&self, base: &FrozenVec<T, Tag>) -> T {
        base@[self@ as int]
    }

    open spec fn replaced(&self, before: &FrozenVec<T, Tag>, after: &FrozenVec<T, Tag>, t: T) -> bool {
        after@ == before@.update(self@ as int, t)
    }

    proof fn lemma_write_then_read(&self, before: &FrozenVec<T, Tag>, after: &FrozenVec<T, Tag>, t: T) {
    }

    fn def_borrow<'a>(&self, base: &'a FrozenVec<T, Tag>) -> (r: &'a T) {
        &base.v[self.idx]
    }

    fn def_borrow_mut<'a>(&self, base: &'a mut FrozenVec<T, Tag>) -> (r: &'a mut T) {
        &mut base.v[self.idx]
    }
}

/// Writing through one reference into a fixed-storage vector leaves what every
/// other reference denotes unchanged.
pub proof fn lemma_frozen_vec_sibling_write<T, Tag>(
    r: FrozenVecRef<T, Tag>,
    other: FrozenVecRef<T, Tag>,
    before: FrozenVec<T, Tag>,
    after: FrozenVec<T, Tag>,
    t: T,
)
    requires
        r.resolves_in(&before),
        other.resolves_in(&before),
        other@ != r@,
        other.replaced(&before, &after, t),
    ensures
        r.resolves_in(&after),
        r.target(&after) == r.target(&before),
{
}

} // verus!
