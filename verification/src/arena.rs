//! Append-only node store addressed by opaque, typed identifiers.

use core::marker::PhantomData;
use vstd::prelude::*;

verus! {

/// An opaque handle to a value stored in an [`Arena<T>`].
///
/// The handle is generic over the stored type, so an identifier for one
/// kind of node can never be confused with an identifier for another.
/// Equality of identifiers is identity of the underlying arena slot,
/// never structural equality of the referenced values.  The view of an
/// identifier is the slot index it denotes.
#[derive(Debug)]
pub struct Id<T> {
    index: usize,
    _marker: PhantomData<T>,
}

impl<T> View for Id<T> {
    type V = int;

    closed spec fn view(&self) -> int {
        self.index as int
    }
}

impl<T> Id<T> {
    /// The arena slot this identifier denotes.
    pub fn index(&self) -> (i: usize)
        ensures
            i == self@,
    {
        self.index
    }
}

impl<T> Clone for Id<T> {
    fn clone(&self) -> (r: Self)
        ensures
            r == *self,
    {
        Id { index: self.index, _marker: PhantomData }
    }
}

impl<T> Copy for Id<T> {}

impl<T> PartialEq for Id<T> {
    fn eq(&self, other: &Self) -> bool {
        self.index == other.index
    }
}

impl<T> vstd::std_specs::cmp::PartialEqSpecImpl for Id<T> {
    open spec fn obeys_eq_spec() -> bool {
        true
    }

    open spec fn eq_spec(&self, other: &Self) -> bool {
        self@ == other@
    }
}

/// The identifier whose view is `i`; every identifier an arena hands out
/// is of this form.
pub closed spec fn spec_id<T>(i: int) -> Id<T> {
    Id { index: i as usize, _marker: PhantomData }
}

/// Every identifier is determined by its view.
pub proof fn lemma_id_is_spec_id<T>(id: Id<T>)
    ensures
        id == spec_id::<T>(id@),
{
}

/// An identifier's view is an index, hence never negative.
pub broadcast proof fn lemma_id_view_nonneg<T>(id: Id<T>)
    ensures
        0 <= #[trigger] id@,
{
}

/// An append-only store of values of one type.
///
/// `alloc` hands out a fresh identifier for every stored value;
/// identifiers stay valid for the lifetime of the arena (until `clear`).
/// An identifier is only meaningful for the arena that produced it:
/// `get` and `get_mut` demand an in-range identifier, which every
/// identifier of this arena is.  The view of an arena is the sequence
/// of stored values, indexed by identifier views.
pub struct Arena<T> {
    nodes: Vec<T>,
}

impl<T> View for Arena<T> {
    type V = Seq<T>;

    closed spec fn view(&self) -> Seq<T> {
        self.nodes@
    }
}

impl<T> Arena<T> {
    pub fn new() -> (r: Self)
        ensures
            r@ == Seq::<T>::empty(),
    {
        Arena { nodes: Vec::new() }
    }

    /// Stores `value` and returns a fresh, never-before-issued identifier
    /// for it.
    pub fn allocate(&mut self, value: T) -> (id: Id<T>)
        ensures
            final(self)@ == old(self)@.push(value),
            id@ == old(self)@.len(),
            id == spec_id::<T>(old(self)@.len() as int),
    {
        let index = self.nodes.len();
        self.nodes.push(value);
        Id { index, _marker: PhantomData }
    }

    pub fn get(&self, id: &Id<T>) -> (r: &T)
        requires
            id@ < self@.len(),
        ensures
            *r == self@[id@],
    {
        &self.nodes[id.index]
    }

    pub fn get_mut(&mut self, id: &Id<T>) -> (r: &mut T)
        requires
            id@ < old(self)@.len(),
        ensures
            *r == old(self)@[id@],
            final(self)@ == old(self)@.update(id@, *final(r)),
    {
        &mut self.nodes[id.index]
    }

    pub fn len(&self) -> (n: usize)
        ensures
            n == self@.len(),
    {
        self.nodes.len()
    }

    /// Resets the arena to empty.  All previously issued identifiers are
    /// invalidated; callers must not retain identifiers across a `clear`.
    pub fn clear(&mut self)
        ensures
            final(self)@ == Seq::<T>::empty(),
    {
        self.nodes.clear();
    }
}

} // verus!
