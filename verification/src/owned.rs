//! The owning circular buffer: the same controller over a store the
//! buffer owns, for callers that would rather hand over a `Vec` than keep
//! a slice borrowed for the buffer's whole lifetime.

use crate::control::CBufControl;
use crate::wrap::{advance, position, valid_len};
use vstd::prelude::*;

verus! {

/// Circular buffer that owns its element store.
///
/// Behaves exactly as `CBuf` does; only the storage form differs.
#[derive(Debug)]
pub struct CBufOwned<T> {
    pub buf: Vec<T>,
    pub ctrl: CBufControl<T>,
}

impl<T: Copy> CBufOwned<T> {
    /// The element store as a sequence.
    pub open spec fn stored(self) -> Seq<T> {
        self.buf@
    }

    /// The fixed capacity: the length of the store.
    pub open spec fn capacity(self) -> int {
        self.stored().len() as int
    }

    /// Well-formed: the controller is well-formed for this store's length.
    pub open spec fn inv(self) -> bool {
        self.ctrl.inv(self.capacity())
    }

    /// How many elements the buffer holds.
    pub open spec fn count(self) -> int {
        self.ctrl.count(self.capacity())
    }

    /// The held elements in arrival order, oldest first.
    pub open spec fn contents(self) -> Seq<T> {
        self.ctrl.contents(self.stored())
    }

    /// Create a new owning buffer over `buf`, whose length (which must be
    /// at least one, and small enough to leave the lap bit free) becomes
    /// the capacity.
    pub fn new(buf: Vec<T>) -> (r: CBufOwned<T>)
        requires
            valid_len(buf@.len() as int),
        ensures
            r.inv(),
            r.count() == 0,
            r.contents() == Seq::<T>::empty(),
            r.stored() == buf@,
            r.ctrl.head == 0,
            r.ctrl.tail == 0,
    {
        let r = CBufOwned { buf, ctrl: CBufControl::new() };
        proof {
            assert(r.contents() =~= Seq::<T>::empty());
        }
        r
    }

    /// Get the buffer length.
    pub fn len(&self) -> (r: usize)
        ensures
            r == self.capacity(),
    {
        self.buf.len()
    }

    /// Is the buffer full?
    pub fn is_full(&self) -> (r: bool)
        ensures
            r == self.ctrl.is_full_spec(),
    {
        self.ctrl.is_full()
    }

    /// Is the buffer empty?
    pub fn is_empty(&self) -> (r: bool)
        ensures
            r == self.ctrl.is_empty_spec(),
    {
        self.ctrl.is_empty()
    }

    /// Return a reference to the oldest element without removing it.
    ///
    /// Returns `None` if the buffer is empty.
    pub fn peek(&mut self) -> (r: Option<&T>)
        requires
            old(self).inv(),
        ensures
            *final(self) == *old(self),
            r is Some <==> old(self).count() > 0,
            r matches Some(v) ==> *v == old(self).contents().first(),
    {
        self.ctrl.peek(self.buf.as_slice())
    }

    /// Return a reference to the oldest element without removing it and
    /// without checking for emptiness first.  The caller must have ruled
    /// emptiness out.
    pub fn peek_unchecked(&mut self) -> (r: &T)
        requires
            old(self).inv(),
            old(self).count() > 0,
        ensures
            *final(self) == *old(self),
            *r == old(self).contents().first(),
    {
        self.ctrl.peek_unchecked(self.buf.as_slice())
    }

    /// Remove and return the oldest element.
    ///
    /// Returns `None` if the buffer is empty.
    pub fn get(&mut self) -> (r: Option<T>)
        requires
            old(self).inv(),
        ensures
            final(self).inv(),
            final(self).stored() == old(self).stored(),
            old(self).count() == 0 ==> r is None && *final(self) == *old(self),
            old(self).count() > 0 ==> r == Some(old(self).contents().first()),
            old(self).count() > 0 ==> final(self).ctrl.head == old(self).ctrl.head
                && final(self).ctrl.tail == advance(old(self).ctrl.tail, old(self).capacity()),
            old(self).count() > 0 ==> final(self).contents() == old(self).contents().drop_first()
                && final(self).count() == old(self).count() - 1,
    {
        self.ctrl.get(self.buf.as_slice())
    }

    /// Remove and return the oldest element, without checking for
    /// emptiness first.  The caller must have ruled emptiness out.
    pub fn get_unchecked(&mut self) -> (r: T)
        requires
            old(self).inv(),
            old(self).count() > 0,
        ensures
            final(self).inv(),
            final(self).stored() == old(self).stored(),
            r == old(self).contents().first(),
            final(self).ctrl.head == old(self).ctrl.head,
            final(self).ctrl.tail == advance(old(self).ctrl.tail, old(self).capacity()),
            final(self).contents() == old(self).contents().drop_first(),
            final(self).count() == old(self).count() - 1,
    {
        self.ctrl.get_unchecked(self.buf.as_slice())
    }

    /// Add an element to the buffer.
    ///
    /// Ignores the write if the buffer is full.
    pub fn put(&mut self, val: T)
        requires
            old(self).inv(),
        ensures
            final(self).inv(),
            final(self).capacity() == old(self).capacity(),
            old(self).count() == old(self).capacity() ==> final(self).ctrl == old(self).ctrl
                && final(self).stored() == old(self).stored(),
            old(self).count() < old(self).capacity() ==> final(self).stored() == old(
                self,
            ).stored().update(position(old(self).ctrl.head), val),
            old(self).count() < old(self).capacity() ==> final(self).ctrl.tail == old(
                self,
            ).ctrl.tail && final(self).ctrl.head == advance(
                old(self).ctrl.head,
                old(self).capacity(),
            ),
            old(self).count() < old(self).capacity() ==> final(self).contents() == old(
                self,
            ).contents().push(val) && final(self).count() == old(self).count() + 1,
    {
        self.ctrl.put(self.buf.as_mut_slice(), val)
    }

    /// Add an element to the buffer, without checking for fullness first.
    /// The caller must have ruled fullness out.
    pub fn put_unchecked(&mut self, val: T)
        requires
            old(self).inv(),
            old(self).count() < old(self).capacity(),
        ensures
            final(self).inv(),
            final(self).capacity() == old(self).capacity(),
            final(self).stored() == old(self).stored().update(position(old(self).ctrl.head), val),
            final(self).ctrl.tail == old(self).ctrl.tail,
            final(self).ctrl.head == advance(old(self).ctrl.head, old(self).capacity()),
            final(self).contents() == old(self).contents().push(val),
            final(self).count() == old(self).count() + 1,
    {
        self.ctrl.put_unchecked(self.buf.as_mut_slice(), val)
    }
}

} // verus!
