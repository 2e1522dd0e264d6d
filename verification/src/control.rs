//! Circular buffer control: the head/tail index logic.
//!
//! `CBufControl` owns the two logical indices of a circular buffer but not
//! its element store; every operation that touches elements takes the store
//! as an explicit slice argument, whose length must be the same across all
//! calls on one controller.

use crate::wrap::{
    advance, lemma_advance, lemma_mask_is_position, lemma_offset_mod, lemma_wrap_bit_value,
    lemma_xor_detects_lap_gap, lemma_xor_flips_lap, position, valid_index, valid_len, wrapped,
    WRAP_BIT,
};
use core::marker::PhantomData;
use vstd::prelude::*;

verus! {

/// Circular buffer control.
///
/// Implements the actual logic of a circular buffer, but requires passing
/// the element store to `get` and `put`.
#[derive(Debug)]
pub struct CBufControl<T> {
    pub head: usize,
    pub tail: usize,
    pub phantom: PhantomData<T>,
}

impl<T: Copy> CBufControl<T> {
    /// Well-formed for a store of length `len`: both offsets are in range
    /// and the lap bits leave between zero and `len` elements stored.
    pub open spec fn inv(self, len: int) -> bool {
        &&& valid_len(len)
        &&& valid_index(self.head, len)
        &&& valid_index(self.tail, len)
        &&& 0 <= self.count(len) <= len
    }

    /// How many elements are stored, for a store of length `len`.
    pub open spec fn count(self, len: int) -> int {
        if wrapped(self.head) == wrapped(self.tail) {
            position(self.head) - position(self.tail)
        } else {
            len + position(self.head) - position(self.tail)
        }
    }

    /// What `is_empty` decides: the indices agree exactly.
    pub open spec fn is_empty_spec(self) -> bool {
        self.head == self.tail
    }

    /// What `is_full` decides: same offset, opposite lap bits, meaning the
    /// writer has lapped the reader exactly once.
    pub open spec fn is_full_spec(self) -> bool {
        position(self.head) == position(self.tail) && wrapped(self.head) != wrapped(self.tail)
    }

    /// The stored elements in arrival order, oldest first.
    pub open spec fn contents(self, store: Seq<T>) -> Seq<T> {
        Seq::new(
            self.count(store.len() as int) as nat,
            |k: int| store[(position(self.tail) + k) % (store.len() as int)],
        )
    }

    /// A buffer is empty exactly when it stores no elements.
    pub proof fn lemma_empty_iff_count_zero(self, len: int)
        requires
            self.inv(len),
        ensures
            self.is_empty_spec() <==> self.count(len) == 0,
    {
    }

    /// A buffer is full exactly when it stores `len` elements.
    pub proof fn lemma_full_iff_count_len(self, len: int)
        requires
            self.inv(len),
        ensures
            self.is_full_spec() <==> self.count(len) == len,
    {
    }

    /// The contents sequence holds exactly `count` elements: conditions on
    /// the count are conditions on the length of the held contents.
    pub proof fn lemma_contents_len(self, store: Seq<T>)
        requires
            self.inv(store.len() as int),
        ensures
            self.contents(store).len() == self.count(store.len() as int),
    {
    }

    /// Create a new controller with both indices at zero: empty, and
    /// well-formed for every usable store length.
    pub fn new() -> (r: CBufControl<T>)
        ensures
            r.head == 0,
            r.tail == 0,
            r.is_empty_spec(),
            forall|len: int| valid_len(len) ==> #[trigger] r.inv(len) && r.count(len) == 0,
    {
        CBufControl { tail: 0, head: 0, phantom: PhantomData }
    }

    /// Is the buffer empty?
    pub fn is_empty(&self) -> (r: bool)
        ensures
            r == self.is_empty_spec(),
    {
        self.head == self.tail
    }

    /// Is the buffer full?
    pub fn is_full(&self) -> (r: bool)
        ensures
            r == self.is_full_spec(),
    {
        proof {
            lemma_xor_detects_lap_gap(self.head, self.tail);
        }
        (self.head ^ self.tail) == WRAP_BIT
    }

    /// Remove and return the oldest element.
    ///
    /// Returns `None` if the buffer is empty.
    pub fn get(&mut self, buf: &[T]) -> (r: Option<T>)
        requires
            old(self).inv(buf@.len() as int),
        ensures
            final(self).inv(buf@.len() as int),
            old(self).count(buf@.len() as int) == 0 ==> r is None && *final(self) == *old(self),
            old(self).count(buf@.len() as int) > 0 ==> r == Some(
                old(self).contents(buf@).first(),
            ),
            old(self).count(buf@.len() as int) > 0 ==> final(self).head == old(self).head
                && final(self).tail == advance(old(self).tail, buf@.len() as int),
            old(self).count(buf@.len() as int) > 0 ==> final(self).contents(buf@) == old(
                self,
            ).contents(buf@).drop_first(),
            old(self).count(buf@.len() as int) > 0 ==> final(self).count(buf@.len() as int) == old(
                self,
            ).count(buf@.len() as int) - 1,
    {
        proof {
            self.lemma_empty_iff_count_zero(buf@.len() as int);
        }
        if self.is_empty() {
            return None;
        }
        Some(self.get_unchecked(buf))
    }

    /// Remove and return the oldest element, without checking for
    /// emptiness first.  The caller must have ruled emptiness out.
    pub fn get_unchecked(&mut self, buf: &[T]) -> (r: T)
        requires
            old(self).inv(buf@.len() as int),
            old(self).count(buf@.len() as int) > 0,
        ensures
            final(self).inv(buf@.len() as int),
            final(self).head == old(self).head,
            final(self).tail == advance(old(self).tail, buf@.len() as int),
            final(self).count(buf@.len() as int) == old(self).count(buf@.len() as int) - 1,
            r == old(self).contents(buf@).first(),
            final(self).contents(buf@) == old(self).contents(buf@).drop_first(),
    {
        let ghost len: int = buf@.len() as int;
        proof {
            lemma_wrap_bit_value();
            lemma_mask_is_position(self.tail);
            lemma_offset_mod(position(self.tail), len);
        }
        let val = buf[self.tail & !WRAP_BIT];

        self.tail = self.tail + 1;
        proof {
            lemma_mask_is_position(self.tail);
        }
        if (self.tail & !WRAP_BIT) >= buf.len() {
            proof {
                lemma_xor_flips_lap((self.tail - buf@.len()) as usize);
            }
            self.tail = (self.tail - buf.len()) ^ WRAP_BIT;
        }

        proof {
            lemma_advance(old(self).tail, len);
            let oldc = old(self).contents(buf@);
            let newc = self.contents(buf@);
            assert forall|k: int| 0 <= k < newc.len() implies newc[k] == oldc.drop_first()[k] by {
                lemma_offset_mod(k, len);
                lemma_offset_mod(position(old(self).tail) + 1 + k, len);
            }
            assert(newc =~= oldc.drop_first());
        }
        val
    }

    /// Return a reference to the oldest element without removing it.
    ///
    /// Returns `None` if the buffer is empty.
    pub fn peek<'a>(&mut self, buf: &'a [T]) -> (r: Option<&'a T>)
        requires
            old(self).inv(buf@.len() as int),
        ensures
            *final(self) == *old(self),
            r is Some <==> old(self).count(buf@.len() as int) > 0,
            r matches Some(v) ==> *v == old(self).contents(buf@).first(),
    {
        proof {
            self.lemma_empty_iff_count_zero(buf@.len() as int);
        }
        if self.is_empty() {
            return None;
        }
        Some(self.peek_unchecked(buf))
    }

    /// Return a reference to the oldest element without removing it and
    /// without checking for emptiness first.  The caller must have ruled
    /// emptiness out.
    pub fn peek_unchecked<'a>(&mut self, buf: &'a [T]) -> (r: &'a T)
        requires
            old(self).inv(buf@.len() as int),
            old(self).count(buf@.len() as int) > 0,
        ensures
            *final(self) == *old(self),
            *r == old(self).contents(buf@).first(),
    {
        proof {
            lemma_mask_is_position(self.tail);
            lemma_offset_mod(position(self.tail), buf@.len() as int);
        }
        &buf[self.tail & !WRAP_BIT]
    }

    /// Add an element to the buffer.
    ///
    /// Ignores the write if the buffer is full.
    pub fn put(&mut self, buf: &mut [T], val: T)
        requires
            old(self).inv(old(buf)@.len() as int),
        ensures
            final(buf)@.len() == old(buf)@.len(),
            final(self).inv(old(buf)@.len() as int),
            old(self).count(old(buf)@.len() as int) == old(buf)@.len() ==> *final(self) == *old(
                self,
            ) && final(buf)@ == old(buf)@,
            old(self).count(old(buf)@.len() as int) < old(buf)@.len() ==> final(buf)@ == old(
                buf,
            )@.update(position(old(self).head), val),
            old(self).count(old(buf)@.len() as int) < old(buf)@.len() ==> final(self).tail == old(
                self,
            ).tail && final(self).head == advance(old(self).head, old(buf)@.len() as int),
            old(self).count(old(buf)@.len() as int) < old(buf)@.len() ==> final(self).count(
                old(buf)@.len() as int,
            ) == old(self).count(old(buf)@.len() as int) + 1,
            old(self).count(old(buf)@.len() as int) < old(buf)@.len() ==> final(self).contents(
                final(buf)@,
            ) == old(self).contents(old(buf)@).push(val),
    {
        proof {
            self.lemma_full_iff_count_len(buf@.len() as int);
        }
        if self.is_full() {
            return;
        }
        self.put_unchecked(buf, val)
    }

    /// Write `val` into the next free slot, without checking for fullness
    /// first.  The caller must have ruled fullness out.
    pub fn put_unchecked(&mut self, buf: &mut [T], val: T)
        requires
            old(self).inv(old(buf)@.len() as int),
            old(self).count(old(buf)@.len() as int) < old(buf)@.len(),
        ensures
            final(buf)@.len() == old(buf)@.len(),
            final(buf)@ == old(buf)@.update(position(old(self).head), val),
            final(self).inv(old(buf)@.len() as int),
            final(self).tail == old(self).tail,
            final(self).head == advance(old(self).head, old(buf)@.len() as int),
            final(self).count(old(buf)@.len() as int) == old(self).count(old(buf)@.len() as int)
                + 1,
            final(self).contents(final(buf)@) == old(self).contents(old(buf)@).push(val),
    {
        let ghost len: int = old(buf)@.len() as int;
        proof {
            lemma_wrap_bit_value();
            lemma_mask_is_position(self.head);
        }
        buf[self.head & !WRAP_BIT] = val;

        self.head = self.head + 1;
        proof {
            lemma_mask_is_position(self.head);
        }
        if (self.head & !WRAP_BIT) >= buf.len() {
            proof {
                lemma_xor_flips_lap((self.head - buf@.len()) as usize);
            }
            self.head = (self.head - buf.len()) ^ WRAP_BIT;
        }

        proof {
            lemma_advance(old(self).head, len);
            lemma_offset_mod(position(old(self).tail) + old(self).count(len), len);
            let oldc = old(self).contents(old(buf)@);
            let newc = self.contents(buf@);
            assert forall|k: int| 0 <= k < newc.len() implies newc[k] == oldc.push(val)[k] by {
                lemma_offset_mod(position(old(self).tail) + k, len);
            }
            assert(newc =~= oldc.push(val));
        }
    }
}

} // verus!
