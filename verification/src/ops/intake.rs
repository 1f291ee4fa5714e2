//! Taking in bytes at the end of a peek buffer.
use crate::attempt::{received, Attempt};
use crate::buffer::{zeros, Buffer, MAX_LEN};
use crate::growth::{can_grow, grow_peek_buffer, may_grow_by, READ_CHUNK};
use crate::stream::taken_in;
use crate::sync::{DefaultBuffer, Peekable};
use vstd::prelude::*;

verus! {

/// The way from a reader into its peek buffer.
///
/// The buffer is grown first, then the reader writes to the new bytes at its
/// end, and then the buffer is cut back to what the reader delivered. So the
/// reader never advances past what the buffer can hold, and bytes that the
/// reader did not write are never taken for peeked ones.
#[derive(Debug)]
pub struct Intake<'a, R, B = DefaultBuffer> {
    /// The reader and its peek buffer.
    pub peekable: &'a mut Peekable<R, B>,
    /// How long the peek buffer was before it was grown, while it is.
    pub open_at: Option<usize>,
    /// The capacity that the peek buffer reported once it had been grown.
    pub capacity: usize,
}

impl<'a, R, B: Buffer> Intake<'a, R, B> {
    /// The invariant.
    pub open spec fn wf(&self) -> bool {
        self.open_at matches Some(n) ==> n <= self.peekable.peeked().len()
    }

    /// The bytes that have been peeked.
    pub open spec fn base(&self) -> Seq<u8> {
        match self.open_at {
            Some(n) => self.peekable.peeked().take(n as int),
            None => self.peekable.peeked(),
        }
    }

    /// The bytes at the end of the peek buffer that the reader may write to.
    pub open spec fn lent(&self) -> Seq<u8> {
        match self.open_at {
            Some(n) => self.peekable.peeked().skip(n as int),
            None => Seq::empty(),
        }
    }

    /// Whether the peek buffer has lost none of the room that it had in `other`.
    pub open spec fn keeps_room_of(&self, other: &Self) -> bool {
        &&& self.peekable.store().room() >= other.peekable.store().room()
        &&& forall|n: nat| #[trigger]
            other.peekable.store().allows(n) ==> self.peekable.store().allows(n)
        &&& B::keeps_room() ==> forall|n: nat| #[trigger]
            other.peekable.store().has_room(n) ==> self.peekable.store().has_room(n)
    }

    /// Whether the capacity that is kept in mind is what the peek buffer reports, and
    /// is all the room that it was certain to have in `other`.
    pub open spec fn has_capacity_of(&self, other: &Self) -> bool {
        &&& call_ensures(B::capacity, (&self.peekable.store(),), self.capacity)
        &&& forall|n: nat| #[trigger]
            other.peekable.store().has_room(n) ==> n <= self.capacity
    }

    /// Whether `self` stands for the same reader in the same state as `other`, and
    /// its peek buffer has lost no room.
    pub open spec fn same_reader(&self, other: &Self) -> bool {
        &&& self.peekable.inner() == other.peekable.inner()
        &&& self.peekable.requested() == other.peekable.requested()
        &&& self.keeps_room_of(other)
        &&& forall|n: nat| #[trigger]
            other.peekable.store().has_room(n) ==> self.peekable.store().has_room(n)
    }

    /// Grows the peek buffer to `len` bytes. If it refuses, nothing changes.
    pub(crate) fn open_to(&mut self, len: usize) -> (result: std::io::Result<()>)
        requires
            old(self).open_at is None,
            old(self).base().len() <= len,
            len <= MAX_LEN || old(self).peekable.store().allows(len as nat),
        ensures
            *final(final(self).peekable) == *final(old(self).peekable),
            final(self).wf(),
            final(self).same_reader(old(self)),
            final(self).base() == old(self).base(),
            old(self).peekable.store().grows_to(len as nat) ==> result is Ok,
            match result {
                Ok(()) => {
                    &&& old(self).peekable.store().may_grow_to(len as nat)
                    &&& final(self).open_at is Some
                    &&& final(self).has_capacity_of(old(self))
                    &&& final(self).lent() == zeros((len - old(self).base().len()) as nat)
                },
                Err(error) => {
                    &&& final(self).open_at is None
                    &&& old(self).peekable.store().refuses_with(len as nat, error)
                },
            },
    {
        let have: usize = self.peekable.buffer.len();
        match self.peekable.buffer.resize(len) {
            Ok(()) => {
                self.open_at = Some(have);
                self.capacity = self.peekable.buffer.capacity();
                Ok(())
            },
            Err(error) => Err(error),
        }
    }

    /// Grows the peek buffer by a chunk, or by what it accepts of it. If it
    /// refuses a single byte, nothing changes.
    pub(crate) fn open(&mut self) -> (result: std::io::Result<()>)
        requires
            old(self).open_at is None,
            old(self).base().len() + READ_CHUNK <= MAX_LEN,
        ensures
            *final(final(self).peekable) == *final(old(self).peekable),
            final(self).wf(),
            final(self).same_reader(old(self)),
            final(self).base() == old(self).base(),
            match result {
                Ok(()) => {
                    &&& final(self).open_at is Some
                    &&& final(self).has_capacity_of(old(self))
                    &&& final(self).lent() == zeros(final(self).lent().len())
                    &&& 0 < final(self).lent().len() <= READ_CHUNK
                    &&& may_grow_by(
                        old(self).peekable.store(),
                        old(self).base().len(),
                        final(self).lent().len(),
                    )
                },
                Err(error) => {
                    &&& final(self).open_at is None
                    &&& old(self).peekable.store().refuses_with(
                        old(self).base().len() + 1,
                        error,
                    )
                    &&& !can_grow(old(self).peekable.store(), old(self).base().len())
                },
            },
    {
        let have: usize = self.peekable.buffer.len();
        match grow_peek_buffer(&mut self.peekable.buffer) {
            Ok(growth) => {
                self.open_at = Some(have);
                self.capacity = self.peekable.buffer.capacity();
                Ok(())
            },
            Err(error) => Err(error),
        }
    }

    /// Lends out the reader, and the bytes that it may write to.
    pub fn lend(&mut self) -> (parts: (&mut R, &mut [u8]))
        requires
            old(self).wf(),
            old(self).open_at is Some,
        ensures
            *final(final(self).peekable) == *final(old(self).peekable),
            *parts.0 == old(self).peekable.inner(),
            parts.1@ == old(self).lent(),
            final(self).peekable.inner() == *final(parts.0),
            final(self).peekable.requested() == old(self).peekable.requested(),
            final(self).keeps_room_of(old(self)),
            final(self).open_at == old(self).open_at,
            final(self).capacity == old(self).capacity,
            final(self).base() == old(self).base(),
            final(self).lent() == final(parts.1)@,
            final(self).wf(),
    {
        let from: usize = match self.open_at {
            Some(n) => n,
            None => 0,
        };
        let (_base, lent) = self.peekable.buffer.as_mut_slice().split_at_mut(from);
        (&mut self.peekable.reader, lent)
    }

    /// Cuts the peek buffer back to what it had and what the reader delivered.
    pub(crate) fn close(&mut self, attempt: &Attempt)
        requires
            old(self).wf(),
            old(self).open_at is Some,
        ensures
            *final(final(self).peekable) == *final(old(self).peekable),
            final(self).open_at is None,
            final(self).same_reader(old(self)),
            final(self).base() == taken_in(old(self).base(), old(self).lent(), *attempt),
            exists|store: &mut B|
                #![trigger call_ensures(B::keep_capacity, (store, old(self).capacity), ())]
                call_ensures(B::keep_capacity, (store, old(self).capacity), ()) && *final(store)
                    == final(self).peekable.store(),
    {
        let have: usize = match self.open_at {
            Some(n) => n,
            None => 0,
        };
        let delivered: usize = match attempt {
            Attempt::Ready(n) => *n,
            _ => 0,
        };
        let lent: usize = self.peekable.buffer.len() - have;
        if delivered < lent {
            self.peekable.buffer.truncate(have + delivered);
        }
        self.peekable.buffer.keep_capacity(self.capacity);
        self.open_at = None;
    }
}

} // verus!
