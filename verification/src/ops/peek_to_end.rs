//! Peeking a whole stream.
use super::intake::Intake;
use crate::attempt::{fits, received, Attempt, Prepared, Settled};
use crate::buffer::{zeros, Buffer, MAX_LEN};
use crate::error::PeekError;
use crate::growth::{can_grow, may_grow_by, READ_CHUNK};
use crate::stream::taken_in;
use crate::sync::DefaultBuffer;
use vstd::prelude::*;

verus! {

/// Appends a whole stream to a vector, and leaves it in the stream.
///
/// The vector follows the peek buffer read by read. If the operation fails, what
/// was read up to then stays in both.
#[derive(Debug)]
pub struct PeekToEnd<'a, R, B = DefaultBuffer> {
    /// The reader, and what has been peeked from it.
    pub intake: Intake<'a, R, B>,
    /// Where the bytes go.
    pub out: &'a mut Vec<u8>,
    /// Whether `out` has what had been peeked before.
    pub prefix_copied: bool,
    /// How many bytes `out` held at first.
    pub start: usize,
}

impl<'a, R, B: Buffer> PeekToEnd<'a, R, B> {
    /// What the vector held at first.
    pub open spec fn origin(&self) -> Seq<u8> {
        self.out@.take(self.start as int)
    }

    /// The operation's invariant: once begun, the vector holds what it held at
    /// first, and then everything that has been peeked.
    pub open spec fn wf(&self) -> bool {
        &&& self.intake.wf()
        &&& self.start <= self.out@.len()
        &&& self.out@.skip(self.start as int) == if self.prefix_copied {
            self.intake.base()
        } else {
            Seq::empty()
        }
        &&& self.intake.open_at is Some ==> self.prefix_copied
    }

    /// Whether preparing `before` leads here, with `step` as the answer.
    pub open spec fn prepared_from(&self, before: &Self, step: Prepared) -> bool {
        &&& self.wf()
        &&& self.start == before.start
        &&& self.origin() == before.origin()
        &&& self.prefix_copied
        &&& self.intake.same_reader(&before.intake)
        &&& self.intake.base() == before.intake.base()
        &&& self.out@ == before.origin() + before.intake.base()
        &&& {
            let store = before.intake.peekable.store();
            let have = before.intake.base().len();
            match step {
                Prepared::Read => {
                    &&& self.intake.open_at is Some
                    &&& self.intake.has_capacity_of(&before.intake)
                    &&& self.intake.lent() == zeros(self.intake.lent().len())
                    &&& 0 < self.intake.lent().len() <= READ_CHUNK
                    &&& may_grow_by(store, have, self.intake.lent().len())
                },
                Prepared::Done(Err(PeekError::Io(error))) => {
                    &&& self.intake.open_at is None
                    &&& store.refuses_with(have + 1, error)
                    &&& !can_grow(store, have)
                },
                _ => false,
            }
        }
    }

    /// Makes room in the peek buffer for the reader to write to, after copying
    /// what had been peeked before to the vector the first time.
    ///
    /// If the peek buffer refuses to grow, the reader is not asked.
    pub fn prepare(&mut self) -> (step: Prepared)
        requires
            old(self).wf(),
            old(self).intake.open_at is None,
            old(self).intake.base().len() + READ_CHUNK <= MAX_LEN,
        ensures
            *final(final(self).intake.peekable) == *final(old(self).intake.peekable),
            *final(final(self).out) == *final(old(self).out),
            final(self).prepared_from(old(self), step),
    {
        if !self.prefix_copied {
            assert(self.out@.skip(self.start as int).len() == 0);
            self.out.extend_from_slice(self.intake.peekable.buffer.as_slice());
            self.prefix_copied = true;
        }
        assert(self.out@.skip(self.start as int) =~= self.intake.base());
        assert(self.origin() =~= old(self).origin());
        assert(self.out@ =~= self.origin() + self.intake.base());
        match self.intake.open() {
            Ok(()) => Prepared::Read,
            Err(error) => Prepared::Done(Err(PeekError::Io(error))),
        }
    }

    /// Whether everything but the reader and the lent bytes is as in `before`.
    pub open spec fn lent_from(&self, before: &Self) -> bool {
        &&& self.intake.peekable.requested() == before.intake.peekable.requested()
        &&& self.intake.keeps_room_of(&before.intake)
        &&& self.intake.open_at == before.intake.open_at
        &&& self.intake.capacity == before.intake.capacity
        &&& self.intake.base() == before.intake.base()
        &&& self.out@ == before.out@
        &&& self.prefix_copied == before.prefix_copied
        &&& self.start == before.start
        &&& self.origin() == before.origin()
    }

    /// Lends out the reader, and the bytes that it may write to.
    pub fn lend(&mut self) -> (parts: (&mut R, &mut [u8]))
        requires
            old(self).wf(),
            old(self).intake.open_at is Some,
        ensures
            *final(final(self).intake.peekable) == *final(old(self).intake.peekable),
            *final(final(self).out) == *final(old(self).out),
            *parts.0 == old(self).intake.peekable.inner(),
            parts.1@ == old(self).intake.lent(),
            final(self).intake.peekable.inner() == *final(parts.0),
            final(self).intake.lent() == final(parts.1)@,
            final(self).wf(),
            final(self).lent_from(old(self)),
    {
        self.intake.lend()
    }

    /// Whether settling `attempt` for `before` leads here, with `step` as the answer.
    pub open spec fn settled_from(&self, before: &Self, attempt: Attempt, step: Settled) -> bool {
        &&& self.wf()
        &&& self.start == before.start
        &&& self.origin() == before.origin()
        &&& self.prefix_copied
        &&& self.intake.same_reader(&before.intake)
        &&& self.intake.open_at is None
        &&& self.intake.base() == taken_in(
            before.intake.base(),
            before.intake.lent(),
            attempt,
        )
        &&& self.out@ == before.origin() + self.intake.base()
        &&& match attempt {
            Attempt::Ready(0) => step.count() == Some(self.intake.base().len()),
            Attempt::Ready(_) | Attempt::Interrupted(_) => step is Again,
            Attempt::Pending => step is Pending,
            Attempt::WouldBlock(error) | Attempt::Failed(error) => step == Settled::Done(
                Err(PeekError::Io(error)),
            ),
        }
    }

    /// Takes note of how the read went.
    ///
    /// What the reader delivered is peeked now, and follows in the vector. The
    /// operation is complete when the reader is at the end of the stream.
    pub fn settle(&mut self, attempt: Attempt) -> (step: Settled)
        requires
            old(self).wf(),
            old(self).intake.open_at is Some,
            fits(attempt, old(self).intake.lent().len()),
        ensures
            *final(final(self).intake.peekable) == *final(old(self).intake.peekable),
            *final(final(self).out) == *final(old(self).out),
            final(self).settled_from(old(self), attempt, step),
            exists|store: &mut B|
                #![trigger call_ensures(B::keep_capacity, (store, old(self).intake.capacity), ())]
                call_ensures(B::keep_capacity, (store, old(self).intake.capacity), ())
                    && *final(store) == final(self).intake.peekable.store(),
    {
        let have: usize = match self.intake.open_at {
            Some(n) => n,
            None => 0,
        };
        self.intake.close(&attempt);
        proof {
            assert(self.out@ =~= self.origin() + old(self).intake.base());
            if received(old(self).intake.lent(), attempt).len() == 0 {
                assert(self.intake.base() =~= old(self).intake.base());
            }
        }
        match attempt {
            Attempt::Ready(n) => {
                if n == 0 {
                    return Settled::Done(Ok(self.intake.peekable.buffer.len()));
                }
                let (_old, new) = self.intake.peekable.buffer.as_slice().split_at(have);
                self.out.extend_from_slice(new);
                assert(self.out@.skip(self.start as int) =~= self.intake.base());
                assert(self.origin() =~= old(self).origin());
                assert(self.out@ =~= self.origin() + self.intake.base());
                Settled::Again
            },
            Attempt::Interrupted(_) => Settled::Again,
            Attempt::Pending => Settled::Pending,
            Attempt::WouldBlock(error) => Settled::Done(Err(PeekError::Io(error))),
            Attempt::Failed(error) => Settled::Done(Err(PeekError::Io(error))),
        }
    }
}

} // verus!
