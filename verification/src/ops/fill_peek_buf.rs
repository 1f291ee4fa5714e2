//! Filling the peek buffer.
use super::intake::Intake;
use crate::attempt::{received, Attempt, Prepared, Settled};
use crate::buffer::{zeros, Buffer, MAX_LEN};
use crate::error::PeekError;
use crate::stream::taken_in;
use crate::sync::DefaultBuffer;
use vstd::prelude::*;

verus! {

/// Peeks as many bytes as the peek buffer has room for without growing.
///
/// The reader is asked once, and may deliver fewer.
#[derive(Debug)]
pub struct FillPeekBuf<'a, R, B = DefaultBuffer> {
    /// The reader, and what has been peeked from it.
    pub intake: Intake<'a, R, B>,
    /// How many bytes the peek buffer has room for.
    pub cap: usize,
    /// How many bytes had been peeked at first.
    pub original: usize,
    /// Whether an interrupted read is tried again.
    pub retry: bool,
}

impl<'a, R, B: Buffer> FillPeekBuf<'a, R, B> {
    /// The operation's invariant.
    pub open spec fn wf(&self) -> bool {
        &&& self.intake.wf()
        &&& self.original == self.intake.base().len()
        &&& self.cap <= MAX_LEN || self.intake.peekable.store().allows(self.cap as nat)
    }

    /// Whether `self` and `other` are about the same reader, and go by the same
    /// rules.
    pub open spec fn same_terms(&self, other: &Self) -> bool {
        &&& self.intake.same_reader(&other.intake)
        &&& self.cap == other.cap
        &&& self.original == other.original
        &&& self.retry == other.retry
    }

    /// Whether preparing `before` leads here, with `step` as the answer.
    pub open spec fn prepared_from(&self, before: &Self, step: Prepared) -> bool {
        &&& self.wf()
        &&& self.same_terms(before)
        &&& self.intake.base() == before.intake.base()
        &&& match step {
            Prepared::Done(Ok(n)) => {
                &&& n == 0
                &&& before.cap <= before.original
                &&& self.intake.open_at is None
            },
            Prepared::Read => {
                &&& before.cap > before.original
                &&& before.intake.peekable.store().may_grow_to(before.cap as nat)
                &&& self.intake.open_at is Some
                &&& self.intake.has_capacity_of(&before.intake)
                &&& self.intake.lent() == zeros(
                    (before.cap - before.original) as nat,
                )
            },
            Prepared::Done(Err(error)) => {
                &&& error matches PeekError::Io(e)
                &&& before.intake.peekable.store().refuses_with(before.cap as nat, e)
                &&& before.cap > before.original
                &&& !before.intake.peekable.store().grows_to(before.cap as nat)
                &&& self.intake.open_at is None
            },
        }
    }

    /// Opens all the room that the peek buffer has to the reader. If there is
    /// none, the operation is complete.
    ///
    /// If the peek buffer refuses to use its room, the reader is not asked.
    pub fn prepare(&mut self) -> (step: Prepared)
        requires
            old(self).wf(),
            old(self).intake.open_at is None,
        ensures
            *final(final(self).intake.peekable) == *final(old(self).intake.peekable),
            final(self).prepared_from(old(self), step),
    {
        if self.cap <= self.original {
            return Prepared::Done(Ok(0));
        }
        match self.intake.open_to(self.cap) {
            Ok(()) => Prepared::Read,
            Err(error) => Prepared::Done(Err(PeekError::Io(error))),
        }
    }

    /// Whether everything but the reader and the lent bytes is as in `before`.
    pub open spec fn lent_from(&self, before: &Self) -> bool {
        &&& self.intake.peekable.requested() == before.intake.peekable.requested()
        &&& self.intake.keeps_room_of(&before.intake)
        &&& self.intake.open_at == before.intake.open_at
        &&& self.intake.capacity == before.intake.capacity
        &&& self.intake.base() == before.intake.base()
        &&& self.cap == before.cap
        &&& self.original == before.original
        &&& self.retry == before.retry
    }

    /// Lends out the reader, and the bytes that it may write to.
    pub fn lend(&mut self) -> (parts: (&mut R, &mut [u8]))
        requires
            old(self).wf(),
            old(self).intake.open_at is Some,
        ensures
            *final(final(self).intake.peekable) == *final(old(self).intake.peekable),
            *parts.0 == old(self).intake.peekable.inner(),
            parts.1@ == old(self).intake.lent(),
            final(self).intake.peekable.inner() == *final(parts.0),
            final(self).intake.lent() == final(parts.1)@,
            final(self).wf(),
            final(self).lent_from(old(self)),
    {
        self.intake.lend()
    }

    /// Whether settling `attempt` for `before` leads here, with `step` as the answer.
    pub open spec fn settled_from(&self, before: &Self, attempt: Attempt, step: Settled) -> bool {
        &&& self.same_terms(before)
        &&& self.intake.open_at is None
        &&& self.intake.base() == taken_in(
            before.intake.base(),
            before.intake.lent(),
            attempt,
        )
        &&& step is Again || step is Pending ==> self.wf()
        &&& step matches Settled::Done(Err(_)) ==> self.intake.base() == before.intake.base()
        &&& match attempt {
            Attempt::Ready(n) => step == Settled::Done(Ok(n)),
            Attempt::Pending => step is Pending,
            Attempt::Interrupted(error) => if before.retry {
                step is Again
            } else {
                step == Settled::Done(Err(PeekError::Io(error)))
            },
            Attempt::WouldBlock(error) | Attempt::Failed(error) => step == Settled::Done(
                Err(PeekError::Io(error)),
            ),
        }
    }

    /// Takes note of how the read went.
    ///
    /// What the reader delivered is peeked now. If it delivered nothing, for
    /// whatever reason, the peek buffer is as it was.
    pub fn settle(&mut self, attempt: Attempt) -> (step: Settled)
        requires
            old(self).wf(),
            old(self).intake.open_at is Some,
        ensures
            *final(final(self).intake.peekable) == *final(old(self).intake.peekable),
            final(self).settled_from(old(self), attempt, step),
            exists|store: &mut B|
                #![trigger call_ensures(B::keep_capacity, (store, old(self).intake.capacity), ())]
                call_ensures(B::keep_capacity, (store, old(self).intake.capacity), ())
                    && *final(store) == final(self).intake.peekable.store(),
    {
        self.intake.close(&attempt);
        match attempt {
            Attempt::Ready(n) => Settled::Done(Ok(n)),
            Attempt::Pending => Settled::Pending,
            Attempt::Interrupted(error) => {
                if self.retry {
                    Settled::Again
                } else {
                    Settled::Done(Err(PeekError::Io(error)))
                }
            },
            Attempt::WouldBlock(error) => Settled::Done(Err(PeekError::Io(error))),
            Attempt::Failed(error) => Settled::Done(Err(PeekError::Io(error))),
        }
    }
}

} // verus!
