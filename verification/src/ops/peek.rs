//! Peeking some bytes.
use super::copy::{copy_to_front, overlaid};
use super::intake::Intake;
use crate::attempt::{fits, received, Attempt, Prepared, Settled};
use crate::buffer::{zeros, Buffer, MAX_LEN};
use crate::error::PeekError;
use crate::stream::taken_in;
use crate::sync::DefaultBuffer;
use vstd::prelude::*;

verus! {

/// Fills the front of a slice with the next bytes of a stream, and leaves them
/// in the stream.
///
/// Bytes that have been peeked before come first. If they do not fill the
/// slice, the reader is asked once for more.
#[derive(Debug)]
pub struct Peek<'a, R, B = DefaultBuffer> {
    /// The reader, and what has been peeked from it.
    pub intake: Intake<'a, R, B>,
    /// Where the bytes go.
    pub buf: &'a mut [u8],
    /// Whether an empty `buf` is done without asking the reader.
    pub skip_empty: bool,
    /// Whether a reader that would block counts as one that is not ready.
    pub block_is_pending: bool,
}

impl<'a, R, B: Buffer> Peek<'a, R, B> {
    /// The operation's invariant.
    pub open spec fn wf(&self) -> bool {
        &&& self.buf@.len() <= MAX_LEN
        &&& self.intake.wf()
        &&& self.intake.open_at is Some ==> self.intake.base().len() + self.intake.lent().len()
            == self.buf@.len()
    }

    /// Whether the peeked bytes alone answer the request.
    pub open spec fn answered(&self) -> bool {
        let have = self.intake.base().len();
        let want = self.buf@.len();
        want <= have && (have > 0 || self.skip_empty)
    }

    /// Whether `self` and `other` are about the same reader, and go by the same
    /// rules.
    pub open spec fn same_terms(&self, other: &Self) -> bool {
        &&& self.intake.same_reader(&other.intake)
        &&& self.skip_empty == other.skip_empty
        &&& self.block_is_pending == other.block_is_pending
    }

    /// Whether preparing `before` leads here, with `step` as the answer.
    pub open spec fn prepared_from(&self, before: &Self, step: Prepared) -> bool {
        &&& self.wf()
        &&& self.same_terms(before)
        &&& self.intake.base() == before.intake.base()
        &&& before.answered() <==> step.count() is Some
        &&& match step {
            Prepared::Done(Ok(n)) => {
                &&& n == before.buf@.len()
                &&& self.buf@ == before.intake.base().take(n as int)
                &&& self.intake.open_at is None
            },
            Prepared::Read => {
                &&& before.intake.peekable.store().may_grow_to(before.buf@.len())
                &&& self.buf@ == before.buf@
                &&& self.intake.open_at is Some
                &&& self.intake.has_capacity_of(&before.intake)
                &&& self.intake.lent() == zeros(
                    (before.buf@.len() - before.intake.base().len()) as nat,
                )
            },
            Prepared::Done(Err(error)) => {
                &&& error matches PeekError::Io(e)
                &&& before.intake.peekable.store().refuses_with(before.buf@.len(), e)
                &&& !before.intake.peekable.store().grows_to(before.buf@.len())
                &&& self.buf@ == before.buf@
                &&& self.intake.open_at is None
            },
        }
    }

    /// Answers the request from the peeked bytes if they are enough for it,
    /// and otherwise makes room in the peek buffer for the reader to write to.
    ///
    /// If the peek buffer refuses to grow, the reader is not asked.
    pub fn prepare(&mut self) -> (step: Prepared)
        requires
            old(self).wf(),
            old(self).intake.open_at is None,
        ensures
            *final(final(self).intake.peekable) == *final(old(self).intake.peekable),
            final(final(self).buf)@ == final(old(self).buf)@,
            final(self).prepared_from(old(self), step),
    {
        let want: usize = self.buf.len();
        let have: usize = self.intake.peekable.buffer.len();
        if want <= have && (have > 0 || self.skip_empty) {
            let (front, _rest) = self.intake.peekable.buffer.as_slice().split_at(want);
            self.buf.copy_from_slice(front);
            return Prepared::Done(Ok(want));
        }
        match self.intake.open_to(want) {
            Ok(()) => Prepared::Read,
            Err(error) => Prepared::Done(Err(PeekError::Io(error))),
        }
    }

    /// Whether everything but the reader and the lent bytes is as in `before`.
    pub open spec fn lent_from(&self, before: &Self) -> bool {
        &&& self.intake.peekable.requested() == before.intake.peekable.requested()
        &&& self.intake.keeps_room_of(&before.intake)
        &&& self.intake.open_at == before.intake.open_at
        &&& self.intake.capacity == before.intake.capacity
        &&& self.intake.base() == before.intake.base()
        &&& self.buf@ == before.buf@
        &&& self.skip_empty == before.skip_empty
        &&& self.block_is_pending == before.block_is_pending
    }

    /// Lends out the reader, and the bytes that it may write to.
    pub fn lend(&mut self) -> (parts: (&mut R, &mut [u8]))
        requires
            old(self).wf(),
            old(self).intake.open_at is Some,
        ensures
            *final(final(self).intake.peekable) == *final(old(self).intake.peekable),
            final(final(self).buf)@ == final(old(self).buf)@,
            *parts.0 == old(self).intake.peekable.inner(),
            parts.1@ == old(self).intake.lent(),
            final(self).intake.peekable.inner() == *final(parts.0),
            final(self).intake.lent() == final(parts.1)@,
            final(parts.1)@.len() == parts.1@.len() ==> final(self).wf(),
            final(self).lent_from(old(self)),
    {
        self.intake.lend()
    }

    /// Whether settling `attempt` for `before` leads here, with `step` as the answer.
    pub open spec fn settled_from(&self, before: &Self, attempt: Attempt, step: Settled) -> bool {
        &&& self.wf()
        &&& self.same_terms(before)
        &&& self.intake.open_at is None
        &&& self.intake.base() == taken_in(
            before.intake.base(),
            before.intake.lent(),
            attempt,
        )
        &&& step.count() matches Some(n) ==> n <= before.buf@.len()
        &&& step matches Settled::Done(Err(_)) ==> self.intake.base() == before.intake.base()
        &&& {
            let have = before.intake.base().len();
            match attempt {
                Attempt::Ready(n) => {
                    &&& step.count() == Some(have + n as nat)
                    &&& self.buf@ == overlaid(
                        before.buf@,
                        self.intake.base(),
                    )
                },
                Attempt::Interrupted(_) => {
                    &&& step is Again
                    &&& self.buf@ == before.buf@
                },
                Attempt::Failed(error) => {
                    &&& step == Settled::Done(Err(PeekError::Io(error)))
                    &&& self.buf@ == before.buf@
                },
                Attempt::WouldBlock(error) if !before.block_is_pending => {
                    &&& step == Settled::Done(Err(PeekError::Io(error)))
                    &&& self.buf@ == before.buf@
                },
                _ => {
                    if have > 0 {
                        &&& step.count() == Some(have)
                        &&& self.buf@ == overlaid(
                            before.buf@,
                            before.intake.base(),
                        )
                    } else {
                        &&& step is Pending
                        &&& self.buf@ == before.buf@
                    }
                },
            }
        }
    }

    /// Takes note of how the read went.
    ///
    /// What the reader delivered is peeked now, and goes to the slice behind
    /// what had been peeked before. If the reader was not ready, what had been
    /// peeked before is the answer, unless that is nothing.
    pub fn settle(&mut self, attempt: Attempt) -> (step: Settled)
        requires
            old(self).wf(),
            old(self).intake.open_at is Some,
            fits(attempt, old(self).intake.lent().len()),
        ensures
            *final(final(self).intake.peekable) == *final(old(self).intake.peekable),
            final(final(self).buf)@ == final(old(self).buf)@,
            final(self).settled_from(old(self), attempt, step),
            exists|store: &mut B|
                #![trigger call_ensures(B::keep_capacity, (store, old(self).intake.capacity), ())]
                call_ensures(B::keep_capacity, (store, old(self).intake.capacity), ())
                    && *final(store) == final(self).intake.peekable.store(),
    {
        self.intake.close(&attempt);
        match attempt {
            Attempt::Ready(_) => Settled::Done(Ok(self.deliver())),
            Attempt::Interrupted(_) => Settled::Again,
            Attempt::Failed(error) => Settled::Done(Err(PeekError::Io(error))),
            Attempt::WouldBlock(error) => {
                if self.block_is_pending {
                    self.make_do()
                } else {
                    Settled::Done(Err(PeekError::Io(error)))
                }
            },
            Attempt::Pending => self.make_do(),
        }
    }

    /// Copies everything that has been peeked to the slice.
    fn deliver(&mut self) -> (n: usize)
        requires
            old(self).intake.open_at is None,
            old(self).intake.base().len() <= old(self).buf@.len(),
        ensures
            *final(final(self).intake.peekable) == *final(old(self).intake.peekable),
            final(final(self).buf)@ == final(old(self).buf)@,
            final(self).same_terms(old(self)),
            final(self).intake.peekable.store() == old(self).intake.peekable.store(),
            final(self).intake.open_at is None,
            final(self).intake.base() == old(self).intake.base(),
            final(self).buf@ == overlaid(old(self).buf@, old(self).intake.base()),
            n == old(self).intake.base().len(),
    {
        let peeked = self.intake.peekable.buffer.as_slice();
        copy_to_front(self.buf, peeked);
        peeked.len()
    }

    /// Answers with what has been peeked, unless that is nothing.
    fn make_do(&mut self) -> (step: Settled)
        requires
            old(self).intake.open_at is None,
            old(self).intake.base().len() <= old(self).buf@.len(),
        ensures
            *final(final(self).intake.peekable) == *final(old(self).intake.peekable),
            final(final(self).buf)@ == final(old(self).buf)@,
            final(self).same_terms(old(self)),
            final(self).intake.peekable.store() == old(self).intake.peekable.store(),
            final(self).intake.open_at is None,
            final(self).intake.base() == old(self).intake.base(),
            old(self).intake.base().len() > 0 ==> {
                &&& step.count() == Some(old(self).intake.base().len())
                &&& final(self).buf@ == overlaid(old(self).buf@, old(self).intake.base())
            },
            old(self).intake.base().len() == 0 ==> step is Pending && final(self).buf@ == old(
                self,
            ).buf@,
    {
        if self.intake.peekable.buffer.len() == 0 {
            Settled::Pending
        } else {
            Settled::Done(Ok(self.deliver()))
        }
    }
}

} // verus!
