//! Peeking as many bytes as fit.
use super::copy::{copy_to_front, overlaid};
use super::intake::Intake;
use crate::attempt::{fits, received, Attempt, Prepared, Settled};
use crate::buffer::{zeros, Buffer, MAX_LEN};
use crate::error::PeekError;
use crate::stream::taken_in;
use crate::sync::DefaultBuffer;
use vstd::prelude::*;

verus! {

/// Fills a slice with the next bytes of a stream, and leaves them in the
/// stream.
///
/// The reader is asked for more until the slice is full. It is never asked for
/// more than that takes.
#[derive(Debug)]
pub struct PeekExact<'a, R, B = DefaultBuffer> {
    /// The reader, and what has been peeked from it.
    pub intake: Intake<'a, R, B>,
    /// Where the bytes go.
    pub buf: &'a mut [u8],
    /// How many bytes of `buf` are filled.
    pub filled: usize,
}

impl<'a, R, B: Buffer> PeekExact<'a, R, B> {
    /// Whether the filled front of the slice is the beginning of what has been
    /// peeked, and all of it once a read is needed.
    pub open spec fn consistent(&self) -> bool {
        let total = self.buf@.len();
        let base = self.intake.base();
        &&& self.intake.wf()
        &&& self.filled <= total
        &&& self.filled <= base.len()
        &&& self.buf@.take(self.filled as int) == base.take(self.filled as int)
        &&& 0 < self.filled < total ==> self.filled == base.len()
        &&& self.intake.open_at is Some ==> {
            &&& self.filled < total
            &&& self.filled == base.len()
            &&& self.intake.lent().len() == total - self.filled
        }
    }

    /// The operation's invariant.
    pub open spec fn wf(&self) -> bool {
        self.consistent() && self.buf@.len() <= MAX_LEN
    }

    /// Whether preparing `before` leads here, with `step` as the answer.
    pub open spec fn prepared_from(&self, before: &Self, step: Prepared) -> bool {
        &&& self.wf()
        &&& self.intake.same_reader(&before.intake)
        &&& self.intake.base() == before.intake.base()
        &&& {
            let total = before.buf@.len();
            let base = before.intake.base();
            match step {
                Prepared::Done(Ok(n)) => {
                    &&& total <= base.len()
                    &&& n == total
                    &&& self.buf@ == base.take(total as int)
                    &&& self.filled == total
                    &&& self.intake.open_at is None
                },
                Prepared::Read => {
                    &&& total > base.len()
                    &&& before.intake.peekable.store().may_grow_to(total)
                    &&& self.buf@ == overlaid(before.buf@, base)
                    &&& self.filled == base.len()
                    &&& self.intake.open_at is Some
                    &&& self.intake.has_capacity_of(&before.intake)
                    &&& self.intake.lent() == zeros((total - base.len()) as nat)
                },
                Prepared::Done(Err(error)) => {
                    &&& error matches PeekError::Io(e)
                    &&& before.intake.peekable.store().refuses_with(total, e)
                    &&& total > base.len()
                    &&& !before.intake.peekable.store().grows_to(total)
                    &&& self.buf@ == overlaid(before.buf@, base)
                    &&& self.filled == base.len()
                    &&& self.intake.open_at is None
                },
            }
        }
    }

    /// Fills the slice from the peeked bytes as far as they go. If they do not
    /// fill it, makes room in the peek buffer for the reader to write to.
    ///
    /// If the peek buffer refuses to grow, the reader is not asked.
    pub fn prepare(&mut self) -> (step: Prepared)
        requires
            old(self).wf(),
            old(self).intake.open_at is None,
        ensures
            *final(final(self).intake.peekable) == *final(old(self).intake.peekable),
            final(final(self).buf)@ == final(old(self).buf)@,
            final(self).prepared_from(old(self), step),
    {
        let total: usize = self.buf.len();
        if self.filled == 0 {
            let peeked = self.intake.peekable.buffer.as_slice();
            let from_peeked: usize = if peeked.len() <= total {
                peeked.len()
            } else {
                total
            };
            let (front, _rest) = peeked.split_at(from_peeked);
            copy_to_front(self.buf, front);
            self.filled = from_peeked;
        }
        proof {
            let base = self.intake.base();
            let filled = self.filled as int;
            assert(self.buf@.take(filled) =~= base.take(filled));
            assert(self.buf@ =~= overlaid(old(self).buf@, base.take(filled)));
            if base.len() <= total {
                assert(base.take(filled) =~= base);
            }
            if filled == total {
                assert(self.buf@ =~= base.take(filled));
            }
        }
        if self.filled == total {
            return Prepared::Done(Ok(total));
        }
        match self.intake.open_to(total) {
            Ok(()) => Prepared::Read,
            Err(error) => Prepared::Done(Err(PeekError::Io(error))),
        }
    }

    /// Whether everything but the reader and the lent bytes is as in `before`.
    pub open spec fn lent_from(&self, before: &Self) -> bool {
        &&& self.intake.peekable.requested() == before.intake.peekable.requested()
        &&& self.intake.keeps_room_of(&before.intake)
        &&& self.intake.open_at == before.intake.open_at
        &&& self.intake.capacity == before.intake.capacity
        &&& self.intake.base() == before.intake.base()
        &&& self.buf@ == before.buf@
        &&& self.filled == before.filled
    }

    /// Lends out the reader, and the bytes that it may write to.
    pub fn lend(&mut self) -> (parts: (&mut R, &mut [u8]))
        requires
            old(self).wf(),
            old(self).intake.open_at is Some,
        ensures
            *final(final(self).intake.peekable) == *final(old(self).intake.peekable),
            final(final(self).buf)@ == final(old(self).buf)@,
            *parts.0 == old(self).intake.peekable.inner(),
            parts.1@ == old(self).intake.lent(),
            final(self).intake.peekable.inner() == *final(parts.0),
            final(self).intake.lent() == final(parts.1)@,
            final(parts.1)@.len() == parts.1@.len() ==> final(self).wf(),
            final(self).lent_from(old(self)),
    {
        self.intake.lend()
    }

    /// Whether settling `attempt` for `before` leads here, with `step` as the answer.
    pub open spec fn settled_from(&self, before: &Self, attempt: Attempt, step: Settled) -> bool {
        &&& self.wf()
        &&& self.intake.same_reader(&before.intake)
        &&& self.intake.open_at is None
        &&& self.intake.base() == taken_in(
            before.intake.base(),
            before.intake.lent(),
            attempt,
        )
        &&& self.filled == self.intake.base().len()
        &&& self.intake.base().len() <= before.buf@.len()
        &&& self.buf@ == overlaid(before.buf@, self.intake.base())
        &&& match attempt {
            Attempt::Ready(0) => step == Settled::Done(Err(PeekError::UnexpectedEof)),
            Attempt::Ready(_) => if self.filled < before.buf@.len() {
                step is Again
            } else {
                step.count() == Some(before.buf@.len())
            },
            Attempt::Interrupted(_) => step is Again,
            Attempt::Pending => step is Pending,
            Attempt::WouldBlock(error) | Attempt::Failed(error) => step == Settled::Done(
                Err(PeekError::Io(error)),
            ),
        }
    }

    /// Takes note of how the read went.
    ///
    /// What the reader delivered is peeked now, and follows in the slice. A
    /// reader that delivers nothing is at the end of the stream, which is too
    /// early.
    pub fn settle(&mut self, attempt: Attempt) -> (step: Settled)
        requires
            old(self).wf(),
            old(self).intake.open_at is Some,
            fits(attempt, old(self).intake.lent().len()),
        ensures
            *final(final(self).intake.peekable) == *final(old(self).intake.peekable),
            final(final(self).buf)@ == final(old(self).buf)@,
            final(self).settled_from(old(self), attempt, step),
            exists|store: &mut B|
                #![trigger call_ensures(B::keep_capacity, (store, old(self).intake.capacity), ())]
                call_ensures(B::keep_capacity, (store, old(self).intake.capacity), ())
                    && *final(store) == final(self).intake.peekable.store(),
    {
        self.intake.close(&attempt);
        proof {
            let base = old(self).intake.base();
            assert(base.take(self.filled as int) =~= base);
            assert(self.buf@ =~= overlaid(self.buf@, base));
            if received(old(self).intake.lent(), attempt).len() == 0 {
                assert(self.intake.base() =~= base);
            }
        }
        match attempt {
            Attempt::Ready(n) => {
                if n == 0 {
                    return Settled::Done(Err(PeekError::UnexpectedEof));
                }
                let (_old, new) = self.intake.peekable.buffer.as_slice().split_at(self.filled);
                let (_front, rest) = self.buf.split_at_mut(self.filled);
                copy_to_front(rest, new);
                self.filled = self.filled + n;
                assert(self.buf@.take(self.filled as int) =~= self.intake.base().take(
                    self.filled as int,
                ));
                assert(self.buf@ =~= overlaid(old(self).buf@, self.intake.base()));
                if self.filled < self.buf.len() {
                    Settled::Again
                } else {
                    Settled::Done(Ok(self.filled))
                }
            },
            Attempt::Interrupted(_) => Settled::Again,
            Attempt::Pending => Settled::Pending,
            Attempt::WouldBlock(error) => Settled::Done(Err(PeekError::Io(error))),
            Attempt::Failed(error) => Settled::Done(Err(PeekError::Io(error))),
        }
    }
}

} // verus!
