//! Reading, with what has been peeked first.
use super::copy::{copy_to_front, overlaid};
use crate::attempt::{fits, received, Attempt, Prepared, Settled};
use crate::buffer::Buffer;
use crate::error::PeekError;
use crate::stream::{handed_over, left_over};
use crate::sync::{DefaultBuffer, Peekable};
use vstd::prelude::*;

verus! {

/// Takes the next bytes out of a stream.
///
/// Bytes that have been peeked come first. If they do not fill the slice, the
/// reader is asked once for more, and writes to the slice itself.
#[derive(Debug)]
pub struct PeekedRead<'a, R, B = DefaultBuffer> {
    /// The reader, and what has been peeked from it.
    pub peekable: &'a mut Peekable<R, B>,
    /// Where the bytes go.
    pub buf: &'a mut [u8],
    /// Whether the peeked bytes count as read even if the reader fails.
    pub deliver_on_error: bool,
    /// How many peeked bytes `buf` begins with, while the reader is asked.
    pub copied: Option<usize>,
}

impl<'a, R, B: Buffer> PeekedRead<'a, R, B> {
    /// The operation's invariant: while the reader is asked, the slice begins
    /// with everything that has been peeked.
    pub open spec fn wf(&self) -> bool {
        self.copied matches Some(n) ==> {
            &&& n == self.peekable.peeked().len()
            &&& n <= self.buf@.len()
            &&& self.buf@.take(n as int) == self.peekable.peeked()
        }
    }

    /// The bytes that the reader may write to: the rest of the slice.
    pub open spec fn lent(&self) -> Seq<u8> {
        match self.copied {
            Some(n) => self.buf@.skip(n as int),
            None => Seq::empty(),
        }
    }

    /// Whether the peeked bytes alone answer the request.
    pub open spec fn answered(&self) -> bool {
        0 < self.peekable.peeked().len() && self.buf@.len() <= self.peekable.peeked().len()
    }

    /// Whether `self` and `other` are about the same reader, and go by the same
    /// rules.
    pub open spec fn same_terms(&self, other: &Self) -> bool {
        &&& self.peekable.inner() == other.peekable.inner()
        &&& self.peekable.requested() == other.peekable.requested()
        &&& self.peekable.store().room() >= other.peekable.store().room()
        &&& forall|n: nat| #[trigger]
            other.peekable.store().has_room(n) ==> self.peekable.store().has_room(n)
        &&& self.deliver_on_error == other.deliver_on_error
    }

    /// Whether preparing `before` leads here, with `step` as the answer.
    pub open spec fn prepared_from(&self, before: &Self, step: Prepared) -> bool {
        &&& self.wf()
        &&& self.same_terms(before)
        &&& {
            let peeked = before.peekable.peeked();
            let want = before.buf@.len();
            if before.answered() {
                &&& step.count() == Some(want)
                &&& self.buf@ == peeked.take(want as int)
                &&& self.peekable.peeked() == peeked.skip(want as int)
                &&& self.copied is None
            } else {
                &&& step is Read
                &&& self.buf@ == overlaid(before.buf@, peeked)
                &&& self.peekable.peeked() == peeked
                &&& self.copied is Some
            }
        }
    }

    /// Answers the request from the peeked bytes if they are enough for it. If
    /// not, copies them to the front of the slice, and leaves the rest to the
    /// reader.
    pub fn prepare(&mut self) -> (step: Prepared)
        requires
            old(self).copied is None,
        ensures
            *final(final(self).peekable) == *final(old(self).peekable),
            final(final(self).buf)@ == final(old(self).buf)@,
            final(self).prepared_from(old(self), step),
    {
        let want: usize = self.buf.len();
        let peeked = self.peekable.buffer.as_slice();
        let have: usize = peeked.len();
        if have > 0 && want <= have {
            let (front, _rest) = peeked.split_at(want);
            self.buf.copy_from_slice(front);
            if want < have {
                self.peekable.buffer.consume(..want);
            } else {
                self.peekable.buffer.clear();
            }
            assert(self.peekable.peeked() =~= old(self).peekable.peeked().skip(want as int));
            return Prepared::Done(Ok(want));
        }
        copy_to_front(self.buf, peeked);
        self.copied = Some(have);
        assert(self.buf@.take(have as int) =~= self.peekable.peeked());
        Prepared::Read
    }

    /// Whether everything but the reader and the lent bytes is as in `before`.
    pub open spec fn lent_from(&self, before: &Self) -> bool {
        &&& self.peekable.requested() == before.peekable.requested()
        &&& self.peekable.store() == before.peekable.store()
        &&& self.peekable.peeked() == before.peekable.peeked()
        &&& self.copied == before.copied
        &&& self.deliver_on_error == before.deliver_on_error
    }

    /// Lends out the reader, and the bytes that it may write to.
    pub fn lend(&mut self) -> (parts: (&mut R, &mut [u8]))
        requires
            old(self).wf(),
            old(self).copied is Some,
        ensures
            *final(final(self).peekable) == *final(old(self).peekable),
            final(final(self).buf)@ == final(old(self).buf)@,
            *parts.0 == old(self).peekable.inner(),
            parts.1@ == old(self).lent(),
            final(self).peekable.inner() == *final(parts.0),
            final(self).lent() == final(parts.1)@,
            final(self).wf(),
            final(self).buf@ == old(self).peekable.peeked() + final(parts.1)@,
            final(self).lent_from(old(self)),
    {
        let from: usize = match self.copied {
            Some(n) => n,
            None => 0,
        };
        let ghost peeked = self.peekable.peeked();
        assert(forall|rest: Seq<u8>| (#[trigger] (peeked + rest)).take(from as int) == peeked);
        let (_front, rest) = self.buf.split_at_mut(from);
        (&mut self.peekable.reader, rest)
    }

    /// Whether settling `attempt` for `before` leads here, with `step` as the answer.
    pub open spec fn settled_from(&self, before: &Self, attempt: Attempt, step: Settled) -> bool {
        &&& self.same_terms(before)
        &&& self.copied is None
        &&& self.buf@ == before.buf@
        &&& self.peekable.peeked() == left_over(
            before.peekable.peeked(),
            attempt,
            before.deliver_on_error,
        )
        &&& fits(attempt, before.lent().len()) ==> match step.count() {
            Some(n) => self.buf@.take(n as int),
            None => Seq::empty(),
        } == handed_over(
            before.peekable.peeked(),
            before.lent(),
            attempt,
            before.deliver_on_error,
        )
        &&& {
            let have = before.peekable.peeked().len();
            match attempt {
                Attempt::Ready(n) => step.count() == Some(have + n as nat),
                Attempt::Pending => if have > 0 {
                    step.count() == Some(have)
                } else {
                    step is Pending
                },
                Attempt::Interrupted(error)
                | Attempt::WouldBlock(error)
                | Attempt::Failed(error) => if have > 0 && before.deliver_on_error {
                    step.count() == Some(have)
                } else {
                    step == Settled::Done(Err(PeekError::Io(error)))
                },
            }
        }
    }

    /// Takes note of how the read went.
    ///
    /// Once the peeked bytes have been handed over they are peeked no more. If
    /// the reader was not ready, they are the answer, unless there are none.
    pub fn settle(&mut self, attempt: Attempt) -> (step: Settled)
        requires
            old(self).wf(),
            old(self).copied is Some,
            attempt matches Attempt::Ready(n) ==> old(self).peekable.peeked().len() + n
                <= usize::MAX,
        ensures
            *final(final(self).peekable) == *final(old(self).peekable),
            final(final(self).buf)@ == final(old(self).buf)@,
            final(self).settled_from(old(self), attempt, step),
    {
        let copied: usize = match self.copied {
            Some(n) => n,
            None => 0,
        };
        self.copied = None;
        assert(copied == 0 ==> self.peekable.peeked() =~= Seq::<u8>::empty());
        match attempt {
            Attempt::Ready(n) => {
                self.peekable.buffer.clear();
                proof {
                    if fits(attempt, old(self).lent().len()) {
                        assert(self.buf@.take(copied + n) =~= old(self).peekable.peeked()
                            + received(old(self).lent(), attempt));
                    }
                }
                Settled::Done(Ok(copied + n))
            },
            Attempt::Pending => {
                if copied > 0 {
                    self.peekable.buffer.clear();
                    Settled::Done(Ok(copied))
                } else {
                    Settled::Pending
                }
            },
            Attempt::Interrupted(error) => self.fail(copied, error),
            Attempt::WouldBlock(error) => self.fail(copied, error),
            Attempt::Failed(error) => self.fail(copied, error),
        }
    }

    /// Gives up, unless the peeked bytes will do.
    fn fail(&mut self, copied: usize, error: std::io::Error) -> (step: Settled)
        requires
            old(self).copied is None,
            copied == old(self).peekable.peeked().len(),
        ensures
            *final(final(self).peekable) == *final(old(self).peekable),
            final(final(self).buf)@ == final(old(self).buf)@,
            final(self).same_terms(old(self)),
            final(self).copied is None,
            final(self).buf@ == old(self).buf@,
            if copied > 0 && old(self).deliver_on_error {
                &&& step == Settled::Done(Ok(copied))
                &&& final(self).peekable.peeked() == Seq::<u8>::empty()
            } else {
                &&& step == Settled::Done(Err(PeekError::Io(error)))
                &&& final(self).peekable.peeked() == old(self).peekable.peeked()
            },
    {
        if copied > 0 && self.deliver_on_error {
            self.peekable.buffer.clear();
            Settled::Done(Ok(copied))
        } else {
            Settled::Done(Err(PeekError::Io(error)))
        }
    }
}

} // verus!
