//! Peeking a whole stream as text.
use super::intake::Intake;
use crate::attempt::{received, Attempt, Prepared, Settled};
use crate::buffer::{zeros, Buffer, MAX_LEN};
use crate::error::PeekError;
use crate::growth::{can_grow, may_grow_by, READ_CHUNK};
use crate::stream::taken_in;
use crate::sync::DefaultBuffer;
use crate::text::{check_utf8, completable, salvage, salvaged, utf8_error};
use vstd::prelude::*;
use vstd::utf8::{decode_utf8, valid_utf8};

verus! {

/// Appends a whole stream to a string, and leaves it in the stream.
///
/// The string grows only when the stream ends, or fails. Until then all that
/// was read is in the peek buffer.
#[derive(Debug)]
pub struct PeekToString<'a, R, B = DefaultBuffer> {
    /// The reader, and what has been peeked from it.
    pub intake: Intake<'a, R, B>,
    /// Where the text goes.
    pub out: &'a mut String,
    /// Whether what had been peeked at first was found to be the beginning of
    /// some text.
    pub started: bool,
    /// Whether the peek buffer is to accept whole chunks, and nothing less.
    pub whole_chunks: bool,
    /// Whether, if the reader fails, the longest beginning of what was read
    /// that is text is kept although the rest is not.
    pub keep_valid_prefix: bool,
}

impl<'a, R, B: Buffer> PeekToString<'a, R, B> {
    /// Whether the peek buffer is certain to make room for more.
    pub open spec fn can_grow(&self) -> bool {
        let have = self.intake.base().len();
        if self.whole_chunks {
            self.intake.peekable.store().grows_to(have + READ_CHUNK as nat)
        } else {
            can_grow(self.intake.peekable.store(), have)
        }
    }

    /// Whether `error` is one that the peek buffer may refuse to make room with.
    pub open spec fn refuses_with(&self, error: std::io::Error) -> bool {
        let have = self.intake.base().len();
        let least = if self.whole_chunks {
            READ_CHUNK as nat
        } else {
            1
        };
        self.intake.peekable.store().refuses_with(have + least, error)
    }

    /// Whether `n` bytes may be what the reader is lent.
    pub open spec fn may_lend(&self, n: nat) -> bool {
        if self.whole_chunks {
            &&& n == READ_CHUNK
            &&& self.intake.peekable.store().may_grow_to(self.intake.base().len() + n)
        } else {
            &&& 0 < n <= READ_CHUNK
            &&& may_grow_by(self.intake.peekable.store(), self.intake.base().len(), n)
        }
    }

    /// Whether `self` and `other` are about the same reader, and go by the same
    /// rules.
    pub open spec fn same_terms(&self, other: &Self) -> bool {
        &&& self.intake.same_reader(&other.intake)
        &&& self.whole_chunks == other.whole_chunks
        &&& self.keep_valid_prefix == other.keep_valid_prefix
    }

    /// Whether preparing `before` leads here, with `step` as the answer.
    pub open spec fn prepared_from(&self, before: &Self, step: Prepared) -> bool {
        &&& self.intake.wf()
        &&& self.same_terms(before)
        &&& self.intake.base() == before.intake.base()
        &&& {
            let hopeless = !before.started && !completable(before.intake.base());
            match step {
                Prepared::Done(Err(PeekError::InvalidUtf8(error))) => {
                    &&& hopeless
                    &&& error == utf8_error(before.intake.base())
                    &&& !self.started
                    &&& self.out@ == before.out@
                    &&& self.intake.open_at is None
                },
                Prepared::Read => {
                    &&& !hopeless
                    &&& self.started
                    &&& self.out@ == before.out@
                    &&& self.intake.open_at is Some
                    &&& self.intake.has_capacity_of(&before.intake)
                    &&& self.intake.lent() == zeros(self.intake.lent().len())
                    &&& before.may_lend(self.intake.lent().len())
                },
                Prepared::Done(Err(PeekError::Io(error))) => {
                    &&& !hopeless
                    &&& before.refuses_with(error)
                    &&& !before.can_grow()
                    &&& self.started
                    &&& self.out@ == before.out@ + salvaged(
                        before.intake.base(),
                        before.keep_valid_prefix,
                    )
                    &&& self.intake.open_at is None
                },
                _ => false,
            }
        }
    }

    /// Makes room in the peek buffer for the reader to write to.
    ///
    /// The first time, what has been peeked already is looked at: if nothing
    /// that may follow can make it text, the operation fails without reading.
    /// If the peek buffer refuses to grow, the operation fails as if the reader
    /// had failed.
    pub fn prepare(&mut self) -> (step: Prepared)
        requires
            old(self).intake.open_at is None,
            old(self).intake.base().len() + READ_CHUNK <= MAX_LEN,
        ensures
            *final(final(self).intake.peekable) == *final(old(self).intake.peekable),
            *final(final(self).out) == *final(old(self).out),
            final(self).prepared_from(old(self), step),
    {
        if !self.started {
            match check_utf8(self.intake.peekable.buffer.as_slice()) {
                Ok(_) => {
                    assert(self.intake.base() + Seq::<u8>::empty() =~= self.intake.base());
                },
                Err(fault) => {
                    if fault.error_len.is_some() {
                        return Prepared::Done(Err(PeekError::InvalidUtf8(fault.error)));
                    }
                },
            }
            self.started = true;
        }
        let have: usize = self.intake.peekable.buffer.len();
        let opened = if self.whole_chunks {
            self.intake.open_to(have + READ_CHUNK)
        } else {
            self.intake.open()
        };
        match opened {
            Ok(()) => Prepared::Read,
            Err(error) => {
                self.keep();
                Prepared::Done(Err(PeekError::Io(error)))
            },
        }
    }

    /// Whether everything but the reader and the lent bytes is as in `before`.
    pub open spec fn lent_from(&self, before: &Self) -> bool {
        &&& self.intake.peekable.requested() == before.intake.peekable.requested()
        &&& self.intake.keeps_room_of(&before.intake)
        &&& self.intake.open_at == before.intake.open_at
        &&& self.intake.capacity == before.intake.capacity
        &&& self.intake.base() == before.intake.base()
        &&& self.out@ == before.out@
        &&& self.started == before.started
        &&& self.whole_chunks == before.whole_chunks
        &&& self.keep_valid_prefix == before.keep_valid_prefix
    }

    /// Lends out the reader, and the bytes that it may write to.
    pub fn lend(&mut self) -> (parts: (&mut R, &mut [u8]))
        requires
            old(self).intake.wf(),
            old(self).intake.open_at is Some,
        ensures
            *final(final(self).intake.peekable) == *final(old(self).intake.peekable),
            *final(final(self).out) == *final(old(self).out),
            *parts.0 == old(self).intake.peekable.inner(),
            parts.1@ == old(self).intake.lent(),
            final(self).intake.peekable.inner() == *final(parts.0),
            final(self).intake.lent() == final(parts.1)@,
            final(self).intake.wf(),
            final(self).lent_from(old(self)),
    {
        self.intake.lend()
    }

    /// Whether settling `attempt` for `before` leads here, with `step` as the answer.
    pub open spec fn settled_from(&self, before: &Self, attempt: Attempt, step: Settled) -> bool {
        &&& self.same_terms(before)
        &&& self.started == before.started
        &&& self.intake.open_at is None
        &&& self.intake.base() == taken_in(
            before.intake.base(),
            before.intake.lent(),
            attempt,
        )
        &&& {
            let all = before.intake.base();
            match attempt {
                Attempt::Ready(0) => {
                    if valid_utf8(all) {
                        &&& step.count() == Some(all.len())
                        &&& self.out@ == before.out@ + decode_utf8(all)
                    } else {
                        &&& step == Settled::Done(Err(PeekError::InvalidUtf8(utf8_error(all))))
                        &&& self.out@ == before.out@
                    }
                },
                Attempt::Ready(_) | Attempt::Interrupted(_) => {
                    &&& step is Again
                    &&& self.out@ == before.out@
                },
                Attempt::Pending => {
                    &&& step is Pending
                    &&& self.out@ == before.out@
                },
                Attempt::WouldBlock(error) | Attempt::Failed(error) => {
                    &&& step == Settled::Done(Err(PeekError::Io(error)))
                    &&& self.out@ == before.out@ + salvaged(
                        all,
                        before.keep_valid_prefix,
                    )
                },
            }
        }
    }

    /// Takes note of how the read went.
    ///
    /// At the end of the stream the string gets all of it if it is text, and
    /// none of it if it is not. If the reader failed, the string gets what can
    /// be had of what was read up to then.
    pub fn settle(&mut self, attempt: Attempt) -> (step: Settled)
        requires
            old(self).intake.wf(),
            old(self).intake.open_at is Some,
        ensures
            *final(final(self).intake.peekable) == *final(old(self).intake.peekable),
            *final(final(self).out) == *final(old(self).out),
            final(self).settled_from(old(self), attempt, step),
            exists|store: &mut B|
                #![trigger call_ensures(B::keep_capacity, (store, old(self).intake.capacity), ())]
                call_ensures(B::keep_capacity, (store, old(self).intake.capacity), ())
                    && *final(store) == final(self).intake.peekable.store(),
    {
        self.intake.close(&attempt);
        match attempt {
            Attempt::Ready(n) => {
                if n > 0 {
                    return Settled::Again;
                }
                let all = self.intake.peekable.buffer.as_slice();
                match check_utf8(all) {
                    Ok(text) => {
                        vstd::string::StringExecFns::append(self.out, text);
                        Settled::Done(Ok(all.len()))
                    },
                    Err(fault) => Settled::Done(Err(PeekError::InvalidUtf8(fault.error))),
                }
            },
            Attempt::Interrupted(_) => Settled::Again,
            Attempt::Pending => Settled::Pending,
            Attempt::WouldBlock(error) => {
                self.keep();
                Settled::Done(Err(PeekError::Io(error)))
            },
            Attempt::Failed(error) => {
                self.keep();
                Settled::Done(Err(PeekError::Io(error)))
            },
        }
    }

    /// Appends what can be had of what was read to the string.
    fn keep(&mut self)
        requires
            old(self).intake.open_at is None,
        ensures
            *final(final(self).intake.peekable) == *final(old(self).intake.peekable),
            *final(final(self).out) == *final(old(self).out),
            final(self).same_terms(old(self)),
            final(self).intake.peekable.store() == old(self).intake.peekable.store(),
            final(self).started == old(self).started,
            final(self).intake.open_at is None,
            final(self).intake.base() == old(self).intake.base(),
            final(self).out@ == old(self).out@ + salvaged(
                old(self).intake.base(),
                old(self).keep_valid_prefix,
            ),
    {
        salvage(self.intake.peekable.buffer.as_slice(), self.keep_valid_prefix, self.out);
    }
}

} // verus!
