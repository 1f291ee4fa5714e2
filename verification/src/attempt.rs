//! What passes between an operation and whoever reads on its behalf.
//!
//! An operation never reads from the inner reader itself. It says that it
//! wants a read ([`Prepared::Read`]), lends out the bytes to read into, is then
//! told how the attempt went ([`Attempt`]), and says what is to happen next
//! ([`Settled`]).
use crate::error::{classify, error_class, ErrorClass, PeekError};
use vstd::prelude::*;

verus! {

/// How one attempt to read from the inner reader went.
#[derive(Debug)]
pub enum Attempt {
    /// The reader wrote this many bytes to the front of the slice it was lent.
    /// 0 means the end of the stream, or that the slice was empty.
    Ready(usize),
    /// The reader has nothing to give yet, and will wake the task when it has.
    Pending,
    /// The read was interrupted, and may be tried again.
    Interrupted(std::io::Error),
    /// The reader would have had to block.
    WouldBlock(std::io::Error),
    /// The read failed for any other reason.
    Failed(std::io::Error),
}

/// How an attempt went that failed with an error of the given class.
pub open spec fn failure(error: std::io::Error, class: ErrorClass) -> Attempt {
    match class {
        ErrorClass::Interrupted => Attempt::Interrupted(error),
        ErrorClass::WouldBlock => Attempt::WouldBlock(error),
        _ => Attempt::Failed(error),
    }
}

/// A failed attempt counts as interrupted if that is what its error says, as one that
/// would have blocked if that is what it says, and as failed for good otherwise. The
/// error is kept.
pub proof fn failures_are_told_apart(error: std::io::Error, class: ErrorClass)
    ensures
        class == ErrorClass::Interrupted <==> failure(error, class) == Attempt::Interrupted(error),
        class == ErrorClass::WouldBlock <==> failure(error, class) == Attempt::WouldBlock(error),
        class != ErrorClass::Interrupted && class != ErrorClass::WouldBlock <==> failure(
            error,
            class,
        ) == Attempt::Failed(error),
{
}

impl Attempt {
    /// How an attempt went that failed with an error of the given class.
    pub fn from_error(error: std::io::Error, class: ErrorClass) -> (attempt: Attempt)
        ensures
            attempt == failure(error, class),
    {
        match class {
            ErrorClass::Interrupted => Attempt::Interrupted(error),
            ErrorClass::WouldBlock => Attempt::WouldBlock(error),
            _ => Attempt::Failed(error),
        }
    }

    /// How an attempt went that ended in `outcome`.
    pub fn from_result(outcome: std::io::Result<usize>) -> (attempt: Attempt)
        ensures
            match outcome {
                Ok(n) => attempt == Attempt::Ready(n),
                Err(error) => attempt == failure(error, error_class(error)),
            },
    {
        match outcome {
            Ok(n) => Attempt::Ready(n),
            Err(error) => {
                let class = classify(&error);
                Attempt::from_error(error, class)
            },
        }
    }
}

/// What an operation wants once it has been prepared.
#[derive(Debug)]
pub enum Prepared {
    /// One read into the slice that `lend` returns, after which `settle` is to
    /// be called.
    ///
    /// Until it is, a peek has bytes for the reader to write over at the end of the
    /// peek buffer, and if it is dropped before, it leaves them there. They are not
    /// the stream's, so call `settle` whatever became of the read: with
    /// `Attempt::Pending` if there was none, which takes them out again.
    Read,
    /// Nothing: it is complete.
    Done(Result<usize, PeekError>),
}

/// What an operation wants once a read has been settled.
#[derive(Debug)]
pub enum Settled {
    /// To go on: `prepare` is to be called.
    Again,
    /// To go on once the reader may be ready: then `prepare` is to be called.
    Pending,
    /// Nothing: it is complete.
    Done(Result<usize, PeekError>),
}

impl Prepared {
    /// With how many bytes the operation is complete, if it is and did not fail.
    pub open spec fn count(self) -> Option<nat> {
        match self {
            Prepared::Done(Ok(n)) => Some(n as nat),
            _ => None,
        }
    }
}

impl Settled {
    /// With how many bytes the operation is complete, if it is and did not fail.
    pub open spec fn count(self) -> Option<nat> {
        match self {
            Settled::Done(Ok(n)) => Some(n as nat),
            _ => None,
        }
    }
}

/// The bytes that an attempt put into the slice it was lent, which now reads
/// `lent`.
pub open spec fn received(lent: Seq<u8>, attempt: Attempt) -> Seq<u8> {
    match attempt {
        Attempt::Ready(n) => if n <= lent.len() {
            lent.take(n as int)
        } else {
            lent
        },
        _ => Seq::empty(),
    }
}

/// Whether an attempt claims no more bytes than the `len` that it was lent.
pub open spec fn fits(attempt: Attempt, len: nat) -> bool {
    attempt matches Attempt::Ready(n) ==> n <= len
}

/// An attempt counts for what it ended in: as many bytes as the reader says, or a
/// failure of the class that its error has.
pub proof fn outcomes_are_told_apart(outcome: std::io::Result<usize>, attempt: Attempt)
    requires
        call_ensures(Attempt::from_result, (outcome,), attempt),
    ensures
        match outcome {
            Ok(n) => attempt == Attempt::Ready(n),
            Err(error) => match error_class(error) {
                ErrorClass::Interrupted => attempt == Attempt::Interrupted(error),
                ErrorClass::WouldBlock => attempt == Attempt::WouldBlock(error),
                _ => attempt == Attempt::Failed(error),
            },
        },
{
}

/// A reader may fill the slice that it was lent, or any part of it, but not more.
pub proof fn a_reader_may_fill_what_it_is_lent(n: usize, len: nat)
    ensures
        fits(Attempt::Ready(n), len) <==> n <= len,
{
}

} // verus!
