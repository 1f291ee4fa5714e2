//! The peekable reader for sources in the manner of `futures`.
use crate::buffer::{Buffer, MAX_CAPACITY, MAX_LEN, SMALL_INLINE};
use crate::error::{error_class, error_with_cause, plain_error, wrap_error, ErrorClass, PeekError};
use crate::ops::{first_non_empty, is_first_non_empty, Intake, PeekedRead};
use crate::stream::{Move, Stream};
use crate::sync::{DefaultBuffer, Peekable};
use vstd::prelude::*;

pub use crate::ops::{FillPeekBuf, Peek, PeekExact, PeekToEnd, PeekToString};

verus! {

/// A reader together with the bytes that were peeked from it, for readers that
/// fill a slice and say how much of it they filled, or that they are not
/// ready.
#[derive(Debug)]
pub struct AsyncPeekable<R, B = DefaultBuffer> {
    /// The reader and the bytes.
    pub(crate) wrapped: Peekable<R, B>,
}

/// A peek into the first of several slices that is not empty.
pub type PeekVectored<'a, R, B = DefaultBuffer> = Peek<'a, R, B>;

impl<R, B> AsyncPeekable<R, B> {
    /// The reader and the bytes.
    pub open(crate) spec fn wrapped(&self) -> Peekable<R, B> {
        self.wrapped
    }

    /// The inner reader.
    pub open spec fn inner(&self) -> R {
        self.wrapped().inner()
    }

    /// The peek buffer.
    pub open spec fn store(&self) -> B {
        self.wrapped().store()
    }

    /// The capacity that was asked for, if any.
    pub open spec fn requested(&self) -> Option<usize> {
        self.wrapped().requested()
    }

    /// Whether the capacity that was asked for can be had.
    pub open spec fn wf(&self) -> bool {
        self.wrapped().wf()
    }
}

impl<R, B: Buffer> AsyncPeekable<R, B> {
    /// The bytes that have been peeked and not been read yet.
    pub open spec fn peeked(&self) -> Seq<u8> {
        self.wrapped().peeked()
    }
}

impl<R> AsyncPeekable<R> {
    /// Creates a new peekable wrapper around the given reader.
    pub fn new(reader: R) -> (peekable: Self)
        ensures
            peekable.wf(),
            peekable.inner() == reader,
            peekable.peeked() == Seq::<u8>::empty(),
            peekable.requested() is None,
            peekable.store().room() >= SMALL_INLINE,
    {
        AsyncPeekable { wrapped: Peekable::new(reader) }
    }

    /// Creates a new peekable wrapper around the given reader with the
    /// specified capacity for the peek buffer.
    pub fn with_capacity(reader: R, capacity: usize) -> (peekable: Self)
        requires
            capacity <= MAX_CAPACITY,
        ensures
            peekable.wf(),
            peekable.inner() == reader,
            peekable.peeked() == Seq::<u8>::empty(),
            peekable.requested() == Some(capacity),
            peekable.store().room() >= capacity,
    {
        AsyncPeekable { wrapped: Peekable::with_capacity(reader, capacity) }
    }
}

impl<R, B: Buffer> AsyncPeekable<R, B> {
    /// Creates a new peekable wrapper around the given reader, with a peek
    /// buffer of type `B`.
    pub fn with_buffer(reader: R) -> (peekable: Self)
        ensures
            peekable.wf(),
            peekable.inner() == reader,
            peekable.peeked() == Seq::<u8>::empty(),
            peekable.requested() is None,
            call_ensures(B::new, (), peekable.store()),
    {
        AsyncPeekable { wrapped: Peekable::with_buffer(reader) }
    }

    /// Creates a new peekable wrapper around the given reader with the
    /// specified capacity for the peek buffer, which is of type `B`.
    pub fn with_capacity_and_buffer(reader: R, capacity: usize) -> (peekable: Self)
        requires
            capacity <= MAX_CAPACITY,
        ensures
            peekable.wf(),
            peekable.inner() == reader,
            peekable.peeked() == Seq::<u8>::empty(),
            peekable.requested() == Some(capacity),
            B::keeps_room() ==> peekable.store().room() >= capacity,
            call_ensures(B::with_capacity, (capacity,), peekable.store()),
    {
        AsyncPeekable { wrapped: Peekable::with_capacity_and_buffer(reader, capacity) }
    }

    /// Takes the peek buffer out, with what has been peeked, and puts an empty
    /// one in its place.
    pub fn consume(&mut self) -> (buffer: B)
        requires
            old(self).wf(),
        ensures
            buffer == old(self).store(),
            final(self).peeked() == Seq::<u8>::empty(),
            final(self).inner() == old(self).inner(),
            final(self).requested() == old(self).requested(),
            old(self).requested() matches Some(capacity) ==> B::keeps_room()
                ==> final(self).store().room() >= capacity,
            match old(self).requested() {
                Some(capacity) => call_ensures(
                    B::with_capacity,
                    (capacity,),
                    final(self).store(),
                ),
                None => call_ensures(B::new, (), final(self).store()),
            },
            (Stream { given: buffer.contents(), peeked: final(self).peeked() }) == (Stream {
                given: Seq::empty(),
                peeked: old(self).peeked(),
            }).after(Move::Consume),
    {
        self.wrapped.consume()
    }

    /// Forgets what has been peeked, and keeps the peek buffer for reuse.
    pub fn consume_in_place(&mut self)
        ensures
            final(self).peeked() == Seq::<u8>::empty(),
            final(self).inner() == old(self).inner(),
            final(self).requested() == old(self).requested(),
            final(self).store().room() >= old(self).store().room(),
            forall|n: nat| #[trigger]
                old(self).store().has_room(n) ==> final(self).store().has_room(n),
    {
        self.wrapped.consume_in_place()
    }

    /// The bytes that have been peeked, and a mutable reference to the reader.
    ///
    /// Reading from the reader itself skips the peeked bytes.
    pub fn get_mut(&mut self) -> (parts: (&[u8], &mut R))
        ensures
            parts.0@ == old(self).peeked(),
            *parts.1 == old(self).inner(),
            final(self).store() == old(self).store(),
            final(self).inner() == *final(parts.1),
            final(self).requested() == old(self).requested(),
    {
        self.wrapped.get_mut()
    }

    /// The bytes that have been peeked, and a reference to the reader.
    pub fn get_ref(&self) -> (parts: (&[u8], &R))
        ensures
            parts.0@ == self.peeked(),
            *parts.1 == self.inner(),
    {
        self.wrapped.get_ref()
    }
}

impl<R, B> AsyncPeekable<R, B> {
    /// Takes the wrapper apart into the peek buffer, with what has been peeked,
    /// and the reader.
    pub fn into_components(self) -> (parts: (B, R))
        ensures
            parts.0 == self.store(),
            parts.1 == self.inner(),
    {
        self.wrapped.into_components()
    }
}

impl<R, B: Buffer> AsyncPeekable<R, B> {
    /// Starts reading into `buf`. What has been peeked is read first.
    ///
    /// If the reader is not ready, the peeked bytes are all that is read. An
    /// error of the reader is passed on, and then the peeked bytes count as not
    /// read.
    pub fn read<'a>(&'a mut self, buf: &'a mut [u8]) -> (op: PeekedRead<'a, R, B>)
        ensures
            *op.peekable == old(self).wrapped(),
            *final(op.peekable) == final(self).wrapped(),
            op.buf@ == old(buf)@,
            final(op.buf)@ == final(buf)@,
            !op.deliver_on_error,
            op.copied is None,
    {
        PeekedRead { peekable: &mut self.wrapped, buf, deliver_on_error: false, copied: None }
    }

    /// Starts peeking into `buf`. How many bytes are peeked is up to the
    /// reader, which is asked once.
    ///
    /// If the reader is not ready, or would block, what has been peeked before
    /// is all that is peeked. An interrupted read is tried again; any other
    /// error is passed on, and then nothing more has been peeked.
    pub fn peek<'a>(&'a mut self, buf: &'a mut [u8]) -> (op: Peek<'a, R, B>)
        ensures
            *op.intake.peekable == old(self).wrapped(),
            *final(op.intake.peekable) == final(self).wrapped(),
            op.intake.open_at is None,
            op.buf@ == old(buf)@,
            final(op.buf)@ == final(buf)@,
            !op.skip_empty,
            op.block_is_pending,
            old(buf)@.len() <= MAX_LEN ==> op.wf(),
    {
        Peek {
            intake: Intake { peekable: &mut self.wrapped, open_at: None, capacity: 0 },
            buf,
            skip_empty: false,
            block_is_pending: true,
        }
    }

    /// Starts peeking into the first of `bufs` that is not empty, or into an
    /// empty slice if there is none.
    pub fn peek_vectored<'a>(&'a mut self, bufs: &'a mut [&'a mut [u8]]) -> (op:
        PeekVectored<'a, R, B>)
        ensures
            *op.intake.peekable == old(self).wrapped(),
            *final(op.intake.peekable) == final(self).wrapped(),
            op.intake.open_at is None,
            !op.skip_empty,
            op.block_is_pending,
            op.buf@.len() <= MAX_LEN ==> op.wf(),
            (forall|i: int| 0 <= i < old(bufs)@.len() ==> old(bufs)@[i]@.len() == 0)
                ==> op.buf@.len() == 0 && final(bufs)@ == old(bufs)@,
            forall|i: int| #[trigger]
                is_first_non_empty(old(bufs)@, i) ==> {
                    &&& op.buf@ == old(bufs)@[i]@
                    &&& final(bufs)@.len() == old(bufs)@.len()
                    &&& final(bufs)@[i]@ == final(op.buf)@
                    &&& forall|j: int|
                        0 <= j < old(bufs)@.len() && j != i ==> final(bufs)@[j] == old(bufs)@[j]
                },
    {
        self.peek(first_non_empty(bufs))
    }

    /// Starts peeking exactly as many bytes as fill `buf`.
    ///
    /// An interrupted read is tried again. Any other error is passed on, as is
    /// the end of the stream if it comes too early; what was peeked up to then
    /// stays peeked.
    pub fn peek_exact<'a>(&'a mut self, buf: &'a mut [u8]) -> (op: PeekExact<'a, R, B>)
        ensures
            *op.intake.peekable == old(self).wrapped(),
            *final(op.intake.peekable) == final(self).wrapped(),
            op.intake.open_at is None,
            op.buf@ == old(buf)@,
            final(op.buf)@ == final(buf)@,
            op.filled == 0,
            op.consistent(),
    {
        self.wrapped.peek_exact(buf)
    }

    /// Starts peeking the stream to its end, and appending it to `buf`.
    ///
    /// An interrupted read is tried again. Any other error is passed on, and
    /// what was read up to then stays peeked and stays in `buf`.
    pub fn peek_to_end<'a>(&'a mut self, buf: &'a mut Vec<u8>) -> (op: PeekToEnd<'a, R, B>)
        ensures
            *op.intake.peekable == old(self).wrapped(),
            *final(op.intake.peekable) == final(self).wrapped(),
            op.intake.open_at is None,
            op.out@ == old(buf)@,
            *final(op.out) == *final(buf),
            !op.prefix_copied,
            op.start == old(buf)@.len(),
            op.origin() == old(buf)@,
            op.wf(),
    {
        self.wrapped.peek_to_end(buf)
    }

    /// Starts peeking the stream to its end, and appending it to `buf` as text.
    ///
    /// If the stream is not valid UTF-8 `buf` is left as it was. An interrupted
    /// read is tried again. Any other error is passed on, and then `buf` gets
    /// what was read up to then if that is valid UTF-8.
    pub fn peek_to_string<'a>(&'a mut self, buf: &'a mut String) -> (op: PeekToString<'a, R, B>)
        ensures
            *op.intake.peekable == old(self).wrapped(),
            *final(op.intake.peekable) == final(self).wrapped(),
            op.intake.open_at is None,
            op.out@ == old(buf)@,
            *final(op.out) == *final(buf),
            !op.started,
            op.whole_chunks,
            !op.keep_valid_prefix,
    {
        PeekToString {
            intake: Intake { peekable: &mut self.wrapped, open_at: None, capacity: 0 },
            out: buf,
            started: false,
            whole_chunks: true,
            keep_valid_prefix: false,
        }
    }

    /// Starts filling the room that is left in the peek buffer.
    ///
    /// Any error is passed on, and then nothing more has been peeked.
    pub fn fill_peek_buf<'a>(&'a mut self) -> (op: FillPeekBuf<'a, R, B>)
        ensures
            *op.intake.peekable == old(self).wrapped(),
            *final(op.intake.peekable) == final(self).wrapped(),
            op.intake.open_at is None,
            !op.retry,
            op.original == old(self).peeked().len(),
            call_ensures(B::capacity, (&old(self).store(),), op.cap),
            op.original <= op.cap,
            old(self).store().room() <= op.cap,
            forall|n: nat| #[trigger] old(self).store().has_room(n) ==> n <= op.cap,
            op.wf(),
    {
        let mut op = self.wrapped.fill_peek_buf();
        op.retry = false;
        op
    }
}

/// A failed operation's error as an I/O error: the error that the reader or the
/// peek buffer gave, or a new one of the fitting class. One for bytes that are
/// not valid UTF-8 holds the `Utf8Error` that says where they are not.
pub fn into_io(failure: PeekError) -> (error: std::io::Error)
    ensures
        match failure {
            PeekError::Io(inner) => error == inner,
            PeekError::UnexpectedEof => {
                &&& error == plain_error(ErrorClass::UnexpectedEof)
                &&& error_class(error) == ErrorClass::UnexpectedEof
            },
            PeekError::InvalidUtf8(cause) => {
                &&& error == error_with_cause(ErrorClass::InvalidData, cause)
                &&& error_class(error) == ErrorClass::InvalidData
            },
        },
{
    match failure {
        PeekError::InvalidUtf8(cause) => wrap_error(ErrorClass::InvalidData, cause),
        other => other.into_io(),
    }
}

/// Makes any reader peekable.
pub trait AsyncPeekExt {
    /// Wraps the reader in a peekable one.
    fn peekable(self) -> (peekable: AsyncPeekable<Self>) where Self: Sized
        ensures
            peekable.wf(),
            peekable.inner() == self,
            peekable.peeked() == Seq::<u8>::empty(),
            peekable.requested() is None,
            peekable.store().room() >= SMALL_INLINE,
    {
        AsyncPeekable::new(self)
    }

    /// Wraps the reader in a peekable one with the specified capacity for the
    /// peek buffer.
    fn peekable_with_capacity(self, capacity: usize) -> (peekable: AsyncPeekable<Self>) where
        Self: Sized,

        requires
            capacity <= MAX_CAPACITY,
        ensures
            peekable.wf(),
            peekable.inner() == self,
            peekable.peeked() == Seq::<u8>::empty(),
            peekable.requested() == Some(capacity),
            peekable.store().room() >= capacity,
    {
        AsyncPeekable::with_capacity(self, capacity)
    }

    /// Wraps the reader in a peekable one with a peek buffer of type `B`.
    fn peekable_with_buffer<B: Buffer>(self) -> (peekable: AsyncPeekable<Self, B>) where
        Self: Sized,

        ensures
            peekable.wf(),
            peekable.inner() == self,
            peekable.peeked() == Seq::<u8>::empty(),
            peekable.requested() is None,
            call_ensures(B::new, (), peekable.store()),
    {
        AsyncPeekable::with_buffer(self)
    }

    /// Wraps the reader in a peekable one with the specified capacity for the
    /// peek buffer, which is of type `B`.
    fn peekable_with_capacity_and_buffer<B: Buffer>(self, capacity: usize) -> (peekable:
        AsyncPeekable<Self, B>) where Self: Sized
        requires
            capacity <= MAX_CAPACITY,
        ensures
            peekable.wf(),
            peekable.inner() == self,
            peekable.peeked() == Seq::<u8>::empty(),
            peekable.requested() == Some(capacity),
            B::keeps_room() ==> peekable.store().room() >= capacity,
            call_ensures(B::with_capacity, (capacity,), peekable.store()),
    {
        AsyncPeekable::with_capacity_and_buffer(self, capacity)
    }
}

impl<R> AsyncPeekExt for R {

}

impl<R> vstd::std_specs::convert::FromSpecImpl<R> for AsyncPeekable<R> {
    open spec fn obeys_from_spec() -> bool {
        false
    }

    open spec fn from_spec(reader: R) -> Self {
        arbitrary()
    }
}

impl<R> From<R> for AsyncPeekable<R> {
    fn from(reader: R) -> (peekable: Self)
        ensures
            peekable.wf(),
            peekable.inner() == reader,
            peekable.peeked() == Seq::<u8>::empty(),
            peekable.requested() is None,
            peekable.store().room() >= SMALL_INLINE,
    {
        AsyncPeekable::new(reader)
    }
}

impl<R> vstd::std_specs::convert::FromSpecImpl<(usize, R)> for AsyncPeekable<R> {
    open spec fn obeys_from_spec() -> bool {
        false
    }

    open spec fn from_spec(parts: (usize, R)) -> Self {
        arbitrary()
    }
}

impl<R> From<(usize, R)> for AsyncPeekable<R> {
    /// Creates a new peekable wrapper around the reader with the given capacity
    /// for the peek buffer, or the largest there is if that is less.
    fn from(parts: (usize, R)) -> (peekable: Self)
        ensures
            peekable.wf(),
            peekable.inner() == parts.1,
            peekable.peeked() == Seq::<u8>::empty(),
            peekable.requested() == Some(
                if parts.0 <= MAX_CAPACITY {
                    parts.0
                } else {
                    MAX_CAPACITY
                },
            ),
            parts.0 <= MAX_CAPACITY ==> peekable.store().room() >= parts.0,
    {
        AsyncPeekable { wrapped: Peekable::from(parts) }
    }
}

} // verus!
