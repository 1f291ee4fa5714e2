//! The peekable reader for blocking sources.
use crate::buffer::{Buffer, SmallBuffer, MAX_CAPACITY, MAX_LEN, SMALL_INLINE};
use crate::ops::{
    first_non_empty, is_first_non_empty, FillPeekBuf, Intake, Peek, PeekExact, PeekToEnd,
    PeekToString, PeekedRead,
};
use crate::stream::{Move, Stream};
use vstd::prelude::*;

verus! {

/// The buffer that a reader peeks into unless told otherwise.
pub type DefaultBuffer = SmallBuffer;

/// A reader together with the bytes that were peeked from it.
///
/// Peeking moves bytes from the reader to the end of the peek buffer, from
/// where they can be looked at any number of times. Reading takes them out of
/// the peek buffer first, so that to whoever reads it is as if nothing had been
/// peeked.
#[derive(Debug)]
pub struct Peekable<R, B = DefaultBuffer> {
    /// The inner reader.
    pub(crate) reader: R,
    /// The buffer that holds the peeked bytes.
    pub(crate) buffer: B,
    /// The capacity that a new buffer is asked for.
    pub(crate) buf_cap: Option<usize>,
}

impl<R, B> Peekable<R, B> {
    /// The inner reader.
    pub open(crate) spec fn inner(&self) -> R {
        self.reader
    }

    /// The peek buffer.
    pub open(crate) spec fn store(&self) -> B {
        self.buffer
    }

    /// The capacity that was asked for, if any.
    pub open(crate) spec fn requested(&self) -> Option<usize> {
        self.buf_cap
    }

    /// Whether the capacity that was asked for can be had.
    pub open spec fn wf(&self) -> bool {
        self.requested() matches Some(capacity) ==> capacity <= MAX_CAPACITY
    }
}

impl<R, B: Buffer> Peekable<R, B> {
    /// The bytes that have been peeked and not been read yet.
    pub open spec fn peeked(&self) -> Seq<u8> {
        self.store().contents()
    }
}

impl<R> Peekable<R> {
    /// Creates a new peekable wrapper around the given reader.
    pub fn new(reader: R) -> (peekable: Self)
        ensures
            peekable.wf(),
            peekable.inner() == reader,
            peekable.peeked() == Seq::<u8>::empty(),
            peekable.requested() is None,
            peekable.store().room() >= SMALL_INLINE,
    {
        Peekable { reader, buffer: SmallBuffer::new(), buf_cap: None }
    }

    /// Creates a new peekable wrapper around the given reader with the
    /// specified capacity for the peek buffer.
    pub fn with_capacity(reader: R, capacity: usize) -> (peekable: Self)
        requires
            capacity <= MAX_CAPACITY,
        ensures
            peekable.wf(),
            peekable.inner() == reader,
            peekable.peeked() == Seq::<u8>::empty(),
            peekable.requested() == Some(capacity),
            peekable.store().room() >= capacity,
    {
        Peekable { reader, buffer: SmallBuffer::with_capacity(capacity), buf_cap: Some(capacity) }
    }
}

impl<R, B: Buffer> Peekable<R, B> {
    /// Creates a new peekable wrapper around the given reader, with a peek
    /// buffer of type `B`.
    pub fn with_buffer(reader: R) -> (peekable: Self)
        ensures
            peekable.wf(),
            peekable.inner() == reader,
            peekable.peeked() == Seq::<u8>::empty(),
            peekable.requested() is None,
            call_ensures(B::new, (), peekable.store()),
    {
        Peekable { reader, buffer: B::new(), buf_cap: None }
    }

    /// Creates a new peekable wrapper around the given reader with the
    /// specified capacity for the peek buffer, which is of type `B`.
    pub fn with_capacity_and_buffer(reader: R, capacity: usize) -> (peekable: Self)
        requires
            capacity <= MAX_CAPACITY,
        ensures
            peekable.wf(),
            peekable.inner() == reader,
            peekable.peeked() == Seq::<u8>::empty(),
            peekable.requested() == Some(capacity),
            B::keeps_room() ==> peekable.store().room() >= capacity,
            call_ensures(B::with_capacity, (capacity,), peekable.store()),
    {
        Peekable { reader, buffer: B::with_capacity(capacity), buf_cap: Some(capacity) }
    }

    /// Takes the peek buffer out, with what has been peeked, and puts an empty
    /// one in its place.
    pub fn consume(&mut self) -> (buffer: B)
        requires
            old(self).wf(),
        ensures
            buffer == old(self).store(),
            final(self).peeked() == Seq::<u8>::empty(),
            final(self).inner() == old(self).inner(),
            final(self).requested() == old(self).requested(),
            old(self).requested() matches Some(capacity) ==> B::keeps_room()
                ==> final(self).store().room() >= capacity,
            match old(self).requested() {
                Some(capacity) => call_ensures(
                    B::with_capacity,
                    (capacity,),
                    final(self).store(),
                ),
                None => call_ensures(B::new, (), final(self).store()),
            },
            (Stream { given: buffer.contents(), peeked: final(self).peeked() }) == (Stream {
                given: Seq::empty(),
                peeked: old(self).peeked(),
            }).after(Move::Consume),
    {
        let mut buffer = match self.buf_cap {
            Some(capacity) => B::with_capacity(capacity),
            None => B::new(),
        };
        std::mem::swap(&mut self.buffer, &mut buffer);
        buffer
    }

    /// Forgets what has been peeked, and keeps the peek buffer for reuse.
    pub fn consume_in_place(&mut self)
        ensures
            final(self).peeked() == Seq::<u8>::empty(),
            final(self).inner() == old(self).inner(),
            final(self).requested() == old(self).requested(),
            final(self).store().room() >= old(self).store().room(),
            forall|n: nat| #[trigger]
                old(self).store().has_room(n) ==> final(self).store().has_room(n),
    {
        self.buffer.clear();
    }

    /// The bytes that have been peeked, and a mutable reference to the reader.
    ///
    /// Reading from the reader itself skips the peeked bytes.
    pub fn get_mut(&mut self) -> (parts: (&[u8], &mut R))
        ensures
            parts.0@ == old(self).peeked(),
            *parts.1 == old(self).inner(),
            final(self).store() == old(self).store(),
            final(self).inner() == *final(parts.1),
            final(self).requested() == old(self).requested(),
    {
        (self.buffer.as_slice(), &mut self.reader)
    }

    /// The bytes that have been peeked, and a reference to the reader.
    pub fn get_ref(&self) -> (parts: (&[u8], &R))
        ensures
            parts.0@ == self.peeked(),
            *parts.1 == self.inner(),
    {
        (self.buffer.as_slice(), &self.reader)
    }
}

impl<R, B> Peekable<R, B> {
    /// Takes the wrapper apart into the peek buffer, with what has been peeked,
    /// and the reader.
    pub fn into_components(self) -> (parts: (B, R))
        ensures
            parts.0 == self.store(),
            parts.1 == self.inner(),
    {
        (self.buffer, self.reader)
    }
}

impl<R, B: Buffer> Peekable<R, B> {
    /// Starts reading into `buf`. What has been peeked is read first.
    ///
    /// An error of the reader is passed on, and then the peeked bytes count as
    /// not read.
    pub fn read<'a>(&'a mut self, buf: &'a mut [u8]) -> (op: PeekedRead<'a, R, B>)
        ensures
            *op.peekable == *old(self),
            *final(op.peekable) == *final(self),
            op.buf@ == old(buf)@,
            final(op.buf)@ == final(buf)@,
            !op.deliver_on_error,
            op.copied is None,
    {
        PeekedRead { peekable: self, buf, deliver_on_error: false, copied: None }
    }

    /// Starts peeking into `buf`. How many bytes are peeked is up to the
    /// reader, which is asked once.
    ///
    /// If `buf` is empty the reader is not asked. An interrupted read is tried
    /// again; any other error is passed on, and then nothing more has been
    /// peeked.
    pub fn peek<'a>(&'a mut self, buf: &'a mut [u8]) -> (op: Peek<'a, R, B>)
        ensures
            *op.intake.peekable == *old(self),
            *final(op.intake.peekable) == *final(self),
            op.intake.open_at is None,
            op.buf@ == old(buf)@,
            final(op.buf)@ == final(buf)@,
            op.skip_empty,
            !op.block_is_pending,
            old(buf)@.len() <= MAX_LEN ==> op.wf(),
    {
        Peek {
            intake: Intake { peekable: self, open_at: None, capacity: 0 },
            buf,
            skip_empty: true,
            block_is_pending: false,
        }
    }

    /// Starts peeking into the first of `bufs` that is not empty, or into an
    /// empty slice if there is none.
    pub fn peek_vectored<'a>(&'a mut self, bufs: &'a mut [&'a mut [u8]]) -> (op: Peek<'a, R, B>)
        ensures
            *op.intake.peekable == *old(self),
            *final(op.intake.peekable) == *final(self),
            op.intake.open_at is None,
            op.skip_empty,
            !op.block_is_pending,
            op.buf@.len() <= MAX_LEN ==> op.wf(),
            (forall|i: int| 0 <= i < old(bufs)@.len() ==> old(bufs)@[i]@.len() == 0)
                ==> op.buf@.len() == 0 && final(bufs)@ == old(bufs)@,
            forall|i: int| #[trigger]
                is_first_non_empty(old(bufs)@, i) ==> {
                    &&& op.buf@ == old(bufs)@[i]@
                    &&& final(bufs)@.len() == old(bufs)@.len()
                    &&& final(bufs)@[i]@ == final(op.buf)@
                    &&& forall|j: int|
                        0 <= j < old(bufs)@.len() && j != i ==> final(bufs)@[j] == old(bufs)@[j]
                },
    {
        self.peek(first_non_empty(bufs))
    }

    /// Starts peeking exactly as many bytes as fill `buf`.
    ///
    /// An interrupted read is tried again. Any other error is passed on, as is
    /// the end of the stream if it comes too early; what was peeked up to then
    /// stays peeked.
    pub fn peek_exact<'a>(&'a mut self, buf: &'a mut [u8]) -> (op: PeekExact<'a, R, B>)
        ensures
            *op.intake.peekable == *old(self),
            *final(op.intake.peekable) == *final(self),
            op.intake.open_at is None,
            op.buf@ == old(buf)@,
            final(op.buf)@ == final(buf)@,
            op.filled == 0,
            op.consistent(),
    {
        let op = PeekExact { intake: Intake { peekable: self, open_at: None, capacity: 0 }, buf, filled: 0 };
        assert(op.buf@.take(0) =~= op.intake.base().take(0));
        op
    }

    /// Starts peeking the stream to its end, and appending it to `buf`.
    ///
    /// An interrupted read is tried again. Any other error is passed on, and
    /// what was read up to then stays peeked and stays in `buf`.
    pub fn peek_to_end<'a>(&'a mut self, buf: &'a mut Vec<u8>) -> (op: PeekToEnd<'a, R, B>)
        ensures
            *op.intake.peekable == *old(self),
            *final(op.intake.peekable) == *final(self),
            op.intake.open_at is None,
            op.out@ == old(buf)@,
            *final(op.out) == *final(buf),
            !op.prefix_copied,
            op.start == old(buf)@.len(),
            op.origin() == old(buf)@,
            op.wf(),
    {
        assert(buf@.skip(buf@.len() as int) =~= Seq::<u8>::empty());
        PeekToEnd {
            start: buf.len(),
            intake: Intake { peekable: self, open_at: None, capacity: 0 },
            out: buf,
            prefix_copied: false,
        }
    }

    /// Starts peeking the stream to its end, and appending it to `buf` as text.
    ///
    /// If the stream is not valid UTF-8 `buf` is left as it was. An interrupted
    /// read is tried again. Any other error is passed on, and then `buf` gets
    /// what was read up to then if that is valid UTF-8.
    pub fn peek_to_string<'a>(&'a mut self, buf: &'a mut String) -> (op: PeekToString<'a, R, B>)
        ensures
            *op.intake.peekable == *old(self),
            *final(op.intake.peekable) == *final(self),
            op.intake.open_at is None,
            op.out@ == old(buf)@,
            *final(op.out) == *final(buf),
            !op.started,
            !op.whole_chunks,
            !op.keep_valid_prefix,
    {
        PeekToString {
            intake: Intake { peekable: self, open_at: None, capacity: 0 },
            out: buf,
            started: false,
            whole_chunks: false,
            keep_valid_prefix: false,
        }
    }

    /// Starts filling the room that is left in the peek buffer.
    ///
    /// An interrupted read is tried again. Any other error is passed on, and
    /// then nothing more has been peeked.
    pub fn fill_peek_buf<'a>(&'a mut self) -> (op: FillPeekBuf<'a, R, B>)
        ensures
            *op.intake.peekable == *old(self),
            *final(op.intake.peekable) == *final(self),
            op.intake.open_at is None,
            op.retry,
            op.original == old(self).peeked().len(),
            call_ensures(B::capacity, (&old(self).store(),), op.cap),
            op.original <= op.cap,
            old(self).store().room() <= op.cap,
            forall|n: nat| #[trigger] old(self).store().has_room(n) ==> n <= op.cap,
            op.wf(),
    {
        let capacity: usize = self.buffer.capacity();
        let original: usize = self.buffer.len();
        FillPeekBuf {
            intake: Intake { peekable: self, open_at: None, capacity: 0 },
            cap: capacity,
            original,
            retry: true,
        }
    }
}

/// Makes any reader peekable.
pub trait PeekExt {
    /// Wraps the reader in a peekable one.
    fn peekable(self) -> (peekable: Peekable<Self>) where Self: Sized
        ensures
            peekable.wf(),
            peekable.inner() == self,
            peekable.peeked() == Seq::<u8>::empty(),
            peekable.requested() is None,
            peekable.store().room() >= SMALL_INLINE,
    {
        Peekable::new(self)
    }

    /// Wraps the reader in a peekable one with the specified capacity for the
    /// peek buffer.
    fn peekable_with_capacity(self, capacity: usize) -> (peekable: Peekable<Self>) where
        Self: Sized,

        requires
            capacity <= MAX_CAPACITY,
        ensures
            peekable.wf(),
            peekable.inner() == self,
            peekable.peeked() == Seq::<u8>::empty(),
            peekable.requested() == Some(capacity),
            peekable.store().room() >= capacity,
    {
        Peekable::with_capacity(self, capacity)
    }

    /// Wraps the reader in a peekable one with a peek buffer of type `B`.
    fn peekable_with_buffer<B: Buffer>(self) -> (peekable: Peekable<Self, B>) where Self: Sized
        ensures
            peekable.wf(),
            peekable.inner() == self,
            peekable.peeked() == Seq::<u8>::empty(),
            peekable.requested() is None,
            call_ensures(B::new, (), peekable.store()),
    {
        Peekable::with_buffer(self)
    }

    /// Wraps the reader in a peekable one with the specified capacity for the
    /// peek buffer, which is of type `B`.
    fn peekable_with_capacity_and_buffer<B: Buffer>(self, capacity: usize) -> (peekable: Peekable<
        Self,
        B,
    >) where Self: Sized
        requires
            capacity <= MAX_CAPACITY,
        ensures
            peekable.wf(),
            peekable.inner() == self,
            peekable.peeked() == Seq::<u8>::empty(),
            peekable.requested() == Some(capacity),
            B::keeps_room() ==> peekable.store().room() >= capacity,
            call_ensures(B::with_capacity, (capacity,), peekable.store()),
    {
        Peekable::with_capacity_and_buffer(self, capacity)
    }
}

impl<R> PeekExt for R {

}

impl<R> vstd::std_specs::convert::FromSpecImpl<R> for Peekable<R> {
    open spec fn obeys_from_spec() -> bool {
        false
    }

    open spec fn from_spec(reader: R) -> Self {
        arbitrary()
    }
}

impl<R> From<R> for Peekable<R> {
    fn from(reader: R) -> (peekable: Self)
        ensures
            peekable.wf(),
            peekable.inner() == reader,
            peekable.peeked() == Seq::<u8>::empty(),
            peekable.requested() is None,
            peekable.store().room() >= SMALL_INLINE,
    {
        Peekable::new(reader)
    }
}

impl<R> vstd::std_specs::convert::FromSpecImpl<(usize, R)> for Peekable<R> {
    open spec fn obeys_from_spec() -> bool {
        false
    }

    open spec fn from_spec(parts: (usize, R)) -> Self {
        arbitrary()
    }
}

impl<R> From<(usize, R)> for Peekable<R> {
    /// Creates a new peekable wrapper around the reader with the given capacity
    /// for the peek buffer, or the largest there is if that is less.
    fn from(parts: (usize, R)) -> (peekable: Self)
        ensures
            peekable.wf(),
            peekable.inner() == parts.1,
            peekable.peeked() == Seq::<u8>::empty(),
            peekable.requested() == Some(
                if parts.0 <= MAX_CAPACITY {
                    parts.0
                } else {
                    MAX_CAPACITY
                },
            ),
            parts.0 <= MAX_CAPACITY ==> peekable.store().room() >= parts.0,
    {
        let capacity: usize = if parts.0 <= MAX_CAPACITY {
            parts.0
        } else {
            MAX_CAPACITY
        };
        Peekable::with_capacity(parts.1, capacity)
    }
}

} // verus!
