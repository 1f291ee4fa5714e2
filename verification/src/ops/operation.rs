//! What all operations have in common.
use super::{FillPeekBuf, Peek, PeekExact, PeekToEnd, PeekToString, PeekedRead};
use crate::attempt::{fits, Attempt, Prepared, Settled};
use crate::buffer::{Buffer, MAX_LEN};
use crate::growth::READ_CHUNK;
use crate::stream::{Move, Stream};
use vstd::prelude::*;

verus! {

/// An operation on a peekable reader of type `R`, as whoever drives it sees it.
///
/// An operation is prepared first. It may then be complete, or ask for a read.
/// If it asks for one, the reader is lent out to be read from, and the operation
/// is told how that went. It may then be complete, or is to be prepared again.
///
/// A peek may be dropped at any time but between asking for a read and being told
/// how it went: the peek buffer would keep the bytes that the reader was to write
/// over, and they would pass for bytes of the stream.
pub trait Operation<R> {
    /// Whether the operation may be prepared, as far as it is up to itself.
    spec fn idle(&self) -> bool;

    /// Whether the operation asks for a read.
    spec fn asking(&self) -> bool;

    /// The reader.
    spec fn reader(&self) -> R;

    /// The bytes that the reader may write to.
    spec fn lent_out(&self) -> Seq<u8>;

    /// Whether what it would ask for is within the limits of a peek buffer.
    spec fn within_limits(&self) -> bool;

    /// The stream as far as the operation has to do with it: what it has handed
    /// over, if it is complete with `done` bytes, and what is peeked.
    spec fn stream(&self, done: Option<nat>) -> Stream;

    /// Whether preparing `before` leads here, with `step` as the answer.
    spec fn follows_prepare(&self, before: &Self, step: Prepared) -> bool;

    /// Whether everything but the reader and the lent bytes is as in `before`.
    spec fn follows_lend(&self, before: &Self) -> bool;

    /// Whether settling `attempt` for `before` leads here, with `step` as the
    /// answer.
    spec fn follows_settle(&self, before: &Self, attempt: Attempt, step: Settled) -> bool;

    /// What preparing the operation does to the stream.
    spec fn moves_on_prepare(&self) -> Seq<Move>;

    /// What settling a read does to the stream.
    spec fn move_on_settle(&self, attempt: Attempt) -> Move;

    /// Whether what it would ask for is within the limits of a peek buffer.
    fn is_within_limits(&self) -> (within: bool)
        ensures
            within == self.within_limits(),
    ;

    /// Prepares the operation.
    fn prepare(&mut self) -> (step: Prepared)
        requires
            old(self).idle(),
            old(self).within_limits(),
        ensures
            final(self).follows_prepare(old(self), step),
            step is Read ==> final(self).asking(),
            final(self).reader() == old(self).reader(),
            final(self).stream(step.count()) == old(self).stream(None).after_all(
                old(self).moves_on_prepare(),
            ),
    ;

    /// Lends out the reader, and the bytes that it may write to.
    fn lend(&mut self) -> (parts: (&mut R, &mut [u8]))
        requires
            old(self).asking(),
        ensures
            final(self).follows_lend(old(self)),
            *parts.0 == old(self).reader(),
            parts.1@ == old(self).lent_out(),
            final(self).reader() == *final(parts.0),
            final(self).lent_out() == final(parts.1)@,
            final(parts.1)@.len() == parts.1@.len() ==> final(self).asking(),
            final(self).stream(None) == old(self).stream(None),
    ;

    /// Takes note of how the read went.
    fn settle(&mut self, attempt: Attempt) -> (step: Settled)
        requires
            old(self).asking(),
            fits(attempt, old(self).lent_out().len()),
        ensures
            final(self).follows_settle(old(self), attempt, step),
            step is Again || step is Pending ==> final(self).idle(),
            final(self).reader() == old(self).reader(),
            final(self).stream(step.count()) == old(self).stream(None).after(
                old(self).move_on_settle(attempt),
            ),
    ;
}

impl<'a, R, B: Buffer> Operation<R> for PeekedRead<'a, R, B> {
    open spec fn idle(&self) -> bool {
        self.copied is None
    }

    open spec fn asking(&self) -> bool {
        self.wf() && self.copied is Some
    }

    open spec fn reader(&self) -> R {
        self.peekable.inner()
    }

    open spec fn lent_out(&self) -> Seq<u8> {
        self.lent()
    }

    open spec fn within_limits(&self) -> bool {
        true
    }

    open spec fn stream(&self, done: Option<nat>) -> Stream {
        Stream {
            given: match done {
                Some(n) => self.buf@.take(n as int),
                None => Seq::empty(),
            },
            peeked: self.peekable.peeked(),
        }
    }

    open spec fn follows_prepare(&self, before: &Self, step: Prepared) -> bool {
        self.prepared_from(before, step)
    }

    open spec fn follows_lend(&self, before: &Self) -> bool {
        self.lent_from(before)
    }

    open spec fn follows_settle(&self, before: &Self, attempt: Attempt, step: Settled) -> bool {
        self.settled_from(before, attempt, step)
    }

    open spec fn moves_on_prepare(&self) -> Seq<Move> {
        if self.answered() {
            seq![Move::Answer { want: self.buf@.len() }]
        } else {
            Seq::empty()
        }
    }

    open spec fn move_on_settle(&self, attempt: Attempt) -> Move {
        Move::Read { lent: self.lent(), attempt, deliver_on_error: self.deliver_on_error }
    }

    fn is_within_limits(&self) -> (within: bool) {
        true
    }

    fn prepare(&mut self) -> (step: Prepared)
        ensures
            *final(final(self).peekable) == *final(old(self).peekable),
            final(final(self).buf)@ == final(old(self).buf)@,
    {
        let step = PeekedRead::prepare(self);
        proof {
            reveal_with_fuel(Stream::after_all, 2);
        }
        step
    }

    fn lend(&mut self) -> (parts: (&mut R, &mut [u8]))
        ensures
            *final(final(self).peekable) == *final(old(self).peekable),
            final(final(self).buf)@ == final(old(self).buf)@,
    {
        PeekedRead::lend(self)
    }

    fn settle(&mut self, attempt: Attempt) -> (step: Settled)
        ensures
            *final(final(self).peekable) == *final(old(self).peekable),
            final(final(self).buf)@ == final(old(self).buf)@,
    {
        assert(self.buf.len() >= self.peekable.peeked().len() + self.lent().len());
        PeekedRead::settle(self, attempt)
    }
}

impl<'a, R, B: Buffer> Operation<R> for Peek<'a, R, B> {
    open spec fn idle(&self) -> bool {
        self.intake.open_at is None
    }

    open spec fn asking(&self) -> bool {
        self.wf() && self.intake.open_at is Some
    }

    open spec fn reader(&self) -> R {
        self.intake.peekable.inner()
    }

    open spec fn lent_out(&self) -> Seq<u8> {
        self.intake.lent()
    }

    open spec fn within_limits(&self) -> bool {
        self.buf@.len() <= MAX_LEN
    }

    open spec fn stream(&self, done: Option<nat>) -> Stream {
        Stream { given: Seq::empty(), peeked: self.intake.base() }
    }

    open spec fn follows_prepare(&self, before: &Self, step: Prepared) -> bool {
        self.prepared_from(before, step)
    }

    open spec fn follows_lend(&self, before: &Self) -> bool {
        self.lent_from(before)
    }

    open spec fn follows_settle(&self, before: &Self, attempt: Attempt, step: Settled) -> bool {
        self.settled_from(before, attempt, step)
    }

    open spec fn moves_on_prepare(&self) -> Seq<Move> {
        Seq::empty()
    }

    open spec fn move_on_settle(&self, attempt: Attempt) -> Move {
        Move::Peek { lent: self.intake.lent(), attempt }
    }

    fn is_within_limits(&self) -> (within: bool) {
        self.buf.len() <= MAX_LEN
    }

    fn prepare(&mut self) -> (step: Prepared)
        ensures
            *final(final(self).intake.peekable) == *final(old(self).intake.peekable),
            final(final(self).buf)@ == final(old(self).buf)@,
    {
        Peek::prepare(self)
    }

    fn lend(&mut self) -> (parts: (&mut R, &mut [u8]))
        ensures
            *final(final(self).intake.peekable) == *final(old(self).intake.peekable),
            final(final(self).buf)@ == final(old(self).buf)@,
    {
        Peek::lend(self)
    }

    fn settle(&mut self, attempt: Attempt) -> (step: Settled)
        ensures
            *final(final(self).intake.peekable) == *final(old(self).intake.peekable),
            final(final(self).buf)@ == final(old(self).buf)@,
            exists|store: &mut B|
                #![trigger call_ensures(B::keep_capacity, (store, old(self).intake.capacity), ())]
                call_ensures(B::keep_capacity, (store, old(self).intake.capacity), ())
                    && *final(store) == final(self).intake.peekable.store(),
    {
        Peek::settle(self, attempt)
    }
}

impl<'a, R, B: Buffer> Operation<R> for PeekExact<'a, R, B> {
    open spec fn idle(&self) -> bool {
        self.consistent() && self.intake.open_at is None
    }

    open spec fn asking(&self) -> bool {
        self.wf() && self.intake.open_at is Some
    }

    open spec fn reader(&self) -> R {
        self.intake.peekable.inner()
    }

    open spec fn lent_out(&self) -> Seq<u8> {
        self.intake.lent()
    }

    open spec fn within_limits(&self) -> bool {
        self.buf@.len() <= MAX_LEN
    }

    open spec fn stream(&self, done: Option<nat>) -> Stream {
        Stream { given: Seq::empty(), peeked: self.intake.base() }
    }

    open spec fn follows_prepare(&self, before: &Self, step: Prepared) -> bool {
        self.prepared_from(before, step)
    }

    open spec fn follows_lend(&self, before: &Self) -> bool {
        self.lent_from(before)
    }

    open spec fn follows_settle(&self, before: &Self, attempt: Attempt, step: Settled) -> bool {
        self.settled_from(before, attempt, step)
    }

    open spec fn moves_on_prepare(&self) -> Seq<Move> {
        Seq::empty()
    }

    open spec fn move_on_settle(&self, attempt: Attempt) -> Move {
        Move::Peek { lent: self.intake.lent(), attempt }
    }

    fn is_within_limits(&self) -> (within: bool) {
        self.buf.len() <= MAX_LEN
    }

    fn prepare(&mut self) -> (step: Prepared)
        ensures
            *final(final(self).intake.peekable) == *final(old(self).intake.peekable),
            final(final(self).buf)@ == final(old(self).buf)@,
    {
        PeekExact::prepare(self)
    }

    fn lend(&mut self) -> (parts: (&mut R, &mut [u8]))
        ensures
            *final(final(self).intake.peekable) == *final(old(self).intake.peekable),
            final(final(self).buf)@ == final(old(self).buf)@,
    {
        PeekExact::lend(self)
    }

    fn settle(&mut self, attempt: Attempt) -> (step: Settled)
        ensures
            *final(final(self).intake.peekable) == *final(old(self).intake.peekable),
            final(final(self).buf)@ == final(old(self).buf)@,
            exists|store: &mut B|
                #![trigger call_ensures(B::keep_capacity, (store, old(self).intake.capacity), ())]
                call_ensures(B::keep_capacity, (store, old(self).intake.capacity), ())
                    && *final(store) == final(self).intake.peekable.store(),
    {
        PeekExact::settle(self, attempt)
    }
}

impl<'a, R, B: Buffer> Operation<R> for PeekToEnd<'a, R, B> {
    open spec fn idle(&self) -> bool {
        self.wf() && self.intake.open_at is None
    }

    open spec fn asking(&self) -> bool {
        self.wf() && self.intake.open_at is Some
    }

    open spec fn reader(&self) -> R {
        self.intake.peekable.inner()
    }

    open spec fn lent_out(&self) -> Seq<u8> {
        self.intake.lent()
    }

    open spec fn within_limits(&self) -> bool {
        self.intake.peekable.peeked().len() + READ_CHUNK <= MAX_LEN
    }

    open spec fn stream(&self, done: Option<nat>) -> Stream {
        Stream { given: Seq::empty(), peeked: self.intake.base() }
    }

    open spec fn follows_prepare(&self, before: &Self, step: Prepared) -> bool {
        self.prepared_from(before, step)
    }

    open spec fn follows_lend(&self, before: &Self) -> bool {
        self.lent_from(before)
    }

    open spec fn follows_settle(&self, before: &Self, attempt: Attempt, step: Settled) -> bool {
        self.settled_from(before, attempt, step)
    }

    open spec fn moves_on_prepare(&self) -> Seq<Move> {
        Seq::empty()
    }

    open spec fn move_on_settle(&self, attempt: Attempt) -> Move {
        Move::Peek { lent: self.intake.lent(), attempt }
    }

    fn is_within_limits(&self) -> (within: bool) {
        self.intake.peekable.buffer.len() <= MAX_LEN - READ_CHUNK
    }

    fn prepare(&mut self) -> (step: Prepared)
        ensures
            *final(final(self).intake.peekable) == *final(old(self).intake.peekable),
            *final(final(self).out) == *final(old(self).out),
    {
        PeekToEnd::prepare(self)
    }

    fn lend(&mut self) -> (parts: (&mut R, &mut [u8]))
        ensures
            *final(final(self).intake.peekable) == *final(old(self).intake.peekable),
            *final(final(self).out) == *final(old(self).out),
    {
        PeekToEnd::lend(self)
    }

    fn settle(&mut self, attempt: Attempt) -> (step: Settled)
        ensures
            *final(final(self).intake.peekable) == *final(old(self).intake.peekable),
            *final(final(self).out) == *final(old(self).out),
            exists|store: &mut B|
                #![trigger call_ensures(B::keep_capacity, (store, old(self).intake.capacity), ())]
                call_ensures(B::keep_capacity, (store, old(self).intake.capacity), ())
                    && *final(store) == final(self).intake.peekable.store(),
    {
        PeekToEnd::settle(self, attempt)
    }
}

impl<'a, R, B: Buffer> Operation<R> for PeekToString<'a, R, B> {
    open spec fn idle(&self) -> bool {
        self.intake.open_at is None
    }

    open spec fn asking(&self) -> bool {
        self.intake.wf() && self.intake.open_at is Some
    }

    open spec fn reader(&self) -> R {
        self.intake.peekable.inner()
    }

    open spec fn lent_out(&self) -> Seq<u8> {
        self.intake.lent()
    }

    open spec fn within_limits(&self) -> bool {
        self.intake.peekable.peeked().len() + READ_CHUNK <= MAX_LEN
    }

    open spec fn stream(&self, done: Option<nat>) -> Stream {
        Stream { given: Seq::empty(), peeked: self.intake.base() }
    }

    open spec fn follows_prepare(&self, before: &Self, step: Prepared) -> bool {
        self.prepared_from(before, step)
    }

    open spec fn follows_lend(&self, before: &Self) -> bool {
        self.lent_from(before)
    }

    open spec fn follows_settle(&self, before: &Self, attempt: Attempt, step: Settled) -> bool {
        self.settled_from(before, attempt, step)
    }

    open spec fn moves_on_prepare(&self) -> Seq<Move> {
        Seq::empty()
    }

    open spec fn move_on_settle(&self, attempt: Attempt) -> Move {
        Move::Peek { lent: self.intake.lent(), attempt }
    }

    fn is_within_limits(&self) -> (within: bool) {
        self.intake.peekable.buffer.len() <= MAX_LEN - READ_CHUNK
    }

    fn prepare(&mut self) -> (step: Prepared)
        ensures
            *final(final(self).intake.peekable) == *final(old(self).intake.peekable),
            *final(final(self).out) == *final(old(self).out),
    {
        PeekToString::prepare(self)
    }

    fn lend(&mut self) -> (parts: (&mut R, &mut [u8]))
        ensures
            *final(final(self).intake.peekable) == *final(old(self).intake.peekable),
            *final(final(self).out) == *final(old(self).out),
    {
        PeekToString::lend(self)
    }

    fn settle(&mut self, attempt: Attempt) -> (step: Settled)
        ensures
            *final(final(self).intake.peekable) == *final(old(self).intake.peekable),
            *final(final(self).out) == *final(old(self).out),
            exists|store: &mut B|
                #![trigger call_ensures(B::keep_capacity, (store, old(self).intake.capacity), ())]
                call_ensures(B::keep_capacity, (store, old(self).intake.capacity), ())
                    && *final(store) == final(self).intake.peekable.store(),
    {
        PeekToString::settle(self, attempt)
    }
}

impl<'a, R, B: Buffer> Operation<R> for FillPeekBuf<'a, R, B> {
    open spec fn idle(&self) -> bool {
        self.wf() && self.intake.open_at is None
    }

    open spec fn asking(&self) -> bool {
        self.wf() && self.intake.open_at is Some
    }

    open spec fn reader(&self) -> R {
        self.intake.peekable.inner()
    }

    open spec fn lent_out(&self) -> Seq<u8> {
        self.intake.lent()
    }

    open spec fn within_limits(&self) -> bool {
        true
    }

    open spec fn stream(&self, done: Option<nat>) -> Stream {
        Stream { given: Seq::empty(), peeked: self.intake.base() }
    }

    open spec fn follows_prepare(&self, before: &Self, step: Prepared) -> bool {
        self.prepared_from(before, step)
    }

    open spec fn follows_lend(&self, before: &Self) -> bool {
        self.lent_from(before)
    }

    open spec fn follows_settle(&self, before: &Self, attempt: Attempt, step: Settled) -> bool {
        self.settled_from(before, attempt, step)
    }

    open spec fn moves_on_prepare(&self) -> Seq<Move> {
        Seq::empty()
    }

    open spec fn move_on_settle(&self, attempt: Attempt) -> Move {
        Move::Peek { lent: self.intake.lent(), attempt }
    }

    fn is_within_limits(&self) -> (within: bool) {
        true
    }

    fn prepare(&mut self) -> (step: Prepared)
        ensures
            *final(final(self).intake.peekable) == *final(old(self).intake.peekable),
    {
        FillPeekBuf::prepare(self)
    }

    fn lend(&mut self) -> (parts: (&mut R, &mut [u8]))
        ensures
            *final(final(self).intake.peekable) == *final(old(self).intake.peekable),
    {
        FillPeekBuf::lend(self)
    }

    fn settle(&mut self, attempt: Attempt) -> (step: Settled)
        ensures
            *final(final(self).intake.peekable) == *final(old(self).intake.peekable),
            exists|store: &mut B|
                #![trigger call_ensures(B::keep_capacity, (store, old(self).intake.capacity), ())]
                call_ensures(B::keep_capacity, (store, old(self).intake.capacity), ())
                    && *final(store) == final(self).intake.peekable.store(),
    {
        FillPeekBuf::settle(self, attempt)
    }
}

} // verus!
