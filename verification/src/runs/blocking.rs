//! What the operations of a blocking reader come to, from the call on.
use super::fill_peek_buf::{fill_takes_what_the_room_allows, fill_waits_for_the_first_delivery};
use super::peek::{peek_shows_the_next_bytes, peek_waits_for_the_first_delivery};
use super::peek_exact::{peek_exact_collects_the_stream, peek_exact_completes_when_full};
use super::peek_to_end::{peek_to_end_collects_the_stream, peek_to_end_completes_at_the_end};
use super::peek_to_string::{
    peek_to_string_collects_the_stream, peek_to_string_judges_the_whole,
    peek_to_string_rejects_only_what_nothing_completes,
};
use super::read::{read_gives_the_next_bytes_once, read_waits_for_the_first_delivery};
use super::{all_delivered, is_round, is_run, Round};
use crate::attempt::{Attempt, Prepared, Settled};
use crate::buffer::Buffer;
use crate::error::PeekError;
use crate::sync::{DefaultBuffer, Peekable};
use crate::ops::{
    is_first_non_empty, FillPeekBuf, Operation, Peek, PeekExact, PeekToEnd, PeekToString, PeekedRead,
};
use vstd::prelude::*;
use vstd::utf8::{decode_utf8, valid_utf8};

verus! {

/// A read gives what was peeked and then what the reader delivers, and those bytes are
/// peeked no more. What was peeked is given alone if the reader is not ready; only if
/// nothing was peeked is the reader waited for. If the reader fails its error is passed
/// on, and what was peeked is still peeked.
pub proof fn read_from_call_to_end<'a, R, B: Buffer>(
    p: &'a mut Peekable<R, B>,
    buf: &'a mut [u8],
    op: PeekedRead<'a, R, B>,
    rounds: Seq<Round<PeekedRead<'a, R, B>>>,
)
    requires
        call_ensures(Peekable::<R, B>::read, (p, buf), op),
        is_run::<R, PeekedRead<'a, R, B>>(rounds),
        rounds[0].start == op,
    ensures
        ({
            let last = rounds.last();
            let peeked = old(p).peeked();
            let all = peeked + all_delivered::<R, PeekedRead<'a, R, B>>(rounds);
            &&& last.lent.lent_out().len() == old(buf)@.len() - peeked.len()
            &&& match last.attempt {
                Attempt::Ready(_) => {
                    &&& last.step matches Settled::Done(Ok(n)) && n == all.len()
                    &&& last.end.buf@.take(all.len() as int) == all
                    &&& last.end.peekable.peeked().len() == 0
                },
                Attempt::Pending => if peeked.len() > 0 {
                    &&& last.step matches Settled::Done(Ok(n)) && n == peeked.len()
                    &&& last.end.buf@.take(peeked.len() as int) == peeked
                    &&& last.end.peekable.peeked().len() == 0
                } else {
                    last.step is Pending
                },
                Attempt::Interrupted(error)
                | Attempt::WouldBlock(error)
                | Attempt::Failed(error) => {
                    &&& last.step == Settled::Done(Err(PeekError::Io(error)))
                    &&& last.end.peekable.peeked() == peeked
                },
            }
        }),
{
    assert(is_round::<R, PeekedRead<'a, R, B>>(rounds[rounds.len() - 1]));
    read_waits_for_the_first_delivery(rounds);
    read_gives_the_next_bytes_once(rounds);
    assert(op.peekable.peeked() + Seq::<u8>::empty() =~= op.peekable.peeked());
}

/// A peek shows what was peeked and then what the reader delivers, which is peeked now
/// as well. An interrupted read is tried again. If the reader is not ready what was
/// peeked is shown alone, unless that is nothing. Any other error of the reader is passed
/// on, and the slice is as it was.
pub proof fn peek_from_call_to_end<'a, R, B: Buffer>(
    p: &'a mut Peekable<R, B>,
    buf: &'a mut [u8],
    op: Peek<'a, R, B>,
    rounds: Seq<Round<Peek<'a, R, B>>>,
)
    requires
        call_ensures(Peekable::<R, B>::peek, (p, buf), op),
        is_run::<R, Peek<'a, R, B>>(rounds),
        rounds[0].start == op,
    ensures
        ({
            let last = rounds.last();
            let peeked = old(p).peeked();
            let all = peeked + all_delivered::<R, Peek<'a, R, B>>(rounds);
            &&& last.lent.lent_out().len() == old(buf)@.len() - peeked.len()
            &&& last.end.intake.peekable.peeked() == all
            &&& match last.attempt {
                Attempt::Ready(_) => {
                    &&& last.step matches Settled::Done(Ok(n)) && n == all.len()
                    &&& last.end.buf@ == all + old(buf)@.skip(all.len() as int)
                },
                Attempt::Interrupted(_) => last.step is Again,
                Attempt::Pending => if peeked.len() > 0 {
                    &&& last.step matches Settled::Done(Ok(n)) && n == peeked.len()
                    &&& last.end.buf@ == peeked + old(buf)@.skip(peeked.len() as int)
                } else {
                    last.step is Pending
                },
                Attempt::WouldBlock(error) | Attempt::Failed(error) => last.step == Settled::Done(
                    Err(PeekError::Io(error)),
                ),
            }
            &&& !(last.step matches Settled::Done(Ok(_))) ==> last.end.buf@ == old(buf)@
        }),
{
    assert(is_round::<R, Peek<'a, R, B>>(rounds[rounds.len() - 1]));
    peek_waits_for_the_first_delivery(rounds);
    peek_shows_the_next_bytes(rounds);
    let peeked = op.intake.peekable.peeked();
    assert(peeked + Seq::<u8>::empty() =~= peeked);
}

/// Peeking into an empty slice is complete at once, and never asks the reader.
pub proof fn peek_into_nothing<'a, R, B: Buffer>(
    p: &'a mut Peekable<R, B>,
    buf: &'a mut [u8],
    op: Peek<'a, R, B>,
    after: Peek<'a, R, B>,
    step: Prepared,
)
    requires
        call_ensures(Peekable::<R, B>::peek, (p, buf), op),
        after.follows_prepare(&op, step),
    ensures
        old(buf)@.len() == 0 ==> step == Prepared::Done(Ok(0)),
{
}

/// A peek into several slices is one into the first that is not empty, whichever slice
/// that is, and into none of the others.
pub proof fn peek_vectored_goes_to_the_first_that_is_not_empty<'a, R, B: Buffer>(
    p: &'a mut Peekable<R, B>,
    bufs: &'a mut [&'a mut [u8]],
    op: Peek<'a, R, B>,
    i: int,
)
    requires
        call_ensures(Peekable::<R, B>::peek_vectored, (p, bufs), op),
        0 <= i < bufs@.len(),
        bufs@[i]@.len() > 0,
        forall|j: int| 0 <= j < i ==> bufs@[j]@.len() == 0,
    ensures
        old(op.intake.peekable).peeked() == old(p).peeked(),
        old(op.buf)@ == old(bufs)@[i]@,
        final(bufs)@.len() == old(bufs)@.len(),
        final(bufs)@[i]@ == final(op.buf)@,
        forall|j: int| 0 <= j < old(bufs)@.len() && j != i ==> final(bufs)@[j] == old(bufs)@[j],
{
    assert(is_first_non_empty(bufs@, i));
}

/// A peek that fills a slice is complete when what was peeked and what the reader
/// delivered fill it. The end of the stream is too early before that. An interrupted read
/// is tried again, and any other error of the reader is passed on.
pub proof fn peek_exact_from_call_to_end<'a, R, B: Buffer>(
    p: &'a mut Peekable<R, B>,
    buf: &'a mut [u8],
    op: PeekExact<'a, R, B>,
    rounds: Seq<Round<PeekExact<'a, R, B>>>,
)
    requires
        call_ensures(Peekable::<R, B>::peek_exact, (p, buf), op),
        is_run::<R, PeekExact<'a, R, B>>(rounds),
        rounds[0].start == op,
    ensures
        ({
            let last = rounds.last();
            let all = old(p).peeked() + all_delivered::<R, PeekExact<'a, R, B>>(rounds);
            &&& last.end.intake.peekable.peeked() == all
            &&& last.end.buf@ == all + old(buf)@.skip(all.len() as int)
            &&& match last.attempt {
                Attempt::Ready(n) => if n == 0 {
                    last.step == Settled::Done(Err(PeekError::UnexpectedEof))
                } else if all.len() == old(buf)@.len() {
                    last.step matches Settled::Done(Ok(n)) && n == old(buf)@.len()
                } else {
                    last.step is Again
                },
                Attempt::Interrupted(_) => last.step is Again,
                Attempt::Pending => last.step is Pending,
                Attempt::WouldBlock(error) | Attempt::Failed(error) => last.step == Settled::Done(
                    Err(PeekError::Io(error)),
                ),
            }
        }),
{
    peek_exact_collects_the_stream(rounds);
    peek_exact_completes_when_full(rounds);
}

/// A peek of the whole stream is complete when the reader is at its end, and the vector
/// has got all of it. An interrupted read is tried again, and any other error of the
/// reader is passed on, with the vector having got what came before.
pub proof fn peek_to_end_from_call_to_end<'a, R, B: Buffer>(
    p: &'a mut Peekable<R, B>,
    buf: &'a mut Vec<u8>,
    op: PeekToEnd<'a, R, B>,
    rounds: Seq<Round<PeekToEnd<'a, R, B>>>,
)
    requires
        call_ensures(Peekable::<R, B>::peek_to_end, (p, buf), op),
        is_run::<R, PeekToEnd<'a, R, B>>(rounds),
        rounds[0].start == op,
    ensures
        ({
            let last = rounds.last();
            let all = old(p).peeked() + all_delivered::<R, PeekToEnd<'a, R, B>>(rounds);
            &&& last.end.intake.peekable.peeked() == all
            &&& last.end.out@ == old(buf)@ + all
            &&& match last.attempt {
                Attempt::Ready(n) => if n == 0 {
                    last.step matches Settled::Done(Ok(n)) && n == all.len()
                } else {
                    last.step is Again
                },
                Attempt::Interrupted(_) => last.step is Again,
                Attempt::Pending => last.step is Pending,
                Attempt::WouldBlock(error) | Attempt::Failed(error) => last.step == Settled::Done(
                    Err(PeekError::Io(error)),
                ),
            }
        }),
{
    peek_to_end_collects_the_stream(rounds);
    peek_to_end_completes_at_the_end(rounds);
}

/// A peek of the whole stream as text is complete when the reader is at its end, and the
/// string has got all of it, unless it is not text: then the operation fails for that,
/// and the string is as it was. An interrupted read is tried again, and any other error
/// of the reader is passed on: the string has got what came before if that is text, and
/// otherwise nothing.
pub proof fn peek_to_string_from_call_to_end<'a, R, B: Buffer>(
    p: &'a mut Peekable<R, B>,
    buf: &'a mut String,
    op: PeekToString<'a, R, B>,
    rounds: Seq<Round<PeekToString<'a, R, B>>>,
)
    requires
        call_ensures(Peekable::<R, B>::peek_to_string, (p, buf), op),
        is_run::<R, PeekToString<'a, R, B>>(rounds),
        rounds[0].start == op,
    ensures
        ({
            let last = rounds.last();
            let all = old(p).peeked() + all_delivered::<R, PeekToString<'a, R, B>>(rounds);
            &&& last.end.intake.peekable.peeked() == all
            &&& match last.attempt {
                Attempt::Ready(n) => if n > 0 {
                    &&& last.step is Again
                    &&& last.end.out@ == old(buf)@
                } else if valid_utf8(all) {
                    &&& last.step matches Settled::Done(Ok(n)) && n == all.len()
                    &&& last.end.out@ == old(buf)@ + decode_utf8(all)
                } else {
                    &&& last.step matches Settled::Done(Err(PeekError::InvalidUtf8(_)))
                    &&& last.end.out@ == old(buf)@
                },
                Attempt::Interrupted(_) => last.step is Again && last.end.out@ == old(buf)@,
                Attempt::Pending => last.step is Pending && last.end.out@ == old(buf)@,
                Attempt::WouldBlock(error) | Attempt::Failed(error) => {
                    &&& last.step == Settled::Done(Err(PeekError::Io(error)))
                    &&& valid_utf8(all) ==> last.end.out@ == old(buf)@ + decode_utf8(all)
                    &&& !valid_utf8(all) ==> last.end.out@ == old(buf)@
                },
            }
        }),
{
    peek_to_string_collects_the_stream(rounds);
    peek_to_string_judges_the_whole(rounds);
}

/// Preparing a peek of the whole stream as text for the first time fails for what was
/// peeked not being text if and only if nothing that may follow can make it text.
pub proof fn peek_to_string_begins_unless_hopeless<'a, R, B: Buffer>(
    p: &'a mut Peekable<R, B>,
    buf: &'a mut String,
    op: PeekToString<'a, R, B>,
    after: PeekToString<'a, R, B>,
    step: Prepared,
)
    requires
        call_ensures(Peekable::<R, B>::peek_to_string, (p, buf), op),
        after.follows_prepare(&op, step),
    ensures
        (step matches Prepared::Done(Err(PeekError::InvalidUtf8(_)))) <==> forall|rest: Seq<u8>|
            !valid_utf8(#[trigger] (old(p).peeked() + rest)),
        step is Read ==> after.lent_out().len() > 0,
{
    assert(op.intake.peekable.peeked() == p.peeked());
    peek_to_string_rejects_only_what_nothing_completes(op, after, step);
}

/// A fill lends the reader all the room that what is peeked leaves of the capacity that
/// the peek buffer reports, and no more, and is complete with what the reader delivers.
/// An interrupted read is tried again, and any other error of the reader is passed on.
pub proof fn fill_peek_buf_from_call_to_end<'a, R, B: Buffer>(
    p: &'a mut Peekable<R, B>,
    op: FillPeekBuf<'a, R, B>,
    rounds: Seq<Round<FillPeekBuf<'a, R, B>>>,
)
    requires
        call_ensures(Peekable::<R, B>::fill_peek_buf, (p,), op),
        is_run::<R, FillPeekBuf<'a, R, B>>(rounds),
        rounds[0].start == op,
    ensures
        ({
            let last = rounds.last();
            let peeked = old(p).peeked();
            let all = peeked + all_delivered::<R, FillPeekBuf<'a, R, B>>(rounds);
            &&& exists|capacity: usize|
                #![trigger call_ensures(B::capacity, (&old(p).store(),), capacity)]
                {
                    &&& call_ensures(B::capacity, (&old(p).store(),), capacity)
                    &&& last.lent.lent_out().len() == capacity - peeked.len()
                    &&& all.len() <= capacity
                }
            &&& last.end.intake.peekable.peeked() == all
            &&& match last.attempt {
                Attempt::Ready(n) => last.step == Settled::Done(Ok(n)),
                Attempt::Pending => last.step is Pending,
                Attempt::Interrupted(_) => last.step is Again,
                Attempt::WouldBlock(error) | Attempt::Failed(error) => last.step == Settled::Done(
                    Err(PeekError::Io(error)),
                ),
            }
        }),
{
    fill_waits_for_the_first_delivery(rounds);
    fill_takes_what_the_room_allows(rounds);
}

/// A fill of a peek buffer that is full is complete at once, with nothing.
pub proof fn fill_peek_buf_of_a_full_buffer<'a, R, B: Buffer>(
    p: &'a mut Peekable<R, B>,
    op: FillPeekBuf<'a, R, B>,
    after: FillPeekBuf<'a, R, B>,
    step: Prepared,
)
    requires
        call_ensures(Peekable::<R, B>::fill_peek_buf, (p,), op),
        forall|capacity: usize|
            call_ensures(B::capacity, (&p.store(),), capacity) ==> capacity == p.peeked().len(),
        after.follows_prepare(&op, step),
    ensures
        step == Prepared::Done(Ok(0)),
        old(after.intake.peekable).peeked() == old(p).peeked(),
{
}

/// A new reader is the reader it was made of, with nothing peeked, and its peek buffer
/// has the room that is kept inline.
pub proof fn a_new_reader_has_nothing_peeked<R>(reader: R, p: Peekable<R>, capacity: usize)
    requires
        call_ensures(Peekable::<R>::new, (reader,), p),
        call_ensures(<DefaultBuffer as Buffer>::capacity, (&p.store(),), capacity),
    ensures
        p.inner() == reader,
        p.peeked().len() == 0,
        capacity >= 64,
{
}

/// A new reader that is made with a capacity is the reader it was made of, with nothing
/// peeked, and its peek buffer has that capacity.
pub proof fn a_new_reader_has_the_capacity<R>(
    reader: R,
    wanted: usize,
    p: Peekable<R>,
    capacity: usize,
)
    requires
        call_ensures(Peekable::<R>::with_capacity, (reader, wanted), p),
        call_ensures(<DefaultBuffer as Buffer>::capacity, (&p.store(),), capacity),
    ensures
        p.inner() == reader,
        p.peeked().len() == 0,
        p.requested() == Some(wanted),
        capacity >= wanted,
{
}

/// A new reader with a peek buffer of a chosen type is the reader it was made of, with
/// nothing peeked.
pub proof fn a_new_reader_with_a_buffer_has_nothing_peeked<R, B: Buffer>(
    reader: R,
    p: Peekable<R, B>,
)
    requires
        call_ensures(Peekable::<R, B>::with_buffer, (reader,), p),
    ensures
        p.inner() == reader,
        p.peeked().len() == 0,
{
}

/// A new reader with a peek buffer of a chosen type and capacity is the reader it was
/// made of, with nothing peeked. The peek buffer is one that is made with that capacity.
pub proof fn a_new_reader_has_a_buffer_of_the_capacity<R, B: Buffer>(
    reader: R,
    wanted: usize,
    p: Peekable<R, B>,
)
    requires
        call_ensures(Peekable::<R, B>::with_capacity_and_buffer, (reader, wanted), p),
    ensures
        p.inner() == reader,
        p.peeked().len() == 0,
        p.requested() == Some(wanted),
        call_ensures(B::with_capacity, (wanted,), p.store()),
{
}

/// Consuming gives all that is peeked, and leaves the reader where it was with nothing
/// peeked. If a capacity was asked for, the new peek buffer is made with it again.
pub proof fn consuming_gives_what_is_peeked<R, B: Buffer>(p: &mut Peekable<R, B>, buffer: B)
    requires
        call_ensures(Peekable::<R, B>::consume, (p,), buffer),
    ensures
        buffer.contents() == old(p).peeked(),
        final(p).peeked().len() == 0,
        final(p).inner() == old(p).inner(),
        final(p).requested() == old(p).requested(),
        old(p).requested() matches Some(wanted) ==> call_ensures(
            B::with_capacity,
            (wanted,),
            final(p).store(),
        ),
{
}

/// What is peeked and the reader can be looked at, and taken apart, as they are.
pub proof fn parts_are_what_they_are<'a, R, B: Buffer>(
    p: Peekable<R, B>,
    seen: (&'a [u8], &'a R),
    parts: (B, R),
)
    requires
        call_ensures(Peekable::<R, B>::get_ref, (&p,), seen),
        call_ensures(Peekable::<R, B>::into_components, (p,), parts),
    ensures
        seen.0@ == p.peeked(),
        *seen.1 == p.inner(),
        parts.0.contents() == p.peeked(),
        parts.1 == p.inner(),
{
}

} // verus!
