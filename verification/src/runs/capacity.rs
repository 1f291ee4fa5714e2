//! A vector never loses capacity.
use super::{is_round, Round};
use crate::buffer::{vec_reports, Buffer};
use crate::ops::{FillPeekBuf, Peek, PeekExact, PeekToEnd, PeekToString, PeekedRead};
use crate::sync::Peekable;
use crate::{future, tokio};
use std::ops::RangeTo;
use vstd::prelude::*;

verus! {

/// Whether a vector has room for `n` bytes: whatever capacity it reports is that much
/// or more.
pub open spec fn has_room_for(v: Vec<u8>, n: nat) -> bool {
    forall|c: usize| #[trigger] vec_reports(v, c) ==> c >= n
}

/// A vector that is made with a capacity has it.
pub proof fn a_new_vector_has_room(capacity: usize, v: Vec<u8>)
    requires
        call_ensures(<Vec<u8> as Buffer>::with_capacity, (capacity,), v),
    ensures
        has_room_for(v, capacity as nat),
{
}

/// What `capacity` returns is what the vector reports, so it is no less than what the
/// vector has room for.
pub proof fn the_capacity_is_what_there_is_room_for(v: Vec<u8>, capacity: usize, n: nat)
    requires
        call_ensures(<Vec<u8> as Buffer>::capacity, (&v,), capacity),
        has_room_for(v, n),
    ensures
        vec_reports(v, capacity),
        capacity >= n,
{
}

/// A vector keeps its room when it is cleared.
pub proof fn clearing_keeps_room(v: &mut Vec<u8>, n: nat)
    requires
        call_ensures(<Vec<u8> as Buffer>::clear, (v,), ()),
        has_room_for(*v, n),
    ensures
        has_room_for(*final(v), n),
{
    assert(v.has_room(n));
    assert(final(v).has_room(n));
}

/// A vector keeps its room when it is shortened.
pub proof fn truncating_keeps_room(v: &mut Vec<u8>, len: usize, n: nat)
    requires
        call_ensures(<Vec<u8> as Buffer>::truncate, (v, len), ()),
        has_room_for(*v, n),
    ensures
        has_room_for(*final(v), n),
{
    assert(v.has_room(n));
    assert(final(v).has_room(n));
}

/// A vector keeps its room when bytes are taken from its front.
pub proof fn consuming_keeps_room(v: &mut Vec<u8>, range: RangeTo<usize>, n: nat)
    requires
        call_ensures(<Vec<u8> as Buffer>::consume, (v, range), ()),
        has_room_for(*v, n),
    ensures
        has_room_for(*final(v), n),
{
    assert(v.has_room(n));
    assert(final(v).has_room(n));
}

/// A vector keeps its room when it is resized.
pub proof fn resizing_keeps_room(v: &mut Vec<u8>, len: usize, result: std::io::Result<()>, n: nat)
    requires
        call_ensures(<Vec<u8> as Buffer>::resize, (v, len), result),
        has_room_for(*v, n),
    ensures
        has_room_for(*final(v), n),
{
    assert(v.has_room(n));
    assert(final(v).has_room(n));
}

/// A vector keeps its room when bytes are appended to it.
pub proof fn extending_keeps_room(
    v: &mut Vec<u8>,
    other: &[u8],
    result: std::io::Result<()>,
    n: nat,
)
    requires
        call_ensures(<Vec<u8> as Buffer>::extend_from_slice, (v, other), result),
        has_room_for(*v, n),
    ensures
        has_room_for(*final(v), n),
{
    assert(v.has_room(n));
    assert(final(v).has_room(n));
}

/// A peek leaves a vector as peek buffer the room that it had,
/// whatever the reader does: once the read is settled the vector has been made to keep
/// all that it reported before.
pub proof fn peek_keeps_room<'a, R>(
    round: Round<Peek<'a, R, Vec<u8>>>,
    store: &mut Vec<u8>,
    n: nat,
)
    requires
        is_round::<R, Peek<'a, R, Vec<u8>>>(round),
        has_room_for(round.start.intake.peekable.store(), n),
        call_ensures(
            <Vec<u8> as Buffer>::keep_capacity,
            (store, round.lent.intake.capacity),
            (),
        ),
        *final(store) == round.end.intake.peekable.store(),
    ensures
        has_room_for(old(round.end.intake.peekable).store(), n),
{
    assert(round.start.intake.peekable.store().has_room(n));
    assert(n <= round.lent.intake.capacity);
}

/// A peek that fills a slice leaves a vector as peek buffer the room that it had,
/// whatever the reader does: once the read is settled the vector has been made to keep
/// all that it reported before.
pub proof fn peek_exact_keeps_room<'a, R>(
    round: Round<PeekExact<'a, R, Vec<u8>>>,
    store: &mut Vec<u8>,
    n: nat,
)
    requires
        is_round::<R, PeekExact<'a, R, Vec<u8>>>(round),
        has_room_for(round.start.intake.peekable.store(), n),
        call_ensures(
            <Vec<u8> as Buffer>::keep_capacity,
            (store, round.lent.intake.capacity),
            (),
        ),
        *final(store) == round.end.intake.peekable.store(),
    ensures
        has_room_for(old(round.end.intake.peekable).store(), n),
{
    assert(round.start.intake.peekable.store().has_room(n));
    assert(n <= round.lent.intake.capacity);
}

/// A peek of the whole stream leaves a vector as peek buffer the room that it had,
/// whatever the reader does: once the read is settled the vector has been made to keep
/// all that it reported before.
pub proof fn peek_to_end_keeps_room<'a, R>(
    round: Round<PeekToEnd<'a, R, Vec<u8>>>,
    store: &mut Vec<u8>,
    n: nat,
)
    requires
        is_round::<R, PeekToEnd<'a, R, Vec<u8>>>(round),
        has_room_for(round.start.intake.peekable.store(), n),
        call_ensures(
            <Vec<u8> as Buffer>::keep_capacity,
            (store, round.lent.intake.capacity),
            (),
        ),
        *final(store) == round.end.intake.peekable.store(),
    ensures
        has_room_for(old(round.end.intake.peekable).store(), n),
{
    assert(round.start.intake.peekable.store().has_room(n));
    assert(n <= round.lent.intake.capacity);
}

/// A peek of the whole stream as text leaves a vector as peek buffer the room that it had,
/// whatever the reader does: once the read is settled the vector has been made to keep
/// all that it reported before.
pub proof fn peek_to_string_keeps_room<'a, R>(
    round: Round<PeekToString<'a, R, Vec<u8>>>,
    store: &mut Vec<u8>,
    n: nat,
)
    requires
        is_round::<R, PeekToString<'a, R, Vec<u8>>>(round),
        has_room_for(round.start.intake.peekable.store(), n),
        call_ensures(
            <Vec<u8> as Buffer>::keep_capacity,
            (store, round.lent.intake.capacity),
            (),
        ),
        *final(store) == round.end.intake.peekable.store(),
    ensures
        has_room_for(old(round.end.intake.peekable).store(), n),
{
    assert(round.start.intake.peekable.store().has_room(n));
    assert(n <= round.lent.intake.capacity);
}

/// A fill leaves a vector as peek buffer the room that it had,
/// whatever the reader does: once the read is settled the vector has been made to keep
/// all that it reported before.
pub proof fn fill_peek_buf_keeps_room<'a, R>(
    round: Round<FillPeekBuf<'a, R, Vec<u8>>>,
    store: &mut Vec<u8>,
    n: nat,
)
    requires
        is_round::<R, FillPeekBuf<'a, R, Vec<u8>>>(round),
        has_room_for(round.start.intake.peekable.store(), n),
        call_ensures(
            <Vec<u8> as Buffer>::keep_capacity,
            (store, round.lent.intake.capacity),
            (),
        ),
        *final(store) == round.end.intake.peekable.store(),
    ensures
        has_room_for(old(round.end.intake.peekable).store(), n),
{
    assert(round.start.intake.peekable.store().has_room(n));
    assert(n <= round.lent.intake.capacity);
}

/// A read leaves a vector as peek buffer the room that it had, whatever the reader does.
pub proof fn read_keeps_room<'a, R>(round: Round<PeekedRead<'a, R, Vec<u8>>>, n: nat)
    requires
        is_round::<R, PeekedRead<'a, R, Vec<u8>>>(round),
        has_room_for(round.start.peekable.store(), n),
    ensures
        has_room_for(old(round.end.peekable).store(), n),
{
    assert(round.start.peekable.store().has_room(n));
    assert(round.asked.peekable.store().has_room(n));
    assert(round.end.peekable.store().has_room(n));
}

/// Forgetting in place what a blocking reader has peeked leaves a vector as its peek
/// buffer empty, with the room that it had.
pub proof fn consuming_in_place_keeps_room_blocking<R>(p: &mut Peekable<R, Vec<u8>>, n: nat)
    requires
        call_ensures(Peekable::<R, Vec<u8>>::consume_in_place, (p,), ()),
        has_room_for(p.store(), n),
    ensures
        has_room_for(final(p).store(), n),
        final(p).peeked().len() == 0,
        final(p).inner() == old(p).inner(),
{
    assert(p.store().has_room(n));
    assert(final(p).store().has_room(n));
}

/// Filling a vector as the peek buffer of a blocking reader goes by all the room that
/// the vector has.
pub proof fn filling_goes_by_the_room_blocking<'a, R>(
    p: &'a mut Peekable<R, Vec<u8>>,
    op: FillPeekBuf<'a, R, Vec<u8>>,
    n: nat,
)
    requires
        call_ensures(Peekable::<R, Vec<u8>>::fill_peek_buf, (p,), op),
        has_room_for(p.store(), n),
    ensures
        op.cap >= n,
        vec_reports(old(p).store(), op.cap),
        old(op.intake.peekable).peeked() == old(p).peeked(),
{
    assert(p.store().has_room(n));
}

/// Forgetting in place what a reader in the manner of `futures` has peeked leaves a vector as its peek
/// buffer empty, with the room that it had.
pub proof fn consuming_in_place_keeps_room_future<R>(p: &mut future::AsyncPeekable<R, Vec<u8>>, n: nat)
    requires
        call_ensures(future::AsyncPeekable::<R, Vec<u8>>::consume_in_place, (p,), ()),
        has_room_for(p.store(), n),
    ensures
        has_room_for(final(p).store(), n),
        final(p).peeked().len() == 0,
        final(p).inner() == old(p).inner(),
{
    assert(p.store().has_room(n));
    assert(final(p).store().has_room(n));
}

/// Filling a vector as the peek buffer of a reader in the manner of `futures` goes by all the room that
/// the vector has.
pub proof fn filling_goes_by_the_room_future<'a, R>(
    p: &'a mut future::AsyncPeekable<R, Vec<u8>>,
    op: FillPeekBuf<'a, R, Vec<u8>>,
    n: nat,
)
    requires
        call_ensures(future::AsyncPeekable::<R, Vec<u8>>::fill_peek_buf, (p,), op),
        has_room_for(p.store(), n),
    ensures
        op.cap >= n,
        vec_reports(old(p).store(), op.cap),
        old(op.intake.peekable).peeked() == old(p).peeked(),
{
    assert(p.store().has_room(n));
}

/// Forgetting in place what a reader in the manner of `tokio` has peeked leaves a vector as its peek
/// buffer empty, with the room that it had.
pub proof fn consuming_in_place_keeps_room_tokio<R>(p: &mut tokio::AsyncPeekable<R, Vec<u8>>, n: nat)
    requires
        call_ensures(tokio::AsyncPeekable::<R, Vec<u8>>::consume_in_place, (p,), ()),
        has_room_for(p.store(), n),
    ensures
        has_room_for(final(p).store(), n),
        final(p).peeked().len() == 0,
        final(p).inner() == old(p).inner(),
{
    assert(p.store().has_room(n));
    assert(final(p).store().has_room(n));
}

/// Filling a vector as the peek buffer of a reader in the manner of `tokio` goes by all the room that
/// the vector has.
pub proof fn filling_goes_by_the_room_tokio<'a, R>(
    p: &'a mut tokio::AsyncPeekable<R, Vec<u8>>,
    op: FillPeekBuf<'a, R, Vec<u8>>,
    n: nat,
)
    requires
        call_ensures(tokio::AsyncPeekable::<R, Vec<u8>>::fill_peek_buf, (p,), op),
        has_room_for(p.store(), n),
    ensures
        op.cap >= n,
        vec_reports(old(p).store(), op.cap),
        old(op.intake.peekable).peeked() == old(p).peeked(),
{
    assert(p.store().has_room(n));
}

} // verus!
