//! A peek buffer on top of `tinyvec`.
use super::{resized, truncated, Buffer, MAX_CAPACITY, MAX_LEN};
use std::ops::RangeTo;
use vstd::prelude::*;

verus! {

/// How many bytes a [`TinyBuffer`] keeps inline.
pub const TINY_INLINE: usize = 16;

/// A peek buffer that keeps up to 16 bytes inline, in a
/// `tinyvec::TinyVec<[u8; 16]>`.
#[verifier::external_body]
#[derive(Debug)]
pub struct TinyBuffer {
    inner: tinyvec::TinyVec<[u8; TINY_INLINE]>,
}

/// The bytes in a [`TinyBuffer`].
pub uninterp spec fn tiny_contents(buffer: TinyBuffer) -> Seq<u8>;

/// How many bytes a [`TinyBuffer`] is certain to have room for, by how it was made.
pub uninterp spec fn tiny_room(buffer: TinyBuffer) -> nat;

/// Whether `capacity` is what `TinyVec::capacity` may return of a [`TinyBuffer`].
pub closed spec fn tiny_reports(buffer: TinyBuffer, capacity: usize) -> bool {
    call_ensures(tiny_capacity, (&buffer,), capacity)
}

/// Whether a [`TinyBuffer`] has the capacity for `len` bytes: what `TinyVec::capacity`
/// returns is that much or more.
pub closed spec fn tiny_allows(buffer: TinyBuffer, len: nat) -> bool {
    exists|capacity: usize| len <= capacity && #[trigger] tiny_reports(buffer, capacity)
}

/// `TinyVec::new`: an empty vector, with room for as many bytes as are kept inline.
#[verifier::external_body]
fn tiny_new() -> (buffer: TinyBuffer)
    ensures
        tiny_contents(buffer) == Seq::<u8>::empty(),
        tiny_room(buffer) >= TINY_INLINE,
{
    TinyBuffer { inner: tinyvec::TinyVec::new() }
}

/// `TinyVec::with_capacity`: an empty vector with room set aside for at least
/// `capacity` bytes.
#[verifier::external_body]
fn tiny_with_capacity(capacity: usize) -> (buffer: TinyBuffer)
    requires
        capacity <= MAX_CAPACITY,
    ensures
        tiny_contents(buffer) == Seq::<u8>::empty(),
        tiny_room(buffer) >= capacity,
{
    TinyBuffer { inner: tinyvec::TinyVec::with_capacity(capacity) }
}

/// `TinyVec::drain` of `..n`, whose iterator is dropped at once: the first
/// `n` bytes are gone and the others have moved to the front.
/// No room is given up.
#[verifier::external_body]
fn tiny_drain_front(buffer: &mut TinyBuffer, n: usize)
    requires
        n <= tiny_contents(*old(buffer)).len(),
    ensures
        tiny_contents(*final(buffer)) == tiny_contents(*old(buffer)).skip(n as int),
        tiny_room(*final(buffer)) >= tiny_room(*old(buffer)),
        forall|n: nat| #[trigger]
            tiny_allows(*old(buffer), n) ==> tiny_allows(*final(buffer), n),
{
    buffer.inner.drain(..n);
}

/// `TinyVec::clear`: no bytes are left.
/// No room is given up.
#[verifier::external_body]
fn tiny_clear(buffer: &mut TinyBuffer)
    ensures
        tiny_contents(*final(buffer)) == Seq::<u8>::empty(),
        tiny_room(*final(buffer)) >= tiny_room(*old(buffer)),
        forall|n: nat| #[trigger]
            tiny_allows(*old(buffer), n) ==> tiny_allows(*final(buffer), n),
{
    buffer.inner.clear();
}

/// `TinyVec::resize` with the value 0: cut to `len`, or filled up with zeros. A
/// vector that has the capacity already is not reallocated, however long it is.
/// No room is given up.
#[verifier::external_body]
fn tiny_resize(buffer: &mut TinyBuffer, len: usize)
    requires
        len <= MAX_LEN || tiny_allows(*old(buffer), len as nat),
    ensures
        tiny_contents(*final(buffer)) == resized(tiny_contents(*old(buffer)), len as nat),
        tiny_room(*final(buffer)) >= tiny_room(*old(buffer)),
        forall|n: nat| #[trigger]
            tiny_allows(*old(buffer), n) ==> tiny_allows(*final(buffer), n),
{
    buffer.inner.resize(len, 0);
}

/// `TinyVec::truncate`: the first `len` bytes stay; nothing happens if there
/// are no more than that.
/// No room is given up.
#[verifier::external_body]
fn tiny_truncate(buffer: &mut TinyBuffer, len: usize)
    ensures
        tiny_contents(*final(buffer)) == truncated(tiny_contents(*old(buffer)), len as nat),
        tiny_room(*final(buffer)) >= tiny_room(*old(buffer)),
        forall|n: nat| #[trigger]
            tiny_allows(*old(buffer), n) ==> tiny_allows(*final(buffer), n),
{
    buffer.inner.truncate(len);
}

/// `TinyVec::extend_from_slice`: a copy of `other` is appended.
/// No room is given up.
#[verifier::external_body]
fn tiny_extend_from_slice(buffer: &mut TinyBuffer, other: &[u8])
    requires
        tiny_contents(*old(buffer)).len() + other@.len() <= MAX_LEN,
    ensures
        tiny_contents(*final(buffer)) == tiny_contents(*old(buffer)) + other@,
        tiny_room(*final(buffer)) >= tiny_room(*old(buffer)),
        forall|n: nat| #[trigger]
            tiny_allows(*old(buffer), n) ==> tiny_allows(*final(buffer), n),
{
    buffer.inner.extend_from_slice(other);
}

/// `TinyVec::as_slice`: all bytes of the vector, in order.
#[verifier::external_body]
fn tiny_as_slice(buffer: &TinyBuffer) -> (slice: &[u8])
    ensures
        slice@ == tiny_contents(*buffer),
{
    buffer.inner.as_slice()
}

/// `TinyVec::as_mut_slice`: all bytes of the vector, in order. What is
/// written to the slice is written to the vector.
/// No room is given up.
#[verifier::external_body]
fn tiny_as_mut_slice(buffer: &mut TinyBuffer) -> (slice: &mut [u8])
    ensures
        slice@ == tiny_contents(*old(buffer)),
        tiny_contents(*final(buffer)) == final(slice)@,
        tiny_room(*final(buffer)) >= tiny_room(*old(buffer)),
        forall|n: nat| #[trigger]
            tiny_allows(*old(buffer), n) ==> tiny_allows(*final(buffer), n),
{
    buffer.inner.as_mut_slice()
}

/// `TinyVec::len`: the number of bytes in the vector.
#[verifier::external_body]
fn tiny_len(buffer: &TinyBuffer) -> (len: usize)
    ensures
        len == tiny_contents(*buffer).len(),
{
    buffer.inner.len()
}

/// `TinyVec::capacity`: how many bytes fit without reallocating, which is
/// never less than how many there are, nor than how many room was set aside for.
#[verifier::external_body]
fn tiny_capacity(buffer: &TinyBuffer) -> (capacity: usize)
    ensures
        capacity >= tiny_contents(*buffer).len(),
        capacity >= tiny_room(*buffer),
{
    buffer.inner.capacity()
}

impl Buffer for TinyBuffer {
    open spec fn contents(&self) -> Seq<u8> {
        tiny_contents(*self)
    }

    open spec fn allows(&self, len: nat) -> bool {
        tiny_allows(*self, len)
    }

    open spec fn grows_to(&self, len: nat) -> bool {
        len <= MAX_LEN
    }

    open spec fn has_room(&self, n: nat) -> bool {
        n <= self.room()
    }

    open spec fn refuses_with(&self, len: nat, error: std::io::Error) -> bool {
        false
    }

    open spec fn room(&self) -> nat {
        tiny_room(*self)
    }

    open spec fn keeps_room() -> bool {
        true
    }

    fn new() -> (buffer: Self)
        ensures
            buffer.room() >= TINY_INLINE,
    {
        tiny_new()
    }

    fn with_capacity(capacity: usize) -> (buffer: Self) {
        tiny_with_capacity(capacity)
    }

    fn consume(&mut self, rng: RangeTo<usize>) {
        tiny_drain_front(self, rng.end);
    }

    fn clear(&mut self) {
        tiny_clear(self);
    }

    fn resize(&mut self, len: usize) -> (result: std::io::Result<()>) {
        tiny_resize(self, len);
        Ok(())
    }

    fn truncate(&mut self, len: usize) {
        tiny_truncate(self, len);
    }

    fn extend_from_slice(&mut self, other: &[u8]) -> (result: std::io::Result<()>) {
        tiny_extend_from_slice(self, other);
        Ok(())
    }

    fn as_slice(&self) -> (slice: &[u8]) {
        tiny_as_slice(self)
    }

    fn as_mut_slice(&mut self) -> (slice: &mut [u8]) {
        tiny_as_mut_slice(self)
    }

    fn len(&self) -> (len: usize) {
        tiny_len(self)
    }

    fn is_empty(&self) -> (empty: bool) {
        tiny_len(self) == 0
    }

    fn capacity(&self) -> (capacity: usize)
        ensures
            tiny_reports(*self, capacity),
    {
        let capacity: usize = tiny_capacity(self);
        assert(tiny_reports(*self, capacity));
        capacity
    }
}

} // verus!
