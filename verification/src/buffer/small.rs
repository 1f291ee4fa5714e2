//! A peek buffer on top of `smallvec`.
use super::{resized, truncated, Buffer, MAX_CAPACITY, MAX_LEN};
use std::ops::RangeTo;
use vstd::prelude::*;

verus! {

/// How many bytes a [`SmallBuffer`] keeps inline.
pub const SMALL_INLINE: usize = 64;

/// A peek buffer that keeps up to 64 bytes inline, in a
/// `smallvec::SmallVec<[u8; 64]>`.
#[verifier::external_body]
#[derive(Debug)]
pub struct SmallBuffer {
    inner: smallvec::SmallVec<[u8; SMALL_INLINE]>,
}

/// The bytes in a [`SmallBuffer`].
pub uninterp spec fn small_contents(buffer: SmallBuffer) -> Seq<u8>;

/// How many bytes a [`SmallBuffer`] is certain to have room for, by how it was made.
pub uninterp spec fn small_room(buffer: SmallBuffer) -> nat;

/// Whether `capacity` is what `SmallVec::capacity` may return of a [`SmallBuffer`].
pub closed spec fn small_reports(buffer: SmallBuffer, capacity: usize) -> bool {
    call_ensures(small_capacity, (&buffer,), capacity)
}

/// Whether a [`SmallBuffer`] has the capacity for `len` bytes: what `SmallVec::capacity`
/// returns is that much or more.
pub closed spec fn small_allows(buffer: SmallBuffer, len: nat) -> bool {
    exists|capacity: usize| len <= capacity && #[trigger] small_reports(buffer, capacity)
}

/// `SmallVec::new`: an empty vector, with room for as many bytes as are kept inline.
#[verifier::external_body]
fn small_new() -> (buffer: SmallBuffer)
    ensures
        small_contents(buffer) == Seq::<u8>::empty(),
        small_room(buffer) >= SMALL_INLINE,
{
    SmallBuffer { inner: smallvec::SmallVec::new() }
}

/// `SmallVec::with_capacity`: an empty vector with room set aside for at least
/// `capacity` bytes.
#[verifier::external_body]
fn small_with_capacity(capacity: usize) -> (buffer: SmallBuffer)
    requires
        capacity <= MAX_CAPACITY,
    ensures
        small_contents(buffer) == Seq::<u8>::empty(),
        small_room(buffer) >= capacity,
{
    SmallBuffer { inner: smallvec::SmallVec::with_capacity(capacity) }
}

/// `SmallVec::drain` of `..n`, whose iterator is dropped at once: the first
/// `n` bytes are gone and the others have moved to the front.
/// No room is given up.
#[verifier::external_body]
fn small_drain_front(buffer: &mut SmallBuffer, n: usize)
    requires
        n <= small_contents(*old(buffer)).len(),
    ensures
        small_contents(*final(buffer)) == small_contents(*old(buffer)).skip(n as int),
        small_room(*final(buffer)) >= small_room(*old(buffer)),
        forall|n: nat| #[trigger]
            small_allows(*old(buffer), n) ==> small_allows(*final(buffer), n),
{
    buffer.inner.drain(..n);
}

/// `SmallVec::clear`: no bytes are left.
/// No room is given up.
#[verifier::external_body]
fn small_clear(buffer: &mut SmallBuffer)
    ensures
        small_contents(*final(buffer)) == Seq::<u8>::empty(),
        small_room(*final(buffer)) >= small_room(*old(buffer)),
        forall|n: nat| #[trigger]
            small_allows(*old(buffer), n) ==> small_allows(*final(buffer), n),
{
    buffer.inner.clear();
}

/// `SmallVec::resize` with the value 0: cut to `len`, or filled up with zeros. A
/// vector that has the capacity already is not reallocated, however long it is.
/// No room is given up.
#[verifier::external_body]
fn small_resize(buffer: &mut SmallBuffer, len: usize)
    requires
        len <= MAX_LEN || small_allows(*old(buffer), len as nat),
    ensures
        small_contents(*final(buffer)) == resized(small_contents(*old(buffer)), len as nat),
        small_room(*final(buffer)) >= small_room(*old(buffer)),
        forall|n: nat| #[trigger]
            small_allows(*old(buffer), n) ==> small_allows(*final(buffer), n),
{
    buffer.inner.resize(len, 0);
}

/// `SmallVec::truncate`: the first `len` bytes stay; nothing happens if there
/// are no more than that.
/// No room is given up.
#[verifier::external_body]
fn small_truncate(buffer: &mut SmallBuffer, len: usize)
    ensures
        small_contents(*final(buffer)) == truncated(small_contents(*old(buffer)), len as nat),
        small_room(*final(buffer)) >= small_room(*old(buffer)),
        forall|n: nat| #[trigger]
            small_allows(*old(buffer), n) ==> small_allows(*final(buffer), n),
{
    buffer.inner.truncate(len);
}

/// `SmallVec::extend_from_slice`: a copy of `other` is appended.
/// No room is given up.
#[verifier::external_body]
fn small_extend_from_slice(buffer: &mut SmallBuffer, other: &[u8])
    requires
        small_contents(*old(buffer)).len() + other@.len() <= MAX_LEN,
    ensures
        small_contents(*final(buffer)) == small_contents(*old(buffer)) + other@,
        small_room(*final(buffer)) >= small_room(*old(buffer)),
        forall|n: nat| #[trigger]
            small_allows(*old(buffer), n) ==> small_allows(*final(buffer), n),
{
    buffer.inner.extend_from_slice(other);
}

/// `SmallVec::as_slice`: all bytes of the vector, in order.
#[verifier::external_body]
fn small_as_slice(buffer: &SmallBuffer) -> (slice: &[u8])
    ensures
        slice@ == small_contents(*buffer),
{
    buffer.inner.as_slice()
}

/// `SmallVec::as_mut_slice`: all bytes of the vector, in order. What is
/// written to the slice is written to the vector.
/// No room is given up.
#[verifier::external_body]
fn small_as_mut_slice(buffer: &mut SmallBuffer) -> (slice: &mut [u8])
    ensures
        slice@ == small_contents(*old(buffer)),
        small_contents(*final(buffer)) == final(slice)@,
        small_room(*final(buffer)) >= small_room(*old(buffer)),
        forall|n: nat| #[trigger]
            small_allows(*old(buffer), n) ==> small_allows(*final(buffer), n),
{
    buffer.inner.as_mut_slice()
}

/// `SmallVec::len`: the number of bytes in the vector.
#[verifier::external_body]
fn small_len(buffer: &SmallBuffer) -> (len: usize)
    ensures
        len == small_contents(*buffer).len(),
{
    buffer.inner.len()
}

/// `SmallVec::capacity`: how many bytes fit without reallocating, which is
/// never less than how many there are, nor than how many room was set aside for.
#[verifier::external_body]
fn small_capacity(buffer: &SmallBuffer) -> (capacity: usize)
    ensures
        capacity >= small_contents(*buffer).len(),
        capacity >= small_room(*buffer),
{
    buffer.inner.capacity()
}

impl Buffer for SmallBuffer {
    open spec fn contents(&self) -> Seq<u8> {
        small_contents(*self)
    }

    open spec fn allows(&self, len: nat) -> bool {
        small_allows(*self, len)
    }

    open spec fn grows_to(&self, len: nat) -> bool {
        len <= MAX_LEN
    }

    open spec fn has_room(&self, n: nat) -> bool {
        n <= self.room()
    }

    open spec fn refuses_with(&self, len: nat, error: std::io::Error) -> bool {
        false
    }

    open spec fn room(&self) -> nat {
        small_room(*self)
    }

    open spec fn keeps_room() -> bool {
        true
    }

    fn new() -> (buffer: Self)
        ensures
            buffer.room() >= SMALL_INLINE,
    {
        small_new()
    }

    fn with_capacity(capacity: usize) -> (buffer: Self) {
        small_with_capacity(capacity)
    }

    fn consume(&mut self, rng: RangeTo<usize>) {
        small_drain_front(self, rng.end);
    }

    fn clear(&mut self) {
        small_clear(self);
    }

    fn resize(&mut self, len: usize) -> (result: std::io::Result<()>) {
        small_resize(self, len);
        Ok(())
    }

    fn truncate(&mut self, len: usize) {
        small_truncate(self, len);
    }

    fn extend_from_slice(&mut self, other: &[u8]) -> (result: std::io::Result<()>) {
        small_extend_from_slice(self, other);
        Ok(())
    }

    fn as_slice(&self) -> (slice: &[u8]) {
        small_as_slice(self)
    }

    fn as_mut_slice(&mut self) -> (slice: &mut [u8]) {
        small_as_mut_slice(self)
    }

    fn len(&self) -> (len: usize) {
        small_len(self)
    }

    fn is_empty(&self) -> (empty: bool) {
        small_len(self) == 0
    }

    fn capacity(&self) -> (capacity: usize)
        ensures
            small_reports(*self, capacity),
    {
        let capacity: usize = small_capacity(self);
        assert(small_reports(*self, capacity));
        capacity
    }
}

} // verus!
