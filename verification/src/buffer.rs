//! The storage behind a peekable reader.
//!
//! [`Buffer`] is the trait that a peek buffer implements. It comes with three
//! implementations: `Vec<u8>`, [`SmallBuffer`] (bytes kept inline until they
//! outgrow the inline space, after which they move to the heap) and
//! [`TinyBuffer`] (the same idea with a smaller inline space).
use std::ops::RangeTo;
use vstd::prelude::*;

mod small;
mod tiny;

pub use small::{small_reports, SmallBuffer, SMALL_INLINE};
pub use tiny::{tiny_reports, TinyBuffer, TINY_INLINE};

verus! {

/// The longest peek buffer, in bytes.
///
/// Growing a vector rounds its capacity up to the next power of two, and an
/// allocation may not exceed `isize::MAX` bytes. Up to this length neither
/// limit is ever hit, whatever the storage.
pub const MAX_LEN: usize = usize::MAX / 4;

/// The largest capacity that a peek buffer can be asked for, in bytes: an
/// allocation may not exceed `isize::MAX` bytes.
pub const MAX_CAPACITY: usize = usize::MAX / 2;

/// `std::ops::RangeTo`, the type of `..end`, with its public field `end`.
#[verifier::external_type_specification]
#[verifier::reject_recursive_types(Idx)]
pub struct ExRangeTo<Idx>(std::ops::RangeTo<Idx>);

/// `n` zero bytes.
pub open spec fn zeros(n: nat) -> Seq<u8> {
    Seq::new(n, |i: int| 0u8)
}

/// `bytes` brought to length `len`: cut at the end, or filled up with zeros.
pub open spec fn resized(bytes: Seq<u8>, len: nat) -> Seq<u8> {
    if len <= bytes.len() {
        bytes.take(len as int)
    } else {
        bytes + zeros((len - bytes.len()) as nat)
    }
}

/// `bytes` cut to `len` bytes, or unchanged if they are no longer than that.
pub open spec fn truncated(bytes: Seq<u8>, len: nat) -> Seq<u8> {
    if len <= bytes.len() {
        bytes.take(len as int)
    } else {
        bytes
    }
}

/// Cutting undoes growing: the bytes that were there are all that is left.
pub proof fn truncating_undoes_growing(bytes: Seq<u8>, len: nat)
    requires
        bytes.len() <= len,
    ensures
        truncated(resized(bytes, len), bytes.len()) == bytes,
{
}

/// Resizing gives the length that was asked for, changes no byte that is there before
/// and after, and adds only zeros.
pub proof fn resizing_changes_only_the_end(bytes: Seq<u8>, len: nat, i: int)
    requires
        0 <= i < len,
    ensures
        resized(bytes, len).len() == len,
        resized(bytes, len)[i] == if i < bytes.len() {
            bytes[i]
        } else {
            0u8
        },
{
}

/// Cutting leaves a beginning, as long as was asked for if there is that much.
pub proof fn truncating_leaves_a_beginning(bytes: Seq<u8>, len: nat)
    ensures
        truncated(bytes, len).is_prefix_of(bytes),
        len <= bytes.len() ==> truncated(bytes, len).len() == len,
        len >= bytes.len() ==> truncated(bytes, len) == bytes,
{
}

/// The limits are a matter of how much can be addressed: what a peek buffer may not
/// hold is at least a quarter of it, and what may not be set aside at least half.
pub proof fn limits_are_far_off(len: nat)
    ensures
        4 * len < usize::MAX ==> len <= MAX_LEN,
        2 * len < usize::MAX ==> len <= MAX_CAPACITY,
{
}

/// A growable sequence of bytes that a peekable reader keeps what it has
/// peeked in.
pub trait Buffer {
    /// The bytes in the buffer.
    ///
    /// An implementation that is not verified itself need not say.
    open spec fn contents(&self) -> Seq<u8> {
        arbitrary()
    }

    /// Whether this buffer may be asked for a length of `len` bytes though that is
    /// more than `MAX_LEN`. It always may where it has the capacity already.
    open spec fn allows(&self, len: nat) -> bool {
        true
    }

    /// Whether this buffer is certain to accept a length of `len` bytes.
    ///
    /// Where this is false, `resize` and `extend_from_slice` may still succeed.
    open spec fn grows_to(&self, len: nat) -> bool {
        false
    }

    /// How many bytes the buffer is certain to have room for, by how it was made.
    open spec fn room(&self) -> nat {
        0
    }

    /// Whether this buffer may accept a length of `len` bytes at all.
    ///
    /// Where this is false, `resize` and `extend_from_slice` are certain to fail.
    open spec fn may_grow_to(&self, len: nat) -> bool {
        true
    }

    /// Whether `error` is one that this buffer may refuse a length of `len` bytes
    /// with.
    ///
    /// An implementation that is not verified itself need not say.
    open spec fn refuses_with(&self, len: nat, error: std::io::Error) -> bool {
        true
    }

    /// Whether the buffer is certain to have a capacity of `n` bytes: whatever
    /// `capacity` returns is that much or more.
    ///
    /// An implementation that is not verified itself need not say.
    open spec fn has_room(&self, n: nat) -> bool {
        n == 0
    }

    /// Whether a buffer of this type is certain to have the room it is made with,
    /// and keeps it while its bytes are written to.
    open spec fn keeps_room() -> bool {
        false
    }

    /// Creates a new empty buffer.
    fn new() -> (buffer: Self) where Self: Sized
        ensures
            buffer.contents() == Seq::<u8>::empty(),
    ;

    /// Creates a new empty buffer that is meant to hold `capacity` bytes.
    fn with_capacity(capacity: usize) -> (buffer: Self) where Self: Sized
        requires
            capacity <= MAX_CAPACITY,
        ensures
            buffer.contents() == Seq::<u8>::empty(),
            Self::keeps_room() ==> buffer.room() >= capacity,
    ;

    /// Removes the range from the buffer; the remaining bytes are shifted to
    /// the left.
    fn consume(&mut self, rng: RangeTo<usize>)
        requires
            rng.end <= old(self).contents().len(),
        ensures
            final(self).contents() == old(self).contents().skip(rng.end as int),
            final(self).room() >= old(self).room(),
            forall|n: nat| #[trigger] old(self).has_room(n) ==> final(self).has_room(n),
            forall|n: nat| #[trigger] old(self).allows(n) ==> final(self).allows(n),
    ;

    /// Removes all bytes from the buffer.
    fn clear(&mut self)
        ensures
            final(self).contents() == Seq::<u8>::empty(),
            final(self).room() >= old(self).room(),
            forall|n: nat| #[trigger] old(self).has_room(n) ==> final(self).has_room(n),
            forall|n: nat| #[trigger] old(self).allows(n) ==> final(self).allows(n),
    ;

    /// Resizes the buffer so that its length is `len`. Bytes that are added
    /// are zero. A buffer that refuses to grow is left as it was.
    fn resize(&mut self, len: usize) -> (result: std::io::Result<()>)
        requires
            len <= MAX_LEN || old(self).allows(len as nat),
        ensures
            result is Ok ==> final(self).contents() == resized(old(self).contents(), len as nat),
            result is Err ==> final(self).contents() == old(self).contents(),
            result matches Err(error) ==> old(self).refuses_with(len as nat, error),
            result is Err ==> forall|n: nat| #[trigger]
                final(self).grows_to(n) == old(self).grows_to(n),
            result is Err ==> forall|n: nat| #[trigger]
                final(self).may_grow_to(n) == old(self).may_grow_to(n),
            result is Err ==> forall|n: nat, e: std::io::Error| #[trigger]
                final(self).refuses_with(n, e) == old(self).refuses_with(n, e),
            old(self).grows_to(len as nat) ==> result is Ok,
            result is Ok ==> old(self).may_grow_to(len as nat),
            final(self).room() >= old(self).room(),
            forall|n: nat| #[trigger] old(self).has_room(n) ==> final(self).has_room(n),
            forall|n: nat| #[trigger] old(self).allows(n) ==> final(self).allows(n),
    ;

    /// Shortens the buffer to its first `len` bytes. Nothing happens if it is
    /// no longer than that.
    fn truncate(&mut self, len: usize)
        ensures
            final(self).contents() == truncated(old(self).contents(), len as nat),
            final(self).room() >= old(self).room(),
            forall|n: nat| #[trigger] old(self).has_room(n) ==> final(self).has_room(n),
            forall|n: nat| #[trigger] old(self).allows(n) ==> final(self).allows(n),
    ;

    /// Appends a copy of `other`. A buffer that refuses to grow is left as it
    /// was.
    fn extend_from_slice(&mut self, other: &[u8]) -> (result: std::io::Result<()>)
        requires
            old(self).contents().len() + other@.len() <= MAX_LEN,
        ensures
            result is Ok ==> final(self).contents() == old(self).contents() + other@,
            result is Err ==> final(self).contents() == old(self).contents(),
            result matches Err(error) ==> old(self).refuses_with(
                old(self).contents().len() + other@.len(),
                error,
            ),
            old(self).grows_to(old(self).contents().len() + other@.len()) ==> result is Ok,
            result is Ok ==> old(self).may_grow_to(old(self).contents().len() + other@.len()),
            final(self).room() >= old(self).room(),
            forall|n: nat| #[trigger] old(self).has_room(n) ==> final(self).has_room(n),
            forall|n: nat| #[trigger] old(self).allows(n) ==> final(self).allows(n),
    ;

    /// The bytes in the buffer, as a slice.
    fn as_slice(&self) -> (slice: &[u8])
        ensures
            slice@ == self.contents(),
    ;

    /// The bytes in the buffer, as a mutable slice.
    fn as_mut_slice(&mut self) -> (slice: &mut [u8])
        ensures
            slice@ == old(self).contents(),
            final(self).contents() == final(slice)@,
            final(self).room() >= old(self).room(),
            Self::keeps_room() ==> forall|n: nat| #[trigger]
                old(self).has_room(n) ==> final(self).has_room(n),
            forall|n: nat| #[trigger] old(self).allows(n) ==> final(self).allows(n),
    ;

    /// The number of bytes in the buffer.
    fn len(&self) -> (len: usize)
        ensures
            len == self.contents().len(),
    ;

    /// Whether the buffer holds no bytes.
    fn is_empty(&self) -> (empty: bool)
        ensures
            empty == (self.contents().len() == 0),
    ;

    /// How many bytes the buffer has room for: at least as many as it holds, and
    /// as it is certain to have room for.
    fn capacity(&self) -> (capacity: usize)
        ensures
            capacity >= self.contents().len(),
            capacity >= self.room(),
            forall|n: nat| #[trigger] self.has_room(n) ==> capacity >= n,
            self.allows(capacity as nat),
    ;

    /// Sees to it that the buffer still has a capacity that it reported before its
    /// bytes were written to through [`as_mut_slice`](Buffer::as_mut_slice).
    ///
    /// Writing takes no capacity away, so a buffer has nothing to do here.
    fn keep_capacity(&mut self, capacity: usize)
        ensures
            final(self).contents() == old(self).contents(),
            final(self).room() >= old(self).room(),
            forall|n: nat| #[trigger] old(self).has_room(n) ==> final(self).has_room(n),
            forall|n: nat| #[trigger] old(self).allows(n) ==> final(self).allows(n),
    {
    }
}

/// `Vec::drain` of `..n`, whose iterator is dropped at once: the first `n`
/// bytes are gone and the others have moved to the front.
#[verifier::external_body]
fn vec_drain_front(v: &mut Vec<u8>, n: usize)
    requires
        n <= old(v)@.len(),
    ensures
        final(v)@ == old(v)@.skip(n as int),
{
    v.drain(..n);
}

/// `Vec::capacity`: how many bytes fit without reallocating, which is never
/// less than how many there are, nor more than `isize::MAX`.
#[verifier::external_body]
fn vec_capacity(v: &Vec<u8>) -> (capacity: usize)
    ensures
        v@.len() <= capacity <= MAX_CAPACITY,
{
    v.capacity()
}

/// Whether `capacity` is what `Vec::capacity` may return of the vector.
pub closed spec fn vec_reports(v: Vec<u8>, capacity: usize) -> bool {
    call_ensures(vec_capacity, (&v,), capacity)
}

/// `Vec::reserve_exact`: whatever capacity the vector reports from then on is
/// enough for `additional` more bytes, and the bytes in it stay as they are.
#[verifier::external_body]
fn vec_reserve_exact(v: &mut Vec<u8>, additional: usize)
    requires
        old(v)@.len() + additional <= MAX_CAPACITY,
    ensures
        final(v)@ == old(v)@,
        forall|c: usize| #[trigger]
            vec_reports(*final(v), c) ==> c >= old(v)@.len() + additional,
{
    v.reserve_exact(additional);
}

/// The capacity that a vector reports.
fn vec_reported(v: &Vec<u8>) -> (capacity: usize)
    ensures
        vec_reports(*v, capacity),
        v@.len() <= capacity <= MAX_CAPACITY,
{
    vec_capacity(v)
}

/// Sees to it that a vector still has the capacity that it had. A vector gives none
/// up when bytes are added to it or taken from it, so there is nothing to be done.
fn vec_keep_capacity(v: &mut Vec<u8>, capacity: usize)
    requires
        capacity <= MAX_CAPACITY,
    ensures
        final(v)@ == old(v)@,
        final(v).has_room(capacity as nat),
{
    if capacity > v.len() {
        vec_reserve_exact(v, capacity - v.len());
    }
}

impl Buffer for Vec<u8> {
    open spec fn contents(&self) -> Seq<u8> {
        self@
    }

    open spec fn allows(&self, len: nat) -> bool {
        len <= MAX_CAPACITY
    }

    open spec fn grows_to(&self, len: nat) -> bool {
        len <= MAX_LEN
    }

    open spec fn has_room(&self, n: nat) -> bool {
        forall|c: usize| #[trigger] vec_reports(*self, c) ==> c >= n
    }

    open spec fn refuses_with(&self, len: nat, error: std::io::Error) -> bool {
        false
    }

    fn new() -> (buffer: Self) {
        Vec::new()
    }

    fn with_capacity(capacity: usize) -> (buffer: Self)
        ensures
            forall|c: usize| #[trigger] vec_reports(buffer, c) ==> c >= capacity,
    {
        let mut buffer = Vec::new();
        vec_reserve_exact(&mut buffer, capacity);
        buffer
    }

    fn consume(&mut self, rng: RangeTo<usize>) {
        let capacity: usize = vec_reported(self);
        vec_drain_front(self, rng.end);
        vec_keep_capacity(self, capacity);
    }

    fn clear(&mut self) {
        let capacity: usize = vec_reported(self);
        self.clear();
        vec_keep_capacity(self, capacity);
    }

    // A vector that has to grow asks for twice the room it has, which beyond
    // `MAX_LEN` may be more than it can have.
    fn resize(&mut self, len: usize) -> (result: std::io::Result<()>) {
        let capacity: usize = vec_reported(self);
        if len > MAX_LEN && len > self.len() {
            vec_reserve_exact(self, len - self.len());
        }
        self.resize(len, 0);
        assert(len > old(self)@.len() ==> self@.take(old(self)@.len() as int) == old(self)@);
        vec_keep_capacity(self, capacity);
        Ok(())
    }

    fn truncate(&mut self, len: usize) {
        let capacity: usize = vec_reported(self);
        self.truncate(len);
        vec_keep_capacity(self, capacity);
    }

    fn extend_from_slice(&mut self, other: &[u8]) -> (result: std::io::Result<()>) {
        let capacity: usize = vec_reported(self);
        self.extend_from_slice(other);
        vec_keep_capacity(self, capacity);
        Ok(())
    }

    fn as_slice(&self) -> (slice: &[u8]) {
        self.as_slice()
    }

    fn as_mut_slice(&mut self) -> (slice: &mut [u8]) {
        self.as_mut_slice()
    }

    fn len(&self) -> (len: usize) {
        self.len()
    }

    fn is_empty(&self) -> (empty: bool) {
        self.is_empty()
    }

    fn capacity(&self) -> (capacity: usize)
        ensures
            vec_reports(*self, capacity),
            capacity <= MAX_CAPACITY,
    {
        vec_reported(self)
    }

    fn keep_capacity(&mut self, capacity: usize)
        ensures
            capacity <= MAX_CAPACITY ==> final(self).has_room(capacity as nat),
    {
        let reported: usize = vec_reported(self);
        if capacity > reported && capacity <= MAX_CAPACITY {
            vec_keep_capacity(self, capacity);
        } else {
            vec_keep_capacity(self, reported);
        }
    }
}

} // verus!
