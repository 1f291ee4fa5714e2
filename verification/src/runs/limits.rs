//! The limits that operations keep within are those of the peek buffer.
use crate::buffer::{Buffer, MAX_LEN};
use crate::ops::{
    FillPeekBuf, Operation, Peek, PeekExact, PeekToEnd, PeekToString, PeekedRead,
};
use vstd::prelude::*;

verus! {

/// A read is always within the limits.
pub proof fn reads_are_never_too_long<'a, R, B: Buffer>(op: PeekedRead<'a, R, B>, within: bool)
    requires
        call_ensures(<PeekedRead<'a, R, B> as Operation<R>>::is_within_limits, (&op,), within),
    ensures
        within,
        op.within_limits(),
{
}

/// A fill is always within the limits.
pub proof fn fills_are_never_too_long<'a, R, B: Buffer>(op: FillPeekBuf<'a, R, B>, within: bool)
    requires
        call_ensures(<FillPeekBuf<'a, R, B> as Operation<R>>::is_within_limits, (&op,), within),
    ensures
        within,
        op.within_limits(),
{
}

/// A peek is within the limits unless its slice is longer than a peek buffer may be.
pub proof fn only_a_slice_is_too_long_for_peek<'a, R, B: Buffer>(
    op: Peek<'a, R, B>,
    within: bool,
)
    requires
        call_ensures(<Peek<'a, R, B> as Operation<R>>::is_within_limits, (&op,), within),
    ensures
        within <==> old(op.buf)@.len() <= MAX_LEN,
        op.within_limits() == within,
{
}

/// A peek that fills a slice is within the limits unless its slice is longer than a peek buffer may be.
pub proof fn only_a_slice_is_too_long_for_peek_exact<'a, R, B: Buffer>(
    op: PeekExact<'a, R, B>,
    within: bool,
)
    requires
        call_ensures(<PeekExact<'a, R, B> as Operation<R>>::is_within_limits, (&op,), within),
    ensures
        within <==> old(op.buf)@.len() <= MAX_LEN,
        op.within_limits() == within,
{
}

/// A peek of the whole stream is within the limits unless a chunk more than what is
/// peeked is longer than a peek buffer may be.
pub proof fn only_a_stream_is_too_long_for_peek_to_end<'a, R, B: Buffer>(
    op: PeekToEnd<'a, R, B>,
    within: bool,
)
    requires
        call_ensures(<PeekToEnd<'a, R, B> as Operation<R>>::is_within_limits, (&op,), within),
    ensures
        within <==> old(op.intake.peekable).peeked().len() + 1024 <= MAX_LEN,
        op.within_limits() == within,
{
}

/// A peek of the whole stream as text is within the limits unless a chunk more than what is
/// peeked is longer than a peek buffer may be.
pub proof fn only_a_stream_is_too_long_for_peek_to_string<'a, R, B: Buffer>(
    op: PeekToString<'a, R, B>,
    within: bool,
)
    requires
        call_ensures(<PeekToString<'a, R, B> as Operation<R>>::is_within_limits, (&op,), within),
    ensures
        within <==> old(op.intake.peekable).peeked().len() + 1024 <= MAX_LEN,
        op.within_limits() == within,
{
}

} // verus!
