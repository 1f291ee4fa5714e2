//! What becomes of the bytes of a stream.
//!
//! Whatever operations are run on a peekable reader, and however its reader
//! behaves, no byte is lost, made up, repeated or moved. The functions here say
//! what each operation does to the peeked bytes, and the proofs what follows
//! from it for any number of operations.
use crate::attempt::{received, Attempt};
use crate::ops::overlaid;
use vstd::prelude::*;

verus! {

/// What has been peeked after a read into the peek buffer: what had been peeked
/// before, and then what the reader delivered.
pub open spec fn taken_in(peeked: Seq<u8>, lent: Seq<u8>, attempt: Attempt) -> Seq<u8> {
    peeked + received(lent, attempt)
}

/// What a read hands over when the peeked bytes did not fill the slice and the
/// reader was asked for more.
pub open spec fn handed_over(
    peeked: Seq<u8>,
    lent: Seq<u8>,
    attempt: Attempt,
    deliver_on_error: bool,
) -> Seq<u8> {
    match attempt {
        Attempt::Ready(_) => peeked + received(lent, attempt),
        Attempt::Pending => peeked,
        _ => if deliver_on_error {
            peeked
        } else {
            Seq::empty()
        },
    }
}

/// What is still peeked after such a read.
pub open spec fn left_over(peeked: Seq<u8>, attempt: Attempt, deliver_on_error: bool) -> Seq<u8> {
    match attempt {
        Attempt::Ready(_) | Attempt::Pending => Seq::empty(),
        _ => if deliver_on_error {
            Seq::empty()
        } else {
            peeked
        },
    }
}

/// One thing that happens to a stream.
pub enum Move {
    /// The reader is asked for bytes to be peeked.
    Peek { lent: Seq<u8>, attempt: Attempt },
    /// A read of `want` bytes is answered from the peeked ones.
    Answer { want: nat },
    /// The peek buffer is taken, with the peeked bytes in it.
    Consume,
    /// A read hands over the peeked bytes, and the reader is asked for more.
    Read { lent: Seq<u8>, attempt: Attempt, deliver_on_error: bool },
}

/// A stream in the middle of its use.
#[verifier::ext_equal]
pub struct Stream {
    /// Everything that has been handed over.
    pub given: Seq<u8>,
    /// What has been peeked, and not been handed over yet.
    pub peeked: Seq<u8>,
}

impl Stream {
    /// The stream after one thing has happened to it.
    pub open spec fn after(self, m: Move) -> Stream {
        match m {
            Move::Peek { lent, attempt } => Stream {
                given: self.given,
                peeked: taken_in(self.peeked, lent, attempt),
            },
            Move::Answer { want } => Stream {
                given: self.given + self.peeked.take(want as int),
                peeked: self.peeked.skip(want as int),
            },
            Move::Consume => Stream {
                given: self.given + self.peeked,
                peeked: Seq::empty(),
            },
            Move::Read { lent, attempt, deliver_on_error } => Stream {
                given: self.given + handed_over(self.peeked, lent, attempt, deliver_on_error),
                peeked: left_over(self.peeked, attempt, deliver_on_error),
            },
        }
    }

    /// The stream after several things have happened to it in turn.
    pub open spec fn after_all(self, moves: Seq<Move>) -> Stream
        decreases moves.len(),
    {
        if moves.len() == 0 {
            self
        } else {
            self.after_all(moves.drop_last()).after(moves.last())
        }
    }

    /// Whether these things can happen: a read is answered from the peeked
    /// bytes only if they are enough for it.
    pub open spec fn allows(self, moves: Seq<Move>) -> bool
        decreases moves.len(),
    {
        moves.len() > 0 ==> {
            &&& self.allows(moves.drop_last())
            &&& moves.last() matches Move::Answer { want } ==> want <= self.after_all(
                moves.drop_last(),
            ).peeked.len()
        }
    }
}

/// What the reader delivers in the course of one move.
pub open spec fn delivery(m: Move) -> Seq<u8> {
    match m {
        Move::Peek { lent, attempt } => received(lent, attempt),
        Move::Answer { .. } | Move::Consume => Seq::empty(),
        Move::Read { lent, attempt, .. } => received(lent, attempt),
    }
}

/// What the reader delivers in the course of several moves.
pub open spec fn deliveries(moves: Seq<Move>) -> Seq<u8>
    decreases moves.len(),
{
    if moves.len() == 0 {
        Seq::empty()
    } else {
        deliveries(moves.drop_last()) + delivery(moves.last())
    }
}

/// However peeks and reads follow on one another, and whether the reader
/// delivers, fails, is interrupted or is not ready: what has been handed over and
/// what is still peeked are together exactly what the reader delivered, in order.
pub proof fn every_byte_is_accounted_for(start: Stream, moves: Seq<Move>)
    requires
        start.allows(moves),
    ensures
        ({
            let end = start.after_all(moves);
            end.given + end.peeked == start.given + start.peeked + deliveries(moves)
        }),
    decreases moves.len(),
{
    if moves.len() > 0 {
        every_byte_is_accounted_for(start, moves.drop_last());
        let before = start.after_all(moves.drop_last());
        let end = start.after_all(moves);
        assert(end.given + end.peeked =~= before.given + before.peeked + delivery(moves.last()));
    }
}

/// However many reads a peek takes, and whichever of them fail, are interrupted
/// or find the reader not ready: what has been peeked in the end is what had been
/// peeked before, and then everything that the reader delivered. Nothing is
/// handed over.
pub proof fn peeks_collect_the_stream(start: Stream, moves: Seq<Move>)
    requires
        forall|i: int| 0 <= i < moves.len() ==> moves[i] is Peek,
    ensures
        start.after_all(moves).given == start.given,
        start.after_all(moves).peeked == start.peeked + deliveries(moves),
    decreases moves.len(),
{
    if moves.len() > 0 {
        peeks_collect_the_stream(start, moves.drop_last());
    }
}

/// If what the reader delivers are the bytes of a stream, then what is handed
/// over are the first bytes of that stream, whatever is peeked in between.
pub proof fn the_stream_is_handed_over(start: Stream, moves: Seq<Move>, stream: Seq<u8>)
    requires
        start.allows(moves),
        (start.peeked + deliveries(moves)).is_prefix_of(stream),
    ensures
        start.after_all(moves).given.is_prefix_of(start.given + stream),
{
    every_byte_is_accounted_for(start, moves);
    let end = start.after_all(moves);
    let so_far = start.peeked + deliveries(moves);
    assert(end.given + end.peeked =~= start.given + so_far);
    assert(so_far == stream.take(so_far.len() as int));
    assert(end.given =~= (start.given + stream).take(end.given.len() as int)) by {
        assert(end.given =~= (start.given + so_far).take(end.given.len() as int));
    }
}

/// What is handed over does not depend on what is peeked in between: if as much
/// has been handed over in two runs over the same stream, it is the same.
pub proof fn peeking_does_not_change_what_is_read(
    start: Stream,
    moves: Seq<Move>,
    other_moves: Seq<Move>,
    stream: Seq<u8>,
)
    requires
        start.allows(moves),
        start.allows(other_moves),
        (start.peeked + deliveries(moves)).is_prefix_of(stream),
        (start.peeked + deliveries(other_moves)).is_prefix_of(stream),
        start.after_all(moves).given.len() == start.after_all(other_moves).given.len(),
    ensures
        start.after_all(moves).given == start.after_all(other_moves).given,
{
    the_stream_is_handed_over(start, moves, stream);
    the_stream_is_handed_over(start, other_moves, stream);
}

/// A read into the peek buffer that delivers nothing, because it failed, was
/// interrupted, was not ready or met the end, leaves what has been peeked as it
/// was.
pub proof fn no_delivery_changes_nothing(peeked: Seq<u8>, lent: Seq<u8>, attempt: Attempt)
    requires
        attempt matches Attempt::Ready(n) ==> n == 0,
    ensures
        taken_in(peeked, lent, attempt) == peeked,
{
}

/// Peeks agree: what a peek has shown, any later peek into a slice that is long
/// enough shows first.
pub proof fn later_peeks_show_the_same(
    peeked: Seq<u8>,
    lent: Seq<u8>,
    attempt: Attempt,
    buf: Seq<u8>,
    later_buf: Seq<u8>,
)
    requires
        peeked.len() <= buf.len(),
        taken_in(peeked, lent, attempt).len() <= later_buf.len(),
    ensures
        overlaid(later_buf, taken_in(peeked, lent, attempt)).take(peeked.len() as int) == overlaid(
            buf,
            peeked,
        ).take(peeked.len() as int),
{
}

/// A read after a peek hands over what the peek has shown, and then goes on from
/// there, unless it fails and hands over nothing.
pub proof fn reads_begin_with_what_was_shown(
    peeked: Seq<u8>,
    lent: Seq<u8>,
    attempt: Attempt,
    deliver_on_error: bool,
    buf: Seq<u8>,
)
    requires
        peeked.len() <= buf.len(),
    ensures
        ({
            let shown = overlaid(buf, peeked).take(peeked.len() as int);
            let read = handed_over(peeked, lent, attempt, deliver_on_error);
            shown.is_prefix_of(read) || read.len() == 0 && left_over(
                peeked,
                attempt,
                deliver_on_error,
            ) == shown
        }),
{
}

} // verus!
