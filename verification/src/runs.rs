//! What the operations come to.
//!
//! An operation may take many reads. The proofs here say what it has come to after
//! any number of them, whatever the reader did: what was peeked, what the caller's
//! slice, vector or string holds, and when the operation is complete, and how.
use crate::attempt::{fits, Attempt, Prepared, Settled};
use crate::ops::Operation;
use vstd::prelude::*;

pub mod blocking;
pub mod capacity;
pub mod fill_peek_buf;
pub mod future;
pub mod limits;
pub mod peek;
pub mod peek_exact;
pub mod peek_to_end;
pub mod peek_to_string;
pub mod read;
pub mod tokio;

verus! {

/// One read on behalf of an operation, from its preparation to its settlement.
pub struct Round<O> {
    /// The operation before it is prepared.
    pub start: O,
    /// The operation when it has asked for a read.
    pub asked: O,
    /// The operation when the reader has had the bytes to write to.
    pub lent: O,
    /// How the read went.
    pub attempt: Attempt,
    /// The operation when it has been told.
    pub end: O,
    /// What it answered.
    pub step: Settled,
}

impl<O> Round<O> {
    /// Whether the operation goes on afterwards.
    pub open spec fn goes_on(self) -> bool {
        self.step is Again || self.step is Pending
    }

    /// Whether the reader delivered some bytes, or was interrupted, or was not ready.
    pub open spec fn may_go_on(self) -> bool {
        match self.attempt {
            Attempt::Ready(n) => n > 0,
            Attempt::Interrupted(_) | Attempt::Pending => true,
            _ => false,
        }
    }
}

/// Whether this is how a read on behalf of an operation may go.
pub open spec fn is_round<R, O: Operation<R>>(round: Round<O>) -> bool {
    &&& round.start.idle()
    &&& round.start.within_limits()
    &&& round.asked.follows_prepare(&round.start, Prepared::Read)
    &&& round.asked.asking()
    &&& round.lent.follows_lend(&round.asked)
    &&& round.lent.asking()
    &&& round.lent.lent_out().len() == round.asked.lent_out().len()
    &&& fits(round.attempt, round.lent.lent_out().len())
    &&& round.end.follows_settle(&round.lent, round.attempt, round.step)
}

/// Whether these are all the reads of an operation so far: each but the last left it
/// to go on, and the next began where it ended.
pub open spec fn is_run<R, O: Operation<R>>(rounds: Seq<Round<O>>) -> bool {
    &&& rounds.len() > 0
    &&& forall|i: int| 0 <= i < rounds.len() ==> is_round::<R, O>(#[trigger] rounds[i])
    &&& forall|i: int|
        0 < i < rounds.len() ==> {
            &&& rounds[i - 1].goes_on()
            &&& (#[trigger] rounds[i]).start == rounds[i - 1].end
        }
}

/// The bytes that the reader wrote in the course of one read.
pub open spec fn delivered<R, O: Operation<R>>(round: Round<O>) -> Seq<u8> {
    match round.attempt {
        Attempt::Ready(n) => round.lent.lent_out().take(n as int),
        _ => Seq::empty(),
    }
}

/// The bytes that the reader wrote in the course of several reads, in order.
pub open spec fn all_delivered<R, O: Operation<R>>(rounds: Seq<Round<O>>) -> Seq<u8>
    decreases rounds.len(),
{
    if rounds.len() == 0 {
        Seq::empty()
    } else {
        all_delivered::<R, O>(rounds.drop_last()) + delivered::<R, O>(rounds.last())
    }
}

/// All reads but the last are a run as well.
pub(crate) proof fn run_before<R, O: Operation<R>>(rounds: Seq<Round<O>>)
    requires
        is_run::<R, O>(rounds),
        rounds.len() > 1,
    ensures
        is_run::<R, O>(rounds.drop_last()),
        rounds.drop_last().last() == rounds[rounds.len() - 2],
        rounds.drop_last()[0] == rounds[0],
        rounds.last().start == rounds.drop_last().last().end,
        rounds.drop_last().last().goes_on(),
{
    let front = rounds.drop_last();
    assert forall|i: int| 0 <= i < front.len() implies is_round::<R, O>(#[trigger] front[i]) by {
        assert(is_round::<R, O>(rounds[i]));
    }
    assert forall|i: int| 0 < i < front.len() implies front[i - 1].goes_on()
        && (#[trigger] front[i]).start == front[i - 1].end by {
        assert(rounds[i].start == rounds[i - 1].end);
    }
    assert(rounds[rounds.len() - 1].start == rounds[rounds.len() - 2].end);
}

} // verus!
