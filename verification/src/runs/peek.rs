//! Peeking comes to being shown the next bytes.
use super::{all_delivered, delivered, is_round, is_run, run_before, Round};
use crate::attempt::{Attempt, Prepared, Settled};
use crate::buffer::Buffer;
use crate::error::PeekError;
use crate::ops::{Operation, Peek};
use vstd::prelude::*;

verus! {

/// Whether a read of this operation found the reader not ready, or about to block
/// where that is the same.
pub open spec fn found_not_ready<'a, R, B: Buffer>(round: Round<Peek<'a, R, B>>) -> bool {
    round.attempt is Pending || round.attempt is WouldBlock && round.start.block_is_pending
}

/// While it goes on, nothing has been delivered, and everything is as it was at first:
/// what is peeked, the slice, and what the reader is asked for, which is what the
/// peeked bytes leave of the slice.
pub proof fn peek_waits_for_the_first_delivery<'a, R, B: Buffer>(
    rounds: Seq<Round<Peek<'a, R, B>>>,
)
    requires
        is_run::<R, Peek<'a, R, B>>(rounds),
    ensures
        ({
            let first = rounds[0].start;
            let last = rounds.last();
            let peeked = first.intake.peekable.peeked();
            &&& last.start.intake.peekable.peeked() == peeked
            &&& last.start.intake.peekable.requested() == first.intake.peekable.requested()
            &&& last.start.intake.peekable.store().room() >= first.intake.peekable.store().room()
            &&& last.end.intake.peekable.requested() == first.intake.peekable.requested()
            &&& last.end.intake.peekable.store().room() >= first.intake.peekable.store().room()
            &&& last.start.buf@ == first.buf@
            &&& last.start.block_is_pending == first.block_is_pending
            &&& last.lent.lent_out().len() == first.buf@.len() - peeked.len()
            &&& all_delivered::<R, Peek<'a, R, B>>(rounds) == delivered::<R, Peek<'a, R, B>>(last)
            &&& last.goes_on() ==> {
                &&& last.attempt is Interrupted || peeked.len() == 0 && found_not_ready(last)
                &&& last.end.intake.open_at is None
                &&& last.end.intake.peekable.peeked() == peeked
                &&& last.end.buf@ == first.buf@
                &&& last.end.block_is_pending == first.block_is_pending
            }
        }),
    decreases rounds.len(),
{
    let first = rounds[0].start;
    let last = rounds.last();
    let peeked = first.intake.peekable.peeked();
    assert(is_round::<R, Peek<'a, R, B>>(rounds[rounds.len() - 1]));
    if rounds.len() > 1 {
        run_before::<R, Peek<'a, R, B>>(rounds);
        peek_waits_for_the_first_delivery(rounds.drop_last());
    } else {
        assert(rounds.drop_last() =~= Seq::empty());
    }
    assert(all_delivered::<R, Peek<'a, R, B>>(rounds.drop_last()) =~= Seq::empty());
    assert(all_delivered::<R, Peek<'a, R, B>>(rounds) =~= delivered::<R, Peek<'a, R, B>>(last));
    if last.goes_on() {
        assert(last.end.intake.peekable.peeked() =~= peeked);
    }
}

/// It is complete with the first read that delivers anything, if only the end, or
/// that finds the reader not ready while some bytes are peeked. What is peeked then is
/// what was peeked before and what the reader delivered; it is as many bytes as the
/// operation is complete with, the slice begins with them, and is otherwise as it was.
/// An interrupted read is tried again. If the reader fails, so does the operation, with
/// the reader's error, and what was peeked and the slice are as they were.
pub proof fn peek_shows_the_next_bytes<'a, R, B: Buffer>(rounds: Seq<Round<Peek<'a, R, B>>>)
    requires
        is_run::<R, Peek<'a, R, B>>(rounds),
    ensures
        ({
            let first = rounds[0].start;
            let last = rounds.last();
            let peeked = first.intake.peekable.peeked();
            let all = peeked + all_delivered::<R, Peek<'a, R, B>>(rounds);
            &&& last.end.intake.open_at is None
            &&& last.end.intake.peekable.peeked() == all
            &&& last.end.intake.peekable.inner() == last.lent.intake.peekable.inner()
            &&& match last.step {
                Settled::Done(Ok(n)) => {
                    &&& last.attempt is Ready || peeked.len() > 0 && found_not_ready(last)
                    &&& n == all.len()
                    &&& n <= first.buf@.len()
                    &&& last.end.buf@ == all + first.buf@.skip(n as int)
                },
                Settled::Done(Err(PeekError::Io(error))) => {
                    &&& last.attempt == Attempt::Failed(error) || last.attempt
                        == Attempt::WouldBlock(error) && !first.block_is_pending
                    &&& last.end.buf@ == first.buf@
                },
                Settled::Done(Err(_)) => false,
                Settled::Pending => {
                    &&& peeked.len() == 0
                    &&& found_not_ready(last)
                    &&& last.end.buf@ == first.buf@
                },
                Settled::Again => {
                    &&& last.attempt is Interrupted
                    &&& last.end.buf@ == first.buf@
                },
            }
        }),
{
    let first = rounds[0].start;
    let last = rounds[rounds.len() - 1];
    let peeked = first.intake.peekable.peeked();
    assert(is_round::<R, Peek<'a, R, B>>(last));
    peek_waits_for_the_first_delivery(rounds);
    let all = peeked + all_delivered::<R, Peek<'a, R, B>>(rounds);
    assert(last.end.intake.peekable.peeked() =~= all);
    assert(peeked + Seq::<u8>::empty() =~= peeked);
}

/// The reader is not asked if the peeked bytes fill the slice, nor for an empty slice
/// unless that is wanted: the operation is complete then, and the slice is full of the
/// first bytes that were peeked, which stay peeked. If it is asked, it is for what the
/// peeked bytes leave of the slice. If the peek buffer refuses to take that, the
/// operation fails with the peek buffer's error, and nothing else has changed.
pub proof fn peek_is_complete_unasked_when_full<'a, R, B: Buffer>(
    before: Peek<'a, R, B>,
    after: Peek<'a, R, B>,
    step: Prepared,
)
    requires
        before.idle(),
        after.follows_prepare(&before, step),
    ensures
        ({
            let peeked = old(before.intake.peekable).peeked();
            let wanted = old(before.buf)@.len();
            &&& old(after.intake.peekable).inner() == old(before.intake.peekable).inner()
            &&& old(after.intake.peekable).requested() == old(before.intake.peekable).requested()
            &&& old(after.intake.peekable).store().room() >= old(before.intake.peekable).store().room()
            &&& wanted > peeked.len() ==> !(step matches Prepared::Done(Ok(_)))
            &&& 0 < wanted <= peeked.len() ==> (step matches Prepared::Done(Ok(_)))
            &&& wanted == 0 && (peeked.len() > 0 || before.skip_empty) ==> (
            step matches Prepared::Done(Ok(_)))
            &&& match step {
                Prepared::Done(Ok(n)) => {
                    &&& n == wanted
                    &&& old(after.buf)@ == peeked.take(n as int)
                    &&& old(after.intake.peekable).peeked() == peeked
                },
                Prepared::Read => {
                    let asked = old(after.intake.peekable).peeked();
                    &&& asked.len() == wanted
                    &&& asked.take(peeked.len() as int) == peeked
                    &&& after.lent_out() == asked.skip(peeked.len() as int)
                    &&& old(after.buf)@ == old(before.buf)@
                },
                Prepared::Done(Err(PeekError::Io(error))) => {
                    let store = old(before.intake.peekable).store();
                    &&& old(after.intake.peekable).peeked() == peeked
                    &&& old(after.buf)@ == old(before.buf)@
                    &&& store.refuses_with(wanted, error)
                    &&& !store.grows_to(wanted)
                },
                _ => false,
            }
        }),
{
    if step is Read {
        assert(after.intake.peekable.peeked() =~= after.intake.base() + after.intake.lent());
    }
}

} // verus!
