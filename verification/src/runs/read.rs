//! Reading comes to being given the next bytes, once.
use super::{all_delivered, delivered, is_round, is_run, run_before, Round};
use crate::attempt::{Attempt, Prepared, Settled};
use crate::buffer::Buffer;
use crate::error::PeekError;
use crate::ops::{Operation, PeekedRead};
use vstd::prelude::*;

verus! {

/// It goes on only while the reader is not ready and nothing is peeked, and then
/// nothing has been delivered.
pub proof fn read_waits_for_the_first_delivery<'a, R, B: Buffer>(
    rounds: Seq<Round<PeekedRead<'a, R, B>>>,
)
    requires
        is_run::<R, PeekedRead<'a, R, B>>(rounds),
    ensures
        ({
            let first = rounds[0].start;
            let last = rounds.last();
            let peeked = first.peekable.peeked();
            &&& last.start.peekable.peeked() == peeked
            &&& last.start.peekable.requested() == first.peekable.requested()
            &&& last.start.peekable.store().room() >= first.peekable.store().room()
            &&& last.end.peekable.requested() == first.peekable.requested()
            &&& last.end.peekable.store().room() >= first.peekable.store().room()
            &&& last.start.buf@.len() == first.buf@.len()
            &&& last.start.deliver_on_error == first.deliver_on_error
            &&& all_delivered::<R, PeekedRead<'a, R, B>>(rounds) == delivered::<
                R,
                PeekedRead<'a, R, B>,
            >(last)
            &&& last.goes_on() ==> {
                &&& last.step is Pending
                &&& last.attempt is Pending
                &&& peeked.len() == 0
                &&& last.end.copied is None
                &&& last.end.peekable.peeked() == peeked
                &&& last.end.buf@.len() == first.buf@.len()
                &&& last.end.deliver_on_error == first.deliver_on_error
            }
        }),
    decreases rounds.len(),
{
    let first = rounds[0].start;
    let last = rounds.last();
    assert(is_round::<R, PeekedRead<'a, R, B>>(rounds[rounds.len() - 1]));
    if rounds.len() > 1 {
        run_before::<R, PeekedRead<'a, R, B>>(rounds);
        read_waits_for_the_first_delivery(rounds.drop_last());
    } else {
        assert(rounds.drop_last() =~= Seq::empty());
    }
    assert(all_delivered::<R, PeekedRead<'a, R, B>>(rounds.drop_last()) =~= Seq::empty());
    assert(all_delivered::<R, PeekedRead<'a, R, B>>(rounds) =~= delivered::<
        R,
        PeekedRead<'a, R, B>,
    >(last));
    assert(last.lent.buf@.len() == last.asked.buf@.len());
}

/// It is complete with the first read that delivers anything, if only the end: the
/// slice begins with what was peeked before and then what the reader delivered, that is
/// as many bytes as the operation is complete with, and nothing is peeked any more. The
/// peeked bytes alone are given if the reader is not ready or, where that is wanted, if
/// it fails. Otherwise, if the reader fails, so does the operation, with the reader's
/// error, and what was peeked is still peeked. The reader is lent what the peeked bytes
/// leave of the slice.
pub proof fn read_gives_the_next_bytes_once<'a, R, B: Buffer>(
    rounds: Seq<Round<PeekedRead<'a, R, B>>>,
)
    requires
        is_run::<R, PeekedRead<'a, R, B>>(rounds),
    ensures
        ({
            let first = rounds[0].start;
            let last = rounds.last();
            let peeked = first.peekable.peeked();
            let all = peeked + all_delivered::<R, PeekedRead<'a, R, B>>(rounds);
            &&& last.lent.lent_out().len() == first.buf@.len() - peeked.len()
            &&& last.end.peekable.inner() == last.lent.peekable.inner()
            &&& match last.step {
                Settled::Done(Ok(n)) => {
                    &&& n == all.len()
                    &&& n <= last.end.buf@.len()
                    &&& last.end.buf@.take(n as int) == all
                    &&& last.end.peekable.peeked().len() == 0
                    &&& last.attempt is Ready || peeked.len() > 0 && (last.attempt is Pending
                        || first.deliver_on_error)
                },
                Settled::Done(Err(PeekError::Io(error))) => {
                    &&& {
                        ||| last.attempt == Attempt::Failed(error)
                        ||| last.attempt == Attempt::WouldBlock(error)
                        ||| last.attempt == Attempt::Interrupted(error)
                    }
                    &&& peeked.len() == 0 || !first.deliver_on_error
                    &&& last.end.peekable.peeked() == peeked
                },
                Settled::Done(Err(_)) => false,
                Settled::Pending => {
                    &&& last.attempt is Pending
                    &&& peeked.len() == 0
                    &&& last.end.peekable.peeked().len() == 0
                },
                Settled::Again => false,
            }
        }),
{
    let first = rounds[0].start;
    let last = rounds[rounds.len() - 1];
    let peeked = first.peekable.peeked();
    assert(is_round::<R, PeekedRead<'a, R, B>>(last));
    read_waits_for_the_first_delivery(rounds);
    assert(peeked + Seq::<u8>::empty() =~= peeked);
    assert(last.lent.buf@ =~= peeked + last.lent.lent_out());
}

/// The reader is not asked if and only if something is peeked that fills the slice: the
/// operation is complete then, the slice is full of the first bytes that were peeked,
/// and those are peeked no more. If it is asked, what was peeked is still peeked.
pub proof fn read_is_complete_unasked_when_full<'a, R, B: Buffer>(
    before: PeekedRead<'a, R, B>,
    after: PeekedRead<'a, R, B>,
    step: Prepared,
)
    requires
        before.idle(),
        after.follows_prepare(&before, step),
    ensures
        ({
            let peeked = old(before.peekable).peeked();
            let wanted = old(before.buf)@.len();
            &&& old(after.peekable).inner() == old(before.peekable).inner()
            &&& old(after.peekable).requested() == old(before.peekable).requested()
            &&& old(after.peekable).store().room() >= old(before.peekable).store().room()
            &&& 0 < peeked.len() && wanted <= peeked.len() <==> !(step is Read)
            &&& match step {
                Prepared::Done(Ok(n)) => {
                    &&& n == wanted
                    &&& old(after.buf)@.len() == n
                    &&& old(after.buf)@ + old(after.peekable).peeked() == peeked
                },
                Prepared::Read => {
                    &&& old(after.peekable).peeked() == peeked
                    &&& old(after.buf)@.len() == wanted
                    &&& old(after.buf)@ == peeked + after.lent_out()
                    &&& after.lent_out() == old(before.buf)@.skip(peeked.len() as int)
                },
                Prepared::Done(Err(_)) => false,
            }
        }),
{
    let peeked = before.peekable.peeked();
    if step is Read {
        assert(after.buf@ =~= peeked + after.lent_out());
        assert(after.lent_out() =~= before.buf@.skip(peeked.len() as int));
    } else {
        assert(after.buf@ + after.peekable.peeked() =~= peeked);
    }
}

} // verus!
