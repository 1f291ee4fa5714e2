//! Filling the peek buffer comes to using the room that it has.
use super::{all_delivered, delivered, is_round, is_run, run_before, Round};
use crate::attempt::{Attempt, Prepared, Settled};
use crate::buffer::Buffer;
use crate::error::PeekError;
use crate::ops::{FillPeekBuf, Operation};
use vstd::prelude::*;

verus! {

/// While it goes on, nothing has been delivered, and everything is as it was at first.
pub proof fn fill_waits_for_the_first_delivery<'a, R, B: Buffer>(
    rounds: Seq<Round<FillPeekBuf<'a, R, B>>>,
)
    requires
        is_run::<R, FillPeekBuf<'a, R, B>>(rounds),
    ensures
        ({
            let first = rounds[0].start;
            let last = rounds.last();
            let peeked = first.intake.peekable.peeked();
            &&& last.start.intake.peekable.peeked() == peeked
            &&& last.start.intake.peekable.requested() == first.intake.peekable.requested()
            &&& last.start.intake.peekable.store().room() >= first.intake.peekable.store().room()
            &&& last.end.intake.peekable.requested() == first.intake.peekable.requested()
            &&& last.end.intake.peekable.store().room() >= first.intake.peekable.store().room()
            &&& last.start.cap == first.cap
            &&& last.start.retry == first.retry
            &&& all_delivered::<R, FillPeekBuf<'a, R, B>>(rounds) == delivered::<
                R,
                FillPeekBuf<'a, R, B>,
            >(last)
            &&& last.goes_on() ==> {
                &&& last.attempt is Pending || last.attempt is Interrupted && first.retry
                &&& last.end.intake.open_at is None
                &&& last.end.intake.peekable.peeked() == peeked
                &&& last.end.cap == first.cap
                &&& last.end.retry == first.retry
            }
        }),
    decreases rounds.len(),
{
    let first = rounds[0].start;
    let last = rounds.last();
    assert(is_round::<R, FillPeekBuf<'a, R, B>>(rounds[rounds.len() - 1]));
    if rounds.len() > 1 {
        run_before::<R, FillPeekBuf<'a, R, B>>(rounds);
        fill_waits_for_the_first_delivery(rounds.drop_last());
    } else {
        assert(rounds.drop_last() =~= Seq::empty());
    }
    assert(all_delivered::<R, FillPeekBuf<'a, R, B>>(rounds.drop_last()) =~= Seq::empty());
    assert(all_delivered::<R, FillPeekBuf<'a, R, B>>(rounds) =~= delivered::<
        R,
        FillPeekBuf<'a, R, B>,
    >(last));
    if last.goes_on() {
        assert(last.end.intake.peekable.peeked() =~= first.intake.peekable.peeked());
    }
}

/// It is complete with the first read that delivers anything, if only the end, and
/// with as many bytes as were delivered. The reader is lent all the room that the
/// peeked bytes leave of the capacity, and no more, so what is peeked never outgrows
/// it. What is peeked in the end is what was peeked before and what the reader
/// delivered. If the reader fails, so does the operation, with the reader's error.
pub proof fn fill_takes_what_the_room_allows<'a, R, B: Buffer>(
    rounds: Seq<Round<FillPeekBuf<'a, R, B>>>,
)
    requires
        is_run::<R, FillPeekBuf<'a, R, B>>(rounds),
    ensures
        ({
            let first = rounds[0].start;
            let last = rounds.last();
            let peeked = first.intake.peekable.peeked();
            let all = peeked + all_delivered::<R, FillPeekBuf<'a, R, B>>(rounds);
            &&& peeked.len() < first.cap
            &&& last.lent.lent_out().len() == first.cap - peeked.len()
            &&& last.end.intake.open_at is None
            &&& last.end.intake.peekable.peeked() == all
            &&& last.end.intake.peekable.inner() == last.lent.intake.peekable.inner()
            &&& all.len() <= first.cap
            &&& match last.step {
                Settled::Done(Ok(n)) => last.attempt == Attempt::Ready(n) && n == all.len()
                    - peeked.len(),
                Settled::Done(Err(PeekError::Io(error))) => {
                    ||| last.attempt == Attempt::Failed(error)
                    ||| last.attempt == Attempt::WouldBlock(error)
                    ||| last.attempt == Attempt::Interrupted(error) && !first.retry
                },
                Settled::Done(Err(_)) => false,
                Settled::Pending => last.attempt is Pending,
                Settled::Again => last.attempt is Interrupted && first.retry,
            }
        }),
{
    let first = rounds[0].start;
    let last = rounds[rounds.len() - 1];
    assert(is_round::<R, FillPeekBuf<'a, R, B>>(last));
    fill_waits_for_the_first_delivery(rounds);
    let all = first.intake.peekable.peeked() + all_delivered::<R, FillPeekBuf<'a, R, B>>(rounds);
    assert(last.end.intake.peekable.peeked() =~= all);
}

/// It is complete without asking if and only if the peeked bytes take up all the
/// capacity, and then with nothing. Otherwise the reader is to be asked, unless the
/// peek buffer refuses to use its capacity, with an error of its own. Either way what
/// was peeked stays.
pub proof fn fill_is_complete_unasked_when_full<'a, R, B: Buffer>(
    before: FillPeekBuf<'a, R, B>,
    after: FillPeekBuf<'a, R, B>,
    step: Prepared,
)
    requires
        before.idle(),
        after.follows_prepare(&before, step),
    ensures
        ({
            let peeked = old(before.intake.peekable).peeked();
            &&& old(after.intake.peekable).inner() == old(before.intake.peekable).inner()
            &&& old(after.intake.peekable).requested() == old(before.intake.peekable).requested()
            &&& old(after.intake.peekable).store().room() >= old(before.intake.peekable).store().room()
            &&& before.cap <= peeked.len() <==> (step matches Prepared::Done(Ok(_)))
            &&& match step {
                Prepared::Done(Ok(n)) => {
                    &&& n == 0
                    &&& old(after.intake.peekable).peeked() == peeked
                },
                Prepared::Read => {
                    let asked = old(after.intake.peekable).peeked();
                    &&& asked.len() == before.cap
                    &&& asked.take(peeked.len() as int) == peeked
                    &&& after.lent_out() == asked.skip(peeked.len() as int)
                },
                Prepared::Done(Err(PeekError::Io(error))) => {
                    let store = old(before.intake.peekable).store();
                    &&& old(after.intake.peekable).peeked() == peeked
                    &&& store.refuses_with(before.cap as nat, error)
                    &&& !store.grows_to(before.cap as nat)
                },
                _ => false,
            }
        }),
{
    if step is Read {
        assert(after.intake.peekable.peeked() =~= after.intake.base() + after.intake.lent());
    }
}

/// If the peek buffer is certain to have room for `n` bytes, the reader is lent at
/// least as many as `n` leaves beside what is peeked, unless the peek buffer refuses.
pub proof fn fill_lends_the_room_there_is<'a, R, B: Buffer>(
    before: FillPeekBuf<'a, R, B>,
    after: FillPeekBuf<'a, R, B>,
    step: Prepared,
    n: nat,
)
    requires
        before.idle(),
        call_ensures(B::capacity, (&before.intake.peekable.store(),), before.cap),
        before.intake.peekable.store().has_room(n),
        n > before.intake.peekable.peeked().len(),
        after.follows_prepare(&before, step),
    ensures
        !(step matches Prepared::Done(Ok(_))),
        step is Read ==> after.lent_out().len() >= n - old(before.intake.peekable).peeked().len(),
{
}

} // verus!
