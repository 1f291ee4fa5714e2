//! Peeking as many bytes as fit comes to a full slice.
use super::{all_delivered, is_round, is_run, run_before, Round};
use crate::attempt::{Attempt, Prepared, Settled};
use crate::buffer::Buffer;
use crate::error::PeekError;
use crate::ops::{Operation, PeekExact};
use vstd::prelude::*;

verus! {

/// However many reads it takes and whatever the reader does in them, what is peeked
/// afterwards is what was peeked before and then all that the reader delivered. The
/// slice begins with exactly that, and is otherwise as it was. The reader was never
/// lent more than it took to fill the slice.
pub proof fn peek_exact_collects_the_stream<'a, R, B: Buffer>(
    rounds: Seq<Round<PeekExact<'a, R, B>>>,
)
    requires
        is_run::<R, PeekExact<'a, R, B>>(rounds),
        rounds[0].start.filled == 0,
    ensures
        ({
            let first = rounds[0].start;
            let end = rounds.last().end;
            let all = first.intake.peekable.peeked() + all_delivered::<R, PeekExact<'a, R, B>>(
                rounds,
            );
            &&& end.intake.open_at is None
            &&& end.intake.peekable.requested() == first.intake.peekable.requested()
            &&& end.intake.peekable.store().room() >= first.intake.peekable.store().room()
            &&& end.intake.peekable.peeked() == all
            &&& end.intake.peekable.inner() == rounds.last().lent.intake.peekable.inner()
            &&& all.len() <= first.buf@.len()
            &&& end.buf@ == all + first.buf@.skip(all.len() as int)
            &&& rounds.last().lent.lent_out().len() == first.buf@.len()
                - rounds.last().start.intake.peekable.peeked().len()
        }),
    decreases rounds.len(),
{
    let first = rounds[0].start;
    let round = rounds.last();
    assert(is_round::<R, PeekExact<'a, R, B>>(rounds[rounds.len() - 1]));
    let had = first.intake.peekable.peeked() + all_delivered::<R, PeekExact<'a, R, B>>(
        rounds.drop_last(),
    );
    if rounds.len() > 1 {
        run_before::<R, PeekExact<'a, R, B>>(rounds);
        peek_exact_collects_the_stream(rounds.drop_last());
    } else {
        assert(rounds.drop_last() =~= Seq::empty());
        assert(had =~= first.intake.peekable.peeked());
    }
    let all = first.intake.peekable.peeked() + all_delivered::<R, PeekExact<'a, R, B>>(rounds);
    assert(round.end.intake.peekable.peeked() =~= all);
    assert(round.lent.buf@ =~= had + first.buf@.skip(had.len() as int));
    assert(round.end.buf@ =~= all + first.buf@.skip(all.len() as int));
}

/// It is complete when the slice is full of what was peeked before and what the
/// reader delivered, and only then. Until then it goes on as long as the reader
/// delivers something, is interrupted or is not ready. If the reader comes to its end
/// before, the operation fails for that. If the reader fails, so does the operation,
/// with the reader's error.
pub proof fn peek_exact_completes_when_full<'a, R, B: Buffer>(
    rounds: Seq<Round<PeekExact<'a, R, B>>>,
)
    requires
        is_run::<R, PeekExact<'a, R, B>>(rounds),
        rounds[0].start.filled == 0,
    ensures
        forall|i: int| 0 <= i < rounds.len() - 1 ==> (#[trigger] rounds[i]).may_go_on(),
        ({
            let last = rounds.last();
            let wanted = rounds[0].start.buf@.len();
            let all = rounds[0].start.intake.peekable.peeked() + all_delivered::<
                R,
                PeekExact<'a, R, B>,
            >(rounds);
            match last.step {
                Settled::Done(Ok(n)) => {
                    &&& n == wanted
                    &&& last.end.buf@.len() == wanted
                    &&& last.end.buf@ == all
                    &&& last.end.intake.peekable.peeked() == all
                },
                Settled::Done(Err(PeekError::UnexpectedEof)) => {
                    last.attempt == Attempt::Ready(0) && all.len() < wanted
                },
                Settled::Done(Err(PeekError::Io(error))) => {
                    last.attempt == Attempt::Failed(error) || last.attempt
                        == Attempt::WouldBlock(error)
                },
                Settled::Done(Err(_)) => false,
                Settled::Pending => last.attempt is Pending && all.len() < wanted,
                Settled::Again => {
                    last.may_go_on() && !(last.attempt is Pending) && all.len() < wanted
                },
            }
        }),
{
    assert forall|i: int| 0 <= i < rounds.len() implies is_round::<R, PeekExact<'a, R, B>>(
        #[trigger] rounds[i],
    ) && (i < rounds.len() - 1 ==> rounds[i].may_go_on()) by {
        if i < rounds.len() - 1 {
            assert(rounds[i + 1].start == rounds[i].end);
        }
    }
    peek_exact_collects_the_stream(rounds);
    let last = rounds[rounds.len() - 1];
    let all = last.end.intake.peekable.peeked();
    if all.len() == rounds[0].start.buf@.len() {
        assert(last.end.buf@ =~= all);
    }
}

/// The reader is not asked if enough has been peeked: the operation is complete then,
/// and the slice is full of the first bytes that were peeked, which stay peeked. If it
/// is asked, it is for what is missing. If the peek buffer refuses to take that, the
/// operation fails with the peek buffer's error, and nothing else is lost by it.
pub proof fn peek_exact_is_complete_unasked_when_full<'a, R, B: Buffer>(
    before: PeekExact<'a, R, B>,
    after: PeekExact<'a, R, B>,
    step: Prepared,
)
    requires
        before.idle(),
        after.follows_prepare(&before, step),
    ensures
        ({
            let peeked = old(before.intake.peekable).peeked();
            let wanted = old(before.buf)@.len();
            &&& old(after.intake.peekable).inner() == old(before.intake.peekable).inner()
            &&& old(after.intake.peekable).requested() == old(before.intake.peekable).requested()
            &&& old(after.intake.peekable).store().room() >= old(before.intake.peekable).store().room()
            &&& old(after.buf)@.len() == wanted
            &&& wanted <= peeked.len() <==> (step matches Prepared::Done(Ok(_)))
            &&& match step {
                Prepared::Done(Ok(n)) => {
                    &&& n == wanted
                    &&& old(after.buf)@ == peeked.take(n as int)
                    &&& old(after.intake.peekable).peeked() == peeked
                },
                Prepared::Read => {
                    let asked = old(after.intake.peekable).peeked();
                    &&& asked.len() == wanted
                    &&& asked.take(peeked.len() as int) == peeked
                    &&& after.lent_out() == asked.skip(peeked.len() as int)
                },
                Prepared::Done(Err(PeekError::Io(error))) => {
                    let store = old(before.intake.peekable).store();
                    &&& old(after.intake.peekable).peeked() == peeked
                    &&& store.refuses_with(wanted, error)
                    &&& !store.grows_to(wanted)
                },
                _ => false,
            }
        }),
{
    if step is Read {
        let peeked = before.intake.peekable.peeked();
        let asked = after.intake.peekable.peeked();
        assert(asked =~= after.intake.base() + after.intake.lent());
    }
}

} // verus!
