//! Peeking a whole stream comes to having all of it.
use super::{all_delivered, is_round, is_run, run_before, Round};
use crate::attempt::{Attempt, Prepared, Settled};
use crate::buffer::Buffer;
use crate::error::PeekError;
use crate::growth::room_for_one_is_enough;
use crate::ops::{Operation, PeekToEnd};
use vstd::prelude::*;

verus! {

/// However many reads it takes and whatever the reader does in them, what is peeked
/// afterwards is what was peeked before and then all that the reader delivered, and
/// the vector has got exactly that behind what it held.
pub proof fn peek_to_end_collects_the_stream<'a, R, B: Buffer>(
    rounds: Seq<Round<PeekToEnd<'a, R, B>>>,
)
    requires
        is_run::<R, PeekToEnd<'a, R, B>>(rounds),
        !rounds[0].start.prefix_copied,
    ensures
        ({
            let first = rounds[0].start;
            let end = rounds.last().end;
            let all = first.intake.peekable.peeked() + all_delivered::<R, PeekToEnd<'a, R, B>>(
                rounds,
            );
            &&& end.intake.open_at is None
            &&& end.intake.peekable.requested() == first.intake.peekable.requested()
            &&& end.intake.peekable.store().room() >= first.intake.peekable.store().room()
            &&& end.intake.peekable.peeked() == all
            &&& end.out@ == first.out@ + all
            &&& end.intake.peekable.inner() == rounds.last().lent.intake.peekable.inner()
        }),
    decreases rounds.len(),
{
    let first = rounds[0].start;
    let round = rounds.last();
    assert(is_round::<R, PeekToEnd<'a, R, B>>(rounds[rounds.len() - 1]));
    assert(first.origin() =~= first.out@) by {
        assert(is_round::<R, PeekToEnd<'a, R, B>>(rounds[0]));
        assert(first.out@.skip(first.start as int).len() == 0);
    }
    if rounds.len() > 1 {
        let front = rounds.drop_last();
        run_before::<R, PeekToEnd<'a, R, B>>(rounds);
        peek_to_end_collects_the_stream(front);
    } else {
        assert(rounds.drop_last() =~= Seq::empty());
    }
    let all = first.intake.peekable.peeked() + all_delivered::<R, PeekToEnd<'a, R, B>>(rounds);
    let before = first.intake.peekable.peeked() + all_delivered::<R, PeekToEnd<'a, R, B>>(
        rounds.drop_last(),
    );
    assert(round.start.intake.peekable.peeked() =~= before);
    assert(round.end.intake.peekable.peeked() =~= all);
    assert(round.end.out@ =~= first.out@ + all);
}

/// It goes on as long as the reader delivers something, is interrupted or is not
/// ready, and no longer. It is complete when the reader is at its end, and only then:
/// with as many bytes as were peeked before and as the reader delivered until it came
/// there. If the reader fails, so does the operation, with the reader's error.
pub proof fn peek_to_end_completes_at_the_end<'a, R, B: Buffer>(
    rounds: Seq<Round<PeekToEnd<'a, R, B>>>,
)
    requires
        is_run::<R, PeekToEnd<'a, R, B>>(rounds),
        !rounds[0].start.prefix_copied,
    ensures
        forall|i: int| 0 <= i < rounds.len() - 1 ==> (#[trigger] rounds[i]).may_go_on(),
        ({
            let last = rounds.last();
            let all = rounds[0].start.intake.peekable.peeked().len() + all_delivered::<
                R,
                PeekToEnd<'a, R, B>,
            >(rounds).len();
            match last.step {
                Settled::Done(Ok(n)) => last.attempt == Attempt::Ready(0) && n == all,
                Settled::Done(Err(PeekError::Io(error))) => {
                    last.attempt == Attempt::Failed(error) || last.attempt
                        == Attempt::WouldBlock(error)
                },
                Settled::Done(Err(_)) => false,
                Settled::Pending => last.attempt is Pending,
                Settled::Again => last.may_go_on() && !(last.attempt is Pending),
            }
        }),
{
    assert forall|i: int| 0 <= i < rounds.len() implies is_round::<R, PeekToEnd<'a, R, B>>(
        #[trigger] rounds[i],
    ) && (i < rounds.len() - 1 ==> rounds[i].may_go_on()) by {
        if i < rounds.len() - 1 {
            assert(rounds[i + 1].start == rounds[i].end);
        }
    }
    peek_to_end_collects_the_stream(rounds);
    assert(is_round::<R, PeekToEnd<'a, R, B>>(rounds[rounds.len() - 1]));
}

/// Preparing it never completes it. Either the reader is to be asked, for at least
/// one byte, or the peek buffer refuses to take another byte, with an error of its
/// own. Either way the vector has got what was peeked, once, and nothing else.
pub proof fn peek_to_end_is_never_complete_unasked<'a, R, B: Buffer>(
    before: PeekToEnd<'a, R, B>,
    after: PeekToEnd<'a, R, B>,
    step: Prepared,
)
    requires
        before.idle(),
        after.follows_prepare(&before, step),
    ensures
        ({
            let peeked = old(before.intake.peekable).peeked();
            &&& old(after.intake.peekable).inner() == old(before.intake.peekable).inner()
            &&& old(after.intake.peekable).requested() == old(before.intake.peekable).requested()
            &&& old(after.intake.peekable).store().room() >= old(before.intake.peekable).store().room()
            &&& old(after.out)@ == old(before.out)@ + if before.prefix_copied {
                Seq::empty()
            } else {
                peeked
            }
            &&& match step {
                Prepared::Read => {
                    let asked = old(after.intake.peekable).peeked();
                    &&& asked.len() > peeked.len()
                    &&& asked.take(peeked.len() as int) == peeked
                    &&& after.lent_out() == asked.skip(peeked.len() as int)
                },
                Prepared::Done(Err(PeekError::Io(error))) => {
                    let store = old(before.intake.peekable).store();
                    &&& old(after.intake.peekable).peeked() == peeked
                    &&& store.refuses_with(peeked.len() + 1, error)
                    &&& !store.grows_to(peeked.len() + 1)
                },
                _ => false,
            }
        }),
{
    let peeked = before.intake.peekable.peeked();
    assert(before.out@ =~= before.origin() + before.out@.skip(before.start as int));
    assert(after.out@ =~= before.out@ + if before.prefix_copied {
        Seq::empty()
    } else {
        peeked
    });
    if before.intake.peekable.store().grows_to(peeked.len() + 1) {
        room_for_one_is_enough(before.intake.peekable.store(), peeked.len());
    }
}

} // verus!
