//! Peeking a whole stream as text comes to having all of it, if it is text.
use super::{all_delivered, is_round, is_run, run_before, Round};
use crate::attempt::{Attempt, Prepared, Settled};
use crate::buffer::Buffer;
use crate::error::PeekError;
use crate::growth::room_for_one_is_enough;
use crate::ops::{Operation, PeekToString};
use crate::text::{
    early_rejection_is_right, is_longest_valid, longest_valid_exists, utf8_error,
};
use vstd::prelude::*;
use vstd::utf8::{decode_utf8, valid_utf8};

verus! {

/// However many reads it takes and whatever the reader does in them, what is peeked
/// afterwards is what was peeked before and then all that the reader delivered. The
/// string has got nothing as long as the operation goes on.
pub proof fn peek_to_string_collects_the_stream<'a, R, B: Buffer>(
    rounds: Seq<Round<PeekToString<'a, R, B>>>,
)
    requires
        is_run::<R, PeekToString<'a, R, B>>(rounds),
    ensures
        ({
            let first = rounds[0].start;
            let last = rounds.last();
            let all = first.intake.peekable.peeked() + all_delivered::<R, PeekToString<'a, R, B>>(
                rounds,
            );
            &&& last.end.intake.open_at is None
            &&& last.end.intake.peekable.requested() == first.intake.peekable.requested()
            &&& last.end.intake.peekable.store().room() >= first.intake.peekable.store().room()
            &&& last.end.intake.peekable.peeked() == all
            &&& last.end.intake.peekable.inner() == last.lent.intake.peekable.inner()
            &&& last.goes_on() ==> last.end.out@ == first.out@
            &&& last.start.out@ == first.out@
            &&& last.start.keep_valid_prefix == first.keep_valid_prefix
            &&& last.end.keep_valid_prefix == first.keep_valid_prefix
        }),
    decreases rounds.len(),
{
    let first = rounds[0].start;
    let round = rounds.last();
    assert(is_round::<R, PeekToString<'a, R, B>>(rounds[rounds.len() - 1]));
    if rounds.len() > 1 {
        run_before::<R, PeekToString<'a, R, B>>(rounds);
        peek_to_string_collects_the_stream(rounds.drop_last());
    } else {
        assert(rounds.drop_last() =~= Seq::empty());
    }
    let had = first.intake.peekable.peeked() + all_delivered::<R, PeekToString<'a, R, B>>(
        rounds.drop_last(),
    );
    assert(round.start.intake.peekable.peeked() =~= had);
    let all = first.intake.peekable.peeked() + all_delivered::<R, PeekToString<'a, R, B>>(rounds);
    assert(round.end.intake.peekable.peeked() =~= all);
}

/// It goes on as long as the reader delivers something, is interrupted or is not
/// ready, wherever in a character that may leave it. When the reader is at its end,
/// what was peeked before and what the reader delivered is looked at as a whole: if
/// it is text the operation is complete with its length, and the string has got all
/// of it; if it is not, the operation fails for that, and the string is as it was. If
/// the reader fails, so does the operation, with the reader's error, and the string
/// has got the whole if it is text, and otherwise nothing or, if asked to, the
/// longest beginning that is.
pub proof fn peek_to_string_judges_the_whole<'a, R, B: Buffer>(
    rounds: Seq<Round<PeekToString<'a, R, B>>>,
)
    requires
        is_run::<R, PeekToString<'a, R, B>>(rounds),
    ensures
        forall|i: int| 0 <= i < rounds.len() - 1 ==> (#[trigger] rounds[i]).may_go_on(),
        ({
            let first = rounds[0].start;
            let last = rounds.last();
            let all = first.intake.peekable.peeked() + all_delivered::<R, PeekToString<'a, R, B>>(
                rounds,
            );
            match last.step {
                Settled::Done(Ok(n)) => {
                    &&& last.attempt == Attempt::Ready(0)
                    &&& valid_utf8(all)
                    &&& n == all.len()
                    &&& last.end.out@ == first.out@ + decode_utf8(all)
                },
                Settled::Done(Err(PeekError::InvalidUtf8(error))) => {
                    &&& last.attempt == Attempt::Ready(0)
                    &&& !valid_utf8(all)
                    &&& error == utf8_error(all)
                    &&& last.end.out@ == first.out@
                },
                Settled::Done(Err(PeekError::Io(error))) => {
                    &&& last.attempt == Attempt::Failed(error) || last.attempt
                        == Attempt::WouldBlock(error)
                    &&& valid_utf8(all) ==> last.end.out@ == first.out@ + decode_utf8(all)
                    &&& !valid_utf8(all) && !first.keep_valid_prefix ==> last.end.out@
                        == first.out@
                    &&& !valid_utf8(all) && first.keep_valid_prefix ==> exists|k: int|
                        #![trigger all.take(k)]
                        {
                            &&& is_longest_valid(all, k)
                            &&& last.end.out@ == first.out@ + decode_utf8(all.take(k))
                        }
                },
                Settled::Done(Err(_)) => false,
                Settled::Pending => last.attempt is Pending,
                Settled::Again => last.may_go_on() && !(last.attempt is Pending),
            }
        }),
{
    assert forall|i: int| 0 <= i < rounds.len() implies is_round::<R, PeekToString<'a, R, B>>(
        #[trigger] rounds[i],
    ) && (i < rounds.len() - 1 ==> rounds[i].may_go_on()) by {
        if i < rounds.len() - 1 {
            assert(rounds[i + 1].start == rounds[i].end);
        }
    }
    peek_to_string_collects_the_stream(rounds);
    let first = rounds[0].start;
    let last = rounds[rounds.len() - 1];
    let all = first.intake.peekable.peeked() + all_delivered::<R, PeekToString<'a, R, B>>(rounds);
    longest_valid_exists(all);
    assert(last.lent.out@ == first.out@);
    if !(last.attempt is Ready) || last.attempt == Attempt::Ready(0) {
        assert(last.lent.intake.base() =~= all);
    }
    assert(first.out@ + Seq::<char>::empty() =~= first.out@);
}

/// Preparing it never completes it. The first time, it fails for what was peeked not
/// being text, with the string as it was, if and only if nothing that may follow can
/// make it text; later on it never does. Otherwise the reader is to be asked, for at
/// least one byte, unless the peek buffer refuses to take what is to be asked for,
/// with an error of its own.
pub proof fn peek_to_string_rejects_only_what_nothing_completes<'a, R, B: Buffer>(
    before: PeekToString<'a, R, B>,
    after: PeekToString<'a, R, B>,
    step: Prepared,
)
    requires
        before.idle(),
        after.follows_prepare(&before, step),
    ensures
        ({
            let peeked = old(before.intake.peekable).peeked();
            let store = old(before.intake.peekable).store();
            &&& old(after.intake.peekable).inner() == old(before.intake.peekable).inner()
            &&& old(after.intake.peekable).requested() == old(before.intake.peekable).requested()
            &&& old(after.intake.peekable).store().room() >= old(before.intake.peekable).store().room()
            &&& match step {
                Prepared::Read => {
                    let asked = old(after.intake.peekable).peeked();
                    &&& before.started || exists|rest: Seq<u8>|
                        valid_utf8(#[trigger] (peeked + rest))
                    &&& old(after.out)@ == old(before.out)@
                    &&& after.started
                    &&& asked.len() > peeked.len()
                    &&& asked.take(peeked.len() as int) == peeked
                    &&& after.lent_out() == asked.skip(peeked.len() as int)
                },
                Prepared::Done(Err(PeekError::InvalidUtf8(error))) => {
                    &&& !before.started
                    &&& forall|rest: Seq<u8>| !valid_utf8(#[trigger] (peeked + rest))
                    &&& !valid_utf8(peeked)
                    &&& error == utf8_error(peeked)
                    &&& old(after.out)@ == old(before.out)@
                    &&& old(after.intake.peekable).peeked() == peeked
                },
                Prepared::Done(Err(PeekError::Io(error))) => {
                    &&& before.started || exists|rest: Seq<u8>|
                        valid_utf8(#[trigger] (peeked + rest))
                    &&& old(after.intake.peekable).peeked() == peeked
                    &&& if before.whole_chunks {
                        store.refuses_with(peeked.len() + 1024, error) && !store.grows_to(
                            peeked.len() + 1024,
                        )
                    } else {
                        store.refuses_with(peeked.len() + 1, error) && !store.grows_to(
                            peeked.len() + 1,
                        )
                    }
                    &&& valid_utf8(peeked) ==> old(after.out)@ == old(before.out)@ + decode_utf8(
                        peeked,
                    )
                    &&& !valid_utf8(peeked) && !before.keep_valid_prefix ==> old(after.out)@
                        == old(before.out)@
                    &&& !valid_utf8(peeked) && before.keep_valid_prefix ==> exists|k: int|
                        #![trigger peeked.take(k)]
                        {
                            &&& is_longest_valid(peeked, k)
                            &&& old(after.out)@ == old(before.out)@ + decode_utf8(peeked.take(k))
                        }
                },
                _ => false,
            }
        }),
{
    let peeked = before.intake.peekable.peeked();
    let store = before.intake.peekable.store();
    early_rejection_is_right(peeked, Seq::empty());
    longest_valid_exists(peeked);
    assert(before.out@ + Seq::<char>::empty() =~= before.out@);
    if store.grows_to(peeked.len() + 1) {
        room_for_one_is_enough(store, peeked.len());
    }
    if step is Read {
        assert(after.intake.peekable.peeked() =~= after.intake.base() + after.intake.lent());
    }
}

/// A stream that is text is never rejected: if what was peeked before, what the reader
/// has delivered and something yet to come are together text, then no read fails for
/// the bytes not being text but one that finds the reader at its end too early, and no
/// preparation does.
pub proof fn text_is_never_rejected<'a, R, B: Buffer>(
    rounds: Seq<Round<PeekToString<'a, R, B>>>,
    prepared: PeekToString<'a, R, B>,
    step: Prepared,
    rest: Seq<u8>,
)
    requires
        is_run::<R, PeekToString<'a, R, B>>(rounds),
        valid_utf8(
            rounds[0].start.intake.peekable.peeked() + all_delivered::<R, PeekToString<'a, R, B>>(
                rounds,
            ) + rest,
        ),
    ensures
        rounds.last().step matches Settled::Done(Err(PeekError::InvalidUtf8(_))) ==> rest.len() > 0
            && rounds.last().attempt == Attempt::Ready(0),
        rest.len() == 0 && rounds.last().attempt == Attempt::Ready(0) ==> (
        rounds.last().step matches Settled::Done(Ok(_))),
        rounds.last().goes_on() && prepared.follows_prepare(&rounds.last().end, step) ==> !(
        step matches Prepared::Done(Err(PeekError::InvalidUtf8(_)))),
{
    peek_to_string_collects_the_stream(rounds);
    peek_to_string_judges_the_whole(rounds);
    let all = rounds[0].start.intake.peekable.peeked() + all_delivered::<
        R,
        PeekToString<'a, R, B>,
    >(rounds);
    if rest.len() == 0 {
        assert(all + rest =~= all);
    }
    early_rejection_is_right(all, rest);
}

} // verus!
