//! Growing a peek buffer by as much as it takes.
use crate::buffer::{resized, Buffer, MAX_LEN};
use vstd::prelude::*;

verus! {

/// How many bytes are asked of the reader at a time when the whole stream is
/// wanted.
pub const READ_CHUNK: usize = 1024;

/// How many sizes `grow_peek_buffer` tries at most.
pub const RUNGS: usize = 11;

/// The sizes that `grow_peek_buffer` tries, largest first: a whole chunk, and
/// then each time half as much, down to a single byte.
pub open spec fn rung(k: nat) -> nat
    decreases k,
{
    if k == 0 {
        READ_CHUNK as nat
    } else {
        rung((k - 1) as nat) / 2
    }
}

/// What the sizes are.
proof fn rungs_spelt_out()
    ensures
        rung(0) == 1024,
        rung(1) == 512,
        rung(2) == 256,
        rung(3) == 128,
        rung(4) == 64,
        rung(5) == 32,
        rung(6) == 16,
        rung(7) == 8,
        rung(8) == 4,
        rung(9) == 2,
        rung(10) == 1,
{
    reveal_with_fuel(rung, 11);
}

/// Whether `growth` is a size that may come out for a buffer that holds `have`
/// bytes: one that the buffer may accept, while no larger size is one that it was
/// certain to accept.
pub open spec fn may_grow_by<B: Buffer>(buffer: B, have: nat, growth: nat) -> bool {
    exists|k: nat|
        #![trigger rung(k)]
        {
            &&& k < RUNGS
            &&& growth == rung(k)
            &&& buffer.may_grow_to(have + growth)
            &&& forall|j: nat| j < k ==> !buffer.grows_to(have + #[trigger] rung(j))
        }
}

/// Whether a buffer that holds `have` bytes is certain to accept some more.
pub open spec fn can_grow<B: Buffer>(buffer: B, have: nat) -> bool {
    exists|k: nat| k < RUNGS && buffer.grows_to(have + #[trigger] rung(k))
}

/// A buffer that is certain to accept one more byte is certain to accept some
/// of the sizes that are tried.
pub proof fn room_for_one_is_enough<B: Buffer>(buffer: B, have: nat)
    requires
        buffer.grows_to(have + 1),
    ensures
        can_grow(buffer, have),
{
    rungs_spelt_out();
}

/// A buffer that is certain to accept a whole chunk grows by a whole chunk.
pub proof fn whole_chunks_are_preferred<B: Buffer>(buffer: B, have: nat, growth: nat)
    requires
        buffer.grows_to(have + READ_CHUNK as nat),
        may_grow_by(buffer, have, growth),
    ensures
        growth == READ_CHUNK,
{
    rungs_spelt_out();
}

/// A buffer that is certain to accept anything up to `fits` more bytes grows by more
/// than half of that.
pub proof fn more_than_half_of_what_fits<B: Buffer>(
    buffer: B,
    have: nat,
    growth: nat,
    fits: nat,
)
    requires
        0 < fits <= READ_CHUNK,
        forall|n: nat| have < n <= have + fits ==> #[trigger] buffer.grows_to(n),
        may_grow_by(buffer, have, growth),
    ensures
        2 * growth > fits,
        growth <= 1024,
{
    rungs_spelt_out();
    let k = choose|k: nat|
        #![trigger rung(k)]
        {
            &&& k < RUNGS
            &&& growth == rung(k)
            &&& buffer.may_grow_to(have + growth)
            &&& forall|j: nat| j < k ==> !buffer.grows_to(have + #[trigger] rung(j))
        };
    assert(k <= 10);
    if k > 0 {
        let above = rung((k - 1) as nat);
        assert(!buffer.grows_to(have + above));
        assert(above == 2 * growth);
    }
}

/// A buffer that accepts nothing beyond the bytes that it holds does not grow.
pub proof fn a_full_buffer_does_not_grow<B: Buffer>(buffer: B, have: nat, growth: nat)
    requires
        forall|n: nat| n > have ==> !#[trigger] buffer.may_grow_to(n),
    ensures
        !may_grow_by(buffer, have, growth),
{
    rungs_spelt_out();
    if may_grow_by(buffer, have, growth) {
        let k = choose|k: nat|
            #![trigger rung(k)]
            k < RUNGS && growth == rung(k) && buffer.may_grow_to(have + growth);
        assert(k <= 10);
        assert(rung(k) > 0);
    }
}

/// Appends zeros to the buffer, for a reader to write over, and returns how
/// many: a whole chunk if the buffer accepts it, else half as many, and so on
/// down to a single byte. If the buffer refuses even that it is left as it was,
/// and the error that it refused the single byte with is returned.
pub fn grow_peek_buffer<B: Buffer>(buffer: &mut B) -> (result: std::io::Result<usize>)
    requires
        old(buffer).contents().len() + READ_CHUNK <= MAX_LEN,
    ensures
        final(buffer).room() >= old(buffer).room(),
        forall|n: nat| #[trigger] old(buffer).has_room(n) ==> final(buffer).has_room(n),
        forall|n: nat| #[trigger] old(buffer).allows(n) ==> final(buffer).allows(n),
        match result {
            Ok(growth) => {
                &&& 0 < growth <= READ_CHUNK
                &&& may_grow_by(*old(buffer), old(buffer).contents().len(), growth as nat)
                &&& final(buffer).contents() == resized(
                    old(buffer).contents(),
                    old(buffer).contents().len() + growth as nat,
                )
            },
            Err(error) => {
                &&& old(buffer).refuses_with(old(buffer).contents().len() + 1, error)
                &&& !can_grow(*old(buffer), old(buffer).contents().len())
                &&& final(buffer).contents() == old(buffer).contents()
            },
        },
{
    let len: usize = buffer.len();
    let mut growth: usize = READ_CHUNK;
    let mut tried: usize = 0;
    proof {
        rungs_spelt_out();
    }
    loop
        invariant
            len == old(buffer).contents().len(),
            len + READ_CHUNK <= MAX_LEN,
            tried < RUNGS,
            growth == rung(tried as nat),
            0 < growth <= READ_CHUNK,
            rung((RUNGS - 1) as nat) == 1,
            buffer.contents() == old(buffer).contents(),
            buffer.room() >= old(buffer).room(),
            forall|n: nat| #[trigger] old(buffer).has_room(n) ==> buffer.has_room(n),
            forall|n: nat| #[trigger] old(buffer).allows(n) ==> buffer.allows(n),
            forall|n: nat| #[trigger] buffer.grows_to(n) == old(buffer).grows_to(n),
            forall|n: nat| #[trigger] buffer.may_grow_to(n) == old(buffer).may_grow_to(n),
            forall|n: nat, e: std::io::Error| #[trigger]
                buffer.refuses_with(n, e) == old(buffer).refuses_with(n, e),
            forall|j: nat| j < tried ==> !old(buffer).grows_to(len as nat + #[trigger] rung(j)),
        decreases growth,
    {
        match buffer.resize(len + growth) {
            Ok(()) => {
                return Ok(growth);
            },
            Err(error) => {
                if tried == RUNGS - 1 {
                    return Err(error);
                }
            },
        }
        proof {
            rungs_spelt_out();
        }
        tried = tried + 1;
        growth = growth / 2;
    }
}

} // verus!
