//! Choosing among several slices.
use vstd::prelude::*;

verus! {

/// Whether the slice at `i` is the first that is not empty.
pub open spec fn is_first_non_empty(bufs: Seq<&mut [u8]>, i: int) -> bool {
    &&& 0 <= i < bufs.len()
    &&& bufs[i]@.len() > 0
    &&& forall|j: int| 0 <= j < i ==> bufs[j]@.len() == 0
}

/// The first slice that is not empty comes before every other that is not, and there is
/// one unless all are empty.
pub proof fn the_first_comes_before_all_others(bufs: Seq<&mut [u8]>, j: int)
    requires
        0 <= j < bufs.len(),
        bufs[j]@.len() > 0,
    ensures
        exists|i: int| i <= j && is_first_non_empty(bufs, i),
        forall|i: int| #[trigger] is_first_non_empty(bufs, i) ==> 0 <= i <= j,
    decreases j,
{
    if exists|k: int| 0 <= k < j && bufs[k]@.len() > 0 {
        let k = choose|k: int| 0 <= k < j && bufs[k]@.len() > 0;
        the_first_comes_before_all_others(bufs, k);
    } else {
        assert(is_first_non_empty(bufs, j));
    }
}

/// The first slice that is not empty, or an empty one if there is none.
pub fn first_non_empty<'a>(bufs: &'a mut [&'a mut [u8]]) -> (buf: &'a mut [u8])
    ensures
        (forall|i: int| 0 <= i < old(bufs)@.len() ==> old(bufs)@[i]@.len() == 0)
            ==> buf@.len() == 0 && final(bufs)@ == old(bufs)@,
        forall|i: int| #[trigger]
            is_first_non_empty(old(bufs)@, i) ==> {
                &&& buf@ == old(bufs)@[i]@
                &&& final(bufs)@.len() == old(bufs)@.len()
                &&& final(bufs)@[i]@ == final(buf)@
                &&& forall|j: int|
                    0 <= j < old(bufs)@.len() && j != i ==> final(bufs)@[j] == old(bufs)@[j]
            },
{
    let mut i: usize = 0;
    while i < bufs.len() && bufs[i].len() == 0
        invariant
            bufs@ == old(bufs)@,
            i <= bufs@.len(),
            forall|j: int| 0 <= j < i ==> bufs@[j]@.len() == 0,
        decreases bufs@.len() - i,
    {
        i = i + 1;
    }
    if i < bufs.len() {
        &mut *bufs[i]
    } else {
        &mut []
    }
}

} // verus!
