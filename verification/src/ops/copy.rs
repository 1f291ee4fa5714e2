//! Copying bytes to the front of a slice.
use vstd::prelude::*;

verus! {

/// `<[T]>::copy_from_slice`: `dst` now holds the elements of `src`, which must
/// be as many as it has room for.
pub assume_specification<T>[ <[T]>::copy_from_slice ](dst: &mut [T], src: &[T]) where T: Copy
    requires
        old(dst)@.len() == src@.len(),
    ensures
        final(dst)@ == src@,
;

/// `bytes` with its front replaced by `front`.
pub open spec fn overlaid(bytes: Seq<u8>, front: Seq<u8>) -> Seq<u8> {
    front + bytes.skip(front.len() as int)
}

/// Copies `src` to the front of `dst`.
pub(crate) fn copy_to_front(dst: &mut [u8], src: &[u8])
    requires
        src@.len() <= old(dst)@.len(),
    ensures
        final(dst)@ == overlaid(old(dst)@, src@),
{
    let (front, _rest) = dst.split_at_mut(src.len());
    front.copy_from_slice(src);
}

} // verus!
