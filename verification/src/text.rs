//! Telling text from other bytes.
use vstd::prelude::*;
use vstd::utf8::{decode_utf8, decode_utf8_encode_utf8, encode_utf8, valid_utf8};

verus! {

/// Whether `bytes` are the beginning of some text: valid UTF-8 as they stand,
/// or once the sequence that they break off in is complete.
pub open spec fn completable(bytes: Seq<u8>) -> bool {
    exists|rest: Seq<u8>| valid_utf8(#[trigger] (bytes + rest))
}

/// Whether the first `n` of `bytes` are valid UTF-8, and no longer beginning is.
pub open spec fn is_longest_valid(bytes: Seq<u8>, n: int) -> bool {
    &&& 0 <= n <= bytes.len()
    &&& valid_utf8(bytes.take(n))
    &&& forall|m: int| n < m <= bytes.len() ==> !valid_utf8(#[trigger] bytes.take(m))
}

/// How many of `bytes`, from the first on, are valid UTF-8.
pub open spec fn valid_len(bytes: Seq<u8>) -> int {
    choose|n: int| is_longest_valid(bytes, n)
}

/// The text that can be had of `bytes`: all of it if they are valid UTF-8. If
/// they are not, the longest beginning that is, or nothing at all if only the
/// whole will do.
pub open spec fn salvaged(bytes: Seq<u8>, keep_valid_prefix: bool) -> Seq<char> {
    if valid_utf8(bytes) {
        decode_utf8(bytes)
    } else if keep_valid_prefix {
        decode_utf8(bytes.take(valid_len(bytes)))
    } else {
        Seq::empty()
    }
}

/// Of any bytes, some beginning is the longest that is valid UTF-8.
pub proof fn longest_valid_exists(bytes: Seq<u8>)
    ensures
        is_longest_valid(bytes, valid_len(bytes)),
{
    longest_valid_exists_up_to(bytes, bytes.len() as int);
}

/// If no beginning longer than `n` is valid UTF-8, the longest is among the
/// others.
proof fn longest_valid_exists_up_to(bytes: Seq<u8>, n: int)
    requires
        0 <= n <= bytes.len(),
        forall|m: int| n < m <= bytes.len() ==> !valid_utf8(#[trigger] bytes.take(m)),
    ensures
        exists|k: int| is_longest_valid(bytes, k),
    decreases n,
{
    if valid_utf8(bytes.take(n)) {
        assert(is_longest_valid(bytes, n));
    } else {
        assert(n != 0);
        longest_valid_exists_up_to(bytes, n - 1);
    }
}

/// No two beginnings are both the longest that is valid UTF-8.
pub proof fn longest_valid_is_unique(bytes: Seq<u8>, n: int, m: int)
    requires
        is_longest_valid(bytes, n),
        is_longest_valid(bytes, m),
    ensures
        n == m,
{
}

/// Rejecting bytes that nothing can complete never rejects a stream that turns
/// out to be text, and a stream that is text is never rejected for where it was
/// broken off.
pub proof fn early_rejection_is_right(bytes: Seq<u8>, rest: Seq<u8>)
    ensures
        valid_utf8(bytes + rest) ==> completable(bytes),
        completable(bytes + rest) ==> completable(bytes),
        valid_utf8(bytes) ==> completable(bytes),
{
    if completable(bytes + rest) {
        let more = choose|more: Seq<u8>| valid_utf8(#[trigger] (bytes + rest + more));
        assert(bytes + rest + more =~= bytes + (rest + more));
    }
    assert(bytes + Seq::<u8>::empty() =~= bytes);
}

/// What is had of some bytes is never anything but a beginning of them: all of
/// them if they are text; if not, the longest beginning that is, or nothing.
pub proof fn salvage_is_a_beginning(bytes: Seq<u8>, keep_valid_prefix: bool)
    ensures
        ({
            let text = encode_utf8(salvaged(bytes, keep_valid_prefix));
            &&& text.is_prefix_of(bytes)
            &&& valid_utf8(bytes) ==> text == bytes
            &&& keep_valid_prefix ==> text.len() == valid_len(bytes)
            &&& !keep_valid_prefix && !valid_utf8(bytes) ==> text.len() == 0
        }),
{
    longest_valid_exists(bytes);
    let n = valid_len(bytes);
    let all = bytes.len() as int;
    assert(bytes.take(all) =~= bytes);
    if valid_utf8(bytes) {
        longest_valid_is_unique(bytes, n, all);
        decode_utf8_encode_utf8(bytes);
    } else {
        decode_utf8_encode_utf8(bytes.take(n));
    }
}

/// How a slice of bytes fails to be text.
pub(crate) struct Fault {
    /// How many bytes are valid before the first that is not.
    pub(crate) valid_up_to: usize,
    /// How long the invalid sequence is, or `None` if the bytes merely break
    /// off in the middle of a valid one.
    pub(crate) error_len: Option<usize>,
    /// The same, as an error.
    pub(crate) error: core::str::Utf8Error,
}

/// The error that `core::str::from_utf8` rejects `bytes` with, if it does.
pub uninterp spec fn utf8_error(bytes: Seq<u8>) -> core::str::Utf8Error;

/// `core::str::from_utf8`, with the two parts of the `Utf8Error` taken out by
/// its methods `valid_up_to` and `error_len`: the slice as text if it is valid
/// UTF-8, and otherwise the error, the length of its longest valid beginning,
/// and whether more bytes could still make it valid. What `error_len` is when
/// it is `Some` is left unsaid.
#[verifier::external_body]
pub(crate) fn check_utf8(bytes: &[u8]) -> (result: Result<&str, Fault>)
    ensures
        match result {
            Ok(text) => valid_utf8(bytes@) && text@ == decode_utf8(bytes@),
            Err(fault) => {
                &&& !valid_utf8(bytes@)
                &&& is_longest_valid(bytes@, fault.valid_up_to as int)
                &&& fault.error_len is None <==> completable(bytes@)
                &&& fault.error == utf8_error(bytes@)
            },
        },
{
    core::str::from_utf8(bytes).map_err(|e| Fault {
        valid_up_to: e.valid_up_to(),
        error_len: e.error_len(),
        error: e,
    })
}

/// Appends the text that can be had of `bytes` to `out`.
pub(crate) fn salvage(bytes: &[u8], keep_valid_prefix: bool, out: &mut String)
    ensures
        final(out)@ == old(out)@ + salvaged(bytes@, keep_valid_prefix),
{
    match check_utf8(bytes) {
        Ok(text) => {
            vstd::string::StringExecFns::append(out, text);
        },
        Err(fault) => {
            if keep_valid_prefix {
                let (front, _rest) = bytes.split_at(fault.valid_up_to);
                proof {
                    longest_valid_is_unique(bytes@, fault.valid_up_to as int, valid_len(bytes@));
                }
                if let Ok(text) = check_utf8(front) {
                    vstd::string::StringExecFns::append(out, text);
                }
            }
        },
    }
}

} // verus!
