//! The POSIX backend: descriptions that the C library's message lookup wrote
//! as a NUL-terminated byte string.
use crate::text::{
    before_first, is_white_space, lemma_before_first, lemma_trim_end, outcome, str_from_utf8,
    trim_end, trim_right,
};
use crate::Errno;
use vstd::prelude::*;
use vstd::utf8::*;

verus! {

/// The name of the facility that this backend's descriptions come from.
pub const STRERROR_NAME: &'static str = "strerror_r";

/// The size in bytes of the buffer that the lookup is given to write into.
pub const MESSAGE_CAPACITY: usize = 1024;

/// What the description of a code is, once the lookup has returned `status`
/// and left `buf`: a failure that carries `mechanism_error` where `status` is
/// negative or the bytes before the first NUL are no well-formed UTF-8; else
/// the text of those bytes, without the white space at its end.
pub open spec fn description(status: i32, buf: Seq<u8>, mechanism_error: Errno) -> Result<
    Seq<char>,
    Errno,
> {
    let message = before_first(buf, 0u8);
    if status < 0 || !valid_utf8(message) {
        Err(mechanism_error)
    } else {
        Ok(trim_end(decode_utf8(message)))
    }
}

/// A description does not end in white space, and so in no line end.
pub proof fn lemma_description_is_trimmed(status: i32, buf: Seq<u8>, mechanism_error: Errno)
    ensures
        description(status, buf, mechanism_error) matches Ok(text) ==> text.len() == 0
            || !is_white_space(text.last()),
{
    lemma_trim_end(decode_utf8(before_first(buf, 0u8)));
}

/// The number of bytes of `buf` that come before its first NUL.
fn c_string_len(buf: &[u8]) -> (len: usize)
    ensures
        len <= buf@.len(),
        buf@.take(len as int) == before_first(buf@, 0u8),
{
    let mut len: usize = 0;
    while len < buf.len() && buf[len] != 0
        invariant
            len <= buf@.len(),
            forall|j: int| 0 <= j < len ==> buf@[j] != 0u8,
        decreases buf@.len() - len,
    {
        len = len + 1;
    }
    proof {
        lemma_before_first(buf@, 0u8, len as int);
    }
    len
}

/// Hands `callback` the description that the lookup's outcome stands for,
/// and returns what `callback` made of it.
///
/// `status` is what the lookup returned and `buf` the buffer that it wrote
/// into; `mechanism_error` is the error indicator as it stood after the
/// lookup.
pub fn with_description<F, T>(
    status: i32,
    buf: &[u8],
    mechanism_error: Errno,
    callback: F,
) -> (result: T) where F: FnOnce(Result<&str, Errno>) -> T
    requires
        forall|given: Result<&str, Errno>|
            outcome(given) == description(status, buf@, mechanism_error) ==> callback.requires(
                (given,),
            ),
    ensures
        exists|given: Result<&str, Errno>|
            outcome(given) == description(status, buf@, mechanism_error) && callback.ensures(
                (given,),
                result,
            ),
{
    if status < 0 {
        let given: Result<&str, Errno> = Err(mechanism_error);
        assert(outcome(given) == description(status, buf@, mechanism_error));
        return callback(given);
    }
    let len = c_string_len(buf);
    match str_from_utf8(&buf[0..len]) {
        Some(message) => {
            let given: Result<&str, Errno> = Ok(trim_right(message));
            assert(outcome(given) == description(status, buf@, mechanism_error));
            callback(given)
        },
        None => {
            let given: Result<&str, Errno> = Err(mechanism_error);
            assert(outcome(given) == description(status, buf@, mechanism_error));
            callback(given)
        },
    }
}

} // verus!
