//! Parsing of a raw instrument response buffer: find the line terminator,
//! strip the assumed 12-byte response header, and decode the rest as text.

use crate::error::UsbtmcError;
use crate::helper::UsbtmcResult;
use vstd::prelude::*;
use vstd::slice::slice_subrange;
use vstd::string::StringExecFns;
use vstd::utf8::{decode_utf8, valid_utf8};

verus! {

/// Whether a byte ends a response line: newline or carriage return.
pub open spec fn is_line_term(b: u8) -> bool {
    b == 10 || b == 13
}

/// The number of bytes before the first newline or carriage return; the
/// whole length when no terminator occurs.
pub open spec fn line_len(b: Seq<u8>) -> int
    decreases b.len(),
{
    if b.len() == 0 {
        0
    } else if is_line_term(b[0]) {
        0
    } else {
        1 + line_len(b.skip(1))
    }
}

/// The position of the first terminator is the one index with no terminator
/// before it and, unless the buffer is exhausted, a terminator at it.
proof fn lemma_line_len_is_first_term(b: Seq<u8>, t: int)
    requires
        0 <= t <= b.len(),
        forall|j: int| 0 <= j < t ==> !is_line_term(#[trigger] b[j]),
        t < b.len() ==> is_line_term(b[t]),
    ensures
        line_len(b) == t,
    decreases b.len(),
{
    if b.len() == 0 {
    } else if t == 0 {
    } else {
        assert(!is_line_term(b[0]));
        lemma_line_len_is_first_term(b.skip(1), t - 1);
    }
}

/// Relies on core::str::from_utf8: it succeeds exactly on valid UTF-8 input
/// and returns the text those bytes encode.
#[verifier::external_body]
fn bytes_to_str(v: &[u8]) -> (r: Option<&str>)
    ensures
        r is Some <==> valid_utf8(v@),
        r is Some ==> r->0@ == decode_utf8(v@),
{
    core::str::from_utf8(v).ok()
}

/// Decode an instrument response buffer: the line runs up to the first
/// newline or carriage return (or the whole buffer when neither occurs),
/// its leading 12 bytes are the response header, and the bytes between the
/// header and the terminator are the text. Fails with `Decode` exactly when
/// the line ends before the 12-byte header does or the text bytes are not
/// valid UTF-8.
pub fn parse_response(buf: &[u8]) -> (r: UsbtmcResult<String>)
    ensures
        r is Ok <==> (line_len(buf@) >= 12 && valid_utf8(buf@.subrange(12, line_len(buf@)))),
        r is Ok ==> r->Ok_0@ == decode_utf8(buf@.subrange(12, line_len(buf@))),
        r is Err ==> r->Err_0 == UsbtmcError::Decode,
{
    let n = buf.len();
    let mut t: usize = 0;
    while t < n && buf[t] != 10 && buf[t] != 13
        invariant
            n == buf@.len(),
            t <= n,
            forall|j: int| 0 <= j < t ==> !is_line_term(#[trigger] buf@[j]),
        decreases n - t,
    {
        t = t + 1;
    }
    proof {
        lemma_line_len_is_first_term(buf@, t as int);
    }
    if t < 12 {
        return Err(UsbtmcError::Decode);
    }
    let body = slice_subrange(buf, 12, t);
    match bytes_to_str(body) {
        Some(s) => Ok(String::from_str(s)),
        None => Err(UsbtmcError::Decode),
    }
}

} // verus!
