//! Shortening of commit messages before they are embedded.

use vstd::prelude::*;
use vstd::string::StringSliceAdditionalSpecFns;
use vstd::utf8::{encode_utf8, encode_utf8_valid_utf8, is_char_boundary};

verus! {

/// Longest commit message kept, in bytes.
pub const COMMIT_MSG_MAX: usize = 100;

/// The largest character boundary of `b` at or below `n`.
pub open spec fn boundary_at_or_below(b: Seq<u8>, n: int) -> int
    decreases n,
{
    if n <= 0 {
        0
    } else if is_char_boundary(b, n) {
        n
    } else {
        boundary_at_or_below(b, n - 1)
    }
}

/// The bytes kept of a message `b`: all of it when it is short enough,
/// otherwise the longest prefix of at most `COMMIT_MSG_MAX` bytes that ends
/// on a character boundary.
pub open spec fn truncated(b: Seq<u8>) -> Seq<u8> {
    if b.len() <= COMMIT_MSG_MAX {
        b
    } else {
        b.subrange(0, boundary_at_or_below(b, COMMIT_MSG_MAX as int))
    }
}

/// Shortens a commit message to at most `COMMIT_MSG_MAX` bytes without
/// splitting a character.
pub fn truncate_commit_msg(msg: &str) -> (r: String)
    ensures
        encode_utf8(r@) == truncated(msg.spec_bytes()),
{
    broadcast use encode_utf8_valid_utf8;

    if msg.as_bytes().len() <= COMMIT_MSG_MAX {
        return msg.to_owned();
    }
    let mut end: usize = COMMIT_MSG_MAX;
    while end > 0 && !msg.is_char_boundary(end)
        invariant
            0 <= end <= COMMIT_MSG_MAX,
            COMMIT_MSG_MAX < msg.spec_bytes().len(),
            boundary_at_or_below(msg.spec_bytes(), end as int) == boundary_at_or_below(
                msg.spec_bytes(),
                COMMIT_MSG_MAX as int,
            ),
        decreases end,
    {
        end = end - 1;
    }
    let (head, _rest) = msg.split_at(end);
    assert(head.spec_bytes() =~= truncated(msg.spec_bytes()));
    head.to_owned()
}

} // verus!
