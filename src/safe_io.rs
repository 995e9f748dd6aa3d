//! The decisions of the read and write loops: when to retry a failed call,
//! and how a loop that writes a whole buffer advances.
use vstd::prelude::*;

verus! {

/// The largest count that one read or write is asked for after the system
/// has refused a larger one.
pub const SYS_BUFSIZE_MAX: usize = 2146435072;

/// The kinds of failure that the loops tell apart.
#[derive(Clone, Copy, PartialEq, Eq, Structural, Debug)]
pub enum IoFailure {
    Interrupted,
    InvalidInput,
    Other,
}

/// The count to retry a failed read or write with, or `None` to give up:
/// an interrupted call is retried as it was, and a refused count larger than
/// `SYS_BUFSIZE_MAX` is retried with that bound.
pub fn retry_count(count: usize, failure: IoFailure) -> (r: Option<usize>)
    ensures
        r == match failure {
            IoFailure::Interrupted => Some(count),
            IoFailure::InvalidInput => if count > SYS_BUFSIZE_MAX {
                Some(SYS_BUFSIZE_MAX)
            } else {
                None
            },
            IoFailure::Other => None,
        },
{
    match failure {
        IoFailure::Interrupted => Some(count),
        IoFailure::InvalidInput => if count > SYS_BUFSIZE_MAX {
            Some(SYS_BUFSIZE_MAX)
        } else {
            None
        },
        IoFailure::Other => None,
    }
}

/// How many bytes the next write of a whole-buffer loop asks for, with
/// `buf_left` bytes left in the buffer and `len_left` left to write; 0 when
/// the loop is done.
pub fn next_write_len(buf_left: usize, len_left: usize) -> (r: usize)
    ensures
        r == if buf_left < len_left {
            buf_left
        } else {
            len_left
        },
{
    if buf_left < len_left {
        buf_left
    } else {
        len_left
    }
}

/// The state of a whole-buffer write after a write of `n` bytes: the total
/// written so far, the bytes left in the buffer and the bytes left to write.
/// `None` when nothing was written, which ends the loop with an error.
pub fn after_write(total: usize, buf_left: usize, len_left: usize, n: usize) -> (r: Option<
    (usize, usize, usize),
>)
    requires
        n <= buf_left,
        n <= len_left,
        total + n <= usize::MAX,
    ensures
        r == if n == 0 {
            None
        } else {
            Some(((total + n) as usize, (buf_left - n) as usize, (len_left - n) as usize))
        },
{
    if n == 0 {
        None
    } else {
        Some((total + n, buf_left - n, len_left - n))
    }
}

/// The descriptor flags with the close-on-exec bit `bit` set or cleared.
pub fn cloexec_flags(flags: i32, bit: i32, value: bool) -> (r: i32)
    ensures
        r == if value {
            flags | bit
        } else {
            flags & !bit
        },
{
    if value {
        flags | bit
    } else {
        flags & !bit
    }
}

} // verus!
