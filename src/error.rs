//! Error numbers and the messages that carry them.
use vstd::prelude::*;
use crate::text::push_char;
use crate::umaxtostr::{decimal, write_decimal};
use vstd::string::StringExecFns;

verus! {

/// `std::io::Error`, carried through as an opaque value.
#[verifier::external_type_specification]
#[verifier::external_body]
pub struct ExIoError(std::io::Error);

/// The decimal form of `v`, with a `-` when it is negative.
pub open spec fn signed_decimal(v: int) -> Seq<char> {
    if v < 0 {
        seq!['-'] + decimal((-v) as nat)
    } else {
        decimal(v as nat)
    }
}

/// The message that an error number is reported with: `errno: ` and the number.
pub open spec fn errno_message_spec(v: int) -> Seq<char> {
    "errno: "@ + signed_decimal(v)
}

/// The message that an error number is reported with.
pub fn errno_message(errno_value: i32) -> (r: String)
    ensures
        r@ == errno_message_spec(errno_value as int),
{
    let mut out = String::new();
    out.append("errno: ");
    let mut digits = String::new();
    if errno_value < 0 {
        push_char(&mut out, '-');
        let m: u128 = (0i64 - errno_value as i64) as u128;
        write_decimal(m, &mut digits);
    } else {
        write_decimal(errno_value as u128, &mut digits);
    }
    out.append(digits.as_str());
    assert(out@ =~= errno_message_spec(errno_value as int));
    out
}

/// Relies on `std::io::Error::new` with `ErrorKind::Other`: an error carrying
/// the message `msg`.
#[verifier::external_body]
fn other_io_error(msg: String) -> std::io::Error {
    std::io::Error::new(std::io::ErrorKind::Other, msg)
}

/// An I/O error of kind `Other` whose message is `errno_message(errno_value)`.
pub fn set_errno(errno_value: i32) -> std::io::Error {
    other_io_error(errno_message(errno_value))
}

/// Relies on `std::io::Error::last_os_error` and `raw_os_error`: the error
/// number that the last system call of this thread left, if any.
#[verifier::external_body]
fn last_os_errno() -> Option<i32> {
    std::io::Error::last_os_error().raw_os_error()
}

/// The error number carried by `raw`, or 0 when there is none.
pub fn errno_or_zero(raw: Option<i32>) -> (r: i32)
    ensures
        r == match raw {
            Some(e) => e,
            None => 0,
        },
{
    match raw {
        Some(e) => e,
        None => 0,
    }
}

/// The error number that the last system call of this thread left, or 0.
pub fn errno() -> i32 {
    errno_or_zero(last_os_errno())
}

} // verus!
