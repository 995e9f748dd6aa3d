//! The directory part of a file name, as an owned string.
use vstd::prelude::*;
use crate::dirname_lgpl::{mdir_name, mdir_name_spec};

verus! {

/// The directory part of `name`, or `.` when it has none.
/// The result is never empty, so it is always `Some`.
pub fn dir_name(name: &str) -> (r: Option<String>)
    ensures
        r is Some,
        r->Some_0@ == mdir_name_spec(name@),
{
    Some(mdir_name(name))
}

} // verus!
