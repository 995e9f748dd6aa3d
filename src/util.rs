//! Checks on a path given as text, before it is resolved on the file system.
use vstd::prelude::*;
use vstd::string::StringSliceAdditionalSpecFns;

verus! {

/// Why a path is refused.
#[derive(Clone, Copy, PartialEq, Eq, Structural, Debug)]
pub enum PathError {
    Empty,
    Newline,
    NulByte,
    Traversal,
    TooLong,
}

/// The longest resolved path accepted, in bytes.
pub const PATH_MAX_LEN: usize = 4096;

/// Whether `b[i..j]` is a whole component equal to `..`.
pub open spec fn parent_component_at(b: Seq<u8>, i: int) -> bool {
    0 <= i && i + 2 <= b.len() && b[i] == 46u8 && b[i + 1] == 46u8 && (i == 0 || b[i - 1] == 47u8)
        && (i + 2 == b.len() || b[i + 2] == 47u8)
}

/// Whether some `/`-separated component of `b` is `..`.
pub open spec fn has_parent_component(b: Seq<u8>) -> bool {
    exists|i: int| #[trigger] parent_component_at(b, i)
}

/// The verdict on the text of a path: refused when empty, when it holds a
/// newline or a NUL byte, or when one of its components is `..`.
pub open spec fn path_text_verdict(b: Seq<u8>) -> Result<(), PathError> {
    if b.len() == 0 {
        Err(PathError::Empty)
    } else if b.contains(10u8) {
        Err(PathError::Newline)
    } else if b.contains(0u8) {
        Err(PathError::NulByte)
    } else if has_parent_component(b) {
        Err(PathError::Traversal)
    } else {
        Ok(())
    }
}

fn contains_byte(b: &[u8], x: u8) -> (r: bool)
    ensures
        r == b@.contains(x),
{
    let mut i: usize = 0;
    while i < b.len()
        invariant
            i <= b@.len(),
            forall|j: int| 0 <= j < i ==> b@[j] != x,
        decreases b@.len() - i,
    {
        if b[i] == x {
            assert(b@[i as int] == x);
            return true;
        }
        i = i + 1;
    }
    false
}

/// Checks the text of `path_str` (its UTF-8 bytes) as `path_text_verdict` says.
pub fn validate_path_text(path_str: &str) -> (r: Result<(), PathError>)
    ensures
        r == path_text_verdict(path_str.spec_bytes()),
{
    let b = path_str.as_bytes();
    if b.len() == 0 {
        return Err(PathError::Empty);
    }
    if contains_byte(b, 10u8) {
        return Err(PathError::Newline);
    }
    if contains_byte(b, 0u8) {
        return Err(PathError::NulByte);
    }
    let mut i: usize = 0;
    while i < b.len() && i + 1 < b.len()
        invariant
            b@ == path_str.spec_bytes(),
            b@.len() > 0,
            !b@.contains(10u8),
            !b@.contains(0u8),
            i <= b@.len(),
            forall|j: int| 0 <= j < i ==> !#[trigger] parent_component_at(b@, j),
        decreases b@.len() - i,
    {
        if b[i] == 46u8 && b[i + 1] == 46u8 && (i == 0 || b[i - 1] == 47u8) && (i + 2 == b.len()
            || b[i + 2] == 47u8) {
            assert(parent_component_at(b@, i as int));
            return Err(PathError::Traversal);
        }
        i = i + 1;
    }
    assert forall|j: int| !#[trigger] parent_component_at(b@, j) by {
        if 0 <= j < i {
        }
    }
    Ok(())
}

/// Checks the length in bytes of a resolved path.
pub fn check_resolved_len(len: usize) -> (r: Result<(), PathError>)
    ensures
        r == if len > PATH_MAX_LEN {
            Err(PathError::TooLong)
        } else {
            Ok(())
        },
{
    if len > PATH_MAX_LEN {
        Err(PathError::TooLong)
    } else {
        Ok(())
    }
}

} // verus!
