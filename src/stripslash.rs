//! Removing the trailing separators of a file name.
use vstd::prelude::*;
use vstd::string::*;
use crate::basename_lgpl::{base_len, base_len_spec, last_component_bounds, last_component_range};

verus! {

/// Where `strip_trailing_slashes` cuts `s`: the start of its last component
/// plus that component's length without trailing separators.
pub open spec fn stripped_len(s: Seq<char>) -> int {
    let (a, b) = last_component_range(s);
    a + base_len_spec(s.subrange(a, b))
}

/// Removes the trailing separators of `file`, keeping a root. Returns whether
/// anything was removed.
pub fn strip_trailing_slashes(file: &mut String) -> (r: bool)
    ensures
        0 <= stripped_len(old(file)@) <= old(file)@.len(),
        final(file)@ == old(file)@.take(stripped_len(old(file)@)),
        r == (old(file)@.len() > stripped_len(old(file)@)),
{
    let (a, b) = last_component_bounds(file.as_str());
    let base = file.as_str().substring_char(a, b);
    let bl = base_len(base);
    proof {
        assert(base_len_spec(base@) <= base@.len()) by {
            crate::basename_lgpl::lemma_base_len_bound(base@);
        }
    }
    let lim = a + bl;
    let n = file.as_str().unicode_len();
    let had_slash = n > lim;
    let kept = file.as_str().substring_char(0, lim).to_owned();
    *file = kept;
    had_slash
}

} // verus!
