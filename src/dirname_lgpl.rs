//! The directory part of a file name. Only `/` separates components here.
use vstd::prelude::*;
use vstd::string::*;
use crate::basename_lgpl::{trim_end, component_start};
use crate::text::push_char;

verus! {

/// The leading separator of `s` that is its root, if it has one.
pub open spec fn root_len(s: Seq<char>) -> int {
    if s.len() >= 1 && s[0] == '/' {
        1
    } else {
        0
    }
}

/// Where the last component of `s` starts; a name made only of separators
/// has no component and gives its own length.
pub open spec fn last_component_start(s: Seq<char>) -> int {
    let e = trim_end(s, 0, s.len() as int, false);
    if e == 0 {
        s.len() as int
    } else {
        component_start(s, 0, e, false)
    }
}

/// The length of the directory part of `s`: everything before its last
/// component, without the separators in between, but with its root kept.
pub open spec fn dir_len_spec(s: Seq<char>) -> int {
    let start = last_component_start(s);
    let root = root_len(s);
    if start <= root {
        start
    } else {
        trim_end(s, root, start, false)
    }
}

/// The directory part of `s`, or `.` when it is empty.
pub open spec fn mdir_name_spec(s: Seq<char>) -> Seq<char> {
    let len = dir_len_spec(s);
    if len == 0 {
        seq!['.']
    } else {
        s.take(len)
    }
}

proof fn lemma_bounds(s: Seq<char>, lo: int, e: int)
    requires
        lo <= e,
    ensures
        lo <= trim_end(s, lo, e, false) <= e,
        lo <= component_start(s, lo, e, false) <= e,
    decreases e - lo,
{
    if e > lo {
        lemma_bounds(s, lo, e - 1);
    }
}

/// The length, in characters, of the directory part of `file`.
pub fn dir_len(file: &str) -> (r: usize)
    ensures
        r == dir_len_spec(file@),
        r <= file@.len(),
{
    let n = file.unicode_len();
    let root: usize = if n >= 1 && file.get_char(0) == '/' {
        1
    } else {
        0
    };
    let mut e = n;
    while e > 0 && file.get_char(e - 1) == '/'
        invariant
            e <= n == file@.len(),
            trim_end(file@, 0, e as int, false) == trim_end(file@, 0, n as int, false),
        decreases e,
    {
        e = e - 1;
    }
    let start = if e == 0 {
        n
    } else {
        let mut j = e;
        while j > 0 && file.get_char(j - 1) != '/'
            invariant
                j <= e <= n == file@.len(),
                component_start(file@, 0, j as int, false) == component_start(
                    file@,
                    0,
                    e as int,
                    false,
                ),
            decreases j,
        {
            j = j - 1;
        }
        j
    };
    proof {
        lemma_bounds(file@, 0, e as int);
    }
    if start <= root {
        return start;
    }
    let mut length = start;
    while length > root && file.get_char(length - 1) == '/'
        invariant
            root <= length <= start <= n == file@.len(),
            trim_end(file@, root as int, length as int, false) == trim_end(
                file@,
                root as int,
                start as int,
                false,
            ),
        decreases length,
    {
        length = length - 1;
    }
    length
}

/// The directory part of `file`, or `.` when it has none.
pub fn mdir_name(file: &str) -> (r: String)
    ensures
        r@ == mdir_name_spec(file@),
{
    let length = dir_len(file);
    let mut dir = file.substring_char(0, length).to_owned();
    if length == 0 {
        push_char(&mut dir, '.');
    }
    assert(dir@ =~= mdir_name_spec(file@));
    dir
}

} // verus!
