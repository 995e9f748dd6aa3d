//! Locating the last component of a file name. Names are read as sequences
//! of characters; `/` and `\` both separate components, and a drive letter
//! followed by `:` forms a prefix.
use vstd::prelude::*;
use vstd::string::*;

verus! {

/// `//` names a root of its own, distinct from `/`.
pub const DOUBLE_SLASH_IS_DISTINCT_ROOT: bool = true;

/// Whether `c` separates components; `backslash` says whether `\` does too.
pub open spec fn is_sep(c: char, backslash: bool) -> bool {
    c == '/' || (backslash && c == '\\')
}

/// Whether `s` begins with a drive letter and a colon.
pub open spec fn has_device_spec(s: Seq<char>) -> bool {
    s.len() >= 2 && (('a' <= s[0] && s[0] <= 'z') || ('A' <= s[0] && s[0] <= 'Z')) && s[1] == ':'
}

/// The length of the drive prefix of `s`.
pub open spec fn prefix_len_spec(s: Seq<char>) -> int {
    if has_device_spec(s) {
        2
    } else {
        0
    }
}

/// The end of `s[lo..e]` once its trailing separators are dropped.
pub open spec fn trim_end(s: Seq<char>, lo: int, e: int, backslash: bool) -> int
    decreases e - lo,
{
    if e <= lo {
        lo
    } else if is_sep(s[e - 1], backslash) {
        trim_end(s, lo, e - 1, backslash)
    } else {
        e
    }
}

/// The start of the last component of `s[lo..e]`: just after its last
/// separator, or `lo` when it has none.
pub open spec fn component_start(s: Seq<char>, lo: int, e: int, backslash: bool) -> int
    decreases e - lo,
{
    if e <= lo {
        lo
    } else if is_sep(s[e - 1], backslash) {
        e
    } else {
        component_start(s, lo, e - 1, backslash)
    }
}

/// Where the last component of `s` starts and ends. A name that is only a
/// prefix followed by separators gives everything after the prefix.
pub open spec fn last_component_range(s: Seq<char>) -> (int, int) {
    let p = prefix_len_spec(s);
    let e = trim_end(s, p, s.len() as int, true);
    if e == p {
        (p, s.len() as int)
    } else {
        (component_start(s, p, e, true), e)
    }
}

/// The length of `s` without its trailing separators, where one leading
/// separator is kept, and `//` keeps both.
pub open spec fn base_len_spec(s: Seq<char>) -> int {
    if s.len() == 0 {
        0
    } else {
        let len = trim_end(s, 1, s.len() as int, true);
        if DOUBLE_SLASH_IS_DISTINCT_ROOT && len == 1 && s.len() == 2 && is_sep(s[0], true) && is_sep(
            s[1],
            true,
        ) {
            2
        } else {
            len
        }
    }
}

proof fn lemma_trim_end_bounds(s: Seq<char>, lo: int, e: int, backslash: bool)
    requires
        lo <= e,
    ensures
        lo <= trim_end(s, lo, e, backslash) <= e,
        lo <= component_start(s, lo, e, backslash) <= e,
    decreases e - lo,
{
    if e > lo {
        lemma_trim_end_bounds(s, lo, e - 1, backslash);
    }
}

/// `base_len_spec` never exceeds the length of the name.
pub(crate) proof fn lemma_base_len_bound(s: Seq<char>)
    ensures
        0 <= base_len_spec(s) <= s.len(),
{
    if s.len() > 0 {
        lemma_trim_end_bounds(s, 1, s.len() as int, true);
    }
}

/// Whether `c` is `/` or `\`.
pub fn is_slash(c: char) -> (r: bool)
    ensures
        r == is_sep(c, true),
{
    c == '/' || c == '\\'
}

/// Whether `name` begins with a drive letter and a colon.
pub fn has_device(name: &str) -> (r: bool)
    ensures
        r == has_device_spec(name@),
{
    if name.unicode_len() >= 2 {
        let first = name.get_char(0);
        let second = name.get_char(1);
        (('a' <= first && first <= 'z') || ('A' <= first && first <= 'Z')) && second == ':'
    } else {
        false
    }
}

/// The length of the drive prefix of `name` (2 or 0).
pub fn file_system_prefix_len(name: &str) -> (r: usize)
    ensures
        r == prefix_len_spec(name@),
{
    if has_device(name) {
        2
    } else {
        0
    }
}

/// `trim_end` over the characters of `name`.
fn trim_end_exec(name: &str, lo: usize, e: usize, backslash: bool) -> (r: usize)
    requires
        lo <= e <= name@.len(),
    ensures
        r == trim_end(name@, lo as int, e as int, backslash),
{
    let mut j = e;
    while j > lo && (name.get_char(j - 1) == '/' || (backslash && name.get_char(j - 1) == '\\'))
        invariant
            lo <= j <= e <= name@.len(),
            trim_end(name@, lo as int, j as int, backslash) == trim_end(
                name@,
                lo as int,
                e as int,
                backslash,
            ),
        decreases j,
    {
        j = j - 1;
    }
    j
}

/// `component_start` over the characters of `name`.
fn component_start_exec(name: &str, lo: usize, e: usize, backslash: bool) -> (r: usize)
    requires
        lo <= e <= name@.len(),
    ensures
        r == component_start(name@, lo as int, e as int, backslash),
{
    let mut j = e;
    while j > lo && !(name.get_char(j - 1) == '/' || (backslash && name.get_char(j - 1) == '\\'))
        invariant
            lo <= j <= e <= name@.len(),
            component_start(name@, lo as int, j as int, backslash) == component_start(
                name@,
                lo as int,
                e as int,
                backslash,
            ),
        decreases j,
    {
        j = j - 1;
    }
    j
}

/// Where the last component of `name` starts and ends, in characters.
pub fn last_component_bounds(name: &str) -> (r: (usize, usize))
    ensures
        r.0 as int == last_component_range(name@).0,
        r.1 as int == last_component_range(name@).1,
        r.0 <= r.1 <= name@.len(),
{
    let n = name.unicode_len();
    let p = file_system_prefix_len(name);
    let e = trim_end_exec(name, p, n, true);
    proof {
        lemma_trim_end_bounds(name@, p as int, n as int, true);
    }
    if e == p {
        (p, n)
    } else {
        proof {
            lemma_trim_end_bounds(name@, p as int, e as int, true);
        }
        (component_start_exec(name, p, e, true), e)
    }
}

/// The last component of `name`, without trailing separators; a name that
/// is only a prefix and separators gives everything after the prefix.
pub fn last_component(name: &str) -> (r: &str)
    ensures
        r@ == name@.subrange(last_component_range(name@).0, last_component_range(name@).1),
{
    let (a, b) = last_component_bounds(name);
    name.substring_char(a, b)
}

/// The length of `name` without its trailing separators (a lone leading
/// separator stays, and so does `//`).
pub fn base_len(name: &str) -> (r: usize)
    ensures
        r == base_len_spec(name@),
{
    let n = name.unicode_len();
    if n == 0 {
        return 0;
    }
    let len = trim_end_exec(name, 1, n, true);
    if DOUBLE_SLASH_IS_DISTINCT_ROOT && len == 1 && n == 2 && is_slash(name.get_char(0)) && is_slash(
        name.get_char(1),
    ) {
        2
    } else {
        len
    }
}

} // verus!
