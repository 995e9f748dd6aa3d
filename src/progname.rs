//! The short program name derived from the command that started the program.
use vstd::prelude::*;
use vstd::string::*;
use crate::basename_lgpl::component_start;

verus! {

/// What `str::to_lowercase` makes of the characters `s`.
pub uninterp spec fn lower_of(s: Seq<char>) -> Seq<char>;

/// Relies on `str::to_lowercase`: the result depends on the characters alone.
#[verifier::external_body]
fn lowercase(s: &str) -> (r: String)
    ensures
        r@ == lower_of(s@),
{
    s.to_lowercase()
}

/// The program name for the command text `s`: the part after its last `/`,
/// without an `lt-` prefix when it sits in a `.libs` directory (where
/// libtool puts its wrapped programs).
pub open spec fn short_name_spec(s: Seq<char>) -> Seq<char> {
    let start = component_start(s, 0, s.len() as int, false);
    let base = s.subrange(start, s.len() as int);
    let in_libs = start >= 6 && s.subrange(start - 6, start) == seq!['.', 'l', 'i', 'b', 's', '/']
        && (start == 6 || s[start - 7] == '/');
    if in_libs && base.len() >= 3 && base.take(3) == seq!['l', 't', '-'] {
        base.skip(3)
    } else {
        base
    }
}

proof fn lemma_start_bound(s: Seq<char>, e: int)
    requires
        0 <= e <= s.len(),
    ensures
        0 <= component_start(s, 0, e, false) <= e,
    decreases e,
{
    if e > 0 {
        lemma_start_bound(s, e - 1);
    }
}

/// The program name for a command text that is already in lower case.
pub fn short_program_name(lowered: &str) -> (r: String)
    ensures
        r@ == short_name_spec(lowered@),
{
    let ghost s = lowered@;
    let n = lowered.unicode_len();
    let mut start = n;
    while start > 0 && lowered.get_char(start - 1) != '/'
        invariant
            start <= n == s.len(),
            s == lowered@,
            component_start(s, 0, start as int, false) == component_start(s, 0, n as int, false),
        decreases start,
    {
        start = start - 1;
    }
    proof {
        lemma_start_bound(s, n as int);
    }
    let in_libs = start >= 6 && lowered.get_char(start - 6) == '.' && lowered.get_char(start - 5)
        == 'l' && lowered.get_char(start - 4) == 'i' && lowered.get_char(start - 3) == 'b'
        && lowered.get_char(start - 2) == 's' && lowered.get_char(start - 1) == '/' && (start == 6
        || lowered.get_char(start - 7) == '/');
    let lt = n - start >= 3 && lowered.get_char(start) == 'l' && lowered.get_char(start + 1) == 't'
        && lowered.get_char(start + 2) == '-';
    proof {
        if start >= 6 {
            let w = s.subrange(start - 6, start as int);
            assert(in_libs ==> w =~= seq!['.', 'l', 'i', 'b', 's', '/']);
            assert(w == seq!['.', 'l', 'i', 'b', 's', '/'] ==> w[0] == '.' && w[1] == 'l' && w[2]
                == 'i' && w[3] == 'b' && w[4] == 's' && w[5] == '/');
        }
        let base = s.subrange(start as int, n as int);
        if n - start >= 3 {
            assert(lt ==> base.take(3) =~= seq!['l', 't', '-']);
            assert(base.take(3) == seq!['l', 't', '-'] ==> base[0] == 'l' && base[1] == 't'
                && base[2] == '-');
        }
    }
    let from = if in_libs && lt {
        start + 3
    } else {
        start
    };
    let r = lowered.substring_char(from, n).to_owned();
    assert(r@ =~= short_name_spec(s));
    r
}

/// The program name for the command text `argv0`, folded to lower case.
pub fn program_name_of(argv0: &str) -> (r: String)
    ensures
        r@ == short_name_spec(lower_of(argv0@)),
{
    let lowered = lowercase(argv0);
    short_program_name(lowered.as_str())
}

} // verus!
