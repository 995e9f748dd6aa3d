//! Plain records of option parsing: option descriptions, the state of the
//! option scanner, and the tape operation record.
use vstd::prelude::*;

verus! {

/// One option that a program accepts.
pub struct ArgpOption {
    pub name: Option<&'static str>,
    pub key: i32,
    pub arg: Option<&'static str>,
    pub flags: i32,
    pub doc: Option<&'static str>,
    pub group: i32,
}

/// How options and other arguments may be mixed.
#[derive(Clone, Copy, PartialEq, Eq, Structural, Debug)]
pub enum ArgpOrdering {
    RequireOrder,
    Permute,
    ReturnInOrder,
}

/// The state of the option scanner.
#[allow(non_snake_case)]
pub struct GetOptData {
    pub optind: i32,
    pub opterr: i32,
    pub optopt: i32,
    pub optarg: Option<String>,
    pub __initialized: bool,
    pub __nextchar: String,
    pub __ordering: ArgpOrdering,
    pub __first_nonopt: i32,
    pub __last_nonopt: i32,
}

impl Default for GetOptData {
    /// A scanner about to read the first argument after the program name,
    /// reporting errors, with options and arguments permuted.
    fn default() -> (r: GetOptData)
        ensures
            r.optind == 1,
            r.opterr == 1,
            r.optopt == 0,
            r.optarg is None,
            !r.__initialized,
            r.__nextchar@ == Seq::<char>::empty(),
            r.__ordering == ArgpOrdering::Permute,
            r.__first_nonopt == 0,
            r.__last_nonopt == 0,
    {
        GetOptData {
            optind: 1,
            opterr: 1,
            __nextchar: String::new(),
            __first_nonopt: 0,
            __last_nonopt: 0,
            __ordering: ArgpOrdering::Permute,
            __initialized: false,
            optarg: None,
            optopt: 0,
        }
    }
}

/// A tape operation and its repeat count.
#[allow(non_camel_case_types)]
pub struct mtop {
    pub mt_op: i32,
    pub mt_count: i32,
}

} // verus!
