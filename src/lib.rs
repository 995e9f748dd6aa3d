//! Quoting of byte strings for display (shell, C and locale styles), with the
//! small path, number-formatting and allocation helpers that surround it.
pub mod argp;
pub mod basename_lgpl;
pub mod dirname;
pub mod dirname_lgpl;
pub mod error;
pub mod intprops;
pub mod progname;
pub mod quotearg;
pub mod safe_io;
pub mod stripslash;
mod text;
pub mod umaxtostr;
pub mod util;
pub mod version_etc;
pub mod xmalloc;
