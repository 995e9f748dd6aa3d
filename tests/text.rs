use gnulib_quote::argp::{ArgpOrdering, GetOptData};
use gnulib_quote::error::{errno, errno_message, errno_or_zero, set_errno};
use gnulib_quote::progname::{program_name_of, short_program_name};
use gnulib_quote::safe_io::{after_write, cloexec_flags, next_write_len, retry_count, IoFailure, SYS_BUFSIZE_MAX};
use gnulib_quote::util::{check_resolved_len, validate_path_text, PathError};
use gnulib_quote::version_etc::{bug_report_text, version_text, PACKAGE_NAME, VERSION};
use std::io::ErrorKind;

#[test]
fn test_set_errno() {
    let err = set_errno(42);
    assert_eq!(err.kind(), ErrorKind::Other);
    assert_eq!(err.to_string(), "errno: 42");
}

#[test]
fn test_errno_with_os_error() {
    let _ = std::io::Error::last_os_error();
    let errno = errno();
    assert!(errno >= 0);
}

#[test]
fn errno_messages_and_defaults() {
    assert_eq!(errno_message(0), "errno: 0");
    assert_eq!(errno_message(-5), "errno: -5");
    assert_eq!(errno_message(i32::MIN), "errno: -2147483648");
    assert_eq!(errno_or_zero(Some(13)), 13);
    assert_eq!(errno_or_zero(None), 0);
}

#[test]
fn version_text_with_names() {
    let t = version_text(Some("cpio"), PACKAGE_NAME, VERSION, &["A", "B", "C"]);
    assert!(t.starts_with("cpio (GNU cpio) 2.14\nCopyright (C) 2023 Free Software Foundation, Inc\n"));
    assert!(t.ends_with("There is NO WARRANTY, to the extent permitted by law.\nWritten by A, B, and C.\n"));
    let u = version_text(None, "pkg", "1.0", &[]);
    assert!(u.starts_with("pkg 1.0\n"));
    assert!(u.ends_with("permitted by law.\n"));
}

#[test]
fn version_text_author_lines() {
    let one = version_text(None, "p", "v", &["Ann"]);
    assert!(one.ends_with("Written by Ann.\n"));
    let two = version_text(None, "p", "v", &["Ann", "Bob"]);
    assert!(two.ends_with("Written by Ann and Bob.\n"));
    let nine = version_text(None, "p", "v", &["1", "2", "3", "4", "5", "6", "7", "8", "9"]);
    assert!(nine.ends_with("Written by 1, 2, 3, 4, 5, 6, 7, 8, and others.\n"));
    let eight = version_text(None, "p", "v", &["1", "2", "3", "4", "5", "6", "7", "8"]);
    assert!(eight.ends_with("Written by 1, 2, 3, 4, 5, 6, 7, and 8.\n"));
}

#[test]
fn bug_report_lines() {
    assert_eq!(
        bug_report_text(),
        "\nReport bugs to: bug-cpio@gnu.org\nGNU cpio home page: <http://www.gnu.org/software/cpio>\nGNU cpio home page: <https://www.gnu.org/software/cpio>\nGeneral help using GNU software: <https://www.gnu.org/gethelp/>\n"
    );
}

#[test]
fn program_names() {
    assert_eq!(program_name_of("/usr/bin/myprogram"), "myprogram");
    assert_eq!(program_name_of("/path/.libs/lt-myprogram"), "myprogram");
    assert_eq!(program_name_of("/path/.libs/myprogram"), "myprogram");
    assert_eq!(program_name_of("/usr/bin/MYPROGRAM"), "myprogram");
    assert_eq!(short_program_name(".libs/lt-x"), "x");
    assert_eq!(short_program_name("/a/xlibs/lt-x"), "lt-x");
    assert_eq!(short_program_name("tool"), "tool");
}

#[test]
fn getopt_defaults() {
    let d = GetOptData::default();
    assert_eq!(d.optind, 1);
    assert_eq!(d.opterr, 1);
    assert!(d.optarg.is_none());
    assert!(d.__ordering == ArgpOrdering::Permute);
    assert!(!d.__initialized);
}

#[test]
fn io_loop_decisions() {
    assert_eq!(retry_count(10, IoFailure::Interrupted), Some(10));
    assert_eq!(retry_count(usize::MAX, IoFailure::InvalidInput), Some(SYS_BUFSIZE_MAX));
    assert_eq!(retry_count(10, IoFailure::InvalidInput), None);
    assert_eq!(retry_count(10, IoFailure::Other), None);
    assert_eq!(next_write_len(9, 4), 4);
    assert_eq!(next_write_len(3, 4), 3);
    assert_eq!(after_write(0, 9, 4, 4), Some((4, 5, 0)));
    assert_eq!(after_write(2, 9, 4, 0), None);
    assert_eq!(cloexec_flags(2, 1, true), 3);
    assert_eq!(cloexec_flags(3, 1, false), 2);
}

#[test]
fn path_text_checks() {
    assert_eq!(validate_path_text(""), Err(PathError::Empty));
    assert_eq!(validate_path_text("a\nb"), Err(PathError::Newline));
    assert_eq!(validate_path_text("a\0b"), Err(PathError::NulByte));
    assert_eq!(validate_path_text("a/../b"), Err(PathError::Traversal));
    assert_eq!(validate_path_text(".."), Err(PathError::Traversal));
    assert_eq!(validate_path_text("a/..b/c..."), Ok(()));
    assert_eq!(validate_path_text("/tmp/x"), Ok(()));
    assert_eq!(check_resolved_len(4096), Ok(()));
    assert_eq!(check_resolved_len(4097), Err(PathError::TooLong));
}
