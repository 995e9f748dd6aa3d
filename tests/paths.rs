use gnulib_quote::basename_lgpl::{base_len, file_system_prefix_len, has_device, is_slash, last_component};
use gnulib_quote::dirname::dir_name;
use gnulib_quote::dirname_lgpl::{dir_len, mdir_name};
use gnulib_quote::stripslash::strip_trailing_slashes;

#[test]
fn test_last_component() {
    assert_eq!(last_component("a/b/c"), "c");
    assert_eq!(last_component("a/b/c/"), "c");
    assert_eq!(last_component("a\\b\\c"), "c");

    assert_eq!(last_component("C:/a/b"), "b");
    assert_eq!(last_component("C:\\a\\b"), "b");

    assert_eq!(last_component("/"), "/");
    assert_eq!(last_component("\\"), "\\");
    assert_eq!(last_component("C:/"), "/");

    assert_eq!(last_component(""), "");
}

#[test]
fn test_base_len() {
    assert_eq!(base_len("a/b/c"), 5);
    assert_eq!(base_len("a/b/c/"), 5);
    assert_eq!(base_len("a\\b\\c"), 5);

    assert_eq!(base_len("a/b/"), 3);
    assert_eq!(base_len("a/b////"), 3);

    assert_eq!(base_len("C:/a/b"), 6);
    assert_eq!(base_len("C:\\a\\b"), 6);
    assert_eq!(base_len("C:/"), 2);

    assert_eq!(base_len("//"), 2);

    assert_eq!(base_len(""), 0);
}

#[test]
fn test_file_system_prefix_len() {
    assert_eq!(file_system_prefix_len("C:"), 2);
    assert_eq!(file_system_prefix_len("c:"), 2);
    assert_eq!(file_system_prefix_len("Z:/path"), 2);

    assert_eq!(file_system_prefix_len("/path"), 0);
    assert_eq!(file_system_prefix_len("path"), 0);
    assert_eq!(file_system_prefix_len(""), 0);
}

#[test]
fn test_has_device() {
    assert!(has_device("C:"));
    assert!(has_device("c:"));
    assert!(has_device("Z:/path"));

    assert!(!has_device("1:"));
    assert!(!has_device(":"));
    assert!(!has_device("/path"));
    assert!(!has_device(""));
}

#[test]
fn test_dir_name_success() {
    let result = dir_name("/path/to/file");
    assert!(result.is_some());
    assert!(!result.unwrap().is_empty());
    assert_eq!(dir_name("/path/to/file").unwrap(), "/path/to");
}

#[test]
fn test_dir_name_root() {
    let result = dir_name("/");
    assert!(result.is_some());
    assert_eq!(result.unwrap(), "/");
}

#[test]
fn test_dir_name_no_slash() {
    let result = dir_name("filename");
    assert!(result.is_some());
    assert_eq!(result.unwrap(), ".");
}

#[test]
fn is_slash_accepts_both_separators() {
    assert!(is_slash('/'));
    assert!(is_slash('\\'));
    assert!(!is_slash('a'));
}

#[test]
fn last_component_of_nested_and_repeated_names() {
    assert_eq!(last_component("a/b/a"), "a");
    assert_eq!(last_component("//x//"), "x");
    assert_eq!(last_component("abc"), "abc");
}

#[test]
fn dir_len_values() {
    assert_eq!(dir_len("/path/to/file"), 8);
    assert_eq!(dir_len("a/b/"), 1);
    assert_eq!(dir_len("filename"), 0);
    assert_eq!(dir_len("/"), 1);
    assert_eq!(dir_len("//"), 1);
    assert_eq!(dir_len("//b"), 1);
    assert_eq!(dir_len("///a"), 1);
    assert_eq!(dir_len("a//b"), 1);
}

#[test]
fn mdir_name_values() {
    assert_eq!(mdir_name("/path/to/file"), "/path/to");
    assert_eq!(mdir_name(""), ".");
    assert_eq!(mdir_name("//x"), "/");
    assert_eq!(mdir_name("a/b/"), "a");
}

#[test]
fn strip_trailing_slashes_cases() {
    let mut f = String::from("a/b//");
    assert!(strip_trailing_slashes(&mut f));
    assert_eq!(f, "a/b");

    let mut g = String::from("a/b");
    assert!(!strip_trailing_slashes(&mut g));
    assert_eq!(g, "a/b");

    let mut h = String::from("///");
    assert!(strip_trailing_slashes(&mut h));
    assert_eq!(h, "/");

    let mut k = String::from("//");
    assert!(!strip_trailing_slashes(&mut k));
    assert_eq!(k, "//");
}
