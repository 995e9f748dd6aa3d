use gnulib_quote::xmalloc::{
    x2nrealloc, x2realloc, xcalloc, xcharalloc, xicalloc, ximalloc, ximemdup, ximemdup0, xinmalloc,
    xireallocarray, xirealloc, xizalloc, xmalloc, xmemdup, xnmalloc, xpalloc, xrealloc,
    xreallocarray, xstrdup, xzalloc,
};

#[test]
fn test_xmalloc() {
    let vec = xmalloc(5);
    assert_eq!(vec.len(), 5);
    assert_eq!(vec, vec![0, 0, 0, 0, 0]);
}

#[test]
fn test_ximalloc() {
    let vec = ximalloc(3);
    assert_eq!(vec.len(), 3);
}

#[test]
fn test_xcharalloc() {
    let vec = xcharalloc(2);
    assert_eq!(vec.len(), 2);
    assert_eq!(vec, vec!['\0', '\0']);
}

#[test]
fn test_xrealloc() {
    let mut vec = vec![1, 2, 3];
    vec = xrealloc(vec, 5);
    assert_eq!(vec.len(), 5);
    assert_eq!(vec, vec![1, 2, 3, 0, 0]);
}

#[test]
fn test_xirealloc() {
    let vec = vec![1, 2];
    let vec = xirealloc(vec, 4);
    assert_eq!(vec.len(), 4);
}

#[test]
fn test_xreallocarray() {
    let vec = vec![1, 2];
    let vec = xreallocarray(vec, 2, 3);
    assert_eq!(vec.len(), 6);

    let vec = xreallocarray(vec, 0, 5);
    assert!(vec.is_empty());
}

#[test]
fn test_xireallocarray() {
    let vec = vec![1];
    let vec = xireallocarray(vec, 2, 2);
    assert_eq!(vec.len(), 4);
}

#[test]
fn test_xnmalloc() {
    let vec = xnmalloc(2, 3);
    assert_eq!(vec.len(), 6);
}

#[test]
fn test_xinmalloc() {
    let vec = xinmalloc(2, 3);
    assert_eq!(vec.len(), 6);
}

#[test]
fn test_x2nrealloc() {
    let mut n = 0;
    let vec = x2nrealloc(Vec::new(), &mut n, 2);
    assert!(n > 0);
    assert_eq!(vec.len(), n * 2);

    let mut n = 5;
    let vec = x2nrealloc(vec![1, 2, 3], &mut n, 1);
    assert!(n > 5);
    assert_eq!(vec.len(), n);
}

#[test]
fn test_xpalloc() {
    let word = 2 * usize::BITS as isize;
    let mut n = 5;
    let vec = xpalloc(Vec::new(), &mut n, 1, 10, 2);
    assert_eq!(n, word / 2);
    assert_eq!(vec.len() as isize, word);
}

#[test]
fn test_xzalloc() {
    let vec = xzalloc(4);
    assert_eq!(vec.len(), 4);
}

#[test]
fn test_xizalloc() {
    let vec = xizalloc(3);
    assert_eq!(vec.len(), 3);
}

#[test]
fn test_xcalloc() {
    let vec = xcalloc(2, 3);
    assert_eq!(vec.len(), 6);
}

#[test]
fn test_xicalloc() {
    let vec = xicalloc(2, 3);
    assert_eq!(vec.len(), 6);
}

#[test]
fn test_xmemdup() {
    let src = [1, 2, 3];
    let vec = xmemdup(&src);
    assert_eq!(vec, src);
}

#[test]
fn test_ximemdup() {
    let src = [4, 5];
    let vec = ximemdup(&src);
    assert_eq!(vec, src);
}

#[test]
fn test_ximemdup0() {
    let src = b"hello";
    let s = ximemdup0(src, 3);
    assert_eq!(s, "hel\0lo");
}

#[test]
fn test_xstrdup() {
    let s = "test";
    assert_eq!(xstrdup(s), "test");
}

#[test]
fn growth_counts_are_exact() {
    let word = 2 * usize::BITS as usize;
    let mut n = 0;
    let v = x2nrealloc(Vec::new(), &mut n, 2);
    assert_eq!(n, word / 2);
    assert_eq!(v.len(), word);

    let mut n = 5;
    let v = x2nrealloc(vec![9, 9, 9], &mut n, 1);
    assert_eq!(n, 8);
    assert_eq!(v, vec![9, 9, 9, 0, 0, 0, 0, 0]);

    let mut m = 3;
    let v = x2realloc(Vec::new(), &mut m);
    assert_eq!(m, 3);
    assert_eq!(v.len(), 3);

    let mut k = 0;
    let v = x2nrealloc(Vec::new(), &mut k, 1000);
    assert_eq!(k, 1);
    assert_eq!(v.len(), 1000);
}

#[test]
fn xpalloc_grows_non_empty_arrays() {
    let word = 2 * usize::BITS as isize;
    let mut n: isize = 4;
    let v = xpalloc(vec![7; 8], &mut n, 1, -1, 2);
    assert_eq!(n, word / 2);
    assert_eq!(v.len() as isize, word);
    assert_eq!(&v[..8], &[7; 8]);

    let mut n: isize = 1000;
    let v = xpalloc(vec![1; 1000], &mut n, 10, 1200, 1);
    assert_eq!(n, 1200);
    assert_eq!(v.len(), 1200);

    let mut n: isize = 100;
    let v = xpalloc(vec![1; 100], &mut n, 100, -1, 1);
    assert_eq!(n, 200);
    assert_eq!(v.len(), 200);

    let mut n: isize = 0;
    let v = xpalloc(Vec::new(), &mut n, 1, -1, 4);
    assert_eq!(n, word / 4);
    assert_eq!(v.len() as isize, word);
}

#[test]
fn ximemdup0_at_the_ends() {
    assert_eq!(ximemdup0(b"ab", 0), "\0ab");
    assert_eq!(ximemdup0(b"ab", 2), "ab\0");
    assert_eq!(xrealloc(vec![1, 2, 3], 1), vec![1]);
}
