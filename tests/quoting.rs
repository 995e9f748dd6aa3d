use gnulib_quote::quotearg::{
    clone_quoting_options, get_quoting_style, quotearg_alloc, quotearg_buffer,
    quotearg_buffer_restyled, quoting_options_from_style, quoting_supported, set_char_quoting,
    set_custom_quoting, set_quoting_flags, set_quoting_style, QuotingStyle, ELIDE_NULL_BYTES,
    ELIDE_OUTER_QUOTES, SPLIT_TRIGRAPHS,
};

const NO_TABLE: [u32; 8] = [0; 8];
const AUTO: usize = usize::MAX;

fn quote(arg: &[u8], len: usize, style: QuotingStyle, flags: i32, table: &[u32; 8], l: &[u8], r: &[u8]) -> Vec<u8> {
    let mut buf = Vec::new();
    let n = quotearg_buffer_restyled(&mut buf, 0, arg, len, style, flags, table, l, r);
    assert!(buf.is_empty());
    let m = quotearg_buffer_restyled(&mut buf, n, arg, len, style, flags, table, l, r);
    assert_eq!(m, n);
    assert_eq!(buf.len(), n);
    buf
}

fn table_with(bytes: &[u8]) -> [u32; 8] {
    let mut o = quoting_options_from_style(QuotingStyle::Literal);
    let mut t = [0u32; 8];
    for &b in bytes {
        set_char_quoting(&mut o, b, 1);
        t[(b / 32) as usize] |= 1 << (b % 32);
    }
    t
}

#[test]
fn c_style_escapes_double_quote() {
    assert_eq!(quote(b"a\"b", AUTO, QuotingStyle::C, 0, &NO_TABLE, b"", b""), b"\"a\\\"b\"".to_vec());
}

#[test]
fn shell_always_escapes_single_quote() {
    assert_eq!(quote(b"a'b", AUTO, QuotingStyle::ShellAlways, 0, &NO_TABLE, b"", b""), b"'a'\\''b'".to_vec());
}

#[test]
fn embedded_nul_under_c_and_literal() {
    assert_eq!(quote(b"a\0b", 3, QuotingStyle::C, 0, &NO_TABLE, b"", b""), b"\"a\\0b\"".to_vec());
    assert_eq!(quote(b"a\0b", 3, QuotingStyle::Literal, ELIDE_NULL_BYTES, &NO_TABLE, b"", b""), b"ab".to_vec());
    assert_eq!(quote(b"a\0b", 3, QuotingStyle::Literal, 0, &NO_TABLE, b"", b""), b"a\0b".to_vec());
}

#[test]
fn literal_hello_has_no_delimiters() {
    assert_eq!(quote(b"hello", AUTO, QuotingStyle::Literal, 0, &NO_TABLE, b"", b""), b"hello".to_vec());
}

#[test]
fn override_is_inert_under_literal() {
    let t = table_with(b"\t");
    assert_eq!(quote(b"tab\there", AUTO, QuotingStyle::Literal, 0, &t, b"", b""), b"tab\there".to_vec());
    assert_eq!(quote(b"tab\there", AUTO, QuotingStyle::C, 0, &t, b"", b""), b"\"tab\\\there\"".to_vec());
}

#[test]
fn custom_delimiters_escape_the_closing_one() {
    assert_eq!(quote(b"a>>b", AUTO, QuotingStyle::Custom, 0, &NO_TABLE, b"<<", b">>"), b"<<a\\>>b>>".to_vec());
}

#[test]
fn locale_uses_default_marks() {
    assert_eq!(quote(b"it's", AUTO, QuotingStyle::Locale, 0, &NO_TABLE, b"", b""), b"`it\\'s'".to_vec());
    assert_eq!(quote(b"x\ny", AUTO, QuotingStyle::CLocale, 0, &NO_TABLE, b"[", b"]"), b"[x\\ny]".to_vec());
}

#[test]
fn escape_style_has_no_delimiters() {
    assert_eq!(quote(b"a\nb\"", AUTO, QuotingStyle::Escape, 0, &NO_TABLE, b"", b""), b"a\\nb\"".to_vec());
}

#[test]
fn empty_input() {
    assert_eq!(quote(b"", AUTO, QuotingStyle::C, 0, &NO_TABLE, b"", b""), b"\"\"".to_vec());
    assert_eq!(quote(b"", AUTO, QuotingStyle::Shell, 0, &NO_TABLE, b"", b""), Vec::<u8>::new());
}

#[test]
fn two_pass_sizing_and_truncation() {
    let mut buf = vec![9u8; 4];
    let n = quotearg_buffer_restyled(&mut buf, 0, b"a'b", AUTO, QuotingStyle::ShellAlways, 0, &NO_TABLE, b"", b"");
    assert_eq!(n, 8);
    assert_eq!(buf, vec![9u8; 4]);
    let n2 = quotearg_buffer_restyled(&mut buf, 3, b"a'b", AUTO, QuotingStyle::ShellAlways, 0, &NO_TABLE, b"", b"");
    assert_eq!(n2, 8);
    assert_eq!(buf, b"'a'\x09".to_vec());
    let n3 = quotearg_buffer_restyled(&mut buf, 20, b"a'b", AUTO, QuotingStyle::ShellAlways, 0, &NO_TABLE, b"", b"");
    assert_eq!(n3, 8);
    assert_eq!(buf, b"'a'\\''b'\0".to_vec());
}

#[test]
fn literal_is_identity() {
    let s: Vec<u8> = (0u8..=255).collect();
    assert_eq!(quote(&s, AUTO, QuotingStyle::Literal, 0, &NO_TABLE, b"", b""), s);
    assert_eq!(quote(&s, AUTO, QuotingStyle::Literal, SPLIT_TRIGRAPHS, &table_with(b"ab"), b"", b""), s);
}

fn parse_c(q: &[u8]) -> Vec<u8> {
    assert_eq!(q[0], b'"');
    assert_eq!(q[q.len() - 1], b'"');
    let mut out = Vec::new();
    let mut i = 1;
    while i < q.len() - 1 {
        if q[i] == b'\\' {
            out.push(match q[i + 1] {
                b'0' => 0,
                b'n' => b'\n',
                x => x,
            });
            i += 2;
        } else {
            assert_ne!(q[i], b'"');
            out.push(q[i]);
            i += 1;
        }
    }
    out
}

#[test]
fn c_style_round_trips() {
    let s = b"say \"hi\"\n\0tab\there\\".to_vec();
    let t = table_with(b"\\\t");
    let q = quote(&s, s.len(), QuotingStyle::C, 0, &t, b"", b"");
    assert_eq!(parse_c(&q), s);
}

#[test]
fn shell_always_leaves_no_bare_quote() {
    let q = quote(b"''x'", AUTO, QuotingStyle::ShellAlways, 0, &NO_TABLE, b"", b"");
    assert_eq!(q, b"''\\'''\\''x'\\'''".to_vec());
    let inner = &q[1..q.len() - 1];
    let mut i = 0;
    while i < inner.len() {
        if inner[i] == b'\'' {
            assert_eq!(&inner[i..i + 4], b"'\\''");
            i += 4;
        } else {
            i += 1;
        }
    }
}

#[test]
fn shell_always_reads_back() {
    let s = b"it's a 'test'\n\0";
    let q = quote(s, s.len(), QuotingStyle::ShellAlways, 0, &NO_TABLE, b"", b"");
    let inner = &q[1..q.len() - 1];
    let mut back = Vec::new();
    let mut i = 0;
    while i < inner.len() {
        if inner[i..].starts_with(b"'\\''") {
            back.push(b'\'');
            i += 4;
        } else {
            back.push(inner[i]);
            i += 1;
        }
    }
    assert_eq!(back, s.to_vec());
}

#[test]
fn alias_styles_match_their_targets() {
    let s = b"it's \"x\"\n";
    for flags in [0, ELIDE_NULL_BYTES] {
        assert_eq!(
            quote(s, AUTO, QuotingStyle::Shell, flags, &NO_TABLE, b"", b""),
            quote(s, AUTO, QuotingStyle::ShellAlways, flags | ELIDE_OUTER_QUOTES, &NO_TABLE, b"", b"")
        );
        assert_eq!(
            quote(s, AUTO, QuotingStyle::ShellEscape, flags, &NO_TABLE, b"", b""),
            quote(s, AUTO, QuotingStyle::Shell, flags, &NO_TABLE, b"", b"")
        );
        assert_eq!(
            quote(s, AUTO, QuotingStyle::ShellEscapeAlways, flags, &NO_TABLE, b"", b""),
            quote(s, AUTO, QuotingStyle::ShellAlways, flags, &NO_TABLE, b"", b"")
        );
    }
    let plain = b"tab\tnew\nline";
    assert_eq!(
        quote(plain, AUTO, QuotingStyle::CMaybe, 0, &NO_TABLE, b"", b""),
        quote(plain, AUTO, QuotingStyle::C, ELIDE_OUTER_QUOTES, &NO_TABLE, b"", b"")
    );
    assert_eq!(quote(plain, AUTO, QuotingStyle::CMaybe, 0, &NO_TABLE, b"", b""), b"tab\tnew\\nline".to_vec());
}

#[test]
fn unsupported_elision_is_detected() {
    assert!(!quoting_supported(b"a\"b", AUTO, QuotingStyle::CMaybe, 0, b""));
    assert!(quoting_supported(b"ab", AUTO, QuotingStyle::CMaybe, 0, b""));
    assert!(quoting_supported(b"a\"b", AUTO, QuotingStyle::C, 0, b""));
    assert!(!quoting_supported(b"a>>b", AUTO, QuotingStyle::Custom, ELIDE_OUTER_QUOTES, b">>"));
    assert!(quoting_supported(b"a\"b", 1, QuotingStyle::CMaybe, 0, b""));
}

#[test]
fn options_setters() {
    let mut o = quoting_options_from_style(QuotingStyle::C);
    assert!(get_quoting_style(Some(&o)) == QuotingStyle::C);
    assert!(get_quoting_style(None) == QuotingStyle::Literal);
    set_quoting_style(&mut o, QuotingStyle::Escape);
    assert!(get_quoting_style(Some(&o)) == QuotingStyle::Escape);

    assert_eq!(set_char_quoting(&mut o, b'x', 1), 0);
    assert_eq!(set_char_quoting(&mut o, b'x', 3), 1);
    assert_eq!(quotearg_alloc(b"xy", AUTO, &o), b"\\xy".to_vec());
    assert_eq!(set_char_quoting(&mut o, b'x', 2), 1);
    assert_eq!(set_char_quoting(&mut o, b'x', -1), 0);
    assert_eq!(set_char_quoting(&mut o, b'x', 0), 1);
    assert_eq!(quotearg_alloc(b"xy", AUTO, &o), b"xy".to_vec());

    assert_eq!(set_quoting_flags(&mut o, -1), 0);
    assert_eq!(set_quoting_flags(&mut o, 0), 7);

    set_custom_quoting(&mut o, "<", ">");
    assert!(get_quoting_style(Some(&o)) == QuotingStyle::Custom);
    assert_eq!(quotearg_alloc(b"a>b", AUTO, &o), b"<a\\>b>".to_vec());

    let copy = clone_quoting_options(Some(&o));
    set_quoting_style(&mut o, QuotingStyle::Literal);
    assert!(get_quoting_style(Some(&copy)) == QuotingStyle::Custom);
    let d = clone_quoting_options(None);
    assert!(get_quoting_style(Some(&d)) == QuotingStyle::Literal);
}

#[test]
fn quotearg_buffer_uses_options() {
    let mut o = quoting_options_from_style(QuotingStyle::ShellAlways);
    set_quoting_flags(&mut o, ELIDE_OUTER_QUOTES);
    let mut buf = Vec::new();
    let n = quotearg_buffer(&mut buf, 100, b"a'b", AUTO, &o);
    assert_eq!(n, 6);
    assert_eq!(buf, b"a'\\''b\0".to_vec());
}
