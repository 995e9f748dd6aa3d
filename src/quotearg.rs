//! The quoting engine: style dispatch, escaping rules and quoting options.
use vstd::prelude::*;

verus! {

/// The overall quoting convention.
#[derive(Clone, Copy, PartialEq, Eq, Structural, Debug)]
pub enum QuotingStyle {
    Literal,
    Shell,
    ShellAlways,
    ShellEscape,
    ShellEscapeAlways,
    C,
    CMaybe,
    Escape,
    Locale,
    CLocale,
    Custom,
}

/// Suppress the leading and trailing delimiters.
pub const ELIDE_OUTER_QUOTES: i32 = 1;

/// Drop NUL bytes instead of passing them through (when not backslash-escaping).
pub const ELIDE_NULL_BYTES: i32 = 2;

/// Reserved for trigraph safety; it has no effect on the output.
pub const SPLIT_TRIGRAPHS: i32 = 4;

/// Every flag bit that has a meaning.
pub const ALL_FLAGS: i32 = 7;

/// Whether the flag bits `flags` hold `flag`.
pub open spec fn has_flag(flags: i32, flag: i32) -> bool {
    flags & flag == flag
}

/// The style that an alias style stands for (`Shell`, `ShellEscape` and
/// `ShellEscapeAlways` quote as `ShellAlways`, `CMaybe` as `C`).
pub open spec fn canonical_style(style: QuotingStyle) -> QuotingStyle {
    match style {
        QuotingStyle::Shell | QuotingStyle::ShellEscape | QuotingStyle::ShellEscapeAlways => QuotingStyle::ShellAlways,
        QuotingStyle::CMaybe => QuotingStyle::C,
        _ => style,
    }
}

/// Whether resolving `style` forces the outer delimiters off.
pub open spec fn style_forces_elision(style: QuotingStyle) -> bool {
    match style {
        QuotingStyle::Shell | QuotingStyle::ShellEscape | QuotingStyle::CMaybe => true,
        _ => false,
    }
}

/// Whether the outer delimiters are elided, by the flags or by the style.
pub open spec fn effective_elide(style: QuotingStyle, flags: i32) -> bool {
    has_flag(flags, ELIDE_OUTER_QUOTES) || style_forces_elision(style)
}

/// Whether a canonical style escapes with backslashes.
pub open spec fn backslash_escapes(cs: QuotingStyle) -> bool {
    match cs {
        QuotingStyle::C | QuotingStyle::Escape | QuotingStyle::Locale | QuotingStyle::CLocale
        | QuotingStyle::Custom => true,
        _ => false,
    }
}

/// The opening delimiter of a canonical style.
pub open spec fn left_delimiter(cs: QuotingStyle, left: Seq<u8>) -> Seq<u8> {
    match cs {
        QuotingStyle::C => seq![34u8],
        QuotingStyle::ShellAlways => seq![39u8],
        QuotingStyle::Locale | QuotingStyle::CLocale => if left.len() == 0 {
            seq![96u8]
        } else {
            left
        },
        QuotingStyle::Custom => left,
        _ => Seq::empty(),
    }
}

/// The closing delimiter of a canonical style; it is also the sequence that
/// gets a backslash where it occurs inside the input.
pub open spec fn right_delimiter(cs: QuotingStyle, right: Seq<u8>) -> Seq<u8> {
    match cs {
        QuotingStyle::C => seq![34u8],
        QuotingStyle::ShellAlways => seq![39u8],
        QuotingStyle::Locale | QuotingStyle::CLocale => if right.len() == 0 {
            seq![39u8]
        } else {
            right
        },
        QuotingStyle::Custom => right,
        _ => Seq::empty(),
    }
}

/// Whether byte `c` is marked in the per-byte table (bit `c % 32` of word `c / 32`).
pub open spec fn table_has(table: [u32; 8], c: u8) -> bool {
    (table@[(c / 32) as int] >> ((c % 32) as u32)) & 1u32 == 1u32
}

/// Whether the non-empty sequence `q` occurs in `s` at position `i`.
pub open spec fn occurs_at(s: Seq<u8>, i: int, q: Seq<u8>) -> bool {
    q.len() > 0 && 0 <= i && i + q.len() <= s.len() && s.subrange(i, i + q.len()) == q
}

/// Whether the closing delimiter gets a backslash at position `i`.
pub open spec fn escapes_close_at(s: Seq<u8>, i: int, cs: QuotingStyle, right: Seq<u8>) -> bool {
    backslash_escapes(cs) && occurs_at(s, i, right_delimiter(cs, right))
}

/// What the byte at position `i` of `s` becomes, after the closing-delimiter check.
pub open spec fn byte_body(
    s: Seq<u8>,
    i: int,
    cs: QuotingStyle,
    elide_null: bool,
    table: [u32; 8],
    right: Seq<u8>,
) -> Seq<u8> {
    let c = s[i];
    let bs = backslash_escapes(cs);
    if c == 0u8 {
        if bs {
            seq![92u8, 48u8]
        } else if elide_null {
            Seq::empty()
        } else {
            seq![0u8]
        }
    } else if c == 10u8 {
        if bs {
            seq![92u8, 110u8]
        } else {
            seq![10u8]
        }
    } else if c == 34u8 && cs == QuotingStyle::C {
        if escapes_close_at(s, i, cs, right) {
            seq![34u8]
        } else {
            seq![92u8, 34u8]
        }
    } else if c == 39u8 && cs == QuotingStyle::ShellAlways {
        seq![39u8, 92u8, 39u8, 39u8]
    } else if bs && table_has(table, c) {
        seq![92u8, c]
    } else {
        seq![c]
    }
}

/// What the byte at position `i` of `s` becomes in the output.
pub open spec fn piece(
    s: Seq<u8>,
    i: int,
    cs: QuotingStyle,
    elide_null: bool,
    table: [u32; 8],
    right: Seq<u8>,
) -> Seq<u8> {
    if escapes_close_at(s, i, cs, right) {
        seq![92u8] + byte_body(s, i, cs, elide_null, table, right)
    } else {
        byte_body(s, i, cs, elide_null, table, right)
    }
}

/// The escaped form of the first `n` bytes of `s`, without delimiters.
pub open spec fn quoted_body(
    s: Seq<u8>,
    n: int,
    cs: QuotingStyle,
    elide_null: bool,
    table: [u32; 8],
    right: Seq<u8>,
) -> Seq<u8>
    decreases n,
{
    if n <= 0 {
        Seq::empty()
    } else {
        quoted_body(s, n - 1, cs, elide_null, table, right) + piece(
            s,
            n - 1,
            cs,
            elide_null,
            table,
            right,
        )
    }
}

/// The output of a canonical style.
pub open spec fn quoted_canonical(
    s: Seq<u8>,
    cs: QuotingStyle,
    elide: bool,
    elide_null: bool,
    table: [u32; 8],
    left: Seq<u8>,
    right: Seq<u8>,
) -> Seq<u8> {
    let body = quoted_body(s, s.len() as int, cs, elide_null, table, right);
    if elide {
        body
    } else {
        left_delimiter(cs, left) + body + right_delimiter(cs, right)
    }
}

/// The quoted form of `s` under `style` and `flags`.
pub open spec fn quoted(
    s: Seq<u8>,
    style: QuotingStyle,
    flags: i32,
    table: [u32; 8],
    left: Seq<u8>,
    right: Seq<u8>,
) -> Seq<u8> {
    quoted_canonical(
        s,
        canonical_style(style),
        effective_elide(style, flags),
        has_flag(flags, ELIDE_NULL_BYTES),
        table,
        left,
        right,
    )
}

/// Whether quoting `s` runs into the unsupported combination of backslash
/// escaping, elided delimiters and a closing delimiter inside the input.
pub open spec fn unsupported_elision(
    s: Seq<u8>,
    style: QuotingStyle,
    flags: i32,
    right: Seq<u8>,
) -> bool {
    effective_elide(style, flags) && exists|i: int|
        0 <= i < s.len() && #[trigger] escapes_close_at(s, i, canonical_style(style), right)
}

/// The input that a call looks at: all of `arg`, or its first `argsize` bytes.
pub open spec fn effective_input(arg: Seq<u8>, argsize: usize) -> Seq<u8> {
    if argsize == usize::MAX {
        arg
    } else {
        arg.take(argsize as int)
    }
}

/// The bytes of `old` past position `k`, if it has any.
pub open spec fn tail_after(old: Seq<u8>, k: int) -> Seq<u8> {
    if old.len() > k {
        old.skip(k)
    } else {
        Seq::empty()
    }
}

/// What the output buffer holds after a call that found `old` in it: the
/// output with a terminating NUL when room is left for it, else the first
/// `cap` bytes of the output over the first `cap` bytes of `old`.
pub open spec fn written(out: Seq<u8>, cap: usize, old: Seq<u8>) -> Seq<u8> {
    if out.len() < cap {
        out.push(0u8)
    } else {
        out.take(cap as int) + tail_after(old, cap as int)
    }
}

/// The buffer while output is produced: the first `cap` bytes of the output
/// so far, over what `old` held.
pub open spec fn overlay(out: Seq<u8>, cap: usize, old: Seq<u8>) -> Seq<u8> {
    let k = if out.len() <= cap {
        out.len() as int
    } else {
        cap as int
    };
    out.take(k) + tail_after(old, k)
}

proof fn lemma_piece_len(
    s: Seq<u8>,
    i: int,
    cs: QuotingStyle,
    elide_null: bool,
    table: [u32; 8],
    right: Seq<u8>,
)
    requires
        0 <= i < s.len(),
    ensures
        piece(s, i, cs, elide_null, table, right).len() <= 4,
{
}

proof fn lemma_body_len(
    s: Seq<u8>,
    n: int,
    cs: QuotingStyle,
    elide_null: bool,
    table: [u32; 8],
    right: Seq<u8>,
)
    requires
        0 <= n <= s.len(),
    ensures
        quoted_body(s, n, cs, elide_null, table, right).len() <= 4 * n,
    decreases n,
{
    if n > 0 {
        lemma_body_len(s, n - 1, cs, elide_null, table, right);
        lemma_piece_len(s, n - 1, cs, elide_null, table, right);
    }
}

/// Appends `bytes` to the output, writing at most `cap` bytes into `buf`
/// over what `old` held there.
fn store(
    buf: &mut Vec<u8>,
    cap: usize,
    len: usize,
    bytes: &[u8],
    Ghost(out): Ghost<Seq<u8>>,
    Ghost(old_buf): Ghost<Seq<u8>>,
) -> (r: usize)
    requires
        old(buf)@ == overlay(out, cap, old_buf),
        out.len() == len,
        len + bytes@.len() <= usize::MAX,
    ensures
        final(buf)@ == overlay(out + bytes@, cap, old_buf),
        r == len + bytes@.len(),
{
    let mut k: usize = 0;
    let mut l = len;
    while k < bytes.len()
        invariant
            k <= bytes@.len(),
            l == len + k,
            len + bytes@.len() <= usize::MAX,
            out.len() == len,
            buf@ == overlay(out + bytes@.take(k as int), cap, old_buf),
        decreases bytes@.len() - k,
    {
        let ghost before = out + bytes@.take(k as int);
        let ghost after = out + bytes@.take(k + 1);
        assert(after =~= before.push(bytes@[k as int]));
        assert(before.len() == l);
        if l < cap {
            if l < buf.len() {
                buf[l] = bytes[k];
            } else {
                buf.push(bytes[k]);
            }
            assert(buf@ =~= overlay(after, cap, old_buf));
        } else {
            assert(overlay(after, cap, old_buf) =~= overlay(before, cap, old_buf));
        }
        k = k + 1;
        l = l + 1;
    }
    assert(bytes@.take(k as int) =~= bytes@);
    l
}

/// Ends the output: a NUL after it when room is left.
fn terminate(buf: &mut Vec<u8>, cap: usize, len: usize, Ghost(out): Ghost<Seq<u8>>, Ghost(old_buf): Ghost<Seq<u8>>)
    requires
        old(buf)@ == overlay(out, cap, old_buf),
        out.len() == len,
    ensures
        final(buf)@ == written(out, cap, old_buf),
{
    if len < cap {
        if len < buf.len() {
            buf[len] = 0u8;
            buf.truncate(len + 1);
        } else {
            buf.push(0u8);
        }
    }
    assert(buf@ =~= written(out, cap, old_buf));
}

/// Whether the non-empty `q` occurs at position `i` of the first `n` bytes of `s`.
fn occurs_at_exec(s: &[u8], n: usize, i: usize, q: &[u8]) -> (r: bool)
    requires
        n <= s@.len(),
        i < n,
    ensures
        r == occurs_at(s@.take(n as int), i as int, q@),
{
    if q.len() == 0 || q.len() > n - i {
        return false;
    }
    let mut k: usize = 0;
    while k < q.len()
        invariant
            k <= q@.len(),
            i + q@.len() <= n <= s@.len(),
            forall|j: int| 0 <= j < k ==> s@[i + j] == q@[j],
        decreases q@.len() - k,
    {
        if s[i + k] != q[k] {
            assert(s@.take(n as int).subrange(i as int, i + q@.len())[k as int] != q@[k as int]);
            return false;
        }
        k = k + 1;
    }
    assert(s@.take(n as int).subrange(i as int, i + q@.len()) =~= q@);
    true
}

fn canonical_style_exec(style: QuotingStyle) -> (r: QuotingStyle)
    ensures
        r == canonical_style(style),
{
    match style {
        QuotingStyle::Shell | QuotingStyle::ShellEscape | QuotingStyle::ShellEscapeAlways => QuotingStyle::ShellAlways,
        QuotingStyle::CMaybe => QuotingStyle::C,
        _ => style,
    }
}

fn backslash_escapes_exec(cs: QuotingStyle) -> (r: bool)
    ensures
        r == backslash_escapes(cs),
{
    match cs {
        QuotingStyle::C | QuotingStyle::Escape | QuotingStyle::Locale | QuotingStyle::CLocale
        | QuotingStyle::Custom => true,
        _ => false,
    }
}

fn delimiter_bytes(cs: QuotingStyle, given: &[u8], closing: bool) -> (r: Vec<u8>)
    ensures
        closing ==> r@ == right_delimiter(cs, given@),
        !closing ==> r@ == left_delimiter(cs, given@),
{
    let mut r: Vec<u8> = Vec::new();
    match cs {
        QuotingStyle::C => {
            r.push(34u8);
        },
        QuotingStyle::ShellAlways => {
            r.push(39u8);
        },
        QuotingStyle::Locale | QuotingStyle::CLocale => {
            if given.len() == 0 {
                if closing {
                    r.push(39u8);
                } else {
                    r.push(96u8);
                }
            } else {
                r = vstd::slice::slice_to_vec(given);
            }
        },
        QuotingStyle::Custom => {
            r = vstd::slice::slice_to_vec(given);
        },
        _ => {},
    }
    assert(r@ =~= if closing {
        right_delimiter(cs, given@)
    } else {
        left_delimiter(cs, given@)
    });
    r
}

/// The output for the byte at position `i` of the first `n` bytes of `s`;
/// `rq` is the closing delimiter of `cs`.
fn piece_exec(
    s: &[u8],
    n: usize,
    i: usize,
    cs: QuotingStyle,
    elide_null: bool,
    table: &[u32; 8],
    rq: &[u8],
    Ghost(right): Ghost<Seq<u8>>,
) -> (r: Vec<u8>)
    requires
        n <= s@.len(),
        i < n,
        rq@ == right_delimiter(cs, right),
    ensures
        r@ == piece(s@.take(n as int), i as int, cs, elide_null, *table, right),
{
    let ghost t = s@.take(n as int);
    let bs = backslash_escapes_exec(cs);
    let close = bs && occurs_at_exec(s, n, i, rq);
    assert(close == escapes_close_at(t, i as int, cs, right));
    let c = s[i];
    assert(c == t[i as int]);
    let mut r: Vec<u8> = Vec::new();
    if close {
        r.push(92u8);
    }
    if c == 0u8 {
        if bs {
            r.push(92u8);
            r.push(48u8);
        } else if !elide_null {
            r.push(0u8);
        }
    } else if c == 10u8 {
        if bs {
            r.push(92u8);
            r.push(110u8);
        } else {
            r.push(10u8);
        }
    } else if c == 34u8 && cs == QuotingStyle::C {
        if !close {
            r.push(92u8);
        }
        r.push(34u8);
    } else if c == 39u8 && cs == QuotingStyle::ShellAlways {
        r.push(39u8);
        r.push(92u8);
        r.push(39u8);
        r.push(39u8);
    } else if bs && (table[(c / 32) as usize] >> ((c % 32) as u32)) & 1u32 == 1u32 {
        r.push(92u8);
        r.push(c);
    } else {
        r.push(c);
    }
    assert(r@ =~= piece(t, i as int, cs, elide_null, *table, right));
    r
}

/// Quotes the input (all of `arg` when `argsize` is `usize::MAX`, else its
/// first `argsize` bytes) under `style` and `flags`, with the per-byte table
/// and the custom delimiters (which the custom style needs both of). Returns
/// the full length of the quoted form and writes its first `buffersize` bytes
/// over the start of `buffer`; when room is left, a NUL follows and ends the
/// buffer. With `buffersize` 0 the buffer is left as it was.
pub fn quotearg_buffer_restyled(
    buffer: &mut Vec<u8>,
    buffersize: usize,
    arg: &[u8],
    argsize: usize,
    style: QuotingStyle,
    flags: i32,
    quote_these_too: &[u32; 8],
    left_quote: &[u8],
    right_quote: &[u8],
) -> (len: usize)
    requires
        argsize == usize::MAX || argsize <= arg@.len(),
        4 * arg@.len() + left_quote@.len() + right_quote@.len() + 2 <= usize::MAX,
        !unsupported_elision(effective_input(arg@, argsize), style, flags, right_quote@),
        style == QuotingStyle::Custom ==> left_quote@.len() > 0 && right_quote@.len() > 0,
    ensures
        len == quoted(
            effective_input(arg@, argsize),
            style,
            flags,
            *quote_these_too,
            left_quote@,
            right_quote@,
        ).len(),
        final(buffer)@ == written(
            quoted(
                effective_input(arg@, argsize),
                style,
                flags,
                *quote_these_too,
                left_quote@,
                right_quote@,
            ),
            buffersize,
            old(buffer)@,
        ),
{
    let ghost old_buf = buffer@;
    let ghost s = effective_input(arg@, argsize);
    let n: usize = if argsize == usize::MAX {
        arg.len()
    } else {
        argsize
    };
    assert(s =~= arg@.take(n as int));
    let cs = canonical_style_exec(style);
    let elide = (flags & ELIDE_OUTER_QUOTES) == ELIDE_OUTER_QUOTES || match style {
        QuotingStyle::Shell | QuotingStyle::ShellEscape | QuotingStyle::CMaybe => true,
        _ => false,
    };
    let elide_null = (flags & ELIDE_NULL_BYTES) == ELIDE_NULL_BYTES;
    assert(elide == effective_elide(style, flags));
    let lq = delimiter_bytes(cs, left_quote, false);
    let rq = delimiter_bytes(cs, right_quote, true);
    let ghost head: Seq<u8> = if elide {
        Seq::empty()
    } else {
        lq@
    };
    let mut len: usize = 0;
    assert(buffer@ =~= overlay(Seq::empty(), buffersize, old_buf));
    if !elide {
        len = store(buffer, buffersize, len, lq.as_slice(), Ghost(Seq::empty()), Ghost(old_buf));
        assert(Seq::<u8>::empty() + lq@ =~= lq@);
    }
    let mut i: usize = 0;
    while i < n
        invariant
            n <= arg@.len(),
            s == arg@.take(n as int),
            s.len() == n,
            i <= n,
            rq@ == right_delimiter(cs, right_quote@),
            head.len() <= left_quote@.len() + 1,
            4 * arg@.len() + left_quote@.len() + right_quote@.len() + 2 <= usize::MAX,
            len == head.len() + quoted_body(s, i as int, cs, elide_null, *quote_these_too, right_quote@).len(),
            buffer@ == overlay(
                head + quoted_body(s, i as int, cs, elide_null, *quote_these_too, right_quote@),
                buffersize,
                old_buf,
            ),
        decreases n - i,
    {
        let p = piece_exec(arg, n, i, cs, elide_null, quote_these_too, rq.as_slice(), Ghost(right_quote@));
        proof {
            lemma_body_len(s, i as int, cs, elide_null, *quote_these_too, right_quote@);
            lemma_piece_len(s, i as int, cs, elide_null, *quote_these_too, right_quote@);
        }
        let ghost before = head + quoted_body(s, i as int, cs, elide_null, *quote_these_too, right_quote@);
        len = store(buffer, buffersize, len, p.as_slice(), Ghost(before), Ghost(old_buf));
        assert(before + p@ =~= head + quoted_body(s, i + 1, cs, elide_null, *quote_these_too, right_quote@));
        i = i + 1;
    }
    let ghost body = quoted_body(s, n as int, cs, elide_null, *quote_these_too, right_quote@);
    proof {
        lemma_body_len(s, n as int, cs, elide_null, *quote_these_too, right_quote@);
    }
    if !elide {
        len = store(buffer, buffersize, len, rq.as_slice(), Ghost(head + body), Ghost(old_buf));
    }
    let ghost out = quoted(s, style, flags, *quote_these_too, left_quote@, right_quote@);
    assert(out =~= if elide { head + body } else { head + body + rq@ });
    terminate(buffer, buffersize, len, Ghost(out), Ghost(old_buf));
    len
}

/// Whether quoting `s` is supported: true unless backslash escaping, elided
/// delimiters and a closing delimiter inside the input come together.
pub fn quoting_supported(
    arg: &[u8],
    argsize: usize,
    style: QuotingStyle,
    flags: i32,
    right_quote: &[u8],
) -> (r: bool)
    requires
        argsize == usize::MAX || argsize <= arg@.len(),
    ensures
        r == !unsupported_elision(effective_input(arg@, argsize), style, flags, right_quote@),
{
    let ghost s = effective_input(arg@, argsize);
    let n: usize = if argsize == usize::MAX {
        arg.len()
    } else {
        argsize
    };
    assert(s =~= arg@.take(n as int));
    let cs = canonical_style_exec(style);
    let elide = (flags & ELIDE_OUTER_QUOTES) == ELIDE_OUTER_QUOTES || match style {
        QuotingStyle::Shell | QuotingStyle::ShellEscape | QuotingStyle::CMaybe => true,
        _ => false,
    };
    assert(elide == effective_elide(style, flags));
    if !elide || !backslash_escapes_exec(cs) {
        return true;
    }
    let rq = delimiter_bytes(cs, right_quote, true);
    let mut i: usize = 0;
    while i < n
        invariant
            n <= arg@.len(),
            s == arg@.take(n as int),
            s == effective_input(arg@, argsize),
            s.len() == n,
            i <= n,
            backslash_escapes(cs),
            effective_elide(style, flags),
            cs == canonical_style(style),
            rq@ == right_delimiter(cs, right_quote@),
            forall|j: int| 0 <= j < i ==> !#[trigger] escapes_close_at(s, j, cs, right_quote@),
        decreases n - i,
    {
        if occurs_at_exec(arg, n, i, rq.as_slice()) {
            assert(escapes_close_at(s, i as int, cs, right_quote@));
            assert(0 <= i < s.len());
            return false;
        }
        i = i + 1;
    }
    true
}

/// The configuration of a quoting call.
pub struct QuotingOptions {
    style: QuotingStyle,
    flags: i32,
    quote_these_too: [u32; 8],
    left_quote: String,
    right_quote: String,
}

/// What a `QuotingOptions` holds, as plain values.
pub struct QuotingOptionsView {
    pub style: QuotingStyle,
    pub flags: i32,
    pub table: [u32; 8],
    pub left_quote: Seq<char>,
    pub right_quote: Seq<char>,
}

impl View for QuotingOptions {
    type V = QuotingOptionsView;

    closed spec fn view(&self) -> QuotingOptionsView {
        QuotingOptionsView {
            style: self.style,
            flags: self.flags,
            table: self.quote_these_too,
            left_quote: self.left_quote@,
            right_quote: self.right_quote@,
        }
    }
}

/// The table with no byte marked.
pub open spec fn empty_table() -> [u32; 8] {
    [0u32, 0u32, 0u32, 0u32, 0u32, 0u32, 0u32, 0u32]
}

/// The empty table marks no byte.
pub proof fn lemma_empty_table_marks_nothing()
    ensures
        forall|c: u8| !#[trigger] table_has(empty_table(), c),
{
    assert forall|c: u8| !#[trigger] table_has(empty_table(), c) by {
        let k = (c % 32) as u32;
        assert(empty_table()@[(c / 32) as int] == 0u32);
        assert((0u32 >> k) & 1u32 == 0u32) by (bit_vector);
    }
}

/// The initial default options: literal style, no flags, no byte marked,
/// empty delimiters.
pub open spec fn default_options() -> QuotingOptionsView {
    QuotingOptionsView {
        style: QuotingStyle::Literal,
        flags: 0,
        table: empty_table(),
        left_quote: Seq::empty(),
        right_quote: Seq::empty(),
    }
}

/// Whether `new` marks `c` exactly when `on`, and every other byte as `old` does.
pub open spec fn table_updated(old: [u32; 8], new: [u32; 8], c: u8, on: bool) -> bool {
    forall|b: u8| #[trigger] table_has(new, b) == if b == c {
        on
    } else {
        table_has(old, b)
    }
}

fn copy_options(src: &QuotingOptions) -> (r: QuotingOptions)
    ensures
        r@ == src@,
{
    QuotingOptions {
        style: src.style,
        flags: src.flags,
        quote_these_too: src.quote_these_too,
        left_quote: src.left_quote.clone(),
        right_quote: src.right_quote.clone(),
    }
}

/// A copy of `o`, or of the initial default options when `o` is `None`.
pub fn clone_quoting_options(o: Option<&QuotingOptions>) -> (r: Box<QuotingOptions>)
    ensures
        match o {
            Some(src) => (*r)@ == src@,
            None => (*r)@ == default_options(),
        },
{
    match o {
        Some(src) => Box::new(copy_options(src)),
        None => {
            let d = QuotingOptions {
                style: QuotingStyle::Literal,
                flags: 0,
                quote_these_too: [0u32, 0u32, 0u32, 0u32, 0u32, 0u32, 0u32, 0u32],
                left_quote: String::new(),
                right_quote: String::new(),
            };
            assert(d@.table =~= empty_table());
            Box::new(d)
        },
    }
}

/// The style of `o`, or of the initial default options when `o` is `None`.
pub fn get_quoting_style(o: Option<&QuotingOptions>) -> (r: QuotingStyle)
    ensures
        r == match o {
            Some(src) => src@.style,
            None => default_options().style,
        },
{
    match o {
        Some(src) => src.style,
        None => QuotingStyle::Literal,
    }
}

/// Sets the style of `o`.
pub fn set_quoting_style(o: &mut QuotingOptions, s: QuotingStyle)
    ensures
        final(o)@ == (QuotingOptionsView { style: s, ..old(o)@ }),
{
    o.style = s;
}

proof fn lemma_flip_bit(w: u32, shift: u32, on: u32)
    requires
        shift < 32,
        on == 0 || on == 1,
    ensures
        ((w ^ ((on ^ ((w >> shift) & 1u32)) << shift)) >> shift) & 1u32 == on,
        forall|j: u32|
            j < 32 && j != shift ==> ((w ^ ((on ^ ((w >> shift) & 1u32)) << shift)) >> j) & 1u32
                == (w >> j) & 1u32,
{
    assert(((w ^ ((on ^ ((w >> shift) & 1u32)) << shift)) >> shift) & 1u32 == on) by (bit_vector)
        requires
            shift < 32,
            on == 0 || on == 1,
    ;
    assert forall|j: u32| j < 32 && j != shift implies ((w ^ ((on ^ ((w >> shift) & 1u32))
        << shift)) >> j) & 1u32 == (w >> j) & 1u32 by {
        assert(j < 32 && j != shift && (on == 0 || on == 1) && shift < 32 ==> ((w ^ ((on ^ ((w
            >> shift) & 1u32)) << shift)) >> j) & 1u32 == (w >> j) & 1u32) by (bit_vector);
    }
}

/// Marks byte `c` for backslash escaping when `i` is odd, and unmarks it when
/// `i` is even. Returns the previous mark of `c` (1 or 0).
pub fn set_char_quoting(o: &mut QuotingOptions, c: u8, i: i32) -> (r: i32)
    ensures
        r == (if table_has(old(o)@.table, c) {
            1i32
        } else {
            0i32
        }),
        table_updated(old(o)@.table, final(o)@.table, c, i % 2 != 0),
        final(o)@.style == old(o)@.style,
        final(o)@.flags == old(o)@.flags,
        final(o)@.left_quote == old(o)@.left_quote,
        final(o)@.right_quote == old(o)@.right_quote,
{
    let idx = (c / 32) as usize;
    let shift = (c % 32) as u32;
    let w = o.quote_these_too[idx];
    let prev = (w >> shift) & 1u32;
    assert(((w >> shift) & 1u32) == 0u32 || ((w >> shift) & 1u32) == 1u32) by (bit_vector);
    let on: u32 = if i % 2 != 0 {
        1
    } else {
        0
    };
    let ghost old_table = o.quote_these_too;
    o.quote_these_too[idx] = w ^ ((on ^ prev) << shift);
    proof {
        lemma_flip_bit(w, shift, on);
        assert forall|b: u8| #[trigger] table_has(o.quote_these_too, b) == if b == c {
            on == 1
        } else {
            table_has(old_table, b)
        } by {
            if b / 32 == c / 32 {
                assert(b != c ==> b % 32 != c % 32);
            } else {
                assert(o.quote_these_too@[(b / 32) as int] == old_table@[(b / 32) as int]);
            }
        }
    }
    if prev == 1 {
        1
    } else {
        0
    }
}

/// Replaces the flags of `o` by the meaningful bits of `i`; the other bits of
/// `i` are dropped. Returns the previous flags.
pub fn set_quoting_flags(o: &mut QuotingOptions, i: i32) -> (r: i32)
    ensures
        r == old(o)@.flags,
        final(o)@ == (QuotingOptionsView { flags: i & ALL_FLAGS, ..old(o)@ }),
{
    let r = o.flags;
    o.flags = i & ALL_FLAGS;
    r
}

/// Switches `o` to the custom style with the delimiters `left` and `right`.
pub fn set_custom_quoting(o: &mut QuotingOptions, left: &str, right: &str)
    ensures
        final(o)@ == (QuotingOptionsView {
            style: QuotingStyle::Custom,
            left_quote: left@,
            right_quote: right@,
            ..old(o)@
        }),
{
    o.style = QuotingStyle::Custom;
    o.left_quote = left.to_owned();
    o.right_quote = right.to_owned();
}

/// Fresh options for `style`, which cannot be the custom style: that one
/// needs its delimiters (see `set_custom_quoting`).
pub fn quoting_options_from_style(style: QuotingStyle) -> (r: QuotingOptions)
    requires
        style != QuotingStyle::Custom,
    ensures
        r@ == (QuotingOptionsView { style, ..default_options() }),
{
    let r = QuotingOptions {
        style,
        flags: 0,
        quote_these_too: [0u32, 0u32, 0u32, 0u32, 0u32, 0u32, 0u32, 0u32],
        left_quote: String::new(),
        right_quote: String::new(),
    };
    assert(r@.table =~= empty_table());
    r
}

/// The bytes of a delimiter held by the options.
pub open spec fn delimiter_of(q: Seq<char>) -> Seq<u8> {
    vstd::utf8::encode_utf8(q)
}

/// Quotes the input (all of `arg` when `argsize` is `usize::MAX`, else its
/// first `argsize` bytes) under the options `o`. Returns the full length of
/// the quoted form and writes its first `buffersize` bytes over the start of
/// `buffer`; when room is left, a NUL follows and ends the buffer.
pub fn quotearg_buffer(
    buffer: &mut Vec<u8>,
    buffersize: usize,
    arg: &[u8],
    argsize: usize,
    o: &QuotingOptions,
) -> (len: usize)
    requires
        argsize == usize::MAX || argsize <= arg@.len(),
        4 * arg@.len() + delimiter_of(o@.left_quote).len() + delimiter_of(o@.right_quote).len() + 2
            <= usize::MAX,
        !unsupported_elision(
            effective_input(arg@, argsize),
            o@.style,
            o@.flags,
            delimiter_of(o@.right_quote),
        ),
        o@.style == QuotingStyle::Custom ==> delimiter_of(o@.left_quote).len() > 0
            && delimiter_of(o@.right_quote).len() > 0,
    ensures
        len == quoted(
            effective_input(arg@, argsize),
            o@.style,
            o@.flags,
            o@.table,
            delimiter_of(o@.left_quote),
            delimiter_of(o@.right_quote),
        ).len(),
        final(buffer)@ == written(
            quoted(
                effective_input(arg@, argsize),
                o@.style,
                o@.flags,
                o@.table,
                delimiter_of(o@.left_quote),
                delimiter_of(o@.right_quote),
            ),
            buffersize,
            old(buffer)@,
        ),
{
    quotearg_buffer_restyled(
        buffer,
        buffersize,
        arg,
        argsize,
        o.style,
        o.flags,
        &o.quote_these_too,
        o.left_quote.as_str().as_bytes(),
        o.right_quote.as_str().as_bytes(),
    )
}

/// Alias styles: `Shell` quotes as `ShellAlways` with the outer delimiters
/// elided, `CMaybe` as `C` with them elided; `ShellEscape` quotes as `Shell`
/// and `ShellEscapeAlways` as `ShellAlways`.
pub proof fn lemma_style_aliases(
    s: Seq<u8>,
    flags: i32,
    table: [u32; 8],
    left: Seq<u8>,
    right: Seq<u8>,
)
    ensures
        quoted(s, QuotingStyle::Shell, flags, table, left, right) == quoted(
            s,
            QuotingStyle::ShellAlways,
            flags | ELIDE_OUTER_QUOTES,
            table,
            left,
            right,
        ),
        quoted(s, QuotingStyle::CMaybe, flags, table, left, right) == quoted(
            s,
            QuotingStyle::C,
            flags | ELIDE_OUTER_QUOTES,
            table,
            left,
            right,
        ),
        quoted(s, QuotingStyle::ShellEscape, flags, table, left, right) == quoted(
            s,
            QuotingStyle::Shell,
            flags,
            table,
            left,
            right,
        ),
        quoted(s, QuotingStyle::ShellEscapeAlways, flags, table, left, right) == quoted(
            s,
            QuotingStyle::ShellAlways,
            flags,
            table,
            left,
            right,
        ),
{
    assert((flags | 1i32) & 1i32 == 1i32) by (bit_vector);
    assert(((flags | 1i32) & 2i32 == 2i32) == (flags & 2i32 == 2i32)) by (bit_vector);
}

/// Sizing then filling: a call with capacity 0 leaves the buffer as it was
/// and returns the full length; a second call with exactly that capacity
/// writes the whole quoted form over the start of the buffer (all of it when
/// the buffer was empty), and one with a byte more leaves the quoted form
/// and a terminating NUL.
pub proof fn lemma_two_pass_sizing(
    s: Seq<u8>,
    style: QuotingStyle,
    flags: i32,
    table: [u32; 8],
    left: Seq<u8>,
    right: Seq<u8>,
    old: Seq<u8>,
)
    requires
        4 * s.len() + left.len() + right.len() + 2 <= usize::MAX,
    ensures
        ({
            let q = quoted(s, style, flags, table, left, right);
            &&& q.len() < usize::MAX
            &&& written(q, 0, old) == old
            &&& written(q, q.len() as usize, old).take(q.len() as int) == q
            &&& written(q, q.len() as usize, Seq::empty()) == q
            &&& written(q, (q.len() + 1) as usize, old) == q.push(0u8)
        }),
{
    let cs = canonical_style(style);
    let en = has_flag(flags, ELIDE_NULL_BYTES);
    lemma_body_len(s, s.len() as int, cs, en, table, right);
    let q = quoted(s, style, flags, table, left, right);
    assert(q.len() < usize::MAX);
    assert(written(q, 0, old) =~= old);
    assert(written(q, q.len() as usize, old).take(q.len() as int) =~= q);
    assert(written(q, q.len() as usize, Seq::empty()) =~= q);
}

proof fn lemma_literal_body(s: Seq<u8>, n: int, table: [u32; 8], right: Seq<u8>)
    requires
        0 <= n <= s.len(),
    ensures
        quoted_body(s, n, QuotingStyle::Literal, false, table, right) == s.take(n),
    decreases n,
{
    if n > 0 {
        lemma_literal_body(s, n - 1, table, right);
        assert(s.take(n) =~= s.take(n - 1) + seq![s[n - 1]]);
    } else {
        assert(s.take(n) =~= Seq::<u8>::empty());
    }
}

/// The literal style is the identity when NUL bytes are not elided, whatever
/// the per-byte table and the delimiters.
pub proof fn lemma_literal_identity(
    s: Seq<u8>,
    flags: i32,
    table: [u32; 8],
    left: Seq<u8>,
    right: Seq<u8>,
)
    requires
        !has_flag(flags, ELIDE_NULL_BYTES),
    ensures
        quoted(s, QuotingStyle::Literal, flags, table, left, right) == s,
{
    lemma_literal_body(s, s.len() as int, table, right);
    assert(s.take(s.len() as int) =~= s);
    assert(Seq::<u8>::empty() + s + Seq::<u8>::empty() =~= s);
}

/// The byte that the escape `\x` stands for in a C string literal.
pub open spec fn c_escape_value(x: u8) -> u8 {
    if x == 48u8 {
        0u8
    } else if x == 110u8 {
        10u8
    } else {
        x
    }
}

/// Reads the inside of a C string literal from `t` up to its closing `"`:
/// `\0`, `\n` and `\x` stand for NUL, newline and `x`, and any other byte but
/// `"` for itself. Gives the bytes read and what follows the closing `"`, or
/// `None` when the literal is not closed.
pub open spec fn c_literal_rest(t: Seq<u8>) -> Option<(Seq<u8>, Seq<u8>)>
    decreases t.len(),
{
    if t.len() == 0 {
        None
    } else if t[0] == 34u8 {
        Some((Seq::empty(), t.subrange(1, t.len() as int)))
    } else if t[0] == 92u8 {
        if t.len() < 2 {
            None
        } else {
            match c_literal_rest(t.subrange(2, t.len() as int)) {
                Some((v, rest)) => Some((seq![c_escape_value(t[1])] + v, rest)),
                None => None,
            }
        }
    } else {
        match c_literal_rest(t.subrange(1, t.len() as int)) {
            Some((v, rest)) => Some((seq![t[0]] + v, rest)),
            None => None,
        }
    }
}

/// Parses `q` as exactly one C string literal, giving the bytes it stands for.
pub open spec fn parse_c_literal(q: Seq<u8>) -> Option<Seq<u8>> {
    if q.len() > 0 && q[0] == 34u8 {
        match c_literal_rest(q.subrange(1, q.len() as int)) {
            Some((v, rest)) => if rest.len() == 0 {
                Some(v)
            } else {
                None
            },
            None => None,
        }
    } else {
        None
    }
}

/// `t` is a run of whole C literal tokens: escapes `\x`, and bytes other
/// than `\` and `"`. `d` is what they stand for.
spec fn c_tokens(t: Seq<u8>, d: Seq<u8>) -> bool
    decreases t.len(),
{
    if t.len() == 0 {
        d.len() == 0
    } else if t[0] == 92u8 {
        t.len() >= 2 && d.len() >= 1 && d[0] == c_escape_value(t[1]) && c_tokens(
            t.subrange(2, t.len() as int),
            d.subrange(1, d.len() as int),
        )
    } else {
        t[0] != 34u8 && d.len() >= 1 && d[0] == t[0] && c_tokens(
            t.subrange(1, t.len() as int),
            d.subrange(1, d.len() as int),
        )
    }
}

proof fn lemma_c_tokens_concat(a: Seq<u8>, da: Seq<u8>, b: Seq<u8>, db: Seq<u8>)
    requires
        c_tokens(a, da),
        c_tokens(b, db),
    ensures
        c_tokens(a + b, da + db),
    decreases a.len(),
{
    if a.len() == 0 {
        assert(a + b =~= b);
        assert(da + db =~= db);
    } else {
        let k: int = if a[0] == 92u8 {
            2
        } else {
            1
        };
        lemma_c_tokens_concat(a.subrange(k, a.len() as int), da.subrange(1, da.len() as int), b, db);
        assert((a + b).subrange(k, (a + b).len() as int) =~= a.subrange(k, a.len() as int) + b);
        assert((da + db).subrange(1, (da + db).len() as int) =~= da.subrange(1, da.len() as int)
            + db);
    }
}

proof fn lemma_c_tokens_read(t: Seq<u8>, d: Seq<u8>, tail: Seq<u8>)
    requires
        c_tokens(t, d),
    ensures
        c_literal_rest(t + seq![34u8] + tail) == Some((d, tail)),
    decreases t.len(),
{
    let whole = t + seq![34u8] + tail;
    if t.len() == 0 {
        assert(whole[0] == 34u8);
        assert(whole.subrange(1, whole.len() as int) =~= tail);
        assert(d =~= Seq::<u8>::empty());
    } else {
        let k: int = if t[0] == 92u8 {
            2
        } else {
            1
        };
        let t2 = t.subrange(k, t.len() as int);
        let d2 = d.subrange(1, d.len() as int);
        lemma_c_tokens_read(t2, d2, tail);
        assert(whole.subrange(k, whole.len() as int) =~= t2 + seq![34u8] + tail);
        assert(d =~= seq![d[0]] + d2);
    }
}

proof fn lemma_c_body(s: Seq<u8>, n: int, en: bool, table: [u32; 8], right: Seq<u8>)
    requires
        0 <= n <= s.len(),
        !table_has(table, 48u8),
        !table_has(table, 110u8),
        table_has(table, 92u8) || !s.contains(92u8),
    ensures
        c_tokens(quoted_body(s, n, QuotingStyle::C, en, table, right), s.take(n)),
    decreases n,
{
    if n == 0 {
        assert(s.take(0) =~= Seq::<u8>::empty());
    } else {
        lemma_c_body(s, n - 1, en, table, right);
        let i = n - 1;
        let p = piece(s, i, QuotingStyle::C, en, table, right);
        let c = s[i];
        assert(escapes_close_at(s, i, QuotingStyle::C, right) == (c == 34u8)) by {
            let q = right_delimiter(QuotingStyle::C, right);
            if c == 34u8 {
                assert(s.subrange(i, i + 1) =~= q);
            } else {
                assert(s.subrange(i, i + 1)[0] == c);
            }
        }
        if c == 92u8 {
            assert(s.contains(92u8));
        }
        assert(c_tokens(p, seq![c])) by {
            reveal_with_fuel(c_tokens, 3);
            let rest = p.subrange(2, p.len() as int);
            let drest = seq![c].subrange(1, 1);
            if p.len() == 2 {
                assert(rest =~= Seq::<u8>::empty());
                assert(drest =~= Seq::<u8>::empty());
            } else {
                assert(p.subrange(1, 1) =~= Seq::<u8>::empty());
                assert(drest =~= Seq::<u8>::empty());
            }
        }
        lemma_c_tokens_concat(
            quoted_body(s, n - 1, QuotingStyle::C, en, table, right),
            s.take(n - 1),
            p,
            seq![c],
        );
        assert(s.take(n - 1) + seq![c] =~= s.take(n));
    }
}

/// C quoting is undone by reading the output as a C string literal, when the
/// table marks neither `0` nor `n` (whose escapes stand for NUL and newline)
/// and marks `\` wherever the input holds one.
pub proof fn lemma_c_round_trip(
    s: Seq<u8>,
    flags: i32,
    table: [u32; 8],
    left: Seq<u8>,
    right: Seq<u8>,
)
    requires
        !has_flag(flags, ELIDE_OUTER_QUOTES),
        !table_has(table, 48u8),
        !table_has(table, 110u8),
        table_has(table, 92u8) || !s.contains(92u8),
    ensures
        parse_c_literal(quoted(s, QuotingStyle::C, flags, table, left, right)) == Some(s),
{
    let en = has_flag(flags, ELIDE_NULL_BYTES);
    let body = quoted_body(s, s.len() as int, QuotingStyle::C, en, table, right);
    lemma_c_body(s, s.len() as int, en, table, right);
    assert(s.take(s.len() as int) =~= s);
    lemma_c_tokens_read(body, s, Seq::empty());
    let q = quoted(s, QuotingStyle::C, flags, table, left, right);
    assert(q =~= seq![34u8] + body + seq![34u8]);
    assert(q.subrange(1, q.len() as int) =~= body + seq![34u8] + Seq::<u8>::empty());
}

/// `t` splits into bytes other than `'` and whole occurrences of `'\''`.
pub open spec fn shell_tokens(t: Seq<u8>) -> bool
    decreases t.len(),
{
    if t.len() == 0 {
        true
    } else if t[0] == 39u8 {
        t.len() >= 4 && t.subrange(0, 4) == seq![39u8, 92u8, 39u8, 39u8] && shell_tokens(
            t.subrange(4, t.len() as int),
        )
    } else {
        shell_tokens(t.subrange(1, t.len() as int))
    }
}

proof fn lemma_shell_tokens_concat(a: Seq<u8>, b: Seq<u8>)
    requires
        shell_tokens(a),
        shell_tokens(b),
    ensures
        shell_tokens(a + b),
    decreases a.len(),
{
    if a.len() == 0 {
        assert(a + b =~= b);
    } else {
        let k: int = if a[0] == 39u8 {
            4
        } else {
            1
        };
        lemma_shell_tokens_concat(a.subrange(k, a.len() as int), b);
        assert((a + b).subrange(k, (a + b).len() as int) =~= a.subrange(k, a.len() as int) + b);
        if k == 4 {
            assert((a + b).subrange(0, 4) =~= a.subrange(0, 4));
        }
    }
}

proof fn lemma_shell_body(s: Seq<u8>, n: int, en: bool, table: [u32; 8], right: Seq<u8>)
    requires
        0 <= n <= s.len(),
    ensures
        shell_tokens(quoted_body(s, n, QuotingStyle::ShellAlways, en, table, right)),
    decreases n,
{
    if n > 0 {
        lemma_shell_body(s, n - 1, en, table, right);
        let p = piece(s, n - 1, QuotingStyle::ShellAlways, en, table, right);
        assert(shell_tokens(p)) by {
            reveal_with_fuel(shell_tokens, 2);
            if p.len() == 4 {
                assert(p.subrange(0, 4) =~= p);
                assert(p.subrange(4, 4) =~= Seq::<u8>::empty());
            } else if p.len() == 1 {
                assert(p.subrange(1, 1) =~= Seq::<u8>::empty());
            }
        }
        lemma_shell_tokens_concat(quoted_body(s, n - 1, QuotingStyle::ShellAlways, en, table, right), p);
    }
}

/// Between the opening and closing `'` of the `ShellAlways` style, every `'`
/// stands inside an occurrence of `'\''`.
pub proof fn lemma_shell_always_quotes(
    s: Seq<u8>,
    flags: i32,
    table: [u32; 8],
    left: Seq<u8>,
    right: Seq<u8>,
)
    requires
        !has_flag(flags, ELIDE_OUTER_QUOTES),
    ensures
        ({
            let q = quoted(s, QuotingStyle::ShellAlways, flags, table, left, right);
            &&& q.len() >= 2
            &&& q[0] == 39u8
            &&& q[q.len() - 1] == 39u8
            &&& shell_tokens(q.subrange(1, q.len() - 1))
        }),
{
    let en = has_flag(flags, ELIDE_NULL_BYTES);
    let body = quoted_body(s, s.len() as int, QuotingStyle::ShellAlways, en, table, right);
    lemma_shell_body(s, s.len() as int, en, table, right);
    let q = quoted(s, QuotingStyle::ShellAlways, flags, table, left, right);
    assert(q =~= seq![39u8] + body + seq![39u8]);
    assert(q.subrange(1, q.len() - 1) =~= body);
}

/// Reads the inside of `ShellAlways` output back: each `'\''` stands for
/// one `'`, and every other byte for itself.
pub open spec fn shell_unquote(t: Seq<u8>) -> Seq<u8>
    decreases t.len(),
{
    if t.len() == 0 {
        Seq::empty()
    } else if t.len() >= 4 && t.subrange(0, 4) == seq![39u8, 92u8, 39u8, 39u8] {
        seq![39u8] + shell_unquote(t.subrange(4, t.len() as int))
    } else {
        seq![t[0]] + shell_unquote(t.subrange(1, t.len() as int))
    }
}

proof fn lemma_shell_unquote_concat(a: Seq<u8>, b: Seq<u8>)
    requires
        shell_tokens(a),
    ensures
        shell_unquote(a + b) == shell_unquote(a) + shell_unquote(b),
    decreases a.len(),
{
    if a.len() == 0 {
        assert(a + b =~= b);
        assert(shell_unquote(a) + shell_unquote(b) =~= shell_unquote(b));
    } else {
        let k: int = if a[0] == 39u8 {
            4
        } else {
            1
        };
        lemma_shell_unquote_concat(a.subrange(k, a.len() as int), b);
        assert((a + b).subrange(k, (a + b).len() as int) =~= a.subrange(k, a.len() as int) + b);
        if k == 4 {
            assert((a + b).subrange(0, 4) =~= a.subrange(0, 4));
        } else {
            assert((a + b)[0] == a[0]);
            if (a + b).len() >= 4 {
                assert((a + b).subrange(0, 4)[0] == a[0]);
            }
        }
        assert(shell_unquote(a + b) =~= shell_unquote(a) + shell_unquote(b));
    }
}

proof fn lemma_shell_unquote_body(s: Seq<u8>, n: int, table: [u32; 8], right: Seq<u8>)
    requires
        0 <= n <= s.len(),
    ensures
        shell_unquote(quoted_body(s, n, QuotingStyle::ShellAlways, false, table, right)) == s.take(n),
    decreases n,
{
    if n == 0 {
        assert(s.take(0) =~= Seq::<u8>::empty());
    } else {
        lemma_shell_unquote_body(s, n - 1, table, right);
        let prev = quoted_body(s, n - 1, QuotingStyle::ShellAlways, false, table, right);
        let p = piece(s, n - 1, QuotingStyle::ShellAlways, false, table, right);
        lemma_shell_body(s, n - 1, false, table, right);
        lemma_shell_unquote_concat(prev, p);
        assert(shell_unquote(p) == seq![s[n - 1]]) by {
            reveal_with_fuel(shell_unquote, 2);
            if p.len() == 4 {
                assert(p.subrange(0, 4) =~= p);
                assert(p.subrange(4, 4) =~= Seq::<u8>::empty());
            } else {
                assert(p.subrange(1, 1) =~= Seq::<u8>::empty());
            }
        }
        assert(s.take(n - 1) + seq![s[n - 1]] =~= s.take(n));
    }
}

/// Reading the inside of `ShellAlways` output back, with each `'\''` taken
/// as one `'`, gives the input, when NUL bytes are not elided.
pub proof fn lemma_shell_always_round_trip(
    s: Seq<u8>,
    flags: i32,
    table: [u32; 8],
    left: Seq<u8>,
    right: Seq<u8>,
)
    requires
        !has_flag(flags, ELIDE_OUTER_QUOTES),
        !has_flag(flags, ELIDE_NULL_BYTES),
    ensures
        ({
            let q = quoted(s, QuotingStyle::ShellAlways, flags, table, left, right);
            &&& q.len() >= 2
            &&& shell_unquote(q.subrange(1, q.len() - 1)) == s
        }),
{
    let body = quoted_body(s, s.len() as int, QuotingStyle::ShellAlways, false, table, right);
    lemma_shell_unquote_body(s, s.len() as int, table, right);
    assert(s.take(s.len() as int) =~= s);
    let q = quoted(s, QuotingStyle::ShellAlways, flags, table, left, right);
    assert(q =~= seq![39u8] + body + seq![39u8]);
    assert(q.subrange(1, q.len() - 1) =~= body);
}

/// The quoted form of the input under the options `o`, computed by sizing
/// the output first and then filling a buffer of exactly that size.
pub fn quotearg_alloc(arg: &[u8], argsize: usize, o: &QuotingOptions) -> (r: Vec<u8>)
    requires
        argsize == usize::MAX || argsize <= arg@.len(),
        4 * arg@.len() + delimiter_of(o@.left_quote).len() + delimiter_of(o@.right_quote).len() + 2
            <= usize::MAX,
        !unsupported_elision(
            effective_input(arg@, argsize),
            o@.style,
            o@.flags,
            delimiter_of(o@.right_quote),
        ),
        o@.style == QuotingStyle::Custom ==> delimiter_of(o@.left_quote).len() > 0
            && delimiter_of(o@.right_quote).len() > 0,
    ensures
        r@ == quoted(
            effective_input(arg@, argsize),
            o@.style,
            o@.flags,
            o@.table,
            delimiter_of(o@.left_quote),
            delimiter_of(o@.right_quote),
        ),
{
    let mut buf: Vec<u8> = Vec::new();
    let n = quotearg_buffer(&mut buf, 0, arg, argsize, o);
    let _ = quotearg_buffer(&mut buf, n, arg, argsize, o);
    proof {
        let s = effective_input(arg@, argsize);
        if argsize != usize::MAX {
            assert(s.len() <= arg@.len());
        }
        lemma_two_pass_sizing(
            s,
            o@.style,
            o@.flags,
            o@.table,
            delimiter_of(o@.left_quote),
            delimiter_of(o@.right_quote),
            Seq::empty(),
        );
    }
    buf
}

impl QuotingOptions {
    /// The flags of these options.
    pub fn flags(&self) -> (r: i32)
        ensures
            r == self@.flags,
    {
        self.flags
    }

    /// The opening delimiter of the custom style.
    pub fn left_quote(&self) -> (r: &str)
        ensures
            r@ == self@.left_quote,
    {
        self.left_quote.as_str()
    }

    /// The closing delimiter of the custom style.
    pub fn right_quote(&self) -> (r: &str)
        ensures
            r@ == self@.right_quote,
    {
        self.right_quote.as_str()
    }
}

} // verus!
