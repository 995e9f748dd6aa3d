//! Allocation of zero-filled byte buffers, with the growth rules of the
//! array-growing helpers. Sizes that would not fit are excluded by the
//! contracts: the caller stops the program before asking for them.
use vstd::prelude::*;
use vstd::utf8::{decode_utf8, valid_utf8};

verus! {

/// `n` zero bytes.
pub open spec fn zeros(n: int) -> Seq<u8> {
    Seq::new(n as nat, |i: int| 0u8)
}

/// `v` cut or padded with zero bytes to length `n`.
pub open spec fn resized(v: Seq<u8>, n: int) -> Seq<u8> {
    if n <= v.len() {
        v.take(n)
    } else {
        v + zeros(n - v.len())
    }
}

/// A small allocation size, in bytes, below which growth is rounded up.
pub open spec fn mxfast() -> int {
    2 * usize::BITS
}

fn mxfast_exec() -> (r: usize)
    ensures
        r == mxfast(),
{
    2 * (usize::BITS as usize)
}

fn resize_zero(mut v: Vec<u8>, n: usize) -> (r: Vec<u8>)
    ensures
        r@ == resized(v@, n as int),
{
    let ghost old_v = v@;
    if n <= v.len() {
        v.truncate(n);
        return v;
    }
    while v.len() < n
        invariant
            old_v.len() <= v@.len() <= n,
            v@ == old_v + zeros(v@.len() - old_v.len()),
        decreases n - v@.len(),
    {
        v.push(0u8);
        assert(v@ =~= old_v + zeros(v@.len() - old_v.len()));
    }
    v
}

/// `size` zero bytes.
pub fn xmalloc(size: usize) -> (r: Vec<u8>)
    ensures
        r@ == zeros(size as int),
{
    let r = resize_zero(Vec::new(), size);
    assert(r@ =~= zeros(size as int));
    r
}

/// `size` zero bytes, for a size that is not negative.
pub fn ximalloc(size: isize) -> (r: Vec<u8>)
    requires
        size >= 0,
    ensures
        r@ == zeros(size as int),
{
    xmalloc(size as usize)
}

/// `n` NUL characters.
pub fn xcharalloc(n: usize) -> (r: Vec<char>)
    ensures
        r@ == Seq::new(n as nat, |i: int| '\0'),
{
    let mut r: Vec<char> = Vec::new();
    while r.len() < n
        invariant
            r@.len() <= n,
            r@ == Seq::new(r@.len(), |i: int| '\0'),
        decreases n - r@.len(),
    {
        r.push('\0');
        assert(r@ =~= Seq::new(r@.len(), |i: int| '\0'));
    }
    r
}

/// `vec` cut or padded with zero bytes to `new_size` bytes.
pub fn xrealloc(vec: Vec<u8>, new_size: usize) -> (r: Vec<u8>)
    ensures
        r@ == resized(vec@, new_size as int),
{
    resize_zero(vec, new_size)
}

/// `vec` cut or padded with zero bytes to `new_size` bytes, for a size that is
/// not negative.
pub fn xirealloc(vec: Vec<u8>, new_size: isize) -> (r: Vec<u8>)
    requires
        new_size >= 0,
    ensures
        r@ == resized(vec@, new_size as int),
{
    xrealloc(vec, new_size as usize)
}

/// `vec` resized to `n` items of `s` bytes; empty when either is zero.
pub fn xreallocarray(vec: Vec<u8>, n: usize, s: usize) -> (r: Vec<u8>)
    requires
        n * s <= usize::MAX,
    ensures
        r@ == resized(vec@, n * s),
{
    if n == 0 || s == 0 {
        assert(n * s == 0) by (nonlinear_arith)
            requires
                n == 0 || s == 0,
        ;
        return resize_zero(vec, 0);
    }
    resize_zero(vec, n * s)
}

/// `vec` resized to `n` items of `s` bytes, for counts that are not negative.
pub fn xireallocarray(vec: Vec<u8>, n: isize, s: isize) -> (r: Vec<u8>)
    requires
        n >= 0,
        s >= 0,
        n * s <= usize::MAX,
    ensures
        r@ == resized(vec@, n * s),
{
    xreallocarray(vec, n as usize, s as usize)
}

/// `n` items of `s` zero bytes.
pub fn xnmalloc(n: usize, s: usize) -> (r: Vec<u8>)
    requires
        n * s <= usize::MAX,
    ensures
        r@ == zeros(n * s),
{
    let r = xreallocarray(Vec::new(), n, s);
    assert(r@ =~= zeros(n * s));
    r
}

/// `n` items of `s` zero bytes, for counts that are not negative.
pub fn xinmalloc(n: isize, s: isize) -> (r: Vec<u8>)
    requires
        n >= 0,
        s >= 0,
        n * s <= usize::MAX,
    ensures
        r@ == zeros(n * s),
{
    xnmalloc(n as usize, s as usize)
}

/// The item count after a doubling-style growth step of an array of `n`
/// items of `s` bytes: an empty array with no count gets a small default, an
/// empty array with a count gets that count, and a non-empty one grows by
/// half plus one (saturating).
pub open spec fn x2n_count(empty: bool, n: int, s: int) -> int {
    if empty {
        if n == 0 {
            if mxfast() / s > 1 {
                mxfast() / s
            } else {
                1
            }
        } else {
            n
        }
    } else if n + n / 2 + 1 > usize::MAX {
        usize::MAX as int
    } else {
        n + n / 2 + 1
    }
}

/// Grows `vec`, an array of `*pn` items of `s` bytes, and updates `*pn`.
pub fn x2nrealloc(vec: Vec<u8>, pn: &mut usize, s: usize) -> (r: Vec<u8>)
    requires
        s > 0,
        x2n_count(vec@.len() == 0, *old(pn) as int, s as int) * s <= usize::MAX,
    ensures
        *final(pn) == x2n_count(vec@.len() == 0, *old(pn) as int, s as int),
        r@ == resized(vec@, *final(pn) * s),
{
    let mut n = *pn;
    if vec.len() == 0 {
        if n == 0 {
            let q = mxfast_exec() / s;
            n = if q > 1 {
                q
            } else {
                1
            };
        }
    } else {
        assert(n >> 1 == n / 2) by (bit_vector);
        n = n.saturating_add((n >> 1) + 1);
    }
    assert(n == x2n_count(vec@.len() == 0, *old(pn) as int, s as int));
    let r = resize_zero(vec, n * s);
    *pn = n;
    r
}

/// Grows `vec`, an array of `*ps` bytes, and updates `*ps`.
pub fn x2realloc(vec: Vec<u8>, ps: &mut usize) -> (r: Vec<u8>)
    requires
        x2n_count(vec@.len() == 0, *old(ps) as int, 1) <= usize::MAX,
    ensures
        *final(ps) == x2n_count(vec@.len() == 0, *old(ps) as int, 1),
        r@ == resized(vec@, *final(ps) as int),
{
    x2nrealloc(vec, ps, 1)
}

/// `size` zero bytes.
pub fn xzalloc(size: usize) -> (r: Vec<u8>)
    ensures
        r@ == zeros(size as int),
{
    xcalloc(size, 1)
}

/// `size` zero bytes, for a size that is not negative.
pub fn xizalloc(size: isize) -> (r: Vec<u8>)
    requires
        size >= 0,
    ensures
        r@ == zeros(size as int),
{
    xzalloc(size as usize)
}

/// `n` items of `s` zero bytes.
pub fn xcalloc(n: usize, s: usize) -> (r: Vec<u8>)
    requires
        n * s <= usize::MAX,
    ensures
        r@ == zeros(n * s),
{
    xnmalloc(n, s)
}

/// `n` items of `s` zero bytes, for counts that are not negative.
pub fn xicalloc(n: isize, s: isize) -> (r: Vec<u8>)
    requires
        n >= 0,
        s >= 0,
        n * s <= usize::MAX,
    ensures
        r@ == zeros(n * s),
{
    xcalloc(n as usize, s as usize)
}

/// A copy of `p`.
pub fn xmemdup(p: &[u8]) -> (r: Vec<u8>)
    ensures
        r@ == p@,
{
    vstd::slice::slice_to_vec(p)
}

/// A copy of `p`.
pub fn ximemdup(p: &[u8]) -> (r: Vec<u8>)
    ensures
        r@ == p@,
{
    xmemdup(p)
}

/// A copy of `s`.
pub fn xstrdup(s: &str) -> (r: String)
    ensures
        r@ == s@,
{
    s.to_owned()
}

/// `v` held to the range of `isize`.
pub open spec fn sat_isize(v: int) -> int {
    if v > isize::MAX {
        isize::MAX as int
    } else if v < isize::MIN {
        isize::MIN as int
    } else {
        v
    }
}

fn sat_add(a: isize, b: isize) -> (r: isize)
    ensures
        r == sat_isize(a + b),
{
    if b > 0 && a > isize::MAX - b {
        isize::MAX
    } else if b < 0 && a < isize::MIN - b {
        isize::MIN
    } else {
        a + b
    }
}

fn sat_sub(a: isize, b: isize) -> (r: isize)
    ensures
        r == sat_isize(a - b),
{
    if b < 0 && a > isize::MAX + b {
        isize::MAX
    } else if b > 0 && a < isize::MIN + b {
        isize::MIN
    } else {
        a - b
    }
}

/// Whether `v` fits in `isize`.
pub open spec fn fits_isize(v: int) -> bool {
    isize::MIN <= v <= isize::MAX
}

/// The item count that `xpalloc` grows a non-empty array of `n0` items of `s`
/// bytes to: half as many again (at most `n_max` when that is not negative),
/// raised to the small default size in bytes, or lowered to the largest
/// size when the bytes would not fit.
pub open spec fn xpalloc_grown(n0: int, n_max: int, s: int) -> int {
    let n1 = sat_isize(n0 + n0 / 2);
    let n2 = if n_max >= 0 && n_max < n1 {
        n_max
    } else {
        n1
    };
    let adjusted = if fits_isize(n2 * s) {
        if n2 * s < mxfast() {
            mxfast()
        } else {
            0
        }
    } else {
        isize::MAX as int
    };
    if adjusted != 0 {
        adjusted / s
    } else {
        n2
    }
}

/// Whether the `n_incr_min` more items that are asked for cannot be had:
/// the growth falls short of them, and `n0 + n_incr_min` overflows, exceeds
/// `n_max` (when that is not negative) or takes more bytes than `isize` holds.
pub open spec fn xpalloc_exhausted(n0: int, n_incr_min: int, n_max: int, s: int) -> bool {
    let n = xpalloc_grown(n0, n_max, s);
    let want = n0 + n_incr_min;
    sat_isize(n - n0) < n_incr_min && (!fits_isize(want) || (n_max >= 0 && n_max < want)
        || !fits_isize(want * s))
}

/// The item count after `xpalloc`: the growth, raised to `n0 + n_incr_min`
/// when it falls short of that.
pub open spec fn xpalloc_count(n0: int, n_incr_min: int, n_max: int, s: int) -> int {
    let n = xpalloc_grown(n0, n_max, s);
    if sat_isize(n - n0) < n_incr_min {
        n0 + n_incr_min
    } else {
        n
    }
}

proof fn lemma_grown_fits(n0: int, n_max: int, s: int)
    requires
        0 <= n0 <= isize::MAX,
        s > 0,
    ensures
        0 <= xpalloc_grown(n0, n_max, s),
        xpalloc_grown(n0, n_max, s) * s <= isize::MAX,
{
    let n1 = sat_isize(n0 + n0 / 2);
    let n2 = if n_max >= 0 && n_max < n1 {
        n_max
    } else {
        n1
    };
    assert(n2 >= 0);
    assert(n2 * s >= 0) by (nonlinear_arith)
        requires
            n2 >= 0,
            s > 0,
    ;
    let adjusted = if fits_isize(n2 * s) {
        if n2 * s < mxfast() {
            mxfast()
        } else {
            0
        }
    } else {
        isize::MAX as int
    };
    if adjusted != 0 {
        assert((adjusted / s) * s <= adjusted && adjusted / s >= 0) by (nonlinear_arith)
            requires
                adjusted > 0,
                s > 0,
        ;
        assert(adjusted <= isize::MAX);
    }
}

/// Grows `vec`, an array of `*pn` items of `s` bytes, and updates `*pn`: by
/// half as many again, within `n_max` items when `n_max` is not negative,
/// rounded up to a small default size in bytes, and by at least `n_incr_min`
/// items. The caller stops the program instead of asking for more than fits.
pub fn xpalloc(vec: Vec<u8>, pn: &mut isize, n_incr_min: isize, n_max: isize, s: isize) -> (r: Vec<
    u8,
>)
    requires
        s > 0,
        *old(pn) >= 0,
        !xpalloc_exhausted(*old(pn) as int, n_incr_min as int, n_max as int, s as int),
    ensures
        *final(pn) == xpalloc_count(*old(pn) as int, n_incr_min as int, n_max as int, s as int),
        *final(pn) >= *old(pn) + n_incr_min,
        r@ == resized(vec@, *final(pn) * s),
{
    let n0 = *pn;
    let mut n = sat_add(n0, n0 >> 1);
    assert(n0 >> 1 == n0 / 2) by (bit_vector)
        requires
            n0 >= 0,
    ;
    if n_max >= 0 && n_max < n {
        n = n_max;
    }
    let adjusted: isize = match n.checked_mul(s) {
        Some(nbytes) => if nbytes < mxfast_exec() as isize {
            mxfast_exec() as isize
        } else {
            0
        },
        None => isize::MAX,
    };
    if adjusted != 0 {
        n = adjusted / s;
    }
    proof {
        lemma_grown_fits(n0 as int, n_max as int, s as int);
    }
    assert(n == xpalloc_grown(n0 as int, n_max as int, s as int));
    if sat_sub(n, n0) < n_incr_min {
        n = n0 + n_incr_min;
        assert(n * s >= 0) by (nonlinear_arith)
            requires
                n >= 0,
                s > 0,
        ;
    }
    let r = resize_zero(vec, (n * s) as usize);
    *pn = n;
    r
}

/// Relies on `String::from_utf8`: `Some` exactly for valid UTF-8, holding the
/// characters it encodes.
#[verifier::external_body]
fn string_from_utf8(v: Vec<u8>) -> (r: Option<String>)
    ensures
        r is Some <==> valid_utf8(v@),
        r is Some ==> r->Some_0@ == decode_utf8(v@),
{
    String::from_utf8(v).ok()
}

/// The bytes of `p` with a NUL put in at position `s`.
pub open spec fn with_nul_at(p: Seq<u8>, s: int) -> Seq<u8> {
    p.take(s) + seq![0u8] + p.skip(s)
}

/// The text of `p` with a NUL put in at position `s`; the result must be
/// valid UTF-8.
pub fn ximemdup0(p: &[u8], s: i32) -> (r: String)
    requires
        0 <= s <= p@.len(),
        valid_utf8(with_nul_at(p@, s as int)),
    ensures
        r@ == decode_utf8(with_nul_at(p@, s as int)),
{
    let k = s as usize;
    let mut v: Vec<u8> = Vec::new();
    let mut i: usize = 0;
    while i < p.len()
        invariant
            k <= p@.len(),
            i <= p@.len(),
            v@ == if i <= k {
                p@.take(i as int)
            } else {
                p@.take(k as int) + seq![0u8] + p@.subrange(k as int, i as int)
            },
        decreases p@.len() - i,
    {
        if i == k {
            v.push(0u8);
        }
        v.push(p[i]);
        i = i + 1;
        assert(v@ =~= if i <= k {
            p@.take(i as int)
        } else {
            p@.take(k as int) + seq![0u8] + p@.subrange(k as int, i as int)
        });
    }
    if k == p.len() {
        v.push(0u8);
    }
    assert(v@ =~= with_nul_at(p@, s as int));
    match string_from_utf8(v) {
        Some(text) => text,
        None => String::new(),
    }
}

} // verus!
