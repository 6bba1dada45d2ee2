//! Bounds-checked little-endian reads shared by the ZIP and DEX parsers.
//!
//! Every helper returns `None` instead of panicking when the read would run past
//! the end of the buffer; callers map that to the error their format dictates.
use vstd::prelude::*;

verus! {

/// The little-endian `u16` stored at `off`.
pub open spec fn le_u16(s: Seq<u8>, off: int) -> u16 {
    (s[off] + 256 * s[off + 1]) as u16
}

/// The little-endian `u32` stored at `off`.
pub open spec fn le_u32(s: Seq<u8>, off: int) -> u32 {
    (s[off] + 256 * s[off + 1] + 65536 * s[off + 2] + 16777216 * s[off + 3]) as u32
}

/// `n` bytes starting at `off` lie inside `s`.
pub open spec fn fits(s: Seq<u8>, off: int, n: int) -> bool {
    0 <= off && 0 <= n && off + n <= s.len()
}

/// The `len` bytes starting at `off`.
pub(crate) fn record(buf: &[u8], off: usize, len: usize) -> (r: Option<&[u8]>)
    ensures
        r is Some <==> fits(buf@, off as int, len as int),
        r matches Some(x) ==> x@ == buf@.subrange(off as int, off + len),
{
    if off <= buf.len() && len <= buf.len() - off {
        Some(&buf[off..off + len])
    } else {
        None
    }
}

/// Little-endian `u16` at `off`.
pub(crate) fn u16_at(buf: &[u8], off: usize) -> (r: Option<u16>)
    ensures
        r is Some <==> fits(buf@, off as int, 2),
        r matches Some(v) ==> v == le_u16(buf@, off as int),
{
    if off <= buf.len() && 2 <= buf.len() - off {
        Some(buf[off] as u16 + 256 * buf[off + 1] as u16)
    } else {
        None
    }
}

/// Little-endian `u32` at `off`.
pub(crate) fn u32_at(buf: &[u8], off: usize) -> (r: Option<u32>)
    ensures
        r is Some <==> fits(buf@, off as int, 4),
        r matches Some(v) ==> v == le_u32(buf@, off as int),
{
    if off <= buf.len() && 4 <= buf.len() - off {
        Some(
            buf[off] as u32 + 256 * buf[off + 1] as u32 + 65536 * buf[off + 2] as u32
                + 16777216 * buf[off + 3] as u32,
        )
    } else {
        None
    }
}

/// Index of the first NUL byte of `s` at or after `from`, if there is one.
pub open spec fn first_nul(s: Seq<u8>, from: int) -> Option<int>
    decreases s.len() - from,
{
    if from < 0 || from >= s.len() {
        None
    } else if s[from] == 0 {
        Some(from)
    } else {
        first_nul(s, from + 1)
    }
}

pub proof fn lemma_first_nul(s: Seq<u8>, from: int)
    requires
        0 <= from,
    ensures
        first_nul(s, from) matches Some(p) ==> from <= p < s.len() && s[p] == 0 && forall|
            j: int,
        |
            from <= j < p ==> s[j] != 0,
        first_nul(s, from) is None ==> forall|j: int| from <= j < s.len() ==> s[j] != 0,
    decreases s.len() - from,
{
    if from < s.len() && s[from] != 0 {
        lemma_first_nul(s, from + 1);
    }
}

/// Position of the first NUL byte in `buf` at or after `from`.
pub(crate) fn find_nul(buf: &[u8], from: usize) -> (r: Option<usize>)
    ensures
        r matches Some(p) ==> first_nul(buf@, from as int) == Some(p as int),
        r is None ==> first_nul(buf@, from as int) is None,
{
    let mut i: usize = from;
    proof {
        lemma_first_nul(buf@, from as int);
    }
    while i < buf.len()
        invariant
            from <= i,
            forall|j: int| from <= j < i ==> buf@[j] != 0,
            first_nul(buf@, from as int) == first_nul(buf@, i as int),
        decreases buf.len() - i,
    {
        if buf[i] == 0 {
            return Some(i);
        }
        i += 1;
    }
    None
}

/// The bytes before the first NUL, or `None` if `buf` has no NUL.
pub(crate) fn until_nul(buf: &[u8]) -> (r: Option<&[u8]>)
    ensures
        r is Some <==> first_nul(buf@, 0) is Some,
        r matches Some(x) ==> x@ == buf@.subrange(0, first_nul(buf@, 0)->0),
{
    proof {
        lemma_first_nul(buf@, 0);
    }
    match find_nul(buf, 0) {
        Some(p) => Some(vstd::slice::slice_subrange(buf, 0, p)),
        None => None,
    }
}

/// Lexicographic order of byte strings: -1, 0 or 1 as `a` sorts before,
/// with or after `b`.
pub open spec fn lex_order(a: Seq<u8>, b: Seq<u8>) -> int
    decreases a.len(),
{
    if a.len() == 0 {
        if b.len() == 0 {
            0
        } else {
            -1
        }
    } else if b.len() == 0 {
        1
    } else if a[0] < b[0] {
        -1
    } else if a[0] > b[0] {
        1
    } else {
        lex_order(a.drop_first(), b.drop_first())
    }
}

/// Lexicographic order of two byte strings.
pub(crate) fn lex_compare(a: &[u8], b: &[u8]) -> (r: i8)
    ensures
        r == lex_order(a@, b@),
{
    let mut i: usize = 0;
    assert(a@.subrange(0, a@.len() as int) =~= a@);
    assert(b@.subrange(0, b@.len() as int) =~= b@);
    loop
        invariant
            i <= a@.len(),
            i <= b@.len(),
            lex_order(a@, b@) == lex_order(
                a@.subrange(i as int, a@.len() as int),
                b@.subrange(i as int, b@.len() as int),
            ),
        decreases a@.len() - i,
    {
        let ghost ra = a@.subrange(i as int, a@.len() as int);
        let ghost rb = b@.subrange(i as int, b@.len() as int);
        if i == a.len() {
            if i == b.len() {
                return 0;
            }
            return -1;
        }
        if i == b.len() {
            return 1;
        }
        if a[i] < b[i] {
            return -1;
        }
        if a[i] > b[i] {
            return 1;
        }
        proof {
            assert(ra.drop_first() =~= a@.subrange(i + 1, a@.len() as int));
            assert(rb.drop_first() =~= b@.subrange(i + 1, b@.len() as int));
        }
        i += 1;
    }
}

/// `a` and `b` are equal exactly when they are in order 0.
pub proof fn lemma_lex_order_zero(a: Seq<u8>, b: Seq<u8>)
    ensures
        lex_order(a, b) == 0 <==> a == b,
    decreases a.len(),
{
    if a.len() == 0 {
        if b.len() == 0 {
            assert(a =~= b);
        }
    } else if b.len() == 0 {
    } else if a[0] != b[0] {
        if a == b {
            assert(a[0] == b[0]);
        }
    } else {
        lemma_lex_order_zero(a.drop_first(), b.drop_first());
        if a.drop_first() == b.drop_first() {
            assert(a =~= seq![a[0]] + a.drop_first());
            assert(b =~= seq![b[0]] + b.drop_first());
        }
        if a == b {
            assert(a.drop_first() =~= b.drop_first());
        }
    }
}

/// Swapping the operands negates the order.
pub proof fn lemma_lex_order_antisym(a: Seq<u8>, b: Seq<u8>)
    ensures
        lex_order(a, b) == -lex_order(b, a),
    decreases a.len(),
{
    if a.len() > 0 && b.len() > 0 && a[0] == b[0] {
        lemma_lex_order_antisym(a.drop_first(), b.drop_first());
    }
}

/// The order is transitive, and strictly so when either step is strict.
pub proof fn lemma_lex_order_trans(a: Seq<u8>, b: Seq<u8>, c: Seq<u8>)
    requires
        lex_order(a, b) <= 0,
        lex_order(b, c) <= 0,
    ensures
        lex_order(a, c) <= 0,
        lex_order(a, b) < 0 || lex_order(b, c) < 0 ==> lex_order(a, c) < 0,
    decreases a.len(),
{
    if a.len() > 0 && b.len() > 0 && c.len() > 0 && a[0] == b[0] && b[0] == c[0] {
        lemma_lex_order_trans(a.drop_first(), b.drop_first(), c.drop_first());
    }
}

} // verus!
