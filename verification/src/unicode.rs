//! UTF-8 scanning shared by the ZIP name decoder and the Modified UTF-8 fallback:
//! well-formed sequences follow vstd's definition of a UTF-8 scalar, and
//! ill-formed input is split into maximal subparts as the Unicode standard
//! (chapter 3, table 3-7) lays them out.
use crate::text::lemma_ascii_utf8;
use vstd::prelude::*;
use vstd::utf8::*;

verus! {

/// Number of bytes a well-formed sequence starting with `b0` has, or 0 when no
/// well-formed sequence starts with it.
pub open spec fn lead_width(b0: u8) -> nat {
    if b0 <= 0x7f {
        1
    } else if 0xc2 <= b0 <= 0xdf {
        2
    } else if 0xe0 <= b0 <= 0xef {
        3
    } else if 0xf0 <= b0 <= 0xf4 {
        4
    } else {
        0
    }
}

/// The range that the second byte of a well-formed sequence led by `b0` lies in.
pub open spec fn second_byte_ok(b0: u8, b1: u8) -> bool {
    if b0 == 0xe0 {
        0xa0 <= b1 <= 0xbf
    } else if b0 == 0xed {
        0x80 <= b1 <= 0x9f
    } else if b0 == 0xf0 {
        0x90 <= b1 <= 0xbf
    } else if b0 == 0xf4 {
        0x80 <= b1 <= 0x8f
    } else {
        0x80 <= b1 <= 0xbf
    }
}

/// Length of the maximal subpart at the start of `s`: the longest prefix that
/// could begin a well-formed sequence, and at least one byte.
pub open spec fn maximal_subpart_len(s: Seq<u8>) -> nat {
    let w = lead_width(s[0]);
    if w < 2 || s.len() < 2 || !second_byte_ok(s[0], s[1]) {
        1
    } else if w == 2 || s.len() < 3 || !is_continuation_byte(s[2]) {
        2
    } else if w == 3 || s.len() < 4 || !is_continuation_byte(s[3]) {
        3
    } else {
        4
    }
}

/// The UTF-16 code units of the scalar `c`.
pub open spec fn utf16_of_scalar(c: u32) -> Seq<u16> {
    if c < 0x10000 {
        seq![c as u16]
    } else {
        seq![
            (0xd800 + (c - 0x10000) / 1024) as u16,
            (0xdc00 + (c - 0x10000) % 1024) as u16,
        ]
    }
}

pub proof fn lemma_first_scalar_len(s: Seq<u8>)
    requires
        valid_first_scalar(s),
    ensures
        1 <= length_of_first_scalar(s) <= s.len(),
        pop_first_scalar(s).len() < s.len(),
{
}

pub proof fn lemma_maximal_subpart_len(s: Seq<u8>)
    requires
        s.len() > 0,
    ensures
        1 <= maximal_subpart_len(s) <= s.len(),
{
}

/// UTF-8 decoded with each maximal subpart of ill-formed input replaced by
/// U+FFFD, as UTF-16 code units.
pub open spec fn utf8_lossy_units(s: Seq<u8>) -> Seq<u16>
    decreases s.len(),
{
    if s.len() == 0 {
        seq![]
    } else if valid_first_scalar(s) {
        proof {
            lemma_first_scalar_len(s);
        }
        utf16_of_scalar(decode_first_scalar(s)) + utf8_lossy_units(pop_first_scalar(s))
    } else {
        proof {
            lemma_maximal_subpart_len(s);
        }
        seq![0xfffdu16] + utf8_lossy_units(s.subrange(maximal_subpart_len(s) as int, s.len() as int))
    }
}

/// The bytes of `s` that belong to well-formed UTF-8 sequences, in order: what
/// is left when every ill-formed byte is dropped.
pub open spec fn utf8_kept_bytes(s: Seq<u8>) -> Seq<u8>
    decreases s.len(),
{
    if s.len() == 0 {
        seq![]
    } else if valid_first_scalar(s) {
        proof {
            lemma_first_scalar_len(s);
        }
        take_first_scalar(s) + utf8_kept_bytes(pop_first_scalar(s))
    } else {
        utf8_kept_bytes(s.drop_first())
    }
}

pub proof fn lemma_utf8_kept_bytes_valid(s: Seq<u8>)
    ensures
        valid_utf8(utf8_kept_bytes(s)),
    decreases s.len(),
{
    if s.len() > 0 {
        if valid_first_scalar(s) {
            lemma_first_scalar_len(s);
            lemma_utf8_kept_bytes_valid(pop_first_scalar(s));
            let head = take_first_scalar(s);
            assert(valid_first_scalar(head));
            assert(pop_first_scalar(head).len() == 0);
            assert(valid_utf8(pop_first_scalar(head)));
            assert(valid_utf8(head));
            valid_utf8_concat(head, utf8_kept_bytes(pop_first_scalar(s)));
        } else {
            lemma_utf8_kept_bytes_valid(s.drop_first());
        }
    }
}

/// Well-formed UTF-8 keeps every byte.
pub proof fn lemma_utf8_kept_bytes_of_valid(s: Seq<u8>)
    requires
        valid_utf8(s),
    ensures
        utf8_kept_bytes(s) == s,
    decreases s.len(),
{
    if s.len() > 0 {
        lemma_first_scalar_len(s);
        lemma_utf8_kept_bytes_of_valid(pop_first_scalar(s));
        assert(take_first_scalar(s) + pop_first_scalar(s) =~= s);
    }
}

/// A scalar at the start of `p` starts `p + q` just the same.
pub proof fn lemma_first_scalar_prefix(p: Seq<u8>, q: Seq<u8>)
    requires
        valid_first_scalar(p),
    ensures
        valid_first_scalar(p + q),
        decode_first_scalar(p + q) == decode_first_scalar(p),
        length_of_first_scalar(p + q) == length_of_first_scalar(p),
        take_first_scalar(p + q) == take_first_scalar(p),
        pop_first_scalar(p + q) == pop_first_scalar(p) + q,
{
    lemma_first_scalar_len(p);
    let l = length_of_first_scalar(p);
    let s = p + q;
    assert(s[0] == p[0]);
    if p.len() > 1 {
        assert(s[1] == p[1]);
    }
    if p.len() > 2 {
        assert(s[2] == p[2]);
    }
    if p.len() > 3 {
        assert(s[3] == p[3]);
    }
    assert(s.subrange(0, l) =~= p.subrange(0, l));
    assert(s.subrange(l, s.len() as int) =~= pop_first_scalar(p) + q);
}

/// Two well-formed byte strings one after the other decode to the one's
/// characters followed by the other's.
pub proof fn lemma_decode_utf8_concat(k: Seq<u8>, q: Seq<u8>)
    requires
        valid_utf8(k),
        valid_utf8(q),
    ensures
        valid_utf8(k + q),
        decode_utf8(k + q) == decode_utf8(k) + decode_utf8(q),
    decreases k.len(),
{
    valid_utf8_concat(k, q);
    if k.len() == 0 {
        assert(k + q =~= q);
    } else {
        lemma_first_scalar_prefix(k, q);
        lemma_first_scalar_len(k);
        lemma_decode_utf8_concat(pop_first_scalar(k), q);
        assert(decode_utf8(k + q) == seq![decode_first_scalar(k) as char] + decode_utf8(
            pop_first_scalar(k) + q,
        ));
        assert(seq![decode_first_scalar(k) as char] + (decode_utf8(pop_first_scalar(k)) + decode_utf8(q))
            =~= decode_utf8(k) + decode_utf8(q));
    }
}

/// ASCII bytes at the end are kept, whatever comes before them: no
/// well-formed sequence reaches into them.
pub proof fn lemma_kept_bytes_ascii_tail(p: Seq<u8>, q: Seq<u8>)
    requires
        forall|i: int| 0 <= i < q.len() ==> #[trigger] q[i] < 0x80,
    ensures
        utf8_kept_bytes(p + q) == utf8_kept_bytes(p) + q,
    decreases p.len(),
{
    let s = p + q;
    if p.len() == 0 {
        assert(s =~= q);
        lemma_ascii_utf8(q);
        lemma_utf8_kept_bytes_of_valid(q);
        assert(utf8_kept_bytes(p) + q =~= q);
    } else {
        assert(s[0] == p[0]);
        if valid_first_scalar(p) {
            lemma_first_scalar_prefix(p, q);
            lemma_first_scalar_len(p);
            lemma_kept_bytes_ascii_tail(pop_first_scalar(p), q);
            assert(take_first_scalar(p) + (utf8_kept_bytes(pop_first_scalar(p)) + q) =~= (
            take_first_scalar(p) + utf8_kept_bytes(pop_first_scalar(p))) + q);
        } else if valid_first_scalar(s) {
            lemma_first_scalar_len(s);
            if p.len() > 1 {
                assert(s[1] == p[1]);
            } else {
                assert(s[1] == q[0]);
            }
            if p.len() > 2 {
                assert(s[2] == p[2]);
            } else if p.len() == 2 && s.len() > 2 {
                assert(s[2] == q[0]);
            }
            if p.len() > 3 {
                assert(s[3] == p[3]);
            } else if p.len() == 3 && s.len() > 3 {
                assert(s[3] == q[0]);
            }
            assert(false);
        } else {
            assert(s.drop_first() =~= p.drop_first() + q);
            lemma_kept_bytes_ascii_tail(p.drop_first(), q);
        }
    }
}

/// Every byte kept was there.
pub proof fn lemma_kept_bytes_from(s: Seq<u8>, b: u8)
    ensures
        utf8_kept_bytes(s).contains(b) ==> s.contains(b),
    decreases s.len(),
{
    if s.len() > 0 {
        if valid_first_scalar(s) {
            lemma_first_scalar_len(s);
            let l = length_of_first_scalar(s);
            lemma_kept_bytes_from(pop_first_scalar(s), b);
            let kept = utf8_kept_bytes(s);
            if kept.contains(b) {
                let k = choose|k: int| 0 <= k < kept.len() && kept[k] == b;
                if k < l {
                    assert(s[k] == b);
                } else {
                    let j = choose|j: int|
                        0 <= j < pop_first_scalar(s).len() && pop_first_scalar(s)[j] == b;
                    assert(s[l + j] == b);
                }
            }
        } else {
            lemma_kept_bytes_from(s.drop_first(), b);
            if s.drop_first().contains(b) {
                let j = choose|j: int| 0 <= j < s.drop_first().len() && s.drop_first()[j] == b;
                assert(s[j + 1] == b);
            }
        }
    }
}

/// An ASCII character decoded from well-formed UTF-8 was an ASCII byte of it:
/// longer sequences encode only scalars of U+0080 and above.
pub proof fn lemma_decoded_ascii_from(b: Seq<u8>, x: u8)
    requires
        valid_utf8(b),
        x < 0x80,
    ensures
        decode_utf8(b).contains(x as char) ==> b.contains(x),
    decreases b.len(),
{
    if b.len() > 0 {
        lemma_first_scalar_len(b);
        let c = decode_first_scalar(b);
        lemma_decoded_ascii_from(pop_first_scalar(b), x);
        let d = decode_utf8(b);
        assert(d == seq![c as char] + decode_utf8(pop_first_scalar(b)));
        if d.contains(x as char) {
            let k = choose|k: int| 0 <= k < d.len() && d[k] == x as char;
            if k == 0 {
                let b0 = b[0];
                lemma_scalar_bound(b);
                assert((c as char) as u32 == c);
                assert((x as char) as u32 == x);
                if is_leading_byte_width_1(b0) {
                    assert((b0 & 0x7f) as u32 == b0 as u32) by (bit_vector)
                        requires
                            b0 < 0x80,
                    ;
                    assert(b[0] == x);
                }
            } else {
                assert(decode_utf8(pop_first_scalar(b))[k - 1] == x as char);
                let j = choose|j: int|
                    0 <= j < pop_first_scalar(b).len() && pop_first_scalar(b)[j] == x;
                assert(b[length_of_first_scalar(b) + j] == x);
            }
        }
    }
}

/// The scalar that starts at `i`, with its length, when a well-formed sequence
/// starts there.
pub(crate) fn first_scalar(s: &[u8], i: usize) -> (r: Option<(u32, usize)>)
    requires
        i < s@.len(),
    ensures
        r is Some <==> valid_first_scalar(s@.subrange(i as int, s@.len() as int)),
        r matches Some((c, n)) ==> c == decode_first_scalar(s@.subrange(i as int, s@.len() as int))
            && n == length_of_first_scalar(s@.subrange(i as int, s@.len() as int)),
{
    let ghost rest = s@.subrange(i as int, s@.len() as int);
    let avail = s.len() - i;
    let b0 = s[i];
    assert(rest[0] == b0);
    if b0 <= 0x7f {
        return Some(((b0 & 0x7f) as u32, 1));
    }
    if 0xc0 <= b0 && b0 <= 0xdf {
        if avail < 2 {
            return None;
        }
        let b1 = s[i + 1];
        assert(rest[1] == b1);
        if !(0x80 <= b1 && b1 <= 0xbf) {
            return None;
        }
        let cp = (((b0 & 0x1f) as u32) << 6) | ((b1 & 0x3f) as u32);
        if cp < 0x80 || (0xd800 <= cp && cp <= 0xdfff) {
            return None;
        }
        return Some((cp, 2));
    }
    if 0xe0 <= b0 && b0 <= 0xef {
        if avail < 3 {
            return None;
        }
        let b1 = s[i + 1];
        let b2 = s[i + 2];
        assert(rest[1] == b1 && rest[2] == b2);
        if !(0x80 <= b1 && b1 <= 0xbf) || !(0x80 <= b2 && b2 <= 0xbf) {
            return None;
        }
        let cp = (((b0 & 0x0f) as u32) << 12) | (((b1 & 0x3f) as u32) << 6) | ((b2
            & 0x3f) as u32);
        if cp < 0x800 || (0xd800 <= cp && cp <= 0xdfff) {
            return None;
        }
        return Some((cp, 3));
    }
    if 0xf0 <= b0 && b0 <= 0xf7 {
        if avail < 4 {
            return None;
        }
        let b1 = s[i + 1];
        let b2 = s[i + 2];
        let b3 = s[i + 3];
        assert(rest[1] == b1 && rest[2] == b2 && rest[3] == b3);
        if !(0x80 <= b1 && b1 <= 0xbf) || !(0x80 <= b2 && b2 <= 0xbf) || !(0x80 <= b3 && b3
            <= 0xbf) {
            return None;
        }
        let cp = (((b0 & 0x07) as u32) << 18) | (((b1 & 0x3f) as u32) << 12) | (((b2
            & 0x3f) as u32) << 6) | ((b3 & 0x3f) as u32);
        if cp < 0x10000 || cp > 0x10ffff || (0xd800 <= cp && cp <= 0xdfff) {
            return None;
        }
        return Some((cp, 4));
    }
    None
}

/// Length of the maximal subpart that starts at `i`.
pub(crate) fn maximal_subpart_at(s: &[u8], i: usize) -> (r: usize)
    requires
        i < s@.len(),
    ensures
        r == maximal_subpart_len(s@.subrange(i as int, s@.len() as int)),
{
    let ghost rest = s@.subrange(i as int, s@.len() as int);
    let avail = s.len() - i;
    let b0 = s[i];
    assert(rest[0] == b0);
    let w: usize = if b0 <= 0x7f {
        1
    } else if 0xc2 <= b0 && b0 <= 0xdf {
        2
    } else if 0xe0 <= b0 && b0 <= 0xef {
        3
    } else if 0xf0 <= b0 && b0 <= 0xf4 {
        4
    } else {
        0
    };
    if w < 2 || avail < 2 {
        return 1;
    }
    let b1 = s[i + 1];
    assert(rest[1] == b1);
    let second_ok = if b0 == 0xe0 {
        0xa0 <= b1 && b1 <= 0xbf
    } else if b0 == 0xed {
        0x80 <= b1 && b1 <= 0x9f
    } else if b0 == 0xf0 {
        0x90 <= b1 && b1 <= 0xbf
    } else if b0 == 0xf4 {
        0x80 <= b1 && b1 <= 0x8f
    } else {
        0x80 <= b1 && b1 <= 0xbf
    };
    if !second_ok {
        return 1;
    }
    if w == 2 || avail < 3 {
        return 2;
    }
    let b2 = s[i + 2];
    assert(rest[2] == b2);
    if !(0x80 <= b2 && b2 <= 0xbf) {
        return 2;
    }
    if w == 3 || avail < 4 {
        return 3;
    }
    let b3 = s[i + 3];
    assert(rest[3] == b3);
    if !(0x80 <= b3 && b3 <= 0xbf) {
        return 3;
    }
    4
}

/// Appends the UTF-16 code units of the scalar `c`.
pub(crate) fn push_utf16(out: &mut Vec<u16>, c: u32)
    requires
        c <= 0x10ffff,
    ensures
        final(out)@ == old(out)@ + utf16_of_scalar(c),
{
    if c < 0x10000 {
        out.push(c as u16);
    } else {
        let sub = c - 0x10000;
        out.push((0xd800 + sub / 1024) as u16);
        out.push((0xdc00 + sub % 1024) as u16);
    }
}

/// A well-formed scalar is at most U+10FFFF.
pub proof fn lemma_scalar_bound(s: Seq<u8>)
    requires
        valid_first_scalar(s),
    ensures
        decode_first_scalar(s) <= 0x10ffff,
{
    let b0 = s[0];
    if is_leading_byte_width_1(b0) {
        assert((b0 & 0x7f) as u32 <= 0x7f) by (bit_vector);
    } else if is_leading_byte_width_2(b0) {
        let b1 = s[1];
        assert((((b0 & 0x1f) as u32) << 6) | ((b1 & 0x3f) as u32) <= 0x7ff) by (bit_vector);
    } else if is_leading_byte_width_3(b0) {
        let b1 = s[1];
        let b2 = s[2];
        assert((((b0 & 0x0f) as u32) << 12) | (((b1 & 0x3f) as u32) << 6) | ((b2
            & 0x3f) as u32) <= 0xffff) by (bit_vector);
    }
}

/// UTF-8 decoding of `s` with each maximal subpart of ill-formed input
/// replaced by U+FFFD, as UTF-16 code units.
pub(crate) fn utf8_lossy_to_units(s: &[u8]) -> (r: Vec<u16>)
    ensures
        r@ == utf8_lossy_units(s@),
{
    let mut out: Vec<u16> = Vec::new();
    let mut i: usize = 0;
    let n = s.len();
    assert(s@.subrange(0, n as int) =~= s@);
    while i < n
        invariant
            n == s@.len(),
            i <= n,
            out@ + utf8_lossy_units(s@.subrange(i as int, n as int)) == utf8_lossy_units(s@),
        decreases n - i,
    {
        let ghost rest = s@.subrange(i as int, n as int);
        let ghost before = out@;
        match first_scalar(s, i) {
            Some((c, len)) => {
                proof {
                    lemma_scalar_bound(rest);
                    lemma_first_scalar_len(rest);
                    assert(pop_first_scalar(rest) =~= s@.subrange((i + len) as int, n as int));
                }
                push_utf16(&mut out, c);
                proof {
                    assert(before + utf8_lossy_units(rest) == before + (utf16_of_scalar(c)
                        + utf8_lossy_units(pop_first_scalar(rest))));
                }
                i = i + len;
            },
            None => {
                let len = maximal_subpart_at(s, i);
                proof {
                    lemma_maximal_subpart_len(rest);
                    assert(rest.subrange(len as int, rest.len() as int) =~= s@.subrange(
                        (i + len) as int,
                        n as int,
                    ));
                }
                out.push(0xfffd);
                proof {
                    assert(before + utf8_lossy_units(rest) == before + (seq![0xfffdu16]
                        + utf8_lossy_units(s@.subrange((i + len) as int, n as int))));
                }
                i = i + len;
            },
        }
    }
    assert(s@.subrange(n as int, n as int).len() == 0);
    out
}

/// The bytes of `s` that belong to well-formed UTF-8 sequences, in order.
pub(crate) fn utf8_keep_valid(s: &[u8]) -> (r: Vec<u8>)
    ensures
        r@ == utf8_kept_bytes(s@),
{
    let mut out: Vec<u8> = Vec::new();
    let mut i: usize = 0;
    let n = s.len();
    assert(s@.subrange(0, n as int) =~= s@);
    while i < n
        invariant
            n == s@.len(),
            i <= n,
            out@ + utf8_kept_bytes(s@.subrange(i as int, n as int)) == utf8_kept_bytes(s@),
        decreases n - i,
    {
        let ghost rest = s@.subrange(i as int, n as int);
        let ghost before = out@;
        match first_scalar(s, i) {
            Some((_c, len)) => {
                proof {
                    lemma_first_scalar_len(rest);
                    assert(pop_first_scalar(rest) =~= s@.subrange((i + len) as int, n as int));
                }
                let mut k: usize = 0;
                while k < len
                    invariant
                        i + len <= n,
                        n == s@.len(),
                        k <= len,
                        out@ == before + s@.subrange(i as int, (i + k) as int),
                    decreases len - k,
                {
                    out.push(s[i + k]);
                    proof {
                        assert(s@.subrange(i as int, (i + k + 1) as int) =~= s@.subrange(
                            i as int,
                            (i + k) as int,
                        ).push(s@[(i + k) as int]));
                    }
                    k += 1;
                }
                proof {
                    assert(take_first_scalar(rest) =~= s@.subrange(i as int, (i + len) as int));
                    assert(before + utf8_kept_bytes(rest) == before + (take_first_scalar(rest)
                        + utf8_kept_bytes(pop_first_scalar(rest))));
                }
                i = i + len;
            },
            None => {
                proof {
                    assert(rest.drop_first() =~= s@.subrange((i + 1) as int, n as int));
                }
                i = i + 1;
            },
        }
    }
    assert(s@.subrange(n as int, n as int).len() == 0);
    out
}

/// `std`'s `String::from_utf8`: on well-formed UTF-8 it returns the string
/// those bytes encode. Callers hand it only well-formed bytes.
#[verifier::external_body]
pub(crate) fn string_from_utf8(bytes: Vec<u8>) -> (r: String)
    requires
        valid_utf8(bytes@),
    ensures
        r@ == decode_utf8(bytes@),
{
    String::from_utf8(bytes).unwrap()
}

/// UTF-16 code units read as characters, with each unpaired surrogate
/// replaced by U+FFFD.
pub open spec fn utf16_lossy_chars(u: Seq<u16>) -> Seq<char>
    decreases u.len(),
{
    if u.len() == 0 {
        seq![]
    } else if 0xd800 <= u[0] <= 0xdbff && u.len() >= 2 && 0xdc00 <= u[1] <= 0xdfff {
        seq![(0x10000 + (u[0] - 0xd800) * 1024 + (u[1] - 0xdc00)) as char] + utf16_lossy_chars(
            u.subrange(2, u.len() as int),
        )
    } else if 0xd800 <= u[0] <= 0xdfff {
        seq!['\u{fffd}'] + utf16_lossy_chars(u.drop_first())
    } else {
        seq![u[0] as char] + utf16_lossy_chars(u.drop_first())
    }
}

/// `std`'s `String::from_utf16_lossy`: decodes UTF-16, pairing surrogates and
/// putting U+FFFD in place of each unpaired one.
#[verifier::external_body]
pub(crate) fn string_from_utf16_lossy(units: &[u16]) -> (r: String)
    ensures
        r@ == utf16_lossy_chars(units@),
{
    String::from_utf16_lossy(units)
}

/// The UTF-16 code units of a sequence of characters.
pub open spec fn utf16_of_chars(c: Seq<char>) -> Seq<u16>
    decreases c.len(),
{
    if c.len() == 0 {
        seq![]
    } else {
        utf16_of_scalar(c[0] as u32) + utf16_of_chars(c.drop_first())
    }
}

/// `std`'s `str::encode_utf16`, collected: each character becomes one code
/// unit, or a surrogate pair above U+FFFF.
#[verifier::external_body]
pub(crate) fn str_to_utf16(s: &str) -> (r: Vec<u16>)
    ensures
        r@ == utf16_of_chars(s@),
{
    s.encode_utf16().collect()
}

} // verus!
