//! Unsigned and signed LEB128 integers as DEX files store them.
use crate::error::AscError;
use vstd::prelude::*;

verus! {

/// `128` raised to the power `k`.
pub open spec fn pow128(k: nat) -> int
    decreases k,
{
    if k == 0 {
        1
    } else {
        128 * pow128((k - 1) as nat)
    }
}

/// The number held by the low seven bits of the `k` bytes starting at `pos`,
/// least significant group first.
pub open spec fn leb_value(s: Seq<u8>, pos: int, k: nat) -> int
    decreases k,
{
    if k == 0 {
        0
    } else {
        s[pos] % 128 + 128 * leb_value(s, pos + 1, (k - 1) as nat)
    }
}

/// Index of the first byte at or after `p` whose high bit is clear: the last
/// byte of a LEB128 integer that starts at or before `p`.
pub open spec fn leb_terminator(s: Seq<u8>, p: int) -> Option<int>
    decreases s.len() - p,
{
    if p < 0 || p >= s.len() {
        None
    } else if s[p] < 0x80 {
        Some(p)
    } else {
        leb_terminator(s, p + 1)
    }
}

/// Number of bytes the five-byte ULEB128 reader takes from `pos`, having taken
/// `i` already: it stops at a byte with a clear high bit or after the fifth byte.
pub open spec fn uleb_fast_len(s: Seq<u8>, pos: int, i: nat) -> Option<nat>
    decreases 5 - i,
{
    if pos < 0 || pos + i >= s.len() || i >= 5 {
        None
    } else if i == 4 || s[pos + i] < 0x80 {
        Some(i + 1)
    } else {
        uleb_fast_len(s, pos, i + 1)
    }
}

/// What `read_uleb128` returns: the value and size of the ULEB128 at `pos`,
/// read from at most five bytes.
pub open spec fn spec_read_uleb128(s: Seq<u8>, pos: int) -> Result<(u64, usize), AscError> {
    match uleb_fast_len(s, pos, 0) {
        Some(k) => Ok((leb_value(s, pos, k) as u64, k as usize)),
        None => Err(AscError::UnterminatedUleb128),
    }
}

/// What `uleb128_len` returns: the size of the ULEB128 at `pos`, however long.
pub open spec fn spec_uleb128_len(s: Seq<u8>, pos: int) -> Result<usize, AscError> {
    match leb_terminator(s, pos) {
        Some(t) => Ok((t - pos + 1) as usize),
        None => Err(AscError::UnterminatedUleb128),
    }
}

/// What `skip_uleb128` returns: the offset just past the ULEB128 at `pos`.
pub open spec fn spec_skip_uleb128(s: Seq<u8>, pos: int) -> Result<usize, AscError> {
    match leb_terminator(s, pos) {
        Some(t) => Ok((t + 1) as usize),
        None => Err(AscError::UnterminatedUleb128),
    }
}

/// Size of the SLEB128 at `pos` when it ends within nine bytes.
pub open spec fn sleb_len(s: Seq<u8>, pos: int) -> Option<nat> {
    match leb_terminator(s, pos) {
        Some(t) if t - pos < 9 => Some((t - pos + 1) as nat),
        _ => None,
    }
}

/// The SLEB128 at `pos` runs past nine bytes and a tenth byte is there to show it.
pub open spec fn sleb_too_long(s: Seq<u8>, pos: int) -> bool {
    sleb_len(s, pos) is None && 0 <= pos && pos + 9 < s.len()
}

/// The value of a `k`-byte SLEB128 at `pos`: sign-extended from bit `7 * k`
/// when that bit lies below 32, and taken as it is otherwise.
pub open spec fn sleb_value(s: Seq<u8>, pos: int, k: nat) -> int {
    let raw = leb_value(s, pos, k);
    if 7 * k < 32 && s[pos + k - 1] % 128 >= 64 {
        raw - pow128(k)
    } else {
        raw
    }
}

/// The bytes that `write_uleb128` appends for `v`.
pub open spec fn uleb_encoding(v: nat) -> Seq<u8>
    decreases v,
{
    if v < 128 {
        seq![v as u8]
    } else {
        seq![(v % 128 + 128) as u8] + uleb_encoding(v / 128)
    }
}

/// Measure that falls with each group `sleb_encoding` emits.
pub open spec fn sleb_measure(v: int) -> nat {
    if v >= 0 {
        v as nat
    } else {
        (-v) as nat
    }
}

/// `v` fits in the last SLEB128 byte, whose bit 6 then carries the sign.
pub open spec fn sleb_last_group(v: int) -> bool {
    (v / 128 == 0 && v % 128 < 64) || (v / 128 == -1 && v % 128 >= 64)
}

/// The bytes that `write_sleb128` appends for `v`.
pub open spec fn sleb_encoding(v: int) -> Seq<u8>
    decreases sleb_measure(v),
{
    if sleb_last_group(v) {
        seq![(v % 128) as u8]
    } else {
        seq![(v % 128 + 128) as u8] + sleb_encoding(v / 128)
    }
}

pub proof fn lemma_pow128_pos(k: nat)
    ensures
        pow128(k) >= 1,
    decreases k,
{
    if k > 0 {
        lemma_pow128_pos((k - 1) as nat);
    }
}

pub proof fn lemma_leb_value_bounds(s: Seq<u8>, pos: int, k: nat)
    ensures
        0 <= leb_value(s, pos, k) < pow128(k),
    decreases k,
{
    if k > 0 {
        lemma_leb_value_bounds(s, pos + 1, (k - 1) as nat);
    }
}

/// Appending a byte to the groups read so far adds its payload at the next weight.
pub proof fn lemma_leb_value_snoc(s: Seq<u8>, pos: int, k: nat)
    ensures
        leb_value(s, pos, k + 1) == leb_value(s, pos, k) + (s[pos + k] % 128) * pow128(k),
    decreases k,
{
    let c = s[pos + k] % 128;
    if k == 0 {
        assert(leb_value(s, pos + 1, 0) == 0);
        assert(leb_value(s, pos, 1) == s[pos] % 128 + 128 * leb_value(s, pos + 1, 0));
    } else {
        let k1 = (k - 1) as nat;
        lemma_leb_value_snoc(s, pos + 1, k1);
        assert(pos + 1 + k1 == pos + k);
        assert(leb_value(s, pos + 1, k) == leb_value(s, pos + 1, k1) + c * pow128(k1));
        assert(leb_value(s, pos, k + 1) == s[pos] % 128 + 128 * leb_value(s, pos + 1, k));
        assert(leb_value(s, pos, k) == s[pos] % 128 + 128 * leb_value(s, pos + 1, k1));
        assert(pow128(k) == 128 * pow128(k1));
        assert(128 * (c * pow128(k1)) == c * (128 * pow128(k1))) by (nonlinear_arith);
    }
}

/// Bytes at or after `p` before the terminator all have their high bit set.
pub proof fn lemma_leb_terminator(s: Seq<u8>, p: int)
    requires
        0 <= p,
    ensures
        leb_terminator(s, p) matches Some(t) ==> p <= t < s.len() && s[t] < 0x80 && forall|
            j: int,
        |
            p <= j < t ==> s[j] >= 0x80,
        leb_terminator(s, p) is None ==> forall|j: int| p <= j < s.len() ==> s[j] >= 0x80,
    decreases s.len() - p,
{
    if p < s.len() && s[p] >= 0x80 {
        lemma_leb_terminator(s, p + 1);
    }
}

/// A run of bytes with the high bit set, ended by one with it clear, is found
/// by `leb_terminator`.
pub proof fn lemma_leb_terminator_at(s: Seq<u8>, p: int, q: int)
    requires
        0 <= p <= q < s.len(),
        forall|j: int| p <= j < q ==> s[j] >= 0x80,
        s[q] < 0x80,
    ensures
        leb_terminator(s, p) == Some(q),
    decreases q - p,
{
    if p < q {
        lemma_leb_terminator_at(s, p + 1, q);
    }
}

/// Read an unsigned LEB128 integer using fast bounds-checked decoding.
/// Reads at most 5 bytes and returns `(value, length)`: the fifth byte ends the
/// integer whatever its high bit, so values of up to 35 bits come back.
pub fn read_uleb128(buf: &[u8], pos: usize) -> (r: Result<(u64, usize), AscError>)
    ensures
        r == spec_read_uleb128(buf@, pos as int),
        r matches Ok((_, n)) ==> 1 <= n <= 5 && pos + n <= buf.len(),
{
    let mut res: u64 = 0;
    let mut scale: u64 = 1;
    let mut i: usize = 0;
    while i < 5
        invariant
            i < 5,
            uleb_fast_len(buf@, pos as int, 0) == uleb_fast_len(buf@, pos as int, i as nat),
            res == leb_value(buf@, pos as int, i as nat),
            scale == pow128(i as nat),
        decreases 5 - i,
    {
        if pos >= buf.len() || i >= buf.len() - pos {
            return Err(AscError::UnterminatedUleb128);
        }
        let b = buf[pos + i];
        proof {
            lemma_leb_value_snoc(buf@, pos as int, i as nat);
            lemma_leb_value_bounds(buf@, pos as int, i as nat);
            lemma_pow128_values();
            assert(scale <= 268435456) by {
                if i < 4 {
                    lemma_pow128_mono(i as nat, 4);
                }
            }
            assert((b % 128) as u64 * scale <= 127 * 268435456) by (nonlinear_arith)
                requires
                    scale <= 268435456,
                    b % 128 <= 127,
            ;
        }
        res = res + (b % 128) as u64 * scale;
        if b < 0x80 || i == 4 {
            return Ok((res, i + 1));
        }
        scale = scale * 128;
        i += 1;
    }
    Err(AscError::UnterminatedUleb128)
}

pub proof fn lemma_pow128_values()
    ensures
        pow128(0) == 1,
        pow128(1) == 128,
        pow128(2) == 16384,
        pow128(3) == 2097152,
        pow128(4) == 268435456,
        pow128(5) == 34359738368,
        pow128(6) == 4398046511104,
        pow128(7) == 562949953421312,
        pow128(8) == 72057594037927936,
        pow128(9) == 9223372036854775808,
{
    reveal_with_fuel(pow128, 10);
}

pub proof fn lemma_pow128_mono(a: nat, b: nat)
    requires
        a <= b,
    ensures
        pow128(a) <= pow128(b),
    decreases b,
{
    if a < b {
        lemma_pow128_mono(a, (b - 1) as nat);
        lemma_pow128_pos((b - 1) as nat);
    }
}

/// Position of the last byte of the LEB128 integer that starts at `pos`.
fn find_leb_terminator(buf: &[u8], pos: usize) -> (r: Option<usize>)
    ensures
        r matches Some(t) ==> leb_terminator(buf@, pos as int) == Some(t as int) && pos <= t
            < buf.len(),
        r is None ==> leb_terminator(buf@, pos as int) is None,
{
    let mut p: usize = pos;
    proof {
        lemma_leb_terminator(buf@, pos as int);
    }
    while p < buf.len()
        invariant
            pos <= p,
            leb_terminator(buf@, pos as int) == leb_terminator(buf@, p as int),
        decreases buf.len() - p,
    {
        if buf[p] < 0x80 {
            return Some(p);
        }
        p += 1;
    }
    None
}

/// Compute length of a ULEB128 integer without bounding to 5 bytes.
pub fn uleb128_len(buf: &[u8], pos: usize) -> (r: Result<usize, AscError>)
    ensures
        r == spec_uleb128_len(buf@, pos as int),
{
    proof {
        lemma_leb_terminator(buf@, pos as int);
    }
    match find_leb_terminator(buf, pos) {
        Some(t) => Ok(t - pos + 1),
        None => Err(AscError::UnterminatedUleb128),
    }
}

/// Skip over a ULEB128 value, returning the offset immediately following it.
pub fn skip_uleb128(buf: &[u8], off: usize) -> (r: Result<usize, AscError>)
    ensures
        r == spec_skip_uleb128(buf@, off as int),
{
    proof {
        lemma_leb_terminator(buf@, off as int);
    }
    match find_leb_terminator(buf, off) {
        Some(t) => Ok(t + 1),
        None => Err(AscError::UnterminatedUleb128),
    }
}

/// Read a signed LEB128 integer of at most nine bytes.
/// Sign-extends only when the value ends below bit 32 (at most four bytes);
/// longer values come back as their unsigned bits.
pub fn read_sleb128(buf: &[u8], pos: usize) -> (r: Result<(i64, usize), AscError>)
    ensures
        r is Ok <==> sleb_len(buf@, pos as int) is Some,
        r matches Ok((v, n)) ==> sleb_len(buf@, pos as int) == Some(n as nat) && v == sleb_value(
            buf@,
            pos as int,
            n as nat,
        ),
        r matches Err(e) ==> if sleb_too_long(buf@, pos as int) {
            e matches AscError::Custom(m) && m@ == "sleb128 exceeds 9 bytes"@
        } else {
            e == AscError::UnterminatedSleb128
        },
{
    let mut raw: u64 = 0;
    let mut scale: u64 = 1;
    let mut count: usize = 0;
    proof {
        lemma_leb_terminator(buf@, pos as int);
        lemma_pow128_values();
    }
    loop
        invariant
            count < 9,
            raw == leb_value(buf@, pos as int, count as nat),
            scale == pow128(count as nat),
            forall|j: int| pos <= j < pos + count ==> buf@[j] >= 0x80,
            leb_terminator(buf@, pos as int) matches Some(t) ==> pos + count <= t,
            pos + count <= buf@.len() || count == 0,
        decreases 9 - count,
    {
        if pos >= buf.len() || count >= buf.len() - pos {
            proof {
                if pos < buf@.len() {
                    lemma_leb_terminator(buf@, pos as int);
                }
                assert(leb_terminator(buf@, pos as int) is None);
            }
            return Err(AscError::UnterminatedSleb128);
        }
        let b = buf[pos + count];
        proof {
            lemma_leb_value_snoc(buf@, pos as int, count as nat);
            lemma_leb_value_bounds(buf@, pos as int, count as nat);
            lemma_pow128_values();
            lemma_pow128_mono((count + 1) as nat, 9);
            assert(pow128((count + 1) as nat) == 128 * pow128(count as nat));
            assert((b % 128) as u64 * scale <= 127 * scale) by (nonlinear_arith)
                requires
                    b % 128 <= 127,
            ;
            assert(raw + (b % 128) as u64 * scale < pow128((count + 1) as nat));
        }
        raw = raw + (b % 128) as u64 * scale;
        count += 1;
        scale = scale * 128;
        if b < 0x80 {
            proof {
                lemma_leb_terminator_at(buf@, pos as int, pos + count - 1);
                if count <= 4 {
                    lemma_pow128_mono(count as nat, 4);
                }
                lemma_leb_value_bounds(buf@, pos as int, count as nat);
            }
            if count <= 4 && b % 128 >= 64 {
                return Ok((raw as i64 - scale as i64, count));
            }
            return Ok((raw as i64, count));
        }
        proof {
            lemma_leb_terminator(buf@, pos as int);
        }
        if count == 9 {
            if 9 < buf.len() - pos {
                return Err(AscError::Custom(String::from_str("sleb128 exceeds 9 bytes")));
            }
            return Err(AscError::UnterminatedSleb128);
        }
    }
}

/// Write a 32-bit unsigned integer as ULEB128 into the output buffer.
pub fn write_uleb128(v: u32, out: &mut Vec<u8>)
    ensures
        final(out)@ == old(out)@ + uleb_encoding(v as nat),
{
    let mut v: u32 = v;
    let ghost start = old(out)@;
    let ghost v0 = v as nat;
    while v > 0x7f
        invariant
            start + uleb_encoding(v0) == out@ + uleb_encoding(v as nat),
        decreases v,
    {
        let ghost before = out@;
        out.push((v % 128 + 128) as u8);
        proof {
            assert(uleb_encoding(v as nat) == seq![(v % 128 + 128) as u8] + uleb_encoding(
                (v / 128) as nat,
            ));
            assert(out@ + uleb_encoding((v / 128) as nat) == before + uleb_encoding(v as nat));
        }
        v = v / 128;
    }
    out.push(v as u8);
    proof {
        assert(uleb_encoding(v as nat) == seq![v as u8]);
    }
}

proof fn lemma_i32_groups(v: i32)
    ensures
        (v & 0x7f) as int == v as int % 128,
        (v >> 7) as int == v as int / 128,
        ((v & 0x7f) as u8 & 0x40) == 0 <==> v as int % 128 < 64,
        ((v & 0x7f) as u8 | 0x80) as int == v as int % 128 + 128,
{
    assert((v & 0x7f) as int == v as int % 128) by (bit_vector);
    assert((v >> 7) as int == v as int / 128) by (bit_vector);
    let b = (v & 0x7f) as u8;
    assert(b < 128) by (bit_vector)
        requires
            b == (v & 0x7f) as u8,
    ;
    assert((b & 0x40) == 0 <==> b < 64) by (bit_vector)
        requires
            b < 128,
    ;
    assert((b | 0x80) as int == b as int + 128) by (bit_vector)
        requires
            b < 128,
    ;
}

/// Write a 32-bit signed integer as SLEB128 into the output buffer.
pub fn write_sleb128(value: i32, out: &mut Vec<u8>)
    ensures
        final(out)@ == old(out)@ + sleb_encoding(value as int),
{
    let mut value: i32 = value;
    let ghost start = old(out)@;
    let ghost v0 = value as int;
    let mut more = true;
    while more
        invariant
            more ==> start + sleb_encoding(v0) == out@ + sleb_encoding(value as int),
            !more ==> start + sleb_encoding(v0) == out@,
        decreases sleb_measure(value as int) + (if more { 1int } else { 0int }),
    {
        let ghost before = out@;
        let ghost v = value as int;
        proof {
            lemma_i32_groups(value);
        }
        let mut byte: u8 = (value & 0x7f) as u8;
        value = value >> 7;
        if (value == 0 && (byte & 0x40) == 0) || (value == -1 && (byte & 0x40) != 0) {
            more = false;
        } else {
            byte = byte | 0x80;
        }
        out.push(byte);
        proof {
            if more {
                assert(sleb_encoding(v) == seq![(v % 128 + 128) as u8] + sleb_encoding(v / 128));
                assert(out@ + sleb_encoding(value as int) == before + sleb_encoding(v));
            } else {
                assert(sleb_encoding(v) == seq![(v % 128) as u8]);
                assert(out@ == before + sleb_encoding(v));
            }
        }
    }
}

/// Facts about the bytes of `uleb_encoding(v)` laid down at `pos` in `s`.
proof fn lemma_uleb_encoding_read(v: nat, s: Seq<u8>, pos: int)
    requires
        0 <= pos,
        pos + uleb_encoding(v).len() <= s.len(),
        forall|j: int| 0 <= j < uleb_encoding(v).len() ==> s[pos + j] == uleb_encoding(v)[j],
    ensures
        uleb_encoding(v).len() >= 1,
        leb_terminator(s, pos) == Some(pos + uleb_encoding(v).len() - 1),
        leb_value(s, pos, uleb_encoding(v).len()) == v,
        forall|k: nat| k >= 1 && v < pow128(k) ==> uleb_encoding(v).len() <= k,
    decreases v,
{
    let enc = uleb_encoding(v);
    if v < 128 {
        assert(s[pos] == enc[0]);
        assert(leb_value(s, pos + 1, 0) == 0);
        assert forall|k: nat| k >= 1 && v < pow128(k) implies enc.len() <= k by {}
    } else {
        let rest = uleb_encoding(v / 128);
        assert(enc == seq![(v % 128 + 128) as u8] + rest);
        assert forall|j: int| 0 <= j < rest.len() implies s[pos + 1 + j] == rest[j] by {
            assert(s[pos + (j + 1)] == enc[j + 1]);
        }
        lemma_uleb_encoding_read(v / 128, s, pos + 1);
        assert(s[pos] == enc[0]);
        assert(s[pos] >= 0x80);
        assert(leb_value(s, pos, enc.len()) == s[pos] % 128 + 128 * leb_value(
            s,
            pos + 1,
            rest.len(),
        ));
        assert forall|k: nat| k >= 1 && v < pow128(k) implies enc.len() <= k by {
            if k == 1 {
                assert(pow128(1) == 128 * pow128(0));
            } else {
                assert(pow128(k) == 128 * pow128((k - 1) as nat));
            }
        }
    }
}

/// The five-byte reader stops where the integer ends when that is within five bytes.
proof fn lemma_uleb_fast_len(s: Seq<u8>, pos: int, i: nat, t: int)
    requires
        0 <= pos,
        i <= t - pos < 5,
        t < s.len(),
        forall|j: int| pos + i <= j < t ==> s[j] >= 0x80,
        s[t] < 0x80,
    ensures
        uleb_fast_len(s, pos, i) == Some((t - pos + 1) as nat),
    decreases 5 - i,
{
    if pos + i < t {
        lemma_uleb_fast_len(s, pos, i + 1, t);
    }
}

/// A ULEB128 that `write_uleb128` wrote for `v` reads back as `v`, over exactly
/// the bytes written, whatever precedes or follows it; `uleb128_len` and
/// `skip_uleb128` measure the same bytes.
pub proof fn lemma_uleb128_roundtrip(v: u32, before: Seq<u8>, after: Seq<u8>)
    ensures
        ({
            let enc = uleb_encoding(v as nat);
            let s = before + enc + after;
            let pos = before.len() as int;
            &&& spec_read_uleb128(s, pos) == Ok::<(u64, usize), AscError>(
                (v as u64, enc.len() as usize),
            )
            &&& spec_uleb128_len(s, pos) == Ok::<usize, AscError>(enc.len() as usize)
            &&& spec_skip_uleb128(s, pos) == Ok::<usize, AscError>((pos + enc.len()) as usize)
        }),
{
    let enc = uleb_encoding(v as nat);
    let s = before + enc + after;
    let pos = before.len() as int;
    assert forall|j: int| 0 <= j < enc.len() implies s[pos + j] == enc[j] by {}
    lemma_uleb_encoding_read(v as nat, s, pos);
    lemma_pow128_values();
    assert(enc.len() <= 5);
    let t = pos + enc.len() - 1;
    lemma_leb_terminator(s, pos);
    lemma_uleb_fast_len(s, pos, 0, t);
}

/// Facts about the bytes of `sleb_encoding(v)` laid down at `pos` in `s`: the
/// groups hold `v` modulo `128` to the number of bytes, and the sign sits in
/// bit 6 of the last byte.
proof fn lemma_sleb_encoding_read(v: int, s: Seq<u8>, pos: int, k: nat)
    requires
        0 <= pos,
        pos + sleb_encoding(v).len() <= s.len(),
        forall|j: int| 0 <= j < sleb_encoding(v).len() ==> s[pos + j] == sleb_encoding(v)[j],
    ensures
        sleb_encoding(v).len() >= 1,
        leb_terminator(s, pos) == Some(pos + sleb_encoding(v).len() - 1),
        leb_value(s, pos, sleb_encoding(v).len()) == v + (if v < 0 {
            pow128(sleb_encoding(v).len())
        } else {
            0
        }),
        s[pos + sleb_encoding(v).len() - 1] % 128 >= 64 <==> v < 0,
        k >= 1 && -64 * pow128((k - 1) as nat) <= v < 64 * pow128((k - 1) as nat)
            ==> sleb_encoding(v).len() <= k,
    decreases sleb_measure(v),
{
    let enc = sleb_encoding(v);
    if sleb_last_group(v) {
        assert(s[pos] == enc[0]);
        assert(leb_value(s, pos + 1, 0) == 0);
        assert(pow128(1) == 128 * pow128(0));
    } else {
        let rest = sleb_encoding(v / 128);
        assert(enc == seq![(v % 128 + 128) as u8] + rest);
        assert forall|j: int| 0 <= j < rest.len() implies s[pos + 1 + j] == rest[j] by {
            assert(s[pos + (j + 1)] == enc[j + 1]);
        }
        let k1: nat = if k >= 1 { (k - 1) as nat } else { 0 };
        lemma_sleb_encoding_read(v / 128, s, pos + 1, k1);
        assert(s[pos] == enc[0]);
        assert(s[pos] >= 0x80);
        assert(leb_value(s, pos, enc.len()) == s[pos] % 128 + 128 * leb_value(
            s,
            pos + 1,
            rest.len(),
        ));
        assert(pow128(enc.len()) == 128 * pow128(rest.len()));
        assert(pos + enc.len() - 1 == (pos + 1) + rest.len() - 1);
        if k >= 2 {
            let k2 = (k - 2) as nat;
            assert(pow128(k1) == 128 * pow128(k2));
        }
    }
}

/// An SLEB128 that `write_sleb128` wrote reads back as the value written, over
/// exactly the bytes written, whatever precedes or follows it, for every value
/// but the negative ones below `-2^27`: those take five bytes, and the reader
/// extends the sign of shorter encodings only.
pub proof fn lemma_sleb128_roundtrip(v: i32, before: Seq<u8>, after: Seq<u8>)
    requires
        -0x0800_0000 <= v,
    ensures
        ({
            let enc = sleb_encoding(v as int);
            let s = before + enc + after;
            let pos = before.len() as int;
            &&& sleb_len(s, pos) == Some(enc.len())
            &&& sleb_value(s, pos, enc.len()) == v
        }),
{
    let enc = sleb_encoding(v as int);
    let s = before + enc + after;
    let pos = before.len() as int;
    assert forall|j: int| 0 <= j < enc.len() implies s[pos + j] == enc[j] by {}
    lemma_pow128_values();
    if v < 0x0800_0000 {
        lemma_sleb_encoding_read(v as int, s, pos, 4);
        assert(enc.len() <= 4);
    } else {
        lemma_sleb_encoding_read(v as int, s, pos, 5);
        assert(enc.len() <= 5);
    }
}

} // verus!
