//! Modified UTF-8, the string encoding of DEX files: UTF-16 code units written
//! as CESU-8, with NUL as `C0 80` and lone surrogates kept.
use crate::unicode::{
    push_utf16, string_from_utf16_lossy, utf16_lossy_chars, utf16_of_scalar, utf8_lossy_to_units,
    utf8_lossy_units,
};
use vstd::prelude::*;

verus! {

/// A DEX string holding UTF-16 code units (where lone surrogates are preserved).
#[derive(Debug, Clone, PartialEq, Eq, PartialOrd, Ord, Hash)]
pub struct DexStr(pub Vec<u16>);

impl View for DexStr {
    type V = Seq<u16>;

    open spec fn view(&self) -> Seq<u16> {
        self.0@
    }
}

impl DexStr {
    pub fn new(units: Vec<u16>) -> (r: Self)
        ensures
            r@ == units@,
    {
        Self(units)
    }

    pub fn as_slice(&self) -> (r: &[u16])
        ensures
            r@ == self@,
    {
        self.0.as_slice()
    }

    /// Lossy conversion to UTF-8 String (lone surrogates replaced with U+FFFD).
    /// Used for logging or human-readable display only.
    pub fn to_string_lossy(&self) -> (r: String)
        ensures
            r@ == utf16_lossy_chars(self@),
    {
        string_from_utf16_lossy(self.0.as_slice())
    }

    pub fn utf16_len(&self) -> (r: usize)
        ensures
            r == self@.len(),
    {
        self.0.len()
    }
}

impl core::ops::Deref for DexStr {
    type Target = [u16];

    fn deref(&self) -> (r: &[u16])
        ensures
            r@ == self@,
    {
        self.0.as_slice()
    }
}

/// The next Modified UTF-8 sequence at the start of `s`: its code units and
/// its length in bytes, or `None` when `s` does not start with one.
pub open spec fn mutf8_sequence(s: Seq<u8>) -> Option<(Seq<u16>, nat)> {
    let b0 = s[0];
    if b0 == 0xc0 {
        if s.len() >= 2 && s[1] == 0x80 {
            Some((seq![0u16], 2))
        } else {
            None
        }
    } else if b0 < 0x80 {
        Some((seq![b0 as u16], 1))
    } else if 0xc2 <= b0 <= 0xdf {
        if s.len() >= 2 && 0x80 <= s[1] <= 0xbf {
            Some((seq![((b0 % 32) * 64 + s[1] % 64) as u16], 2))
        } else {
            None
        }
    } else if 0xe0 <= b0 <= 0xef {
        if s.len() >= 3 && 0x80 <= s[2] <= 0xbf && (if b0 == 0xe0 {
            0xa0 <= s[1] <= 0xbf
        } else {
            0x80 <= s[1] <= 0xbf
        }) {
            Some((seq![((b0 % 16) * 4096 + (s[1] % 64) * 64 + s[2] % 64) as u16], 3))
        } else {
            None
        }
    } else if 0xf0 <= b0 <= 0xf4 {
        let cp = (b0 % 8) * 262144 + (s[1] % 64) * 4096 + (s[2] % 64) * 64 + s[3] % 64;
        if s.len() >= 4 && 0x80 <= s[2] <= 0xbf && 0x80 <= s[3] <= 0xbf && (if b0 == 0xf0 {
            0x90 <= s[1] <= 0xbf
        } else if b0 == 0xf4 {
            0x80 <= s[1] <= 0x8f
        } else {
            0x80 <= s[1] <= 0xbf
        }) && 0x10000 <= cp <= 0x10ffff {
            Some((utf16_of_scalar(cp as u32), 4))
        } else {
            None
        }
    } else {
        None
    }
}

/// Code units of `s` read as a whole as Modified UTF-8 (CESU-8 with `C0 80`
/// for NUL, and four-byte UTF-8 sequences split into surrogate pairs), or
/// `None` when some part of `s` is not such a sequence.
pub open spec fn mutf8_units(s: Seq<u8>) -> Option<Seq<u16>>
    decreases s.len(),
{
    if s.len() == 0 {
        Some(seq![])
    } else {
        match mutf8_sequence(s) {
            Some((units, n)) => if 1 <= n <= s.len() {
                match mutf8_units(s.subrange(n as int, s.len() as int)) {
                    Some(rest) => Some(units + rest),
                    None => None,
                }
            } else {
                None
            },
            None => None,
        }
    }
}

/// What `decode_mutf8` returns: the Modified UTF-8 reading of `s` when all of
/// `s` is Modified UTF-8, and its UTF-8 reading with U+FFFD for each maximal
/// ill-formed subpart otherwise.
pub open spec fn spec_decode_mutf8(s: Seq<u8>) -> Seq<u16> {
    match mutf8_units(s) {
        Some(units) => units,
        None => utf8_lossy_units(s),
    }
}

/// The bytes `encode_mutf8` writes for one code unit.
pub open spec fn mutf8_unit_bytes(u: u16) -> Seq<u8> {
    if 0 < u < 0x80 {
        seq![u as u8]
    } else if u < 0x800 {
        seq![(0xc0 + u / 64) as u8, (0x80 + u % 64) as u8]
    } else {
        seq![(0xe0 + u / 4096) as u8, (0x80 + (u / 64) % 64) as u8, (0x80 + u % 64) as u8]
    }
}

/// What `encode_mutf8` returns for `units`.
pub open spec fn mutf8_encoding(units: Seq<u16>) -> Seq<u8>
    decreases units.len(),
{
    if units.len() == 0 {
        seq![]
    } else {
        mutf8_unit_bytes(units[0]) + mutf8_encoding(units.drop_first())
    }
}

/// Decoding of the next Modified UTF-8 sequence at `i`.
fn mutf8_sequence_at(payload: &[u8], i: usize, units: &mut Vec<u16>) -> (r: Option<usize>)
    requires
        i < payload@.len(),
    ensures
        r is Some <==> mutf8_sequence(payload@.subrange(i as int, payload@.len() as int)) is Some,
        r matches Some(n) ==> ({
            let (u, m) = mutf8_sequence(payload@.subrange(i as int, payload@.len() as int))->0;
            &&& n == m
            &&& final(units)@ == old(units)@ + u
        }),
{
    let ghost rest = payload@.subrange(i as int, payload@.len() as int);
    let avail: usize = payload.len() - i;
    let b0: u8 = payload[i];
    assert(rest[0] == b0);
    if b0 == 0xc0 {
        if avail < 2 {
            return None;
        }
        assert(rest[1] == payload@[i + 1]);
        if payload[i + 1] == 0x80 {
            units.push(0x0000);
            return Some(2);
        }
        return None;
    }
    if b0 < 0x80 {
        units.push(b0 as u16);
        return Some(1);
    }
    if 0xc2 <= b0 && b0 <= 0xdf {
        if avail < 2 {
            return None;
        }
        let b1: u8 = payload[i + 1];
        assert(rest[1] == b1);
        if !(0x80 <= b1 && b1 <= 0xbf) {
            return None;
        }
        units.push((b0 % 32) as u16 * 64 + (b1 % 64) as u16);
        return Some(2);
    }
    if 0xe0 <= b0 && b0 <= 0xef {
        if avail < 3 {
            return None;
        }
        let b1: u8 = payload[i + 1];
        let b2: u8 = payload[i + 2];
        assert(rest[1] == b1 && rest[2] == b2);
        if !(0x80 <= b2 && b2 <= 0xbf) {
            return None;
        }
        if b0 == 0xe0 && !(0xa0 <= b1 && b1 <= 0xbf) {
            return None;
        }
        if b0 != 0xe0 && !(0x80 <= b1 && b1 <= 0xbf) {
            return None;
        }
        units.push((b0 % 16) as u16 * 4096 + (b1 % 64) as u16 * 64 + (b2 % 64) as u16);
        return Some(3);
    }
    if 0xf0 <= b0 && b0 <= 0xf4 {
        if avail < 4 {
            return None;
        }
        let b1: u8 = payload[i + 1];
        let b2: u8 = payload[i + 2];
        let b3: u8 = payload[i + 3];
        assert(rest[1] == b1 && rest[2] == b2 && rest[3] == b3);
        if !(0x80 <= b2 && b2 <= 0xbf) || !(0x80 <= b3 && b3 <= 0xbf) {
            return None;
        }
        if b0 == 0xf0 && !(0x90 <= b1 && b1 <= 0xbf) {
            return None;
        }
        if b0 == 0xf4 && !(0x80 <= b1 && b1 <= 0x8f) {
            return None;
        }
        if b0 > 0xf0 && b0 < 0xf4 && !(0x80 <= b1 && b1 <= 0xbf) {
            return None;
        }
        let cp: u32 = (b0 % 8) as u32 * 262144 + (b1 % 64) as u32 * 4096 + (b2 % 64) as u32 * 64 + (b3
            % 64) as u32;
        if cp > 0x10ffff || cp < 0x10000 {
            return None;
        }
        push_utf16(units, cp);
        return Some(4);
    }
    None
}

/// Reads the whole payload as Modified UTF-8, giving up on the first
/// sequence that is not Modified UTF-8.
fn try_decode_primary(payload: &[u8]) -> (r: Option<Vec<u16>>)
    ensures
        r is Some <==> mutf8_units(payload@) is Some,
        r matches Some(v) ==> v@ == mutf8_units(payload@)->0,
{
    let mut units: Vec<u16> = Vec::new();
    let mut i: usize = 0;
    let len: usize = payload.len();
    assert(payload@.subrange(0, len as int) =~= payload@);
    while i < len
        invariant
            len == payload@.len(),
            i <= len,
            mutf8_units(payload@) == (match mutf8_units(payload@.subrange(i as int, len as int)) {
                Some(rest) => Some(units@ + rest),
                None => None,
            }),
        decreases len - i,
    {
        let ghost rest = payload@.subrange(i as int, len as int);
        let ghost before = units@;
        match mutf8_sequence_at(payload, i, &mut units) {
            Some(n) => {
                proof {
                    assert(rest.subrange(n as int, rest.len() as int) =~= payload@.subrange(
                        (i + n) as int,
                        len as int,
                    ));
                    let (u, _m) = mutf8_sequence(rest)->0;
                    match mutf8_units(payload@.subrange((i + n) as int, len as int)) {
                        Some(tail) => {
                            assert(before + (u + tail) == before + u + tail);
                        },
                        None => {},
                    }
                }
                i = i + n;
            },
            None => {
                return None;
            },
        }
    }
    assert(payload@.subrange(len as int, len as int) =~= Seq::<u8>::empty());
    assert(units@ + Seq::<u16>::empty() =~= units@);
    Some(units)
}

/// Decode a Modified UTF-8 payload (without NUL terminator) into `DexStr`.
///
/// 1. Fast path for ASCII.
/// 2. Primary path replacing `C0 80` with `00` and decoding CESU-8/UTF-8 with surrogate pass.
/// 3. Fallback on any decode error to UTF-8 maximal subpart lossy replacement.
pub fn decode_mutf8(payload: &[u8]) -> (r: DexStr)
    ensures
        r@ == spec_decode_mutf8(payload@),
{
    let mut all_ascii = true;
    let mut k: usize = 0;
    while k < payload.len()
        invariant
            k <= payload@.len(),
            all_ascii <==> forall|j: int| 0 <= j < k ==> payload@[j] < 0x80,
        decreases payload@.len() - k,
    {
        if payload[k] >= 0x80 {
            all_ascii = false;
        }
        k += 1;
    }
    if all_ascii {
        let mut units: Vec<u16> = Vec::new();
        let mut i: usize = 0;
        while i < payload.len()
            invariant
                i <= payload@.len(),
                forall|j: int| 0 <= j < payload@.len() ==> payload@[j] < 0x80,
                units@ =~= Seq::new(i as nat, |j: int| payload@[j] as u16),
            decreases payload@.len() - i,
        {
            units.push(payload[i] as u16);
            i += 1;
        }
        proof {
            lemma_ascii_mutf8(payload@);
        }
        return DexStr(units);
    }
    match try_decode_primary(payload) {
        Some(units) => DexStr(units),
        None => DexStr(utf8_lossy_to_units(payload)),
    }
}

/// ASCII bytes are Modified UTF-8, one code unit per byte.
pub proof fn lemma_ascii_mutf8(s: Seq<u8>)
    requires
        forall|j: int| 0 <= j < s.len() ==> s[j] < 0x80,
    ensures
        mutf8_units(s) == Some(Seq::new(s.len(), |j: int| s[j] as u16)),
    decreases s.len(),
{
    if s.len() > 0 {
        let tail = s.subrange(1, s.len() as int);
        lemma_ascii_mutf8(tail);
        assert(seq![s[0] as u16] + Seq::new(tail.len(), |j: int| tail[j] as u16) =~= Seq::new(
            s.len(),
            |j: int| s[j] as u16,
        ));
    }
}

/// Encode UTF-16 units into MUTF-8 bytes (without terminator).
pub fn encode_mutf8(units: &[u16]) -> (r: Vec<u8>)
    ensures
        r@ == mutf8_encoding(units@),
{
    let mut out: Vec<u8> = Vec::new();
    let mut i: usize = 0;
    assert(units@.subrange(0, units@.len() as int) =~= units@);
    assert(out@ + mutf8_encoding(units@) =~= mutf8_encoding(units@));
    while i < units.len()
        invariant
            i <= units@.len(),
            out@ + mutf8_encoding(units@.subrange(i as int, units@.len() as int))
                == mutf8_encoding(units@),
        decreases units@.len() - i,
    {
        let ghost before = out@;
        let ghost rest = units@.subrange(i as int, units@.len() as int);
        let unit: u16 = units[i];
        if 0 < unit && unit < 0x80 {
            out.push(unit as u8);
        } else if unit < 0x800 {
            out.push((0xc0 + unit / 64) as u8);
            out.push((0x80 + unit % 64) as u8);
        } else {
            out.push((0xe0 + unit / 4096) as u8);
            out.push((0x80 + (unit / 64) % 64) as u8);
            out.push((0x80 + unit % 64) as u8);
        }
        proof {
            assert(rest[0] == unit);
            assert(rest.drop_first() =~= units@.subrange(i + 1, units@.len() as int));
            assert(out@ == before + mutf8_unit_bytes(unit));
            assert(before + mutf8_encoding(rest) == before + (mutf8_unit_bytes(unit)
                + mutf8_encoding(rest.drop_first())));
        }
        i += 1;
    }
    assert(out@ + Seq::<u8>::empty() =~= out@);
    out
}

/// Return length of string in UTF-16 code units.
pub fn utf16_len(units: &[u16]) -> (r: usize)
    ensures
        r == units@.len(),
{
    units.len()
}

/// The bytes of one code unit decode back to it, whatever follows them.
proof fn lemma_mutf8_unit_roundtrip(u: u16, rest: Seq<u8>)
    ensures
        ({
            let b = mutf8_unit_bytes(u);
            let s = b + rest;
            &&& 1 <= b.len() <= 3
            &&& mutf8_sequence(s) == Some((seq![u], b.len()))
            &&& s.subrange(b.len() as int, s.len() as int) == rest
        }),
{
    let b = mutf8_unit_bytes(u);
    let s = b + rest;
    assert(s.subrange(b.len() as int, s.len() as int) =~= rest);
    let x = u as int;
    if 0 < u < 0x80 {
        assert(s[0] == u as u8);
    } else if u < 0x800 {
        assert(s[0] == (0xc0 + x / 64) as u8);
        assert(s[1] == (0x80 + x % 64) as u8);
        if u == 0 {
            assert(s[0] == 0xc0 && s[1] == 0x80);
        } else {
            assert(x == 64 * (x / 64) + x % 64);
            assert((0xc0 + x / 64) % 32 == x / 64);
        }
    } else {
        let hi = x / 4096;
        let mid = (x / 64) % 64;
        let lo = x % 64;
        assert(x == 4096 * hi + 64 * mid + lo);
        assert(s[0] == (0xe0 + hi) as u8);
        assert(s[1] == (0x80 + mid) as u8);
        assert(s[2] == (0x80 + lo) as u8);
        assert((0xe0 + hi) % 16 == hi);
        assert(hi == 0 ==> mid >= 32);
    }
}

/// Modified UTF-8 written by `encode_mutf8` reads back as the same code units.
pub proof fn lemma_mutf8_units_roundtrip(units: Seq<u16>)
    ensures
        mutf8_units(mutf8_encoding(units)) == Some(units),
    decreases units.len(),
{
    if units.len() > 0 {
        let rest = mutf8_encoding(units.drop_first());
        lemma_mutf8_unit_roundtrip(units[0], rest);
        lemma_mutf8_units_roundtrip(units.drop_first());
        assert(seq![units[0]] + units.drop_first() =~= units);
    }
}

/// `decode_mutf8` undoes `encode_mutf8`: every sequence of UTF-16 code units,
/// lone surrogates and NUL included, comes back unchanged.
pub proof fn lemma_decode_encode_mutf8(units: Seq<u16>)
    ensures
        spec_decode_mutf8(mutf8_encoding(units)) == units,
{
    lemma_mutf8_units_roundtrip(units);
}

/// Encoding what `decode_mutf8` returned and decoding that again gives the
/// same code units.
pub proof fn lemma_decode_mutf8_stable(s: Seq<u8>)
    ensures
        spec_decode_mutf8(mutf8_encoding(spec_decode_mutf8(s))) == spec_decode_mutf8(s),
{
    lemma_decode_encode_mutf8(spec_decode_mutf8(s));
}

/// One Modified UTF-8 sequence that is neither a NUL byte nor four bytes
/// long holds one code unit, whose encoding is those very bytes.
proof fn lemma_mutf8_sequence_reencodes(s: Seq<u8>)
    requires
        s.len() > 0,
        s[0] != 0,
        s[0] < 0xf0,
        mutf8_sequence(s) is Some,
    ensures
        ({
            let (u, n) = mutf8_sequence(s)->0;
            &&& u.len() == 1
            &&& 1 <= n <= s.len()
            &&& mutf8_unit_bytes(u[0]) == s.subrange(0, n as int)
        }),
{
    let (u, n) = mutf8_sequence(s)->0;
    let b0 = s[0] as int;
    if b0 == 0xc0 {
        assert(mutf8_unit_bytes(u[0]) =~= s.subrange(0, 2));
    } else if b0 < 0x80 {
        assert(mutf8_unit_bytes(u[0]) =~= s.subrange(0, 1));
    } else if 0xc2 <= b0 <= 0xdf {
        let b1 = s[1] as int;
        let x = (b0 % 32) * 64 + b1 % 64;
        assert(x == u[0] as int);
        assert(x / 64 == b0 % 32 && x % 64 == b1 % 64) by (nonlinear_arith)
            requires
                x == (b0 % 32) * 64 + b1 % 64,
                0xc2 <= b0 <= 0xdf,
                0x80 <= b1 <= 0xbf,
        ;
        assert(0xc0 + b0 % 32 == b0 && 0x80 + b1 % 64 == b1);
        assert(mutf8_unit_bytes(u[0]) =~= s.subrange(0, 2));
    } else {
        let b1 = s[1] as int;
        let b2 = s[2] as int;
        let x = (b0 % 16) * 4096 + (b1 % 64) * 64 + b2 % 64;
        assert(x == u[0] as int);
        assert(x / 4096 == b0 % 16 && (x / 64) % 64 == b1 % 64 && x % 64 == b2 % 64) by (
        nonlinear_arith)
            requires
                x == (b0 % 16) * 4096 + (b1 % 64) * 64 + b2 % 64,
                0xe0 <= b0 <= 0xef,
                0x80 <= b1 <= 0xbf,
                0x80 <= b2 <= 0xbf,
        ;
        assert(b0 == 0xe0 ==> b1 >= 0xa0);
        assert(x >= 0x800);
        assert(0xe0 + b0 % 16 == b0 && 0x80 + b1 % 64 == b1 && 0x80 + b2 % 64 == b2);
        assert(mutf8_unit_bytes(u[0]) =~= s.subrange(0, 3));
    }
}

/// What the Modified UTF-8 reading accepts, when it holds no NUL byte and no
/// four-byte sequence, re-encodes byte for byte: NUL can only have come as
/// `C0 80`, and no sequence it accepts is overlong.
pub proof fn lemma_encode_decode_mutf8(s: Seq<u8>)
    requires
        forall|j: int| 0 <= j < s.len() ==> #[trigger] s[j] != 0 && s[j] < 0xf0,
        mutf8_units(s) is Some,
    ensures
        mutf8_encoding(mutf8_units(s)->0) == s,
        mutf8_encoding(spec_decode_mutf8(s)) == s,
    decreases s.len(),
{
    if s.len() > 0 {
        lemma_mutf8_sequence_reencodes(s);
        let (u, n) = mutf8_sequence(s)->0;
        let tail = s.subrange(n as int, s.len() as int);
        assert forall|j: int| 0 <= j < tail.len() implies #[trigger] tail[j] != 0 && tail[j]
            < 0xf0 by {
            assert(tail[j] == s[j + n]);
        }
        lemma_encode_decode_mutf8(tail);
        let rest = mutf8_units(tail)->0;
        let all = u + rest;
        assert(all[0] == u[0]);
        assert(all.drop_first() =~= rest);
        assert(s.subrange(0, n as int) + tail =~= s);
    } else {
        assert(s =~= Seq::<u8>::empty());
    }
}

/// ASCII without NUL survives decoding and encoding byte for byte.
pub proof fn lemma_ascii_roundtrip(s: Seq<u8>)
    requires
        forall|j: int| 0 <= j < s.len() ==> 0 < #[trigger] s[j] < 0x80,
    ensures
        mutf8_encoding(spec_decode_mutf8(s)) == s,
{
    lemma_ascii_mutf8(s);
    lemma_ascii_encoding(s);
}

proof fn lemma_ascii_encoding(s: Seq<u8>)
    requires
        forall|j: int| 0 <= j < s.len() ==> 0 < #[trigger] s[j] < 0x80,
    ensures
        mutf8_encoding(Seq::new(s.len(), |j: int| s[j] as u16)) == s,
    decreases s.len(),
{
    if s.len() > 0 {
        let u = Seq::new(s.len(), |j: int| s[j] as u16);
        let tail = s.drop_first();
        lemma_ascii_encoding(tail);
        assert(u.drop_first() =~= Seq::new(tail.len(), |j: int| tail[j] as u16));
        assert(seq![s[0]] + tail =~= s);
    }
}

} // verus!
