//! Building strings from ASCII bytes: decimal numbers and hexadecimal digests.
use crate::unicode::string_from_utf8;
use vstd::prelude::*;
use vstd::utf8::*;

verus! {

/// The ASCII characters of `b`.
pub open spec fn ascii_chars(b: Seq<u8>) -> Seq<char> {
    Seq::new(b.len(), |i: int| b[i] as char)
}

/// ASCII bytes are well-formed UTF-8 and decode one character per byte.
pub proof fn lemma_ascii_utf8(b: Seq<u8>)
    requires
        forall|i: int| 0 <= i < b.len() ==> #[trigger] b[i] < 0x80,
    ensures
        valid_utf8(b),
        decode_utf8(b) == ascii_chars(b),
    decreases b.len(),
{
    if b.len() > 0 {
        let b0 = b[0];
        assert((b0 & 0x7f) as u32 == b0 as u32) by (bit_vector)
            requires
                b0 < 0x80,
        ;
        let tail = pop_first_scalar(b);
        assert(tail =~= b.subrange(1, b.len() as int));
        lemma_ascii_utf8(tail);
        assert(seq![b0 as char] + ascii_chars(tail) =~= ascii_chars(b));
    }
}

/// A string made of ASCII bytes.
pub(crate) fn ascii_string(b: Vec<u8>) -> (r: String)
    requires
        forall|i: int| 0 <= i < b@.len() ==> #[trigger] b@[i] < 0x80,
    ensures
        r@ == ascii_chars(b@),
{
    proof {
        lemma_ascii_utf8(b@);
    }
    string_from_utf8(b)
}

/// The ASCII digits of `n` in decimal, without leading zeros.
pub open spec fn decimal_digits(n: nat) -> Seq<u8>
    decreases n,
{
    if n < 10 {
        seq![(0x30 + n) as u8]
    } else {
        decimal_digits(n / 10).push((0x30 + n % 10) as u8)
    }
}

pub proof fn lemma_decimal_digits_ascii(n: nat)
    ensures
        forall|i: int| 0 <= i < decimal_digits(n).len() ==> #[trigger] decimal_digits(n)[i] < 0x80,
        1 <= decimal_digits(n).len(),
    decreases n,
{
    if n >= 10 {
        lemma_decimal_digits_ascii(n / 10);
    }
}

/// `n` written in decimal.
pub fn decimal_string(n: usize) -> (r: String)
    ensures
        r@ == ascii_chars(decimal_digits(n as nat)),
{
    let mut digits: Vec<u8> = Vec::new();
    let mut rest: usize = n;
    // Digits come out least significant first.
    while rest >= 10
        invariant
            decimal_digits(n as nat) == decimal_digits(rest as nat) + digits@.reverse(),
        decreases rest,
    {
        let ghost before = digits@;
        digits.push((0x30 + rest % 10) as u8);
        proof {
            assert(decimal_digits(rest as nat) == decimal_digits((rest / 10) as nat).push(
                (0x30 + rest % 10) as u8,
            ));
            assert(digits@.reverse() =~= seq![(0x30 + rest % 10) as u8] + before.reverse());
            assert(decimal_digits((rest / 10) as nat).push((0x30 + rest % 10) as u8)
                + before.reverse() =~= decimal_digits((rest / 10) as nat) + digits@.reverse());
        }
        rest = rest / 10;
    }
    let ghost before = digits@;
    digits.push((0x30 + rest) as u8);
    proof {
        assert(digits@.reverse() =~= seq![(0x30 + rest) as u8] + before.reverse());
        assert(decimal_digits(n as nat) =~= digits@.reverse());
    }
    let mut out: Vec<u8> = Vec::new();
    let mut i: usize = digits.len();
    while i > 0
        invariant
            i <= digits@.len(),
            out@ == digits@.reverse().subrange(0, digits@.len() - i),
        decreases i,
    {
        i -= 1;
        out.push(digits[i]);
        proof {
            assert(out@ =~= digits@.reverse().subrange(0, digits@.len() - i));
        }
    }
    proof {
        assert(out@ =~= decimal_digits(n as nat));
        lemma_decimal_digits_ascii(n as nat);
    }
    ascii_string(out)
}

} // verus!
