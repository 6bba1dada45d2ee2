use asc_core::mutf8::{decode_mutf8, encode_mutf8, utf16_len, DexStr};

#[test]
fn test_mutf8_contract_cases() {
    let emoji = "\u{1F600}";
    let emoji_mutf8 = b"\xed\xa0\xbd\xed\xb8\x80";
    let mixed_mutf8 = b"tok\xc0\x80en\xed\xa0\xbd\xed\xb8\x80\xc3\xa9";

    // abc -> 3 units
    let s_abc = decode_mutf8(b"abc");
    assert_eq!(encode_mutf8(&s_abc), b"abc");
    assert_eq!(s_abc.utf16_len(), 3);

    // a\0b -> a\xC0\x80b
    let s_nul = decode_mutf8(b"a\xc0\x80b");
    assert_eq!(encode_mutf8(&s_nul), b"a\xc0\x80b");
    assert_eq!(s_nul.as_slice(), &[b'a' as u16, 0x0000, b'b' as u16]);

    // emoji
    let s_emoji = decode_mutf8(emoji_mutf8);
    assert_eq!(encode_mutf8(&s_emoji), emoji_mutf8);
    assert_eq!(s_emoji.utf16_len(), 2);
    assert_eq!(s_emoji.to_string_lossy(), emoji);

    // mixed
    let s_mixed = decode_mutf8(mixed_mutf8);
    assert_eq!(encode_mutf8(&s_mixed), mixed_mutf8);
    assert_eq!(s_mixed.utf16_len(), 9);

    // malformed input replacement: b"\xff\xfe" -> "\u{FFFD}\u{FFFD}"
    let s_malformed = decode_mutf8(b"\xff\xfe");
    assert_eq!(s_malformed.as_slice(), &[0xfffd, 0xfffd]);
}

#[test]
fn mutf8_four_byte_utf8_becomes_surrogate_pair() {
    let s = decode_mutf8("\u{1F600}".as_bytes());
    assert_eq!(s.as_slice(), &[0xd83d, 0xde00]);
    // Re-encoding gives the CESU-8 form.
    assert_eq!(encode_mutf8(&s), b"\xed\xa0\xbd\xed\xb8\x80");
}

#[test]
fn mutf8_fallback_uses_maximal_subparts() {
    // A lone continuation byte and a truncated three-byte sequence.
    assert_eq!(decode_mutf8(b"a\x80b").as_slice(), &[0x61, 0xfffd, 0x62]);
    assert_eq!(decode_mutf8(b"x\xe2\x82").as_slice(), &[0x78, 0xfffd]);
    // C0 not followed by 80 is not Modified UTF-8: it falls back, and C0 is never well-formed.
    assert_eq!(decode_mutf8(b"\xc0\x41").as_slice(), &[0xfffd, 0x41]);
    // An overlong E0 sequence: E0 followed by 80 is ill-formed after one byte.
    assert_eq!(decode_mutf8(b"\xe0\x80\x80").as_slice(), &[0xfffd, 0xfffd, 0xfffd]);
    // A valid four-byte sequence next to a broken one still decodes.
    assert_eq!(
        decode_mutf8(b"\xf0\x9f\x98\x80\xff").as_slice(),
        &[0xd83d, 0xde00, 0xfffd]
    );
}

#[test]
fn mutf8_roundtrip_of_units() {
    let cases: Vec<Vec<u16>> = vec![
        vec![],
        vec![0],
        vec![0x7f, 0x80, 0x7ff, 0x800, 0xffff],
        vec![0xd800],
        vec![0xdc00, 0xd800],
        vec![0x41, 0, 0xd83d, 0xde00, 0xe9],
    ];
    for units in cases {
        let encoded = encode_mutf8(&units);
        assert_eq!(decode_mutf8(&encoded).as_slice(), units.as_slice());
    }
}

#[test]
fn mutf8_encoding_bytes() {
    assert_eq!(encode_mutf8(&[0]), vec![0xc0, 0x80]);
    assert_eq!(encode_mutf8(&[0x41]), vec![0x41]);
    assert_eq!(encode_mutf8(&[0xe9]), vec![0xc3, 0xa9]);
    assert_eq!(encode_mutf8(&[0x20ac]), vec![0xe2, 0x82, 0xac]);
    assert_eq!(encode_mutf8(&[0xd83d]), vec![0xed, 0xa0, 0xbd]);
}

#[test]
fn mutf8_ascii_roundtrip() {
    let s = b"Lcom/example_app-01/Main;";
    assert_eq!(encode_mutf8(&decode_mutf8(s)), s);
}

#[test]
fn mutf8_decode_is_stable() {
    let inputs: [&[u8]; 4] = [b"\xff\xfe", b"a\xc0\x80", b"\xed\xa0\xbd", b"\xf4\x90\x80\x80"];
    for input in inputs {
        let once = decode_mutf8(input);
        let twice = decode_mutf8(&encode_mutf8(&once));
        assert_eq!(once, twice);
    }
}

#[test]
fn dex_str_accessors() {
    let s = DexStr::new(vec![0x41, 0xd800, 0x42]);
    assert_eq!(s.utf16_len(), 3);
    assert_eq!(utf16_len(s.as_slice()), 3);
    assert_eq!(s.to_string_lossy(), "A\u{fffd}B");
}

#[test]
fn mutf8_accepted_bytes_reencode_unchanged() {
    // NUL as C0 80, two- and three-byte sequences, a lone surrogate.
    let cases: [&[u8]; 4] = [
        b"x\xc0\x80y",
        b"\xc3\xa9t\xc3\xa9",
        b"\xe0\xa0\x80\xef\xbf\xbf",
        b"\xed\xa0\x80z",
    ];
    for bytes in cases {
        assert_eq!(encode_mutf8(&decode_mutf8(bytes)), bytes.to_vec());
    }
    // A four-byte sequence comes back as a surrogate pair of six bytes.
    assert_eq!(encode_mutf8(&decode_mutf8(b"\xf0\x9f\x98\x80")), b"\xed\xa0\xbd\xed\xb8\x80".to_vec());
}
