use asc_core::cancel::is_cancelled;
use asc_core::digest::{hex_lower, sha256_hex};
use asc_core::text::decimal_string;
use std::sync::atomic::AtomicBool;

#[test]
fn sha256_known_digests() {
    assert_eq!(
        sha256_hex(b"abc"),
        "ba7816bf8f01cfea414140de5dae2223b00361a396177a9cb410ff61f20015ad"
    );
    assert_eq!(
        sha256_hex(b""),
        "e3b0c44298fc1c149afbf4c8996fb92427ae41e4649b934ca495991b7852b855"
    );
}

#[test]
fn hex_is_lower_case_two_digits_per_byte() {
    assert_eq!(hex_lower(&[0x00, 0x0f, 0xab, 0xff, 0x10]), "000fabff10");
    assert_eq!(hex_lower(&[]), "");
}

#[test]
fn decimal_strings() {
    assert_eq!(decimal_string(0), "0");
    assert_eq!(decimal_string(7), "7");
    assert_eq!(decimal_string(10), "10");
    assert_eq!(decimal_string(1234567), "1234567");
    assert_eq!(decimal_string(usize::MAX), usize::MAX.to_string());
}

#[test]
fn cancellation_tokens() {
    assert!(!is_cancelled(None));
    let set = AtomicBool::new(true);
    assert!(is_cancelled(Some(&set)));
    let clear = AtomicBool::new(false);
    assert!(!is_cancelled(Some(&clear)));
}
