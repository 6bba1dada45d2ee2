use asc_core::error::AscError;
use asc_core::inflate::inflate_entry;
use asc_core::zip::{DexEntry, LH_SIG};
use flate2::write::DeflateEncoder;
use flate2::Compression;
use std::io::Write;
use std::sync::atomic::AtomicBool;

#[test]
fn test_inflate_synthetic_roundtrip_and_errors() {
    let payload = b"The quick brown fox jumps over the lazy dog. 0123456789";
    let mut encoder = DeflateEncoder::new(Vec::new(), Compression::default());
    encoder.write_all(payload).unwrap();
    let compressed = encoder.finish().unwrap();

    let mut zip_buf = Vec::new();
    // Local header at offset 0
    zip_buf.extend_from_slice(&LH_SIG);
    zip_buf.extend_from_slice(&[0u8; 22]); // version, flags, method, time, crc, comp_size, uncomp_size
    let name = b"classes.dex";
    zip_buf.extend_from_slice(&(name.len() as u16).to_le_bytes()); // name_len
    zip_buf.extend_from_slice(&0u16.to_le_bytes()); // extra_len
    zip_buf.extend_from_slice(name);
    // Data
    zip_buf.extend_from_slice(&compressed);

    let entry = DexEntry {
        name: "classes.dex".to_string(),
        uncomp_size: payload.len() as u32,
        comp_size: compressed.len() as u32,
        local_header_off: 0,
        method: 8,
    };

    // 1. Success
    let decomp = inflate_entry(&zip_buf, &entry, None).unwrap().unwrap();
    assert_eq!(decomp, payload);

    // 2. Size mismatch
    let mut bad_size_entry = entry.clone();
    bad_size_entry.uncomp_size = payload.len() as u32 + 10;
    assert_eq!(
        inflate_entry(&zip_buf, &bad_size_entry, None),
        Err(AscError::SizeMismatch {
            expected: payload.len() as u32 + 10,
            got: payload.len(),
        })
    );

    // 3. Bad local header signature
    let mut bad_sig_entry = entry.clone();
    bad_sig_entry.local_header_off = 10;
    assert_eq!(
        inflate_entry(&zip_buf, &bad_sig_entry, None),
        Err(AscError::BadLocalHeaderSignature)
    );

    // 4. Corrupt deflate stream
    let mut corrupt_buf = zip_buf.clone();
    let data_start = 30 + name.len();
    corrupt_buf[data_start..data_start + 10].fill(0xff);
    assert!(matches!(
        inflate_entry(&corrupt_buf, &entry, None),
        Err(AscError::CorruptDeflateStream(_))
    ));
}

fn local_entry(name: &[u8], extra: &[u8], data: &[u8]) -> Vec<u8> {
    let mut buf = Vec::new();
    buf.extend_from_slice(&LH_SIG);
    buf.extend_from_slice(&[0u8; 22]);
    buf.extend_from_slice(&(name.len() as u16).to_le_bytes());
    buf.extend_from_slice(&(extra.len() as u16).to_le_bytes());
    buf.extend_from_slice(name);
    buf.extend_from_slice(extra);
    buf.extend_from_slice(data);
    buf
}

#[test]
fn inflate_stored_entry_copies_its_bytes() {
    let data = b"dex\n035\0rest of the file";
    let mut buf = vec![0xaa; 5];
    buf.extend_from_slice(&local_entry(b"classes.dex", b"xy", data));
    let entry = DexEntry {
        name: "classes.dex".to_string(),
        uncomp_size: data.len() as u32,
        comp_size: data.len() as u32,
        local_header_off: 5,
        method: 0,
    };
    assert_eq!(inflate_entry(&buf, &entry, None).unwrap().unwrap(), data);
    // Size 0 in the central directory means not given.
    let mut no_size = entry.clone();
    no_size.uncomp_size = 0;
    assert_eq!(inflate_entry(&buf, &no_size, None).unwrap().unwrap(), data);
    // A token that is already set stops the copy.
    let cancel = AtomicBool::new(true);
    assert_eq!(inflate_entry(&buf, &entry, Some(&cancel)).unwrap(), None);
    let go = AtomicBool::new(false);
    assert_eq!(inflate_entry(&buf, &entry, Some(&go)).unwrap().unwrap(), data);
}

#[test]
fn inflate_range_and_method_errors() {
    let data = b"0123456789";
    let buf = local_entry(b"a.dex", b"", data);
    let entry = DexEntry {
        name: "a.dex".to_string(),
        uncomp_size: 10,
        comp_size: 10,
        local_header_off: 0,
        method: 0,
    };
    let mut too_long = entry.clone();
    too_long.comp_size = 11;
    assert_eq!(inflate_entry(&buf, &too_long, None), Err(AscError::BadCompressedDataRange));
    let mut other = entry.clone();
    other.method = 12;
    assert_eq!(inflate_entry(&buf, &other, None), Err(AscError::UnsupportedCompressionMethod(12)));
    let mut beyond = entry.clone();
    beyond.local_header_off = u32::MAX;
    assert_eq!(inflate_entry(&buf, &beyond, None), Err(AscError::BadLocalHeaderSignature));
    assert_eq!(inflate_entry(&buf[..29], &entry, None), Err(AscError::BadLocalHeaderSignature));
}

#[test]
fn inflate_deflated_cancel_token() {
    let payload = vec![7u8; 4096];
    let mut encoder = DeflateEncoder::new(Vec::new(), Compression::default());
    encoder.write_all(&payload).unwrap();
    let compressed = encoder.finish().unwrap();
    let buf = local_entry(b"classes.dex", b"", &compressed);
    let entry = DexEntry {
        name: "classes.dex".to_string(),
        uncomp_size: 0,
        comp_size: compressed.len() as u32,
        local_header_off: 0,
        method: 8,
    };
    let cancel = AtomicBool::new(true);
    assert_eq!(inflate_entry(&buf, &entry, Some(&cancel)).unwrap(), None);
    assert_eq!(inflate_entry(&buf, &entry, None).unwrap().unwrap(), payload);
    // A truncated stream never reaches its end.
    let mut short = entry.clone();
    short.comp_size = (compressed.len() / 2) as u32;
    assert_eq!(
        inflate_entry(&buf, &short, None),
        Err(AscError::CorruptDeflateStream("classes.dex".to_string()))
    );
}

/// An APK of one entry named `classes.dex` holding `payload`, stored or deflated.
fn one_entry_apk(payload: &[u8], deflated: bool) -> Vec<u8> {
    let data = if deflated {
        let mut encoder = DeflateEncoder::new(Vec::new(), Compression::default());
        encoder.write_all(payload).unwrap();
        encoder.finish().unwrap()
    } else {
        payload.to_vec()
    };
    let name = b"classes.dex";
    let method: u16 = if deflated { 8 } else { 0 };
    let mut buf = local_entry(name, b"", &data);
    let cd_off = buf.len() as u32;
    let mut cd = Vec::new();
    cd.extend_from_slice(&asc_core::zip::CD_SIG);
    cd.extend_from_slice(&[20, 0, 20, 0, 0, 0]);
    cd.extend_from_slice(&method.to_le_bytes());
    cd.extend_from_slice(&[0u8; 8]);
    cd.extend_from_slice(&(data.len() as u32).to_le_bytes());
    cd.extend_from_slice(&(payload.len() as u32).to_le_bytes());
    cd.extend_from_slice(&(name.len() as u16).to_le_bytes());
    cd.extend_from_slice(&[0u8; 12]);
    cd.extend_from_slice(&0u32.to_le_bytes());
    cd.extend_from_slice(name);
    buf.extend_from_slice(&cd);
    buf.extend_from_slice(&asc_core::zip::EOCD_SIG);
    buf.extend_from_slice(&[0, 0, 0, 0, 1, 0, 1, 0]);
    buf.extend_from_slice(&(cd.len() as u32).to_le_bytes());
    buf.extend_from_slice(&cd_off.to_le_bytes());
    buf.extend_from_slice(&0u16.to_le_bytes());
    buf
}

fn dex_like_payload() -> Vec<u8> {
    let mut p = b"dex\n035\0".to_vec();
    p.extend((0..600u32).map(|i| (i % 251) as u8));
    p
}

#[test]
fn test_inflate_stored_and_deflated_from_corpus() {
    for deflated in [false, true] {
        let data = one_entry_apk(&dex_like_payload(), deflated);
        let entries = asc_core::zip::parse_cd_dex_entries(&data).unwrap();
        let inflated = inflate_entry(&data, &entries[0], None).unwrap().unwrap();
        assert_eq!(inflated.len() as u32, entries[0].uncomp_size);
        assert!(inflated.starts_with(b"dex\n"));
        assert_eq!(inflated, dex_like_payload());
    }
}

#[test]
fn test_inflate_cancel_token() {
    let data = one_entry_apk(&dex_like_payload(), true);
    let entries = asc_core::zip::parse_cd_dex_entries(&data).unwrap();
    let cancel = AtomicBool::new(true); // already cancelled
    let res = inflate_entry(&data, &entries[0], Some(&cancel)).unwrap();
    assert_eq!(res, None);
}

#[test]
fn inflate_deflated_ignores_bytes_after_the_stream() {
    let payload = b"abcabcabcabcabcabc-the end".to_vec();
    let mut encoder = DeflateEncoder::new(Vec::new(), Compression::best());
    encoder.write_all(&payload).unwrap();
    let mut data = encoder.finish().unwrap();
    data.extend_from_slice(b"trailing junk");
    let buf = local_entry(b"classes.dex", b"", &data);
    let entry = DexEntry {
        name: "classes.dex".to_string(),
        uncomp_size: payload.len() as u32,
        comp_size: data.len() as u32,
        local_header_off: 0,
        method: 8,
    };
    assert_eq!(inflate_entry(&buf, &entry, None).unwrap().unwrap(), payload);
    // An empty stream never reaches its end.
    let mut empty = entry.clone();
    empty.comp_size = 0;
    assert_eq!(
        inflate_entry(&buf, &empty, None),
        Err(AscError::CorruptDeflateStream("classes.dex".to_string()))
    );
}

#[test]
fn inflate_deflated_across_several_chunks() {
    // Stored deflate blocks keep the input larger than one 512 KiB chunk.
    let mut payload = Vec::new();
    let mut x: u32 = 12345;
    for _ in 0..700_000 {
        x = x.wrapping_mul(1_103_515_245).wrapping_add(12_345);
        payload.push((x >> 16) as u8);
    }
    let mut encoder = DeflateEncoder::new(Vec::new(), Compression::none());
    encoder.write_all(&payload).unwrap();
    let data = encoder.finish().unwrap();
    assert!(data.len() > 524_288);
    let buf = local_entry(b"classes2.dex", b"", &data);
    let entry = DexEntry {
        name: "classes2.dex".to_string(),
        uncomp_size: payload.len() as u32,
        comp_size: data.len() as u32,
        local_header_off: 0,
        method: 8,
    };
    assert_eq!(inflate_entry(&buf, &entry, None).unwrap().unwrap(), payload);
}
