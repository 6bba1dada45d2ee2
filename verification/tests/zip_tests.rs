use asc_core::error::AscError;
use asc_core::zip::{
    decode_utf8_ignore, find_eocd, parse_cd_dex_entries, parse_cd_dex_entries_with_eocd, DexEntry,
    Eocd, CD_SIG, EOCD_SIG,
};

fn cd_record(name: &[u8], method: u16, comp: u32, uncomp: u32, lho: u32, extra: &[u8]) -> Vec<u8> {
    let mut r = Vec::new();
    r.extend_from_slice(&CD_SIG);
    r.extend_from_slice(&[20, 0, 20, 0, 0, 0]); // made by, needed, flags
    r.extend_from_slice(&method.to_le_bytes());
    r.extend_from_slice(&[0u8; 8]); // time, date, crc
    r.extend_from_slice(&comp.to_le_bytes());
    r.extend_from_slice(&uncomp.to_le_bytes());
    r.extend_from_slice(&(name.len() as u16).to_le_bytes());
    r.extend_from_slice(&(extra.len() as u16).to_le_bytes());
    r.extend_from_slice(&0u16.to_le_bytes()); // comment length
    r.extend_from_slice(&[0u8; 8]); // disk, internal and external attributes
    r.extend_from_slice(&lho.to_le_bytes());
    r.extend_from_slice(name);
    r.extend_from_slice(extra);
    r
}

fn eocd_record(count: u16, cd_size: u32, cd_off: u32) -> Vec<u8> {
    let mut r = Vec::new();
    r.extend_from_slice(&EOCD_SIG);
    r.extend_from_slice(&[0u8; 4]);
    r.extend_from_slice(&count.to_le_bytes());
    r.extend_from_slice(&count.to_le_bytes());
    r.extend_from_slice(&cd_size.to_le_bytes());
    r.extend_from_slice(&cd_off.to_le_bytes());
    r.extend_from_slice(&0u16.to_le_bytes());
    r
}

fn zip_with(prefix: &[u8], records: &[Vec<u8>]) -> Vec<u8> {
    let mut buf = prefix.to_vec();
    let cd_off = buf.len() as u32;
    let mut cd_size = 0u32;
    for r in records {
        buf.extend_from_slice(r);
        cd_size += r.len() as u32;
    }
    buf.extend_from_slice(&eocd_record(records.len() as u16, cd_size, cd_off));
    buf
}

#[test]
fn test_corrupt_apk_fixtures() {
    // 1. An empty archive.
    let empty_data: Vec<u8> = Vec::new();
    assert_eq!(find_eocd(&empty_data), Err(AscError::EocdNotFound));
    assert_eq!(parse_cd_dex_entries(&empty_data), Err(AscError::EocdNotFound));

    // 2. An end record cut short.
    let mut eocd_data = vec![0u8; 30];
    eocd_data[20..24].copy_from_slice(&EOCD_SIG);
    assert_eq!(find_eocd(&eocd_data), Err(AscError::BadEocdHeader));
    assert_eq!(parse_cd_dex_entries(&eocd_data), Err(AscError::BadEocdHeader));

    // 3. A central directory that runs past the end.
    let mut cd_data = vec![0u8; 8];
    cd_data.extend_from_slice(&eocd_record(1, 100, 4));
    assert_eq!(parse_cd_dex_entries(&cd_data), Err(AscError::BadCentralDirectoryRange));
}

#[test]
fn test_corpus_apk_zip_entries() {
    let data = zip_with(
        &[0u8; 16],
        &[cd_record(b"classes.dex", 0, 112, 112, 0, b""), cd_record(b"res/a.xml", 8, 5, 9, 50, b"")],
    );
    let entries = parse_cd_dex_entries(&data).expect("failed to parse entries");
    assert!(!entries.is_empty());
    assert_eq!(entries[0].name, "classes.dex");
    assert_eq!(entries[0].method, 0); // stored
}

#[test]
fn eocd_located_and_read() {
    let data = zip_with(&[1u8; 10], &[cd_record(b"classes.dex", 8, 3, 4, 0, b"")]);
    let eocd = find_eocd(&data).unwrap();
    assert_eq!(eocd, Eocd { offset: data.len() - 22, cd_size: 57, cd_off: 10 });
    // Short buffers and buffers without a signature have no end record.
    assert_eq!(find_eocd(&[0u8; 21]), Err(AscError::EocdNotFound));
    assert_eq!(find_eocd(&[0u8; 64]), Err(AscError::EocdNotFound));
}

#[test]
fn eocd_last_signature_wins() {
    // A signature inside a comment behind the real record is the one taken.
    let mut data = zip_with(&[], &[]);
    let mut comment = EOCD_SIG.to_vec();
    comment.extend_from_slice(&[0u8; 18]);
    data.extend_from_slice(&comment);
    let eocd = find_eocd(&data).unwrap();
    assert_eq!(eocd.offset, 22);
    assert_eq!(eocd.cd_size, 0);
    assert_eq!(eocd.cd_off, 0);
}

#[test]
fn eocd_beyond_search_window_not_found() {
    let mut data = eocd_record(0, 0, 0);
    data.extend_from_slice(&vec![0u8; 65536 + 22]);
    assert_eq!(find_eocd(&data), Err(AscError::EocdNotFound));
}

#[test]
fn classes_names_deduplicated_in_order() {
    let records = vec![
        cd_record(b"classes.dex", 8, 10, 20, 0, b""),
        cd_record(b"lib/x.so", 8, 1, 1, 5, b""),
        cd_record(b"classes2.dex", 0, 30, 30, 100, b"xy"),
        cd_record(b"classes.dex", 0, 7, 7, 200, b""),
        cd_record(b"assets/classes.dex", 0, 9, 9, 300, b""),
        cd_record(b"classes.txt", 0, 9, 9, 400, b""),
    ];
    let data = zip_with(&[0u8; 4], &records);
    let entries = parse_cd_dex_entries(&data).unwrap();
    assert_eq!(
        entries,
        vec![
            DexEntry {
                name: "classes.dex".to_string(),
                uncomp_size: 20,
                comp_size: 10,
                local_header_off: 0,
                method: 8,
            },
            DexEntry {
                name: "classes2.dex".to_string(),
                uncomp_size: 30,
                comp_size: 30,
                local_header_off: 100,
                method: 0,
            },
        ]
    );
}

#[test]
fn sequential_scan_keeps_duplicates() {
    let records = vec![
        cd_record(b"a.dex", 8, 1, 2, 3, b"e"),
        cd_record(b"dir/b.dex", 8, 1, 2, 3, b""),
        cd_record(b"a.dex", 0, 4, 5, 6, b""),
        cd_record(b"notes.txt", 0, 4, 5, 6, b""),
    ];
    let data = zip_with(&[], &records);
    let entries = parse_cd_dex_entries(&data).unwrap();
    assert_eq!(entries.len(), 2);
    assert_eq!(entries[0].name, "a.dex");
    assert_eq!((entries[0].comp_size, entries[0].uncomp_size, entries[0].local_header_off), (1, 2, 3));
    assert_eq!(entries[1].name, "a.dex");
    assert_eq!(entries[1].method, 0);
}

#[test]
fn sequential_scan_stops_at_bad_signature() {
    let mut bad = cd_record(b"b.dex", 0, 1, 1, 1, b"");
    bad[0] = 0;
    let records = vec![cd_record(b"a.dex", 0, 1, 1, 1, b""), bad, cd_record(b"c.dex", 0, 1, 1, 1, b"")];
    let data = zip_with(&[], &records);
    let entries = parse_cd_dex_entries(&data).unwrap();
    assert_eq!(entries.len(), 1);
    assert_eq!(entries[0].name, "a.dex");
}

#[test]
fn no_dex_entries_gives_empty_list() {
    let data = zip_with(&[], &[cd_record(b"AndroidManifest.xml", 8, 1, 1, 0, b"")]);
    assert_eq!(parse_cd_dex_entries(&data), Ok(vec![]));
}

#[test]
fn given_eocd_out_of_range_refused() {
    let data = zip_with(&[], &[cd_record(b"classes.dex", 0, 1, 1, 0, b"")]);
    let eocd = Eocd { offset: 0, cd_size: 10, cd_off: data.len() };
    assert_eq!(parse_cd_dex_entries_with_eocd(&data, &eocd), Err(AscError::BadCentralDirectoryRange));
    let eocd = find_eocd(&data).unwrap();
    assert_eq!(parse_cd_dex_entries_with_eocd(&data, &eocd).unwrap().len(), 1);
}

#[test]
fn decode_utf8_ignore_drops_invalid_sequences() {
    assert_eq!(decode_utf8_ignore(b"classes.dex"), "classes.dex");
    assert_eq!(decode_utf8_ignore(b"ab\xffcd"), "abcd");
    assert_eq!(decode_utf8_ignore(b"caf\xc3\xa9"), "caf\u{e9}");
    assert_eq!(decode_utf8_ignore(b"a\xe2\x82b"), "ab");
    assert_eq!(decode_utf8_ignore(b"\xe2\x82"), "");
    assert_eq!(decode_utf8_ignore(b"\xed\xa0\x80x"), "x");
    assert_eq!(decode_utf8_ignore(b"\xf0\x9f\x98\x80!"), "\u{1F600}!");
    assert_eq!(decode_utf8_ignore(b""), "");
}

#[test]
fn undecodable_name_bytes_are_dropped_from_entry_names() {
    let data = zip_with(&[], &[cd_record(b"classes\xff.dex", 0, 1, 1, 0, b"")]);
    let entries = parse_cd_dex_entries(&data).unwrap();
    assert_eq!(entries.len(), 1);
    assert_eq!(entries[0].name, "classes.dex");
}
