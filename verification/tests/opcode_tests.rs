use asc_core::opcode::{lookup_opcode, Format, IndexKind, VerifyFlags};

#[test]
fn test_opcodes_table_sanity() {
    // 0x00 is nop (len 1)
    let nop = lookup_opcode(0x00).expect("0x00 nop must be present");
    assert_eq!(nop.name, "nop");
    assert_eq!(nop.len, 1);
    assert_eq!(nop.verify.flag_names(), vec!["kVerifyNothing"]);

    // 0x01 is move (len 1, kVerifyRegA | kVerifyRegB)
    let mov = lookup_opcode(0x01).expect("0x01 move must be present");
    assert_eq!(mov.name, "move");
    assert_eq!(mov.len, 1);
    assert_eq!(mov.verify.flag_names(), vec!["kVerifyRegA", "kVerifyRegB"]);

    // 0x1a is const-string (len 2, string ref)
    let const_str = lookup_opcode(0x1a).expect("0x1a const-string must be present");
    assert_eq!(const_str.name, "const-string");
    assert_eq!(const_str.len, 2);

    // Unused byte (e.g. 0x3e) must be None
    assert!(lookup_opcode(0x3e).is_none());
}

#[test]
fn opcode_lengths_follow_formats() {
    let mut used = 0;
    for op in 0..=255u8 {
        if let Some(info) = lookup_opcode(op) {
            used += 1;
            let digit = info.fmt.as_str().as_bytes()[1] - b'0';
            assert_eq!(info.len, digit, "opcode {op:#04x}");
            assert!(!info.name.is_empty());
        }
    }
    assert_eq!(used, 224);
}

#[test]
fn opcode_unused_ranges() {
    for op in [0x3e, 0x3f, 0x40, 0x41, 0x42, 0x43, 0x73, 0x79, 0x7a, 0xe3, 0xf0, 0xf9] {
        assert!(lookup_opcode(op).is_none(), "opcode {op:#04x}");
    }
}

#[test]
fn opcode_index_kinds_and_formats() {
    let invoke = lookup_opcode(0x6e).unwrap();
    assert_eq!(invoke.name, "invoke-virtual");
    assert_eq!(invoke.fmt, Format::K35c);
    assert_eq!(invoke.idx, IndexKind::MethodRef);
    assert_eq!(invoke.idx.as_str(), "kIndexMethodRef");
    assert_eq!(
        invoke.verify.flag_names(),
        vec!["kVerifyRegBMethod", "kVerifyVarArgNonZero"]
    );
    let poly = lookup_opcode(0xfa).unwrap();
    assert_eq!(poly.fmt.as_str(), "k45cc");
    assert_eq!(poly.len, 4);
    assert_eq!(poly.idx, IndexKind::MethodAndProtoRef);
    let wide = lookup_opcode(0x18).unwrap();
    assert_eq!(wide.name, "const-wide");
    assert_eq!(wide.len, 5);
    assert_eq!(wide.fmt, Format::K51l);
    let cmt = lookup_opcode(0xff).unwrap();
    assert_eq!(cmt.idx.as_str(), "kIndexProtoRef");
    assert_eq!(IndexKind::NoIndex.as_str(), "kIndexNone");
}

#[test]
fn verify_flags_contains_and_names() {
    let flags = VerifyFlags((1 << 1) | (1 << 27));
    assert!(flags.contains(1 << 1));
    assert!(flags.contains((1 << 1) | (1 << 27)));
    assert!(!flags.contains(1 << 2));
    assert_eq!(flags.flag_names(), vec!["kVerifyRegA", "kVerifyRegBPrototype"]);
    assert!(VerifyFlags(0).flag_names().is_empty());
    // Bits past the named flags carry no name.
    assert!(VerifyFlags(1 << 30).flag_names().is_empty());
}

#[test]
fn opcode_table_covers_every_byte() {
    let table = asc_core::opcode::opcode_table();
    assert_eq!(table.len(), 256);
    assert_eq!(table[0].as_ref().unwrap().name, "nop");
    assert_eq!(table[0x1a].as_ref().unwrap().name, "const-string");
    assert!(table[0x3e].is_none());
    for op in 0..=255u8 {
        assert_eq!(table[op as usize], asc_core::opcode::lookup_opcode(op));
    }
}
