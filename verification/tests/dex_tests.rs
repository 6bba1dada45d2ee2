use asc_core::dex::{
    class_defs_contains_type_idx_raw, dex041_logical_offsets, dex_defines_class_raw,
    find_type_idx_raw, is_dex041_container, iter_logical_dex_buffers, normalize_dex041_logical,
    parse_descriptor, read_string_data_bytes, Dex, FieldInfo, MethodInfo, TypeKind,
};
use asc_core::error::AscError;
use asc_core::mutf8::decode_mutf8;

fn uleb(mut v: u32, out: &mut Vec<u8>) {
    loop {
        let b = (v & 0x7f) as u8;
        v >>= 7;
        if v == 0 {
            out.push(b);
            return;
        }
        out.push(b | 0x80);
    }
}

fn put_u32(buf: &mut [u8], off: usize, v: u32) {
    buf[off..off + 4].copy_from_slice(&v.to_le_bytes());
}

fn align4(buf: &mut Vec<u8>) {
    while buf.len() % 4 != 0 {
        buf.push(0);
    }
}

struct Layout {
    code1: usize,
    code2: usize,
    class_data: usize,
    string_data: Vec<usize>,
}

/// A small DEX file: one class `Lexample/Test;` extending `Ljava/lang/Object;`,
/// with one instance field and two direct methods that have code.
fn build_dex(magic: &[u8; 8]) -> (Vec<u8>, Layout) {
    let strings: [&[u8]; 5] = [b"Lexample/Test;", b"Ljava/lang/Object;", b"V", b"<init>", b"main"];
    let mut buf = vec![0u8; 0x70];
    buf[..8].copy_from_slice(magic);

    let string_ids = buf.len();
    buf.resize(string_ids + 4 * strings.len(), 0);
    let type_ids = buf.len();
    for s in 0..3u32 {
        buf.extend_from_slice(&s.to_le_bytes());
    }
    let proto_ids = buf.len();
    buf.resize(proto_ids + 24, 0);
    let field_ids = buf.len();
    buf.extend_from_slice(&0u16.to_le_bytes());
    buf.extend_from_slice(&1u16.to_le_bytes());
    buf.extend_from_slice(&4u32.to_le_bytes());
    let method_ids = buf.len();
    for name in [3u32, 4u32] {
        buf.extend_from_slice(&0u16.to_le_bytes());
        buf.extend_from_slice(&0u16.to_le_bytes());
        buf.extend_from_slice(&name.to_le_bytes());
    }
    let class_defs = buf.len();
    buf.resize(class_defs + 32, 0);

    // Parameter list of the second prototype: one parameter of type 1.
    let type_list = buf.len();
    buf.extend_from_slice(&1u32.to_le_bytes());
    buf.extend_from_slice(&1u16.to_le_bytes());
    align4(&mut buf);

    let code1 = buf.len();
    for v in [1u16, 1, 1, 0] {
        buf.extend_from_slice(&v.to_le_bytes());
    }
    buf.extend_from_slice(&0u32.to_le_bytes());
    buf.extend_from_slice(&3u32.to_le_bytes());
    buf.extend_from_slice(&[0x70, 0x10, 0x00, 0x00, 0x0e, 0x00]);
    align4(&mut buf);
    let code2 = buf.len();
    for v in [1u16, 1, 0, 0] {
        buf.extend_from_slice(&v.to_le_bytes());
    }
    buf.extend_from_slice(&0u32.to_le_bytes());
    buf.extend_from_slice(&3u32.to_le_bytes());
    buf.extend_from_slice(&[0x12, 0x00, 0x00, 0x00, 0x0e, 0x00]);

    let class_data = buf.len();
    for v in [0u32, 1, 2, 0] {
        uleb(v, &mut buf);
    }
    for v in [0u32, 2] {
        uleb(v, &mut buf);
    }
    for v in [0u32, 0x10001, code1 as u32, 1, 9, code2 as u32] {
        uleb(v, &mut buf);
    }

    let mut string_data = Vec::new();
    for (i, s) in strings.iter().enumerate() {
        let off = buf.len();
        string_data.push(off);
        put_u32(&mut buf, string_ids + 4 * i, off as u32);
        uleb(s.len() as u32, &mut buf);
        buf.extend_from_slice(s);
        buf.push(0);
    }

    // Prototypes: ()V and (Ljava/lang/Object;)V.
    put_u32(&mut buf, proto_ids, 2);
    put_u32(&mut buf, proto_ids + 4, 2);
    put_u32(&mut buf, proto_ids + 12, 2);
    put_u32(&mut buf, proto_ids + 16, 2);
    put_u32(&mut buf, proto_ids + 20, type_list as u32);

    put_u32(&mut buf, class_defs, 0);
    put_u32(&mut buf, class_defs + 4, 1);
    put_u32(&mut buf, class_defs + 8, 1);
    put_u32(&mut buf, class_defs + 16, 0xffff_ffff);
    put_u32(&mut buf, class_defs + 24, class_data as u32);

    let len = buf.len() as u32;
    put_u32(&mut buf, 0x20, len);
    put_u32(&mut buf, 0x24, 0x70);
    put_u32(&mut buf, 0x28, 0x1234_5678);
    for (at, size, off) in [
        (0x38, 5u32, string_ids),
        (0x40, 3, type_ids),
        (0x48, 2, proto_ids),
        (0x50, 1, field_ids),
        (0x58, 2, method_ids),
        (0x60, 1, class_defs),
    ] {
        put_u32(&mut buf, at, size);
        put_u32(&mut buf, at + 4, off as u32);
    }
    (buf, Layout { code1, code2, class_data, string_data })
}

fn get_minimal_dex_bytes() -> Vec<u8> {
    build_dex(b"dex\n035\0").0
}

#[test]
fn test_dex_header_and_tables() {
    let dex_buf = get_minimal_dex_bytes();
    let dex = Dex::new(&dex_buf).expect("failed to parse dex header");

    assert!(dex.header.strings.1 > 0);
    assert!(dex.header.types.1 > 0);
    assert!(dex.header.classes.1 > 0);

    let str0 = dex.get_string(0).expect("failed to get string 0");
    assert_eq!(str0.to_string_lossy(), "Lexample/Test;");

    let (str_idx, type0) = dex.get_type(0).expect("failed to get type 0");
    assert_eq!(str_idx, 0);
    assert_eq!(type0.kind, TypeKind::Class);
    assert_eq!(type0.dim, 0);
    assert_eq!(type0.descriptor.to_string_lossy(), "Lexample/Test;");
}

#[test]
fn test_dex_classes_and_code_items() {
    let dex_buf = get_minimal_dex_bytes();
    let dex = Dex::new(&dex_buf).expect("failed to parse dex");

    let cls0 = dex.get_class(0).expect("failed to get class 0");
    assert_eq!(cls0.fullname.to_string_lossy(), "Lexample/Test;");
    assert_eq!(cls0.direct_methods.len(), 2);

    let method0 = &cls0.direct_methods[0];
    let code_off = method0[2] as usize;
    assert!(code_off > 0);

    let code_item = dex.get_code_item(code_off).expect("failed to get code item");
    assert_eq!(code_item.registers_size, 1);
    assert_eq!(code_item.insns_size, 3);
    assert_eq!(code_item.insns_bytes.len(), 6);
}

#[test]
fn test_dex_find_and_defines_class() {
    let dex_buf = get_minimal_dex_bytes();
    let dex = Dex::new(&dex_buf).expect("failed to parse dex");

    assert_eq!(dex.find_class("Lexample/Test;").unwrap(), Some(0));
    assert!(dex.defines_class(b"Lexample/Test;").unwrap());

    assert_eq!(dex.find_class("Lnonexistent/Cls;").unwrap(), None);
    assert!(!dex.defines_class(b"Lnonexistent/Cls;").unwrap());
    assert_eq!(dex.find_class("Ldoes/not/Exist;").unwrap(), None);
    assert!(!dex.defines_class(b"Ldoes/not/Exist;").unwrap());
}

#[test]
fn test_dex_descriptor_parser() {
    let dex_buf = get_minimal_dex_bytes();
    let dex = Dex::new(&dex_buf).unwrap();

    let (_idx, void_type) = dex.get_type(2).unwrap();
    assert_eq!(void_type.kind, TypeKind::Primitive(0));
    assert_eq!(void_type.dim, 0);
    assert_eq!(void_type.primitive_value, Some(0));

    let array_desc = decode_mutf8(b"[[I");
    let array_type = parse_descriptor(&array_desc);
    assert_eq!(array_type.kind, TypeKind::Array);
    assert_eq!(array_type.dim, 2);
    assert_eq!(array_type.primitive_value, None);
}

#[test]
fn test_dex_corrupt_inputs() {
    let short_buf = [0u8; 10];
    assert_eq!(Dex::new(&short_buf).err(), Some(AscError::BadDexMagicOrHeaderSize));

    let mut bad_magic = [0u8; 0x70];
    bad_magic[..3].copy_from_slice(b"foo");
    assert_eq!(Dex::new(&bad_magic).err(), Some(AscError::BadDexMagicOrHeaderSize));

    let dex_buf = get_minimal_dex_bytes();
    let dex = Dex::new(&dex_buf).unwrap();
    assert_eq!(dex.get_string(9999).err(), Some(AscError::BadStringIdsRange));
}

#[test]
fn test_dex041_container_detection() {
    let dex_buf = get_minimal_dex_bytes();
    assert!(!is_dex041_container(&dex_buf));
    assert_eq!(dex041_logical_offsets(&dex_buf), vec![0]);

    let (one, _) = build_dex(b"dex\n041\0");
    let mut inflated = one.clone();
    inflated.extend_from_slice(&one);
    assert!(is_dex041_container(&inflated));
    let offsets = dex041_logical_offsets(&inflated);
    assert!(offsets.len() > 1);
}

#[test]
fn header_fields_read_little_endian() {
    let (buf, _) = build_dex(b"dex\n035\0");
    let dex = Dex::new(&buf).unwrap();
    assert_eq!(dex.header.strings, (0x70, 5));
    assert_eq!(dex.header.types, (0x84, 3));
    assert_eq!(dex.header.prototypes, (0x90, 2));
    assert_eq!(dex.header.fields, (0xa8, 1));
    assert_eq!(dex.header.methods, (0xb0, 2));
    assert_eq!(dex.header.classes, (0xc0, 1));
    assert_eq!(dex.header.map_off, 0);
}

#[test]
fn strings_and_string_offsets() {
    let (buf, layout) = build_dex(b"dex\n035\0");
    let dex = Dex::new(&buf).unwrap();
    assert_eq!(dex.get_string_bytes(3).unwrap(), b"<init>");
    assert_eq!(dex.get_string(4).unwrap().to_string_lossy(), "main");
    assert_eq!(dex.get_string_data_off(1).unwrap(), layout.string_data[1]);
    assert_eq!(dex.get_string_data_off(5), Err(AscError::BadStringIdsRange));
    assert_eq!(read_string_data_bytes(&buf, layout.string_data[2]).unwrap(), b"V");
    assert_eq!(read_string_data_bytes(&buf, buf.len()), Err(AscError::BadStringDataOff));
    // The last string's terminator cut off.
    let cut = &buf[..buf.len() - 1];
    assert_eq!(read_string_data_bytes(cut, layout.string_data[4]), Err(AscError::UnterminatedStringDataItem));
}

#[test]
fn prototypes_fields_and_methods() {
    let (buf, _) = build_dex(b"dex\n035\0");
    let dex = Dex::new(&buf).unwrap();
    let p0 = dex.get_prototype(0).unwrap();
    assert_eq!((p0.shorty_idx, p0.return_type_idx, p0.parameters_off), (2, 2, 0));
    assert!(p0.param_type_idxs.is_empty());
    let p1 = dex.get_prototype(1).unwrap();
    assert_eq!(p1.param_type_idxs, vec![1]);
    assert_eq!(dex.get_prototype(2), Err(AscError::BadProtoIdsRange));

    assert_eq!(
        dex.get_field(0).unwrap(),
        FieldInfo { index: 0, class_idx: 0, type_idx: 1, name_idx: 4, access_flags: 0, is_static: false }
    );
    assert_eq!(dex.get_field(1), Err(AscError::BadFieldIdsRange));
    assert_eq!(
        dex.get_method(1).unwrap(),
        MethodInfo {
            index: 1,
            class_idx: 0,
            proto_idx: 0,
            name_idx: 4,
            access_flags: 0,
            code_off: 0,
            is_direct: false,
            is_virtual: false,
        }
    );
    assert_eq!(dex.get_method(2), Err(AscError::BadMethodIdsRange));
}

#[test]
fn class_data_decoded() {
    let (buf, layout) = build_dex(b"dex\n035\0");
    let dex = Dex::new(&buf).unwrap();
    let cls = dex.get_class(0).unwrap();
    assert_eq!(cls.class_idx, 0);
    assert_eq!(cls.class_def_off, 0xc0);
    assert_eq!(cls.class_data_off as usize, layout.class_data);
    assert!(cls.static_fields.is_empty());
    assert_eq!(cls.instance_fields, vec![[0, 2]]);
    assert_eq!(cls.direct_methods, vec![[0, 0x10001, layout.code1 as u32], [1, 9, layout.code2 as u32]]);
    assert!(cls.virtual_methods.is_empty());
    assert_eq!(cls.all_methods.len(), 2);
    assert_eq!(cls.all_methods[1].index, 1);
    assert_eq!(cls.all_methods[1].access_flags, 9);
    assert_eq!(cls.all_methods[1].code_off as usize, layout.code2);
    assert!(cls.all_methods[1].is_direct);
    assert!(!cls.all_methods[1].is_virtual);
    assert_eq!(dex.get_class(1), Err(AscError::BadClassDefsRange));

    let code = dex.get_code_item(layout.code2).unwrap();
    assert_eq!((code.ins_size, code.outs_size, code.tries_size, code.debug_info_off), (1, 0, 0, 0));
    assert_eq!(code.insns_bytes, &[0x12, 0x00, 0x00, 0x00, 0x0e, 0x00]);
    assert_eq!(dex.get_code_item(buf.len() - 8).err(), Some(AscError::BadCodeItemOffset));
}

#[test]
fn types_out_of_range() {
    let (mut buf, _) = build_dex(b"dex\n035\0");
    {
        let dex = Dex::new(&buf).unwrap();
        assert_eq!(dex.get_type(3).err(), Some(AscError::BadTypeIdsRange));
        assert_eq!(dex.get_type(1).unwrap().1.descriptor.to_string_lossy(), "Ljava/lang/Object;");
    }
    // A type pointing past the string table.
    put_u32(&mut buf, 0x84 + 4, 7);
    let dex = Dex::new(&buf).unwrap();
    assert_eq!(dex.get_type(1).err(), Some(AscError::BadStringIdsRange));
}

#[test]
fn type_search_by_bytes() {
    let (mut buf, _) = build_dex(b"dex\n035\0");
    assert_eq!(find_type_idx_raw(&buf, b"V").unwrap(), Some(2));
    assert_eq!(find_type_idx_raw(&buf, b"Ljava/lang/Object;").unwrap(), Some(1));
    assert_eq!(find_type_idx_raw(&buf, b"A").unwrap(), None);
    assert_eq!(find_type_idx_raw(&buf, b"Z").unwrap(), None);
    assert_eq!(find_type_idx_raw(&buf[..0x60], b"V").unwrap(), None);
    assert!(class_defs_contains_type_idx_raw(&buf, 0).unwrap());
    assert!(!class_defs_contains_type_idx_raw(&buf, 1).unwrap());
    assert!(!dex_defines_class_raw(&buf, b"Ljava/lang/Object;").unwrap());
    assert!(dex_defines_class_raw(&buf, b"Lexample/Test;").unwrap());
    // A type table that runs past the end of the buffer.
    put_u32(&mut buf, 0x40, 0x1000_0000);
    assert_eq!(find_type_idx_raw(&buf, b"V"), Err(AscError::BadTypeIdsRange));
}

#[test]
fn container_offsets_and_normalisation() {
    let (one, _) = build_dex(b"dex\n041\0");
    let mut data = one.clone();
    let mut second = one.clone();
    put_u32(&mut second, 0x38, 4);
    data.extend_from_slice(&second);
    assert_eq!(dex041_logical_offsets(&data), vec![0, one.len()]);

    let normalized = normalize_dex041_logical(&data, one.len());
    assert_eq!(normalized.len(), data.len());
    assert_eq!(&normalized[..0x70], &second[..0x70]);
    assert_eq!(&normalized[0x70..], &data[0x70..]);
    assert_eq!(normalize_dex041_logical(&data, 0), data);

    let buffers = iter_logical_dex_buffers("base.apk", &data);
    assert_eq!(buffers.len(), 2);
    assert_eq!(buffers[0].0, "base.apk!classes1.dex");
    assert_eq!(buffers[1].0, "base.apk!classes2.dex");
    assert_eq!(&*buffers[1].1, &normalized[..]);
    assert!(buffers.iter().all(|(_, b)| matches!(b, std::borrow::Cow::Owned(_))));

    let plain = get_minimal_dex_bytes();
    let single = iter_logical_dex_buffers("classes.dex", &plain);
    assert_eq!(single.len(), 1);
    assert_eq!(single[0].0, "classes.dex");
    assert_eq!(&*single[0].1, &plain[..]);
    assert!(matches!(single[0].1, std::borrow::Cow::Borrowed(_)));
}

#[test]
fn container_with_bad_size_stops() {
    let (mut one, _) = build_dex(b"dex\n041\0");
    put_u32(&mut one, 0x20, 0x10);
    assert!(is_dex041_container(&one));
    assert_eq!(dex041_logical_offsets(&one), vec![0]);
}

use asc_core::digest::sha256_hex;
use asc_core::dump::apk::{dump_apk_primitives, sort_by_comp_size};
use asc_core::dump::dex::dump_dex_primitives;
use asc_core::dump::names::sorted_name_set;
use asc_core::zip::{DexEntry, CD_SIG, EOCD_SIG, LH_SIG};

fn names(v: &[&str]) -> Vec<String> {
    v.iter().map(|s| s.to_string()).collect()
}

#[test]
fn dex_dump_reads_every_table() {
    let (buf, layout) = build_dex(b"dex\n035\0");
    let rep = dump_dex_primitives(&buf, &names(&["Lexample/Test;", "Lmissing/Cls;"])).unwrap();
    assert_eq!(rep.header.strings, (0x70, 5));

    assert_eq!(rep.strings.error, None);
    assert_eq!(rep.strings.items.len(), 5);
    let s0 = &rep.strings.items[0];
    assert_eq!(s0.data_off, layout.string_data[0]);
    assert_eq!(s0.utf16_len, 14);
    assert_eq!(s0.raw, b"Lexample/Test;".to_vec());
    assert_eq!(s0.units.to_string_lossy(), "Lexample/Test;");

    assert_eq!(rep.types.error, None);
    assert_eq!(rep.types.items.len(), 3);
    assert_eq!(rep.types.items[1].0, 1);
    assert_eq!(rep.types.items[2].1.kind, TypeKind::Primitive(0));
    assert_eq!(rep.protos.items.len(), 2);
    assert_eq!(rep.protos.items[1].param_type_idxs, vec![1]);
    assert_eq!(rep.fields.items.len(), 1);
    assert_eq!(rep.methods.items.len(), 2);
    assert_eq!(rep.classes.items.len(), 1);
    assert_eq!(rep.classes.error, None);

    assert_eq!(rep.code_items.error, None);
    assert_eq!(rep.code_items.items.len(), 2);
    let c0 = &rep.code_items.items[0];
    assert_eq!((c0.method_idx, c0.code_off), (0, layout.code1));
    assert_eq!((c0.registers_size, c0.ins_size, c0.outs_size, c0.insns_size), (1, 1, 1, 3));
    assert_eq!(c0.insns_sha256, sha256_hex(&[0x70, 0x10, 0x00, 0x00, 0x0e, 0x00]));
    assert_eq!(rep.code_items.items[1].code_off, layout.code2);

    assert_eq!(rep.get_class.len(), 2);
    assert_eq!(rep.get_class[0].name, "Lexample/Test;");
    assert_eq!(rep.get_class[0].found, Ok(Some(0)));
    assert_eq!(rep.get_class[0].class_idx, Some(0));
    assert_eq!(rep.get_class[1].found, Ok(None));
    assert_eq!(rep.get_class[1].class_idx, None);
}

#[test]
fn dex_dump_stops_each_table_at_its_first_error() {
    let (mut buf, _) = build_dex(b"dex\n035\0");
    // String 3 lies past the end of the buffer.
    put_u32(&mut buf, 0x70 + 3 * 4, 0xffff_ff00);
    // Type 1 names a string the table does not have.
    put_u32(&mut buf, 0x84 + 4, 9);
    let rep = dump_dex_primitives(&buf, &[]).unwrap();
    assert_eq!(rep.strings.items.len(), 3);
    assert_eq!(rep.strings.error, Some(AscError::BadStringDataOffset));
    assert_eq!(rep.types.items.len(), 1);
    assert_eq!(rep.types.error, Some(AscError::BadStringIdsRange));
    assert_eq!(rep.methods.items.len(), 2);
    assert_eq!(rep.methods.error, None);
    assert!(rep.get_class.is_empty());
    assert_eq!(dump_dex_primitives(b"not a dex", &[]).err(), Some(AscError::BadDexMagicOrHeaderSize));
}

#[test]
fn dex_dump_code_items_stop_at_bad_code() {
    let (mut buf, layout) = build_dex(b"dex\n035\0");
    // The second method's code item claims more instructions than the buffer holds.
    put_u32(&mut buf, layout.code2 + 12, 0x7fff_ffff);
    let rep = dump_dex_primitives(&buf, &[]).unwrap();
    assert_eq!(rep.code_items.items.len(), 1);
    assert_eq!(rep.code_items.error, Some(AscError::BadCodeItemOffset));
}

fn stored_zip(files: &[(&[u8], &[u8])]) -> Vec<u8> {
    let mut buf = Vec::new();
    let mut cd = Vec::new();
    for (name, data) in files {
        let lho = buf.len() as u32;
        buf.extend_from_slice(&LH_SIG);
        buf.extend_from_slice(&[0u8; 22]);
        buf.extend_from_slice(&(name.len() as u16).to_le_bytes());
        buf.extend_from_slice(&0u16.to_le_bytes());
        buf.extend_from_slice(name);
        buf.extend_from_slice(data);
        cd.extend_from_slice(&CD_SIG);
        cd.extend_from_slice(&[20, 0, 20, 0, 0, 0, 0, 0]); // made by, needed, flags, method 0
        cd.extend_from_slice(&[0u8; 8]);
        cd.extend_from_slice(&(data.len() as u32).to_le_bytes());
        cd.extend_from_slice(&(data.len() as u32).to_le_bytes());
        cd.extend_from_slice(&(name.len() as u16).to_le_bytes());
        cd.extend_from_slice(&[0u8; 12]);
        cd.extend_from_slice(&lho.to_le_bytes());
        cd.extend_from_slice(name);
    }
    let cd_off = buf.len() as u32;
    buf.extend_from_slice(&cd);
    buf.extend_from_slice(&EOCD_SIG);
    buf.extend_from_slice(&[0u8; 8]);
    buf.extend_from_slice(&(cd.len() as u32).to_le_bytes());
    buf.extend_from_slice(&cd_off.to_le_bytes());
    buf.extend_from_slice(&0u16.to_le_bytes());
    buf
}

#[test]
fn apk_dump_of_stored_entries() {
    let (dex, _) = build_dex(b"dex\n035\0");
    let small = b"not a dex file".to_vec();
    let apk = stored_zip(&[(b"classes.dex", &dex), (b"classes2.dex", &small)]);
    let rep = dump_apk_primitives(&apk, &names(&["Lextra/Query;", "Lexample/Test;"])).unwrap();
    assert!(rep.listing.fast_path);
    // Sorted by compressed size: the small entry first.
    assert_eq!(rep.listing.entries.len(), 2);
    assert_eq!(rep.listing.entries[0].name, "classes2.dex");
    assert_eq!(rep.listing.entries[1].name, "classes.dex");
    assert_eq!(rep.listing.eocd.offset, apk.len() - 22);

    let inflated = rep.inflated[1].as_ref().unwrap().as_ref().unwrap();
    assert_eq!(inflated.data, dex);
    assert_eq!(inflated.sha256, sha256_hex(&dex));

    assert_eq!(
        rep.queries,
        names(&[
            "Lcom/missing/TargetClass;",
            "Ldoes/not/Exist;",
            "Lexample/Test;",
            "Lextra/Query;",
            "Lnonexistent/Cls;",
        ])
    );

    let e1 = &rep.entries[1];
    assert_eq!(e1.defines.len(), 5);
    assert_eq!(e1.defines[2].name, "Lexample/Test;");
    assert_eq!(e1.defines[2].outcome, Ok(Some((0, true))));
    assert_eq!(e1.defines[0].outcome, Ok(None));
    assert!(!e1.is_041);
    assert_eq!(e1.logical_offsets, vec![0]);
    assert_eq!(e1.logical.len(), 1);
    assert_eq!(e1.logical[0].name, "classes.dex");
    assert_eq!(e1.logical[0].normalized_sha256, sha256_hex(&dex));
    let prim = e1.logical[0].primitives.as_ref().unwrap();
    assert_eq!(prim.get_class.len(), 5);
    assert_eq!(prim.get_class[2].found, Ok(Some(0)));

    // The entry that is no DEX file has no header to dump.
    let e0 = &rep.entries[0];
    assert_eq!(e0.defines.len(), 5);
    assert_eq!(e0.defines[2].outcome, Ok(None));
    assert_eq!(e0.logical[0].primitives.as_ref().err(), Some(&AscError::BadDexMagicOrHeaderSize));
}

#[test]
fn apk_dump_refuses_what_has_no_directory() {
    assert_eq!(dump_apk_primitives(&[], &[]).err(), Some(AscError::EocdNotFound));
    let mut eocd_cut = vec![0u8; 30];
    eocd_cut[20..24].copy_from_slice(&EOCD_SIG);
    assert_eq!(dump_apk_primitives(&eocd_cut, &[]).err(), Some(AscError::BadEocdHeader));
}

#[test]
fn apk_dump_of_container_entry() {
    let (one, _) = build_dex(b"dex\n041\0");
    let mut container = one.clone();
    container.extend_from_slice(&one);
    let apk = stored_zip(&[(b"classes.dex", &container)]);
    let rep = dump_apk_primitives(&apk, &[]).unwrap();
    let e = &rep.entries[0];
    assert!(e.is_041);
    assert_eq!(e.logical_offsets, vec![0, one.len()]);
    assert_eq!(e.logical.len(), 2);
    assert_eq!(e.logical[0].name, "classes.dex!classes1.dex");
    assert_eq!(e.logical[1].name, "classes.dex!classes2.dex");
}

#[test]
fn name_sets_sorted_by_utf8_bytes() {
    let got = sorted_name_set(&names(&["b", "a", "b", "\u{e9}", "Z", "", "a"]));
    assert_eq!(got, names(&["", "Z", "a", "b", "\u{e9}"]));
    let mut expected: Vec<String> = names(&["Lz;", "La;", "\u{1F600}", "\u{FFFD}", "La;"]);
    expected.sort();
    expected.dedup();
    assert_eq!(sorted_name_set(&names(&["Lz;", "La;", "\u{1F600}", "\u{FFFD}", "La;"])), expected);
}

#[test]
fn entries_sorted_by_size_keep_order_of_equals() {
    let e = |name: &str, comp: u32| DexEntry {
        name: name.to_string(),
        uncomp_size: 0,
        comp_size: comp,
        local_header_off: 0,
        method: 0,
    };
    let sorted = sort_by_comp_size(&vec![e("a", 5), e("b", 1), e("c", 5), e("d", 0), e("e", 1)]);
    let order: Vec<&str> = sorted.iter().map(|x| x.name.as_str()).collect();
    assert_eq!(order, vec!["d", "b", "e", "a", "c"]);
}
