//! Every table of one DEX file read in index order, each up to its first
//! entry that cannot be read.
use crate::bytes::le_u32;
use crate::dex::header::{spec_parse_header, Header};
use crate::digest::{sha256_hex, sha256_text};
use crate::dex::reader::{
    spec_find_class, spec_get_code_item, CodeItemView, spec_get_class, spec_get_field, spec_get_method, spec_get_prototype, spec_get_type,
    spec_string_bytes, table_entry, ClassInfo, ClassInfoView, Dex, FieldInfo, MethodInfo,
    ProtoInfo, ProtoInfoView,
};
use crate::dex::descriptor::{TypeInfo, TypeInfoView};
use crate::dump::names::string_seq_views;
use crate::error::AscError;
use crate::leb128::{read_uleb128, spec_read_uleb128};
use crate::mutf8::{spec_decode_mutf8, DexStr};
use std::collections::HashSet;
use vstd::prelude::*;

verus! {

/// Entries of a table read in index order up to the first one that fails:
/// the entries read, and the error that stopped the reading if one did.
#[derive(Debug)]
pub struct Section<T> {
    pub items: Vec<T>,
    pub error: Option<AscError>,
}

/// `items` and `error` are what reading entries `0..count` one by one with
/// `get` gives, stopping at the first error.
pub open spec fn read_until_error<V>(
    items: Seq<V>,
    error: Option<AscError>,
    count: int,
    get: spec_fn(int) -> Result<V, AscError>,
) -> bool {
    &&& items.len() <= count
    &&& forall|i: int| 0 <= i < items.len() ==> #[trigger] get(i) == Ok::<V, AscError>(items[i])
    &&& if items.len() < count {
        error matches Some(e) && get(items.len() as int) == Err::<V, AscError>(e)
    } else {
        error is None
    }
}

/// One string of the string table: where its data lies, the UTF-16 length
/// its data declares, its raw Modified UTF-8 bytes and its decoded units.
#[derive(Debug)]
pub struct StringRecord {
    pub data_off: usize,
    pub utf16_len: u64,
    pub raw: Vec<u8>,
    pub units: DexStr,
}

/// A `StringRecord` with its byte and unit strings as sequences.
pub struct StringRecordView {
    pub data_off: usize,
    pub utf16_len: u64,
    pub raw: Seq<u8>,
    pub units: Seq<u16>,
}

impl View for StringRecord {
    type V = StringRecordView;

    open spec fn view(&self) -> StringRecordView {
        StringRecordView {
            data_off: self.data_off,
            utf16_len: self.utf16_len,
            raw: self.raw@,
            units: self.units@,
        }
    }
}

/// The record of string `idx`; a length that cannot be read counts as 0.
pub open spec fn spec_string_record(s: Seq<u8>, h: Header, idx: int) -> Result<StringRecordView, AscError> {
    match table_entry(s, h.strings, idx, 4) {
        None => Err(AscError::BadStringIdsRange),
        Some(at) => {
            let data_off = le_u32(s, at) as usize;
            match spec_string_bytes(s, h, idx) {
                Err(e) => Err(e),
                Ok(raw) => Ok(
                    StringRecordView {
                        data_off,
                        utf16_len: match spec_read_uleb128(s, data_off as int) {
                            Ok((v, _)) => v,
                            Err(_) => 0,
                        },
                        raw,
                        units: spec_decode_mutf8(raw),
                    },
                ),
            }
        },
    }
}

/// The views of a list of string records.
pub open spec fn string_views(v: Seq<StringRecord>) -> Seq<StringRecordView> {
    v.map_values(|r: StringRecord| r@)
}

/// The views of a list of (string index, type) pairs.
pub open spec fn type_views(v: Seq<(usize, TypeInfo)>) -> Seq<(usize, TypeInfoView)> {
    v.map_values(|p: (usize, TypeInfo)| (p.0, p.1@))
}

/// The views of a list of prototypes.
pub open spec fn proto_views(v: Seq<ProtoInfo>) -> Seq<ProtoInfoView> {
    v.map_values(|p: ProtoInfo| p@)
}

/// The views of a list of classes.
pub open spec fn class_views(v: Seq<ClassInfo>) -> Seq<ClassInfoView> {
    v.map_values(|c: ClassInfo| c@)
}

/// The record of string `idx` of `dex`.
fn string_record(dex: &Dex, idx: usize) -> (r: Result<StringRecord, AscError>)
    ensures
        match spec_string_record(dex.buf@, dex.header, idx as int) {
            Ok(v) => r matches Ok(x) && x@ == v,
            Err(e) => r matches Err(x) && x == e,
        },
{
    let data_off = dex.get_string_data_off(idx)?;
    let raw = dex.get_string_bytes(idx)?;
    let units = dex.get_string(idx)?;
    let utf16_len = match read_uleb128(dex.buf, data_off) {
        Ok((v, _)) => v,
        Err(_) => 0,
    };
    Ok(StringRecord { data_off, utf16_len, raw: vstd::slice::slice_to_vec(raw), units })
}

/// The string table of `dex`, up to its first string that cannot be read.
pub fn read_strings(dex: &Dex) -> (r: Section<StringRecord>)
    ensures
        read_until_error(
            string_views(r.items@),
            r.error,
            dex.header.strings.1 as int,
            |i: int| spec_string_record(dex.buf@, dex.header, i),
        ),
{
    let count = dex.header.strings.1;
    let mut items: Vec<StringRecord> = Vec::new();
    let mut idx: usize = 0;
    while idx < count
        invariant
            idx <= count,
            count == dex.header.strings.1,
            items@.len() == idx,
            forall|i: int|
                0 <= i < idx ==> #[trigger] spec_string_record(dex.buf@, dex.header, i) == Ok::<
                    StringRecordView,
                    AscError,
                >(items@[i]@),
        decreases count - idx,
    {
        match string_record(dex, idx) {
            Ok(rec) => items.push(rec),
            Err(e) => {
                return Section { items, error: Some(e) };
            },
        }
        idx += 1;
    }
    Section { items, error: None }
}

/// The type table of `dex`, up to the first entry that cannot be read.
pub fn read_types(dex: &Dex) -> (r: Section<(usize, TypeInfo)>)
    ensures
        read_until_error(
            type_views(r.items@),
            r.error,
            dex.header.types.1 as int,
            |i: int| spec_get_type(dex.buf@, dex.header, i),
        ),
{
    let count = dex.header.types.1;
    let mut items: Vec<(usize, TypeInfo)> = Vec::new();
    let mut idx: usize = 0;
    while idx < count
        invariant
            idx <= count,
            count == dex.header.types.1,
            items@.len() == idx,
            forall|i: int|
                0 <= i < idx ==> #[trigger] spec_get_type(dex.buf@, dex.header, i) == Ok::<
                    (usize, TypeInfoView),
                    AscError,
                >((items@[i].0, items@[i].1@)),
        decreases count - idx,
    {
        match dex.get_type(idx) {
            Ok(x) => items.push(x),
            Err(e) => {
                return Section { items, error: Some(e) };
            },
        }
        idx += 1;
    }
    Section { items, error: None }
}

/// The prototype table of `dex`, up to the first entry that cannot be read.
pub fn read_prototypes(dex: &Dex) -> (r: Section<ProtoInfo>)
    ensures
        read_until_error(
            proto_views(r.items@),
            r.error,
            dex.header.prototypes.1 as int,
            |i: int| spec_get_prototype(dex.buf@, dex.header, i),
        ),
{
    let count = dex.header.prototypes.1;
    let mut items: Vec<ProtoInfo> = Vec::new();
    let mut idx: usize = 0;
    while idx < count
        invariant
            idx <= count,
            count == dex.header.prototypes.1,
            items@.len() == idx,
            forall|i: int|
                0 <= i < idx ==> #[trigger] spec_get_prototype(dex.buf@, dex.header, i) == Ok::<
                    ProtoInfoView,
                    AscError,
                >(items@[i]@),
        decreases count - idx,
    {
        match dex.get_prototype(idx) {
            Ok(x) => items.push(x),
            Err(e) => {
                return Section { items, error: Some(e) };
            },
        }
        idx += 1;
    }
    Section { items, error: None }
}

/// The field table of `dex`, up to the first entry that cannot be read.
pub fn read_fields(dex: &Dex) -> (r: Section<FieldInfo>)
    ensures
        read_until_error(
            r.items@,
            r.error,
            dex.header.fields.1 as int,
            |i: int| spec_get_field(dex.buf@, dex.header, i),
        ),
{
    let count = dex.header.fields.1;
    let mut items: Vec<FieldInfo> = Vec::new();
    let mut idx: usize = 0;
    while idx < count
        invariant
            idx <= count,
            count == dex.header.fields.1,
            items@.len() == idx,
            forall|i: int|
                0 <= i < idx ==> #[trigger] spec_get_field(dex.buf@, dex.header, i) == Ok::<
                    FieldInfo,
                    AscError,
                >(items@[i]),
        decreases count - idx,
    {
        match dex.get_field(idx) {
            Ok(x) => items.push(x),
            Err(e) => {
                return Section { items, error: Some(e) };
            },
        }
        idx += 1;
    }
    Section { items, error: None }
}

/// The method table of `dex`, up to the first entry that cannot be read.
pub fn read_methods(dex: &Dex) -> (r: Section<MethodInfo>)
    ensures
        read_until_error(
            r.items@,
            r.error,
            dex.header.methods.1 as int,
            |i: int| spec_get_method(dex.buf@, dex.header, i),
        ),
{
    let count = dex.header.methods.1;
    let mut items: Vec<MethodInfo> = Vec::new();
    let mut idx: usize = 0;
    while idx < count
        invariant
            idx <= count,
            count == dex.header.methods.1,
            items@.len() == idx,
            forall|i: int|
                0 <= i < idx ==> #[trigger] spec_get_method(dex.buf@, dex.header, i) == Ok::<
                    MethodInfo,
                    AscError,
                >(items@[i]),
        decreases count - idx,
    {
        match dex.get_method(idx) {
            Ok(x) => items.push(x),
            Err(e) => {
                return Section { items, error: Some(e) };
            },
        }
        idx += 1;
    }
    Section { items, error: None }
}

/// The class definitions of `dex`, up to the first entry that cannot be read.
pub fn read_classes(dex: &Dex) -> (r: Section<ClassInfo>)
    ensures
        read_until_error(
            class_views(r.items@),
            r.error,
            dex.header.classes.1 as int,
            |i: int| spec_get_class(dex.buf@, dex.header, i),
        ),
{
    let count = dex.header.classes.1;
    let mut items: Vec<ClassInfo> = Vec::new();
    let mut idx: usize = 0;
    while idx < count
        invariant
            idx <= count,
            count == dex.header.classes.1,
            items@.len() == idx,
            forall|i: int|
                0 <= i < idx ==> #[trigger] spec_get_class(dex.buf@, dex.header, i) == Ok::<
                    ClassInfoView,
                    AscError,
                >(items@[i]@),
        decreases count - idx,
    {
        match dex.get_class(idx) {
            Ok(x) => items.push(x),
            Err(e) => {
                return Section { items, error: Some(e) };
            },
        }
        idx += 1;
    }
    Section { items, error: None }
}

/// The code item of one method: the method that led to it, where it lies,
/// its header fields and the SHA-256 digest of its instructions in hexadecimal.
#[derive(Debug)]
pub struct CodeItemRecord {
    pub method_idx: u32,
    pub code_off: usize,
    pub registers_size: u16,
    pub ins_size: u16,
    pub outs_size: u16,
    pub tries_size: u16,
    pub debug_info_off: u32,
    pub insns_size: u32,
    pub insns_sha256: String,
}

/// A `CodeItemRecord` with its digest as characters.
pub struct CodeItemRecordView {
    pub method_idx: u32,
    pub code_off: usize,
    pub registers_size: u16,
    pub ins_size: u16,
    pub outs_size: u16,
    pub tries_size: u16,
    pub debug_info_off: u32,
    pub insns_size: u32,
    pub insns_sha256: Seq<char>,
}

impl View for CodeItemRecord {
    type V = CodeItemRecordView;

    open spec fn view(&self) -> CodeItemRecordView {
        CodeItemRecordView {
            method_idx: self.method_idx,
            code_off: self.code_off,
            registers_size: self.registers_size,
            ins_size: self.ins_size,
            outs_size: self.outs_size,
            tries_size: self.tries_size,
            debug_info_off: self.debug_info_off,
            insns_size: self.insns_size,
            insns_sha256: self.insns_sha256@,
        }
    }
}

/// The record of the code item `c` that method `m` points to.
pub open spec fn code_record(m: MethodInfo, c: CodeItemView) -> CodeItemRecordView {
    CodeItemRecordView {
        method_idx: m.index,
        code_off: m.code_off as usize,
        registers_size: c.registers_size,
        ins_size: c.ins_size,
        outs_size: c.outs_size,
        tries_size: c.tries_size,
        debug_info_off: c.debug_info_off,
        insns_size: c.insns_size,
        insns_sha256: sha256_text(c.insns_bytes),
    }
}

/// The views of a list of code item records.
pub open spec fn code_views(v: Seq<CodeItemRecord>) -> Seq<CodeItemRecordView> {
    v.map_values(|r: CodeItemRecord| r@)
}

/// Some record of `acc` is of the code item at `off`.
pub open spec fn has_code_off(acc: Seq<CodeItemRecordView>, off: usize) -> bool {
    exists|k: int| 0 <= k < acc.len() && (#[trigger] acc[k]).code_off == off
}

/// `acc` followed by the code items of methods `j..` of `ms`, in order, each
/// offset once, methods without code passed over; the reading stops at the
/// first code item that cannot be read, with its error.
pub open spec fn method_code_items(
    s: Seq<u8>,
    ms: Seq<MethodInfo>,
    j: int,
    acc: Seq<CodeItemRecordView>,
) -> (Seq<CodeItemRecordView>, Option<AscError>)
    decreases ms.len() - j,
{
    if j < 0 || j >= ms.len() {
        (acc, None)
    } else {
        let m = ms[j];
        if m.code_off == 0 || has_code_off(acc, m.code_off as usize) {
            method_code_items(s, ms, j + 1, acc)
        } else {
            match spec_get_code_item(s, m.code_off as int) {
                Err(e) => (acc, Some(e)),
                Ok(c) => method_code_items(s, ms, j + 1, acc.push(code_record(m, c))),
            }
        }
    }
}

/// `acc` followed by the code items of the methods of classes `idx..count`,
/// in order, each offset once; the reading stops at the first class or code
/// item that cannot be read, with its error.
pub open spec fn class_code_items(
    s: Seq<u8>,
    h: Header,
    idx: int,
    count: int,
    acc: Seq<CodeItemRecordView>,
) -> (Seq<CodeItemRecordView>, Option<AscError>)
    decreases count - idx,
{
    if idx < 0 || idx >= count {
        (acc, None)
    } else {
        match spec_get_class(s, h, idx) {
            Err(e) => (acc, Some(e)),
            Ok(c) => {
                let after = method_code_items(s, c.all_methods, 0, acc);
                if after.1 is Some {
                    after
                } else {
                    class_code_items(s, h, idx + 1, count, after.0)
                }
            },
        }
    }
}

/// No two records are of the same code item.
pub open spec fn distinct_code_offs(v: Seq<CodeItemRecordView>) -> bool {
    forall|i: int, j: int| 0 <= i < j < v.len() ==> (#[trigger] v[i]).code_off != (#[trigger] v[j]).code_off
}

proof fn lemma_method_code_items_distinct(s: Seq<u8>, ms: Seq<MethodInfo>, j: int, acc: Seq<CodeItemRecordView>)
    requires
        distinct_code_offs(acc),
    ensures
        distinct_code_offs(method_code_items(s, ms, j, acc).0),
    decreases ms.len() - j,
{
    if 0 <= j < ms.len() {
        let m = ms[j];
        if m.code_off == 0 || has_code_off(acc, m.code_off as usize) {
            lemma_method_code_items_distinct(s, ms, j + 1, acc);
        } else if let Ok(c) = spec_get_code_item(s, m.code_off as int) {
            let next = acc.push(code_record(m, c));
            assert forall|a: int, b: int| 0 <= a < b < next.len() implies (#[trigger] next[a]).code_off
                != (#[trigger] next[b]).code_off by {
                if b == acc.len() && next[a].code_off == next[b].code_off {
                    assert(acc[a] == next[a]);
                    assert(has_code_off(acc, m.code_off as usize));
                }
            }
            lemma_method_code_items_distinct(s, ms, j + 1, next);
        }
    }
}

proof fn lemma_class_code_items_distinct(s: Seq<u8>, h: Header, idx: int, count: int, acc: Seq<CodeItemRecordView>)
    requires
        distinct_code_offs(acc),
    ensures
        distinct_code_offs(class_code_items(s, h, idx, count, acc).0),
    decreases count - idx,
{
    if 0 <= idx < count {
        if let Ok(c) = spec_get_class(s, h, idx) {
            lemma_method_code_items_distinct(s, c.all_methods, 0, acc);
            let after = method_code_items(s, c.all_methods, 0, acc);
            if after.1 is None {
                lemma_class_code_items_distinct(s, h, idx + 1, count, after.0);
            }
        }
    }
}

/// The dump lists each code item once, however many methods share it.
pub proof fn lemma_code_items_distinct(s: Seq<u8>, h: Header)
    ensures
        distinct_code_offs(class_code_items(s, h, 0, h.classes.1 as int, seq![]).0),
{
    lemma_class_code_items_distinct(s, h, 0, h.classes.1 as int, seq![]);
}

/// The code items of all methods of all classes of `dex`, each offset once,
/// up to the first class or code item that cannot be read.
pub fn read_code_items(dex: &Dex) -> (r: Section<CodeItemRecord>)
    ensures
        (code_views(r.items@), r.error) == class_code_items(
            dex.buf@,
            dex.header,
            0,
            dex.header.classes.1 as int,
            seq![],
        ),
{
    broadcast use vstd::std_specs::hash::group_hash_axioms;

    let count = dex.header.classes.1;
    let mut items: Vec<CodeItemRecord> = Vec::new();
    let mut seen: HashSet<usize> = HashSet::new();
    let mut idx: usize = 0;
    assert(code_views(items@) =~= seq![]);
    while idx < count
        invariant
            idx <= count,
            count == dex.header.classes.1,
            class_code_items(dex.buf@, dex.header, 0, count as int, seq![]) == class_code_items(
                dex.buf@,
                dex.header,
                idx as int,
                count as int,
                code_views(items@),
            ),
            forall|off: usize| #[trigger] seen@.contains(off) <==> has_code_off(code_views(items@), off),
        decreases count - idx,
    {
        let c = match dex.get_class(idx) {
            Ok(c) => c,
            Err(e) => {
                return Section { items, error: Some(e) };
            },
        };
        let ghost start = code_views(items@);
        let mut j: usize = 0;
        while j < c.all_methods.len()
            invariant
                idx < count,
                count == dex.header.classes.1,
                spec_get_class(dex.buf@, dex.header, idx as int) == Ok::<ClassInfoView, AscError>(c@),
                class_code_items(dex.buf@, dex.header, 0, count as int, seq![]) == class_code_items(
                    dex.buf@,
                    dex.header,
                    idx as int,
                    count as int,
                    start,
                ),
                method_code_items(dex.buf@, c@.all_methods, 0, start) == method_code_items(
                    dex.buf@,
                    c@.all_methods,
                    j as int,
                    code_views(items@),
                ),
                j <= c.all_methods@.len(),
                forall|off: usize| #[trigger] seen@.contains(off) <==> has_code_off(code_views(items@), off),
            decreases c.all_methods@.len() - j,
        {
            let m = c.all_methods[j];
            let off = m.code_off as usize;
            if m.code_off != 0 && !seen.contains(&off) {
                match dex.get_code_item(off) {
                    Ok(item) => {
                        let digest = sha256_hex(item.insns_bytes);
                        let ghost before = code_views(items@);
                        items.push(
                            CodeItemRecord {
                                method_idx: m.index,
                                code_off: off,
                                registers_size: item.registers_size,
                                ins_size: item.ins_size,
                                outs_size: item.outs_size,
                                tries_size: item.tries_size,
                                debug_info_off: item.debug_info_off,
                                insns_size: item.insns_size,
                                insns_sha256: digest,
                            },
                        );
                        proof {
                            assert(code_views(items@) =~= before.push(code_record(m, item@)));
                            assert forall|o: usize| has_code_off(code_views(items@), o) <==> (
                                has_code_off(before, o) || o == off) by {
                                if o == off {
                                    assert(code_views(items@)[before.len() as int].code_off == o);
                                }
                                if has_code_off(code_views(items@), o) {
                                    let k = choose|k: int|
                                        0 <= k < code_views(items@).len() && (#[trigger] code_views(
                                            items@,
                                        )[k]).code_off == o;
                                    if k < before.len() {
                                        assert(before[k] == code_views(items@)[k]);
                                    }
                                }
                                if has_code_off(before, o) {
                                    let k = choose|k: int|
                                        0 <= k < before.len() && (#[trigger] before[k]).code_off == o;
                                    assert(code_views(items@)[k] == before[k]);
                                }
                            }
                        }
                        seen.insert(off);
                    },
                    Err(e) => {
                        return Section { items, error: Some(e) };
                    },
                }
            }
            j += 1;
        }
        idx += 1;
    }
    Section { items, error: None }
}

/// One lookup of a class by its descriptor.
#[derive(Debug)]
pub struct ClassQuery {
    /// The descriptor looked up.
    pub name: String,
    /// What `Dex::find_class` answered: the class definition's index, if any.
    pub found: Result<Option<usize>, AscError>,
    /// The type index of the class found, when its definition was read.
    pub class_idx: Option<u32>,
}

/// The type index of class definition `found` among the classes read.
pub open spec fn found_class_idx(classes: Seq<ClassInfoView>, found: Result<Option<usize>, AscError>) -> Option<u32> {
    match found {
        Ok(Some(i)) => if i < classes.len() {
            Some(classes[i as int].class_idx)
        } else {
            None
        },
        _ => None,
    }
}

/// `q` is the lookup of `name` in the DEX file `s`, whose classes read are `classes`.
pub open spec fn is_class_query(
    s: Seq<u8>,
    h: Header,
    classes: Seq<ClassInfoView>,
    name: Seq<char>,
    q: ClassQuery,
) -> bool {
    &&& q.name@ == name
    &&& q.found == spec_find_class(s, h, name)
    &&& q.class_idx == found_class_idx(classes, q.found)
}

/// Everything read from one DEX file.
#[derive(Debug)]
pub struct DexReport {
    pub header: Header,
    pub strings: Section<StringRecord>,
    pub types: Section<(usize, TypeInfo)>,
    pub protos: Section<ProtoInfo>,
    pub fields: Section<FieldInfo>,
    pub methods: Section<MethodInfo>,
    pub classes: Section<ClassInfo>,
    pub code_items: Section<CodeItemRecord>,
    pub get_class: Vec<ClassQuery>,
}

/// `rep` holds what the DEX file `s` with header `h` gives: each table up to
/// its first entry that cannot be read, the code items of its classes, and
/// one lookup per name of `queries`, in order.
pub open spec fn is_dex_report(s: Seq<u8>, h: Header, queries: Seq<Seq<char>>, rep: DexReport) -> bool {
    &&& rep.header == h
    &&& read_until_error(
        string_views(rep.strings.items@),
        rep.strings.error,
        h.strings.1 as int,
        |i: int| spec_string_record(s, h, i),
    )
    &&& read_until_error(
        type_views(rep.types.items@),
        rep.types.error,
        h.types.1 as int,
        |i: int| spec_get_type(s, h, i),
    )
    &&& read_until_error(
        proto_views(rep.protos.items@),
        rep.protos.error,
        h.prototypes.1 as int,
        |i: int| spec_get_prototype(s, h, i),
    )
    &&& read_until_error(
        rep.fields.items@,
        rep.fields.error,
        h.fields.1 as int,
        |i: int| spec_get_field(s, h, i),
    )
    &&& read_until_error(
        rep.methods.items@,
        rep.methods.error,
        h.methods.1 as int,
        |i: int| spec_get_method(s, h, i),
    )
    &&& read_until_error(
        class_views(rep.classes.items@),
        rep.classes.error,
        h.classes.1 as int,
        |i: int| spec_get_class(s, h, i),
    )
    &&& (code_views(rep.code_items.items@), rep.code_items.error) == class_code_items(
        s,
        h,
        0,
        h.classes.1 as int,
        seq![],
    )
    &&& rep.get_class@.len() == queries.len()
    &&& forall|i: int|
        0 <= i < queries.len() ==> is_class_query(
            s,
            h,
            class_views(rep.classes.items@),
            queries[i],
            #[trigger] rep.get_class@[i],
        )
}

/// Everything the DEX file `dex_buf` gives, with one class lookup per name of
/// `query_list`; the header's error when the header cannot be read.
pub fn dump_dex_primitives(dex_buf: &[u8], query_list: &[String]) -> (r: Result<DexReport, AscError>)
    ensures
        match spec_parse_header(dex_buf@) {
            Err(e) => r == Err::<DexReport, AscError>(e),
            Ok(h) => r matches Ok(rep) && is_dex_report(
                dex_buf@,
                h,
                string_seq_views(query_list@),
                rep,
            ),
        },
{
    let dex = Dex::new(dex_buf)?;
    let strings = read_strings(&dex);
    let types = read_types(&dex);
    let protos = read_prototypes(&dex);
    let fields = read_fields(&dex);
    let methods = read_methods(&dex);
    let classes = read_classes(&dex);
    let code_items = read_code_items(&dex);
    let mut get_class: Vec<ClassQuery> = Vec::new();
    let mut i: usize = 0;
    while i < query_list.len()
        invariant
            i <= query_list@.len(),
            get_class@.len() == i,
            dex.buf@ == dex_buf@,
            forall|k: int|
                0 <= k < i ==> is_class_query(
                    dex.buf@,
                    dex.header,
                    class_views(classes.items@),
                    query_list@[k]@,
                    #[trigger] get_class@[k],
                ),
        decreases query_list@.len() - i,
    {
        let name = &query_list[i];
        let found = dex.find_class(name.as_str());
        let class_idx = match found {
            Ok(Some(d)) => if d < classes.items.len() {
                Some(classes.items[d].class_idx)
            } else {
                None
            },
            _ => None,
        };
        get_class.push(ClassQuery { name: name.clone(), found, class_idx });
        i += 1;
    }
    let header = dex.header;
    Ok(DexReport { header, strings, types, protos, fields, methods, classes, code_items, get_class })
}

} // verus!
