//! Reading the string, type, prototype, field, method and class tables of a
//! DEX file, and finding classes by descriptor.
use crate::bytes::{
    find_nul, first_nul, le_u16, le_u32, lemma_first_nul, lemma_lex_order_antisym, lemma_lex_order_zero,
    lex_compare, lex_order,
    u16_at, u32_at,
};
use crate::dex::descriptor::{parse_descriptor, spec_parse_descriptor, TypeInfo, TypeInfoView};
use crate::dex::header::{spec_parse_header, Header};
use crate::error::AscError;
use crate::leb128::{read_uleb128, spec_read_uleb128};
use crate::mutf8::{decode_mutf8, encode_mutf8, mutf8_encoding, spec_decode_mutf8, DexStr};
use crate::unicode::{str_to_utf16, utf16_of_chars};
use crate::dex::header::{check_dex_header, has_dex_header, read_field};
use vstd::prelude::*;

verus! {

#[derive(Debug, Clone, PartialEq, Eq)]
pub struct ProtoInfo {
    pub shorty_idx: u32,
    pub return_type_idx: u32,
    pub parameters_off: u32,
    pub param_type_idxs: Vec<u16>,
}

/// A `ProtoInfo` with its parameter list as a sequence.
pub struct ProtoInfoView {
    pub shorty_idx: u32,
    pub return_type_idx: u32,
    pub parameters_off: u32,
    pub param_type_idxs: Seq<u16>,
}

impl View for ProtoInfo {
    type V = ProtoInfoView;

    open spec fn view(&self) -> ProtoInfoView {
        ProtoInfoView {
            shorty_idx: self.shorty_idx,
            return_type_idx: self.return_type_idx,
            parameters_off: self.parameters_off,
            param_type_idxs: self.param_type_idxs@,
        }
    }
}

#[derive(Debug, Clone, Copy, PartialEq, Eq)]
pub struct FieldInfo {
    pub index: u32,
    pub class_idx: u16,
    pub type_idx: u16,
    pub name_idx: u32,
    pub access_flags: u32,
    pub is_static: bool,
}

#[derive(Debug, Clone, Copy, PartialEq, Eq)]
pub struct MethodInfo {
    pub index: u32,
    pub class_idx: u16,
    pub proto_idx: u16,
    pub name_idx: u32,
    pub access_flags: u32,
    pub code_off: u32,
    pub is_direct: bool,
    pub is_virtual: bool,
}

#[derive(Debug, Clone, PartialEq, Eq)]
pub struct ClassInfo {
    pub class_idx: u32,
    pub class_def_off: u32,
    pub class_data_off: u32,
    pub fullname: DexStr,
    pub static_fields: Vec<[u32; 2]>,  // [field_idx, access_flags]
    pub instance_fields: Vec<[u32; 2]>,  // [field_idx, access_flags]
    pub direct_methods: Vec<[u32; 3]>,  // [method_idx, access_flags, code_off]
    pub virtual_methods: Vec<[u32; 3]>,  // [method_idx, access_flags, code_off]
    pub all_methods: Vec<MethodInfo>,
}

#[derive(Debug, Clone, PartialEq, Eq)]
pub struct CodeItemInfo<'a> {
    pub registers_size: u16,
    pub ins_size: u16,
    pub outs_size: u16,
    pub tries_size: u16,
    pub debug_info_off: u32,
    pub insns_size: u32,
    pub insns_bytes: &'a [u8],
}

/// A `CodeItemInfo` with its instructions as a byte sequence.
pub struct CodeItemView {
    pub registers_size: u16,
    pub ins_size: u16,
    pub outs_size: u16,
    pub tries_size: u16,
    pub debug_info_off: u32,
    pub insns_size: u32,
    pub insns_bytes: Seq<u8>,
}

impl<'a> View for CodeItemInfo<'a> {
    type V = CodeItemView;

    open spec fn view(&self) -> CodeItemView {
        CodeItemView {
            registers_size: self.registers_size,
            ins_size: self.ins_size,
            outs_size: self.outs_size,
            tries_size: self.tries_size,
            debug_info_off: self.debug_info_off,
            insns_size: self.insns_size,
            insns_bytes: self.insns_bytes@,
        }
    }
}

/// A DEX buffer with its parsed header.
pub struct Dex<'a> {
    pub buf: &'a [u8],
    pub header: Header,
}

/// The `n`-byte entry `idx` of the table at `off`: its offset, when `idx` is
/// below the table's size and the entry lies inside `s`.
pub open spec fn table_entry(s: Seq<u8>, table: (usize, usize), idx: int, n: int) -> Option<int> {
    let (off, count) = table;
    let at = off + idx * n;
    if idx < 0 || idx >= count || at + n > s.len() {
        None
    } else {
        Some(at)
    }
}

/// The bytes of the string data item at `str_off`: after its ULEB128 length,
/// up to the terminating NUL.
pub open spec fn string_data(s: Seq<u8>, str_off: int) -> Result<Seq<u8>, AscError> {
    match spec_read_uleb128(s, str_off) {
        Err(e) => Err(e),
        Ok((_, n)) => {
            let start = str_off + n;
            if start > s.len() {
                Err(AscError::UnterminatedStringDataItem)
            } else {
                match first_nul(s, start) {
                    None => Err(AscError::UnterminatedStringDataItem),
                    Some(p) => Ok(s.subrange(start, p)),
                }
            }
        },
    }
}

/// What `read_string_data_bytes` returns.
pub open spec fn spec_read_string_data_bytes(s: Seq<u8>, str_off: int) -> Result<Seq<u8>, AscError> {
    if str_off >= s.len() {
        Err(AscError::BadStringDataOff)
    } else {
        string_data(s, str_off)
    }
}

/// What `Dex::get_string_bytes` returns.
pub open spec fn spec_string_bytes(s: Seq<u8>, h: Header, idx: int) -> Result<Seq<u8>, AscError> {
    match table_entry(s, h.strings, idx, 4) {
        None => Err(AscError::BadStringIdsRange),
        Some(at) => {
            let str_off = le_u32(s, at);
            if str_off >= s.len() {
                Err(AscError::BadStringDataOffset)
            } else {
                string_data(s, str_off as int)
            }
        },
    }
}

/// What `Dex::get_string` returns.
pub open spec fn spec_get_string(s: Seq<u8>, h: Header, idx: int) -> Result<Seq<u16>, AscError> {
    match spec_string_bytes(s, h, idx) {
        Err(e) => Err(e),
        Ok(b) => Ok(spec_decode_mutf8(b)),
    }
}

/// What `Dex::get_type` returns: the string index of the descriptor and the
/// descriptor parsed.
pub open spec fn spec_get_type(s: Seq<u8>, h: Header, idx: int) -> Result<(usize, TypeInfoView), AscError> {
    match table_entry(s, h.types, idx, 4) {
        None => Err(AscError::BadTypeIdsRange),
        Some(at) => {
            let str_idx = le_u32(s, at) as usize;
            match spec_get_string(s, h, str_idx as int) {
                Err(e) => Err(e),
                Ok(units) => Ok((str_idx, spec_parse_descriptor(units))),
            }
        },
    }
}

/// Offset of the `n`-byte entry `idx` of `table`, when it lies inside `buf`.
fn entry_offset(buf: &[u8], table: (usize, usize), idx: usize, n: usize) -> (r: Option<usize>)
    requires
        1 <= n <= 32,
    ensures
        r matches Some(at) ==> table_entry(buf@, table, idx as int, n as int) == Some(at as int)
            && at + n <= buf.len(),
        r is None ==> table_entry(buf@, table, idx as int, n as int) is None,
{
    let (off, count) = table;
    let len = buf.len();
    if idx >= count {
        return None;
    }
    let at = match idx.checked_mul(n) {
        Some(x) => match off.checked_add(x) {
            Some(y) => y,
            None => {
                return None;
            },
        },
        None => {
            return None;
        },
    };
    if at > len || len - at < n {
        return None;
    }
    Some(at)
}

/// The string data item at `str_off`, which lies inside `buf`.
fn string_data_at(buf: &[u8], str_off: usize) -> (r: Result<&[u8], AscError>)
    requires
        str_off < buf@.len(),
    ensures
        match string_data(buf@, str_off as int) {
            Ok(b) => r matches Ok(x) && x@ == b,
            Err(e) => r == Err::<&[u8], AscError>(e),
        },
{
    let (_utf16_len, uleb_sz) = read_uleb128(buf, str_off)?;
    let data_start = str_off + uleb_sz;
    if data_start > buf.len() {
        return Err(AscError::UnterminatedStringDataItem);
    }
    proof {
        lemma_first_nul(buf@, data_start as int);
    }
    match find_nul(buf, data_start) {
        Some(p) => Ok(vstd::slice::slice_subrange(buf, data_start, p)),
        None => Err(AscError::UnterminatedStringDataItem),
    }
}

impl<'a> Dex<'a> {
    pub fn new(buf: &'a [u8]) -> (r: Result<Self, AscError>)
        ensures
            match spec_parse_header(buf@) {
                Ok(h) => r matches Ok(d) && d.buf@ == buf@ && d.header == h,
                Err(e) => r matches Err(x) && x == e,
            },
    {
        let header = Header::parse(buf)?;
        Ok(Self { buf, header })
    }

    /// Returns raw MUTF-8 payload without the terminating NUL byte.
    pub fn get_string_bytes(&self, str_idx: usize) -> (r: Result<&'a [u8], AscError>)
        ensures
            match spec_string_bytes(self.buf@, self.header, str_idx as int) {
                Ok(b) => r matches Ok(x) && x@ == b,
                Err(e) => r matches Err(x) && x == e,
            },
    {
        let buf: &'a [u8] = self.buf;
        let entry_off = match entry_offset(buf, self.header.strings, str_idx, 4) {
            Some(at) => at,
            None => {
                return Err(AscError::BadStringIdsRange);
            },
        };
        let string_off = u32_at(buf, entry_off).unwrap() as usize;
        if string_off >= buf.len() {
            return Err(AscError::BadStringDataOffset);
        }
        string_data_at(buf, string_off)
    }

    /// Decodes string at `str_idx` into a `DexStr`.
    pub fn get_string(&self, str_idx: usize) -> (r: Result<DexStr, AscError>)
        ensures
            match spec_get_string(self.buf@, self.header, str_idx as int) {
                Ok(u) => r matches Ok(x) && x@ == u,
                Err(e) => r matches Err(x) && x == e,
            },
    {
        let bytes = self.get_string_bytes(str_idx)?;
        Ok(decode_mutf8(bytes))
    }

    /// Returns the string offset in the DEX buffer for `str_idx`.
    pub fn get_string_data_off(&self, str_idx: usize) -> (r: Result<usize, AscError>)
        ensures
            match table_entry(self.buf@, self.header.strings, str_idx as int, 4) {
                Some(at) => r == Ok::<usize, AscError>(le_u32(self.buf@, at) as usize),
                None => r == Err::<usize, AscError>(AscError::BadStringIdsRange),
            },
    {
        match entry_offset(self.buf, self.header.strings, str_idx, 4) {
            Some(at) => Ok(u32_at(self.buf, at).unwrap() as usize),
            None => Err(AscError::BadStringIdsRange),
        }
    }

    /// Returns parsed `TypeInfo` for `type_idx`.
    pub fn get_type(&self, type_idx: usize) -> (r: Result<(usize, TypeInfo), AscError>)
        ensures
            match spec_get_type(self.buf@, self.header, type_idx as int) {
                Ok((i, t)) => r matches Ok((x, y)) && x == i && y@ == t,
                Err(e) => r matches Err(x) && x == e,
            },
    {
        let entry_off = match entry_offset(self.buf, self.header.types, type_idx, 4) {
            Some(at) => at,
            None => {
                return Err(AscError::BadTypeIdsRange);
            },
        };
        let str_idx = u32_at(self.buf, entry_off).unwrap() as usize;
        let desc = self.get_string(str_idx)?;
        let info = parse_descriptor(&desc);
        Ok((str_idx, info))
    }
}

/// Reads raw string bytes for string data at `str_off`.
pub fn read_string_data_bytes(buf: &[u8], str_off: usize) -> (r: Result<&[u8], AscError>)
    ensures
        match spec_read_string_data_bytes(buf@, str_off as int) {
            Ok(b) => r matches Ok(x) && x@ == b,
            Err(e) => r matches Err(x) && x == e,
        },
{
    if str_off >= buf.len() {
        return Err(AscError::BadStringDataOff);
    }
    string_data_at(buf, str_off)
}

/// The parameter type list at `params_off`: a `u32` count followed by that
/// many `u16` type indices, all inside `s`.
pub open spec fn type_list(s: Seq<u8>, params_off: int) -> Result<Seq<u16>, AscError> {
    if params_off + 4 > s.len() {
        Err(AscError::BadMethodIdsRange)
    } else {
        let n = le_u32(s, params_off);
        if params_off + 4 + 2 * n > s.len() {
            Err(AscError::BadMethodIdsRange)
        } else {
            Ok(Seq::new(n as nat, |i: int| le_u16(s, params_off + 4 + 2 * i)))
        }
    }
}

/// What `Dex::get_prototype` returns.
pub open spec fn spec_get_prototype(s: Seq<u8>, h: Header, idx: int) -> Result<ProtoInfoView, AscError> {
    match table_entry(s, h.prototypes, idx, 12) {
        None => Err(AscError::BadProtoIdsRange),
        Some(at) => {
            let params_off = le_u32(s, at + 8);
            let params = if params_off == 0 {
                Ok(Seq::<u16>::empty())
            } else {
                type_list(s, params_off as int)
            };
            match params {
                Err(e) => Err(e),
                Ok(p) => Ok(
                    ProtoInfoView {
                        shorty_idx: le_u32(s, at),
                        return_type_idx: le_u32(s, at + 4),
                        parameters_off: params_off,
                        param_type_idxs: p,
                    },
                ),
            }
        },
    }
}

/// What `Dex::get_field` returns.
pub open spec fn spec_get_field(s: Seq<u8>, h: Header, idx: int) -> Result<FieldInfo, AscError> {
    match table_entry(s, h.fields, idx, 8) {
        None => Err(AscError::BadFieldIdsRange),
        Some(at) => Ok(
            FieldInfo {
                index: idx as u32,
                class_idx: le_u16(s, at),
                type_idx: le_u16(s, at + 2),
                name_idx: le_u32(s, at + 4),
                access_flags: 0,
                is_static: false,
            },
        ),
    }
}

/// What `Dex::get_method` returns.
pub open spec fn spec_get_method(s: Seq<u8>, h: Header, idx: int) -> Result<MethodInfo, AscError> {
    match table_entry(s, h.methods, idx, 8) {
        None => Err(AscError::BadMethodIdsRange),
        Some(at) => Ok(
            MethodInfo {
                index: idx as u32,
                class_idx: le_u16(s, at),
                proto_idx: le_u16(s, at + 2),
                name_idx: le_u32(s, at + 4),
                access_flags: 0,
                code_off: 0,
                is_direct: false,
                is_virtual: false,
            },
        ),
    }
}

/// What `Dex::get_code_item` returns: the 16-byte code item header at
/// `code_off` and the `insns_size` 16-bit code units behind it.
pub open spec fn spec_get_code_item(s: Seq<u8>, code_off: int) -> Result<CodeItemView, AscError> {
    if code_off + 16 > s.len() {
        Err(AscError::BadCodeItemOffset)
    } else {
        let insns_size = le_u32(s, code_off + 12);
        let end = code_off + 16 + 2 * insns_size;
        if end > s.len() {
            Err(AscError::BadCodeItemOffset)
        } else {
            Ok(
                CodeItemView {
                    registers_size: le_u16(s, code_off),
                    ins_size: le_u16(s, code_off + 2),
                    outs_size: le_u16(s, code_off + 4),
                    tries_size: le_u16(s, code_off + 6),
                    debug_info_off: le_u32(s, code_off + 8),
                    insns_size,
                    insns_bytes: s.subrange(code_off + 16, end),
                },
            )
        }
    }
}

impl<'a> Dex<'a> {
    /// Returns parsed `ProtoInfo` for `proto_idx`.
    pub fn get_prototype(&self, proto_idx: usize) -> (r: Result<ProtoInfo, AscError>)
        ensures
            match spec_get_prototype(self.buf@, self.header, proto_idx as int) {
                Ok(p) => r matches Ok(x) && x@ == p,
                Err(e) => r matches Err(x) && x == e,
            },
    {
        let buf = self.buf;
        let len = buf.len();
        let entry_off = match entry_offset(buf, self.header.prototypes, proto_idx, 12) {
            Some(at) => at,
            None => {
                return Err(AscError::BadProtoIdsRange);
            },
        };
        let shorty_idx = u32_at(buf, entry_off).unwrap();
        let return_type_idx = u32_at(buf, entry_off + 4).unwrap();
        let parameters_off = u32_at(buf, entry_off + 8).unwrap();
        let mut param_type_idxs: Vec<u16> = Vec::new();
        if parameters_off != 0 {
            let p_off = parameters_off as usize;
            let size = match u32_at(buf, p_off) {
                Some(n) => n as usize,
                None => {
                    return Err(AscError::BadMethodIdsRange);
                },
            };
            let mut curr: usize = p_off + 4;
            let mut i: usize = 0;
            while i < size
                invariant
                    len == buf@.len(),
                    buf@ == self.buf@,
                    table_entry(buf@, self.header.prototypes, proto_idx as int, 12) == Some(
                        entry_off as int,
                    ),
                    parameters_off == le_u32(buf@, entry_off + 8),
                    parameters_off != 0,
                    p_off == parameters_off,
                    p_off + 4 <= len,
                    size == le_u32(buf@, p_off as int),
                    i <= size,
                    curr == p_off + 4 + 2 * i,
                    curr <= len,
                    param_type_idxs@ == Seq::new(i as nat, |j: int| le_u16(buf@, p_off + 4 + 2 * j)),
                decreases size - i,
            {
                let v = match u16_at(buf, curr) {
                    Some(v) => v,
                    None => {
                        return Err(AscError::BadMethodIdsRange);
                    },
                };
                param_type_idxs.push(v);
                proof {
                    assert(param_type_idxs@ =~= Seq::new(
                        (i + 1) as nat,
                        |j: int| le_u16(buf@, p_off + 4 + 2 * j),
                    ));
                }
                curr += 2;
                i += 1;
            }
        }
        Ok(ProtoInfo { shorty_idx, return_type_idx, parameters_off, param_type_idxs })
    }

    /// Returns parsed `FieldInfo` for `field_idx`.
    pub fn get_field(&self, field_idx: usize) -> (r: Result<FieldInfo, AscError>)
        ensures
            r == spec_get_field(self.buf@, self.header, field_idx as int),
    {
        let entry_off = match entry_offset(self.buf, self.header.fields, field_idx, 8) {
            Some(at) => at,
            None => {
                return Err(AscError::BadFieldIdsRange);
            },
        };
        Ok(
            FieldInfo {
                index: #[verifier::truncate] (field_idx as u32),
                class_idx: u16_at(self.buf, entry_off).unwrap(),
                type_idx: u16_at(self.buf, entry_off + 2).unwrap(),
                name_idx: u32_at(self.buf, entry_off + 4).unwrap(),
                access_flags: 0,
                is_static: false,
            },
        )
    }

    /// Returns parsed `MethodInfo` for `method_idx`.
    pub fn get_method(&self, method_idx: usize) -> (r: Result<MethodInfo, AscError>)
        ensures
            r == spec_get_method(self.buf@, self.header, method_idx as int),
    {
        let entry_off = match entry_offset(self.buf, self.header.methods, method_idx, 8) {
            Some(at) => at,
            None => {
                return Err(AscError::BadMethodIdsRange);
            },
        };
        Ok(
            MethodInfo {
                index: #[verifier::truncate] (method_idx as u32),
                class_idx: u16_at(self.buf, entry_off).unwrap(),
                proto_idx: u16_at(self.buf, entry_off + 2).unwrap(),
                name_idx: u32_at(self.buf, entry_off + 4).unwrap(),
                access_flags: 0,
                code_off: 0,
                is_direct: false,
                is_virtual: false,
            },
        )
    }

    /// Reads code_item header and instruction bytes at `code_off`.
    pub fn get_code_item(&self, code_off: usize) -> (r: Result<CodeItemInfo<'a>, AscError>)
        ensures
            match spec_get_code_item(self.buf@, code_off as int) {
                Ok(c) => r matches Ok(x) && x@ == c,
                Err(e) => r matches Err(x) && x == e,
            },
    {
        let buf: &'a [u8] = self.buf;
        let len = buf.len();
        if code_off > len || len - code_off < 16 {
            return Err(AscError::BadCodeItemOffset);
        }
        let registers_size = u16_at(buf, code_off).unwrap();
        let ins_size = u16_at(buf, code_off + 2).unwrap();
        let outs_size = u16_at(buf, code_off + 4).unwrap();
        let tries_size = u16_at(buf, code_off + 6).unwrap();
        let debug_info_off = u32_at(buf, code_off + 8).unwrap();
        let insns_size = u32_at(buf, code_off + 12).unwrap();
        let insns_byte_len = match (insns_size as usize).checked_mul(2) {
            Some(x) => x,
            None => {
                return Err(AscError::BadCodeItemOffset);
            },
        };
        let insns_start = code_off + 16;
        if insns_byte_len > len - insns_start {
            return Err(AscError::BadCodeItemOffset);
        }
        let insns_end = insns_start + insns_byte_len;
        let insns_bytes = vstd::slice::slice_subrange(buf, insns_start, insns_end);
        Ok(
            CodeItemInfo {
                registers_size,
                ins_size,
                outs_size,
                tries_size,
                debug_info_off,
                insns_size,
                insns_bytes,
            },
        )
    }
}

/// The low 32 bits of `x`.
pub open spec fn low32(x: int) -> u32 {
    (x % 0x1_0000_0000) as u32
}

/// `count` encoded fields at `p`: each a ULEB128 index difference from the
/// previous index (`prev` before the first) and ULEB128 access flags. Gives
/// the (index, flags) pairs and the offset after them.
pub open spec fn encoded_fields(s: Seq<u8>, p: int, count: nat, prev: u32) -> Result<
    (Seq<(u32, u32)>, int),
    AscError,
>
    decreases count,
{
    if count == 0 {
        Ok((seq![], p))
    } else {
        match spec_read_uleb128(s, p) {
            Err(e) => Err(e),
            Ok((diff, n1)) => {
                let idx = low32(prev + low32(diff as int));
                match spec_read_uleb128(s, p + n1) {
                    Err(e) => Err(e),
                    Ok((flags, n2)) => match encoded_fields(s, p + n1 + n2, (count - 1) as nat, idx) {
                        Err(e) => Err(e),
                        Ok((rest, q)) => Ok((seq![(idx, low32(flags as int))] + rest, q)),
                    },
                }
            },
        }
    }
}

/// `count` encoded methods at `p`: each a ULEB128 index difference, ULEB128
/// access flags and a ULEB128 code offset. Gives the (index, flags, code
/// offset) triples and the offset after them.
pub open spec fn encoded_methods(s: Seq<u8>, p: int, count: nat, prev: u32) -> Result<
    (Seq<(u32, u32, u32)>, int),
    AscError,
>
    decreases count,
{
    if count == 0 {
        Ok((seq![], p))
    } else {
        match spec_read_uleb128(s, p) {
            Err(e) => Err(e),
            Ok((diff, n1)) => {
                let idx = low32(prev + low32(diff as int));
                match spec_read_uleb128(s, p + n1) {
                    Err(e) => Err(e),
                    Ok((flags, n2)) => match spec_read_uleb128(s, p + n1 + n2) {
                        Err(e) => Err(e),
                        Ok((code_off, n3)) => match encoded_methods(
                            s,
                            p + n1 + n2 + n3,
                            (count - 1) as nat,
                            idx,
                        ) {
                            Err(e) => Err(e),
                            Ok((rest, q)) => Ok(
                                (
                                    seq![(idx, low32(flags as int), low32(code_off as int))]
                                        + rest,
                                    q,
                                ),
                            ),
                        },
                    },
                }
            },
        }
    }
}

/// The four lists of a class data item.
pub struct ClassDataView {
    pub static_fields: Seq<(u32, u32)>,
    pub instance_fields: Seq<(u32, u32)>,
    pub direct_methods: Seq<(u32, u32, u32)>,
    pub virtual_methods: Seq<(u32, u32, u32)>,
}

/// The class data item at `off`: four ULEB128 list sizes, then the static
/// fields, instance fields, direct methods and virtual methods.
pub open spec fn class_data(s: Seq<u8>, off: int) -> Result<ClassDataView, AscError> {
    match spec_read_uleb128(s, off) {
        Err(e) => Err(e),
        Ok((sf, n1)) => match spec_read_uleb128(s, off + n1) {
            Err(e) => Err(e),
            Ok((inf, n2)) => match spec_read_uleb128(s, off + n1 + n2) {
                Err(e) => Err(e),
                Ok((dm, n3)) => match spec_read_uleb128(s, off + n1 + n2 + n3) {
                    Err(e) => Err(e),
                    Ok((vm, n4)) => match encoded_fields(
                        s,
                        off + n1 + n2 + n3 + n4,
                        sf as nat,
                        0,
                    ) {
                        Err(e) => Err(e),
                        Ok((a, p1)) => match encoded_fields(s, p1, inf as nat, 0) {
                            Err(e) => Err(e),
                            Ok((b, p2)) => match encoded_methods(s, p2, dm as nat, 0) {
                                Err(e) => Err(e),
                                Ok((c, p3)) => match encoded_methods(s, p3, vm as nat, 0) {
                                    Err(e) => Err(e),
                                    Ok((d, _)) => Ok(
                                        ClassDataView {
                                            static_fields: a,
                                            instance_fields: b,
                                            direct_methods: c,
                                            virtual_methods: d,
                                        },
                                    ),
                                },
                            },
                        },
                    },
                },
            },
        },
    }
}

/// The method table entries that the (index, flags, code offset) triples
/// name, with flags and code offset filled in; triples whose index is outside
/// the method table are left out.
pub open spec fn linked_methods(s: Seq<u8>, h: Header, list: Seq<(u32, u32, u32)>, direct: bool) -> Seq<
    MethodInfo,
>
    decreases list.len(),
{
    if list.len() == 0 {
        seq![]
    } else {
        let (idx, flags, code_off) = list.last();
        let earlier = linked_methods(s, h, list.drop_last(), direct);
        match spec_get_method(s, h, idx as int) {
            Ok(m) => earlier.push(
                MethodInfo {
                    access_flags: flags,
                    code_off,
                    is_direct: direct,
                    is_virtual: !direct,
                    ..m
                },
            ),
            Err(_) => earlier,
        }
    }
}

/// A `ClassInfo` with its lists as sequences of tuples.
pub struct ClassInfoView {
    pub class_idx: u32,
    pub class_def_off: u32,
    pub class_data_off: u32,
    pub fullname: Seq<u16>,
    pub static_fields: Seq<(u32, u32)>,
    pub instance_fields: Seq<(u32, u32)>,
    pub direct_methods: Seq<(u32, u32, u32)>,
    pub virtual_methods: Seq<(u32, u32, u32)>,
    pub all_methods: Seq<MethodInfo>,
}

/// The pairs of a list of two-element arrays.
pub open spec fn pairs(v: Seq<[u32; 2]>) -> Seq<(u32, u32)> {
    v.map_values(|a: [u32; 2]| (a@[0], a@[1]))
}

/// The triples of a list of three-element arrays.
pub open spec fn triples(v: Seq<[u32; 3]>) -> Seq<(u32, u32, u32)> {
    v.map_values(|a: [u32; 3]| (a@[0], a@[1], a@[2]))
}

impl View for ClassInfo {
    type V = ClassInfoView;

    open spec fn view(&self) -> ClassInfoView {
        ClassInfoView {
            class_idx: self.class_idx,
            class_def_off: self.class_def_off,
            class_data_off: self.class_data_off,
            fullname: self.fullname@,
            static_fields: pairs(self.static_fields@),
            instance_fields: pairs(self.instance_fields@),
            direct_methods: triples(self.direct_methods@),
            virtual_methods: triples(self.virtual_methods@),
            all_methods: self.all_methods@,
        }
    }
}

/// What `Dex::get_class` returns.
pub open spec fn spec_get_class(s: Seq<u8>, h: Header, idx: int) -> Result<ClassInfoView, AscError> {
    match table_entry(s, h.classes, idx, 32) {
        None => Err(AscError::BadClassDefsRange),
        Some(at) => {
            let class_idx = le_u32(s, at);
            let class_data_off = le_u32(s, at + 24);
            match spec_get_type(s, h, class_idx as int) {
                Err(e) => Err(e),
                Ok((_, t)) => {
                    let data = if class_data_off == 0 {
                        Ok(
                            ClassDataView {
                                static_fields: seq![],
                                instance_fields: seq![],
                                direct_methods: seq![],
                                virtual_methods: seq![],
                            },
                        )
                    } else {
                        class_data(s, class_data_off as int)
                    };
                    match data {
                        Err(e) => Err(e),
                        Ok(d) => Ok(
                            ClassInfoView {
                                class_idx,
                                class_def_off: low32(at),
                                class_data_off,
                                fullname: t.descriptor,
                                static_fields: d.static_fields,
                                instance_fields: d.instance_fields,
                                direct_methods: d.direct_methods,
                                virtual_methods: d.virtual_methods,
                                all_methods: linked_methods(s, h, d.direct_methods, true)
                                    + linked_methods(s, h, d.virtual_methods, false),
                            },
                        ),
                    }
                },
            }
        },
    }
}

/// The index differences of `count` encoded fields at `p`: the first value
/// of each (difference, access flags) pair, as far as they parse.
pub open spec fn field_diffs(s: Seq<u8>, p: int, count: nat) -> Seq<u64>
    decreases count,
{
    if count == 0 {
        seq![]
    } else {
        match spec_read_uleb128(s, p) {
            Err(_) => seq![],
            Ok((diff, n1)) => match spec_read_uleb128(s, p + n1) {
                Err(_) => seq![],
                Ok((_, n2)) => seq![diff] + field_diffs(s, p + n1 + n2, (count - 1) as nat),
            },
        }
    }
}

/// The index differences of `count` encoded methods at `p`: the first value
/// of each (difference, access flags, code offset) triple, as far as they
/// parse.
pub open spec fn method_diffs(s: Seq<u8>, p: int, count: nat) -> Seq<u64>
    decreases count,
{
    if count == 0 {
        seq![]
    } else {
        match spec_read_uleb128(s, p) {
            Err(_) => seq![],
            Ok((diff, n1)) => match spec_read_uleb128(s, p + n1) {
                Err(_) => seq![],
                Ok((_, n2)) => match spec_read_uleb128(s, p + n1 + n2) {
                    Err(_) => seq![],
                    Ok((_, n3)) => seq![diff] + method_diffs(
                        s,
                        p + n1 + n2 + n3,
                        (count - 1) as nat,
                    ),
                },
            },
        }
    }
}

/// The sum of `xs`.
pub open spec fn sum_of(xs: Seq<u64>) -> int
    decreases xs.len(),
{
    if xs.len() == 0 {
        0
    } else {
        xs[0] + sum_of(xs.drop_first())
    }
}

/// Adding after keeping 32 bits keeps the same 32 bits.
proof fn lemma_low32_add(a: int, b: int, d: int)
    ensures
        low32(low32(a + low32(d)) + b) == low32(a + d + b),
        low32(a + low32(d)) == low32(a + d),
{
    let m: int = 0x1_0000_0000;
    vstd::arithmetic::div_mod::lemma_add_mod_noop_right(a, d, m);
    vstd::arithmetic::div_mod::lemma_add_mod_noop_right(b, a + d, m);
    assert(low32(a + low32(d)) as int == (a + d) % m);
    assert((b + (a + d)) % m == (b + ((a + d) % m)) % m);
    assert(a + d + b == b + (a + d));
}

/// Splitting the first element off `d` and `xs`'s first `k + 1` elements.
proof fn lemma_sum_take_step(d: u64, xs: Seq<u64>, k: int)
    requires
        0 <= k <= xs.len(),
    ensures
        sum_of((seq![d] + xs).take(k + 1)) == d + sum_of(xs.take(k)),
{
    let all = (seq![d] + xs).take(k + 1);
    assert(all.drop_first() =~= xs.take(k));
}

/// `count` encoded fields give `count` pairs, and the index of the `k`-th
/// is `prev` plus the first `k + 1` differences written, kept to 32 bits.
pub proof fn lemma_encoded_fields_indices(s: Seq<u8>, p: int, count: nat, prev: u32)
    requires
        encoded_fields(s, p, count, prev) is Ok,
    ensures
        encoded_fields(s, p, count, prev) matches Ok((list, _)) && list.len() == count
            && field_diffs(s, p, count).len() == count && forall|k: int|
            0 <= k < count ==> #[trigger] list[k].0 == low32(
                prev + sum_of(field_diffs(s, p, count).take(k + 1)),
            ),
    decreases count,
{
    if count > 0 {
        let (diff, n1) = spec_read_uleb128(s, p)->Ok_0;
        let (_flags, n2) = spec_read_uleb128(s, p + n1)->Ok_0;
        let idx = low32(prev + low32(diff as int));
        let q = p + n1 + n2;
        lemma_encoded_fields_indices(s, q, (count - 1) as nat, idx);
        let list = encoded_fields(s, p, count, prev)->Ok_0.0;
        let rest = encoded_fields(s, q, (count - 1) as nat, idx)->Ok_0.0;
        let tail = field_diffs(s, q, (count - 1) as nat);
        assert(field_diffs(s, p, count) == seq![diff] + tail);
        assert forall|k: int| 0 <= k < count implies #[trigger] list[k].0 == low32(
            prev + sum_of(field_diffs(s, p, count).take(k + 1)),
        ) by {
            lemma_sum_take_step(diff, tail, k);
            lemma_low32_add(prev as int, sum_of(tail.take(k)), diff as int);
            if k > 0 {
                assert(list[k] == rest[k - 1]);
                lemma_sum_take_step(diff, tail, k - 1);
                assert(tail.take(k - 1 + 1) == tail.take(k));
            } else {
                assert(tail.take(0) =~= Seq::<u64>::empty());
            }
        }
    }
}

/// `count` encoded methods give `count` triples, and the index of the `k`-th
/// is `prev` plus the first `k + 1` differences written, kept to 32 bits.
pub proof fn lemma_encoded_methods_indices(s: Seq<u8>, p: int, count: nat, prev: u32)
    requires
        encoded_methods(s, p, count, prev) is Ok,
    ensures
        encoded_methods(s, p, count, prev) matches Ok((list, _)) && list.len() == count
            && method_diffs(s, p, count).len() == count && forall|k: int|
            0 <= k < count ==> #[trigger] list[k].0 == low32(
                prev + sum_of(method_diffs(s, p, count).take(k + 1)),
            ),
    decreases count,
{
    if count > 0 {
        let (diff, n1) = spec_read_uleb128(s, p)->Ok_0;
        let (_flags, n2) = spec_read_uleb128(s, p + n1)->Ok_0;
        let (_code, n3) = spec_read_uleb128(s, p + n1 + n2)->Ok_0;
        let idx = low32(prev + low32(diff as int));
        let q = p + n1 + n2 + n3;
        lemma_encoded_methods_indices(s, q, (count - 1) as nat, idx);
        let list = encoded_methods(s, p, count, prev)->Ok_0.0;
        let rest = encoded_methods(s, q, (count - 1) as nat, idx)->Ok_0.0;
        let tail = method_diffs(s, q, (count - 1) as nat);
        assert(method_diffs(s, p, count) == seq![diff] + tail);
        assert forall|k: int| 0 <= k < count implies #[trigger] list[k].0 == low32(
            prev + sum_of(method_diffs(s, p, count).take(k + 1)),
        ) by {
            lemma_sum_take_step(diff, tail, k);
            lemma_low32_add(prev as int, sum_of(tail.take(k)), diff as int);
            if k > 0 {
                assert(list[k] == rest[k - 1]);
            } else {
                assert(tail.take(0) =~= Seq::<u64>::empty());
            }
        }
    }
}

/// Where the four lists of the class data item at `off` begin and how many
/// entries each holds by the four ULEB128 counts written before them: static
/// fields, instance fields, direct methods, virtual methods.
pub open spec fn class_data_layout(s: Seq<u8>, off: int) -> Option<Seq<(int, nat)>> {
    match spec_read_uleb128(s, off) {
        Err(_) => None,
        Ok((sf, n1)) => match spec_read_uleb128(s, off + n1) {
            Err(_) => None,
            Ok((inf, n2)) => match spec_read_uleb128(s, off + n1 + n2) {
                Err(_) => None,
                Ok((dm, n3)) => match spec_read_uleb128(s, off + n1 + n2 + n3) {
                    Err(_) => None,
                    Ok((vm, n4)) => {
                        let p0 = off + n1 + n2 + n3 + n4;
                        match encoded_fields(s, p0, sf as nat, 0) {
                            Err(_) => None,
                            Ok((_, p1)) => match encoded_fields(s, p1, inf as nat, 0) {
                                Err(_) => None,
                                Ok((_, p2)) => match encoded_methods(s, p2, dm as nat, 0) {
                                    Err(_) => None,
                                    Ok((_, p3)) => Some(
                                        seq![
                                            (p0, sf as nat),
                                            (p1, inf as nat),
                                            (p2, dm as nat),
                                            (p3, vm as nat),
                                        ],
                                    ),
                                },
                            },
                        }
                    },
                },
            },
        },
    }
}

/// The lists `get_class` gives for a class with data: each holds as many
/// entries as the count written for it at `class_data_off`; each index is
/// the sum, kept to 32 bits, of the differences written for that entry and
/// every entry before it in its list; and `all_methods` is the method table
/// entries of the direct methods, then of the virtual ones, that the table
/// holds, each with its flags and code offset from the class data.
pub proof fn lemma_get_class_lists(s: Seq<u8>, h: Header, idx: int)
    requires
        spec_get_class(s, h, idx) matches Ok(c) && c.class_data_off != 0,
    ensures
        spec_get_class(s, h, idx) matches Ok(c) && class_data_layout(
            s,
            c.class_data_off as int,
        ) matches Some(l) && ({
            &&& c.static_fields.len() == l[0].1
            &&& c.instance_fields.len() == l[1].1
            &&& c.direct_methods.len() == l[2].1
            &&& c.virtual_methods.len() == l[3].1
            &&& forall|k: int|
                0 <= k < l[0].1 ==> #[trigger] c.static_fields[k].0 == low32(
                    sum_of(field_diffs(s, l[0].0, l[0].1).take(k + 1)),
                )
            &&& forall|k: int|
                0 <= k < l[1].1 ==> #[trigger] c.instance_fields[k].0 == low32(
                    sum_of(field_diffs(s, l[1].0, l[1].1).take(k + 1)),
                )
            &&& forall|k: int|
                0 <= k < l[2].1 ==> #[trigger] c.direct_methods[k].0 == low32(
                    sum_of(method_diffs(s, l[2].0, l[2].1).take(k + 1)),
                )
            &&& forall|k: int|
                0 <= k < l[3].1 ==> #[trigger] c.virtual_methods[k].0 == low32(
                    sum_of(method_diffs(s, l[3].0, l[3].1).take(k + 1)),
                )
            &&& c.all_methods == linked_methods(s, h, c.direct_methods, true) + linked_methods(
                s,
                h,
                c.virtual_methods,
                false,
            )
        }),
{
    let c = spec_get_class(s, h, idx)->Ok_0;
    let off = c.class_data_off as int;
    let (sf, n1) = spec_read_uleb128(s, off)->Ok_0;
    let (inf, n2) = spec_read_uleb128(s, off + n1)->Ok_0;
    let (dm, n3) = spec_read_uleb128(s, off + n1 + n2)->Ok_0;
    let (vm, n4) = spec_read_uleb128(s, off + n1 + n2 + n3)->Ok_0;
    let p0 = off + n1 + n2 + n3 + n4;
    lemma_encoded_fields_indices(s, p0, sf as nat, 0);
    let p1 = encoded_fields(s, p0, sf as nat, 0)->Ok_0.1;
    lemma_encoded_fields_indices(s, p1, inf as nat, 0);
    let p2 = encoded_fields(s, p1, inf as nat, 0)->Ok_0.1;
    lemma_encoded_methods_indices(s, p2, dm as nat, 0);
    let p3 = encoded_methods(s, p2, dm as nat, 0)->Ok_0.1;
    lemma_encoded_methods_indices(s, p3, vm as nat, 0);
}

/// How many of the (index, flags, code offset) triples name an entry of the
/// method table.
pub open spec fn methods_in_table(s: Seq<u8>, h: Header, list: Seq<(u32, u32, u32)>) -> nat
    decreases list.len(),
{
    if list.len() == 0 {
        0
    } else {
        let earlier = methods_in_table(s, h, list.drop_last());
        if table_entry(s, h.methods, list.last().0 as int, 8) is Some {
            earlier + 1
        } else {
            earlier
        }
    }
}

/// Linking a list marks every method it gives as direct exactly when the
/// list is the direct one, and as virtual exactly when it is not; it gives
/// one method for each triple that names a method table entry, with that
/// triple's flags and code offset.
pub proof fn lemma_linked_methods_kinds(s: Seq<u8>, h: Header, list: Seq<(u32, u32, u32)>, direct: bool)
    ensures
        linked_methods(s, h, list, direct).len() == methods_in_table(s, h, list),
        forall|k: int|
            0 <= k < linked_methods(s, h, list, direct).len() ==> (#[trigger] linked_methods(
                s,
                h,
                list,
                direct,
            )[k]).is_direct == direct && linked_methods(s, h, list, direct)[k].is_virtual
                == !direct,
    decreases list.len(),
{
    if list.len() > 0 {
        lemma_linked_methods_kinds(s, h, list.drop_last(), direct);
    }
}

/// The methods `get_class` links: first one per direct method that the
/// method table holds, each direct and not virtual, then one per virtual
/// method that it holds, each virtual and not direct.
pub proof fn lemma_get_class_method_kinds(s: Seq<u8>, h: Header, idx: int)
    requires
        spec_get_class(s, h, idx) is Ok,
    ensures
        spec_get_class(s, h, idx) matches Ok(c) && ({
            let nd = methods_in_table(s, h, c.direct_methods);
            &&& c.all_methods.len() == nd + methods_in_table(s, h, c.virtual_methods)
            &&& forall|k: int|
                0 <= k < c.all_methods.len() ==> (#[trigger] c.all_methods[k]).is_virtual
                    == !c.all_methods[k].is_direct && (c.all_methods[k].is_direct <==> k < nd)
        }),
{
    let c = spec_get_class(s, h, idx)->Ok_0;
    lemma_linked_methods_kinds(s, h, c.direct_methods, true);
    lemma_linked_methods_kinds(s, h, c.virtual_methods, false);
    let d = linked_methods(s, h, c.direct_methods, true);
    let v = linked_methods(s, h, c.virtual_methods, false);
    assert forall|k: int| 0 <= k < c.all_methods.len() implies (#[trigger] c.all_methods[k]).is_virtual
        == !c.all_methods[k].is_direct && (c.all_methods[k].is_direct <==> k < d.len()) by {
        if k < d.len() {
            assert(c.all_methods[k] == d[k]);
        } else {
            assert(c.all_methods[k] == v[k - d.len()]);
        }
    }
}

/// A prototype's parameters: none when it has no type list; otherwise as
/// many as the `u32` count at `parameters_off` says, the `i`-th being the
/// little-endian `u16` in the `i`-th two-byte slot after that count.
pub proof fn lemma_prototype_params(s: Seq<u8>, h: Header, idx: int)
    requires
        spec_get_prototype(s, h, idx) is Ok,
    ensures
        spec_get_prototype(s, h, idx) matches Ok(p) && ({
            let off = p.parameters_off as int;
            &&& p.parameters_off == 0 ==> p.param_type_idxs.len() == 0
            &&& p.parameters_off != 0 ==> {
                &&& off + 4 + 2 * p.param_type_idxs.len() <= s.len()
                &&& p.param_type_idxs.len() == s[off] + 256 * s[off + 1] + 65536 * s[off + 2]
                    + 16777216 * s[off + 3]
                &&& forall|i: int|
                    0 <= i < p.param_type_idxs.len() ==> #[trigger] p.param_type_idxs[i] == s[off
                        + 4 + 2 * i] + 256 * s[off + 5 + 2 * i]
            }
        }),
{
    let p = spec_get_prototype(s, h, idx)->Ok_0;
    let off = p.parameters_off as int;
    if p.parameters_off != 0 {
        let n = le_u32(s, off);
        assert(n as int == s[off] + 256 * s[off + 1] + 65536 * s[off + 2] + 16777216 * s[off + 3]);
        assert forall|i: int| 0 <= i < p.param_type_idxs.len() implies #[trigger] p.param_type_idxs[i]
            == s[off + 4 + 2 * i] + 256 * s[off + 5 + 2 * i] by {
            assert(p.param_type_idxs[i] == le_u16(s, off + 4 + 2 * i));
        }
    }
}

/// The bytes of a string data item are the ones right after its ULEB128
/// length, up to and not including the first NUL, which ends them.
pub proof fn lemma_string_data_bytes(s: Seq<u8>, off: int)
    requires
        string_data(s, off) is Ok,
    ensures
        string_data(s, off) matches Ok(b) && spec_read_uleb128(s, off) matches Ok((_, n)) && ({
            let start = off + n;
            &&& 0 <= start
            &&& start + b.len() < s.len()
            &&& b == s.subrange(start, start + b.len())
            &&& s[start + b.len()] == 0
            &&& forall|j: int| 0 <= j < b.len() ==> #[trigger] b[j] != 0
        }),
{
    let (_, n) = spec_read_uleb128(s, off)->Ok_0;
    let start = off + n;
    lemma_first_nul(s, start);
    let b = string_data(s, off)->Ok_0;
    assert forall|j: int| 0 <= j < b.len() implies #[trigger] b[j] != 0 by {
        assert(b[j] == s[start + j]);
    }
}

/// `acc` put in front of the list a parse gives, or its error.
pub open spec fn prefixed<T>(acc: Seq<T>, r: Result<(Seq<T>, int), AscError>) -> Result<
    (Seq<T>, int),
    AscError,
> {
    match r {
        Ok((rest, q)) => Ok((acc + rest, q)),
        Err(e) => Err(e),
    }
}

/// `low32(prev + low32(diff))`, the next delta-coded index.
fn next_index(prev: u32, diff: u64) -> (r: u32)
    ensures
        r == low32(prev + low32(diff as int)),
{
    let d = (diff % 0x1_0000_0000) as u32;
    ((prev as u64 + d as u64) % 0x1_0000_0000) as u32
}

/// `count` encoded fields at `p`.
fn read_encoded_fields(buf: &[u8], p: usize, count: u64) -> (r: Result<(Vec<[u32; 2]>, usize), AscError>)
    requires
        p <= buf@.len(),
    ensures
        match encoded_fields(buf@, p as int, count as nat, 0) {
            Ok((l, q)) => r matches Ok((v, x)) && pairs(v@) == l && x == q && x <= buf@.len(),
            Err(e) => r matches Err(x) && x == e,
        },
{
    let mut out: Vec<[u32; 2]> = Vec::new();
    let mut pos: usize = p;
    let mut idx: u32 = 0;
    let mut i: u64 = 0;
    assert(pairs(out@) =~= Seq::<(u32, u32)>::empty());
    proof {
        match encoded_fields(buf@, p as int, count as nat, 0) {
            Ok((l, q)) => {
                assert(Seq::<(u32, u32)>::empty() + l =~= l);
            },
            Err(_) => {},
        }
    }
    while i < count
        invariant
            pos <= buf@.len(),
            i <= count,
            encoded_fields(buf@, p as int, count as nat, 0) == prefixed(
                pairs(out@),
                encoded_fields(buf@, pos as int, (count - i) as nat, idx),
            ),
        decreases count - i,
    {
        let ghost before = pairs(out@);
        let ghost k = (count - i) as nat;
        let (diff, n1) = read_uleb128(buf, pos)?;
        let next = next_index(idx, diff);
        let (flags, n2) = read_uleb128(buf, pos + n1)?;
        let ghost tail = encoded_fields(buf@, (pos + n1 + n2) as int, (k - 1) as nat, next);
        out.push([next, (flags % 0x1_0000_0000) as u32]);
        proof {
            assert(pairs(out@) =~= before.push((next, low32(flags as int))));
            match tail {
                Ok((rest, q)) => {
                    assert(before + (seq![(next, low32(flags as int))] + rest) =~= pairs(out@)
                        + rest);
                },
                Err(_) => {},
            }
        }
        pos = pos + n1 + n2;
        idx = next;
        i += 1;
    }
    proof {
        assert(pairs(out@) + Seq::<(u32, u32)>::empty() =~= pairs(out@));
    }
    Ok((out, pos))
}

/// `count` encoded methods at `p`.
fn read_encoded_methods(buf: &[u8], p: usize, count: u64) -> (r: Result<(Vec<[u32; 3]>, usize), AscError>)
    requires
        p <= buf@.len(),
    ensures
        match encoded_methods(buf@, p as int, count as nat, 0) {
            Ok((l, q)) => r matches Ok((v, x)) && triples(v@) == l && x == q && x <= buf@.len(),
            Err(e) => r matches Err(x) && x == e,
        },
{
    let mut out: Vec<[u32; 3]> = Vec::new();
    let mut pos: usize = p;
    let mut idx: u32 = 0;
    let mut i: u64 = 0;
    assert(triples(out@) =~= Seq::<(u32, u32, u32)>::empty());
    proof {
        match encoded_methods(buf@, p as int, count as nat, 0) {
            Ok((l, q)) => {
                assert(Seq::<(u32, u32, u32)>::empty() + l =~= l);
            },
            Err(_) => {},
        }
    }
    while i < count
        invariant
            pos <= buf@.len(),
            i <= count,
            encoded_methods(buf@, p as int, count as nat, 0) == prefixed(
                triples(out@),
                encoded_methods(buf@, pos as int, (count - i) as nat, idx),
            ),
        decreases count - i,
    {
        let ghost before = triples(out@);
        let ghost k = (count - i) as nat;
        let (diff, n1) = read_uleb128(buf, pos)?;
        let next = next_index(idx, diff);
        let (flags, n2) = read_uleb128(buf, pos + n1)?;
        let (code_off, n3) = read_uleb128(buf, pos + n1 + n2)?;
        let ghost tail = encoded_methods(buf@, (pos + n1 + n2 + n3) as int, (k - 1) as nat, next);
        let ghost t = (next, low32(flags as int), low32(code_off as int));
        out.push([next, (flags % 0x1_0000_0000) as u32, (code_off % 0x1_0000_0000) as u32]);
        proof {
            assert(triples(out@) =~= before.push(t));
            match tail {
                Ok((rest, q)) => {
                    assert(before + (seq![t] + rest) =~= triples(out@) + rest);
                },
                Err(_) => {},
            }
        }
        pos = pos + n1 + n2 + n3;
        idx = next;
        i += 1;
    }
    proof {
        assert(triples(out@) + Seq::<(u32, u32, u32)>::empty() =~= triples(out@));
    }
    Ok((out, pos))
}

impl<'a> Dex<'a> {
    /// Appends the method table entries that `list` names, with flags and code
    /// offset filled in.
    fn link_methods(&self, list: &Vec<[u32; 3]>, direct: bool, all: &mut Vec<MethodInfo>)
        ensures
            final(all)@ == old(all)@ + linked_methods(self.buf@, self.header, triples(list@), direct),
    {
        let ghost start = all@;
        let mut i: usize = 0;
        assert(triples(list@).subrange(0, 0) =~= Seq::<(u32, u32, u32)>::empty());
        assert(all@ + Seq::<MethodInfo>::empty() =~= all@);
        while i < list.len()
            invariant
                i <= list@.len(),
                all@ == start + linked_methods(
                    self.buf@,
                    self.header,
                    triples(list@).subrange(0, i as int),
                    direct,
                ),
            decreases list@.len() - i,
        {
            let entry = list[i];
            let ghost sub = triples(list@).subrange(0, i as int + 1);
            proof {
                assert(sub.drop_last() =~= triples(list@).subrange(0, i as int));
                assert(sub.last() == (entry@[0], entry@[1], entry@[2]));
            }
            match self.get_method(entry[0] as usize) {
                Ok(m) => {
                    all.push(
                        MethodInfo {
                            access_flags: entry[1],
                            code_off: entry[2],
                            is_direct: direct,
                            is_virtual: !direct,
                            ..m
                        },
                    );
                    proof {
                        assert(all@ =~= start + linked_methods(
                            self.buf@,
                            self.header,
                            sub,
                            direct,
                        ));
                    }
                },
                Err(_) => {},
            }
            i += 1;
        }
        assert(triples(list@).subrange(0, list@.len() as int) =~= triples(list@));
    }

    /// Parses `ClassInfo` for class definition index `class_def_idx`.
    pub fn get_class(&self, class_def_idx: usize) -> (r: Result<ClassInfo, AscError>)
        ensures
            match spec_get_class(self.buf@, self.header, class_def_idx as int) {
                Ok(c) => r matches Ok(x) && x@ == c,
                Err(e) => r matches Err(x) && x == e,
            },
    {
        let buf = self.buf;
        let entry_off = match entry_offset(buf, self.header.classes, class_def_idx, 32) {
            Some(at) => at,
            None => {
                return Err(AscError::BadClassDefsRange);
            },
        };
        let class_idx = u32_at(buf, entry_off).unwrap();
        let class_data_off = u32_at(buf, entry_off + 24).unwrap();
        let (_str_idx, type_info) = self.get_type(class_idx as usize)?;
        let fullname = type_info.descriptor;
        let mut static_fields: Vec<[u32; 2]> = Vec::new();
        let mut instance_fields: Vec<[u32; 2]> = Vec::new();
        let mut direct_methods: Vec<[u32; 3]> = Vec::new();
        let mut virtual_methods: Vec<[u32; 3]> = Vec::new();
        let mut all_methods: Vec<MethodInfo> = Vec::new();
        if class_data_off != 0 {
            let p = class_data_off as usize;
            let (static_fields_size, n1) = read_uleb128(buf, p)?;
            let (instance_fields_size, n2) = read_uleb128(buf, p + n1)?;
            let (direct_methods_size, n3) = read_uleb128(buf, p + n1 + n2)?;
            let (virtual_methods_size, n4) = read_uleb128(buf, p + n1 + n2 + n3)?;
            let p = p + n1 + n2 + n3 + n4;
            let (list, p) = read_encoded_fields(buf, p, static_fields_size)?;
            static_fields = list;
            let (list, p) = read_encoded_fields(buf, p, instance_fields_size)?;
            instance_fields = list;
            let (list, p) = read_encoded_methods(buf, p, direct_methods_size)?;
            direct_methods = list;
            let (list, _p) = read_encoded_methods(buf, p, virtual_methods_size)?;
            virtual_methods = list;
            self.link_methods(&direct_methods, true, &mut all_methods);
            self.link_methods(&virtual_methods, false, &mut all_methods);
        } else {
            proof {
                assert(pairs(static_fields@) =~= Seq::<(u32, u32)>::empty());
                assert(triples(direct_methods@) =~= Seq::<(u32, u32, u32)>::empty());
                assert(all_methods@ =~= linked_methods(buf@, self.header, seq![], true)
                    + linked_methods(buf@, self.header, seq![], false));
            }
        }
        proof {
            assert(all_methods@ =~= linked_methods(buf@, self.header, triples(direct_methods@), true)
                + linked_methods(buf@, self.header, triples(virtual_methods@), false));
        }
        Ok(
            ClassInfo {
                class_idx,
                class_def_off: ((entry_off as u64) % 0x1_0000_0000) as u32,
                class_data_off,
                fullname,
                static_fields,
                instance_fields,
                direct_methods,
                virtual_methods,
                all_methods,
            },
        )
    }
}

/// The binary search `find_type_idx_raw` makes over type indices
/// `left..=right`, comparing each descriptor's raw bytes with `target`.
pub open spec fn type_search(
    s: Seq<u8>,
    string_off: int,
    string_count: int,
    type_off: int,
    target: Seq<u8>,
    left: int,
    right: int,
) -> Result<Option<usize>, AscError>
    decreases right - left + 1,
{
    if left < 0 || left > right {
        Ok(None)
    } else {
        let mid = (left + right) / 2;
        let str_idx = le_u32(s, type_off + mid * 4);
        if str_idx >= string_count {
            Err(AscError::BadTypeIdToStringIdx)
        } else {
            let str_off = le_u32(s, string_off + str_idx * 4);
            match spec_read_string_data_bytes(s, str_off as int) {
                Err(e) => Err(e),
                Ok(desc) => {
                    let c = lex_order(desc, target);
                    if c == 0 {
                        Ok(Some(mid as usize))
                    } else if c < 0 {
                        type_search(s, string_off, string_count, type_off, target, mid + 1, right)
                    } else if mid == 0 {
                        Ok(None)
                    } else {
                        type_search(s, string_off, string_count, type_off, target, left, mid - 1)
                    }
                },
            }
        }
    }
}

/// What `find_type_idx_raw` returns.
pub open spec fn spec_find_type_idx_raw(s: Seq<u8>, target: Seq<u8>) -> Result<Option<usize>, AscError> {
    if !has_dex_header(s) {
        Ok(None)
    } else {
        let string_count = le_u32(s, 0x38) as int;
        let string_off = le_u32(s, 0x3c) as int;
        let type_count = le_u32(s, 0x40) as int;
        let type_off = le_u32(s, 0x44) as int;
        if string_count == 0 || type_count == 0 {
            Ok(None)
        } else if string_off + string_count * 4 > s.len() {
            Err(AscError::BadStringIdsRange)
        } else if type_off + type_count * 4 > s.len() {
            Err(AscError::BadTypeIdsRange)
        } else {
            type_search(s, string_off, string_count, type_off, target, 0, type_count - 1)
        }
    }
}

/// The type table's entries `type_idx` names a string whose raw bytes are `target`.
pub open spec fn type_descriptor_is(s: Seq<u8>, type_idx: int, target: Seq<u8>) -> bool {
    let string_off = le_u32(s, 0x3c) as int;
    let type_off = le_u32(s, 0x44) as int;
    let str_idx = le_u32(s, type_off + type_idx * 4) as int;
    0 <= type_idx < le_u32(s, 0x40) && str_idx < le_u32(s, 0x38) && spec_read_string_data_bytes(
        s,
        le_u32(s, string_off + str_idx * 4) as int,
    ) == Ok::<Seq<u8>, AscError>(target)
}

proof fn lemma_type_search_sound(
    s: Seq<u8>,
    string_off: int,
    string_count: int,
    type_off: int,
    target: Seq<u8>,
    left: int,
    right: int,
)
    requires
        right <= u32::MAX,
    ensures
        type_search(s, string_off, string_count, type_off, target, left, right) matches Ok(Some(i))
            ==> left <= i <= right && le_u32(s, type_off + i * 4) < string_count
            && spec_read_string_data_bytes(
            s,
            le_u32(s, string_off + le_u32(s, type_off + i * 4) * 4) as int,
        ) == Ok::<Seq<u8>, AscError>(target),
    decreases right - left + 1,
{
    if 0 <= left <= right {
        let mid = (left + right) / 2;
        let str_idx = le_u32(s, type_off + mid * 4);
        if str_idx < string_count {
            let str_off = le_u32(s, string_off + str_idx * 4);
            match spec_read_string_data_bytes(s, str_off as int) {
                Err(_) => {},
                Ok(desc) => {
                    lemma_lex_order_zero(desc, target);
                    let c = lex_order(desc, target);
                    if c < 0 {
                        lemma_type_search_sound(
                            s,
                            string_off,
                            string_count,
                            type_off,
                            target,
                            mid + 1,
                            right,
                        );
                    } else if c > 0 && mid > 0 {
                        lemma_type_search_sound(
                            s,
                            string_off,
                            string_count,
                            type_off,
                            target,
                            left,
                            mid - 1,
                        );
                    }
                },
            }
        }
    }
}

/// A type index that `find_type_idx_raw` returns names a descriptor whose
/// raw bytes are the target.
pub proof fn lemma_find_type_idx_sound(s: Seq<u8>, target: Seq<u8>)
    ensures
        spec_find_type_idx_raw(s, target) matches Ok(Some(i)) ==> type_descriptor_is(
            s,
            i as int,
            target,
        ),
{
    if has_dex_header(s) {
        let string_count = le_u32(s, 0x38) as int;
        let string_off = le_u32(s, 0x3c) as int;
        let type_count = le_u32(s, 0x40) as int;
        let type_off = le_u32(s, 0x44) as int;
        lemma_type_search_sound(s, string_off, string_count, type_off, target, 0, type_count - 1);
    }
}

/// The raw descriptor bytes of type `i` of the DEX file `s`, read as
/// `find_type_idx_raw` reads them, when they can be read.
pub open spec fn type_desc(s: Seq<u8>, i: int) -> Option<Seq<u8>> {
    let string_count = le_u32(s, 0x38) as int;
    let string_off = le_u32(s, 0x3c) as int;
    let type_off = le_u32(s, 0x44) as int;
    let str_idx = le_u32(s, type_off + i * 4) as int;
    if str_idx >= string_count {
        None
    } else {
        match spec_read_string_data_bytes(s, le_u32(s, string_off + str_idx * 4) as int) {
            Ok(d) => Some(d),
            Err(_) => None,
        }
    }
}

/// Type `i`'s descriptor sorts before type `j`'s.
pub open spec fn desc_before(s: Seq<u8>, i: int, j: int) -> bool {
    type_desc(s, i) matches Some(a) && type_desc(s, j) matches Some(b) && lex_order(a, b) < 0
}

/// The DEX file `s` has a header, its string and type tables lie inside it,
/// and every type's descriptor can be read, each sorting after the one before
/// as the DEX format demands.
pub open spec fn type_table_sorted(s: Seq<u8>) -> bool {
    let n = le_u32(s, 0x40) as int;
    &&& has_dex_header(s)
    &&& le_u32(s, 0x3c) + le_u32(s, 0x38) * 4 <= s.len()
    &&& le_u32(s, 0x44) + n * 4 <= s.len()
    &&& forall|i: int| 0 <= i < n ==> #[trigger] type_desc(s, i) is Some
    &&& forall|i: int, j: int| 0 <= i < j < n ==> #[trigger] desc_before(s, i, j)
}

/// One step of the binary search over `left..=right`, whose middle type's
/// descriptor can be read.
proof fn lemma_type_search_unfold(s: Seq<u8>, target: Seq<u8>, left: int, right: int)
    requires
        0 <= left <= right,
        type_desc(s, (left + right) / 2) is Some,
    ensures
        ({
            let mid = (left + right) / 2;
            let d = type_desc(s, mid)->Some_0;
            let so = le_u32(s, 0x3c) as int;
            let sc = le_u32(s, 0x38) as int;
            let to = le_u32(s, 0x44) as int;
            type_search(s, so, sc, to, target, left, right) == if lex_order(d, target) == 0 {
                Ok::<Option<usize>, AscError>(Some(mid as usize))
            } else if lex_order(d, target) < 0 {
                type_search(s, so, sc, to, target, mid + 1, right)
            } else if mid == 0 {
                Ok::<Option<usize>, AscError>(None)
            } else {
                type_search(s, so, sc, to, target, left, mid - 1)
            }
        }),
{
}

/// The binary search over `left..=right` of a sorted type table finds type
/// `t`, whose descriptor is the target.
proof fn lemma_type_search_finds(s: Seq<u8>, target: Seq<u8>, left: int, right: int, t: int)
    requires
        type_table_sorted(s),
        0 <= left <= t <= right,
        right < le_u32(s, 0x40),
        type_desc(s, t) == Some(target),
    ensures
        type_search(
            s,
            le_u32(s, 0x3c) as int,
            le_u32(s, 0x38) as int,
            le_u32(s, 0x44) as int,
            target,
            left,
            right,
        ) == Ok::<Option<usize>, AscError>(Some(t as usize)),
    decreases right - left,
{
    let mid = (left + right) / 2;
    assert(type_desc(s, mid) is Some);
    let d = type_desc(s, mid)->Some_0;
    lemma_type_search_unfold(s, target, left, right);
    lemma_lex_order_zero(d, target);
    lemma_lex_order_zero(target, target);
    lemma_lex_order_antisym(d, target);
    if t < mid {
        assert(desc_before(s, t, mid));
    } else if t > mid {
        assert(desc_before(s, mid, t));
    }
    if lex_order(d, target) < 0 {
        lemma_type_search_finds(s, target, mid + 1, right, t);
    } else if lex_order(d, target) > 0 {
        lemma_type_search_finds(s, target, left, mid - 1, t);
    }
}

/// The binary search over `left..=right` of a sorted type table in which no
/// type has the target's descriptor finds nothing.
proof fn lemma_type_search_absent(s: Seq<u8>, target: Seq<u8>, left: int, right: int)
    requires
        type_table_sorted(s),
        0 <= left,
        right < le_u32(s, 0x40),
        forall|t: int| left <= t <= right ==> #[trigger] type_desc(s, t) != Some(target),
    ensures
        type_search(
            s,
            le_u32(s, 0x3c) as int,
            le_u32(s, 0x38) as int,
            le_u32(s, 0x44) as int,
            target,
            left,
            right,
        ) == Ok::<Option<usize>, AscError>(None),
    decreases right - left + 1,
{
    if left <= right {
        let mid = (left + right) / 2;
        assert(type_desc(s, mid) is Some);
        let d = type_desc(s, mid)->Some_0;
        lemma_type_search_unfold(s, target, left, right);
        lemma_lex_order_zero(d, target);
        if lex_order(d, target) < 0 {
            lemma_type_search_absent(s, target, mid + 1, right);
        } else if lex_order(d, target) > 0 && mid > 0 {
            lemma_type_search_absent(s, target, left, mid - 1);
        }
    }
}

/// On a DEX file whose type table is sorted, as the format demands, the
/// binary search finds the type whose descriptor is the target.
pub proof fn lemma_find_type_idx_complete(s: Seq<u8>, target: Seq<u8>, t: int)
    requires
        type_table_sorted(s),
        0 <= t < le_u32(s, 0x40),
        type_desc(s, t) == Some(target),
    ensures
        spec_find_type_idx_raw(s, target) == Ok::<Option<usize>, AscError>(Some(t as usize)),
{
    lemma_type_search_finds(s, target, 0, le_u32(s, 0x40) - 1, t);
}

/// On a DEX file whose type table is sorted, the binary search finds nothing
/// when no type has the target's descriptor.
pub proof fn lemma_find_type_idx_absent(s: Seq<u8>, target: Seq<u8>)
    requires
        type_table_sorted(s),
        forall|t: int| 0 <= t < le_u32(s, 0x40) ==> #[trigger] type_desc(s, t) != Some(target),
    ensures
        spec_find_type_idx_raw(s, target) == Ok::<Option<usize>, AscError>(None),
{
    if le_u32(s, 0x40) > 0 && le_u32(s, 0x38) > 0 {
        lemma_type_search_absent(s, target, 0, le_u32(s, 0x40) - 1);
    }
}

/// Binary searches `type_ids` in a raw DEX buffer for `target_bytes`.
pub fn find_type_idx_raw(buf: &[u8], target_bytes: &[u8]) -> (r: Result<Option<usize>, AscError>)
    ensures
        r == spec_find_type_idx_raw(buf@, target_bytes@),
{
    if !check_dex_header(buf) {
        return Ok(None);
    }
    let len = buf.len();
    let string_count = read_field(buf, 0x38);
    let string_off = read_field(buf, 0x3c);
    let type_count = read_field(buf, 0x40);
    let type_off = read_field(buf, 0x44);
    if string_count == 0 || type_count == 0 {
        return Ok(None);
    }
    let string_end = match string_count.checked_mul(4) {
        Some(x) => match string_off.checked_add(x) {
            Some(y) => y,
            None => {
                return Err(AscError::BadStringIdsRange);
            },
        },
        None => {
            return Err(AscError::BadStringIdsRange);
        },
    };
    if string_end > len {
        return Err(AscError::BadStringIdsRange);
    }
    let type_end = match type_count.checked_mul(4) {
        Some(x) => match type_off.checked_add(x) {
            Some(y) => y,
            None => {
                return Err(AscError::BadTypeIdsRange);
            },
        },
        None => {
            return Err(AscError::BadTypeIdsRange);
        },
    };
    if type_end > len {
        return Err(AscError::BadTypeIdsRange);
    }
    let ghost s = buf@;
    let ghost target = target_bytes@;
    let ghost so = string_off as int;
    let ghost sc = string_count as int;
    let ghost to = type_off as int;
    let mut left: usize = 0;
    let mut right: usize = type_count - 1;
    loop
        invariant
            s == buf@,
            len == s.len(),
            target == target_bytes@,
            so == string_off,
            sc == string_count,
            to == type_off,
            string_off + string_count * 4 <= len,
            type_off + type_count * 4 <= len,
            right < type_count,
            spec_find_type_idx_raw(s, target) == type_search(
                s,
                so,
                sc,
                to,
                target,
                left as int,
                right as int,
            ),
        decreases right - left + 1,
    {
        if left > right {
            return Ok(None);
        }
        let mid = (left + right) / 2;
        let str_idx = u32_at(buf, type_off + mid * 4).unwrap() as usize;
        if str_idx >= string_count {
            return Err(AscError::BadTypeIdToStringIdx);
        }
        let str_off = u32_at(buf, string_off + str_idx * 4).unwrap() as usize;
        if str_off >= len {
            return Err(AscError::BadStringDataOff);
        }
        let desc_bytes = read_string_data_bytes(buf, str_off)?;
        let c = lex_compare(desc_bytes, target_bytes);
        if c == 0 {
            return Ok(Some(mid));
        } else if c < 0 {
            left = mid + 1;
        } else {
            if mid == 0 {
                return Ok(None);
            }
            right = mid - 1;
        }
    }
}

/// What `class_defs_contains_type_idx_raw` returns.
pub open spec fn spec_class_defs_contains(s: Seq<u8>, type_idx: u32) -> Result<bool, AscError> {
    if s.len() < 0x68 {
        Ok(false)
    } else {
        let class_count = le_u32(s, 0x60) as int;
        let class_off = le_u32(s, 0x64) as int;
        if class_count == 0 {
            Ok(false)
        } else if class_off + class_count * 32 > s.len() {
            Err(AscError::BadClassDefsRange)
        } else {
            Ok(
                exists|k: int|
                    0 <= k < class_count && #[trigger] le_u32(s, class_off + 32 * k) == type_idx,
            )
        }
    }
}

/// Checks if `class_defs` table contains `type_idx`.
pub fn class_defs_contains_type_idx_raw(buf: &[u8], type_idx: u32) -> (r: Result<bool, AscError>)
    ensures
        r == spec_class_defs_contains(buf@, type_idx),
{
    let len = buf.len();
    if len < 0x68 {
        return Ok(false);
    }
    let class_count = read_field(buf, 0x60);
    let class_off = read_field(buf, 0x64);
    if class_count == 0 {
        return Ok(false);
    }
    let class_end = match class_count.checked_mul(32) {
        Some(x) => match class_off.checked_add(x) {
            Some(y) => y,
            None => {
                return Err(AscError::BadClassDefsRange);
            },
        },
        None => {
            return Err(AscError::BadClassDefsRange);
        },
    };
    if class_end > len {
        return Err(AscError::BadClassDefsRange);
    }
    let mut k: usize = 0;
    while k < class_count
        invariant
            len == buf@.len(),
            len >= 0x68,
            class_count != 0,
            class_off + class_count * 32 <= len,
            class_count == le_u32(buf@, 0x60),
            class_off == le_u32(buf@, 0x64),
            k <= class_count,
            forall|j: int| 0 <= j < k ==> #[trigger] le_u32(buf@, class_off + 32 * j) != type_idx,
        decreases class_count - k,
    {
        if u32_at(buf, class_off + 32 * k).unwrap() == type_idx {
            proof {
                let co = le_u32(buf@, 0x64) as int;
                let cc = le_u32(buf@, 0x60) as int;
                assert(co == class_off && cc == class_count);
                assert(le_u32(buf@, co + 32 * (k as int)) == type_idx);
                assert(exists|j: int| 0 <= j < cc && #[trigger] le_u32(buf@, co + 32 * j) == type_idx);
            }
            return Ok(true);
        }
        k += 1;
    }
    Ok(false)
}

/// What `dex_defines_class_raw` returns.
pub open spec fn spec_dex_defines_class(s: Seq<u8>, target: Seq<u8>) -> Result<bool, AscError> {
    match spec_find_type_idx_raw(s, target) {
        Err(e) => Err(e),
        Ok(None) => Ok(false),
        Ok(Some(i)) => spec_class_defs_contains(s, i as u32),
    }
}

/// Checks if raw DEX buffer defines class with target descriptor bytes.
pub fn dex_defines_class_raw(buf: &[u8], target_bytes: &[u8]) -> (r: Result<bool, AscError>)
    ensures
        r == spec_dex_defines_class(buf@, target_bytes@),
{
    match find_type_idx_raw(buf, target_bytes)? {
        Some(idx) => class_defs_contains_type_idx_raw(buf, #[verifier::truncate] (idx as u32)),
        None => Ok(false),
    }
}

/// The first class definition among `k..count` of the table at `class_off`
/// whose class is `type_idx`.
pub open spec fn first_class_of_type(s: Seq<u8>, class_off: int, count: int, type_idx: u32, k: int) -> Option<
    usize,
>
    decreases count - k,
{
    if k < 0 || k >= count {
        None
    } else if le_u32(s, class_off + 32 * k) == type_idx {
        Some(k as usize)
    } else {
        first_class_of_type(s, class_off, count, type_idx, k + 1)
    }
}

/// The table at `table.0` of `table.1` entries of `n` bytes ends inside `s`.
pub open spec fn table_fits(s: Seq<u8>, table: (usize, usize), n: int) -> bool {
    table.0 + table.1 * n <= s.len()
}

/// What `Dex::find_class` returns for a descriptor given as characters.
pub open spec fn spec_find_class(s: Seq<u8>, h: Header, name: Seq<char>) -> Result<Option<usize>, AscError> {
    if !table_fits(s, h.strings, 4) {
        Err(AscError::BadStringIdsRange)
    } else if !table_fits(s, h.types, 4) {
        Err(AscError::BadTypeIdsRange)
    } else if !table_fits(s, h.classes, 32) {
        Err(AscError::BadClassDefsRange)
    } else {
        match spec_find_type_idx_raw(s, mutf8_encoding(utf16_of_chars(name))) {
            Err(e) => Err(e),
            Ok(None) => Ok(None),
            Ok(Some(t)) => Ok(
                first_class_of_type(s, h.classes.0 as int, h.classes.1 as int, t as u32, 0),
            ),
        }
    }
}

/// `first_class_of_type` finds the first definition from `k` on whose class
/// is `type_idx`, and none when no such definition follows `k`.
pub proof fn lemma_first_class_of_type(s: Seq<u8>, class_off: int, count: int, type_idx: u32, k: int)
    requires
        0 <= k,
        count <= usize::MAX,
    ensures
        first_class_of_type(s, class_off, count, type_idx, k) matches Some(i) ==> k <= i < count
            && le_u32(s, class_off + 32 * i) == type_idx && forall|j: int|
            k <= j < i ==> #[trigger] le_u32(s, class_off + 32 * j) != type_idx,
        first_class_of_type(s, class_off, count, type_idx, k) is None ==> forall|j: int|
            k <= j < count ==> #[trigger] le_u32(s, class_off + 32 * j) != type_idx,
    decreases count - k,
{
    if k < count && le_u32(s, class_off + 32 * k) != type_idx {
        lemma_first_class_of_type(s, class_off, count, type_idx, k + 1);
        if let Some(i) = first_class_of_type(s, class_off, count, type_idx, k) {
            assert forall|j: int| k <= j < i implies #[trigger] le_u32(s, class_off + 32 * j) != type_idx by {
                if j > k {
                    assert(k + 1 <= j < i);
                }
            }
        }
    }
}

/// The class definition `find_class` answers for `name` is the first whose
/// class is the type the descriptor search finds: lookups pick the lowest
/// definition index.
pub proof fn lemma_find_class_first(s: Seq<u8>, h: Header, name: Seq<char>)
    ensures
        spec_find_class(s, h, name) matches Ok(Some(i)) ==> spec_find_type_idx_raw(
            s,
            mutf8_encoding(utf16_of_chars(name)),
        ) matches Ok(Some(t)) && i < h.classes.1 && le_u32(s, h.classes.0 + 32 * i) == t as u32
            && forall|j: int| 0 <= j < i ==> #[trigger] le_u32(s, h.classes.0 + 32 * j) != t as u32,
{
    let target = mutf8_encoding(utf16_of_chars(name));
    if let Ok(Some(t)) = spec_find_type_idx_raw(s, target) {
        lemma_first_class_of_type(s, h.classes.0 as int, h.classes.1 as int, t as u32, 0);
    }
}

/// On a DEX file whose header is `h`, looking a class up by name and asking
/// whether the file defines it agree: `find_class` finds a definition exactly
/// when `dex_defines_class_raw` answers yes for the name's Modified UTF-8 bytes.
pub proof fn lemma_find_class_agrees_with_defines(s: Seq<u8>, h: Header, name: Seq<char>)
    requires
        spec_parse_header(s) == Ok::<Header, AscError>(h),
    ensures
        spec_find_class(s, h, name) matches Ok(found) ==> spec_dex_defines_class(
            s,
            mutf8_encoding(utf16_of_chars(name)),
        ) == Ok::<bool, AscError>(found is Some),
{
    let target = mutf8_encoding(utf16_of_chars(name));
    if let Ok(found) = spec_find_class(s, h, name) {
        if let Ok(Some(t)) = spec_find_type_idx_raw(s, target) {
            let off = h.classes.0 as int;
            let count = h.classes.1 as int;
            lemma_first_class_of_type(s, off, count, t as u32, 0);
            assert(s.len() >= 0x68);
            if found is Some {
                let i = found->Some_0 as int;
                assert(le_u32(s, off + 32 * i) == t as u32);
            }
        }
    }
}

/// The end of the table at `table.0` of `table.1` entries of `n` bytes, when
/// it lies inside `buf`.
fn table_end(buf: &[u8], table: (usize, usize), n: usize) -> (r: bool)
    requires
        1 <= n <= 32,
    ensures
        r == table_fits(buf@, table, n as int),
        r ==> table.0 + table.1 * n <= buf.len(),
{
    let (off, count) = table;
    let len = buf.len();
    match count.checked_mul(n) {
        Some(x) => match off.checked_add(x) {
            Some(end) => end <= len,
            None => false,
        },
        None => false,
    }
}

impl<'a> Dex<'a> {
    /// Finds `type_idx` by binary searching `type_ids` using target MUTF-8 bytes.
    pub fn find_type_idx(&self, target_bytes: &[u8]) -> (r: Result<Option<usize>, AscError>)
        ensures
            r == spec_find_type_idx_raw(self.buf@, target_bytes@),
    {
        find_type_idx_raw(self.buf, target_bytes)
    }

    /// Finds a class by its descriptor name (e.g. "Lexample/Test;").
    /// Returns the class definition index (0..class_count) if found.
    pub fn find_class(&self, fullname: &str) -> (r: Result<Option<usize>, AscError>)
        ensures
            r == spec_find_class(self.buf@, self.header, fullname@),
    {
        if !table_end(self.buf, self.header.strings, 4) {
            return Err(AscError::BadStringIdsRange);
        }
        if !table_end(self.buf, self.header.types, 4) {
            return Err(AscError::BadTypeIdsRange);
        }
        if !table_end(self.buf, self.header.classes, 32) {
            return Err(AscError::BadClassDefsRange);
        }
        let (class_off, class_count) = self.header.classes;
        let target_units = str_to_utf16(fullname);
        let target_bytes = encode_mutf8(target_units.as_slice());
        let found = self.find_type_idx(target_bytes.as_slice())?;
        let t = match found {
            Some(idx) => idx,
            None => {
                return Ok(None);
            },
        };
        let type_idx: u32 = #[verifier::truncate] (t as u32);
        let mut idx: usize = 0;
        while idx < class_count
            invariant
                table_fits(self.buf@, self.header.strings, 4),
                table_fits(self.buf@, self.header.types, 4),
                table_fits(self.buf@, self.header.classes, 32),
                (class_off, class_count) == self.header.classes,
                spec_find_type_idx_raw(self.buf@, mutf8_encoding(utf16_of_chars(fullname@))) == Ok::<
                    Option<usize>,
                    AscError,
                >(Some(t)),
                type_idx == t as u32,
                class_off + class_count * 32 <= self.buf.len(),
                idx <= class_count,
                first_class_of_type(self.buf@, class_off as int, class_count as int, type_idx, 0)
                    == first_class_of_type(
                    self.buf@,
                    class_off as int,
                    class_count as int,
                    type_idx,
                    idx as int,
                ),
            decreases class_count - idx,
        {
            if u32_at(self.buf, class_off + idx * 32).unwrap() == type_idx {
                return Ok(Some(idx));
            }
            idx += 1;
        }
        Ok(None)
    }

    /// Checks whether this DEX defines the class matching `target_bytes`.
    pub fn defines_class(&self, target_bytes: &[u8]) -> (r: Result<bool, AscError>)
        ensures
            r == spec_dex_defines_class(self.buf@, target_bytes@),
    {
        dex_defines_class_raw(self.buf, target_bytes)
    }
}

} // verus!
