//! Parsers for Android application packages: the ZIP central directory, the
//! DEX file format and its string, type and class tables, LEB128 integers and
//! Modified UTF-8 strings, with their contracts stated and proved in Verus.

pub mod bytes;
pub mod cancel;
pub mod dex;
pub mod digest;
pub mod dump;
pub mod error;
pub mod inflate;
pub mod leb128;
pub mod mutf8;
pub mod opcode;
pub mod text;
pub mod unicode;
pub mod zip;

pub use dex::{
    dex041_logical_offsets, is_dex041_container, iter_logical_dex_buffers,
    normalize_dex041_logical, parse_descriptor, ClassInfo, CodeItemInfo, Dex, FieldInfo, Header,
    MethodInfo, ProtoInfo, TypeInfo, TypeKind,
};
pub use error::AscError;
pub use inflate::inflate_entry;
pub use leb128::{
    read_sleb128, read_uleb128, skip_uleb128, uleb128_len, write_sleb128, write_uleb128,
};
pub use mutf8::{decode_mutf8, encode_mutf8, utf16_len, DexStr};
pub use opcode::{lookup_opcode, Format, IndexKind, Opcode, VerifyFlags};
pub use zip::{decode_utf8_ignore, find_eocd, parse_cd_dex_entries, DexEntry, Eocd};
