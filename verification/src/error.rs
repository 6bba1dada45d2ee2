use crate::text::{ascii_chars, decimal_digits, decimal_string};
use vstd::prelude::*;
use vstd::string::*;

verus! {

/// Every way in which reading an APK or a DEX buffer can fail.
#[derive(Debug, Clone, PartialEq, Eq)]
pub enum AscError {
    EocdNotFound,
    BadEocdHeader,
    BadCentralDirectoryRange,
    BadLocalHeaderSignature,
    BadCompressedDataRange,
    UnsupportedCompressionMethod(u16),
    CorruptDeflateStream(String),
    SizeMismatch { expected: u32, got: usize },
    ApkFileNotFound(String),
    BadDexMagicOrHeaderSize,
    BadStringIdsRange,
    BadStringDataOffset,
    BadStringDataOff,
    BadTypeIdsRange,
    BadTypeIdToStringIdx,
    BadProtoIdsRange,
    BadMethodIdsRange,
    BadFieldIdsRange,
    BadClassDefsRange,
    BadCodeItemOffset,
    UnterminatedUleb128,
    UnterminatedSleb128,
    UnterminatedStringDataItem,
    ClassNotFoundInApk(String),
    ClassNotFoundInDex(String),
    ClassNotIndexed(String),
    Custom(String),
}

/// The message an error reads as.
pub open spec fn error_message(e: AscError) -> Seq<char> {
    match e {
        AscError::EocdNotFound => "EOCD not found"@,
        AscError::BadEocdHeader => "bad EOCD header"@,
        AscError::BadCentralDirectoryRange => "bad central directory range"@,
        AscError::BadLocalHeaderSignature => "bad local header signature"@,
        AscError::BadCompressedDataRange => "bad compressed data range"@,
        AscError::BadDexMagicOrHeaderSize => "bad DEX magic or header size"@,
        AscError::BadStringIdsRange => "bad string_ids range"@,
        AscError::BadStringDataOffset => "bad string_data offset"@,
        AscError::BadStringDataOff => "bad string_data_off"@,
        AscError::BadTypeIdsRange => "bad type_ids range"@,
        AscError::BadTypeIdToStringIdx => "bad type_id->string_idx"@,
        AscError::BadProtoIdsRange => "bad proto_ids range"@,
        AscError::BadMethodIdsRange => "bad method_ids range"@,
        AscError::BadFieldIdsRange => "bad field_ids range"@,
        AscError::BadClassDefsRange => "bad class_defs range"@,
        AscError::BadCodeItemOffset => "bad code_item offset"@,
        AscError::UnterminatedUleb128 => "unterminated uleb128"@,
        AscError::UnterminatedSleb128 => "unterminated sleb128"@,
        AscError::UnterminatedStringDataItem => "unterminated string_data_item"@,
        AscError::UnsupportedCompressionMethod(method) => "unsupported compression method: "@ + ascii_chars(
            decimal_digits(method as nat),
        ),
        AscError::CorruptDeflateStream(name) => "corrupt deflate stream in "@ + name@,
        AscError::SizeMismatch { expected, got } => "size mismatch: expect "@ + ascii_chars(
            decimal_digits(expected as nat),
        ) + ", got "@ + ascii_chars(decimal_digits(got as nat)),
        AscError::ApkFileNotFound(path) => "APK file not found: "@ + path@,
        AscError::ClassNotFoundInApk(name) => "Class "@ + name@ + " not found in APK."@,
        AscError::ClassNotFoundInDex(name) => "Class "@ + name@ + " not found in DEX."@,
        AscError::ClassNotIndexed(name) => "class not indexed: "@ + name@,
        AscError::Custom(msg) => msg@,
    }
}

impl AscError {
    /// The message this error reads as.
    pub fn message(&self) -> (r: String)
        ensures
            r@ == error_message(*self),
    {
        match self {
            AscError::EocdNotFound => {
                let r = String::from_str("EOCD not found");
                r
            },
            AscError::BadEocdHeader => {
                let r = String::from_str("bad EOCD header");
                r
            },
            AscError::BadCentralDirectoryRange => {
                let r = String::from_str("bad central directory range");
                r
            },
            AscError::BadLocalHeaderSignature => {
                let r = String::from_str("bad local header signature");
                r
            },
            AscError::BadCompressedDataRange => {
                let r = String::from_str("bad compressed data range");
                r
            },
            AscError::BadDexMagicOrHeaderSize => {
                let r = String::from_str("bad DEX magic or header size");
                r
            },
            AscError::BadStringIdsRange => {
                let r = String::from_str("bad string_ids range");
                r
            },
            AscError::BadStringDataOffset => {
                let r = String::from_str("bad string_data offset");
                r
            },
            AscError::BadStringDataOff => {
                let r = String::from_str("bad string_data_off");
                r
            },
            AscError::BadTypeIdsRange => {
                let r = String::from_str("bad type_ids range");
                r
            },
            AscError::BadTypeIdToStringIdx => {
                let r = String::from_str("bad type_id->string_idx");
                r
            },
            AscError::BadProtoIdsRange => {
                let r = String::from_str("bad proto_ids range");
                r
            },
            AscError::BadMethodIdsRange => {
                let r = String::from_str("bad method_ids range");
                r
            },
            AscError::BadFieldIdsRange => {
                let r = String::from_str("bad field_ids range");
                r
            },
            AscError::BadClassDefsRange => {
                let r = String::from_str("bad class_defs range");
                r
            },
            AscError::BadCodeItemOffset => {
                let r = String::from_str("bad code_item offset");
                r
            },
            AscError::UnterminatedUleb128 => {
                let r = String::from_str("unterminated uleb128");
                r
            },
            AscError::UnterminatedSleb128 => {
                let r = String::from_str("unterminated sleb128");
                r
            },
            AscError::UnterminatedStringDataItem => {
                let r = String::from_str("unterminated string_data_item");
                r
            },
            AscError::UnsupportedCompressionMethod(method) => {
                let mut r = String::from_str("unsupported compression method: ");
                let n = decimal_string(*method as usize);
                r.append(n.as_str());
                r
            },
            AscError::CorruptDeflateStream(name) => {
                let mut r = String::from_str("corrupt deflate stream in ");
                r.append(name.as_str());
                r
            },
            AscError::SizeMismatch { expected, got } => {
                let mut r = String::from_str("size mismatch: expect ");
                let e = decimal_string(*expected as usize);
                r.append(e.as_str());
                r.append(", got ");
                let g = decimal_string(*got);
                r.append(g.as_str());
                r
            },
            AscError::ApkFileNotFound(path) => {
                let mut r = String::from_str("APK file not found: ");
                r.append(path.as_str());
                r
            },
            AscError::ClassNotFoundInApk(name) => {
                let mut r = String::from_str("Class ");
                r.append(name.as_str());
                r.append(" not found in APK.");
                r
            },
            AscError::ClassNotFoundInDex(name) => {
                let mut r = String::from_str("Class ");
                r.append(name.as_str());
                r.append(" not found in DEX.");
                r
            },
            AscError::ClassNotIndexed(name) => {
                let mut r = String::from_str("class not indexed: ");
                r.append(name.as_str());
                r
            },
            AscError::Custom(msg) => msg.clone(),
        }
    }
}

} // verus!
