use crate::bytes::{le_u32, u32_at};
use crate::error::AscError;
use vstd::prelude::*;

verus! {

/// Size of the DEX header.
pub const DEX_HEADER_MIN_SIZE: usize = 0x70;

/// The bytes `dex` a DEX file starts with.
pub const DEX_MAGIC_PREFIX: [u8; 3] = [0x64, 0x65, 0x78];

/// Offsets and sizes of the DEX tables, as the header gives them.
#[derive(Debug, Clone, Copy, PartialEq, Eq)]
pub struct Header {
    pub strings: (usize, usize),  // (off, size)
    pub types: (usize, usize),  // (off, size)
    pub prototypes: (usize, usize),  // (off, size)
    pub fields: (usize, usize),  // (off, size)
    pub methods: (usize, usize),  // (off, size)
    pub classes: (usize, usize),  // (off, size)
    pub map_off: usize,
}

/// `s` is long enough for a DEX header and starts with `dex`.
pub open spec fn has_dex_header(s: Seq<u8>) -> bool {
    s.len() >= DEX_HEADER_MIN_SIZE && s.subrange(0, 3) == DEX_MAGIC_PREFIX@
}

/// The header field at `off`, as a `usize`.
pub open spec fn field(s: Seq<u8>, off: int) -> usize {
    le_u32(s, off) as usize
}

/// What `Header::parse` returns.
pub open spec fn spec_parse_header(s: Seq<u8>) -> Result<Header, AscError> {
    if !has_dex_header(s) {
        Err(AscError::BadDexMagicOrHeaderSize)
    } else {
        Ok(
            Header {
                strings: (field(s, 0x3c), field(s, 0x38)),
                types: (field(s, 0x44), field(s, 0x40)),
                prototypes: (field(s, 0x4c), field(s, 0x48)),
                fields: (field(s, 0x54), field(s, 0x50)),
                methods: (field(s, 0x5c), field(s, 0x58)),
                classes: (field(s, 0x64), field(s, 0x60)),
                map_off: field(s, 0x34),
            },
        )
    }
}

/// `buf` is long enough for a DEX header and starts with `dex`.
pub(crate) fn check_dex_header(buf: &[u8]) -> (r: bool)
    ensures
        r == has_dex_header(buf@),
{
    if buf.len() < DEX_HEADER_MIN_SIZE {
        return false;
    }
    let r = buf[0] == DEX_MAGIC_PREFIX[0] && buf[1] == DEX_MAGIC_PREFIX[1] && buf[2]
        == DEX_MAGIC_PREFIX[2];
    proof {
        let w = buf@.subrange(0, 3);
        if r {
            assert(w =~= DEX_MAGIC_PREFIX@);
        } else if w == DEX_MAGIC_PREFIX@ {
            assert(w[0] == buf@[0] && w[1] == buf@[1] && w[2] == buf@[2]);
        }
    }
    r
}

/// The header field at `off`, which lies inside the header.
pub(crate) fn read_field(buf: &[u8], off: usize) -> (r: usize)
    requires
        off + 4 <= buf@.len(),
    ensures
        r == field(buf@, off as int),
{
    u32_at(buf, off).unwrap() as usize
}

impl Header {
    pub fn parse(buf: &[u8]) -> (r: Result<Self, AscError>)
        ensures
            r == spec_parse_header(buf@),
    {
        if !check_dex_header(buf) {
            return Err(AscError::BadDexMagicOrHeaderSize);
        }
        Ok(
            Self {
                strings: (read_field(buf, 0x3c), read_field(buf, 0x38)),
                types: (read_field(buf, 0x44), read_field(buf, 0x40)),
                prototypes: (read_field(buf, 0x4c), read_field(buf, 0x48)),
                fields: (read_field(buf, 0x54), read_field(buf, 0x50)),
                methods: (read_field(buf, 0x5c), read_field(buf, 0x58)),
                classes: (read_field(buf, 0x64), read_field(buf, 0x60)),
                map_off: read_field(buf, 0x34),
            },
        )
    }
}

} // verus!
