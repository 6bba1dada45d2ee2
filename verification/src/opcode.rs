//! The Dalvik instruction set: each opcode's mnemonic, format, index kind and
//! the checks a verifier applies to its operands.
use vstd::prelude::*;

verus! {

#[derive(Debug, Clone, Copy, PartialEq, Eq, Hash)]
pub enum Format {
    K10x,
    K12x,
    K11n,
    K11x,
    K10t,
    K20t,
    K22x,
    K21t,
    K21s,
    K21h,
    K21c,
    K23x,
    K22b,
    K22t,
    K22s,
    K22c,
    K32x,
    K30t,
    K31t,
    K31i,
    K31c,
    K35c,
    K3rc,
    K51l,
    K45cc,
    K4rcc,
}

/// The name of an instruction format.
pub open spec fn format_name(f: Format) -> Seq<char> {
    match f {
        Format::K10x => "k10x"@,
        Format::K12x => "k12x"@,
        Format::K11n => "k11n"@,
        Format::K11x => "k11x"@,
        Format::K10t => "k10t"@,
        Format::K20t => "k20t"@,
        Format::K22x => "k22x"@,
        Format::K21t => "k21t"@,
        Format::K21s => "k21s"@,
        Format::K21h => "k21h"@,
        Format::K21c => "k21c"@,
        Format::K23x => "k23x"@,
        Format::K22b => "k22b"@,
        Format::K22t => "k22t"@,
        Format::K22s => "k22s"@,
        Format::K22c => "k22c"@,
        Format::K32x => "k32x"@,
        Format::K30t => "k30t"@,
        Format::K31t => "k31t"@,
        Format::K31i => "k31i"@,
        Format::K31c => "k31c"@,
        Format::K35c => "k35c"@,
        Format::K3rc => "k3rc"@,
        Format::K51l => "k51l"@,
        Format::K45cc => "k45cc"@,
        Format::K4rcc => "k4rcc"@,
    }
}

/// Length in 16-bit code units of an instruction of format `f`: the first
/// digit of the format's name.
pub open spec fn format_len(f: Format) -> u8 {
    match f {
        Format::K10x => 1,
        Format::K12x => 1,
        Format::K11n => 1,
        Format::K11x => 1,
        Format::K10t => 1,
        Format::K20t => 2,
        Format::K22x => 2,
        Format::K21t => 2,
        Format::K21s => 2,
        Format::K21h => 2,
        Format::K21c => 2,
        Format::K23x => 2,
        Format::K22b => 2,
        Format::K22t => 2,
        Format::K22s => 2,
        Format::K22c => 2,
        Format::K32x => 3,
        Format::K30t => 3,
        Format::K31t => 3,
        Format::K31i => 3,
        Format::K31c => 3,
        Format::K35c => 3,
        Format::K3rc => 3,
        Format::K51l => 5,
        Format::K45cc => 4,
        Format::K4rcc => 4,
    }
}

impl Format {
    pub fn as_str(&self) -> (r: &'static str)
        ensures
            r@ == format_name(*self),
    {
        match self {
            Self::K10x => "k10x",
            Self::K12x => "k12x",
            Self::K11n => "k11n",
            Self::K11x => "k11x",
            Self::K10t => "k10t",
            Self::K20t => "k20t",
            Self::K22x => "k22x",
            Self::K21t => "k21t",
            Self::K21s => "k21s",
            Self::K21h => "k21h",
            Self::K21c => "k21c",
            Self::K23x => "k23x",
            Self::K22b => "k22b",
            Self::K22t => "k22t",
            Self::K22s => "k22s",
            Self::K22c => "k22c",
            Self::K32x => "k32x",
            Self::K30t => "k30t",
            Self::K31t => "k31t",
            Self::K31i => "k31i",
            Self::K31c => "k31c",
            Self::K35c => "k35c",
            Self::K3rc => "k3rc",
            Self::K51l => "k51l",
            Self::K45cc => "k45cc",
            Self::K4rcc => "k4rcc",
        }
    }
}

#[derive(Debug, Clone, Copy, PartialEq, Eq, Hash)]
pub enum IndexKind {
    NoIndex,
    StringRef,
    TypeRef,
    FieldRef,
    MethodRef,
    MethodAndProtoRef,
    CallSiteRef,
    MethodHandleRef,
    ProtoRef,
}

/// The name of an index kind.
pub open spec fn index_kind_name(k: IndexKind) -> Seq<char> {
    match k {
        IndexKind::NoIndex => "kIndexNone"@,
        IndexKind::StringRef => "kIndexStringRef"@,
        IndexKind::TypeRef => "kIndexTypeRef"@,
        IndexKind::FieldRef => "kIndexFieldRef"@,
        IndexKind::MethodRef => "kIndexMethodRef"@,
        IndexKind::MethodAndProtoRef => "kIndexMethodAndProtoRef"@,
        IndexKind::CallSiteRef => "kIndexCallSiteRef"@,
        IndexKind::MethodHandleRef => "kIndexMethodHandleRef"@,
        IndexKind::ProtoRef => "kIndexProtoRef"@,
    }
}

impl IndexKind {
    pub fn as_str(&self) -> (r: &'static str)
        ensures
            r@ == index_kind_name(*self),
    {
        match self {
            Self::NoIndex => "kIndexNone",
            Self::StringRef => "kIndexStringRef",
            Self::TypeRef => "kIndexTypeRef",
            Self::FieldRef => "kIndexFieldRef",
            Self::MethodRef => "kIndexMethodRef",
            Self::MethodAndProtoRef => "kIndexMethodAndProtoRef",
            Self::CallSiteRef => "kIndexCallSiteRef",
            Self::MethodHandleRef => "kIndexMethodHandleRef",
            Self::ProtoRef => "kIndexProtoRef",
        }
    }
}

/// Verifier flags, one bit per name of `vflag_name`, bit `i` for name `i`.
#[derive(Debug, Clone, Copy, PartialEq, Eq, Hash)]
pub struct VerifyFlags(pub u32);

/// Number of verifier flag names.
pub const VFLAG_COUNT: u32 = 28;

/// The name of verifier flag bit `i`.
pub open spec fn vflag_name_spec(i: u32) -> Seq<char> {
    if i == 0 {
        "kVerifyNothing"@
    } else if i == 1 {
        "kVerifyRegA"@
    } else if i == 2 {
        "kVerifyRegB"@
    } else if i == 3 {
        "kVerifyRegAWide"@
    } else if i == 4 {
        "kVerifyRegBWide"@
    } else if i == 5 {
        "kVerifyRegBString"@
    } else if i == 6 {
        "kVerifyRegBType"@
    } else if i == 7 {
        "kVerifyRegCType"@
    } else if i == 8 {
        "kVerifyRegBNewInstance"@
    } else if i == 9 {
        "kVerifyRegCNewArray"@
    } else if i == 10 {
        "kVerifyRegBFilledNewArray"@
    } else if i == 11 {
        "kVerifyVarArg"@
    } else if i == 12 {
        "kVerifyVarArgRange"@
    } else if i == 13 {
        "kVerifyArrayData"@
    } else if i == 14 {
        "kVerifyBranchTarget"@
    } else if i == 15 {
        "kVerifySwitchTargets"@
    } else if i == 16 {
        "kVerifyRegC"@
    } else if i == 17 {
        "kVerifyRegCWide"@
    } else if i == 18 {
        "kVerifyError"@
    } else if i == 19 {
        "kVerifyRegCField"@
    } else if i == 20 {
        "kVerifyRegBField"@
    } else if i == 21 {
        "kVerifyRegBMethod"@
    } else if i == 22 {
        "kVerifyVarArgNonZero"@
    } else if i == 23 {
        "kVerifyVarArgRangeNonZero"@
    } else if i == 24 {
        "kVerifyRegHPrototype"@
    } else if i == 25 {
        "kVerifyRegBCallSite"@
    } else if i == 26 {
        "kVerifyRegBMethodHandle"@
    } else {
        "kVerifyRegBPrototype"@
    }
}

/// The name of verifier flag bit `i`, in declaration order.
pub fn vflag_name(i: u32) -> (r: &'static str)
    requires
        i < VFLAG_COUNT,
    ensures
        r@ == vflag_name_spec(i),
{
    match i {
        0 => "kVerifyNothing",
        1 => "kVerifyRegA",
        2 => "kVerifyRegB",
        3 => "kVerifyRegAWide",
        4 => "kVerifyRegBWide",
        5 => "kVerifyRegBString",
        6 => "kVerifyRegBType",
        7 => "kVerifyRegCType",
        8 => "kVerifyRegBNewInstance",
        9 => "kVerifyRegCNewArray",
        10 => "kVerifyRegBFilledNewArray",
        11 => "kVerifyVarArg",
        12 => "kVerifyVarArgRange",
        13 => "kVerifyArrayData",
        14 => "kVerifyBranchTarget",
        15 => "kVerifySwitchTargets",
        16 => "kVerifyRegC",
        17 => "kVerifyRegCWide",
        18 => "kVerifyError",
        19 => "kVerifyRegCField",
        20 => "kVerifyRegBField",
        21 => "kVerifyRegBMethod",
        22 => "kVerifyVarArgNonZero",
        23 => "kVerifyVarArgRangeNonZero",
        24 => "kVerifyRegHPrototype",
        25 => "kVerifyRegBCallSite",
        26 => "kVerifyRegBMethodHandle",
        _ => "kVerifyRegBPrototype",
    }
}

/// Bit `i` of `v` is set.
pub open spec fn bit_set(v: u32, i: u32) -> bool {
    v & (1u32 << i) != 0
}

/// Names of the flags set among the first `n` bits of `v`, in bit order.
pub open spec fn flag_names_upto(v: u32, n: u32) -> Seq<Seq<char>>
    decreases n,
{
    if n == 0 {
        seq![]
    } else {
        let earlier = flag_names_upto(v, (n - 1) as u32);
        if bit_set(v, (n - 1) as u32) {
            earlier.push(vflag_name_spec((n - 1) as u32))
        } else {
            earlier
        }
    }
}

/// The characters of each name.
pub open spec fn name_views(v: Seq<&'static str>) -> Seq<Seq<char>> {
    v.map_values(|s: &'static str| s@)
}

impl VerifyFlags {
    pub fn contains(&self, bit: u32) -> (r: bool)
        ensures
            r == (self.0 & bit == bit),
    {
        (self.0 & bit) == bit
    }

    /// Return flag names list in declaration order.
    pub fn flag_names(&self) -> (r: Vec<&'static str>)
        ensures
            name_views(r@) == flag_names_upto(self.0, VFLAG_COUNT),
    {
        let mut names: Vec<&'static str> = Vec::new();
        let mut i: u32 = 0;
        while i < VFLAG_COUNT
            invariant
                i <= VFLAG_COUNT,
                name_views(names@) == flag_names_upto(self.0, i),
            decreases VFLAG_COUNT - i,
        {
            let ghost before = names@;
            if (self.0 & (1u32 << i)) != 0 {
                names.push(vflag_name(i));
                proof {
                    assert(name_views(names@) =~= name_views(before).push(vflag_name_spec(i)));
                }
            }
            i += 1;
        }
        names
    }
}

#[derive(Debug, Clone, Copy, PartialEq, Eq, Hash)]
pub struct Opcode {
    pub name: &'static str,
    pub len: u8,
    pub fmt: Format,
    pub idx: IndexKind,
    pub verify: VerifyFlags,
}

/// An `Opcode` with its name as characters.
pub struct OpcodeView {
    pub name: Seq<char>,
    pub len: u8,
    pub fmt: Format,
    pub idx: IndexKind,
    pub verify: u32,
}

impl View for Opcode {
    type V = OpcodeView;

    open spec fn view(&self) -> OpcodeView {
        OpcodeView {
            name: self.name@,
            len: self.len,
            fmt: self.fmt,
            idx: self.idx,
            verify: self.verify.0,
        }
    }
}

/// An instruction of format `fmt`, its length taken from the format.
pub open spec fn insn(name: Seq<char>, fmt: Format, idx: IndexKind, verify: u32) -> Option<OpcodeView> {
    Some(OpcodeView { name, len: format_len(fmt), fmt, idx, verify })
}

/// The instruction that `op` encodes, or `None` for an unused opcode.
pub open spec fn spec_opcode(op: u8) -> Option<OpcodeView> {
    match op {
        0x00 => insn("nop"@, Format::K10x, IndexKind::NoIndex, 1),
        0x01 => insn("move"@, Format::K12x, IndexKind::NoIndex, 6),
        0x02 => insn("move/from16"@, Format::K22x, IndexKind::NoIndex, 6),
        0x03 => insn("move/16"@, Format::K32x, IndexKind::NoIndex, 6),
        0x04 => insn("move-wide"@, Format::K12x, IndexKind::NoIndex, 24),
        0x05 => insn("move-wide/from16"@, Format::K22x, IndexKind::NoIndex, 24),
        0x06 => insn("move-wide/16"@, Format::K32x, IndexKind::NoIndex, 24),
        0x07 => insn("move-object"@, Format::K12x, IndexKind::NoIndex, 6),
        0x08 => insn("move-object/from16"@, Format::K22x, IndexKind::NoIndex, 6),
        0x09 => insn("move-object/16"@, Format::K32x, IndexKind::NoIndex, 6),
        0x0a => insn("move-result"@, Format::K11x, IndexKind::NoIndex, 2),
        0x0b => insn("move-result-wide"@, Format::K11x, IndexKind::NoIndex, 8),
        0x0c => insn("move-result-object"@, Format::K11x, IndexKind::NoIndex, 2),
        0x0d => insn("move-exception"@, Format::K11x, IndexKind::NoIndex, 2),
        0x0e => insn("return-void"@, Format::K10x, IndexKind::NoIndex, 1),
        0x0f => insn("return"@, Format::K11x, IndexKind::NoIndex, 2),
        0x10 => insn("return-wide"@, Format::K11x, IndexKind::NoIndex, 8),
        0x11 => insn("return-object"@, Format::K11x, IndexKind::NoIndex, 2),
        0x12 => insn("const/4"@, Format::K11n, IndexKind::NoIndex, 2),
        0x13 => insn("const/16"@, Format::K21s, IndexKind::NoIndex, 2),
        0x14 => insn("const"@, Format::K31i, IndexKind::NoIndex, 2),
        0x15 => insn("const/high16"@, Format::K21h, IndexKind::NoIndex, 2),
        0x16 => insn("const-wide/16"@, Format::K21s, IndexKind::NoIndex, 8),
        0x17 => insn("const-wide/32"@, Format::K31i, IndexKind::NoIndex, 8),
        0x18 => insn("const-wide"@, Format::K51l, IndexKind::NoIndex, 8),
        0x19 => insn("const-wide/high16"@, Format::K21h, IndexKind::NoIndex, 8),
        0x1a => insn("const-string"@, Format::K21c, IndexKind::StringRef, 34),
        0x1b => insn("const-string/jumbo"@, Format::K31c, IndexKind::StringRef, 34),
        0x1c => insn("const-class"@, Format::K21c, IndexKind::TypeRef, 66),
        0x1d => insn("monitor-enter"@, Format::K11x, IndexKind::NoIndex, 2),
        0x1e => insn("monitor-exit"@, Format::K11x, IndexKind::NoIndex, 2),
        0x1f => insn("check-cast"@, Format::K21c, IndexKind::TypeRef, 66),
        0x20 => insn("instance-of"@, Format::K22c, IndexKind::TypeRef, 134),
        0x21 => insn("array-length"@, Format::K12x, IndexKind::NoIndex, 6),
        0x22 => insn("new-instance"@, Format::K21c, IndexKind::TypeRef, 258),
        0x23 => insn("new-array"@, Format::K22c, IndexKind::TypeRef, 518),
        0x24 => insn("filled-new-array"@, Format::K35c, IndexKind::TypeRef, 3072),
        0x25 => insn("filled-new-array/range"@, Format::K3rc, IndexKind::TypeRef, 5120),
        0x26 => insn("fill-array-data"@, Format::K31t, IndexKind::NoIndex, 8194),
        0x27 => insn("throw"@, Format::K11x, IndexKind::NoIndex, 2),
        0x28 => insn("goto"@, Format::K10t, IndexKind::NoIndex, 16384),
        0x29 => insn("goto/16"@, Format::K20t, IndexKind::NoIndex, 16384),
        0x2a => insn("goto/32"@, Format::K30t, IndexKind::NoIndex, 16384),
        0x2b => insn("packed-switch"@, Format::K31t, IndexKind::NoIndex, 32770),
        0x2c => insn("sparse-switch"@, Format::K31t, IndexKind::NoIndex, 32770),
        0x2d => insn("cmpl-float"@, Format::K23x, IndexKind::NoIndex, 65542),
        0x2e => insn("cmpg-float"@, Format::K23x, IndexKind::NoIndex, 65542),
        0x2f => insn("cmpl-double"@, Format::K23x, IndexKind::NoIndex, 131090),
        0x30 => insn("cmpg-double"@, Format::K23x, IndexKind::NoIndex, 131090),
        0x31 => insn("cmp-long"@, Format::K23x, IndexKind::NoIndex, 131090),
        0x32 => insn("if-eq"@, Format::K22t, IndexKind::NoIndex, 16390),
        0x33 => insn("if-ne"@, Format::K22t, IndexKind::NoIndex, 16390),
        0x34 => insn("if-lt"@, Format::K22t, IndexKind::NoIndex, 16390),
        0x35 => insn("if-ge"@, Format::K22t, IndexKind::NoIndex, 16390),
        0x36 => insn("if-gt"@, Format::K22t, IndexKind::NoIndex, 16390),
        0x37 => insn("if-le"@, Format::K22t, IndexKind::NoIndex, 16390),
        0x38 => insn("if-eqz"@, Format::K21t, IndexKind::NoIndex, 16386),
        0x39 => insn("if-nez"@, Format::K21t, IndexKind::NoIndex, 16386),
        0x3a => insn("if-ltz"@, Format::K21t, IndexKind::NoIndex, 16386),
        0x3b => insn("if-gez"@, Format::K21t, IndexKind::NoIndex, 16386),
        0x3c => insn("if-gtz"@, Format::K21t, IndexKind::NoIndex, 16386),
        0x3d => insn("if-lez"@, Format::K21t, IndexKind::NoIndex, 16386),
        0x44 => insn("aget"@, Format::K23x, IndexKind::NoIndex, 65542),
        0x45 => insn("aget-wide"@, Format::K23x, IndexKind::NoIndex, 65548),
        0x46 => insn("aget-object"@, Format::K23x, IndexKind::NoIndex, 65542),
        0x47 => insn("aget-boolean"@, Format::K23x, IndexKind::NoIndex, 65542),
        0x48 => insn("aget-byte"@, Format::K23x, IndexKind::NoIndex, 65542),
        0x49 => insn("aget-char"@, Format::K23x, IndexKind::NoIndex, 65542),
        0x4a => insn("aget-short"@, Format::K23x, IndexKind::NoIndex, 65542),
        0x4b => insn("aput"@, Format::K23x, IndexKind::NoIndex, 65542),
        0x4c => insn("aput-wide"@, Format::K23x, IndexKind::NoIndex, 65548),
        0x4d => insn("aput-object"@, Format::K23x, IndexKind::NoIndex, 65542),
        0x4e => insn("aput-boolean"@, Format::K23x, IndexKind::NoIndex, 65542),
        0x4f => insn("aput-byte"@, Format::K23x, IndexKind::NoIndex, 65542),
        0x50 => insn("aput-char"@, Format::K23x, IndexKind::NoIndex, 65542),
        0x51 => insn("aput-short"@, Format::K23x, IndexKind::NoIndex, 65542),
        0x52 => insn("iget"@, Format::K22c, IndexKind::FieldRef, 524294),
        0x53 => insn("iget-wide"@, Format::K22c, IndexKind::FieldRef, 524300),
        0x54 => insn("iget-object"@, Format::K22c, IndexKind::FieldRef, 524294),
        0x55 => insn("iget-boolean"@, Format::K22c, IndexKind::FieldRef, 524294),
        0x56 => insn("iget-byte"@, Format::K22c, IndexKind::FieldRef, 524294),
        0x57 => insn("iget-char"@, Format::K22c, IndexKind::FieldRef, 524294),
        0x58 => insn("iget-short"@, Format::K22c, IndexKind::FieldRef, 524294),
        0x59 => insn("iput"@, Format::K22c, IndexKind::FieldRef, 524294),
        0x5a => insn("iput-wide"@, Format::K22c, IndexKind::FieldRef, 524300),
        0x5b => insn("iput-object"@, Format::K22c, IndexKind::FieldRef, 524294),
        0x5c => insn("iput-boolean"@, Format::K22c, IndexKind::FieldRef, 524294),
        0x5d => insn("iput-byte"@, Format::K22c, IndexKind::FieldRef, 524294),
        0x5e => insn("iput-char"@, Format::K22c, IndexKind::FieldRef, 524294),
        0x5f => insn("iput-short"@, Format::K22c, IndexKind::FieldRef, 524294),
        0x60 => insn("sget"@, Format::K21c, IndexKind::FieldRef, 1048578),
        0x61 => insn("sget-wide"@, Format::K21c, IndexKind::FieldRef, 1048584),
        0x62 => insn("sget-object"@, Format::K21c, IndexKind::FieldRef, 1048578),
        0x63 => insn("sget-boolean"@, Format::K21c, IndexKind::FieldRef, 1048578),
        0x64 => insn("sget-byte"@, Format::K21c, IndexKind::FieldRef, 1048578),
        0x65 => insn("sget-char"@, Format::K21c, IndexKind::FieldRef, 1048578),
        0x66 => insn("sget-short"@, Format::K21c, IndexKind::FieldRef, 1048578),
        0x67 => insn("sput"@, Format::K21c, IndexKind::FieldRef, 1048578),
        0x68 => insn("sput-wide"@, Format::K21c, IndexKind::FieldRef, 1048584),
        0x69 => insn("sput-object"@, Format::K21c, IndexKind::FieldRef, 1048578),
        0x6a => insn("sput-boolean"@, Format::K21c, IndexKind::FieldRef, 1048578),
        0x6b => insn("sput-byte"@, Format::K21c, IndexKind::FieldRef, 1048578),
        0x6c => insn("sput-char"@, Format::K21c, IndexKind::FieldRef, 1048578),
        0x6d => insn("sput-short"@, Format::K21c, IndexKind::FieldRef, 1048578),
        0x6e => insn("invoke-virtual"@, Format::K35c, IndexKind::MethodRef, 6291456),
        0x6f => insn("invoke-super"@, Format::K35c, IndexKind::MethodRef, 6291456),
        0x70 => insn("invoke-direct"@, Format::K35c, IndexKind::MethodRef, 6291456),
        0x71 => insn("invoke-static"@, Format::K35c, IndexKind::MethodRef, 2099200),
        0x72 => insn("invoke-interface"@, Format::K35c, IndexKind::MethodRef, 6291456),
        0x74 => insn("invoke-virtual/range"@, Format::K3rc, IndexKind::MethodRef, 10485760),
        0x75 => insn("invoke-super/range"@, Format::K3rc, IndexKind::MethodRef, 10485760),
        0x76 => insn("invoke-direct/range"@, Format::K3rc, IndexKind::MethodRef, 10485760),
        0x77 => insn("invoke-static/range"@, Format::K3rc, IndexKind::MethodRef, 2101248),
        0x78 => insn("invoke-interface/range"@, Format::K3rc, IndexKind::MethodRef, 10485760),
        0x7b => insn("neg-int"@, Format::K12x, IndexKind::NoIndex, 6),
        0x7c => insn("not-int"@, Format::K12x, IndexKind::NoIndex, 6),
        0x7d => insn("neg-long"@, Format::K12x, IndexKind::NoIndex, 24),
        0x7e => insn("not-long"@, Format::K12x, IndexKind::NoIndex, 24),
        0x7f => insn("neg-float"@, Format::K12x, IndexKind::NoIndex, 6),
        0x80 => insn("neg-double"@, Format::K12x, IndexKind::NoIndex, 24),
        0x81 => insn("int-to-long"@, Format::K12x, IndexKind::NoIndex, 12),
        0x82 => insn("int-to-float"@, Format::K12x, IndexKind::NoIndex, 6),
        0x83 => insn("int-to-double"@, Format::K12x, IndexKind::NoIndex, 12),
        0x84 => insn("long-to-int"@, Format::K12x, IndexKind::NoIndex, 18),
        0x85 => insn("long-to-float"@, Format::K12x, IndexKind::NoIndex, 18),
        0x86 => insn("long-to-double"@, Format::K12x, IndexKind::NoIndex, 24),
        0x87 => insn("float-to-int"@, Format::K12x, IndexKind::NoIndex, 6),
        0x88 => insn("float-to-long"@, Format::K12x, IndexKind::NoIndex, 12),
        0x89 => insn("float-to-double"@, Format::K12x, IndexKind::NoIndex, 12),
        0x8a => insn("double-to-int"@, Format::K12x, IndexKind::NoIndex, 18),
        0x8b => insn("double-to-long"@, Format::K12x, IndexKind::NoIndex, 24),
        0x8c => insn("double-to-float"@, Format::K12x, IndexKind::NoIndex, 18),
        0x8d => insn("int-to-byte"@, Format::K12x, IndexKind::NoIndex, 6),
        0x8e => insn("int-to-char"@, Format::K12x, IndexKind::NoIndex, 6),
        0x8f => insn("int-to-short"@, Format::K12x, IndexKind::NoIndex, 6),
        0x90 => insn("add-int"@, Format::K23x, IndexKind::NoIndex, 65542),
        0x91 => insn("sub-int"@, Format::K23x, IndexKind::NoIndex, 65542),
        0x92 => insn("mul-int"@, Format::K23x, IndexKind::NoIndex, 65542),
        0x93 => insn("div-int"@, Format::K23x, IndexKind::NoIndex, 65542),
        0x94 => insn("rem-int"@, Format::K23x, IndexKind::NoIndex, 65542),
        0x95 => insn("and-int"@, Format::K23x, IndexKind::NoIndex, 65542),
        0x96 => insn("or-int"@, Format::K23x, IndexKind::NoIndex, 65542),
        0x97 => insn("xor-int"@, Format::K23x, IndexKind::NoIndex, 65542),
        0x98 => insn("shl-int"@, Format::K23x, IndexKind::NoIndex, 65542),
        0x99 => insn("shr-int"@, Format::K23x, IndexKind::NoIndex, 65542),
        0x9a => insn("ushr-int"@, Format::K23x, IndexKind::NoIndex, 65542),
        0x9b => insn("add-long"@, Format::K23x, IndexKind::NoIndex, 131096),
        0x9c => insn("sub-long"@, Format::K23x, IndexKind::NoIndex, 131096),
        0x9d => insn("mul-long"@, Format::K23x, IndexKind::NoIndex, 131096),
        0x9e => insn("div-long"@, Format::K23x, IndexKind::NoIndex, 131096),
        0x9f => insn("rem-long"@, Format::K23x, IndexKind::NoIndex, 131096),
        0xa0 => insn("and-long"@, Format::K23x, IndexKind::NoIndex, 131096),
        0xa1 => insn("or-long"@, Format::K23x, IndexKind::NoIndex, 131096),
        0xa2 => insn("xor-long"@, Format::K23x, IndexKind::NoIndex, 131096),
        0xa3 => insn("shl-long"@, Format::K23x, IndexKind::NoIndex, 65560),
        0xa4 => insn("shr-long"@, Format::K23x, IndexKind::NoIndex, 65560),
        0xa5 => insn("ushr-long"@, Format::K23x, IndexKind::NoIndex, 65560),
        0xa6 => insn("add-float"@, Format::K23x, IndexKind::NoIndex, 65542),
        0xa7 => insn("sub-float"@, Format::K23x, IndexKind::NoIndex, 65542),
        0xa8 => insn("mul-float"@, Format::K23x, IndexKind::NoIndex, 65542),
        0xa9 => insn("div-float"@, Format::K23x, IndexKind::NoIndex, 65542),
        0xaa => insn("rem-float"@, Format::K23x, IndexKind::NoIndex, 65542),
        0xab => insn("add-double"@, Format::K23x, IndexKind::NoIndex, 131096),
        0xac => insn("sub-double"@, Format::K23x, IndexKind::NoIndex, 131096),
        0xad => insn("mul-double"@, Format::K23x, IndexKind::NoIndex, 131096),
        0xae => insn("div-double"@, Format::K23x, IndexKind::NoIndex, 131096),
        0xaf => insn("rem-double"@, Format::K23x, IndexKind::NoIndex, 131096),
        0xb0 => insn("add-int/2addr"@, Format::K12x, IndexKind::NoIndex, 6),
        0xb1 => insn("sub-int/2addr"@, Format::K12x, IndexKind::NoIndex, 6),
        0xb2 => insn("mul-int/2addr"@, Format::K12x, IndexKind::NoIndex, 6),
        0xb3 => insn("div-int/2addr"@, Format::K12x, IndexKind::NoIndex, 6),
        0xb4 => insn("rem-int/2addr"@, Format::K12x, IndexKind::NoIndex, 6),
        0xb5 => insn("and-int/2addr"@, Format::K12x, IndexKind::NoIndex, 6),
        0xb6 => insn("or-int/2addr"@, Format::K12x, IndexKind::NoIndex, 6),
        0xb7 => insn("xor-int/2addr"@, Format::K12x, IndexKind::NoIndex, 6),
        0xb8 => insn("shl-int/2addr"@, Format::K12x, IndexKind::NoIndex, 6),
        0xb9 => insn("shr-int/2addr"@, Format::K12x, IndexKind::NoIndex, 6),
        0xba => insn("ushr-int/2addr"@, Format::K12x, IndexKind::NoIndex, 6),
        0xbb => insn("add-long/2addr"@, Format::K12x, IndexKind::NoIndex, 24),
        0xbc => insn("sub-long/2addr"@, Format::K12x, IndexKind::NoIndex, 24),
        0xbd => insn("mul-long/2addr"@, Format::K12x, IndexKind::NoIndex, 24),
        0xbe => insn("div-long/2addr"@, Format::K12x, IndexKind::NoIndex, 24),
        0xbf => insn("rem-long/2addr"@, Format::K12x, IndexKind::NoIndex, 24),
        0xc0 => insn("and-long/2addr"@, Format::K12x, IndexKind::NoIndex, 24),
        0xc1 => insn("or-long/2addr"@, Format::K12x, IndexKind::NoIndex, 24),
        0xc2 => insn("xor-long/2addr"@, Format::K12x, IndexKind::NoIndex, 24),
        0xc3 => insn("shl-long/2addr"@, Format::K12x, IndexKind::NoIndex, 12),
        0xc4 => insn("shr-long/2addr"@, Format::K12x, IndexKind::NoIndex, 12),
        0xc5 => insn("ushr-long/2addr"@, Format::K12x, IndexKind::NoIndex, 12),
        0xc6 => insn("add-float/2addr"@, Format::K12x, IndexKind::NoIndex, 6),
        0xc7 => insn("sub-float/2addr"@, Format::K12x, IndexKind::NoIndex, 6),
        0xc8 => insn("mul-float/2addr"@, Format::K12x, IndexKind::NoIndex, 6),
        0xc9 => insn("div-float/2addr"@, Format::K12x, IndexKind::NoIndex, 6),
        0xca => insn("rem-float/2addr"@, Format::K12x, IndexKind::NoIndex, 6),
        0xcb => insn("add-double/2addr"@, Format::K12x, IndexKind::NoIndex, 24),
        0xcc => insn("sub-double/2addr"@, Format::K12x, IndexKind::NoIndex, 24),
        0xcd => insn("mul-double/2addr"@, Format::K12x, IndexKind::NoIndex, 24),
        0xce => insn("div-double/2addr"@, Format::K12x, IndexKind::NoIndex, 24),
        0xcf => insn("rem-double/2addr"@, Format::K12x, IndexKind::NoIndex, 24),
        0xd0 => insn("add-int/lit16"@, Format::K22s, IndexKind::NoIndex, 6),
        0xd1 => insn("rsub-int"@, Format::K22s, IndexKind::NoIndex, 6),
        0xd2 => insn("mul-int/lit16"@, Format::K22s, IndexKind::NoIndex, 6),
        0xd3 => insn("div-int/lit16"@, Format::K22s, IndexKind::NoIndex, 6),
        0xd4 => insn("rem-int/lit16"@, Format::K22s, IndexKind::NoIndex, 6),
        0xd5 => insn("and-int/lit16"@, Format::K22s, IndexKind::NoIndex, 6),
        0xd6 => insn("or-int/lit16"@, Format::K22s, IndexKind::NoIndex, 6),
        0xd7 => insn("xor-int/lit16"@, Format::K22s, IndexKind::NoIndex, 6),
        0xd8 => insn("add-int/lit8"@, Format::K22b, IndexKind::NoIndex, 6),
        0xd9 => insn("rsub-int/lit8"@, Format::K22b, IndexKind::NoIndex, 6),
        0xda => insn("mul-int/lit8"@, Format::K22b, IndexKind::NoIndex, 6),
        0xdb => insn("div-int/lit8"@, Format::K22b, IndexKind::NoIndex, 6),
        0xdc => insn("rem-int/lit8"@, Format::K22b, IndexKind::NoIndex, 6),
        0xdd => insn("and-int/lit8"@, Format::K22b, IndexKind::NoIndex, 6),
        0xde => insn("or-int/lit8"@, Format::K22b, IndexKind::NoIndex, 6),
        0xdf => insn("xor-int/lit8"@, Format::K22b, IndexKind::NoIndex, 6),
        0xe0 => insn("shl-int/lit8"@, Format::K22b, IndexKind::NoIndex, 6),
        0xe1 => insn("shr-int/lit8"@, Format::K22b, IndexKind::NoIndex, 6),
        0xe2 => insn("ushr-int/lit8"@, Format::K22b, IndexKind::NoIndex, 6),
        0xfa => insn("invoke-polymorphic"@, Format::K45cc, IndexKind::MethodAndProtoRef, 23068672),
        0xfb => insn("invoke-polymorphic/range"@, Format::K4rcc, IndexKind::MethodAndProtoRef, 27262976),
        0xfc => insn("invoke-custom"@, Format::K35c, IndexKind::CallSiteRef, 33556480),
        0xfd => insn("invoke-custom/range"@, Format::K3rc, IndexKind::CallSiteRef, 33558528),
        0xfe => insn("const-method-handle"@, Format::K21c, IndexKind::MethodHandleRef, 67108866),
        0xff => insn("const-method-type"@, Format::K21c, IndexKind::ProtoRef, 134217730),
        _ => None,
    }
}

/// The view of an optional opcode.
pub open spec fn opcode_view(o: Option<Opcode>) -> Option<OpcodeView> {
    match o {
        Some(x) => Some(x@),
        None => None,
    }
}

/// The instruction that `op` encodes, or `None` for an unused opcode.
pub fn lookup_opcode(op: u8) -> (r: Option<Opcode>)
    ensures
        opcode_view(r) == spec_opcode(op),
{
    match op {
        0x00 => Some(Opcode { name: "nop", len: 1, fmt: Format::K10x, idx: IndexKind::NoIndex, verify: VerifyFlags(1) }),
        0x01 => Some(Opcode { name: "move", len: 1, fmt: Format::K12x, idx: IndexKind::NoIndex, verify: VerifyFlags(6) }),
        0x02 => Some(Opcode { name: "move/from16", len: 2, fmt: Format::K22x, idx: IndexKind::NoIndex, verify: VerifyFlags(6) }),
        0x03 => Some(Opcode { name: "move/16", len: 3, fmt: Format::K32x, idx: IndexKind::NoIndex, verify: VerifyFlags(6) }),
        0x04 => Some(Opcode { name: "move-wide", len: 1, fmt: Format::K12x, idx: IndexKind::NoIndex, verify: VerifyFlags(24) }),
        0x05 => Some(Opcode { name: "move-wide/from16", len: 2, fmt: Format::K22x, idx: IndexKind::NoIndex, verify: VerifyFlags(24) }),
        0x06 => Some(Opcode { name: "move-wide/16", len: 3, fmt: Format::K32x, idx: IndexKind::NoIndex, verify: VerifyFlags(24) }),
        0x07 => Some(Opcode { name: "move-object", len: 1, fmt: Format::K12x, idx: IndexKind::NoIndex, verify: VerifyFlags(6) }),
        0x08 => Some(Opcode { name: "move-object/from16", len: 2, fmt: Format::K22x, idx: IndexKind::NoIndex, verify: VerifyFlags(6) }),
        0x09 => Some(Opcode { name: "move-object/16", len: 3, fmt: Format::K32x, idx: IndexKind::NoIndex, verify: VerifyFlags(6) }),
        0x0a => Some(Opcode { name: "move-result", len: 1, fmt: Format::K11x, idx: IndexKind::NoIndex, verify: VerifyFlags(2) }),
        0x0b => Some(Opcode { name: "move-result-wide", len: 1, fmt: Format::K11x, idx: IndexKind::NoIndex, verify: VerifyFlags(8) }),
        0x0c => Some(Opcode { name: "move-result-object", len: 1, fmt: Format::K11x, idx: IndexKind::NoIndex, verify: VerifyFlags(2) }),
        0x0d => Some(Opcode { name: "move-exception", len: 1, fmt: Format::K11x, idx: IndexKind::NoIndex, verify: VerifyFlags(2) }),
        0x0e => Some(Opcode { name: "return-void", len: 1, fmt: Format::K10x, idx: IndexKind::NoIndex, verify: VerifyFlags(1) }),
        0x0f => Some(Opcode { name: "return", len: 1, fmt: Format::K11x, idx: IndexKind::NoIndex, verify: VerifyFlags(2) }),
        0x10 => Some(Opcode { name: "return-wide", len: 1, fmt: Format::K11x, idx: IndexKind::NoIndex, verify: VerifyFlags(8) }),
        0x11 => Some(Opcode { name: "return-object", len: 1, fmt: Format::K11x, idx: IndexKind::NoIndex, verify: VerifyFlags(2) }),
        0x12 => Some(Opcode { name: "const/4", len: 1, fmt: Format::K11n, idx: IndexKind::NoIndex, verify: VerifyFlags(2) }),
        0x13 => Some(Opcode { name: "const/16", len: 2, fmt: Format::K21s, idx: IndexKind::NoIndex, verify: VerifyFlags(2) }),
        0x14 => Some(Opcode { name: "const", len: 3, fmt: Format::K31i, idx: IndexKind::NoIndex, verify: VerifyFlags(2) }),
        0x15 => Some(Opcode { name: "const/high16", len: 2, fmt: Format::K21h, idx: IndexKind::NoIndex, verify: VerifyFlags(2) }),
        0x16 => Some(Opcode { name: "const-wide/16", len: 2, fmt: Format::K21s, idx: IndexKind::NoIndex, verify: VerifyFlags(8) }),
        0x17 => Some(Opcode { name: "const-wide/32", len: 3, fmt: Format::K31i, idx: IndexKind::NoIndex, verify: VerifyFlags(8) }),
        0x18 => Some(Opcode { name: "const-wide", len: 5, fmt: Format::K51l, idx: IndexKind::NoIndex, verify: VerifyFlags(8) }),
        0x19 => Some(Opcode { name: "const-wide/high16", len: 2, fmt: Format::K21h, idx: IndexKind::NoIndex, verify: VerifyFlags(8) }),
        0x1a => Some(Opcode { name: "const-string", len: 2, fmt: Format::K21c, idx: IndexKind::StringRef, verify: VerifyFlags(34) }),
        0x1b => Some(Opcode { name: "const-string/jumbo", len: 3, fmt: Format::K31c, idx: IndexKind::StringRef, verify: VerifyFlags(34) }),
        0x1c => Some(Opcode { name: "const-class", len: 2, fmt: Format::K21c, idx: IndexKind::TypeRef, verify: VerifyFlags(66) }),
        0x1d => Some(Opcode { name: "monitor-enter", len: 1, fmt: Format::K11x, idx: IndexKind::NoIndex, verify: VerifyFlags(2) }),
        0x1e => Some(Opcode { name: "monitor-exit", len: 1, fmt: Format::K11x, idx: IndexKind::NoIndex, verify: VerifyFlags(2) }),
        0x1f => Some(Opcode { name: "check-cast", len: 2, fmt: Format::K21c, idx: IndexKind::TypeRef, verify: VerifyFlags(66) }),
        0x20 => Some(Opcode { name: "instance-of", len: 2, fmt: Format::K22c, idx: IndexKind::TypeRef, verify: VerifyFlags(134) }),
        0x21 => Some(Opcode { name: "array-length", len: 1, fmt: Format::K12x, idx: IndexKind::NoIndex, verify: VerifyFlags(6) }),
        0x22 => Some(Opcode { name: "new-instance", len: 2, fmt: Format::K21c, idx: IndexKind::TypeRef, verify: VerifyFlags(258) }),
        0x23 => Some(Opcode { name: "new-array", len: 2, fmt: Format::K22c, idx: IndexKind::TypeRef, verify: VerifyFlags(518) }),
        0x24 => Some(Opcode { name: "filled-new-array", len: 3, fmt: Format::K35c, idx: IndexKind::TypeRef, verify: VerifyFlags(3072) }),
        0x25 => Some(Opcode { name: "filled-new-array/range", len: 3, fmt: Format::K3rc, idx: IndexKind::TypeRef, verify: VerifyFlags(5120) }),
        0x26 => Some(Opcode { name: "fill-array-data", len: 3, fmt: Format::K31t, idx: IndexKind::NoIndex, verify: VerifyFlags(8194) }),
        0x27 => Some(Opcode { name: "throw", len: 1, fmt: Format::K11x, idx: IndexKind::NoIndex, verify: VerifyFlags(2) }),
        0x28 => Some(Opcode { name: "goto", len: 1, fmt: Format::K10t, idx: IndexKind::NoIndex, verify: VerifyFlags(16384) }),
        0x29 => Some(Opcode { name: "goto/16", len: 2, fmt: Format::K20t, idx: IndexKind::NoIndex, verify: VerifyFlags(16384) }),
        0x2a => Some(Opcode { name: "goto/32", len: 3, fmt: Format::K30t, idx: IndexKind::NoIndex, verify: VerifyFlags(16384) }),
        0x2b => Some(Opcode { name: "packed-switch", len: 3, fmt: Format::K31t, idx: IndexKind::NoIndex, verify: VerifyFlags(32770) }),
        0x2c => Some(Opcode { name: "sparse-switch", len: 3, fmt: Format::K31t, idx: IndexKind::NoIndex, verify: VerifyFlags(32770) }),
        0x2d => Some(Opcode { name: "cmpl-float", len: 2, fmt: Format::K23x, idx: IndexKind::NoIndex, verify: VerifyFlags(65542) }),
        0x2e => Some(Opcode { name: "cmpg-float", len: 2, fmt: Format::K23x, idx: IndexKind::NoIndex, verify: VerifyFlags(65542) }),
        0x2f => Some(Opcode { name: "cmpl-double", len: 2, fmt: Format::K23x, idx: IndexKind::NoIndex, verify: VerifyFlags(131090) }),
        0x30 => Some(Opcode { name: "cmpg-double", len: 2, fmt: Format::K23x, idx: IndexKind::NoIndex, verify: VerifyFlags(131090) }),
        0x31 => Some(Opcode { name: "cmp-long", len: 2, fmt: Format::K23x, idx: IndexKind::NoIndex, verify: VerifyFlags(131090) }),
        0x32 => Some(Opcode { name: "if-eq", len: 2, fmt: Format::K22t, idx: IndexKind::NoIndex, verify: VerifyFlags(16390) }),
        0x33 => Some(Opcode { name: "if-ne", len: 2, fmt: Format::K22t, idx: IndexKind::NoIndex, verify: VerifyFlags(16390) }),
        0x34 => Some(Opcode { name: "if-lt", len: 2, fmt: Format::K22t, idx: IndexKind::NoIndex, verify: VerifyFlags(16390) }),
        0x35 => Some(Opcode { name: "if-ge", len: 2, fmt: Format::K22t, idx: IndexKind::NoIndex, verify: VerifyFlags(16390) }),
        0x36 => Some(Opcode { name: "if-gt", len: 2, fmt: Format::K22t, idx: IndexKind::NoIndex, verify: VerifyFlags(16390) }),
        0x37 => Some(Opcode { name: "if-le", len: 2, fmt: Format::K22t, idx: IndexKind::NoIndex, verify: VerifyFlags(16390) }),
        0x38 => Some(Opcode { name: "if-eqz", len: 2, fmt: Format::K21t, idx: IndexKind::NoIndex, verify: VerifyFlags(16386) }),
        0x39 => Some(Opcode { name: "if-nez", len: 2, fmt: Format::K21t, idx: IndexKind::NoIndex, verify: VerifyFlags(16386) }),
        0x3a => Some(Opcode { name: "if-ltz", len: 2, fmt: Format::K21t, idx: IndexKind::NoIndex, verify: VerifyFlags(16386) }),
        0x3b => Some(Opcode { name: "if-gez", len: 2, fmt: Format::K21t, idx: IndexKind::NoIndex, verify: VerifyFlags(16386) }),
        0x3c => Some(Opcode { name: "if-gtz", len: 2, fmt: Format::K21t, idx: IndexKind::NoIndex, verify: VerifyFlags(16386) }),
        0x3d => Some(Opcode { name: "if-lez", len: 2, fmt: Format::K21t, idx: IndexKind::NoIndex, verify: VerifyFlags(16386) }),
        0x44 => Some(Opcode { name: "aget", len: 2, fmt: Format::K23x, idx: IndexKind::NoIndex, verify: VerifyFlags(65542) }),
        0x45 => Some(Opcode { name: "aget-wide", len: 2, fmt: Format::K23x, idx: IndexKind::NoIndex, verify: VerifyFlags(65548) }),
        0x46 => Some(Opcode { name: "aget-object", len: 2, fmt: Format::K23x, idx: IndexKind::NoIndex, verify: VerifyFlags(65542) }),
        0x47 => Some(Opcode { name: "aget-boolean", len: 2, fmt: Format::K23x, idx: IndexKind::NoIndex, verify: VerifyFlags(65542) }),
        0x48 => Some(Opcode { name: "aget-byte", len: 2, fmt: Format::K23x, idx: IndexKind::NoIndex, verify: VerifyFlags(65542) }),
        0x49 => Some(Opcode { name: "aget-char", len: 2, fmt: Format::K23x, idx: IndexKind::NoIndex, verify: VerifyFlags(65542) }),
        0x4a => Some(Opcode { name: "aget-short", len: 2, fmt: Format::K23x, idx: IndexKind::NoIndex, verify: VerifyFlags(65542) }),
        0x4b => Some(Opcode { name: "aput", len: 2, fmt: Format::K23x, idx: IndexKind::NoIndex, verify: VerifyFlags(65542) }),
        0x4c => Some(Opcode { name: "aput-wide", len: 2, fmt: Format::K23x, idx: IndexKind::NoIndex, verify: VerifyFlags(65548) }),
        0x4d => Some(Opcode { name: "aput-object", len: 2, fmt: Format::K23x, idx: IndexKind::NoIndex, verify: VerifyFlags(65542) }),
        0x4e => Some(Opcode { name: "aput-boolean", len: 2, fmt: Format::K23x, idx: IndexKind::NoIndex, verify: VerifyFlags(65542) }),
        0x4f => Some(Opcode { name: "aput-byte", len: 2, fmt: Format::K23x, idx: IndexKind::NoIndex, verify: VerifyFlags(65542) }),
        0x50 => Some(Opcode { name: "aput-char", len: 2, fmt: Format::K23x, idx: IndexKind::NoIndex, verify: VerifyFlags(65542) }),
        0x51 => Some(Opcode { name: "aput-short", len: 2, fmt: Format::K23x, idx: IndexKind::NoIndex, verify: VerifyFlags(65542) }),
        0x52 => Some(Opcode { name: "iget", len: 2, fmt: Format::K22c, idx: IndexKind::FieldRef, verify: VerifyFlags(524294) }),
        0x53 => Some(Opcode { name: "iget-wide", len: 2, fmt: Format::K22c, idx: IndexKind::FieldRef, verify: VerifyFlags(524300) }),
        0x54 => Some(Opcode { name: "iget-object", len: 2, fmt: Format::K22c, idx: IndexKind::FieldRef, verify: VerifyFlags(524294) }),
        0x55 => Some(Opcode { name: "iget-boolean", len: 2, fmt: Format::K22c, idx: IndexKind::FieldRef, verify: VerifyFlags(524294) }),
        0x56 => Some(Opcode { name: "iget-byte", len: 2, fmt: Format::K22c, idx: IndexKind::FieldRef, verify: VerifyFlags(524294) }),
        0x57 => Some(Opcode { name: "iget-char", len: 2, fmt: Format::K22c, idx: IndexKind::FieldRef, verify: VerifyFlags(524294) }),
        0x58 => Some(Opcode { name: "iget-short", len: 2, fmt: Format::K22c, idx: IndexKind::FieldRef, verify: VerifyFlags(524294) }),
        0x59 => Some(Opcode { name: "iput", len: 2, fmt: Format::K22c, idx: IndexKind::FieldRef, verify: VerifyFlags(524294) }),
        0x5a => Some(Opcode { name: "iput-wide", len: 2, fmt: Format::K22c, idx: IndexKind::FieldRef, verify: VerifyFlags(524300) }),
        0x5b => Some(Opcode { name: "iput-object", len: 2, fmt: Format::K22c, idx: IndexKind::FieldRef, verify: VerifyFlags(524294) }),
        0x5c => Some(Opcode { name: "iput-boolean", len: 2, fmt: Format::K22c, idx: IndexKind::FieldRef, verify: VerifyFlags(524294) }),
        0x5d => Some(Opcode { name: "iput-byte", len: 2, fmt: Format::K22c, idx: IndexKind::FieldRef, verify: VerifyFlags(524294) }),
        0x5e => Some(Opcode { name: "iput-char", len: 2, fmt: Format::K22c, idx: IndexKind::FieldRef, verify: VerifyFlags(524294) }),
        0x5f => Some(Opcode { name: "iput-short", len: 2, fmt: Format::K22c, idx: IndexKind::FieldRef, verify: VerifyFlags(524294) }),
        0x60 => Some(Opcode { name: "sget", len: 2, fmt: Format::K21c, idx: IndexKind::FieldRef, verify: VerifyFlags(1048578) }),
        0x61 => Some(Opcode { name: "sget-wide", len: 2, fmt: Format::K21c, idx: IndexKind::FieldRef, verify: VerifyFlags(1048584) }),
        0x62 => Some(Opcode { name: "sget-object", len: 2, fmt: Format::K21c, idx: IndexKind::FieldRef, verify: VerifyFlags(1048578) }),
        0x63 => Some(Opcode { name: "sget-boolean", len: 2, fmt: Format::K21c, idx: IndexKind::FieldRef, verify: VerifyFlags(1048578) }),
        0x64 => Some(Opcode { name: "sget-byte", len: 2, fmt: Format::K21c, idx: IndexKind::FieldRef, verify: VerifyFlags(1048578) }),
        0x65 => Some(Opcode { name: "sget-char", len: 2, fmt: Format::K21c, idx: IndexKind::FieldRef, verify: VerifyFlags(1048578) }),
        0x66 => Some(Opcode { name: "sget-short", len: 2, fmt: Format::K21c, idx: IndexKind::FieldRef, verify: VerifyFlags(1048578) }),
        0x67 => Some(Opcode { name: "sput", len: 2, fmt: Format::K21c, idx: IndexKind::FieldRef, verify: VerifyFlags(1048578) }),
        0x68 => Some(Opcode { name: "sput-wide", len: 2, fmt: Format::K21c, idx: IndexKind::FieldRef, verify: VerifyFlags(1048584) }),
        0x69 => Some(Opcode { name: "sput-object", len: 2, fmt: Format::K21c, idx: IndexKind::FieldRef, verify: VerifyFlags(1048578) }),
        0x6a => Some(Opcode { name: "sput-boolean", len: 2, fmt: Format::K21c, idx: IndexKind::FieldRef, verify: VerifyFlags(1048578) }),
        0x6b => Some(Opcode { name: "sput-byte", len: 2, fmt: Format::K21c, idx: IndexKind::FieldRef, verify: VerifyFlags(1048578) }),
        0x6c => Some(Opcode { name: "sput-char", len: 2, fmt: Format::K21c, idx: IndexKind::FieldRef, verify: VerifyFlags(1048578) }),
        0x6d => Some(Opcode { name: "sput-short", len: 2, fmt: Format::K21c, idx: IndexKind::FieldRef, verify: VerifyFlags(1048578) }),
        0x6e => Some(Opcode { name: "invoke-virtual", len: 3, fmt: Format::K35c, idx: IndexKind::MethodRef, verify: VerifyFlags(6291456) }),
        0x6f => Some(Opcode { name: "invoke-super", len: 3, fmt: Format::K35c, idx: IndexKind::MethodRef, verify: VerifyFlags(6291456) }),
        0x70 => Some(Opcode { name: "invoke-direct", len: 3, fmt: Format::K35c, idx: IndexKind::MethodRef, verify: VerifyFlags(6291456) }),
        0x71 => Some(Opcode { name: "invoke-static", len: 3, fmt: Format::K35c, idx: IndexKind::MethodRef, verify: VerifyFlags(2099200) }),
        0x72 => Some(Opcode { name: "invoke-interface", len: 3, fmt: Format::K35c, idx: IndexKind::MethodRef, verify: VerifyFlags(6291456) }),
        0x74 => Some(Opcode { name: "invoke-virtual/range", len: 3, fmt: Format::K3rc, idx: IndexKind::MethodRef, verify: VerifyFlags(10485760) }),
        0x75 => Some(Opcode { name: "invoke-super/range", len: 3, fmt: Format::K3rc, idx: IndexKind::MethodRef, verify: VerifyFlags(10485760) }),
        0x76 => Some(Opcode { name: "invoke-direct/range", len: 3, fmt: Format::K3rc, idx: IndexKind::MethodRef, verify: VerifyFlags(10485760) }),
        0x77 => Some(Opcode { name: "invoke-static/range", len: 3, fmt: Format::K3rc, idx: IndexKind::MethodRef, verify: VerifyFlags(2101248) }),
        0x78 => Some(Opcode { name: "invoke-interface/range", len: 3, fmt: Format::K3rc, idx: IndexKind::MethodRef, verify: VerifyFlags(10485760) }),
        0x7b => Some(Opcode { name: "neg-int", len: 1, fmt: Format::K12x, idx: IndexKind::NoIndex, verify: VerifyFlags(6) }),
        0x7c => Some(Opcode { name: "not-int", len: 1, fmt: Format::K12x, idx: IndexKind::NoIndex, verify: VerifyFlags(6) }),
        0x7d => Some(Opcode { name: "neg-long", len: 1, fmt: Format::K12x, idx: IndexKind::NoIndex, verify: VerifyFlags(24) }),
        0x7e => Some(Opcode { name: "not-long", len: 1, fmt: Format::K12x, idx: IndexKind::NoIndex, verify: VerifyFlags(24) }),
        0x7f => Some(Opcode { name: "neg-float", len: 1, fmt: Format::K12x, idx: IndexKind::NoIndex, verify: VerifyFlags(6) }),
        0x80 => Some(Opcode { name: "neg-double", len: 1, fmt: Format::K12x, idx: IndexKind::NoIndex, verify: VerifyFlags(24) }),
        0x81 => Some(Opcode { name: "int-to-long", len: 1, fmt: Format::K12x, idx: IndexKind::NoIndex, verify: VerifyFlags(12) }),
        0x82 => Some(Opcode { name: "int-to-float", len: 1, fmt: Format::K12x, idx: IndexKind::NoIndex, verify: VerifyFlags(6) }),
        0x83 => Some(Opcode { name: "int-to-double", len: 1, fmt: Format::K12x, idx: IndexKind::NoIndex, verify: VerifyFlags(12) }),
        0x84 => Some(Opcode { name: "long-to-int", len: 1, fmt: Format::K12x, idx: IndexKind::NoIndex, verify: VerifyFlags(18) }),
        0x85 => Some(Opcode { name: "long-to-float", len: 1, fmt: Format::K12x, idx: IndexKind::NoIndex, verify: VerifyFlags(18) }),
        0x86 => Some(Opcode { name: "long-to-double", len: 1, fmt: Format::K12x, idx: IndexKind::NoIndex, verify: VerifyFlags(24) }),
        0x87 => Some(Opcode { name: "float-to-int", len: 1, fmt: Format::K12x, idx: IndexKind::NoIndex, verify: VerifyFlags(6) }),
        0x88 => Some(Opcode { name: "float-to-long", len: 1, fmt: Format::K12x, idx: IndexKind::NoIndex, verify: VerifyFlags(12) }),
        0x89 => Some(Opcode { name: "float-to-double", len: 1, fmt: Format::K12x, idx: IndexKind::NoIndex, verify: VerifyFlags(12) }),
        0x8a => Some(Opcode { name: "double-to-int", len: 1, fmt: Format::K12x, idx: IndexKind::NoIndex, verify: VerifyFlags(18) }),
        0x8b => Some(Opcode { name: "double-to-long", len: 1, fmt: Format::K12x, idx: IndexKind::NoIndex, verify: VerifyFlags(24) }),
        0x8c => Some(Opcode { name: "double-to-float", len: 1, fmt: Format::K12x, idx: IndexKind::NoIndex, verify: VerifyFlags(18) }),
        0x8d => Some(Opcode { name: "int-to-byte", len: 1, fmt: Format::K12x, idx: IndexKind::NoIndex, verify: VerifyFlags(6) }),
        0x8e => Some(Opcode { name: "int-to-char", len: 1, fmt: Format::K12x, idx: IndexKind::NoIndex, verify: VerifyFlags(6) }),
        0x8f => Some(Opcode { name: "int-to-short", len: 1, fmt: Format::K12x, idx: IndexKind::NoIndex, verify: VerifyFlags(6) }),
        0x90 => Some(Opcode { name: "add-int", len: 2, fmt: Format::K23x, idx: IndexKind::NoIndex, verify: VerifyFlags(65542) }),
        0x91 => Some(Opcode { name: "sub-int", len: 2, fmt: Format::K23x, idx: IndexKind::NoIndex, verify: VerifyFlags(65542) }),
        0x92 => Some(Opcode { name: "mul-int", len: 2, fmt: Format::K23x, idx: IndexKind::NoIndex, verify: VerifyFlags(65542) }),
        0x93 => Some(Opcode { name: "div-int", len: 2, fmt: Format::K23x, idx: IndexKind::NoIndex, verify: VerifyFlags(65542) }),
        0x94 => Some(Opcode { name: "rem-int", len: 2, fmt: Format::K23x, idx: IndexKind::NoIndex, verify: VerifyFlags(65542) }),
        0x95 => Some(Opcode { name: "and-int", len: 2, fmt: Format::K23x, idx: IndexKind::NoIndex, verify: VerifyFlags(65542) }),
        0x96 => Some(Opcode { name: "or-int", len: 2, fmt: Format::K23x, idx: IndexKind::NoIndex, verify: VerifyFlags(65542) }),
        0x97 => Some(Opcode { name: "xor-int", len: 2, fmt: Format::K23x, idx: IndexKind::NoIndex, verify: VerifyFlags(65542) }),
        0x98 => Some(Opcode { name: "shl-int", len: 2, fmt: Format::K23x, idx: IndexKind::NoIndex, verify: VerifyFlags(65542) }),
        0x99 => Some(Opcode { name: "shr-int", len: 2, fmt: Format::K23x, idx: IndexKind::NoIndex, verify: VerifyFlags(65542) }),
        0x9a => Some(Opcode { name: "ushr-int", len: 2, fmt: Format::K23x, idx: IndexKind::NoIndex, verify: VerifyFlags(65542) }),
        0x9b => Some(Opcode { name: "add-long", len: 2, fmt: Format::K23x, idx: IndexKind::NoIndex, verify: VerifyFlags(131096) }),
        0x9c => Some(Opcode { name: "sub-long", len: 2, fmt: Format::K23x, idx: IndexKind::NoIndex, verify: VerifyFlags(131096) }),
        0x9d => Some(Opcode { name: "mul-long", len: 2, fmt: Format::K23x, idx: IndexKind::NoIndex, verify: VerifyFlags(131096) }),
        0x9e => Some(Opcode { name: "div-long", len: 2, fmt: Format::K23x, idx: IndexKind::NoIndex, verify: VerifyFlags(131096) }),
        0x9f => Some(Opcode { name: "rem-long", len: 2, fmt: Format::K23x, idx: IndexKind::NoIndex, verify: VerifyFlags(131096) }),
        0xa0 => Some(Opcode { name: "and-long", len: 2, fmt: Format::K23x, idx: IndexKind::NoIndex, verify: VerifyFlags(131096) }),
        0xa1 => Some(Opcode { name: "or-long", len: 2, fmt: Format::K23x, idx: IndexKind::NoIndex, verify: VerifyFlags(131096) }),
        0xa2 => Some(Opcode { name: "xor-long", len: 2, fmt: Format::K23x, idx: IndexKind::NoIndex, verify: VerifyFlags(131096) }),
        0xa3 => Some(Opcode { name: "shl-long", len: 2, fmt: Format::K23x, idx: IndexKind::NoIndex, verify: VerifyFlags(65560) }),
        0xa4 => Some(Opcode { name: "shr-long", len: 2, fmt: Format::K23x, idx: IndexKind::NoIndex, verify: VerifyFlags(65560) }),
        0xa5 => Some(Opcode { name: "ushr-long", len: 2, fmt: Format::K23x, idx: IndexKind::NoIndex, verify: VerifyFlags(65560) }),
        0xa6 => Some(Opcode { name: "add-float", len: 2, fmt: Format::K23x, idx: IndexKind::NoIndex, verify: VerifyFlags(65542) }),
        0xa7 => Some(Opcode { name: "sub-float", len: 2, fmt: Format::K23x, idx: IndexKind::NoIndex, verify: VerifyFlags(65542) }),
        0xa8 => Some(Opcode { name: "mul-float", len: 2, fmt: Format::K23x, idx: IndexKind::NoIndex, verify: VerifyFlags(65542) }),
        0xa9 => Some(Opcode { name: "div-float", len: 2, fmt: Format::K23x, idx: IndexKind::NoIndex, verify: VerifyFlags(65542) }),
        0xaa => Some(Opcode { name: "rem-float", len: 2, fmt: Format::K23x, idx: IndexKind::NoIndex, verify: VerifyFlags(65542) }),
        0xab => Some(Opcode { name: "add-double", len: 2, fmt: Format::K23x, idx: IndexKind::NoIndex, verify: VerifyFlags(131096) }),
        0xac => Some(Opcode { name: "sub-double", len: 2, fmt: Format::K23x, idx: IndexKind::NoIndex, verify: VerifyFlags(131096) }),
        0xad => Some(Opcode { name: "mul-double", len: 2, fmt: Format::K23x, idx: IndexKind::NoIndex, verify: VerifyFlags(131096) }),
        0xae => Some(Opcode { name: "div-double", len: 2, fmt: Format::K23x, idx: IndexKind::NoIndex, verify: VerifyFlags(131096) }),
        0xaf => Some(Opcode { name: "rem-double", len: 2, fmt: Format::K23x, idx: IndexKind::NoIndex, verify: VerifyFlags(131096) }),
        0xb0 => Some(Opcode { name: "add-int/2addr", len: 1, fmt: Format::K12x, idx: IndexKind::NoIndex, verify: VerifyFlags(6) }),
        0xb1 => Some(Opcode { name: "sub-int/2addr", len: 1, fmt: Format::K12x, idx: IndexKind::NoIndex, verify: VerifyFlags(6) }),
        0xb2 => Some(Opcode { name: "mul-int/2addr", len: 1, fmt: Format::K12x, idx: IndexKind::NoIndex, verify: VerifyFlags(6) }),
        0xb3 => Some(Opcode { name: "div-int/2addr", len: 1, fmt: Format::K12x, idx: IndexKind::NoIndex, verify: VerifyFlags(6) }),
        0xb4 => Some(Opcode { name: "rem-int/2addr", len: 1, fmt: Format::K12x, idx: IndexKind::NoIndex, verify: VerifyFlags(6) }),
        0xb5 => Some(Opcode { name: "and-int/2addr", len: 1, fmt: Format::K12x, idx: IndexKind::NoIndex, verify: VerifyFlags(6) }),
        0xb6 => Some(Opcode { name: "or-int/2addr", len: 1, fmt: Format::K12x, idx: IndexKind::NoIndex, verify: VerifyFlags(6) }),
        0xb7 => Some(Opcode { name: "xor-int/2addr", len: 1, fmt: Format::K12x, idx: IndexKind::NoIndex, verify: VerifyFlags(6) }),
        0xb8 => Some(Opcode { name: "shl-int/2addr", len: 1, fmt: Format::K12x, idx: IndexKind::NoIndex, verify: VerifyFlags(6) }),
        0xb9 => Some(Opcode { name: "shr-int/2addr", len: 1, fmt: Format::K12x, idx: IndexKind::NoIndex, verify: VerifyFlags(6) }),
        0xba => Some(Opcode { name: "ushr-int/2addr", len: 1, fmt: Format::K12x, idx: IndexKind::NoIndex, verify: VerifyFlags(6) }),
        0xbb => Some(Opcode { name: "add-long/2addr", len: 1, fmt: Format::K12x, idx: IndexKind::NoIndex, verify: VerifyFlags(24) }),
        0xbc => Some(Opcode { name: "sub-long/2addr", len: 1, fmt: Format::K12x, idx: IndexKind::NoIndex, verify: VerifyFlags(24) }),
        0xbd => Some(Opcode { name: "mul-long/2addr", len: 1, fmt: Format::K12x, idx: IndexKind::NoIndex, verify: VerifyFlags(24) }),
        0xbe => Some(Opcode { name: "div-long/2addr", len: 1, fmt: Format::K12x, idx: IndexKind::NoIndex, verify: VerifyFlags(24) }),
        0xbf => Some(Opcode { name: "rem-long/2addr", len: 1, fmt: Format::K12x, idx: IndexKind::NoIndex, verify: VerifyFlags(24) }),
        0xc0 => Some(Opcode { name: "and-long/2addr", len: 1, fmt: Format::K12x, idx: IndexKind::NoIndex, verify: VerifyFlags(24) }),
        0xc1 => Some(Opcode { name: "or-long/2addr", len: 1, fmt: Format::K12x, idx: IndexKind::NoIndex, verify: VerifyFlags(24) }),
        0xc2 => Some(Opcode { name: "xor-long/2addr", len: 1, fmt: Format::K12x, idx: IndexKind::NoIndex, verify: VerifyFlags(24) }),
        0xc3 => Some(Opcode { name: "shl-long/2addr", len: 1, fmt: Format::K12x, idx: IndexKind::NoIndex, verify: VerifyFlags(12) }),
        0xc4 => Some(Opcode { name: "shr-long/2addr", len: 1, fmt: Format::K12x, idx: IndexKind::NoIndex, verify: VerifyFlags(12) }),
        0xc5 => Some(Opcode { name: "ushr-long/2addr", len: 1, fmt: Format::K12x, idx: IndexKind::NoIndex, verify: VerifyFlags(12) }),
        0xc6 => Some(Opcode { name: "add-float/2addr", len: 1, fmt: Format::K12x, idx: IndexKind::NoIndex, verify: VerifyFlags(6) }),
        0xc7 => Some(Opcode { name: "sub-float/2addr", len: 1, fmt: Format::K12x, idx: IndexKind::NoIndex, verify: VerifyFlags(6) }),
        0xc8 => Some(Opcode { name: "mul-float/2addr", len: 1, fmt: Format::K12x, idx: IndexKind::NoIndex, verify: VerifyFlags(6) }),
        0xc9 => Some(Opcode { name: "div-float/2addr", len: 1, fmt: Format::K12x, idx: IndexKind::NoIndex, verify: VerifyFlags(6) }),
        0xca => Some(Opcode { name: "rem-float/2addr", len: 1, fmt: Format::K12x, idx: IndexKind::NoIndex, verify: VerifyFlags(6) }),
        0xcb => Some(Opcode { name: "add-double/2addr", len: 1, fmt: Format::K12x, idx: IndexKind::NoIndex, verify: VerifyFlags(24) }),
        0xcc => Some(Opcode { name: "sub-double/2addr", len: 1, fmt: Format::K12x, idx: IndexKind::NoIndex, verify: VerifyFlags(24) }),
        0xcd => Some(Opcode { name: "mul-double/2addr", len: 1, fmt: Format::K12x, idx: IndexKind::NoIndex, verify: VerifyFlags(24) }),
        0xce => Some(Opcode { name: "div-double/2addr", len: 1, fmt: Format::K12x, idx: IndexKind::NoIndex, verify: VerifyFlags(24) }),
        0xcf => Some(Opcode { name: "rem-double/2addr", len: 1, fmt: Format::K12x, idx: IndexKind::NoIndex, verify: VerifyFlags(24) }),
        0xd0 => Some(Opcode { name: "add-int/lit16", len: 2, fmt: Format::K22s, idx: IndexKind::NoIndex, verify: VerifyFlags(6) }),
        0xd1 => Some(Opcode { name: "rsub-int", len: 2, fmt: Format::K22s, idx: IndexKind::NoIndex, verify: VerifyFlags(6) }),
        0xd2 => Some(Opcode { name: "mul-int/lit16", len: 2, fmt: Format::K22s, idx: IndexKind::NoIndex, verify: VerifyFlags(6) }),
        0xd3 => Some(Opcode { name: "div-int/lit16", len: 2, fmt: Format::K22s, idx: IndexKind::NoIndex, verify: VerifyFlags(6) }),
        0xd4 => Some(Opcode { name: "rem-int/lit16", len: 2, fmt: Format::K22s, idx: IndexKind::NoIndex, verify: VerifyFlags(6) }),
        0xd5 => Some(Opcode { name: "and-int/lit16", len: 2, fmt: Format::K22s, idx: IndexKind::NoIndex, verify: VerifyFlags(6) }),
        0xd6 => Some(Opcode { name: "or-int/lit16", len: 2, fmt: Format::K22s, idx: IndexKind::NoIndex, verify: VerifyFlags(6) }),
        0xd7 => Some(Opcode { name: "xor-int/lit16", len: 2, fmt: Format::K22s, idx: IndexKind::NoIndex, verify: VerifyFlags(6) }),
        0xd8 => Some(Opcode { name: "add-int/lit8", len: 2, fmt: Format::K22b, idx: IndexKind::NoIndex, verify: VerifyFlags(6) }),
        0xd9 => Some(Opcode { name: "rsub-int/lit8", len: 2, fmt: Format::K22b, idx: IndexKind::NoIndex, verify: VerifyFlags(6) }),
        0xda => Some(Opcode { name: "mul-int/lit8", len: 2, fmt: Format::K22b, idx: IndexKind::NoIndex, verify: VerifyFlags(6) }),
        0xdb => Some(Opcode { name: "div-int/lit8", len: 2, fmt: Format::K22b, idx: IndexKind::NoIndex, verify: VerifyFlags(6) }),
        0xdc => Some(Opcode { name: "rem-int/lit8", len: 2, fmt: Format::K22b, idx: IndexKind::NoIndex, verify: VerifyFlags(6) }),
        0xdd => Some(Opcode { name: "and-int/lit8", len: 2, fmt: Format::K22b, idx: IndexKind::NoIndex, verify: VerifyFlags(6) }),
        0xde => Some(Opcode { name: "or-int/lit8", len: 2, fmt: Format::K22b, idx: IndexKind::NoIndex, verify: VerifyFlags(6) }),
        0xdf => Some(Opcode { name: "xor-int/lit8", len: 2, fmt: Format::K22b, idx: IndexKind::NoIndex, verify: VerifyFlags(6) }),
        0xe0 => Some(Opcode { name: "shl-int/lit8", len: 2, fmt: Format::K22b, idx: IndexKind::NoIndex, verify: VerifyFlags(6) }),
        0xe1 => Some(Opcode { name: "shr-int/lit8", len: 2, fmt: Format::K22b, idx: IndexKind::NoIndex, verify: VerifyFlags(6) }),
        0xe2 => Some(Opcode { name: "ushr-int/lit8", len: 2, fmt: Format::K22b, idx: IndexKind::NoIndex, verify: VerifyFlags(6) }),
        0xfa => Some(Opcode { name: "invoke-polymorphic", len: 4, fmt: Format::K45cc, idx: IndexKind::MethodAndProtoRef, verify: VerifyFlags(23068672) }),
        0xfb => Some(Opcode { name: "invoke-polymorphic/range", len: 4, fmt: Format::K4rcc, idx: IndexKind::MethodAndProtoRef, verify: VerifyFlags(27262976) }),
        0xfc => Some(Opcode { name: "invoke-custom", len: 3, fmt: Format::K35c, idx: IndexKind::CallSiteRef, verify: VerifyFlags(33556480) }),
        0xfd => Some(Opcode { name: "invoke-custom/range", len: 3, fmt: Format::K3rc, idx: IndexKind::CallSiteRef, verify: VerifyFlags(33558528) }),
        0xfe => Some(Opcode { name: "const-method-handle", len: 2, fmt: Format::K21c, idx: IndexKind::MethodHandleRef, verify: VerifyFlags(67108866) }),
        0xff => Some(Opcode { name: "const-method-type", len: 2, fmt: Format::K21c, idx: IndexKind::ProtoRef, verify: VerifyFlags(134217730) }),
        _ => None,
    }
}

/// The instruction of every opcode, indexed by opcode: `None` for unused ones.
pub fn opcode_table() -> (r: Vec<Option<Opcode>>)
    ensures
        r@.len() == 256,
        forall|i: int| 0 <= i < 256 ==> opcode_view(#[trigger] r@[i]) == spec_opcode(i as u8),
{
    let mut r: Vec<Option<Opcode>> = Vec::new();
    let mut op: usize = 0;
    while op < 256
        invariant
            op <= 256,
            r@.len() == op,
            forall|i: int| 0 <= i < op ==> opcode_view(#[trigger] r@[i]) == spec_opcode(i as u8),
        decreases 256 - op,
    {
        r.push(lookup_opcode(op as u8));
        op += 1;
    }
    r
}

} // verus!
