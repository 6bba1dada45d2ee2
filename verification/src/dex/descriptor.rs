//! Type descriptors: `[` per array dimension, one letter per primitive type,
//! and `L...;` for classes.
use crate::mutf8::DexStr;
use vstd::prelude::*;

verus! {

#[derive(Debug, Clone, PartialEq, Eq)]
pub enum TypeKind {
    Primitive(u8),
    Class,
    Array,
}

impl TypeKind {
    pub fn as_str(&self) -> (r: &'static str)
        ensures
            r@ == match self {
                TypeKind::Primitive(_) => "primitive"@,
                TypeKind::Class => "class"@,
                TypeKind::Array => "array"@,
            },
    {
        match self {
            Self::Primitive(_) => "primitive",
            Self::Class => "class",
            Self::Array => "array",
        }
    }
}

#[derive(Debug, Clone, PartialEq, Eq)]
pub struct TypeInfo {
    pub descriptor: DexStr,
    pub dim: usize,
    pub kind: TypeKind,
    pub primitive_value: Option<u8>,
    pub class_value: Option<DexStr>,
}

/// A `TypeInfo` with its strings taken as code units.
pub struct TypeInfoView {
    pub descriptor: Seq<u16>,
    pub dim: usize,
    pub kind: TypeKind,
    pub primitive_value: Option<u8>,
    pub class_value: Option<Seq<u16>>,
}

impl View for TypeInfo {
    type V = TypeInfoView;

    open spec fn view(&self) -> TypeInfoView {
        TypeInfoView {
            descriptor: self.descriptor@,
            dim: self.dim,
            kind: self.kind,
            primitive_value: self.primitive_value,
            class_value: match self.class_value {
                Some(c) => Some(c@),
                None => None,
            },
        }
    }
}

/// Number of `[` the descriptor starts with, counted from `i`.
pub open spec fn leading_brackets(u: Seq<u16>, i: int) -> nat
    decreases u.len() - i,
{
    if 0 <= i < u.len() && u[i] == 0x5b {
        1 + leading_brackets(u, i + 1)
    } else {
        0
    }
}

/// The number a one-letter primitive descriptor stands for, in the order
/// `V Z B S C I J F D`.
pub open spec fn primitive_code(c: u16) -> Option<u8> {
    if c == 0x56 {
        Some(0u8)
    } else if c == 0x5a {
        Some(1u8)
    } else if c == 0x42 {
        Some(2u8)
    } else if c == 0x53 {
        Some(3u8)
    } else if c == 0x43 {
        Some(4u8)
    } else if c == 0x49 {
        Some(5u8)
    } else if c == 0x4a {
        Some(6u8)
    } else if c == 0x46 {
        Some(7u8)
    } else if c == 0x44 {
        Some(8u8)
    } else {
        None
    }
}

/// What `parse_descriptor` returns: an array type when the descriptor starts
/// with `[`, a primitive type when it is one primitive letter, and a class
/// type otherwise.
pub open spec fn spec_parse_descriptor(u: Seq<u16>) -> TypeInfoView {
    let dim = leading_brackets(u, 0);
    if dim > 0 {
        TypeInfoView {
            descriptor: u,
            dim: dim as usize,
            kind: TypeKind::Array,
            primitive_value: None,
            class_value: None,
        }
    } else if u.len() == 1 && primitive_code(u[0]) is Some {
        let p = primitive_code(u[0])->0;
        TypeInfoView {
            descriptor: u,
            dim: 0,
            kind: TypeKind::Primitive(p),
            primitive_value: Some(p),
            class_value: None,
        }
    } else {
        TypeInfoView {
            descriptor: u,
            dim: 0,
            kind: TypeKind::Class,
            primitive_value: None,
            class_value: Some(u),
        }
    }
}

/// The one-letter primitive descriptors, `V Z B S C I J F D`: void, boolean,
/// byte, short, char, int, long, float, double, in the order of the numbers
/// they stand for.
pub open spec fn primitive_letters() -> Seq<u16> {
    seq![0x56u16, 0x5a, 0x42, 0x53, 0x43, 0x49, 0x4a, 0x46, 0x44]
}

/// The `p`-th primitive letter alone is the primitive type `p`; any other
/// one-character descriptor but `[` is a class named by that character.
pub proof fn lemma_one_letter_descriptors(c: u16)
    ensures
        forall|p: int|
            0 <= p < 9 && #[trigger] primitive_letters()[p] == c ==> spec_parse_descriptor(seq![c])
                == (TypeInfoView {
                descriptor: seq![c],
                dim: 0,
                kind: TypeKind::Primitive(p as u8),
                primitive_value: Some(p as u8),
                class_value: None,
            }),
        c != 0x5b && !primitive_letters().contains(c) ==> spec_parse_descriptor(seq![c])
            == (TypeInfoView {
            descriptor: seq![c],
            dim: 0,
            kind: TypeKind::Class,
            primitive_value: None,
            class_value: Some(seq![c]),
        }),
{
    let u = seq![c];
    assert(leading_brackets(u, 1) == 0);
    let letters = primitive_letters();
    if c != 0x5b && !letters.contains(c) {
        assert(letters[0] == 0x56 && letters[1] == 0x5a && letters[2] == 0x42 && letters[3] == 0x53
            && letters[4] == 0x43 && letters[5] == 0x49 && letters[6] == 0x4a && letters[7] == 0x46
            && letters[8] == 0x44);
        assert(primitive_code(c) is None) by {
            if primitive_code(c) is Some {
                let k = primitive_code(c)->0 as int;
                assert(letters[k] == c);
            }
        }
    }
}

/// A copy of `s`.
fn copy_dex_str(s: &DexStr) -> (r: DexStr)
    ensures
        r@ == s@,
{
    DexStr(vstd::slice::slice_to_vec(s.0.as_slice()))
}

pub fn parse_descriptor(desc: &DexStr) -> (r: TypeInfo)
    ensures
        r@ == spec_parse_descriptor(desc@),
{
    let units = desc.0.as_slice();
    let mut dim: usize = 0;
    while dim < units.len() && units[dim] == 0x5b
        invariant
            units@ == desc@,
            dim <= units@.len(),
            leading_brackets(units@, 0) == dim + leading_brackets(units@, dim as int),
        decreases units@.len() - dim,
    {
        dim += 1;
    }
    if dim > 0 {
        return TypeInfo {
            descriptor: copy_dex_str(desc),
            dim,
            kind: TypeKind::Array,
            primitive_value: None,
            class_value: None,
        };
    }
    if units.len() == 1 {
        let prim: Option<u8> = match units[0] {
            0x56 => Some(0),
            0x5a => Some(1),
            0x42 => Some(2),
            0x53 => Some(3),
            0x43 => Some(4),
            0x49 => Some(5),
            0x4a => Some(6),
            0x46 => Some(7),
            0x44 => Some(8),
            _ => None,
        };
        if let Some(val) = prim {
            return TypeInfo {
                descriptor: copy_dex_str(desc),
                dim: 0,
                kind: TypeKind::Primitive(val),
                primitive_value: Some(val),
                class_value: None,
            };
        }
    }
    TypeInfo {
        descriptor: copy_dex_str(desc),
        dim: 0,
        kind: TypeKind::Class,
        primitive_value: None,
        class_value: Some(copy_dex_str(desc)),
    }
}

} // verus!
