//! The DEX file format: header, logical DEX files inside DEX 041 containers,
//! type descriptors and the table reader.
pub mod container;
pub mod descriptor;
pub mod header;
pub mod reader;

pub use container::{
    dex041_logical_offsets, is_dex041_container, iter_logical_dex_buffers, normalize_dex041_logical,
};
pub use descriptor::{parse_descriptor, TypeInfo, TypeKind};
pub use header::Header;
pub use reader::{
    class_defs_contains_type_idx_raw, dex_defines_class_raw, find_type_idx_raw,
    read_string_data_bytes, ClassInfo, CodeItemInfo, Dex, FieldInfo, MethodInfo, ProtoInfo,
};
