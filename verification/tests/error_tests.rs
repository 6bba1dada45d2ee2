use asc_core::error::AscError;

#[test]
fn error_messages() {
    assert_eq!(AscError::EocdNotFound.message(), "EOCD not found");
    assert_eq!(AscError::BadTypeIdToStringIdx.message(), "bad type_id->string_idx");
    assert_eq!(AscError::UnterminatedStringDataItem.message(), "unterminated string_data_item");
    assert_eq!(
        AscError::UnsupportedCompressionMethod(99).message(),
        "unsupported compression method: 99"
    );
    assert_eq!(
        AscError::CorruptDeflateStream("classes.dex".to_string()).message(),
        "corrupt deflate stream in classes.dex"
    );
    assert_eq!(
        AscError::SizeMismatch { expected: 64, got: 0 }.message(),
        "size mismatch: expect 64, got 0"
    );
    assert_eq!(AscError::ApkFileNotFound("x.apk".to_string()).message(), "APK file not found: x.apk");
    assert_eq!(AscError::ClassNotFoundInApk("LA;".to_string()).message(), "Class LA; not found in APK.");
    assert_eq!(AscError::ClassNotFoundInDex("LA;".to_string()).message(), "Class LA; not found in DEX.");
    assert_eq!(AscError::ClassNotIndexed("LA;".to_string()).message(), "class not indexed: LA;");
    assert_eq!(AscError::Custom("sleb128 exceeds 9 bytes".to_string()).message(), "sleb128 exceeds 9 bytes");
}
