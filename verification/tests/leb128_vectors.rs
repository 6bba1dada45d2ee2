use asc_core::error::AscError;
use asc_core::leb128::{
    read_sleb128, read_uleb128, skip_uleb128, uleb128_len, write_sleb128, write_uleb128,
};

#[test]
fn uleb128_roundtrip_sample() {
    let mut values: Vec<u32> = vec![0, 1, 0x7f, 0x80, 0x3fff, 0x4000, 0x1f_ffff, 0x20_0000];
    values.extend([0x0fff_ffff, 0x1000_0000, u32::MAX - 1, u32::MAX]);
    let mut v: u32 = 1;
    while v < u32::MAX / 3 {
        values.push(v);
        values.push(v.wrapping_mul(7).wrapping_add(13));
        v = v.wrapping_mul(3);
    }
    for v in values {
        let mut buf = Vec::new();
        write_uleb128(v, &mut buf);
        let (read_v, sz) = read_uleb128(&buf, 0).unwrap();
        assert_eq!(read_v, u64::from(v));
        assert_eq!(sz, buf.len());
        assert_eq!(uleb128_len(&buf, 0).unwrap(), buf.len());
        // Bytes before and after do not change what is read.
        let mut framed = vec![0xff, 0x00];
        framed.extend_from_slice(&buf);
        framed.extend_from_slice(&[0x85, 0x01]);
        assert_eq!(read_uleb128(&framed, 2).unwrap(), (u64::from(v), buf.len()));
        assert_eq!(skip_uleb128(&framed, 2).unwrap(), 2 + buf.len());
    }
}

#[test]
fn sleb128_roundtrip_sample() {
    let mut values: Vec<i32> = vec![0, 1, -1, 63, 64, -64, -65, 8191, 8192, -8192, -8193];
    values.extend([0x07FF_FFFF, -0x0800_0000, 0x0010_0000, -0x0010_0001]);
    let mut v: i32 = 3;
    while v < 0x0800_0000 / 5 {
        values.push(v);
        values.push(-v);
        v *= 5;
    }
    for v in values {
        let mut buf = Vec::new();
        write_sleb128(v, &mut buf);
        let (read_v, sz) = read_sleb128(&buf, 0).unwrap();
        assert_eq!(read_v, i64::from(v), "value {v}");
        assert_eq!(sz, buf.len());
    }
}

#[test]
fn uleb128_encodings() {
    let mut buf = Vec::new();
    write_uleb128(0, &mut buf);
    assert_eq!(buf, vec![0x00]);
    buf.clear();
    write_uleb128(624485, &mut buf);
    assert_eq!(buf, vec![0xe5, 0x8e, 0x26]);
    buf.clear();
    write_uleb128(u32::MAX, &mut buf);
    assert_eq!(buf, vec![0xff, 0xff, 0xff, 0xff, 0x0f]);
}

#[test]
fn sleb128_encodings() {
    let mut buf = Vec::new();
    write_sleb128(-123456, &mut buf);
    assert_eq!(buf, vec![0xc0, 0xbb, 0x78]);
    buf.clear();
    write_sleb128(-1, &mut buf);
    assert_eq!(buf, vec![0x7f]);
    buf.clear();
    write_sleb128(64, &mut buf);
    assert_eq!(buf, vec![0xc0, 0x00]);
    buf.clear();
    write_sleb128(i32::MIN, &mut buf);
    assert_eq!(buf, vec![0x80, 0x80, 0x80, 0x80, 0x78]);
}

#[test]
fn uleb128_fast_reader_stops_after_five_bytes() {
    // The fifth byte ends the integer whatever its high bit.
    let buf = [0xff, 0xff, 0xff, 0xff, 0xff, 0x01];
    assert_eq!(read_uleb128(&buf, 0).unwrap(), (0x7_ffff_ffff, 5));
    assert_eq!(uleb128_len(&buf, 0).unwrap(), 6);
    assert_eq!(skip_uleb128(&buf, 0).unwrap(), 6);
}

#[test]
fn uleb128_unterminated() {
    assert_eq!(read_uleb128(&[], 0), Err(AscError::UnterminatedUleb128));
    assert_eq!(read_uleb128(&[0x80, 0x80], 0), Err(AscError::UnterminatedUleb128));
    assert_eq!(read_uleb128(&[0x01], 5), Err(AscError::UnterminatedUleb128));
    assert_eq!(uleb128_len(&[0x80; 8], 0), Err(AscError::UnterminatedUleb128));
    assert_eq!(skip_uleb128(&[0x80], 0), Err(AscError::UnterminatedUleb128));
    assert_eq!(read_uleb128(&[0x80, 0x80], usize::MAX), Err(AscError::UnterminatedUleb128));
}

#[test]
fn sleb128_lengths_and_errors() {
    // Values longer than four bytes are not sign-extended.
    let five = [0x80, 0x80, 0x80, 0x80, 0x7f];
    assert_eq!(read_sleb128(&five, 0).unwrap(), (0x7f << 28, 5));
    assert_eq!(read_sleb128(&[0x80, 0x80], 0), Err(AscError::UnterminatedSleb128));
    assert_eq!(read_sleb128(&[0x80; 9], 0), Err(AscError::UnterminatedSleb128));
    let ten = [0x80, 0x80, 0x80, 0x80, 0x80, 0x80, 0x80, 0x80, 0x80, 0x00];
    assert_eq!(
        read_sleb128(&ten, 0),
        Err(AscError::Custom("sleb128 exceeds 9 bytes".to_string()))
    );
    let nine = [0x80, 0x80, 0x80, 0x80, 0x80, 0x80, 0x80, 0x80, 0x01];
    assert_eq!(read_sleb128(&nine, 0).unwrap(), (1 << 56, 9));
}

#[test]
fn sleb128_five_byte_values_read_without_sign() {
    // Values beyond 28 signed bits take five bytes, and the reader only
    // extends the sign of encodings shorter than 32 bits.
    let mut buf = Vec::new();
    write_sleb128(i32::MIN, &mut buf);
    assert_eq!(buf, vec![0x80, 0x80, 0x80, 0x80, 0x78]);
    assert_eq!(read_sleb128(&buf, 0).unwrap(), (0x7_8000_0000, 5));
    let mut small = Vec::new();
    write_sleb128(-0x0800_0000, &mut small);
    assert_eq!(read_sleb128(&small, 0).unwrap(), (-0x0800_0000, small.len()));
    // Positive values keep their value in five bytes.
    let mut max = Vec::new();
    write_sleb128(i32::MAX, &mut max);
    assert_eq!(max.len(), 5);
    assert_eq!(read_sleb128(&max, 0).unwrap(), (i64::from(i32::MAX), 5));
}
