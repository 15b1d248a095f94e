use kv_client::commands::command_req::CommandType;
use kv_client::commands::command_res::ResType;
use kv_client::util::parser::{
    append_bulk_string, append_i16, append_i32, append_i64, append_i8, append_req_header,
    append_small_string, append_txt_array, append_u16, append_u32, append_u64, append_u8,
    check_utf8, copy_range, extend_bytes, read_bulk_string, read_i16, read_i16_array, read_i32,
    read_i32_array, read_i64, read_i64_array, read_res_header, read_small_bytes,
    read_small_string, read_txt_array, read_u16, read_u16_array, read_u32, read_u32_array,
    read_u64, read_u8, read_u8_array, ArrType, ErrorClass, ProtoError,
};

#[test]
fn number_encodings_are_marker_tag_and_big_endian_bytes() {
    let mut buf = Vec::new();
    append_u8(&mut buf, 7);
    assert_eq!(buf, vec![0x40, 11, 7]);

    let mut buf = Vec::new();
    append_u16(&mut buf, 0x0102);
    assert_eq!(buf, vec![0x40, 12, 1, 2]);

    let mut buf = Vec::new();
    append_u32(&mut buf, 0x01020304);
    assert_eq!(buf, vec![0x40, 14, 1, 2, 3, 4]);

    let mut buf = Vec::new();
    append_u64(&mut buf, 0x0102030405060708);
    assert_eq!(buf, vec![0x40, 15, 1, 2, 3, 4, 5, 6, 7, 8]);

    let mut buf = Vec::new();
    append_i8(&mut buf, -1);
    assert_eq!(buf, vec![0x40, 1, 0xff]);

    let mut buf = Vec::new();
    append_i16(&mut buf, -2);
    assert_eq!(buf, vec![0x40, 2, 0xff, 0xfe]);

    let mut buf = Vec::new();
    append_i32(&mut buf, -3);
    assert_eq!(buf, vec![0x40, 4, 0xff, 0xff, 0xff, 0xfd]);

    let mut buf = Vec::new();
    append_i64(&mut buf, 1);
    assert_eq!(buf, vec![0x40, 5, 0, 0, 0, 0, 0, 0, 0, 1]);
}

#[test]
fn numbers_read_back_what_was_appended() {
    let mut buf = vec![9u8, 9];
    append_u8(&mut buf, 255);
    append_u16(&mut buf, u16::MAX);
    append_i16(&mut buf, i16::MIN);
    append_u32(&mut buf, 123456789);
    append_i32(&mut buf, i32::MIN);
    append_u64(&mut buf, u64::MAX);
    append_i64(&mut buf, i64::MIN);
    buf.push(42);

    let (a, p) = read_u8(&buf, 2).unwrap();
    assert_eq!((a, p), (255, 5));
    let (b, p) = read_u16(&buf, p).unwrap();
    assert_eq!((b, p), (u16::MAX, 9));
    let (c, p) = read_i16(&buf, p).unwrap();
    assert_eq!((c, p), (i16::MIN, 13));
    let (d, p) = read_u32(&buf, p).unwrap();
    assert_eq!((d, p), (123456789, 19));
    let (e, p) = read_i32(&buf, p).unwrap();
    assert_eq!((e, p), (i32::MIN, 25));
    let (f, p) = read_u64(&buf, p).unwrap();
    assert_eq!((f, p), (u64::MAX, 35));
    let (g, p) = read_i64(&buf, p).unwrap();
    assert_eq!((g, p), (i64::MIN, 45));
    assert_eq!(buf[p], 42);
}

#[test]
fn number_errors() {
    assert_eq!(read_u8(&[], 0), Err(ProtoError::UnexpectedEof));
    assert_eq!(read_u8(&[0x40, 11], 0), Err(ProtoError::UnexpectedEof));
    assert_eq!(
        read_u8(&[0x2b, 11, 1], 0),
        Err(ProtoError::ExpectedMarker { expected: 0x40, found: 0x2b })
    );
    assert_eq!(
        read_u64(&[0x40, 5, 0, 0, 0, 0, 0, 0, 0, 1], 0),
        Err(ProtoError::ExpectedType { expected: 15, found: 5 })
    );
    assert_eq!(read_i64(&[0x40, 5, 0, 0, 0], 0), Err(ProtoError::UnexpectedEof));
    assert_eq!(read_u16(&[0x40, 12, 1, 2], 5), Err(ProtoError::UnexpectedEof));
}

#[test]
fn small_string_encoding_and_decoding() {
    let mut buf = Vec::new();
    append_small_string(&mut buf, "hi");
    assert_eq!(buf, vec![0x2b, 2, b'h', b'i']);
    assert_eq!(read_small_string(&buf, 0), Ok((String::from("hi"), 4)));
    assert_eq!(read_small_bytes(&buf, 0), Ok((vec![b'h', b'i'], 4)));

    let mut empty = Vec::new();
    append_small_string(&mut empty, "");
    assert_eq!(empty, vec![0x2b, 0]);
    assert_eq!(read_small_string(&empty, 0), Ok((String::new(), 2)));

    let text = "é漢";
    let mut buf = Vec::new();
    append_small_string(&mut buf, text);
    assert_eq!(buf[1] as usize, text.len());
    assert_eq!(read_small_string(&buf, 0), Ok((String::from(text), 2 + text.len())));

    let long = "x".repeat(255);
    let mut buf = Vec::new();
    append_small_string(&mut buf, &long);
    assert_eq!(buf.len(), 257);
    assert_eq!(read_small_string(&buf, 0), Ok((long, 257)));
}

#[test]
fn small_string_errors() {
    assert_eq!(read_small_string(&[0x2b, 3, b'a'], 0), Err(ProtoError::UnexpectedEof));
    assert_eq!(
        read_small_string(&[0x24, 1, b'a'], 0),
        Err(ProtoError::ExpectedMarker { expected: 0x2b, found: 0x24 })
    );
    assert_eq!(read_small_string(&[0x2b, 1, 0xff], 0), Err(ProtoError::InvalidUtf8));
}

#[test]
fn bulk_string_encoding_and_decoding() {
    let mut buf = Vec::new();
    append_bulk_string(&mut buf, "abc");
    assert_eq!(buf, vec![0x24, 0, 0, 0, 3, b'a', b'b', b'c']);
    assert_eq!(read_bulk_string(&buf, 0), Ok((String::from("abc"), 8)));

    let long = "y".repeat(300);
    let mut buf = Vec::new();
    append_bulk_string(&mut buf, &long);
    assert_eq!(&buf[0..5], &[0x24, 0, 0, 1, 44]);
    assert_eq!(read_bulk_string(&buf, 0), Ok((long, 305)));

    assert_eq!(read_bulk_string(&[0x24, 0, 0, 0, 2, b'a'], 0), Err(ProtoError::UnexpectedEof));
    assert_eq!(read_bulk_string(&[0x24, 0, 0, 0, 1, 0xc3], 0), Err(ProtoError::InvalidUtf8));
    assert_eq!(
        read_bulk_string(&[0x2b, 0, 0, 0, 0], 0),
        Err(ProtoError::ExpectedMarker { expected: 0x24, found: 0x2b })
    );
}

#[test]
fn txt_array_encoding_and_decoding() {
    let texts = vec![String::from("a"), String::from("bc")];
    let mut buf = Vec::new();
    append_txt_array(&mut buf, &texts);
    assert_eq!(
        buf,
        vec![0x2a, 0, 0, 0, 2, 23, 0x24, 0, 0, 0, 1, b'a', 0x24, 0, 0, 0, 2, b'b', b'c']
    );
    assert_eq!(read_txt_array(&buf, 0), Ok((texts, buf.len())));

    let mut empty = Vec::new();
    append_txt_array(&mut empty, &[]);
    assert_eq!(empty, vec![0x2a, 0, 0, 0, 0, 23]);
    assert_eq!(read_txt_array(&empty, 0), Ok((Vec::new(), 6)));

    assert_eq!(
        read_txt_array(&[0x2a, 0, 0, 0, 0, 5], 0),
        Err(ProtoError::ExpectedType { expected: 23, found: 5 })
    );
    assert_eq!(
        read_txt_array(&[0x2a, 0, 0, 0, 2, 23, 0x24, 0, 0, 0, 0], 0),
        Err(ProtoError::UnexpectedEof)
    );
}

#[test]
fn fixed_width_arrays() {
    let i16s = [0x2a, 0, 0, 0, 2, 2, 0xff, 0xff, 0, 5];
    assert_eq!(read_i16_array(&i16s, 0), Ok((vec![-1i16, 5], 10)));
    let i32s = [0x2a, 0, 0, 0, 1, 4, 0x80, 0, 0, 0];
    assert_eq!(read_i32_array(&i32s, 0), Ok((vec![i32::MIN], 10)));
    let i64s = [0x2a, 0, 0, 0, 1, 5, 0, 0, 0, 0, 0, 0, 1, 0];
    assert_eq!(read_i64_array(&i64s, 0), Ok((vec![256i64], 14)));
    let u8s = [0x2a, 0, 0, 0, 3, 11, 1, 2, 3];
    assert_eq!(read_u8_array(&u8s, 0), Ok((vec![1u8, 2, 3], 9)));
    let u16s = [0x2a, 0, 0, 0, 1, 12, 1, 0];
    assert_eq!(read_u16_array(&u16s, 0), Ok((vec![256u16], 8)));
    let u32s = [0x2a, 0, 0, 0, 0, 14];
    assert_eq!(read_u32_array(&u32s, 0), Ok((Vec::new(), 6)));

    assert_eq!(
        read_u8_array(&[0x2a, 0, 0, 0, 1, 12, 1], 0),
        Err(ProtoError::ExpectedType { expected: 11, found: 12 })
    );
    assert_eq!(read_u16_array(&[0x2a, 0, 0, 0, 2, 12, 1, 0], 0), Err(ProtoError::UnexpectedEof));
    assert_eq!(
        read_u32_array(&[0x40, 0, 0, 0, 0, 14], 0),
        Err(ProtoError::ExpectedMarker { expected: 0x2a, found: 0x40 })
    );
}

#[test]
fn arr_type_numbers() {
    assert_eq!(u8::from(ArrType::Txt), 23);
    assert_eq!(u8::from(ArrType::I8), 1);
    assert_eq!(u8::from(ArrType::I16), 2);
    assert_eq!(u8::from(ArrType::I32), 4);
    assert_eq!(u8::from(ArrType::I64), 5);
    assert_eq!(u8::from(ArrType::U8), 11);
    assert_eq!(u8::from(ArrType::U16), 12);
    assert_eq!(u8::from(ArrType::U32), 14);
    assert_eq!(u8::from(ArrType::U64), 15);
}

#[test]
fn request_header_layout() {
    let id = [7u8; 16];
    let mut buf = vec![0xaa];
    append_req_header(&mut buf, CommandType::Cfg, id, 0x0102, -1);
    let mut expected = vec![0xaa, b'\n', b'\n', 1, 1];
    expected.extend_from_slice(&id);
    expected.extend_from_slice(&[0, 0, 0, 0, 0, 0, 1, 2]);
    expected.extend_from_slice(&[0xff; 8]);
    expected.push(1);
    assert_eq!(buf, expected);

    let mut buf = Vec::new();
    append_req_header(&mut buf, CommandType::Data, [0u8; 16], 0, 0);
    assert_eq!(buf.len(), 37);
    assert_eq!(buf[36], 2);
}

#[test]
fn response_header() {
    assert_eq!(read_res_header(&[b'\n', b'\n', 1, 0, 2], 0), Ok(((ResType::Data, None), 5)));
    assert_eq!(read_res_header(&[b'\n', b'\n', 1, 0, 1, 9], 0), Ok(((ResType::Cfg, None), 5)));
    assert_eq!(read_res_header(&[b'\n', b'\n', 1, 0, 77], 0), Ok(((ResType::Unknown, None), 5)));

    let mut buf = vec![b'\n', b'\n', 1, 1];
    append_bulk_string(&mut buf, "{}");
    buf.push(2);
    assert_eq!(
        read_res_header(&buf, 0),
        Ok(((ResType::Data, Some(String::from("{}"))), buf.len()))
    );

    assert_eq!(read_res_header(&[b'\n', b'x', 1, 0, 2], 0), Err(ProtoError::BadFrameStart));
    assert_eq!(
        read_res_header(&[b'\n', b'\n', 2, 0, 2], 0),
        Err(ProtoError::UnsupportedVersion { found: 2 })
    );
    assert_eq!(read_res_header(&[b'\n', b'\n', 1, 0], 0), Err(ProtoError::UnexpectedEof));
    assert_eq!(read_res_header(&[b'\n'], 0), Err(ProtoError::UnexpectedEof));
}

#[test]
fn decoding_is_stable_under_more_input() {
    let mut buf = Vec::new();
    append_u32(&mut buf, 77);
    let short = read_u32(&buf, 0);
    buf.extend_from_slice(&[1, 2, 3]);
    assert_eq!(read_u32(&buf, 0), short);

    let mut buf = Vec::new();
    append_small_string(&mut buf, "key");
    let short = read_small_string(&buf, 0);
    buf.push(0x40);
    assert_eq!(read_small_string(&buf, 0), short);

    let partial = [0x24u8, 0, 0, 0, 4, b'a'];
    assert_eq!(read_bulk_string(&partial, 0), Err(ProtoError::UnexpectedEof));
}

#[test]
fn byte_helpers() {
    let mut buf = vec![1u8];
    extend_bytes(&mut buf, &[2, 3]);
    assert_eq!(buf, vec![1, 2, 3]);
    assert_eq!(copy_range(&buf, 1, 3), vec![2, 3]);
    assert_eq!(copy_range(&buf, 2, 2), Vec::<u8>::new());
    assert_eq!(check_utf8(&vec![b'o', b'k']), Ok(()));
    assert_eq!(check_utf8(&vec![0xc3, 0x28]), Err(ProtoError::InvalidUtf8));
}

#[test]
fn error_classes() {
    assert_eq!(ProtoError::UnexpectedEof.class(), ErrorClass::UnexpectedEof);
    assert_eq!(ProtoError::Unsupported.class(), ErrorClass::Unsupported);
    assert_eq!(ProtoError::InvalidUtf8.class(), ErrorClass::InvalidData);
    assert_eq!(ProtoError::ExpectedMarker { expected: 1, found: 2 }.class(), ErrorClass::InvalidData);
    assert_eq!(ProtoError::UnsupportedVersion { found: 3 }.class(), ErrorClass::InvalidData);
}
