use scale_signature_http::codec::{
    read_array, read_bytes, read_error, read_i32, read_i64, read_map, read_none, read_string,
    read_u32, write_array, write_bytes, write_error, write_i32, write_i64, write_map,
    write_string,
};
use scale_signature_http::wire::{Fault, KIND_ANY, KIND_STRING};

fn written_i64(v: i64) -> Vec<u8> {
    let mut out = Vec::new();
    write_i64(&mut out, v).unwrap();
    out
}

fn written_i32(v: i32) -> Vec<u8> {
    let mut out = Vec::new();
    write_i32(&mut out, v).unwrap();
    out
}

#[test]
fn string_is_tag_length_and_utf8() {
    let mut out = Vec::new();
    write_string(&mut out, &String::from("GET")).unwrap();
    assert_eq!(out, vec![0x05, 0x0a, 0x03, b'G', b'E', b'T']);
}

#[test]
fn empty_string_has_length_zero() {
    let mut out = Vec::new();
    write_string(&mut out, &String::new()).unwrap();
    assert_eq!(out, vec![0x05, 0x0a, 0x00]);
}

#[test]
fn string_length_counts_bytes_not_chars() {
    let mut out = Vec::new();
    write_string(&mut out, &String::from("é")).unwrap();
    assert_eq!(out, vec![0x05, 0x0a, 0x02, 0xc3, 0xa9]);
}

#[test]
fn writers_append_to_what_is_there() {
    let mut out = vec![0xaa, 0xbb];
    write_string(&mut out, &String::from("a")).unwrap();
    write_i32(&mut out, 1).unwrap();
    assert_eq!(out, vec![0xaa, 0xbb, 0x05, 0x0a, 0x01, b'a', 0x0c, 0x02]);
}

#[test]
fn long_string_length_takes_two_digits() {
    let text: String = std::iter::repeat('x').take(200).collect();
    let mut out = Vec::new();
    write_string(&mut out, &text).unwrap();
    assert_eq!(&out[..4], &[0x05, 0x0a, 0xc8, 0x01]);
    assert_eq!(out.len(), 204);
    let (read, next) = read_string(&out, 0).unwrap();
    assert_eq!(read, text);
    assert_eq!(next, 204);
}

#[test]
fn i64_small_values_fold_to_one_digit() {
    assert_eq!(written_i64(0), vec![0x0d, 0x00]);
    assert_eq!(written_i64(-1), vec![0x0d, 0x01]);
    assert_eq!(written_i64(1), vec![0x0d, 0x02]);
    assert_eq!(written_i64(-2), vec![0x0d, 0x03]);
    assert_eq!(written_i64(63), vec![0x0d, 0x7e]);
    assert_eq!(written_i64(-64), vec![0x0d, 0x7f]);
}

#[test]
fn i64_larger_values_take_more_digits() {
    assert_eq!(written_i64(64), vec![0x0d, 0x80, 0x01]);
    assert_eq!(written_i64(300), vec![0x0d, 0xd8, 0x04]);
    assert_eq!(
        written_i64(i64::MAX),
        vec![0x0d, 0xfe, 0xff, 0xff, 0xff, 0xff, 0xff, 0xff, 0xff, 0xff, 0x01]
    );
    assert_eq!(
        written_i64(i64::MIN),
        vec![0x0d, 0xff, 0xff, 0xff, 0xff, 0xff, 0xff, 0xff, 0xff, 0xff, 0x01]
    );
}

#[test]
fn i32_values_fold_like_i64() {
    assert_eq!(written_i32(0), vec![0x0c, 0x00]);
    assert_eq!(written_i32(-1), vec![0x0c, 0x01]);
    assert_eq!(written_i32(200), vec![0x0c, 0x90, 0x03]);
    assert_eq!(written_i32(404), vec![0x0c, 0xa8, 0x06]);
    assert_eq!(written_i32(i32::MAX), vec![0x0c, 0xfe, 0xff, 0xff, 0xff, 0x0f]);
    assert_eq!(written_i32(i32::MIN), vec![0x0c, 0xff, 0xff, 0xff, 0xff, 0x0f]);
}

#[test]
fn i64_reads_back() {
    for v in [0i64, 1, -1, 63, -64, 64, -65, 300, -300, 1 << 40, -(1 << 40), i64::MAX, i64::MIN] {
        let out = written_i64(v);
        assert_eq!(read_i64(&out, 0), Ok((v, out.len())));
    }
}

#[test]
fn i32_reads_back() {
    for v in [0i32, 1, -1, 63, -64, 64, 200, 404, -500, i32::MAX, i32::MIN] {
        let out = written_i32(v);
        assert_eq!(read_i32(&out, 0), Ok((v, out.len())));
    }
}

#[test]
fn bytes_are_tag_length_and_payload() {
    let mut out = Vec::new();
    write_bytes(&mut out, &[1, 2, 3]).unwrap();
    assert_eq!(out, vec![0x04, 0x0a, 0x03, 1, 2, 3]);
    assert_eq!(read_bytes(&out, 0), Ok((vec![1, 2, 3], 6)));
}

#[test]
fn empty_bytes_read_back() {
    let mut out = Vec::new();
    write_bytes(&mut out, &[]).unwrap();
    assert_eq!(out, vec![0x04, 0x0a, 0x00]);
    assert_eq!(read_bytes(&out, 0), Ok((vec![], 3)));
}

#[test]
fn array_header_names_kind_and_count() {
    let mut out = Vec::new();
    write_array(&mut out, 2, KIND_STRING).unwrap();
    assert_eq!(out, vec![0x01, 0x05, 0x0a, 0x02]);
    assert_eq!(read_array(&out, 0, KIND_STRING), Ok((2, 4)));
}

#[test]
fn map_header_names_kinds_and_count() {
    let mut out = Vec::new();
    write_map(&mut out, 1, KIND_STRING, KIND_ANY).unwrap();
    assert_eq!(out, vec![0x02, 0x05, 0x03, 0x0a, 0x01]);
    assert_eq!(read_map(&out, 0, KIND_STRING, KIND_ANY), Ok((1, 5)));
}

#[test]
fn error_record_is_error_tag_and_string() {
    let mut out = Vec::new();
    write_error(&mut out, "boom").unwrap();
    assert_eq!(out, vec![0x06, 0x05, 0x0a, 0x04, b'b', b'o', b'o', b'm']);
    assert_eq!(read_error(&out, 0), Ok((String::from("boom"), 8)));
}

#[test]
fn none_marker_is_found_and_passed() {
    assert_eq!(read_none(&[0x00, 0x05], 0), (true, 1));
}

#[test]
fn other_byte_is_no_marker_and_reader_stays() {
    assert_eq!(read_none(&[0x05, 0x00], 0), (false, 0));
    assert_eq!(read_none(&[0x05, 0x00], 1), (true, 2));
}

#[test]
fn no_marker_at_or_behind_the_end() {
    assert_eq!(read_none(&[], 0), (false, 0));
    assert_eq!(read_none(&[0x00], 1), (false, 1));
    assert_eq!(read_none(&[0x00], 7), (false, 7));
}

#[test]
fn readers_start_where_they_are_told() {
    let bytes = [0xff, 0xff, 0x05, 0x0a, 0x02, b'h', b'i', 0x0c, 0x02];
    assert_eq!(read_string(&bytes, 2), Ok((String::from("hi"), 7)));
    assert_eq!(read_i32(&bytes, 7), Ok((1, 9)));
}

#[test]
fn u32_accepts_padded_digits() {
    assert_eq!(read_u32(&[0x0a, 0x80, 0x00], 0), Ok((0, 3)));
    assert_eq!(read_u32(&[0x0a, 0x81, 0x80, 0x00], 0), Ok((1, 4)));
}

#[test]
fn u32_drops_bits_that_do_not_fit() {
    assert_eq!(read_u32(&[0x0a, 0xff, 0xff, 0xff, 0xff, 0x7f], 0), Ok((u32::MAX, 6)));
    assert_eq!(read_u32(&[0x0a, 0x80, 0x80, 0x80, 0x80, 0x10], 0), Ok((0, 6)));
}

#[test]
fn u32_refuses_a_sixth_digit() {
    assert_eq!(read_u32(&[0x0a, 0x80, 0x80, 0x80, 0x80, 0x80, 0x00], 0), Err(Fault::InvalidU32));
}

#[test]
fn u32_refuses_wrong_tag_and_missing_digits() {
    assert_eq!(read_u32(&[0x0c, 0x01], 0), Err(Fault::InvalidU32));
    assert_eq!(read_u32(&[0x0a], 0), Err(Fault::InvalidU32));
    assert_eq!(read_u32(&[0x0a, 0x80], 0), Err(Fault::InvalidU32));
    assert_eq!(read_u32(&[], 0), Err(Fault::InvalidU32));
}

#[test]
fn i32_takes_the_sign_from_the_last_digit_too() {
    assert_eq!(read_i32(&[0x0c, 0x01], 0), Ok((-1, 2)));
    assert_eq!(read_i32(&[0x0c, 0x7f], 0), Ok((-64, 2)));
    assert_eq!(read_i32(&[0x0c, 0xff, 0xff, 0xff, 0xff, 0x7f], 0), Ok((i32::MIN, 6)));
}

#[test]
fn i64_refuses_an_eleventh_digit() {
    let mut bytes = vec![0x0d];
    bytes.extend(std::iter::repeat(0x80).take(10));
    bytes.push(0x00);
    assert_eq!(read_i64(&bytes, 0), Err(Fault::InvalidI64));
}

#[test]
fn i64_drops_bits_that_do_not_fit() {
    let bytes = [0x0d, 0xff, 0xff, 0xff, 0xff, 0xff, 0xff, 0xff, 0xff, 0xff, 0x7f];
    assert_eq!(read_i64(&bytes, 0), Ok((i64::MIN, 11)));
}

#[test]
fn integers_refuse_wrong_tag_and_short_buffer() {
    assert_eq!(read_i32(&[0x0d, 0x00], 0), Err(Fault::InvalidI32));
    assert_eq!(read_i32(&[0x0c], 0), Err(Fault::InvalidI32));
    assert_eq!(read_i32(&[], 0), Err(Fault::InvalidI32));
    assert_eq!(read_i64(&[0x0c, 0x00], 0), Err(Fault::InvalidI64));
    assert_eq!(read_i64(&[0x0d, 0x80], 0), Err(Fault::InvalidI64));
    assert_eq!(read_i64(&[], 0), Err(Fault::InvalidI64));
}

#[test]
fn string_refuses_wrong_tag_and_empty_buffer() {
    assert_eq!(read_string(&[0x04, 0x0a, 0x00], 0), Err(Fault::InvalidString));
    assert_eq!(read_string(&[], 0), Err(Fault::InvalidString));
    assert_eq!(read_string(&[0x05, 0x0a, 0x00], 3), Err(Fault::InvalidString));
}

#[test]
fn string_with_unreadable_length_is_invalid_u32() {
    assert_eq!(read_string(&[0x05], 0), Err(Fault::InvalidU32));
    assert_eq!(read_string(&[0x05, 0x0c, 0x01, b'a'], 0), Err(Fault::InvalidU32));
    assert_eq!(read_string(&[0x05, 0x0a, 0x80], 0), Err(Fault::InvalidU32));
}

#[test]
fn string_longer_than_the_buffer_is_invalid() {
    assert_eq!(read_string(&[0x05, 0x0a, 0x05, b'a', b'b'], 0), Err(Fault::InvalidString));
    assert_eq!(read_string(&[0x05, 0x0a, 0x01], 0), Err(Fault::InvalidString));
}

#[test]
fn string_with_huge_length_fails_without_reading() {
    let bytes = [0x05, 0x0a, 0xff, 0xff, 0xff, 0xff, 0x0f, b'a'];
    assert_eq!(read_string(&bytes, 0), Err(Fault::InvalidString));
    let bytes = [0x04, 0x0a, 0xff, 0xff, 0xff, 0xff, 0x0f, 1];
    assert_eq!(read_bytes(&bytes, 0), Err(Fault::InvalidBytes));
    let bytes = [0x06, 0x05, 0x0a, 0xff, 0xff, 0xff, 0xff, 0x0f, b'a'];
    assert_eq!(read_error(&bytes, 0), Err(Fault::InvalidError));
}

#[test]
fn string_that_is_not_utf8_is_invalid() {
    assert_eq!(read_string(&[0x05, 0x0a, 0x02, 0xc3, 0x28], 0), Err(Fault::InvalidString));
    assert_eq!(read_string(&[0x05, 0x0a, 0x01, 0xff], 0), Err(Fault::InvalidString));
}

#[test]
fn string_stops_behind_its_payload() {
    let bytes = [0x05, 0x0a, 0x01, b'a', b'b', b'c'];
    assert_eq!(read_string(&bytes, 0), Ok((String::from("a"), 4)));
}

#[test]
fn bytes_faults() {
    assert_eq!(read_bytes(&[], 0), Err(Fault::InvalidBytes));
    assert_eq!(read_bytes(&[0x05, 0x0a, 0x00], 0), Err(Fault::InvalidBytes));
    assert_eq!(read_bytes(&[0x04], 0), Err(Fault::InvalidU32));
    assert_eq!(read_bytes(&[0x04, 0x0a, 0x02, 1], 0), Err(Fault::InvalidBytes));
}

#[test]
fn array_faults() {
    assert_eq!(read_array(&[], 0, KIND_STRING), Err(Fault::InvalidArray));
    assert_eq!(read_array(&[0x01], 0, KIND_STRING), Err(Fault::InvalidArray));
    assert_eq!(read_array(&[0x01, 0x04, 0x0a, 0x00], 0, KIND_STRING), Err(Fault::InvalidU32));
    assert_eq!(read_array(&[0x02, 0x05, 0x0a, 0x00], 0, KIND_STRING), Err(Fault::InvalidU32));
    assert_eq!(read_array(&[0x01, 0x05], 0, KIND_STRING), Err(Fault::InvalidU32));
    assert_eq!(read_array(&[0x01, 0x05, 0x0a], 0, KIND_STRING), Err(Fault::InvalidU32));
}

#[test]
fn map_faults() {
    assert_eq!(read_map(&[], 0, KIND_STRING, KIND_ANY), Err(Fault::InvalidMap));
    assert_eq!(read_map(&[0x02, 0x05], 0, KIND_STRING, KIND_ANY), Err(Fault::InvalidMap));
    assert_eq!(
        read_map(&[0x02, 0x05, 0x05, 0x0a, 0x00], 0, KIND_STRING, KIND_ANY),
        Err(Fault::InvalidMap)
    );
    assert_eq!(
        read_map(&[0x01, 0x05, 0x03, 0x0a, 0x00], 0, KIND_STRING, KIND_ANY),
        Err(Fault::InvalidMap)
    );
    assert_eq!(read_map(&[0x02, 0x05, 0x03], 0, KIND_STRING, KIND_ANY), Err(Fault::InvalidU32));
}

#[test]
fn error_faults() {
    assert_eq!(read_error(&[], 0), Err(Fault::InvalidError));
    assert_eq!(read_error(&[0x06], 0), Err(Fault::InvalidError));
    assert_eq!(read_error(&[0x05, 0x0a, 0x00], 0), Err(Fault::InvalidError));
    assert_eq!(read_error(&[0x06, 0x04, 0x0a, 0x00], 0), Err(Fault::InvalidError));
    assert_eq!(read_error(&[0x06, 0x05], 0), Err(Fault::InvalidU32));
    assert_eq!(read_error(&[0x06, 0x05, 0x0a, 0x03, b'a'], 0), Err(Fault::InvalidError));
    assert_eq!(read_error(&[0x06, 0x05, 0x0a, 0x01, 0xff], 0), Err(Fault::InvalidError));
}

#[test]
fn fault_names() {
    assert_eq!(Fault::InvalidString.name(), "InvalidString");
    assert_eq!(Fault::InvalidU32.name(), "InvalidU32");
    assert_eq!(Fault::InvalidStruct.name(), "InvalidStruct");
    assert_eq!(Fault::InvalidMap.name(), "InvalidMap");
}
