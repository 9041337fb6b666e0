use ndi_session::io::wire::{
    copy_range, get_str, get_u16_le, get_u32_le, get_u64_le, put_bytes, put_str, put_u16_le,
    put_u32_le, put_u64_le, MAX_STR,
};

#[test]
fn numbers_are_little_endian() {
    let mut out = vec![0xee];
    put_u16_le(&mut out, 0x1234);
    put_u32_le(&mut out, 0x89ab_cdef);
    put_u64_le(&mut out, 0x0102_0304_0506_0708);
    assert_eq!(
        out,
        vec![0xee, 0x34, 0x12, 0xef, 0xcd, 0xab, 0x89, 8, 7, 6, 5, 4, 3, 2, 1]
    );
    assert_eq!(get_u16_le(&out, 1), 0x1234);
    assert_eq!(get_u32_le(&out, 3), 0x89ab_cdef);
    assert_eq!(get_u64_le(&out, 7), 0x0102_0304_0506_0708);
}

#[test]
fn extreme_numbers_round_trip() {
    let mut out = Vec::new();
    put_u16_le(&mut out, u16::MAX);
    put_u32_le(&mut out, u32::MAX);
    put_u64_le(&mut out, u64::MAX);
    put_u16_le(&mut out, 0);
    put_u32_le(&mut out, 0);
    put_u64_le(&mut out, 0);
    assert_eq!(out.len(), 28);
    assert_eq!(get_u16_le(&out, 0), u16::MAX);
    assert_eq!(get_u32_le(&out, 2), u32::MAX);
    assert_eq!(get_u64_le(&out, 6), u64::MAX);
    assert_eq!(get_u16_le(&out, 14), 0);
    assert_eq!(get_u32_le(&out, 16), 0);
    assert_eq!(get_u64_le(&out, 20), 0);
}

#[test]
fn bytes_are_appended_and_copied() {
    let mut out = vec![1, 2];
    put_bytes(&mut out, &[3, 4, 5]);
    put_bytes(&mut out, &[]);
    assert_eq!(out, vec![1, 2, 3, 4, 5]);
    assert_eq!(copy_range(&out, 1, 4), vec![2, 3, 4]);
    assert_eq!(copy_range(&out, 5, 5), Vec::<u8>::new());
    assert_eq!(copy_range(&out, 0, 5), out);
}

#[test]
fn strings_carry_their_length() {
    let mut out = vec![9];
    assert!(put_str(&mut out, "héllo"));
    assert_eq!(out, vec![9, 6, 0, b'h', 0xc3, 0xa9, b'l', b'l', b'o']);
    assert_eq!(get_str(&out, 1), Some((String::from("héllo"), 9)));
    let mut out = Vec::new();
    assert!(put_str(&mut out, ""));
    assert_eq!(out, vec![0, 0]);
    assert_eq!(get_str(&out, 0), Some((String::new(), 2)));
}

#[test]
fn a_string_stops_where_its_length_says() {
    let bytes = [3, 0, b'a', b'b', b'c', b'd', b'e'];
    assert_eq!(get_str(&bytes, 0), Some((String::from("abc"), 5)));
}

#[test]
fn a_string_that_is_cut_short_is_none() {
    assert_eq!(get_str(&[], 0), None);
    assert_eq!(get_str(&[1], 0), None);
    assert_eq!(get_str(&[2, 0, b'a'], 0), None);
    assert_eq!(get_str(&[7, 7, 1, 0], 4), None);
}

#[test]
fn a_string_that_is_not_utf8_is_none() {
    assert_eq!(get_str(&[1, 0, 0x80], 0), None);
    assert_eq!(get_str(&[3, 0, 0xe2, 0x82, 0x28], 0), None);
    assert_eq!(get_str(&[3, 0, 0xed, 0xa0, 0x80], 0), None);
}

#[test]
fn a_string_too_long_is_not_written() {
    let mut out = vec![5];
    assert!(!put_str(&mut out, &"a".repeat(MAX_STR + 1)));
    assert_eq!(out, vec![5]);
    assert!(put_str(&mut out, &"a".repeat(MAX_STR)));
    assert_eq!(out.len(), 1 + 2 + MAX_STR);
    assert_eq!(&out[1..3], &[0xff, 0xff]);
}
