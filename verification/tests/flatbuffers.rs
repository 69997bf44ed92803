use metadata_function::flatbuf::{
    fb_f64_vec_field, fb_field_fits, fb_field_offset, fb_i32_field, fb_read_f64, fb_read_i32,
    fb_read_u16, fb_read_u32, fb_read_u64, fb_string_field, fb_string_fits, fb_table_field_pos,
    fb_target_fits, fb_u16_field, fb_u64_field, fb_u8_field,
};

/// A table at 20 behind its vtable at 4, with a slot for each of `offsets`.
fn table(offsets: &[u16; 6], data: &[u8]) -> Vec<u8> {
    let mut buf: Vec<u8> = vec![20, 0, 0, 0];
    buf.extend_from_slice(&16u16.to_le_bytes());
    buf.extend_from_slice(&(4 + data.len() as u16).to_le_bytes());
    for offset in offsets {
        buf.extend_from_slice(&offset.to_le_bytes());
    }
    assert_eq!(buf.len(), 20);
    buf.extend_from_slice(&16i32.to_le_bytes());
    buf.extend_from_slice(data);
    buf
}

#[test]
fn numbers_are_little_endian() {
    let buf = [0x01, 0x02, 0x03, 0x04, 0x05, 0x06, 0x07, 0x88];
    assert_eq!(fb_read_u16(&buf, 1), 0x0302);
    assert_eq!(fb_read_u32(&buf, 0), 0x0403_0201);
    assert_eq!(fb_read_u32(&buf, 4), 0x8807_0605);
    assert_eq!(fb_read_i32(&buf, 4), 0x8807_0605u32 as i32);
    assert_eq!(fb_read_u64(&buf, 0), 0x8807_0605_0403_0201);
}

#[test]
fn a_number_that_was_written_is_read_back() {
    let mut buf = vec![0xaa; 3];
    buf.extend_from_slice(&0xdead_beef_0bad_cafeu64.to_le_bytes());
    buf.extend_from_slice(&(-4326i32).to_le_bytes());
    assert_eq!(fb_read_u64(&buf, 3), 0xdead_beef_0bad_cafe);
    assert_eq!(fb_read_i32(&buf, 11), -4326);
}

#[test]
fn numbers_past_the_end_are_zero() {
    let buf = [0xff; 7];
    assert_eq!(fb_read_u16(&buf, 5), 0xffff);
    assert_eq!(fb_read_u16(&buf, 6), 0);
    assert_eq!(fb_read_u32(&buf, 4), 0);
    assert_eq!(fb_read_i32(&buf, 3), -1);
    assert_eq!(fb_read_i32(&buf, 1000), 0);
    assert_eq!(fb_read_u64(&buf, 0), 0);
    assert_eq!(fb_read_f64(&buf, 0), 0);
}

#[test]
fn a_double_is_read_as_its_bit_pattern() {
    let mut buf = vec![0; 2];
    buf.extend_from_slice(&(-180.0f64).to_le_bytes());
    assert_eq!(f64::from_bits(fb_read_f64(&buf, 2)), -180.0);
}

#[test]
fn scalars_are_found_through_the_vtable() {
    let mut data = vec![7, 0, 0x34, 0x12];
    data.extend_from_slice(&179u64.to_le_bytes());
    data.extend_from_slice(&(-2i32).to_le_bytes());
    let buf = table(&[4, 6, 8, 16, 0, 0], &data);
    assert_eq!(fb_field_offset(&buf, 20, 0), 4);
    assert_eq!(fb_field_offset(&buf, 20, 3), 16);
    assert_eq!(fb_u8_field(&buf, 20, 0), 7);
    assert_eq!(fb_u16_field(&buf, 20, 1, 16), 0x1234);
    assert_eq!(fb_u64_field(&buf, 20, 2), 179);
    assert_eq!(fb_i32_field(&buf, 20, 3), -2);
}

#[test]
fn absent_fields_have_their_defaults() {
    let buf = table(&[0; 6], &[9, 9, 9, 9]);
    for field in [0, 5, 6, 1000] {
        assert!(fb_field_fits(&buf, 20, field));
        assert_eq!(fb_field_offset(&buf, 20, field), 0);
        assert_eq!(fb_u8_field(&buf, 20, field), 0);
        assert_eq!(fb_u16_field(&buf, 20, field, 16), 16);
        assert_eq!(fb_u64_field(&buf, 20, field), 0);
        assert_eq!(fb_i32_field(&buf, 20, field), 0);
        assert_eq!(fb_string_field(&buf, 20, field), "");
        assert!(fb_f64_vec_field(&buf, 20, field).is_empty());
        assert_eq!(fb_table_field_pos(&buf, 20, field), None);
    }
}

#[test]
fn a_field_past_the_end_is_zero() {
    let buf = table(&[4, 6, 0x7fff, 5, 0, 0], &[1, 2, 3]);
    assert_eq!(fb_u8_field(&buf, 20, 2), 0);
    assert_eq!(fb_u16_field(&buf, 20, 1, 16), 0);
    assert_eq!(fb_u64_field(&buf, 20, 0), 0);
    assert_eq!(fb_i32_field(&buf, 20, 3), 0);
}

#[test]
fn a_table_or_a_vtable_outside_the_buffer_has_no_fields() {
    let buf = table(&[4; 6], &[1, 2, 3, 4]);
    assert_eq!(fb_field_offset(&buf, 25, 0), 0);
    assert_eq!(fb_field_offset(&buf, 1 << 20, 0), 0);
    let mut far = table(&[4; 6], &[1, 2, 3, 4]);
    far[20..24].copy_from_slice(&(-100i32).to_le_bytes());
    assert_eq!(fb_field_offset(&far, 20, 0), 0);
    far[20..24].copy_from_slice(&25i32.to_le_bytes());
    assert!(fb_field_fits(&far, 20, 0));
    assert_eq!(fb_field_offset(&far, 20, 0), 0);
}

#[test]
fn positions_that_do_not_fit_are_told() {
    let mut buf = table(&[4; 6], &[1, 2, 3, 4]);
    for distance in 21..25i32 {
        buf[20..24].copy_from_slice(&distance.to_le_bytes());
        assert!(!fb_field_fits(&buf, 20, 0));
        assert!(!fb_target_fits(&buf, 20, 0, 0));
        assert!(!fb_string_fits(&buf, 20, 0));
    }
    buf[20..24].copy_from_slice(&16i32.to_le_bytes());
    assert!(fb_field_fits(&buf, 20, 0));
    assert!(!fb_field_fits(&buf, usize::MAX - 3, 0));
    assert!(fb_field_fits(&buf, usize::MAX - 4, 0));
    assert!(!fb_field_fits(&buf, 20, usize::MAX / 2));
}

#[test]
fn strings_are_followed_and_decoded() {
    let mut data = 4u32.to_le_bytes().to_vec();
    let text = "caf\u{e9} \u{1f30d}";
    data.extend_from_slice(&(text.len() as u32).to_le_bytes());
    data.extend_from_slice(text.as_bytes());
    let buf = table(&[4, 0, 0, 0, 0, 0], &data);
    assert!(fb_string_fits(&buf, 20, 0));
    assert_eq!(fb_string_field(&buf, 20, 0), text);
    assert_eq!(fb_table_field_pos(&buf, 20, 0), Some(28));
}

#[test]
fn strings_that_are_not_valid_are_empty() {
    let mut data = 4u32.to_le_bytes().to_vec();
    data.extend_from_slice(&2u32.to_le_bytes());
    data.extend_from_slice(&[0xc3, 0x28]);
    let buf = table(&[4, 0, 0, 0, 0, 0], &data);
    assert_eq!(fb_string_field(&buf, 20, 0), "");

    let mut long = buf.clone();
    long[28..32].copy_from_slice(&3u32.to_le_bytes());
    assert_eq!(fb_string_field(&long, 20, 0), "");

    let mut far = buf.clone();
    far[24..28].copy_from_slice(&0xffff_ffffu32.to_le_bytes());
    assert_eq!(fb_string_fits(&far, 20, 0), usize::MAX as u128 > 0xffff_ffff);
    if fb_string_fits(&far, 20, 0) {
        assert_eq!(fb_string_field(&far, 20, 0), "");
    }
}

#[test]
fn vectors_are_read_up_to_the_cap() {
    let mut data = 4u32.to_le_bytes().to_vec();
    data.extend_from_slice(&9u32.to_le_bytes());
    for i in 0..9 {
        data.extend_from_slice(&(f64::from(i) + 0.5).to_le_bytes());
    }
    let buf = table(&[4, 0, 0, 0, 0, 0], &data);
    let read: Vec<f64> =
        fb_f64_vec_field(&buf, 20, 0).into_iter().map(f64::from_bits).collect();
    assert_eq!(read, vec![0.5, 1.5, 2.5, 3.5, 4.5, 5.5, 6.5, 7.5]);
}

#[test]
fn elements_of_a_vector_past_the_end_are_zero() {
    let mut data = 4u32.to_le_bytes().to_vec();
    data.extend_from_slice(&3u32.to_le_bytes());
    data.extend_from_slice(&1.25f64.to_le_bytes());
    data.extend_from_slice(&[1, 2, 3]);
    let buf = table(&[4, 0, 0, 0, 0, 0], &data);
    assert_eq!(fb_f64_vec_field(&buf, 20, 0), vec![1.25f64.to_bits(), 0, 0]);
    let mut cut = buf.clone();
    cut.truncate(30);
    assert!(fb_f64_vec_field(&cut, 20, 0).is_empty());
}
