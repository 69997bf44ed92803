use metadata_function::fgb::{
    geometry_type_name, index_bytes_approx, read_header, read_preamble, Preamble,
};

/// A header with every field that is read, laid out in front of its strings.
fn header(features: u64, node_size: u16) -> Vec<u8> {
    let mut buf: Vec<u8> = Vec::new();
    buf.extend_from_slice(&32u32.to_le_bytes());
    buf.extend_from_slice(&26u16.to_le_bytes());
    buf.extend_from_slice(&28u16.to_le_bytes());
    for offset in [4u16, 8, 16, 0, 0, 0, 0, 0, 20, 18, 12] {
        buf.extend_from_slice(&offset.to_le_bytes());
    }
    buf.extend_from_slice(&[0, 0]);
    assert_eq!(buf.len(), 32);
    buf.extend_from_slice(&28i32.to_le_bytes());
    buf.extend_from_slice(&24u32.to_le_bytes());
    buf.extend_from_slice(&33u32.to_le_bytes());
    buf.extend_from_slice(&77u32.to_le_bytes());
    buf.extend_from_slice(&[6, 0]);
    buf.extend_from_slice(&node_size.to_le_bytes());
    buf.extend_from_slice(&features.to_le_bytes());
    assert_eq!(buf.len(), 60);
    buf.extend_from_slice(&9u32.to_le_bytes());
    buf.extend_from_slice(b"countries");
    assert_eq!(buf.len(), 73);
    buf.extend_from_slice(&4u32.to_le_bytes());
    for bound in [-180.0f64, -85.609038, 180.0, 83.64513] {
        buf.extend_from_slice(&bound.to_le_bytes());
    }
    assert_eq!(buf.len(), 109);
    buf.extend_from_slice(&10u16.to_le_bytes());
    buf.extend_from_slice(&16u16.to_le_bytes());
    for offset in [4u16, 8, 12] {
        buf.extend_from_slice(&offset.to_le_bytes());
    }
    buf.extend_from_slice(&[0, 0]);
    assert_eq!(buf.len(), 121);
    buf.extend_from_slice(&12i32.to_le_bytes());
    buf.extend_from_slice(&12u32.to_le_bytes());
    buf.extend_from_slice(&4326i32.to_le_bytes());
    buf.extend_from_slice(&11u32.to_le_bytes());
    buf.extend_from_slice(&3u32.to_le_bytes());
    buf.extend_from_slice(b"EPS");
    buf.extend_from_slice(&6u32.to_le_bytes());
    buf.extend_from_slice(b"WGS 84");
    buf
}

#[test]
fn a_header_that_was_written_is_read_back() {
    let h = read_header(&header(179, 16)).unwrap();
    assert_eq!(h.name, "countries");
    assert_eq!(
        h.envelope,
        vec![
            (-180.0f64).to_bits(),
            (-85.609038f64).to_bits(),
            180.0f64.to_bits(),
            83.64513f64.to_bits()
        ]
    );
    assert_eq!(h.geometry_type, 6);
    assert_eq!(h.features_count, 179);
    assert_eq!(h.index_node_size, 16);
    assert_eq!(h.index_bytes_approx, (1 + 12 + 1) * 40);
    assert_eq!(h.crs_org, "EPS");
    assert_eq!(h.crs_code, 4326);
    assert_eq!(h.crs_name, "WGS 84");
}

#[test]
fn a_header_without_a_table_says_nothing() {
    for bytes in [&[][..], &[100, 0, 0, 0][..], &[0, 0][..]] {
        let h = read_header(bytes).unwrap();
        assert_eq!(h.name, "");
        assert!(h.envelope.is_empty());
        assert_eq!(h.geometry_type, 0);
        assert_eq!(h.features_count, 0);
        assert_eq!(h.index_node_size, 16);
        assert_eq!(h.index_bytes_approx, 40);
        assert_eq!(h.crs_org, "");
        assert_eq!(h.crs_code, 0);
        assert_eq!(h.crs_name, "");
    }
}

/// `buf` with the vtable slot of `field` set to zero.
fn without(mut buf: Vec<u8>, field: usize) -> Vec<u8> {
    buf[8 + 2 * field] = 0;
    buf[9 + 2 * field] = 0;
    buf
}

#[test]
fn a_header_without_a_reference_system_has_empty_texts_in_its_place() {
    let h = read_header(&without(header(179, 16), 10)).unwrap();
    assert_eq!((h.crs_org.as_str(), h.crs_code, h.crs_name.as_str()), ("", 0, ""));
    assert_eq!(h.name, "countries");
    assert_eq!(h.features_count, 179);
}

#[test]
fn fields_that_are_absent_have_defaults() {
    let h = read_header(&without(header(179, 8), 9)).unwrap();
    assert_eq!(h.index_node_size, 16);
    assert_eq!(h.index_bytes_approx, (1 + 12 + 1) * 40);
    assert_eq!(read_header(&without(header(179, 8), 0)).unwrap().name, "");
    assert!(read_header(&without(header(179, 8), 1)).unwrap().envelope.is_empty());
    assert_eq!(read_header(&without(header(179, 8), 2)).unwrap().geometry_type, 0);
    assert_eq!(read_header(&without(header(179, 8), 8)).unwrap().features_count, 0);
    let mut small = header(179, 8);
    small[4..6].copy_from_slice(&22u16.to_le_bytes());
    let h = read_header(&small).unwrap();
    assert_eq!((h.features_count, h.index_node_size, h.crs_code), (179, 16, 0));
}

#[test]
fn a_header_whose_index_cannot_be_summed_up_is_not_read() {
    assert!(read_header(&header(179, 1)).is_none());
    assert!(read_header(&header(u64::MAX, 16)).is_none());
    assert!(read_header(&header(1, 1)).is_some());
    assert_eq!(read_header(&header(179, 0)).unwrap().index_bytes_approx, 0);
}

#[test]
fn a_header_whose_vtable_wraps_around_is_not_read() {
    let mut buf = header(179, 16);
    buf[32..36].copy_from_slice(&33i32.to_le_bytes());
    assert!(read_header(&buf).is_none());
    let mut nested = header(179, 16);
    nested[121..125].copy_from_slice(&124i32.to_le_bytes());
    assert!(read_header(&nested).is_none());
}

#[test]
fn the_index_counts_the_nodes_of_each_level() {
    assert_eq!(index_bytes_approx(0, 16), Some(40));
    assert_eq!(index_bytes_approx(1, 16), Some(40));
    assert_eq!(index_bytes_approx(2, 16), Some(80));
    assert_eq!(index_bytes_approx(16, 16), Some(80));
    assert_eq!(index_bytes_approx(17, 16), Some((1 + 2 + 1) * 40));
    assert_eq!(index_bytes_approx(1000, 2), Some((1 + 500 + 250 + 125 + 63 + 32 + 16 + 8 + 4 + 2 + 1) * 40));
    assert_eq!(index_bytes_approx(0, 0), Some(0));
    assert_eq!(index_bytes_approx(5, 0), Some(0));
}

#[test]
fn the_index_grows_with_the_features() {
    let mut last = 0;
    for features in 0..300 {
        let size = index_bytes_approx(features, 16).unwrap();
        assert!(size >= last);
        assert_eq!(size % 40, 0);
        last = size;
    }
}

#[test]
fn an_index_beyond_machine_integers_has_no_size() {
    assert_eq!(index_bytes_approx(2, 1), None);
    assert_eq!(index_bytes_approx(1, 1), Some(40));
    assert_eq!(index_bytes_approx(u64::MAX, 65535), None);
    assert!(index_bytes_approx(u64::MAX - 65535, 65535).is_some());
    assert_eq!(index_bytes_approx(u64::MAX - 2, 2), None);
}

#[test]
fn preambles_are_told_apart() {
    let valid = [0x66, 0x67, 0x62, 0x03, 0x66, 0x67, 0x62, 0x01, 0x10, 0x02, 0x00, 0x00];
    assert_eq!(read_preamble(&valid), Preamble::Valid { padding: 1, header_size: 528 });
    assert_eq!(read_preamble(&valid[0..11]), Preamble::Short);
    assert_eq!(read_preamble(&[]), Preamble::Short);
    for i in 0..7 {
        let mut bad = valid;
        bad[i] ^= 0x80;
        assert_eq!(read_preamble(&bad), Preamble::BadMagic);
    }
}

#[test]
fn geometry_types_have_names() {
    let names = [
        "Unknown",
        "Point",
        "LineString",
        "Polygon",
        "MultiPoint",
        "MultiLineString",
        "MultiPolygon",
        "GeometryCollection",
        "Other",
    ];
    for (i, name) in names.iter().enumerate() {
        assert_eq!(geometry_type_name(i as u8), *name);
    }
    assert_eq!(geometry_type_name(255), "Other");
}
