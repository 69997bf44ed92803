use metadata_function::bodies::{
    bad_magic_at_body, bad_magic_body, env_body, envelope_body, head_body, header_body,
    incomplete_header_body, outbound_denied_body, short_preamble_body, short_response_body,
};
use metadata_function::fgb::HeaderSummary;

#[test]
fn bodies_take_quoted_strings_as_they_are() {
    assert_eq!(env_body("Q"), r#"{"spin_full_url":Q,"wasm_target":"wasm32-wasip1"}"#);
    assert_eq!(
        outbound_denied_body("D", "Q"),
        r#"{"error":"outbound_denied","detail":D,"url":Q}"#
    );
    assert_eq!(short_response_body(3, "Q"), r#"{"error":"short_response","got":3,"url":Q}"#);
    assert_eq!(
        bad_magic_at_body(&[0x0a, 0xff], "Q"),
        r#"{"error":"bad_magic","hex":"0aff","url":Q}"#
    );
    assert_eq!(
        head_body(1, 2, 3, 4, "Q"),
        r#"{"magic":"fgb","version":3,"padding":1,"header_size":2,"fb_root_offset":3,"header_bytes_fetched":4,"url":Q}"#
    );
    assert_eq!(short_preamble_body(5), r#"{"error":"short_preamble","got":5}"#);
    assert_eq!(bad_magic_body(&[0xff, 0x00]), r#"{"error":"bad_magic","hex":"ff00"}"#);
    assert_eq!(
        incomplete_header_body(10, 9),
        r#"{"error":"incomplete_header","expected":10,"got":9}"#
    );
}

fn decimals(numbers: &[f64]) -> Vec<String> {
    numbers.iter().map(|n| n.to_string()).collect()
}

fn bits(numbers: &[f64]) -> Vec<u64> {
    numbers.iter().map(|n| n.to_bits()).collect()
}

#[test]
fn an_envelope_has_four_numbers_or_is_null() {
    let numbers = [1.0, -2.5, 3.0000019, f64::NAN, 5.0];
    assert_eq!(
        envelope_body(&bits(&numbers), &decimals(&numbers)),
        "[1.000000,-2.500000,3.000001,null]"
    );
    assert_eq!(envelope_body(&bits(&numbers[0..3]), &decimals(&numbers)), "null");
    assert_eq!(envelope_body(&bits(&numbers), &decimals(&numbers[0..3])), "null");
}

#[test]
fn a_summary_names_each_field() {
    let envelope = [-180.0, -85.609038, 180.0, 83.64513];
    let header = HeaderSummary {
        name: "n\u{1}".to_string(),
        envelope: bits(&envelope),
        geometry_type: 6,
        features_count: 179,
        index_node_size: 16,
        index_bytes_approx: 560,
        crs_org: "\"EPSG\"".to_string(),
        crs_code: -4326,
        crs_name: "WGS 84".to_string(),
    };
    assert_eq!(
        header_body(&header, 604, &decimals(&envelope), "u"),
        r#"{"name":"n\u0001","geometry_type":6,"geometry_type_name":"MultiPolygon","features_count":179,"index_node_size":16,"index_bytes_approx":560,"envelope":[-180.000000,-85.609038,180.000000,83.645130],"crs":{"org":"\"EPSG\"","code":-4326,"name":"WGS 84"},"header_size":604,"url":"u"}"#
    );
}
