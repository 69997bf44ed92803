use metadata_function::numbers::{push_json_number, push_six_decimals};
use metadata_function::text::{hex, push_decimal, push_json_string, push_signed_decimal, same_text};

#[test]
fn decimals_have_no_leading_zeros() {
    let mut out = String::new();
    push_decimal(&mut out, 0);
    out.push(' ');
    push_decimal(&mut out, 7);
    out.push(' ');
    push_decimal(&mut out, 10);
    out.push(' ');
    push_decimal(&mut out, 1005);
    out.push(' ');
    push_decimal(&mut out, u64::MAX);
    assert_eq!(out, "0 7 10 1005 18446744073709551615");
}

#[test]
fn signed_decimals_show_a_minus_sign() {
    let mut out = String::from("x");
    push_signed_decimal(&mut out, -1);
    push_signed_decimal(&mut out, 4326);
    push_signed_decimal(&mut out, i32::MIN);
    push_signed_decimal(&mut out, 0);
    assert_eq!(out, "x-14326-21474836480");
}

#[test]
fn hex_has_two_digits_for_each_byte() {
    assert_eq!(hex(&[]), "");
    assert_eq!(hex(&[0x00, 0x0f, 0xa0, 0xff, 0x19]), "000fa0ff19");
}

#[test]
fn texts_are_compared_by_their_characters() {
    assert!(same_text("", ""));
    assert!(same_text("/fgb-head", "/fgb-head"));
    assert!(!same_text("/fgb-head", "/fgb-head-esa"));
    assert!(!same_text("/fgb-head", "/fgb-heaD"));
    assert!(same_text("caf\u{e9}", "caf\u{e9}"));
    assert!(!same_text("cafe", "caf\u{e9}"));
}

fn quoted(s: &str) -> String {
    let mut out = String::from(":");
    push_json_string(&mut out, s);
    out
}

#[test]
fn strings_are_quoted_as_in_json() {
    assert_eq!(quoted(""), ":\"\"");
    assert_eq!(quoted("plain"), ":\"plain\"");
    assert_eq!(quoted("a\"b\\c/d'e"), ":\"a\\\"b\\\\c/d'e\"");
    assert_eq!(quoted("\n\r\t"), ":\"\\n\\r\\t\"");
    assert_eq!(quoted("\0\u{1}\u{8}\u{1f}"), ":\"\\u0000\\u0001\\u0008\\u001f\"");
    assert_eq!(
        quoted("\u{7f}\u{e9}\u{200b}\u{1f30d}"),
        ":\"\u{7f}\u{e9}\u{200b}\u{1f30d}\""
    );
}

fn six(decimal: &str) -> String {
    let mut out = String::from(":");
    push_six_decimals(&mut out, decimal);
    out
}

#[test]
fn decimals_are_filled_up_to_six_places() {
    assert_eq!(six("180"), ":180.000000");
    assert_eq!(six("-90.5"), ":-90.500000");
    assert_eq!(six("83.64513"), ":83.645130");
    assert_eq!(six("0.12345"), ":0.123450");
}

#[test]
fn decimals_are_cut_off_behind_six_places() {
    assert_eq!(six("-85.609038"), ":-85.609038");
    assert_eq!(six("-85.60903777459774"), ":-85.609037");
    assert_eq!(six("1.9999999"), ":1.999999");
    assert_eq!(six("-0.0000001"), ":-0.000000");
}

#[test]
fn doubles_that_are_not_finite_are_null() {
    for (x, expected) in [
        (1.25f64, "1.250000"),
        (-0.0, "-0.000000"),
        (f64::MIN_POSITIVE, "0.000000"),
        (f64::NAN, "null"),
        (f64::INFINITY, "null"),
        (f64::NEG_INFINITY, "null"),
    ] {
        let mut out = String::new();
        push_json_number(&mut out, x.to_bits(), &x.to_string());
        assert_eq!(out, expected);
    }
    let mut out = String::new();
    push_json_number(&mut out, f64::MAX.to_bits(), &f64::MAX.to_string());
    assert_eq!(out.len(), 309 + 7);
    assert!(out.starts_with("17976931348623157000"));
}
