//! The texts that replies carry. The summary of a header quotes its strings as JSON does; the
//! other texts take theirs in, quoted already.

use vstd::prelude::*;
use vstd::string::*;

use crate::fgb;
use crate::fgb::HeaderSummary;
use crate::numbers;
use crate::text;
use crate::text::push_decimal;
use crate::text::push_json_string;
use crate::text::push_signed_decimal;

verus! {

/// What the service is.
pub open spec fn service_text() -> Seq<char> {
    r#"{"service":"metadata-function","runtime":"Spin/Wasm","version":"0.1.0","phase":"0+1+2+4"}"#@
}

/// That the service is up.
pub open spec fn health_text() -> Seq<char> {
    r#"{"status":"ok"}"#@
}

/// Where the service runs.
pub open spec fn env_text(quoted_url: Seq<char>) -> Seq<char> {
    r#"{"spin_full_url":"#@ + quoted_url + r#","wasm_target":"wasm32-wasip1"}"#@
}

/// That a remote source could not be asked.
pub open spec fn outbound_denied_text(
    quoted_detail: Seq<char>,
    quoted_url: Seq<char>,
) -> Seq<char> {
    r#"{"error":"outbound_denied","detail":"#@ + quoted_detail + r#","url":"#@ + quoted_url
        + "}"@
}

/// That a file has fewer bytes than a preamble, with the file's address.
pub open spec fn short_response_text(got: nat, quoted_url: Seq<char>) -> Seq<char> {
    r#"{"error":"short_response","got":"#@ + text::decimal(got) + r#","url":"#@ + quoted_url
        + "}"@
}

/// That a file which starts with `magic` is no FlatGeobuf file, with the file's address.
pub open spec fn bad_magic_at_text(magic: Seq<u8>, quoted_url: Seq<char>) -> Seq<char> {
    r#"{"error":"bad_magic","hex":""#@ + text::hex_text(magic) + r#"","url":"#@ + quoted_url
        + "}"@
}

/// What a preamble and the first bytes of a header say.
pub open spec fn head_text(
    padding: u8,
    header_size: u32,
    fb_root_offset: nat,
    fetched: nat,
    quoted_url: Seq<char>,
) -> Seq<char> {
    r#"{"magic":"fgb","version":3,"padding":"#@ + text::decimal(padding as nat)
        + r#","header_size":"#@ + text::decimal(header_size as nat) + r#","fb_root_offset":"#@
        + text::decimal(fb_root_offset) + r#","header_bytes_fetched":"#@ + text::decimal(fetched)
        + r#","url":"#@ + quoted_url + "}"@
}

/// That a file has fewer bytes than a preamble.
pub open spec fn short_preamble_text(got: nat) -> Seq<char> {
    r#"{"error":"short_preamble","got":"#@ + text::decimal(got) + "}"@
}

/// That a file which starts with `magic` is no FlatGeobuf file.
pub open spec fn bad_magic_text(magic: Seq<u8>) -> Seq<char> {
    r#"{"error":"bad_magic","hex":""#@ + text::hex_text(magic) + r#""}"#@
}

/// That fewer bytes came than the header has.
pub open spec fn incomplete_header_text(expected: nat, got: nat) -> Seq<char> {
    r#"{"error":"incomplete_header","expected":"#@ + text::decimal(expected) + r#","got":"#@
        + text::decimal(got) + "}"@
}

/// An envelope as a JSON array, or `null` where it has fewer than four numbers. `bits` holds
/// the numbers as bit patterns, and `decimals` holds for each the shortest decimal that reads
/// back as it, without exponent.
pub open spec fn envelope_text(bits: Seq<u64>, decimals: Seq<Seq<char>>) -> Seq<char> {
    if bits.len() >= 4 && decimals.len() >= 4 {
        "["@ + numbers::json_number(bits[0], decimals[0]) + ","@ + numbers::json_number(
            bits[1],
            decimals[1],
        ) + ","@ + numbers::json_number(bits[2], decimals[2]) + ","@ + numbers::json_number(
            bits[3],
            decimals[3],
        ) + "]"@
    } else {
        "null"@
    }
}

/// What a header says of its file.
pub open spec fn header_text(
    header: fgb::HeaderView,
    header_size: u32,
    decimals: Seq<Seq<char>>,
    url: Seq<char>,
) -> Seq<char> {
    r#"{"name":"#@ + text::json_string(header.name) + r#","geometry_type":"#@ + text::decimal(
        header.geometry_type as nat,
    ) + r#","geometry_type_name":"#@ + text::json_string(fgb::geometry_name(header.geometry_type))
        + r#","features_count":"#@ + text::decimal(header.features_count as nat)
        + r#","index_node_size":"#@ + text::decimal(header.index_node_size as nat)
        + r#","index_bytes_approx":"#@ + text::decimal(header.index_bytes_approx as nat)
        + r#","envelope":"#@ + envelope_text(header.envelope, decimals) + r#","crs":{"org":"#@
        + text::json_string(header.crs_org) + r#","code":"#@ + text::signed_decimal(
        header.crs_code as int,
    ) + r#","name":"#@ + text::json_string(header.crs_name) + r#"},"header_size":"#@
        + text::decimal(header_size as nat) + r#","url":"#@ + text::json_string(url) + "}"@
}

/// The text of `/env`.
pub fn env_body(quoted_url: &str) -> (r: String)
    ensures
        r@ == env_text(quoted_url@),
{
    let mut out = r#"{"spin_full_url":"#.to_owned();
    out.append(quoted_url);
    out.append(r#","wasm_target":"wasm32-wasip1"}"#);
    out
}

/// The text where a remote source could not be asked.
pub fn outbound_denied_body(quoted_detail: &str, quoted_url: &str) -> (r: String)
    ensures
        r@ == outbound_denied_text(quoted_detail@, quoted_url@),
{
    let mut out = r#"{"error":"outbound_denied","detail":"#.to_owned();
    out.append(quoted_detail);
    out.append(r#","url":"#);
    out.append(quoted_url);
    out.append("}");
    out
}

/// The text where a file has fewer bytes than a preamble, with the file's address.
pub fn short_response_body(got: u64, quoted_url: &str) -> (r: String)
    ensures
        r@ == short_response_text(got as nat, quoted_url@),
{
    let mut out = r#"{"error":"short_response","got":"#.to_owned();
    push_decimal(&mut out, got);
    out.append(r#","url":"#);
    out.append(quoted_url);
    out.append("}");
    out
}

/// The text where a file is no FlatGeobuf file, with the file's address.
pub fn bad_magic_at_body(magic: &[u8], quoted_url: &str) -> (r: String)
    ensures
        r@ == bad_magic_at_text(magic@, quoted_url@),
{
    let mut out = r#"{"error":"bad_magic","hex":""#.to_owned();
    out.append(text::hex(magic).as_str());
    out.append(r#"","url":"#);
    out.append(quoted_url);
    out.append("}");
    out
}

/// The text of a preamble and the first bytes of a header.
pub fn head_body(
    padding: u8,
    header_size: u32,
    fb_root_offset: u32,
    fetched: u64,
    quoted_url: &str,
) -> (r: String)
    ensures
        r@ == head_text(
            padding,
            header_size,
            fb_root_offset as nat,
            fetched as nat,
            quoted_url@,
        ),
{
    let mut out = r#"{"magic":"fgb","version":3,"padding":"#.to_owned();
    push_decimal(&mut out, padding as u64);
    out.append(r#","header_size":"#);
    push_decimal(&mut out, header_size as u64);
    out.append(r#","fb_root_offset":"#);
    push_decimal(&mut out, fb_root_offset as u64);
    out.append(r#","header_bytes_fetched":"#);
    push_decimal(&mut out, fetched);
    out.append(r#","url":"#);
    out.append(quoted_url);
    out.append("}");
    out
}

/// The text where a file has fewer bytes than a preamble.
pub fn short_preamble_body(got: u64) -> (r: String)
    ensures
        r@ == short_preamble_text(got as nat),
{
    let mut out = r#"{"error":"short_preamble","got":"#.to_owned();
    push_decimal(&mut out, got);
    out.append("}");
    out
}

/// The text where a file is no FlatGeobuf file.
pub fn bad_magic_body(magic: &[u8]) -> (r: String)
    ensures
        r@ == bad_magic_text(magic@),
{
    let mut out = r#"{"error":"bad_magic","hex":""#.to_owned();
    out.append(text::hex(magic).as_str());
    out.append(r#""}"#);
    out
}

/// The text where fewer bytes came than the header has.
pub fn incomplete_header_body(expected: u32, got: u64) -> (r: String)
    ensures
        r@ == incomplete_header_text(expected as nat, got as nat),
{
    let mut out = r#"{"error":"incomplete_header","expected":"#.to_owned();
    push_decimal(&mut out, expected as u64);
    out.append(r#","got":"#);
    push_decimal(&mut out, got);
    out.append("}");
    out
}

/// The text of an envelope whose numbers are written out as decimals already.
pub fn envelope_body(bits: &Vec<u64>, decimals: &Vec<String>) -> (r: String)
    ensures
        r@ == envelope_text(bits@, decimals@.map_values(|n: String| n@)),
{
    if bits.len() < 4 || decimals.len() < 4 {
        return "null".to_owned();
    }
    let mut out = "[".to_owned();
    numbers::push_json_number(&mut out, bits[0], decimals[0].as_str());
    out.append(",");
    numbers::push_json_number(&mut out, bits[1], decimals[1].as_str());
    out.append(",");
    numbers::push_json_number(&mut out, bits[2], decimals[2].as_str());
    out.append(",");
    numbers::push_json_number(&mut out, bits[3], decimals[3].as_str());
    out.append("]");
    out
}

/// The text of a header's summary.
pub fn header_body(
    header: &HeaderSummary,
    header_size: u32,
    decimals: &Vec<String>,
    url: &str,
) -> (r: String)
    ensures
        r@ == header_text(header@, header_size, decimals@.map_values(|n: String| n@), url@),
{
    let mut out = r#"{"name":"#.to_owned();
    push_json_string(&mut out, header.name.as_str());
    out.append(r#","geometry_type":"#);
    push_decimal(&mut out, header.geometry_type as u64);
    out.append(r#","geometry_type_name":"#);
    push_json_string(&mut out, fgb::geometry_type_name(header.geometry_type));
    out.append(r#","features_count":"#);
    push_decimal(&mut out, header.features_count);
    out.append(r#","index_node_size":"#);
    push_decimal(&mut out, header.index_node_size as u64);
    out.append(r#","index_bytes_approx":"#);
    push_decimal(&mut out, header.index_bytes_approx);
    out.append(r#","envelope":"#);
    out.append(envelope_body(&header.envelope, decimals).as_str());
    out.append(r#","crs":{"org":"#);
    push_json_string(&mut out, header.crs_org.as_str());
    out.append(r#","code":"#);
    push_signed_decimal(&mut out, header.crs_code);
    out.append(r#","name":"#);
    push_json_string(&mut out, header.crs_name.as_str());
    out.append(r#"},"header_size":"#);
    push_decimal(&mut out, header_size as u64);
    out.append(r#","url":"#);
    push_json_string(&mut out, url);
    out.append("}");
    out
}

} // verus!
