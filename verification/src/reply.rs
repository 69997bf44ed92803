//! Replies to requests.

use vstd::prelude::*;
use vstd::string::*;
use vstd::utf8::*;

verus! {

/// A header of a reply.
pub struct Header {
    pub name: String,
    pub value: String,
}

impl View for Header {
    type V = (Seq<char>, Seq<char>);

    open spec fn view(&self) -> (Seq<char>, Seq<char>) {
        (self.name@, self.value@)
    }
}

/// A complete reply.
pub struct Reply {
    pub status: u16,
    pub headers: Vec<Header>,
    pub body: Vec<u8>,
}

/// What a reply says.
#[verifier::ext_equal]
pub struct ReplyView {
    pub status: u16,
    pub headers: Seq<(Seq<char>, Seq<char>)>,
    pub body: Seq<u8>,
}

impl View for Reply {
    type V = ReplyView;

    open spec fn view(&self) -> ReplyView {
        ReplyView {
            status: self.status,
            headers: self.headers@.map_values(|h: Header| h@),
            body: self.body@,
        }
    }
}

/// Says that a reply holds JSON.
pub open spec fn content_type_json() -> (Seq<char>, Seq<char>) {
    ("content-type"@, "application/json"@)
}

/// Lets any origin read a reply.
pub open spec fn allow_any_origin() -> (Seq<char>, Seq<char>) {
    ("access-control-allow-origin"@, "*"@)
}

/// Names the methods that other origins may use.
pub open spec fn allow_methods() -> (Seq<char>, Seq<char>) {
    ("access-control-allow-methods"@, "GET, OPTIONS"@)
}

/// Names the headers that other origins may send.
pub open spec fn allow_headers() -> (Seq<char>, Seq<char>) {
    ("access-control-allow-headers"@, "Content-Type"@)
}

/// Lets any origin read the timing of a reply.
pub open spec fn allow_timing() -> (Seq<char>, Seq<char>) {
    ("timing-allow-origin"@, "*"@)
}

/// The headers of an ordinary JSON reply.
pub open spec fn json_headers() -> Seq<(Seq<char>, Seq<char>)> {
    seq![
        content_type_json(),
        allow_any_origin(),
        allow_methods(),
        allow_headers(),
        allow_timing(),
    ]
}

/// A JSON reply that other origins may read.
pub open spec fn json_reply(status: u16, text: Seq<char>) -> ReplyView {
    ReplyView { status, headers: json_headers(), body: encode_utf8(text) }
}

/// The answer to a preflight request.
pub open spec fn preflight_reply() -> ReplyView {
    ReplyView {
        status: 204,
        headers: seq![allow_any_origin(), allow_methods(), allow_headers(), allow_timing()],
        body: encode_utf8(""@),
    }
}

/// The answer to a method other than GET and OPTIONS.
pub open spec fn method_not_allowed_reply() -> ReplyView {
    ReplyView { status: 405, headers: seq![("allow"@, "GET, OPTIONS"@)], body: encode_utf8(""@) }
}

/// The answer to a path that is not served.
pub open spec fn not_found_reply() -> ReplyView {
    ReplyView {
        status: 404,
        headers: seq![content_type_json(), allow_any_origin(), allow_timing()],
        body: encode_utf8(r#"{"error":"not found"}"#@),
    }
}

/// What a remote source answered, passed on with the address it came from.
pub open spec fn relayed_reply(status: u16, body: Seq<u8>, url: Seq<char>) -> ReplyView {
    ReplyView { status, headers: json_headers().push(("x-fetched-from"@, url)), body }
}

/// The answer where a remote source could not be asked.
pub open spec fn denied_reply(text: Seq<char>) -> ReplyView {
    ReplyView { status: 403, headers: seq![content_type_json()], body: encode_utf8(text) }
}

fn header(name: &str, value: &str) -> (r: Header)
    ensures
        r@ == (name@, value@),
{
    Header { name: name.to_owned(), value: value.to_owned() }
}

fn json_header_list() -> (r: Vec<Header>)
    ensures
        r@.map_values(|h: Header| h@) == json_headers(),
{
    let r = vec![
        header("content-type", "application/json"),
        header("access-control-allow-origin", "*"),
        header("access-control-allow-methods", "GET, OPTIONS"),
        header("access-control-allow-headers", "Content-Type"),
        header("timing-allow-origin", "*"),
    ];
    assert(r@.map_values(|h: Header| h@) =~= json_headers());
    r
}

/// A JSON reply that other origins may read.
pub fn json_response(status: u16, body: &str) -> (r: Reply)
    ensures
        r@ == json_reply(status, body@),
{
    Reply { status, headers: json_header_list(), body: body.as_bytes_vec() }
}

/// The answer to a preflight request, which browsers send ahead of requests across origins.
pub fn preflight() -> (r: Reply)
    ensures
        r@ == preflight_reply(),
{
    let headers = vec![
        header("access-control-allow-origin", "*"),
        header("access-control-allow-methods", "GET, OPTIONS"),
        header("access-control-allow-headers", "Content-Type"),
        header("timing-allow-origin", "*"),
    ];
    let r = Reply { status: 204, headers, body: "".as_bytes_vec() };
    assert(r@.headers =~= preflight_reply().headers);
    r
}

/// The answer to a method other than GET and OPTIONS.
pub fn method_not_allowed() -> (r: Reply)
    ensures
        r@ == method_not_allowed_reply(),
{
    let headers = vec![header("allow", "GET, OPTIONS")];
    let r = Reply { status: 405, headers, body: "".as_bytes_vec() };
    assert(r@.headers =~= method_not_allowed_reply().headers);
    r
}

/// The answer to a path that is not served.
pub fn not_found() -> (r: Reply)
    ensures
        r@ == not_found_reply(),
{
    let headers = vec![
        header("content-type", "application/json"),
        header("access-control-allow-origin", "*"),
        header("timing-allow-origin", "*"),
    ];
    let r = Reply { status: 404, headers, body: r#"{"error":"not found"}"#.as_bytes_vec() };
    assert(r@.headers =~= not_found_reply().headers);
    r
}

/// Passes on what the remote source at `url` answered: its status and its body, as JSON that
/// other origins may read, with the address that it came from.
pub fn relayed(status: u16, body: Vec<u8>, url: &str) -> (r: Reply)
    ensures
        r@ == relayed_reply(status, body@, url@),
{
    let mut headers = json_header_list();
    let ghost json = headers@;
    headers.push(header("x-fetched-from", url));
    let r = Reply { status, headers, body };
    assert(r@.headers =~= json.map_values(|h: Header| h@).push(("x-fetched-from"@, url@)));
    r
}

/// The answer where a remote source could not be asked, with `text` as its JSON.
pub fn denied(text: &str) -> (r: Reply)
    ensures
        r@ == denied_reply(text@),
{
    let headers = vec![header("content-type", "application/json")];
    let r = Reply { status: 403, headers, body: text.as_bytes_vec() };
    assert(r@.headers =~= denied_reply(text@).headers);
    r
}

} // verus!
