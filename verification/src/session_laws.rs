//! What requests are answered with, from the request to the reply.

use vstd::prelude::*;
use vstd::utf8::*;

use crate::bodies;
use crate::body_laws;
use crate::fgb;
use crate::flatbuf;
use crate::laws;
use crate::reading;
use crate::reply;
use crate::session;
use crate::session::Action;
use crate::session::ActionView;
use crate::session::Documents;
use crate::session::DocumentsView;
use crate::session::Event;
use crate::session::EventView;
use crate::session::Method;
use crate::session::Session;
use crate::session::SessionView;
use crate::session::Stage;
use crate::session::StageView;
use crate::text;

verus! {

// ---- Replies ----

/// The headers of JSON that any origin may read.
pub open spec fn are_json_headers(headers: Seq<(Seq<char>, Seq<char>)>) -> bool {
    &&& headers.contains(("content-type"@, "application/json"@))
    &&& headers.contains(("access-control-allow-origin"@, "*"@))
    &&& headers.contains(("access-control-allow-methods"@, "GET, OPTIONS"@))
    &&& headers.contains(("access-control-allow-headers"@, "Content-Type"@))
    &&& headers.contains(("timing-allow-origin"@, "*"@))
}

/// The session has ended with a reply.
pub open spec fn has_replied(next: (SessionView, ActionView)) -> bool {
    next.0.stage is Done && next.1 is Reply
}

/// The reply of a session that has ended with one.
pub open spec fn reply_of(next: (SessionView, ActionView)) -> reply::ReplyView {
    match next.1 {
        ActionView::Reply(r) => r,
        _ => arbitrary(),
    }
}

/// The session has ended with a reply of JSON that any origin may read.
pub open spec fn has_replied_json(next: (SessionView, ActionView), status: u16) -> bool {
    let r = reply_of(next);
    &&& has_replied(next)
    &&& r.status == status
    &&& r.headers.len() == 5
    &&& are_json_headers(r.headers)
    &&& valid_utf8(r.body)
}

/// The text of the reply.
pub open spec fn reply_text(next: (SessionView, ActionView)) -> Seq<char> {
    decode_utf8(reply_of(next).body)
}

proof fn lemma_json_headers()
    ensures
        reply::json_headers().len() == 5,
        are_json_headers(reply::json_headers()),
{
    let h = reply::json_headers();
    assert(h[0] == ("content-type"@, "application/json"@));
    assert(h[1] == ("access-control-allow-origin"@, "*"@));
    assert(h[2] == ("access-control-allow-methods"@, "GET, OPTIONS"@));
    assert(h[3] == ("access-control-allow-headers"@, "Content-Type"@));
    assert(h[4] == ("timing-allow-origin"@, "*"@));
}

/// A reply of JSON has the status and the text that it is given, in UTF-8.
pub proof fn law_json_replies_carry_their_text(status: u16, t: Seq<char>)
    ensures
        reply::json_reply(status, t).status == status,
        reply::json_reply(status, t).headers.len() == 5,
        are_json_headers(reply::json_reply(status, t).headers),
        valid_utf8(reply::json_reply(status, t).body),
        decode_utf8(reply::json_reply(status, t).body) == t,
        reply::denied_reply(t).status == 403,
        reply::denied_reply(t).headers == seq![("content-type"@, "application/json"@)],
        valid_utf8(reply::denied_reply(t).body),
        decode_utf8(reply::denied_reply(t).body) == t,
{
    lemma_json_headers();
    encode_utf8_valid_utf8(t);
    encode_utf8_decode_utf8(t);
}

/// A session that ends with a reply of JSON.
proof fn lemma_json_reply(next: (SessionView, ActionView), status: u16, t: Seq<char>)
    requires
        next.0.stage is Done,
        next.1 == ActionView::Reply(reply::json_reply(status, t)),
    ensures
        has_replied_json(next, status),
        reply_text(next) == t,
{
    law_json_replies_carry_their_text(status, t);
}

// ---- Requests that are answered at once ----

/// A preflight is granted whatever it asks for: any origin may send GET and OPTIONS.
pub proof fn law_preflight_is_granted(
    path: Seq<char>,
    spin_full_url: Option<Seq<char>>,
    docs: DocumentsView,
)
    ensures
        ({
            let next = session::routed(Method::Options, path, spin_full_url, docs);
            let r = reply_of(next);
            &&& has_replied(next)
            &&& r.status == 204
            &&& r.headers.len() == 4
            &&& r.headers.contains(("access-control-allow-origin"@, "*"@))
            &&& r.headers.contains(("access-control-allow-methods"@, "GET, OPTIONS"@))
            &&& r.headers.contains(("access-control-allow-headers"@, "Content-Type"@))
            &&& r.headers.contains(("timing-allow-origin"@, "*"@))
            &&& r.body.len() == 0
        }),
{
    let r = reply::preflight_reply();
    assert(r.headers[0] == ("access-control-allow-origin"@, "*"@));
    assert(r.headers[1] == ("access-control-allow-methods"@, "GET, OPTIONS"@));
    assert(r.headers[2] == ("access-control-allow-headers"@, "Content-Type"@));
    assert(r.headers[3] == ("timing-allow-origin"@, "*"@));
    reveal_strlit("");
    assert(""@ =~= seq![]);
}

/// Any method but GET and OPTIONS is refused, whatever it asks for, and told what is allowed.
pub proof fn law_other_methods_are_refused(
    path: Seq<char>,
    spin_full_url: Option<Seq<char>>,
    docs: DocumentsView,
)
    ensures
        ({
            let next = session::routed(Method::Other, path, spin_full_url, docs);
            let r = reply_of(next);
            &&& has_replied(next)
            &&& r.status == 405
            &&& r.headers == seq![("allow"@, "GET, OPTIONS"@)]
            &&& r.body.len() == 0
        }),
{
    reveal_strlit("");
    assert(""@ =~= seq![]);
}

/// The address by which the runtime was called matters to `/env` alone.
pub proof fn law_address_matters_to_env_alone(
    method: Method,
    path: Seq<char>,
    one: Option<Seq<char>>,
    other: Option<Seq<char>>,
    docs: DocumentsView,
)
    requires
        path != "/env"@ || method != Method::Get,
    ensures
        session::routed(method, path, one, docs) == session::routed(method, path, other, docs),
{
}

/// The documents matter to the paths that serve them alone, and each of these to its own alone.
pub proof fn law_documents_matter_to_their_paths_alone(
    method: Method,
    path: Seq<char>,
    spin_full_url: Option<Seq<char>>,
    one: DocumentsView,
    other: DocumentsView,
)
    requires
        path == "/metadata"@ ==> one.metadata == other.metadata,
        path == "/tilejson"@ || path == "/tilejson.json"@ ==> one.tilejson == other.tilejson,
        path == "/capabilities"@ ==> one.capabilities == other.capabilities,
    ensures
        session::routed(method, path, spin_full_url, one) == session::routed(
            method,
            path,
            spin_full_url,
            other,
        ),
{
}

/// The paths of the service are different texts.
proof fn lemma_paths_differ()
    ensures
        "/tilejson"@ != "/metadata"@,
        "/env"@.len() == 4,
        ""@.len() == 0,
        "/"@.len() == 1,
        "/healthz"@.len() == 8,
        "/metadata"@.len() == 9,
        "/tilejson"@.len() == 9,
        "/tilejson.json"@.len() == 14,
        "/capabilities"@.len() == 13,
        "/remote-metadata"@.len() == 16,
        "/remote-tilejson"@.len() == 16,
        "/remote-tilejson"@ != "/remote-metadata"@,
        "/fgb-head"@.len() == 9,
        "/fgb-head"@ != "/metadata"@,
        "/fgb-head"@ != "/tilejson"@,
        "/fgb-head-esa"@.len() == 13,
        "/fgb-head-esa"@ != "/capabilities"@,
        "/fgb-parse"@.len() == 10,
        "/fgb-parse-esa"@.len() == 14,
        "/fgb-parse-esa"@ != "/tilejson.json"@,
{
    reveal_strlit("");
    reveal_strlit("/");
    reveal_strlit("/healthz");
    reveal_strlit("/metadata");
    reveal_strlit("/tilejson");
    reveal_strlit("/tilejson.json");
    reveal_strlit("/env");
    reveal_strlit("/capabilities");
    reveal_strlit("/remote-metadata");
    reveal_strlit("/remote-tilejson");
    reveal_strlit("/fgb-head");
    reveal_strlit("/fgb-head-esa");
    reveal_strlit("/fgb-parse");
    reveal_strlit("/fgb-parse-esa");
    assert("/tilejson"@[1] != "/metadata"@[1]);
    assert("/remote-tilejson"@[8] != "/remote-metadata"@[8]);
    assert("/fgb-head"@[1] != "/metadata"@[1]);
    assert("/fgb-head"@[1] != "/tilejson"@[1]);
    assert("/fgb-head-esa"@[1] != "/capabilities"@[1]);
    assert("/fgb-parse-esa"@[1] != "/tilejson.json"@[1]);
}

/// Each document is served at its paths, as it is.
pub proof fn law_documents_are_served(
    path: Seq<char>,
    spin_full_url: Option<Seq<char>>,
    docs: DocumentsView,
)
    ensures
        ({
            let next = session::routed(Method::Get, path, spin_full_url, docs);
            &&& path == "/metadata"@ ==> has_replied_json(next, 200) && reply_text(next)
                == docs.metadata
            &&& path == "/tilejson"@ || path == "/tilejson.json"@ ==> has_replied_json(next, 200)
                && reply_text(next) == docs.tilejson
            &&& path == "/capabilities"@ ==> has_replied_json(next, 200) && reply_text(next)
                == docs.capabilities
        }),
{
    lemma_paths_differ();
    let next = session::routed(Method::Get, path, spin_full_url, docs);
    if path == "/metadata"@ {
        lemma_json_reply(next, 200, docs.metadata);
    }
    if path == "/tilejson"@ || path == "/tilejson.json"@ {
        lemma_json_reply(next, 200, docs.tilejson);
    }
    if path == "/capabilities"@ {
        lemma_json_reply(next, 200, docs.capabilities);
    }
}

/// The root tells what the service is.
pub proof fn law_root_names_the_service(
    path: Seq<char>,
    spin_full_url: Option<Seq<char>>,
    docs: DocumentsView,
)
    requires
        path == ""@ || path == "/"@,
    ensures
        ({
            let next = session::routed(Method::Get, path, spin_full_url, docs);
            &&& has_replied_json(next, 200)
            &&& reading::tokens(reply_text(next)) == Some(
                body_laws::text_member('{', "service"@, "metadata-function"@) + body_laws::text_member(
                    ',',
                    "runtime"@,
                    "Spin/Wasm"@,
                ) + body_laws::text_member(',', "version"@, "0.1.0"@) + body_laws::text_member(
                    ',',
                    "phase"@,
                    "0+1+2+4"@,
                ) + body_laws::close(),
            )
        }),
{
    body_laws::law_service_text();
    let next = session::routed(Method::Get, path, spin_full_url, docs);
    lemma_json_reply(next, 200, bodies::service_text());
}

/// The health check says that all is well.
pub proof fn law_health_is_ok(spin_full_url: Option<Seq<char>>, docs: DocumentsView)
    ensures
        ({
            let next = session::routed(Method::Get, "/healthz"@, spin_full_url, docs);
            &&& has_replied_json(next, 200)
            &&& reading::tokens(reply_text(next)) == Some(
                body_laws::text_member('{', "status"@, "ok"@) + body_laws::close(),
            )
        }),
{
    lemma_paths_differ();
    body_laws::law_health_text();
    let next = session::routed(Method::Get, "/healthz"@, spin_full_url, docs);
    lemma_json_reply(next, 200, bodies::health_text());
}

/// The environment shows the address by which the runtime was called, quoted, or an empty one
/// where it is not known.
pub proof fn law_env_shows_the_address(spin_full_url: Option<Seq<char>>, docs: DocumentsView)
    ensures
        ({
            let next = session::routed(Method::Get, "/env"@, spin_full_url, docs);
            let quoted = text::debug_text(
                match spin_full_url {
                    Some(url) => url,
                    None => seq![],
                },
            );
            &&& has_replied_json(next, 200)
            &&& reading::embeds(
                reply_text(next),
                reading::key('{', "spin_full_url"@),
                quoted,
                body_laws::text_member(',', "wasm_target"@, "wasm32-wasip1"@) + body_laws::close(),
            )
        }),
{
    lemma_paths_differ();
    reveal_strlit("");
    assert(""@ =~= seq![]);
    let url = match spin_full_url {
        Some(url) => url,
        None => ""@,
    };
    body_laws::law_env_text(text::debug_text(url));
    let next = session::routed(Method::Get, "/env"@, spin_full_url, docs);
    lemma_json_reply(next, 200, bodies::env_text(text::debug_text(url)));
}

/// Any other path is answered with 404 and a word of why, which any origin may read.
pub proof fn law_unknown_paths_are_told(
    path: Seq<char>,
    spin_full_url: Option<Seq<char>>,
    docs: DocumentsView,
)
    requires
        !laws::is_served(path),
    ensures
        ({
            let next = session::routed(Method::Get, path, spin_full_url, docs);
            let r = reply_of(next);
            &&& has_replied(next)
            &&& r.status == 404
            &&& r.headers.len() == 3
            &&& r.headers.contains(("content-type"@, "application/json"@))
            &&& r.headers.contains(("access-control-allow-origin"@, "*"@))
            &&& r.headers.contains(("timing-allow-origin"@, "*"@))
            &&& reading::body_tokens(r.body) == Some(
                body_laws::text_member('{', "error"@, "not found"@) + body_laws::close(),
            )
        }),
{
    let r = reply::not_found_reply();
    assert(r.headers[0] == ("content-type"@, "application/json"@));
    assert(r.headers[1] == ("access-control-allow-origin"@, "*"@));
    assert(r.headers[2] == ("timing-allow-origin"@, "*"@));
    encode_utf8_valid_utf8(r#"{"error":"not found"}"#@);
    encode_utf8_decode_utf8(r#"{"error":"not found"}"#@);
    body_laws::lemma_not_found_text();
}

// ---- Documents that are fetched ----

/// Each path that passes a document on asks one fixed address for it.
pub proof fn law_remote_documents_have_fixed_addresses(
    path: Seq<char>,
    spin_full_url: Option<Seq<char>>,
    docs: DocumentsView,
)
    ensures
        ({
            let (s, action) = session::routed(Method::Get, path, spin_full_url, docs);
            let metadata =
                "https://raw.githubusercontent.com/yuiseki/poc-cng-wasm-edge/main/spin/metadata-function/data/metadata.json"@;
            let tilejson =
                "https://raw.githubusercontent.com/yuiseki/poc-cng-wasm-edge/main/spin/metadata-function/data/tilejson.json"@;
            &&& path == "/remote-metadata"@ ==> action == (ActionView::Get { url: metadata })
                && s == (SessionView { url: metadata, stage: StageView::Remote })
            &&& path == "/remote-tilejson"@ ==> action == (ActionView::Get { url: tilejson })
                && s == (SessionView { url: tilejson, stage: StageView::Remote })
        }),
{
    lemma_paths_differ();
}

/// What a remote source answers is passed on as it is, as JSON that any origin may read, with
/// the address it came from.
pub proof fn law_remote_documents_are_passed_on(url: Seq<char>, status: u16, body: Seq<u8>)
    ensures
        ({
            let next = session::stepped(
                SessionView { url, stage: StageView::Remote },
                EventView::Fetched { status, body },
            );
            let r = reply_of(next);
            &&& has_replied(next)
            &&& r.status == status
            &&& r.body == body
            &&& r.headers.len() == 6
            &&& are_json_headers(r.headers)
            &&& r.headers.contains(("x-fetched-from"@, url))
        }),
{
    let h = reply::relayed_reply(status, body, url).headers;
    assert(h[0] == ("content-type"@, "application/json"@));
    assert(h[1] == ("access-control-allow-origin"@, "*"@));
    assert(h[2] == ("access-control-allow-methods"@, "GET, OPTIONS"@));
    assert(h[3] == ("access-control-allow-headers"@, "Content-Type"@));
    assert(h[4] == ("timing-allow-origin"@, "*"@));
    assert(h[5] == ("x-fetched-from"@, url));
}

/// Where a remote source cannot be asked, the reply is 403, with what went wrong and with the
/// address, both quoted.
pub proof fn law_refused_requests_are_told(url: Seq<char>, detail: Seq<char>)
    ensures
        ({
            let next = session::stepped(
                SessionView { url, stage: StageView::Remote },
                EventView::Failed { detail },
            );
            let r = reply_of(next);
            &&& has_replied(next)
            &&& r.status == 403
            &&& r.headers == seq![("content-type"@, "application/json"@)]
            &&& valid_utf8(r.body)
            &&& reading::embeds_both(
                decode_utf8(r.body),
                body_laws::text_member('{', "error"@, "outbound_denied"@) + reading::key(',', "detail"@),
                text::debug_text(detail),
                reading::key(',', "url"@),
                text::debug_text(url),
                body_laws::close(),
            )
        }),
{
    let (d, u) = (text::debug_text(detail), text::debug_text(url));
    let t = bodies::outbound_denied_text(d, u);
    body_laws::law_outbound_denied_text(d, u);
    encode_utf8_valid_utf8(t);
    encode_utf8_decode_utf8(t);
}

/// A failure of any other request is handed on, and ends the session.
pub proof fn law_other_failures_are_handed_on(s: SessionView, detail: Seq<char>)
    requires
        !(s.stage is Remote),
    ensures
        session::stepped(s, EventView::Failed { detail }).1 is Propagate,
        session::stepped(s, EventView::Failed { detail }).0.stage is Done,
{
}

/// An event that a session does not wait for ends it without a reply: any event once it is done,
/// the outcome of a request while it waits for decimals, and decimals while it waits for a
/// request.
pub proof fn law_unexpected_events_end_the_session(s: SessionView, event: EventView)
    requires
        s.stage is Done || (s.stage is ParseEnvelope && !(event is Formatted)) || (!(
        s.stage is ParseEnvelope) && event is Formatted),
    ensures
        session::stepped(s, event).1 is Propagate,
        session::stepped(s, event).0.stage is Done,
{
}

// ---- Files ----

/// Each path that looks into a file asks one fixed address for the first twelve bytes of it.
pub proof fn law_files_have_fixed_addresses(
    path: Seq<char>,
    spin_full_url: Option<Seq<char>>,
    docs: DocumentsView,
)
    requires
        path == "/fgb-head"@ || path == "/fgb-head-esa"@ || path == "/fgb-parse"@ || path
            == "/fgb-parse-esa"@,
    ensures
        ({
            let (s, action) = session::routed(Method::Get, path, spin_full_url, docs);
            let url = if path == "/fgb-head"@ || path == "/fgb-parse"@ {
                "https://raw.githubusercontent.com/flatgeobuf/flatgeobuf/master/test/data/countries.fgb"@
            } else {
                "https://esa-worldcover.s3.eu-central-1.amazonaws.com/esa_worldcover_grid_composites.fgb"@
            };
            &&& s.url == url
            &&& s.stage == if path == "/fgb-head"@ || path == "/fgb-head-esa"@ {
                StageView::HeadPreamble
            } else {
                StageView::ParsePreamble
            }
            &&& action matches ActionView::GetRange { url: asked, range } && asked == url
                && reading::is_range(range, 0, 11)
        }),
{
    lemma_paths_differ();
    reading::law_range_reads_back(0, 11);
}

/// The bytes start with those of a FlatGeobuf file of version 3, `padding`, and `header_size` in
/// four bytes, least significant byte first.
pub open spec fn is_preamble(bytes: Seq<u8>, padding: u8, header_size: u32) -> bool {
    &&& bytes.len() >= 12
    &&& starts_as_flatgeobuf(bytes)
    &&& bytes[7] == padding
    &&& laws::holds(bytes, 8, laws::le_bytes(header_size as nat, 4))
}

/// The first seven bytes are those of a FlatGeobuf file of version 3.
pub open spec fn starts_as_flatgeobuf(bytes: Seq<u8>) -> bool {
    &&& bytes[0] == 0x66 && bytes[1] == 0x67 && bytes[2] == 0x62
    &&& bytes[3] == 3
    &&& bytes[4] == 0x66 && bytes[5] == 0x67 && bytes[6] == 0x62
}

/// A preamble that was written is read back.
pub proof fn law_preamble_reads_back(bytes: Seq<u8>, padding: u8, header_size: u32)
    requires
        is_preamble(bytes, padding, header_size),
    ensures
        fgb::preamble_of(bytes) == (fgb::Preamble::Valid { padding, header_size }),
{
    assert(bytes.take(7) =~= fgb::magic());
    laws::lemma_values_of();
    laws::law_number_reads_back(bytes, 8, header_size as nat, 4);
}

/// Fewer than twelve bytes are no preamble, nor are bytes that start otherwise.
pub proof fn law_other_bytes_are_no_preamble(bytes: Seq<u8>)
    ensures
        bytes.len() < 12 <==> fgb::preamble_of(bytes) is Short,
        bytes.len() >= 12 && !starts_as_flatgeobuf(bytes) <==> fgb::preamble_of(
            bytes,
        ) is BadMagic,
{
    if bytes.len() >= 12 {
        assert(bytes.take(7) == fgb::magic() <==> starts_as_flatgeobuf(bytes)) by {
            if bytes.take(7) == fgb::magic() {
                assert(forall|i: int| 0 <= i < 7 ==> bytes[i] == bytes.take(7)[i]);
            }
            if starts_as_flatgeobuf(bytes) {
                assert(bytes.take(7) =~= fgb::magic());
            }
        }
    }
}

/// Once the preamble of a file is there, as many bytes behind it are asked for, at the same
/// address, as it gives the header.
pub proof fn law_header_is_asked_for(
    s: SessionView,
    status: u16,
    bytes: Seq<u8>,
    padding: u8,
    header_size: u32,
)
    requires
        s.stage is HeadPreamble || s.stage is ParsePreamble,
        is_preamble(bytes, padding, header_size),
    ensures
        ({
            let (after, action) = session::stepped(
                s,
                EventView::Fetched { status, body: bytes },
            );
            if 12 + header_size <= usize::MAX {
                &&& action matches ActionView::GetRange { url, range } && url == s.url
                    && reading::is_range(range, 12, 12 + header_size - 1)
                &&& !(after.stage is Done)
            } else {
                action is Overflow
            }
        }),
{
    law_preamble_reads_back(bytes, padding, header_size);
    reading::law_range_reads_back(12, (12 + header_size - 1) as nat);
}

/// A file that is too short is answered with 502 and the number of its bytes.
pub proof fn law_short_files_are_told(s: SessionView, status: u16, bytes: Seq<u8>)
    requires
        s.stage is HeadPreamble || s.stage is ParsePreamble,
        bytes.len() < 12,
    ensures
        ({
            let next = session::stepped(s, EventView::Fetched { status, body: bytes });
            let got = bytes.len() as int;
            &&& has_replied_json(next, 502)
            &&& s.stage is HeadPreamble ==> reading::embeds(
                reply_text(next),
                body_laws::text_member('{', "error"@, "short_response"@) + body_laws::integer_member(',', "got"@, got)
                    + reading::key(',', "url"@),
                text::debug_text(s.url),
                body_laws::close(),
            )
            &&& s.stage is ParsePreamble ==> reading::tokens(reply_text(next)) == Some(
                body_laws::text_member('{', "error"@, "short_preamble"@) + body_laws::integer_member(',', "got"@, got)
                    + body_laws::close(),
            )
        }),
{
    law_other_bytes_are_no_preamble(bytes);
    let next = session::stepped(s, EventView::Fetched { status, body: bytes });
    let q = text::debug_text(s.url);
    if s.stage is HeadPreamble {
        body_laws::law_short_response_text(bytes.len(), q);
        lemma_json_reply(next, 502, bodies::short_response_text(bytes.len(), q));
    } else {
        body_laws::law_short_preamble_text(bytes.len());
        lemma_json_reply(next, 502, bodies::short_preamble_text(bytes.len()));
    }
}

/// A file of another kind is answered with 400 and its first eight bytes in hexadecimal digits.
pub proof fn law_foreign_files_are_told(s: SessionView, status: u16, bytes: Seq<u8>)
    requires
        s.stage is HeadPreamble || s.stage is ParsePreamble,
        bytes.len() >= 12,
        !starts_as_flatgeobuf(bytes),
    ensures
        ({
            let next = session::stepped(s, EventView::Fetched { status, body: bytes });
            let hex = text::hex_text(bytes.take(8));
            let told = body_laws::text_member('{', "error"@, "bad_magic"@) + body_laws::text_member(',', "hex"@, hex);
            &&& reading::is_hex_of(hex, bytes.take(8))
            &&& has_replied_json(next, 400)
            &&& s.stage is HeadPreamble ==> reading::embeds(
                reply_text(next),
                told + reading::key(',', "url"@),
                text::debug_text(s.url),
                body_laws::close(),
            )
            &&& s.stage is ParsePreamble ==> reading::tokens(reply_text(next)) == Some(
                told + body_laws::close(),
            )
        }),
{
    law_other_bytes_are_no_preamble(bytes);
    let next = session::stepped(s, EventView::Fetched { status, body: bytes });
    let q = text::debug_text(s.url);
    let first = bytes.take(8);
    if s.stage is HeadPreamble {
        body_laws::law_bad_magic_at_text(first, q);
        lemma_json_reply(next, 400, bodies::bad_magic_at_text(first, q));
    } else {
        body_laws::law_bad_magic_text(first);
        lemma_json_reply(next, 400, bodies::bad_magic_text(first));
    }
}

/// `bytes` start with the four bytes of `n`, least significant byte first; where they are fewer
/// than four, `n` is zero.
pub open spec fn starts_with_number(bytes: Seq<u8>, n: nat) -> bool {
    if bytes.len() < 4 {
        n == 0
    } else {
        n < 0x1_0000_0000 && laws::holds(bytes, 0, laws::le_bytes(n, 4))
    }
}

/// The number that bytes start with is where the table of a header starts, whatever follows.
pub proof fn law_root_position_reads_back(bytes: Seq<u8>, n: nat)
    requires
        starts_with_number(bytes, n),
    ensures
        fgb::root_pos(bytes) == n,
        flatbuf::le_at(bytes, 0, 4) == n,
{
    laws::lemma_values_of();
    if bytes.len() >= 4 {
        laws::law_number_reads_back(bytes, 0, n, 4);
    }
}

/// The head of a file shows what its preamble says, the number that its header starts with, and
/// how many bytes of the header came.
pub proof fn law_head_is_shown(
    url: Seq<char>,
    first_status: u16,
    preamble: Seq<u8>,
    padding: u8,
    header_size: u32,
    second_status: u16,
    header: Seq<u8>,
    root: nat,
)
    requires
        is_preamble(preamble, padding, header_size),
        12 + header_size <= usize::MAX,
        starts_with_number(header, root),
    ensures
        ({
            let asked = session::stepped(
                SessionView { url, stage: StageView::HeadPreamble },
                EventView::Fetched { status: first_status, body: preamble },
            );
            let next = session::stepped(
                asked.0,
                EventView::Fetched { status: second_status, body: header },
            );
            &&& has_replied_json(next, 200)
            &&& reading::embeds(
                reply_text(next),
                body_laws::text_member('{', "magic"@, "fgb"@) + body_laws::integer_member(',', "version"@, 3)
                    + body_laws::integer_member(',', "padding"@, padding as int) + body_laws::integer_member(
                    ',',
                    "header_size"@,
                    header_size as int,
                ) + body_laws::integer_member(',', "fb_root_offset"@, root as int) + body_laws::integer_member(
                    ',',
                    "header_bytes_fetched"@,
                    header.len() as int,
                ) + reading::key(',', "url"@),
                text::debug_text(url),
                body_laws::close(),
            )
        }),
{
    law_preamble_reads_back(preamble, padding, header_size);
    law_root_position_reads_back(header, root);
    let q = text::debug_text(url);
    body_laws::law_head_text(padding, header_size, root, header.len(), q);
    let asked = session::stepped(
        SessionView { url, stage: StageView::HeadPreamble },
        EventView::Fetched { status: first_status, body: preamble },
    );
    let next = session::stepped(
        asked.0,
        EventView::Fetched { status: second_status, body: header },
    );
    lemma_json_reply(
        next,
        200,
        bodies::head_text(padding, header_size, root, header.len(), q),
    );
}

/// Where a session stands that summarises the file at `url`, once the header has come.
pub open spec fn after_header(
    url: Seq<char>,
    first_status: u16,
    preamble: Seq<u8>,
    second_status: u16,
    header: Seq<u8>,
) -> (SessionView, ActionView) {
    session::stepped(
        session::stepped(
            SessionView { url, stage: StageView::ParsePreamble },
            EventView::Fetched { status: first_status, body: preamble },
        ).0,
        EventView::Fetched { status: second_status, body: header },
    )
}

/// A header of which bytes are missing is answered with 502, the number of bytes that it has and
/// of those that came.
pub proof fn law_incomplete_headers_are_told(
    url: Seq<char>,
    first_status: u16,
    preamble: Seq<u8>,
    padding: u8,
    header_size: u32,
    second_status: u16,
    header: Seq<u8>,
)
    requires
        is_preamble(preamble, padding, header_size),
        12 + header_size <= usize::MAX,
        header.len() < header_size,
    ensures
        ({
            let next = after_header(url, first_status, preamble, second_status, header);
            &&& has_replied_json(next, 502)
            &&& reading::tokens(reply_text(next)) == Some(
                body_laws::text_member('{', "error"@, "incomplete_header"@) + body_laws::integer_member(
                    ',',
                    "expected"@,
                    header_size as int,
                ) + body_laws::integer_member(',', "got"@, header.len() as int) + body_laws::close(),
            )
        }),
{
    law_preamble_reads_back(preamble, padding, header_size);
    body_laws::law_incomplete_header_text(header_size as nat, header.len());
    lemma_json_reply(
        after_header(url, first_status, preamble, second_status, header),
        502,
        bodies::incomplete_header_text(header_size as nat, header.len()),
    );
}

/// A header beyond machine integers ends the session, and no other complete header does so.
pub proof fn law_only_unreadable_headers_overflow(
    url: Seq<char>,
    first_status: u16,
    preamble: Seq<u8>,
    padding: u8,
    header_size: u32,
    second_status: u16,
    header: Seq<u8>,
)
    requires
        is_preamble(preamble, padding, header_size),
        12 + header_size <= usize::MAX,
        header.len() >= header_size,
    ensures
        after_header(url, first_status, preamble, second_status, header).1 is Overflow
            <==> !fgb::header_fits(header),
{
    law_preamble_reads_back(preamble, padding, header_size);
}

/// The doubles of a complete header's envelope are handed out to be written: its first four, in
/// their order. Where it has fewer, nothing is handed out, and the reply shows no envelope.
pub proof fn law_envelope_is_handed_out_in_order(
    url: Seq<char>,
    first_status: u16,
    preamble: Seq<u8>,
    padding: u8,
    header_size: u32,
    second_status: u16,
    header: Seq<u8>,
)
    requires
        is_preamble(preamble, padding, header_size),
        12 + header_size <= usize::MAX,
        header.len() >= header_size,
        fgb::header_fits(header),
    ensures
        ({
            let envelope = fgb::header_of(header).envelope;
            let next = after_header(url, first_status, preamble, second_status, header);
            if envelope.len() >= 4 {
                next.1 matches ActionView::Format { bits } && bits.len() == 4 && forall|i: int|
                    0 <= i < 4 ==> bits[i] == envelope[i]
            } else {
                has_replied(next)
            }
        }),
{
    law_preamble_reads_back(preamble, padding, header_size);
}

/// A complete header is summarised: each field of it is read back from the reply, the numbers of
/// its envelope in their order from the decimals that the doubles were written as.
pub proof fn law_header_is_summarised(
    url: Seq<char>,
    first_status: u16,
    preamble: Seq<u8>,
    padding: u8,
    header_size: u32,
    second_status: u16,
    header: Seq<u8>,
    decimals: Seq<Seq<char>>,
)
    requires
        is_preamble(preamble, padding, header_size),
        12 + header_size <= usize::MAX,
        header.len() >= header_size,
        fgb::header_fits(header),
        decimals.len() == 4,
        body_laws::are_decimals(fgb::header_of(header).envelope, decimals),
    ensures
        ({
            let h = fgb::header_of(header);
            let shown = after_header(url, first_status, preamble, second_status, header);
            let next = if h.envelope.len() >= 4 {
                session::stepped(shown.0, EventView::Formatted { decimals })
            } else {
                shown
            };
            &&& has_replied_json(next, 200)
            &&& reading::tokens(reply_text(next)) == Some(
                body_laws::summary_tokens(
                    h,
                    fgb::geometry_name(h.geometry_type),
                    header_size,
                    decimals,
                    url,
                ),
            )
        }),
{
    law_preamble_reads_back(preamble, padding, header_size);
    let h = fgb::header_of(header);
    let shown = after_header(url, first_status, preamble, second_status, header);
    if h.envelope.len() >= 4 {
        let next = session::stepped(shown.0, EventView::Formatted { decimals });
        body_laws::law_summary_reads_back(h, header_size, decimals, url);
        lemma_json_reply(next, 200, bodies::header_text(h, header_size, decimals, url));
    } else {
        let none = Seq::<Seq<char>>::empty();
        body_laws::law_summary_reads_back(h, header_size, none, url);
        lemma_json_reply(shown, 200, bodies::header_text(h, header_size, none, url));
    }
}

/// A header that was written out is shown: each field that was written is read back from the
/// reply to a request for its summary, whatever the layout of its tables is.
pub proof fn law_written_header_is_summarised(
    url: Seq<char>,
    first_status: u16,
    preamble: Seq<u8>,
    padding: u8,
    header_size: u32,
    second_status: u16,
    header: Seq<u8>,
    decimals: Seq<Seq<char>>,
    root: laws::TableLayout,
    crs: laws::TableLayout,
    h: fgb::HeaderView,
)
    requires
        is_preamble(preamble, padding, header_size),
        12 + header_size <= usize::MAX,
        header_size <= header.len() <= isize::MAX,
        laws::is_written(header, root, crs, h),
        h.envelope.len() <= 8,
        fgb::index_fits(h.features_count as nat, h.index_node_size as nat),
        h.index_bytes_approx == fgb::index_bytes(
            h.features_count as nat,
            h.index_node_size as nat,
        ),
        decimals.len() == 4,
        body_laws::are_decimals(h.envelope, decimals),
    ensures
        ({
            let shown = after_header(url, first_status, preamble, second_status, header);
            let next = if h.envelope.len() >= 4 {
                session::stepped(shown.0, EventView::Formatted { decimals })
            } else {
                shown
            };
            &&& has_replied_json(next, 200)
            &&& reading::tokens(reply_text(next)) == Some(
                body_laws::summary_tokens(
                    h,
                    fgb::geometry_name(h.geometry_type),
                    header_size,
                    decimals,
                    url,
                ),
            )
        }),
{
    laws::law_header_reads_back(header, root, crs, h);
    law_header_is_summarised(
        url,
        first_status,
        preamble,
        padding,
        header_size,
        second_status,
        header,
        decimals,
    );
}

// ---- Views ----

/// The view of a reply shows its status, its headers and its body.
pub proof fn law_replies_show_all(r: reply::Reply)
    ensures
        r@.status == r.status,
        r@.body == r.body@,
        r@.headers.len() == r.headers@.len(),
        forall|i: int|
            0 <= i < r.headers@.len() ==> (#[trigger] r@.headers[i]) == (
                r.headers@[i].name@,
                r.headers@[i].value@,
            ),
{
}

/// The view of an action shows which one it is and all that it carries.
pub proof fn law_actions_show_all(action: Action)
    ensures
        match action {
            Action::Reply(r) => action@ == ActionView::Reply(r@),
            Action::Get { url } => action@ matches ActionView::Get { url: u } && u == url@,
            Action::GetRange { url, range } => action@ matches ActionView::GetRange {
                url: u,
                range: r,
            } && u == url@ && r == range@,
            Action::Format { bits } => action@ matches ActionView::Format { bits: b } && b == bits@,
            Action::Propagate => action@ is Propagate,
            Action::Overflow => action@ is Overflow,
        },
{
}

/// The view of an event shows which one it is and all that it carries.
pub proof fn law_events_show_all(event: Event)
    ensures
        match event {
            Event::Fetched { status, body } => event@ matches EventView::Fetched {
                status: s,
                body: b,
            } && s == status && b == body@,
            Event::Failed { detail } => event@ matches EventView::Failed { detail: d } && d
                == detail@,
            Event::Formatted { decimals } => event@ matches EventView::Formatted {
                decimals: d,
            } && d.len() == decimals@.len() && forall|i: int|
                0 <= i < d.len() ==> (#[trigger] d[i]) == decimals@[i]@,
        },
{
}

/// The view of the documents shows each of them.
pub proof fn law_documents_show_all(docs: Documents)
    ensures
        docs@.metadata == docs.metadata@,
        docs@.tilejson == docs.tilejson@,
        docs@.capabilities == docs.capabilities@,
{
}

/// The view of a session shows its address and what it waits for.
pub proof fn law_sessions_show_all(s: Session)
    ensures
        s@.url == s.url@,
        match s.stage {
            Stage::Remote => s@.stage is Remote,
            Stage::HeadPreamble => s@.stage is HeadPreamble,
            Stage::HeadHeader { padding, header_size } => s@.stage matches StageView::HeadHeader {
                padding: p,
                header_size: n,
            } && p == padding && n == header_size,
            Stage::ParsePreamble => s@.stage is ParsePreamble,
            Stage::ParseHeader { header_size } => s@.stage matches StageView::ParseHeader {
                header_size: n,
            } && n == header_size,
            Stage::ParseEnvelope { header_size, header } => s@.stage
                matches StageView::ParseEnvelope { header_size: n, header: h } && n == header_size
                && h == header@,
            Stage::Done => s@.stage is Done,
        },
{
}

/// The view of a header's summary shows each field of it.
pub proof fn law_summaries_show_all(h: fgb::HeaderSummary)
    ensures
        h@.name == h.name@,
        h@.envelope == h.envelope@,
        h@.geometry_type == h.geometry_type,
        h@.features_count == h.features_count,
        h@.index_node_size == h.index_node_size,
        h@.index_bytes_approx == h.index_bytes_approx,
        h@.crs_org == h.crs_org@,
        h@.crs_code == h.crs_code,
        h@.crs_name == h.crs_name@,
{
}

} // verus!
