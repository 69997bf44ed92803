//! What the service does with a request.
//!
//! A request is answered at once, or opens a session that asks its surroundings for work and
//! goes on with what came of it: `handle` starts, `step` goes on. The surroundings perform
//! each action and hand back its event until an action ends the session.

use vstd::prelude::*;
use vstd::string::*;

use crate::bodies;
use crate::fgb;
use crate::fgb::HeaderSummary;
use crate::fgb::Preamble;
use crate::flatbuf;
use crate::reply;
use crate::reply::Reply;
use crate::text;
use crate::text::quoted;
use crate::text::same_text;
use crate::uri;

verus! {

/// The document that `/remote-metadata` passes on.
pub const REMOTE_METADATA_URL: &'static str =
    "https://raw.githubusercontent.com/yuiseki/poc-cng-wasm-edge/main/spin/metadata-function/data/metadata.json";

/// The document that `/remote-tilejson` passes on.
pub const REMOTE_TILEJSON_URL: &'static str =
    "https://raw.githubusercontent.com/yuiseki/poc-cng-wasm-edge/main/spin/metadata-function/data/tilejson.json";

/// The file that `/fgb-head` and `/fgb-parse` look into.
pub const FGB_COUNTRIES_URL: &'static str =
    "https://raw.githubusercontent.com/flatgeobuf/flatgeobuf/master/test/data/countries.fgb";

/// The file that `/fgb-head-esa` and `/fgb-parse-esa` look into.
pub const FGB_ESA_URL: &'static str =
    "https://esa-worldcover.s3.eu-central-1.amazonaws.com/esa_worldcover_grid_composites.fgb";

/// The method of a request, as far as it matters.
#[derive(Clone, Copy, Debug, PartialEq, Eq, Structural)]
pub enum Method {
    Get,
    Options,
    Other,
}

/// The documents that the service carries with it.
pub struct Documents {
    pub metadata: String,
    pub tilejson: String,
    pub capabilities: String,
}

/// What the documents say.
#[verifier::ext_equal]
pub struct DocumentsView {
    pub metadata: Seq<char>,
    pub tilejson: Seq<char>,
    pub capabilities: Seq<char>,
}

impl View for Documents {
    type V = DocumentsView;

    open spec fn view(&self) -> DocumentsView {
        DocumentsView {
            metadata: self.metadata@,
            tilejson: self.tilejson@,
            capabilities: self.capabilities@,
        }
    }
}

/// What a session waits for.
pub enum Stage {
    /// A document to pass on.
    Remote,
    /// The preamble of a file, to show it.
    HeadPreamble,
    /// The header of a file, to show its preamble with it.
    HeadHeader { padding: u8, header_size: u32 },
    /// The preamble of a file, to summarise its header.
    ParsePreamble,
    /// The header of a file, to summarise it.
    ParseHeader { header_size: u32 },
    /// The numbers of an envelope, written out as decimals.
    ParseEnvelope { header_size: u32, header: HeaderSummary },
    /// Nothing.
    Done,
}

/// What a session waits for.
#[verifier::ext_equal]
pub enum StageView {
    Remote,
    HeadPreamble,
    HeadHeader { padding: u8, header_size: u32 },
    ParsePreamble,
    ParseHeader { header_size: u32 },
    ParseEnvelope { header_size: u32, header: fgb::HeaderView },
    Done,
}

impl View for Stage {
    type V = StageView;

    open spec fn view(&self) -> StageView {
        match *self {
            Stage::Remote => StageView::Remote,
            Stage::HeadPreamble => StageView::HeadPreamble,
            Stage::HeadHeader { padding, header_size } => StageView::HeadHeader {
                padding,
                header_size,
            },
            Stage::ParsePreamble => StageView::ParsePreamble,
            Stage::ParseHeader { header_size } => StageView::ParseHeader { header_size },
            Stage::ParseEnvelope { header_size, header } => StageView::ParseEnvelope {
                header_size,
                header: header@,
            },
            Stage::Done => StageView::Done,
        }
    }
}

/// A request that is being worked on.
pub struct Session {
    /// The only address that the session asks.
    pub url: String,
    pub stage: Stage,
}

/// A request that is being worked on.
#[verifier::ext_equal]
pub struct SessionView {
    pub url: Seq<char>,
    pub stage: StageView,
}

impl View for Session {
    type V = SessionView;

    open spec fn view(&self) -> SessionView {
        SessionView { url: self.url@, stage: self.stage@ }
    }
}

/// What the surroundings are to do.
pub enum Action {
    /// Send this reply. The session has ended.
    Reply(Reply),
    /// Send a GET request to this address.
    Get { url: String },
    /// Send a GET request to this address, with this value of the `range` header.
    GetRange { url: String, range: String },
    /// Write out the doubles that have these bit patterns: each as the shortest decimal that reads
    /// back as it, without exponent.
    Format { bits: Vec<u64> },
    /// Fail, with the error that the last request failed with. The session has ended. This is
    /// also what comes of an event that the session does not wait for.
    Propagate,
    /// Panic: the positions or the sizes in a header are beyond what machine integers hold.
    /// The session has ended.
    Overflow,
}

/// What the surroundings are to do.
#[verifier::ext_equal]
pub enum ActionView {
    Reply(reply::ReplyView),
    Get { url: Seq<char> },
    GetRange { url: Seq<char>, range: Seq<char> },
    Format { bits: Seq<u64> },
    Propagate,
    Overflow,
}

impl View for Action {
    type V = ActionView;

    open spec fn view(&self) -> ActionView {
        match *self {
            Action::Reply(r) => ActionView::Reply(r@),
            Action::Get { url } => ActionView::Get { url: url@ },
            Action::GetRange { url, range } => ActionView::GetRange { url: url@, range: range@ },
            Action::Format { bits } => ActionView::Format { bits: bits@ },
            Action::Propagate => ActionView::Propagate,
            Action::Overflow => ActionView::Overflow,
        }
    }
}

/// What came of an action.
pub enum Event {
    /// A request was answered.
    Fetched { status: u16, body: Vec<u8> },
    /// A request failed, with this description.
    Failed { detail: String },
    /// The doubles, written out as decimals.
    Formatted { decimals: Vec<String> },
}

/// What came of an action.
#[verifier::ext_equal]
pub enum EventView {
    Fetched { status: u16, body: Seq<u8> },
    Failed { detail: Seq<char> },
    Formatted { decimals: Seq<Seq<char>> },
}

impl View for Event {
    type V = EventView;

    open spec fn view(&self) -> EventView {
        match *self {
            Event::Fetched { status, body } => EventView::Fetched { status, body: body@ },
            Event::Failed { detail } => EventView::Failed { detail: detail@ },
            Event::Formatted { decimals } => EventView::Formatted {
                decimals: decimals@.map_values(|n: String| n@),
            },
        }
    }
}

/// The value of a `range` header that asks for the bytes from `start` to `end`, both included.
pub open spec fn range_text(start: nat, end: nat) -> Seq<char> {
    "bytes="@ + text::decimal(start) + "-"@ + text::decimal(end)
}

/// The request for the preamble of a file.
pub open spec fn preamble_request(url: Seq<char>) -> ActionView {
    ActionView::GetRange { url, range: range_text(0, 11) }
}

/// The request for the header of a file.
pub open spec fn header_request(url: Seq<char>, header_size: u32) -> ActionView {
    ActionView::GetRange { url, range: range_text(12, (12 + header_size - 1) as nat) }
}

/// The session asks for the header of a file and waits for it in `stage`. It ends where the
/// position behind the header does not fit into `usize`.
pub open spec fn asking_for_header(
    url: Seq<char>,
    header_size: u32,
    stage: StageView,
) -> (SessionView, ActionView) {
    if 12 + header_size > usize::MAX {
        ended(url, ActionView::Overflow)
    } else {
        (SessionView { url, stage }, header_request(url, header_size))
    }
}

/// The request is answered at once.
pub open spec fn answered(r: reply::ReplyView) -> (SessionView, ActionView) {
    (SessionView { url: seq![], stage: StageView::Done }, ActionView::Reply(r))
}

/// The document at `url` is to be passed on.
pub open spec fn relaying(url: Seq<char>) -> (SessionView, ActionView) {
    (SessionView { url, stage: StageView::Remote }, ActionView::Get { url })
}

/// The preamble of the file at `url` is to be read first.
pub open spec fn looking_into(url: Seq<char>, stage: StageView) -> (SessionView, ActionView) {
    (SessionView { url, stage }, preamble_request(url))
}

/// What is done with a request of the method `method` for `path`.
pub open spec fn routed(
    method: Method,
    path: Seq<char>,
    spin_full_url: Option<Seq<char>>,
    docs: DocumentsView,
) -> (SessionView, ActionView) {
    if method == Method::Options {
        answered(reply::preflight_reply())
    } else if method != Method::Get {
        answered(reply::method_not_allowed_reply())
    } else if path == ""@ || path == "/"@ {
        answered(reply::json_reply(200, bodies::service_text()))
    } else if path == "/healthz"@ {
        answered(reply::json_reply(200, bodies::health_text()))
    } else if path == "/metadata"@ {
        answered(reply::json_reply(200, docs.metadata))
    } else if path == "/tilejson"@ || path == "/tilejson.json"@ {
        answered(reply::json_reply(200, docs.tilejson))
    } else if path == "/env"@ {
        let url = match spin_full_url {
            Some(url) => url,
            None => ""@,
        };
        answered(reply::json_reply(200, bodies::env_text(text::debug_text(url))))
    } else if path == "/capabilities"@ {
        answered(reply::json_reply(200, docs.capabilities))
    } else if path == "/remote-metadata"@ {
        relaying(REMOTE_METADATA_URL@)
    } else if path == "/remote-tilejson"@ {
        relaying(REMOTE_TILEJSON_URL@)
    } else if path == "/fgb-head"@ {
        looking_into(FGB_COUNTRIES_URL@, StageView::HeadPreamble)
    } else if path == "/fgb-head-esa"@ {
        looking_into(FGB_ESA_URL@, StageView::HeadPreamble)
    } else if path == "/fgb-parse"@ {
        looking_into(FGB_COUNTRIES_URL@, StageView::ParsePreamble)
    } else if path == "/fgb-parse-esa"@ {
        looking_into(FGB_ESA_URL@, StageView::ParsePreamble)
    } else {
        answered(reply::not_found_reply())
    }
}

/// The event is one that the stage waits for.
pub open spec fn awaits(stage: StageView, event: EventView) -> bool {
    match stage {
        StageView::Done => false,
        StageView::ParseEnvelope { .. } => event matches EventView::Formatted { decimals }
            && decimals.len() == 4,
        _ => !(event is Formatted),
    }
}

/// The session ends with `action`.
pub open spec fn ended(url: Seq<char>, action: ActionView) -> (SessionView, ActionView) {
    (SessionView { url, stage: StageView::Done }, action)
}

/// The session ends with a JSON reply.
pub open spec fn ended_json(
    url: Seq<char>,
    status: u16,
    text: Seq<char>,
) -> (SessionView, ActionView) {
    ended(url, ActionView::Reply(reply::json_reply(status, text)))
}

/// After the preamble of a file that is to be shown.
pub open spec fn after_head_preamble(
    url: Seq<char>,
    bytes: Seq<u8>,
) -> (SessionView, ActionView) {
    match fgb::preamble_of(bytes) {
        Preamble::Short => ended_json(
            url,
            502,
            bodies::short_response_text(bytes.len(), text::debug_text(url)),
        ),
        Preamble::BadMagic => ended_json(
            url,
            400,
            bodies::bad_magic_at_text(bytes.take(8), text::debug_text(url)),
        ),
        Preamble::Valid { padding, header_size } => asking_for_header(
            url,
            header_size,
            StageView::HeadHeader { padding, header_size },
        ),
    }
}

/// After the header of a file that is to be shown.
pub open spec fn after_head_header(
    url: Seq<char>,
    padding: u8,
    header_size: u32,
    bytes: Seq<u8>,
) -> (SessionView, ActionView) {
    ended_json(
        url,
        200,
        bodies::head_text(
            padding,
            header_size,
            flatbuf::le_at(bytes, 0, 4),
            bytes.len(),
            text::debug_text(url),
        ),
    )
}

/// After the preamble of a file whose header is to be summarised.
pub open spec fn after_parse_preamble(
    url: Seq<char>,
    bytes: Seq<u8>,
) -> (SessionView, ActionView) {
    match fgb::preamble_of(bytes) {
        Preamble::Short => ended_json(url, 502, bodies::short_preamble_text(bytes.len())),
        Preamble::BadMagic => ended_json(url, 400, bodies::bad_magic_text(bytes.take(8))),
        Preamble::Valid { padding, header_size } => asking_for_header(
            url,
            header_size,
            StageView::ParseHeader { header_size },
        ),
    }
}

/// The summary of a header, with the numbers of its envelope written out as decimals.
pub open spec fn summarised(
    url: Seq<char>,
    header_size: u32,
    header: fgb::HeaderView,
    decimals: Seq<Seq<char>>,
) -> (SessionView, ActionView) {
    ended_json(url, 200, bodies::header_text(header, header_size, decimals, url))
}

/// After the header that is to be summarised.
pub open spec fn after_parse_header(
    url: Seq<char>,
    header_size: u32,
    bytes: Seq<u8>,
) -> (SessionView, ActionView) {
    let header = fgb::header_of(bytes);
    if bytes.len() < header_size {
        ended_json(
            url,
            502,
            bodies::incomplete_header_text(header_size as nat, bytes.len()),
        )
    } else if !fgb::header_fits(bytes) {
        ended(url, ActionView::Overflow)
    } else if header.envelope.len() >= 4 {
        (
            SessionView { url, stage: StageView::ParseEnvelope { header_size, header } },
            ActionView::Format { bits: header.envelope.take(4) },
        )
    } else {
        summarised(url, header_size, header, seq![])
    }
}

/// How a session goes on.
pub open spec fn stepped(session: SessionView, event: EventView) -> (SessionView, ActionView) {
    let url = session.url;
    match event {
        EventView::Failed { detail } => match session.stage {
            StageView::Remote => ended(
                url,
                ActionView::Reply(
                    reply::denied_reply(
                        bodies::outbound_denied_text(
                            text::debug_text(detail),
                            text::debug_text(url),
                        ),
                    ),
                ),
            ),
            _ => ended(url, ActionView::Propagate),
        },
        EventView::Fetched { status, body } => match session.stage {
            StageView::Remote => ended(
                url,
                ActionView::Reply(reply::relayed_reply(status, body, url)),
            ),
            StageView::HeadPreamble => after_head_preamble(url, body),
            StageView::HeadHeader { padding, header_size } => after_head_header(
                url,
                padding,
                header_size,
                body,
            ),
            StageView::ParsePreamble => after_parse_preamble(url, body),
            StageView::ParseHeader { header_size } => after_parse_header(url, header_size, body),
            _ => ended(url, ActionView::Propagate),
        },
        EventView::Formatted { decimals } => match session.stage {
            StageView::ParseEnvelope { header_size, header } => summarised(
                url,
                header_size,
                header,
                decimals,
            ),
            _ => ended(url, ActionView::Propagate),
        },
    }
}

/// The value of a `range` header that asks for the bytes from `start` to `end`, both included.
pub fn range_value(start: u64, end: u64) -> (r: String)
    ensures
        r@ == range_text(start as nat, end as nat),
{
    let mut out = "bytes=".to_owned();
    text::push_decimal(&mut out, start);
    out.append("-");
    text::push_decimal(&mut out, end);
    out
}

fn answer(r: Reply) -> (next: (Session, Action))
    ensures
        (next.0@, next.1@) == answered(r@),
{
    (Session { url: String::new(), stage: Stage::Done }, Action::Reply(r))
}

fn relay(url: &str) -> (next: (Session, Action))
    ensures
        (next.0@, next.1@) == relaying(url@),
{
    (Session { url: url.to_owned(), stage: Stage::Remote }, Action::Get { url: url.to_owned() })
}

fn look_into(url: &str, stage: Stage) -> (next: (Session, Action))
    ensures
        (next.0@, next.1@) == looking_into(url@, stage@),
{
    (
        Session { url: url.to_owned(), stage },
        Action::GetRange { url: url.to_owned(), range: range_value(0, 11) },
    )
}

/// Decides what is done with a request. `spin_full_url` is the value of the header of that
/// name, where it is text.
pub fn handle(
    method: Method,
    uri: &str,
    spin_full_url: Option<&str>,
    docs: &Documents,
) -> (next: (Session, Action))
    ensures
        (next.0@, next.1@) == routed(
            method,
            uri::path_of(uri@),
            match spin_full_url {
                Some(url) => Some(url@),
                None => None,
            },
            docs@,
        ),
{
    let path = uri::request_path(uri);
    if method == Method::Options {
        return answer(reply::preflight());
    }
    if method != Method::Get {
        return answer(reply::method_not_allowed());
    }
    if same_text(path, "") || same_text(path, "/") {
        answer(
            reply::json_response(
                200,
                r#"{"service":"metadata-function","runtime":"Spin/Wasm","version":"0.1.0","phase":"0+1+2+4"}"#,
            ),
        )
    } else if same_text(path, "/healthz") {
        answer(reply::json_response(200, r#"{"status":"ok"}"#))
    } else if same_text(path, "/metadata") {
        answer(reply::json_response(200, docs.metadata.as_str()))
    } else if same_text(path, "/tilejson") || same_text(path, "/tilejson.json") {
        answer(reply::json_response(200, docs.tilejson.as_str()))
    } else if same_text(path, "/env") {
        let url = match spin_full_url {
            Some(url) => url,
            None => "",
        };
        answer(reply::json_response(200, bodies::env_body(quoted(url).as_str()).as_str()))
    } else if same_text(path, "/capabilities") {
        answer(reply::json_response(200, docs.capabilities.as_str()))
    } else if same_text(path, "/remote-metadata") {
        relay(REMOTE_METADATA_URL)
    } else if same_text(path, "/remote-tilejson") {
        relay(REMOTE_TILEJSON_URL)
    } else if same_text(path, "/fgb-head") {
        look_into(FGB_COUNTRIES_URL, Stage::HeadPreamble)
    } else if same_text(path, "/fgb-head-esa") {
        look_into(FGB_ESA_URL, Stage::HeadPreamble)
    } else if same_text(path, "/fgb-parse") {
        look_into(FGB_COUNTRIES_URL, Stage::ParsePreamble)
    } else if same_text(path, "/fgb-parse-esa") {
        look_into(FGB_ESA_URL, Stage::ParsePreamble)
    } else {
        answer(reply::not_found())
    }
}

fn end(url: String, action: Action) -> (next: (Session, Action))
    ensures
        (next.0@, next.1@) == ended(url@, action@),
{
    (Session { url, stage: Stage::Done }, action)
}

fn end_json(url: String, status: u16, text: &str) -> (next: (Session, Action))
    ensures
        (next.0@, next.1@) == ended_json(url@, status, text@),
{
    end(url, Action::Reply(reply::json_response(status, text)))
}

fn ask_for_header(url: String, header_size: u32, stage: Stage) -> (next: (Session, Action))
    ensures
        (next.0@, next.1@) == asking_for_header(url@, header_size, stage@),
{
    if 12 + header_size as u64 > usize::MAX as u64 {
        return end(url, Action::Overflow);
    }
    let range = range_value(12, 12 + header_size as u64 - 1);
    let action = Action::GetRange { url: url.clone(), range };
    (Session { url, stage }, action)
}

fn take_head_preamble(url: String, bytes: &[u8]) -> (next: (Session, Action))
    ensures
        (next.0@, next.1@) == after_head_preamble(url@, bytes@),
{
    match fgb::read_preamble(bytes) {
        Preamble::Short => {
            let text = bodies::short_response_body(
                bytes.len() as u64,
                quoted(url.as_str()).as_str(),
            );
            end_json(url, 502, text.as_str())
        },
        Preamble::BadMagic => {
            assert(bytes@.subrange(0, 8) =~= bytes@.take(8));
            let text = bodies::bad_magic_at_body(&bytes[0..8], quoted(url.as_str()).as_str());
            end_json(url, 400, text.as_str())
        },
        Preamble::Valid { padding, header_size } => {
            ask_for_header(url, header_size, Stage::HeadHeader { padding, header_size })
        },
    }
}

fn take_head_header(url: String, padding: u8, header_size: u32, bytes: &[u8]) -> (next: (
    Session,
    Action,
))
    ensures
        (next.0@, next.1@) == after_head_header(url@, padding, header_size, bytes@),
{
    let text = bodies::head_body(
        padding,
        header_size,
        flatbuf::fb_read_u32(bytes, 0),
        bytes.len() as u64,
        quoted(url.as_str()).as_str(),
    );
    end_json(url, 200, text.as_str())
}

fn take_parse_preamble(url: String, bytes: &[u8]) -> (next: (Session, Action))
    ensures
        (next.0@, next.1@) == after_parse_preamble(url@, bytes@),
{
    match fgb::read_preamble(bytes) {
        Preamble::Short => {
            let text = bodies::short_preamble_body(bytes.len() as u64);
            end_json(url, 502, text.as_str())
        },
        Preamble::BadMagic => {
            assert(bytes@.subrange(0, 8) =~= bytes@.take(8));
            let text = bodies::bad_magic_body(&bytes[0..8]);
            end_json(url, 400, text.as_str())
        },
        Preamble::Valid { padding: _, header_size } => {
            ask_for_header(url, header_size, Stage::ParseHeader { header_size })
        },
    }
}

fn summarise(
    url: String,
    header_size: u32,
    header: &HeaderSummary,
    decimals: &Vec<String>,
) -> (next: (Session, Action))
    ensures
        (next.0@, next.1@) == summarised(
            url@,
            header_size,
            header@,
            decimals@.map_values(|n: String| n@),
        ),
{
    let text = bodies::header_body(header, header_size, decimals, url.as_str());
    end_json(url, 200, text.as_str())
}

fn take_parse_header(url: String, header_size: u32, bytes: &[u8]) -> (next: (Session, Action))
    ensures
        (next.0@, next.1@) == after_parse_header(url@, header_size, bytes@),
{
    if (bytes.len() as u64) < header_size as u64 {
        let text = bodies::incomplete_header_body(header_size, bytes.len() as u64);
        return end_json(url, 502, text.as_str());
    }
    match fgb::read_header(bytes) {
        None => end(url, Action::Overflow),
        Some(header) => {
            if header.envelope.len() >= 4 {
                let bits = vec![
                    header.envelope[0],
                    header.envelope[1],
                    header.envelope[2],
                    header.envelope[3],
                ];
                assert(bits@ =~= header.envelope@.take(4));
                (
                    Session { url, stage: Stage::ParseEnvelope { header_size, header } },
                    Action::Format { bits },
                )
            } else {
                let decimals: Vec<String> = Vec::new();
                assert(decimals@.map_values(|n: String| n@) =~= seq![]);
                summarise(url, header_size, &header, &decimals)
            }
        },
    }
}

/// Decides how a session goes on after an event.
pub fn step(session: Session, event: Event) -> (next: (Session, Action))
    ensures
        (next.0@, next.1@) == stepped(session@, event@),
{
    let Session { url, stage } = session;
    match event {
        Event::Failed { detail } => match stage {
            Stage::Remote => {
                let text = bodies::outbound_denied_body(
                    quoted(detail.as_str()).as_str(),
                    quoted(url.as_str()).as_str(),
                );
                end(url, Action::Reply(reply::denied(text.as_str())))
            },
            _ => end(url, Action::Propagate),
        },
        Event::Fetched { status, body } => match stage {
            Stage::Remote => {
                let r = reply::relayed(status, body, url.as_str());
                end(url, Action::Reply(r))
            },
            Stage::HeadPreamble => take_head_preamble(url, body.as_slice()),
            Stage::HeadHeader { padding, header_size } => take_head_header(
                url,
                padding,
                header_size,
                body.as_slice(),
            ),
            Stage::ParsePreamble => take_parse_preamble(url, body.as_slice()),
            Stage::ParseHeader { header_size } => take_parse_header(
                url,
                header_size,
                body.as_slice(),
            ),
            _ => end(url, Action::Propagate),
        },
        Event::Formatted { decimals } => match stage {
            Stage::ParseEnvelope { header_size, header } => summarise(
                url,
                header_size,
                &header,
                &decimals,
            ),
            _ => end(url, Action::Propagate),
        },
    }
}

} // verus!
