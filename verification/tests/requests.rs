use metadata_function::reply::Reply;
use metadata_function::session::{
    handle, range_value, step, Action, Documents, Event, Method, Session, Stage, FGB_COUNTRIES_URL,
    FGB_ESA_URL, REMOTE_METADATA_URL, REMOTE_TILEJSON_URL,
};

const CORS: [(&str, &str); 4] = [
    ("access-control-allow-origin", "*"),
    ("access-control-allow-methods", "GET, OPTIONS"),
    ("access-control-allow-headers", "Content-Type"),
    ("timing-allow-origin", "*"),
];

fn documents() -> Documents {
    Documents {
        metadata: r#"{"name":"metadata"}"#.to_string(),
        tilejson: r#"{"tilejson":"3.0.0"}"#.to_string(),
        capabilities: r#"{"capabilities":[]}"#.to_string(),
    }
}

fn get(uri: &str) -> (Session, Action) {
    handle(Method::Get, uri, None, &documents())
}

fn reply_of(next: (Session, Action)) -> Reply {
    assert!(matches!(next.0.stage, Stage::Done));
    match next.1 {
        Action::Reply(reply) => reply,
        _ => panic!("no reply"),
    }
}

fn range_of(action: &Action) -> (String, String) {
    match action {
        Action::GetRange { url, range } => (url.clone(), range.clone()),
        _ => panic!("no range request"),
    }
}

fn text_of(reply: &Reply) -> String {
    String::from_utf8(reply.body.clone()).unwrap()
}

fn headers_of(reply: &Reply) -> Vec<(&str, &str)> {
    reply.headers.iter().map(|h| (h.name.as_str(), h.value.as_str())).collect()
}

fn json_headers() -> Vec<(&'static str, &'static str)> {
    let mut headers = vec![("content-type", "application/json")];
    headers.extend_from_slice(&CORS);
    headers
}

fn fetched(body: &[u8]) -> Event {
    Event::Fetched { status: 206, body: body.to_vec() }
}

fn preamble(header_size: u32) -> Vec<u8> {
    let mut bytes = b"fgb\x03fgb".to_vec();
    bytes.push(1);
    bytes.extend_from_slice(&header_size.to_le_bytes());
    bytes
}

/// A header with a name, an envelope of `bounds` and nothing else.
fn small_header(name: &str, bounds: &[f64]) -> Vec<u8> {
    let mut buf: Vec<u8> = Vec::new();
    buf.extend_from_slice(&12u32.to_le_bytes());
    buf.extend_from_slice(&8u16.to_le_bytes());
    buf.extend_from_slice(&12u16.to_le_bytes());
    buf.extend_from_slice(&4u16.to_le_bytes());
    buf.extend_from_slice(&8u16.to_le_bytes());
    buf.extend_from_slice(&8i32.to_le_bytes());
    buf.extend_from_slice(&8u32.to_le_bytes());
    buf.extend_from_slice(&(8 + name.len() as u32).to_le_bytes());
    buf.extend_from_slice(&(name.len() as u32).to_le_bytes());
    buf.extend_from_slice(name.as_bytes());
    buf.extend_from_slice(&(bounds.len() as u32).to_le_bytes());
    for bound in bounds {
        buf.extend_from_slice(&bound.to_le_bytes());
    }
    buf
}

#[test]
fn the_root_tells_what_the_service_is() {
    for uri in ["", "/", "//", "http://localhost:3000/", "/?x=1"] {
        let reply = reply_of(get(uri));
        assert_eq!(reply.status, 200);
        assert_eq!(headers_of(&reply), json_headers());
        assert_eq!(
            text_of(&reply),
            r#"{"service":"metadata-function","runtime":"Spin/Wasm","version":"0.1.0","phase":"0+1+2+4"}"#
        );
    }
}

#[test]
fn health_is_ok() {
    for uri in [
        "/healthz",
        "/healthz/",
        "https://h/healthz?probe=1",
        "/healthz?next=http://x/metadata",
        "/healthz?u=http://x/fgb-parse",
    ] {
        let reply = reply_of(get(uri));
        assert_eq!(reply.status, 200);
        assert_eq!(text_of(&reply), r#"{"status":"ok"}"#);
    }
}

#[test]
fn documents_are_served_as_they_are() {
    assert_eq!(text_of(&reply_of(get("/metadata"))), documents().metadata);
    assert_eq!(text_of(&reply_of(get("/x://h/metadata"))), documents().metadata);
    assert_eq!(text_of(&reply_of(get("/tilejson"))), documents().tilejson);
    assert_eq!(text_of(&reply_of(get("/tilejson.json"))), documents().tilejson);
    assert_eq!(text_of(&reply_of(get("/capabilities"))), documents().capabilities);
}

#[test]
fn the_environment_is_quoted() {
    let next = handle(Method::Get, "/env", Some("http://h/\"x\"\n"), &documents());
    assert_eq!(
        text_of(&reply_of(next)),
        r#"{"spin_full_url":"http://h/\"x\"\n","wasm_target":"wasm32-wasip1"}"#
    );
    let next = handle(Method::Get, "/env", Some("\0\u{1}\u{7f}\u{e9}"), &documents());
    assert_eq!(
        text_of(&reply_of(next)),
        "{\"spin_full_url\":\"\\0\\u{1}\\u{7f}\u{e9}\",\"wasm_target\":\"wasm32-wasip1\"}"
    );
    assert_eq!(
        text_of(&reply_of(get("/env"))),
        r#"{"spin_full_url":"","wasm_target":"wasm32-wasip1"}"#
    );
}

#[test]
fn a_preflight_is_granted_on_every_path() {
    for uri in ["/metadata", "/nowhere", "/remote-metadata"] {
        let reply = reply_of(handle(Method::Options, uri, None, &documents()));
        assert_eq!(reply.status, 204);
        assert_eq!(headers_of(&reply), CORS.to_vec());
        assert_eq!(text_of(&reply), "");
    }
}

#[test]
fn other_methods_are_not_allowed_on_any_path() {
    for uri in ["/healthz", "/nowhere", "/fgb-head"] {
        let reply = reply_of(handle(Method::Other, uri, None, &documents()));
        assert_eq!(reply.status, 405);
        assert_eq!(headers_of(&reply), vec![("allow", "GET, OPTIONS")]);
        assert_eq!(text_of(&reply), "");
    }
}

#[test]
fn other_paths_are_not_found() {
    for uri in [
        "/nowhere",
        "/healthz/x",
        "/Healthz",
        "http://example.com",
        "http://h?u=/metadata",
    ] {
        let reply = reply_of(get(uri));
        assert_eq!(reply.status, 404);
        assert_eq!(
            headers_of(&reply),
            vec![
                ("content-type", "application/json"),
                ("access-control-allow-origin", "*"),
                ("timing-allow-origin", "*"),
            ]
        );
        assert_eq!(text_of(&reply), r#"{"error":"not found"}"#);
    }
}

#[test]
fn remote_documents_are_passed_on_unchanged() {
    for (uri, source) in
        [("/remote-metadata", REMOTE_METADATA_URL), ("/remote-tilejson", REMOTE_TILEJSON_URL)]
    {
        let (session, action) = get(uri);
        match action {
            Action::Get { url } => assert_eq!(url, source),
            _ => panic!("no request"),
        }
        let body = vec![0xff, 0x00, b'{'];
        let reply = reply_of(step(session, Event::Fetched { status: 418, body: body.clone() }));
        assert_eq!(reply.status, 418);
        assert_eq!(reply.body, body);
        let mut headers = json_headers();
        headers.push(("x-fetched-from", source));
        assert_eq!(headers_of(&reply), headers);
    }
}

#[test]
fn a_denied_request_is_told() {
    let (session, _) = get("/remote-metadata");
    let reply = reply_of(step(session, Event::Failed { detail: "no \"way\"\u{7f}".to_string() }));
    assert_eq!(reply.status, 403);
    assert_eq!(headers_of(&reply), vec![("content-type", "application/json")]);
    assert_eq!(
        text_of(&reply),
        format!(
            r#"{{"error":"outbound_denied","detail":"no \"way\"\u{{7f}}","url":"{}"}}"#,
            REMOTE_METADATA_URL
        )
    );
}

#[test]
fn files_are_asked_for_their_preamble_first() {
    for (uri, source) in [
        ("/fgb-head", FGB_COUNTRIES_URL),
        ("/fgb-head-esa", FGB_ESA_URL),
        ("/fgb-parse", FGB_COUNTRIES_URL),
        ("/fgb-parse-esa", FGB_ESA_URL),
    ] {
        let (session, action) = get(uri);
        assert_eq!(range_of(&action), (source.to_string(), "bytes=0-11".to_string()));
        let (_, action) = step(session, fetched(&preamble(604)));
        assert_eq!(range_of(&action), (source.to_string(), "bytes=12-615".to_string()));
    }
}

#[test]
fn an_empty_header_is_asked_for_backwards() {
    let (session, _) = get("/fgb-head");
    let (_, action) = step(session, fetched(&preamble(0)));
    assert_eq!(range_of(&action).1, "bytes=12-11");
    assert_eq!(range_value(12, 4_294_967_306), "bytes=12-4294967306");
}

#[test]
fn the_head_of_a_file_is_shown() {
    let (session, _) = get("/fgb-head");
    let (session, _) = step(session, fetched(&preamble(604)));
    let reply = reply_of(step(session, fetched(&[28, 1, 0, 0, 9])));
    assert_eq!(reply.status, 200);
    assert_eq!(headers_of(&reply), json_headers());
    assert_eq!(
        text_of(&reply),
        format!(
            r#"{{"magic":"fgb","version":3,"padding":1,"header_size":604,"fb_root_offset":284,"header_bytes_fetched":5,"url":"{}"}}"#,
            FGB_COUNTRIES_URL
        )
    );
}

#[test]
fn a_header_of_three_bytes_has_no_root() {
    let (session, _) = get("/fgb-head");
    let (session, _) = step(session, fetched(&preamble(3)));
    let reply = reply_of(step(session, fetched(&[1, 2, 3])));
    assert_eq!(
        text_of(&reply),
        format!(
            r#"{{"magic":"fgb","version":3,"padding":1,"header_size":3,"fb_root_offset":0,"header_bytes_fetched":3,"url":"{}"}}"#,
            FGB_COUNTRIES_URL
        )
    );
}

#[test]
fn short_and_foreign_files_are_told_with_their_address() {
    let (session, _) = get("/fgb-head-esa");
    let reply = reply_of(step(session, fetched(&[0; 11])));
    assert_eq!(reply.status, 502);
    assert_eq!(
        text_of(&reply),
        format!(r#"{{"error":"short_response","got":11,"url":"{}"}}"#, FGB_ESA_URL)
    );
    let (session, _) = get("/fgb-head-esa");
    let reply = reply_of(step(session, fetched(b"<html>\xff\x00....")));
    assert_eq!(reply.status, 400);
    assert_eq!(
        text_of(&reply),
        format!(
            r#"{{"error":"bad_magic","hex":"3c68746d6c3eff00","url":"{}"}}"#,
            FGB_ESA_URL
        )
    );
}

#[test]
fn short_and_foreign_files_are_told_before_parsing() {
    let (session, _) = get("/fgb-parse");
    let reply = reply_of(step(session, fetched(&[])));
    assert_eq!(reply.status, 502);
    assert_eq!(text_of(&reply), r#"{"error":"short_preamble","got":0}"#);
    let (session, _) = get("/fgb-parse");
    let reply = reply_of(step(session, fetched(&[0xab; 12])));
    assert_eq!(reply.status, 400);
    assert_eq!(text_of(&reply), r#"{"error":"bad_magic","hex":"abababababababab"}"#);
}

#[test]
fn an_incomplete_header_is_told() {
    let (session, _) = get("/fgb-parse");
    let (session, _) = step(session, fetched(&preamble(604)));
    let reply = reply_of(step(session, fetched(&[0; 603])));
    assert_eq!(reply.status, 502);
    assert_eq!(text_of(&reply), r#"{"error":"incomplete_header","expected":604,"got":603}"#);
}

#[test]
fn a_header_is_summarised_with_its_envelope() {
    let header = small_header("a \"b\" \u{e9}", &[-180.0, -90.5, 180.0, 90.25, 7.0]);
    let size = header.len() as u32;
    let (session, _) = get("/fgb-parse-esa");
    let (session, _) = step(session, fetched(&preamble(size)));
    let (session, action) = step(session, fetched(&header));
    let bits = match action {
        Action::Format { bits } => bits,
        _ => panic!("no numbers to write out"),
    };
    assert_eq!(
        bits,
        vec![
            (-180.0f64).to_bits(),
            (-90.5f64).to_bits(),
            180.0f64.to_bits(),
            90.25f64.to_bits()
        ]
    );
    let decimals =
        bits.into_iter().map(|b| f64::from_bits(b).to_string()).collect::<Vec<String>>();
    let reply = reply_of(step(session, Event::Formatted { decimals }));
    assert_eq!(reply.status, 200);
    assert_eq!(headers_of(&reply), json_headers());
    assert_eq!(
        text_of(&reply),
        format!(
            "{{\"name\":\"a \\\"b\\\" \u{e9}\",\"geometry_type\":0,\"geometry_type_name\":\"Unknown\",\"features_count\":0,\"index_node_size\":16,\"index_bytes_approx\":40,\"envelope\":[-180.000000,-90.500000,180.000000,90.250000],\"crs\":{{\"org\":\"\",\"code\":0,\"name\":\"\"}},\"header_size\":{},\"url\":\"{}\"}}",
            size, FGB_ESA_URL
        )
    );
}

#[test]
fn a_header_without_an_envelope_is_summarised_at_once() {
    let header = small_header("n", &[1.0, 2.0, 3.0]);
    let size = header.len() as u32;
    let (session, _) = get("/fgb-parse");
    let (session, _) = step(session, fetched(&preamble(size)));
    let reply = reply_of(step(session, fetched(&header)));
    assert_eq!(
        text_of(&reply),
        format!(
            r#"{{"name":"n","geometry_type":0,"geometry_type_name":"Unknown","features_count":0,"index_node_size":16,"index_bytes_approx":40,"envelope":null,"crs":{{"org":"","code":0,"name":""}},"header_size":{},"url":"{}"}}"#,
            size, FGB_COUNTRIES_URL
        )
    );
}

#[test]
fn a_header_beyond_machine_integers_ends_the_session() {
    let mut header = small_header("n", &[]);
    header[12..16].copy_from_slice(&13i32.to_le_bytes());
    let (session, _) = get("/fgb-parse");
    let (session, _) = step(session, fetched(&preamble(header.len() as u32)));
    let (session, action) = step(session, fetched(&header));
    assert!(matches!(action, Action::Overflow));
    assert!(matches!(session.stage, Stage::Done));
}

#[test]
fn a_failed_range_request_is_propagated() {
    for uri in ["/fgb-head", "/fgb-parse"] {
        let (session, _) = get(uri);
        let (session, action) = step(session, Event::Failed { detail: "down".to_string() });
        assert!(matches!(action, Action::Propagate));
        assert!(matches!(session.stage, Stage::Done));
        let (session, _) = get(uri);
        let (session, _) = step(session, fetched(&preamble(604)));
        let (_, action) = step(session, Event::Failed { detail: "down".to_string() });
        assert!(matches!(action, Action::Propagate));
    }
}

#[test]
fn an_event_that_nothing_waits_for_ends_the_session() {
    for uri in ["/healthz", "/remote-metadata", "/fgb-head", "/fgb-parse"] {
        let (session, _) = get(uri);
        let (session, action) = step(session, Event::Formatted { decimals: Vec::new() });
        assert!(matches!(action, Action::Propagate));
        assert!(matches!(session.stage, Stage::Done));
    }
    let (session, _) = get("/healthz");
    let (session, action) = step(session, fetched(&preamble(604)));
    assert!(matches!(action, Action::Propagate));
    assert!(matches!(session.stage, Stage::Done));
}

#[test]
fn a_summary_with_odd_characters_is_json() {
    let header = small_header("\0a\u{1}b\u{200b}", &[f64::NAN, 1.9999999, f64::INFINITY, 2.0]);
    let size = header.len() as u32;
    let (session, _) = get("/fgb-parse");
    let (session, _) = step(session, fetched(&preamble(size)));
    let (session, action) = step(session, fetched(&header));
    let bits = match action {
        Action::Format { bits } => bits,
        _ => panic!("no numbers to write out"),
    };
    let decimals =
        bits.into_iter().map(|b| f64::from_bits(b).to_string()).collect::<Vec<String>>();
    let text = text_of(&reply_of(step(session, Event::Formatted { decimals })));
    assert!(text.starts_with("{\"name\":\"\\u0000a\\u0001b\u{200b}\",\"geometry_type\":0,"));
    assert!(text.contains("\"envelope\":[null,1.999999,null,2.000000],"));
}
