use metadata_function::uri::request_path;

#[test]
fn a_plain_path_is_kept() {
    assert_eq!(request_path("/healthz"), "/healthz");
    assert_eq!(request_path("/tilejson.json"), "/tilejson.json");
    assert_eq!(request_path(""), "");
}

#[test]
fn slashes_at_the_end_are_cut_off() {
    assert_eq!(request_path("/"), "");
    assert_eq!(request_path("///"), "");
    assert_eq!(request_path("/healthz/"), "/healthz");
    assert_eq!(request_path("/a//b//"), "/a//b");
}

#[test]
fn a_query_is_cut_off() {
    assert_eq!(request_path("/metadata?v=1"), "/metadata");
    assert_eq!(request_path("/metadata/?a=1?b=2"), "/metadata");
    assert_eq!(request_path("?"), "");
}

#[test]
fn scheme_and_host_are_cut_off() {
    assert_eq!(request_path("http://localhost:3000/healthz"), "/healthz");
    assert_eq!(request_path("https://example.com/fgb-head/?x=y"), "/fgb-head");
    assert_eq!(request_path("http://example.com/"), "");
}

#[test]
fn a_host_without_a_slash_leaves_the_uri_as_it_is() {
    assert_eq!(request_path("http://example.com"), "http://example.com");
}

#[test]
fn a_second_scheme_mark_ends_the_path() {
    assert_eq!(request_path("http://h/a/b://c/d"), "/a/b");
    assert_eq!(request_path("http://h/a?u=http://x/y"), "/a");
    assert_eq!(request_path("://h/a"), "/a");
}

#[test]
fn a_query_does_not_choose_the_path() {
    assert_eq!(request_path("/healthz?u=http://x/metadata"), "/healthz");
    assert_eq!(request_path("/healthz?next=http://x/fgb-parse"), "/healthz");
    assert_eq!(request_path("http://h/healthz?u=http://x/metadata"), "/healthz");
    assert_eq!(request_path("http://h?u=/metadata"), "http://h");
    assert_eq!(request_path("http://h?u=http://x/metadata"), "http://h");
    assert_eq!(request_path("?u=http://x/metadata"), "");
    assert_eq!(request_path("healthz?u=http://x/metadata"), "healthz");
}

#[test]
fn a_scheme_mark_inside_a_path_counts() {
    assert_eq!(request_path("/x://h/metadata"), "/metadata");
    assert_eq!(request_path("/a/http://x/metadata?q"), "/metadata");
    assert_eq!(request_path("a/b://c/d"), "/d");
    assert_eq!(request_path("/a://b/"), "");
    assert_eq!(request_path("/a://b"), "/a://b");
    assert_eq!(request_path("/a:/"), "/a:");
    assert_eq!(request_path("/a://"), "/a:");
}

#[test]
fn characters_beyond_ascii_are_kept_whole() {
    assert_eq!(request_path("http://h\u{f6}st/\u{e9}t\u{e9}/?q=\u{1f30d}"), "/\u{e9}t\u{e9}");
}
