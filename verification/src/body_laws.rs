//! What the texts that replies carry say, as it is read from them.

use vstd::prelude::*;

use crate::bodies;
use crate::fgb;
use crate::laws;
use crate::numbers;
use crate::reading;
use crate::reading::Token;
use crate::text;

verus! {

/// The tokens of a member whose value is one token.
pub open spec fn member(mark: char, name: Seq<char>, value: Token) -> Seq<Token> {
    reading::key(mark, name) + seq![value]
}

/// The tokens of a member whose value is a text.
pub open spec fn text_member(mark: char, name: Seq<char>, value: Seq<char>) -> Seq<Token> {
    member(mark, name, Token::Text(value))
}

/// The tokens of a member whose value is an integer.
pub open spec fn integer_member(mark: char, name: Seq<char>, value: int) -> Seq<Token> {
    member(mark, name, Token::Integer(value))
}

/// The token at the end of an object.
pub open spec fn close() -> Seq<Token> {
    seq![Token::Mark('}')]
}

/// A member that is written with a plain text.
proof fn lemma_word(
    p: Seq<char>,
    ts: Seq<Token>,
    lit: Seq<char>,
    mark: char,
    name: Seq<char>,
    word: Seq<char>,
)
    requires
        reading::is_read(p, ts),
        mark == '{' || mark == ',',
        reading::is_plain(name),
        reading::is_plain(word),
        lit == reading::key_text(mark, name) + reading::quote_text(word),
    ensures
        reading::is_read(p + lit, ts + text_member(mark, name, word)),
{
    reading::lemma_plain_is_read(word);
    let k = reading::key_text(mark, name);
    let v = reading::quote_text(word);
    reading::lemma_member(p, ts, k, mark, name, v, seq![Token::Text(word)]);
    assert(p + k + v =~= p + lit);
    assert(ts + reading::key(mark, name) + seq![Token::Text(word)] =~= ts + text_member(
        mark,
        name,
        word,
    ));
}

/// The first member of an object, written with a plain text.
proof fn lemma_first_word(lit: Seq<char>, name: Seq<char>, word: Seq<char>)
    requires
        reading::is_plain(name),
        reading::is_plain(word),
        lit == reading::key_text('{', name) + reading::quote_text(word),
    ensures
        reading::is_read(lit, text_member('{', name, word)),
{
    reading::lemma_nothing_is_read();
    lemma_word(seq![], seq![], lit, '{', name, word);
    assert(Seq::<char>::empty() + lit =~= lit);
    assert(Seq::<Token>::empty() + text_member('{', name, word) =~= text_member('{', name, word));
}

/// A member that is written with an integer, behind what stands in front of it.
proof fn lemma_number(
    p: Seq<char>,
    ts: Seq<Token>,
    lit: Seq<char>,
    mark: char,
    name: Seq<char>,
    n: nat,
)
    requires
        reading::is_read(p, ts),
        mark == '{' || mark == ',',
        reading::is_plain(name),
        lit == reading::key_text(mark, name),
    ensures
        reading::is_read(p + lit + text::decimal(n), ts + integer_member(mark, name, n as int)),
{
    reading::lemma_natural_is_read(n);
    let v = seq![Token::Integer(n as int)];
    reading::lemma_member(p, ts, lit, mark, name, text::decimal(n), v);
    assert(ts + reading::key(mark, name) + v =~= ts + integer_member(mark, name, n as int));
}

/// A member that is written with a text, behind what stands in front of it.
proof fn lemma_string(
    p: Seq<char>,
    ts: Seq<Token>,
    lit: Seq<char>,
    mark: char,
    name: Seq<char>,
    s: Seq<char>,
)
    requires
        reading::is_read(p, ts),
        mark == '{' || mark == ',',
        reading::is_plain(name),
        lit == reading::key_text(mark, name),
    ensures
        reading::is_read(p + lit + text::json_string(s), ts + text_member(mark, name, s)),
{
    reading::lemma_text_is_read(s);
    let v = seq![Token::Text(s)];
    reading::lemma_member(p, ts, lit, mark, name, text::json_string(s), v);
    assert(ts + reading::key(mark, name) + v =~= ts + text_member(mark, name, s));
}

/// The end of an object.
proof fn lemma_close(p: Seq<char>, ts: Seq<Token>)
    requires
        reading::is_read(p, ts),
    ensures
        reading::is_read(p + "}"@, ts + close()),
        reading::is_read("}"@, close()),
        "}"@ == seq!['}'],
{
    reveal_strlit("}");
    assert("}"@ =~= seq!['}']);
    reading::lemma_mark_is_read('}');
    reading::lemma_row(p, ts, seq!['}'], close());
}

/// The root names the service, its runtime, its version and its phase.
pub proof fn law_service_text()
    ensures
        reading::tokens(bodies::service_text()) == Some(
            text_member('{', "service"@, "metadata-function"@) + text_member(
                ',',
                "runtime"@,
                "Spin/Wasm"@,
            ) + text_member(',', "version"@, "0.1.0"@) + text_member(',', "phase"@, "0+1+2+4"@)
                + close(),
        ),
{
    reveal_strlit("service");
    reveal_strlit("metadata-function");
    reveal_strlit("runtime");
    reveal_strlit("Spin/Wasm");
    reveal_strlit("version");
    reveal_strlit("0.1.0");
    reveal_strlit("phase");
    reveal_strlit("0+1+2+4");
    reveal_strlit(
        r#"{"service":"metadata-function","runtime":"Spin/Wasm","version":"0.1.0","phase":"0+1+2+4"}"#,
    );
    let a = reading::key_text('{', "service"@) + reading::quote_text("metadata-function"@);
    let b = reading::key_text(',', "runtime"@) + reading::quote_text("Spin/Wasm"@);
    let c = reading::key_text(',', "version"@) + reading::quote_text("0.1.0"@);
    let d = reading::key_text(',', "phase"@) + reading::quote_text("0+1+2+4"@);
    let ta = text_member('{', "service"@, "metadata-function"@);
    let tb = ta + text_member(',', "runtime"@, "Spin/Wasm"@);
    let tc = tb + text_member(',', "version"@, "0.1.0"@);
    let td = tc + text_member(',', "phase"@, "0+1+2+4"@);
    lemma_first_word(a, "service"@, "metadata-function"@);
    lemma_word(a, ta, b, ',', "runtime"@, "Spin/Wasm"@);
    lemma_word(a + b, tb, c, ',', "version"@, "0.1.0"@);
    lemma_word(a + b + c, tc, d, ',', "phase"@, "0+1+2+4"@);
    lemma_close(a + b + c + d, td);
    assert(bodies::service_text() =~= a + b + c + d + "}"@);
    reading::lemma_read_alone(bodies::service_text(), td + close());
}

/// The health check says that all is well.
pub proof fn law_health_text()
    ensures
        reading::tokens(bodies::health_text()) == Some(
            text_member('{', "status"@, "ok"@) + close(),
        ),
{
    reveal_strlit("status");
    reveal_strlit("ok");
    reveal_strlit(r#"{"status":"ok"}"#);
    let a = reading::key_text('{', "status"@) + reading::quote_text("ok"@);
    lemma_first_word(a, "status"@, "ok"@);
    lemma_close(a, text_member('{', "status"@, "ok"@));
    assert(bodies::health_text() =~= a + "}"@);
    reading::lemma_read_alone(
        bodies::health_text(),
        text_member('{', "status"@, "ok"@) + close(),
    );
}

/// The text for an unknown path.
pub proof fn lemma_not_found_text()
    ensures
        reading::tokens(r#"{"error":"not found"}"#@) == Some(
            text_member('{', "error"@, "not found"@) + close(),
        ),
{
    reveal_strlit("error");
    reveal_strlit("not found");
    reveal_strlit(r#"{"error":"not found"}"#);
    let t = r#"{"error":"not found"}"#@;
    let a = reading::key_text('{', "error"@) + reading::quote_text("not found"@);
    lemma_first_word(a, "error"@, "not found"@);
    lemma_close(a, text_member('{', "error"@, "not found"@));
    assert(t =~= a + "}"@);
    reading::lemma_read_alone(t, text_member('{', "error"@, "not found"@) + close());
}

/// The environment shows the address, as it is quoted, and the target.
pub proof fn law_env_text(quoted_url: Seq<char>)
    ensures
        reading::embeds(
            bodies::env_text(quoted_url),
            reading::key('{', "spin_full_url"@),
            quoted_url,
            text_member(',', "wasm_target"@, "wasm32-wasip1"@) + close(),
        ),
{
    reveal_strlit("spin_full_url");
    reveal_strlit("wasm_target");
    reveal_strlit("wasm32-wasip1");
    reveal_strlit(r#"{"spin_full_url":"#);
    reveal_strlit(r#","wasm_target":"wasm32-wasip1"}"#);
    let front = r#"{"spin_full_url":"#@;
    let back = r#","wasm_target":"wasm32-wasip1"}"#@;
    assert(front =~= reading::key_text('{', "spin_full_url"@));
    reading::lemma_key_is_read(front, '{', "spin_full_url"@);
    reading::lemma_read_alone(front, reading::key('{', "spin_full_url"@));
    let a = reading::key_text(',', "wasm_target"@) + reading::quote_text("wasm32-wasip1"@);
    let ta = text_member(',', "wasm_target"@, "wasm32-wasip1"@);
    reading::lemma_nothing_is_read();
    lemma_word(seq![], seq![], a, ',', "wasm_target"@, "wasm32-wasip1"@);
    assert(Seq::<char>::empty() + a =~= a);
    assert(Seq::<Token>::empty() + ta =~= ta);
    lemma_close(a, ta);
    assert(back =~= a + "}"@);
    reading::lemma_read_alone(back, ta + close());
    assert(reading::is_made_of(bodies::env_text(quoted_url), front, quoted_url, back));
}

/// A refused request is answered with its description and its address, as they are quoted.
pub proof fn law_outbound_denied_text(quoted_detail: Seq<char>, quoted_url: Seq<char>)
    ensures
        reading::embeds_both(
            bodies::outbound_denied_text(quoted_detail, quoted_url),
            text_member('{', "error"@, "outbound_denied"@) + reading::key(',', "detail"@),
            quoted_detail,
            reading::key(',', "url"@),
            quoted_url,
            close(),
        ),
{
    reveal_strlit("error");
    reveal_strlit("outbound_denied");
    reveal_strlit("detail");
    reveal_strlit(r#"{"error":"outbound_denied","detail":"#);
    let front = r#"{"error":"outbound_denied","detail":"#@;
    let a = reading::key_text('{', "error"@) + reading::quote_text("outbound_denied"@);
    let b = reading::key_text(',', "detail"@);
    let ta = text_member('{', "error"@, "outbound_denied"@);
    lemma_first_word(a, "error"@, "outbound_denied"@);
    reading::lemma_key_is_read(b, ',', "detail"@);
    reading::lemma_row(a, ta, b, reading::key(',', "detail"@));
    assert(front =~= a + b);
    reading::lemma_read_alone(front, ta + reading::key(',', "detail"@));
    lemma_url_key();
    reading::lemma_read_alone(r#","url":"#@, reading::key(',', "url"@));
    reading::lemma_nothing_is_read();
    lemma_close(seq![], seq![]);
    reading::lemma_read_alone("}"@, close());
    assert(reading::is_made_of_five(
        bodies::outbound_denied_text(quoted_detail, quoted_url),
        front,
        quoted_detail,
        r#","url":"#@,
        quoted_url,
        "}"@,
    ));
}

/// The name of the member that holds an address.
proof fn lemma_url_key()
    ensures
        r#","url":"#@ == reading::key_text(',', "url"@),
        reading::is_plain("url"@),
        reading::is_read(r#","url":"#@, reading::key(',', "url"@)),
{
    reveal_strlit("url");
    reveal_strlit(r#","url":"#);
    assert(r#","url":"#@ =~= reading::key_text(',', "url"@));
    reading::lemma_key_is_read(r#","url":"#@, ',', "url"@);
}

/// An address at the end of a text, behind what stands in front of it.
proof fn lemma_ends_in_url(t: Seq<char>, p: Seq<char>, ts: Seq<Token>, quoted_url: Seq<char>)
    requires
        reading::is_read(p, ts),
        t == p + r#","url":"#@ + quoted_url + "}"@,
    ensures
        reading::embeds(t, ts + reading::key(',', "url"@), quoted_url, close()),
{
    lemma_url_key();
    let front = p + r#","url":"#@;
    reading::lemma_row(p, ts, r#","url":"#@, reading::key(',', "url"@));
    reading::lemma_read_alone(front, ts + reading::key(',', "url"@));
    lemma_close(p, ts);
    reading::lemma_read_alone("}"@, close());
    assert(reading::is_made_of(t, front, quoted_url, "}"@));
}

/// A file that is too short is answered with the number of its bytes and its address.
pub proof fn law_short_response_text(got: nat, quoted_url: Seq<char>)
    ensures
        reading::embeds(
            bodies::short_response_text(got, quoted_url),
            text_member('{', "error"@, "short_response"@) + integer_member(
                ',',
                "got"@,
                got as int,
            ) + reading::key(',', "url"@),
            quoted_url,
            close(),
        ),
{
    reveal_strlit("error");
    reveal_strlit("short_response");
    reveal_strlit("got");
    reveal_strlit(r#"{"error":"short_response","got":"#);
    let a = reading::key_text('{', "error"@) + reading::quote_text("short_response"@);
    let ta = text_member('{', "error"@, "short_response"@);
    lemma_first_word(a, "error"@, "short_response"@);
    lemma_number(a, ta, reading::key_text(',', "got"@), ',', "got"@, got);
    assert(r#"{"error":"short_response","got":"#@ =~= a + reading::key_text(',', "got"@));
    lemma_ends_in_url(
        bodies::short_response_text(got, quoted_url),
        a + reading::key_text(',', "got"@) + text::decimal(got),
        ta + integer_member(',', "got"@, got as int),
        quoted_url,
    );
}

/// A file that is too short is answered with the number of its bytes.
pub proof fn law_short_preamble_text(got: nat)
    ensures
        reading::tokens(bodies::short_preamble_text(got)) == Some(
            text_member('{', "error"@, "short_preamble"@) + integer_member(
                ',',
                "got"@,
                got as int,
            ) + close(),
        ),
{
    reveal_strlit("error");
    reveal_strlit("short_preamble");
    reveal_strlit("got");
    reveal_strlit(r#"{"error":"short_preamble","got":"#);
    let a = reading::key_text('{', "error"@) + reading::quote_text("short_preamble"@);
    let k = reading::key_text(',', "got"@);
    let ta = text_member('{', "error"@, "short_preamble"@);
    let tb = ta + integer_member(',', "got"@, got as int);
    lemma_first_word(a, "error"@, "short_preamble"@);
    lemma_number(a, ta, k, ',', "got"@, got);
    lemma_close(a + k + text::decimal(got), tb);
    assert(r#"{"error":"short_preamble","got":"#@ =~= a + k);
    reading::lemma_read_alone(bodies::short_preamble_text(got), tb + close());
}

/// A header of which bytes are missing is answered with the number of bytes that it has and of
/// those that came.
pub proof fn law_incomplete_header_text(expected: nat, got: nat)
    ensures
        reading::tokens(bodies::incomplete_header_text(expected, got)) == Some(
            text_member('{', "error"@, "incomplete_header"@) + integer_member(
                ',',
                "expected"@,
                expected as int,
            ) + integer_member(',', "got"@, got as int) + close(),
        ),
{
    reveal_strlit("error");
    reveal_strlit("incomplete_header");
    reveal_strlit("expected");
    reveal_strlit("got");
    reveal_strlit(r#"{"error":"incomplete_header","expected":"#);
    reveal_strlit(r#","got":"#);
    let a = reading::key_text('{', "error"@) + reading::quote_text("incomplete_header"@);
    let k = reading::key_text(',', "expected"@);
    let ta = text_member('{', "error"@, "incomplete_header"@);
    let tb = ta + integer_member(',', "expected"@, expected as int);
    let tc = tb + integer_member(',', "got"@, got as int);
    lemma_first_word(a, "error"@, "incomplete_header"@);
    lemma_number(a, ta, k, ',', "expected"@, expected);
    assert(r#"{"error":"incomplete_header","expected":"#@ =~= a + k);
    assert(r#","got":"#@ =~= reading::key_text(',', "got"@));
    let p = a + k + text::decimal(expected);
    lemma_number(p, tb, r#","got":"#@, ',', "got"@, got);
    lemma_close(p + r#","got":"#@ + text::decimal(got), tc);
    reading::lemma_read_alone(bodies::incomplete_header_text(expected, got), tc + close());
}

/// The start of a text that tells of foreign bytes: the bytes in hexadecimal digits.
proof fn lemma_bad_magic(magic: Seq<u8>) -> (p: Seq<char>)
    ensures
        p == r#"{"error":"bad_magic","hex":""#@ + text::hex_text(magic) + seq!['"'],
        reading::is_read(
            p,
            text_member('{', "error"@, "bad_magic"@) + text_member(
                ',',
                "hex"@,
                text::hex_text(magic),
            ),
        ),
{
    reveal_strlit("error");
    reveal_strlit("bad_magic");
    reveal_strlit("hex");
    reveal_strlit(r#"{"error":"bad_magic","hex":""#);
    let hex = text::hex_text(magic);
    let a = reading::key_text('{', "error"@) + reading::quote_text("bad_magic"@);
    let b = reading::key_text(',', "hex"@) + reading::quote_text(hex);
    reading::law_hex_reads_back(magic);
    assert(reading::is_plain(hex));
    lemma_first_word(a, "error"@, "bad_magic"@);
    lemma_word(a, text_member('{', "error"@, "bad_magic"@), b, ',', "hex"@, hex);
    assert(r#"{"error":"bad_magic","hex":""#@ =~= a + reading::key_text(',', "hex"@) + seq!['"']);
    assert(a + b =~= r#"{"error":"bad_magic","hex":""#@ + hex + seq!['"']);
    a + b
}

/// A foreign file is answered with its first bytes in hexadecimal digits.
pub proof fn law_bad_magic_text(magic: Seq<u8>)
    ensures
        reading::tokens(bodies::bad_magic_text(magic)) == Some(
            text_member('{', "error"@, "bad_magic"@) + text_member(
                ',',
                "hex"@,
                text::hex_text(magic),
            ) + close(),
        ),
        reading::is_hex_of(text::hex_text(magic), magic),
{
    reading::law_hex_reads_back(magic);
    reveal_strlit(r#""}"#);
    let p = lemma_bad_magic(magic);
    let ts = text_member('{', "error"@, "bad_magic"@) + text_member(
        ',',
        "hex"@,
        text::hex_text(magic),
    );
    lemma_close(p, ts);
    assert(bodies::bad_magic_text(magic) =~= p + "}"@);
    reading::lemma_read_alone(bodies::bad_magic_text(magic), ts + close());
}

/// A foreign file is answered with its first bytes in hexadecimal digits and its address.
pub proof fn law_bad_magic_at_text(magic: Seq<u8>, quoted_url: Seq<char>)
    ensures
        reading::embeds(
            bodies::bad_magic_at_text(magic, quoted_url),
            text_member('{', "error"@, "bad_magic"@) + text_member(
                ',',
                "hex"@,
                text::hex_text(magic),
            ) + reading::key(',', "url"@),
            quoted_url,
            close(),
        ),
        reading::is_hex_of(text::hex_text(magic), magic),
{
    reading::law_hex_reads_back(magic);
    reveal_strlit(r#"","url":"#);
    reveal_strlit(r#","url":"#);
    let p = lemma_bad_magic(magic);
    assert(r#"","url":"#@ =~= seq!['"'] + r#","url":"#@);
    assert(bodies::bad_magic_at_text(magic, quoted_url) =~= p + r#","url":"#@ + quoted_url + "}"@);
    lemma_ends_in_url(
        bodies::bad_magic_at_text(magic, quoted_url),
        p,
        text_member('{', "error"@, "bad_magic"@) + text_member(
            ',',
            "hex"@,
            text::hex_text(magic),
        ),
        quoted_url,
    );
}

/// The head of a file shows its padding, the size of its header, the position of its root, the
/// number of bytes that came, and its address.
pub proof fn law_head_text(
    padding: u8,
    header_size: u32,
    fb_root_offset: nat,
    fetched: nat,
    quoted_url: Seq<char>,
)
    ensures
        reading::embeds(
            bodies::head_text(padding, header_size, fb_root_offset, fetched, quoted_url),
            text_member('{', "magic"@, "fgb"@) + integer_member(',', "version"@, 3)
                + integer_member(',', "padding"@, padding as int) + integer_member(
                ',',
                "header_size"@,
                header_size as int,
            ) + integer_member(',', "fb_root_offset"@, fb_root_offset as int) + integer_member(
                ',',
                "header_bytes_fetched"@,
                fetched as int,
            ) + reading::key(',', "url"@),
            quoted_url,
            close(),
        ),
{
    let (p1, t1) = lemma_head_start(padding);
    lemma_head_names();
    let t2 = t1 + integer_member(',', "header_size"@, header_size as int);
    let t3 = t2 + integer_member(',', "fb_root_offset"@, fb_root_offset as int);
    let t4 = t3 + integer_member(',', "header_bytes_fetched"@, fetched as int);
    lemma_number(p1, t1, r#","header_size":"#@, ',', "header_size"@, header_size as nat);
    let p2 = p1 + r#","header_size":"#@ + text::decimal(header_size as nat);
    lemma_number(p2, t2, r#","fb_root_offset":"#@, ',', "fb_root_offset"@, fb_root_offset);
    let p3 = p2 + r#","fb_root_offset":"#@ + text::decimal(fb_root_offset);
    lemma_number(
        p3,
        t3,
        r#","header_bytes_fetched":"#@,
        ',',
        "header_bytes_fetched"@,
        fetched,
    );
    let p4 = p3 + r#","header_bytes_fetched":"#@ + text::decimal(fetched);
    lemma_ends_in_url(
        bodies::head_text(padding, header_size, fb_root_offset, fetched, quoted_url),
        p4,
        t4,
        quoted_url,
    );
}

proof fn lemma_head_names()
    ensures
        r#","header_size":"#@ == reading::key_text(',', "header_size"@),
        r#","fb_root_offset":"#@ == reading::key_text(',', "fb_root_offset"@),
        r#","header_bytes_fetched":"#@ == reading::key_text(',', "header_bytes_fetched"@),
        reading::is_plain("header_size"@),
        reading::is_plain("fb_root_offset"@),
        reading::is_plain("header_bytes_fetched"@),
{
    reveal_strlit("header_size");
    reveal_strlit("fb_root_offset");
    reveal_strlit("header_bytes_fetched");
    reveal_strlit(r#","header_size":"#);
    reveal_strlit(r#","fb_root_offset":"#);
    reveal_strlit(r#","header_bytes_fetched":"#);
    assert(r#","header_size":"#@ =~= reading::key_text(',', "header_size"@));
    assert(r#","fb_root_offset":"#@ =~= reading::key_text(',', "fb_root_offset"@));
    assert(r#","header_bytes_fetched":"#@ =~= reading::key_text(',', "header_bytes_fetched"@));
}

proof fn lemma_head_start(padding: u8) -> (r: (Seq<char>, Seq<Token>))
    ensures
        r.0 == r#"{"magic":"fgb","version":3,"padding":"#@ + text::decimal(padding as nat),
        r.1 == text_member('{', "magic"@, "fgb"@) + integer_member(',', "version"@, 3)
            + integer_member(',', "padding"@, padding as int),
        reading::is_read(r.0, r.1),
{
    reveal_strlit("magic");
    reveal_strlit("fgb");
    reveal_strlit("version");
    reveal_strlit("padding");
    reveal_strlit(r#"{"magic":"fgb","version":3,"padding":"#);
    let a = reading::key_text('{', "magic"@) + reading::quote_text("fgb"@);
    let b = reading::key_text(',', "version"@);
    let c = reading::key_text(',', "padding"@);
    let ta = text_member('{', "magic"@, "fgb"@);
    let tb = ta + integer_member(',', "version"@, 3);
    lemma_first_word(a, "magic"@, "fgb"@);
    lemma_number(a, ta, b, ',', "version"@, 3);
    assert(text::decimal(3) =~= seq!['3']);
    lemma_number(a + b + text::decimal(3), tb, c, ',', "padding"@, padding as nat);
    assert(r#"{"magic":"fgb","version":3,"padding":"#@ =~= a + b + seq!['3'] + c);
    (
        a + b + text::decimal(3) + c + text::decimal(padding as nat),
        tb + integer_member(',', "padding"@, padding as int),
    )
}

/// The bit pattern is that of a finite double: its magnitude lies below that of infinity.
pub open spec fn is_finite_double(bits: u64) -> bool {
    bits < 0x7ff0_0000_0000_0000 || 0x8000_0000_0000_0000 <= bits < 0xfff0_0000_0000_0000
}

/// A double is written as a number if and only if it is finite.
pub proof fn law_only_finite_doubles_are_numbers(bits: u64)
    ensures
        numbers::is_finite(bits) <==> is_finite_double(bits),
{
}

/// `s` is made of digits, signs and points.
pub open spec fn is_number_text(s: Seq<char>) -> bool {
    s.len() > 0 && forall|i: int| 0 <= i < s.len() ==> reading::is_number_char(#[trigger] s[i])
}

/// `written` is `decimal` cut off behind its sixth decimal place, or filled up to there with
/// zeros: it agrees with `decimal` as far as both go, has its first point seven characters in
/// front of its end, where `decimal` has its own or ends, and has zeros for what `decimal` lacks.
pub open spec fn is_cut_to_six(decimal: Seq<char>, written: Seq<char>) -> bool {
    let point = written.len() - 7;
    &&& 0 <= point
    &&& written[point] == '.'
    &&& point < decimal.len() ==> decimal[point] == '.'
    &&& point <= decimal.len()
    &&& forall|i: int| 0 <= i < point ==> (#[trigger] decimal[i]) != '.'
    &&& forall|i: int|
        0 <= i < written.len() && i != point ==> (#[trigger] written[i]) == if i < decimal.len() {
            decimal[i]
        } else {
            '0'
        }
}

/// A decimal is cut off, not rounded, and filled up with zeros.
pub proof fn law_six_decimals(decimal: Seq<char>)
    ensures
        is_cut_to_six(decimal, numbers::six_decimals(decimal)),
{
    laws::law_decimals_are_cut_off(decimal);
    laws::lemma_found_char(decimal, '.');
    let written = numbers::six_decimals(decimal);
    assert forall|i: int| 0 <= i < written.len() - 7 implies (#[trigger] decimal[i]) != '.' by {
        assert(decimal.contains(decimal[i]));
    }
}

/// A finite double is written as its decimal, cut off or filled up to six places, and any other
/// as nothing.
pub proof fn law_doubles_in_json(bits: u64, decimal: Seq<char>)
    ensures
        is_finite_double(bits) ==> is_cut_to_six(decimal, numbers::json_number(bits, decimal)),
        !is_finite_double(bits) ==> numbers::json_number(bits, decimal) == seq![
            'n',
            'u',
            'l',
            'l',
        ],
{
    law_only_finite_doubles_are_numbers(bits);
    law_six_decimals(decimal);
    reveal_strlit("null");
    assert("null"@ =~= seq!['n', 'u', 'l', 'l']);
}

/// The token of a double.
pub open spec fn number_token(bits: u64, decimal: Seq<char>) -> Token {
    if is_finite_double(bits) {
        Token::Decimal(numbers::six_decimals(decimal))
    } else {
        Token::Null
    }
}

/// The tokens of an envelope: its first four numbers, in their order, or nothing.
pub open spec fn envelope_tokens(bits: Seq<u64>, decimals: Seq<Seq<char>>) -> Seq<Token> {
    if bits.len() < 4 || decimals.len() < 4 {
        seq![Token::Null]
    } else {
        seq![
            Token::Mark('['),
            number_token(bits[0], decimals[0]),
            Token::Mark(','),
            number_token(bits[1], decimals[1]),
            Token::Mark(','),
            number_token(bits[2], decimals[2]),
            Token::Mark(','),
            number_token(bits[3], decimals[3]),
            Token::Mark(']'),
        ]
    }
}

/// The decimals of an envelope are those of numbers.
pub open spec fn are_decimals(bits: Seq<u64>, decimals: Seq<Seq<char>>) -> bool {
    forall|i: int|
        0 <= i < 4 && i < bits.len() && i < decimals.len() && is_finite_double(bits[i])
            ==> is_number_text(#[trigger] decimals[i])
}

proof fn lemma_json_number(bits: u64, decimal: Seq<char>)
    requires
        is_finite_double(bits) ==> is_number_text(decimal),
    ensures
        reading::is_read(numbers::json_number(bits, decimal), seq![number_token(bits, decimal)]),
{
    law_only_finite_doubles_are_numbers(bits);
    if is_finite_double(bits) {
        let written = numbers::six_decimals(decimal);
        law_six_decimals(decimal);
        assert(written.contains(written[written.len() - 7]));
        assert forall|i: int| 0 <= i < written.len() implies reading::is_number_char(
            #[trigger] written[i],
        ) by {
            if i < decimal.len() && i != written.len() - 7 {
                assert(reading::is_number_char(decimal[i]));
            }
        }
        reading::lemma_decimal_is_read(written);
    } else {
        reveal_strlit("null");
        assert("null"@ =~= seq!['n', 'u', 'l', 'l']);
        reading::lemma_null_is_read("null"@);
    }
}

/// A number of an envelope, behind a mark.
proof fn lemma_envelope_number(
    p: Seq<char>,
    ts: Seq<Token>,
    mark: char,
    bits: u64,
    decimal: Seq<char>,
)
    requires
        reading::is_read(p, ts),
        mark == '[' || mark == ',',
        is_finite_double(bits) ==> is_number_text(decimal),
    ensures
        reading::is_read(
            p + seq![mark] + numbers::json_number(bits, decimal),
            ts + seq![Token::Mark(mark), number_token(bits, decimal)],
        ),
{
    let v = numbers::json_number(bits, decimal);
    let tv = seq![number_token(bits, decimal)];
    let tm = seq![Token::Mark(mark)];
    lemma_json_number(bits, decimal);
    assert forall|rest: Seq<char>|
        rest.len() == 0 || !reading::is_number_char(rest[0]) implies #[trigger] reading::reads(
        seq![mark] + v,
        tm + tv,
        rest,
    ) by {
        reading::lemma_mark(mark, v + rest);
        assert(reading::reads(v, tv, rest));
        reading::lemma_join(seq![mark], tm, v, tv, rest);
    }
    reading::lemma_row(p, ts, seq![mark] + v, tm + tv);
    assert(p + (seq![mark] + v) =~= p + seq![mark] + v);
    assert(ts + (tm + tv) =~= ts + seq![Token::Mark(mark), number_token(bits, decimal)]);
}

/// An envelope is read as its first four numbers, in their order.
pub proof fn law_envelope_text(bits: Seq<u64>, decimals: Seq<Seq<char>>)
    requires
        are_decimals(bits, decimals),
    ensures
        reading::tokens(bodies::envelope_text(bits, decimals)) == Some(
            envelope_tokens(bits, decimals),
        ),
        reading::is_read(bodies::envelope_text(bits, decimals), envelope_tokens(bits, decimals)),
{
    let t = bodies::envelope_text(bits, decimals);
    if bits.len() < 4 || decimals.len() < 4 {
        reveal_strlit("null");
        assert("null"@ =~= seq!['n', 'u', 'l', 'l']);
        reading::lemma_null_is_read("null"@);
    } else {
        reveal_strlit("[");
        reveal_strlit(",");
        reveal_strlit("]");
        assert("["@ =~= seq!['[']);
        assert(","@ =~= seq![',']);
        assert("]"@ =~= seq![']']);
        let p0 = Seq::<char>::empty();
        let t0 = Seq::<Token>::empty();
        let p1 = p0 + "["@ + numbers::json_number(bits[0], decimals[0]);
        let t1 = t0 + seq![Token::Mark('['), number_token(bits[0], decimals[0])];
        let p2 = p1 + ","@ + numbers::json_number(bits[1], decimals[1]);
        let t2 = t1 + seq![Token::Mark(','), number_token(bits[1], decimals[1])];
        let p3 = p2 + ","@ + numbers::json_number(bits[2], decimals[2]);
        let t3 = t2 + seq![Token::Mark(','), number_token(bits[2], decimals[2])];
        let p4 = p3 + ","@ + numbers::json_number(bits[3], decimals[3]);
        let t4 = t3 + seq![Token::Mark(','), number_token(bits[3], decimals[3])];
        reading::lemma_nothing_is_read();
        lemma_envelope_number(p0, t0, '[', bits[0], decimals[0]);
        lemma_envelope_number(p1, t1, ',', bits[1], decimals[1]);
        lemma_envelope_number(p2, t2, ',', bits[2], decimals[2]);
        lemma_envelope_number(p3, t3, ',', bits[3], decimals[3]);
        reading::lemma_mark_is_read(']');
        reading::lemma_row(p4, t4, seq![']'], seq![Token::Mark(']')]);
        assert(p0 + "["@ =~= "["@);
        assert(t == p4 + "]"@);
        assert(t4 + seq![Token::Mark(']')] =~= envelope_tokens(bits, decimals));
    }
    reading::lemma_read_alone(t, envelope_tokens(bits, decimals));
}

/// The tokens of what a header says of its file.
pub open spec fn summary_tokens(
    header: fgb::HeaderView,
    geometry_type_name: Seq<char>,
    header_size: u32,
    decimals: Seq<Seq<char>>,
    url: Seq<char>,
) -> Seq<Token> {
    text_member('{', "name"@, header.name) + integer_member(
        ',',
        "geometry_type"@,
        header.geometry_type as int,
    ) + text_member(',', "geometry_type_name"@, geometry_type_name) + integer_member(
        ',',
        "features_count"@,
        header.features_count as int,
    ) + integer_member(',', "index_node_size"@, header.index_node_size as int) + integer_member(
        ',',
        "index_bytes_approx"@,
        header.index_bytes_approx as int,
    ) + reading::key(',', "envelope"@) + envelope_tokens(header.envelope, decimals)
        + reading::key(',', "crs"@) + text_member('{', "org"@, header.crs_org) + integer_member(
        ',',
        "code"@,
        header.crs_code as int,
    ) + text_member(',', "name"@, header.crs_name) + close() + integer_member(
        ',',
        "header_size"@,
        header_size as int,
    ) + text_member(',', "url"@, url) + close()
}

/// Reading the summary of a header gives each field of the header back.
pub proof fn law_summary_reads_back(
    header: fgb::HeaderView,
    header_size: u32,
    decimals: Seq<Seq<char>>,
    url: Seq<char>,
)
    requires
        are_decimals(header.envelope, decimals),
    ensures
        reading::tokens(bodies::header_text(header, header_size, decimals, url)) == Some(
            summary_tokens(
                header,
                fgb::geometry_name(header.geometry_type),
                header_size,
                decimals,
                url,
            ),
        ),
{
    let (p1, t1) = lemma_summary_numbers(header);
    let (p2, t2) = lemma_summary_places(header, decimals, p1, t1);
    lemma_summary_end(header_size, url, p2, t2);
    reading::lemma_read_alone(
        bodies::header_text(header, header_size, decimals, url),
        summary_tokens(
            header,
            fgb::geometry_name(header.geometry_type),
            header_size,
            decimals,
            url,
        ),
    );
}

/// The end of the summary, behind what stands in front of it.
proof fn lemma_summary_end(header_size: u32, url: Seq<char>, p: Seq<char>, ts: Seq<Token>)
    requires
        reading::is_read(p, ts),
    ensures
        reading::is_read(
            p + r#"},"header_size":"#@ + text::decimal(header_size as nat) + r#","url":"#@
                + text::json_string(url) + "}"@,
            ts + close() + integer_member(',', "header_size"@, header_size as int) + text_member(
                ',',
                "url"@,
                url,
            ) + close(),
        ),
{
    lemma_head_names();
    lemma_url_key();
    lemma_close(p, ts);
    let p1 = p + "}"@;
    let t1 = ts + close();
    lemma_number(p1, t1, r#","header_size":"#@, ',', "header_size"@, header_size as nat);
    reveal_strlit(r#"},"header_size":"#);
    reveal_strlit(r#","header_size":"#);
    assert(r#"},"header_size":"#@ =~= "}"@ + r#","header_size":"#@);
    assert(p + r#"},"header_size":"#@ =~= p1 + r#","header_size":"#@);
    let p2 = p + r#"},"header_size":"#@ + text::decimal(header_size as nat);
    let t2 = t1 + integer_member(',', "header_size"@, header_size as int);
    lemma_string(p2, t2, r#","url":"#@, ',', "url"@, url);
    lemma_close(p2 + r#","url":"#@ + text::json_string(url), t2 + text_member(',', "url"@, url));
}

/// The summary up to the size of the index.
proof fn lemma_summary_numbers(header: fgb::HeaderView) -> (r: (Seq<char>, Seq<Token>))
    ensures
        r.0 == r#"{"name":"#@ + text::json_string(header.name) + r#","geometry_type":"#@
            + text::decimal(header.geometry_type as nat) + r#","geometry_type_name":"#@
            + text::json_string(fgb::geometry_name(header.geometry_type))
            + r#","features_count":"#@ + text::decimal(header.features_count as nat)
            + r#","index_node_size":"#@ + text::decimal(header.index_node_size as nat)
            + r#","index_bytes_approx":"#@ + text::decimal(header.index_bytes_approx as nat),
        r.1 == text_member('{', "name"@, header.name) + integer_member(
            ',',
            "geometry_type"@,
            header.geometry_type as int,
        ) + text_member(
            ',',
            "geometry_type_name"@,
            fgb::geometry_name(header.geometry_type),
        ) + integer_member(',', "features_count"@, header.features_count as int)
            + integer_member(',', "index_node_size"@, header.index_node_size as int)
            + integer_member(',', "index_bytes_approx"@, header.index_bytes_approx as int),
        reading::is_read(r.0, r.1),
{
    let name = fgb::geometry_name(header.geometry_type);
    lemma_summary_names();
    reading::lemma_text_is_read(header.name);
    let v = text::json_string(header.name);
    reading::lemma_first_member(r#"{"name":"#@, "name"@, v, seq![Token::Text(header.name)]);
    let p1 = r#"{"name":"#@ + v;
    let t1 = text_member('{', "name"@, header.name);
    lemma_number(
        p1,
        t1,
        r#","geometry_type":"#@,
        ',',
        "geometry_type"@,
        header.geometry_type as nat,
    );
    let p2 = p1 + r#","geometry_type":"#@ + text::decimal(header.geometry_type as nat);
    let t2 = t1 + integer_member(',', "geometry_type"@, header.geometry_type as int);
    lemma_string(p2, t2, r#","geometry_type_name":"#@, ',', "geometry_type_name"@, name);
    let p3 = p2 + r#","geometry_type_name":"#@ + text::json_string(name);
    let t3 = t2 + text_member(',', "geometry_type_name"@, name);
    lemma_number(
        p3,
        t3,
        r#","features_count":"#@,
        ',',
        "features_count"@,
        header.features_count as nat,
    );
    let p4 = p3 + r#","features_count":"#@ + text::decimal(header.features_count as nat);
    let t4 = t3 + integer_member(',', "features_count"@, header.features_count as int);
    lemma_number(
        p4,
        t4,
        r#","index_node_size":"#@,
        ',',
        "index_node_size"@,
        header.index_node_size as nat,
    );
    let p5 = p4 + r#","index_node_size":"#@ + text::decimal(header.index_node_size as nat);
    let t5 = t4 + integer_member(',', "index_node_size"@, header.index_node_size as int);
    lemma_number(
        p5,
        t5,
        r#","index_bytes_approx":"#@,
        ',',
        "index_bytes_approx"@,
        header.index_bytes_approx as nat,
    );
    (
        p5 + r#","index_bytes_approx":"#@ + text::decimal(header.index_bytes_approx as nat),
        t5 + integer_member(',', "index_bytes_approx"@, header.index_bytes_approx as int),
    )
}

/// The envelope and the reference system of the summary, behind what stands in front of them.
proof fn lemma_summary_places(
    header: fgb::HeaderView,
    decimals: Seq<Seq<char>>,
    p: Seq<char>,
    ts: Seq<Token>,
) -> (r: (Seq<char>, Seq<Token>))
    requires
        reading::is_read(p, ts),
        are_decimals(header.envelope, decimals),
    ensures
        r.0 == p + r#","envelope":"#@ + bodies::envelope_text(header.envelope, decimals)
            + r#","crs":{"org":"#@ + text::json_string(header.crs_org) + r#","code":"#@
            + text::signed_decimal(header.crs_code as int) + r#","name":"#@ + text::json_string(
            header.crs_name,
        ),
        r.1 == ts + reading::key(',', "envelope"@) + envelope_tokens(header.envelope, decimals)
            + reading::key(',', "crs"@) + text_member('{', "org"@, header.crs_org)
            + integer_member(',', "code"@, header.crs_code as int) + text_member(
            ',',
            "name"@,
            header.crs_name,
        ),
        reading::is_read(r.0, r.1),
{
    lemma_summary_names();
    let env = bodies::envelope_text(header.envelope, decimals);
    let tenv = envelope_tokens(header.envelope, decimals);
    law_envelope_text(header.envelope, decimals);
    reading::lemma_member(p, ts, r#","envelope":"#@, ',', "envelope"@, env, tenv);
    let p1 = p + r#","envelope":"#@ + env;
    let t1 = ts + reading::key(',', "envelope"@) + tenv;
    let crs = reading::key_text(',', "crs"@);
    let org = reading::key_text('{', "org"@);
    reading::lemma_key_is_read(crs, ',', "crs"@);
    reading::lemma_row(p1, t1, crs, reading::key(',', "crs"@));
    lemma_string(p1 + crs, t1 + reading::key(',', "crs"@), org, '{', "org"@, header.crs_org);
    assert(p1 + (crs + org) =~= p1 + crs + org);
    let p2 = p1 + r#","crs":{"org":"#@ + text::json_string(header.crs_org);
    let t2 = t1 + reading::key(',', "crs"@) + text_member('{', "org"@, header.crs_org);
    let code = text::signed_decimal(header.crs_code as int);
    let tcode = seq![Token::Integer(header.crs_code as int)];
    reading::lemma_integer_is_read(header.crs_code as int);
    reading::lemma_member(p2, t2, r#","code":"#@, ',', "code"@, code, tcode);
    let p3 = p2 + r#","code":"#@ + code;
    let t3 = t2 + integer_member(',', "code"@, header.crs_code as int);
    assert(t2 + reading::key(',', "code"@) + tcode =~= t3);
    lemma_string(p3, t3, r#","name":"#@, ',', "name"@, header.crs_name);
    (
        p3 + r#","name":"#@ + text::json_string(header.crs_name),
        t3 + text_member(',', "name"@, header.crs_name),
    )
}

/// The names of the members of the summary.
proof fn lemma_summary_names()
    ensures
        r#"{"name":"#@ == reading::key_text('{', "name"@),
        r#","geometry_type":"#@ == reading::key_text(',', "geometry_type"@),
        r#","geometry_type_name":"#@ == reading::key_text(',', "geometry_type_name"@),
        r#","features_count":"#@ == reading::key_text(',', "features_count"@),
        r#","index_node_size":"#@ == reading::key_text(',', "index_node_size"@),
        r#","index_bytes_approx":"#@ == reading::key_text(',', "index_bytes_approx"@),
        r#","envelope":"#@ == reading::key_text(',', "envelope"@),
        r#","crs":{"org":"#@ == reading::key_text(',', "crs"@) + reading::key_text(
            '{',
            "org"@,
        ),
        r#","code":"#@ == reading::key_text(',', "code"@),
        r#","name":"#@ == reading::key_text(',', "name"@),
        reading::is_plain("name"@),
        reading::is_plain("geometry_type"@),
        reading::is_plain("geometry_type_name"@),
        reading::is_plain("features_count"@),
        reading::is_plain("index_node_size"@),
        reading::is_plain("index_bytes_approx"@),
        reading::is_plain("envelope"@),
        reading::is_plain("crs"@),
        reading::is_plain("org"@),
        reading::is_plain("code"@),
{
    reveal_strlit("name");
    reveal_strlit("geometry_type");
    reveal_strlit("geometry_type_name");
    reveal_strlit("features_count");
    reveal_strlit("index_node_size");
    reveal_strlit("index_bytes_approx");
    reveal_strlit("envelope");
    reveal_strlit("crs");
    reveal_strlit("org");
    reveal_strlit("code");
    reveal_strlit(r#"{"name":"#);
    reveal_strlit(r#","geometry_type":"#);
    reveal_strlit(r#","geometry_type_name":"#);
    reveal_strlit(r#","features_count":"#);
    reveal_strlit(r#","index_node_size":"#);
    reveal_strlit(r#","index_bytes_approx":"#);
    reveal_strlit(r#","envelope":"#);
    reveal_strlit(r#","crs":{"org":"#);
    reveal_strlit(r#","code":"#);
    reveal_strlit(r#","name":"#);
    assert(r#"{"name":"#@ =~= reading::key_text('{', "name"@));
    assert(r#","geometry_type":"#@ =~= reading::key_text(',', "geometry_type"@));
    assert(r#","geometry_type_name":"#@ =~= reading::key_text(',', "geometry_type_name"@));
    assert(r#","features_count":"#@ =~= reading::key_text(',', "features_count"@));
    assert(r#","index_node_size":"#@ =~= reading::key_text(',', "index_node_size"@));
    assert(r#","index_bytes_approx":"#@ =~= reading::key_text(',', "index_bytes_approx"@));
    assert(r#","envelope":"#@ =~= reading::key_text(',', "envelope"@));
    assert(r#","crs":{"org":"#@ =~= reading::key_text(',', "crs"@) + reading::key_text(
        '{',
        "org"@,
    ));
    assert(r#","code":"#@ =~= reading::key_text(',', "code"@));
    assert(r#","name":"#@ =~= reading::key_text(',', "name"@));
}

} // verus!
