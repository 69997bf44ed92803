//! How what the service writes is read: JSON, decimals, hexadecimal bytes and byte ranges.
//!
//! The readers are defined apart from the writers, so that what is said of a text by what is
//! read from it does not depend on how it was written.

use vstd::prelude::*;
use vstd::utf8::*;

use crate::laws;
use crate::session;
use crate::text;

verus! {

/// A token of a JSON text.
#[verifier::ext_equal]
pub enum Token {
    /// A bracket, a brace, a comma or a colon.
    Mark(char),
    /// A string.
    Text(Seq<char>),
    /// A number without a point.
    Integer(int),
    /// A number with a point, as it is written.
    Decimal(Seq<char>),
    Null,
}

/// The character is a decimal digit.
pub open spec fn is_digit(c: char) -> bool {
    0x30 <= c as int <= 0x39
}

/// The number that digits stand for in base ten.
pub open spec fn digits_value(s: Seq<char>) -> int
    decreases s.len(),
{
    if s.len() == 0 {
        0
    } else {
        10 * digits_value(s.drop_last()) + (s.last() as int - 0x30)
    }
}

/// `s` is a natural number in base ten, without leading zeros.
pub open spec fn is_natural(s: Seq<char>) -> bool {
    &&& s.len() > 0
    &&& forall|i: int| 0 <= i < s.len() ==> is_digit(#[trigger] s[i])
    &&& s.len() > 1 ==> s[0] != '0'
}

/// The integer that `s` is in base ten. There is one form for each: no leading zeros, and no
/// sign in front of zero.
pub open spec fn integer_of(s: Seq<char>) -> Option<int> {
    if is_natural(s) {
        Some(digits_value(s))
    } else if s.len() > 1 && s[0] == '-' && is_natural(s.skip(1)) && s[1] != '0' {
        Some(-digits_value(s.skip(1)))
    } else {
        None
    }
}

/// The character can stand in a number.
pub open spec fn is_number_char(c: char) -> bool {
    is_digit(c) || c == '-' || c == '.'
}

/// How many characters of a number `t` starts with.
pub open spec fn number_len(t: Seq<char>) -> nat
    decreases t.len(),
{
    if t.len() > 0 && is_number_char(t[0]) {
        1 + number_len(t.skip(1))
    } else {
        0
    }
}

/// The first token of `t`, and what follows it. No blanks are passed over.
pub open spec fn first_token(t: Seq<char>) -> Option<(Token, Seq<char>)> {
    let n = number_len(t) as int;
    let number = t.take(n);
    if t.len() == 0 {
        None
    } else if t[0] == '{' || t[0] == '}' || t[0] == '[' || t[0] == ']' || t[0] == ',' || t[0]
        == ':' {
        Some((Token::Mark(t[0]), t.skip(1)))
    } else if t[0] == '"' {
        match laws::read_json_string(t.skip(1)) {
            Some((s, rest)) => Some((Token::Text(s), rest)),
            None => None,
        }
    } else if t.len() >= 4 && t[0] == 'n' && t[1] == 'u' && t[2] == 'l' && t[3] == 'l' {
        Some((Token::Null, t.skip(4)))
    } else if integer_of(number) is Some {
        Some((Token::Integer(integer_of(number)->0), t.skip(n)))
    } else if n > 0 && number.contains('.') {
        Some((Token::Decimal(number), t.skip(n)))
    } else {
        None
    }
}

/// `front` ahead of what else was read.
pub open spec fn ahead(front: Seq<Token>, rest: Option<Seq<Token>>) -> Option<Seq<Token>> {
    match rest {
        Some(ts) => Some(front + ts),
        None => None,
    }
}

/// The tokens of a JSON text, or `None` where it is not made of tokens.
pub open spec fn tokens(t: Seq<char>) -> Option<Seq<Token>>
    decreases t.len(),
{
    if t.len() == 0 {
        Some(seq![])
    } else {
        match first_token(t) {
            Some((token, rest)) => if rest.len() < t.len() {
                ahead(seq![token], tokens(rest))
            } else {
                None
            },
            None => None,
        }
    }
}

/// The tokens of a body, which is JSON in UTF-8.
pub open spec fn body_tokens(body: Seq<u8>) -> Option<Seq<Token>> {
    if valid_utf8(body) {
        tokens(decode_utf8(body))
    } else {
        None
    }
}

/// The tokens in front of the value of a member: `mark` is what the member starts with.
pub open spec fn key(mark: char, name: Seq<char>) -> Seq<Token> {
    seq![Token::Mark(mark), Token::Text(name), Token::Mark(':')]
}

/// The name of a member with the marks around it.
pub open spec fn key_text(mark: char, name: Seq<char>) -> Seq<char> {
    seq![mark, '"'] + name + seq!['"', ':']
}

/// `s` in quotes.
pub open spec fn quote_text(s: Seq<char>) -> Seq<char> {
    seq!['"'] + s + seq!['"']
}

/// `t` is made of `front`, `q` and `back`.
pub open spec fn is_made_of(t: Seq<char>, front: Seq<char>, q: Seq<char>, back: Seq<char>) -> bool {
    t == front + q + back
}

/// `q` stands in the JSON text `t` behind the tokens `before` and in front of the tokens `after`.
pub open spec fn embeds(
    t: Seq<char>,
    before: Seq<Token>,
    q: Seq<char>,
    after: Seq<Token>,
) -> bool {
    exists|front: Seq<char>, back: Seq<char>|
        #![trigger is_made_of(t, front, q, back)]
        is_made_of(t, front, q, back) && tokens(front) == Some(before) && tokens(back) == Some(
            after,
        )
}

/// `t` is made of `front`, `q`, `middle`, `r` and `back`.
pub open spec fn is_made_of_five(
    t: Seq<char>,
    front: Seq<char>,
    q: Seq<char>,
    middle: Seq<char>,
    r: Seq<char>,
    back: Seq<char>,
) -> bool {
    t == front + q + middle + r + back
}

/// `q` and `r` stand in the JSON text `t`, with the tokens `before`, `between` and `after` around
/// them.
pub open spec fn embeds_both(
    t: Seq<char>,
    before: Seq<Token>,
    q: Seq<char>,
    between: Seq<Token>,
    r: Seq<char>,
    after: Seq<Token>,
) -> bool {
    exists|front: Seq<char>, middle: Seq<char>, back: Seq<char>|
        #![trigger is_made_of_five(t, front, q, middle, r, back)]
        is_made_of_five(t, front, q, middle, r, back) && tokens(front) == Some(before)
            && tokens(middle) == Some(between) && tokens(back) == Some(after)
}

/// The digits `s` stand for the bytes `bytes`, two lower-case digits for each.
pub open spec fn is_hex_of(s: Seq<char>, bytes: Seq<u8>) -> bool {
    &&& s.len() == 2 * bytes.len()
    &&& forall|i: int|
        0 <= i < s.len() ==> is_digit(#[trigger] s[i]) || 0x61 <= s[i] as int <= 0x66
    &&& forall|i: int|
        0 <= i < bytes.len() ==> (#[trigger] bytes[i]) as int == 16 * laws::hex_value(
            s[2 * i],
        )->0 + laws::hex_value(s[2 * i + 1])->0
}

/// `t` is made of the word for bytes, `first`, a hyphen and `last`.
pub open spec fn is_range_text(t: Seq<char>, first: Seq<char>, last: Seq<char>) -> bool {
    t == seq!['b', 'y', 't', 'e', 's', '='] + first + seq!['-'] + last
}

/// `t` is the value of a `range` header that asks for the bytes from `first` to `last`.
pub open spec fn is_range(t: Seq<char>, first: int, last: int) -> bool {
    exists|a: Seq<char>, b: Seq<char>|
        #![trigger is_range_text(t, a, b)]
        is_range_text(t, a, b) && integer_of(a) == Some(first) && integer_of(b) == Some(last)
}

// ---- What is written is read back ----

/// A natural number is read back from its decimal, which has no leading zeros.
pub proof fn law_decimal_reads_back(n: nat)
    ensures
        integer_of(text::decimal(n)) == Some(n as int),
        is_natural(text::decimal(n)),
        n > 0 ==> text::decimal(n)[0] != '0',
    decreases n,
{
    let s = text::decimal(n);
    if n < 10 {
        assert(s.drop_last() =~= seq![]);
        assert(digits_value(seq![]) == 0);
    } else {
        law_decimal_reads_back(n / 10);
        assert(s.drop_last() =~= text::decimal(n / 10));
        assert forall|i: int| 0 <= i < s.len() implies is_digit(#[trigger] s[i]) by {
            if i < s.len() - 1 {
                assert(s[i] == text::decimal(n / 10)[i]);
            }
        }
    }
}

/// An integer is read back from its decimal.
pub proof fn law_signed_decimal_reads_back(n: int)
    ensures
        integer_of(text::signed_decimal(n)) == Some(n),
{
    if n < 0 {
        law_decimal_reads_back((-n) as nat);
        let s = text::signed_decimal(n);
        assert(s.skip(1) =~= text::decimal((-n) as nat));
        assert(s[1] == text::decimal((-n) as nat)[0]);
        assert(!is_digit(s[0]));
    } else {
        law_decimal_reads_back(n as nat);
    }
}

/// Bytes are read back from their hexadecimal digits.
pub proof fn law_hex_reads_back(bytes: Seq<u8>)
    ensures
        is_hex_of(text::hex_text(bytes), bytes),
    decreases bytes.len(),
{
    if bytes.len() > 0 {
        let front = bytes.drop_last();
        law_hex_reads_back(front);
        let s = text::hex_text(bytes);
        let f = text::hex_text(front);
        assert forall|i: int| 0 <= i < s.len() implies is_digit(#[trigger] s[i]) || 0x61
            <= s[i] as int <= 0x66 by {
            if i < f.len() {
                assert(s[i] == f[i]);
            }
        }
        assert forall|i: int| 0 <= i < bytes.len() implies (#[trigger] bytes[i]) as int == 16
            * laws::hex_value(s[2 * i])->0 + laws::hex_value(s[2 * i + 1])->0 by {
            if i < front.len() {
                assert(front[i] == bytes[i]);
                assert(s[2 * i] == f[2 * i] && s[2 * i + 1] == f[2 * i + 1]);
            }
        }
    }
}

/// The bounds of a range are read back from the value of its header.
pub proof fn law_range_reads_back(first: nat, last: nat)
    ensures
        is_range(session::range_text(first, last), first as int, last as int),
{
    reveal_strlit("bytes=");
    reveal_strlit("-");
    assert("bytes="@ =~= seq!['b', 'y', 't', 'e', 's', '=']);
    assert("-"@ =~= seq!['-']);
    law_decimal_reads_back(first);
    law_decimal_reads_back(last);
    assert(is_range_text(
        session::range_text(first, last),
        text::decimal(first),
        text::decimal(last),
    ));
}

// ---- Reading a text piece by piece ----

/// What is read from `front` ahead of `rest` is `ts`.
pub open spec fn reads(front: Seq<char>, ts: Seq<Token>, rest: Seq<char>) -> bool {
    tokens(front + rest) == ahead(ts, tokens(rest))
}

/// Two pieces in a row.
pub proof fn lemma_join(
    p: Seq<char>,
    ts: Seq<Token>,
    piece: Seq<char>,
    more: Seq<Token>,
    rest: Seq<char>,
)
    requires
        reads(p, ts, piece + rest),
        reads(piece, more, rest),
    ensures
        reads(p + piece, ts + more, rest),
{
    assert((p + piece) + rest =~= p + (piece + rest));
    if let Some(left) = tokens(rest) {
        assert(ts + (more + left) =~= (ts + more) + left);
    }
}

/// A piece with nothing behind it is the whole text.
pub proof fn lemma_whole(t: Seq<char>, ts: Seq<Token>)
    requires
        reads(t, ts, seq![]),
    ensures
        tokens(t) == Some(ts),
{
    assert(t + Seq::<char>::empty() =~= t);
    assert(ts + Seq::<Token>::empty() =~= ts);
}

/// A mark is read as such.
pub proof fn lemma_mark(c: char, rest: Seq<char>)
    requires
        c == '{' || c == '}' || c == '[' || c == ']' || c == ',' || c == ':',
    ensures
        reads(seq![c], seq![Token::Mark(c)], rest),
{
    let t = seq![c] + rest;
    assert(t.skip(1) =~= rest);
}

/// A JSON string is read as its text.
pub proof fn lemma_text(s: Seq<char>, rest: Seq<char>)
    ensures
        reads(text::json_string(s), seq![Token::Text(s)], rest),
{
    laws::law_json_strings_read_back(s, rest);
}

/// No character of `s` needs an escape.
pub open spec fn is_plain(s: Seq<char>) -> bool {
    forall|i: int| 0 <= i < s.len() ==> (#[trigger] s[i]) != '"' && s[i] != '\\' && s[i] as int >= 32
}

/// A text in quotes whose characters need no escapes is read as that text.
pub proof fn lemma_plain(s: Seq<char>, rest: Seq<char>)
    requires
        is_plain(s),
    ensures
        reads(quote_text(s), seq![Token::Text(s)], rest),
{
    lemma_plain_chars(s);
    lemma_text(s, rest);
}

proof fn lemma_plain_char(c: char)
    requires
        c != '"',
        c != '\\',
        c as int >= 32,
    ensures
        text::json_char(c) == seq![c],
{
}

proof fn lemma_plain_chars(s: Seq<char>)
    requires
        is_plain(s),
    ensures
        text::json_chars(s) == s,
    decreases s.len(),
{
    if s.len() > 0 {
        assert forall|i: int| 0 <= i < s.len() - 1 implies (#[trigger] s.drop_last()[i]) != '"'
            && s.drop_last()[i] != '\\' && s.drop_last()[i] as int >= 32 by {
            assert(s.drop_last()[i] == s[i]);
        }
        lemma_plain_chars(s.drop_last());
        let c = s[s.len() - 1];
        lemma_plain_char(c);
        assert(text::json_chars(s) =~= s);
    }
}

/// The name of a member is read with the marks around it.
pub proof fn lemma_key(lit: Seq<char>, mark: char, name: Seq<char>, rest: Seq<char>)
    requires
        mark == '{' || mark == ',',
        is_plain(name),
        lit == key_text(mark, name),
    ensures
        reads(lit, key(mark, name), rest),
{
    let quoted = quote_text(name);
    lemma_mark(':', rest);
    lemma_plain(name, seq![':'] + rest);
    lemma_join(quoted, seq![Token::Text(name)], seq![':'], seq![Token::Mark(':')], rest);
    let tail = quoted + seq![':'];
    let tail_tokens = seq![Token::Text(name)] + seq![Token::Mark(':')];
    lemma_mark(mark, tail + rest);
    lemma_join(seq![mark], seq![Token::Mark(mark)], tail, tail_tokens, rest);
    assert(lit =~= seq![mark] + tail);
    assert(key(mark, name) =~= seq![Token::Mark(mark)] + tail_tokens);
}

/// A run of characters of a number ends where the next character is none.
pub proof fn lemma_number_len(s: Seq<char>, rest: Seq<char>)
    requires
        forall|i: int| 0 <= i < s.len() ==> is_number_char(#[trigger] s[i]),
        rest.len() > 0 ==> !is_number_char(rest[0]),
    ensures
        number_len(s + rest) == s.len(),
    decreases s.len(),
{
    if s.len() == 0 {
        assert(s + rest =~= rest);
    } else {
        assert((s + rest).skip(1) =~= s.skip(1) + rest);
        assert forall|i: int| 0 <= i < s.len() - 1 implies is_number_char(
            #[trigger] s.skip(1)[i],
        ) by {
            assert(s.skip(1)[i] == s[i + 1]);
        }
        lemma_number_len(s.skip(1), rest);
        assert((s + rest)[0] == s[0]);
    }
}

/// A number is read as the integer that it is.
pub proof fn lemma_integer(s: Seq<char>, n: int, rest: Seq<char>)
    requires
        integer_of(s) == Some(n),
        rest.len() > 0 ==> !is_number_char(rest[0]),
    ensures
        reads(s, seq![Token::Integer(n)], rest),
{
    assert forall|i: int| 0 <= i < s.len() implies is_number_char(#[trigger] s[i]) by {
        if !is_natural(s) && i > 0 {
            assert(s[i] == s.skip(1)[i - 1]);
        }
    }
    lemma_number_len(s, rest);
    let t = s + rest;
    assert(t.take(s.len() as int) =~= s);
    assert(t.skip(s.len() as int) =~= rest);
    assert(t[0] == s[0]);
    assert(is_number_char(s[0]));
}

/// A number with a point is read as it stands.
pub proof fn lemma_decimal(s: Seq<char>, rest: Seq<char>)
    requires
        s.contains('.'),
        forall|i: int| 0 <= i < s.len() ==> is_number_char(#[trigger] s[i]),
        rest.len() > 0 ==> !is_number_char(rest[0]),
    ensures
        reads(s, seq![Token::Decimal(s)], rest),
{
    lemma_number_len(s, rest);
    let t = s + rest;
    assert(t.take(s.len() as int) =~= s);
    assert(t.skip(s.len() as int) =~= rest);
    assert(t[0] == s[0]);
    assert(is_number_char(s[0]));
    let i = choose|i: int| 0 <= i < s.len() && s[i] == '.';
    assert(!is_digit(s[i]));
    assert(!is_natural(s));
    if s[0] == '-' {
        assert(i > 0);
        assert(s.skip(1)[i - 1] == s[i]);
        assert(!is_natural(s.skip(1)));
    }
}

/// The word for nothing is read as such.
pub proof fn lemma_null(s: Seq<char>, rest: Seq<char>)
    requires
        s == seq!['n', 'u', 'l', 'l'],
    ensures
        reads(s, seq![Token::Null], rest),
{
    let t = s + rest;
    assert(t.skip(4) =~= rest);
}

/// What is read from `front` is `ts`, whatever follows, as long as that does not go on with a
/// number.
pub open spec fn is_read(front: Seq<char>, ts: Seq<Token>) -> bool {
    forall|rest: Seq<char>|
        rest.len() == 0 || !is_number_char(rest[0]) ==> #[trigger] reads(front, ts, rest)
}

/// A text on its own is read as what it is read as in front of others.
pub proof fn lemma_read_alone(t: Seq<char>, ts: Seq<Token>)
    requires
        is_read(t, ts),
    ensures
        tokens(t) == Some(ts),
{
    assert(reads(t, ts, seq![]));
    lemma_whole(t, ts);
}

/// Two texts in a row are read one after the other.
pub proof fn lemma_row(p: Seq<char>, ts: Seq<Token>, q: Seq<char>, us: Seq<Token>)
    requires
        is_read(p, ts),
        is_read(q, us),
        q.len() > 0,
        !is_number_char(q[0]),
    ensures
        is_read(p + q, ts + us),
{
    assert forall|rest: Seq<char>| rest.len() == 0 || !is_number_char(rest[0]) implies
        #[trigger] reads(p + q, ts + us, rest) by {
        assert((q + rest)[0] == q[0]);
        assert(reads(p, ts, q + rest));
        assert(reads(q, us, rest));
        lemma_join(p, ts, q, us, rest);
    }
}

pub proof fn lemma_mark_is_read(c: char)
    requires
        c == '{' || c == '}' || c == '[' || c == ']' || c == ',' || c == ':',
    ensures
        is_read(seq![c], seq![Token::Mark(c)]),
{
    assert forall|rest: Seq<char>| #[trigger] reads(seq![c], seq![Token::Mark(c)], rest) by {
        lemma_mark(c, rest);
    }
}

pub proof fn lemma_text_is_read(s: Seq<char>)
    ensures
        is_read(text::json_string(s), seq![Token::Text(s)]),
{
    assert forall|rest: Seq<char>| #[trigger]
        reads(text::json_string(s), seq![Token::Text(s)], rest) by {
        lemma_text(s, rest);
    }
}

pub proof fn lemma_plain_is_read(s: Seq<char>)
    requires
        is_plain(s),
    ensures
        is_read(quote_text(s), seq![Token::Text(s)]),
{
    assert forall|rest: Seq<char>| #[trigger] reads(quote_text(s), seq![Token::Text(s)], rest) by {
        lemma_plain(s, rest);
    }
}

pub proof fn lemma_natural_is_read(n: nat)
    ensures
        is_read(text::decimal(n), seq![Token::Integer(n as int)]),
{
    law_decimal_reads_back(n);
    assert forall|rest: Seq<char>| rest.len() == 0 || !is_number_char(rest[0]) implies
        #[trigger] reads(text::decimal(n), seq![Token::Integer(n as int)], rest) by {
        lemma_integer(text::decimal(n), n as int, rest);
    }
}

pub proof fn lemma_integer_is_read(n: int)
    ensures
        is_read(text::signed_decimal(n), seq![Token::Integer(n)]),
{
    law_signed_decimal_reads_back(n);
    assert forall|rest: Seq<char>| rest.len() == 0 || !is_number_char(rest[0]) implies
        #[trigger] reads(text::signed_decimal(n), seq![Token::Integer(n)], rest) by {
        lemma_integer(text::signed_decimal(n), n, rest);
    }
}

pub proof fn lemma_decimal_is_read(s: Seq<char>)
    requires
        s.contains('.'),
        forall|i: int| 0 <= i < s.len() ==> is_number_char(#[trigger] s[i]),
    ensures
        is_read(s, seq![Token::Decimal(s)]),
{
    assert forall|rest: Seq<char>| rest.len() == 0 || !is_number_char(rest[0]) implies
        #[trigger] reads(s, seq![Token::Decimal(s)], rest) by {
        lemma_decimal(s, rest);
    }
}

pub proof fn lemma_null_is_read(s: Seq<char>)
    requires
        s == seq!['n', 'u', 'l', 'l'],
    ensures
        is_read(s, seq![Token::Null]),
{
    assert forall|rest: Seq<char>| #[trigger] reads(s, seq![Token::Null], rest) by {
        lemma_null(s, rest);
    }
}

/// The name of a member in front of its value.
pub proof fn lemma_key_is_read(lit: Seq<char>, mark: char, name: Seq<char>)
    requires
        mark == '{' || mark == ',',
        is_plain(name),
        lit == key_text(mark, name),
    ensures
        forall|rest: Seq<char>| #[trigger] reads(lit, key(mark, name), rest),
        is_read(lit, key(mark, name)),
{
    assert forall|rest: Seq<char>| #[trigger] reads(lit, key(mark, name), rest) by {
        lemma_key(lit, mark, name, rest);
    }
}

/// A member of an object, behind what stands in front of it.
pub proof fn lemma_member(
    p: Seq<char>,
    ts: Seq<Token>,
    lit: Seq<char>,
    mark: char,
    name: Seq<char>,
    value: Seq<char>,
    us: Seq<Token>,
)
    requires
        is_read(p, ts),
        mark == '{' || mark == ',',
        is_plain(name),
        lit == key_text(mark, name),
        is_read(value, us),
    ensures
        is_read(p + lit + value, ts + key(mark, name) + us),
{
    lemma_key_is_read(lit, mark, name);
    lemma_row(p, ts, lit, key(mark, name));
    assert forall|rest: Seq<char>| rest.len() == 0 || !is_number_char(rest[0]) implies
        #[trigger] reads(p + lit + value, ts + key(mark, name) + us, rest) by {
        assert(((lit + (value + rest)))[0] == mark);
        assert(reads(p, ts, lit + (value + rest)));
        assert(reads(lit, key(mark, name), value + rest));
        lemma_join(p, ts, lit, key(mark, name), value + rest);
        assert(reads(value, us, rest));
        lemma_join(p + lit, ts + key(mark, name), value, us, rest);
    }
}

/// The first member of an object.
pub proof fn lemma_first_member(
    lit: Seq<char>,
    name: Seq<char>,
    value: Seq<char>,
    us: Seq<Token>,
)
    requires
        is_plain(name),
        lit == key_text('{', name),
        is_read(value, us),
    ensures
        is_read(lit + value, key('{', name) + us),
{
    lemma_nothing_is_read();
    lemma_member(seq![], seq![], lit, '{', name, value, us);
    assert(Seq::<char>::empty() + lit + value =~= lit + value);
    assert(Seq::<Token>::empty() + key('{', name) + us =~= key('{', name) + us);
}

pub proof fn lemma_nothing_is_read()
    ensures
        is_read(seq![], seq![]),
{
    assert forall|rest: Seq<char>| #[trigger] reads(seq![], seq![], rest) by {
        assert(Seq::<char>::empty() + rest =~= rest);
        if let Some(ts) = tokens(rest) {
            assert(Seq::<Token>::empty() + ts =~= ts);
        }
    }
}

} // verus!
