//! What holds of the service as a whole.

use vstd::prelude::*;
use vstd::utf8::*;

use crate::fgb;
use crate::flatbuf;
use crate::numbers;
use crate::reply;
use crate::search;
use crate::session;
use crate::session::ActionView;
use crate::session::DocumentsView;
use crate::session::EventView;
use crate::session::Method;
use crate::session::SessionView;
use crate::session::StageView;
use crate::text;
use crate::uri;

verus! {

// ---- Routing ----

/// The first occurrence is one, and there is none in front of it.
proof fn lemma_find(s: Seq<char>, pat: Seq<char>, from: int)
    requires
        0 <= from,
    ensures
        match search::find_from(s, pat, from) {
            Some(i) => {
                &&& from <= i <= s.len() - pat.len()
                &&& search::occurs_at(s, pat, i)
                &&& forall|j: int| from <= j < i ==> !search::occurs_at(s, pat, j)
            },
            None => forall|j: int|
                from <= j <= s.len() - pat.len() ==> !search::occurs_at(s, pat, j),
        },
    decreases s.len() - from + 1,
{
    if from + pat.len() > s.len() || search::occurs_at(s, pat, from) {
    } else {
        lemma_find(s, pat, from + 1);
    }
}

/// An occurrence without one in front of it is the first.
proof fn lemma_first(s: Seq<char>, pat: Seq<char>, i: int)
    requires
        0 <= i <= s.len() - pat.len(),
        search::occurs_at(s, pat, i),
        forall|j: int| 0 <= j < i ==> !search::occurs_at(s, pat, j),
    ensures
        search::find_from(s, pat, 0) == Some(i),
{
    lemma_find(s, pat, 0);
}

/// A character that first stands at `i` is found there.
proof fn lemma_first_char(s: Seq<char>, c: char, i: int)
    requires
        0 <= i < s.len(),
        s[i] == c,
        forall|j: int| 0 <= j < i ==> s[j] != c,
    ensures
        search::find_from(s, seq![c], 0) == Some(i),
{
    assert(s.subrange(i, i + 1) =~= seq![c]);
    assert forall|j: int| 0 <= j < i implies !search::occurs_at(s, seq![c], j) by {
        assert(s.subrange(j, j + 1)[0] == s[j]);
    }
    lemma_first(s, seq![c], i);
}

/// Where a character is found, and that it stands nowhere where it is not.
pub proof fn lemma_found_char(s: Seq<char>, c: char)
    ensures
        match search::find_from(s, seq![c], 0) {
            Some(i) => 0 <= i < s.len() && s[i] == c && forall|j: int| 0 <= j < i ==> s[j] != c,
            None => !s.contains(c),
        },
{
    lemma_find(s, seq![c], 0);
    assert forall|j: int| 0 <= j < s.len() implies search::occurs_at(s, seq![c], j) == (#[trigger] s[j]
        == c) by {
        assert(s.subrange(j, j + 1)[0] == s[j]);
        assert(s[j] == c ==> s.subrange(j, j + 1) =~= seq![c]);
    }
}

/// What stands in front of the first `c` holds no `c`, and what follows does not matter.
proof fn lemma_before_char(s: Seq<char>, c: char, rest: Seq<char>)
    ensures
        !search::before(s, seq![c]).contains(c),
        search::before(s + seq![c] + rest, seq![c]) == search::before(s, seq![c]),
{
    let joined = s + seq![c] + rest;
    lemma_found_char(s, c);
    let i = match search::find_from(s, seq![c], 0) {
        Some(i) => i,
        None => s.len() as int,
    };
    assert forall|j: int| 0 <= j < i implies joined[j] != c by {
        assert(s.contains(s[j]));
    }
    lemma_first_char(joined, c, i);
    assert(joined.take(i) =~= s.take(i));
    assert(search::before(s, seq![c]) =~= s.take(i));
}

/// Trimming cuts slashes off the end, and leaves none there.
proof fn lemma_trim_slashes(s: Seq<char>)
    ensures
        uri::trim_slashes(s).len() <= s.len(),
        uri::trim_slashes(s) == s.take(uri::trim_slashes(s).len() as int),
        uri::trim_slashes(s).len() > 0 ==> uri::trim_slashes(s).last() != '/',
    decreases s.len(),
{
    if s.len() > 0 && s.last() == '/' {
        lemma_trim_slashes(s.drop_last());
        let n = uri::trim_slashes(s).len() as int;
        assert(s.drop_last().take(n) =~= s.take(n));
    } else {
        assert(s.take(s.len() as int) =~= s);
    }
}

/// The path of a URI is made of characters of the URI.
proof fn lemma_path_part(bare: Seq<char>, c: char)
    requires
        !bare.contains(c),
    ensures
        !uri::path_part(bare).contains(c),
{
    let mark = uri::scheme_mark();
    if uri::after_host(bare) is Some {
        lemma_find(bare, mark, 0);
        let i = search::find_from(bare, mark, 0)->0;
        let rest = bare.skip(i + 3);
        lemma_find(rest, mark, 0);
        let segment = search::before(rest, mark);
        lemma_found_char(segment, '/');
        let k = search::find_from(segment, seq!['/'], 0)->0;
        assert forall|j: int| 0 <= j < segment.len() - k implies segment.skip(k)[j] != c by {
            assert(segment.skip(k)[j] == bare[i + 3 + k + j]);
            assert(bare.contains(bare[i + 3 + k + j]));
        }
    }
}

/// The path that a request is routed by holds no query and does not end in a slash.
pub proof fn law_path_is_bare(uri: Seq<char>)
    ensures
        !uri::path_of(uri).contains('?'),
        uri::path_of(uri).len() > 0 ==> uri::path_of(uri).last() != '/',
{
    let bare = uri::without_query(uri);
    lemma_before_char(uri, '?', seq![]);
    lemma_path_part(bare, '?');
    let p = uri::path_part(bare);
    lemma_trim_slashes(p);
    assert forall|i: int| 0 <= i < uri::path_of(uri).len() implies uri::path_of(uri)[i]
        != '?' by {
        assert(uri::path_of(uri)[i] == p[i]);
        assert(p.contains(p[i]));
    }
}

/// A query does not change where a request is routed to, whatever it holds.
pub proof fn law_query_is_ignored(uri: Seq<char>, query: Seq<char>)
    ensures
        uri::path_of(uri + seq!['?'] + query) == uri::path_of(uri),
{
    lemma_before_char(uri, '?', query);
}

/// A URI without a scheme mark in front of its query is a path: it is routed by all that stands
/// in front of the query, and a slash at its end does not change that.
pub proof fn law_path_is_taken_whole(uri: Seq<char>)
    requires
        search::find_from(uri::without_query(uri), uri::scheme_mark(), 0) is None,
    ensures
        uri::path_of(uri) == uri::trim_slashes(uri::without_query(uri)),
        uri::path_of(uri.push('/')) == uri::path_of(uri),
{
    lemma_without_query_push_slash(uri);
    if !uri.contains('?') {
        lemma_path_with_slash_has_no_host(uri);
    }
}

/// A slash at the end of a path may complete a scheme mark, but no host follows it.
proof fn lemma_path_with_slash_has_no_host(path: Seq<char>)
    requires
        search::find_from(path, uri::scheme_mark(), 0) is None,
    ensures
        uri::after_host(path.push('/')) is None,
{
    let mark = uri::scheme_mark();
    let longer = path.push('/');
    lemma_find(path, mark, 0);
    lemma_find(longer, mark, 0);
    if let Some(i) = search::find_from(longer, mark, 0) {
        if i <= path.len() - 3 {
            assert(path.subrange(i, i + 3) =~= longer.subrange(i, i + 3));
            assert(search::occurs_at(path, mark, i));
        }
        assert(longer.skip(i + 3) =~= seq![]);
    }
}

/// The first scheme mark in what follows the first one.
pub open spec fn second_mark(uri: Seq<char>) -> Option<int> {
    match search::find_from(uri, uri::scheme_mark(), 0) {
        Some(i) => search::find_from(uri.skip(i + 3), uri::scheme_mark(), 0),
        None => None,
    }
}

/// A slash at the end does not change where a request is routed to, as long as it stands in the
/// query or else neither is the first after a host nor completes the second scheme mark.
pub proof fn law_slash_is_ignored(uri: Seq<char>)
    requires
        uri.contains('?') || match uri::after_host(uri) {
            None => uri::after_host(uri.push('/')) is None,
            Some(_) => second_mark(uri) is Some || !(uri[uri.len() - 2] == ':' && uri.last()
                == '/'),
        },
    ensures
        uri::path_of(uri.push('/')) == uri::path_of(uri),
{
    let mark = uri::scheme_mark();
    let longer = uri.push('/');
    lemma_without_query_push_slash(uri);
    if !uri.contains('?') && uri::after_host(uri) is Some {
        lemma_mark_and_slash(uri);
        lemma_find(uri, mark, 0);
        let i = search::find_from(uri, mark, 0)->0;
        let rest = uri.skip(i + 3);
        assert(longer.skip(i + 3) =~= rest.push('/'));
        if rest.len() >= 2 {
            assert(rest[rest.len() - 2] == uri[uri.len() - 2]);
        }
        lemma_mark_and_slash(rest);
        lemma_find(rest, mark, 0);
        match search::find_from(rest, mark, 0) {
            Some(j) => {
                assert(longer.skip(i + 3).take(j) =~= rest.take(j));
            },
            None => {
                let segment = rest.push('/');
                lemma_found_char(rest, '/');
                let k = search::find_from(rest, seq!['/'], 0)->0;
                lemma_first_char(segment, '/', k);
                assert(segment.skip(k).drop_last() =~= rest.skip(k));
            },
        }
    } else {
        assert(longer.drop_last() =~= uri);
    }
}

/// A slash at the end that does not complete the first scheme mark leaves it where it is.
proof fn lemma_mark_and_slash(s: Seq<char>)
    requires
        search::find_from(s, uri::scheme_mark(), 0) is Some || !(s.len() >= 2 && s[s.len() - 2]
            == ':' && s.last() == '/'),
    ensures
        search::find_from(s.push('/'), uri::scheme_mark(), 0) == search::find_from(
            s,
            uri::scheme_mark(),
            0,
        ),
{
    let mark = uri::scheme_mark();
    let longer = s.push('/');
    lemma_find(s, mark, 0);
    lemma_find(longer, mark, 0);
    assert forall|j: int| 0 <= j <= s.len() - 3 implies search::occurs_at(longer, mark, j)
        == search::occurs_at(s, mark, j) by {
        assert(s.subrange(j, j + 3) =~= longer.subrange(j, j + 3));
    }
    match search::find_from(s, mark, 0) {
        Some(i) => {
            lemma_first(longer, mark, i);
        },
        None => {
            if s.len() >= 2 {
                let found = longer.subrange(s.len() - 2, longer.len() as int);
                assert(found[0] == s[s.len() - 2]);
                assert(found[1] == s.last());
            }
        },
    }
}

/// A slash at the end stands in the query, where there is one, or else after the path.
proof fn lemma_without_query_push_slash(s: Seq<char>)
    ensures
        uri::without_query(s.push('/')) == if s.contains('?') {
            uri::without_query(s)
        } else {
            s.push('/')
        },
        !s.contains('?') ==> uri::without_query(s) == s,
        uri::trim_slashes(uri::without_query(s.push('/'))) == uri::trim_slashes(
            uri::without_query(s),
        ),
{
    let longer = s.push('/');
    lemma_found_char(s, '?');
    lemma_found_char(longer, '?');
    match search::find_from(s, seq!['?'], 0) {
        Some(i) => {
            assert(s.contains(s[i]));
            lemma_first_char(longer, '?', i);
            assert(longer.take(i) =~= s.take(i));
        },
        None => {
            assert(!longer.contains('?')) by {
                if longer.contains('?') {
                    let j = choose|j: int| 0 <= j < longer.len() && longer[j] == '?';
                    assert(s.contains(s[j]));
                }
            }
            assert(longer.drop_last() =~= s);
        },
    }
}

/// An absolute URI is routed by what follows its host, up to the query or a second scheme mark;
/// where there is no such mark in front of the query, as a request for that alone would be.
pub proof fn law_host_is_ignored(scheme: Seq<char>, host: Seq<char>, path: Seq<char>)
    requires
        !scheme.contains(':'),
        !scheme.contains('?'),
        !host.contains('/'),
        !host.contains('?'),
        host.len() > 0 ==> host.last() != ':',
        path.len() > 0,
        path[0] == '/',
    ensures
        uri::path_of(scheme + uri::scheme_mark() + host + path) == uri::trim_slashes(
            search::before(uri::without_query(path), uri::scheme_mark()),
        ),
        search::find_from(uri::without_query(path), uri::scheme_mark(), 0) is None ==> uri::path_of(
            scheme + uri::scheme_mark() + host + path,
        ) == uri::path_of(path),
{
    let mark = uri::scheme_mark();
    let front = scheme + mark + host;
    let p = uri::without_query(path);
    let whole = front + p;
    lemma_found_char(path, '?');
    assert(p.len() > 0 && p[0] == '/');
    assert forall|j: int| 0 <= j < front.len() implies front[j] != '?' by {
        if j < scheme.len() {
            assert(scheme.contains(front[j]));
        } else if j >= scheme.len() + 3 {
            assert(host.contains(front[j]));
        }
    }
    assert(uri::without_query(front + path) =~= whole) by {
        lemma_front_without_query(front, path);
    }
    let at = scheme.len() as int;
    assert(whole.subrange(at, at + 3) =~= mark);
    assert forall|j: int| 0 <= j < at implies !search::occurs_at(whole, mark, j) by {
        assert(whole.subrange(j, j + 3)[0] == scheme[j]);
        assert(scheme.contains(scheme[j]));
    }
    lemma_first(whole, mark, at);
    let rest = host + p;
    assert(whole.skip(at + 3) =~= rest);
    lemma_mark_after_host(host, p);
    let cut = search::before(p, mark);
    let segment = search::before(rest, mark);
    assert(segment == host + cut && cut.len() > 0 && cut[0] == '/');
    assert forall|j: int| 0 <= j < host.len() implies segment[j] != '/' by {
        assert(host.contains(host[j]));
    }
    lemma_first_char(segment, '/', host.len() as int);
    assert(segment.skip(host.len() as int) =~= cut);
}

/// The query of what starts without a question mark stands in what follows.
proof fn lemma_front_without_query(front: Seq<char>, path: Seq<char>)
    requires
        !front.contains('?'),
    ensures
        uri::without_query(front + path) == front + uri::without_query(path),
{
    let whole = front + path;
    let n = front.len() as int;
    lemma_found_char(path, '?');
    lemma_found_char(whole, '?');
    match search::find_from(path, seq!['?'], 0) {
        Some(i) => {
            assert forall|j: int| 0 <= j < n + i implies whole[j] != '?' by {
                if j < n {
                    assert(front.contains(front[j]));
                } else {
                    assert(whole[j] == path[j - n]);
                }
            }
            lemma_first_char(whole, '?', n + i);
            assert(whole.take(n + i) =~= front + path.take(i));
        },
        None => {
            assert(!whole.contains('?')) by {
                if whole.contains('?') {
                    let j = choose|j: int| 0 <= j < whole.len() && whole[j] == '?';
                    if j < n {
                        assert(front.contains(front[j]));
                    } else {
                        assert(path.contains(path[j - n]));
                    }
                }
            }
        },
    }
}

/// A scheme mark after a host stands in what follows the host.
proof fn lemma_mark_after_host(host: Seq<char>, path: Seq<char>)
    requires
        !host.contains('/'),
        host.len() > 0 ==> host.last() != ':',
        path.len() > 0,
        path[0] == '/',
    ensures
        search::before(host + path, uri::scheme_mark()) == host + search::before(
            path,
            uri::scheme_mark(),
        ),
        search::before(path, uri::scheme_mark()).len() > 0,
        search::before(path, uri::scheme_mark())[0] == '/',
{
    let mark = uri::scheme_mark();
    let rest = host + path;
    let n = host.len() as int;
    lemma_find(path, mark, 0);
    lemma_find(rest, mark, 0);
    assert forall|j: int| 0 <= j <= rest.len() - 3 && search::occurs_at(rest, mark, j) implies j > n
        && search::occurs_at(path, mark, j - n) by {
        let found = rest.subrange(j, j + 3);
        assert(found[0] == rest[j] && found[1] == rest[j + 1]);
        if j + 1 < n {
            assert(host.contains(host[j + 1]));
        } else if j < n {
            assert(host.last() == rest[j]);
        } else if j == n {
            assert(path[0] == rest[j]);
        }
        assert(path.subrange(j - n, j - n + 3) =~= found);
    }
    match search::find_from(path, mark, 0) {
        Some(i) => {
            assert(path.subrange(i, i + 3) =~= rest.subrange(n + i, n + i + 3));
            assert(search::occurs_at(rest, mark, n + i));
            lemma_first(rest, mark, n + i);
            assert(i > 0) by {
                assert(path.subrange(i, i + 3)[0] == path[i]);
            }
            assert(rest.take(n + i) =~= host + path.take(i));
        },
        None => {},
    }
}

/// A colon and two slashes stand at the position `i` of `s`.
pub open spec fn mark_at(s: Seq<char>, i: int) -> bool {
    0 <= i && i + 3 <= s.len() && s[i] == ':' && s[i + 1] == '/' && s[i + 2] == '/'
}

/// No colon is followed by two slashes in `s`.
pub open spec fn has_no_mark(s: Seq<char>) -> bool {
    forall|i: int| !#[trigger] mark_at(s, i)
}

/// `p` is `s` without the slashes at its end.
pub open spec fn is_trimmed(s: Seq<char>, p: Seq<char>) -> bool {
    &&& p.len() <= s.len()
    &&& forall|i: int| 0 <= i < p.len() ==> (#[trigger] p[i]) == s[i]
    &&& forall|i: int| p.len() <= i < s.len() ==> (#[trigger] s[i]) == '/'
    &&& p.len() > 0 ==> p.last() != '/'
}

/// `t` is empty or starts with a question mark.
pub open spec fn is_query(t: Seq<char>) -> bool {
    t.len() == 0 || t[0] == '?'
}

proof fn lemma_is_trimmed(s: Seq<char>)
    ensures
        is_trimmed(s, uri::trim_slashes(s)),
    decreases s.len(),
{
    if s.len() > 0 && s.last() == '/' {
        lemma_is_trimmed(s.drop_last());
        let p = uri::trim_slashes(s);
        assert forall|i: int| p.len() <= i < s.len() implies (#[trigger] s[i]) == '/' by {
            if i < s.len() - 1 {
                assert(s.drop_last()[i] == s[i]);
            }
        }
        assert forall|i: int| 0 <= i < p.len() implies (#[trigger] p[i]) == s[i] by {
            assert(p[i] == s.drop_last()[i]);
        }
    }
}

/// The first mark stands where a text without one ends.
proof fn lemma_first_mark(s: Seq<char>, t: Seq<char>)
    requires
        has_no_mark(s),
        t.len() == 0 || mark_at(t, 0),
    ensures
        search::find_from(s + t, uri::scheme_mark(), 0) == if t.len() == 0 {
            None
        } else {
            Some(s.len() as int)
        },
        search::before(s + t, uri::scheme_mark()) == s,
{
    let mark = uri::scheme_mark();
    let whole = s + t;
    let n = s.len() as int;
    lemma_find(whole, mark, 0);
    assert forall|j: int| 0 <= j < n && j + 3 <= whole.len() implies !search::occurs_at(
        whole,
        mark,
        j,
    ) by {
        if search::occurs_at(whole, mark, j) {
            let found = whole.subrange(j, j + 3);
            assert(found[0] == ':' && found[1] == '/' && found[2] == '/');
            assert(whole[j] == ':' && whole[j + 1] == '/' && whole[j + 2] == '/');
            if j + 3 <= n {
                assert(mark_at(s, j));
            } else {
                assert(whole[n] == t[0]);
            }
        }
    }
    if t.len() > 0 {
        assert(whole.subrange(n, n + 3) =~= mark);
        lemma_first(whole, mark, n);
        assert(whole.take(n) =~= s);
    } else {
        assert(whole =~= s);
    }
}

/// The query starts where a text without a question mark ends.
proof fn lemma_query_is_cut(bare: Seq<char>, query: Seq<char>)
    requires
        !bare.contains('?'),
        is_query(query),
    ensures
        uri::without_query(bare + query) == bare,
{
    let whole = bare + query;
    lemma_found_char(whole, '?');
    if query.len() == 0 {
        assert(whole =~= bare);
        if let Some(i) = search::find_from(whole, seq!['?'], 0) {
            assert(bare.contains(whole[i]));
        }
    } else {
        assert forall|j: int| 0 <= j < bare.len() implies whole[j] != '?' by {
            assert(bare.contains(bare[j]));
        }
        lemma_first_char(whole, '?', bare.len() as int);
        assert(whole.take(bare.len() as int) =~= bare);
    }
}

/// Where no colon is followed by two slashes in front of the query, a request is routed by all
/// that stands in front of it, without the slashes at the end.
pub proof fn law_paths_are_routed_by(path: Seq<char>, query: Seq<char>)
    requires
        !path.contains('?'),
        has_no_mark(path),
        is_query(query),
    ensures
        is_trimmed(path, uri::path_of(path + query)),
{
    lemma_query_is_cut(path, query);
    lemma_first_mark(path, seq![]);
    assert(path + Seq::<char>::empty() =~= path);
    lemma_is_trimmed(path);
}

/// Any other request is routed by what follows the first mark from its first slash on, up to the
/// next mark or the query, without the slashes at the end; where no slash follows, by all that
/// stands in front of the query.
pub proof fn law_absolute_uris_are_routed_by(
    front: Seq<char>,
    host: Seq<char>,
    path: Seq<char>,
    rest: Seq<char>,
    query: Seq<char>,
)
    requires
        !(front + seq![':', '/', '/'] + host + path + rest).contains('?'),
        is_query(query),
        has_no_mark(front),
        !host.contains('/'),
        path.len() == 0 || path[0] == '/',
        has_no_mark(host + path),
        rest.len() == 0 || mark_at(rest, 0),
    ensures
        ({
            let bare = front + seq![':', '/', '/'] + host + path + rest;
            is_trimmed(
                if path.len() > 0 {
                    path
                } else {
                    bare
                },
                uri::path_of(bare + query),
            )
        }),
{
    let mark = uri::scheme_mark();
    let bare = front + seq![':', '/', '/'] + host + path + rest;
    let segment = host + path;
    lemma_query_is_cut(bare, query);
    lemma_first_mark(front, seq![':', '/', '/'] + host + path + rest);
    assert(front + (seq![':', '/', '/'] + host + path + rest) =~= bare);
    assert(bare.skip(front.len() as int + 3) =~= segment + rest);
    lemma_first_mark(segment, rest);
    lemma_found_char(segment, '/');
    if path.len() > 0 {
        assert forall|j: int| 0 <= j < host.len() implies segment[j] != '/' by {
            assert(host.contains(host[j]));
        }
        lemma_first_char(segment, '/', host.len() as int);
        assert(segment.skip(host.len() as int) =~= path);
        lemma_is_trimmed(path);
    } else {
        if let Some(i) = search::find_from(segment, seq!['/'], 0) {
            assert(host.contains(segment[i]));
        }
        lemma_is_trimmed(bare);
    }
}

/// Whether the action sends a request.
pub open spec fn is_request(action: ActionView) -> bool {
    action is Get || action is GetRange
}

/// The address that a request goes to.
pub open spec fn asked_url(action: ActionView) -> Seq<char> {
    match action {
        ActionView::Get { url } => url,
        ActionView::GetRange { url, .. } => url,
        _ => seq![],
    }
}

/// The addresses that the service knows.
pub open spec fn is_known_url(url: Seq<char>) -> bool {
    ||| url == session::REMOTE_METADATA_URL@
    ||| url == session::REMOTE_TILEJSON_URL@
    ||| url == session::FGB_COUNTRIES_URL@
    ||| url == session::FGB_ESA_URL@
}

/// Where a session stands after `events`.
pub open spec fn after_events(
    start: (SessionView, ActionView),
    events: Seq<EventView>,
) -> (SessionView, ActionView)
    decreases events.len(),
{
    if events.len() == 0 {
        start
    } else {
        session::stepped(after_events(start, events.drop_last()).0, events.last())
    }
}

/// Each event is one that the session waits for when it comes.
pub open spec fn all_awaited(start: (SessionView, ActionView), events: Seq<EventView>) -> bool
    decreases events.len(),
{
    events.len() == 0 || {
        &&& all_awaited(start, events.drop_last())
        &&& session::awaits(after_events(start, events.drop_last()).0.stage, events.last())
    }
}

/// How many requests a session sends up to the last of `events`.
pub open spec fn requests_sent(start: (SessionView, ActionView), events: Seq<EventView>) -> nat
    decreases events.len(),
{
    (if is_request(after_events(start, events).1) {
        1nat
    } else {
        0nat
    }) + (if events.len() == 0 {
        0nat
    } else {
        requests_sent(start, events.drop_last())
    })
}

/// The service is no general-purpose proxy: whatever a request says, and whatever comes back,
/// each request that the service sends goes to one of the addresses that it knows.
pub proof fn law_only_known_urls(
    method: Method,
    path: Seq<char>,
    spin_full_url: Option<Seq<char>>,
    docs: DocumentsView,
    events: Seq<EventView>,
)
    ensures
        ({
            let (s, action) = after_events(
                session::routed(method, path, spin_full_url, docs),
                events,
            );
            is_request(action) ==> is_known_url(asked_url(action)) && asked_url(action) == s.url
        }),
{
    lemma_url_is_kept(session::routed(method, path, spin_full_url, docs), events);
    lemma_no_request_once_done(session::routed(method, path, spin_full_url, docs), events);
}

/// Steps keep the address, and requests go there.
proof fn lemma_url_is_kept(start: (SessionView, ActionView), events: Seq<EventView>)
    ensures
        after_events(start, events).0.url == start.0.url,
        events.len() > 0 && is_request(after_events(start, events).1) ==> asked_url(
            after_events(start, events).1,
        ) == start.0.url,
    decreases events.len(),
{
    if events.len() > 0 {
        lemma_url_is_kept(start, events.drop_last());
    }
}

/// A session that starts done sends no request after that.
proof fn lemma_no_request_once_done(start: (SessionView, ActionView), events: Seq<EventView>)
    ensures
        start.0.stage is Done ==> after_events(start, events).0.stage is Done,
        start.0.stage is Done && events.len() > 0 ==> !is_request(after_events(start, events).1),
    decreases events.len(),
{
    if events.len() > 0 {
        lemma_no_request_once_done(start, events.drop_last());
    }
}

/// How many more events a session can wait for.
pub open spec fn events_left(stage: StageView) -> nat {
    match stage {
        StageView::Done => 0,
        StageView::Remote => 1,
        StageView::ParseEnvelope { .. } => 1,
        StageView::HeadHeader { .. } => 1,
        StageView::HeadPreamble => 2,
        StageView::ParseHeader { .. } => 2,
        StageView::ParsePreamble => 3,
    }
}

/// How many more requests a session can send.
pub open spec fn requests_left(stage: StageView) -> nat {
    match stage {
        StageView::HeadPreamble => 1,
        StageView::ParsePreamble => 1,
        _ => 0,
    }
}

/// Each step brings a session closer to its end.
pub proof fn law_steps_lead_to_the_end(s: SessionView, event: EventView)
    requires
        session::awaits(s.stage, event),
    ensures
        events_left(session::stepped(s, event).0.stage) < events_left(s.stage),
        session::stepped(s, event).0.stage is Done <==> {
            ||| session::stepped(s, event).1 is Reply
            ||| session::stepped(s, event).1 is Propagate
            ||| session::stepped(s, event).1 is Overflow
        },
{
}

/// What the action asks for is what the stage waits for.
pub open spec fn action_fits_stage(next: (SessionView, ActionView)) -> bool {
    match next.1 {
        ActionView::Get { .. } => !(next.0.stage is Done || next.0.stage is ParseEnvelope),
        ActionView::GetRange { .. } => !(next.0.stage is Done || next.0.stage is ParseEnvelope),
        ActionView::Format { bits } => next.0.stage is ParseEnvelope && bits.len() == 4,
        _ => next.0.stage is Done,
    }
}

/// After a request has been sent a session waits for its outcome, after doubles have been handed
/// out it waits for four decimals, and after any other action it waits for nothing.
pub proof fn law_actions_fit_stages(
    method: Method,
    path: Seq<char>,
    spin_full_url: Option<Seq<char>>,
    docs: DocumentsView,
    s: SessionView,
    event: EventView,
)
    ensures
        action_fits_stage(session::routed(method, path, spin_full_url, docs)),
        action_fits_stage(session::stepped(s, event)),
{
}

proof fn lemma_events_left(start: (SessionView, ActionView), events: Seq<EventView>)
    requires
        all_awaited(start, events),
    ensures
        events.len() + events_left(after_events(start, events).0.stage) <= events_left(
            start.0.stage,
        ),
    decreases events.len(),
{
    if events.len() > 0 {
        lemma_events_left(start, events.drop_last());
        law_steps_lead_to_the_end(
            after_events(start, events.drop_last()).0,
            events.last(),
        );
    }
}

proof fn lemma_requests_left(start: (SessionView, ActionView), events: Seq<EventView>)
    ensures
        requests_sent(start, events) + requests_left(after_events(start, events).0.stage)
            <= requests_sent(start, seq![]) + requests_left(start.0.stage),
    decreases events.len(),
{
    if events.len() > 0 {
        lemma_requests_left(start, events.drop_last());
    } else {
        assert(events =~= seq![]);
    }
}

/// A request is answered after three events at most, and at the cost of two requests at most:
/// one for the preamble of a file and one for its header, or one for a document.
pub proof fn law_two_requests_suffice(
    method: Method,
    path: Seq<char>,
    spin_full_url: Option<Seq<char>>,
    docs: DocumentsView,
    events: Seq<EventView>,
)
    requires
        all_awaited(session::routed(method, path, spin_full_url, docs), events),
    ensures
        events.len() <= 3,
        requests_sent(session::routed(method, path, spin_full_url, docs), events) <= 2,
{
    let start = session::routed(method, path, spin_full_url, docs);
    lemma_events_left(start, events);
    lemma_requests_left(start, events);
}

/// The request for a header follows a valid preamble, and asks for as many bytes as the
/// preamble says, where positions in a file of that size fit into `usize`; any other preamble
/// ends the session with an error.
pub proof fn law_header_follows_preamble(s: SessionView, status: u16, bytes: Seq<u8>)
    requires
        s.stage is HeadPreamble || s.stage is ParsePreamble,
    ensures
        ({
            let action = session::stepped(s, EventView::Fetched { status, body: bytes }).1;
            match fgb::preamble_of(bytes) {
                fgb::Preamble::Valid { header_size, .. } => if 12 + header_size
                    <= usize::MAX {
                    action == session::header_request(s.url, header_size)
                } else {
                    action is Overflow
                },
                fgb::Preamble::Short => action matches ActionView::Reply(r) && r.status == 502,
                fgb::Preamble::BadMagic => action matches ActionView::Reply(r) && r.status == 400,
            }
        }),
{
}

/// A method other than GET is refused or, for a preflight, granted, whatever the path is, and
/// no request is sent for it.
pub proof fn law_only_get_is_served(
    method: Method,
    path: Seq<char>,
    spin_full_url: Option<Seq<char>>,
    docs: DocumentsView,
)
    requires
        method != Method::Get,
    ensures
        session::routed(method, path, spin_full_url, docs) == session::answered(
            if method == Method::Options {
                reply::preflight_reply()
            } else {
                reply::method_not_allowed_reply()
            },
        ),
{
}

/// The paths that the service answers.
pub open spec fn is_served(path: Seq<char>) -> bool {
    ||| path == ""@
    ||| path == "/"@
    ||| path == "/healthz"@
    ||| path == "/metadata"@
    ||| path == "/tilejson"@
    ||| path == "/tilejson.json"@
    ||| path == "/env"@
    ||| path == "/capabilities"@
    ||| path == "/remote-metadata"@
    ||| path == "/remote-tilejson"@
    ||| path == "/fgb-head"@
    ||| path == "/fgb-head-esa"@
    ||| path == "/fgb-parse"@
    ||| path == "/fgb-parse-esa"@
}

/// A path that is not served is answered with 404.
pub proof fn law_other_paths_are_not_found(
    path: Seq<char>,
    spin_full_url: Option<Seq<char>>,
    docs: DocumentsView,
)
    requires
        !is_served(path),
    ensures
        session::routed(Method::Get, path, spin_full_url, docs) == session::answered(
            reply::not_found_reply(),
        ),
{
}

/// A browser may read each reply across origins, except the one to a method that is not
/// allowed and the one to a failed request for a document.
pub proof fn law_replies_cross_origins(
    method: Method,
    path: Seq<char>,
    spin_full_url: Option<Seq<char>>,
    docs: DocumentsView,
    s: SessionView,
    event: EventView,
)
    requires
        method != Method::Other,
        !(s.stage is Remote && event is Failed),
    ensures
        session::routed(method, path, spin_full_url, docs).1 matches ActionView::Reply(r)
            ==> r.headers.contains(reply::allow_any_origin()),
        session::stepped(s, event).1 matches ActionView::Reply(r) ==> r.headers.contains(
            reply::allow_any_origin(),
        ),
{
    assert(reply::json_headers()[1] == reply::allow_any_origin());
    assert(reply::not_found_reply().headers[1] == reply::allow_any_origin());
    assert(reply::preflight_reply().headers[0] == reply::allow_any_origin());
    if let ActionView::Reply(r) = session::stepped(s, event).1 {
        assert(r.headers[1] == reply::allow_any_origin());
    }
}

/// A document is passed on with its status and its bytes unchanged.
pub proof fn law_documents_pass_unchanged(url: Seq<char>, status: u16, body: Seq<u8>)
    ensures
        session::stepped(
            SessionView { url, stage: StageView::Remote },
            EventView::Fetched { status, body },
        ).1 matches ActionView::Reply(r) && r.status == status && r.body == body
            && r.headers.contains(("x-fetched-from"@, url)),
{
    let r = reply::relayed_reply(status, body, url);
    assert(r.headers[5] == ("x-fetched-from"@, url));
}

// ---- Texts ----

/// The value of a hexadecimal digit.
pub open spec fn hex_value(c: char) -> Option<int> {
    let code = c as int;
    if 0x30 <= code <= 0x39 {
        Some(code - 0x30)
    } else if 0x61 <= code <= 0x66 {
        Some(code - 0x61 + 10)
    } else if 0x41 <= code <= 0x46 {
        Some(code - 0x41 + 10)
    } else {
        None
    }
}

/// What an escape of a JSON string stands for, and how many characters it has behind its
/// backslash. `t` starts behind the backslash.
pub open spec fn read_escape(t: Seq<char>) -> Option<(char, int)> {
    if t.len() == 0 {
        None
    } else if t[0] == '"' || t[0] == '\\' || t[0] == '/' {
        Some((t[0], 1))
    } else if t[0] == 'b' {
        Some(('\u{8}', 1))
    } else if t[0] == 'f' {
        Some(('\u{c}', 1))
    } else if t[0] == 'n' {
        Some(('\n', 1))
    } else if t[0] == 'r' {
        Some(('\r', 1))
    } else if t[0] == 't' {
        Some(('\t', 1))
    } else if t[0] == 'u' && t.len() >= 5 {
        match (hex_value(t[1]), hex_value(t[2]), hex_value(t[3]), hex_value(t[4])) {
            (Some(a), Some(b), Some(c), Some(d)) => Some(
                ((4096 * a + 256 * b + 16 * c + d) as char, 5),
            ),
            _ => None,
        }
    } else {
        None
    }
}

/// `s` in front of what was read.
pub open spec fn with_front(
    s: Seq<char>,
    read: Option<(Seq<char>, Seq<char>)>,
) -> Option<(Seq<char>, Seq<char>)> {
    match read {
        Some((text, rest)) => Some((s + text, rest)),
        None => None,
    }
}

/// The text of a JSON string, and what follows the string. `t` starts behind the opening quote.
/// Characters beyond the basic plane are read as they stand, not as pairs of escapes.
pub open spec fn read_json_string(t: Seq<char>) -> Option<(Seq<char>, Seq<char>)>
    decreases t.len(),
{
    if t.len() == 0 {
        None
    } else if t[0] == '"' {
        Some((seq![], t.skip(1)))
    } else if t[0] == '\\' {
        match read_escape(t.skip(1)) {
            Some((c, n)) => with_front(seq![c], read_json_string(t.skip(1 + n))),
            None => None,
        }
    } else if (t[0] as int) >= 32 {
        with_front(seq![t[0]], read_json_string(t.skip(1)))
    } else {
        None
    }
}

/// A text that is written as a JSON string is read back, whatever it holds and whatever follows
/// the string.
pub proof fn law_json_strings_read_back(s: Seq<char>, rest: Seq<char>)
    ensures
        text::json_string(s)[0] == '"',
        read_json_string((text::json_string(s) + rest).skip(1)) == Some((s, rest)),
{
    let t = seq!['"'] + rest;
    lemma_json_chars_read_back(s, t);
    assert((text::json_string(s) + rest).skip(1) =~= text::json_chars(s) + t);
    assert(t.skip(1) =~= rest);
    assert(s + Seq::<char>::empty() =~= s);
}

/// A JSON string grows by the form of each character that its text grows by, in front of the
/// closing quote.
pub proof fn law_json_strings_grow(s: Seq<char>, c: char)
    ensures
        text::json_string(seq![]) == seq!['"', '"'],
        text::json_string(s.push(c)) == text::json_string(s).drop_last() + text::json_char(c)
            + seq!['"'],
{
    assert(text::json_string(seq![]) =~= seq!['"', '"']);
    assert(s.push(c).drop_last() =~= s);
    assert(text::json_string(s.push(c)) =~= text::json_string(s).drop_last() + text::json_char(c)
        + seq!['"']);
}

proof fn lemma_json_chars_read_back(s: Seq<char>, t: Seq<char>)
    ensures
        read_json_string(text::json_chars(s) + t) == with_front(s, read_json_string(t)),
    decreases s.len(),
{
    if s.len() == 0 {
        assert(text::json_chars(s) + t =~= t);
        if let Some((text, _)) = read_json_string(t) {
            assert(s + text =~= text);
        }
    } else {
        let front = s.drop_last();
        let c = s.last();
        let tail = text::json_char(c) + t;
        lemma_json_char_reads_back(c, t);
        lemma_json_chars_read_back(front, tail);
        assert(text::json_chars(s) + t =~= text::json_chars(front) + tail);
        if let Some((text, _)) = read_json_string(t) {
            assert(front + (seq![c] + text) =~= s + text);
        }
    }
}

proof fn lemma_json_char_reads_back(c: char, t: Seq<char>)
    ensures
        read_json_string(text::json_char(c) + t) == with_front(seq![c], read_json_string(t)),
{
    let written = text::json_char(c);
    let whole = written + t;
    assert(whole.skip(written.len() as int) =~= t);
    if written.len() == 6 {
        assert(read_escape(whole.skip(1)) == Some((c, 5int)));
    }
}

/// Only what has to be escaped is: quotes, backslashes and characters below U+0020. Line feeds,
/// carriage returns and tabs have their short escapes, the others six characters in lower case.
pub proof fn law_only_what_must_be_is_escaped(c: char)
    ensures
        ({
            let written = text::json_char(c);
            let short = c == '"' || c == '\\' || c == '\n' || c == '\r' || c == '\t';
            &&& written.len() == if short {
                2int
            } else if (c as int) < 32 {
                6
            } else {
                1
            }
            &&& written.len() == 1 ==> written[0] == c
            &&& written.len() > 1 ==> written[0] == '\\'
            &&& forall|i: int|
                1 < i < written.len() ==> !(0x41 <= (#[trigger] written[i]) as int <= 0x46)
        }),
{
}

/// A decimal is cut off, not rounded: it agrees with what is written as far as both go, and what
/// is written has six characters behind its first point.
pub proof fn law_decimals_are_cut_off(decimal: Seq<char>)
    ensures
        ({
            let written = numbers::six_decimals(decimal);
            &&& search::find_from(written, seq!['.'], 0) == Some(written.len() - 7)
            &&& forall|i: int|
                0 <= i < decimal.len() && i < written.len() ==> written[i] == decimal[i]
        }),
{
    lemma_found_char(decimal, '.');
    let written = numbers::six_decimals(decimal);
    let at = match search::find_from(decimal, seq!['.'], 0) {
        Some(i) => i,
        None => decimal.len() as int,
    };
    assert forall|j: int| 0 <= j < at implies written[j] != '.' by {
        assert(decimal.contains(decimal[j]));
    }
    lemma_first_char(written, '.', at);
}

// ---- Tables ----

/// `n` in `width` bytes, least significant byte first.
pub open spec fn le_bytes(n: nat, width: nat) -> Seq<u8>
    decreases width,
{
    if width == 0 {
        seq![]
    } else {
        seq![(n % 256) as u8] + le_bytes(n / 256, (width - 1) as nat)
    }
}

/// The number of values that `width` bytes can hold.
pub open spec fn values_of(width: nat) -> nat
    decreases width,
{
    if width == 0 {
        1
    } else {
        256 * values_of((width - 1) as nat)
    }
}

/// A distance as the 32-bit number that stands for it.
pub open spec fn twos_complement_32(d: int) -> nat {
    if d < 0 {
        (d + 0x1_0000_0000) as nat
    } else {
        d as nat
    }
}

/// `bytes` stand at the position `pos` of `buf`.
pub open spec fn holds(buf: Seq<u8>, pos: int, bytes: Seq<u8>) -> bool {
    0 <= pos && pos + bytes.len() <= buf.len() && buf.subrange(pos, pos + bytes.len()) == bytes
}

proof fn lemma_le_bytes(n: nat, width: nat)
    requires
        n < values_of(width),
    ensures
        le_bytes(n, width).len() == width,
        flatbuf::le_value(le_bytes(n, width)) == n,
    decreases width,
{
    if width > 0 {
        lemma_le_bytes(n / 256, (width - 1) as nat);
        assert(le_bytes(n, width).drop_first() =~= le_bytes(n / 256, (width - 1) as nat));
    }
}

/// A number that was written into a buffer is read back.
pub proof fn law_number_reads_back(buf: Seq<u8>, pos: int, n: nat, width: nat)
    requires
        n < values_of(width),
        holds(buf, pos, le_bytes(n, width)),
    ensures
        flatbuf::le_at(buf, pos, width) == n,
{
    lemma_le_bytes(n, width);
}

/// The table at `table_pos` points to a vtable at `vtable`, in which the slot of `field` holds
/// `offset`.
pub open spec fn has_field(
    buf: Seq<u8>,
    table_pos: int,
    vtable: int,
    vtable_size: nat,
    field: nat,
    offset: nat,
) -> bool {
    &&& 0 <= vtable
    &&& -0x8000_0000 <= table_pos - vtable < 0x8000_0000
    &&& 4 + 2 * field + 2 <= vtable_size < 0x1_0000
    &&& 0 < offset < 0x1_0000
    &&& holds(buf, table_pos, le_bytes(twos_complement_32(table_pos - vtable), 4))
    &&& holds(buf, vtable, le_bytes(vtable_size, 2))
    &&& holds(buf, vtable + 4 + 2 * field, le_bytes(offset, 2))
}

/// The table at `table_pos` points to a vtable at `vtable`, which has no slot for `field` or one
/// that holds zero.
pub open spec fn lacks_field(
    buf: Seq<u8>,
    table_pos: int,
    vtable: int,
    vtable_size: nat,
    field: nat,
) -> bool {
    &&& 0 <= vtable <= buf.len() - 4
    &&& -0x8000_0000 <= table_pos - vtable < 0x8000_0000
    &&& vtable_size < 0x1_0000
    &&& holds(buf, table_pos, le_bytes(twos_complement_32(table_pos - vtable), 4))
    &&& holds(buf, vtable, le_bytes(vtable_size, 2))
    &&& vtable_size < 4 + 2 * field + 2 || holds(buf, vtable + 4 + 2 * field, le_bytes(0, 2))
}

/// The field `field` of the table refers to what stands at `target`.
pub open spec fn has_reference(
    buf: Seq<u8>,
    table_pos: int,
    vtable: int,
    vtable_size: nat,
    field: nat,
    offset: nat,
    target: int,
) -> bool {
    &&& has_field(buf, table_pos, vtable, vtable_size, field, offset)
    &&& 0 <= target - (table_pos + offset) < 0x1_0000_0000
    &&& holds(buf, table_pos + offset, le_bytes((target - (table_pos + offset)) as nat, 4))
}

/// A string with the characters `text` stands at `target`.
pub open spec fn holds_string(buf: Seq<u8>, target: int, text: Seq<char>) -> bool {
    &&& encode_utf8(text).len() < 0x1_0000_0000
    &&& holds(buf, target, le_bytes(encode_utf8(text).len(), 4))
    &&& holds(buf, target + 4, encode_utf8(text))
}

/// A vector of doubles with the bit patterns `bits` stands at `target`.
pub open spec fn holds_vector(buf: Seq<u8>, target: int, bits: Seq<u64>) -> bool {
    &&& bits.len() < 0x1_0000_0000
    &&& holds(buf, target, le_bytes(bits.len(), 4))
    &&& forall|i: int|
        0 <= i < bits.len() ==> holds(
            buf,
            target + 4 + 8 * i,
            le_bytes(#[trigger] bits[i] as nat, 8),
        )
}

pub proof fn lemma_values_of()
    ensures
        values_of(2) == 0x1_0000,
        values_of(4) == 0x1_0000_0000,
        values_of(8) == 0x1_0000_0000_0000_0000,
{
    reveal_with_fuel(values_of, 9);
}

/// A field that was written into a table is found through the vtable.
pub proof fn law_field_is_found(
    buf: Seq<u8>,
    table_pos: int,
    vtable: int,
    vtable_size: nat,
    field: nat,
    offset: nat,
)
    requires
        has_field(buf, table_pos, vtable, vtable_size, field, offset),
    ensures
        flatbuf::field_offset(buf, table_pos, field as int) == offset,
        buf.len() <= usize::MAX ==> flatbuf::field_fits(buf, table_pos, field as int),
{
    lemma_values_of();
    let distance = twos_complement_32(table_pos - vtable);
    lemma_le_bytes(distance, 4);
    lemma_le_bytes(vtable_size, 2);
    lemma_le_bytes(offset, 2);
    law_number_reads_back(buf, table_pos, distance, 4);
    law_number_reads_back(buf, vtable, vtable_size, 2);
    law_number_reads_back(buf, vtable + 4 + 2 * field, offset, 2);
}

/// A field that a table lacks gives its default, whatever its type is: a number the one that is
/// asked for, a text and a vector the empty one, a table none.
pub proof fn law_absent_field_gives_default(
    buf: Seq<u8>,
    table_pos: int,
    vtable: int,
    vtable_size: nat,
    field: nat,
    width: nat,
    default: nat,
)
    requires
        lacks_field(buf, table_pos, vtable, vtable_size, field),
    ensures
        flatbuf::field_offset(buf, table_pos, field as int) == 0,
        flatbuf::scalar_field(buf, table_pos, field as int, width, default) == default,
        flatbuf::string_field(buf, table_pos, field as int) == Seq::<char>::empty(),
        flatbuf::f64_vec_field(buf, table_pos, field as int) == Seq::<u64>::empty(),
        flatbuf::table_field_pos(buf, table_pos, field as int) is None,
        buf.len() + 2 * field + 2 <= usize::MAX ==> flatbuf::field_fits(
            buf,
            table_pos,
            field as int,
        ),
{
    lemma_values_of();
    let distance = twos_complement_32(table_pos - vtable);
    lemma_le_bytes(distance, 4);
    law_number_reads_back(buf, table_pos, distance, 4);
    law_number_reads_back(buf, vtable, vtable_size, 2);
    if vtable_size >= 4 + 2 * field + 2 {
        law_number_reads_back(buf, vtable + 4 + 2 * field, 0, 2);
    }
}

/// A number that was written into a field of a table is read back.
pub proof fn law_scalar_reads_back(
    buf: Seq<u8>,
    table_pos: int,
    vtable: int,
    vtable_size: nat,
    field: nat,
    offset: nat,
    n: nat,
    width: nat,
    default: nat,
)
    requires
        has_field(buf, table_pos, vtable, vtable_size, field, offset),
        n < values_of(width),
        holds(buf, table_pos + offset, le_bytes(n, width)),
    ensures
        flatbuf::scalar_field(buf, table_pos, field as int, width, default) == n,
{
    law_field_is_found(buf, table_pos, vtable, vtable_size, field, offset);
    law_number_reads_back(buf, table_pos + offset, n, width);
}

/// A field that was written as the distance to `target` is followed there.
pub proof fn law_reference_is_followed(
    buf: Seq<u8>,
    table_pos: int,
    vtable: int,
    vtable_size: nat,
    field: nat,
    offset: nat,
    target: int,
)
    requires
        has_reference(buf, table_pos, vtable, vtable_size, field, offset, target),
    ensures
        flatbuf::table_field_pos(buf, table_pos, field as int) == Some(target),
        target <= buf.len() <= usize::MAX ==> flatbuf::target_fits(
            buf,
            table_pos,
            field as int,
            0,
        ),
{
    lemma_values_of();
    law_field_is_found(buf, table_pos, vtable, vtable_size, field, offset);
    law_number_reads_back(
        buf,
        table_pos + offset,
        (target - (table_pos + offset)) as nat,
        4,
    );
}

/// A text that was written into a string field is read back.
pub proof fn law_string_reads_back(
    buf: Seq<u8>,
    table_pos: int,
    vtable: int,
    vtable_size: nat,
    field: nat,
    offset: nat,
    target: int,
    text: Seq<char>,
)
    requires
        has_reference(buf, table_pos, vtable, vtable_size, field, offset, target),
        holds_string(buf, target, text),
    ensures
        flatbuf::string_field(buf, table_pos, field as int) == text,
        buf.len() <= usize::MAX ==> flatbuf::string_fits(buf, table_pos, field as int),
{
    lemma_values_of();
    law_reference_is_followed(buf, table_pos, vtable, vtable_size, field, offset, target);
    lemma_le_bytes(encode_utf8(text).len(), 4);
    law_number_reads_back(buf, target, encode_utf8(text).len(), 4);
    encode_utf8_valid_utf8(text);
    encode_utf8_decode_utf8(text);
}

/// A vector of doubles that was written into a field is read back, up to the cap.
pub proof fn law_vector_reads_back(
    buf: Seq<u8>,
    table_pos: int,
    vtable: int,
    vtable_size: nat,
    field: nat,
    offset: nat,
    target: int,
    bits: Seq<u64>,
)
    requires
        has_reference(buf, table_pos, vtable, vtable_size, field, offset, target),
        holds_vector(buf, target, bits),
    ensures
        buf.len() <= usize::MAX ==> flatbuf::target_fits(buf, table_pos, field as int, 4),
        flatbuf::f64_vec_field(buf, table_pos, field as int) == if bits.len() <= 8 {
            bits
        } else {
            bits.take(8)
        },
{
    lemma_values_of();
    law_reference_is_followed(buf, table_pos, vtable, vtable_size, field, offset, target);
    lemma_le_bytes(bits.len(), 4);
    law_number_reads_back(buf, target, bits.len(), 4);
    assert forall|i: int| 0 <= i < bits.len() implies flatbuf::le_at(
        buf,
        target + 4 + 8 * i,
        8,
    ) == #[trigger] bits[i] by {
        law_number_reads_back(buf, target + 4 + 8 * i, bits[i] as nat, 8);
    }
    let read = flatbuf::f64_vec_field(buf, table_pos, field as int);
    let expected = if bits.len() <= flatbuf::VECTOR_CAP {
        bits
    } else {
        bits.take(flatbuf::VECTOR_CAP as int)
    };
    assert forall|i: int| 0 <= i < read.len() implies read[i] == expected[i] by {
        assert(expected[i] == bits[i]);
    }
    assert(read =~= expected);
}

// ---- Headers ----

/// Where a table and its fields stand.
pub struct TableLayout {
    pub pos: int,
    pub vtable: int,
    pub vtable_size: nat,
    /// The offset of each field from the start of the table.
    pub offsets: spec_fn(nat) -> nat,
    /// What each field that is a reference refers to.
    pub targets: spec_fn(nat) -> int,
}

impl TableLayout {
    /// The table lacks the field `field`.
    pub open spec fn lacks(self, buf: Seq<u8>, field: nat) -> bool {
        lacks_field(buf, self.pos, self.vtable, self.vtable_size, field)
    }

    /// The field `field` of the table refers to its target.
    pub open spec fn refers(self, buf: Seq<u8>, field: nat) -> bool {
        has_reference(
            buf,
            self.pos,
            self.vtable,
            self.vtable_size,
            field,
            (self.offsets)(field),
            (self.targets)(field),
        )
    }

    /// The field `field` of the table holds the number `n` in `width` bytes, or the table lacks
    /// it and `n` is its default.
    pub open spec fn has_scalar(
        self,
        buf: Seq<u8>,
        field: nat,
        n: nat,
        width: nat,
        default: nat,
    ) -> bool {
        let offset = (self.offsets)(field);
        if self.lacks(buf, field) {
            n == default
        } else {
            &&& has_field(buf, self.pos, self.vtable, self.vtable_size, field, offset)
            &&& n < values_of(width)
            &&& holds(buf, self.pos + offset, le_bytes(n, width))
        }
    }

    /// The field `field` of the table is the string `text`, or the table lacks it and `text` is
    /// empty.
    pub open spec fn has_string(self, buf: Seq<u8>, field: nat, text: Seq<char>) -> bool {
        if self.lacks(buf, field) {
            text.len() == 0
        } else {
            self.refers(buf, field) && holds_string(buf, (self.targets)(field), text)
        }
    }

    /// The field `field` of the table is the vector `bits`, or the table lacks it and `bits` is
    /// empty.
    pub open spec fn has_vector(self, buf: Seq<u8>, field: nat, bits: Seq<u64>) -> bool {
        if self.lacks(buf, field) {
            bits.len() == 0
        } else {
            self.refers(buf, field) && holds_vector(buf, (self.targets)(field), bits)
        }
    }

    proof fn lemma_scalar(self, buf: Seq<u8>, field: nat, n: nat, width: nat, default: nat)
        requires
            self.has_scalar(buf, field, n, width, default),
            buf.len() + 2 * field + 2 <= usize::MAX,
        ensures
            flatbuf::field_fits(buf, self.pos, field as int),
            flatbuf::scalar_field(buf, self.pos, field as int, width, default) == n,
    {
        let offset = (self.offsets)(field);
        let (pos, vtable, size) = (self.pos, self.vtable, self.vtable_size);
        if self.lacks(buf, field) {
            law_absent_field_gives_default(buf, pos, vtable, size, field, width, default);
        } else {
            law_field_is_found(buf, pos, vtable, size, field, offset);
            law_scalar_reads_back(buf, pos, vtable, size, field, offset, n, width, default);
        }
    }

    proof fn lemma_string(self, buf: Seq<u8>, field: nat, text: Seq<char>)
        requires
            self.has_string(buf, field, text),
            buf.len() + 2 * field + 2 <= usize::MAX,
        ensures
            flatbuf::string_fits(buf, self.pos, field as int),
            flatbuf::string_field(buf, self.pos, field as int) == text,
    {
        let (offset, target) = ((self.offsets)(field), (self.targets)(field));
        let (pos, vtable, size) = (self.pos, self.vtable, self.vtable_size);
        if self.lacks(buf, field) {
            law_absent_field_gives_default(buf, pos, vtable, size, field, 0, 0);
        } else {
            law_string_reads_back(buf, pos, vtable, size, field, offset, target, text);
        }
    }

    proof fn lemma_vector(self, buf: Seq<u8>, field: nat, bits: Seq<u64>)
        requires
            self.has_vector(buf, field, bits),
            bits.len() <= flatbuf::VECTOR_CAP,
            buf.len() + 2 * field + 2 <= usize::MAX,
        ensures
            flatbuf::target_fits(buf, self.pos, field as int, 4),
            flatbuf::f64_vec_field(buf, self.pos, field as int) == bits,
    {
        let (offset, target) = ((self.offsets)(field), (self.targets)(field));
        let (pos, vtable, size) = (self.pos, self.vtable, self.vtable_size);
        if self.lacks(buf, field) {
            law_absent_field_gives_default(buf, pos, vtable, size, field, 0, 0);
        } else {
            law_vector_reads_back(buf, pos, vtable, size, field, offset, target, bits);
        }
    }
}

/// The header `h` is written out in `buf`, with its table and that of its reference system laid
/// out as `root` and `crs` say. Each field may be missing where its value is its default, and so
/// may the whole reference system.
pub open spec fn is_written(
    buf: Seq<u8>,
    root: TableLayout,
    crs: TableLayout,
    h: fgb::HeaderView,
) -> bool {
    &&& 0 <= root.pos < 0x1_0000_0000
    &&& holds(buf, 0, le_bytes(root.pos as nat, 4))
    &&& root.has_string(buf, 0, h.name)
    &&& root.has_vector(buf, 1, h.envelope)
    &&& root.has_scalar(buf, 2, h.geometry_type as nat, 1, 0)
    &&& root.has_scalar(buf, 8, h.features_count as nat, 8, 0)
    &&& root.has_scalar(buf, 9, h.index_node_size as nat, 2, 16)
    &&& if root.lacks(buf, 10) {
        h.crs_org.len() == 0 && h.crs_code == 0 && h.crs_name.len() == 0
    } else {
        &&& root.refers(buf, 10)
        &&& (root.targets)(10) == crs.pos
        &&& crs.has_string(buf, 0, h.crs_org)
        &&& crs.has_scalar(buf, 1, twos_complement_32(h.crs_code as int), 4, 0)
        &&& crs.has_string(buf, 2, h.crs_name)
    }
}

/// A header that was written out is read back, whatever the layout of its tables is and
/// whichever fields were left out, with the size that follows for its index. No buffer is longer
/// than `isize::MAX`.
pub proof fn law_header_reads_back(
    buf: Seq<u8>,
    root: TableLayout,
    crs: TableLayout,
    h: fgb::HeaderView,
)
    requires
        buf.len() <= isize::MAX,
        is_written(buf, root, crs, h),
        h.envelope.len() <= 8,
        fgb::index_fits(h.features_count as nat, h.index_node_size as nat),
        h.index_bytes_approx == fgb::index_bytes(
            h.features_count as nat,
            h.index_node_size as nat,
        ),
    ensures
        fgb::header_fits(buf),
        fgb::header_of(buf) == h,
{
    lemma_values_of();
    law_number_reads_back(buf, 0, root.pos as nat, 4);
    root.lemma_string(buf, 0, h.name);
    root.lemma_vector(buf, 1, h.envelope);
    root.lemma_scalar(buf, 2, h.geometry_type as nat, 1, 0);
    root.lemma_scalar(buf, 8, h.features_count as nat, 8, 0);
    root.lemma_scalar(buf, 9, h.index_node_size as nat, 2, 16);
    let (pos, vtable, size) = (root.pos, root.vtable, root.vtable_size);
    if root.lacks(buf, 10) {
        law_absent_field_gives_default(buf, pos, vtable, size, 10, 0, 0);
    } else {
        law_reference_is_followed(buf, pos, vtable, size, 10, (root.offsets)(10), crs.pos);
        crs.lemma_string(buf, 0, h.crs_org);
        crs.lemma_scalar(buf, 1, twos_complement_32(h.crs_code as int), 4, 0);
        crs.lemma_string(buf, 2, h.crs_name);
    }
    assert(fgb::header_of(buf) =~= h);
}

/// A header without a reference system has empty texts and the code zero in its place.
pub proof fn law_reference_system_may_be_missing(buf: Seq<u8>, root: TableLayout)
    requires
        fgb::root_pos(buf) == root.pos,
        root.lacks(buf, 10),
    ensures
        fgb::header_of(buf).crs_org.len() == 0,
        fgb::header_of(buf).crs_code == 0,
        fgb::header_of(buf).crs_name.len() == 0,
{
    law_absent_field_gives_default(buf, root.pos, root.vtable, root.vtable_size, 10, 0, 0);
}

/// A header without an index node size has nodes of 16 items.
pub proof fn law_node_size_may_be_missing(buf: Seq<u8>, root: TableLayout)
    requires
        fgb::root_pos(buf) == root.pos,
        root.lacks(buf, 9),
    ensures
        fgb::header_of(buf).index_node_size == 16,
{
    law_absent_field_gives_default(buf, root.pos, root.vtable, root.vtable_size, 9, 2, 16);
}

/// A header whose table lies outside its bytes says nothing: its texts are empty, its numbers
/// are zero, and its index has nodes of 16 items.
pub proof fn law_missing_table_gives_defaults(header: Seq<u8>)
    requires
        fgb::root_pos(header) + 4 > header.len(),
    ensures
        fgb::header_of(header) == (fgb::HeaderView {
            name: seq![],
            envelope: seq![],
            geometry_type: 0,
            features_count: 0,
            index_node_size: 16,
            index_bytes_approx: 40,
            crs_org: seq![],
            crs_code: 0,
            crs_name: seq![],
        }),
{
}

/// No more than eight doubles of an envelope are read.
pub proof fn law_envelope_is_capped(header: Seq<u8>)
    ensures
        fgb::header_of(header).envelope.len() <= 8,
{
}

/// The size of an index is that of whole nodes, of which there is at least one unless there is
/// no index.
pub proof fn law_index_holds_whole_nodes(features: nat, node_size: nat)
    ensures
        fgb::index_bytes(features, node_size) % 40 == 0,
        fgb::index_bytes(features, node_size) == 0 <==> node_size == 0,
{
}

/// `parents` nodes of `node_size` hold `items`, and no fewer do.
pub open spec fn just_hold(parents: nat, node_size: nat, items: nat) -> bool {
    items <= parents * node_size && (parents - 1) * node_size < items
}

/// The size of an index follows from that of the index over the nodes above: where nodes hold
/// two items or more, `parents` of them hold two features or more, and the index over the
/// features takes forty bytes for each of these more than the index over them.
pub proof fn law_index_adds_up(features: nat, node_size: nat, parents: nat)
    requires
        just_hold(parents, node_size, features),
    ensures
        features >= 2 && node_size >= 2 ==> fgb::index_bytes(features, node_size) == 40 * parents
            + fgb::index_bytes(parents, node_size),
{
    if features >= 2 && node_size >= 2 {
        let total = (features + node_size - 1) as nat;
        let q = total / node_size;
        vstd::arithmetic::div_mod::lemma_fundamental_div_mod(total as int, node_size as int);
        assert(q == parents) by (nonlinear_arith)
            requires
                total == features + node_size - 1,
                total == node_size * q + total % node_size,
                0 <= total % node_size < node_size,
                features <= parents * node_size,
                (parents - 1) * node_size < features,
                node_size >= 2,
        ;
        fgb::lemma_fewer_parents(features, node_size);
    }
}

/// One feature or none takes forty bytes, and nodes that hold nothing make no index.
pub proof fn law_smallest_indexes(features: nat, node_size: nat)
    ensures
        node_size == 0 ==> fgb::index_bytes(features, node_size) == 0,
        node_size > 0 && features <= 1 ==> fgb::index_bytes(features, node_size) == 40,
{
}

/// The size of an index can be summed up unless nodes of one item are to hold two or more, or a
/// sum on the way is beyond 64 bits; with nodes of two items or more it can for each ordinary
/// number of features.
pub proof fn law_indexes_that_fit(features: nat, node_size: nat)
    ensures
        node_size == 0 || features <= 1 ==> fgb::index_fits(features, node_size),
        node_size == 1 && features >= 2 ==> !fgb::index_fits(features, node_size),
        node_size >= 2 && features >= 2 ==> (fgb::index_fits(features, node_size) <==> features
            + node_size < 0x1_0000_0000_0000_0000 && fgb::index_bytes(features, node_size)
            < 0x1_0000_0000_0000_0000),
        2 <= node_size < 0x1_0000 && features <= 0x100_0000_0000_0000 ==> fgb::index_fits(
            features,
            node_size,
        ),
{
    if node_size >= 2 && features >= 1 {
        lemma_nodes_are_few(features, node_size);
    }
}

proof fn lemma_nodes_are_few(items: nat, node_size: nat)
    requires
        items >= 1,
        node_size >= 2,
    ensures
        fgb::nodes_above(items, node_size) <= 2 * items - 2,
    decreases items,
{
    if items > 1 {
        let total = (items + node_size - 1) as nat;
        let parents = total / node_size;
        fgb::lemma_fewer_parents(items, node_size);
        lemma_nodes_are_few(parents, node_size);
        vstd::arithmetic::div_mod::lemma_fundamental_div_mod(total as int, node_size as int);
        assert(2 * parents <= items + 1) by (nonlinear_arith)
            requires
                total == items + node_size - 1,
                total == node_size * parents + total % node_size,
                0 <= total % node_size,
                node_size >= 2,
                items >= 2,
        ;
    }
}

/// The geometry types have their names, and all that are not known have one.
pub proof fn law_geometry_types_have_names(geometry_type: u8)
    ensures
        ({
            let name = fgb::geometry_name(geometry_type);
            &&& geometry_type == 0 <==> name == "Unknown"@
            &&& geometry_type == 1 <==> name == "Point"@
            &&& geometry_type == 2 <==> name == "LineString"@
            &&& geometry_type == 3 <==> name == "Polygon"@
            &&& geometry_type == 4 <==> name == "MultiPoint"@
            &&& geometry_type == 5 <==> name == "MultiLineString"@
            &&& geometry_type == 6 <==> name == "MultiPolygon"@
            &&& geometry_type == 7 <==> name == "GeometryCollection"@
            &&& geometry_type > 7 <==> name == "Other"@
        }),
{
    reveal_strlit("Unknown");
    reveal_strlit("Point");
    reveal_strlit("LineString");
    reveal_strlit("Polygon");
    reveal_strlit("MultiPoint");
    reveal_strlit("MultiLineString");
    reveal_strlit("MultiPolygon");
    reveal_strlit("GeometryCollection");
    reveal_strlit("Other");
    assert("Unknown"@.len() == 7 && "Polygon"@.len() == 7 && "Unknown"@[0] != "Polygon"@[0]);
    assert("Point"@.len() == 5 && "Other"@.len() == 5 && "Point"@[0] != "Other"@[0]);
    assert("LineString"@.len() == 10 && "MultiPoint"@.len() == 10 && "LineString"@[0]
        != "MultiPoint"@[0]);
    assert("MultiLineString"@.len() == 15 && "MultiPolygon"@.len() == 12
        && "GeometryCollection"@.len() == 18);
}

/// More features never make the index smaller.
pub proof fn law_index_grows(few: nat, many: nat, node_size: nat)
    requires
        few <= many,
    ensures
        fgb::index_bytes(few, node_size) <= fgb::index_bytes(many, node_size),
{
    lemma_nodes_grow(few, many, node_size);
}

proof fn lemma_nodes_grow(few: nat, many: nat, node_size: nat)
    requires
        few <= many,
    ensures
        fgb::nodes_above(few, node_size) <= fgb::nodes_above(many, node_size),
    decreases many,
{
    if few > 1 && node_size > 1 {
        fgb::lemma_fewer_parents(few, node_size);
        fgb::lemma_fewer_parents(many, node_size);
        vstd::arithmetic::div_mod::lemma_div_is_ordered(
            few + node_size - 1,
            many + node_size - 1,
            node_size as int,
        );
        lemma_nodes_grow(
            ((few + node_size - 1) as nat) / node_size,
            ((many + node_size - 1) as nat) / node_size,
            node_size,
        );
    }
}

} // verus!
