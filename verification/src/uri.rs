//! The path that a request asks for.

use vstd::prelude::*;
use vstd::string::*;

use crate::search;

verus! {

/// `s` without the slashes at its end.
pub open spec fn trim_slashes(s: Seq<char>) -> Seq<char>
    decreases s.len(),
{
    if s.len() > 0 && s.last() == '/' {
        trim_slashes(s.drop_last())
    } else {
        s
    }
}

/// What separates a scheme from a host.
pub open spec fn scheme_mark() -> Seq<char> {
    seq![':', '/', '/']
}

/// A URI without its query.
pub open spec fn without_query(uri: Seq<char>) -> Seq<char> {
    search::before(uri, seq!['?'])
}

/// What follows the host of an absolute URI without a query, from its first slash on; it ends
/// in front of a second scheme mark. `None` where the URI has no scheme mark or no slash after
/// its host.
pub open spec fn after_host(uri: Seq<char>) -> Option<Seq<char>> {
    match search::find_from(uri, scheme_mark(), 0) {
        None => None,
        Some(i) => {
            let segment = search::before(uri.skip(i + 3), scheme_mark());
            match search::find_from(segment, seq!['/'], 0) {
                None => None,
                Some(k) => Some(segment.skip(k)),
            }
        },
    }
}

/// The path of a URI without a query, which may be absolute.
pub open spec fn path_part(uri: Seq<char>) -> Seq<char> {
    match after_host(uri) {
        Some(rest) => rest,
        None => uri,
    }
}

/// The path by which a request is routed: without query and without slashes at the end.
pub open spec fn path_of(uri: Seq<char>) -> Seq<char> {
    trim_slashes(path_part(without_query(uri)))
}

/// The path by which a request for `uri` is routed.
pub fn request_path<'a>(uri: &'a str) -> (r: &'a str)
    ensures
        r@ == path_of(uri@),
{
    let chars = search::chars_of(uri);
    let mark: [char; 3] = [':', '/', '/'];
    let slash: [char; 1] = ['/'];
    let question: [char; 1] = ['?'];
    proof {
        assert(mark@ =~= scheme_mark());
        assert(slash@ =~= seq!['/']);
        assert(question@ =~= seq!['?']);
    }
    let mut start: usize = 0;
    let mut end: usize = match search::find(&chars, &question) {
        Some(q) => q,
        None => chars.len(),
    };
    let ghost bare = without_query(uri@);
    assert(chars@.subrange(0, end as int) =~= bare);
    match search::find(&chars[0..end], &mark) {
        None => {},
        Some(i) => {
            let host = i + 3;
            assert(chars@.subrange(host as int, end as int) =~= bare.skip(host as int));
            let segment_end = match search::find(&chars[host..end], &mark) {
                Some(j) => host + j,
                None => end,
            };
            let ghost segment = search::before(bare.skip(host as int), scheme_mark());
            assert(chars@.subrange(host as int, segment_end as int) =~= segment);
            match search::find(&chars[host..segment_end], &slash) {
                None => {},
                Some(k) => {
                    start = host + k;
                    end = segment_end;
                    assert(chars@.subrange(start as int, end as int) =~= segment.skip(k as int));
                },
            }
        },
    }
    let ghost untrimmed = path_part(bare);
    assert(chars@.subrange(start as int, end as int) =~= untrimmed);
    while end > start && chars[end - 1] == '/'
        invariant
            start <= end <= chars.len(),
            trim_slashes(chars@.subrange(start as int, end as int)) == trim_slashes(untrimmed),
        decreases end,
    {
        assert(chars@.subrange(start as int, end as int).drop_last() =~= chars@.subrange(
            start as int,
            end - 1,
        ));
        end = end - 1;
    }
    uri.substring_char(start, end)
}

} // verus!
