//! Request-level rules of the HTTP server: which embedded file a path names, which
//! paths belong to the API, query parameters, and the session token check.
use vstd::prelude::*;
use crate::text::{str_chars, chars_eq, chars_start_with, chars_to_string, extend_chars, owned};
use crate::split::{split_pieces, join_pieces, piece_views, split_chars, lemma_split_first, lemma_split_nonempty};

verus! {

/// `s` without its leading `c` characters (what `str::trim_start_matches` returns
/// for a character).
pub open spec fn strip_leading(s: Seq<char>, c: char) -> Seq<char>
    decreases s.len(),
{
    if s.len() > 0 && s[0] == c {
        strip_leading(s.drop_first(), c)
    } else {
        s
    }
}

/// The path segments that name something: neither empty nor `.`.
pub open spec fn useful_segments(ps: Seq<Seq<char>>) -> Seq<Seq<char>>
    decreases ps.len(),
{
    if ps.len() == 0 {
        ps
    } else {
        let rest = useful_segments(ps.drop_last());
        if ps.last().len() == 0 || ps.last() == "."@ {
            rest
        } else {
            rest.push(ps.last())
        }
    }
}

/// The embedded file that a request path names: leading slashes are dropped, empty and
/// `.` segments skipped, and a path with a backslash or a `..` segment names nothing;
/// what names no segment is `index.html`.
pub open spec fn embedded_path_spec(path: Seq<char>) -> Option<Seq<char>> {
    let p = strip_leading(path, '/');
    if p.len() == 0 {
        Some("index.html"@)
    } else if p.contains('\\') {
        None
    } else {
        let segs = split_pieces(p, Some('/'));
        if segs.contains(".."@) {
            None
        } else {
            let kept = useful_segments(segs);
            if kept.len() == 0 {
                Some("index.html"@)
            } else {
                Some(join_pieces(kept, '/'))
            }
        }
    }
}

proof fn lemma_strip_leading(s: Seq<char>, c: char, i: int)
    requires
        0 <= i <= s.len(),
        forall|k: int| 0 <= k < i ==> #[trigger] s[k] == c,
        i == s.len() || s[i] != c,
    ensures
        strip_leading(s, c) == s.skip(i),
    decreases i,
{
    if i > 0 {
        lemma_strip_leading(s.drop_first(), c, i - 1);
        assert(s.drop_first().skip(i - 1) =~= s.skip(i));
    } else {
        assert(s.skip(0) =~= s);
    }
}

fn copy_from(s: &Vec<char>, start: usize) -> (r: Vec<char>)
    requires
        start <= s@.len(),
    ensures
        r@ == s@.skip(start as int),
{
    let mut r: Vec<char> = Vec::new();
    let mut k: usize = start;
    while k < s.len()
        invariant
            start <= k <= s@.len(),
            r@ == s@.subrange(start as int, k as int),
        decreases s@.len() - k,
    {
        r.push(s[k]);
        assert(s@.subrange(start as int, k as int + 1) =~= s@.subrange(start as int, k as int).push(
            s@[k as int],
        ));
        k = k + 1;
    }
    assert(s@.subrange(start as int, s@.len() as int) =~= s@.skip(start as int));
    r
}

/// The embedded file that a request path names, if any.
pub fn embedded_request_path(path: &str) -> (r: Option<String>)
    ensures
        match embedded_path_spec(path@) {
            None => r is None,
            Some(p) => r matches Some(s) && s@ == p,
        },
{
    let chars = str_chars(path);
    let mut i: usize = 0;
    while i < chars.len() && chars[i] == '/'
        invariant
            i <= chars@.len(),
            chars@ == path@,
            forall|k: int| 0 <= k < i ==> #[trigger] chars@[k] == '/',
        decreases chars@.len() - i,
    {
        i = i + 1;
    }
    proof {
        lemma_strip_leading(path@, '/', i as int);
    }
    let p = copy_from(&chars, i);
    assert(strip_leading(path@, '/') == p@);
    if p.len() == 0 {
        return Some(owned("index.html"));
    }
    let mut b: usize = 0;
    while b < p.len()
        invariant
            b <= p@.len(),
            p@.len() > 0,
            p@ == strip_leading(path@, '/'),
            forall|k: int| 0 <= k < b ==> #[trigger] p@[k] != '\\',
        decreases p@.len() - b,
    {
        if p[b] == '\\' {
            assert(p@.contains('\\'));
            return None;
        }
        b = b + 1;
    }
    assert(!p@.contains('\\'));
    let segs = split_chars(&p, Some('/'), false);
    let ghost views = piece_views(segs@);
    let dots = str_chars("..");
    let dot = str_chars(".");
    let mut out: Vec<char> = Vec::new();
    let mut n: usize = 0;
    let mut j: usize = 0;
    proof {
        assert(views.take(0) =~= Seq::<Seq<char>>::empty());
    }
    while j < segs.len()
        invariant
            j <= segs@.len(),
            p@.len() > 0,
            !p@.contains('\\'),
            p@ == strip_leading(path@, '/'),
            views == piece_views(segs@),
            views == split_pieces(p@, Some('/')),
            dots@ == ".."@,
            dot@ == "."@,
            forall|k: int| 0 <= k < j ==> #[trigger] views[k] != ".."@,
            out@ == join_pieces(useful_segments(views.take(j as int)), '/'),
            n as int == useful_segments(views.take(j as int)).len(),
            n <= j,
        decreases segs@.len() - j,
    {
        let seg = &segs[j];
        assert(seg@ == views[j as int]);
        if chars_eq(seg, &dots) {
            assert(views.contains(".."@));
            return None;
        }
        let ghost before = useful_segments(views.take(j as int));
        assert(views.take(j as int + 1).drop_last() =~= views.take(j as int));
        if seg.len() == 0 || chars_eq(seg, &dot) {
        } else {
            let ghost old_out = out@;
            if n > 0 {
                out.push('/');
            }
            extend_chars(&mut out, seg.as_slice());
            proof {
                let after = before.push(seg@);
                assert(after.drop_last() =~= before);
                if n == 0 {
                    assert(out@ =~= seg@);
                } else {
                    assert(out@ =~= old_out.push('/') + seg@);
                }
            }
            n = n + 1;
        }
        j = j + 1;
    }
    assert(views.take(segs@.len() as int) =~= views);
    assert(!views.contains(".."@));
    if n == 0 {
        Some(owned("index.html"))
    } else {
        Some(chars_to_string(out.as_slice()))
    }
}

/// Whether a path belongs to the API or to the asset routes, and so is never served
/// from the embedded web UI.
pub open spec fn api_like_spec(path: Seq<char>) -> bool {
    ||| path == "/api"@
    ||| "/api/"@.is_prefix_of(path)
    ||| path == "/assets"@
    ||| "/assets/"@.is_prefix_of(path)
}

pub fn is_api_like_path(path: &str) -> (r: bool)
    ensures
        r == api_like_spec(path@),
{
    let p = str_chars(path);
    let api = str_chars("/api");
    let api_dir = str_chars("/api/");
    let assets = str_chars("/assets");
    let assets_dir = str_chars("/assets/");
    let r = chars_eq(&p, &api) || chars_start_with(&p, &api_dir) || chars_eq(&p, &assets)
        || chars_start_with(&p, &assets_dir);
    proof {
        assert("/api/"@.is_prefix_of(path@) == ("/api/"@.len() <= path@.len() && path@.take(
            "/api/"@.len() as int,
        ) == "/api/"@));
        assert("/assets/"@.is_prefix_of(path@) == ("/assets/"@.len() <= path@.len()
            && path@.take("/assets/"@.len() as int) == "/assets/"@));
    }
    r
}

/// The key of a `key=value` pair: what comes before the first `=`.
pub open spec fn pair_key(pair: Seq<char>) -> Seq<char> {
    split_pieces(pair, Some('='))[0]
}

/// The value of a `key=value` pair: what comes after the first `=`, empty where there
/// is none.
pub open spec fn pair_value(pair: Seq<char>) -> Seq<char> {
    let k = pair_key(pair);
    if k.len() < pair.len() {
        pair.skip(k.len() as int + 1)
    } else {
        Seq::empty()
    }
}

/// The value of the first pair whose key is `name`.
pub open spec fn first_param(pairs: Seq<Seq<char>>, name: Seq<char>) -> Option<Seq<char>>
    decreases pairs.len(),
{
    if pairs.len() == 0 {
        None
    } else {
        match first_param(pairs.drop_last(), name) {
            Some(v) => Some(v),
            None => if pair_key(pairs.last()) == name {
                Some(pair_value(pairs.last()))
            } else {
                None
            },
        }
    }
}

proof fn lemma_first_param_prefix(pairs: Seq<Seq<char>>, name: Seq<char>, k: int)
    requires
        0 <= k <= pairs.len(),
        first_param(pairs.take(k), name) is Some,
    ensures
        first_param(pairs, name) == first_param(pairs.take(k), name),
    decreases pairs.len(),
{
    if k == pairs.len() {
        assert(pairs.take(k) =~= pairs);
    } else {
        assert(pairs.drop_last().take(k) =~= pairs.take(k));
        lemma_first_param_prefix(pairs.drop_last(), name, k);
    }
}

/// The value of the query parameter `name`: the first `&`-separated pair with that key.
pub open spec fn query_param_spec(query: Option<Seq<char>>, name: Seq<char>) -> Option<Seq<char>> {
    match query {
        None => None,
        Some(q) => first_param(split_pieces(q, Some('&')), name),
    }
}

pub open spec fn opt_str_view(o: Option<&str>) -> Option<Seq<char>> {
    match o {
        Some(s) => Some(s@),
        None => None,
    }
}

/// The value of the query parameter `name` in the query string `query` (the part of
/// the URI after `?`, where there is one).
pub fn query_param(query: Option<&str>, name: &str) -> (r: Option<String>)
    ensures
        match query_param_spec(opt_str_view(query), name@) {
            None => r is None,
            Some(v) => r matches Some(s) && s@ == v,
        },
{
    let q = match query {
        None => {
            return None;
        },
        Some(q) => q,
    };
    let qc = str_chars(q);
    let wanted = str_chars(name);
    let pairs = split_chars(&qc, Some('&'), false);
    let ghost views = piece_views(pairs@);
    let mut j: usize = 0;
    proof {
        assert(views.take(0) =~= Seq::<Seq<char>>::empty());
    }
    while j < pairs.len()
        invariant
            j <= pairs@.len(),
            views == piece_views(pairs@),
            views == split_pieces(q@, Some('&')),
            wanted@ == name@,
            opt_str_view(query) == Some(q@),
            first_param(views.take(j as int), name@) is None,
        decreases pairs@.len() - j,
    {
        let pair = &pairs[j];
        assert(pair@ == views[j as int]);
        assert(views.take(j as int + 1).drop_last() =~= views.take(j as int));
        let parts = split_chars(pair, Some('='), false);
        proof {
            lemma_split_first(pair@, Some('='));
            lemma_split_nonempty(pair@, Some('='));
            assert(piece_views(parts@)[0] == parts@[0]@);
        }
        let key = &parts[0];
        if chars_eq(key, &wanted) {
            let value = if key.len() < pair.len() {
                copy_from(pair, key.len() + 1)
            } else {
                Vec::new()
            };
            assert(value@ =~= pair_value(pair@));
            proof {
                let t = views.take(j as int + 1);
                assert(t.last() == pair@);
                assert(pair_key(pair@) == key@);
                assert(first_param(t, name@) == Some(pair_value(pair@)));
                lemma_first_param_prefix(views, name@, j as int + 1);
            }
            let out = chars_to_string(value.as_slice());
            return Some(out);
        }
        j = j + 1;
    }
    assert(views.take(pairs@.len() as int) =~= views);
    None
}

/// The token of an `Authorization: Bearer <token>` header.
pub open spec fn bearer_token(authorization: Option<Seq<char>>) -> Option<Seq<char>> {
    match authorization {
        Some(a) => if "Bearer "@.is_prefix_of(a) {
            Some(a.skip(7))
        } else {
            None
        },
        None => None,
    }
}

/// Whether a request carries the session token: always where none is expected;
/// else the `x-session-token` header (or, where that is absent, the bearer token of
/// the `Authorization` header) or the `token` query parameter must equal it.
pub open spec fn has_token_spec(
    expected: Option<Seq<char>>,
    session_header: Option<Seq<char>>,
    authorization: Option<Seq<char>>,
    query: Option<Seq<char>>,
) -> bool {
    match expected {
        None => true,
        Some(e) => {
            let header_token = match session_header {
                Some(s) => Some(s),
                None => bearer_token(authorization),
            };
            header_token == Some(e) || query_param_spec(query, "token"@) == Some(e)
        },
    }
}

fn bearer_token_of(authorization: Option<&str>) -> (r: Option<Vec<char>>)
    ensures
        match bearer_token(opt_str_view(authorization)) {
            None => r is None,
            Some(t) => r matches Some(v) && v@ == t,
        },
{
    match authorization {
        None => None,
        Some(a) => {
            let chars = str_chars(a);
            let prefix = str_chars("Bearer ");
            proof {
                reveal_strlit("Bearer ");
            }
            if chars_start_with(&chars, &prefix) {
                assert("Bearer "@.is_prefix_of(a@));
                Some(copy_from(&chars, 7))
            } else {
                assert(!"Bearer "@.is_prefix_of(a@));
                None
            }
        },
    }
}

/// Whether a request carries the expected session token. `session_header` and
/// `authorization` are the request's `x-session-token` and `Authorization` headers,
/// where they are present as text; `query` is its query string.
pub fn request_has_token(
    expected: Option<&str>,
    session_header: Option<&str>,
    authorization: Option<&str>,
    query: Option<&str>,
) -> (r: bool)
    ensures
        r == has_token_spec(
            opt_str_view(expected),
            opt_str_view(session_header),
            opt_str_view(authorization),
            opt_str_view(query),
        ),
{
    let e = match expected {
        None => {
            return true;
        },
        Some(e) => e,
    };
    let ec = str_chars(e);
    let header_token: Option<Vec<char>> = match session_header {
        Some(s) => Some(str_chars(s)),
        None => bearer_token_of(authorization),
    };
    let header_matches = match &header_token {
        Some(t) => chars_eq(t, &ec),
        None => false,
    };
    if header_matches {
        return true;
    }
    match query_param(query, "token") {
        Some(v) => {
            let vc = str_chars(v.as_str());
            chars_eq(&vc, &ec)
        },
        None => false,
    }
}

} // verus!
