//! Properties that relate validation, routing and parsing, stated over the
//! spec functions that the operations' contracts use, and proved.
use vstd::prelude::*;

use crate::request::{
    blank_line_at, body_of, early_status, header_end_from, http11, line_tokens, request_line,
    Request, MAX_URI,
};
use crate::params::{pairs_map, params_map};
use crate::request_type::{method_named, RequestType};
use crate::response::StatusCode;
use crate::router::{
    dispatch_of, find_exact_from, find_template_from, is_placeholder, is_template_for,
    lemma_find_exact, lemma_find_template, path_params, placeholder_name, routed_params, segments,
    routed_from, template_matches, template_pairs, Dispatch, Routed,
};
use crate::text::{all_ws, is_ws, lines_from, pairs_of, tokens_from};

verus! {

proof fn lemma_blank_has_no_tokens(s: Seq<char>, cur: Seq<char>)
    requires
        all_ws(s),
        cur.len() == 0,
    ensures
        tokens_from(s, cur).len() == 0,
    decreases s.len(),
{
    if s.len() > 0 {
        assert(is_ws(s[0]));
        assert(all_ws(s.skip(1))) by {
            assert forall|i: int| 0 <= i < s.skip(1).len() implies is_ws(#[trigger] s.skip(1)[i]) by {
                assert(s.skip(1)[i] == s[i + 1]);
            }
        }
        lemma_blank_has_no_tokens(s.skip(1), seq![]);
    }
}

proof fn lemma_blank_first_line(s: Seq<char>, cur: Seq<char>)
    requires
        all_ws(s),
        all_ws(cur),
    ensures
        lines_from(s, cur).len() > 0,
        all_ws(lines_from(s, cur)[0]),
    decreases s.len(),
{
    if s.len() > 0 {
        assert(all_ws(s.skip(1))) by {
            assert forall|i: int| 0 <= i < s.skip(1).len() implies is_ws(#[trigger] s.skip(1)[i]) by {
                assert(s.skip(1)[i] == s[i + 1]);
            }
        }
        if s.len() >= 2 && s[0] == '\r' && s[1] == '\n' {
            lemma_blank_first_line(s.skip(2), seq![]);
        } else {
            assert(all_ws(cur.push(s[0]))) by {
                assert forall|i: int| 0 <= i < cur.push(s[0]).len() implies is_ws(
                    #[trigger] cur.push(s[0])[i],
                ) by {
                    if i < cur.len() {
                        assert(cur.push(s[0])[i] == cur[i]);
                    }
                }
            }
            lemma_blank_first_line(s.skip(1), cur.push(s[0]));
        }
    }
}

/// A request line with a token is not blank input.
proof fn lemma_tokens_not_blank(raw: Seq<char>)
    requires
        line_tokens(raw).len() > 0,
    ensures
        !all_ws(raw),
{
    if all_ws(raw) {
        lemma_blank_first_line(raw, seq![]);
        lemma_blank_has_no_tokens(request_line(raw), seq![]);
    }
}

/// An unknown method on a well-formed request line is rejected with 405,
/// whatever the path and body.
pub proof fn lemma_unknown_method_rejected(raw: Seq<char>)
    requires
        line_tokens(raw).len() >= 3,
        method_named(line_tokens(raw)[0]) is None,
    ensures
        early_status(raw) == Some(StatusCode::MethodNotAllowed),
{
    lemma_tokens_not_blank(raw);
}

/// A version other than HTTP/1.1 on a request line with a known method is
/// rejected with 505.
pub proof fn lemma_bad_version_rejected(raw: Seq<char>)
    requires
        line_tokens(raw).len() >= 3,
        method_named(line_tokens(raw)[0]) is Some,
        line_tokens(raw)[2] != http11(),
    ensures
        early_status(raw) == Some(StatusCode::HttpVersionNotSupported),
{
    lemma_tokens_not_blank(raw);
}

/// A path longer than the limit, on a request line with a known method and
/// version HTTP/1.1, is rejected with 414.
pub proof fn lemma_long_path_rejected(raw: Seq<char>)
    requires
        line_tokens(raw).len() >= 3,
        method_named(line_tokens(raw)[0]) is Some,
        line_tokens(raw)[2] == http11(),
        line_tokens(raw)[1].len() > MAX_URI,
    ensures
        early_status(raw) == Some(StatusCode::UriTooLong),
{
    lemma_tokens_not_blank(raw);
}

/// Empty input and request lines with fewer than three tokens are rejected
/// with 400.
pub proof fn lemma_short_line_rejected(raw: Seq<char>)
    requires
        all_ws(raw) || line_tokens(raw).len() < 3,
    ensures
        early_status(raw) == Some(StatusCode::BadRequest),
{
}

/// A route with exactly the request's method and path wins over every
/// template.
pub proof fn lemma_exact_wins(keys: Seq<(RequestType, Seq<char>)>, m: RequestType, path: Seq<char>, i: int)
    requires
        keys.len() <= usize::MAX,
        0 <= i < keys.len(),
        keys[i] == (m, path),
    ensures
        dispatch_of(keys, m, path) is Exact,
        keys[dispatch_of(keys, m, path)->Exact_0 as int] == (m, path),
{
    lemma_find_exact(keys, m, path, 0);
    assert(keys[i].0 == m && keys[i].1 == path);
    let j = find_exact_from(keys, m, path, 0)->0;
    assert(keys[j].0 == m && keys[j].1 == path);
}

/// A template dispatch has as many segments as the path, the template
/// matches it, and the earlier (query) parameters win over path parameters
/// that share their key.
pub proof fn lemma_template_dispatch(
    keys: Seq<(RequestType, Seq<char>)>,
    m: RequestType,
    path: Seq<char>,
    base: Map<Seq<char>, Seq<char>>,
)
    requires
        keys.len() <= usize::MAX,
        dispatch_of(keys, m, path) is Template,
    ensures
        ({
            let i = dispatch_of(keys, m, path)->Template_0 as int;
            &&& 0 <= i < keys.len()
            &&& keys[i].0 == m
            &&& segments(keys[i].1).len() == segments(path).len()
            &&& template_matches(keys[i].1, path)
            &&& forall|k: Seq<char>| #[trigger]
                base.contains_key(k) ==> routed_params(keys, m, path, base)[k] == base[k]
            &&& forall|k: Seq<char>|
                !base.contains_key(k) && #[trigger] path_params(keys[i].1, path).contains_key(k)
                    ==> routed_params(keys, m, path, base)[k] == path_params(keys[i].1, path)[k]
        }),
{
    lemma_find_template(keys, m, path, 0);
}

/// The static-file fallback comes only for GET, and only when no route
/// matches exactly and no template matches.
pub proof fn lemma_static_only_unmatched_get(
    keys: Seq<(RequestType, Seq<char>)>,
    m: RequestType,
    path: Seq<char>,
)
    requires
        keys.len() <= usize::MAX,
    ensures
        dispatch_of(keys, m, path) == Dispatch::StaticFile <==> (m == RequestType::GET && (forall|
            j: int,
        |
            0 <= j < keys.len() ==> #[trigger] keys[j] != (m, path) && !is_template_for(
                keys[j],
                m,
                path,
            ))),
{
    lemma_find_exact(keys, m, path, 0);
    lemma_find_template(keys, m, path, 0);
    if dispatch_of(keys, m, path) == Dispatch::StaticFile {
        assert forall|j: int| 0 <= j < keys.len() implies #[trigger] keys[j] != (m, path)
            && !is_template_for(keys[j], m, path) by {
            assert(!(keys[j].0 == m && keys[j].1 == path));
        }
    }
    if dispatch_of(keys, m, path) != Dispatch::StaticFile && m == RequestType::GET {
        match find_exact_from(keys, m, path, 0) {
            Some(i) => {
                assert(keys[i].0 == m && keys[i].1 == path);
                assert(keys[i] == (m, path));
            },
            None => {
                let i = find_template_from(keys, m, path, 0)->0;
                assert(is_template_for(keys[i], m, path));
            },
        }
    }
}

proof fn lemma_header_end_prefix(h: Seq<char>, b: Seq<char>, k: int)
    requires
        4 <= h.len(),
        0 <= k <= h.len() - 4,
        blank_line_at(h, h.len() - 4),
        forall|j: int| 0 <= j < h.len() - 4 ==> !blank_line_at(h, j),
    ensures
        header_end_from(h + b, k) == Some(h.len() - 4),
    decreases h.len() - k,
{
    let s = h + b;
    if k < h.len() - 4 {
        assert(!blank_line_at(h, k));
        assert(s[k] == h[k] && s[k + 1] == h[k + 1] && s[k + 2] == h[k + 2] && s[k + 3] == h[k + 3]);
        lemma_header_end_prefix(h, b, k + 1);
    } else {
        assert(s[k] == h[k] && s[k + 1] == h[k + 1] && s[k + 2] == h[k + 2] && s[k + 3] == h[k + 3]);
    }
}

/// A body sent after a header block that ends with the first empty line is
/// what the parsed request carries, unchanged.
pub proof fn lemma_body_round_trip(h: Seq<char>, b: Seq<char>)
    requires
        4 <= h.len(),
        blank_line_at(h, h.len() - 4),
        forall|j: int| 0 <= j < h.len() - 4 ==> !blank_line_at(h, j),
    ensures
        body_of(h + b) == b,
{
    lemma_header_end_prefix(h, b, 0);
    assert((h + b).skip(h.len() as int) =~= b);
}

proof fn lemma_pairs_map_concat(a: Seq<(Seq<char>, Seq<char>)>, b: Seq<(Seq<char>, Seq<char>)>)
    ensures
        pairs_map(a + b) == pairs_map(a).union_prefer_right(pairs_map(b)),
    decreases b.len(),
{
    if b.len() == 0 {
        assert(a + b =~= a);
        assert(pairs_map(a).union_prefer_right(pairs_map(b)) =~= pairs_map(a));
    } else {
        lemma_pairs_map_concat(a, b.drop_last());
        assert((a + b).drop_last() =~= a + b.drop_last());
        assert((a + b).last() == b.last());
        assert(pairs_map(a + b) =~= pairs_map(a).union_prefer_right(pairs_map(b)));
    }
}

proof fn lemma_pairs_map_keys(s: Seq<(Seq<char>, Seq<char>)>, k: Seq<char>)
    requires
        pairs_map(s).contains_key(k),
    ensures
        exists|i: int| 0 <= i < s.len() && (#[trigger] s[i]).0 == k,
    decreases s.len(),
{
    if s.len() > 0 && s.last().0 != k {
        lemma_pairs_map_keys(s.drop_last(), k);
        let i = choose|i: int| 0 <= i < s.drop_last().len() && (#[trigger] s.drop_last()[i]).0 == k;
        assert(s[i] == s.drop_last()[i]);
    }
}

proof fn lemma_template_pairs_names(ps: Seq<Seq<char>>, ss: Seq<Seq<char>>, i: int)
    requires
        0 <= i < template_pairs(ps, ss).len(),
    ensures
        exists|j: int|
            0 <= j < ps.len() && is_placeholder(#[trigger] ps[j]) && placeholder_name(ps[j])
                == template_pairs(ps, ss)[i].0,
    decreases ps.len(),
{
    let head: Seq<(Seq<char>, Seq<char>)> = if is_placeholder(ps[0]) {
        seq![(placeholder_name(ps[0]), ss[0])]
    } else {
        seq![]
    };
    let rest = template_pairs(ps.skip(1), ss.skip(1));
    assert(template_pairs(ps, ss) == head + rest);
    if i < head.len() {
        assert(is_placeholder(ps[0]));
    } else {
        lemma_template_pairs_names(ps.skip(1), ss.skip(1), i - head.len());
        let j = choose|j: int|
            0 <= j < ps.skip(1).len() && is_placeholder(#[trigger] ps.skip(1)[j]) && placeholder_name(
                ps.skip(1)[j],
            ) == rest[i - head.len()].0;
        assert(ps[j + 1] == ps.skip(1)[j]);
    }
}

/// Path parameters are taken by position: a placeholder whose name no
/// later placeholder repeats gets the path segment at its own position.
pub proof fn lemma_template_value_positional(ps: Seq<Seq<char>>, ss: Seq<Seq<char>>, j: int)
    requires
        ps.len() == ss.len(),
        0 <= j < ps.len(),
        is_placeholder(ps[j]),
        forall|k: int|
            j < k < ps.len() && is_placeholder(#[trigger] ps[k]) ==> placeholder_name(ps[k])
                != placeholder_name(ps[j]),
    ensures
        pairs_map(template_pairs(ps, ss)).contains_key(placeholder_name(ps[j])),
        pairs_map(template_pairs(ps, ss))[placeholder_name(ps[j])] == ss[j],
    decreases ps.len(),
{
    let name = placeholder_name(ps[j]);
    let head: Seq<(Seq<char>, Seq<char>)> = if is_placeholder(ps[0]) {
        seq![(placeholder_name(ps[0]), ss[0])]
    } else {
        seq![]
    };
    let rest = template_pairs(ps.skip(1), ss.skip(1));
    assert(template_pairs(ps, ss) == head + rest);
    lemma_pairs_map_concat(head, rest);
    if j == 0 {
        if pairs_map(rest).contains_key(name) {
            lemma_pairs_map_keys(rest, name);
            let i = choose|i: int| 0 <= i < rest.len() && (#[trigger] rest[i]).0 == name;
            lemma_template_pairs_names(ps.skip(1), ss.skip(1), i);
            let k = choose|k: int|
                0 <= k < ps.skip(1).len() && is_placeholder(#[trigger] ps.skip(1)[k])
                    && placeholder_name(ps.skip(1)[k]) == rest[i].0;
            assert(ps[k + 1] == ps.skip(1)[k]);
            assert(false);
        }
        assert(pairs_map(head) =~= Map::<Seq<char>, Seq<char>>::empty().insert(name, ss[0])) by {
            assert(head.drop_last() =~= Seq::<(Seq<char>, Seq<char>)>::empty());
            assert(pairs_map(head.drop_last()) =~= Map::<Seq<char>, Seq<char>>::empty());
            assert(head.last() == (name, ss[0]));
        }
    } else {
        assert forall|k: int|
            j - 1 < k < ps.skip(1).len() && is_placeholder(#[trigger] ps.skip(1)[k]) implies placeholder_name(
            ps.skip(1)[k],
        ) != placeholder_name(ps.skip(1)[j - 1]) by {
            assert(ps.skip(1)[k] == ps[k + 1]);
        }
        assert(ps.skip(1)[j - 1] == ps[j]);
        assert(ss.skip(1)[j - 1] == ss[j]);
        lemma_template_value_positional(ps.skip(1), ss.skip(1), j - 1);
    }
}

/// Routing a request is a function of the raw text and the route table:
/// two answers to the same raw request against the same table carry the
/// same request and the same kind of outcome, so repeated identical
/// requests are answered alike.
pub proof fn lemma_routing_deterministic(
    a: (Request, Routed),
    b: (Request, Routed),
    raw: Seq<char>,
    keys: Seq<(RequestType, Seq<char>)>,
)
    requires
        routed_from(a, raw, keys),
        routed_from(b, raw, keys),
    ensures
        a.0.method == b.0.method,
        a.0.path@ == b.0.path@,
        a.0.version@ == b.0.version@,
        pairs_of(a.0.headers@) == pairs_of(b.0.headers@),
        a.0.body@ == b.0.body@,
        params_map(a.0.params@) == params_map(b.0.params@),
        a.1 is Handled <==> b.1 is Handled,
        a.1 is StaticFile <==> b.1 is StaticFile,
        a.1 is Unrouted <==> b.1 is Unrouted,
{
}

} // verus!
