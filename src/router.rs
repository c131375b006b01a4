//! The route table and the router: exact routes, path templates with
//! `{name}` placeholders, and the static-file fallback for GET.
use vstd::prelude::*;

use crate::params::{keys_unique, pairs_map, params_map, put_param};
use crate::request::{
    body_of, early_status, is_blank_request, line_tokens, path_of, query_params, request_headers,
    validate, Request,
};
use crate::request_type::{method_or_get, RequestType};
use crate::response::{is_bare, Response, StatusCode};
use crate::text::{chars_eq, chars_of, pairs_of, seqs_of, slice_of, split_exec, split_on, string_of};

verus! {

// ---------------------------------------------------------------- templates

pub open spec fn segments(s: Seq<char>) -> Seq<Seq<char>> {
    split_on(s, '/')
}

/// A pattern segment is a placeholder when it is wrapped in `{` and `}`.
pub open spec fn is_placeholder(seg: Seq<char>) -> bool {
    seg.len() >= 2 && seg[0] == '{' && seg.last() == '}'
}

pub open spec fn placeholder_name(seg: Seq<char>) -> Seq<char> {
    seg.subrange(1, seg.len() - 1)
}

/// Segments match when the counts agree and every literal pattern segment
/// equals the path segment at its position.
pub open spec fn segments_match(ps: Seq<Seq<char>>, ss: Seq<Seq<char>>) -> bool {
    ps.len() == ss.len() && forall|j: int|
        0 <= j < ps.len() ==> is_placeholder(#[trigger] ps[j]) || ps[j] == ss[j]
}

pub open spec fn template_matches(pattern: Seq<char>, path: Seq<char>) -> bool {
    segments_match(segments(pattern), segments(path))
}

pub open spec fn has_placeholder(pattern: Seq<char>) -> bool {
    exists|j: int| 0 <= j < segments(pattern).len() && is_placeholder(#[trigger] segments(pattern)[j])
}

/// The (name, value) pairs of the placeholders, in pattern order.
pub open spec fn template_pairs(ps: Seq<Seq<char>>, ss: Seq<Seq<char>>) -> Seq<(Seq<char>, Seq<char>)>
    decreases ps.len(),
{
    if ps.len() == 0 || ss.len() == 0 {
        seq![]
    } else {
        (if is_placeholder(ps[0]) {
            seq![(placeholder_name(ps[0]), ss[0])]
        } else {
            seq![]
        }) + template_pairs(ps.skip(1), ss.skip(1))
    }
}

/// The path parameters that `pattern` extracts from `path`, taken position
/// by position.
pub open spec fn path_params(pattern: Seq<char>, path: Seq<char>) -> Map<Seq<char>, Seq<char>> {
    pairs_map(template_pairs(segments(pattern), segments(path)))
}

// ---------------------------------------------------------------- dispatch

/// What the router does with a request.
#[derive(Clone, Copy, Debug, PartialEq, Eq, Structural)]
pub enum Dispatch {
    /// The route at this index has exactly the request's method and path.
    Exact(usize),
    /// The route at this index is the first template that matches.
    Template(usize),
    /// No route matches a GET request: serve a static file.
    StaticFile,
    /// No route matches and the method is not GET.
    Unrouted,
}

pub open spec fn find_exact_from(
    keys: Seq<(RequestType, Seq<char>)>,
    m: RequestType,
    path: Seq<char>,
    k: int,
) -> Option<int>
    decreases keys.len() - k,
{
    if k < 0 || k >= keys.len() {
        None
    } else if keys[k].0 == m && keys[k].1 == path {
        Some(k)
    } else {
        find_exact_from(keys, m, path, k + 1)
    }
}

pub proof fn lemma_find_exact(keys: Seq<(RequestType, Seq<char>)>, m: RequestType, path: Seq<char>, k: int)
    requires
        0 <= k,
    ensures
        match find_exact_from(keys, m, path, k) {
            Some(i) => k <= i < keys.len() && keys[i].0 == m && keys[i].1 == path,
            None => forall|j: int| k <= j < keys.len() ==> !(#[trigger] keys[j].0 == m && keys[j].1 == path),
        },
    decreases keys.len() - k,
{
    if 0 <= k < keys.len() && !(keys[k].0 == m && keys[k].1 == path) {
        lemma_find_exact(keys, m, path, k + 1);
    }
}

pub proof fn lemma_find_template(keys: Seq<(RequestType, Seq<char>)>, m: RequestType, path: Seq<char>, k: int)
    requires
        0 <= k,
    ensures
        match find_template_from(keys, m, path, k) {
            Some(i) => k <= i < keys.len() && is_template_for(keys[i], m, path),
            None => forall|j: int| k <= j < keys.len() ==> !is_template_for(#[trigger] keys[j], m, path),
        },
    decreases keys.len() - k,
{
    if 0 <= k < keys.len() && !is_template_for(keys[k], m, path) {
        lemma_find_template(keys, m, path, k + 1);
    }
}

pub open spec fn is_template_for(key: (RequestType, Seq<char>), m: RequestType, path: Seq<char>) -> bool {
    key.0 == m && has_placeholder(key.1) && template_matches(key.1, path)
}

pub open spec fn find_template_from(
    keys: Seq<(RequestType, Seq<char>)>,
    m: RequestType,
    path: Seq<char>,
    k: int,
) -> Option<int>
    decreases keys.len() - k,
{
    if k < 0 || k >= keys.len() {
        None
    } else if is_template_for(keys[k], m, path) {
        Some(k)
    } else {
        find_template_from(keys, m, path, k + 1)
    }
}

/// Exact route first, then the first matching template in registration
/// order, then the static-file fallback for GET.
pub open spec fn dispatch_of(keys: Seq<(RequestType, Seq<char>)>, m: RequestType, path: Seq<char>) -> Dispatch {
    match find_exact_from(keys, m, path, 0) {
        Some(i) => Dispatch::Exact(i as usize),
        None => match find_template_from(keys, m, path, 0) {
            Some(i) => Dispatch::Template(i as usize),
            None => if m == RequestType::GET {
                Dispatch::StaticFile
            } else {
                Dispatch::Unrouted
            },
        },
    }
}

/// The parameters a handler sees: for a template, the path parameters with
/// the earlier parameters laid over them; otherwise the earlier parameters.
pub open spec fn routed_params(
    keys: Seq<(RequestType, Seq<char>)>,
    m: RequestType,
    path: Seq<char>,
    base: Map<Seq<char>, Seq<char>>,
) -> Map<Seq<char>, Seq<char>> {
    match dispatch_of(keys, m, path) {
        Dispatch::Template(i) => path_params(keys[i as int].1, path).union_prefer_right(base),
        _ => base,
    }
}

// ---------------------------------------------------------------- table

/// Something that answers a request.
pub trait Handler {
    fn handle(&self, request: &Request) -> Response;
}

pub struct Route<H> {
    pub method: RequestType,
    pub pattern: String,
    pub handler: H,
}

/// Routes in registration order.
pub struct RouteTable<H> {
    pub routes: Vec<Route<H>>,
}

pub open spec fn route_keys<H>(routes: Seq<Route<H>>) -> Seq<(RequestType, Seq<char>)> {
    routes.map_values(|r: Route<H>| (r.method, r.pattern@))
}

/// Whether the outcome of routing is of the kind that the dispatch calls for.
pub open spec fn outcome_fits(r: Routed, d: Dispatch) -> bool {
    match d {
        Dispatch::Exact(_) => r is Handled,
        Dispatch::Template(_) => r is Handled,
        Dispatch::StaticFile => r is StaticFile,
        Dispatch::Unrouted => r is Unrouted,
    }
}

/// `new` is `old` with, at most, other parameters.
pub open spec fn same_but_params(new: Request, old: Request) -> bool {
    &&& new.method == old.method
    &&& new.path@ == old.path@
    &&& new.version@ == old.version@
    &&& pairs_of(new.headers@) == pairs_of(old.headers@)
    &&& new.body@ == old.body@
}

/// `r` is the request parsed from the valid raw request `raw` and routed
/// against `keys`, with the routing outcome.
pub open spec fn routed_from(r: (Request, Routed), raw: Seq<char>, keys: Seq<(RequestType, Seq<char>)>) -> bool {
    let t = line_tokens(raw);
    let m = method_or_get(t[0]);
    let p = path_of(t[1]);
    &&& r.0.method == m
    &&& r.0.path@ == p
    &&& r.0.version@ == t[2]
    &&& pairs_of(r.0.headers@) == request_headers(raw)
    &&& r.0.body@ == body_of(raw)
    &&& keys_unique(pairs_of(r.0.params@))
    &&& params_map(r.0.params@) == routed_params(keys, m, p, query_params(t[1]))
    &&& outcome_fits(r.1, dispatch_of(keys, m, p))
}

/// The outcome of routing.
pub enum Routed {
    /// A handler, or validation, answered.
    Handled(Response),
    /// A GET matched no route: the caller serves a static file.
    StaticFile,
    /// Nothing answered: the caller sends a default response.
    Unrouted,
}

fn exact_index<H>(routes: &Vec<Route<H>>, m: RequestType, path: &Vec<char>) -> (r: Option<usize>)
    ensures
        match find_exact_from(route_keys(routes@), m, path@, 0) {
            Some(i) => r is Some && r->0 as int == i,
            None => r is None,
        },
        r is Some ==> r->0 < routes@.len(),
{
    let mut k: usize = 0;
    while k < routes.len()
        invariant
            k <= routes@.len(),
            find_exact_from(route_keys(routes@), m, path@, 0) == find_exact_from(
                route_keys(routes@),
                m,
                path@,
                k as int,
            ),
        decreases routes@.len() - k,
    {
        if routes[k].method == m && chars_eq(&chars_of(routes[k].pattern.as_str()), path) {
            return Some(k);
        }
        k += 1;
    }
    None
}

fn is_placeholder_exec(seg: &Vec<char>) -> (r: bool)
    ensures
        r == is_placeholder(seg@),
{
    seg.len() >= 2 && seg[0] == '{' && seg[seg.len() - 1] == '}'
}

fn segments_match_exec(ps: &Vec<Vec<char>>, ss: &Vec<Vec<char>>) -> (r: bool)
    ensures
        r == segments_match(seqs_of(ps@), seqs_of(ss@)),
{
    if ps.len() != ss.len() {
        return false;
    }
    let mut j: usize = 0;
    while j < ps.len()
        invariant
            ps@.len() == ss@.len(),
            j <= ps@.len(),
            forall|i: int|
                0 <= i < j ==> is_placeholder(#[trigger] seqs_of(ps@)[i]) || seqs_of(ps@)[i]
                    == seqs_of(ss@)[i],
        decreases ps@.len() - j,
    {
        if !is_placeholder_exec(&ps[j]) && !chars_eq(&ps[j], &ss[j]) {
            assert(!(is_placeholder(seqs_of(ps@)[j as int]) || seqs_of(ps@)[j as int] == seqs_of(
                ss@,
            )[j as int]));
            return false;
        }
        j += 1;
    }
    true
}

fn has_placeholder_exec(ps: &Vec<Vec<char>>) -> (r: bool)
    ensures
        r == (exists|j: int| 0 <= j < ps@.len() && is_placeholder(#[trigger] seqs_of(ps@)[j])),
{
    let mut j: usize = 0;
    while j < ps.len()
        invariant
            j <= ps@.len(),
            forall|i: int| 0 <= i < j ==> !is_placeholder(#[trigger] seqs_of(ps@)[i]),
        decreases ps@.len() - j,
    {
        if is_placeholder_exec(&ps[j]) {
            assert(is_placeholder(seqs_of(ps@)[j as int]));
            return true;
        }
        j += 1;
    }
    false
}

fn template_index<H>(routes: &Vec<Route<H>>, m: RequestType, path: &Vec<char>) -> (r: Option<usize>)
    ensures
        match find_template_from(route_keys(routes@), m, path@, 0) {
            Some(i) => r is Some && r->0 as int == i,
            None => r is None,
        },
        r is Some ==> r->0 < routes@.len(),
{
    let ss = split_exec(path, '/');
    let mut k: usize = 0;
    while k < routes.len()
        invariant
            k <= routes@.len(),
            seqs_of(ss@) == segments(path@),
            find_template_from(route_keys(routes@), m, path@, 0) == find_template_from(
                route_keys(routes@),
                m,
                path@,
                k as int,
            ),
        decreases routes@.len() - k,
    {
        if routes[k].method == m {
            let ps = split_exec(&chars_of(routes[k].pattern.as_str()), '/');
            let ph = has_placeholder_exec(&ps);
            let sm = segments_match_exec(&ps, &ss);
            let ghost key = route_keys(routes@)[k as int];
            assert(key.1 == routes@[k as int].pattern@);
            assert(seqs_of(ps@) == segments(key.1));
            assert(ph == has_placeholder(key.1));
            assert(sm == template_matches(key.1, path@));
            if ph && sm {
                return Some(k);
            }
        }
        k += 1;
    }
    None
}

/// The path parameters of `ps` over `ss`; the two have the same length.
fn template_params_exec(ps: &Vec<Vec<char>>, ss: &Vec<Vec<char>>) -> (r: Vec<(String, String)>)
    requires
        ps@.len() == ss@.len(),
    ensures
        keys_unique(pairs_of(r@)),
        params_map(r@) == pairs_map(template_pairs(seqs_of(ps@), seqs_of(ss@))),
{
    let mut out: Vec<(String, String)> = Vec::new();
    let ghost a = seqs_of(ps@);
    let ghost b = seqs_of(ss@);
    let ghost mut acc: Seq<(Seq<char>, Seq<char>)> = seq![];
    let mut j: usize = 0;
    assert(a.skip(0) =~= a);
    assert(b.skip(0) =~= b);
    assert(seq![] + template_pairs(a, b) =~= template_pairs(a, b));
    assert(pairs_map(seq![]) =~= Map::<Seq<char>, Seq<char>>::empty());
    assert(pairs_of(out@) =~= Seq::<(Seq<char>, Seq<char>)>::empty());
    while j < ps.len()
        invariant
            ps@.len() == ss@.len(),
            j <= ps@.len(),
            a == seqs_of(ps@),
            b == seqs_of(ss@),
            keys_unique(pairs_of(out@)),
            template_pairs(a, b) == acc + template_pairs(a.skip(j as int), b.skip(j as int)),
            params_map(out@) == pairs_map(acc),
        decreases ps@.len() - j,
    {
        let ghost ra = a.skip(j as int);
        let ghost rb = b.skip(j as int);
        assert(ra[0] == ps@[j as int]@);
        assert(rb[0] == ss@[j as int]@);
        assert(ra.skip(1) =~= a.skip(j + 1));
        assert(rb.skip(1) =~= b.skip(j + 1));
        if is_placeholder_exec(&ps[j]) {
            let n = ps[j].len();
            let name = slice_of(&ps[j], 1, n - 1);
            let ghost pair = (placeholder_name(ra[0]), rb[0]);
            assert(name@ =~= placeholder_name(ra[0]));
            put_param(&mut out, string_of(&name), string_of(&ss[j]));
            proof {
                assert((acc + seq![pair]).drop_last() =~= acc);
                assert(acc + (seq![pair] + template_pairs(ra.skip(1), rb.skip(1))) =~= (acc
                    + seq![pair]) + template_pairs(ra.skip(1), rb.skip(1)));
                acc = acc + seq![pair];
            }
        } else {
            assert(seq![] + template_pairs(ra.skip(1), rb.skip(1)) =~= template_pairs(
                ra.skip(1),
                rb.skip(1),
            ));
        }
        j += 1;
    }
    assert(a.skip(j as int) =~= Seq::<Seq<char>>::empty());
    assert(acc + seq![] =~= acc);
    out
}

/// The parameters that the pattern `route` extracts from `path`, or none
/// where the segment counts differ or a literal segment differs.
pub fn extract_params(route: &str, path: &str) -> (r: Vec<(String, String)>)
    ensures
        keys_unique(pairs_of(r@)),
        template_matches(route@, path@) ==> params_map(r@) == path_params(route@, path@),
        !template_matches(route@, path@) ==> r@.len() == 0,
{
    let ps = split_exec(&chars_of(route), '/');
    let ss = split_exec(&chars_of(path), '/');
    if segments_match_exec(&ps, &ss) {
        template_params_exec(&ps, &ss)
    } else {
        let r: Vec<(String, String)> = Vec::new();
        assert(pairs_of(r@) =~= Seq::<(Seq<char>, Seq<char>)>::empty());
        r
    }
}

/// Lays `top` over `base`: on a shared key the value of `top` wins.
fn overlay(base: &mut Vec<(String, String)>, top: &Vec<(String, String)>)
    requires
        keys_unique(pairs_of(old(base)@)),
    ensures
        keys_unique(pairs_of(final(base)@)),
        params_map(final(base)@) == params_map(old(base)@).union_prefer_right(params_map(top@)),
{
    let ghost b0 = params_map(base@);
    let ghost t = pairs_of(top@);
    let mut k: usize = 0;
    assert(t.take(0) =~= Seq::<(Seq<char>, Seq<char>)>::empty());
    assert(b0.union_prefer_right(pairs_map(seq![])) =~= b0);
    while k < top.len()
        invariant
            k <= top@.len(),
            t == pairs_of(top@),
            b0 == params_map(old(base)@),
            keys_unique(pairs_of(base@)),
            params_map(base@) == b0.union_prefer_right(pairs_map(t.take(k as int))),
        decreases top@.len() - k,
    {
        let ghost m0 = pairs_map(t.take(k as int));
        let key = top[k].0.clone();
        let value = top[k].1.clone();
        assert(t[k as int] == (key@, value@));
        put_param(base, key, value);
        proof {
            assert(t.take(k + 1).drop_last() =~= t.take(k as int));
            assert(pairs_map(t.take(k + 1)) == m0.insert(key@, value@));
            assert(b0.union_prefer_right(m0.insert(key@, value@)) =~= b0.union_prefer_right(
                m0,
            ).insert(key@, value@));
        }
        k += 1;
    }
    assert(t.take(k as int) =~= t);
}

impl<H: Handler> RouteTable<H> {
    pub open spec fn keys(&self) -> Seq<(RequestType, Seq<char>)> {
        route_keys(self.routes@)
    }

    pub fn new() -> (r: RouteTable<H>)
        ensures
            r.keys().len() == 0,
    {
        RouteTable { routes: Vec::new() }
    }

    /// Registers `handler` for `rt` and the pattern `path`; a route with the
    /// same method and pattern is replaced in place.
    pub fn add_route(&mut self, path: &str, rt: RequestType, handler: H)
        ensures
            match find_exact_from(old(self).keys(), rt, path@, 0) {
                Some(i) => final(self).keys() == old(self).keys(),
                None => final(self).keys() == old(self).keys().push((rt, path@)),
            },
    {
        let p = chars_of(path);
        match exact_index(&self.routes, rt, &p) {
            Some(i) => {
                let ghost before = self.routes@;
                proof {
                    lemma_find_exact(route_keys(before), rt, path@, 0);
                }
                self.routes.set(i, Route { method: rt, pattern: string_of(&p), handler });
                assert(self.keys() =~= route_keys(before));
            },
            None => {
                let ghost before = self.routes@;
                self.routes.push(Route { method: rt, pattern: string_of(&p), handler });
                assert(self.keys() =~= route_keys(before).push((rt, path@)));
            },
        }
    }

    /// How a request with method `m` and path `path` is dispatched.
    pub fn resolve(&self, m: RequestType, path: &str) -> (r: Dispatch)
        ensures
            r == dispatch_of(self.keys(), m, path@),
    {
        let p = chars_of(path);
        match exact_index(&self.routes, m, &p) {
            Some(i) => Dispatch::Exact(i),
            None => match template_index(&self.routes, m, &p) {
                Some(i) => Dispatch::Template(i),
                None => if m == RequestType::GET {
                    Dispatch::StaticFile
                } else {
                    Dispatch::Unrouted
                },
            },
        }
    }
}

impl Request {
    /// Routes the request: an exact route's handler sees the parameters as
    /// they are; a template's handler sees its path parameters with the
    /// earlier parameters laid over them; an unmatched GET asks for a static
    /// file.
    pub fn route_sync<H: Handler>(&mut self, routes: &RouteTable<H>) -> (r: Routed)
        requires
            keys_unique(pairs_of(old(self).params@)),
        ensures
            same_but_params(*final(self), *old(self)),
            keys_unique(pairs_of(final(self).params@)),
            params_map(final(self).params@) == routed_params(
                routes.keys(),
                old(self).method,
                old(self).path@,
                params_map(old(self).params@),
            ),
            outcome_fits(r, dispatch_of(routes.keys(), old(self).method, old(self).path@)),
    {
        let n = routes.routes.len();
        let d = routes.resolve(self.method, self.path.as_str());
        proof {
            lemma_find_exact(routes.keys(), self.method, self.path@, 0);
            lemma_find_template(routes.keys(), self.method, self.path@, 0);
        }
        match d {
            Dispatch::Exact(i) => {
                let resp = routes.routes[i].handler.handle(self);
                Routed::Handled(resp)
            },
            Dispatch::Template(i) => {
                let ghost key = routes.keys()[i as int];
                assert(i < n);
                assert(key.1 == routes.routes@[i as int].pattern@);
                assert(template_matches(key.1, self.path@));
                let mut merged = extract_params(routes.routes[i].pattern.as_str(), self.path.as_str());
                overlay(&mut merged, &self.params);
                self.params = merged;
                let resp = routes.routes[i].handler.handle(self);
                Routed::Handled(resp)
            },
            Dispatch::StaticFile => Routed::StaticFile,
            Dispatch::Unrouted => Routed::Unrouted,
        }
    }

    /// Validates a raw request and, where it is valid, parses and routes it.
    /// A rejected request yields the empty request and a bare response with
    /// the rejecting status.
    pub fn parse_raw_sync<H: Handler>(raw: String, routes: &RouteTable<H>) -> (r: (Request, Routed))
        ensures
            match early_status(raw@) {
                Some(c) => is_blank_request(r.0) && match r.1 {
                    Routed::Handled(resp) => is_bare(resp, c),
                    _ => false,
                },
                None => routed_from(r, raw@, routes.keys()),
            },
    {
        let cs = chars_of(raw.as_str());
        match validate(&cs) {
            Some(c) => (Request::blank(), Routed::Handled(Response::bare(c))),
            None => {
                let mut req = Request::parse_raw_only(raw);
                let routed = req.route_sync(routes);
                (req, routed)
            },
        }
    }
}

/// Routes `req` against `routes`; see `Request::route_sync`.
pub fn handle_request_sync<H: Handler>(req: &mut Request, routes: &RouteTable<H>) -> (r: Routed)
    requires
        keys_unique(pairs_of(old(req).params@)),
    ensures
        same_but_params(*final(req), *old(req)),
        keys_unique(pairs_of(final(req).params@)),
        params_map(final(req).params@) == routed_params(
            routes.keys(),
            old(req).method,
            old(req).path@,
            params_map(old(req).params@),
        ),
        outcome_fits(r, dispatch_of(routes.keys(), old(req).method, old(req).path@)),
{
    req.route_sync(routes)
}

} // verus!
