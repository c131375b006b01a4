//! Requests: validation of the request line and parsing of the raw text into
//! method, path, version, headers, body and query parameters.
use vstd::prelude::*;

use crate::params::{keys_unique, pairs_map, params_map, put_param};
use crate::request_type::{method_named, method_named_exec, method_or_get, RequestType};
use crate::response::StatusCode;
use crate::text::{
    all_ws, chars_eq, chars_of, eq_ci, eq_ci_exec, find_char, find_char_exec, is_ws, is_ws_char,
    lines, lines_exec, lines_from, pairs_of, seqs_of, slice_of, split_exec, split_on,
    string_of, tokens, tokens_exec,
};

verus! {

/// The longest path, in characters, that a request may carry.
pub const MAX_URI: usize = 2000;

/// A parsed request.
pub struct Request {
    pub method: RequestType,
    pub path: String,
    pub version: String,
    pub headers: Vec<(String, String)>,
    pub body: String,
    pub params: Vec<(String, String)>,
}

pub open spec fn http11() -> Seq<char> {
    seq!['H', 'T', 'T', 'P', '/', '1', '.', '1']
}

// ---------------------------------------------------------------- request line

proof fn lemma_lines_from_nonempty(s: Seq<char>, cur: Seq<char>)
    ensures
        lines_from(s, cur).len() > 0,
    decreases s.len(),
{
    if s.len() > 0 {
        if s.len() >= 2 && s[0] == '\r' && s[1] == '\n' {
            lemma_lines_from_nonempty(s.skip(2), seq![]);
        } else {
            lemma_lines_from_nonempty(s.skip(1), cur.push(s[0]));
        }
    }
}


pub proof fn lemma_lines_nonempty(s: Seq<char>)
    ensures
        lines(s).len() > 0,
{
    lemma_lines_from_nonempty(s, seq![]);
}

/// The first CRLF-terminated line of the raw request.
pub open spec fn request_line(raw: Seq<char>) -> Seq<char> {
    lines(raw)[0]
}

/// The whitespace-separated tokens of the request line.
pub open spec fn line_tokens(raw: Seq<char>) -> Seq<Seq<char>> {
    tokens(request_line(raw))
}

/// The status with which validation rejects the raw request, checked in
/// order: blank input, a short request line, an unknown method, a version
/// other than HTTP/1.1, an over-long path.
pub open spec fn early_status(raw: Seq<char>) -> Option<StatusCode> {
    let t = line_tokens(raw);
    if all_ws(raw) {
        Some(StatusCode::BadRequest)
    } else if t.len() < 3 {
        Some(StatusCode::BadRequest)
    } else if method_named(t[0]) is None {
        Some(StatusCode::MethodNotAllowed)
    } else if t[2] != http11() {
        Some(StatusCode::HttpVersionNotSupported)
    } else if t[1].len() > MAX_URI {
        Some(StatusCode::UriTooLong)
    } else {
        None
    }
}

// ---------------------------------------------------------------- header block

pub open spec fn blank_line_at(s: Seq<char>, k: int) -> bool {
    0 <= k && k + 4 <= s.len() && s[k] == '\r' && s[k + 1] == '\n' && s[k + 2] == '\r' && s[k
        + 3] == '\n'
}

/// Where the first CRLF CRLF at or after `k` begins.
pub open spec fn header_end_from(s: Seq<char>, k: int) -> Option<int>
    decreases s.len() - k,
{
    if k < 0 || k + 4 > s.len() {
        None
    } else if blank_line_at(s, k) {
        Some(k)
    } else {
        header_end_from(s, k + 1)
    }
}

pub open spec fn header_end(s: Seq<char>) -> Option<int> {
    header_end_from(s, 0)
}

/// The request line and headers: the text before the first empty line.
pub open spec fn head_of(raw: Seq<char>) -> Seq<char> {
    match header_end(raw) {
        Some(p) => raw.take(p),
        None => raw,
    }
}

/// The body: the text after the first empty line, if there is one.
pub open spec fn body_of(raw: Seq<char>) -> Seq<char> {
    match header_end(raw) {
        Some(p) => raw.skip(p + 4),
        None => seq![],
    }
}

pub open spec fn sep_at(s: Seq<char>, k: int) -> bool {
    0 <= k && k + 2 <= s.len() && s[k] == ':' && s[k + 1] == ' '
}

/// Where the first `": "` at or after `k` begins.
pub open spec fn find_sep_from(s: Seq<char>, k: int) -> Option<int>
    decreases s.len() - k,
{
    if k < 0 || k + 2 > s.len() {
        None
    } else if sep_at(s, k) {
        Some(k)
    } else {
        find_sep_from(s, k + 1)
    }
}

/// A header line is a pair when `": "` splits it into exactly two parts.
pub open spec fn header_pair(line: Seq<char>) -> Option<(Seq<char>, Seq<char>)> {
    match find_sep_from(line, 0) {
        Some(j) => if find_sep_from(line, j + 2) is None {
            Some((line.take(j), line.skip(j + 2)))
        } else {
            None
        },
        None => None,
    }
}

pub open spec fn headers_of(ls: Seq<Seq<char>>) -> Seq<(Seq<char>, Seq<char>)>
    decreases ls.len(),
{
    if ls.len() == 0 {
        seq![]
    } else {
        (match header_pair(ls[0]) {
            Some(h) => seq![h],
            None => seq![],
        }) + headers_of(ls.skip(1))
    }
}

/// The header pairs of the raw request: the lines of the header block after
/// the request line that split into a name and a value.
pub open spec fn request_headers(raw: Seq<char>) -> Seq<(Seq<char>, Seq<char>)> {
    headers_of(lines(head_of(raw)).skip(1))
}

/// The value of the first header whose name equals `name` up to ASCII case.
pub open spec fn header_value_ci(hs: Seq<(Seq<char>, Seq<char>)>, name: Seq<char>) -> Option<Seq<char>>
    decreases hs.len(),
{
    if hs.len() == 0 {
        None
    } else if eq_ci(hs[0].0, name) {
        Some(hs[0].1)
    } else {
        header_value_ci(hs.skip(1), name)
    }
}

// ---------------------------------------------------------------- target

/// The path of a request target: everything before the first `?`.
pub open spec fn path_of(target: Seq<char>) -> Seq<char> {
    match find_char(target, '?') {
        Some(q) => target.take(q),
        None => target,
    }
}

/// The query string of a request target: everything after the first `?`.
pub open spec fn query_of(target: Seq<char>) -> Option<Seq<char>> {
    match find_char(target, '?') {
        Some(q) => Some(target.skip(q + 1)),
        None => None,
    }
}

pub open spec fn query_pair(piece: Seq<char>) -> Option<(Seq<char>, Seq<char>)> {
    match find_char(piece, '=') {
        Some(e) => Some((piece.take(e), piece.skip(e + 1))),
        None => None,
    }
}

pub open spec fn query_pairs_of(pieces: Seq<Seq<char>>) -> Seq<(Seq<char>, Seq<char>)>
    decreases pieces.len(),
{
    if pieces.len() == 0 {
        seq![]
    } else {
        (match query_pair(pieces[0]) {
            Some(p) => seq![p],
            None => seq![],
        }) + query_pairs_of(pieces.skip(1))
    }
}

/// The parameters of a query string: its `&`-separated pieces that hold a
/// `=`, split at the first `=`; a later key overrides an earlier one.
pub open spec fn query_params(target: Seq<char>) -> Map<Seq<char>, Seq<char>> {
    match query_of(target) {
        Some(qs) => pairs_map(query_pairs_of(split_on(qs, '&'))),
        None => Map::empty(),
    }
}

// ---------------------------------------------------------------- parsed request

/// `req` is what parsing `raw` yields, before routing adds path parameters.
pub open spec fn parsed_from(req: Request, raw: Seq<char>) -> bool {
    let t = line_tokens(raw);
    &&& req.method == method_or_get(t[0])
    &&& req.path@ == path_of(t[1])
    &&& req.version@ == t[2]
    &&& pairs_of(req.headers@) == request_headers(raw)
    &&& req.body@ == body_of(raw)
    &&& keys_unique(pairs_of(req.params@))
    &&& params_map(req.params@) == query_params(t[1])
}

/// The empty request that stands beside a rejected one.
pub open spec fn is_blank_request(req: Request) -> bool {
    &&& req.method == RequestType::GET
    &&& req.path@.len() == 0
    &&& req.version@.len() == 0
    &&& req.headers@.len() == 0
    &&& req.body@.len() == 0
    &&& req.params@.len() == 0
}

// ---------------------------------------------------------------- exec

fn header_end_exec(s: &Vec<char>) -> (r: Option<usize>)
    ensures
        match header_end(s@) {
            Some(p) => r is Some && r->0 as int == p,
            None => r is None,
        },
        match r {
            Some(p) => p + 4 <= s@.len(),
            None => true,
        },
{
    let mut k: usize = 0;
    while k < s.len() && s.len() - k >= 4
        invariant
            header_end(s@) == header_end_from(s@, k as int),
        decreases s@.len() - k,
    {
        if s[k] == '\r' && s[k + 1] == '\n' && s[k + 2] == '\r' && s[k + 3] == '\n' {
            return Some(k);
        }
        k += 1;
    }
    None
}

fn find_sep_exec(s: &Vec<char>, from: usize) -> (r: Option<usize>)
    ensures
        match find_sep_from(s@, from as int) {
            Some(p) => r is Some && r->0 as int == p,
            None => r is None,
        },
        match r {
            Some(p) => from <= p && p + 2 <= s@.len(),
            None => true,
        },
{
    let mut k: usize = from;
    while k < s.len() && s.len() - k >= 2
        invariant
            from <= k,
            find_sep_from(s@, from as int) == find_sep_from(s@, k as int),
        decreases s@.len() - k,
    {
        if s[k] == ':' && s[k + 1] == ' ' {
            return Some(k);
        }
        k += 1;
    }
    None
}

fn header_pair_exec(line: &Vec<char>) -> (r: Option<(String, String)>)
    ensures
        match header_pair(line@) {
            Some(h) => match r {
                Some(x) => x.0@ == h.0 && x.1@ == h.1,
                None => false,
            },
            None => r is None,
        },
{
    let n = line.len();
    match find_sep_exec(line, 0) {
        Some(j) => {
            assert(j + 2 <= n);
            if find_sep_exec(line, j + 2).is_none() {
                let k = slice_of(line, 0, j);
                let v = slice_of(line, j + 2, line.len());
                assert(k@ =~= line@.take(j as int));
                assert(v@ =~= line@.skip(j + 2));
                Some((string_of(&k), string_of(&v)))
            } else {
                None
            }
        },
        None => None,
    }
}

fn query_pair_exec(piece: &Vec<char>) -> (r: Option<(String, String)>)
    ensures
        match query_pair(piece@) {
            Some(p) => match r {
                Some(x) => x.0@ == p.0 && x.1@ == p.1,
                None => false,
            },
            None => r is None,
        },
{
    let f = find_char_exec(piece, '=');
    match f {
        Some(e) => {
            assert(e < piece@.len());
            let k = slice_of(piece, 0, e);
            let n = piece.len();
            let v = slice_of(piece, e + 1, n);
            assert(k@ =~= piece@.take(e as int));
            assert(v@ =~= piece@.skip(e + 1));
            Some((string_of(&k), string_of(&v)))
        },
        None => None,
    }
}

/// Whether the raw text holds a complete header block (an empty line).
pub fn header_block_complete(raw: &str) -> (r: bool)
    ensures
        r == header_end(raw@) is Some,
{
    header_end_exec(&chars_of(raw)).is_some()
}

/// The status with which validation rejects the raw request, if any.
pub fn validate(raw: &Vec<char>) -> (r: Option<StatusCode>)
    ensures
        r == early_status(raw@),
{
    let mut i: usize = 0;
    while i < raw.len() && is_ws_char(raw[i])
        invariant
            i <= raw@.len(),
            forall|j: int| 0 <= j < i ==> is_ws(#[trigger] raw@[j]),
        decreases raw@.len() - i,
    {
        i += 1;
    }
    if i == raw.len() {
        return Some(StatusCode::BadRequest);
    }
    assert(!is_ws(raw@[i as int]));
    assert(!all_ws(raw@));
    let ls = lines_exec(raw);
    proof {
        lemma_lines_nonempty(raw@);
    }
    let t = tokens_exec(&ls[0]);
    assert(seqs_of(t@) == line_tokens(raw@));
    if t.len() < 3 {
        return Some(StatusCode::BadRequest);
    }
    if method_named_exec(&t[0]).is_none() {
        return Some(StatusCode::MethodNotAllowed);
    }
    let v: Vec<char> = vec!['H', 'T', 'T', 'P', '/', '1', '.', '1'];
    assert(v@ =~= http11());
    if !chars_eq(&t[2], &v) {
        return Some(StatusCode::HttpVersionNotSupported);
    }
    if t[1].len() > MAX_URI {
        return Some(StatusCode::UriTooLong);
    }
    None
}

impl Default for Request {
    fn default() -> (r: Request)
        ensures
            is_blank_request(r),
    {
        Request::blank()
    }
}

impl Request {
    /// The empty request.
    pub fn blank() -> (r: Request)
        ensures
            is_blank_request(r),
    {
        Request {
            method: RequestType::GET,
            path: String::new(),
            version: String::new(),
            headers: Vec::new(),
            body: String::new(),
            params: Vec::new(),
        }
    }

    /// The value of the first header named `origin`, in any letter case.
    pub fn origin(&self) -> (r: Option<&str>)
        ensures
            match header_value_ci(pairs_of(self.headers@), "origin"@) {
                Some(v) => r is Some && r->0@ == v,
                None => r is None,
            },
    {
        let name = chars_of("origin");
        let ghost hs = pairs_of(self.headers@);
        let mut i: usize = 0;
        assert(hs.skip(0) =~= hs);
        while i < self.headers.len()
            invariant
                i <= self.headers@.len(),
                name@ == "origin"@,
                hs == pairs_of(self.headers@),
                header_value_ci(hs, "origin"@) == header_value_ci(hs.skip(i as int), "origin"@),
            decreases self.headers@.len() - i,
        {
            assert(hs.skip(i as int)[0] == hs[i as int]);
            assert(hs.skip(i as int).skip(1) =~= hs.skip(i + 1));
            if eq_ci_exec(&chars_of(self.headers[i].0.as_str()), &name) {
                return Some(self.headers[i].1.as_str());
            }
            i += 1;
        }
        None
    }

    /// Parses a raw request whose request line holds at least three tokens:
    /// method, target and version, the header pairs, the body after the
    /// first empty line and the query parameters of the target.
    pub fn parse_raw_only(raw: String) -> (r: Request)
        requires
            line_tokens(raw@).len() >= 3,
        ensures
            parsed_from(r, raw@),
    {
        let cs = chars_of(raw.as_str());
        let ls = lines_exec(&cs);
        proof {
            lemma_lines_nonempty(cs@);
        }
        let t = tokens_exec(&ls[0]);
        assert(seqs_of(t@) == line_tokens(raw@));
        assert(t@[0]@ == line_tokens(raw@)[0]);
        assert(t@[1]@ == line_tokens(raw@)[1]);
        assert(t@[2]@ == line_tokens(raw@)[2]);
        let method = match method_named_exec(&t[0]) {
            Some(m) => m,
            None => RequestType::GET,
        };
        let target = &t[1];
        let (path, query) = match find_char_exec(target, '?') {
            Some(q) => {
                let p = slice_of(target, 0, q);
                let n = target.len();
                let qs = slice_of(target, q + 1, n);
                assert(p@ =~= target@.take(q as int));
                assert(qs@ =~= target@.skip(q + 1));
                (p, Some(qs))
            },
            None => {
                let p = slice_of(target, 0, target.len());
                assert(p@ =~= target@);
                (p, None)
            },
        };
        // header block and body
        let (head, body) = match header_end_exec(&cs) {
            Some(p) => {
                let h = slice_of(&cs, 0, p);
                let n = cs.len();
                let b = slice_of(&cs, p + 4, n);
                assert(h@ =~= cs@.take(p as int));
                assert(b@ =~= cs@.skip(p + 4));
                (h, b)
            },
            None => {
                let h = slice_of(&cs, 0, cs.len());
                assert(h@ =~= cs@);
                (h, Vec::new())
            },
        };
        assert(body@ =~= body_of(raw@));
        let hl = lines_exec(&head);
        let mut headers: Vec<(String, String)> = Vec::new();
        let mut i: usize = 1;
        proof {
            lemma_lines_nonempty(head@);
            assert(pairs_of(headers@) =~= Seq::<(Seq<char>, Seq<char>)>::empty());
        }
        while i < hl.len()
            invariant
                1 <= i <= hl@.len(),
                seqs_of(hl@) == lines(head_of(raw@)),
                headers_of(lines(head_of(raw@)).skip(1)) == pairs_of(headers@) + headers_of(
                    seqs_of(hl@).skip(i as int),
                ),
            decreases hl@.len() - i,
        {
            let ghost rest = seqs_of(hl@).skip(i as int);
            assert(rest[0] == hl@[i as int]@);
            assert(rest.skip(1) =~= seqs_of(hl@).skip(i + 1));
            let ghost before = pairs_of(headers@);
            match header_pair_exec(&hl[i]) {
                Some(h) => {
                    headers.push(h);
                    assert(pairs_of(headers@) =~= before + seq![header_pair(rest[0])->0]);
                },
                None => {
                    assert(seq![] + headers_of(rest.skip(1)) =~= headers_of(rest.skip(1)));
                },
            }
            proof {
                assert(before + headers_of(rest) =~= pairs_of(headers@) + headers_of(
                    seqs_of(hl@).skip(i + 1),
                ));
            }
            i += 1;
        }
        assert(seqs_of(hl@).skip(i as int) =~= Seq::<Seq<char>>::empty());
        assert(pairs_of(headers@) + seq![] =~= pairs_of(headers@));
        // query parameters
        let mut params: Vec<(String, String)> = Vec::new();
        assert(pairs_of(params@) =~= Seq::<(Seq<char>, Seq<char>)>::empty());
        match query {
            Some(qs) => {
                let pieces = split_exec(&qs, '&');
                let mut k: usize = 0;
                let ghost all = seqs_of(pieces@);
                let ghost mut acc: Seq<(Seq<char>, Seq<char>)> = seq![];
                assert(all.skip(0) =~= all);
                assert(seq![] + query_pairs_of(all) =~= query_pairs_of(all));
                while k < pieces.len()
                    invariant
                        k <= pieces@.len(),
                        all == seqs_of(pieces@),
                        keys_unique(pairs_of(params@)),
                        query_pairs_of(all) == acc + query_pairs_of(all.skip(k as int)),
                        params_map(params@) == pairs_map(acc),
                    decreases pieces@.len() - k,
                {
                    let ghost rest = all.skip(k as int);
                    assert(rest[0] == pieces@[k as int]@);
                    assert(rest.skip(1) =~= all.skip(k + 1));
                    match query_pair_exec(&pieces[k]) {
                        Some(pair) => {
                            let ghost p = query_pair(rest[0])->0;
                            put_param(&mut params, pair.0, pair.1);
                            proof {
                                assert((acc + seq![p]).drop_last() =~= acc);
                                assert(acc + (seq![p] + query_pairs_of(rest.skip(1))) =~= (acc
                                    + seq![p]) + query_pairs_of(rest.skip(1)));
                                acc = acc + seq![p];
                            }
                        },
                        None => {
                            assert(seq![] + query_pairs_of(rest.skip(1)) =~= query_pairs_of(
                                rest.skip(1),
                            ));
                        },
                    }
                    k += 1;
                }
                assert(all.skip(k as int) =~= Seq::<Seq<char>>::empty());
                assert(acc + seq![] =~= acc);
            },
            None => {},
        }
        Request {
            method,
            path: string_of(&path),
            version: string_of(&t[2]),
            headers,
            body: string_of(&body),
            params,
        }
    }
}

} // verus!
