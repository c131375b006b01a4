//! CORS policy: configuration parsing, the allowed origin for a request and
//! the headers that a response carries.
use vstd::prelude::*;

use crate::response::{status_text, Response, StatusCode};
use crate::text::{
    ascii_lower_char, ascii_lower_seq, chars_eq, chars_of, decimal, decimal_exec, eq_ci, eq_ci_exec,
    find_char, find_char_exec, pairs_of, parse_unsigned, parse_unsigned_exec, seqs_of, slice_of,
    split_exec, split_on, string_of, trim, trim_exec,
};

verus! {

#[derive(Clone, Debug)]
pub struct CorsPolicy {
    pub allow_origin: String,
    pub allow_methods: String,
    pub allow_headers: String,
    pub allow_credentials: bool,
    pub max_age_seconds: Option<u32>,
}

/// A policy as plain values: origin, methods, headers, credentials, max age.
pub type CorsView = (Seq<char>, Seq<char>, Seq<char>, bool, Option<u32>);

impl View for CorsPolicy {
    type V = CorsView;

    open spec fn view(&self) -> CorsView {
        (
            self.allow_origin@,
            self.allow_methods@,
            self.allow_headers@,
            self.allow_credentials,
            self.max_age_seconds,
        )
    }
}

pub open spec fn default_cors() -> CorsView {
    ("*"@, "GET,POST,PUT,DELETE,OPTIONS"@, "Content-Type, Authorization"@, false, Some(600u32))
}

impl Default for CorsPolicy {
    fn default() -> (r: CorsPolicy)
        ensures
            r@ == default_cors(),
    {
        CorsPolicy {
            allow_origin: "*".to_owned(),
            allow_methods: "GET,POST,PUT,DELETE,OPTIONS".to_owned(),
            allow_headers: "Content-Type, Authorization".to_owned(),
            allow_credentials: false,
            max_age_seconds: Some(600),
        }
    }
}

// ---------------------------------------------------------------- configuration

/// The key of a `key=value` setting: the text before the first `=`,
/// trimmed and in lower case.
pub open spec fn setting_key(piece: Seq<char>) -> Seq<char> {
    match find_char(piece, '=') {
        Some(e) => ascii_lower_seq(trim(piece.take(e))),
        None => ascii_lower_seq(trim(piece)),
    }
}

/// The value of a `key=value` setting: the text after the first `=`,
/// trimmed; empty where there is no `=`.
pub open spec fn setting_value(piece: Seq<char>) -> Seq<char> {
    match find_char(piece, '=') {
        Some(e) => trim(piece.skip(e + 1)),
        None => seq![],
    }
}

pub open spec fn max_age_of(value: Seq<char>) -> Option<u32> {
    match parse_unsigned(value, u32::MAX as nat) {
        Some(n) => Some(n as u32),
        None => None,
    }
}

/// One setting applied to a policy; unknown keys change nothing.
pub open spec fn apply_setting(v: CorsView, piece: Seq<char>) -> CorsView {
    let k = setting_key(piece);
    let val = setting_value(piece);
    if k == "origin"@ || k == "allow_origin"@ {
        (val, v.1, v.2, v.3, v.4)
    } else if k == "methods"@ || k == "allow_methods"@ {
        (v.0, val, v.2, v.3, v.4)
    } else if k == "headers"@ || k == "allow_headers"@ {
        (v.0, v.1, val, v.3, v.4)
    } else if k == "credentials"@ || k == "allow_credentials"@ {
        (v.0, v.1, v.2, eq_ci(val, "true"@), v.4)
    } else if k == "max_age"@ || k == "max_age_seconds"@ {
        (v.0, v.1, v.2, v.3, max_age_of(val))
    } else {
        v
    }
}

pub open spec fn apply_settings(v: CorsView, pieces: Seq<Seq<char>>) -> CorsView
    decreases pieces.len(),
{
    if pieces.len() == 0 {
        v
    } else {
        apply_settings(apply_setting(v, pieces[0]), pieces.skip(1))
    }
}

/// The policy that a comma-separated configuration describes, starting
/// from the default policy.
pub open spec fn config_policy(config: Seq<char>) -> CorsView {
    apply_settings(default_cors(), split_on(config, ','))
}

// ---------------------------------------------------------------- origins

pub open spec fn origin_listed(pieces: Seq<Seq<char>>, origin: Seq<char>) -> bool {
    exists|i: int|
        0 <= i < pieces.len() && trim(#[trigger] pieces[i]).len() > 0 && eq_ci(trim(pieces[i]), origin)
}

/// The origin that the policy allows for a request from `origin`.
pub open spec fn allowed_origin_of(v: CorsView, origin: Option<Seq<char>>) -> Option<Seq<char>> {
    if v.0 == "*"@ {
        Some("*"@)
    } else {
        match origin {
            Some(o) => if origin_listed(split_on(v.0, ','), o) {
                Some(o)
            } else {
                None
            },
            None => None,
        }
    }
}

/// The CORS headers for a request from `origin`.
pub open spec fn cors_headers(v: CorsView, origin: Option<Seq<char>>) -> Seq<(Seq<char>, Seq<char>)> {
    (match allowed_origin_of(v, origin) {
        Some(o) => seq![
            ("Access-Control-Allow-Origin"@, o),
            ("Access-Control-Allow-Methods"@, v.1),
            ("Access-Control-Allow-Headers"@, v.2),
        ],
        None => seq![],
    }) + (if v.3 {
        seq![("Access-Control-Allow-Credentials"@, "true"@)]
    } else {
        seq![]
    }) + (match v.4 {
        Some(n) => seq![("Access-Control-Max-Age"@, decimal(n as nat))],
        None => seq![],
    })
}

fn lower_exec(s: &Vec<char>) -> (r: Vec<char>)
    ensures
        r@ == ascii_lower_seq(s@),
{
    let mut out: Vec<char> = Vec::new();
    let mut i: usize = 0;
    while i < s.len()
        invariant
            i <= s@.len(),
            out@ == ascii_lower_seq(s@.take(i as int)),
        decreases s@.len() - i,
    {
        out.push(ascii_lower_char(s[i]));
        i += 1;
        assert(out@ =~= ascii_lower_seq(s@.take(i as int)));
    }
    assert(s@.take(i as int) =~= s@);
    out
}

fn is_one_of(k: &Vec<char>, a: &str, b: &str) -> (r: bool)
    ensures
        r == (k@ == a@ || k@ == b@),
{
    chars_eq(k, &chars_of(a)) || chars_eq(k, &chars_of(b))
}

impl CorsPolicy {
    /// Reads a comma-separated configuration such as
    /// `origin=http://app,credentials=true,headers=Content-Type` on top of
    /// the default policy; unknown keys are ignored.
    pub fn from_config_str(config: &str) -> (r: CorsPolicy)
        ensures
            r@ == config_policy(config@),
    {
        let mut policy = CorsPolicy::default();
        let pieces = split_exec(&chars_of(config), ',');
        let ghost all = seqs_of(pieces@);
        let mut k: usize = 0;
        assert(all.skip(0) =~= all);
        while k < pieces.len()
            invariant
                k <= pieces@.len(),
                all == seqs_of(pieces@),
                config_policy(config@) == apply_settings(policy@, all.skip(k as int)),
            decreases pieces@.len() - k,
        {
            let piece = &pieces[k];
            let ghost p = piece@;
            assert(all.skip(k as int)[0] == p);
            assert(all.skip(k as int).skip(1) =~= all.skip(k + 1));
            let (key_part, value) = match find_char_exec(piece, '=') {
                Some(e) => {
                    let n = piece.len();
                    let a = slice_of(piece, 0, e);
                    let b = slice_of(piece, e + 1, n);
                    assert(a@ =~= p.take(e as int));
                    assert(b@ =~= p.skip(e + 1));
                    (a, trim_exec(&b))
                },
                None => {
                    let a = slice_of(piece, 0, piece.len());
                    assert(a@ =~= p);
                    (a, Vec::new())
                },
            };
            let key = lower_exec(&trim_exec(&key_part));
            assert(key@ == setting_key(p));
            assert(value@ == setting_value(p));
            if is_one_of(&key, "origin", "allow_origin") {
                policy.allow_origin = string_of(&value);
            } else if is_one_of(&key, "methods", "allow_methods") {
                policy.allow_methods = string_of(&value);
            } else if is_one_of(&key, "headers", "allow_headers") {
                policy.allow_headers = string_of(&value);
            } else if is_one_of(&key, "credentials", "allow_credentials") {
                policy.allow_credentials = eq_ci_exec(&value, &chars_of("true"));
            } else if is_one_of(&key, "max_age", "max_age_seconds") {
                policy.max_age_seconds = match parse_unsigned_exec(&value, 4294967295u64) {
                    Some(n) => Some(n as u32),
                    None => None,
                };
            }
            k += 1;
        }
        policy
    }

    /// The origin allowed for a request from `request_origin`: `*` when the
    /// policy allows any, else the request's origin where the policy lists
    /// it (up to ASCII case).
    pub fn allowed_origin(&self, request_origin: Option<&str>) -> (r: Option<String>)
        ensures
            match allowed_origin_of(
                self@,
                match request_origin {
                    Some(o) => Some(o@),
                    None => None,
                },
            ) {
                Some(o) => r is Some && r->0@ == o,
                None => r is None,
            },
    {
        let own = chars_of(self.allow_origin.as_str());
        if chars_eq(&own, &chars_of("*")) {
            return Some("*".to_owned());
        }
        let o = match request_origin {
            Some(o) => o,
            None => return None,
        };
        let oc = chars_of(o);
        assert(self@.0 != "*"@);
        let pieces = split_exec(&own, ',');
        let mut i: usize = 0;
        while i < pieces.len()
            invariant
                i <= pieces@.len(),
                seqs_of(pieces@) == split_on(self.allow_origin@, ','),
                oc@ == o@,
                self@.0 != "*"@,
                request_origin == Some(o),
                forall|j: int|
                    0 <= j < i ==> !(trim(#[trigger] seqs_of(pieces@)[j]).len() > 0 && eq_ci(
                        trim(seqs_of(pieces@)[j]),
                        o@,
                    )),
            decreases pieces@.len() - i,
        {
            let t = trim_exec(&pieces[i]);
            assert(t@ == trim(seqs_of(pieces@)[i as int]));
            if t.len() > 0 && eq_ci_exec(&t, &oc) {
                proof {
                    let ps = split_on(self.allow_origin@, ',');
                    assert(ps[i as int] == seqs_of(pieces@)[i as int]);
                    assert(trim(ps[i as int]).len() > 0 && eq_ci(trim(ps[i as int]), o@));
                    assert(origin_listed(ps, o@));
                    assert(self@.0 != "*"@);
                    assert(request_origin == Some(o));
                    assert(allowed_origin_of(self@, Some(o@)) == Some(o@));
                }
                return Some(o.to_owned());
            }
            i += 1;
        }
        None
    }

    /// The CORS headers for a request from `request_origin`: the allowed
    /// origin with the allowed methods and headers, then the credentials
    /// flag, then the max age.
    pub fn header_lines(&self, request_origin: Option<&str>) -> (r: Vec<(String, String)>)
        ensures
            pairs_of(r@) == cors_headers(
                self@,
                match request_origin {
                    Some(o) => Some(o@),
                    None => None,
                },
            ),
    {
        let ghost ro = match request_origin {
            Some(o) => Some(o@),
            None => None,
        };
        let mut headers: Vec<(String, String)> = Vec::new();
        let ghost mut expect: Seq<(Seq<char>, Seq<char>)> = seq![];
        match self.allowed_origin(request_origin) {
            Some(origin) => {
                let ghost o = origin@;
                headers.push(("Access-Control-Allow-Origin".to_owned(), origin));
                headers.push(("Access-Control-Allow-Methods".to_owned(), self.allow_methods.clone()));
                headers.push(("Access-Control-Allow-Headers".to_owned(), self.allow_headers.clone()));
                proof {
                    expect = seq![
                        ("Access-Control-Allow-Origin"@, o),
                        ("Access-Control-Allow-Methods"@, self@.1),
                        ("Access-Control-Allow-Headers"@, self@.2),
                    ];
                }
            },
            None => {},
        }
        assert(pairs_of(headers@) =~= expect);
        if self.allow_credentials {
            headers.push(("Access-Control-Allow-Credentials".to_owned(), "true".to_owned()));
            proof {
                expect = expect + seq![("Access-Control-Allow-Credentials"@, "true"@)];
            }
        }
        assert(pairs_of(headers@) =~= expect);
        match self.max_age_seconds {
            Some(n) => {
                let d = decimal_exec(n as u64);
                headers.push(("Access-Control-Max-Age".to_owned(), string_of(&d)));
                proof {
                    expect = expect + seq![("Access-Control-Max-Age"@, decimal(n as nat))];
                }
            },
            None => {},
        }
        assert(pairs_of(headers@) =~= expect);
        assert(expect =~= cors_headers(self@, ro));
        headers
    }

    /// The answer to a CORS preflight request: `204 No Content`, plain text,
    /// no body.
    pub fn preflight_response(&self) -> (r: Response)
        ensures
            r.status@ == status_text(StatusCode::NoContent),
            r.content_type@ == "text/plain"@,
            r.content@.len() == 0,
    {
        Response {
            status: StatusCode::NoContent.to_string(),
            content_type: "text/plain".to_owned(),
            content: Vec::new(),
        }
    }
}

} // verus!
