//! The decisions of a connection's life that surround parsing: when the
//! header block is complete, how much body to read, and the bytes of the
//! response head.
use vstd::prelude::*;

use crate::request::{lemma_lines_nonempty, line_tokens};
use crate::request_type::{method_name, method_name_exec, RequestType};
use crate::response::Response;
use crate::text::{
    chars_eq, chars_of, decimal, decimal_exec, lines, lines_exec, parse_unsigned,
    parse_unsigned_exec, pairs_of, seqs_of, slice_of, split_exec, split_on, starts_with_ci, starts_with_ci_exec,
    string_of, tokens_exec, trim, trim_exec,
};

verus! {

/// How long, in milliseconds, a header or body read waits for more bytes.
pub const READ_TIMEOUT_MS: u64 = 50;

/// The most body bytes read when no Content-Length is given.
pub const BODY_READ_LIMIT_BYTES: u64 = 512;

// ---------------------------------------------------------------- body headers

/// The value of a `Content-Length:` line: the text between the first and
/// second `:`, trimmed, read as a number.
pub open spec fn content_length_value(line: Seq<char>) -> Option<nat> {
    let parts = split_on(line, ':');
    if parts.len() >= 2 {
        parse_unsigned(trim(parts[1]), usize::MAX as nat)
    } else {
        None
    }
}

/// The body hints of the header lines from the front: the last readable
/// Content-Length, and whether a Transfer-Encoding line is present.
pub open spec fn body_hints_from(ls: Seq<Seq<char>>, acc: (Option<nat>, bool)) -> (Option<nat>, bool)
    decreases ls.len(),
{
    if ls.len() == 0 {
        acc
    } else {
        let l = ls[0];
        let next = if starts_with_ci(l, "content-length:"@) {
            match content_length_value(l) {
                Some(n) => (Some(n), acc.1),
                None => acc,
            }
        } else if starts_with_ci(l, "transfer-encoding:"@) {
            (acc.0, true)
        } else {
            acc
        };
        body_hints_from(ls.skip(1), next)
    }
}

pub open spec fn body_hints(raw: Seq<char>) -> (Option<nat>, bool) {
    body_hints_from(lines(raw), (None, false))
}

/// How the body of a request is read once its header block is in.
#[derive(Clone, Copy, Debug, PartialEq, Eq, Structural)]
pub enum BodyPlan {
    /// Read exactly this many bytes, or until the stream ends.
    Exact(usize),
    /// Read up to the body limit within the body timeout (Transfer-Encoding).
    UpToLimit,
    /// Read in small chunks until the stream ends, the limit is reached or
    /// a read times out.
    Opportunistic,
    /// The request carries no body.
    NoBody,
    /// Strict mode: a body-bearing request came without Content-Length.
    LengthRequired,
}

pub open spec fn bears_body(method: Seq<char>) -> bool {
    method == method_name(RequestType::POST) || method == method_name(RequestType::PUT)
        || method == method_name(RequestType::DELETE) || method == method_name(RequestType::PATCH)
}

/// The method token of the header text, or nothing.
pub open spec fn method_token(raw: Seq<char>) -> Seq<char> {
    let t = line_tokens(raw);
    if t.len() > 0 {
        t[0]
    } else {
        seq![]
    }
}

pub open spec fn body_plan_of(raw: Seq<char>, strict: bool) -> BodyPlan {
    let (len, encoded) = body_hints(raw);
    match len {
        Some(n) => BodyPlan::Exact(n as usize),
        None => if bears_body(method_token(raw)) {
            if strict {
                BodyPlan::LengthRequired
            } else if encoded {
                BodyPlan::UpToLimit
            } else {
                BodyPlan::Opportunistic
            }
        } else {
            BodyPlan::NoBody
        },
    }
}

/// The Content-Length (0 where none is readable) and whether a
/// Transfer-Encoding header is present, in the header text `raw`.
pub fn extract_body_headers(raw: &str) -> (r: (usize, bool))
    ensures
        r.0 as nat == match body_hints(raw@).0 {
            Some(n) => n,
            None => 0,
        },
        r.1 == body_hints(raw@).1,
{
    let (len, encoded) = body_hints_exec(&chars_of(raw));
    match len {
        Some(n) => (n, encoded),
        None => (0, encoded),
    }
}

fn body_hints_exec(cs: &Vec<char>) -> (r: (Option<usize>, bool))
    ensures
        match body_hints(cs@).0 {
            Some(n) => r.0 is Some && r.0->0 as nat == n,
            None => r.0 is None,
        },
        r.1 == body_hints(cs@).1,
{
    let ls = lines_exec(cs);
    let cl = chars_of("content-length:");
    let te = chars_of("transfer-encoding:");
    let mut len: Option<usize> = None;
    let mut encoded = false;
    let ghost all = seqs_of(ls@);
    let mut i: usize = 0;
    assert(all.skip(0) =~= all);
    while i < ls.len()
        invariant
            i <= ls@.len(),
            all == seqs_of(ls@),
            all == lines(cs@),
            cl@ == "content-length:"@,
            te@ == "transfer-encoding:"@,
            body_hints(cs@) == body_hints_from(
                all.skip(i as int),
                (
                    match len {
                        Some(n) => Some(n as nat),
                        None => None,
                    },
                    encoded,
                ),
            ),
        decreases ls@.len() - i,
    {
        let line = &ls[i];
        assert(all.skip(i as int)[0] == line@);
        assert(all.skip(i as int).skip(1) =~= all.skip(i + 1));
        if starts_with_ci_exec(line, &cl) {
            let parts = split_exec(line, ':');
            if parts.len() >= 2 {
                let v = trim_exec(&parts[1]);
                match parse_unsigned_exec(&v, usize::MAX as u64) {
                    Some(n) => {
                        len = Some(n as usize);
                    },
                    None => {},
                }
            }
        } else if starts_with_ci_exec(line, &te) {
            encoded = true;
        }
        i += 1;
    }
    (len, encoded)
}

/// How the body of the request whose header text is `raw` is read.
pub fn plan_body(raw: &str, strict: bool) -> (r: BodyPlan)
    ensures
        r == body_plan_of(raw@, strict),
{
    let cs = chars_of(raw);
    let (len, encoded) = body_hints_exec(&cs);
    match len {
        Some(n) => BodyPlan::Exact(n),
        None => {
            let ls = lines_exec(&cs);
            proof {
                lemma_lines_nonempty(cs@);
            }
            let t = tokens_exec(&ls[0]);
            assert(seqs_of(t@) == line_tokens(raw@));
            let m: Vec<char> = if t.len() > 0 {
                let n = t[0].len();
                let c = slice_of(&t[0], 0, n);
                assert(c@ =~= t@[0]@);
                c
            } else {
                Vec::new()
            };
            assert(m@ == method_token(raw@));
            let body = chars_eq(&m, &method_name_exec(RequestType::POST))
                || chars_eq(&m, &method_name_exec(RequestType::PUT))
                || chars_eq(&m, &method_name_exec(RequestType::DELETE))
                || chars_eq(&m, &method_name_exec(RequestType::PATCH));
            if body {
                if strict {
                    BodyPlan::LengthRequired
                } else if encoded {
                    BodyPlan::UpToLimit
                } else {
                    BodyPlan::Opportunistic
                }
            } else {
                BodyPlan::NoBody
            }
        },
    }
}

// ---------------------------------------------------------------- response head

/// The head of a response: status line, Content-Type, Content-Length of the
/// body, `Connection: close` when closing, and the empty line.
pub open spec fn response_head_text(status: Seq<char>, content_type: Seq<char>, len: nat, close: bool) -> Seq<char> {
    "HTTP/1.1 "@ + status + "\r\nContent-Type: "@ + content_type + "\r\nContent-Length: "@
        + decimal(len) + "\r\n"@ + (if close {
        "Connection: close\r\n"@
    } else {
        seq![]
    }) + "\r\n"@
}

fn append_chars(out: &mut Vec<char>, s: &Vec<char>)
    ensures
        final(out)@ == old(out)@ + s@,
{
    let mut i: usize = 0;
    while i < s.len()
        invariant
            i <= s@.len(),
            out@ == old(out)@ + s@.take(i as int),
        decreases s@.len() - i,
    {
        out.push(s[i]);
        i += 1;
        assert(out@ =~= old(out)@ + s@.take(i as int));
    }
    assert(s@.take(i as int) =~= s@);
}

/// The head written before the body of `resp`; the body follows verbatim.
pub fn response_head(resp: &Response, close: bool) -> (r: String)
    ensures
        r@ == response_head_text(resp.status@, resp.content_type@, resp.content@.len(), close),
{
    let mut out: Vec<char> = Vec::new();
    append_chars(&mut out, &chars_of("HTTP/1.1 "));
    append_chars(&mut out, &chars_of(resp.status.as_str()));
    append_chars(&mut out, &chars_of("\r\nContent-Type: "));
    append_chars(&mut out, &chars_of(resp.content_type.as_str()));
    append_chars(&mut out, &chars_of("\r\nContent-Length: "));
    append_chars(&mut out, &decimal_exec(resp.content.len() as u64));
    append_chars(&mut out, &chars_of("\r\n"));
    if close {
        append_chars(&mut out, &chars_of("Connection: close\r\n"));
    } else {
        assert(out@ + seq![] =~= out@);
    }
    append_chars(&mut out, &chars_of("\r\n"));
    string_of(&out)
}

/// Extra header lines, each `name: value` and CRLF.
pub open spec fn header_lines_text(extra: Seq<(Seq<char>, Seq<char>)>) -> Seq<char>
    decreases extra.len(),
{
    if extra.len() == 0 {
        seq![]
    } else {
        header_lines_text(extra.drop_last()) + extra.last().0 + ": "@ + extra.last().1 + "\r\n"@
    }
}

/// The head of a response with extra header lines (CORS) after
/// Content-Length.
pub open spec fn response_head_with_text(
    status: Seq<char>,
    content_type: Seq<char>,
    len: nat,
    extra: Seq<(Seq<char>, Seq<char>)>,
    close: bool,
) -> Seq<char> {
    "HTTP/1.1 "@ + status + "\r\nContent-Type: "@ + content_type + "\r\nContent-Length: "@
        + decimal(len) + "\r\n"@ + header_lines_text(extra) + (if close {
        "Connection: close\r\n"@
    } else {
        seq![]
    }) + "\r\n"@
}

/// The head written before the body of `resp`, with the `extra` header
/// lines after Content-Length.
pub fn response_head_with(resp: &Response, close: bool, extra: &Vec<(String, String)>) -> (r: String)
    ensures
        r@ == response_head_with_text(
            resp.status@,
            resp.content_type@,
            resp.content@.len(),
            pairs_of(extra@),
            close,
        ),
{
    let mut out: Vec<char> = Vec::new();
    append_chars(&mut out, &chars_of("HTTP/1.1 "));
    append_chars(&mut out, &chars_of(resp.status.as_str()));
    append_chars(&mut out, &chars_of("\r\nContent-Type: "));
    append_chars(&mut out, &chars_of(resp.content_type.as_str()));
    append_chars(&mut out, &chars_of("\r\nContent-Length: "));
    append_chars(&mut out, &decimal_exec(resp.content.len() as u64));
    append_chars(&mut out, &chars_of("\r\n"));
    let ghost start = out@;
    let ghost hs = pairs_of(extra@);
    let mut i: usize = 0;
    assert(hs.take(0) =~= Seq::<(Seq<char>, Seq<char>)>::empty());
    assert(start + header_lines_text(hs.take(0)) =~= start);
    while i < extra.len()
        invariant
            i <= extra@.len(),
            hs == pairs_of(extra@),
            out@ == start + header_lines_text(hs.take(i as int)),
        decreases extra@.len() - i,
    {
        append_chars(&mut out, &chars_of(extra[i].0.as_str()));
        append_chars(&mut out, &chars_of(": "));
        append_chars(&mut out, &chars_of(extra[i].1.as_str()));
        append_chars(&mut out, &chars_of("\r\n"));
        proof {
            assert(hs.take(i + 1).drop_last() =~= hs.take(i as int));
            assert(hs.take(i + 1).last() == hs[i as int]);
            assert(out@ =~= start + header_lines_text(hs.take(i + 1)));
        }
        i += 1;
    }
    assert(hs.take(i as int) =~= hs);
    if close {
        append_chars(&mut out, &chars_of("Connection: close\r\n"));
    } else {
        assert(out@ + seq![] =~= out@);
    }
    append_chars(&mut out, &chars_of("\r\n"));
    string_of(&out)
}

} // verus!
