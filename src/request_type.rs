//! The request methods that the server accepts.
use vstd::prelude::*;

use crate::text::{chars_eq, chars_of, string_of};

verus! {

#[derive(Clone, Copy, Debug, PartialEq, Eq, Hash, Structural)]
pub enum RequestType {
    GET,
    POST,
    PUT,
    DELETE,
    HEAD,
    OPTIONS,
    CONNECT,
    PATCH,
    TRACE,
}

/// Short alias used in route tables.
pub type Rt = RequestType;

/// The method's name as it stands on the request line.
pub open spec fn method_name(m: RequestType) -> Seq<char> {
    match m {
        RequestType::GET => seq!['G', 'E', 'T'],
        RequestType::POST => seq!['P', 'O', 'S', 'T'],
        RequestType::PUT => seq!['P', 'U', 'T'],
        RequestType::DELETE => seq!['D', 'E', 'L', 'E', 'T', 'E'],
        RequestType::HEAD => seq!['H', 'E', 'A', 'D'],
        RequestType::OPTIONS => seq!['O', 'P', 'T', 'I', 'O', 'N', 'S'],
        RequestType::CONNECT => seq!['C', 'O', 'N', 'N', 'E', 'C', 'T'],
        RequestType::PATCH => seq!['P', 'A', 'T', 'C', 'H'],
        RequestType::TRACE => seq!['T', 'R', 'A', 'C', 'E'],
    }
}

/// The method whose name is exactly `s`, if any.
pub open spec fn method_named(s: Seq<char>) -> Option<RequestType> {
    if s == method_name(RequestType::GET) {
        Some(RequestType::GET)
    } else if s == method_name(RequestType::POST) {
        Some(RequestType::POST)
    } else if s == method_name(RequestType::PUT) {
        Some(RequestType::PUT)
    } else if s == method_name(RequestType::DELETE) {
        Some(RequestType::DELETE)
    } else if s == method_name(RequestType::HEAD) {
        Some(RequestType::HEAD)
    } else if s == method_name(RequestType::OPTIONS) {
        Some(RequestType::OPTIONS)
    } else if s == method_name(RequestType::CONNECT) {
        Some(RequestType::CONNECT)
    } else if s == method_name(RequestType::PATCH) {
        Some(RequestType::PATCH)
    } else if s == method_name(RequestType::TRACE) {
        Some(RequestType::TRACE)
    } else {
        None
    }
}

/// The method named `s`, or GET where no method has that name.
pub open spec fn method_or_get(s: Seq<char>) -> RequestType {
    match method_named(s) {
        Some(m) => m,
        None => RequestType::GET,
    }
}

/// What `str::to_uppercase` returns for the given characters.
pub uninterp spec fn upper_of(s: Seq<char>) -> Seq<char>;

/// Relies on `str::to_uppercase`: Unicode upper-casing, a function of the
/// characters alone.
#[verifier::external_body]
fn uppercase(s: &str) -> (r: String)
    ensures
        r@ == upper_of(s@),
{
    s.to_uppercase()
}

pub fn method_name_exec(m: RequestType) -> (r: Vec<char>)
    ensures
        r@ == method_name(m),
{
    let r = match m {
        RequestType::GET => vec!['G', 'E', 'T'],
        RequestType::POST => vec!['P', 'O', 'S', 'T'],
        RequestType::PUT => vec!['P', 'U', 'T'],
        RequestType::DELETE => vec!['D', 'E', 'L', 'E', 'T', 'E'],
        RequestType::HEAD => vec!['H', 'E', 'A', 'D'],
        RequestType::OPTIONS => vec!['O', 'P', 'T', 'I', 'O', 'N', 'S'],
        RequestType::CONNECT => vec!['C', 'O', 'N', 'N', 'E', 'C', 'T'],
        RequestType::PATCH => vec!['P', 'A', 'T', 'C', 'H'],
        RequestType::TRACE => vec!['T', 'R', 'A', 'C', 'E'],
    };
    assert(r@ =~= method_name(m));
    r
}

/// The method whose name is exactly the given characters.
pub fn method_named_exec(s: &Vec<char>) -> (r: Option<RequestType>)
    ensures
        r == method_named(s@),
{
    if chars_eq(s, &method_name_exec(RequestType::GET)) {
        Some(RequestType::GET)
    } else if chars_eq(s, &method_name_exec(RequestType::POST)) {
        Some(RequestType::POST)
    } else if chars_eq(s, &method_name_exec(RequestType::PUT)) {
        Some(RequestType::PUT)
    } else if chars_eq(s, &method_name_exec(RequestType::DELETE)) {
        Some(RequestType::DELETE)
    } else if chars_eq(s, &method_name_exec(RequestType::HEAD)) {
        Some(RequestType::HEAD)
    } else if chars_eq(s, &method_name_exec(RequestType::OPTIONS)) {
        Some(RequestType::OPTIONS)
    } else if chars_eq(s, &method_name_exec(RequestType::CONNECT)) {
        Some(RequestType::CONNECT)
    } else if chars_eq(s, &method_name_exec(RequestType::PATCH)) {
        Some(RequestType::PATCH)
    } else if chars_eq(s, &method_name_exec(RequestType::TRACE)) {
        Some(RequestType::TRACE)
    } else {
        None
    }
}

impl RequestType {
    /// Reads a method name in any letter case; text that names no method
    /// reads as GET.
    pub fn from_str(s: &str) -> (r: RequestType)
        ensures
            r == method_or_get(upper_of(s@)),
    {
        let upper = uppercase(s);
        RequestType::from_name(upper.as_str())
    }

    /// Reads an upper-case method name; text that names no method reads as GET.
    pub fn from_name(s: &str) -> (r: RequestType)
        ensures
            r == method_or_get(s@),
    {
        match method_named_exec(&chars_of(s)) {
            Some(m) => m,
            None => RequestType::GET,
        }
    }

    /// The method's name, as it is written on the request line.
    pub fn to_string(&self) -> (r: String)
        ensures
            r@ == method_name(*self),
    {
        string_of(&method_name_exec(*self))
    }
}

} // verus!
