//! Server configuration shared by every execution model: the listener, the
//! route table, the static-file directories, the auto-close flag and the
//! CORS policy. The accept loop that uses it lives outside the library.
use vstd::prelude::*;

use crate::cors::{config_policy, cors_headers, default_cors, CorsPolicy};
use crate::request::{
    early_status, header_value_ci, is_blank_request, line_tokens, parsed_from, validate, Request,
};
use crate::request_type::{method_or_get, RequestType};
use crate::response::{is_bare, status_text, Response, StatusCode};
use crate::router::{find_exact_from, routed_from, Handler, RouteTable, Routed};
use crate::text::{chars_of, pairs_of, strs_of};

verus! {

pub struct GenericServer<L, H> {
    pub listener: L,
    pub url: String,
    pub routes: RouteTable<H>,
    pub files_sources: Vec<String>,
    pub auto_close: bool,
    pub strict_content_length: bool,
    pub cors: Option<CorsPolicy>,
}

/// A CORS preflight answer: `204 No Content`, plain text, no body.
pub open spec fn is_preflight(resp: Response) -> bool {
    resp.status@ == status_text(StatusCode::NoContent) && resp.content_type@ == "text/plain"@
        && resp.content@.len() == 0
}

impl<L, H: Handler> GenericServer<L, H> {
    /// A server on `listener`, reachable at `url`, with no routes, no file
    /// directories, auto-close on and the default CORS policy.
    pub fn new(listener: L, url: String) -> (r: Self)
        ensures
            r.listener == listener,
            r.url@ == url@,
            r.routes.keys().len() == 0,
            r.files_sources@.len() == 0,
            r.auto_close,
            !r.strict_content_length,
            r.cors is Some && r.cors->0@ == default_cors(),
    {
        GenericServer {
            listener,
            url,
            routes: RouteTable::new(),
            files_sources: Vec::new(),
            auto_close: true,
            strict_content_length: false,
            cors: Some(CorsPolicy::default()),
        }
    }

    /// Turns the `Connection: close` header on or off.
    pub fn set_auto_close(&mut self, active: bool)
        ensures
            final(self).auto_close == active,
            final(self).routes.keys() == old(self).routes.keys(),
            strs_of(final(self).files_sources@) == strs_of(old(self).files_sources@),
    {
        self.auto_close = active;
    }

    /// Adds a route; one with the same method and pattern is replaced.
    pub fn add_route(&mut self, path: &str, rt: RequestType, handler: H)
        ensures
            match find_exact_from(old(self).routes.keys(), rt, path@, 0) {
                Some(i) => final(self).routes.keys() == old(self).routes.keys(),
                None => final(self).routes.keys() == old(self).routes.keys().push((rt, path@)),
            },
            final(self).auto_close == old(self).auto_close,
            strs_of(final(self).files_sources@) == strs_of(old(self).files_sources@),
    {
        self.routes.add_route(path, rt, handler);
    }

    pub fn url(&self) -> (r: &str)
        ensures
            r@ == self.url@,
    {
        self.url.as_str()
    }

    /// Adds a directory to serve static files from; directories are searched
    /// in the order they were added.
    pub fn add_files_source(&mut self, base: &str)
        ensures
            strs_of(final(self).files_sources@) == strs_of(old(self).files_sources@).push(base@),
            final(self).routes.keys() == old(self).routes.keys(),
            final(self).auto_close == old(self).auto_close,
    {
        let ghost before = self.files_sources@;
        self.files_sources.push(base.to_owned());
        assert(strs_of(self.files_sources@) =~= strs_of(before).push(base@));
    }

    pub fn set_cors(&mut self, policy: CorsPolicy)
        ensures
            final(self).cors is Some && final(self).cors->0@ == policy@,
            final(self).routes.keys() == old(self).routes.keys(),
            final(self).auto_close == old(self).auto_close,
    {
        self.cors = Some(policy);
    }

    /// Sets the CORS policy from a configuration string.
    pub fn set_cors_str(&mut self, config: &str)
        ensures
            final(self).cors is Some && final(self).cors->0@ == config_policy(config@),
            final(self).routes.keys() == old(self).routes.keys(),
            final(self).auto_close == old(self).auto_close,
    {
        self.set_cors(CorsPolicy::from_config_str(config));
    }

    /// Turns strict Content-Length mode on or off: when on, a body-bearing
    /// request without Content-Length is answered with 411.
    pub fn set_strict_content_length(&mut self, active: bool)
        ensures
            final(self).strict_content_length == active,
            final(self).auto_close == old(self).auto_close,
            final(self).routes.keys() == old(self).routes.keys(),
    {
        self.strict_content_length = active;
    }

    /// Answers a raw request: a rejected request gets its error response; a
    /// valid OPTIONS request gets the preflight answer when a CORS policy is
    /// set, before any routing; any other is parsed and routed.
    pub fn respond(&self, raw: String) -> (r: (Request, Routed))
        ensures
            match early_status(raw@) {
                Some(c) => is_blank_request(r.0) && match r.1 {
                    Routed::Handled(resp) => is_bare(resp, c),
                    _ => false,
                },
                None => if self.cors is Some && method_or_get(line_tokens(raw@)[0]) == RequestType::OPTIONS {
                    parsed_from(r.0, raw@) && match r.1 {
                        Routed::Handled(resp) => is_preflight(resp),
                        _ => false,
                    }
                } else {
                    routed_from(r, raw@, self.routes.keys())
                },
            },
    {
        match validate(&chars_of(raw.as_str())) {
            Some(_) => Request::parse_raw_sync(raw, &self.routes),
            None => {
                match &self.cors {
                    Some(policy) => {
                        let req = Request::parse_raw_only(raw.clone());
                        if req.method == RequestType::OPTIONS {
                            let pre = policy.preflight_response();
                            return (req, Routed::Handled(pre));
                        }
                        Request::parse_raw_sync(raw, &self.routes)
                    },
                    None => Request::parse_raw_sync(raw, &self.routes),
                }
            },
        }
    }

    /// The CORS headers for a response to `request`: none without a policy.
    pub fn cors_headers_for(&self, request: &Request) -> (r: Vec<(String, String)>)
        ensures
            match self.cors {
                Some(p) => pairs_of(r@) == cors_headers(
                    p@,
                    header_value_ci(pairs_of(request.headers@), "origin"@),
                ),
                None => r@.len() == 0,
            },
    {
        match &self.cors {
            Some(policy) => policy.header_lines(request.origin()),
            None => Vec::new(),
        }
    }
}

} // verus!
