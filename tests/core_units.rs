use httpageboy::connection::{extract_body_headers, plan_body, response_head, response_head_with, BodyPlan};
use httpageboy::cors::CorsPolicy;
use httpageboy::request::{header_block_complete, validate, MAX_URI};
use httpageboy::router::{extract_params, handle_request_sync, Dispatch, Handler, RouteTable, Routed};
use httpageboy::server::GenericServer;
use httpageboy::text::chars_of;
use httpageboy::{Request, RequestType, Response, Rt, StatusCode};

struct Named(&'static str);

impl Handler for Named {
  fn handle(&self, _request: &Request) -> Response {
    Response {
      status: StatusCode::OK.to_string(),
      content_type: "text/plain".to_string(),
      content: self.0.as_bytes().to_vec(),
    }
  }
}

fn param<'a>(req: &'a Request, key: &str) -> Option<&'a str> {
  req.params.iter().find(|(k, _)| k == key).map(|(_, v)| v.as_str())
}

fn body_text(routed: &Routed) -> String {
  match routed {
    Routed::Handled(r) => String::from_utf8_lossy(&r.content).to_string(),
    Routed::StaticFile => "static".to_string(),
    Routed::Unrouted => "unrouted".to_string(),
  }
}

fn status_of(raw: &str) -> Option<StatusCode> {
  validate(&chars_of(raw))
}

#[test]
fn request_type_reads_any_case() {
  assert_eq!(RequestType::from_str("post"), RequestType::POST);
  assert_eq!(RequestType::from_str("Delete"), RequestType::DELETE);
  assert_eq!(RequestType::from_str("BREW"), RequestType::GET);
  assert_eq!(RequestType::from_name("post"), RequestType::GET);
  assert_eq!(RequestType::from_name("PATCH"), RequestType::PATCH);
  assert_eq!(RequestType::TRACE.to_string(), "TRACE");
}

#[test]
fn status_lines() {
  assert_eq!(StatusCode::OK.to_string(), "200 OK");
  assert_eq!(StatusCode::UriTooLong.to_string(), "414 URI Too Long");
  assert_eq!(StatusCode::HttpVersionNotSupported.to_string(), "505 HTTP Version Not Supported");
  let r = Response::new();
  assert_eq!(r.status, "200 OK");
  assert!(r.content.is_empty());
}

#[test]
fn validation_order_and_codes() {
  assert_eq!(status_of(""), Some(StatusCode::BadRequest));
  assert_eq!(status_of(" \r\n\t "), Some(StatusCode::BadRequest));
  assert_eq!(status_of("GET /\r\n\r\n"), Some(StatusCode::BadRequest));
  assert_eq!(status_of("BREW /coffee HTTP/1.1\r\n\r\n"), Some(StatusCode::MethodNotAllowed));
  assert_eq!(status_of("get / HTTP/1.1\r\n\r\n"), Some(StatusCode::MethodNotAllowed));
  assert_eq!(status_of("BREW / HTTP/0.9\r\n\r\n"), Some(StatusCode::MethodNotAllowed));
  assert_eq!(status_of("GET / HTTP/0.9\r\n\r\n"), Some(StatusCode::HttpVersionNotSupported));
  assert_eq!(status_of("GET / HTTP/1.1\r\n\r\n"), None);
  let ok_path = format!("GET /{} HTTP/1.1\r\n\r\n", "a".repeat(MAX_URI - 1));
  assert_eq!(status_of(&ok_path), None);
  let long_path = format!("GET /{} HTTP/1.1\r\n\r\n", "a".repeat(MAX_URI));
  assert_eq!(status_of(&long_path), Some(StatusCode::UriTooLong));
}

#[test]
fn rejected_request_is_blank_with_bare_response() {
  let routes: RouteTable<Named> = RouteTable::new();
  let (req, routed) = Request::parse_raw_sync("GET / HTTP/0.9\r\n\r\n".to_string(), &routes);
  assert!(req.path.is_empty() && req.headers.is_empty() && req.body.is_empty());
  match routed {
    Routed::Handled(r) => {
      assert_eq!(r.status, "505 HTTP Version Not Supported");
      assert_eq!(r.content_type, "");
    }
    _ => panic!("expected a response"),
  }
}

#[test]
fn parse_raw_only_fields() {
  let raw = "POST /a/b?x=1&y=2&x=3&flag HTTP/1.1\r\nHost: here\r\nOrigin: http://app\r\nBad header\r\n\r\nline1\r\nline2";
  let req = Request::parse_raw_only(raw.to_string());
  assert_eq!(req.method, RequestType::POST);
  assert_eq!(req.path, "/a/b");
  assert_eq!(req.version, "HTTP/1.1");
  assert_eq!(
    req.headers,
    vec![
      ("Host".to_string(), "here".to_string()),
      ("Origin".to_string(), "http://app".to_string())
    ]
  );
  assert_eq!(req.body, "line1\r\nline2");
  assert_eq!(req.params.len(), 2);
  assert_eq!(param(&req, "x"), Some("3"));
  assert_eq!(param(&req, "y"), Some("2"));
  assert_eq!(param(&req, "flag"), None);
  assert_eq!(req.origin(), Some("http://app"));
}

#[test]
fn origin_is_case_insensitive_and_optional() {
  let req = Request::parse_raw_only("GET / HTTP/1.1\r\nORIGIN: x\r\n\r\n".to_string());
  assert_eq!(req.origin(), Some("x"));
  let req = Request::parse_raw_only("GET / HTTP/1.1\r\n\r\n".to_string());
  assert_eq!(req.origin(), None);
}

#[test]
fn body_round_trips_with_content_length() {
  let head = "POST /test HTTP/1.1\r\nContent-Length: 11\r\n\r\n";
  assert_eq!(plan_body(head, false), BodyPlan::Exact(11));
  let req = Request::parse_raw_only(format!("{}{}", head, "a\r\n\r\nb c d"));
  assert_eq!(req.body, "a\r\n\r\nb c d");
}

#[test]
fn body_truncated_to_declared_length() {
  let head = "POST /test HTTP/1.1\r\nContent-Length: 2\r\n\r\n";
  let BodyPlan::Exact(n) = plan_body(head, false) else { panic!("expected exact") };
  let req = Request::parse_raw_only(format!("{}{}", head, &"body"[..n]));
  assert_eq!(req.body, "bo");
}

#[test]
fn body_header_extraction() {
  assert_eq!(extract_body_headers("POST / HTTP/1.1\r\ncontent-length:  42 \r\n\r\n"), (42, false));
  assert_eq!(extract_body_headers("POST / HTTP/1.1\r\nContent-Length: x\r\n\r\n"), (0, false));
  assert_eq!(extract_body_headers("POST / HTTP/1.1\r\nTransfer-Encoding: chunked\r\n\r\n"), (0, true));
  assert_eq!(
    extract_body_headers("POST / HTTP/1.1\r\nContent-Length: 3\r\nContent-Length: +7\r\n\r\n"),
    (7, false)
  );
}

#[test]
fn body_plans() {
  assert_eq!(plan_body("GET / HTTP/1.1\r\n\r\n", false), BodyPlan::NoBody);
  assert_eq!(plan_body("GET / HTTP/1.1\r\n\r\n", true), BodyPlan::NoBody);
  assert_eq!(plan_body("POST / HTTP/1.1\r\n\r\n", false), BodyPlan::Opportunistic);
  assert_eq!(plan_body("PATCH / HTTP/1.1\r\nTransfer-Encoding: chunked\r\n\r\n", false), BodyPlan::UpToLimit);
  assert_eq!(plan_body("PUT / HTTP/1.1\r\n\r\n", true), BodyPlan::LengthRequired);
  assert_eq!(plan_body("DELETE / HTTP/1.1\r\nContent-Length: 0\r\n\r\n", true), BodyPlan::Exact(0));
}

#[test]
fn header_block_detection() {
  assert!(header_block_complete("GET / HTTP/1.1\r\nHost: a\r\n\r\n"));
  assert!(!header_block_complete("GET / HTTP/1.1\r\nHost: a\r\n"));
  assert!(!header_block_complete(""));
}

#[test]
fn response_head_bytes() {
  let r = Response { status: "200 OK".to_string(), content_type: "text/html".to_string(), content: b"hello".to_vec() };
  assert_eq!(
    response_head(&r, true),
    "HTTP/1.1 200 OK\r\nContent-Type: text/html\r\nContent-Length: 5\r\nConnection: close\r\n\r\n"
  );
  let r = Response { status: "404 Not Found".to_string(), content_type: String::new(), content: vec![0u8; 1234] };
  assert_eq!(response_head(&r, false), "HTTP/1.1 404 Not Found\r\nContent-Type: \r\nContent-Length: 1234\r\n\r\n");
}

#[test]
fn extract_params_positional() {
  let mut p = extract_params("/test/{param1}/{param2}", "/test/hola/que");
  p.sort();
  assert_eq!(
    p,
    vec![("param1".to_string(), "hola".to_string()), ("param2".to_string(), "que".to_string())]
  );
  assert!(extract_params("/test/{param1}", "/test/hola/que").is_empty());
  assert!(extract_params("/other/{param1}", "/test/hola").is_empty());
  assert_eq!(extract_params("/{a}/{a}", "/x/y"), vec![("a".to_string(), "y".to_string())]);
}

#[test]
fn exact_route_beats_template() {
  let mut routes = RouteTable::new();
  routes.add_route("/{name}", Rt::GET, Named("template"));
  routes.add_route("/test", Rt::GET, Named("exact"));
  assert_eq!(routes.resolve(Rt::GET, "/test"), Dispatch::Exact(1));
  assert_eq!(routes.resolve(Rt::GET, "/other"), Dispatch::Template(0));
  let (req, routed) = Request::parse_raw_sync("GET /test?q=1 HTTP/1.1\r\n\r\n".to_string(), &routes);
  assert_eq!(body_text(&routed), "exact");
  assert_eq!(param(&req, "name"), None);
  assert_eq!(param(&req, "q"), Some("1"));
}

#[test]
fn query_overrides_path_parameter() {
  let mut routes = RouteTable::new();
  routes.add_route("/item/{id}/{kind}", Rt::POST, Named("item"));
  let (req, routed) = Request::parse_raw_sync("POST /item/5/book?id=9 HTTP/1.1\r\n\r\n".to_string(), &routes);
  assert_eq!(body_text(&routed), "item");
  assert_eq!(param(&req, "id"), Some("9"));
  assert_eq!(param(&req, "kind"), Some("book"));
  assert_eq!(req.params.len(), 2);
}

#[test]
fn first_registered_template_wins() {
  let mut routes = RouteTable::new();
  routes.add_route("/a/{x}", Rt::GET, Named("first"));
  routes.add_route("/{y}/b", Rt::GET, Named("second"));
  assert_eq!(routes.resolve(Rt::GET, "/a/b"), Dispatch::Template(0));
  assert_eq!(routes.resolve(Rt::POST, "/a/b"), Dispatch::Unrouted);
}

#[test]
fn static_fallback_only_for_unmatched_get() {
  let mut routes = RouteTable::new();
  routes.add_route("/x", Rt::GET, Named("x"));
  assert_eq!(routes.resolve(Rt::GET, "/x"), Dispatch::Exact(0));
  assert_eq!(routes.resolve(Rt::GET, "/y.png"), Dispatch::StaticFile);
  assert_eq!(routes.resolve(Rt::HEAD, "/y.png"), Dispatch::Unrouted);
  assert_eq!(routes.resolve(Rt::POST, "/x"), Dispatch::Unrouted);
}

#[test]
fn add_route_replaces_same_key() {
  let mut routes = RouteTable::new();
  routes.add_route("/x", Rt::GET, Named("old"));
  routes.add_route("/x", Rt::GET, Named("new"));
  routes.add_route("/x", Rt::PUT, Named("put"));
  assert_eq!(routes.routes.len(), 2);
  let mut req = Request::parse_raw_only("GET /x HTTP/1.1\r\n\r\n".to_string());
  assert_eq!(body_text(&handle_request_sync(&mut req, &routes)), "new");
}

#[test]
fn cors_default_and_config() {
  let d = CorsPolicy::default();
  assert_eq!(d.allow_origin, "*");
  assert_eq!(d.allow_methods, "GET,POST,PUT,DELETE,OPTIONS");
  assert_eq!(d.max_age_seconds, Some(600));
  let p = CorsPolicy::from_config_str(" Origin = http://app , credentials=TRUE,headers=Content-Type,max_age=abc,unknown=1");
  assert_eq!(p.allow_origin, "http://app");
  assert!(p.allow_credentials);
  assert_eq!(p.allow_headers, "Content-Type");
  assert_eq!(p.max_age_seconds, None);
  assert_eq!(p.allow_methods, "GET,POST,PUT,DELETE,OPTIONS");
  let q = CorsPolicy::from_config_str("max_age_seconds=42,allow_methods=GET");
  assert_eq!(q.max_age_seconds, Some(42));
  assert_eq!(q.allow_methods, "GET");
}

#[test]
fn cors_allowed_origin_and_headers() {
  let mut p = CorsPolicy::from_config_str("origin=http://a.com, HTTP://B.com,max_age=7,credentials=true");
  assert_eq!(p.allow_origin, "http://a.com");
  p.allow_origin = "http://a.com, HTTP://B.com,".to_string();
  assert_eq!(p.allowed_origin(Some("http://b.com")), Some("http://b.com".to_string()));
  assert_eq!(p.allowed_origin(Some("http://c.com")), None);
  assert_eq!(p.allowed_origin(None), None);
  let h = p.header_lines(Some("http://a.com"));
  assert_eq!(
    h,
    vec![
      ("Access-Control-Allow-Origin".to_string(), "http://a.com".to_string()),
      ("Access-Control-Allow-Methods".to_string(), "GET,POST,PUT,DELETE,OPTIONS".to_string()),
      ("Access-Control-Allow-Headers".to_string(), "Content-Type, Authorization".to_string()),
      ("Access-Control-Allow-Credentials".to_string(), "true".to_string()),
      ("Access-Control-Max-Age".to_string(), "7".to_string()),
    ]
  );
  let h = p.header_lines(Some("http://evil.com"));
  assert_eq!(h.len(), 2);
  let star = CorsPolicy::default();
  assert_eq!(star.allowed_origin(None), Some("*".to_string()));
  assert_eq!(star.header_lines(None).last().unwrap().1, "600");
  let pre = star.preflight_response();
  assert_eq!(pre.status, "204 No Content");
  assert_eq!(pre.content_type, "text/plain");
  assert!(pre.content.is_empty());
}

#[test]
fn generic_server_configuration() {
  let mut s: GenericServer<u8, Named> = GenericServer::new(7, "127.0.0.1:9".to_string());
  assert!(s.auto_close);
  s.set_auto_close(false);
  assert!(!s.auto_close);
  s.add_route("/", Rt::GET, Named("home"));
  s.add_files_source("res");
  s.add_files_source("public");
  assert_eq!(s.files_sources, vec!["res".to_string(), "public".to_string()]);
  assert_eq!(s.url(), "127.0.0.1:9");
  assert_eq!(s.routes.resolve(Rt::GET, "/"), Dispatch::Exact(0));
  s.set_cors_str("origin=http://x");
  assert_eq!(s.cors.as_ref().unwrap().allow_origin, "http://x");
}

#[test]
fn preflight_answers_options_before_routing() {
  let mut s: GenericServer<(), Named> = GenericServer::new((), "h".to_string());
  s.add_route("/x", Rt::OPTIONS, Named("routed"));
  let (req, routed) = s.respond("OPTIONS /x HTTP/1.1\r\nOrigin: http://a\r\n\r\n".to_string());
  match routed {
    Routed::Handled(r) => {
      assert_eq!(r.status, "204 No Content");
      assert!(r.content.is_empty());
    }
    _ => panic!("expected the preflight answer"),
  }
  assert_eq!(req.method, RequestType::OPTIONS);
  s.cors = None;
  let (_, routed) = s.respond("OPTIONS /x HTTP/1.1\r\n\r\n".to_string());
  assert_eq!(body_text(&routed), "routed");
  let (_, routed) = s.respond("OPTIONS /x HTTP/2\r\n\r\n".to_string());
  match routed {
    Routed::Handled(r) => assert_eq!(r.status, "505 HTTP Version Not Supported"),
    _ => panic!("expected a rejection"),
  }
}

#[test]
fn cors_headers_in_response_head() {
  let s: GenericServer<(), Named> = GenericServer::new((), "h".to_string());
  let req = Request::parse_raw_only("GET / HTTP/1.1\r\norigin: http://a\r\n\r\n".to_string());
  let extra = s.cors_headers_for(&req);
  assert_eq!(extra.len(), 4);
  let r = Response::new();
  assert_eq!(
    response_head_with(&r, false, &extra),
    "HTTP/1.1 200 OK\r\nContent-Type: \r\nContent-Length: 0\r\n\
Access-Control-Allow-Origin: *\r\nAccess-Control-Allow-Methods: GET,POST,PUT,DELETE,OPTIONS\r\n\
Access-Control-Allow-Headers: Content-Type, Authorization\r\nAccess-Control-Max-Age: 600\r\n\r\n"
  );
  let mut plain: GenericServer<(), Named> = GenericServer::new((), "h".to_string());
  plain.cors = None;
  assert!(plain.cors_headers_for(&req).is_empty());
  plain.set_strict_content_length(true);
  assert!(plain.strict_content_length);
}
