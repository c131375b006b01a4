use httpageboy::connection::{plan_body, response_head, BodyPlan, BODY_READ_LIMIT_BYTES};
use httpageboy::router::{Handler, RouteTable, Routed};
use httpageboy::{Request, Response, Rt, StatusCode};
use std::collections::BTreeMap;

enum Demo {
  Text(&'static str),
  Echo,
}

impl Handler for Demo {
  fn handle(&self, request: &Request) -> Response {
    match self {
      Demo::Text(t) => Response {
        status: StatusCode::OK.to_string(),
        content_type: String::new(),
        content: t.as_bytes().to_vec(),
      },
      Demo::Echo => {
        let mut ordered: BTreeMap<&String, &String> = BTreeMap::new();
        for (k, v) in &request.params {
          ordered.insert(k, v);
        }
        let text = format!(
          "Method: {}\nUri: {}\nParams: {:?}\nBody: {:?}",
          request.method.to_string(),
          request.path,
          ordered,
          request.body
        );
        Response {
          status: StatusCode::OK.to_string(),
          content_type: String::new(),
          content: text.as_bytes().to_vec(),
        }
      }
    }
  }
}

fn demo_routes() -> RouteTable<Demo> {
  let mut routes = RouteTable::new();
  routes.add_route("/", Rt::GET, Demo::Text("home"));
  routes.add_route("/test", Rt::GET, Demo::Text("get"));
  routes.add_route("/test", Rt::POST, Demo::Echo);
  routes.add_route("/test/{param1}", Rt::POST, Demo::Echo);
  routes.add_route("/test/{param1}/{param2}", Rt::POST, Demo::Echo);
  routes.add_route("/test", Rt::PUT, Demo::Echo);
  routes.add_route("/test", Rt::DELETE, Demo::Text("delete"));
  routes
}

/// Plays one connection whose client has sent `request` and closed its
/// side: header block, body by the plan, routing, response bytes.
fn serve(request: &[u8]) -> String {
  let routes = demo_routes();
  let split = request
    .windows(4)
    .position(|w| w == b"\r\n\r\n")
    .map(|p| p + 4)
    .unwrap_or(request.len());
  let head = String::from_utf8_lossy(&request[..split]).to_string();
  let rest = &request[split..];
  let limit = BODY_READ_LIMIT_BYTES as usize;
  let body: &[u8] = match plan_body(&head, false) {
    BodyPlan::Exact(n) => &rest[..n.min(rest.len())],
    BodyPlan::UpToLimit | BodyPlan::Opportunistic => &rest[..limit.min(rest.len())],
    BodyPlan::NoBody => &[],
    BodyPlan::LengthRequired => return response_head(&Response::bare(StatusCode::LengthRequired), true),
  };
  let raw = head + &String::from_utf8_lossy(body);
  let (_request, routed) = Request::parse_raw_sync(raw, &routes);
  let response = match routed {
    Routed::Handled(r) => r,
    Routed::StaticFile => Response::bare(StatusCode::NotFound),
    Routed::Unrouted => Response::new(),
  };
  let mut out = response_head(&response, true);
  out.push_str(&String::from_utf8_lossy(&response.content));
  out
}

fn run_regular(request: &[u8], expected: &[u8]) -> String {
  let got = serve(request);
  let expected = String::from_utf8_lossy(expected).to_string();
  assert!(got.contains(&expected), "RECEIVED: {}\nEXPECTED: {}", got, expected);
  got
}

#[test]
fn test_home() {
  let request = b"GET / HTTP/1.1\r\n\r\n";
  let expected_response = b"home";
  run_regular(request, expected_response);
}

#[test]
fn test_get() {
  let request = b"GET /test HTTP/1.1\r\n\r\n";
  let expected_response = b"get";
  run_regular(request, expected_response);
}

#[test]
fn test_get_with_query() {
  let request = b"GET /test?foo=bar&baz=qux HTTP/1.1\r\n\r\n";
  let expected_response = b"get";
  run_regular(request, expected_response);
}

#[test]
fn test_get_no_content_length() {
  let request = b"GET /test HTTP/1.1\r\n\r\n";
  let expected_response = b"get";
  run_regular(request, expected_response);
}

#[test]
fn test_get_with_content_length_matching_body() {
  let request = b"GET /test HTTP/1.1\r\nContent-Length: 4\r\n\r\nping";
  let expected_response = b"get";
  run_regular(request, expected_response);
}

#[test]
fn test_get_with_content_length_smaller_than_body() {
  let request = b"GET /test HTTP/1.1\r\nContent-Length: 1\r\n\r\npong";
  let expected_response = b"get";
  run_regular(request, expected_response);
}

#[test]
fn test_get_with_content_length_larger_than_body() {
  let request = b"GET /test HTTP/1.1\r\nContent-Length: 10\r\n\r\nhi";
  let expected_response = b"get";
  run_regular(request, expected_response);
}

#[test]
fn test_post() {
  let request = b"POST /test HTTP/1.1\r\n\r\nmueve tu cuerpo";
  let expected_response = b"Method: POST\nUri: /test\nParams: {}\nBody: \"mueve tu cuerpo\"";
  run_regular(request, expected_response);
}

#[test]
fn test_post_without_content_length_empty_body() {
  let request = b"POST /test HTTP/1.1\r\n\r\n";
  let expected_response = b"Method: POST\nUri: /test\nParams: {}\nBody: \"\"";
  run_regular(request, expected_response);
}

#[test]
fn test_post_with_query() {
  let request = b"POST /test?foo=bar HTTP/1.1\r\n\r\nmueve tu cuerpo";
  let expected_response = b"Method: POST\nUri: /test\nParams: {\"foo\": \"bar\"}\nBody: \"mueve tu cuerpo\"";
  run_regular(request, expected_response);
}

#[test]
fn test_post_with_content_length() {
  let request = b"POST /test HTTP/1.1\r\nContent-Length: 15\r\n\r\nmueve tu cuerpo";
  let expected_response = b"Method: POST\nUri: /test\nParams: {}\nBody: \"mueve tu cuerpo\"";
  run_regular(request, expected_response);
}

#[test]
fn test_post_with_params() {
  let request = b"POST /test/hola/que?param4=hoy&param3=hace HTTP/1.1\r\n\r\nmueve tu cuerpo";
  let expected_response = b"Method: POST\nUri: /test/hola/que\nParams: {\"param1\": \"hola\", \"param2\": \"que\", \"param3\": \"hace\", \"param4\": \"hoy\"}\nBody: \"mueve tu cuerpo\"";
  run_regular(request, expected_response);
}

#[test]
fn test_post_with_incomplete_path_params() {
  let request = b"POST /test/hola HTTP/1.1\r\n\r\nmueve tu cuerpo";
  let expected_response = b"Method: POST\nUri: /test/hola\nParams: {\"param1\": \"hola\"}\nBody: \"mueve tu cuerpo\"";
  run_regular(request, expected_response);
}

#[test]
fn test_post_without_content_length_body() {
  let request = b"POST /test HTTP/1.1\r\n\r\nbody";
  let expected_response = b"Method: POST\nUri: /test\nParams: {}\nBody: \"body\"";
  run_regular(request, expected_response);
}

#[test]
fn test_post_with_matching_content_length() {
  let request = b"POST /test HTTP/1.1\r\nContent-Length: 4\r\n\r\nbody";
  let expected_response = b"Method: POST\nUri: /test\nParams: {}\nBody: \"body\"";
  run_regular(request, expected_response);
}

#[test]
fn test_post_with_smaller_content_length() {
  let request = b"POST /test HTTP/1.1\r\nContent-Length: 2\r\n\r\nbody";
  let expected_response = b"Method: POST\nUri: /test\nParams: {}\nBody: \"bo\"";
  run_regular(request, expected_response);
}

#[test]
fn test_post_with_larger_content_length() {
  let request = b"POST /test HTTP/1.1\r\nContent-Length: 10\r\n\r\nbody";
  let expected_response = b"HTTP/1.1 200 OK";
  run_regular(request, expected_response);
}

#[test]
fn test_put() {
  let request = b"PUT /test HTTP/1.1\r\n\r\nmueve tu cuerpo";
  let expected_response = b"Method: PUT\nUri: /test\nParams: {}\nBody: \"mueve tu cuerpo\"";
  run_regular(request, expected_response);
}

#[test]
fn test_put_without_content_length() {
  let request = b"PUT /test HTTP/1.1\r\n\r\nput";
  let expected_response = b"Method: PUT\nUri: /test\nParams: {}\nBody: \"put\"";
  run_regular(request, expected_response);
}

#[test]
fn test_put_with_matching_content_length() {
  let request = b"PUT /test HTTP/1.1\r\nContent-Length: 3\r\n\r\nput";
  let expected_response = b"Method: PUT\nUri: /test\nParams: {}\nBody: \"put\"";
  run_regular(request, expected_response);
}

#[test]
fn test_put_with_smaller_content_length() {
  let request = b"PUT /test HTTP/1.1\r\nContent-Length: 1\r\n\r\nput";
  let expected_response = b"Method: PUT\nUri: /test\nParams: {}\nBody: \"p\"";
  run_regular(request, expected_response);
}

#[test]
fn test_put_with_larger_content_length() {
  let request = b"PUT /test HTTP/1.1\r\nContent-Length: 8\r\n\r\nput";
  let expected_response = b"HTTP/1.1 200 OK";
  run_regular(request, expected_response);
}

#[test]
fn test_delete() {
  let request = b"DELETE /test HTTP/1.1\r\n\r\n";
  let expected_response = b"delete";
  run_regular(request, expected_response);
}

#[test]
fn test_delete_no_content_length() {
  let request = b"DELETE /test HTTP/1.1\r\n\r\n";
  let expected_response = b"delete";
  run_regular(request, expected_response);
}

#[test]
fn test_delete_with_content_length_matching_body() {
  let request = b"DELETE /test HTTP/1.1\r\nContent-Length: 4\r\n\r\nping";
  let expected_response = b"delete";
  run_regular(request, expected_response);
}

#[test]
fn test_delete_with_content_length_smaller_than_body() {
  let request = b"DELETE /test HTTP/1.1\r\nContent-Length: 1\r\n\r\nping";
  let expected_response = b"delete";
  run_regular(request, expected_response);
}

#[test]
fn test_delete_with_content_length_larger_than_body() {
  let request = b"DELETE /test HTTP/1.1\r\nContent-Length: 20\r\n\r\nping";
  let expected_response = b"delete";
  run_regular(request, expected_response);
}

#[test]
fn test_strict_mode_without_content_length() {
  let request = b"POST /test HTTP/1.1\r\n\r\npayload";
  let expected_response = b"Method: POST\nUri: /test\nParams: {}\nBody: \"payload\"";
  run_regular(request, expected_response);
}

#[test]
fn test_strict_mode_with_content_length() {
  let request = b"POST /test HTTP/1.1\r\nContent-Length: 7\r\n\r\npayload";
  let expected_response = b"Method: POST\nUri: /test\nParams: {}\nBody: \"payload\"";
  run_regular(request, expected_response);
}

#[test]
fn test_strict_mode_get_without_content_length() {
  let request = b"GET /test HTTP/1.1\r\n\r\n";
  let expected_response = b"get";
  run_regular(request, expected_response);
}

#[test]
fn test_file_not_found() {
  let request = b"GET /test.png HTTP/1.1\r\n\r\n";
  let expected_response = b"HTTP/1.1 404 Not Found";
  run_regular(request, expected_response);
}

#[test]
fn test_method_not_allowed() {
  let request = b"BREW /coffee HTTP/1.1\r\n\r\n";
  let expected_response = b"HTTP/1.1 405 Method Not Allowed";
  run_regular(request, expected_response);
}

#[test]
fn test_empty_request() {
  let request = b"";
  let expected_response = b"HTTP/1.1 400 Bad Request";
  run_regular(request, expected_response);
}

#[test]
fn test_malformed_request() {
  let request = b"THIS_IS_NOT_HTTP\r\n\r\n";
  let expected_response = b"HTTP/1.1 400 Bad Request";
  run_regular(request, expected_response);
}

#[test]
fn test_unsupported_http_version() {
  let request = b"GET / HTTP/0.9\r\n\r\n";
  let expected_response = b"HTTP/1.1 505 HTTP Version Not Supported";
  run_regular(request, expected_response);
}

#[test]
fn test_missing_method() {
  let request = b"/ HTTP/1.1\r\n\r\n";
  let expected_response = b"HTTP/1.1 400 Bad Request";
  run_regular(request, expected_response);
}

#[test]
fn test_long_path() {
  let long_path = "/".to_string() + &"a".repeat(10_000);
  let request = format!("GET {} HTTP/1.1\r\n\r\n", long_path);
  let expected_response = b"HTTP/1.1 414 URI Too Long";
  run_regular(request.as_bytes(), expected_response);
}

#[test]
fn repeated_requests_get_identical_responses() {
  let request = b"POST /test/hola/que?param4=hoy HTTP/1.1\r\n\r\nabc";
  assert_eq!(serve(request), serve(request));
  assert_eq!(serve(b"GET /missing HTTP/1.1\r\n\r\n"), serve(b"GET /missing HTTP/1.1\r\n\r\n"));
}

#[test]
fn unmatched_post_gets_default_response() {
  let got = serve(b"POST /nowhere HTTP/1.1\r\nContent-Length: 0\r\n\r\n");
  assert_eq!(got, "HTTP/1.1 200 OK\r\nContent-Type: \r\nContent-Length: 0\r\nConnection: close\r\n\r\n");
}
