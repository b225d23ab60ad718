use fullstack_app::cors::{CorsPolicy, PolicyError};
use fullstack_app::message::{Header, Request, Response};
use fullstack_app::method::Method;
use fullstack_app::server::respond;

const SITE: &str = "https://your-frontend-site.com";

fn site_policy() -> CorsPolicy {
    CorsPolicy::for_frontend(SITE).unwrap()
}

fn from(method: &str, path: &str, origin: Option<&str>) -> Request {
    let mut request = Request::new(method, path);
    request.origin = origin.map(|o| o.as_bytes().to_vec());
    request
}

fn preflight(origin: Option<&str>, method: Option<&str>, headers: Option<&str>) -> Response {
    let mut request = from("OPTIONS", "/people", origin);
    request.request_method = method.map(|m| m.as_bytes().to_vec());
    request.request_headers = headers.map(|h| h.as_bytes().to_vec());
    respond(&site_policy(), &request)
}

fn granted(response: &Response) -> bool {
    response.allow_methods == Some(b"GET,POST".to_vec())
        && response.allow_headers == Some(b"content-type".to_vec())
}

fn refused(response: &Response) -> bool {
    response.allow_methods.is_none() && response.allow_headers.is_none()
}

fn value_of<'a>(headers: &'a [Header], name: &str) -> Option<&'a [u8]> {
    headers.iter().find(|h| h.name == name).map(|h| h.value.as_slice())
}

#[test]
fn allowed_origin_is_reflected_on_every_route() {
    for (method, path) in
        [("GET", "/"), ("GET", "/people"), ("GET", "/world"), ("GET", "/nonexistent"), ("POST", "/")]
    {
        let response = respond(&site_policy(), &from(method, path, Some(SITE)));
        assert_eq!(response.allow_origin, Some(SITE.as_bytes().to_vec()));
        let headers = response.headers();
        assert_eq!(value_of(&headers, "access-control-allow-origin"), Some(SITE.as_bytes()));
    }
}

#[test]
fn allowed_origin_is_reflected_on_preflight() {
    let response = preflight(Some(SITE), Some("PUT"), None);
    assert_eq!(response.allow_origin, Some(SITE.as_bytes().to_vec()));
    let response = preflight(Some(SITE), Some("POST"), None);
    assert_eq!(response.allow_origin, Some(SITE.as_bytes().to_vec()));
}

#[test]
fn foreign_origin_gets_no_allow_origin() {
    for foreign in [
        "https://evil.example",
        "http://your-frontend-site.com",
        "https://your-frontend-site.com/",
        "https://YOUR-FRONTEND-SITE.com",
        "https://your-frontend-site.com:443",
        "null",
        "*",
        "",
    ] {
        for (method, path) in [("GET", "/"), ("GET", "/people"), ("OPTIONS", "/people")] {
            let response = respond(&site_policy(), &from(method, path, Some(foreign)));
            assert_eq!(response.allow_origin, None, "{}", foreign);
            assert!(refused(&response));
            let headers = response.headers();
            assert_eq!(value_of(&headers, "access-control-allow-origin"), None);
        }
    }
}

#[test]
fn foreign_origin_still_gets_the_body() {
    let response = respond(&site_policy(), &from("GET", "/", Some("https://evil.example")));
    assert_eq!(response.status, 200);
    assert_eq!(response.body, b"Hello, World!".to_vec());
}

#[test]
fn request_without_origin_is_told_the_allowed_origin() {
    let response = respond(&site_policy(), &from("GET", "/", None));
    assert_eq!(response.allow_origin, Some(SITE.as_bytes().to_vec()));
}

#[test]
fn preflight_for_put_is_rejected() {
    let response = preflight(Some(SITE), Some("PUT"), None);
    assert_eq!(response.status, 200);
    assert!(refused(&response));
    let headers = response.headers();
    assert_eq!(value_of(&headers, "access-control-allow-methods"), None);
    assert_eq!(value_of(&headers, "access-control-allow-headers"), None);
}

#[test]
fn preflight_for_post_succeeds() {
    let response = preflight(Some(SITE), Some("POST"), None);
    assert_eq!(response.status, 200);
    assert!(granted(&response));
    assert_eq!(response.allow_origin, Some(SITE.as_bytes().to_vec()));
    let headers = response.headers();
    assert_eq!(value_of(&headers, "access-control-allow-methods"), Some(&b"GET,POST"[..]));
    assert_eq!(value_of(&headers, "access-control-allow-headers"), Some(&b"content-type"[..]));
    assert_eq!(headers.len(), 3);
}

#[test]
fn preflight_for_get_succeeds() {
    assert!(granted(&preflight(Some(SITE), Some("GET"), Some("Content-Type"))));
}

#[test]
fn preflight_methods_are_told_apart_exactly() {
    for method in ["DELETE", "PATCH", "HEAD", "OPTIONS", "post", "Post", "POST ", " POST", "POS", ""] {
        assert!(refused(&preflight(Some(SITE), Some(method), None)), "{:?}", method);
    }
}

#[test]
fn preflight_without_a_requested_method_lists_what_is_allowed() {
    assert!(granted(&preflight(Some(SITE), None, None)));
    assert!(granted(&preflight(None, None, None)));
}

#[test]
fn preflight_from_foreign_origin_is_rejected() {
    let response = preflight(Some("https://evil.example"), Some("POST"), Some("content-type"));
    assert_eq!(response.status, 200);
    assert_eq!(response.allow_origin, None);
    assert!(refused(&response));
    assert!(response.headers().is_empty());
}

#[test]
fn preflight_with_content_type_header_succeeds() {
    for headers in [
        "content-type",
        "Content-Type",
        "CONTENT-TYPE",
        " content-type",
        "content-type\t",
        " \t content-type \t ",
        "content-type,content-type",
        "content-type, Content-Type",
        "content-type,",
        ",content-type",
        " , content-type , ,",
        "",
        " ",
        ",",
    ] {
        assert!(granted(&preflight(Some(SITE), Some("POST"), Some(headers))), "{:?}", headers);
    }
}

#[test]
fn preflight_with_another_header_is_rejected() {
    for headers in [
        "authorization",
        "content-type, authorization",
        "authorization, content-type",
        "content-type,x-custom,content-type",
        "content-typ",
        "content-type2",
        "content type",
        "content-type;",
        "content-type\n",
        "x",
        "*",
    ] {
        assert!(refused(&preflight(Some(SITE), Some("POST"), Some(headers))), "{:?}", headers);
    }
}

#[test]
fn lists_are_only_sent_to_preflight() {
    let mut request = from("GET", "/people", Some(SITE));
    request.request_method = Some(b"POST".to_vec());
    request.request_headers = Some(b"content-type".to_vec());
    let response = respond(&site_policy(), &request);
    assert_eq!(response.status, 200);
    assert_eq!(response.allow_origin, Some(SITE.as_bytes().to_vec()));
    assert!(refused(&response));
}

#[test]
fn grants_is_what_apply_goes_by() {
    let policy = site_policy();
    let mut request = from("OPTIONS", "/", Some(SITE));
    request.request_method = Some(b"POST".to_vec());
    assert!(policy.grants(&request));
    request.request_method = Some(b"PUT".to_vec());
    assert!(!policy.grants(&request));
    request.request_method = Some(b"GET".to_vec());
    request.request_headers = Some(b"x-secret".to_vec());
    assert!(!policy.grants(&request));
    request.request_headers = Some(b"Content-Type".to_vec());
    assert!(policy.grants(&request));
    request.origin = Some(b"https://evil.example".to_vec());
    assert!(!policy.grants(&request));
}

#[test]
fn apply_replaces_earlier_cross_origin_headers() {
    let policy = site_policy();
    let mut response = Response::text("kept");
    response.allow_origin = Some(b"https://stale.example".to_vec());
    response.allow_methods = Some(b"DELETE".to_vec());
    response.allow_headers = Some(b"x-stale".to_vec());
    policy.apply(&from("GET", "/", Some("https://evil.example")), &mut response);
    assert_eq!(response.allow_origin, None);
    assert_eq!(response.allow_methods, None);
    assert_eq!(response.allow_headers, None);
    assert_eq!(response.status, 200);
    assert_eq!(response.body, b"kept".to_vec());
    policy.apply(&from("OPTIONS", "/", Some(SITE)), &mut response);
    assert_eq!(response.allow_origin, Some(SITE.as_bytes().to_vec()));
    assert!(granted(&response));
    assert_eq!(response.body, b"kept".to_vec());
}

#[test]
fn frontend_policy_allows_get_post_and_content_type() {
    let policy = site_policy();
    assert_eq!(policy.origin(), SITE.as_bytes());
    assert_eq!(policy.methods(), &[Method::Get, Method::Post]);
    assert_eq!(policy.headers(), &[b"content-type".to_vec()]);
}

#[test]
fn frontend_policy_is_the_general_policy_with_those_lists() {
    let general =
        CorsPolicy::new(SITE, vec![Method::Get, Method::Post], &["Content-Type"]).unwrap();
    assert_eq!(general, site_policy());
}

#[test]
fn header_names_are_kept_in_small_letters() {
    let policy =
        CorsPolicy::new(SITE, vec![], &["Content-Type", "X-Requested-With", "accept", "ETAG"])
            .unwrap();
    assert_eq!(
        policy.headers(),
        &[
            b"content-type".to_vec(),
            b"x-requested-with".to_vec(),
            b"accept".to_vec(),
            b"etag".to_vec()
        ]
    );
}

#[test]
fn policy_refuses_an_origin_that_cannot_be_sent() {
    for origin in ["https://a.example\n", "bad\rorigin", "nul\0", "del\x7f", "\x1f"] {
        assert_eq!(
            CorsPolicy::new(origin, vec![Method::Get], &["content-type"]),
            Err(PolicyError::InvalidOrigin)
        );
        assert_eq!(CorsPolicy::for_frontend(origin), Err(PolicyError::InvalidOrigin));
    }
}

#[test]
fn policy_takes_any_origin_that_can_be_sent() {
    for origin in ["", "*", "null", "tab\tinside", "https://b\u{fc}cher.example", "a b"] {
        let policy = CorsPolicy::for_frontend(origin).unwrap();
        assert_eq!(policy.origin(), origin.as_bytes());
    }
}

#[test]
fn policy_refuses_what_is_no_header_name() {
    for name in ["", "content type", "content-type:", "a,b", "(x)", "caf\u{e9}", "x\n", "a/b", "{x}"] {
        assert_eq!(
            CorsPolicy::new(SITE, vec![Method::Get], &["accept", name]),
            Err(PolicyError::InvalidHeaderName),
            "{:?}",
            name
        );
    }
    let long = "a".repeat(65536);
    assert_eq!(
        CorsPolicy::new(SITE, vec![], &[long.as_str()]),
        Err(PolicyError::InvalidHeaderName)
    );
}

#[test]
fn policy_takes_every_header_name() {
    let longest = "A".repeat(65535);
    let names = ["x", "!#$%&'*+-.^_`|~", "\"quoted\"", "0123456789", longest.as_str()];
    let policy = CorsPolicy::new(SITE, vec![], &names).unwrap();
    assert_eq!(policy.headers()[1], b"!#$%&'*+-.^_`|~".to_vec());
    assert_eq!(policy.headers()[2], b"\"quoted\"".to_vec());
    assert_eq!(policy.headers()[4], "a".repeat(65535).into_bytes());
}

#[test]
fn invalid_origin_is_reported_before_invalid_header() {
    assert_eq!(CorsPolicy::new("\n", vec![], &["not a name"]), Err(PolicyError::InvalidOrigin));
}

#[test]
fn general_policy_lists_its_methods_and_headers_in_order() {
    let policy = CorsPolicy::new(
        "https://app.example",
        vec![Method::Put, Method::Delete, Method::Get, Method::Patch],
        &["X-Token", "Accept"],
    )
    .unwrap();
    let mut request = from("OPTIONS", "/anything", Some("https://app.example"));
    request.request_method = Some(b"DELETE".to_vec());
    request.request_headers = Some(b"accept, x-token".to_vec());
    let response = respond(&policy, &request);
    assert_eq!(response.allow_methods, Some(b"PUT,DELETE,GET,PATCH".to_vec()));
    assert_eq!(response.allow_headers, Some(b"x-token,accept".to_vec()));
    request.request_method = Some(b"POST".to_vec());
    assert!(refused(&respond(&policy, &request)));
}

#[test]
fn policy_without_methods_or_headers_lists_nothing() {
    let policy = CorsPolicy::new(SITE, vec![], &[]).unwrap();
    let response = respond(&policy, &from("OPTIONS", "/", Some(SITE)));
    assert_eq!(response.status, 200);
    assert_eq!(response.allow_origin, Some(SITE.as_bytes().to_vec()));
    assert_eq!(response.allow_methods, None);
    assert_eq!(response.allow_headers, None);
    let mut request = from("OPTIONS", "/", Some(SITE));
    request.request_method = Some(b"GET".to_vec());
    assert!(!policy.grants(&request));
}

#[test]
fn every_header_of_a_response_is_accepted_by_http() {
    let policy = CorsPolicy::new(
        "https://b\u{fc}cher.example",
        vec![Method::Get, Method::Options, Method::Trace],
        &["X-A", "x-b"],
    )
    .unwrap();
    let mut request = from("OPTIONS", "/", None);
    request.request_method = Some(b"TRACE".to_vec());
    let response = respond(&policy, &request);
    let headers = response.headers();
    assert_eq!(headers.len(), 3);
    for line in &headers {
        assert!(axum::http::HeaderName::from_bytes(line.name.as_bytes()).is_ok());
        assert!(axum::http::HeaderValue::from_bytes(&line.value).is_ok());
    }
    for line in respond(&policy, &Request::new("GET", "/people")).headers() {
        assert_eq!(
            axum::http::HeaderName::from_bytes(line.name.as_bytes()).unwrap().as_str(),
            line.name
        );
        assert!(axum::http::HeaderValue::from_bytes(&line.value).is_ok());
    }
}

#[test]
fn method_names_are_the_standard_ones() {
    let all = [
        (Method::Options, "OPTIONS"),
        (Method::Get, "GET"),
        (Method::Post, "POST"),
        (Method::Put, "PUT"),
        (Method::Delete, "DELETE"),
        (Method::Head, "HEAD"),
        (Method::Trace, "TRACE"),
        (Method::Connect, "CONNECT"),
        (Method::Patch, "PATCH"),
    ];
    for (method, name) in all {
        assert_eq!(method.as_str(), name);
        assert_eq!(axum::http::Method::from_bytes(name.as_bytes()).unwrap().as_str(), name);
        for (other, other_name) in all {
            assert_eq!(method.is_named(other_name.as_bytes()), method == other);
        }
        assert!(!method.is_named(name.to_lowercase().as_bytes()));
        assert!(!method.is_named(b""));
    }
}
