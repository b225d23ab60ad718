use fullstack_app::cors::CorsPolicy;
use fullstack_app::message::{ContentType, Header, Request, Response};
use fullstack_app::method::Method;
use fullstack_app::person::{people, Person};
use fullstack_app::routes::{find, get_people, root, route, routes, run, world, Handler, Resolution};
use fullstack_app::server::respond;

const FRONTEND: &str = "https://your-frontend-site.com";

const PEOPLE_JSON: &str = "[{\"name\":\"Person A\",\"age\":36,\"favourite_food\":\"Pizza\"},\
{\"name\":\"Person B\",\"age\":5,\"favourite_food\":\"Broccoli\"},\
{\"name\":\"Person C\",\"age\":100,\"favourite_food\":null}]";

fn policy() -> CorsPolicy {
    CorsPolicy::for_frontend(FRONTEND).unwrap()
}

fn get(path: &str) -> Response {
    respond(&policy(), &Request::new("GET", path))
}

fn header<'a>(headers: &'a [Header], name: &str) -> Option<&'a [u8]> {
    headers.iter().find(|h| h.name == name).map(|h| h.value.as_slice())
}

#[test]
fn root_handler_returns_the_greeting() {
    assert_eq!(root(), "Hello, World!");
}

#[test]
fn world_handler_returns_its_sentence() {
    assert_eq!(world(), "hello, this is the world and the bird is the word");
}

#[test]
fn get_root_is_200_with_the_greeting() {
    let response = get("/");
    assert_eq!(response.status, 200);
    assert_eq!(response.content_type, Some(ContentType::Text));
    assert_eq!(response.body, b"Hello, World!".to_vec());
}

#[test]
fn get_root_is_plain_text_in_utf8() {
    let headers = get("/").headers();
    assert_eq!(header(&headers, "content-type"), Some(&b"text/plain; charset=utf-8"[..]));
}

#[test]
fn get_world_is_200_with_its_sentence() {
    let response = get("/world");
    assert_eq!(response.status, 200);
    assert_eq!(response.content_type, Some(ContentType::Text));
    assert_eq!(response.body, b"hello, this is the world and the bird is the word".to_vec());
}

#[test]
fn get_people_is_200_with_the_document() {
    let response = get("/people");
    assert_eq!(response.status, 200);
    assert_eq!(response.content_type, Some(ContentType::Json));
    assert_eq!(response.body, PEOPLE_JSON.as_bytes().to_vec());
}

#[test]
fn get_people_says_that_it_is_json() {
    let headers = get("/people").headers();
    assert_eq!(header(&headers, "content-type"), Some(&b"application/json"[..]));
}

#[test]
fn people_handler_gives_the_document() {
    let response = get_people();
    assert_eq!(response.status, 200);
    assert_eq!(response.content_type, Some(ContentType::Json));
    assert_eq!(response.allow_origin, None);
    assert_eq!(response.body, PEOPLE_JSON.as_bytes().to_vec());
}

#[test]
fn people_document_parses_to_three_objects_in_order() {
    let response = get("/people");
    let value: serde_json::Value = serde_json::from_slice(&response.body).unwrap();
    let list = value.as_array().unwrap();
    assert_eq!(list.len(), 3);
    let names: Vec<&str> = list.iter().map(|p| p.get("name").unwrap().as_str().unwrap()).collect();
    assert_eq!(names, vec!["Person A", "Person B", "Person C"]);
    let ages: Vec<u64> = list.iter().map(|p| p.get("age").unwrap().as_u64().unwrap()).collect();
    assert_eq!(ages, vec![36, 5, 100]);
    assert_eq!(list[0].get("favourite_food").unwrap().as_str(), Some("Pizza"));
    assert_eq!(list[1].get("favourite_food").unwrap().as_str(), Some("Broccoli"));
    assert!(list[2].get("favourite_food").unwrap().is_null());
    for person in list {
        assert_eq!(person.as_object().unwrap().len(), 3);
    }
}

#[test]
fn people_fixture_is_the_three_people() {
    let expected = vec![
        Person {
            name: String::from("Person A"),
            age: 36,
            favourite_food: Some(String::from("Pizza")),
        },
        Person {
            name: String::from("Person B"),
            age: 5,
            favourite_food: Some(String::from("Broccoli")),
        },
        Person { name: String::from("Person C"), age: 100, favourite_food: None },
    ];
    assert_eq!(people(), expected);
}

#[test]
fn repeated_calls_to_people_are_identical() {
    let first = get("/people");
    let second = get("/people");
    let third = get("/people");
    assert_eq!(first, second);
    assert_eq!(second, third);
    assert_eq!(people(), people());
}

#[test]
fn people_do_not_depend_on_the_caller() {
    let plain = get("/people");
    let mut request = Request::new("GET", "/people");
    request.origin = Some(b"https://elsewhere.example".to_vec());
    request.request_headers = Some(b"x-anything".to_vec());
    let other = CorsPolicy::new("https://other.example", vec![Method::Put], &[]).unwrap();
    let foreign = respond(&other, &request);
    assert_eq!(foreign.status, plain.status);
    assert_eq!(foreign.content_type, plain.content_type);
    assert_eq!(foreign.body, plain.body);
}

#[test]
fn get_nonexistent_is_404() {
    let response = get("/nonexistent");
    assert_eq!(response.status, 404);
    assert_eq!(response.content_type, None);
    assert!(response.body.is_empty());
}

#[test]
fn paths_are_matched_exactly() {
    assert_eq!(get("/people/").status, 404);
    assert_eq!(get("/People").status, 404);
    assert_eq!(get("/peopl").status, 404);
    assert_eq!(get("").status, 404);
    assert_eq!(get("//").status, 404);
    assert_eq!(get("/world/x").status, 404);
}

#[test]
fn other_methods_on_a_served_path_are_405() {
    for method in ["POST", "PUT", "DELETE", "PATCH", "HEAD", "TRACE", "CONNECT", "get", "BREW"] {
        for path in ["/", "/people", "/world"] {
            let response = respond(&policy(), &Request::new(method, path));
            assert_eq!(response.status, 405, "{} {}", method, path);
            assert_eq!(response.content_type, None);
            assert!(response.body.is_empty());
        }
    }
}

#[test]
fn other_methods_on_an_unknown_path_are_404() {
    for method in ["POST", "PUT", "DELETE", "BREW"] {
        let response = respond(&policy(), &Request::new(method, "/nonexistent"));
        assert_eq!(response.status, 404);
    }
}

#[test]
fn route_function_answers_without_a_policy() {
    assert_eq!(route(b"GET", b"/").body, b"Hello, World!".to_vec());
    assert_eq!(route(b"GET", b"/people").body, PEOPLE_JSON.as_bytes().to_vec());
    assert_eq!(route(b"GET", b"/nowhere").status, 404);
    assert_eq!(route(b"POST", b"/world").status, 405);
    assert_eq!(route(b"OPTIONS", b"/world").status, 405);
}

#[test]
fn service_table_lists_three_get_routes_in_order() {
    let table = routes();
    let listed: Vec<(Method, &str, Handler)> =
        table.iter().map(|r| (r.method, r.path, r.handler)).collect();
    assert_eq!(
        listed,
        vec![
            (Method::Get, "/", Handler::Root),
            (Method::Get, "/people", Handler::People),
            (Method::Get, "/world", Handler::World),
        ]
    );
}

#[test]
fn find_takes_the_first_route_that_fits() {
    let table = routes();
    assert_eq!(find(&table, b"GET", b"/"), Resolution::Handled(Handler::Root));
    assert_eq!(find(&table, b"GET", b"/people"), Resolution::Handled(Handler::People));
    assert_eq!(find(&table, b"GET", b"/world"), Resolution::Handled(Handler::World));
    assert_eq!(find(&table, b"POST", b"/world"), Resolution::MethodNotAllowed);
    assert_eq!(find(&table, b"GET", b"/elsewhere"), Resolution::NotFound);
    assert_eq!(find(&[], b"GET", b"/"), Resolution::NotFound);
}

#[test]
fn find_goes_by_registration_order() {
    let mut table = routes();
    table.push(fullstack_app::routes::Route {
        method: Method::Get,
        path: "/",
        handler: Handler::World,
    });
    table.push(fullstack_app::routes::Route {
        method: Method::Post,
        path: "/people",
        handler: Handler::Root,
    });
    assert_eq!(find(&table, b"GET", b"/"), Resolution::Handled(Handler::Root));
    assert_eq!(find(&table, b"POST", b"/people"), Resolution::Handled(Handler::Root));
    assert_eq!(find(&table, b"PUT", b"/people"), Resolution::MethodNotAllowed);
    table.reverse();
    assert_eq!(find(&table, b"GET", b"/"), Resolution::Handled(Handler::World));
}

#[test]
fn each_handler_gives_its_response() {
    assert_eq!(run(Handler::Root), Response::text("Hello, World!"));
    assert_eq!(run(Handler::World), Response::text(world()));
    assert_eq!(run(Handler::People), get_people());
}

#[test]
fn preflight_is_answered_before_routing() {
    for path in ["/", "/people", "/nonexistent"] {
        let response = respond(&policy(), &Request::new("OPTIONS", path));
        assert_eq!(response.status, 200);
        assert_eq!(response.content_type, None);
        assert!(response.body.is_empty());
    }
}

#[test]
fn response_constructors_fill_only_what_they_name() {
    let text = Response::text("abc");
    assert_eq!(text.status, 200);
    assert_eq!(text.body, b"abc".to_vec());
    assert_eq!(text.headers().len(), 1);
    let json = Response::json(b"[]".to_vec());
    assert_eq!(json.content_type, Some(ContentType::Json));
    assert_eq!(json.body, b"[]".to_vec());
    let empty = Response::empty(404);
    assert_eq!(empty.status, 404);
    assert!(empty.headers().is_empty());
    assert!(empty.body.is_empty());
}

#[test]
fn request_new_holds_method_and_path_only() {
    let request = Request::new("GET", "/people");
    assert_eq!(request.method, b"GET".to_vec());
    assert_eq!(request.path, b"/people".to_vec());
    assert_eq!(request.origin, None);
    assert_eq!(request.request_method, None);
    assert_eq!(request.request_headers, None);
}
