//! The routes of the service and what each of them answers.
//!
//! The routes stand in a table that is searched from its first entry to its
//! last. A request is answered by the first route with its path and its
//! method. Where no route does, it gets the status 405 if some route has its
//! path, and the status 404 if none has.

use crate::json::{encode_people, people_text};
use crate::message::{Response, ResponseView};
use crate::method::Method;
use crate::octets::{bytes_eq, bytes_of};
use crate::person::{listed_people, people};
use vstd::prelude::*;
use vstd::string::*;

verus! {

/// What answers a request.
#[derive(Clone, Copy, Debug, PartialEq, Eq, Structural)]
pub enum Handler {
    /// The greeting.
    Root,
    /// The list of people.
    People,
    /// The sentence that shows that routing works.
    World,
}

/// One route: the handler of the requests with this method and this path.
#[derive(Clone, Copy, Debug, PartialEq, Eq)]
pub struct Route {
    pub method: Method,
    pub path: &'static str,
    pub handler: Handler,
}

/// A route as mathematical values.
pub struct RouteView {
    pub method: Method,
    pub path: Seq<u8>,
    pub handler: Handler,
}

impl View for Route {
    type V = RouteView;

    open spec fn view(&self) -> RouteView {
        RouteView { method: self.method, path: bytes_of(self.path), handler: self.handler }
    }
}

/// The views of a table of routes, in the table's order.
pub open spec fn route_views(table: Seq<Route>) -> Seq<RouteView> {
    Seq::new(table.len(), |i: int| table[i]@)
}

/// How a table of routes settles a request.
#[derive(Clone, Copy, Debug, PartialEq, Eq, Structural)]
pub enum Resolution {
    /// A route has the path and the method: its handler answers.
    Handled(Handler),
    /// Some route has the path, none has the method too.
    MethodNotAllowed,
    /// No route has the path.
    NotFound,
}

impl RouteView {
    /// Whether the route is one for this method and this path. Both are told
    /// apart byte by byte.
    pub open spec fn fits(self, method: Seq<u8>, path: Seq<u8>) -> bool {
        self.path == path && self.method.token() == method
    }
}

/// How `table`, searched from its first route on, settles a request with
/// this method and this path.
pub open spec fn resolve(table: Seq<RouteView>, method: Seq<u8>, path: Seq<u8>) -> Resolution
    decreases table.len(),
{
    if table.len() == 0 {
        Resolution::NotFound
    } else if table[0].fits(method, path) {
        Resolution::Handled(table[0].handler)
    } else {
        match resolve(table.skip(1), method, path) {
            Resolution::NotFound => if table[0].path == path {
                Resolution::MethodNotAllowed
            } else {
                Resolution::NotFound
            },
            settled => settled,
        }
    }
}

/// The routes of the service, in the order in which they are searched.
pub open spec fn service_routes() -> Seq<RouteView> {
    seq![
        RouteView { method: Method::Get, path: bytes_of("/"), handler: Handler::Root },
        RouteView { method: Method::Get, path: bytes_of("/people"), handler: Handler::People },
        RouteView { method: Method::Get, path: bytes_of("/world"), handler: Handler::World },
    ]
}

/// The response that `handler` gives.
pub open spec fn handled(handler: Handler) -> ResponseView {
    match handler {
        Handler::Root => ResponseView::text(bytes_of("Hello, World!")),
        Handler::People => ResponseView::json(people_text(listed_people())),
        Handler::World => ResponseView::text(
            bytes_of("hello, this is the world and the bird is the word"),
        ),
    }
}

/// The response that a resolution stands for.
pub open spec fn settled(resolution: Resolution) -> ResponseView {
    match resolution {
        Resolution::Handled(handler) => handled(handler),
        Resolution::MethodNotAllowed => ResponseView::empty(405),
        Resolution::NotFound => ResponseView::empty(404),
    }
}

/// The response of the service's routes to a request with this method and
/// this path.
pub open spec fn routed(method: Seq<u8>, path: Seq<u8>) -> ResponseView {
    settled(resolve(service_routes(), method, path))
}

/// The greeting.
pub fn root() -> (greeting: &'static str)
    ensures
        greeting@ == "Hello, World!"@,
{
    "Hello, World!"
}

/// The sentence that shows that routing works.
pub fn world() -> (sentence: &'static str)
    ensures
        sentence@ == "hello, this is the world and the bird is the word"@,
{
    "hello, this is the world and the bird is the word"
}

/// The list of people as a JSON document, with the status 200.
pub fn get_people() -> (response: Response)
    ensures
        response@ == ResponseView::json(people_text(listed_people())),
{
    let list = people();
    Response::json(encode_people(&list))
}

/// The routes of the service, in the order in which they are searched.
pub fn routes() -> (table: Vec<Route>)
    ensures
        route_views(table@) == service_routes(),
{
    let mut table: Vec<Route> = Vec::new();
    table.push(Route { method: Method::Get, path: "/", handler: Handler::Root });
    table.push(Route { method: Method::Get, path: "/people", handler: Handler::People });
    table.push(Route { method: Method::Get, path: "/world", handler: Handler::World });
    assert(route_views(table@) =~= service_routes());
    table
}

/// How `table` settles a request with this method and this path.
pub fn find(table: &[Route], method: &[u8], path: &[u8]) -> (resolution: Resolution)
    ensures
        resolution == resolve(route_views(table@), method@, path@),
{
    let ghost all = route_views(table@);
    let mut path_known = false;
    let mut i: usize = 0;
    assert(all.skip(0) =~= all);
    while i < table.len()
        invariant
            i <= table.len(),
            all == route_views(table@),
            resolve(all, method@, path@) == match resolve(all.skip(i as int), method@, path@) {
                Resolution::NotFound => if path_known {
                    Resolution::MethodNotAllowed
                } else {
                    Resolution::NotFound
                },
                settled => settled,
            },
        decreases table.len() - i,
    {
        let route = &table[i];
        proof {
            assert(all.skip(i as int)[0] == route@);
            assert(all.skip(i as int).skip(1) =~= all.skip(i as int + 1));
        }
        if bytes_eq(path, route.path.as_bytes()) {
            if route.method.is_named(method) {
                return Resolution::Handled(route.handler);
            }
            path_known = true;
        }
        i += 1;
    }
    if path_known {
        Resolution::MethodNotAllowed
    } else {
        Resolution::NotFound
    }
}

/// The response that `handler` gives.
pub fn run(handler: Handler) -> (response: Response)
    ensures
        response@ == handled(handler),
{
    match handler {
        Handler::Root => Response::text(root()),
        Handler::People => get_people(),
        Handler::World => Response::text(world()),
    }
}

/// The response of the service's routes to a request with this method and
/// this path.
pub fn route(method: &[u8], path: &[u8]) -> (response: Response)
    ensures
        response@ == routed(method@, path@),
{
    let table = routes();
    match find(table.as_slice(), method, path) {
        Resolution::Handled(handler) => run(handler),
        Resolution::MethodNotAllowed => Response::empty(405),
        Resolution::NotFound => Response::empty(404),
    }
}

/// Whether `path` is the path of one of the service's routes.
pub open spec fn is_served(path: Seq<u8>) -> bool {
    path == bytes_of("/") || path == bytes_of("/people") || path == bytes_of("/world")
}

/// The three paths of the service, byte by byte.
pub proof fn lemma_path_bytes()
    ensures
        bytes_of("/") == seq![47u8],
        bytes_of("/people") == seq![47u8, 112u8, 101u8, 111u8, 112u8, 108u8, 101u8],
        bytes_of("/world") == seq![47u8, 119u8, 111u8, 114u8, 108u8, 100u8],
{
    broadcast use is_ascii_spec_bytes;

    reveal_strlit("/");
    reveal_strlit("/people");
    reveal_strlit("/world");
    assert(is_ascii("/") && is_ascii("/people") && is_ascii("/world"));
    assert(bytes_of("/") =~= seq![47u8]);
    assert(bytes_of("/people") =~= seq![47u8, 112u8, 101u8, 111u8, 112u8, 108u8, 101u8]);
    assert(bytes_of("/world") =~= seq![47u8, 119u8, 111u8, 114u8, 108u8, 100u8]);
}

/// The three paths of the service differ from one another.
pub proof fn lemma_paths_differ()
    ensures
        bytes_of("/") != bytes_of("/people"),
        bytes_of("/") != bytes_of("/world"),
        bytes_of("/people") != bytes_of("/world"),
{
    lemma_path_bytes();
    assert(bytes_of("/").len() == 1);
    assert(bytes_of("/people").len() == 7);
    assert(bytes_of("/world").len() == 6);
}

/// How the service's routes settle a request, case by case.
pub open spec fn service_resolution(method: Seq<u8>, path: Seq<u8>) -> Resolution {
    if !is_served(path) {
        Resolution::NotFound
    } else if method != Method::Get.token() {
        Resolution::MethodNotAllowed
    } else if path == bytes_of("/") {
        Resolution::Handled(Handler::Root)
    } else if path == bytes_of("/people") {
        Resolution::Handled(Handler::People)
    } else {
        Resolution::Handled(Handler::World)
    }
}

/// The service's routes settle every request as `service_resolution` says.
pub proof fn lemma_service_resolution(method: Seq<u8>, path: Seq<u8>)
    ensures
        resolve(service_routes(), method, path) == service_resolution(method, path),
{
    lemma_paths_differ();
    let table = service_routes();
    let after_root = table.skip(1);
    let after_people = after_root.skip(1);
    let after_world = after_people.skip(1);
    assert(after_root[0] == table[1]);
    assert(after_people[0] == table[2]);
    assert(after_world.len() == 0);
    assert(resolve(after_world, method, path) == Resolution::NotFound);
    assert(resolve(after_people, method, path) == if path == bytes_of("/world") {
        if method == Method::Get.token() {
            Resolution::Handled(Handler::World)
        } else {
            Resolution::MethodNotAllowed
        }
    } else {
        Resolution::NotFound
    });
    assert(resolve(after_root, method, path) == if path == bytes_of("/people") {
        if method == Method::Get.token() {
            Resolution::Handled(Handler::People)
        } else {
            Resolution::MethodNotAllowed
        }
    } else {
        resolve(after_people, method, path)
    });
}

/// A table has nothing for a path exactly when none of its routes has that
/// path.
pub proof fn law_not_found(table: Seq<RouteView>, method: Seq<u8>, path: Seq<u8>)
    ensures
        resolve(table, method, path) == Resolution::NotFound <==> forall|i: int|
            0 <= i < table.len() ==> (#[trigger] table[i]).path != path,
    decreases table.len(),
{
    if table.len() > 0 {
        let rest = table.skip(1);
        law_not_found(rest, method, path);
        if resolve(table, method, path) == Resolution::NotFound {
            assert forall|i: int| 0 <= i < table.len() implies (#[trigger] table[i]).path
                != path by {
                if i > 0 {
                    assert(table[i] == rest[i - 1]);
                }
            }
        } else {
            if table[0].path != path {
                let i = choose|i: int| 0 <= i < rest.len() && (#[trigger] rest[i]).path == path;
                assert(table[i + 1] == rest[i]);
            }
        }
    }
}

/// A table hands a request to a handler exactly when that handler is the one
/// of the first route with the request's method and path.
pub proof fn law_first_route_wins(
    table: Seq<RouteView>,
    method: Seq<u8>,
    path: Seq<u8>,
    handler: Handler,
)
    ensures
        resolve(table, method, path) == Resolution::Handled(handler) <==> exists|i: int|
            {
                &&& 0 <= i < table.len()
                &&& (#[trigger] table[i]).fits(method, path)
                &&& table[i].handler == handler
                &&& forall|j: int| 0 <= j < i ==> !(#[trigger] table[j]).fits(method, path)
            },
    decreases table.len(),
{
    if table.len() > 0 {
        let rest = table.skip(1);
        law_first_route_wins(rest, method, path, handler);
        if table[0].fits(method, path) {
            if table[0].handler == handler {
                assert(table[0].fits(method, path) && forall|j: int|
                    0 <= j < 0 ==> !(#[trigger] table[j]).fits(method, path));
            } else {
                assert forall|i: int|
                    {
                        &&& 0 <= i < table.len()
                        &&& (#[trigger] table[i]).fits(method, path)
                        &&& table[i].handler == handler
                    } implies !(forall|j: int|
                    0 <= j < i ==> !(#[trigger] table[j]).fits(method, path)) by {
                    assert(i > 0);
                    assert(table[0].fits(method, path));
                }
            }
        } else {
            if resolve(table, method, path) == Resolution::Handled(handler) {
                let i = choose|i: int|
                    {
                        &&& 0 <= i < rest.len()
                        &&& (#[trigger] rest[i]).fits(method, path)
                        &&& rest[i].handler == handler
                        &&& forall|j: int| 0 <= j < i ==> !(#[trigger] rest[j]).fits(method, path)
                    };
                assert(table[i + 1] == rest[i]);
                assert forall|j: int| 0 <= j < i + 1 implies !(#[trigger] table[j]).fits(
                    method,
                    path,
                ) by {
                    if j > 0 {
                        assert(table[j] == rest[j - 1]);
                    }
                }
            } else {
                assert forall|i: int|
                    {
                        &&& 0 <= i < table.len()
                        &&& (#[trigger] table[i]).fits(method, path)
                        &&& table[i].handler == handler
                    } implies !(forall|j: int|
                    0 <= j < i ==> !(#[trigger] table[j]).fits(method, path)) by {
                    assert(i > 0);
                    assert(rest[i - 1] == table[i]);
                    if forall|j: int| 0 <= j < i ==> !(#[trigger] table[j]).fits(method, path) {
                        assert forall|j: int| 0 <= j < i - 1 implies !(#[trigger] rest[j]).fits(
                            method,
                            path,
                        ) by {
                            assert(rest[j] == table[j + 1]);
                        }
                    }
                }
            }
        }
    }
}

/// A table refuses a request for its method exactly when some route has the
/// request's path and none has its method as well.
pub proof fn law_method_not_allowed(table: Seq<RouteView>, method: Seq<u8>, path: Seq<u8>)
    ensures
        resolve(table, method, path) == Resolution::MethodNotAllowed <==> {
            &&& exists|i: int| 0 <= i < table.len() && (#[trigger] table[i]).path == path
            &&& forall|i: int| 0 <= i < table.len() ==> !(#[trigger] table[i]).fits(method, path)
        },
    decreases table.len(),
{
    if table.len() > 0 {
        let rest = table.skip(1);
        law_method_not_allowed(rest, method, path);
        law_not_found(rest, method, path);
        if table[0].fits(method, path) {
        } else if resolve(table, method, path) == Resolution::MethodNotAllowed {
            if resolve(rest, method, path) == Resolution::NotFound {
                assert(table[0].path == path);
            } else {
                let i = choose|i: int| 0 <= i < rest.len() && (#[trigger] rest[i]).path == path;
                assert(table[i + 1] == rest[i]);
            }
            assert forall|i: int| 0 <= i < table.len() implies !(#[trigger] table[i]).fits(
                method,
                path,
            ) by {
                if i > 0 {
                    assert(table[i] == rest[i - 1]);
                }
            }
        } else {
            if forall|i: int| 0 <= i < table.len() ==> !(#[trigger] table[i]).fits(method, path) {
                assert forall|i: int| 0 <= i < rest.len() implies !(#[trigger] rest[i]).fits(
                    method,
                    path,
                ) by {
                    assert(rest[i] == table[i + 1]);
                }
                assert forall|i: int| 0 <= i < table.len() implies (#[trigger] table[i]).path
                    != path by {
                    if i > 0 {
                        assert(table[i] == rest[i - 1]);
                        if rest[i - 1].path == path {
                            assert(resolve(rest, method, path) != Resolution::NotFound);
                        }
                    } else {
                        if table[0].path == path {
                            assert(resolve(rest, method, path) != Resolution::NotFound);
                        }
                    }
                }
            }
        }
    }
}

} // verus!
