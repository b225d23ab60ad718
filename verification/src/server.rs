//! The service as one function from a request to its response.

use crate::cors::{is_preflight, CorsPolicy, CorsPolicyView};
use crate::message::{Request, RequestView, Response, ResponseView};
use crate::method::Method;
use crate::routes::{route, routed};
use vstd::prelude::*;

verus! {

/// The response that the service, under `policy`, owes to `request`.
///
/// A preflight request is answered at once, with the status 200 and no body,
/// whatever its path. Any other request goes to the routes. Either way the
/// policy then puts its headers on the response.
pub open spec fn answer(policy: CorsPolicyView, request: RequestView) -> ResponseView {
    policy.applied(
        request,
        if is_preflight(request) {
            ResponseView::empty(200)
        } else {
            routed(request.method, request.path)
        },
    )
}

/// Answers `request` under `policy`. The response depends on nothing but the
/// two, and every header value in it can be sent.
pub fn respond(policy: &CorsPolicy, request: &Request) -> (response: Response)
    ensures
        response@ == answer(policy@, request@),
        response@.sendable(),
{
    let mut response = if Method::Options.is_named(request.method.as_slice()) {
        Response::empty(200)
    } else {
        route(request.method.as_slice(), request.path.as_slice())
    };
    policy.apply(request, &mut response);
    response
}

} // verus!
