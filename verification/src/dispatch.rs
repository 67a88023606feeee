//! The per-connection pipeline: classify the request, run the middleware
//! chain, look up a handler, and let it build the response.

use vstd::prelude::*;
use crate::classify::{check_static_request, spec_classify};
use crate::middleware::{spec_chain, MiddlewareStep};
use crate::request::Request;
use crate::response::{spec_default_resp, Response};
use crate::route::Handler;
use crate::router::Router;

verus! {

/// Runs one request through the dispatch pipeline. Classification rewrites
/// a static request onto the reserved route; the middleware chain then
/// mutates the request, strictly in registration order; finally the handler
/// registered for the resulting path and method — if there is one — is
/// invoked once, with that request and a fresh default response, and the
/// response returned is exactly the handler's effect on it. When no route
/// matches the path, or the route has no handler for the method, no handler
/// is invoked and the response comes back in its default state — success
/// status, empty body — with no not-found status synthesized.
pub fn dispatch<T: Handler, M: MiddlewareStep>(router: &Router<T, M>, request: &mut Request) -> (response:
    Response)
    ensures
        final(request)@ == spec_chain(router.spec_middleware(), spec_classify(old(request)@)),
        match router.spec_handler(final(request)@.path, final(request)@.method) {
            Some(h) => response@ == h.model(final(request)@, spec_default_resp()),
            None => response@ == spec_default_resp(),
        },
{
    check_static_request(request);
    router.execute_middleware(request);
    let mut response = Response::new();
    match router.find_route(request) {
        Some(rt) => {
            match rt.handler_for(request.method.kind_of()) {
                Some(h) => {
                    proof {
                        assert(router.spec_handler(request@.path, request@.method) == Some(*h));
                    }
                    h.handle(request, &mut response);
                },
                None => {},
            }
        },
        None => {},
    }
    response
}

} // verus!
