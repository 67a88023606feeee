//! The router: a base path prefixed to every registration, an ordered
//! middleware chain, and a trie of routes looked up by exact path.
//! Registration fails fast: an unsupported method, the reserved static path,
//! and an already-registered pair are each rejected without changing the
//! table.
//!
//! The router has no internal locking: callers that share one across worker
//! threads put every registration and lookup under one external lock, so no
//! thread ever observes a partially inserted route.

use vstd::prelude::*;
use vstd::string::*;
use crate::method::{spec_kind_of, Method, MethodKind};
use crate::middleware::{spec_chain, Middleware, MiddlewareStep};
use crate::request::Request;
use crate::route::Route;
use crate::strutil::str_eq;
use crate::trie::Trie;

verus! {

/// Why a registration was rejected.
#[derive(Debug, Clone, Copy, PartialEq, Eq, Structural)]
pub enum RouteError {
    /// The method token names no supported method.
    UnsupportedMethod,
    /// The full path is the reserved static route.
    ReservedPath,
    /// The pair of path and method already has a handler.
    DuplicateRoute,
}

/// A routing table: base path, middleware chain, and per-path routes.
pub struct Router<T, M: MiddlewareStep> {
    pub base_path: String,
    middleware: Vec<Middleware<M>>,
    routes: Trie<Route<T>>,
}

impl<T, M: MiddlewareStep> Router<T, M> {
    /// The routing table as a map from full path to the route standing
    /// there.
    pub closed spec fn spec_routes(self) -> Map<Seq<char>, Route<T>> {
        self.routes@
    }

    /// The base path prefixed to every registered path.
    pub closed spec fn spec_base_path(self) -> Seq<char> {
        self.base_path@
    }

    /// The registered middleware steps, in registration order.
    pub closed spec fn spec_middleware(self) -> Seq<Middleware<M>> {
        self.middleware@
    }

    /// The route registered at a full path.
    pub open spec fn spec_route(self, path: Seq<char>) -> Option<Route<T>> {
        if self.spec_routes().contains_key(path) {
            Some(self.spec_routes()[path])
        } else {
            None
        }
    }

    /// The handler registered for a full path and method.
    pub open spec fn spec_handler(self, path: Seq<char>, m: MethodKind) -> Option<T> {
        match self.spec_route(path) {
            Some(route) => route.spec_handler(m),
            None => None,
        }
    }

    /// A fresh router: the given base path, no routes, no middleware.
    pub fn new(base_path: &str) -> (r: Router<T, M>)
        ensures
            r.spec_base_path() == base_path@,
            r.spec_middleware() == Seq::<Middleware<M>>::empty(),
            r.spec_routes() == Map::<Seq<char>, Route<T>>::empty(),
    {
        Router { base_path: base_path.to_owned(), middleware: Vec::new(), routes: Trie::new() }
    }

    /// Registers `func` at the already-prefixed path `full` for method `k`:
    /// succeeds exactly when the pair has no handler yet, extending or
    /// creating the path's route; a duplicate pair is rejected with the
    /// table unchanged.
    fn create_route(&mut self, full: &str, k: MethodKind, func: T) -> (r: Result<(), RouteError>)
        ensures
            final(self).spec_base_path() == old(self).spec_base_path(),
            final(self).spec_middleware() == old(self).spec_middleware(),
            match r {
                Ok(()) => {
                    &&& old(self).spec_handler(full@, k) is None
                    &&& final(self).spec_routes() == old(self).spec_routes().insert(
                        full@,
                        (match old(self).spec_route(full@) {
                            Some(rt) => rt,
                            None => Route::<T>::spec_empty(),
                        }).spec_with(k, func),
                    )
                },
                Err(e) => {
                    &&& e == RouteError::DuplicateRoute
                    &&& old(self).spec_handler(full@, k) is Some
                    &&& final(self).spec_routes() == old(self).spec_routes()
                },
            },
    {
        match self.routes.take(full) {
            Some(mut rt) => {
                if rt.has_handler(k) {
                    self.routes.insert(full, rt);
                    proof {
                        assert(self.spec_routes() =~= old(self).spec_routes());
                    }
                    Err(RouteError::DuplicateRoute)
                } else {
                    rt.set_handler(k, func);
                    self.routes.insert(full, rt);
                    Ok(())
                }
            },
            None => {
                let mut rt = Route::new();
                rt.set_handler(k, func);
                self.routes.insert(full, rt);
                Ok(())
            },
        }
    }

    /// Registers a handler. The full path is the base path followed by
    /// `path`. Fails, leaving the table unchanged, exactly when the method
    /// token is unsupported, when the full path is the reserved "/static"
    /// route, or when the pair of full path and method already has a
    /// handler; otherwise stores the handler for that pair.
    pub fn route(&mut self, path: &str, method: &str, func: T) -> (r: Result<(), RouteError>)
        ensures
            final(self).spec_base_path() == old(self).spec_base_path(),
            final(self).spec_middleware() == old(self).spec_middleware(),
            ({
                let full = old(self).spec_base_path() + path@;
                match r {
                    Ok(()) => {
                        &&& spec_kind_of(method@) is Some
                        &&& full != "/static"@
                        &&& old(self).spec_handler(full, spec_kind_of(method@)->Some_0) is None
                        &&& final(self).spec_routes() == old(self).spec_routes().insert(
                            full,
                            (match old(self).spec_route(full) {
                                Some(rt) => rt,
                                None => Route::<T>::spec_empty(),
                            }).spec_with(spec_kind_of(method@)->Some_0, func),
                        )
                    },
                    Err(RouteError::UnsupportedMethod) => {
                        &&& spec_kind_of(method@) is None
                        &&& final(self).spec_routes() == old(self).spec_routes()
                    },
                    Err(RouteError::ReservedPath) => {
                        &&& spec_kind_of(method@) is Some
                        &&& full == "/static"@
                        &&& final(self).spec_routes() == old(self).spec_routes()
                    },
                    Err(RouteError::DuplicateRoute) => {
                        &&& spec_kind_of(method@) is Some
                        &&& full != "/static"@
                        &&& old(self).spec_handler(full, spec_kind_of(method@)->Some_0) is Some
                        &&& final(self).spec_routes() == old(self).spec_routes()
                    },
                }
            }),
    {
        match Method::from_str(method) {
            None => Err(RouteError::UnsupportedMethod),
            Some(m) => {
                let k = m.kind_of();
                let mut full = self.base_path.clone();
                full.append(path);
                if str_eq(full.as_str(), "/static") {
                    Err(RouteError::ReservedPath)
                } else {
                    self.create_route(full.as_str(), k, func)
                }
            },
        }
    }

    /// Registers the handler of the reserved static route itself: the one
    /// registration allowed at the literal "/static" path — the path that
    /// classification rewrites static requests to — for `GET` only. Fails
    /// exactly when that route is already populated.
    pub fn register_static(&mut self, func: T) -> (r: Result<(), RouteError>)
        ensures
            final(self).spec_base_path() == old(self).spec_base_path(),
            final(self).spec_middleware() == old(self).spec_middleware(),
            ({
                let full = "/static"@;
                match r {
                    Ok(()) => {
                        &&& old(self).spec_handler(full, MethodKind::Get) is None
                        &&& final(self).spec_routes() == old(self).spec_routes().insert(
                            full,
                            (match old(self).spec_route(full) {
                                Some(rt) => rt,
                                None => Route::<T>::spec_empty(),
                            }).spec_with(MethodKind::Get, func),
                        )
                    },
                    Err(e) => {
                        &&& e == RouteError::DuplicateRoute
                        &&& old(self).spec_handler(full, MethodKind::Get) is Some
                        &&& final(self).spec_routes() == old(self).spec_routes()
                    },
                }
            }),
    {
        self.create_route("/static", MethodKind::Get, func)
    }

    /// Appends a middleware step to the chain; every step registered before
    /// it keeps its place.
    pub fn middleware(&mut self, func: M)
        ensures
            final(self).spec_base_path() == old(self).spec_base_path(),
            final(self).spec_routes() == old(self).spec_routes(),
            final(self).spec_middleware() == old(self).spec_middleware().push(
                (Middleware { func }),
            ),
    {
        self.middleware.push(Middleware::new(func));
    }

    /// Looks the request's current path up in the table: the route stored
    /// under exactly that path, or nothing. Picking a handler by method is
    /// left to the caller, which can so distinguish an unknown path from an
    /// unsupported method.
    pub fn find_route(&self, request: &Request) -> (r: Option<&Route<T>>)
        ensures
            match r {
                Some(rt) => self.spec_route(request.path@) == Some(*rt),
                None => self.spec_route(request.path@) is None,
            },
    {
        self.routes.search(request.path.as_str())
    }

    /// Runs the whole middleware chain against the request, first-registered
    /// step first; the chain always runs to completion.
    pub fn execute_middleware(&self, request: &mut Request)
        ensures
            final(request)@ == spec_chain(self.spec_middleware(), old(request)@),
    {
        let ghost steps = self.spec_middleware();
        let mut prev: Option<&Middleware<M>> = None;
        let n = self.middleware.len();
        let mut i: usize = 0;
        proof {
            assert(steps.skip(0) =~= steps);
        }
        while i < n
            invariant
                i <= n,
                n == steps.len(),
                steps == self.spec_middleware(),
                spec_chain(steps.skip(i as int), request@) == spec_chain(steps, old(request)@),
            decreases n - i,
        {
            proof {
                assert(steps.skip(i as int)[0] == steps[i as int]);
                assert(steps.skip(i as int).drop_first() =~= steps.skip(i as int + 1));
            }
            let mid = &self.middleware[i];
            mid.func.step(prev, request);
            prev = Some(mid);
            i = i + 1;
        }
        proof {
            assert(steps.skip(n as int) =~= Seq::<Middleware<M>>::empty());
        }
    }
}

/// A successful registration is then found: looking the registered pair up
/// yields exactly the handler just stored, and every other pair of full
/// path and method answers as it did before. Together with `route`'s
/// guarantee that a duplicate pair is rejected with the table unchanged,
/// the last successful registration for a pair is what lookup returns.
pub proof fn lemma_registration_lookup<T, M: MiddlewareStep>(
    pre: Router<T, M>,
    post: Router<T, M>,
    full: Seq<char>,
    k: MethodKind,
    func: T,
)
    requires
        post.spec_routes() == pre.spec_routes().insert(
            full,
            (match pre.spec_route(full) {
                Some(rt) => rt,
                None => Route::<T>::spec_empty(),
            }).spec_with(k, func),
        ),
    ensures
        post.spec_handler(full, k) == Some(func),
        forall|p: Seq<char>, m: MethodKind|
            p != full || m != k ==> post.spec_handler(p, m) == pre.spec_handler(p, m),
{
    assert forall|p: Seq<char>, m: MethodKind|
        p != full || m != k implies post.spec_handler(p, m) == pre.spec_handler(p, m) by {
        if p == full {
            match pre.spec_route(full) {
                Some(rt) => {
                    assert(post.spec_route(full) == Some(rt.spec_with(k, func)));
                },
                None => {
                    assert(post.spec_route(full) == Some(Route::<T>::spec_empty().spec_with(
                        k,
                        func,
                    )));
                },
            }
        }
    }
}

} // verus!
