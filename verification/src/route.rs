//! A route: the handlers registered at one path, one slot per supported
//! method, and the handler capability that users implement.

use vstd::prelude::*;
use crate::method::MethodKind;
use crate::request::{ReqView, Request};
use crate::response::{RespView, Response};

verus! {

/// A handler capability: invoked with the request and the response it may
/// mutate. Mutating the response is a handler's only channel for output;
/// there is no error return. `model` is the handler's own statement of the
/// response it builds from a request and the response handed to it, and
/// `handle` must realize exactly that model.
pub trait Handler: Sized {
    spec fn model(self, req: ReqView, resp: RespView) -> RespView;

    fn handle(&self, request: &Request, response: &mut Response)
        ensures
            final(response)@ == self.model(request@, old(response)@),
    ;
}

/// The handlers registered at one path, one optional slot per method.
pub struct Route<T> {
    pub get: Option<T>,
    pub post: Option<T>,
    pub put: Option<T>,
    pub delete: Option<T>,
}

impl<T> Route<T> {
    /// The route with no handler for any method.
    pub open spec fn spec_empty() -> Route<T> {
        Route { get: None, post: None, put: None, delete: None }
    }

    /// The handler this route has for a method.
    pub open spec fn spec_handler(self, m: MethodKind) -> Option<T> {
        match m {
            MethodKind::Get => self.get,
            MethodKind::Post => self.post,
            MethodKind::Put => self.put,
            MethodKind::Delete => self.delete,
        }
    }

    /// The same route with its slot for `m` holding `f`.
    pub open spec fn spec_with(self, m: MethodKind, f: T) -> Route<T> {
        match m {
            MethodKind::Get => Route { get: Some(f), ..self },
            MethodKind::Post => Route { post: Some(f), ..self },
            MethodKind::Put => Route { put: Some(f), ..self },
            MethodKind::Delete => Route { delete: Some(f), ..self },
        }
    }

    /// A fresh route with no handlers.
    pub fn new() -> (r: Route<T>)
        ensures
            r == Route::<T>::spec_empty(),
    {
        Route { get: None, post: None, put: None, delete: None }
    }

    /// The handler for a method, if one is set.
    pub fn handler_for(&self, m: MethodKind) -> (r: Option<&T>)
        ensures
            match r {
                Some(f) => self.spec_handler(m) == Some(*f),
                None => self.spec_handler(m) is None,
            },
    {
        match m {
            MethodKind::Get => self.get.as_ref(),
            MethodKind::Post => self.post.as_ref(),
            MethodKind::Put => self.put.as_ref(),
            MethodKind::Delete => self.delete.as_ref(),
        }
    }

    /// Whether a method has a handler.
    pub fn has_handler(&self, m: MethodKind) -> (r: bool)
        ensures
            r == (self.spec_handler(m) is Some),
    {
        match m {
            MethodKind::Get => self.get.is_some(),
            MethodKind::Post => self.post.is_some(),
            MethodKind::Put => self.put.is_some(),
            MethodKind::Delete => self.delete.is_some(),
        }
    }

    /// Stores `f` as the handler for `m`; the other methods' slots keep
    /// what they held.
    pub fn set_handler(&mut self, m: MethodKind, f: T)
        ensures
            *final(self) == old(self).spec_with(m, f),
    {
        match m {
            MethodKind::Get => {
                self.get = Some(f);
            },
            MethodKind::Post => {
                self.post = Some(f);
            },
            MethodKind::Put => {
                self.put = Some(f);
            },
            MethodKind::Delete => {
                self.delete = Some(f);
            },
        }
    }
}

} // verus!
