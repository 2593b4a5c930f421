//! A registered route: the method it answers and its handler.

use crate::options::{ResponseData, TachyonOptions};
use std::sync::Arc;
use vstd::prelude::*;

verus! {

/// A handler as the engine shares it.
pub type TachyonHandler<F> = Arc<F>;

/// A registered route. The handler is shared: the registry, the snapshot
/// and the caches all hold the same one.
pub struct TachyonRouter<F> {
    method: u8,
    handler: Arc<F>,
}

impl<F: Fn(TachyonOptions) -> ResponseData> TachyonRouter<F> {
    /// The id of the method that the route answers.
    pub closed spec fn spec_method(&self) -> u8 {
        self.method
    }

    /// The handler of the route.
    pub closed spec fn spec_handler(&self) -> Arc<F> {
        self.handler
    }

    /// The route for the method with the given id and the given handler.
    pub closed spec fn spec_new(method: u8, handler: Arc<F>) -> Self {
        TachyonRouter { method, handler }
    }

    /// A route for the method with the given id and the given handler.
    pub fn new(method: u8, handler: Arc<F>) -> (route: Self)
        ensures
            route == Self::spec_new(method, handler),
            route.spec_method() == method,
            route.spec_handler() == handler,
    {
        Self { method, handler }
    }

    /// The id of the method that the route answers.
    #[verifier::when_used_as_spec(spec_method)]
    pub fn method(&self) -> (method: u8)
        ensures
            method == self.spec_method(),
    {
        self.method
    }

    /// The handler of the route.
    pub fn handler(&self) -> (handler: &Arc<F>)
        ensures
            *handler == self.spec_handler(),
    {
        &self.handler
    }
}

/// A route is made of its method and its handler, and of nothing else.
pub proof fn lemma_route_parts<F: Fn(TachyonOptions) -> ResponseData>(method: u8, handler: Arc<F>)
    ensures
        TachyonRouter::spec_new(method, handler).spec_method() == method,
        TachyonRouter::spec_new(method, handler).spec_handler() == handler,
{
}

} // verus!
