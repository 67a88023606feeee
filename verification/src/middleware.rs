//! The middleware capability: an ordered request-mutation step. Each step
//! states, as a spec-level model, what it does to a request, and its
//! execution must realize exactly that model; a whole chain is then the
//! composition of its steps' models in registration order.

use vstd::prelude::*;
use crate::request::{ReqView, Request};

verus! {

/// One request-mutation step. `model` is the step's own statement of what
/// it does to a request, and `step` must realize it. A step receives a
/// reference to the step registered before it, or none for the first; the
/// step's effect may not depend on it.
pub trait MiddlewareStep: Sized {
    spec fn model(self, r: ReqView) -> ReqView;

    fn step(&self, prev: Option<&Middleware<Self>>, request: &mut Request)
        ensures
            final(request)@ == self.model(old(request)@),
    ;
}

/// A registered middleware step.
pub struct Middleware<M: MiddlewareStep> {
    pub func: M,
}

impl<M: MiddlewareStep> Middleware<M> {
    /// Wraps a step for registration.
    pub fn new(func: M) -> (r: Middleware<M>)
        ensures
            r.func == func,
    {
        Middleware { func }
    }
}

/// What a whole chain does to a request: the steps' models applied in
/// order, the earliest-registered step first, with each step seeing every
/// earlier step's mutations. No step is skipped and none runs twice.
pub open spec fn spec_chain<M: MiddlewareStep>(steps: Seq<Middleware<M>>, r: ReqView) -> ReqView
    decreases steps.len(),
{
    if steps.len() == 0 {
        r
    } else {
        spec_chain(steps.drop_first(), steps[0].func.model(r))
    }
}

/// Running a chain extended by one more step applies that step last, to the
/// result of the original chain: steps take effect strictly in registration
/// order.
pub proof fn lemma_chain_snoc<M: MiddlewareStep>(steps: Seq<Middleware<M>>, s: Middleware<M>, r: ReqView)
    ensures
        spec_chain(steps.push(s), r) == s.func.model(spec_chain(steps, r)),
    decreases steps.len(),
{
    if steps.len() == 0 {
        assert(steps.push(s)[0] == s);
        assert(steps.push(s).drop_first() =~= Seq::<Middleware<M>>::empty());
        assert(spec_chain(steps.push(s), r) == spec_chain(
            Seq::<Middleware<M>>::empty(),
            s.func.model(r),
        ));
        assert(spec_chain(Seq::<Middleware<M>>::empty(), s.func.model(r)) == s.func.model(r));
        assert(spec_chain(steps, r) == r);
    } else {
        assert(steps.push(s)[0] == steps[0]);
        assert(steps.push(s).drop_first() =~= steps.drop_first().push(s));
        lemma_chain_snoc(steps.drop_first(), s, steps[0].func.model(r));
        assert(spec_chain(steps, r) == spec_chain(steps.drop_first(), steps[0].func.model(r)));
        assert(spec_chain(steps.push(s), r) == spec_chain(
            steps.drop_first().push(s),
            steps[0].func.model(r),
        ));
    }
}

} // verus!
