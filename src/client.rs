use core::marker::PhantomData;
use std::sync::Arc;
use vstd::prelude::*;

use crate::on::On;

verus! {

/// Relies on `Arc::clone`: the new pointer refers to the same allocation, so
/// it holds the same value.
#[verifier::external_body]
fn share<T>(a: &Arc<T>) -> (r: Arc<T>)
    ensures
        r == *a,
{
    Arc::clone(a)
}

/// One unit of dispatch: a handler paired with its own copy of an event.
///
/// Whoever runs it calls the handler on the event, independently of every
/// other dispatch of the same emission.
pub struct Dispatch<E, H> {
    pub handler: Arc<H>,
    pub event: E,
}

/// `plan` hands `event` to each handler of `handlers`, once, in registry
/// order: one dispatch per handler, each with a clone of the event.
pub open spec fn dispatches<E: Clone, H>(
    handlers: Seq<H>,
    event: E,
    plan: Seq<Dispatch<E, H>>,
) -> bool {
    &&& plan.len() == handlers.len()
    &&& forall|i: int|
        0 <= i < plan.len() ==> *(#[trigger] plan[i]).handler == handlers[i] && cloned(
            event,
            plan[i].event,
        )
}

/// An event emitter for events of type `E` whose handlers have type `H`.
///
/// The registry is append-only: a handler, once registered, stays for the
/// emitter's whole lifetime. Each handler is held behind a shared,
/// reference-counted pointer, so that every dispatch can keep it alive
/// without copying it.
pub struct Client<E, H> {
    handlers: Vec<Arc<H>>,
    event: PhantomData<E>,
}

impl<E, H> Client<E, H> {
    /// Create an emitter with no handlers.
    pub fn new() -> (r: Self)
        ensures
            r.handlers() == Seq::<H>::empty(),
    {
        Client { handlers: Vec::new(), event: PhantomData }
    }

    /// Emit an event: take a snapshot of the registry and return one dispatch
    /// per handler in it, in registry order, each holding the handler and a
    /// clone of `event`.
    ///
    /// Nothing here waits for a handler, and no handler's outcome can reach
    /// the registry: the emitter is only read.
    pub fn emit(&self, event: E) -> (plan: Vec<Dispatch<E, H>>)
        where
            E: Clone,
        ensures
            dispatches(self.handlers(), event, plan@),
    {
        let mut plan: Vec<Dispatch<E, H>> = Vec::new();
        let n = self.handlers.len();
        let mut i: usize = 0;
        while i < n
            invariant
                n == self.handlers@.len(),
                i <= n,
                plan@.len() == i,
                forall|j: int|
                    0 <= j < i ==> *(#[trigger] plan@[j]).handler == self.handlers()[j] && cloned(
                        event,
                        plan@[j].event,
                    ),
            decreases n - i,
        {
            let handler = share(&self.handlers[i]);
            let copy = event.clone();
            plan.push(Dispatch { handler, event: copy });
            i = i + 1;
        }
        plan
    }
}

impl<E, H> On<E, H> for Client<E, H> {
    closed spec fn handlers(&self) -> Seq<H> {
        self.handlers@.map_values(|a: Arc<H>| *a)
    }

    fn on(&mut self, handler: H) {
        self.handlers.push(Arc::new(handler));
        assert(self.handlers@.map_values(|a: Arc<H>| *a) =~= old(self).handlers@.map_values(
            |a: Arc<H>| *a,
        ).push(handler));
    }
}

} // verus!
