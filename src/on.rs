use vstd::prelude::*;

verus! {

/// The capability of accepting handler registrations for events of type `E`.
///
/// Components that only need to attach behaviour depend on this trait rather
/// than on a concrete emitter.
pub trait On<E, H>: Sized {
    /// The handlers registered so far, in the order of their registration.
    spec fn handlers(&self) -> Seq<H>;

    /// Register a handler: it becomes eligible for every later emission and
    /// receives nothing that was emitted before. Registration cannot fail.
    fn on(&mut self, handler: H)
        ensures
            final(self).handlers() == old(self).handlers().push(handler),
    ;
}

} // verus!
