//! What holds of registrations and emissions taken together.
//!
//! Registrations are serialized: however many contexts register at once, the
//! registry goes through one succession of states, each the previous one with
//! one handler appended. The laws below are stated over such a succession and
//! over the dispatch plans that `Client::emit` returns along it.

use vstd::prelude::*;

use crate::client::{dispatches, Dispatch};

verus! {

/// `states` is the succession of registries that the registrations of `order`
/// pass through, one `On::on` call each, starting from `states[0]`.
pub open spec fn registration_run<H>(states: Seq<Seq<H>>, order: Seq<H>) -> bool {
    &&& states.len() == order.len() + 1
    &&& forall|k: int|
        0 <= k < order.len() ==> #[trigger] states[k + 1] == states[k].push(order[k])
}

/// Along a run, a later registry is an earlier one followed by the handlers
/// registered in between.
proof fn lemma_run_extends<H>(states: Seq<Seq<H>>, order: Seq<H>, k: int, j: int)
    requires
        registration_run(states, order),
        0 <= k <= j <= order.len(),
    ensures
        states[j] == states[k] + order.subrange(k, j),
    decreases j - k,
{
    if j == k {
        assert(states[k] + order.subrange(k, k) =~= states[k]);
    } else {
        lemma_run_extends(states, order, k, j - 1);
        let p = j - 1;
        assert(states[p + 1] == states[p].push(order[p]));
        assert(states[k] + order.subrange(k, j) =~= (states[k] + order.subrange(k, j - 1)).push(
            order[j - 1],
        ));
    }
}

/// No registration is lost: whatever order the registrations were serialized
/// in, the final registry holds the initial handlers followed by every
/// registered handler, each exactly once and in that order.
pub proof fn lemma_no_registration_lost<H>(states: Seq<Seq<H>>, order: Seq<H>)
    requires
        registration_run(states, order),
    ensures
        states.last() == states[0] + order,
        states.last().len() == states[0].len() + order.len(),
        forall|m: int| 0 <= m < order.len() ==> states.last()[states[0].len() + m] == order[m],
{
    lemma_run_extends(states, order, 0, order.len() as int);
    assert(order.subrange(0, order.len() as int) =~= order);
}

/// After `N` registrations on a new emitter, an emission dispatches exactly
/// `N` times: once to each registered handler, in registration order, each
/// time with a clone of the emitted event.
pub proof fn lemma_dispatch_count<E: Clone, H>(
    states: Seq<Seq<H>>,
    order: Seq<H>,
    event: E,
    plan: Seq<Dispatch<E, H>>,
)
    requires
        registration_run(states, order),
        states[0] == Seq::<H>::empty(),
        dispatches(states.last(), event, plan),
    ensures
        plan.len() == order.len(),
        forall|i: int|
            0 <= i < plan.len() ==> *(#[trigger] plan[i]).handler == order[i] && cloned(
                event,
                plan[i].event,
            ),
{
    lemma_no_registration_lost(states, order);
    assert(states.last() =~= order);
}

/// An emission dispatches to a registry that was complete at some point of
/// the run, never to a partly appended one: its plan covers a prefix of every
/// later registry, and the handlers registered after its snapshot lie beyond
/// that prefix, so they do not receive its event.
pub proof fn lemma_snapshot_is_prefix<E: Clone, H>(
    states: Seq<Seq<H>>,
    order: Seq<H>,
    k: int,
    event: E,
    plan: Seq<Dispatch<E, H>>,
)
    requires
        registration_run(states, order),
        0 <= k <= order.len(),
        dispatches(states[k], event, plan),
    ensures
        plan.len() == states[k].len() <= states.last().len(),
        forall|i: int| 0 <= i < plan.len() ==> *#[trigger] plan[i].handler == states.last()[i],
        forall|m: int|
            k <= m < order.len() ==> states.last()[states[0].len() + m] == order[m]
                && states[0].len() + m >= plan.len(),
{
    lemma_run_extends(states, order, 0, k);
    lemma_run_extends(states, order, k, order.len() as int);
    lemma_no_registration_lost(states, order);
    assert forall|i: int| 0 <= i < plan.len() implies *#[trigger] plan[i].handler
        == states.last()[i] by {
        assert(states.last()[i] == states[k][i]);
    }
}

/// A handler is never dropped from dispatch: every emission made after
/// another one, with or without registrations in between, dispatches again
/// to each handler that the earlier one dispatched to, at the same place,
/// whatever those handlers returned.
pub proof fn lemma_handler_not_removed<E: Clone, H>(
    states: Seq<Seq<H>>,
    order: Seq<H>,
    k: int,
    j: int,
    first: E,
    earlier: Seq<Dispatch<E, H>>,
    second: E,
    later: Seq<Dispatch<E, H>>,
)
    requires
        registration_run(states, order),
        0 <= k <= j <= order.len(),
        dispatches(states[k], first, earlier),
        dispatches(states[j], second, later),
    ensures
        earlier.len() <= later.len(),
        forall|i: int| 0 <= i < earlier.len() ==> *#[trigger] later[i].handler == *earlier[i].handler,
{
    lemma_run_extends(states, order, k, j);
    assert forall|i: int| 0 <= i < earlier.len() implies *#[trigger] later[i].handler
        == *earlier[i].handler by {
        assert(states[j][i] == states[k][i]);
    }
}

} // verus!
