//! What holds of a coalescing service over any history of requests and endings.
use std::sync::Arc;
use std::time::Duration;
use vstd::prelude::*;

use crate::coalescing::{
    share_result, CoalescingKey, CoalescingService, CoalescingStats, Execution, OperationError,
    Outcome, ServiceView, StatsView, Verdict,
};

verus! {

/// One thing that happens to a service.
pub enum Event<N, Op> {
    /// A request for a name, with the operation that it would start.
    Request(N, Op),
    /// The operation under a name ends.
    Finish(N, Verdict),
    /// The counters are set to zero.
    Reset,
}

impl<N, Op> Event<N, Op> {
    /// The state of a service after this event.
    pub open spec fn apply(self, service: ServiceView<N, Op>) -> ServiceView<N, Op> {
        match self {
            Event::Request(name, op) => service.after_request(name, op),
            Event::Finish(name, verdict) => service.after_finish(name, verdict),
            Event::Reset => service.after_reset(),
        }
    }
}

/// The state of a service after all of `events`, the first one first.
pub open spec fn run<N, Op>(
    service: ServiceView<N, Op>,
    events: Seq<Event<N, Op>>,
) -> ServiceView<N, Op>
    decreases events.len(),
{
    if events.len() == 0 {
        service
    } else {
        events.last().apply(run(service, events.drop_last()))
    }
}

/// Whether every ending in `events` is that of an operation which is in flight then.
pub open spec fn endings_match<N, Op>(
    service: ServiceView<N, Op>,
    events: Seq<Event<N, Op>>,
) -> bool
    decreases events.len(),
{
    events.len() > 0 ==> {
        &&& endings_match(service, events.drop_last())
        &&& events.last() matches Event::Finish(name, _) ==> run(
            service,
            events.drop_last(),
        ).pending.contains_key(name)
    }
}

/// How many of `events` satisfy `wanted`.
pub open spec fn tally<N, Op>(
    events: Seq<Event<N, Op>>,
    wanted: spec_fn(Event<N, Op>) -> bool,
) -> nat
    decreases events.len(),
{
    if events.len() == 0 {
        0
    } else {
        tally(events.drop_last(), wanted) + if wanted(events.last()) {
            1nat
        } else {
            0
        }
    }
}

/// An operation stays in flight, under the handle it was entered with, until it ends:
/// whatever else happens to the service, no second operation takes its place.
pub proof fn law_in_flight_until_finished<N, Op>(
    service: ServiceView<N, Op>,
    events: Seq<Event<N, Op>>,
    name: N,
)
    requires
        service.pending.contains_key(name),
        forall|i: int|
            0 <= i < events.len() ==> !(#[trigger] events[i] matches Event::Finish(other, _)
                && other == name),
    ensures
        run(service, events).pending.contains_key(name),
        run(service, events).pending[name] == service.pending[name],
    decreases events.len(),
{
    if events.len() > 0 {
        let front = events.drop_last();
        assert forall|i: int| 0 <= i < front.len() implies !(
        #[trigger] front[i] matches Event::Finish(other, _) && other == name) by {
            assert(front[i] == events[i]);
        }
        law_in_flight_until_finished(service, front, name);
        assert(events[events.len() - 1] == events.last());
    }
}

/// However an operation ended, its name is free again and nothing else left the table, from
/// the moment at which the name is released; the next request for the name starts a new
/// operation.
pub proof fn law_finish_frees_the_name<N, Op>(
    service: ServiceView<N, Op>,
    name: N,
    verdict: Verdict,
    op: Op,
)
    ensures
        service.after_release(name).pending == service.after_finish(name, verdict).pending,
        !service.after_finish(name, verdict).pending.contains_key(name),
        forall|other: N|
            other != name ==> (#[trigger] service.after_finish(name, verdict).pending.contains_key(
                other,
            ) <==> service.pending.contains_key(other)),
        forall|other: N|
            other != name && service.pending.contains_key(other) ==> service.after_finish(
                name,
                verdict,
            ).pending[other] == #[trigger] service.pending[other],
        service.after_finish(name, verdict).after_request(name, op).pending[name] == op,
        service.after_finish(name, verdict).after_request(name, op).stats.initiated
            == service.stats.initiated + 1,
{
}

/// Requests and endings for one name leave every other name as it was.
pub proof fn law_names_are_independent<N, Op>(
    service: ServiceView<N, Op>,
    events: Seq<Event<N, Op>>,
    name: N,
)
    requires
        forall|i: int|
            0 <= i < events.len() ==> match #[trigger] events[i] {
                Event::Request(other, _) => other != name,
                Event::Finish(other, _) => other != name,
                Event::Reset => true,
            },
    ensures
        run(service, events).pending.contains_key(name) <==> service.pending.contains_key(name),
        service.pending.contains_key(name) ==> run(service, events).pending[name]
            == service.pending[name],
    decreases events.len(),
{
    if events.len() > 0 {
        let front = events.drop_last();
        assert forall|i: int| 0 <= i < front.len() implies match #[trigger] front[i] {
            Event::Request(other, _) => other != name,
            Event::Finish(other, _) => other != name,
            Event::Reset => true,
        } by {
            assert(front[i] == events[i]);
        }
        law_names_are_independent(service, front, name);
        assert(events[events.len() - 1] == events.last());
    }
}

/// Of any number of requests for one name that is free, made before the operation ends,
/// the first starts the operation and all the others join it.
pub proof fn law_burst_starts_one_operation<N, Op>(
    service: ServiceView<N, Op>,
    name: N,
    ops: Seq<Op>,
)
    requires
        !service.pending.contains_key(name),
        ops.len() > 0,
    ensures
        ({
            let after = run(service, ops.map_values(|op: Op| Event::Request(name, op)));
            &&& after.pending == service.pending.insert(name, ops[0])
            &&& after.stats == StatsView {
                initiated: service.stats.initiated + 1,
                coalesced: (service.stats.coalesced + ops.len() - 1) as nat,
                ..service.stats
            }
        }),
    decreases ops.len(),
{
    let events = ops.map_values(|op: Op| Event::Request(name, op));
    let front = ops.drop_last();
    assert(events.drop_last() =~= front.map_values(|op: Op| Event::Request(name, op)));
    if front.len() > 0 {
        law_burst_starts_one_operation(service, name, front);
        assert(front[0] == ops[0]);
    } else {
        assert(run(service, events.drop_last()) == service);
    }
}

/// Over any history without a reset: every request is counted once, as initiated or as
/// coalesced; failures and timeouts are counted once per operation that ended so; and every
/// initiated operation is in flight or has succeeded, failed or timed out.
pub proof fn law_counters_add_up<N, Op>(
    timeout: Option<std::time::Duration>,
    events: Seq<Event<N, Op>>,
)
    requires
        endings_match(ServiceView::<N, Op>::fresh(timeout), events),
        forall|i: int| 0 <= i < events.len() ==> !(#[trigger] events[i] is Reset),
    ensures
        ({
            let after = run(ServiceView::<N, Op>::fresh(timeout), events);
            &&& after.stats.initiated + after.stats.coalesced == tally(
                events,
                |event: Event<N, Op>| event is Request,
            )
            &&& after.stats.initiated == after.pending.dom().len() + tally(
                events,
                |event: Event<N, Op>| event is Finish,
            )
            &&& after.stats.failed == tally(
                events,
                |event: Event<N, Op>| event matches Event::Finish(_, verdict) && verdict is Failure,
            )
            &&& after.stats.timed_out == tally(
                events,
                |event: Event<N, Op>| event matches Event::Finish(_, verdict) && verdict is Timeout,
            )
            &&& after.pending.dom().finite()
            &&& after.stats.initiated == after.pending.dom().len() + after.stats.failed
                + after.stats.timed_out + tally(
                events,
                |event: Event<N, Op>| event matches Event::Finish(_, verdict) && verdict is Success,
            )
        }),
    decreases events.len(),
{
    if events.len() > 0 {
        let front = events.drop_last();
        assert forall|i: int| 0 <= i < front.len() implies !(#[trigger] front[i] is Reset) by {
            assert(front[i] == events[i]);
        }
        law_counters_add_up(timeout, front);
        assert(!(events[events.len() - 1] is Reset));
        let before = run(ServiceView::<N, Op>::fresh(timeout), front);
        let after = run(ServiceView::<N, Op>::fresh(timeout), events);
        match events.last() {
            Event::Request(name, op) => {
                assert(before.pending.insert(name, op).dom() =~= before.pending.dom().insert(name));
            },
            Event::Finish(name, verdict) => {
                assert(before.pending.remove(name).dom() =~= before.pending.dom().remove(name));
            },
            Event::Reset => {},
        }
    }
}

/// Two texts are one key exactly where they hold the same characters.
pub proof fn law_text_keys_are_told_apart(a: &String, b: &String, same: bool)
    requires
        call_ensures(<String as CoalescingKey>::same, (a, b), same),
    ensures
        same <==> a@ == b@,
        a.name() == b.name() <==> a@ == b@,
{
}

/// Two numbers are one key exactly where they are equal.
pub proof fn law_number_keys_are_told_apart(a: &u64, b: &u64, same: bool)
    requires
        call_ensures(<u64 as CoalescingKey>::same, (a, b), same),
    ensures
        same <==> *a == *b,
        a.name() == b.name() <==> *a == *b,
{
}

/// A request joins the operation that is in flight for its key, or else brings its own into
/// flight; it is counted once, and nothing else changes.
pub proof fn law_request_joins_or_starts<K: CoalescingKey, Op: Clone>(
    service: &mut CoalescingService<K, Op>,
    key: K,
    op: Op,
    execution: Execution<Op>,
)
    requires
        call_ensures(CoalescingService::<K, Op>::execute, (service, key, op), execution),
    ensures
        old(service)@.pending.contains_key(key.name()) ==> {
            &&& execution matches Execution::Coalesced(handle)
            &&& cloned(old(service)@.pending[key.name()], handle)
            &&& final(service)@.pending == old(service)@.pending
            &&& final(service)@.stats.initiated == old(service)@.stats.initiated
            &&& final(service)@.stats.coalesced == old(service)@.stats.coalesced + 1
        },
        !old(service)@.pending.contains_key(key.name()) ==> {
            &&& execution is Initiated
            &&& final(service)@.pending == old(service)@.pending.insert(key.name(), op)
            &&& final(service)@.stats.initiated == old(service)@.stats.initiated + 1
            &&& final(service)@.stats.coalesced == old(service)@.stats.coalesced
        },
        final(service)@.stats.failed == old(service)@.stats.failed,
        final(service)@.stats.timed_out == old(service)@.stats.timed_out,
        final(service)@.timeout == old(service)@.timeout,
{
}

/// Of two requests that follow one another, the second joins the operation of the first
/// exactly where both name the same text; a text of its own, for which nothing was in flight,
/// starts an operation of its own.
pub proof fn law_only_one_text_is_coalesced<Op: Clone>(
    service: &mut CoalescingService<String, Op>,
    later: &mut CoalescingService<String, Op>,
    a: String,
    b: String,
    first: Op,
    second: Op,
    started: Execution<Op>,
    execution: Execution<Op>,
)
    requires
        call_ensures(CoalescingService::<String, Op>::execute, (service, a, first), started),
        call_ensures(CoalescingService::<String, Op>::execute, (later, b, second), execution),
        old(later)@ == final(service)@,
        !old(service)@.pending.contains_key(a@),
        !old(service)@.pending.contains_key(b@),
    ensures
        started is Initiated,
        a@ == b@ ==> (execution matches Execution::Coalesced(handle) && cloned(first, handle)),
        a@ != b@ ==> {
            &&& execution is Initiated
            &&& final(later)@.pending.contains_key(a@) && final(later)@.pending[a@] == first
            &&& final(later)@.pending.contains_key(b@) && final(later)@.pending[b@] == second
            &&& final(later)@.stats.initiated == old(service)@.stats.initiated + 2
            &&& final(later)@.stats.coalesced == old(service)@.stats.coalesced
        },
{
}

/// An operation is found in flight exactly where it is.
pub proof fn law_in_flight_is_found<K: CoalescingKey, Op>(
    service: &CoalescingService<K, Op>,
    key: &K,
    found: bool,
)
    requires
        call_ensures(CoalescingService::<K, Op>::is_in_flight, (service, key), found),
    ensures
        found <==> service@.pending.contains_key(key.name()),
{
}

/// A release takes its own key out of the table and does nothing else.
pub proof fn law_release_takes_out_its_key<K: CoalescingKey, Op>(
    service: &mut CoalescingService<K, Op>,
    key: &K,
)
    requires
        call_ensures(CoalescingService::<K, Op>::release, (service, key), ()),
    ensures
        final(service)@.pending == old(service)@.pending.remove(key.name()),
        final(service)@.stats == old(service)@.stats,
        final(service)@.timeout == old(service)@.timeout,
{
}

/// The end of an operation takes its key out of the table and is counted as what it was: an
/// error of the operation as a failure, and only a timeout as a timeout. Everybody who waited
/// receives the value or the error itself, or is told which key timed out.
pub proof fn law_ending_is_counted_and_shared<K: CoalescingKey, Op, T, E>(
    service: &mut CoalescingService<K, Op>,
    key: &K,
    key_text: &str,
    outcome: Outcome<T, E>,
    result: Result<Arc<T>, Arc<OperationError<E>>>,
)
    requires
        call_ensures(
            CoalescingService::<K, Op>::finish::<T, E>,
            (service, key, key_text, outcome),
            result,
        ),
    ensures
        final(service)@.pending == old(service)@.pending.remove(key.name()),
        final(service)@.timeout == old(service)@.timeout,
        final(service)@.stats.initiated == old(service)@.stats.initiated,
        final(service)@.stats.coalesced == old(service)@.stats.coalesced,
        final(service)@.stats.failed - old(service)@.stats.failed == if outcome is Failed {
            1int
        } else {
            0
        },
        final(service)@.stats.timed_out - old(service)@.stats.timed_out == if outcome is TimedOut {
            1int
        } else {
            0
        },
        outcome matches Outcome::Completed(value) ==> (result matches Ok(shared) && *shared
            == value),
        outcome matches Outcome::Failed(error) ==> (result matches Err(shared) && *shared
            == OperationError::Operation(error)),
        outcome is TimedOut ==> (result matches Err(shared)
            && *shared matches OperationError::TimedOut(text) && text@
            == "Operation timed out for key: "@ + key_text@),
{
}

/// What an operation returned is how it ended, and it has timed out only where it returned
/// nothing in time.
pub proof fn law_outcome_is_what_was_returned<T, E>(
    finished: Option<Result<T, E>>,
    outcome: Outcome<T, E>,
)
    requires
        call_ensures(Outcome::<T, E>::of, (finished,), outcome),
    ensures
        outcome is TimedOut <==> finished is None,
        finished matches Some(Ok(value)) ==> (outcome matches Outcome::Completed(returned)
            && returned == value),
        finished matches Some(Err(error)) ==> (outcome matches Outcome::Failed(returned)
            && returned == error),
{
}

/// A new service has nothing in flight and has counted nothing; it has the timeout that it was
/// given, or none.
pub proof fn law_new_service_is_idle<K: CoalescingKey, Op>(
    timeout: Duration,
    without: CoalescingService<K, Op>,
    with: CoalescingService<K, Op>,
    default: CoalescingService<K, Op>,
    key: K,
)
    requires
        call_ensures(<CoalescingService<K, Op> as Default>::default, (), default),
        call_ensures(CoalescingService::<K, Op>::new, (), without),
        call_ensures(CoalescingService::<K, Op>::with_timeout, (timeout,), with),
    ensures
        default@ == without@,
        without@.timeout is None,
        with@.timeout == Some(timeout),
        !without@.pending.contains_key(key.name()),
        !with@.pending.contains_key(key.name()),
        without@.stats.initiated == 0 && without@.stats.coalesced == 0 && without@.stats.failed
            == 0 && without@.stats.timed_out == 0,
        with@.stats.initiated == 0 && with@.stats.coalesced == 0 && with@.stats.failed == 0
            && with@.stats.timed_out == 0,
{
}

/// A snapshot of the statistics tells each counter under its own name, as many operations are
/// pending as have a key in the table, and the timeout is that of the service.
pub proof fn law_service_tells_its_state<K: CoalescingKey, Op>(
    service: &CoalescingService<K, Op>,
    stats: CoalescingStats,
    count: usize,
    timeout: Option<Duration>,
)
    requires
        call_ensures(CoalescingService::<K, Op>::get_stats, (service,), stats),
        call_ensures(CoalescingService::<K, Op>::get_pending_tasks_count, (service,), count),
        call_ensures(CoalescingService::<K, Op>::get_timeout, (service,), timeout),
    ensures
        stats.initiated_operations == service@.stats.initiated,
        stats.coalesced_requests == service@.stats.coalesced,
        stats.failed_operations == service@.stats.failed,
        stats.timed_out_operations == service@.stats.timed_out,
        count == service@.pending.dom().len(),
        timeout == service@.timeout,
{
}

/// A reset sets the counters to zero, and leaves the operations in flight and the timeout.
pub proof fn law_reset_clears_the_counters_alone<K: CoalescingKey, Op>(
    service: &mut CoalescingService<K, Op>,
    later: &CoalescingService<K, Op>,
    stats: CoalescingStats,
)
    requires
        call_ensures(CoalescingService::<K, Op>::reset_stats, (service,), ()),
        call_ensures(CoalescingService::<K, Op>::get_stats, (later,), stats),
        later@ == final(service)@,
    ensures
        stats.initiated_operations == 0,
        stats.coalesced_requests == 0,
        stats.failed_operations == 0,
        stats.timed_out_operations == 0,
        final(service)@.pending == old(service)@.pending,
        final(service)@.timeout == old(service)@.timeout,
{
}

/// Everybody who waited receives the same value or the same error.
pub proof fn law_result_is_shared_unchanged<T, E>(
    shared: &Arc<Result<Arc<T>, Arc<E>>>,
    result: Result<Arc<T>, Arc<E>>,
)
    requires
        call_ensures(share_result::<T, E>, (shared,), result),
    ensures
        **shared matches Ok(value) ==> (result matches Ok(received) && received == value),
        **shared matches Err(error) ==> (result matches Err(received) && received == error),
{
}

} // verus!
