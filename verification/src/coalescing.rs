//! Coalescing of identical operations that run at the same time.
//!
//! A [`CoalescingService`] keeps one handle for every operation that is in flight,
//! found by the operation's key. A request for a key that is in flight joins the
//! operation that is already running; every other request starts one. When an
//! operation is over, however it ended, its key leaves the table.
use std::sync::Arc;
use std::time::Duration;
use vstd::prelude::*;

use crate::text::join;

verus! {

/// What the service asks of a key: a name, and a test that tells names apart.
pub trait CoalescingKey: Sized {
    /// The mathematical value by which keys are told apart.
    type Name;

    /// The name of this key.
    spec fn name(&self) -> Self::Name;

    /// Whether the two keys have one name.
    fn same(&self, other: &Self) -> (same: bool)
        ensures
            same == (self.name() == other.name()),
    ;
}

impl CoalescingKey for String {
    type Name = Seq<char>;

    open spec fn name(&self) -> Seq<char> {
        self@
    }

    fn same(&self, other: &Self) -> (same: bool) {
        *self == *other
    }
}

impl CoalescingKey for u64 {
    type Name = u64;

    open spec fn name(&self) -> u64 {
        *self
    }

    fn same(&self, other: &Self) -> (same: bool) {
        *self == *other
    }
}

/// Statistics for monitoring the coalescing service.
#[derive(Debug, Clone, Copy, PartialEq, Eq, Structural)]
pub struct CoalescingStats {
    /// Number of operations initiated (first request for a given key).
    pub initiated_operations: usize,
    /// Number of requests that were coalesced (joined an existing operation).
    pub coalesced_requests: usize,
    /// Number of initiated operations that resulted in failure (excluding timeouts).
    pub failed_operations: usize,
    /// Number of initiated operations that timed out.
    pub timed_out_operations: usize,
}

/// The four counters as natural numbers.
pub struct StatsView {
    pub initiated: nat,
    pub coalesced: nat,
    pub failed: nat,
    pub timed_out: nat,
}

impl View for CoalescingStats {
    type V = StatsView;

    open spec fn view(&self) -> StatsView {
        StatsView {
            initiated: self.initiated_operations as nat,
            coalesced: self.coalesced_requests as nat,
            failed: self.failed_operations as nat,
            timed_out: self.timed_out_operations as nat,
        }
    }
}

impl StatsView {
    /// All counters at zero.
    pub open spec fn zero() -> StatsView {
        StatsView { initiated: 0, coalesced: 0, failed: 0, timed_out: 0 }
    }
}

impl Default for CoalescingStats {
    fn default() -> (stats: Self)
        ensures
            stats@ == StatsView::zero(),
    {
        CoalescingStats {
            initiated_operations: 0,
            coalesced_requests: 0,
            failed_operations: 0,
            timed_out_operations: 0,
        }
    }
}

/// How an operation ended.
pub enum Outcome<T, E> {
    /// The operation returned a value.
    Completed(T),
    /// The operation returned an error of its own, whatever the error says.
    Failed(E),
    /// The operation was still running when the timeout of the service had passed.
    TimedOut,
}

impl<T, E> Outcome<T, E> {
    /// How an operation ended, given what it returned, or `None` where the timeout had passed
    /// before it returned.
    pub fn of(finished: Option<Result<T, E>>) -> (outcome: Self)
        ensures
            outcome == match finished {
                Some(Ok(value)) => Outcome::Completed(value),
                Some(Err(error)) => Outcome::<T, E>::Failed(error),
                None => Outcome::TimedOut,
            },
    {
        match finished {
            Some(Ok(value)) => Outcome::Completed(value),
            Some(Err(error)) => Outcome::Failed(error),
            None => Outcome::TimedOut,
        }
    }
}

/// The error that everybody who waited for an operation receives.
pub enum OperationError<E> {
    /// The error that the operation itself returned.
    Operation(E),
    /// The operation timed out; the text names the key.
    TimedOut(String),
}

/// What the end of an operation does to the counters.
pub enum Verdict {
    /// The operation succeeded, which nothing counts.
    Success,
    /// The operation counts as failed.
    Failure,
    /// The operation counts as timed out.
    Timeout,
}

/// What becomes of a request.
pub enum Execution<Op> {
    /// An operation for the key was in flight: wait on this handle of it.
    Coalesced(Op),
    /// The operation that the request brought along is now in flight: run it.
    Initiated,
}

/// How an operation ended, as the counters see it: an error that the operation returned is
/// a failure, and only what the service itself cut off is a timeout.
pub open spec fn verdict<T, E>(outcome: Outcome<T, E>) -> Verdict {
    match outcome {
        Outcome::Completed(_) => Verdict::Success,
        Outcome::Failed(_) => Verdict::Failure,
        Outcome::TimedOut => Verdict::Timeout,
    }
}

/// The text of the error for an operation that timed out.
pub open spec fn timeout_text(key_text: Seq<char>) -> Seq<char> {
    "Operation timed out for key: "@ + key_text
}

/// What everybody who waited receives, given how the operation ended.
pub open spec fn is_result_of<T, E>(
    result: Result<Arc<T>, Arc<OperationError<E>>>,
    outcome: Outcome<T, E>,
    key_text: Seq<char>,
) -> bool {
    match outcome {
        Outcome::Completed(value) => result matches Ok(shared) && *shared == value,
        Outcome::Failed(error) => result matches Err(shared) && *shared
            == OperationError::Operation(error),
        Outcome::TimedOut => result matches Err(shared) && *shared matches OperationError::TimedOut(
            text,
        ) && text@ == timeout_text(key_text),
    }
}

/// The state of a service: the operations in flight by the name of their key, the
/// counters, and the timeout that new operations are given.
#[verifier::ext_equal]
#[verifier::reject_recursive_types(N)]
pub struct ServiceView<N, Op> {
    pub pending: Map<N, Op>,
    pub stats: StatsView,
    pub timeout: Option<Duration>,
}

impl<N, Op> ServiceView<N, Op> {
    /// A service on which nothing has happened yet.
    pub open spec fn fresh(timeout: Option<Duration>) -> Self {
        ServiceView { pending: Map::empty(), stats: StatsView::zero(), timeout }
    }

    /// After a request for `name`, which brought `op` along for the case that nothing
    /// is in flight under that name.
    pub open spec fn after_request(self, name: N, op: Op) -> Self {
        if self.pending.contains_key(name) {
            ServiceView {
                stats: StatsView { coalesced: self.stats.coalesced + 1, ..self.stats },
                ..self
            }
        } else {
            ServiceView {
                pending: self.pending.insert(name, op),
                stats: StatsView { initiated: self.stats.initiated + 1, ..self.stats },
                ..self
            }
        }
    }

    /// After `name` was taken out of the table; the counters are as before.
    pub open spec fn after_release(self, name: N) -> Self {
        ServiceView { pending: self.pending.remove(name), ..self }
    }

    /// After the operation under `name` has ended.
    pub open spec fn after_finish(self, name: N, verdict: Verdict) -> Self {
        ServiceView {
            stats: match verdict {
                Verdict::Success => self.stats,
                Verdict::Failure => StatsView { failed: self.stats.failed + 1, ..self.stats },
                Verdict::Timeout => StatsView { timed_out: self.stats.timed_out + 1, ..self.stats },
            },
            ..self.after_release(name)
        }
    }

    /// After the counters were set to zero.
    pub open spec fn after_reset(self) -> Self {
        ServiceView { stats: StatsView::zero(), ..self }
    }
}

/// One operation in flight.
#[derive(Debug)]
struct InFlight<K, Op> {
    key: K,
    op: Op,
}

/// A service that coalesces identical asynchronous operations based on a key
/// to reduce load on the underlying resource (e.g., database, external API).
///
/// `Op` is the handle on which any number of requests can wait for one operation.
#[derive(Debug)]
pub struct CoalescingService<K: CoalescingKey, Op> {
    in_flight: Vec<InFlight<K, Op>>,
    timeout: Option<Duration>,
    stats: CoalescingStats,
}

/// No two entries have one name.
spec fn distinct<K: CoalescingKey, Op>(entries: Seq<InFlight<K, Op>>) -> bool {
    forall|i: int, j: int|
        0 <= i < j < entries.len() ==> (#[trigger] entries[i]).key.name() != (
        #[trigger] entries[j]).key.name()
}

/// The entries as a map from names to handles.
spec fn table<K: CoalescingKey, Op>(entries: Seq<InFlight<K, Op>>) -> Map<K::Name, Op>
    decreases entries.len(),
{
    if entries.len() == 0 {
        Map::empty()
    } else {
        table(entries.drop_last()).insert(entries.last().key.name(), entries.last().op)
    }
}

/// The names in the table are those of the entries, each with its entry's handle, and
/// there are as many as there are entries.
proof fn lemma_table<K: CoalescingKey, Op>(entries: Seq<InFlight<K, Op>>)
    requires
        distinct(entries),
    ensures
        forall|name: K::Name| #[trigger]
            table(entries).contains_key(name) <==> exists|i: int|
                0 <= i < entries.len() && (#[trigger] entries[i]).key.name() == name,
        forall|i: int|
            0 <= i < entries.len() ==> table(entries).contains_key(
                (#[trigger] entries[i]).key.name(),
            ) && table(entries)[entries[i].key.name()] == entries[i].op,
        table(entries).dom().finite(),
        table(entries).dom().len() == entries.len(),
    decreases entries.len(),
{
    if entries.len() > 0 {
        let front = entries.drop_last();
        lemma_table(front);
        let last = entries.last();
        assert(!table(front).contains_key(last.key.name())) by {
            if table(front).contains_key(last.key.name()) {
                let i = choose|i: int|
                    0 <= i < front.len() && (#[trigger] front[i]).key.name() == last.key.name();
                assert(entries[i].key.name() != entries[entries.len() - 1].key.name());
            }
        }
        assert forall|i: int| 0 <= i < entries.len() implies table(entries).contains_key(
            (#[trigger] entries[i]).key.name(),
        ) && table(entries)[entries[i].key.name()] == entries[i].op by {
            if i < front.len() {
                assert(front[i] == entries[i]);
                assert(entries[i].key.name() != entries[entries.len() - 1].key.name());
            }
        }
        assert forall|name: K::Name| #[trigger]
            table(entries).contains_key(name) implies exists|i: int|
            0 <= i < entries.len() && (#[trigger] entries[i]).key.name() == name by {
            if name == last.key.name() {
                assert(entries[entries.len() - 1].key.name() == name);
            } else {
                assert(table(front).contains_key(name));
                let i = choose|i: int|
                    0 <= i < front.len() && (#[trigger] front[i]).key.name() == name;
                assert(entries[i].key.name() == name);
            }
        }
        assert(table(entries).dom() =~= table(front).dom().insert(last.key.name()));
    }
}

/// Taking one entry out takes its name out of the table.
proof fn lemma_table_remove<K: CoalescingKey, Op>(entries: Seq<InFlight<K, Op>>, at: int)
    requires
        distinct(entries),
        0 <= at < entries.len(),
    ensures
        distinct(entries.remove(at)),
        table(entries.remove(at)) == table(entries).remove(entries[at].key.name()),
{
    let rest = entries.remove(at);
    let gone = entries[at].key.name();
    lemma_table(entries);
    assert forall|i: int, j: int| 0 <= i < j < rest.len() implies (#[trigger] rest[i]).key.name()
        != (#[trigger] rest[j]).key.name() by {
        let i0 = if i < at { i } else { i + 1 };
        let j0 = if j < at { j } else { j + 1 };
        assert(rest[i] == entries[i0]);
        assert(rest[j] == entries[j0]);
    }
    lemma_table(rest);
    assert forall|name: K::Name| #[trigger]
        table(rest).contains_key(name) <==> table(entries).remove(gone).contains_key(name) by {
        if table(rest).contains_key(name) {
            let i = choose|i: int| 0 <= i < rest.len() && (#[trigger] rest[i]).key.name() == name;
            let i0 = if i < at { i } else { i + 1 };
            assert(rest[i] == entries[i0]);
            assert(i0 != at);
            assert(entries[i0].key.name() != gone);
        }
        if table(entries).remove(gone).contains_key(name) {
            let i0 = choose|i: int|
                0 <= i < entries.len() && (#[trigger] entries[i]).key.name() == name;
            let i = if i0 < at { i0 } else { i0 - 1 };
            assert(rest[i] == entries[i0]);
        }
    }
    assert forall|name: K::Name| #[trigger] table(rest).contains_key(name) implies table(rest)[name]
        == table(entries).remove(gone)[name] by {
        let i = choose|i: int| 0 <= i < rest.len() && (#[trigger] rest[i]).key.name() == name;
        let i0 = if i < at { i } else { i + 1 };
        assert(rest[i] == entries[i0]);
        assert(table(entries)[entries[i0].key.name()] == entries[i0].op);
        assert(table(rest)[rest[i].key.name()] == rest[i].op);
    }
    assert(table(rest) =~= table(entries).remove(gone));
}

impl<K: CoalescingKey, Op> View for CoalescingService<K, Op> {
    type V = ServiceView<K::Name, Op>;

    closed spec fn view(&self) -> ServiceView<K::Name, Op> {
        ServiceView {
            pending: table(self.in_flight@),
            stats: self.stats@,
            timeout: self.timeout,
        }
    }
}

impl<K: CoalescingKey, Op> CoalescingService<K, Op> {
    #[verifier::type_invariant]
    spec fn well_formed(self) -> bool {
        distinct(self.in_flight@)
    }

    /// Create a new CoalescingService without a global timeout.
    pub fn new() -> (service: Self)
        ensures
            service@ == ServiceView::<K::Name, Op>::fresh(None),
    {
        CoalescingService {
            in_flight: Vec::new(),
            timeout: None,
            stats: CoalescingStats::default(),
        }
    }

    /// Create a new CoalescingService with a global operation timeout.
    /// Operations taking longer than this duration will fail with a timeout error.
    pub fn with_timeout(timeout: Duration) -> (service: Self)
        ensures
            service@ == ServiceView::<K::Name, Op>::fresh(Some(timeout)),
    {
        CoalescingService {
            in_flight: Vec::new(),
            timeout: Some(timeout),
            stats: CoalescingStats::default(),
        }
    }

    /// The place of the entry for `key`.
    fn position(&self, key: &K) -> (place: Option<usize>)
        ensures
            match place {
                Some(at) => at < self.in_flight@.len() && self.in_flight@[at as int].key.name()
                    == key.name(),
                None => !self@.pending.contains_key(key.name()),
            },
    {
        proof {
            use_type_invariant(self);
            lemma_table(self.in_flight@);
        }
        let mut i: usize = 0;
        while i < self.in_flight.len()
            invariant
                i <= self.in_flight@.len(),
                forall|j: int|
                    0 <= j < i ==> (#[trigger] self.in_flight@[j]).key.name() != key.name(),
            decreases self.in_flight@.len() - i,
        {
            if self.in_flight[i].key.same(key) {
                return Some(i);
            }
            i = i + 1;
        }
        None
    }

    /// Whether an operation for `key` is in flight.
    pub fn is_in_flight(&self, key: &K) -> (found: bool)
        ensures
            found == self@.pending.contains_key(key.name()),
    {
        proof {
            use_type_invariant(self);
            lemma_table(self.in_flight@);
        }
        self.position(key).is_some()
    }

    /// Takes a request for `key`.
    ///
    /// If another request for the same `key` is already in progress, this call hands out
    /// a handle of that ongoing operation instead of starting a new one. Otherwise the
    /// operation behind `op` is entered as the one in flight for `key`.
    pub fn execute(&mut self, key: K, op: Op) -> (execution: Execution<Op>) where Op: Clone
        requires
            old(self)@.pending.contains_key(key.name()) ==> old(self)@.stats.coalesced
                < usize::MAX,
            !old(self)@.pending.contains_key(key.name()) ==> old(self)@.stats.initiated
                < usize::MAX,
        ensures
            final(self)@ == old(self)@.after_request(key.name(), op),
            match execution {
                Execution::Coalesced(handle) => old(self)@.pending.contains_key(key.name())
                    && cloned(old(self)@.pending[key.name()], handle),
                Execution::Initiated => !old(self)@.pending.contains_key(key.name()),
            },
    {
        proof {
            use_type_invariant(&*self);
            lemma_table(self.in_flight@);
        }
        match self.position(&key) {
            Some(at) => {
                self.stats.coalesced_requests = self.stats.coalesced_requests + 1;
                Execution::Coalesced(self.in_flight[at].op.clone())
            },
            None => {
                self.stats.initiated_operations = self.stats.initiated_operations + 1;
                let mut entries: Vec<InFlight<K, Op>> = Vec::new();
                std::mem::swap(&mut entries, &mut self.in_flight);
                let ghost before = entries@;
                entries.push(InFlight { key, op });
                proof {
                    assert(entries@.drop_last() =~= before);
                    assert forall|i: int, j: int| 0 <= i < j < entries@.len() implies (
                    #[trigger] entries@[i]).key.name() != (#[trigger] entries@[j]).key.name() by {
                        assert(entries@[i] == before[i]);
                        if j < before.len() {
                            assert(entries@[j] == before[j]);
                        } else {
                            assert(table(before).contains_key(before[i].key.name()));
                        }
                    }
                }
                self.in_flight = entries;
                Execution::Initiated
            },
        }
    }

    /// Takes the operation for `key` out of the table, where there is one.
    pub fn release(&mut self, key: &K)
        ensures
            final(self)@ == old(self)@.after_release(key.name()),
    {
        proof {
            use_type_invariant(&*self);
            lemma_table(self.in_flight@);
        }
        match self.position(key) {
            Some(at) => {
                let mut entries: Vec<InFlight<K, Op>> = Vec::new();
                std::mem::swap(&mut entries, &mut self.in_flight);
                proof {
                    lemma_table_remove(entries@, at as int);
                }
                let _ = entries.remove(at);
                self.in_flight = entries;
            },
            None => {
                assert(self@.pending.remove(key.name()) =~= self@.pending);
            },
        }
    }

    /// Ends the operation for `key`: takes it out of the table, counts how it ended, and
    /// returns what everybody who waited for it receives. `key_text` is the key as it is
    /// to be shown in the error for a timeout.
    pub fn finish<T, E>(&mut self, key: &K, key_text: &str, outcome: Outcome<T, E>) -> (result:
        Result<Arc<T>, Arc<OperationError<E>>>)
        requires
            verdict(outcome) is Failure ==> old(self)@.stats.failed < usize::MAX,
            verdict(outcome) is Timeout ==> old(self)@.stats.timed_out < usize::MAX,
        ensures
            final(self)@ == old(self)@.after_finish(key.name(), verdict(outcome)),
            is_result_of(result, outcome, key_text@),
    {
        self.release(key);
        proof {
            use_type_invariant(&*self);
        }
        match outcome {
            Outcome::Completed(value) => Ok(Arc::new(value)),
            Outcome::Failed(error) => {
                self.stats.failed_operations = self.stats.failed_operations + 1;
                Err(Arc::new(OperationError::Operation(error)))
            },
            Outcome::TimedOut => {
                self.stats.timed_out_operations = self.stats.timed_out_operations + 1;
                Err(
                    Arc::new(
                        OperationError::TimedOut(join("Operation timed out for key: ", key_text)),
                    ),
                )
            },
        }
    }

    /// The time that an operation may take, where there is a limit.
    pub fn get_timeout(&self) -> (timeout: Option<Duration>)
        ensures
            timeout == self@.timeout,
    {
        self.timeout
    }

    /// Get a snapshot of the current statistics.
    pub fn get_stats(&self) -> (stats: CoalescingStats)
        ensures
            stats@ == self@.stats,
    {
        self.stats
    }

    /// Get the number of distinct keys whose operations are currently in flight.
    pub fn get_pending_tasks_count(&self) -> (count: usize)
        ensures
            count == self@.pending.dom().len(),
            self@.pending.dom().finite(),
    {
        proof {
            use_type_invariant(self);
            lemma_table(self.in_flight@);
        }
        self.in_flight.len()
    }

    /// Reset all statistics to zero.
    pub fn reset_stats(&mut self)
        ensures
            final(self)@ == old(self)@.after_reset(),
    {
        proof {
            use_type_invariant(&*self);
        }
        self.stats = CoalescingStats::default();
    }
}

impl<K: CoalescingKey, Op> Default for CoalescingService<K, Op> {
    fn default() -> (service: Self)
        ensures
            service@ == ServiceView::<K::Name, Op>::fresh(None),
    {
        Self::new()
    }
}

/// Hands one shared result to one of those who waited for it, without copying the value
/// or the error.
pub fn share_result<T, E>(shared: &Arc<Result<Arc<T>, Arc<E>>>) -> (result: Result<
    Arc<T>,
    Arc<E>,
>)
    ensures
        result == **shared,
{
    match &**shared {
        Ok(value) => Ok(Arc::clone(value)),
        Err(error) => Err(Arc::clone(error)),
    }
}

} // verus!
