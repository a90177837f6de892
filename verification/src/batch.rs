use vstd::prelude::*;

use crate::address::Address;
use crate::flash_loan::GuardedConfig;
use crate::token::address_view;

verus! {

/// Why a batch-executor operation was refused. A refusal leaves the state as it was.
#[derive(Debug, Clone, Copy, PartialEq, Eq, Structural)]
pub enum BatchError {
    /// `initialize` on an executor that already has an administrator.
    AlreadyInitialized,
    /// `set_registry` before `initialize`.
    NotInitialized,
    /// The security registry reports the system as paused.
    SystemPaused,
    /// An event that does not answer the action a batch last asked for.
    OutOfOrder,
}

/// Runs a list of contract calls in one transaction, after the system-wide
/// pause check. The value holds the executor's storage; a batch in progress
/// is a [`BatchRun`], whose caller makes the calls into other contracts that
/// it asks for.
pub struct BatchExecutor {
    admin: Option<Address>,
    registry: Option<Address>,
}

impl View for BatchExecutor {
    type V = GuardedConfig;

    closed spec fn view(&self) -> GuardedConfig {
        GuardedConfig { admin: address_view(self.admin), registry: address_view(self.registry) }
    }
}

impl BatchExecutor {
    /// Rebuilds the contract from its stored parts.
    pub fn from_parts(admin: Option<Address>, registry: Option<Address>) -> (r: BatchExecutor)
        ensures
            r@.admin == address_view(admin),
            r@.registry == address_view(registry),
    {
        BatchExecutor { admin, registry }
    }

    /// An executor with empty storage.
    pub fn new() -> (r: BatchExecutor)
        ensures
            r@.admin is None,
            r@.registry is None,
    {
        BatchExecutor { admin: None, registry: None }
    }

    /// Records the administrator; refused when one is already set.
    pub fn initialize(&mut self, admin: Address) -> (r: Result<(), BatchError>)
        ensures
            old(self)@.admin is Some ==> r == Err::<(), BatchError>(BatchError::AlreadyInitialized)
                && final(self)@ == old(self)@,
            old(self)@.admin is None ==> r is Ok && final(self)@.admin == Some(admin@)
                && final(self)@.registry == old(self)@.registry,
    {
        if self.admin.is_some() {
            return Err(BatchError::AlreadyInitialized);
        }
        self.admin = Some(admin);
        Ok(())
    }

    /// The administrator, once set; it must authorize `set_registry`.
    pub fn admin(&self) -> (r: Option<&Address>)
        ensures
            match r {
                Some(a) => self@.admin == Some(a@),
                None => self@.admin is None,
            },
    {
        match &self.admin {
            Some(a) => Some(a),
            None => None,
        }
    }

    /// Records the security registry to consult; needs an administrator.
    pub fn set_registry(&mut self, registry: Address) -> (r: Result<(), BatchError>)
        ensures
            old(self)@.admin is None ==> r == Err::<(), BatchError>(BatchError::NotInitialized)
                && final(self)@ == old(self)@,
            old(self)@.admin is Some ==> r is Ok && final(self)@.registry == Some(registry@)
                && final(self)@.admin == old(self)@.admin,
    {
        if self.admin.is_none() {
            return Err(BatchError::NotInitialized);
        }
        self.registry = Some(registry);
        Ok(())
    }

    /// The security registry to consult before a batch, if any.
    pub fn registry(&self) -> (r: &Option<Address>)
        ensures
            address_view(*r) == self@.registry,
    {
        &self.registry
    }

    /// Starts a batch of `calls` calls with this executor's configuration:
    /// the registry, when one is set, is asked first.
    pub fn begin_batch<R>(&self, calls: usize) -> (r: (BatchRun<R>, BatchAction))
        ensures
            r.0@.0 == calls,
            r.0@.1 == Seq::<R>::empty(),
            (r.0@.2, r.1) == batch_begin(self@.registry is Some, calls),
    {
        BatchRun::begin(self.registry.is_some(), calls)
    }
}

/// What a batch in progress waits for.
#[derive(Debug, Clone, Copy, PartialEq, Eq, Structural)]
pub enum BatchStage {
    /// The registry's answer to whether the system is paused.
    AwaitingPauseAnswer,
    /// The result of the call it asked for last.
    Running,
    /// Nothing: the batch finished or was refused.
    Closed,
}

/// What the caller reports back after carrying out a [`BatchAction`]; `R` is
/// what a contract call returns.
pub enum BatchEvent<R> {
    /// The registry answered whether the system is paused.
    PauseAnswer(bool),
    /// The call asked for returned this value.
    Returned(R),
}

/// What a batch asks its caller to do next.
#[derive(Debug, Clone, Copy, PartialEq, Eq, Structural)]
pub enum BatchAction {
    /// Ask the configured registry whether the system is paused.
    AskRegistry,
    /// Make the call at this position of the batch.
    Invoke(usize),
    /// Every call returned: the results are complete.
    Finish,
    /// The batch is refused and the whole transaction reverts.
    Fail(BatchError),
}

/// After the pause check, or after a call returned: the next call, or the
/// end of the batch once `done` holds a result for each of the `calls` calls.
pub open spec fn batch_next(calls: usize, done_len: nat) -> (BatchStage, BatchAction) {
    if done_len < calls {
        (BatchStage::Running, BatchAction::Invoke(done_len as usize))
    } else {
        (BatchStage::Closed, BatchAction::Finish)
    }
}

/// How a batch of `calls` calls starts: with the pause check when a
/// registry is configured.
pub open spec fn batch_begin(registry_configured: bool, calls: usize) -> (BatchStage, BatchAction) {
    if registry_configured {
        (BatchStage::AwaitingPauseAnswer, BatchAction::AskRegistry)
    } else {
        batch_next(calls, 0)
    }
}

/// One step of a batch of `calls` calls that holds the results `done` and
/// waits in `stage`, on event `e`: the next stage, the results, and the next
/// action.
pub open spec fn batch_step<R>(calls: usize, done: Seq<R>, stage: BatchStage, e: BatchEvent<R>) -> (
    BatchStage,
    Seq<R>,
    BatchAction,
) {
    match stage {
        BatchStage::AwaitingPauseAnswer => match e {
            BatchEvent::PauseAnswer(paused) => if paused {
                (BatchStage::Closed, done, BatchAction::Fail(BatchError::SystemPaused))
            } else {
                let (s, a) = batch_next(calls, done.len());
                (s, done, a)
            },
            _ => (BatchStage::Closed, done, BatchAction::Fail(BatchError::OutOfOrder)),
        },
        BatchStage::Running => match e {
            BatchEvent::Returned(v) => {
                let (s, a) = batch_next(calls, done.len() + 1);
                (s, done.push(v), a)
            },
            _ => (BatchStage::Closed, done, BatchAction::Fail(BatchError::OutOfOrder)),
        },
        BatchStage::Closed => (BatchStage::Closed, done, BatchAction::Fail(BatchError::OutOfOrder)),
    }
}

/// A batch in progress: `R` is what a contract call returns. It decides each
/// step and collects the results; its caller performs the action asked for
/// and reports the outcome with [`BatchRun::step`].
pub struct BatchRun<R> {
    calls: usize,
    results: Vec<R>,
    stage: BatchStage,
}

impl<R> View for BatchRun<R> {
    /// The number of calls, the results so far, and the stage.
    type V = (usize, Seq<R>, BatchStage);

    closed spec fn view(&self) -> (usize, Seq<R>, BatchStage) {
        (self.calls, self.results@, self.stage)
    }
}

impl<R> BatchRun<R> {
    /// At most one result per call; while running, a result is still owed.
    #[verifier::type_invariant]
    closed spec fn results_owed(&self) -> bool {
        &&& self.results.len() <= self.calls
        &&& self.stage == BatchStage::Running ==> self.results.len() < self.calls
    }

    fn next(calls: usize, results: Vec<R>) -> (r: (BatchRun<R>, BatchAction))
        requires
            results.len() <= calls,
        ensures
            r.0@.0 == calls,
            r.0@.1 == results@,
            (r.0@.2, r.1) == batch_next(calls, results.len() as nat),
    {
        let n = results.len();
        if n < calls {
            (BatchRun { calls, results, stage: BatchStage::Running }, BatchAction::Invoke(n))
        } else {
            (BatchRun { calls, results, stage: BatchStage::Closed }, BatchAction::Finish)
        }
    }

    /// Starts a batch of `calls` calls; `registry_configured` says whether a
    /// security registry must be asked first.
    pub fn begin(registry_configured: bool, calls: usize) -> (r: (BatchRun<R>, BatchAction))
        ensures
            r.0@.0 == calls,
            r.0@.1 == Seq::<R>::empty(),
            (r.0@.2, r.1) == batch_begin(registry_configured, calls),
    {
        if registry_configured {
            (
                BatchRun { calls, results: Vec::new(), stage: BatchStage::AwaitingPauseAnswer },
                BatchAction::AskRegistry,
            )
        } else {
            BatchRun::next(calls, Vec::new())
        }
    }

    /// Takes the outcome of the last action and decides the next one.
    pub fn step(&mut self, e: BatchEvent<R>) -> (a: BatchAction)
        ensures
            final(self)@.0 == old(self)@.0,
            (final(self)@.2, final(self)@.1, a) == batch_step(old(self)@.0, old(self)@.1, old(self)@.2, e),
    {
        proof {
            use_type_invariant(&*self);
        }
        let calls = self.calls;
        let stage = self.stage;
        let mut results: Vec<R> = Vec::new();
        std::mem::swap(&mut results, &mut self.results);
        let (next, action) = match stage {
            BatchStage::AwaitingPauseAnswer => match e {
                BatchEvent::PauseAnswer(paused) => {
                    if paused {
                        (
                            BatchRun { calls, results, stage: BatchStage::Closed },
                            BatchAction::Fail(BatchError::SystemPaused),
                        )
                    } else {
                        BatchRun::next(calls, results)
                    }
                },
                BatchEvent::Returned(_) => (
                    BatchRun { calls, results, stage: BatchStage::Closed },
                    BatchAction::Fail(BatchError::OutOfOrder),
                ),
            },
            BatchStage::Running => match e {
                BatchEvent::Returned(v) => {
                    let mut results = results;
                    results.push(v);
                    BatchRun::next(calls, results)
                },
                BatchEvent::PauseAnswer(_) => (
                    BatchRun { calls, results, stage: BatchStage::Closed },
                    BatchAction::Fail(BatchError::OutOfOrder),
                ),
            },
            BatchStage::Closed => (
                BatchRun { calls, results, stage: BatchStage::Closed },
                BatchAction::Fail(BatchError::OutOfOrder),
            ),
        };
        *self = next;
        action
    }

    /// The results collected, one per returned call, in the order of the
    /// calls.
    pub fn into_results(self) -> (r: Vec<R>)
        ensures
            r@ == self@.1,
    {
        self.results
    }
}

/// A batch of `calls` calls after it received `events` in order: the stage
/// it waits in, the results collected, and every action it asked for, the
/// first one at its start.
pub open spec fn batch_run<R>(registry_configured: bool, calls: usize, events: Seq<BatchEvent<R>>) -> (
    BatchStage,
    Seq<R>,
    Seq<BatchAction>,
)
    decreases events.len(),
{
    if events.len() == 0 {
        let (s, a) = batch_begin(registry_configured, calls);
        (s, Seq::empty(), seq![a])
    } else {
        let (s, done, acts) = batch_run(registry_configured, calls, events.drop_last());
        let (s2, done2, a2) = batch_step(calls, done, s, events.last());
        (s2, done2, acts.push(a2))
    }
}

/// The events of a batch up to a passed pause check: the registry's "not
/// paused" when a registry is configured, nothing otherwise.
pub open spec fn batch_pause_passed<R>(registry_configured: bool) -> Seq<BatchEvent<R>> {
    if registry_configured {
        seq![BatchEvent::PauseAnswer(false)]
    } else {
        Seq::empty()
    }
}

/// The events that report the results `done`, one per call, in order.
pub open spec fn returned_events<R>(done: Seq<R>) -> Seq<BatchEvent<R>> {
    done.map_values(|v: R| BatchEvent::Returned(v))
}

/// A running batch, or one that finished, was reached by exactly one history:
/// the pause check passed, then one returned call per result; and the calls
/// were asked for in order.
proof fn lemma_batch_histories<R>(rc: bool, calls: usize, events: Seq<BatchEvent<R>>)
    ensures
        ({
            let (s, done, acts) = batch_run(rc, calls, events);
            let p = batch_pause_passed::<R>(rc);
            let n = p.len() as int;
            &&& acts.len() == events.len() + 1
            &&& done.len() <= calls
            &&& s == BatchStage::AwaitingPauseAnswer ==> rc && events.len() == 0 && done.len() == 0
            &&& (s == BatchStage::Running || acts.last() == BatchAction::Finish) ==> {
                &&& events == p + returned_events(done)
                &&& forall|j: int|
                    n <= j < n + done.len() ==> #[trigger] acts[j] == BatchAction::Invoke((j - n) as usize)
                &&& s == BatchStage::Running ==> done.len() < calls && acts.last()
                    == BatchAction::Invoke(done.len() as usize)
                &&& acts.last() == BatchAction::Finish ==> done.len() == calls && acts.len() == n + calls + 1
            }
        }),
    decreases events.len(),
{
    let p = batch_pause_passed::<R>(rc);
    if events.len() == 0 {
        assert(returned_events(Seq::<R>::empty()) == Seq::<BatchEvent<R>>::empty());
        assert(p + Seq::<BatchEvent<R>>::empty() == p);
    } else {
        let prev = events.drop_last();
        lemma_batch_histories(rc, calls, prev);
        assert(events == prev.push(events.last()));
        let (s0, d0, acts0) = batch_run(rc, calls, prev);
        let (s, done, acts) = batch_run(rc, calls, events);
        assert(acts == acts0.push(acts.last()));
        if s0 == BatchStage::AwaitingPauseAnswer {
            assert(returned_events(d0) == Seq::<BatchEvent<R>>::empty());
            assert(p + returned_events(d0) == p);
        }
        if s0 == BatchStage::Running {
            match events.last() {
                BatchEvent::Returned(v) => {
                    assert(done == d0.push(v));
                    assert(returned_events(done) == returned_events(d0).push(BatchEvent::Returned(v)));
                    assert(p + returned_events(done) == (p + returned_events(d0)).push(
                        BatchEvent::Returned(v),
                    ));
                },
                _ => {},
            }
        }
    }
}

/// A batch finishes only when every call of it returned: its results are
/// the returned values, one per call and in the order of the calls; the calls
/// were asked for one by one from the first to the last, after the pause
/// check passed when a registry is configured.
pub proof fn finished_batches_hold_every_result_in_order<R>(
    registry_configured: bool,
    calls: usize,
    events: Seq<BatchEvent<R>>,
)
    requires
        batch_run(registry_configured, calls, events).2.last() == BatchAction::Finish,
    ensures
        ({
            let (s, done, acts) = batch_run(registry_configured, calls, events);
            let p = batch_pause_passed::<R>(registry_configured);
            let n = p.len() as int;
            &&& done.len() == calls
            &&& events == p + returned_events(done)
            &&& acts.len() == n + calls + 1
            &&& registry_configured ==> acts[0] == BatchAction::AskRegistry
            &&& forall|j: int|
                n <= j < n + calls ==> #[trigger] acts[j] == BatchAction::Invoke((j - n) as usize)
        }),
{
    lemma_batch_histories(registry_configured, calls, events);
    lemma_first_action(registry_configured, calls, events);
}

/// The first action of a batch is its start.
proof fn lemma_first_action<R>(rc: bool, calls: usize, events: Seq<BatchEvent<R>>)
    ensures
        batch_run(rc, calls, events).2.len() >= 1,
        batch_run(rc, calls, events).2[0] == batch_begin(rc, calls).1,
    decreases events.len(),
{
    if events.len() > 0 {
        lemma_first_action(rc, calls, events.drop_last());
    }
}

/// Once the registry answers that the system is paused, the batch closes:
/// no call is made and every later action is a refusal.
pub proof fn a_paused_system_runs_no_call<R>(calls: usize, events: Seq<BatchEvent<R>>)
    requires
        events.len() > 0,
        events[0] == BatchEvent::<R>::PauseAnswer(true),
    ensures
        ({
            let (s, done, acts) = batch_run(true, calls, events);
            &&& s == BatchStage::Closed
            &&& done.len() == 0
            &&& acts.len() == events.len() + 1
            &&& acts[0] == BatchAction::AskRegistry
            &&& forall|i: int| 1 <= i < acts.len() ==> #[trigger] acts[i] is Fail
        }),
    decreases events.len(),
{
    let prev = events.drop_last();
    let (s, done, acts) = batch_run(true, calls, prev);
    if events.len() > 1 {
        assert(prev[0] == events[0]);
        a_paused_system_runs_no_call(calls, prev);
    } else {
        assert(acts == seq![BatchAction::AskRegistry]);
    }
    assert(batch_run(true, calls, events).2 == acts.push(batch_step(calls, done, s, events.last()).2));
}

} // verus!
