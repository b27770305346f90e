//! The bookkeeping of a scan: which targets were submitted, and for which of
//! them an event has been emitted.
//!
//! The coordinator runs nothing itself. Whoever runs the probes submits each
//! target, gets a task number for it, and hands every completion back under
//! that number, in whatever order the probes end. The coordinator answers each
//! completion with the event to report, once per task, and knows when every
//! task has been answered.

use crate::probe::{check_target, status_of, ProbeOutcome, ScanResult};
use crate::target::Target;
use vstd::prelude::*;

verus! {

/// How a unit of work ended without a result of its own.
#[derive(Clone, Copy, Debug, PartialEq, Eq, Structural)]
pub enum TaskFailure {
    /// The unit of work panicked.
    Panicked,
    /// The unit of work was cancelled.
    Cancelled,
}

/// How the unit of work for one target ended.
#[derive(Clone, Copy, Debug, PartialEq, Eq, Structural)]
pub enum Completion {
    /// The probe ran, and its one connection attempt ended so.
    Probed(ProbeOutcome),
    /// The unit of work did not run to its end.
    Failed(TaskFailure),
}

/// What is reported for one target.
#[derive(Clone, Copy, Debug, PartialEq, Eq, Structural)]
pub enum ScanEvent {
    /// The classified result of the probe.
    Result(ScanResult),
    /// The probe of this target did not run to its end. The scan goes on.
    TaskFailed(Target, TaskFailure),
}

/// Why a completion was not accepted.
#[derive(Clone, Copy, Debug, PartialEq, Eq, Structural)]
pub enum CoordinatorError {
    /// No task has this number.
    UnknownTask,
    /// The task has had its event before.
    AlreadyReported,
}

/// The event for `target` whose unit of work ended as `completion`.
pub open spec fn event_of(target: Target, completion: Completion) -> ScanEvent {
    match completion {
        Completion::Probed(outcome) => ScanEvent::Result(
            ScanResult { endpoint: target, status: status_of(outcome) },
        ),
        Completion::Failed(failure) => ScanEvent::TaskFailed(target, failure),
    }
}

/// The number of `true` in `reported`.
pub open spec fn reported_count(reported: Seq<bool>) -> nat
    decreases reported.len(),
{
    if reported.len() == 0 {
        0
    } else {
        reported_count(reported.drop_last()) + if reported.last() {
            1nat
        } else {
            0nat
        }
    }
}

/// The state of a scan: the targets by task number, and for each whether its
/// event has been emitted.
pub struct CoordinatorState {
    pub targets: Seq<Target>,
    pub reported: Seq<bool>,
}

impl CoordinatorState {
    pub open spec fn wf(self) -> bool {
        self.targets.len() == self.reported.len()
    }

    /// The state in which `targets` are submitted and nothing has completed.
    pub open spec fn fresh(targets: Seq<Target>) -> CoordinatorState {
        CoordinatorState { targets, reported: Seq::new(targets.len(), |i: int| false) }
    }

    /// The state after `target` is submitted: it gets the next task number.
    pub open spec fn submit(self, target: Target) -> CoordinatorState {
        CoordinatorState {
            targets: self.targets.push(target),
            reported: self.reported.push(false),
        }
    }

    /// Whether a completion of `task` is answered with an event.
    pub open spec fn accepts(self, task: int) -> bool {
        0 <= task < self.targets.len() && !self.reported[task]
    }

    /// The state after a completion of `task` comes in.
    pub open spec fn complete(self, task: int) -> CoordinatorState {
        if self.accepts(task) {
            CoordinatorState { targets: self.targets, reported: self.reported.update(task, true) }
        } else {
            self
        }
    }

    /// The number of events emitted so far.
    pub open spec fn emitted(self) -> nat {
        reported_count(self.reported)
    }

    /// Whether every submitted target has had its event.
    pub open spec fn finished(self) -> bool {
        forall|task: int| 0 <= task < self.targets.len() ==> #[trigger] self.reported[task]
    }

    /// The state after completions of the tasks in `order` come in, one after
    /// the other.
    pub open spec fn after(self, order: Seq<int>) -> CoordinatorState
        decreases order.len(),
    {
        if order.len() == 0 {
            self
        } else {
            self.after(order.drop_last()).complete(order.last())
        }
    }
}

/// No more events are counted than there are tasks; all are counted exactly
/// when every task is reported.
pub proof fn lemma_reported_count(reported: Seq<bool>)
    ensures
        reported_count(reported) <= reported.len(),
        reported_count(reported) == reported.len() <==> forall|i: int|
            0 <= i < reported.len() ==> #[trigger] reported[i],
    decreases reported.len(),
{
    if reported.len() > 0 {
        let front = reported.drop_last();
        lemma_reported_count(front);
        if reported_count(reported) == reported.len() {
            assert forall|i: int| 0 <= i < reported.len() implies #[trigger] reported[i] by {
                if i < front.len() {
                    assert(front[i]);
                }
            }
        }
        if forall|i: int| 0 <= i < reported.len() ==> #[trigger] reported[i] {
            assert forall|i: int| 0 <= i < front.len() implies #[trigger] front[i] by {
                assert(reported[i]);
            }
        }
    }
}

/// Reporting one more task counts one more event.
pub proof fn lemma_reported_count_update(reported: Seq<bool>, task: int)
    requires
        0 <= task < reported.len(),
        !reported[task],
    ensures
        reported_count(reported.update(task, true)) == reported_count(reported) + 1,
    decreases reported.len(),
{
    let updated = reported.update(task, true);
    if task == reported.len() - 1 {
        assert(updated.drop_last() =~= reported.drop_last());
    } else {
        lemma_reported_count_update(reported.drop_last(), task);
        assert(updated.drop_last() =~= reported.drop_last().update(task, true));
    }
}

/// A task that is submitted later does not change the count.
pub proof fn lemma_reported_count_push(reported: Seq<bool>)
    ensures
        reported_count(reported.push(false)) == reported_count(reported),
{
    assert(reported.push(false).drop_last() =~= reported);
}

/// One completion gives one event or none: an accepted completion raises the
/// number of emitted events by one and is not accepted a second time; a
/// completion that is not accepted changes nothing.
pub proof fn lemma_one_event_per_task(state: CoordinatorState, task: int)
    requires
        state.wf(),
    ensures
        state.complete(task).wf(),
        state.complete(task).targets == state.targets,
        state.accepts(task) ==> state.complete(task).emitted() == state.emitted() + 1,
        !state.accepts(task) ==> state.complete(task) == state,
        !state.complete(task).accepts(task),
{
    if state.accepts(task) {
        lemma_reported_count_update(state.reported, task);
    }
}

/// A scan is finished exactly when as many events were emitted as targets
/// were submitted.
pub proof fn lemma_finished_when_all_emitted(state: CoordinatorState)
    requires
        state.wf(),
    ensures
        state.emitted() <= state.targets.len(),
        state.finished() <==> state.emitted() == state.targets.len(),
{
    lemma_reported_count(state.reported);
}

/// After the first `k` completions of `order`, in which no task comes twice,
/// exactly the tasks among them are reported, and `k` events were emitted.
pub proof fn lemma_after_prefix(targets: Seq<Target>, order: Seq<int>, k: int)
    requires
        0 <= k <= order.len(),
        order.no_duplicates(),
        forall|m: int| 0 <= m < order.len() ==> 0 <= #[trigger] order[m] < targets.len(),
    ensures
        CoordinatorState::fresh(targets).after(order.take(k)).wf(),
        CoordinatorState::fresh(targets).after(order.take(k)).targets == targets,
        CoordinatorState::fresh(targets).after(order.take(k)).emitted() == k,
        forall|task: int|
            0 <= task < targets.len() ==> (#[trigger] CoordinatorState::fresh(targets).after(
                order.take(k),
            ).reported[task] <==> order.take(k).contains(task)),
    decreases k,
{
    let fresh = CoordinatorState::fresh(targets);
    let prefix = order.take(k);
    if k == 0 {
        assert(reported_count(fresh.reported) == 0) by {
            lemma_all_false_count(fresh.reported);
        }
    } else {
        let earlier = order.take(k - 1);
        let before = fresh.after(earlier);
        let task = order[k - 1];
        lemma_after_prefix(targets, order, k - 1);
        assert(prefix.drop_last() =~= earlier);
        assert(prefix.last() == task);
        assert(!earlier.contains(task)) by {
            if earlier.contains(task) {
                let m = choose|m: int| 0 <= m < earlier.len() && #[trigger] earlier[m] == task;
                assert(order[m] == order[k - 1]);
            }
        }
        assert(before.accepts(task));
        lemma_one_event_per_task(before, task);
        let now = before.complete(task);
        assert(fresh.after(prefix) == now);
        assert forall|t: int| 0 <= t < targets.len() implies (#[trigger] now.reported[t]
            <==> prefix.contains(t)) by {
            if t == task {
                assert(prefix[k - 1] == task);
            } else {
                if earlier.contains(t) {
                    let m = choose|m: int| 0 <= m < earlier.len() && #[trigger] earlier[m] == t;
                    assert(prefix[m] == t);
                }
                if prefix.contains(t) {
                    let m = choose|m: int| 0 <= m < prefix.len() && #[trigger] prefix[m] == t;
                    assert(earlier[m] == t);
                }
            }
        }
    }
}

/// Where nothing is reported, nothing is counted.
pub proof fn lemma_all_false_count(reported: Seq<bool>)
    requires
        forall|i: int| 0 <= i < reported.len() ==> !#[trigger] reported[i],
    ensures
        reported_count(reported) == 0,
    decreases reported.len(),
{
    if reported.len() > 0 {
        let front = reported.drop_last();
        assert forall|i: int| 0 <= i < front.len() implies !#[trigger] front[i] by {
            assert(front[i] == reported[i]);
        }
        lemma_all_false_count(front);
    }
}

/// A batch of targets whose completions come in any order, each task once,
/// gets one event for each completion as it comes in, as many events as
/// targets in the end, and is then finished: no target goes without its
/// event and none gets two.
pub proof fn lemma_batch_completes(targets: Seq<Target>, order: Seq<int>)
    requires
        order.len() == targets.len(),
        order.no_duplicates(),
        forall|m: int| 0 <= m < order.len() ==> 0 <= #[trigger] order[m] < targets.len(),
    ensures
        forall|k: int|
            0 <= k < order.len() ==> #[trigger] CoordinatorState::fresh(targets).after(
                order.take(k),
            ).accepts(order[k]),
        CoordinatorState::fresh(targets).after(order).emitted() == targets.len(),
        CoordinatorState::fresh(targets).after(order).finished(),
        forall|task: int| !CoordinatorState::fresh(targets).after(order).accepts(task),
{
    let fresh = CoordinatorState::fresh(targets);
    assert forall|k: int| 0 <= k < order.len() implies #[trigger] fresh.after(
        order.take(k),
    ).accepts(order[k]) by {
        lemma_after_prefix(targets, order, k);
        let earlier = order.take(k);
        if earlier.contains(order[k]) {
            let m = choose|m: int| 0 <= m < earlier.len() && #[trigger] earlier[m] == order[k];
            assert(order[m] == order[k]);
        }
    }
    lemma_after_prefix(targets, order, order.len() as int);
    assert(order.take(order.len() as int) =~= order);
    lemma_finished_when_all_emitted(fresh.after(order));
}

/// Keeps the books of one scan.
pub struct ScanCoordinator {
    targets: Vec<Target>,
    reported: Vec<bool>,
    emitted: usize,
}

impl View for ScanCoordinator {
    type V = CoordinatorState;

    closed spec fn view(&self) -> CoordinatorState {
        CoordinatorState { targets: self.targets@, reported: self.reported@ }
    }
}

impl ScanCoordinator {
    /// What `new` establishes and every method keeps: the books agree with
    /// each other.
    pub closed spec fn wf(&self) -> bool {
        &&& self.targets.len() == self.reported.len()
        &&& self.emitted == reported_count(self.reported@)
    }

    /// A scan without targets.
    pub fn new() -> (r: ScanCoordinator)
        ensures
            r.wf(),
            r@.wf(),
            r@ == CoordinatorState::fresh(Seq::empty()),
    {
        let r = ScanCoordinator { targets: Vec::new(), reported: Vec::new(), emitted: 0 };
        assert(r@.reported =~= CoordinatorState::fresh(Seq::empty()).reported);
        r
    }

    /// Submits `target` and returns its task number.
    pub fn submit(&mut self, target: Target) -> (task: usize)
        requires
            old(self).wf(),
        ensures
            final(self).wf(),
            final(self)@.wf(),
            final(self)@ == old(self)@.submit(target),
            task == old(self)@.targets.len(),
            final(self)@.targets[task as int] == target,
    {
        proof {
            lemma_reported_count_push(self.reported@);
        }
        let task = self.targets.len();
        self.targets.push(target);
        self.reported.push(false);
        task
    }

    /// Takes the completion of `task` and returns the event to report for it.
    ///
    /// Every task is answered once: a number that no task has is an
    /// `UnknownTask`, a second completion of a task is `AlreadyReported`, and
    /// neither changes anything.
    pub fn complete(&mut self, task: usize, completion: Completion) -> (r: Result<
        ScanEvent,
        CoordinatorError,
    >)
        requires
            old(self).wf(),
        ensures
            final(self).wf(),
            final(self)@.wf(),
            final(self)@ == old(self)@.complete(task as int),
            old(self)@.accepts(task as int) ==> r == Ok::<ScanEvent, CoordinatorError>(
                event_of(old(self)@.targets[task as int], completion),
            ),
            task >= old(self)@.targets.len() ==> r == Err::<ScanEvent, CoordinatorError>(
                CoordinatorError::UnknownTask,
            ),
            task < old(self)@.targets.len() && old(self)@.reported[task as int] ==> r == Err::<
                ScanEvent,
                CoordinatorError,
            >(CoordinatorError::AlreadyReported),
    {
        if task >= self.targets.len() {
            return Err(CoordinatorError::UnknownTask);
        }
        if self.reported[task] {
            return Err(CoordinatorError::AlreadyReported);
        }
        proof {
            lemma_reported_count_update(self.reported@, task as int);
            lemma_reported_count(self.reported@.update(task as int, true));
        }
        let target = self.targets[task];
        self.reported.set(task, true);
        self.emitted = self.emitted + 1;
        let event = match completion {
            Completion::Probed(outcome) => ScanEvent::Result(check_target(target, outcome)),
            Completion::Failed(failure) => ScanEvent::TaskFailed(target, failure),
        };
        Ok(event)
    }

    /// The number of targets submitted so far.
    pub fn submitted(&self) -> (n: usize)
        requires
            self.wf(),
        ensures
            n == self@.targets.len(),
    {
        self.targets.len()
    }

    /// The number of events emitted so far.
    pub fn emitted(&self) -> (n: usize)
        requires
            self.wf(),
        ensures
            n == self@.emitted(),
            n <= self@.targets.len(),
    {
        proof {
            lemma_reported_count(self.reported@);
        }
        self.emitted
    }

    /// Whether every submitted target has had its event: the scan is over.
    pub fn is_finished(&self) -> (r: bool)
        requires
            self.wf(),
        ensures
            r == self@.finished(),
            r == (self@.emitted() == self@.targets.len()),
    {
        proof {
            lemma_finished_when_all_emitted(self@);
        }
        self.emitted == self.targets.len()
    }
}

} // verus!
