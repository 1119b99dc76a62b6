//! The fan-out of probes over a bounded number of workers, and the count of
//! their outcomes.
//!
//! A [`Scheduler`] runs no thread. It decides: [`Scheduler::poll`] says
//! whether to hand the next endpoint to a worker, to wait for a probe in
//! flight, or that the run is over; [`Scheduler::complete`] takes in the
//! outcome of one probe. It never lets more probes be in flight than there are
//! workers, and its result does not depend on their number.

use crate::config::ConfigError;
use crate::probe::ProbeOutcome;
use vstd::prelude::*;

verus! {

/// The aggregate of a run: how many probes were attempted and how many of
/// them succeeded.
#[derive(Clone, Copy, Debug, PartialEq, Eq, Structural)]
pub struct RunResult {
    pub attempted: usize,
    pub succeeded: usize,
}

/// How many of a series of outcomes are successes.
pub open spec fn successes(outcomes: Seq<bool>) -> nat
    decreases outcomes.len(),
{
    if outcomes.len() == 0 {
        0
    } else {
        successes(outcomes.drop_last()) + if outcomes.last() {
            1nat
        } else {
            0nat
        }
    }
}

/// For each outcome of a series, whether it is a success.
pub open spec fn success_flags(outcomes: Seq<ProbeOutcome>) -> Seq<bool> {
    Seq::new(outcomes.len(), |i: int| outcomes[i] is Success)
}

/// Counts the outcomes of a finished run.
pub fn tally(outcomes: &Vec<ProbeOutcome>) -> (result: RunResult)
    ensures
        result.attempted == outcomes@.len(),
        result.succeeded == successes(success_flags(outcomes@)),
        result.succeeded <= result.attempted,
{
    let ghost flags = success_flags(outcomes@);
    let mut succeeded: usize = 0;
    let mut i: usize = 0;
    while i < outcomes.len()
        invariant
            flags == success_flags(outcomes@),
            i <= outcomes.len(),
            succeeded <= i,
            succeeded == successes(flags.subrange(0, i as int)),
        decreases outcomes.len() - i,
    {
        proof {
            assert(flags.subrange(0, i + 1).drop_last() == flags.subrange(0, i as int));
        }
        if outcomes[i].is_success() {
            succeeded = succeeded + 1;
        }
        i = i + 1;
    }
    proof {
        assert(flags.subrange(0, i as int) == flags);
    }
    RunResult { attempted: i, succeeded }
}

/// What the scheduler asks its caller to do.
#[derive(Clone, Copy, Debug, PartialEq, Eq, Structural)]
pub enum Directive {
    /// Hand the endpoint at this position of the list to a worker.
    Dispatch(usize),
    /// Wait until a probe in flight has ended, and report it with
    /// [`Scheduler::complete`].
    Wait,
    /// Every endpoint has been probed: this is the result of the run.
    Done(RunResult),
}

/// The bookkeeping of one run over `total` endpoints with `workers` workers.
pub struct Scheduler {
    total: usize,
    workers: usize,
    dispatched: usize,
    attempted: usize,
    succeeded: usize,
    outcomes: Ghost<Seq<bool>>,
}

/// The state of a run.
pub struct SchedulerView {
    /// The number of endpoints.
    pub total: nat,
    /// The number of workers.
    pub workers: nat,
    /// How many endpoints have been handed to a worker.
    pub dispatched: nat,
    /// Whether each probe that has ended was a success, in the order in
    /// which the probes ended.
    pub outcomes: Seq<bool>,
}

impl SchedulerView {
    /// How many probes have ended.
    pub open spec fn attempted(self) -> nat {
        self.outcomes.len()
    }

    /// How many probes have ended in success.
    pub open spec fn succeeded(self) -> nat {
        successes(self.outcomes)
    }

    /// The number of probes that have been handed out and have not ended.
    pub open spec fn in_flight(self) -> int {
        self.dispatched - self.attempted()
    }

    /// What holds of every run: there is a worker; a probe ends only once
    /// it was handed out, and only endpoints of the list are handed out; and
    /// no more probes are in flight than there are workers.
    pub open spec fn wf(self) -> bool {
        &&& self.workers >= 1
        &&& self.attempted() <= self.dispatched <= self.total
        &&& self.in_flight() <= self.workers
    }

    /// Whether the next endpoint can be handed out: one is left and a worker
    /// is free.
    pub open spec fn can_dispatch(self) -> bool {
        self.dispatched < self.total && self.in_flight() < self.workers
    }

    /// The result so far.
    pub open spec fn result(self) -> RunResult {
        RunResult { attempted: self.attempted() as usize, succeeded: self.succeeded() as usize }
    }
}

/// A run before anything is handed out.
pub open spec fn new_spec(total: nat, workers: nat) -> SchedulerView {
    SchedulerView { total, workers, dispatched: 0, outcomes: Seq::empty() }
}

/// What the scheduler asks for in a state, and the state after it has asked.
///
/// While an endpoint is left and a worker is free, the next endpoint of the
/// list is handed out. Else, while a probe is in flight, the caller waits.
/// Else the run is over.
pub open spec fn poll_spec(s: SchedulerView) -> (SchedulerView, Directive) {
    if s.can_dispatch() {
        (
            SchedulerView { dispatched: s.dispatched + 1, ..s },
            Directive::Dispatch(s.dispatched as usize),
        )
    } else if s.in_flight() > 0 {
        (s, Directive::Wait)
    } else {
        (s, Directive::Done(s.result()))
    }
}

/// The state after a probe in flight has ended. With nothing in flight the
/// state stays as it is.
pub open spec fn complete_spec(s: SchedulerView, success: bool) -> SchedulerView {
    if s.in_flight() > 0 {
        SchedulerView { outcomes: s.outcomes.push(success), ..s }
    } else {
        s
    }
}

impl View for Scheduler {
    type V = SchedulerView;

    closed spec fn view(&self) -> SchedulerView {
        SchedulerView {
            total: self.total as nat,
            workers: self.workers as nat,
            dispatched: self.dispatched as nat,
            outcomes: self.outcomes@,
        }
    }
}

impl Scheduler {
    #[verifier::type_invariant]
    spec fn valid(self) -> bool {
        &&& self@.wf()
        &&& self.attempted == self@.attempted()
        &&& self.succeeded == self@.succeeded()
    }

    /// A run over `total` endpoints with `workers` workers. There has to be
    /// at least one worker.
    pub fn new(total: usize, workers: usize) -> (res: Result<Scheduler, ConfigError>)
        ensures
            match res {
                Ok(scheduler) => workers >= 1 && scheduler@.wf() && scheduler@ == new_spec(
                    total as nat,
                    workers as nat,
                ),
                Err(error) => workers == 0 && error == ConfigError::InvalidWorkerCount,
            },
    {
        if workers == 0 {
            Err(ConfigError::InvalidWorkerCount)
        } else {
            Ok(
                Scheduler {
                    total,
                    workers,
                    dispatched: 0,
                    attempted: 0,
                    succeeded: 0,
                    outcomes: Ghost(Seq::empty()),
                },
            )
        }
    }

    /// What to do next.
    pub fn poll(&mut self) -> (directive: Directive)
        ensures
            (final(self)@, directive) == poll_spec(old(self)@),
            old(self)@.wf(),
            final(self)@.wf(),
            directive matches Directive::Done(result) ==> result.attempted == old(self)@.total
                && result.succeeded == successes(old(self)@.outcomes) && result.succeeded
                <= result.attempted,
    {
        proof {
            use_type_invariant(&*self);
            lemma_successes_bounded(self.outcomes@);
        }
        let in_flight: usize = self.dispatched - self.attempted;
        if self.dispatched < self.total && in_flight < self.workers {
            let index: usize = self.dispatched;
            self.dispatched = index + 1;
            Directive::Dispatch(index)
        } else if in_flight > 0 {
            Directive::Wait
        } else {
            Directive::Done(RunResult { attempted: self.attempted, succeeded: self.succeeded })
        }
    }

    /// Takes in the end of one probe in flight. Returns whether a probe was
    /// in flight; if none was, nothing is counted.
    pub fn complete(&mut self, success: bool) -> (counted: bool)
        ensures
            final(self)@ == complete_spec(old(self)@, success),
            counted == (old(self)@.in_flight() > 0),
            old(self)@.wf(),
            final(self)@.wf(),
    {
        proof {
            use_type_invariant(&*self);
            lemma_successes_bounded(self.outcomes@);
        }
        if self.dispatched > self.attempted {
            let ghost longer = self.outcomes@.push(success);
            proof {
                assert(longer.drop_last() =~= self.outcomes@);
            }
            *self = Scheduler {
                total: self.total,
                workers: self.workers,
                dispatched: self.dispatched,
                attempted: self.attempted + 1,
                succeeded: if success {
                    self.succeeded + 1
                } else {
                    self.succeeded
                },
                outcomes: Ghost(longer),
            };
            true
        } else {
            false
        }
    }

    /// The number of probes in flight.
    pub fn in_flight(&self) -> (n: usize)
        ensures
            n == self@.in_flight(),
            self@.wf(),
    {
        proof {
            use_type_invariant(self);
        }
        self.dispatched - self.attempted
    }

    /// The result so far.
    pub fn result(&self) -> (result: RunResult)
        ensures
            result == self@.result(),
            result.attempted == self@.attempted(),
            result.succeeded == self@.succeeded(),
            result.succeeded <= result.attempted <= self@.total,
            self@.wf(),
    {
        proof {
            use_type_invariant(self);
            lemma_successes_bounded(self.outcomes@);
        }
        RunResult { attempted: self.attempted, succeeded: self.succeeded }
    }
}

/// No more successes than outcomes.
pub proof fn lemma_successes_bounded(outcomes: Seq<bool>)
    ensures
        successes(outcomes) <= outcomes.len(),
    decreases outcomes.len(),
{
    if outcomes.len() > 0 {
        lemma_successes_bounded(outcomes.drop_last());
    }
}

/// The number of successes is the number of times that `true` occurs.
proof fn lemma_successes_count_true(outcomes: Seq<bool>)
    ensures
        successes(outcomes) == outcomes.to_multiset().count(true),
    decreases outcomes.len(),
{
    broadcast use vstd::multiset::group_multiset_axioms;

    if outcomes.len() == 0 {
        outcomes.to_multiset_ensures();
        assert(outcomes.to_multiset().len() == 0);
        if outcomes.to_multiset().count(true) > 0 {
            vstd::multiset::axiom_count_le_len(outcomes.to_multiset(), true);
        }
    } else {
        let front = outcomes.drop_last();
        lemma_successes_count_true(front);
        assert(front.push(outcomes.last()) =~= outcomes);
        vstd::seq_lib::to_multiset_build(front, outcomes.last());
    }
}

/// The number of successes does not depend on the order in which the
/// probes ended.
pub proof fn lemma_successes_ignore_order(a: Seq<bool>, b: Seq<bool>)
    requires
        a.to_multiset() == b.to_multiset(),
    ensures
        successes(a) == successes(b),
        a.len() == b.len(),
{
    lemma_successes_count_true(a);
    lemma_successes_count_true(b);
    vstd::seq_lib::to_multiset_len(a);
    vstd::seq_lib::to_multiset_len(b);
}

/// Where every probe succeeds, all of them count; where none does, none.
pub proof fn lemma_successes_of_uniform_outcomes(outcomes: Seq<bool>)
    ensures
        (forall|i: int| 0 <= i < outcomes.len() ==> outcomes[i]) ==> successes(outcomes)
            == outcomes.len(),
        (forall|i: int| 0 <= i < outcomes.len() ==> !outcomes[i]) ==> successes(outcomes) == 0,
    decreases outcomes.len(),
{
    if outcomes.len() > 0 {
        let front = outcomes.drop_last();
        lemma_successes_of_uniform_outcomes(front);
        assert(forall|i: int| 0 <= i < front.len() ==> front[i] == outcomes[i]);
    }
}

/// The outcome of one probe counts for that probe alone: with another
/// outcome in its place, the number of successes changes by its share and
/// what the other probes add stays.
pub proof fn lemma_outcome_counts_for_itself(outcomes: Seq<bool>, at: int, other: bool)
    requires
        0 <= at < outcomes.len(),
    ensures
        successes(outcomes.update(at, other)) + (if outcomes[at] {
            1nat
        } else {
            0nat
        }) == successes(outcomes) + (if other {
            1nat
        } else {
            0nat
        }),
    decreases outcomes.len(),
{
    let changed = outcomes.update(at, other);
    if at == outcomes.len() - 1 {
        assert(changed.drop_last() =~= outcomes.drop_last());
    } else {
        lemma_outcome_counts_for_itself(outcomes.drop_last(), at, other);
        assert(changed.drop_last() =~= outcomes.drop_last().update(at, other));
    }
}

/// Asking and completing keep a run well-formed, and what has been counted
/// is never taken back.
pub proof fn lemma_steps_keep_wf(s: SchedulerView, success: bool)
    requires
        s.wf(),
    ensures
        poll_spec(s).0.wf(),
        poll_spec(s).0.outcomes == s.outcomes,
        complete_spec(s, success).wf(),
        complete_spec(s, success).attempted() >= s.attempted(),
        complete_spec(s, success).succeeded() >= s.succeeded(),
        s.succeeded() <= s.attempted(),
        s.in_flight() <= s.total,
{
    lemma_successes_bounded(s.outcomes);
    assert(s.outcomes.push(success).drop_last() =~= s.outcomes);
}

/// A run is declared over only when every endpoint has been probed: the
/// result then counts each endpoint once, and as many successes as probes
/// ended in success.
pub proof fn lemma_done_counts_every_endpoint(s: SchedulerView)
    requires
        s.wf(),
        poll_spec(s).1 is Done,
    ensures
        poll_spec(s).1 == Directive::Done(s.result()),
        s.attempted() == s.total,
        s.dispatched == s.total,
        s.in_flight() == 0,
{
}

/// A probe in flight holds nothing back: while an endpoint is left and a
/// worker is free, the next endpoint is handed out, and the scheduler waits
/// only for probes that are in flight.
pub proof fn lemma_free_worker_is_used(s: SchedulerView)
    requires
        s.wf(),
    ensures
        s.dispatched < s.total && s.in_flight() < s.workers ==> poll_spec(s).1
            == Directive::Dispatch(s.dispatched as usize),
        poll_spec(s).1 is Wait ==> s.in_flight() > 0,
        poll_spec(s).0.in_flight() <= s.workers,
        poll_spec(s).0.in_flight() <= s.total,
{
}

/// The run that hands out endpoints whenever it may and otherwise takes in
/// the next of `completions`, until neither is possible.
pub open spec fn drain_spec(s: SchedulerView, completions: Seq<bool>) -> SchedulerView
    decreases completions.len(), s.total - s.dispatched,
{
    if s.can_dispatch() {
        drain_spec(poll_spec(s).0, completions)
    } else if s.in_flight() > 0 && completions.len() > 0 {
        drain_spec(complete_spec(s, completions.first()), completions.drop_first())
    } else {
        s
    }
}

/// From any state of a run, with as many completions to come as endpoints
/// are not yet counted, the run ends with every endpoint handed out and
/// every completion counted.
proof fn lemma_drain(s: SchedulerView, completions: Seq<bool>)
    requires
        s.wf(),
        completions.len() == s.total - s.attempted(),
    ensures
        drain_spec(s, completions).wf(),
        drain_spec(s, completions).total == s.total,
        drain_spec(s, completions).workers == s.workers,
        drain_spec(s, completions).dispatched == s.total,
        drain_spec(s, completions).outcomes == s.outcomes + completions,
    decreases completions.len(), s.total - s.dispatched,
{
    if s.can_dispatch() {
        lemma_drain(poll_spec(s).0, completions);
    } else if s.in_flight() > 0 && completions.len() > 0 {
        let next = complete_spec(s, completions.first());
        let rest = completions.drop_first();
        lemma_drain(next, rest);
        assert(next.outcomes + rest =~= s.outcomes + completions);
    } else {
        assert(s.outcomes + completions =~= s.outcomes);
    }
}

/// Every run over `total` endpoints ends, whatever the number of workers:
/// once each probe has ended, every endpoint is counted as attempted, the
/// successes are those of the probes, and the scheduler says so. Where all
/// probes succeed all are counted as successes, and none where all fail.
pub proof fn lemma_run_counts_every_endpoint(total: nat, workers: nat, completions: Seq<bool>)
    requires
        workers >= 1,
        completions.len() == total,
    ensures
        ({
            let end = drain_spec(new_spec(total, workers), completions);
            &&& end.outcomes == completions
            &&& end.attempted() == total
            &&& end.succeeded() == successes(completions)
            &&& poll_spec(end) == (end, Directive::Done(end.result()))
            &&& (forall|i: int| 0 <= i < total ==> completions[i]) ==> end.succeeded() == total
            &&& (forall|i: int| 0 <= i < total ==> !completions[i]) ==> end.succeeded() == 0
        }),
{
    let start = new_spec(total, workers);
    lemma_drain(start, completions);
    assert(start.outcomes + completions =~= completions);
    lemma_successes_of_uniform_outcomes(completions);
}

/// The result of a run depends neither on the number of workers nor on the
/// order in which the probes end.
pub proof fn lemma_result_ignores_workers_and_order(
    total: nat,
    workers_a: nat,
    completions_a: Seq<bool>,
    workers_b: nat,
    completions_b: Seq<bool>,
)
    requires
        workers_a >= 1,
        workers_b >= 1,
        completions_a.len() == total,
        completions_a.to_multiset() == completions_b.to_multiset(),
    ensures
        drain_spec(new_spec(total, workers_a), completions_a).result() == drain_spec(
            new_spec(total, workers_b),
            completions_b,
        ).result(),
{
    lemma_successes_ignore_order(completions_a, completions_b);
    lemma_run_counts_every_endpoint(total, workers_a, completions_a);
    lemma_run_counts_every_endpoint(total, workers_b, completions_b);
}

} // verus!
