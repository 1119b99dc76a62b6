//! The lifecycle of one probe: connect, log in, select the mailbox, check
//! that the session is alive, log out.
//!
//! A [`Probe`] performs no I/O. It names the step that has to be carried out
//! next ([`Probe::pending`]); the caller carries it out against the server
//! and reports how it went ([`Probe::advance`]). When no step is pending the
//! probe is finished and [`Probe::outcome`] tells how.
//!
//! The first failure decides the outcome. A session that was opened is
//! closed on every path: after a failed login, select or liveness check a
//! log-out is still asked for, and how that log-out goes changes nothing.

use crate::address::{address_spec, message_spec, parse_address, Address, AddressError, AddressView};
use vstd::prelude::*;

verus! {

/// The mailbox that a probe selects.
pub const MAILBOX: &'static str = "INBOX";

/// How many seconds a step may take before it counts as timed out. The
/// caller, who carries the steps out, enforces it.
pub const STEP_TIMEOUT_SECONDS: u64 = 30;

/// One account to probe.
#[derive(Clone, Debug, PartialEq, Eq)]
pub struct EndpointRecord {
    pub server: String,
    pub user: String,
    pub secret: String,
}

/// What an [`EndpointRecord`] stands for in contracts.
pub struct EndpointRecordView {
    pub server: Seq<char>,
    pub user: Seq<char>,
    pub secret: Seq<char>,
}

impl View for EndpointRecord {
    type V = EndpointRecordView;

    open spec fn view(&self) -> EndpointRecordView {
        EndpointRecordView { server: self.server@, user: self.user@, secret: self.secret@ }
    }
}

/// The steps of a probe, in the order in which they are taken.
#[derive(Clone, Copy, Debug, PartialEq, Eq, Structural)]
pub enum Step {
    /// Open a secure connection to the address.
    Connect,
    /// Authenticate with user and secret.
    Login,
    /// Select [`MAILBOX`].
    Select,
    /// Ask the server whether the session is still alive.
    Noop,
    /// End the session.
    Logout,
}

/// How a step went.
#[derive(Clone, Debug, PartialEq, Eq)]
pub enum StepResult {
    Completed,
    Failed { reason: String },
    TimedOut,
}

/// What a [`StepResult`] stands for in contracts.
pub enum StepResultView {
    Completed,
    Failed { reason: Seq<char> },
    TimedOut,
}

impl View for StepResult {
    type V = StepResultView;

    open spec fn view(&self) -> StepResultView {
        match self {
            StepResult::Completed => StepResultView::Completed,
            StepResult::Failed { reason } => StepResultView::Failed { reason: reason@ },
            StepResult::TimedOut => StepResultView::TimedOut,
        }
    }
}

/// The kinds of failure of a probe.
#[derive(Clone, Copy, Debug, PartialEq, Eq, Structural)]
pub enum FailureKind {
    /// The server string is no address; nothing was connected to.
    Address(AddressError),
    /// The connection could not be opened.
    Connection,
    /// The server rejected the login.
    Authentication,
    /// The server answered a later step in an unexpected way.
    Protocol,
    /// A step did not end in time.
    Timeout,
}

/// How a probe ended.
#[derive(Clone, Debug, PartialEq, Eq)]
pub enum ProbeOutcome {
    Success,
    Failure { kind: FailureKind, reason: String, server: String, user: String },
}

/// What a [`ProbeOutcome`] stands for in contracts.
pub enum ProbeOutcomeView {
    Success,
    Failure { kind: FailureKind, reason: Seq<char>, server: Seq<char>, user: Seq<char> },
}

impl View for ProbeOutcome {
    type V = ProbeOutcomeView;

    open spec fn view(&self) -> ProbeOutcomeView {
        match self {
            ProbeOutcome::Success => ProbeOutcomeView::Success,
            ProbeOutcome::Failure { kind, reason, server, user } => ProbeOutcomeView::Failure {
                kind: *kind,
                reason: reason@,
                server: server@,
                user: user@,
            },
        }
    }
}

impl ProbeOutcome {
    /// Whether the probe succeeded.
    pub fn is_success(&self) -> (yes: bool)
        ensures
            yes == (self@ is Success),
    {
        match self {
            ProbeOutcome::Success => true,
            ProbeOutcome::Failure { .. } => false,
        }
    }
}

/// What the caller is asked to do, with all that the step needs.
#[derive(Clone, Copy, Debug, PartialEq, Eq)]
pub enum Request<'a> {
    /// Open a secure connection to `host` on `port`; the server has to
    /// present a certificate for `host`.
    Connect { host: &'a str, port: u16 },
    /// Log in as `user` with `secret`.
    Login { user: &'a str, secret: &'a str },
    /// Select the mailbox.
    Select { mailbox: &'a str },
    /// Ask the server whether the session is still alive.
    Noop,
    /// End the session. Where the login did not complete there is no
    /// session yet, and the connection is closed as it is.
    Logout,
}

/// What a [`Request`] stands for in contracts.
pub enum RequestView {
    Connect { host: Seq<char>, port: u16 },
    Login { user: Seq<char>, secret: Seq<char> },
    Select { mailbox: Seq<char> },
    Noop,
    Logout,
}

impl<'a> View for Request<'a> {
    type V = RequestView;

    open spec fn view(&self) -> RequestView {
        match self {
            Request::Connect { host, port } => RequestView::Connect { host: host@, port: *port },
            Request::Login { user, secret } => RequestView::Login {
                user: user@,
                secret: secret@,
            },
            Request::Select { mailbox } => RequestView::Select { mailbox: mailbox@ },
            Request::Noop => RequestView::Noop,
            Request::Logout => RequestView::Logout,
        }
    }
}

/// A probe of one endpoint, between its steps.
pub struct Probe {
    record: EndpointRecord,
    address: Option<Address>,
    pending: Option<Step>,
    failure: Option<(FailureKind, String)>,
}

/// The state of a probe.
pub struct ProbeView {
    /// The endpoint that is probed.
    pub record: EndpointRecordView,
    /// Where to connect to; `None` if the server string is no address.
    pub address: Option<AddressView>,
    /// The step whose result is awaited; `None` once the probe is finished.
    pub pending: Option<Step>,
    /// The first failure, with its reason.
    pub failure: Option<(FailureKind, Seq<char>)>,
}

impl ProbeView {
    /// What holds of every probe: a step is pending only where there is an
    /// address to connect to, and once a failure is recorded the only step
    /// that can be pending is the log-out.
    pub open spec fn wf(self) -> bool {
        &&& self.pending is Some ==> self.address is Some
        &&& self.pending is Some && self.failure is Some ==> self.pending == Some(Step::Logout)
    }
}

impl View for Probe {
    type V = ProbeView;

    closed spec fn view(&self) -> ProbeView {
        ProbeView {
            record: self.record@,
            address: match self.address {
                Some(address) => Some(address@),
                None => None,
            },
            pending: self.pending,
            failure: match self.failure {
                Some((kind, reason)) => Some((kind, reason@)),
                None => None,
            },
        }
    }
}

/// The reason reported for a step that did not end in time.
pub open spec fn timeout_reason() -> Seq<char> {
    "timed out"@
}

/// The step that follows a completed step; none follows the log-out.
pub open spec fn step_after(step: Step) -> Option<Step> {
    match step {
        Step::Connect => Some(Step::Login),
        Step::Login => Some(Step::Select),
        Step::Select => Some(Step::Noop),
        Step::Noop => Some(Step::Logout),
        Step::Logout => None,
    }
}

/// What a failure of a step means.
pub open spec fn failure_kind(step: Step) -> FailureKind {
    match step {
        Step::Connect => FailureKind::Connection,
        Step::Login => FailureKind::Authentication,
        Step::Select => FailureKind::Protocol,
        Step::Noop => FailureKind::Protocol,
        Step::Logout => FailureKind::Protocol,
    }
}

/// The step to take after a step has failed: the log-out, if a session is
/// open and is not being closed already.
pub open spec fn step_after_failure(step: Step) -> Option<Step> {
    match step {
        Step::Connect => None,
        Step::Login => Some(Step::Logout),
        Step::Select => Some(Step::Logout),
        Step::Noop => Some(Step::Logout),
        Step::Logout => None,
    }
}

/// The failure that a result of a step amounts to, if it is one.
pub open spec fn failure_of(step: Step, result: StepResultView) -> Option<(FailureKind, Seq<char>)> {
    match result {
        StepResultView::Completed => None,
        StepResultView::Failed { reason } => Some((failure_kind(step), reason)),
        StepResultView::TimedOut => Some((FailureKind::Timeout, timeout_reason())),
    }
}

/// A probe before its first step. A server string that is no address
/// finishes the probe at once.
pub open spec fn start_spec(record: EndpointRecordView) -> ProbeView {
    match address_spec(record.server) {
        Ok(address) => ProbeView {
            record,
            address: Some(address),
            pending: Some(Step::Connect),
            failure: None,
        },
        Err(error) => ProbeView {
            record,
            address: None,
            pending: None,
            failure: Some((FailureKind::Address(error), message_spec(error))),
        },
    }
}

/// The probe after the result of its pending step.
///
/// - A finished probe stays as it is.
/// - After a failure only the log-out is pending, and any result finishes
///   the probe without touching the failure.
/// - A completed step makes the next one pending.
/// - A failed or timed out step is recorded as the failure.
pub open spec fn advance_spec(pre: ProbeView, result: StepResultView) -> ProbeView {
    match pre.pending {
        None => pre,
        Some(step) => {
            if pre.failure is Some {
                ProbeView { pending: None, ..pre }
            } else {
                match failure_of(step, result) {
                    None => ProbeView { pending: step_after(step), ..pre },
                    Some(failure) => ProbeView {
                        pending: step_after_failure(step),
                        failure: Some(failure),
                        ..pre
                    },
                }
            }
        },
    }
}

/// How a probe ended; `None` while a step is pending.
pub open spec fn outcome_spec(probe: ProbeView) -> Option<ProbeOutcomeView> {
    if probe.pending is Some {
        None
    } else {
        match probe.failure {
            None => Some(ProbeOutcomeView::Success),
            Some((kind, reason)) => Some(
                ProbeOutcomeView::Failure {
                    kind,
                    reason,
                    server: probe.record.server,
                    user: probe.record.user,
                },
            ),
        }
    }
}

/// What a probe asks for: its pending step, with the address for the
/// connection, the user and secret of the endpoint for the login, and
/// [`MAILBOX`] for the selection.
pub open spec fn request_spec(probe: ProbeView) -> Option<RequestView> {
    match probe.pending {
        None => None,
        Some(Step::Connect) => Some(
            RequestView::Connect { host: probe.address->0.host, port: probe.address->0.port },
        ),
        Some(Step::Login) => Some(
            RequestView::Login { user: probe.record.user, secret: probe.record.secret },
        ),
        Some(Step::Select) => Some(RequestView::Select { mailbox: MAILBOX@ }),
        Some(Step::Noop) => Some(RequestView::Noop),
        Some(Step::Logout) => Some(RequestView::Logout),
    }
}

impl Probe {
    #[verifier::type_invariant]
    spec fn valid(self) -> bool {
        self@.wf()
    }

    /// Begins the probe of an endpoint: reads its server string as an
    /// address.
    pub fn start(record: EndpointRecord) -> (probe: Probe)
        ensures
            probe@ == start_spec(record@),
            probe@.wf(),
    {
        match parse_address(record.server.as_str()) {
            Ok(address) => Probe {
                record,
                address: Some(address),
                pending: Some(Step::Connect),
                failure: None,
            },
            Err(error) => Probe {
                record,
                address: None,
                pending: None,
                failure: Some((FailureKind::Address(error), error.message().to_owned())),
            },
        }
    }

    /// The step to carry out now; `None` once the probe is finished.
    pub fn pending(&self) -> (step: Option<Step>)
        ensures
            step == self@.pending,
    {
        self.pending
    }

    /// What to do now, with all that it takes; `None` once the probe is
    /// finished.
    pub fn request(&self) -> (request: Option<Request<'_>>)
        ensures
            match request {
                Some(r) => request_spec(self@) == Some(r@),
                None => request_spec(self@) is None,
            },
            self@.wf(),
    {
        proof {
            use_type_invariant(self);
        }
        match self.pending {
            None => None,
            Some(Step::Connect) => match &self.address {
                Some(address) => Some(
                    Request::Connect { host: address.host.as_str(), port: address.port },
                ),
                None => None,
            },
            Some(Step::Login) => Some(
                Request::Login {
                    user: self.record.user.as_str(),
                    secret: self.record.secret.as_str(),
                },
            ),
            Some(Step::Select) => Some(Request::Select { mailbox: MAILBOX }),
            Some(Step::Noop) => Some(Request::Noop),
            Some(Step::Logout) => Some(Request::Logout),
        }
    }

    /// The endpoint that is probed.
    pub fn record(&self) -> (record: &EndpointRecord)
        ensures
            record@ == self@.record,
    {
        &self.record
    }

    /// Where to connect to; `None` if the server string is no address.
    pub fn address(&self) -> (address: Option<&Address>)
        ensures
            match address {
                Some(a) => self@.address == Some(a@),
                None => self@.address is None,
            },
    {
        self.address.as_ref()
    }

    /// Takes in how the pending step went.
    pub fn advance(&mut self, result: StepResult)
        ensures
            final(self)@ == advance_spec(old(self)@, result@),
            old(self)@.wf(),
            final(self)@.wf(),
    {
        proof {
            use_type_invariant(&*self);
        }
        match self.pending {
            None => {},
            Some(step) => {
                if self.failure.is_some() {
                    self.pending = None;
                } else {
                    match result {
                        StepResult::Completed => {
                            self.pending = following(step);
                        },
                        StepResult::Failed { reason } => {
                            self.pending = closing(step);
                            self.failure = Some((kind_of(step), reason));
                        },
                        StepResult::TimedOut => {
                            self.pending = closing(step);
                            self.failure = Some((FailureKind::Timeout, "timed out".to_owned()));
                        },
                    }
                }
            },
        }
    }

    /// How the probe ended; `None` while a step is pending.
    pub fn outcome(&self) -> (outcome: Option<ProbeOutcome>)
        ensures
            match outcome {
                Some(o) => outcome_spec(self@) == Some(o@),
                None => outcome_spec(self@) is None,
            },
    {
        if self.pending.is_some() {
            return None;
        }
        match &self.failure {
            None => Some(ProbeOutcome::Success),
            Some((kind, reason)) => Some(
                ProbeOutcome::Failure {
                    kind: *kind,
                    reason: reason.clone(),
                    server: self.record.server.clone(),
                    user: self.record.user.clone(),
                },
            ),
        }
    }
}

fn following(step: Step) -> (next: Option<Step>)
    ensures
        next == step_after(step),
{
    match step {
        Step::Connect => Some(Step::Login),
        Step::Login => Some(Step::Select),
        Step::Select => Some(Step::Noop),
        Step::Noop => Some(Step::Logout),
        Step::Logout => None,
    }
}

fn closing(step: Step) -> (next: Option<Step>)
    ensures
        next == step_after_failure(step),
{
    match step {
        Step::Connect => None,
        Step::Login => Some(Step::Logout),
        Step::Select => Some(Step::Logout),
        Step::Noop => Some(Step::Logout),
        Step::Logout => None,
    }
}

fn kind_of(step: Step) -> (kind: FailureKind)
    ensures
        kind == failure_kind(step),
{
    match step {
        Step::Connect => FailureKind::Connection,
        Step::Login => FailureKind::Authentication,
        Step::Select => FailureKind::Protocol,
        Step::Noop => FailureKind::Protocol,
        Step::Logout => FailureKind::Protocol,
    }
}

/// The probe after a series of results, taken in one after the other.
pub open spec fn run_spec(pre: ProbeView, results: Seq<StepResultView>) -> ProbeView
    decreases results.len(),
{
    if results.len() == 0 {
        pre
    } else {
        run_spec(advance_spec(pre, results.first()), results.drop_first())
    }
}

/// The steps that a probe asks for while it takes in a series of results.
pub open spec fn steps_asked(pre: ProbeView, results: Seq<StepResultView>) -> Seq<Step>
    decreases results.len(),
{
    if results.len() == 0 || pre.pending is None {
        Seq::empty()
    } else {
        seq![pre.pending->0] + steps_asked(
            advance_spec(pre, results.first()),
            results.drop_first(),
        )
    }
}

/// The step at a position of the full lifecycle.
pub open spec fn nth_step(k: int) -> Step {
    if k <= 0 {
        Step::Connect
    } else if k == 1 {
        Step::Login
    } else if k == 2 {
        Step::Select
    } else if k == 3 {
        Step::Noop
    } else {
        Step::Logout
    }
}

/// How many results a probe takes in at most before it is finished.
pub open spec fn steps_left(probe: ProbeView) -> nat {
    match probe.pending {
        None => 0,
        Some(step) => if probe.failure is Some {
            1
        } else {
            match step {
                Step::Connect => 5,
                Step::Login => 4,
                Step::Select => 3,
                Step::Noop => 2,
                Step::Logout => 1,
            }
        },
    }
}

/// A probe is well-formed from its start and stays so with every result.
pub proof fn lemma_probe_stays_wf(record: EndpointRecordView, pre: ProbeView, result: StepResultView)
    ensures
        start_spec(record).wf(),
        pre.wf() ==> advance_spec(pre, result).wf(),
{
}

/// Once a failure is recorded, no later result changes it: how the closing
/// log-out goes is not reported.
pub proof fn lemma_first_failure_stands(pre: ProbeView, results: Seq<StepResultView>)
    requires
        pre.failure is Some,
    ensures
        run_spec(pre, results).failure == pre.failure,
        run_spec(pre, results).record == pre.record,
    decreases results.len(),
{
    if results.len() > 0 {
        lemma_first_failure_stands(advance_spec(pre, results.first()), results.drop_first());
    }
}

/// A finished probe takes in nothing more.
pub proof fn lemma_finished_probe_stays(pre: ProbeView, results: Seq<StepResultView>)
    requires
        pre.pending is None,
    ensures
        run_spec(pre, results) == pre,
        steps_asked(pre, results) == Seq::<Step>::empty(),
    decreases results.len(),
{
    if results.len() > 0 {
        lemma_finished_probe_stays(advance_spec(pre, results.first()), results.drop_first());
    }
}

/// Every probe is finished after `steps_left` results, so after five at the
/// latest.
pub proof fn lemma_probe_finishes(pre: ProbeView, results: Seq<StepResultView>)
    requires
        results.len() >= steps_left(pre),
    ensures
        run_spec(pre, results).pending is None,
        steps_left(pre) <= 5,
    decreases results.len(),
{
    if results.len() > 0 {
        lemma_probe_finishes(advance_spec(pre, results.first()), results.drop_first());
    }
}

/// A probe succeeds if and only if all five steps complete: a failure or a
/// timeout of any step, the closing log-out included, makes it a failure.
pub proof fn lemma_success_needs_every_step(
    record: EndpointRecordView,
    results: Seq<StepResultView>,
)
    requires
        address_spec(record.server) is Ok,
    ensures
        outcome_spec(run_spec(start_spec(record), results)) == Some(ProbeOutcomeView::Success) <==> (
        results.len() >= 5 && forall|i: int| 0 <= i < 5 ==> #[trigger] results[i] is Completed),
{
    let s0 = start_spec(record);
    if results.len() >= 1 {
        let s1 = advance_spec(s0, results[0]);
        let r1 = results.drop_first();
        if results.len() >= 2 {
            let s2 = advance_spec(s1, results[1]);
            let r2 = r1.drop_first();
            assert(r1.first() == results[1]);
            if results.len() >= 3 {
                let s3 = advance_spec(s2, results[2]);
                let r3 = r2.drop_first();
                assert(r2.first() == results[2]);
                if results.len() >= 4 {
                    let s4 = advance_spec(s3, results[3]);
                    let r4 = r3.drop_first();
                    assert(r3.first() == results[3]);
                    if results.len() >= 5 {
                        let s5 = advance_spec(s4, results[4]);
                        let r5 = r4.drop_first();
                        assert(r4.first() == results[4]);
                        assert(run_spec(s0, results) == run_spec(s5, r5)) by {
                            reveal_with_fuel(run_spec, 6);
                        }
                        if s5.failure is Some {
                            lemma_first_failure_stands(s5, r5);
                            if s5.pending is Some {
                                lemma_probe_finishes(s5, r5);
                            }
                        } else {
                            lemma_finished_probe_stays(s5, r5);
                        }
                    } else {
                        assert(run_spec(s0, results) == s4) by {
                            reveal_with_fuel(run_spec, 6);
                        }
                    }
                } else {
                    assert(run_spec(s0, results) == s3) by {
                        reveal_with_fuel(run_spec, 5);
                    }
                }
            } else {
                assert(run_spec(s0, results) == s2) by {
                    reveal_with_fuel(run_spec, 4);
                }
            }
        } else {
            assert(run_spec(s0, results) == s1) by {
                reveal_with_fuel(run_spec, 3);
            }
        }
    }
}

/// A probe whose steps all complete takes the five steps in their order,
/// each once.
pub proof fn lemma_successful_probe_takes_every_step(
    record: EndpointRecordView,
    results: Seq<StepResultView>,
)
    requires
        address_spec(record.server) is Ok,
        results.len() >= 5,
        forall|i: int| 0 <= i < 5 ==> #[trigger] results[i] is Completed,
    ensures
        steps_asked(start_spec(record), results) == seq![
            Step::Connect,
            Step::Login,
            Step::Select,
            Step::Noop,
            Step::Logout,
        ],
{
    let s0 = start_spec(record);
    let s1 = advance_spec(s0, results[0]);
    let s2 = advance_spec(s1, results[1]);
    let s3 = advance_spec(s2, results[2]);
    let s4 = advance_spec(s3, results[3]);
    let s5 = advance_spec(s4, results[4]);
    let r1 = results.drop_first();
    let r2 = r1.drop_first();
    let r3 = r2.drop_first();
    let r4 = r3.drop_first();
    let r5 = r4.drop_first();
    assert(r1.first() == results[1]);
    assert(r2.first() == results[2]);
    assert(r3.first() == results[3]);
    assert(r4.first() == results[4]);
    lemma_finished_probe_stays(s5, r5);
    assert(steps_asked(s4, r4) =~= seq![Step::Logout]);
    assert(steps_asked(s3, r3) =~= seq![Step::Noop, Step::Logout]);
    assert(steps_asked(s2, r2) =~= seq![Step::Select, Step::Noop, Step::Logout]);
    assert(steps_asked(s1, r1) =~= seq![Step::Login, Step::Select, Step::Noop, Step::Logout]);
    assert(steps_asked(s0, results) =~= seq![
        Step::Connect,
        Step::Login,
        Step::Select,
        Step::Noop,
        Step::Logout,
    ]);
}

/// A server string that is no address ends the probe before any step: no
/// connection is asked for, and the outcome names the address error.
pub proof fn lemma_address_error_ends_the_probe(
    record: EndpointRecordView,
    results: Seq<StepResultView>,
)
    requires
        address_spec(record.server) is Err,
    ensures
        steps_asked(start_spec(record), results) == Seq::<Step>::empty(),
        outcome_spec(run_spec(start_spec(record), results)) == Some(
            ProbeOutcomeView::Failure {
                kind: FailureKind::Address(address_spec(record.server)->Err_0),
                reason: message_spec(address_spec(record.server)->Err_0),
                server: record.server,
                user: record.user,
            },
        ),
{
    lemma_finished_probe_stays(start_spec(record), results);
}

/// From a probe at step `j` without a failure: if the next `n` results are
/// completions and the one after them is not, that one is the failure.
proof fn lemma_failure_after_completions(
    pre: ProbeView,
    results: Seq<StepResultView>,
    j: int,
    n: int,
)
    requires
        pre.failure is None,
        0 <= j,
        0 <= n < results.len(),
        j + n <= 4,
        pre.pending == Some(nth_step(j)),
        forall|i: int| 0 <= i < n ==> #[trigger] results[i] is Completed,
        !(results[n] is Completed),
    ensures
        run_spec(pre, results).failure == failure_of(nth_step(j + n), results[n]),
    decreases n,
{
    let next = advance_spec(pre, results.first());
    let rest = results.drop_first();
    if n == 0 {
        lemma_first_failure_stands(next, rest);
    } else {
        assert(results[0] is Completed);
        assert forall|i: int| 0 <= i < n - 1 implies #[trigger] rest[i] is Completed by {
            assert(rest[i] == results[i + 1]);
        }
        assert(rest[n - 1] == results[n]);
        lemma_failure_after_completions(next, rest, j + 1, n - 1);
    }
}

/// The first result that is not a completion decides the failure: its step
/// gives the kind and it gives the reason, whatever comes after it.
pub proof fn lemma_first_failure_decides(
    record: EndpointRecordView,
    results: Seq<StepResultView>,
    k: int,
)
    requires
        address_spec(record.server) is Ok,
        0 <= k < 5,
        k < results.len(),
        forall|i: int| 0 <= i < k ==> #[trigger] results[i] is Completed,
        !(results[k] is Completed),
    ensures
        run_spec(start_spec(record), results).failure == failure_of(nth_step(k), results[k]),
{
    lemma_failure_after_completions(start_spec(record), results, 0, k);
}

/// A probe with an open session that runs to its end asks for the log-out.
proof fn lemma_logout_is_asked(pre: ProbeView, results: Seq<StepResultView>)
    requires
        pre.pending == Some(Step::Logout) || (pre.failure is None && (pre.pending == Some(
            Step::Login,
        ) || pre.pending == Some(Step::Select) || pre.pending == Some(Step::Noop))),
        run_spec(pre, results).pending is None,
    ensures
        steps_asked(pre, results).contains(Step::Logout),
    decreases results.len(),
{
    let next = advance_spec(pre, results.first());
    let rest = results.drop_first();
    let asked = steps_asked(pre, results);
    assert(asked[0] == pre.pending->0);
    if pre.pending != Some(Step::Logout) {
        lemma_logout_is_asked(next, rest);
        let at = choose|i: int| 0 <= i < steps_asked(next, rest).len() && steps_asked(next, rest)[i]
            == Step::Logout;
        assert(asked[at + 1] == Step::Logout);
    }
}

/// Every finished probe whose connection was opened has asked for the
/// log-out, however its steps went.
pub proof fn lemma_opened_session_is_closed(
    record: EndpointRecordView,
    results: Seq<StepResultView>,
)
    requires
        address_spec(record.server) is Ok,
        results.len() > 0,
        results[0] is Completed,
        run_spec(start_spec(record), results).pending is None,
    ensures
        steps_asked(start_spec(record), results).contains(Step::Logout),
{
    let start = start_spec(record);
    let next = advance_spec(start, results.first());
    let rest = results.drop_first();
    lemma_logout_is_asked(next, rest);
    let at = choose|i: int| 0 <= i < steps_asked(next, rest).len() && steps_asked(next, rest)[i]
        == Step::Logout;
    assert(steps_asked(start, results)[at + 1] == Step::Logout);
}

/// A connection that could not be opened is not closed: the probe is
/// finished with that failure and asks for nothing more.
pub proof fn lemma_failed_connection_ends_the_probe(
    record: EndpointRecordView,
    results: Seq<StepResultView>,
)
    requires
        address_spec(record.server) is Ok,
        results.len() > 0,
        !(results[0] is Completed),
    ensures
        steps_asked(start_spec(record), results) == seq![Step::Connect],
        run_spec(start_spec(record), results).pending is None,
        run_spec(start_spec(record), results).failure == failure_of(Step::Connect, results[0]),
{
    let start = start_spec(record);
    let next = advance_spec(start, results.first());
    lemma_finished_probe_stays(next, results.drop_first());
}

} // verus!
