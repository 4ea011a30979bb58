//! Poll-based funding protocol. One `FaucetFunder` drives exactly one
//! funding request: the submission yields a pending-request token held by
//! the surrounding driver, which then reports one event per observation
//! (the submission outcome, then one confirmation query result per poll).
//! The funder decides; the driver performs the sleeps and the queries.

use vstd::prelude::*;

use crate::errors::ProvisionError;

verus! {

/// One observation the driver hands back to the funder.
#[derive(Clone, Copy, Debug, PartialEq, Eq, Structural)]
pub enum FundingEvent {
    /// The funding submission was accepted and a pending token obtained.
    SubmissionAccepted,
    /// The funding submission itself was rejected.
    SubmissionRejected,
    /// A confirmation query answered: the request is confirmed.
    Confirmed,
    /// A confirmation query answered: not yet confirmed.
    Pending,
    /// A confirmation query failed; transient, to be retried.
    QueryFailed,
}

/// Where the funding protocol stands.
#[derive(Clone, Copy, Debug, PartialEq, Eq, Structural)]
pub enum FunderState {
    /// No submission outcome observed yet.
    Ready,
    /// Submitted; awaiting a confirmed status.
    Polling,
    /// A confirmation query returned true: funding succeeded.
    Funded,
    /// The submission was rejected; the request never entered polling.
    Rejected,
}

/// What the driver must do next.
#[derive(Clone, Copy, Debug, PartialEq, Eq, Structural)]
pub enum FunderAction {
    /// Sleep one fixed interval, query confirmation status, report the result.
    Poll,
    /// Funding is confirmed; the funder returns success.
    Succeed,
    /// Surface `FundingRequestRejected` without entering the poll loop.
    Fail,
}

/// The transition relation of the funding protocol. Success is reachable
/// only through a `Confirmed` event; a failed status query keeps the loop
/// polling on the same interval rather than aborting it.
pub open spec fn spec_step(s: FunderState, e: FundingEvent) -> FunderState {
    match s {
        FunderState::Ready => match e {
            FundingEvent::SubmissionAccepted => FunderState::Polling,
            FundingEvent::SubmissionRejected => FunderState::Rejected,
            _ => FunderState::Ready,
        },
        FunderState::Polling => match e {
            FundingEvent::Confirmed => FunderState::Funded,
            _ => FunderState::Polling,
        },
        FunderState::Funded => FunderState::Funded,
        FunderState::Rejected => FunderState::Rejected,
    }
}

/// The state after observing `events` in order, starting from `s`.
pub open spec fn spec_run(s: FunderState, events: Seq<FundingEvent>) -> FunderState
    decreases events.len(),
{
    if events.len() == 0 {
        s
    } else {
        spec_step(spec_run(s, events.drop_last()), events.last())
    }
}

/// Drives one funding request. The driver submits the request, then feeds
/// every observation through `observe` and performs the returned action,
/// until the action is `Succeed` or `Fail`.
pub struct FaucetFunder {
    state: FunderState,
    history: Ghost<Seq<FundingEvent>>,
}

impl FaucetFunder {
    /// The funder's state is exactly what its observation history dictates.
    pub closed spec fn wf(&self) -> bool {
        self.state == spec_run(FunderState::Ready, self.history@)
    }

    pub closed spec fn spec_state(&self) -> FunderState {
        self.state
    }

    pub closed spec fn spec_history(&self) -> Seq<FundingEvent> {
        self.history@
    }

    pub fn new() -> (r: FaucetFunder)
        ensures
            r.wf(),
            r.spec_state() == FunderState::Ready,
            r.spec_history() == Seq::<FundingEvent>::empty(),
    {
        FaucetFunder { state: FunderState::Ready, history: Ghost(Seq::empty()) }
    }

    /// Records one observation and says what the driver must do next.
    pub fn observe(&mut self, e: FundingEvent) -> (a: FunderAction)
        requires
            old(self).wf(),
        ensures
            final(self).wf(),
            final(self).spec_history() == old(self).spec_history().push(e),
            final(self).spec_state() == spec_step(old(self).spec_state(), e),
            a == FunderAction::Succeed <==> final(self).spec_state() == FunderState::Funded,
            a == FunderAction::Fail <==> final(self).spec_state() == FunderState::Rejected,
            a == FunderAction::Poll <==> (final(self).spec_state() == FunderState::Ready
                || final(self).spec_state() == FunderState::Polling),
    {
        let ghost h = self.history@;
        self.state = spec_step_exec(self.state, e);
        self.history = Ghost(h.push(e));
        proof {
            assert(h.push(e).drop_last() =~= h);
        }
        match self.state {
            FunderState::Funded => FunderAction::Succeed,
            FunderState::Rejected => FunderAction::Fail,
            _ => FunderAction::Poll,
        }
    }

    /// Whether the funder may report success to its caller.
    pub fn is_funded(&self) -> (r: bool)
        ensures
            r == (self.spec_state() == FunderState::Funded),
    {
        self.state == FunderState::Funded
    }

    /// The error a rejected submission surfaces.
    pub fn rejection_error(&self) -> (r: ProvisionError)
        requires
            self.spec_state() == FunderState::Rejected,
        ensures
            r == ProvisionError::FundingRequestRejected,
    {
        ProvisionError::FundingRequestRejected
    }
}

/// Executable twin of `spec_step`.
fn spec_step_exec(s: FunderState, e: FundingEvent) -> (r: FunderState)
    ensures
        r == spec_step(s, e),
{
    match s {
        FunderState::Ready => match e {
            FundingEvent::SubmissionAccepted => FunderState::Polling,
            FundingEvent::SubmissionRejected => FunderState::Rejected,
            _ => FunderState::Ready,
        },
        FunderState::Polling => match e {
            FundingEvent::Confirmed => FunderState::Funded,
            _ => FunderState::Polling,
        },
        FunderState::Funded => FunderState::Funded,
        FunderState::Rejected => FunderState::Rejected,
    }
}

/// A single transition reaches `Funded` only from `Funded` itself or on a
/// `Confirmed` event.
proof fn lemma_step_to_funded(s: FunderState, e: FundingEvent)
    requires
        spec_step(s, e) == FunderState::Funded,
    ensures
        s == FunderState::Funded || e == FundingEvent::Confirmed,
{
}

/// A run that ends funded, starting from a state that is not yet funded,
/// contains a confirmation event.
pub proof fn lemma_run_to_funded(s: FunderState, events: Seq<FundingEvent>)
    requires
        s != FunderState::Funded,
        spec_run(s, events) == FunderState::Funded,
    ensures
        exists|i: int| 0 <= i < events.len() && events[i] == FundingEvent::Confirmed,
    decreases events.len(),
{
    let prior = spec_run(s, events.drop_last());
    lemma_step_to_funded(prior, events.last());
    if prior == FunderState::Funded {
        lemma_run_to_funded(s, events.drop_last());
        let i = choose|i: int|
            0 <= i < events.drop_last().len() && events.drop_last()[i]
                == FundingEvent::Confirmed;
        assert(events[i] == FundingEvent::Confirmed);
    } else {
        assert(events[events.len() - 1] == FundingEvent::Confirmed);
    }
}

/// The funder never reports success before a confirmation query has
/// answered true for its pending request: a well-formed funder in the
/// `Funded` state has observed at least one `Confirmed` event.
pub proof fn lemma_success_requires_confirmation(f: &FaucetFunder)
    requires
        f.wf(),
        f.spec_state() == FunderState::Funded,
    ensures
        exists|i: int|
            0 <= i < f.spec_history().len() && f.spec_history()[i] == FundingEvent::Confirmed,
{
    lemma_run_to_funded(FunderState::Ready, f.spec_history());
}

} // verus!
