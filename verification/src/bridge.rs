//! The completion bridge: delivering a worker's result to the control
//! thread without ever blocking it.
//!
//! The control thread runs a cooperative, run-to-completion event loop.
//! When a job is submitted, a [`CompletionBridge`] is registered with that
//! loop; on every tick the loop makes one non-blocking check of the job's
//! result slot and calls [`CompletionBridge::poll`] with whether a result
//! is there. The verdict tells the loop what to do on this very tick: run
//! the continuation (exactly once, and only on a tick — so never
//! concurrently with other control-thread work), poll again later, or drop
//! the registration. A registration whose owner goes away is detached with
//! [`CompletionBridge::detach`], after which its continuation never runs.

use vstd::prelude::*;

verus! {

/// Where a bridge registration stands.
#[derive(Clone, Copy, Debug, PartialEq, Eq, Structural)]
pub enum BridgeState {
    /// No result has been handed to the continuation yet.
    Waiting,
    /// The continuation has run; the registration is spent.
    Delivered,
    /// The owner is gone; the continuation must never run.
    Detached,
}

/// What the control loop must do with a registration on this tick.
#[derive(Clone, Copy, Debug, PartialEq, Eq, Structural)]
pub enum PollVerdict {
    /// Run the continuation now, on this tick, with the available result.
    Run,
    /// Nothing yet: keep the registration and poll again on a later tick.
    Reschedule,
    /// The registration is spent or detached: drop it, run nothing.
    Deregister,
}

/// The state a poll moves a registration to, given whether the job's
/// result was available at the tick.
pub open spec fn spec_poll_state(s: BridgeState, ready: bool) -> BridgeState {
    match s {
        BridgeState::Waiting => if ready {
            BridgeState::Delivered
        } else {
            BridgeState::Waiting
        },
        BridgeState::Delivered => BridgeState::Delivered,
        BridgeState::Detached => BridgeState::Detached,
    }
}

/// The verdict a poll gives, given whether the job's result was available
/// at the tick.
pub open spec fn spec_poll_verdict(s: BridgeState, ready: bool) -> PollVerdict {
    match s {
        BridgeState::Waiting => if ready {
            PollVerdict::Run
        } else {
            PollVerdict::Reschedule
        },
        BridgeState::Delivered => PollVerdict::Deregister,
        BridgeState::Detached => PollVerdict::Deregister,
    }
}

/// One registered completion, owned by the control loop.
#[derive(Debug)]
pub struct CompletionBridge {
    state: BridgeState,
}

impl CompletionBridge {
    /// Where this registration stands.
    pub closed spec fn spec_state(self) -> BridgeState {
        self.state
    }

    /// A fresh registration, waiting for its job's result.
    pub fn new() -> (r: Self)
        ensures
            r.spec_state() is Waiting,
    {
        CompletionBridge { state: BridgeState::Waiting }
    }

    /// One control-loop tick's decision for this registration, given
    /// whether the job's result is available.
    pub fn poll(&mut self, ready: bool) -> (v: PollVerdict)
        ensures
            v == spec_poll_verdict(old(self).spec_state(), ready),
            final(self).spec_state() == spec_poll_state(old(self).spec_state(), ready),
    {
        match self.state {
            BridgeState::Waiting => if ready {
                self.state = BridgeState::Delivered;
                PollVerdict::Run
            } else {
                PollVerdict::Reschedule
            },
            BridgeState::Delivered => PollVerdict::Deregister,
            BridgeState::Detached => PollVerdict::Deregister,
        }
    }

    /// Detaches the registration: a continuation whose owner is gone must
    /// never run, so a waiting registration will only ever deregister. A
    /// spent registration stays spent.
    pub fn detach(&mut self)
        ensures
            final(self).spec_state() == if old(self).spec_state() is Waiting {
                BridgeState::Detached
            } else {
                old(self).spec_state()
            },
    {
        if let BridgeState::Waiting = self.state {
            self.state = BridgeState::Detached;
        }
    }
}

/// How many times a registration's continuation runs over a whole sequence
/// of ticks, where `readies[i]` says whether the job's result was
/// available at tick `i`.
pub open spec fn spec_run_count(s: BridgeState, readies: Seq<bool>) -> nat
    decreases readies.len(),
{
    if readies.len() == 0 {
        0
    } else {
        (if spec_poll_verdict(s, readies[0]) is Run {
            1nat
        } else {
            0nat
        }) + spec_run_count(spec_poll_state(s, readies[0]), readies.drop_first())
    }
}

/// Over any sequence of ticks, a continuation runs at most once — and
/// never at all once the registration is spent or detached.
pub proof fn lemma_runs_at_most_once(s: BridgeState, readies: Seq<bool>)
    ensures
        spec_run_count(s, readies) <= 1,
        !(s is Waiting) ==> spec_run_count(s, readies) == 0,
    decreases readies.len(),
{
    if readies.len() > 0 {
        lemma_runs_at_most_once(spec_poll_state(s, readies[0]), readies.drop_first());
    }
}

/// A continuation never runs before its job's result is available: ticks
/// that all found the result slot empty run nothing.
pub proof fn lemma_never_runs_before_ready(s: BridgeState, readies: Seq<bool>)
    requires
        forall|i: int| 0 <= i < readies.len() ==> !readies[i],
    ensures
        spec_run_count(s, readies) == 0,
    decreases readies.len(),
{
    if readies.len() > 0 {
        assert(!readies[0]);
        lemma_never_runs_before_ready(spec_poll_state(s, readies[0]), readies.drop_first());
    }
}

/// A waiting registration whose job's result becomes available at some
/// tick runs its continuation exactly once over the whole sequence —
/// neither lost nor repeated, and (by `lemma_never_runs_before_ready`)
/// only at a tick at which the result was there.
pub proof fn lemma_runs_exactly_once(readies: Seq<bool>)
    requires
        exists|i: int| 0 <= i < readies.len() && readies[i],
    ensures
        spec_run_count(BridgeState::Waiting, readies) == 1,
    decreases readies.len(),
{
    let w = choose|i: int| 0 <= i < readies.len() && readies[i];
    if readies[0] {
        lemma_runs_at_most_once(BridgeState::Delivered, readies.drop_first());
    } else {
        assert(0 <= w - 1 < readies.drop_first().len() && readies.drop_first()[w - 1]);
        lemma_runs_exactly_once(readies.drop_first());
    }
}

} // verus!
