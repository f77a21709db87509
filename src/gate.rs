//! The single-flight gate of the reset: however many triggers ask at once,
//! one reset runs.

use vstd::prelude::*;

verus! {

/// Whether a reset is running.
pub struct ResetGate {
    resetting: bool,
}

/// A request on a gate in state `pre` leaves it in `post` with answer `r`:
/// granted exactly when no reset was running, and running afterwards.
pub open spec fn acquire_outcome(pre: ResetGate, post: ResetGate, r: bool) -> bool {
    &&& r == !pre.is_resetting()
    &&& post.is_resetting()
}

impl ResetGate {
    /// Whether a reset is running.
    pub closed spec fn is_resetting(&self) -> bool {
        self.resetting
    }

    /// An open gate.
    pub fn new() -> (r: ResetGate)
        ensures
            !r.is_resetting(),
    {
        ResetGate { resetting: false }
    }

    /// Whether a reset is running.
    pub fn in_progress(&self) -> (r: bool)
        ensures
            r == self.is_resetting(),
    {
        self.resetting
    }

    /// Asks to run a reset: granted, and marked running, where no reset was
    /// running; refused otherwise.
    pub fn try_acquire(&mut self) -> (r: bool)
        ensures
            acquire_outcome(*old(self), *final(self), r),
    {
        if self.resetting {
            false
        } else {
            self.resetting = true;
            true
        }
    }

    /// Marks the running reset as ended, so that another may run.
    pub fn release(&mut self)
        ensures
            !final(self).is_resetting(),
    {
        self.resetting = false;
    }
}

/// Requests on an open gate with no release between them: the first is
/// granted and every later one refused, so exactly one reset runs.
pub proof fn lemma_single_flight(states: Seq<ResetGate>, answers: Seq<bool>)
    requires
        answers.len() >= 1,
        states.len() == answers.len() + 1,
        !states[0].is_resetting(),
        forall|i: int|
            0 <= i < answers.len() ==> acquire_outcome(states[i], states[i + 1], #[trigger] answers[i]),
    ensures
        answers[0],
        forall|i: int| 1 <= i < answers.len() ==> !answers[i],
{
    assert(acquire_outcome(states[0], states[1], answers[0]));
    assert forall|i: int| 1 <= i < answers.len() implies !answers[i] by {
        assert(acquire_outcome(states[i - 1], states[i], answers[i - 1]));
        assert(acquire_outcome(states[i], states[i + 1], answers[i]));
    }
}

} // verus!
