//! The state algebra of an advisory file lock: unlocked, shared or
//! exclusive, with blocking and non-blocking transitions between them.
//!
//! The lock file itself is held by the caller; each transition asks the
//! operating system and hands its answer here, which decides the new state.

use vstd::prelude::*;

verus! {

/// The three states a lock file descriptor can be in.
#[derive(Debug, Clone, Copy, PartialEq, Eq, Structural)]
pub enum LockState {
    Unlocked,
    Shared,
    Exclusive,
}

/// What the operating system answered to a `flock` request.
#[derive(Debug, Clone, Copy, PartialEq, Eq, Structural)]
pub enum FlockOutcome {
    /// The request was granted.
    Granted,
    /// A non-blocking request would have had to wait.
    WouldBlock,
    /// Any other failure, with its `errno`.
    Failed(i32),
}

/// A requested transition: the state wanted, and whether to wait for it.
#[derive(Debug, Clone, Copy, PartialEq, Eq, Structural)]
pub struct LockStep {
    pub target: LockState,
    pub blocking: bool,
}

/// The result of a transition that did not fail.
#[derive(Debug, Clone, Copy, PartialEq, Eq, Structural)]
pub enum Moved {
    /// The lock is still in its old state: the request would have blocked.
    Stayed(LockState),
    /// The lock is now in the requested state.
    Changed(LockState),
}

/// The state after one step, where a step that was not granted changes
/// nothing.
pub open spec fn after(s: LockState, step: LockStep, outcome: FlockOutcome) -> LockState {
    if outcome is Granted {
        step.target
    } else {
        s
    }
}

/// The state after a whole sequence of steps and their outcomes.
pub open spec fn after_all(s: LockState, steps: Seq<(LockStep, FlockOutcome)>) -> LockState
    decreases steps.len(),
{
    if steps.len() == 0 {
        s
    } else {
        after(after_all(s, steps.drop_last()), steps.last().0, steps.last().1)
    }
}

/// Whether some step of `steps` was granted.
pub open spec fn any_granted(steps: Seq<(LockStep, FlockOutcome)>) -> bool {
    exists|i: int| 0 <= i < steps.len() && (#[trigger] steps[i]).1 is Granted
}

impl LockState {
    /// Take the operating system's answer to `step` and decide what follows:
    /// the new state, the unchanged state when a non-blocking request would
    /// have blocked, or the error.
    pub fn attempt(self, step: LockStep, outcome: FlockOutcome) -> (r: Result<Moved, i32>)
        requires
            step.target != self,
        ensures
            outcome is Granted ==> r == Ok::<Moved, i32>(Moved::Changed(step.target)),
            outcome is WouldBlock && !step.blocking ==> r == Ok::<Moved, i32>(Moved::Stayed(self)),
            outcome is WouldBlock && step.blocking ==> r is Err,
            outcome matches FlockOutcome::Failed(e) ==> r == Err::<Moved, i32>(e),
            r matches Ok(m) ==> match m {
                Moved::Changed(t) => t == after(self, step, outcome),
                Moved::Stayed(t) => t == self && t == after(self, step, outcome),
            },
    {
        match outcome {
            FlockOutcome::Granted => Ok(Moved::Changed(step.target)),
            FlockOutcome::WouldBlock => if step.blocking {
                Err(WOULD_BLOCK)
            } else {
                Ok(Moved::Stayed(self))
            },
            FlockOutcome::Failed(e) => Err(e),
        }
    }
}

/// The `errno` of a request that would have blocked (`EAGAIN`).
pub const WOULD_BLOCK: i32 = 11;

/// Starting from any state, a sequence of steps ends in the state that the
/// last granted step asked for, or where it started when none was granted;
/// a step that was not granted leaves the state where it was.
pub proof fn lemma_lock_sequence(s: LockState, steps: Seq<(LockStep, FlockOutcome)>)
    ensures
        !any_granted(steps) ==> after_all(s, steps) == s,
        any_granted(steps) ==> exists|i: int|
            0 <= i < steps.len() && (#[trigger] steps[i]).1 is Granted && after_all(s, steps)
                == steps[i].0.target && forall|j: int|
                i < j < steps.len() ==> !((#[trigger] steps[j]).1 is Granted),
    decreases steps.len(),
{
    if steps.len() > 0 {
        let init = steps.drop_last();
        lemma_lock_sequence(s, init);
        let n = steps.len() - 1;
        if steps.last().1 is Granted {
            assert(steps[n].1 is Granted);
        } else {
            if any_granted(steps) {
                let i = choose|i: int| 0 <= i < steps.len() && (#[trigger] steps[i]).1 is Granted;
                assert(i < n);
                assert(init[i] == steps[i]);
                assert(any_granted(init));
                let k = choose|k: int|
                    0 <= k < init.len() && (#[trigger] init[k]).1 is Granted && after_all(s, init)
                        == init[k].0.target && forall|j: int|
                        k < j < init.len() ==> !((#[trigger] init[j]).1 is Granted);
                assert(init[k] == steps[k]);
                assert forall|j: int| k < j < steps.len() implies !((#[trigger] steps[j]).1 is Granted) by {
                    if j < n {
                        assert(init[j] == steps[j]);
                    }
                }
            } else {
                assert forall|i: int| 0 <= i < init.len() implies !((#[trigger] init[i]).1 is Granted) by {
                    assert(init[i] == steps[i]);
                }
            }
        }
    }
}

} // verus!
