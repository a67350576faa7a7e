//! Coordinate the use of a subject (a cluster) among many processes that
//! share one lock file.
//!
//! The waiting, locking and subprocess work belongs to the caller; what is
//! here decides, given where a run stands and what just happened, what to do
//! next.

use vstd::prelude::*;

verus! {

/// Whether this process effected a transition.
#[derive(Debug, Copy, Clone, PartialEq, Eq, Structural)]
pub enum State {
    /// The transition was performed from this process.
    Modified,
    /// The transition was performed elsewhere, or was not needed.
    Unmodified,
}

/// Something that can be started, stopped and destroyed, such as a cluster.
///
/// Each transition reports whether this process effected it.
pub trait Subject {
    type Error;

    type Options;

    fn start(&self, options: &Self::Options) -> Result<State, Self::Error>;

    fn stop(&self) -> Result<State, Self::Error>;

    fn destroy(&self) -> Result<State, Self::Error>;

    /// Whether the subject has been created.
    fn present(&self) -> Result<bool, Self::Error>;

    fn running(&self) -> Result<bool, Self::Error>;
}

/// The lock a finished startup holds.
#[derive(Debug, Copy, Clone, PartialEq, Eq, Structural)]
pub enum Held {
    Shared,
    Exclusive,
}

/// Where a run of the startup algorithm stands.
#[derive(Debug, Copy, Clone, PartialEq, Eq, Structural)]
pub enum StartupPhase {
    /// Nothing done yet; the lock is free.
    Begin,
    /// Waiting for a non-blocking exclusive lock.
    TryingExclusive,
    /// Waiting for a blocking shared lock.
    LockingShared,
    /// Holding a shared lock; asking whether the subject runs.
    CheckingRunning,
    /// Releasing a shared lock.
    Releasing,
    /// Backing off before the next try.
    Sleeping,
    /// Holding the exclusive lock; asking whether the subject exists.
    CheckingExists,
    /// Holding the exclusive lock; starting the subject.
    Starting,
    /// Finished, one way or another.
    Done,
}

/// What happened since the last action.
#[derive(Debug, Copy, Clone, PartialEq, Eq, Structural)]
pub enum StartupEvent {
    /// Nothing yet (the first step).
    Proceed,
    /// The requested lock was granted.
    Acquired,
    /// The non-blocking request would have blocked: someone holds a lock.
    WouldBlock,
    /// The answer to "is the subject running?".
    Running(bool),
    /// The answer to "does the subject exist?".
    Exists(bool),
    /// The subject was started, with what that did.
    Started(State),
    /// The lock was released.
    Released,
    /// The back-off sleep is over.
    Slept,
    /// The last action failed.
    Failed,
}

/// What to do next.
#[derive(Debug, Copy, Clone, PartialEq, Eq, Structural)]
pub enum StartupAction {
    /// Try for an exclusive lock without blocking.
    TryExclusive,
    /// Wait for a shared lock.
    LockShared,
    /// Ask whether the subject is running.
    CheckRunning,
    /// Ask whether the subject exists.
    CheckExists,
    /// Start the subject.
    Start,
    /// Release the lock held.
    Release,
    /// Sleep this many milliseconds.
    Sleep(u64),
    /// Done: report this state, holding this lock.
    Finish(State, Held),
    /// Done: the subject does not exist and may not be created.
    DoesNotExist,
    /// Done: something failed or happened out of turn.
    Abort,
}

/// The back-off before another try: between 200 ms and 1 s, chosen by
/// `jitter`, which should be random.
pub open spec fn backoff_ms(jitter: u64) -> u64 {
    (200 + jitter % 800) as u64
}

/// The step of the startup algorithm from `phase` on `event`.
///
/// Try for the exclusive lock. When someone else holds a lock, wait for a
/// shared lock; a running subject ends the run there, unmodified. Otherwise
/// release, back off, and try again. With the exclusive lock, start the
/// subject (when `if_exists`, only once it is known to exist) and end the run
/// with what starting it did.
pub open spec fn startup_next(
    phase: StartupPhase,
    event: StartupEvent,
    if_exists: bool,
    jitter: u64,
) -> (StartupPhase, StartupAction) {
    match (phase, event) {
        (StartupPhase::Begin, StartupEvent::Proceed) => (
            StartupPhase::TryingExclusive,
            StartupAction::TryExclusive,
        ),
        (StartupPhase::TryingExclusive, StartupEvent::Acquired) => if if_exists {
            (StartupPhase::CheckingExists, StartupAction::CheckExists)
        } else {
            (StartupPhase::Starting, StartupAction::Start)
        },
        (StartupPhase::TryingExclusive, StartupEvent::WouldBlock) => (
            StartupPhase::LockingShared,
            StartupAction::LockShared,
        ),
        (StartupPhase::LockingShared, StartupEvent::Acquired) => (
            StartupPhase::CheckingRunning,
            StartupAction::CheckRunning,
        ),
        (StartupPhase::CheckingRunning, StartupEvent::Running(true)) => (
            StartupPhase::Done,
            StartupAction::Finish(State::Unmodified, Held::Shared),
        ),
        (StartupPhase::CheckingRunning, StartupEvent::Running(false)) => (
            StartupPhase::Releasing,
            StartupAction::Release,
        ),
        (StartupPhase::Releasing, StartupEvent::Released) => (
            StartupPhase::Sleeping,
            StartupAction::Sleep(backoff_ms(jitter)),
        ),
        (StartupPhase::Sleeping, StartupEvent::Slept) => (
            StartupPhase::TryingExclusive,
            StartupAction::TryExclusive,
        ),
        (StartupPhase::CheckingExists, StartupEvent::Exists(true)) => (
            StartupPhase::Starting,
            StartupAction::Start,
        ),
        (StartupPhase::CheckingExists, StartupEvent::Exists(false)) => (
            StartupPhase::Done,
            StartupAction::DoesNotExist,
        ),
        (StartupPhase::Starting, StartupEvent::Started(s)) => (
            StartupPhase::Done,
            StartupAction::Finish(s, Held::Exclusive),
        ),
        _ => (StartupPhase::Done, StartupAction::Abort),
    }
}

/// The lock held in each phase, when one is.
pub open spec fn startup_holds(phase: StartupPhase) -> Option<Held> {
    match phase {
        StartupPhase::CheckingRunning | StartupPhase::Releasing => Some(Held::Shared),
        StartupPhase::CheckingExists | StartupPhase::Starting => Some(Held::Exclusive),
        _ => None,
    }
}

/// Take one step of the startup algorithm.
pub fn startup_step(phase: StartupPhase, event: StartupEvent, if_exists: bool, jitter: u64) -> (r:
    (StartupPhase, StartupAction))
    ensures
        r == startup_next(phase, event, if_exists, jitter),
{
    match (phase, event) {
        (StartupPhase::Begin, StartupEvent::Proceed) => (
            StartupPhase::TryingExclusive,
            StartupAction::TryExclusive,
        ),
        (StartupPhase::TryingExclusive, StartupEvent::Acquired) => if if_exists {
            (StartupPhase::CheckingExists, StartupAction::CheckExists)
        } else {
            (StartupPhase::Starting, StartupAction::Start)
        },
        (StartupPhase::TryingExclusive, StartupEvent::WouldBlock) => (
            StartupPhase::LockingShared,
            StartupAction::LockShared,
        ),
        (StartupPhase::LockingShared, StartupEvent::Acquired) => (
            StartupPhase::CheckingRunning,
            StartupAction::CheckRunning,
        ),
        (StartupPhase::CheckingRunning, StartupEvent::Running(running)) => if running {
            (StartupPhase::Done, StartupAction::Finish(State::Unmodified, Held::Shared))
        } else {
            (StartupPhase::Releasing, StartupAction::Release)
        },
        (StartupPhase::Releasing, StartupEvent::Released) => (
            StartupPhase::Sleeping,
            StartupAction::Sleep(200 + jitter % 800),
        ),
        (StartupPhase::Sleeping, StartupEvent::Slept) => (
            StartupPhase::TryingExclusive,
            StartupAction::TryExclusive,
        ),
        (StartupPhase::CheckingExists, StartupEvent::Exists(exists)) => if exists {
            (StartupPhase::Starting, StartupAction::Start)
        } else {
            (StartupPhase::Done, StartupAction::DoesNotExist)
        },
        (StartupPhase::Starting, StartupEvent::Started(s)) => (
            StartupPhase::Done,
            StartupAction::Finish(s, Held::Exclusive),
        ),
        _ => (StartupPhase::Done, StartupAction::Abort),
    }
}

/// What the startup algorithm guarantees at every step: the subject is
/// started only under the exclusive lock; a run reports `Modified` only when
/// starting the subject under the exclusive lock did so; a run reports
/// `Unmodified` under a shared lock only once the subject was seen running;
/// every back-off lasts at least 200 ms and less than 1 s.
pub proof fn lemma_startup_safety(
    phase: StartupPhase,
    event: StartupEvent,
    if_exists: bool,
    jitter: u64,
)
    ensures
        ({
            let (next, action) = startup_next(phase, event, if_exists, jitter);
            &&& action is Start ==> startup_holds(next) == Some(Held::Exclusive)
            &&& action == StartupAction::Finish(State::Modified, Held::Exclusive) ==> phase
                == StartupPhase::Starting && event == StartupEvent::Started(State::Modified)
            &&& action matches StartupAction::Finish(_, Held::Shared) ==> phase
                == StartupPhase::CheckingRunning && event == StartupEvent::Running(true)
            &&& action matches StartupAction::Sleep(ms) ==> 200 <= ms < 1000
            &&& (if_exists && action is Start) ==> event == StartupEvent::Exists(true)
            &&& action is Finish || action is DoesNotExist || action is Abort <==> next
                == StartupPhase::Done
        }),
{
}

/// Where a run of the shutdown algorithm stands.
#[derive(Debug, Copy, Clone, PartialEq, Eq, Structural)]
pub enum ShutdownPhase {
    /// Holding a shared lock; nothing done yet.
    Begin,
    /// Waiting for a non-blocking upgrade to the exclusive lock.
    TryingExclusive,
    /// Holding the exclusive lock; stopping or destroying the subject.
    Acting,
    /// Releasing the exclusive lock after acting.
    Releasing,
    /// Finished, one way or another.
    Done,
}

/// What happened since the last shutdown action.
#[derive(Debug, Copy, Clone, PartialEq, Eq, Structural)]
pub enum ShutdownEvent {
    Proceed,
    Acquired,
    WouldBlock,
    /// Stopping or destroying finished; `true` when it succeeded.
    Acted(bool),
    Released,
    Failed,
}

/// What the shutdown algorithm does next.
#[derive(Debug, Copy, Clone, PartialEq, Eq, Structural)]
pub enum ShutdownAction {
    TryExclusive,
    /// Stop (or destroy) the subject.
    Act,
    /// Release the exclusive lock.
    Release,
    /// Done: report this state; the lock still held, if any, goes back to
    /// the caller.
    Finish(State, Option<Held>),
    Abort,
}

/// The step of the shutdown algorithm: try to upgrade to the exclusive lock;
/// when another process holds a lock, leave the subject alone and report
/// `Unmodified`, handing the shared lock back to the caller; otherwise stop
/// (or destroy) the subject, release and report `Modified`.
pub open spec fn shutdown_next(phase: ShutdownPhase, event: ShutdownEvent) -> (
    ShutdownPhase,
    ShutdownAction,
) {
    match (phase, event) {
        (ShutdownPhase::Begin, ShutdownEvent::Proceed) => (
            ShutdownPhase::TryingExclusive,
            ShutdownAction::TryExclusive,
        ),
        (ShutdownPhase::TryingExclusive, ShutdownEvent::WouldBlock) => (
            ShutdownPhase::Done,
            ShutdownAction::Finish(State::Unmodified, Some(Held::Shared)),
        ),
        (ShutdownPhase::TryingExclusive, ShutdownEvent::Acquired) => (
            ShutdownPhase::Acting,
            ShutdownAction::Act,
        ),
        (ShutdownPhase::Acting, ShutdownEvent::Acted(true)) => (
            ShutdownPhase::Releasing,
            ShutdownAction::Release,
        ),
        (ShutdownPhase::Releasing, ShutdownEvent::Released) => (
            ShutdownPhase::Done,
            ShutdownAction::Finish(State::Modified, None),
        ),
        _ => (ShutdownPhase::Done, ShutdownAction::Abort),
    }
}

/// Take one step of the shutdown algorithm.
pub fn shutdown_step(phase: ShutdownPhase, event: ShutdownEvent) -> (r: (
    ShutdownPhase,
    ShutdownAction,
))
    ensures
        r == shutdown_next(phase, event),
{
    match (phase, event) {
        (ShutdownPhase::Begin, ShutdownEvent::Proceed) => (
            ShutdownPhase::TryingExclusive,
            ShutdownAction::TryExclusive,
        ),
        (ShutdownPhase::TryingExclusive, ShutdownEvent::WouldBlock) => (
            ShutdownPhase::Done,
            ShutdownAction::Finish(State::Unmodified, Some(Held::Shared)),
        ),
        (ShutdownPhase::TryingExclusive, ShutdownEvent::Acquired) => (
            ShutdownPhase::Acting,
            ShutdownAction::Act,
        ),
        (ShutdownPhase::Acting, ShutdownEvent::Acted(ok)) => if ok {
            (ShutdownPhase::Releasing, ShutdownAction::Release)
        } else {
            (ShutdownPhase::Done, ShutdownAction::Abort)
        },
        (ShutdownPhase::Releasing, ShutdownEvent::Released) => (
            ShutdownPhase::Done,
            ShutdownAction::Finish(State::Modified, None),
        ),
        _ => (ShutdownPhase::Done, ShutdownAction::Abort),
    }
}

/// The shutdown algorithm acts on the subject only right after the upgrade
/// to the exclusive lock was granted, and reports `Modified` only after
/// acting succeeded and the exclusive lock was released: a process that
/// stopped the subject held the exclusive lock, so no other process held a
/// shared one. When the upgrade would block, the subject is left alone and
/// the shared lock stays with the caller.
pub proof fn lemma_shutdown_safety(phase: ShutdownPhase, event: ShutdownEvent)
    ensures
        ({
            let (next, action) = shutdown_next(phase, event);
            &&& action is Act ==> phase == ShutdownPhase::TryingExclusive && event
                == ShutdownEvent::Acquired
            &&& next == ShutdownPhase::Releasing ==> phase == ShutdownPhase::Acting && event
                == ShutdownEvent::Acted(true)
            &&& action matches ShutdownAction::Finish(State::Modified, held) ==> phase
                == ShutdownPhase::Releasing && held is None
            &&& phase == ShutdownPhase::TryingExclusive && event == ShutdownEvent::WouldBlock
                ==> action == ShutdownAction::Finish(State::Unmodified, Some(Held::Shared))
        }),
{
}

/// How a piece of work ended.
pub enum Completion<T, E> {
    /// It returned this result.
    Returned(Result<T, E>),
    /// It panicked.
    Panicked,
}

/// How a clean-up ended.
pub enum CleanupEnd<E> {
    Succeeded,
    Failed(E),
    Panicked,
}

/// What the combination of a task and its clean-up comes to.
pub enum Verdict<T, E> {
    /// Return this result.
    Return(Result<T, E>),
    /// Carry on panicking with the task's panic.
    ResumeTaskPanic,
    /// Carry on panicking with the clean-up's panic.
    ResumeCleanupPanic,
}

/// A task followed by clean-up that always runs: the task's error or panic
/// wins over anything the clean-up does; after a successful task, the
/// clean-up's error or panic is passed on.
pub open spec fn finally_spec<T, E>(task: Completion<T, E>, cleanup: CleanupEnd<E>) -> Verdict<
    T,
    E,
> {
    match task {
        Completion::Panicked => Verdict::ResumeTaskPanic,
        Completion::Returned(Err(e)) => Verdict::Return(Err(e)),
        Completion::Returned(Ok(t)) => match cleanup {
            CleanupEnd::Succeeded => Verdict::Return(Ok(t)),
            CleanupEnd::Failed(ce) => Verdict::Return(Err(ce)),
            CleanupEnd::Panicked => Verdict::ResumeCleanupPanic,
        },
    }
}

/// Combine the ends of a task and of the clean-up that ran after it.
pub fn finally_verdict<T, E>(task: Completion<T, E>, cleanup: CleanupEnd<E>) -> (r: Verdict<T, E>)
    ensures
        r == finally_spec(task, cleanup),
{
    match task {
        Completion::Panicked => Verdict::ResumeTaskPanic,
        Completion::Returned(Err(e)) => Verdict::Return(Err(e)),
        Completion::Returned(Ok(t)) => match cleanup {
            CleanupEnd::Succeeded => Verdict::Return(Ok(t)),
            CleanupEnd::Failed(ce) => Verdict::Return(Err(ce)),
            CleanupEnd::Panicked => Verdict::ResumeCleanupPanic,
        },
    }
}

/// Whether clean-up that runs only on failure is due after work that ended
/// like `task`.
pub fn cleanup_needed<T, E>(task: &Completion<T, E>) -> (r: bool)
    ensures
        r <==> !(task matches Completion::Returned(Ok(_))),
{
    match task {
        Completion::Returned(Ok(_)) => false,
        _ => true,
    }
}

/// Whether the end of the clean-up is dropped from the verdict (and so
/// should be logged instead).
pub fn cleanup_suppressed<T, E>(task: &Completion<T, E>, cleanup: &CleanupEnd<E>) -> (r: bool)
    ensures
        r <==> !(task matches Completion::Returned(Ok(_))) && !(cleanup is Succeeded),
{
    match (task, cleanup) {
        (Completion::Returned(Ok(_)), _) => false,
        (_, CleanupEnd::Succeeded) => false,
        _ => true,
    }
}

/// A panicking task is never swallowed: whatever the clean-up does, the
/// task's panic carries on; and a failing task's error is what is returned.
pub proof fn lemma_task_panic_wins<T, E>(cleanup: CleanupEnd<E>, e: E)
    ensures
        finally_spec(Completion::<T, E>::Panicked, cleanup) is ResumeTaskPanic,
        finally_spec(Completion::<T, E>::Returned(Err(e)), cleanup) == Verdict::<T, E>::Return(
            Err(e),
        ),
{
}

/// How a [`Guard`] leaves its subject when it is dropped.
#[derive(Debug, Copy, Clone, PartialEq, Eq, Structural)]
pub enum GuardDropMode {
    Stop,
    Destroy,
}

/// A subject tied to a scope: it holds a shared lock on the subject and,
/// when dropped, stops or destroys the subject (see [`GuardDropMode`]).
pub struct Guard<L, S> {
    mode: GuardDropMode,
    lock: Option<L>,
    subject: S,
}

impl<L, S> Guard<L, S> {
    pub closed spec fn spec_mode(&self) -> GuardDropMode {
        self.mode
    }

    pub closed spec fn spec_lock(&self) -> Option<L> {
        self.lock
    }

    pub closed spec fn spec_subject(&self) -> S {
        self.subject
    }

    /// Guard `subject`, holding `lock`; it stops the subject by default.
    pub fn new(lock: L, subject: S) -> (r: Guard<L, S>)
        ensures
            r.spec_mode() == GuardDropMode::Stop,
            r.spec_lock() == Some(lock),
            r.spec_subject() == subject,
    {
        Guard { mode: GuardDropMode::Stop, lock: Some(lock), subject }
    }

    /// Configures the guard to stop the subject when it goes out of scope.
    pub fn and_stop(self) -> (r: Guard<L, S>)
        ensures
            r.spec_mode() == GuardDropMode::Stop,
            r.spec_lock() == self.spec_lock(),
            r.spec_subject() == self.spec_subject(),
    {
        Guard { mode: GuardDropMode::Stop, lock: self.lock, subject: self.subject }
    }

    /// Configures the guard to destroy the subject when it goes out of scope.
    pub fn and_destroy(self) -> (r: Guard<L, S>)
        ensures
            r.spec_mode() == GuardDropMode::Destroy,
            r.spec_lock() == self.spec_lock(),
            r.spec_subject() == self.spec_subject(),
    {
        Guard { mode: GuardDropMode::Destroy, lock: self.lock, subject: self.subject }
    }

    pub fn mode(&self) -> (r: GuardDropMode)
        ensures
            r == self.spec_mode(),
    {
        self.mode
    }

    pub fn subject(&self) -> (r: &S)
        ensures
            *r == self.spec_subject(),
    {
        &self.subject
    }

    /// Hand over the lock, once: a second call yields `None`.
    pub fn take_lock(&mut self) -> (r: Option<L>)
        ensures
            r == old(self).spec_lock(),
            final(self).spec_lock() is None,
            final(self).spec_mode() == old(self).spec_mode(),
            final(self).spec_subject() == old(self).spec_subject(),
    {
        self.lock.take()
    }
}

} // verus!
