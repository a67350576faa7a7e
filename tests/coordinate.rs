use pgdo::coordinate::{
    cleanup_needed, cleanup_suppressed, finally_verdict, shutdown_step, startup_step, CleanupEnd,
    Completion, Guard, GuardDropMode, Held, ShutdownAction, ShutdownEvent, ShutdownPhase, State,
    StartupAction, StartupEvent, StartupPhase, Verdict,
};
use pgdo::lock::{FlockOutcome, LockState, LockStep, Moved};

#[test]
fn startup_winner_starts_the_subject() {
    let (p, a) = startup_step(StartupPhase::Begin, StartupEvent::Proceed, false, 0);
    assert_eq!((StartupPhase::TryingExclusive, StartupAction::TryExclusive), (p, a));
    let (p, a) = startup_step(p, StartupEvent::Acquired, false, 0);
    assert_eq!((StartupPhase::Starting, StartupAction::Start), (p, a));
    let (p, a) = startup_step(p, StartupEvent::Started(State::Modified), false, 0);
    assert_eq!((StartupPhase::Done, StartupAction::Finish(State::Modified, Held::Exclusive)), (p, a));
}

#[test]
fn startup_loser_waits_then_uses_the_running_subject() {
    let (p, _) = startup_step(StartupPhase::Begin, StartupEvent::Proceed, false, 0);
    let (p, a) = startup_step(p, StartupEvent::WouldBlock, false, 0);
    assert_eq!((StartupPhase::LockingShared, StartupAction::LockShared), (p, a));
    let (p, a) = startup_step(p, StartupEvent::Acquired, false, 0);
    assert_eq!((StartupPhase::CheckingRunning, StartupAction::CheckRunning), (p, a));
    let (p, a) = startup_step(p, StartupEvent::Running(true), false, 0);
    assert_eq!((StartupPhase::Done, StartupAction::Finish(State::Unmodified, Held::Shared)), (p, a));
}

#[test]
fn startup_backs_off_when_the_subject_is_not_running() {
    let (p, a) = startup_step(StartupPhase::CheckingRunning, StartupEvent::Running(false), false, 0);
    assert_eq!((StartupPhase::Releasing, StartupAction::Release), (p, a));
    let (p, a) = startup_step(p, StartupEvent::Released, false, 1234);
    assert_eq!((StartupPhase::Sleeping, StartupAction::Sleep(200 + 1234 % 800)), (p, a));
    let (_, a) = startup_step(StartupPhase::Releasing, StartupEvent::Released, false, u64::MAX);
    assert!(matches!(a, StartupAction::Sleep(ms) if (200..1000).contains(&ms)));
    let (p, a) = startup_step(p, StartupEvent::Slept, false, 0);
    assert_eq!((StartupPhase::TryingExclusive, StartupAction::TryExclusive), (p, a));
}

#[test]
fn startup_if_exists_refuses_to_create() {
    let (p, a) = startup_step(StartupPhase::TryingExclusive, StartupEvent::Acquired, true, 0);
    assert_eq!((StartupPhase::CheckingExists, StartupAction::CheckExists), (p, a));
    let (p2, a2) = startup_step(p, StartupEvent::Exists(false), true, 0);
    assert_eq!((StartupPhase::Done, StartupAction::DoesNotExist), (p2, a2));
    let (p3, a3) = startup_step(p, StartupEvent::Exists(true), true, 0);
    assert_eq!((StartupPhase::Starting, StartupAction::Start), (p3, a3));
}

#[test]
fn startup_aborts_on_failure_or_out_of_turn_events() {
    let (p, a) = startup_step(StartupPhase::LockingShared, StartupEvent::Failed, false, 0);
    assert_eq!((StartupPhase::Done, StartupAction::Abort), (p, a));
    let (_, a) = startup_step(StartupPhase::Begin, StartupEvent::Running(true), false, 0);
    assert_eq!(StartupAction::Abort, a);
}

#[test]
fn shutdown_leaves_a_shared_subject_running() {
    let (p, a) = shutdown_step(ShutdownPhase::Begin, ShutdownEvent::Proceed);
    assert_eq!((ShutdownPhase::TryingExclusive, ShutdownAction::TryExclusive), (p, a));
    let (p, a) = shutdown_step(p, ShutdownEvent::WouldBlock);
    // The subject stays up, and the shared lock goes back to the caller.
    assert_eq!(
        (ShutdownPhase::Done, ShutdownAction::Finish(State::Unmodified, Some(Held::Shared))),
        (p, a)
    );
}

#[test]
fn shutdown_stops_an_unshared_subject() {
    let (p, a) = shutdown_step(ShutdownPhase::TryingExclusive, ShutdownEvent::Acquired);
    assert_eq!((ShutdownPhase::Acting, ShutdownAction::Act), (p, a));
    let (p, a) = shutdown_step(p, ShutdownEvent::Acted(true));
    assert_eq!((ShutdownPhase::Releasing, ShutdownAction::Release), (p, a));
    let (_, a) = shutdown_step(p, ShutdownEvent::Released);
    assert_eq!(ShutdownAction::Finish(State::Modified, None), a);
    let (_, a) = shutdown_step(ShutdownPhase::Acting, ShutdownEvent::Acted(false));
    assert_eq!(ShutdownAction::Abort, a);
}

#[test]
fn finally_prefers_the_task_outcome() {
    let v: Verdict<&str, &str> = finally_verdict(Completion::Returned(Ok("ok")), CleanupEnd::Succeeded);
    assert!(matches!(v, Verdict::Return(Ok("ok"))));
    let v: Verdict<&str, &str> =
        finally_verdict(Completion::Returned(Ok("ok")), CleanupEnd::Failed("cleanup"));
    assert!(matches!(v, Verdict::Return(Err("cleanup"))));
    let v: Verdict<&str, &str> = finally_verdict(Completion::Returned(Ok("ok")), CleanupEnd::Panicked);
    assert!(matches!(v, Verdict::ResumeCleanupPanic));
    let v: Verdict<&str, &str> =
        finally_verdict(Completion::Returned(Err("task")), CleanupEnd::Failed("cleanup"));
    assert!(matches!(v, Verdict::Return(Err("task"))));
    let v: Verdict<&str, &str> = finally_verdict(Completion::Panicked, CleanupEnd::Failed("cleanup"));
    assert!(matches!(v, Verdict::ResumeTaskPanic));
    let v: Verdict<&str, &str> = finally_verdict(Completion::Panicked, CleanupEnd::Panicked);
    assert!(matches!(v, Verdict::ResumeTaskPanic));
}

#[test]
fn cleanup_runs_only_after_failure() {
    assert!(!cleanup_needed(&Completion::<(), ()>::Returned(Ok(()))));
    assert!(cleanup_needed(&Completion::<(), ()>::Returned(Err(()))));
    assert!(cleanup_needed(&Completion::<(), ()>::Panicked));
    assert!(cleanup_suppressed(&Completion::<(), &str>::Panicked, &CleanupEnd::Failed("x")));
    assert!(!cleanup_suppressed(&Completion::<(), &str>::Returned(Ok(())), &CleanupEnd::Failed("x")));
    assert!(!cleanup_suppressed(&Completion::<(), &str>::Panicked, &CleanupEnd::Succeeded));
}

#[test]
fn guard_modes_and_lock_hand_over() {
    let guard = Guard::new(7u8, "subject");
    assert_eq!(GuardDropMode::Stop, guard.mode());
    let guard = guard.and_destroy();
    assert_eq!(GuardDropMode::Destroy, guard.mode());
    let mut guard = guard.and_stop();
    assert_eq!(GuardDropMode::Stop, guard.mode());
    assert_eq!("subject", *guard.subject());
    assert_eq!(Some(7), guard.take_lock());
    assert_eq!(None, guard.take_lock());
}

#[test]
fn lock_transitions() {
    let shared = LockStep { target: LockState::Shared, blocking: false };
    assert_eq!(Ok(Moved::Changed(LockState::Shared)), LockState::Unlocked.attempt(shared, FlockOutcome::Granted));
    assert_eq!(Ok(Moved::Stayed(LockState::Unlocked)), LockState::Unlocked.attempt(shared, FlockOutcome::WouldBlock));
    assert_eq!(Err(5), LockState::Unlocked.attempt(shared, FlockOutcome::Failed(5)));
    let exclusive = LockStep { target: LockState::Exclusive, blocking: true };
    assert_eq!(Ok(Moved::Changed(LockState::Exclusive)), LockState::Shared.attempt(exclusive, FlockOutcome::Granted));
    assert!(LockState::Shared.attempt(exclusive, FlockOutcome::WouldBlock).is_err());
    let unlock = LockStep { target: LockState::Unlocked, blocking: false };
    assert_eq!(Ok(Moved::Stayed(LockState::Exclusive)), LockState::Exclusive.attempt(unlock, FlockOutcome::WouldBlock));
}
