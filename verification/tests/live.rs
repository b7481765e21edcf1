//! The sessions that a daemon runs, from their launch to its shutdown.

use coven_cli::launch::{
    finish_first_message, finish_launch, first_message_failure, launch_session, plan_launch, uses_piped_command, HarnessLaunchMode,
    LaunchTransport, SessionLaunch,
};
use coven_cli::live::{
    finish_shutdown, input_data, refused_message, write_stream_message, InputError, KillError,
    LiveSessionHandle, LiveSessionKind, LiveSessionRuntime, Registered,
};
use coven_cli::live_events::{
    begin_boundary, discarded_output_notice, recorded_exit_notice, recorded_output_notice,
    with_session_event_boundary, BoundaryAction, BoundaryStage, OutputObserver,
    OutputStep, SessionEventBoundaryError,
};
use coven_cli::live_gate::{
    failed_spawn_message, Account, Asked, late_spawn_message, LaunchDrain, LiveLaunchGate, RuntimeKiller,
    ADMISSION_DRAIN_MILLIS, LAUNCH_REFUSED, SPAWN_REFUSED,
};
use coven_cli::shutdown::{ClockStep, ShutdownClock, ShutdownStep};
use std::sync::atomic::{AtomicUsize, Ordering};
use std::sync::{Arc, Mutex};

#[derive(Default)]
struct SharedBuffer {
    text: Arc<Mutex<String>>,
}

/// What an owner was asked, in words.
fn words(account: &Account) -> Vec<&'static str> {
    account
        .entries()
        .iter()
        .map(|entry| match entry {
            Asked::Kill(_) => "kill",
            Asked::Signal(_) => "signal",
            Asked::Wait(..) => "wait",
        })
        .collect()
}

/// An owner that records what it is asked. It has no way of its own to signal its tree, and
/// kills it.
#[derive(Clone, Debug)]
struct RecordingKiller {
    killed: Arc<Mutex<bool>>,
    waited: Arc<Mutex<Vec<u64>>>,
    account: Account,
}

impl Default for RecordingKiller {
    fn default() -> Self {
        RecordingKiller {
            killed: Arc::default(),
            waited: Arc::default(),
            account: Account::new(),
        }
    }
}

impl RuntimeKiller for RecordingKiller {
    fn kill(&mut self) -> Result<(), String> {
        *self.killed.lock().unwrap() = true;
        self.account.killed(Ok(()))
    }

    fn signal_shutdown(&mut self) -> Result<(), String> {
        *self.killed.lock().unwrap() = true;
        self.account.signalled(Ok(()))
    }

    fn wait_for_shutdown_quiescence(&mut self, timeout_millis: u64) -> Result<(), String> {
        self.waited.lock().unwrap().push(timeout_millis);
        self.account.waited(timeout_millis, Ok(()))
    }
}

/// An owner that fails, and counts how often it was asked to kill.
#[derive(Debug)]
struct FailingKiller {
    message: String,
    attempts: Arc<AtomicUsize>,
    account: Account,
}

impl FailingKiller {
    fn new(message: &str) -> FailingKiller {
        FailingKiller {
            message: message.to_string(),
            attempts: Arc::default(),
            account: Account::new(),
        }
    }

    fn fail(&mut self) -> Result<(), String> {
        self.attempts.fetch_add(1, Ordering::AcqRel);
        Err(self.message.clone())
    }
}

impl RuntimeKiller for FailingKiller {
    fn kill(&mut self) -> Result<(), String> {
        let outcome = self.fail();
        self.account.killed(outcome)
    }

    fn signal_shutdown(&mut self) -> Result<(), String> {
        let outcome = self.fail();
        self.account.signalled(outcome)
    }

    fn wait_for_shutdown_quiescence(&mut self, timeout_millis: u64) -> Result<(), String> {
        let outcome = Err(format!("{} while waiting", self.message));
        self.account.waited(timeout_millis, outcome)
    }
}

/// An owner that tells when it is dropped, and has nothing to wait for.
#[derive(Debug)]
struct DroppingKiller {
    dropped: Arc<Mutex<bool>>,
    account: Account,
}

impl RuntimeKiller for DroppingKiller {
    fn kill(&mut self) -> Result<(), String> {
        self.account.killed(Ok(()))
    }

    fn signal_shutdown(&mut self) -> Result<(), String> {
        self.account.signalled(Ok(()))
    }

    fn wait_for_shutdown_quiescence(&mut self, timeout_millis: u64) -> Result<(), String> {
        self.account.nothing_to_wait_for(timeout_millis)
    }
}

impl Drop for DroppingKiller {
    fn drop(&mut self) {
        *self.dropped.lock().unwrap() = true;
    }
}

/// A clock that runs down by the same amount each time it is read.
struct StepClock {
    left: u64,
    step: u64,
    told: Vec<ClockStep>,
}

impl ShutdownClock for StepClock {
    fn start(&mut self, budget_millis: u64) {
        self.left = budget_millis;
        self.told.push(ClockStep::Started(budget_millis));
    }

    fn remaining_millis(&mut self) -> u64 {
        let left = self.left;
        self.left = self.left.saturating_sub(self.step);
        self.told.push(ClockStep::Left(left));
        left
    }
}

fn clock() -> StepClock {
    StepClock { left: 0, step: 400, told: Vec::new() }
}

fn launch(harness: &str, mode: HarnessLaunchMode) -> SessionLaunch {
    SessionLaunch {
        id: "session-x".to_string(),
        cwd: "/tmp/x".to_string(),
        harness: harness.to_string(),
        launch_mode: mode,
        prompt: "hello".to_string(),
        familiar_id: None,
    }
}

type Runtime = LiveSessionRuntime<SharedBuffer, RecordingKiller>;

#[test]
fn live_runtime_rejects_stream_launch_for_non_stream_capable_harness() {
    let mut runtime = Runtime::new();
    let launch = launch("codex", HarnessLaunchMode::Stream);
    let error = launch_session(&mut runtime, &launch, Ok(()), Ok(()), false, "asking", false)
        .expect_err("codex does not stream");
    assert!(
        error.contains("does not support stream-mode"),
        "rejection message should name the constraint, got: {error}"
    );
    assert!(runtime.launches_drained());
}

#[test]
fn live_runtime_reaps_registered_session_on_observed_exit() {
    let mut runtime = Runtime::with_coven_home("/home/coven".to_string());
    let mut registration = runtime.new_registration();
    runtime
        .register_kind_with_registration(
            "completed-session".to_string(),
            LiveSessionKind::Pty,
            SharedBuffer::default(),
            RecordingKiller::default(),
            &registration,
        )
        .expect("registered");
    let removed = runtime.mark_exited("completed-session", &mut registration);
    assert!(!runtime.is_live("completed-session"));
    assert!(removed.is_some(), "the handle comes out, to be dropped");
    assert!(registration.has_exited());
}

#[test]
fn live_runtime_does_not_register_session_after_early_observed_exit() {
    let mut runtime = Runtime::new();
    let mut registration = runtime.new_registration();
    assert!(runtime.mark_exited("fast-session", &mut registration).is_none());
    runtime
        .register_kind_with_registration(
            "fast-session".to_string(),
            LiveSessionKind::Pty,
            SharedBuffer::default(),
            RecordingKiller::default(),
            &registration,
        )
        .expect("not refused");
    assert!(!runtime.is_live("fast-session"));
}

#[test]
fn live_runtime_stale_exit_observer_does_not_reap_replacement_registration() {
    let mut runtime = Runtime::new();
    let mut stale = runtime.new_registration();
    runtime
        .register_kind_with_registration(
            "reused-session".to_string(),
            LiveSessionKind::Pty,
            SharedBuffer::default(),
            RecordingKiller::default(),
            &stale,
        )
        .expect("registered");
    let stale_token = runtime.current_token("reused-session");
    let replacement = runtime.new_registration();
    runtime
        .register_kind_with_registration(
            "reused-session".to_string(),
            LiveSessionKind::Pty,
            SharedBuffer::default(),
            RecordingKiller::default(),
            &replacement,
        )
        .expect("registered");
    let replacement_token = runtime.current_token("reused-session");
    assert_ne!(stale_token, replacement_token);

    assert!(runtime.mark_exited("reused-session", &mut stale).is_none());
    assert!(replacement_token.is_some());
    assert_eq!(runtime.current_token("reused-session"), replacement_token);
}

#[test]
fn live_runtime_replacement_drops_old_handle_after_registry_unlock() {
    let mut runtime = LiveSessionRuntime::<SharedBuffer, DroppingKiller>::new();
    let dropped = Arc::new(Mutex::new(false));
    let first = runtime.new_registration();
    let entered = runtime.enter(
        "reused-session".to_string(),
        LiveSessionKind::Pty,
        SharedBuffer::default(),
        DroppingKiller { dropped: Arc::clone(&dropped), account: Account::new() },
        &first,
    );
    drop(entered);
    assert!(!*dropped.lock().unwrap());
    let second = runtime.new_registration();
    let entered = runtime.enter(
        "reused-session".to_string(),
        LiveSessionKind::Pty,
        SharedBuffer::default(),
        DroppingKiller { dropped: Arc::default(), account: Account::new() },
        &second,
    );
    // The old handle is in the caller's hands, who holds the registry no longer.
    assert!(!*dropped.lock().unwrap());
    match entered {
        Registered::Admitted { replaced, removed } => {
            assert!(removed.is_none());
            drop(replaced.expect("the old handle comes out"));
        }
        Registered::Rejected(_) => panic!("not shutting down"),
    }
    assert!(*dropped.lock().unwrap());
}

#[test]
fn live_runtime_writes_input_to_registered_session() {
    let mut runtime = Runtime::new();
    let output = SharedBuffer::default();
    let text = Arc::clone(&output.text);
    runtime
        .register("session-1".to_string(), output, RecordingKiller::default())
        .expect("registered");
    let payload: serde_json::Value =
        serde_json::from_str(r#"{ "data": "hello live pty" }"#).expect("a payload");
    let (input, written) = runtime.send_input("session-1", &payload).expect("live");
    input.text.lock().unwrap().push_str(&written);
    assert_eq!(*text.lock().unwrap(), "hello live pty");
}

#[test]
fn stream_sessions_take_lines_of_json() {
    let mut runtime = Runtime::new();
    runtime
        .register_kind(
            "s".to_string(),
            LiveSessionKind::Stream,
            SharedBuffer::default(),
            RecordingKiller::default(),
        )
        .expect("registered");
    let payload: serde_json::Value = serde_json::from_str(r#"{"data":"a \"b\"\n"}"#).expect("json");
    let (_, line) = runtime.send_input("s", &payload).expect("live");
    assert_eq!(line, write_stream_message("a \"b\"\n"));
    assert!(line.ends_with("}\n"));
    assert_eq!(line.matches('\n').count(), 1);
    let envelope: serde_json::Value = serde_json::from_str(&line).expect("one line of JSON");
    assert_eq!(envelope["type"], "user");
    assert_eq!(envelope["message"]["role"], "user");
    assert_eq!(envelope["message"]["content"][0]["type"], "text");
    assert_eq!(envelope["message"]["content"][0]["text"], "a \"b\"\n");
}

#[test]
fn input_needs_data_and_a_live_session() {
    let runtime = Runtime::new();
    let none: serde_json::Value = serde_json::from_str("{}").expect("json");
    match runtime.send_input("s", &none) {
        Err(error @ InputError::NoData) => {
            assert_eq!(error.message(), "input payload requires string field `data`");
        }
        _ => panic!("no data"),
    }
    let number: serde_json::Value = serde_json::from_str(r#"{"data":1}"#).expect("json");
    assert_eq!(input_data(&number), None);
    let some: serde_json::Value = serde_json::from_str(r#"{"data":"x"}"#).expect("json");
    match runtime.send_input("s", &some) {
        Err(error @ InputError::NotLive(_)) => {
            assert_eq!(error.message(), "session `s` is not live in this daemon");
        }
        _ => panic!("not live"),
    }
}

#[test]
fn live_runtime_kills_and_removes_registered_session() {
    let mut runtime = Runtime::new();
    let killed = Arc::new(Mutex::new(false));
    runtime
        .register(
            "session-1".to_string(),
            SharedBuffer::default(),
            RecordingKiller { killed: killed.clone(), ..RecordingKiller::default() },
        )
        .expect("registered");
    let run = runtime.kill_session("session-1");
    run.outcome.expect("killed");
    assert!(*killed.lock().unwrap());
    assert_eq!(words(&run.handle.expect("the handle comes out").killer.account), vec!["kill"]);
    let error = runtime.kill_session("session-1").outcome.expect_err("gone");
    assert!(error.message().contains("not live"));
}

#[test]
fn runtime_shutdown_kills_all_handles_and_refuses_new_registrations() {
    let mut runtime = Runtime::new();
    let first = Arc::new(Mutex::new(false));
    let second = Arc::new(Mutex::new(false));
    let waited = Arc::new(Mutex::new(Vec::new()));
    for (id, killed) in [("first", Arc::clone(&first)), ("second", Arc::clone(&second))] {
        runtime
            .register(
                id.to_string(),
                SharedBuffer::default(),
                RecordingKiller {
                    killed,
                    waited: Arc::clone(&waited),
                    ..RecordingKiller::default()
                },
            )
            .expect("registered");
    }
    let mut clock = clock();
    let run = runtime.shutdown_all(&mut clock);
    run.outcome.expect("all terminated");
    for handle in &run.handles {
        assert_eq!(words(&handle.killer.account), vec!["signal", "wait"]);
    }
    assert_eq!(
        *run.log.steps(),
        vec![
            ShutdownStep::Signalled(0),
            ShutdownStep::Signalled(1),
            ShutdownStep::Started(1000),
            ShutdownStep::Left(1000),
            ShutdownStep::Waited(0, 1000),
            ShutdownStep::Left(600),
            ShutdownStep::Waited(1, 600),
        ],
        "all are signalled before the first is waited for"
    );
    assert!(*first.lock().unwrap());
    assert!(*second.lock().unwrap());
    assert_eq!(
        clock.told,
        vec![ClockStep::Started(1000), ClockStep::Left(1000), ClockStep::Left(600)]
    );
    assert_eq!(*waited.lock().unwrap(), vec![1000, 600], "one budget for all");

    let late_killed = Arc::new(Mutex::new(false));
    let late = runtime
        .register(
            "late".to_string(),
            SharedBuffer::default(),
            RecordingKiller { killed: Arc::clone(&late_killed), ..RecordingKiller::default() },
        )
        .expect_err("shutdown must close admission");
    assert!(late.text.contains("shutting down"), "{}", late.text);
    assert_eq!(words(&late.owner.account), vec!["kill"], "the refused owner is killed once");
    assert!(!runtime.is_live("late"));
    assert!(*late_killed.lock().unwrap(), "the refused owner is killed");
}

#[test]
fn post_lock_shutdown_rejection_kills_without_holding_registry_lock() {
    let mut runtime = Runtime::new();
    let registration = runtime.new_registration();
    assert!(runtime.begin_shutdown().is_none());
    let killed = Arc::new(Mutex::new(false));
    let entered = runtime.enter(
        "late-after-check".to_string(),
        LiveSessionKind::Pty,
        SharedBuffer::default(),
        RecordingKiller { killed: Arc::clone(&killed), ..RecordingKiller::default() },
        &registration,
    );
    // The owner is handed back before it is killed, so that no lock is held meanwhile.
    assert!(!*killed.lock().unwrap());
    let error = match entered {
        Registered::Rejected(mut owner) => {
            coven_cli::live::reject_registration_during_shutdown(&mut owner)
        }
        Registered::Admitted { .. } => panic!("shutdown must reject admission"),
    };
    assert!(error.contains("shutting down"), "{error}");
    assert!(*killed.lock().unwrap());
    assert!(runtime.take_all().is_empty());
}

#[test]
fn late_registration_reports_shutdown_and_cleanup_failure() {
    let mut runtime = LiveSessionRuntime::<SharedBuffer, FailingKiller>::new();
    runtime.begin_shutdown();
    let diagnostic = runtime
        .register(
            "late-cleanup-failure".to_string(),
            SharedBuffer::default(),
            FailingKiller::new("synthetic cleanup failure"),
        )
        .expect_err("late registration must fail closed when cleanup also fails")
        .text;
    assert!(diagnostic.contains("shutting down"), "{diagnostic}");
    assert!(
        diagnostic.contains("failed to terminate the rejected session process tree"),
        "{diagnostic}"
    );
    assert!(diagnostic.contains("synthetic cleanup failure"), "{diagnostic}");
    assert_eq!(diagnostic, refused_message(&Err("synthetic cleanup failure".to_string())));
}

#[test]
fn failed_kill_retains_exact_handle_for_retry() {
    let mut runtime = LiveSessionRuntime::<SharedBuffer, FailingKiller>::new();
    let attempts = Arc::new(AtomicUsize::new(0));
    runtime
        .register(
            "retry-kill".to_string(),
            SharedBuffer::default(),
            FailingKiller {
                message: "quiescence proof timed out".to_string(),
                attempts: Arc::clone(&attempts),
                account: Account::new(),
            },
        )
        .expect("registered");
    let token = runtime.current_token("retry-kill");
    for expected_attempts in 1..=2 {
        let error = runtime
            .kill_session("retry-kill")
            .outcome
            .expect_err("failing quiescence proof remains retryable");
        assert!(matches!(error, KillError::Failed(_)));
        assert!(error.message().contains("quiescence proof"));
        assert_eq!(attempts.load(Ordering::Acquire), expected_attempts);
        assert!(runtime.is_live("retry-kill"), "failed kill discarded the exact ownership handle");
        assert_eq!(runtime.current_token("retry-kill"), token);
    }
}

#[test]
fn a_kill_never_displaces_a_newer_life() {
    let mut runtime = LiveSessionRuntime::<SharedBuffer, FailingKiller>::new();
    runtime
        .register("s".to_string(), SharedBuffer::default(), FailingKiller::new("old"))
        .expect("registered");
    let old = runtime.take_for_kill("s").expect("live");
    runtime
        .register("s".to_string(), SharedBuffer::default(), FailingKiller::new("new"))
        .expect("registered");
    let token = runtime.current_token("s");
    let (outcome, dropped) = runtime.settle_kill("s", old, Err("failed".to_string()), false);
    assert_eq!(outcome, Err("failed".to_string()));
    assert_eq!(dropped.expect("the old handle is handed out").killer.message, "old");
    assert_eq!(runtime.current_token("s"), token);
}

#[test]
fn shutdown_reports_every_failure_in_order() {
    let handles = vec![
        LiveSessionHandle {
            kind: LiveSessionKind::Pty,
            input: SharedBuffer::default(),
            killer: FailingKiller::new("a"),
            token: 0,
        },
        LiveSessionHandle {
            kind: LiveSessionKind::Pty,
            input: SharedBuffer::default(),
            killer: FailingKiller::new("b"),
            token: 1,
        },
    ];
    let run = finish_shutdown(Some("launches".to_string()), handles, &mut clock());
    assert_eq!(
        run.outcome,
        Err("failed to terminate 5 live session process tree(s): \
             launches; a; b; a while waiting; b while waiting"
            .to_string())
    );
    let none: Vec<LiveSessionHandle<SharedBuffer, FailingKiller>> = Vec::new();
    let run = finish_shutdown(None, none, &mut clock());
    assert_eq!(run.outcome, Ok(()));
    assert_eq!(*run.log.steps(), vec![ShutdownStep::Started(1000)]);
}

#[test]
fn an_owner_with_nothing_to_wait_for_answers_at_once() {
    let dropped = Arc::new(Mutex::new(false));
    let handles = vec![LiveSessionHandle {
        kind: LiveSessionKind::Pty,
        input: SharedBuffer::default(),
        killer: DroppingKiller { dropped: Arc::clone(&dropped), account: Account::new() },
        token: 0,
    }];
    let run = finish_shutdown(None, handles, &mut clock());
    assert_eq!(run.outcome, Ok(()));
    assert_eq!(words(&run.handles[0].killer.account), vec!["signal", "wait"]);
    assert!(!*dropped.lock().unwrap(), "the handles come out, to be dropped");
    drop(run.handles);
    assert!(*dropped.lock().unwrap());
}

#[test]
fn shutdown_budget_does_not_wait_for_spawn_closure_after_ownership_publication() {
    let mut runtime = Runtime::new();
    let mut admission = runtime.begin_launch().expect("admitted");
    let killed = Arc::new(Mutex::new(false));
    runtime
        .publish_launch(
            &mut admission,
            RecordingKiller { killed: Arc::clone(&killed), ..RecordingKiller::default() },
        )
        .expect("published");
    runtime.shutdown_all(&mut clock()).outcome.expect("signalled");
    assert!(*killed.lock().unwrap());
    assert!(!runtime.launches_drained());
    assert!(runtime.release_launch(&mut admission));
    assert!(runtime.launches_drained());
}

#[test]
fn shutdown_budget_closes_gate_while_spawn_closure_is_stalled_before_publication() {
    let mut runtime = Runtime::new();
    let mut admission = runtime.begin_launch().expect("admitted");
    runtime.shutdown_all(&mut clock()).outcome.expect("nothing to signal");
    let killed = Arc::new(Mutex::new(false));
    let error = runtime
        .publish_launch(
            &mut admission,
            RecordingKiller { killed: Arc::clone(&killed), ..RecordingKiller::default() },
        )
        .expect_err("a closed launch gate refuses late ownership");
    assert!(error.text.contains("shutting down"), "{}", error.text);
    assert_eq!(words(&error.owner.account), vec!["signal"]);
    assert!(*killed.lock().unwrap(), "late publication did not invoke the exact supplied killer");
}

#[test]
fn launches_are_numbered_published_once_and_released() {
    let mut gate = LiveLaunchGate::<RecordingKiller>::new();
    assert!(gate.is_drained());
    let mut first = gate.begin().expect("open");
    let mut second = gate.begin().expect("open");
    assert!(gate.publish(&mut first, RecordingKiller::default()).is_ok());
    let twice = gate.publish(&mut first, RecordingKiller::default()).expect_err("published");
    assert_eq!(twice.text, "live launch killer was published twice");
    assert!(words(&twice.owner.account).is_empty());
    assert!(gate.spawn_finished(&first).is_ok());
    assert_eq!(
        gate.spawn_finished(&second),
        Err("spawn returned without publishing exact ownership".to_string())
    );
    assert!(!gate.finish(&mut first));
    assert!(!gate.finish(&mut first), "released already");
    assert!(gate.finish(&mut second));
    assert!(gate.is_drained());
    assert!(gate.close().is_empty());
    assert_eq!(gate.begin().err().as_deref(), Some(LAUNCH_REFUSED));
}

#[test]
fn a_failed_spawn_is_cleaned_up() {
    let mut gate = LiveLaunchGate::<FailingKiller>::new();
    let mut admission = gate.begin().expect("open");
    assert_eq!(gate.spawn_failed(&admission, "no such file"), "no such file");
    gate.publish(&mut admission, FailingKiller::new("stuck")).expect("open");
    assert_eq!(
        gate.spawn_failed(&admission, "exec failed"),
        "exec failed; failed to terminate rejected spawned session: stuck"
    );
    assert_eq!(failed_spawn_message("e", &Some(Ok(()))), "e");
    assert_eq!(late_spawn_message(&Ok(())), SPAWN_REFUSED);
    assert_eq!(
        late_spawn_message(&Err("x".to_string())),
        "daemon is shutting down; rejected spawned session cleanup failed: x"
    );
    assert_eq!(gate.close(), vec!["stuck".to_string()]);
}

#[test]
fn launches_run_behind_pipes_or_in_a_terminal() {
    let plan = plan_launch(&launch("codex", HarnessLaunchMode::NonInteractive), "asking", false);
    assert_eq!(plan.transport, LaunchTransport::PipedOnce);
    assert_eq!(plan.kind, LiveSessionKind::Pty);
    assert_eq!(plan.first_message, None);
    assert!(uses_piped_command(&launch("codex", HarnessLaunchMode::NonInteractive)));
    assert!(!uses_piped_command(&launch("codex", HarnessLaunchMode::Interactive)));
    let plan = plan_launch(&launch("other", HarnessLaunchMode::NonInteractive), "asking", false);
    assert_eq!(plan.transport, LaunchTransport::Terminal);
    let plan = plan_launch(&launch("other", HarnessLaunchMode::NonInteractive), "asking", true);
    assert_eq!(plan.transport, LaunchTransport::PipedOnce);
    let plan = plan_launch(&launch("asking", HarnessLaunchMode::Interactive), "asking", false);
    assert!(plan.trust_directory);
    let plan = plan_launch(&launch("asking", HarnessLaunchMode::Stream), "asking", false);
    assert!(!plan.trust_directory);
    assert_eq!(plan.kind, LiveSessionKind::Stream);
    assert_eq!(plan.first_message.as_deref(), Some("hello"));
}

#[test]
fn launches_are_refused_for_their_first_fault() {
    let mut runtime = Runtime::new();
    let mut asked = launch("codex", HarnessLaunchMode::Interactive);
    asked.familiar_id = Some("sage".to_string());
    let refused = launch_session(&mut runtime, &asked, Ok(()), Ok(()), true, "asking", false);
    assert_eq!(
        refused.err().as_deref(),
        Some("cannot resolve familiar `sage` without COVEN_HOME")
    );
    let plain = launch("codex", HarnessLaunchMode::Interactive);
    let built = Err("codex is not installed".to_string());
    let refused = launch_session(&mut runtime, &plain, Ok(()), built, true, "asking", false);
    assert_eq!(refused.err().as_deref(), Some("codex is not installed"));
    let (mut admission, plan) =
        launch_session(&mut runtime, &plain, Ok(()), Ok(()), true, "asking", false)
            .expect("admitted");
    assert_eq!(plan.transport, LaunchTransport::Terminal);
    assert!(!runtime.launches_drained());
    runtime.release_launch(&mut admission);
    runtime.begin_shutdown();
    assert!(runtime.shutting_down());
    let refused = launch_session(&mut runtime, &plain, Ok(()), Ok(()), true, "asking", false);
    assert_eq!(
        refused.err().as_deref(),
        Some("daemon is shutting down; refusing to launch a new session")
    );
    let fault = first_message_failure("codex", "pipe closed", None);
    assert!(fault.chain().contains("pipe closed"), "{}", fault.chain());
}

#[test]
fn a_launch_gives_its_place_up_once_it_is_registered() {
    let mut runtime = Runtime::with_coven_home("/h".to_string());
    let asked = launch("codex", HarnessLaunchMode::Interactive);
    let (mut admission, plan) =
        launch_session(&mut runtime, &asked, Ok(()), Ok(()), true, "asking", false)
            .expect("admitted");
    assert_eq!(runtime.drain_launches(ADMISSION_DRAIN_MILLIS), LaunchDrain::Wait(500));
    assert_eq!(runtime.drain_launches(0), LaunchDrain::Done);
    let killer = RecordingKiller::default();
    let registration = runtime.new_registration();
    runtime.publish_launch(&mut admission, killer.clone()).expect("published");
    finish_launch(
        &mut runtime,
        &asked,
        &plan,
        &mut admission,
        SharedBuffer::default(),
        killer,
        &registration,
    )
    .expect("registered");
    assert!(runtime.is_live(&asked.id));
    assert_eq!(runtime.drain_launches(ADMISSION_DRAIN_MILLIS), LaunchDrain::Done);
    assert!(finish_first_message(&mut runtime, &asked, Ok(())).0.is_ok());
    assert!(runtime.is_live(&asked.id));
}

#[test]
fn a_launch_that_comes_too_late_is_killed() {
    let mut runtime = Runtime::with_coven_home("/h".to_string());
    let asked = launch("codex", HarnessLaunchMode::Interactive);
    let (mut admission, plan) =
        launch_session(&mut runtime, &asked, Ok(()), Ok(()), true, "asking", false)
            .expect("admitted");
    let registration = runtime.new_registration();
    runtime.begin_shutdown();
    let killer = RecordingKiller::default();
    let refused = finish_launch(
        &mut runtime,
        &asked,
        &plan,
        &mut admission,
        SharedBuffer::default(),
        killer.clone(),
        &registration,
    );
    let refused = refused.expect_err("the launch comes too late");
    assert_eq!(
        refused.text,
        "daemon is shutting down; refusing to register a new live session"
    );
    assert_eq!(words(&refused.owner.account), vec!["kill"]);
    assert!(*killer.killed.lock().unwrap());
    assert!(runtime.launches_drained());
}

#[test]
fn a_session_without_its_first_message_is_killed() {
    let mut runtime = Runtime::with_coven_home("/h".to_string());
    let asked = launch("codex", HarnessLaunchMode::Stream);
    let killer = RecordingKiller::default();
    runtime
        .register_kind(
            asked.id.clone(),
            LiveSessionKind::Stream,
            SharedBuffer::default(),
            killer.clone(),
        )
        .expect("registered");
    let (ended, handle) =
        finish_first_message(&mut runtime, &asked, Err("pipe closed".to_string()));
    let fault = ended.expect_err("the launch fails");
    assert_eq!(words(&handle.expect("the handle comes out").killer.account), vec!["kill"]);
    assert!(fault.message.contains("child closed stdin"), "{}", fault.message);
    assert_eq!(fault.cause.as_deref(), Some("pipe closed"));
    assert!(*killer.killed.lock().unwrap());
    assert!(!runtime.is_live(&asked.id));
    let again = finish_first_message(&mut runtime, &asked, Err("pipe closed".to_string()))
        .0
        .expect_err("the launch fails");
    assert!(
        again.chain().ends_with("is not live in this daemon"),
        "{}",
        again.chain()
    );
}

#[test]
fn a_runtime_needs_its_event_writer() {
    let runtime = Runtime::try_with_coven_home("/h".to_string(), Ok(())).expect("started");
    assert!(runtime.has_home());
    assert!(runtime.has_event_writer());
    let failed = Runtime::try_with_coven_home("/h".to_string(), Err("locked".to_string()));
    assert_eq!(failed.err().as_deref(), Some("locked"));
    assert!(!Runtime::new().has_home());
    assert!(!Runtime::new().has_event_writer());
}

#[test]
fn output_observer_coalesces_callbacks_and_flushes_before_exit() {
    let mut observer = OutputObserver::new();
    let mut decoded = String::new();
    for chunk in ["🎉".as_bytes(), b" done", b""] {
        match observer.on_output(chunk) {
            OutputStep::Record(text) => decoded.push_str(&text),
            OutputStep::Ignore => assert!(chunk.is_empty()),
            OutputStep::Discard => panic!("the session runs"),
        }
    }
    observer.on_exit();
    assert_eq!(decoded, "🎉 done");
    assert!(matches!(observer.on_output(b"late"), OutputStep::Discard));
}

#[test]
fn broken_output_is_replaced() {
    let observer = OutputObserver::new();
    match observer.on_output(&[b'a', 0xff, b'b']) {
        OutputStep::Record(text) => assert_eq!(text, "a\u{fffd}b"),
        step => panic!("got {step:?}"),
    }
}

#[test]
fn events_that_are_lost_are_told_of() {
    assert_eq!(
        discarded_output_notice("s"),
        "coven daemon: discarded output observed after exit barrier for session `s`"
    );
    assert_eq!(recorded_output_notice("s", &Ok(true)), None);
    assert_eq!(
        recorded_output_notice("s", &Ok(false)).as_deref(),
        Some("coven daemon: event writer is pressured; raw output for session `s` was rejected")
    );
    assert_eq!(
        recorded_output_notice("s", &Err("disk".to_string())).as_deref(),
        Some("coven daemon: event writer failed while recording output for session `s`: disk")
    );
    assert_eq!(recorded_exit_notice("s", &Ok(())), None);
    assert_eq!(
        recorded_exit_notice("s", &Err("disk".to_string())).as_deref(),
        Some("coven daemon: failed to persist exit for session `s`: disk")
    );
}

#[test]
fn input_events_are_reserved_before_the_write() {
    let (stage, action) = begin_boundary(true, "input", "s", true).expect("recorded");
    assert!(matches!(action, BoundaryAction::Reserve));
    let (stage, action) = with_session_event_boundary(stage, Ok(()));
    assert!(matches!(action, BoundaryAction::Act));
    let (kept, action) = with_session_event_boundary(stage, Ok(()));
    assert!(matches!(action, BoundaryAction::Commit));
    let (_, action) = with_session_event_boundary(kept, Ok(()));
    assert!(matches!(action, BoundaryAction::Finish(Ok(()))));

    let failed = SessionEventBoundaryError::Runtime("hung".to_string());
    let (stage, action) =
        with_session_event_boundary(BoundaryStage::ActingOnReservation, Err(failed));
    assert!(matches!(action, BoundaryAction::Cancel));
    match with_session_event_boundary(stage, Ok(())) {
        (_, BoundaryAction::Finish(Err(SessionEventBoundaryError::Runtime(text)))) => {
            assert_eq!(text, "hung");
        }
        _ => panic!("the failure is the outcome"),
    }
}

#[test]
fn kills_are_recorded_after_the_act() {
    let (stage, action) = begin_boundary(true, "kill", "s", true).expect("recorded");
    assert!(matches!(action, BoundaryAction::Act));
    let (stage, action) = with_session_event_boundary(stage, Ok(()));
    assert!(matches!(action, BoundaryAction::Record));
    let lost = SessionEventBoundaryError::Persistence("disk".to_string());
    let (_, action) = with_session_event_boundary(stage, Err(lost));
    assert!(matches!(
        action,
        BoundaryAction::Finish(Err(SessionEventBoundaryError::Persistence(_)))
    ));
    match begin_boundary(true, "kill", "s", false) {
        Some((_, BoundaryAction::Finish(Err(SessionEventBoundaryError::Runtime(text))))) => {
            assert_eq!(text, "session `s` is not live in this daemon");
        }
        _ => panic!("not live"),
    }
    assert!(begin_boundary(false, "input", "s", true).is_none());
}
