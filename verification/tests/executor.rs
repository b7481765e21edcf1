//! Executor nodes, their jobs, and who runs them.

use coven_cli::executor_control::{
    acquire_worker, drain_and_lock, has_managed_owner, read_control, set_desired, status,
    ControlFile, DesiredState, DrainStep, ExecutorHome, ExecutorOwner, ObservationState,
    RuntimeState,
};
use coven_cli::executor_job::{
    admit_job, dispatch_job, dispatch_timeout, run_job_observed, run_process_with_timeout, send_job,
    unreadable_job, watch_process, CappedOutput, Dispatch, ExecutorJob, ExecutorResultEnvelope,
    Times, WatchStep, MAX_CAPTURED_OUTPUT_BYTES, RESULT_STATUS_CANCELLED, RESULT_STATUS_COMPLETED,
    RESULT_STATUS_FAILED, RESULT_STATUS_REJECTED, RESULT_STATUS_TIMEOUT,
    RESULT_STATUS_TRANSPORT_ERROR,
};
use coven_cli::executor_node::{
    ask_for_probe, build_probe, build_transport, is_executor_role, poll_executor,
    windows_background_creation_flags, ExecutorNodeConfig, ExecutorProbe, ExecutorTransport,
    FleetPolicy, LocalProcessTransport, ProcessOutput, SshTransport, Transport, TransportConfig,
    EXECUTOR_PROTOCOL_VERSION, ROLE_COMPUTE_EXECUTOR, ROLE_STATIONARY_EXECUTOR,
};
use coven_cli::fault::Fault;

const NOW: &str = "2026-07-06T00:00:00Z";

fn texts(list: &[&str]) -> Vec<String> {
    list.iter().map(|text| text.to_string()).collect()
}

fn home() -> ExecutorHome {
    ExecutorHome { control: ControlFile::Missing, runtime: None, autostart: false, locked: false }
}

fn job_with_command(command: Vec<String>) -> ExecutorJob {
    ExecutorJob {
        protocol_version: EXECUTOR_PROTOCOL_VERSION.to_string(),
        job_id: "job_test".to_string(),
        hub_id: Some("hub_test".to_string()),
        required_capabilities: Vec::new(),
        command,
        cwd: None,
        env: Vec::new(),
        stdin: None,
        timeout_seconds: Some(30),
        context: None,
    }
}

fn times() -> Times {
    Times {
        started_at: "2026-07-06T00:00:00Z".to_string(),
        finished_at: "2026-07-06T00:00:01Z".to_string(),
        elapsed_ms: 1000,
    }
}

struct ScriptedTransport {
    exit_code: Option<i64>,
    stdout: String,
    stderr: String,
    timed_out: bool,
    fail: bool,
    seen: Vec<(Vec<String>, Option<String>, u64)>,
}

impl ScriptedTransport {
    fn replying(stdout: &str) -> Self {
        Self {
            exit_code: Some(0),
            stdout: stdout.to_string(),
            stderr: String::new(),
            timed_out: false,
            fail: false,
            seen: Vec::new(),
        }
    }
}

impl ExecutorTransport for ScriptedTransport {
    fn describe(&self) -> String {
        "scripted".to_string()
    }

    fn run(
        &mut self,
        protocol_args: &[&str],
        stdin: Option<&str>,
        timeout_seconds: u64,
    ) -> Result<ProcessOutput, Fault> {
        self.seen.push((
            texts(protocol_args),
            stdin.map(str::to_string),
            timeout_seconds,
        ));
        if self.fail {
            return Err(Fault::plain("network unreachable"));
        }
        Ok(ProcessOutput {
            exit_code: self.exit_code,
            stdout: self.stdout.clone(),
            stderr: self.stderr.clone(),
            timed_out: self.timed_out,
        })
    }
}

/// The envelope in a reply, read field by field.
fn parse_envelope(text: &str) -> Result<ExecutorResultEnvelope, String> {
    let value: serde_json::Value = serde_json::from_str(text).map_err(|error| error.to_string())?;
    let text = |key: &str| value[key].as_str().unwrap_or_default().to_string();
    Ok(ExecutorResultEnvelope {
        protocol_version: text("protocolVersion"),
        job_id: text("jobId"),
        status: text("status"),
        exit_code: value["exitCode"].as_i64(),
        stdout: text("stdout"),
        stderr: text("stderr"),
        started_at: text("startedAt"),
        finished_at: text("finishedAt"),
        duration_ms: value["durationMs"].as_i64().unwrap_or_default(),
        error: value["error"].as_str().map(str::to_string),
        service_advertisements: Vec::new(),
    })
}

fn parse_probe(text: &str) -> Result<ExecutorProbe, String> {
    let value: serde_json::Value = serde_json::from_str(text).map_err(|error| error.to_string())?;
    let text = |key: &str| value[key].as_str().unwrap_or_default().to_string();
    Ok(ExecutorProbe {
        protocol_version: text("protocolVersion"),
        role: text("role"),
        capabilities: Vec::new(),
        available: value["available"].as_bool().unwrap_or_default(),
        queue_pressure: value["queuePressure"].as_i64().unwrap_or_default(),
        coven_version: text("covenVersion"),
        probed_at: text("probedAt"),
    })
}

fn dispatched(transport: &mut ScriptedTransport, job: &ExecutorJob) -> ExecutorResultEnvelope {
    let (description, outcome) = send_job(transport, job, "the job");
    let parsed = match &outcome {
        Ok(output) => parse_envelope(&output.stdout),
        Err(_) => Err("not run".to_string()),
    };
    dispatch_job(job, Dispatch::Sent(description, outcome, parsed), &times())
}

fn polled(transport: &mut ScriptedTransport) -> Result<ExecutorProbe, Fault> {
    let (description, outcome) = ask_for_probe(transport);
    let parsed = match &outcome {
        Ok(output) => parse_probe(&output.stdout),
        Err(_) => Err("not run".to_string()),
    };
    poll_executor(&description, outcome, parsed)
}

fn envelope_json(job_id: &str, protocol_version: &str) -> String {
    format!(
        r#"{{"protocolVersion":"{protocol_version}","jobId":"{job_id}","status":"completed","exitCode":0,"stdout":"remote output","stderr":"","startedAt":"2026-07-06T00:00:00Z","finishedAt":"2026-07-06T00:00:01Z","durationMs":1000}}"#
    )
}

fn probe_json(protocol_version: &str, role: &str, queue_pressure: i64) -> String {
    format!(
        r#"{{"protocolVersion":"{protocol_version}","role":"{role}","capabilities":[],"available":true,"queuePressure":{queue_pressure},"covenVersion":"0.0.0","probedAt":"2026-07-06T00:00:00Z"}}"#
    )
}

fn probe(config: ExecutorNodeConfig) -> Result<ExecutorProbe, Fault> {
    build_probe(config, Ok(None), "0.0.0", NOW)
}

#[test]
fn background_executor_processes_use_no_window_on_windows() {
    assert_eq!(windows_background_creation_flags(), 0x0800_0000);
}

#[test]
fn probe_defaults_to_stationary_role_with_base_capabilities() {
    let probe = probe(ExecutorNodeConfig::default()).expect("well formed");
    assert_eq!(probe.protocol_version, EXECUTOR_PROTOCOL_VERSION);
    assert_eq!(probe.role, ROLE_STATIONARY_EXECUTOR);
    assert_eq!(probe.capabilities, vec!["shell".to_string()]);
    assert!(probe.available);
    assert_eq!(probe.queue_pressure, 0);
}

#[test]
fn probe_reads_role_and_capabilities_from_executor_config() {
    let probe = probe(ExecutorNodeConfig {
        role: Some("compute_executor".to_string()),
        capabilities: Some(texts(&["shell", "gpu", "long-running-loop"])),
    })
    .expect("well formed");
    assert_eq!(probe.role, ROLE_COMPUTE_EXECUTOR);
    assert_eq!(probe.capabilities, vec!["shell", "gpu", "long-running-loop"]);
}

#[test]
fn probe_rejects_unknown_role() {
    let config =
        ExecutorNodeConfig { role: Some("authority_hub".to_string()), capabilities: None };
    let error = probe(config).expect_err("unknown role");
    assert!(error.message.contains("executor role must be"));
    assert!(is_executor_role("compute_executor"));
    assert!(!is_executor_role("authority_hub"));
}

#[test]
fn stationary_and_compute_probes_share_the_same_envelope_shape() {
    let stationary = probe(ExecutorNodeConfig::default()).expect("well formed");
    let compute = probe(ExecutorNodeConfig {
        role: Some("compute_executor".to_string()),
        capabilities: Some(texts(&["gpu"])),
    })
    .expect("well formed");
    assert_eq!(stationary.protocol_version, compute.protocol_version);
    assert_ne!(stationary.role, compute.role);
    assert_ne!(stationary.capabilities, compute.capabilities);
}

#[test]
fn a_fleet_policy_decides_what_a_probe_offers() {
    let policy = FleetPolicy { capabilities: texts(&["gpu"]), available: false };
    let probe = build_probe(ExecutorNodeConfig::default(), Ok(Some(policy)), "0.0.0", NOW)
        .expect("well formed");
    assert_eq!(probe.capabilities, vec!["gpu"]);
    assert!(!probe.available);
    assert_eq!(probe.probed_at, NOW);
    let broken = build_probe(ExecutorNodeConfig::default(), Err(Fault::plain("io")), "0", NOW);
    assert_eq!(broken.expect_err("no policy").message, "io");
}

#[test]
fn run_job_returns_completed_envelope_with_captured_output() {
    let job = job_with_command(texts(&["/bin/sh", "-c", "echo job-ran"]));
    let launch = admit_job(&job, true, NOW).expect("admitted");
    assert_eq!(launch.program, "/bin/sh");
    assert_eq!(launch.args, vec!["-c", "echo job-ran"]);
    assert_eq!(launch.timeout_seconds, 30);
    let output = ProcessOutput {
        exit_code: Some(0),
        stdout: "job-ran\n".to_string(),
        stderr: String::new(),
        timed_out: false,
    };
    let envelope = run_job_observed(&job, Ok((output, false)), &times());
    assert_eq!(envelope.protocol_version, EXECUTOR_PROTOCOL_VERSION);
    assert_eq!(envelope.job_id, "job_test");
    assert_eq!(envelope.status, RESULT_STATUS_COMPLETED);
    assert_eq!(envelope.exit_code, Some(0));
    assert!(envelope.stdout.contains("job-ran"));
    assert!(envelope.error.is_none());
    assert!(envelope.duration_ms >= 0);
    assert!(!envelope.started_at.is_empty());
    assert!(!envelope.finished_at.is_empty());
}

#[test]
fn run_job_reports_failed_status_with_exit_code_and_stderr() {
    let job = job_with_command(texts(&["/bin/sh", "-c", "echo boom 1>&2; exit 3"]));
    let output = ProcessOutput {
        exit_code: Some(3),
        stdout: String::new(),
        stderr: "boom\n".to_string(),
        timed_out: false,
    };
    let envelope = run_job_observed(&job, Ok((output, false)), &times());
    assert_eq!(envelope.status, RESULT_STATUS_FAILED);
    assert_eq!(envelope.exit_code, Some(3));
    assert!(envelope.stderr.contains("boom"));
}

#[test]
fn run_job_times_out_and_reports_timeout_status() {
    let mut job = job_with_command(texts(&["/bin/sh", "-c", "sleep 20"]));
    job.timeout_seconds = Some(1);
    assert_eq!(watch_process(false, false, true), WatchStep::TimeOut);
    let ended = run_process_with_timeout(WatchStep::TimeOut, None, String::new(), String::new());
    let envelope = run_job_observed(&job, Ok(ended), &times());
    assert_eq!(envelope.status, RESULT_STATUS_TIMEOUT);
    assert_eq!(envelope.exit_code, None);
    assert!(envelope.error.as_deref().unwrap().contains("timeout"));
}

#[test]
fn observed_job_streams_stdout_and_honors_cancellation() {
    let job = job_with_command(texts(&["/bin/sh", "-c", "printf 'hello\\n'; sleep 5"]));
    let mut captured = CappedOutput::new();
    captured.receive(b"hello\n");
    assert_eq!(watch_process(false, false, false), WatchStep::Wait);
    assert_eq!(watch_process(false, true, true), WatchStep::Cancel);
    assert_eq!(watch_process(true, true, true), WatchStep::Finished);
    let ended =
        run_process_with_timeout(WatchStep::Cancel, None, captured.finish(), String::new());
    let envelope = run_job_observed(&job, Ok(ended), &times());
    assert_eq!(envelope.status, RESULT_STATUS_CANCELLED);
    assert!(envelope.stdout.contains("hello"));
}

#[test]
fn run_job_rejects_protocol_version_mismatch() {
    let mut job = job_with_command(texts(&["/bin/sh", "-c", "echo never-runs"]));
    job.protocol_version = "coven.executor.v99".to_string();
    let envelope = admit_job(&job, true, NOW).expect_err("rejected");
    assert_eq!(envelope.status, RESULT_STATUS_REJECTED);
    assert!(envelope.error.as_deref().unwrap().contains("protocol version mismatch"));
}

#[test]
fn run_job_rejects_empty_command_and_missing_cwd() {
    let mut empty_command = job_with_command(Vec::new());
    empty_command.job_id = "job_empty".to_string();
    let empty_envelope = admit_job(&empty_command, true, NOW).expect_err("rejected");
    assert_eq!(empty_envelope.status, RESULT_STATUS_REJECTED);
    assert_eq!(empty_envelope.job_id, "job_empty");

    let mut missing_cwd = job_with_command(texts(&["/bin/sh", "-c", "echo never-runs"]));
    missing_cwd.cwd = Some("/definitely/not/a/real/coven/cwd".to_string());
    let cwd_envelope = admit_job(&missing_cwd, false, NOW).expect_err("rejected");
    assert_eq!(cwd_envelope.status, RESULT_STATUS_REJECTED);
    assert!(cwd_envelope.error.as_deref().unwrap().contains("cwd"));
}

#[test]
fn run_job_from_stdin_payload_rejects_malformed_json() {
    let parsed: Result<serde_json::Value, serde_json::Error> =
        serde_json::from_str("this is not a job spec");
    let error = parsed.expect_err("not json").to_string();
    let envelope = unreadable_job(&error, NOW);
    assert_eq!(envelope.status, RESULT_STATUS_REJECTED);
    assert_eq!(envelope.job_id, "");
    assert!(envelope.error.as_deref().unwrap().contains("malformed job spec"));
}

#[test]
fn a_job_that_cannot_be_run_is_failed() {
    let job = job_with_command(texts(&["/nowhere"]));
    let envelope = run_job_observed(&job, Err(Fault::plain("no such file")), &times());
    assert_eq!(envelope.status, RESULT_STATUS_REJECTED);
    assert_eq!(envelope.error.as_deref(), Some("failed to launch job command: no such file"));
    assert_eq!(envelope.duration_ms, 0);
}

#[test]
fn captured_output_is_capped() {
    let mut whole = CappedOutput::new();
    whole.receive(&vec![b'x'; MAX_CAPTURED_OUTPUT_BYTES + 5]);
    let mut parts = CappedOutput::new();
    for _ in 0..3 {
        parts.receive(&vec![b'x'; MAX_CAPTURED_OUTPUT_BYTES / 2]);
    }
    let text = whole.finish();
    assert_eq!(text, parts.finish());
    assert!(text.ends_with("\n<output truncated>"));
    let mut short = CappedOutput::new();
    short.receive(b"a");
    short.receive(&[0xff]);
    assert_eq!(short.finish(), "a\u{fffd}");
}

#[test]
fn ssh_transport_builds_batch_mode_pinned_argv() {
    let identity = format!(
        "{}home{}coven{}.ssh{}id_ed25519",
        std::path::MAIN_SEPARATOR,
        std::path::MAIN_SEPARATOR,
        std::path::MAIN_SEPARATOR,
        std::path::MAIN_SEPARATOR
    );
    let mut transport =
        SshTransport::new("executor.internal", Some("coven"), Some(2222), Some(&identity), None)
            .expect("well formed");
    let argv = transport.argv(&["executor", "probe"]);
    assert_eq!(
        argv,
        vec![
            "ssh",
            "-o",
            "BatchMode=yes",
            "-o",
            "StrictHostKeyChecking=yes",
            "-o",
            "ConnectTimeout=10",
            "-p",
            "2222",
            "-i",
            identity.as_str(),
            "coven@executor.internal",
            "coven",
            "executor",
            "probe",
        ]
    );
}

#[test]
fn ssh_transport_rejects_option_injection_shaped_values() {
    assert!(SshTransport::new("-oProxyCommand=evil", None, None, None, None).is_err());
    assert!(SshTransport::new("host", Some("-badflag"), None, None, None).is_err());
    assert!(SshTransport::new("host", None, None, Some("-i-evil"), None).is_err());
    assert!(SshTransport::new("host", None, None, None, Some("-notaprogram")).is_err());
    assert!(SshTransport::new("", None, None, None, None).is_err());
    assert!(SshTransport::new("host", Some("  "), None, None, None).is_err());
    assert!(SshTransport::new("host", None, None, Some("  "), None).is_err());
    assert!(SshTransport::new("host", None, None, None, Some("  ")).is_err());
}

#[test]
fn transport_config_round_trips_ssh_and_local_kinds() {
    let ssh = TransportConfig::Ssh {
        host: "executor.internal".to_string(),
        user: Some("coven".to_string()),
        port: Some(22),
        identity_file: None,
        remote_program: None,
    };
    let local = TransportConfig::Local {
        program: "/usr/local/bin/coven".to_string(),
        args: Vec::new(),
    };
    assert!(build_transport(&ssh).is_ok());
    assert!(build_transport(&local).is_ok());
    let blank = TransportConfig::Local { program: "  ".to_string(), args: Vec::new() };
    assert!(build_transport(&blank).is_err());
    match build_transport(&ssh).expect("well formed") {
        Transport::Ssh(transport) => {
            assert!(transport.describe().contains("executor.internal"));
        }
        transport => panic!("got {transport:?}"),
    }
}

#[test]
fn a_local_transport_appends_the_protocol_arguments() {
    let mut transport =
        LocalProcessTransport { program: "/bin/sh".to_string(), args: texts(&["-c", "echo"]) };
    assert_eq!(
        transport.argv(&["executor", "probe"]),
        vec!["/bin/sh", "-c", "echo", "executor", "probe"]
    );
    assert!(transport.describe().contains("/bin/sh"));
}

#[test]
fn dispatch_job_returns_the_executor_result_envelope() {
    let job = job_with_command(texts(&["true"]));
    let mut transport =
        ScriptedTransport::replying(&envelope_json("job_test", EXECUTOR_PROTOCOL_VERSION));
    let envelope = dispatched(&mut transport, &job);
    assert_eq!(envelope.status, RESULT_STATUS_COMPLETED);
    assert_eq!(envelope.job_id, "job_test");
    assert_eq!(envelope.stdout, "remote output");
    assert_eq!(
        transport.seen,
        vec![(texts(&["executor", "run-job"]), Some("the job".to_string()), 60)]
    );
}

#[test]
fn dispatch_job_normalizes_transport_failures_into_envelopes() {
    let job = job_with_command(texts(&["true"]));
    let mut transport = ScriptedTransport {
        exit_code: None,
        stdout: String::new(),
        fail: true,
        ..ScriptedTransport::replying("")
    };
    let envelope = dispatched(&mut transport, &job);
    assert_eq!(envelope.status, RESULT_STATUS_TRANSPORT_ERROR);
    assert_eq!(envelope.job_id, "job_test");
    assert!(envelope.error.as_deref().unwrap().contains("network unreachable"));
}

#[test]
fn dispatch_job_flags_job_id_and_protocol_mismatches() {
    let job = job_with_command(texts(&["true"]));
    let mut wrong_id =
        ScriptedTransport::replying(&envelope_json("job_other", EXECUTOR_PROTOCOL_VERSION));
    let envelope = dispatched(&mut wrong_id, &job);
    assert_eq!(envelope.status, RESULT_STATUS_TRANSPORT_ERROR);
    assert!(envelope.error.as_deref().unwrap().contains("job id mismatch"));

    let mut wrong_version =
        ScriptedTransport::replying(&envelope_json("job_test", "coven.executor.v99"));
    let envelope = dispatched(&mut wrong_version, &job);
    assert_eq!(envelope.status, RESULT_STATUS_TRANSPORT_ERROR);
    assert!(envelope.error.as_deref().unwrap().contains("protocol version mismatch"));
}

#[test]
fn dispatch_job_flags_malformed_result_envelopes() {
    let job = job_with_command(texts(&["true"]));
    let envelope = dispatched(&mut ScriptedTransport::replying("mostly noise, not json"), &job);
    assert_eq!(envelope.status, RESULT_STATUS_TRANSPORT_ERROR);
    assert!(envelope.error.as_deref().unwrap().contains("malformed result envelope"));
    let unwritten = dispatch_job(&job, Dispatch::NotWritten("bad".to_string()), &times());
    assert_eq!(unwritten.status, RESULT_STATUS_TRANSPORT_ERROR);
}

#[test]
fn the_way_to_an_executor_stays_open_longer_than_the_job() {
    let mut job = job_with_command(texts(&["true"]));
    assert_eq!(dispatch_timeout(&job), 60);
    job.timeout_seconds = None;
    assert_eq!(dispatch_timeout(&job), 330);
    job.timeout_seconds = Some(u64::MAX);
    assert_eq!(dispatch_timeout(&job), u64::MAX);
}

#[test]
fn poll_executor_parses_and_validates_the_probe_envelope() {
    let mut transport = ScriptedTransport::replying(&probe_json(
        EXECUTOR_PROTOCOL_VERSION,
        ROLE_COMPUTE_EXECUTOR,
        2,
    ));
    let probe = polled(&mut transport).expect("well formed");
    assert_eq!(probe.role, ROLE_COMPUTE_EXECUTOR);
    assert_eq!(probe.queue_pressure, 2);
    assert_eq!(transport.seen, vec![(texts(&["executor", "probe"]), None, 30)]);
}

#[test]
fn poll_executor_rejects_bad_versions_roles_and_exit_codes() {
    let mut bad_version =
        ScriptedTransport::replying(&probe_json("coven.executor.v99", "compute_executor", 0));
    let error = polled(&mut bad_version).expect_err("another version");
    assert!(error.message.contains("protocol version mismatch"));

    let mut bad_role =
        ScriptedTransport::replying(&probe_json("coven.executor.v1", "authority_hub", 0));
    assert!(polled(&mut bad_role).expect_err("a hub").message.contains("unknown role"));

    let mut nonzero_exit = ScriptedTransport {
        exit_code: Some(255),
        stderr: "connection refused".to_string(),
        ..ScriptedTransport::replying("")
    };
    assert!(polled(&mut nonzero_exit).expect_err("refused").message.contains("exited"));
    let mut silent = ScriptedTransport { timed_out: true, ..ScriptedTransport::replying("") };
    assert!(polled(&mut silent).is_err());
    assert!(polled(&mut ScriptedTransport::replying("noise")).is_err());
}

#[test]
fn control_and_runtime_are_redacted_and_duplicate_guarded() {
    let mut home = home();
    set_desired(&mut home, DesiredState::Running, Some(ExecutorOwner::Desktop)).expect("set");
    let guard = acquire_worker(&mut home, ExecutorOwner::Desktop, 7, NOW, "held").expect("free");
    guard.publish(&mut home, RuntimeState::Executing, NOW);
    assert!(acquire_worker(&mut home, ExecutorOwner::Desktop, 8, NOW, "held").is_err());
    let text = format!("{:?}{:?}", home.control, home.runtime);
    for forbidden in ["nodeSecret", "leaseToken", "job", "provider"] {
        assert!(!text.contains(forbidden));
    }
    let observed = status(&home, true, Some("node-a".to_string()), None).expect("readable");
    assert!(observed.running);
    assert_eq!(observed.runtime_state, ObservationState::Executing);
    assert_eq!(observed.pid, Some(7));
    guard.release(&mut home);
    let observed = status(&home, true, None, None).expect("readable");
    assert!(!observed.running);
    assert_eq!(observed.runtime_state, ObservationState::Stopped);
}

#[test]
fn desired_state_survives_worker_restart() {
    let mut home = home();
    set_desired(&mut home, DesiredState::Paused, Some(ExecutorOwner::Headless)).expect("set");
    let guard = acquire_worker(&mut home, ExecutorOwner::Headless, 7, NOW, "held").expect("free");
    assert_eq!(read_control(&home).expect("readable").desired_state, DesiredState::Paused);
    guard.release(&mut home);
    assert_eq!(read_control(&home).expect("readable").owner, ExecutorOwner::Headless);
}

#[test]
fn managed_owner_suppresses_legacy_embedding() {
    let mut home = home();
    assert!(!has_managed_owner(&home));
    set_desired(&mut home, DesiredState::Paused, Some(ExecutorOwner::Desktop)).expect("set");
    assert!(has_managed_owner(&home));
}

#[test]
fn desktop_start_rejects_headless_coexistence_and_restart_requests_running() {
    let mut home = home();
    home.autostart = true;
    assert!(acquire_worker(&mut home, ExecutorOwner::Desktop, 7, NOW, "held").is_err());
    home.autostart = false;
    set_desired(&mut home, DesiredState::Stopped, Some(ExecutorOwner::Desktop)).expect("set");
    let guard = acquire_worker(&mut home, ExecutorOwner::Desktop, 7, NOW, "held").expect("free");
    assert_eq!(read_control(&home).expect("readable").desired_state, DesiredState::Running);
    guard.release(&mut home);
}

#[test]
fn desktop_to_headless_transfer_requires_idle_worker_lock() {
    let mut home = home();
    let desktop = acquire_worker(&mut home, ExecutorOwner::Desktop, 7, NOW, "held").expect("free");
    assert!(matches!(drain_and_lock(&mut home, false, false), DrainStep::Wait));
    let told = read_control(&home).expect("readable");
    assert_eq!(told.desired_state, DesiredState::Stopped);
    assert_eq!(told.owner, ExecutorOwner::Desktop);
    match drain_and_lock(&mut home, true, true) {
        DrainStep::GiveUp(error) => assert!(error.message.contains("still active")),
        step => panic!("got {step:?}"),
    }
    desktop.release(&mut home);
    let transfer = match drain_and_lock(&mut home, true, false) {
        DrainStep::Held(guard) => guard,
        step => panic!("got {step:?}"),
    };
    transfer.transfer(&mut home, ExecutorOwner::Headless, DesiredState::Running);
    transfer.release(&mut home);
    let headless =
        acquire_worker(&mut home, ExecutorOwner::Headless, 8, NOW, "held").expect("free");
    let observed = status(&home, true, None, None).expect("readable");
    assert_eq!(observed.owner, ExecutorOwner::Headless);
    assert!(observed.running);
    headless.release(&mut home);
}

#[test]
fn a_broken_control_file_is_no_control() {
    let mut home = home();
    home.control = ControlFile::Invalid("eof".to_string());
    assert!(read_control(&home).is_err());
    assert!(status(&home, true, None, None).is_err());
    assert!(matches!(drain_and_lock(&mut home, false, false), DrainStep::Refused(_)));
    assert!(!home.locked);
    home.control = ControlFile::Unreadable("permission denied".to_string());
    assert_eq!(read_control(&home).expect_err("unreadable").message, "permission denied");
    assert!(has_managed_owner(&home));
    assert!(matches!(ObservationState::from(RuntimeState::Idle), ObservationState::Idle));
}
