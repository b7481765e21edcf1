//! The daemon from its start to its end.

use coven_cli::digest::{stable_id, text_digest};
use coven_cli::fault::{Fault, Probe};
use coven_cli::lifecycle::{
    background_server_spec, bind_after_probe, bind_api_socket, check_owned_by_current_user,
    daemon_lifecycle_lock_path, daemon_recovery_log_path, daemon_serve_lock_path,
    daemon_socket_path, daemon_startup_status_socket_for_platform, daemon_status_path, ensure_private_coven_home,
    start_background_server, store_path, windows_pipe_path, BindStep, DaemonIpcPlatform,
    DaemonStatus, DaemonStatusState, PathFacts,
};
use coven_cli::recovery_log::{
    after_maintenance_pass, format_daemon_recovery_log_entry, initialize_daemon_store,
    record_store_maintenance_failure, refresh_storage_health_after_maintenance,
    rotate_recovery_log, MaintenanceStep, DAEMON_RECOVERY_LOG_MAX_BYTES,
};
use coven_cli::paths::{join_path, path_inside_on, path_is_absolute};
use coven_cli::serve::{
    accept_step, acquire_serve_lock, ensure_loopback_addrs, is_client_disconnect,
    listener_is_fleet_only, recover_orphaned_afs_mounts, recover_orphaned_sessions,
    recover_stale_created_sessions, refused_means_free, report_connection, serve_forever,
    serve_outcome, stop_tcp_worker, tcp_accept_step, AcceptStep, Accepted, ConnectionReport,
    Dispatch, InFlight, IoFaultKind, ResolvedAddress, ServeStep, ServedOn, TcpStopStep,
    MAX_INFLIGHT,
};
use coven_cli::supervision::{
    background_server_status, cleanup_unreachable_duplicate_daemons,
    daemon_status_from_health_socket, daemon_transport_is_occupied, duplicate_daemon_notice,
    ensure_background_server, health_reports_pid, healthy_daemon,
    process_is_unreachable_duplicate_daemon_candidate, response_body, restart_background_server,
    shutdown_removes_files, started_server, status_step, still_a_duplicate, stop_background_server,
    stop_step, try_acquire_reset_guard, ConnectFailure, DaemonHealthStatus, EnsureAction, ProcessFacts,
    StatusAction, StatusEvent, StatusRead, StopAction, StopEvent,
};
use coven_cli::trust::ensure_dir_trusted_in_config;

fn texts(list: &[&str]) -> Vec<String> {
    list.iter().map(|text| text.to_string()).collect()
}

fn record(pid: u32) -> DaemonStatus {
    DaemonStatus {
        pid,
        started_at: "2026-04-27T10:00:00Z".to_string(),
        socket: daemon_socket_path("/tmp/coven-home", false),
    }
}

/// What a process and its record look like to whoever stops or inspects the daemon.
#[derive(Default)]
struct World {
    status: Option<DaemonStatus>,
    corrupt: bool,
    pid_alive: bool,
    exited_after_signal: bool,
    signal_error: Option<String>,
    verified_daemon: bool,
    on_default_socket: Option<DaemonStatus>,
    signaled: usize,
}

fn stop(world: &mut World) -> Result<bool, Fault> {
    let (mut stage, mut action) =
        stop_background_server(world.status.as_ref().map(|status| status.copy()));
    loop {
        let event = match action {
            StopAction::Verify(_) => StopEvent::Answer(world.verified_daemon),
            StopAction::CheckAlive(_) => StopEvent::Answer(world.pid_alive),
            StopAction::SignalTerm(_) => {
                world.signaled += 1;
                StopEvent::Signalled(match &world.signal_error {
                    Some(error) => Err(error.clone()),
                    None => Ok(()),
                })
            }
            StopAction::WaitForExit(_) => StopEvent::Answer(world.exited_after_signal),
            StopAction::ClearStatusAndSocket => {
                world.status = None;
                StopEvent::Cleared(Ok(()))
            }
            StopAction::Finish(outcome) => return outcome,
        };
        (stage, action) = stop_step(stage, event);
    }
}

fn status_of(world: &mut World) -> Result<Option<DaemonStatusState>, Fault> {
    let read = if world.corrupt {
        StatusRead::Corrupt
    } else {
        match &world.status {
            Some(status) => StatusRead::Found(status.copy()),
            None => StatusRead::Absent,
        }
    };
    let (mut stage, mut action) = background_server_status(read);
    loop {
        let event = match action {
            StatusAction::Verify(_) => StatusEvent::Answer(world.verified_daemon),
            StatusAction::CheckAlive(_) => StatusEvent::Answer(world.pid_alive),
            StatusAction::QueryDefaultSocket => {
                // Whoever answers on the socket is verified through it.
                world.verified_daemon |= world.on_default_socket.is_some();
                StatusEvent::Queried(Ok(world.on_default_socket.as_ref().map(|s| s.copy())))
            }
            StatusAction::WriteStatus(status) => {
                world.status = Some(status);
                world.corrupt = false;
                StatusEvent::Done(Ok(()))
            }
            StatusAction::ClearStatus | StatusAction::ClearStatusAndSocket => {
                world.status = None;
                world.corrupt = false;
                StatusEvent::Done(Ok(()))
            }
            StatusAction::Finish(outcome) => return outcome,
        };
        (stage, action) = status_step(stage, event).expect("the event that was asked for");
    }
}

#[test]
fn is_client_disconnect_detects_wrapped_broken_pipe() {
    assert!(is_client_disconnect(&[None, Some(IoFaultKind::BrokenPipe)]));
    for kind in [
        IoFaultKind::ConnectionReset,
        IoFaultKind::ConnectionAborted,
        IoFaultKind::UnexpectedEof,
        IoFaultKind::WriteZero,
    ] {
        assert!(is_client_disconnect(&[Some(kind)]), "{kind:?} should be benign");
    }
}

#[test]
fn is_client_disconnect_ignores_real_faults() {
    assert!(!is_client_disconnect(&[None]));
    assert!(!is_client_disconnect(&[None, Some(IoFaultKind::TimedOut)]));
}

#[test]
fn duplicate_daemon_candidate_rejects_threads_but_accepts_processes() {
    let cmd = texts(&["coven", "daemon", "serve"]);
    let environ = texts(&["COVEN_HOME=/home/coven"]);
    let candidate = |is_thread: bool| {
        process_is_unreachable_duplicate_daemon_candidate(
            42, 41, is_thread, &cmd, &environ, "/home/coven",
        )
    };
    assert!(candidate(false));
    assert!(!candidate(true), "a thread must not be a duplicate-daemon candidate");
}

#[test]
fn duplicates_are_told_from_the_daemon_and_from_strangers() {
    let process = |pid: u32, words: &[&str], environ: &[&str]| ProcessFacts {
        pid,
        start_time: 7,
        is_thread: false,
        words: texts(words),
        environ: texts(environ),
    };
    let serve = ["coven", "daemon", "serve"];
    let processes = vec![
        process(41, &serve, &["COVEN_HOME=/home/coven"]),
        process(42, &serve, &["COVEN_HOME=/home/coven"]),
        process(43, &serve, &["COVEN_HOME=/home/other"]),
        process(44, &["coven", "daemon", "status"], &["COVEN_HOME=/home/coven"]),
        process(45, &serve, &["A=b", "COVEN_HOME=/home/coven"]),
    ];
    let found = cleanup_unreachable_duplicate_daemons(&processes, 41, "/home/coven");
    assert_eq!(found, vec![1, 4]);
    assert!(still_a_duplicate(&processes[1], &processes[1], 41, "/home/coven"));
    let reused = ProcessFacts { start_time: 8, ..process(42, &serve, &["COVEN_HOME=/home/coven"]) };
    assert!(!still_a_duplicate(&processes[1], &reused, 41, "/home/coven"));
    assert_eq!(
        duplicate_daemon_notice(true, 42, 41),
        "terminated unreachable duplicate daemon pid=42 active_pid=41"
    );
    assert!(duplicate_daemon_notice(false, 42, 41).starts_with("failed to terminate"));
}

#[test]
fn seeds_trust_for_new_dir_into_missing_config() {
    let written = ensure_dir_trusted_in_config(None, "/work").expect("a new configuration");
    let root: serde_json::Value = serde_json::from_str(&written).expect("json");
    assert_eq!(root["projects"]["/work"]["hasTrustDialogAccepted"], true);
}

#[test]
fn seeding_trust_preserves_existing_config() {
    let config = r#"{"numStartups":7,"projects":{"/some/other/repo":{"hasTrustDialogAccepted":true,"ignorePatterns":["x"]}}}"#;
    let written =
        ensure_dir_trusted_in_config(Some(config.to_string()), "/work").expect("a new entry");
    let root: serde_json::Value = serde_json::from_str(&written).expect("json");
    assert_eq!(root["numStartups"], 7);
    assert_eq!(root["projects"]["/some/other/repo"]["ignorePatterns"][0], "x");
    assert_eq!(root["projects"]["/work"]["hasTrustDialogAccepted"], true);
}

#[test]
fn seeding_trust_is_noop_when_already_trusted() {
    let config =
        r#"{"projects":{"/work":{"hasTrustDialogAccepted":true,"allowedTools":["Bash"]}}}"#;
    assert_eq!(ensure_dir_trusted_in_config(Some(config.to_string()), "/work"), None);
}

#[test]
fn seeding_trust_leaves_odd_configs_alone() {
    assert_eq!(ensure_dir_trusted_in_config(Some("[1]".to_string()), "/work"), None);
    let broken = ensure_dir_trusted_in_config(Some("{".to_string()), "/work").expect("replaced");
    assert!(broken.contains("hasTrustDialogAccepted"), "{broken}");
}

#[test]
fn paths_of_windows_are_joined_as_windows_does() {
    assert_eq!(join_path(r"C:\h", r"a\b", true), r"C:\h\a\b");
    assert_eq!(join_path(r"C:\h\", "a", true), r"C:\h\a");
    assert_eq!(join_path("C:/h/", "a", true), "C:/h/a");
    assert_eq!(join_path("C:", "a", true), "C:a");
    assert_eq!(join_path(r"C:\h", r"D:\a", true), r"D:\a");
    assert_eq!(join_path(r"C:\h", "D:a", true), "D:a");
    assert_eq!(join_path(r"C:\h", r"\a", true), r"C:\a");
    assert_eq!(join_path(r"\\server\share\h", r"\a", true), r"\\server\share\a");
    assert_eq!(join_path(r"C:\h", r"\\server\share\a", true), r"\\server\share\a");
    assert_eq!(path_inside_on("", "a", true), "a");
    for path in [r"C:\a", "c:/a", r"\\server\share", r"\\server\share\a"] {
        assert!(path_is_absolute(path, true), "{path}");
        assert!(!path_is_absolute(path, false), "{path}");
    }
    for path in ["", "a", "C:a", "C:", r"\a", "/a", r"\\server", r"\\server\", r"\\\share", "1:/a"] {
        assert!(!path_is_absolute(path, true), "{path}");
    }
    assert!(path_is_absolute("/a", false));
}

#[test]
fn bind_tcp_listener_rejects_non_loopback() {
    let address = |text: &str, ip: &str| ResolvedAddress {
        text: text.to_string(),
        ip: ip.to_string(),
    };
    let error = ensure_loopback_addrs(&[address("0.0.0.0:0", "0.0.0.0")])
        .expect_err("should reject wildcard bind");
    assert!(error.chain().contains("non-loopback"), "unexpected error: {}", error.chain());
    assert!(ensure_loopback_addrs(&[address("127.0.0.1:0", "127.0.0.1"), address("[::1]:0", "::1")]).is_ok());
    let mixed = ensure_loopback_addrs(&[address("127.0.0.1:0", "127.0.0.1"), address("10.0.0.1:0", "10.0.0.1")])
        .expect_err("one is enough");
    assert!(mixed.message.contains("10.0.0.1:0"), "{}", mixed.message);
    assert!(ensure_loopback_addrs(&[]).is_err());
}

#[test]
fn bind_api_socket_refuses_to_take_over_a_healthy_incumbent() {
    let socket = daemon_socket_path("/h", false);
    let facts = PathFacts { is_symlink: false, is_socket: true, owner_uid: 1000 };
    let step = bind_api_socket("/h", &socket, "/h", Probe::Found(facts), 1000);
    assert!(matches!(step, BindStep::AskIncumbent));
    match bind_after_probe(&socket, Some(4242)) {
        BindStep::Refuse(error) => {
            let msg = error.chain();
            assert!(
                msg.contains("refusing to take over") && msg.contains("4242"),
                "unexpected error: {msg}"
            );
        }
        step => panic!("must refuse takeover, got {step:?}"),
    }
}

#[test]
fn bind_api_socket_reclaims_a_dead_socket_file() {
    assert!(matches!(bind_after_probe("/h/coven.sock", None), BindStep::RemoveAndBind));
    let step = bind_api_socket("/h", &daemon_socket_path("/h", false), "/h", Probe::Missing, 1000);
    assert!(matches!(step, BindStep::Bind));
}

#[test]
fn bind_api_socket_refuses_symlinked_socket_path() {
    let facts = PathFacts { is_symlink: true, is_socket: false, owner_uid: 1000 };
    match bind_api_socket("/h", "/h/coven.sock", "/h", Probe::Found(facts), 1000) {
        BindStep::Refuse(error) => assert!(error.message.contains("symlink"), "{}", error.message),
        step => panic!("got {step:?}"),
    }
}

#[test]
fn bind_api_socket_refuses_non_socket_at_socket_path() {
    let facts = PathFacts { is_symlink: false, is_socket: false, owner_uid: 1000 };
    match bind_api_socket("/h", "/h/coven.sock", "/h", Probe::Found(facts), 1000) {
        BindStep::Refuse(error) => {
            assert!(error.message.contains("not a socket"), "{}", error.message);
        }
        step => panic!("got {step:?}"),
    }
}

#[test]
fn bind_api_socket_stays_in_the_home_and_with_its_owner() {
    match bind_api_socket("/h", "/elsewhere/coven.sock", "/elsewhere", Probe::Missing, 1000) {
        BindStep::Refuse(error) => {
            assert!(error.message.contains("outside Coven home /h"), "{}", error.message);
        }
        step => panic!("got {step:?}"),
    }
    let foreign = PathFacts { is_symlink: false, is_socket: true, owner_uid: 0 };
    let step = bind_api_socket("/h", "/h/coven.sock", "/h", Probe::Found(foreign), 1000);
    assert!(matches!(step, BindStep::Refuse(_)));
    let unread = Probe::Failed("denied".to_string());
    match bind_api_socket("/h", "/h/coven.sock", "/h", unread, 1000) {
        BindStep::Refuse(error) => {
            assert_eq!(error.chain(), "failed to inspect socket path /h/coven.sock: denied");
        }
        step => panic!("got {step:?}"),
    }
}

#[test]
fn ensure_private_coven_home_rejects_symlinked_home() {
    let link = PathFacts { is_symlink: true, is_socket: false, owner_uid: 1000 };
    let error = ensure_private_coven_home("/h", Some(link), 1000)
        .expect_err("a symlinked Coven home must be refused");
    assert!(error.message.contains("symlink"), "{}", error.message);
    let foreign = PathFacts { is_symlink: false, is_socket: false, owner_uid: 0 };
    assert!(ensure_private_coven_home("/h", Some(foreign), 1000).is_err());
    let own = PathFacts { is_symlink: false, is_socket: false, owner_uid: 1000 };
    assert!(ensure_private_coven_home("/h", Some(own), 1000).is_ok());
    assert!(ensure_private_coven_home("/h", None, 1000).is_ok());
}

#[test]
fn recovers_persisted_running_sessions_as_orphaned() {
    let mut states = texts(&["running", "killed"]);
    assert_eq!(recover_orphaned_sessions(&mut states), 1);
    assert_eq!(states, vec!["orphaned", "killed"]);
}

#[test]
fn recovers_stale_created_sessions_as_failed() {
    // The cutoff parts rows that are ten minutes old from those that are not.
    let cutoff = recover_stale_created_sessions(1_777_276_800, 0);
    let parsed = chrono::DateTime::parse_from_rfc3339(&cutoff).expect("a date");
    assert_eq!(parsed.timestamp(), 1_777_276_800 - 600);
    assert!(cutoff.ends_with('Z'), "{cutoff}");
    let stale = "2026-04-27T07:00:00.000000000Z";
    let fresh = "2026-04-27T08:00:00.000000000Z";
    assert!(stale < cutoff.as_str(), "{cutoff}");
    assert!(fresh > cutoff.as_str(), "{cutoff}");
}

#[test]
fn cutoffs_reach_the_edges_of_the_calendar() {
    assert!(recover_stale_created_sessions(600, 1).starts_with("1970-01-01T00:00:00.000000001"));
    assert!(recover_stale_created_sessions(8_210_266_876_799, 999_999_999).ends_with('Z'));
    assert!(recover_stale_created_sessions(-8_334_601_228_200, 0).starts_with('-'));
}

#[test]
fn check_owned_by_current_user_refuses_foreign_ownership() {
    let path = "/tmp/coven-example";
    assert!(check_owned_by_current_user(path, 1000, 1000).is_ok());
    let err = check_owned_by_current_user(path, 0, 1000)
        .expect_err("a foreign-owned path must be refused");
    assert!(
        err.message.contains("owned by uid 0"),
        "error should name the foreign owner, got: {}",
        err.message
    );
}

#[test]
fn daemon_socket_path_stays_inside_coven_home() {
    let home = "/some/coven/home";
    let socket = daemon_socket_path(home, false);
    assert_eq!(std::path::Path::new(&socket).parent(), Some(std::path::Path::new(home)));
}

#[test]
fn daemon_startup_status_socket_uses_unix_socket_for_unix_platform() {
    let home = "/tmp/coven-home";
    assert_eq!(
        daemon_startup_status_socket_for_platform(home, DaemonIpcPlatform::Unix),
        daemon_socket_path(home, false)
    );
}

#[test]
fn daemon_startup_status_socket_uses_named_pipe_for_windows_platform() {
    let home = "C:/CovenTest/.coven";
    let socket = daemon_startup_status_socket_for_platform(home, DaemonIpcPlatform::Windows);
    assert!(socket.starts_with("coven-daemon-"), "socket={socket}");
    assert!(socket.ends_with(".sock"), "socket={socket}");
    assert_ne!(socket, daemon_socket_path(home, false));
    assert!(windows_pipe_path(home).ends_with(&socket), "{}", windows_pipe_path(home));
}

#[test]
fn files_of_the_daemon_are_in_its_home() {
    assert_eq!(daemon_status_path("/h", false), "/h/daemon.json");
    assert_eq!(daemon_serve_lock_path("/h", false), "/h/daemon-serve.lock");
    assert_eq!(daemon_lifecycle_lock_path("/h", false), "/h/daemon.lock");
    assert_eq!(daemon_recovery_log_path("/h", false), "/h/daemon-recovery.log");
    assert_eq!(store_path("/h", false), "/h/coven.sqlite3");
    assert_eq!(store_path("/h/", false), "/h/coven.sqlite3");
    assert_eq!(store_path(r"C:\h", true), r"C:\h\coven.sqlite3");
    assert_eq!(join_path("/h", "a/b", false), "/h/a/b");
    assert_eq!(join_path("/h", "/a", false), "/a");
    assert_eq!(join_path("/h", r"\a", false), r"/h/\a");
}

#[test]
fn background_server_status_clears_corrupt_metadata_without_daemon() {
    let mut world = World { corrupt: true, ..World::default() };
    assert!(matches!(status_of(&mut world), Ok(None)));
    assert!(!world.corrupt, "status command path should clear corrupt daemon metadata");
}

#[test]
fn stop_background_server_keeps_status_when_existing_daemon_survives() {
    let mut world = World {
        status: Some(record(12345)),
        pid_alive: true,
        verified_daemon: true,
        ..World::default()
    };
    let error = stop(&mut world).expect_err("stop should refuse to clear status");
    assert!(error.message.contains("did not exit"));
    assert_eq!(world.status.expect("kept").pid, 12345);
}

#[test]
fn stop_background_server_clears_stale_status_when_pid_is_gone() {
    let mut world = World {
        status: Some(record(12345)),
        signal_error: Some("No such process".to_string()),
        ..World::default()
    };
    assert!(stop(&mut world).expect("stopped"));
    assert!(world.status.is_none());
}

#[test]
fn stop_background_server_refuses_unverified_live_pid_without_signaling() {
    let mut world = World {
        status: Some(record(12345)),
        pid_alive: true,
        exited_after_signal: true,
        ..World::default()
    };
    let error = stop(&mut world).expect_err("stop should not signal an unverified live pid");
    assert!(error.message.contains("could not be verified"));
    assert_eq!(world.signaled, 0);
    assert_eq!(world.status.expect("kept").pid, 12345);
}

#[test]
fn stopping_signals_a_verified_daemon() {
    let mut world = World {
        status: Some(record(7)),
        pid_alive: true,
        exited_after_signal: true,
        verified_daemon: true,
        ..World::default()
    };
    assert!(stop(&mut world).expect("stopped"));
    assert_eq!(world.signaled, 1);
    assert!(world.status.is_none());
    assert!(!stop(&mut World::default()).expect("nothing to stop"));
    let mut stuck = World {
        status: Some(record(7)),
        pid_alive: true,
        verified_daemon: true,
        signal_error: Some("not permitted".to_string()),
        ..World::default()
    };
    let error = stop(&mut stuck).expect_err("cannot be signalled");
    assert_eq!(
        error.message,
        "failed to stop Coven daemon pid 7; not clearing daemon status: not permitted"
    );
}

#[test]
fn background_server_status_returns_running_for_verified_daemon() {
    let mut world = World {
        status: Some(record(12345)),
        pid_alive: true,
        verified_daemon: true,
        ..World::default()
    };
    match status_of(&mut world) {
        Ok(Some(DaemonStatusState::Running(status))) => {
            assert_eq!(status.pid, 12345);
            assert_eq!(status.started_at, "2026-04-27T10:00:00Z");
        }
        state => panic!("got {state:?}"),
    }
}

#[test]
fn background_server_status_returns_stale_without_clearing_live_unverified_pid() {
    let mut world =
        World { status: Some(record(12345)), pid_alive: true, ..World::default() };
    match status_of(&mut world) {
        Ok(Some(DaemonStatusState::Stale(status))) => assert_eq!(status.pid, 12345),
        state => panic!("got {state:?}"),
    }
    assert_eq!(world.status.expect("kept").pid, 12345);
}

#[test]
fn ensure_background_server_starts_when_no_daemon_status_exists() {
    let mut world = World::default();
    assert!(matches!(ensure_background_server(status_of(&mut world)), EnsureAction::Start));
    let started = start_background_server(
        "/tmp/coven-home",
        54321,
        "2026-04-27T10:00:00Z".to_string(),
        DaemonIpcPlatform::Unix,
    );
    assert_eq!(started.socket, daemon_socket_path("/tmp/coven-home", false));
    let status = started_server(Ok(started), true).expect("answers");
    assert_eq!(status.pid, 54321);
}

#[test]
fn ensure_background_server_reuses_verified_running_daemon() {
    let mut world = World {
        status: Some(record(12345)),
        pid_alive: true,
        verified_daemon: true,
        ..World::default()
    };
    match ensure_background_server(status_of(&mut world)) {
        EnsureAction::Use(status) => assert_eq!(status.pid, 12345),
        action => panic!("got {action:?}"),
    }
}

#[test]
fn ensure_background_server_reuses_daemon_recovered_from_default_socket() {
    let mut world = World { on_default_socket: Some(record(777)), ..World::default() };
    match ensure_background_server(status_of(&mut world)) {
        EnsureAction::Use(status) => assert_eq!(status.pid, 777),
        action => panic!("got {action:?}"),
    }
    assert_eq!(world.status.expect("recorded").pid, 777);
}

#[test]
fn ensure_background_server_recovers_live_daemon_when_status_pid_is_stale() {
    let mut world = World {
        status: Some(record(1)),
        on_default_socket: Some(record(777)),
        ..World::default()
    };
    match ensure_background_server(status_of(&mut world)) {
        EnsureAction::Use(status) => assert_eq!(status.pid, 777),
        action => panic!("got {action:?}"),
    }
    assert_eq!(world.status.expect("recorded").pid, 777);
}

#[test]
fn unreachable_daemons_are_not_replaced() {
    let mut world = World { status: Some(record(5)), pid_alive: true, ..World::default() };
    match ensure_background_server(status_of(&mut world)) {
        EnsureAction::Fail(error) => assert_eq!(
            error.message,
            "Coven daemon pid 5 is recorded but unreachable; run `coven daemon restart`"
        ),
        action => panic!("got {action:?}"),
    }
    let error = started_server(Ok(record(6)), false).expect_err("does not answer");
    assert_eq!(error.message, "started Coven daemon pid 6 but its socket did not become ready");
    let restarted = restart_background_server(Ok(true), Ok(record(6)), true).expect("restarted");
    assert!(restarted.0);
    let stuck = restart_background_server(Err(Fault::plain("stuck")), Ok(record(6)), true);
    assert_eq!(stuck.expect_err("not stopped").message, "stuck");
}

#[test]
fn healthy_answers_name_their_daemon() {
    let health = DaemonHealthStatus { ok: true, daemon: Some(record(9)) };
    let daemon = healthy_daemon(health);
    assert!(health_reports_pid(&daemon, 9));
    assert!(!health_reports_pid(&daemon, 8));
    assert!(healthy_daemon(DaemonHealthStatus { ok: false, daemon: Some(record(9)) }).is_none());
    assert_eq!(response_body("HTTP/1.1 200 OK\r\n\r\n{}").as_deref(), Some("{}"));
    assert_eq!(response_body("HTTP/1.1 200 OK\r\n"), None);
}

fn refused(kind: IoFaultKind) -> Result<(), ConnectFailure> {
    Err(ConnectFailure { kind, text: "refused".to_string() })
}

#[test]
fn daemon_status_from_default_socket_returns_none_when_socket_is_absent() {
    let found = daemon_status_from_health_socket(
        "/h/coven.sock",
        None,
        1000,
        refused(IoFaultKind::NotFound),
        Err(Fault::plain("not asked")),
        Err("not asked".to_string()),
    );
    assert!(matches!(found, Ok(None)));
}

#[test]
fn whoever_answers_on_the_socket_is_found() {
    let ask = |owner: u32, response: &str, health: Result<DaemonHealthStatus, String>| {
        daemon_status_from_health_socket(
            "/h/coven.sock",
            Some(owner),
            1000,
            Ok(()),
            Ok(response.to_string()),
            health,
        )
    };
    let well = || Ok(DaemonHealthStatus { ok: true, daemon: Some(record(9)) });
    let answered = ask(1000, "HTTP/1.1 200 OK\r\n\r\n{}", well()).expect("well");
    assert_eq!(answered.expect("named").pid, 9);
    assert!(matches!(ask(1000, "HTTP/1.1 200 OK", well()), Ok(None)));
    assert!(ask(0, "HTTP/1.1 200 OK\r\n\r\n{}", well()).is_err(), "a foreign socket");
    let broken = ask(1000, "HTTP/1.1 200 OK\r\n\r\n{", Err("eof".to_string()));
    assert_eq!(
        broken.expect_err("not json").chain(),
        "failed to parse Coven health response: eof"
    );
    assert!(refused_means_free(IoFaultKind::ConnectionRefused));
    assert!(!refused_means_free(IoFaultKind::AddrInUse));
}

#[test]
fn an_occupied_transport_is_told_from_a_free_one() {
    let ask = |owner: Option<u32>, connected: Result<(), ConnectFailure>| {
        daemon_transport_is_occupied("/h/coven.sock", owner, 1000, connected)
    };
    assert!(ask(Some(1000), Ok(())).expect("asked"));
    assert!(!ask(None, refused(IoFaultKind::ConnectionRefused)).expect("asked"));
    let error = ask(None, refused(IoFaultKind::PermissionDenied)).expect_err("cannot tell");
    assert_eq!(
        error.chain(),
        "failed to determine whether daemon socket /h/coven.sock is occupied: refused"
    );
    assert!(ask(Some(0), Ok(())).expect_err("foreign").message.contains("owned by uid 0"));
}

#[test]
fn blocked_maintenance_report_skips_store_refresh() {
    assert!(matches!(after_maintenance_pass(Ok(true)), MaintenanceStep::Leave));
    assert!(matches!(after_maintenance_pass(Ok(false)), MaintenanceStep::Refresh));
    match after_maintenance_pass(Err("busy".to_string())) {
        MaintenanceStep::Fail(details) => {
            assert_eq!(details, "store maintenance pass failed: busy");
        }
        step => panic!("got {step:?}"),
    }
    assert_eq!(refresh_storage_health_after_maintenance(Ok(())), None);
    assert_eq!(
        refresh_storage_health_after_maintenance(Err("locked".to_string())).as_deref(),
        Some("storage health snapshot refresh failed: locked")
    );
}

#[test]
fn an_event_that_was_not_asked_for_is_no_answer() {
    let (stage, _) = background_server_status(StatusRead::Absent);
    assert!(status_step(stage, StatusEvent::Answer(true)).is_none());
    let failed = StatusRead::Failed(Fault::plain("io"));
    assert!(matches!(background_server_status(failed).1, StatusAction::Finish(Err(_))));
}

#[test]
fn builds_background_server_spawn_spec() {
    let spec = background_server_spec("/usr/local/bin/coven", "/tmp/coven-home", None, None);
    assert_eq!(spec.program, "/usr/local/bin/coven");
    assert_eq!(spec.args, vec!["daemon".to_string(), "serve".to_string()]);
    assert_eq!(spec.coven_home, "/tmp/coven-home");
}

#[test]
fn background_server_spawn_spec_carries_private_fleet_transport() {
    let spec = background_server_spec(
        "C:/Coven/coven.exe",
        "C:/Coven/home",
        Some("127.0.0.1:8787"),
        Some("100.74.6.10, windows.tailnet.ts.net"),
    );
    assert_eq!(
        spec.args,
        vec![
            "daemon",
            "serve",
            "--tcp",
            "127.0.0.1:8787",
            "--allow-host",
            "100.74.6.10",
            "--allow-host",
            "windows.tailnet.ts.net",
        ]
    );
}

#[test]
fn shutdown_guard_removes_socket_and_status_on_drop() {
    assert!(shutdown_removes_files(Some(42), 42));
}

#[test]
fn shutdown_guard_drop_is_idempotent_when_files_already_missing() {
    assert!(!shutdown_removes_files(None, 42));
}

#[test]
fn serve_lock_is_exclusive_and_reusable() {
    assert!(acquire_serve_lock("/h", false, true).is_ok());
    assert!(
        acquire_serve_lock("/h", false, false).is_err(),
        "second serve lock acquisition must fail while the first is held"
    );
    acquire_serve_lock("/h", false, true).expect("lock should be reacquirable once released");
}

#[test]
fn shutdown_guard_preserves_socket_and_status_for_newer_daemon() {
    assert!(!shutdown_removes_files(Some(43), 42));
    assert!(shutdown_removes_files(Some(42), 42));
}

#[test]
fn a_reset_needs_the_home_to_itself() {
    assert!(try_acquire_reset_guard(true, true, false));
    assert!(!try_acquire_reset_guard(false, true, false));
    assert!(!try_acquire_reset_guard(true, false, false));
    assert!(!try_acquire_reset_guard(true, true, true));
}

#[test]
fn append_daemon_recovery_log_creates_and_appends() {
    let mut log = String::new();
    for message in ["first event", "second event"] {
        log.push_str(&format_daemon_recovery_log_entry("2026-04-27T10:00:00Z", message));
    }
    let mut entries = log.split_inclusive('\n');
    for expected in ["first event", "second event"] {
        let entry = entries.next().expect("expected recovery log entry");
        assert!(entry.starts_with('['), "entry should start with a timestamp");
        let (_, message) = entry.split_once("] ").expect("a timestamp and a message");
        assert_eq!(message, format!("{expected}\n"));
    }
    assert!(entries.next().is_none(), "unexpected recovery log entry");
}

#[test]
fn append_daemon_recovery_log_truncates_oversized_ascii_entry() {
    let message = "x".repeat(DAEMON_RECOVERY_LOG_MAX_BYTES as usize + 1024);
    let entry = format_daemon_recovery_log_entry("2026-04-27T10:00:00Z", &message);
    assert!(entry.len() <= DAEMON_RECOVERY_LOG_MAX_BYTES as usize);
    assert!(entry.ends_with("... [truncated]\n"));
}

#[test]
fn append_daemon_recovery_log_truncates_multibyte_entry_on_char_boundary() {
    let message = "🧙".repeat(DAEMON_RECOVERY_LOG_MAX_BYTES as usize / "🧙".len() + 1024);
    let entry = format_daemon_recovery_log_entry("2026-04-27T10:00:00Z", &message);
    assert!(entry.len() <= DAEMON_RECOVERY_LOG_MAX_BYTES as usize);
    assert!(entry.ends_with("... [truncated]\n"));
}

#[test]
fn maintenance_failures_below_watermark_log_without_creating_store() {
    let min = 1024;
    let details = "store maintenance pass failed: failed to read /private/home";
    let low = record_store_maintenance_failure(details, Ok(min - 1), Ok(()), min);
    assert_eq!(low.log, vec![details]);
    assert!(!low.record_in_store);
    assert!(record_store_maintenance_failure(details, Ok(min), Ok(()), min).record_in_store);
    let blind = record_store_maintenance_failure(
        details,
        Err("statvfs".to_string()),
        Err("read-only".to_string()),
        min,
    );
    assert!(!blind.record_in_store);
    assert_eq!(
        blind.log,
        vec![
            details.to_string(),
            "failed to mark storage health snapshot degraded: read-only".to_string(),
            "store maintenance error not persisted: failed to inspect free disk: statvfs"
                .to_string(),
        ]
    );
}

#[test]
fn failed_snapshots_are_logged_at_startup() {
    assert!(initialize_daemon_store(Ok(()), Ok(()), Err("unused".to_string())).is_empty());
    let log = initialize_daemon_store(Err("hub".to_string()), Err("a".to_string()), Ok(()));
    assert_eq!(log.len(), 2);
    assert_eq!(log[0], "hub status snapshot refresh failed during daemon startup: hub");
    assert_eq!(log[1], "storage health snapshot refresh failed during daemon startup: a");
}

#[test]
fn recovery_log_rotation_keeps_a_bounded_history() {
    let mut files: std::collections::BTreeMap<String, String> = Default::default();
    let mut rotate = |files: &mut std::collections::BTreeMap<String, String>| {
        let current = files.get("log").map_or(0, |text| text.len() as u64);
        for (from, to) in rotate_recovery_log("log", current, 4, 10, 2) {
            if let Some(text) = files.remove(&from) {
                files.insert(to, text);
            }
        }
    };
    files.insert("log".to_string(), "12345678".to_string());
    rotate(&mut files);
    assert!(!files.contains_key("log"));
    assert_eq!(files["log.1"], "12345678");

    files.insert("log".to_string(), "abcdefgh".to_string());
    rotate(&mut files);
    assert_eq!(files["log.1"], "abcdefgh");
    assert_eq!(files["log.2"], "12345678");

    files.remove("log.1");
    files.insert("log".to_string(), "ijklmnop".to_string());
    rotate(&mut files);
    assert_eq!(files["log.1"], "ijklmnop");
    assert_eq!(files["log.2"], "12345678");

    assert!(rotate_recovery_log("log", 6, 4, 10, 2).is_empty());
}

#[test]
fn the_daemon_locks_its_home_before_it_binds() {
    let steps = serve_forever(DaemonIpcPlatform::Unix, true, false);
    let place = |step: ServeStep| steps.iter().position(|s| *s == step);
    assert!(place(ServeStep::AcquireServeLock) < place(ServeStep::BindTransport));
    assert!(place(ServeStep::BindTransport) < place(ServeStep::WriteStatus));
    assert!(place(ServeStep::StartTcp).is_some());
    assert_eq!(steps.last(), Some(&ServeStep::AcceptLoop));
    let plain = serve_forever(DaemonIpcPlatform::Unix, false, true);
    assert!(!plain.contains(&ServeStep::StartTcp));
    assert_eq!(plain.first(), Some(&ServeStep::WarnAllowedHosts));
    let error = acquire_serve_lock("/h", false, false).expect_err("held");
    assert!(error.message.contains("(holds /h/daemon-serve.lock)"), "{}", error.message);
    assert!(acquire_serve_lock("/h", false, true).is_ok());
}

#[test]
fn the_accept_loop_goes_on() {
    let fault = |kind: IoFaultKind| Accepted::Failed(kind);
    assert_eq!(accept_step(false, Accepted::Connection, false), AcceptStep::Serve);
    assert_eq!(accept_step(true, Accepted::Connection, true), AcceptStep::Stop);
    assert_eq!(accept_step(false, fault(IoFaultKind::Interrupted), true), AcceptStep::Stop);
    assert_eq!(accept_step(false, fault(IoFaultKind::WouldBlock), false), AcceptStep::Retry(25));
    assert_eq!(accept_step(false, fault(IoFaultKind::Other), false), AcceptStep::Report(100));
}

#[test]
fn the_tcp_worker_ends_with_the_daemon() {
    assert_eq!(tcp_accept_step(false, Accepted::Connection, false), AcceptStep::Serve);
    assert_eq!(tcp_accept_step(false, Accepted::Connection, true), AcceptStep::CloseAndStop);
    assert_eq!(tcp_accept_step(true, Accepted::Connection, true), AcceptStep::Stop);
    let interrupted = Accepted::Failed(IoFaultKind::Interrupted);
    assert_eq!(tcp_accept_step(false, interrupted, true), AcceptStep::Report(100));
    assert_eq!(stop_tcp_worker(false, false), TcpStopStep::CancelAndWait(5));
    assert_eq!(stop_tcp_worker(false, true), TcpStopStep::Detach);
    assert_eq!(stop_tcp_worker(true, true), TcpStopStep::Join);
}

#[test]
fn one_bad_request_does_not_end_the_loop() {
    let malformed = [None];
    assert_eq!(
        report_connection(ServedOn::UnixSocket, &malformed),
        ConnectionReport::PrintAndLog
    );
    assert_eq!(report_connection(ServedOn::WindowsPipe, &malformed), ConnectionReport::Print);
    assert_eq!(
        report_connection(ServedOn::Tcp, &malformed),
        ConnectionReport::PrintAndPause(100)
    );
    let gone = [None, Some(IoFaultKind::BrokenPipe)];
    assert_eq!(report_connection(ServedOn::UnixSocket, &gone), ConnectionReport::Quiet);
    assert_eq!(accept_step(false, Accepted::Connection, false), AcceptStep::Serve);
}

#[test]
fn a_flood_of_connections_is_served_in_line() {
    let mut inflight = InFlight::new();
    for _ in 0..MAX_INFLIGHT {
        assert_eq!(inflight.begin(), Dispatch::Thread);
    }
    assert_eq!(inflight.begin(), Dispatch::Inline);
    inflight.finish();
    assert_eq!(inflight.begin(), Dispatch::Thread);
}

#[test]
fn the_end_of_serving_reports_the_sessions_first() {
    assert!(serve_outcome(Ok(()), Ok(())).is_ok());
    let error = serve_outcome(Err("s".to_string()), Err("t".to_string())).expect_err("both");
    assert_eq!(error.chain(), "failed to terminate live sessions during daemon shutdown: s");
    assert_eq!(serve_outcome(Ok(()), Err("t".to_string())).expect_err("tcp").message, "t");
}

#[test]
fn reclaimed_mounts_are_named() {
    assert_eq!(recover_orphaned_afs_mounts(&[]), None);
    assert_eq!(
        recover_orphaned_afs_mounts(&texts(&["a", "b"])).as_deref(),
        Some("unmounted orphaned afs sessions: a, b")
    );
    assert!(listener_is_fleet_only(8787));
    assert!(!listener_is_fleet_only(3000));
}

#[test]
fn stable_ids_and_digests_are_pinned() {
    assert_eq!(text_digest("abc"), "ungWv48Bz-pBQUDeXa4iI7ADYaOWF3qctBD_YfIAFa0");
    let id = stable_id("delegate", "abc");
    assert_eq!(id, "delegate_ba7816bf8f01cfea414140de5dae2223");
    assert_ne!(id, stable_id("delegate", "abd"));
}
