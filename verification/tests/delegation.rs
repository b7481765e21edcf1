//! Delegations, from their start to the release of their child.

use base64::Engine;
use coven_cli::delegation::{
    cancel, cancel_job, check_replay, collect, collect_completed, collect_failed, default_harness,
    git_stdout, start, validate_request, CancelAction, CancelJobAction, CollectAction,
    CompletedJob, Delegation, DelegationRequest, DelegationStart, DelegationState, FailedJob,
    IntegrationPreview, ProvisionalResult, ResultBinding, StoredStart, MAX_TASK_BYTES,
    PROTOCOL_VERSION,
};
use coven_cli::delegation_cleanup::{run as plan_cleanup, stop_is_due, CleanupRequest};
use coven_cli::delegation_executor::{
    admit_payload, attempt_paths, confined_relative, ensure_no_symlink_ancestors, open_attempt,
    payload_digest, placement_observation_digest, run, seal_result, stop_actor, validate, FakeTask,
    FakeWrite, Opening, Payload, RunContext, RunStep, MAX_FILE_BYTES,
};
use coven_cli::fault::{Fault, Probe};
use coven_cli::ids::{commit_is_valid, id_is_valid};
use coven_cli::integration::{
    claim_integration, finish_integration, integrate, reconcile_all, reconcile_cleanup,
    recover_integration, recovery_notice, status, CompletedCleanup, FoundParent, IntegrateAction,
    ReconcileAction, RecoverAction,
};
use serde_json::Value;
use sha2::Digest;

const BASE: &str = "0123456789abcdef0123456789abcdef01234567";

fn json(text: &str) -> Value {
    serde_json::from_str(text).expect("json")
}

fn request(id: &str) -> DelegationRequest {
    DelegationRequest {
        protocol_version: PROTOCOL_VERSION.to_string(),
        delegation_id: Some(id.to_string()),
        parent_session_id: None,
        parent_repo: "/repo".to_string(),
        base_revision: BASE.to_string(),
        task: "work".to_string(),
        workspace_driver: "filesystem".to_string(),
        base_checkpoint: json("{}"),
        result_locator: json("{}"),
        requirements: Vec::new(),
        preferences: Vec::new(),
        harness: "fake".to_string(),
    }
}

fn started(id: &str) -> DelegationStart {
    start(&request(id), Ok(BASE.to_string()), Ok(String::new()), "fresh").expect("started")
}

/// The record of a delegation that has just been started.
fn recorded(started: &DelegationStart) -> Delegation {
    Delegation {
        delegation_id: started.delegation_id.clone(),
        child_id: started.child_id.clone(),
        job_id: started.job_id.clone(),
        state: DelegationState::Queued,
        base_revision: BASE.to_string(),
        parent_repo: "/repo".to_string(),
        assigned_node_id: None,
        preview: None,
        finalization_key: None,
        cleanup_job_id: None,
        cleanup_acknowledged: false,
        failure: None,
        failed_attempt_id: None,
        result: None,
    }
}

fn binding(delegation: &Delegation) -> ResultBinding {
    ResultBinding {
        delegation_id: delegation.delegation_id.clone(),
        child_id: delegation.child_id.clone(),
        base_revision: BASE.to_string(),
        attempt_id: "attempt-a".to_string(),
        node_id: "node-a".to_string(),
        result_digest: "digest".to_string(),
        observations: vec!["seen".to_string()],
    }
}

fn completed() -> CompletedJob {
    CompletedJob { node_id: "node-a".to_string(), attempt_id: "attempt-a".to_string() }
}

fn preview(clean: bool) -> IntegrationPreview {
    IntegrationPreview {
        clean,
        parent_revision: BASE.to_string(),
        recorded: json(r#"{"parentRevision":"x"}"#),
    }
}

fn collected(delegation: &mut Delegation, clean: bool) -> Option<String> {
    let bound = binding(delegation);
    collect_completed(
        delegation,
        completed(),
        bound,
        Ok(Some("seen".to_string())),
        Ok(()),
        Ok(preview(clean)),
        "{}".to_string(),
    )
    .expect("collected")
    .map(|job| job.job_id)
}

fn acknowledgement(delegation: &Delegation, node: &str) -> CompletedCleanup {
    let plan = plan_cleanup(
        "/h",
        &CleanupRequest {
            protocol_version: "coven.delegation-cleanup.v1".to_string(),
            delegation_id: delegation.delegation_id.clone(),
            child_id: delegation.child_id.clone(),
            actor_id: "actor".to_string(),
            generation: 1,
        },
        "host.v1",
        false,
    )
    .expect("planned");
    CompletedCleanup { node_id: node.to_string(), result: plan.answer }
}

#[test]
fn start_is_async_and_persists_linkage() {
    let started = started("delegation-1");
    let delegation = recorded(&started);
    let shown = status(Some(&delegation)).expect("recorded");
    assert_eq!(shown.state, "queued");
    assert!(shown.job_id.starts_with("delegate_"));
    assert_eq!(shown.delegation_id, "delegation-1");
    assert_eq!(started.payload["delegationId"], "delegation-1");
    assert_eq!(started.payload["childId"], started.child_id.as_str());
}

#[test]
fn queued_cancellation_is_terminal_and_replay_safe() {
    let first = started("cancel-queued");
    let mut delegation = recorded(&first);
    assert!(matches!(cancel(&mut delegation), Ok(CancelAction::AskForJob)));
    let action = cancel_job(&mut delegation, "queued").expect("cancelled");
    assert_eq!(action, CancelJobAction::CancelJob);
    assert_eq!(delegation.state.name(), "cancelled");
    assert!(matches!(cancel(&mut delegation), Ok(CancelAction::Report)));
    assert_eq!(delegation.state.name(), "cancelled");

    let stored = StoredStart {
        child_id: first.child_id.clone(),
        job_id: first.job_id.clone(),
        base_revision: BASE.to_string(),
        parent_repo: "/repo".to_string(),
        request_json: "work".to_string(),
    };
    let mut changed = request("cancel-queued");
    assert!(check_replay(&stored, &first, &changed, "work").is_ok());
    changed.task = "changed".to_string();
    assert!(check_replay(&stored, &first, &changed, "changed").is_err());
}

#[test]
fn leased_cancellation_waits_for_provisional_result_before_cleanup() {
    let mut delegation = recorded(&started("cancel-leased"));
    assert!(matches!(cancel(&mut delegation), Ok(CancelAction::AskForJob)));
    let action = cancel_job(&mut delegation, "leased").expect("requested");
    assert_eq!(action, CancelJobAction::Report);
    assert_eq!(delegation.state.name(), "cancel_requested");
    assert!(delegation.cleanup_job_id.is_none());
    assert!(matches!(cancel(&mut delegation), Ok(CancelAction::Report)));
    assert_eq!(delegation.state.name(), "cancel_requested");

    // The result that comes in is released, not offered.
    assert_eq!(collect(&delegation), CollectAction::AskForJob);
    let job = collected(&mut delegation, true);
    assert!(job.is_some());
    assert_eq!(delegation.cleanup_job_id, job);
    assert_eq!(delegation.state.name(), "cancel_cleanup_queued");
}

#[test]
fn provisional_cancellation_queues_cleanup_on_producing_node() {
    let mut delegation = recorded(&started("cancel-provisional"));
    delegation.result = Some(ProvisionalResult {
        result_digest: "digest".to_string(),
        attempt_id: "attempt-a".to_string(),
        node_id: "node-a".to_string(),
        bundle_json: "{}".to_string(),
        integrated: false,
    });
    delegation.state = DelegationState::ReadyToIntegrate;
    delegation.assigned_node_id = Some("node-a".to_string());
    let job = match cancel(&mut delegation) {
        Ok(CancelAction::Release(job)) => job,
        action => panic!("got {action:?}"),
    };
    assert_eq!(delegation.state.name(), "cancel_cleanup_queued");
    assert_eq!(delegation.cleanup_job_id.as_deref(), Some(job.job_id.as_str()));
    assert_eq!(job.node_id, "node-a");
}

#[test]
fn failed_child_retains_resources_until_pinned_cleanup_ack() {
    let mut delegation = recorded(&started("failed-child"));
    let failure = json(r#"{"code":"execution_failed","message":"runner stopped"}"#);
    let job = collect_failed(
        &mut delegation,
        FailedJob {
            node_id: "node-a".to_string(),
            attempt_id: "attempt-a".to_string(),
            failure: failure.clone(),
        },
    );
    let shown = status(Some(&delegation)).expect("recorded");
    assert_eq!(shown.state, "failure_cleanup_queued");
    assert_eq!(shown.assigned_node_id.as_deref(), Some("node-a"));
    assert_eq!(shown.failure, Some(failure));
    assert!(!shown.cleanup_acknowledged);
    assert_eq!(shown.cleanup_job_id.as_deref(), Some(job.job_id.as_str()));
    assert_eq!(job.node_id, "node-a");

    reconcile_cleanup(&mut delegation, None).expect("not released yet");
    assert_eq!(delegation.state.name(), "failure_cleanup_queued");
    let foreign = acknowledgement(&delegation, "node-b");
    let error = reconcile_cleanup(&mut delegation, Some(&foreign)).expect_err("another node");
    assert_eq!(error.message, "delegation cleanup acknowledgement binding mismatch");
    let own = acknowledgement(&delegation, "node-a");
    reconcile_cleanup(&mut delegation, Some(&own)).expect("released");
    assert_eq!(delegation.state.name(), "failed");
    assert!(delegation.cleanup_acknowledged);
}

#[test]
fn requests_are_checked_before_anything_else() {
    let bad = |change: &dyn Fn(&mut DelegationRequest)| {
        let mut request = request("d");
        change(&mut request);
        validate_request(&request).expect_err("refused").message
    };
    assert!(validate_request(&request("d")).is_ok());
    assert_eq!(default_harness(), "fake");
    let protocol = "unsupported delegation protocol";
    assert_eq!(bad(&|r| r.protocol_version = "v0".to_string()), protocol);
    let task = "delegation task is invalid";
    assert_eq!(bad(&|r| r.task = "x".repeat(MAX_TASK_BYTES + 1)), task);
    assert_eq!(bad(&|r| r.task = "  ".to_string()), task);
    assert_eq!(
        bad(&|r| r.base_revision = "HEAD".to_string()),
        "baseRevision must be a full SHA-1 commit OID"
    );
    assert_eq!(
        bad(&|r| r.requirements = vec!["x".to_string(); 129]),
        "placement input exceeds limits"
    );
    assert_eq!(
        bad(&|r| r.harness = "codex".to_string()),
        "only the deterministic fake harness is enabled"
    );
    assert_eq!(bad(&|r| r.workspace_driver = "ftp".to_string()), "unsupported workspace driver");
}

#[test]
fn a_start_needs_a_clean_parent_at_its_base() {
    let moved = start(&request("d"), Ok("f".repeat(40)), Ok(String::new()), "fresh");
    assert_eq!(moved.expect_err("moved").message, "parent HEAD does not match baseRevision");
    let dirty = start(&request("d"), Ok(BASE.to_string()), Ok(" M a".to_string()), "fresh");
    assert_eq!(
        dirty.expect_err("dirty").message,
        "parent workspace must be clean when delegation starts"
    );
    let named = start(&request("../x"), Ok(BASE.to_string()), Ok(String::new()), "fresh");
    assert_eq!(named.expect_err("no id").message, "delegationId has an invalid format");
    let broken = start(&request("d"), Err(Fault::plain("no git")), Ok(String::new()), "fresh");
    assert_eq!(broken.expect_err("git failed").message, "no git");
    let mut unnamed = request("d");
    unnamed.delegation_id = None;
    let started = start(&unnamed, Ok(BASE.to_string()), Ok(String::new()), "fresh-id");
    assert_eq!(started.expect("named").delegation_id, "dlg_fresh-id");
}

#[test]
fn states_have_names() {
    for state in [
        DelegationState::Queued,
        DelegationState::CancelRequested,
        DelegationState::ReadyToIntegrate,
        DelegationState::Conflicted,
        DelegationState::Applying,
        DelegationState::RecoveryConflict,
        DelegationState::Integrated,
        DelegationState::CleanupQueued,
        DelegationState::CancelCleanupQueued,
        DelegationState::FailureCleanupQueued,
        DelegationState::Finalized,
        DelegationState::Cancelled,
        DelegationState::Failed,
    ] {
        assert_eq!(DelegationState::named(&state.name()), Some(state));
    }
    assert_eq!(DelegationState::named("lost"), None);
}

#[test]
fn results_are_taken_from_their_own_attempt_only() {
    let refused = |change: &dyn Fn(&mut ResultBinding), claimed: Option<&str>| {
        let mut delegation = recorded(&started("d"));
        let mut bound = binding(&delegation);
        change(&mut bound);
        let error = collect_completed(
            &mut delegation,
            completed(),
            bound,
            Ok(claimed.map(str::to_string)),
            Ok(()),
            Ok(preview(true)),
            "{}".to_string(),
        )
        .expect_err("refused");
        assert_eq!(delegation.state, DelegationState::Queued);
        error.message
    };
    let mismatch = "delegation result authority binding mismatch";
    assert_eq!(refused(&|b| b.node_id = "node-b".to_string(), Some("seen")), mismatch);
    assert_eq!(refused(&|b| b.child_id = "other".to_string(), Some("seen")), mismatch);
    assert!(refused(&|_| {}, None).contains("omitted placement observation"));
    assert!(refused(&|_| {}, Some("unseen")).contains("did not match the claimed placement"));
    assert!(refused(&|b| b.observations.clear(), Some("seen")).contains("did not match"));
}

#[test]
fn a_replayed_result_must_not_change() {
    let mut delegation = recorded(&started("d"));
    assert_eq!(collected(&mut delegation, true), None);
    assert_eq!(delegation.state, DelegationState::ReadyToIntegrate);
    assert_eq!(collected(&mut delegation, false), None);
    assert_eq!(delegation.state, DelegationState::Conflicted);
    delegation.state = DelegationState::ReadyToIntegrate;
    let mut bound = binding(&delegation);
    bound.result_digest = "other".to_string();
    let error = collect_completed(
        &mut delegation,
        completed(),
        bound,
        Ok(Some("seen".to_string())),
        Ok(()),
        Ok(preview(true)),
        "{}".to_string(),
    )
    .expect_err("changed");
    assert_eq!(error.message, "delegation result replay changed immutable evidence");
}

#[test]
fn an_integration_belongs_to_one_key() {
    let mut delegation = recorded(&started("d"));
    let early = integrate(&mut delegation, Some(&preview(true)), "key-1").expect_err("no result");
    assert!(early.message.contains("no provisional result"), "{}", early.message);
    collected(&mut delegation, true);
    let bad = integrate(&mut delegation, Some(&preview(true)), "not a key").expect_err("bad key");
    assert_eq!(bad.message, "finalizationKey has an invalid format");
    match integrate(&mut delegation, Some(&preview(true)), "key-1").expect("begun") {
        IntegrateAction::Apply(revision) => assert_eq!(revision, BASE),
        action => panic!("got {action:?}"),
    }
    assert_eq!(delegation.state, DelegationState::Applying);
    let other = integrate(&mut delegation, Some(&preview(true)), "key-2").expect_err("taken");
    assert_eq!(other.message, "delegation apply is owned by another finalization key");
    let again = integrate(&mut delegation, Some(&preview(true)), "key-1").expect("its own");
    assert!(matches!(again, IntegrateAction::Recover));
    assert!(claim_integration(1).is_ok());
    assert!(claim_integration(0).is_err());

    let job = finish_integration(&mut delegation);
    assert_eq!(job.node_id, "node-a");
    assert_eq!(delegation.state.name(), "cleanup_queued");
    assert!(delegation.result.as_ref().expect("kept").integrated);
    let repeated = integrate(&mut delegation, None, "key-1").expect("its own");
    assert!(matches!(repeated, IntegrateAction::ReconcileCleanup));
    assert!(integrate(&mut delegation, None, "key-2").is_err());
    let late = cancel(&mut delegation).expect_err("acknowledged");
    assert_eq!(late.message, "delegation integration has already been acknowledged");
    let own = acknowledgement(&delegation, "node-a");
    reconcile_cleanup(&mut delegation, Some(&own)).expect("released");
    assert_eq!(delegation.state.name(), "finalized");
}

#[test]
fn an_apply_is_recovered_or_left_to_its_owner() {
    let applying = || {
        let mut delegation = recorded(&started("d"));
        collected(&mut delegation, true);
        integrate(&mut delegation, Some(&preview(true)), "key-1").expect("begun");
        delegation
    };
    let mut delegation = applying();
    let applied =
        recover_integration(&mut delegation, FoundParent::HasResult, &preview(true));
    assert_eq!(applied.expect("there"), RecoverAction::Applied);
    let unchanged = recover_integration(
        &mut delegation,
        FoundParent::LacksResult(preview(true)),
        &preview(true),
    );
    assert_eq!(unchanged.expect("not yet"), RecoverAction::Apply);
    let diverged = recover_integration(
        &mut delegation,
        FoundParent::LacksResult(preview(false)),
        &preview(true),
    );
    assert!(diverged.expect_err("another way").message.contains("parent divergence"));
    assert_eq!(delegation.state, DelegationState::RecoveryConflict);
}

#[test]
fn reconciliation_takes_each_delegation_up_where_it_stands() {
    let mut delegation = recorded(&started("d"));
    assert!(matches!(reconcile_all(&delegation), ReconcileAction::Collect));
    delegation.state = DelegationState::Applying;
    assert!(matches!(reconcile_all(&delegation), ReconcileAction::Complain(_)));
    delegation.finalization_key = Some("k".to_string());
    assert!(matches!(reconcile_all(&delegation), ReconcileAction::Integrate(key) if key == "k"));
    delegation.state = DelegationState::CancelCleanupQueued;
    assert!(matches!(reconcile_all(&delegation), ReconcileAction::ReconcileCleanup));
    let notice = recovery_notice("d", &Fault::caused("outer", "inner"));
    assert!(notice.contains('d') && notice.contains("inner"), "{notice}");
    assert!(status(None).is_err());
}

#[test]
fn git_output_is_trimmed_text() {
    assert_eq!(git_stdout(true, b" abc \n".to_vec(), b"").expect("text"), "abc");
    let failed = git_stdout(false, Vec::new(), b"fatal: no\n").expect_err("it failed");
    assert_eq!(failed.chain(), "git failed: fatal: no");
    let broken = git_stdout(true, vec![0xff], b"").expect_err("no UTF-8");
    assert_eq!(
        Some(broken.chain()),
        String::from_utf8(vec![0xff]).err().map(|error| error.to_string())
    );
}

#[test]
fn ids_and_commits_have_their_form() {
    assert!(id_is_valid("delegation-1"));
    assert!(!id_is_valid(""));
    assert!(!id_is_valid("a/b"));
    assert!(commit_is_valid(BASE));
    assert!(!commit_is_valid("HEAD"));
    assert!(!commit_is_valid(&BASE[1..]));
}

fn payload() -> Payload {
    Payload {
        protocol_version: PROTOCOL_VERSION.to_string(),
        delegation_id: "delegation-1".to_string(),
        child_id: "child-1".to_string(),
        attempt_id: "attempt-1".to_string(),
        node_id: "node-1".to_string(),
        base_revision: "base-1".to_string(),
        task: "{}".to_string(),
        harness: "fake".to_string(),
        actor_id: "actor-1".to_string(),
        generation: 1,
        workspace_driver: "filesystem".to_string(),
        base_checkpoint: json("{}"),
        result_locator: json("{}"),
        placement_observation_digest: None,
    }
}

fn context() -> RunContext {
    RunContext {
        workspace: "/h/workspace".to_string(),
        workspace_protocol: "workspace.v1".to_string(),
        harness_protocol: "host.v1".to_string(),
        exclusions: vec![".git".to_string()],
        windows: false,
    }
}

#[test]
fn legacy_payload_gets_a_deterministic_unbound_compatibility_digest() {
    let payload = payload();
    assert!(validate(&payload, Ok(())).is_ok());
    let first = placement_observation_digest(&payload);
    assert_eq!(first, placement_observation_digest(&payload));
    assert_eq!(first.len(), 43);
    let expected = base64::engine::general_purpose::URL_SAFE_NO_PAD.encode(sha2::Sha256::digest(
        b"coven.legacy-unbound-placement.v1\nnode-1\nattempt-1",
    ));
    assert_eq!(first, expected);
    let mut bound = payload;
    bound.placement_observation_digest = Some("bound".to_string());
    assert_eq!(placement_observation_digest(&bound), "bound");
}

#[test]
fn payloads_are_checked() {
    let bad = |change: &dyn Fn(&mut Payload)| {
        let mut payload = payload();
        change(&mut payload);
        validate(&payload, Ok(())).expect_err("refused").message
    };
    assert_eq!(
        bad(&|p| p.protocol_version = "x".to_string()),
        "unsupported delegation protocol"
    );
    assert_eq!(bad(&|p| p.delegation_id = "a b".to_string()), "delegationId invalid");
    assert_eq!(bad(&|p| p.child_id = String::new()), "childId invalid");
    assert_eq!(bad(&|p| p.actor_id = "/".to_string()), "actorId invalid");
    assert_eq!(bad(&|p| p.generation = 0), "invalid harness generation");
    assert_eq!(bad(&|p| p.harness = "codex".to_string()), "invalid harness generation");
    let platform = validate(&payload(), Err(Fault::plain("bad digest"))).expect_err("refused");
    assert_eq!(platform.message, "bad digest");
}

#[test]
fn attempts_have_places_of_their_own() {
    let paths = attempt_paths("/h", &payload(), false);
    assert_eq!(paths.allocation, "/h/delegations/delegation-1/child-1");
    assert_eq!(paths.result, "/h/delegations/delegation-1/child-1/attempts/attempt-1/result.json");
    let digest = payload_digest(&json(r#"{"b":1,"a":2}"#));
    assert_eq!(digest, payload_digest(&json(r#"{"a":2,"b":1}"#)));
    assert!(admit_payload(Probe::Missing, &digest).expect("new"));
    assert!(!admit_payload(Probe::Found(digest.clone()), &digest).expect("the same"));
    let changed = admit_payload(Probe::Found("other".to_string()), &digest).expect_err("changed");
    assert_eq!(changed.message, "delegation replay changed immutable payload");
    assert!(admit_payload(Probe::Failed("io".to_string()), &digest).is_err());
    let open = |stored: Probe<String>, has_result: bool| {
        open_attempt(&payload(), Ok(()), stored, &digest, has_result)
    };
    assert_eq!(open(Probe::Missing, false).expect("new"), (true, Opening::Run));
    assert_eq!(
        open(Probe::Found(digest.clone()), true).expect("replayed"),
        (false, Opening::Replay)
    );
    assert!(open(Probe::Found("other".to_string()), true).is_err());
}

#[test]
fn written_paths_stay_inside() {
    assert!(confined_relative("a/b.txt", false).is_ok());
    assert!(confined_relative(r"a\b.txt", true).is_ok());
    for path in ["/a", "../a", "a/../b", "a/..", "./a"] {
        assert!(confined_relative(path, false).is_err(), "{path}");
        assert!(confined_relative(path, true).is_err(), "{path}");
    }
    for path in [r"..\x", r"a\..\x", r"C:\x", "C:x", r"\x", r"\\server\share\x", r".\x"] {
        assert!(confined_relative(path, true).is_err(), "{path}");
        assert!(confined_relative(path, false).is_ok(), "{path}");
    }
    assert!(ensure_no_symlink_ancestors(&vec![false, false]).is_ok());
    assert!(ensure_no_symlink_ancestors(&vec![false, true]).is_err());
}

#[test]
fn an_attempt_publishes_its_result_last() {
    let task = Ok(FakeTask {
        write_files: vec![FakeWrite { path: "a.txt".to_string(), content: "x".to_string() }],
    });
    let steps = run(&payload(), &context(), &task);
    assert!(matches!(steps[0], RunStep::RemoveWorkspace));
    assert!(steps.iter().any(|s| matches!(s, RunStep::WriteFile(p, c) if p == "a.txt" && c == "x")));
    assert!(matches!(steps.last(), Some(RunStep::PublishResult)));
    assert_eq!(steps.iter().filter(|s| matches!(s, RunStep::PublishResult)).count(), 1);
    match &steps[1] {
        RunStep::RestoreWorkspace(request) => {
            assert_eq!(request["destinationPath"], "/h/workspace");
            assert_eq!(request["operation"], "restore");
        }
        step => panic!("got {step:?}"),
    }
    assert_eq!(stop_actor(&payload(), &context())["requestId"], "cancel-stop-child-1");
}

#[test]
fn a_bad_task_ends_the_attempt_without_a_result() {
    let last = |task: Result<FakeTask, String>| {
        let mut steps = run(&payload(), &context(), &task);
        assert!(!steps.iter().any(|step| matches!(step, RunStep::PublishResult)));
        match steps.pop() {
            Some(RunStep::Fail(fault)) => fault.chain(),
            step => panic!("got {step:?}"),
        }
    };
    let write = |path: &str, content: String| FakeTask {
        write_files: vec![FakeWrite { path: path.to_string(), content }],
    };
    assert_eq!(last(Err("eof".to_string())), "fake delegation task must be JSON: eof");
    assert_eq!(
        last(Ok(write("../out", String::new()))),
        "delegation path escapes child root"
    );
    assert_eq!(
        last(Ok(write("big", "x".repeat(MAX_FILE_BYTES + 1)))),
        "delegation content exceeds 1 MiB"
    );
    let many = FakeTask {
        write_files: (0..257)
            .map(|i| FakeWrite { path: format!("f{i}"), content: String::new() })
            .collect(),
    };
    assert_eq!(last(Ok(many)), "fake delegation task exceeds file limit");
}

#[test]
fn results_are_sealed_with_their_patch() {
    let reply = json(r#"{"checkpoint":{"sha256":"c0ffee","sizeBytes":3}}"#);
    let bundle = seal_result(&payload(), &reply, "abc".to_string(), "linux", "x86_64")
        .expect("a checkpoint");
    assert_eq!(bundle.patch, "abc");
    assert_eq!(bundle.patch_sha256, "ungWv48Bz-pBQUDeXa4iI7ADYaOWF3qctBD_YfIAFa0");
    assert_eq!(bundle.delegation_id, "delegation-1");
    assert_eq!(bundle.post_workspace_revision, "c0ffee");
    assert_eq!(bundle.artifact.name, "workspace-checkpoint");
    assert_eq!(bundle.artifact.size_bytes, 3);
    assert_eq!(bundle.artifact.platform.os, "linux");
    let failed = |reply: &str| {
        seal_result(&payload(), &json(reply), String::new(), "linux", "x86_64")
            .expect_err("no checkpoint")
            .message
    };
    assert_eq!(failed("{}"), "checkpoint omitted sha256");
    assert_eq!(failed(r#"{"checkpoint":{"sha256":"x"}}"#), "checkpoint omitted size");
}

#[test]
fn a_release_stops_its_own_generation_only() {
    let request = CleanupRequest {
        protocol_version: "coven.delegation-cleanup.v1".to_string(),
        delegation_id: "d".to_string(),
        child_id: "c".to_string(),
        actor_id: "a".to_string(),
        generation: 2,
    };
    let plan = plan_cleanup("/h", &request, "host.v1", false).expect("planned");
    assert_eq!(plan.allocation, "/h/delegations/d/c");
    assert_eq!(plan.stop_request["generation"], 2);
    assert_eq!(plan.status_request["requestId"], "cleanup-status-c");
    assert_eq!(plan.answer["released"], true);
    assert!(!stop_is_due(&request, None).expect("no actor"));
    assert!(stop_is_due(&request, Some(&json(r#"{"generation":2}"#))).expect("its own"));
    let other = stop_is_due(&request, Some(&json(r#"{"generation":3}"#))).expect_err("newer");
    assert_eq!(other.message, "actor generation conflict");
    let mut bad = request;
    bad.generation = 0;
    assert!(plan_cleanup("/h", &bad, "host.v1", false).is_err());
    bad.generation = 1;
    bad.child_id = "../c".to_string();
    let error = plan_cleanup("/h", &bad, "host.v1", false).expect_err("bad id");
    assert_eq!(error.message, "invalid delegation cleanup identity");
}
