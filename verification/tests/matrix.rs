//! Matrices of delegations, and the sum of what becomes of their lanes.

use base64::Engine;
use coven_cli::delegation_matrix::{
    check_lane_replay, check_replay, ensure_children, lane_delegation_id, normalize_and_validate,
    normalize_strings, reconcile, recovery_notice, start, FailureMode, FailurePolicy, MatrixAxis,
    MatrixRequest, MAX_AXES, PROTOCOL_VERSION,
};
use coven_cli::fault::Fault;
use coven_cli::integration::DelegationStatus;
use coven_cli::matrix_aggregate::{
    aggregate, lane_failed, lane_pending, lane_status, status, LaneResult, MatrixCounts,
    MatrixLaneStatus, StoredMatrix,
};
use serde_json::Value;
use sha2::Digest;

const BASE: &str = "0123456789abcdef0123456789abcdef01234567";

fn json(text: &str) -> Value {
    serde_json::from_str(text).expect("json")
}

fn texts(list: &[&str]) -> Vec<String> {
    list.iter().map(|text| text.to_string()).collect()
}

fn digest(text: &str) -> String {
    base64::engine::general_purpose::URL_SAFE_NO_PAD.encode(sha2::Sha256::digest(text))
}

fn axis(key: &str, requirements: &[&str], preferences: &[&str]) -> MatrixAxis {
    MatrixAxis {
        key: key.to_string(),
        requirements: texts(requirements),
        preferences: texts(preferences),
        result_locator: json(&format!(r#"{{"path":"{key}"}}"#)),
    }
}

fn request(axes: Vec<MatrixAxis>) -> MatrixRequest {
    MatrixRequest {
        protocol_version: PROTOCOL_VERSION.to_string(),
        matrix_id: Some("matrix-one".to_string()),
        parent_session_id: None,
        parent_repo: "/repo".to_string(),
        base_revision: BASE.to_string(),
        task: "work".to_string(),
        workspace_driver: "filesystem".to_string(),
        base_checkpoint: json("{}"),
        axes,
        harness: "fake".to_string(),
        failure_policy: FailurePolicy { mode: FailureMode::AllRequired, min_successful: None },
    }
}

fn windows() -> MatrixAxis {
    axis("windows", &["os:windows", "arch:x86_64"], &["gpu:nvidia"])
}

fn linux() -> MatrixAxis {
    axis("linux", &["os:linux", "arch:x86_64", "os:linux"], &[])
}

/// A form of a request that tells any two apart.
fn encoded(request: &MatrixRequest) -> String {
    format!("{request:?}")
}

fn lane(key: &str, state: &str) -> MatrixLaneStatus {
    MatrixLaneStatus {
        axis_key: key.to_string(),
        delegation_id: format!("d-{key}"),
        child_id: format!("c-{key}"),
        job_id: format!("j-{key}"),
        state: state.to_string(),
        node_id: None,
        preview: None,
        failure: None,
        result_digest: None,
        platform_evidence: Vec::new(),
    }
}

const REQUIRED: FailurePolicy =
    FailurePolicy { mode: FailureMode::AllRequired, min_successful: None };
const PARTIAL: FailurePolicy =
    FailurePolicy { mode: FailureMode::AllowPartial, min_successful: Some(1) };

#[test]
fn start_normalizes_order_and_replays_without_duplicate_children() {
    let first = start(request(vec![windows(), linux()]), "fresh").expect("started");
    let keys: Vec<&str> = first.lanes.iter().map(|lane| lane.axis_key.as_str()).collect();
    assert_eq!(keys, vec!["linux", "windows"]);
    let mut replayed = linux();
    replayed.requirements.reverse();
    let second = start(request(vec![replayed, windows()]), "fresh").expect("started");
    check_replay(&encoded(&first.request), &encoded(&second.request)).expect("the same request");
    for (stored, link) in first.lanes.iter().zip(&second.lanes) {
        check_lane_replay(stored.ordinal, &stored.delegation_id, link).expect("the same lane");
    }
    let children = ensure_children(&first.request).expect("children");
    assert_eq!(children.len(), 2);
    assert_eq!(children[0].delegation_id.as_deref(), Some(first.lanes[0].delegation_id.as_str()));
    assert_eq!(children[0].requirements, vec!["arch:x86_64", "os:linux"]);
}

#[test]
fn replay_rejects_changed_immutable_axis() {
    let first = start(request(vec![windows(), linux()]), "fresh").expect("started");
    let mut changed = windows();
    changed.result_locator = json(r#"{"path":"changed"}"#);
    let second = start(request(vec![changed, linux()]), "fresh").expect("started");
    let error = check_replay(&encoded(&first.request), &encoded(&second.request))
        .expect_err("the request changed");
    assert!(error.message.contains("immutable request"), "{}", error.message);
    let moved = check_lane_replay(first.lanes[0].ordinal + 1, "d", &first.lanes[0]);
    assert!(moved.is_err());
}

#[test]
fn requests_are_checked_and_normalized() {
    let failed = |request: MatrixRequest| {
        normalize_and_validate(request).expect_err("refused").message
    };
    let mut protocol = request(vec![linux()]);
    protocol.protocol_version = "v0".to_string();
    failed(protocol);
    failed(request(Vec::new()));
    failed(request(vec![linux(), linux()]));
    failed(request((0..=MAX_AXES).map(|i| axis(&format!("a{i}"), &[], &[])).collect()));
    failed(request(vec![axis("no key", &[], &[])]));
    let mut policy = request(vec![linux()]);
    policy.failure_policy = FailurePolicy {
        mode: FailureMode::AllowPartial,
        min_successful: Some(2),
    };
    failed(policy);
    let normal = normalize_and_validate(request(vec![linux()])).expect("well formed");
    assert_eq!(normal.axes[0].requirements, vec!["arch:x86_64", "os:linux"]);
    assert_eq!(
        normalize_strings(&texts(&["b", "a", "b"])).expect("well formed"),
        vec!["a", "b"]
    );
    assert!(normalize_strings(&texts(&[""])).is_err());
}

#[test]
fn lanes_have_delegations_of_their_own() {
    let one = lane_delegation_id("m", &linux());
    assert_eq!(one, lane_delegation_id("m", &linux()));
    assert_ne!(one, lane_delegation_id("m", &windows()));
    assert_ne!(one, lane_delegation_id("n", &linux()));
    let normal = normalize_and_validate(request(vec![windows(), linux()])).expect("well formed");
    let ids = reconcile("matrix-one", &normal);
    assert_eq!(ids.len(), 2);
    assert_eq!(ids[0], lane_delegation_id("matrix-one", &normal.axes[0]));
    let notice = recovery_notice("m", &Fault::plain("boom"));
    assert!(notice.contains("boom"), "{notice}");
}

#[test]
fn aggregate_is_order_independent_and_partial_is_terminal_only() {
    let pending = aggregate("m", "base", &PARTIAL, vec![lane("b", "failed"), lane("a", "queued")]);
    assert_eq!(pending.state, "pending");
    assert!(!pending.partial);
    let first = aggregate(
        "m",
        "base",
        &PARTIAL,
        vec![lane("b", "failed"), lane("a", "ready_to_integrate")],
    );
    let second = aggregate(
        "m",
        "base",
        &PARTIAL,
        vec![lane("a", "ready_to_integrate"), lane("b", "failed")],
    );
    assert_eq!(first.state, "ready_partial");
    assert!(first.partial);
    assert_eq!(first.aggregate_digest, second.aggregate_digest);
    assert_eq!(
        first.counts,
        MatrixCounts { total: 2, succeeded: 1, failed: 1, pending: 0, conflicted: 0 }
    );
    assert_eq!(aggregate("m", "base", &REQUIRED, first.lanes).state, "failed");
}

#[test]
fn aggregate_retains_and_digests_lane_platform_evidence() {
    let evidence = |os: &str| {
        json(&format!(
            r#"{{"os":"{os}","architecture":"x86_64","platformVersion":"test","runtimes":{{"rust":"1.95.0"}},"placementObservationDigest":"{}"}}"#,
            digest("linux-observation")
        ))
    };
    let linux = |os: &str| {
        let mut linux = lane("linux", "ready_to_integrate");
        linux.result_digest = Some("result-linux".to_string());
        linux.platform_evidence.push(evidence(os));
        linux
    };
    let first = aggregate("m", "base", &REQUIRED, vec![linux("linux")]);
    assert_eq!(first.lanes[0].platform_evidence[0]["os"], "linux");
    let changed = aggregate("m", "base", &REQUIRED, vec![linux("windows")]);
    assert_ne!(first.aggregate_digest, changed.aggregate_digest);
}

#[test]
fn five_lane_heterogeneous_fan_out_is_completion_order_independent() {
    let specifications = [
        ("windows-x64", "node-win", "windows", "x86_64", "dotnet", "9.0"),
        ("linux-gpu", "node-gpu", "linux", "x86_64", "cuda", "12.4"),
        ("macos-arm", "node-mac-arm", "macos", "aarch64", "xcode", "16.2"),
        ("linux-arm", "node-linux-arm", "linux", "aarch64", "rust", "1.95.0"),
        ("macos-intel", "node-mac-intel", "macos", "x86_64", "node", "24.0.0"),
    ];
    let completed = |specification: &(&str, &str, &str, &str, &str, &str)| {
        let (axis, node, os, architecture, runtime, version) = *specification;
        let gpu = if axis == "linux-gpu" {
            r#""gpu":{"vendor":"nvidia","model":"l4","driverVersion":"550.54"},"#
        } else {
            ""
        };
        let mut completed = lane(axis, "ready_to_integrate");
        completed.node_id = Some(node.to_string());
        completed.result_digest = Some(digest(&format!("result:{axis}:{node}")));
        completed.platform_evidence = vec![json(&format!(
            r#"{{"os":"{os}","architecture":"{architecture}","platformVersion":"proof-fixture",{gpu}"runtimes":{{"{runtime}":"{version}"}},"placementObservationDigest":"{}"}}"#,
            digest(&format!("observation:{axis}:{node}"))
        ))];
        completed
    };
    let completion_order: Vec<MatrixLaneStatus> = specifications.iter().map(completed).collect();
    let opposite_order: Vec<MatrixLaneStatus> = specifications.iter().rev().map(completed).collect();
    let first = aggregate("matrix-five", "base", &REQUIRED, completion_order);
    let second = aggregate("matrix-five", "base", &REQUIRED, opposite_order);

    assert_eq!(first.state, "ready");
    assert!(!first.partial);
    assert_eq!(
        first.counts,
        MatrixCounts { total: 5, succeeded: 5, failed: 0, pending: 0, conflicted: 0 }
    );
    assert_eq!(first.aggregate_digest, second.aggregate_digest);
    let shown: Vec<(&str, &str, &str, &str)> = first
        .lanes
        .iter()
        .map(|lane| {
            (
                lane.axis_key.as_str(),
                lane.node_id.as_deref().unwrap(),
                lane.platform_evidence[0]["os"].as_str().unwrap(),
                lane.platform_evidence[0]["architecture"].as_str().unwrap(),
            )
        })
        .collect();
    assert_eq!(
        shown,
        vec![
            ("linux-arm", "node-linux-arm", "linux", "aarch64"),
            ("linux-gpu", "node-gpu", "linux", "x86_64"),
            ("macos-arm", "node-mac-arm", "macos", "aarch64"),
            ("macos-intel", "node-mac-intel", "macos", "x86_64"),
            ("windows-x64", "node-win", "windows", "x86_64"),
        ]
    );
    let with_gpu: Vec<&str> = first
        .lanes
        .iter()
        .filter(|lane| lane.platform_evidence[0].get("gpu").is_some())
        .map(|lane| lane.axis_key.as_str())
        .collect();
    assert_eq!(with_gpu, vec!["linux-gpu"]);
}

#[test]
fn lanes_are_counted_by_their_kind() {
    assert!(lane_pending("queued") && !lane_failed("queued"));
    assert!(lane_failed("cancelled") && !lane_pending("cancelled"));
    let mixed = aggregate(
        "m",
        "base",
        &REQUIRED,
        vec![lane("a", "conflicted"), lane("b", "failed"), lane("c", "finalized"), lane("d", "queued")],
    );
    let counts = mixed.counts;
    assert_eq!(counts.total, 4);
    assert_eq!(counts.failed, 1);
    assert_eq!(counts.pending, 1);
    assert_eq!(counts.conflicted, 1);
    assert_eq!(counts.succeeded, 2, "a conflicted lane has a result");
}

#[test]
fn a_matrix_shows_its_lanes() {
    let child = DelegationStatus {
        protocol_version: "coven.delegation.v1".to_string(),
        delegation_id: "d".to_string(),
        child_id: "c".to_string(),
        job_id: "j".to_string(),
        state: "ready_to_integrate".to_string(),
        base_revision: BASE.to_string(),
        parent_repo: "/repo".to_string(),
        assigned_node_id: Some("node-a".to_string()),
        preview: None,
        finalization_key: None,
        cleanup_job_id: None,
        cleanup_acknowledged: false,
        failure: None,
    };
    let result = LaneResult { result_digest: "r".to_string(), platforms: vec![json("{}")] };
    let lane = lane_status("linux".to_string(), child, Some(result));
    assert_eq!(lane.axis_key, "linux");
    assert_eq!(lane.node_id.as_deref(), Some("node-a"));
    assert_eq!(lane.result_digest.as_deref(), Some("r"));
    assert_eq!(lane.platform_evidence.len(), 1);
    let stored = StoredMatrix { base_revision: BASE.to_string(), failure_policy: REQUIRED };
    let shown = status("m", Some(&stored), vec![lane]).expect("recorded");
    assert_eq!(shown.state, "ready");
    assert_eq!(shown.aggregate_digest.len(), 43);
    assert!(status("m", None, Vec::new()).is_err());
}
