//! The sum of a matrix: what its lanes came to, counted, judged by its policy and sealed by a
//! digest.

use crate::delegation_matrix::{validate_id, FailureMode, FailurePolicy, RESULT_PROTOCOL_VERSION};
use crate::digest::{base64_url, sha256, text_digest, text_digest_of};
use crate::fault::{caused, optional_view, plain, Fault};
use crate::ids::is_id;
use crate::integration::{optional_model, DelegationStatus};
use crate::json::{
    array_value, empty_object, field_of, json_encoding, json_model, json_models, json_text, null_value,
    optional_text_model, optional_text_value, text_value, unsigned_value, with_field, Json,
};
use crate::order::{
    keys_differ, precedes, sort_by_key, sorted_by_key, sorted_by_key_is_sorted,
    sorting_ignores_order, sorting_passes_through_views, Keyed, Named,
};
use crate::text::same_text;
use serde_json::Value;
use vstd::multiset::Multiset;
use vstd::prelude::*;
use vstd::string::*;
use vstd::utf8::encode_utf8;

verus! {

/// How a lane of a matrix stands.
#[derive(Debug)]
pub struct MatrixLaneStatus {
    pub axis_key: String,
    pub delegation_id: String,
    pub child_id: String,
    pub job_id: String,
    pub state: String,
    pub node_id: Option<String>,
    pub preview: Option<Value>,
    pub failure: Option<Value>,
    pub result_digest: Option<String>,
    pub platform_evidence: Vec<Value>,
}

/// What is known of how a lane stands.
pub struct LaneView {
    pub axis_key: Seq<char>,
    pub delegation_id: Seq<char>,
    pub child_id: Seq<char>,
    pub job_id: Seq<char>,
    pub state: Seq<char>,
    pub node_id: Option<Seq<char>>,
    pub preview: Option<Json>,
    pub failure: Option<Json>,
    pub result_digest: Option<Seq<char>>,
    pub platform_evidence: Seq<Json>,
}

impl View for MatrixLaneStatus {
    type V = LaneView;

    open spec fn view(&self) -> LaneView {
        LaneView {
            axis_key: self.axis_key@,
            delegation_id: self.delegation_id@,
            child_id: self.child_id@,
            job_id: self.job_id@,
            state: self.state@,
            node_id: optional_view(self.node_id),
            preview: optional_model(self.preview),
            failure: optional_model(self.failure),
            result_digest: optional_view(self.result_digest),
            platform_evidence: json_models(self.platform_evidence@),
        }
    }
}

impl Named for LaneView {
    open spec fn key(&self) -> Seq<char> {
        self.axis_key
    }
}

impl Named for MatrixLaneStatus {
    open spec fn key(&self) -> Seq<char> {
        self.axis_key@
    }
}

impl Keyed for MatrixLaneStatus {
    fn key_text(&self) -> (key: &str) {
        self.axis_key.as_str()
    }
}

/// What is known of how lanes stand.
pub open spec fn lane_views(lanes: Seq<MatrixLaneStatus>) -> Seq<LaneView> {
    lanes.map_values(|lane: MatrixLaneStatus| lane@)
}

/// How many lanes there are of each kind.
#[derive(Debug, Clone, Copy, PartialEq, Eq, Structural)]
pub struct MatrixCounts {
    pub total: usize,
    pub succeeded: usize,
    pub failed: usize,
    pub pending: usize,
    pub conflicted: usize,
}

/// How a matrix stands.
#[derive(Debug)]
pub struct MatrixStatus {
    pub protocol_version: String,
    pub matrix_id: String,
    pub base_revision: String,
    pub state: String,
    pub failure_policy: FailurePolicy,
    pub lanes: Vec<MatrixLaneStatus>,
    pub counts: MatrixCounts,
    pub partial: bool,
    pub aggregate_digest: String,
}

/// What is known of how a matrix stands.
pub struct MatrixView {
    pub protocol_version: Seq<char>,
    pub matrix_id: Seq<char>,
    pub base_revision: Seq<char>,
    pub state: Seq<char>,
    pub failure_policy: FailurePolicy,
    pub lanes: Seq<LaneView>,
    pub counts: MatrixCounts,
    pub partial: bool,
    pub aggregate_digest: Seq<char>,
}

impl View for MatrixStatus {
    type V = MatrixView;

    open spec fn view(&self) -> MatrixView {
        MatrixView {
            protocol_version: self.protocol_version@,
            matrix_id: self.matrix_id@,
            base_revision: self.base_revision@,
            state: self.state@,
            failure_policy: self.failure_policy,
            lanes: lane_views(self.lanes@),
            counts: self.counts,
            partial: self.partial,
            aggregate_digest: self.aggregate_digest@,
        }
    }
}

/// Whether a lane in a state is still under way.
pub open spec fn is_pending(state: Seq<char>) -> bool {
    ||| state == "queued"@
    ||| state == "cancel_requested"@
    ||| state == "applying"@
    ||| state == "cleanup_queued"@
    ||| state == "cancel_cleanup_queued"@
    ||| state == "failure_cleanup_queued"@
}

/// Whether a lane in a state has failed.
pub open spec fn is_failed(state: Seq<char>) -> bool {
    ||| state == "failed"@
    ||| state == "cancelled"@
    ||| state == "recovery_conflict"@
}

/// Whether a lane in a state is still under way.
pub fn lane_pending(state: &str) -> (pending: bool)
    ensures
        pending == is_pending(state@),
{
    same_text(state, "queued") || same_text(state, "cancel_requested") || same_text(
        state,
        "applying",
    ) || same_text(state, "cleanup_queued") || same_text(state, "cancel_cleanup_queued")
        || same_text(state, "failure_cleanup_queued")
}

/// Whether a lane in a state has failed.
pub fn lane_failed(state: &str) -> (failed: bool)
    ensures
        failed == is_failed(state@),
{
    same_text(state, "failed") || same_text(state, "cancelled") || same_text(
        state,
        "recovery_conflict",
    )
}

/// No lane is both under way and failed, and one in conflict is neither.
pub proof fn lane_kinds_are_apart(state: Seq<char>)
    ensures
        !(is_pending(state) && is_failed(state)),
        state == "conflicted"@ ==> !is_pending(state) && !is_failed(state),
{
    reveal_strlit("queued");
    reveal_strlit("cancel_requested");
    reveal_strlit("applying");
    reveal_strlit("cleanup_queued");
    reveal_strlit("cancel_cleanup_queued");
    reveal_strlit("failure_cleanup_queued");
    reveal_strlit("failed");
    reveal_strlit("cancelled");
    reveal_strlit("recovery_conflict");
    reveal_strlit("conflicted");
    assert("conflicted"@[0] == 'c' && "conflicted"@[1] == 'o');
    assert("queued"@[0] == 'q');
    assert("cancel_requested"@[1] == 'a' && "cancel_requested"@.len() == 16);
    assert("applying"@[0] == 'a');
    assert("cleanup_queued"@[1] == 'l');
    assert("cancel_cleanup_queued"@[1] == 'a' && "cancel_cleanup_queued"@.len() == 21);
    assert("failure_cleanup_queued"@[0] == 'f' && "failure_cleanup_queued"@.len() == 22);
    assert("failed"@[0] == 'f' && "failed"@.len() == 6);
    assert("cancelled"@[0] == 'c' && "cancelled"@.len() == 9);
    assert("recovery_conflict"@[0] == 'r');
}

/// How many lanes are in a state of some kind.
pub open spec fn count_lanes(lanes: Seq<LaneView>, kind: spec_fn(Seq<char>) -> bool) -> nat
    decreases lanes.len(),
{
    if lanes.len() == 0 {
        0
    } else {
        count_lanes(lanes.drop_last(), kind) + if kind(lanes.last().state) {
            1nat
        } else {
            0
        }
    }
}

/// How many lanes there are of each kind. What is neither under way nor failed has
/// succeeded.
pub open spec fn counts_of(lanes: Seq<LaneView>) -> MatrixCounts {
    let pending = count_lanes(lanes, |state: Seq<char>| is_pending(state));
    let failed = count_lanes(lanes, |state: Seq<char>| is_failed(state));
    MatrixCounts {
        total: lanes.len() as usize,
        succeeded: (lanes.len() - pending - failed) as usize,
        failed: failed as usize,
        pending: pending as usize,
        conflicted: count_lanes(lanes, |state: Seq<char>| state == "conflicted"@) as usize,
    }
}

/// How many lanes must succeed.
pub open spec fn minimum_of(policy: FailurePolicy, total: usize) -> usize {
    match policy.mode {
        FailureMode::AllRequired => total,
        FailureMode::AllowPartial => match policy.min_successful {
            Some(minimum) => minimum,
            None => total,
        },
    }
}

/// How a matrix stands, by its counts.
pub open spec fn state_of(counts: MatrixCounts, minimum: usize) -> Seq<char> {
    if counts.pending > 0 {
        "pending"@
    } else if counts.succeeded < minimum {
        "failed"@
    } else if counts.succeeded < counts.total {
        "ready_partial"@
    } else {
        "ready"@
    }
}

/// Whether a matrix has ended with enough lanes, but not all.
pub open spec fn is_partial(counts: MatrixCounts, minimum: usize) -> bool {
    counts.pending == 0 && counts.succeeded >= minimum && counts.succeeded < counts.total
}

/// An optional value, or null.
pub open spec fn value_or_null(value: Option<Json>) -> Json {
    match value {
        Some(inner) => inner,
        None => Json::Null,
    }
}

/// What the digest says of a lane.
pub open spec fn evidence_of(lane: LaneView) -> Json {
    Json::Object(
        Map::<Seq<char>, Json>::empty().insert("axisKey"@, Json::Text(lane.axis_key)).insert(
            "delegationId"@,
            Json::Text(lane.delegation_id),
        ).insert("childId"@, Json::Text(lane.child_id)).insert(
            "jobId"@,
            Json::Text(lane.job_id),
        ).insert("state"@, Json::Text(lane.state)).insert(
            "nodeId"@,
            optional_text_model(lane.node_id),
        ).insert("preview"@, value_or_null(lane.preview)).insert(
            "failure"@,
            value_or_null(lane.failure),
        ).insert("resultDigest"@, optional_text_model(lane.result_digest)).insert(
            "platformEvidence"@,
            Json::Array(lane.platform_evidence),
        ),
    )
}

/// The name of a mode.
pub open spec fn mode_name(mode: FailureMode) -> Seq<char> {
    match mode {
        FailureMode::AllRequired => "allRequired"@,
        FailureMode::AllowPartial => "allowPartial"@,
    }
}

/// What the digest says of a policy.
pub open spec fn policy_model(policy: FailurePolicy) -> Json {
    let base = Map::<Seq<char>, Json>::empty().insert("mode"@, Json::Text(mode_name(policy.mode)));
    match policy.min_successful {
        Some(minimum) => Json::Object(
            base.insert("minSuccessful"@, Json::Unsigned(minimum as nat)),
        ),
        None => Json::Object(base),
    }
}

/// What the digest is taken of.
pub open spec fn canonical_model(
    matrix_id: Seq<char>,
    base_revision: Seq<char>,
    policy: FailurePolicy,
    lanes: Seq<LaneView>,
) -> Json {
    Json::Object(
        Map::<Seq<char>, Json>::empty().insert(
            "protocolVersion"@,
            Json::Text(RESULT_PROTOCOL_VERSION@),
        ).insert("matrixId"@, Json::Text(matrix_id)).insert(
            "baseRevision"@,
            Json::Text(base_revision),
        ).insert("failurePolicy"@, policy_model(policy)).insert(
            "lanes"@,
            Json::Array(lanes.map_values(|lane: LaneView| evidence_of(lane))),
        ),
    )
}

/// The sum of a matrix.
pub open spec fn aggregate_of(
    matrix_id: Seq<char>,
    base_revision: Seq<char>,
    policy: FailurePolicy,
    lanes: Seq<LaneView>,
) -> MatrixView {
    let sorted = sorted_by_key(lanes);
    let counts = counts_of(sorted);
    let minimum = minimum_of(policy, counts.total);
    MatrixView {
        protocol_version: RESULT_PROTOCOL_VERSION@,
        matrix_id,
        base_revision,
        state: state_of(counts, minimum),
        failure_policy: policy,
        lanes: sorted,
        counts,
        partial: is_partial(counts, minimum),
        aggregate_digest: text_digest_of(
            json_encoding(canonical_model(matrix_id, base_revision, policy, sorted)),
        ),
    }
}

/// The sum of a matrix does not depend on the order in which its lanes are named, where
/// their axes differ.
pub proof fn aggregate_ignores_order(
    matrix_id: Seq<char>,
    base_revision: Seq<char>,
    policy: FailurePolicy,
    a: Seq<LaneView>,
    b: Seq<LaneView>,
)
    requires
        a.to_multiset() == b.to_multiset(),
        keys_differ(a),
    ensures
        aggregate_of(matrix_id, base_revision, policy, a) == aggregate_of(
            matrix_id,
            base_revision,
            policy,
            b,
        ),
{
    sorting_ignores_order(a, b);
}

/// Every lane is counted once, as under way, as failed or as succeeded; one in conflict
/// counts as succeeded.
pub proof fn lanes_are_counted_once(lanes: Seq<LaneView>)
    requires
        lanes.len() <= usize::MAX,
    ensures
        counts_of(lanes).total == lanes.len(),
        counts_of(lanes).pending + counts_of(lanes).failed + counts_of(lanes).succeeded
            == lanes.len(),
        counts_of(lanes).conflicted <= counts_of(lanes).succeeded,
{
    count_bounds(lanes);
}

proof fn count_bounds(lanes: Seq<LaneView>)
    ensures
        count_lanes(lanes, |state: Seq<char>| is_pending(state)) + count_lanes(
            lanes,
            |state: Seq<char>| is_failed(state),
        ) + count_lanes(lanes, |state: Seq<char>| state == "conflicted"@) <= lanes.len(),
    decreases lanes.len(),
{
    if lanes.len() > 0 {
        count_bounds(lanes.drop_last());
        lane_kinds_are_apart(lanes.last().state);
    }
}

/// A matrix is partial only once no lane is under way, and that is when its state says so.
pub proof fn partial_comes_last(counts: MatrixCounts, minimum: usize)
    ensures
        is_partial(counts, minimum) ==> counts.pending == 0,
        is_partial(counts, minimum) <==> state_of(counts, minimum) == "ready_partial"@,
        counts.pending > 0 ==> state_of(counts, minimum) == "pending"@,
{
    reveal_strlit("pending");
    reveal_strlit("failed");
    reveal_strlit("ready_partial");
    reveal_strlit("ready");
    assert("pending"@[0] == 'p');
    assert("failed"@[0] == 'f');
    assert("ready_partial"@[0] == 'r' && "ready_partial"@.len() == 13);
    assert("ready"@.len() == 5);
}

fn lane_evidence(lane: &MatrixLaneStatus) -> (value: Value)
    ensures
        json_model(value) == evidence_of(lane@),
{
    let preview = match &lane.preview {
        Some(inner) => inner.clone(),
        None => null_value(),
    };
    let failure = match &lane.failure {
        Some(inner) => inner.clone(),
        None => null_value(),
    };
    let value = empty_object();
    let value = with_field(value, "axisKey", text_value(lane.axis_key.as_str()));
    let value = with_field(value, "delegationId", text_value(lane.delegation_id.as_str()));
    let value = with_field(value, "childId", text_value(lane.child_id.as_str()));
    let value = with_field(value, "jobId", text_value(lane.job_id.as_str()));
    let value = with_field(value, "state", text_value(lane.state.as_str()));
    let value = with_field(value, "nodeId", optional_text_value(&lane.node_id));
    let value = with_field(value, "preview", preview);
    let value = with_field(value, "failure", failure);
    let value = with_field(value, "resultDigest", optional_text_value(&lane.result_digest));
    with_field(value, "platformEvidence", array_value(copy_values(&lane.platform_evidence)))
}

fn copy_values(values: &Vec<Value>) -> (copy: Vec<Value>)
    ensures
        json_models(copy@) == json_models(values@),
{
    let mut copy: Vec<Value> = Vec::new();
    let mut i: usize = 0;
    while i < values.len()
        invariant
            i <= values@.len(),
            copy@.len() == i,
            forall|k: int|
                0 <= k < i ==> json_model(#[trigger] copy@[k]) == json_model(values@[k]),
        decreases values@.len() - i,
    {
        copy.push(values[i].clone());
        i += 1;
    }
    assert(json_models(copy@) =~= json_models(values@));
    copy
}

fn policy_value(policy: &FailurePolicy) -> (value: Value)
    ensures
        json_model(value) == policy_model(*policy),
{
    let mode = match policy.mode {
        FailureMode::AllRequired => "allRequired",
        FailureMode::AllowPartial => "allowPartial",
    };
    let value = with_field(empty_object(), "mode", text_value(mode));
    match policy.min_successful {
        Some(minimum) => with_field(value, "minSuccessful", unsigned_value(minimum as u64)),
        None => value,
    }
}

fn all_evidence(lanes: &Vec<MatrixLaneStatus>) -> (value: Value)
    ensures
        json_model(value) == Json::Array(
            lane_views(lanes@).map_values(|lane: LaneView| evidence_of(lane)),
        ),
{
    let mut items: Vec<Value> = Vec::new();
    let mut i: usize = 0;
    while i < lanes.len()
        invariant
            i <= lanes@.len(),
            items@.len() == i,
            forall|k: int|
                0 <= k < i ==> json_model(#[trigger] items@[k]) == evidence_of(lanes@[k]@),
        decreases lanes@.len() - i,
    {
        items.push(lane_evidence(&lanes[i]));
        i += 1;
    }
    assert(json_models(items@) =~= lane_views(lanes@).map_values(
        |lane: LaneView| evidence_of(lane),
    ));
    array_value(items)
}

fn count_all(lanes: &Vec<MatrixLaneStatus>) -> (counts: MatrixCounts)
    ensures
        counts == counts_of(lane_views(lanes@)),
{
    let ghost seen = lane_views(lanes@);
    let mut pending: usize = 0;
    let mut failed: usize = 0;
    let mut conflicted: usize = 0;
    let mut i: usize = 0;
    assert(seen.take(0) =~= seq![]);
    while i < lanes.len()
        invariant
            i <= lanes@.len(),
            seen == lane_views(lanes@),
            pending == count_lanes(seen.take(i as int), |state: Seq<char>| is_pending(state)),
            failed == count_lanes(seen.take(i as int), |state: Seq<char>| is_failed(state)),
            conflicted == count_lanes(
                seen.take(i as int),
                |state: Seq<char>| state == "conflicted"@,
            ),
            pending + failed + conflicted <= i,
        decreases lanes@.len() - i,
    {
        proof {
            assert(seen.take(i as int + 1).drop_last() =~= seen.take(i as int));
            assert(seen.take(i as int + 1).last() == lanes@[i as int]@);
            lane_kinds_are_apart(lanes@[i as int].state@);
        }
        let state = lanes[i].state.as_str();
        if lane_pending(state) {
            pending += 1;
        }
        if lane_failed(state) {
            failed += 1;
        }
        if same_text(state, "conflicted") {
            conflicted += 1;
        }
        i += 1;
    }
    assert(seen.take(i as int) =~= seen);
    MatrixCounts {
        total: lanes.len(),
        succeeded: lanes.len() - pending - failed,
        failed,
        pending,
        conflicted,
    }
}

/// The sum of a matrix: its lanes in the order of their axes, counted and judged by the
/// policy, under a digest of all that is known of them.
pub fn aggregate(
    matrix_id: &str,
    base_revision: &str,
    policy: &FailurePolicy,
    lanes: Vec<MatrixLaneStatus>,
) -> (status: MatrixStatus)
    ensures
        status@ == aggregate_of(matrix_id@, base_revision@, *policy, lane_views(lanes@)),
{
    proof {
        sorting_passes_through_views(lanes@, |lane: MatrixLaneStatus| lane@);
    }
    let lanes = sort_by_key(lanes);
    let counts = count_all(&lanes);
    let minimum: usize = match policy.mode {
        FailureMode::AllRequired => lanes.len(),
        FailureMode::AllowPartial => match policy.min_successful {
            Some(minimum) => minimum,
            None => lanes.len(),
        },
    };
    let state = if counts.pending > 0 {
        "pending"
    } else if counts.succeeded < minimum {
        "failed"
    } else if counts.succeeded < lanes.len() {
        "ready_partial"
    } else {
        "ready"
    };
    let partial = counts.pending == 0 && counts.succeeded >= minimum && counts.succeeded
        < lanes.len();
    let canonical = empty_object();
    let canonical = with_field(canonical, "protocolVersion", text_value(RESULT_PROTOCOL_VERSION));
    let canonical = with_field(canonical, "matrixId", text_value(matrix_id));
    let canonical = with_field(canonical, "baseRevision", text_value(base_revision));
    let canonical = with_field(canonical, "failurePolicy", policy_value(policy));
    let canonical = with_field(canonical, "lanes", all_evidence(&lanes));
    let aggregate_digest = text_digest(json_text(&canonical).as_str());
    MatrixStatus {
        protocol_version: RESULT_PROTOCOL_VERSION.to_owned(),
        matrix_id: matrix_id.to_owned(),
        base_revision: base_revision.to_owned(),
        state: state.to_owned(),
        failure_policy: *policy,
        lanes,
        counts,
        partial,
        aggregate_digest,
    }
}

/// The result that was kept of a lane: its digest, and the platform of each artifact.
#[derive(Debug)]
pub struct LaneResult {
    pub result_digest: String,
    pub platforms: Vec<Value>,
}

/// How a lane stands, by its delegation and the result that was kept of it.
pub fn lane_status(axis_key: String, child: DelegationStatus, result: Option<LaneResult>) -> (lane:
    MatrixLaneStatus)
    ensures
        lane@ == (LaneView {
            axis_key: axis_key@,
            delegation_id: child.delegation_id@,
            child_id: child.child_id@,
            job_id: child.job_id@,
            state: child.state@,
            node_id: optional_view(child.assigned_node_id),
            preview: optional_model(child.preview),
            failure: optional_model(child.failure),
            result_digest: match result {
                Some(kept) => Some(kept.result_digest@),
                None => None,
            },
            platform_evidence: match result {
                Some(kept) => json_models(kept.platforms@),
                None => seq![],
            },
        }),
{
    let (result_digest, platform_evidence) = match result {
        Some(kept) => (Some(kept.result_digest), kept.platforms),
        None => {
            let none: Vec<Value> = Vec::new();
            assert(json_models(none@) =~= seq![]);
            (None, none)
        },
    };
    MatrixLaneStatus {
        axis_key,
        delegation_id: child.delegation_id,
        child_id: child.child_id,
        job_id: child.job_id,
        state: child.state,
        node_id: child.assigned_node_id,
        preview: child.preview,
        failure: child.failure,
        result_digest,
        platform_evidence,
    }
}

/// What was kept of a request for a matrix: its base and its policy.
#[derive(Debug)]
pub struct StoredMatrix {
    pub base_revision: String,
    pub failure_policy: FailurePolicy,
}

/// How a matrix stands, where there is one, by how its lanes stand.
pub fn status(matrix_id: &str, stored: Option<&StoredMatrix>, lanes: Vec<MatrixLaneStatus>) -> (status:
    Result<MatrixStatus, Fault>)
    ensures
        match status {
            Ok(report) => is_id(matrix_id@) && (stored matches Some(kept) && report@
                == aggregate_of(
                matrix_id@,
                kept.base_revision@,
                kept.failure_policy,
                lane_views(lanes@),
            )),
            Err(fault) => if !is_id(matrix_id@) {
                fault@ == plain("matrixId"@ + " is invalid"@)
            } else {
                stored is None && fault@ == caused(
                    "delegation matrix was not found"@,
                    "Query returned no rows"@,
                )
            },
        },
{
    if let Err(fault) = validate_id(matrix_id, "matrixId") {
        return Err(fault);
    }
    match stored {
        None => Err(Fault::caused("delegation matrix was not found", "Query returned no rows")),
        Some(kept) => Ok(
            aggregate(matrix_id, kept.base_revision.as_str(), &kept.failure_policy, lanes),
        ),
    }
}

proof fn kinds_are_filtered(
    lanes: Seq<LaneView>,
    kind: spec_fn(Seq<char>) -> bool,
    holds: spec_fn(LaneView) -> bool,
)
    requires
        forall|lane: LaneView| #[trigger] holds(lane) == kind(lane.state),
    ensures
        count_lanes(lanes, kind) == lanes.filter(holds).len(),
    decreases lanes.len(),
{
    reveal(Seq::filter);
    if lanes.len() > 0 {
        kinds_are_filtered(lanes.drop_last(), kind, holds);
        assert(holds(lanes.last()) == kind(lanes.last().state));
    }
}

proof fn filtering_ignores_order(lanes: Seq<LaneView>, holds: spec_fn(LaneView) -> bool)
    ensures
        lanes.filter(holds).len() == lanes.to_multiset().filter(holds).len(),
    decreases lanes.len(),
{
    broadcast use vstd::seq_lib::group_to_multiset_ensures;
    broadcast use vstd::multiset::group_multiset_axioms;

    reveal(Seq::filter);
    if lanes.len() > 0 {
        let rest = lanes.drop_last();
        let last = lanes.last();
        filtering_ignores_order(rest, holds);
        assert(lanes =~= rest.push(last));
        assert(lanes.to_multiset() =~= rest.to_multiset().insert(last));
        if holds(last) {
            assert(lanes.to_multiset().filter(holds) =~= rest.to_multiset().filter(holds).insert(
                last,
            ));
        } else {
            assert(lanes.to_multiset().filter(holds) =~= rest.to_multiset().filter(holds));
        }
    } else {
        assert(lanes.to_multiset() =~= Multiset::empty());
        assert(lanes.to_multiset().filter(holds) =~= Multiset::empty());
    }
}

proof fn filters_complement(lanes: Seq<LaneView>, a: spec_fn(LaneView) -> bool, b: spec_fn(LaneView) -> bool, c: spec_fn(LaneView) -> bool)
    requires
        forall|lane: LaneView|
            #![trigger a(lane)]
            #![trigger b(lane)]
            #![trigger c(lane)]
            !(a(lane) && b(lane)) && c(lane) == (!a(lane) && !b(lane)),
    ensures
        lanes.filter(a).len() + lanes.filter(b).len() + lanes.filter(c).len() == lanes.len(),
    decreases lanes.len(),
{
    reveal(Seq::filter);
    if lanes.len() > 0 {
        filters_complement(lanes.drop_last(), a, b, c);
        let lane = lanes.last();
        assert(c(lane) == (!a(lane) && !b(lane)));
    }
}

proof fn filters_find(lanes: Seq<LaneView>, holds: spec_fn(LaneView) -> bool)
    ensures
        lanes.filter(holds).len() > 0 <==> exists|i: int|
            0 <= i < lanes.len() && holds(#[trigger] lanes[i]),
    decreases lanes.len(),
{
    reveal(Seq::filter);
    if lanes.len() > 0 {
        let rest = lanes.drop_last();
        filters_find(rest, holds);
        if holds(lanes.last()) {
            assert(holds(lanes[lanes.len() - 1]));
        } else if exists|i: int| 0 <= i < lanes.len() && holds(#[trigger] lanes[i]) {
            let i = choose|i: int| 0 <= i < lanes.len() && holds(#[trigger] lanes[i]);
            assert(holds(rest[i]));
        }
        if rest.filter(holds).len() > 0 {
            let i = choose|i: int| 0 <= i < rest.len() && holds(#[trigger] rest[i]);
            assert(holds(lanes[i]));
        }
    }
}

/// What a matrix comes to, lane by lane: it is pending while a lane is under way; then it has
/// failed where fewer lanes succeeded than its policy asks for, is ready where all of them
/// did, and is ready in part otherwise. All lanes are asked for unless the policy allows a
/// part and says how many. A lane has succeeded when it is neither under way nor failed.
pub proof fn policies_judge_matrices(
    matrix_id: Seq<char>,
    base_revision: Seq<char>,
    policy: FailurePolicy,
    lanes: Seq<LaneView>,
)
    requires
        lanes.len() <= usize::MAX,
    ensures
        ({
            let sum = aggregate_of(matrix_id, base_revision, policy, lanes);
            let under_way = |lane: LaneView|
                lane.state == "queued"@ || lane.state == "cancel_requested"@ || lane.state
                    == "applying"@ || lane.state == "cleanup_queued"@ || lane.state
                    == "cancel_cleanup_queued"@ || lane.state == "failure_cleanup_queued"@;
            let lost = |lane: LaneView|
                lane.state == "failed"@ || lane.state == "cancelled"@ || lane.state
                    == "recovery_conflict"@;
            let won = |lane: LaneView| !under_way(lane) && !lost(lane);
            let waiting = exists|i: int| 0 <= i < lanes.len() && under_way(#[trigger] lanes[i]);
            let successes = lanes.filter(won).len();
            &&& sum.counts.total == lanes.len()
            &&& sum.counts.pending == lanes.filter(under_way).len()
            &&& sum.counts.failed == lanes.filter(lost).len()
            &&& sum.counts.succeeded == successes
            &&& sum.counts.conflicted == lanes.filter(
                |lane: LaneView| lane.state == "conflicted"@,
            ).len()
            &&& waiting ==> sum.state == "pending"@ && !sum.partial
            &&& !waiting && policy.mode == FailureMode::AllRequired ==> !sum.partial && sum.state
                == (if successes == lanes.len() {
                "ready"@
            } else {
                "failed"@
            })
            &&& !waiting && policy.mode == FailureMode::AllowPartial && policy.min_successful
                is None ==> !sum.partial && sum.state == (if successes == lanes.len() {
                "ready"@
            } else {
                "failed"@
            })
            &&& !waiting && policy.mode == FailureMode::AllowPartial ==> (
            policy.min_successful matches Some(needed) ==> {
                &&& sum.state == "failed"@ <==> successes < needed
                &&& sum.state == "ready"@ <==> successes >= needed && successes == lanes.len()
                &&& sum.state == "ready_partial"@ <==> needed <= successes < lanes.len()
                &&& sum.partial <==> needed <= successes < lanes.len()
            })
        }),
{
    let sum = aggregate_of(matrix_id, base_revision, policy, lanes);
    let sorted = sorted_by_key(lanes);
    let under_way = |lane: LaneView|
        lane.state == "queued"@ || lane.state == "cancel_requested"@ || lane.state == "applying"@
            || lane.state == "cleanup_queued"@ || lane.state == "cancel_cleanup_queued"@
            || lane.state == "failure_cleanup_queued"@;
    let lost = |lane: LaneView|
        lane.state == "failed"@ || lane.state == "cancelled"@ || lane.state
            == "recovery_conflict"@;
    let won = |lane: LaneView| !under_way(lane) && !lost(lane);
    let clashed = |lane: LaneView| lane.state == "conflicted"@;
    sorted_by_key_is_sorted(lanes);
    kinds_are_filtered(sorted, |state: Seq<char>| is_pending(state), under_way);
    kinds_are_filtered(sorted, |state: Seq<char>| is_failed(state), lost);
    kinds_are_filtered(sorted, |state: Seq<char>| state == "conflicted"@, clashed);
    filtering_ignores_order(sorted, under_way);
    filtering_ignores_order(sorted, lost);
    filtering_ignores_order(sorted, clashed);
    filtering_ignores_order(lanes, under_way);
    filtering_ignores_order(lanes, lost);
    filtering_ignores_order(lanes, clashed);
    assert forall|lane: LaneView|
        #![trigger under_way(lane)]
        #![trigger lost(lane)]
        #![trigger won(lane)]
        !(under_way(lane) && lost(lane)) && won(lane) == (!under_way(lane) && !lost(lane)) by {
        lane_kinds_are_apart(lane.state);
    }
    filters_complement(lanes, under_way, lost, won);
    filters_find(lanes, under_way);
    count_bounds(sorted);
    reveal_strlit("pending");
    reveal_strlit("failed");
    reveal_strlit("ready_partial");
    reveal_strlit("ready");
    assert("pending"@.len() == 7);
    assert("failed"@.len() == 6);
    assert("ready_partial"@.len() == 13);
    assert("ready"@.len() == 5);
}

/// A matrix is reported under its own names and its own policy, with every lane that it was
/// given and no other, in the order of their axes.
pub proof fn matrices_keep_their_lanes(
    matrix_id: Seq<char>,
    base_revision: Seq<char>,
    policy: FailurePolicy,
    lanes: Seq<LaneView>,
)
    ensures
        ({
            let sum = aggregate_of(matrix_id, base_revision, policy, lanes);
            &&& sum.protocol_version == "coven.delegation-matrix-result.v1"@
            &&& sum.matrix_id == matrix_id
            &&& sum.base_revision == base_revision
            &&& sum.failure_policy == policy
            &&& sum.lanes.to_multiset() == lanes.to_multiset()
            &&& forall|i: int, j: int|
                0 <= i < j < sum.lanes.len() ==> !precedes(
                    (#[trigger] sum.lanes[j]).axis_key,
                    (#[trigger] sum.lanes[i]).axis_key,
                )
        }),
{
    let sum = aggregate_of(matrix_id, base_revision, policy, lanes);
    sorted_by_key_is_sorted(lanes);
    assert forall|i: int, j: int| 0 <= i < j < sum.lanes.len() implies !precedes(
        (#[trigger] sum.lanes[j]).axis_key,
        (#[trigger] sum.lanes[i]).axis_key,
    ) by {
        assert(!precedes(sum.lanes[j].key(), sum.lanes[i].key()));
    }
}

/// The digest of a matrix is taken of the JSON text of its protocol, its names, its policy
/// and its lanes in the order in which they are reported; nothing of a lane is left out.
pub proof fn digests_cover_matrices(
    matrix_id: Seq<char>,
    base_revision: Seq<char>,
    policy: FailurePolicy,
    lanes: Seq<LaneView>,
    i: int,
)
    ensures
        ({
            let sum = aggregate_of(matrix_id, base_revision, policy, lanes);
            exists|whole: Json|
                {
                    &&& sum.aggregate_digest == base64_url(
                        sha256(encode_utf8(#[trigger] json_encoding(whole))),
                    )
                    &&& field_of(whole, "protocolVersion"@) == Some(
                        Json::Text("coven.delegation-matrix-result.v1"@),
                    )
                    &&& field_of(whole, "matrixId"@) == Some(Json::Text(matrix_id))
                    &&& field_of(whole, "baseRevision"@) == Some(Json::Text(base_revision))
                    &&& field_of(whole, "failurePolicy"@) matches Some(judge) && field_of(
                        judge,
                        "mode"@,
                    ) == Some(
                        Json::Text(
                            if policy.mode == FailureMode::AllRequired {
                                "allRequired"@
                            } else {
                                "allowPartial"@
                            },
                        ),
                    ) && field_of(judge, "minSuccessful"@) == (match policy.min_successful {
                        Some(needed) => Some(Json::Unsigned(needed as nat)),
                        None => None,
                    })
                    &&& field_of(whole, "lanes"@) matches Some(Json::Array(covered))
                        && covered.len() == sum.lanes.len() && (0 <= i < covered.len() ==> {
                            &&& field_of(covered[i], "axisKey"@) == Some(Json::Text(sum.lanes[i].axis_key))
                            &&& field_of(covered[i], "delegationId"@) == Some(Json::Text(sum.lanes[i].delegation_id))
                            &&& field_of(covered[i], "childId"@) == Some(Json::Text(sum.lanes[i].child_id))
                            &&& field_of(covered[i], "jobId"@) == Some(Json::Text(sum.lanes[i].job_id))
                            &&& field_of(covered[i], "state"@) == Some(Json::Text(sum.lanes[i].state))
                            &&& sum.lanes[i].node_id matches Some(node) ==> field_of(covered[i], "nodeId"@) == Some(Json::Text(node))
                            &&& sum.lanes[i].node_id is None ==> field_of(covered[i], "nodeId"@) == Some(Json::Null)
                            &&& sum.lanes[i].preview is Some ==> field_of(covered[i], "preview"@) == sum.lanes[i].preview
                            &&& sum.lanes[i].preview is None ==> field_of(covered[i], "preview"@) == Some(Json::Null)
                            &&& sum.lanes[i].failure is Some ==> field_of(covered[i], "failure"@) == sum.lanes[i].failure
                            &&& sum.lanes[i].failure is None ==> field_of(covered[i], "failure"@) == Some(Json::Null)
                            &&& sum.lanes[i].result_digest matches Some(digest) ==> field_of(covered[i], "resultDigest"@) == Some(
                                Json::Text(digest),
                            )
                            &&& sum.lanes[i].result_digest is None ==> field_of(covered[i], "resultDigest"@) == Some(Json::Null)
                            &&& field_of(covered[i], "platformEvidence"@) == Some(Json::Array(sum.lanes[i].platform_evidence))
                    })
                }
        }),
{
    let sum = aggregate_of(matrix_id, base_revision, policy, lanes);
    let whole = canonical_model(matrix_id, base_revision, policy, sum.lanes);
    let covered = sum.lanes.map_values(|lane: LaneView| evidence_of(lane));
    assert(sum.aggregate_digest == base64_url(sha256(encode_utf8(json_encoding(whole)))));
    reveal_strlit("protocolVersion");
    reveal_strlit("matrixId");
    reveal_strlit("baseRevision");
    reveal_strlit("failurePolicy");
    reveal_strlit("lanes");
    reveal_strlit("mode");
    reveal_strlit("minSuccessful");
    assert("protocolVersion"@.len() == 15);
    assert("matrixId"@.len() == 8);
    assert("baseRevision"@.len() == 12);
    assert("failurePolicy"@.len() == 13);
    assert("lanes"@.len() == 5);
    assert("mode"@.len() == 4);
    assert("minSuccessful"@.len() == 13);
    assert("failurePolicy"@[0] == 'f');
    assert("minSuccessful"@[0] == 'm');
    if 0 <= i < covered.len() {
        evidence_covers(sum.lanes[i]);
        assert(is_covered(sum.lanes[i], covered[i]));
    }
    assert(field_of(whole, "lanes"@) == Some(Json::Array(covered)));
    assert(field_of(whole, "failurePolicy"@) == Some(policy_model(policy)));
}

/// Whether a value tells all that is known of a lane, each thing under its own name, with
/// null for what is not known.
spec fn is_covered(lane: LaneView, told: Json) -> bool {
    &&& field_of(told, "axisKey"@) == Some(Json::Text(lane.axis_key))
    &&& field_of(told, "delegationId"@) == Some(Json::Text(lane.delegation_id))
    &&& field_of(told, "childId"@) == Some(Json::Text(lane.child_id))
    &&& field_of(told, "jobId"@) == Some(Json::Text(lane.job_id))
    &&& field_of(told, "state"@) == Some(Json::Text(lane.state))
    &&& lane.node_id matches Some(node) ==> field_of(told, "nodeId"@) == Some(Json::Text(node))
    &&& lane.node_id is None ==> field_of(told, "nodeId"@) == Some(Json::Null)
    &&& lane.preview is Some ==> field_of(told, "preview"@) == lane.preview
    &&& lane.preview is None ==> field_of(told, "preview"@) == Some(Json::Null)
    &&& lane.failure is Some ==> field_of(told, "failure"@) == lane.failure
    &&& lane.failure is None ==> field_of(told, "failure"@) == Some(Json::Null)
    &&& lane.result_digest matches Some(digest) ==> field_of(told, "resultDigest"@) == Some(
        Json::Text(digest),
    )
    &&& lane.result_digest is None ==> field_of(told, "resultDigest"@) == Some(Json::Null)
    &&& field_of(told, "platformEvidence"@) == Some(Json::Array(lane.platform_evidence))
}

proof fn evidence_covers(lane: LaneView)
    ensures
        is_covered(lane, evidence_of(lane)),
{
    reveal_strlit("axisKey");
    reveal_strlit("delegationId");
    reveal_strlit("childId");
    reveal_strlit("jobId");
    reveal_strlit("state");
    reveal_strlit("nodeId");
    reveal_strlit("preview");
    reveal_strlit("failure");
    reveal_strlit("resultDigest");
    reveal_strlit("platformEvidence");
    assert("axisKey"@.len() == 7);
    assert("delegationId"@.len() == 12);
    assert("childId"@.len() == 7);
    assert("jobId"@.len() == 5);
    assert("state"@.len() == 5);
    assert("nodeId"@.len() == 6);
    assert("preview"@.len() == 7);
    assert("failure"@.len() == 7);
    assert("resultDigest"@.len() == 12);
    assert("platformEvidence"@.len() == 16);
    assert("axisKey"@[0] == 'a');
    assert("delegationId"@[0] == 'd');
    assert("childId"@[0] == 'c');
    assert("jobId"@[0] == 'j');
    assert("state"@[0] == 's');
    assert("preview"@[0] == 'p');
    assert("failure"@[0] == 'f');
    assert("resultDigest"@[0] == 'r');
}

/// The sum of a matrix that may come to a part: it has failed if and only if no lane is under
/// way and fewer succeeded than its policy asks for.
pub proof fn too_few_successes_fail_a_matrix(
    matrix_id: &str,
    base_revision: &str,
    policy: &FailurePolicy,
    lanes: Vec<MatrixLaneStatus>,
    sum: MatrixStatus,
    needed: usize,
)
    requires
        call_ensures(aggregate, (matrix_id, base_revision, policy, lanes), sum),
        policy.mode == FailureMode::AllowPartial,
        policy.min_successful == Some(needed),
        lanes@.len() <= usize::MAX,
    ensures
        sum.counts.total == lanes@.len(),
        sum.counts.succeeded + sum.counts.failed + sum.counts.pending == lanes@.len(),
        sum.state@ == "pending"@ <==> sum.counts.pending > 0,
        sum.state@ == "failed"@ <==> sum.counts.pending == 0 && sum.counts.succeeded < needed,
        sum.state@ == "ready"@ <==> sum.counts.pending == 0 && sum.counts.succeeded >= needed
            && sum.counts.succeeded == lanes@.len(),
        sum.partial <==> sum.counts.pending == 0 && needed <= sum.counts.succeeded < lanes@.len(),
        sum.matrix_id@ == matrix_id@,
        sum.base_revision@ == base_revision@,
        sum.failure_policy == *policy,
        sum.lanes@.len() == lanes@.len(),
{
    let views = lane_views(lanes@);
    policies_judge_matrices(matrix_id@, base_revision@, *policy, views);
    sorted_by_key_is_sorted(views);
    count_bounds(sorted_by_key(views));
    assert(sum@.lanes.len() == sum.lanes@.len());
    reveal_strlit("pending");
    reveal_strlit("failed");
    reveal_strlit("ready_partial");
    reveal_strlit("ready");
    assert("pending"@.len() == 7);
    assert("failed"@.len() == 6);
    assert("ready_partial"@.len() == 13);
    assert("ready"@.len() == 5);
}

/// A lane stands as its delegation does, with the digest and the platforms of the result that
/// was kept of it.
pub proof fn lanes_stand_as_their_delegations(
    axis_key: String,
    child: DelegationStatus,
    result: Option<LaneResult>,
    lane: MatrixLaneStatus,
)
    requires
        call_ensures(lane_status, (axis_key, child, result), lane),
    ensures
        lane.axis_key@ == axis_key@,
        lane.delegation_id@ == child.delegation_id@,
        lane.child_id@ == child.child_id@,
        lane.job_id@ == child.job_id@,
        lane.state@ == child.state@,
        lane@.node_id == optional_view(child.assigned_node_id),
        lane@.preview == optional_model(child.preview),
        lane@.failure == optional_model(child.failure),
        result matches Some(kept) ==> lane@.result_digest == Some(kept.result_digest@)
            && lane@.platform_evidence == json_models(kept.platforms@),
        result is None ==> lane@.result_digest is None && lane@.platform_evidence.len() == 0,
{
    assert(lane@.axis_key == axis_key@);
}

/// A matrix is reported by its own base and policy; one that is not there, or whose name is
/// none, is told so.
pub proof fn matrices_are_reported(
    matrix_id: &str,
    stored: Option<&StoredMatrix>,
    lanes: Vec<MatrixLaneStatus>,
    report: Result<MatrixStatus, Fault>,
)
    requires
        call_ensures(status, (matrix_id, stored, lanes), report),
    ensures
        report is Ok <==> is_id(matrix_id@) && stored is Some,
        report matches Ok(sum) ==> sum@ == aggregate_of(
            matrix_id@,
            stored->0.base_revision@,
            stored->0.failure_policy,
            lane_views(lanes@),
        ),
        report matches Err(fault) ==> fault@ == if !is_id(matrix_id@) {
            plain("matrixId is invalid"@)
        } else {
            caused("delegation matrix was not found"@, "Query returned no rows"@)
        },
{
    reveal_strlit("matrixId");
    reveal_strlit(" is invalid");
    reveal_strlit("matrixId is invalid");
    assert("matrixId"@ + " is invalid"@ =~= "matrixId is invalid"@);
}

/// A lane, and a matrix, show each thing that they hold under its own name.
pub proof fn lanes_show_what_they_hold(lane: MatrixLaneStatus, sum: MatrixStatus, i: int)
    ensures
        lane@.axis_key == lane.axis_key@,
        lane@.delegation_id == lane.delegation_id@,
        lane@.child_id == lane.child_id@,
        lane@.job_id == lane.job_id@,
        lane@.state == lane.state@,
        lane.node_id matches Some(node) ==> lane@.node_id == Some(node@),
        lane.node_id is None ==> lane@.node_id is None,
        lane.preview matches Some(value) ==> lane@.preview == Some(json_model(value)),
        lane.failure matches Some(value) ==> lane@.failure == Some(json_model(value)),
        lane.result_digest matches Some(digest) ==> lane@.result_digest == Some(digest@),
        lane@.platform_evidence == json_models(lane.platform_evidence@),
        sum@.matrix_id == sum.matrix_id@,
        sum@.base_revision == sum.base_revision@,
        sum@.protocol_version == sum.protocol_version@,
        sum@.state == sum.state@,
        sum@.failure_policy == sum.failure_policy,
        sum@.counts == sum.counts,
        sum@.partial == sum.partial,
        sum@.aggregate_digest == sum.aggregate_digest@,
        sum@.lanes.len() == sum.lanes@.len(),
        0 <= i < sum.lanes@.len() ==> sum@.lanes[i] == sum.lanes@[i]@,
{
}

} // verus!
