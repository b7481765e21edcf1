//! Delegation: a parent hands a task to a child on another node, collects its result,
//! integrates it and has the child's resources released.

use crate::digest::{sha256, stable_id, stable_id_of};
use crate::fault::{optional_view, plain, Fault, FaultView};
use crate::ids::{commit_is_valid, id_is_valid, is_commit, is_id};
use crate::json::{
    empty_object, field_of, json_model, text_value, unsigned_value, with_field, Json,
};
use crate::numbers::hex;
use crate::order::{is_sorted_set_of, precedes, sorted_set};
use crate::http::{text_from_utf8, utf8_complaint};
use crate::live_events::{lossy_text, utf8_lossy};
use crate::text::{byte_len, is_blank, joined, same_text, trim_text, trimmed, views};
use serde_json::Value;
use vstd::prelude::*;
use vstd::string::*;
use vstd::utf8::{encode_utf8, valid_utf8};

verus! {

/// The protocol of a delegation.
pub const PROTOCOL_VERSION: &'static str = "coven.delegation.v1";

/// The protocol of releasing a child's resources.
pub const CLEANUP_PROTOCOL_VERSION: &'static str = "coven.delegation-cleanup.v1";

/// The most bytes of a task.
pub const MAX_TASK_BYTES: usize = 262_144;

/// The most requirements, and the most preferences, of a task.
pub const MAX_PLACEMENT_INPUTS: usize = 128;

/// What a parent asks for.
#[derive(Debug)]
pub struct DelegationRequest {
    pub protocol_version: String,
    pub delegation_id: Option<String>,
    pub parent_session_id: Option<String>,
    pub parent_repo: String,
    pub base_revision: String,
    pub task: String,
    pub workspace_driver: String,
    pub base_checkpoint: Value,
    pub result_locator: Value,
    pub requirements: Vec<String>,
    pub preferences: Vec<String>,
    pub harness: String,
}

/// The harness that is used where none is named.
pub fn default_harness() -> (harness: String)
    ensures
        harness@ == "fake"@,
{
    "fake".to_owned()
}

/// What is wrong with a request, the first thing first.
pub open spec fn request_fault(request: DelegationRequest) -> Option<FaultView> {
    if request.protocol_version@ != PROTOCOL_VERSION@ {
        Some(plain("unsupported delegation protocol"@))
    } else if trimmed(request.task@).len() == 0 || encode_utf8(request.task@).len()
        > MAX_TASK_BYTES {
        Some(plain("delegation task is invalid"@))
    } else if !is_commit(request.base_revision@) {
        Some(plain("baseRevision must be a full SHA-1 commit OID"@))
    } else if request.requirements@.len() > MAX_PLACEMENT_INPUTS || request.preferences@.len()
        > MAX_PLACEMENT_INPUTS {
        Some(plain("placement input exceeds limits"@))
    } else if request.harness@ != "fake"@ {
        Some(plain("only the deterministic fake harness is enabled"@))
    } else if request.workspace_driver@ != "filesystem"@ && request.workspace_driver@
        != "s3-checkpoint"@ {
        Some(plain("unsupported workspace driver"@))
    } else {
        None
    }
}

/// Refuses a request that cannot be served.
pub fn validate_request(request: &DelegationRequest) -> (checked: Result<(), Fault>)
    ensures
        match checked {
            Ok(()) => request_fault(*request) is None,
            Err(fault) => request_fault(*request) == Some(fault@),
        },
{
    if !same_text(request.protocol_version.as_str(), PROTOCOL_VERSION) {
        return Err(Fault::plain("unsupported delegation protocol"));
    }
    if is_blank(request.task.as_str()) || byte_len(request.task.as_str()) > MAX_TASK_BYTES {
        return Err(Fault::plain("delegation task is invalid"));
    }
    if !commit_is_valid(request.base_revision.as_str()) {
        return Err(Fault::plain("baseRevision must be a full SHA-1 commit OID"));
    }
    if request.requirements.len() > MAX_PLACEMENT_INPUTS || request.preferences.len()
        > MAX_PLACEMENT_INPUTS {
        return Err(Fault::plain("placement input exceeds limits"));
    }
    if !same_text(request.harness.as_str(), "fake") {
        return Err(Fault::plain("only the deterministic fake harness is enabled"));
    }
    if !same_text(request.workspace_driver.as_str(), "filesystem") && !same_text(
        request.workspace_driver.as_str(),
        "s3-checkpoint",
    ) {
        return Err(Fault::plain("unsupported workspace driver"));
    }
    Ok(())
}

/// Refuses a text that is no identifier.
pub fn validate_id(value: &str, field_name: &str) -> (checked: Result<(), Fault>)
    ensures
        match checked {
            Ok(()) => is_id(value@),
            Err(fault) => !is_id(value@) && fault@ == plain(
                field_name@ + " has an invalid format"@,
            ),
        },
{
    if id_is_valid(value) {
        Ok(())
    } else {
        Err(Fault::plain(joined(field_name, " has an invalid format").as_str()))
    }
}

/// The identifier of a delegation: the one asked for, or a fresh one.
pub open spec fn chosen_id(asked: Option<Seq<char>>, fresh: Seq<char>) -> Seq<char> {
    match asked {
        Some(id) => id,
        None => "dlg_"@ + fresh,
    }
}

/// Why a delegation cannot begin, given the head of the parent's repository and the list of
/// its uncommitted changes.
pub open spec fn start_fault(
    request: DelegationRequest,
    head: Result<String, Fault>,
    changes: Result<String, Fault>,
    fresh: Seq<char>,
) -> Option<FaultView> {
    if request_fault(request) is Some {
        request_fault(request)
    } else {
        match head {
            Err(fault) => Some(fault@),
            Ok(revision) => if revision@ != request.base_revision@ {
                Some(plain("parent HEAD does not match baseRevision"@))
            } else {
                match changes {
                    Err(fault) => Some(fault@),
                    Ok(list) => if list@.len() > 0 {
                        Some(plain("parent workspace must be clean when delegation starts"@))
                    } else if !is_id(chosen_id(optional_view(request.delegation_id), fresh)) {
                        Some(plain("delegationId"@ + " has an invalid format"@))
                    } else {
                        None
                    },
                }
            },
        }
    }
}

/// A delegation that can begin: its identifiers, and the job that is submitted for it.
#[derive(Debug)]
pub struct DelegationStart {
    pub delegation_id: String,
    pub child_id: String,
    pub job_id: String,
    pub payload: Value,
    pub required: Vec<String>,
}

/// What the job of a delegation is told.
pub open spec fn payload_model(
    request: DelegationRequest,
    delegation_id: Seq<char>,
    child_id: Seq<char>,
) -> Json {
    let base = Map::<Seq<char>, Json>::empty().insert(
        "protocolVersion"@,
        Json::Text(PROTOCOL_VERSION@),
    ).insert("delegationId"@, Json::Text(delegation_id)).insert("childId"@, Json::Text(child_id));
    let task = base.insert("baseRevision"@, Json::Text(request.base_revision@)).insert(
        "task"@,
        Json::Text(request.task@),
    ).insert("harness"@, Json::Text(request.harness@));
    let actor = task.insert("actorId"@, Json::Text("actor_"@ + child_id)).insert(
        "generation"@,
        Json::Unsigned(1),
    );
    Json::Object(
        actor.insert("workspaceDriver"@, Json::Text(request.workspace_driver@)).insert(
            "baseCheckpoint"@,
            json_model(request.base_checkpoint),
        ).insert("resultLocator"@, json_model(request.result_locator)),
    )
}

/// What a node must offer to take a delegation.
pub open spec fn required_of(requirements: Seq<Seq<char>>, harness: Seq<char>) -> Seq<Seq<char>> {
    requirements.push("protocol:workspace-driver:1"@).push("protocol:harness-host:1"@).push(
        "runtime:"@ + harness,
    )
}

/// Whether a start is the one that a request asks for under an identifier.
pub open spec fn starts(
    start: DelegationStart,
    request: DelegationRequest,
    delegation_id: Seq<char>,
) -> bool {
    &&& start.delegation_id@ == delegation_id
    &&& start.child_id@ == stable_id_of("child"@, delegation_id)
    &&& start.job_id@ == stable_id_of("delegate"@, delegation_id)
    &&& json_model(start.payload) == payload_model(request, delegation_id, start.child_id@)
    &&& is_sorted_set_of(
        views(start.required@),
        required_of(views(request.requirements@), request.harness@),
    )
}

/// Begins a delegation, given the head of the parent's repository, its uncommitted changes
/// and a fresh name.
pub fn start(
    request: &DelegationRequest,
    head: Result<String, Fault>,
    changes: Result<String, Fault>,
    fresh: &str,
) -> (started: Result<DelegationStart, Fault>)
    ensures
        match started {
            Ok(start) => start_fault(*request, head, changes, fresh@) is None && starts(
                start,
                *request,
                chosen_id(optional_view(request.delegation_id), fresh@),
            ),
            Err(fault) => start_fault(*request, head, changes, fresh@) == Some(fault@),
        },
{
    if let Err(fault) = validate_request(request) {
        return Err(fault);
    }
    match head {
        Err(fault) => {
            return Err(fault);
        },
        Ok(revision) => {
            if !same_text(revision.as_str(), request.base_revision.as_str()) {
                return Err(Fault::plain("parent HEAD does not match baseRevision"));
            }
        },
    }
    match changes {
        Err(fault) => {
            return Err(fault);
        },
        Ok(list) => {
            if !list.as_str().is_empty() {
                return Err(
                    Fault::plain("parent workspace must be clean when delegation starts"),
                );
            }
        },
    }
    let delegation_id = match &request.delegation_id {
        Some(id) => id.clone(),
        None => joined("dlg_", fresh),
    };
    if let Err(fault) = validate_id(delegation_id.as_str(), "delegationId") {
        return Err(fault);
    }
    let child_id = stable_id("child", delegation_id.as_str());
    let job_id = stable_id("delegate", delegation_id.as_str());
    let payload = start_payload(request, delegation_id.as_str(), child_id.as_str());
    let mut required = request.requirements.clone();
    let ghost asked = views(required@);
    required.push("protocol:workspace-driver:1".to_owned());
    required.push("protocol:harness-host:1".to_owned());
    required.push(joined("runtime:", request.harness.as_str()));
    assert(views(required@) =~= required_of(asked, request.harness@));
    Ok(
        DelegationStart {
            delegation_id,
            child_id,
            job_id,
            payload,
            required: sorted_set(required.as_slice()),
        },
    )
}

fn start_payload(request: &DelegationRequest, delegation_id: &str, child_id: &str) -> (payload:
    Value)
    ensures
        json_model(payload) == payload_model(*request, delegation_id@, child_id@),
{
    let payload = empty_object();
    let payload = with_field(payload, "protocolVersion", text_value(PROTOCOL_VERSION));
    let payload = with_field(payload, "delegationId", text_value(delegation_id));
    let payload = with_field(payload, "childId", text_value(child_id));
    let payload = with_field(
        payload,
        "baseRevision",
        text_value(request.base_revision.as_str()),
    );
    let payload = with_field(payload, "task", text_value(request.task.as_str()));
    let payload = with_field(payload, "harness", text_value(request.harness.as_str()));
    let payload = with_field(
        payload,
        "actorId",
        text_value(joined("actor_", child_id).as_str()),
    );
    let payload = with_field(payload, "generation", unsigned_value(1));
    let payload = with_field(
        payload,
        "workspaceDriver",
        text_value(request.workspace_driver.as_str()),
    );
    let payload = with_field(payload, "baseCheckpoint", request.base_checkpoint.clone());
    with_field(payload, "resultLocator", request.result_locator.clone())
}

/// What was recorded of a delegation when it began.
#[derive(Debug)]
pub struct StoredStart {
    pub child_id: String,
    pub job_id: String,
    pub base_revision: String,
    pub parent_repo: String,
    pub request_json: String,
}

/// Whether what was recorded is what would be recorded now.
pub open spec fn same_start(
    stored: StoredStart,
    start: DelegationStart,
    request: DelegationRequest,
    request_json: Seq<char>,
) -> bool {
    &&& stored.child_id@ == start.child_id@
    &&& stored.job_id@ == start.job_id@
    &&& stored.base_revision@ == request.base_revision@
    &&& stored.parent_repo@ == request.parent_repo@
    &&& stored.request_json@ == request_json
}

/// Lets a delegation begin again only where nothing about it has changed.
pub fn check_replay(
    stored: &StoredStart,
    start: &DelegationStart,
    request: &DelegationRequest,
    request_json: &str,
) -> (checked: Result<(), Fault>)
    ensures
        match checked {
            Ok(()) => same_start(*stored, *start, *request, request_json@),
            Err(fault) => !same_start(*stored, *start, *request, request_json@) && fault@ == plain(
                "delegation id replay changed immutable request fields"@,
            ),
        },
{
    if same_text(stored.child_id.as_str(), start.child_id.as_str()) && same_text(
        stored.job_id.as_str(),
        start.job_id.as_str(),
    ) && same_text(stored.base_revision.as_str(), request.base_revision.as_str()) && same_text(
        stored.parent_repo.as_str(),
        request.parent_repo.as_str(),
    ) && same_text(stored.request_json.as_str(), request_json) {
        Ok(())
    } else {
        Err(Fault::plain("delegation id replay changed immutable request fields"))
    }
}

/// How far a delegation has come.
#[derive(Debug, Clone, Copy, PartialEq, Eq, Structural)]
pub enum DelegationState {
    Queued,
    CancelRequested,
    ReadyToIntegrate,
    Conflicted,
    Applying,
    RecoveryConflict,
    Integrated,
    CleanupQueued,
    CancelCleanupQueued,
    FailureCleanupQueued,
    Finalized,
    Cancelled,
    Failed,
}

impl DelegationState {
    /// The name under which a state is recorded.
    pub open spec fn name_text(self) -> Seq<char> {
        match self {
            DelegationState::Queued => "queued"@,
            DelegationState::CancelRequested => "cancel_requested"@,
            DelegationState::ReadyToIntegrate => "ready_to_integrate"@,
            DelegationState::Conflicted => "conflicted"@,
            DelegationState::Applying => "applying"@,
            DelegationState::RecoveryConflict => "recovery_conflict"@,
            DelegationState::Integrated => "integrated"@,
            DelegationState::CleanupQueued => "cleanup_queued"@,
            DelegationState::CancelCleanupQueued => "cancel_cleanup_queued"@,
            DelegationState::FailureCleanupQueued => "failure_cleanup_queued"@,
            DelegationState::Finalized => "finalized"@,
            DelegationState::Cancelled => "cancelled"@,
            DelegationState::Failed => "failed"@,
        }
    }

    /// The name under which a state is recorded.
    pub fn name(&self) -> (name: String)
        ensures
            name@ == self.name_text(),
    {
        match self {
            DelegationState::Queued => "queued".to_owned(),
            DelegationState::CancelRequested => "cancel_requested".to_owned(),
            DelegationState::ReadyToIntegrate => "ready_to_integrate".to_owned(),
            DelegationState::Conflicted => "conflicted".to_owned(),
            DelegationState::Applying => "applying".to_owned(),
            DelegationState::RecoveryConflict => "recovery_conflict".to_owned(),
            DelegationState::Integrated => "integrated".to_owned(),
            DelegationState::CleanupQueued => "cleanup_queued".to_owned(),
            DelegationState::CancelCleanupQueued => "cancel_cleanup_queued".to_owned(),
            DelegationState::FailureCleanupQueued => "failure_cleanup_queued".to_owned(),
            DelegationState::Finalized => "finalized".to_owned(),
            DelegationState::Cancelled => "cancelled".to_owned(),
            DelegationState::Failed => "failed".to_owned(),
        }
    }

    /// The state that is recorded under a name.
    pub fn named(name: &str) -> (state: Option<DelegationState>)
        ensures
            match state {
                Some(found) => name@ == found.name_text(),
                None => forall|other: DelegationState| name@ != #[trigger] other.name_text(),
            },
    {
        if same_text(name, "queued") {
            Some(DelegationState::Queued)
        } else if same_text(name, "cancel_requested") {
            Some(DelegationState::CancelRequested)
        } else if same_text(name, "ready_to_integrate") {
            Some(DelegationState::ReadyToIntegrate)
        } else if same_text(name, "conflicted") {
            Some(DelegationState::Conflicted)
        } else if same_text(name, "applying") {
            Some(DelegationState::Applying)
        } else if same_text(name, "recovery_conflict") {
            Some(DelegationState::RecoveryConflict)
        } else if same_text(name, "integrated") {
            Some(DelegationState::Integrated)
        } else if same_text(name, "cleanup_queued") {
            Some(DelegationState::CleanupQueued)
        } else if same_text(name, "cancel_cleanup_queued") {
            Some(DelegationState::CancelCleanupQueued)
        } else if same_text(name, "failure_cleanup_queued") {
            Some(DelegationState::FailureCleanupQueued)
        } else if same_text(name, "finalized") {
            Some(DelegationState::Finalized)
        } else if same_text(name, "cancelled") {
            Some(DelegationState::Cancelled)
        } else if same_text(name, "failed") {
            Some(DelegationState::Failed)
        } else {
            None
        }
    }
}

/// Whether a delegation waits for its child's resources to be released.
pub open spec fn awaits_cleanup(state: DelegationState) -> bool {
    ||| state == DelegationState::CleanupQueued
    ||| state == DelegationState::CancelCleanupQueued
    ||| state == DelegationState::FailureCleanupQueued
}

/// Whether a delegation has ended.
pub open spec fn has_ended(state: DelegationState) -> bool {
    ||| state == DelegationState::Finalized
    ||| state == DelegationState::Cancelled
    ||| state == DelegationState::Failed
}

/// The result of a child, kept until it is integrated and beyond.
#[derive(Debug)]
pub struct ProvisionalResult {
    pub result_digest: String,
    pub attempt_id: String,
    pub node_id: String,
    pub bundle_json: String,
    pub integrated: bool,
}

/// A delegation as it is recorded.
#[derive(Debug)]
pub struct Delegation {
    pub delegation_id: String,
    pub child_id: String,
    pub job_id: String,
    pub state: DelegationState,
    pub base_revision: String,
    pub parent_repo: String,
    pub assigned_node_id: Option<String>,
    pub preview: Option<Value>,
    pub finalization_key: Option<String>,
    pub cleanup_job_id: Option<String>,
    pub cleanup_acknowledged: bool,
    pub failure: Option<Value>,
    pub failed_attempt_id: Option<String>,
    pub result: Option<ProvisionalResult>,
}

impl Delegation {
    /// What holds of every delegation: one that waits for a release names the job of it, one
    /// that is being integrated has a result, a preview and a key, and a release is
    /// acknowledged only at the end.
    pub open spec fn well_formed(&self) -> bool {
        &&& awaits_cleanup(self.state) ==> optional_view(self.cleanup_job_id) == Some(
            stable_id_of("cleanup"@, self.delegation_id@),
        )
        &&& (self.state == DelegationState::ReadyToIntegrate || self.state
            == DelegationState::Conflicted || self.state == DelegationState::Applying
            || self.state == DelegationState::RecoveryConflict || self.state
            == DelegationState::CleanupQueued || self.state == DelegationState::Finalized)
            ==> self.result is Some && self.preview is Some
        &&& (self.state == DelegationState::Applying || self.state
            == DelegationState::RecoveryConflict || self.state == DelegationState::CleanupQueued
            || self.state == DelegationState::Finalized) ==> self.finalization_key is Some
        &&& self.cleanup_acknowledged ==> has_ended(self.state)
    }
}

/// A job that releases the resources of a child, on the node that holds them.
#[derive(Debug)]
pub struct CleanupJob {
    pub job_id: String,
    pub node_id: String,
    pub payload: Value,
    pub required: Vec<String>,
}

/// What the job that releases a child is told.
pub open spec fn cleanup_model(delegation_id: Seq<char>, child_id: Seq<char>) -> Json {
    Json::Object(
        Map::<Seq<char>, Json>::empty().insert(
            "protocolVersion"@,
            Json::Text(CLEANUP_PROTOCOL_VERSION@),
        ).insert("delegationId"@, Json::Text(delegation_id)).insert(
            "childId"@,
            Json::Text(child_id),
        ).insert("actorId"@, Json::Text("actor_"@ + child_id)).insert(
            "generation"@,
            Json::Unsigned(1),
        ),
    )
}

/// Whether a job releases a child on a node.
pub open spec fn releases(
    job: CleanupJob,
    delegation_id: Seq<char>,
    child_id: Seq<char>,
    node_id: Seq<char>,
) -> bool {
    &&& job.job_id@ == stable_id_of("cleanup"@, delegation_id)
    &&& job.node_id@ == node_id
    &&& json_model(job.payload) == cleanup_model(delegation_id, child_id)
    &&& views(job.required@) == seq!["protocol:harness-host:1"@]
}

/// The job that releases a child on a node.
pub fn schedule_cleanup(delegation_id: &str, child_id: &str, node_id: &str) -> (job: CleanupJob)
    ensures
        releases(job, delegation_id@, child_id@, node_id@),
{
    let payload = empty_object();
    let payload = with_field(payload, "protocolVersion", text_value(CLEANUP_PROTOCOL_VERSION));
    let payload = with_field(payload, "delegationId", text_value(delegation_id));
    let payload = with_field(payload, "childId", text_value(child_id));
    let payload = with_field(
        payload,
        "actorId",
        text_value(joined("actor_", child_id).as_str()),
    );
    let payload = with_field(payload, "generation", unsigned_value(1));
    let mut required: Vec<String> = Vec::new();
    required.push("protocol:harness-host:1".to_owned());
    assert(views(required@) =~= seq!["protocol:harness-host:1"@]);
    CleanupJob {
        job_id: stable_id("cleanup", delegation_id),
        node_id: node_id.to_owned(),
        payload,
        required,
    }
}

/// What is done to collect the result of a delegation.
#[derive(Debug, Clone, Copy, PartialEq, Eq, Structural)]
pub enum CollectAction {
    /// See whether the child has been released, and report.
    ReconcileCleanup,
    /// Report; nothing is to be collected now.
    Report,
    /// Ask what became of the child's job.
    AskForJob,
}

/// What is done to collect the result of a delegation in a state.
pub open spec fn collect_action(state: DelegationState) -> CollectAction {
    if awaits_cleanup(state) || has_ended(state) {
        CollectAction::ReconcileCleanup
    } else if state == DelegationState::Integrated || state == DelegationState::Applying || state
        == DelegationState::Conflicted {
        CollectAction::Report
    } else {
        CollectAction::AskForJob
    }
}

/// What is done to collect the result of a delegation.
pub fn collect(delegation: &Delegation) -> (action: CollectAction)
    ensures
        action == collect_action(delegation.state),
{
    match delegation.state {
        DelegationState::CleanupQueued
        | DelegationState::CancelCleanupQueued
        | DelegationState::FailureCleanupQueued
        | DelegationState::Finalized
        | DelegationState::Cancelled
        | DelegationState::Failed => CollectAction::ReconcileCleanup,
        DelegationState::Integrated | DelegationState::Applying | DelegationState::Conflicted => {
            CollectAction::Report
        },
        _ => CollectAction::AskForJob,
    }
}

/// A job that failed: where, in which attempt, and why.
#[derive(Debug)]
pub struct FailedJob {
    pub node_id: String,
    pub attempt_id: String,
    pub failure: Value,
}

/// A delegation whose child failed.
pub open spec fn after_failure(
    before: Delegation,
    failed: FailedJob,
    cleanup_job_id: String,
) -> Delegation {
    if before.state == DelegationState::Queued || before.state
        == DelegationState::CancelRequested {
        Delegation {
            state: if before.state == DelegationState::CancelRequested {
                DelegationState::CancelCleanupQueued
            } else {
                DelegationState::FailureCleanupQueued
            },
            assigned_node_id: Some(failed.node_id),
            failure: Some(failed.failure),
            cleanup_job_id: Some(cleanup_job_id),
            failed_attempt_id: Some(failed.attempt_id),
            ..before
        }
    } else {
        before
    }
}

/// Records that the child failed, and has it released where it ran.
pub fn collect_failed(delegation: &mut Delegation, failed: FailedJob) -> (job: CleanupJob)
    ensures
        releases(job, old(delegation).delegation_id@, old(delegation).child_id@, failed.node_id@),
        *final(delegation) == after_failure(*old(delegation), failed, job.job_id),
        old(delegation).well_formed() ==> final(delegation).well_formed(),
{
    let job = schedule_cleanup(
        delegation.delegation_id.as_str(),
        delegation.child_id.as_str(),
        failed.node_id.as_str(),
    );
    let next = match delegation.state {
        DelegationState::Queued => DelegationState::FailureCleanupQueued,
        DelegationState::CancelRequested => DelegationState::CancelCleanupQueued,
        _ => {
            return job;
        },
    };
    delegation.state = next;
    delegation.assigned_node_id = Some(failed.node_id);
    delegation.failure = Some(failed.failure);
    delegation.cleanup_job_id = Some(job.job_id.clone());
    delegation.failed_attempt_id = Some(failed.attempt_id);
    job
}

/// A job that completed: where, and in which attempt.
#[derive(Debug)]
pub struct CompletedJob {
    pub node_id: String,
    pub attempt_id: String,
}

/// What a child's result says of itself.
#[derive(Debug)]
pub struct ResultBinding {
    pub delegation_id: String,
    pub child_id: String,
    pub base_revision: String,
    pub attempt_id: String,
    pub node_id: String,
    pub result_digest: String,
    /// The digest of the placement observation that each artifact was made under.
    pub observations: Vec<String>,
}

/// What integrating a result would do to the parent.
#[derive(Debug)]
pub struct IntegrationPreview {
    pub clean: bool,
    pub parent_revision: String,
    /// The whole preview, as it is recorded.
    pub recorded: Value,
}

/// Whether a result belongs to a delegation and to the attempt that produced it.
pub open spec fn is_bound(
    delegation: Delegation,
    completed: CompletedJob,
    binding: ResultBinding,
) -> bool {
    &&& binding.delegation_id@ == delegation.delegation_id@
    &&& binding.child_id@ == delegation.child_id@
    &&& binding.base_revision@ == delegation.base_revision@
    &&& binding.attempt_id@ == completed.attempt_id@
    &&& binding.node_id@ == completed.node_id@
}

/// Whether there are artifacts, and each was made under the observation that was claimed.
pub open spec fn is_observed(observations: Seq<String>, claimed: Seq<char>) -> bool {
    &&& observations.len() > 0
    &&& forall|i: int| 0 <= i < observations.len() ==> (#[trigger] observations[i])@ == claimed
}

/// Whether a result is the one that was kept before, if there was one.
pub open spec fn is_same_evidence(
    kept: Option<ProvisionalResult>,
    result_digest: Seq<char>,
    bundle_json: Seq<char>,
) -> bool {
    match kept {
        Some(result) => result.result_digest@ == result_digest && result.bundle_json@
            == bundle_json,
        None => true,
    }
}

/// Why a result is refused, the first reason first.
pub open spec fn result_fault(
    delegation: Delegation,
    completed: CompletedJob,
    binding: ResultBinding,
    claimed: Result<Option<String>, Fault>,
    validated: Result<(), Fault>,
    preview: Result<IntegrationPreview, Fault>,
    bundle_json: Seq<char>,
) -> Option<FaultView> {
    if !is_bound(delegation, completed, binding) {
        Some(plain("delegation result authority binding mismatch"@))
    } else {
        match claimed {
            Err(fault) => Some(fault@),
            Ok(None) => Some(
                plain("delegation attempt omitted placement observation evidence"@),
            ),
            Ok(Some(digest)) => if !is_observed(binding.observations@, digest@) {
                Some(
                    plain(
                        "delegation platform evidence did not match the claimed placement observation"@,
                    ),
                )
            } else {
                match (validated, preview) {
                    (Err(fault), _) => Some(fault@),
                    (Ok(_), Err(fault)) => Some(fault@),
                    (Ok(_), Ok(_)) => if !is_same_evidence(
                        delegation.result,
                        binding.result_digest@,
                        bundle_json,
                    ) {
                        Some(plain("delegation result replay changed immutable evidence"@))
                    } else {
                        None
                    },
                }
            },
        }
    }
}

/// The state of a delegation once its result is there.
pub open spec fn state_with_result(before: DelegationState, clean: bool) -> DelegationState {
    if before == DelegationState::CancelRequested {
        DelegationState::CancelCleanupQueued
    } else if clean {
        DelegationState::ReadyToIntegrate
    } else {
        DelegationState::Conflicted
    }
}

fn all_observed(observations: &Vec<String>, claimed: &str) -> (yes: bool)
    ensures
        yes == is_observed(observations@, claimed@),
{
    if observations.len() == 0 {
        return false;
    }
    let mut i: usize = 0;
    while i < observations.len()
        invariant
            i <= observations@.len(),
            forall|k: int| 0 <= k < i ==> (#[trigger] observations@[k])@ == claimed@,
        decreases observations@.len() - i,
    {
        if !same_text(observations[i].as_str(), claimed) {
            assert(observations@[i as int]@ != claimed@);
            return false;
        }
        i += 1;
    }
    true
}

/// Takes up the result of a child, given the placement observation that was claimed for the
/// attempt, what checking the result came to and what integrating it would do. A delegation
/// that is to be cancelled has its child released at once.
pub fn collect_completed(
    delegation: &mut Delegation,
    completed: CompletedJob,
    binding: ResultBinding,
    claimed: Result<Option<String>, Fault>,
    validated: Result<(), Fault>,
    preview: Result<IntegrationPreview, Fault>,
    bundle_json: String,
) -> (collected: Result<Option<CleanupJob>, Fault>)
    requires
        collect_action(old(delegation).state) == CollectAction::AskForJob,
    ensures
        match collected {
            Err(fault) => {
                &&& result_fault(
                    *old(delegation),
                    completed,
                    binding,
                    claimed,
                    validated,
                    preview,
                    bundle_json@,
                ) == Some(fault@)
                &&& *final(delegation) == *old(delegation)
            },
            Ok(job) => {
                &&& result_fault(
                    *old(delegation),
                    completed,
                    binding,
                    claimed,
                    validated,
                    preview,
                    bundle_json@,
                ) is None
                &&& match job {
                    Some(job) => old(delegation).state == DelegationState::CancelRequested
                        && releases(
                        job,
                        old(delegation).delegation_id@,
                        old(delegation).child_id@,
                        completed.node_id@,
                    ),
                    None => old(delegation).state != DelegationState::CancelRequested,
                }
                &&& *final(delegation) == (Delegation {
                    state: state_with_result(old(delegation).state, preview->Ok_0.clean),
                    assigned_node_id: Some(completed.node_id),
                    preview: Some(preview->Ok_0.recorded),
                    cleanup_job_id: match job {
                        Some(job) => Some(job.job_id),
                        None => old(delegation).cleanup_job_id,
                    },
                    result: match old(delegation).result {
                        Some(kept) => Some(kept),
                        None => Some(
                            ProvisionalResult {
                                result_digest: binding.result_digest,
                                attempt_id: completed.attempt_id,
                                node_id: completed.node_id,
                                bundle_json,
                                integrated: false,
                            },
                        ),
                    },
                    ..*old(delegation)
                })
            },
        },
        old(delegation).well_formed() ==> final(delegation).well_formed(),
{
    if !(same_text(binding.delegation_id.as_str(), delegation.delegation_id.as_str()) && same_text(
        binding.child_id.as_str(),
        delegation.child_id.as_str(),
    ) && same_text(binding.base_revision.as_str(), delegation.base_revision.as_str()) && same_text(
        binding.attempt_id.as_str(),
        completed.attempt_id.as_str(),
    ) && same_text(binding.node_id.as_str(), completed.node_id.as_str())) {
        return Err(Fault::plain("delegation result authority binding mismatch"));
    }
    match claimed {
        Err(fault) => {
            return Err(fault);
        },
        Ok(None) => {
            return Err(
                Fault::plain("delegation attempt omitted placement observation evidence"),
            );
        },
        Ok(Some(digest)) => {
            if !all_observed(&binding.observations, digest.as_str()) {
                return Err(
                    Fault::plain(
                        "delegation platform evidence did not match the claimed placement observation",
                    ),
                );
            }
        },
    }
    if let Err(fault) = validated {
        return Err(fault);
    }
    let preview = match preview {
        Err(fault) => {
            return Err(fault);
        },
        Ok(preview) => preview,
    };
    let is_new = match &delegation.result {
        Some(kept) => {
            if !same_text(kept.result_digest.as_str(), binding.result_digest.as_str())
                || !same_text(kept.bundle_json.as_str(), bundle_json.as_str()) {
                return Err(Fault::plain("delegation result replay changed immutable evidence"));
            }
            false
        },
        None => true,
    };
    if is_new {
        delegation.result = Some(
            ProvisionalResult {
                result_digest: binding.result_digest,
                attempt_id: completed.attempt_id,
                node_id: completed.node_id.clone(),
                bundle_json,
                integrated: false,
            },
        );
    }
    let job = if delegation.state == DelegationState::CancelRequested {
        let job = schedule_cleanup(
            delegation.delegation_id.as_str(),
            delegation.child_id.as_str(),
            completed.node_id.as_str(),
        );
        delegation.cleanup_job_id = Some(job.job_id.clone());
        delegation.state = DelegationState::CancelCleanupQueued;
        Some(job)
    } else {
        delegation.state =
        if preview.clean {
            DelegationState::ReadyToIntegrate
        } else {
            DelegationState::Conflicted
        };
        None
    };
    delegation.assigned_node_id = Some(completed.node_id);
    delegation.preview = Some(preview.recorded);
    Ok(job)
}

/// What is done to cancel a delegation.
#[derive(Debug)]
pub enum CancelAction {
    /// Report; it is cancelled, or will be.
    Report,
    /// See whether the child has been released, and report.
    ReconcileCleanup,
    /// Submit the job that releases the child, and report.
    Release(CleanupJob),
    /// Ask in what state the child's job is.
    AskForJob,
}

/// What cancelling a delegation does at first: one that was handed over to the parent is
/// refused, one with a result that nobody took has its child released where it ran.
pub fn cancel(delegation: &mut Delegation) -> (action: Result<CancelAction, Fault>)
    ensures
        match old(delegation).state {
            DelegationState::Cancelled | DelegationState::CancelRequested => action
                == Ok::<CancelAction, Fault>(CancelAction::Report) && *final(delegation) == *old(delegation),
            DelegationState::CancelCleanupQueued => action == Ok::<CancelAction, Fault>(
                CancelAction::ReconcileCleanup,
            ) && *final(delegation) == *old(delegation),
            DelegationState::Applying
            | DelegationState::RecoveryConflict
            | DelegationState::CleanupQueued
            | DelegationState::Finalized => {
                &&& action matches Err(fault) && fault@ == plain(
                    "delegation integration has already been acknowledged"@,
                )
                &&& *final(delegation) == *old(delegation)
            },
            DelegationState::ReadyToIntegrate | DelegationState::Conflicted => match old(delegation).result {
                None => {
                    &&& action matches Err(fault) && fault@ == plain("Query returned no rows"@)
                    &&& *final(delegation) == *old(delegation)
                },
                Some(result) => {
                    &&& action is Ok
                    &&& action->Ok_0 is Release
                    &&& releases(
                        action->Ok_0->Release_0,
                        old(delegation).delegation_id@,
                        old(delegation).child_id@,
                        result.node_id@,
                    )
                    &&& *final(delegation) == (Delegation {
                        state: DelegationState::CancelCleanupQueued,
                        cleanup_job_id: Some(action->Ok_0->Release_0.job_id),
                        ..*old(delegation)
                    })
                },
            },
            _ => action == Ok::<CancelAction, Fault>(CancelAction::AskForJob) && *final(delegation) == *old(delegation),
        },
        old(delegation).well_formed() ==> final(delegation).well_formed(),
{
    match delegation.state {
        DelegationState::Cancelled | DelegationState::CancelRequested => Ok(CancelAction::Report),
        DelegationState::CancelCleanupQueued => Ok(CancelAction::ReconcileCleanup),
        DelegationState::Applying
        | DelegationState::RecoveryConflict
        | DelegationState::CleanupQueued
        | DelegationState::Finalized => Err(
            Fault::plain("delegation integration has already been acknowledged"),
        ),
        DelegationState::ReadyToIntegrate | DelegationState::Conflicted => {
            let job = match &delegation.result {
                None => {
                    return Err(Fault::plain("Query returned no rows"));
                },
                Some(result) => schedule_cleanup(
                    delegation.delegation_id.as_str(),
                    delegation.child_id.as_str(),
                    result.node_id.as_str(),
                ),
            };
            delegation.cleanup_job_id = Some(job.job_id.clone());
            delegation.state = DelegationState::CancelCleanupQueued;
            Ok(CancelAction::Release(job))
        },
        _ => Ok(CancelAction::AskForJob),
    }
}

/// What is done to cancel a delegation whose job has not been collected.
#[derive(Debug, Clone, Copy, PartialEq, Eq, Structural)]
pub enum CancelJobAction {
    /// Collect the result, and cancel once more.
    CollectAndCancel,
    /// Take the job out of the queue, and report.
    CancelJob,
    /// Report; the child's node finds out that it is to stop.
    Report,
}

/// Cancels a delegation whose job is in a given state: one that waits in the queue ends at
/// once, one that a node has taken up ends when that node is done.
pub fn cancel_job(delegation: &mut Delegation, job_state: &str) -> (action: Result<
    CancelJobAction,
    Fault,
>)
    requires
        old(delegation).state == DelegationState::Queued || old(delegation).state
            == DelegationState::Integrated || old(delegation).state == DelegationState::Failed
            || old(delegation).state == DelegationState::FailureCleanupQueued,
    ensures
        if job_state@ == "completed"@ {
            &&& action == Ok::<CancelJobAction, Fault>(CancelJobAction::CollectAndCancel)
            &&& *final(delegation) == *old(delegation)
        } else if job_state@ == "queued"@ {
            &&& action == Ok::<CancelJobAction, Fault>(CancelJobAction::CancelJob)
            &&& *final(delegation) == (Delegation {
                state: DelegationState::Cancelled,
                ..*old(delegation)
            })
        } else if job_state@ == "leased"@ {
            &&& action == Ok::<CancelJobAction, Fault>(CancelJobAction::Report)
            &&& *final(delegation) == (Delegation {
                state: DelegationState::CancelRequested,
                ..*old(delegation)
            })
        } else {
            &&& action matches Err(fault) && fault@ == plain(
                "delegation job cannot be cancelled from "@ + job_state@,
            )
            &&& *final(delegation) == *old(delegation)
        },
        old(delegation).well_formed() && !old(delegation).cleanup_acknowledged ==> final(delegation).well_formed(),
{
    if same_text(job_state, "completed") {
        return Ok(CancelJobAction::CollectAndCancel);
    }
    if same_text(job_state, "queued") {
        delegation.state = DelegationState::Cancelled;
        Ok(CancelJobAction::CancelJob)
    } else if same_text(job_state, "leased") {
        delegation.state = DelegationState::CancelRequested;
        Ok(CancelJobAction::Report)
    } else {
        Err(Fault::plain(joined("delegation job cannot be cancelled from ", job_state).as_str()))
    }
}

/// What a run of git wrote, without the space around it.
pub fn git_stdout(succeeded: bool, stdout: Vec<u8>, stderr: &[u8]) -> (text: Result<String, Fault>)
    ensures
        match text {
            Ok(text) => succeeded && exists|whole: Seq<char>| #[trigger]
                encode_utf8(whole) == stdout@ && text@ == trimmed(whole),
            Err(fault) => if succeeded {
                !valid_utf8(stdout@) && fault@ == plain(utf8_complaint(stdout@))
            } else {
                fault@ == plain("git failed: "@ + trimmed(utf8_lossy(stderr@)))
            },
        },
{
    if !succeeded {
        let complaint = lossy_text(stderr);
        return Err(
            Fault::plain(joined("git failed: ", trim_text(complaint.as_str()).as_str()).as_str()),
        );
    }
    match text_from_utf8(stdout) {
        Ok(whole) => Ok(trim_text(whole.as_str())),
        Err(complaint) => Err(Fault::plain(complaint.as_str())),
    }
}

/// A request is served if and only if it speaks the protocol, its task is not blank and at
/// most 262144 bytes long, its base is a full commit, it names at most 128 requirements and
/// at most 128 preferences, its harness is the fake one and its workspace driver is one of two.
pub proof fn requests_are_served_where_they_can_be(request: DelegationRequest)
    ensures
        request_fault(request) is None <==> {
            &&& request.protocol_version@ == "coven.delegation.v1"@
            &&& trimmed(request.task@).len() > 0
            &&& encode_utf8(request.task@).len() <= 262_144
            &&& is_commit(request.base_revision@)
            &&& request.requirements@.len() <= 128
            &&& request.preferences@.len() <= 128
            &&& request.harness@ == "fake"@
            &&& request.workspace_driver@ == "filesystem"@ || request.workspace_driver@
                == "s3-checkpoint"@
        },
{
}

/// What is said of a request that is refused: the protocol comes first, then the task, the
/// base, the placement, the harness and the driver.
pub proof fn refusals_name_the_first_fault(request: DelegationRequest)
    ensures
        ({
            let speaks = request.protocol_version@ == "coven.delegation.v1"@;
            let asks = trimmed(request.task@).len() > 0 && encode_utf8(request.task@).len()
                <= 262_144;
            let based = is_commit(request.base_revision@);
            let placed = request.requirements@.len() <= 128 && request.preferences@.len() <= 128;
            let harnessed = request.harness@ == "fake"@;
            let fault = request_fault(request);
            &&& !speaks ==> fault == Some(plain("unsupported delegation protocol"@))
            &&& speaks && !asks ==> fault == Some(plain("delegation task is invalid"@))
            &&& speaks && asks && !based ==> fault == Some(
                plain("baseRevision must be a full SHA-1 commit OID"@),
            )
            &&& speaks && asks && based && !placed ==> fault == Some(
                plain("placement input exceeds limits"@),
            )
            &&& speaks && asks && based && placed && !harnessed ==> fault == Some(
                plain("only the deterministic fake harness is enabled"@),
            )
            &&& speaks && asks && based && placed && harnessed && fault is Some ==> fault == Some(
                plain("unsupported workspace driver"@),
            )
        }),
{
}

/// A delegation begins if and only if its request can be served, the parent is at the base
/// with nothing uncommitted, and its name is an identifier: the one asked for, or a fresh one
/// after `dlg_`.
pub proof fn delegations_begin_on_a_clean_base(
    request: DelegationRequest,
    head: Result<String, Fault>,
    changes: Result<String, Fault>,
    fresh: Seq<char>,
)
    ensures
        start_fault(request, head, changes, fresh) is None <==> {
            &&& request_fault(request) is None
            &&& head matches Ok(revision) && revision@ == request.base_revision@
            &&& changes matches Ok(list) && list@.len() == 0
            &&& request.delegation_id matches Some(asked) ==> is_id(asked@)
            &&& request.delegation_id is None ==> is_id("dlg_"@ + fresh)
        },
        request_fault(request) is Some ==> start_fault(request, head, changes, fresh)
            == request_fault(request),
        request_fault(request) is None ==> {
            let fault = start_fault(request, head, changes, fresh);
            &&& head matches Err(wrong) ==> fault == Some(wrong@)
            &&& head matches Ok(revision) ==> {
                &&& revision@ != request.base_revision@ ==> fault == Some(
                    plain("parent HEAD does not match baseRevision"@),
                )
                &&& revision@ == request.base_revision@ ==> {
                    &&& changes matches Err(wrong) ==> fault == Some(wrong@)
                    &&& changes matches Ok(list) ==> {
                        &&& list@.len() > 0 ==> fault == Some(
                            plain("parent workspace must be clean when delegation starts"@),
                        )
                        &&& list@.len() == 0 && fault is Some ==> fault == Some(
                            plain("delegationId has an invalid format"@),
                        )
                    }
                }
            }
        },
{
    reveal_strlit("delegationId");
    reveal_strlit(" has an invalid format");
    reveal_strlit("delegationId has an invalid format");
    assert("delegationId"@ + " has an invalid format"@ =~= "delegationId has an invalid format"@);
}

/// What a delegation is known by and what its node is told: the identifiers of the child and
/// of the job are made of its own; the node is told the request's base, task, harness, driver,
/// checkpoint and locator, each under its name, and the first generation of the child's actor.
pub proof fn nodes_are_told_the_request(
    start: DelegationStart,
    request: DelegationRequest,
    delegation_id: Seq<char>,
)
    requires
        starts(start, request, delegation_id),
    ensures
        ({
            let told = json_model(start.payload);
            let child = start.child_id@;
            let suffix = hex(sha256(encode_utf8(delegation_id)).take(16));
            &&& start.delegation_id@ == delegation_id
            &&& child == "child"@ + "_"@ + suffix
            &&& start.job_id@ == "delegate"@ + "_"@ + suffix
            &&& field_of(told, "protocolVersion"@) == Some(Json::Text("coven.delegation.v1"@))
            &&& field_of(told, "delegationId"@) == Some(Json::Text(delegation_id))
            &&& field_of(told, "childId"@) == Some(Json::Text(child))
            &&& field_of(told, "baseRevision"@) == Some(Json::Text(request.base_revision@))
            &&& field_of(told, "task"@) == Some(Json::Text(request.task@))
            &&& field_of(told, "harness"@) == Some(Json::Text(request.harness@))
            &&& field_of(told, "actorId"@) == Some(Json::Text("actor_"@ + child))
            &&& field_of(told, "generation"@) == Some(Json::Unsigned(1))
            &&& field_of(told, "workspaceDriver"@) == Some(
                Json::Text(request.workspace_driver@),
            )
            &&& field_of(told, "baseCheckpoint"@) == Some(json_model(request.base_checkpoint))
            &&& field_of(told, "resultLocator"@) == Some(json_model(request.result_locator))
        }),
{
    reveal_strlit("protocolVersion");
    reveal_strlit("delegationId");
    reveal_strlit("childId");
    reveal_strlit("baseRevision");
    reveal_strlit("task");
    reveal_strlit("harness");
    reveal_strlit("actorId");
    reveal_strlit("generation");
    reveal_strlit("workspaceDriver");
    reveal_strlit("baseCheckpoint");
    reveal_strlit("resultLocator");
    assert("protocolVersion"@.len() == 15);
    assert("delegationId"@.len() == 12);
    assert("childId"@.len() == 7);
    assert("baseRevision"@.len() == 12);
    assert("task"@.len() == 4);
    assert("harness"@.len() == 7);
    assert("actorId"@.len() == 7);
    assert("generation"@.len() == 10);
    assert("workspaceDriver"@.len() == 15);
    assert("baseCheckpoint"@.len() == 14);
    assert("resultLocator"@.len() == 13);
    assert("protocolVersion"@[0] == 'p');
    assert("delegationId"@[0] == 'd');
    assert("childId"@[0] == 'c');
    assert("baseRevision"@[0] == 'b');
    assert("harness"@[0] == 'h');
    assert("actorId"@[0] == 'a');
    assert("workspaceDriver"@[0] == 'w');
}

/// A node must offer what the request asks for, both protocols of a child, and the runtime of
/// its harness; nothing else. Each is named once, in the order of code points.
pub proof fn nodes_must_offer_what_is_asked(
    start: DelegationStart,
    request: DelegationRequest,
    delegation_id: Seq<char>,
    offer: Seq<char>,
)
    requires
        starts(start, request, delegation_id),
    ensures
        views(start.required@).contains(offer) <==> views(request.requirements@).contains(offer)
            || offer == "protocol:workspace-driver:1"@ || offer == "protocol:harness-host:1"@
            || offer == "runtime:"@ + request.harness@,
        forall|i: int, j: int|
            0 <= i < j < start.required@.len() ==> precedes(
                (#[trigger] start.required@[i])@,
                (#[trigger] start.required@[j])@,
            ),
{
    let asked = views(request.requirements@);
    let all = required_of(asked, request.harness@);
    let n = asked.len() as int;
    assert(all[n] == "protocol:workspace-driver:1"@);
    assert(all[n + 1] == "protocol:harness-host:1"@);
    assert(all[n + 2] == "runtime:"@ + request.harness@);
    if asked.contains(offer) {
        let i = choose|i: int| 0 <= i < asked.len() && asked[i] == offer;
        assert(all[i] == offer);
    }
    if all.contains(offer) {
        let i = choose|i: int| 0 <= i < all.len() && all[i] == offer;
        if i < n {
            assert(asked[i] == offer);
        }
    }
    let named = views(start.required@);
    assert(named.contains(offer) <==> all.contains(offer));
    assert forall|i: int, j: int| 0 <= i < j < start.required@.len() implies precedes(
        (#[trigger] start.required@[i])@,
        (#[trigger] start.required@[j])@,
    ) by {
        assert(named[i] == start.required@[i]@ && named[j] == start.required@[j]@);
    }
}

/// Two requests that begin under one name, and differ in their task, tell their nodes
/// different things.
pub proof fn tasks_tell_payloads_apart(
    a: DelegationRequest,
    b: DelegationRequest,
    delegation_id: Seq<char>,
    child_id: Seq<char>,
)
    requires
        a.task@ != b.task@,
    ensures
        payload_model(a, delegation_id, child_id) != payload_model(b, delegation_id, child_id),
{
    reveal_strlit("protocolVersion");
    reveal_strlit("delegationId");
    reveal_strlit("childId");
    reveal_strlit("baseRevision");
    reveal_strlit("task");
    reveal_strlit("harness");
    reveal_strlit("actorId");
    reveal_strlit("generation");
    reveal_strlit("workspaceDriver");
    reveal_strlit("baseCheckpoint");
    reveal_strlit("resultLocator");
    assert("protocolVersion"@.len() == 15);
    assert("delegationId"@.len() == 12);
    assert("childId"@.len() == 7);
    assert("baseRevision"@.len() == 12);
    assert("task"@.len() == 4);
    assert("harness"@.len() == 7);
    assert("actorId"@.len() == 7);
    assert("generation"@.len() == 10);
    assert("workspaceDriver"@.len() == 15);
    assert("baseCheckpoint"@.len() == 14);
    assert("resultLocator"@.len() == 13);
    assert("protocolVersion"@[0] == 'p');
    assert("delegationId"@[0] == 'd');
    assert("childId"@[0] == 'c');
    assert("baseRevision"@[0] == 'b');
    assert("harness"@[0] == 'h');
    assert("actorId"@[0] == 'a');
    assert("workspaceDriver"@[0] == 'w');
    assert(field_of(payload_model(a, delegation_id, child_id), "task"@) == Some(
        Json::Text(a.task@),
    ));
    assert(field_of(payload_model(b, delegation_id, child_id), "task"@) == Some(
        Json::Text(b.task@),
    ));
}

/// A delegation begins again only where its child, its job, its base, its parent and the text
/// of its request are those that were recorded.
pub proof fn replays_change_nothing(
    stored: StoredStart,
    start: DelegationStart,
    request: DelegationRequest,
    request_json: Seq<char>,
)
    ensures
        same_start(stored, start, request, request_json) <==> stored.child_id@ == start.child_id@
            && stored.job_id@ == start.job_id@ && stored.base_revision@ == request.base_revision@
            && stored.parent_repo@ == request.parent_repo@ && stored.request_json@
            == request_json,
{
}

/// Each state is recorded under a name of its own.
pub proof fn state_names_differ(a: DelegationState, b: DelegationState)
    ensures
        a != b ==> a.name_text() != b.name_text(),
        DelegationState::Queued.name_text() == "queued"@,
        DelegationState::CancelRequested.name_text() == "cancel_requested"@,
        DelegationState::ReadyToIntegrate.name_text() == "ready_to_integrate"@,
        DelegationState::Conflicted.name_text() == "conflicted"@,
        DelegationState::Applying.name_text() == "applying"@,
        DelegationState::RecoveryConflict.name_text() == "recovery_conflict"@,
        DelegationState::Integrated.name_text() == "integrated"@,
        DelegationState::CleanupQueued.name_text() == "cleanup_queued"@,
        DelegationState::CancelCleanupQueued.name_text() == "cancel_cleanup_queued"@,
        DelegationState::FailureCleanupQueued.name_text() == "failure_cleanup_queued"@,
        DelegationState::Finalized.name_text() == "finalized"@,
        DelegationState::Cancelled.name_text() == "cancelled"@,
        DelegationState::Failed.name_text() == "failed"@,
{
    reveal_strlit("queued");
    reveal_strlit("cancel_requested");
    reveal_strlit("ready_to_integrate");
    reveal_strlit("conflicted");
    reveal_strlit("applying");
    reveal_strlit("recovery_conflict");
    reveal_strlit("integrated");
    reveal_strlit("cleanup_queued");
    reveal_strlit("cancel_cleanup_queued");
    reveal_strlit("failure_cleanup_queued");
    reveal_strlit("finalized");
    reveal_strlit("cancelled");
    reveal_strlit("failed");
    assert("queued"@.len() == 6);
    assert("cancel_requested"@.len() == 16);
    assert("ready_to_integrate"@.len() == 18);
    assert("conflicted"@.len() == 10);
    assert("applying"@.len() == 8);
    assert("recovery_conflict"@.len() == 17);
    assert("integrated"@.len() == 10);
    assert("cleanup_queued"@.len() == 14);
    assert("cancel_cleanup_queued"@.len() == 21);
    assert("failure_cleanup_queued"@.len() == 22);
    assert("finalized"@.len() == 9);
    assert("cancelled"@.len() == 9);
    assert("failed"@.len() == 6);
    assert("queued"@[0] == 'q');
    assert("conflicted"@[0] == 'c');
    assert("integrated"@[0] == 'i');
    assert("finalized"@[0] == 'f');
    assert("cancelled"@[0] == 'c');
    assert("failed"@[0] == 'f');
}

/// The job that releases a child goes to the node that holds it, needs a harness host there,
/// and names the delegation, the child and the child's actor in its first generation.
pub proof fn releases_name_the_child(
    job: CleanupJob,
    delegation_id: Seq<char>,
    child_id: Seq<char>,
    node_id: Seq<char>,
)
    requires
        releases(job, delegation_id, child_id, node_id),
    ensures
        ({
            let told = json_model(job.payload);
            &&& job.node_id@ == node_id
            &&& job.job_id@ == "cleanup"@ + "_"@ + hex(
                sha256(encode_utf8(delegation_id)).take(16),
            )
            &&& job.required@.len() == 1
            &&& job.required@[0]@ == "protocol:harness-host:1"@
            &&& field_of(told, "protocolVersion"@) == Some(
                Json::Text("coven.delegation-cleanup.v1"@),
            )
            &&& field_of(told, "delegationId"@) == Some(Json::Text(delegation_id))
            &&& field_of(told, "childId"@) == Some(Json::Text(child_id))
            &&& field_of(told, "actorId"@) == Some(Json::Text("actor_"@ + child_id))
            &&& field_of(told, "generation"@) == Some(Json::Unsigned(1))
        }),
{
    reveal_strlit("protocolVersion");
    reveal_strlit("delegationId");
    reveal_strlit("childId");
    reveal_strlit("actorId");
    reveal_strlit("generation");
    assert("protocolVersion"@.len() == 15);
    assert("delegationId"@.len() == 12);
    assert("childId"@.len() == 7);
    assert("actorId"@.len() == 7);
    assert("generation"@.len() == 10);
    assert("childId"@[0] == 'c');
    assert("actorId"@[0] == 'a');
    assert(views(job.required@).len() == job.required@.len());
    assert(views(job.required@)[0] == job.required@[0]@);
}

/// The actor that is released is the one that was started: in the same generation, under the
/// same name.
pub proof fn releases_stop_what_was_started(
    request: DelegationRequest,
    delegation_id: Seq<char>,
    child_id: Seq<char>,
)
    ensures
        field_of(cleanup_model(delegation_id, child_id), "actorId"@) == field_of(
            payload_model(request, delegation_id, child_id),
            "actorId"@,
        ),
        field_of(cleanup_model(delegation_id, child_id), "generation"@) == field_of(
            payload_model(request, delegation_id, child_id),
            "generation"@,
        ),
        field_of(cleanup_model(delegation_id, child_id), "delegationId"@) == Some(
            Json::Text(delegation_id),
        ),
{
    reveal_strlit("protocolVersion");
    reveal_strlit("delegationId");
    reveal_strlit("childId");
    reveal_strlit("baseRevision");
    reveal_strlit("task");
    reveal_strlit("harness");
    reveal_strlit("actorId");
    reveal_strlit("generation");
    reveal_strlit("workspaceDriver");
    reveal_strlit("baseCheckpoint");
    reveal_strlit("resultLocator");
    assert("protocolVersion"@.len() == 15);
    assert("delegationId"@.len() == 12);
    assert("childId"@.len() == 7);
    assert("baseRevision"@.len() == 12);
    assert("task"@.len() == 4);
    assert("harness"@.len() == 7);
    assert("actorId"@.len() == 7);
    assert("generation"@.len() == 10);
    assert("workspaceDriver"@.len() == 15);
    assert("baseCheckpoint"@.len() == 14);
    assert("resultLocator"@.len() == 13);
    assert("protocolVersion"@[0] == 'p');
    assert("delegationId"@[0] == 'd');
    assert("childId"@[0] == 'c');
    assert("baseRevision"@[0] == 'b');
    assert("harness"@[0] == 'h');
    assert("actorId"@[0] == 'a');
    assert("workspaceDriver"@[0] == 'w');
}

/// When a result is collected: the child's job is asked for only where the delegation is
/// queued, is to be cancelled, or can be looked at anew; one that waits for a release or has
/// ended is looked at for its release; else nothing is collected.
pub proof fn collecting_goes_by_the_state(state: DelegationState)
    ensures
        collect_action(state) == CollectAction::AskForJob <==> state == DelegationState::Queued
            || state == DelegationState::CancelRequested || state
            == DelegationState::ReadyToIntegrate || state == DelegationState::RecoveryConflict,
        collect_action(state) == CollectAction::Report <==> state == DelegationState::Integrated
            || state == DelegationState::Applying || state == DelegationState::Conflicted,
        collect_action(state) == CollectAction::ReconcileCleanup <==> state
            == DelegationState::CleanupQueued || state == DelegationState::CancelCleanupQueued
            || state == DelegationState::FailureCleanupQueued || state
            == DelegationState::Finalized || state == DelegationState::Cancelled || state
            == DelegationState::Failed,
{
}

/// When a child fails, a delegation that was to be cancelled goes on to be cancelled, and one
/// that was queued to fail; both keep the failure, the node and the attempt, and name the job
/// of the release. In any other state a failure changes nothing.
pub proof fn failures_are_kept(before: Delegation, failed: FailedJob, cleanup_job_id: String)
    ensures
        ({
            let after = after_failure(before, failed, cleanup_job_id);
            &&& before.state == DelegationState::CancelRequested ==> after.state
                == DelegationState::CancelCleanupQueued
            &&& before.state == DelegationState::Queued ==> after.state
                == DelegationState::FailureCleanupQueued
            &&& before.state == DelegationState::CancelRequested || before.state
                == DelegationState::Queued ==> {
                &&& after.assigned_node_id == Some(failed.node_id)
                &&& after.failure == Some(failed.failure)
                &&& after.failed_attempt_id == Some(failed.attempt_id)
                &&& after.cleanup_job_id == Some(cleanup_job_id)
            }
            &&& before.state != DelegationState::CancelRequested && before.state
                != DelegationState::Queued ==> after == before
            &&& after.result == before.result && after.preview == before.preview
                && after.finalization_key == before.finalization_key && after.delegation_id
                == before.delegation_id && after.child_id == before.child_id
        }),
{
}

/// A result is taken up if and only if it binds to the delegation and the attempt that made
/// it, an observation was claimed for that attempt and every artifact was made under it, it
/// is in order, its preview is there, and it is the one that was kept before, if one was.
pub proof fn results_are_taken_where_they_bind(
    delegation: Delegation,
    completed: CompletedJob,
    binding: ResultBinding,
    claimed: Result<Option<String>, Fault>,
    validated: Result<(), Fault>,
    preview: Result<IntegrationPreview, Fault>,
    bundle_json: Seq<char>,
)
    ensures
        result_fault(
            delegation,
            completed,
            binding,
            claimed,
            validated,
            preview,
            bundle_json,
        ) is None <==> {
            &&& binding.delegation_id@ == delegation.delegation_id@
            &&& binding.child_id@ == delegation.child_id@
            &&& binding.base_revision@ == delegation.base_revision@
            &&& binding.attempt_id@ == completed.attempt_id@
            &&& binding.node_id@ == completed.node_id@
            &&& claimed matches Ok(Some(digest)) && binding.observations@.len() >= 1 && forall|
                i: int,
            |
                0 <= i < binding.observations@.len() ==> (#[trigger] binding.observations@[i])@
                    == digest@
            &&& validated is Ok
            &&& preview is Ok
            &&& delegation.result matches Some(kept) ==> kept.result_digest@
                == binding.result_digest@ && kept.bundle_json@ == bundle_json
        },
{
}

/// What is said of a result that is refused: that it does not bind comes first, then what is
/// wrong with the observation, the result, the preview, and a result that was changed.
pub proof fn refused_results_name_the_first_fault(
    delegation: Delegation,
    completed: CompletedJob,
    binding: ResultBinding,
    claimed: Result<Option<String>, Fault>,
    validated: Result<(), Fault>,
    preview: Result<IntegrationPreview, Fault>,
    bundle_json: Seq<char>,
)
    ensures
        ({
            let fault = result_fault(
                delegation,
                completed,
                binding,
                claimed,
                validated,
                preview,
                bundle_json,
            );
            let bound = binding.delegation_id@ == delegation.delegation_id@ && binding.child_id@
                == delegation.child_id@ && binding.base_revision@ == delegation.base_revision@
                && binding.attempt_id@ == completed.attempt_id@ && binding.node_id@
                == completed.node_id@;
            let seen = claimed matches Ok(Some(digest)) && binding.observations@.len() >= 1
                && forall|i: int|
                0 <= i < binding.observations@.len() ==> (#[trigger] binding.observations@[i])@
                    == digest@;
            &&& !bound ==> fault == Some(plain("delegation result authority binding mismatch"@))
            &&& bound ==> (claimed matches Err(wrong) ==> fault == Some(wrong@))
            &&& bound && claimed == Ok::<Option<String>, Fault>(None) ==> fault == Some(
                plain("delegation attempt omitted placement observation evidence"@),
            )
            &&& bound && claimed is Ok && claimed->Ok_0 is Some && !seen ==> fault == Some(
                plain(
                    "delegation platform evidence did not match the claimed placement observation"@,
                ),
            )
            &&& bound && seen ==> (validated matches Err(wrong) ==> fault == Some(wrong@))
            &&& bound && seen && validated is Ok ==> (preview matches Err(wrong) ==> fault
                == Some(wrong@))
            &&& bound && seen && validated is Ok && preview is Ok && fault is Some ==> fault
                == Some(plain("delegation result replay changed immutable evidence"@))
        }),
{
}

/// With its result there, a delegation that was to be cancelled goes on to be cancelled; any
/// other is ready to integrate if and only if the result goes in cleanly.
pub proof fn results_move_delegations_on(before: DelegationState, clean: bool)
    ensures
        state_with_result(before, clean) == DelegationState::CancelCleanupQueued <==> before
            == DelegationState::CancelRequested,
        before != DelegationState::CancelRequested ==> (state_with_result(before, clean)
            == DelegationState::ReadyToIntegrate <==> clean) && (state_with_result(before, clean)
            == DelegationState::Conflicted <==> !clean),
{
}

/// What holds of every delegation: a release is acknowledged only at an end; one that waits
/// for a release names its job; an apply has a result, a preview and a key.
pub proof fn delegations_are_in_order(delegation: Delegation)
    requires
        delegation.well_formed(),
    ensures
        delegation.cleanup_acknowledged ==> delegation.state == DelegationState::Finalized
            || delegation.state == DelegationState::Cancelled || delegation.state
            == DelegationState::Failed,
        delegation.state == DelegationState::CleanupQueued || delegation.state
            == DelegationState::CancelCleanupQueued || delegation.state
            == DelegationState::FailureCleanupQueued ==> (delegation.cleanup_job_id matches Some(
            job,
        ) && job@ == "cleanup"@ + "_"@ + hex(
            sha256(encode_utf8(delegation.delegation_id@)).take(16),
        )),
        delegation.state == DelegationState::Applying || delegation.state
            == DelegationState::CleanupQueued || delegation.state == DelegationState::Finalized
            ==> delegation.finalization_key is Some && delegation.result is Some
            && delegation.preview is Some,
        delegation.state == DelegationState::ReadyToIntegrate || delegation.state
            == DelegationState::Conflicted || delegation.state
            == DelegationState::RecoveryConflict ==> delegation.result is Some
            && delegation.preview is Some,
{
}

/// Cancelling a delegation: one that the parent has begun to integrate is refused; one with a
/// result that nobody took has its child released on the node that made the result; one that
/// is cancelled, or will be, stays; of any other the child's job is asked for. Nothing but the
/// state and the name of the release changes.
pub proof fn cancelling_goes_by_the_state(
    delegation: &mut Delegation,
    action: Result<CancelAction, Fault>,
)
    requires
        call_ensures(cancel, (delegation,), action),
    ensures
        ({
            let before = *old(delegation);
            let after = *final(delegation);
            let taken = before.state == DelegationState::Applying || before.state
                == DelegationState::RecoveryConflict || before.state
                == DelegationState::CleanupQueued || before.state == DelegationState::Finalized;
            let offered = before.state == DelegationState::ReadyToIntegrate || before.state
                == DelegationState::Conflicted;
            &&& action is Err <==> taken || (offered && before.result is None)
            &&& taken ==> (action matches Err(fault) && fault@ == plain(
                "delegation integration has already been acknowledged"@,
            ))
            &&& before.state == DelegationState::Cancelled || before.state
                == DelegationState::CancelRequested ==> action == Ok::<CancelAction, Fault>(
                CancelAction::Report,
            )
            &&& before.state == DelegationState::CancelCleanupQueued ==> action == Ok::<
                CancelAction,
                Fault,
            >(CancelAction::ReconcileCleanup)
            &&& offered && before.result is Some ==> {
                &&& action matches Ok(CancelAction::Release(job)) && releases(
                    job,
                    before.delegation_id@,
                    before.child_id@,
                    before.result->0.node_id@,
                ) && after.cleanup_job_id == Some(job.job_id)
                &&& after.state == DelegationState::CancelCleanupQueued
            }
            &&& before.state == DelegationState::Queued || before.state
                == DelegationState::Integrated || before.state
                == DelegationState::FailureCleanupQueued || before.state
                == DelegationState::Failed ==> action == Ok::<CancelAction, Fault>(
                CancelAction::AskForJob,
            )
            &&& !(offered && before.result is Some) ==> after == before
            &&& after == (Delegation {
                state: after.state,
                cleanup_job_id: after.cleanup_job_id,
                ..before
            })
        }),
{
}

/// Cancelling a delegation by its job: one that waits in the queue is cancelled at once, one
/// that a node has taken up is marked to be cancelled, one that is done is collected first,
/// and any other is refused.
pub proof fn cancelling_goes_by_the_job(
    delegation: &mut Delegation,
    job_state: &str,
    action: Result<CancelJobAction, Fault>,
)
    requires
        call_ensures(cancel_job, (delegation, job_state), action),
    ensures
        job_state@ == "queued"@ ==> action == Ok::<CancelJobAction, Fault>(
            CancelJobAction::CancelJob,
        ) && *final(delegation) == (Delegation {
            state: DelegationState::Cancelled,
            ..*old(delegation)
        }),
        job_state@ == "leased"@ ==> action == Ok::<CancelJobAction, Fault>(
            CancelJobAction::Report,
        ) && *final(delegation) == (Delegation {
            state: DelegationState::CancelRequested,
            ..*old(delegation)
        }),
        job_state@ == "completed"@ ==> action == Ok::<CancelJobAction, Fault>(
            CancelJobAction::CollectAndCancel,
        ) && *final(delegation) == *old(delegation),
        job_state@ != "queued"@ && job_state@ != "leased"@ && job_state@ != "completed"@ ==> (
        action matches Err(fault) && fault@ == plain(
            "delegation job cannot be cancelled from "@ + job_state@,
        )) && *final(delegation) == *old(delegation),
{
    reveal_strlit("completed");
    reveal_strlit("queued");
    reveal_strlit("leased");
    assert("completed"@.len() == 9);
    assert("queued"@.len() == 6);
    assert("leased"@.len() == 6);
    assert("queued"@[0] == 'q');
    assert("leased"@[0] == 'l');
}

/// Collecting a result: one that is refused changes nothing; one that is taken up is kept with
/// its node and its preview, unless one was kept before; a delegation that was to be cancelled
/// has its child released on that node, and any other is ready or in conflict as the preview
/// says.
pub proof fn collecting_keeps_the_result(
    delegation: &mut Delegation,
    completed: CompletedJob,
    binding: ResultBinding,
    claimed: Result<Option<String>, Fault>,
    validated: Result<(), Fault>,
    preview: Result<IntegrationPreview, Fault>,
    bundle_json: String,
    collected: Result<Option<CleanupJob>, Fault>,
)
    requires
        call_ensures(
            collect_completed,
            (delegation, completed, binding, claimed, validated, preview, bundle_json),
            collected,
        ),
    ensures
        ({
            let before = *old(delegation);
            let after = *final(delegation);
            &&& collected is Err ==> after == before
            &&& collected matches Ok(job) ==> {
                let cancelling = before.state == DelegationState::CancelRequested;
                &&& binding.delegation_id@ == before.delegation_id@
                &&& binding.child_id@ == before.child_id@
                &&& binding.base_revision@ == before.base_revision@
                &&& validated is Ok && preview is Ok
                &&& job is Some <==> cancelling
                &&& job matches Some(release) ==> releases(
                    release,
                    before.delegation_id@,
                    before.child_id@,
                    completed.node_id@,
                )
                &&& cancelling ==> after.state == DelegationState::CancelCleanupQueued
                &&& !cancelling && preview->Ok_0.clean ==> after.state
                    == DelegationState::ReadyToIntegrate
                &&& !cancelling && !preview->Ok_0.clean ==> after.state
                    == DelegationState::Conflicted
                &&& after.assigned_node_id == Some(completed.node_id)
                &&& after.preview == Some(preview->Ok_0.recorded)
                &&& after.result is Some
                &&& before.result is Some ==> after.result == before.result
                &&& before.result is None ==> after.result->0.result_digest
                    == binding.result_digest && after.result->0.attempt_id == completed.attempt_id
                    && after.result->0.node_id == completed.node_id && after.result->0.bundle_json
                    == bundle_json && !after.result->0.integrated
                &&& after.finalization_key == before.finalization_key
                &&& after.failure == before.failure
            }
        }),
{
}

/// Collecting a failure has the child released on the node where it failed.
pub proof fn collecting_a_failure_releases_the_child(
    delegation: &mut Delegation,
    failed: FailedJob,
    job: CleanupJob,
)
    requires
        call_ensures(collect_failed, (delegation, failed), job),
    ensures
        releases(job, old(delegation).delegation_id@, old(delegation).child_id@, failed.node_id@),
        old(delegation).state == DelegationState::Queued ==> final(delegation).state
            == DelegationState::FailureCleanupQueued && final(delegation).failure == Some(
            failed.failure,
        ) && final(delegation).cleanup_job_id == Some(job.job_id),
        old(delegation).state == DelegationState::CancelRequested ==> final(delegation).state
            == DelegationState::CancelCleanupQueued,
{
}

/// A delegation starts only from a request that can be served on a clean base, and then tells
/// its node that request.
pub proof fn starting_checks_the_request(
    request: &DelegationRequest,
    head: Result<String, Fault>,
    changes: Result<String, Fault>,
    fresh: &str,
    started: Result<DelegationStart, Fault>,
)
    requires
        call_ensures(start, (request, head, changes, fresh), started),
    ensures
        started is Ok <==> start_fault(*request, head, changes, fresh@) is None,
        started matches Err(fault) ==> start_fault(*request, head, changes, fresh@) == Some(
            fault@,
        ),
        started matches Ok(start) ==> {
            let id = match request.delegation_id {
                Some(asked) => asked@,
                None => "dlg_"@ + fresh@,
            };
            &&& start.delegation_id@ == id
            &&& starts(start, *request, id)
        },
{
}

/// The state of a delegation is read back from the name under which it was recorded.
pub proof fn states_are_read_back(
    state: &DelegationState,
    name: String,
    text: &str,
    read: Option<DelegationState>,
)
    requires
        call_ensures(DelegationState::name, (state,), name),
        call_ensures(DelegationState::named, (text,), read),
        text@ == name@,
    ensures
        name@ == state.name_text(),
        read == Some(*state),
{
    if let Some(found) = read {
        state_names_differ(found, *state);
    } else {
        assert(text@ != state.name_text());
    }
}

/// What git wrote is told only where git succeeded; where it failed its complaint is told
/// without the space around it, and what is no UTF-8 is refused.
pub proof fn git_is_quoted(
    succeeded: bool,
    stdout: Vec<u8>,
    stderr: &[u8],
    text: Result<String, Fault>,
)
    requires
        call_ensures(git_stdout, (succeeded, stdout, stderr), text),
    ensures
        !succeeded ==> (text matches Err(fault) && fault@ == plain(
            "git failed: "@ + trimmed(utf8_lossy(stderr@)),
        )),
        succeeded ==> (text matches Err(fault) ==> !valid_utf8(stdout@) && fault@ == plain(
            utf8_complaint(stdout@),
        )),
{
}

/// A request is refused if and only if something is wrong with it; the harness that stands for
/// one that is not named is the fake one, which a request may ask for.
pub proof fn requests_are_refused_for_a_fault(
    request: &DelegationRequest,
    checked: Result<(), Fault>,
    harness: String,
)
    requires
        call_ensures(validate_request, (request,), checked),
        call_ensures(default_harness, (), harness),
    ensures
        checked is Ok <==> request_fault(*request) is None,
        checked matches Err(fault) ==> request_fault(*request) == Some(fault@),
        harness@ == "fake"@,
        checked is Ok ==> request.harness@ == harness@,
{
}

/// What is collected of a delegation goes by its state.
pub proof fn collecting_asks_for_the_job(delegation: &Delegation, action: CollectAction)
    requires
        call_ensures(collect, (delegation,), action),
    ensures
        action == CollectAction::AskForJob <==> delegation.state == DelegationState::Queued
            || delegation.state == DelegationState::CancelRequested || delegation.state
            == DelegationState::ReadyToIntegrate || delegation.state
            == DelegationState::RecoveryConflict,
        action == CollectAction::Report <==> delegation.state == DelegationState::Integrated
            || delegation.state == DelegationState::Applying || delegation.state
            == DelegationState::Conflicted,
{
}

} // verus!
