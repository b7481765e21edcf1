//! The end of a delegation: its result is integrated into the parent once, and its child's
//! resources are released and the release acknowledged.

use crate::delegation::{
    awaits_cleanup, collect_action, has_ended, releases, schedule_cleanup, validate_id, CleanupJob,
    CollectAction, Delegation, DelegationState, IntegrationPreview, ProvisionalResult,
    CLEANUP_PROTOCOL_VERSION, PROTOCOL_VERSION,
};
use crate::fault::{caused, optional_view, plain, Fault, FaultView};
use crate::ids::is_id;
use crate::json::{bool_in, field, field_of, json_model, text_in, Json};
use crate::text::{joined, same_text};
use serde_json::Value;
use vstd::prelude::*;
use vstd::string::*;

verus! {

/// What is done to integrate a result.
#[derive(Debug)]
pub enum IntegrateAction {
    /// It was integrated under this key: see whether the child has been released.
    ReconcileCleanup,
    /// Apply the result to the parent, which must be at a revision.
    Apply(String),
    /// The apply was begun before: find out how far it came.
    Recover,
}

/// Which action is taken.
pub enum IntegrateView {
    ReconcileCleanup,
    Apply(Seq<char>),
    Recover,
}

impl View for IntegrateAction {
    type V = IntegrateView;

    open spec fn view(&self) -> IntegrateView {
        match self {
            IntegrateAction::ReconcileCleanup => IntegrateView::ReconcileCleanup,
            IntegrateAction::Apply(revision) => IntegrateView::Apply(revision@),
            IntegrateAction::Recover => IntegrateView::Recover,
        }
    }
}

/// What integrating a result under a key does: once begun under one key, it is never taken
/// up under another.
pub open spec fn integrate_outcome(
    delegation: Delegation,
    preview: Option<IntegrationPreview>,
    key: Seq<char>,
) -> Result<IntegrateView, FaultView> {
    if !is_id(key) {
        Err(plain("finalizationKey"@ + " has an invalid format"@))
    } else if delegation.result is None {
        Err(caused("delegation has no provisional result"@, "Query returned no rows"@))
    } else if delegation.state == DelegationState::CleanupQueued || delegation.state
        == DelegationState::Finalized {
        if optional_view(delegation.finalization_key) == Some(key) {
            Ok(IntegrateView::ReconcileCleanup)
        } else {
            Err(plain("delegation was finalized with another idempotency key"@))
        }
    } else if delegation.state != DelegationState::ReadyToIntegrate && delegation.state
        != DelegationState::Applying {
        Err(plain("delegation is not ready to integrate"@))
    } else if preview is None {
        Err(plain("delegation preview missing"@))
    } else if delegation.state == DelegationState::ReadyToIntegrate {
        Ok(IntegrateView::Apply(preview->0.parent_revision@))
    } else if optional_view(delegation.finalization_key) != Some(key) {
        Err(plain("delegation apply is owned by another finalization key"@))
    } else {
        Ok(IntegrateView::Recover)
    }
}

/// Begins to integrate a result under a key, given the preview that was recorded of it.
pub fn integrate(
    delegation: &mut Delegation,
    preview: Option<&IntegrationPreview>,
    finalization_key: &str,
) -> (action: Result<IntegrateAction, Fault>)
    ensures
        ({
            let outcome = integrate_outcome(
                *old(delegation),
                match preview {
                    Some(recorded) => Some(*recorded),
                    None => None,
                },
                finalization_key@,
            );
            match action {
                Ok(action) => outcome == Ok::<IntegrateView, FaultView>(action@),
                Err(fault) => outcome == Err::<IntegrateView, FaultView>(fault@),
            }
        }),
        match action {
            Ok(IntegrateAction::Apply(_)) => {
                &&& *final(delegation) == (Delegation {
                    state: DelegationState::Applying,
                    finalization_key: final(delegation).finalization_key,
                    ..*old(delegation)
                })
                &&& optional_view(final(delegation).finalization_key) == Some(finalization_key@)
            },
            _ => *final(delegation) == *old(delegation),
        },
        old(delegation).well_formed() ==> final(delegation).well_formed(),
{
    if let Err(fault) = validate_id(finalization_key, "finalizationKey") {
        return Err(fault);
    }
    if delegation.result.is_none() {
        return Err(
            Fault::caused("delegation has no provisional result", "Query returned no rows"),
        );
    }
    let same_key = match &delegation.finalization_key {
        Some(key) => same_text(key.as_str(), finalization_key),
        None => false,
    };
    match delegation.state {
        DelegationState::CleanupQueued | DelegationState::Finalized => {
            if same_key {
                return Ok(IntegrateAction::ReconcileCleanup);
            }
            return Err(
                Fault::plain("delegation was finalized with another idempotency key"),
            );
        },
        DelegationState::ReadyToIntegrate | DelegationState::Applying => {},
        _ => {
            return Err(Fault::plain("delegation is not ready to integrate"));
        },
    }
    let revision = match preview {
        Some(recorded) => recorded.parent_revision.clone(),
        None => {
            return Err(Fault::plain("delegation preview missing"));
        },
    };
    if delegation.state == DelegationState::ReadyToIntegrate {
        delegation.state = DelegationState::Applying;
        delegation.finalization_key = Some(finalization_key.to_owned());
        Ok(IntegrateAction::Apply(revision))
    } else if !same_key {
        Err(Fault::plain("delegation apply is owned by another finalization key"))
    } else {
        Ok(IntegrateAction::Recover)
    }
}

/// Refuses to apply a result where recording that it is applied changed another number of
/// delegations than one.
pub fn claim_integration(changed: usize) -> (claimed: Result<(), Fault>)
    ensures
        match claimed {
            Ok(()) => changed == 1,
            Err(fault) => changed != 1 && fault@ == plain(
                "delegation integration authority changed"@,
            ),
        },
{
    if changed == 1 {
        Ok(())
    } else {
        Err(Fault::plain("delegation integration authority changed"))
    }
}

/// What is left to do of an apply that was begun before.
#[derive(Debug, Clone, Copy, PartialEq, Eq, Structural)]
pub enum RecoverAction {
    /// The parent has the result already.
    Applied,
    /// Apply it now: the parent is as it was.
    Apply,
}

/// Whether the parent is as it was when the apply was begun.
pub open spec fn parent_is_unchanged(
    recovery: IntegrationPreview,
    recorded: IntegrationPreview,
) -> bool {
    recovery.clean && recovery.parent_revision@ == recorded.parent_revision@
}

/// How the parent of an apply that was begun before was found.
#[derive(Debug)]
pub enum FoundParent {
    /// It has the result.
    HasResult,
    /// It lacks the result, and this is what integrating it would do now.
    LacksResult(IntegrationPreview),
}

/// Takes up an apply that was begun before, given how the parent was found, and what
/// integrating the result would have done then. Where the parent went another way, the
/// delegation is left to be resolved by hand.
pub fn recover_integration(
    delegation: &mut Delegation,
    parent: FoundParent,
    recorded: &IntegrationPreview,
) -> (action: Result<RecoverAction, Fault>)
    requires
        old(delegation).state == DelegationState::Applying,
    ensures
        match parent {
            FoundParent::HasResult => action == Ok::<RecoverAction, Fault>(RecoverAction::Applied)
                && *final(delegation) == *old(delegation),
            FoundParent::LacksResult(recovery) => if parent_is_unchanged(recovery, *recorded) {
                action == Ok::<RecoverAction, Fault>(RecoverAction::Apply) && *final(delegation)
                    == *old(delegation)
            } else {
                &&& action matches Err(fault) && fault@ == plain(
                    "delegation apply recovery found parent divergence"@,
                )
                &&& *final(delegation) == (Delegation {
                    state: DelegationState::RecoveryConflict,
                    preview: Some(recovery.recorded),
                    ..*old(delegation)
                })
            },
        },
        old(delegation).well_formed() ==> final(delegation).well_formed(),
{
    let recovery = match parent {
        FoundParent::HasResult => {
            return Ok(RecoverAction::Applied);
        },
        FoundParent::LacksResult(recovery) => recovery,
    };
    if recovery.clean && same_text(
        recovery.parent_revision.as_str(),
        recorded.parent_revision.as_str(),
    ) {
        return Ok(RecoverAction::Apply);
    }
    delegation.state = DelegationState::RecoveryConflict;
    delegation.preview = Some(recovery.recorded);
    Err(Fault::plain("delegation apply recovery found parent divergence"))
}

/// Records that a result is integrated, and has its child released where it ran.
pub fn finish_integration(delegation: &mut Delegation) -> (job: CleanupJob)
    requires
        old(delegation).state == DelegationState::Applying,
        old(delegation).result is Some,
    ensures
        releases(
            job,
            old(delegation).delegation_id@,
            old(delegation).child_id@,
            old(delegation).result->0.node_id@,
        ),
        *final(delegation) == (Delegation {
            state: DelegationState::CleanupQueued,
            cleanup_job_id: Some(job.job_id),
            result: Some(
                ProvisionalResult { integrated: true, ..old(delegation).result->0 },
            ),
            ..*old(delegation)
        }),
        old(delegation).well_formed() ==> final(delegation).well_formed(),
{
    let mut kept: Option<ProvisionalResult> = None;
    std::mem::swap(&mut kept, &mut delegation.result);
    let result = kept.unwrap();
    let job = schedule_cleanup(
        delegation.delegation_id.as_str(),
        delegation.child_id.as_str(),
        result.node_id.as_str(),
    );
    delegation.result = Some(
        ProvisionalResult {
            result_digest: result.result_digest,
            attempt_id: result.attempt_id,
            node_id: result.node_id,
            bundle_json: result.bundle_json,
            integrated: true,
        },
    );
    delegation.cleanup_job_id = Some(job.job_id.clone());
    delegation.state = DelegationState::CleanupQueued;
    job
}

/// A job that released a child: where it ran, and what it reported.
#[derive(Debug)]
pub struct CompletedCleanup {
    pub node_id: String,
    pub result: Value,
}

/// The node that a delegation was assigned to, or nothing.
pub open spec fn assigned_node(delegation: Delegation) -> Seq<char> {
    match delegation.assigned_node_id {
        Some(node) => node@,
        None => ""@,
    }
}

/// Whether a release was acknowledged by the node that held the child, for that child.
pub open spec fn acknowledges(delegation: Delegation, completed: CompletedCleanup) -> bool {
    let report = json_model(completed.result);
    &&& completed.node_id@ == assigned_node(delegation)
    &&& field_of(report, "protocolVersion"@) == Some(Json::Text(CLEANUP_PROTOCOL_VERSION@))
    &&& field_of(report, "delegationId"@) == Some(Json::Text(delegation.delegation_id@))
    &&& field_of(report, "childId"@) == Some(Json::Text(delegation.child_id@))
    &&& field_of(report, "released"@) == Some(Json::Bool(true))
}

/// The state in which a delegation ends once its child is released.
pub open spec fn end_of(state: DelegationState) -> DelegationState {
    match state {
        DelegationState::CancelCleanupQueued => DelegationState::Cancelled,
        DelegationState::FailureCleanupQueued => DelegationState::Failed,
        _ => DelegationState::Finalized,
    }
}

/// A delegation after its release was looked at.
pub open spec fn after_cleanup(
    delegation: Delegation,
    completed: Option<CompletedCleanup>,
) -> Result<Delegation, FaultView> {
    if !awaits_cleanup(delegation.state) {
        Ok(delegation)
    } else if delegation.cleanup_job_id is None {
        Err(plain("cleanup job linkage missing"@))
    } else {
        match completed {
            None => Ok(delegation),
            Some(report) => if !acknowledges(delegation, report) {
                Err(plain("delegation cleanup acknowledgement binding mismatch"@))
            } else {
                Ok(
                    Delegation {
                        state: end_of(delegation.state),
                        cleanup_acknowledged: true,
                        ..delegation
                    },
                )
            },
        }
    }
}

fn text_field_is(value: &Value, key: &str, expected: &str) -> (yes: bool)
    ensures
        yes == (field_of(json_model(*value), key@) == Some(Json::Text(expected@))),
{
    match field(value, key) {
        Some(inner) => match text_in(inner) {
            Some(text) => same_text(text, expected),
            None => false,
        },
        None => false,
    }
}

fn is_acknowledged(delegation: &Delegation, completed: &CompletedCleanup) -> (yes: bool)
    ensures
        yes == acknowledges(*delegation, *completed),
{
    let same_node = match &delegation.assigned_node_id {
        Some(node) => same_text(completed.node_id.as_str(), node.as_str()),
        None => same_text(completed.node_id.as_str(), ""),
    };
    let released = match field(&completed.result, "released") {
        Some(inner) => match bool_in(inner) {
            Some(flag) => flag,
            None => false,
        },
        None => false,
    };
    same_node && released && text_field_is(
        &completed.result,
        "protocolVersion",
        CLEANUP_PROTOCOL_VERSION,
    ) && text_field_is(&completed.result, "delegationId", delegation.delegation_id.as_str())
        && text_field_is(&completed.result, "childId", delegation.child_id.as_str())
}

/// Ends a delegation whose child was released, given what became of the job that releases
/// it. Where that job is not done, or there is none to wait for, nothing changes.
pub fn reconcile_cleanup(delegation: &mut Delegation, completed: Option<&CompletedCleanup>) -> (outcome:
    Result<(), Fault>)
    ensures
        ({
            let after = after_cleanup(
                *old(delegation),
                match completed {
                    Some(report) => Some(*report),
                    None => None,
                },
            );
            match outcome {
                Ok(()) => after == Ok::<Delegation, FaultView>(*final(delegation)),
                Err(fault) => after == Err::<Delegation, FaultView>(fault@) && *final(delegation)
                    == *old(delegation),
            }
        }),
        old(delegation).well_formed() ==> final(delegation).well_formed(),
{
    let end = match delegation.state {
        DelegationState::CleanupQueued => DelegationState::Finalized,
        DelegationState::CancelCleanupQueued => DelegationState::Cancelled,
        DelegationState::FailureCleanupQueued => DelegationState::Failed,
        _ => {
            return Ok(());
        },
    };
    if delegation.cleanup_job_id.is_none() {
        return Err(Fault::plain("cleanup job linkage missing"));
    }
    match completed {
        None => Ok(()),
        Some(report) => {
            if !is_acknowledged(delegation, report) {
                return Err(
                    Fault::plain("delegation cleanup acknowledgement binding mismatch"),
                );
            }
            delegation.state = end;
            delegation.cleanup_acknowledged = true;
            Ok(())
        },
    }
}

/// What is done about a delegation when the daemon starts.
#[derive(Debug)]
pub enum ReconcileAction {
    /// Nothing: it has ended, or waits for someone.
    Leave,
    /// Integrate it under the key with which that was begun.
    Integrate(String),
    /// Report a fault.
    Complain(Fault),
    /// See whether its child has been released.
    ReconcileCleanup,
    /// Collect its result.
    Collect,
}

/// What is done about a delegation when the daemon starts.
pub fn reconcile_all(delegation: &Delegation) -> (action: ReconcileAction)
    ensures
        match delegation.state {
            DelegationState::Applying => match delegation.finalization_key {
                Some(key) => action matches ReconcileAction::Integrate(used) && used@ == key@,
                None => action matches ReconcileAction::Complain(fault) && fault@ == plain(
                    "applying delegation omitted finalization key"@,
                ),
            },
            DelegationState::CleanupQueued
            | DelegationState::CancelCleanupQueued
            | DelegationState::FailureCleanupQueued => action is ReconcileCleanup,
            DelegationState::Queued | DelegationState::CancelRequested => action is Collect,
            _ => action is Leave,
        },
        delegation.well_formed() ==> !(action is Complain),
{
    match delegation.state {
        DelegationState::Applying => match &delegation.finalization_key {
            Some(key) => ReconcileAction::Integrate(key.clone()),
            None => ReconcileAction::Complain(
                Fault::plain("applying delegation omitted finalization key"),
            ),
        },
        DelegationState::CleanupQueued
        | DelegationState::CancelCleanupQueued
        | DelegationState::FailureCleanupQueued => ReconcileAction::ReconcileCleanup,
        DelegationState::Queued | DelegationState::CancelRequested => ReconcileAction::Collect,
        _ => ReconcileAction::Leave,
    }
}

/// What the daemon says of a delegation that it could not take up.
pub fn recovery_notice(delegation_id: &str, fault: &Fault) -> (notice: String)
    ensures
        notice@ == "coven daemon: delegation "@ + delegation_id@ + " recovery: "@ + fault@.chain(),
{
    let start = joined("coven daemon: delegation ", delegation_id);
    let middle = joined(start.as_str(), " recovery: ");
    joined(middle.as_str(), fault.chain().as_str())
}

/// How a delegation stands, as it is reported.
#[derive(Debug)]
pub struct DelegationStatus {
    pub protocol_version: String,
    pub delegation_id: String,
    pub child_id: String,
    pub job_id: String,
    pub state: String,
    pub base_revision: String,
    pub parent_repo: String,
    pub assigned_node_id: Option<String>,
    pub preview: Option<Value>,
    pub finalization_key: Option<String>,
    pub cleanup_job_id: Option<String>,
    pub cleanup_acknowledged: bool,
    pub failure: Option<Value>,
}

/// What an optional value holds.
pub open spec fn optional_model(value: Option<Value>) -> Option<Json> {
    match value {
        Some(inner) => Some(json_model(inner)),
        None => None,
    }
}

/// Whether a report tells how a delegation stands.
pub open spec fn reports(status: DelegationStatus, delegation: Delegation) -> bool {
    &&& status.protocol_version@ == PROTOCOL_VERSION@
    &&& status.delegation_id@ == delegation.delegation_id@
    &&& status.child_id@ == delegation.child_id@
    &&& status.job_id@ == delegation.job_id@
    &&& status.state@ == delegation.state.name_text()
    &&& status.base_revision@ == delegation.base_revision@
    &&& status.parent_repo@ == delegation.parent_repo@
    &&& optional_view(status.assigned_node_id) == optional_view(delegation.assigned_node_id)
    &&& optional_model(status.preview) == optional_model(delegation.preview)
    &&& optional_view(status.finalization_key) == optional_view(delegation.finalization_key)
    &&& optional_view(status.cleanup_job_id) == optional_view(delegation.cleanup_job_id)
    &&& status.cleanup_acknowledged == delegation.cleanup_acknowledged
    &&& optional_model(status.failure) == optional_model(delegation.failure)
}

fn optional_copy(text: &Option<String>) -> (copy: Option<String>)
    ensures
        optional_view(copy) == optional_view(*text),
{
    match text {
        Some(inner) => Some(inner.clone()),
        None => None,
    }
}

fn optional_value_copy(value: &Option<Value>) -> (copy: Option<Value>)
    ensures
        optional_model(copy) == optional_model(*value),
{
    match value {
        Some(inner) => Some(inner.clone()),
        None => None,
    }
}

/// How a delegation stands, where there is one.
pub fn status(delegation: Option<&Delegation>) -> (status: Result<DelegationStatus, Fault>)
    ensures
        match (status, delegation) {
            (Ok(report), Some(delegation)) => reports(report, *delegation),
            (Err(fault), None) => fault@ == caused(
                "delegation was not found"@,
                "Query returned no rows"@,
            ),
            _ => false,
        },
{
    match delegation {
        None => Err(Fault::caused("delegation was not found", "Query returned no rows")),
        Some(delegation) => Ok(
            DelegationStatus {
                protocol_version: PROTOCOL_VERSION.to_owned(),
                delegation_id: delegation.delegation_id.clone(),
                child_id: delegation.child_id.clone(),
                job_id: delegation.job_id.clone(),
                state: delegation.state.name(),
                base_revision: delegation.base_revision.clone(),
                parent_repo: delegation.parent_repo.clone(),
                assigned_node_id: optional_copy(&delegation.assigned_node_id),
                preview: optional_value_copy(&delegation.preview),
                finalization_key: optional_copy(&delegation.finalization_key),
                cleanup_job_id: optional_copy(&delegation.cleanup_job_id),
                cleanup_acknowledged: delegation.cleanup_acknowledged,
                failure: optional_value_copy(&delegation.failure),
            },
        ),
    }
}

/// A delegation that has ended stays as it is: nothing is collected for it, and looking at
/// its release changes nothing.
pub proof fn ended_delegations_stay(delegation: Delegation, completed: Option<CompletedCleanup>)
    requires
        has_ended(delegation.state),
    ensures
        collect_action(delegation.state) == CollectAction::ReconcileCleanup,
        after_cleanup(delegation, completed) == Ok::<Delegation, FaultView>(delegation),
{
}

/// A child's resources count as released only where the node that was assigned to it has
/// acknowledged that, and the delegation has then ended.
pub proof fn release_needs_an_acknowledgement(
    delegation: Delegation,
    completed: Option<CompletedCleanup>,
)
    requires
        !delegation.cleanup_acknowledged,
        after_cleanup(delegation, completed) is Ok,
        after_cleanup(delegation, completed)->Ok_0.cleanup_acknowledged,
    ensures
        completed is Some,
        acknowledges(delegation, completed->0),
        completed->0.node_id@ == assigned_node(delegation),
        has_ended(after_cleanup(delegation, completed)->Ok_0.state),
{
}

/// Once a result is being integrated under a key, no other key is served, and the same key
/// never applies the result anew from the start.
pub proof fn integration_belongs_to_one_key(
    delegation: Delegation,
    preview: Option<IntegrationPreview>,
    first: Seq<char>,
    second: Seq<char>,
)
    requires
        delegation.state == DelegationState::Applying || delegation.state
            == DelegationState::CleanupQueued || delegation.state == DelegationState::Finalized,
        optional_view(delegation.finalization_key) == Some(first),
    ensures
        second != first ==> integrate_outcome(delegation, preview, second) is Err,
        !(integrate_outcome(delegation, preview, second) matches Ok(IntegrateView::Apply(_))),
{
}

/// A delegation that was integrated under a key reports that again under the same key.
pub proof fn integration_can_be_repeated(
    delegation: Delegation,
    preview: Option<IntegrationPreview>,
    key: Seq<char>,
)
    requires
        is_id(key),
        delegation.well_formed(),
        delegation.state == DelegationState::CleanupQueued || delegation.state
            == DelegationState::Finalized,
        optional_view(delegation.finalization_key) == Some(key),
    ensures
        integrate_outcome(delegation, preview, key) == Ok::<IntegrateView, FaultView>(
            IntegrateView::ReconcileCleanup,
        ),
{
}

/// How a delegation ends: once the node that was assigned to it has acknowledged the release
/// of its child, one that was being cancelled is cancelled, one whose child failed has failed,
/// and one that was integrated is final. Nothing else of it changes.
pub proof fn releases_end_delegations(delegation: Delegation, report: CompletedCleanup)
    requires
        delegation.cleanup_job_id is Some,
        acknowledges(delegation, report),
    ensures
        ({
            let after = after_cleanup(delegation, Some(report));
            let ended = after->Ok_0;
            &&& after is Ok
            &&& delegation.state == DelegationState::CancelCleanupQueued ==> ended.state
                == DelegationState::Cancelled && ended.cleanup_acknowledged
            &&& delegation.state == DelegationState::FailureCleanupQueued ==> ended.state
                == DelegationState::Failed && ended.cleanup_acknowledged
            &&& delegation.state == DelegationState::CleanupQueued ==> ended.state
                == DelegationState::Finalized && ended.cleanup_acknowledged
            &&& delegation.state != DelegationState::CancelCleanupQueued && delegation.state
                != DelegationState::FailureCleanupQueued && delegation.state
                != DelegationState::CleanupQueued ==> ended == delegation
            &&& ended == (Delegation {
                state: ended.state,
                cleanup_acknowledged: ended.cleanup_acknowledged,
                ..delegation
            })
        }),
{
}

/// What is looked at before a delegation ends: it waits for a release, names the job of it,
/// and the job's report binds to it. Without a report it waits on; a report that does not
/// bind is refused, and so is one where the delegation names no job.
pub proof fn releases_are_waited_for(delegation: Delegation, completed: Option<CompletedCleanup>)
    requires
        delegation.state == DelegationState::CancelCleanupQueued || delegation.state
            == DelegationState::FailureCleanupQueued || delegation.state
            == DelegationState::CleanupQueued,
    ensures
        delegation.cleanup_job_id is None ==> after_cleanup(delegation, completed) == Err::<
            Delegation,
            FaultView,
        >(plain("cleanup job linkage missing"@)),
        delegation.cleanup_job_id is Some && completed is None ==> after_cleanup(
            delegation,
            completed,
        ) == Ok::<Delegation, FaultView>(delegation),
        delegation.cleanup_job_id is Some && completed is Some && !acknowledges(
            delegation,
            completed->0,
        ) ==> after_cleanup(delegation, completed) == Err::<Delegation, FaultView>(
            plain("delegation cleanup acknowledgement binding mismatch"@),
        ),
{
}

/// A report acknowledges a release if and only if it comes from the node that was assigned to
/// the delegation (from none where none was), speaks the protocol of releases, names the
/// delegation and its child, and says that the child is released.
pub proof fn acknowledgements_bind(delegation: Delegation, completed: CompletedCleanup)
    ensures
        ({
            let report = json_model(completed.result);
            acknowledges(delegation, completed) <==> {
                &&& delegation.assigned_node_id matches Some(node) ==> completed.node_id@ == node@
                &&& delegation.assigned_node_id is None ==> completed.node_id@.len() == 0
                &&& field_of(report, "protocolVersion"@) == Some(
                    Json::Text("coven.delegation-cleanup.v1"@),
                )
                &&& field_of(report, "delegationId"@) == Some(
                    Json::Text(delegation.delegation_id@),
                )
                &&& field_of(report, "childId"@) == Some(Json::Text(delegation.child_id@))
                &&& field_of(report, "released"@) == Some(Json::Bool(true))
            }
        }),
{
    reveal_strlit("");
    if completed.node_id@.len() == 0 {
        assert(completed.node_id@ =~= ""@);
    }
}

/// A result is applied for the first time only where it is there, was found ready, and its
/// preview is; the parent must then be at the revision of the preview. An apply that was
/// begun is taken up again, and one that was finished is reported, under its own key alone.
pub proof fn integrations_go_forward(
    delegation: Delegation,
    preview: Option<IntegrationPreview>,
    key: Seq<char>,
)
    requires
        is_id(key),
        delegation.result is Some,
    ensures
        ({
            let outcome = integrate_outcome(delegation, preview, key);
            let own = optional_view(delegation.finalization_key) == Some(key);
            match delegation.state {
                DelegationState::ReadyToIntegrate => match preview {
                    Some(recorded) => outcome == Ok::<IntegrateView, FaultView>(
                        IntegrateView::Apply(recorded.parent_revision@),
                    ),
                    None => outcome == Err::<IntegrateView, FaultView>(
                        plain("delegation preview missing"@),
                    ),
                },
                DelegationState::Applying => if preview is None {
                    outcome == Err::<IntegrateView, FaultView>(
                        plain("delegation preview missing"@),
                    )
                } else if own {
                    outcome == Ok::<IntegrateView, FaultView>(IntegrateView::Recover)
                } else {
                    outcome == Err::<IntegrateView, FaultView>(
                        plain("delegation apply is owned by another finalization key"@),
                    )
                },
                DelegationState::CleanupQueued | DelegationState::Finalized => if own {
                    outcome == Ok::<IntegrateView, FaultView>(IntegrateView::ReconcileCleanup)
                } else {
                    outcome == Err::<IntegrateView, FaultView>(
                        plain("delegation was finalized with another idempotency key"@),
                    )
                },
                _ => outcome == Err::<IntegrateView, FaultView>(
                    plain("delegation is not ready to integrate"@),
                ),
            }
        }),
{
}

/// A key that is no identifier is refused first, and then a delegation without a result.
pub proof fn integrations_need_a_key_and_a_result(
    delegation: Delegation,
    preview: Option<IntegrationPreview>,
    key: Seq<char>,
)
    ensures
        !is_id(key) ==> integrate_outcome(delegation, preview, key) == Err::<
            IntegrateView,
            FaultView,
        >(plain("finalizationKey has an invalid format"@)),
        is_id(key) && delegation.result is None ==> integrate_outcome(delegation, preview, key)
            == Err::<IntegrateView, FaultView>(
            caused("delegation has no provisional result"@, "Query returned no rows"@),
        ),
{
    reveal_strlit("finalizationKey");
    reveal_strlit(" has an invalid format");
    reveal_strlit("finalizationKey has an invalid format");
    assert("finalizationKey"@ + " has an invalid format"@
        =~= "finalizationKey has an invalid format"@);
}

/// An apply is begun again only where the result still goes in cleanly and the parent is at
/// the revision at which it was.
pub proof fn recoveries_need_the_same_parent(
    recovery: IntegrationPreview,
    recorded: IntegrationPreview,
)
    ensures
        parent_is_unchanged(recovery, recorded) <==> recovery.clean
            && recovery.parent_revision@ == recorded.parent_revision@,
{
}

/// A report tells of each thing what is recorded of it, and calls the state by its name.
pub proof fn reports_are_faithful(status: DelegationStatus, delegation: Delegation)
    requires
        reports(status, delegation),
    ensures
        status.protocol_version@ == "coven.delegation.v1"@,
        status.delegation_id@ == delegation.delegation_id@,
        status.child_id@ == delegation.child_id@,
        status.job_id@ == delegation.job_id@,
        status.base_revision@ == delegation.base_revision@,
        status.parent_repo@ == delegation.parent_repo@,
        status.cleanup_acknowledged == delegation.cleanup_acknowledged,
        status.assigned_node_id is Some <==> delegation.assigned_node_id is Some,
        delegation.assigned_node_id matches Some(node) ==> status.assigned_node_id->0@ == node@,
        status.finalization_key is Some <==> delegation.finalization_key is Some,
        delegation.finalization_key matches Some(key) ==> status.finalization_key->0@ == key@,
        status.cleanup_job_id is Some <==> delegation.cleanup_job_id is Some,
        delegation.cleanup_job_id matches Some(job) ==> status.cleanup_job_id->0@ == job@,
        status.preview is Some <==> delegation.preview is Some,
        delegation.preview matches Some(value) ==> json_model(status.preview->0) == json_model(
            value,
        ),
        status.failure is Some <==> delegation.failure is Some,
        delegation.failure matches Some(value) ==> json_model(status.failure->0) == json_model(
            value,
        ),
        delegation.state == DelegationState::Cancelled ==> status.state@ == "cancelled"@,
        delegation.state == DelegationState::Failed ==> status.state@ == "failed"@,
        delegation.state == DelegationState::Finalized ==> status.state@ == "finalized"@,
        delegation.state == DelegationState::ReadyToIntegrate ==> status.state@
            == "ready_to_integrate"@,
        delegation.state == DelegationState::Conflicted ==> status.state@ == "conflicted"@,
{
}

/// Integrating: the first apply marks the delegation as applying under its key; nothing else
/// that integrating answers changes it.
pub proof fn integrating_marks_the_delegation(
    delegation: &mut Delegation,
    preview: Option<&IntegrationPreview>,
    key: &str,
    action: Result<IntegrateAction, Fault>,
)
    requires
        call_ensures(integrate, (delegation, preview, key), action),
    ensures
        action matches Ok(IntegrateAction::Apply(revision)) ==> {
            &&& old(delegation).state == DelegationState::ReadyToIntegrate
            &&& preview matches Some(recorded) && revision@ == recorded.parent_revision@
            &&& final(delegation).state == DelegationState::Applying
            &&& final(delegation).finalization_key matches Some(kept) && kept@ == key@
            &&& final(delegation).result == old(delegation).result
        },
        !(action matches Ok(IntegrateAction::Apply(_))) ==> *final(delegation)
            == *old(delegation),
        action == Ok::<IntegrateAction, Fault>(IntegrateAction::Recover) ==> old(delegation).state
            == DelegationState::Applying,
        old(delegation).result is None ==> action is Err,
{
}

/// Taking up an apply: the parent has the result, or it is as it was and the result is applied
/// now, or the delegation is left in conflict with the new preview kept.
pub proof fn recovering_never_applies_twice(
    delegation: &mut Delegation,
    parent: FoundParent,
    recorded: &IntegrationPreview,
    action: Result<RecoverAction, Fault>,
)
    requires
        call_ensures(recover_integration, (delegation, parent, recorded), action),
    ensures
        parent is HasResult ==> action == Ok::<RecoverAction, Fault>(RecoverAction::Applied),
        action == Ok::<RecoverAction, Fault>(RecoverAction::Apply) ==> (parent matches
            FoundParent::LacksResult(now) && now.clean && now.parent_revision@
            == recorded.parent_revision@),
        parent matches FoundParent::LacksResult(now) ==> (!now.clean || now.parent_revision@
            != recorded.parent_revision@ ==> action is Err && final(delegation).state
            == DelegationState::RecoveryConflict && final(delegation).preview == Some(
            now.recorded,
        )),
        action is Ok ==> *final(delegation) == *old(delegation),
        action matches Err(fault) ==> fault@ == plain(
            "delegation apply recovery found parent divergence"@,
        ),
{
}

/// Finishing an apply marks the result as integrated and has the child released on the node
/// that made it.
pub proof fn finishing_releases_the_child(delegation: &mut Delegation, job: CleanupJob)
    requires
        call_ensures(finish_integration, (delegation,), job),
        old(delegation).result is Some,
    ensures
        releases(
            job,
            old(delegation).delegation_id@,
            old(delegation).child_id@,
            old(delegation).result->0.node_id@,
        ),
        final(delegation).state == DelegationState::CleanupQueued,
        final(delegation).cleanup_job_id == Some(job.job_id),
        final(delegation).result matches Some(result) && result.integrated && result.result_digest
            == old(delegation).result->0.result_digest,
        final(delegation).finalization_key == old(delegation).finalization_key,
{
}

/// Looking at a release changes a delegation only where its end is due: then it ends as it was
/// going to, cancelled, failed or final, and counts as released.
pub proof fn reconciling_ends_as_begun(
    delegation: &mut Delegation,
    completed: Option<&CompletedCleanup>,
    outcome: Result<(), Fault>,
)
    requires
        call_ensures(reconcile_cleanup, (delegation, completed), outcome),
    ensures
        outcome is Err ==> *final(delegation) == *old(delegation),
        completed is None ==> *final(delegation) == *old(delegation),
        *final(delegation) != *old(delegation) ==> {
            &&& final(delegation).cleanup_acknowledged
            &&& old(delegation).state == DelegationState::CancelCleanupQueued
                ==> final(delegation).state == DelegationState::Cancelled
            &&& old(delegation).state == DelegationState::FailureCleanupQueued
                ==> final(delegation).state == DelegationState::Failed
            &&& old(delegation).state == DelegationState::CleanupQueued
                ==> final(delegation).state == DelegationState::Finalized
            &&& old(delegation).state == DelegationState::CancelCleanupQueued || old(
                delegation,
            ).state == DelegationState::FailureCleanupQueued || old(delegation).state
                == DelegationState::CleanupQueued
        },
        completed matches Some(report) ==> (old(delegation).cleanup_job_id is Some && acknowledges(
            *old(delegation),
            *report,
        ) && old(delegation).state == DelegationState::CancelCleanupQueued ==> outcome is Ok
            && final(delegation).state == DelegationState::Cancelled),
{
}

/// When the daemon starts, an apply that was begun is taken up under its key, a release is
/// looked at, a job under way is collected, and all else is left.
pub proof fn startup_takes_delegations_up(delegation: &Delegation, action: ReconcileAction)
    requires
        call_ensures(reconcile_all, (delegation,), action),
    ensures
        action is Integrate <==> delegation.state == DelegationState::Applying
            && delegation.finalization_key is Some,
        action matches ReconcileAction::Integrate(key) ==> key@
            == delegation.finalization_key->0@,
        action is ReconcileCleanup <==> delegation.state == DelegationState::CleanupQueued
            || delegation.state == DelegationState::CancelCleanupQueued || delegation.state
            == DelegationState::FailureCleanupQueued,
        action is Collect <==> delegation.state == DelegationState::Queued || delegation.state
            == DelegationState::CancelRequested,
        action matches ReconcileAction::Complain(fault) ==> fault@ == plain(
            "applying delegation omitted finalization key"@,
        ),
        action is Complain <==> delegation.state == DelegationState::Applying
            && delegation.finalization_key is None,
{
}

/// Applying goes on only where the claim changed this delegation and no other.
pub proof fn claims_change_one_delegation(changed: usize, claimed: Result<(), Fault>)
    requires
        call_ensures(claim_integration, (changed,), claimed),
    ensures
        claimed is Ok <==> changed == 1,
        claimed matches Err(fault) ==> fault@ == plain(
            "delegation integration authority changed"@,
        ),
{
}

/// A delegation that is there is reported, and one that is not is told to be missing; what
/// could not be taken up is named.
pub proof fn delegations_are_reported(
    delegation: Option<&Delegation>,
    report: Result<DelegationStatus, Fault>,
    id: &str,
    fault: &Fault,
    notice: String,
)
    requires
        call_ensures(status, (delegation,), report),
        call_ensures(recovery_notice, (id, fault), notice),
    ensures
        report is Ok <==> delegation is Some,
        report matches Ok(told) ==> reports(told, *delegation->0),
        report matches Err(missing) ==> missing@ == caused(
            "delegation was not found"@,
            "Query returned no rows"@,
        ),
        notice@ == "coven daemon: delegation "@ + id@ + " recovery: "@ + fault@.chain(),
{
}

/// An action shows what it does.
pub proof fn actions_show_what_they_do(revision: String)
    ensures
        IntegrateAction::ReconcileCleanup@ is ReconcileCleanup,
        IntegrateAction::Apply(revision)@ == IntegrateView::Apply(revision@),
        IntegrateAction::Recover@ is Recover,
{
}

} // verus!
