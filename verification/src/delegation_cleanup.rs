//! The release of a child on the node that held it: its actor is stopped, its files removed.

use crate::delegation::CLEANUP_PROTOCOL_VERSION;
use crate::delegation_executor::{actor_request, actor_value, allocation_of, allocation_path};
use crate::fault::{plain, Fault, FaultView};
use crate::ids::{id_is_valid, is_id};
use crate::json::{
    bool_value, empty_object, field, field_of, json_model, text_value, unsigned_in,
    unsigned_value, with_field, Json,
};
use crate::text::{joined, same_text};
use serde_json::Value;
use vstd::prelude::*;
use vstd::string::*;

verus! {

/// A request to release a child.
#[derive(Debug)]
pub struct CleanupRequest {
    pub protocol_version: String,
    pub delegation_id: String,
    pub child_id: String,
    pub actor_id: String,
    pub generation: u64,
}

/// What is wrong with a request.
pub open spec fn request_fault(request: CleanupRequest) -> Option<FaultView> {
    if request.protocol_version@ != CLEANUP_PROTOCOL_VERSION@ || request.generation == 0 {
        Some(plain("invalid delegation cleanup protocol"@))
    } else if !is_id(request.delegation_id@) || !is_id(request.child_id@) || !is_id(
        request.actor_id@,
    ) {
        Some(plain("invalid delegation cleanup identity"@))
    } else {
        None
    }
}

/// The request that asks how the actor stands.
pub open spec fn status_model(request: CleanupRequest, protocol: Seq<char>) -> Json {
    Json::Object(
        actor_request(
            protocol,
            "cleanup-status-"@ + request.child_id@,
            "status"@,
            request.actor_id@,
        ),
    )
}

/// The request that stops the actor.
pub open spec fn stop_model(request: CleanupRequest, protocol: Seq<char>) -> Json {
    Json::Object(
        actor_request(
            protocol,
            "cleanup-"@ + request.child_id@,
            "stop"@,
            request.actor_id@,
        ).insert("generation"@, Json::Unsigned(request.generation as nat)),
    )
}

/// What is answered once a child is released.
pub open spec fn answer_model(request: CleanupRequest) -> Json {
    Json::Object(
        Map::<Seq<char>, Json>::empty().insert(
            "protocolVersion"@,
            Json::Text(CLEANUP_PROTOCOL_VERSION@),
        ).insert("delegationId"@, Json::Text(request.delegation_id@)).insert(
            "childId"@,
            Json::Text(request.child_id@),
        ).insert("released"@, Json::Bool(true)),
    )
}

/// The release of a child: where its files are, what the harness host is asked, and what is
/// answered in the end.
#[derive(Debug)]
pub struct CleanupPlan {
    pub allocation: String,
    pub status_request: Value,
    pub stop_request: Value,
    pub answer: Value,
}

/// Plans the release of a child. The actor, where there is one, is asked how it stands and
/// then stopped; the files are removed last.
pub fn run(coven_home: &str, request: &CleanupRequest, harness_protocol: &str, windows: bool) -> (plan:
    Result<CleanupPlan, Fault>)
    ensures
        match plan {
            Ok(plan) => {
                &&& request_fault(*request) is None
                &&& plan.allocation@ == allocation_of(
                    coven_home@,
                    request.delegation_id@,
                    request.child_id@,
                    windows,
                )
                &&& json_model(plan.status_request) == status_model(*request, harness_protocol@)
                &&& json_model(plan.stop_request) == stop_model(*request, harness_protocol@)
                &&& json_model(plan.answer) == answer_model(*request)
            },
            Err(fault) => request_fault(*request) == Some(fault@),
        },
{
    if !same_text(request.protocol_version.as_str(), CLEANUP_PROTOCOL_VERSION)
        || request.generation == 0 {
        return Err(Fault::plain("invalid delegation cleanup protocol"));
    }
    if !id_is_valid(request.delegation_id.as_str()) || !id_is_valid(request.child_id.as_str())
        || !id_is_valid(request.actor_id.as_str()) {
        return Err(Fault::plain("invalid delegation cleanup identity"));
    }
    let allocation = allocation_path(
        coven_home,
        request.delegation_id.as_str(),
        request.child_id.as_str(),
        windows,
    );
    let status_request = actor_value(
        harness_protocol,
        joined("cleanup-status-", request.child_id.as_str()).as_str(),
        "status",
        request.actor_id.as_str(),
    );
    let stop = actor_value(
        harness_protocol,
        joined("cleanup-", request.child_id.as_str()).as_str(),
        "stop",
        request.actor_id.as_str(),
    );
    let stop_request = with_field(stop, "generation", unsigned_value(request.generation));
    let answer = with_field(
        empty_object(),
        "protocolVersion",
        text_value(CLEANUP_PROTOCOL_VERSION),
    );
    let answer = with_field(answer, "delegationId", text_value(request.delegation_id.as_str()));
    let answer = with_field(answer, "childId", text_value(request.child_id.as_str()));
    let answer = with_field(answer, "released", bool_value(true));
    Ok(CleanupPlan { allocation, status_request, stop_request, answer })
}

/// Whether the actor is to be stopped, given the harness host's reply on how it stands. No
/// reply means that there is none. One of another generation is not touched.
pub fn stop_is_due(request: &CleanupRequest, reply: Option<&Value>) -> (due: Result<bool, Fault>)
    ensures
        match (due, reply) {
            (Ok(due), None) => !due,
            (Ok(due), Some(actor)) => due && field_of(json_model(*actor), "generation"@) == Some(
                Json::Unsigned(request.generation as nat),
            ),
            (Err(fault), Some(actor)) => field_of(json_model(*actor), "generation"@) != Some(
                Json::Unsigned(request.generation as nat),
            ) && fault@ == plain("actor generation conflict"@),
            (Err(_), None) => false,
        },
{
    match reply {
        None => Ok(false),
        Some(actor) => {
            let same = match field(actor, "generation") {
                Some(inner) => match unsigned_in(inner) {
                    Some(generation) => generation == request.generation,
                    None => false,
                },
                None => false,
            };
            if same {
                Ok(true)
            } else {
                Err(Fault::plain("actor generation conflict"))
            }
        },
    }
}

/// What a release answers is what the delegation's owner takes as its acknowledgement.
pub proof fn answers_acknowledge(
    request: CleanupRequest,
    delegation: crate::delegation::Delegation,
    completed: crate::integration::CompletedCleanup,
)
    requires
        request.delegation_id@ == delegation.delegation_id@,
        request.child_id@ == delegation.child_id@,
        json_model(completed.result) == answer_model(request),
        completed.node_id@ == crate::integration::assigned_node(delegation),
    ensures
        crate::integration::acknowledges(delegation, completed),
{
    reveal_strlit("protocolVersion");
    reveal_strlit("delegationId");
    reveal_strlit("childId");
    reveal_strlit("released");
    assert("protocolVersion"@.len() == 15);
    assert("delegationId"@.len() == 12);
    assert("childId"@.len() == 7);
    assert("released"@.len() == 8);
}

/// A release is carried out if and only if it speaks the protocol of releases, names a
/// generation, and the delegation, the child and the actor are named by identifiers.
pub proof fn releases_are_carried_out_where_they_can_be(request: CleanupRequest)
    ensures
        request_fault(request) is None <==> request.protocol_version@
            == "coven.delegation-cleanup.v1"@ && request.generation >= 1 && is_id(
            request.delegation_id@,
        ) && is_id(request.child_id@) && is_id(request.actor_id@),
        request.protocol_version@ != "coven.delegation-cleanup.v1"@ || request.generation == 0
            ==> request_fault(request) == Some(plain("invalid delegation cleanup protocol"@)),
        request.protocol_version@ == "coven.delegation-cleanup.v1"@ && request.generation >= 1
            && request_fault(request) is Some ==> request_fault(request) == Some(
            plain("invalid delegation cleanup identity"@),
        ),
{
}

/// The harness host is asked how the actor of the request stands, and to stop that actor in
/// the generation of the request, each in its own protocol and under a name made of the
/// child's; the answer names the delegation and the child, and says that it is released.
pub proof fn releases_are_about_the_request(request: CleanupRequest, protocol: Seq<char>)
    ensures
        ({
            let asked = status_model(request, protocol);
            let stop = stop_model(request, protocol);
            let answer = answer_model(request);
            &&& field_of(asked, "protocolVersion"@) == Some(Json::Text(protocol))
            &&& field_of(asked, "requestId"@) == Some(
                Json::Text("cleanup-status-"@ + request.child_id@),
            )
            &&& field_of(asked, "operation"@) == Some(Json::Text("status"@))
            &&& field_of(asked, "actorId"@) == Some(Json::Text(request.actor_id@))
            &&& field_of(asked, "generation"@) is None
            &&& field_of(stop, "protocolVersion"@) == Some(Json::Text(protocol))
            &&& field_of(stop, "requestId"@) == Some(Json::Text("cleanup-"@ + request.child_id@))
            &&& field_of(stop, "operation"@) == Some(Json::Text("stop"@))
            &&& field_of(stop, "actorId"@) == Some(Json::Text(request.actor_id@))
            &&& field_of(stop, "generation"@) == Some(Json::Unsigned(request.generation as nat))
            &&& field_of(answer, "protocolVersion"@) == Some(
                Json::Text("coven.delegation-cleanup.v1"@),
            )
            &&& field_of(answer, "delegationId"@) == Some(Json::Text(request.delegation_id@))
            &&& field_of(answer, "childId"@) == Some(Json::Text(request.child_id@))
            &&& field_of(answer, "released"@) == Some(Json::Bool(true))
        }),
{
    reveal_strlit("protocolVersion");
    reveal_strlit("requestId");
    reveal_strlit("operation");
    reveal_strlit("actorId");
    reveal_strlit("generation");
    reveal_strlit("delegationId");
    reveal_strlit("childId");
    reveal_strlit("released");
    assert("protocolVersion"@.len() == 15);
    assert("requestId"@.len() == 9);
    assert("operation"@.len() == 9);
    assert("actorId"@.len() == 7);
    assert("generation"@.len() == 10);
    assert("delegationId"@.len() == 12);
    assert("childId"@.len() == 7);
    assert("released"@.len() == 8);
    assert("requestId"@[0] == 'r');
    assert("operation"@[0] == 'o');
    assert("actorId"@[0] == 'a');
    assert("childId"@[0] == 'c');
}

/// A release is planned for the child's own directory, and only where the request is in order.
pub proof fn releases_remove_the_childs_directory(
    coven_home: &str,
    request: &CleanupRequest,
    protocol: &str,
    windows: bool,
    plan: Result<CleanupPlan, Fault>,
)
    requires
        call_ensures(run, (coven_home, request, protocol, windows), plan),
    ensures
        plan is Ok <==> request_fault(*request) is None,
        plan matches Err(fault) ==> request_fault(*request) == Some(fault@),
        plan matches Ok(plan) ==> plan.allocation@ == allocation_of(
            coven_home@,
            request.delegation_id@,
            request.child_id@,
            windows,
        ) && json_model(plan.status_request) == status_model(*request, protocol@) && json_model(
            plan.stop_request,
        ) == stop_model(*request, protocol@) && json_model(plan.answer) == answer_model(*request),
{
}

/// An actor is stopped if and only if there is one, in the generation of the request; one of
/// another generation is a conflict.
pub proof fn actors_of_other_generations_are_left(
    request: &CleanupRequest,
    reply: Option<&Value>,
    due: Result<bool, Fault>,
)
    requires
        call_ensures(stop_is_due, (request, reply), due),
    ensures
        reply is None ==> due == Ok::<bool, Fault>(false),
        reply matches Some(actor) ==> {
            let same = field_of(json_model(*actor), "generation"@) == Some(
                Json::Unsigned(request.generation as nat),
            );
            &&& same ==> due == Ok::<bool, Fault>(true)
            &&& !same ==> (due matches Err(fault) && fault@ == plain("actor generation conflict"@))
        },
{
}

} // verus!
