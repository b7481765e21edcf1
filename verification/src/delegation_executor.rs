//! The work of a delegation on the node that took it up: a workspace is restored, an actor is
//! given the task, its changes are taken as a patch, and the result is sealed and kept.

use crate::delegation::PROTOCOL_VERSION;
use crate::digest::{base64_url, sha256, text_digest, text_digest_of};
use crate::fault::{caused, plain, Fault, FaultView, Probe};
use crate::ids::{id_is_valid, is_id, is_id_char};
use crate::json::{
    empty_object, field, field_of, json_encoding, json_model, json_text, text_in, text_value,
    texts_model, texts_value, unsigned_in, unsigned_value, with_field, Json,
};
use crate::paths::{
    begins_with_drive, has_drive, inside_on, join_path, joined_path, path_inside_on, slashed,
    with_slashes,
};
use crate::text::{byte_len, chars_of, joined, pieces, same_text, split_text, views};
use serde_json::Value;
use vstd::prelude::*;
use vstd::string::*;
use vstd::utf8::encode_utf8;

verus! {

/// The most files that a task writes.
pub const MAX_FILES: usize = 256;

/// The most bytes of a file that a task writes.
pub const MAX_FILE_BYTES: usize = 1_048_576;

/// What a node is told of a delegation.
#[derive(Debug)]
pub struct Payload {
    pub protocol_version: String,
    pub delegation_id: String,
    pub child_id: String,
    pub attempt_id: String,
    pub node_id: String,
    pub base_revision: String,
    pub task: String,
    pub harness: String,
    pub actor_id: String,
    pub generation: u64,
    pub workspace_driver: String,
    pub base_checkpoint: Value,
    pub result_locator: Value,
    pub placement_observation_digest: Option<String>,
}

/// A file that a task writes.
#[derive(Debug)]
pub struct FakeWrite {
    pub path: String,
    pub content: String,
}

/// A task: the files that it writes.
#[derive(Debug)]
pub struct FakeTask {
    pub write_files: Vec<FakeWrite>,
}

/// The digest of the observation under which a node was chosen: the one that was claimed, or
/// one that marks a delegation without a claim.
pub open spec fn observation_of(payload: Payload) -> Seq<char> {
    match payload.placement_observation_digest {
        Some(digest) => digest@,
        None => text_digest_of(
            "coven.legacy-unbound-placement.v1\n"@ + payload.node_id@ + "\n"@
                + payload.attempt_id@,
        ),
    }
}

/// The digest of the observation under which a node was chosen.
pub fn placement_observation_digest(payload: &Payload) -> (digest: String)
    ensures
        digest@ == observation_of(*payload),
        payload.placement_observation_digest is None ==> digest@.len() == 43,
{
    match &payload.placement_observation_digest {
        Some(digest) => digest.clone(),
        None => {
            let start = joined("coven.legacy-unbound-placement.v1\n", payload.node_id.as_str());
            let middle = joined(start.as_str(), "\n");
            text_digest(joined(middle.as_str(), payload.attempt_id.as_str()).as_str())
        },
    }
}

/// What is wrong with a payload, the first thing first, given what checking the evidence of
/// the node's platform came to.
pub open spec fn payload_fault(payload: Payload, platform: Result<(), Fault>) -> Option<FaultView> {
    if payload.protocol_version@ != PROTOCOL_VERSION@ {
        Some(plain("unsupported delegation protocol"@))
    } else if !is_id(payload.delegation_id@) {
        Some(plain("delegationId"@ + " invalid"@))
    } else if !is_id(payload.child_id@) {
        Some(plain("childId"@ + " invalid"@))
    } else if !is_id(payload.actor_id@) {
        Some(plain("actorId"@ + " invalid"@))
    } else if payload.generation == 0 || payload.harness@ != "fake"@ {
        Some(plain("invalid harness generation"@))
    } else {
        match platform {
            Err(fault) => Some(fault@),
            Ok(_) => None,
        }
    }
}

fn check_id(value: &str, name: &str) -> (checked: Result<(), Fault>)
    ensures
        match checked {
            Ok(()) => is_id(value@),
            Err(fault) => !is_id(value@) && fault@ == plain(name@ + " invalid"@),
        },
{
    if id_is_valid(value) {
        Ok(())
    } else {
        Err(Fault::plain(joined(name, " invalid").as_str()))
    }
}

/// Refuses a payload that cannot be worked on.
pub fn validate(payload: &Payload, platform: Result<(), Fault>) -> (checked: Result<(), Fault>)
    ensures
        match checked {
            Ok(()) => payload_fault(*payload, platform) is None,
            Err(fault) => payload_fault(*payload, platform) == Some(fault@),
        },
{
    if !same_text(payload.protocol_version.as_str(), PROTOCOL_VERSION) {
        return Err(Fault::plain("unsupported delegation protocol"));
    }
    if let Err(fault) = check_id(payload.delegation_id.as_str(), "delegationId") {
        return Err(fault);
    }
    if let Err(fault) = check_id(payload.child_id.as_str(), "childId") {
        return Err(fault);
    }
    if let Err(fault) = check_id(payload.actor_id.as_str(), "actorId") {
        return Err(fault);
    }
    if payload.generation == 0 || !same_text(payload.harness.as_str(), "fake") {
        return Err(Fault::plain("invalid harness generation"));
    }
    platform
}

/// The places that belong to an attempt.
#[derive(Debug)]
pub struct AttemptPaths {
    pub allocation: String,
    pub attempt_root: String,
    pub workspace: String,
    pub result: String,
    pub payload_digest: String,
}

/// The directory that belongs to a child.
pub open spec fn allocation_of(
    coven_home: Seq<char>,
    delegation_id: Seq<char>,
    child_id: Seq<char>,
    windows: bool,
) -> Seq<char> {
    let base = inside_on(coven_home, "delegations"@, windows);
    joined_path(joined_path(base, delegation_id, windows), child_id, windows)
}

/// The directory that belongs to a child.
pub fn allocation_path(coven_home: &str, delegation_id: &str, child_id: &str, windows: bool) -> (path:
    String)
    ensures
        path@ == allocation_of(coven_home@, delegation_id@, child_id@, windows),
{
    let base = path_inside_on(coven_home, "delegations", windows);
    join_path(join_path(base.as_str(), delegation_id, windows).as_str(), child_id, windows)
}

/// The places that belong to an attempt.
pub fn attempt_paths(coven_home: &str, payload: &Payload, windows: bool) -> (paths: AttemptPaths)
    ensures
        paths.allocation@ == allocation_of(
            coven_home@,
            payload.delegation_id@,
            payload.child_id@,
            windows,
        ),
        paths.attempt_root@ == joined_path(
            inside_on(paths.allocation@, "attempts"@, windows),
            payload.attempt_id@,
            windows,
        ),
        paths.workspace@ == inside_on(paths.attempt_root@, "workspace"@, windows),
        paths.result@ == inside_on(paths.attempt_root@, "result.json"@, windows),
        paths.payload_digest@ == inside_on(paths.attempt_root@, "payload.sha256"@, windows),
{
    let allocation = allocation_path(
        coven_home,
        payload.delegation_id.as_str(),
        payload.child_id.as_str(),
        windows,
    );
    let attempts = path_inside_on(allocation.as_str(), "attempts", windows);
    let attempt_root = join_path(attempts.as_str(), payload.attempt_id.as_str(), windows);
    let workspace = path_inside_on(attempt_root.as_str(), "workspace", windows);
    let result = path_inside_on(attempt_root.as_str(), "result.json", windows);
    let payload_digest = path_inside_on(attempt_root.as_str(), "payload.sha256", windows);
    AttemptPaths { allocation, attempt_root, workspace, result, payload_digest }
}

/// The digest of a payload, as it was received.
pub fn payload_digest(value: &Value) -> (digest: String)
    ensures
        digest@ == text_digest_of(json_encoding(json_model(*value))),
{
    text_digest(json_text(value).as_str())
}

/// Whether the digest of a payload is to be recorded: it is where none is. An attempt whose
/// payload has changed is refused.
pub fn admit_payload(stored: Probe<String>, digest: &str) -> (record: Result<bool, Fault>)
    ensures
        match (record, stored) {
            (Ok(true), Probe::Missing) => true,
            (Ok(false), Probe::Found(text)) => text@ == digest@,
            (Err(fault), Probe::Found(text)) => text@ != digest@ && fault@ == plain(
                "delegation replay changed immutable payload"@,
            ),
            (Err(fault), Probe::Failed(error)) => fault@ == plain(error@),
            _ => false,
        },
{
    match stored {
        Probe::Missing => Ok(true),
        Probe::Failed(error) => Err(Fault::plain(error.as_str())),
        Probe::Found(text) => if same_text(text.as_str(), digest) {
            Ok(false)
        } else {
            Err(Fault::plain("delegation replay changed immutable payload"))
        },
    }
}

/// How an attempt begins.
#[derive(Debug, Clone, Copy, PartialEq, Eq, Structural)]
pub enum Opening {
    /// Its result is there: give it back, unless the attempt is cancelled.
    Replay,
    /// Carry it out.
    Run,
}

/// Opens an attempt, given what checking the evidence of the node's platform came to, the
/// digest that is recorded of its payload and whether its result is there. Tells whether the
/// digest is to be recorded, and how the attempt begins. An attempt is never carried out
/// where its result is there, nor with another payload than the first time.
pub fn open_attempt(
    payload: &Payload,
    platform: Result<(), Fault>,
    stored: Probe<String>,
    digest: &str,
    has_result: bool,
) -> (opened: Result<(bool, Opening), Fault>)
    ensures
        match opened {
            Ok((record, opening)) => {
                &&& payload_fault(*payload, platform) is None
                &&& record == (stored is Missing)
                &&& stored !is Failed
                &&& stored matches Probe::Found(text) ==> text@ == digest@
                &&& opening == if has_result {
                    Opening::Replay
                } else {
                    Opening::Run
                }
            },
            Err(fault) => match payload_fault(*payload, platform) {
                Some(wrong) => fault@ == wrong,
                None => match stored {
                    Probe::Missing => false,
                    Probe::Failed(error) => fault@ == plain(error@),
                    Probe::Found(text) => text@ != digest@ && fault@ == plain(
                        "delegation replay changed immutable payload"@,
                    ),
                },
            },
        },
{
    if let Err(fault) = validate(payload, platform) {
        return Err(fault);
    }
    match admit_payload(stored, digest) {
        Err(fault) => Err(fault),
        Ok(record) => if has_result {
            Ok((record, Opening::Replay))
        } else {
            Ok((record, Opening::Run))
        },
    }
}

/// Whether a path stays below the directory that it is joined to: it does not begin at the
/// root or, on Windows, with a drive, never steps up, and does not begin with the directory
/// itself.
pub open spec fn is_confined(path: Seq<char>, windows: bool) -> bool {
    let even = slashed(path, windows);
    let parts = pieces(even, '/');
    &&& !(even.len() > 0 && even[0] == '/')
    &&& !(windows && has_drive(path))
    &&& parts[0] != "."@
    &&& forall|i: int| 0 <= i < parts.len() ==> #[trigger] parts[i] != ".."@
}

/// Refuses a path that leaves the directory it is joined to.
pub fn confined_relative(path: &str, windows: bool) -> (checked: Result<(), Fault>)
    ensures
        match checked {
            Ok(()) => is_confined(path@, windows),
            Err(fault) => !is_confined(path@, windows) && fault@ == plain(
                "delegation path escapes child root"@,
            ),
        },
{
    let even = with_slashes(path, windows);
    let chars = chars_of(even.as_str());
    let parts = split_text(even.as_str(), '/');
    let ghost texts = views(parts@);
    assert(forall|k: int| 0 <= k < parts@.len() ==> texts[k] == #[trigger] parts@[k]@);
    let rooted = chars.len() > 0 && chars[0] == '/';
    let on_drive = windows && begins_with_drive(path);
    let begins_here = parts.len() > 0 && same_text(parts[0].as_str(), ".");
    proof {
        reveal_with_fuel(pieces, 2);
        assert(texts.len() > 0);
    }
    if rooted || on_drive || begins_here {
        return Err(Fault::plain("delegation path escapes child root"));
    }
    let mut i: usize = 0;
    while i < parts.len()
        invariant
            i <= parts@.len(),
            texts == views(parts@),
            texts == pieces(slashed(path@, windows), '/'),
            forall|k: int| 0 <= k < parts@.len() ==> texts[k] == #[trigger] parts@[k]@,
            forall|k: int| 0 <= k < i ==> #[trigger] texts[k] != ".."@,
        decreases parts@.len() - i,
    {
        if same_text(parts[i].as_str(), "..") {
            assert(texts[i as int] == ".."@);
            return Err(Fault::plain("delegation path escapes child root"));
        }
        i += 1;
    }
    Ok(())
}

/// Refuses a path of which some part is a link, given for each part whether it is one.
pub fn ensure_no_symlink_ancestors(links: &Vec<bool>) -> (checked: Result<(), Fault>)
    ensures
        match checked {
            Ok(()) => forall|i: int| 0 <= i < links@.len() ==> !#[trigger] links@[i],
            Err(fault) => (exists|i: int| 0 <= i < links@.len() && #[trigger] links@[i]) && fault@
                == plain("delegation path crosses symlink"@),
        },
{
    let mut i: usize = 0;
    while i < links.len()
        invariant
            i <= links@.len(),
            forall|k: int| 0 <= k < i ==> !#[trigger] links@[k],
        decreases links@.len() - i,
    {
        if links[i] {
            return Err(Fault::plain("delegation path crosses symlink"));
        }
        i += 1;
    }
    Ok(())
}

/// What the requests of an attempt to the workspace driver and the harness host name.
#[derive(Debug)]
pub struct RunContext {
    pub workspace: String,
    pub workspace_protocol: String,
    pub harness_protocol: String,
    pub exclusions: Vec<String>,
    /// Whether the paths of the attempt are those of Windows.
    pub windows: bool,
}

/// A step of an attempt. A step that fails ends the attempt with its fault.
#[derive(Debug)]
pub enum RunStep {
    /// End if the attempt was cancelled.
    CheckCancelled,
    /// End if the attempt was cancelled, and stop the actor first.
    CheckOrStop(Value),
    /// End if the attempt was cancelled, and remove the written result and stop the actor
    /// first.
    CheckOrDiscard(Value),
    /// Remove the workspace of an earlier run, if there is one.
    RemoveWorkspace,
    /// Ask the workspace driver to restore the base.
    RestoreWorkspace(Value),
    /// Run git in the workspace.
    Git(Vec<String>),
    /// Ask the harness host to start the actor.
    StartActor(Value),
    /// Ask the harness host to hand the task to the actor.
    SendTask(Value),
    /// Write a file in the workspace, below no link.
    WriteFile(String, String),
    /// End unless the changes are in order.
    CheckDiff,
    /// Take the changes as a patch.
    TakePatch,
    /// Ask the workspace driver for a checkpoint of the changes.
    Checkpoint(Value),
    /// Make the result out of the patch and the checkpoint.
    SealResult,
    /// Write the result beside its place.
    WriteResult,
    /// Move the result to its place.
    PublishResult,
    /// End with a fault.
    Fail(Fault),
}

/// What a step does.
pub enum StepView {
    CheckCancelled,
    CheckOrStop(Json),
    CheckOrDiscard(Json),
    RemoveWorkspace,
    RestoreWorkspace(Json),
    Git(Seq<Seq<char>>),
    StartActor(Json),
    SendTask(Json),
    WriteFile(Seq<char>, Seq<char>),
    CheckDiff,
    TakePatch,
    Checkpoint(Json),
    SealResult,
    WriteResult,
    PublishResult,
    Fail(FaultView),
}

impl View for RunStep {
    type V = StepView;

    open spec fn view(&self) -> StepView {
        match self {
            RunStep::CheckCancelled => StepView::CheckCancelled,
            RunStep::CheckOrStop(stop) => StepView::CheckOrStop(json_model(*stop)),
            RunStep::CheckOrDiscard(stop) => StepView::CheckOrDiscard(json_model(*stop)),
            RunStep::RemoveWorkspace => StepView::RemoveWorkspace,
            RunStep::RestoreWorkspace(request) => StepView::RestoreWorkspace(
                json_model(*request),
            ),
            RunStep::Git(arguments) => StepView::Git(views(arguments@)),
            RunStep::StartActor(request) => StepView::StartActor(json_model(*request)),
            RunStep::SendTask(request) => StepView::SendTask(json_model(*request)),
            RunStep::WriteFile(path, content) => StepView::WriteFile(path@, content@),
            RunStep::CheckDiff => StepView::CheckDiff,
            RunStep::TakePatch => StepView::TakePatch,
            RunStep::Checkpoint(request) => StepView::Checkpoint(json_model(*request)),
            RunStep::SealResult => StepView::SealResult,
            RunStep::WriteResult => StepView::WriteResult,
            RunStep::PublishResult => StepView::PublishResult,
            RunStep::Fail(fault) => StepView::Fail(fault@),
        }
    }
}

/// What steps do.
pub open spec fn step_views(steps: Seq<RunStep>) -> Seq<StepView> {
    steps.map_values(|step: RunStep| step@)
}

/// A request to the harness host.
pub open spec fn actor_request(
    protocol: Seq<char>,
    request_id: Seq<char>,
    operation: Seq<char>,
    actor_id: Seq<char>,
) -> Map<Seq<char>, Json> {
    Map::<Seq<char>, Json>::empty().insert("protocolVersion"@, Json::Text(protocol)).insert(
        "requestId"@,
        Json::Text(request_id),
    ).insert("operation"@, Json::Text(operation)).insert("actorId"@, Json::Text(actor_id))
}

/// A request to the workspace driver.
pub open spec fn driver_request(
    protocol: Seq<char>,
    request_id: Seq<char>,
    driver: Seq<char>,
    operation: Seq<char>,
) -> Map<Seq<char>, Json> {
    Map::<Seq<char>, Json>::empty().insert("protocolVersion"@, Json::Text(protocol)).insert(
        "requestId"@,
        Json::Text(request_id),
    ).insert("driver"@, Json::Text(driver)).insert("operation"@, Json::Text(operation))
}

/// The request that stops the actor of an attempt that was cancelled.
pub open spec fn stop_model(payload: Payload, context: RunContext) -> Json {
    Json::Object(
        actor_request(
            context.harness_protocol@,
            "cancel-stop-"@ + payload.child_id@,
            "stop"@,
            payload.actor_id@,
        ).insert("generation"@, Json::Unsigned(payload.generation as nat)),
    )
}

/// The request that starts the actor.
pub open spec fn start_model(payload: Payload, context: RunContext) -> Json {
    Json::Object(
        actor_request(
            context.harness_protocol@,
            "start-"@ + payload.child_id@,
            "start"@,
            payload.actor_id@,
        ).insert("harness"@, Json::Text(payload.harness@)).insert(
            "generation"@,
            Json::Unsigned(payload.generation as nat),
        ),
    )
}

/// The request that hands the task to the actor.
pub open spec fn send_model(payload: Payload, context: RunContext) -> Json {
    Json::Object(
        actor_request(
            context.harness_protocol@,
            "send-"@ + payload.child_id@,
            "send"@,
            payload.actor_id@,
        ).insert("generation"@, Json::Unsigned(payload.generation as nat)).insert(
            "idempotencyKey"@,
            Json::Text("input-"@ + payload.child_id@),
        ).insert("input"@, Json::Text(payload.task@)),
    )
}

/// The request that restores the base.
pub open spec fn restore_model(payload: Payload, context: RunContext) -> Json {
    Json::Object(
        driver_request(
            context.workspace_protocol@,
            "restore-"@ + payload.child_id@,
            payload.workspace_driver@,
            "restore"@,
        ).insert("destinationPath"@, Json::Text(context.workspace@)).insert(
            "generation"@,
            Json::Unsigned(1),
        ).insert("checkpoint"@, json_model(payload.base_checkpoint)),
    )
}

/// The request for a checkpoint of the changes.
pub open spec fn checkpoint_model(payload: Payload, context: RunContext) -> Json {
    Json::Object(
        driver_request(
            context.workspace_protocol@,
            "checkpoint-"@ + payload.child_id@,
            payload.workspace_driver@,
            "checkpoint"@,
        ).insert("workspacePath"@, Json::Text(context.workspace@)).insert(
            "generation"@,
            Json::Unsigned(1),
        ).insert("locator"@, json_model(payload.result_locator)).insert(
            "excludePaths"@,
            texts_model(views(context.exclusions@)),
        ),
    )
}

/// The steps before the task is looked at.
pub open spec fn opening_steps(payload: Payload, context: RunContext) -> Seq<StepView> {
    seq![
        StepView::RemoveWorkspace,
        StepView::RestoreWorkspace(restore_model(payload, context)),
        StepView::CheckCancelled,
        StepView::Git(seq!["init"@, "-q"@]),
        StepView::Git(seq!["config"@, "user.email"@, "delegation@example.invalid"@]),
        StepView::Git(seq!["config"@, "user.name"@, "Coven Delegation"@]),
        StepView::Git(seq!["add"@, "-A"@]),
        StepView::Git(seq!["commit"@, "-qm"@, "delegation base"@]),
        StepView::StartActor(start_model(payload, context)),
        StepView::CheckOrStop(stop_model(payload, context)),
        StepView::SendTask(send_model(payload, context)),
        StepView::CheckOrStop(stop_model(payload, context)),
    ]
}

/// What writing one file does: the attempt ends where the file is too large or lies outside.
pub open spec fn write_step(write: FakeWrite, windows: bool) -> StepView {
    if encode_utf8(write.content@).len() > MAX_FILE_BYTES {
        StepView::Fail(plain("delegation content exceeds 1 MiB"@))
    } else if !is_confined(write.path@, windows) {
        StepView::Fail(plain("delegation path escapes child root"@))
    } else {
        StepView::WriteFile(write.path@, write.content@)
    }
}

/// The steps that write files, and what follows where none fails.
pub open spec fn writing_steps(
    writes: Seq<FakeWrite>,
    stop: Json,
    windows: bool,
    after: Seq<StepView>,
) -> Seq<StepView>
    decreases writes.len(),
{
    if writes.len() == 0 {
        after
    } else {
        let step = write_step(writes[0], windows);
        let begin = seq![StepView::CheckOrStop(stop), step];
        if step is Fail {
            begin
        } else {
            begin + writing_steps(writes.skip(1), stop, windows, after)
        }
    }
}

/// The steps after the files are written.
pub open spec fn closing_steps(payload: Payload, context: RunContext) -> Seq<StepView> {
    let stop = stop_model(payload, context);
    seq![
        StepView::Git(seq!["add"@, "-N"@, "-A"@]),
        StepView::CheckDiff,
        StepView::TakePatch,
        StepView::CheckOrStop(stop),
        StepView::Checkpoint(checkpoint_model(payload, context)),
        StepView::CheckOrStop(stop),
        StepView::SealResult,
        StepView::CheckOrStop(stop),
        StepView::WriteResult,
        StepView::CheckOrDiscard(stop),
        StepView::PublishResult,
    ]
}

/// The steps that carry out a task.
pub open spec fn task_steps(
    payload: Payload,
    context: RunContext,
    task: Result<FakeTask, String>,
) -> Seq<StepView> {
    match task {
        Err(error) => seq![
            StepView::Fail(caused("fake delegation task must be JSON"@, error@)),
        ],
        Ok(task) => if task.write_files@.len() > MAX_FILES {
            seq![StepView::Fail(plain("fake delegation task exceeds file limit"@))]
        } else {
            writing_steps(
                task.write_files@,
                stop_model(payload, context),
                context.windows,
                closing_steps(payload, context),
            )
        },
    }
}

/// The steps of an attempt without a result.
pub open spec fn run_steps(
    payload: Payload,
    context: RunContext,
    task: Result<FakeTask, String>,
) -> Seq<StepView> {
    opening_steps(payload, context) + task_steps(payload, context, task)
}

fn git_step(arguments: &[&str]) -> (step: RunStep)
    ensures
        step@ == StepView::Git(arguments@.map_values(|text: &str| text@)),
{
    let mut list: Vec<String> = Vec::new();
    let mut i: usize = 0;
    while i < arguments.len()
        invariant
            i <= arguments@.len(),
            list@.len() == i,
            forall|k: int| 0 <= k < i ==> (#[trigger] list@[k])@ == arguments@[k]@,
        decreases arguments@.len() - i,
    {
        list.push(arguments[i].to_owned());
        i += 1;
    }
    assert(views(list@) =~= arguments@.map_values(|text: &str| text@));
    RunStep::Git(list)
}

pub(crate) fn actor_value(protocol: &str, request_id: &str, operation: &str, actor_id: &str) -> (value: Value)
    ensures
        json_model(value) == Json::Object(
            actor_request(protocol@, request_id@, operation@, actor_id@),
        ),
{
    let value = with_field(empty_object(), "protocolVersion", text_value(protocol));
    let value = with_field(value, "requestId", text_value(request_id));
    let value = with_field(value, "operation", text_value(operation));
    with_field(value, "actorId", text_value(actor_id))
}

fn driver_value(protocol: &str, request_id: &str, driver: &str, operation: &str) -> (value: Value)
    ensures
        json_model(value) == Json::Object(
            driver_request(protocol@, request_id@, driver@, operation@),
        ),
{
    let value = with_field(empty_object(), "protocolVersion", text_value(protocol));
    let value = with_field(value, "requestId", text_value(request_id));
    let value = with_field(value, "driver", text_value(driver));
    with_field(value, "operation", text_value(operation))
}

/// The request that stops the actor of an attempt that was cancelled.
pub fn stop_actor(payload: &Payload, context: &RunContext) -> (request: Value)
    ensures
        json_model(request) == stop_model(*payload, *context),
{
    let value = actor_value(
        context.harness_protocol.as_str(),
        joined("cancel-stop-", payload.child_id.as_str()).as_str(),
        "stop",
        payload.actor_id.as_str(),
    );
    with_field(value, "generation", unsigned_value(payload.generation))
}

fn start_request(payload: &Payload, context: &RunContext) -> (request: Value)
    ensures
        json_model(request) == start_model(*payload, *context),
{
    let value = actor_value(
        context.harness_protocol.as_str(),
        joined("start-", payload.child_id.as_str()).as_str(),
        "start",
        payload.actor_id.as_str(),
    );
    let value = with_field(value, "harness", text_value(payload.harness.as_str()));
    with_field(value, "generation", unsigned_value(payload.generation))
}

fn send_request(payload: &Payload, context: &RunContext) -> (request: Value)
    ensures
        json_model(request) == send_model(*payload, *context),
{
    let value = actor_value(
        context.harness_protocol.as_str(),
        joined("send-", payload.child_id.as_str()).as_str(),
        "send",
        payload.actor_id.as_str(),
    );
    let value = with_field(value, "generation", unsigned_value(payload.generation));
    let value = with_field(
        value,
        "idempotencyKey",
        text_value(joined("input-", payload.child_id.as_str()).as_str()),
    );
    with_field(value, "input", text_value(payload.task.as_str()))
}

fn restore_request(payload: &Payload, context: &RunContext) -> (request: Value)
    ensures
        json_model(request) == restore_model(*payload, *context),
{
    let value = driver_value(
        context.workspace_protocol.as_str(),
        joined("restore-", payload.child_id.as_str()).as_str(),
        payload.workspace_driver.as_str(),
        "restore",
    );
    let value = with_field(value, "destinationPath", text_value(context.workspace.as_str()));
    let value = with_field(value, "generation", unsigned_value(1));
    with_field(value, "checkpoint", payload.base_checkpoint.clone())
}

fn checkpoint_request(payload: &Payload, context: &RunContext) -> (request: Value)
    ensures
        json_model(request) == checkpoint_model(*payload, *context),
{
    let value = driver_value(
        context.workspace_protocol.as_str(),
        joined("checkpoint-", payload.child_id.as_str()).as_str(),
        payload.workspace_driver.as_str(),
        "checkpoint",
    );
    let value = with_field(value, "workspacePath", text_value(context.workspace.as_str()));
    let value = with_field(value, "generation", unsigned_value(1));
    let value = with_field(value, "locator", payload.result_locator.clone());
    with_field(value, "excludePaths", texts_value(context.exclusions.as_slice()))
}

fn open_run(payload: &Payload, context: &RunContext) -> (steps: Vec<RunStep>)
    ensures
        step_views(steps@) == opening_steps(*payload, *context),
{
    let mut steps: Vec<RunStep> = Vec::new();
    steps.push(RunStep::RemoveWorkspace);
    steps.push(RunStep::RestoreWorkspace(restore_request(payload, context)));
    steps.push(RunStep::CheckCancelled);
    steps.push(git_step(&["init", "-q"]));
    steps.push(git_step(&["config", "user.email", "delegation@example.invalid"]));
    steps.push(git_step(&["config", "user.name", "Coven Delegation"]));
    steps.push(git_step(&["add", "-A"]));
    steps.push(git_step(&["commit", "-qm", "delegation base"]));
    steps.push(RunStep::StartActor(start_request(payload, context)));
    steps.push(RunStep::CheckOrStop(stop_actor(payload, context)));
    steps.push(RunStep::SendTask(send_request(payload, context)));
    steps.push(RunStep::CheckOrStop(stop_actor(payload, context)));
    proof {
        let seen = step_views(steps@);
        let wanted = opening_steps(*payload, *context);
        assert(seen.len() == wanted.len());
        assert(seen[3]->Git_0 =~= seq!["init"@, "-q"@]);
        assert(seen[4]->Git_0 =~= seq!["config"@, "user.email"@, "delegation@example.invalid"@]);
        assert(seen[5]->Git_0 =~= seq!["config"@, "user.name"@, "Coven Delegation"@]);
        assert(seen[6]->Git_0 =~= seq!["add"@, "-A"@]);
        assert(seen[7]->Git_0 =~= seq!["commit"@, "-qm"@, "delegation base"@]);
        assert(seen =~= wanted);
    }
    steps
}

fn close_run(steps: &mut Vec<RunStep>, payload: &Payload, context: &RunContext)
    ensures
        step_views(final(steps)@) == step_views(old(steps)@) + closing_steps(*payload, *context),
{
    let ghost before = step_views(steps@);
    steps.push(git_step(&["add", "-N", "-A"]));
    steps.push(RunStep::CheckDiff);
    steps.push(RunStep::TakePatch);
    steps.push(RunStep::CheckOrStop(stop_actor(payload, context)));
    steps.push(RunStep::Checkpoint(checkpoint_request(payload, context)));
    steps.push(RunStep::CheckOrStop(stop_actor(payload, context)));
    steps.push(RunStep::SealResult);
    steps.push(RunStep::CheckOrStop(stop_actor(payload, context)));
    steps.push(RunStep::WriteResult);
    steps.push(RunStep::CheckOrDiscard(stop_actor(payload, context)));
    steps.push(RunStep::PublishResult);
    proof {
        let seen = step_views(steps@);
        let n = before.len() as int;
        assert(seen[n]->Git_0 =~= seq!["add"@, "-N"@, "-A"@]);
        assert(seen =~= before + closing_steps(*payload, *context));
    }
}

fn next_write(write: &FakeWrite, windows: bool) -> (step: RunStep)
    ensures
        step@ == write_step(*write, windows),
{
    if byte_len(write.content.as_str()) > MAX_FILE_BYTES {
        return RunStep::Fail(Fault::plain("delegation content exceeds 1 MiB"));
    }
    match confined_relative(write.path.as_str(), windows) {
        Err(fault) => RunStep::Fail(fault),
        Ok(()) => RunStep::WriteFile(write.path.clone(), write.content.clone()),
    }
}

fn carry_out(
    steps: &mut Vec<RunStep>,
    writes: &Vec<FakeWrite>,
    payload: &Payload,
    context: &RunContext,
)
    ensures
        step_views(final(steps)@) == step_views(old(steps)@) + writing_steps(
            writes@,
            stop_model(*payload, *context),
            context.windows,
            closing_steps(*payload, *context),
        ),
{
    let ghost opened = step_views(steps@);
    let ghost stop = stop_model(*payload, *context);
    let ghost after = closing_steps(*payload, *context);
    let windows = context.windows;
    let mut i: usize = 0;
    assert(writes@.skip(0) =~= writes@);
    while i < writes.len()
        invariant
            i <= writes@.len(),
            stop == stop_model(*payload, *context),
            after == closing_steps(*payload, *context),
            windows == context.windows,
            opened == step_views(old(steps)@),
            step_views(steps@) + writing_steps(writes@.skip(i as int), stop, windows, after) == opened
                + writing_steps(writes@, stop, windows, after),
        decreases writes@.len() - i,
    {
        let ghost so_far = step_views(steps@);
        let ghost rest = writes@.skip(i as int);
        assert(rest[0] == writes@[i as int]);
        assert(rest.skip(1) =~= writes@.skip(i as int + 1));
        steps.push(RunStep::CheckOrStop(stop_actor(payload, context)));
        let step = next_write(&writes[i], windows);
        let ghost view = step@;
        let failed = matches!(step, RunStep::Fail(_));
        steps.push(step);
        assert(step_views(steps@) =~= so_far + seq![StepView::CheckOrStop(stop), view]);
        if failed {
            return;
        }
        assert(step_views(steps@) + writing_steps(rest.skip(1), stop, windows, after) =~= so_far + (seq![
            StepView::CheckOrStop(stop),
            view,
        ] + writing_steps(rest.skip(1), stop, windows, after)));
        i += 1;
    }
    assert(writes@.skip(i as int).len() == 0);
    close_run(steps, payload, context);
}

/// The steps of an attempt that has no result yet, given the task that was read from its
/// payload, or why none could be.
pub fn run(payload: &Payload, context: &RunContext, task: &Result<FakeTask, String>) -> (steps: Vec<
    RunStep,
>)
    ensures
        step_views(steps@) == run_steps(*payload, *context, *task),
{
    let mut steps = open_run(payload, context);
    let ghost opened = step_views(steps@);
    match task {
        Err(error) => {
            steps.push(
                RunStep::Fail(
                    Fault::caused("fake delegation task must be JSON", error.as_str()),
                ),
            );
            assert(step_views(steps@) =~= run_steps(*payload, *context, *task));
        },
        Ok(task) => {
            if task.write_files.len() > MAX_FILES {
                steps.push(RunStep::Fail(Fault::plain("fake delegation task exceeds file limit")));
                assert(step_views(steps@) =~= opened + seq![
                    StepView::Fail(plain("fake delegation task exceeds file limit"@)),
                ]);
            } else {
                carry_out(&mut steps, &task.write_files, payload, context);
            }
        },
    }
    steps
}

/// An attempt either ends with a fault that was known beforehand, or its last step is to
/// publish its result, right after the last look at whether it was cancelled.
pub proof fn results_are_published_last(
    payload: Payload,
    context: RunContext,
    task: Result<FakeTask, String>,
)
    ensures
        ({
            let steps = run_steps(payload, context, task);
            &&& steps.len() > 2
            &&& steps.last() is Fail || steps.last() is PublishResult
            &&& steps.last() is PublishResult ==> steps[steps.len() - 2] is CheckOrDiscard
            &&& forall|i: int|
                0 <= i < steps.len() - 1 ==> !(#[trigger] steps[i] is PublishResult) && !(
                steps[i] is Fail)
        }),
{
    let opened = opening_steps(payload, context);
    let carried = task_steps(payload, context, task);
    let steps = run_steps(payload, context, task);
    if task is Ok && task->Ok_0.write_files@.len() <= MAX_FILES {
        writing_ends_well(
            task->Ok_0.write_files@,
            stop_model(payload, context),
            payload,
            context,
        );
    }
    assert forall|i: int| 0 <= i < steps.len() - 1 implies !(#[trigger] steps[i] is PublishResult)
        && !(steps[i] is Fail) by {
        if i < opened.len() {
            assert(steps[i] == opened[i]);
        } else {
            assert(steps[i] == carried[i - opened.len()]);
        }
    }
    assert(steps.last() == carried.last());
    if carried.len() > 1 {
        assert(steps[steps.len() - 2] == carried[carried.len() - 2]);
    }
}

proof fn writing_ends_well(
    writes: Seq<FakeWrite>,
    stop: Json,
    payload: Payload,
    context: RunContext,
)
    ensures
        ({
            let steps = writing_steps(writes, stop, context.windows, closing_steps(payload, context));
            &&& steps.len() >= 2
            &&& steps.last() is Fail || steps.last() is PublishResult
            &&& steps.last() is PublishResult ==> steps[steps.len() - 2] is CheckOrDiscard
            &&& forall|i: int|
                0 <= i < steps.len() - 1 ==> !(#[trigger] steps[i] is PublishResult) && !(
                steps[i] is Fail)
        }),
    decreases writes.len(),
{
    let after = closing_steps(payload, context);
    let steps = writing_steps(writes, stop, context.windows, after);
    if writes.len() > 0 {
        let step = write_step(writes[0], context.windows);
        if !(step is Fail) {
            let rest = writing_steps(writes.skip(1), stop, context.windows, after);
            writing_ends_well(writes.skip(1), stop, payload, context);
            assert(steps =~= seq![StepView::CheckOrStop(stop), step] + rest);
            assert(steps.last() == rest.last());
            assert(steps[steps.len() - 2] == rest[rest.len() - 2]);
            assert forall|i: int| 0 <= i < steps.len() - 1 implies !(
            #[trigger] steps[i] is PublishResult) && !(steps[i] is Fail) by {
                if i >= 2 {
                    assert(steps[i] == rest[i - 2]);
                }
            }
        }
    }
}

/// A path that is confined lies below the directory that it is joined to.
pub proof fn confined_paths_stay_inside(directory: Seq<char>, path: Seq<char>, windows: bool)
    requires
        is_confined(path, windows),
    ensures
        directory.is_prefix_of(joined_path(directory, path, windows)),
{
    if path.len() > 0 {
        assert(slashed(path, windows)[0] == '/' <==> crate::paths::is_separator(path[0], windows));
    }
    crate::paths::plain_paths_stay_inside(directory, path, windows);
}

/// Every file that an attempt writes stays below its workspace and within its limit.
pub proof fn written_files_are_confined(
    payload: Payload,
    context: RunContext,
    task: Result<FakeTask, String>,
)
    ensures
        forall|i: int|
            0 <= i < run_steps(payload, context, task).len() ==> (
            #[trigger] run_steps(payload, context, task)[i] matches StepView::WriteFile(
                path,
                content,
            ) ==> is_confined(path, context.windows) && encode_utf8(content).len() <= MAX_FILE_BYTES),
{
    let opened = opening_steps(payload, context);
    let carried = task_steps(payload, context, task);
    let steps = run_steps(payload, context, task);
    if task is Ok && task->Ok_0.write_files@.len() <= MAX_FILES {
        writes_are_confined(
            task->Ok_0.write_files@,
            stop_model(payload, context),
            payload,
            context,
        );
    }
    assert forall|i: int| 0 <= i < steps.len() implies (#[trigger] steps[i] matches
        StepView::WriteFile(path, content) ==> is_confined(path, context.windows) && encode_utf8(content).len()
        <= MAX_FILE_BYTES) by {
        if i < opened.len() {
            assert(steps[i] == opened[i]);
        } else {
            assert(steps[i] == carried[i - opened.len()]);
        }
    }
}

proof fn writes_are_confined(
    writes: Seq<FakeWrite>,
    stop: Json,
    payload: Payload,
    context: RunContext,
)
    ensures
        forall|i: int|
            0 <= i < writing_steps(writes, stop, context.windows, closing_steps(payload, context)).len() ==> (
            #[trigger] writing_steps(writes, stop, context.windows, closing_steps(payload, context))[i] matches
                StepView::WriteFile(path, content) ==> is_confined(path, context.windows) && encode_utf8(
                content,
            ).len() <= MAX_FILE_BYTES),
    decreases writes.len(),
{
    let after = closing_steps(payload, context);
    let steps = writing_steps(writes, stop, context.windows, after);
    if writes.len() > 0 {
        let step = write_step(writes[0], context.windows);
        if !(step is Fail) {
            let rest = writing_steps(writes.skip(1), stop, context.windows, after);
            writes_are_confined(writes.skip(1), stop, payload, context);
            assert(steps =~= seq![StepView::CheckOrStop(stop), step] + rest);
            assert forall|i: int| 0 <= i < steps.len() implies (#[trigger] steps[i] matches
                StepView::WriteFile(path, content) ==> is_confined(path, context.windows) && encode_utf8(
                content,
            ).len() <= MAX_FILE_BYTES) by {
                if i >= 2 {
                    assert(steps[i] == rest[i - 2]);
                }
            }
        }
    }
}

/// What is known of the platform that an artifact was made on.
#[derive(Debug)]
pub struct PlatformEvidence {
    pub os: String,
    pub architecture: String,
    pub placement_observation_digest: String,
}

/// An artifact: its name, its digest, its size, and where it was made.
#[derive(Debug)]
pub struct ArtifactEvidence {
    pub name: String,
    pub sha256: String,
    pub size_bytes: u64,
    pub platform: PlatformEvidence,
}

/// A check that was made, and what it came to.
#[derive(Debug)]
pub struct VerificationEvidence {
    pub command: String,
    pub status: String,
}

/// The result of an attempt, before it is sealed by its own digest.
#[derive(Debug)]
pub struct DelegationResultBundle {
    pub delegation_id: String,
    pub child_id: String,
    pub attempt_id: String,
    pub node_id: String,
    pub base_revision: String,
    pub post_workspace_revision: String,
    pub patch: String,
    pub patch_sha256: String,
    pub artifact: ArtifactEvidence,
    pub verification: VerificationEvidence,
}

/// The digest and the size of a checkpoint, where a reply of the workspace driver holds both.
pub open spec fn checkpoint_of(reply: Json) -> Result<(Seq<char>, nat), FaultView> {
    let reference = match field_of(reply, "checkpoint"@) {
        Some(inner) => inner,
        None => Json::Null,
    };
    match field_of(reference, "sha256"@) {
        Some(Json::Text(digest)) => match field_of(reference, "sizeBytes"@) {
            Some(Json::Unsigned(size)) => Ok((digest, size)),
            _ => Err(plain("checkpoint omitted size"@)),
        },
        _ => Err(plain("checkpoint omitted sha256"@)),
    }
}

fn read_checkpoint(reply: &Value) -> (read: Result<(String, u64), Fault>)
    ensures
        match read {
            Ok(pair) => checkpoint_of(json_model(*reply)) == Ok::<(Seq<char>, nat), FaultView>(
                (pair.0@, pair.1 as nat),
            ),
            Err(fault) => checkpoint_of(json_model(*reply)) == Err::<(Seq<char>, nat), FaultView>(
                fault@,
            ),
        },
{
    let reference = match field(reply, "checkpoint") {
        Some(reference) => reference,
        None => {
            return Err(Fault::plain("checkpoint omitted sha256"));
        },
    };
    let digest = match field(reference, "sha256") {
        Some(inner) => match text_in(inner) {
            Some(text) => text.to_owned(),
            None => {
                return Err(Fault::plain("checkpoint omitted sha256"));
            },
        },
        None => {
            return Err(Fault::plain("checkpoint omitted sha256"));
        },
    };
    match field(reference, "sizeBytes") {
        Some(inner) => match unsigned_in(inner) {
            Some(size) => Ok((digest, size)),
            None => Err(Fault::plain("checkpoint omitted size")),
        },
        None => Err(Fault::plain("checkpoint omitted size")),
    }
}

/// Whether a result is that of an attempt: bound to its payload, with its patch, and with
/// the checkpoint as its one artifact.
pub open spec fn is_result_of(
    bundle: DelegationResultBundle,
    payload: Payload,
    checkpoint: (Seq<char>, nat),
    patch: Seq<char>,
    os: Seq<char>,
    architecture: Seq<char>,
) -> bool {
    &&& bundle.delegation_id@ == payload.delegation_id@
    &&& bundle.child_id@ == payload.child_id@
    &&& bundle.attempt_id@ == payload.attempt_id@
    &&& bundle.node_id@ == payload.node_id@
    &&& bundle.base_revision@ == payload.base_revision@
    &&& bundle.post_workspace_revision@ == checkpoint.0
    &&& bundle.patch@ == patch
    &&& bundle.patch_sha256@ == text_digest_of(patch)
    &&& bundle.artifact.name@ == "workspace-checkpoint"@
    &&& bundle.artifact.sha256@ == checkpoint.0
    &&& bundle.artifact.size_bytes == checkpoint.1
    &&& bundle.artifact.platform.os@ == os
    &&& bundle.artifact.platform.architecture@ == architecture
    &&& bundle.artifact.platform.placement_observation_digest@ == observation_of(payload)
    &&& bundle.verification.command@ == "git diff --check"@
    &&& bundle.verification.status@ == "passed"@
}

/// The result of an attempt, made out of its patch and the driver's reply to the request for
/// a checkpoint.
pub fn seal_result(payload: &Payload, reply: &Value, patch: String, os: &str, architecture: &str) -> (bundle:
    Result<DelegationResultBundle, Fault>)
    ensures
        match bundle {
            Ok(bundle) => checkpoint_of(json_model(*reply)) matches Ok(checkpoint)
                && is_result_of(bundle, *payload, checkpoint, patch@, os@, architecture@),
            Err(fault) => checkpoint_of(json_model(*reply)) == Err::<(Seq<char>, nat), FaultView>(
                fault@,
            ),
        },
{
    let (digest, size_bytes) = match read_checkpoint(reply) {
        Ok(pair) => pair,
        Err(fault) => {
            return Err(fault);
        },
    };
    let patch_sha256 = text_digest(patch.as_str());
    Ok(
        DelegationResultBundle {
            delegation_id: payload.delegation_id.clone(),
            child_id: payload.child_id.clone(),
            attempt_id: payload.attempt_id.clone(),
            node_id: payload.node_id.clone(),
            base_revision: payload.base_revision.clone(),
            post_workspace_revision: digest.clone(),
            patch,
            patch_sha256,
            artifact: ArtifactEvidence {
                name: "workspace-checkpoint".to_owned(),
                sha256: digest,
                size_bytes,
                platform: PlatformEvidence {
                    os: os.to_owned(),
                    architecture: architecture.to_owned(),
                    placement_observation_digest: placement_observation_digest(payload),
                },
            },
            verification: VerificationEvidence {
                command: "git diff --check".to_owned(),
                status: "passed".to_owned(),
            },
        },
    )
}

/// What is asked of the harness host in an attempt: to start the payload's actor under its
/// harness, then, once, to hand it the payload's task, both in the payload's generation, and
/// all before a file is written.
pub proof fn actors_are_handed_their_task(
    payload: Payload,
    context: RunContext,
    task: Result<FakeTask, String>,
)
    ensures
        ({
            let steps = run_steps(payload, context, task);
            exists|at: int, begun: int|
                {
                    &&& 0 <= begun < at < steps.len()
                    &&& (#[trigger] steps[begun]) is StartActor
                    &&& {
                        &&& field_of(steps[begun]->StartActor_0, "protocolVersion"@) == Some(Json::Text(context.harness_protocol@))
                        &&& field_of(steps[begun]->StartActor_0, "requestId"@) == Some(Json::Text("start-"@ + payload.child_id@))
                        &&& field_of(steps[begun]->StartActor_0, "operation"@) == Some(Json::Text("start"@))
                        &&& field_of(steps[begun]->StartActor_0, "actorId"@) == Some(Json::Text(payload.actor_id@))
                        &&& field_of(steps[begun]->StartActor_0, "harness"@) == Some(Json::Text(payload.harness@))
                        &&& field_of(steps[begun]->StartActor_0, "generation"@) == Some(Json::Unsigned(payload.generation as nat))
                    }
                    &&& (#[trigger] steps[at]) is SendTask
                    &&& {
                        &&& field_of(steps[at]->SendTask_0, "protocolVersion"@) == Some(Json::Text(context.harness_protocol@))
                        &&& field_of(steps[at]->SendTask_0, "requestId"@) == Some(Json::Text("send-"@ + payload.child_id@))
                        &&& field_of(steps[at]->SendTask_0, "operation"@) == Some(Json::Text("send"@))
                        &&& field_of(steps[at]->SendTask_0, "actorId"@) == Some(Json::Text(payload.actor_id@))
                        &&& field_of(steps[at]->SendTask_0, "generation"@) == Some(Json::Unsigned(payload.generation as nat))
                        &&& field_of(steps[at]->SendTask_0, "idempotencyKey"@) == Some(Json::Text("input-"@ + payload.child_id@))
                        &&& field_of(steps[at]->SendTask_0, "input"@) == Some(Json::Text(payload.task@))
                    }
                    &&& forall|i: int|
                        0 <= i < steps.len() ==> {
                            &&& (#[trigger] steps[i]) is SendTask ==> i == at
                            &&& steps[i] is StartActor ==> i == begun
                            &&& steps[i] is WriteFile ==> i > at
                        }
                }
        }),
{
    let opened = opening_steps(payload, context);
    let carried = task_steps(payload, context, task);
    let steps = run_steps(payload, context, task);
    assert forall|i: int| 0 <= i < carried.len() implies !((#[trigger] carried[i]) is SendTask)
        && !(carried[i] is StartActor) by {
        if task is Ok && task->Ok_0.write_files@.len() <= MAX_FILES {
            writing_asks_nothing(
                task->Ok_0.write_files@,
                stop_model(payload, context),
                payload,
                context,
            );
        }
    }
    assert forall|i: int| 0 <= i < steps.len() implies {
        &&& (#[trigger] steps[i]) is SendTask ==> i == 10
        &&& steps[i] is StartActor ==> i == 8
        &&& steps[i] is WriteFile ==> i > 10
    } by {
        if i < opened.len() {
            assert(steps[i] == opened[i]);
        } else {
            assert(steps[i] == carried[i - opened.len()]);
        }
    }
    actor_requests_hold(payload, context);
    assert(steps[8] == opened[8] && steps[10] == opened[10]);
}

/// Whether a request asks the harness host to start the actor of a payload.
spec fn is_start(payload: Payload, context: RunContext, request: Json) -> bool {
    &&& field_of(request, "protocolVersion"@) == Some(Json::Text(context.harness_protocol@))
    &&& field_of(request, "requestId"@) == Some(Json::Text("start-"@ + payload.child_id@))
    &&& field_of(request, "operation"@) == Some(Json::Text("start"@))
    &&& field_of(request, "actorId"@) == Some(Json::Text(payload.actor_id@))
    &&& field_of(request, "harness"@) == Some(Json::Text(payload.harness@))
    &&& field_of(request, "generation"@) == Some(Json::Unsigned(payload.generation as nat))
}

/// Whether a request asks the harness host to hand a payload's task to its actor.
spec fn is_handover(payload: Payload, context: RunContext, request: Json) -> bool {
    &&& field_of(request, "protocolVersion"@) == Some(Json::Text(context.harness_protocol@))
    &&& field_of(request, "requestId"@) == Some(Json::Text("send-"@ + payload.child_id@))
    &&& field_of(request, "operation"@) == Some(Json::Text("send"@))
    &&& field_of(request, "actorId"@) == Some(Json::Text(payload.actor_id@))
    &&& field_of(request, "generation"@) == Some(Json::Unsigned(payload.generation as nat))
    &&& field_of(request, "idempotencyKey"@) == Some(Json::Text("input-"@ + payload.child_id@))
    &&& field_of(request, "input"@) == Some(Json::Text(payload.task@))
}

/// Whether a request asks the harness host to stop the actor of a payload.
spec fn is_stop(payload: Payload, context: RunContext, request: Json) -> bool {
    &&& field_of(request, "protocolVersion"@) == Some(Json::Text(context.harness_protocol@))
    &&& field_of(request, "requestId"@) == Some(Json::Text("cancel-stop-"@ + payload.child_id@))
    &&& field_of(request, "operation"@) == Some(Json::Text("stop"@))
    &&& field_of(request, "actorId"@) == Some(Json::Text(payload.actor_id@))
    &&& field_of(request, "generation"@) == Some(Json::Unsigned(payload.generation as nat))
}

proof fn actor_requests_hold(payload: Payload, context: RunContext)
    ensures
        is_start(payload, context, start_model(payload, context)),
        is_handover(payload, context, send_model(payload, context)),
        is_stop(payload, context, stop_model(payload, context)),
{
    reveal_strlit("protocolVersion");
    reveal_strlit("requestId");
    reveal_strlit("operation");
    reveal_strlit("actorId");
    reveal_strlit("harness");
    reveal_strlit("generation");
    reveal_strlit("idempotencyKey");
    reveal_strlit("input");
    assert("protocolVersion"@.len() == 15);
    assert("requestId"@.len() == 9);
    assert("operation"@.len() == 9);
    assert("actorId"@.len() == 7);
    assert("harness"@.len() == 7);
    assert("generation"@.len() == 10);
    assert("idempotencyKey"@.len() == 14);
    assert("input"@.len() == 5);
    assert("requestId"@[0] == 'r');
    assert("operation"@[0] == 'o');
    assert("actorId"@[0] == 'a');
    assert("harness"@[0] == 'h');
}

/// Two payloads with different tasks hand their actors different inputs.
pub proof fn tasks_tell_handovers_apart(
    a: Payload,
    b: Payload,
    context: RunContext,
    task_of_a: Result<FakeTask, String>,
    task_of_b: Result<FakeTask, String>,
    i: int,
    j: int,
)
    requires
        a.task@ != b.task@,
        0 <= i < run_steps(a, context, task_of_a).len(),
        0 <= j < run_steps(b, context, task_of_b).len(),
        run_steps(a, context, task_of_a)[i] is SendTask,
        run_steps(b, context, task_of_b)[j] is SendTask,
    ensures
        field_of(run_steps(a, context, task_of_a)[i]->SendTask_0, "input"@) != field_of(
            run_steps(b, context, task_of_b)[j]->SendTask_0,
            "input"@,
        ),
{
    actors_are_handed_their_task(a, context, task_of_a);
    actors_are_handed_their_task(b, context, task_of_b);
}

/// What is asked of the workspace driver in an attempt: once, to restore the payload's base
/// into the workspace, and at most once, for a checkpoint of the workspace at the payload's
/// locator without what is excluded.
pub proof fn drivers_restore_the_base(
    payload: Payload,
    context: RunContext,
    task: Result<FakeTask, String>,
)
    ensures
        ({
            let steps = run_steps(payload, context, task);
            &&& steps.len() > 2
            &&& steps[0] is RemoveWorkspace
            &&& steps[1] is RestoreWorkspace
            &&& {
                &&& field_of(steps[1]->RestoreWorkspace_0, "protocolVersion"@) == Some(Json::Text(context.workspace_protocol@))
                &&& field_of(steps[1]->RestoreWorkspace_0, "requestId"@) == Some(Json::Text("restore-"@ + payload.child_id@))
                &&& field_of(steps[1]->RestoreWorkspace_0, "driver"@) == Some(Json::Text(payload.workspace_driver@))
                &&& field_of(steps[1]->RestoreWorkspace_0, "operation"@) == Some(Json::Text("restore"@))
                &&& field_of(steps[1]->RestoreWorkspace_0, "destinationPath"@) == Some(Json::Text(context.workspace@))
                &&& field_of(steps[1]->RestoreWorkspace_0, "generation"@) == Some(Json::Unsigned(1))
                &&& field_of(steps[1]->RestoreWorkspace_0, "checkpoint"@) == Some(json_model(payload.base_checkpoint))
            }
            &&& forall|i: int|
                0 <= i < steps.len() ==> {
                    &&& (#[trigger] steps[i]) is RestoreWorkspace ==> i == 1
                    &&& steps[i] is RemoveWorkspace ==> i == 0
                    &&& steps[i] matches StepView::Checkpoint(request) ==> {
                        &&& field_of(request, "protocolVersion"@) == Some(Json::Text(context.workspace_protocol@))
                        &&& field_of(request, "requestId"@) == Some(Json::Text("checkpoint-"@ + payload.child_id@))
                        &&& field_of(request, "driver"@) == Some(Json::Text(payload.workspace_driver@))
                        &&& field_of(request, "operation"@) == Some(Json::Text("checkpoint"@))
                        &&& field_of(request, "workspacePath"@) == Some(Json::Text(context.workspace@))
                        &&& field_of(request, "generation"@) == Some(Json::Unsigned(1))
                        &&& field_of(request, "locator"@) == Some(json_model(payload.result_locator))
                        &&& field_of(request, "excludePaths"@) matches Some(Json::Array(excluded)) && excluded.len()
                            == context.exclusions@.len() && forall|i: int|
                            0 <= i < excluded.len() ==> #[trigger] excluded[i] == Json::Text(
                                context.exclusions@[i]@,
                            )
                    }
                    &&& steps[i] matches StepView::CheckOrStop(stop) ==> {
                        &&& field_of(stop, "protocolVersion"@) == Some(Json::Text(context.harness_protocol@))
                        &&& field_of(stop, "requestId"@) == Some(Json::Text("cancel-stop-"@ + payload.child_id@))
                        &&& field_of(stop, "operation"@) == Some(Json::Text("stop"@))
                        &&& field_of(stop, "actorId"@) == Some(Json::Text(payload.actor_id@))
                        &&& field_of(stop, "generation"@) == Some(Json::Unsigned(payload.generation as nat))
                    }
                    &&& steps[i] matches StepView::CheckOrDiscard(stop) ==> {
                        &&& field_of(stop, "protocolVersion"@) == Some(Json::Text(context.harness_protocol@))
                        &&& field_of(stop, "requestId"@) == Some(Json::Text("cancel-stop-"@ + payload.child_id@))
                        &&& field_of(stop, "operation"@) == Some(Json::Text("stop"@))
                        &&& field_of(stop, "actorId"@) == Some(Json::Text(payload.actor_id@))
                        &&& field_of(stop, "generation"@) == Some(Json::Unsigned(payload.generation as nat))
                    }
                }
        }),
{
    let opened = opening_steps(payload, context);
    let carried = task_steps(payload, context, task);
    let steps = run_steps(payload, context, task);
    if task is Ok && task->Ok_0.write_files@.len() <= MAX_FILES {
        writing_asks_nothing(
            task->Ok_0.write_files@,
            stop_model(payload, context),
            payload,
            context,
        );
    }
    actor_requests_hold(payload, context);
    driver_requests_hold(payload, context);
    assert forall|i: int| 0 <= i < steps.len() implies {
        &&& (#[trigger] steps[i]) is RestoreWorkspace ==> i == 1
        &&& steps[i] is RemoveWorkspace ==> i == 0
        &&& steps[i] matches StepView::Checkpoint(request) ==> is_checkpoint(
            payload,
            context,
            request,
        )
        &&& steps[i] matches StepView::CheckOrStop(stop) ==> is_stop(payload, context, stop)
        &&& steps[i] matches StepView::CheckOrDiscard(stop) ==> is_stop(payload, context, stop)
    } by {
        if i < opened.len() {
            assert(steps[i] == opened[i]);
        } else {
            assert(steps[i] == carried[i - opened.len()]);
        }
    }
    assert(steps[0] == opened[0] && steps[1] == opened[1]);
}

/// Whether a request asks the workspace driver to restore a payload's base.
spec fn is_restore(payload: Payload, context: RunContext, request: Json) -> bool {
    &&& field_of(request, "protocolVersion"@) == Some(Json::Text(context.workspace_protocol@))
    &&& field_of(request, "requestId"@) == Some(Json::Text("restore-"@ + payload.child_id@))
    &&& field_of(request, "driver"@) == Some(Json::Text(payload.workspace_driver@))
    &&& field_of(request, "operation"@) == Some(Json::Text("restore"@))
    &&& field_of(request, "destinationPath"@) == Some(Json::Text(context.workspace@))
    &&& field_of(request, "generation"@) == Some(Json::Unsigned(1))
    &&& field_of(request, "checkpoint"@) == Some(json_model(payload.base_checkpoint))
}

/// Whether a request asks the workspace driver for a checkpoint at a payload's locator.
spec fn is_checkpoint(payload: Payload, context: RunContext, request: Json) -> bool {
    &&& field_of(request, "protocolVersion"@) == Some(Json::Text(context.workspace_protocol@))
    &&& field_of(request, "requestId"@) == Some(Json::Text("checkpoint-"@ + payload.child_id@))
    &&& field_of(request, "driver"@) == Some(Json::Text(payload.workspace_driver@))
    &&& field_of(request, "operation"@) == Some(Json::Text("checkpoint"@))
    &&& field_of(request, "workspacePath"@) == Some(Json::Text(context.workspace@))
    &&& field_of(request, "generation"@) == Some(Json::Unsigned(1))
    &&& field_of(request, "locator"@) == Some(json_model(payload.result_locator))
    &&& field_of(request, "excludePaths"@) matches Some(Json::Array(excluded)) && excluded.len()
        == context.exclusions@.len() && forall|i: int|
        0 <= i < excluded.len() ==> #[trigger] excluded[i] == Json::Text(
            context.exclusions@[i]@,
        )
}

proof fn driver_requests_hold(payload: Payload, context: RunContext)
    ensures
        is_restore(payload, context, restore_model(payload, context)),
        is_checkpoint(payload, context, checkpoint_model(payload, context)),
{
    reveal_strlit("protocolVersion");
    reveal_strlit("requestId");
    reveal_strlit("driver");
    reveal_strlit("operation");
    reveal_strlit("destinationPath");
    reveal_strlit("generation");
    reveal_strlit("checkpoint");
    reveal_strlit("workspacePath");
    reveal_strlit("locator");
    reveal_strlit("excludePaths");
    assert("protocolVersion"@.len() == 15);
    assert("requestId"@.len() == 9);
    assert("driver"@.len() == 6);
    assert("operation"@.len() == 9);
    assert("destinationPath"@.len() == 15);
    assert("generation"@.len() == 10);
    assert("checkpoint"@.len() == 10);
    assert("workspacePath"@.len() == 13);
    assert("locator"@.len() == 7);
    assert("excludePaths"@.len() == 12);
    assert("protocolVersion"@[0] == 'p');
    assert("requestId"@[0] == 'r');
    assert("operation"@[0] == 'o');
    assert("destinationPath"@[0] == 'd');
    assert("generation"@[0] == 'g');
    assert("checkpoint"@[0] == 'c');
    assert(field_of(checkpoint_model(payload, context), "excludePaths"@) == Some(
        texts_model(views(context.exclusions@)),
    ));
}

proof fn writing_asks_nothing(
    writes: Seq<FakeWrite>,
    stop: Json,
    payload: Payload,
    context: RunContext,
)
    ensures
        forall|i: int|
            0 <= i < writing_steps(
                writes,
                stop,
                context.windows,
                closing_steps(payload, context),
            ).len() ==> {
                let step = #[trigger] writing_steps(
                    writes,
                    stop,
                    context.windows,
                    closing_steps(payload, context),
                )[i];
                &&& !(step is SendTask)
                &&& !(step is StartActor)
                &&& !(step is RestoreWorkspace)
                &&& !(step is RemoveWorkspace)
                &&& step matches StepView::Checkpoint(request) ==> request == checkpoint_model(
                    payload,
                    context,
                )
                &&& step matches StepView::CheckOrStop(request) ==> request == stop || request
                    == stop_model(payload, context)
                &&& step matches StepView::CheckOrDiscard(request) ==> request == stop_model(
                    payload,
                    context,
                )
            },
    decreases writes.len(),
{
    let after = closing_steps(payload, context);
    let steps = writing_steps(writes, stop, context.windows, after);
    if writes.len() > 0 {
        let step = write_step(writes[0], context.windows);
        if !(step is Fail) {
            let rest = writing_steps(writes.skip(1), stop, context.windows, after);
            writing_asks_nothing(writes.skip(1), stop, payload, context);
            assert(steps =~= seq![StepView::CheckOrStop(stop), step] + rest);
            assert forall|i: int| 2 <= i < steps.len() implies #[trigger] steps[i] == rest[i
                - 2] by {}
        }
    }
}

/// The base is committed before the actor starts: git makes a repository of the workspace,
/// learns who commits, adds all there is and commits it, and nothing comes between but a look
/// at whether the attempt was cancelled.
pub proof fn bases_are_committed_first(
    payload: Payload,
    context: RunContext,
    task: Result<FakeTask, String>,
)
    ensures
        ({
            let steps = run_steps(payload, context, task);
            &&& steps.len() > 12
            &&& steps[2] is CheckCancelled
            &&& steps[3] == StepView::Git(seq!["init"@, "-q"@])
            &&& steps[4] == StepView::Git(
                seq!["config"@, "user.email"@, "delegation@example.invalid"@],
            )
            &&& steps[5] == StepView::Git(seq!["config"@, "user.name"@, "Coven Delegation"@])
            &&& steps[6] == StepView::Git(seq!["add"@, "-A"@])
            &&& steps[7] == StepView::Git(seq!["commit"@, "-qm"@, "delegation base"@])
            &&& steps[8] is StartActor
            &&& steps[9] is CheckOrStop
            &&& steps[10] is SendTask
            &&& steps[11] is CheckOrStop
        }),
{
    let opened = opening_steps(payload, context);
    let carried = task_steps(payload, context, task);
    let steps = run_steps(payload, context, task);
    if task is Ok && task->Ok_0.write_files@.len() <= MAX_FILES {
        writing_ends_well(
            task->Ok_0.write_files@,
            stop_model(payload, context),
            payload,
            context,
        );
    }
    assert(carried.len() > 0);
    assert forall|i: int| 0 <= i < opened.len() implies #[trigger] steps[i] == opened[i] by {}
}

/// Whether a file of a task can be written: it is at most a mebibyte long, and its path stays
/// below the workspace.
spec fn is_writable(write: FakeWrite, windows: bool) -> bool {
    encode_utf8(write.content@).len() <= 1_048_576 && is_confined(write.path@, windows)
}

/// Whether a file is written at a place of an attempt, right after a look at whether it was
/// cancelled.
spec fn is_written(steps: Seq<StepView>, at: int, write: FakeWrite) -> bool {
    &&& steps[at] is CheckOrStop
    &&& steps[at + 1] == StepView::WriteFile(write.path@, write.content@)
}

/// A task whose files can all be written, at most 256 of them, has each of them written as it
/// says, in its order, after a look at whether the attempt was cancelled. Then the changes are
/// checked and taken as a patch, a checkpoint is made, and the result is sealed, written and
/// published, each in its turn.
pub proof fn files_are_written_as_asked(payload: Payload, context: RunContext, task: FakeTask)
    requires
        task.write_files@.len() <= 256,
        forall|k: int|
            0 <= k < task.write_files@.len() ==> encode_utf8(
                (#[trigger] task.write_files@[k]).content@,
            ).len() <= 1_048_576 && is_confined(task.write_files@[k].path@, context.windows),
    ensures
        ({
            let steps = run_steps(payload, context, Ok(task));
            let n = task.write_files@.len() as int;
            let end = 12 + 2 * n;
            &&& steps.len() == end + 11
            &&& forall|k: int|
                0 <= k < n ==> steps[13 + 2 * k] == StepView::WriteFile(
                    (#[trigger] task.write_files@[k]).path@,
                    task.write_files@[k].content@,
                )
            &&& forall|i: int|
                12 <= i < end && i % 2 == 0 ==> (#[trigger] steps[i]) is CheckOrStop
            &&& steps[end] == StepView::Git(seq!["add"@, "-N"@, "-A"@])
            &&& steps[end + 1] is CheckDiff
            &&& steps[end + 2] is TakePatch
            &&& steps[end + 3] is CheckOrStop
            &&& steps[end + 4] is Checkpoint
            &&& steps[end + 5] is CheckOrStop
            &&& steps[end + 6] is SealResult
            &&& steps[end + 7] is CheckOrStop
            &&& steps[end + 8] is WriteResult
            &&& steps[end + 9] is CheckOrDiscard
            &&& steps[end + 10] is PublishResult
        }),
{
    let steps = run_steps(payload, context, Ok(task));
    let writes = task.write_files@;
    let after = closing_steps(payload, context);
    let carried = writing_steps(writes, stop_model(payload, context), context.windows, after);
    let n = writes.len() as int;
    writable_files_are_written(writes, stop_model(payload, context), context.windows, after);
    assert(steps =~= opening_steps(payload, context) + carried);
    assert forall|k: int| 0 <= k < n implies is_written(
        steps,
        12 + 2 * k,
        #[trigger] task.write_files@[k],
    ) by {
        assert(is_written(carried, 2 * k, writes[k]));
        assert(is_writable(writes[k], context.windows));
        assert(steps[12 + 2 * k] == carried[2 * k]);
        assert(steps[13 + 2 * k] == carried[2 * k + 1]);
    }
    assert forall|i: int| 12 <= i < 12 + 2 * n && i % 2 == 0 implies (
    #[trigger] steps[i]) is CheckOrStop by {
        assert(is_written(steps, 12 + 2 * ((i - 12) / 2), task.write_files@[(i - 12) / 2]));
    }
    assert(after =~= carried.skip(2 * n));
    assert forall|j: int| 0 <= j < 11 implies #[trigger] after[j] == steps[12 + 2 * n + j] by {
        assert(carried.skip(2 * n)[j] == carried[2 * n + j]);
        assert(steps[12 + 2 * n + j] == carried[2 * n + j]);
    }
    assert(after[0] == steps[12 + 2 * n]);
    assert(after[1] == steps[12 + 2 * n + 1]);
    assert(after[2] == steps[12 + 2 * n + 2]);
    assert(after[3] == steps[12 + 2 * n + 3]);
    assert(after[4] == steps[12 + 2 * n + 4]);
    assert(after[5] == steps[12 + 2 * n + 5]);
    assert(after[6] == steps[12 + 2 * n + 6]);
    assert(after[7] == steps[12 + 2 * n + 7]);
    assert(after[8] == steps[12 + 2 * n + 8]);
    assert(after[9] == steps[12 + 2 * n + 9]);
    assert(after[10] == steps[12 + 2 * n + 10]);
}

proof fn writable_files_are_written(
    writes: Seq<FakeWrite>,
    stop: Json,
    windows: bool,
    after: Seq<StepView>,
)
    requires
        forall|k: int| 0 <= k < writes.len() ==> is_writable(#[trigger] writes[k], windows),
    ensures
        ({
            let steps = writing_steps(writes, stop, windows, after);
            &&& steps.len() == 2 * writes.len() + after.len()
            &&& forall|k: int|
                0 <= k < writes.len() ==> is_written(steps, 2 * k, #[trigger] writes[k])
            &&& steps.skip(2 * writes.len() as int) == after
        }),
    decreases writes.len(),
{
    let steps = writing_steps(writes, stop, windows, after);
    if writes.len() == 0 {
        assert(steps.skip(0) =~= after);
    } else {
        let tail = writes.skip(1);
        let rest = writing_steps(tail, stop, windows, after);
        assert(is_writable(writes[0], windows));
        assert forall|k: int| 0 <= k < tail.len() implies is_writable(
            #[trigger] tail[k],
            windows,
        ) by {
            assert(is_writable(writes[k + 1], windows));
        }
        writable_files_are_written(tail, stop, windows, after);
        let step = write_step(writes[0], windows);
        assert(steps =~= seq![StepView::CheckOrStop(stop), step] + rest);
        assert forall|k: int| 0 <= k < writes.len() implies is_written(
            steps,
            2 * k,
            #[trigger] writes[k],
        ) by {
            if k > 0 {
                assert(is_written(rest, 2 * (k - 1), tail[k - 1]));
                assert(tail[k - 1] == writes[k]);
                assert(steps[2 * k] == rest[2 * (k - 1)]);
                assert(steps[2 * k + 1] == rest[2 * (k - 1) + 1]);
            }
        }
        assert(steps.skip(2 * writes.len() as int) =~= rest.skip(2 * tail.len() as int));
    }
}

/// A task that cannot be read, has more than 256 files, or has a file that cannot be written,
/// ends its attempt with the reason, at the first such file; nothing is sealed or published.
pub proof fn bad_tasks_end_attempts(
    payload: Payload,
    context: RunContext,
    task: Result<FakeTask, String>,
    k: int,
)
    ensures
        ({
            let last = run_steps(payload, context, task).last();
            match task {
                Err(error) => last == StepView::Fail(
                    caused("fake delegation task must be JSON"@, error@),
                ),
                Ok(task) => {
                    let files = task.write_files@;
                    &&& files.len() > 256 ==> last == StepView::Fail(
                        plain("fake delegation task exceeds file limit"@),
                    )
                    &&& files.len() <= 256 && 0 <= k < files.len() && !(
                    encode_utf8(files[k].content@).len() <= 1_048_576 && is_confined(
                        files[k].path@,
                        context.windows,
                    )) && (forall|j: int|
                        0 <= j < k ==> encode_utf8((#[trigger] files[j]).content@).len()
                            <= 1_048_576 && is_confined(files[j].path@, context.windows))
                        ==> last == StepView::Fail(
                        if encode_utf8(files[k].content@).len() > 1_048_576 {
                            plain("delegation content exceeds 1 MiB"@)
                        } else {
                            plain("delegation path escapes child root"@)
                        },
                    )
                },
            }
        }),
{
    let steps = run_steps(payload, context, task);
    let carried = task_steps(payload, context, task);
    if task is Ok && task->Ok_0.write_files@.len() <= MAX_FILES {
        let files = task->Ok_0.write_files@;
        let stop = stop_model(payload, context);
        writing_ends_well(files, stop, payload, context);
        if 0 <= k < files.len() && !is_writable(files[k], context.windows) && (forall|j: int|
            0 <= j < k ==> is_writable(#[trigger] files[j], context.windows)) {
            bad_files_end_attempts(files, stop, context.windows, closing_steps(payload, context), k);
        }
    }
    assert(carried.len() > 0);
    assert(steps.last() == carried.last());
}

proof fn bad_files_end_attempts(
    files: Seq<FakeWrite>,
    stop: Json,
    windows: bool,
    after: Seq<StepView>,
    k: int,
)
    requires
        0 <= k < files.len(),
        !is_writable(files[k], windows),
        forall|j: int| 0 <= j < k ==> is_writable(#[trigger] files[j], windows),
    ensures
        writing_steps(files, stop, windows, after).len() > 0,
        writing_steps(files, stop, windows, after).last() == StepView::Fail(
            if encode_utf8(files[k].content@).len() > 1_048_576 {
                plain("delegation content exceeds 1 MiB"@)
            } else {
                plain("delegation path escapes child root"@)
            },
        ),
    decreases files.len(),
{
    let steps = writing_steps(files, stop, windows, after);
    if k > 0 {
        let tail = files.skip(1);
        assert(is_writable(files[0], windows));
        assert forall|j: int| 0 <= j < k - 1 implies is_writable(#[trigger] tail[j], windows) by {
            assert(is_writable(files[j + 1], windows));
        }
        bad_files_end_attempts(tail, stop, windows, after, k - 1);
        let rest = writing_steps(tail, stop, windows, after);
        assert(steps.last() == rest.last());
    }
}

/// A payload is worked on if and only if it speaks the protocol, names the delegation, the
/// child and the actor by identifiers, is for the fake harness in some generation, and the
/// evidence of the node's platform is in order.
pub proof fn payloads_are_worked_on_where_they_can_be(payload: Payload, platform: Result<(), Fault>)
    ensures
        payload_fault(payload, platform) is None <==> payload.protocol_version@
            == "coven.delegation.v1"@ && is_id(payload.delegation_id@) && is_id(
            payload.child_id@,
        ) && is_id(payload.actor_id@) && payload.generation >= 1 && payload.harness@ == "fake"@
            && platform is Ok,
        ({
            let fault = payload_fault(payload, platform);
            let speaks = payload.protocol_version@ == "coven.delegation.v1"@;
            let named = is_id(payload.delegation_id@) && is_id(payload.child_id@) && is_id(
                payload.actor_id@,
            );
            let harnessed = payload.generation >= 1 && payload.harness@ == "fake"@;
            &&& !speaks ==> fault == Some(plain("unsupported delegation protocol"@))
            &&& speaks && !is_id(payload.delegation_id@) ==> fault == Some(
                plain("delegationId invalid"@),
            )
            &&& speaks && is_id(payload.delegation_id@) && !is_id(payload.child_id@) ==> fault
                == Some(plain("childId invalid"@))
            &&& speaks && is_id(payload.delegation_id@) && is_id(payload.child_id@) && !is_id(
                payload.actor_id@,
            ) ==> fault == Some(plain("actorId invalid"@))
            &&& speaks && named && !harnessed ==> fault == Some(
                plain("invalid harness generation"@),
            )
            &&& speaks && named && harnessed ==> (platform matches Err(wrong) ==> fault == Some(
                wrong@,
            ))
        }),
{
    reveal_strlit("delegationId");
    reveal_strlit("childId");
    reveal_strlit("actorId");
    reveal_strlit(" invalid");
    reveal_strlit("delegationId invalid");
    reveal_strlit("childId invalid");
    reveal_strlit("actorId invalid");
    assert("delegationId"@ + " invalid"@ =~= "delegationId invalid"@);
    assert("childId"@ + " invalid"@ =~= "childId invalid"@);
    assert("actorId"@ + " invalid"@ =~= "actorId invalid"@);
}

/// The observation of an attempt is the one that was claimed, as it is; one that was not
/// claimed is the digest of a text that holds the node and the attempt.
pub proof fn observations_are_claimed_or_made(payload: Payload)
    ensures
        payload.placement_observation_digest matches Some(digest) ==> observation_of(payload)
            == digest@,
        payload.placement_observation_digest is None ==> observation_of(payload) == base64_url(
            sha256(
                encode_utf8(
                    "coven.legacy-unbound-placement.v1\n"@ + payload.node_id@ + "\n"@
                        + payload.attempt_id@,
                ),
            ),
        ),
{
}

/// The files of a child lie in a directory of its own below the home: those of the delegation
/// and the child that it is named by.
pub proof fn children_have_their_own_directory(
    coven_home: Seq<char>,
    delegation_id: Seq<char>,
    child_id: Seq<char>,
)
    requires
        coven_home.len() > 0,
        coven_home.last() != '/',
        is_id(delegation_id),
        is_id(child_id),
    ensures
        allocation_of(coven_home, delegation_id, child_id, false) == coven_home + "/delegations/"@
            + delegation_id + "/"@ + child_id,
{
    reveal_strlit("/delegations/");
    reveal_strlit("delegations");
    reveal_strlit("/");
    assert(is_id_char(delegation_id[0]));
    assert(is_id_char(delegation_id.last()));
    assert(is_id_char(child_id[0]));
    let base = inside_on(coven_home, "delegations"@, false);
    assert(base =~= coven_home + seq!['/'] + "delegations"@);
    let middle = joined_path(base, delegation_id, false);
    assert(base.last() == "delegations"@.last());
    assert(middle =~= base + seq!['/'] + delegation_id);
    assert(allocation_of(coven_home, delegation_id, child_id, false) =~= coven_home
        + "/delegations/"@ + delegation_id + "/"@ + child_id);
}

/// A checkpoint is read from a reply if and only if the reply holds a `checkpoint` with the
/// text `sha256` and the number `sizeBytes`; then it is those two.
pub proof fn checkpoints_have_a_digest_and_a_size(reply: Json, digest: Seq<char>, size: nat)
    ensures
        checkpoint_of(reply) == Ok::<(Seq<char>, nat), FaultView>((digest, size)) <==> (field_of(
            reply,
            "checkpoint"@,
        ) matches Some(found) && field_of(found, "sha256"@) == Some(Json::Text(digest)) && field_of(
            found,
            "sizeBytes"@,
        ) == Some(Json::Unsigned(size))),
        checkpoint_of(reply) is Err ==> checkpoint_of(reply) == Err::<
            (Seq<char>, nat),
            FaultView,
        >(
            if field_of(reply, "checkpoint"@) matches Some(found) && (field_of(
                found,
                "sha256"@,
            ) matches Some(inner) && inner is Text) {
                plain("checkpoint omitted size"@)
            } else {
                plain("checkpoint omitted sha256"@)
            },
        ),
{
}

/// A result is bound to the payload of its attempt, holds the patch under the patch's own
/// digest, and has the checkpoint as its revision and its one artifact, made on the node's
/// platform under the attempt's observation.
pub proof fn results_are_bound_to_their_attempt(
    bundle: DelegationResultBundle,
    payload: Payload,
    checkpoint: (Seq<char>, nat),
    patch: Seq<char>,
    os: Seq<char>,
    architecture: Seq<char>,
)
    requires
        is_result_of(bundle, payload, checkpoint, patch, os, architecture),
    ensures
        bundle.delegation_id@ == payload.delegation_id@,
        bundle.child_id@ == payload.child_id@,
        bundle.attempt_id@ == payload.attempt_id@,
        bundle.node_id@ == payload.node_id@,
        bundle.base_revision@ == payload.base_revision@,
        bundle.post_workspace_revision@ == checkpoint.0,
        bundle.patch@ == patch,
        bundle.patch_sha256@ == base64_url(sha256(encode_utf8(patch))),
        bundle.artifact.name@ == "workspace-checkpoint"@,
        bundle.artifact.sha256@ == checkpoint.0,
        bundle.artifact.size_bytes == checkpoint.1,
        bundle.artifact.platform.os@ == os,
        bundle.artifact.platform.architecture@ == architecture,
        payload.placement_observation_digest matches Some(claimed)
            ==> bundle.artifact.platform.placement_observation_digest@ == claimed@,
        bundle.verification.command@ == "git diff --check"@,
        bundle.verification.status@ == "passed"@,
{
}

/// A path steps out of the directory that it is joined to if and only if two dots stand in it
/// alone, between separators or its ends, or it begins at the root or with a drive of Windows.
/// It must not begin with the directory's own dot either.
pub proof fn confined_paths_never_step_up(path: Seq<char>, a: Seq<char>, b: Seq<char>)
    ensures
        path == a + ".."@ + b && (a.len() == 0 || a.last() == '/') && (b.len() == 0 || b[0] == '/')
            ==> !is_confined(path, false) && !is_confined(path, true),
        path.len() > 0 && path[0] == '/' ==> !is_confined(path, false) && !is_confined(path, true),
        path.len() > 0 && path[0] == '\\' ==> !is_confined(path, true),
        path.len() >= 2 && path[1] == ':' && 'A' <= path[0] <= 'Z' ==> !is_confined(path, true),
        path == "."@ || (path.len() >= 2 && path[0] == '.' && path[1] == '/') ==> !is_confined(
            path,
            false,
        ),
        path.len() > 0 && path[0] != '/' && path[0] != '.' && (forall|x: Seq<char>, y: Seq<char>|
            path == #[trigger] (x + ".."@ + y) ==> (x.len() > 0 && x.last() != '/') || (y.len()
                > 0 && y[0] != '/')) ==> is_confined(path, false),
{
    reveal_strlit("..");
    reveal_strlit(".");
    assert(slashed(path, false) =~= path);
    let even = slashed(path, true);
    if path == a + ".."@ + b && (a.len() == 0 || a.last() == '/') && (b.len() == 0 || b[0] == '/') {
        dots_are_a_piece(path, a, b);
        assert(even =~= slashed(a, true) + ".."@ + slashed(b, true));
        dots_are_a_piece(even, slashed(a, true), slashed(b, true));
    }
    if path == "."@ || (path.len() >= 2 && path[0] == '.' && path[1] == '/') {
        let dot = "."@;
        assert(!dot.contains('/')) by {
            if dot.contains('/') {
                let k = choose|k: int| 0 <= k < dot.len() && dot[k] == '/';
                assert(dot[k] == '.');
            }
        }
        crate::text::marks_part_pieces(dot, '/', path.skip(2));
        if path != "."@ {
            assert(path =~= dot.push('/') + path.skip(2));
        }
        assert(pieces(path, '/')[0] == dot);
    }
    if path.len() > 0 && path[0] != '/' && path[0] != '.' && (forall|x: Seq<char>, y: Seq<char>|
        path == #[trigger] (x + ".."@ + y) ==> (x.len() > 0 && x.last() != '/') || (y.len() > 0
            && y[0] != '/')) {
        let parts = pieces(path, '/');
        assert forall|i: int| 0 <= i < parts.len() implies #[trigger] parts[i] != ".."@ by {
            if parts[i] == ".."@ {
                let around = crate::text::pieces_stand_between_marks(path, '/', i);
                assert(path == around.0 + ".."@ + around.1);
            }
        }
        reveal_with_fuel(pieces, 2);
        let around = crate::text::pieces_stand_between_marks(path, '/', 0);
        if parts[0] == "."@ {
            assert(path[0] == parts[0][0]);
        }
    }
}

proof fn dots_are_a_piece(path: Seq<char>, a: Seq<char>, b: Seq<char>)
    requires
        path == a + ".."@ + b,
        a.len() == 0 || a.last() == '/',
        b.len() == 0 || b[0] == '/',
    ensures
        exists|i: int| 0 <= i < pieces(path, '/').len() && #[trigger] pieces(path, '/')[i] == ".."@,
{
    reveal_strlit("..");
    let dots = ".."@;
    assert(!dots.contains('/')) by {
        if dots.contains('/') {
            let k = choose|k: int| 0 <= k < dots.len() && dots[k] == '/';
            assert(dots[k] == '.');
        }
    }
    let tail = dots + b;
    crate::text::marks_part_pieces(dots, '/', b.skip(1));
    if b.len() > 0 {
        assert(tail =~= dots.push('/') + b.skip(1));
    } else {
        assert(tail =~= dots);
    }
    assert(pieces(tail, '/')[0] == dots);
    if a.len() == 0 {
        assert(path =~= tail);
        assert(pieces(path, '/')[0] == dots);
    } else {
        let front = a.drop_last();
        assert(path =~= front.push('/') + tail);
        crate::text::marks_part_pieces(front, '/', tail);
        let n = pieces(front, '/').len() as int;
        assert(pieces(path, '/')[n] == pieces(tail, '/')[0]);
    }
}

/// An attempt is carried out at most once, and with one payload: its result is handed back
/// where it is there, a payload is recorded where none was, and one that changed is refused.
pub proof fn attempts_are_carried_out_once(
    payload: &Payload,
    platform: Result<(), Fault>,
    stored: Probe<String>,
    digest: &str,
    has_result: bool,
    opened: Result<(bool, Opening), Fault>,
)
    requires
        call_ensures(open_attempt, (payload, platform, stored, digest, has_result), opened),
    ensures
        opened is Ok <==> payload_fault(*payload, platform) is None && (stored is Missing || (
        stored matches Probe::Found(text) && text@ == digest@)),
        opened matches Ok((record, opening)) ==> (record <==> stored is Missing) && (opening
            == Opening::Replay <==> has_result) && (opening == Opening::Run <==> !has_result),
        opened matches Err(fault) ==> match payload_fault(*payload, platform) {
            Some(wrong) => fault@ == wrong,
            None => match stored {
                Probe::Found(_) => fault@ == plain("delegation replay changed immutable payload"@),
                Probe::Failed(error) => fault@ == plain(error@),
                Probe::Missing => false,
            },
        },
{
}

/// A payload is recorded where none was, let pass where it is the recorded one, and refused
/// where it has changed.
pub proof fn payloads_never_change(
    stored: Probe<String>,
    digest: &str,
    record: Result<bool, Fault>,
)
    requires
        call_ensures(admit_payload, (stored, digest), record),
    ensures
        record == Ok::<bool, Fault>(true) <==> stored is Missing,
        record == Ok::<bool, Fault>(false) <==> (stored matches Probe::Found(text) && text@
            == digest@),
        stored matches Probe::Found(text) ==> (text@ != digest@ ==> (record matches Err(fault)
            && fault@ == plain("delegation replay changed immutable payload"@))),
        stored matches Probe::Failed(error) ==> (record matches Err(fault) && fault@ == plain(
            error@,
        )),
{
}

/// The steps of an attempt are those of its payload and its task, and the payload's digest is
/// that of the whole of it.
pub proof fn attempts_follow_their_steps(
    payload: &Payload,
    context: &RunContext,
    task: &Result<FakeTask, String>,
    steps: Vec<RunStep>,
    value: &Value,
    digest: String,
)
    requires
        call_ensures(run, (payload, context, task), steps),
        call_ensures(payload_digest, (value,), digest),
    ensures
        step_views(steps@) == run_steps(*payload, *context, *task),
        digest@ == base64_url(sha256(encode_utf8(json_encoding(json_model(*value))))),
{
}

/// The places of an attempt lie in its own directory below the child's: the workspace, the
/// result and the digest of the payload, each under its name.
pub proof fn attempts_have_their_own_places(
    coven_home: &str,
    payload: &Payload,
    paths: AttemptPaths,
)
    requires
        call_ensures(attempt_paths, (coven_home, payload, false), paths),
        is_id(payload.attempt_id@),
        is_id(payload.delegation_id@),
        is_id(payload.child_id@),
        coven_home@.len() > 0,
        coven_home@.last() != '/',
    ensures
        ({
            let own = coven_home@ + "/delegations/"@ + payload.delegation_id@ + "/"@
                + payload.child_id@;
            let root = own + "/attempts/"@ + payload.attempt_id@;
            &&& paths.allocation@ == own
            &&& payload.child_id@.last() != '/' ==> paths.attempt_root@ == root
            &&& paths.workspace@ == root + "/workspace"@
            &&& paths.result@ == root + "/result.json"@
            &&& paths.payload_digest@ == root + "/payload.sha256"@
        }),
{
    reveal_strlit("/attempts/");
    reveal_strlit("attempts");
    reveal_strlit("workspace");
    reveal_strlit("/workspace");
    reveal_strlit("result.json");
    reveal_strlit("/result.json");
    reveal_strlit("payload.sha256");
    reveal_strlit("/payload.sha256");
    children_have_their_own_directory(
        coven_home@,
        payload.delegation_id@,
        payload.child_id@,
    );
    let own = coven_home@ + "/delegations/"@ + payload.delegation_id@ + "/"@ + payload.child_id@;
    assert(is_id_char(payload.child_id@.last()));
    assert(is_id_char(payload.attempt_id@[0]));
    assert(is_id_char(payload.attempt_id@.last()));
    assert(own.last() == payload.child_id@.last());
    let attempts = inside_on(own, "attempts"@, false);
    assert(attempts =~= own + seq!['/'] + "attempts"@);
    assert(attempts.last() == "attempts"@.last());
    let root = own + "/attempts/"@ + payload.attempt_id@;
    assert(joined_path(attempts, payload.attempt_id@, false) =~= root);
    assert(root.last() == payload.attempt_id@.last());
    assert(inside_on(root, "workspace"@, false) =~= root + "/workspace"@);
    assert(inside_on(root, "result.json"@, false) =~= root + "/result.json"@);
    assert(inside_on(root, "payload.sha256"@, false) =~= root + "/payload.sha256"@);
}

/// A result is sealed if and only if the driver's reply holds a checkpoint.
pub proof fn results_are_sealed_with_a_checkpoint(
    payload: &Payload,
    reply: &Value,
    patch: String,
    os: &str,
    architecture: &str,
    bundle: Result<DelegationResultBundle, Fault>,
)
    requires
        call_ensures(seal_result, (payload, reply, patch, os, architecture), bundle),
    ensures
        bundle is Ok <==> checkpoint_of(json_model(*reply)) is Ok,
        bundle matches Ok(bundle) ==> is_result_of(
            bundle,
            *payload,
            checkpoint_of(json_model(*reply))->Ok_0,
            patch@,
            os@,
            architecture@,
        ),
{
}

/// A step does what it says, with what it holds.
pub proof fn steps_show_what_they_do(request: Value, path: String, content: String, fault: Fault)
    ensures
        RunStep::CheckCancelled@ is CheckCancelled,
        RunStep::CheckOrStop(request)@ == StepView::CheckOrStop(json_model(request)),
        RunStep::CheckOrDiscard(request)@ == StepView::CheckOrDiscard(json_model(request)),
        RunStep::RemoveWorkspace@ is RemoveWorkspace,
        RunStep::RestoreWorkspace(request)@ == StepView::RestoreWorkspace(json_model(request)),
        RunStep::StartActor(request)@ == StepView::StartActor(json_model(request)),
        RunStep::SendTask(request)@ == StepView::SendTask(json_model(request)),
        RunStep::WriteFile(path, content)@ == StepView::WriteFile(path@, content@),
        RunStep::CheckDiff@ is CheckDiff,
        RunStep::TakePatch@ is TakePatch,
        RunStep::Checkpoint(request)@ == StepView::Checkpoint(json_model(request)),
        RunStep::SealResult@ is SealResult,
        RunStep::WriteResult@ is WriteResult,
        RunStep::PublishResult@ is PublishResult,
        RunStep::Fail(fault)@ == StepView::Fail(fault@),
{
}

/// A path is let pass if and only if it is confined, a payload if and only if nothing is wrong
/// with it, and the directory of a child is its own.
pub proof fn checks_of_an_attempt(
    path: &str,
    windows: bool,
    confined: Result<(), Fault>,
    payload: &Payload,
    platform: Result<(), Fault>,
    checked: Result<(), Fault>,
    coven_home: &str,
    delegation_id: &str,
    child_id: &str,
    allocation: String,
    observation: String,
)
    requires
        call_ensures(confined_relative, (path, windows), confined),
        call_ensures(validate, (payload, platform), checked),
        call_ensures(allocation_path, (coven_home, delegation_id, child_id, windows), allocation),
        call_ensures(placement_observation_digest, (payload,), observation),
    ensures
        confined is Ok <==> is_confined(path@, windows),
        confined matches Err(fault) ==> fault@ == plain("delegation path escapes child root"@),
        checked is Ok <==> payload_fault(*payload, platform) is None,
        checked matches Err(fault) ==> payload_fault(*payload, platform) == Some(fault@),
        allocation@ == allocation_of(coven_home@, delegation_id@, child_id@, windows),
        payload.placement_observation_digest matches Some(claimed) ==> observation@ == claimed@,
{
}

} // verus!
