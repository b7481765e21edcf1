//! A matrix: one task, delegated along several axes at once, and the sum of what becomes of
//! its lanes.

use crate::delegation::{self, DelegationRequest};
use crate::digest::{sha256, sha256_of};
use crate::fault::{optional_view, plain, Fault, FaultView};
use crate::ids::{id_is_valid, is_id};
use crate::json::{
    empty, empty_object, field_of, json_encoding, json_model, json_text, text_value, texts_model, texts_value,
    with_field, Json,
};
use crate::numbers::{hex, hex_prefix};
use crate::order::{
    keys_differ, neighbours_differ, neighbours_tell_keys_apart, precedes, sort_by_key, sorted_by_key,
    sorted_by_key_is_sorted, same_elements_same_set, sorted_set, sorted_set_of,
    sorting_ignores_order, sorting_passes_through_views, Keyed, Named,
};
use crate::text::{byte_len, joined, same_text, views};
use serde_json::Value;
use vstd::prelude::*;
use vstd::string::*;
use vstd::utf8::encode_utf8;

verus! {

/// The protocol of a request for a matrix.
pub const PROTOCOL_VERSION: &'static str = "coven.delegation-matrix.v1";

/// The protocol of the sum of a matrix.
pub const RESULT_PROTOCOL_VERSION: &'static str = "coven.delegation-matrix-result.v1";

/// The most axes of a matrix.
pub const MAX_AXES: usize = 32;

/// The most requirements, and the most preferences, of an axis.
pub const MAX_CAPABILITIES_PER_AXIS: usize = 128;

/// The most bytes of a requirement or a preference.
pub const MAX_CAPABILITY_BYTES: usize = 256;

/// How many lanes must succeed.
#[derive(Debug, Clone, Copy, PartialEq, Eq, Structural)]
pub enum FailureMode {
    AllRequired,
    AllowPartial,
}

/// How many lanes must succeed.
#[derive(Debug, Clone, Copy, PartialEq, Eq, Structural)]
pub struct FailurePolicy {
    pub mode: FailureMode,
    pub min_successful: Option<usize>,
}

/// One axis of a matrix.
#[derive(Debug)]
pub struct MatrixAxis {
    pub key: String,
    pub requirements: Vec<String>,
    pub preferences: Vec<String>,
    pub result_locator: Value,
}

/// What an axis holds.
pub struct AxisView {
    pub key: Seq<char>,
    pub requirements: Seq<Seq<char>>,
    pub preferences: Seq<Seq<char>>,
    pub result_locator: Json,
}

impl View for MatrixAxis {
    type V = AxisView;

    open spec fn view(&self) -> AxisView {
        AxisView {
            key: self.key@,
            requirements: views(self.requirements@),
            preferences: views(self.preferences@),
            result_locator: json_model(self.result_locator),
        }
    }
}

impl Named for AxisView {
    open spec fn key(&self) -> Seq<char> {
        self.key
    }
}

impl Named for MatrixAxis {
    open spec fn key(&self) -> Seq<char> {
        self.key@
    }
}

impl Keyed for MatrixAxis {
    fn key_text(&self) -> (key: &str) {
        self.key.as_str()
    }
}

/// What axes hold.
pub open spec fn axis_views(axes: Seq<MatrixAxis>) -> Seq<AxisView> {
    axes.map_values(|axis: MatrixAxis| axis@)
}

/// A request for a matrix.
#[derive(Debug)]
pub struct MatrixRequest {
    pub protocol_version: String,
    pub matrix_id: Option<String>,
    pub parent_session_id: Option<String>,
    pub parent_repo: String,
    pub base_revision: String,
    pub task: String,
    pub workspace_driver: String,
    pub base_checkpoint: Value,
    pub axes: Vec<MatrixAxis>,
    pub harness: String,
    pub failure_policy: FailurePolicy,
}

/// What a request for a matrix holds.
pub struct RequestView {
    pub protocol_version: Seq<char>,
    pub matrix_id: Option<Seq<char>>,
    pub parent_session_id: Option<Seq<char>>,
    pub parent_repo: Seq<char>,
    pub base_revision: Seq<char>,
    pub task: Seq<char>,
    pub workspace_driver: Seq<char>,
    pub base_checkpoint: Json,
    pub axes: Seq<AxisView>,
    pub harness: Seq<char>,
    pub failure_policy: FailurePolicy,
}

impl View for MatrixRequest {
    type V = RequestView;

    open spec fn view(&self) -> RequestView {
        RequestView {
            protocol_version: self.protocol_version@,
            matrix_id: optional_view(self.matrix_id),
            parent_session_id: optional_view(self.parent_session_id),
            parent_repo: self.parent_repo@,
            base_revision: self.base_revision@,
            task: self.task@,
            workspace_driver: self.workspace_driver@,
            base_checkpoint: json_model(self.base_checkpoint),
            axes: axis_views(self.axes@),
            harness: self.harness@,
            failure_policy: self.failure_policy,
        }
    }
}

/// Whether a list holds a capability that is empty or too long.
pub open spec fn has_bad_capability(list: Seq<Seq<char>>) -> bool {
    exists|i: int|
        0 <= i < list.len() && ((#[trigger] list[i]).len() == 0 || encode_utf8(list[i]).len()
            > MAX_CAPABILITY_BYTES)
}

/// What is wrong with an axis, the first thing first.
pub open spec fn axis_fault(axis: AxisView) -> Option<FaultView> {
    if !is_id(axis.key) {
        Some(plain("axis key"@ + " is invalid"@))
    } else if axis.requirements.len() > MAX_CAPABILITIES_PER_AXIS || axis.preferences.len()
        > MAX_CAPABILITIES_PER_AXIS {
        Some(plain("matrix axis capability input exceeds limits"@))
    } else if has_bad_capability(axis.requirements) || has_bad_capability(axis.preferences) {
        Some(plain("matrix capability is invalid"@))
    } else {
        None
    }
}

/// What is wrong with the first axis of which something is.
pub open spec fn axes_fault(axes: Seq<AxisView>) -> Option<FaultView>
    decreases axes.len(),
{
    if axes.len() == 0 {
        None
    } else if axis_fault(axes[0]) is Some {
        axis_fault(axes[0])
    } else {
        axes_fault(axes.skip(1))
    }
}

/// What is wrong with a policy for a number of axes.
pub open spec fn policy_fault(policy: FailurePolicy, axes: nat) -> Option<FaultView> {
    match (policy.mode, policy.min_successful) {
        (FailureMode::AllRequired, Some(_)) => Some(
            plain("allRequired does not accept minSuccessful"@),
        ),
        (FailureMode::AllRequired, None) => None,
        (FailureMode::AllowPartial, None) => Some(
            plain("allowPartial requires minSuccessful"@),
        ),
        (FailureMode::AllowPartial, Some(minimum)) => if minimum == 0 || minimum > axes {
            Some(plain("minSuccessful is outside the matrix bounds"@))
        } else {
            None
        },
    }
}

/// What is wrong with a request, the first thing first.
pub open spec fn request_fault(request: RequestView) -> Option<FaultView> {
    if request.protocol_version != PROTOCOL_VERSION@ {
        Some(plain("unsupported delegation matrix protocol"@))
    } else if request.axes.len() == 0 || request.axes.len() > MAX_AXES {
        Some(plain("delegation matrix must contain between 1 and 32 axes"@))
    } else if policy_fault(request.failure_policy, request.axes.len()) is Some {
        policy_fault(request.failure_policy, request.axes.len())
    } else if axes_fault(request.axes) is Some {
        axes_fault(request.axes)
    } else if !keys_differ(request.axes) {
        Some(plain("matrix axis keys must be unique"@))
    } else {
        None
    }
}

/// An axis with its capabilities sorted, each once.
pub open spec fn normal_axis(axis: AxisView) -> AxisView {
    AxisView {
        requirements: sorted_set_of(axis.requirements),
        preferences: sorted_set_of(axis.preferences),
        ..axis
    }
}

/// Axes with their capabilities sorted, each once.
pub open spec fn normal_axes(axes: Seq<AxisView>) -> Seq<AxisView> {
    axes.map_values(|axis: AxisView| normal_axis(axis))
}

/// A request in its normal form: its axes in the order of their keys, the capabilities of
/// each sorted.
pub open spec fn normal_request(request: RequestView) -> RequestView {
    RequestView { axes: sorted_by_key(normal_axes(request.axes)), ..request }
}

/// Two requests that differ only in the order of their axes, and in the order and the
/// repetition of the capabilities of an axis, have one normal form.
pub proof fn reordered_requests_agree(a: RequestView, b: RequestView)
    requires
        a == (RequestView { axes: a.axes, ..b }),
        keys_differ(a.axes),
        normal_axes(a.axes).to_multiset() == normal_axes(b.axes).to_multiset(),
    ensures
        normal_request(a) == normal_request(b),
{
    let left = normal_axes(a.axes);
    assert(keys_differ(left)) by {
        assert forall|i: int, j: int|
            0 <= i < left.len() && 0 <= j < left.len() && i != j implies (
        #[trigger] left[i]).key() != (#[trigger] left[j]).key() by {
            assert(left[i].key() == a.axes[i].key());
            assert(left[j].key() == a.axes[j].key());
        }
    }
    sorting_ignores_order(left, normal_axes(b.axes));
}

/// Two axes with one key and one locator, and the same capabilities in any order and number,
/// have one normal form.
pub proof fn reordered_capabilities_agree(a: AxisView, b: AxisView)
    requires
        a.key == b.key,
        a.result_locator == b.result_locator,
        forall|text: Seq<char>| #[trigger]
            a.requirements.contains(text) <==> b.requirements.contains(text),
        forall|text: Seq<char>| #[trigger]
            a.preferences.contains(text) <==> b.preferences.contains(text),
    ensures
        normal_axis(a) == normal_axis(b),
{
    same_elements_same_set(a.requirements, b.requirements);
    same_elements_same_set(a.preferences, b.preferences);
}

/// Refuses a text that is no identifier.
pub fn validate_id(value: &str, field_name: &str) -> (checked: Result<(), Fault>)
    ensures
        match checked {
            Ok(()) => is_id(value@),
            Err(fault) => !is_id(value@) && fault@ == plain(field_name@ + " is invalid"@),
        },
{
    if id_is_valid(value) {
        Ok(())
    } else {
        Err(Fault::plain(joined(field_name, " is invalid").as_str()))
    }
}

/// Capabilities sorted, each once; refused where one is empty or too long.
pub fn normalize_strings(values: &Vec<String>) -> (normal: Result<Vec<String>, Fault>)
    ensures
        match normal {
            Ok(list) => !has_bad_capability(views(values@)) && views(list@) == sorted_set_of(
                views(values@),
            ),
            Err(fault) => has_bad_capability(views(values@)) && fault@ == plain(
                "matrix capability is invalid"@,
            ),
        },
{
    let ghost texts = views(values@);
    let mut i: usize = 0;
    while i < values.len()
        invariant
            i <= values@.len(),
            texts == views(values@),
            forall|k: int|
                0 <= k < i ==> (#[trigger] texts[k]).len() > 0 && encode_utf8(texts[k]).len()
                    <= MAX_CAPABILITY_BYTES,
        decreases values@.len() - i,
    {
        assert(texts[i as int] == values@[i as int]@);
        if values[i].as_str().is_empty() || byte_len(values[i].as_str()) > MAX_CAPABILITY_BYTES {
            return Err(Fault::plain("matrix capability is invalid"));
        }
        i += 1;
    }
    Ok(sorted_set(values.as_slice()))
}

fn normalize_axis(axis: &MatrixAxis) -> (normal: Result<MatrixAxis, Fault>)
    ensures
        match normal {
            Ok(out) => axis_fault(axis@) is None && out@ == normal_axis(axis@),
            Err(fault) => axis_fault(axis@) == Some(fault@),
        },
{
    if let Err(fault) = validate_id(axis.key.as_str(), "axis key") {
        return Err(fault);
    }
    if axis.requirements.len() > MAX_CAPABILITIES_PER_AXIS || axis.preferences.len()
        > MAX_CAPABILITIES_PER_AXIS {
        return Err(Fault::plain("matrix axis capability input exceeds limits"));
    }
    let requirements = match normalize_strings(&axis.requirements) {
        Ok(list) => list,
        Err(fault) => {
            return Err(fault);
        },
    };
    let preferences = match normalize_strings(&axis.preferences) {
        Ok(list) => list,
        Err(fault) => {
            return Err(fault);
        },
    };
    Ok(
        MatrixAxis {
            key: axis.key.clone(),
            requirements,
            preferences,
            result_locator: axis.result_locator.clone(),
        },
    )
}

fn normalize_axes(axes: &Vec<MatrixAxis>) -> (normal: Result<Vec<MatrixAxis>, Fault>)
    ensures
        match normal {
            Ok(out) => axes_fault(axis_views(axes@)) is None && axis_views(out@) == normal_axes(
                axis_views(axes@),
            ),
            Err(fault) => axes_fault(axis_views(axes@)) == Some(fault@),
        },
{
    let ghost whole = axis_views(axes@);
    let mut out: Vec<MatrixAxis> = Vec::new();
    let mut i: usize = 0;
    assert(whole.skip(0) =~= whole);
    assert(whole.take(0) =~= seq![]);
    assert(axis_views(out@) =~= normal_axes(whole.take(0)));
    while i < axes.len()
        invariant
            i <= axes@.len(),
            whole == axis_views(axes@),
            axes_fault(whole) == axes_fault(whole.skip(i as int)),
            axis_views(out@) == normal_axes(whole.take(i as int)),
        decreases axes@.len() - i,
    {
        assert(whole.skip(i as int)[0] == axes@[i as int]@);
        assert(whole.skip(i as int).skip(1) =~= whole.skip(i as int + 1));
        let ghost before = out@;
        match normalize_axis(&axes[i]) {
            Err(fault) => {
                return Err(fault);
            },
            Ok(axis) => {
                let ghost added = axis@;
                out.push(axis);
                assert(axis_views(out@) =~= axis_views(before).push(added));
                assert(normal_axes(whole.take(i as int + 1)) =~= normal_axes(
                    whole.take(i as int),
                ).push(added));
            },
        }
        i += 1;
    }
    assert(whole.take(i as int) =~= whole);
    assert(whole.skip(i as int).len() == 0);
    Ok(out)
}

fn neighbours_are_different(axes: &Vec<MatrixAxis>) -> (different: bool)
    ensures
        different == neighbours_differ(axes@),
{
    let mut i: usize = 1;
    while i < axes.len()
        invariant
            1 <= i,
            axes@.len() > 0 ==> i <= axes@.len(),
            forall|k: int|
                0 <= k < i - 1 && k < axes@.len() - 1 ==> (#[trigger] axes@[k]).key() != axes@[k
                    + 1].key(),
        decreases axes@.len() - i,
    {
        if same_text(axes[i - 1].key.as_str(), axes[i].key.as_str()) {
            assert(axes@[i as int - 1].key() == axes@[i as int - 1 + 1].key());
            return false;
        }
        i += 1;
    }
    true
}

proof fn normal_keys_tell(request: Seq<MatrixAxis>, normal: Seq<MatrixAxis>)
    requires
        axis_views(normal) == normal_axes(axis_views(request)),
    ensures
        keys_differ(axis_views(request)) <==> neighbours_differ(sorted_by_key(normal)),
        axis_views(sorted_by_key(normal)) == sorted_by_key(normal_axes(axis_views(request))),
{
    let seen = axis_views(request);
    let sorted = sorted_by_key(normal);
    sorting_passes_through_views(normal, |axis: MatrixAxis| axis@);
    sorted_by_key_is_sorted(normal);
    assert(normal.len() == seen.len()) by {
        assert(axis_views(normal).len() == normal.len());
        assert(normal_axes(seen).len() == seen.len());
    }
    assert forall|i: int| 0 <= i < normal.len() implies (#[trigger] normal[i]).key()
        == seen[i].key() by {
        assert(axis_views(normal)[i] == normal[i]@);
        assert(normal_axes(seen)[i] == normal_axis(seen[i]));
    }
    if keys_differ(seen) {
        assert(keys_differ(normal)) by {
            assert forall|i: int, j: int|
                0 <= i < normal.len() && 0 <= j < normal.len() && i != j implies (
            #[trigger] normal[i]).key() != (#[trigger] normal[j]).key() by {
                assert(seen[i].key() != seen[j].key());
            }
        }
        crate::order::sorting_keeps_keys_apart(normal);
    }
    if neighbours_differ(sorted) {
        neighbours_tell_keys_apart(sorted);
        crate::order::keys_apart_before_sorting(normal);
        assert forall|i: int, j: int|
            0 <= i < seen.len() && 0 <= j < seen.len() && i != j implies (
        #[trigger] seen[i]).key() != (#[trigger] seen[j]).key() by {
            assert(normal[i].key() != normal[j].key());
        }
    }
}

/// A request in its normal form, or what is wrong with it.
pub fn normalize_and_validate(request: MatrixRequest) -> (normal: Result<MatrixRequest, Fault>)
    ensures
        match normal {
            Ok(out) => request_fault(request@) is None && out@ == normal_request(request@),
            Err(fault) => request_fault(request@) == Some(fault@),
        },
{
    assert(request@.axes.len() == request.axes@.len());
    if !same_text(request.protocol_version.as_str(), PROTOCOL_VERSION) {
        return Err(Fault::plain("unsupported delegation matrix protocol"));
    }
    if request.axes.len() == 0 || request.axes.len() > MAX_AXES {
        return Err(Fault::plain("delegation matrix must contain between 1 and 32 axes"));
    }
    match request.failure_policy.mode {
        FailureMode::AllRequired => {
            if request.failure_policy.min_successful.is_some() {
                return Err(Fault::plain("allRequired does not accept minSuccessful"));
            }
        },
        FailureMode::AllowPartial => match request.failure_policy.min_successful {
            None => {
                return Err(Fault::plain("allowPartial requires minSuccessful"));
            },
            Some(minimum) => {
                if minimum == 0 || minimum > request.axes.len() {
                    return Err(Fault::plain("minSuccessful is outside the matrix bounds"));
                }
            },
        },
    }
    let normal = match normalize_axes(&request.axes) {
        Ok(axes) => axes,
        Err(fault) => {
            return Err(fault);
        },
    };
    proof {
        normal_keys_tell(request.axes@, normal@);
    }
    let axes = sort_by_key(normal);
    if !neighbours_are_different(&axes) {
        return Err(Fault::plain("matrix axis keys must be unique"));
    }
    Ok(
        MatrixRequest {
            protocol_version: request.protocol_version,
            matrix_id: request.matrix_id,
            parent_session_id: request.parent_session_id,
            parent_repo: request.parent_repo,
            base_revision: request.base_revision,
            task: request.task,
            workspace_driver: request.workspace_driver,
            base_checkpoint: request.base_checkpoint,
            axes,
            harness: request.harness,
            failure_policy: request.failure_policy,
        },
    )
}

/// What a lane's identifier is made from.
pub open spec fn lane_model(matrix_id: Seq<char>, axis: AxisView) -> Json {
    Json::Object(
        Map::<Seq<char>, Json>::empty().insert("matrixId"@, Json::Text(matrix_id)).insert(
            "axisKey"@,
            Json::Text(axis.key),
        ).insert("requirements"@, texts_model(axis.requirements)).insert(
            "preferences"@,
            texts_model(axis.preferences),
        ),
    )
}

/// The identifier of the delegation that serves a lane.
pub open spec fn lane_id_of(matrix_id: Seq<char>, axis: AxisView) -> Seq<char> {
    "mxdlg_"@ + hex(sha256(encode_utf8(json_encoding(lane_model(matrix_id, axis)))).take(16))
}

/// The identifier of the delegation that serves a lane: the same each time, for the same
/// matrix and the same axis.
pub fn lane_delegation_id(matrix_id: &str, axis: &MatrixAxis) -> (id: String)
    ensures
        id@ == lane_id_of(matrix_id@, axis@),
{
    let canonical = empty_object();
    let canonical = with_field(canonical, "matrixId", text_value(matrix_id));
    let canonical = with_field(canonical, "axisKey", text_value(axis.key.as_str()));
    let canonical = with_field(
        canonical,
        "requirements",
        texts_value(axis.requirements.as_slice()),
    );
    let canonical = with_field(
        canonical,
        "preferences",
        texts_value(axis.preferences.as_slice()),
    );
    let digest = sha256_of(json_text(&canonical).as_str().as_bytes());
    joined("mxdlg_", hex_prefix(digest.as_slice(), 16).as_str())
}

/// A lane of a matrix: its axis, its place, and the delegation that serves it.
#[derive(Debug)]
pub struct LaneLink {
    pub axis_key: String,
    pub ordinal: usize,
    pub delegation_id: String,
}

/// Whether links name the lanes of axes, in their order.
pub open spec fn links_lanes(
    links: Seq<LaneLink>,
    matrix_id: Seq<char>,
    axes: Seq<AxisView>,
) -> bool {
    &&& links.len() == axes.len()
    &&& forall|i: int|
        0 <= i < links.len() ==> (#[trigger] links[i]).axis_key@ == axes[i].key
            && links[i].ordinal == i && links[i].delegation_id@ == lane_id_of(matrix_id, axes[i])
}

fn lane_links(matrix_id: &str, axes: &Vec<MatrixAxis>) -> (links: Vec<LaneLink>)
    ensures
        links_lanes(links@, matrix_id@, axis_views(axes@)),
{
    let mut links: Vec<LaneLink> = Vec::new();
    let mut i: usize = 0;
    let ghost seen = axis_views(axes@);
    while i < axes.len()
        invariant
            i <= axes@.len(),
            seen == axis_views(axes@),
            links@.len() == i,
            forall|k: int|
                0 <= k < i ==> (#[trigger] links@[k]).axis_key@ == seen[k].key
                    && links@[k].ordinal == k && links@[k].delegation_id@ == lane_id_of(
                    matrix_id@,
                    seen[k],
                ),
        decreases axes@.len() - i,
    {
        assert(seen[i as int] == axes@[i as int]@);
        links.push(
            LaneLink {
                axis_key: axes[i].key.clone(),
                ordinal: i,
                delegation_id: lane_delegation_id(matrix_id, &axes[i]),
            },
        );
        i += 1;
    }
    links
}

/// The identifier of a matrix: the one asked for, or a fresh one.
pub open spec fn chosen_id(asked: Option<Seq<char>>, fresh: Seq<char>) -> Seq<char> {
    match asked {
        Some(id) => id,
        None => "mx_"@ + fresh,
    }
}

/// A matrix that can begin: its request in normal form, with its identifier, and its lanes.
#[derive(Debug)]
pub struct MatrixStart {
    pub matrix_id: String,
    pub request: MatrixRequest,
    pub lanes: Vec<LaneLink>,
}

/// Why a matrix cannot begin.
pub open spec fn start_fault(request: RequestView, fresh: Seq<char>) -> Option<FaultView> {
    if request_fault(request) is Some {
        request_fault(request)
    } else if !is_id(chosen_id(request.matrix_id, fresh)) {
        Some(plain("matrixId"@ + " is invalid"@))
    } else {
        None
    }
}

/// Begins a matrix, given a fresh name.
pub fn start(request: MatrixRequest, fresh: &str) -> (started: Result<MatrixStart, Fault>)
    ensures
        match started {
            Ok(start) => {
                let id = chosen_id(request@.matrix_id, fresh@);
                &&& start_fault(request@, fresh@) is None
                &&& start.matrix_id@ == id
                &&& start.request@ == (RequestView {
                    matrix_id: Some(id),
                    ..normal_request(request@)
                })
                &&& links_lanes(start.lanes@, id, start.request@.axes)
            },
            Err(fault) => start_fault(request@, fresh@) == Some(fault@),
        },
{
    let mut normal = match normalize_and_validate(request) {
        Ok(normal) => normal,
        Err(fault) => {
            return Err(fault);
        },
    };
    let matrix_id = match &normal.matrix_id {
        Some(id) => id.clone(),
        None => joined("mx_", fresh),
    };
    if let Err(fault) = validate_id(matrix_id.as_str(), "matrixId") {
        return Err(fault);
    }
    normal.matrix_id = Some(matrix_id.clone());
    let lanes = lane_links(matrix_id.as_str(), &normal.axes);
    Ok(MatrixStart { matrix_id, request: normal, lanes })
}

/// Lets a matrix begin again only where its request has not changed.
pub fn check_replay(stored: &str, encoded: &str) -> (checked: Result<(), Fault>)
    ensures
        match checked {
            Ok(()) => stored@ == encoded@,
            Err(fault) => stored@ != encoded@ && fault@ == plain(
                "matrix id replay changed immutable request fields"@,
            ),
        },
{
    if same_text(stored, encoded) {
        Ok(())
    } else {
        Err(Fault::plain("matrix id replay changed immutable request fields"))
    }
}

/// Lets a lane be recorded again only at its place and with its delegation.
pub fn check_lane_replay(ordinal: usize, delegation_id: &str, link: &LaneLink) -> (checked: Result<
    (),
    Fault,
>)
    ensures
        match checked {
            Ok(()) => ordinal == link.ordinal && delegation_id@ == link.delegation_id@,
            Err(fault) => !(ordinal == link.ordinal && delegation_id@ == link.delegation_id@)
                && fault@ == plain("matrix lane replay changed immutable linkage"@),
        },
{
    if ordinal == link.ordinal && same_text(delegation_id, link.delegation_id.as_str()) {
        Ok(())
    } else {
        Err(Fault::plain("matrix lane replay changed immutable linkage"))
    }
}

/// Whether a delegation serves a lane of a matrix.
pub open spec fn serves_lane(
    child: DelegationRequest,
    request: RequestView,
    matrix_id: Seq<char>,
    axis: AxisView,
) -> bool {
    &&& child.protocol_version@ == delegation::PROTOCOL_VERSION@
    &&& optional_view(child.delegation_id) == Some(lane_id_of(matrix_id, axis))
    &&& optional_view(child.parent_session_id) == request.parent_session_id
    &&& child.parent_repo@ == request.parent_repo
    &&& child.base_revision@ == request.base_revision
    &&& child.task@ == request.task
    &&& child.workspace_driver@ == request.workspace_driver
    &&& json_model(child.base_checkpoint) == request.base_checkpoint
    &&& json_model(child.result_locator) == axis.result_locator
    &&& views(child.requirements@) == axis.requirements
    &&& views(child.preferences@) == axis.preferences
    &&& child.harness@ == request.harness
}

fn child_request(request: &MatrixRequest, matrix_id: &str, axis: &MatrixAxis) -> (child:
    DelegationRequest)
    ensures
        serves_lane(child, request@, matrix_id@, axis@),
{
    DelegationRequest {
        protocol_version: delegation::PROTOCOL_VERSION.to_owned(),
        delegation_id: Some(lane_delegation_id(matrix_id, axis)),
        parent_session_id: match &request.parent_session_id {
            Some(id) => Some(id.clone()),
            None => None,
        },
        parent_repo: request.parent_repo.clone(),
        base_revision: request.base_revision.clone(),
        task: request.task.clone(),
        workspace_driver: request.workspace_driver.clone(),
        base_checkpoint: request.base_checkpoint.clone(),
        result_locator: axis.result_locator.clone(),
        requirements: axis.requirements.clone(),
        preferences: axis.preferences.clone(),
        harness: request.harness.clone(),
    }
}

/// The delegations that serve the lanes of a matrix, in the order of its axes.
pub fn ensure_children(request: &MatrixRequest) -> (children: Result<
    Vec<DelegationRequest>,
    Fault,
>)
    ensures
        match (children, request.matrix_id) {
            (Ok(children), Some(matrix_id)) => {
                &&& children@.len() == request.axes@.len()
                &&& forall|i: int|
                    0 <= i < children@.len() ==> serves_lane(
                        #[trigger] children@[i],
                        request@,
                        matrix_id@,
                        request.axes@[i]@,
                    )
            },
            (Err(fault), None) => fault@ == plain("matrix omitted matrixId"@),
            _ => false,
        },
{
    let matrix_id = match &request.matrix_id {
        Some(id) => id,
        None => {
            return Err(Fault::plain("matrix omitted matrixId"));
        },
    };
    let mut children: Vec<DelegationRequest> = Vec::new();
    let mut i: usize = 0;
    while i < request.axes.len()
        invariant
            i <= request.axes@.len(),
            children@.len() == i,
            forall|k: int|
                0 <= k < i ==> serves_lane(
                    #[trigger] children@[k],
                    request@,
                    matrix_id@,
                    request.axes@[k]@,
                ),
        decreases request.axes@.len() - i,
    {
        children.push(child_request(request, matrix_id.as_str(), &request.axes[i]));
        i += 1;
    }
    Ok(children)
}

/// The delegations whose results are collected to bring a matrix up to date, in the order of
/// its axes.
pub fn reconcile(matrix_id: &str, request: &MatrixRequest) -> (ids: Vec<String>)
    ensures
        ids@.len() == request.axes@.len(),
        forall|i: int|
            0 <= i < ids@.len() ==> (#[trigger] ids@[i])@ == lane_id_of(
                matrix_id@,
                request.axes@[i]@,
            ),
{
    let mut ids: Vec<String> = Vec::new();
    let mut i: usize = 0;
    while i < request.axes.len()
        invariant
            i <= request.axes@.len(),
            ids@.len() == i,
            forall|k: int|
                0 <= k < i ==> (#[trigger] ids@[k])@ == lane_id_of(
                    matrix_id@,
                    request.axes@[k]@,
                ),
        decreases request.axes@.len() - i,
    {
        ids.push(lane_delegation_id(matrix_id, &request.axes[i]));
        i += 1;
    }
    ids
}

/// What the daemon says of a matrix that it could not bring up to date.
pub fn recovery_notice(matrix_id: &str, fault: &Fault) -> (notice: String)
    ensures
        notice@ == "coven daemon: delegation matrix "@ + matrix_id@ + " recovery: "@
            + fault@.chain(),
{
    let start = joined("coven daemon: delegation matrix ", matrix_id);
    let middle = joined(start.as_str(), " recovery: ");
    joined(middle.as_str(), fault.chain().as_str())
}

/// A request for a matrix is served if and only if it speaks the protocol, has one to 32 axes
/// of different keys, each in order, and a policy that fits: all lanes are required without a
/// number, or a part is allowed with a number from one to that of the axes.
pub proof fn matrices_are_served_where_they_can_be(request: RequestView)
    ensures
        request_fault(request) is None <==> {
            &&& request.protocol_version == "coven.delegation-matrix.v1"@
            &&& 1 <= request.axes.len() <= 32
            &&& request.failure_policy.mode == FailureMode::AllRequired
                ==> request.failure_policy.min_successful is None
            &&& request.failure_policy.mode == FailureMode::AllowPartial ==> (
            request.failure_policy.min_successful matches Some(needed) && 1 <= needed
                <= request.axes.len())
            &&& forall|i: int|
                0 <= i < request.axes.len() ==> axis_fault(#[trigger] request.axes[i]) is None
            &&& forall|i: int, j: int|
                0 <= i < j < request.axes.len() ==> (#[trigger] request.axes[i]).key != (
                #[trigger] request.axes[j]).key
        },
{
    axes_are_faultless(request.axes);
    if keys_differ(request.axes) {
        assert forall|i: int, j: int| 0 <= i < j < request.axes.len() implies (
        #[trigger] request.axes[i]).key != (#[trigger] request.axes[j]).key by {
            assert(request.axes[i].key() != request.axes[j].key());
        }
    }
    if forall|i: int, j: int|
        0 <= i < j < request.axes.len() ==> (#[trigger] request.axes[i]).key != (
        #[trigger] request.axes[j]).key {
        assert forall|i: int, j: int|
            0 <= i < request.axes.len() && 0 <= j < request.axes.len() && i != j implies (
        #[trigger] request.axes[i]).key() != (#[trigger] request.axes[j]).key() by {
            if i < j {
                assert(request.axes[i].key != request.axes[j].key);
            } else {
                assert(request.axes[j].key != request.axes[i].key);
            }
        }
    }
}

proof fn axes_are_faultless(axes: Seq<AxisView>)
    ensures
        axes_fault(axes) is None <==> forall|i: int|
            0 <= i < axes.len() ==> axis_fault(#[trigger] axes[i]) is None,
    decreases axes.len(),
{
    if axes.len() > 0 {
        let rest = axes.skip(1);
        axes_are_faultless(rest);
        if axes_fault(axes) is None {
            assert forall|i: int| 0 <= i < axes.len() implies axis_fault(
                #[trigger] axes[i],
            ) is None by {
                if i > 0 {
                    assert(axis_fault(rest[i - 1]) is None);
                }
            }
        }
        if forall|i: int| 0 <= i < axes.len() ==> axis_fault(#[trigger] axes[i]) is None {
            assert forall|i: int| 0 <= i < rest.len() implies axis_fault(
                #[trigger] rest[i],
            ) is None by {
                assert(axis_fault(axes[i + 1]) is None);
            }
        }
    }
}

/// An axis is in order if and only if its key is an identifier, it has at most 128
/// requirements and at most 128 preferences, and none of them is empty or longer than 256
/// bytes.
pub proof fn axes_are_bounded(axis: AxisView)
    ensures
        axis_fault(axis) is None <==> {
            &&& is_id(axis.key)
            &&& axis.requirements.len() <= 128
            &&& axis.preferences.len() <= 128
            &&& forall|i: int|
                0 <= i < axis.requirements.len() ==> 1 <= (#[trigger] axis.requirements[i]).len()
                    && encode_utf8(axis.requirements[i]).len() <= 256
            &&& forall|i: int|
                0 <= i < axis.preferences.len() ==> 1 <= (#[trigger] axis.preferences[i]).len()
                    && encode_utf8(axis.preferences[i]).len() <= 256
        },
        !is_id(axis.key) ==> axis_fault(axis) == Some(plain("axis key is invalid"@)),
        is_id(axis.key) && (axis.requirements.len() > 128 || axis.preferences.len() > 128)
            ==> axis_fault(axis) == Some(plain("matrix axis capability input exceeds limits"@)),
        is_id(axis.key) && axis.requirements.len() <= 128 && axis.preferences.len() <= 128
            && axis_fault(axis) is Some ==> axis_fault(axis) == Some(
            plain("matrix capability is invalid"@),
        ),
{
    reveal_strlit("axis key");
    reveal_strlit(" is invalid");
    reveal_strlit("axis key is invalid");
    assert("axis key"@ + " is invalid"@ =~= "axis key is invalid"@);
}

/// What is said of a request for a matrix that is refused: the protocol comes first, then the
/// number of axes, the policy, the first axis that is not in order, and keys that are the same.
pub proof fn refused_matrices_name_the_first_fault(request: RequestView, k: int)
    ensures
        ({
            let fault = request_fault(request);
            let policy = request.failure_policy;
            let speaks = request.protocol_version == "coven.delegation-matrix.v1"@;
            let sized = 1 <= request.axes.len() <= 32;
            let judged = if policy.mode == FailureMode::AllRequired {
                policy.min_successful is None
            } else {
                policy.min_successful matches Some(needed) && 1 <= needed <= request.axes.len()
            };
            &&& !speaks ==> fault == Some(plain("unsupported delegation matrix protocol"@))
            &&& speaks && !sized ==> fault == Some(
                plain("delegation matrix must contain between 1 and 32 axes"@),
            )
            &&& speaks && sized && !judged && policy.mode == FailureMode::AllRequired ==> fault
                == Some(plain("allRequired does not accept minSuccessful"@))
            &&& speaks && sized && policy.mode == FailureMode::AllowPartial
                && policy.min_successful is None ==> fault == Some(
                plain("allowPartial requires minSuccessful"@),
            )
            &&& speaks && sized && policy.mode == FailureMode::AllowPartial
                && policy.min_successful is Some && !judged ==> fault == Some(
                plain("minSuccessful is outside the matrix bounds"@),
            )
            &&& speaks && sized && judged && 0 <= k < request.axes.len() && axis_fault(
                request.axes[k],
            ) is Some && (forall|i: int|
                0 <= i < k ==> axis_fault(#[trigger] request.axes[i]) is None) ==> fault
                == axis_fault(request.axes[k])
            &&& speaks && sized && judged && fault is Some && (forall|i: int|
                0 <= i < request.axes.len() ==> axis_fault(#[trigger] request.axes[i]) is None)
                ==> fault == Some(plain("matrix axis keys must be unique"@))
        }),
{
    axes_are_faultless(request.axes);
    if 0 <= k < request.axes.len() && axis_fault(request.axes[k]) is Some && (forall|i: int|
        0 <= i < k ==> axis_fault(#[trigger] request.axes[i]) is None) {
        first_bad_axis_is_named(request.axes, k);
    }
}

proof fn first_bad_axis_is_named(axes: Seq<AxisView>, k: int)
    requires
        0 <= k < axes.len(),
        axis_fault(axes[k]) is Some,
        forall|i: int| 0 <= i < k ==> axis_fault(#[trigger] axes[i]) is None,
    ensures
        axes_fault(axes) == axis_fault(axes[k]),
    decreases axes.len(),
{
    if k > 0 {
        let rest = axes.skip(1);
        assert(axis_fault(axes[0]) is None);
        assert forall|i: int| 0 <= i < k - 1 implies axis_fault(#[trigger] rest[i]) is None by {
            assert(axis_fault(axes[i + 1]) is None);
        }
        first_bad_axis_is_named(rest, k - 1);
    }
}

/// The normal form of a request keeps all of it but the order of its axes and of their
/// capabilities: each axis is there once under its key, with its locator and the same
/// capabilities, each once and sorted; the axes are in the order of their keys.
pub proof fn normal_forms_keep_the_request(
    request: RequestView,
    axis: AxisView,
    text: Seq<char>,
)
    requires
        request.axes.contains(axis),
    ensures
        ({
            let normal = normal_request(request);
            &&& normal == (RequestView { axes: normal.axes, ..request })
            &&& normal.axes.len() == request.axes.len()
            &&& forall|i: int, j: int|
                0 <= i < j < normal.axes.len() ==> !precedes(
                    (#[trigger] normal.axes[j]).key,
                    (#[trigger] normal.axes[i]).key,
                )
            &&& exists|i: int|
                0 <= i < normal.axes.len() && {
                    let kept = #[trigger] normal.axes[i];
                    &&& kept.key == axis.key
                    &&& kept.result_locator == axis.result_locator
                    &&& kept.requirements.contains(text) <==> axis.requirements.contains(text)
                    &&& kept.preferences.contains(text) <==> axis.preferences.contains(text)
                    &&& forall|p: int, q: int|
                        0 <= p < q < kept.requirements.len() ==> precedes(
                            #[trigger] kept.requirements[p],
                            #[trigger] kept.requirements[q],
                        )
                    &&& forall|p: int, q: int|
                        0 <= p < q < kept.preferences.len() ==> precedes(
                            #[trigger] kept.preferences[p],
                            #[trigger] kept.preferences[q],
                        )
                }
        }),
{
    broadcast use vstd::seq_lib::group_to_multiset_ensures;

    let normal = normal_request(request);
    let mapped = normal_axes(request.axes);
    sorted_by_key_is_sorted(mapped);
    assert forall|i: int, j: int| 0 <= i < j < normal.axes.len() implies !precedes(
        (#[trigger] normal.axes[j]).key,
        (#[trigger] normal.axes[i]).key,
    ) by {
        assert(!precedes(normal.axes[j].key(), normal.axes[i].key()));
    }
    let at = choose|at: int| 0 <= at < request.axes.len() && request.axes[at] == axis;
    let kept = normal_axis(axis);
    assert(mapped[at] == kept);
    assert(mapped.contains(kept));
    assert(mapped.to_multiset().count(kept) > 0);
    assert(normal.axes.to_multiset().count(kept) > 0);
    assert(normal.axes.contains(kept));
    let i = choose|i: int| 0 <= i < normal.axes.len() && normal.axes[i] == kept;
    crate::order::sorted_sets_hold_each_text_once(axis.requirements, text);
    crate::order::sorted_sets_hold_each_text_once(axis.preferences, text);
    assert(normal.axes[i] == kept);
}

/// The delegation of a lane is named by the digest of the JSON text that holds the matrix, the
/// axis's key and its capabilities, and nothing else of the request.
pub proof fn lanes_are_named_by_matrix_and_axis(matrix_id: Seq<char>, axis: AxisView)
    ensures
        exists|whole: Json|
            {
                &&& lane_id_of(matrix_id, axis) == "mxdlg_"@ + hex(
                    sha256(encode_utf8(#[trigger] json_encoding(whole))).take(16),
                )
                &&& field_of(whole, "matrixId"@) == Some(Json::Text(matrix_id))
                &&& field_of(whole, "axisKey"@) == Some(Json::Text(axis.key))
                &&& field_of(whole, "requirements"@) == Some(
                    Json::Array(axis.requirements.map_values(|text: Seq<char>| Json::Text(text))),
                )
                &&& field_of(whole, "preferences"@) == Some(
                    Json::Array(axis.preferences.map_values(|text: Seq<char>| Json::Text(text))),
                )
                &&& whole->Object_0.dom().len() == 4
            },
{
    reveal_strlit("matrixId");
    reveal_strlit("axisKey");
    reveal_strlit("requirements");
    reveal_strlit("preferences");
    assert("matrixId"@.len() == 8);
    assert("axisKey"@.len() == 7);
    assert("requirements"@.len() == 12);
    assert("preferences"@.len() == 11);
    let whole = lane_model(matrix_id, axis);
    let none = Map::<Seq<char>, Json>::empty().dom();
    assert(none =~= Set::empty());
    assert(whole->Object_0.dom() =~= none.insert("matrixId"@).insert("axisKey"@).insert(
        "requirements"@,
    ).insert("preferences"@));
    assert(lane_id_of(matrix_id, axis) == "mxdlg_"@ + hex(
        sha256(encode_utf8(json_encoding(whole))).take(16),
    ));
}

/// A matrix begins if and only if its request can be served and its name is an identifier: the
/// one asked for, or a fresh one after `mx_`.
pub proof fn matrices_begin_under_a_name(request: RequestView, fresh: Seq<char>)
    ensures
        start_fault(request, fresh) is None <==> request_fault(request) is None && (
        request.matrix_id matches Some(asked) ==> is_id(asked)) && (request.matrix_id is None
            ==> is_id("mx_"@ + fresh)),
        request.matrix_id matches Some(asked) ==> chosen_id(request.matrix_id, fresh) == asked,
        request.matrix_id is None ==> chosen_id(request.matrix_id, fresh) == "mx_"@ + fresh,
        request_fault(request) is Some ==> start_fault(request, fresh) == request_fault(request),
        request_fault(request) is None && start_fault(request, fresh) is Some ==> start_fault(
            request,
            fresh,
        ) == Some(plain("matrixId is invalid"@)),
{
    reveal_strlit("matrixId");
    reveal_strlit(" is invalid");
    reveal_strlit("matrixId is invalid");
    assert("matrixId"@ + " is invalid"@ =~= "matrixId is invalid"@);
}

/// There is one lane for each axis, at the place of the axis, under its key and with the name
/// of its delegation.
pub proof fn every_axis_has_its_lane(
    links: Seq<LaneLink>,
    matrix_id: Seq<char>,
    axes: Seq<AxisView>,
    i: int,
)
    requires
        links_lanes(links, matrix_id, axes),
        0 <= i < axes.len(),
    ensures
        links.len() == axes.len(),
        links[i].axis_key@ == axes[i].key,
        links[i].ordinal == i,
        links[i].delegation_id@ == lane_id_of(matrix_id, axes[i]),
{
}

/// A lane's delegation is asked for the matrix's task on the matrix's base, under the lane's
/// name, with the capabilities and the locator of its axis.
pub proof fn lanes_are_given_the_task(
    child: DelegationRequest,
    request: RequestView,
    matrix_id: Seq<char>,
    axis: AxisView,
)
    requires
        serves_lane(child, request, matrix_id, axis),
    ensures
        child.protocol_version@ == "coven.delegation.v1"@,
        child.delegation_id is Some,
        child.delegation_id->0@ == lane_id_of(matrix_id, axis),
        child.parent_session_id is Some <==> request.parent_session_id is Some,
        child.parent_session_id matches Some(session) ==> session@
            == request.parent_session_id->0,
        child.parent_repo@ == request.parent_repo,
        child.base_revision@ == request.base_revision,
        child.task@ == request.task,
        child.workspace_driver@ == request.workspace_driver,
        child.harness@ == request.harness,
        json_model(child.base_checkpoint) == request.base_checkpoint,
        json_model(child.result_locator) == axis.result_locator,
        views(child.requirements@) == axis.requirements,
        views(child.preferences@) == axis.preferences,
{
}

/// A matrix starts with its request in normal form under its name, and one lane for each axis.
pub proof fn starting_links_every_lane(
    request: MatrixRequest,
    fresh: &str,
    started: Result<MatrixStart, Fault>,
)
    requires
        call_ensures(start, (request, fresh), started),
    ensures
        started is Ok <==> start_fault(request@, fresh@) is None,
        started matches Err(fault) ==> start_fault(request@, fresh@) == Some(fault@),
        started matches Ok(start) ==> {
            &&& request.matrix_id matches Some(id) ==> start.matrix_id@ == id@
            &&& request.matrix_id is None ==> start.matrix_id@ == "mx_"@ + fresh@
            &&& start.request@ == (RequestView {
                matrix_id: Some(start.matrix_id@),
                ..normal_request(request@)
            })
            &&& start.lanes@.len() == request.axes@.len()
            &&& links_lanes(start.lanes@, start.matrix_id@, start.request@.axes)
        },
{
    let mapped = normal_axes(request@.axes);
    sorted_by_key_is_sorted(mapped);
}

/// A request in normal form comes of one that can be served, and of no other.
pub proof fn normal_forms_come_of_good_requests(
    request: MatrixRequest,
    normal: Result<MatrixRequest, Fault>,
)
    requires
        call_ensures(normalize_and_validate, (request,), normal),
    ensures
        normal is Ok <==> request_fault(request@) is None,
        normal matches Ok(out) ==> out@ == normal_request(request@),
        normal matches Err(fault) ==> request_fault(request@) == Some(fault@),
{
}

/// A matrix, or a lane of it, begins again only as it began.
pub proof fn matrices_begin_again_unchanged(
    stored: &str,
    encoded: &str,
    checked: Result<(), Fault>,
    ordinal: usize,
    delegation_id: &str,
    link: &LaneLink,
    lane: Result<(), Fault>,
)
    requires
        call_ensures(check_replay, (stored, encoded), checked),
        call_ensures(check_lane_replay, (ordinal, delegation_id, link), lane),
    ensures
        checked is Ok <==> stored@ == encoded@,
        checked matches Err(fault) ==> fault@ == plain(
            "matrix id replay changed immutable request fields"@,
        ),
        lane is Ok <==> ordinal == link.ordinal && delegation_id@ == link.delegation_id@,
        lane matches Err(fault) ==> fault@ == plain(
            "matrix lane replay changed immutable linkage"@,
        ),
{
}

/// Every axis of a matrix has one delegation, in the order of the axes: the one that is asked
/// for when the lanes are begun is the one that is collected when the matrix is brought up to
/// date.
pub proof fn lanes_are_collected_as_begun(
    request: &MatrixRequest,
    matrix_id: &str,
    children: Result<Vec<DelegationRequest>, Fault>,
    ids: Vec<String>,
    i: int,
)
    requires
        call_ensures(ensure_children, (request,), children),
        call_ensures(reconcile, (matrix_id, request), ids),
        request.matrix_id matches Some(id) && id@ == matrix_id@,
        0 <= i < request.axes@.len(),
    ensures
        children is Ok,
        children->Ok_0@.len() == request.axes@.len(),
        ids@.len() == request.axes@.len(),
        children->Ok_0@[i].delegation_id is Some,
        children->Ok_0@[i].delegation_id->0@ == ids@[i]@,
        ids@[i]@ == lane_id_of(matrix_id@, request.axes@[i]@),
        children->Ok_0@[i].task@ == request.task@,
        children->Ok_0@[i].base_revision@ == request.base_revision@,
        views(children->Ok_0@[i].requirements@) == views(request.axes@[i].requirements@),
        json_model(children->Ok_0@[i].result_locator) == json_model(
            request.axes@[i].result_locator,
        ),
{
    assert(serves_lane(children->Ok_0@[i], request@, matrix_id@, request.axes@[i]@));
    assert(ids@[i]@ == lane_id_of(matrix_id@, request.axes@[i]@));
}

/// A matrix that has no name has no lanes to begin; one that could not be brought up to date
/// is named.
pub proof fn nameless_matrices_have_no_lanes(
    request: &MatrixRequest,
    children: Result<Vec<DelegationRequest>, Fault>,
    matrix_id: &str,
    fault: &Fault,
    notice: String,
)
    requires
        call_ensures(ensure_children, (request,), children),
        call_ensures(recovery_notice, (matrix_id, fault), notice),
    ensures
        children is Err <==> request.matrix_id is None,
        children matches Err(missing) ==> missing@ == plain("matrix omitted matrixId"@),
        notice@ == "coven daemon: delegation matrix "@ + matrix_id@ + " recovery: "@
            + fault@.chain(),
{
}

/// A request and an axis show each thing that they hold under its own name.
pub proof fn requests_show_what_they_hold(request: MatrixRequest, axis: MatrixAxis, i: int)
    ensures
        request@.protocol_version == request.protocol_version@,
        request.matrix_id matches Some(id) ==> request@.matrix_id == Some(id@),
        request.matrix_id is None ==> request@.matrix_id is None,
        request.parent_session_id matches Some(id) ==> request@.parent_session_id == Some(id@),
        request.parent_session_id is None ==> request@.parent_session_id is None,
        request@.parent_repo == request.parent_repo@,
        request@.base_revision == request.base_revision@,
        request@.task == request.task@,
        request@.workspace_driver == request.workspace_driver@,
        request@.base_checkpoint == json_model(request.base_checkpoint),
        request@.harness == request.harness@,
        request@.failure_policy == request.failure_policy,
        request@.axes.len() == request.axes@.len(),
        0 <= i < request.axes@.len() ==> request@.axes[i] == request.axes@[i]@,
        axis@.key == axis.key@,
        axis@.requirements == views(axis.requirements@),
        axis@.preferences == views(axis.preferences@),
        axis@.result_locator == json_model(axis.result_locator),
{
}

/// The name of a lane's delegation is made of the matrix and the axis, and of nothing that the
/// order of the capabilities would change once they are sorted.
pub proof fn lane_names_are_made_of_matrix_and_axis(
    matrix_id: &str,
    axis: &MatrixAxis,
    id: String,
    values: &Vec<String>,
    normal: Result<Vec<String>, Fault>,
    text: Seq<char>,
)
    requires
        call_ensures(lane_delegation_id, (matrix_id, axis), id),
        call_ensures(normalize_strings, (values,), normal),
    ensures
        id@ == lane_id_of(matrix_id@, axis@),
        normal matches Ok(list) ==> (views(list@).contains(text) <==> views(values@).contains(
            text,
        )),
        normal matches Err(fault) ==> fault@ == plain("matrix capability is invalid"@),
{
    crate::order::sorted_sets_hold_each_text_once(views(values@), text);
}

} // verus!
