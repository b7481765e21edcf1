//! The sessions that this daemon runs: their registry, their input, their end.

use crate::fault::optional_view;
use crate::json::{
    array_value, empty, empty_object, field, field_of, json_encoding, json_model, json_models,
    json_text, object_with, text_in, text_value, with_field, Json,
};
use crate::live_gate::{
    all_signalled, drain_of, failed, failed_and_one_more, failure_report, killed_once,
    number_after, provisional_report, session_report, signalled_once, unpublished, waited_once,
    Asked, LaunchDrain, LiveLaunchAdmission, LiveLaunchGate, Refusal, RuntimeKiller,
};
use crate::shutdown::{
    clock_course, least, shared_timeouts, signal_steps, wait_steps, ClockStep, ShutdownClock,
    ShutdownLog, ShutdownStep,
};
use crate::table::{enumerates, Table};
use crate::text::{joined, views};
use serde_json::Value;
use vstd::prelude::*;
use vstd::string::*;

verus! {

/// How a session's process takes input: as raw text, or as lines of JSON.
#[derive(Debug, Clone, Copy, PartialEq, Eq, Structural)]
pub enum LiveSessionKind {
    Pty,
    Stream,
}

/// A session that is not live in this daemon.
#[derive(Debug, Clone)]
pub struct NotLiveError {
    pub session_id: String,
}

/// What is said of a session that is not live.
pub open spec fn not_live_text(session_id: Seq<char>) -> Seq<char> {
    "session `"@ + session_id + "` is not live in this daemon"@
}

impl NotLiveError {
    /// What is said of the session.
    pub fn message(&self) -> (text: String)
        ensures
            text@ == not_live_text(self.session_id@),
    {
        joined(
            joined("session `", self.session_id.as_str()).as_str(),
            "` is not live in this daemon",
        )
    }
}

/// One life of a session: it is over once its process has been seen to exit.
#[derive(Debug)]
pub struct LiveSessionRegistration {
    token: u64,
    exited: bool,
}

impl LiveSessionRegistration {
    /// What tells this life of a session from others.
    pub closed spec fn token(&self) -> u64 {
        self.token
    }

    /// Whether the process has been seen to exit.
    pub closed spec fn is_exited(&self) -> bool {
        self.exited
    }

    /// Whether the process has been seen to exit.
    pub fn has_exited(&self) -> (exited: bool)
        ensures
            exited == self.is_exited(),
    {
        self.exited
    }
}

/// A registered session: how it takes input, where, who owns its process tree, and which
/// life of the session it is.
pub struct LiveSessionHandle<I, K> {
    pub kind: LiveSessionKind,
    pub input: I,
    pub killer: K,
    pub token: u64,
}

/// What registering a session came to.
pub enum Registered<I, K> {
    /// The daemon is shutting down: the owner of the process tree comes back, to be killed.
    Rejected(K),
    /// The session is registered, or its process has exited already. The handles that lost
    /// their place come back, to be dropped where no lock is held.
    Admitted { replaced: Option<LiveSessionHandle<I, K>>, removed: Option<LiveSessionHandle<I, K>> },
}

/// How long shutdown waits for all process trees together.
pub const QUIESCENCE_MILLIS: u64 = 1000;

/// What a registration that comes during shutdown is told.
pub const REGISTRATION_REFUSED: &'static str =
    "daemon is shutting down; refusing to register a new live session";

/// What a refused registration is told, given what killing its process tree came to.
pub open spec fn refused_text(killed: Result<(), String>) -> Seq<char> {
    match killed {
        Ok(()) => REGISTRATION_REFUSED@,
        Err(error) => REGISTRATION_REFUSED@
            + "; failed to terminate the rejected session process tree: "@ + error@,
    }
}

/// What a refused registration is told, given what killing its process tree came to.
pub fn refused_message(killed: &Result<(), String>) -> (text: String)
    ensures
        text@ == refused_text(*killed),
{
    match killed {
        Ok(()) => REGISTRATION_REFUSED.to_owned(),
        Err(error) => joined(
            joined(
                REGISTRATION_REFUSED,
                "; failed to terminate the rejected session process tree: ",
            ).as_str(),
            error.as_str(),
        ),
    }
}

/// Whether the process tree of a refused registration was killed, once, and the text tells
/// of it.
pub open spec fn refused_and_killed<K: RuntimeKiller>(killer: K, refusal: Refusal<K>) -> bool {
    exists|killed: Result<(), String>| #[trigger]
        killed_once(killer, refusal.owner, killed) && refusal.text@ == refused_text(killed)
}

/// Kills the process tree of a registration that is refused, and says what it is told.
pub fn reject_registration_during_shutdown<K: RuntimeKiller>(killer: &mut K) -> (text: String)
    ensures
        exists|killed: Result<(), String>| #[trigger]
            killed_once(*old(killer), *final(killer), killed) && text@ == refused_text(killed),
{
    let killed = killer.kill();
    assert(killed_once(*old(killer), *killer, killed));
    refused_message(&killed)
}

/// Why input does not reach a session.
#[derive(Debug, Clone)]
pub enum InputError {
    /// The payload has no text to send.
    NoData,
    /// The session is not live.
    NotLive(NotLiveError),
}

impl InputError {
    /// What is said of the failure.
    pub open spec fn text(self) -> Seq<char> {
        match self {
            InputError::NoData => "input payload requires string field `data`"@,
            InputError::NotLive(error) => not_live_text(error.session_id@),
        }
    }

    /// What is said of the failure.
    pub fn message(&self) -> (text: String)
        ensures
            text@ == self.text(),
    {
        match self {
            InputError::NoData => "input payload requires string field `data`".to_owned(),
            InputError::NotLive(error) => error.message(),
        }
    }
}

/// Why a session was not killed.
#[derive(Debug, Clone)]
pub enum KillError {
    /// The session is not live.
    NotLive(NotLiveError),
    /// The owner of the process tree failed.
    Failed(String),
}

impl KillError {
    /// What is said of the failure.
    pub open spec fn text(self) -> Seq<char> {
        match self {
            KillError::NotLive(error) => not_live_text(error.session_id@),
            KillError::Failed(error) => error@,
        }
    }

    /// What is said of the failure.
    pub fn message(&self) -> (text: String)
        ensures
            text@ == self.text(),
    {
        match self {
            KillError::NotLive(error) => error.message(),
            KillError::Failed(error) => error.clone(),
        }
    }
}

/// Whether a handle is another one after its owner was asked once, to kill its process
/// tree, and answered so.
pub open spec fn handle_killed<I, K: RuntimeKiller>(
    was: LiveSessionHandle<I, K>,
    is: LiveSessionHandle<I, K>,
    outcome: Result<(), String>,
) -> bool {
    &&& is.kind == was.kind && is.input == was.input && is.token == was.token
    &&& killed_once(was.killer, is.killer, outcome)
}

/// What a kill of a session does to the registry, and that its owner was asked once to kill
/// its process tree, where the session is live. A handle that does not stay in the registry
/// comes out.
pub open spec fn kill_ran<I, K: RuntimeKiller>(
    before: Map<Seq<char>, LiveSessionHandle<I, K>>,
    after: Map<Seq<char>, LiveSessionHandle<I, K>>,
    session_id: Seq<char>,
    shutting_down: bool,
    outcome: Result<(), KillError>,
    handle: Option<LiveSessionHandle<I, K>>,
) -> bool {
    match outcome {
        Ok(()) => {
            &&& before.dom().contains(session_id)
            &&& after == before.remove(session_id)
            &&& handle is Some
            &&& handle_killed(before[session_id], handle->0, Ok(()))
        },
        Err(KillError::NotLive(error)) => {
            &&& !before.dom().contains(session_id)
            &&& error.session_id@ == session_id
            &&& after == before
            &&& handle is None
        },
        Err(KillError::Failed(error)) => {
            &&& before.dom().contains(session_id)
            &&& after.remove(session_id) == before.remove(session_id)
            &&& after.dom().contains(session_id) == !shutting_down
            &&& handle is Some == shutting_down
            &&& handle_killed(
                before[session_id],
                if shutting_down {
                    handle->0
                } else {
                    after[session_id]
                },
                Err(error),
            )
        },
    }
}

/// What killing a session came to, and its handle where it left the registry, to be dropped
/// where no lock is held.
pub struct KillRun<I, K> {
    pub outcome: Result<(), KillError>,
    pub handle: Option<LiveSessionHandle<I, K>>,
}

/// The message envelope in which a stream session takes a text.
pub open spec fn stream_envelope(text: Seq<char>) -> Json {
    let block = object_with(
        object_with(empty(), "type"@, Json::Text("text"@)),
        "text"@,
        Json::Text(text),
    );
    let message = object_with(
        object_with(empty(), "role"@, Json::Text("user"@)),
        "content"@,
        Json::Array(seq![block]),
    );
    object_with(object_with(empty(), "type"@, Json::Text("user"@)), "message"@, message)
}

/// What is written to a session's process for a text.
pub open spec fn input_text(kind: LiveSessionKind, data: Seq<char>) -> Seq<char> {
    match kind {
        LiveSessionKind::Pty => data,
        LiveSessionKind::Stream => json_encoding(stream_envelope(data)).push('\n'),
    }
}

/// The line of JSON in which a stream session takes a text.
pub fn write_stream_message(text: &str) -> (line: String)
    ensures
        line@ == input_text(LiveSessionKind::Stream, text@),
{
    let block = with_field(
        with_field(empty_object(), "type", text_value("text")),
        "text",
        text_value(text),
    );
    let mut blocks: Vec<Value> = Vec::new();
    blocks.push(block);
    let ghost model = json_models(blocks@);
    assert(model =~= seq![json_model(block)]);
    let message = with_field(
        with_field(empty_object(), "role", text_value("user")),
        "content",
        array_value(blocks),
    );
    let envelope = with_field(
        with_field(empty_object(), "type", text_value("user")),
        "message",
        message,
    );
    let mut line = json_text(&envelope);
    line.push('\n');
    line
}

/// What is written to a session's process for a text.
pub fn input_for_kind(kind: LiveSessionKind, data: &str) -> (text: String)
    ensures
        text@ == input_text(kind, data@),
{
    match kind {
        LiveSessionKind::Pty => data.to_owned(),
        LiveSessionKind::Stream => write_stream_message(data),
    }
}

/// The text that an input payload carries.
pub open spec fn payload_data(payload: Json) -> Option<Seq<char>> {
    match field_of(payload, "data"@) {
        Some(Json::Text(data)) => Some(data),
        _ => None,
    }
}

/// The text that an input payload carries.
pub fn input_data(payload: &Value) -> (data: Option<String>)
    ensures
        match data {
            Some(text) => payload_data(json_model(*payload)) == Some(text@),
            None => payload_data(json_model(*payload)) is None,
        },
{
    match field(payload, "data") {
        Some(inner) => match text_in(inner) {
            Some(text) => Some(text.to_owned()),
            None => None,
        },
        None => None,
    }
}

/// The registry after a life of a session has entered it: under its name, in the place of an
/// earlier one, unless its process has exited already.
pub open spec fn after_entry<I, K>(
    sessions: Map<Seq<char>, LiveSessionHandle<I, K>>,
    session_id: Seq<char>,
    handle: LiveSessionHandle<I, K>,
    exited: bool,
) -> Map<Seq<char>, LiveSessionHandle<I, K>> {
    if exited {
        sessions.remove(session_id)
    } else {
        sessions.insert(session_id, handle)
    }
}

/// Whether the life with this token is the registered one of a session.
pub open spec fn is_current<I, K>(
    sessions: Map<Seq<char>, LiveSessionHandle<I, K>>,
    session_id: Seq<char>,
    token: u64,
) -> bool {
    sessions.dom().contains(session_id) && sessions[session_id].token == token
}

/// The registry after the process of one life of a session has exited.
pub open spec fn after_exit<I, K>(
    sessions: Map<Seq<char>, LiveSessionHandle<I, K>>,
    session_id: Seq<char>,
    token: u64,
) -> Map<Seq<char>, LiveSessionHandle<I, K>> {
    if is_current(sessions, session_id, token) {
        sessions.remove(session_id)
    } else {
        sessions
    }
}

/// The registry after a handle that was taken out has been killed, or could not be.
pub open spec fn after_kill<I, K>(
    sessions: Map<Seq<char>, LiveSessionHandle<I, K>>,
    session_id: Seq<char>,
    handle: LiveSessionHandle<I, K>,
    failed: bool,
    exited: bool,
    shutting_down: bool,
) -> Map<Seq<char>, LiveSessionHandle<I, K>> {
    if failed && !exited && !shutting_down && !sessions.dom().contains(session_id) {
        sessions.insert(session_id, handle)
    } else {
        sessions
    }
}

/// The sessions that this daemon runs.
pub struct LiveSessionRuntime<I, K> {
    coven_home: Option<String>,
    records_events: bool,
    sessions: Table<LiveSessionHandle<I, K>>,
    shutting_down: bool,
    launch_gate: LiveLaunchGate<K>,
    next_token: u64,
}

impl<I, K: RuntimeKiller> LiveSessionRuntime<I, K> {
    /// The registered sessions.
    pub closed spec fn sessions(&self) -> Map<Seq<char>, LiveSessionHandle<I, K>> {
        self.sessions@
    }

    /// Whether the daemon is shutting down.
    pub closed spec fn is_shutting_down(&self) -> bool {
        self.shutting_down
    }

    /// The home that familiars are resolved in.
    pub closed spec fn home(&self) -> Option<Seq<char>> {
        optional_view(self.coven_home)
    }

    /// Whether the runtime records session events.
    pub closed spec fn records_events(&self) -> bool {
        self.records_events
    }

    /// The launch gate that launches pass.
    pub closed spec fn gate(&self) -> LiveLaunchGate<K> {
        self.launch_gate
    }

    /// The token that the next life of a session is given.
    pub closed spec fn next_token(&self) -> u64 {
        self.next_token
    }

    /// Whether the launches under way have numbers of their own, and each registered
    /// session's token has been given out.
    pub closed spec fn well_formed(&self) -> bool {
        &&& self.launch_gate.well_formed()
        &&& forall|id: Seq<char>|
            self.sessions@.dom().contains(id) ==> (#[trigger] self.sessions@[id]).token
                < self.next_token
    }

    /// Whether everything but the sessions is as in `other`.
    pub open spec fn same_but_sessions(&self, other: &Self) -> bool {
        &&& self.is_shutting_down() == other.is_shutting_down()
        &&& self.home() == other.home()
        &&& self.records_events() == other.records_events()
        &&& self.gate() == other.gate()
        &&& self.next_token() == other.next_token()
    }

    /// A runtime without a home and without sessions.
    pub fn new() -> (runtime: Self)
        ensures
            runtime.well_formed(),
            runtime.home() is None,
            !runtime.records_events(),
            !runtime.is_shutting_down(),
            runtime.sessions() == Map::<Seq<char>, LiveSessionHandle<I, K>>::empty(),
            !runtime.gate().is_closed(),
            runtime.gate().launches() == Map::<u64, Option<K>>::empty(),
            runtime.next_token() == 0,
    {
        LiveSessionRuntime {
            coven_home: None,
            records_events: false,
            sessions: Table::new(),
            shutting_down: false,
            launch_gate: LiveLaunchGate::new(),
            next_token: 0,
        }
    }

    /// A runtime with a home, whose event writer has started.
    pub fn with_coven_home(coven_home: String) -> (runtime: Self)
        ensures
            runtime.well_formed(),
            runtime.home() == Some(coven_home@),
            runtime.records_events(),
            !runtime.is_shutting_down(),
            runtime.sessions() == Map::<Seq<char>, LiveSessionHandle<I, K>>::empty(),
            !runtime.gate().is_closed(),
            runtime.gate().launches() == Map::<u64, Option<K>>::empty(),
            runtime.next_token() == 0,
    {
        LiveSessionRuntime {
            coven_home: Some(coven_home),
            records_events: true,
            sessions: Table::new(),
            shutting_down: false,
            launch_gate: LiveLaunchGate::new(),
            next_token: 0,
        }
    }

    /// A runtime with a home, given what starting its event writer came to.
    pub fn try_with_coven_home(coven_home: String, writer: Result<(), String>) -> (runtime: Result<
        Self,
        String,
    >)
        ensures
            match runtime {
                Ok(started) => {
                    &&& writer is Ok
                    &&& started.well_formed()
                    &&& started.home() == Some(coven_home@)
                    &&& started.records_events()
                    &&& !started.is_shutting_down()
                    &&& started.sessions() == Map::<Seq<char>, LiveSessionHandle<I, K>>::empty()
                    &&& !started.gate().is_closed()
                    &&& started.gate().launches() == Map::<u64, Option<K>>::empty()
                    &&& started.next_token() == 0
                },
                Err(error) => writer == Err::<(), String>(error),
            },
    {
        match writer {
            Ok(()) => Ok(Self::with_coven_home(coven_home)),
            Err(error) => Err(error),
        }
    }

    /// A new life of a session, which no other life shares a token with.
    pub fn new_registration(&mut self) -> (registration: LiveSessionRegistration)
        requires
            old(self).well_formed(),
            old(self).next_token() < u64::MAX,
        ensures
            final(self).well_formed(),
            registration.token() == old(self).next_token(),
            !registration.is_exited(),
            final(self).next_token() == old(self).next_token() + 1,
            final(self).sessions() == old(self).sessions(),
            final(self).is_shutting_down() == old(self).is_shutting_down(),
            final(self).home() == old(self).home(),
            final(self).records_events() == old(self).records_events(),
            final(self).gate() == old(self).gate(),
    {
        let token = self.next_token;
        self.next_token = token + 1;
        LiveSessionRegistration { token, exited: false }
    }

    /// Registers a session, unless the daemon is shutting down. A session under the same
    /// name loses its place. Where the process has been seen to exit already, the session
    /// does not stay registered.
    pub fn enter(
        &mut self,
        session_id: String,
        kind: LiveSessionKind,
        input: I,
        killer: K,
        registration: &LiveSessionRegistration,
    ) -> (outcome: Registered<I, K>)
        requires
            old(self).well_formed(),
            registration.token() < old(self).next_token(),
        ensures
            final(self).well_formed(),
            final(self).same_but_sessions(old(self)),
            match outcome {
                Registered::Rejected(owner) => {
                    &&& old(self).is_shutting_down()
                    &&& owner == killer
                    &&& final(self).sessions() == old(self).sessions()
                },
                Registered::Admitted { replaced, removed } => {
                    let handle = (LiveSessionHandle {
                        kind,
                        input,
                        killer,
                        token: registration.token(),
                    });
                    &&& !old(self).is_shutting_down()
                    &&& final(self).sessions() == after_entry(
                        old(self).sessions(),
                        session_id@,
                        handle,
                        registration.is_exited(),
                    )
                    &&& removed == if registration.is_exited() {
                        Some(handle)
                    } else {
                        None
                    }
                    &&& replaced == if old(self).sessions().dom().contains(session_id@) {
                        Some(old(self).sessions()[session_id@])
                    } else {
                        None
                    }
                },
            },
    {
        if self.shutting_down {
            return Registered::Rejected(killer);
        }
        let name = session_id.clone();
        let ghost before = self.sessions@;
        let replaced = self.sessions.insert(
            session_id,
            LiveSessionHandle { kind, input, killer, token: registration.token },
        );
        let mut removed: Option<LiveSessionHandle<I, K>> = None;
        if registration.exited {
            removed = self.sessions.remove(name.as_str());
            assert(self.sessions@ =~= before.remove(name@));
        }
        Registered::Admitted { replaced, removed }
    }

    /// Registers a life of a session. A registration that comes during shutdown has its
    /// process tree killed and is refused.
    pub fn register_kind_with_registration(
        &mut self,
        session_id: String,
        kind: LiveSessionKind,
        input: I,
        killer: K,
        registration: &LiveSessionRegistration,
    ) -> (outcome: Result<(), Refusal<K>>)
        requires
            old(self).well_formed(),
            registration.token() < old(self).next_token(),
        ensures
            final(self).well_formed(),
            final(self).same_but_sessions(old(self)),
            match outcome {
                Ok(()) => {
                    &&& !old(self).is_shutting_down()
                    &&& final(self).sessions() == after_entry(
                        old(self).sessions(),
                        session_id@,
                        (LiveSessionHandle { kind, input, killer, token: registration.token() }),
                        registration.is_exited(),
                    )
                },
                Err(refusal) => {
                    &&& old(self).is_shutting_down()
                    &&& final(self).sessions() == old(self).sessions()
                    &&& refused_and_killed(killer, refusal)
                },
            },
    {
        match self.enter(session_id, kind, input, killer, registration) {
            Registered::Rejected(owner) => {
                let mut owner = owner;
                let text = reject_registration_during_shutdown(&mut owner);
                let ghost killed = choose|killed: Result<(), String>| #[trigger]
                    killed_once(killer, owner, killed) && text@ == refused_text(killed);
                let refusal = Refusal { text, owner };
                assert(killed_once(killer, refusal.owner, killed));
                Err(refusal)
            },
            Registered::Admitted { .. } => Ok(()),
        }
    }

    /// Registers a new life of a session.
    pub fn register_kind(
        &mut self,
        session_id: String,
        kind: LiveSessionKind,
        input: I,
        killer: K,
    ) -> (outcome: Result<(), Refusal<K>>)
        requires
            old(self).well_formed(),
            old(self).next_token() < u64::MAX,
        ensures
            final(self).well_formed(),
            final(self).next_token() == old(self).next_token() + 1,
            final(self).is_shutting_down() == old(self).is_shutting_down(),
            final(self).home() == old(self).home(),
            final(self).records_events() == old(self).records_events(),
            final(self).gate() == old(self).gate(),
            match outcome {
                Ok(()) => {
                    &&& !old(self).is_shutting_down()
                    &&& final(self).sessions() == old(self).sessions().insert(
                        session_id@,
                        (LiveSessionHandle { kind, input, killer, token: old(self).next_token() }),
                    )
                },
                Err(refusal) => {
                    &&& old(self).is_shutting_down()
                    &&& final(self).sessions() == old(self).sessions()
                    &&& refused_and_killed(killer, refusal)
                },
            },
    {
        let registration = self.new_registration();
        self.register_kind_with_registration(session_id, kind, input, killer, &registration)
    }

    /// Registers a new life of a session that takes raw text.
    pub fn register(&mut self, session_id: String, input: I, killer: K) -> (outcome: Result<
        (),
        Refusal<K>,
    >)
        requires
            old(self).well_formed(),
            old(self).next_token() < u64::MAX,
        ensures
            final(self).well_formed(),
            final(self).next_token() == old(self).next_token() + 1,
            final(self).is_shutting_down() == old(self).is_shutting_down(),
            final(self).home() == old(self).home(),
            final(self).records_events() == old(self).records_events(),
            final(self).gate() == old(self).gate(),
            match outcome {
                Ok(()) => {
                    &&& !old(self).is_shutting_down()
                    &&& final(self).sessions() == old(self).sessions().insert(
                        session_id@,
                        (LiveSessionHandle {
                            kind: LiveSessionKind::Pty,
                            input,
                            killer,
                            token: old(self).next_token(),
                        }),
                    )
                },
                Err(refusal) => {
                    &&& old(self).is_shutting_down()
                    &&& final(self).sessions() == old(self).sessions()
                    &&& refused_and_killed(killer, refusal)
                },
            },
    {
        self.register_kind(session_id, LiveSessionKind::Pty, input, killer)
    }

    /// Whether the daemon is shutting down.
    pub fn shutting_down(&self) -> (yes: bool)
        ensures
            yes == self.is_shutting_down(),
    {
        self.shutting_down
    }

    /// Whether there is a home to resolve familiars in.
    pub fn has_home(&self) -> (yes: bool)
        ensures
            yes == (self.home() is Some),
    {
        self.coven_home.is_some()
    }

    /// Whether session events are recorded.
    pub fn has_event_writer(&self) -> (yes: bool)
        ensures
            yes == self.records_events(),
    {
        self.records_events
    }

    /// Whether a session is live.
    pub fn is_live(&self, session_id: &str) -> (live: bool)
        ensures
            live == self.sessions().dom().contains(session_id@),
    {
        self.sessions.contains(session_id)
    }

    /// The token of the life of a session that is live.
    pub fn current_token(&self, session_id: &str) -> (token: Option<u64>)
        ensures
            match token {
                Some(t) => self.sessions().dom().contains(session_id@) && t
                    == self.sessions()[session_id@].token,
                None => !self.sessions().dom().contains(session_id@),
            },
    {
        match self.sessions.get(session_id) {
            Some(handle) => Some(handle.token),
            None => None,
        }
    }

    /// Records that the process of one life of a session has exited. The session leaves the
    /// registry where that life is still the registered one; another life under the same
    /// name stays.
    pub fn mark_exited(
        &mut self,
        session_id: &str,
        registration: &mut LiveSessionRegistration,
    ) -> (removed: Option<LiveSessionHandle<I, K>>)
        requires
            old(self).well_formed(),
        ensures
            final(self).well_formed(),
            final(self).same_but_sessions(old(self)),
            final(registration).is_exited(),
            final(registration).token() == old(registration).token(),
            final(self).sessions() == after_exit(
                old(self).sessions(),
                session_id@,
                old(registration).token(),
            ),
            removed == if is_current(
                old(self).sessions(),
                session_id@,
                old(registration).token(),
            ) {
                Some(old(self).sessions()[session_id@])
            } else {
                None
            },
    {
        registration.exited = true;
        match self.current_token(session_id) {
            Some(token) => {
                if token == registration.token {
                    self.sessions.remove(session_id)
                } else {
                    None
                }
            },
            None => None,
        }
    }

    /// Where to write an input payload's text, and what to write.
    pub fn send_input(&self, session_id: &str, payload: &Value) -> (prepared: Result<
        (&I, String),
        InputError,
    >)
        ensures
            match prepared {
                Ok((input, text)) => {
                    &&& payload_data(json_model(*payload)) matches Some(data) && text@
                        == input_text(self.sessions()[session_id@].kind, data)
                    &&& self.sessions().dom().contains(session_id@)
                    &&& *input == self.sessions()[session_id@].input
                },
                Err(InputError::NoData) => payload_data(json_model(*payload)) is None,
                Err(InputError::NotLive(error)) => {
                    &&& payload_data(json_model(*payload)) is Some
                    &&& !self.sessions().dom().contains(session_id@)
                    &&& error.session_id@ == session_id@
                },
            },
    {
        let data = match input_data(payload) {
            Some(data) => data,
            None => {
                return Err(InputError::NoData);
            },
        };
        match self.sessions.get(session_id) {
            Some(handle) => Ok((&handle.input, input_for_kind(handle.kind, data.as_str()))),
            None => Err(
                InputError::NotLive(NotLiveError { session_id: session_id.to_owned() }),
            ),
        }
    }

    /// Takes a session's handle out of the registry, to kill its process tree.
    pub fn take_for_kill(&mut self, session_id: &str) -> (handle: Result<
        LiveSessionHandle<I, K>,
        NotLiveError,
    >)
        requires
            old(self).well_formed(),
        ensures
            final(self).well_formed(),
            final(self).same_but_sessions(old(self)),
            match handle {
                Ok(taken) => {
                    &&& old(self).sessions().dom().contains(session_id@)
                    &&& taken == old(self).sessions()[session_id@]
                    &&& taken.token < final(self).next_token()
                    &&& final(self).sessions() == old(self).sessions().remove(session_id@)
                },
                Err(error) => {
                    &&& !old(self).sessions().dom().contains(session_id@)
                    &&& error.session_id@ == session_id@
                    &&& final(self).sessions() == old(self).sessions()
                },
            },
    {
        match self.sessions.remove(session_id) {
            Some(handle) => Ok(handle),
            None => {
                assert(self.sessions@ =~= old(self).sessions@);
                Err(NotLiveError { session_id: session_id.to_owned() })
            },
        }
    }

    /// Takes up what killing a session's process tree came to. A handle whose kill failed
    /// goes back for another try, unless the process has exited meanwhile, the daemon is
    /// shutting down, or another life of the session has the name; a handle that does not
    /// go back is handed out, to be dropped.
    pub fn settle_kill(
        &mut self,
        session_id: &str,
        handle: LiveSessionHandle<I, K>,
        outcome: Result<(), String>,
        exited: bool,
    ) -> (settled: (Result<(), String>, Option<LiveSessionHandle<I, K>>))
        requires
            old(self).well_formed(),
            handle.token < old(self).next_token(),
        ensures
            final(self).well_formed(),
            final(self).same_but_sessions(old(self)),
            settled.0 == outcome,
            final(self).sessions() == after_kill(
                old(self).sessions(),
                session_id@,
                handle,
                outcome is Err,
                exited,
                old(self).is_shutting_down(),
            ),
            settled.1 == if outcome is Err && !exited && !old(self).is_shutting_down() && !old(
                self,
            ).sessions().dom().contains(session_id@) {
                None
            } else {
                Some(handle)
            },
    {
        if outcome.is_err() && !exited && !self.shutting_down && !self.sessions.contains(
            session_id,
        ) {
            self.sessions.insert(session_id.to_owned(), handle);
            (outcome, None)
        } else {
            (outcome, Some(handle))
        }
    }

    /// Kills a session's process tree. The session leaves the registry where that succeeds
    /// or the daemon is shutting down; a session whose kill failed stays for another try.
    pub fn kill_session(&mut self, session_id: &str) -> (run: KillRun<I, K>)
        requires
            old(self).well_formed(),
        ensures
            final(self).well_formed(),
            final(self).same_but_sessions(old(self)),
            kill_ran(
                old(self).sessions(),
                final(self).sessions(),
                session_id@,
                old(self).is_shutting_down(),
                run.outcome,
                run.handle,
            ),
    {
        let taken = self.take_for_kill(session_id);
        match taken {
            Err(error) => KillRun { outcome: Err(KillError::NotLive(error)), handle: None },
            Ok(handle) => {
                let mut handle = handle;
                let killed = handle.killer.kill();
                let ghost was = old(self).sessions()[session_id@];
                assert(handle_killed(was, handle, killed));
                let (outcome, left) = self.settle_kill(session_id, handle, killed, false);
                match outcome {
                    Ok(()) => {
                        assert(killed->Ok_0 == ());
                        KillRun { outcome: Ok(()), handle: left }
                    },
                    Err(error) => {
                        assert(self.sessions().remove(session_id@) =~= old(
                            self,
                        ).sessions().remove(session_id@));
                        KillRun { outcome: Err(KillError::Failed(error)), handle: left }
                    },
                }
            },
        }
    }

    /// Admits a launch.
    pub fn begin_launch(&mut self) -> (admission: Result<LiveLaunchAdmission, String>)
        requires
            old(self).well_formed(),
        ensures
            final(self).well_formed(),
            final(self).sessions() == old(self).sessions(),
            final(self).is_shutting_down() == old(self).is_shutting_down(),
            final(self).home() == old(self).home(),
            final(self).records_events() == old(self).records_events(),
            final(self).next_token() == old(self).next_token(),
            final(self).gate().is_closed() == old(self).gate().is_closed(),
            match admission {
                Ok(a) => {
                    &&& !old(self).gate().is_closed()
                    &&& a.number() == old(self).gate().next()
                    &&& a.is_active()
                    &&& !a.is_published()
                    &&& final(self).gate().next() == number_after(old(self).gate().next())
                    &&& final(self).gate().launches() == old(self).gate().launches().insert(
                        a.number(),
                        None,
                    )
                },
                Err(text) => {
                    &&& old(self).gate().is_closed()
                    &&& text@ == crate::live_gate::LAUNCH_REFUSED@
                    &&& final(self).gate().next() == old(self).gate().next()
                    &&& final(self).gate().launches() == old(self).gate().launches()
                },
            },
    {
        self.launch_gate.begin()
    }

    /// Publishes the owner of the process tree that a launch spawned.
    pub fn publish_launch(&mut self, admission: &mut LiveLaunchAdmission, killer: K) -> (outcome:
        Result<(), Refusal<K>>)
        requires
            old(self).well_formed(),
        ensures
            final(self).well_formed(),
            final(self).sessions() == old(self).sessions(),
            final(self).is_shutting_down() == old(self).is_shutting_down(),
            final(self).next_token() == old(self).next_token(),
            final(self).home() == old(self).home(),
            final(self).records_events() == old(self).records_events(),
            final(admission).number() == old(admission).number(),
            final(admission).is_active() == old(admission).is_active(),
            final(admission).is_published() == (old(admission).is_published() || outcome is Ok),
            final(self).gate().is_closed() == old(self).gate().is_closed(),
            final(self).gate().next() == old(self).gate().next(),
            outcome is Ok <==> !old(admission).is_published() && old(admission).is_active() && !old(
                self,
            ).gate().is_closed() && old(self).gate().launches().dom().contains(
                old(admission).number(),
            ),
            outcome is Ok ==> final(self).gate().launches() == old(self).gate().launches().insert(
                old(admission).number(),
                Some(killer),
            ),
            outcome matches Err(refusal) ==> {
                &&& final(self).gate().launches() == old(self).gate().launches()
                &&& unpublished(
                    killer,
                    refusal,
                    old(admission).is_published(),
                    old(admission).is_active() && !old(self).gate().is_closed(),
                )
            },
    {
        self.launch_gate.publish(admission, killer)
    }

    /// Releases a launch's place in the launch gate; tells whether no launch is left under way.
    pub fn release_launch(&mut self, admission: &mut LiveLaunchAdmission) -> (drained: bool)
        requires
            old(self).well_formed(),
        ensures
            final(self).well_formed(),
            final(self).sessions() == old(self).sessions(),
            final(self).is_shutting_down() == old(self).is_shutting_down(),
            final(self).next_token() == old(self).next_token(),
            final(self).home() == old(self).home(),
            final(self).records_events() == old(self).records_events(),
            final(self).gate().is_closed() == old(self).gate().is_closed(),
            final(self).gate().next() == old(self).gate().next(),
            !final(admission).is_active(),
            final(admission).number() == old(admission).number(),
            final(admission).is_published() == old(admission).is_published(),
            old(admission).is_active() ==> final(self).gate().launches() == old(
                self,
            ).gate().launches().remove(old(admission).number()),
            !old(admission).is_active() ==> final(self).gate().launches() == old(
                self,
            ).gate().launches(),
            drained == (old(admission).is_active() && final(self).gate().launches() == Map::<
                u64,
                Option<K>,
            >::empty()),
    {
        self.launch_gate.finish(admission)
    }

    /// Whether no launch is under way.
    pub fn launches_drained(&self) -> (drained: bool)
        requires
            self.well_formed(),
        ensures
            drained == (self.gate().launches() == Map::<u64, Option<K>>::empty()),
    {
        self.launch_gate.is_drained()
    }

    /// Whether shutdown waits on for the launches under way, while this much of its budget
    /// for them is left.
    pub fn drain_launches(&self, remaining_millis: u64) -> (drain: LaunchDrain)
        requires
            self.well_formed(),
        ensures
            drain == drain_of(self.gate().launches(), remaining_millis),
    {
        self.launch_gate.close_and_wait(remaining_millis)
    }

    /// Begins shutdown: no session is registered and no launch admitted from now on. Gives
    /// what signalling the launches under way failed with, if it did.
    pub fn begin_shutdown(&mut self) -> (failure: Option<String>)
        requires
            old(self).well_formed(),
        ensures
            final(self).well_formed(),
            final(self).is_shutting_down(),
            final(self).gate().is_closed(),
            final(self).gate().next() == old(self).gate().next(),
            final(self).sessions() == old(self).sessions(),
            final(self).home() == old(self).home(),
            final(self).records_events() == old(self).records_events(),
            final(self).next_token() == old(self).next_token(),
            exists|order: Seq<u64>, outcomes: Seq<Result<(), String>>| #[trigger]
                all_signalled(
                    old(self).gate().launches(),
                    final(self).gate().launches(),
                    order,
                    outcomes,
                ) && optional_view(failure) == launches_report(outcomes),
    {
        self.shutting_down = true;
        let failures = self.launch_gate.close();
        proof {
            assert(views(failures@).len() == failures@.len());
            let (order, outcomes) = choose|
                order: Seq<u64>,
                outcomes: Seq<Result<(), String>>,
            | #[trigger]
                all_signalled(
                    old(self).launch_gate.launches(),
                    self.launch_gate.launches(),
                    order,
                    outcomes,
                ) && views(failures@) == failed(outcomes);
            assert(all_signalled(
                old(self).gate().launches(),
                self.gate().launches(),
                order,
                outcomes,
            ));
        }
        match provisional_report(&failures) {
            Ok(()) => None,
            Err(text) => Some(text),
        }
    }

    /// Takes every session's handle out of the registry.
    pub fn take_all(&mut self) -> (handles: Vec<LiveSessionHandle<I, K>>)
        requires
            old(self).well_formed(),
        ensures
            final(self).well_formed(),
            final(self).same_but_sessions(old(self)),
            final(self).sessions() == Map::<Seq<char>, LiveSessionHandle<I, K>>::empty(),
            exists|ids: Seq<Seq<char>>| enumerates(ids, old(self).sessions(), handles@),
    {
        let handles = self.sessions.drain();
        proof {
            let ids = choose|ids: Seq<Seq<char>>| enumerates(ids, old(self).sessions@, handles@);
            assert(enumerates(ids, old(self).sessions(), handles@));
        }
        handles
    }

    /// Stops admitting sessions, takes every handle out and terminates each process tree.
    pub fn shutdown_all<C: ShutdownClock>(&mut self, clock: &mut C) -> (run: ShutdownRun<I, K>)
        requires
            old(self).well_formed(),
        ensures
            final(self).well_formed(),
            final(self).is_shutting_down(),
            final(self).gate().is_closed(),
            final(self).gate().next() == old(self).gate().next(),
            final(self).sessions() == Map::<Seq<char>, LiveSessionHandle<I, K>>::empty(),
            final(self).home() == old(self).home(),
            final(self).records_events() == old(self).records_events(),
            final(self).next_token() == old(self).next_token(),
            exists|
                order: Seq<u64>,
                outcomes: Seq<Result<(), String>>,
                ids: Seq<Seq<char>>,
                handles: Seq<LiveSessionHandle<I, K>>,
            | #![trigger
                all_signalled(
                    old(self).gate().launches(),
                    final(self).gate().launches(),
                    order,
                    outcomes,
                ),
                enumerates(ids, old(self).sessions(), handles),
            ]
                {
                    &&& all_signalled(
                        old(self).gate().launches(),
                        final(self).gate().launches(),
                        order,
                        outcomes,
                    )
                    &&& enumerates(ids, old(self).sessions(), handles)
                    &&& ended_all(
                        handles,
                        launches_report(outcomes),
                        run,
                        old(clock).told(),
                        final(clock).told(),
                    )
                },
    {
        let failure = self.begin_shutdown();
        let ghost reported = optional_view(failure);
        let ghost (order, outcomes) = choose|
            order: Seq<u64>,
            outcomes: Seq<Result<(), String>>,
        | #[trigger]
            all_signalled(
                old(self).gate().launches(),
                self.gate().launches(),
                order,
                outcomes,
            ) && reported == launches_report(outcomes);
        let handles = self.take_all();
        let ghost ids = choose|ids: Seq<Seq<char>>|
            enumerates(ids, old(self).sessions(), handles@);
        let ghost taken = handles@;
        let run = finish_shutdown(failure, handles, clock);
        proof {
            assert(all_signalled(
                old(self).gate().launches(),
                self.gate().launches(),
                order,
                outcomes,
            ));
            assert(enumerates(ids, old(self).sessions(), taken));
            assert(ended_all(
                taken,
                launches_report(outcomes),
                run,
                old(clock).told(),
                clock.told(),
            ));
        }
        run
    }
}

/// The owners of the process trees of sessions.
pub open spec fn killers<I, K>(handles: Seq<LiveSessionHandle<I, K>>) -> Seq<K> {
    Seq::new(handles.len(), |i: int| handles[i].killer)
}

/// What is told of the launches under way, given what signalling their owners came to.
pub open spec fn launches_report(outcomes: Seq<Result<(), String>>) -> Option<Seq<char>> {
    if failed(outcomes).len() == 0 {
        None
    } else {
        Some(failure_report(" provisional launch process tree(s): "@, failed(outcomes)))
    }
}

/// Whether the first owners were told to end, each once, and the rest not yet.
pub open spec fn signalled_first<K: RuntimeKiller>(
    owners: Seq<K>,
    signalled: Seq<K>,
    signals: Seq<Result<(), String>>,
    count: int,
) -> bool {
    &&& signalled.len() == owners.len()
    &&& signals.len() == count
    &&& forall|i: int|
        0 <= i < count ==> signalled_once(owners[i], #[trigger] signalled[i], signals[i])
    &&& forall|i: int| count <= i < owners.len() ==> #[trigger] signalled[i] == owners[i]
}

/// Whether the first owners were waited for, each once, and the rest not yet.
pub open spec fn waited_first<K: RuntimeKiller>(
    signalled: Seq<K>,
    ended: Seq<K>,
    timeouts: Seq<u64>,
    waits: Seq<Result<(), String>>,
    count: int,
) -> bool {
    &&& ended.len() == signalled.len()
    &&& timeouts.len() == count
    &&& waits.len() == count
    &&& forall|i: int|
        0 <= i < count ==> waited_once(
            signalled[i],
            #[trigger] ended[i],
            timeouts[i],
            waits[i],
        )
    &&& forall|i: int| count <= i < signalled.len() ==> #[trigger] ended[i] == signalled[i]
}

/// What became of the owners of process trees at shutdown: how each stood once it had been
/// signalled, what was left of the budget when its turn came to be waited for, and what each
/// answered.
#[verifier::reject_recursive_types(K)]
pub struct ShutdownCourse<K> {
    pub signalled: Seq<K>,
    pub signals: Seq<Result<(), String>>,
    pub lefts: Seq<u64>,
    pub waits: Seq<Result<(), String>>,
}

impl<K: RuntimeKiller> ShutdownCourse<K> {
    /// Whether each owner was signalled once, and then waited for once, for what was left of
    /// the one budget that all share, and asked nothing else.
    pub open spec fn ran(self, owners: Seq<K>, ended: Seq<K>) -> bool {
        &&& signalled_first(owners, self.signalled, self.signals, owners.len() as int)
        &&& waited_first(
            self.signalled,
            ended,
            shared_timeouts(self.lefts, QUIESCENCE_MILLIS),
            self.waits,
            owners.len() as int,
        )
    }

    /// The steps of the shutdown: all owners are signalled before the budget is started and
    /// the first is waited for.
    pub open spec fn steps(self) -> Seq<ShutdownStep> {
        signal_steps(self.signals.len()) + wait_steps(self.lefts, QUIESCENCE_MILLIS)
    }
}

/// What is told of a shutdown: first what is told of the launches under way, then what went
/// wrong in signalling, then what went wrong in waiting.
pub open spec fn sessions_report<K: RuntimeKiller>(
    launches: Option<Seq<char>>,
    course: ShutdownCourse<K>,
) -> Option<Seq<char>> {
    let first = match launches {
        Some(text) => seq![text],
        None => seq![],
    };
    let failures = first + failed(course.signals) + failed(course.waits);
    if failures.len() == 0 {
        None
    } else {
        Some(failure_report(" live session process tree(s): "@, failures))
    }
}

/// Whether an outcome is a failure with this text, or none.
pub open spec fn told_is(outcome: Result<(), String>, told: Option<Seq<char>>) -> bool {
    match outcome {
        Ok(()) => told is None,
        Err(text) => told == Some(text@),
    }
}

/// What a shutdown of sessions came to: what is told of it, the sessions' handles, to be
/// dropped, and the steps that were taken.
pub struct ShutdownRun<I, K> {
    pub outcome: Result<(), String>,
    pub handles: Vec<LiveSessionHandle<I, K>>,
    pub log: ShutdownLog,
}

/// Whether handles differ in the state of their owners alone.
pub open spec fn same_but_owners<I, K>(
    handles: Seq<LiveSessionHandle<I, K>>,
    others: Seq<LiveSessionHandle<I, K>>,
) -> bool {
    &&& handles.len() == others.len()
    &&& forall|i: int|
        0 <= i < handles.len() ==> {
            &&& (#[trigger] others[i]).kind == handles[i].kind
            &&& others[i].input == handles[i].input
            &&& others[i].token == handles[i].token
        }
}

/// Whether the process trees of sessions were ended: every owner is signalled once, then
/// every owner is waited for once, nothing else is asked of any, and what went wrong is
/// told, behind what is told of the launches under way. The clock is started once and read
/// once for each owner.
pub open spec fn ended_all<I, K: RuntimeKiller>(
    handles: Seq<LiveSessionHandle<I, K>>,
    launches: Option<Seq<char>>,
    run: ShutdownRun<I, K>,
    clock_before: Seq<ClockStep>,
    clock_after: Seq<ClockStep>,
) -> bool {
    &&& same_but_owners(handles, run.handles@)
    &&& exists|course: ShutdownCourse<K>| #[trigger]
        course.ran(killers(handles), killers(run.handles@)) && run.log@ == course.steps()
            && told_is(run.outcome, sessions_report(launches, course)) && clock_after
            == clock_before + clock_course(course.lefts, QUIESCENCE_MILLIS)
}

/// Tells every owner to end its process tree, in order, and waits for none. Gives what went
/// wrong.
pub fn signal_all<I, K: RuntimeKiller>(
    handles: &mut Vec<LiveSessionHandle<I, K>>,
    log: &mut ShutdownLog,
) -> (failures: Vec<String>)
    ensures
        same_but_owners(old(handles)@, final(handles)@),
        final(log)@ == old(log)@ + signal_steps(old(handles)@.len()),
        exists|signals: Seq<Result<(), String>>| #[trigger]
            signalled_first(
                killers(old(handles)@),
                killers(final(handles)@),
                signals,
                old(handles)@.len() as int,
            ) && views(failures@) == failed(signals),
{
    let mut failures: Vec<String> = Vec::new();
    let ghost owners = killers(handles@);
    let ghost mut signals: Seq<Result<(), String>> = seq![];
    let mut i: usize = 0;
    assert(views(failures@) =~= failed(signals));
    assert(log@ =~= old(log)@ + signal_steps(0));
    while i < handles.len()
        invariant
            i <= handles@.len() == owners.len(),
            owners == killers(old(handles)@),
            same_but_owners(old(handles)@, handles@),
            log@ == old(log)@ + signal_steps(i as nat),
            signalled_first(owners, killers(handles@), signals, i as int),
            views(failures@) == failed(signals),
        decreases handles@.len() - i,
    {
        let ghost before = killers(handles@);
        assert(before[i as int] == owners[i as int]);
        let signalled = log.signal(i, &mut handles[i].killer);
        proof {
            failed_and_one_more(signals, signalled);
            signals = signals.push(signalled);
            assert(killers(handles@) =~= before.update(i as int, handles@[i as int].killer));
            assert(log@ =~= old(log)@ + signal_steps((i + 1) as nat));
        }
        if let Err(error) = signalled {
            let ghost texts = views(failures@);
            failures.push(error);
            assert(views(failures@) =~= texts.push(error@));
        }
        i += 1;
    }
    assert(signalled_first(owners, killers(handles@), signals, owners.len() as int));
    failures
}

/// Waits for every process tree, in order. They share one budget: each is waited for while
/// some of it is left, and none longer than the one before it. Gives what went wrong.
pub fn wait_for_all<I, K: RuntimeKiller, C: ShutdownClock>(
    handles: &mut Vec<LiveSessionHandle<I, K>>,
    log: &mut ShutdownLog,
    clock: &mut C,
) -> (failures: Vec<String>)
    ensures
        same_but_owners(old(handles)@, final(handles)@),
        exists|lefts: Seq<u64>, waits: Seq<Result<(), String>>| #[trigger]
            waited_first(
                killers(old(handles)@),
                killers(final(handles)@),
                shared_timeouts(lefts, QUIESCENCE_MILLIS),
                waits,
                old(handles)@.len() as int,
            ) && views(failures@) == failed(waits) && final(log)@ == old(log)@ + wait_steps(
                lefts,
                QUIESCENCE_MILLIS,
            ) && final(clock).told() == old(clock).told() + clock_course(lefts, QUIESCENCE_MILLIS),
{
    let mut failures: Vec<String> = Vec::new();
    let ghost owners = killers(handles@);
    let ghost mut lefts: Seq<u64> = seq![];
    let ghost mut waits: Seq<Result<(), String>> = seq![];
    let mut shortest: u64 = QUIESCENCE_MILLIS;
    log.start(clock, QUIESCENCE_MILLIS);
    let mut i: usize = 0;
    assert(views(failures@) =~= failed(waits));
    assert(log@ =~= old(log)@ + wait_steps(lefts, QUIESCENCE_MILLIS));
    assert(clock.told() =~= old(clock).told() + clock_course(lefts, QUIESCENCE_MILLIS));
    while i < handles.len()
        invariant
            i <= handles@.len() == owners.len(),
            owners == killers(old(handles)@),
            same_but_owners(old(handles)@, handles@),
            lefts.len() == i,
            log@ == old(log)@ + wait_steps(lefts, QUIESCENCE_MILLIS),
            clock.told() == old(clock).told() + clock_course(lefts, QUIESCENCE_MILLIS),
            waited_first(
                owners,
                killers(handles@),
                shared_timeouts(lefts, QUIESCENCE_MILLIS),
                waits,
                i as int,
            ),
            shortest == least(lefts, QUIESCENCE_MILLIS),
            views(failures@) == failed(waits),
        decreases handles@.len() - i,
    {
        let ghost before = killers(handles@);
        let ghost steps = log@;
        let ghost told = clock.told();
        assert(before[i as int] == owners[i as int]);
        let left = log.read(clock);
        if left < shortest {
            shortest = left;
        }
        let waited = log.wait(i, &mut handles[i].killer, shortest);
        proof {
            failed_and_one_more(waits, waited);
            let longer = lefts.push(left);
            assert(longer.drop_last() =~= lefts);
            assert(shortest == least(longer, QUIESCENCE_MILLIS));
            assert(log@ =~= old(log)@ + wait_steps(longer, QUIESCENCE_MILLIS));
            assert(clock.told() =~= old(clock).told() + clock_course(longer, QUIESCENCE_MILLIS));
            let timeouts = shared_timeouts(longer, QUIESCENCE_MILLIS);
            assert(longer.take(i as int + 1) =~= longer);
            assert forall|k: int| 0 <= k < i implies #[trigger] timeouts[k] == shared_timeouts(
                lefts,
                QUIESCENCE_MILLIS,
            )[k] by {
                assert(longer.take(k + 1) =~= lefts.take(k + 1));
            }
            let after = killers(handles@);
            assert(after =~= before.update(i as int, handles@[i as int].killer));
            assert forall|k: int| 0 <= k <= i implies waited_once(
                owners[k],
                #[trigger] after[k],
                timeouts[k],
                waits.push(waited)[k],
            ) by {
                if k < i {
                    assert(before[k] == after[k]);
                    assert(timeouts[k] == shared_timeouts(lefts, QUIESCENCE_MILLIS)[k]);
                }
            }
            lefts = longer;
            waits = waits.push(waited);
        }
        if let Err(error) = waited {
            let ghost texts = views(failures@);
            failures.push(error);
            assert(views(failures@) =~= texts.push(error@));
        }
        i += 1;
    }
    assert(waited_first(
        owners,
        killers(handles@),
        shared_timeouts(lefts, QUIESCENCE_MILLIS),
        waits,
        owners.len() as int,
    ));
    failures
}

/// Terminates the process trees of sessions that have left the registry: all of them are
/// signalled before the first is waited for. The failure of the launches under way, where
/// there is one, is reported first.
pub fn finish_shutdown<I, K: RuntimeKiller, C: ShutdownClock>(
    admission_failure: Option<String>,
    handles: Vec<LiveSessionHandle<I, K>>,
    clock: &mut C,
) -> (run: ShutdownRun<I, K>)
    ensures
        ended_all(
            handles@,
            optional_view(admission_failure),
            run,
            old(clock).told(),
            final(clock).told(),
        ),
{
    let ghost owners = killers(handles@);
    let ghost reported = optional_view(admission_failure);
    let mut failures: Vec<String> = Vec::new();
    if let Some(text) = admission_failure {
        failures.push(text);
    }
    let ghost first = views(failures@);
    assert(first =~= match reported {
        Some(text) => seq![text],
        None => seq![],
    });
    let ghost given = handles@;
    let mut handles: Vec<LiveSessionHandle<I, K>> = handles;
    let mut log = ShutdownLog::new();
    let mut unsignalled = signal_all(&mut handles, &mut log);
    let ghost between = handles@;
    let ghost signalled = killers(handles@);
    let ghost signals = choose|signals: Seq<Result<(), String>>| #[trigger]
        signalled_first(owners, signalled, signals, owners.len() as int) && views(unsignalled@)
            == failed(signals);
    let ghost halfway = log@;
    let mut unended = wait_for_all(&mut handles, &mut log, clock);
    let ghost (lefts, waits) = choose|lefts: Seq<u64>, waits: Seq<Result<(), String>>|
        #[trigger]
        waited_first(
            signalled,
            killers(handles@),
            shared_timeouts(lefts, QUIESCENCE_MILLIS),
            waits,
            owners.len() as int,
        ) && views(unended@) == failed(waits) && log@ == halfway + wait_steps(
            lefts,
            QUIESCENCE_MILLIS,
        ) && clock.told() == old(clock).told() + clock_course(lefts, QUIESCENCE_MILLIS);
    let ghost before = failures@;
    let ghost (second, third) = (unsignalled@, unended@);
    failures.append(&mut unsignalled);
    failures.append(&mut unended);
    let outcome = session_report(&failures);
    let run = ShutdownRun { outcome, handles, log };
    proof {
        let course = ShutdownCourse::<K> { signalled, signals, lefts, waits };
        assert(failures@ =~= before + second + third);
        assert(views(failures@) =~= first + failed(signals) + failed(waits));
        assert(views(failures@).len() == failures@.len());
        assert(course.ran(owners, killers(run.handles@)));
        assert(run.log@ =~= course.steps());
        assert(same_but_owners(given, run.handles@)) by {
            assert forall|i: int| 0 <= i < given.len() implies {
                &&& (#[trigger] run.handles@[i]).kind == given[i].kind
                &&& run.handles@[i].input == given[i].input
                &&& run.handles@[i].token == given[i].token
            } by {
                assert(between[i].kind == given[i].kind);
            }
        }
    }
    run
}

/// Registering a life of a session and then seeing it exit leaves the other sessions as
/// they were, and no session under its name.
pub proof fn exit_ends_the_registration<I, K>(
    before: Map<Seq<char>, LiveSessionHandle<I, K>>,
    session_id: Seq<char>,
    handle: LiveSessionHandle<I, K>,
)
    ensures
        after_exit(after_entry(before, session_id, handle, false), session_id, handle.token)
            == before.remove(session_id),
        after_entry(before, session_id, handle, true) == before.remove(session_id),
{
    assert(before.insert(session_id, handle).remove(session_id) =~= before.remove(session_id));
}

/// The exit of one life of a session leaves another life, which took its name, registered.
pub proof fn stale_exit_keeps_the_replacement<I, K>(
    before: Map<Seq<char>, LiveSessionHandle<I, K>>,
    session_id: Seq<char>,
    replacement: LiveSessionHandle<I, K>,
    stale_token: u64,
)
    requires
        replacement.token != stale_token,
    ensures
        after_exit(
            after_entry(before, session_id, replacement, false),
            session_id,
            stale_token,
        ) == after_entry(before, session_id, replacement, false),
{
}

/// A kill that fails, while the process runs on and the daemon too, leaves the registry as
/// it was, so that it can be tried again.
pub proof fn failed_kill_keeps_the_session<I, K>(
    before: Map<Seq<char>, LiveSessionHandle<I, K>>,
    session_id: Seq<char>,
)
    requires
        before.dom().contains(session_id),
    ensures
        after_kill(
            before.remove(session_id),
            session_id,
            before[session_id],
            true,
            false,
            false,
        ) == before,
{
    assert(before.remove(session_id).insert(session_id, before[session_id]) =~= before);
}

/// A kill never touches a life of the session that took the name while it ran.
pub proof fn kill_keeps_a_newer_life<I, K>(
    during: Map<Seq<char>, LiveSessionHandle<I, K>>,
    session_id: Seq<char>,
    handle: LiveSessionHandle<I, K>,
    failed: bool,
    exited: bool,
    shutting_down: bool,
)
    requires
        during.dom().contains(session_id),
    ensures
        after_kill(during, session_id, handle, failed, exited, shutting_down) == during,
{
}

/// A session that is not live is named where that is told; input without text and a kill that
/// failed say so.
pub proof fn sessions_that_are_gone_are_named(
    id: Seq<char>,
    not_live: NotLiveError,
    error: String,
    killed: Result<(), String>,
)
    ensures
        not_live_text(id) == "session `"@ + id + "` is not live in this daemon"@,
        InputError::NoData.text() == "input payload requires string field `data`"@,
        InputError::NotLive(not_live).text() == not_live_text(not_live.session_id@),
        KillError::NotLive(not_live).text() == not_live_text(not_live.session_id@),
        KillError::Failed(error).text() == error@,
        REGISTRATION_REFUSED@ == "daemon is shutting down; refusing to register a new live session"@,
        QUIESCENCE_MILLIS == 1000,
        killed is Ok ==> refused_text(killed)
            == "daemon is shutting down; refusing to register a new live session"@,
        killed matches Err(text) ==> refused_text(killed)
            == "daemon is shutting down; refusing to register a new live session"@
            + "; failed to terminate the rejected session process tree: "@ + text@,
{
}

/// A registration that is refused has its process tree killed, once, and is told what came of
/// it.
pub proof fn refused_sessions_are_killed<K: RuntimeKiller>(killer: K, refusal: Refusal<K>)
    requires
        refused_and_killed(killer, refusal),
    ensures
        refusal.owner.asked().len() == killer.asked().len() + 1,
        refusal.owner.asked().drop_last() == killer.asked(),
        refusal.owner.asked().last() is Kill,
        refusal.text@ == refused_text(refusal.owner.asked().last()->Kill_0),
{
    let killed = choose|killed: Result<(), String>| #[trigger]
        killed_once(killer, refusal.owner, killed) && refusal.text@ == refused_text(killed);
    assert(refusal.owner.asked() == killer.asked().push(Asked::Kill(killed)));
    assert(refusal.owner.asked().drop_last() =~= killer.asked());
}

/// A kill asks the owner of the session once to kill its process tree, and no other session is
/// touched. A session that was killed leaves the registry; one whose kill failed stays, unless
/// the daemon shuts down; one that is not live is named, and nothing changes.
pub proof fn kills_end_one_session<I, K: RuntimeKiller>(
    before: Map<Seq<char>, LiveSessionHandle<I, K>>,
    after: Map<Seq<char>, LiveSessionHandle<I, K>>,
    id: Seq<char>,
    shutting_down: bool,
    outcome: Result<(), KillError>,
    handle: Option<LiveSessionHandle<I, K>>,
    other: Seq<char>,
)
    requires
        kill_ran(before, after, id, shutting_down, outcome, handle),
    ensures
        other != id ==> (after.dom().contains(other) <==> before.dom().contains(other)) && (
        before.dom().contains(other) ==> after[other] == before[other]),
        before.dom().contains(id) <==> !(outcome matches Err(error) && error is NotLive),
        !before.dom().contains(id) ==> after == before && handle is None,
        outcome is Ok ==> !after.dom().contains(id) && handle is Some && (
        handle->0).killer.asked() == before[id].killer.asked().push(Asked::Kill(Ok(()))),
        outcome matches Err(KillError::Failed(error)) ==> {
            let kept = if shutting_down {
                handle->0
            } else {
                after[id]
            };
            &&& after.dom().contains(id) <==> !shutting_down
            &&& handle is Some <==> shutting_down
            &&& kept.killer.asked() == before[id].killer.asked().push(Asked::Kill(Err(error)))
            &&& kept.kind == before[id].kind
            &&& kept.input == before[id].input
            &&& kept.token == before[id].token
        },
        outcome matches Err(KillError::NotLive(error)) ==> error.session_id@ == id,
{
    if other != id {
        assert(before.remove(id).dom().contains(other) <==> before.dom().contains(other));
        assert(after.remove(id).dom().contains(other) <==> after.dom().contains(other));
        if outcome is Err && outcome->Err_0 is Failed {
            assert(after.remove(id) == before.remove(id));
            if before.dom().contains(other) {
                assert(after.remove(id)[other] == before.remove(id)[other]);
            }
        }
    }
}

/// A text is written to a terminal as it is, and to a stream as one line of JSON: a message of
/// the user whose content is one block of text, that text.
pub proof fn texts_reach_sessions_whole(data: Seq<char>)
    ensures
        input_text(LiveSessionKind::Pty, data) == data,
        exists|envelope: Json|
            {
                &&& input_text(LiveSessionKind::Stream, data) == (#[trigger] json_encoding(
                    envelope,
                )).push('\n')
                &&& field_of(envelope, "type"@) == Some(Json::Text("user"@))
                &&& field_of(envelope, "message"@) matches Some(message) && field_of(
                    message,
                    "role"@,
                ) == Some(Json::Text("user"@)) && (field_of(message, "content"@) matches Some(
                    Json::Array(blocks),
                ) && blocks.len() == 1 && field_of(blocks[0], "type"@) == Some(Json::Text("text"@))
                    && field_of(blocks[0], "text"@) == Some(Json::Text(data)))
            },
{
    reveal_strlit("type");
    reveal_strlit("text");
    reveal_strlit("role");
    reveal_strlit("content");
    reveal_strlit("message");
    assert("type"@.len() == 4);
    assert("text"@.len() == 4);
    assert("role"@.len() == 4);
    assert("content"@.len() == 7);
    assert("message"@.len() == 7);
    assert("type"@[1] == 'y');
    assert("text"@[1] == 'e');
    assert("role"@[1] == 'o');
    assert("content"@[0] == 'c');
    assert("message"@[0] == 'm');
    let envelope = stream_envelope(data);
    assert(input_text(LiveSessionKind::Stream, data) == json_encoding(envelope).push('\n'));
}

/// The text of an input payload is the text under `data`, as it is; without a text there, it
/// has none.
pub proof fn inputs_carry_their_data(payload: Json, data: Seq<char>)
    ensures
        payload_data(payload) == Some(data) <==> field_of(payload, "data"@) == Some(
            Json::Text(data),
        ),
        payload_data(payload) is None <==> !(field_of(payload, "data"@) matches Some(inner)
            && inner is Text),
{
}

/// A session enters the registry under its own name and changes no other; one whose process
/// has exited already leaves its name free.
pub proof fn sessions_enter_under_their_name<I, K>(
    sessions: Map<Seq<char>, LiveSessionHandle<I, K>>,
    id: Seq<char>,
    handle: LiveSessionHandle<I, K>,
    other: Seq<char>,
)
    ensures
        after_entry(sessions, id, handle, false).dom().contains(id),
        after_entry(sessions, id, handle, false)[id] == handle,
        !after_entry(sessions, id, handle, true).dom().contains(id),
        other != id ==> {
            &&& after_entry(sessions, id, handle, false).dom().contains(other)
                <==> sessions.dom().contains(other)
            &&& after_entry(sessions, id, handle, true).dom().contains(other)
                <==> sessions.dom().contains(other)
            &&& sessions.dom().contains(other) ==> after_entry(sessions, id, handle, false)[other]
                == sessions[other] && after_entry(sessions, id, handle, true)[other]
                == sessions[other]
        },
{
}

/// The exit of a life of a session takes it out of the registry if and only if it is the
/// registered one; nothing else leaves.
pub proof fn exits_take_out_their_own_life<I, K>(
    sessions: Map<Seq<char>, LiveSessionHandle<I, K>>,
    id: Seq<char>,
    token: u64,
    other: Seq<char>,
)
    ensures
        is_current(sessions, id, token) <==> sessions.dom().contains(id) && sessions[id].token
            == token,
        sessions.dom().contains(id) && sessions[id].token == token ==> !after_exit(
            sessions,
            id,
            token,
        ).dom().contains(id),
        !(sessions.dom().contains(id) && sessions[id].token == token) ==> after_exit(
            sessions,
            id,
            token,
        ) == sessions,
        other != id ==> (after_exit(sessions, id, token).dom().contains(other)
            <==> sessions.dom().contains(other)),
{
}

/// A handle goes back into the registry if and only if its kill failed, its process runs on,
/// the daemon does too, and nobody has taken its name.
pub proof fn failed_kills_are_put_back<I, K>(
    sessions: Map<Seq<char>, LiveSessionHandle<I, K>>,
    id: Seq<char>,
    handle: LiveSessionHandle<I, K>,
    failed: bool,
    exited: bool,
    shutting_down: bool,
)
    ensures
        ({
            let after = after_kill(sessions, id, handle, failed, exited, shutting_down);
            let back = failed && !exited && !shutting_down && !sessions.dom().contains(id);
            &&& back ==> after == sessions.insert(id, handle)
            &&& !back ==> after == sessions
        }),
{
}

/// What is told of a shutdown: nothing where nothing failed; else how many things did and
/// what each said, the launches first, then the signals, then the waits.
pub proof fn shutdowns_tell_what_failed<K: RuntimeKiller>(
    launches: Option<Seq<char>>,
    course: ShutdownCourse<K>,
    outcome: Result<(), String>,
)
    ensures
        ({
            let first = match launches {
                Some(text) => seq![text],
                None => Seq::<Seq<char>>::empty(),
            };
            let all = first + failed(course.signals) + failed(course.waits);
            let report = sessions_report(launches, course);
            &&& all.len() == 0 ==> report is None
            &&& all.len() > 0 ==> report == Some(
                failure_report(" live session process tree(s): "@, all),
            )
            &&& told_is(outcome, report) ==> (outcome is Ok <==> all.len() == 0)
            &&& told_is(outcome, report) ==> (outcome matches Err(text) ==> text@
                == failure_report(" live session process tree(s): "@, all))
        }),
        failed(course.signals).len() == 0 ==> launches_report(course.signals) is None,
        failed(course.signals).len() > 0 ==> launches_report(course.signals) == Some(
            failure_report(" provisional launch process tree(s): "@, failed(course.signals)),
        ),
{
}

/// At shutdown every session's owner is asked two things and no more: first to begin to end
/// its process tree, and then to wait for it, for no longer than a second; its handle is
/// otherwise as it was.
pub proof fn every_session_is_signalled_and_waited_for<I, K: RuntimeKiller>(
    handles: Seq<LiveSessionHandle<I, K>>,
    launches: Option<Seq<char>>,
    run: ShutdownRun<I, K>,
    clock_before: Seq<ClockStep>,
    clock_after: Seq<ClockStep>,
    i: int,
)
    requires
        ended_all(handles, launches, run, clock_before, clock_after),
        0 <= i < handles.len(),
    ensures
        run.handles@.len() == handles.len(),
        run.handles@[i].kind == handles[i].kind,
        run.handles@[i].input == handles[i].input,
        run.handles@[i].token == handles[i].token,
        ({
            let before = handles[i].killer.asked();
            let after = run.handles@[i].killer.asked();
            let n = before.len() as int;
            &&& after.len() == n + 2
            &&& after.take(n) == before
            &&& after[n] is Signal
            &&& after[n + 1] is Wait
            &&& after[n + 1]->Wait_0 <= 1000
        }),
{
    let owners = killers(handles);
    let ended = killers(run.handles@);
    assert(run.handles@[i].kind == handles[i].kind);
    let course = choose|course: ShutdownCourse<K>| #[trigger]
        course.ran(owners, ended) && run.log@ == course.steps() && told_is(
            run.outcome,
            sessions_report(launches, course),
        ) && clock_after == clock_before + clock_course(course.lefts, QUIESCENCE_MILLIS);
    let timeouts = shared_timeouts(course.lefts, QUIESCENCE_MILLIS);
    assert(owners.len() == handles.len());
    assert(signalled_once(owners[i], course.signalled[i], course.signals[i]));
    assert(waited_once(course.signalled[i], ended[i], timeouts[i], course.waits[i]));
    crate::shutdown::waits_share_the_budget(course.lefts, QUIESCENCE_MILLIS, i);
    assert(owners[i] == handles[i].killer);
    assert(ended[i] == run.handles@[i].killer);
    assert(ended[i].asked() == owners[i].asked().push(Asked::Signal(course.signals[i])).push(
        Asked::Wait(timeouts[i], course.waits[i]),
    ));
    assert(ended[i].asked().take(owners[i].asked().len() as int) =~= owners[i].asked());
}

/// At shutdown every owner is signalled before any is waited for, in their order, and all of
/// them share one budget of a second, which is started in between.
pub proof fn all_sessions_are_signalled_first<I, K: RuntimeKiller>(
    handles: Seq<LiveSessionHandle<I, K>>,
    launches: Option<Seq<char>>,
    run: ShutdownRun<I, K>,
    clock_before: Seq<ClockStep>,
    clock_after: Seq<ClockStep>,
    i: int,
)
    requires
        ended_all(handles, launches, run, clock_before, clock_after),
        handles.len() <= usize::MAX,
        0 <= i < handles.len(),
    ensures
        run.log@.len() == 3 * handles.len() + 1,
        run.log@[i] == ShutdownStep::Signalled(i as usize),
        run.log@[handles.len() as int] == ShutdownStep::Started(1000),
        run.log@[handles.len() + 1 + 2 * i] is Left,
        run.log@[handles.len() + 2 + 2 * i] matches ShutdownStep::Waited(place, _) && place == i,
        clock_after.len() == clock_before.len() + handles.len() + 1,
        clock_before.is_prefix_of(clock_after),
        clock_after[clock_before.len() as int] == ClockStep::Started(1000),
{
    let owners = killers(handles);
    let ended = killers(run.handles@);
    let course = choose|course: ShutdownCourse<K>| #[trigger]
        course.ran(owners, ended) && run.log@ == course.steps() && told_is(
            run.outcome,
            sessions_report(launches, course),
        ) && clock_after == clock_before + clock_course(course.lefts, QUIESCENCE_MILLIS);
    let n = handles.len() as int;
    assert(owners.len() == n);
    assert(course.signals.len() == n);
    assert(shared_timeouts(course.lefts, QUIESCENCE_MILLIS).len() == course.lefts.len());
    assert(course.lefts.len() == n);
    crate::shutdown::shutdowns_signal_before_they_wait(course.lefts, QUIESCENCE_MILLIS, i);
    crate::shutdown::clocks_are_read_once_for_each(course.lefts, QUIESCENCE_MILLIS, i);
    let waits = wait_steps(course.lefts, QUIESCENCE_MILLIS);
    assert(run.log@[i] == signal_steps(course.signals.len())[i]);
    assert(run.log@[n] == waits[0]);
    assert(run.log@[n + 1 + 2 * i] == waits[1 + 2 * i]);
    assert(run.log@[n + 2 + 2 * i] == waits[2 + 2 * i]);
    assert(clock_before =~= clock_after.subrange(0, clock_before.len() as int));
}

/// A session is registered under its name with a token that no other life has, unless the
/// daemon shuts down: then its process tree is killed, and the registry stays.
pub proof fn registering_gives_a_new_token<I, K: RuntimeKiller>(
    runtime: &mut LiveSessionRuntime<I, K>,
    id: String,
    input: I,
    killer: K,
    outcome: Result<(), Refusal<K>>,
    other: Seq<char>,
)
    requires
        call_ensures(LiveSessionRuntime::<I, K>::register, (runtime, id, input, killer), outcome),
    ensures
        outcome is Ok <==> !old(runtime).is_shutting_down(),
        outcome is Ok ==> {
            let now = final(runtime).sessions();
            &&& now.dom().contains(id@)
            &&& now[id@].kind == LiveSessionKind::Pty
            &&& now[id@].input == input
            &&& now[id@].killer == killer
            &&& now[id@].token == old(runtime).next_token()
            &&& final(runtime).next_token() == old(runtime).next_token() + 1
            &&& other != id@ ==> (now.dom().contains(other) <==> old(
                runtime,
            ).sessions().dom().contains(other))
        },
        outcome matches Err(refusal) ==> final(runtime).sessions() == old(runtime).sessions()
            && refused_and_killed(killer, refusal),
{
}

/// The exit of a life of a session marks it, and hands out its handle where it was the
/// registered one.
pub proof fn exits_are_marked<I, K: RuntimeKiller>(
    runtime: &mut LiveSessionRuntime<I, K>,
    id: &str,
    registration: &mut LiveSessionRegistration,
    removed: Option<LiveSessionHandle<I, K>>,
)
    requires
        call_ensures(
            LiveSessionRuntime::<I, K>::mark_exited,
            (runtime, id, registration),
            removed,
        ),
    ensures
        final(registration).is_exited(),
        final(registration).token() == old(registration).token(),
        removed is Some <==> old(runtime).sessions().dom().contains(id@) && old(
            runtime,
        ).sessions()[id@].token == old(registration).token(),
        removed matches Some(handle) ==> handle == old(runtime).sessions()[id@]
            && !final(runtime).sessions().dom().contains(id@),
        removed is None ==> final(runtime).sessions() == old(runtime).sessions(),
{
}

/// Input reaches the session that it is for, in the form that the session takes, or says why
/// not: it carries no text, or the session is not live.
pub proof fn inputs_reach_their_session<I, K: RuntimeKiller>(
    runtime: &LiveSessionRuntime<I, K>,
    id: &str,
    payload: &Value,
    prepared: Result<(&I, String), InputError>,
)
    requires
        call_ensures(LiveSessionRuntime::<I, K>::send_input, (runtime, id, payload), prepared),
    ensures
        ({
            let data = payload_data(json_model(*payload));
            let live = runtime.sessions().dom().contains(id@);
            &&& prepared is Ok <==> data is Some && live
            &&& prepared matches Ok((input, text)) ==> *input == runtime.sessions()[id@].input
                && text@ == input_text(runtime.sessions()[id@].kind, data->0)
            &&& data is None ==> (prepared matches Err(error) && error is NoData)
            &&& data is Some && !live ==> (prepared matches Err(InputError::NotLive(error))
                && error.session_id@ == id@)
        }),
{
}

/// Beginning shutdown closes the launch gate and takes no session away.
pub proof fn shutdown_begins_by_closing<I, K: RuntimeKiller>(
    runtime: &mut LiveSessionRuntime<I, K>,
    failure: Option<String>,
)
    requires
        call_ensures(LiveSessionRuntime::<I, K>::begin_shutdown, (runtime,), failure),
    ensures
        final(runtime).is_shutting_down(),
        final(runtime).gate().is_closed(),
        final(runtime).sessions() == old(runtime).sessions(),
{
}

/// Shutdown leaves no session in the registry and no way in, and hands out every handle that
/// was registered.
pub proof fn shutdown_leaves_nothing<I, K: RuntimeKiller, C: ShutdownClock>(
    runtime: &mut LiveSessionRuntime<I, K>,
    clock: &mut C,
    run: ShutdownRun<I, K>,
    id: Seq<char>,
)
    requires
        call_ensures(LiveSessionRuntime::<I, K>::shutdown_all::<C>, (runtime, clock), run),
    ensures
        final(runtime).is_shutting_down(),
        final(runtime).gate().is_closed(),
        !final(runtime).sessions().dom().contains(id),
        old(runtime).sessions().dom().contains(id) ==> exists|i: int|
            0 <= i < run.handles@.len() && (#[trigger] run.handles@[i]).token == old(
                runtime,
            ).sessions()[id].token && run.handles@[i].killer.asked().len() == old(
                runtime,
            ).sessions()[id].killer.asked().len() + 2,
{
    let (order, outcomes, ids, handles) = choose|
        order: Seq<u64>,
        outcomes: Seq<Result<(), String>>,
        ids: Seq<Seq<char>>,
        handles: Seq<LiveSessionHandle<I, K>>,
    | #![trigger
        all_signalled(
            old(runtime).gate().launches(),
            final(runtime).gate().launches(),
            order,
            outcomes,
        ),
        enumerates(ids, old(runtime).sessions(), handles),
    ]
        {
            &&& all_signalled(
                old(runtime).gate().launches(),
                final(runtime).gate().launches(),
                order,
                outcomes,
            )
            &&& enumerates(ids, old(runtime).sessions(), handles)
            &&& ended_all(
                handles,
                launches_report(outcomes),
                run,
                old(clock).told(),
                final(clock).told(),
            )
        };
    if old(runtime).sessions().dom().contains(id) {
        assert(ids.contains(id));
        let i = choose|i: int| 0 <= i < ids.len() && ids[i] == id;
        assert(handles[i] == old(runtime).sessions()[ids[i]]);
        every_session_is_signalled_and_waited_for(
            handles,
            launches_report(outcomes),
            run,
            old(clock).told(),
            final(clock).told(),
            i,
        );
        assert(run.handles@[i].token == old(runtime).sessions()[id].token);
    }
}

/// A runtime begins without sessions, without launches and open; the home that it is given is
/// the one in which familiars are resolved, and without a writer of events there is none.
pub proof fn runtimes_begin_empty<I, K: RuntimeKiller>(
    bare: LiveSessionRuntime<I, K>,
    home: String,
    homed: LiveSessionRuntime<I, K>,
    writer: Result<(), String>,
    tried: Result<LiveSessionRuntime<I, K>, String>,
    id: Seq<char>,
)
    requires
        call_ensures(LiveSessionRuntime::<I, K>::new, (), bare),
        call_ensures(LiveSessionRuntime::<I, K>::with_coven_home, (home,), homed),
        call_ensures(LiveSessionRuntime::<I, K>::try_with_coven_home, (home, writer), tried),
    ensures
        bare.home() is None && !bare.is_shutting_down() && !bare.sessions().dom().contains(id),
        homed.home() == Some(home@) && !homed.is_shutting_down()
            && !homed.sessions().dom().contains(id),
        tried is Ok <==> writer is Ok,
        tried matches Ok(started) ==> started.home() == Some(home@) && started.records_events(),
        !bare.records_events(),
{
}

/// Each life of a session has a token of its own: the next is always greater.
pub proof fn lives_have_their_own_token<I, K: RuntimeKiller>(
    runtime: &mut LiveSessionRuntime<I, K>,
    registration: LiveSessionRegistration,
)
    requires
        call_ensures(LiveSessionRuntime::<I, K>::new_registration, (runtime,), registration),
    ensures
        registration.token() == old(runtime).next_token(),
        final(runtime).next_token() > registration.token(),
        !registration.is_exited(),
        final(runtime).sessions() == old(runtime).sessions(),
{
}

/// A session enters the registry with the kind, the input and the owner that it came with,
/// unless the daemon shuts down; an earlier one of its name comes out.
pub proof fn entering_hands_out_the_earlier<I, K: RuntimeKiller>(
    runtime: &mut LiveSessionRuntime<I, K>,
    id: String,
    kind: LiveSessionKind,
    input: I,
    killer: K,
    registration: &LiveSessionRegistration,
    outcome: Registered<I, K>,
)
    requires
        call_ensures(
            LiveSessionRuntime::<I, K>::enter,
            (runtime, id, kind, input, killer, registration),
            outcome,
        ),
    ensures
        outcome is Rejected <==> old(runtime).is_shutting_down(),
        outcome matches Registered::Rejected(owner) ==> owner == killer && final(runtime).sessions() == old(runtime).sessions(),
        outcome matches Registered::Admitted { replaced, removed } ==> {
            let before = old(runtime).sessions();
            let now = final(runtime).sessions();
            &&& replaced is Some <==> before.dom().contains(id@)
            &&& replaced matches Some(earlier) ==> earlier == before[id@]
            &&& removed is Some <==> registration.is_exited()
            &&& now.dom().contains(id@) <==> !registration.is_exited()
            &&& !registration.is_exited() ==> now[id@].kind == kind && now[id@].input == input
                && now[id@].killer == killer && now[id@].token == registration.token()
        },
{
}

/// A session of either kind is registered as that kind.
pub proof fn kinds_are_kept<I, K: RuntimeKiller>(
    runtime: &mut LiveSessionRuntime<I, K>,
    id: String,
    kind: LiveSessionKind,
    input: I,
    killer: K,
    outcome: Result<(), Refusal<K>>,
)
    requires
        call_ensures(
            LiveSessionRuntime::<I, K>::register_kind,
            (runtime, id, kind, input, killer),
            outcome,
        ),
    ensures
        outcome is Ok <==> !old(runtime).is_shutting_down(),
        outcome is Ok ==> final(runtime).sessions().dom().contains(id@)
            && final(runtime).sessions()[id@].kind == kind
            && final(runtime).sessions()[id@].killer == killer,
        outcome matches Err(refusal) ==> refused_and_killed(killer, refusal),
{
}

/// A handle that is taken out to be killed is the session's own, and leaves the registry; what
/// the kill came to is handed on as it was.
pub proof fn handles_are_taken_out_to_be_killed<I, K: RuntimeKiller>(
    runtime: &mut LiveSessionRuntime<I, K>,
    id: &str,
    taken: Result<LiveSessionHandle<I, K>, NotLiveError>,
    settling: &mut LiveSessionRuntime<I, K>,
    handle: LiveSessionHandle<I, K>,
    outcome: Result<(), String>,
    exited: bool,
    settled: (Result<(), String>, Option<LiveSessionHandle<I, K>>),
)
    requires
        call_ensures(LiveSessionRuntime::<I, K>::take_for_kill, (runtime, id), taken),
        call_ensures(
            LiveSessionRuntime::<I, K>::settle_kill,
            (settling, id, handle, outcome, exited),
            settled,
        ),
    ensures
        taken is Ok <==> old(runtime).sessions().dom().contains(id@),
        taken matches Ok(own) ==> own == old(runtime).sessions()[id@]
            && !final(runtime).sessions().dom().contains(id@),
        taken matches Err(error) ==> error.session_id@ == id@ && final(runtime).sessions() == old(
            runtime,
        ).sessions(),
        settled.0 == outcome,
        ({
            let back = outcome is Err && !exited && !old(settling).is_shutting_down() && !old(
                settling,
            ).sessions().dom().contains(id@);
            &&& back ==> settled.1 is None && final(settling).sessions() == old(
                settling,
            ).sessions().insert(id@, handle)
            &&& !back ==> settled.1 == Some(handle) && final(settling).sessions() == old(
                settling,
            ).sessions()
        }),
{
}

/// Killing a session ends that session, or says why not.
pub proof fn killing_ends_the_session<I, K: RuntimeKiller>(
    runtime: &mut LiveSessionRuntime<I, K>,
    id: &str,
    run: KillRun<I, K>,
)
    requires
        call_ensures(LiveSessionRuntime::<I, K>::kill_session, (runtime, id), run),
    ensures
        run.outcome is Ok ==> old(runtime).sessions().dom().contains(id@)
            && !final(runtime).sessions().dom().contains(id@),
        !old(runtime).sessions().dom().contains(id@) ==> (run.outcome matches Err(
            KillError::NotLive(error),
        ) && error.session_id@ == id@),
        old(runtime).sessions().dom().contains(id@) && run.outcome is Err && !old(
            runtime,
        ).is_shutting_down() ==> final(runtime).sessions().dom().contains(id@),
{
}

/// Launches pass the runtime's launch gate: they are let in while it is open, and every place
/// that is given up is free.
pub proof fn runtimes_admit_through_their_gate<I, K: RuntimeKiller>(
    runtime: &mut LiveSessionRuntime<I, K>,
    admission: Result<LiveLaunchAdmission, String>,
    leaving: &mut LiveSessionRuntime<I, K>,
    place: &mut LiveLaunchAdmission,
    drained: bool,
)
    requires
        call_ensures(LiveSessionRuntime::<I, K>::begin_launch, (runtime,), admission),
        call_ensures(LiveSessionRuntime::<I, K>::release_launch, (leaving, place), drained),
    ensures
        admission is Ok <==> !old(runtime).gate().is_closed(),
        admission matches Err(text) ==> text@
            == "daemon is shutting down; refusing to launch a new live session"@,
        admission matches Ok(given) ==> given.number() == old(runtime).gate().next() && final(runtime).gate().launches().dom().contains(given.number()),
        !final(place).is_active(),
        old(place).is_active() ==> !final(leaving).gate().launches().dom().contains(
            old(place).number(),
        ),
        final(runtime).sessions() == old(runtime).sessions(),
        final(leaving).sessions() == old(leaving).sessions(),
{
}

/// What is done to one session leaves the rest of the runtime as it was: whether it shuts
/// down, its home, whether it records events, its launch gate and the next token.
pub proof fn sessions_change_alone<I, K: RuntimeKiller>(
    runtime: LiveSessionRuntime<I, K>,
    other: LiveSessionRuntime<I, K>,
)
    requires
        runtime.same_but_sessions(&other),
    ensures
        runtime.is_shutting_down() == other.is_shutting_down(),
        runtime.home() == other.home(),
        runtime.records_events() == other.records_events(),
        runtime.gate() == other.gate(),
        runtime.next_token() == other.next_token(),
{
}

/// Owners are signalled, and waited for, one after another: the first so many have been, each
/// once, and the others are as they were.
pub proof fn owners_are_asked_in_turn<K: RuntimeKiller>(
    owners: Seq<K>,
    asked: Seq<K>,
    timeouts: Seq<u64>,
    outcomes: Seq<Result<(), String>>,
    count: int,
    i: int,
)
    requires
        0 <= i < owners.len(),
        0 <= count <= owners.len(),
    ensures
        signalled_first(owners, asked, outcomes, count) ==> {
            &&& asked.len() == owners.len()
            &&& i < count ==> asked[i].asked() == owners[i].asked().push(
                Asked::Signal(outcomes[i]),
            )
            &&& i >= count ==> asked[i] == owners[i]
        },
        waited_first(owners, asked, timeouts, outcomes, count) ==> {
            &&& asked.len() == owners.len()
            &&& i < count ==> asked[i].asked() == owners[i].asked().push(
                Asked::Wait(timeouts[i], outcomes[i]),
            )
            &&& i >= count ==> asked[i] == owners[i]
        },
{
    if signalled_first(owners, asked, outcomes, count) && i < count {
        assert(signalled_once(owners[i], asked[i], outcomes[i]));
    }
    if waited_first(owners, asked, timeouts, outcomes, count) && i < count {
        assert(waited_once(owners[i], asked[i], timeouts[i], outcomes[i]));
    }
}

} // verus!
