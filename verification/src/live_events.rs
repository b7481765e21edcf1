//! The order of a session's events: its output, its exit, and the events that bracket an
//! action on it.

use crate::live::not_live_text;
use crate::text::{joined, same_text};
use vstd::prelude::*;
use vstd::string::*;
use vstd::utf8::{encode_utf8, valid_utf8};

verus! {

/// The text of bytes that may not be UTF-8, with what is not replaced.
pub uninterp spec fn utf8_lossy(bytes: Seq<u8>) -> Seq<char>;

/// `String::from_utf8_lossy` gives the text of the bytes; bytes that are UTF-8 keep theirs.
#[verifier::external_body]
pub(crate) fn lossy_text(bytes: &[u8]) -> (text: String)
    ensures
        text@ == utf8_lossy(bytes@),
        valid_utf8(bytes@) ==> encode_utf8(text@) == bytes@,
{
    String::from_utf8_lossy(bytes).into_owned()
}

/// What to do with a chunk of a session's output.
#[derive(Debug, Clone)]
pub enum OutputStep {
    /// Nothing: the chunk is empty.
    Ignore,
    /// Nothing but a notice: the session's exit has been recorded.
    Discard,
    /// Record this text.
    Record(String),
}

/// Whether a session's output is still recorded.
#[derive(Debug, Clone)]
pub struct OutputObserver {
    closed: bool,
}

impl OutputObserver {
    /// Whether the session's exit has been seen.
    pub closed spec fn is_closed(&self) -> bool {
        self.closed
    }

    /// An observer of a session that runs.
    pub fn new() -> (observer: OutputObserver)
        ensures
            !observer.is_closed(),
    {
        OutputObserver { closed: false }
    }

    /// Takes up a chunk of output. Output that comes after the exit is not recorded.
    pub fn on_output(&self, chunk: &[u8]) -> (step: OutputStep)
        ensures
            match step {
                OutputStep::Ignore => chunk@.len() == 0,
                OutputStep::Discard => chunk@.len() > 0 && self.is_closed(),
                OutputStep::Record(text) => chunk@.len() > 0 && !self.is_closed() && text@
                    == utf8_lossy(chunk@) && (valid_utf8(chunk@) ==> encode_utf8(text@) == chunk@),
            },
    {
        if chunk.len() == 0 {
            OutputStep::Ignore
        } else if self.closed {
            OutputStep::Discard
        } else {
            OutputStep::Record(lossy_text(chunk))
        }
    }

    /// Takes up the session's exit.
    pub fn on_exit(&mut self)
        ensures
            final(self).is_closed(),
    {
        self.closed = true;
    }
}

/// What is said of output that came after the exit of its session.
pub fn discarded_output_notice(session_id: &str) -> (notice: String)
    ensures
        notice@ == "coven daemon: discarded output observed after exit barrier for session `"@
            + session_id@ + "`"@,
{
    joined(
        joined(
            "coven daemon: discarded output observed after exit barrier for session `",
            session_id,
        ).as_str(),
        "`",
    )
}

/// What is said of output whose event was handed to the writer: nothing where it was taken.
pub fn recorded_output_notice(session_id: &str, recorded: &Result<bool, String>) -> (notice:
    Option<String>)
    ensures
        match recorded {
            Ok(true) => notice is None,
            Ok(false) => notice matches Some(text) && text@
                == "coven daemon: event writer is pressured; raw output for session `"@
                + session_id@ + "` was rejected"@,
            Err(error) => notice matches Some(text) && text@
                == "coven daemon: event writer failed while recording output for session `"@
                + session_id@ + "`: "@ + error@,
        },
{
    match recorded {
        Ok(true) => None,
        Ok(false) => Some(
            joined(
                joined(
                    "coven daemon: event writer is pressured; raw output for session `",
                    session_id,
                ).as_str(),
                "` was rejected",
            ),
        ),
        Err(error) => Some(
            joined(
                joined(
                    joined(
                        "coven daemon: event writer failed while recording output for session `",
                        session_id,
                    ).as_str(),
                    "`: ",
                ).as_str(),
                error.as_str(),
            ),
        ),
    }
}

/// What is said of an exit whose event was handed to the writer: nothing where it was taken.
pub fn recorded_exit_notice(session_id: &str, recorded: &Result<(), String>) -> (notice: Option<
    String,
>)
    ensures
        match recorded {
            Ok(_) => notice is None,
            Err(error) => notice matches Some(text) && text@
                == "coven daemon: failed to persist exit for session `"@ + session_id@ + "`: "@
                + error@,
        },
{
    match recorded {
        Ok(()) => None,
        Err(error) => Some(
            joined(
                joined(
                    joined("coven daemon: failed to persist exit for session `", session_id).as_str(),
                    "`: ",
                ).as_str(),
                error.as_str(),
            ),
        ),
    }
}

/// Why an action on a session that is bracketed by events failed.
#[derive(Debug, Clone)]
pub enum SessionEventBoundaryError {
    /// An event could not be stored.
    Persistence(String),
    /// The action failed.
    Runtime(String),
    /// The order of events could not be established.
    Coordination(String),
}

/// What comes next in a bracketed action.
#[derive(Debug)]
pub enum BoundaryAction {
    /// Reserve a place for the event.
    Reserve,
    /// Do the action.
    Act,
    /// Store the event in its place.
    Commit,
    /// Give the place up.
    Cancel,
    /// Store the event.
    Record,
    /// Nothing more: this is the outcome.
    Finish(Result<(), SessionEventBoundaryError>),
}

/// How far a bracketed action has come.
#[derive(Debug, Clone)]
pub enum BoundaryStage {
    Reserving,
    ActingOnReservation,
    Committing,
    Cancelling(SessionEventBoundaryError),
    Acting,
    Recording,
    Finished,
}

/// The stage after an event, and what comes next.
pub open spec fn boundary_next(
    stage: BoundaryStage,
    event: Result<(), SessionEventBoundaryError>,
) -> (BoundaryStage, BoundaryAction) {
    match stage {
        BoundaryStage::Reserving => match event {
            Ok(()) => (BoundaryStage::ActingOnReservation, BoundaryAction::Act),
            Err(error) => (BoundaryStage::Finished, BoundaryAction::Finish(Err(error))),
        },
        BoundaryStage::ActingOnReservation => match event {
            Ok(()) => (BoundaryStage::Committing, BoundaryAction::Commit),
            Err(error) => (BoundaryStage::Cancelling(error), BoundaryAction::Cancel),
        },
        BoundaryStage::Cancelling(error) => (
            BoundaryStage::Finished,
            BoundaryAction::Finish(Err(error)),
        ),
        BoundaryStage::Acting => match event {
            Ok(()) => (BoundaryStage::Recording, BoundaryAction::Record),
            Err(error) => (BoundaryStage::Finished, BoundaryAction::Finish(Err(error))),
        },
        BoundaryStage::Committing | BoundaryStage::Recording | BoundaryStage::Finished => (
            BoundaryStage::Finished,
            BoundaryAction::Finish(event),
        ),
    }
}

/// Begins an action that events bracket. Input is stored in a place that is reserved before
/// it is written; a kill asks for a session that is live; other events are stored after the
/// action. Without a writer of events there is nothing to bracket.
pub fn begin_boundary(
    records_events: bool,
    kind: &str,
    session_id: &str,
    live: bool,
) -> (begun: Option<(BoundaryStage, BoundaryAction)>)
    ensures
        begun is Some <==> records_events,
        begun matches Some((stage, action)) ==> {
            if kind@ == "input"@ {
                stage == BoundaryStage::Reserving && action == BoundaryAction::Reserve
            } else if kind@ == "kill"@ && !live {
                stage == BoundaryStage::Finished && (action matches BoundaryAction::Finish(
                    Err(SessionEventBoundaryError::Runtime(text)),
                ) && text@ == not_live_text(session_id@))
            } else {
                stage == BoundaryStage::Acting && action == BoundaryAction::Act
            }
        },
{
    if !records_events {
        return None;
    }
    if same_text(kind, "input") {
        proof {
            reveal_strlit("input");
            reveal_strlit("kill");
        }
        return Some((BoundaryStage::Reserving, BoundaryAction::Reserve));
    }
    if same_text(kind, "kill") && !live {
        let text = joined(joined("session `", session_id).as_str(), "` is not live in this daemon");
        return Some(
            (
                BoundaryStage::Finished,
                BoundaryAction::Finish(Err(SessionEventBoundaryError::Runtime(text))),
            ),
        );
    }
    Some((BoundaryStage::Acting, BoundaryAction::Act))
}

/// Takes up what the last step of a bracketed action came to.
pub fn with_session_event_boundary(
    stage: BoundaryStage,
    event: Result<(), SessionEventBoundaryError>,
) -> (next: (BoundaryStage, BoundaryAction))
    ensures
        next == boundary_next(stage, event),
{
    match stage {
        BoundaryStage::Reserving => match event {
            Ok(()) => (BoundaryStage::ActingOnReservation, BoundaryAction::Act),
            Err(error) => (BoundaryStage::Finished, BoundaryAction::Finish(Err(error))),
        },
        BoundaryStage::ActingOnReservation => match event {
            Ok(()) => (BoundaryStage::Committing, BoundaryAction::Commit),
            Err(error) => {
                let kept = match &error {
                    SessionEventBoundaryError::Persistence(text) => {
                        SessionEventBoundaryError::Persistence(text.clone())
                    },
                    SessionEventBoundaryError::Runtime(text) => {
                        SessionEventBoundaryError::Runtime(text.clone())
                    },
                    SessionEventBoundaryError::Coordination(text) => {
                        SessionEventBoundaryError::Coordination(text.clone())
                    },
                };
                (BoundaryStage::Cancelling(kept), BoundaryAction::Cancel)
            },
        },
        BoundaryStage::Cancelling(error) => (
            BoundaryStage::Finished,
            BoundaryAction::Finish(Err(error)),
        ),
        BoundaryStage::Acting => match event {
            Ok(()) => (BoundaryStage::Recording, BoundaryAction::Record),
            Err(error) => (BoundaryStage::Finished, BoundaryAction::Finish(Err(error))),
        },
        BoundaryStage::Committing | BoundaryStage::Recording | BoundaryStage::Finished => (
            BoundaryStage::Finished,
            BoundaryAction::Finish(event),
        ),
    }
}

/// An event is stored only behind an action that succeeded, and a reserved place whose
/// action failed is given up with the action's failure as the outcome.
pub proof fn events_follow_their_action(
    stage: BoundaryStage,
    event: Result<(), SessionEventBoundaryError>,
    later: Result<(), SessionEventBoundaryError>,
)
    ensures
        ({
            let (next, action) = boundary_next(stage, event);
            &&& action is Commit ==> stage is ActingOnReservation && event is Ok
            &&& action is Record ==> stage is Acting && event is Ok
            &&& action is Cancel ==> stage is ActingOnReservation && event is Err
            &&& stage is ActingOnReservation && event is Err ==> action is Cancel && boundary_next(
                next,
                later,
            ).1 == BoundaryAction::Finish(event)
        }),
{
}

/// A bracketed action goes on from each step that succeeded: with a reserved place to the
/// action and then to storing the event in its place, without one from the action to storing
/// the event; and it ends with what storing came to.
pub proof fn boundaries_go_forward(event: Result<(), SessionEventBoundaryError>)
    ensures
        boundary_next(BoundaryStage::Reserving, Ok(())) == (
            BoundaryStage::ActingOnReservation,
            BoundaryAction::Act,
        ),
        boundary_next(BoundaryStage::ActingOnReservation, Ok(())) == (
            BoundaryStage::Committing,
            BoundaryAction::Commit,
        ),
        boundary_next(BoundaryStage::Acting, Ok(())) == (
            BoundaryStage::Recording,
            BoundaryAction::Record,
        ),
        boundary_next(BoundaryStage::Committing, event) == (
            BoundaryStage::Finished,
            BoundaryAction::Finish(event),
        ),
        boundary_next(BoundaryStage::Recording, event) == (
            BoundaryStage::Finished,
            BoundaryAction::Finish(event),
        ),
{
}

/// A bracketed action that fails ends with its own failure and stores nothing: at once, or
/// where a place was reserved, after that is given up, whatever comes of it.
pub proof fn failed_actions_store_nothing(
    error: SessionEventBoundaryError,
    later: Result<(), SessionEventBoundaryError>,
)
    ensures
        boundary_next(BoundaryStage::Reserving, Err(error)) == (
            BoundaryStage::Finished,
            BoundaryAction::Finish(Err(error)),
        ),
        boundary_next(BoundaryStage::Acting, Err(error)) == (
            BoundaryStage::Finished,
            BoundaryAction::Finish(Err(error)),
        ),
        boundary_next(BoundaryStage::ActingOnReservation, Err(error)) == (
            BoundaryStage::Cancelling(error),
            BoundaryAction::Cancel,
        ),
        boundary_next(BoundaryStage::Cancelling(error), later) == (
            BoundaryStage::Finished,
            BoundaryAction::Finish(Err(error)),
        ),
{
}

/// Output is recorded until the exit of its session, as text, and an empty chunk never.
pub proof fn output_is_recorded_until_exit(
    observer: &OutputObserver,
    chunk: &[u8],
    step: OutputStep,
)
    requires
        call_ensures(OutputObserver::on_output, (observer, chunk), step),
    ensures
        step is Ignore <==> chunk@.len() == 0,
        step is Discard <==> chunk@.len() > 0 && observer.is_closed(),
        step matches OutputStep::Record(text) ==> !observer.is_closed() && text@ == utf8_lossy(
            chunk@,
        ),
{
}

/// Without a writer nothing is bracketed. Input has a place reserved before it is written; a
/// kill of a session that is not live ends at once; anything else is done and then recorded.
pub proof fn brackets_begin_by_kind(
    records_events: bool,
    kind: &str,
    session_id: &str,
    live: bool,
    begun: Option<(BoundaryStage, BoundaryAction)>,
)
    requires
        call_ensures(begin_boundary, (records_events, kind, session_id, live), begun),
    ensures
        begun is Some <==> records_events,
        begun matches Some((stage, action)) ==> {
            &&& kind@ == "input"@ ==> stage == BoundaryStage::Reserving && action
                == BoundaryAction::Reserve
            &&& kind@ == "kill"@ && !live ==> (action matches BoundaryAction::Finish(Err(
                SessionEventBoundaryError::Runtime(text),
            )) && text@ == "session `"@ + session_id@ + "` is not live in this daemon"@)
            &&& kind@ == "kill"@ && live ==> stage == BoundaryStage::Acting && action
                == BoundaryAction::Act
            &&& kind@ != "input"@ && kind@ != "kill"@ ==> stage == BoundaryStage::Acting && action
                == BoundaryAction::Act
        },
{
    reveal_strlit("input");
    reveal_strlit("kill");
    assert("input"@.len() == 5);
    assert("kill"@.len() == 4);
}

/// What is said of output and of an exit that were handed to the writer names the session;
/// nothing is said where they were taken.
pub proof fn lost_events_are_told(
    id: &str,
    output: &Result<bool, String>,
    output_notice: Option<String>,
    exit: &Result<(), String>,
    exit_notice: Option<String>,
    discarded: String,
)
    requires
        call_ensures(recorded_output_notice, (id, output), output_notice),
        call_ensures(recorded_exit_notice, (id, exit), exit_notice),
        call_ensures(discarded_output_notice, (id,), discarded),
    ensures
        output_notice is None <==> *output == Ok::<bool, String>(true),
        *output == Ok::<bool, String>(false) ==> (output_notice matches Some(text) && text@
            == "coven daemon: event writer is pressured; raw output for session `"@ + id@
            + "` was rejected"@),
        *output matches Err(error) ==> (output_notice matches Some(text) && text@
            == "coven daemon: event writer failed while recording output for session `"@ + id@
            + "`: "@ + error@),
        exit_notice is None <==> exit is Ok,
        *exit matches Err(error) ==> (exit_notice matches Some(text) && text@
            == "coven daemon: failed to persist exit for session `"@ + id@ + "`: "@ + error@),
        discarded@ == "coven daemon: discarded output observed after exit barrier for session `"@
            + id@ + "`"@,
{
}

} // verus!
