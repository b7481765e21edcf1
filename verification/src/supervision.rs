//! Finding out whether the daemon runs, stopping it and starting it: the questions that are
//! asked, the answers, and what follows from them.

use crate::fault::{caused, plain, Fault};
use crate::lifecycle::{
    check_owned_by_current_user, foreign_owner_text, DaemonStatus, DaemonStatusState,
};
use crate::numbers::{decimal, decimal_text};
use crate::serve::{nobody_listens, refused_means_free, IoFaultKind};
use crate::text::{joined, same_text, views};
use vstd::prelude::*;
use vstd::string::*;

verus! {

/// What comes next in stopping the daemon.
#[derive(Debug)]
pub enum StopAction {
    /// Ask the recorded socket whether the recorded daemon answers on it.
    Verify(DaemonStatus),
    /// Ask whether the process is alive.
    CheckAlive(u32),
    /// Ask the process to terminate.
    SignalTerm(u32),
    /// Wait for the process to exit, for as long as stopping waits.
    WaitForExit(u32),
    /// Take the daemon's record and its socket away.
    ClearStatusAndSocket,
    /// Nothing more: this is the outcome, and whether a daemon was recorded.
    Finish(Result<bool, Fault>),
}

/// How far stopping the daemon has come.
#[derive(Debug)]
pub enum StopStage {
    Verifying(u32),
    CheckingUnverified(u32),
    Signalling(u32),
    Waiting(u32),
    CheckingUnsignalled(u32, String),
    Clearing,
    Finished,
}

/// What a step of stopping came to.
#[derive(Debug)]
pub enum StopEvent {
    Answer(bool),
    Signalled(Result<(), String>),
    Cleared(Result<(), Fault>),
}

/// What is said of a daemon that could not be verified.
pub open spec fn unverified_text(pid: u32) -> Seq<char> {
    "Coven daemon pid "@ + decimal(pid as nat)
        + " could not be verified through its socket; not signaling or clearing daemon status"@
}

/// What is said of a daemon that did not exit.
pub open spec fn survivor_text(pid: u32) -> Seq<char> {
    "Coven daemon pid "@ + decimal(pid as nat)
        + " did not exit after SIGTERM; not clearing daemon status"@
}

/// What is said of a daemon that could not be signalled.
pub open spec fn unsignalled_text(pid: u32, error: Seq<char>) -> Seq<char> {
    "failed to stop Coven daemon pid "@ + decimal(pid as nat)
        + "; not clearing daemon status: "@ + error
}

/// Whether an action ends stopping with a plain failure.
pub open spec fn stops_with(action: StopAction, text: Seq<char>) -> bool {
    action matches StopAction::Finish(Err(fault)) && fault@ == plain(text)
}

fn pid_message(head: &str, pid: u32, tail: &str) -> (text: String)
    ensures
        text@ == head@ + decimal(pid as nat) + tail@,
{
    joined(joined(head, decimal_text(pid as u64).as_str()).as_str(), tail)
}

/// Begins to stop the recorded daemon.
pub fn stop_background_server(status: Option<DaemonStatus>) -> (begun: (StopStage, StopAction))
    ensures
        match status {
            None => begun == (StopStage::Finished, StopAction::Finish(Ok(false))),
            Some(record) => begun == (
                StopStage::Verifying(record.pid),
                StopAction::Verify(record),
            ),
        },
{
    match status {
        None => (StopStage::Finished, StopAction::Finish(Ok(false))),
        Some(record) => (StopStage::Verifying(record.pid), StopAction::Verify(record)),
    }
}

/// Whether a stage and an action follow from a stage and what the last step came to. An
/// event that the stage did not ask for ends stopping with a failure.
pub open spec fn stop_follows(
    stage: StopStage,
    event: StopEvent,
    next: StopStage,
    action: StopAction,
) -> bool {
    match (stage, event) {
        (StopStage::Verifying(pid), StopEvent::Answer(matches)) => if matches {
            next == StopStage::Signalling(pid) && action == StopAction::SignalTerm(pid)
        } else {
            next == StopStage::CheckingUnverified(pid) && action == StopAction::CheckAlive(pid)
        },
        (StopStage::CheckingUnverified(pid), StopEvent::Answer(alive)) => if alive {
            next == StopStage::Finished && stops_with(action, unverified_text(pid))
        } else {
            next == StopStage::Clearing && action == StopAction::ClearStatusAndSocket
        },
        (StopStage::Signalling(pid), StopEvent::Signalled(Ok(_))) => {
            next == StopStage::Waiting(pid) && action == StopAction::WaitForExit(pid)
        },
        (StopStage::Signalling(pid), StopEvent::Signalled(Err(error))) => {
            next == StopStage::CheckingUnsignalled(pid, error) && action == StopAction::CheckAlive(
                pid,
            )
        },
        (StopStage::Waiting(pid), StopEvent::Answer(exited)) => if exited {
            next == StopStage::Clearing && action == StopAction::ClearStatusAndSocket
        } else {
            next == StopStage::Finished && stops_with(action, survivor_text(pid))
        },
        (StopStage::CheckingUnsignalled(pid, error), StopEvent::Answer(alive)) => if alive {
            next == StopStage::Finished && stops_with(action, unsignalled_text(pid, error@))
        } else {
            next == StopStage::Clearing && action == StopAction::ClearStatusAndSocket
        },
        (StopStage::Clearing, StopEvent::Cleared(Ok(_))) => {
            next == StopStage::Finished && action == StopAction::Finish(Ok(true))
        },
        (StopStage::Clearing, StopEvent::Cleared(Err(fault))) => {
            next == StopStage::Finished && action == StopAction::Finish(Err(fault))
        },
        _ => next == StopStage::Finished && stops_with(
            action,
            "unexpected answer while stopping the Coven daemon"@,
        ),
    }
}

fn stop_failed(text: String) -> (ended: (StopStage, StopAction))
    ensures
        ended.0 == StopStage::Finished,
        stops_with(ended.1, text@),
{
    (StopStage::Finished, StopAction::Finish(Err(Fault::plain(text.as_str()))))
}

/// Takes up what the last step of stopping came to.
pub fn stop_step(stage: StopStage, event: StopEvent) -> (next: (StopStage, StopAction))
    ensures
        stop_follows(stage, event, next.0, next.1),
{
    match (stage, event) {
        (StopStage::Verifying(pid), StopEvent::Answer(matches)) => if matches {
            (StopStage::Signalling(pid), StopAction::SignalTerm(pid))
        } else {
            (StopStage::CheckingUnverified(pid), StopAction::CheckAlive(pid))
        },
        (StopStage::CheckingUnverified(pid), StopEvent::Answer(alive)) => if alive {
            stop_failed(
                pid_message(
                    "Coven daemon pid ",
                    pid,
                    " could not be verified through its socket; not signaling or clearing daemon status",
                ),
            )
        } else {
            (StopStage::Clearing, StopAction::ClearStatusAndSocket)
        },
        (StopStage::Signalling(pid), StopEvent::Signalled(Ok(()))) => {
            (StopStage::Waiting(pid), StopAction::WaitForExit(pid))
        },
        (StopStage::Signalling(pid), StopEvent::Signalled(Err(error))) => {
            (StopStage::CheckingUnsignalled(pid, error), StopAction::CheckAlive(pid))
        },
        (StopStage::Waiting(pid), StopEvent::Answer(exited)) => if exited {
            (StopStage::Clearing, StopAction::ClearStatusAndSocket)
        } else {
            stop_failed(
                pid_message(
                    "Coven daemon pid ",
                    pid,
                    " did not exit after SIGTERM; not clearing daemon status",
                ),
            )
        },
        (StopStage::CheckingUnsignalled(pid, error), StopEvent::Answer(alive)) => if alive {
            stop_failed(
                joined(
                    pid_message(
                        "failed to stop Coven daemon pid ",
                        pid,
                        "; not clearing daemon status: ",
                    ).as_str(),
                    error.as_str(),
                ),
            )
        } else {
            (StopStage::Clearing, StopAction::ClearStatusAndSocket)
        },
        (StopStage::Clearing, StopEvent::Cleared(Ok(()))) => {
            (StopStage::Finished, StopAction::Finish(Ok(true)))
        },
        (StopStage::Clearing, StopEvent::Cleared(Err(fault))) => {
            (StopStage::Finished, StopAction::Finish(Err(fault)))
        },
        _ => stop_failed("unexpected answer while stopping the Coven daemon".to_owned()),
    }
}

/// A process is signalled only once the daemon has been verified through its socket, and
/// the daemon's record is taken away only once its process is known to be gone: it was not
/// alive, or it exited.
pub proof fn stopping_is_careful(
    stage: StopStage,
    event: StopEvent,
    next: StopStage,
    action: StopAction,
)
    requires
        stop_follows(stage, event, next, action),
    ensures
        action matches StopAction::SignalTerm(pid) ==> stage == StopStage::Verifying(pid) && event
            == StopEvent::Answer(true),
        action is ClearStatusAndSocket ==> {
            ||| stage is CheckingUnverified && event == StopEvent::Answer(false)
            ||| stage is CheckingUnsignalled && event == StopEvent::Answer(false)
            ||| stage is Waiting && event == StopEvent::Answer(true)
        },
{
}

/// What comes next in finding out whether the daemon runs.
#[derive(Debug)]
pub enum StatusAction {
    /// Ask the recorded socket whether the recorded daemon answers on it.
    Verify(DaemonStatus),
    /// Ask whether the process is alive.
    CheckAlive(u32),
    /// Ask the socket in the home which daemon answers on it.
    QueryDefaultSocket,
    /// Record this daemon.
    WriteStatus(DaemonStatus),
    /// Take the daemon's record away.
    ClearStatus,
    /// Take the daemon's record and its socket away.
    ClearStatusAndSocket,
    /// Nothing more: this is the outcome.
    Finish(Result<Option<DaemonStatusState>, Fault>),
}

/// How far finding out has come. The flag tells whether a record of a dead daemon was
/// there, which is then taken away.
#[derive(Debug)]
pub enum StatusStage {
    QueryingForCorrupt,
    WritingForCorrupt(DaemonStatus),
    ClearingCorrupt,
    Verifying(DaemonStatus),
    CheckingAlive(DaemonStatus),
    Querying(bool),
    VerifyingFound(DaemonStatus, bool),
    WritingFound(DaemonStatus),
    CheckingFound(DaemonStatus, bool),
    Clearing,
    Finished,
}

/// What reading the daemon's record came to.
#[derive(Debug)]
pub enum StatusRead {
    Found(DaemonStatus),
    Absent,
    /// The record is there and is not one.
    Corrupt,
    Failed(Fault),
}

/// What a step of finding out came to.
#[derive(Debug)]
pub enum StatusEvent {
    Answer(bool),
    Queried(Result<Option<DaemonStatus>, Fault>),
    Done(Result<(), Fault>),
}

/// The first stage, given what reading the record came to.
pub open spec fn status_begun(read: StatusRead) -> (StatusStage, StatusAction) {
    match read {
        StatusRead::Found(record) => (
            StatusStage::Verifying(record),
            StatusAction::Verify(record),
        ),
        StatusRead::Absent => (StatusStage::Querying(false), StatusAction::QueryDefaultSocket),
        StatusRead::Corrupt => (
            StatusStage::QueryingForCorrupt,
            StatusAction::QueryDefaultSocket,
        ),
        StatusRead::Failed(fault) => (
            StatusStage::Finished,
            StatusAction::Finish(Err(fault)),
        ),
    }
}

/// What follows where no daemon answers on the socket in the home.
pub open spec fn status_nobody(had_record: bool) -> (StatusStage, StatusAction) {
    if had_record {
        (StatusStage::Clearing, StatusAction::ClearStatusAndSocket)
    } else {
        (StatusStage::Finished, StatusAction::Finish(Ok(None)))
    }
}

/// The stage after a step, and what comes next; `None` for an event that the stage did not
/// ask for.
pub open spec fn status_next(stage: StatusStage, event: StatusEvent) -> Option<
    (StatusStage, StatusAction),
> {
    match (stage, event) {
        (StatusStage::QueryingForCorrupt, StatusEvent::Queried(Ok(Some(found)))) => Some(
            (StatusStage::WritingForCorrupt(found), StatusAction::WriteStatus(found)),
        ),
        (StatusStage::QueryingForCorrupt, StatusEvent::Queried(_)) => Some(
            (StatusStage::ClearingCorrupt, StatusAction::ClearStatus),
        ),
        (StatusStage::WritingForCorrupt(found), StatusEvent::Done(Ok(_))) => Some(
            (
                StatusStage::Finished,
                StatusAction::Finish(Ok(Some(DaemonStatusState::Running(found)))),
            ),
        ),
        (StatusStage::ClearingCorrupt, StatusEvent::Done(Ok(_))) => Some(
            (StatusStage::Finished, StatusAction::Finish(Ok(None))),
        ),
        (StatusStage::Verifying(record), StatusEvent::Answer(matches)) => if matches {
            Some(
                (
                    StatusStage::Finished,
                    StatusAction::Finish(Ok(Some(DaemonStatusState::Running(record)))),
                ),
            )
        } else {
            Some((StatusStage::CheckingAlive(record), StatusAction::CheckAlive(record.pid)))
        },
        (StatusStage::CheckingAlive(record), StatusEvent::Answer(alive)) => if alive {
            Some(
                (
                    StatusStage::Finished,
                    StatusAction::Finish(Ok(Some(DaemonStatusState::Stale(record)))),
                ),
            )
        } else {
            Some((StatusStage::Querying(true), StatusAction::QueryDefaultSocket))
        },
        (StatusStage::Querying(had), StatusEvent::Queried(Ok(Some(found)))) => Some(
            (StatusStage::VerifyingFound(found, had), StatusAction::Verify(found)),
        ),
        (StatusStage::Querying(had), StatusEvent::Queried(Ok(None))) => Some(status_nobody(had)),
        (StatusStage::Querying(_), StatusEvent::Queried(Err(fault))) => Some(
            (StatusStage::Finished, StatusAction::Finish(Err(fault))),
        ),
        (StatusStage::VerifyingFound(found, had), StatusEvent::Answer(matches)) => if matches {
            Some((StatusStage::WritingFound(found), StatusAction::WriteStatus(found)))
        } else {
            Some((StatusStage::CheckingFound(found, had), StatusAction::CheckAlive(found.pid)))
        },
        (StatusStage::WritingFound(found), StatusEvent::Done(Ok(_))) => Some(
            (
                StatusStage::Finished,
                StatusAction::Finish(Ok(Some(DaemonStatusState::Running(found)))),
            ),
        ),
        (StatusStage::CheckingFound(found, had), StatusEvent::Answer(alive)) => if alive {
            Some(
                (
                    StatusStage::Finished,
                    StatusAction::Finish(Ok(Some(DaemonStatusState::Stale(found)))),
                ),
            )
        } else {
            Some(status_nobody(had))
        },
        (StatusStage::Clearing, StatusEvent::Done(Ok(_))) => Some(
            (StatusStage::Finished, StatusAction::Finish(Ok(None))),
        ),
        (StatusStage::WritingForCorrupt(_), StatusEvent::Done(Err(fault))) => Some(
            (StatusStage::Finished, StatusAction::Finish(Err(fault))),
        ),
        (StatusStage::ClearingCorrupt, StatusEvent::Done(Err(fault))) => Some(
            (StatusStage::Finished, StatusAction::Finish(Err(fault))),
        ),
        (StatusStage::WritingFound(_), StatusEvent::Done(Err(fault))) => Some(
            (StatusStage::Finished, StatusAction::Finish(Err(fault))),
        ),
        (StatusStage::Clearing, StatusEvent::Done(Err(fault))) => Some(
            (StatusStage::Finished, StatusAction::Finish(Err(fault))),
        ),
        _ => None,
    }
}

/// Begins to find out whether the daemon runs.
pub fn background_server_status(read: StatusRead) -> (begun: (StatusStage, StatusAction))
    ensures
        begun == status_begun(read),
{
    match read {
        StatusRead::Found(record) => {
            let copy = record.copy();
            (StatusStage::Verifying(record), StatusAction::Verify(copy))
        },
        StatusRead::Absent => (StatusStage::Querying(false), StatusAction::QueryDefaultSocket),
        StatusRead::Corrupt => (
            StatusStage::QueryingForCorrupt,
            StatusAction::QueryDefaultSocket,
        ),
        StatusRead::Failed(fault) => (
            StatusStage::Finished,
            StatusAction::Finish(Err(fault)),
        ),
    }
}

fn nobody_answers(had_record: bool) -> (next: (StatusStage, StatusAction))
    ensures
        next == status_nobody(had_record),
{
    if had_record {
        (StatusStage::Clearing, StatusAction::ClearStatusAndSocket)
    } else {
        (StatusStage::Finished, StatusAction::Finish(Ok(None)))
    }
}

fn status_failed(fault: Fault) -> (next: (StatusStage, StatusAction))
    ensures
        next == (StatusStage::Finished, StatusAction::Finish(Err(fault))),
{
    (StatusStage::Finished, StatusAction::Finish(Err(fault)))
}

fn status_running(found: DaemonStatus) -> (next: (StatusStage, StatusAction))
    ensures
        next == (
            StatusStage::Finished,
            StatusAction::Finish(Ok(Some(DaemonStatusState::Running(found)))),
        ),
{
    (
        StatusStage::Finished,
        StatusAction::Finish(Ok(Some(DaemonStatusState::Running(found)))),
    )
}

fn status_stale(found: DaemonStatus) -> (next: (StatusStage, StatusAction))
    ensures
        next == (
            StatusStage::Finished,
            StatusAction::Finish(Ok(Some(DaemonStatusState::Stale(found)))),
        ),
{
    (
        StatusStage::Finished,
        StatusAction::Finish(Ok(Some(DaemonStatusState::Stale(found)))),
    )
}

/// Takes up what the last step of finding out came to.
pub fn status_step(stage: StatusStage, event: StatusEvent) -> (next: Option<
    (StatusStage, StatusAction),
>)
    ensures
        next == status_next(stage, event),
{
    match (stage, event) {
        (StatusStage::QueryingForCorrupt, StatusEvent::Queried(Ok(Some(found)))) => {
            let copy = found.copy();
            Some((StatusStage::WritingForCorrupt(found), StatusAction::WriteStatus(copy)))
        },
        (StatusStage::QueryingForCorrupt, StatusEvent::Queried(_)) => Some(
            (StatusStage::ClearingCorrupt, StatusAction::ClearStatus),
        ),
        (StatusStage::WritingForCorrupt(found), StatusEvent::Done(Ok(()))) => Some(
            status_running(found),
        ),
        (StatusStage::ClearingCorrupt, StatusEvent::Done(Ok(()))) => Some(
            (StatusStage::Finished, StatusAction::Finish(Ok(None))),
        ),
        (StatusStage::Verifying(record), StatusEvent::Answer(matches)) => if matches {
            Some(status_running(record))
        } else {
            let pid = record.pid;
            Some((StatusStage::CheckingAlive(record), StatusAction::CheckAlive(pid)))
        },
        (StatusStage::CheckingAlive(record), StatusEvent::Answer(alive)) => if alive {
            Some(status_stale(record))
        } else {
            Some((StatusStage::Querying(true), StatusAction::QueryDefaultSocket))
        },
        (StatusStage::Querying(had), StatusEvent::Queried(Ok(Some(found)))) => {
            let copy = found.copy();
            Some((StatusStage::VerifyingFound(found, had), StatusAction::Verify(copy)))
        },
        (StatusStage::Querying(had), StatusEvent::Queried(Ok(None))) => Some(nobody_answers(had)),
        (StatusStage::Querying(_), StatusEvent::Queried(Err(fault))) => Some(
            status_failed(fault),
        ),
        (StatusStage::VerifyingFound(found, had), StatusEvent::Answer(matches)) => if matches {
            let copy = found.copy();
            Some((StatusStage::WritingFound(found), StatusAction::WriteStatus(copy)))
        } else {
            let pid = found.pid;
            Some((StatusStage::CheckingFound(found, had), StatusAction::CheckAlive(pid)))
        },
        (StatusStage::WritingFound(found), StatusEvent::Done(Ok(()))) => Some(
            status_running(found),
        ),
        (StatusStage::CheckingFound(found, had), StatusEvent::Answer(alive)) => if alive {
            Some(status_stale(found))
        } else {
            Some(nobody_answers(had))
        },
        (StatusStage::Clearing, StatusEvent::Done(Ok(()))) => Some(
            (StatusStage::Finished, StatusAction::Finish(Ok(None))),
        ),
        (StatusStage::WritingForCorrupt(_), StatusEvent::Done(Err(fault))) => Some(
            status_failed(fault),
        ),
        (StatusStage::ClearingCorrupt, StatusEvent::Done(Err(fault))) => Some(
            status_failed(fault),
        ),
        (StatusStage::WritingFound(_), StatusEvent::Done(Err(fault))) => Some(
            status_failed(fault),
        ),
        (StatusStage::Clearing, StatusEvent::Done(Err(fault))) => Some(status_failed(fault)),
        _ => None,
    }
}

/// A daemon is reported as running only once it has been verified or has been asked for a
/// corrupt record, and a record is taken away only where no process stands behind it.
pub proof fn status_is_careful(stage: StatusStage, event: StatusEvent)
    requires
        status_next(stage, event) is Some,
    ensures
        ({
            let (next, action) = status_next(stage, event)->0;
            &&& action matches StatusAction::Finish(Ok(Some(DaemonStatusState::Running(found))))
                ==> {
                ||| stage == StatusStage::Verifying(found) && event == StatusEvent::Answer(true)
                ||| stage == StatusStage::WritingFound(found)
                ||| stage == StatusStage::WritingForCorrupt(found)
            }
            &&& next matches StatusStage::WritingFound(found) ==> (
            stage matches StatusStage::VerifyingFound(asked, _) && asked == found && event
                == StatusEvent::Answer(true))
            &&& action is ClearStatusAndSocket ==> {
                ||| stage == StatusStage::Querying(true) && event == StatusEvent::Queried(Ok(None))
                ||| (stage matches StatusStage::CheckingFound(_, had) && had && event
                    == StatusEvent::Answer(false))
            }
        }),
{
}

/// What is said of a daemon that is recorded and does not answer.
pub open spec fn unreachable_text(pid: u32) -> Seq<char> {
    "Coven daemon pid "@ + decimal(pid as nat)
        + " is recorded but unreachable; run `coven daemon restart`"@
}

/// What is said of a daemon that was started and does not answer.
pub open spec fn not_ready_text(pid: u32) -> Seq<char> {
    "started Coven daemon pid "@ + decimal(pid as nat)
        + " but its socket did not become ready"@
}

/// What comes next in making sure that a daemon runs.
#[derive(Debug)]
pub enum EnsureAction {
    /// Start one.
    Start,
    /// One runs.
    Use(DaemonStatus),
    /// One is in the way.
    Fail(Fault),
}

/// Decides, given whether a daemon runs.
pub fn ensure_background_server(state: Result<Option<DaemonStatusState>, Fault>) -> (action:
    EnsureAction)
    ensures
        match state {
            Ok(None) => action == EnsureAction::Start,
            Ok(Some(DaemonStatusState::Running(status))) => action == EnsureAction::Use(status),
            Ok(Some(DaemonStatusState::Stale(status))) => action matches EnsureAction::Fail(fault)
                && fault@ == plain(unreachable_text(status.pid)),
            Err(error) => action == EnsureAction::Fail(error),
        },
{
    match state {
        Ok(None) => EnsureAction::Start,
        Ok(Some(DaemonStatusState::Running(status))) => EnsureAction::Use(status),
        Ok(Some(DaemonStatusState::Stale(status))) => EnsureAction::Fail(
            Fault::plain(
                pid_message(
                    "Coven daemon pid ",
                    status.pid,
                    " is recorded but unreachable; run `coven daemon restart`",
                ).as_str(),
            ),
        ),
        Err(error) => EnsureAction::Fail(error),
    }
}

/// The outcome of a start, given whether the daemon answered in time.
pub fn started_server(started: Result<DaemonStatus, Fault>, answered: bool) -> (outcome: Result<
    DaemonStatus,
    Fault,
>)
    ensures
        match started {
            Err(fault) => outcome == Err::<DaemonStatus, Fault>(fault),
            Ok(status) => if answered {
                outcome == Ok::<DaemonStatus, Fault>(status)
            } else {
                outcome matches Err(fault) && fault@ == plain(not_ready_text(status.pid))
            },
        },
{
    match started {
        Err(fault) => Err(fault),
        Ok(status) => if answered {
            Ok(status)
        } else {
            Err(
                Fault::plain(
                    pid_message(
                        "started Coven daemon pid ",
                        status.pid,
                        " but its socket did not become ready",
                    ).as_str(),
                ),
            )
        },
    }
}

/// The outcome of a restart: a stop that fails is the failure of the restart, and nothing
/// is started then.
pub fn restart_background_server(
    stopped: Result<bool, Fault>,
    started: Result<DaemonStatus, Fault>,
    answered: bool,
) -> (outcome: Result<(bool, DaemonStatus), Fault>)
    ensures
        match stopped {
            Err(fault) => outcome == Err::<(bool, DaemonStatus), Fault>(fault),
            Ok(was_running) => match started {
                Err(fault) => outcome == Err::<(bool, DaemonStatus), Fault>(fault),
                Ok(status) => if answered {
                    outcome == Ok::<(bool, DaemonStatus), Fault>((was_running, status))
                } else {
                    outcome matches Err(fault) && fault@ == plain(not_ready_text(status.pid))
                },
            },
        },
{
    match stopped {
        Err(fault) => Err(fault),
        Ok(was_running) => match started_server(started, answered) {
            Ok(status) => Ok((was_running, status)),
            Err(fault) => Err(fault),
        },
    }
}

/// What a daemon's health answer says: whether it is well, and which daemon it is.
#[derive(Debug)]
pub struct DaemonHealthStatus {
    pub ok: bool,
    pub daemon: Option<DaemonStatus>,
}

/// The daemon that a health answer names, where it is well.
pub fn healthy_daemon(health: DaemonHealthStatus) -> (daemon: Option<DaemonStatus>)
    ensures
        daemon == if health.ok {
            health.daemon
        } else {
            None
        },
{
    if health.ok {
        health.daemon
    } else {
        None
    }
}

/// The body of a response that was read to its end; `None` where its head does not end.
pub fn response_body(response: &str) -> (body: Option<String>)
    ensures
        match body {
            Some(text) => crate::text::parted(response@, "\r\n\r\n"@) matches Some((_, tail))
                && text@ == tail,
            None => crate::text::parted(response@, "\r\n\r\n"@) is None,
        },
{
    match crate::text::part_text(response, "\r\n\r\n") {
        Some((_, tail)) => Some(tail),
        None => None,
    }
}

/// Whether the daemon that answered is the expected one.
pub fn health_reports_pid(answered: &Option<DaemonStatus>, expected_pid: u32) -> (yes: bool)
    ensures
        yes == (answered matches Some(status) && status.pid == expected_pid),
{
    match answered {
        Some(status) => status.pid == expected_pid,
        None => false,
    }
}

/// A connection that was refused: how, and in which words.
#[derive(Debug)]
pub struct ConnectFailure {
    pub kind: IoFaultKind,
    pub text: String,
}

/// Whether someone listens on the daemon's socket, given whom the socket belongs to, where
/// that could be found out, and what connecting to it came to. A socket of someone else is
/// not connected to.
pub fn daemon_transport_is_occupied(
    socket: &str,
    owner: Option<u32>,
    euid: u32,
    connected: Result<(), ConnectFailure>,
) -> (occupied: Result<bool, Fault>)
    ensures
        ({
            let foreign = owner matches Some(uid) && uid != euid;
            match occupied {
                Ok(yes) => !foreign && match connected {
                    Ok(_) => yes,
                    Err(failure) => !yes && nobody_listens(failure.kind),
                },
                Err(fault) => if foreign {
                    fault@ == plain(foreign_owner_text(socket@, owner->0, euid))
                } else {
                    connected matches Err(failure) && !nobody_listens(failure.kind) && fault@
                        == caused(
                        "failed to determine whether daemon socket "@ + socket@ + " is occupied"@,
                        failure.text@,
                    )
                },
            }
        }),
{
    if let Some(uid) = owner {
        if let Err(fault) = check_owned_by_current_user(socket, uid, euid) {
            return Err(fault);
        }
    }
    match connected {
        Ok(()) => Ok(true),
        Err(failure) => if refused_means_free(failure.kind) {
            Ok(false)
        } else {
            Err(
                Fault::caused(
                    joined(
                        joined("failed to determine whether daemon socket ", socket).as_str(),
                        " is occupied",
                    ).as_str(),
                    failure.text.as_str(),
                ),
            )
        },
    }
}

/// Which daemon answers on a socket, given whom the socket belongs to, what connecting to it
/// and asking on it came to, and what the body of the answer says. An answer without a body,
/// and one that is not well, name nobody.
pub fn daemon_status_from_health_socket(
    socket: &str,
    owner: Option<u32>,
    euid: u32,
    connected: Result<(), ConnectFailure>,
    response: Result<String, Fault>,
    health: Result<DaemonHealthStatus, String>,
) -> (daemon: Result<Option<DaemonStatus>, Fault>)
    ensures
        ({
            let foreign = owner matches Some(uid) && uid != euid;
            if foreign {
                daemon matches Err(fault) && fault@ == plain(
                    foreign_owner_text(socket@, owner->0, euid),
                )
            } else {
                match connected {
                    Err(failure) => if nobody_listens(failure.kind) {
                        daemon == Ok::<Option<DaemonStatus>, Fault>(None)
                    } else {
                        daemon matches Err(fault) && fault@ == caused(
                            "failed to connect to Coven daemon socket "@ + socket@,
                            failure.text@,
                        )
                    },
                    Ok(_) => match response {
                        Err(fault) => daemon == Err::<Option<DaemonStatus>, Fault>(fault),
                        Ok(text) => if crate::text::parted(text@, "\r\n\r\n"@) is None {
                            daemon == Ok::<Option<DaemonStatus>, Fault>(None)
                        } else {
                            match health {
                                Err(error) => daemon matches Err(fault) && fault@ == caused(
                                    "failed to parse Coven health response"@,
                                    error@,
                                ),
                                Ok(health) => daemon == Ok::<Option<DaemonStatus>, Fault>(
                                    if health.ok {
                                        health.daemon
                                    } else {
                                        None
                                    },
                                ),
                            }
                        },
                    },
                }
            }
        }),
{
    if let Some(uid) = owner {
        if let Err(fault) = check_owned_by_current_user(socket, uid, euid) {
            return Err(fault);
        }
    }
    if let Err(failure) = connected {
        return if refused_means_free(failure.kind) {
            Ok(None)
        } else {
            Err(
                Fault::caused(
                    joined("failed to connect to Coven daemon socket ", socket).as_str(),
                    failure.text.as_str(),
                ),
            )
        };
    }
    let text = match response {
        Err(fault) => {
            return Err(fault);
        },
        Ok(text) => text,
    };
    if response_body(text.as_str()).is_none() {
        return Ok(None);
    }
    match health {
        Err(error) => Err(
            Fault::caused("failed to parse Coven health response", error.as_str()),
        ),
        Ok(health) => Ok(healthy_daemon(health)),
    }
}

/// Whether a command line holds the two words that serve a daemon, next to each other.
pub open spec fn serves_daemon(words: Seq<Seq<char>>) -> bool {
    exists|i: int|
        0 <= i < words.len() - 1 && #[trigger] words[i] == "daemon"@ && words[i + 1] == "serve"@
}

/// Whether a command line serves a daemon.
pub fn process_is_coven_daemon_serve(words: &[String]) -> (yes: bool)
    ensures
        yes == serves_daemon(views(words@)),
{
    let mut i: usize = 0;
    while i < words.len() && words.len() - i >= 2
        invariant
            i <= words@.len(),
            forall|k: int|
                0 <= k < i && k < words@.len() - 1 ==> !(#[trigger] views(words@)[k] == "daemon"@
                    && views(words@)[k + 1] == "serve"@),
        decreases words@.len() - i,
    {
        assert(views(words@)[i as int] == words@[i as int]@);
        assert(views(words@)[i as int + 1] == words@[i as int + 1]@);
        if same_text(words[i].as_str(), "daemon") && same_text(words[i + 1].as_str(), "serve") {
            return true;
        }
        i += 1;
    }
    assert(views(words@).len() == words@.len());
    false
}

/// Whether an environment names a home.
pub open spec fn names_home(environ: Seq<Seq<char>>, coven_home: Seq<char>) -> bool {
    environ.contains("COVEN_HOME="@ + coven_home)
}

/// Whether an environment names a home.
pub fn process_coven_home_matches(environ: &[String], coven_home: &str) -> (yes: bool)
    ensures
        yes == names_home(views(environ@), coven_home@),
{
    crate::text::list_holds(environ, joined("COVEN_HOME=", coven_home).as_str())
}

/// Whether a process is a daemon of a home that is not the one that answers: another
/// process, not a thread, that serves a daemon for that home.
pub fn process_is_unreachable_duplicate_daemon_candidate(
    pid: u32,
    active_pid: u32,
    is_thread: bool,
    words: &[String],
    environ: &[String],
    coven_home: &str,
) -> (yes: bool)
    ensures
        yes == (pid != active_pid && !is_thread && serves_daemon(views(words@)) && names_home(
            views(environ@),
            coven_home@,
        )),
{
    pid != active_pid && !is_thread && process_is_coven_daemon_serve(words)
        && process_coven_home_matches(environ, coven_home)
}

/// What the recovery log says of a duplicate daemon.
pub fn duplicate_daemon_notice(terminated: bool, pid: u32, active_pid: u32) -> (text: String)
    ensures
        text@ == (if terminated {
            "terminated"@
        } else {
            "failed to terminate"@
        }) + " unreachable duplicate daemon pid="@ + decimal(pid as nat) + " active_pid="@
            + decimal(active_pid as nat),
{
    let mut text: String = if terminated {
        "terminated".to_owned()
    } else {
        "failed to terminate".to_owned()
    };
    text.append(" unreachable duplicate daemon pid=");
    text.append(decimal_text(pid as u64).as_str());
    text.append(" active_pid=");
    text.append(decimal_text(active_pid as u64).as_str());
    text
}

/// A process as it was listed.
#[derive(Debug)]
pub struct ProcessFacts {
    pub pid: u32,
    pub start_time: u64,
    pub is_thread: bool,
    pub words: Vec<String>,
    pub environ: Vec<String>,
}

/// Whether a process, as it was listed, is a daemon of a home that is not the one that
/// answers.
pub open spec fn is_duplicate(
    process: ProcessFacts,
    active_pid: u32,
    coven_home: Seq<char>,
) -> bool {
    &&& process.pid != active_pid
    &&& !process.is_thread
    &&& serves_daemon(views(process.words@))
    &&& names_home(views(process.environ@), coven_home)
}

/// The places of the daemons of a home that are not the one that answers, among all
/// processes and in their order. Each is looked at once more before it is terminated.
pub fn cleanup_unreachable_duplicate_daemons(
    processes: &Vec<ProcessFacts>,
    active_pid: u32,
    coven_home: &str,
) -> (places: Vec<usize>)
    ensures
        forall|i: int|
            0 <= i < places@.len() ==> (#[trigger] places@[i]) < processes@.len()
                && is_duplicate(processes@[places@[i] as int], active_pid, coven_home@),
        forall|k: usize|
            k < processes@.len() && is_duplicate(
                #[trigger] processes@[k as int],
                active_pid,
                coven_home@,
            ) ==> places@.contains(k),
        forall|i: int, j: int|
            0 <= i < j < places@.len() ==> #[trigger] places@[i] < #[trigger] places@[j],
{
    let mut places: Vec<usize> = Vec::new();
    let mut at: usize = 0;
    while at < processes.len()
        invariant
            at <= processes@.len(),
            forall|i: int|
                0 <= i < places@.len() ==> (#[trigger] places@[i]) < at && is_duplicate(
                    processes@[places@[i] as int],
                    active_pid,
                    coven_home@,
                ),
            forall|k: usize|
                k < at && is_duplicate(#[trigger] processes@[k as int], active_pid, coven_home@)
                    ==> places@.contains(k),
            forall|i: int, j: int|
                0 <= i < j < places@.len() ==> #[trigger] places@[i] < #[trigger] places@[j],
        decreases processes@.len() - at,
    {
        let process = &processes[at];
        let ghost before = places@;
        if process_is_unreachable_duplicate_daemon_candidate(
            process.pid,
            active_pid,
            process.is_thread,
            process.words.as_slice(),
            process.environ.as_slice(),
            coven_home,
        ) {
            places.push(at);
            proof {
                assert(places@[before.len() as int] == at);
                assert forall|k: usize|
                    k < at + 1 && is_duplicate(
                        #[trigger] processes@[k as int],
                        active_pid,
                        coven_home@,
                    ) implies places@.contains(k) by {
                    if k < at {
                        assert(before.contains(k));
                        let i = choose|i: int| 0 <= i < before.len() && before[i] == k;
                        assert(places@[i] == k);
                    }
                }
            }
        }
        at += 1;
    }
    places
}

/// Whether two lists of texts are the same.
pub fn same_list(left: &[String], right: &[String]) -> (same: bool)
    ensures
        same == (views(left@) == views(right@)),
{
    if left.len() != right.len() {
        assert(views(left@).len() != views(right@).len());
        return false;
    }
    let mut i: usize = 0;
    while i < left.len()
        invariant
            i <= left@.len() == right@.len(),
            forall|k: int| 0 <= k < i ==> views(left@)[k] == #[trigger] views(right@)[k],
        decreases left@.len() - i,
    {
        assert(views(left@)[i as int] == left@[i as int]@);
        assert(views(right@)[i as int] == right@[i as int]@);
        if !same_text(left[i].as_str(), right[i].as_str()) {
            return false;
        }
        i += 1;
    }
    assert(views(left@) =~= views(right@));
    true
}

/// Whether a process that was found to be a duplicate daemon still is, when it is looked at
/// again before it is terminated: the same process, with the same command line.
pub fn still_a_duplicate(
    found: &ProcessFacts,
    now: &ProcessFacts,
    active_pid: u32,
    coven_home: &str,
) -> (yes: bool)
    ensures
        yes == (found.start_time == now.start_time && views(found.words@) == views(now.words@)
            && found.pid != active_pid && !now.is_thread && serves_daemon(views(now.words@))
            && names_home(views(now.environ@), coven_home@)),
{
    found.start_time == now.start_time && same_list(
        found.words.as_slice(),
        now.words.as_slice(),
    ) && process_is_unreachable_duplicate_daemon_candidate(
        found.pid,
        active_pid,
        now.is_thread,
        now.words.as_slice(),
        now.environ.as_slice(),
        coven_home,
    )
}

/// Whether a daemon that ends takes its record and its socket away: only where the record
/// is its own.
pub fn shutdown_removes_files(recorded_pid: Option<u32>, own_pid: u32) -> (yes: bool)
    ensures
        yes == (recorded_pid == Some(own_pid)),
{
    match recorded_pid {
        Some(pid) => pid == own_pid,
        None => false,
    }
}

/// Whether the daemon's files may be reset: both locks were free, and nothing answers on
/// its transport.
pub fn try_acquire_reset_guard(
    lifecycle_free: bool,
    serve_free: bool,
    transport_occupied: bool,
) -> (granted: bool)
    ensures
        granted == (lifecycle_free && serve_free && !transport_occupied),
{
    lifecycle_free && serve_free && !transport_occupied
}

/// What is said of a daemon names its process: where it could not be verified, did not exit,
/// could not be signalled, does not answer though it is recorded, or though it was started.
pub proof fn daemons_are_named_by_their_process(pid: u32, error: Seq<char>)
    ensures
        unverified_text(pid) == "Coven daemon pid "@ + decimal(pid as nat)
            + " could not be verified through its socket; not signaling or clearing daemon status"@,
        survivor_text(pid) == "Coven daemon pid "@ + decimal(pid as nat)
            + " did not exit after SIGTERM; not clearing daemon status"@,
        unsignalled_text(pid, error) == "failed to stop Coven daemon pid "@ + decimal(pid as nat)
            + "; not clearing daemon status: "@ + error,
        unreachable_text(pid) == "Coven daemon pid "@ + decimal(pid as nat)
            + " is recorded but unreachable; run `coven daemon restart`"@,
        not_ready_text(pid) == "started Coven daemon pid "@ + decimal(pid as nat)
            + " but its socket did not become ready"@,
{
}

/// How stopping goes on: a daemon that was verified is signalled and waited for, and its files
/// are taken away once it has exited; one that was not, or could not be signalled, loses its
/// files only where its process is gone, and else stopping fails and says why.
pub proof fn stopping_goes_step_by_step(
    stage: StopStage,
    event: StopEvent,
    next: StopStage,
    action: StopAction,
    pid: u32,
)
    requires
        stop_follows(stage, event, next, action),
    ensures
        stage == StopStage::Verifying(pid) && event == StopEvent::Answer(true) ==> next
            == StopStage::Signalling(pid) && action == StopAction::SignalTerm(pid),
        stage == StopStage::Verifying(pid) && event == StopEvent::Answer(false) ==> next
            == StopStage::CheckingUnverified(pid) && action == StopAction::CheckAlive(pid),
        stage == StopStage::CheckingUnverified(pid) && event == StopEvent::Answer(true) ==> (
        action matches StopAction::Finish(Err(fault)) && fault@ == plain(unverified_text(pid))),
        stage == StopStage::CheckingUnverified(pid) && event == StopEvent::Answer(false) ==> next
            == StopStage::Clearing && action == StopAction::ClearStatusAndSocket,
        stage == StopStage::Signalling(pid) && event == StopEvent::Signalled(Ok(())) ==> next
            == StopStage::Waiting(pid) && action == StopAction::WaitForExit(pid),
        stage == StopStage::Signalling(pid) ==> (event matches StopEvent::Signalled(Err(error))
            ==> next == StopStage::CheckingUnsignalled(pid, error) && action
            == StopAction::CheckAlive(pid)),
        stage == StopStage::Waiting(pid) && event == StopEvent::Answer(true) ==> next
            == StopStage::Clearing && action == StopAction::ClearStatusAndSocket,
        stage == StopStage::Waiting(pid) && event == StopEvent::Answer(false) ==> (
        action matches StopAction::Finish(Err(fault)) && fault@ == plain(survivor_text(pid))),
        stage matches StopStage::CheckingUnsignalled(asked, error) ==> {
            &&& event == StopEvent::Answer(true) ==> (action matches StopAction::Finish(Err(fault))
                && fault@ == plain(unsignalled_text(asked, error@)))
            &&& event == StopEvent::Answer(false) ==> next == StopStage::Clearing && action
                == StopAction::ClearStatusAndSocket
        },
        stage is Clearing ==> (event matches StopEvent::Cleared(cleared) ==> next
            == StopStage::Finished && action == StopAction::Finish(
            match cleared {
                Ok(_) => Ok(true),
                Err(fault) => Err(fault),
            },
        )),
        stage is Finished ==> (action matches StopAction::Finish(Err(fault)) && fault@ == plain(
            "unexpected answer while stopping the Coven daemon"@,
        )),
{
}

/// How finding out begins: a record is verified, the home's socket is asked where there is
/// none or it is no record, and a failure to read it is told.
pub proof fn finding_out_begins_with_the_record(read: StatusRead)
    ensures
        read matches StatusRead::Found(record) ==> status_begun(read) == (
            StatusStage::Verifying(record),
            StatusAction::Verify(record),
        ),
        read is Absent ==> status_begun(read) == (
            StatusStage::Querying(false),
            StatusAction::QueryDefaultSocket,
        ),
        read is Corrupt ==> status_begun(read) == (
            StatusStage::QueryingForCorrupt,
            StatusAction::QueryDefaultSocket,
        ),
        read matches StatusRead::Failed(fault) ==> status_begun(read) == (
            StatusStage::Finished,
            StatusAction::Finish(Err(fault)),
        ),
{
}

/// How finding out goes on with a record: a daemon that answers runs, one that does not but
/// whose process is alive is stale, and where the process is gone the home's socket is asked.
pub proof fn records_are_verified(record: DaemonStatus)
    ensures
        status_next(StatusStage::Verifying(record), StatusEvent::Answer(true)) == Some(
            (
                StatusStage::Finished,
                StatusAction::Finish(Ok(Some(DaemonStatusState::Running(record)))),
            ),
        ),
        status_next(StatusStage::Verifying(record), StatusEvent::Answer(false)) == Some(
            (StatusStage::CheckingAlive(record), StatusAction::CheckAlive(record.pid)),
        ),
        status_next(StatusStage::CheckingAlive(record), StatusEvent::Answer(true)) == Some(
            (
                StatusStage::Finished,
                StatusAction::Finish(Ok(Some(DaemonStatusState::Stale(record)))),
            ),
        ),
        status_next(StatusStage::CheckingAlive(record), StatusEvent::Answer(false)) == Some(
            (StatusStage::Querying(true), StatusAction::QueryDefaultSocket),
        ),
{
}

/// How finding out goes on with what answers on the home's socket: it is verified, and then
/// recorded and reported as running; where its process is alive but does not answer it is
/// stale; where nobody is there the record of a dead daemon is taken away, if there was one.
pub proof fn found_daemons_are_recorded(found: DaemonStatus, had: bool, fault: Fault)
    ensures
        status_next(
            StatusStage::Querying(had),
            StatusEvent::Queried(Ok(Some(found))),
        ) == Some((StatusStage::VerifyingFound(found, had), StatusAction::Verify(found))),
        status_next(StatusStage::Querying(true), StatusEvent::Queried(Ok(None))) == Some(
            (StatusStage::Clearing, StatusAction::ClearStatusAndSocket),
        ),
        status_next(StatusStage::Querying(false), StatusEvent::Queried(Ok(None))) == Some(
            (StatusStage::Finished, StatusAction::Finish(Ok(None))),
        ),
        status_next(StatusStage::Querying(had), StatusEvent::Queried(Err(fault))) == Some(
            (StatusStage::Finished, StatusAction::Finish(Err(fault))),
        ),
        status_next(StatusStage::VerifyingFound(found, had), StatusEvent::Answer(true)) == Some(
            (StatusStage::WritingFound(found), StatusAction::WriteStatus(found)),
        ),
        status_next(StatusStage::VerifyingFound(found, had), StatusEvent::Answer(false)) == Some(
            (StatusStage::CheckingFound(found, had), StatusAction::CheckAlive(found.pid)),
        ),
        status_next(StatusStage::WritingFound(found), StatusEvent::Done(Ok(()))) == Some(
            (
                StatusStage::Finished,
                StatusAction::Finish(Ok(Some(DaemonStatusState::Running(found)))),
            ),
        ),
        status_next(StatusStage::CheckingFound(found, had), StatusEvent::Answer(true)) == Some(
            (
                StatusStage::Finished,
                StatusAction::Finish(Ok(Some(DaemonStatusState::Stale(found)))),
            ),
        ),
        status_next(StatusStage::CheckingFound(found, true), StatusEvent::Answer(false)) == Some(
            (StatusStage::Clearing, StatusAction::ClearStatusAndSocket),
        ),
        status_next(StatusStage::CheckingFound(found, false), StatusEvent::Answer(false)) == Some(
            (StatusStage::Finished, StatusAction::Finish(Ok(None))),
        ),
        status_next(StatusStage::Clearing, StatusEvent::Done(Ok(()))) == Some(
            (StatusStage::Finished, StatusAction::Finish(Ok(None))),
        ),
        status_next(StatusStage::WritingFound(found), StatusEvent::Done(Err(fault))) == Some(
            (StatusStage::Finished, StatusAction::Finish(Err(fault))),
        ),
        status_next(StatusStage::Clearing, StatusEvent::Done(Err(fault))) == Some(
            (StatusStage::Finished, StatusAction::Finish(Err(fault))),
        ),
{
}

/// How finding out goes on where the record is none: a daemon that answers on the home's
/// socket is recorded in its place and runs; else the record is taken away, and there is none.
pub proof fn corrupt_records_are_replaced(found: DaemonStatus, fault: Fault)
    ensures
        status_next(
            StatusStage::QueryingForCorrupt,
            StatusEvent::Queried(Ok(Some(found))),
        ) == Some((StatusStage::WritingForCorrupt(found), StatusAction::WriteStatus(found))),
        status_next(StatusStage::QueryingForCorrupt, StatusEvent::Queried(Ok(None))) == Some(
            (StatusStage::ClearingCorrupt, StatusAction::ClearStatus),
        ),
        status_next(StatusStage::QueryingForCorrupt, StatusEvent::Queried(Err(fault))) == Some(
            (StatusStage::ClearingCorrupt, StatusAction::ClearStatus),
        ),
        status_next(StatusStage::WritingForCorrupt(found), StatusEvent::Done(Ok(()))) == Some(
            (
                StatusStage::Finished,
                StatusAction::Finish(Ok(Some(DaemonStatusState::Running(found)))),
            ),
        ),
        status_next(StatusStage::ClearingCorrupt, StatusEvent::Done(Ok(()))) == Some(
            (StatusStage::Finished, StatusAction::Finish(Ok(None))),
        ),
        status_next(StatusStage::WritingForCorrupt(found), StatusEvent::Done(Err(fault))) == Some(
            (StatusStage::Finished, StatusAction::Finish(Err(fault))),
        ),
        status_next(StatusStage::ClearingCorrupt, StatusEvent::Done(Err(fault))) == Some(
            (StatusStage::Finished, StatusAction::Finish(Err(fault))),
        ),
{
}

/// A command line serves a daemon if and only if the words `daemon` and `serve` stand in it
/// next to each other, in this order.
pub proof fn daemons_are_known_by_two_words(
    words: Seq<Seq<char>>,
    a: Seq<Seq<char>>,
    b: Seq<Seq<char>>,
)
    ensures
        words == a + seq!["daemon"@, "serve"@] + b ==> serves_daemon(words),
        serves_daemon(words) ==> exists|x: Seq<Seq<char>>, y: Seq<Seq<char>>|
            words == #[trigger] (x.push("daemon"@).push("serve"@) + y),
{
    if words == a + seq!["daemon"@, "serve"@] + b {
        let n = a.len() as int;
        assert(words[n] == "daemon"@);
        assert(words[n + 1] == "serve"@);
    }
    if serves_daemon(words) {
        let i = choose|i: int|
            0 <= i < words.len() - 1 && #[trigger] words[i] == "daemon"@ && words[i + 1]
                == "serve"@;
        let x = words.take(i);
        let y = words.skip(i + 2);
        assert(words =~= x.push("daemon"@).push("serve"@) + y);
    }
}

/// A process is a duplicate daemon of a home if and only if it is not the one that answers,
/// is no thread, serves a daemon, and its environment sets `COVEN_HOME` to that home.
pub proof fn duplicates_serve_the_same_home(
    process: ProcessFacts,
    active_pid: u32,
    coven_home: Seq<char>,
)
    ensures
        is_duplicate(process, active_pid, coven_home) <==> process.pid != active_pid
            && !process.is_thread && serves_daemon(views(process.words@)) && views(
            process.environ@,
        ).contains("COVEN_HOME="@ + coven_home),
{
}

/// A daemon that runs is used, one that is recorded and does not answer is in the way, and
/// where there is none one is started; what could not be found out is told.
pub proof fn daemons_are_used_or_started(
    state: Result<Option<DaemonStatusState>, Fault>,
    action: EnsureAction,
)
    requires
        call_ensures(ensure_background_server, (state,), action),
    ensures
        action is Start <==> state == Ok::<Option<DaemonStatusState>, Fault>(None),
        action matches EnsureAction::Use(status) ==> state == Ok::<
            Option<DaemonStatusState>,
            Fault,
        >(Some(DaemonStatusState::Running(status))),
        state matches Ok(Some(DaemonStatusState::Running(status))) ==> action
            == EnsureAction::Use(status),
        state matches Ok(Some(DaemonStatusState::Stale(status))) ==> (action matches
            EnsureAction::Fail(fault) && fault@ == plain(unreachable_text(status.pid))),
        state matches Err(error) ==> action == EnsureAction::Fail(error),
{
}

/// A daemon counts as started once it answers; a restart starts nothing where the stop failed,
/// and tells whether a daemon ran before.
pub proof fn starts_wait_for_an_answer(
    stopped: Result<bool, Fault>,
    started: Result<DaemonStatus, Fault>,
    answered: bool,
    outcome: Result<DaemonStatus, Fault>,
    restarted: Result<(bool, DaemonStatus), Fault>,
)
    requires
        call_ensures(started_server, (started, answered), outcome),
        call_ensures(restart_background_server, (stopped, started, answered), restarted),
    ensures
        outcome is Ok <==> started is Ok && answered,
        outcome matches Ok(status) ==> started == Ok::<DaemonStatus, Fault>(status),
        started matches Ok(status) ==> (!answered ==> (outcome matches Err(fault) && fault@
            == plain(not_ready_text(status.pid)))),
        started matches Err(fault) ==> outcome == Err::<DaemonStatus, Fault>(fault),
        restarted is Ok <==> stopped is Ok && started is Ok && answered,
        restarted matches Ok(pair) ==> stopped == Ok::<bool, Fault>(pair.0) && started == Ok::<
            DaemonStatus,
            Fault,
        >(pair.1),
        stopped matches Err(fault) ==> restarted == Err::<(bool, DaemonStatus), Fault>(fault),
{
}

/// Stopping begins with the record, and is done where there is none.
pub proof fn stopping_begins_with_the_record(
    status: Option<DaemonStatus>,
    begun: (StopStage, StopAction),
)
    requires
        call_ensures(stop_background_server, (status,), begun),
    ensures
        status is None ==> begun.1 == StopAction::Finish(Ok(false)) && begun.0
            == StopStage::Finished,
        status matches Some(record) ==> begun.0 == StopStage::Verifying(record.pid) && begun.1
            == StopAction::Verify(record),
{
}

/// Only a daemon that is well is named by its answer, and it is the expected one only by its
/// process.
pub proof fn healthy_daemons_name_themselves(
    health: DaemonHealthStatus,
    daemon: Option<DaemonStatus>,
    answered: &Option<DaemonStatus>,
    expected_pid: u32,
    yes: bool,
)
    requires
        call_ensures(healthy_daemon, (health,), daemon),
        call_ensures(health_reports_pid, (answered, expected_pid), yes),
    ensures
        health.ok ==> daemon == health.daemon,
        !health.ok ==> daemon is None,
        answered is None ==> !yes,
        answered matches Some(status) ==> (yes <==> status.pid == expected_pid),
{
}

/// A socket is occupied if and only if it can be connected to; a socket of someone else is not
/// connected to, and a failure that tells nothing is told.
pub proof fn occupied_sockets_answer(
    socket: &str,
    owner: Option<u32>,
    euid: u32,
    connected: Result<(), ConnectFailure>,
    occupied: Result<bool, Fault>,
)
    requires
        call_ensures(daemon_transport_is_occupied, (socket, owner, euid, connected), occupied),
    ensures
        ({
            let own = owner is None || owner == Some(euid);
            &&& occupied == Ok::<bool, Fault>(true) <==> own && connected is Ok
            &&& occupied == Ok::<bool, Fault>(false) <==> own && (connected matches Err(failure)
                && nobody_listens(failure.kind))
            &&& !own ==> (occupied matches Err(fault) && fault@ == plain(
                foreign_owner_text(socket@, owner->0, euid),
            ))
            &&& own ==> (connected matches Err(failure) ==> (!nobody_listens(failure.kind) ==> (
            occupied matches Err(fault) && fault@ == caused(
                "failed to determine whether daemon socket "@ + socket@ + " is occupied"@,
                failure.text@,
            ))))
        }),
{
}

/// The daemon that answers on a socket is the one that its answer names, where the socket is
/// the user's own, someone listens, and the answer is well.
pub proof fn answers_name_the_daemon(
    socket: &str,
    owner: Option<u32>,
    euid: u32,
    connected: Result<(), ConnectFailure>,
    response: Result<String, Fault>,
    health: Result<DaemonHealthStatus, String>,
    daemon: Result<Option<DaemonStatus>, Fault>,
)
    requires
        call_ensures(
            daemon_status_from_health_socket,
            (socket, owner, euid, connected, response, health),
            daemon,
        ),
    ensures
        daemon matches Ok(Some(status)) ==> (owner is None || owner == Some(euid)) && connected
            is Ok && response is Ok && (health matches Ok(told) && told.ok && told.daemon == Some(
            status,
        )),
        owner matches Some(uid) ==> (uid != euid ==> (daemon matches Err(fault) && fault@ == plain(
            foreign_owner_text(socket@, uid, euid),
        ))),
        owner is None || owner == Some(euid) ==> (connected matches Err(failure) ==> if
            nobody_listens(failure.kind) {
            daemon == Ok::<Option<DaemonStatus>, Fault>(None)
        } else {
            daemon matches Err(fault) && fault@ == caused(
                "failed to connect to Coven daemon socket "@ + socket@,
                failure.text@,
            )
        }),
        (owner is None || owner == Some(euid)) && connected is Ok ==> (response matches Ok(text)
            ==> (crate::text::parted(text@, "\r\n\r\n"@) is Some ==> (health matches Ok(told) ==> (
        told.ok ==> daemon == Ok::<Option<DaemonStatus>, Fault>(told.daemon)) && (!told.ok
            ==> daemon == Ok::<Option<DaemonStatus>, Fault>(None))))),
{
}

/// A process is terminated as a duplicate only where, looked at again, it is still the same
/// process with the same command line, and still a duplicate.
pub proof fn duplicates_are_looked_at_again(
    found: &ProcessFacts,
    now: &ProcessFacts,
    active_pid: u32,
    coven_home: &str,
    yes: bool,
)
    requires
        call_ensures(still_a_duplicate, (found, now, active_pid, coven_home), yes),
    ensures
        yes ==> found.start_time == now.start_time && views(found.words@) == views(now.words@)
            && found.pid != active_pid && !now.is_thread && serves_daemon(views(now.words@))
            && names_home(views(now.environ@), coven_home@),
        found.start_time == now.start_time && views(found.words@) == views(now.words@)
            && found.pid == now.pid && is_duplicate(*now, active_pid, coven_home@) ==> yes,
{
}

/// A daemon that ends takes its files away only where they are its own, and they are reset
/// only where both locks are free and nothing answers.
pub proof fn files_of_others_stay(
    recorded_pid: Option<u32>,
    own_pid: u32,
    removes: bool,
    lifecycle_free: bool,
    serve_free: bool,
    occupied: bool,
    granted: bool,
)
    requires
        call_ensures(shutdown_removes_files, (recorded_pid, own_pid), removes),
        call_ensures(try_acquire_reset_guard, (lifecycle_free, serve_free, occupied), granted),
    ensures
        removes <==> recorded_pid == Some(own_pid),
        granted <==> lifecycle_free && serve_free && !occupied,
{
}

/// What is said of a duplicate daemon names it, and the one that answers, and whether it could
/// be terminated.
pub proof fn duplicates_are_named(terminated: bool, pid: u32, active_pid: u32, notice: String)
    requires
        call_ensures(duplicate_daemon_notice, (terminated, pid, active_pid), notice),
    ensures
        terminated ==> notice@ == "terminated"@ + " unreachable duplicate daemon pid="@ + decimal(
            pid as nat,
        ) + " active_pid="@ + decimal(active_pid as nat),
        !terminated ==> notice@ == "failed to terminate"@ + " unreachable duplicate daemon pid="@
            + decimal(pid as nat) + " active_pid="@ + decimal(active_pid as nat),
{
}

} // verus!
