//! Who runs the executor of a home, what it is meant to do, and what it does.

use crate::fault::{caused, optional_view, plain, Fault, FaultView};
use crate::text::same_text;
use vstd::prelude::*;
use vstd::string::*;

verus! {

/// The protocol of what is recorded of the executor.
pub const PROTOCOL_VERSION: &'static str = "coven.executor-local.v1";

/// What the executor is meant to do.
#[derive(Debug, Clone, Copy, PartialEq, Eq, Structural)]
pub enum DesiredState {
    Running,
    Paused,
    Stopped,
}

/// Who runs the executor.
#[derive(Debug, Clone, Copy, PartialEq, Eq, Structural)]
pub enum ExecutorOwner {
    Legacy,
    Desktop,
    Headless,
}

/// What the executor says that it does.
#[derive(Debug, Clone, Copy, PartialEq, Eq, Structural)]
pub enum RuntimeState {
    Starting,
    Idle,
    Claiming,
    Executing,
    Paused,
    Stopping,
}

/// What is observed of the executor.
#[derive(Debug, Clone, Copy, PartialEq, Eq, Structural)]
pub enum ObservationState {
    Starting,
    Idle,
    Claiming,
    Executing,
    Paused,
    Stopping,
    Stopped,
    Stale,
}

/// What is observed of an executor that says what it does.
pub open spec fn observed(state: RuntimeState) -> ObservationState {
    match state {
        RuntimeState::Starting => ObservationState::Starting,
        RuntimeState::Idle => ObservationState::Idle,
        RuntimeState::Claiming => ObservationState::Claiming,
        RuntimeState::Executing => ObservationState::Executing,
        RuntimeState::Paused => ObservationState::Paused,
        RuntimeState::Stopping => ObservationState::Stopping,
    }
}

impl From<RuntimeState> for ObservationState {
    fn from(value: RuntimeState) -> (state: ObservationState) {
        match value {
            RuntimeState::Starting => ObservationState::Starting,
            RuntimeState::Idle => ObservationState::Idle,
            RuntimeState::Claiming => ObservationState::Claiming,
            RuntimeState::Executing => ObservationState::Executing,
            RuntimeState::Paused => ObservationState::Paused,
            RuntimeState::Stopping => ObservationState::Stopping,
        }
    }
}

impl vstd::std_specs::convert::FromSpecImpl<RuntimeState> for ObservationState {
    open spec fn obeys_from_spec() -> bool {
        true
    }

    open spec fn from_spec(value: RuntimeState) -> ObservationState {
        observed(value)
    }
}

/// What is recorded of what the executor is meant to do, and who runs it.
#[derive(Debug)]
pub struct ControlState {
    pub protocol_version: String,
    pub desired_state: DesiredState,
    pub owner: ExecutorOwner,
}

/// What a running executor records of itself.
#[derive(Debug)]
pub struct RuntimeRecord {
    pub protocol_version: String,
    pub pid: u32,
    pub started_at: String,
    pub updated_at: String,
    pub state: RuntimeState,
    pub owner: ExecutorOwner,
}

/// The record of what the executor is meant to do, as it was found.
#[derive(Debug)]
pub enum ControlFile {
    Missing,
    Unreadable(String),
    Invalid(String),
    Found(ControlState),
}

/// What a home holds of its executor: the two records, whether it is set to start by itself,
/// and whether a worker holds the lock.
#[derive(Debug)]
pub struct ExecutorHome {
    pub control: ControlFile,
    pub runtime: Option<RuntimeRecord>,
    pub autostart: bool,
    pub locked: bool,
}

/// What the record of a home says, or what is wrong with it. Where there is none, the
/// executor runs as part of the daemon.
pub open spec fn control_of(control: ControlFile) -> Result<
    (DesiredState, ExecutorOwner),
    FaultView,
> {
    match control {
        ControlFile::Missing => Ok((DesiredState::Running, ExecutorOwner::Legacy)),
        ControlFile::Unreadable(error) => Err(plain(error@)),
        ControlFile::Invalid(error) => Err(caused("invalid executor control state"@, error@)),
        ControlFile::Found(state) => if state.protocol_version@ != PROTOCOL_VERSION@ {
            Err(plain("unsupported executor control protocol"@))
        } else {
            Ok((state.desired_state, state.owner))
        },
    }
}

/// Whether a record says what the executor is meant to do, and who runs it.
pub open spec fn records(
    state: ControlState,
    desired_state: DesiredState,
    owner: ExecutorOwner,
) -> bool {
    &&& state.protocol_version@ == PROTOCOL_VERSION@
    &&& state.desired_state == desired_state
    &&& state.owner == owner
}

/// What the executor of a home is meant to do, and who runs it.
pub fn read_control(home: &ExecutorHome) -> (control: Result<ControlState, Fault>)
    ensures
        match control {
            Ok(state) => control_of(home.control) matches Ok(pair) && records(
                state,
                pair.0,
                pair.1,
            ),
            Err(fault) => control_of(home.control) == Err::<
                (DesiredState, ExecutorOwner),
                FaultView,
            >(fault@),
        },
{
    match &home.control {
        ControlFile::Missing => Ok(
            ControlState {
                protocol_version: PROTOCOL_VERSION.to_owned(),
                desired_state: DesiredState::Running,
                owner: ExecutorOwner::Legacy,
            },
        ),
        ControlFile::Unreadable(error) => Err(Fault::plain(error.as_str())),
        ControlFile::Invalid(error) => Err(
            Fault::caused("invalid executor control state", error.as_str()),
        ),
        ControlFile::Found(state) => {
            if !same_text(state.protocol_version.as_str(), PROTOCOL_VERSION) {
                return Err(Fault::plain("unsupported executor control protocol"));
            }
            Ok(
                ControlState {
                    protocol_version: state.protocol_version.clone(),
                    desired_state: state.desired_state,
                    owner: state.owner,
                },
            )
        },
    }
}

/// Whether the home of an executor says what it is meant to do, and who runs it.
pub open spec fn home_records(
    home: ExecutorHome,
    desired_state: DesiredState,
    owner: ExecutorOwner,
) -> bool {
    home.control matches ControlFile::Found(state) && records(state, desired_state, owner)
}

/// Records what the executor is meant to do, and who runs it where that is to change.
pub fn set_desired(
    home: &mut ExecutorHome,
    desired_state: DesiredState,
    owner: Option<ExecutorOwner>,
) -> (control: Result<ControlState, Fault>)
    ensures
        match control {
            Ok(state) => {
                &&& control_of(old(home).control) is Ok
                &&& records(
                    state,
                    desired_state,
                    match owner {
                        Some(owner) => owner,
                        None => control_of(old(home).control)->Ok_0.1,
                    },
                )
                &&& home_records(*final(home), state.desired_state, state.owner)
                &&& *final(home) == (ExecutorHome { control: final(home).control, ..*old(home) })
            },
            Err(fault) => {
                &&& control_of(old(home).control) == Err::<
                    (DesiredState, ExecutorOwner),
                    FaultView,
                >(fault@)
                &&& *final(home) == *old(home)
            },
        },
{
    let before = match read_control(home) {
        Ok(state) => state,
        Err(fault) => {
            return Err(fault);
        },
    };
    let owner = match owner {
        Some(owner) => owner,
        None => before.owner,
    };
    home.control = ControlFile::Found(
        ControlState { protocol_version: PROTOCOL_VERSION.to_owned(), desired_state, owner },
    );
    Ok(ControlState { protocol_version: PROTOCOL_VERSION.to_owned(), desired_state, owner })
}

/// Whether the executor of a home is run by someone else than the daemon. A record that
/// cannot be read counts as a yes.
pub fn has_managed_owner(home: &ExecutorHome) -> (managed: bool)
    ensures
        managed == (home.autostart || match control_of(home.control) {
            Ok(pair) => pair.1 != ExecutorOwner::Legacy,
            Err(_) => true,
        }),
{
    let by_record = match read_control(home) {
        Ok(state) => state.owner != ExecutorOwner::Legacy,
        Err(_) => true,
    };
    by_record || home.autostart
}

/// The worker of a home: it holds the lock.
#[derive(Debug)]
pub struct WorkerGuard {
    pid: u32,
    owner: ExecutorOwner,
}

impl WorkerGuard {
    /// The process of the worker.
    pub closed spec fn process(&self) -> u32 {
        self.pid
    }

    /// Who runs the worker.
    pub closed spec fn run_by(&self) -> ExecutorOwner {
        self.owner
    }
}

/// Whether a record tells what a worker does.
pub open spec fn tells(
    record: RuntimeRecord,
    pid: u32,
    owner: ExecutorOwner,
    state: RuntimeState,
    started_at: Seq<char>,
    updated_at: Seq<char>,
) -> bool {
    &&& record.protocol_version@ == PROTOCOL_VERSION@
    &&& record.pid == pid
    &&& record.owner == owner
    &&& record.state == state
    &&& record.started_at@ == started_at
    &&& record.updated_at@ == updated_at
}

/// Why a worker cannot be had, given what a failed attempt to take the lock says.
pub open spec fn worker_fault(
    home: ExecutorHome,
    owner: ExecutorOwner,
    lock_error: Seq<char>,
) -> Option<FaultView> {
    if home.locked {
        Some(caused("another fleet executor worker already owns this Coven home"@, lock_error))
    } else {
        match control_of(home.control) {
            Err(fault) => Some(fault),
            Ok(pair) => if owner == ExecutorOwner::Desktop && (home.autostart || pair.1
                == ExecutorOwner::Headless) {
                Some(
                    plain(
                        "headless executor ownership is installed; uninstall autostart before desktop serve"@,
                    ),
                )
            } else {
                None
            },
        }
    }
}

/// What a worker is meant to do when it starts: one of the desktop runs, any other goes on
/// as it was told.
pub open spec fn desired_at_start(before: DesiredState, owner: ExecutorOwner) -> DesiredState {
    if owner == ExecutorOwner::Desktop {
        DesiredState::Running
    } else {
        before
    }
}

/// Becomes the worker of a home. There is one at a time, and none of the desktop beside one
/// that starts by itself.
pub fn acquire_worker(
    home: &mut ExecutorHome,
    owner: ExecutorOwner,
    pid: u32,
    now: &str,
    lock_error: &str,
) -> (guard: Result<WorkerGuard, Fault>)
    ensures
        match guard {
            Ok(guard) => {
                &&& worker_fault(*old(home), owner, lock_error@) is None
                &&& guard.process() == pid
                &&& guard.run_by() == owner
                &&& final(home).locked
                &&& final(home).autostart == old(home).autostart
                &&& home_records(
                    *final(home),
                    desired_at_start(control_of(old(home).control)->Ok_0.0, owner),
                    owner,
                )
                &&& final(home).runtime matches Some(record) && tells(
                    record,
                    pid,
                    owner,
                    RuntimeState::Starting,
                    now@,
                    now@,
                )
            },
            Err(fault) => {
                &&& worker_fault(*old(home), owner, lock_error@) == Some(fault@)
                &&& *final(home) == *old(home)
            },
        },
{
    if home.locked {
        return Err(
            Fault::caused(
                "another fleet executor worker already owns this Coven home",
                lock_error,
            ),
        );
    }
    let control = match read_control(home) {
        Ok(control) => control,
        Err(fault) => {
            return Err(fault);
        },
    };
    if owner == ExecutorOwner::Desktop && (home.autostart || control.owner
        == ExecutorOwner::Headless) {
        return Err(
            Fault::plain(
                "headless executor ownership is installed; uninstall autostart before desktop serve",
            ),
        );
    }
    let desired_state = if owner == ExecutorOwner::Desktop {
        DesiredState::Running
    } else {
        control.desired_state
    };
    home.control = ControlFile::Found(
        ControlState { protocol_version: PROTOCOL_VERSION.to_owned(), desired_state, owner },
    );
    home.runtime = Some(
        RuntimeRecord {
            protocol_version: PROTOCOL_VERSION.to_owned(),
            pid,
            started_at: now.to_owned(),
            updated_at: now.to_owned(),
            state: RuntimeState::Starting,
            owner,
        },
    );
    home.locked = true;
    Ok(WorkerGuard { pid, owner })
}

/// When the worker that a record tells of started, where it is the worker asked for.
pub open spec fn start_of(runtime: Option<RuntimeRecord>, pid: u32, now: Seq<char>) -> Seq<char> {
    match runtime {
        Some(record) => if record.pid == pid {
            record.started_at@
        } else {
            now
        },
        None => now,
    }
}

impl WorkerGuard {
    /// Records what the worker does. The time of its start stays.
    pub fn publish(&self, home: &mut ExecutorHome, state: RuntimeState, now: &str)
        ensures
            *final(home) == (ExecutorHome { runtime: final(home).runtime, ..*old(home) }),
            final(home).runtime matches Some(record) && tells(
                record,
                self.process(),
                self.run_by(),
                state,
                start_of(old(home).runtime, self.process(), now@),
                now@,
            ),
    {
        let started_at = match &home.runtime {
            Some(record) => if record.pid == self.pid {
                record.started_at.clone()
            } else {
                now.to_owned()
            },
            None => now.to_owned(),
        };
        home.runtime = Some(
            RuntimeRecord {
                protocol_version: PROTOCOL_VERSION.to_owned(),
                pid: self.pid,
                started_at,
                updated_at: now.to_owned(),
                state,
                owner: self.owner,
            },
        );
    }

    /// Ceases to be the worker: what it recorded of itself goes, and the lock is free.
    pub fn release(self, home: &mut ExecutorHome)
        ensures
            *final(home) == (ExecutorHome {
                runtime: match old(home).runtime {
                    Some(record) => if record.pid == self.process() {
                        None
                    } else {
                        Some(record)
                    },
                    None => None,
                },
                locked: false,
                ..*old(home)
            }),
    {
        let own = match &home.runtime {
            Some(record) => record.pid == self.pid,
            None => false,
        };
        if own {
            home.runtime = None;
        }
        home.locked = false;
    }
}

/// How the executor of a home stands.
#[derive(Debug)]
pub struct LocalStatus {
    pub protocol_version: &'static str,
    pub configured: bool,
    pub desired_state: DesiredState,
    pub runtime_state: ObservationState,
    pub running: bool,
    pub stale: bool,
    pub pid: Option<u32>,
    pub started_at: Option<String>,
    pub updated_at: Option<String>,
    pub owner: ExecutorOwner,
    pub node_id: Option<String>,
    pub workspace_root: Option<String>,
}

/// What is observed of the executor of a home: a record without a worker is stale.
pub open spec fn observation_of(home: ExecutorHome) -> ObservationState {
    match home.runtime {
        Some(record) => if home.locked {
            observed(record.state)
        } else {
            ObservationState::Stale
        },
        None => if home.locked {
            ObservationState::Starting
        } else {
            ObservationState::Stopped
        },
    }
}

/// Who is meant to run the executor of a home.
pub open spec fn configured_owner(home: ExecutorHome, recorded: ExecutorOwner) -> ExecutorOwner {
    if recorded == ExecutorOwner::Legacy && home.autostart {
        ExecutorOwner::Headless
    } else {
        recorded
    }
}

/// Who runs the executor of a home: the worker, where there is one that says so.
pub open spec fn owner_of(home: ExecutorHome, recorded: ExecutorOwner) -> ExecutorOwner {
    match home.runtime {
        Some(record) => if home.locked {
            record.owner
        } else {
            configured_owner(home, recorded)
        },
        None => configured_owner(home, recorded),
    }
}

/// How the executor of a home stands.
pub fn status(
    home: &ExecutorHome,
    configured: bool,
    node_id: Option<String>,
    workspace_root: Option<String>,
) -> (status: Result<LocalStatus, Fault>)
    ensures
        match status {
            Ok(status) => {
                &&& control_of(home.control) is Ok
                &&& status.protocol_version@ == PROTOCOL_VERSION@
                &&& status.configured == configured
                &&& status.desired_state == control_of(home.control)->Ok_0.0
                &&& status.runtime_state == observation_of(*home)
                &&& status.running == home.locked
                &&& status.stale == (home.runtime is Some && !home.locked)
                &&& status.pid == match home.runtime {
                    Some(record) => Some(record.pid),
                    None => None,
                }
                &&& optional_view(status.started_at) == match home.runtime {
                    Some(record) => Some(record.started_at@),
                    None => None,
                }
                &&& optional_view(status.updated_at) == match home.runtime {
                    Some(record) => Some(record.updated_at@),
                    None => None,
                }
                &&& status.owner == owner_of(*home, control_of(home.control)->Ok_0.1)
                &&& status.node_id == node_id
                &&& status.workspace_root == workspace_root
            },
            Err(fault) => control_of(home.control) == Err::<
                (DesiredState, ExecutorOwner),
                FaultView,
            >(fault@),
        },
{
    let control = match read_control(home) {
        Ok(control) => control,
        Err(fault) => {
            return Err(fault);
        },
    };
    let running = home.locked;
    let configured_by = if control.owner == ExecutorOwner::Legacy && home.autostart {
        ExecutorOwner::Headless
    } else {
        control.owner
    };
    match &home.runtime {
        Some(record) => {
            let runtime_state = if running {
                ObservationState::from(record.state)
            } else {
                ObservationState::Stale
            };
            let owner = if running {
                record.owner
            } else {
                configured_by
            };
            Ok(
                LocalStatus {
                    protocol_version: PROTOCOL_VERSION,
                    configured,
                    desired_state: control.desired_state,
                    runtime_state,
                    running,
                    stale: !running,
                    pid: Some(record.pid),
                    started_at: Some(record.started_at.clone()),
                    updated_at: Some(record.updated_at.clone()),
                    owner,
                    node_id,
                    workspace_root,
                },
            )
        },
        None => {
            let runtime_state = if running {
                ObservationState::Starting
            } else {
                ObservationState::Stopped
            };
            Ok(
                LocalStatus {
                    protocol_version: PROTOCOL_VERSION,
                    configured,
                    desired_state: control.desired_state,
                    runtime_state,
                    running,
                    stale: false,
                    pid: None,
                    started_at: None,
                    updated_at: None,
                    owner: configured_by,
                    node_id,
                    workspace_root,
                },
            )
        },
    }
}

/// A home without a worker, held so that none starts.
#[derive(Debug)]
pub struct IdleWorkerGuard {
    held: bool,
}

/// What comes of an attempt to hold a home without a worker.
#[derive(Debug)]
pub enum DrainStep {
    /// It is held.
    Held(IdleWorkerGuard),
    /// A worker still runs: wait, and attempt again.
    Wait,
    /// A worker still runs, and there is no time left.
    GiveUp(Fault),
    /// The executor could not be told to stop.
    Refused(Fault),
}

/// Whether the record of a home says that its executor is to stop, whoever runs it, or is as
/// it was where that was recorded before; what a worker recorded of itself stays.
pub open spec fn told_to_stop(before: ExecutorHome, after: ExecutorHome, told_before: bool) -> bool {
    &&& after.runtime == before.runtime
    &&& after.autostart == before.autostart
    &&& if told_before {
        after.control == before.control
    } else {
        control_of(before.control) matches Ok(pair) && home_records(
            after,
            DesiredState::Stopped,
            pair.1,
        )
    }
}

/// Attempts to hold a home without a worker. The first attempt tells the executor to stop;
/// `told_before` says that an earlier one has.
pub fn drain_and_lock(home: &mut ExecutorHome, told_before: bool, out_of_time: bool) -> (step:
    DrainStep)
    ensures
        match step {
            DrainStep::Held(_) => {
                &&& told_to_stop(*old(home), *final(home), told_before)
                &&& !old(home).locked
                &&& final(home).locked
            },
            DrainStep::Wait => {
                &&& told_to_stop(*old(home), *final(home), told_before)
                &&& old(home).locked
                &&& final(home).locked
                &&& !out_of_time
            },
            DrainStep::GiveUp(fault) => {
                &&& told_to_stop(*old(home), *final(home), told_before)
                &&& old(home).locked
                &&& final(home).locked
                &&& out_of_time
                &&& fault@ == plain(
                    "fleet executor is still active; wait for current work to drain, then retry"@,
                )
            },
            DrainStep::Refused(fault) => {
                &&& !told_before
                &&& control_of(old(home).control) == Err::<
                    (DesiredState, ExecutorOwner),
                    FaultView,
                >(fault@)
                &&& *final(home) == *old(home)
            },
        },
{
    if !told_before {
        if let Err(fault) = set_desired(home, DesiredState::Stopped, None) {
            return DrainStep::Refused(fault);
        }
    }
    if !home.locked {
        home.locked = true;
        return DrainStep::Held(IdleWorkerGuard { held: true });
    }
    if out_of_time {
        DrainStep::GiveUp(
            Fault::plain(
                "fleet executor is still active; wait for current work to drain, then retry",
            ),
        )
    } else {
        DrainStep::Wait
    }
}

impl IdleWorkerGuard {
    /// Hands a home that is held to someone who is to run its executor.
    pub fn transfer(&self, home: &mut ExecutorHome, owner: ExecutorOwner, desired_state: DesiredState)
        ensures
            home_records(*final(home), desired_state, owner),
            *final(home) == (ExecutorHome { control: final(home).control, ..*old(home) }),
    {
        home.control = ControlFile::Found(
            ControlState { protocol_version: PROTOCOL_VERSION.to_owned(), desired_state, owner },
        );
    }

    /// Lets go of a home that was held.
    pub fn release(self, home: &mut ExecutorHome)
        ensures
            *final(home) == (ExecutorHome { locked: false, ..*old(home) }),
    {
        home.locked = false;
    }
}

/// While a home has a worker, there is no second one, whoever asks.
pub proof fn one_worker_at_a_time(
    home: ExecutorHome,
    owner: ExecutorOwner,
    lock_error: Seq<char>,
)
    requires
        home.locked,
    ensures
        worker_fault(home, owner, lock_error) is Some,
{
}

/// A desktop worker never runs a home that was handed to one that starts by itself; that
/// one still can, where the home is free and its record can be read.
pub proof fn headless_homes_stay_headless(
    home: ExecutorHome,
    desired_state: DesiredState,
    lock_error: Seq<char>,
)
    requires
        home_records(home, desired_state, ExecutorOwner::Headless),
    ensures
        worker_fault(home, ExecutorOwner::Desktop, lock_error) is Some,
        !home.locked ==> worker_fault(home, ExecutorOwner::Headless, lock_error) is None,
{
}

/// What the executor is meant to do survives a worker that was not of the desktop.
pub proof fn desired_state_survives(
    before: ExecutorHome,
    after: ExecutorHome,
    desired_state: DesiredState,
    owner: ExecutorOwner,
)
    requires
        home_records(before, desired_state, owner),
        owner != ExecutorOwner::Desktop,
        home_records(after, desired_at_start(control_of(before.control)->Ok_0.0, owner), owner),
    ensures
        control_of(after.control) == Ok::<(DesiredState, ExecutorOwner), FaultView>(
            (desired_state, owner),
        ),
{
}

/// What is observed of an executor that says what it does is that, each by its own name.
pub proof fn observations_repeat_the_executor(state: RuntimeState)
    ensures
        observed(state) == ObservationState::Starting <==> state == RuntimeState::Starting,
        observed(state) == ObservationState::Idle <==> state == RuntimeState::Idle,
        observed(state) == ObservationState::Claiming <==> state == RuntimeState::Claiming,
        observed(state) == ObservationState::Executing <==> state == RuntimeState::Executing,
        observed(state) == ObservationState::Paused <==> state == RuntimeState::Paused,
        observed(state) == ObservationState::Stopping <==> state == RuntimeState::Stopping,
        observed(state) != ObservationState::Stopped,
        observed(state) != ObservationState::Stale,
{
}

/// What a home says of its executor is what was recorded there, in the protocol; without a
/// record it runs as part of the daemon.
pub proof fn records_say_what_is_meant(control: ControlFile)
    ensures
        control is Missing ==> control_of(control) == Ok::<
            (DesiredState, ExecutorOwner),
            FaultView,
        >((DesiredState::Running, ExecutorOwner::Legacy)),
        control matches ControlFile::Found(state) ==> (state.protocol_version@
            == "coven.executor-local.v1"@ ==> control_of(control) == Ok::<
            (DesiredState, ExecutorOwner),
            FaultView,
        >((state.desired_state, state.owner))) && (state.protocol_version@
            != "coven.executor-local.v1"@ ==> control_of(control) == Err::<
            (DesiredState, ExecutorOwner),
            FaultView,
        >(plain("unsupported executor control protocol"@))),
        control matches ControlFile::Unreadable(error) ==> control_of(control) == Err::<
            (DesiredState, ExecutorOwner),
            FaultView,
        >(plain(error@)),
        control matches ControlFile::Invalid(error) ==> control_of(control) == Err::<
            (DesiredState, ExecutorOwner),
            FaultView,
        >(caused("invalid executor control state"@, error@)),
{
}

/// A home that was told what its executor is meant to do, and who runs it, says so.
pub proof fn what_is_recorded_is_read_back(
    home: ExecutorHome,
    desired_state: DesiredState,
    owner: ExecutorOwner,
)
    requires
        home_records(home, desired_state, owner),
    ensures
        control_of(home.control) == Ok::<(DesiredState, ExecutorOwner), FaultView>(
            (desired_state, owner),
        ),
        home.control is Found,
        home.control->Found_0.protocol_version@ == "coven.executor-local.v1"@,
        home.control->Found_0.desired_state == desired_state,
        home.control->Found_0.owner == owner,
{
}

/// A worker can be had if and only if there is none, the record of the home can be read, and
/// a worker of the desktop finds the home neither set to start its own by itself nor owned by
/// such a one. That there is one comes first, then the record.
pub proof fn workers_are_had_where_there_is_none(
    home: ExecutorHome,
    owner: ExecutorOwner,
    lock_error: Seq<char>,
)
    ensures
        ({
            let fault = worker_fault(home, owner, lock_error);
            let control = control_of(home.control);
            let headless = home.autostart || (control is Ok && control->Ok_0.1
                == ExecutorOwner::Headless);
            &&& fault is None <==> !home.locked && control is Ok && !(owner
                == ExecutorOwner::Desktop && headless)
            &&& home.locked ==> fault == Some(
                caused("another fleet executor worker already owns this Coven home"@, lock_error),
            )
            &&& !home.locked ==> (control matches Err(wrong) ==> fault == Some(wrong))
            &&& !home.locked && control is Ok && owner == ExecutorOwner::Desktop && headless
                ==> fault == Some(
                plain(
                    "headless executor ownership is installed; uninstall autostart before desktop serve"@,
                ),
            )
        }),
{
}

/// A worker of the desktop is meant to run from its start; any other goes on as it was told.
pub proof fn desktops_run_at_once(before: DesiredState)
    ensures
        desired_at_start(before, ExecutorOwner::Desktop) == DesiredState::Running,
        desired_at_start(before, ExecutorOwner::Headless) == before,
        desired_at_start(before, ExecutorOwner::Legacy) == before,
{
}

/// A worker's record names the worker, what it does and when; the time of its start stays
/// while the record is the worker's own.
pub proof fn workers_tell_of_themselves(
    record: RuntimeRecord,
    pid: u32,
    owner: ExecutorOwner,
    state: RuntimeState,
    started_at: Seq<char>,
    updated_at: Seq<char>,
)
    requires
        tells(record, pid, owner, state, started_at, updated_at),
    ensures
        record.protocol_version@ == "coven.executor-local.v1"@,
        record.pid == pid,
        record.owner == owner,
        record.state == state,
        record.started_at@ == started_at,
        record.updated_at@ == updated_at,
        start_of(Some(record), pid, updated_at) == started_at,
        forall|other: u32, now: Seq<char>|
            other != pid ==> #[trigger] start_of(Some(record), other, now) == now,
        forall|other: u32, now: Seq<char>| #[trigger] start_of(None, other, now) == now,
{
}

/// What is observed of the executor of a home: with a worker, what it says, or that it starts
/// where it has said nothing; without one, that its record is stale, or that it is stopped.
pub proof fn records_without_a_worker_are_stale(home: ExecutorHome)
    ensures
        home.locked ==> (home.runtime matches Some(record) ==> observation_of(home) == observed(
            record.state,
        )),
        home.locked && home.runtime is None ==> observation_of(home)
            == ObservationState::Starting,
        observation_of(home) == ObservationState::Stale <==> !home.locked && home.runtime is Some,
        observation_of(home) == ObservationState::Stopped <==> !home.locked && home.runtime
            is None,
{
}

/// The executor of a home is run by its worker, where there is one that said so; else by whom
/// the record names, or by one that starts by itself where the home is set up so and the
/// record names the daemon.
pub proof fn workers_own_their_homes(home: ExecutorHome, recorded: ExecutorOwner)
    ensures
        home.locked ==> (home.runtime matches Some(record) ==> owner_of(home, recorded)
            == record.owner),
        !home.locked || home.runtime is None ==> {
            &&& recorded != ExecutorOwner::Legacy ==> owner_of(home, recorded) == recorded
            &&& recorded == ExecutorOwner::Legacy && home.autostart ==> owner_of(home, recorded)
                == ExecutorOwner::Headless
            &&& recorded == ExecutorOwner::Legacy && !home.autostart ==> owner_of(home, recorded)
                == ExecutorOwner::Legacy
        },
{
}

/// An executor that is told to stop keeps whoever runs it, and the rest of its home.
pub proof fn stopping_keeps_the_owner(before: ExecutorHome, after: ExecutorHome)
    requires
        told_to_stop(before, after, false),
    ensures
        control_of(before.control) is Ok,
        control_of(after.control) == Ok::<(DesiredState, ExecutorOwner), FaultView>(
            (DesiredState::Stopped, control_of(before.control)->Ok_0.1),
        ),
        after.runtime == before.runtime,
        after.autostart == before.autostart,
{
}

/// An executor that was told to stop before is not told again.
pub proof fn stopping_is_told_once(before: ExecutorHome, after: ExecutorHome)
    requires
        told_to_stop(before, after, true),
    ensures
        after.control == before.control,
        after.runtime == before.runtime,
        after.autostart == before.autostart,
{
}

/// A home's record that can be read is replaced by what the executor is now meant to do, under
/// the owner that is named or the one that was; one that cannot be read is left.
pub proof fn desires_are_recorded(
    home: &mut ExecutorHome,
    desired_state: DesiredState,
    owner: Option<ExecutorOwner>,
    control: Result<ControlState, Fault>,
)
    requires
        call_ensures(set_desired, (home, desired_state, owner), control),
    ensures
        control is Ok <==> control_of(old(home).control) is Ok,
        control is Err ==> *final(home) == *old(home),
        control matches Ok(state) ==> {
            &&& state.desired_state == desired_state
            &&& owner matches Some(named) ==> state.owner == named
            &&& owner is None ==> state.owner == control_of(old(home).control)->Ok_0.1
            &&& control_of(final(home).control) == Ok::<(DesiredState, ExecutorOwner), FaultView>(
                (desired_state, state.owner),
            )
            &&& final(home).runtime == old(home).runtime
            &&& final(home).autostart == old(home).autostart
            &&& final(home).locked == old(home).locked
        },
{
}

/// A home is run by someone else than the daemon where it is set to start its executor by
/// itself, or its record names another owner or cannot be read.
pub proof fn unreadable_homes_count_as_managed(home: &ExecutorHome, managed: bool)
    requires
        call_ensures(has_managed_owner, (home,), managed),
    ensures
        home.autostart ==> managed,
        control_of(home.control) is Err ==> managed,
        !home.autostart ==> (control_of(home.control) matches Ok(pair) ==> (managed <==> pair.1
            != ExecutorOwner::Legacy)),
{
}

/// Becoming the worker of a home takes its lock and records the worker as starting, under its
/// own process and owner; where a worker cannot be had nothing changes.
pub proof fn workers_record_themselves(
    home: &mut ExecutorHome,
    owner: ExecutorOwner,
    pid: u32,
    now: &str,
    lock_error: &str,
    guard: Result<WorkerGuard, Fault>,
)
    requires
        call_ensures(acquire_worker, (home, owner, pid, now, lock_error), guard),
    ensures
        guard is Ok <==> worker_fault(*old(home), owner, lock_error@) is None,
        guard is Err ==> *final(home) == *old(home),
        guard matches Ok(worker) ==> {
            &&& worker.process() == pid
            &&& worker.run_by() == owner
            &&& final(home).locked
            &&& final(home).runtime is Some
            &&& final(home).runtime->0.pid == pid
            &&& final(home).runtime->0.owner == owner
            &&& final(home).runtime->0.state == RuntimeState::Starting
            &&& final(home).runtime->0.started_at@ == now@
            &&& final(home).runtime->0.updated_at@ == now@
            &&& control_of(final(home).control) is Ok
            &&& control_of(final(home).control)->Ok_0.1 == owner
            &&& owner == ExecutorOwner::Desktop ==> control_of(final(home).control)->Ok_0.0
                == DesiredState::Running
            &&& owner != ExecutorOwner::Desktop ==> control_of(final(home).control)->Ok_0.0
                == control_of(old(home).control)->Ok_0.0
        },
{
}

/// A worker publishes what it does now, keeps the time of its start, and touches nothing else
/// of the home; when it ceases it takes only its own record away, and frees the lock.
pub proof fn workers_touch_their_own_record(
    guard: &WorkerGuard,
    home: &mut ExecutorHome,
    state: RuntimeState,
    now: &str,
    leaving: WorkerGuard,
    left: &mut ExecutorHome,
)
    requires
        call_ensures(WorkerGuard::publish, (guard, home, state, now), ()),
        call_ensures(WorkerGuard::release, (leaving, left), ()),
    ensures
        final(home).runtime is Some,
        final(home).runtime->0.pid == guard.process(),
        final(home).runtime->0.state == state,
        final(home).runtime->0.updated_at@ == now@,
        old(home).runtime matches Some(record) ==> (record.pid == guard.process()
            ==> final(home).runtime->0.started_at@ == record.started_at@),
        final(home).control == old(home).control,
        final(home).locked == old(home).locked,
        !final(left).locked,
        final(left).control == old(left).control,
        old(left).runtime matches Some(record) ==> (if record.pid == leaving.process() {
            final(left).runtime is None
        } else {
            final(left).runtime == old(left).runtime
        }),
{
}

/// How a home's executor stands is told from its record, its worker and its lock.
pub proof fn homes_are_reported(
    home: &ExecutorHome,
    configured: bool,
    node_id: Option<String>,
    workspace_root: Option<String>,
    report: Result<LocalStatus, Fault>,
)
    requires
        call_ensures(status, (home, configured, node_id, workspace_root), report),
    ensures
        report is Ok <==> control_of(home.control) is Ok,
        report matches Ok(told) ==> {
            &&& told.protocol_version@ == "coven.executor-local.v1"@
            &&& told.configured == configured
            &&& told.desired_state == control_of(home.control)->Ok_0.0
            &&& told.running == home.locked
            &&& told.stale == (home.runtime is Some && !home.locked)
            &&& told.runtime_state == observation_of(*home)
            &&& told.owner == owner_of(*home, control_of(home.control)->Ok_0.1)
            &&& home.runtime matches Some(record) ==> told.pid == Some(record.pid) && (
            told.started_at matches Some(at) && at@ == record.started_at@) && (
            told.updated_at matches Some(at) && at@ == record.updated_at@)
            &&& home.runtime is None ==> told.pid is None && told.started_at is None
                && told.updated_at is None
            &&& told.node_id == node_id
            &&& told.workspace_root == workspace_root
        },
{
}

/// A home is held without a worker only once its worker is gone; the executor is told to stop
/// first, once, and where it will not in time that is told.
pub proof fn homes_are_held_once_idle(
    home: &mut ExecutorHome,
    told_before: bool,
    out_of_time: bool,
    step: DrainStep,
)
    requires
        call_ensures(drain_and_lock, (home, told_before, out_of_time), step),
    ensures
        step is Refused <==> !told_before && control_of(old(home).control) is Err,
        step is Held ==> !old(home).locked && final(home).locked,
        step is Wait ==> old(home).locked && !out_of_time,
        step matches DrainStep::GiveUp(fault) ==> old(home).locked && out_of_time && fault@
            == plain("fleet executor is still active; wait for current work to drain, then retry"@),
        step !is Refused && !old(home).locked ==> step is Held,
        step !is Refused && old(home).locked ==> step is Wait || step is GiveUp,
        step !is Refused && !told_before ==> control_of(final(home).control) == Ok::<
            (DesiredState, ExecutorOwner),
            FaultView,
        >((DesiredState::Stopped, control_of(old(home).control)->Ok_0.1)),
        step is Refused ==> *final(home) == *old(home),
{
}

/// A home that is held is handed over with what its executor is then meant to do, and let go
/// without its record being touched.
pub proof fn held_homes_are_handed_over(
    guard: &IdleWorkerGuard,
    home: &mut ExecutorHome,
    owner: ExecutorOwner,
    desired_state: DesiredState,
    leaving: IdleWorkerGuard,
    left: &mut ExecutorHome,
)
    requires
        call_ensures(IdleWorkerGuard::transfer, (guard, home, owner, desired_state), ()),
        call_ensures(IdleWorkerGuard::release, (leaving, left), ()),
    ensures
        control_of(final(home).control) == Ok::<(DesiredState, ExecutorOwner), FaultView>(
            (desired_state, owner),
        ),
        final(home).locked == old(home).locked,
        final(home).runtime == old(home).runtime,
        !final(left).locked,
        final(left).control == old(left).control,
        final(left).runtime == old(left).runtime,
{
}

} // verus!
