//! Serving: the order of the daemon's startup, its accept loop, and the end of both.

use crate::fault::{plain, Fault};
use crate::http::{address_is_loopback, address_loops, FLEET_PORT};
use crate::lifecycle::DaemonIpcPlatform;
use crate::text::{join_texts, join_with, joined, views};
use vstd::prelude::*;
use vstd::string::*;

verus! {

/// What kind of failure an input or output operation had.
#[derive(Debug, Clone, Copy, PartialEq, Eq, Structural)]
pub enum IoFaultKind {
    NotFound,
    NotADirectory,
    InvalidData,
    BrokenPipe,
    ConnectionReset,
    ConnectionAborted,
    ConnectionRefused,
    UnexpectedEof,
    WriteZero,
    WouldBlock,
    Interrupted,
    TimedOut,
    PermissionDenied,
    AddrInUse,
    Other,
}

/// Whether a failure only says that the peer hung up.
pub open spec fn is_hang_up(kind: IoFaultKind) -> bool {
    ||| kind == IoFaultKind::BrokenPipe
    ||| kind == IoFaultKind::ConnectionReset
    ||| kind == IoFaultKind::ConnectionAborted
    ||| kind == IoFaultKind::UnexpectedEof
    ||| kind == IoFaultKind::WriteZero
}

/// Whether one of the errors in a chain, given by their kinds where they are failures of
/// input or output, says that the peer hung up.
pub open spec fn hung_up(chain: Seq<Option<IoFaultKind>>) -> bool {
    exists|i: int|
        0 <= i < chain.len() && (#[trigger] chain[i] matches Some(kind) && is_hang_up(kind))
}

/// Whether an error is only that the peer hung up.
pub fn is_client_disconnect(chain: &[Option<IoFaultKind>]) -> (yes: bool)
    ensures
        yes == hung_up(chain@),
{
    let mut i: usize = 0;
    while i < chain.len()
        invariant
            i <= chain@.len(),
            forall|k: int|
                0 <= k < i ==> !(#[trigger] chain@[k] matches Some(kind) && is_hang_up(kind)),
        decreases chain@.len() - i,
    {
        if let Some(kind) = chain[i] {
            if kind == IoFaultKind::BrokenPipe || kind == IoFaultKind::ConnectionReset || kind
                == IoFaultKind::ConnectionAborted || kind == IoFaultKind::UnexpectedEof || kind
                == IoFaultKind::WriteZero {
                return true;
            }
        }
        i += 1;
    }
    false
}

/// Whether a failure to connect says that nobody listens.
pub open spec fn nobody_listens(kind: IoFaultKind) -> bool {
    kind == IoFaultKind::NotFound || kind == IoFaultKind::ConnectionRefused
}

/// Whether a failure to connect says that nobody listens.
pub fn refused_means_free(kind: IoFaultKind) -> (free: bool)
    ensures
        free == nobody_listens(kind),
{
    kind == IoFaultKind::NotFound || kind == IoFaultKind::ConnectionRefused
}

/// An address that a name resolved to: with its port, and without.
#[derive(Debug)]
pub struct ResolvedAddress {
    pub text: String,
    pub ip: String,
}

/// The texts of the addresses that are not of this machine.
pub open spec fn foreign_addresses(addresses: Seq<ResolvedAddress>) -> Seq<Seq<char>>
    decreases addresses.len(),
{
    if addresses.len() == 0 {
        seq![]
    } else {
        let rest = foreign_addresses(addresses.drop_last());
        if address_loops(addresses.last().ip@) {
            rest
        } else {
            rest.push(addresses.last().text@)
        }
    }
}

/// Refuses to listen anywhere but on this machine.
pub fn ensure_loopback_addrs(addresses: &[ResolvedAddress]) -> (checked: Result<(), Fault>)
    ensures
        ({
            let foreign = foreign_addresses(addresses@);
            match checked {
                Ok(()) => addresses@.len() > 0 && foreign.len() == 0,
                Err(fault) => if addresses@.len() == 0 {
                    fault@ == plain("TCP listener address did not resolve to any sockets"@)
                } else {
                    foreign.len() > 0 && fault@ == plain(
                        "refusing to bind Coven TCP API to non-loopback address(es): "@
                            + join_with(foreign, ", "@) + "; use 127.0.0.1 or ::1"@,
                    )
                },
            }
        }),
{
    if addresses.len() == 0 {
        return Err(Fault::plain("TCP listener address did not resolve to any sockets"));
    }
    let mut foreign: Vec<String> = Vec::new();
    let mut i: usize = 0;
    assert(addresses@.take(0) =~= seq![]);
    assert(views(foreign@) =~= foreign_addresses(addresses@.take(0)));
    while i < addresses.len()
        invariant
            i <= addresses@.len(),
            views(foreign@) == foreign_addresses(addresses@.take(i as int)),
        decreases addresses@.len() - i,
    {
        let ghost next = addresses@.take(i as int + 1);
        assert(next.drop_last() =~= addresses@.take(i as int));
        if !address_is_loopback(addresses[i].ip.as_str()) {
            let ghost earlier = views(foreign@);
            foreign.push(addresses[i].text.clone());
            assert(views(foreign@) =~= earlier.push(addresses@[i as int].text@));
        }
        i += 1;
    }
    assert(addresses@.take(addresses@.len() as int) =~= addresses@);
    assert(views(foreign@).len() == foreign@.len());
    if foreign.len() == 0 {
        return Ok(());
    }
    let mut text: String =
        "refusing to bind Coven TCP API to non-loopback address(es): ".to_owned();
    text.append(join_texts(foreign.as_slice(), ", ").as_str());
    text.append("; use 127.0.0.1 or ::1");
    Err(Fault::plain(text.as_str()))
}

/// Whether a listener on a port answers remote fleet routes only.
pub fn listener_is_fleet_only(port: u16) -> (yes: bool)
    ensures
        yes == (port == 8787),
{
    port == FLEET_PORT
}

/// One step of the daemon's startup.
#[derive(Debug, Clone, Copy, PartialEq, Eq, Structural)]
pub enum ServeStep {
    /// Warn that allowed hosts mean nothing without a TCP listener.
    WarnAllowedHosts,
    /// Take the lock that a serving daemon holds for its whole life.
    AcquireServeLock,
    /// Tie the children's life to the daemon's.
    InstallLifetimeJob,
    /// Prepare the store.
    InitializeStore,
    /// Have the daemon's files taken away at a panic.
    InstallPanicHook,
    /// Have termination signals set a flag.
    InstallSignalHandlers,
    /// Take the local transport.
    BindTransport,
    /// Record the daemon.
    WriteStatus,
    /// Have the daemon's files taken away at the end.
    ArmShutdownGuard,
    /// Start the gateway for mobile clients.
    StartGateway,
    /// Note the start in the recovery log.
    LogStart,
    /// Give up sessions that an earlier daemon ran.
    RecoverOrphanedSessions,
    /// Give up sessions that were created and never launched.
    RecoverStaleCreatedSessions,
    /// Unmount what an earlier daemon mounted.
    UnmountOrphans,
    /// Start the runtime of sessions.
    StartRuntime,
    /// Start the scheduler of thread proposals.
    StartThreadsScheduler,
    /// Start the scheduler of store maintenance.
    StartMaintenance,
    /// Take the TCP transport and answer on it.
    StartTcp,
    /// Answer on the local transport.
    AcceptLoop,
}

/// The steps that start the runtime and answer.
pub open spec fn serving_tail(tcp: bool) -> Seq<ServeStep> {
    seq![
        ServeStep::StartRuntime,
        ServeStep::StartThreadsScheduler,
        ServeStep::StartMaintenance,
    ] + (if tcp {
        seq![ServeStep::StartTcp]
    } else {
        seq![]
    }) + seq![ServeStep::AcceptLoop]
}

/// The steps of the daemon's startup, in their order. The first that fails ends it.
pub open spec fn serve_steps(
    platform: DaemonIpcPlatform,
    tcp: bool,
    allowed_hosts: bool,
) -> Seq<ServeStep> {
    match platform {
        DaemonIpcPlatform::Unix => (if allowed_hosts && !tcp {
            seq![ServeStep::WarnAllowedHosts]
        } else {
            seq![]
        }) + seq![
            ServeStep::AcquireServeLock,
            ServeStep::InitializeStore,
            ServeStep::InstallPanicHook,
            ServeStep::InstallSignalHandlers,
            ServeStep::BindTransport,
            ServeStep::WriteStatus,
            ServeStep::ArmShutdownGuard,
            ServeStep::StartGateway,
            ServeStep::LogStart,
            ServeStep::RecoverOrphanedSessions,
            ServeStep::RecoverStaleCreatedSessions,
            ServeStep::UnmountOrphans,
        ] + serving_tail(tcp),
        DaemonIpcPlatform::Windows => seq![
            ServeStep::AcquireServeLock,
            ServeStep::InstallLifetimeJob,
            ServeStep::BindTransport,
            ServeStep::StartGateway,
            ServeStep::InitializeStore,
            ServeStep::WriteStatus,
            ServeStep::RecoverOrphanedSessions,
            ServeStep::UnmountOrphans,
        ] + serving_tail(tcp),
    }
}

/// The steps of the daemon's startup, in their order.
pub fn serve_forever(platform: DaemonIpcPlatform, tcp: bool, allowed_hosts: bool) -> (steps: Vec<
    ServeStep,
>)
    ensures
        steps@ == serve_steps(platform, tcp, allowed_hosts),
{
    let mut steps: Vec<ServeStep> = Vec::new();
    match platform {
        DaemonIpcPlatform::Unix => {
            if allowed_hosts && !tcp {
                steps.push(ServeStep::WarnAllowedHosts);
            }
            steps.push(ServeStep::AcquireServeLock);
            steps.push(ServeStep::InitializeStore);
            steps.push(ServeStep::InstallPanicHook);
            steps.push(ServeStep::InstallSignalHandlers);
            steps.push(ServeStep::BindTransport);
            steps.push(ServeStep::WriteStatus);
            steps.push(ServeStep::ArmShutdownGuard);
            steps.push(ServeStep::StartGateway);
            steps.push(ServeStep::LogStart);
            steps.push(ServeStep::RecoverOrphanedSessions);
            steps.push(ServeStep::RecoverStaleCreatedSessions);
            steps.push(ServeStep::UnmountOrphans);
        },
        DaemonIpcPlatform::Windows => {
            steps.push(ServeStep::AcquireServeLock);
            steps.push(ServeStep::InstallLifetimeJob);
            steps.push(ServeStep::BindTransport);
            steps.push(ServeStep::StartGateway);
            steps.push(ServeStep::InitializeStore);
            steps.push(ServeStep::WriteStatus);
            steps.push(ServeStep::RecoverOrphanedSessions);
            steps.push(ServeStep::UnmountOrphans);
        },
    }
    steps.push(ServeStep::StartRuntime);
    steps.push(ServeStep::StartThreadsScheduler);
    steps.push(ServeStep::StartMaintenance);
    if tcp {
        steps.push(ServeStep::StartTcp);
    }
    steps.push(ServeStep::AcceptLoop);
    assert(steps@ =~= serve_steps(platform, tcp, allowed_hosts));
    steps
}

/// Whether one step of a list stands before another.
pub open spec fn stands_before(steps: Seq<ServeStep>, first: ServeStep, second: ServeStep) -> bool {
    exists|i: int, j: int|
        0 <= i < j < steps.len() && #[trigger] steps[i] == first && #[trigger] steps[j] == second
}

/// A daemon takes the lock before it touches anything that it shares with others, and takes
/// the transport before it records itself or gives up sessions: one that finds another
/// daemon in its place changes nothing of that daemon's.
pub proof fn startup_claims_before_it_changes(
    platform: DaemonIpcPlatform,
    tcp: bool,
    allowed_hosts: bool,
)
    ensures
        ({
            let steps = serve_steps(platform, tcp, allowed_hosts);
            &&& stands_before(steps, ServeStep::AcquireServeLock, ServeStep::InitializeStore)
            &&& stands_before(steps, ServeStep::AcquireServeLock, ServeStep::BindTransport)
            &&& stands_before(steps, ServeStep::BindTransport, ServeStep::WriteStatus)
            &&& stands_before(
                steps,
                ServeStep::BindTransport,
                ServeStep::RecoverOrphanedSessions,
            )
            &&& stands_before(steps, ServeStep::WriteStatus, ServeStep::AcceptLoop)
        }),
{
    let steps = serve_steps(platform, tcp, allowed_hosts);
    let last = steps.len() - 1;
    assert(steps[last] == ServeStep::AcceptLoop);
    match platform {
        DaemonIpcPlatform::Unix => {
            let k: int = if allowed_hosts && !tcp {
                1
            } else {
                0
            };
            assert(steps[k] == ServeStep::AcquireServeLock);
            assert(steps[k + 1] == ServeStep::InitializeStore);
            assert(steps[k + 4] == ServeStep::BindTransport);
            assert(steps[k + 5] == ServeStep::WriteStatus);
            assert(steps[k + 9] == ServeStep::RecoverOrphanedSessions);
        },
        DaemonIpcPlatform::Windows => {
            assert(steps[0] == ServeStep::AcquireServeLock);
            assert(steps[2] == ServeStep::BindTransport);
            assert(steps[4] == ServeStep::InitializeStore);
            assert(steps[5] == ServeStep::WriteStatus);
            assert(steps[6] == ServeStep::RecoverOrphanedSessions);
        },
    }
}

/// The instant before which a session that was created and never launched is given up, in
/// the form in which instants are stored.
pub fn recover_stale_created_sessions(now_unix_seconds: i64, now_nanos: u32) -> (cutoff: String)
    requires
        crate::digest::in_calendar(
            now_unix_seconds - crate::lifecycle::STALE_CREATED_TTL_SECS,
            now_nanos as int,
        ),
    ensures
        cutoff@ == crate::digest::rfc3339(
            now_unix_seconds - crate::lifecycle::STALE_CREATED_TTL_SECS,
            now_nanos as int,
            true,
        ),
{
    crate::digest::rfc3339_of(
        now_unix_seconds - crate::lifecycle::STALE_CREATED_TTL_SECS,
        now_nanos,
        true,
    )
}

/// What the recovery log is told of mounts that were taken back, if there were any.
pub fn recover_orphaned_afs_mounts(reclaimed: &[String]) -> (notice: Option<String>)
    ensures
        match notice {
            None => reclaimed@.len() == 0,
            Some(text) => reclaimed@.len() > 0 && text@ == "unmounted orphaned afs sessions: "@
                + join_with(views(reclaimed@), ", "@),
        },
{
    if reclaimed.len() == 0 {
        None
    } else {
        Some(
            joined("unmounted orphaned afs sessions: ", join_texts(reclaimed, ", ").as_str()),
        )
    }
}

/// What accepting a connection came to.
#[derive(Debug, Clone, Copy, PartialEq, Eq, Structural)]
pub enum Accepted {
    Connection,
    Failed(IoFaultKind),
}

/// What the accept loop does next.
#[derive(Debug, Clone, Copy, PartialEq, Eq, Structural)]
pub enum AcceptStep {
    /// End.
    Stop,
    /// Serve the connection.
    Serve,
    /// Wait this many milliseconds and accept again.
    Retry(u64),
    /// Report the failure, wait this many milliseconds and accept again.
    Report(u64),
    /// Close the connection unserved, and end.
    CloseAndStop,
}

/// Decides what the accept loop does next. A flag that asks for the end is looked at before
/// each accept, and again where the accept was interrupted.
pub fn accept_step(
    ending_before: bool,
    accepted: Accepted,
    ending_after: bool,
) -> (step: AcceptStep)
    ensures
        step == if ending_before {
            AcceptStep::Stop
        } else {
            match accepted {
                Accepted::Connection => AcceptStep::Serve,
                Accepted::Failed(kind) => if kind == IoFaultKind::Interrupted && ending_after {
                    AcceptStep::Stop
                } else if kind == IoFaultKind::WouldBlock {
                    AcceptStep::Retry(25)
                } else {
                    AcceptStep::Report(100)
                },
            }
        },
{
    if ending_before {
        return AcceptStep::Stop;
    }
    match accepted {
        Accepted::Connection => AcceptStep::Serve,
        Accepted::Failed(kind) => if kind == IoFaultKind::Interrupted && ending_after {
            AcceptStep::Stop
        } else if kind == IoFaultKind::WouldBlock {
            AcceptStep::Retry(25)
        } else {
            AcceptStep::Report(100)
        },
    }
}

/// Decides what the accept loop of the TCP transport does next. A connection that comes in
/// while the daemon is asked to end is closed unserved.
pub fn tcp_accept_step(
    ending_before: bool,
    accepted: Accepted,
    ending_after: bool,
) -> (step: AcceptStep)
    ensures
        step == if ending_before {
            AcceptStep::Stop
        } else {
            match accepted {
                Accepted::Connection => if ending_after {
                    AcceptStep::CloseAndStop
                } else {
                    AcceptStep::Serve
                },
                Accepted::Failed(kind) => if kind == IoFaultKind::WouldBlock {
                    AcceptStep::Retry(25)
                } else {
                    AcceptStep::Report(100)
                },
            }
        },
{
    if ending_before {
        return AcceptStep::Stop;
    }
    match accepted {
        Accepted::Connection => if ending_after {
            AcceptStep::CloseAndStop
        } else {
            AcceptStep::Serve
        },
        Accepted::Failed(kind) => if kind == IoFaultKind::WouldBlock {
            AcceptStep::Retry(25)
        } else {
            AcceptStep::Report(100)
        },
    }
}

/// A transport that requests come in on.
#[derive(Debug, Clone, Copy, PartialEq, Eq, Structural)]
pub enum ServedOn {
    UnixSocket,
    WindowsPipe,
    Tcp,
}

/// What is done about a connection whose request failed.
#[derive(Debug, Clone, Copy, PartialEq, Eq, Structural)]
pub enum ConnectionReport {
    /// Nothing: the peer hung up.
    Quiet,
    /// The failure is written to standard error.
    Print,
    /// The failure is written to standard error and to the recovery log.
    PrintAndLog,
    /// The failure is written to standard error, and the transport pauses for this many
    /// milliseconds.
    PrintAndPause(u64),
}

/// Decides what is done about a connection whose request failed, given the chain of its
/// error. One bad request never ends the loop.
pub fn report_connection(transport: ServedOn, chain: &[Option<IoFaultKind>]) -> (report:
    ConnectionReport)
    ensures
        report == if hung_up(chain@) {
            ConnectionReport::Quiet
        } else {
            match transport {
                ServedOn::UnixSocket => ConnectionReport::PrintAndLog,
                ServedOn::WindowsPipe => ConnectionReport::Print,
                ServedOn::Tcp => ConnectionReport::PrintAndPause(100),
            }
        },
{
    if is_client_disconnect(chain) {
        return ConnectionReport::Quiet;
    }
    match transport {
        ServedOn::UnixSocket => ConnectionReport::PrintAndLog,
        ServedOn::WindowsPipe => ConnectionReport::Print,
        ServedOn::Tcp => ConnectionReport::PrintAndPause(100),
    }
}

/// How long shutdown waits for the TCP worker, in milliseconds.
pub const TCP_STOP_MILLIS: u64 = 250;

/// What shutdown does about the TCP worker.
#[derive(Debug, Clone, Copy, PartialEq, Eq, Structural)]
pub enum TcpStopStep {
    /// Take up how it ended.
    Join,
    /// Cut its connection, and look again after this many milliseconds.
    CancelAndWait(u64),
    /// Leave it behind: the process ends next.
    Detach,
}

/// Decides what shutdown does about the TCP worker, which may hang in a read.
pub fn stop_tcp_worker(finished: bool, past_deadline: bool) -> (step: TcpStopStep)
    ensures
        step == if finished {
            TcpStopStep::Join
        } else if past_deadline {
            TcpStopStep::Detach
        } else {
            TcpStopStep::CancelAndWait(5)
        },
{
    if finished {
        TcpStopStep::Join
    } else if past_deadline {
        TcpStopStep::Detach
    } else {
        TcpStopStep::CancelAndWait(5)
    }
}

/// How many connections are served on threads of their own at once.
pub const MAX_INFLIGHT: usize = 64;

/// The connections that are being served on threads of their own.
#[derive(Debug)]
pub struct InFlight {
    count: usize,
}

/// Where a connection is served.
#[derive(Debug, Clone, Copy, PartialEq, Eq, Structural)]
pub enum Dispatch {
    /// On the thread that accepts, so that a flood slows accepting down.
    Inline,
    /// On a thread of its own.
    Thread,
}

impl InFlight {
    /// The connections that are being served.
    pub closed spec fn count(&self) -> nat {
        self.count as nat
    }

    #[verifier::type_invariant]
    spec fn is_bounded(self) -> bool {
        self.count <= MAX_INFLIGHT
    }

    /// No connection is being served.
    pub fn new() -> (inflight: InFlight)
        ensures
            inflight.count() == 0,
    {
        InFlight { count: 0 }
    }

    /// Takes up a connection: on a thread of its own while there are few enough.
    pub fn begin(&mut self) -> (dispatch: Dispatch)
        ensures
            final(self).count() <= MAX_INFLIGHT,
            old(self).count() >= MAX_INFLIGHT ==> dispatch == Dispatch::Inline
                && final(self).count() == old(self).count(),
            old(self).count() < MAX_INFLIGHT ==> dispatch == Dispatch::Thread
                && final(self).count() == old(self).count() + 1,
    {
        proof {
            use_type_invariant(&*self);
        }
        if self.count >= MAX_INFLIGHT {
            Dispatch::Inline
        } else {
            self.count = self.count + 1;
            Dispatch::Thread
        }
    }

    /// Takes up that a connection on a thread of its own has been served, or that its thread
    /// could not be spawned.
    pub fn finish(&mut self)
        requires
            old(self).count() > 0,
        ensures
            final(self).count() == old(self).count() - 1,
    {
        proof {
            use_type_invariant(&*self);
        }
        self.count = self.count - 1;
    }
}

/// The outcome of serving, given what ending the sessions and what ending the TCP worker
/// came to: the sessions' failure counts first.
pub fn serve_outcome(sessions: Result<(), String>, tcp: Result<(), String>) -> (outcome: Result<
    (),
    Fault,
>)
    ensures
        match sessions {
            Err(error) => outcome matches Err(fault) && fault@ == crate::fault::caused(
                "failed to terminate live sessions during daemon shutdown"@,
                error@,
            ),
            Ok(_) => match tcp {
                Err(error) => outcome matches Err(fault) && fault@ == plain(error@),
                Ok(_) => outcome is Ok,
            },
        },
{
    match sessions {
        Err(error) => Err(
            Fault::caused(
                "failed to terminate live sessions during daemon shutdown",
                error.as_str(),
            ),
        ),
        Ok(()) => match tcp {
            Err(error) => Err(Fault::plain(error.as_str())),
            Ok(()) => Ok(()),
        },
    }
}

/// What a daemon is told that finds another one serving its home.
pub fn acquire_serve_lock(coven_home: &str, windows: bool, acquired: bool) -> (outcome: Result<
    (),
    Fault,
>)
    ensures
        match outcome {
            Ok(()) => acquired,
            Err(fault) => !acquired && fault@ == plain(
                "another Coven daemon is already serving this home (holds "@
                    + crate::paths::inside_on(coven_home@, "daemon-serve.lock"@, windows)
                    + "); refusing to start a second daemon, which would contend for the SQLite store"@,
            ),
        },
{
    if acquired {
        return Ok(());
    }
    let mut text: String =
        "another Coven daemon is already serving this home (holds ".to_owned();
    text.append(crate::lifecycle::daemon_serve_lock_path(coven_home, windows).as_str());
    text.append(
        "); refusing to start a second daemon, which would contend for the SQLite store",
    );
    Err(Fault::plain(text.as_str()))
}

/// The sessions that an earlier daemon left running are given up: each of `states` that is
/// running becomes orphaned. Gives how many.
pub fn recover_orphaned_sessions(states: &mut Vec<String>) -> (count: usize)
    ensures
        final(states)@.len() == old(states)@.len(),
        forall|i: int|
            0 <= i < old(states)@.len() ==> (#[trigger] final(states)@[i])@ == if old(
                states,
            )@[i]@ == "running"@ {
                "orphaned"@
            } else {
                old(states)@[i]@
            },
        count == old(states)@.filter(|s: String| s@ == "running"@).len(),
{
    let mut count: usize = 0;
    let mut i: usize = 0;
    let ghost before = states@;
    let ghost running = |s: String| s@ == "running"@;
    assert(before.take(0).filter(running) =~= seq![]) by {
        reveal(Seq::filter);
    }
    while i < states.len()
        invariant
            i <= states@.len() == before.len(),
            before == old(states)@,
            running == (|s: String| s@ == "running"@),
            count == before.take(i as int).filter(running).len(),
            count <= i,
            forall|k: int|
                0 <= k < i ==> (#[trigger] states@[k])@ == if before[k]@ == "running"@ {
                    "orphaned"@
                } else {
                    before[k]@
                },
            forall|k: int| i <= k < states@.len() ==> #[trigger] states@[k] == before[k],
        decreases states@.len() - i,
    {
        proof {
            let next = before.take(i as int + 1);
            assert(next.drop_last() =~= before.take(i as int));
            assert(next.last() == before[i as int]);
            reveal(Seq::filter);
        }
        if crate::text::same_text(states[i].as_str(), "running") {
            states.set(i, "orphaned".to_owned());
            count = count + 1;
        }
        i += 1;
    }
    assert(before.take(before.len() as int) =~= before);
    count
}

/// A failure says that the peer hung up if and only if somewhere below it lies one of five
/// kinds; any other failure is reported.
pub proof fn hang_ups_are_of_five_kinds(chain: Seq<Option<IoFaultKind>>, i: int)
    ensures
        0 <= i < chain.len() && (chain[i] == Some(IoFaultKind::BrokenPipe) || chain[i] == Some(
            IoFaultKind::ConnectionReset,
        ) || chain[i] == Some(IoFaultKind::ConnectionAborted) || chain[i] == Some(
            IoFaultKind::UnexpectedEof,
        ) || chain[i] == Some(IoFaultKind::WriteZero)) ==> hung_up(chain),
        hung_up(chain) ==> exists|k: int|
            0 <= k < chain.len() && (#[trigger] chain[k] == Some(IoFaultKind::BrokenPipe)
                || chain[k] == Some(IoFaultKind::ConnectionReset) || chain[k] == Some(
                IoFaultKind::ConnectionAborted,
            ) || chain[k] == Some(IoFaultKind::UnexpectedEof) || chain[k] == Some(
                IoFaultKind::WriteZero,
            )),
{
    if 0 <= i < chain.len() && chain[i] is Some && is_hang_up(chain[i]->0) {
        assert(chain[i] matches Some(kind) && is_hang_up(kind));
    }
    if hung_up(chain) {
        let k = choose|k: int|
            0 <= k < chain.len() && (#[trigger] chain[k] matches Some(kind) && is_hang_up(kind));
        assert(chain[k] is Some && is_hang_up(chain[k]->0));
    }
}

/// Nobody listens where there is nothing to connect to, or the connection is refused; any
/// other failure tells nothing.
pub proof fn refusals_mean_that_nobody_listens(kind: IoFaultKind)
    ensures
        nobody_listens(kind) <==> kind == IoFaultKind::NotFound || kind
            == IoFaultKind::ConnectionRefused,
        TCP_STOP_MILLIS == 250,
        MAX_INFLIGHT == 64,
{
}

/// The foreign addresses among some are the texts of those that are not of the loopback range,
/// in their order.
pub proof fn foreign_addresses_are_named(
    a: Seq<ResolvedAddress>,
    address: ResolvedAddress,
    b: Seq<ResolvedAddress>,
)
    ensures
        foreign_addresses(Seq::empty()).len() == 0,
        address_loops(address.ip@) ==> foreign_addresses(a.push(address) + b)
            == foreign_addresses(a) + foreign_addresses(b),
        !address_loops(address.ip@) ==> foreign_addresses(a.push(address) + b)
            == foreign_addresses(a).push(address.text@) + foreign_addresses(b),
    decreases b.len(),
{
    let all = a.push(address) + b;
    let front = foreign_addresses(a.push(address));
    assert(a.push(address).drop_last() =~= a);
    if b.len() == 0 {
        assert(all =~= a.push(address));
        assert(front + foreign_addresses(b) =~= front);
    } else {
        assert(all.drop_last() =~= a.push(address) + b.drop_last());
        assert(all.last() == b.last());
        foreign_addresses_are_named(a, address, b.drop_last());
        assert(foreign_addresses(all.drop_last()) =~= front + foreign_addresses(b.drop_last()));
        assert(foreign_addresses(all) =~= front + foreign_addresses(b));
    }
}

/// The startup in its order, on a system with a socket: after a warning where allowed hosts
/// mean nothing, the lock, the store, the hooks, the transport, the record and its guard, the
/// gateway, the log, what is given up of an earlier daemon, the runtime and its schedulers,
/// the TCP transport where there is one, and the loop that answers.
pub proof fn sockets_start_in_order(tcp: bool, allowed_hosts: bool)
    ensures
        ({
            let steps = serve_steps(DaemonIpcPlatform::Unix, tcp, allowed_hosts);
            let k: int = if allowed_hosts && !tcp {
                1
            } else {
                0
            };
            &&& steps.len() == k + 16 + (if tcp {
                1int
            } else {
                0
            })
            &&& k == 1 ==> steps[0] == ServeStep::WarnAllowedHosts
            &&& steps[k] == ServeStep::AcquireServeLock
            &&& steps[k + 1] == ServeStep::InitializeStore
            &&& steps[k + 2] == ServeStep::InstallPanicHook
            &&& steps[k + 3] == ServeStep::InstallSignalHandlers
            &&& steps[k + 4] == ServeStep::BindTransport
            &&& steps[k + 5] == ServeStep::WriteStatus
            &&& steps[k + 6] == ServeStep::ArmShutdownGuard
            &&& steps[k + 7] == ServeStep::StartGateway
            &&& steps[k + 8] == ServeStep::LogStart
            &&& steps[k + 9] == ServeStep::RecoverOrphanedSessions
            &&& steps[k + 10] == ServeStep::RecoverStaleCreatedSessions
            &&& steps[k + 11] == ServeStep::UnmountOrphans
            &&& steps[k + 12] == ServeStep::StartRuntime
            &&& steps[k + 13] == ServeStep::StartThreadsScheduler
            &&& steps[k + 14] == ServeStep::StartMaintenance
            &&& tcp ==> steps[k + 15] == ServeStep::StartTcp
            &&& steps.last() == ServeStep::AcceptLoop
        }),
{
}

/// The startup in its order, on Windows: the lock, the job that ties the children, the
/// transport, the gateway, the store, the record, what is given up of an earlier daemon, the
/// runtime and its schedulers, the TCP transport where there is one, and the loop that answers.
pub proof fn pipes_start_in_order(tcp: bool, allowed_hosts: bool)
    ensures
        ({
            let steps = serve_steps(DaemonIpcPlatform::Windows, tcp, allowed_hosts);
            &&& steps.len() == 12 + (if tcp {
                1int
            } else {
                0
            })
            &&& steps[0] == ServeStep::AcquireServeLock
            &&& steps[1] == ServeStep::InstallLifetimeJob
            &&& steps[2] == ServeStep::BindTransport
            &&& steps[3] == ServeStep::StartGateway
            &&& steps[4] == ServeStep::InitializeStore
            &&& steps[5] == ServeStep::WriteStatus
            &&& steps[6] == ServeStep::RecoverOrphanedSessions
            &&& steps[7] == ServeStep::UnmountOrphans
            &&& steps[8] == ServeStep::StartRuntime
            &&& steps[9] == ServeStep::StartThreadsScheduler
            &&& steps[10] == ServeStep::StartMaintenance
            &&& tcp ==> steps[11] == ServeStep::StartTcp
            &&& steps.last() == ServeStep::AcceptLoop
        }),
{
}

/// The daemon listens on this machine alone: an address of any other, or none at all, is
/// refused, and the former are named.
pub proof fn listeners_stay_on_this_machine(
    addresses: &[ResolvedAddress],
    checked: Result<(), Fault>,
    i: int,
)
    requires
        call_ensures(ensure_loopback_addrs, (addresses,), checked),
    ensures
        addresses@.len() == 0 ==> (checked matches Err(fault) && fault@ == plain(
            "TCP listener address did not resolve to any sockets"@,
        )),
        checked is Ok && 0 <= i < addresses@.len() ==> address_loops(addresses@[i].ip@),
        checked is Ok <==> addresses@.len() > 0 && foreign_addresses(addresses@).len() == 0,
        checked matches Err(fault) ==> (addresses@.len() > 0 ==> fault@ == plain(
            "refusing to bind Coven TCP API to non-loopback address(es): "@ + join_with(
                foreign_addresses(addresses@),
                ", "@,
            ) + "; use 127.0.0.1 or ::1"@,
        )),
{
    if checked is Ok && 0 <= i < addresses@.len() {
        let a = addresses@.take(i);
        let b = addresses@.skip(i + 1);
        assert(addresses@ =~= a.push(addresses@[i]) + b);
        foreign_addresses_are_named(a, addresses@[i], b);
    }
}

/// The loop that accepts ends where it is asked to, serves each connection, pauses a moment
/// where there is none, and reports any other failure; the TCP loop closes what comes in while
/// it is asked to end.
pub proof fn accept_loops_end_when_asked(
    before: bool,
    accepted: Accepted,
    after: bool,
    local: AcceptStep,
    tcp: AcceptStep,
)
    requires
        call_ensures(accept_step, (before, accepted, after), local),
        call_ensures(tcp_accept_step, (before, accepted, after), tcp),
    ensures
        before ==> local == AcceptStep::Stop && tcp == AcceptStep::Stop,
        !before && accepted is Connection ==> local == AcceptStep::Serve,
        !before && accepted is Connection && !after ==> tcp == AcceptStep::Serve,
        !before && accepted is Connection && after ==> tcp == AcceptStep::CloseAndStop,
        !before && accepted == Accepted::Failed(IoFaultKind::WouldBlock) ==> local
            == AcceptStep::Retry(25) && tcp == AcceptStep::Retry(25),
        !before && accepted == Accepted::Failed(IoFaultKind::Interrupted) && after ==> local
            == AcceptStep::Stop,
        !before && accepted == Accepted::Failed(IoFaultKind::Interrupted) && !after ==> local
            == AcceptStep::Report(100),
        !before ==> (accepted matches Accepted::Failed(kind) ==> (kind != IoFaultKind::WouldBlock
            && kind != IoFaultKind::Interrupted ==> local == AcceptStep::Report(100)) && (kind
            != IoFaultKind::WouldBlock ==> tcp == AcceptStep::Report(100))),
{
}

/// A peer that hung up is not reported; any other failure of a request is, as its transport
/// has it, and none ends the loop.
pub proof fn failed_requests_are_reported(
    transport: ServedOn,
    chain: &[Option<IoFaultKind>],
    report: ConnectionReport,
    finished: bool,
    past_deadline: bool,
    stop: TcpStopStep,
)
    requires
        call_ensures(report_connection, (transport, chain), report),
        call_ensures(stop_tcp_worker, (finished, past_deadline), stop),
    ensures
        report == ConnectionReport::Quiet <==> hung_up(chain@),
        !hung_up(chain@) && transport == ServedOn::UnixSocket ==> report
            == ConnectionReport::PrintAndLog,
        !hung_up(chain@) && transport == ServedOn::WindowsPipe ==> report
            == ConnectionReport::Print,
        !hung_up(chain@) && transport == ServedOn::Tcp ==> report
            == ConnectionReport::PrintAndPause(100),
        stop == TcpStopStep::Join <==> finished,
        stop == TcpStopStep::Detach <==> !finished && past_deadline,
        !finished && !past_deadline ==> stop == TcpStopStep::CancelAndWait(5),
{
}

/// At most 64 connections are served on threads of their own; the next is served where it was
/// accepted.
pub proof fn floods_slow_accepting_down(
    inflight: &mut InFlight,
    dispatch: Dispatch,
    ending: &mut InFlight,
)
    requires
        call_ensures(InFlight::begin, (inflight,), dispatch),
        call_ensures(InFlight::finish, (ending,), ()),
    ensures
        dispatch == Dispatch::Thread <==> old(inflight).count() < 64,
        dispatch == Dispatch::Thread ==> final(inflight).count() == old(inflight).count() + 1,
        dispatch == Dispatch::Inline ==> final(inflight).count() == old(inflight).count(),
        final(ending).count() == old(ending).count() - 1,
{
}

/// Serving ends well if and only if the sessions and the TCP worker did; the sessions' failure
/// is told first. A second daemon for one home is refused.
pub proof fn serving_ends_with_its_failures(
    sessions: Result<(), String>,
    tcp: Result<(), String>,
    outcome: Result<(), Fault>,
    coven_home: &str,
    windows: bool,
    acquired: bool,
    locked: Result<(), Fault>,
    port: u16,
    fleet: bool,
)
    requires
        call_ensures(serve_outcome, (sessions, tcp), outcome),
        call_ensures(acquire_serve_lock, (coven_home, windows, acquired), locked),
        call_ensures(listener_is_fleet_only, (port,), fleet),
    ensures
        outcome is Ok <==> sessions is Ok && tcp is Ok,
        sessions matches Err(error) ==> (outcome matches Err(fault) && fault@
            == crate::fault::caused(
            "failed to terminate live sessions during daemon shutdown"@,
            error@,
        )),
        sessions is Ok ==> (tcp matches Err(error) ==> (outcome matches Err(fault) && fault@
            == plain(error@))),
        locked is Ok <==> acquired,
        locked matches Err(fault) ==> fault@ == plain(
            "another Coven daemon is already serving this home (holds "@
                + crate::paths::inside_on(coven_home@, "daemon-serve.lock"@, windows)
                + "); refusing to start a second daemon, which would contend for the SQLite store"@,
        ),
        fleet <==> port == 8787,
{
}

/// A session that was created and never launched is given up ten minutes after.
pub proof fn stale_sessions_are_ten_minutes_old(seconds: i64, nanos: u32, cutoff: String)
    requires
        call_ensures(recover_stale_created_sessions, (seconds, nanos), cutoff),
    ensures
        cutoff@ == crate::digest::rfc3339(seconds - 600, nanos as int, true),
{
}

/// Every session that an earlier daemon left running is orphaned, and no other changes.
pub proof fn running_sessions_are_orphaned(states: &mut Vec<String>, count: usize, i: int)
    requires
        call_ensures(recover_orphaned_sessions, (states,), count),
        0 <= i < old(states)@.len(),
    ensures
        final(states)@.len() == old(states)@.len(),
        old(states)@[i]@ == "running"@ ==> final(states)@[i]@ == "orphaned"@,
        old(states)@[i]@ != "running"@ ==> final(states)@[i]@ == old(states)@[i]@,
{
}

/// The mounts that were taken back are named, where there are any.
pub proof fn reclaimed_mounts_are_named(reclaimed: &[String], notice: Option<String>)
    requires
        call_ensures(recover_orphaned_afs_mounts, (reclaimed,), notice),
    ensures
        notice is None <==> reclaimed@.len() == 0,
        notice matches Some(text) ==> text@ == "unmounted orphaned afs sessions: "@ + join_with(
            views(reclaimed@),
            ", "@,
        ),
{
}

/// The steps of a startup are those of its platform.
pub proof fn startups_follow_their_steps(
    platform: DaemonIpcPlatform,
    tcp: bool,
    allowed_hosts: bool,
    steps: Vec<ServeStep>,
)
    requires
        call_ensures(serve_forever, (platform, tcp, allowed_hosts), steps),
    ensures
        steps@ == serve_steps(platform, tcp, allowed_hosts),
        steps@.last() == ServeStep::AcceptLoop,
        steps@.contains(ServeStep::StartTcp) <==> tcp,
{
    match platform {
        DaemonIpcPlatform::Unix => sockets_start_in_order(tcp, allowed_hosts),
        DaemonIpcPlatform::Windows => pipes_start_in_order(tcp, allowed_hosts),
    }
    if tcp {
        let at: int = steps@.len() - 2;
        assert(steps@[at] == ServeStep::StartTcp);
    }
}

} // verus!
