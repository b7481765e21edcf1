//! The daemon's life cycle: where its files are, whether it runs, how it is started and
//! stopped.

use crate::fault::{caused, plain, Fault};
use crate::digest::{default_hash, default_hash_of};
use crate::numbers::{decimal, decimal_text, hex_digits, hex_word};
use crate::paths::{inside_on, path_inside_on};
use crate::text::{
    joined, pieces, same_text, split_text, trim_text, trimmed, views,
};
use vstd::prelude::*;
use vstd::string::*;

verus! {

/// What the daemon records of itself.
#[derive(Debug)]
pub struct DaemonStatus {
    pub pid: u32,
    pub started_at: String,
    pub socket: String,
}

impl DaemonStatus {
    /// A copy of the record.
    pub fn copy(&self) -> (copied: DaemonStatus)
        ensures
            copied == *self,
    {
        DaemonStatus {
            pid: self.pid,
            started_at: self.started_at.clone(),
            socket: self.socket.clone(),
        }
    }
}

/// Whether the recorded daemon answers.
#[derive(Debug)]
pub enum DaemonStatusState {
    /// It answers, and says that it is the recorded one.
    Running(DaemonStatus),
    /// Its process is alive, and it does not answer.
    Stale(DaemonStatus),
}

/// How the daemon's process is spawned.
#[derive(Debug)]
pub struct DaemonSpawnSpec {
    pub program: String,
    pub args: Vec<String>,
    pub coven_home: String,
}

/// How long stopping waits for the daemon to exit.
pub const STOP_WAIT_MILLIS: u64 = 2000;

/// How long starting waits for the daemon to answer.
pub const START_WAIT_MILLIS: u64 = 2000;

/// How old a session must be that was created and never launched, to be given up.
pub const STALE_CREATED_TTL_SECS: i64 = 600;

/// The file with the daemon's record of itself.
pub fn daemon_status_path(coven_home: &str, windows: bool) -> (path: String)
    ensures
        path@ == inside_on(coven_home@, "daemon.json"@, windows),
{
    path_inside_on(coven_home, "daemon.json", windows)
}

/// The socket on which the daemon answers.
pub fn daemon_socket_path(coven_home: &str, windows: bool) -> (path: String)
    ensures
        path@ == inside_on(coven_home@, "coven.sock"@, windows),
{
    path_inside_on(coven_home, "coven.sock", windows)
}

/// The lock that starting and stopping the daemon hold.
pub fn daemon_lifecycle_lock_path(coven_home: &str, windows: bool) -> (path: String)
    ensures
        path@ == inside_on(coven_home@, "daemon.lock"@, windows),
{
    path_inside_on(coven_home, "daemon.lock", windows)
}

/// The lock that a serving daemon holds for its whole life.
pub fn daemon_serve_lock_path(coven_home: &str, windows: bool) -> (path: String)
    ensures
        path@ == inside_on(coven_home@, "daemon-serve.lock"@, windows),
{
    path_inside_on(coven_home, "daemon-serve.lock", windows)
}

/// The log of what the daemon recovered from.
pub fn daemon_recovery_log_path(coven_home: &str, windows: bool) -> (path: String)
    ensures
        path@ == inside_on(coven_home@, "daemon-recovery.log"@, windows),
{
    path_inside_on(coven_home, "daemon-recovery.log", windows)
}

/// The daemon's store.
pub fn store_path(coven_home: &str, windows: bool) -> (path: String)
    ensures
        path@ == inside_on(coven_home@, "coven.sqlite3"@, windows),
{
    path_inside_on(coven_home, "coven.sqlite3", windows)
}

/// The directory of a path: what stands before its last slash.
pub open spec fn directory_of(path: Seq<char>) -> Seq<char>
    decreases path.len(),
{
    if path.len() == 0 {
        path
    } else if path.last() == '/' {
        path.drop_last()
    } else {
        directory_of(path.drop_last())
    }
}

/// The socket lies directly in the home.
pub proof fn socket_lies_in_the_home(home: Seq<char>)
    requires
        home.len() > 0,
        home.last() != '/',
    ensures
        directory_of(inside_on(home, "coven.sock"@, false)) == home,
{
    reveal_strlit("coven.sock");
    let path = inside_on(home, "coven.sock"@, false);
    assert(path =~= home + seq!['/'] + "coven.sock"@);
    directory_of_name(home, "coven.sock"@, 10);
    assert("coven.sock"@.take(10) =~= "coven.sock"@);
}

proof fn directory_of_name(home: Seq<char>, name: Seq<char>, n: int)
    requires
        0 <= n <= name.len(),
        forall|i: int| 0 <= i < name.len() ==> name[i] != '/',
    ensures
        directory_of(home + seq!['/'] + name.take(n)) == home,
    decreases n,
{
    let path = home + seq!['/'] + name.take(n);
    if n == 0 {
        assert(path.last() == '/');
        assert(path.drop_last() =~= home);
    } else {
        assert(path.last() == name[n - 1]);
        assert(path.drop_last() =~= home + seq!['/'] + name.take(n - 1));
        directory_of_name(home, name, n - 1);
        if n == name.len() {
            assert(name.take(n) =~= name);
        }
    }
    if n == name.len() {
        assert(name.take(n) =~= name);
    }
}

/// Which kind of local transport a system has.
#[derive(Debug, Clone, Copy, PartialEq, Eq, Structural)]
pub enum DaemonIpcPlatform {
    Unix,
    Windows,
}

/// The name of the pipe that stands for a home.
pub open spec fn pipe_name_of(coven_home: Seq<char>) -> Seq<char> {
    "coven-daemon-"@ + hex_digits(default_hash(coven_home) as nat, 16) + ".sock"@
}

/// The name of the pipe that stands for a home.
pub fn daemon_windows_pipe_name(coven_home: &str) -> (name: String)
    ensures
        name@ == pipe_name_of(coven_home@),
{
    let digits = hex_word(default_hash_of(coven_home));
    joined(joined("coven-daemon-", digits.as_str()).as_str(), ".sock")
}

/// The full name of the pipe that stands for a home.
pub fn windows_pipe_path(coven_home: &str) -> (path: String)
    ensures
        path@ == "\\\\.\\pipe\\"@ + pipe_name_of(coven_home@),
{
    joined("\\\\.\\pipe\\", daemon_windows_pipe_name(coven_home).as_str())
}

/// What a starting daemon records as its transport.
pub open spec fn startup_socket_of(coven_home: Seq<char>, platform: DaemonIpcPlatform) -> Seq<
    char,
> {
    match platform {
        DaemonIpcPlatform::Unix => inside_on(coven_home, "coven.sock"@, false),
        DaemonIpcPlatform::Windows => pipe_name_of(coven_home),
    }
}

/// What a starting daemon records as its transport.
pub fn daemon_startup_status_socket_for_platform(
    coven_home: &str,
    platform: DaemonIpcPlatform,
) -> (socket: String)
    ensures
        socket@ == startup_socket_of(coven_home@, platform),
{
    match platform {
        DaemonIpcPlatform::Unix => daemon_socket_path(coven_home, false),
        DaemonIpcPlatform::Windows => daemon_windows_pipe_name(coven_home),
    }
}

/// What is said of a path that belongs to someone else.
pub open spec fn foreign_owner_text(path: Seq<char>, owner: u32, user: u32) -> Seq<char> {
    "refusing to use "@ + path + ": it is owned by uid "@ + decimal(owner as nat)
        + ", not the current user (uid "@ + decimal(user as nat) + ")"@
}

/// Refuses a path that does not belong to the user.
pub fn check_owned_by_current_user(path: &str, owner_uid: u32, euid: u32) -> (checked: Result<
    (),
    Fault,
>)
    ensures
        match checked {
            Ok(()) => owner_uid == euid,
            Err(fault) => owner_uid != euid && fault@ == plain(
                foreign_owner_text(path@, owner_uid, euid),
            ),
        },
{
    if owner_uid == euid {
        return Ok(());
    }
    let mut text: String = "refusing to use ".to_owned();
    text.append(path);
    text.append(": it is owned by uid ");
    text.append(decimal_text(owner_uid as u64).as_str());
    text.append(", not the current user (uid ");
    text.append(decimal_text(euid as u64).as_str());
    text.append(")");
    Err(Fault::plain(text.as_str()))
}

/// What stands at a path, without following a link.
#[derive(Debug, Clone, Copy, PartialEq, Eq, Structural)]
pub struct PathFacts {
    pub is_symlink: bool,
    pub is_socket: bool,
    pub owner_uid: u32,
}

/// Refuses a home that is a link or belongs to someone else. A home that cannot be looked
/// at, such as one that is not there yet, is not refused.
pub fn ensure_private_coven_home(
    coven_home: &str,
    facts: Option<PathFacts>,
    euid: u32,
) -> (checked: Result<(), Fault>)
    ensures
        match facts {
            None => checked is Ok,
            Some(found) => match checked {
                Ok(()) => !found.is_symlink && found.owner_uid == euid,
                Err(fault) => if found.is_symlink {
                    fault@ == plain(
                        "refusing to use Coven home "@ + coven_home@ + ": path is a symlink"@,
                    )
                } else {
                    found.owner_uid != euid && fault@ == plain(
                        foreign_owner_text(coven_home@, found.owner_uid, euid),
                    )
                },
            },
        },
{
    match facts {
        None => Ok(()),
        Some(found) => {
            if found.is_symlink {
                let text = joined(
                    joined("refusing to use Coven home ", coven_home).as_str(),
                    ": path is a symlink",
                );
                return Err(Fault::plain(text.as_str()));
            }
            check_owned_by_current_user(coven_home, found.owner_uid, euid)
        },
    }
}

/// What to do about the path of the API socket before it is bound.
#[derive(Debug)]
pub enum BindStep {
    /// Nothing is there: bind.
    Bind,
    /// A socket of ours is there: ask whether a daemon answers on it.
    AskIncumbent,
    /// Take the dead socket away, then bind.
    RemoveAndBind,
    /// Refuse.
    Refuse(Fault),
}

/// The start of what a refused bind is told.
pub open spec fn bind_refused(socket: Seq<char>) -> Seq<char> {
    "refusing to bind Coven API socket "@ + socket
}

/// Decides on what stands at the socket's path. A link, another kind of file and a socket
/// of someone else are left alone.
pub fn bind_api_socket(
    coven_home: &str,
    socket: &str,
    socket_directory: &str,
    found: crate::fault::Probe<PathFacts>,
    euid: u32,
) -> (step: BindStep)
    ensures
        ({
            let outside = bind_refused(socket@) + ": resolves outside Coven home "@ + coven_home@;
            match step {
                BindStep::Bind => socket_directory@ == coven_home@ && found is Missing,
                BindStep::AskIncumbent => socket_directory@ == coven_home@ && (
                found matches crate::fault::Probe::Found(facts) && !facts.is_symlink
                    && facts.is_socket && facts.owner_uid == euid),
                BindStep::RemoveAndBind => false,
                BindStep::Refuse(fault) => if socket_directory@ != coven_home@ {
                    fault@ == plain(outside)
                } else {
                    match found {
                        crate::fault::Probe::Missing => false,
                        crate::fault::Probe::Failed(error) => fault@ == caused(
                            "failed to inspect socket path "@ + socket@,
                            error@,
                        ),
                        crate::fault::Probe::Found(facts) => if facts.is_symlink {
                            fault@ == plain(bind_refused(socket@) + ": path is a symlink"@)
                        } else if !facts.is_socket {
                            fault@ == plain(
                                bind_refused(socket@) + ": path exists and is not a socket"@,
                            )
                        } else {
                            facts.owner_uid != euid && fault@ == plain(
                                foreign_owner_text(socket@, facts.owner_uid, euid),
                            )
                        },
                    }
                },
            }
        }),
{
    let refused = joined("refusing to bind Coven API socket ", socket);
    if !same_text(socket_directory, coven_home) {
        let text = joined(
            joined(refused.as_str(), ": resolves outside Coven home ").as_str(),
            coven_home,
        );
        return BindStep::Refuse(Fault::plain(text.as_str()));
    }
    match found {
        crate::fault::Probe::Missing => BindStep::Bind,
        crate::fault::Probe::Failed(error) => BindStep::Refuse(
            Fault::caused(
                joined("failed to inspect socket path ", socket).as_str(),
                error.as_str(),
            ),
        ),
        crate::fault::Probe::Found(facts) => {
            if facts.is_symlink {
                let text = joined(refused.as_str(), ": path is a symlink");
                return BindStep::Refuse(Fault::plain(text.as_str()));
            }
            if !facts.is_socket {
                let text = joined(refused.as_str(), ": path exists and is not a socket");
                return BindStep::Refuse(Fault::plain(text.as_str()));
            }
            match check_owned_by_current_user(socket, facts.owner_uid, euid) {
                Ok(()) => BindStep::AskIncumbent,
                Err(fault) => BindStep::Refuse(fault),
            }
        },
    }
}

/// Decides on a socket of ours once it has been asked: only a socket on which no healthy
/// daemon answered may be taken away. `incumbent` is the pid that a healthy daemon gave.
pub fn bind_after_probe(socket: &str, incumbent: Option<u32>) -> (step: BindStep)
    ensures
        match incumbent {
            None => step is RemoveAndBind,
            Some(pid) => step matches BindStep::Refuse(fault) && fault@ == plain(
                "a healthy Coven daemon (pid "@ + decimal(pid as nat) + ") is already serving "@
                    + socket@ + "; refusing to take over"@,
            ),
        },
{
    match incumbent {
        None => BindStep::RemoveAndBind,
        Some(pid) => {
            let mut text: String = "a healthy Coven daemon (pid ".to_owned();
            text.append(decimal_text(pid as u64).as_str());
            text.append(") is already serving ");
            text.append(socket);
            text.append("; refusing to take over");
            BindStep::Refuse(Fault::plain(text.as_str()))
        },
    }
}

/// The arguments that hand one allowed host each to the daemon.
pub open spec fn host_args(hosts: Seq<Seq<char>>) -> Seq<Seq<char>>
    decreases hosts.len(),
{
    if hosts.len() == 0 {
        seq![]
    } else {
        let host = trimmed(hosts.last());
        let rest = host_args(hosts.drop_last());
        if host.len() == 0 {
            rest
        } else {
            rest.push("--allow-host"@).push(host)
        }
    }
}

/// The arguments of a daemon that serves, given what the environment says of its TCP
/// address and of its allowed hosts.
pub open spec fn serve_args(tcp: Option<Seq<char>>, allowed_hosts: Option<Seq<char>>) -> Seq<
    Seq<char>,
> {
    let base = seq!["daemon"@, "serve"@];
    let with_tcp = match tcp {
        Some(address) => if address.len() > 0 {
            base + seq!["--tcp"@, address]
        } else {
            base
        },
        None => base,
    };
    match allowed_hosts {
        Some(hosts) => if hosts.len() > 0 {
            with_tcp + host_args(pieces(hosts, ','))
        } else {
            with_tcp
        },
        None => with_tcp,
    }
}

/// How the daemon's process is spawned, given what the environment says of its TCP address
/// and of its allowed hosts.
pub fn background_server_spec(
    current_exe: &str,
    coven_home: &str,
    tcp: Option<&str>,
    allowed_hosts: Option<&str>,
) -> (spec: DaemonSpawnSpec)
    ensures
        spec.program@ == current_exe@,
        spec.coven_home@ == coven_home@,
        views(spec.args@) == serve_args(
            match tcp {
                Some(address) => Some(address@),
                None => None,
            },
            match allowed_hosts {
                Some(hosts) => Some(hosts@),
                None => None,
            },
        ),
{
    let mut args: Vec<String> = Vec::new();
    args.push("daemon".to_owned());
    args.push("serve".to_owned());
    assert(views(args@) =~= seq!["daemon"@, "serve"@]);
    if let Some(address) = tcp {
        if !address.is_empty() {
            let ghost earlier = views(args@);
            args.push("--tcp".to_owned());
            args.push(address.to_owned());
            assert(views(args@) =~= earlier + seq!["--tcp"@, address@]);
        }
    }
    if let Some(hosts) = allowed_hosts {
        if !hosts.is_empty() {
            let parts = split_text(hosts, ',');
            let ghost base = views(args@);
            let mut i: usize = 0;
            assert(views(parts@).take(0) =~= seq![]);
            assert(base + host_args(views(parts@).take(0)) =~= base);
            while i < parts.len()
                invariant
                    i <= parts@.len(),
                    views(args@) == base + host_args(views(parts@).take(i as int)),
                decreases parts@.len() - i,
            {
                let ghost next = views(parts@).take(i as int + 1);
                assert(next.drop_last() =~= views(parts@).take(i as int));
                assert(next.last() == parts@[i as int]@);
                let host = trim_text(parts[i].as_str());
                if !host.as_str().is_empty() {
                    let ghost earlier = views(args@);
                    let ghost name = host@;
                    args.push("--allow-host".to_owned());
                    args.push(host);
                    assert(views(args@) =~= earlier.push("--allow-host"@).push(name));
                    assert(views(args@) =~= base + host_args(next));
                }
                i += 1;
            }
            assert(views(parts@).take(parts@.len() as int) =~= views(parts@));
        }
    }
    DaemonSpawnSpec {
        program: current_exe.to_owned(),
        args,
        coven_home: coven_home.to_owned(),
    }
}

/// The record of a daemon that has just been spawned.
pub fn start_background_server(
    coven_home: &str,
    pid: u32,
    started_at: String,
    platform: DaemonIpcPlatform,
) -> (status: DaemonStatus)
    ensures
        status.pid == pid,
        status.started_at@ == started_at@,
        status.socket@ == startup_socket_of(coven_home@, platform),
{
    DaemonStatus {
        pid,
        started_at,
        socket: daemon_startup_status_socket_for_platform(coven_home, platform),
    }
}

/// The pipe of a home is named by sixteen hexadecimal digits of the home's hash.
pub proof fn pipes_are_named_by_their_home(coven_home: Seq<char>)
    ensures
        pipe_name_of(coven_home) == "coven-daemon-"@ + hex_digits(
            default_hash(coven_home) as nat,
            16,
        ) + ".sock"@,
        startup_socket_of(coven_home, DaemonIpcPlatform::Windows) == pipe_name_of(coven_home),
        coven_home.len() > 0 && coven_home.last() != '/' ==> startup_socket_of(
            coven_home,
            DaemonIpcPlatform::Unix,
        ) == coven_home + "/coven.sock"@,
        STOP_WAIT_MILLIS == 2000,
        START_WAIT_MILLIS == 2000,
        STALE_CREATED_TTL_SECS == 600,
{
    reveal_strlit("/coven.sock");
    reveal_strlit("coven.sock");
    if coven_home.len() > 0 && coven_home.last() != '/' {
        assert(startup_socket_of(coven_home, DaemonIpcPlatform::Unix) =~= coven_home
            + "/coven.sock"@);
    }
}

/// A path of someone else is refused with both users named.
pub proof fn foreign_paths_are_named(path: Seq<char>, owner: u32, user: u32)
    ensures
        foreign_owner_text(path, owner, user) == "refusing to use "@ + path
            + ": it is owned by uid "@ + decimal(owner as nat) + ", not the current user (uid "@
            + decimal(user as nat) + ")"@,
        bind_refused(path) == "refusing to bind Coven API socket "@ + path,
{
}

/// Each host that is not blank is handed on behind its own option, without the space around
/// it, in its order; a blank one is left out.
pub proof fn hosts_are_handed_on(a: Seq<Seq<char>>, host: Seq<char>, b: Seq<Seq<char>>)
    ensures
        host_args(Seq::empty()).len() == 0,
        trimmed(host).len() == 0 ==> host_args(a.push(host) + b) == host_args(a) + host_args(b),
        trimmed(host).len() > 0 ==> host_args(a.push(host) + b) == host_args(a) + seq![
            "--allow-host"@,
            trimmed(host),
        ] + host_args(b),
    decreases b.len(),
{
    let all = a.push(host) + b;
    let own = if trimmed(host).len() == 0 {
        Seq::<Seq<char>>::empty()
    } else {
        seq!["--allow-host"@, trimmed(host)]
    };
    if b.len() == 0 {
        assert(all =~= a.push(host));
        assert(all.drop_last() =~= a);
        assert(host_args(all) =~= host_args(a) + own);
        assert(host_args(a) + host_args(b) =~= host_args(a));
        assert(host_args(a) + own + host_args(b) =~= host_args(a) + own);
    } else {
        assert(all.drop_last() =~= a.push(host) + b.drop_last());
        assert(all.last() == b.last());
        hosts_are_handed_on(a, host, b.drop_last());
        assert(host_args(all.drop_last()) =~= host_args(a) + own + host_args(b.drop_last()));
        assert(host_args(all) =~= host_args(a) + own + host_args(b));
        assert(host_args(a) + Seq::<Seq<char>>::empty() + host_args(b) =~= host_args(a)
            + host_args(b));
    }
}

/// The daemon is told to serve; an address that is set is handed on, and so are the hosts that
/// are set, parted at commas. What is empty counts as not set.
pub proof fn daemons_are_told_to_serve(
    tcp: Option<Seq<char>>,
    allowed_hosts: Option<Seq<char>>,
)
    ensures
        ({
            let args = serve_args(tcp, allowed_hosts);
            let addressed = tcp matches Some(address) && address.len() > 0;
            let hosted = allowed_hosts matches Some(hosts) && hosts.len() > 0;
            let n: int = if addressed {
                4
            } else {
                2
            };
            &&& args.len() >= n
            &&& args[0] == "daemon"@
            &&& args[1] == "serve"@
            &&& addressed ==> args[2] == "--tcp"@ && args[3] == tcp->0
            &&& hosted ==> args.skip(n) == host_args(pieces(allowed_hosts->0, ','))
            &&& !hosted ==> args.len() == n
        }),
{
    let args = serve_args(tcp, allowed_hosts);
    let n: int = if tcp matches Some(address) && address.len() > 0 {
        4
    } else {
        2
    };
    if allowed_hosts matches Some(hosts) && hosts.len() > 0 {
        assert(args.skip(n) =~= host_args(pieces(allowed_hosts->0, ',')));
    }
}

/// The daemon's files lie directly in its home, each under its own name.
pub proof fn files_lie_in_the_home(
    coven_home: &str,
    windows: bool,
    status: String,
    socket: String,
    lock: String,
    serve_lock: String,
    log: String,
    store: String,
)
    requires
        call_ensures(daemon_status_path, (coven_home, windows), status),
        call_ensures(daemon_socket_path, (coven_home, windows), socket),
        call_ensures(daemon_lifecycle_lock_path, (coven_home, windows), lock),
        call_ensures(daemon_serve_lock_path, (coven_home, windows), serve_lock),
        call_ensures(daemon_recovery_log_path, (coven_home, windows), log),
        call_ensures(store_path, (coven_home, windows), store),
    ensures
        status@ == inside_on(coven_home@, "daemon.json"@, windows),
        socket@ == inside_on(coven_home@, "coven.sock"@, windows),
        lock@ == inside_on(coven_home@, "daemon.lock"@, windows),
        serve_lock@ == inside_on(coven_home@, "daemon-serve.lock"@, windows),
        log@ == inside_on(coven_home@, "daemon-recovery.log"@, windows),
        store@ == inside_on(coven_home@, "coven.sqlite3"@, windows),
{
}

/// A path is used only where it belongs to the user, and a home only where it is no link
/// either; a home that is not there is not refused.
pub proof fn foreign_paths_are_refused(
    path: &str,
    owner_uid: u32,
    euid: u32,
    checked: Result<(), Fault>,
    facts: Option<PathFacts>,
    private: Result<(), Fault>,
)
    requires
        call_ensures(check_owned_by_current_user, (path, owner_uid, euid), checked),
        call_ensures(ensure_private_coven_home, (path, facts, euid), private),
    ensures
        checked is Ok <==> owner_uid == euid,
        checked matches Err(fault) ==> fault@ == plain(foreign_owner_text(path@, owner_uid, euid)),
        private is Ok <==> (facts matches Some(found) ==> !found.is_symlink && found.owner_uid
            == euid),
        facts matches Some(found) ==> {
            &&& found.is_symlink ==> (private matches Err(fault) && fault@ == plain(
                "refusing to use Coven home "@ + path@ + ": path is a symlink"@,
            ))
            &&& !found.is_symlink && found.owner_uid != euid ==> (private matches Err(fault)
                && fault@ == plain(foreign_owner_text(path@, found.owner_uid, euid)))
        },
{
}

/// A socket is bound only in its home: at once where nothing is there, and after asking where
/// a socket of the user's own is; whatever else stands there is left alone. A socket is taken
/// away only where no healthy daemon answers on it.
pub proof fn sockets_of_others_are_left(
    coven_home: &str,
    socket: &str,
    directory: &str,
    found: crate::fault::Probe<PathFacts>,
    euid: u32,
    step: BindStep,
    incumbent: Option<u32>,
    after: BindStep,
)
    requires
        call_ensures(bind_api_socket, (coven_home, socket, directory, found, euid), step),
        call_ensures(bind_after_probe, (socket, incumbent), after),
    ensures
        step is Bind <==> directory@ == coven_home@ && found is Missing,
        step is AskIncumbent <==> directory@ == coven_home@ && (found matches
            crate::fault::Probe::Found(facts) && !facts.is_symlink && facts.is_socket
            && facts.owner_uid == euid),
        step !is RemoveAndBind,
        directory@ != coven_home@ ==> (step matches BindStep::Refuse(fault) && fault@ == plain(
            "refusing to bind Coven API socket "@ + socket@ + ": resolves outside Coven home "@
                + coven_home@,
        )),
        after is RemoveAndBind <==> incumbent is None,
        incumbent matches Some(pid) ==> (after matches BindStep::Refuse(fault) && fault@ == plain(
            "a healthy Coven daemon (pid "@ + decimal(pid as nat) + ") is already serving "@
                + socket@ + "; refusing to take over"@,
        )),
{
}

/// The daemon's process is this program, told to serve this home; what is recorded of it is
/// its process, its start and its transport.
pub proof fn daemons_are_spawned_for_their_home(
    current_exe: &str,
    coven_home: &str,
    tcp: Option<&str>,
    allowed_hosts: Option<&str>,
    spec: DaemonSpawnSpec,
    pid: u32,
    started_at: String,
    platform: DaemonIpcPlatform,
    status: DaemonStatus,
)
    requires
        call_ensures(
            background_server_spec,
            (current_exe, coven_home, tcp, allowed_hosts),
            spec,
        ),
        call_ensures(start_background_server, (coven_home, pid, started_at, platform), status),
    ensures
        spec.program@ == current_exe@,
        spec.coven_home@ == coven_home@,
        tcp is None && allowed_hosts is None ==> views(spec.args@) == seq!["daemon"@, "serve"@],
        status.pid == pid,
        status.started_at@ == started_at@,
        status.socket@ == startup_socket_of(coven_home@, platform),
{
}

} // verus!
