//! The link between a hub and its executors: how an executor is reached, what is asked of it,
//! and how its answers, and the lack of them, are judged.

use crate::fault::{caused, optional_view, plain, Fault, FaultView};
use crate::numbers::{decimal, decimal_text, signed_decimal, signed_decimal_text};
use crate::text::{chars_of, is_blank, joined, same_text, trim_text, trimmed, views};
use vstd::prelude::*;
use vstd::string::*;

verus! {

/// The protocol between a hub and its executors.
pub const EXECUTOR_PROTOCOL_VERSION: &'static str = "coven.executor.v1";

/// An executor that stays where it is.
pub const ROLE_STATIONARY_EXECUTOR: &'static str = "stationary_executor";

/// An executor for heavy work.
pub const ROLE_COMPUTE_EXECUTOR: &'static str = "compute_executor";

/// How long a hub waits for the answer of an executor that it asks how it is, in seconds.
pub const PROBE_TIMEOUT_SECONDS: u64 = 30;

/// Whether a role is that of an executor.
pub open spec fn is_role(role: Seq<char>) -> bool {
    role == ROLE_STATIONARY_EXECUTOR@ || role == ROLE_COMPUTE_EXECUTOR@
}

/// Whether a role is that of an executor.
pub fn is_executor_role(role: &str) -> (yes: bool)
    ensures
        yes == is_role(role@),
{
    same_text(role, ROLE_STATIONARY_EXECUTOR) || same_text(role, ROLE_COMPUTE_EXECUTOR)
}

/// The flag with which Windows shows no window for a process.
pub const WINDOWS_CREATE_NO_WINDOW: u32 = 0x0800_0000;

/// The flags with which Windows creates a process in the background.
pub fn windows_background_creation_flags() -> (flags: u32)
    ensures
        flags == 0x0800_0000,
{
    WINDOWS_CREATE_NO_WINDOW
}

/// What an executor says when it is asked how it is.
#[derive(Debug)]
pub struct ExecutorProbe {
    pub protocol_version: String,
    pub role: String,
    pub capabilities: Vec<String>,
    pub available: bool,
    pub queue_pressure: i64,
    pub coven_version: String,
    pub probed_at: String,
}

/// How an executor is reached.
#[derive(Debug)]
pub enum TransportConfig {
    /// By way of `ssh`.
    Ssh {
        host: String,
        user: Option<String>,
        port: Option<u16>,
        identity_file: Option<String>,
        /// The program on the other side, where it is not `coven`.
        remote_program: Option<String>,
    },
    /// As a process of this host.
    Local { program: String, args: Vec<String> },
}

/// What a process left behind.
#[derive(Debug, Clone)]
pub struct ProcessOutput {
    pub exit_code: Option<i64>,
    pub stdout: String,
    pub stderr: String,
    pub timed_out: bool,
}

/// A run of an executor's program on some way to it: the arguments of the protocol, what was
/// written to it, how many seconds it was given, and what came of it.
pub struct TransportRun {
    pub protocol_args: Seq<Seq<char>>,
    pub stdin: Option<Seq<char>>,
    pub timeout_seconds: u64,
    pub outcome: Result<ProcessOutput, Fault>,
}

/// A way to an executor: it runs the executor's program with the arguments of the protocol.
pub trait ExecutorTransport: Sized {
    /// The way, in words. It is part of the contract alone.
    open spec fn description(&self) -> Seq<char> {
        arbitrary::<spec_fn(Self) -> Seq<char>>()(*self)
    }

    /// The runs so far, in order: an account that the way keeps in what it holds. It is part
    /// of the contract alone, and of a way that does not say how it keeps the account nothing
    /// is known but what the methods promise.
    open spec fn runs(&self) -> Seq<TransportRun> {
        arbitrary::<spec_fn(Self) -> Seq<TransportRun>>()(*self)
    }

    /// The way, in words.
    fn describe(&self) -> (text: String)
        ensures
            text@ == self.description(),
    ;

    /// Runs the executor's program, for a number of seconds at most.
    fn run(&mut self, protocol_args: &[&str], stdin: Option<&str>, timeout_seconds: u64) -> (
    outcome: Result<ProcessOutput, Fault>)
        ensures
            final(self).runs() == old(self).runs().push(
                TransportRun {
                    protocol_args: str_views(protocol_args@),
                    stdin: match stdin {
                        Some(text) => Some(text@),
                        None => None,
                    },
                    timeout_seconds,
                    outcome,
                },
            ),
    ;
}

/// Whether a text could be taken for an option of a program.
pub open spec fn looks_like_option(text: Seq<char>) -> bool {
    text.len() > 0 && text[0] == '-'
}

/// Whether a text, where there is one, is empty or could be taken for an option.
pub open spec fn is_unfit(text: Option<Seq<char>>) -> bool {
    match text {
        Some(inner) => inner.len() == 0 || looks_like_option(inner),
        None => false,
    }
}

/// A text, where there is one, without the space around it.
pub open spec fn trimmed_option(text: Option<Seq<char>>) -> Option<Seq<char>> {
    match text {
        Some(inner) => Some(trimmed(inner)),
        None => None,
    }
}

/// What an optional text holds.
pub open spec fn str_view(text: Option<&str>) -> Option<Seq<char>> {
    match text {
        Some(inner) => Some(inner@),
        None => None,
    }
}

/// The program on the other side.
pub open spec fn program_of(remote_program: Option<Seq<char>>) -> Seq<char> {
    match remote_program {
        Some(program) => trimmed(program),
        None => "coven"@,
    }
}

/// What is wrong with a way by `ssh`, the first thing first.
pub open spec fn ssh_fault(
    host: Seq<char>,
    user: Option<Seq<char>>,
    identity_file: Option<Seq<char>>,
    remote_program: Option<Seq<char>>,
) -> Option<FaultView> {
    if trimmed(host).len() == 0 {
        Some(plain("ssh transport host must not be empty"@))
    } else if looks_like_option(trimmed(host)) {
        Some(plain("ssh transport host must not start with '-'"@))
    } else if is_unfit(trimmed_option(user)) {
        Some(plain("ssh transport user must not be empty or start with '-'"@))
    } else if is_unfit(trimmed_option(identity_file)) {
        Some(plain("ssh transport identity file must not be empty or start with '-'"@))
    } else if is_unfit(Some(program_of(remote_program))) {
        Some(plain("ssh transport remote program must not be empty or start with '-'"@))
    } else {
        None
    }
}

/// A way by `ssh`. It never asks anybody anything, and goes to no host that is not known.
#[derive(Debug)]
pub struct SshTransport {
    host: String,
    user: Option<String>,
    port: Option<u16>,
    identity_file: Option<String>,
    remote_program: String,
}

/// What a way by `ssh` holds.
pub struct SshView {
    pub host: Seq<char>,
    pub user: Option<Seq<char>>,
    pub port: Option<u16>,
    pub identity_file: Option<Seq<char>>,
    pub remote_program: Seq<char>,
}

impl View for SshTransport {
    type V = SshView;

    closed spec fn view(&self) -> SshView {
        SshView {
            host: self.host@,
            user: optional_view(self.user),
            port: self.port,
            identity_file: optional_view(self.identity_file),
            remote_program: self.remote_program@,
        }
    }
}

/// Whether nothing that a way by `ssh` holds is empty or could be taken for an option.
pub open spec fn is_fit(ssh: SshView) -> bool {
    &&& !is_unfit(Some(ssh.host))
    &&& !is_unfit(ssh.user)
    &&& !is_unfit(ssh.identity_file)
    &&& !is_unfit(Some(ssh.remote_program))
}

/// Whom a way by `ssh` leads to.
pub open spec fn target_of(ssh: SshView) -> Seq<char> {
    match ssh.user {
        Some(user) => user + "@"@ + ssh.host,
        None => ssh.host,
    }
}

/// The options of every way by `ssh`.
pub open spec fn pinned_options() -> Seq<Seq<char>> {
    seq![
        "ssh"@,
        "-o"@,
        "BatchMode=yes"@,
        "-o"@,
        "StrictHostKeyChecking=yes"@,
        "-o"@,
        "ConnectTimeout=10"@,
    ]
}

/// The options that name the port.
pub open spec fn port_options(port: Option<u16>) -> Seq<Seq<char>> {
    match port {
        Some(number) => seq!["-p"@, decimal(number as nat)],
        None => seq![],
    }
}

/// The options that name the identity.
pub open spec fn identity_options(identity_file: Option<Seq<char>>) -> Seq<Seq<char>> {
    match identity_file {
        Some(path) => seq!["-i"@, path],
        None => seq![],
    }
}

/// The command line of a way by `ssh`.
pub open spec fn ssh_argv(ssh: SshView, protocol_args: Seq<Seq<char>>) -> Seq<Seq<char>> {
    pinned_options() + port_options(ssh.port) + identity_options(ssh.identity_file) + seq![
        target_of(ssh),
        ssh.remote_program,
    ] + protocol_args
}

/// What the texts of a list hold.
pub open spec fn str_views(list: Seq<&str>) -> Seq<Seq<char>> {
    list.map_values(|text: &str| text@)
}

fn is_option_like(text: &str) -> (yes: bool)
    ensures
        yes == looks_like_option(text@),
{
    let chars = chars_of(text);
    chars.len() > 0 && chars[0] == '-'
}

fn trimmed_copy(text: Option<&str>) -> (out: Option<String>)
    ensures
        optional_view(out) == trimmed_option(str_view(text)),
{
    match text {
        Some(inner) => Some(trim_text(inner)),
        None => None,
    }
}

fn option_is_unfit(text: &Option<String>) -> (yes: bool)
    ensures
        yes == is_unfit(optional_view(*text)),
{
    match text {
        Some(inner) => inner.as_str().is_empty() || is_option_like(inner.as_str()),
        None => false,
    }
}

impl SshTransport {
    /// A way by `ssh`. Values that are empty, or that `ssh` would take for options, are
    /// refused.
    pub fn new(
        host: &str,
        user: Option<&str>,
        port: Option<u16>,
        identity_file: Option<&str>,
        remote_program: Option<&str>,
    ) -> (made: Result<SshTransport, Fault>)
        ensures
            match made {
                Ok(ssh) => {
                    &&& ssh_fault(
                        host@,
                        str_view(user),
                        str_view(identity_file),
                        str_view(remote_program),
                    ) is None
                    &&& ssh@ == (SshView {
                        host: trimmed(host@),
                        user: trimmed_option(str_view(user)),
                        port,
                        identity_file: trimmed_option(str_view(identity_file)),
                        remote_program: program_of(str_view(remote_program)),
                    })
                    &&& is_fit(ssh@)
                },
                Err(fault) => ssh_fault(
                    host@,
                    str_view(user),
                    str_view(identity_file),
                    str_view(remote_program),
                ) == Some(fault@),
            },
    {
        let host = trim_text(host);
        if host.as_str().is_empty() {
            return Err(Fault::plain("ssh transport host must not be empty"));
        }
        if is_option_like(host.as_str()) {
            return Err(Fault::plain("ssh transport host must not start with '-'"));
        }
        let user = trimmed_copy(user);
        if option_is_unfit(&user) {
            return Err(
                Fault::plain("ssh transport user must not be empty or start with '-'"),
            );
        }
        let identity_file = trimmed_copy(identity_file);
        if option_is_unfit(&identity_file) {
            return Err(
                Fault::plain("ssh transport identity file must not be empty or start with '-'"),
            );
        }
        let remote_program = match remote_program {
            Some(program) => trim_text(program),
            None => "coven".to_owned(),
        };
        if remote_program.as_str().is_empty() || is_option_like(remote_program.as_str()) {
            return Err(
                Fault::plain("ssh transport remote program must not be empty or start with '-'"),
            );
        }
        Ok(SshTransport { host, user, port, identity_file, remote_program })
    }

    /// Whom the way leads to.
    fn target(&self) -> (target: String)
        ensures
            target@ == target_of(self@),
    {
        match &self.user {
            Some(user) => joined(joined(user.as_str(), "@").as_str(), self.host.as_str()),
            None => self.host.clone(),
        }
    }

    /// The command line that runs the executor's program with the arguments of the protocol.
    pub fn argv(&self, protocol_args: &[&str]) -> (argv: Vec<String>)
        ensures
            views(argv@) == ssh_argv(self@, str_views(protocol_args@)),
    {
        let mut argv: Vec<String> = Vec::new();
        argv.push("ssh".to_owned());
        argv.push("-o".to_owned());
        argv.push("BatchMode=yes".to_owned());
        argv.push("-o".to_owned());
        argv.push("StrictHostKeyChecking=yes".to_owned());
        argv.push("-o".to_owned());
        argv.push("ConnectTimeout=10".to_owned());
        assert(views(argv@) =~= pinned_options());
        if let Some(port) = self.port {
            argv.push("-p".to_owned());
            argv.push(decimal_text(port as u64));
        }
        assert(views(argv@) =~= pinned_options() + port_options(self@.port));
        if let Some(identity_file) = &self.identity_file {
            argv.push("-i".to_owned());
            argv.push(identity_file.clone());
        }
        assert(views(argv@) =~= pinned_options() + port_options(self@.port) + identity_options(
            self@.identity_file,
        ));
        let ghost options = views(argv@);
        argv.push(self.target());
        argv.push(self.remote_program.clone());
        assert(views(argv@) =~= options + seq![target_of(self@), self@.remote_program]);
        append_texts(&mut argv, protocol_args);
        argv
    }

    /// The way, in words.
    pub fn describe(&self) -> (text: String)
        ensures
            text@ == "ssh "@ + target_of(self@),
    {
        joined("ssh ", self.target().as_str())
    }
}

fn append_texts(list: &mut Vec<String>, more: &[&str])
    ensures
        views(final(list)@) == views(old(list)@) + str_views(more@),
{
    let mut i: usize = 0;
    assert(views(list@) =~= views(old(list)@) + str_views(more@).take(0));
    while i < more.len()
        invariant
            i <= more@.len(),
            views(list@) == views(old(list)@) + str_views(more@).take(i as int),
        decreases more@.len() - i,
    {
        let ghost before = views(list@);
        list.push(more[i].to_owned());
        assert(views(list@) =~= before.push(more@[i as int]@));
        assert(str_views(more@)[i as int] == more@[i as int]@);
        i += 1;
        assert(views(list@) =~= views(old(list)@) + str_views(more@).take(i as int));
    }
    assert(str_views(more@).take(i as int) =~= str_views(more@));
}

/// On the command line of a way by `ssh` that was accepted, neither the target nor the
/// program nor the identity can be taken for an option, and every way has the pinned options
/// first.
pub proof fn ssh_values_are_no_options(ssh: SshView, protocol_args: Seq<Seq<char>>)
    requires
        is_fit(ssh),
    ensures
        pinned_options().is_prefix_of(ssh_argv(ssh, protocol_args)),
        !looks_like_option(target_of(ssh)),
        !looks_like_option(ssh.remote_program),
        ssh.identity_file matches Some(path) ==> !looks_like_option(path),
{
    let argv = ssh_argv(ssh, protocol_args);
    assert(pinned_options() =~= argv.subrange(0, pinned_options().len() as int));
    if let Some(user) = ssh.user {
        assert(target_of(ssh)[0] == user[0]);
    }
}

/// A way as a process of this host.
#[derive(Debug)]
pub struct LocalProcessTransport {
    pub program: String,
    pub args: Vec<String>,
}

impl LocalProcessTransport {
    /// The way, in words.
    pub fn describe(&self) -> (text: String)
        ensures
            text@ == "local "@ + self.program@,
    {
        joined("local ", self.program.as_str())
    }

    /// The command line that runs the executor's program with the arguments of the protocol.
    pub fn argv(&self, protocol_args: &[&str]) -> (argv: Vec<String>)
        ensures
            views(argv@) == seq![self.program@] + views(self.args@) + str_views(protocol_args@),
    {
        let mut argv: Vec<String> = Vec::new();
        argv.push(self.program.clone());
        assert(views(argv@) =~= seq![self.program@] + views(self.args@).take(0));
        let mut i: usize = 0;
        while i < self.args.len()
            invariant
                i <= self.args@.len(),
                views(argv@) == seq![self.program@] + views(self.args@).take(i as int),
            decreases self.args@.len() - i,
        {
            let ghost before = views(argv@);
            argv.push(self.args[i].clone());
            assert(views(argv@) =~= before.push(self.args@[i as int]@));
            assert(views(self.args@)[i as int] == self.args@[i as int]@);
            i += 1;
            assert(views(argv@) =~= seq![self.program@] + views(self.args@).take(i as int));
        }
        assert(views(self.args@).take(i as int) =~= views(self.args@));
        append_texts(&mut argv, protocol_args);
        argv
    }
}

/// What is said where running the executor's program failed.
pub open spec fn dispatch_failure(ssh: bool, name: Seq<char>) -> Seq<char> {
    if ssh {
        "ssh dispatch to "@ + name + " failed"@
    } else {
        "local dispatch via "@ + name + " failed"@
    }
}

/// A way to an executor.
#[derive(Debug)]
pub enum Transport {
    Ssh(SshTransport),
    Local(LocalProcessTransport),
}

impl Transport {
    /// The way, in words.
    pub fn describe(&self) -> (text: String)
        ensures
            text@ == match self {
                Transport::Ssh(ssh) => "ssh "@ + target_of(ssh@),
                Transport::Local(local) => "local "@ + local.program@,
            },
    {
        match self {
            Transport::Ssh(ssh) => ssh.describe(),
            Transport::Local(local) => local.describe(),
        }
    }

    /// The command line that runs the executor's program with the arguments of the protocol.
    pub fn argv(&self, protocol_args: &[&str]) -> (argv: Vec<String>)
        ensures
            views(argv@) == match self {
                Transport::Ssh(ssh) => ssh_argv(ssh@, str_views(protocol_args@)),
                Transport::Local(local) => seq![local.program@] + views(local.args@) + str_views(
                    protocol_args@,
                ),
            },
    {
        match self {
            Transport::Ssh(ssh) => ssh.argv(protocol_args),
            Transport::Local(local) => local.argv(protocol_args),
        }
    }

    /// What is said where running the executor's program failed.
    pub fn failure(&self) -> (text: String)
        ensures
            text@ == match self {
                Transport::Ssh(ssh) => dispatch_failure(true, "ssh "@ + target_of(ssh@)),
                Transport::Local(local) => dispatch_failure(false, local.program@),
            },
    {
        match self {
            Transport::Ssh(ssh) => joined(
                joined("ssh dispatch to ", ssh.describe().as_str()).as_str(),
                " failed",
            ),
            Transport::Local(local) => joined(
                joined("local dispatch via ", local.program.as_str()).as_str(),
                " failed",
            ),
        }
    }
}

fn as_str_option(text: &Option<String>) -> (out: Option<&str>)
    ensures
        str_view(out) == optional_view(*text),
{
    match text {
        Some(inner) => Some(inner.as_str()),
        None => None,
    }
}

/// The way to an executor, or what is wrong with it.
pub fn build_transport(config: &TransportConfig) -> (transport: Result<Transport, Fault>)
    ensures
        match config {
            TransportConfig::Ssh { host, user, port, identity_file, remote_program } => {
                let fault = ssh_fault(
                    host@,
                    optional_view(*user),
                    optional_view(*identity_file),
                    optional_view(*remote_program),
                );
                match transport {
                    Ok(Transport::Ssh(ssh)) => fault is None && ssh@ == (SshView {
                        host: trimmed(host@),
                        user: trimmed_option(optional_view(*user)),
                        port: *port,
                        identity_file: trimmed_option(optional_view(*identity_file)),
                        remote_program: program_of(optional_view(*remote_program)),
                    }) && is_fit(ssh@),
                    Ok(Transport::Local(_)) => false,
                    Err(refused) => fault == Some(refused@),
                }
            },
            TransportConfig::Local { program, args } => match transport {
                Ok(Transport::Ssh(_)) => false,
                Ok(Transport::Local(local)) => trimmed(program@).len() > 0 && local.program@
                    == program@ && local.args@ == args@,
                Err(refused) => trimmed(program@).len() == 0 && refused@ == plain(
                    "local transport program must not be empty"@,
                ),
            },
        },
{
    match config {
        TransportConfig::Ssh { host, user, port, identity_file, remote_program } => {
            match SshTransport::new(
                host.as_str(),
                as_str_option(user),
                *port,
                as_str_option(identity_file),
                as_str_option(remote_program),
            ) {
                Ok(ssh) => Ok(Transport::Ssh(ssh)),
                Err(fault) => Err(fault),
            }
        },
        TransportConfig::Local { program, args } => {
            if is_blank(program.as_str()) {
                return Err(Fault::plain("local transport program must not be empty"));
            }
            Ok(
                Transport::Local(
                    LocalProcessTransport { program: program.clone(), args: args.clone() },
                ),
            )
        },
    }
}

/// Asks an executor how it is, once, on some way to it.
pub fn ask_for_probe<T: ExecutorTransport>(transport: &mut T) -> (reply: (
    String,
    Result<ProcessOutput, Fault>,
))
    ensures
        reply.0@ == old(transport).description(),
        final(transport).runs() == old(transport).runs().push(
            TransportRun {
                protocol_args: seq!["executor"@, "probe"@],
                stdin: None,
                timeout_seconds: PROBE_TIMEOUT_SECONDS,
                outcome: reply.1,
            },
        ),
{
    let description = transport.describe();
    let args = ["executor", "probe"];
    assert(str_views(args@) =~= seq!["executor"@, "probe"@]);
    let outcome = transport.run(&args, None, PROBE_TIMEOUT_SECONDS);
    (description, outcome)
}

/// An exit code in words.
pub open spec fn code_words(code: Option<i64>) -> Seq<char> {
    match code {
        Some(number) => "Some("@ + signed_decimal(number as int) + ")"@,
        None => "None"@,
    }
}

fn code_text(code: Option<i64>) -> (text: String)
    ensures
        text@ == code_words(code),
{
    match code {
        Some(number) => joined(
            joined("Some(", signed_decimal_text(number).as_str()).as_str(),
            ")",
        ),
        None => "None".to_owned(),
    }
}

/// Why an executor counts as unavailable, given what asking it came to and how its answer
/// was read.
pub open spec fn probe_fault(
    description: Seq<char>,
    outcome: Result<ProcessOutput, Fault>,
    parsed: Result<ExecutorProbe, String>,
) -> Option<FaultView> {
    match outcome {
        Err(fault) => Some(fault@),
        Ok(output) => if output.timed_out {
            Some(plain("executor probe timed out via "@ + description))
        } else if output.exit_code != Some(0i64) {
            Some(
                plain(
                    "executor probe exited with "@ + code_words(output.exit_code) + " via "@
                        + description + ": "@ + trimmed(output.stderr@),
                ),
            )
        } else {
            match parsed {
                Err(error) => Some(
                    caused(
                        "executor probe returned malformed envelope: "@ + output.stdout@,
                        error@,
                    ),
                ),
                Ok(probe) => if probe.protocol_version@ != EXECUTOR_PROTOCOL_VERSION@ {
                    Some(
                        plain(
                            "executor probe protocol version mismatch: expected "@
                                + EXECUTOR_PROTOCOL_VERSION@ + ", got "@ + probe.protocol_version@,
                        ),
                    )
                } else if !is_role(probe.role@) {
                    Some(plain("executor probe advertised unknown role "@ + probe.role@))
                } else {
                    None
                },
            }
        },
    }
}

/// What an executor says of itself, given what asking it came to and how its answer was
/// read; or why it counts as unavailable.
pub fn poll_executor(
    description: &str,
    outcome: Result<ProcessOutput, Fault>,
    parsed: Result<ExecutorProbe, String>,
) -> (probe: Result<ExecutorProbe, Fault>)
    ensures
        match probe {
            Ok(probe) => probe_fault(description@, outcome, parsed) is None && parsed
                == Ok::<ExecutorProbe, String>(probe),
            Err(fault) => probe_fault(description@, outcome, parsed) == Some(fault@),
        },
{
    let output = match outcome {
        Ok(output) => output,
        Err(fault) => {
            return Err(fault);
        },
    };
    if output.timed_out {
        return Err(Fault::plain(joined("executor probe timed out via ", description).as_str()));
    }
    let succeeded = match output.exit_code {
        Some(code) => code == 0,
        None => false,
    };
    if !succeeded {
        let text = joined("executor probe exited with ", code_text(output.exit_code).as_str());
        let text = joined(text.as_str(), " via ");
        let text = joined(text.as_str(), description);
        let text = joined(text.as_str(), ": ");
        let text = joined(text.as_str(), trim_text(output.stderr.as_str()).as_str());
        return Err(Fault::plain(text.as_str()));
    }
    let probe = match parsed {
        Ok(probe) => probe,
        Err(error) => {
            let text = joined(
                "executor probe returned malformed envelope: ",
                output.stdout.as_str(),
            );
            return Err(Fault::caused(text.as_str(), error.as_str()));
        },
    };
    if !same_text(probe.protocol_version.as_str(), EXECUTOR_PROTOCOL_VERSION) {
        let text = joined(
            "executor probe protocol version mismatch: expected ",
            EXECUTOR_PROTOCOL_VERSION,
        );
        let text = joined(text.as_str(), ", got ");
        let text = joined(text.as_str(), probe.protocol_version.as_str());
        return Err(Fault::plain(text.as_str()));
    }
    if !is_executor_role(probe.role.as_str()) {
        return Err(
            Fault::plain(
                joined("executor probe advertised unknown role ", probe.role.as_str()).as_str(),
            ),
        );
    }
    Ok(probe)
}

/// What an executor is set up to say of itself.
#[derive(Debug)]
pub struct ExecutorNodeConfig {
    pub role: Option<String>,
    pub capabilities: Option<Vec<String>>,
}

impl Default for ExecutorNodeConfig {
    fn default() -> (config: ExecutorNodeConfig)
        ensures
            config.role is None,
            config.capabilities is None,
    {
        ExecutorNodeConfig { role: None, capabilities: None }
    }
}

/// What the owner of a node lets it do, and whether it is available.
#[derive(Debug)]
pub struct FleetPolicy {
    pub capabilities: Vec<String>,
    pub available: bool,
}

/// The role that an executor is set up with.
pub open spec fn configured_role(config: ExecutorNodeConfig) -> Seq<char> {
    match config.role {
        Some(role) => role@,
        None => ROLE_STATIONARY_EXECUTOR@,
    }
}

/// What an executor says that it can do: what its owner lets it, else what it is set up
/// with, else run a shell.
pub open spec fn offered(
    config: ExecutorNodeConfig,
    policy: Option<FleetPolicy>,
) -> Seq<Seq<char>> {
    match policy {
        Some(limits) => views(limits.capabilities@),
        None => match config.capabilities {
            Some(list) => views(list@),
            None => seq!["shell"@],
        },
    }
}

/// What an executor says of itself, by its setup and by what its owner lets it do.
pub fn build_probe(
    config: ExecutorNodeConfig,
    policy: Result<Option<FleetPolicy>, Fault>,
    coven_version: &str,
    probed_at: &str,
) -> (probe: Result<ExecutorProbe, Fault>)
    ensures
        match probe {
            Ok(probe) => {
                &&& is_role(configured_role(config))
                &&& policy is Ok
                &&& probe.protocol_version@ == EXECUTOR_PROTOCOL_VERSION@
                &&& probe.role@ == configured_role(config)
                &&& views(probe.capabilities@) == offered(config, policy->Ok_0)
                &&& probe.available == match policy->Ok_0 {
                    Some(limits) => limits.available,
                    None => true,
                }
                &&& probe.queue_pressure == 0
                &&& probe.coven_version@ == coven_version@
                &&& probe.probed_at@ == probed_at@
            },
            Err(fault) => if !is_role(configured_role(config)) {
                fault@ == plain(
                    "executor role must be `"@ + ROLE_STATIONARY_EXECUTOR@ + "` or `"@
                        + ROLE_COMPUTE_EXECUTOR@ + "`, got `"@ + configured_role(config) + "`"@,
                )
            } else {
                policy matches Err(cause) && fault@ == cause@
            },
        },
{
    let role = match config.role {
        Some(role) => role,
        None => ROLE_STATIONARY_EXECUTOR.to_owned(),
    };
    if !is_executor_role(role.as_str()) {
        let text = joined("executor role must be `", ROLE_STATIONARY_EXECUTOR);
        let text = joined(text.as_str(), "` or `");
        let text = joined(text.as_str(), ROLE_COMPUTE_EXECUTOR);
        let text = joined(text.as_str(), "`, got `");
        let text = joined(text.as_str(), role.as_str());
        return Err(Fault::plain(joined(text.as_str(), "`").as_str()));
    }
    let policy = match policy {
        Ok(policy) => policy,
        Err(fault) => {
            return Err(fault);
        },
    };
    let (capabilities, available) = match policy {
        Some(limits) => (limits.capabilities, limits.available),
        None => {
            let list = match config.capabilities {
                Some(list) => list,
                None => {
                    let mut list: Vec<String> = Vec::new();
                    list.push("shell".to_owned());
                    assert(views(list@) =~= seq!["shell"@]);
                    list
                },
            };
            (list, true)
        },
    };
    Ok(
        ExecutorProbe {
            protocol_version: EXECUTOR_PROTOCOL_VERSION.to_owned(),
            role,
            capabilities,
            available,
            queue_pressure: 0,
            coven_version: coven_version.to_owned(),
            probed_at: probed_at.to_owned(),
        },
    )
}

/// An executor has one of two roles, and speaks one protocol.
pub proof fn executors_have_two_roles(role: Seq<char>)
    ensures
        is_role(role) <==> role == "stationary_executor"@ || role == "compute_executor"@,
        EXECUTOR_PROTOCOL_VERSION@ == "coven.executor.v1"@,
        PROBE_TIMEOUT_SECONDS == 30,
{
}

/// A way by `ssh` is refused if and only if, without the space around it, its host is empty or
/// begins with a dash, or its user, its identity file or its program is there and is empty or
/// begins with a dash. The host comes first, then the user, the identity file and the program.
pub proof fn ssh_ways_are_refused(
    host: Seq<char>,
    user: Option<Seq<char>>,
    identity_file: Option<Seq<char>>,
    remote_program: Option<Seq<char>>,
)
    ensures
        ({
            let fault = ssh_fault(host, user, identity_file, remote_program);
            let bad = |text: Seq<char>| trimmed(text).len() == 0 || trimmed(text)[0] == '-';
            let bad_user = user matches Some(text) && bad(text);
            let bad_file = identity_file matches Some(text) && bad(text);
            let bad_program = remote_program matches Some(text) && bad(text);
            &&& fault is None <==> !bad(host) && !bad_user && !bad_file && !bad_program
            &&& trimmed(host).len() == 0 ==> fault == Some(
                plain("ssh transport host must not be empty"@),
            )
            &&& trimmed(host).len() > 0 && trimmed(host)[0] == '-' ==> fault == Some(
                plain("ssh transport host must not start with '-'"@),
            )
            &&& !bad(host) && bad_user ==> fault == Some(
                plain("ssh transport user must not be empty or start with '-'"@),
            )
            &&& !bad(host) && !bad_user && bad_file ==> fault == Some(
                plain("ssh transport identity file must not be empty or start with '-'"@),
            )
            &&& !bad(host) && !bad_user && !bad_file && bad_program ==> fault == Some(
                plain("ssh transport remote program must not be empty or start with '-'"@),
            )
        }),
{
    reveal_strlit("coven");
    assert("coven"@[0] == 'c');
}

/// The command line of a way by `ssh`: it asks nobody, goes to known hosts alone and waits ten
/// seconds for an answer; then come the port and the identity, where there are any, whom it
/// leads to, the program on the other side and its arguments.
pub proof fn ssh_lines_are_pinned(ssh: SshView, protocol_args: Seq<Seq<char>>)
    ensures
        ({
            let line = ssh_argv(ssh, protocol_args);
            let p: int = if ssh.port is Some {
                2
            } else {
                0
            };
            let f: int = if ssh.identity_file is Some {
                2
            } else {
                0
            };
            &&& line.len() == 9 + p + f + protocol_args.len()
            &&& line.take(7) == seq![
                "ssh"@,
                "-o"@,
                "BatchMode=yes"@,
                "-o"@,
                "StrictHostKeyChecking=yes"@,
                "-o"@,
                "ConnectTimeout=10"@,
            ]
            &&& ssh.port matches Some(port) ==> line[7] == "-p"@ && line[8] == decimal(port as nat)
            &&& ssh.identity_file matches Some(path) ==> line[7 + p] == "-i"@ && line[8 + p]
                == path
            &&& ssh.user matches Some(user) ==> line[7 + p + f] == user + "@"@ + ssh.host
            &&& ssh.user is None ==> line[7 + p + f] == ssh.host
            &&& line[8 + p + f] == ssh.remote_program
            &&& line.skip(9 + p + f) == protocol_args
        }),
{
    let line = ssh_argv(ssh, protocol_args);
    let p: int = if ssh.port is Some {
        2
    } else {
        0
    };
    let f: int = if ssh.identity_file is Some {
        2
    } else {
        0
    };
    assert(line.take(7) =~= seq![
        "ssh"@,
        "-o"@,
        "BatchMode=yes"@,
        "-o"@,
        "StrictHostKeyChecking=yes"@,
        "-o"@,
        "ConnectTimeout=10"@,
    ]);
    assert(line.skip(9 + p + f) =~= protocol_args);
}

/// What is held of a way by `ssh` is what was said of it without the space around it; the
/// program on the other side is `coven` where none is named.
pub proof fn ssh_values_are_trimmed(text: Option<Seq<char>>)
    ensures
        text matches Some(inner) ==> trimmed_option(text) == Some(trimmed(inner)) && program_of(
            text,
        ) == trimmed(inner),
        text is None ==> trimmed_option(text) is None && program_of(text) == "coven"@,
{
}

/// An executor counts as available if and only if it was reached, was in time, ended with
/// zero, and its answer could be read, speaks the protocol and names a role. What is wrong
/// comes in this order.
pub proof fn executors_answer_or_are_unavailable(
    description: Seq<char>,
    outcome: Result<ProcessOutput, Fault>,
    parsed: Result<ExecutorProbe, String>,
)
    ensures
        ({
            let fault = probe_fault(description, outcome, parsed);
            &&& fault is None <==> (outcome matches Ok(output) && !output.timed_out && (
            output.exit_code matches Some(code) && code == 0)) && (parsed matches Ok(probe)
                && probe.protocol_version@ == "coven.executor.v1"@ && (probe.role@
                == "stationary_executor"@ || probe.role@ == "compute_executor"@))
            &&& outcome matches Err(failed) ==> fault == Some(failed@)
            &&& outcome matches Ok(output) ==> {
                &&& output.timed_out ==> fault == Some(
                    plain("executor probe timed out via "@ + description),
                )
                &&& !output.timed_out ==> match output.exit_code {
                    None => fault == Some(
                        plain(
                            "executor probe exited with "@ + "None"@ + " via "@ + description
                                + ": "@ + trimmed(output.stderr@),
                        ),
                    ),
                    Some(code) => {
                        &&& code != 0 ==> fault == Some(
                            plain(
                                "executor probe exited with "@ + ("Some("@ + signed_decimal(
                                    code as int,
                                ) + ")"@) + " via "@ + description + ": "@ + trimmed(
                                    output.stderr@,
                                ),
                            ),
                        )
                        &&& code == 0 ==> match parsed {
                            Err(error) => fault == Some(
                                caused(
                                    "executor probe returned malformed envelope: "@
                                        + output.stdout@,
                                    error@,
                                ),
                            ),
                            Ok(probe) => {
                                &&& probe.protocol_version@ != "coven.executor.v1"@ ==> fault
                                    == Some(
                                    plain(
                                        "executor probe protocol version mismatch: expected "@
                                            + "coven.executor.v1"@ + ", got "@
                                            + probe.protocol_version@,
                                    ),
                                )
                                &&& probe.protocol_version@ == "coven.executor.v1"@ && fault
                                    is Some ==> fault == Some(
                                    plain("executor probe advertised unknown role "@ + probe.role@),
                                )
                            },
                        }
                    },
                }
            }
        }),
{
}

/// An executor offers what its owner lets it do, whatever it is set up with; else what it is
/// set up with; else to run a shell. It stays where it is unless it is set up otherwise.
pub proof fn owners_limit_what_is_offered(config: ExecutorNodeConfig, policy: Option<FleetPolicy>)
    ensures
        policy matches Some(limits) ==> offered(config, policy) == views(limits.capabilities@),
        policy is None ==> (config.capabilities matches Some(list) ==> offered(config, policy)
            == views(list@)),
        policy is None && config.capabilities is None ==> offered(config, policy).len() == 1
            && offered(config, policy)[0] == "shell"@,
        config.role matches Some(role) ==> configured_role(config) == role@,
        config.role is None ==> configured_role(config) == "stationary_executor"@,
{
}

/// What is said of a run that failed names the way.
pub proof fn failed_ways_are_named(name: Seq<char>)
    ensures
        dispatch_failure(true, name) == "ssh dispatch to "@ + name + " failed"@,
        dispatch_failure(false, name) == "local dispatch via "@ + name + " failed"@,
{
}

/// An executor says of itself its role, what it offers and whether its owner lets it run; a
/// role that is none, or an owner's limits that cannot be read, are refused.
pub proof fn executors_say_what_they_offer(
    config: ExecutorNodeConfig,
    policy: Result<Option<FleetPolicy>, Fault>,
    coven_version: &str,
    probed_at: &str,
    probe: Result<ExecutorProbe, Fault>,
)
    requires
        call_ensures(build_probe, (config, policy, coven_version, probed_at), probe),
    ensures
        ({
            let role = match config.role {
                Some(role) => role@,
                None => "stationary_executor"@,
            };
            let known = role == "stationary_executor"@ || role == "compute_executor"@;
            &&& probe is Ok <==> known && policy is Ok
            &&& probe matches Ok(said) ==> {
                &&& said.protocol_version@ == "coven.executor.v1"@
                &&& said.role@ == role
                &&& views(said.capabilities@) == offered(config, policy->Ok_0)
                &&& policy->Ok_0 matches Some(limits) ==> said.available == limits.available
                &&& policy->Ok_0 is None ==> said.available
                &&& said.queue_pressure == 0
                &&& said.coven_version@ == coven_version@
                &&& said.probed_at@ == probed_at@
            }
            &&& !known ==> (probe matches Err(fault) && fault@ == plain(
                "executor role must be `"@ + "stationary_executor"@ + "` or `"@
                    + "compute_executor"@ + "`, got `"@ + role + "`"@,
            ))
            &&& known ==> (policy matches Err(cause) ==> (probe matches Err(fault) && fault@
                == cause@))
        }),
{
}

/// An executor is asked how it is once, with thirty seconds to answer, and nothing is written
/// to it.
pub proof fn executors_are_asked_once<T: ExecutorTransport>(
    transport: &mut T,
    reply: (String, Result<ProcessOutput, Fault>),
)
    requires
        call_ensures(ask_for_probe::<T>, (transport,), reply),
    ensures
        final(transport).runs().len() == old(transport).runs().len() + 1,
        ({
            let run = final(transport).runs().last();
            &&& run.protocol_args == seq!["executor"@, "probe"@]
            &&& run.stdin is None
            &&& run.timeout_seconds == 30
            &&& run.outcome == reply.1
        }),
        reply.0@ == old(transport).description(),
{
}

/// What an executor said is handed on as it was, if and only if nothing is wrong with it.
pub proof fn answers_are_handed_on(
    description: &str,
    outcome: Result<ProcessOutput, Fault>,
    parsed: Result<ExecutorProbe, String>,
    probe: Result<ExecutorProbe, Fault>,
)
    requires
        call_ensures(poll_executor, (description, outcome, parsed), probe),
    ensures
        probe is Ok <==> probe_fault(description@, outcome, parsed) is None,
        probe matches Ok(said) ==> parsed == Ok::<ExecutorProbe, String>(said),
        probe matches Err(fault) ==> probe_fault(description@, outcome, parsed) == Some(fault@),
{
}

/// A way as a process of this host runs its program with its own arguments and then those of
/// the protocol; it must name a program.
pub proof fn local_ways_run_their_program(
    config: &TransportConfig,
    transport: Result<Transport, Fault>,
    way: &LocalProcessTransport,
    protocol_args: &[&str],
    line: Vec<String>,
    words: String,
)
    requires
        call_ensures(build_transport, (config,), transport),
        call_ensures(LocalProcessTransport::argv, (way, protocol_args), line),
        call_ensures(LocalProcessTransport::describe, (way,), words),
    ensures
        views(line@) == seq![way.program@] + views(way.args@) + str_views(protocol_args@),
        words@ == "local "@ + way.program@,
        config matches TransportConfig::Local { program, args } ==> {
            &&& transport is Ok <==> trimmed(program@).len() > 0
            &&& transport matches Ok(made) ==> (made matches Transport::Local(local)
                && local.program@ == program@ && local.args@ == args@)
            &&& transport matches Err(fault) ==> fault@ == plain(
                "local transport program must not be empty"@,
            )
        },
        config is Ssh ==> (transport matches Ok(made) ==> made is Ssh),
{
}

/// A way by `ssh` is made of what was said of it, without the space around it, if and only if
/// nothing is wrong with it; its words name whom it leads to.
pub proof fn ssh_ways_hold_what_was_said(
    host: &str,
    user: Option<&str>,
    port: Option<u16>,
    identity_file: Option<&str>,
    remote_program: Option<&str>,
    made: Result<SshTransport, Fault>,
    way: &SshTransport,
    words: String,
    protocol_args: &[&str],
    line: Vec<String>,
)
    requires
        call_ensures(SshTransport::new, (host, user, port, identity_file, remote_program), made),
        call_ensures(SshTransport::describe, (way,), words),
        call_ensures(SshTransport::argv, (way, protocol_args), line),
    ensures
        made is Ok <==> ssh_fault(
            host@,
            str_view(user),
            str_view(identity_file),
            str_view(remote_program),
        ) is None,
        made matches Ok(ssh) ==> {
            &&& ssh@.host == trimmed(host@)
            &&& user matches Some(name) ==> ssh@.user == Some(trimmed(name@))
            &&& user is None ==> ssh@.user is None
            &&& ssh@.port == port
            &&& identity_file matches Some(path) ==> ssh@.identity_file == Some(trimmed(path@))
            &&& identity_file is None ==> ssh@.identity_file is None
            &&& remote_program matches Some(program) ==> ssh@.remote_program == trimmed(program@)
            &&& remote_program is None ==> ssh@.remote_program == "coven"@
        },
        way@.user matches Some(name) ==> words@ == "ssh "@ + (name + "@"@ + way@.host),
        way@.user is None ==> words@ == "ssh "@ + way@.host,
        views(line@) == ssh_argv(way@, str_views(protocol_args@)),
{
}

} // verus!
