//! Launching a session: what is checked, in which order, and how its process is run.

use crate::fault::{caused, optional_view, plain, Fault, FaultView};
use crate::live::{
    after_entry, kill_ran, refused_and_killed, KillError, LiveSessionHandle, LiveSessionKind,
    LiveSessionRegistration, LiveSessionRuntime,
};
use crate::live_gate::{
    number_after, LiveLaunchAdmission, Refusal, RuntimeKiller, LAUNCH_REFUSED,
};
use crate::text::{joined, same_text};
use vstd::prelude::*;
use vstd::string::*;

verus! {

/// How a harness is launched.
#[derive(Debug, Clone, Copy, PartialEq, Eq, Structural)]
pub enum HarnessLaunchMode {
    Interactive,
    NonInteractive,
    Stream,
}

/// What a client asks to be launched.
#[derive(Debug, Clone)]
pub struct SessionLaunch {
    pub id: String,
    pub cwd: String,
    pub harness: String,
    pub launch_mode: HarnessLaunchMode,
    pub prompt: String,
    pub familiar_id: Option<String>,
}

/// How a session's process is run.
#[derive(Debug, Clone, Copy, PartialEq, Eq, Structural)]
pub enum LaunchTransport {
    /// Behind pipes that stay open for further messages.
    PipedStream,
    /// Behind pipes, for one prompt.
    PipedOnce,
    /// Behind a pseudo terminal.
    Terminal,
}

/// How a session is launched that passed the checks.
#[derive(Debug, Clone)]
pub struct LaunchPlan {
    pub transport: LaunchTransport,
    pub kind: LiveSessionKind,
    /// Whether the working directory is to be marked as trusted first.
    pub trust_directory: bool,
    /// What is sent to the process once it is registered.
    pub first_message: Option<String>,
}

/// Whether the command of a launch is built for pipes.
pub open spec fn builds_for_pipes(harness: Seq<char>, mode: HarnessLaunchMode) -> bool {
    harness == "codex"@ && mode == HarnessLaunchMode::NonInteractive
}

/// Whether the command of a launch is built for pipes.
pub fn uses_piped_command(launch: &SessionLaunch) -> (yes: bool)
    ensures
        yes == builds_for_pipes(launch.harness@, launch.launch_mode),
{
    same_text(launch.harness.as_str(), "codex") && launch.launch_mode
        == HarnessLaunchMode::NonInteractive
}

/// How the process of a launch is run. Noninteractive launches of one harness run behind
/// pipes everywhere, those of the others where the system is Windows.
pub open spec fn transport_of(
    harness: Seq<char>,
    mode: HarnessLaunchMode,
    windows: bool,
) -> LaunchTransport {
    match mode {
        HarnessLaunchMode::Stream => LaunchTransport::PipedStream,
        HarnessLaunchMode::NonInteractive => if windows || harness == "codex"@ {
            LaunchTransport::PipedOnce
        } else {
            LaunchTransport::Terminal
        },
        HarnessLaunchMode::Interactive => LaunchTransport::Terminal,
    }
}

/// Whether a plan is the one for a launch. `asking` names the harness that asks its user
/// whether a directory can be trusted, where nobody has said so before.
pub open spec fn plan_fits(
    plan: LaunchPlan,
    launch: SessionLaunch,
    asking: Seq<char>,
    windows: bool,
) -> bool {
    let streams = launch.launch_mode == HarnessLaunchMode::Stream;
    &&& plan.transport == transport_of(launch.harness@, launch.launch_mode, windows)
    &&& plan.kind == if streams {
        LiveSessionKind::Stream
    } else {
        LiveSessionKind::Pty
    }
    &&& plan.trust_directory == (launch.harness@ == asking && launch.launch_mode
        == HarnessLaunchMode::Interactive)
    &&& optional_view(plan.first_message) == if streams && launch.prompt@.len() > 0 {
        Some(launch.prompt@)
    } else {
        None
    }
}

/// How a launch is run. `asking_harness` names the harness that asks for trust.
pub fn plan_launch(launch: &SessionLaunch, asking_harness: &str, windows: bool) -> (plan:
    LaunchPlan)
    ensures
        plan_fits(plan, *launch, asking_harness@, windows),
{
    let codex = same_text(launch.harness.as_str(), "codex");
    let transport = match launch.launch_mode {
        HarnessLaunchMode::Stream => LaunchTransport::PipedStream,
        HarnessLaunchMode::NonInteractive => if windows || codex {
            LaunchTransport::PipedOnce
        } else {
            LaunchTransport::Terminal
        },
        HarnessLaunchMode::Interactive => LaunchTransport::Terminal,
    };
    let streams = launch.launch_mode == HarnessLaunchMode::Stream;
    let kind = if streams {
        LiveSessionKind::Stream
    } else {
        LiveSessionKind::Pty
    };
    let trust_directory = same_text(launch.harness.as_str(), asking_harness) && launch.launch_mode
        == HarnessLaunchMode::Interactive;
    let first_message = if streams && !launch.prompt.as_str().is_empty() {
        Some(launch.prompt.clone())
    } else {
        None
    };
    LaunchPlan { transport, kind, trust_directory, first_message }
}

/// What a stream launch of a harness that cannot stream is told.
pub open spec fn no_stream_text(harness: Seq<char>) -> Seq<char> {
    "harness `"@ + harness
        + "` does not support stream-mode launches; use launchMode `nonInteractive` instead"@
}

/// What a launch that names a familiar is told where there is no home to resolve it in.
pub open spec fn no_home_text(familiar: Seq<char>) -> Seq<char> {
    "cannot resolve familiar `"@ + familiar + "` without COVEN_HOME"@
}

/// Why a launch is refused, if it is; the checks are made in this order. `resolved` is what
/// resolving the familiar in the home came to, and `built` what building the command.
pub open spec fn launch_refusal(
    shutting_down: bool,
    home: Option<Seq<char>>,
    gate_closed: bool,
    launch: SessionLaunch,
    resolved: Result<(), String>,
    built: Result<(), String>,
    harness_streams: bool,
) -> Option<Seq<char>> {
    if shutting_down {
        Some("daemon is shutting down; refusing to launch a new session"@)
    } else if home is None && launch.familiar_id is Some {
        Some(no_home_text((launch.familiar_id->0)@))
    } else if home is Some && resolved is Err {
        Some((resolved->Err_0)@)
    } else if built is Err {
        Some((built->Err_0)@)
    } else if gate_closed {
        Some(LAUNCH_REFUSED@)
    } else if launch.launch_mode == HarnessLaunchMode::Stream && !harness_streams {
        Some(no_stream_text(launch.harness@))
    } else {
        None
    }
}

/// Checks a launch and admits it. `resolved` is what resolving the familiar in the home
/// came to, `built` what building the command came to, `harness_streams` whether the
/// harness can stream, and `asking_harness` names the harness that asks for trust.
pub fn launch_session<I, K: RuntimeKiller>(
    runtime: &mut LiveSessionRuntime<I, K>,
    launch: &SessionLaunch,
    resolved: Result<(), String>,
    built: Result<(), String>,
    harness_streams: bool,
    asking_harness: &str,
    windows: bool,
) -> (outcome: Result<(LiveLaunchAdmission, LaunchPlan), String>)
    requires
        old(runtime).well_formed(),
    ensures
        final(runtime).well_formed(),
        final(runtime).sessions() == old(runtime).sessions(),
        final(runtime).is_shutting_down() == old(runtime).is_shutting_down(),
        final(runtime).home() == old(runtime).home(),
        final(runtime).records_events() == old(runtime).records_events(),
        final(runtime).next_token() == old(runtime).next_token(),
        final(runtime).gate().is_closed() == old(runtime).gate().is_closed(),
        ({
            let refusal = launch_refusal(
                old(runtime).is_shutting_down(),
                old(runtime).home(),
                old(runtime).gate().is_closed(),
                *launch,
                resolved,
                built,
                harness_streams,
            );
            let admitted = launch_refusal(
                old(runtime).is_shutting_down(),
                old(runtime).home(),
                old(runtime).gate().is_closed(),
                *launch,
                resolved,
                built,
                true,
            ) is None;
            &&& final(runtime).gate().next() == if admitted {
                number_after(old(runtime).gate().next())
            } else {
                old(runtime).gate().next()
            }
            &&& match outcome {
                Ok((admission, plan)) => {
                    &&& refusal is None
                    &&& plan_fits(plan, *launch, asking_harness@, windows)
                    &&& admission.number() == old(runtime).gate().next()
                    &&& admission.is_active()
                    &&& !admission.is_published()
                    &&& final(runtime).gate().launches() == old(
                        runtime,
                    ).gate().launches().insert(admission.number(), None)
                },
                Err(text) => {
                    &&& refusal == Some(text@)
                    &&& final(runtime).gate().launches() == if admitted {
                        old(runtime).gate().launches().remove(old(runtime).gate().next())
                    } else {
                        old(runtime).gate().launches()
                    }
                },
            }
        }),
{
    if runtime.shutting_down() {
        return Err("daemon is shutting down; refusing to launch a new session".to_owned());
    }
    let has_home = runtime.has_home();
    if !has_home {
        if let Some(familiar) = &launch.familiar_id {
            return Err(
                joined(
                    joined("cannot resolve familiar `", familiar.as_str()).as_str(),
                    "` without COVEN_HOME",
                ),
            );
        }
    } else if let Err(error) = resolved {
        return Err(error);
    }
    if let Err(error) = built {
        return Err(error);
    }
    let ghost launches = runtime.gate().launches();
    let admission = match runtime.begin_launch() {
        Ok(admission) => admission,
        Err(text) => {
            return Err(text);
        },
    };
    if launch.launch_mode == HarnessLaunchMode::Stream && !harness_streams {
        let mut admission = admission;
        runtime.release_launch(&mut admission);
        proof {
            assert(runtime.gate().launches() =~= launches.remove(admission.number()));
        }
        return Err(
            joined(
                joined("harness `", launch.harness.as_str()).as_str(),
                "` does not support stream-mode launches; use launchMode `nonInteractive` instead",
            ),
        );
    }
    Ok((admission, plan_launch(launch, asking_harness, windows)))
}

/// What a stream launch is told whose first message did not reach the process.
pub open spec fn first_message_fault(
    harness: Seq<char>,
    error: Seq<char>,
    cleanup: Option<Seq<char>>,
) -> FaultView {
    let message = "stream-mode launch of `"@ + harness
        + "` failed: child closed stdin before the initial message landed (auth/setup error?)"@;
    match cleanup {
        None => caused(message, error),
        Some(text) => plain(
            caused(message, error).chain()
                + "; failed to terminate the rejected stream launch: "@ + text,
        ),
    }
}

/// What a stream launch is told whose first message did not reach the process, given what
/// killing the session failed with, if it did.
pub fn first_message_failure(harness: &str, error: &str, cleanup: Option<String>) -> (fault: Fault)
    ensures
        fault@ == first_message_fault(harness@, error@, optional_view(cleanup)),
{
    let message = joined(
        joined("stream-mode launch of `", harness).as_str(),
        "` failed: child closed stdin before the initial message landed (auth/setup error?)",
    );
    let primary = Fault::caused(message.as_str(), error);
    match cleanup {
        None => primary,
        Some(text) => {
            let whole = joined(
                joined(
                    primary.chain().as_str(),
                    "; failed to terminate the rejected stream launch: ",
                ).as_str(),
                text.as_str(),
            );
            Fault::plain(whole.as_str())
        },
    }
}

/// Registers the session of a launch whose process was spawned and published. Whatever comes
/// of it, the launch gives its place in the launch gate up.
pub fn finish_launch<I, K: RuntimeKiller>(
    runtime: &mut LiveSessionRuntime<I, K>,
    launch: &SessionLaunch,
    plan: &LaunchPlan,
    admission: &mut LiveLaunchAdmission,
    input: I,
    killer: K,
    registration: &LiveSessionRegistration,
) -> (outcome: Result<(), Refusal<K>>)
    requires
        old(runtime).well_formed(),
        registration.token() < old(runtime).next_token(),
    ensures
        final(runtime).well_formed(),
        final(runtime).is_shutting_down() == old(runtime).is_shutting_down(),
        final(runtime).home() == old(runtime).home(),
        final(runtime).records_events() == old(runtime).records_events(),
        final(runtime).next_token() == old(runtime).next_token(),
        final(runtime).gate().is_closed() == old(runtime).gate().is_closed(),
        final(runtime).gate().next() == old(runtime).gate().next(),
        !final(admission).is_active(),
        final(admission).number() == old(admission).number(),
        final(runtime).gate().launches() == if old(admission).is_active() {
            old(runtime).gate().launches().remove(old(admission).number())
        } else {
            old(runtime).gate().launches()
        },
        match outcome {
            Ok(()) => {
                &&& !old(runtime).is_shutting_down()
                &&& final(runtime).sessions() == after_entry(
                    old(runtime).sessions(),
                    launch.id@,
                    (LiveSessionHandle {
                        kind: plan.kind,
                        input,
                        killer,
                        token: registration.token(),
                    }),
                    registration.is_exited(),
                )
            },
            Err(refusal) => {
                &&& old(runtime).is_shutting_down()
                &&& final(runtime).sessions() == old(runtime).sessions()
                &&& refused_and_killed(killer, refusal)
            },
        },
{
    let registered = runtime.register_kind_with_registration(
        launch.id.clone(),
        plan.kind,
        input,
        killer,
        registration,
    );
    runtime.release_launch(admission);
    registered
}

/// Ends a launch whose first message was written, or was not: then its session is killed,
/// and its handle comes out where it left the registry, to be dropped.
pub fn finish_first_message<I, K: RuntimeKiller>(
    runtime: &mut LiveSessionRuntime<I, K>,
    launch: &SessionLaunch,
    written: Result<(), String>,
) -> (ended: (Result<(), Fault>, Option<LiveSessionHandle<I, K>>))
    requires
        old(runtime).well_formed(),
    ensures
        final(runtime).well_formed(),
        final(runtime).same_but_sessions(old(runtime)),
        match written {
            Ok(_) => ended.0 is Ok && ended.1 is None && final(runtime).sessions() == old(
                runtime,
            ).sessions(),
            Err(error) => ended.0 is Err && exists|killed: Result<(), KillError>| #[trigger]
                kill_ran(
                    old(runtime).sessions(),
                    final(runtime).sessions(),
                    launch.id@,
                    old(runtime).is_shutting_down(),
                    killed,
                    ended.1,
                ) && (ended.0->Err_0)@ == first_message_fault(
                    launch.harness@,
                    error@,
                    match killed {
                        Ok(_) => None,
                        Err(failure) => Some(failure.text()),
                    },
                ),
        },
{
    match written {
        Ok(()) => (Ok(()), None),
        Err(error) => {
            let run = runtime.kill_session(launch.id.as_str());
            assert(kill_ran(
                old(runtime).sessions(),
                runtime.sessions(),
                launch.id@,
                old(runtime).is_shutting_down(),
                run.outcome,
                run.handle,
            ));
            let cleanup = match &run.outcome {
                Ok(()) => None,
                Err(failure) => Some(failure.message()),
            };
            let fault = first_message_failure(launch.harness.as_str(), error.as_str(), cleanup);
            (Err(fault), run.handle)
        },
    }
}

/// How a launch is run: a stream behind pipes that stay open, an interactive one behind a
/// terminal, and any other behind a terminal too, but for Windows and for one harness, where
/// it runs behind pipes once.
pub proof fn modes_choose_transports(harness: Seq<char>, mode: HarnessLaunchMode, windows: bool)
    ensures
        transport_of(harness, mode, windows) == LaunchTransport::PipedStream <==> mode
            == HarnessLaunchMode::Stream,
        transport_of(harness, mode, windows) == LaunchTransport::PipedOnce <==> mode
            == HarnessLaunchMode::NonInteractive && (windows || harness == "codex"@),
        mode == HarnessLaunchMode::Interactive ==> transport_of(harness, mode, windows)
            == LaunchTransport::Terminal,
        builds_for_pipes(harness, mode) <==> harness == "codex"@ && mode
            == HarnessLaunchMode::NonInteractive,
        builds_for_pipes(harness, mode) ==> transport_of(harness, mode, windows)
            == LaunchTransport::PipedOnce,
{
}

/// A plan is a stream's if and only if the launch asks for one; then a prompt that is not
/// empty is the first message, as it is. A directory is marked as trusted only for an
/// interactive launch of the harness that asks.
pub proof fn prompts_are_first_messages(
    plan: LaunchPlan,
    launch: SessionLaunch,
    asking: Seq<char>,
    windows: bool,
)
    requires
        plan_fits(plan, launch, asking, windows),
    ensures
        plan.kind == LiveSessionKind::Stream <==> launch.launch_mode == HarnessLaunchMode::Stream,
        plan.transport == transport_of(launch.harness@, launch.launch_mode, windows),
        launch.launch_mode == HarnessLaunchMode::Stream && launch.prompt@.len() > 0 ==> (
        plan.first_message matches Some(message) && message@ == launch.prompt@),
        launch.launch_mode != HarnessLaunchMode::Stream || launch.prompt@.len() == 0
            ==> plan.first_message is None,
        plan.trust_directory <==> launch.launch_mode == HarnessLaunchMode::Interactive
            && launch.harness@ == asking,
{
}

/// A launch is let in if and only if the daemon is not shutting down, its familiar can be
/// resolved where there is a home and none is named where there is not, its command could be
/// built, the launch gate is open, and a stream is asked of a harness that can stream. What
/// stands in its way is told in this order.
pub proof fn launches_are_let_in_where_they_can_run(
    shutting_down: bool,
    home: Option<Seq<char>>,
    gate_closed: bool,
    launch: SessionLaunch,
    resolved: Result<(), String>,
    built: Result<(), String>,
    harness_streams: bool,
)
    ensures
        ({
            let refusal = launch_refusal(
                shutting_down,
                home,
                gate_closed,
                launch,
                resolved,
                built,
                harness_streams,
            );
            let known = if home is Some {
                resolved is Ok
            } else {
                launch.familiar_id is None
            };
            let streams = launch.launch_mode == HarnessLaunchMode::Stream;
            &&& refusal is None <==> !shutting_down && known && built is Ok && !gate_closed && (
            streams ==> harness_streams)
            &&& shutting_down ==> refusal == Some(
                "daemon is shutting down; refusing to launch a new session"@,
            )
            &&& !shutting_down && home is None ==> (launch.familiar_id matches Some(familiar)
                ==> refusal == Some(
                "cannot resolve familiar `"@ + familiar@ + "` without COVEN_HOME"@,
            ))
            &&& !shutting_down && home is Some ==> (resolved matches Err(error) ==> refusal
                == Some(error@))
            &&& !shutting_down && known ==> (built matches Err(error) ==> refusal == Some(error@))
            &&& !shutting_down && known && built is Ok && gate_closed ==> refusal == Some(
                LAUNCH_REFUSED@,
            )
            &&& !shutting_down && known && built is Ok && !gate_closed && streams
                && !harness_streams ==> refusal == Some(
                "harness `"@ + launch.harness@
                    + "` does not support stream-mode launches; use launchMode `nonInteractive` instead"@,
            )
        }),
{
}

/// A stream whose first message did not land is told so with the cause; where its session
/// could not be ended either, that is told behind it.
pub proof fn lost_first_messages_are_told(
    harness: Seq<char>,
    error: Seq<char>,
    cleanup: Option<Seq<char>>,
)
    ensures
        ({
            let fault = first_message_fault(harness, error, cleanup);
            let message = "stream-mode launch of `"@ + harness
                + "` failed: child closed stdin before the initial message landed (auth/setup error?)"@;
            &&& cleanup is None ==> fault == caused(message, error)
            &&& cleanup matches Some(text) ==> fault == plain(
                message + ": "@ + error + "; failed to terminate the rejected stream launch: "@
                    + text,
            )
        }),
{
}

/// A launch that is let in takes the next place in the launch gate, with a plan that fits; one
/// that is refused holds no place and is told why. The sessions are not touched.
pub proof fn launches_take_one_place<I, K: RuntimeKiller>(
    runtime: &mut LiveSessionRuntime<I, K>,
    launch: &SessionLaunch,
    resolved: Result<(), String>,
    built: Result<(), String>,
    harness_streams: bool,
    asking: &str,
    windows: bool,
    outcome: Result<(LiveLaunchAdmission, LaunchPlan), String>,
)
    requires
        call_ensures(
            launch_session::<I, K>,
            (runtime, launch, resolved, built, harness_streams, asking, windows),
            outcome,
        ),
    ensures
        ({
            let refusal = launch_refusal(
                old(runtime).is_shutting_down(),
                old(runtime).home(),
                old(runtime).gate().is_closed(),
                *launch,
                resolved,
                built,
                harness_streams,
            );
            &&& outcome is Ok <==> refusal is None
            &&& outcome matches Err(text) ==> refusal == Some(text@)
            &&& outcome matches Ok((place, plan)) ==> {
                &&& plan_fits(plan, *launch, asking@, windows)
                &&& place.is_active() && !place.is_published()
                &&& place.number() == old(runtime).gate().next()
                &&& final(runtime).gate().launches() == old(runtime).gate().launches().insert(
                    place.number(),
                    None,
                )
            }
        }),
        final(runtime).sessions() == old(runtime).sessions(),
        final(runtime).gate().is_closed() == old(runtime).gate().is_closed(),
{
}

/// A launch whose first message did not land has its session killed and is told so; one whose
/// message landed goes on.
pub proof fn lost_messages_end_the_launch<I, K: RuntimeKiller>(
    runtime: &mut LiveSessionRuntime<I, K>,
    launch: &SessionLaunch,
    written: Result<(), String>,
    ended: (Result<(), Fault>, Option<LiveSessionHandle<I, K>>),
)
    requires
        call_ensures(finish_first_message::<I, K>, (runtime, launch, written), ended),
    ensures
        ended.0 is Ok <==> written is Ok,
        written is Ok ==> ended.1 is None && final(runtime).sessions() == old(runtime).sessions(),
{
}

/// A launch whose process runs is registered under its own name, as its plan's kind and with
/// its owner, or is refused and killed; either way it gives its place in the launch gate up.
pub proof fn finished_launches_are_registered<I, K: RuntimeKiller>(
    runtime: &mut LiveSessionRuntime<I, K>,
    launch: &SessionLaunch,
    plan: &LaunchPlan,
    admission: &mut LiveLaunchAdmission,
    input: I,
    killer: K,
    registration: &LiveSessionRegistration,
    outcome: Result<(), Refusal<K>>,
)
    requires
        call_ensures(
            finish_launch::<I, K>,
            (runtime, launch, plan, admission, input, killer, registration),
            outcome,
        ),
    ensures
        outcome is Ok <==> !old(runtime).is_shutting_down(),
        outcome is Ok && !registration.is_exited() ==> {
            let now = final(runtime).sessions();
            &&& now.dom().contains(launch.id@)
            &&& now[launch.id@].kind == plan.kind
            &&& now[launch.id@].killer == killer
            &&& now[launch.id@].input == input
            &&& now[launch.id@].token == registration.token()
        },
        outcome matches Err(refusal) ==> refused_and_killed(killer, refusal),
        !final(admission).is_active(),
        old(admission).is_active() ==> !final(runtime).gate().launches().dom().contains(
            old(admission).number(),
        ),
{
}

/// The plan of a launch is made from what the launch asks for.
pub proof fn plans_are_made_from_the_launch(
    launch: &SessionLaunch,
    asking: &str,
    windows: bool,
    plan: LaunchPlan,
    piped: bool,
)
    requires
        call_ensures(plan_launch, (launch, asking, windows), plan),
        call_ensures(uses_piped_command, (launch,), piped),
    ensures
        plan_fits(plan, *launch, asking@, windows),
        piped <==> launch.harness@ == "codex"@ && launch.launch_mode
            == HarnessLaunchMode::NonInteractive,
{
}

} // verus!
