//! Jobs on an executor: what is run, how long, and the envelope in which its outcome comes
//! back, whatever went wrong.

use crate::executor_node::{
    str_views, ExecutorTransport, ProcessOutput, TransportRun, EXECUTOR_PROTOCOL_VERSION,
};
use crate::fault::{optional_view, Fault};
use crate::json::{field, field_of, items_in, json_model, json_models, Json};
use crate::live_events::{lossy_text, utf8_lossy};
use crate::numbers::{decimal, decimal_text};
use crate::response::{append_bytes, copy_bytes};
use crate::text::{is_blank, joined, same_text, trimmed, views};
use serde_json::Value;
use vstd::prelude::*;
use vstd::string::*;

verus! {

pub const RESULT_STATUS_COMPLETED: &'static str = "completed";

pub const RESULT_STATUS_FAILED: &'static str = "failed";

pub const RESULT_STATUS_TIMEOUT: &'static str = "timeout";

pub const RESULT_STATUS_REJECTED: &'static str = "rejected";

pub const RESULT_STATUS_TRANSPORT_ERROR: &'static str = "transport_error";

pub const RESULT_STATUS_CANCELLED: &'static str = "cancelled";

/// How long a job may run where it does not say, in seconds.
pub const DEFAULT_JOB_TIMEOUT_SECONDS: u64 = 300;

/// How much longer than the job the way to the executor is kept open, in seconds.
pub const DISPATCH_TIMEOUT_GRACE_SECONDS: u64 = 30;

/// The most bytes that are kept of what a process writes.
pub const MAX_CAPTURED_OUTPUT_BYTES: usize = 1_048_576;

/// A job for an executor.
#[derive(Debug)]
pub struct ExecutorJob {
    pub protocol_version: String,
    pub job_id: String,
    pub hub_id: Option<String>,
    pub required_capabilities: Vec<String>,
    pub command: Vec<String>,
    pub cwd: Option<String>,
    pub env: Vec<(String, String)>,
    pub stdin: Option<String>,
    pub timeout_seconds: Option<u64>,
    pub context: Option<Value>,
}

/// What became of a job.
#[derive(Debug)]
pub struct ExecutorResultEnvelope {
    pub protocol_version: String,
    pub job_id: String,
    pub status: String,
    pub exit_code: Option<i64>,
    pub stdout: String,
    pub stderr: String,
    pub started_at: String,
    pub finished_at: String,
    pub duration_ms: i64,
    pub error: Option<String>,
    pub service_advertisements: Vec<Value>,
}

/// What an envelope holds.
pub struct EnvelopeView {
    pub protocol_version: Seq<char>,
    pub job_id: Seq<char>,
    pub status: Seq<char>,
    pub exit_code: Option<i64>,
    pub stdout: Seq<char>,
    pub stderr: Seq<char>,
    pub started_at: Seq<char>,
    pub finished_at: Seq<char>,
    pub duration_ms: i64,
    pub error: Option<Seq<char>>,
    pub service_advertisements: Seq<Json>,
}

impl View for ExecutorResultEnvelope {
    type V = EnvelopeView;

    open spec fn view(&self) -> EnvelopeView {
        EnvelopeView {
            protocol_version: self.protocol_version@,
            job_id: self.job_id@,
            status: self.status@,
            exit_code: self.exit_code,
            stdout: self.stdout@,
            stderr: self.stderr@,
            started_at: self.started_at@,
            finished_at: self.finished_at@,
            duration_ms: self.duration_ms,
            error: optional_view(self.error),
            service_advertisements: json_models(self.service_advertisements@),
        }
    }
}

/// When something began and ended, and how many milliseconds it took.
#[derive(Debug)]
pub struct Times {
    pub started_at: String,
    pub finished_at: String,
    pub elapsed_ms: u128,
}

/// A number of milliseconds, as far as it can be told.
pub open spec fn clamped(elapsed_ms: u128) -> i64 {
    if elapsed_ms > i64::MAX {
        i64::MAX
    } else {
        elapsed_ms as i64
    }
}

fn clamp(elapsed_ms: u128) -> (duration: i64)
    ensures
        duration == clamped(elapsed_ms),
{
    if elapsed_ms > 0x7fff_ffff_ffff_ffff {
        i64::MAX
    } else {
        elapsed_ms as i64
    }
}

/// How long the way to the executor is kept open for a job.
pub open spec fn transport_timeout(job: ExecutorJob) -> u64 {
    let job_timeout = match job.timeout_seconds {
        Some(seconds) => seconds,
        None => DEFAULT_JOB_TIMEOUT_SECONDS,
    };
    if job_timeout + DISPATCH_TIMEOUT_GRACE_SECONDS > u64::MAX {
        u64::MAX
    } else {
        (job_timeout + DISPATCH_TIMEOUT_GRACE_SECONDS) as u64
    }
}

/// How long the way to the executor is kept open for a job: longer than the job may run, so
/// that the executor's own limit comes first.
pub fn dispatch_timeout(job: &ExecutorJob) -> (seconds: u64)
    ensures
        seconds == transport_timeout(*job),
{
    let job_timeout = match job.timeout_seconds {
        Some(seconds) => seconds,
        None => DEFAULT_JOB_TIMEOUT_SECONDS,
    };
    if job_timeout > u64::MAX - DISPATCH_TIMEOUT_GRACE_SECONDS {
        u64::MAX
    } else {
        job_timeout + DISPATCH_TIMEOUT_GRACE_SECONDS
    }
}

/// Sends a job to an executor, once, on some way to it, in the form in which it was written
/// down.
pub fn send_job<T: ExecutorTransport>(transport: &mut T, job: &ExecutorJob, payload: &str) -> (
reply: (String, Result<ProcessOutput, Fault>))
    ensures
        reply.0@ == old(transport).description(),
        final(transport).runs() == old(transport).runs().push(
            TransportRun {
                protocol_args: seq!["executor"@, "run-job"@],
                stdin: Some(payload@),
                timeout_seconds: transport_timeout(*job),
                outcome: reply.1,
            },
        ),
{
    let description = transport.describe();
    let args = ["executor", "run-job"];
    assert(str_views(args@) =~= seq!["executor"@, "run-job"@]);
    let outcome = transport.run(&args, Some(payload), dispatch_timeout(job));
    (description, outcome)
}

/// The envelope of a job that never came to the executor, or whose outcome never came back.
pub open spec fn transport_error(
    job_id: Seq<char>,
    times: Times,
    error: Seq<char>,
    stdout: Seq<char>,
    stderr: Seq<char>,
) -> EnvelopeView {
    EnvelopeView {
        protocol_version: EXECUTOR_PROTOCOL_VERSION@,
        job_id,
        status: RESULT_STATUS_TRANSPORT_ERROR@,
        exit_code: None,
        stdout,
        stderr,
        started_at: times.started_at@,
        finished_at: times.finished_at@,
        duration_ms: clamped(times.elapsed_ms),
        error: Some(error),
        service_advertisements: seq![],
    }
}

/// The envelope of a job that never came to the executor, or whose outcome never came back.
pub fn transport_error_envelope(
    job_id: &str,
    times: &Times,
    error: String,
    stdout: String,
    stderr: String,
) -> (envelope: ExecutorResultEnvelope)
    ensures
        envelope@ == transport_error(job_id@, *times, error@, stdout@, stderr@),
{
    let none: Vec<Value> = Vec::new();
    assert(json_models(none@) =~= seq![]);
    ExecutorResultEnvelope {
        protocol_version: EXECUTOR_PROTOCOL_VERSION.to_owned(),
        job_id: job_id.to_owned(),
        status: RESULT_STATUS_TRANSPORT_ERROR.to_owned(),
        exit_code: None,
        stdout,
        stderr,
        started_at: times.started_at.clone(),
        finished_at: times.finished_at.clone(),
        duration_ms: clamp(times.elapsed_ms),
        error: Some(error),
        service_advertisements: none,
    }
}

/// What sending a job came to: it could not be written down, or what came back of it.
#[derive(Debug)]
pub enum Dispatch {
    /// The job could not be written down.
    NotWritten(String),
    /// The way, in words, and what running the executor's program on it came to, with how
    /// the envelope that it wrote was read.
    Sent(String, Result<ProcessOutput, Fault>, Result<ExecutorResultEnvelope, String>),
}

/// What is wrong with an envelope that came back for a job.
pub open spec fn envelope_complaint(job_id: Seq<char>, envelope: EnvelopeView) -> Option<
    Seq<char>,
> {
    if envelope.protocol_version != EXECUTOR_PROTOCOL_VERSION@ {
        Some(
            "result envelope protocol version mismatch: expected "@ + EXECUTOR_PROTOCOL_VERSION@
                + ", got "@ + envelope.protocol_version,
        )
    } else if envelope.status != RESULT_STATUS_REJECTED@ && envelope.job_id != job_id {
        Some(
            "result envelope job id mismatch: expected "@ + job_id + ", got "@ + envelope.job_id,
        )
    } else {
        None
    }
}

/// The envelope of a job, whatever sending it came to.
pub open spec fn dispatched(job_id: Seq<char>, dispatch: Dispatch, times: Times) -> EnvelopeView {
    match dispatch {
        Dispatch::NotWritten(error) => transport_error(
            job_id,
            times,
            "failed to serialize job spec: "@ + error@,
            ""@,
            ""@,
        ),
        Dispatch::Sent(description, Err(fault), _) => transport_error(
            job_id,
            times,
            "transport failure via "@ + description@ + ": "@ + fault@.chain(),
            ""@,
            ""@,
        ),
        Dispatch::Sent(description, Ok(output), parsed) => if output.timed_out {
            transport_error(
                job_id,
                times,
                "transport timed out via "@ + description@,
                output.stdout@,
                output.stderr@,
            )
        } else {
            match parsed {
                Err(error) => transport_error(
                    job_id,
                    times,
                    "executor returned malformed result envelope: "@ + error@,
                    output.stdout@,
                    output.stderr@,
                ),
                Ok(envelope) => match envelope_complaint(job_id, envelope@) {
                    Some(complaint) => transport_error(
                        job_id,
                        times,
                        complaint,
                        output.stdout@,
                        output.stderr@,
                    ),
                    None => envelope@,
                },
            }
        },
    }
}

fn complain_of(job_id: &str, envelope: &ExecutorResultEnvelope) -> (complaint: Option<String>)
    ensures
        optional_view(complaint) == envelope_complaint(job_id@, envelope@),
{
    if !same_text(envelope.protocol_version.as_str(), EXECUTOR_PROTOCOL_VERSION) {
        let text = joined(
            "result envelope protocol version mismatch: expected ",
            EXECUTOR_PROTOCOL_VERSION,
        );
        let text = joined(text.as_str(), ", got ");
        return Some(joined(text.as_str(), envelope.protocol_version.as_str()));
    }
    if !same_text(envelope.status.as_str(), RESULT_STATUS_REJECTED) && !same_text(
        envelope.job_id.as_str(),
        job_id,
    ) {
        let text = joined("result envelope job id mismatch: expected ", job_id);
        let text = joined(text.as_str(), ", got ");
        return Some(joined(text.as_str(), envelope.job_id.as_str()));
    }
    None
}

/// The envelope of a job, whatever sending it came to: the executor's own where it is in
/// order, else one that says what went wrong on the way.
pub fn dispatch_job(job: &ExecutorJob, dispatch: Dispatch, times: &Times) -> (envelope:
    ExecutorResultEnvelope)
    ensures
        envelope@ == dispatched(job.job_id@, dispatch, *times),
{
    let job_id = job.job_id.as_str();
    match dispatch {
        Dispatch::NotWritten(error) => transport_error_envelope(
            job_id,
            times,
            joined("failed to serialize job spec: ", error.as_str()),
            "".to_owned(),
            "".to_owned(),
        ),
        Dispatch::Sent(description, outcome, parsed) => {
            let output = match outcome {
                Ok(output) => output,
                Err(fault) => {
                    let text = joined("transport failure via ", description.as_str());
                    let text = joined(text.as_str(), ": ");
                    return transport_error_envelope(
                        job_id,
                        times,
                        joined(text.as_str(), fault.chain().as_str()),
                        "".to_owned(),
                        "".to_owned(),
                    );
                },
            };
            if output.timed_out {
                return transport_error_envelope(
                    job_id,
                    times,
                    joined("transport timed out via ", description.as_str()),
                    output.stdout,
                    output.stderr,
                );
            }
            match parsed {
                Err(error) => transport_error_envelope(
                    job_id,
                    times,
                    joined("executor returned malformed result envelope: ", error.as_str()),
                    output.stdout,
                    output.stderr,
                ),
                Ok(envelope) => match complain_of(job_id, &envelope) {
                    Some(complaint) => transport_error_envelope(
                        job_id,
                        times,
                        complaint,
                        output.stdout,
                        output.stderr,
                    ),
                    None => envelope,
                },
            }
        },
    }
}

/// Whatever sending a job comes to, its envelope speaks the protocol, and names the job
/// unless the executor refused to take it.
pub proof fn envelopes_are_normal(job_id: Seq<char>, dispatch: Dispatch, times: Times)
    ensures
        dispatched(job_id, dispatch, times).protocol_version == EXECUTOR_PROTOCOL_VERSION@,
        dispatched(job_id, dispatch, times).job_id == job_id || dispatched(
            job_id,
            dispatch,
            times,
        ).status == RESULT_STATUS_REJECTED@,
{
}

/// The envelope of a job that was not run.
pub open spec fn rejected(job_id: Seq<char>, error: Seq<char>, now: Seq<char>) -> EnvelopeView {
    EnvelopeView {
        protocol_version: EXECUTOR_PROTOCOL_VERSION@,
        job_id,
        status: RESULT_STATUS_REJECTED@,
        exit_code: None,
        stdout: ""@,
        stderr: ""@,
        started_at: now,
        finished_at: now,
        duration_ms: 0,
        error: Some(error),
        service_advertisements: seq![],
    }
}

/// The envelope of a job that was not run.
pub fn rejected_envelope(job_id: &str, error: String, now: &str) -> (envelope:
    ExecutorResultEnvelope)
    ensures
        envelope@ == rejected(job_id@, error@, now@),
{
    let none: Vec<Value> = Vec::new();
    assert(json_models(none@) =~= seq![]);
    ExecutorResultEnvelope {
        protocol_version: EXECUTOR_PROTOCOL_VERSION.to_owned(),
        job_id: job_id.to_owned(),
        status: RESULT_STATUS_REJECTED.to_owned(),
        exit_code: None,
        stdout: "".to_owned(),
        stderr: "".to_owned(),
        started_at: now.to_owned(),
        finished_at: now.to_owned(),
        duration_ms: 0,
        error: Some(error),
        service_advertisements: none,
    }
}

/// The envelope of a job that could not be read.
pub fn unreadable_job(error: &str, now: &str) -> (envelope: ExecutorResultEnvelope)
    ensures
        envelope@ == rejected(""@, "malformed job spec on stdin: "@ + error@, now@),
{
    rejected_envelope("", joined("malformed job spec on stdin: ", error), now)
}

/// Why a job is not run: for whom that is said, and what. It is known whether the directory
/// that the job names, if any, is there.
pub open spec fn job_refusal(job: ExecutorJob, cwd_is_dir: bool) -> Option<
    (Seq<char>, Seq<char>),
> {
    if job.protocol_version@ != EXECUTOR_PROTOCOL_VERSION@ {
        Some(
            (
                job.job_id@,
                "job protocol version mismatch: expected "@ + EXECUTOR_PROTOCOL_VERSION@
                    + ", got "@ + job.protocol_version@,
            ),
        )
    } else if trimmed(job.job_id@).len() == 0 {
        Some((""@, "job id must not be empty"@))
    } else if job.command@.len() == 0 {
        Some((job.job_id@, "job command must not be empty"@))
    } else {
        match job.cwd {
            Some(cwd) => if cwd_is_dir {
                None
            } else {
                Some(
                    (job.job_id@, "job cwd does not exist on this executor: "@ + cwd@),
                )
            },
            None => None,
        }
    }
}

/// How long a job may run, in seconds.
pub open spec fn job_timeout(job: ExecutorJob) -> u64 {
    match job.timeout_seconds {
        Some(seconds) => seconds,
        None => DEFAULT_JOB_TIMEOUT_SECONDS,
    }
}

/// What is run for a job: the program, its arguments, and how long it may take.
#[derive(Debug)]
pub struct JobLaunch {
    pub program: String,
    pub args: Vec<String>,
    pub timeout_seconds: u64,
}

/// What is run for a job, or the envelope that says why nothing is.
pub fn admit_job(job: &ExecutorJob, cwd_is_dir: bool, now: &str) -> (launch: Result<
    JobLaunch,
    ExecutorResultEnvelope,
>)
    ensures
        match launch {
            Ok(launch) => {
                &&& job_refusal(*job, cwd_is_dir) is None
                &&& launch.program@ == job.command@[0]@
                &&& views(launch.args@) == views(job.command@).skip(1)
                &&& launch.timeout_seconds == job_timeout(*job)
            },
            Err(envelope) => job_refusal(*job, cwd_is_dir) matches Some(refusal) && envelope@
                == rejected(refusal.0, refusal.1, now@),
        },
{
    if !same_text(job.protocol_version.as_str(), EXECUTOR_PROTOCOL_VERSION) {
        let text = joined("job protocol version mismatch: expected ", EXECUTOR_PROTOCOL_VERSION);
        let text = joined(text.as_str(), ", got ");
        return Err(
            rejected_envelope(
                job.job_id.as_str(),
                joined(text.as_str(), job.protocol_version.as_str()),
                now,
            ),
        );
    }
    if is_blank(job.job_id.as_str()) {
        return Err(rejected_envelope("", "job id must not be empty".to_owned(), now));
    }
    if job.command.len() == 0 {
        return Err(
            rejected_envelope(
                job.job_id.as_str(),
                "job command must not be empty".to_owned(),
                now,
            ),
        );
    }
    if let Some(cwd) = &job.cwd {
        if !cwd_is_dir {
            return Err(
                rejected_envelope(
                    job.job_id.as_str(),
                    joined("job cwd does not exist on this executor: ", cwd.as_str()),
                    now,
                ),
            );
        }
    }
    let mut args: Vec<String> = Vec::new();
    let mut i: usize = 1;
    assert(views(args@) =~= views(job.command@).subrange(1, 1));
    while i < job.command.len()
        invariant
            1 <= i <= job.command@.len(),
            views(args@) == views(job.command@).subrange(1, i as int),
        decreases job.command@.len() - i,
    {
        let ghost before = views(args@);
        args.push(job.command[i].clone());
        assert(views(args@) =~= before.push(job.command@[i as int]@));
        assert(views(job.command@)[i as int] == job.command@[i as int]@);
        i += 1;
        assert(views(args@) =~= views(job.command@).subrange(1, i as int));
    }
    assert(views(job.command@).subrange(1, i as int) =~= views(job.command@).skip(1));
    let timeout_seconds = match job.timeout_seconds {
        Some(seconds) => seconds,
        None => DEFAULT_JOB_TIMEOUT_SECONDS,
    };
    Ok(JobLaunch { program: job.command[0].clone(), args, timeout_seconds })
}

/// What a job's process came to.
pub open spec fn status_of(output: ProcessOutput, cancelled: bool) -> Seq<char> {
    if cancelled {
        RESULT_STATUS_CANCELLED@
    } else if output.timed_out {
        RESULT_STATUS_TIMEOUT@
    } else if output.exit_code == Some(0i64) {
        RESULT_STATUS_COMPLETED@
    } else {
        RESULT_STATUS_FAILED@
    }
}

/// What is said of a job that did not run to its end.
pub open spec fn error_of(output: ProcessOutput, cancelled: bool, timeout: u64) -> Option<
    Seq<char>,
> {
    if cancelled {
        Some("job was cancelled"@)
    } else if output.timed_out {
        Some("job exceeded timeout of "@ + decimal(timeout as nat) + "s"@)
    } else {
        None
    }
}

/// The services that the context of a job advertises.
pub open spec fn advertised(context: Option<Value>) -> Seq<Json> {
    match context {
        Some(value) => match field_of(json_model(value), "serviceAdvertisements"@) {
            Some(Json::Array(items)) => items,
            _ => seq![],
        },
        None => seq![],
    }
}

fn advertisements(context: &Option<Value>) -> (items: Vec<Value>)
    ensures
        json_models(items@) == advertised(*context),
{
    let none: Vec<Value> = Vec::new();
    assert(json_models(none@) =~= seq![]);
    match context {
        Some(value) => match field(value, "serviceAdvertisements") {
            Some(inner) => match items_in(inner) {
                Some(items) => items,
                None => none,
            },
            None => none,
        },
        None => none,
    }
}

/// The envelope of a job that was let run, given what its process left behind and whether it
/// was cancelled, or why it could not be started.
pub open spec fn observed(
    job: ExecutorJob,
    outcome: Result<(ProcessOutput, bool), Fault>,
    times: Times,
) -> EnvelopeView {
    match outcome {
        Err(fault) => rejected(
            job.job_id@,
            "failed to launch job command: "@ + fault@.chain(),
            times.finished_at@,
        ),
        Ok(pair) => EnvelopeView {
            protocol_version: EXECUTOR_PROTOCOL_VERSION@,
            job_id: job.job_id@,
            status: status_of(pair.0, pair.1),
            exit_code: pair.0.exit_code,
            stdout: pair.0.stdout@,
            stderr: pair.0.stderr@,
            started_at: times.started_at@,
            finished_at: times.finished_at@,
            duration_ms: clamped(times.elapsed_ms),
            error: error_of(pair.0, pair.1, job_timeout(job)),
            service_advertisements: advertised(job.context),
        },
    }
}

/// The envelope of a job that was let run, given what its process left behind and whether it
/// was cancelled, or why it could not be started.
pub fn run_job_observed(
    job: &ExecutorJob,
    outcome: Result<(ProcessOutput, bool), Fault>,
    times: &Times,
) -> (envelope: ExecutorResultEnvelope)
    ensures
        envelope@ == match outcome {
            Err(fault) => rejected(
                job.job_id@,
                "failed to launch job command: "@ + fault@.chain(),
                times.finished_at@,
            ),
            Ok(pair) => EnvelopeView {
                protocol_version: EXECUTOR_PROTOCOL_VERSION@,
                job_id: job.job_id@,
                status: status_of(pair.0, pair.1),
                exit_code: pair.0.exit_code,
                stdout: pair.0.stdout@,
                stderr: pair.0.stderr@,
                started_at: times.started_at@,
                finished_at: times.finished_at@,
                duration_ms: clamped(times.elapsed_ms),
                error: error_of(pair.0, pair.1, job_timeout(*job)),
                service_advertisements: advertised(job.context),
            },
        },
        envelope@ == observed(*job, outcome, *times),
{
    let (output, cancelled) = match outcome {
        Ok(pair) => pair,
        Err(fault) => {
            return rejected_envelope(
                job.job_id.as_str(),
                joined("failed to launch job command: ", fault.chain().as_str()),
                times.finished_at.as_str(),
            );
        },
    };
    let succeeded = match output.exit_code {
        Some(code) => code == 0,
        None => false,
    };
    let status = if cancelled {
        RESULT_STATUS_CANCELLED
    } else if output.timed_out {
        RESULT_STATUS_TIMEOUT
    } else if succeeded {
        RESULT_STATUS_COMPLETED
    } else {
        RESULT_STATUS_FAILED
    };
    let timeout = match job.timeout_seconds {
        Some(seconds) => seconds,
        None => DEFAULT_JOB_TIMEOUT_SECONDS,
    };
    let error = if cancelled {
        Some("job was cancelled".to_owned())
    } else if output.timed_out {
        let text = joined("job exceeded timeout of ", decimal_text(timeout).as_str());
        Some(joined(text.as_str(), "s"))
    } else {
        None
    };
    ExecutorResultEnvelope {
        protocol_version: EXECUTOR_PROTOCOL_VERSION.to_owned(),
        job_id: job.job_id.clone(),
        status: status.to_owned(),
        exit_code: output.exit_code,
        stdout: output.stdout,
        stderr: output.stderr,
        started_at: times.started_at.clone(),
        finished_at: times.finished_at.clone(),
        duration_ms: clamp(times.elapsed_ms),
        error,
        service_advertisements: advertisements(&job.context),
    }
}

/// What is done about a process that is watched.
#[derive(Debug, Clone, Copy, PartialEq, Eq, Structural)]
pub enum WatchStep {
    /// It has ended.
    Finished,
    /// It is to be cancelled: kill it.
    Cancel,
    /// Its time is up: kill it.
    TimeOut,
    /// Look again in a moment.
    Wait,
}

/// What is done about a process that is watched. One that has ended is neither cancelled nor
/// out of time.
pub fn watch_process(ended: bool, should_cancel: bool, past_deadline: bool) -> (step: WatchStep)
    ensures
        step == if ended {
            WatchStep::Finished
        } else if should_cancel {
            WatchStep::Cancel
        } else if past_deadline {
            WatchStep::TimeOut
        } else {
            WatchStep::Wait
        },
{
    if ended {
        WatchStep::Finished
    } else if should_cancel {
        WatchStep::Cancel
    } else if past_deadline {
        WatchStep::TimeOut
    } else {
        WatchStep::Wait
    }
}

/// What a process left behind, and whether it was cancelled. One whose time was up has no
/// exit code.
pub fn run_process_with_timeout(
    ended_by: WatchStep,
    exit_code: Option<i64>,
    stdout: String,
    stderr: String,
) -> (outcome: (ProcessOutput, bool))
    requires
        ended_by != WatchStep::Wait,
    ensures
        outcome.0.exit_code == if ended_by == WatchStep::TimeOut {
            None
        } else {
            exit_code
        },
        outcome.0.stdout == stdout,
        outcome.0.stderr == stderr,
        outcome.0.timed_out == (ended_by == WatchStep::TimeOut),
        outcome.1 == (ended_by == WatchStep::Cancel),
{
    let timed_out = ended_by == WatchStep::TimeOut;
    let exit_code = if timed_out {
        None
    } else {
        exit_code
    };
    (ProcessOutput { exit_code, stdout, stderr, timed_out }, ended_by == WatchStep::Cancel)
}

/// The first bytes of some, as many as are kept.
pub open spec fn capped(bytes: Seq<u8>) -> Seq<u8> {
    if bytes.len() <= MAX_CAPTURED_OUTPUT_BYTES {
        bytes
    } else {
        bytes.take(MAX_CAPTURED_OUTPUT_BYTES as int)
    }
}

/// The text of what is kept of a process's output, with a note where the limit was reached.
pub open spec fn captured_text(kept: Seq<u8>) -> Seq<char> {
    if kept.len() >= MAX_CAPTURED_OUTPUT_BYTES {
        utf8_lossy(kept) + "\n<output truncated>"@
    } else {
        utf8_lossy(kept)
    }
}

/// What is kept of a process's output, up to a limit.
#[derive(Debug)]
pub struct CappedOutput {
    buffer: Vec<u8>,
}

impl CappedOutput {
    /// The bytes that are kept.
    pub closed spec fn kept(&self) -> Seq<u8> {
        self.buffer@
    }

    /// Nothing is kept yet.
    pub fn new() -> (output: CappedOutput)
        ensures
            output.kept() == Seq::<u8>::empty(),
    {
        CappedOutput { buffer: Vec::new() }
    }

    /// Takes up the next bytes. What goes beyond the limit is dropped.
    pub fn receive(&mut self, chunk: &[u8])
        requires
            old(self).kept().len() <= MAX_CAPTURED_OUTPUT_BYTES,
        ensures
            final(self).kept() == capped(old(self).kept() + chunk@),
            final(self).kept().len() <= MAX_CAPTURED_OUTPUT_BYTES,
    {
        let remaining: usize = MAX_CAPTURED_OUTPUT_BYTES - self.buffer.len();
        let ghost before = self.buffer@;
        if chunk.len() <= remaining {
            append_bytes(&mut self.buffer, chunk);
        } else {
            let part = copy_bytes(chunk, 0, remaining);
            append_bytes(&mut self.buffer, part.as_slice());
            assert(self.buffer@ =~= (before + chunk@).take(MAX_CAPTURED_OUTPUT_BYTES as int));
        }
    }

    /// The text of what is kept.
    pub fn finish(&self) -> (text: String)
        ensures
            text@ == captured_text(self.kept()),
    {
        let text = lossy_text(self.buffer.as_slice());
        if self.buffer.len() >= MAX_CAPTURED_OUTPUT_BYTES {
            joined(text.as_str(), "\n<output truncated>")
        } else {
            text
        }
    }
}

/// In whatever chunks a process writes, what is kept is the start of all that it wrote.
pub proof fn capping_ignores_chunks(earlier: Seq<u8>, chunk: Seq<u8>)
    ensures
        capped(capped(earlier) + chunk) == capped(earlier + chunk),
        capped(earlier).len() <= MAX_CAPTURED_OUTPUT_BYTES,
        capped(earlier).is_prefix_of(earlier),
{
    assert(capped(capped(earlier) + chunk) =~= capped(earlier + chunk));
    assert(capped(earlier) =~= earlier.subrange(0, capped(earlier).len() as int));
}

/// What became of a job that was let run: cancelled where it was cancelled, out of time where
/// its time was up, and else completed if and only if its process ended with zero, failed
/// otherwise. One that could not be started was rejected.
pub proof fn exits_decide_jobs(
    job: ExecutorJob,
    outcome: Result<(ProcessOutput, bool), Fault>,
    times: Times,
)
    ensures
        ({
            let status = observed(job, outcome, times).status;
            &&& status == "completed"@ <==> (outcome matches Ok((output, cancelled)) && !cancelled
                && !output.timed_out && (output.exit_code matches Some(code) && code == 0))
            &&& status == "failed"@ <==> (outcome matches Ok((output, cancelled)) && !cancelled
                && !output.timed_out && (output.exit_code matches Some(code) ==> code != 0))
            &&& status == "timeout"@ <==> (outcome matches Ok((output, cancelled)) && !cancelled
                && output.timed_out)
            &&& status == "cancelled"@ <==> (outcome matches Ok((_, cancelled)) && cancelled)
            &&& status == "rejected"@ <==> outcome is Err
        }),
{
    reveal_strlit("completed");
    reveal_strlit("failed");
    reveal_strlit("timeout");
    reveal_strlit("cancelled");
    reveal_strlit("rejected");
    assert("completed"@.len() == 9);
    assert("failed"@.len() == 6);
    assert("timeout"@.len() == 7);
    assert("cancelled"@.len() == 9);
    assert("rejected"@.len() == 8);
    assert("completed"@[1] == 'o');
    assert("cancelled"@[1] == 'a');
}

/// The envelope of a job that was let run names the job and the protocol, and hands on what
/// the process wrote, its exit code and its times as they were; a span that no 64-bit number
/// holds is told as the greatest. It speaks of an error only where the job was cancelled or
/// its time was up, and then says how many seconds it had: those it asked for, or 300.
pub proof fn envelopes_tell_of_the_process(job: ExecutorJob, output: ProcessOutput, cancelled: bool, times: Times)
    ensures
        ({
            let envelope = observed(job, Ok((output, cancelled)), times);
            let seconds: nat = match job.timeout_seconds {
                Some(asked) => asked as nat,
                None => 300,
            };
            &&& envelope.protocol_version == EXECUTOR_PROTOCOL_VERSION@
            &&& envelope.job_id == job.job_id@
            &&& envelope.exit_code == output.exit_code
            &&& envelope.stdout == output.stdout@
            &&& envelope.stderr == output.stderr@
            &&& envelope.started_at == times.started_at@
            &&& envelope.finished_at == times.finished_at@
            &&& times.elapsed_ms <= 0x7fff_ffff_ffff_ffff ==> envelope.duration_ms
                == times.elapsed_ms
            &&& times.elapsed_ms > 0x7fff_ffff_ffff_ffff ==> envelope.duration_ms
                == 0x7fff_ffff_ffff_ffff
            &&& cancelled ==> envelope.error == Some("job was cancelled"@)
            &&& !cancelled && output.timed_out ==> envelope.error == Some(
                "job exceeded timeout of "@ + decimal(seconds) + "s"@,
            )
            &&& !cancelled && !output.timed_out ==> envelope.error is None
        }),
{
}

/// The services in an envelope are the items of the list under `serviceAdvertisements` in the
/// job's context; where there is no such list, there are none.
pub proof fn advertisements_come_from_the_context(
    job: ExecutorJob,
    output: ProcessOutput,
    cancelled: bool,
    times: Times,
)
    ensures
        ({
            let told = observed(job, Ok((output, cancelled)), times).service_advertisements;
            &&& job.context is None ==> told.len() == 0
            &&& job.context matches Some(context) ==> match field_of(
                json_model(context),
                "serviceAdvertisements"@,
            ) {
                Some(inner) => if inner is Array {
                    inner == Json::Array(told)
                } else {
                    told.len() == 0
                },
                None => told.len() == 0,
            }
        }),
{
}

/// A job that is not run comes back under its own name as rejected, with the reason, no exit
/// code, no output, and one moment for its start and its end.
pub proof fn rejections_say_why(job_id: Seq<char>, error: Seq<char>, now: Seq<char>)
    ensures
        ({
            let envelope = rejected(job_id, error, now);
            &&& envelope.protocol_version == EXECUTOR_PROTOCOL_VERSION@
            &&& envelope.job_id == job_id
            &&& envelope.status == "rejected"@
            &&& envelope.exit_code is None
            &&& envelope.stdout.len() == 0
            &&& envelope.stderr.len() == 0
            &&& envelope.started_at == now
            &&& envelope.finished_at == now
            &&& envelope.duration_ms == 0
            &&& envelope.error == Some(error)
            &&& envelope.service_advertisements.len() == 0
        }),
{
    reveal_strlit("");
}

/// A job is run if and only if it speaks the protocol, has a name that is not blank, names a
/// command, and asks for no directory that is not there. What is wrong comes in this order.
pub proof fn jobs_are_run_where_they_can_be(job: ExecutorJob, cwd_is_dir: bool)
    ensures
        job_refusal(job, cwd_is_dir) is None <==> job.protocol_version@
            == EXECUTOR_PROTOCOL_VERSION@ && trimmed(job.job_id@) != Seq::<char>::empty()
            && job.command@.len() >= 1 && (job.cwd is None || cwd_is_dir),
        job_refusal(job, cwd_is_dir) matches Some(refusal) ==> {
            let (name, reason) = refusal;
            &&& job.protocol_version@ != EXECUTOR_PROTOCOL_VERSION@ ==> name == job.job_id@
                && reason == "job protocol version mismatch: expected "@
                + EXECUTOR_PROTOCOL_VERSION@ + ", got "@ + job.protocol_version@
            &&& job.protocol_version@ == EXECUTOR_PROTOCOL_VERSION@ && trimmed(job.job_id@).len()
                == 0 ==> name == ""@ && reason == "job id must not be empty"@
            &&& job.protocol_version@ == EXECUTOR_PROTOCOL_VERSION@ && trimmed(job.job_id@).len()
                > 0 && job.command@.len() == 0 ==> name == job.job_id@ && reason
                == "job command must not be empty"@
            &&& job.protocol_version@ == EXECUTOR_PROTOCOL_VERSION@ && trimmed(job.job_id@).len()
                > 0 && job.command@.len() > 0 ==> job.cwd is Some && !cwd_is_dir && name
                == job.job_id@ && reason == "job cwd does not exist on this executor: "@
                + job.cwd->0@
        },
{
    if trimmed(job.job_id@).len() == 0 {
        assert(trimmed(job.job_id@) =~= Seq::<char>::empty());
    }
}

/// The way to an executor is kept open for thirty seconds longer than the job may run there,
/// which is what it asks for or 300 seconds, as far as 64 bits tell.
pub proof fn ways_outlast_jobs(job: ExecutorJob)
    ensures
        job.timeout_seconds is None ==> job_timeout(job) == 300 && transport_timeout(job) == 330,
        job.timeout_seconds matches Some(seconds) ==> job_timeout(job) == seconds && (seconds
            <= u64::MAX - 30 ==> transport_timeout(job) == seconds + 30) && (seconds > u64::MAX
            - 30 ==> transport_timeout(job) == u64::MAX),
        transport_timeout(job) >= job_timeout(job),
{
}

/// An envelope that came back is handed on unchanged if and only if the executor was reached,
/// was in time, wrote one, and it speaks the protocol and names the job or rejects it.
/// Whatever else happens is told as an error of the way, under the job's name, with what the
/// executor's program wrote if it ran.
pub proof fn bad_ways_are_told(job_id: Seq<char>, dispatch: Dispatch, times: Times)
    ensures
        ({
            let told = dispatched(job_id, dispatch, times);
            let error_of_the_way = {
                &&& told.status == "transport_error"@
                &&& told.protocol_version == EXECUTOR_PROTOCOL_VERSION@
                &&& told.job_id == job_id
                &&& told.exit_code is None
                &&& told.started_at == times.started_at@
                &&& told.finished_at == times.finished_at@
                &&& told.duration_ms == if times.elapsed_ms > 0x7fff_ffff_ffff_ffff {
                    0x7fff_ffff_ffff_ffffint
                } else {
                    times.elapsed_ms as int
                }
                &&& told.service_advertisements.len() == 0
                &&& told.error is Some
            };
            match dispatch {
                Dispatch::NotWritten(error) => error_of_the_way && told.error->0
                    == "failed to serialize job spec: "@ + error@ && told.stdout.len() == 0
                    && told.stderr.len() == 0,
                Dispatch::Sent(way, Err(fault), _) => error_of_the_way && told.error->0
                    == "transport failure via "@ + way@ + ": "@ + fault@.chain()
                    && told.stdout.len() == 0 && told.stderr.len() == 0,
                Dispatch::Sent(way, Ok(output), read) => {
                    let in_order = !output.timed_out && (read matches Ok(envelope)
                        && envelope.protocol_version@ == EXECUTOR_PROTOCOL_VERSION@ && (
                    envelope.job_id@ == job_id || envelope.status@ == "rejected"@));
                    &&& in_order ==> told == read->Ok_0@
                    &&& !in_order ==> error_of_the_way && told.stdout == output.stdout@
                        && told.stderr == output.stderr@
                    &&& output.timed_out ==> told.error == Some(
                        "transport timed out via "@ + way@,
                    )
                    &&& !output.timed_out ==> match read {
                        Err(error) => told.error == Some(
                            "executor returned malformed result envelope: "@ + error@,
                        ),
                        Ok(envelope) => {
                            &&& envelope.protocol_version@ != EXECUTOR_PROTOCOL_VERSION@
                                ==> told.error == Some(
                                "result envelope protocol version mismatch: expected "@
                                    + EXECUTOR_PROTOCOL_VERSION@ + ", got "@
                                    + envelope.protocol_version@,
                            )
                            &&& envelope.protocol_version@ == EXECUTOR_PROTOCOL_VERSION@
                                && !in_order ==> told.error == Some(
                                "result envelope job id mismatch: expected "@ + job_id
                                    + ", got "@ + envelope.job_id@,
                            )
                        },
                    }
                },
            }
        }),
{
    reveal_strlit("");
}

/// What is kept of a process's output is its first 1048576 bytes, and its text ends in a note
/// if and only if so many are kept.
pub proof fn outputs_are_cut_at_a_mebibyte(bytes: Seq<u8>)
    ensures
        capped(bytes).len() == (if bytes.len() <= 1_048_576 {
            bytes.len()
        } else {
            1_048_576
        }),
        forall|i: int| 0 <= i < capped(bytes).len() ==> #[trigger] capped(bytes)[i] == bytes[i],
        capped(bytes).len() < 1_048_576 ==> captured_text(capped(bytes)) == utf8_lossy(bytes),
        capped(bytes).len() == 1_048_576 ==> captured_text(capped(bytes)) == utf8_lossy(
            bytes.take(1_048_576),
        ) + "\n<output truncated>"@,
{
    if bytes.len() == 1_048_576 {
        assert(bytes.take(1_048_576) =~= bytes);
    }
}

/// Whatever a job's process left behind, the envelope says that it completed if and only if it
/// was neither cancelled nor out of time and ended with zero.
pub proof fn envelopes_report_the_exit(
    job: &ExecutorJob,
    outcome: Result<(ProcessOutput, bool), Fault>,
    times: &Times,
    envelope: ExecutorResultEnvelope,
)
    requires
        call_ensures(run_job_observed, (job, outcome, times), envelope),
    ensures
        envelope.job_id@ == job.job_id@,
        envelope.status@ == "completed"@ <==> (outcome matches Ok((output, cancelled))
            && !cancelled && !output.timed_out && output.exit_code == Some(0i64)),
        outcome matches Ok((output, cancelled)) ==> {
            &&& !cancelled && !output.timed_out && output.exit_code != Some(0i64)
                ==> envelope.status@ == "failed"@
            &&& cancelled ==> envelope.status@ == "cancelled"@
            &&& !cancelled && output.timed_out ==> envelope.status@ == "timeout"@
            &&& envelope.exit_code == output.exit_code
            &&& envelope.stdout@ == output.stdout@
            &&& envelope.stderr@ == output.stderr@
        },
        outcome matches Err(fault) ==> envelope.status@ == "rejected"@ && envelope.exit_code
            is None && (envelope.error matches Some(error) && error@
            == "failed to launch job command: "@ + fault@.chain()),
{
    exits_decide_jobs(*job, outcome, *times);
    assert(envelope@.status == envelope.status@);
    assert(envelope@ == observed(*job, outcome, *times));
    assert(envelope@.error == optional_view(envelope.error));
}

/// A process that has ended is neither cancelled nor out of time, and a cancellation comes
/// before the deadline; one of neither is looked at again.
pub proof fn ended_processes_are_left(
    ended: bool,
    should_cancel: bool,
    past_deadline: bool,
    step: WatchStep,
)
    requires
        call_ensures(watch_process, (ended, should_cancel, past_deadline), step),
    ensures
        step == WatchStep::Finished <==> ended,
        step == WatchStep::Cancel <==> !ended && should_cancel,
        step == WatchStep::TimeOut <==> !ended && !should_cancel && past_deadline,
        step == WatchStep::Wait <==> !ended && !should_cancel && !past_deadline,
{
}

/// What a process left behind says how it was ended: out of time without an exit code,
/// cancelled, or by itself.
pub proof fn processes_tell_how_they_ended(
    ended_by: WatchStep,
    exit_code: Option<i64>,
    stdout: String,
    stderr: String,
    outcome: (ProcessOutput, bool),
)
    requires
        call_ensures(run_process_with_timeout, (ended_by, exit_code, stdout, stderr), outcome),
    ensures
        outcome.0.timed_out <==> ended_by == WatchStep::TimeOut,
        outcome.1 <==> ended_by == WatchStep::Cancel,
        ended_by == WatchStep::TimeOut ==> outcome.0.exit_code is None,
        ended_by != WatchStep::TimeOut ==> outcome.0.exit_code == exit_code,
        outcome.0.stdout == stdout,
        outcome.0.stderr == stderr,
{
}

/// What is run for a job is its command: the first word is the program, the others its
/// arguments in their order, for as long as the job asks for or 300 seconds.
pub proof fn jobs_run_their_command(
    job: &ExecutorJob,
    cwd_is_dir: bool,
    now: &str,
    launch: Result<JobLaunch, ExecutorResultEnvelope>,
    i: int,
)
    requires
        call_ensures(admit_job, (job, cwd_is_dir, now), launch),
    ensures
        launch is Ok <==> job_refusal(*job, cwd_is_dir) is None,
        launch matches Ok(launch) ==> {
            &&& launch.program@ == job.command@[0]@
            &&& launch.args@.len() == job.command@.len() - 1
            &&& 0 <= i < launch.args@.len() ==> launch.args@[i]@ == job.command@[i + 1]@
            &&& launch.timeout_seconds == match job.timeout_seconds {
                Some(asked) => asked,
                None => 300,
            }
        },
        launch matches Err(envelope) ==> envelope.status@ == "rejected"@ && envelope.started_at@
            == now@ && envelope.finished_at@ == now@,
{
    if let Ok(run) = launch {
        assert(views(run.args@).len() == run.args@.len());
        assert(views(job.command@).len() == job.command@.len());
        if 0 <= i < run.args@.len() {
            assert(views(run.args@)[i] == run.args@[i]@);
            assert(views(job.command@).skip(1)[i] == views(job.command@)[i + 1]);
            assert(views(job.command@)[i + 1] == job.command@[i + 1]@);
        }
    }
    if let Err(envelope) = launch {
        assert(envelope@.status == envelope.status@);
        assert(envelope@.started_at == envelope.started_at@);
        assert(envelope@.finished_at == envelope.finished_at@);
    }
}

/// A job is sent once, as it was written down, to the program that runs jobs, with more time
/// than the job has.
pub proof fn jobs_are_sent_once<T: ExecutorTransport>(
    transport: &mut T,
    job: &ExecutorJob,
    payload: &str,
    reply: (String, Result<ProcessOutput, Fault>),
)
    requires
        call_ensures(send_job::<T>, (transport, job, payload), reply),
    ensures
        final(transport).runs().len() == old(transport).runs().len() + 1,
        ({
            let run = final(transport).runs().last();
            &&& run.protocol_args == seq!["executor"@, "run-job"@]
            &&& run.stdin == Some(payload@)
            &&& run.timeout_seconds == transport_timeout(*job)
            &&& run.outcome == reply.1
        }),
        reply.0@ == old(transport).description(),
{
}

/// A job that cannot be read is rejected with the reason, under no name.
pub proof fn unreadable_jobs_are_rejected(
    error: &str,
    now: &str,
    envelope: ExecutorResultEnvelope,
)
    requires
        call_ensures(unreadable_job, (error, now), envelope),
    ensures
        envelope.status@ == "rejected"@,
        envelope.job_id@.len() == 0,
        envelope.error matches Some(text) && text@ == "malformed job spec on stdin: "@ + error@,
{
    reveal_strlit("");
    assert(envelope@.status == envelope.status@);
    assert(envelope@.job_id == envelope.job_id@);
    assert(envelope@.error == optional_view(envelope.error));
}

/// Whatever sending a job came to, its envelope tells of it, and what a process writes is kept
/// up to the limit.
pub proof fn dispatched_jobs_have_an_envelope(
    job: &ExecutorJob,
    dispatch: Dispatch,
    times: &Times,
    envelope: ExecutorResultEnvelope,
    seconds: u64,
    output: &mut CappedOutput,
    chunk: &[u8],
)
    requires
        call_ensures(dispatch_job, (job, dispatch, times), envelope),
        call_ensures(dispatch_timeout, (job,), seconds),
        call_ensures(CappedOutput::receive, (output, chunk), ()),
    ensures
        envelope@ == dispatched(job.job_id@, dispatch, *times),
        seconds == transport_timeout(*job),
        final(output).kept() == capped(old(output).kept() + chunk@),
{
}

/// An envelope shows each thing that it holds under its own name.
pub proof fn envelopes_show_what_they_hold(envelope: ExecutorResultEnvelope)
    ensures
        envelope@.protocol_version == envelope.protocol_version@,
        envelope@.job_id == envelope.job_id@,
        envelope@.status == envelope.status@,
        envelope@.exit_code == envelope.exit_code,
        envelope@.stdout == envelope.stdout@,
        envelope@.stderr == envelope.stderr@,
        envelope@.started_at == envelope.started_at@,
        envelope@.finished_at == envelope.finished_at@,
        envelope@.duration_ms == envelope.duration_ms,
        envelope.error matches Some(text) ==> envelope@.error == Some(text@),
        envelope.error is None ==> envelope@.error is None,
        envelope@.service_advertisements.len() == envelope.service_advertisements@.len(),
{
}

} // verus!
