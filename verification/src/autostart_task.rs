//! The scheduled task of an executor: what is done to install and to remove it, how it
//! stands, and how the scheduler's answers are read.

use crate::executor_autostart::{
    are_absolute, defines, definition_matches, make_registration, registers, registration_path, task_definition,
    task_name, task_name_of, task_xml, Registration,
};
use crate::fault::{caused, plain, Fault};
use crate::http::{text_from_utf8, utf8_complaint};
use crate::live_events::{lossy_text, utf8_lossy};
use crate::paths::{inside_on, is_absolute_path};
use crate::text::{chars_of, joined, trim_text, trimmed};
use vstd::prelude::*;
use vstd::string::*;
use vstd::utf8::{encode_utf8, valid_utf8};

verus! {

/// The scheduler of tasks that an executor is registered with.
pub trait TaskScheduler: Sized {
    /// The steps that the scheduler was asked to take so far, and what came of each, in
    /// order: an account that it keeps in what it holds. It is part of the contract alone, and
    /// of a scheduler that does not say how it keeps the account nothing is known but what
    /// the methods promise.
    open spec fn taken(&self) -> Seq<(TaskView, Result<(), Fault>)> {
        arbitrary::<spec_fn(Self) -> Seq<(TaskView, Result<(), Fault>)>>()(*self)
    }

    /// The user whom tasks are run for.
    fn current_user_id(&self) -> Result<String, Fault>;

    /// The definition of a task, where there is one.
    fn task_xml(&self, task_name: &str) -> Result<Option<String>, Fault>;

    /// What the scheduler says of a task, where there is one.
    fn task_state(&self, task_name: &str) -> Result<Option<String>, Fault>;

    /// Defines a task, in place of one of that name.
    fn create_or_replace(&mut self, task_name: &str, xml: &str) -> (outcome: Result<(), Fault>)
        ensures
            final(self).taken() == old(self).taken().push((TaskView::Create(task_name@, xml@), outcome)),
    ;

    /// Runs a task.
    fn run(&mut self, task_name: &str) -> (outcome: Result<(), Fault>)
        ensures
            final(self).taken() == old(self).taken().push((TaskView::Run(task_name@), outcome)),
    ;

    /// Ends a task that runs.
    fn end(&mut self, task_name: &str) -> (outcome: Result<(), Fault>)
        ensures
            final(self).taken() == old(self).taken().push((TaskView::End(task_name@), outcome)),
    ;

    /// Removes a task.
    fn delete(&mut self, task_name: &str) -> (outcome: Result<(), Fault>)
        ensures
            final(self).taken() == old(self).taken().push((TaskView::Delete(task_name@), outcome)),
    ;
}

/// A step of installing or removing a task. A step that fails ends the whole, but for
/// `End`.
#[derive(Debug)]
pub enum TaskStep {
    /// Record the registration.
    Save(Registration),
    /// Define the task of a name.
    Create(String, String),
    /// Ask whether the daemon runs; the task of a name is run where it does not.
    AskRunning(String),
    /// Run the task of a name.
    Run(String),
    /// Stop the daemon.
    StopDaemon,
    /// End the task of a name if it runs, whatever comes of it.
    End(String),
    /// Remove the task of a name.
    Delete(String),
    /// Remove the registration, if there is one.
    RemoveRegistration,
}

/// What a step does.
pub enum TaskView {
    Save(Registration),
    Create(Seq<char>, Seq<char>),
    AskRunning(Seq<char>),
    Run(Seq<char>),
    StopDaemon,
    End(Seq<char>),
    Delete(Seq<char>),
    RemoveRegistration,
}

impl View for TaskStep {
    type V = TaskView;

    open spec fn view(&self) -> TaskView {
        match self {
            TaskStep::Save(registration) => TaskView::Save(*registration),
            TaskStep::Create(name, xml) => TaskView::Create(name@, xml@),
            TaskStep::AskRunning(name) => TaskView::AskRunning(name@),
            TaskStep::Run(name) => TaskView::Run(name@),
            TaskStep::StopDaemon => TaskView::StopDaemon,
            TaskStep::End(name) => TaskView::End(name@),
            TaskStep::Delete(name) => TaskView::Delete(name@),
            TaskStep::RemoveRegistration => TaskView::RemoveRegistration,
        }
    }
}

/// What steps do.
pub open spec fn task_views(steps: Seq<TaskStep>) -> Seq<TaskView> {
    steps.map_values(|step: TaskStep| step@)
}

/// Whether a task must be defined anew, given the definition that the scheduler has.
pub open spec fn definition_is_due(
    existing: Option<Seq<char>>,
    executable: Seq<char>,
    registration_file: Seq<char>,
) -> bool {
    match existing {
        Some(actual) => !defines(actual, executable, registration_file),
        None => true,
    }
}

/// The steps that install the executor of a home.
pub open spec fn install_steps(
    registration: Registration,
    coven_home: Seq<char>,
    executable: Seq<char>,
    user_id: Seq<char>,
    existing: Option<Seq<char>>,
    windows: bool,
) -> Seq<TaskView> {
    let name = task_name_of(coven_home, windows);
    let file = inside_on(coven_home, "executor-autostart.json"@, windows);
    if definition_is_due(existing, executable, file) {
        seq![
            TaskView::Save(registration),
            TaskView::Create(name, task_definition(executable, file, user_id)),
            TaskView::AskRunning(name),
        ]
    } else {
        seq![TaskView::Save(registration), TaskView::AskRunning(name)]
    }
}

/// The steps that install the executor of a home, or repair its installation, given the user
/// and the definition that the scheduler has. A definition that is in order is left alone.
pub fn install(
    coven_home: &str,
    executable: &str,
    windows: bool,
    user_id: &str,
    existing: Option<&str>,
) -> (steps: Result<Vec<TaskStep>, Fault>)
    ensures
        match steps {
            Ok(steps) => {
                &&& are_absolute(coven_home@, executable@, windows)
                &&& steps@.len() > 0
                &&& steps@[0] matches TaskStep::Save(registration) && registers(
                    registration,
                    coven_home@,
                    executable@,
                    windows,
                ) && task_views(steps@) == install_steps(
                    registration,
                    coven_home@,
                    executable@,
                    user_id@,
                    match existing {
                        Some(actual) => Some(actual@),
                        None => None,
                    },
                    windows,
                )
            },
            Err(fault) => !are_absolute(coven_home@, executable@, windows) && fault@ == plain(
                "Coven home and executable paths must be absolute"@,
            ),
        },
{
    let registration = match make_registration(coven_home, executable, windows) {
        Ok(registration) => registration,
        Err(fault) => {
            return Err(fault);
        },
    };
    let file = registration_path(coven_home, windows);
    let in_order = match existing {
        Some(actual) => definition_matches(actual, &registration, file.as_str()),
        None => false,
    };
    let xml = task_xml(&registration, file.as_str(), user_id);
    let name = registration.task_name.clone();
    let ghost recorded = registration;
    let mut steps: Vec<TaskStep> = Vec::new();
    steps.push(TaskStep::Save(registration));
    if !in_order {
        steps.push(TaskStep::Create(name.clone(), xml));
    }
    steps.push(TaskStep::AskRunning(name));
    assert(task_views(steps@) =~= install_steps(
        recorded,
        coven_home@,
        executable@,
        user_id@,
        match existing {
            Some(actual) => Some(actual@),
            None => None,
        },
        windows,
    ));
    Ok(steps)
}

/// The step that follows once it is known whether the daemon runs.
pub fn after_running(name: String, running: bool) -> (step: Option<TaskStep>)
    ensures
        match step {
            Some(step) => !running && step@ == TaskView::Run(name@),
            None => running,
        },
{
    if running {
        None
    } else {
        Some(TaskStep::Run(name))
    }
}

/// Installing what is installed changes nothing but the record of it: the task that the
/// first installation defined is not defined again.
pub proof fn install_can_be_repeated(
    registration: Registration,
    coven_home: Seq<char>,
    executable: Seq<char>,
    first_user: Seq<char>,
    second_user: Seq<char>,
    windows: bool,
)
    ensures
        ({
            let file = inside_on(coven_home, "executor-autostart.json"@, windows);
            let defined = task_definition(executable, file, first_user);
            install_steps(registration, coven_home, executable, second_user, Some(defined), windows)
                == seq![
                TaskView::Save(registration),
                TaskView::AskRunning(task_name_of(coven_home, windows)),
            ]
        }),
{
    crate::executor_autostart::own_definition_is_kept(
        executable,
        inside_on(coven_home, "executor-autostart.json"@, windows),
        first_user,
    );
}

/// The steps that remove the executor of a home.
pub open spec fn uninstall_steps(
    name: Seq<char>,
    has_registration: bool,
    installed: bool,
) -> Seq<TaskView> {
    let stop = if has_registration || installed {
        seq![TaskView::StopDaemon]
    } else {
        seq![]
    };
    let remove = if installed {
        seq![TaskView::End(name), TaskView::Delete(name)]
    } else {
        seq![]
    };
    stop + remove + seq![TaskView::RemoveRegistration]
}

/// The name of the task of a home: the one that is registered, else the one it would have.
pub open spec fn known_name(
    coven_home: Seq<char>,
    registration: Option<Registration>,
    windows: bool,
) -> Seq<char> {
    match registration {
        Some(known) => known.task_name@,
        None => task_name_of(coven_home, windows),
    }
}

/// The name of the task of a home.
pub fn known_task_name(coven_home: &str, registration: Option<&Registration>, windows: bool) -> (name:
    String)
    ensures
        name@ == known_name(
            coven_home@,
            match registration {
                Some(known) => Some(*known),
                None => None,
            },
            windows,
        ),
{
    match registration {
        Some(known) => known.task_name.clone(),
        None => task_name(coven_home, windows),
    }
}

/// The steps that remove the executor of a home, given the name of its task, whether it is
/// registered, and whether the scheduler has the task. Where there is nothing, nothing is
/// stopped.
pub fn uninstall(name: &str, has_registration: bool, installed: bool) -> (steps: Vec<TaskStep>)
    ensures
        task_views(steps@) == uninstall_steps(name@, has_registration, installed),
{
    let mut steps: Vec<TaskStep> = Vec::new();
    if has_registration || installed {
        steps.push(TaskStep::StopDaemon);
    }
    if installed {
        steps.push(TaskStep::End(name.to_owned()));
        steps.push(TaskStep::Delete(name.to_owned()));
    }
    steps.push(TaskStep::RemoveRegistration);
    assert(task_views(steps@) =~= uninstall_steps(name@, has_registration, installed));
    steps
}

/// Whether a scheduler was asked to take one step more, whatever came of it.
pub open spec fn ended_once(
    before: Seq<(TaskView, Result<(), Fault>)>,
    after: Seq<(TaskView, Result<(), Fault>)>,
    step: TaskView,
) -> bool {
    &&& after.len() == before.len() + 1
    &&& after.drop_last() == before
    &&& after.last().0 == step
}

/// Has a scheduler take a step that is its own, once. A step that is not its own gives `None`, and
/// what comes of ending a task does not matter.
pub fn perform<S: TaskScheduler>(scheduler: &mut S, step: &TaskStep) -> (done: Option<
    Result<(), Fault>,
>)
    ensures
        match step {
            TaskStep::Create(_, _) | TaskStep::Run(_) | TaskStep::Delete(_) => done matches Some(
                outcome,
            ) && final(scheduler).taken() == old(scheduler).taken().push((step@, outcome)),
            TaskStep::End(_) => done == Some(Ok::<(), Fault>(())) && ended_once(
                old(scheduler).taken(),
                final(scheduler).taken(),
                step@,
            ),
            _ => done is None && *final(scheduler) == *old(scheduler),
        },
{
    match step {
        TaskStep::Create(name, xml) => Some(
            scheduler.create_or_replace(name.as_str(), xml.as_str()),
        ),
        TaskStep::Run(name) => Some(scheduler.run(name.as_str())),
        TaskStep::End(name) => {
            let outcome = scheduler.end(name.as_str());
            assert(scheduler.taken() == old(scheduler).taken().push((step@, outcome)));
            assert(scheduler.taken().drop_last() =~= old(scheduler).taken());
            Some(Ok(()))
        },
        TaskStep::Delete(name) => Some(scheduler.delete(name.as_str())),
        _ => None,
    }
}

/// How the executor of a home stands with the scheduler.
#[derive(Debug)]
pub struct AutostartStatus {
    pub installed: bool,
    pub definition_matches: bool,
    pub task_state: Option<String>,
    pub daemon_running: bool,
    pub task_name: String,
    pub coven_home: String,
    pub executable_path: Option<String>,
}

/// How the executor of a home stands, given its registration where that is in order, the
/// definition of its task, what the scheduler says of it and whether the daemon runs.
pub fn status(
    coven_home: &str,
    registration: Option<Registration>,
    actual: Option<&str>,
    task_state: Option<String>,
    daemon_running: bool,
    windows: bool,
) -> (status: AutostartStatus)
    ensures
        status.installed == (actual is Some),
        status.definition_matches == (actual is Some && registration is Some && defines(
            actual->0@,
            registration->0.executable_path@,
            inside_on(coven_home@, "executor-autostart.json"@, windows),
        )),
        status.task_state == task_state,
        status.daemon_running == daemon_running,
        status.task_name@ == known_name(coven_home@, registration, windows),
        status.coven_home@ == coven_home@,
        status.executable_path == match registration {
            Some(known) => Some(known.executable_path),
            None => None,
        },
{
    let file = registration_path(coven_home, windows);
    let task_name = match &registration {
        Some(known) => known.task_name.clone(),
        None => task_name(coven_home, windows),
    };
    let matching = match (&actual, &registration) {
        (Some(actual), Some(known)) => definition_matches(actual, known, file.as_str()),
        _ => false,
    };
    AutostartStatus {
        installed: actual.is_some(),
        definition_matches: matching,
        task_state,
        daemon_running,
        task_name,
        coven_home: coven_home.to_owned(),
        executable_path: match registration {
            Some(known) => Some(known.executable_path),
            None => None,
        },
    }
}

/// The UTF-16 units of a character.
pub open spec fn units_of_char(c: char) -> Seq<u16> {
    let code = c as u32;
    if code < 0x1_0000 {
        seq![code as u16]
    } else {
        seq![
            (0xd800 + (code - 0x1_0000) / 0x400) as u16,
            (0xdc00 + (code - 0x1_0000) % 0x400) as u16,
        ]
    }
}

/// The UTF-16 units of a text.
pub open spec fn units_of(text: Seq<char>) -> Seq<u16>
    decreases text.len(),
{
    if text.len() == 0 {
        seq![]
    } else {
        units_of(text.drop_last()) + units_of_char(text.last())
    }
}

/// What std says of UTF-16 units that are the form of no text.
pub uninterp spec fn utf16_complaint(units: Seq<u16>) -> Seq<char>;

/// `String::from_utf16` gives the text of UTF-16 units, and refuses units that are the form
/// of no text; its error, written out, depends on the units alone.
#[verifier::external_body]
pub(crate) fn text_from_utf16(units: &[u16]) -> (text: Result<String, String>)
    ensures
        match text {
            Ok(read) => units_of(read@) == units@,
            Err(complaint) => complaint@ == utf16_complaint(units@) && forall|other: Seq<char>|
                #[trigger] units_of(other) != units@,
        },
{
    String::from_utf16(units).map_err(|error| error.to_string())
}

/// Whether bytes begin with the mark of UTF-16 with the low byte first.
pub open spec fn has_mark(bytes: Seq<u8>) -> bool {
    bytes.len() >= 2 && bytes[0] == 0xff && bytes[1] == 0xfe
}

/// How many of the first pairs of bytes are looked at.
pub open spec fn sampled_pairs(bytes: Seq<u8>) -> int {
    if bytes.len() / 2 < 64 {
        (bytes.len() / 2) as int
    } else {
        64
    }
}

/// How many of the first `pairs` pairs of bytes have a zero in their second place.
pub open spec fn zero_pairs(bytes: Seq<u8>, pairs: int) -> int
    decreases pairs,
{
    if pairs <= 0 {
        0
    } else {
        zero_pairs(bytes, pairs - 1) + if bytes[2 * (pairs - 1) + 1] == 0 {
            1int
        } else {
            0
        }
    }
}

/// Whether bytes look like UTF-16 with the low byte first: there is an even number of them,
/// and at least half of the first pairs have a zero in their second place.
pub open spec fn looks_wide(bytes: Seq<u8>) -> bool {
    bytes.len() % 2 == 0 && zero_pairs(bytes, sampled_pairs(bytes)) >= sampled_pairs(bytes) / 2
}

/// The 16-bit units of bytes, the low byte first.
pub open spec fn units_in(bytes: Seq<u8>) -> Seq<u16> {
    Seq::new(
        bytes.len() / 2,
        |i: int| (bytes[2 * i] as int + 256 * bytes[2 * i + 1] as int) as u16,
    )
}

/// The bytes behind the mark, where there is one.
pub open spec fn unmarked(bytes: Seq<u8>) -> Seq<u8> {
    if has_mark(bytes) {
        bytes.skip(2)
    } else {
        bytes
    }
}

/// Whether what a command wrote is read so: as UTF-16 where it is marked or looks like it,
/// else as UTF-8.
pub open spec fn decodes(bytes: Seq<u8>, decoded: Result<String, Fault>) -> bool {
    let wide = has_mark(bytes) || looks_wide(bytes);
    let body = unmarked(bytes);
    match decoded {
        Ok(text) => if wide {
            body.len() % 2 == 0 && units_of(text@) == units_in(body)
        } else {
            encode_utf8(text@) == bytes
        },
        Err(fault) => if !wide {
            !valid_utf8(bytes) && fault@ == caused(
                "command returned invalid UTF-8 output"@,
                utf8_complaint(bytes),
            )
        } else if body.len() % 2 != 0 {
            fault@ == plain("command returned malformed UTF-16LE output"@)
        } else {
            &&& forall|text: Seq<char>| #[trigger] units_of(text) != units_in(body)
            &&& fault@ == caused(
                "command returned invalid UTF-16LE output"@,
                utf16_complaint(units_in(body)),
            )
        },
    }
}

/// What a command wrote, as text: UTF-16 where it is marked or looks like it, else UTF-8.
pub fn decode_command_output(bytes: Vec<u8>) -> (decoded: Result<String, Fault>)
    ensures
        ({
            let wide = has_mark(bytes@) || looks_wide(bytes@);
            let body = unmarked(bytes@);
            match decoded {
                Ok(text) => if wide {
                    body.len() % 2 == 0 && units_of(text@) == units_in(body)
                } else {
                    encode_utf8(text@) == bytes@
                },
                Err(fault) => if !wide {
                    !valid_utf8(bytes@) && fault@ == caused(
                        "command returned invalid UTF-8 output"@,
                        utf8_complaint(bytes@),
                    )
                } else if body.len() % 2 != 0 {
                    fault@ == plain("command returned malformed UTF-16LE output"@)
                } else {
                    &&& forall|text: Seq<char>| #[trigger] units_of(text) != units_in(body)
                    &&& fault@ == caused(
                        "command returned invalid UTF-16LE output"@,
                        utf16_complaint(units_in(body)),
                    )
                },
            }
        }),
        decodes(bytes@, decoded),
{
    let marked = bytes.len() >= 2 && bytes[0] == 0xff && bytes[1] == 0xfe;
    let pairs: usize = bytes.len() / 2;
    let sampled: usize = if pairs < 64 {
        pairs
    } else {
        64
    };
    let mut zeros: usize = 0;
    let mut i: usize = 0;
    while i < sampled
        invariant
            i <= sampled,
            sampled <= 64,
            sampled <= bytes@.len() / 2,
            zeros <= i,
            zeros == zero_pairs(bytes@, i as int),
        decreases sampled - i,
    {
        if bytes[2 * i + 1] == 0 {
            zeros += 1;
        }
        i += 1;
    }
    let wide = marked || (bytes.len() % 2 == 0 && zeros >= sampled / 2);
    if wide {
        let start: usize = if marked {
            2
        } else {
            0
        };
        let ghost body = unmarked(bytes@);
        assert(body =~= bytes@.skip(start as int));
        if (bytes.len() - start) % 2 != 0 {
            return Err(Fault::plain("command returned malformed UTF-16LE output"));
        }
        let units = read_units(&bytes, start);
        match text_from_utf16(units.as_slice()) {
            Ok(text) => Ok(text),
            Err(complaint) => Err(
                Fault::caused("command returned invalid UTF-16LE output", complaint.as_str()),
            ),
        }
    } else {
        match text_from_utf8(bytes) {
            Ok(text) => Ok(text),
            Err(complaint) => Err(
                Fault::caused("command returned invalid UTF-8 output", complaint.as_str()),
            ),
        }
    }
}

fn read_units(bytes: &Vec<u8>, start: usize) -> (units: Vec<u16>)
    requires
        start <= bytes@.len(),
    ensures
        units@ == units_in(bytes@.skip(start as int)),
{
    let total: usize = bytes.len();
    let count: usize = (total - start) / 2;
    let ghost body = bytes@.skip(start as int);
    let mut units: Vec<u16> = Vec::new();
    let mut i: usize = 0;
    while i < count
        invariant
            i <= count,
            total == bytes@.len(),
            start <= total,
            count == (total - start) / 2,
            body == bytes@.skip(start as int),
            units@ == units_in(body).take(i as int),
        decreases count - i,
    {
        let low = bytes[start + 2 * i];
        let high = bytes[start + 2 * i + 1];
        assert(body[2 * i] == low && body[2 * i + 1] == high);
        units.push(low as u16 + 256 * (high as u16));
        i += 1;
        assert(units@ =~= units_in(body).take(i as int));
    }
    assert(units@ =~= units_in(body));
    units
}

/// The user that a query for the current one named.
pub fn current_user(succeeded: bool, stdout: &[u8]) -> (user: Result<String, Fault>)
    ensures
        match user {
            Ok(name) => succeeded && name@ == trimmed(utf8_lossy(stdout@)) && name@.len() > 0,
            Err(fault) => if !succeeded {
                fault@ == plain("whoami.exe failed"@)
            } else {
                trimmed(utf8_lossy(stdout@)).len() == 0 && fault@ == plain(
                    "whoami.exe returned an empty user id"@,
                )
            },
        },
{
    if !succeeded {
        return Err(Fault::plain("whoami.exe failed"));
    }
    let name = trim_text(lossy_text(stdout).as_str());
    if chars_of(name.as_str()).len() == 0 {
        return Err(Fault::plain("whoami.exe returned an empty user id"));
    }
    Ok(name)
}

/// What is said of an operation of the scheduler that failed.
pub fn scheduler_failure(operation: &str, stderr: &[u8]) -> (fault: Fault)
    ensures
        fault@ == plain(
            "Task Scheduler "@ + operation@ + " failed: "@ + trimmed(utf8_lossy(stderr@)),
        ),
{
    let start = joined("Task Scheduler ", operation);
    let middle = joined(start.as_str(), " failed: ");
    let complaint = trim_text(lossy_text(stderr).as_str());
    Fault::plain(joined(middle.as_str(), complaint.as_str()).as_str())
}

/// Installing records the registration first, and asks in the end whether the daemon runs.
/// The task is defined in between if and only if the scheduler has none or one that does not
/// run this program for this registration as it is meant to.
pub proof fn tasks_are_defined_where_due(
    registration: Registration,
    coven_home: Seq<char>,
    executable: Seq<char>,
    user_id: Seq<char>,
    existing: Option<Seq<char>>,
    windows: bool,
)
    ensures
        ({
            let steps = install_steps(
                registration,
                coven_home,
                executable,
                user_id,
                existing,
                windows,
            );
            let name = task_name_of(coven_home, windows);
            let file = inside_on(coven_home, "executor-autostart.json"@, windows);
            let kept = existing matches Some(actual) && defines(actual, executable, file);
            &&& steps.len() == if kept {
                2int
            } else {
                3
            }
            &&& steps[0] == TaskView::Save(registration)
            &&& steps.last() == TaskView::AskRunning(name)
            &&& !kept ==> steps[1] == TaskView::Create(
                name,
                task_definition(executable, file, user_id),
            )
        }),
{
}

/// Removing stops the daemon first, where anything was installed; a task that the scheduler
/// has is ended and then removed; the registration goes last, and always.
pub proof fn tasks_are_removed_in_order(name: Seq<char>, has_registration: bool, installed: bool)
    ensures
        ({
            let steps = uninstall_steps(name, has_registration, installed);
            &&& steps.last() == TaskView::RemoveRegistration
            &&& has_registration || installed ==> steps[0] == TaskView::StopDaemon
            &&& !has_registration && !installed ==> steps.len() == 1
            &&& has_registration && !installed ==> steps.len() == 2
            &&& installed ==> steps.len() == 4 && steps[1] == TaskView::End(name) && steps[2]
                == TaskView::Delete(name)
        }),
{
}

/// A task is known by the name in its registration, and without one by that of its home.
pub proof fn tasks_keep_their_registered_name(
    coven_home: Seq<char>,
    registration: Option<Registration>,
    windows: bool,
)
    ensures
        registration matches Some(known) ==> known_name(coven_home, registration, windows)
            == known.task_name@,
        registration is None ==> known_name(coven_home, registration, windows) == task_name_of(
            coven_home,
            windows,
        ),
{
}

/// The UTF-16 units of a text are those of its characters in a row: one below `0x10000`, and
/// else a high and a low surrogate that make up the code point.
pub proof fn units_make_up_characters(a: Seq<char>, c: char, b: Seq<char>)
    ensures
        units_of(Seq::<char>::empty()).len() == 0,
        units_of(a.push(c) + b) == units_of(a) + units_of_char(c) + units_of(b),
        (c as u32) < 0x1_0000 ==> units_of_char(c).len() == 1 && units_of_char(c)[0] == c as u32,
        (c as u32) >= 0x1_0000 ==> {
            let units = units_of_char(c);
            &&& units.len() == 2
            &&& 0xd800 <= units[0] <= 0xdbff
            &&& 0xdc00 <= units[1] <= 0xdfff
            &&& 0x1_0000 + (units[0] - 0xd800) * 0x400 + (units[1] - 0xdc00) == c as u32
        },
    decreases b.len(),
{
    let s = a.push(c) + b;
    if b.len() == 0 {
        assert(s =~= a.push(c));
        assert(s.drop_last() =~= a);
        assert(units_of(a) + units_of_char(c) + units_of(b) =~= units_of(a) + units_of_char(c));
    } else {
        assert(s.drop_last() =~= a.push(c) + b.drop_last());
        units_make_up_characters(a, c, b.drop_last());
        assert(units_of(a) + units_of_char(c) + units_of(b.drop_last()) + units_of_char(b.last())
            =~= units_of(a) + units_of_char(c) + (units_of(b.drop_last()) + units_of_char(
            b.last(),
        )));
    }
    let code = c as u32;
    assert(code <= 0x10_ffff);
}

/// A unit of bytes is the low byte and 256 times the high byte behind it; a mark in front
/// belongs to no unit.
pub proof fn units_have_the_low_byte_first(bytes: Seq<u8>, i: int)
    requires
        0 <= i < bytes.len() / 2,
    ensures
        units_in(bytes).len() == bytes.len() / 2,
        units_in(bytes)[i] == bytes[2 * i] + 256 * bytes[2 * i + 1],
        has_mark(bytes) <==> bytes.len() >= 2 && bytes[0] == 255 && bytes[1] == 254,
        has_mark(bytes) ==> unmarked(bytes) == bytes.skip(2),
        !has_mark(bytes) ==> unmarked(bytes) == bytes,
{
}

proof fn zeros_are_counted(bytes: Seq<u8>, pairs: int, all: bool)
    requires
        0 <= pairs <= bytes.len() / 2,
        forall|i: int| 0 <= i < pairs ==> (#[trigger] bytes[2 * i + 1] == 0) == all,
    ensures
        zero_pairs(bytes, pairs) == if all {
            pairs
        } else {
            0
        },
    decreases pairs,
{
    if pairs > 0 {
        zeros_are_counted(bytes, pairs - 1, all);
        assert((bytes[2 * (pairs - 1) + 1] == 0) == all);
    }
}

/// Bytes whose every second one is zero look like UTF-16, where there is an even number of
/// them; an odd number never does, and neither do four or more without a zero.
pub proof fn zeros_make_bytes_wide(bytes: Seq<u8>)
    ensures
        bytes.len() % 2 != 0 ==> !looks_wide(bytes),
        bytes.len() % 2 == 0 && (forall|i: int|
            0 <= i < bytes.len() / 2 ==> #[trigger] bytes[2 * i + 1] == 0) ==> looks_wide(bytes),
        bytes.len() >= 4 && (forall|i: int|
            0 <= i < bytes.len() / 2 ==> #[trigger] bytes[2 * i + 1] != 0) ==> !looks_wide(bytes),
{
    let pairs = sampled_pairs(bytes);
    if bytes.len() % 2 == 0 && (forall|i: int|
        0 <= i < bytes.len() / 2 ==> #[trigger] bytes[2 * i + 1] == 0) {
        zeros_are_counted(bytes, pairs, true);
    }
    if bytes.len() >= 4 && (forall|i: int|
        0 <= i < bytes.len() / 2 ==> #[trigger] bytes[2 * i + 1] != 0) {
        zeros_are_counted(bytes, pairs, false);
    }
}

/// Only the first 64 pairs of bytes decide whether bytes look like UTF-16, and half of those
/// that there are suffice.
pub proof fn half_of_the_first_pairs_decide(bytes: Seq<u8>, longer: Seq<u8>)
    requires
        bytes.len() % 2 == 0,
        longer.len() % 2 == 0,
        bytes.len() >= 128,
        bytes.is_prefix_of(longer),
    ensures
        looks_wide(bytes) == looks_wide(longer),
        looks_wide(bytes) == (zero_pairs(bytes, 64) >= 32),
{
    same_zeros(bytes, longer, 64);
}

proof fn same_zeros(bytes: Seq<u8>, longer: Seq<u8>, pairs: int)
    requires
        0 <= pairs <= bytes.len() / 2,
        bytes.is_prefix_of(longer),
    ensures
        zero_pairs(bytes, pairs) == zero_pairs(longer, pairs),
    decreases pairs,
{
    if pairs > 0 {
        same_zeros(bytes, longer, pairs - 1);
        let at = 2 * (pairs - 1) + 1;
        assert(longer.subrange(0, bytes.len() as int)[at] == longer[at]);
    }
}

/// Installing asks for absolute paths and nothing else, and records the registration of this
/// home and this program; the task is run afterwards where the daemon does not run.
pub proof fn installing_records_the_registration(
    coven_home: &str,
    executable: &str,
    windows: bool,
    user_id: &str,
    existing: Option<&str>,
    steps: Result<Vec<TaskStep>, Fault>,
    name: String,
    running: bool,
    step: Option<TaskStep>,
)
    requires
        call_ensures(install, (coven_home, executable, windows, user_id, existing), steps),
        call_ensures(after_running, (name, running), step),
    ensures
        steps is Ok <==> is_absolute_path(coven_home@, windows) && is_absolute_path(
            executable@,
            windows,
        ),
        steps matches Err(fault) ==> fault@ == plain(
            "Coven home and executable paths must be absolute"@,
        ),
        steps matches Ok(list) ==> {
            &&& list@.len() >= 2
            &&& list@[0] matches TaskStep::Save(kept) && kept.coven_home@ == coven_home@
                && kept.executable_path@ == executable@ && kept.task_name@ == task_name_of(
                coven_home@,
                windows,
            ) && kept.schema_version == 1
            &&& list@.last()@ == TaskView::AskRunning(task_name_of(coven_home@, windows))
        },
        running ==> step is None,
        !running ==> (step matches Some(next) && next@ == TaskView::Run(name@)),
{
    if let Ok(list) = steps {
        let seen = task_views(list@);
        assert(seen.len() == list@.len());
        assert(seen.last() == list@.last()@);
    }
}

/// Removing takes the steps that are due for what there is.
pub proof fn removing_takes_the_steps(
    name: &str,
    has_registration: bool,
    installed: bool,
    steps: Vec<TaskStep>,
)
    requires
        call_ensures(uninstall, (name, has_registration, installed), steps),
    ensures
        task_views(steps@) == uninstall_steps(name@, has_registration, installed),
        steps@.last()@ == TaskView::RemoveRegistration,
        steps@.len() == (if installed {
            4int
        } else if has_registration {
            2
        } else {
            1
        }),
{
    assert(task_views(steps@).len() == steps@.len());
    assert(task_views(steps@).last() == steps@.last()@);
}

/// A scheduler takes each step that is its own once, and no other; what comes of ending a task
/// is not told.
pub proof fn schedulers_take_their_own_steps<S: TaskScheduler>(
    scheduler: &mut S,
    step: &TaskStep,
    done: Option<Result<(), Fault>>,
)
    requires
        call_ensures(perform::<S>, (scheduler, step), done),
    ensures
        done is Some <==> step is Create || step is Run || step is Delete || step is End,
        done is None ==> *final(scheduler) == *old(scheduler),
        done is Some ==> final(scheduler).taken().len() == old(scheduler).taken().len() + 1
            && final(scheduler).taken().last().0 == step@,
        step is End ==> done == Some(Ok::<(), Fault>(())),
        step is Create || step is Run || step is Delete ==> final(scheduler).taken().last().1
            == done->0,
{
}

/// How a home stands with the scheduler: it is installed where there is a task, and in order
/// where that runs what is registered.
pub proof fn installations_are_reported(
    coven_home: &str,
    registration: Option<Registration>,
    actual: Option<&str>,
    task_state: Option<String>,
    daemon_running: bool,
    windows: bool,
    report: AutostartStatus,
)
    requires
        call_ensures(
            status,
            (coven_home, registration, actual, task_state, daemon_running, windows),
            report,
        ),
    ensures
        report.installed <==> actual is Some,
        report.definition_matches ==> actual is Some && registration is Some,
        actual matches Some(text) ==> (registration matches Some(known)
            ==> report.definition_matches == defines(
            text@,
            known.executable_path@,
            inside_on(coven_home@, "executor-autostart.json"@, windows),
        )),
        report.daemon_running == daemon_running,
        report.task_state == task_state,
        report.coven_home@ == coven_home@,
        registration matches Some(known) ==> report.task_name@ == known.task_name@
            && report.executable_path == Some(known.executable_path),
        registration is None ==> report.task_name@ == task_name_of(coven_home@, windows)
            && report.executable_path is None,
{
}

/// What a command wrote is read as UTF-16 where a mark says so, and as UTF-8 where an odd
/// number of bytes has none; what is neither is refused.
pub proof fn outputs_are_read_as_marked(bytes: Seq<u8>, decoded: Result<String, Fault>)
    requires
        decodes(bytes, decoded),
    ensures
        bytes.len() % 2 == 1 && !has_mark(bytes) ==> (decoded matches Ok(text) ==> encode_utf8(
            text@,
        ) == bytes),
        bytes.len() % 2 == 1 && has_mark(bytes) ==> (decoded matches Err(fault) && fault@
            == plain("command returned malformed UTF-16LE output"@)),
        bytes.len() % 2 == 0 && has_mark(bytes) ==> (decoded matches Ok(text) ==> units_of(text@)
            == units_in(bytes.skip(2))),
{
}

/// The current user is the name that a query gave, without the space around it; a query that
/// failed, or gave none, is told so, and so is what the scheduler says of a failure.
pub proof fn users_are_named(
    succeeded: bool,
    stdout: &[u8],
    user: Result<String, Fault>,
    operation: &str,
    stderr: &[u8],
    fault: Fault,
)
    requires
        call_ensures(current_user, (succeeded, stdout), user),
        call_ensures(scheduler_failure, (operation, stderr), fault),
    ensures
        user is Ok <==> succeeded && trimmed(utf8_lossy(stdout@)).len() > 0,
        user matches Ok(name) ==> name@ == trimmed(utf8_lossy(stdout@)),
        !succeeded ==> (user matches Err(wrong) && wrong@ == plain("whoami.exe failed"@)),
        succeeded ==> (user matches Err(wrong) ==> wrong@ == plain(
            "whoami.exe returned an empty user id"@,
        )),
        fault@ == plain(
            "Task Scheduler "@ + operation@ + " failed: "@ + trimmed(utf8_lossy(stderr@)),
        ),
{
}

/// A step shows what it does, to the task that it names.
pub proof fn task_steps_show_what_they_do(registration: Registration, name: String, xml: String)
    ensures
        TaskStep::Save(registration)@ == TaskView::Save(registration),
        TaskStep::Create(name, xml)@ == TaskView::Create(name@, xml@),
        TaskStep::AskRunning(name)@ == TaskView::AskRunning(name@),
        TaskStep::Run(name)@ == TaskView::Run(name@),
        TaskStep::StopDaemon@ is StopDaemon,
        TaskStep::End(name)@ == TaskView::End(name@),
        TaskStep::Delete(name)@ == TaskView::Delete(name@),
        TaskStep::RemoveRegistration@ is RemoveRegistration,
{
}

} // verus!
