//! The registration of an executor with the scheduler of tasks.

use coven_cli::autostart_task::{
    after_running, current_user, decode_command_output, install, known_task_name, perform,
    scheduler_failure, status, uninstall, TaskScheduler, TaskStep,
};
use coven_cli::executor_autostart::{
    definition_matches, load_registration, make_registration, normalized_home, quote_windows_arg,
    registration_path, run_foreground, task_name, task_xml, xml_escape, RegistrationFile,
};
use coven_cli::fault::Fault;

#[derive(Default)]
struct FakeScheduler {
    xml: Option<String>,
    calls: Vec<String>,
}

impl TaskScheduler for FakeScheduler {
    fn current_user_id(&self) -> Result<String, Fault> {
        Ok(r"machine\user".to_string())
    }

    fn task_xml(&self, _: &str) -> Result<Option<String>, Fault> {
        Ok(self.xml.clone())
    }

    fn task_state(&self, _: &str) -> Result<Option<String>, Fault> {
        Ok(Some("Ready".to_string()))
    }

    fn create_or_replace(&mut self, _: &str, xml: &str) -> Result<(), Fault> {
        self.xml = Some(xml.to_string());
        self.calls.push("create".to_string());
        Ok(())
    }

    fn run(&mut self, _: &str) -> Result<(), Fault> {
        self.calls.push("run".to_string());
        Ok(())
    }

    fn end(&mut self, _: &str) -> Result<(), Fault> {
        self.calls.push("end".to_string());
        Err(Fault::plain("not running"))
    }

    fn delete(&mut self, _: &str) -> Result<(), Fault> {
        self.xml.take();
        self.calls.push("delete".to_string());
        Ok(())
    }
}

/// Takes steps, and tells whether a registration is on record in the end.
fn take(scheduler: &mut FakeScheduler, steps: Vec<TaskStep>, running: bool, mut saved: bool) -> bool {
    for step in steps {
        match perform(scheduler, &step) {
            Some(done) => done.expect("the step succeeds"),
            None => match step {
                TaskStep::Save(_) => saved = true,
                TaskStep::RemoveRegistration => saved = false,
                TaskStep::AskRunning(name) => {
                    if let Some(next) = after_running(name, running) {
                        perform(scheduler, &next).expect("the scheduler's").expect("run");
                    }
                }
                _ => {}
            },
        }
    }
    saved
}

fn installed(scheduler: &mut FakeScheduler, running: bool) -> bool {
    let user = scheduler.current_user_id().expect("a user");
    let existing = scheduler.task_xml("any").expect("asked");
    let steps = install("/h/home", "/bin/coven.exe", false, &user, existing.as_deref())
        .expect("an absolute path");
    take(scheduler, steps, running, false)
}

#[test]
fn windows_arguments_quote_backslashes_and_quotes() {
    assert_eq!(quote_windows_arg("plain"), "plain");
    assert_eq!(quote_windows_arg(""), r#""""#);
    assert_eq!(quote_windows_arg(r#"a b\"c"#), r#""a b\\\"c""#);
    assert_eq!(quote_windows_arg(r#"C:\with space\"#), r#""C:\with space\\""#);
}

#[test]
fn command_output_decodes_utf16le_with_or_without_bom() {
    let mut encoded = "<Task>ready</Task>"
        .encode_utf16()
        .flat_map(u16::to_le_bytes)
        .collect::<Vec<_>>();
    assert_eq!(decode_command_output(encoded.clone()).expect("text"), "<Task>ready</Task>");
    encoded.splice(0..0, [0xff, 0xfe]);
    assert_eq!(decode_command_output(encoded).expect("text"), "<Task>ready</Task>");
}

#[test]
fn command_output_that_is_no_text_is_refused() {
    assert_eq!(decode_command_output(b"plain".to_vec()).expect("text"), "plain");
    let malformed = decode_command_output(vec![0xff, 0xfe, 0x41]).expect_err("half a unit");
    assert_eq!(malformed.chain(), "command returned malformed UTF-16LE output");
    let lone = decode_command_output(vec![0xff, 0xfe, 0x00, 0xd8]).expect_err("half a pair");
    assert_eq!(lone.message, "command returned invalid UTF-16LE output");
    assert_eq!(
        lone.cause,
        String::from_utf16(&[0xd800]).err().map(|error| error.to_string())
    );
    let bytes = vec![0xff, 0x41, 0x42];
    let broken = decode_command_output(bytes.clone()).expect_err("no UTF-8");
    assert_eq!(broken.message, "command returned invalid UTF-8 output");
    assert_eq!(broken.cause, String::from_utf8(bytes).err().map(|error| error.to_string()));
    let wide: Vec<u8> = "a🎉".encode_utf16().flat_map(u16::to_le_bytes).collect();
    assert_eq!(decode_command_output(wide).expect("text"), "a🎉");
}

#[test]
fn xml_has_least_privilege_foreground_action_and_no_secret() {
    let home = "/Users/Example & Co/fleet";
    let executable = "/Applications/Coven & Co/coven.exe";
    let registration_file = format!("{home}/executor-autostart.json");
    let registration = make_registration(home, executable, false).expect("absolute");
    let xml = task_xml(&registration, &registration_file, r"PC\Operator");
    assert!(xml.contains("InteractiveToken"));
    assert!(xml.contains("LeastPrivilege"));
    assert!(xml.contains("executor autostart run"));
    assert!(xml.contains("Example &amp; Co"));
    assert!(!xml.contains("nodeSecret"));
    assert!(!xml.contains("daemon start"));
    assert!(definition_matches(&xml, &registration, &registration_file));
    assert!(!definition_matches("<Task/>", &registration, &registration_file));
}

#[test]
fn install_is_idempotent_and_skips_run_for_live_daemon() {
    let mut scheduler = FakeScheduler::default();
    assert!(installed(&mut scheduler, false));
    assert!(installed(&mut scheduler, true));
    assert_eq!(scheduler.calls, vec!["create", "run"]);
}

#[test]
fn uninstall_is_idempotent() {
    let mut scheduler = FakeScheduler::default();
    let mut saved = installed(&mut scheduler, true);
    for _ in 0..2 {
        let present = scheduler.task_xml("any").expect("asked").is_some();
        let name = known_task_name("/h/home", None, false);
        saved = take(&mut scheduler, uninstall(&name, saved, present), true, saved);
    }
    assert!(!saved);
    assert_eq!(scheduler.calls, vec!["create", "end", "delete"]);
}

#[test]
fn foreground_runner_uses_only_the_registered_home() {
    let home = "/h/home";
    let registration = make_registration(home, "/bin/coven.exe", false).expect("absolute");
    let path = registration_path(home, false);
    let actual = run_foreground(&path, RegistrationFile::Found(registration), false);
    assert_eq!(actual.expect("its own registration"), home);
}

#[test]
fn registrations_that_are_not_ours_are_refused() {
    let make = || make_registration("/h/home", "/bin/coven", false).expect("absolute");
    let path = registration_path("/h/home", false);
    assert!(load_registration(&path, RegistrationFile::Found(make()), false).is_ok());
    let mut version = make();
    version.schema_version = 2;
    assert!(load_registration(&path, RegistrationFile::Found(version), false).is_err());
    let mut name = make();
    name.task_name = "other".to_string();
    assert!(load_registration(&path, RegistrationFile::Found(name), false).is_err());
    let unread = RegistrationFile::Unreadable("denied".to_string());
    assert!(load_registration(&path, unread, false).expect_err("denied").chain().contains("denied"));
    assert!(load_registration(&path, RegistrationFile::Invalid("eof".to_string()), false).is_err());
    assert!(make_registration("/h/home", "coven", false).is_err());
    assert!(make_registration(r"C:\h", r"C:\bin\coven.exe", false).is_err());
    assert!(make_registration(r"C:\h", r"C:\bin\coven.exe", true).is_ok());
    assert!(make_registration(r"C:\h", "C:coven.exe", true).is_err());
    assert!(make_registration("/h/home", "/bin/coven", true).is_err());
    assert_eq!(registration_path(r"C:\h", true), r"C:\h\executor-autostart.json");
}

#[test]
fn spellings_of_a_home_share_a_task() {
    assert_eq!(task_name(r"C:\Users\Ä\Home", true), task_name("c:/users/ä/home", true));
    assert_ne!(task_name("/Home", false), task_name("/home", false));
    assert_eq!(normalized_home(r"C:\Home", true), normalized_home("c:/home", true));
}

#[test]
fn marks_are_escaped() {
    assert_eq!(xml_escape(r#"<a & "b" 'c'>"#), "&lt;a &amp; &quot;b&quot; &apos;c&apos;&gt;");
    assert_eq!(xml_escape("&lt;"), "&amp;lt;");
    assert_eq!(xml_escape("a<b"), format!("{}{}", xml_escape("a<"), xml_escape("b")));
}

#[test]
fn a_definition_matches_nothing_but_its_own() {
    let own = make_registration("/h", "/bin/coven & co", false).expect("absolute");
    let file = registration_path("/h", false);
    let xml = task_xml(&own, &file, "<Command>/bin/other</Command>");
    assert!(definition_matches(&xml, &own, &file));
    for program in ["/bin/coven", "/bin/coven & c", "/bin/coven &amp; co", "/bin/other"] {
        let other = make_registration("/h", program, false).expect("absolute");
        assert!(!definition_matches(&xml, &other, &file), "{program}");
    }
    for other in ["/h", "/h/executor-autostart.jso", "/h/executor-autostart.json "] {
        assert!(!definition_matches(&xml, &own, other), "{other}");
    }
}

#[test]
fn the_status_tells_whether_the_task_is_ours() {
    let registration = make_registration("/h", "/bin/coven", false).expect("absolute");
    let xml = task_xml(&registration, &registration_path("/h", false), "user");
    let shown = status("/h", Some(registration), Some(&xml), Some("Ready".to_string()), true, false);
    assert!(shown.installed && shown.definition_matches && shown.daemon_running);
    assert_eq!(shown.task_state.as_deref(), Some("Ready"));
    assert_eq!(shown.executable_path.as_deref(), Some("/bin/coven"));
    let absent = status("/h", None, None, None, false, false);
    assert!(!absent.installed && !absent.definition_matches);
    assert_eq!(absent.task_name, task_name("/h", false));
}

#[test]
fn the_scheduler_speaks_through_its_output() {
    assert_eq!(current_user(true, b"pc\\user\r\n").expect("a user"), "pc\\user");
    assert!(current_user(true, b"  ").is_err());
    assert!(current_user(false, b"pc\\user").is_err());
    let fault = scheduler_failure("create", b"access denied\r\n");
    assert!(fault.chain().contains("create") && fault.chain().contains("access denied"));
}
