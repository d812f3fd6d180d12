use resources::actions::{process_action, Action};
use resources::app::App;
use resources::tracker::AppsContext;
use resources::processes::{
    os_code_of_kill, signal_name, Containerization, Icon, ProcessAction, ProcessData, EPERM, ESRCH,
};
use resources::text::str_contains;

fn data(pid: i32, cgroup: Option<&str>) -> ProcessData {
    ProcessData {
        pid,
        commandline: "x".to_string(),
        comm: "x".to_string(),
        memory_usage: 0,
        cpu_time: 0,
        cpu_time_timestamp: 0,
        cgroup: cgroup.map(|c| c.to_string()),
        containerization: Containerization::Uncontained,
        uid: 0,
    }
}

fn context() -> AppsContext {
    AppsContext::new(
        vec![App::new("editor".to_string(), "Editor".to_string(), None, Icon::themed("e"))],
        Ok(vec![data(1, Some("editor")), data(2, Some("editor")), data(3, None)]),
    )
    .unwrap()
}

#[test]
fn a_request_for_a_process_tells_how_it_went() {
    let context = context();
    let send = |pid: i32, _: ProcessAction| if pid == 3 { EPERM } else { 0 };
    let kill = Action::ManipulateProcess(ProcessAction::KILL, 3, "Three".to_string());
    assert_eq!(process_action(&context, &kill, &send), Some("There was a problem killing Three".to_string()));
    let end = Action::ManipulateProcess(ProcessAction::TERM, 1, "One".to_string());
    assert_eq!(process_action(&context, &end, &send), Some("Successfully ended One".to_string()));
    let unknown = Action::ManipulateProcess(ProcessAction::TERM, 99, "Nobody".to_string());
    assert_eq!(process_action(&context, &unknown, &send), None);
}

#[test]
fn a_request_for_an_application_sums_up() {
    let context = context();
    let request = Action::ManipulateApp(ProcessAction::STOP, "editor".to_string());
    let fine = |_: i32, _: ProcessAction| 0;
    assert_eq!(process_action(&context, &request, &fine), Some("Successfully halted Editor".to_string()));
    let one = |pid: i32, _: ProcessAction| if pid == 2 { ESRCH } else { 0 };
    assert_eq!(
        process_action(&context, &request, &one),
        Some("There was a problem halting a process".to_string())
    );
    let none = |_: i32, _: ProcessAction| 5;
    assert_eq!(
        process_action(&context, &request, &none),
        Some("There were problems halting 2 processes".to_string())
    );
}

#[test]
fn signals_have_names() {
    assert_eq!(signal_name(ProcessAction::TERM), "TERM");
    assert_eq!(signal_name(ProcessAction::STOP), "STOP");
    assert_eq!(signal_name(ProcessAction::KILL), "KILL");
    assert_eq!(signal_name(ProcessAction::CONT), "CONT");
}

#[test]
fn the_complaint_of_kill_becomes_an_error_number() {
    assert_eq!(os_code_of_kill(Some(0), ""), 0);
    assert_eq!(os_code_of_kill(Some(0), "kill: (1) - Operation not permitted"), 0);
    assert_eq!(os_code_of_kill(Some(1), "kill: (1) - Operation not permitted"), EPERM);
    assert_eq!(os_code_of_kill(Some(1), "kill: (77777) - No such process"), ESRCH);
    assert_eq!(os_code_of_kill(Some(1), "No such process; not permitted"), EPERM);
    assert_eq!(os_code_of_kill(Some(64), "kill: usage"), 64);
    assert_eq!(os_code_of_kill(None, ""), -1);
    assert_eq!(os_code_of_kill(None, "No such process"), ESRCH);
}

#[test]
fn texts_are_found_within_texts() {
    assert!(str_contains("Operation not permitted", "not permitted"));
    assert!(str_contains("abc", ""));
    assert!(str_contains("", ""));
    assert!(str_contains("abc", "c"));
    assert!(str_contains("abc", "abc"));
    assert!(!str_contains("abc", "abcd"));
    assert!(!str_contains("abc", "ca"));
    assert!(!str_contains("", "a"));
}
