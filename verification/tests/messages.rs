use resources::messages::{
    count_failures, get_action_name, get_action_success, get_app_action_description,
    get_app_action_failure, get_app_action_report, get_app_action_warning,
    get_process_action_failure,
};
use resources::text::{decimal_string, parse_u32};
use resources::processes::{action_result, ActionError, ProcessAction, EPERM, ESRCH};

#[test]
fn questions_name_the_target() {
    assert_eq!(get_action_name(ProcessAction::TERM, &["Editor"]), "End Editor?");
    assert_eq!(get_action_name(ProcessAction::STOP, &["Editor"]), "Halt Editor?");
    assert_eq!(get_action_name(ProcessAction::KILL, &["Editor"]), "Kill Editor?");
    assert_eq!(get_action_name(ProcessAction::CONT, &["Editor"]), "Continue Editor?");
    assert_eq!(get_action_name(ProcessAction::TERM, &[]), "End {}?");
    assert_eq!(get_action_name(ProcessAction::TERM, &["a", "b"]), "End a?");
}

#[test]
fn warnings_and_descriptions() {
    assert_eq!(get_app_action_warning(ProcessAction::TERM), "Unsaved work might be lost.");
    assert_eq!(get_app_action_warning(ProcessAction::CONT), "");
    assert!(get_app_action_warning(ProcessAction::KILL).starts_with("Killing an application"));
    assert!(get_app_action_warning(ProcessAction::STOP).starts_with("Halting an application"));
    assert_eq!(get_app_action_description(ProcessAction::TERM), "End application");
    assert_eq!(get_app_action_description(ProcessAction::STOP), "Halt application");
    assert_eq!(get_app_action_description(ProcessAction::KILL), "Kill application");
    assert_eq!(get_app_action_description(ProcessAction::CONT), "Continue application");
}

#[test]
fn outcomes_are_reported() {
    assert_eq!(get_action_success(ProcessAction::TERM, &["Editor"]), "Successfully ended Editor");
    assert_eq!(get_action_success(ProcessAction::CONT, &["Editor"]), "Successfully continued Editor");
    assert_eq!(
        get_process_action_failure(ProcessAction::KILL, &["Editor"]),
        "There was a problem killing Editor"
    );
    assert_eq!(
        get_process_action_failure(ProcessAction::STOP, &["Editor"]),
        "There was a problem halting Editor"
    );
    assert_eq!(
        get_app_action_failure(ProcessAction::TERM, 1),
        "There was a problem ending a process"
    );
    assert_eq!(
        get_app_action_failure(ProcessAction::TERM, 3),
        "There were problems ending 3 processes"
    );
    assert_eq!(
        get_app_action_failure(ProcessAction::CONT, 0),
        "There were problems continuing 0 processes"
    );
    assert_eq!(
        get_app_action_failure(ProcessAction::KILL, 4_294_967_295),
        "There were problems killing 4294967295 processes"
    );
}

#[test]
fn numbers_are_written_in_decimal() {
    for n in [0u32, 7, 10, 99, 100, 1203, 4_294_967_295] {
        assert_eq!(decimal_string(n), n.to_string());
        assert_eq!(parse_u32(&decimal_string(n)), Some(n));
    }
}

#[test]
fn error_numbers_become_outcomes() {
    assert_eq!(action_result(0), Ok(()));
    assert_eq!(action_result(EPERM), Err(ActionError::NotPermitted));
    assert_eq!(action_result(ESRCH), Err(ActionError::NotFound));
    assert_eq!(action_result(22), Err(ActionError::Other(22)));
    assert_eq!(action_result(-1), Err(ActionError::Other(-1)));
}

#[test]
fn failures_are_counted_and_summed_up() {
    let outcomes = vec![Ok(()), Err(ActionError::NotPermitted), Ok(()), Err(ActionError::NotFound)];
    assert_eq!(count_failures(&outcomes), 2);
    assert_eq!(count_failures(&vec![]), 0);
    assert_eq!(
        get_app_action_report(ProcessAction::TERM, "Editor", &outcomes),
        "There were problems ending 2 processes"
    );
    assert_eq!(
        get_app_action_report(ProcessAction::TERM, "Editor", &vec![Ok(()), Ok(())]),
        "Successfully ended Editor"
    );
    assert_eq!(
        get_app_action_report(ProcessAction::KILL, "Editor", &vec![Err(ActionError::Other(5))]),
        "There was a problem killing a process"
    );
}
