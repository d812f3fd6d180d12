use resources::app::App;
use resources::tracker::AppsContext;
use resources::processes::{
    ActionError, Containerization, Icon, Process, ProcessAction, ProcessData, EPERM,
};

fn sample(pid: i32, cgroup: Option<&str>, memory: usize, cpu_time: u64, at: u64) -> ProcessData {
    ProcessData {
        pid,
        commandline: format!("/usr/bin/program\0--pid\0{}", pid),
        comm: format!("program{}", pid),
        memory_usage: memory,
        cpu_time,
        cpu_time_timestamp: at,
        cgroup: cgroup.map(|c| c.to_string()),
        containerization: Containerization::Uncontained,
        uid: 1000,
    }
}

fn editor() -> App {
    App::new(
        "editor".to_string(),
        "Editor".to_string(),
        Some("Edits text".to_string()),
        Icon::themed("editor-icon"),
    )
}

#[test]
fn scenario_app_appears_and_disappears_with_its_process() {
    let mut context = AppsContext::new(vec![editor()], Ok(vec![sample(1, None, 10, 0, 1)])).unwrap();
    assert!(!context.get_app("editor").unwrap().is_running(&context));
    assert!(!context.app_items().contains_key(Some("editor")));

    context
        .refresh(Ok(vec![sample(1, None, 10, 0, 2), sample(7, Some("editor"), 20, 5, 2)]))
        .unwrap();
    let items = context.app_items();
    assert_eq!(items.get(Some("editor")).unwrap().processes_amount, 1);
    assert!(context.get_app("editor").unwrap().is_running(&context));

    context.refresh(Ok(vec![sample(1, None, 10, 0, 3)])).unwrap();
    assert!(!context.get_app("editor").unwrap().is_running(&context));
    assert!(!context.app_items().contains_key(Some("editor")));

    context
        .refresh(Ok(vec![sample(1, None, 10, 0, 4), sample(8, Some("editor"), 20, 5, 4)]))
        .unwrap();
    assert_eq!(context.app_items().get(Some("editor")).unwrap().processes_amount, 1);
}

#[test]
fn scenario_memory_of_an_app_is_the_sum_over_its_processes() {
    let context = AppsContext::new(
        vec![editor()],
        Ok(vec![
            sample(1, Some("editor"), 100_000_000, 0, 1),
            sample(2, Some("editor"), 50_000_000, 0, 1),
            sample(3, None, 7, 0, 1),
        ]),
    )
    .unwrap();
    let items = context.app_items();
    let item = items.get(Some("editor")).unwrap();
    assert_eq!(item.memory_usage, 150_000_000);
    assert_eq!(item.processes_amount, 2);
    assert_eq!(item.display_name, "Editor");
    assert_eq!(item.icon.name, "editor-icon");
    assert_eq!(context.get_app("editor").unwrap().memory_usage(&context), 150_000_000);
}

#[test]
fn scenario_one_failed_delivery_among_three() {
    let context = AppsContext::new(
        vec![editor()],
        Ok(vec![
            sample(1, Some("editor"), 1, 0, 1),
            sample(2, Some("editor"), 1, 0, 1),
            sample(3, Some("editor"), 1, 0, 1),
        ]),
    )
    .unwrap();
    let send = |pid: i32, _action: ProcessAction| if pid == 2 { EPERM } else { 0 };
    let outcomes =
        context.get_app("editor").unwrap().execute_process_action(&context, ProcessAction::TERM, &send);
    assert_eq!(outcomes.len(), 3);
    assert_eq!(outcomes.iter().filter(|o| **o == Err(ActionError::NotPermitted)).count(), 1);
    assert_eq!(outcomes.iter().filter(|o| o.is_ok()).count(), 2);
}

#[test]
fn a_process_that_is_no_longer_listed_is_dead_but_still_known() {
    let mut context =
        AppsContext::new(vec![], Ok(vec![sample(1, None, 1, 0, 1), sample(2, None, 1, 0, 1)])).unwrap();
    assert_eq!(context.process_items().len(), 2);
    context.refresh(Ok(vec![sample(1, None, 1, 0, 2)])).unwrap();
    let gone = context.get_process(2).unwrap();
    assert!(!gone.alive);
    let items = context.process_items();
    assert!(!items.contains_key(2));
    assert!(items.contains_key(1));
    assert!(context.process_item(2).is_some());
}

#[test]
fn system_processes_count_the_living_processes_of_no_listed_app() {
    let mut context = AppsContext::new(
        vec![editor()],
        Ok(vec![
            sample(1, Some("editor"), 5, 0, 1),
            sample(2, None, 6, 0, 1),
            sample(3, None, 7, 0, 1),
            sample(4, None, 8, 0, 1),
        ]),
    )
    .unwrap();
    context
        .refresh(Ok(vec![
            sample(1, Some("editor"), 5, 0, 2),
            sample(2, None, 6, 0, 2),
            sample(3, None, 7, 0, 2),
        ]))
        .unwrap();
    let items = context.app_items();
    let system = items.get(None).unwrap();
    assert_eq!(system.id, None);
    assert_eq!(system.display_name, "System Processes");
    assert_eq!(system.processes_amount, 2);
    assert_eq!(system.memory_usage, 13);
    assert_eq!(items.len(), 2);
}

#[test]
fn cpu_time_ratio_is_the_clamped_share_in_millionths() {
    let mut context = AppsContext::new(vec![], Ok(vec![sample(1, None, 1, 100, 1000)])).unwrap();
    assert_eq!(context.get_process(1).unwrap().cpu_time_ratio(), 0);
    context.refresh(Ok(vec![sample(1, None, 1, 150, 1200)])).unwrap();
    assert_eq!(context.get_process(1).unwrap().cpu_time_ratio(), 250_000);
    context.refresh(Ok(vec![sample(1, None, 1, 950, 1300)])).unwrap();
    assert_eq!(context.get_process(1).unwrap().cpu_time_ratio(), 1_000_000);
    context.refresh(Ok(vec![sample(1, None, 1, 950, 1300)])).unwrap();
    assert_eq!(context.get_process(1).unwrap().cpu_time_ratio(), 0);
    context.refresh(Ok(vec![sample(1, None, 1, 900, 1400)])).unwrap();
    assert_eq!(context.get_process(1).unwrap().cpu_time_ratio(), 0);
}

#[test]
fn sanitize_cmdline_turns_separators_into_spaces() {
    assert_eq!(Process::sanitize_cmdline("a\0b\0c"), "a b c");
    assert_eq!(Process::sanitize_cmdline(""), "");
}

fn flatpak(pid: i32, cgroup: &str, commandline: &str) -> ProcessData {
    ProcessData {
        pid,
        commandline: commandline.to_string(),
        comm: "bin".to_string(),
        memory_usage: 1,
        cpu_time: 0,
        cpu_time_timestamp: 1,
        cgroup: Some(cgroup.to_string()),
        containerization: Containerization::Flatpak,
        uid: 1000,
    }
}

fn app(id: &str) -> App {
    App::new(id.to_string(), id.to_uppercase(), None, Icon::themed(id))
}

#[test]
fn a_process_stays_with_its_app_when_its_cgroup_changes() {
    let mut context =
        AppsContext::new(vec![editor(), app("viewer")], Ok(vec![sample(5, Some("editor"), 1, 0, 1)]))
            .unwrap();
    assert_eq!(context.get_app("editor").unwrap().members(), &vec![5]);
    context.refresh(Ok(vec![sample(5, Some("viewer"), 1, 0, 2)])).unwrap();
    assert_eq!(context.get_app("editor").unwrap().members(), &vec![5]);
    assert!(context.get_app("viewer").unwrap().members().is_empty());
    assert_eq!(context.get_process(5).unwrap().icon.name, "editor-icon");
    assert_eq!(context.get_process(5).unwrap().data.cgroup, Some("viewer".to_string()));
    // gone for a cycle and back under another cgroup: still the editor's, and still dead
    context.refresh(Ok(vec![])).unwrap();
    context.refresh(Ok(vec![sample(5, Some("viewer"), 1, 0, 4)])).unwrap();
    assert_eq!(context.get_app("editor").unwrap().members(), &vec![5]);
    assert!(context.get_app("viewer").unwrap().members().is_empty());
    assert!(!context.get_process(5).unwrap().alive);
}

#[test]
fn a_second_refresh_with_the_same_records_shows_the_same_but_at_rest() {
    let mut context = AppsContext::new(vec![editor()], Ok(vec![sample(1, None, 1, 10, 100)])).unwrap();
    let first = vec![sample(1, None, 3, 60, 200), sample(2, Some("editor"), 4, 5, 200)];
    let later: Vec<ProcessData> =
        first.iter().map(|d| ProcessData { cpu_time_timestamp: 300, ..d.clone() }).collect();
    context.refresh(Ok(first)).unwrap();
    let once = context.process_items();
    assert_eq!(once.get(1).unwrap().cpu_time_ratio, 500_000);
    context.refresh(Ok(later)).unwrap();
    let twice = context.process_items();
    let mut pids_once = once.pids();
    let mut pids_twice = twice.pids();
    pids_once.sort();
    pids_twice.sort();
    assert_eq!(pids_once, vec![1, 2]);
    assert_eq!(pids_twice, pids_once);
    for pid in pids_once {
        let a = once.get(pid).unwrap();
        let b = twice.get(pid).unwrap();
        assert_eq!(b.cpu_time_ratio, 0);
        assert_eq!((a.pid, &a.display_name, &a.icon.name), (b.pid, &b.display_name, &b.icon.name));
        assert_eq!((a.memory_usage, &a.commandline, &a.cgroup), (b.memory_usage, &b.commandline, &b.cgroup));
        assert_eq!((a.containerization, a.uid), (b.containerization, b.uid));
    }
}

#[test]
fn a_failed_enumeration_leaves_the_tracker_as_it_is() {
    let error = resources::processes::EnumerationError { os_code: 13 };
    assert_eq!(AppsContext::new(vec![editor()], Err(error)).err(), Some(error));
    let mut context = AppsContext::new(vec![], Ok(vec![sample(1, None, 1, 0, 1)])).unwrap();
    assert_eq!(context.refresh(Err(error)), Err(error));
    assert!(context.get_process(1).unwrap().alive);
    assert_eq!(context.process_items().len(), 1);
}

#[test]
fn processes_without_a_command_line_are_not_shown_but_counted() {
    let mut hidden = sample(9, None, 4, 0, 1);
    hidden.commandline = String::new();
    let context = AppsContext::new(vec![], Ok(vec![hidden, sample(1, None, 1, 0, 1)])).unwrap();
    let items = context.process_items();
    assert!(!items.contains_key(9));
    assert!(items.contains_key(1));
    assert_eq!(items.len(), 1);
    assert!(!items.is_empty());
    assert_eq!(items.get(1).unwrap().commandline, "/usr/bin/program --pid 1");
    assert_eq!(items.get(1).unwrap().display_name, "program1");
    assert_eq!(items.get(1).unwrap().icon.name, "generic-process");
    let system = context.app_items();
    assert_eq!(system.get(None).unwrap().processes_amount, 2);
    assert_eq!(system.get(None).unwrap().memory_usage, 5);
    assert_eq!(context.all_processes().len(), 2);
    assert!(context.process_item(9).is_some());
    assert!(context.process_item(10).is_none());
}

#[test]
fn flatpak_shows_unless_only_the_launcher_is_sandboxed() {
    let context = AppsContext::new(
        vec![app("a"), app("b"), app("c")],
        Ok(vec![
            flatpak(1, "a", "bwrap\0--args"),
            flatpak(2, "a", "/app/bin/a"),
            flatpak(3, "b", "bwrap\0--args"),
            flatpak(4, "b", ""),
            sample(5, Some("c"), 1, 0, 1),
        ]),
    )
    .unwrap();
    let items = context.app_items();
    assert_eq!(items.get(Some("a")).unwrap().containerization, Containerization::Flatpak);
    assert_eq!(items.get(Some("b")).unwrap().containerization, Containerization::Uncontained);
    assert_eq!(items.get(Some("c")).unwrap().containerization, Containerization::Uncontained);
    assert_eq!(items.get(None).unwrap().containerization, Containerization::Uncontained);
    assert_eq!(items.get(None).unwrap().processes_amount, 0);
    let mut ids = items.ids();
    ids.sort();
    assert_eq!(ids, vec![None, Some("a".to_string()), Some("b".to_string()), Some("c".to_string())]);
}

#[test]
fn desktop_portals_are_not_listed_and_their_processes_count_as_system() {
    let context = AppsContext::new(
        vec![app("xdg-desktop-portal-gtk"), editor()],
        Ok(vec![
            sample(1, Some("xdg-desktop-portal-gtk"), 10, 0, 1),
            sample(2, Some("editor"), 20, 0, 1),
            sample(3, None, 30, 0, 1),
        ]),
    )
    .unwrap();
    let items = context.app_items();
    assert!(!items.contains_key(Some("xdg-desktop-portal-gtk")));
    assert!(context.get_app("xdg-desktop-portal-gtk").unwrap().is_running(&context));
    assert_eq!(items.get(None).unwrap().processes_amount, 2);
    assert_eq!(items.get(None).unwrap().memory_usage, 40);
    assert_eq!(items.get(Some("editor")).unwrap().memory_usage, 20);
    assert_eq!(items.len(), 2);
}

#[test]
fn app_totals_run_over_the_living_processes() {
    let mut context = AppsContext::new(
        vec![editor()],
        Ok(vec![
            sample(1, Some("editor"), 10, 100, 1000),
            sample(2, Some("editor"), 20, 200, 1000),
            sample(3, Some("editor"), 40, 400, 1000),
        ]),
    )
    .unwrap();
    context
        .refresh(Ok(vec![sample(1, Some("editor"), 11, 150, 1200), sample(2, Some("editor"), 21, 300, 1400)]))
        .unwrap();
    let editor = context.get_app("editor").unwrap();
    assert_eq!(editor.memory_usage(&context), 32);
    assert_eq!(editor.cpu_time(&context), 450);
    assert_eq!(editor.cpu_time_before(&context), 300);
    assert_eq!(editor.cpu_time_timestamp(&context), 2600 / 3);
    assert_eq!(editor.cpu_time_before_timestamp(&context), 2000 / 3);
    assert_eq!(editor.cpu_time_ratio(&context), 250_000 + 250_000);
    assert_eq!(editor.processes_amount(&context), 2);
    assert_eq!(editor.processes_iter(&context).len(), 2);
    assert_eq!(editor.item(&context).cpu_time_ratio, 500_000);
    let mut members = editor.members().clone();
    members.sort();
    assert_eq!(members, vec![1, 2, 3]);
}

#[test]
fn the_share_of_an_app_is_at_most_all_but_that_of_the_system_is_not() {
    let mut context = AppsContext::new(
        vec![editor()],
        Ok(vec![
            sample(1, Some("editor"), 1, 0, 1000),
            sample(2, Some("editor"), 1, 0, 1000),
            sample(3, None, 1, 0, 1000),
            sample(4, None, 1, 0, 1000),
        ]),
    )
    .unwrap();
    context
        .refresh(Ok(vec![
            sample(1, Some("editor"), 1, 80, 1100),
            sample(2, Some("editor"), 1, 70, 1100),
            sample(3, None, 1, 90, 1100),
            sample(4, None, 1, 60, 1100),
        ]))
        .unwrap();
    let items = context.app_items();
    assert_eq!(items.get(Some("editor")).unwrap().cpu_time_ratio, 1_000_000);
    assert_eq!(items.get(None).unwrap().cpu_time_ratio, 1_500_000);
}

#[test]
fn totals_stop_at_the_largest_number() {
    let context = AppsContext::new(
        vec![editor()],
        Ok(vec![
            sample(1, Some("editor"), usize::MAX, u64::MAX, 1),
            sample(2, Some("editor"), 5, 7, 1),
        ]),
    )
    .unwrap();
    let editor = context.get_app("editor").unwrap();
    assert_eq!(editor.memory_usage(&context), usize::MAX);
    assert_eq!(editor.cpu_time(&context), u64::MAX);
}

#[test]
fn an_app_without_processes_has_empty_totals() {
    let context = AppsContext::new(vec![editor()], Ok(vec![])).unwrap();
    let editor = context.get_app("editor").unwrap();
    assert_eq!(editor.memory_usage(&context), 0);
    assert_eq!(editor.cpu_time_timestamp(&context), 0);
    assert_eq!(editor.cpu_time_ratio(&context), 0);
    assert!(!editor.is_running(&context));
    assert!(context.get_app("nothing").is_none());
    assert!(context.get_process(1).is_none());
    let items = context.app_items();
    assert_eq!(items.len(), 1);
    assert_eq!(items.get(None).unwrap().processes_amount, 0);
    assert_eq!(items.get(None).unwrap().icon.name, "system-processes");
}

#[test]
fn new_starts_every_app_without_processes_and_the_later_of_two_ids_stays() {
    let mut stale = editor();
    let mut process = Process::new(sample(77, None, 1, 0, 1));
    stale.add_process(&mut process);
    assert_eq!(stale.members(), &vec![77]);
    assert_eq!(process.icon.name, "editor-icon");
    let second = App::new("editor".to_string(), "Second".to_string(), None, Icon::themed("second"));
    let context = AppsContext::new(vec![stale, second], Ok(vec![])).unwrap();
    assert!(context.get_app("editor").unwrap().members().is_empty());
    assert_eq!(context.get_app("editor").unwrap().display_name, "Second");
}

#[test]
fn a_process_listed_twice_at_startup_is_assigned_once() {
    let context = AppsContext::new(
        vec![editor(), app("viewer")],
        Ok(vec![sample(1, Some("editor"), 1, 10, 1), sample(1, Some("viewer"), 2, 30, 3)]),
    )
    .unwrap();
    assert_eq!(context.get_app("editor").unwrap().members(), &vec![1]);
    assert!(context.get_app("viewer").unwrap().members().is_empty());
    let process = context.get_process(1).unwrap();
    assert_eq!(process.data.memory_usage, 2);
    assert_eq!(process.cpu_time_before, 10);
}

#[test]
fn a_process_without_a_cgroup_goes_to_the_app_without_an_id() {
    let context = AppsContext::new(
        vec![App::new(String::new(), "Nameless".to_string(), None, Icon::themed("nameless"))],
        Ok(vec![sample(1, None, 1, 0, 1), sample(2, Some("other"), 1, 0, 1)]),
    )
    .unwrap();
    assert_eq!(context.get_app("").unwrap().members(), &vec![1]);
    assert_eq!(context.get_process(1).unwrap().icon.name, "nameless");
    assert_eq!(context.get_process(2).unwrap().icon.name, "generic-process");
}

#[test]
fn an_app_can_bring_its_own_list_up_to_date() {
    let mut context = AppsContext::new(
        vec![editor()],
        Ok(vec![sample(1, Some("editor"), 1, 0, 1), sample(2, Some("editor"), 1, 0, 1)]),
    )
    .unwrap();
    context.refresh(Ok(vec![sample(2, Some("editor"), 1, 0, 2)])).unwrap();
    let mut copy = context.get_app("editor").unwrap().clone();
    copy.refresh(&context);
    assert_eq!(copy.members(), &vec![2]);
    assert_eq!(copy.id, "editor");
    let gone = context.get_process(2).unwrap().clone();
    copy.remove_process(&gone);
    assert!(copy.members().is_empty());
}

#[test]
fn remove_process_takes_every_occurrence() {
    let mut app = editor();
    let mut one = Process::new(sample(1, None, 1, 0, 1));
    let mut two = Process::new(sample(2, None, 1, 0, 1));
    app.add_process(&mut one);
    app.add_process(&mut two);
    app.add_process(&mut one);
    assert_eq!(app.members(), &vec![1, 2, 1]);
    app.remove_process(&one);
    assert_eq!(app.members(), &vec![2]);
}

#[test]
fn one_delivery_to_one_process() {
    let process = Process::new(sample(4, None, 1, 0, 1));
    let refused = |pid: i32, action: ProcessAction| if pid == 4 && action == ProcessAction::KILL { 3 } else { 0 };
    assert_eq!(process.execute_process_action(ProcessAction::KILL, &refused), Err(ActionError::NotFound));
    assert_eq!(process.execute_process_action(ProcessAction::CONT, &refused), Ok(()));
}

#[test]
fn dead_processes_get_no_signal() {
    let mut context = AppsContext::new(
        vec![editor()],
        Ok(vec![sample(1, Some("editor"), 1, 0, 1), sample(2, Some("editor"), 1, 0, 1)]),
    )
    .unwrap();
    context.refresh(Ok(vec![sample(1, Some("editor"), 1, 0, 2)])).unwrap();
    let sent = std::cell::RefCell::new(Vec::new());
    let send = |pid: i32, _action: ProcessAction| {
        sent.borrow_mut().push(pid);
        0
    };
    let outcomes =
        context.get_app("editor").unwrap().execute_process_action(&context, ProcessAction::STOP, &send);
    assert_eq!(outcomes, vec![Ok(())]);
    assert_eq!(*sent.borrow(), vec![1]);
}

#[test]
fn the_default_tracker_is_empty() {
    let context = AppsContext::default();
    assert!(context.process_items().is_empty());
    assert_eq!(context.app_items().len(), 1);
    assert!(context.all_processes().is_empty());
}
