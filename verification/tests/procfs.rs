use resources::processes::{Containerization, EnumerationError, ProcessData};
use resources::procfs::{
    application_of_unit, cpu_time_of_stat, enumerate, memory_of_statm, timestamp_in_ticks,
    trim_line_end, unescape, unit_of_cgroup, RawProcess,
};
use resources::text::split_after_last;

const STAT: &str = "1234 (my (weird) prog) S 1 1234 1234 0 -1 4194304 100 0 0 0 57 13 0 0 20 0 1 0 100 1000 300";

fn raw(pid: i32, stat: &str, statm: &str, cgroup: Option<&str>) -> RawProcess {
    RawProcess {
        pid,
        uid: 1000,
        stat: stat.to_string(),
        statm: statm.to_string(),
        comm: "prog\n".to_string(),
        cmdline: "prog\0--flag\0".to_string(),
        cgroup: cgroup.map(|c| c.to_string()),
        timestamp: 99,
    }
}

#[test]
fn processor_time_is_user_and_kernel_time() {
    assert_eq!(cpu_time_of_stat(STAT), Some(70));
    assert_eq!(cpu_time_of_stat("1 (a) S 1 1 1 0 -1 0 0 0 0 0 18446744073709551615 0"), Some(u64::MAX));
    assert_eq!(cpu_time_of_stat("1 (a) S 1 1 1 0 -1 0 0 0 0 0 18446744073709551615 1"), None);
    assert_eq!(cpu_time_of_stat("1 (a) S 1 1 1 0 -1 0 0 0 0 0 5"), None);
    assert_eq!(cpu_time_of_stat("1 (a) S 1 1 1 0 -1 0 0 0 0 0 x 5"), None);
    assert_eq!(cpu_time_of_stat(" S 1 1 1 0 -1 0 0 0 0 0 5 5"), None);
    assert_eq!(cpu_time_of_stat(""), None);
}

#[test]
fn memory_is_what_is_resident_and_not_shared() {
    assert_eq!(memory_of_statm("1000 300 100 10 0 50 0\n", 4096), Some(819_200));
    assert_eq!(memory_of_statm("1000 100 300 10 0 50 0\n", 4096), Some(0));
    assert_eq!(memory_of_statm("1000 300", 4096), None);
    assert_eq!(memory_of_statm("", 4096), None);
    assert_eq!(memory_of_statm("0 18446744073709551615 0", 2), None);
    assert_eq!(memory_of_statm("0 18446744073709551615 0", 1), Some(usize::MAX));
    assert_eq!(memory_of_statm("0 18446744073709551615 0", 0), Some(0));
}

#[test]
fn lines_lose_their_end() {
    assert_eq!(trim_line_end("prog\n"), "prog");
    assert_eq!(trim_line_end("prog"), "prog");
    assert_eq!(trim_line_end("prog\n\n"), "prog\n");
    assert_eq!(trim_line_end(""), "");
}

#[test]
fn what_follows_the_last() {
    assert_eq!(split_after_last("a/b/c", '/'), (true, "c".to_string()));
    assert_eq!(split_after_last("abc", '/'), (false, "abc".to_string()));
    assert_eq!(split_after_last("abc/", '/'), (true, String::new()));
    assert_eq!(split_after_last("", '/'), (false, String::new()));
}

#[test]
fn the_unit_is_the_last_part_of_the_unified_path() {
    assert_eq!(
        unit_of_cgroup("0::/user.slice/user-1000.slice/user@1000.service/app.slice/app-gnome-org.gnome.TextEditor-12345.scope\n"),
        Some("app-gnome-org.gnome.TextEditor-12345.scope".to_string())
    );
    assert_eq!(
        unit_of_cgroup("12:pids:/legacy\n0::/system.slice/dbus.service\n"),
        Some("dbus.service".to_string())
    );
    assert_eq!(unit_of_cgroup("0::/\n"), Some(String::new()));
    assert_eq!(unit_of_cgroup("1:name=systemd:/init.scope\n"), None);
    assert_eq!(unit_of_cgroup(""), None);
}

#[test]
fn units_name_their_application() {
    assert_eq!(
        application_of_unit("app-gnome-org.gnome.TextEditor-12345.scope"),
        (Some("org.gnome.TextEditor".to_string()), Containerization::Uncontained)
    );
    assert_eq!(
        application_of_unit("app-flatpak-org.mozilla.firefox-3456.scope"),
        (Some("org.mozilla.firefox".to_string()), Containerization::Flatpak)
    );
    assert_eq!(
        application_of_unit("app-org.gnome.Terminal-77.scope"),
        (Some("org.gnome.Terminal".to_string()), Containerization::Uncontained)
    );
    assert_eq!(
        application_of_unit("app-org.gnome.Terminal@12.service"),
        (Some("org.gnome.Terminal".to_string()), Containerization::Uncontained)
    );
    assert_eq!(
        application_of_unit("app-flatpak-org.gnome.Maps.service"),
        (Some("org.gnome.Maps".to_string()), Containerization::Flatpak)
    );
    assert_eq!(
        application_of_unit("app-gnome\\x2dcalculator-77.scope"),
        (Some("gnome-calculator".to_string()), Containerization::Uncontained)
    );
    for unit in ["session-2.scope", "dbus.service", "init.scope", "app.slice", "app-1.scope", "app.service", ""] {
        assert_eq!(application_of_unit(unit), (None, Containerization::Uncontained));
    }
}

#[test]
fn hyphens_are_written_out() {
    assert_eq!(unescape("gnome\\x2dterminal\\x2dserver"), "gnome-terminal-server");
    assert_eq!(unescape("\\x2d"), "-");
    assert_eq!(unescape("\\x2"), "\\x2");
    assert_eq!(unescape("plain"), "plain");
    assert_eq!(unescape(""), "");
}

#[test]
fn files_become_a_sample() {
    let sample = ProcessData::from_raw(
        &raw(1234, STAT, "1000 300 100 10 0 50 0\n", Some("0::/user.slice/app-flatpak-org.mozilla.firefox-3456.scope\n")),
        4096,
    )
    .unwrap();
    assert_eq!(sample.pid, 1234);
    assert_eq!(sample.uid, 1000);
    assert_eq!(sample.comm, "prog");
    assert_eq!(sample.commandline, "prog\0--flag\0");
    assert_eq!(sample.memory_usage, 819_200);
    assert_eq!(sample.cpu_time, 70);
    assert_eq!(sample.cpu_time_timestamp, 99);
    assert_eq!(sample.cgroup, Some("org.mozilla.firefox".to_string()));
    assert_eq!(sample.containerization, Containerization::Flatpak);

    let plain = ProcessData::from_raw(&raw(1, STAT, "1 1 1", None), 4096).unwrap();
    assert_eq!(plain.cgroup, None);
    assert_eq!(plain.containerization, Containerization::Uncontained);
    assert!(ProcessData::from_raw(&raw(1, "gone", "1 1 1", None), 4096).is_none());
    assert!(ProcessData::from_raw(&raw(1, STAT, "", None), 4096).is_none());
}

#[test]
fn a_scan_yields_the_samples_it_can() {
    let scan = Ok(vec![
        raw(1, STAT, "10 5 1", None),
        raw(2, "", "10 5 1", None),
        raw(3, STAT, "10 7 1", Some("0::/system.slice/dbus.service\n")),
    ]);
    let samples = enumerate(&scan, 10).unwrap();
    assert_eq!(samples.len(), 2);
    assert_eq!((samples[0].pid, samples[0].memory_usage), (1, 40));
    assert_eq!((samples[1].pid, samples[1].memory_usage), (3, 60));
    assert_eq!(samples[1].cgroup, None);
    let error = EnumerationError { os_code: 2 };
    assert_eq!(enumerate(&Err(error), 10).err(), Some(error));
    assert_eq!(enumerate(&Ok(vec![]), 10).unwrap().len(), 0);
}

#[test]
fn milliseconds_become_ticks() {
    assert_eq!(timestamp_in_ticks(1_000, 100), 100);
    assert_eq!(timestamp_in_ticks(1_234, 100), 123);
    assert_eq!(timestamp_in_ticks(9, 100), 0);
    assert_eq!(timestamp_in_ticks(0, 100), 0);
    assert_eq!(timestamp_in_ticks(u64::MAX, 1_000), u64::MAX);
    assert_eq!(timestamp_in_ticks(u64::MAX, 1_001), u64::MAX);
    assert_eq!(timestamp_in_ticks(u64::MAX, 100), u64::MAX / 10);
}
