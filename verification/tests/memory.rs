use resources::memory::{
    get_available_memory, get_dmidecode_command, get_free_memory, get_free_swap,
    get_memory_devices, get_pkexec_dmidecode_command, get_total_memory, get_total_swap,
    memory_amount, parse_dmidecode, pkexec_get_memory_devices, MemoryDevice, MemoryDevicesError,
};

const MEMINFO: &str = "MemTotal:       16291848 kB\nMemFree:         1234567 kB\nMemAvailable:    8000000 kB\nSwapTotal:       2097148 kB\nSwapFree:        2097100 kB\n";

const DMIDECODE: &str = "Memory Device\n\tTotal Width: 64 bits\n\tSize: 8 GB\n\tForm Factor: SODIMM\n\tType: DDR4\n\tType Detail: Synchronous Unbuffered (Unregistered)\n\tSpeed: 3200 MT/s\n\nMemory Device\n\tSize: No Module Installed\n\tForm Factor: DIMM\n\tType: Unknown\n\tType Detail: None\n\n";

#[test]
fn total_memory_is_the_mem_total_line_in_bytes() {
    assert_eq!(get_total_memory(MEMINFO), Some(16_291_848_000));
}

#[test]
fn each_getter_reads_its_own_line() {
    assert_eq!(get_available_memory(MEMINFO), Some(8_000_000_000));
    assert_eq!(get_free_memory(MEMINFO), Some(1_234_567_000));
    assert_eq!(get_total_swap(MEMINFO), Some(2_097_148_000));
    assert_eq!(get_free_swap(MEMINFO), Some(2_097_100_000));
}

#[test]
fn a_missing_line_gives_nothing() {
    assert_eq!(get_total_swap("MemTotal:       16291848 kB\n"), None);
    assert_eq!(get_total_memory(""), None);
}

#[test]
fn a_line_without_a_number_gives_nothing() {
    assert_eq!(get_total_memory("MemTotal:       lots kB\n"), None);
}

#[test]
fn memory_amount_reads_the_first_word() {
    assert_eq!(memory_amount("42 kB"), Some(42_000));
    assert_eq!(memory_amount("+7"), Some(7_000));
    assert_eq!(memory_amount("0012 kB"), Some(12_000));
    assert_eq!(memory_amount("kB"), None);
    assert_eq!(memory_amount(""), None);
    assert_eq!(memory_amount(" 42 kB"), None);
    assert_eq!(memory_amount("-1 kB"), None);
    assert_eq!(memory_amount("4x2 kB"), None);
}

#[test]
fn memory_amount_gives_nothing_where_the_bytes_do_not_fit() {
    assert_eq!(memory_amount("18446744073709551615 kB"), None);
    assert_eq!(memory_amount("18446744073709551616 kB"), None);
    assert_eq!(memory_amount("18446744073709551 kB"), Some(18_446_744_073_709_551_000));
    assert_eq!(memory_amount("18446744073709552 kB"), None);
}

#[test]
fn dmidecode_blocks_become_devices() {
    let devices = parse_dmidecode(DMIDECODE);
    assert_eq!(devices.len(), 2);
    assert_eq!(devices[0].speed, Some(3200));
    assert_eq!(devices[0].form_factor, "SODIMM");
    assert_eq!(devices[0].memory_type, "DDR4");
    assert_eq!(devices[0].type_detail, "Synchronous Unbuffered (Unregistered)");
    assert!(devices[0].installed);
    assert_eq!(devices[1].speed, None);
    assert_eq!(devices[1].form_factor, "DIMM");
    assert_eq!(devices[1].memory_type, "Unknown");
    assert_eq!(devices[1].type_detail, "None");
    assert!(!devices[1].installed);
}

#[test]
fn a_block_that_states_nothing_is_not_available() {
    let devices = parse_dmidecode("Memory Device");
    assert_eq!(devices.len(), 1);
    assert_eq!(devices[0].speed, None);
    assert_eq!(devices[0].form_factor, "N/A");
    assert_eq!(devices[0].memory_type, "N/A");
    assert_eq!(devices[0].type_detail, "N/A");
    assert!(!devices[0].installed);
}

#[test]
fn empty_blocks_are_passed_over() {
    assert_eq!(parse_dmidecode("").len(), 0);
    assert_eq!(parse_dmidecode("\n\n\n\n").len(), 0);
    assert_eq!(parse_dmidecode("\n\n\n").len(), 1);
    assert_eq!(parse_dmidecode("a\n\n\n\nb").len(), 2);
}

#[test]
fn a_speed_that_does_not_fit_is_installed_without_a_speed() {
    let device = MemoryDevice::from_captures(Some("99999999999".to_string()), None, None, None);
    assert_eq!(device.speed, None);
    assert!(device.installed);
    let devices = parse_dmidecode("\tSpeed: 99999999999 MT/s");
    assert_eq!(devices[0].speed, None);
    assert!(devices[0].installed);
}

#[test]
fn from_captures_takes_each_capture() {
    let device = MemoryDevice::from_captures(
        Some("2400".to_string()),
        Some("DIMM".to_string()),
        None,
        Some("Synchronous".to_string()),
    );
    assert_eq!(device.speed, Some(2400));
    assert_eq!(device.form_factor, "DIMM");
    assert_eq!(device.memory_type, "N/A");
    assert_eq!(device.type_detail, "Synchronous");
    assert!(device.installed);
}

#[test]
fn default_device_is_empty() {
    let device = MemoryDevice::default();
    assert_eq!(device.speed, None);
    assert_eq!(device.form_factor, "");
    assert_eq!(device.memory_type, "");
    assert_eq!(device.type_detail, "");
    assert!(!device.installed);
}

#[test]
fn exit_status_one_means_no_permission() {
    assert_eq!(
        get_memory_devices(Some(1), DMIDECODE.as_bytes().to_vec()).unwrap_err(),
        MemoryDevicesError::NoPermission
    );
    assert_eq!(
        get_memory_devices(None, DMIDECODE.as_bytes().to_vec()).unwrap_err(),
        MemoryDevicesError::NoPermission
    );
    assert_eq!(get_memory_devices(Some(0), DMIDECODE.as_bytes().to_vec()).unwrap().len(), 2);
    assert_eq!(get_memory_devices(Some(2), DMIDECODE.as_bytes().to_vec()).unwrap().len(), 2);
}

#[test]
fn output_that_is_no_utf8_is_an_error() {
    assert_eq!(
        get_memory_devices(Some(0), vec![0x53, 0xff, 0xfe]).unwrap_err(),
        MemoryDevicesError::NotUtf8
    );
    assert_eq!(
        pkexec_get_memory_devices(vec![0xc3, 0x28]).unwrap_err(),
        MemoryDevicesError::NotUtf8
    );
    assert_eq!(pkexec_get_memory_devices(DMIDECODE.as_bytes().to_vec()).unwrap().len(), 2);
}

#[test]
fn the_commands_are_spelled_out() {
    assert_eq!(get_dmidecode_command(), vec!["dmidecode", "-t", "17", "-q"]);
    assert_eq!(
        get_pkexec_dmidecode_command(false, "/usr/bin/flatpak-spawn", "/app"),
        vec!["pkexec", "--disable-internal-agent", "dmidecode", "-t", "17", "-q"]
    );
    assert_eq!(
        get_pkexec_dmidecode_command(true, "/usr/bin/flatpak-spawn", "/app"),
        vec![
            "/usr/bin/flatpak-spawn",
            "--host",
            "/usr/bin/pkexec",
            "--disable-internal-agent",
            "/app/bin/dmidecode",
            "-t",
            "17",
            "-q"
        ]
    );
}
