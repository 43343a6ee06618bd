use btop_gui::collector::{
    lowered_label_names_disk, lowered_label_names_storage,
    find_key, find_pid, is_storage_sensor, kill_outcome, match_disk_sensor, physical_core_count,
    storage_sensors, text_or, FocusedProcessTracker, IoSample, ProcIoTracker,
};

fn sample(pid: u32, total_read: u64, total_written: u64, recent_read: u64, recent_written: u64) -> IoSample {
    IoSample { pid, total_read, total_written, recent_read, recent_written }
}

#[test]
fn first_sample_uses_recent_counters() {
    let mut t = ProcIoTracker::new();
    let d = t.observe(&vec![sample(1, 1000, 500, 10, 5), sample(2, 0, 0, 0, 0)]);
    assert_eq!(d, vec![(10, 5), (0, 0)]);
    assert_eq!(t.previous(1), Some((1000, 500)));
    assert_eq!(t.previous(3), None);
}

#[test]
fn later_samples_use_counter_growth() {
    let mut t = ProcIoTracker::new();
    t.observe(&vec![sample(1, 1000, 500, 10, 5)]);
    let d = t.observe(&vec![sample(1, 1600, 500, 99, 99), sample(7, 50, 60, 3, 4)]);
    assert_eq!(d, vec![(600, 0), (3, 4)]);
}

#[test]
fn shrinking_counters_saturate_at_zero() {
    let mut t = ProcIoTracker::new();
    t.observe(&vec![sample(1, 1000, 500, 0, 0)]);
    let d = t.observe(&vec![sample(1, 10, 20, 0, 0)]);
    assert_eq!(d, vec![(0, 0)]);
}

#[test]
fn vanished_processes_are_forgotten() {
    let mut t = ProcIoTracker::new();
    t.observe(&vec![sample(1, 1000, 500, 0, 0)]);
    t.observe(&vec![sample(2, 1, 1, 0, 0)]);
    assert_eq!(t.previous(1), None);
    let d = t.observe(&vec![sample(1, 2000, 900, 8, 9)]);
    assert_eq!(d, vec![(8, 9)]);
}

#[test]
fn unchanged_counters_report_no_io() {
    let mut t = ProcIoTracker::new();
    t.observe(&vec![sample(3, 42, 43, 1, 1)]);
    assert_eq!(t.observe(&vec![sample(3, 42, 43, 5, 5)]), vec![(0, 0)]);
}

#[test]
fn find_pid_takes_last_match() {
    assert_eq!(find_pid(&vec![5, 6, 5], 5), Some(2));
    assert_eq!(find_pid(&vec![5, 6], 6), Some(1));
    assert_eq!(find_pid(&vec![5, 6], 7), None);
}

#[test]
fn find_key_takes_first_match() {
    let keys = vec!["/".to_string(), "/home".to_string(), "/".to_string()];
    assert_eq!(find_key(&keys, "/"), Some(0));
    assert_eq!(find_key(&keys, "/home"), Some(1));
    assert_eq!(find_key(&keys, "/boot"), None);
}

#[test]
fn storage_sensor_labels() {
    assert!(is_storage_sensor("NVMe Composite"));
    assert!(is_storage_sensor("Samsung SSD"));
    assert!(is_storage_sensor("drivetemp"));
    assert!(is_storage_sensor("Storage Sensor"));
    assert!(!is_storage_sensor("coretemp Package id 0"));
    assert!(!is_storage_sensor("acpitz"));
}

#[test]
fn storage_sensors_keep_last_of_same_label() {
    let labels = vec![
        "nvme Composite".to_string(),
        "coretemp".to_string(),
        "Drive 1".to_string(),
        "nvme Composite".to_string(),
    ];
    assert_eq!(storage_sensors(&labels), vec![2, 3]);
}

#[test]
fn disk_sensor_matching() {
    let labels = vec!["drive C:".to_string(), "storage x".to_string(), "nvme Composite".to_string()];
    let sensors = vec![0, 1, 2];
    // a "drive" label matches only through the mount point
    assert_eq!(match_disk_sensor(&labels, &sensors, "C:"), Some(0));
    assert_eq!(match_disk_sensor(&labels, &sensors, "/home"), Some(2));
    let only_storage = vec![1];
    assert_eq!(match_disk_sensor(&labels, &only_storage, "/home"), None);
}

#[test]
fn focused_tracker_records_samples() {
    let mut t: FocusedProcessTracker<f64> = FocusedProcessTracker::new(9, "app".to_string(), "me".to_string(), 2);
    assert_eq!(t.pid, 9);
    assert_eq!(t.name, "app");
    assert_eq!(t.user, "me");
    t.record(Some((1.0, 2.0, 3.0)), 0.0);
    t.record(None, 0.0);
    t.record(Some((4.0, 5.0, 6.0)), 0.0);
    assert_eq!(t.cpu_history.as_slice(), vec![0.0, 4.0]);
    assert_eq!(t.mem_history.as_slice(), vec![0.0, 5.0]);
    assert_eq!(t.disk_history.as_slice(), vec![0.0, 6.0]);
    let c = t.clone();
    assert_eq!(c.cpu_history.as_slice(), vec![0.0, 4.0]);
}

#[test]
fn kill_outcomes() {
    assert_eq!(kill_outcome(42, true, true), Ok(()));
    assert_eq!(kill_outcome(42, true, false), Err("Failed to kill process PID 42".to_string()));
    assert_eq!(kill_outcome(4321, false, false), Err("Process PID 4321 not found".to_string()));
    assert_eq!(kill_outcome(0, false, true), Err("Process PID 0 not found".to_string()));
}

#[test]
fn reported_values_or_fallbacks() {
    assert_eq!(physical_core_count(Some(4), 8), 4);
    assert_eq!(physical_core_count(None, 8), 8);
    assert_eq!(text_or(Some("box".to_string()), "localhost"), "box");
    assert_eq!(text_or(None, "localhost"), "localhost");
}

#[test]
fn lowered_sensor_label_checks() {
    assert!(lowered_label_names_storage("nvme composite"));
    assert!(lowered_label_names_storage("samsung ssd 980"));
    assert!(!lowered_label_names_storage("cpu package"));
    assert!(!lowered_label_names_storage("NVME"));
    assert!(lowered_label_names_disk("drive c:", "c:"));
    assert!(lowered_label_names_disk("nvme0", "/home"));
    assert!(!lowered_label_names_disk("gpu hotspot", "/home"));
}
