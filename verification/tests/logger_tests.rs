use btop_gui::logger::{AutoSaveLogger, LogExporter, CSV_PROCESS_LIMIT, JSON_PROCESS_LIMIT};

#[test]
fn header_written_once_for_new_file() {
    let mut l = AutoSaveLogger::new(false);
    assert!(!l.header_written());
    assert_eq!(l.begin_entry(true, true), Some(true));
    assert!(l.header_written());
    assert_eq!(l.begin_entry(true, true), Some(false));
    assert_eq!(l.begin_entry(true, true), Some(false));
}

#[test]
fn disabled_autosave_writes_nothing() {
    let mut l = AutoSaveLogger::new(false);
    assert_eq!(l.begin_entry(false, true), None);
    assert!(!l.header_written());
    assert_eq!(l.begin_entry(false, true), None);
    assert_eq!(l.begin_entry(true, true), Some(true));
    assert_eq!(l.begin_entry(false, true), None);
    assert!(l.header_written());
}

#[test]
fn failed_open_keeps_header_due() {
    let mut l = AutoSaveLogger::new(false);
    assert!(AutoSaveLogger::wants_entry(true));
    assert!(!AutoSaveLogger::wants_entry(false));
    assert_eq!(l.begin_entry(true, false), None);
    assert!(!l.header_written());
    assert_eq!(l.begin_entry(true, false), None);
    assert_eq!(l.begin_entry(true, true), Some(true));
    assert_eq!(l.begin_entry(true, false), None);
    assert!(l.header_written());
    assert_eq!(l.begin_entry(true, true), Some(false));
}

#[test]
fn existing_file_gets_no_header() {
    let mut l = AutoSaveLogger::new(true);
    assert_eq!(l.begin_entry(true, true), Some(false));
    assert_eq!(l.log_dir(), "logs");
    assert_eq!(l.autosave_file(), "sysmon_autosave.csv");
}

#[test]
fn autosave_header_text() {
    assert_eq!(
        AutoSaveLogger::header(),
        "Timestamp,Overall_CPU_Pct,RAM_Used_MB,RAM_Pct,Swap_Used_MB,GPU_Pct,Net_Rx_KBps,Net_Tx_KBps,Focused_PID,Focused_Proc_Name,Focused_CPU_Pct,Focused_Mem_MB\n"
    );
}

#[test]
fn focused_columns() {
    assert_eq!(AutoSaveLogger::focused_columns(Some((1234, "firefox"))), ("1234".to_string(), "firefox".to_string()));
    assert_eq!(AutoSaveLogger::focused_columns(None), ("N/A".to_string(), "None".to_string()));
}

#[test]
fn export_names_and_headers() {
    assert_eq!(LogExporter::export_file_name("20240102_030405", "csv"), "sysmon_export_20240102_030405.csv");
    assert_eq!(LogExporter::export_file_name("x", "json"), "sysmon_export_x.json");
    assert!(LogExporter::summary_header().starts_with("Timestamp,Hostname,OS_Kernel"));
    assert!(LogExporter::summary_header().ends_with("Total_Threads\n"));
    assert_eq!(
        LogExporter::focused_header(),
        "--- FOCUSED PROCESS ---\nFocused_PID,Focused_Proc_Name,Focused_User,Focused_CPU_Pct,Focused_Mem_MB\n"
    );
    assert_eq!(LogExporter::process_header(), "--- TOP PROCESSES SNAPSHOT ---\nPID,Process_Name,CPU_Pct,Mem_MB,Mem_Pct,User\n");
}

#[test]
fn snapshot_limits() {
    assert_eq!(CSV_PROCESS_LIMIT, 50);
    assert_eq!(JSON_PROCESS_LIMIT, 30);
    assert_eq!(LogExporter::snapshot_len(10, 50), 10);
    assert_eq!(LogExporter::snapshot_len(80, 50), 50);
}

#[test]
fn join_entries() {
    let parts = vec!["a".to_string(), "b".to_string(), "c".to_string()];
    assert_eq!(LogExporter::join_entries(&parts, ",\n    "), "a,\n    b,\n    c");
    assert_eq!(LogExporter::join_entries(&vec![], ","), "");
    assert_eq!(LogExporter::join_entries(&vec!["only".to_string()], ","), "only");
}
