use laps::logs::{format_stored_line, log_level, report_line, stored_log_line, LogLevel, ModuleLog};
use laps::maps::next_map_id;
use laps::types::ModuleInfo;

fn entry(instant: i64) -> ModuleLog {
    ModuleLog {
        module: ModuleInfo::new("laps-test", "0.1.0"),
        message: "Registered as worker".to_string(),
        level: "info".to_string(),
        instant,
        worker: 3,
    }
}

#[test]
fn stored_log_lines() {
    assert_eq!(
        stored_log_line(&entry(1516991409)).unwrap(),
        "[2018-01-26T18:30:09Z info worker:3] Registered as worker"
    );
    assert_eq!(stored_log_line(&entry(0)).unwrap(), "[1970-01-01T00:00:00Z info worker:3] Registered as worker");
    assert!(stored_log_line(&entry(i64::MAX)).is_none());
    assert_eq!(
        format_stored_line(&"T".to_string(), &entry(0)),
        "[T info worker:3] Registered as worker"
    );
}

#[test]
fn report_lines() {
    assert_eq!(report_line(&entry(0)), "Module laps-test:0.1.0[3]: Registered as worker");
}

#[test]
fn log_levels() {
    assert_eq!(log_level(&"info".to_string()), LogLevel::Info);
    assert_eq!(log_level(&"error".to_string()), LogLevel::Error);
    assert_eq!(log_level(&"warn".to_string()), LogLevel::Warn);
    assert_eq!(log_level(&"debug".to_string()), LogLevel::Debug);
    assert_eq!(log_level(&"trace".to_string()), LogLevel::Unknown);
    assert_eq!(log_level(&"INFO".to_string()), LogLevel::Unknown);
}

#[test]
fn module_display() {
    assert_eq!(ModuleInfo::new("dummy", "0.0.0").to_string(), "dummy:0.0.0");
}

#[test]
fn map_ids() {
    assert_eq!(next_map_id(&vec![]), Some(1));
    assert_eq!(next_map_id(&vec![3, 1, 2]), Some(4));
    assert_eq!(next_map_id(&vec![0]), Some(1));
    assert_eq!(next_map_id(&vec![7, u32::MAX]), None);
}
