use rust_service::config::Config;
use rust_service::monitor::{
    check_resources, find_report_value, memory_usage_percent, parse_disk_usage,
    parse_memory_value, parse_u64,
};
use rust_service::MonitorError;

fn sample_config(memory_threshold: u32, disk_threshold: u32) -> Config {
    Config {
        log_file_path: "/var/log/rust-service".to_string(),
        install_dir: "/opt/rust-service".to_string(),
        config_dir: "/etc/rust-service".to_string(),
        service_name: "test-service".to_string(),
        time_interval: 10,
        message: "test message".to_string(),
        memory_threshold,
        disk_threshold,
        min_fd_limit: 1024,
        max_service_name_len: 32,
        max_message_len: 500,
        max_log_path_len: 500,
        min_log_interval_ms: 100,
        max_log_file_size: 10485760,
        max_time_interval: 86400,
        max_threshold_percent: 100,
        max_fd_limit: 65536,
        max_config_field_len: 2000,
    }
}

const DF_OK: &str = "Filesystem     1K-blocks    Used Available Use% Mounted on\n/dev/sda1       1000000  420000    580000  42% /\n";

#[test]
fn test_parse_memory_value_valid() {
    let line = "MemTotal:        8000000 kB";
    let result = parse_memory_value(line, "MemTotal:");
    assert!(result.is_ok());
    assert_eq!(result.unwrap(), 8000000);
}

#[test]
fn test_parse_memory_value_invalid() {
    let line = "MemTotal:        invalid kB";
    let result = parse_memory_value(line, "MemTotal:");
    assert!(result.is_err());
}

#[test]
fn test_parse_memory_value_missing_prefix() {
    let line = "SomeOther:       8000000 kB";
    let result = parse_memory_value(line, "MemTotal:");
    assert!(result.is_err());
}

#[test]
fn memory_value_errors_are_distinguished() {
    assert_eq!(parse_memory_value("SomeOther: 1 kB", "MemTotal:"), Err(MonitorError::InvalidLine));
    assert_eq!(parse_memory_value("MemTotal:   ", "MemTotal:"), Err(MonitorError::InvalidLine));
    assert_eq!(parse_memory_value("MemTotal: x1 kB", "MemTotal:"), Err(MonitorError::InvalidNumber));
    assert_eq!(parse_memory_value("MemTotal:\t\t77\tkB", "MemTotal:"), Ok(77));
}

#[test]
fn decimal_numbers_parse_like_std() {
    assert_eq!(parse_u64("0"), Some(0));
    assert_eq!(parse_u64("+12"), Some(12));
    assert_eq!(parse_u64("18446744073709551615"), Some(u64::MAX));
    assert_eq!(parse_u64("18446744073709551616"), None);
    assert_eq!(parse_u64(""), None);
    assert_eq!(parse_u64("+"), None);
    assert_eq!(parse_u64("-1"), None);
    assert_eq!(parse_u64("12a"), None);
}

#[test]
fn memory_usage_is_rounded_down() {
    assert_eq!(memory_usage_percent(8_000_000, 1_000_000), Ok(87));
    assert_eq!(memory_usage_percent(100, 100), Ok(0));
    assert_eq!(memory_usage_percent(100, 200), Ok(0));
    assert_eq!(memory_usage_percent(u64::MAX, 0), Ok(100));
    assert_eq!(memory_usage_percent(0, 0), Err(MonitorError::ZeroMemoryTotal));
}

#[test]
fn memory_over_threshold_is_reported() {
    let meminfo = "MemTotal:        8000000 kB\nMemFree:          500000 kB\nMemAvailable:    1000000 kB\n";
    let result = check_resources(meminfo, DF_OK, &sample_config(80, 90));
    assert_eq!(result, Err(MonitorError::MemoryThresholdExceeded));
}

#[test]
fn resources_within_limits_pass() {
    let meminfo = "MemTotal:        8000000 kB\nMemAvailable:    6000000 kB\n";
    assert_eq!(check_resources(meminfo, DF_OK, &sample_config(80, 90)), Ok(()));
    assert_eq!(check_resources(meminfo, DF_OK, &sample_config(80, 42)), Err(MonitorError::DiskThresholdExceeded));
}

#[test]
fn unreadable_reports_are_errors() {
    assert_eq!(check_resources("MemAvailable: 1 kB\n", DF_OK, &sample_config(80, 90)), Err(MonitorError::MissingField));
    assert_eq!(check_resources("MemTotal: 0 kB\nMemAvailable: 0 kB\n", DF_OK, &sample_config(80, 90)), Err(MonitorError::ZeroMemoryTotal));
    let meminfo = "MemTotal: 100 kB\nMemAvailable: 90 kB\n";
    assert_eq!(check_resources(meminfo, "Filesystem\n", &sample_config(80, 90)), Err(MonitorError::InvalidDiskReport));
}

#[test]
fn report_values_come_from_the_first_matching_line() {
    let meminfo = "MemTotal: 5 kB\nMemTotal: 6 kB\n";
    assert_eq!(find_report_value(meminfo, "MemTotal:"), Ok(5));
    assert_eq!(find_report_value(meminfo, "MemAvailable:"), Err(MonitorError::MissingField));
}

#[test]
fn disk_report_is_read_from_the_use_column() {
    assert_eq!(parse_disk_usage(DF_OK), Ok(42));
    assert_eq!(parse_disk_usage("h\n/dev/sda1 1 2 3 42 /\n"), Err(MonitorError::InvalidDiskReport));
    assert_eq!(parse_disk_usage("h\n/dev/sda1 1 2 3 x% /\n"), Err(MonitorError::InvalidNumber));
}
