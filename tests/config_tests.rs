use rust_service::config::{check_config_permissions, get_config_file_name, Config};
use rust_service::{
    validate_all_config_fields, validate_config, validate_config_field, ConfigError, ConfigField,
    ServiceError,
};

fn valid_config() -> Config {
    Config {
        log_file_path: "/var/log/rust-service".to_string(),
        install_dir: "/opt/rust-service".to_string(),
        config_dir: "/etc/rust-service".to_string(),
        service_name: "test-service".to_string(),
        time_interval: 10,
        message: "test message".to_string(),
        memory_threshold: 80,
        disk_threshold: 75,
        min_fd_limit: 1024,
        max_service_name_len: 32,
        max_message_len: 500,
        max_log_path_len: 500,
        min_log_interval_ms: 100,
        max_log_file_size: 10485760,
        max_time_interval: 86400,
        max_threshold_percent: 100,
        max_fd_limit: 65536,
        max_config_field_len: 2000,
    }
}

fn out_of_range(field: ConfigField) -> Result<Config, ServiceError> {
    Err(ServiceError::Config(ConfigError::OutOfRange(field)))
}

#[test]
fn config_file_names() {
    assert_eq!(get_config_file_name(), "service.toml");
    assert_eq!(rust_service::action::get_config_file_name(), "action.toml");
}

#[test]
fn valid_config_is_accepted() {
    let checked = validate_config(valid_config()).expect("valid config");
    assert_eq!(checked.service_name, "test-service");
    assert_eq!(checked.memory_threshold, 80);
    assert_eq!(checked.max_time_interval, 86400);
    assert_eq!(validate_all_config_fields(&valid_config()), Ok(()));
}

#[test]
fn message_is_sanitized_on_load() {
    let mut c = valid_config();
    c.message = "hello [world]; rm -rf /".to_string();
    c.max_message_len = 30;
    let checked = validate_config(c).expect("valid config");
    assert_eq!(checked.message, "hello world rm -rf ");
}

#[test]
fn empty_service_name_is_rejected() {
    let mut c = valid_config();
    c.service_name = String::new();
    assert_eq!(
        validate_config(c).map(|_| ()),
        Err(ServiceError::Config(ConfigError::EmptyAfterSanitization))
    );
}

#[test]
fn memory_threshold_above_ceiling_is_rejected() {
    let mut c = valid_config();
    c.memory_threshold = 101;
    assert_eq!(validate_config(c).map(|_| ()), out_of_range(ConfigField::MemoryThreshold).map(|_| ()));
}

#[test]
fn every_bound_is_enforced() {
    let cases: Vec<(fn(&mut Config), ConfigField)> = vec![
        (|c| c.service_name = "a".repeat(33), ConfigField::ServiceName),
        (|c| c.message = "m".repeat(501), ConfigField::Message),
        (|c| c.log_file_path = String::new(), ConfigField::LogFilePath),
        (|c| c.install_dir = "/".repeat(501), ConfigField::InstallDir),
        (|c| c.config_dir = String::new(), ConfigField::ConfigDir),
        (|c| c.time_interval = 0, ConfigField::TimeInterval),
        (|c| c.time_interval = 86401, ConfigField::TimeInterval),
        (|c| c.memory_threshold = 0, ConfigField::MemoryThreshold),
        (|c| c.disk_threshold = 101, ConfigField::DiskThreshold),
        (|c| c.min_fd_limit = 65537, ConfigField::MinFdLimit),
        (|c| c.max_service_name_len = 2001, ConfigField::MaxServiceNameLen),
        (|c| c.max_message_len = 2001, ConfigField::MaxMessageLen),
        (|c| c.max_log_path_len = 2001, ConfigField::MaxLogPathLen),
        (|c| c.max_threshold_percent = 101, ConfigField::MaxThresholdPercent),
    ];
    for (break_it, field) in cases {
        let mut c = valid_config();
        break_it(&mut c);
        assert_eq!(validate_config(c).map(|_| ()), out_of_range(field).map(|_| ()), "{field:?}");
    }
}

#[test]
fn first_broken_bound_is_reported() {
    let mut c = valid_config();
    c.disk_threshold = 0;
    c.time_interval = 0;
    assert_eq!(validate_config(c).map(|_| ()), out_of_range(ConfigField::TimeInterval).map(|_| ()));
}

#[test]
fn service_name_characters_are_checked() {
    let mut c = valid_config();
    c.service_name = "bad name".to_string();
    assert_eq!(
        validate_config(c).map(|_| ()),
        Err(ServiceError::Config(ConfigError::InvalidServiceName))
    );
}

#[test]
fn paths_must_be_absolute_and_allowed() {
    let mut c = valid_config();
    c.log_file_path = "var/log/x".to_string();
    assert_eq!(validate_config(c).map(|_| ()), Err(ServiceError::Config(ConfigError::LogPathNotAbsolute)));
    let mut c = valid_config();
    c.config_dir = "etc/x".to_string();
    assert_eq!(validate_config(c).map(|_| ()), Err(ServiceError::Config(ConfigError::PathsNotAbsolute)));
    let mut c = valid_config();
    c.log_file_path = "/tmp/test-logs".to_string();
    assert_eq!(validate_config(c).map(|_| ()), Err(ServiceError::Config(ConfigError::LogPathNotAllowed)));
    let mut c = valid_config();
    c.log_file_path = "/var/logs".to_string();
    assert_eq!(validate_config(c).map(|_| ()), Err(ServiceError::Config(ConfigError::LogPathNotAllowed)));
    let mut c = valid_config();
    c.log_file_path = "/var/log/../../etc".to_string();
    assert_eq!(validate_config(c).map(|_| ()), Err(ServiceError::Config(ConfigError::LogPathNotAllowed)));
    let mut c = valid_config();
    c.log_file_path = "/opt".to_string();
    assert!(validate_config(c).is_ok());
}

#[test]
fn field_bounds_are_inclusive() {
    assert_eq!(validate_config_field(1, 1, 3, ConfigField::TimeInterval), Ok(()));
    assert_eq!(validate_config_field(3, 1, 3, ConfigField::TimeInterval), Ok(()));
    assert_eq!(
        validate_config_field(4, 1, 3, ConfigField::TimeInterval),
        Err(ServiceError::Config(ConfigError::OutOfRange(ConfigField::TimeInterval)))
    );
    assert_eq!(ConfigField::MemoryThreshold.name(), "memory_threshold");
}

#[test]
fn group_or_other_writable_config_is_refused() {
    assert_eq!(check_config_permissions(0o100644), Ok(()));
    assert_eq!(check_config_permissions(0o100600), Ok(()));
    assert_eq!(check_config_permissions(0o100664), Err(ConfigError::InsecurePermissions));
    assert_eq!(check_config_permissions(0o100646), Err(ConfigError::InsecurePermissions));
}
