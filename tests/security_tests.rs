use rust_service::config::Config;
use rust_service::{
    validate_identity, validate_resources, validate_runtime_security, validate_service_user,
    ConfigError, SecurityError, ServiceError,
};

fn config_with_fd_minimum(min_fd_limit: u64) -> Config {
    Config {
        log_file_path: "/var/log/rust-service".to_string(),
        install_dir: "/opt/rust-service".to_string(),
        config_dir: "/etc/rust-service".to_string(),
        service_name: "test-service".to_string(),
        time_interval: 10,
        message: "test message".to_string(),
        memory_threshold: 80,
        disk_threshold: 75,
        min_fd_limit,
        max_service_name_len: 32,
        max_message_len: 500,
        max_log_path_len: 500,
        min_log_interval_ms: 100,
        max_log_file_size: 10485760,
        max_time_interval: 86400,
        max_threshold_percent: 100,
        max_fd_limit: 65536,
        max_config_field_len: 2000,
    }
}

#[test]
fn root_is_refused() {
    assert_eq!(validate_identity(0), Err(SecurityError::RunningAsRoot));
    assert_eq!(SecurityError::RunningAsRoot.message(), "Service must not run as root");
    assert_eq!(validate_identity(1000), Ok(()));
    assert_eq!(
        validate_runtime_security(0, u64::MAX, &config_with_fd_minimum(1)),
        Err(ServiceError::Security(SecurityError::RunningAsRoot))
    );
}

#[test]
fn low_descriptor_limit_is_refused() {
    let c = config_with_fd_minimum(1024);
    assert_eq!(validate_resources(1023, &c), Err(SecurityError::FdLimitTooLow));
    assert_eq!(validate_resources(1024, &c), Ok(()));
    assert_eq!(
        validate_runtime_security(1000, 256, &c),
        Err(ServiceError::Security(SecurityError::FdLimitTooLow))
    );
    assert_eq!(validate_runtime_security(1000, 4096, &c), Ok(()));
}

#[test]
fn service_name_format_only() {
    assert_eq!(validate_service_user("my-service_1", 32), Ok(()));
    assert_eq!(validate_service_user("dienst-\u{e9}", 32), Ok(()));
    assert_eq!(
        validate_service_user("bad;name", 32),
        Err(ServiceError::Config(ConfigError::InvalidServiceName))
    );
    assert_eq!(
        validate_service_user("abcd", 3),
        Err(ServiceError::Config(ConfigError::ServiceNameTooLong))
    );
    assert_eq!(
        validate_service_user("\u{e9}\u{e9}", 3),
        Err(ServiceError::Config(ConfigError::ServiceNameTooLong))
    );
}
