//! Error taxonomy of the service.

use vstd::prelude::*;

verus! {

/// The bounded fields of the configuration.
#[derive(Debug, Clone, Copy, PartialEq, Eq)]
pub enum ConfigField {
    ServiceName,
    Message,
    LogFilePath,
    InstallDir,
    ConfigDir,
    TimeInterval,
    MemoryThreshold,
    DiskThreshold,
    MinFdLimit,
    MaxServiceNameLen,
    MaxMessageLen,
    MaxLogPathLen,
    MaxThresholdPercent,
}

/// A malformed, out-of-range or insecure configuration.
#[derive(Debug, Clone, PartialEq, Eq)]
pub enum ConfigError {
    ExecutablePath(String),
    ExecutableDirectory,
    CanonicalizePath(String),
    InvalidPath,
    InvalidFormat(String),
    InvalidServiceName,
    LogPathNotAbsolute,
    LogPathNotAllowed,
    PathsNotAbsolute,
    /// The named field lies outside its bounds.
    OutOfRange(ConfigField),
    /// A free-text field holds no allowed character.
    EmptyAfterSanitization,
    /// The service name is longer than its configured maximum.
    ServiceNameTooLong,
    /// The configuration file is writable by group or others.
    InsecurePermissions,
    NotFound,
    Generic(String),
}

/// An identity, limit or path violation.
#[derive(Debug, Clone, Copy, PartialEq, Eq)]
pub enum SecurityError {
    RunningAsRoot,
    FdLimitTooLow,
    RelativePath,
    PathTraversal,
    SymlinkInPath,
    LogDirNotAllowed,
    LogFileCheckFailed,
}

/// A host resource report that cannot be read, or a ceiling reached.
#[derive(Debug, Clone, Copy, PartialEq, Eq)]
pub enum MonitorError {
    /// A line lacks its prefix or its value.
    InvalidLine,
    /// A value is not an unsigned decimal number.
    InvalidNumber,
    /// The memory report lacks a required line.
    MissingField,
    /// The memory report gives a total of zero.
    ZeroMemoryTotal,
    /// The disk report does not have the expected shape.
    InvalidDiskReport,
    MemoryThresholdExceeded,
    DiskThresholdExceeded,
}

/// Any failure the service reports.
#[derive(Debug, Clone, PartialEq, Eq)]
pub enum ServiceError {
    Config(ConfigError),
    Security(SecurityError),
    Monitor(MonitorError),
    Io(String),
    /// The log file has reached its size cap.
    LogFileTooLarge,
}

pub open spec fn field_name(f: ConfigField) -> Seq<char> {
    match f {
        ConfigField::ServiceName => "service_name"@,
        ConfigField::Message => "message"@,
        ConfigField::LogFilePath => "log_file_path"@,
        ConfigField::InstallDir => "install_dir"@,
        ConfigField::ConfigDir => "config_dir"@,
        ConfigField::TimeInterval => "time_interval"@,
        ConfigField::MemoryThreshold => "memory_threshold"@,
        ConfigField::DiskThreshold => "disk_threshold"@,
        ConfigField::MinFdLimit => "min_fd_limit"@,
        ConfigField::MaxServiceNameLen => "max_service_name_len"@,
        ConfigField::MaxMessageLen => "max_message_len"@,
        ConfigField::MaxLogPathLen => "max_log_path_len"@,
        ConfigField::MaxThresholdPercent => "max_threshold_percent"@,
    }
}

impl ConfigField {
    /// The field's name as written in reports.
    pub fn name(&self) -> (r: &'static str)
        ensures
            r@ == field_name(*self),
    {
        match self {
            ConfigField::ServiceName => "service_name",
            ConfigField::Message => "message",
            ConfigField::LogFilePath => "log_file_path",
            ConfigField::InstallDir => "install_dir",
            ConfigField::ConfigDir => "config_dir",
            ConfigField::TimeInterval => "time_interval",
            ConfigField::MemoryThreshold => "memory_threshold",
            ConfigField::DiskThreshold => "disk_threshold",
            ConfigField::MinFdLimit => "min_fd_limit",
            ConfigField::MaxServiceNameLen => "max_service_name_len",
            ConfigField::MaxMessageLen => "max_message_len",
            ConfigField::MaxLogPathLen => "max_log_path_len",
            ConfigField::MaxThresholdPercent => "max_threshold_percent",
        }
    }
}

pub open spec fn security_message(e: SecurityError) -> Seq<char> {
    match e {
        SecurityError::RunningAsRoot => "Service must not run as root"@,
        SecurityError::FdLimitTooLow => "Insufficient file descriptor limit"@,
        SecurityError::RelativePath => "Path must be absolute"@,
        SecurityError::PathTraversal => "Path traversal attempt detected"@,
        SecurityError::SymlinkInPath => "Path contains symlinks - potential security risk"@,
        SecurityError::LogDirNotAllowed => "Log directory not in allowed location"@,
        SecurityError::LogFileCheckFailed => "Log file security check failed"@,
    }
}

impl SecurityError {
    /// A human-readable reason.
    pub fn message(&self) -> (r: &'static str)
        ensures
            r@ == security_message(*self),
    {
        match self {
            SecurityError::RunningAsRoot => "Service must not run as root",
            SecurityError::FdLimitTooLow => "Insufficient file descriptor limit",
            SecurityError::RelativePath => "Path must be absolute",
            SecurityError::PathTraversal => "Path traversal attempt detected",
            SecurityError::SymlinkInPath => "Path contains symlinks - potential security risk",
            SecurityError::LogDirNotAllowed => "Log directory not in allowed location",
            SecurityError::LogFileCheckFailed => "Log file security check failed",
        }
    }
}

pub open spec fn monitor_message(e: MonitorError) -> Seq<char> {
    match e {
        MonitorError::InvalidLine => "Invalid memory line format"@,
        MonitorError::InvalidNumber => "Failed to parse numeric value"@,
        MonitorError::MissingField => "Memory report lacks a required line"@,
        MonitorError::ZeroMemoryTotal => "Memory total is zero"@,
        MonitorError::InvalidDiskReport => "Invalid disk usage report"@,
        MonitorError::MemoryThresholdExceeded => "Memory usage exceeds threshold"@,
        MonitorError::DiskThresholdExceeded => "Disk usage exceeds threshold"@,
    }
}

impl MonitorError {
    /// A human-readable reason.
    pub fn message(&self) -> (r: &'static str)
        ensures
            r@ == monitor_message(*self),
    {
        match self {
            MonitorError::InvalidLine => "Invalid memory line format",
            MonitorError::InvalidNumber => "Failed to parse numeric value",
            MonitorError::MissingField => "Memory report lacks a required line",
            MonitorError::ZeroMemoryTotal => "Memory total is zero",
            MonitorError::InvalidDiskReport => "Invalid disk usage report",
            MonitorError::MemoryThresholdExceeded => "Memory usage exceeds threshold",
            MonitorError::DiskThresholdExceeded => "Disk usage exceeds threshold",
        }
    }
}

} // verus!
