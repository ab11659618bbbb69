//! The configuration snapshot and the rules that every accepted value obeys.

use vstd::prelude::*;
use vstd::utf8::{encode_utf8, is_ascii_chars, is_ascii_chars_encode_utf8};
use crate::error::{ConfigError, ConfigField, ServiceError};
use crate::path::{absolute, allowed_log_dir, is_absolute, is_allowed_log_dir};
use crate::text::is_message_char;
use crate::validation::{
    lemma_sanitized_is_filtered, sanitize_message, sanitized, service_name_ok, valid_service_name, validate_config_field,
    whitelisted,
};

verus! {

/// Name of the service configuration file, looked up beside the executable.
pub fn get_config_file_name() -> (r: &'static str)
    ensures
        r@ == "service.toml"@,
{
    "service.toml"
}

/// Highest value any percentage ceiling may take.
pub const PERCENT_CEILING: u32 = 100;

/// Operator-supplied settings. A value returned by [`validate_config`] obeys
/// every bound of [`config_bounds`].
#[derive(Debug, Clone)]
pub struct Config {
    pub log_file_path: String,
    pub install_dir: String,
    pub config_dir: String,
    pub service_name: String,
    pub time_interval: u64,
    pub message: String,
    pub memory_threshold: u32,
    pub disk_threshold: u32,
    pub min_fd_limit: u64,
    pub max_service_name_len: usize,
    pub max_message_len: usize,
    pub max_log_path_len: usize,
    pub min_log_interval_ms: u64,
    pub max_log_file_size: u64,
    pub max_time_interval: u64,
    pub max_threshold_percent: u32,
    pub max_fd_limit: u64,
    pub max_config_field_len: usize,
}

/// Length in bytes of the UTF-8 encoding of `s`.
pub open spec fn byte_len(s: Seq<char>) -> u64 {
    (encode_utf8(s).len() as usize) as u64
}

/// Each bounded field with its value, lower and upper bound, in checking order.
pub open spec fn config_bounds(c: Config) -> Seq<(ConfigField, u64, u64, u64)> {
    seq![
        (ConfigField::ServiceName, byte_len(c.service_name@), 1, c.max_service_name_len as u64),
        (ConfigField::Message, byte_len(c.message@), 1, c.max_message_len as u64),
        (ConfigField::LogFilePath, byte_len(c.log_file_path@), 1, c.max_log_path_len as u64),
        (ConfigField::InstallDir, byte_len(c.install_dir@), 1, c.max_log_path_len as u64),
        (ConfigField::ConfigDir, byte_len(c.config_dir@), 1, c.max_log_path_len as u64),
        (ConfigField::TimeInterval, c.time_interval, 1, c.max_time_interval),
        (ConfigField::MemoryThreshold, c.memory_threshold as u64, 1, c.max_threshold_percent as u64),
        (ConfigField::DiskThreshold, c.disk_threshold as u64, 1, c.max_threshold_percent as u64),
        (ConfigField::MinFdLimit, c.min_fd_limit, 1, c.max_fd_limit),
        (ConfigField::MaxServiceNameLen, c.max_service_name_len as u64, 1, c.max_config_field_len as u64),
        (ConfigField::MaxMessageLen, c.max_message_len as u64, 1, c.max_config_field_len as u64),
        (ConfigField::MaxLogPathLen, c.max_log_path_len as u64, 1, c.max_config_field_len as u64),
        (ConfigField::MaxThresholdPercent, c.max_threshold_percent as u64, 1, PERCENT_CEILING as u64),
    ]
}

pub open spec fn in_bounds(b: (ConfigField, u64, u64, u64)) -> bool {
    b.2 <= b.1 && b.1 <= b.3
}

/// The first field of `bounds` whose value lies outside its bounds.
pub open spec fn first_violation(bounds: Seq<(ConfigField, u64, u64, u64)>) -> Option<ConfigField>
    decreases bounds.len(),
{
    if bounds.len() == 0 {
        None
    } else if !in_bounds(bounds[0]) {
        Some(bounds[0].0)
    } else {
        first_violation(bounds.drop_first())
    }
}

/// The outcome of the field checks: the service name must keep an allowed
/// character after sanitization, then every bound must hold.
pub open spec fn field_check(c: Config) -> Result<(), ConfigError> {
    if sanitized(c.service_name@, c.max_service_name_len as nat).len() == 0 {
        Err(ConfigError::EmptyAfterSanitization)
    } else {
        match first_violation(config_bounds(c)) {
            Some(f) => Err(ConfigError::OutOfRange(f)),
            None => Ok(()),
        }
    }
}

/// The outcome of the whole validation, in order: field checks, sanitization
/// of the message, the service name token, absolute paths, the log root.
pub open spec fn config_check(c: Config) -> Result<(), ConfigError> {
    if field_check(c) is Err {
        field_check(c)
    } else if sanitized(c.message@, c.max_message_len as nat).len() == 0 {
        Err(ConfigError::EmptyAfterSanitization)
    } else if !valid_service_name(c.service_name@) {
        Err(ConfigError::InvalidServiceName)
    } else if !is_absolute(c.log_file_path@) {
        Err(ConfigError::LogPathNotAbsolute)
    } else if !is_absolute(c.install_dir@) || !is_absolute(c.config_dir@) {
        Err(ConfigError::PathsNotAbsolute)
    } else if !allowed_log_dir(c.log_file_path@) {
        Err(ConfigError::LogPathNotAllowed)
    } else {
        Ok(())
    }
}

fn text_len(s: &String) -> (r: u64)
    ensures
        r == byte_len(s@),
{
    s.as_str().len() as u64
}

fn field_bounds(c: &Config) -> (r: Vec<(ConfigField, u64, u64, u64)>)
    ensures
        r@ == config_bounds(*c),
{
    let mut v: Vec<(ConfigField, u64, u64, u64)> = Vec::new();
    v.push((ConfigField::ServiceName, text_len(&c.service_name), 1, c.max_service_name_len as u64));
    v.push((ConfigField::Message, text_len(&c.message), 1, c.max_message_len as u64));
    v.push((ConfigField::LogFilePath, text_len(&c.log_file_path), 1, c.max_log_path_len as u64));
    v.push((ConfigField::InstallDir, text_len(&c.install_dir), 1, c.max_log_path_len as u64));
    v.push((ConfigField::ConfigDir, text_len(&c.config_dir), 1, c.max_log_path_len as u64));
    v.push((ConfigField::TimeInterval, c.time_interval, 1, c.max_time_interval));
    v.push((ConfigField::MemoryThreshold, c.memory_threshold as u64, 1, c.max_threshold_percent as u64));
    v.push((ConfigField::DiskThreshold, c.disk_threshold as u64, 1, c.max_threshold_percent as u64));
    v.push((ConfigField::MinFdLimit, c.min_fd_limit, 1, c.max_fd_limit));
    v.push((ConfigField::MaxServiceNameLen, c.max_service_name_len as u64, 1, c.max_config_field_len as u64));
    v.push((ConfigField::MaxMessageLen, c.max_message_len as u64, 1, c.max_config_field_len as u64));
    v.push((ConfigField::MaxLogPathLen, c.max_log_path_len as u64, 1, c.max_config_field_len as u64));
    v.push((ConfigField::MaxThresholdPercent, c.max_threshold_percent as u64, 1, PERCENT_CEILING as u64));
    assert(v@ =~= config_bounds(*c));
    v
}

/// Runs the field checks of [`field_check`], failing on the first broken rule.
pub fn validate_all_config_fields(config: &Config) -> (r: Result<(), ServiceError>)
    ensures
        match (r, field_check(*config)) {
            (Ok(()), Ok(())) => true,
            (Err(e), Err(f)) => e == ServiceError::Config(f),
            _ => false,
        },
{
    let name_check = sanitize_message(config.service_name.as_str(), config.max_service_name_len);
    if name_check.is_err() {
        return Err(ServiceError::Config(ConfigError::EmptyAfterSanitization));
    }
    let bounds = field_bounds(config);
    let mut i: usize = 0;
    assert(bounds@.skip(0) == bounds@);
    while i < bounds.len()
        invariant
            i <= bounds.len(),
            bounds@ == config_bounds(*config),
            first_violation(bounds@) == first_violation(bounds@.skip(i as int)),
            sanitized(config.service_name@, config.max_service_name_len as nat).len() > 0,
        decreases bounds.len() - i,
    {
        let (field, value, min, max) = bounds[i];
        proof {
            let rest = bounds@.skip(i as int);
            assert(rest[0] == bounds@[i as int]);
            assert(rest.drop_first() == bounds@.skip(i + 1));
        }
        let checked = validate_config_field(value, min, max, field);
        if checked.is_err() {
            return checked;
        }
        i = i + 1;
    }
    proof {
        assert(bounds@.skip(bounds.len() as int).len() == 0);
    }
    Ok(())
}

/// Validates a freshly parsed configuration and returns it with its message
/// sanitized; on any broken rule returns that rule's error and no configuration.
pub fn validate_config(config: Config) -> (r: Result<Config, ServiceError>)
    ensures
        match (r, config_check(config)) {
            (Ok(v), Ok(())) => v == (Config {
                message: v.message,
                ..config
            }) && v.message@ == sanitized(config.message@, config.max_message_len as nat),
            (Err(e), Err(f)) => e == ServiceError::Config(f),
            _ => false,
        },
{
    let fields = validate_all_config_fields(&config);
    if fields.is_err() {
        return Err(fields.unwrap_err());
    }
    let message = match sanitize_message(config.message.as_str(), config.max_message_len) {
        Ok(m) => m,
        Err(e) => return Err(e),
    };
    if !service_name_ok(config.service_name.as_str()) {
        return Err(ServiceError::Config(ConfigError::InvalidServiceName));
    }
    if !absolute(config.log_file_path.as_str()) {
        return Err(ServiceError::Config(ConfigError::LogPathNotAbsolute));
    }
    if !absolute(config.install_dir.as_str()) || !absolute(config.config_dir.as_str()) {
        return Err(ServiceError::Config(ConfigError::PathsNotAbsolute));
    }
    if !is_allowed_log_dir(config.log_file_path.as_str()) {
        return Err(ServiceError::Config(ConfigError::LogPathNotAllowed));
    }
    Ok(Config { message, ..config })
}

/// Permission bits that let the group or others write.
pub const GROUP_OTHER_WRITE: u32 = 0o022;

/// Refuses a configuration file whose mode lets the group or others write it.
pub fn check_config_permissions(mode: u32) -> (r: Result<(), ConfigError>)
    ensures
        r == if mode & GROUP_OTHER_WRITE != 0 {
            Err(ConfigError::InsecurePermissions)
        } else {
            Ok(())
        },
{
    if mode & GROUP_OTHER_WRITE != 0 {
        Err(ConfigError::InsecurePermissions)
    } else {
        Ok(())
    }
}

proof fn lemma_first_violation_found(bounds: Seq<(ConfigField, u64, u64, u64)>, i: int)
    requires
        0 <= i < bounds.len(),
        !in_bounds(bounds[i]),
    ensures
        first_violation(bounds) is Some,
    decreases i,
{
    if in_bounds(bounds[0]) {
        lemma_first_violation_found(bounds.drop_first(), i - 1);
    }
}

/// A configuration with any bounded field outside its bounds is rejected:
/// [`validate_config`] returns an error and no configuration.
pub proof fn lemma_out_of_range_rejected(c: Config, i: int)
    requires
        0 <= i < config_bounds(c).len(),
        !in_bounds(config_bounds(c)[i]),
    ensures
        config_check(c) is Err,
        field_check(c) is Err,
{
    lemma_first_violation_found(config_bounds(c), i);
}

/// A configuration that passes validation obeys every bound.
pub proof fn lemma_accepted_within_bounds(c: Config)
    requires
        config_check(c) is Ok,
    ensures
        forall|i: int| 0 <= i < config_bounds(c).len() ==> in_bounds(#[trigger] config_bounds(c)[i]),
{
    assert forall|i: int| 0 <= i < config_bounds(c).len() implies in_bounds(#[trigger] config_bounds(c)[i]) by {
        if !in_bounds(config_bounds(c)[i]) {
            lemma_out_of_range_rejected(c, i);
        }
    }
}

proof fn lemma_no_violation(bounds: Seq<(ConfigField, u64, u64, u64)>)
    requires
        forall|i: int| 0 <= i < bounds.len() ==> in_bounds(#[trigger] bounds[i]),
    ensures
        first_violation(bounds) is None,
    decreases bounds.len(),
{
    if bounds.len() > 0 {
        assert(in_bounds(bounds[0]));
        assert forall|i: int| 0 <= i < bounds.drop_first().len() implies in_bounds(
            #[trigger] bounds.drop_first()[i],
        ) by {
            assert(bounds.drop_first()[i] == bounds[i + 1]);
        }
        lemma_no_violation(bounds.drop_first());
    }
}

proof fn lemma_whitelisted_fixed(s: Seq<char>)
    requires
        forall|i: int| 0 <= i < s.len() ==> is_message_char(#[trigger] s[i]),
    ensures
        whitelisted(s) == s,
    decreases s.len(),
{
    reveal(Seq::filter);
    if s.len() > 0 {
        lemma_whitelisted_fixed(s.drop_last());
        assert(s.drop_last().push(s.last()) == s);
    }
}

/// Validation is stable: the configuration that [`validate_config`] returns
/// passes validation again, so it obeys every bound (the message included,
/// now measured after sanitization) and nothing downstream needs to recheck.
pub proof fn lemma_validated_config_is_stable(c: Config, v: Config)
    requires
        config_check(c) is Ok,
        v == (Config { message: v.message, ..c }),
        v.message@ == sanitized(c.message@, c.max_message_len as nat),
    ensures
        config_check(v) is Ok,
{
    let m = v.message@;
    let max = c.max_message_len as nat;
    lemma_accepted_within_bounds(c);
    lemma_sanitized_is_filtered(c.message@, max);
    assert(is_ascii_chars(m));
    is_ascii_chars_encode_utf8(m);
    lemma_whitelisted_fixed(m);
    assert(m.take(m.len() as int) == m);
    assert(sanitized(m, max) == m);
    let bc = config_bounds(c);
    let bv = config_bounds(v);
    assert(bc[1].1 >= 1);
    assert forall|i: int| 0 <= i < bv.len() implies in_bounds(#[trigger] bv[i]) by {
        assert(in_bounds(bc[i]));
    }
    lemma_no_violation(bv);
}

} // verus!
