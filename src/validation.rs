//! Pure checks of configuration values and operator-supplied text.

use vstd::prelude::*;
use crate::config::{byte_len, Config};
use crate::error::{ConfigError, ConfigField, SecurityError, ServiceError};
use crate::text::{alphanumeric_char, is_message_char, message_char, unicode_alphanumeric};

verus! {

/// The whitelisted characters of `s`, in order.
pub open spec fn whitelisted(s: Seq<char>) -> Seq<char> {
    s.filter(|c: char| is_message_char(c))
}

/// The whitelisted characters of `s`, in order, cut to at most `max_len`.
pub open spec fn sanitized(s: Seq<char>, max_len: nat) -> Seq<char> {
    let kept = whitelisted(s);
    if kept.len() <= max_len {
        kept
    } else {
        kept.take(max_len as int)
    }
}

proof fn lemma_whitelisted_push(s: Seq<char>, c: char)
    ensures
        whitelisted(s.push(c)) == if is_message_char(c) {
            whitelisted(s).push(c)
        } else {
            whitelisted(s)
        },
{
    reveal(Seq::filter);
    assert(s.push(c).drop_last() == s);
}

/// Keeps only ASCII letters, digits, space, `.`, `-` and `_`, at most
/// `max_len` of them; fails when nothing is left.
pub fn sanitize_message(message: &str, max_len: usize) -> (r: Result<String, ServiceError>)
    ensures
        match r {
            Ok(s) => s@ == sanitized(message@, max_len as nat) && s@.len() > 0,
            Err(e) => sanitized(message@, max_len as nat).len() == 0
                && e == ServiceError::Config(ConfigError::EmptyAfterSanitization),
        },
{
    let mut out = String::new();
    let mut kept: usize = 0;
    for c in it: message.chars()
        invariant
            it.seq() == message@,
            out@ == sanitized(message@.take(it.index() as int), max_len as nat),
            kept as nat == out@.len(),
    {
        proof {
            let pre = message@.take(it.index() as int);
            assert(message@.take(it.index() + 1) == pre.push(c));
            lemma_whitelisted_push(pre, c);
        }
        if message_char(c) && kept < max_len {
            out.push(c);
            kept = kept + 1;
        }
    }
    proof {
        assert(message@.take(message@.len() as int) == message@);
    }
    if kept == 0 {
        Err(ServiceError::Config(ConfigError::EmptyAfterSanitization))
    } else {
        Ok(out)
    }
}

/// What sanitization keeps is drawn, in order, from the allowed characters of
/// the input: never a bracket, so a record cannot forge the line's framing.
pub proof fn lemma_sanitized_is_filtered(message: Seq<char>, max_len: nat)
    ensures
        sanitized(message, max_len).len() <= max_len,
        forall|i: int| 0 <= i < sanitized(message, max_len).len()
            ==> is_message_char(#[trigger] sanitized(message, max_len)[i]),
        !sanitized(message, max_len).contains('['),
        !sanitized(message, max_len).contains(']'),
        sanitized(message, max_len).len() == whitelisted(message).len() || sanitized(message, max_len).len() == max_len,
        sanitized(message, max_len) == whitelisted(message).take(sanitized(message, max_len).len() as int),
{
    let w = whitelisted(message);
    let s = sanitized(message, max_len);
    assert forall|i: int| 0 <= i < w.len() implies is_message_char(#[trigger] w[i]) by {
        message.lemma_filter_pred(|c: char| is_message_char(c), i);
    }
    assert(w.take(w.len() as int) == w);
    assert forall|i: int| 0 <= i < s.len() implies is_message_char(#[trigger] s[i]) by {
        assert(s[i] == w[i]);
    }
    if s.contains('[') {
        let i = choose|i: int| 0 <= i < s.len() && s[i] == '[';
        assert(is_message_char(s[i]));
    }
    if s.contains(']') {
        let i = choose|i: int| 0 <= i < s.len() && s[i] == ']';
        assert(is_message_char(s[i]));
    }
}

/// Fails with the field's name unless `min <= value <= max`.
pub fn validate_config_field(value: u64, min: u64, max: u64, field: ConfigField) -> (r: Result<
    (),
    ServiceError,
>)
    ensures
        r == if min <= value && value <= max {
            Ok(())
        } else {
            Err(ServiceError::Config(ConfigError::OutOfRange(field)))
        },
{
    if value < min || value > max {
        return Err(ServiceError::Config(ConfigError::OutOfRange(field)));
    }
    Ok(())
}

/// A service-name character: alphanumeric, `-` or `_`.
pub open spec fn is_name_char(c: char) -> bool {
    unicode_alphanumeric(c) || c == '-' || c == '_'
}

/// Every character of `s` is a service-name character.
pub open spec fn valid_service_name(s: Seq<char>) -> bool {
    forall|i: int| 0 <= i < s.len() ==> is_name_char(#[trigger] s[i])
}

/// Executable form of [`valid_service_name`].
pub fn service_name_ok(name: &str) -> (r: bool)
    ensures
        r == valid_service_name(name@),
{
    for c in it: name.chars()
        invariant
            it.seq() == name@,
            forall|i: int| 0 <= i < it.index() ==> is_name_char(#[trigger] name@[i]),
    {
        if !(alphanumeric_char(c) || c == '-' || c == '_') {
            assert(name@[it.index() as int] == c);
            return false;
        }
    }
    true
}

/// Checks the format of the service name only: its characters, then its
/// length in bytes. No account is looked up, since anyone able to create an
/// account of that name could satisfy such a lookup.
pub fn validate_service_user(service_name: &str, max_len: usize) -> (r: Result<(), ServiceError>)
    ensures
        r == if !valid_service_name(service_name@) {
            Err(ServiceError::Config(ConfigError::InvalidServiceName))
        } else if byte_len(service_name@) > max_len as u64 {
            Err(ServiceError::Config(ConfigError::ServiceNameTooLong))
        } else {
            Ok(())
        },
{
    if !service_name_ok(service_name) {
        return Err(ServiceError::Config(ConfigError::InvalidServiceName));
    }
    if service_name.len() as u64 > max_len as u64 {
        return Err(ServiceError::Config(ConfigError::ServiceNameTooLong));
    }
    Ok(())
}

/// The superuser's id.
pub const ROOT_UID: u32 = 0;

/// Refuses to run as the superuser, whatever else is configured.
pub fn validate_identity(uid: u32) -> (r: Result<(), SecurityError>)
    ensures
        r == if uid == ROOT_UID {
            Err(SecurityError::RunningAsRoot)
        } else {
            Ok(())
        },
{
    if uid == ROOT_UID {
        Err(SecurityError::RunningAsRoot)
    } else {
        Ok(())
    }
}

/// Refuses a soft file-descriptor limit below the configured minimum.
pub fn validate_resources(fd_limit: u64, config: &Config) -> (r: Result<(), SecurityError>)
    ensures
        r == if fd_limit < config.min_fd_limit {
            Err(SecurityError::FdLimitTooLow)
        } else {
            Ok(())
        },
{
    if fd_limit < config.min_fd_limit {
        Err(SecurityError::FdLimitTooLow)
    } else {
        Ok(())
    }
}

/// The identity check, then the resource check, for the real user id `uid`
/// and the soft file-descriptor limit `fd_limit` of the running process.
pub fn validate_runtime_security(uid: u32, fd_limit: u64, config: &Config) -> (r: Result<
    (),
    ServiceError,
>)
    ensures
        r == if uid == ROOT_UID {
            Err(ServiceError::Security(SecurityError::RunningAsRoot))
        } else if fd_limit < config.min_fd_limit {
            Err(ServiceError::Security(SecurityError::FdLimitTooLow))
        } else {
            Ok(())
        },
{
    match validate_identity(uid) {
        Err(e) => return Err(ServiceError::Security(e)),
        Ok(()) => {},
    }
    match validate_resources(fd_limit, config) {
        Err(e) => Err(ServiceError::Security(e)),
        Ok(()) => Ok(()),
    }
}

} // verus!
