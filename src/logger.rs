//! Decisions of the secure log sink: timestamps, rate limiting, sanitization,
//! line format, and the checks on the log directory and the open log file.

use vstd::prelude::*;
use crate::config::Config;
use crate::error::{SecurityError, ServiceError};
use crate::path::{allowed_log_dir, is_allowed_log_dir};
use crate::validation::{lemma_sanitized_is_filtered, sanitize_message, sanitized};

verus! {

/// Minimum interval between accepted records before a configuration is set.
pub const DEFAULT_MIN_LOG_INTERVAL_MS: u64 = 100;

/// Longest sanitized message before a configuration is set.
pub const DEFAULT_MAX_MESSAGE_LEN: usize = 500;

/// Largest log file before a configuration is set.
pub const DEFAULT_MAX_LOG_FILE_SIZE: u64 = 10_485_760;

/// Severity of a record.
#[derive(Debug, Clone, Copy, PartialEq, Eq)]
pub enum Severity {
    Error,
    Warn,
    Info,
    Debug,
    Trace,
}

pub open spec fn severity_label(s: Severity) -> Seq<char> {
    match s {
        Severity::Error => "ERROR"@,
        Severity::Warn => "WARN"@,
        Severity::Info => "INFO"@,
        Severity::Debug => "DEBUG"@,
        Severity::Trace => "TRACE"@,
    }
}

impl Severity {
    /// The upper-case label written in the log line.
    pub fn as_str(&self) -> (r: &'static str)
        ensures
            r@ == severity_label(*self),
    {
        match self {
            Severity::Error => "ERROR",
            Severity::Warn => "WARN",
            Severity::Info => "INFO",
            Severity::Debug => "DEBUG",
            Severity::Trace => "TRACE",
        }
    }
}

/// Milliseconds since the epoch as a `u64`, saturating instead of wrapping.
pub fn saturating_millis(millis: u128) -> (r: u64)
    ensures
        r == if millis > u64::MAX as u128 {
            u64::MAX
        } else {
            millis as u64
        },
{
    if millis > u64::MAX as u128 {
        u64::MAX
    } else {
        millis as u64
    }
}

/// `a - b`, or 0 when `b` is larger.
pub open spec fn sat_sub(a: u64, b: u64) -> u64 {
    if a >= b {
        (a - b) as u64
    } else {
        0
    }
}

/// Milliseconds from `last` to `now`, or 0 when `now` is earlier.
pub fn elapsed_ms(now: u64, last: u64) -> (r: u64)
    ensures
        r == sat_sub(now, last),
{
    now.saturating_sub(last)
}

/// A record at `now` passes a limiter that last accepted at `last`.
pub open spec fn accepts(last: u64, now: u64, min_interval: u64) -> bool {
    sat_sub(now, last) >= min_interval
}

/// The time of the last accepted record, shared by every writer.
#[derive(Debug, Clone, Copy, PartialEq, Eq)]
pub struct RateLimiter {
    pub last_accepted: u64,
}

impl RateLimiter {
    pub fn new() -> (r: RateLimiter)
        ensures
            r.last_accepted == 0,
    {
        RateLimiter { last_accepted: 0 }
    }

    /// Accepts a record at `now` when at least `min_interval` milliseconds have
    /// passed since the last accepted one, and then remembers `now`.
    pub fn try_accept(&mut self, now: u64, min_interval: u64) -> (r: bool)
        ensures
            r == accepts(old(self).last_accepted, now, min_interval),
            final(self).last_accepted == if r {
                now
            } else {
                old(self).last_accepted
            },
    {
        if elapsed_ms(now, self.last_accepted) < min_interval {
            return false;
        }
        self.last_accepted = now;
        true
    }
}

pub open spec fn digit(d: nat) -> char {
    seq!['0', '1', '2', '3', '4', '5', '6', '7', '8', '9'][d as int]
}

/// The decimal digits of `n`, most significant first.
pub open spec fn decimal(n: nat) -> Seq<char>
    decreases n,
{
    if n < 10 {
        seq![digit(n)]
    } else {
        decimal(n / 10).push(digit(n % 10))
    }
}

fn digit_char(d: u64) -> (c: char)
    requires
        d < 10,
    ensures
        c == digit(d as nat),
{
    let digits = ['0', '1', '2', '3', '4', '5', '6', '7', '8', '9'];
    let c = digits[d as usize];
    assert(digits@ == seq!['0', '1', '2', '3', '4', '5', '6', '7', '8', '9']);
    c
}

/// Appends the decimal digits of `n` to `out`.
pub fn push_decimal(out: &mut String, n: u64)
    ensures
        final(out)@ == old(out)@ + decimal(n as nat),
    decreases n,
{
    if n >= 10 {
        push_decimal(out, n / 10);
    }
    out.push(digit_char(n % 10));
}

/// `[<seconds>] [<LEVEL>] <message>`.
pub open spec fn log_line(seconds: u64, level: Severity, message: Seq<char>) -> Seq<char> {
    seq!['['] + decimal(seconds as nat) + seq![']', ' ', '['] + severity_label(level) + seq![
        ']',
        ' ',
    ] + message
}

/// Written in place of a message that holds no allowed character.
pub open spec fn placeholder() -> Seq<char> {
    "Invalid message"@
}

/// Formats one record; the timestamp is written in whole seconds.
pub fn format_line(now_ms: u64, level: Severity, message: &str) -> (r: String)
    ensures
        r@ == log_line(now_ms / 1000, level, message@),
{
    let mut line = String::new();
    line.push('[');
    push_decimal(&mut line, now_ms / 1000);
    line.append("] [");
    line.append(level.as_str());
    line.append("] ");
    line.append(message);
    proof {
        reveal_strlit("] [");
        reveal_strlit("] ");
    }
    assert(line@ =~= log_line(now_ms / 1000, level, message@));
    line
}

/// The log sink's settings and rate-limiter state: where logs go, the
/// validated configuration once it is known, and the last accepted time.
pub struct FileLogger {
    pub log_file_path: String,
    pub config: Option<Config>,
    pub limiter: RateLimiter,
}

/// The message part of a record written for `message`.
pub open spec fn persisted_message(message: Seq<char>, max_len: nat) -> Seq<char> {
    if sanitized(message, max_len).len() == 0 {
        placeholder()
    } else {
        sanitized(message, max_len)
    }
}

impl FileLogger {
    /// A logger writing under `log_file_path`, with no configuration yet.
    pub fn new(log_file_path: String) -> (r: FileLogger)
        ensures
            r.log_file_path == log_file_path,
            r.config is None,
            r.limiter.last_accepted == 0,
    {
        FileLogger { log_file_path, config: None, limiter: RateLimiter::new() }
    }

    /// Installs the configuration; one already installed is kept.
    pub fn set_config(&mut self, config: Config)
        ensures
            final(self).config == if old(self).config is None {
                Some(config)
            } else {
                old(self).config
            },
            final(self).log_file_path == old(self).log_file_path,
            final(self).limiter == old(self).limiter,
    {
        if self.config.is_none() {
            self.config = Some(config);
        }
    }

    pub open spec fn spec_min_interval(&self) -> u64 {
        match self.config {
            Some(c) => c.min_log_interval_ms,
            None => DEFAULT_MIN_LOG_INTERVAL_MS,
        }
    }

    pub open spec fn spec_max_message_len(&self) -> usize {
        match self.config {
            Some(c) => c.max_message_len,
            None => DEFAULT_MAX_MESSAGE_LEN,
        }
    }

    pub open spec fn spec_max_log_file_size(&self) -> u64 {
        match self.config {
            Some(c) => c.max_log_file_size,
            None => DEFAULT_MAX_LOG_FILE_SIZE,
        }
    }

    /// Minimum interval between accepted records, in milliseconds.
    pub fn min_interval(&self) -> (r: u64)
        ensures
            r == self.spec_min_interval(),
    {
        match &self.config {
            Some(c) => c.min_log_interval_ms,
            None => DEFAULT_MIN_LOG_INTERVAL_MS,
        }
    }

    /// Longest message written, in characters.
    pub fn max_message_len(&self) -> (r: usize)
        ensures
            r == self.spec_max_message_len(),
    {
        match &self.config {
            Some(c) => c.max_message_len,
            None => DEFAULT_MAX_MESSAGE_LEN,
        }
    }

    /// Size in bytes beyond which the log file takes no more lines.
    pub fn max_log_file_size(&self) -> (r: u64)
        ensures
            r == self.spec_max_log_file_size(),
    {
        match &self.config {
            Some(c) => c.max_log_file_size,
            None => DEFAULT_MAX_LOG_FILE_SIZE,
        }
    }

    pub open spec fn spec_log_dir(&self) -> Seq<char> {
        self.log_file_path@ + seq!['/'] + match self.config {
            Some(c) => c.service_name@,
            None => "service"@,
        }
    }

    /// The service's own log directory: `<log root>/<service name>`.
    pub fn log_dir(&self) -> (r: String)
        ensures
            r@ == self.spec_log_dir(),
    {
        let mut dir = self.log_file_path.clone();
        dir.push('/');
        match &self.config {
            Some(c) => dir.append(c.service_name.as_str()),
            None => dir.append("service"),
        }
        dir
    }

    /// Rate-limits, sanitizes and formats one record at `now_ms`. Returns the
    /// line to write, or `None` when the record is dropped by the rate limit.
    pub fn prepare(&mut self, now_ms: u64, level: Severity, message: &str) -> (r: Option<String>)
        ensures
            final(self).log_file_path == old(self).log_file_path,
            final(self).config == old(self).config,
            accepts(old(self).limiter.last_accepted, now_ms, old(self).spec_min_interval()) ==> {
                &&& r is Some
                &&& r->Some_0@ == log_line(
                    now_ms / 1000,
                    level,
                    persisted_message(message@, old(self).spec_max_message_len() as nat),
                )
                &&& final(self).limiter.last_accepted == now_ms
            },
            !accepts(old(self).limiter.last_accepted, now_ms, old(self).spec_min_interval()) ==> {
                &&& r is None
                &&& final(self).limiter == old(self).limiter
            },
    {
        let min_interval = self.min_interval();
        if !self.limiter.try_accept(now_ms, min_interval) {
            return None;
        }
        let text = match sanitize_message(message, self.max_message_len()) {
            Ok(m) => m,
            Err(_) => String::from_str("Invalid message"),
        };
        Some(format_line(now_ms, level, text.as_str()))
    }
}

/// Name of the log file inside the log directory.
pub fn log_file_name() -> (r: &'static str)
    ensures
        r@ == "service.log"@,
{
    "service.log"
}

/// The log directory's path, resolved without symlinks, must lie under an
/// allowed root; the log file is then `<dir>/service.log`.
pub fn log_file_target(resolved_dir: &str) -> (r: Result<String, SecurityError>)
    ensures
        match r {
            Ok(p) => allowed_log_dir(resolved_dir@) && p@ == resolved_dir@ + seq!['/'] + "service.log"@,
            Err(e) => !allowed_log_dir(resolved_dir@) && e == SecurityError::LogDirNotAllowed,
        },
{
    if !is_allowed_log_dir(resolved_dir) {
        return Err(SecurityError::LogDirNotAllowed);
    }
    let mut target = String::from_str(resolved_dir);
    target.push('/');
    target.append(log_file_name());
    Ok(target)
}

/// The open log file must be a regular file owned by the current user.
pub fn check_log_file(is_regular_file: bool, owner_uid: u32, current_uid: u32) -> (r: Result<
    (),
    SecurityError,
>)
    ensures
        r == if is_regular_file && owner_uid == current_uid {
            Ok(())
        } else {
            Err(SecurityError::LogFileCheckFailed)
        },
{
    if !is_regular_file || owner_uid != current_uid {
        return Err(SecurityError::LogFileCheckFailed);
    }
    Ok(())
}

/// A log file of `size` bytes may take another line.
pub open spec fn size_allows_write(size: u64, max_size: u64) -> bool {
    size <= max_size
}

/// A log file whose size exceeds `max_size` takes no more lines; it is neither
/// truncated nor rotated.
pub fn check_log_size(size: u64, max_size: u64) -> (r: Result<(), ServiceError>)
    ensures
        r == if size_allows_write(size, max_size) {
            Ok(())
        } else {
            Err(ServiceError::LogFileTooLarge)
        },
{
    if size > max_size {
        return Err(ServiceError::LogFileTooLarge);
    }
    Ok(())
}

/// The message part of every written record is free of brackets, whatever
/// the caller passed: the sanitized text, or the placeholder when nothing of
/// it survives.
pub proof fn lemma_persisted_message_has_no_brackets(message: Seq<char>, max_len: nat)
    ensures
        !persisted_message(message, max_len).contains('['),
        !persisted_message(message, max_len).contains(']'),
{
    lemma_sanitized_is_filtered(message, max_len);
    reveal_strlit("Invalid message");
    let p = placeholder();
    if p.contains('[') || p.contains(']') {
        let i = choose|i: int| 0 <= i < p.len() && (p[i] == '[' || p[i] == ']');
        assert(false);
    }
}

/// Two records less than the minimum interval apart: when [`FileLogger::prepare`]
/// accepts the first, it drops the second, so a burst reaches the file once.
pub proof fn lemma_burst_writes_once(before: FileLogger, after: FileLogger, t1: u64, t2: u64)
    requires
        accepts(before.limiter.last_accepted, t1, before.spec_min_interval()),
        after.limiter.last_accepted == t1,
        after.config == before.config,
        sat_sub(t2, t1) < before.spec_min_interval(),
    ensures
        !accepts(after.limiter.last_accepted, t2, after.spec_min_interval()),
{
}

/// Once the log file is past its cap it stays refused: nothing shrinks it,
/// and [`check_log_size`] refuses every size from there on.
pub proof fn lemma_size_cap_is_final(size: u64, later_size: u64, max_size: u64)
    requires
        !size_allows_write(size, max_size),
        later_size >= size,
    ensures
        !size_allows_write(later_size, max_size),
{
}

} // verus!
