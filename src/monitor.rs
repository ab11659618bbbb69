//! Host resource checks: memory use from the kernel's memory report, disk
//! use from a disk-usage report, each against its configured ceiling.

use vstd::prelude::*;
use crate::config::Config;
use crate::error::MonitorError;
use crate::text::{has_prefix, lines, split_pieces, starts_with_text, views, words};

verus! {

pub open spec fn is_digit(c: char) -> bool {
    '0' <= c && c <= '9'
}

pub open spec fn digit_value(c: char) -> nat {
    (c as u32 - '0' as u32) as nat
}

/// The number written by the decimal digits `s`.
pub open spec fn digits_value(s: Seq<char>) -> nat
    decreases s.len(),
{
    if s.len() == 0 {
        0
    } else {
        digits_value(s.drop_last()) * 10 + digit_value(s.last())
    }
}

pub open spec fn all_digits(s: Seq<char>) -> bool {
    forall|i: int| 0 <= i < s.len() ==> is_digit(#[trigger] s[i])
}

/// The unsigned 64-bit number written by `s`: an optional `+`, then one or
/// more decimal digits, with a value that fits.
pub open spec fn parsed_u64(s: Seq<char>) -> Option<u64> {
    let d = if s.len() > 0 && s[0] == '+' {
        s.drop_first()
    } else {
        s
    };
    if d.len() > 0 && all_digits(d) && digits_value(d) <= u64::MAX {
        Some(digits_value(d) as u64)
    } else {
        None
    }
}

/// Reads an unsigned decimal number.
pub fn parse_u64(text: &str) -> (r: Option<u64>)
    ensures
        r == parsed_u64(text@),
{
    let n = text.unicode_len();
    let signed = n > 0 && text.get_char(0) == '+';
    let digits = if signed {
        text.substring_char(1, n)
    } else {
        text
    };
    let ghost d = digits@;
    assert(d == if text@.len() > 0 && text@[0] == '+' {
        text@.drop_first()
    } else {
        text@
    });
    let mut value: u64 = 0;
    let mut overflow = false;
    let mut any = false;
    for c in it: digits.chars()
        invariant
            it.seq() == d,
            d == if text@.len() > 0 && text@[0] == '+' {
                text@.drop_first()
            } else {
                text@
            },
            any == (it.index() > 0),
            forall|i: int| 0 <= i < it.index() ==> is_digit(#[trigger] d[i]),
            !overflow ==> value as nat == digits_value(d.take(it.index() as int)),
            overflow ==> digits_value(d.take(it.index() as int)) > u64::MAX,
    {
        if !('0' <= c && c <= '9') {
            assert(!is_digit(d[it.index() as int]));
            assert(!all_digits(d));
            return None;
        }
        proof {
            assert(d.take(it.index() + 1).drop_last() == d.take(it.index() as int));
            assert(d.take(it.index() + 1).last() == c);
        }
        let dv = (c as u32 - '0' as u32) as u64;
        if !overflow {
            if value > (u64::MAX - dv) / 10 {
                overflow = true;
            } else {
                value = value * 10 + dv;
            }
        }
        any = true;
    }
    proof {
        assert(d.take(d.len() as int) == d);
    }
    if !any || overflow {
        None
    } else {
        Some(value)
    }
}

/// The value of a `<prefix> <number> ...` line: the first word after the prefix.
pub open spec fn line_value(line: Seq<char>, prefix: Seq<char>) -> Result<u64, MonitorError> {
    let rest = line.skip(prefix.len() as int);
    if !has_prefix(line, prefix) || words(rest).len() == 0 {
        Err(MonitorError::InvalidLine)
    } else {
        match parsed_u64(words(rest)[0]) {
            Some(v) => Ok(v),
            None => Err(MonitorError::InvalidNumber),
        }
    }
}

/// Reads the number of a `<prefix> <number> ...` line, such as
/// `MemTotal:  8000000 kB`.
pub fn parse_memory_value(line: &str, prefix: &str) -> (r: Result<u64, MonitorError>)
    ensures
        r == line_value(line@, prefix@),
{
    if !starts_with_text(line, prefix) {
        return Err(MonitorError::InvalidLine);
    }
    let rest = line.substring_char(prefix.unicode_len(), line.unicode_len());
    let tokens = split_pieces(rest, true, ' ');
    if tokens.len() == 0 {
        return Err(MonitorError::InvalidLine);
    }
    assert(tokens@[0]@ == views(tokens@)[0]);
    match parse_u64(tokens[0].as_str()) {
        Some(v) => Ok(v),
        None => Err(MonitorError::InvalidNumber),
    }
}

/// The first of `ls` that starts with `prefix`.
pub open spec fn first_with_prefix(ls: Seq<Seq<char>>, prefix: Seq<char>) -> Option<Seq<char>>
    decreases ls.len(),
{
    if ls.len() == 0 {
        None
    } else if has_prefix(ls[0], prefix) {
        Some(ls[0])
    } else {
        first_with_prefix(ls.drop_first(), prefix)
    }
}

/// The value of the first line of `report` that starts with `prefix`.
pub open spec fn report_value(report: Seq<char>, prefix: Seq<char>) -> Result<u64, MonitorError> {
    match first_with_prefix(lines(report), prefix) {
        Some(line) => line_value(line, prefix),
        None => Err(MonitorError::MissingField),
    }
}

/// Reads the value of the first line of `report` that starts with `prefix`.
pub fn find_report_value(report: &str, prefix: &str) -> (r: Result<u64, MonitorError>)
    ensures
        r == report_value(report@, prefix@),
{
    let ls = split_pieces(report, false, '\n');
    let mut i: usize = 0;
    assert(views(ls@).skip(0) == views(ls@));
    while i < ls.len()
        invariant
            i <= ls.len(),
            views(ls@) == lines(report@),
            first_with_prefix(lines(report@), prefix@) == first_with_prefix(
                views(ls@).skip(i as int),
                prefix@,
            ),
        decreases ls.len() - i,
    {
        let ghost rest = views(ls@).skip(i as int);
        assert(rest[0] == ls@[i as int]@);
        assert(rest.drop_first() == views(ls@).skip(i + 1));
        if starts_with_text(ls[i].as_str(), prefix) {
            return parse_memory_value(ls[i].as_str(), prefix);
        }
        i = i + 1;
    }
    Err(MonitorError::MissingField)
}

/// Percentage of memory in use, rounded down: `(total - available) * 100 / total`,
/// counting nothing as used when more is available than the total.
pub open spec fn memory_usage(total: u64, available: u64) -> int {
    let used = if total >= available {
        total - available
    } else {
        0
    };
    (used * 100) / (total as int)
}

/// Computes [`memory_usage`]; a zero total is an error.
pub fn memory_usage_percent(total: u64, available: u64) -> (r: Result<u64, MonitorError>)
    ensures
        match r {
            Ok(p) => total > 0 && p as int == memory_usage(total, available) && p <= 100,
            Err(e) => total == 0 && e == MonitorError::ZeroMemoryTotal,
        },
{
    if total == 0 {
        return Err(MonitorError::ZeroMemoryTotal);
    }
    let used = total.saturating_sub(available);
    let scaled = used as u128 * 100;
    let percent = scaled / total as u128;
    assert(percent <= 100) by (nonlinear_arith)
        requires
            scaled == used as u128 * 100,
            used <= total,
            total > 0,
            percent == scaled / total as u128,
    ;
    Ok(percent as u64)
}

/// Disk use in percent reported by a `df`-style table: the fifth word of its
/// second line, with a trailing `%`.
pub open spec fn disk_report_value(report: Seq<char>) -> Result<u64, MonitorError> {
    if lines(report).len() < 2 || words(lines(report)[1]).len() < 5 {
        Err(MonitorError::InvalidDiskReport)
    } else {
        let field = words(lines(report)[1])[4];
        if field.len() == 0 || field.last() != '%' {
            Err(MonitorError::InvalidDiskReport)
        } else {
            match parsed_u64(field.drop_last()) {
                Some(v) => Ok(v),
                None => Err(MonitorError::InvalidNumber),
            }
        }
    }
}

/// Reads the disk use percentage of a `df`-style report.
pub fn parse_disk_usage(report: &str) -> (r: Result<u64, MonitorError>)
    ensures
        r == disk_report_value(report@),
{
    let ls = split_pieces(report, false, '\n');
    if ls.len() < 2 {
        return Err(MonitorError::InvalidDiskReport);
    }
    assert(ls@[1]@ == views(ls@)[1]);
    let ws = split_pieces(ls[1].as_str(), true, ' ');
    if ws.len() < 5 {
        return Err(MonitorError::InvalidDiskReport);
    }
    assert(ws@[4]@ == views(ws@)[4]);
    let field = ws[4].as_str();
    let n = field.unicode_len();
    if n == 0 || field.get_char(n - 1) != '%' {
        return Err(MonitorError::InvalidDiskReport);
    }
    let number = field.substring_char(0, n - 1);
    assert(number@ == field@.drop_last());
    match parse_u64(number) {
        Some(v) => Ok(v),
        None => Err(MonitorError::InvalidNumber),
    }
}

/// The outcome of the resource check on the two reports: memory first, then disk.
pub open spec fn resource_check(meminfo: Seq<char>, disk_report: Seq<char>, c: Config) -> Result<(), MonitorError> {
    let total = report_value(meminfo, "MemTotal:"@);
    let available = report_value(meminfo, "MemAvailable:"@);
    let disk = disk_report_value(disk_report);
    if total is Err {
        Err(total->Err_0)
    } else if available is Err {
        Err(available->Err_0)
    } else if total->Ok_0 == 0 {
        Err(MonitorError::ZeroMemoryTotal)
    } else if memory_usage(total->Ok_0, available->Ok_0) >= c.memory_threshold {
        Err(MonitorError::MemoryThresholdExceeded)
    } else if disk is Err {
        Err(disk->Err_0)
    } else if disk->Ok_0 >= c.disk_threshold {
        Err(MonitorError::DiskThresholdExceeded)
    } else {
        Ok(())
    }
}

/// Fails when memory use reaches `memory_threshold` or disk use reaches
/// `disk_threshold`; a report that cannot be read is an error, never zero use.
pub fn check_resources(meminfo: &str, disk_report: &str, config: &Config) -> (r: Result<(), MonitorError>)
    ensures
        r == resource_check(meminfo@, disk_report@, *config),
{
    let total = match find_report_value(meminfo, "MemTotal:") {
        Ok(v) => v,
        Err(e) => return Err(e),
    };
    let available = match find_report_value(meminfo, "MemAvailable:") {
        Ok(v) => v,
        Err(e) => return Err(e),
    };
    let usage = match memory_usage_percent(total, available) {
        Ok(p) => p,
        Err(e) => return Err(e),
    };
    if usage >= config.memory_threshold as u64 {
        return Err(MonitorError::MemoryThresholdExceeded);
    }
    let disk = match parse_disk_usage(disk_report) {
        Ok(p) => p,
        Err(e) => return Err(e),
    };
    if disk >= config.disk_threshold as u64 {
        return Err(MonitorError::DiskThresholdExceeded);
    }
    Ok(())
}

} // verus!
