//! Log lines: a timestamp, a coloured level and the message.
//!
//! The library composes each line; the program prints it.

use chrono::NaiveDateTime;
use vstd::prelude::*;

verus! {

/// Severity of a log line.
#[derive(Debug, Clone, Copy, PartialEq, Eq, Structural)]
pub enum LogLevel {
    Info,
    Warning,
    Error,
}

/// Pattern of the timestamp at the start of each log line.
pub const TIME_FORMAT: &'static str = "%Y-%m-%d %H:%M:%S";

/// Terminal escape that ends a coloured span.
pub const COLOR_RESET: &'static str = "\x1b[0m";

/// Seconds since the Unix epoch of chrono's first date and time, January 1 of the
/// year -262143 (262144 BCE), 00:00:00.
pub const FIRST_REPRESENTABLE_SECOND: i64 = -8334601228800;

/// Seconds since the Unix epoch of chrono's last date and time, December 31 of the
/// year 262142, 23:59:59.
pub const LAST_REPRESENTABLE_SECOND: i64 = 8210266876799;

/// chrono has a date and time for `secs` seconds after the Unix epoch.
pub open spec fn is_representable_second(secs: i64) -> bool {
    FIRST_REPRESENTABLE_SECOND <= secs <= LAST_REPRESENTABLE_SECOND
}

/// `c` is a decimal digit.
pub open spec fn is_digit(c: char) -> bool {
    '0' <= c <= '9'
}

/// Value of the two decimal digits of `s` at `i` and `i + 1`.
pub open spec fn two_digit_value(s: Seq<char>, i: int) -> int {
    (s[i] as int - '0' as int) * 10 + (s[i + 1] as int - '0' as int)
}

/// `s[i]` and `s[i + 1]` are digits whose value lies in `lo..=hi`.
pub open spec fn is_two_digit_field(s: Seq<char>, i: int, lo: int, hi: int) -> bool {
    &&& is_digit(s[i])
    &&& is_digit(s[i + 1])
    &&& lo <= two_digit_value(s, i) <= hi
}

/// `s` is a date and time written as `%Y-%m-%d %H:%M:%S`: a year of four digits, or a
/// sign and at least four digits for years outside 0 to 9999, then month (01 to 12),
/// day (01 to 31), hour (00 to 23), minute (00 to 59) and second (00 to 60, for a leap
/// second), each of two digits, joined by `-`, a space and `:`.
pub open spec fn is_timestamp_text(s: Seq<char>) -> bool {
    let y = s.len() - 15;
    &&& s.len() >= 19
    &&& ((y == 4 && forall|i: int| 0 <= i < 4 ==> #[trigger] is_digit(s[i]))
        || (y >= 5 && (s[0] == '+' || s[0] == '-') && forall|i: int| 1 <= i < y ==> #[trigger] is_digit(s[i])))
    &&& s[y] == '-'
    &&& is_two_digit_field(s, y + 1, 1, 12)
    &&& s[y + 3] == '-'
    &&& is_two_digit_field(s, y + 4, 1, 31)
    &&& s[y + 6] == ' '
    &&& is_two_digit_field(s, y + 7, 0, 23)
    &&& s[y + 9] == ':'
    &&& is_two_digit_field(s, y + 10, 0, 59)
    &&& s[y + 12] == ':'
    &&& is_two_digit_field(s, y + 13, 0, 60)
}

/// Label of a level in a log line.
pub open spec fn level_label_text(level: LogLevel) -> Seq<char> {
    match level {
        LogLevel::Info => "INFO"@,
        LogLevel::Warning => "WARN"@,
        LogLevel::Error => "ERROR"@,
    }
}

/// Terminal colour escape of a level: green, yellow, red.
pub open spec fn level_color_text(level: LogLevel) -> Seq<char> {
    match level {
        LogLevel::Info => "\x1b[32m"@,
        LogLevel::Warning => "\x1b[33m"@,
        LogLevel::Error => "\x1b[31m"@,
    }
}

/// A log line: `[time] ` then the coloured level, `: ` and the message.
pub open spec fn log_line_text(level: LogLevel, time: Seq<char>, msg: Seq<char>) -> Seq<char> {
    "["@ + time + "] "@ + level_color_text(level) + level_label_text(level) + COLOR_RESET@ + ": "@
        + msg
}

/// Every log line, at every level, starts with `[`, the time and `] `, and ends with
/// the message itself: it is a head that does not depend on the message, followed by
/// the whole message.
pub proof fn log_line_ends_with_message(level: LogLevel, time: Seq<char>, msg: Seq<char>)
    ensures
        log_line_text(level, time, msg) == log_line_text(level, time, Seq::<char>::empty()) + msg,
        log_line_text(level, time, msg).subrange(0, time.len() + 3int) == "["@ + time + "] "@,
        log_line_text(level, time, msg).subrange(
            log_line_text(level, time, msg).len() - msg.len(),
            log_line_text(level, time, msg).len() as int,
        ) == msg,
        log_line_text(level, time, msg).len() > time.len() + msg.len() + 3,
{
    reveal_strlit("[");
    reveal_strlit("] ");
    reveal_strlit(": ");
    let head = log_line_text(level, time, Seq::<char>::empty());
    assert(log_line_text(level, time, msg) =~= head + msg);
    assert(("["@ + time + "] "@).len() == time.len() + 3);
    assert(log_line_text(level, time, msg).subrange(0, time.len() + 3int) =~= "["@ + time + "] "@);
    assert((head + msg).subrange(head.len() as int, (head + msg).len() as int) =~= msg);
}

/// Returns the label of a level.
pub fn level_label(level: LogLevel) -> (s: &'static str)
    ensures
        s@ == level_label_text(level),
{
    match level {
        LogLevel::Info => "INFO",
        LogLevel::Warning => "WARN",
        LogLevel::Error => "ERROR",
    }
}

/// Returns the terminal colour escape of a level.
pub fn level_color(level: LogLevel) -> (s: &'static str)
    ensures
        s@ == level_color_text(level),
{
    match level {
        LogLevel::Info => "\x1b[32m",
        LogLevel::Warning => "\x1b[33m",
        LogLevel::Error => "\x1b[31m",
    }
}

/// Returns the log line of `msg` at `level`, stamped with `time`.
pub fn log_line(level: LogLevel, time: &str, msg: &str) -> (line: String)
    ensures
        line@ == log_line_text(level, time@, msg@),
        line@ == log_line_text(level, time@, Seq::<char>::empty()) + msg@,
        line@.subrange(0, time@.len() + 3int) == "["@ + time@ + "] "@,
        line@.subrange(line@.len() - msg@.len(), line@.len() as int) == msg@,
{
    let mut line = String::from_str("[");
    line.append(time);
    line.append("] ");
    line.append(level_color(level));
    line.append(level_label(level));
    line.append(COLOR_RESET);
    line.append(": ");
    line.append(msg);
    proof {
        log_line_ends_with_message(level, time@, msg@);
    }
    line
}

/// Returns the informational log line of `msg`, stamped with `time`.
pub fn info(time: &str, msg: &str) -> (line: String)
    ensures
        line@ == log_line_text(LogLevel::Info, time@, msg@),
        line@ == log_line_text(LogLevel::Info, time@, Seq::<char>::empty()) + msg@,
        line@.subrange(0, time@.len() + 3int) == "["@ + time@ + "] "@,
        line@.subrange(line@.len() - msg@.len(), line@.len() as int) == msg@,
{
    log_line(LogLevel::Info, time, msg)
}

/// Returns the warning log line of `msg`, stamped with `time`.
pub fn warning(time: &str, msg: &str) -> (line: String)
    ensures
        line@ == log_line_text(LogLevel::Warning, time@, msg@),
        line@ == log_line_text(LogLevel::Warning, time@, Seq::<char>::empty()) + msg@,
        line@.subrange(0, time@.len() + 3int) == "["@ + time@ + "] "@,
        line@.subrange(line@.len() - msg@.len(), line@.len() as int) == msg@,
{
    log_line(LogLevel::Warning, time, msg)
}

/// Returns the error log line of `msg`, stamped with `time`.
pub fn error(time: &str, msg: &str) -> (line: String)
    ensures
        line@ == log_line_text(LogLevel::Error, time@, msg@),
        line@ == log_line_text(LogLevel::Error, time@, Seq::<char>::empty()) + msg@,
        line@.subrange(0, time@.len() + 3int) == "["@ + time@ + "] "@,
        line@.subrange(line@.len() - msg@.len(), line@.len() as int) == msg@,
{
    log_line(LogLevel::Error, time, msg)
}

/// The text chrono writes, in the given strftime pattern, for the UTC date and time
/// `secs` seconds after the Unix epoch.
pub uninterp spec fn utc_timestamp_text(secs: i64, pattern: Seq<char>) -> Seq<char>;

/// chrono's `NaiveDateTime::from_timestamp_opt(secs, 0)` (in chrono's source,
/// `DateTime::from_timestamp(secs, 0)` taken as a UTC date and time), written out
/// with `NaiveDateTime::format` in the log line's pattern.
///
/// chrono has a date exactly for the seconds from its first date, January 1 of the year
/// -262143, to its last, December 31 of the year 262142 (`NaiveDate::MIN` and
/// `NaiveDate::MAX`; the time of day from a whole second is always valid). The text is
/// named `utc_timestamp_text`, and has the layout that chrono's strftime
/// documentation gives for each field of the pattern (`is_timestamp_text`). The
/// pattern is the only one admitted; chrono always knows how to write it, so writing
/// the text does not fail.
#[verifier::external_body]
#[allow(deprecated)]
fn format_timestamp(secs: i64, pattern: &str) -> (r: Option<String>)
    requires
        pattern@ == TIME_FORMAT@,
    ensures
        r is Some <==> is_representable_second(secs),
        r matches Some(text) ==> text@ == utc_timestamp_text(secs, pattern@) && is_timestamp_text(text@),
{
    match NaiveDateTime::from_timestamp_opt(secs, 0) {
        Some(time) => Some(time.format(pattern).to_string()),
        None => None,
    }
}

/// Returns the timestamp of a log line written `secs` seconds after the Unix epoch,
/// as `%Y-%m-%d %H:%M:%S` in UTC; the epoch itself stands in when chrono cannot
/// represent that time.
pub fn current_time_string(secs: u64) -> (text: String)
    ensures
        is_representable_second(secs as i64) ==> text@ == utc_timestamp_text(secs as i64, TIME_FORMAT@),
        !is_representable_second(secs as i64) ==> text@ == utc_timestamp_text(0, TIME_FORMAT@),
        is_timestamp_text(text@),
{
    let secs = secs as i64;
    match format_timestamp(secs, TIME_FORMAT) {
        Some(text) => text,
        // chrono's default date and time is the Unix epoch, second 0
        None => format_timestamp(0, TIME_FORMAT).unwrap(),
    }
}

} // verus!
