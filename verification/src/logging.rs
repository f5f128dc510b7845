//! Structured log lines and trace contexts.
use vstd::prelude::*;
use crate::config::LoggingConfig;

verus! {

broadcast use vstd::string::group_string_axioms;

/// Whether `c` is a lowercase hexadecimal digit.
pub open spec fn is_lower_hex(c: char) -> bool {
    ('0' <= c <= '9') || ('a' <= c <= 'f')
}

/// Whether `c` is a decimal digit.
pub open spec fn is_digit(c: char) -> bool {
    '0' <= c <= '9'
}

/// The shape of a hyphenated, lowercase version-4 UUID:
/// `xxxxxxxx-xxxx-4xxx-Vxxx-xxxxxxxxxxxx` with `V` one of `8 9 a b`.
pub open spec fn is_v4_uuid_text(s: Seq<char>) -> bool {
    &&& s.len() == 36
    &&& forall|i: int|
        0 <= i < 36 ==> if i == 8 || i == 13 || i == 18 || i == 23 {
            s[i] == '-'
        } else {
            is_lower_hex(#[trigger] s[i])
        }
    &&& s[14] == '4'
    &&& (s[19] == '8' || s[19] == '9' || s[19] == 'a' || s[19] == 'b')
}

/// The year as `%Y` writes it: four digits for the years 0 to 9999, and otherwise a
/// sign followed by at least four digits.
pub open spec fn is_year_text(y: Seq<char>) -> bool {
    ||| y.len() == 4 && forall|i: int| 0 <= i < 4 ==> is_digit(#[trigger] y[i])
    ||| y.len() >= 5 && (y[0] == '+' || y[0] == '-') && forall|i: int| 1 <= i < y.len() ==> is_digit(#[trigger] y[i])
}

/// The shape of a local time stamp written with `%Y-%m-%d %H:%M:%S%.3f`: the year (see
/// `is_year_text`), then `-MM-DD HH:MM:SS.mmm`.
pub open spec fn is_timestamp_text(s: Seq<char>) -> bool {
    &&& s.len() >= 23
    &&& is_year_text(s.subrange(0, s.len() - 19))
    &&& {
        let t = s.subrange(s.len() - 19, s.len() as int);
        &&& t[0] == '-' && is_digit(t[1]) && is_digit(t[2])
        &&& t[3] == '-' && is_digit(t[4]) && is_digit(t[5])
        &&& t[6] == ' ' && is_digit(t[7]) && is_digit(t[8])
        &&& t[9] == ':' && is_digit(t[10]) && is_digit(t[11])
        &&& t[12] == ':' && is_digit(t[13]) && is_digit(t[14])
        &&& t[15] == '.' && is_digit(t[16]) && is_digit(t[17]) && is_digit(t[18])
    }
}

/// `uuid::Uuid::new_v4().to_string()`: a fresh random UUID. Its text is hyphenated
/// lowercase hex with the version nibble 4 and the RFC 4122 variant; the random bits
/// themselves are not stated.
#[verifier::external_body]
fn new_v4_uuid_text() -> (s: String)
    ensures
        is_v4_uuid_text(s@),
{
    uuid::Uuid::new_v4().to_string()
}

/// `chrono::Local::now().format("%Y-%m-%d %H:%M:%S%.3f").to_string()`: the local time
/// now, in that layout (the year as chrono's `%Y` writes it, zero-padded to four digits
/// and signed outside 0 to 9999). Which time it is is not stated.
#[verifier::external_body]
fn local_timestamp_text() -> (s: String)
    ensures
        is_timestamp_text(s@),
{
    chrono::Local::now().format("%Y-%m-%d %H:%M:%S%.3f").to_string()
}

/// Identifies one run in its log lines.
pub struct TraceContext {
    pub trace_id: String,
    pub timestamp: String,
}

impl TraceContext {
    /// A fresh trace: a new random v4 UUID and the local time of creation.
    pub fn new() -> (r: Self)
        ensures
            is_v4_uuid_text(r.trace_id@),
            is_timestamp_text(r.timestamp@),
    {
        TraceContext { trace_id: new_v4_uuid_text(), timestamp: local_timestamp_text() }
    }
}

/// The text of one log line (without colour): `[time] [LEVEL] [Trace: id] message`, or
/// without the trace part when trace ids are not shown.
pub open spec fn log_text(
    show_trace: bool,
    level: Seq<char>,
    msg: Seq<char>,
    timestamp: Seq<char>,
    trace_id: Seq<char>,
) -> Seq<char> {
    if show_trace {
        "["@ + timestamp + "] ["@ + level + "] [Trace: "@ + trace_id + "] "@ + msg
    } else {
        "["@ + timestamp + "] ["@ + level + "] "@ + msg
    }
}

/// Formats log lines for the console.
pub struct Logger {
    config: LoggingConfig,
}

impl Logger {
    /// A logger with these settings.
    pub fn new(config: LoggingConfig) -> (r: Self)
        ensures
            r.shows_trace() == config.output_trace_id,
    {
        Logger { config }
    }

    /// Whether lines carry the trace id.
    pub closed spec fn shows_trace(&self) -> bool {
        self.config.output_trace_id
    }

    fn format_log(&self, level: &str, msg: &str, trace: &TraceContext) -> (r: String)
        ensures
            r@ == log_text(self.shows_trace(), level@, msg@, trace.timestamp@, trace.trace_id@),
    {
        let mut r = "[".to_string();
        r.append(trace.timestamp.as_str());
        r.append("] [");
        r.append(level);
        if self.config.output_trace_id {
            r.append("] [Trace: ");
            r.append(trace.trace_id.as_str());
            r.append("] ");
        } else {
            r.append("] ");
        }
        r.append(msg);
        r
    }

    /// The `INFO` line for `msg`, in blue, as it is written to standard output.
    pub fn info(&self, msg: &str, trace: &TraceContext) -> (r: String)
        ensures
            r@ == "\x1b[34m"@ + log_text(self.shows_trace(), "INFO"@, msg@, trace.timestamp@, trace.trace_id@) + "\x1b[0m"@,
    {
        let mut r = "\x1b[34m".to_string();
        let body = self.format_log("INFO", msg, trace);
        r.append(body.as_str());
        r.append("\x1b[0m");
        r
    }

    /// The `WARN` line for `msg`, in yellow, as it is written to standard error.
    pub fn warn(&self, msg: &str, trace: &TraceContext) -> (r: String)
        ensures
            r@ == "\x1b[33m"@ + log_text(self.shows_trace(), "WARN"@, msg@, trace.timestamp@, trace.trace_id@) + "\x1b[0m"@,
    {
        let mut r = "\x1b[33m".to_string();
        let body = self.format_log("WARN", msg, trace);
        r.append(body.as_str());
        r.append("\x1b[0m");
        r
    }

    /// The `ERROR` line for `msg`, in red, as it is written to standard error.
    pub fn error(&self, msg: &str, trace: &TraceContext) -> (r: String)
        ensures
            r@ == "\x1b[31m"@ + log_text(self.shows_trace(), "ERROR"@, msg@, trace.timestamp@, trace.trace_id@) + "\x1b[0m"@,
    {
        let mut r = "\x1b[31m".to_string();
        let body = self.format_log("ERROR", msg, trace);
        r.append(body.as_str());
        r.append("\x1b[0m");
        r
    }
}

} // verus!
