//! Log lines that module workers send: how they are stored and at which level
//! they are reported.

use vstd::prelude::*;
use vstd::string::StringExecFns;
use crate::types::ModuleInfo;
use crate::util::{module_text, nat_text, push_nat, push_module};

verus! {

/// A log message received from a module worker.
#[derive(Debug)]
pub struct ModuleLog {
    /// The module the message is from.
    pub module: ModuleInfo,
    /// The message itself.
    pub message: String,
    /// The log level of the message.
    pub level: String,
    /// UNIX timestamp, in seconds, of when the message was emitted.
    pub instant: i64,
    /// The worker number the message came from.
    pub worker: u8,
}

/// The level at which a module's log line is reported.
#[derive(Debug, Clone, Copy, PartialEq, Eq, Structural)]
pub enum LogLevel {
    Info,
    Error,
    Warn,
    Debug,
    /// A level name that is not known; reported as information.
    Unknown,
}

/// The level that a level name stands for.
pub open spec fn level_of(name: Seq<char>) -> LogLevel {
    if name == "info"@ {
        LogLevel::Info
    } else if name == "error"@ {
        LogLevel::Error
    } else if name == "warn"@ {
        LogLevel::Warn
    } else if name == "debug"@ {
        LogLevel::Debug
    } else {
        LogLevel::Unknown
    }
}

/// The level that a level name stands for.
pub fn log_level(name: &String) -> (r: LogLevel)
    ensures
        r == level_of(name@),
{
    if *name == String::from_str("info") {
        LogLevel::Info
    } else if *name == String::from_str("error") {
        LogLevel::Error
    } else if *name == String::from_str("warn") {
        LogLevel::Warn
    } else if *name == String::from_str("debug") {
        LogLevel::Debug
    } else {
        LogLevel::Unknown
    }
}

/// The RFC 3339 text, in UTC with whole seconds and a `Z` suffix, of a UNIX
/// timestamp; none where the timestamp is out of the representable range.
pub uninterp spec fn rfc3339_of(secs: int) -> Option<Seq<char>>;

/// Relies on chrono's `DateTime::<Utc>::from_timestamp`, which is none out of
/// range, and `to_rfc3339_opts(SecondsFormat::Secs, true)`.
#[verifier::external_body]
fn rfc3339_seconds(secs: i64) -> (r: Option<String>)
    ensures
        match r {
            Some(t) => rfc3339_of(secs as int) == Some(t@),
            None => rfc3339_of(secs as int) is None,
        },
{
    chrono::DateTime::<chrono::Utc>::from_timestamp(secs, 0).map(
        |t| t.to_rfc3339_opts(chrono::SecondsFormat::Secs, true),
    )
}

/// The stored form of a log line, `[time level worker:n] message`, given the
/// time's text.
pub open spec fn stored_line(
    time: Seq<char>,
    level: Seq<char>,
    worker: u8,
    message: Seq<char>,
) -> Seq<char> {
    seq!['['] + time + seq![' '] + level + " worker:"@ + nat_text(worker as nat) + "] "@ + message
}

/// The stored form of a log entry; none where its timestamp cannot be shown.
pub fn stored_log_line(entry: &ModuleLog) -> (r: Option<String>)
    ensures
        match r {
            Some(s) => exists|t: Seq<char>|
                rfc3339_of(entry.instant as int) == Some(t) && s@ == stored_line(
                    t,
                    entry.level@,
                    entry.worker,
                    entry.message@,
                ),
            None => rfc3339_of(entry.instant as int) is None,
        },
{
    match rfc3339_seconds(entry.instant) {
        None => None,
        Some(time) => Some(format_stored_line(&time, entry)),
    }
}

/// The stored form of a log entry whose time reads `time`.
pub fn format_stored_line(time: &String, entry: &ModuleLog) -> (r: String)
    ensures
        r@ == stored_line(time@, entry.level@, entry.worker, entry.message@),
{
    let mut s = String::from_str("[");
    s.append(time.as_str());
    s.append(" ");
    s.append(entry.level.as_str());
    s.append(" worker:");
    push_nat(&mut s, entry.worker as u64);
    s.append("] ");
    s.append(entry.message.as_str());
    proof {
        reveal_strlit("[");
        reveal_strlit(" ");
    }
    assert(s@ =~= stored_line(time@, entry.level@, entry.worker, entry.message@));
    s
}

/// The line under which a log entry is reported, `Module name:version[n]: message`.
pub fn report_line(entry: &ModuleLog) -> (r: String)
    ensures
        r@ == "Module "@ + module_text(entry.module@) + seq!['['] + nat_text(entry.worker as nat)
            + "]: "@ + entry.message@,
{
    let mut s = String::from_str("Module ");
    push_module(&mut s, &entry.module);
    s.append("[");
    push_nat(&mut s, entry.worker as u64);
    s.append("]: ");
    s.append(entry.message.as_str());
    proof {
        reveal_strlit("[");
    }
    assert(s@ =~= "Module "@ + module_text(entry.module@) + seq!['['] + nat_text(entry.worker as nat)
        + "]: "@ + entry.message@);
    s
}

} // verus!
