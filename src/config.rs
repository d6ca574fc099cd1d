//! The backend's log level, as given in the process configuration.
use vstd::prelude::*;

verus! {

/// Verbosity of the backend's own log.
#[derive(Clone, Copy, Debug, PartialEq, Eq, Structural)]
pub enum LogLevel {
    Error,
    Warn,
    Info,
    Debug,
    Trace,
}

/// `s` spells the level name `upper` in any mix of ASCII case (`lower` is
/// the same name in lower case).
pub open spec fn spells(s: Seq<char>, upper: Seq<char>, lower: Seq<char>) -> bool {
    &&& s.len() == upper.len()
    &&& forall|i: int| 0 <= i < s.len() ==> s[i] == upper[i] || s[i] == lower[i]
}

/// The level that `s` names, ignoring ASCII case; `None` for anything else.
pub open spec fn spec_parse_level(s: Seq<char>) -> Option<LogLevel> {
    if spells(s, seq!['E', 'R', 'R', 'O', 'R'], seq!['e', 'r', 'r', 'o', 'r']) {
        Some(LogLevel::Error)
    } else if spells(s, seq!['W', 'A', 'R', 'N'], seq!['w', 'a', 'r', 'n']) {
        Some(LogLevel::Warn)
    } else if spells(s, seq!['I', 'N', 'F', 'O'], seq!['i', 'n', 'f', 'o']) {
        Some(LogLevel::Info)
    } else if spells(s, seq!['D', 'E', 'B', 'U', 'G'], seq!['d', 'e', 'b', 'u', 'g']) {
        Some(LogLevel::Debug)
    } else if spells(s, seq!['T', 'R', 'A', 'C', 'E'], seq!['t', 'r', 'a', 'c', 'e']) {
        Some(LogLevel::Trace)
    } else {
        None
    }
}

/// Relies on `<log::Level as FromStr>::from_str`, which compares `s` with
/// `ERROR`, `WARN`, `INFO`, `DEBUG` and `TRACE` by `eq_ignore_ascii_case`
/// and fails on anything else.
#[verifier::external_body]
fn parse_level(s: &str) -> (r: Option<LogLevel>)
    ensures
        r == spec_parse_level(s@),
{
    match s.parse::<log::Level>() {
        Ok(log::Level::Error) => Some(LogLevel::Error),
        Ok(log::Level::Warn) => Some(LogLevel::Warn),
        Ok(log::Level::Info) => Some(LogLevel::Info),
        Ok(log::Level::Debug) => Some(LogLevel::Debug),
        Ok(log::Level::Trace) => Some(LogLevel::Trace),
        Err(_) => None,
    }
}

/// The configured log level: the level that `value` names, ignoring ASCII
/// case, or `Info` when it names none.
pub fn log_level_or_info(value: &str) -> (r: LogLevel)
    ensures
        r == match spec_parse_level(value@) {
            Some(l) => l,
            None => LogLevel::Info,
        },
{
    match parse_level(value) {
        Some(l) => l,
        None => LogLevel::Info,
    }
}

} // verus!
