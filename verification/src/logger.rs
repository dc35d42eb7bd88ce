//! Log severities and the single-letter tags used in log lines.

use vstd::prelude::*;

verus! {

/// Severity of one log message.
#[derive(Clone, Copy, Debug, PartialEq, Eq, Structural)]
pub enum Level {
    Error,
    Warn,
    Info,
    Debug,
    Trace,
}

/// Single-letter tag that prefixes a log line of the given severity.
pub fn level(lvl: Level) -> (r: &'static str)
    ensures
        lvl == Level::Error ==> r@ == "E"@,
        lvl == Level::Warn ==> r@ == "W"@,
        lvl == Level::Info ==> r@ == "I"@,
        lvl == Level::Debug ==> r@ == "D"@,
        lvl == Level::Trace ==> r@ == "T"@,
{
    match lvl {
        Level::Error => "E",
        Level::Warn => "W",
        Level::Info => "I",
        Level::Debug => "D",
        Level::Trace => "T",
    }
}

} // verus!
