use vstd::prelude::*;

verus! {

use crate::text::str_eq;

/// The severity attached to a diagnostic line the server pushes.
#[derive(Clone, Copy, Debug, PartialEq, Eq, Structural)]
pub enum LogLevel {
    Off,
    Error,
    Warn,
    Info,
    Debug,
    Trace,
    Detail,
}

/// The lowercase wire name of each level.
pub open spec fn level_text(l: LogLevel) -> Seq<char> {
    match l {
        LogLevel::Off => seq!['o', 'f', 'f'],
        LogLevel::Error => seq!['e', 'r', 'r', 'o', 'r'],
        LogLevel::Warn => seq!['w', 'a', 'r', 'n'],
        LogLevel::Info => seq!['i', 'n', 'f', 'o'],
        LogLevel::Debug => seq!['d', 'e', 'b', 'u', 'g'],
        LogLevel::Trace => seq!['t', 'r', 'a', 'c', 'e'],
        LogLevel::Detail => seq!['d', 'e', 't', 'a', 'i', 'l'],
    }
}

/// The level a wire name denotes, if any.
pub open spec fn level_of_text(s: Seq<char>) -> Option<LogLevel> {
    if s == level_text(LogLevel::Off) {
        Some(LogLevel::Off)
    } else if s == level_text(LogLevel::Error) {
        Some(LogLevel::Error)
    } else if s == level_text(LogLevel::Warn) {
        Some(LogLevel::Warn)
    } else if s == level_text(LogLevel::Info) {
        Some(LogLevel::Info)
    } else if s == level_text(LogLevel::Debug) {
        Some(LogLevel::Debug)
    } else if s == level_text(LogLevel::Trace) {
        Some(LogLevel::Trace)
    } else if s == level_text(LogLevel::Detail) {
        Some(LogLevel::Detail)
    } else {
        None
    }
}

impl LogLevel {
    /// Parses a lowercase wire name.
    pub fn from_text(s: &str) -> (r: Option<LogLevel>)
        ensures
            r == level_of_text(s@),
    {
        proof {
            reveal_strlit("off");
            reveal_strlit("error");
            reveal_strlit("warn");
            reveal_strlit("info");
            reveal_strlit("debug");
            reveal_strlit("trace");
            reveal_strlit("detail");
            assert("off"@ =~= level_text(LogLevel::Off));
            assert("error"@ =~= level_text(LogLevel::Error));
            assert("warn"@ =~= level_text(LogLevel::Warn));
            assert("info"@ =~= level_text(LogLevel::Info));
            assert("debug"@ =~= level_text(LogLevel::Debug));
            assert("trace"@ =~= level_text(LogLevel::Trace));
            assert("detail"@ =~= level_text(LogLevel::Detail));
        }
        if str_eq(s, "off") {
            Some(LogLevel::Off)
        } else if str_eq(s, "error") {
            Some(LogLevel::Error)
        } else if str_eq(s, "warn") {
            Some(LogLevel::Warn)
        } else if str_eq(s, "info") {
            Some(LogLevel::Info)
        } else if str_eq(s, "debug") {
            Some(LogLevel::Debug)
        } else if str_eq(s, "trace") {
            Some(LogLevel::Trace)
        } else if str_eq(s, "detail") {
            Some(LogLevel::Detail)
        } else {
            None
        }
    }

    /// The lowercase wire name of this level.
    pub fn as_text(&self) -> (r: String)
        ensures
            r@ == level_text(*self),
    {
        proof {
            reveal_strlit("off");
            reveal_strlit("error");
            reveal_strlit("warn");
            reveal_strlit("info");
            reveal_strlit("debug");
            reveal_strlit("trace");
            reveal_strlit("detail");
        }
        let r = match self {
            LogLevel::Off => String::from_str("off"),
            LogLevel::Error => String::from_str("error"),
            LogLevel::Warn => String::from_str("warn"),
            LogLevel::Info => String::from_str("info"),
            LogLevel::Debug => String::from_str("debug"),
            LogLevel::Trace => String::from_str("trace"),
            LogLevel::Detail => String::from_str("detail"),
        };
        proof {
            assert(r@ =~= level_text(*self));
        }
        r
    }
}

} // verus!
