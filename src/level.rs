//! Severity levels of log records and the verbosity filters that admit them.

use vstd::prelude::*;
use crate::text::{equals_ignore_case, lower_seq};

verus! {

/// Severity of one log record, from the most to the least severe.
#[derive(Clone, Copy, Debug, PartialEq, Eq, Structural)]
pub enum Level {
    Error,
    Warn,
    Info,
    Debug,
    Trace,
}

/// Minimum severity that a filter lets through; `Off` lets nothing through.
#[derive(Clone, Copy, Debug, PartialEq, Eq, Structural)]
pub enum LevelFilter {
    Off,
    Error,
    Warn,
    Info,
    Debug,
    Trace,
}

pub open spec fn level_rank(l: Level) -> nat {
    match l {
        Level::Error => 1,
        Level::Warn => 2,
        Level::Info => 3,
        Level::Debug => 4,
        Level::Trace => 5,
    }
}

pub open spec fn filter_rank(f: LevelFilter) -> nat {
    match f {
        LevelFilter::Off => 0,
        LevelFilter::Error => 1,
        LevelFilter::Warn => 2,
        LevelFilter::Info => 3,
        LevelFilter::Debug => 4,
        LevelFilter::Trace => 5,
    }
}

/// A record of level `l` passes filter `f`.
pub open spec fn permits(f: LevelFilter, l: Level) -> bool {
    level_rank(l) <= filter_rank(f)
}

/// The lower-case name of a filter, as directives write it.
pub open spec fn filter_name(f: LevelFilter) -> Seq<char> {
    match f {
        LevelFilter::Off => seq!['o', 'f', 'f'],
        LevelFilter::Error => seq!['e', 'r', 'r', 'o', 'r'],
        LevelFilter::Warn => seq!['w', 'a', 'r', 'n'],
        LevelFilter::Info => seq!['i', 'n', 'f', 'o'],
        LevelFilter::Debug => seq!['d', 'e', 'b', 'u', 'g'],
        LevelFilter::Trace => seq!['t', 'r', 'a', 'c', 'e'],
    }
}

/// The filter whose name is exactly `s`, if any.
pub open spec fn filter_named(s: Seq<char>) -> Option<LevelFilter> {
    if s == filter_name(LevelFilter::Off) {
        Some(LevelFilter::Off)
    } else if s == filter_name(LevelFilter::Error) {
        Some(LevelFilter::Error)
    } else if s == filter_name(LevelFilter::Warn) {
        Some(LevelFilter::Warn)
    } else if s == filter_name(LevelFilter::Info) {
        Some(LevelFilter::Info)
    } else if s == filter_name(LevelFilter::Debug) {
        Some(LevelFilter::Debug)
    } else if s == filter_name(LevelFilter::Trace) {
        Some(LevelFilter::Trace)
    } else {
        None
    }
}

/// The upper-case name of a level, as log lines show it.
pub open spec fn level_label(l: Level) -> Seq<char> {
    match l {
        Level::Error => seq!['E', 'R', 'R', 'O', 'R'],
        Level::Warn => seq!['W', 'A', 'R', 'N'],
        Level::Info => seq!['I', 'N', 'F', 'O'],
        Level::Debug => seq!['D', 'E', 'B', 'U', 'G'],
        Level::Trace => seq!['T', 'R', 'A', 'C', 'E'],
    }
}

impl Level {
    pub fn admitted_by(self, f: LevelFilter) -> (r: bool)
        ensures
            r == permits(f, self),
    {
        let l: u8 = match self {
            Level::Error => 1,
            Level::Warn => 2,
            Level::Info => 3,
            Level::Debug => 4,
            Level::Trace => 5,
        };
        let m: u8 = match f {
            LevelFilter::Off => 0,
            LevelFilter::Error => 1,
            LevelFilter::Warn => 2,
            LevelFilter::Info => 3,
            LevelFilter::Debug => 4,
            LevelFilter::Trace => 5,
        };
        l <= m
    }

    /// The upper-case name used in log lines.
    pub fn label(self) -> (r: String)
        ensures
            r@ == level_label(self),
    {
        match self {
            Level::Error => {
                proof {
                    reveal_strlit("ERROR");
                }
                let r = String::from_str("ERROR");
                assert(r@ =~= level_label(self));
                r
            },
            Level::Warn => {
                proof {
                    reveal_strlit("WARN");
                }
                let r = String::from_str("WARN");
                assert(r@ =~= level_label(self));
                r
            },
            Level::Info => {
                proof {
                    reveal_strlit("INFO");
                }
                let r = String::from_str("INFO");
                assert(r@ =~= level_label(self));
                r
            },
            Level::Debug => {
                proof {
                    reveal_strlit("DEBUG");
                }
                let r = String::from_str("DEBUG");
                assert(r@ =~= level_label(self));
                r
            },
            Level::Trace => {
                proof {
                    reveal_strlit("TRACE");
                }
                let r = String::from_str("TRACE");
                assert(r@ =~= level_label(self));
                r
            },
        }
    }
}

/// The rejected text of a level or directive that could not be parsed.
#[derive(Clone, Debug)]
pub struct FilterParseError {
    /// The offending piece, in ASCII lower case.
    pub bad: String,
}

/// Reads a level filter name, ignoring ASCII case.
pub fn parse_log_level(level: &str) -> (r: Result<LevelFilter, FilterParseError>)
    ensures
        match r {
            Ok(f) => filter_named(lower_seq(level@)) == Some(f),
            Err(e) => filter_named(lower_seq(level@)) is None && e.bad@ == lower_seq(level@),
        },
{
    proof {
        reveal_strlit("off");
        reveal_strlit("error");
        reveal_strlit("warn");
        reveal_strlit("info");
        reveal_strlit("debug");
        reveal_strlit("trace");
        assert("off"@ =~= filter_name(LevelFilter::Off));
        assert("error"@ =~= filter_name(LevelFilter::Error));
        assert("warn"@ =~= filter_name(LevelFilter::Warn));
        assert("info"@ =~= filter_name(LevelFilter::Info));
        assert("debug"@ =~= filter_name(LevelFilter::Debug));
        assert("trace"@ =~= filter_name(LevelFilter::Trace));
    }
    if equals_ignore_case(level, "off") {
        Ok(LevelFilter::Off)
    } else if equals_ignore_case(level, "error") {
        Ok(LevelFilter::Error)
    } else if equals_ignore_case(level, "warn") {
        Ok(LevelFilter::Warn)
    } else if equals_ignore_case(level, "info") {
        Ok(LevelFilter::Info)
    } else if equals_ignore_case(level, "debug") {
        Ok(LevelFilter::Debug)
    } else if equals_ignore_case(level, "trace") {
        Ok(LevelFilter::Trace)
    } else {
        Err(FilterParseError { bad: crate::text::lowercase_string(level) })
    }
}

/// The lower-case name of a level filter.
pub fn format_log_level(level: LevelFilter) -> (r: String)
    ensures
        r@ == filter_name(level),
{
    match level {
        LevelFilter::Off => {
            proof {
                reveal_strlit("off");
            }
            let r = String::from_str("off");
            assert(r@ =~= filter_name(level));
            r
        },
        LevelFilter::Error => {
            proof {
                reveal_strlit("error");
            }
            let r = String::from_str("error");
            assert(r@ =~= filter_name(level));
            r
        },
        LevelFilter::Warn => {
            proof {
                reveal_strlit("warn");
            }
            let r = String::from_str("warn");
            assert(r@ =~= filter_name(level));
            r
        },
        LevelFilter::Info => {
            proof {
                reveal_strlit("info");
            }
            let r = String::from_str("info");
            assert(r@ =~= filter_name(level));
            r
        },
        LevelFilter::Debug => {
            proof {
                reveal_strlit("debug");
            }
            let r = String::from_str("debug");
            assert(r@ =~= filter_name(level));
            r
        },
        LevelFilter::Trace => {
            proof {
                reveal_strlit("trace");
            }
            let r = String::from_str("trace");
            assert(r@ =~= filter_name(level));
            r
        },
    }
}

} // verus!
