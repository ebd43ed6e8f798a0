//! Start-up options and configuration of the service.

use vstd::prelude::*;
use crate::level::{filter_name, Level, LevelFilter};
use crate::text::{equals_ignore_case, lower_seq, lowercase_string};

verus! {

/// Deployment environment.
#[derive(Clone, Copy, Debug, PartialEq, Eq, Structural)]
pub enum Env {
    Dev,
    Uat,
    Prd,
}

pub open spec fn env_name(e: Env) -> Seq<char> {
    match e {
        Env::Dev => "dev"@,
        Env::Uat => "uat"@,
        Env::Prd => "prd"@,
    }
}

impl Env {
    /// The lower-case name of the environment.
    pub fn name(&self) -> (r: String)
        ensures
            r@ == env_name(*self),
    {
        match self {
            Env::Dev => String::from_str("dev"),
            Env::Uat => String::from_str("uat"),
            Env::Prd => String::from_str("prd"),
        }
    }
}

impl Default for Env {
    fn default() -> (r: Env)
        ensures
            r == Env::Dev,
    {
        Env::Dev
    }
}

/// Sub-commands of the command line.
#[derive(Clone, Debug)]
pub enum Commands {
    /// Does testing things.
    Test { list: bool },
}

/// Command-line options.
#[derive(Clone, Debug)]
pub struct Cli {
    pub env: Env,
    pub port: u16,
    /// How many times the verbose flag was given.
    pub verbose: u8,
    pub db_url: String,
    /// Path of the configuration file.
    pub config: String,
    /// How many times the debug flag was given.
    pub debug: u8,
    pub command: Option<Commands>,
}

/// The configured minimum log level.
#[derive(Clone, Copy, Debug)]
pub struct LogLevel(pub Level);

impl Default for LogLevel {
    fn default() -> (r: LogLevel)
        ensures
            r.0 == Level::Debug,
    {
        LogLevel(Level::Debug)
    }
}

/// The level that a configuration file names, ignoring ASCII case: `trace`,
/// `debug`, `info` or `error`.
pub open spec fn config_level_named(s: Seq<char>) -> Option<Level> {
    if s == filter_name(LevelFilter::Trace) {
        Some(Level::Trace)
    } else if s == filter_name(LevelFilter::Debug) {
        Some(Level::Debug)
    } else if s == filter_name(LevelFilter::Info) {
        Some(Level::Info)
    } else if s == filter_name(LevelFilter::Error) {
        Some(Level::Error)
    } else {
        None
    }
}

impl LogLevel {
    /// Reads the level of a configuration file. The error names the rejected
    /// text in lower case.
    pub fn parse(s: &str) -> (r: Result<LogLevel, String>)
        ensures
            match r {
                Ok(l) => config_level_named(lower_seq(s@)) == Some(l.0),
                Err(m) => config_level_named(lower_seq(s@)) is None && m@ == "cannot convert "@ + lower_seq(s@)
                    + " to log level"@,
            },
    {
        proof {
            reveal_strlit("trace");
            reveal_strlit("debug");
            reveal_strlit("info");
            reveal_strlit("error");
            assert("trace"@ =~= filter_name(LevelFilter::Trace));
            assert("debug"@ =~= filter_name(LevelFilter::Debug));
            assert("info"@ =~= filter_name(LevelFilter::Info));
            assert("error"@ =~= filter_name(LevelFilter::Error));
        }
        if equals_ignore_case(s, "trace") {
            Ok(LogLevel(Level::Trace))
        } else if equals_ignore_case(s, "debug") {
            Ok(LogLevel(Level::Debug))
        } else if equals_ignore_case(s, "info") {
            Ok(LogLevel(Level::Info))
        } else if equals_ignore_case(s, "error") {
            Ok(LogLevel(Level::Error))
        } else {
            let mut m = String::from_str("cannot convert ");
            let lower = lowercase_string(s);
            m.append(lower.as_str());
            m.append(" to log level");
            Err(m)
        }
    }
}

/// Service configuration.
#[derive(Clone, Debug)]
pub struct Config {
    pub port: u16,
    pub log_level: LogLevel,
    pub db_url: String,
}

impl Default for Config {
    fn default() -> (r: Config)
        ensures
            r.port == 0,
            r.log_level.0 == Level::Debug,
            r.db_url@ == Seq::<char>::empty(),
    {
        Config { port: 0, log_level: LogLevel(Level::Debug), db_url: String::new() }
    }
}

/// The level that `verbose` repetitions of the verbose flag ask for.
pub open spec fn verbosity_level(verbose: u8) -> Level {
    if verbose == 0 {
        Level::Info
    } else if verbose == 1 {
        Level::Debug
    } else {
        Level::Trace
    }
}

/// The configuration that the command line gives.
pub fn load_config_from_cli(cli: &Cli) -> (r: Config)
    ensures
        r.port == cli.port,
        r.log_level.0 == verbosity_level(cli.verbose),
        r.db_url@ == cli.db_url@,
{
    let level = if cli.verbose == 0 {
        Level::Info
    } else if cli.verbose == 1 {
        Level::Debug
    } else {
        Level::Trace
    };
    Config { port: cli.port, log_level: LogLevel(level), db_url: cli.db_url.clone() }
}

} // verus!
