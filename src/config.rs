//! The settings a node starts from.

use vstd::prelude::*;

verus! {

/// The settings a node is built from; loading them is the caller's part.
#[derive(Debug)]
pub struct Config {
    /// `buffer`, `worker` or `single`.
    pub mode: String,
    pub in_dir: String,
    pub out_dir: String,
    /// Minutes between two ticks.
    pub polling_interval: u64,
    /// Whether input files are deleted once their output exists.
    pub clear_in_dir: bool,
    pub ffmpeg_path: String,
    pub log_level: String,
}

/// How much the process logs.
#[derive(PartialEq, Eq, Structural, Clone, Copy, Debug)]
pub enum LogLevel {
    Off,
    Error,
    Warn,
    Info,
    Debug,
    Trace,
}

/// The level a configured name stands for; an unknown name turns logging off.
pub open spec fn level_named(name: Seq<char>) -> LogLevel {
    if name == "trace"@ {
        LogLevel::Trace
    } else if name == "debug"@ {
        LogLevel::Debug
    } else if name == "info"@ {
        LogLevel::Info
    } else if name == "warn"@ {
        LogLevel::Warn
    } else if name == "error"@ {
        LogLevel::Error
    } else {
        LogLevel::Off
    }
}

/// The level that the name `level` stands for.
pub fn log_level(level: &str) -> (r: LogLevel)
    ensures
        r == level_named(level@),
{
    let s = String::from_str(level);
    if s.eq(&String::from_str("trace")) {
        LogLevel::Trace
    } else if s.eq(&String::from_str("debug")) {
        LogLevel::Debug
    } else if s.eq(&String::from_str("info")) {
        LogLevel::Info
    } else if s.eq(&String::from_str("warn")) {
        LogLevel::Warn
    } else if s.eq(&String::from_str("error")) {
        LogLevel::Error
    } else {
        LogLevel::Off
    }
}

} // verus!
