//! Options of the process-wide log output and the filter directives derived from them.

use crate::oculus::{level_text, Level};
use vstd::prelude::*;

verus! {

/// Where log lines are written.
#[derive(Debug, Clone, PartialEq, Eq)]
pub enum Output {
    Stdout,
    Stderr,
    /// Appended to the file at this path.
    File(String),
}

impl Output {
    /// `stdout`, `stderr`, or the path of the file.
    pub fn describe(&self) -> (s: String)
        ensures
            s@ == match self {
                Output::Stdout => "stdout"@,
                Output::Stderr => "stderr"@,
                Output::File(path) => path@,
            },
    {
        match self {
            Output::Stdout => String::from_str("stdout"),
            Output::Stderr => String::from_str("stderr"),
            Output::File(path) => path.clone(),
        }
    }
}

/// Options of the log output.
#[derive(Debug, Clone)]
pub struct TracingOptions {
    /// Also report to the Tracy profiler.
    pub tracy_layer: bool,
    /// Also stream events to the live dashboard.
    pub oculus_layer: bool,
    /// Capture span traces for errors.
    pub error_layer: bool,
    pub output: Output,
    /// The least severe level written by default.
    pub log_level: Level,
    /// Show line numbers.
    pub lines: bool,
    /// Show file names.
    pub file: bool,
    /// Multi-line output rather than one line per event.
    pub pretty_print: bool,
    /// Colored output.
    pub color: bool,
    /// Also report entering and leaving spans.
    pub enter_span_events: bool,
}

impl Default for TracingOptions {
    /// Standard output, warnings and above, error capture on, everything else off.
    fn default() -> (o: Self)
        ensures
            o.output == Output::Stdout,
            !o.tracy_layer,
            !o.oculus_layer,
            o.error_layer,
            o.log_level == Level::WARN,
            !o.lines,
            !o.file,
            !o.pretty_print,
            !o.color,
            !o.enter_span_events,
    {
        TracingOptions {
            output: Output::Stdout,
            tracy_layer: false,
            oculus_layer: false,
            error_layer: true,
            log_level: Level::WARN,
            lines: false,
            file: false,
            pretty_print: false,
            color: false,
            enter_span_events: false,
        }
    }
}

/// The directives that quiet noisy networking crates, after the level.
pub open spec fn quiet_crates_text() -> Seq<char> {
    ",smol=warn,async_io=warn,polling=warn,tokio_tungstenite=warn,tungstenite=warn,reqwest=info,hyper_util=info"@
}

/// The default filter: `level` for everything, with the networking crates held back.
pub fn default_filter_directives(level: Level) -> (s: String)
    ensures
        s@ == level_text(level) + quiet_crates_text(),
{
    let mut s = level.to_string();
    s.append(
        ",smol=warn,async_io=warn,polling=warn,tokio_tungstenite=warn,tungstenite=warn,reqwest=info,hyper_util=info",
    );
    s
}

/// The filter to use when the environment sets none: the given one if any, else the default
/// filter for the options' level.
pub fn filter_directives(args: &TracingOptions, env_filter_str: Option<String>) -> (s: String)
    ensures
        s@ == match env_filter_str {
            Some(f) => f@,
            None => level_text(args.log_level) + quiet_crates_text(),
        },
{
    match env_filter_str {
        Some(f) => f,
        None => default_filter_directives(args.log_level),
    }
}

} // verus!
