//! The logging level chosen by the command-line flags.
use vstd::prelude::*;

verus! {

/// The most detailed kind of log record that is printed.
#[derive(Clone, Copy, PartialEq, Eq, Structural, Debug)]
pub enum LogLevel {
    Trace,
    Debug,
    Info,
    Warn,
}

/// `--trace` wins over `--debug`, which wins over `--verbose`; without any
/// of them only warnings and errors are logged.
pub fn log_level(trace: bool, debug: bool, verbose: bool) -> (l: LogLevel)
    ensures
        l == (if trace {
            LogLevel::Trace
        } else if debug {
            LogLevel::Debug
        } else if verbose {
            LogLevel::Info
        } else {
            LogLevel::Warn
        }),
{
    if trace {
        LogLevel::Trace
    } else if debug {
        LogLevel::Debug
    } else if verbose {
        LogLevel::Info
    } else {
        LogLevel::Warn
    }
}

} // verus!
