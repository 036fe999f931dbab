//! The application's run state and the log level that the console flags
//! select.
use vstd::prelude::*;

use crate::console::{ConsoleArguments, ConsoleResult};

verus! {

/// The levels of logging, from none to all.
#[derive(Debug, Clone, Copy, PartialEq, Eq, Structural)]
pub enum LogLevel {
    Off,
    Error,
    Warn,
    Info,
    Debug,
    Trace,
}

/// The level the flags select: development and trace log everything,
/// quiet nothing, verbose debug messages, else informational ones;
/// development wins over quiet, quiet over verbose, verbose over trace.
pub open spec fn level_of(development: bool, quiet: bool, verbose: bool, trace: bool) -> LogLevel {
    if development {
        LogLevel::Trace
    } else if quiet {
        LogLevel::Off
    } else if verbose {
        LogLevel::Debug
    } else if trace {
        LogLevel::Trace
    } else {
        LogLevel::Info
    }
}

/// Whether the application runs a command.
pub struct App {
    run: bool,
}

impl App {
    pub closed spec fn running(&self) -> bool {
        self.run
    }

    /// An application that runs nothing yet.
    pub fn new() -> (r: App)
        ensures
            !r.running(),
    {
        App { run: false }
    }

    /// The level of logging the flags select.
    pub fn filter_level(arg: &ConsoleArguments) -> (r: LogLevel)
        ensures
            r == level_of(arg.development, arg.quiet, arg.verbose, arg.trace),
    {
        if arg.development {
            LogLevel::Trace
        } else if arg.quiet {
            LogLevel::Off
        } else if arg.verbose {
            LogLevel::Debug
        } else if arg.trace {
            LogLevel::Trace
        } else {
            LogLevel::Info
        }
    }

    /// The level of logging that the flags of the command and the global
    /// flags select together: a flag set in either counts.
    pub fn compare_level(arg2: &ConsoleArguments, global: &ConsoleArguments) -> (r: LogLevel)
        ensures
            r == level_of(
                global.development || arg2.development,
                global.quiet || arg2.quiet,
                global.verbose || arg2.verbose,
                global.trace || arg2.trace,
            ),
    {
        let merged = ConsoleArguments {
            development: global.development || arg2.development,
            quiet: global.quiet || arg2.quiet,
            verbose: global.verbose || arg2.verbose,
            trace: global.trace || arg2.trace,
            config: match &global.config {
                Some(c) => Some(c.clone()),
                None => match &arg2.config {
                    Some(c) => Some(c.clone()),
                    None => None,
                },
            },
            allow_root: global.allow_root || arg2.allow_root,
        };
        Self::filter_level(&merged)
    }

    /// The filter directive that sets a level.
    pub fn filter_directive(level: LogLevel) -> (r: &'static str)
        ensures
            r@ == match level {
                LogLevel::Off => "off"@,
                LogLevel::Error => "error"@,
                LogLevel::Warn => "warn"@,
                LogLevel::Info => "info"@,
                LogLevel::Debug => "debug"@,
                LogLevel::Trace => "trace"@,
            },
    {
        match level {
            LogLevel::Off => "off",
            LogLevel::Error => "error",
            LogLevel::Warn => "warn",
            LogLevel::Info => "info",
            LogLevel::Debug => "debug",
            LogLevel::Trace => "trace",
        }
    }

    /// Begins a run: `Canceled` while another run is on, else the run is
    /// on and `None` lets it go ahead.
    pub fn begin_run(&mut self) -> (r: Option<ConsoleResult>)
        ensures
            old(self).running() ==> r == Some(ConsoleResult::Canceled) && final(self).running(),
            !old(self).running() ==> r is None && final(self).running(),
    {
        if self.run {
            return Some(ConsoleResult::Canceled);
        }
        self.run = true;
        None
    }

    /// Ends a run, however it ended.
    pub fn end_run(&mut self)
        ensures
            !final(self).running(),
    {
        self.run = false;
    }

    pub fn is_running(&self) -> (r: bool)
        ensures
            r == self.running(),
    {
        self.run
    }
}

} // verus!
