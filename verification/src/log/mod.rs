//! A simple logger with six log levels. A message is rendered as the text
//! that shall appear on the console: a counter or the time, the level, the
//! origin of the message and the message itself, wrapped at the width of
//! the terminal.

pub mod logger;

use crate::log::logger::console;
use crate::log::logger::console::{Size, Time};
use vstd::prelude::*;

verus! {

/// Describes the log level.
#[derive(Clone, Copy, PartialEq, Eq, Debug, Hash, Structural)]
pub enum LogLevel {
    Trace,
    Debug,
    Info,
    Warn,
    Error,
    Fatal,
}

impl LogLevel {
    /// The number of the level: zero for the least severe one.
    pub open spec fn spec_as_u8(&self) -> u8 {
        match self {
            LogLevel::Trace => 0,
            LogLevel::Debug => 1,
            LogLevel::Info => 2,
            LogLevel::Warn => 3,
            LogLevel::Error => 4,
            LogLevel::Fatal => 5,
        }
    }

    /// Returns the number of the level.
    pub fn as_u8(&self) -> (value: u8)
        ensures
            value == self.spec_as_u8(),
    {
        match self {
            LogLevel::Trace => 0,
            LogLevel::Debug => 1,
            LogLevel::Info => 2,
            LogLevel::Warn => 3,
            LogLevel::Error => 4,
            LogLevel::Fatal => 5,
        }
    }
}

/// The state of the logging of a process: the current log level and the
/// logger, which is set at most once.
pub struct Log {
    log_level: u8,
    logger: Option<console::Logger>,
}

impl Log {
    /// The current log level.
    pub closed spec fn spec_log_level(&self) -> u8 {
        self.log_level
    }

    /// The logger, once it is set.
    pub closed spec fn spec_logger(&self) -> Option<console::Logger> {
        self.logger
    }

    /// Creates the state in which every message is logged and no logger
    /// is set.
    pub fn new() -> (log: Self)
        ensures
            log.spec_log_level() == LogLevel::Trace.spec_as_u8(),
            log.spec_logger().is_none(),
    {
        Log { log_level: 0, logger: None }
    }
}

/// Sets the current log level.
pub fn set_log_level(log: &mut Log, v: LogLevel)
    ensures
        final(log).spec_log_level() == v.spec_as_u8(),
        final(log).spec_logger() == old(log).spec_logger(),
{
    log.log_level = v.as_u8();
}

/// Returns the current log level.
pub fn get_log_level(log: &Log) -> (level: u8)
    ensures
        level == log.spec_log_level(),
{
    log.log_level
}

/// Sets the logger. It can be set only once: when a logger is set already
/// the call returns false and changes nothing.
pub fn set_logger(log: &mut Log, value: console::Logger) -> (set: bool)
    ensures
        set == old(log).spec_logger().is_none(),
        set ==> final(log).spec_logger() == Some(value),
        !set ==> final(log).spec_logger() == old(log).spec_logger(),
        final(log).spec_log_level() == old(log).spec_log_level(),
{
    if log.logger.is_some() {
        return false;
    }
    log.logger = Some(value);
    true
}

/// Returns the logger. When none is set the console logger is set first.
pub fn get_logger(log: &mut Log) -> (logger: &mut console::Logger)
    ensures
        old(log).spec_logger().is_some() ==> *logger == old(log).spec_logger().unwrap(),
        old(log).spec_logger().is_none() ==> *logger == console::Logger::spec_new(),
        final(log).spec_logger() == Some(*final(logger)),
        final(log).spec_log_level() == old(log).spec_log_level(),
{
    if log.logger.is_none() {
        log.logger = Some(console::Logger::new());
    }
    match &mut log.logger {
        Some(logger) => logger,
        None => vstd::pervasive::unreached(),
    }
}

/// The logger of `log`, or the console logger when none is set.
pub open spec fn spec_current_logger(log: &Log) -> console::Logger {
    match log.spec_logger() {
        Some(logger) => logger,
        None => console::Logger::spec_new(),
    }
}

/// Renders a message that was logged at the given time with the logger of
/// `log` and returns the text for the console, which is empty when the
/// level of the message lies below the current log level. The lines are
/// wrapped at the width of the terminal.
pub fn __internal_print_log_msg(
    log: &mut Log,
    log_level: LogLevel,
    origin: &Vec<u8>,
    args: &Vec<u8>,
    time: Time,
) -> (text: Vec<u8>)
    ensures
        final(log).spec_log_level() == old(log).spec_log_level(),
        final(log).spec_logger().is_some(),
        final(log).spec_logger().unwrap().spec_counter() == spec_current_logger(
            old(log),
        ).spec_counter().wrapping_add(1),
        final(log).spec_logger().unwrap().spec_ordering_mode() == spec_current_logger(
            old(log),
        ).spec_ordering_mode(),
        old(log).spec_log_level() > log_level.spec_as_u8() ==> text@ == Seq::<u8>::empty(),
        old(log).spec_log_level() <= log_level.spec_as_u8() ==> exists|terminal: Size|
            text@ == #[trigger] console::Logger::spec_rendered(
                spec_current_logger(old(log)).spec_ordering_mode(),
                spec_current_logger(old(log)).spec_counter(),
                time,
                log_level,
                origin@,
                args@,
                terminal,
            ),
{
    let current: u8 = log.log_level;
    let terminal: Size = console::Logger::get_terminal_size();
    get_logger(log).log(current, log_level, origin, args, time, terminal)
}

} // verus!
