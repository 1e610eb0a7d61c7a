//! Log lines: which are written, and what they look like.

use vstd::prelude::*;

verus! {

/// How grave a log line is.
#[derive(Debug, Clone, Copy, PartialEq, Eq, Structural)]
pub enum LogLevel {
    Error,
    Warn,
    Info,
    Debug,
    Trace,
}

/// The sign in front of a line of the level.
pub open spec fn icon_of(level: LogLevel) -> Seq<char> {
    match level {
        LogLevel::Error => "\u{201a}\u{f9}\u{e5}"@,
        LogLevel::Warn => "\u{201a}\u{f6}\u{2020}\u{d4}\u{220f}\u{e8}"@,
        LogLevel::Info => "\u{201a}\u{d1}\u{3c0}\u{d4}\u{220f}\u{e8}"@,
        LogLevel::Debug => "\u{f8ff}\u{fc}\u{ee}\u{e7}"@,
        LogLevel::Trace => "\u{f8ff}\u{fc}\u{ec}\u{f9}"@,
    }
}

/// The escape sequence that colours a line of the level.
pub open spec fn color_of(level: LogLevel) -> Seq<char> {
    match level {
        LogLevel::Error => "\x1b[31m"@,
        LogLevel::Warn => "\x1b[33m"@,
        LogLevel::Info => "\x1b[36m"@,
        LogLevel::Debug => "\x1b[35m"@,
        LogLevel::Trace => "\x1b[90m"@,
    }
}

/// The name of the level.
pub open spec fn name_of(level: LogLevel) -> Seq<char> {
    match level {
        LogLevel::Error => "Error"@,
        LogLevel::Warn => "Warn"@,
        LogLevel::Info => "Info"@,
        LogLevel::Debug => "Debug"@,
        LogLevel::Trace => "Trace"@,
    }
}

impl LogLevel {
    /// The sign in front of a line of the level.
    pub fn icon(&self) -> (s: &'static str)
        ensures
            s@ == icon_of(*self),
    {
        match self {
            LogLevel::Error => "\u{201a}\u{f9}\u{e5}",
            LogLevel::Warn => "\u{201a}\u{f6}\u{2020}\u{d4}\u{220f}\u{e8}",
            LogLevel::Info => "\u{201a}\u{d1}\u{3c0}\u{d4}\u{220f}\u{e8}",
            LogLevel::Debug => "\u{f8ff}\u{fc}\u{ee}\u{e7}",
            LogLevel::Trace => "\u{f8ff}\u{fc}\u{ec}\u{f9}",
        }
    }

    /// The escape sequence that colours a line of the level.
    pub fn color_code(&self) -> (s: &'static str)
        ensures
            s@ == color_of(*self),
    {
        match self {
            LogLevel::Error => "\x1b[31m",
            LogLevel::Warn => "\x1b[33m",
            LogLevel::Info => "\x1b[36m",
            LogLevel::Debug => "\x1b[35m",
            LogLevel::Trace => "\x1b[90m",
        }
    }

    /// The name of the level.
    pub fn name(&self) -> (s: &'static str)
        ensures
            s@ == name_of(*self),
    {
        match self {
            LogLevel::Error => "Error",
            LogLevel::Warn => "Warn",
            LogLevel::Info => "Info",
            LogLevel::Debug => "Debug",
            LogLevel::Trace => "Trace",
        }
    }
}

/// Whether the fine-grained levels are written too.
pub struct LogConfig {
    pub verbose: bool,
}

impl LogConfig {
    /// A configuration that writes no fine-grained lines.
    pub fn new() -> (c: LogConfig)
        ensures
            !c.verbose,
    {
        LogConfig { verbose: false }
    }
}

/// Switches the fine-grained levels on or off.
pub fn set_verbose(config: &mut LogConfig, enabled: bool)
    ensures
        final(config).verbose == enabled,
{
    config.verbose = enabled;
}

/// Whether the fine-grained levels are written.
pub fn is_verbose(config: &LogConfig) -> (b: bool)
    ensures
        b == config.verbose,
{
    config.verbose
}

/// A line of the level is written: always, but for the fine-grained levels,
/// which need the verbose mode.
pub open spec fn is_written(verbose: bool, level: LogLevel) -> bool {
    verbose || !(level == LogLevel::Debug || level == LogLevel::Trace)
}

/// The escape sequence that ends the colour.
pub open spec fn reset_code() -> Seq<char> {
    "\x1b[0m"@
}

/// What every line begins with: colour, time, icon, level and module, and
/// the message.
pub open spec fn line_head(
    level: LogLevel,
    timestamp: Seq<char>,
    module: Seq<char>,
    message: Seq<char>,
) -> Seq<char> {
    color_of(level) + "["@ + timestamp + "] "@ + icon_of(level) + " ["@ + name_of(level) + "] ["@
        + module + "] "@ + message
}

/// The text of a line. An error, where there is one, is shown and the
/// context is not; else the context, where there is one.
pub open spec fn line_text(
    level: LogLevel,
    timestamp: Seq<char>,
    module: Seq<char>,
    message: Seq<char>,
    context: Option<Seq<char>>,
    error: Option<Seq<char>>,
) -> Seq<char> {
    let head = line_head(level, timestamp, module, message);
    if error is Some {
        head + " | error: "@ + error->Some_0 + reset_code()
    } else if context is Some {
        head + " | "@ + context->Some_0 + reset_code()
    } else {
        head + reset_code()
    }
}

/// A line ready to be written.
#[derive(Debug)]
pub struct LogLine {
    /// The line goes to the error stream.
    pub to_stderr: bool,
    pub text: String,
}

/// The view of an optional text.
pub open spec fn text_of(s: Option<&str>) -> Option<Seq<char>> {
    match s {
        Some(t) => Some(t@),
        None => None,
    }
}

/// The line for an event, or nothing where the level is not written.
/// `context` is the context as JSON text. A line with an error goes to the
/// error stream.
pub fn log_internal(
    config: &LogConfig,
    level: LogLevel,
    timestamp: &str,
    module: &str,
    message: &str,
    context: Option<&str>,
    error: Option<&str>,
) -> (line: Option<LogLine>)
    ensures
        line is Some <==> is_written(config.verbose, level),
        line is Some ==> line->Some_0.to_stderr == (error is Some) && line->Some_0.text@
            == line_text(level, timestamp@, module@, message@, text_of(context), text_of(error)),
{
    let fine = match level {
        LogLevel::Debug => true,
        LogLevel::Trace => true,
        _ => false,
    };
    if !is_verbose(config) && fine {
        return None;
    }
    let mut text = String::from_str(level.color_code());
    text.append("[");
    text.append(timestamp);
    text.append("] ");
    text.append(level.icon());
    text.append(" [");
    text.append(level.name());
    text.append("] [");
    text.append(module);
    text.append("] ");
    text.append(message);
    assert(text@ =~= line_head(level, timestamp@, module@, message@));
    let to_stderr = match error {
        Some(err) => {
            text.append(" | error: ");
            text.append(err);
            true
        },
        None => {
            match context {
                Some(ctx) => {
                    text.append(" | ");
                    text.append(ctx);
                },
                None => {},
            }
            false
        },
    };
    text.append("\x1b[0m");
    assert(text@ =~= line_text(
        level,
        timestamp@,
        module@,
        message@,
        text_of(context),
        text_of(error),
    ));
    Some(LogLine { to_stderr, text })
}

} // verus!
