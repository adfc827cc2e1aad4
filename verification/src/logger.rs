//! Lines of the log.

use crate::text::{cat2, cat3, cat5, join_texts};
use crate::text;
use vstd::prelude::*;

verus! {

/// How important a message is.
#[derive(Debug, Clone, Copy, PartialEq, Eq, PartialOrd, Ord, Structural)]
pub enum LogLevel {
    Debug,
    Info,
    Warn,
    Error,
}

impl LogLevel {
    /// The name of the level in a log line.
    pub open spec fn name(self) -> Seq<char> {
        match self {
            LogLevel::Debug => "DEBUG"@,
            LogLevel::Info => "INFO"@,
            LogLevel::Warn => "WARN"@,
            LogLevel::Error => "ERROR"@,
        }
    }

    /// The name of the level in a log line.
    pub fn label(&self) -> (text: String)
        ensures
            text@ == self.name(),
    {
        match self {
            LogLevel::Debug => "DEBUG".to_owned(),
            LogLevel::Info => "INFO".to_owned(),
            LogLevel::Warn => "WARN".to_owned(),
            LogLevel::Error => "ERROR".to_owned(),
        }
    }

    /// Whether messages of the level go to the error stream; all others go to
    /// the output stream.
    pub fn is_for_stderr(&self) -> (yes: bool)
        ensures
            yes == (*self == LogLevel::Error),
    {
        match self {
            LogLevel::Error => true,
            _ => false,
        }
    }
}

/// A message on its way to the log.
pub struct LogMessage {
    pub level: LogLevel,
    pub message: String,
    pub decorator: Vec<String>,
}

/// The line of a message that is written at the given time.
pub open spec fn line_of(
    time: Seq<char>,
    level: LogLevel,
    decorator: Seq<Seq<char>>,
    message: Seq<char>,
) -> Seq<char> {
    time + " | "@ + level.name() + " | "@ + (text::join(decorator, " - "@) + " | "@ + message)
}

impl LogMessage {
    /// The line of the message, written at the given time.
    pub fn line(&self, time: &str) -> (text: String)
        ensures
            text@ == line_of(time@, self.level, text::texts(self.decorator@), self.message@),
    {
        let decorators = join_texts(&self.decorator, " - ");
        let tail = cat3(&decorators, " | ", &self.message);
        cat5(time, " | ", &self.level.label(), " | ", &tail)
    }
}

/// What becomes of a message.
pub enum LogAction {
    /// It is handed to the log.
    Send(LogMessage),
    /// There is no log yet: the line goes to the error stream.
    Missed(String),
}

/// Logs a message. Without decorators the list of them is empty.
pub fn log(
    initialized: bool,
    message: &str,
    level: LogLevel,
    decorator: Option<Vec<String>>,
) -> (action: LogAction)
    ensures
        match action {
            LogAction::Send(sent) => initialized && sent.level == level && sent.message@ == message@
                && text::texts(sent.decorator@) == (match decorator {
                Some(list) => text::texts(list@),
                None => Seq::empty(),
            }),
            LogAction::Missed(line) => !initialized && line@ == "Logger not initialized! Missed log: "@
                + message@,
        },
{
    if initialized {
        let decorator = match decorator {
            Some(list) => list,
            None => Vec::new(),
        };
        let action = LogAction::Send(
            LogMessage { level, message: message.to_owned(), decorator },
        );
        action
    } else {
        LogAction::Missed(cat2("Logger not initialized! Missed log: ", message))
    }
}

/// A line of the log tells the time, the level, where it comes from, from the
/// outside in, and the message, in this order.
pub proof fn log_line_tells_when_and_where(
    time: Seq<char>,
    level: LogLevel,
    outer: Seq<char>,
    inner: Seq<char>,
    message: Seq<char>,
)
    ensures
        ({
            let name = match level {
                LogLevel::Debug => "DEBUG"@,
                LogLevel::Info => "INFO"@,
                LogLevel::Warn => "WARN"@,
                LogLevel::Error => "ERROR"@,
            };
            &&& line_of(time, level, seq![outer], message) == time + " | "@ + name + " | "@ + outer
                + " | "@ + message
            &&& line_of(time, level, seq![outer, inner], message) == time + " | "@ + name + " | "@
                + outer + " - "@ + inner + " | "@ + message
        }),
{
    text::pieces_are_joined_in_order(seq![outer], inner, " - "@);
    text::pieces_are_joined_in_order(Seq::empty(), outer, " - "@);
    assert(seq![outer].push(inner) =~= seq![outer, inner]);
    assert(line_of(time, level, seq![outer], message) =~= time + " | "@ + level.name() + " | "@
        + outer + " | "@ + message);
    assert(line_of(time, level, seq![outer, inner], message) =~= time + " | "@ + level.name()
        + " | "@ + outer + " - "@ + inner + " | "@ + message);
}

} // verus!
