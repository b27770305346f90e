//! What is shown for an event, at which level, and where a line of a level goes.

use crate::error::ScanError;
use crate::probe::{ConnectionStatus, ScanResult};
use crate::target::endpoint_text;
use vstd::prelude::*;
use vstd::string::StringExecFns;

verus! {

/// The levels of a message.
pub struct VerbosityLevel;

impl VerbosityLevel {
    pub const INFO: u8 = 0;

    pub const WARN: u8 = 1;

    pub const ERROR: u8 = 2;

    pub const DEBUG: u8 = 3;
}

/// Messages above this level are not shown.
pub const VERBOSITY_LEVEL: u8 = VerbosityLevel::ERROR;

/// Where a line is written.
#[derive(Clone, Copy, Debug, PartialEq, Eq, Structural)]
pub enum Stream {
    Stdout,
    Stderr,
}

/// The colour of the prefix of a line.
#[derive(Clone, Copy, Debug, PartialEq, Eq, Structural)]
pub enum PrefixColor {
    White,
    Yellow,
    Red,
    Green,
}

/// How a message of some level is shown: the prefix before it, the colour of
/// the prefix, and the stream it goes to, if it is shown at all.
#[derive(Clone, Copy, Debug)]
pub struct TerminalLine {
    pub prefix: &'static str,
    pub color: PrefixColor,
    pub stream: Option<Stream>,
}

/// Whether `level` is one of the four levels.
pub open spec fn is_level(level: u8) -> bool {
    level <= VerbosityLevel::DEBUG
}

pub open spec fn prefix_of(level: u8) -> Seq<char> {
    if level == VerbosityLevel::INFO {
        "[INFO]"@
    } else if level == VerbosityLevel::WARN {
        "[WARN]"@
    } else if level == VerbosityLevel::ERROR {
        "[ERROR]"@
    } else {
        "[DEBUG]"@
    }
}

pub open spec fn color_of(level: u8) -> PrefixColor {
    if level == VerbosityLevel::INFO {
        PrefixColor::White
    } else if level == VerbosityLevel::WARN {
        PrefixColor::Yellow
    } else if level == VerbosityLevel::ERROR {
        PrefixColor::Red
    } else {
        PrefixColor::Green
    }
}

/// A level above `VERBOSITY_LEVEL` is not shown; of those that are, errors go
/// to the error stream and the others to the output stream.
pub open spec fn stream_of(level: u8) -> Option<Stream> {
    if level > VERBOSITY_LEVEL {
        None
    } else if level == VerbosityLevel::ERROR {
        Some(Stream::Stderr)
    } else {
        Some(Stream::Stdout)
    }
}

/// How a message of `level` is shown. A number that is no level is an
/// `InvalidVerbosityLevel`.
pub fn terminal_line(level: u8) -> (r: Result<TerminalLine, ScanError>)
    ensures
        is_level(level) ==> r is Ok,
        !is_level(level) ==> r == Err::<TerminalLine, ScanError>(
            ScanError::InvalidVerbosityLevel,
        ),
        r matches Ok(line) ==> line.prefix@ == prefix_of(level) && line.color == color_of(level)
            && line.stream == stream_of(level),
{
    let (prefix, color) = if level == VerbosityLevel::INFO {
        ("[INFO]", PrefixColor::White)
    } else if level == VerbosityLevel::WARN {
        ("[WARN]", PrefixColor::Yellow)
    } else if level == VerbosityLevel::ERROR {
        ("[ERROR]", PrefixColor::Red)
    } else if level == VerbosityLevel::DEBUG {
        ("[DEBUG]", PrefixColor::Green)
    } else {
        return Err(ScanError::InvalidVerbosityLevel);
    };
    let stream = if level > VERBOSITY_LEVEL {
        None
    } else if level == VerbosityLevel::ERROR {
        Some(Stream::Stderr)
    } else {
        Some(Stream::Stdout)
    };
    Ok(TerminalLine { prefix, color, stream })
}

/// A message and its level.
pub struct Message {
    pub text: String,
    pub level: u8,
}

/// The words for a status. Only an open and a refusing endpoint have words of
/// their own; every other status is shown as a timeout.
pub open spec fn status_words(status: ConnectionStatus) -> Seq<char> {
    match status {
        ConnectionStatus::Open => " - Open"@,
        ConnectionStatus::Refused => " - Refused"@,
        _ => " - Timeout"@,
    }
}

/// The level for a status: an open endpoint is information, a refusing one a
/// warning, every other an error.
pub open spec fn status_level(status: ConnectionStatus) -> u8 {
    match status {
        ConnectionStatus::Open => VerbosityLevel::INFO,
        ConnectionStatus::Refused => VerbosityLevel::WARN,
        _ => VerbosityLevel::ERROR,
    }
}

/// The message for a result: the endpoint, then the words for its status.
pub fn result_message(result: &ScanResult) -> (m: Message)
    ensures
        m.text@ == endpoint_text(result.endpoint) + status_words(result.status),
        m.level == status_level(result.status),
{
    let mut text = result.endpoint.endpoint();
    match result.status {
        ConnectionStatus::Open => {
            text.append(" - Open");
            Message { text, level: VerbosityLevel::INFO }
        },
        ConnectionStatus::Refused => {
            text.append(" - Refused");
            Message { text, level: VerbosityLevel::WARN }
        },
        _ => {
            text.append(" - Timeout");
            Message { text, level: VerbosityLevel::ERROR }
        },
    }
}

/// The message for a unit of work that did not run to its end, of which
/// `description` says what happened. It is an error.
pub fn failure_message(description: &str) -> (m: Message)
    ensures
        m.text@ == "An error has occured: "@ + description@,
        m.level == VerbosityLevel::ERROR,
{
    let mut text = String::new();
    text.append("An error has occured: ");
    text.append(description);
    assert(text@ =~= "An error has occured: "@ + description@);
    Message { text, level: VerbosityLevel::ERROR }
}

} // verus!
