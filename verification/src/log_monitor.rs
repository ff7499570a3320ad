//! Messages that a port session emits.

use vstd::prelude::*;

verus! {

/// One complete line read from a connection.
#[derive(Debug, PartialEq, Clone)]
pub struct Log {
    /// Name of the connection that the line came from.
    pub source_name: String,
    /// The line, without its trailing terminator and white space.
    pub message: String,
    /// Local time at which the line was framed, as `chrono` displays it.
    pub timestamp: String,
}

/// What a session hands to the consumer.
#[derive(Debug, PartialEq, Clone)]
pub enum MonitorMessage {
    /// A complete line.
    Log(Log),
    /// Text that sat in the buffer without a terminator until the port fell
    /// silent.
    UnsolictedMessage(String),
}

/// A log record as plain text.
pub struct LogView {
    pub source_name: Seq<char>,
    pub message: Seq<char>,
    pub timestamp: Seq<char>,
}

/// A message as plain text.
pub enum MonitorMessageView {
    Log(LogView),
    UnsolictedMessage(Seq<char>),
}

impl View for Log {
    type V = LogView;

    open spec fn view(&self) -> LogView {
        LogView {
            source_name: self.source_name@,
            message: self.message@,
            timestamp: self.timestamp@,
        }
    }
}

impl View for MonitorMessage {
    type V = MonitorMessageView;

    open spec fn view(&self) -> MonitorMessageView {
        match self {
            MonitorMessage::Log(log) => MonitorMessageView::Log(log@),
            MonitorMessage::UnsolictedMessage(text) => MonitorMessageView::UnsolictedMessage(text@),
        }
    }
}

/// Reads the local clock with `chrono::Local::now` and renders the instant
/// with its `Display`. Nothing is claimed of the text: it depends on the clock
/// and the time zone of the machine. `Local::now` gives up on a clock that
/// stands before 1970.
#[verifier::external_body]
pub(crate) fn capture_timestamp() -> (stamp: String) {
    chrono::Local::now().to_string()
}

} // verus!
