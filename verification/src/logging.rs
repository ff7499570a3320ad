//! The text that the log file and the terminal get for each message.

use crate::log_monitor::{LogView, MonitorMessage, MonitorMessageView};
use vstd::prelude::*;

verus! {

/// The line that records a log message: time, source and text.
pub open spec fn log_line(log: LogView) -> Seq<char> {
    ">> ["@ + log.timestamp + "] | "@ + log.source_name + ": "@ + log.message + "\r\n"@
}

/// What the log file gets for a message. Unsolicited text is marked and not
/// terminated.
pub open spec fn file_text(message: MonitorMessageView) -> Seq<char> {
    match message {
        MonitorMessageView::UnsolictedMessage(text) => ">>> "@ + text,
        MonitorMessageView::Log(log) => log_line(log),
    }
}

/// What the terminal gets for a message. Unsolicited text is echoed as it is,
/// without a line break; a log line that follows such text starts on a line
/// of its own.
pub open spec fn stdout_text(after_unsolicited: bool, message: MonitorMessageView) -> Seq<char> {
    match message {
        MonitorMessageView::UnsolictedMessage(text) => text,
        MonitorMessageView::Log(log) => if after_unsolicited {
            "\r\n"@ + log_line(log)
        } else {
            log_line(log)
        },
    }
}

/// Name of the log file of a run that started at `stamp`.
pub open spec fn log_file_name_of(stamp: Seq<char>) -> Seq<char> {
    "log_"@ + stamp + ".txt"@
}

/// How the start time is written in the name of the log file: year, month,
/// day, hour, minute and second.
pub const LOG_STAMP_FORMAT: &'static str = "%Y-%m-%d_%H-%M-%S";

/// Reads the local clock with `chrono::Local::now` and renders it with
/// `DateTime::format` as `LOG_STAMP_FORMAT` says. Nothing is claimed of the
/// text: it depends on the clock and the time zone of the machine.
/// `Local::now` gives up on a clock that stands before 1970.
#[verifier::external_body]
fn capture_file_stamp(format: &str) -> (stamp: String)
    requires
        format@ == LOG_STAMP_FORMAT@,
{
    chrono::Local::now().format(format).to_string()
}

/// Name of the log file of a run that started at `stamp`.
pub fn log_file_name(stamp: &str) -> (name: String)
    ensures
        name@ == log_file_name_of(stamp@),
{
    "log_".to_owned().concat(stamp).concat(".txt")
}

/// Name of the log file of a run that starts now.
pub fn new_log_file_name() -> (name: String)
    ensures
        exists|stamp: Seq<char>| name@ == log_file_name_of(stamp),
{
    let stamp = capture_file_stamp(LOG_STAMP_FORMAT);
    log_file_name(stamp.as_str())
}

/// The line that records a log message with these parts.
fn format_log_line(source_name: &str, message: &str, timestamp: &str) -> (line: String)
    ensures
        line@ == ">> ["@ + timestamp@ + "] | "@ + source_name@ + ": "@ + message@ + "\r\n"@,
{
    ">> [".to_owned().concat(timestamp).concat("] | ").concat(source_name).concat(": ").concat(
        message,
    ).concat("\r\n")
}

/// Formats messages for the log file and the terminal. It remembers whether
/// the terminal was last given unsolicited text.
pub struct Logger {
    last_msg_was_unsolicited: bool,
}

impl Logger {
    /// Whether the message last shown on the terminal was unsolicited text.
    pub closed spec fn after_unsolicited(&self) -> bool {
        self.last_msg_was_unsolicited
    }

    /// A formatter that has shown nothing yet.
    pub fn new() -> (logger: Logger)
        ensures
            !logger.after_unsolicited(),
    {
        Logger { last_msg_was_unsolicited: false }
    }

    /// The text to append to the log file for `msg`.
    pub fn log_monitor_message_to_file(&self, msg: &MonitorMessage) -> (text: String)
        ensures
            text@ == file_text(msg@),
    {
        match msg {
            MonitorMessage::UnsolictedMessage(msg) => ">>> ".to_owned().concat(msg.as_str()),
            MonitorMessage::Log(msg) => format_log_line(
                msg.source_name.as_str(),
                msg.message.as_str(),
                msg.timestamp.as_str(),
            ),
        }
    }

    /// The text to show on the terminal for `msg`.
    pub fn log_monitor_message_to_stdout(&mut self, msg: &MonitorMessage) -> (text: String)
        ensures
            text@ == stdout_text(old(self).after_unsolicited(), msg@),
            final(self).after_unsolicited() == (msg@ is UnsolictedMessage),
    {
        match msg {
            MonitorMessage::UnsolictedMessage(msg) => {
                self.last_msg_was_unsolicited = true;
                msg.clone()
            },
            MonitorMessage::Log(msg) => {
                let line = format_log_line(
                    msg.source_name.as_str(),
                    msg.message.as_str(),
                    msg.timestamp.as_str(),
                );
                let text = if self.last_msg_was_unsolicited {
                    "\r\n".to_owned().concat(line.as_str())
                } else {
                    line
                };
                self.last_msg_was_unsolicited = false;
                text
            },
        }
    }
}

} // verus!
