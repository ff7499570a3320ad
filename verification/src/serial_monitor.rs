//! The decisions of one port session: what to emit and what to write for each
//! thing that happens on its connection.

use crate::data::SerialPortSettings;
use crate::log_monitor::{capture_timestamp, Log, LogView, MonitorMessage, MonitorMessageView};
use crate::read_line::{
    decode_lossy, decodes_to, drain_lines, has_line, lines_of, lossy_text, remainder_of,
};
use vstd::utf8::{decode_utf8, valid_utf8};
use vstd::string::StrSliceExecFns;
use tokio::sync::mpsc::UnboundedSender;
use vstd::prelude::*;
use vstd::slice::slice_subrange;

verus! {

/// Size of the scratch buffer that a raw read fills.
pub const DEFAULT_BUFFER_SIZE: usize = 128;

/// Milliseconds of silence after which an unfinished line is flushed.
pub const BUFFER_COMPLETION_TIMEOUT: u64 = 50;

/// Milliseconds that one operation on the port may take.
pub const IO_TIMEOUT: u64 = 10;

/// `tokio::sync::mpsc::UnboundedSender`, the sending half of an unbounded
/// channel. Its inside is not looked at.
#[verifier::external_type_specification]
#[verifier::external_body]
#[verifier::reject_recursive_types(T)]
pub struct ExUnboundedSender<T>(UnboundedSender<T>);

/// White space: the characters with the Unicode property of that name.
pub open spec fn is_white_space(c: char) -> bool {
    let u = c as u32;
    ||| 0x09 <= u <= 0x0d
    ||| u == 0x20
    ||| u == 0x85
    ||| u == 0xa0
    ||| u == 0x1680
    ||| 0x2000 <= u <= 0x200a
    ||| u == 0x2028
    ||| u == 0x2029
    ||| u == 0x202f
    ||| u == 0x205f
    ||| u == 0x3000
}

/// `text` without its trailing white space.
pub open spec fn trim_end(text: Seq<char>) -> Seq<char>
    decreases text.len(),
{
    if text.len() > 0 && is_white_space(text.last()) {
        trim_end(text.drop_last())
    } else {
        text
    }
}

/// Whether `c` is white space.
pub fn is_white_space_char(c: char) -> (res: bool)
    ensures
        res == is_white_space(c),
{
    let u: u32 = c as u32;
    (0x09 <= u && u <= 0x0d) || u == 0x20 || u == 0x85 || u == 0xa0 || u == 0x1680 || (0x2000 <= u
        && u <= 0x200a) || u == 0x2028 || u == 0x2029 || u == 0x202f || u == 0x205f || u == 0x3000
}

/// `text` without its trailing white space.
pub fn trim_trailing_white_space<'a>(text: &'a str) -> (res: &'a str)
    ensures
        res@ == trim_end(text@),
{
    let n = text.unicode_len();
    let mut end: usize = n;
    assert(text@.subrange(0, n as int) =~= text@);
    while end > 0 && is_white_space_char(text.get_char(end - 1))
        invariant
            n == text@.len(),
            end <= n,
            trim_end(text@) == trim_end(text@.subrange(0, end as int)),
        decreases end,
    {
        assert(text@.subrange(0, end as int).drop_last() =~= text@.subrange(0, end - 1));
        end -= 1;
    }
    text.substring_char(0, end)
}

/// Queues a byte with `UnboundedSender::send`, which never waits. The result
/// tells whether the channel took it; it refuses once its receiver is gone.
#[verifier::external_body]
fn offer_byte(sender: &UnboundedSender<u8>, data: u8) -> (taken: bool) {
    sender.send(data).is_ok()
}

/// Makes another handle with `UnboundedSender::clone`. The new handle holds
/// what `sender` holds, a reference to the same channel, so that
/// `same_channel` is true of the two: in contracts it is the same sender.
#[verifier::external_body]
fn share_sender(sender: &UnboundedSender<u8>) -> (other: UnboundedSender<u8>)
    ensures
        other == *sender,
{
    sender.clone()
}

/// Handle through which bytes are queued for one session to write.
pub struct SerialLogMonitorWriteProxy {
    write_sender: UnboundedSender<u8>,
}

impl SerialLogMonitorWriteProxy {
    /// The sender through which the proxy queues its bytes.
    pub closed spec fn sender(&self) -> UnboundedSender<u8> {
        self.write_sender
    }

    /// A proxy that queues through `write_sender`.
    pub fn new(write_sender: UnboundedSender<u8>) -> (proxy: SerialLogMonitorWriteProxy)
        ensures
            proxy.sender() == write_sender,
    {
        SerialLogMonitorWriteProxy { write_sender }
    }

    /// Queues one byte for the session without waiting. Returns whether the
    /// session's queue took it.
    pub fn send(&self, data: u8) -> (taken: bool) {
        offer_byte(&self.write_sender, data)
    }
}

/// Where a session stands. Only `Running` is ever left.
#[derive(Debug, Clone, Copy, PartialEq, Eq, Structural)]
pub enum SessionState {
    Running,
    Cancelled,
    Failed,
}

/// What a session does, chosen when it is made.
#[derive(Debug, Clone, Copy, PartialEq, Eq, Structural)]
pub struct SessionConfig {
    /// Whether bytes from the outbound queue are written to the port. A
    /// session that only reads drops them.
    pub bidirectional: bool,
    /// Milliseconds of silence after which an unfinished line is flushed as
    /// unsolicited text, or nothing where such text is never flushed.
    pub inactivity_timeout: Option<u64>,
}

impl Default for SessionConfig {
    /// A session that reads and writes and flushes after
    /// `BUFFER_COMPLETION_TIMEOUT` milliseconds of silence.
    fn default() -> (config: SessionConfig)
        ensures
            config == (SessionConfig {
                bidirectional: true,
                inactivity_timeout: Some(BUFFER_COMPLETION_TIMEOUT),
            }),
    {
        SessionConfig { bidirectional: true, inactivity_timeout: Some(BUFFER_COMPLETION_TIMEOUT) }
    }
}

/// How one bounded wait for input ended.
#[derive(Debug, Clone, Copy, PartialEq, Eq, Structural)]
pub enum ReadOutcome {
    /// The read filled this many bytes at the start of the scratch buffer.
    Data(usize),
    /// Nothing arrived before the inactivity timeout.
    TimedOut,
    /// The read failed.
    Failed,
}

/// One thing that a session waits for.
#[derive(Debug, Clone, Copy, PartialEq, Eq, Structural)]
pub enum MonitorEvent {
    /// The shared cancellation signal fired.
    Cancelled,
    /// The outbound queue handed over a byte, or reported itself closed.
    WriteRequest(Option<u8>),
    /// A write to the port failed.
    WriteFailed,
    /// The bounded read ended.
    Read(ReadOutcome),
}

/// What a session asks for in answer to one event.
#[derive(Debug, Clone, PartialEq)]
pub struct MonitorStep {
    /// Messages for the consumer, in order.
    pub messages: Vec<MonitorMessage>,
    /// Byte to write to the port.
    pub write: Option<u8>,
}

/// Whether `message` is the log message that the framed `line` becomes in
/// the session `name`: under that name, the line decoded permissively and
/// without its trailing terminator and white space. A line of well-formed
/// UTF-8 is its decoded string without them.
pub open spec fn log_of_line(name: Seq<char>, line: Seq<u8>, message: MonitorMessageView) -> bool {
    &&& message matches MonitorMessageView::Log(log)
    &&& message->Log_0.source_name == name
    &&& message->Log_0.message == trim_end(lossy_text(line))
    &&& valid_utf8(line) ==> message->Log_0.message == trim_end(decode_utf8(line))
}

/// Whether `message` is the unsolicited message that the waiting `bytes`
/// leave as: their permissive decoding, which for well-formed UTF-8 is the
/// decoded string itself.
pub open spec fn unsolicited_of(bytes: Seq<u8>, message: MonitorMessageView) -> bool {
    &&& message matches MonitorMessageView::UnsolictedMessage(text)
    &&& decodes_to(bytes, message->UnsolictedMessage_0)
}

/// The log message for a framed and decoded `line` of the session
/// `source_name`, captured at `timestamp`: the line without its trailing
/// terminator and white space, under the session's name and with that time.
pub fn log_message(source_name: String, line: &str, timestamp: String) -> (message: MonitorMessage)
    ensures
        message@ == MonitorMessageView::Log(
            LogView { source_name: source_name@, message: trim_end(line@), timestamp: timestamp@ },
        ),
{
    MonitorMessage::Log(
        Log { source_name, message: trim_trailing_white_space(line).to_owned(), timestamp },
    )
}

/// One port session, as far as its decisions go: the connection's settings,
/// the bytes not yet assembled into a line, and the handle that feeds its
/// outbound queue. The connection itself stays with whoever drives the
/// session.
pub struct SerialLogMonitor {
    port_settings: SerialPortSettings,
    write_sender: UnboundedSender<u8>,
    process_buffer: Vec<u8>,
    state: SessionState,
    failed_writes: u64,
    config: SessionConfig,
}

impl SerialLogMonitor {
    /// Name of the session: the path of its port.
    pub closed spec fn name(&self) -> Seq<char> {
        self.port_settings.path@
    }

    /// Bytes received and not yet emitted.
    pub closed spec fn buffered(&self) -> Seq<u8> {
        self.process_buffer@
    }

    /// Where the session stands.
    pub closed spec fn session_state(&self) -> SessionState {
        self.state
    }

    /// What the session was made to do.
    pub closed spec fn configuration(&self) -> SessionConfig {
        self.config
    }

    /// The sending half of the session's outbound queue.
    pub closed spec fn outbound(&self) -> UnboundedSender<u8> {
        self.write_sender
    }

    /// The proxy of this session: the one that queues through `outbound`.
    pub closed spec fn write_proxy(&self) -> SerialLogMonitorWriteProxy {
        SerialLogMonitorWriteProxy { write_sender: self.write_sender }
    }

    /// Number of writes that failed, up to the largest that 64 bits hold.
    pub closed spec fn write_failures(&self) -> nat {
        self.failed_writes as nat
    }

    /// Between events the buffer never holds a complete line.
    pub open spec fn wf(&self) -> bool {
        !has_line(self.buffered())
    }

    /// A running session on the port that `port_settings` names, with an
    /// empty buffer and the default configuration. `write_sender` is the
    /// sending half of its outbound queue.
    pub fn new(port_settings: SerialPortSettings, write_sender: UnboundedSender<u8>) -> (monitor:
        SerialLogMonitor)
        ensures
            monitor.wf(),
            monitor.name() == port_settings.path@,
            monitor.buffered() == Seq::<u8>::empty(),
            monitor.session_state() == SessionState::Running,
            monitor.write_failures() == 0,
            monitor.configuration() == (SessionConfig {
                bidirectional: true,
                inactivity_timeout: Some(BUFFER_COMPLETION_TIMEOUT),
            }),
            monitor.outbound() == write_sender,
    {
        SerialLogMonitor::with_config(port_settings, write_sender, SessionConfig::default())
    }

    /// A running session with an empty buffer that does what `config` says.
    pub fn with_config(
        port_settings: SerialPortSettings,
        write_sender: UnboundedSender<u8>,
        config: SessionConfig,
    ) -> (monitor: SerialLogMonitor)
        ensures
            monitor.wf(),
            monitor.name() == port_settings.path@,
            monitor.buffered() == Seq::<u8>::empty(),
            monitor.session_state() == SessionState::Running,
            monitor.write_failures() == 0,
            monitor.configuration() == config,
            monitor.outbound() == write_sender,
    {
        SerialLogMonitor {
            port_settings,
            write_sender,
            process_buffer: Vec::new(),
            state: SessionState::Running,
            failed_writes: 0,
            config,
        }
    }

    /// What the session was made to do.
    pub fn get_config(&self) -> (config: SessionConfig)
        ensures
            config == self.configuration(),
    {
        self.config
    }

    /// A new proxy for this session: it queues through the sender of the
    /// session's own outbound queue.
    pub fn get_write_proxy(&self) -> (proxy: SerialLogMonitorWriteProxy)
        ensures
            proxy == self.write_proxy(),
            proxy.sender() == self.outbound(),
    {
        SerialLogMonitorWriteProxy::new(share_sender(&self.write_sender))
    }

    /// Name of the session: the path of its port.
    pub fn get_common_name(&self) -> (name: String)
        ensures
            name@ == self.name(),
    {
        self.port_settings.path.clone()
    }

    /// Where the session stands.
    pub fn get_state(&self) -> (state: SessionState)
        ensures
            state == self.session_state(),
    {
        self.state
    }

    /// Number of writes to the port that failed.
    pub fn get_write_failures(&self) -> (count: u64)
        ensures
            count == self.write_failures(),
    {
        self.failed_writes
    }

    /// The bytes that wait in the buffer for their terminator.
    pub fn get_buffered(&self) -> (bytes: Vec<u8>)
        ensures
            bytes@ == self.buffered(),
    {
        self.process_buffer.clone()
    }

    /// The byte to write for a request from the outbound queue: the byte
    /// itself, or nothing when the queue reported itself closed or the
    /// session only reads.
    pub fn handle_write_request(&self, data: Option<u8>) -> (write: Option<u8>)
        ensures
            write == write_for(self.configuration(), data),
    {
        if self.config.bidirectional {
            data
        } else {
            None
        }
    }

    /// The port fell silent. Bytes that wait without a terminator leave as
    /// one unsolicited message and the buffer is emptied; an empty buffer
    /// gives no message. A session that never flushes keeps its buffer and
    /// gives no message.
    pub fn handle_read_timeout(&mut self) -> (message: Option<MonitorMessage>)
        requires
            old(self).wf(),
        ensures
            final(self).wf(),
            final(self).name() == old(self).name(),
            final(self).session_state() == old(self).session_state(),
            final(self).write_failures() == old(self).write_failures(),
            final(self).configuration() == old(self).configuration(),
            final(self).outbound() == old(self).outbound(),
            flushes(*old(self)) ==> {
                &&& final(self).buffered() == Seq::<u8>::empty()
                &&& message is Some
                &&& unsolicited_of(old(self).buffered(), message->0@)
            },
            !flushes(*old(self)) ==> final(self).buffered() == old(self).buffered()
                && message is None,
    {
        if self.config.inactivity_timeout.is_none() {
            return None;
        }
        if self.process_buffer.len() == 0 {
            assert(self.process_buffer@ =~= Seq::<u8>::empty());
            return None;
        }
        let text = decode_lossy(self.process_buffer.as_slice());
        self.process_buffer.clear();
        Some(MonitorMessage::UnsolictedMessage(text))
    }

    /// The first `n` bytes of `recv` arrived. They join the buffer, and every
    /// line that is now complete leaves as one log message, in order, under
    /// this session's name and without its trailing terminator and white
    /// space. What follows
    /// the last terminator stays in the buffer.
    pub fn handle_incomming_data(&mut self, recv: &[u8], n: usize) -> (messages: Vec<
        MonitorMessage,
    >)
        requires
            old(self).wf(),
            n <= recv@.len(),
        ensures
            final(self).wf(),
            final(self).name() == old(self).name(),
            final(self).session_state() == old(self).session_state(),
            final(self).write_failures() == old(self).write_failures(),
            final(self).configuration() == old(self).configuration(),
            final(self).outbound() == old(self).outbound(),
            final(self).buffered() == remainder_of(
                old(self).buffered() + recv@.subrange(0, n as int),
            ),
            messages@.len() == lines_of(old(self).buffered() + recv@.subrange(0, n as int)).len(),
            forall|i: int|
                0 <= i < messages@.len() ==> log_of_line(
                    old(self).name(),
                    lines_of(old(self).buffered() + recv@.subrange(0, n as int))[i],
                    #[trigger] messages@[i]@,
                ),
    {
        let ghost all = self.process_buffer@ + recv@.subrange(0, n as int);
        let mut messages: Vec<MonitorMessage> = Vec::new();
        if n == 0 {
            assert(all =~= self.process_buffer@);
            return messages;
        }
        self.process_buffer.extend_from_slice(slice_subrange(recv, 0, n));
        assert(self.process_buffer@ =~= all);
        let lines = drain_lines(&mut self.process_buffer);
        let mut i: usize = 0;
        while i < lines.len()
            invariant
                i <= lines@.len(),
                lines@.len() == lines_of(all).len(),
                forall|j: int|
                    0 <= j < lines@.len() ==> decodes_to(
                        lines_of(all)[j],
                        (#[trigger] lines@[j])@,
                    ),
                messages@.len() == i,
                forall|j: int|
                    0 <= j < i ==> log_of_line(
                        old(self).name(),
                        lines_of(all)[j],
                        #[trigger] messages@[j]@,
                    ),
                self.port_settings == old(self).port_settings,
            decreases lines@.len() - i,
        {
            let ghost sent = messages@;
            let message = log_message(
                self.get_common_name(),
                lines[i].as_str(),
                capture_timestamp(),
            );
            messages.push(message);
            assert forall|j: int| 0 <= j < i + 1 implies log_of_line(
                old(self).name(),
                lines_of(all)[j],
                #[trigger] messages@[j]@,
            ) by {
                if j < i {
                    assert(messages@[j] == sent[j]);
                }
            }
            i += 1;
        }
        messages
    }

    /// A bounded read ended. Bytes are framed into log messages, silence
    /// flushes an unfinished line, and a failed read ends the session: it
    /// emits nothing and is `Failed` from then on.
    pub fn handle_read_result(&mut self, read_result: ReadOutcome, recv: &[u8]) -> (messages: Vec<
        MonitorMessage,
    >)
        requires
            old(self).wf(),
            read_result matches ReadOutcome::Data(n) ==> n <= recv@.len(),
        ensures
            final(self).wf(),
            final(self).name() == old(self).name(),
            final(self).write_failures() == old(self).write_failures(),
            final(self).configuration() == old(self).configuration(),
            final(self).outbound() == old(self).outbound(),
            read_outcome_applied(*old(self), read_result, recv@, *final(self), messages@),
    {
        match read_result {
            ReadOutcome::Data(n) => self.handle_incomming_data(recv, n),
            ReadOutcome::TimedOut => {
                let mut messages: Vec<MonitorMessage> = Vec::new();
                match self.handle_read_timeout() {
                    Some(message) => {
                        messages.push(message);
                    },
                    None => {},
                }
                messages
            },
            ReadOutcome::Failed => {
                self.state = SessionState::Failed;
                Vec::new()
            },
        }
    }

    /// One turn of the session: the answer to the one event that won the
    /// wait. A session that has stopped answers nothing and stays as it is.
    /// Cancellation stops a running session. A byte from the outbound queue is
    /// to be written. A failed write is counted and the session goes on. A
    /// read is handled by `handle_read_result`.
    pub fn monitor(&mut self, event: MonitorEvent, recv: &[u8]) -> (step: MonitorStep)
        requires
            old(self).wf(),
            event matches MonitorEvent::Read(ReadOutcome::Data(n)) ==> n <= recv@.len(),
        ensures
            final(self).wf(),
            final(self).name() == old(self).name(),
            final(self).configuration() == old(self).configuration(),
            final(self).outbound() == old(self).outbound(),
            old(self).session_state() != SessionState::Running ==> {
                &&& *final(self) == *old(self)
                &&& step.messages@.len() == 0
                &&& step.write is None
            },
            old(self).session_state() == SessionState::Running ==> match event {
                MonitorEvent::Cancelled => {
                    &&& final(self).session_state() == SessionState::Cancelled
                    &&& final(self).buffered() == old(self).buffered()
                    &&& final(self).write_failures() == old(self).write_failures()
                    &&& step.messages@.len() == 0
                    &&& step.write is None
                },
                MonitorEvent::WriteRequest(data) => {
                    &&& final(self).session_state() == SessionState::Running
                    &&& final(self).buffered() == old(self).buffered()
                    &&& final(self).write_failures() == old(self).write_failures()
                    &&& step.messages@.len() == 0
                    &&& step.write == write_for(old(self).configuration(), data)
                },
                MonitorEvent::WriteFailed => {
                    &&& final(self).session_state() == SessionState::Running
                    &&& final(self).buffered() == old(self).buffered()
                    &&& final(self).write_failures() == if old(self).write_failures()
                        < u64::MAX {
                        old(self).write_failures() + 1
                    } else {
                        old(self).write_failures()
                    }
                    &&& step.messages@.len() == 0
                    &&& step.write is None
                },
                MonitorEvent::Read(read_result) => {
                    &&& final(self).write_failures() == old(self).write_failures()
                    &&& read_outcome_applied(
                        *old(self),
                        read_result,
                        recv@,
                        *final(self),
                        step.messages@,
                    )
                    &&& step.write is None
                },
            },
    {
        let mut step = MonitorStep { messages: Vec::new(), write: None };
        match self.state {
            SessionState::Running => {},
            _ => {
                return step;
            },
        }
        match event {
            MonitorEvent::Cancelled => {
                self.state = SessionState::Cancelled;
            },
            MonitorEvent::WriteRequest(data) => {
                step.write = self.handle_write_request(data);
            },
            MonitorEvent::WriteFailed => {
                if self.failed_writes < u64::MAX {
                    self.failed_writes = self.failed_writes + 1;
                }
            },
            MonitorEvent::Read(read_result) => {
                step.messages = self.handle_read_result(read_result, recv);
            },
        }
        step
    }
}

/// The byte that a session with `config` writes for a request from its
/// outbound queue.
pub open spec fn write_for(config: SessionConfig, data: Option<u8>) -> Option<u8> {
    if config.bidirectional {
        data
    } else {
        None
    }
}

/// Whether silence makes `session` flush: it is made to flush, and bytes wait
/// in its buffer.
pub open spec fn flushes(session: SerialLogMonitor) -> bool {
    session.configuration().inactivity_timeout is Some && session.buffered().len() > 0
}

/// What a read does to a session: `after` and `messages` are what `before`
/// becomes and emits when a bounded read ends as `read_result` with its bytes
/// at the start of `recv`.
pub open spec fn read_outcome_applied(
    before: SerialLogMonitor,
    read_result: ReadOutcome,
    recv: Seq<u8>,
    after: SerialLogMonitor,
    messages: Seq<MonitorMessage>,
) -> bool {
    match read_result {
        ReadOutcome::Data(n) => {
            let all = before.buffered() + recv.subrange(0, n as int);
            &&& after.session_state() == before.session_state()
            &&& after.buffered() == remainder_of(all)
            &&& messages.len() == lines_of(all).len()
            &&& forall|i: int|
                0 <= i < messages.len() ==> log_of_line(
                    before.name(),
                    lines_of(all)[i],
                    #[trigger] messages[i]@,
                )
        },
        ReadOutcome::TimedOut => {
            &&& after.session_state() == before.session_state()
            &&& if flushes(before) {
                &&& after.buffered() == Seq::<u8>::empty()
                &&& messages.len() == 1
                &&& unsolicited_of(before.buffered(), messages[0]@)
            } else {
                &&& after.buffered() == before.buffered()
                &&& messages.len() == 0
            }
        },
        ReadOutcome::Failed => {
            &&& after.session_state() == SessionState::Failed
            &&& after.buffered() == before.buffered()
            &&& messages.len() == 0
        },
    }
}

} // verus!
