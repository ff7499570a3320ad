//! Command-line configuration and keyboard decisions.

use crate::data::SerialPortSettings;
use crate::logging::Logger;
use crate::serial_monitor::{SerialLogMonitor, SerialLogMonitorWriteProxy};
use crate::writer::{
    key_routed, names_after_insert, next_index, proxies_after_insert, Key, Routed, Writer,
};
use vstd::prelude::*;
use vstd::string::StrSliceExecFns;

verus! {

/// Device that is monitored when no port is named.
pub const DEFAULT_SERIAL_PORT: &'static str = "/dev/ttyUSB0";

/// Speed of a port that is named without one.
pub const DEFAULT_BAUD_RATE: u32 = 115_200;

/// Position of the first `':'` in `text`, or `text.len()` when it holds none.
pub open spec fn separator_index(text: Seq<char>) -> int
    decreases text.len(),
{
    if text.len() == 0 || text[0] == ':' {
        0
    } else {
        1 + separator_index(text.drop_first())
    }
}

/// The fields of `text`, which `':'` separates. There is always at least one.
pub open spec fn split_fields(text: Seq<char>) -> Seq<Seq<char>>
    decreases text.len(),
{
    let k = separator_index(text);
    if 0 <= k < text.len() {
        seq![text.subrange(0, k)] + split_fields(text.subrange(k + 1, text.len() as int))
    } else {
        seq![text]
    }
}

/// Whether `c` is one of the ten ASCII digits.
pub open spec fn is_digit(c: char) -> bool {
    '0' <= c <= '9'
}

/// The number that the digit `c` stands for.
pub open spec fn digit_value(c: char) -> nat {
    if is_digit(c) {
        (c as u32 - '0' as u32) as nat
    } else {
        0
    }
}

/// The number that a run of decimal digits writes.
pub open spec fn decimal_value(digits: Seq<char>) -> nat
    decreases digits.len(),
{
    if digits.len() == 0 {
        0
    } else {
        10 * decimal_value(digits.drop_last()) + digit_value(digits.last())
    }
}

/// `text` without one leading `'+'`.
pub open spec fn unsigned_digits(text: Seq<char>) -> Seq<char> {
    if text.len() > 0 && text[0] == '+' {
        text.drop_first()
    } else {
        text
    }
}

/// The speed that `text` writes: an optional `'+'`, then one or more decimal
/// digits whose value is positive and fits 32 bits. Anything else is no speed.
pub open spec fn baud_rate_of(text: Seq<char>) -> Option<u32> {
    let digits = unsigned_digits(text);
    if digits.len() > 0 && (forall|i: int| 0 <= i < digits.len() ==> is_digit(#[trigger] digits[i]))
        && 0 < decimal_value(digits) <= u32::MAX {
        Some(decimal_value(digits) as u32)
    } else {
        None
    }
}

/// What a port argument means: the path and speed it names, or the message
/// that rejects it.
pub open spec fn port_arg_outcome(text: Seq<char>) -> Result<(Seq<char>, u32), Seq<char>> {
    let fields = split_fields(text);
    if text.len() == 0 {
        Err("Empty port argument"@)
    } else if fields.len() == 1 {
        Ok((fields[0], DEFAULT_BAUD_RATE))
    } else if fields.len() != 2 {
        Err("Invalid port argument: "@ + text)
    } else {
        match baud_rate_of(fields[1]) {
            Some(rate) => Ok((fields[0], rate)),
            None => Err("Invalid baud rate: "@ + fields[1]),
        }
    }
}

/// `separator_index` is the least position of a `':'`.
pub proof fn lemma_separator_index(text: Seq<char>)
    ensures
        0 <= separator_index(text) <= text.len(),
        forall|j: int| 0 <= j < separator_index(text) ==> text[j] != ':',
        separator_index(text) < text.len() ==> text[separator_index(text)] == ':',
    decreases text.len(),
{
    if text.len() == 0 || text[0] == ':' {
    } else {
        let tail = text.drop_first();
        lemma_separator_index(tail);
        let k = separator_index(tail);
        assert forall|j: int| 0 <= j < k + 1 implies text[j] != ':' by {
            if j > 0 {
                assert(text[j] == tail[j - 1]);
            }
        }
        if k + 1 < text.len() {
            assert(text[k + 1] == tail[k]);
        }
    }
}

proof fn lemma_separator_index_is(text: Seq<char>, i: int)
    requires
        0 <= i <= text.len(),
        forall|j: int| 0 <= j < i ==> text[j] != ':',
        i < text.len() ==> text[i] == ':',
    ensures
        separator_index(text) == i,
{
    lemma_separator_index(text);
    let k = separator_index(text);
    if k < i {
        assert(text[k] != ':');
    } else if i < k {
        assert(text[i] != ':');
    }
}

/// A longer run of digits writes no smaller number than its beginning.
proof fn lemma_decimal_value_grows(digits: Seq<char>, n: int)
    requires
        0 <= n <= digits.len(),
    ensures
        decimal_value(digits.take(n)) <= decimal_value(digits),
    decreases digits.len() - n,
{
    if n == digits.len() {
        assert(digits.take(n) =~= digits);
    } else {
        lemma_decimal_value_grows(digits, n + 1);
        assert(digits.take(n + 1).drop_last() =~= digits.take(n));
    }
}

/// Position in `text` from `start` on of the first `':'`, or the length of
/// `text` when none follows.
fn find_separator(text: &str, start: usize) -> (at: usize)
    requires
        start <= text@.len(),
    ensures
        at == start + separator_index(text@.subrange(start as int, text@.len() as int)),
        start <= at <= text@.len(),
{
    let n = text.unicode_len();
    let mut i: usize = start;
    while i < n && text.get_char(i) != ':'
        invariant
            n == text@.len(),
            start <= i <= n,
            forall|j: int| start <= j < i ==> text@[j] != ':',
        decreases n - i,
    {
        i += 1;
    }
    proof {
        lemma_separator_index_is(text@.subrange(start as int, n as int), i - start);
    }
    i
}

/// Reads a speed: an optional `'+'` and decimal digits, positive and within
/// 32 bits.
pub fn parse_baud_rate(text: &str) -> (rate: Option<u32>)
    ensures
        rate == baud_rate_of(text@),
{
    let n = text.unicode_len();
    let start: usize = if n > 0 && text.get_char(0) == '+' { 1 } else { 0 };
    let ghost digits = unsigned_digits(text@);
    assert(digits =~= text@.subrange(start as int, n as int));
    if start == n {
        return None;
    }
    let mut value: u64 = 0;
    let mut i: usize = start;
    while i < n
        invariant
            n == text@.len(),
            start <= i <= n,
            start < n,
            digits == unsigned_digits(text@),
            digits == text@.subrange(start as int, n as int),
            forall|j: int| 0 <= j < i - start ==> is_digit(#[trigger] digits[j]),
            value == decimal_value(digits.take(i - start)),
            value <= u32::MAX,
        decreases n - i,
    {
        let c = text.get_char(i);
        assert(c == digits[i - start]);
        proof {
            assert(digits.take(i - start + 1).drop_last() =~= digits.take(i - start));
            lemma_decimal_value_grows(digits, i - start + 1);
        }
        if !('0' <= c && c <= '9') {
            assert(!is_digit(digits[i - start]));
            return None;
        }
        let d: u64 = (c as u32 - '0' as u32) as u64;
        value = value * 10 + d;
        if value > 0xffff_ffff {
            return None;
        }
        i += 1;
    }
    assert(digits.take(i - start) =~= digits);
    if value == 0 {
        None
    } else {
        Some(value as u32)
    }
}

/// Reads one port argument, `PATH` or `PATH:SPEED`. A port that is accepted
/// has a positive speed.
pub fn parse_port_arg(arg: &str) -> (res: Result<SerialPortSettings, String>)
    ensures
        match port_arg_outcome(arg@) {
            Ok((path, rate)) => res matches Ok(s) && s.path@ == path && s.baud_rate == rate,
            Err(message) => res matches Err(e) && e@ == message,
        },
        res matches Ok(s) ==> s.baud_rate > 0,
{
    let n = arg.unicode_len();
    if n == 0 {
        return Err("Empty port argument".to_owned());
    }
    let first = find_separator(arg, 0);
    assert(arg@.subrange(0, n as int) == arg@);
    proof {
        lemma_split_fields(arg@);
    }
    if first == n {
        return Ok(SerialPortSettings { path: arg.to_owned(), baud_rate: DEFAULT_BAUD_RATE });
    }
    let ghost rest = arg@.subrange(first + 1, n as int);
    let second = find_separator(arg, first + 1);
    proof {
        lemma_split_fields(rest);
    }
    if second < n {
        return Err("Invalid port argument: ".to_owned().concat(arg));
    }
    let path = arg.substring_char(0, first);
    let speed = arg.substring_char(first + 1, n);
    match parse_baud_rate(speed) {
        Some(rate) => Ok(SerialPortSettings { path: path.to_owned(), baud_rate: rate }),
        None => Err("Invalid baud rate: ".to_owned().concat(speed)),
    }
}

/// Text without a `':'` is one field; otherwise its first field ends at the
/// first `':'` and the fields of what follows come after it.
pub proof fn lemma_split_fields(text: Seq<char>)
    ensures
        split_fields(text).len() >= 1,
        split_fields(text)[0] == text.subrange(0, separator_index(text)),
        separator_index(text) == text.len() ==> split_fields(text) == seq![text],
        separator_index(text) < text.len() ==> split_fields(text).len() == 1 + split_fields(
            text.subrange(separator_index(text) + 1, text.len() as int),
        ).len() && split_fields(text)[1] == split_fields(
            text.subrange(separator_index(text) + 1, text.len() as int),
        )[0],
    decreases text.len(),
{
    lemma_separator_index(text);
    let k = separator_index(text);
    if 0 <= k < text.len() {
        lemma_split_fields(text.subrange(k + 1, text.len() as int));
    } else {
        assert(text.subrange(0, k) =~= text);
    }
}

/// Whether `res` is what the command line `args` configures. `args[0]` names
/// the program. Without further arguments the default port is monitored at
/// the default speed. Otherwise each argument names one port, in order, and
/// the first one that is rejected gives the error.
pub open spec fn is_configuration_of(
    args: Seq<String>,
    res: Result<Seq<SerialPortSettings>, Seq<char>>,
) -> bool {
    match res {
        Ok(settings) => if args.len() <= 1 {
            &&& settings.len() == 1
            &&& settings[0].path@ == DEFAULT_SERIAL_PORT@
            &&& settings[0].baud_rate == DEFAULT_BAUD_RATE
        } else {
            &&& settings.len() == args.len() - 1
            &&& forall|i: int|
                0 <= i < settings.len() ==> port_arg_outcome(args[i + 1]@) == Ok::<
                    (Seq<char>, u32),
                    Seq<char>,
                >(((#[trigger] settings[i]).path@, settings[i].baud_rate))
        },
        Err(message) => exists|k: int|
            {
                &&& 1 <= k < args.len()
                &&& port_arg_outcome((#[trigger] args[k])@) == Err::<(Seq<char>, u32), Seq<char>>(
                    message,
                )
                &&& forall|j: int| 1 <= j < k ==> port_arg_outcome((#[trigger] args[j])@) is Ok
            },
    }
}

/// The ports that the command line `args` names, or the message that rejects
/// the first bad argument. There is at least one port, and each has a
/// positive speed.
pub fn get_port_configuration(args: &Vec<String>) -> (res: Result<Vec<SerialPortSettings>, String>)
    ensures
        is_configuration_of(
            args@,
            match res {
                Ok(settings) => Ok(settings@),
                Err(message) => Err(message@),
            },
        ),
        res matches Ok(settings) ==> settings@.len() >= 1 && forall|i: int|
            0 <= i < settings@.len() ==> (#[trigger] settings@[i]).baud_rate > 0,
{
    let mut settings: Vec<SerialPortSettings> = Vec::new();
    if args.len() <= 1 {
        settings.push(
            SerialPortSettings {
                path: DEFAULT_SERIAL_PORT.to_owned(),
                baud_rate: DEFAULT_BAUD_RATE,
            },
        );
        return Ok(settings);
    }
    let mut i: usize = 1;
    while i < args.len()
        invariant
            1 <= i <= args@.len(),
            settings@.len() == i - 1,
            forall|j: int|
                0 <= j < settings@.len() ==> port_arg_outcome(args@[j + 1]@) == Ok::<
                    (Seq<char>, u32),
                    Seq<char>,
                >(((#[trigger] settings@[j]).path@, settings@[j].baud_rate)),
            forall|j: int| 0 <= j < settings@.len() ==> (#[trigger] settings@[j]).baud_rate > 0,
        decreases args@.len() - i,
    {
        match parse_port_arg(args[i].as_str()) {
            Ok(s) => {
                settings.push(s);
            },
            Err(e) => {
                assert forall|j: int| 1 <= j < i implies port_arg_outcome(
                    (#[trigger] args@[j])@,
                ) is Ok by {
                    let earlier = settings@[j - 1];
                    assert(port_arg_outcome(args@[(j - 1) + 1]@) is Ok);
                }
                return Err(e);
            },
        }
        i += 1;
    }
    Ok(settings)
}

/// What the caller is to do after a key.
#[derive(Debug, Clone, Copy, PartialEq, Eq, Structural)]
pub enum CliAction {
    /// Stop every session and leave.
    Break,
}

/// The answer to one key.
#[derive(Debug, Clone, PartialEq, Eq)]
pub struct KeyOutcome {
    /// What the caller is to do next, if anything.
    pub action: Option<CliAction>,
    /// Text to show to the user.
    pub notice: Option<String>,
    /// What became of the key's byte.
    pub routed: Routed,
}

impl KeyOutcome {
    /// The characters of the notice, if there is one.
    pub open spec fn notice_text(&self) -> Option<Seq<char>> {
        match self.notice {
            Some(text) => Some(text@),
            None => None,
        }
    }
}

/// The key that is forwarded for `key`: a line feed goes out as a carriage
/// return, every other key as itself.
pub open spec fn forwarded_key(key: Key) -> Key {
    if key == Key::Char('\n') {
        Key::Char('\r')
    } else {
        key
    }
}

/// Whether `outcome` and the router `after` are the answer to `key` with the
/// router `before`. Ctrl-x asks to leave. Ctrl-z switches to the next
/// destination and says which it is, or that there is no other. Any other
/// key leaves the router as it is and is forwarded to the active
/// destination.
pub open spec fn key_press_handled(
    before: Writer,
    key: Key,
    after: Writer,
    outcome: KeyOutcome,
) -> bool {
    &&& after.names() == before.names()
    &&& after.proxies() == before.proxies()
    &&& if key == Key::Ctrl('x') {
        &&& after.active_index() == before.active_index()
        &&& outcome.action == Some(CliAction::Break)
        &&& outcome.notice_text() == Some("Exiting...\r\n"@)
        &&& outcome.routed == Routed::Nothing
    } else if key == Key::Ctrl('z') {
        &&& outcome.action is None
        &&& outcome.routed == Routed::Nothing
        &&& after.active_index() == next_index(before.names().len(), before.active_index())
        &&& outcome.notice_text() == Some(
            if before.names().len() > 1 {
                "Switching to "@ + after.active_name()->0 + "\r\n"@
            } else {
                "No other writer available\r\n"@
            },
        )
    } else {
        &&& after.active_index() == before.active_index()
        &&& outcome.action is None
        &&& outcome.notice is None
        &&& key_routed(before.active_index() is Some, forwarded_key(key), outcome.routed)
    }
}

/// The names that a router holds after the sessions `added` were registered
/// in order with `names` there before: each new name goes last, a name that
/// is there already keeps its place.
pub open spec fn registered(names: Seq<Seq<char>>, added: Seq<Seq<char>>) -> Seq<Seq<char>>
    decreases added.len(),
{
    if added.len() == 0 {
        names
    } else {
        names_after_insert(registered(names, added.drop_last()), added.last())
    }
}

/// The proxies that a router holds after sessions with the names `added` and
/// the proxies `added_proxies` were registered in order, with `names` and
/// `proxies` there before: each at the position of its name, a later proxy
/// for a name in place of an earlier one.
pub open spec fn registered_proxies(
    names: Seq<Seq<char>>,
    proxies: Seq<SerialLogMonitorWriteProxy>,
    added: Seq<Seq<char>>,
    added_proxies: Seq<SerialLogMonitorWriteProxy>,
) -> Seq<SerialLogMonitorWriteProxy>
    decreases added.len(),
{
    if added.len() == 0 {
        proxies
    } else {
        proxies_after_insert(
            registered(names, added.drop_last()),
            registered_proxies(names, proxies, added.drop_last(), added_proxies.drop_last()),
            added.last(),
            added_proxies.last(),
        )
    }
}

/// The monitor's front: the configured ports, the log formatter and the
/// keyboard router.
pub struct DrFishCli {
    pub port_configuration: Vec<SerialPortSettings>,
    pub logger: Logger,
    pub writer: Writer,
}

impl DrFishCli {
    /// The router is well formed.
    pub open spec fn wf(&self) -> bool {
        self.writer.wf()
    }

    /// Reads the configuration from the command line `args` and starts with
    /// no destination registered.
    pub fn new(args: &Vec<String>) -> (res: Result<DrFishCli, String>)
        ensures
            is_configuration_of(
                args@,
                match res {
                    Ok(cli) => Ok(cli.port_configuration@),
                    Err(message) => Err(message@),
                },
            ),
            res matches Ok(cli) ==> {
                &&& cli.wf()
                &&& cli.writer.names() == Seq::<Seq<char>>::empty()
                &&& cli.writer.proxies() == Seq::<SerialLogMonitorWriteProxy>::empty()
                &&& !cli.logger.after_unsolicited()
            },
    {
        let port_configuration = match get_port_configuration(args) {
            Ok(cfg) => cfg,
            Err(e) => {
                return Err(e);
            },
        };
        Ok(DrFishCli { port_configuration, logger: Logger::new(), writer: Writer::new() })
    }

    /// Registers the write proxy of each session with the router, in order
    /// and under the session's name. The first destination ever registered
    /// becomes the active one.
    pub fn spawn_monitors(&mut self, monitors: &Vec<SerialLogMonitor>)
        requires
            old(self).wf(),
        ensures
            final(self).wf(),
            final(self).port_configuration == old(self).port_configuration,
            final(self).logger == old(self).logger,
            final(self).writer.names() == registered(
                old(self).writer.names(),
                monitors@.map_values(|m: SerialLogMonitor| m.name()),
            ),
            final(self).writer.proxies() == registered_proxies(
                old(self).writer.names(),
                old(self).writer.proxies(),
                monitors@.map_values(|m: SerialLogMonitor| m.name()),
                monitors@.map_values(|m: SerialLogMonitor| m.write_proxy()),
            ),
            final(self).writer.active_index() == if old(self).writer.active_index() is None
                && monitors@.len() > 0 {
                Some(0int)
            } else {
                old(self).writer.active_index()
            },
    {
        let ghost added = monitors@.map_values(|m: SerialLogMonitor| m.name());
        let ghost handles = monitors@.map_values(|m: SerialLogMonitor| m.write_proxy());
        let mut i: usize = 0;
        assert(added.take(0) =~= Seq::<Seq<char>>::empty());
        while i < monitors.len()
            invariant
                i <= monitors@.len(),
                added == monitors@.map_values(|m: SerialLogMonitor| m.name()),
                handles == monitors@.map_values(|m: SerialLogMonitor| m.write_proxy()),
                self.writer.wf(),
                self.port_configuration == old(self).port_configuration,
                self.logger == old(self).logger,
                self.writer.names() == registered(old(self).writer.names(), added.take(i as int)),
                self.writer.proxies() == registered_proxies(
                    old(self).writer.names(),
                    old(self).writer.proxies(),
                    added.take(i as int),
                    handles.take(i as int),
                ),
                self.writer.active_index() == if old(self).writer.active_index() is None && i > 0 {
                    Some(0int)
                } else {
                    old(self).writer.active_index()
                },
            decreases monitors@.len() - i,
        {
            let monitor = &monitors[i];
            self.writer.add_write_proxy(monitor.get_common_name(), monitor.get_write_proxy());
            i += 1;
            assert(added.take(i as int).drop_last() =~= added.take(i - 1));
            assert(added.take(i as int).last() == monitors@[i - 1].name());
            assert(handles.take(i as int).drop_last() =~= handles.take(i - 1));
            assert(handles.take(i as int).last() == monitors@[i - 1].write_proxy());
        }
        assert(added.take(i as int) =~= added);
        assert(handles.take(i as int) =~= handles);
    }

    /// Name of the destination that the keyboard feeds, if there is one.
    pub fn get_current_writer_name(&self) -> (name: Option<String>)
        requires
            self.wf(),
        ensures
            name is Some <==> self.writer.active_name() is Some,
            name is Some ==> name->0@ == self.writer.active_name()->0,
    {
        self.writer.get_current_writer_name()
    }

    /// Answers one key.
    pub fn handle_key_press(&mut self, key: Key) -> (outcome: KeyOutcome)
        requires
            old(self).wf(),
        ensures
            final(self).wf(),
            final(self).port_configuration == old(self).port_configuration,
            final(self).logger == old(self).logger,
            key_press_handled(old(self).writer, key, final(self).writer, outcome),
    {
        match key {
            Key::Ctrl(c) => {
                if c == 'x' {
                    KeyOutcome {
                        action: Some(CliAction::Break),
                        notice: Some("Exiting...\r\n".to_owned()),
                        routed: Routed::Nothing,
                    }
                } else if c == 'z' {
                    let notice = match self.writer.switch_to_next_writer() {
                        Some(name) => "Switching to ".to_owned().concat(name.as_str()).concat(
                            "\r\n",
                        ),
                        None => "No other writer available\r\n".to_owned(),
                    };
                    KeyOutcome { action: None, notice: Some(notice), routed: Routed::Nothing }
                } else {
                    KeyOutcome { action: None, notice: None, routed: self.writer.write_key(key) }
                }
            },
            Key::Char(c) => {
                let routed = if c == '\n' {
                    self.writer.write_key(Key::Char('\r'))
                } else {
                    self.writer.write_key(key)
                };
                KeyOutcome { action: None, notice: None, routed }
            },
            Key::Other => KeyOutcome { action: None, notice: None, routed: Routed::Nothing },
        }
    }
}

} // verus!
