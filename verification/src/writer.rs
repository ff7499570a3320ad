//! Routing of keyboard bytes to one of several sessions.

use crate::serial_monitor::SerialLogMonitorWriteProxy;
use indexmap::IndexMap;
use vstd::prelude::*;

verus! {

/// `indexmap::IndexMap`, a hash map that keeps its entries in the order of
/// insertion. Its inside is not looked at.
#[verifier::external_type_specification]
#[verifier::external_body]
#[verifier::reject_recursive_types(K)]
#[verifier::reject_recursive_types(V)]
#[verifier::reject_recursive_types(S)]
pub struct ExIndexMap<K, V, S>(IndexMap<K, V, S>);

/// The names under which a routing table holds its proxies, in the order in
/// which they were first added.
pub uninterp spec fn proxy_names(table: IndexMap<String, SerialLogMonitorWriteProxy>) -> Seq<
    Seq<char>,
>;

/// The proxies that a routing table holds, each at the position of its name.
pub uninterp spec fn proxy_values(table: IndexMap<String, SerialLogMonitorWriteProxy>) -> Seq<
    SerialLogMonitorWriteProxy,
>;

/// The names of a table after an insertion under `name`: a name that is there
/// keeps its place, a new name goes last.
pub open spec fn names_after_insert(names: Seq<Seq<char>>, name: Seq<char>) -> Seq<Seq<char>> {
    if names.contains(name) {
        names
    } else {
        names.push(name)
    }
}

/// The proxies of a table after `proxy` was inserted under `name`: where the
/// name is there, `proxy` stands at its position and the others stay; a new
/// name's proxy goes last.
pub open spec fn proxies_after_insert(
    names: Seq<Seq<char>>,
    proxies: Seq<SerialLogMonitorWriteProxy>,
    name: Seq<char>,
    proxy: SerialLogMonitorWriteProxy,
) -> Seq<SerialLogMonitorWriteProxy> {
    if names.contains(name) {
        Seq::new(
            proxies.len(),
            |i: int|
                if names[i] == name {
                    proxy
                } else {
                    proxies[i]
                },
        )
    } else {
        proxies.push(proxy)
    }
}

/// The upper-case form that `char::to_uppercase` yields first for `c`.
pub uninterp spec fn uppercase_head(c: char) -> char;

/// An empty table, from `IndexMap::new`.
#[verifier::external_body]
fn table_new() -> (table: IndexMap<String, SerialLogMonitorWriteProxy>)
    ensures
        proxy_names(table) == Seq::<Seq<char>>::empty(),
        proxy_values(table) == Seq::<SerialLogMonitorWriteProxy>::empty(),
{
    IndexMap::new()
}

/// `IndexMap::insert`: a name that the table holds keeps its place and gets
/// the new proxy, and every other entry stays; a new name goes last with its
/// proxy.
#[verifier::external_body]
fn table_insert(
    table: &mut IndexMap<String, SerialLogMonitorWriteProxy>,
    name: String,
    proxy: SerialLogMonitorWriteProxy,
)
    ensures
        proxy_names(*final(table)) == names_after_insert(proxy_names(*old(table)), name@),
        proxy_values(*final(table)) == proxies_after_insert(
            proxy_names(*old(table)),
            proxy_values(*old(table)),
            name@,
            proxy,
        ),
{
    table.insert(name, proxy);
}

/// `IndexMap::len`: the number of entries, each a name with its proxy.
#[verifier::external_body]
fn table_len(table: &IndexMap<String, SerialLogMonitorWriteProxy>) -> (n: usize)
    ensures
        n == proxy_names(*table).len(),
        n == proxy_values(*table).len(),
{
    table.len()
}

/// `IndexMap::get_index`: the name and the proxy at a position within the
/// table, nothing beyond its end.
#[verifier::external_body]
fn table_entry_at(table: &IndexMap<String, SerialLogMonitorWriteProxy>, index: usize) -> (entry:
    Option<(&String, &SerialLogMonitorWriteProxy)>)
    ensures
        entry is Some <==> index < proxy_names(*table).len(),
        entry matches Some(found) ==> found.0@ == proxy_names(*table)[index as int],
        entry matches Some(found) ==> *found.1 == proxy_values(*table)[index as int],
{
    table.get_index(index)
}

/// First character that `char::to_uppercase` yields for `c`. There always is
/// one: the mapping of a character is one or more characters.
#[verifier::external_body]
fn upper_first(c: char) -> (u: Option<char>)
    ensures
        u == Some(uppercase_head(c)),
{
    c.to_uppercase().next()
}

/// A key event, as far as routing tells keys apart.
#[derive(Debug, Clone, Copy, PartialEq, Eq, Structural)]
pub enum Key {
    /// A character key.
    Char(char),
    /// A character key pressed with Ctrl.
    Ctrl(char),
    /// Any other key.
    Other,
}

/// What became of a key that was handed to the router.
#[derive(Debug, Clone, Copy, PartialEq, Eq, Structural)]
pub enum Routed {
    /// No byte was sent: no destination is active, or the key has no byte.
    Nothing,
    /// The active session's queue took the byte.
    Delivered(u8),
    /// The byte was offered and lost: the active session no longer listens.
    Refused(u8),
}

/// The low eight bits of the capital of `c`. An ASCII letter has its ASCII
/// capital, any other ASCII character is its own; beyond ASCII the capital is
/// what `char::to_uppercase` yields first.
pub open spec fn capital_low_byte(c: char) -> u32 {
    if 'a' <= c <= 'z' {
        (c as u32 - 32) as u32
    } else if (c as u32) < 128 {
        c as u32
    } else {
        uppercase_head(c) as u32 % 256
    }
}

/// The byte that a key stands for. A character gives the low eight bits of
/// its code. Ctrl with a character gives the control code of its capital, 64
/// below the capital's low eight bits, where those are at least 64. Other
/// keys have no byte.
pub open spec fn key_byte(key: Key) -> Option<u8> {
    match key {
        Key::Char(c) => Some((c as u32 % 256) as u8),
        Key::Ctrl(c) => {
            let low = capital_low_byte(c);
            if low >= 64 {
                Some((low - 64) as u8)
            } else {
                None
            }
        },
        Key::Other => None,
    }
}

/// Whether `routed` reports what routing `key` does: with a destination and
/// a byte for the key, that byte was offered and either taken or refused;
/// otherwise nothing was sent.
pub open spec fn key_routed(has_destination: bool, key: Key, routed: Routed) -> bool {
    match key_byte(key) {
        Some(byte) => byte_routed(has_destination, byte, routed),
        None => routed == Routed::Nothing,
    }
}

/// Whether `routed` reports what routing `byte` does: with a destination the
/// byte was offered and either taken or refused; without one nothing was
/// sent.
pub open spec fn byte_routed(has_destination: bool, byte: u8, routed: Routed) -> bool {
    if has_destination {
        routed == Routed::Delivered(byte) || routed == Routed::Refused(byte)
    } else {
        routed == Routed::Nothing
    }
}

/// What became of `byte` once it was offered to a destination that took it
/// or did not.
pub fn offered(byte: u8, taken: bool) -> (routed: Routed)
    ensures
        routed == if taken {
            Routed::Delivered(byte)
        } else {
            Routed::Refused(byte)
        },
{
    if taken {
        Routed::Delivered(byte)
    } else {
        Routed::Refused(byte)
    }
}

/// Computes `key_byte`.
pub fn byte_of_key(key: Key) -> (byte: Option<u8>)
    ensures
        byte == key_byte(key),
{
    match key {
        Key::Char(c) => Some((c as u32 % 256) as u8),
        Key::Ctrl(c) => {
            let low: u32 = if 'a' <= c && c <= 'z' {
                c as u32 - 32
            } else if (c as u32) < 128 {
                c as u32
            } else {
                match upper_first(c) {
                    Some(capital) => capital as u32 % 256,
                    None => c as u32 % 256,
                }
            };
            if low >= 64 {
                Some((low - 64) as u8)
            } else {
                None
            }
        },
        Key::Other => None,
    }
}

/// The active position after one switch among `count` destinations: the next
/// one, the first after the last. With fewer than two destinations it stays.
pub open spec fn next_index(count: nat, active: Option<int>) -> Option<int> {
    match active {
        Some(index) => if count > 1 {
            Some((index + 1) % (count as int))
        } else {
            active
        },
        None => None,
    }
}

/// The active position after `times` switches in a row.
pub open spec fn switched_times(count: nat, active: Option<int>, times: nat) -> Option<int>
    decreases times,
{
    if times == 0 {
        active
    } else {
        next_index(count, switched_times(count, active, (times - 1) as nat))
    }
}

/// With fewer than two destinations, switching any number of times changes
/// nothing.
pub proof fn lemma_switching_alone(count: nat, active: Option<int>, times: nat)
    requires
        count <= 1,
    ensures
        switched_times(count, active, times) == active,
    decreases times,
{
    if times > 0 {
        lemma_switching_alone(count, active, (times - 1) as nat);
    }
}

/// With two or more destinations, switching goes through them in the order
/// of registration and round again: `times` switches lead from `start` to the
/// position `times` further on, counted round the table.
pub proof fn lemma_switching_advances(count: nat, start: int, times: nat)
    requires
        count >= 2,
        0 <= start < count,
    ensures
        switched_times(count, Some(start), times) == Some((start + times) % (count as int)),
    decreases times,
{
    if times == 0 {
        vstd::arithmetic::div_mod::lemma_small_mod(start as nat, count);
    } else {
        lemma_switching_advances(count, start, (times - 1) as nat);
        vstd::arithmetic::div_mod::lemma_add_mod_noop(start + times - 1, 1, count as int);
        vstd::arithmetic::div_mod::lemma_small_mod(1, count);
    }
}

/// With two or more destinations, as many switches as there are destinations
/// lead back to where they began.
pub proof fn lemma_switching_cycles(count: nat, start: int)
    requires
        count >= 2,
        0 <= start < count,
    ensures
        switched_times(count, Some(start), count) == Some(start),
{
    lemma_switching_advances(count, start, count);
    vstd::arithmetic::div_mod::lemma_mod_add_multiples_vanish(start, count as int);
    vstd::arithmetic::div_mod::lemma_small_mod(start as nat, count);
}

/// The routing table: one write proxy per session under the session's name,
/// in the order of registration, and the position of the active one.
pub struct Writer {
    write_proxies: IndexMap<String, SerialLogMonitorWriteProxy>,
    current_writer_index: Option<usize>,
}

impl Writer {
    /// Names of the destinations, in the order of registration.
    pub closed spec fn names(&self) -> Seq<Seq<char>> {
        proxy_names(self.write_proxies)
    }

    /// Position in `names` of the active destination.
    pub closed spec fn active_index(&self) -> Option<int> {
        match self.current_writer_index {
            Some(index) => Some(index as int),
            None => None,
        }
    }

    /// Proxies of the destinations, each at the position of its name.
    pub closed spec fn proxies(&self) -> Seq<SerialLogMonitorWriteProxy> {
        proxy_values(self.write_proxies)
    }

    /// No name occurs twice, every name has its proxy, and a destination is
    /// active exactly when there is one: the active position then lies
    /// within the table.
    pub open spec fn wf(&self) -> bool {
        &&& self.names().no_duplicates()
        &&& self.proxies().len() == self.names().len()
        &&& self.active_index() is None <==> self.names().len() == 0
        &&& self.active_index() matches Some(index) ==> 0 <= index < self.names().len()
    }

    /// Name of the active destination.
    pub open spec fn active_name(&self) -> Option<Seq<char>> {
        match self.active_index() {
            Some(index) => Some(self.names()[index]),
            None => None,
        }
    }

    /// Proxy of the active destination: the one that routed bytes are
    /// offered to.
    pub open spec fn active_proxy(&self) -> Option<SerialLogMonitorWriteProxy> {
        match self.active_index() {
            Some(index) => Some(self.proxies()[index]),
            None => None,
        }
    }

    /// A destination is active exactly when one is registered.
    pub proof fn lemma_active_name(&self)
        requires
            self.wf(),
        ensures
            self.active_name() is Some <==> self.names().len() > 0,
            self.active_name() matches Some(name) ==> self.names().contains(name),
    {
    }

    /// A router without destinations.
    pub fn new() -> (writer: Writer)
        ensures
            writer.wf(),
            writer.names() == Seq::<Seq<char>>::empty(),
            writer.proxies() == Seq::<SerialLogMonitorWriteProxy>::empty(),
            writer.active_index() is None,
    {
        Writer { write_proxies: table_new(), current_writer_index: None }
    }

    /// Registers a destination. The first one becomes active; later ones
    /// leave the active destination as it is. A new name goes last with its
    /// proxy. A name that is registered already keeps its place and gets the
    /// new proxy. Every other name keeps its place and its proxy.
    pub fn add_write_proxy(&mut self, common_name: String, write_proxy: SerialLogMonitorWriteProxy)
        requires
            old(self).wf(),
        ensures
            final(self).wf(),
            final(self).names() == names_after_insert(old(self).names(), common_name@),
            final(self).proxies() == proxies_after_insert(
                old(self).names(),
                old(self).proxies(),
                common_name@,
                write_proxy,
            ),
            final(self).active_index() == if old(self).active_index() is None {
                Some(0int)
            } else {
                old(self).active_index()
            },
    {
        if self.current_writer_index.is_none() {
            self.current_writer_index = Some(0);
        }
        table_insert(&mut self.write_proxies, common_name, write_proxy);
    }

    /// Name of the active destination, if there is one.
    pub fn get_current_writer_name(&self) -> (name: Option<String>)
        requires
            self.wf(),
        ensures
            name is Some <==> self.active_name() is Some,
            name is Some ==> name->0@ == self.active_name()->0,
    {
        match self.current_writer_index {
            Some(index) => match table_entry_at(&self.write_proxies, index) {
                Some((name, _)) => Some(name.clone()),
                None => None,
            },
            None => None,
        }
    }

    /// Makes the next destination in the order of registration the active
    /// one, the first after the last, and returns its name. With fewer than
    /// two destinations nothing changes and nothing is returned. The names
    /// and the proxy of each stay as they are.
    pub fn switch_to_next_writer(&mut self) -> (name: Option<String>)
        requires
            old(self).wf(),
        ensures
            final(self).wf(),
            final(self).names() == old(self).names(),
            final(self).proxies() == old(self).proxies(),
            final(self).active_index() == next_index(
                old(self).names().len(),
                old(self).active_index(),
            ),
            old(self).names().len() <= 1 ==> name is None,
            old(self).names().len() > 1 ==> {
                &&& name is Some
                &&& name->0@ == final(self).active_name()->0
            },
    {
        let count = table_len(&self.write_proxies);
        if count <= 1 {
            return None;
        }
        self.current_writer_index = match self.current_writer_index {
            Some(index) => {
                if index + 1 < count {
                    assert((index + 1) % (count as int) == index + 1) by {
                        vstd::arithmetic::div_mod::lemma_small_mod((index + 1) as nat, count as nat);
                    }
                    Some(index + 1)
                } else {
                    assert((index + 1) % (count as int) == 0) by {
                        vstd::arithmetic::div_mod::lemma_mod_self_0(count as int);
                    }
                    Some(0)
                }
            },
            None => None,
        };
        self.get_current_writer_name()
    }

    /// Sends the byte of `key` to the active destination, through
    /// `active_proxy`. Nothing is sent when no destination is active or the
    /// key has no byte.
    pub fn write_key(&self, key: Key) -> (routed: Routed)
        requires
            self.wf(),
        ensures
            key_routed(self.active_index() is Some, key, routed),
    {
        match byte_of_key(key) {
            Some(byte) => self.route(byte),
            None => Routed::Nothing,
        }
    }

    /// Offers one byte to the active destination, through `active_proxy`.
    /// Nothing is sent when no destination is active.
    pub fn route(&self, byte: u8) -> (routed: Routed)
        requires
            self.wf(),
        ensures
            byte_routed(self.active_index() is Some, byte, routed),
    {
        let current_writer = match self.get_current_writer() {
            Some(writer) => writer,
            None => {
                return Routed::Nothing;
            },
        };
        offered(byte, current_writer.send(byte))
    }

    /// The proxy of the active destination, if there is one.
    fn get_current_writer(&self) -> (proxy: Option<&SerialLogMonitorWriteProxy>)
        requires
            self.wf(),
        ensures
            proxy is Some <==> self.active_proxy() is Some,
            proxy matches Some(found) ==> *found == self.active_proxy()->0,
    {
        match self.current_writer_index {
            Some(index) => match table_entry_at(&self.write_proxies, index) {
                Some((_, write_proxy)) => Some(write_proxy),
                None => None,
            },
            None => None,
        }
    }
}

} // verus!
