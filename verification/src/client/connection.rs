//! The session with the Security Definition Server.
//!
//! A connection counts what it sends and checks what it receives. Packets
//! and messages are numbered separately, each from one. A number that is
//! not the expected one is reported and the count moves on from it: the
//! stream is taken to have lost something, and reading goes on.
//!
//! A session starts unconnected. Choosing a transport connects it, a logon
//! that is sent authenticates it, the first packet or message read makes
//! it streaming, and a logout that is sent, or the end of the stream,
//! closes it. Once it streams, a logon does not take it back.
//!
//! The connection does no input or output of its own. It says what is to
//! be done next, takes what was read or decoded, and hands out the messages
//! to send.
use crate::buf::behind;
use crate::fast::Message;
use crate::fix::{login_text, logout_text, message, request_text, HEARTBEAT_INTERVAL_SEC};
use crate::sync::packets::TCPPacket;
use crate::Error;
use vstd::prelude::*;
use vstd::string::StringSliceAdditionalSpecFns;

verus! {

/// Where a connection reads from.
#[derive(Clone, Copy, Debug)]
pub enum DataSource {
    /// A live connection, which is read from and written to.
    Tcp,
    /// A recorded stream, which is only read.
    File,
}

/// Where a session stands.
#[derive(Clone, Copy, Debug, PartialEq, Eq, Structural)]
pub enum Phase {
    /// No transport is chosen.
    Unconnected,
    /// A transport is chosen, and nothing was exchanged over it.
    Connected,
    /// The logon was sent.
    Authenticated,
    /// Packets or messages were read.
    Streaming,
    /// The logout was sent, or the stream has ended.
    Closed,
}

/// Where a session stands after its logon was sent: a connected session is
/// authenticated, and any other stays where it is.
pub open spec fn after_login(phase: Phase) -> Phase {
    match phase {
        Phase::Connected => Phase::Authenticated,
        _ => phase,
    }
}

/// Where a session stands after a packet or a message was read: it streams,
/// unless it never had a transport or is closed already.
pub open spec fn after_read(phase: Phase) -> Phase {
    match phase {
        Phase::Unconnected => Phase::Unconnected,
        Phase::Closed => Phase::Closed,
        _ => Phase::Streaming,
    }
}

/// Reading never authenticates, and once something was read a logon leaves
/// the session where it stands: there is no way back to authenticated.
pub proof fn lemma_no_way_back(phase: Phase)
    ensures
        after_read(phase) != Phase::Authenticated,
        after_login(after_read(phase)) == after_read(phase),
        after_read(after_read(phase)) == after_read(phase),
{
}

/// A sequence number that was not the expected one.
#[derive(Clone, Copy, Debug)]
pub struct SeqGap {
    pub expected: u32,
    pub actual: u32,
}

/// What a connection needs next to deliver a message.
#[derive(Clone, Copy, Debug)]
pub enum Step {
    /// The next packet from the transport.
    ReadPacket,
    /// A message decoded from the bytes that the connection holds.
    DecodeMessage,
}

/// The state of a connection.
pub struct State {
    /// Where the session stands.
    pub phase: Phase,
    /// The transport, once one is chosen.
    pub source: Option<DataSource>,
    /// The number that the next packet should carry.
    pub in_seq_num_pkt: u32,
    /// The number that the next message should carry.
    pub in_seq_num_msg: u32,
    /// The number that the next message sent will carry.
    pub out_seq_num: u32,
    /// What is left of the last packet's payload and not decoded yet.
    pub buff: Seq<u8>,
}

/// Whether a connection in `state` can number `count` more messages to
/// send: it sends none, or its count has room for them.
pub open spec fn has_room(state: State, count: int) -> bool {
    state.source matches Some(DataSource::Tcp) ==> state.out_seq_num + count <= u32::MAX
}

/// The number expected after `actual` arrived where `expected` was due: the
/// next one where they agree, and the one after `actual + 1` where not.
pub open spec fn expected_after(expected: u32, actual: u32) -> int {
    if actual == expected {
        expected + 1
    } else {
        actual + 2
    }
}

/// The gap to report when `actual` arrived where `expected` was due.
pub open spec fn gap_between(expected: u32, actual: u32) -> Option<SeqGap> {
    if actual == expected {
        None
    } else {
        Some(SeqGap { expected, actual })
    }
}

/// The sequence number of a message that belongs to a session: a security
/// definition, a heartbeat, a logon, a logout or a security definition
/// request. Other messages have no place there.
pub open spec fn session_seq_num(msg: &Message) -> Option<u32> {
    match msg {
        Message::MDSecurityDefinition(m) => Some(m.msg_header.msg_seq_num),
        Message::MDHeartbeat(m) => Some(m.msg_header.msg_seq_num),
        Message::MDLogon(m) => Some(m.msg_header.msg_seq_num),
        Message::MDLogout(m) => Some(m.msg_header.msg_seq_num),
        Message::MDSecurityDefinitionRequest(m) => Some(m.msg_header.msg_seq_num),
        _ => None,
    }
}

/// Tells whether the count can move on after `actual` arrived where
/// `expected` was due, that is, whether the number then expected is still a
/// 32-bit number.
pub fn fits(expected: u32, actual: u32) -> (yes: bool)
    ensures
        yes == (expected_after(expected, actual) <= u32::MAX),
{
    if actual == expected {
        expected < u32::MAX
    } else {
        actual < u32::MAX - 1
    }
}

/// The sequence number of a message that belongs to a session.
pub fn seq_num_of(msg: &Message) -> (n: Option<u32>)
    ensures
        n == session_seq_num(msg),
{
    match msg {
        Message::MDSecurityDefinition(m) => Some(m.msg_header.msg_seq_num),
        Message::MDHeartbeat(m) => Some(m.msg_header.msg_seq_num),
        Message::MDLogon(m) => Some(m.msg_header.msg_seq_num),
        Message::MDLogout(m) => Some(m.msg_header.msg_seq_num),
        Message::MDSecurityDefinitionRequest(m) => Some(m.msg_header.msg_seq_num),
        _ => None,
    }
}

/// Where a session stands after a packet or a message was read.
fn reading(phase: Phase) -> (next: Phase)
    ensures
        next == after_read(phase),
{
    match phase {
        Phase::Unconnected => Phase::Unconnected,
        Phase::Closed => Phase::Closed,
        _ => Phase::Streaming,
    }
}

/// Checks `actual` against the number in `expected` and moves the count on.
fn advance(expected: &mut u32, actual: u32) -> (gap: Option<SeqGap>)
    requires
        expected_after(*old(expected), actual) <= u32::MAX,
    ensures
        *final(expected) == expected_after(*old(expected), actual),
        gap == gap_between(*old(expected), actual),
{
    let mut gap: Option<SeqGap> = None;
    if actual != *expected {
        gap = Some(SeqGap { expected: *expected, actual });
        *expected = actual + 1;
    }
    *expected = *expected + 1;
    gap
}

/// A session with the Security Definition Server.
pub struct SDSConnection {
    phase: Phase,
    source: Option<DataSource>,
    in_seq_num_pkt: u32,
    in_seq_num_msg: u32,
    out_seq_num: u32,
    buff: Vec<u8>,
}

impl View for SDSConnection {
    type V = State;

    closed spec fn view(&self) -> State {
        State {
            phase: self.phase,
            source: self.source,
            in_seq_num_pkt: self.in_seq_num_pkt,
            in_seq_num_msg: self.in_seq_num_msg,
            out_seq_num: self.out_seq_num,
            buff: self.buff@,
        }
    }
}

impl SDSConnection {
    /// The state of a new connection: no transport, every count at one,
    /// nothing to decode.
    pub open spec fn new_state() -> State {
        State {
            phase: Phase::Unconnected,
            source: None,
            in_seq_num_pkt: 1,
            in_seq_num_msg: 1,
            out_seq_num: 1,
            buff: Seq::empty(),
        }
    }

    /// A connection without a transport. All counts start at one.
    pub fn new() -> (conn: SDSConnection)
        ensures
            conn@ == SDSConnection::new_state(),
    {
        SDSConnection {
            phase: Phase::Unconnected,
            source: None,
            in_seq_num_pkt: 1,
            in_seq_num_msg: 1,
            out_seq_num: 1,
            buff: Vec::new(),
        }
    }

    /// Chooses a live connection as the transport. The session is
    /// connected, and the counts stay.
    pub fn connect(&mut self)
        ensures
            final(self)@ == (State {
                phase: Phase::Connected,
                source: Some(DataSource::Tcp),
                ..old(self)@
            }),
    {
        self.source = Some(DataSource::Tcp);
        self.phase = Phase::Connected;
    }

    /// Chooses a recorded stream as the transport. The session is
    /// connected, and the counts stay.
    pub fn read_file(&mut self)
        ensures
            final(self)@ == (State {
                phase: Phase::Connected,
                source: Some(DataSource::File),
                ..old(self)@
            }),
    {
        self.source = Some(DataSource::File);
        self.phase = Phase::Connected;
    }

    /// Takes note that the transport has no more to read. The session is
    /// closed.
    pub fn stream_ended(&mut self)
        ensures
            final(self)@ == (State { phase: Phase::Closed, ..old(self)@ }),
    {
        self.phase = Phase::Closed;
    }

    /// Where the session stands.
    pub fn phase(&self) -> (phase: Phase)
        ensures
            phase == self@.phase,
    {
        self.phase
    }

    /// The transport, once one is chosen.
    pub fn source(&self) -> (source: Option<DataSource>)
        ensures
            source == self@.source,
    {
        self.source
    }

    /// The number that the next packet should carry.
    pub fn in_seq_num_pkt(&self) -> (n: u32)
        ensures
            n == self@.in_seq_num_pkt,
    {
        self.in_seq_num_pkt
    }

    /// The number that the next message should carry.
    pub fn in_seq_num_msg(&self) -> (n: u32)
        ensures
            n == self@.in_seq_num_msg,
    {
        self.in_seq_num_msg
    }

    /// The number that the next message sent will carry.
    pub fn out_seq_num(&self) -> (n: u32)
        ensures
            n == self@.out_seq_num,
    {
        self.out_seq_num
    }

    /// What is left of the last packet's payload and not decoded yet.
    pub fn residual(&self) -> (bytes: &[u8])
        ensures
            bytes@ == self@.buff,
    {
        self.buff.as_slice()
    }

    /// Whether the connection writes to its transport.
    fn writes(&self) -> (yes: bool)
        ensures
            yes == (self@.source matches Some(DataSource::Tcp)),
    {
        match self.source {
            Some(DataSource::Tcp) => true,
            _ => false,
        }
    }

    /// Tells whether the connection can number `count` more messages to
    /// send: whether it sends none, or its count has room for them.
    pub fn can_send(&self, count: usize) -> (yes: bool)
        ensures
            yes == has_room(self@, count as int),
    {
        !self.writes() || count as u128 <= (u32::MAX - self.out_seq_num) as u128
    }

    /// Tells whether the connection can take `packet`: whether its count of
    /// packets can move on behind the packet's number.
    pub fn accepts_packet(&self, packet: &TCPPacket) -> (yes: bool)
        ensures
            yes == (expected_after(self@.in_seq_num_pkt, packet.seq_num) <= u32::MAX),
    {
        fits(self.in_seq_num_pkt, packet.seq_num)
    }

    /// Tells whether the connection can take `msg` as decoded from the first
    /// `consumed` of the bytes held: whether it holds that many, and its
    /// count of messages can move on behind the message's number.
    pub fn accepts_message(&self, msg: &Message, consumed: usize) -> (yes: bool)
        ensures
            yes == (consumed <= self@.buff.len() && (session_seq_num(msg) matches Some(n)
                ==> expected_after(self@.in_seq_num_msg, n) <= u32::MAX)),
    {
        consumed <= self.buff.len() && match seq_num_of(msg) {
            Some(n) => fits(self.in_seq_num_msg, n),
            None => true,
        }
    }

    /// The logon to send, with a heartbeat interval of sixty seconds.
    ///
    /// Only a live connection sends: on it the message carries the next
    /// outgoing number, the count moves on, and a connected session is
    /// authenticated. Otherwise there is nothing to send and nothing
    /// changes.
    pub fn login(&mut self, user: &str, password: &str) -> (out: Option<Vec<u8>>)
        requires
            has_room(old(self)@, 1),
        ensures
            match out {
                Some(bytes) => {
                    &&& old(self)@.source matches Some(DataSource::Tcp)
                    &&& exists|sending_time: Seq<u8>|
                        bytes@ == message(
                            #[trigger] login_text(
                                old(self)@.out_seq_num,
                                user.spec_bytes(),
                                password.spec_bytes(),
                                HEARTBEAT_INTERVAL_SEC,
                                sending_time,
                            ),
                        )
                    &&& final(self)@ == (State {
                        phase: after_login(old(self)@.phase),
                        out_seq_num: (old(self)@.out_seq_num + 1) as u32,
                        ..old(self)@
                    })
                },
                None => {
                    &&& !(old(self)@.source matches Some(DataSource::Tcp))
                    &&& final(self)@ == old(self)@
                },
            },
    {
        if !self.writes() {
            return None;
        }
        let msg = crate::fix::login(self.out_seq_num, user, password, HEARTBEAT_INTERVAL_SEC);
        self.out_seq_num = self.out_seq_num + 1;
        if self.phase == Phase::Connected {
            self.phase = Phase::Authenticated;
        }
        Some(msg)
    }

    /// The request to send for the security definitions of a feed.
    ///
    /// Only a live connection sends: on it the message carries the next
    /// outgoing number, and the count moves on. Otherwise there is nothing
    /// to send and nothing changes.
    pub fn request(&mut self, feed_id: u32) -> (out: Option<Vec<u8>>)
        requires
            has_room(old(self)@, 1),
        ensures
            match out {
                Some(bytes) => {
                    &&& old(self)@.source matches Some(DataSource::Tcp)
                    &&& exists|sending_time: Seq<u8>|
                        bytes@ == message(
                            #[trigger] request_text(old(self)@.out_seq_num, feed_id, sending_time),
                        )
                    &&& final(self)@ == (State {
                        out_seq_num: (old(self)@.out_seq_num + 1) as u32,
                        ..old(self)@
                    })
                },
                None => {
                    &&& !(old(self)@.source matches Some(DataSource::Tcp))
                    &&& final(self)@ == old(self)@
                },
            },
    {
        if !self.writes() {
            return None;
        }
        let msg = crate::fix::request(self.out_seq_num, feed_id);
        self.out_seq_num = self.out_seq_num + 1;
        Some(msg)
    }

    /// The logout to send, with the reason `Logout`.
    ///
    /// Only a live connection sends: on it the message carries the next
    /// outgoing number, the count moves on, and the session is closed.
    /// Otherwise there is nothing to send and nothing changes.
    pub fn logout(&mut self) -> (out: Option<Vec<u8>>)
        requires
            has_room(old(self)@, 1),
        ensures
            match out {
                Some(bytes) => {
                    &&& old(self)@.source matches Some(DataSource::Tcp)
                    &&& exists|sending_time: Seq<u8>|
                        bytes@ == message(
                            #[trigger] logout_text(
                                old(self)@.out_seq_num,
                                "Logout".spec_bytes(),
                                sending_time,
                            ),
                        )
                    &&& final(self)@ == (State {
                        phase: Phase::Closed,
                        out_seq_num: (old(self)@.out_seq_num + 1) as u32,
                        ..old(self)@
                    })
                },
                None => {
                    &&& !(old(self)@.source matches Some(DataSource::Tcp))
                    &&& final(self)@ == old(self)@
                },
            },
    {
        if !self.writes() {
            return None;
        }
        let msg = crate::fix::logout(self.out_seq_num, "Logout");
        self.out_seq_num = self.out_seq_num + 1;
        self.phase = Phase::Closed;
        Some(msg)
    }

    /// What the connection needs next to deliver a message.
    ///
    /// While bytes of the last packet are left, the next message is decoded
    /// from them. Otherwise the next packet is read, which takes a
    /// transport.
    pub fn next_step(&self) -> (step: Result<Step, Error>)
        ensures
            match step {
                Ok(Step::DecodeMessage) => self@.buff.len() > 0,
                Ok(Step::ReadPacket) => self@.buff.len() == 0 && self@.source is Some,
                Err(e) => self@.buff.len() == 0 && self@.source is None && e
                    == Error::SourceNotInitialized,
            },
    {
        if self.buff.len() > 0 {
            Ok(Step::DecodeMessage)
        } else {
            match self.source {
                Some(_) => Ok(Step::ReadPacket),
                None => Err(Error::SourceNotInitialized),
            }
        }
    }

    /// Takes the packet that was read.
    ///
    /// Its number is checked against the expected one, and a difference is
    /// reported. The count moves on, and the payload becomes the bytes to
    /// decode from.
    pub fn packet_read(&mut self, packet: TCPPacket) -> (gap: Option<SeqGap>)
        requires
            expected_after(old(self)@.in_seq_num_pkt, packet.seq_num) <= u32::MAX,
        ensures
            gap == gap_between(old(self)@.in_seq_num_pkt, packet.seq_num),
            final(self)@ == (State {
                phase: after_read(old(self)@.phase),
                in_seq_num_pkt: expected_after(old(self)@.in_seq_num_pkt, packet.seq_num) as u32,
                buff: packet.payload@,
                ..old(self)@
            }),
    {
        let gap = advance(&mut self.in_seq_num_pkt, packet.seq_num);
        self.buff = packet.payload;
        self.phase = reading(self.phase);
        gap
    }

    /// Takes the message that was decoded from the first `consumed` of the
    /// bytes held.
    ///
    /// Those bytes are dropped. A message that has no place in a session is
    /// refused, and the count stays. Otherwise the message's number is
    /// checked against the expected one, a difference is reported, and the
    /// count moves on.
    pub fn message_decoded(&mut self, msg: &Message, consumed: usize) -> (out: Result<
        Option<SeqGap>,
        Error,
    >)
        requires
            consumed <= old(self)@.buff.len(),
            session_seq_num(msg) matches Some(n) ==> expected_after(old(self)@.in_seq_num_msg, n)
                <= u32::MAX,
        ensures
            match session_seq_num(msg) {
                Some(n) => {
                    &&& out matches Ok(gap)
                    &&& gap == gap_between(old(self)@.in_seq_num_msg, n)
                    &&& final(self)@ == (State {
                        phase: after_read(old(self)@.phase),
                        in_seq_num_msg: expected_after(old(self)@.in_seq_num_msg, n) as u32,
                        buff: old(self)@.buff.skip(consumed as int),
                        ..old(self)@
                    })
                },
                None => {
                    &&& out matches Err(e)
                    &&& e == Error::UnexpectedMessage
                    &&& final(self)@ == (State {
                        phase: after_read(old(self)@.phase),
                        buff: old(self)@.buff.skip(consumed as int),
                        ..old(self)@
                    })
                },
            },
    {
        self.buff = behind(self.buff.as_slice(), consumed);
        self.phase = reading(self.phase);
        let seq_num: u32 = match seq_num_of(msg) {
            Some(n) => n,
            None => {
                return Err(Error::UnexpectedMessage);
            },
        };
        let gap = advance(&mut self.in_seq_num_msg, seq_num);
        Ok(gap)
    }
}

} // verus!
