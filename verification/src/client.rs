//! The client of the Security Definition Server.
//!
//! A client subscribes to feeds and keeps a catalog of the security
//! definitions that arrive. A definition is known by its feed and its
//! security identifier. The first definition with a given pair is new and
//! is counted; a later one with the same pair is an update. Every
//! definition says how many the server will send in all, and the
//! subscription is complete when that many were counted.
use crate::client::connection::{
    after_read,
    expected_after,
    gap_between,
    has_room,
    session_seq_num,
    DataSource,
    Phase,
    SDSConnection,
    SeqGap,
    State,
    Step,
};
use crate::client::feeds::Feeds;
use crate::decimal::{parse_u32, read_u32};
use crate::fast::Message;
use crate::fix::{login_text, logout_text, message, request_text, HEARTBEAT_INTERVAL_SEC};
use crate::sync::packets::TCPPacket;
use crate::Error;
use std::collections::HashSet;
use vstd::prelude::*;
use vstd::string::StringSliceAdditionalSpecFns;

pub mod connection;
pub mod feeds;

verus! {

broadcast use vstd::std_specs::hash::group_hash_axioms;

/// The number of securities that the catalog makes room for at the start.
pub const SEC_IDS_CAPACITY: usize = 1_500_000;

/// What a catalog knows.
pub struct Catalog {
    /// How many definitions the server said it will send.
    pub defs_count_total: u32,
    /// How many distinct definitions arrived.
    pub defs_count: u32,
    /// The pairs of feed and security identifier that arrived.
    pub seen: Set<(u32, u32)>,
}

/// A catalog after a definition, and whether the definition was an update.
pub struct Recorded {
    pub catalog: Catalog,
    pub is_update: bool,
}

/// Enters a definition into a catalog: the total is the one that this
/// definition gives; a pair that was not seen is added and counted.
pub open spec fn record(c: Catalog, feed_id: u32, security_id: u32, total: u32) -> Recorded {
    if c.seen.contains((feed_id, security_id)) {
        Recorded { catalog: Catalog { defs_count_total: total, ..c }, is_update: true }
    } else {
        Recorded {
            catalog: Catalog {
                defs_count_total: total,
                defs_count: (c.defs_count + 1) as u32,
                seen: c.seen.insert((feed_id, security_id)),
            },
            is_update: false,
        }
    }
}

/// A definition that arrives twice is new once: the second time it is an
/// update and the count stays. Where its pair was not seen before, the first
/// time it is new and the count grows by one.
pub proof fn lemma_second_is_update(
    c: Catalog,
    feed_id: u32,
    security_id: u32,
    total1: u32,
    total2: u32,
)
    requires
        c.defs_count < u32::MAX,
    ensures
        ({
            let first = record(c, feed_id, security_id, total1);
            let second = record(first.catalog, feed_id, security_id, total2);
            &&& second.is_update
            &&& second.catalog.defs_count == first.catalog.defs_count
            &&& second.catalog.seen == first.catalog.seen
            &&& !c.seen.contains((feed_id, security_id)) ==> !first.is_update
                && first.catalog.defs_count == c.defs_count + 1
            &&& c.seen.contains((feed_id, security_id)) ==> first.is_update
                && first.catalog.defs_count == c.defs_count
        }),
{
}

/// The count never falls, and nothing that was seen is forgotten.
pub proof fn lemma_count_never_falls(c: Catalog, feed_id: u32, security_id: u32, total: u32)
    requires
        c.defs_count < u32::MAX,
    ensures
        record(c, feed_id, security_id, total).catalog.defs_count >= c.defs_count,
        c.seen.subset_of(record(c, feed_id, security_id, total).catalog.seen),
{
}

/// What a security definition tells a catalog.
pub struct Entry {
    pub feed_id: u32,
    pub security_id: u32,
    pub total: u32,
}

/// The catalog that results where `entries` arrive, in order, at an empty
/// catalog.
pub open spec fn replay(entries: Seq<Entry>) -> Catalog
    decreases entries.len(),
{
    if entries.len() == 0 {
        Catalog { defs_count_total: 0, defs_count: 0, seen: Set::empty() }
    } else {
        let last = entries.last();
        record(replay(entries.drop_last()), last.feed_id, last.security_id, last.total).catalog
    }
}

/// The count is the number of distinct pairs that arrived, each counted
/// once however often it came; the pairs seen are those that arrived; and
/// the total is the one that the last definition gave.
pub proof fn lemma_count_is_distinct_pairs(entries: Seq<Entry>)
    requires
        entries.len() <= u32::MAX,
    ensures
        replay(entries).seen.finite(),
        replay(entries).defs_count == replay(entries).seen.len(),
        replay(entries).defs_count <= entries.len(),
        forall|feed_id: u32, security_id: u32|
            replay(entries).seen.contains((feed_id, security_id)) <==> exists|i: int|
                0 <= i < entries.len() && (#[trigger] entries[i]).feed_id == feed_id
                    && entries[i].security_id == security_id,
        entries.len() > 0 ==> replay(entries).defs_count_total == entries.last().total,
    decreases entries.len(),
{
    if entries.len() > 0 {
        let before = entries.drop_last();
        let last = entries.last();
        lemma_count_is_distinct_pairs(before);
        assert forall|feed_id: u32, security_id: u32|
            replay(entries).seen.contains((feed_id, security_id)) <==> exists|i: int|
                0 <= i < entries.len() && (#[trigger] entries[i]).feed_id == feed_id
                    && entries[i].security_id == security_id by {
            if replay(entries).seen.contains((feed_id, security_id)) {
                if replay(before).seen.contains((feed_id, security_id)) {
                    let i = choose|i: int|
                        0 <= i < before.len() && (#[trigger] before[i]).feed_id == feed_id
                            && before[i].security_id == security_id;
                    assert(entries[i] == before[i]);
                } else {
                    assert(entries[entries.len() - 1] == last);
                }
            }
            if exists|i: int|
                0 <= i < entries.len() && (#[trigger] entries[i]).feed_id == feed_id
                    && entries[i].security_id == security_id {
                let i = choose|i: int|
                    0 <= i < entries.len() && (#[trigger] entries[i]).feed_id == feed_id
                        && entries[i].security_id == security_id;
                if i < before.len() {
                    assert(before[i] == entries[i]);
                }
            }
        }
    }
}

/// The key under which a pair of feed and security identifier is kept.
pub open spec fn key_of(feed_id: u32, security_id: u32) -> u64 {
    (feed_id * 0x1_0000_0000 + security_id) as u64
}

/// What a message means to a catalog.
pub enum Effect {
    /// The message is a definition, and its application identifier is the
    /// number of a feed.
    Definition { feed_id: u32, security_id: u32, total: u32 },
    /// The message is a definition, and its application identifier is no
    /// feed number.
    BadApplId { total: u32 },
    /// The message is no definition.
    Nothing,
}

/// What `msg` means to a catalog.
pub open spec fn effect_of(msg: &Message) -> Effect {
    match msg {
        Message::MDSecurityDefinition(m) => match parse_u32(vstd::utf8::encode_utf8(m.appl_id@)) {
            Some(feed_id) => Effect::Definition {
                feed_id,
                security_id: m.security_id,
                total: m.tot_num_reports,
            },
            None => Effect::BadApplId { total: m.tot_num_reports },
        },
        _ => Effect::Nothing,
    }
}

/// A client of the Security Definition Server.
pub struct SDSClient {
    defs_count_total: u32,
    defs_count: u32,
    sds: SDSConnection,
    sec_ids: HashSet<u64>,
}

impl SDSClient {
    /// What the client's catalog knows.
    pub closed spec fn catalog(&self) -> Catalog {
        Catalog {
            defs_count_total: self.defs_count_total,
            defs_count: self.defs_count,
            seen: Set::new(
                |pair: (u32, u32)|
                    {
                        let (feed_id, security_id) = pair;
                        self.sec_ids@.contains(key_of(feed_id, security_id))
                    },
            ),
        }
    }

    /// The state of the client's connection.
    pub closed spec fn connection(&self) -> State {
        self.sds@
    }

    /// A client with an empty catalog and a connection without a transport.
    #[must_use]
    pub fn new() -> (client: SDSClient)
        ensures
            client.catalog() == (Catalog {
                defs_count_total: 0,
                defs_count: 0,
                seen: Set::empty(),
            }),
            client.connection() == SDSConnection::new_state(),
    {
        let client = SDSClient {
            sds: SDSConnection::new(),
            sec_ids: HashSet::with_capacity(SEC_IDS_CAPACITY),
            defs_count_total: 0,
            defs_count: 0,
        };
        assert(client.catalog().seen =~= Set::<(u32, u32)>::empty());
        client
    }

    /// Whether every definition that the server said it will send has
    /// arrived.
    pub fn is_subscribed(&self) -> (yes: bool)
        ensures
            yes == (self.catalog().defs_count == self.catalog().defs_count_total),
    {
        self.defs_count == self.defs_count_total
    }

    /// How many distinct definitions arrived.
    pub fn defs_count(&self) -> (n: u32)
        ensures
            n == self.catalog().defs_count,
    {
        self.defs_count
    }

    /// How many definitions the server said it will send.
    pub fn defs_count_total(&self) -> (n: u32)
        ensures
            n == self.catalog().defs_count_total,
    {
        self.defs_count_total
    }

    /// The number that the next message sent will carry.
    pub fn out_seq_num(&self) -> (n: u32)
        ensures
            n == self.connection().out_seq_num,
    {
        self.sds.out_seq_num()
    }

    /// The number that the next packet should carry.
    pub fn in_seq_num_pkt(&self) -> (n: u32)
        ensures
            n == self.connection().in_seq_num_pkt,
    {
        self.sds.in_seq_num_pkt()
    }

    /// The number that the next message should carry.
    pub fn in_seq_num_msg(&self) -> (n: u32)
        ensures
            n == self.connection().in_seq_num_msg,
    {
        self.sds.in_seq_num_msg()
    }

    /// Chooses a live connection as the transport and gives the logon to
    /// send over it.
    pub fn connect(&mut self, user: &str, password: &str) -> (out: Option<Vec<u8>>)
        requires
            old(self).connection().out_seq_num < u32::MAX,
        ensures
            out matches Some(bytes) && exists|sending_time: Seq<u8>|
                bytes@ == message(
                    #[trigger] login_text(
                        old(self).connection().out_seq_num,
                        user.spec_bytes(),
                        password.spec_bytes(),
                        HEARTBEAT_INTERVAL_SEC,
                        sending_time,
                    ),
                ),
            final(self).connection() == (State {
                phase: Phase::Authenticated,
                source: Some(DataSource::Tcp),
                out_seq_num: (old(self).connection().out_seq_num + 1) as u32,
                ..old(self).connection()
            }),
            final(self).catalog() == old(self).catalog(),
    {
        self.sds.connect();
        self.sds.login(user, password)
    }

    /// Chooses a recorded stream as the transport.
    pub fn read_file(&mut self)
        ensures
            final(self).connection() == (State {
                phase: Phase::Connected,
                source: Some(DataSource::File),
                ..old(self).connection()
            }),
            final(self).catalog() == old(self).catalog(),
    {
        self.sds.read_file();
    }

    /// Takes note that the transport has no more to read. The session is
    /// closed.
    pub fn stream_ended(&mut self)
        ensures
            final(self).connection() == (State { phase: Phase::Closed, ..old(self).connection() }),
            final(self).catalog() == old(self).catalog(),
    {
        self.sds.stream_ended();
    }

    /// Where the session stands.
    pub fn phase(&self) -> (phase: Phase)
        ensures
            phase == self.connection().phase,
    {
        self.sds.phase()
    }

    /// The request to send for the security definitions of a feed, where
    /// the transport is a live connection.
    pub fn subscribe(&mut self, feed_id: u32) -> (out: Option<Vec<u8>>)
        requires
            has_room(old(self).connection(), 1),
        ensures
            match out {
                Some(bytes) => {
                    &&& old(self).connection().source matches Some(DataSource::Tcp)
                    &&& exists|sending_time: Seq<u8>|
                        bytes@ == message(
                            #[trigger] request_text(
                                old(self).connection().out_seq_num,
                                feed_id,
                                sending_time,
                            ),
                        )
                    &&& final(self).connection() == (State {
                        out_seq_num: (old(self).connection().out_seq_num + 1) as u32,
                        ..old(self).connection()
                    })
                },
                None => {
                    &&& !(old(self).connection().source matches Some(DataSource::Tcp))
                    &&& final(self).connection() == old(self).connection()
                },
            },
            final(self).catalog() == old(self).catalog(),
    {
        self.sds.request(feed_id)
    }

    /// The logout to send, where the transport is a live connection.
    pub fn logout(&mut self) -> (out: Option<Vec<u8>>)
        requires
            has_room(old(self).connection(), 1),
        ensures
            match out {
                Some(bytes) => {
                    &&& old(self).connection().source matches Some(DataSource::Tcp)
                    &&& exists|sending_time: Seq<u8>|
                        bytes@ == message(
                            #[trigger] logout_text(
                                old(self).connection().out_seq_num,
                                "Logout".spec_bytes(),
                                sending_time,
                            ),
                        )
                    &&& final(self).connection() == (State {
                        phase: Phase::Closed,
                        out_seq_num: (old(self).connection().out_seq_num + 1) as u32,
                        ..old(self).connection()
                    })
                },
                None => {
                    &&& !(old(self).connection().source matches Some(DataSource::Tcp))
                    &&& final(self).connection() == old(self).connection()
                },
            },
            final(self).catalog() == old(self).catalog(),
    {
        self.sds.logout()
    }

    /// Tells whether the client can number `count` more messages to send.
    pub fn can_send(&self, count: usize) -> (yes: bool)
        ensures
            yes == has_room(self.connection(), count as int),
    {
        self.sds.can_send(count)
    }

    /// Tells whether the client can take `packet`.
    pub fn accepts_packet(&self, packet: &TCPPacket) -> (yes: bool)
        ensures
            yes == (expected_after(self.connection().in_seq_num_pkt, packet.seq_num)
                <= u32::MAX),
    {
        self.sds.accepts_packet(packet)
    }

    /// Tells whether the client can take `msg` as decoded from the first
    /// `consumed` of the bytes held.
    pub fn accepts_message(&self, msg: &Message, consumed: usize) -> (yes: bool)
        ensures
            yes == ({
                &&& consumed <= self.connection().buff.len()
                &&& session_seq_num(msg) matches Some(n) ==> expected_after(
                    self.connection().in_seq_num_msg,
                    n,
                ) <= u32::MAX
                &&& msg is MDSecurityDefinition ==> self.catalog().defs_count < u32::MAX
            }),
    {
        self.sds.accepts_message(msg, consumed) && match msg {
            Message::MDSecurityDefinition(_) => self.defs_count < u32::MAX,
            _ => true,
        }
    }

    /// What the client needs next to deliver a message.
    pub fn next_step(&self) -> (step: Result<Step, Error>)
        ensures
            match step {
                Ok(Step::DecodeMessage) => self.connection().buff.len() > 0,
                Ok(Step::ReadPacket) => self.connection().buff.len() == 0
                    && self.connection().source is Some,
                Err(e) => self.connection().buff.len() == 0 && self.connection().source is None
                    && e == Error::SourceNotInitialized,
            },
    {
        self.sds.next_step()
    }

    /// What is left of the last packet's payload and not decoded yet.
    pub fn residual(&self) -> (bytes: &[u8])
        ensures
            bytes@ == self.connection().buff,
    {
        self.sds.residual()
    }

    /// Takes the packet that was read: checks its number, moves the count
    /// on, and keeps the payload to decode from.
    pub fn packet_read(&mut self, packet: TCPPacket) -> (gap: Option<SeqGap>)
        requires
            expected_after(old(self).connection().in_seq_num_pkt, packet.seq_num) <= u32::MAX,
        ensures
            gap == gap_between(old(self).connection().in_seq_num_pkt, packet.seq_num),
            final(self).connection() == (State {
                phase: after_read(old(self).connection().phase),
                in_seq_num_pkt: expected_after(
                    old(self).connection().in_seq_num_pkt,
                    packet.seq_num,
                ) as u32,
                buff: packet.payload@,
                ..old(self).connection()
            }),
            final(self).catalog() == old(self).catalog(),
    {
        self.sds.packet_read(packet)
    }

    /// The requests to send for the security definitions of `feeds`, one
    /// for each feed, in the order of the set. Where the transport is no
    /// live connection there is nothing to send.
    pub fn subscribe_feeds(&mut self, feeds: &Feeds) -> (out: Vec<Vec<u8>>)
        requires
            has_room(old(self).connection(), feeds@.len() as int),
        ensures
            final(self).catalog() == old(self).catalog(),
            if old(self).connection().source matches Some(DataSource::Tcp) {
                &&& out@.len() == feeds@.len()
                &&& forall|i: int|
                    0 <= i < feeds@.len() ==> is_request(
                        (#[trigger] out@[i])@,
                        (old(self).connection().out_seq_num + i) as u32,
                        feeds@[i],
                    )
                &&& final(self).connection() == (State {
                    out_seq_num: (old(self).connection().out_seq_num + feeds@.len()) as u32,
                    ..old(self).connection()
                })
            } else {
                out@.len() == 0 && final(self).connection() == old(self).connection()
            },
    {
        let mut out: Vec<Vec<u8>> = Vec::new();
        let ids = feeds.as_slice();
        let mut i: usize = 0;
        while i < ids.len()
            invariant
                i <= ids@.len(),
                ids@ == feeds@,
                self.catalog() == old(self).catalog(),
                has_room(old(self).connection(), feeds@.len() as int),
                if old(self).connection().source matches Some(DataSource::Tcp) {
                    &&& out@.len() == i
                    &&& forall|k: int|
                        0 <= k < i ==> is_request(
                            (#[trigger] out@[k])@,
                            (old(self).connection().out_seq_num + k) as u32,
                            feeds@[k],
                        )
                    &&& self.connection() == (State {
                        out_seq_num: (old(self).connection().out_seq_num + i) as u32,
                        ..old(self).connection()
                    })
                } else {
                    out@.len() == 0 && self.connection() == old(self).connection()
                },
            decreases ids@.len() - i,
        {
            match self.sds.request(ids[i]) {
                Some(msg) => {
                    out.push(msg);
                },
                None => {},
            }
            i = i + 1;
        }
        out
    }

    /// Takes the message that was decoded from the first `consumed` of the
    /// bytes held, and tells whether it is an update.
    ///
    /// The connection drops those bytes and checks the message's number. A
    /// security definition then sets the total, and is entered into the
    /// catalog under its feed and security identifier: it is an update
    /// where that pair was seen before, and new otherwise. Other messages
    /// of a session are never updates and leave the catalog as it is.
    pub fn message_decoded(&mut self, msg: &Message, consumed: usize) -> (out: Result<
        (Option<SeqGap>, bool),
        Error,
    >)
        requires
            consumed <= old(self).connection().buff.len(),
            session_seq_num(msg) matches Some(n) ==> expected_after(
                old(self).connection().in_seq_num_msg,
                n,
            ) <= u32::MAX,
            msg is MDSecurityDefinition ==> old(self).catalog().defs_count < u32::MAX,
        ensures
            match session_seq_num(msg) {
                None => {
                    &&& out matches Err(e)
                    &&& e == Error::UnexpectedMessage
                    &&& final(self).connection() == (State {
                        phase: after_read(old(self).connection().phase),
                        buff: old(self).connection().buff.skip(consumed as int),
                        ..old(self).connection()
                    })
                    &&& final(self).catalog() == old(self).catalog()
                },
                Some(n) => {
                    &&& final(self).connection() == (State {
                        phase: after_read(old(self).connection().phase),
                        in_seq_num_msg: expected_after(
                            old(self).connection().in_seq_num_msg,
                            n,
                        ) as u32,
                        buff: old(self).connection().buff.skip(consumed as int),
                        ..old(self).connection()
                    })
                    &&& match effect_of(msg) {
                        Effect::Definition { feed_id, security_id, total } => {
                            let recorded = record(
                                old(self).catalog(),
                                feed_id,
                                security_id,
                                total,
                            );
                            &&& out matches Ok((gap, is_update))
                            &&& gap == gap_between(old(self).connection().in_seq_num_msg, n)
                            &&& is_update == recorded.is_update
                            &&& final(self).catalog() == recorded.catalog
                        },
                        Effect::BadApplId { total } => {
                            &&& out matches Err(Error::InvalidApplId(id))
                            &&& msg matches Message::MDSecurityDefinition(m)
                            &&& id@ == m.appl_id@
                            &&& final(self).catalog() == (Catalog {
                                defs_count_total: total,
                                ..old(self).catalog()
                            })
                        },
                        Effect::Nothing => {
                            &&& out matches Ok((gap, is_update))
                            &&& gap == gap_between(old(self).connection().in_seq_num_msg, n)
                            &&& !is_update
                            &&& final(self).catalog() == old(self).catalog()
                        },
                    }
                },
            },
    {
        let gap = match self.sds.message_decoded(msg, consumed) {
            Ok(gap) => gap,
            Err(e) => {
                return Err(e);
            },
        };
        match msg {
            Message::MDSecurityDefinition(m) => {
                self.defs_count_total = m.tot_num_reports;
                let feed_id: u32 = match read_u32(m.appl_id.as_str().as_bytes()) {
                    Some(feed_id) => feed_id,
                    None => {
                        assert(self.catalog().seen =~= old(self).catalog().seen);
                        return Err(Error::InvalidApplId(m.appl_id.clone()));
                    },
                };
                let key: u64 = feed_id as u64 * 0x1_0000_0000 + m.security_id as u64;
                let is_update = self.sec_ids.contains(&key);
                if !is_update {
                    self.sec_ids.insert(key);
                    self.defs_count = self.defs_count + 1;
                }
                proof {
                    let recorded = record(
                        old(self).catalog(),
                        feed_id,
                        m.security_id,
                        m.tot_num_reports,
                    );
                    assert forall|pair: (u32, u32)|
                        self.catalog().seen.contains(pair) == recorded.catalog.seen.contains(
                            pair,
                        ) by {
                        let (f, s) = pair;
                        assert(key_of(f, s) == key <==> pair == (feed_id, m.security_id));
                    }
                    assert(self.catalog().seen =~= recorded.catalog.seen);
                }
                Ok((gap, is_update))
            },
            _ => {
                assert(self.catalog().seen =~= old(self).catalog().seen);
                Ok((gap, false))
            },
        }
    }
}

impl Default for SDSClient {
    /// A client with an empty catalog and a connection without a transport.
    fn default() -> (client: SDSClient)
        ensures
            client.catalog() == (Catalog {
                defs_count_total: 0,
                defs_count: 0,
                seen: Set::empty(),
            }),
            client.connection() == SDSConnection::new_state(),
    {
        SDSClient::new()
    }
}

/// Whether `bytes` are a request for the definitions of `feed_id` that
/// carries the number `sequence`, whatever its sending time.
pub open spec fn is_request(bytes: Seq<u8>, sequence: u32, feed_id: u32) -> bool {
    exists|sending_time: Seq<u8>|
        bytes == message(#[trigger] request_text(sequence, feed_id, sending_time))
}

} // verus!
