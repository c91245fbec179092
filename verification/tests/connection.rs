use quotesdirectlib::client::connection::{fits, seq_num_of, DataSource, Phase, SDSConnection, Step};
use quotesdirectlib::fast::{Heartbeat, IncRefresh, Logon, Logout, Message, MsgHeader, SequenceReset};
use quotesdirectlib::sync::packets::TCPPacket;
use quotesdirectlib::Error;
use std::collections::HashMap;

fn header(msg_seq_num: u32) -> MsgHeader {
    MsgHeader {
        appl_ver_id: String::from("9"),
        sender_comp_id: String::from("CQG"),
        msg_seq_num,
        sending_time: 20250620102247000,
    }
}

fn heartbeat(msg_seq_num: u32) -> Message {
    Message::MDHeartbeat(Heartbeat { message_type: String::from("0"), msg_header: header(msg_seq_num) })
}

fn packet(seq_num: u32, payload: Vec<u8>) -> TCPPacket {
    TCPPacket { seq_num, sub_channel: 0, payload }
}

fn fields(raw: &[u8]) -> HashMap<String, String> {
    String::from_utf8(raw.to_vec())
        .unwrap()
        .split('\x01')
        .filter(|s| !s.is_empty())
        .map(|s| {
            let (key, val) = s.split_once('=').unwrap();
            (String::from(key), String::from(val))
        })
        .collect()
}

#[test]
fn counts_start_at_one() {
    let conn = SDSConnection::new();
    assert_eq!(conn.in_seq_num_pkt(), 1);
    assert_eq!(conn.in_seq_num_msg(), 1);
    assert_eq!(conn.out_seq_num(), 1);
    assert!(conn.source().is_none());
    assert!(conn.residual().is_empty());
}

#[test]
fn reading_needs_a_transport() {
    let conn = SDSConnection::new();
    assert!(matches!(conn.next_step(), Err(Error::SourceNotInitialized)));
}

#[test]
fn a_connection_with_a_transport_reads_a_packet_first() {
    let mut conn = SDSConnection::new();
    conn.connect();
    assert!(matches!(conn.source(), Some(DataSource::Tcp)));
    assert!(matches!(conn.next_step(), Ok(Step::ReadPacket)));
    let mut conn = SDSConnection::new();
    conn.read_file();
    assert!(matches!(conn.source(), Some(DataSource::File)));
    assert!(matches!(conn.next_step(), Ok(Step::ReadPacket)));
}

#[test]
fn packets_in_order_leave_no_gap() {
    let mut conn = SDSConnection::new();
    conn.connect();
    for n in 1..=4u32 {
        assert!(conn.packet_read(packet(n, vec![])).is_none());
        assert_eq!(conn.in_seq_num_pkt(), n + 1);
    }
}

#[test]
fn sequence_resync() {
    let mut conn = SDSConnection::new();
    conn.read_file();
    assert!(conn.packet_read(packet(1, vec![])).is_none());
    assert!(conn.packet_read(packet(2, vec![])).is_none());
    assert_eq!(conn.in_seq_num_pkt(), 3);
    let gap = conn.packet_read(packet(5, vec![])).unwrap();
    assert_eq!((gap.expected, gap.actual), (3, 5));
    assert_eq!(conn.in_seq_num_pkt(), 7);
    let gap = conn.packet_read(packet(6, vec![])).unwrap();
    assert_eq!((gap.expected, gap.actual), (7, 6));
    assert_eq!(conn.in_seq_num_pkt(), 8);
}

#[test]
fn a_packet_from_the_past_moves_the_count_back() {
    let mut conn = SDSConnection::new();
    conn.connect();
    conn.packet_read(packet(1, vec![]));
    conn.packet_read(packet(2, vec![]));
    let gap = conn.packet_read(packet(1, vec![])).unwrap();
    assert_eq!((gap.expected, gap.actual), (3, 1));
    assert_eq!(conn.in_seq_num_pkt(), 3);
}

#[test]
fn the_payload_is_kept_until_it_is_decoded() {
    let mut conn = SDSConnection::new();
    conn.connect();
    conn.packet_read(packet(1, vec![10, 11, 12, 13, 14]));
    assert_eq!(conn.residual(), &[10, 11, 12, 13, 14]);
    assert!(matches!(conn.next_step(), Ok(Step::DecodeMessage)));
    assert!(matches!(conn.message_decoded(&heartbeat(1), 2), Ok(None)));
    assert_eq!(conn.residual(), &[12, 13, 14]);
    assert!(matches!(conn.next_step(), Ok(Step::DecodeMessage)));
    assert!(matches!(conn.message_decoded(&heartbeat(2), 3), Ok(None)));
    assert!(conn.residual().is_empty());
    assert!(matches!(conn.next_step(), Ok(Step::ReadPacket)));
    assert_eq!(conn.in_seq_num_msg(), 3);
    assert_eq!(conn.in_seq_num_pkt(), 2);
}

#[test]
fn message_numbers_resync_like_packet_numbers() {
    let mut conn = SDSConnection::new();
    conn.connect();
    conn.packet_read(packet(1, vec![0; 8]));
    assert!(matches!(conn.message_decoded(&heartbeat(1), 1), Ok(None)));
    let gap = conn.message_decoded(&heartbeat(9), 1).unwrap().unwrap();
    assert_eq!((gap.expected, gap.actual), (2, 9));
    assert_eq!(conn.in_seq_num_msg(), 11);
    let gap = conn.message_decoded(&heartbeat(10), 1).unwrap().unwrap();
    assert_eq!((gap.expected, gap.actual), (11, 10));
    assert_eq!(conn.in_seq_num_msg(), 12);
    assert!(matches!(conn.message_decoded(&heartbeat(12), 1), Ok(None)));
    assert_eq!(conn.in_seq_num_msg(), 13);
}

#[test]
fn every_message_of_a_session_is_taken() {
    let mut conn = SDSConnection::new();
    conn.connect();
    conn.packet_read(packet(1, vec![0; 8]));
    let logon = Message::MDLogon(Logon {
        message_type: String::from("A"),
        msg_header: header(1),
        encrypt_method: 0,
        heartbeat_int: 60,
    });
    let logout = Message::MDLogout(Logout {
        message_type: String::from("5"),
        msg_header: header(2),
        text: None,
    });
    assert!(matches!(conn.message_decoded(&logon, 1), Ok(None)));
    assert!(matches!(conn.message_decoded(&logout, 1), Ok(None)));
    assert_eq!(conn.in_seq_num_msg(), 3);
}

#[test]
fn a_message_of_another_channel_is_refused() {
    let mut conn = SDSConnection::new();
    conn.connect();
    conn.packet_read(packet(1, vec![1, 2, 3]));
    let reset = Message::SequenceReset(SequenceReset {
        message_type: String::from("4"),
        msg_header: header(1),
        new_seq_no: 5,
    });
    assert!(matches!(conn.message_decoded(&reset, 2), Err(Error::UnexpectedMessage)));
    assert_eq!(conn.in_seq_num_msg(), 1);
    assert_eq!(conn.residual(), &[3]);
    let refresh = Message::MDIncRefresh(IncRefresh {
        message_type: String::from("X"),
        msg_header: header(1),
        trade_date: None,
        md_entries: vec![],
    });
    assert!(matches!(conn.message_decoded(&refresh, 1), Err(Error::UnexpectedMessage)));
}

#[test]
fn a_live_connection_numbers_what_it_sends() {
    let mut conn = SDSConnection::new();
    conn.connect();
    let login = fields(&conn.login("user", "password").unwrap());
    assert_eq!(login["35"], "A");
    assert_eq!(login["34"], "1");
    assert_eq!(login["108"], "60");
    assert_eq!(login["553"], "user");
    assert_eq!(login["554"], "password");
    let request = fields(&conn.request(85).unwrap());
    assert_eq!(request["35"], "c");
    assert_eq!(request["34"], "2");
    assert_eq!(request["1180"], "85");
    let logout = fields(&conn.logout().unwrap());
    assert_eq!(logout["35"], "5");
    assert_eq!(logout["34"], "3");
    assert_eq!(logout["58"], "Logout");
    assert_eq!(conn.out_seq_num(), 4);
}

#[test]
fn a_recorded_stream_is_not_written_to() {
    let mut conn = SDSConnection::new();
    conn.read_file();
    assert!(conn.login("user", "password").is_none());
    assert!(conn.request(85).is_none());
    assert!(conn.logout().is_none());
    assert_eq!(conn.out_seq_num(), 1);
}

#[test]
fn without_a_transport_nothing_is_sent() {
    let mut conn = SDSConnection::new();
    assert!(conn.login("user", "password").is_none());
    assert_eq!(conn.out_seq_num(), 1);
}

#[test]
fn a_session_goes_through_its_phases() {
    let mut conn = SDSConnection::new();
    assert_eq!(conn.phase(), Phase::Unconnected);
    conn.connect();
    assert_eq!(conn.phase(), Phase::Connected);
    conn.login("user", "password").unwrap();
    assert_eq!(conn.phase(), Phase::Authenticated);
    conn.request(85).unwrap();
    assert_eq!(conn.phase(), Phase::Authenticated);
    conn.packet_read(packet(1, vec![1]));
    assert_eq!(conn.phase(), Phase::Streaming);
    conn.message_decoded(&heartbeat(1), 1).unwrap();
    assert_eq!(conn.phase(), Phase::Streaming);
    conn.login("user", "password").unwrap();
    assert_eq!(conn.phase(), Phase::Streaming);
    conn.logout().unwrap();
    assert_eq!(conn.phase(), Phase::Closed);
    conn.packet_read(packet(2, vec![]));
    assert_eq!(conn.phase(), Phase::Closed);
}

#[test]
fn the_end_of_the_stream_closes_the_session() {
    let mut conn = SDSConnection::new();
    conn.read_file();
    assert!(conn.login("user", "password").is_none());
    assert_eq!(conn.phase(), Phase::Connected);
    conn.packet_read(packet(1, vec![]));
    assert_eq!(conn.phase(), Phase::Streaming);
    assert!(conn.logout().is_none());
    assert_eq!(conn.phase(), Phase::Streaming);
    conn.stream_ended();
    assert_eq!(conn.phase(), Phase::Closed);
    assert_eq!(conn.in_seq_num_pkt(), 2);
    conn.connect();
    assert_eq!(conn.phase(), Phase::Connected);
    assert_eq!(conn.in_seq_num_pkt(), 2);
}

#[test]
fn reading_without_a_transport_changes_no_phase() {
    let mut conn = SDSConnection::new();
    conn.packet_read(packet(1, vec![]));
    assert_eq!(conn.phase(), Phase::Unconnected);
}

#[test]
fn fits_tells_where_the_count_would_overflow() {
    assert!(fits(1, 1));
    assert!(fits(u32::MAX - 1, u32::MAX - 1));
    assert!(!fits(u32::MAX, u32::MAX));
    assert!(fits(1, u32::MAX - 2));
    assert!(!fits(1, u32::MAX - 1));
    assert!(!fits(1, u32::MAX));
}

#[test]
fn the_connection_tells_what_it_can_take() {
    let mut conn = SDSConnection::new();
    assert!(conn.can_send(usize::MAX));
    conn.connect();
    assert!(conn.can_send(0));
    assert!(conn.can_send(u32::MAX as usize - 1));
    assert!(!conn.can_send(u32::MAX as usize));
    assert!(conn.accepts_packet(&packet(7, vec![])));
    assert!(!conn.accepts_packet(&packet(u32::MAX, vec![])));
    conn.packet_read(packet(1, vec![1, 2]));
    assert!(conn.accepts_message(&heartbeat(1), 2));
    assert!(!conn.accepts_message(&heartbeat(1), 3));
    assert!(!conn.accepts_message(&heartbeat(u32::MAX - 1), 1));
    assert!(conn.accepts_message(&heartbeat(u32::MAX - 2), 1));
}

#[test]
fn the_number_of_a_message_is_read_from_its_header() {
    assert_eq!(seq_num_of(&heartbeat(42)), Some(42));
    let reset = Message::SequenceReset(SequenceReset {
        message_type: String::from("4"),
        msg_header: header(42),
        new_seq_no: 5,
    });
    assert_eq!(seq_num_of(&reset), None);
}
