use quotesdirectlib::client::connection::{Phase, Step};
use quotesdirectlib::client::feeds::Feeds;
use quotesdirectlib::client::SDSClient;
use quotesdirectlib::fast::{Heartbeat, Message, MsgHeader, News, SecurityDefinition};
use quotesdirectlib::sync::packets::TCPPacket;
use quotesdirectlib::Error;

fn header(msg_seq_num: u32) -> MsgHeader {
    MsgHeader {
        appl_ver_id: String::from("9"),
        sender_comp_id: String::from("CQG"),
        msg_seq_num,
        sending_time: 20250620102247000,
    }
}

fn definition(msg_seq_num: u32, appl_id: &str, security_id: u32, tot_num_reports: u32) -> Message {
    Message::MDSecurityDefinition(SecurityDefinition {
        message_type: String::from("d"),
        msg_header: header(msg_seq_num),
        tot_num_reports,
        events: None,
        security_group: None,
        symbol: None,
        security_name: String::from("EP"),
        security_desc: String::from("E-mini S&P 500"),
        security_id,
        security_id_source: 8,
        cfi_code: String::from("FXXXXX"),
        security_exchange: None,
        cqg_security_name: None,
        strike_price: None,
        strike_currency: None,
        currency: None,
        settl_currency: None,
        md_feed_types: None,
        instr_attrib: None,
        maturity_month_year: None,
        min_price_increment: Some(0.25f64.to_bits()),
        min_price_increment_amount: None,
        display_factor: None,
        appl_id: String::from(appl_id),
        most_active_flag: None,
        connections: vec![],
        trading_sessions: vec![],
        underlyings: None,
        security_sub_type: None,
        legs: None,
    })
}

fn heartbeat(msg_seq_num: u32) -> Message {
    Message::MDHeartbeat(Heartbeat { message_type: String::from("0"), msg_header: header(msg_seq_num) })
}

fn client_with_payload(len: usize) -> SDSClient {
    let mut client = SDSClient::new();
    client.read_file();
    client.packet_read(TCPPacket { seq_num: 1, sub_channel: 0, payload: vec![0; len] });
    client
}

#[test]
fn a_new_client_knows_nothing() {
    let client = SDSClient::new();
    assert_eq!(client.defs_count(), 0);
    assert_eq!(client.defs_count_total(), 0);
    assert!(client.is_subscribed());
    assert!(matches!(client.next_step(), Err(Error::SourceNotInitialized)));
}

#[test]
fn subscription_dedup() {
    let mut client = client_with_payload(2);
    let first = client.message_decoded(&definition(1, "85", 1001, 2), 1).unwrap();
    assert!(first.0.is_none());
    assert!(!first.1);
    assert_eq!(client.defs_count(), 1);
    let second = client.message_decoded(&definition(2, "85", 1001, 2), 1).unwrap();
    assert!(second.0.is_none());
    assert!(second.1);
    assert_eq!(client.defs_count(), 1);
    assert_eq!(client.defs_count_total(), 2);
    assert!(!client.is_subscribed());
}

#[test]
fn the_same_security_on_another_feed_is_new() {
    let mut client = client_with_payload(4);
    assert!(!client.message_decoded(&definition(1, "85", 7, 4), 1).unwrap().1);
    assert!(!client.message_decoded(&definition(2, "86", 7, 4), 1).unwrap().1);
    assert!(!client.message_decoded(&definition(3, "85", 8, 4), 1).unwrap().1);
    assert!(client.message_decoded(&definition(4, "86", 7, 4), 1).unwrap().1);
    assert_eq!(client.defs_count(), 3);
}

#[test]
fn pairs_that_share_a_sum_are_told_apart() {
    let mut client = client_with_payload(4);
    assert!(!client.message_decoded(&definition(1, "1", 0, 9), 1).unwrap().1);
    assert!(!client.message_decoded(&definition(2, "0", 1, 9), 1).unwrap().1);
    assert!(!client.message_decoded(&definition(3, "4294967295", u32::MAX, 9), 1).unwrap().1);
    assert!(client.message_decoded(&definition(4, "0", 1, 9), 1).unwrap().1);
    assert_eq!(client.defs_count(), 3);
}

#[test]
fn the_subscription_is_complete_when_the_total_is_reached() {
    let mut client = client_with_payload(3);
    client.message_decoded(&definition(1, "85", 1, 3), 1).unwrap();
    assert!(!client.is_subscribed());
    client.message_decoded(&definition(2, "85", 2, 3), 1).unwrap();
    assert!(!client.is_subscribed());
    client.message_decoded(&definition(3, "85", 3, 3), 1).unwrap();
    assert!(client.is_subscribed());
    assert_eq!((client.defs_count(), client.defs_count_total()), (3, 3));
}

#[test]
fn the_last_total_wins() {
    let mut client = client_with_payload(3);
    client.message_decoded(&definition(1, "85", 1, 10), 1).unwrap();
    assert_eq!(client.defs_count_total(), 10);
    client.message_decoded(&definition(2, "85", 2, 7), 1).unwrap();
    assert_eq!(client.defs_count_total(), 7);
    client.message_decoded(&definition(3, "85", 2, 5), 1).unwrap();
    assert_eq!(client.defs_count_total(), 5);
    assert_eq!(client.defs_count(), 2);
}

#[test]
fn the_count_never_falls() {
    let mut client = client_with_payload(6);
    let mut last = client.defs_count();
    for (n, security_id) in [5u32, 6, 5, 7, 6, 8].into_iter().enumerate() {
        client.message_decoded(&definition(n as u32 + 1, "12", security_id, 4), 1).unwrap();
        assert!(client.defs_count() >= last);
        last = client.defs_count();
    }
    assert_eq!(last, 4);
    assert!(client.is_subscribed());
}

#[test]
fn other_messages_pass_through() {
    let mut client = client_with_payload(2);
    client.message_decoded(&definition(1, "85", 1, 5), 1).unwrap();
    let out = client.message_decoded(&heartbeat(2), 1).unwrap();
    assert!(out.0.is_none());
    assert!(!out.1);
    assert_eq!((client.defs_count(), client.defs_count_total()), (1, 5));
}

#[test]
fn a_gap_in_the_message_numbers_is_reported_with_the_result() {
    let mut client = client_with_payload(1);
    let out = client.message_decoded(&definition(4, "85", 1, 5), 1).unwrap();
    let gap = out.0.unwrap();
    assert_eq!((gap.expected, gap.actual), (1, 4));
    assert!(!out.1);
}

#[test]
fn an_application_identifier_that_is_no_number_is_refused() {
    let mut client = client_with_payload(2);
    match client.message_decoded(&definition(1, "feed", 1, 5), 1) {
        Err(Error::InvalidApplId(id)) => assert_eq!(id, "feed"),
        other => panic!("unexpected: {:?}", other),
    }
    assert_eq!(client.defs_count(), 0);
    assert_eq!(client.defs_count_total(), 5);
    assert!(matches!(client.message_decoded(&definition(2, "", 1, 5), 1), Err(Error::InvalidApplId(_))));
}

#[test]
fn a_message_of_another_channel_is_refused_by_the_client() {
    let mut client = client_with_payload(1);
    let news = Message::News(News {
        message_type: String::from("B"),
        msg_header: header(1),
        message_encoding: String::new(),
        appl_id: String::from("85"),
        news_id: String::new(),
        news_source_id: 0,
        last_fragment: None,
        news_ref_ids: None,
        orig_time: None,
        urgency: None,
        news_branding: None,
        accession_number: None,
        encoded_headline: None,
        encoded_text: None,
        news_categories: None,
    });
    assert!(matches!(client.message_decoded(&news, 1), Err(Error::UnexpectedMessage)));
    assert!(matches!(client.next_step(), Ok(Step::ReadPacket)));
}

fn field(raw: &[u8], tag: &str) -> String {
    let text = String::from_utf8(raw.to_vec()).unwrap();
    let prefix = format!("{tag}=");
    text.split('\x01').find_map(|s| s.strip_prefix(prefix.as_str()).map(String::from)).unwrap()
}

#[test]
fn connect_gives_the_logon() {
    let mut client = SDSClient::new();
    let logon = client.connect("user", "password").unwrap();
    assert_eq!(field(&logon, "35"), "A");
    assert_eq!(field(&logon, "34"), "1");
    assert_eq!(field(&logon, "108"), "60");
    assert_eq!(field(&logon, "553"), "user");
    assert!(matches!(client.next_step(), Ok(Step::ReadPacket)));
}

#[test]
fn feeds_are_subscribed_in_rising_order() {
    let mut client = SDSClient::new();
    client.connect("user", "password").unwrap();
    let feeds = Feeds::from_str("107 1-3 !2").unwrap();
    let requests = client.subscribe_feeds(&feeds);
    let seen: Vec<(String, String)> =
        requests.iter().map(|r| (field(r, "34"), field(r, "1180"))).collect();
    let expected: Vec<(String, String)> = [("2", "1"), ("3", "3"), ("4", "107")]
        .into_iter()
        .map(|(a, b)| (String::from(a), String::from(b)))
        .collect();
    assert_eq!(seen, expected);
    let next = client.subscribe(9).unwrap();
    assert_eq!(field(&next, "34"), "5");
    let logout = client.logout().unwrap();
    assert_eq!(field(&logout, "34"), "6");
    assert_eq!(field(&logout, "35"), "5");
}

#[test]
fn a_replay_subscribes_to_nothing() {
    let mut client = SDSClient::new();
    client.read_file();
    let feeds = Feeds::from_str("1-3").unwrap();
    assert!(client.subscribe_feeds(&feeds).is_empty());
    assert!(client.subscribe(1).is_none());
    assert!(client.logout().is_none());
}

#[test]
fn the_client_keeps_the_payload_for_decoding() {
    let mut client = SDSClient::new();
    client.read_file();
    let gap = client.packet_read(TCPPacket { seq_num: 3, sub_channel: 0, payload: vec![1, 2, 3] });
    let gap = gap.unwrap();
    assert_eq!((gap.expected, gap.actual), (1, 3));
    assert_eq!(client.residual(), &[1, 2, 3]);
    client.message_decoded(&heartbeat(1), 2).unwrap();
    assert_eq!(client.residual(), &[3]);
}

#[test]
fn the_client_follows_the_phases_of_its_session() {
    let mut client = SDSClient::new();
    assert_eq!(client.phase(), Phase::Unconnected);
    client.connect("user", "password").unwrap();
    assert_eq!(client.phase(), Phase::Authenticated);
    assert_eq!(client.out_seq_num(), 2);
    client.packet_read(TCPPacket { seq_num: 1, sub_channel: 0, payload: vec![0] });
    assert_eq!(client.phase(), Phase::Streaming);
    assert_eq!(client.in_seq_num_pkt(), 2);
    client.message_decoded(&heartbeat(1), 1).unwrap();
    assert_eq!(client.in_seq_num_msg(), 2);
    client.stream_ended();
    assert_eq!(client.phase(), Phase::Closed);
}

#[test]
fn the_client_tells_what_it_can_take() {
    let mut client = SDSClient::new();
    client.connect("user", "password").unwrap();
    assert!(client.can_send(10));
    assert!(!client.can_send(u32::MAX as usize));
    let packet = TCPPacket { seq_num: u32::MAX, sub_channel: 0, payload: vec![] };
    assert!(!client.accepts_packet(&packet));
    let packet = TCPPacket { seq_num: 1, sub_channel: 0, payload: vec![9] };
    assert!(client.accepts_packet(&packet));
    client.packet_read(packet);
    assert!(client.accepts_message(&definition(1, "85", 1, 1), 1));
    assert!(!client.accepts_message(&definition(1, "85", 1, 1), 2));
    assert!(!client.accepts_message(&heartbeat(u32::MAX), 1));
}

#[test]
fn the_default_client_is_a_new_client() {
    let client = SDSClient::default();
    assert_eq!(client.defs_count(), 0);
    assert_eq!(client.defs_count_total(), 0);
    assert_eq!(client.phase(), Phase::Unconnected);
    assert_eq!(client.out_seq_num(), 1);
    assert_eq!(client.in_seq_num_pkt(), 1);
    assert_eq!(client.in_seq_num_msg(), 1);
}
