use quotesdirectlib::sync::packets::{read_var_uint, write_var_uint, TCPPacket, UDPPacket};
use quotesdirectlib::Error;
use std::collections::VecDeque;

#[test]
fn udp_buffer_shorter_than_the_preamble_is_refused() {
    for len in 0..5usize {
        let buffer = vec![0u8; len];
        match UDPPacket::read(&buffer) {
            Err(Error::InvalidPacketLength(n)) => assert_eq!(n, len as u64),
            other => panic!("unexpected: {:?}", other),
        }
    }
}

#[test]
fn udp_buffer_of_five_bytes_has_an_empty_payload() {
    let buffer = [0x00, 0x00, 0x00, 0x07, 0x00];
    let packet = UDPPacket::read(&buffer).unwrap();
    assert_eq!(packet.seq_num, 7);
    assert_eq!(packet.sub_channel, 0);
    assert!(packet.payload.is_empty());
}

#[test]
fn udp_preamble_is_big_endian() {
    let buffer = [0x12, 0x34, 0x56, 0x78, 0x09, 0xaa, 0xbb];
    let packet = UDPPacket::read(&buffer).unwrap();
    assert_eq!(packet.seq_num, 0x1234_5678);
    assert_eq!(packet.sub_channel, 9);
    assert_eq!(packet.payload, &[0xaa, 0xbb]);
}

#[test]
fn udp_sequence_number_can_be_the_largest() {
    let buffer = [0xff, 0xff, 0xff, 0xff, 0xff];
    let packet = UDPPacket::read(&buffer).unwrap();
    assert_eq!(packet.seq_num, u32::MAX);
    assert_eq!(packet.sub_channel, 0xff);
}

#[test]
fn tcp_frame_is_length_preamble_payload() {
    let mut stream = VecDeque::new();
    TCPPacket { seq_num: 0x0102_0304, sub_channel: 0, payload: vec![0xaa, 0xbb, 0xcc] }
        .write(&mut stream);
    let bytes: Vec<u8> = stream.into_iter().collect();
    assert_eq!(bytes, vec![0x88, 0x01, 0x02, 0x03, 0x04, 0x00, 0xaa, 0xbb, 0xcc]);
}

fn round_trip(seq_num: u32, sub_channel: u8, payload: Vec<u8>) {
    let mut stream = VecDeque::new();
    TCPPacket { seq_num, sub_channel, payload: payload.clone() }.write(&mut stream);
    let packet = TCPPacket::read(&mut stream).unwrap().unwrap();
    assert_eq!(packet.seq_num, seq_num);
    assert_eq!(packet.sub_channel, sub_channel);
    assert_eq!(packet.payload, payload);
    assert!(stream.is_empty());
}

#[test]
fn tcp_round_trip_with_an_empty_payload() {
    round_trip(1, 0, vec![]);
}

#[test]
fn tcp_round_trip_with_one_byte() {
    round_trip(2, 0, vec![0x42]);
}

#[test]
fn tcp_round_trip_with_a_two_byte_length() {
    round_trip(3, 1, (0..200u32).map(|i| i as u8).collect());
}

#[test]
fn tcp_round_trip_with_a_three_byte_length() {
    round_trip(u32::MAX, 0xff, (0..20_000u32).map(|i| (i % 251) as u8).collect());
}

#[test]
fn tcp_frames_follow_each_other() {
    let mut stream = VecDeque::new();
    TCPPacket { seq_num: 1, sub_channel: 0, payload: vec![1, 2] }.write(&mut stream);
    TCPPacket { seq_num: 2, sub_channel: 0, payload: vec![] }.write(&mut stream);
    TCPPacket { seq_num: 3, sub_channel: 0, payload: vec![3] }.write(&mut stream);
    let first = TCPPacket::read(&mut stream).unwrap().unwrap();
    assert_eq!((first.seq_num, first.payload), (1, vec![1, 2]));
    let second = TCPPacket::read(&mut stream).unwrap().unwrap();
    assert_eq!((second.seq_num, second.payload), (2, vec![]));
    let third = TCPPacket::read(&mut stream).unwrap().unwrap();
    assert_eq!((third.seq_num, third.payload), (3, vec![3]));
    assert!(matches!(TCPPacket::read(&mut stream), Ok(None)));
}

#[test]
fn tcp_read_of_an_empty_stream_is_a_clean_end() {
    let mut stream = VecDeque::new();
    assert!(matches!(TCPPacket::read(&mut stream), Ok(None)));
}

#[test]
fn tcp_length_below_five_is_refused() {
    for len in 0..5u8 {
        let mut stream = VecDeque::from(vec![0x80 | len, 1, 2, 3]);
        match TCPPacket::read(&mut stream) {
            Err(Error::InvalidPacketLength(n)) => assert_eq!(n, len as u64),
            other => panic!("unexpected: {:?}", other),
        }
        assert_eq!(stream, VecDeque::from(vec![1, 2, 3]));
    }
}

#[test]
fn tcp_stream_that_ends_in_the_length_is_an_error() {
    let mut stream = VecDeque::from(vec![0x01, 0x02]);
    assert!(matches!(TCPPacket::read(&mut stream), Err(Error::UnexpectedEof)));
    assert!(stream.is_empty());
}

#[test]
fn tcp_stream_that_ends_in_the_preamble_is_an_error() {
    let mut stream = VecDeque::from(vec![0x85, 0, 0, 0]);
    assert!(matches!(TCPPacket::read(&mut stream), Err(Error::UnexpectedEof)));
    assert!(stream.is_empty());
}

#[test]
fn tcp_stream_that_ends_in_the_payload_is_an_error() {
    let mut stream = VecDeque::from(vec![0x87, 0, 0, 0, 1, 0, 0xaa]);
    assert!(matches!(TCPPacket::read(&mut stream), Err(Error::UnexpectedEof)));
    assert!(stream.is_empty());
}

#[test]
fn tcp_length_larger_than_memory_is_an_error() {
    let mut stream = VecDeque::from(vec![
        0x01, 0x7f, 0x7f, 0x7f, 0x7f, 0x7f, 0x7f, 0x7f, 0x7f, 0xff, 0, 0, 0, 1, 0, 9,
    ]);
    assert!(matches!(TCPPacket::read(&mut stream), Err(Error::UnexpectedEof)));
}

#[test]
fn var_uint_read_of_an_empty_stream_is_no_value() {
    let mut stream = VecDeque::new();
    assert!(matches!(read_var_uint(&mut stream), Ok(None)));
}

#[test]
fn var_uint_cut_short_is_an_error() {
    let mut stream = VecDeque::from(vec![0x01]);
    assert!(matches!(read_var_uint(&mut stream), Err(Error::UnexpectedEof)));
    let mut stream = VecDeque::from(vec![0x01, 0x02, 0x03]);
    assert!(matches!(read_var_uint(&mut stream), Err(Error::UnexpectedEof)));
}

#[test]
fn var_uint_read_leaves_what_follows() {
    let mut stream = VecDeque::from(vec![0x01, 0x80, 0x55]);
    assert!(matches!(read_var_uint(&mut stream), Ok(Some(128))));
    assert_eq!(stream, VecDeque::from(vec![0x55]));
}

#[test]
fn var_uint_write_then_read() {
    for v in [0u64, 5, 127, 128, 16384, 16389, u64::MAX] {
        let mut stream = VecDeque::new();
        write_var_uint(&mut stream, v);
        match read_var_uint(&mut stream) {
            Ok(Some(got)) => assert_eq!(got, v),
            other => panic!("unexpected: {:?}", other),
        }
        assert!(stream.is_empty());
    }
}

#[test]
fn var_uint_write_appends() {
    let mut stream = VecDeque::from(vec![0x11]);
    write_var_uint(&mut stream, 300);
    assert_eq!(stream, VecDeque::from(vec![0x11, 0x02, 0xac]));
}

#[test]
fn missing_is_one_while_the_length_is_open() {
    assert_eq!(TCPPacket::missing(&[]), 1);
    assert_eq!(TCPPacket::missing(&[0x01]), 1);
    assert_eq!(TCPPacket::missing(&[0x01, 0x00]), 1);
}

#[test]
fn missing_is_the_rest_of_the_frame() {
    assert_eq!(TCPPacket::missing(&[0x88]), 8);
    assert_eq!(TCPPacket::missing(&[0x88, 0, 0]), 6);
    assert_eq!(TCPPacket::missing(&[0x88, 0, 0, 0, 1, 0, 0xaa, 0xbb]), 1);
    assert_eq!(TCPPacket::missing(&[0x01, 0x00, 0x80]), 16384);
}

#[test]
fn missing_is_nothing_for_a_whole_frame() {
    assert_eq!(TCPPacket::missing(&[0x85, 0, 0, 0, 1, 0]), 0);
    assert_eq!(TCPPacket::missing(&[0x88, 0, 0, 0, 1, 0, 0xaa, 0xbb, 0xcc]), 0);
    assert_eq!(TCPPacket::missing(&[0x85, 0, 0, 0, 1, 0, 0x99]), 0);
}

#[test]
fn missing_is_nothing_for_a_bad_length() {
    assert_eq!(TCPPacket::missing(&[0x84]), 0);
    assert_eq!(TCPPacket::missing(&[0x80]), 0);
}

#[test]
fn a_reader_that_follows_missing_gets_each_frame() {
    let mut wire = VecDeque::new();
    TCPPacket { seq_num: 1, sub_channel: 0, payload: vec![7; 300] }.write(&mut wire);
    TCPPacket { seq_num: 2, sub_channel: 0, payload: vec![] }.write(&mut wire);
    let mut wire: Vec<u8> = wire.into_iter().collect();
    for expected in [(1u32, 300usize), (2, 0)] {
        let mut held: Vec<u8> = Vec::new();
        loop {
            let n = TCPPacket::missing(&held) as usize;
            if n == 0 {
                break;
            }
            held.extend(wire.drain(..n));
        }
        let mut stream = VecDeque::from(held);
        let packet = TCPPacket::read(&mut stream).unwrap().unwrap();
        assert_eq!((packet.seq_num, packet.payload.len()), expected);
        assert!(stream.is_empty());
    }
    assert!(wire.is_empty());
}
