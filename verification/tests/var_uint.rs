use quotesdirectlib::var_uint::{decode, encode, push_group};

#[test]
fn zero_is_a_single_stop_byte() {
    assert_eq!(encode(0), vec![0x80]);
}

#[test]
fn small_values_take_one_byte() {
    assert_eq!(encode(1), vec![0x81]);
    assert_eq!(encode(5), vec![0x85]);
    assert_eq!(encode(127), vec![0xff]);
}

#[test]
fn groups_are_written_most_significant_first() {
    assert_eq!(encode(128), vec![0x01, 0x80]);
    assert_eq!(encode(300), vec![0x02, 0xac]);
    assert_eq!(encode(16383), vec![0x7f, 0xff]);
    assert_eq!(encode(16384), vec![0x01, 0x00, 0x80]);
    assert_eq!(encode(16389), vec![0x01, 0x00, 0x85]);
}

#[test]
fn the_largest_value_takes_ten_bytes() {
    assert_eq!(
        encode(u64::MAX),
        vec![0x01, 0x7f, 0x7f, 0x7f, 0x7f, 0x7f, 0x7f, 0x7f, 0x7f, 0xff]
    );
}

#[test]
fn decode_undoes_encode() {
    let values = [
        0u64,
        1,
        127,
        128,
        255,
        16383,
        16384,
        2_097_151,
        2_097_152,
        u32::MAX as u64,
        1 << 56,
        (1 << 57) - 1,
        1 << 63,
        u64::MAX - 1,
        u64::MAX,
    ];
    for v in values {
        let bytes = encode(v);
        assert_eq!(decode(&bytes), Some((v, bytes.len())));
    }
}

#[test]
fn decode_stops_behind_the_stop_byte() {
    assert_eq!(decode(&[0x85, 0x01, 0x02]), Some((5, 1)));
    assert_eq!(decode(&[0x01, 0x80, 0xff]), Some((128, 2)));
}

#[test]
fn decode_of_nothing_is_nothing() {
    assert_eq!(decode(&[]), None);
}

#[test]
fn decode_without_a_stop_byte_is_nothing() {
    assert_eq!(decode(&[0x01]), None);
    assert_eq!(decode(&[0x01, 0x02, 0x7f]), None);
}

#[test]
fn bits_beyond_the_64th_are_lost() {
    let bytes = [0x7f, 0x7f, 0x7f, 0x7f, 0x7f, 0x7f, 0x7f, 0x7f, 0x7f, 0x7f, 0x80];
    assert_eq!(decode(&bytes), Some((u64::MAX << 7, 11)));
}

#[test]
fn push_group_shifts_seven_bits_in() {
    assert_eq!(push_group(0, 0x85), 5);
    assert_eq!(push_group(1, 0x00), 128);
    assert_eq!(push_group(2, 0xac), 300);
    assert_eq!(push_group(u64::MAX, 0x7f), u64::MAX);
    assert_eq!(push_group(1 << 63, 0x01), 1);
}
