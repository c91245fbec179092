//! The control messages that a client sends to the Security Definition
//! Server and the Replay Server.
//!
//! A message is a run of `tag=value` fields. In its readable layout the
//! fields are separated by `|`:
//!
//! ```text
//! 8=FIX.5.0.SP2|9=<length>|35=<type>|34=<sequence>|49=CQG|52=<time>|...|10=<checksum>|
//! ```
//!
//! On the wire every `|` is the byte `0x01`. The length counts the bytes
//! behind the separator of field 9, up to and with the separator in front of
//! field 10. The checksum is the sum of all bytes in front of field 10,
//! modulo 256, in decimal.
use crate::buf::append;
use crate::decimal::{decimal, to_decimal};
use vstd::prelude::*;
use vstd::string::StringSliceAdditionalSpecFns;

verus! {

/// The byte that separates fields on the wire.
pub const SOH: u8 = 0x01;

/// The byte that stands for the separator in the readable layout.
pub const PIPE: u8 = 0x7c;

/// The heartbeat interval that a session asks for, in seconds.
pub const HEARTBEAT_INTERVAL_SEC: u32 = 60;

/// `text` with every `|` replaced by the separator.
pub open spec fn delimited(text: Seq<u8>) -> Seq<u8> {
    text.map_values(
        |b: u8|
            if b == PIPE {
                SOH
            } else {
                b
            },
    )
}

/// The sum of `bytes` modulo 256.
pub open spec fn checksum(bytes: Seq<u8>) -> u8
    decreases bytes.len(),
{
    if bytes.len() == 0 {
        0
    } else {
        ((checksum(bytes.drop_last()) + bytes.last()) % 256) as u8
    }
}

/// A message without its checksum field: the protocol and length fields,
/// then `text`, all as it goes on the wire.
pub open spec fn checked_part(text: Seq<u8>) -> Seq<u8> {
    delimited(
        "8=FIX.5.0.SP2|9=".spec_bytes() + decimal(text.len() + 1) + "|".spec_bytes() + text
            + "|".spec_bytes(),
    )
}

/// The message that carries the fields of `text`, as it goes on the wire.
pub open spec fn message(text: Seq<u8>) -> Seq<u8> {
    checked_part(text) + "10=".spec_bytes() + decimal(checksum(checked_part(text)) as nat)
        + seq![SOH]
}

/// The fields that every message starts with, in the readable layout.
pub open spec fn header_text(sequence: u32, msg_type: Seq<u8>, sending_time: Seq<u8>) -> Seq<u8> {
    "35=".spec_bytes() + msg_type + "|34=".spec_bytes() + decimal(sequence as nat)
        + "|49=CQG|52=".spec_bytes() + sending_time
}

/// The fields of a logon behind the header, in the readable layout.
pub open spec fn login_fields(user: Seq<u8>, password: Seq<u8>, heartbeat_interval_sec: u32) -> Seq<
    u8,
> {
    "|108=".spec_bytes() + decimal(heartbeat_interval_sec as nat) + "|553=".spec_bytes() + user
        + "|554=".spec_bytes() + password
}

/// The fields of a logout behind the header, in the readable layout.
pub open spec fn logout_fields(text: Seq<u8>) -> Seq<u8> {
    "|58=".spec_bytes() + text
}

/// The fields of a security definition request behind the header, in the
/// readable layout.
pub open spec fn request_fields(feed_id: u32) -> Seq<u8> {
    "|1180=".spec_bytes() + decimal(feed_id as nat)
}

/// The fields of a logon, in the readable layout.
pub open spec fn login_text(
    sequence: u32,
    user: Seq<u8>,
    password: Seq<u8>,
    heartbeat_interval_sec: u32,
    sending_time: Seq<u8>,
) -> Seq<u8> {
    header_text(sequence, "A".spec_bytes(), sending_time) + login_fields(
        user,
        password,
        heartbeat_interval_sec,
    )
}

/// The fields of a logout, in the readable layout.
pub open spec fn logout_text(sequence: u32, text: Seq<u8>, sending_time: Seq<u8>) -> Seq<u8> {
    header_text(sequence, "5".spec_bytes(), sending_time) + logout_fields(text)
}

/// The fields of a security definition request, in the readable layout.
pub open spec fn request_text(sequence: u32, feed_id: u32, sending_time: Seq<u8>) -> Seq<u8> {
    header_text(sequence, "c".spec_bytes(), sending_time) + request_fields(feed_id)
}

/// Replaces every `|` by the separator.
fn delimit(text: &[u8]) -> (out: Vec<u8>)
    ensures
        out@ == delimited(text@),
{
    let mut out: Vec<u8> = Vec::with_capacity(text.len());
    let mut i: usize = 0;
    while i < text.len()
        invariant
            i <= text@.len(),
            out@ == delimited(text@.take(i as int)),
        decreases text@.len() - i,
    {
        let b: u8 = text[i];
        out.push(
            if b == PIPE {
                SOH
            } else {
                b
            },
        );
        i = i + 1;
        assert(out@ =~= delimited(text@.take(i as int)));
    }
    assert(text@.take(i as int) =~= text@);
    out
}

/// Adds up `bytes` modulo 256.
fn sum(bytes: &[u8]) -> (crc: u8)
    ensures
        crc == checksum(bytes@),
{
    let mut crc: u8 = 0;
    let mut i: usize = 0;
    while i < bytes.len()
        invariant
            i <= bytes@.len(),
            crc == checksum(bytes@.take(i as int)),
        decreases bytes@.len() - i,
    {
        assert(bytes@.take(i + 1).drop_last() =~= bytes@.take(i as int));
        crc = crc.wrapping_add(bytes[i]);
        i = i + 1;
    }
    assert(bytes@.take(i as int) =~= bytes@);
    crc
}

/// Frames the fields of `text`: puts the protocol and length fields in
/// front, substitutes the separator, and closes with the checksum field.
fn frame(text: &[u8]) -> (out: Vec<u8>)
    ensures
        out@ == message(text@),
{
    let length: u128 = text.len() as u128 + 1;
    let mut plain: Vec<u8> = Vec::new();
    append(&mut plain, "8=FIX.5.0.SP2|9=".as_bytes());
    append(&mut plain, to_decimal(length).as_slice());
    append(&mut plain, "|".as_bytes());
    append(&mut plain, text);
    append(&mut plain, "|".as_bytes());
    let mut out = delimit(plain.as_slice());
    let crc: u8 = sum(out.as_slice());
    append(&mut out, "10=".as_bytes());
    append(&mut out, to_decimal(crc as u128).as_slice());
    out.push(SOH);
    out
}

/// Frames the fields of `text`, given in the readable layout, as a message.
pub fn fixit(text: &str) -> (out: Vec<u8>)
    ensures
        out@ == message(text.spec_bytes()),
{
    frame(text.as_bytes())
}

/// The fields that every message starts with.
fn header(sequence: u32, msg_type: &str, sending_time: &str) -> (out: Vec<u8>)
    ensures
        out@ == header_text(sequence, msg_type.spec_bytes(), sending_time.spec_bytes()),
{
    let mut out: Vec<u8> = Vec::new();
    append(&mut out, "35=".as_bytes());
    append(&mut out, msg_type.as_bytes());
    append(&mut out, "|34=".as_bytes());
    append(&mut out, to_decimal(sequence as u128).as_slice());
    append(&mut out, "|49=CQG|52=".as_bytes());
    append(&mut out, sending_time.as_bytes());
    out
}

/// Builds a message of type `msg_type`: the header with `sequence` and
/// `sending_time`, then `fields`, which are the fields of that type in the
/// readable layout, each with `|` in front; then the whole is framed.
pub fn build(msg_type: &str, sequence: u32, sending_time: &str, fields: &[u8]) -> (out: Vec<u8>)
    ensures
        out@ == message(
            header_text(sequence, msg_type.spec_bytes(), sending_time.spec_bytes()) + fields@,
        ),
{
    let mut text = header(sequence, msg_type, sending_time);
    append(&mut text, fields);
    frame(text.as_slice())
}

/// The logon message with the given sending time.
pub fn login_at(
    sequence: u32,
    user: &str,
    password: &str,
    heartbeat_interval_sec: u32,
    sending_time: &str,
) -> (out: Vec<u8>)
    ensures
        out@ == message(
            login_text(
                sequence,
                user.spec_bytes(),
                password.spec_bytes(),
                heartbeat_interval_sec,
                sending_time.spec_bytes(),
            ),
        ),
{
    let mut fields: Vec<u8> = Vec::new();
    append(&mut fields, "|108=".as_bytes());
    append(&mut fields, to_decimal(heartbeat_interval_sec as u128).as_slice());
    append(&mut fields, "|553=".as_bytes());
    append(&mut fields, user.as_bytes());
    append(&mut fields, "|554=".as_bytes());
    append(&mut fields, password.as_bytes());
    assert(fields@ =~= login_fields(
        user.spec_bytes(),
        password.spec_bytes(),
        heartbeat_interval_sec,
    ));
    build("A", sequence, sending_time, fields.as_slice())
}

/// The logout message with the given sending time.
pub fn logout_at(sequence: u32, message: &str, sending_time: &str) -> (out: Vec<u8>)
    ensures
        out@ == self::message(
            logout_text(sequence, message.spec_bytes(), sending_time.spec_bytes()),
        ),
{
    let mut fields: Vec<u8> = Vec::new();
    append(&mut fields, "|58=".as_bytes());
    append(&mut fields, message.as_bytes());
    assert(fields@ =~= logout_fields(message.spec_bytes()));
    build("5", sequence, sending_time, fields.as_slice())
}

/// The security definition request with the given sending time.
pub fn request_at(sequence: u32, feed_id: u32, sending_time: &str) -> (out: Vec<u8>)
    ensures
        out@ == message(request_text(sequence, feed_id, sending_time.spec_bytes())),
{
    let mut fields: Vec<u8> = Vec::new();
    append(&mut fields, "|1180=".as_bytes());
    append(&mut fields, to_decimal(feed_id as u128).as_slice());
    assert(fields@ =~= request_fields(feed_id));
    build("c", sequence, sending_time, fields.as_slice())
}

/// The layout of the sending time: date, a hyphen, time of day to the second.
pub const SENDING_TIME_LAYOUT: &'static str = "%Y%m%d-%H:%M:%S";

/// The present time in UTC, written in `layout`.
///
/// This calls `Utc::now` and `DateTime::format` of the chrono crate. The text
/// depends on the clock, so nothing is claimed of it. The layout is held to
/// the one that the protocol uses, which chrono accepts.
#[verifier::external_body]
fn utc_now(layout: &str) -> (time: String)
    requires
        layout@ == SENDING_TIME_LAYOUT@,
{
    chrono::Utc::now().format(layout).to_string()
}

/// The logon message, sent to open a session. The sending time is the
/// present time.
#[must_use]
pub fn login(sequence: u32, user: &str, password: &str, heartbeat_interval_sec: u32) -> (out: Vec<
    u8,
>)
    ensures
        exists|sending_time: Seq<u8>|
            out@ == message(
                #[trigger] login_text(
                    sequence,
                    user.spec_bytes(),
                    password.spec_bytes(),
                    heartbeat_interval_sec,
                    sending_time,
                ),
            ),
{
    let time = utc_now(SENDING_TIME_LAYOUT);
    login_at(sequence, user, password, heartbeat_interval_sec, time.as_str())
}

/// The logout message, sent to close a session. The sending time is the
/// present time.
#[must_use]
pub fn logout(sequence: u32, message: &str) -> (out: Vec<u8>)
    ensures
        exists|sending_time: Seq<u8>|
            out@ == self::message(
                #[trigger] logout_text(sequence, message.spec_bytes(), sending_time),
            ),
{
    let time = utc_now(SENDING_TIME_LAYOUT);
    logout_at(sequence, message, time.as_str())
}

/// The security definition request, sent to subscribe to a feed. The sending
/// time is the present time.
#[must_use]
pub fn request(sequence: u32, feed_id: u32) -> (out: Vec<u8>)
    ensures
        exists|sending_time: Seq<u8>|
            out@ == message(#[trigger] request_text(sequence, feed_id, sending_time)),
{
    let time = utc_now(SENDING_TIME_LAYOUT);
    request_at(sequence, feed_id, time.as_str())
}

} // verus!
