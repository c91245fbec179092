//! Packet formats of the feed.
//!
//! A preamble of five bytes precedes every FAST-encoded payload: the
//! sequence number as four bytes, most significant first, then the
//! sub-channel, which is zero at present.
//!
//! A UDP datagram is a preamble and a payload. Over TCP a stop-bit integer
//! comes first and gives the number of bytes that follow it: five for the
//! preamble, and the payload's.
//!
//! Streams are queues of bytes: what is written is appended at the back, and
//! reading takes from the front.
use crate::var_uint::{decode, decoding, encode, encoding, lemma_decode_encode};
use crate::Error;
use std::collections::VecDeque;
use vstd::prelude::*;

verus! {

/// The number of bytes in a preamble.
pub const PREAMBLE_LEN: usize = 5;

/// The number that four bytes spell, the first weighing most.
pub open spec fn be_u32(b: Seq<u8>) -> u32
    recommends
        b.len() == 4,
{
    (((b[0] as int * 256 + b[1]) * 256 + b[2]) * 256 + b[3]) as u32
}

/// The five bytes that precede a payload.
pub open spec fn preamble(seq_num: u32, sub_channel: u8) -> Seq<u8> {
    seq![
        (seq_num / 0x100_0000) as u8,
        (seq_num / 0x1_0000 % 256) as u8,
        (seq_num / 0x100 % 256) as u8,
        (seq_num % 256) as u8,
        sub_channel,
    ]
}

/// A packet received as one UDP datagram. The payload borrows from the
/// datagram.
#[derive(Debug)]
pub struct UDPPacket<'a> {
    pub seq_num: u32,
    pub sub_channel: u8,
    pub payload: &'a [u8],
}

/// Reads a sequence number from the first four bytes of `bytes`.
fn read_be_u32(bytes: &[u8]) -> (n: u32)
    requires
        bytes@.len() >= 4,
    ensures
        n == be_u32(bytes@.take(4)),
{
    let b0: u8 = bytes[0];
    let b1: u8 = bytes[1];
    let b2: u8 = bytes[2];
    let b3: u8 = bytes[3];
    let n: u32 = (b0 as u32) << 24 | (b1 as u32) << 16 | (b2 as u32) << 8 | (b3 as u32);
    assert(n == (((b0 as int * 256 + b1) * 256 + b2) * 256 + b3) as u32) by (bit_vector)
        requires
            n == (b0 as u32) << 24 | (b1 as u32) << 16 | (b2 as u32) << 8 | (b3 as u32),
    ;
    n
}

impl<'a> UDPPacket<'a> {
    /// Takes a datagram apart.
    ///
    /// A datagram of fewer than five bytes has no room for the preamble and
    /// is refused with its length. Otherwise the first four bytes are the
    /// sequence number, the fifth is the sub-channel and the rest is the
    /// payload.
    pub fn read(buffer: &'a [u8]) -> (packet: Result<UDPPacket<'a>, Error>)
        ensures
            match packet {
                Ok(p) => {
                    &&& buffer@.len() >= 5
                    &&& p.seq_num == be_u32(buffer@.take(4))
                    &&& p.sub_channel == buffer@[4]
                    &&& p.payload@ == buffer@.skip(5)
                },
                Err(e) => buffer@.len() < 5 && e == Error::InvalidPacketLength(
                    buffer@.len() as u64,
                ),
            },
    {
        if buffer.len() < PREAMBLE_LEN {
            return Err(Error::InvalidPacketLength(buffer.len() as u64));
        }
        Ok(
            UDPPacket {
                seq_num: read_be_u32(buffer),
                sub_channel: buffer[4],
                payload: vstd::slice::slice_subrange(buffer, PREAMBLE_LEN, buffer.len()),
            },
        )
    }
}

/// A packet received from, or to be sent over, a TCP stream. The payload is
/// owned.
#[derive(Debug)]
pub struct TCPPacket {
    pub seq_num: u32,
    pub sub_channel: u8,
    pub payload: Vec<u8>,
}

/// What stands at the front of a stream of frames.
pub enum Front {
    /// Nothing: the stream has ended between two frames.
    End,
    /// A length field below five, which no frame can have.
    BadLength(u64),
    /// The beginning of a frame, and the stream ends inside it.
    Truncated,
    /// A whole frame of `len` bytes, its length field included.
    Packet { seq_num: u32, sub_channel: u8, payload: Seq<u8>, len: int },
}

/// Reads the front of the stream `s` as a frame.
pub open spec fn front(s: Seq<u8>) -> Front {
    if s.len() == 0 {
        Front::End
    } else {
        match decoding(s) {
            None => Front::Truncated,
            Some((len, n)) => if len < 5 {
                Front::BadLength(len)
            } else if s.len() < n + len {
                Front::Truncated
            } else {
                Front::Packet {
                    seq_num: be_u32(s.subrange(n, n + 4)),
                    sub_channel: s[n + 4],
                    payload: s.subrange(n + 5, n + len),
                    len: n + len,
                }
            },
        }
    }
}

/// The frame that carries a packet: its length, the preamble, the payload.
pub open spec fn frame(seq_num: u32, sub_channel: u8, payload: Seq<u8>) -> Seq<u8>
    recommends
        5 + payload.len() <= u64::MAX,
{
    encoding((5 + payload.len()) as u64) + preamble(seq_num, sub_channel) + payload
}

/// How many bytes a reader that holds `s` must still obtain before it holds a
/// whole frame, or knows that there is none: one as long as the length field
/// is open, then what is left of the frame.
pub open spec fn missing(s: Seq<u8>) -> nat {
    match decoding(s) {
        None => 1,
        Some((len, n)) => if len < 5 || s.len() >= n + len {
            0
        } else {
            (n + len - s.len()) as nat
        },
    }
}

/// Takes the next `n` bytes from the front of `input`. Where fewer are left,
/// takes them all and returns `None`.
fn read_exact(input: &mut VecDeque<u8>, n: usize) -> (bytes: Option<Vec<u8>>)
    ensures
        match bytes {
            Some(b) => {
                &&& n <= old(input)@.len()
                &&& b@ == old(input)@.take(n as int)
                &&& final(input)@ == old(input)@.skip(n as int)
            },
            None => n > old(input)@.len() && final(input)@ == Seq::<u8>::empty(),
        },
{
    if n > input.len() {
        input.clear();
        return None;
    }
    let mut out: Vec<u8> = Vec::with_capacity(n);
    let mut i: usize = 0;
    while i < n
        invariant
            i <= n <= old(input)@.len(),
            out@ == old(input)@.take(i as int),
            input@ == old(input)@.skip(i as int),
        decreases n - i,
    {
        match input.pop_front() {
            Some(b) => {
                out.push(b);
            },
            None => {
                assert(false);
            },
        }
        i = i + 1;
        assert(out@ =~= old(input)@.take(i as int));
        assert(input@ =~= old(input)@.skip(i as int));
    }
    Some(out)
}

/// Appends `bytes` at the back of `output`.
fn write_all(output: &mut VecDeque<u8>, bytes: &[u8])
    ensures
        final(output)@ == old(output)@ + bytes@,
{
    let mut i: usize = 0;
    while i < bytes.len()
        invariant
            i <= bytes@.len(),
            output@ == old(output)@ + bytes@.take(i as int),
        decreases bytes@.len() - i,
    {
        output.push_back(bytes[i]);
        i = i + 1;
        assert(output@ =~= old(output)@ + bytes@.take(i as int));
    }
    assert(bytes@.take(i as int) =~= bytes@);
}

/// Reads a stop-bit integer from the front of `input`.
///
/// An empty stream is a clean end and gives `Ok(None)`. A stream that ends
/// after the first byte and before a stop byte is an error, and is consumed
/// whole. Otherwise the value's bytes are consumed and the value returned.
pub fn read_var_uint(input: &mut VecDeque<u8>) -> (out: Result<Option<u64>, Error>)
    ensures
        match out {
            Ok(None) => old(input)@.len() == 0 && final(input)@ == old(input)@,
            Ok(Some(value)) => {
                &&& decoding(old(input)@) matches Some((v, n))
                &&& value == v
                &&& final(input)@ == old(input)@.skip(n)
            },
            Err(e) => {
                &&& old(input)@.len() > 0
                &&& decoding(old(input)@) is None
                &&& e == Error::UnexpectedEof
                &&& final(input)@ == Seq::<u8>::empty()
            },
        },
{
    let mut value: u64 = 0;
    let mut byte: u8 = match input.pop_front() {
        Some(b) => b,
        None => {
            return Ok(None);
        },
    };
    let ghost mut i: int = 0;
    loop
        invariant
            0 <= i < old(input)@.len(),
            byte == old(input)@[i],
            input@ == old(input)@.skip(i + 1),
            value == crate::var_uint::value_of(old(input)@.take(i)),
            forall|k: int| 0 <= k < i ==> !crate::var_uint::is_stop(#[trigger] old(input)@[k]),
        decreases old(input)@.len() - i,
    {
        value = crate::var_uint::push_group(value, byte);
        assert(old(input)@.take(i + 1).drop_last() =~= old(input)@.take(i));
        if crate::var_uint::has_stop_bit(byte) {
            proof {
                crate::var_uint::lemma_first_len_at(old(input)@, i);
            }
            return Ok(Some(value));
        }
        match input.pop_front() {
            Some(b) => {
                byte = b;
            },
            None => {
                proof {
                    crate::var_uint::lemma_first_len_none(old(input)@);
                    assert(input@ =~= Seq::<u8>::empty());
                }
                return Err(Error::UnexpectedEof);
            },
        }
        proof {
            i = i + 1;
            assert(input@ =~= old(input)@.skip(i + 1));
        }
    }
}

/// Writes `value` as a stop-bit integer at the back of `output`.
pub fn write_var_uint(output: &mut VecDeque<u8>, value: u64)
    ensures
        final(output)@ == old(output)@ + encoding(value),
{
    let buf = encode(value);
    write_all(output, buf.as_slice());
}

/// The five bytes of a preamble.
fn preamble_bytes(seq_num: u32, sub_channel: u8) -> (out: Vec<u8>)
    ensures
        out@ == preamble(seq_num, sub_channel),
{
    let b0: u8 = #[verifier::truncate] ((seq_num >> 24) as u8);
    let b1: u8 = #[verifier::truncate] ((seq_num >> 16) as u8);
    let b2: u8 = #[verifier::truncate] ((seq_num >> 8) as u8);
    let b3: u8 = #[verifier::truncate] (seq_num as u8);
    assert({
        &&& b0 == (seq_num / 0x100_0000) as u8
        &&& b1 == (seq_num / 0x1_0000 % 256) as u8
        &&& b2 == (seq_num / 0x100 % 256) as u8
        &&& b3 == (seq_num % 256) as u8
    }) by (bit_vector)
        requires
            b0 == (seq_num >> 24) as u8,
            b1 == (seq_num >> 16) as u8,
            b2 == (seq_num >> 8) as u8,
            b3 == seq_num as u8,
    ;
    let mut out: Vec<u8> = Vec::with_capacity(PREAMBLE_LEN);
    out.push(b0);
    out.push(b1);
    out.push(b2);
    out.push(b3);
    out.push(sub_channel);
    assert(out@ =~= preamble(seq_num, sub_channel));
    out
}

impl TCPPacket {
    /// Reads one frame from the front of `input`.
    ///
    /// An empty stream is a clean end and gives `Ok(None)`. A length below
    /// five is refused with that length, and only the length field is
    /// consumed. A stream that ends inside the frame is an error, and is
    /// consumed whole. Otherwise the frame is consumed and its packet
    /// returned.
    pub fn read(input: &mut VecDeque<u8>) -> (out: Result<Option<TCPPacket>, Error>)
        ensures
            match front(old(input)@) {
                Front::End => out matches Ok(None) && final(input)@ == old(input)@,
                Front::BadLength(len) => {
                    &&& out matches Err(e)
                    &&& e == Error::InvalidPacketLength(len)
                    &&& decoding(old(input)@) matches Some((_, n))
                    &&& final(input)@ == old(input)@.skip(n)
                },
                Front::Truncated => {
                    &&& out matches Err(e)
                    &&& e == Error::UnexpectedEof
                    &&& final(input)@ == Seq::<u8>::empty()
                },
                Front::Packet { seq_num, sub_channel, payload, len } => {
                    &&& out matches Ok(Some(p))
                    &&& p.seq_num == seq_num
                    &&& p.sub_channel == sub_channel
                    &&& p.payload@ == payload
                    &&& final(input)@ == old(input)@.skip(len)
                },
            },
    {
        let len: u64 = match read_var_uint(input) {
            Ok(Some(len)) => {
                if len < 5 {
                    return Err(Error::InvalidPacketLength(len));
                }
                len - 5
            },
            Ok(None) => {
                return Ok(None);
            },
            Err(e) => {
                return Err(e);
            },
        };
        let ghost s = old(input)@;
        let ghost n: int = match decoding(s) {
            Some((_, n)) => n,
            None => 0,
        };
        let head = match read_exact(input, PREAMBLE_LEN) {
            Some(head) => head,
            None => {
                return Err(Error::UnexpectedEof);
            },
        };
        if len > input.len() as u64 {
            input.clear();
            return Err(Error::UnexpectedEof);
        }
        let payload = match read_exact(input, len as usize) {
            Some(payload) => payload,
            None => {
                return Err(Error::UnexpectedEof);
            },
        };
        proof {
            crate::var_uint::lemma_first_len_bound(s);
            assert(head@.take(4) =~= s.subrange(n, n + 4));
            assert(head@[4] == s[n + 4]);
            assert(payload@ =~= s.subrange(n + 5, n + 5 + len));
            assert(input@ =~= s.skip(n + 5 + len));
        }
        Ok(
            Some(
                TCPPacket {
                    seq_num: read_be_u32(head.as_slice()),
                    sub_channel: head[4],
                    payload,
                },
            ),
        )
    }

    /// Writes the packet as one frame at the back of `output`: the length,
    /// the preamble, the payload.
    pub fn write(self, output: &mut VecDeque<u8>)
        requires
            5 + self.payload@.len() <= u64::MAX,
        ensures
            final(output)@ == old(output)@ + frame(self.seq_num, self.sub_channel, self.payload@),
    {
        let len: u64 = 5 + (self.payload.len() as u64);
        write_var_uint(output, len);
        let head = preamble_bytes(self.seq_num, self.sub_channel);
        write_all(output, head.as_slice());
        write_all(output, self.payload.as_slice());
        assert(output@ =~= old(output)@ + frame(self.seq_num, self.sub_channel, self.payload@));
    }

    /// Tells how many bytes a reader that holds `buffered` must still obtain
    /// before `buffered` starts with a whole frame, or shows that it cannot.
    ///
    /// While the length field is open this is one byte, so that a reader
    /// never takes a byte of the next frame.
    pub fn missing(buffered: &[u8]) -> (n: u64)
        ensures
            n == missing(buffered@),
    {
        match decode(buffered) {
            None => 1,
            Some((len, n)) => {
                let have: u64 = (buffered.len() - n) as u64;
                if len < 5 || have >= len {
                    0
                } else {
                    len - have
                }
            },
        }
    }
}

/// Reading undoes writing: a stream that starts with the frame of a packet
/// yields that packet, and what follows the frame is left in the stream.
pub proof fn lemma_read_write(seq_num: u32, sub_channel: u8, payload: Seq<u8>, rest: Seq<u8>)
    requires
        5 + payload.len() <= u64::MAX,
    ensures
        front(frame(seq_num, sub_channel, payload) + rest) == (Front::Packet {
            seq_num,
            sub_channel,
            payload,
            len: frame(seq_num, sub_channel, payload).len() as int,
        }),
        (frame(seq_num, sub_channel, payload) + rest).skip(
            frame(seq_num, sub_channel, payload).len() as int,
        ) == rest,
{
    let len = (5 + payload.len()) as u64;
    let e = encoding(len);
    let head = preamble(seq_num, sub_channel);
    let f = frame(seq_num, sub_channel, payload);
    let s = f + rest;
    let n = e.len() as int;
    lemma_decode_encode(len, head + payload + rest);
    assert(s =~= e + (head + payload + rest));
    assert(s.subrange(n, n + 4) =~= head.take(4));
    assert(s[n + 4] == head[4]);
    assert(s.subrange(n + 5, n + len) =~= payload);
    assert(s.skip(f.len() as int) =~= rest);
}

/// A reader that obtains the bytes that are missing, and no more, never
/// holds a byte of the next frame: whatever it then holds at the front, a
/// frame or a bad length, ends where the bytes held end.
pub proof fn lemma_missing_stays_in_frame(s: Seq<u8>, more: Seq<u8>)
    requires
        missing(s) > 0,
        more.len() == missing(s),
    ensures
        front(s + more) matches Front::Packet { len, .. } ==> len == (s + more).len(),
        front(s + more) matches Front::BadLength(_) ==> decoding(s + more) matches Some((_, n))
            && n == (s + more).len(),
{
    let t = s + more;
    match decoding(s) {
        Some((len, n)) => {
            crate::var_uint::lemma_decoding_extends(s, more);
        },
        None => {
            crate::var_uint::lemma_first_len_means(s);
            crate::var_uint::lemma_first_len_means(t);
            let k = crate::var_uint::first_len(t) as int;
            if 0 < k < t.len() {
                assert(t[k - 1] == s[k - 1]);
                assert(false);
            }
        },
    }
}

/// Where nothing is missing, what is held starts with a frame or with a bad
/// length; where something is missing, it does not.
pub proof fn lemma_missing_decides(s: Seq<u8>)
    ensures
        missing(s) == 0 <==> (front(s) is Packet || front(s) is BadLength),
{
    crate::var_uint::lemma_first_len_bound(s);
}

} // verus!
