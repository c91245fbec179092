//! Client-side framing and session layer of the Quotes Direct market-data
//! feed.
//!
//! The feed carries FAST-encoded messages over two transports: length-framed
//! TCP, for the replay and security definition servers, and UDP datagrams,
//! for the incremental refresh. This library holds the byte-exact parts of
//! the protocol and the rules of a session:
//! - [`var_uint`]: the stop-bit integers that give the length of a TCP
//!   frame;
//! - [`sync::packets`]: the UDP and TCP packets with their five-byte
//!   preamble;
//! - [`fix`]: the control messages that a client sends, with their length
//!   and checksum fields;
//! - [`fast`]: the messages that a client receives, as data;
//! - [`client`]: the session connection with its sequence numbers, the
//!   catalog of security definitions, and the sets of feeds to subscribe
//!   to;
//! - [`decimal`]: numbers as decimal text;
//! - [`buf`]: small operations on byte vectors.
//!
//! The library works on bytes in memory and does no input or output. Every
//! function states what it computes over sequences of bytes and plain
//! values, and the statement is proved. A few laws that relate several
//! functions, such as that reading undoes writing, are proved beside them.
use vstd::prelude::*;

pub mod buf;
pub mod client;
pub mod decimal;
pub mod fast;
pub mod fix;
pub mod sync;
pub mod var_uint;

verus! {

/// What can go wrong in the library.
#[derive(Debug)]
pub enum Error {
    /// The length field of a TCP frame, or the length of a UDP datagram, is
    /// too small to hold the five bytes of the preamble.
    InvalidPacketLength(u64),
    /// The input ended in the middle of a value.
    UnexpectedEof,
    /// A word of a feed set is neither a number nor a range. The word is
    /// given without the `!` that may stand in front of it.
    InvalidArgument(String),
    /// A message was asked for before a transport was chosen.
    SourceNotInitialized,
    /// A message arrived that has no place in a session with the Security
    /// Definition Server.
    UnexpectedMessage,
    /// The application identifier of a security definition is no feed
    /// number. The identifier is given as it came.
    InvalidApplId(String),
}

} // verus!
