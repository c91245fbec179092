//! Packet framing over in-memory byte queues.
pub mod packets;
