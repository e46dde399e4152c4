//! Packets as the connection hands them on.
use vstd::prelude::*;

verus! {

/// The direction of a packet.
#[derive(Debug, Clone, Copy, PartialEq, Eq, Structural)]
pub enum PacketType {
    Incoming,
    Outgoing,
}

/// An opcode: 16 bits in server headers, 32 bits in client headers.
#[derive(Debug, Clone, Copy, PartialEq, Eq, Structural)]
pub enum PacketOpcode {
    U16(u16),
    U32(u32),
}

/// A framed packet: its direction, opcode, name, size on the wire (header
/// included, for incoming packets) and body.
#[derive(Debug)]
pub struct Packet {
    pub packet_type: PacketType,
    pub opcode: PacketOpcode,
    pub packet_name: String,
    pub packet_size: usize,
    pub body: Vec<u8>,
}

} // verus!
