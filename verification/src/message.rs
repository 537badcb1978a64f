//! Logical messages and the error taxonomy shared by the transport core.

use vstd::prelude::*;

verus! {

/// Number of bytes in one link-layer packet.
pub const PACKET_SIZE: usize = 64;

/// Header bytes of an initial packet: channel id (4), command (1),
/// big-endian total length (2).
pub const INIT_HEADER_LEN: usize = 7;

/// Header bytes of a continuation packet: channel id (4), sequence (1).
pub const CONT_HEADER_LEN: usize = 5;

/// Payload bytes carried by an initial packet.
pub const INIT_DATA_LEN: usize = 57;

/// Payload bytes carried by a continuation packet.
pub const CONT_DATA_LEN: usize = 59;

/// Largest payload one packet sequence can carry without the 7-bit
/// sequence number wrapping: 57 + 128 * 59.
pub const MAX_PAYLOAD_LEN: usize = 7609;

/// Longest inter-frame gap, in milliseconds, before a transaction times out.
pub const TIMEOUT_MS: u64 = 500;

/// Channel id reserved for the channel-allocation handshake.
pub const BROADCAST_CID: u32 = 0xFFFF_FFFF;

/// One complete logical request or response.
#[derive(Debug, PartialEq, Eq)]
pub struct Message {
    /// Channel the message belongs to.
    pub cid: u32,
    /// Command opcode.
    pub cmd: u8,
    /// Command payload.
    pub payload: Vec<u8>,
}

/// Mathematical model of a [`Message`].
#[verifier::ext_equal]
pub struct MessageView {
    pub cid: u32,
    pub cmd: u8,
    pub payload: Seq<u8>,
}

impl View for Message {
    type V = MessageView;

    open spec fn view(&self) -> MessageView {
        MessageView { cid: self.cid, cmd: self.cmd, payload: self.payload@ }
    }
}

/// The error kinds the transport core can report.
#[derive(Clone, Copy, Debug, PartialEq, Eq, Structural)]
pub enum ErrorKind {
    /// A raw frame shorter than its header.
    Decoding,
    /// A continuation frame out of order or with no transaction to continue.
    Sequence,
    /// The gap to the previous frame of the transaction exceeded the limit.
    Timeout,
    /// A frame for another channel arrived while a transaction was in flight.
    ChannelBusy,
    /// A complete message carried an unknown opcode.
    InvalidCommand,
    /// A recognized opcode carried a payload its decoder rejects.
    InvalidParameter,
    /// A handler could not uphold its own invariants.
    InternalFatal,
}

/// The status byte that identifies an error kind on the wire.
pub open spec fn spec_status_code(kind: ErrorKind) -> u8 {
    match kind {
        ErrorKind::InvalidCommand => 0x01,
        ErrorKind::InvalidParameter => 0x02,
        ErrorKind::Decoding => 0x03,
        ErrorKind::Sequence => 0x04,
        ErrorKind::Timeout => 0x05,
        ErrorKind::ChannelBusy => 0x06,
        ErrorKind::InternalFatal => 0x7F,
    }
}

/// Returns the status byte that identifies `kind` on the wire.
pub fn status_code(kind: ErrorKind) -> (code: u8)
    ensures
        code == spec_status_code(kind),
{
    match kind {
        ErrorKind::InvalidCommand => 0x01,
        ErrorKind::InvalidParameter => 0x02,
        ErrorKind::Decoding => 0x03,
        ErrorKind::Sequence => 0x04,
        ErrorKind::Timeout => 0x05,
        ErrorKind::ChannelBusy => 0x06,
        ErrorKind::InternalFatal => 0x7F,
    }
}

} // verus!
