use vstd::prelude::*;

verus! {

/// Why a byte sequence could not be read as a packet.
#[derive(Debug, Clone, Copy, PartialEq, Eq, Structural)]
pub enum PacketError {
    NotValid,
    NotValidStringEncoding,
    NotValidFirstPacket,
    NotMatching,
    EncodingError,
    TooLong,
}

impl PacketError {
    /// Human-readable description of the error.
    pub fn message(&self) -> (r: &'static str) {
        match self {
            PacketError::NotValid => "Packet is not valid",
            PacketError::NotValidStringEncoding => "String encoding is not valid",
            PacketError::NotValidFirstPacket => "Not a valid first packet",
            PacketError::NotMatching => "Packet is not matching to decoder, do not recognize packet",
            PacketError::EncodingError => "There has been an error during encoding",
            PacketError::TooLong => "Packet too long",
        }
    }
}

} // verus!
