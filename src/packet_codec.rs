use vstd::prelude::*;

use crate::datatypes::PacketError;
use crate::socket_packet::{encode_frame, encodable, frame_at, PacketView, SocketPacket};

verus! {

/// Why the frame stream of a connection could not be read or written.
#[derive(Debug, Clone, PartialEq, Eq)]
pub enum PacketCodecError {
    MaxLineLengthExceeded,
    PacketCodec(PacketError),
    Io,
}

/// Splits a byte stream into frames and writes frames into it.
#[derive(Debug, Clone, Copy, PartialEq, Eq, Structural)]
pub struct PacketCodec {
    pub max_length: usize,
}

impl PacketCodec {
    /// A codec for frames of at most `max_length` bytes.
    pub fn new(max_length: usize) -> (r: PacketCodec)
        ensures
            r.max_length == max_length,
    {
        PacketCodec { max_length }
    }

    /// Takes the next frame off the front of `buf`; `Ok(None)` until one is complete.
    pub fn decode(&mut self, buf: &mut Vec<u8>) -> (r: Result<Option<SocketPacket>, PacketCodecError>)
        ensures
            *final(self) == *old(self),
            match r {
                Ok(Some(m)) => frame_at(old(buf)@) == Ok::<Option<(PacketView, int)>, PacketError>(
                    Some((m@, old(buf)@.len() - final(buf)@.len())),
                ),
                Ok(None) => frame_at(old(buf)@) == Ok::<Option<(PacketView, int)>, PacketError>(
                    None,
                ),
                Err(PacketCodecError::PacketCodec(e)) => frame_at(old(buf)@) == Err::<
                    Option<(PacketView, int)>,
                    PacketError,
                >(e),
                Err(_) => false,
            },
            r matches Ok(Some(_)) ==> final(buf)@ == old(buf)@.skip(
                old(buf)@.len() - final(buf)@.len(),
            ),
            !(r matches Ok(Some(_))) ==> final(buf)@ == old(buf)@,
    {
        if buf.len() == 0 {
            return Ok(None);
        }
        match SocketPacket::decode_from(buf) {
            Ok(m) => Ok(m),
            Err(e) => Err(PacketCodecError::PacketCodec(e)),
        }
    }

    /// Appends the frame of `pkg` to `buf`.
    pub fn encode(&mut self, pkg: SocketPacket, buf: &mut Vec<u8>) -> (r: Result<(), PacketCodecError>)
        ensures
            *final(self) == *old(self),
            r is Ok <==> encodable(pkg@),
            r is Ok ==> final(buf)@ == old(buf)@ + encode_frame(pkg@),
            r matches Err(e) ==> e == PacketCodecError::PacketCodec(PacketError::EncodingError)
                && final(buf)@ == old(buf)@,
    {
        match pkg.encode_into(buf) {
            Ok(()) => Ok(()),
            Err(e) => Err(PacketCodecError::PacketCodec(e)),
        }
    }
}

} // verus!
