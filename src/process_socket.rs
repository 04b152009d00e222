use vstd::prelude::*;

use crate::cursor::{read_u16_be, u16_be};

verus! {

/// The magic prefix of a proxy-client, as bytes.
pub open spec fn proxy_magic() -> Seq<u8> {
    seq![0x43u8, 0x72, 0x61, 0x66, 0x74, 0x49, 0x50]
}

fn magic_bytes() -> (r: Vec<u8>)
    ensures
        r@ == proxy_magic(),
{
    let r: Vec<u8> = vec![0x43, 0x72, 0x61, 0x66, 0x74, 0x49, 0x50];
    assert(r@ =~= proxy_magic());
    r
}

/// Length of the magic prefix.
pub fn proxy_identifier_len() -> (r: usize)
    ensures
        r == proxy_magic().len(),
{
    7
}

/// Who opened a connection, judged by its first bytes.
#[derive(Debug, Clone, Copy, PartialEq, Eq, Structural)]
pub enum ConnectionKind {
    /// Fewer bytes than the magic prefix so far.
    Undecided,
    /// A proxy-client: the bytes start with the magic prefix.
    ProxyClient,
    /// Anything else is a Minecraft client.
    MinecraftClient,
}

/// Classifies a connection by the bytes peeked at its start.
pub fn classify_connection(peeked: &[u8]) -> (r: ConnectionKind)
    ensures
        peeked@.len() < 7 ==> r == ConnectionKind::Undecided,
        peeked@.len() >= 7 ==> r == if peeked@.take(7) == proxy_magic() {
            ConnectionKind::ProxyClient
        } else {
            ConnectionKind::MinecraftClient
        },
{
    if peeked.len() < 7 {
        return ConnectionKind::Undecided;
    }
    let magic = magic_bytes();
    let mut i: usize = 0;
    while i < 7
        invariant
            i <= 7,
            peeked@.len() >= 7,
            magic@ == proxy_magic(),
            forall|k: int| 0 <= k < i ==> peeked@[k] == magic@[k],
        decreases 7 - i,
    {
        if peeked[i] != magic[i] {
            assert(peeked@.take(7)[i as int] != proxy_magic()[i as int]);
            return ConnectionKind::MinecraftClient;
        }
        i = i + 1;
    }
    assert(peeked@.take(7) =~= proxy_magic());
    ConnectionKind::ProxyClient
}

/// The proxy-client's protocol version that follows the magic prefix.
pub fn proxy_version(preamble: &[u8]) -> (r: Option<u16>)
    ensures
        preamble@.len() < 9 ==> r is None,
        preamble@.len() >= 9 ==> r == Some(u16_be(preamble@, 7)),
{
    if preamble.len() < 9 {
        return None;
    }
    Some(read_u16_be(preamble, 7))
}

} // verus!
