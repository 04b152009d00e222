use vstd::prelude::*;

verus! {

/// Random bytes a proxy-client must sign to prove that it owns its key.
pub type ChallengeDataType = [u8; 32];

/// An Ed25519 signature.
pub type SignatureDataType = [u8; 64];

/// The Ed25519 public key of a proxy-client; its hostname is derived from it.
#[derive(Debug, Clone, Copy, PartialEq, Eq)]
pub struct ServerPublicKey {
    pub key: [u8; 32],
}

/// First packet sent by a proxy-client to the rendezvous.
#[derive(Debug, Clone, PartialEq, Eq)]
pub struct ProxyHelloPacket {
    pub version: u16,
    pub hostname: String,
    pub auth: ProxyAuthenticator,
}

/// How a proxy-client proves its identity.
#[derive(Debug, Clone, Copy, PartialEq, Eq)]
pub enum ProxyAuthenticator {
    PublicKey(ServerPublicKey),
}

/// Outcome of a proxy-client handshake.
#[derive(Debug, Clone, PartialEq, Eq)]
pub enum ProxyHandshakeResponse {
    ConnectionSuccessful(),
    Error(String),
}

/// Challenge sent to a proxy-client.
#[derive(Debug, Clone, Copy, PartialEq, Eq)]
pub enum ProxyAuthRequestPacket {
    PublicKey(ChallengeDataType),
}

/// A proxy-client's answer to a challenge.
#[derive(Debug, Clone, Copy, PartialEq, Eq)]
pub enum ProxyAuthResponePacket {
    PublicKey(SignatureDataType),
}

/// Sent to a proxy-client once it is authenticated and registered.
#[derive(Debug, Clone, Copy, PartialEq, Eq, Structural)]
pub struct ProxyConnectedResponse {
    pub version: u16,
}

/// Announces a new external client on a session.
#[derive(Debug, Clone, Copy, PartialEq, Eq, Structural)]
pub struct ProxyClientJoinPacket {
    pub client_id: u16,
}

/// Announces that an external client of a session is gone.
#[derive(Debug, Clone, Copy, PartialEq, Eq, Structural)]
pub struct ProxyClientDisconnectPacket {
    pub client_id: u16,
}

/// Minecraft bytes of one external client.
#[derive(Debug, Clone, PartialEq, Eq)]
pub struct ProxyDataPacket {
    pub client_id: u16,
    pub data: Vec<u8>,
}

impl ProxyDataPacket {
    pub fn new(data: Vec<u8>, client_id: u16) -> (r: Self)
        ensures
            r.client_id == client_id,
            r.data@ == data@,
    {
        ProxyDataPacket { client_id, data }
    }
}

impl ProxyClientJoinPacket {
    pub fn new(client_id: u16) -> (r: Self)
        ensures
            r.client_id == client_id,
    {
        ProxyClientJoinPacket { client_id }
    }
}

impl ProxyClientDisconnectPacket {
    pub fn new(client_id: u16) -> (r: Self)
        ensures
            r.client_id == client_id,
    {
        ProxyClientDisconnectPacket { client_id }
    }
}

} // verus!
