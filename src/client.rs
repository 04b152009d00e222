use vstd::prelude::*;

use crate::addressing::DistributorError;
use crate::config::{MAXIMUM_CLIENTS, PROTOCOL_VERSION, TIMEOUT_IN_SEC};
use crate::crypto::{ed25519_public_key, key_hostname, ServerPrivateKey};
use crate::packet_codec::PacketCodecError;
use crate::process_socket::proxy_magic;
use crate::socket_packet::{be16, ClientID, PacketView, PingPacket, SocketPacket};

verus! {

/// What a proxy-client reports to its user interface.
#[derive(Debug, Clone, Copy, PartialEq, Eq, Structural)]
pub enum Stats {
    Connected,
    ClientsConnected(usize),
    Ping(u16),
}

/// What a user interface asks of a proxy-client.
#[derive(Debug, Clone, Copy, PartialEq, Eq, Structural)]
pub enum Control {
    Disconnect,
}

/// Why a proxy-client's connection ended.
#[derive(Debug, Clone, PartialEq, Eq)]
pub enum ClientError {
    Io,
    ProtocolError(PacketCodecError),
    ProxyClosedConnection,
    UserClosedConnection,
    Timeout,
    ProxyError(String),
    MinecraftServerNotFound,
    UnexpectedPacket(String),
    Other(String),
}

/// The local port a proxy-client serves unless told otherwise.
pub const STANDARD_LOCAL_PORT: &'static str = "25565";

/// How a proxy-client proves that it owns its hostname.
#[derive(Debug, Clone, PartialEq, Eq)]
pub enum ServerAuthentication {
    Key(ServerPrivateKey),
}

/// What a proxy-client serves: its public hostname, the local Minecraft
/// server, and its key.
#[derive(Debug, Clone, PartialEq, Eq)]
pub struct Server {
    pub server: String,
    pub local: String,
    pub auth: ServerAuthentication,
}

impl Server {
    /// The server of a key: the hostname derived from its public key, and
    /// the standard local port.
    pub fn new_from_key(key: ServerPrivateKey) -> (r: Self)
        ensures
            r.server@ == key_hostname(ed25519_public_key(key.spec_seed())),
            r.local@ == STANDARD_LOCAL_PORT@,
            r.auth == ServerAuthentication::Key(key),
    {
        let server = key.get_public_key().get_hostname();
        Server {
            server,
            local: String::from_str(STANDARD_LOCAL_PORT),
            auth: ServerAuthentication::Key(key),
        }
    }
}

/// A command to the writer of a proxy-client, from its local connections and
/// its reader.
pub enum ClientToProxy {
    Packet(ClientID, Vec<u8>),
    RemoveMinecraftClient(ClientID),
    Ping(PingPacket),
    Death(String),
}

/// The bytes a proxy-client sends before its first frame: the magic prefix
/// and the protocol version.
pub open spec fn client_preamble() -> Seq<u8> {
    proxy_magic() + be16(PROTOCOL_VERSION)
}

/// The preamble of a proxy-client connection.
pub fn client_preamble_bytes() -> (r: Vec<u8>)
    ensures
        r@ == client_preamble(),
{
    let r: Vec<u8> = vec![0x43, 0x72, 0x61, 0x66, 0x74, 0x49, 0x50, 0, 1];
    assert(r@ =~= client_preamble());
    r
}

// ---------------------------------------------------------------------------
// Connection table
// ---------------------------------------------------------------------------
/// Number of occupied slots among the first `n` of `s`.
pub open spec fn occupied_upto<T>(s: Seq<Option<T>>, n: int) -> nat
    decreases n,
{
    if n <= 0 {
        0
    } else {
        occupied_upto(s, n - 1) + if s[n - 1] is Some {
            1nat
        } else {
            0nat
        }
    }
}

/// Number of occupied slots of `s`.
pub open spec fn occupied<T>(s: Seq<Option<T>>) -> nat {
    occupied_upto(s, s.len() as int)
}

proof fn lemma_occupied_update<T>(s: Seq<Option<T>>, i: int, x: Option<T>, n: int)
    requires
        0 <= i < s.len(),
        0 <= n <= s.len(),
    ensures
        occupied_upto(s.update(i, x), n) + (if i < n && s[i] is Some {
            1nat
        } else {
            0nat
        }) == occupied_upto(s, n) + (if i < n && x is Some {
            1nat
        } else {
            0nat
        }),
    decreases n,
{
    if n > 0 {
        lemma_occupied_update(s, i, x, n - 1);
    }
}

proof fn lemma_occupied_bound<T>(s: Seq<Option<T>>, n: int)
    requires
        0 <= n <= s.len(),
    ensures
        occupied_upto(s, n) <= n,
    decreases n,
{
    if n > 0 {
        lemma_occupied_bound(s, n - 1);
    }
}

/// The local connections of a proxy-client, by the id the rendezvous gave them.
pub struct ConnectionTable<T> {
    connections: Vec<Option<T>>,
    connections_len: usize,
}

impl<T> View for ConnectionTable<T> {
    type V = Seq<Option<T>>;

    closed spec fn view(&self) -> Seq<Option<T>> {
        self.connections@
    }
}

impl<T> ConnectionTable<T> {
    /// `MAXIMUM_CLIENTS` slots, and the count matches the occupied slots.
    pub closed spec fn wf(&self) -> bool {
        &&& self.connections@.len() == MAXIMUM_CLIENTS
        &&& self.connections_len == occupied(self.connections@)
    }

    /// A table with no connection.
    pub fn new() -> (r: Self)
        ensures
            r.wf(),
            r@.len() == MAXIMUM_CLIENTS,
            forall|i: int| 0 <= i < MAXIMUM_CLIENTS ==> (#[trigger] r@[i]) is None,
    {
        let mut connections: Vec<Option<T>> = Vec::new();
        let mut i: usize = 0;
        while i < MAXIMUM_CLIENTS
            invariant
                i <= MAXIMUM_CLIENTS,
                connections@.len() == i,
                forall|k: int| 0 <= k < i ==> (#[trigger] connections@[k]) is None,
                occupied_upto(connections@, i as int) == 0,
            decreases MAXIMUM_CLIENTS - i,
        {
            let ghost before = connections@;
            connections.push(None);
            proof {
                assert forall|n: int| 0 <= n <= i implies occupied_upto(connections@, n)
                    == occupied_upto(before, n) by {
                    lemma_prefix_occupied(before, connections@, n);
                }
            }
            i = i + 1;
        }
        ConnectionTable { connections, connections_len: 0 }
    }

    /// Number of local connections.
    pub fn len(&self) -> (r: usize)
        requires
            self.wf(),
        ensures
            r == occupied(self@),
    {
        self.connections_len
    }

    /// Stores the connection that the rendezvous announced with `id`; an id
    /// outside the table is ignored.
    pub fn add_connection(&mut self, id: ClientID, tx: T)
        requires
            old(self).wf(),
        ensures
            final(self).wf(),
            final(self)@ == if (id as int) < MAXIMUM_CLIENTS {
                old(self)@.update(id as int, Some(tx))
            } else {
                old(self)@
            },
    {
        let idx = id as usize;
        if idx >= self.connections.len() {
            return;
        }
        let ghost before = self.connections@;
        let was = self.connections[idx].is_some();
        self.connections.set(idx, Some(tx));
        proof {
            lemma_occupied_update(before, idx as int, Some(tx), before.len() as int);
            lemma_occupied_bound(self.connections@, self.connections@.len() as int);
        }
        if !was {
            self.connections_len = self.connections_len + 1;
        }
    }

    /// Drops the connection with `id`; returns whether there was one.
    pub fn remove_connection(&mut self, id: ClientID) -> (r: bool)
        requires
            old(self).wf(),
        ensures
            final(self).wf(),
            r == ((id as int) < MAXIMUM_CLIENTS && old(self)@[id as int] is Some),
            final(self)@ == if (id as int) < MAXIMUM_CLIENTS {
                old(self)@.update(id as int, None)
            } else {
                old(self)@
            },
    {
        let idx = id as usize;
        if idx >= self.connections.len() {
            return false;
        }
        let ghost before = self.connections@;
        let was = self.connections[idx].is_some();
        self.connections.set(idx, None);
        proof {
            lemma_occupied_update(before, idx as int, None, before.len() as int);
        }
        if was {
            self.connections_len = self.connections_len - 1;
        }
        was
    }

    /// The connection with `id`, or `ClientNotFound`.
    pub fn get(&self, id: ClientID) -> (r: Result<&T, DistributorError>)
        requires
            self.wf(),
        ensures
            match r {
                Ok(t) => (id as int) < MAXIMUM_CLIENTS && self@[id as int] == Some(*t),
                Err(e) => e == DistributorError::ClientNotFound && ((id as int)
                    >= MAXIMUM_CLIENTS || self@[id as int] is None),
            },
    {
        let idx = id as usize;
        if idx >= self.connections.len() {
            return Err(DistributorError::ClientNotFound);
        }
        match &self.connections[idx] {
            Some(t) => Ok(t),
            None => Err(DistributorError::ClientNotFound),
        }
    }
}

proof fn lemma_prefix_occupied<T>(a: Seq<Option<T>>, b: Seq<Option<T>>, n: int)
    requires
        0 <= n <= a.len() <= b.len(),
        forall|k: int| 0 <= k < a.len() ==> a[k] == b[k],
    ensures
        occupied_upto(b, n) == occupied_upto(a, n),
    decreases n,
{
    if n > 0 {
        lemma_prefix_occupied(a, b, n - 1);
    }
}

// ---------------------------------------------------------------------------
// Proxy-client reader
// ---------------------------------------------------------------------------
/// What a proxy-client does with one frame from the rendezvous.
#[derive(Debug, Clone, PartialEq, Eq)]
pub enum ClientAction {
    /// Open a local connection for this new external client.
    Join(ClientID),
    /// Hand these bytes to the local connection with this id.
    Forward(ClientID, Vec<u8>),
    /// Drop the local connection with this id.
    Remove(ClientID),
    /// A pong arrived carrying this nonce.
    Pong(PingPacket),
    /// Any other frame ends the session.
    Unexpected,
}

/// Sorts a frame received by a proxy-client once it is authenticated.
pub fn client_reader_step(packet: SocketPacket) -> (r: ClientAction)
    ensures
        match packet@ {
            PacketView::ProxyJoin(id) => r == ClientAction::Join(id),
            PacketView::ProxyData(id, data) => r matches ClientAction::Forward(rid, rdata) && rid
                == id && rdata@ == data,
            PacketView::ProxyDisconnect(id) => r == ClientAction::Remove(id),
            PacketView::ProxyPong(n) => r == ClientAction::Pong(n),
            _ => r is Unexpected,
        },
{
    match packet {
        SocketPacket::ProxyJoin(id) => ClientAction::Join(id),
        SocketPacket::ProxyData(p) => ClientAction::Forward(p.client_id, p.data),
        SocketPacket::ProxyDisconnect(id) => ClientAction::Remove(id),
        SocketPacket::ProxyPong(n) => ClientAction::Pong(n),
        _ => ClientAction::Unexpected,
    }
}

/// The frame a proxy-client's writer sends for one command; `None` for a
/// dead local connection, which ends the session.
pub fn client_writer_step(command: ClientToProxy) -> (r: Option<SocketPacket>)
    ensures
        match command {
            ClientToProxy::Packet(id, data) => r matches Some(p) && p@ == PacketView::ProxyData(
                id,
                data@,
            ),
            ClientToProxy::RemoveMinecraftClient(id) => r matches Some(p) && p@
                == PacketView::ProxyDisconnect(id),
            ClientToProxy::Ping(n) => r matches Some(p) && p@ == PacketView::ProxyPing(n),
            ClientToProxy::Death(_) => r is None,
        },
{
    match command {
        ClientToProxy::Packet(id, data) => Some(
            SocketPacket::ProxyData(crate::proxy::ProxyDataPacket::new(data, id)),
        ),
        ClientToProxy::RemoveMinecraftClient(id) => Some(SocketPacket::ProxyDisconnect(id)),
        ClientToProxy::Ping(n) => Some(SocketPacket::ProxyPing(n)),
        ClientToProxy::Death(_) => None,
    }
}

/// The rendezvous's last answer in the handshake: accepted, or refused with its text.
pub fn auth_outcome(packet: SocketPacket) -> (r: Result<(), ClientError>)
    ensures
        match packet {
            SocketPacket::ProxyHelloResponse(_) => r is Ok,
            SocketPacket::ProxyError(e) => r == Err::<(), ClientError>(ClientError::ProxyError(e)),
            _ => r matches Err(ClientError::UnexpectedPacket(_)),
        },
{
    match packet {
        SocketPacket::ProxyHelloResponse(_) => Ok(()),
        SocketPacket::ProxyError(e) => Err(ClientError::ProxyError(e)),
        _ => Err(ClientError::UnexpectedPacket(String::from_str("unexpected handshake answer"))),
    }
}

/// Round-trip time of a ping sent at `sent` whose pong carried `echoed`,
/// both in milliseconds modulo 2^16; `None` when the nonce came back changed.
pub fn ping_latency(sent: u16, echoed: u16, now: u16) -> (r: Option<u16>)
    ensures
        echoed != sent ==> r is None,
        echoed == sent ==> r == Some(if now >= sent {
            (now - sent) as u16
        } else {
            0u16
        }),
{
    if echoed != sent {
        return None;
    }
    Some(now.saturating_sub(sent))
}

/// How often an idle proxy-client pings the rendezvous, in milliseconds.
pub const PING_INTERVAL_MS: u64 = 5000;

/// What a proxy-client's timer decides.
#[derive(Debug, Clone, Copy, PartialEq, Eq, Structural)]
pub enum Keepalive {
    /// No frame for the whole idle deadline: end the session.
    Expired,
    /// Time for the next ping.
    SendPing,
    /// Nothing to do yet.
    Wait,
}

/// Milliseconds from `since` to `now`, or 0 when `now` is earlier.
pub open spec fn elapsed(now: u64, since: u64) -> int {
    if now >= since {
        now - since
    } else {
        0
    }
}

/// Decides at time `now` whether the session has gone idle for too long,
/// given when the last frame arrived and when the last ping was sent (all in
/// milliseconds).
pub fn keepalive_step(now: u64, last_frame: u64, last_ping: u64) -> (r: Keepalive)
    ensures
        r == if elapsed(now, last_frame) >= TIMEOUT_IN_SEC * 1000 {
            Keepalive::Expired
        } else if elapsed(now, last_ping) >= PING_INTERVAL_MS {
            Keepalive::SendPing
        } else {
            Keepalive::Wait
        },
{
    if now.saturating_sub(last_frame) >= TIMEOUT_IN_SEC * 1000 {
        Keepalive::Expired
    } else if now.saturating_sub(last_ping) >= PING_INTERVAL_MS {
        Keepalive::SendPing
    } else {
        Keepalive::Wait
    }
}

} // verus!
