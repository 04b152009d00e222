use vstd::prelude::*;

use crate::addressing::DistributorError;
use crate::config::MAXIMUM_CLIENTS;
use crate::proxy::{ProxyDataPacket, ProxyHelloPacket};
use crate::socket_packet::{ClientID, PacketView, PingPacket, SocketPacket};

verus! {

// ---------------------------------------------------------------------------
// Slot table
// ---------------------------------------------------------------------------
/// Index of the first empty slot of `s` at or after `i`.
pub open spec fn free_from<T>(s: Seq<Option<T>>, i: int) -> Option<int>
    decreases s.len() - i,
{
    if i >= s.len() {
        None
    } else if s[i] is None {
        Some(i)
    } else {
        free_from(s, i + 1)
    }
}

/// Index of the lowest empty slot of `s`.
pub open spec fn lowest_free<T>(s: Seq<Option<T>>) -> Option<int> {
    free_from(s, 0)
}

proof fn lemma_free_from<T>(s: Seq<Option<T>>, i: int)
    requires
        0 <= i,
    ensures
        match free_from(s, i) {
            Some(k) => i <= k < s.len() && s[k] is None && forall|j: int|
                i <= j < k ==> (#[trigger] s[j]) is Some,
            None => forall|j: int| i <= j < s.len() ==> (#[trigger] s[j]) is Some,
        },
    decreases s.len() - i,
{
    if i < s.len() && s[i] is Some {
        lemma_free_from(s, i + 1);
    }
}

/// Slot table `s` once slot `id` is emptied (ids outside the table change nothing).
pub open spec fn after_removal<T>(s: Seq<Option<T>>, id: ClientID) -> Seq<Option<T>> {
    if (id as int) < s.len() {
        s.update(id as int, None)
    } else {
        s
    }
}

/// Whether removing `id` from `s` empties an occupied slot, and so puts a
/// disconnect frame on the wire.
pub open spec fn removal_emits<T>(s: Seq<Option<T>>, id: ClientID) -> bool {
    (id as int) < s.len() && s[id as int] is Some
}

/// The slot table of one session: slot `id` holds the outbox of the external
/// client with that id, or nothing.
pub struct Distributor<T> {
    clients_id: Vec<Option<T>>,
}

impl<T> View for Distributor<T> {
    type V = Seq<Option<T>>;

    closed spec fn view(&self) -> Seq<Option<T>> {
        self.clients_id@
    }
}

impl<T> Distributor<T> {
    /// The table has `MAXIMUM_CLIENTS` slots.
    pub open spec fn wf(&self) -> bool {
        self@.len() == MAXIMUM_CLIENTS
    }

    /// A table with every slot empty.
    pub fn new() -> (r: Self)
        ensures
            r.wf(),
            forall|i: int| 0 <= i < MAXIMUM_CLIENTS ==> (#[trigger] r@[i]) is None,
    {
        let mut clients_id: Vec<Option<T>> = Vec::new();
        let mut i: usize = 0;
        while i < MAXIMUM_CLIENTS
            invariant
                i <= MAXIMUM_CLIENTS,
                clients_id@.len() == i,
                forall|k: int| 0 <= k < i ==> (#[trigger] clients_id@[k]) is None,
            decreases MAXIMUM_CLIENTS - i,
        {
            clients_id.push(None);
            i = i + 1;
        }
        Distributor { clients_id }
    }

    /// Puts `tx` into the lowest empty slot and returns its id;
    /// `TooManyClients`, with the table unchanged, when every slot is taken.
    pub fn insert(&mut self, tx: T) -> (r: Result<ClientID, DistributorError>)
        requires
            old(self).wf(),
        ensures
            final(self).wf(),
            match lowest_free(old(self)@) {
                Some(i) => r == Ok::<ClientID, DistributorError>(i as ClientID) && final(self)@
                    == old(self)@.update(i, Some(tx)),
                None => r == Err::<ClientID, DistributorError>(DistributorError::TooManyClients)
                    && final(self)@ == old(self)@,
            },
    {
        let mut i: usize = 0;
        while i < self.clients_id.len()
            invariant
                self.wf(),
                self@ == old(self)@,
                i <= self@.len(),
                free_from(self@, 0) == free_from(self@, i as int),
            decreases self@.len() - i,
        {
            if self.clients_id[i].is_none() {
                self.clients_id.set(i, Some(tx));
                return Ok(i as ClientID);
            }
            i = i + 1;
        }
        Err(DistributorError::TooManyClients)
    }

    /// Empties slot `id`; returns whether it held an outbox.
    pub fn remove_by_id(&mut self, id: ClientID) -> (r: bool)
        requires
            old(self).wf(),
        ensures
            final(self).wf(),
            r == removal_emits(old(self)@, id),
            final(self)@ == after_removal(old(self)@, id),
    {
        let idx = id as usize;
        if idx >= self.clients_id.len() {
            return false;
        }
        let was = self.clients_id[idx].is_some();
        self.clients_id.set(idx, None);
        was
    }

    /// The outbox in slot `id`, if any.
    pub fn get_by_id(&self, id: ClientID) -> (r: Option<&T>)
        requires
            self.wf(),
        ensures
            match r {
                Some(t) => (id as int) < MAXIMUM_CLIENTS && self@[id as int] == Some(*t),
                None => (id as int) >= MAXIMUM_CLIENTS || self@[id as int] is None,
            },
    {
        let idx = id as usize;
        if idx >= self.clients_id.len() {
            return None;
        }
        match &self.clients_id[idx] {
            Some(t) => Some(t),
            None => None,
        }
    }
}

// ---------------------------------------------------------------------------
// Session writer
// ---------------------------------------------------------------------------
/// A command to the writer of a session: from external-client handlers, and
/// from the session's reader. `R` answers a registration with the new id,
/// `T` is the outbox of an external client.
pub enum ClientToProxy<R, T> {
    Packet(ClientID, Vec<u8>),
    AddMinecraftClient(R, T),
    RemoveMinecraftClient(ClientID),
    AnswerPingPacket(PingPacket),
}

/// What the writer does with one command.
pub enum WriterAction<R> {
    /// Write this frame.
    Send(SocketPacket),
    /// Answer `R` with the id, then write the join frame.
    Joined(R, ClientID, SocketPacket),
    /// The table is full: drop `R` so that the external client is refused.
    Refused(R),
    /// Nothing to write.
    Nothing,
}

/// Handles one writer command: allocates or frees a slot and tells which
/// frame goes on the wire.
pub fn writer_step<R, T>(table: &mut Distributor<T>, command: ClientToProxy<R, T>) -> (r:
    WriterAction<R>)
    requires
        old(table).wf(),
    ensures
        final(table).wf(),
        match command {
            ClientToProxy::Packet(id, data) => final(table)@ == old(table)@ && (r matches WriterAction::Send(p) && p@ == PacketView::ProxyData(id, data@)),
            ClientToProxy::AnswerPingPacket(n) => final(table)@ == old(table)@ && (r matches WriterAction::Send(p) && p@ == PacketView::ProxyPong(n)),
            ClientToProxy::RemoveMinecraftClient(id) => final(table)@ == after_removal(old(table)@, id)
                && if removal_emits(old(table)@, id) {
                r matches WriterAction::Send(p) && p@ == PacketView::ProxyDisconnect(id)
            } else {
                r is Nothing
            },
            ClientToProxy::AddMinecraftClient(reply, tx) => match lowest_free(old(table)@) {
                Some(i) => final(table)@ == old(table)@.update(i, Some(tx)) && (r matches WriterAction::Joined(rr, id, p) && rr == reply && id == i && p@ == PacketView::ProxyJoin(id)),
                None => final(table)@ == old(table)@ && r == WriterAction::Refused(reply),
            },
        },
{
    proof {
        lemma_free_from(table@, 0);
    }
    match command {
        ClientToProxy::Packet(id, data) => WriterAction::Send(
            SocketPacket::ProxyData(ProxyDataPacket::new(data, id)),
        ),
        ClientToProxy::AnswerPingPacket(n) => WriterAction::Send(SocketPacket::ProxyPong(n)),
        ClientToProxy::RemoveMinecraftClient(id) => {
            if table.remove_by_id(id) {
                WriterAction::Send(SocketPacket::ProxyDisconnect(id))
            } else {
                WriterAction::Nothing
            }
        },
        ClientToProxy::AddMinecraftClient(reply, tx) => {
            match table.insert(tx) {
                Ok(id) => WriterAction::Joined(reply, id, SocketPacket::ProxyJoin(id)),
                Err(_) => WriterAction::Refused(reply),
            }
        },
    }
}

// ---------------------------------------------------------------------------
// Session reader
// ---------------------------------------------------------------------------
/// What the reader does with one frame from the proxy-client.
pub enum ReaderAction {
    /// Hand these bytes to the outbox in slot `ClientID`.
    Forward(ClientID, Vec<u8>),
    /// Ask the writer to answer a ping.
    AnswerPing(PingPacket),
    /// Nothing to do.
    Ignore,
}

/// Handles one frame read from the proxy-client.
pub fn reader_step<T>(table: &mut Distributor<T>, packet: SocketPacket) -> (r: ReaderAction)
    requires
        old(table).wf(),
    ensures
        final(table).wf(),
        match packet@ {
            PacketView::ProxyDisconnect(id) => r is Ignore && final(table)@ == after_removal(
                old(table)@,
                id,
            ),
            PacketView::ProxyData(id, data) => final(table)@ == old(table)@ && if (id as int)
                < MAXIMUM_CLIENTS && old(table)@[id as int] is Some {
                r matches ReaderAction::Forward(rid, rdata) && rid == id && rdata@ == data
            } else {
                r is Ignore
            },
            PacketView::ProxyPing(n) => final(table)@ == old(table)@ && r == ReaderAction::AnswerPing(n),
            _ => final(table)@ == old(table)@ && r is Ignore,
        },
{
    match packet {
        SocketPacket::ProxyDisconnect(id) => {
            table.remove_by_id(id);
            ReaderAction::Ignore
        },
        SocketPacket::ProxyData(p) => {
            if table.get_by_id(p.client_id).is_some() {
                ReaderAction::Forward(p.client_id, p.data)
            } else {
                ReaderAction::Ignore
            }
        },
        SocketPacket::ProxyPing(n) => ReaderAction::AnswerPing(n),
        _ => ReaderAction::Ignore,
    }
}

// ---------------------------------------------------------------------------
// Handshake
// ---------------------------------------------------------------------------
/// What to do with a frame that arrives before the proxy-client's hello.
pub enum HelloWait {
    /// The hello: go on to authentication.
    Hello(ProxyHelloPacket),
    /// A connectivity probe: answer with this pong and keep waiting.
    Pong(SocketPacket),
    /// Anything else ends the connection.
    Wrong,
}

/// Waits for the hello while answering pings.
pub fn hello_wait_step(packet: SocketPacket) -> (r: HelloWait)
    ensures
        match packet {
            SocketPacket::ProxyHello(h) => r == HelloWait::Hello(h),
            SocketPacket::ProxyPing(n) => r matches HelloWait::Pong(p) && p@ == PacketView::ProxyPong(n),
            _ => r is Wrong,
        },
{
    match packet {
        SocketPacket::ProxyHello(h) => HelloWait::Hello(h),
        SocketPacket::ProxyPing(n) => HelloWait::Pong(SocketPacket::ProxyPong(n)),
        _ => HelloWait::Wrong,
    }
}

/// A session whose proxy-client has not proven its identity yet.
pub struct NotAuthenticated;

/// A session whose proxy-client owns the key of its hostname.
pub struct Authenticated;

/// A session that has ended; it cannot be used again.
pub struct Disconnected;

// ---------------------------------------------------------------------------
// Laws
// ---------------------------------------------------------------------------
/// Slot uniqueness: an id handed out is taken until it is freed, so the next
/// allocation gets another one; allocation fails exactly when every slot is
/// taken.
pub proof fn slot_ids_are_unique<T>(s: Seq<Option<T>>, a: T)
    requires
        s.len() == MAXIMUM_CLIENTS,
    ensures
        lowest_free(s) is None <==> forall|j: int| 0 <= j < s.len() ==> (#[trigger] s[j]) is Some,
        lowest_free(s) matches Some(i) ==> (0 <= i < s.len() && s[i] is None && lowest_free(
            s.update(i, Some(a)),
        ) != Some(i)),
{
    lemma_free_from(s, 0);
    if let Some(i) = lowest_free(s) {
        let s2 = s.update(i, Some(a));
        lemma_free_from(s2, 0);
    }
}

/// At most one disconnect per client: once a removal of `id` has emptied its
/// slot (by the writer, which emits the disconnect frame, or by the reader on
/// the proxy-client's own disconnect), a further removal of `id` emits
/// nothing until the slot is taken again.
pub proof fn disconnect_at_most_once<T>(s: Seq<Option<T>>, id: ClientID)
    ensures
        !removal_emits(after_removal(s, id), id),
        after_removal(after_removal(s, id), id) == after_removal(s, id),
{
    if (id as int) < s.len() {
        assert(after_removal(s, id).update(id as int, None) =~= after_removal(s, id));
    }
}

} // verus!
