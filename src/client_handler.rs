use vstd::prelude::*;

use crate::socket_packet::ClientID;

verus! {

/// A teardown of a client with slot `id`: whether a removal is still
/// pending afterwards, and the removal to send to the session, if any.
pub open spec fn close_outcome(pending: bool, id: ClientID) -> (bool, Option<ClientID>) {
    if pending {
        (false, Some(id))
    } else {
        (false, None)
    }
}

/// The record of one external Minecraft client bound to a session.
pub struct MCClient {
    id: ClientID,
    hostname: String,
    need_close: bool,
}

impl MCClient {
    /// The client's slot on its session.
    pub closed spec fn spec_id(&self) -> ClientID {
        self.id
    }

    /// The hostname it asked for.
    pub closed spec fn spec_hostname(&self) -> Seq<char> {
        self.hostname@
    }

    /// Whether the session still has to be told that this client is gone.
    pub closed spec fn pending_close(&self) -> bool {
        self.need_close
    }

    /// A client that got slot `id` on the session serving `hostname`.
    pub fn new(id: ClientID, hostname: String) -> (r: Self)
        ensures
            r.spec_id() == id,
            r.spec_hostname() == hostname@,
            r.pending_close(),
    {
        MCClient { id, hostname, need_close: true }
    }

    /// The client's slot on its session.
    pub fn id(&self) -> (r: ClientID)
        ensures
            r == self.spec_id(),
    {
        self.id
    }

    /// The hostname it asked for.
    pub fn hostname(&self) -> (r: &String)
        ensures
            r@ == self.spec_hostname(),
    {
        &self.hostname
    }

    /// The session closed this client itself: no removal is to be sent.
    pub fn set_closed_by_proxy(&mut self)
        ensures
            final(self).spec_id() == old(self).spec_id(),
            final(self).spec_hostname() == old(self).spec_hostname(),
            !final(self).pending_close(),
    {
        self.need_close = false;
    }

    /// Tears the client down: the id whose removal must be sent to the
    /// session, the first time only.
    pub fn close(&mut self) -> (r: Option<ClientID>)
        ensures
            final(self).spec_id() == old(self).spec_id(),
            final(self).spec_hostname() == old(self).spec_hostname(),
            (final(self).pending_close(), r) == close_outcome(
                old(self).pending_close(),
                old(self).spec_id(),
            ),
    {
        if self.need_close {
            self.need_close = false;
            Some(self.id)
        } else {
            None
        }
    }
}

/// Why an external client's connection ended.
#[derive(Debug, Clone, Copy, PartialEq, Eq, Structural)]
pub enum DisconnectReason {
    Disconnected,
    SocketClosed,
}

/// A client is removed from its session at most once: whatever state it is
/// in, of two teardowns in a row the second sends nothing.
pub proof fn removal_at_most_once(pending: bool, id: ClientID)
    ensures
        close_outcome(close_outcome(pending, id).0, id).1 is None,
{
}

} // verus!
