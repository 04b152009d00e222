use vstd::prelude::*;

verus! {

/// Domain suffix of every hostname derived from a proxy-client key.
pub const KEY_SERVER_SUFFIX: &'static str = ".t.craftip.net";

/// Well-known Minecraft port the rendezvous listens on.
pub const SERVER_PORT: u16 = 25565;

/// Number of external-client slots in one proxy-client session.
pub const MAXIMUM_CLIENTS: usize = 255;

/// Version of the rendezvous protocol spoken after the magic prefix.
pub const PROTOCOL_VERSION: u16 = 1;

/// Handshake and idle deadline, in seconds.
pub const TIMEOUT_IN_SEC: u64 = 20;

/// Magic prefix that identifies a proxy-client connection.
pub const PROXY_IDENTIFIER: &'static str = "CraftIP";

/// Largest payload a frame may announce.
pub const MAXIMUM_PACKET_SIZE: usize = 65536;

/// Text sent to a proxy-client whose signature or hostname did not check out.
pub const AUTH_FAILED_MESSAGE: &'static str = "Error authenticating: AuthError";

/// Text sent to a proxy-client whose hostname another session already owns.
pub const ALREADY_CONNECTED_MESSAGE: &'static str = "Server already connected. Try again later!";

} // verus!
