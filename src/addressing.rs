use vstd::prelude::*;

verus! {

/// Why a connection, a session or a registration failed.
#[derive(Debug, Clone, PartialEq, Eq)]
pub enum DistributorError {
    ClientNotFound,
    ServerNotFound(String),
    ServerAlreadyConnected,
    ServerNotConnected(String),
    AuthError,
    Timeout,
    WrongPacket,
    TooManyClients,
    UnknownError(String),
    IoError,
}

} // verus!
