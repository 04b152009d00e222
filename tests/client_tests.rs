use craftip::addressing::DistributorError;
use craftip::client::{
    auth_outcome, client_preamble_bytes, client_reader_step, client_writer_step, ping_latency,
    keepalive_step, ClientAction, ClientError, ClientToProxy, ConnectionTable, Keepalive,
};
use craftip::proxy::{ProxyConnectedResponse, ProxyDataPacket};
use craftip::socket_packet::SocketPacket;

#[test]
fn preamble_is_magic_and_version() {
    assert_eq!(client_preamble_bytes(), b"CraftIP\x00\x01".to_vec());
}

#[test]
fn connection_table_counts_occupied_slots() {
    let mut table: ConnectionTable<u32> = ConnectionTable::new();
    assert_eq!(table.len(), 0);
    table.add_connection(3, 30);
    table.add_connection(3, 31);
    table.add_connection(7, 70);
    table.add_connection(300, 1);
    assert_eq!(table.len(), 2);
    assert_eq!(table.get(3), Ok(&31));
    assert_eq!(table.get(4), Err(DistributorError::ClientNotFound));
    assert!(table.remove_connection(3));
    assert!(!table.remove_connection(3));
    assert_eq!(table.len(), 1);
    assert_eq!(table.get(300), Err(DistributorError::ClientNotFound));
}

#[test]
fn client_reader_sorts_frames() {
    assert_eq!(client_reader_step(SocketPacket::ProxyJoin(2)), ClientAction::Join(2));
    assert_eq!(client_reader_step(SocketPacket::ProxyDisconnect(2)), ClientAction::Remove(2));
    assert_eq!(client_reader_step(SocketPacket::ProxyPong(9)), ClientAction::Pong(9));
    assert_eq!(
        client_reader_step(SocketPacket::ProxyData(ProxyDataPacket::new(vec![1, 2], 5))),
        ClientAction::Forward(5, vec![1, 2])
    );
    assert_eq!(client_reader_step(SocketPacket::ProxyPing(1)), ClientAction::Unexpected);
}

#[test]
fn client_writer_frames_commands() {
    assert_eq!(
        client_writer_step(ClientToProxy::Packet(1, vec![4])),
        Some(SocketPacket::ProxyData(ProxyDataPacket::new(vec![4], 1)))
    );
    assert_eq!(
        client_writer_step(ClientToProxy::RemoveMinecraftClient(1)),
        Some(SocketPacket::ProxyDisconnect(1))
    );
    assert_eq!(client_writer_step(ClientToProxy::Ping(8)), Some(SocketPacket::ProxyPing(8)));
    assert_eq!(client_writer_step(ClientToProxy::Death("gone".to_string())), None);
}

#[test]
fn handshake_answer_is_judged() {
    assert_eq!(
        auth_outcome(SocketPacket::ProxyHelloResponse(ProxyConnectedResponse { version: 1 })),
        Ok(())
    );
    assert_eq!(
        auth_outcome(SocketPacket::ProxyError("Error authenticating: AuthError".to_string())),
        Err(ClientError::ProxyError("Error authenticating: AuthError".to_string()))
    );
    assert!(matches!(auth_outcome(SocketPacket::ProxyPing(1)), Err(ClientError::UnexpectedPacket(_))));
}

#[test]
fn ping_latency_needs_same_nonce() {
    assert_eq!(ping_latency(100, 100, 130), Some(30));
    assert_eq!(ping_latency(100, 101, 130), None);
    assert_eq!(ping_latency(100, 100, 50), Some(0));
}

#[test]
fn keepalive_pings_then_expires() {
    assert_eq!(keepalive_step(1_000, 0, 0), Keepalive::Wait);
    assert_eq!(keepalive_step(5_000, 4_000, 0), Keepalive::SendPing);
    assert_eq!(keepalive_step(6_000, 4_000, 5_000), Keepalive::Wait);
    assert_eq!(keepalive_step(20_000, 0, 19_000), Keepalive::Expired);
    assert_eq!(keepalive_step(19_999, 0, 19_000), Keepalive::Wait);
    assert_eq!(keepalive_step(10, 500, 600), Keepalive::Wait);
}
