use craftip::process_socket::{classify_connection, proxy_version, ConnectionKind};
use craftip::responses::{
    generate_response_legacy, json_response, ping_echo, MinecraftDataPacket, MinecraftText, PingEcho,
    ServerListPingResponse,
};
use craftip::updater_proto::get_bytes_for_signature;

#[test]
fn minecraft_craft_minecraft_packet() {
    assert_eq!(
        MinecraftDataPacket::from_packet_without_len(&b"hello"[..]),
        MinecraftDataPacket(b"\x05hello".to_vec())
    );
}

#[test]
fn json_response_frames_id_and_string() {
    let r = json_response("{}");
    assert_eq!(r.0, vec![4, 0, 2, b'{', b'}']);
    let body = "{\"version\":{\"name\":\"Server not online!\",\"protocol\":0}}";
    let r = json_response(body);
    assert_eq!(r.0[0] as usize, body.len() + 2);
    assert_eq!(r.0[1], 0);
    assert_eq!(r.0[2] as usize, body.len());
    assert_eq!(&r.0[3..], body.as_bytes());
}

#[test]
fn offline_status_values() {
    let s = ServerListPingResponse::not_online();
    assert_eq!(s.version.name, "Server not online!");
    assert_eq!(s.version.protocol, 0);
    assert_eq!(s.description.text, "Ask your friend to start CraftIP!");
    assert_eq!(s.description.color, Some("red".to_string()));
    assert_eq!(s.players.max, 0);
    assert!(s.players.sample.is_empty());
    let t = MinecraftText::not_connected_error();
    assert_eq!(t.text, "Server not online!\nAsk your friend to start CraftIP!");
    assert!(!t.bold);
}

#[test]
fn legacy_kick_bytes() {
    let r = generate_response_legacy();
    let text = "§1\u{0}127\u{0}Server not online!\u{0}Ask your friend to start CraftIP!\u{0}0\u{0}0";
    let mut expected = vec![0xFF];
    expected.extend_from_slice(&((text.len() - 1) as u16).to_be_bytes());
    for u in text.encode_utf16() {
        expected.extend_from_slice(&u.to_be_bytes());
    }
    assert_eq!(r.0, expected);
    assert_eq!(r.0[3..5], [0x00, 0xA7]);
}

#[test]
fn ping_is_echoed() {
    assert!(matches!(ping_echo(&[1, 0, 9]), PingEcho::NeedMore));
    let buf = [1, 0, 9, 1, 1, 2, 3, 4, 5, 6, 7, 8, 99];
    match ping_echo(&buf) {
        PingEcho::Pong(p) => assert_eq!(p, [9, 1, 1, 2, 3, 4, 5, 6, 7, 8]),
        _ => panic!("expected a pong"),
    }
    assert!(matches!(ping_echo(&[1, 0, 9, 2, 0, 0, 0, 0, 0, 0, 0, 0]), PingEcho::Invalid));
}

#[test]
fn connections_are_told_apart_by_magic() {
    assert_eq!(classify_connection(b"Craft"), ConnectionKind::Undecided);
    assert_eq!(classify_connection(b"CraftIP\x00\x01"), ConnectionKind::ProxyClient);
    assert_eq!(classify_connection(b"\x10\x00\xff\x05\x09loc"), ConnectionKind::MinecraftClient);
    assert_eq!(proxy_version(b"CraftIP\x00\x01"), Some(1));
    assert_eq!(proxy_version(b"CraftIP\x00"), None);
}

#[test]
fn signature_bytes_concatenate() {
    assert_eq!(get_bytes_for_signature(&[1, 2], "0.1"), b"\x01\x02CraftIPVersion0.1".to_vec());
}
