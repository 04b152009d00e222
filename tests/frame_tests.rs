use craftip::config::{ALREADY_CONNECTED_MESSAGE, AUTH_FAILED_MESSAGE};
use craftip::datatypes::PacketError;
use craftip::packet_codec::{PacketCodec, PacketCodecError};
use craftip::proxy::{
    ProxyAuthenticator, ProxyConnectedResponse, ProxyDataPacket, ProxyHelloPacket, ServerPublicKey,
};
use craftip::socket_packet::{decode_available, SocketPacket};

fn create_packets() -> Vec<SocketPacket> {
    let ping = SocketPacket::ProxyPing(1);
    let err = SocketPacket::ProxyError("hi".into());
    let data = SocketPacket::ProxyData(ProxyDataPacket { client_id: 0x1234, data: vec![9, 10, 11, 12, 13] });
    vec![ping, data, err]
}

#[test]
fn encode_decode() {
    let packets = create_packets();
    let mut buf = Vec::new();
    let mut lengths = Vec::new();
    for packet in &packets {
        println!("Encoding {:?}", packet);
        let start_len = buf.len();
        packet.encode_into(&mut buf).unwrap();
        lengths.push(buf.len() - start_len);
    }
    println!(">>> packet indexes {:?}", lengths);
    println!(">>> {:?}", buf);
    for (i, packet) in packets.iter().enumerate() {
        println!("Try to decode {} bytes in packet {:?} ", lengths[i], packet);
        let before_parse = buf.len();
        let decoded_packet = SocketPacket::decode_from(&mut buf).unwrap().unwrap();
        assert_eq!(packet, &decoded_packet);
        let parsed_bytes = before_parse - buf.len();
        assert_eq!(lengths[i], parsed_bytes, "Parsed different amount than encoded");
    }
    assert!(buf.is_empty());
}

#[test]
fn partial_decoding() {
    let packets = create_packets();
    let mut buf = Vec::new();
    let mut packet_indices = Vec::new();
    for packet in &packets {
        println!("Encoding {:?}", packet);
        packet.encode_into(&mut buf).unwrap();
        packet_indices.push(buf.len());
    }
    let mut parsed_packets = vec![];
    for i in 0..=buf.len() {
        println!("Testing {}/{} Bytes parsed", i, buf.len());
        let mut buf = buf[..i].to_vec();
        parsed_packets = vec![];
        loop {
            match SocketPacket::decode_from(&mut buf) {
                Ok(Some(packet)) => parsed_packets.push(packet.clone()),
                Ok(None) => {
                    let amout_that_should_be_parsed = packet_indices.iter().filter(|e| **e <= i).count();
                    assert_eq!(packets[..amout_that_should_be_parsed], parsed_packets[..]);
                    break;
                }
                Err(e) => panic!("{:?}", e),
            }
        }
    }
    assert_eq!(packets, parsed_packets, "Did not decode all packets");
}

fn all_control_messages() -> Vec<SocketPacket> {
    let mut key = [0u8; 32];
    for (i, b) in key.iter_mut().enumerate() {
        *b = i as u8;
    }
    vec![
        SocketPacket::ProxyHello(ProxyHelloPacket {
            version: 1,
            hostname: "0001020304050607080a.t.craftip.net".to_string(),
            auth: ProxyAuthenticator::PublicKey(ServerPublicKey { key }),
        }),
        SocketPacket::ProxyAuthRequest([7u8; 32]),
        SocketPacket::ProxyAuthResponse([9u8; 64]),
        SocketPacket::ProxyHelloResponse(ProxyConnectedResponse { version: 1 }),
        SocketPacket::ProxyJoin(0),
        SocketPacket::ProxyDisconnect(254),
        SocketPacket::ProxyDisconnectAck(3),
        SocketPacket::ProxyError("Server already connected. Try again later!".to_string()),
        SocketPacket::ProxyPing(0xBEEF),
        SocketPacket::ProxyPong(0xBEEF),
        SocketPacket::Unknown,
    ]
}

#[test]
fn every_control_message_round_trips() {
    for m in all_control_messages() {
        let mut buf = Vec::new();
        m.encode_into(&mut buf).unwrap();
        assert_eq!(buf[0] & 0x80, 0, "control frames keep the data flag clear");
        let framed = buf.len();
        buf.extend_from_slice(&[1, 2, 3]);
        assert_eq!(SocketPacket::decode_from(&mut buf), Ok(Some(m.clone())));
        assert_eq!(buf, vec![1, 2, 3]);
        assert!(framed >= 3);
    }
}

#[test]
fn data_frame_layout_is_exact() {
    let m = SocketPacket::ProxyData(ProxyDataPacket::new(vec![0xAA, 0xBB], 0x0102));
    let mut buf = Vec::new();
    m.encode_into(&mut buf).unwrap();
    assert_eq!(buf, vec![0x80, 0x04, 0x01, 0x02, 0xAA, 0xBB]);
    let ping = SocketPacket::ProxyPing(0x0A0B);
    let mut buf = Vec::new();
    ping.encode_into(&mut buf).unwrap();
    assert_eq!(buf, vec![0x00, 0x03, 8, 0x0A, 0x0B]);
}

#[test]
fn largest_fast_path_frame_that_round_trips() {
    let data: Vec<u8> = (0..32765u32).map(|i| (i % 251) as u8).collect();
    let m = SocketPacket::ProxyData(ProxyDataPacket::new(data, 7));
    let mut buf = Vec::new();
    m.encode_into(&mut buf).unwrap();
    assert_eq!(SocketPacket::decode_from(&mut buf), Ok(Some(m)));
    assert!(buf.is_empty());
}

#[test]
fn oversized_messages_are_refused() {
    let m = SocketPacket::ProxyData(ProxyDataPacket::new(vec![0; 65534], 1));
    let mut buf = vec![5];
    assert_eq!(m.encode_into(&mut buf), Err(PacketError::EncodingError));
    assert_eq!(buf, vec![5]);
    // the first payload whose frame length would reach the fast-path flag
    let m = SocketPacket::ProxyData(ProxyDataPacket::new(vec![0; 32766], 1));
    assert_eq!(m.encode_into(&mut buf), Err(PacketError::EncodingError));
    assert_eq!(buf, vec![5]);
    let e = SocketPacket::ProxyError("x".repeat(40000));
    assert_eq!(e.encode_into(&mut buf), Err(PacketError::EncodingError));
    assert_eq!(buf, vec![5]);
}

#[test]
fn malformed_frames_are_errors() {
    // unknown tag
    let mut buf = vec![0x00, 0x01, 42];
    assert_eq!(SocketPacket::decode_from(&mut buf), Err(PacketError::NotValid));
    assert_eq!(buf.len(), 3);
    // data frame too short to hold a client id
    let mut buf = vec![0x80, 0x01, 0x00];
    assert_eq!(SocketPacket::decode_from(&mut buf), Err(PacketError::NotValid));
    // trailing byte after a ping payload
    let mut buf = vec![0x00, 0x04, 8, 0, 1, 0];
    assert_eq!(SocketPacket::decode_from(&mut buf), Err(PacketError::NotValid));
    // incomplete frame
    let mut buf = vec![0x00, 0x03, 8, 0];
    assert_eq!(SocketPacket::decode_from(&mut buf), Ok(None));
    assert_eq!(buf, vec![0x00, 0x03, 8, 0]);
}

#[test]
fn codec_decodes_and_encodes() {
    let mut codec = PacketCodec::new(65536);
    let mut buf = Vec::new();
    assert_eq!(codec.decode(&mut buf), Ok(None));
    codec.encode(SocketPacket::ProxyJoin(4), &mut buf).unwrap();
    assert_eq!(codec.decode(&mut buf), Ok(Some(SocketPacket::ProxyJoin(4))));
    let mut bad = vec![0x00, 0x01, 99];
    assert_eq!(codec.decode(&mut bad), Err(PacketCodecError::PacketCodec(PacketError::NotValid)));
    assert_eq!(codec.max_length, 65536);
}

#[test]
fn refusal_texts_travel_in_error_frames() {
    assert_eq!(AUTH_FAILED_MESSAGE, "Error authenticating: AuthError");
    assert_eq!(ALREADY_CONNECTED_MESSAGE, "Server already connected. Try again later!");
    for text in [AUTH_FAILED_MESSAGE, ALREADY_CONNECTED_MESSAGE] {
        let m = SocketPacket::ProxyError(text.to_string());
        let mut buf = Vec::new();
        m.encode_into(&mut buf).unwrap();
        assert_eq!(buf.len(), 2 + 1 + 2 + text.len());
        assert_eq!(SocketPacket::decode_from(&mut buf), Ok(Some(m)));
    }
}

#[test]
fn decode_available_takes_every_complete_frame() {
    let packets = create_packets();
    let mut stream = Vec::new();
    let mut ends = Vec::new();
    for p in &packets {
        p.encode_into(&mut stream).unwrap();
        ends.push(stream.len());
    }
    for k in 0..=stream.len() {
        let mut buf = stream[..k].to_vec();
        let got = decode_available(&mut buf);
        let complete = ends.iter().filter(|e| **e <= k).count();
        assert_eq!(got[..], packets[..complete]);
        let used = if complete == 0 { 0 } else { ends[complete - 1] };
        assert_eq!(buf, stream[used..k].to_vec());
    }
    let mut bad = vec![0x00, 0x03, 8, 0, 1, 0x00, 0x01, 42, 0x00];
    let got = decode_available(&mut bad);
    assert_eq!(got, vec![SocketPacket::ProxyPing(1)]);
    assert_eq!(bad, vec![0x00, 0x01, 42, 0x00]);
}
