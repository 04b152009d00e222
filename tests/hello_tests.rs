use craftip::datatypes::PacketError;
use craftip::minecraft::{MinecraftHelloPacket, MinecraftHelloPacketType};

struct TestHelloPacket {
    name: String,
    packet: MinecraftHelloPacket,
    data: Vec<u8>,
}

#[test]
fn test_test_hello_packet_ping() {
        let test_vector = vec![
            TestHelloPacket {
                name: "ping with long hostname".to_string(),
                packet: MinecraftHelloPacket {
                    pkg_type: MinecraftHelloPacketType::Legacy,
                    length: 162,
                    id: 0,
                    version: 73,
                    hostname: "aaaaaaaaaaaaaaaaaaaaaaaaaaaaaaaaaaaaaaaaaaaaaaaaaaaaaaaaaaaaaaa"
                        .parse()
                        .unwrap(),
                    forge: false,
                    port: 25565,
                },
                data: vec![
                    254, 1, 250, 0, 11, 0, 77, 0, 67, 0, 124, 0, 80, 0, 105, 0, 110, 0, 103, 0, 72,
                    0, 111, 0, 115, 0, 116, 0, 133, 73, 0, 63, 0, 97, 0, 97, 0, 97, 0, 97, 0, 97,
                    0, 97, 0, 97, 0, 97, 0, 97, 0, 97, 0, 97, 0, 97, 0, 97, 0, 97, 0, 97, 0, 97, 0,
                    97, 0, 97, 0, 97, 0, 97, 0, 97, 0, 97, 0, 97, 0, 97, 0, 97, 0, 97, 0, 97, 0,
                    97, 0, 97, 0, 97, 0, 97, 0, 97, 0, 97, 0, 97, 0, 97, 0, 97, 0, 97, 0, 97, 0,
                    97, 0, 97, 0, 97, 0, 97, 0, 97, 0, 97, 0, 97, 0, 97, 0, 97, 0, 97, 0, 97, 0,
                    97, 0, 97, 0, 97, 0, 97, 0, 97, 0, 97, 0, 97, 0, 97, 0, 97, 0, 97, 0, 97, 0,
                    97, 0, 97, 0, 97, 0, 0, 99, 221,
                ],
            },
            TestHelloPacket {
                name: "ping with short hostname".to_string(),
                packet: MinecraftHelloPacket {
                    pkg_type: MinecraftHelloPacketType::Legacy,
                    length: 40,
                    id: 0,
                    version: 73,
                    hostname: "hi".parse().unwrap(),
                    forge: false,
                    port: 25565,
                },
                data: vec![
                    254, 1, 250, 0, 11, 0, 77, 0, 67, 0, 124, 0, 80, 0, 105, 0, 110, 0, 103, 0, 72,
                    0, 111, 0, 115, 0, 116, 0, 11, 73, 0, 2, 0, 104, 0, 105, 0, 0, 99, 221,
                ],
            },
            TestHelloPacket {
                name: "connect with long hostname".to_string(),
                packet: MinecraftHelloPacket {
                    pkg_type: MinecraftHelloPacketType::Legacy,
                    length: 158,
                    id: 0,
                    version: 73,
                    hostname: "aaaaaaaaaaaaaaaaaaaaaaaaaaaaaaaaaaaaaaaaaaaaaaaaaaaaaaaaaaaaaaa"
                        .parse()
                        .unwrap(),
                    forge: false,
                    port: 25565,
                },
                data: vec![
                    2, 73, 0, 11, 0, 80, 0, 101, 0, 110, 0, 110, 0, 101, 0, 114, 0, 81, 0, 117, 0,
                    101, 0, 101, 0, 110, 0, 63, 0, 97, 0, 97, 0, 97, 0, 97, 0, 97, 0, 97, 0, 97, 0,
                    97, 0, 97, 0, 97, 0, 97, 0, 97, 0, 97, 0, 97, 0, 97, 0, 97, 0, 97, 0, 97, 0,
                    97, 0, 97, 0, 97, 0, 97, 0, 97, 0, 97, 0, 97, 0, 97, 0, 97, 0, 97, 0, 97, 0,
                    97, 0, 97, 0, 97, 0, 97, 0, 97, 0, 97, 0, 97, 0, 97, 0, 97, 0, 97, 0, 97, 0,
                    97, 0, 97, 0, 97, 0, 97, 0, 97, 0, 97, 0, 97, 0, 97, 0, 97, 0, 97, 0, 97, 0,
                    97, 0, 97, 0, 97, 0, 97, 0, 97, 0, 97, 0, 97, 0, 97, 0, 97, 0, 97, 0, 97, 0,
                    97, 0, 0, 99, 221,
                ],
            },
            TestHelloPacket {
                name: "connect with short hostname".to_string(),
                packet: MinecraftHelloPacket {
                    pkg_type: MinecraftHelloPacketType::Legacy,
                    length: 50,
                    id: 0,
                    version: 73,
                    hostname: "localhost".parse().unwrap(),
                    forge: false,
                    port: 25565,
                },
                data: vec![
                    2, 73, 0, 11, 0, 80, 0, 101, 0, 110, 0, 110, 0, 101, 0, 114, 0, 81, 0, 117, 0,
                    101, 0, 101, 0, 110, 0, 9, 0, 108, 0, 111, 0, 99, 0, 97, 0, 108, 0, 104, 0,
                    111, 0, 115, 0, 116, 0, 0, 99, 221,
                ],
            },
            TestHelloPacket {
                name: "connect with too long buffer".to_string(),
                packet: MinecraftHelloPacket {
                    pkg_type: MinecraftHelloPacketType::Legacy,
                    length: 50,
                    id: 0,
                    version: 73,
                    hostname: "localhost".parse().unwrap(),
                    forge: false,
                    port: 25565,
                },
                data: vec![
                    2, 73, 0, 11, 0, 80, 0, 101, 0, 110, 0, 110, 0, 101, 0, 114, 0, 81, 0, 117, 0,
                    101, 0, 101, 0, 110, 0, 9, 0, 108, 0, 111, 0, 99, 0, 97, 0, 108, 0, 104, 0,
                    111, 0, 115, 0, 116, 0, 0, 99, 221,
                ],
            },
            TestHelloPacket {
                name: "connect with new server".to_string(),
                packet: MinecraftHelloPacket {
                    pkg_type: MinecraftHelloPacketType::Connect,
                    length: 17,
                    id: 0,
                    version: 767,
                    hostname: "localhost".parse().unwrap(),
                    forge: false,
                    port: 25564,
                },
                data: Vec::from(
                    b"\x10\x00\xff\x05\x09\x6c\x6f\x63\x61\x6c\x68\x6f\x73\x74\x63\xdc\x02",
                ),
            },
            TestHelloPacket {
                name: "Ping new server".to_string(),
                packet: MinecraftHelloPacket {
                    pkg_type: MinecraftHelloPacketType::Ping,
                    length: 17,
                    id: 0,
                    version: 767,
                    hostname: "localhost".parse().unwrap(),
                    forge: false,
                    port: 25564,
                },
                data: Vec::from(
                    b"\x10\x00\xff\x05\x09\x6c\x6f\x63\x61\x6c\x68\x6f\x73\x74\x63\xdc\x01",
                ),
            },
            TestHelloPacket {
                name: "".to_string(),
                packet: MinecraftHelloPacket {
                    length: 42,
                    pkg_type: MinecraftHelloPacketType::Connect,
                    id: 0,
                    version: 767,
                    hostname: "1234abcd001992312312.t.craftip.net".to_string(),
                    forge: false,
                    port: 25565,
                },
                data: Vec::from(b")\0\xff\x05\"1234abcd001992312312.t.craftip.netc\xdd\x02"),
            },
        ];
    for test in test_vector {
        println!("Testing {}...", test.name);
        for len in 0..test.data.len() {
            let packet = MinecraftHelloPacket::new(&test.data[..len]).unwrap();
            assert_eq!(packet, None);
        }
        let packet = MinecraftHelloPacket::new(&test.data).unwrap();
        assert_eq!(packet, Some(test.packet.clone()));
    }
}

/// Deterministic pseudo-random bytes (xorshift), so that runs repeat.
fn next(state: &mut u64) -> u64 {
    *state ^= *state << 13;
    *state ^= *state >> 7;
    *state ^= *state << 17;
    *state
}

#[test]
// should not panic!
fn test_test_random_bytes() {
    let mut state: u64 = 0x9E37_79B9_7F4A_7C15;
    for i in 0..1000 {
        let size = (next(&mut state) % 1024) as usize;
        let mut buf = Vec::with_capacity(size);
        for _ in 0..size {
            buf.push(next(&mut state) as u8);
        }
        println!("Test\t{i} random bytes with len {}...", size);
        match MinecraftHelloPacket::new(&buf) {
            Ok(hello) => println!("Success: {:?}", hello),
            Err(e) => println!("Error: {:?}", e),
        }
    }
}

#[test]
fn modern_handshake_scenario() {
    let data = b"\x10\x00\xff\x05\x09localhost\x63\xdc\x01";
    let hello = MinecraftHelloPacket::new(data).unwrap().unwrap();
    assert_eq!(hello.pkg_type, MinecraftHelloPacketType::Ping);
    assert_eq!(hello.hostname, "localhost");
    assert_eq!(hello.port, 25564);
    assert_eq!(hello.version, 767);
    assert_eq!(hello.length, 17);
    assert!(!hello.forge);
}

#[test]
fn forge_suffix_is_stripped_and_detected() {
    let host = b"mc.example\0FORGE";
    let mut data = vec![0u8, 0x00, 0xff, 0x05, host.len() as u8];
    data.extend_from_slice(host);
    data.extend_from_slice(&[0x63, 0xdd, 0x02]);
    data[0] = (data.len() - 1) as u8;
    let hello = MinecraftHelloPacket::new(&data).unwrap().unwrap();
    assert_eq!(hello.hostname, "mc.example");
    assert!(hello.forge);
    assert_eq!(hello.pkg_type, MinecraftHelloPacketType::Connect);
}

#[test]
fn hostname_is_cut_at_first_nul_without_forge() {
    let host = b"abc\0xyz";
    let mut data = vec![0u8, 0x00, 0x01, host.len() as u8];
    data.extend_from_slice(host);
    data.extend_from_slice(&[0x63, 0xdd, 0x03]);
    data[0] = (data.len() - 1) as u8;
    let hello = MinecraftHelloPacket::new(&data).unwrap().unwrap();
    assert_eq!(hello.hostname, "abc");
    assert!(!hello.forge);
    assert_eq!(hello.pkg_type, MinecraftHelloPacketType::Unknown);
}

#[test]
fn sniffer_errors() {
    // packet id other than 0
    assert_eq!(MinecraftHelloPacket::new(&[0x10, 0x01, 0x00]), Err(PacketError::NotMatching));
    // announced length does not end after the port
    let data = b"\x11\x00\xff\x05\x09localhost\x63\xdc\x01";
    assert_eq!(MinecraftHelloPacket::new(data), Err(PacketError::NotValid));
    // legacy ping with a broken preamble
    let mut bad = vec![0xFE, 0x01];
    bad.extend_from_slice(&[0u8; 25]);
    assert_eq!(MinecraftHelloPacket::new(&bad), Err(PacketError::NotValid));
    // hostname that is not UTF-8
    let data = b"\x08\x00\x01\x02\xC3\x28\x63\xdc\x01";
    assert_eq!(MinecraftHelloPacket::new(data), Err(PacketError::NotValidStringEncoding));
    // a VarInt of six bytes
    assert_eq!(MinecraftHelloPacket::new(&[0x80, 0x80, 0x80, 0x80, 0x80, 0x01]), Err(PacketError::NotValid));
}

#[test]
fn sniffer_restarts_on_grown_buffer() {
    let data = b"\x10\x00\xff\x05\x09localhost\x63\xdc\x02";
    let full = MinecraftHelloPacket::new(data).unwrap();
    let mut grown = Vec::new();
    for b in data.iter() {
        assert_eq!(MinecraftHelloPacket::new(&grown).unwrap(), None);
        grown.push(*b);
    }
    grown.extend_from_slice(b"\x01\x00\x09\x01");
    assert_eq!(MinecraftHelloPacket::new(&grown).unwrap(), full);
}

fn legacy_ping(units: &[u16], rest: u16) -> Vec<u8> {
    let mut data = vec![
        0xFE, 0x01, 0xFA, 0x00, 0x0B, 0x00, 0x4D, 0x00, 0x43, 0x00, 0x7C, 0x00, 0x50, 0x00, 0x69, 0x00,
        0x6E, 0x00, 0x67, 0x00, 0x48, 0x00, 0x6F, 0x00, 0x73, 0x00, 0x74,
    ];
    data.extend_from_slice(&rest.to_be_bytes());
    data.push(73);
    data.extend_from_slice(&(units.len() as u16).to_be_bytes());
    for u in units {
        data.extend_from_slice(&u.to_be_bytes());
    }
    data.extend_from_slice(&25565u32.to_be_bytes());
    data
}

#[test]
fn legacy_ping_rest_length_counts_code_units() {
    let data = legacy_ping(&[0x00E9], 9);
    assert_eq!(data.len(), 38);
    let hello = MinecraftHelloPacket::new(&data).unwrap().unwrap();
    assert_eq!(hello.hostname, "\u{e9}");
    assert_eq!(hello.length, 38);
    assert_eq!(hello.port, 25565);
    assert_eq!(hello.version, 73);
    // a rest length that counts the hostname's UTF-8 bytes is refused
    assert_eq!(MinecraftHelloPacket::new(&legacy_ping(&[0x00E9], 11)), Err(PacketError::NotValid));
    // a surrogate pair is two code units
    let pair = legacy_ping(&[0xD83D, 0xDE00], 11);
    assert_eq!(MinecraftHelloPacket::new(&pair).unwrap().unwrap().hostname, "\u{1F600}");
}
