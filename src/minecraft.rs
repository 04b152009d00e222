use vstd::prelude::*;

use crate::cursor::{
    agrees_below, lemma_utf16_string_prefix, lemma_utf8_string_prefix, lemma_varint_prefix,
    bytes_match, read_u16_be, read_u32_be, read_utf16_string, read_utf8_string, read_varint,
    str_read, int_read, u16_be, u32_be, utf16_string_at, utf8_string_at, varint_at,
};
use crate::datatypes::PacketError;
use crate::text::{chars_of, string_from_chars};

verus! {

/// Which first packet a Minecraft client sent.
#[derive(Debug, Clone, Copy, PartialEq, Eq, Structural)]
pub enum MinecraftHelloPacketType {
    Legacy,
    Ping,
    Connect,
    Unknown,
}

/// The first packet of a Minecraft client, as far as routing needs it.
#[derive(Debug, Clone, PartialEq, Eq)]
pub struct MinecraftHelloPacket {
    /// Number of bytes the packet takes in the buffer.
    pub length: usize,
    pub pkg_type: MinecraftHelloPacketType,
    pub id: i32,
    pub version: i32,
    pub hostname: String,
    pub forge: bool,
    pub port: u32,
}

/// Mathematical model of a hello packet.
pub struct HelloView {
    pub length: int,
    pub pkg_type: MinecraftHelloPacketType,
    pub id: i32,
    pub version: i32,
    pub hostname: Seq<char>,
    pub forge: bool,
    pub port: u32,
}

impl View for MinecraftHelloPacket {
    type V = HelloView;

    open spec fn view(&self) -> HelloView {
        HelloView {
            length: self.length as int,
            pkg_type: self.pkg_type,
            id: self.id,
            version: self.version,
            hostname: self.hostname@,
            forge: self.forge,
            port: self.port,
        }
    }
}

/// A parse result seen through the model.
pub open spec fn hello_result_view(r: Result<Option<MinecraftHelloPacket>, PacketError>) -> Result<
    Option<HelloView>,
    PacketError,
> {
    match r {
        Ok(Some(h)) => Ok(Some(h@)),
        Ok(None) => Ok(None),
        Err(e) => Err(e),
    }
}

// ---------------------------------------------------------------------------
// The grammar
// ---------------------------------------------------------------------------
/// `0xFE 0x01 0xFA`, then `MC|PingHost` as a length-prefixed UTF-16BE string.
pub open spec fn legacy_ping_preamble() -> Seq<u8> {
    seq![
        0xFEu8, 0x01, 0xFA, 0x00, 0x0B, 0x00, 0x4D, 0x00, 0x43, 0x00, 0x7C, 0x00, 0x50, 0x00,
        0x69, 0x00, 0x6E, 0x00, 0x67, 0x00, 0x48, 0x00, 0x6F, 0x00, 0x73, 0x00, 0x74,
    ]
}

/// The suffix that Forge clients append to the hostname.
pub open spec fn forge_suffix() -> Seq<char> {
    seq!['\0', 'F', 'O', 'R', 'G', 'E']
}

/// Index of the first NUL of `s` at or after `i`, or `s.len()`.
pub open spec fn nul_index_from(s: Seq<char>, i: int) -> int
    decreases s.len() - i,
{
    if i >= s.len() {
        s.len() as int
    } else if s[i] == '\0' {
        i
    } else {
        nul_index_from(s, i + 1)
    }
}

/// `s` up to its first NUL.
pub open spec fn before_nul(s: Seq<char>) -> Seq<char> {
    s.take(nul_index_from(s, 0))
}

/// Whether `s` ends with the Forge suffix.
pub open spec fn has_forge_suffix(s: Seq<char>) -> bool {
    s.len() >= 6 && s.subrange(s.len() - 6, s.len() as int) == forge_suffix()
}

/// The packet type that a modern handshake's next state asks for.
pub open spec fn next_state_type(next_state: i32) -> MinecraftHelloPacketType {
    if next_state == 1 {
        MinecraftHelloPacketType::Ping
    } else if next_state == 2 {
        MinecraftHelloPacketType::Connect
    } else {
        MinecraftHelloPacketType::Unknown
    }
}

/// Legacy server-list ping: preamble, `u16` rest length, `u8` protocol,
/// UTF-16 hostname, `u32` port. The rest length must be 7 plus two bytes for
/// each UTF-16 code unit of the hostname.
pub open spec fn legacy_ping_at(b: Seq<u8>) -> Result<Option<HelloView>, PacketError> {
    if b.len() < 27 {
        Ok(None)
    } else if b.subrange(0, 27) != legacy_ping_preamble() {
        Err(PacketError::NotValid)
    } else if b.len() < 30 {
        Ok(None)
    } else {
        match utf16_string_at(b, 30) {
            Err(e) => Err(e),
            Ok(None) => Ok(None),
            Ok(Some((h, p))) => if 7 + 2 * (u16_be(b, 30) as int) != u16_be(b, 27) as int {
                Err(PacketError::NotValid)
            } else if b.len() < p + 4 {
                Ok(None)
            } else {
                Ok(
                    Some(
                        HelloView {
                            length: p + 4,
                            pkg_type: MinecraftHelloPacketType::Legacy,
                            id: 0,
                            version: b[29] as i32,
                            hostname: h,
                            forge: false,
                            port: u32_be(b, p),
                        },
                    ),
                )
            },
        }
    }
}

/// Legacy connect: `0x02`, `u8` protocol, UTF-16 username, UTF-16 hostname, `u32` port.
pub open spec fn legacy_connect_at(b: Seq<u8>) -> Result<Option<HelloView>, PacketError> {
    match utf16_string_at(b, 2) {
        Err(e) => Err(e),
        Ok(None) => Ok(None),
        Ok(Some((_user, at1))) => match utf16_string_at(b, at1) {
            Err(e) => Err(e),
            Ok(None) => Ok(None),
            Ok(Some((h, at2))) => if b.len() < at2 + 4 {
                Ok(None)
            } else {
                Ok(
                    Some(
                        HelloView {
                            length: at2 + 4,
                            pkg_type: MinecraftHelloPacketType::Legacy,
                            id: 0,
                            version: b[1] as i32,
                            hostname: h,
                            forge: false,
                            port: u32_be(b, at2),
                        },
                    ),
                )
            },
        },
    }
}

/// What follows the port of a modern handshake.
pub open spec fn modern_tail_at(
    b: Seq<u8>,
    version: i32,
    raw: Seq<char>,
    port: u16,
    p: int,
) -> Result<Option<HelloView>, PacketError> {
    match varint_at(b, p) {
        Err(e) => Err(e),
        Ok(None) => Ok(None),
        Ok(Some((next_state, at5))) => Ok(
            Some(
                HelloView {
                    length: at5,
                    pkg_type: next_state_type(next_state),
                    id: 0,
                    version,
                    hostname: before_nul(raw),
                    forge: has_forge_suffix(raw),
                    port: port as u32,
                },
            ),
        ),
    }
}

/// Modern handshake: VarInt length, VarInt id 0, VarInt protocol, UTF-8
/// hostname, `u16` port (ending at the announced length), VarInt next state.
pub open spec fn modern_at(b: Seq<u8>) -> Result<Option<HelloView>, PacketError> {
    match varint_at(b, 0) {
        Err(e) => Err(e),
        Ok(None) => Ok(None),
        Ok(Some((len, at1))) => match varint_at(b, at1) {
            Err(e) => Err(e),
            Ok(None) => Ok(None),
            Ok(Some((id, at2))) => if id != 0 {
                Err(PacketError::NotMatching)
            } else {
                match varint_at(b, at2) {
                    Err(e) => Err(e),
                    Ok(None) => Ok(None),
                    Ok(Some((version, at3))) => match utf8_string_at(b, at3) {
                        Err(e) => Err(e),
                        Ok(None) => Ok(None),
                        Ok(Some((raw, at4))) => if b.len() < at4 + 2 {
                            Ok(None)
                        } else if at4 + 2 != len as int {
                            Err(PacketError::NotValid)
                        } else {
                            modern_tail_at(b, version, raw, u16_be(b, at4), at4 + 2)
                        },
                    },
                }
            },
        },
    }
}

/// The first Minecraft packet at the start of `b`: `Ok(None)` while it is
/// incomplete, `Err` when no variant can match.
pub open spec fn hello_at(b: Seq<u8>) -> Result<Option<HelloView>, PacketError> {
    if b.len() < 2 {
        Ok(None)
    } else if b[0] == 0xFE && b[1] == 0x01 {
        legacy_ping_at(b)
    } else if b[0] == 0x02 {
        legacy_connect_at(b)
    } else {
        modern_at(b)
    }
}

// ---------------------------------------------------------------------------
// The parser
// ---------------------------------------------------------------------------
fn legacy_ping_preamble_bytes() -> (r: Vec<u8>)
    ensures
        r@ == legacy_ping_preamble(),
{
    let r: Vec<u8> = vec![
        0xFE, 0x01, 0xFA, 0x00, 0x0B, 0x00, 0x4D, 0x00, 0x43, 0x00, 0x7C, 0x00, 0x50, 0x00, 0x69,
        0x00, 0x6E, 0x00, 0x67, 0x00, 0x48, 0x00, 0x6F, 0x00, 0x73, 0x00, 0x74,
    ];
    assert(r@ =~= legacy_ping_preamble());
    r
}

/// Splits a raw modern hostname at its first NUL and tells whether it carries
/// the Forge suffix.
pub fn split_hostname(raw: &str) -> (r: (String, bool))
    ensures
        r.0@ == before_nul(raw@),
        r.1 == has_forge_suffix(raw@),
{
    let chars = chars_of(raw);
    let n = chars.len();
    let mut i: usize = 0;
    while i < n && chars[i] != '\0'
        invariant
            i <= n == chars@.len(),
            chars@ == raw@,
            nul_index_from(raw@, 0) == nul_index_from(raw@, i as int),
        decreases n - i,
    {
        i = i + 1;
    }
    let mut head: Vec<char> = Vec::new();
    let mut j: usize = 0;
    while j < i
        invariant
            j <= i <= n == chars@.len(),
            head@ == chars@.take(j as int),
        decreases i - j,
    {
        head.push(chars[j]);
        assert(head@ =~= chars@.take(j + 1));
        j = j + 1;
    }
    let forge = n >= 6 && chars[n - 6] == '\0' && chars[n - 5] == 'F' && chars[n - 4] == 'O'
        && chars[n - 3] == 'R' && chars[n - 2] == 'G' && chars[n - 1] == 'E';
    assert(forge == has_forge_suffix(raw@)) by {
        if n >= 6 {
            let tail = raw@.subrange(n - 6, n as int);
            if forge {
                assert(tail =~= forge_suffix());
            } else if tail == forge_suffix() {
                assert(tail[0] == '\0' && tail[1] == 'F' && tail[2] == 'O');
                assert(tail[3] == 'R' && tail[4] == 'G' && tail[5] == 'E');
            }
        }
    }
    (string_from_chars(&head), forge)
}

fn legacy_ping_pkg(b: &[u8]) -> (r: Result<Option<MinecraftHelloPacket>, PacketError>)
    ensures
        hello_result_view(r) == legacy_ping_at(b@),
        r matches Ok(Some(h)) ==> h.length <= b@.len(),
{
    if b.len() < 27 {
        return Ok(None);
    }
    let preamble = legacy_ping_preamble_bytes();
    if !bytes_match(b, 0, preamble.as_slice()) {
        assert(b@.subrange(0, 27) != legacy_ping_preamble());
        return Err(PacketError::NotValid);
    }
    assert(b@.subrange(0, 27) == legacy_ping_preamble());
    if b.len() < 30 {
        return Ok(None);
    }
    let rest = read_u16_be(b, 27);
    let version = b[29];
    let r1 = read_utf16_string(b, 30);
    assert(str_read(r1) == utf16_string_at(b@, 30));
    let (hostname, p) = match r1 {
        Err(e) => return Err(e),
        Ok(None) => return Ok(None),
        Ok(Some(x)) => x,
    };
    let units = read_u16_be(b, 30) as usize;
    if 7 + 2 * units != rest as usize {
        return Err(PacketError::NotValid);
    }
    if b.len() - p < 4 {
        return Ok(None);
    }
    let port = read_u32_be(b, p);
    Ok(
        Some(
            MinecraftHelloPacket {
                pkg_type: MinecraftHelloPacketType::Legacy,
                length: p + 4,
                id: 0,
                version: version as i32,
                port,
                forge: false,
                hostname,
            },
        ),
    )
}

fn legacy_connect_pkg(b: &[u8]) -> (r: Result<Option<MinecraftHelloPacket>, PacketError>)
    requires
        b@.len() >= 2,
    ensures
        hello_result_view(r) == legacy_connect_at(b@),
        r matches Ok(Some(h)) ==> h.length <= b@.len(),
{
    let version = b[1];
    let r1 = read_utf16_string(b, 2);
    assert(str_read(r1) == utf16_string_at(b@, 2));
    let (_username, at1) = match r1 {
        Err(e) => return Err(e),
        Ok(None) => return Ok(None),
        Ok(Some(x)) => x,
    };
    let r2 = read_utf16_string(b, at1);
    assert(str_read(r2) == utf16_string_at(b@, at1 as int));
    let (hostname, at2) = match r2 {
        Err(e) => return Err(e),
        Ok(None) => return Ok(None),
        Ok(Some(x)) => x,
    };
    if b.len() - at2 < 4 {
        return Ok(None);
    }
    let port = read_u32_be(b, at2);
    Ok(
        Some(
            MinecraftHelloPacket {
                pkg_type: MinecraftHelloPacketType::Legacy,
                length: at2 + 4,
                id: 0,
                version: version as i32,
                port,
                hostname,
                forge: false,
            },
        ),
    )
}

fn new_pkg(b: &[u8]) -> (r: Result<Option<MinecraftHelloPacket>, PacketError>)
    ensures
        hello_result_view(r) == modern_at(b@),
        r matches Ok(Some(h)) ==> h.length <= b@.len(),
{
    let r1 = read_varint(b, 0);
    assert(int_read(r1) == varint_at(b@, 0));
    let (pkg_length, at1) = match r1 {
        Err(e) => return Err(e),
        Ok(None) => return Ok(None),
        Ok(Some(x)) => x,
    };
    let r2 = read_varint(b, at1);
    assert(int_read(r2) == varint_at(b@, at1 as int));
    let (pkg_id, at2) = match r2 {
        Err(e) => return Err(e),
        Ok(None) => return Ok(None),
        Ok(Some(x)) => x,
    };
    if pkg_id != 0 {
        return Err(PacketError::NotMatching);
    }
    let r3 = read_varint(b, at2);
    assert(int_read(r3) == varint_at(b@, at2 as int));
    let (version, at3) = match r3 {
        Err(e) => return Err(e),
        Ok(None) => return Ok(None),
        Ok(Some(x)) => x,
    };
    let r4 = read_utf8_string(b, at3);
    assert(str_read(r4) == utf8_string_at(b@, at3 as int));
    let (raw, at4) = match r4 {
        Err(e) => return Err(e),
        Ok(None) => return Ok(None),
        Ok(Some(x)) => x,
    };
    if b.len() - at4 < 2 {
        return Ok(None);
    }
    let port = read_u16_be(b, at4);
    if pkg_length < 0 || at4 + 2 != pkg_length as usize {
        return Err(PacketError::NotValid);
    }
    let r5 = read_varint(b, at4 + 2);
    assert(int_read(r5) == varint_at(b@, at4 + 2));
    let (next_state, at5) = match r5 {
        Err(e) => return Err(e),
        Ok(None) => return Ok(None),
        Ok(Some(x)) => x,
    };
    let pkg_type = if next_state == 1 {
        MinecraftHelloPacketType::Ping
    } else if next_state == 2 {
        MinecraftHelloPacketType::Connect
    } else {
        MinecraftHelloPacketType::Unknown
    };
    let (hostname, forge) = split_hostname(raw.as_str());
    Ok(
        Some(
            MinecraftHelloPacket {
                length: at5,
                pkg_type,
                id: pkg_id,
                port: port as u32,
                version,
                hostname,
                forge,
            },
        ),
    )
}

impl MinecraftHelloPacket {
    /// Parses the first Minecraft packet at the start of `buf`. `Ok(None)`
    /// asks for more bytes; the buffer is never consumed.
    pub fn new(buf: &[u8]) -> (r: Result<Option<MinecraftHelloPacket>, PacketError>)
        ensures
            hello_result_view(r) == hello_at(buf@),
            r matches Ok(Some(h)) ==> h.length <= buf@.len(),
    {
        if buf.len() < 2 {
            return Ok(None);
        }
        if buf[0] == 0xFE && buf[1] == 0x01 {
            legacy_ping_pkg(buf)
        } else if buf[0] == 0x02 {
            legacy_connect_pkg(buf)
        } else {
            new_pkg(buf)
        }
    }
}

} // verus!

verus! {

// ---------------------------------------------------------------------------
// Restartability
// ---------------------------------------------------------------------------
proof fn lemma_legacy_ping_prefix(b: Seq<u8>, b2: Seq<u8>)
    requires
        legacy_ping_at(b) matches Ok(Some(h)) && agrees_below(b2, b, h.length),
    ensures
        legacy_ping_at(b) matches Ok(Some(h)) && 34 <= h.length <= b.len() && if b2.len()
            >= h.length {
            legacy_ping_at(b2) == legacy_ping_at(b)
        } else {
            legacy_ping_at(b2) == Ok::<Option<HelloView>, PacketError>(None)
        },
{
    let (h, p) = utf16_string_at(b, 30)->Ok_0->Some_0;
    lemma_utf16_string_prefix(b, b2, 30);
    if b2.len() >= 27 {
        assert(b2.subrange(0, 27) =~= b.subrange(0, 27));
    }
    if b2.len() >= 30 {
        assert(b2[27] == b[27] && b2[28] == b[28] && b2[29] == b[29]);
    }
    if b2.len() >= 32 {
        assert(b2[30] == b[30] && b2[31] == b[31]);
    }
    if b2.len() >= p + 4 {
        assert(b2[p] == b[p] && b2[p + 1] == b[p + 1] && b2[p + 2] == b[p + 2] && b2[p + 3] == b[p
            + 3]);
    }
}

proof fn lemma_legacy_connect_prefix(b: Seq<u8>, b2: Seq<u8>)
    requires
        legacy_connect_at(b) matches Ok(Some(h)) && agrees_below(b2, b, h.length),
    ensures
        legacy_connect_at(b) matches Ok(Some(h)) && 10 <= h.length <= b.len() && if b2.len()
            >= h.length {
            legacy_connect_at(b2) == legacy_connect_at(b)
        } else {
            legacy_connect_at(b2) == Ok::<Option<HelloView>, PacketError>(None)
        },
{
    let (_u, at1) = utf16_string_at(b, 2)->Ok_0->Some_0;
    let (h, at2) = utf16_string_at(b, at1)->Ok_0->Some_0;
    lemma_utf16_string_prefix(b, b2, 2);
    lemma_utf16_string_prefix(b, b2, at1);
    if b2.len() >= at2 + 4 {
        assert(b2[1] == b[1]);
        assert(b2[at2] == b[at2] && b2[at2 + 1] == b[at2 + 1] && b2[at2 + 2] == b[at2 + 2] && b2[at2 + 3]
            == b[at2 + 3]);
    }
}

proof fn lemma_modern_prefix(b: Seq<u8>, b2: Seq<u8>)
    requires
        modern_at(b) matches Ok(Some(h)) && agrees_below(b2, b, h.length),
    ensures
        modern_at(b) matches Ok(Some(h)) && 5 <= h.length <= b.len() && if b2.len() >= h.length {
            modern_at(b2) == modern_at(b)
        } else {
            modern_at(b2) == Ok::<Option<HelloView>, PacketError>(None)
        },
{
    let (_len, at1) = varint_at(b, 0)->Ok_0->Some_0;
    let (_id, at2) = varint_at(b, at1)->Ok_0->Some_0;
    let (_version, at3) = varint_at(b, at2)->Ok_0->Some_0;
    let (_raw, at4) = utf8_string_at(b, at3)->Ok_0->Some_0;
    let (_ns, at5) = varint_at(b, at4 + 2)->Ok_0->Some_0;
    lemma_varint_prefix(b, b, 0);
    lemma_varint_prefix(b, b, at1);
    lemma_varint_prefix(b, b, at2);
    lemma_utf8_string_prefix(b, b, at3);
    lemma_varint_prefix(b, b, at4 + 2);
    lemma_varint_prefix(b, b2, 0);
    lemma_varint_prefix(b, b2, at1);
    lemma_varint_prefix(b, b2, at2);
    lemma_utf8_string_prefix(b, b2, at3);
    lemma_varint_prefix(b, b2, at4 + 2);
    if b2.len() >= at4 + 2 {
        assert(b2[at4] == b[at4] && b2[at4 + 1] == b[at4 + 1]);
    }
}

/// The hello read at the start of `b` depends only on the bytes it covers.
pub proof fn lemma_hello_prefix(b: Seq<u8>, b2: Seq<u8>)
    requires
        hello_at(b) matches Ok(Some(h)) && agrees_below(b2, b, h.length),
    ensures
        hello_at(b) matches Ok(Some(h)) && 2 <= h.length <= b.len() && if b2.len() >= h.length {
            hello_at(b2) == hello_at(b)
        } else {
            hello_at(b2) == Ok::<Option<HelloView>, PacketError>(None)
        },
{
    if b[0] == 0xFE && b[1] == 0x01 {
        lemma_legacy_ping_prefix(b, b2);
    } else if b[0] == 0x02 {
        lemma_legacy_connect_prefix(b, b2);
    } else {
        lemma_modern_prefix(b, b2);
    }
    if b2.len() >= 2 {
        assert(b2[0] == b[0] && b2[1] == b[1]);
    }
}

/// Sniffing is restartable: every proper prefix of a complete hello asks for
/// more bytes, and whatever follows the hello leaves the result unchanged.
pub proof fn hello_restartable(b: Seq<u8>, k: int, rest: Seq<u8>)
    requires
        hello_at(b) matches Ok(Some(h)) && 0 <= k < h.length,
    ensures
        hello_at(b) matches Ok(Some(h)) && hello_at(b.take(k)) == Ok::<
            Option<HelloView>,
            PacketError,
        >(None) && hello_at(b.take(h.length) + rest) == hello_at(b),
{
    let h = hello_at(b)->Ok_0->Some_0;
    lemma_hello_prefix(b, b);
    lemma_hello_prefix(b, b.take(k));
    lemma_hello_prefix(b, b.take(h.length) + rest);
}

} // verus!
