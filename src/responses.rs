use vstd::prelude::*;
use vstd::utf8::encode_utf8;

use crate::cursor::{varint_bytes, i32_bits, write_utf8_string, write_varint};
use crate::text::{chars_of, string_from_chars, utf16_encode, utf16_of_char};

verus! {

/// First line of every "server offline" answer.
pub const ERROR_MSG_FIRST_LINE: &'static str = "Server not online!";

/// Second line of every "server offline" answer.
pub const ERROR_MSG_LONG: &'static str = "Ask your friend to start CraftIP!";

/// Bytes to write to a Minecraft client.
#[derive(Debug, Clone, PartialEq, Eq)]
pub struct MinecraftDataPacket(pub Vec<u8>);

impl MinecraftDataPacket {
    pub fn len(&self) -> (r: usize)
        ensures
            r == self.0@.len(),
    {
        self.0.len()
    }

    pub fn is_empty(&self) -> (r: bool)
        ensures
            r == (self.0@.len() == 0),
    {
        self.0.len() == 0
    }

    /// Prefixes `content` with its length as a VarInt, as every modern
    /// Minecraft packet is.
    pub fn from_packet_without_len(content: &[u8]) -> (r: Self)
        requires
            content@.len() <= i32::MAX,
        ensures
            r.0@ == varint_bytes(content@.len() as u32) + content@,
    {
        let mut out: Vec<u8> = Vec::new();
        write_varint(&mut out, content.len() as i32);
        let ghost head = out@;
        let mut i: usize = 0;
        while i < content.len()
            invariant
                i <= content@.len(),
                out@ == head + content@.take(i as int),
            decreases content@.len() - i,
        {
            out.push(content[i]);
            assert(out@ =~= head + content@.take(i + 1));
            i = i + 1;
        }
        assert(content@.take(content@.len() as int) =~= content@);
        MinecraftDataPacket(out)
    }
}

/// Packet id 0 followed by `json` as a VarInt-prefixed UTF-8 string.
pub open spec fn json_packet_body(json: Seq<char>) -> Seq<u8> {
    seq![0u8] + varint_bytes(encode_utf8(json).len() as u32) + encode_utf8(json)
}

/// A modern packet with id 0 that carries `json`: the status answer to a
/// server-list ping, or the disconnect answer to a login.
pub fn json_response(json: &str) -> (r: MinecraftDataPacket)
    requires
        encode_utf8(json@).len() <= 0x7FFF_0000,
    ensures
        r.0@ == varint_bytes(json_packet_body(json@).len() as u32) + json_packet_body(json@),
{
    let mut body: Vec<u8> = Vec::new();
    write_varint(&mut body, 0);
    assert(varint_bytes(i32_bits(0)) =~= seq![0u8]);
    write_utf8_string(&mut body, json);
    assert(i32_bits(encode_utf8(json@).len() as i32) == encode_utf8(json@).len() as u32);
    assert(body@ =~= json_packet_body(json@));
    MinecraftDataPacket::from_packet_without_len(body.as_slice())
}

// ---------------------------------------------------------------------------
// Legacy kick
// ---------------------------------------------------------------------------
/// Big-endian bytes of each code unit.
pub open spec fn units_be(units: Seq<u16>) -> Seq<u8>
    decreases units.len(),
{
    if units.len() == 0 {
        Seq::empty()
    } else {
        units_be(units.drop_last()) + seq![
            (units.last() / 256) as u8,
            (units.last() % 256) as u8,
        ]
    }
}

/// The text of the legacy kick: a `§1` marker, then protocol, both message
/// lines and the player counts, separated by NULs.
pub open spec fn legacy_kick_text() -> Seq<char> {
    seq!['§', '1', '\0', '1', '2', '7', '\0'] + ERROR_MSG_FIRST_LINE@ + seq!['\0']
        + ERROR_MSG_LONG@ + seq!['\0', '0', '\0', '0']
}

/// Kick packet `0xFF`, the length word (the text's UTF-8 length less one, as
/// legacy clients count it), then the text in UTF-16BE.
pub open spec fn legacy_kick_bytes(text: Seq<char>) -> Seq<u8> {
    let n = encode_utf8(text).len() - 1;
    seq![0xFFu8, (n / 256) as u8, (n % 256) as u8] + units_be(utf16_encode(text))
}

fn push_chars(out: &mut Vec<char>, s: &str)
    ensures
        final(out)@ == old(out)@ + s@,
{
    let cs = chars_of(s);
    let ghost head = out@;
    let mut i: usize = 0;
    while i < cs.len()
        invariant
            i <= cs@.len(),
            cs@ == s@,
            out@ == head + cs@.take(i as int),
        decreases cs@.len() - i,
    {
        out.push(cs[i]);
        assert(out@ =~= head + cs@.take(i + 1));
        i = i + 1;
    }
    assert(cs@.take(cs@.len() as int) =~= cs@);
}

proof fn lemma_utf8_len_bounds(s: Seq<char>)
    ensures
        s.len() <= encode_utf8(s).len() <= 4 * s.len(),
    decreases s.len(),
{
    if s.len() > 0 {
        lemma_utf8_len_bounds(s.drop_first());
    }
}

proof fn lemma_legacy_kick_len()
    ensures
        1 <= encode_utf8(legacy_kick_text()).len() <= 0x1_0000,
{
    reveal_strlit("Server not online!");
    reveal_strlit("Ask your friend to start CraftIP!");
    assert(ERROR_MSG_FIRST_LINE@.len() == 18);
    assert(ERROR_MSG_LONG@.len() == 33);
    lemma_utf8_len_bounds(legacy_kick_text());
}

/// The "server offline" answer to a legacy client.
pub fn generate_response_legacy() -> (r: MinecraftDataPacket)
    ensures
        r.0@ == legacy_kick_bytes(legacy_kick_text()),
{
    proof {
        lemma_legacy_kick_len();
    }
    let mut text: Vec<char> = Vec::new();
    text.push('§');
    text.push('1');
    text.push('\0');
    text.push('1');
    text.push('2');
    text.push('7');
    text.push('\0');
    push_chars(&mut text, ERROR_MSG_FIRST_LINE);
    text.push('\0');
    push_chars(&mut text, ERROR_MSG_LONG);
    text.push('\0');
    text.push('0');
    text.push('\0');
    text.push('0');
    assert(text@ =~= legacy_kick_text());
    let s = string_from_chars(&text);
    let n = s.as_str().as_bytes().len();
    let len_word = n - 1;
    let mut out: Vec<u8> = Vec::new();
    out.push(0xFF);
    out.push((len_word / 256) as u8);
    out.push((len_word % 256) as u8);
    let ghost head = out@;
    let mut i: usize = 0;
    while i < text.len()
        invariant
            i <= text@.len(),
            out@ == head + units_be(utf16_encode(text@.take(i as int))),
        decreases text@.len() - i,
    {
        let c = text[i] as u32;
        assert(text@.take(i + 1).drop_last() =~= text@.take(i as int));
        let ghost before = out@;
        if c < 0x10000 {
            let u = c as u16;
            out.push((u / 256) as u8);
            out.push((u % 256) as u8);
            assert(utf16_encode(text@.take(i as int)).push(u).drop_last() =~= utf16_encode(
                text@.take(i as int),
            ));
            assert(utf16_encode(text@.take(i + 1)) =~= utf16_encode(text@.take(i as int)).push(u));
        } else {
            let hi = (0xD800 + (c - 0x10000) / 1024) as u16;
            let lo = (0xDC00 + (c - 0x10000) % 1024) as u16;
            out.push((hi / 256) as u8);
            out.push((hi % 256) as u8);
            out.push((lo / 256) as u8);
            out.push((lo % 256) as u8);
            let ghost u0 = utf16_encode(text@.take(i as int));
            assert(u0.push(hi).push(lo).drop_last() =~= u0.push(hi));
            assert(u0.push(hi).drop_last() =~= u0);
            assert(utf16_encode(text@.take(i + 1)) =~= u0.push(hi).push(lo));
            assert(units_be(u0.push(hi)) =~= units_be(u0) + seq![(hi / 256) as u8, (hi % 256) as u8]);
            assert(units_be(u0.push(hi).push(lo)) =~= units_be(u0.push(hi)) + seq![
                (lo / 256) as u8,
                (lo % 256) as u8,
            ]);
        }
        assert(out@ =~= head + units_be(utf16_encode(text@.take(i + 1))));
        i = i + 1;
    }
    assert(text@.take(text@.len() as int) =~= text@);
    MinecraftDataPacket(out)
}

// ---------------------------------------------------------------------------
// Ping echo
// ---------------------------------------------------------------------------
/// What follows a status answer: the client's status request and ping.
pub enum PingEcho {
    /// Fewer than 12 bytes so far.
    NeedMore,
    /// The bytes are not a status request followed by a ping.
    Invalid,
    /// The pong that echoes the client's token.
    Pong([u8; 10]),
}

/// Status request `0x01 0x00`, then ping `0x09 0x01` with an 8-byte token; the
/// answer is `0x09 0x01` with the same token.
pub fn ping_echo(buf: &[u8]) -> (r: PingEcho)
    ensures
        buf@.len() < 12 ==> r is NeedMore,
        buf@.len() >= 12 ==> if buf@[0] == 1 && buf@[1] == 0 && buf@[2] == 9 && buf@[3] == 1 {
            r matches PingEcho::Pong(p) && p@ == seq![9u8, 1u8] + buf@.subrange(4, 12)
        } else {
            r is Invalid
        },
{
    if buf.len() < 12 {
        return PingEcho::NeedMore;
    }
    if buf[0] != 1 || buf[1] != 0 || buf[2] != 9 || buf[3] != 1 {
        return PingEcho::Invalid;
    }
    let mut pong = [0u8; 10];
    pong[0] = 9;
    pong[1] = 1;
    let mut i: usize = 2;
    while i < 10
        invariant
            2 <= i <= 10,
            buf@.len() >= 12,
            pong@[0] == 9 && pong@[1] == 1,
            forall|k: int| 2 <= k < i ==> pong@[k] == buf@[k + 2],
        decreases 10 - i,
    {
        pong[i] = buf[i + 2];
        i = i + 1;
    }
    assert(pong@ =~= seq![9u8, 1u8] + buf@.subrange(4, 12));
    PingEcho::Pong(pong)
}

// ---------------------------------------------------------------------------
// Status and chat values
// ---------------------------------------------------------------------------
/// Chat text of a Minecraft answer.
#[derive(Debug, Clone, PartialEq, Eq)]
pub struct MinecraftText {
    pub text: String,
    pub color: Option<String>,
    pub bold: bool,
}

/// Version block of a status answer.
#[derive(Debug, Clone, PartialEq, Eq)]
pub struct Version {
    pub name: String,
    pub protocol: i32,
}

/// One player listed in a status answer.
#[derive(Debug, Clone, PartialEq, Eq)]
pub struct Sample {
    pub name: String,
    pub id: String,
}

/// Player counts of a status answer.
#[derive(Debug, Clone, PartialEq, Eq)]
pub struct Players {
    pub max: i32,
    pub online: i32,
    pub sample: Vec<Sample>,
}

/// Answer to a server-list ping.
#[derive(Debug, Clone, PartialEq, Eq)]
pub struct ServerListPingResponse {
    pub version: Version,
    pub description: MinecraftText,
    pub players: Players,
    pub favicon: Option<String>,
}

/// `a`, a line break, then `b`.
pub open spec fn two_lines(a: Seq<char>, b: Seq<char>) -> Seq<char> {
    a + seq!['\n'] + b
}

/// The colour of every "server offline" text.
pub open spec fn red() -> Seq<char> {
    seq!['r', 'e', 'd']
}

fn red_string() -> (r: String)
    ensures
        r@ == red(),
{
    let v: Vec<char> = vec!['r', 'e', 'd'];
    assert(v@ =~= red());
    string_from_chars(&v)
}

impl MinecraftText {
    /// Red two-line text that tells a player the server is not online.
    pub fn not_connected_error() -> (r: Self)
        ensures
            r.text@ == two_lines(ERROR_MSG_FIRST_LINE@, ERROR_MSG_LONG@),
            r.color matches Some(c) && c@ == red(),
            !r.bold,
    {
        let mut text: Vec<char> = Vec::new();
        push_chars(&mut text, ERROR_MSG_FIRST_LINE);
        text.push('\n');
        push_chars(&mut text, ERROR_MSG_LONG);
        assert(text@ =~= two_lines(ERROR_MSG_FIRST_LINE@, ERROR_MSG_LONG@));
        MinecraftText { text: string_from_chars(&text), color: Some(red_string()), bold: false }
    }
}

impl ServerListPingResponse {
    /// Status answer of a hostname that no proxy-client serves: version name
    /// "Server not online!", protocol 0, no players.
    pub fn not_online() -> (r: Self)
        ensures
            r.version.name@ == ERROR_MSG_FIRST_LINE@,
            r.version.protocol == 0,
            r.description.text@ == ERROR_MSG_LONG@,
            r.description.color matches Some(c) && c@ == red(),
            !r.description.bold,
            r.players.max == 0 && r.players.online == 0 && r.players.sample@.len() == 0,
            r.favicon is None,
    {
        ServerListPingResponse {
            version: Version { name: String::from_str(ERROR_MSG_FIRST_LINE), protocol: 0 },
            description: MinecraftText {
                text: String::from_str(ERROR_MSG_LONG),
                color: Some(red_string()),
                bold: false,
            },
            players: Players { max: 0, online: 0, sample: Vec::new() },
            favicon: None,
        }
    }
}

} // verus!
