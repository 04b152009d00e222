use vstd::prelude::*;
use vstd::utf8::{decode_utf8, encode_utf8, encode_utf8_decode_utf8, encode_utf8_valid_utf8, valid_utf8};

use crate::config::MAXIMUM_PACKET_SIZE;
use crate::cursor::{copy_range, read_u16_be, u16_be};
use crate::datatypes::PacketError;
use crate::proxy::{
    ProxyAuthenticator, ProxyConnectedResponse, ProxyDataPacket, ProxyHelloPacket, ServerPublicKey,
};
use crate::text::string_from_utf8;

verus! {

pub type PingPacket = u16;

pub type ClientID = u16;

/// A message between the rendezvous and a proxy-client.
#[derive(Debug, Clone, PartialEq, Eq)]
pub enum SocketPacket {
    ProxyHello(ProxyHelloPacket),
    ProxyAuthRequest([u8; 32]),
    ProxyAuthResponse([u8; 64]),
    ProxyHelloResponse(ProxyConnectedResponse),
    ProxyJoin(ClientID),
    ProxyDisconnect(ClientID),
    ProxyDisconnectAck(ClientID),
    ProxyError(String),
    ProxyData(ProxyDataPacket),
    ProxyPing(PingPacket),
    ProxyPong(PingPacket),
    Unknown,
}

/// Mathematical model of a [`SocketPacket`].
pub enum PacketView {
    ProxyHello { version: u16, hostname: Seq<char>, key: Seq<u8> },
    ProxyAuthRequest(Seq<u8>),
    ProxyAuthResponse(Seq<u8>),
    ProxyHelloResponse(u16),
    ProxyJoin(u16),
    ProxyDisconnect(u16),
    ProxyDisconnectAck(u16),
    ProxyError(Seq<char>),
    ProxyData(u16, Seq<u8>),
    ProxyPing(u16),
    ProxyPong(u16),
    Unknown,
}

impl View for SocketPacket {
    type V = PacketView;

    open spec fn view(&self) -> PacketView {
        match self {
            SocketPacket::ProxyHello(h) => PacketView::ProxyHello {
                version: h.version,
                hostname: h.hostname@,
                key: match h.auth {
                    ProxyAuthenticator::PublicKey(k) => k.key@,
                },
            },
            SocketPacket::ProxyAuthRequest(c) => PacketView::ProxyAuthRequest(c@),
            SocketPacket::ProxyAuthResponse(s) => PacketView::ProxyAuthResponse(s@),
            SocketPacket::ProxyHelloResponse(r) => PacketView::ProxyHelloResponse(r.version),
            SocketPacket::ProxyJoin(id) => PacketView::ProxyJoin(*id),
            SocketPacket::ProxyDisconnect(id) => PacketView::ProxyDisconnect(*id),
            SocketPacket::ProxyDisconnectAck(id) => PacketView::ProxyDisconnectAck(*id),
            SocketPacket::ProxyError(t) => PacketView::ProxyError(t@),
            SocketPacket::ProxyData(d) => PacketView::ProxyData(d.client_id, d.data@),
            SocketPacket::ProxyPing(n) => PacketView::ProxyPing(*n),
            SocketPacket::ProxyPong(n) => PacketView::ProxyPong(*n),
            SocketPacket::Unknown => PacketView::Unknown,
        }
    }
}

/// Keys and challenges have 32 bytes, signatures 64.
pub open spec fn well_formed(m: PacketView) -> bool {
    match m {
        PacketView::ProxyHello { key, .. } => key.len() == 32,
        PacketView::ProxyAuthRequest(c) => c.len() == 32,
        PacketView::ProxyAuthResponse(s) => s.len() == 64,
        _ => true,
    }
}

// ---------------------------------------------------------------------------
// Wire format
// ---------------------------------------------------------------------------
/// Big-endian bytes of `v`.
pub open spec fn be16(v: u16) -> Seq<u8> {
    seq![(v / 256) as u8, (v % 256) as u8]
}

/// A string as its big-endian `u16` byte length followed by its UTF-8 bytes.
pub open spec fn text_bytes(s: Seq<char>) -> Seq<u8> {
    be16(encode_utf8(s).len() as u16) + encode_utf8(s)
}

/// Payload of a control message: a tag byte, then the fields in order.
pub open spec fn control_payload(m: PacketView) -> Seq<u8> {
    match m {
        PacketView::ProxyHello { version, hostname, key } => seq![0u8] + be16(version)
            + text_bytes(hostname) + key,
        PacketView::ProxyAuthRequest(c) => seq![1u8] + c,
        PacketView::ProxyAuthResponse(s) => seq![2u8] + s,
        PacketView::ProxyHelloResponse(v) => seq![3u8] + be16(v),
        PacketView::ProxyJoin(id) => seq![4u8] + be16(id),
        PacketView::ProxyDisconnect(id) => seq![5u8] + be16(id),
        PacketView::ProxyDisconnectAck(id) => seq![6u8] + be16(id),
        PacketView::ProxyError(t) => seq![7u8] + text_bytes(t),
        PacketView::ProxyPing(n) => seq![8u8] + be16(n),
        PacketView::ProxyPong(n) => seq![9u8] + be16(n),
        PacketView::Unknown => seq![10u8],
        PacketView::ProxyData(_, _) => Seq::empty(),
    }
}

/// Whether `m` fits in one frame: the frame length (the client id and the
/// data, or the control payload) must fit the 15 bits below the fast-path flag.
pub open spec fn encodable(m: PacketView) -> bool {
    match m {
        PacketView::ProxyData(_, d) => d.len() + 2 < 0x8000,
        _ => control_payload(m).len() <= 0x7FFF,
    }
}

/// The frame that carries `m`.
pub open spec fn encode_frame(m: PacketView) -> Seq<u8> {
    match m {
        PacketView::ProxyData(id, d) => be16((d.len() + 2 + 0x8000) as u16) + be16(id) + d,
        _ => be16(control_payload(m).len() as u16) + control_payload(m),
    }
}

/// A length-prefixed UTF-8 string at `p` that ends exactly where `payload` ends.
pub open spec fn text_at(payload: Seq<u8>, p: int) -> Option<Seq<char>> {
    if payload.len() < p + 2 {
        None
    } else {
        let n = u16_be(payload, p) as int;
        let bytes = payload.subrange(p + 2, payload.len() as int);
        if bytes.len() != n || !valid_utf8(bytes) {
            None
        } else {
            Some(decode_utf8(bytes))
        }
    }
}

/// The control message whose payload is exactly `p`.
pub open spec fn decode_control(p: Seq<u8>) -> Option<PacketView> {
    if p.len() == 0 {
        None
    } else {
        let tag = p[0];
        if tag == 0 {
            if p.len() < 3 + 2 + 32 {
                None
            } else {
                match text_at(p.subrange(0, p.len() - 32), 3) {
                    Some(h) => Some(
                        PacketView::ProxyHello {
                            version: u16_be(p, 1),
                            hostname: h,
                            key: p.subrange(p.len() - 32, p.len() as int),
                        },
                    ),
                    None => None,
                }
            }
        } else if tag == 1 {
            if p.len() == 33 {
                Some(PacketView::ProxyAuthRequest(p.subrange(1, 33)))
            } else {
                None
            }
        } else if tag == 2 {
            if p.len() == 65 {
                Some(PacketView::ProxyAuthResponse(p.subrange(1, 65)))
            } else {
                None
            }
        } else if tag == 7 {
            match text_at(p, 1) {
                Some(t) => Some(PacketView::ProxyError(t)),
                None => None,
            }
        } else if tag == 10 {
            if p.len() == 1 {
                Some(PacketView::Unknown)
            } else {
                None
            }
        } else if 3 <= tag <= 9 && p.len() == 3 {
            let v = u16_be(p, 1);
            Some(
                if tag == 3 {
                    PacketView::ProxyHelloResponse(v)
                } else if tag == 4 {
                    PacketView::ProxyJoin(v)
                } else if tag == 5 {
                    PacketView::ProxyDisconnect(v)
                } else if tag == 6 {
                    PacketView::ProxyDisconnectAck(v)
                } else if tag == 8 {
                    PacketView::ProxyPing(v)
                } else {
                    PacketView::ProxyPong(v)
                },
            )
        } else {
            None
        }
    }
}

/// The frame at the start of `b` and the number of bytes it takes: `Ok(None)`
/// while it is incomplete.
pub open spec fn frame_at(b: Seq<u8>) -> Result<Option<(PacketView, int)>, PacketError> {
    if b.len() < 2 {
        Ok(None)
    } else {
        let start = u16_be(b, 0) as int;
        let length = start % 0x8000;
        if b.len() < length + 2 {
            Ok(None)
        } else if length > MAXIMUM_PACKET_SIZE {
            Err(PacketError::TooLong)
        } else if start >= 0x8000 {
            if length < 2 {
                Err(PacketError::NotValid)
            } else {
                Ok(Some((PacketView::ProxyData(u16_be(b, 2), b.subrange(4, length + 2)), length + 2)))
            }
        } else {
            match decode_control(b.subrange(2, length + 2)) {
                Some(m) => Ok(Some((m, length + 2))),
                None => Err(PacketError::NotValid),
            }
        }
    }
}

/// A frame read result seen through the model.
pub open spec fn frame_read(r: Result<Option<(SocketPacket, usize)>, PacketError>) -> Result<
    Option<(PacketView, int)>,
    PacketError,
> {
    match r {
        Ok(Some((m, n))) => Ok(Some((m@, n as int))),
        Ok(None) => Ok(None),
        Err(e) => Err(e),
    }
}

// ---------------------------------------------------------------------------
// Encoding
// ---------------------------------------------------------------------------
fn push_be16(out: &mut Vec<u8>, v: u16)
    ensures
        final(out)@ == old(out)@ + be16(v),
{
    out.push((v / 256) as u8);
    out.push((v % 256) as u8);
    assert(final(out)@ =~= old(out)@ + be16(v));
}

fn push_all(out: &mut Vec<u8>, src: &[u8])
    ensures
        final(out)@ == old(out)@ + src@,
{
    let ghost start = out@;
    let mut i: usize = 0;
    while i < src.len()
        invariant
            i <= src@.len(),
            out@ == start + src@.take(i as int),
        decreases src@.len() - i,
    {
        out.push(src[i]);
        assert(out@ =~= start + src@.take(i + 1));
        i = i + 1;
    }
    assert(src@.take(src@.len() as int) =~= src@);
}

/// Appends a length-prefixed string; `false` (and nothing written) when it
/// has more than 0x7FFF bytes.
fn push_text(out: &mut Vec<u8>, s: &String) -> (ok: bool)
    ensures
        ok == (encode_utf8(s@).len() <= 0x7FFF),
        ok ==> final(out)@ == old(out)@ + text_bytes(s@),
        !ok ==> final(out)@ == old(out)@,
{
    let bytes = s.as_str().as_bytes();
    if bytes.len() > 0x7FFF {
        return false;
    }
    push_be16(out, bytes.len() as u16);
    push_all(out, bytes);
    assert(final(out)@ =~= old(out)@ + text_bytes(s@));
    true
}

impl SocketPacket {
    /// The control payload of this message, or `None` when it does not fit in
    /// a frame.
    fn control_bytes(&self) -> (r: Option<Vec<u8>>)
        requires
            !(self is ProxyData),
        ensures
            r is Some <==> encodable(self@),
            r matches Some(v) ==> v@ == control_payload(self@),
    {
        let mut out: Vec<u8> = Vec::new();
        match self {
            SocketPacket::ProxyHello(h) => {
                out.push(0u8);
                push_be16(&mut out, h.version);
                if !push_text(&mut out, &h.hostname) {
                    return None;
                }
                match &h.auth {
                    ProxyAuthenticator::PublicKey(k) => push_all(&mut out, k.key.as_slice()),
                }
            },
            SocketPacket::ProxyAuthRequest(c) => {
                out.push(1u8);
                push_all(&mut out, c.as_slice());
            },
            SocketPacket::ProxyAuthResponse(s) => {
                out.push(2u8);
                push_all(&mut out, s.as_slice());
            },
            SocketPacket::ProxyHelloResponse(r) => {
                out.push(3u8);
                push_be16(&mut out, r.version);
            },
            SocketPacket::ProxyJoin(id) => {
                out.push(4u8);
                push_be16(&mut out, *id);
            },
            SocketPacket::ProxyDisconnect(id) => {
                out.push(5u8);
                push_be16(&mut out, *id);
            },
            SocketPacket::ProxyDisconnectAck(id) => {
                out.push(6u8);
                push_be16(&mut out, *id);
            },
            SocketPacket::ProxyError(t) => {
                out.push(7u8);
                if !push_text(&mut out, t) {
                    return None;
                }
            },
            SocketPacket::ProxyData(_) => {},
            SocketPacket::ProxyPing(n) => {
                out.push(8u8);
                push_be16(&mut out, *n);
            },
            SocketPacket::ProxyPong(n) => {
                out.push(9u8);
                push_be16(&mut out, *n);
            },
            SocketPacket::Unknown => {
                out.push(10u8);
            },
        }
        assert(out@ =~= control_payload(self@));
        if out.len() > 0x7FFF {
            return None;
        }
        Some(out)
    }

    /// Appends the frame of this message to `buf`. Fails with
    /// `EncodingError`, writing nothing, when the message does not fit in a frame.
    pub fn encode_into(&self, buf: &mut Vec<u8>) -> (r: Result<(), PacketError>)
        ensures
            r is Ok <==> encodable(self@),
            r is Ok ==> final(buf)@ == old(buf)@ + encode_frame(self@),
            r matches Err(e) ==> e == PacketError::EncodingError && final(buf)@ == old(buf)@,
    {
        if let SocketPacket::ProxyData(data) = self {
            let n = data.data.len();
            if n >= 0x8000 - 2 {
                return Err(PacketError::EncodingError);
            }
            let start: u16 = (n + 2 + 0x8000) as u16;
            push_be16(buf, start);
            push_be16(buf, data.client_id);
            push_all(buf, data.data.as_slice());
            assert(final(buf)@ =~= old(buf)@ + encode_frame(self@));
            return Ok(());
        }
        match self.control_bytes() {
            None => Err(PacketError::EncodingError),
            Some(payload) => {
                push_be16(buf, payload.len() as u16);
                push_all(buf, payload.as_slice());
                assert(final(buf)@ =~= old(buf)@ + encode_frame(self@));
                Ok(())
            },
        }
    }
}

// ---------------------------------------------------------------------------
// Decoding
// ---------------------------------------------------------------------------
fn read_text(p: &[u8], start: usize) -> (r: Option<String>)
    ensures
        match text_at(p@, start as int) {
            Some(t) => r matches Some(s) && s@ == t,
            None => r is None,
        },
{
    if start > p.len() || p.len() - start < 2 {
        return None;
    }
    let n = read_u16_be(p, start) as usize;
    if p.len() - start - 2 != n {
        return None;
    }
    let bytes = copy_range(p, start + 2, p.len());
    string_from_utf8(bytes)
}

fn array32_at(p: &[u8], start: usize) -> (r: [u8; 32])
    requires
        start + 32 <= p.len(),
    ensures
        r@ == p@.subrange(start as int, start + 32),
{
    let mut a = [0u8; 32];
    let mut i: usize = 0;
    while i < 32
        invariant
            i <= 32,
            start + 32 <= p.len(),
            forall|k: int| 0 <= k < i ==> a@[k] == p@[start + k],
        decreases 32 - i,
    {
        a[i] = p[start + i];
        i = i + 1;
    }
    assert(a@ =~= p@.subrange(start as int, start + 32));
    a
}

fn array64_at(p: &[u8], start: usize) -> (r: [u8; 64])
    requires
        start + 64 <= p.len(),
    ensures
        r@ == p@.subrange(start as int, start + 64),
{
    let mut a = [0u8; 64];
    let mut i: usize = 0;
    while i < 64
        invariant
            i <= 64,
            start + 64 <= p.len(),
            forall|k: int| 0 <= k < i ==> a@[k] == p@[start + k],
        decreases 64 - i,
    {
        a[i] = p[start + i];
        i = i + 1;
    }
    assert(a@ =~= p@.subrange(start as int, start + 64));
    a
}

/// The control message whose payload is exactly `p`.
pub fn decode_control_payload(p: &[u8]) -> (r: Option<SocketPacket>)
    ensures
        match decode_control(p@) {
            Some(m) => r matches Some(x) && x@ == m,
            None => r is None,
        },
{
    if p.len() == 0 {
        return None;
    }
    let tag = p[0];
    if tag == 0 {
        if p.len() < 3 + 2 + 32 {
            return None;
        }
        let head = copy_range(p, 0, p.len() - 32);
        let version = read_u16_be(p, 1);
        match read_text(head.as_slice(), 3) {
            Some(hostname) => {
                let key = array32_at(p, p.len() - 32);
                Some(
                    SocketPacket::ProxyHello(
                        ProxyHelloPacket {
                            version,
                            hostname,
                            auth: ProxyAuthenticator::PublicKey(ServerPublicKey { key }),
                        },
                    ),
                )
            },
            None => None,
        }
    } else if tag == 1 {
        if p.len() == 33 {
            Some(SocketPacket::ProxyAuthRequest(array32_at(p, 1)))
        } else {
            None
        }
    } else if tag == 2 {
        if p.len() == 65 {
            Some(SocketPacket::ProxyAuthResponse(array64_at(p, 1)))
        } else {
            None
        }
    } else if tag == 7 {
        match read_text(p, 1) {
            Some(t) => Some(SocketPacket::ProxyError(t)),
            None => None,
        }
    } else if tag == 10 {
        if p.len() == 1 {
            Some(SocketPacket::Unknown)
        } else {
            None
        }
    } else if 3 <= tag && tag <= 9 && p.len() == 3 {
        let v = read_u16_be(p, 1);
        Some(
            if tag == 3 {
                SocketPacket::ProxyHelloResponse(ProxyConnectedResponse { version: v })
            } else if tag == 4 {
                SocketPacket::ProxyJoin(v)
            } else if tag == 5 {
                SocketPacket::ProxyDisconnect(v)
            } else if tag == 6 {
                SocketPacket::ProxyDisconnectAck(v)
            } else if tag == 8 {
                SocketPacket::ProxyPing(v)
            } else {
                SocketPacket::ProxyPong(v)
            },
        )
    } else {
        None
    }
}

/// Reads the frame at the start of `b`: the message and the number of bytes
/// it takes.
pub fn decode_frame(b: &[u8]) -> (r: Result<Option<(SocketPacket, usize)>, PacketError>)
    ensures
        frame_read(r) == frame_at(b@),
        r matches Ok(Some((_, n))) ==> 2 <= n <= b@.len(),
{
    if b.len() < 2 {
        return Ok(None);
    }
    let start = read_u16_be(b, 0) as usize;
    let length = start % 0x8000;
    if b.len() - 2 < length {
        return Ok(None);
    }
    if length > MAXIMUM_PACKET_SIZE {
        return Err(PacketError::TooLong);
    }
    if start >= 0x8000 {
        if length < 2 {
            return Err(PacketError::NotValid);
        }
        let client_id = read_u16_be(b, 2);
        let data = copy_range(b, 4, length + 2);
        return Ok(Some((SocketPacket::ProxyData(ProxyDataPacket { client_id, data }), length + 2)));
    }
    let payload = copy_range(b, 2, length + 2);
    match decode_control_payload(payload.as_slice()) {
        Some(m) => Ok(Some((m, length + 2))),
        None => Err(PacketError::NotValid),
    }
}

impl SocketPacket {
    /// Takes one frame off the front of `buf`. `Ok(None)` while the frame is
    /// incomplete; on `Ok(None)` and on errors `buf` is left as it was.
    pub fn decode_from(buf: &mut Vec<u8>) -> (r: Result<Option<SocketPacket>, PacketError>)
        ensures
            frame_at(old(buf)@) == match r {
                Ok(Some(m)) => Ok(Some((m@, old(buf)@.len() - final(buf)@.len()))),
                Ok(None) => Ok(None),
                Err(e) => Err(e),
            },
            r matches Ok(Some(_)) ==> final(buf)@ == old(buf)@.skip(
                old(buf)@.len() - final(buf)@.len(),
            ),
            !(r matches Ok(Some(_))) ==> final(buf)@ == old(buf)@,
    {
        match decode_frame(buf.as_slice()) {
            Ok(Some((m, n))) => {
                let rest = copy_range(buf.as_slice(), n, buf.len());
                *buf = rest;
                Ok(Some(m))
            },
            Ok(None) => Ok(None),
            Err(e) => Err(e),
        }
    }
}

} // verus!

verus! {

// ---------------------------------------------------------------------------
// Round trips
// ---------------------------------------------------------------------------
proof fn lemma_be16_read(b: Seq<u8>, p: int, v: u16)
    requires
        0 <= p,
        p + 2 <= b.len(),
        b.subrange(p, p + 2) == be16(v),
    ensures
        u16_be(b, p) == v,
{
    assert(b[p] == be16(v)[0] && b[p + 1] == be16(v)[1]);
    assert((v / 256) * 256 + v % 256 == v) by (nonlinear_arith);
}

proof fn lemma_text_round_trip(prefix: Seq<u8>, s: Seq<char>)
    requires
        encode_utf8(s).len() <= 0x7FFF,
    ensures
        text_at(prefix + text_bytes(s), prefix.len() as int) == Some(s),
{
    let p = prefix + text_bytes(s);
    let q = prefix.len() as int;
    let e = encode_utf8(s);
    encode_utf8_valid_utf8(s);
    encode_utf8_decode_utf8(s);
    assert(p.subrange(q, q + 2) =~= be16(e.len() as u16));
    lemma_be16_read(p, q, e.len() as u16);
    assert(p.subrange(q + 2, p.len() as int) =~= e);
}

/// Packets that survive a trip through one frame: well-formed and small
/// enough to be encoded.
pub open spec fn round_trips(m: PacketView) -> bool {
    &&& well_formed(m)
    &&& encodable(m)
}

proof fn lemma_control_round_trip(m: PacketView)
    requires
        well_formed(m),
        encodable(m),
        !(m is ProxyData),
    ensures
        decode_control(control_payload(m)) == Some(m),
{
    let p = control_payload(m);
    match m {
        PacketView::ProxyHello { version, hostname, key } => {
            let head = seq![0u8] + be16(version);
            let e = encode_utf8(hostname);
            assert(p.subrange(0, p.len() - 32) =~= head + text_bytes(hostname));
            lemma_text_round_trip(head, hostname);
            assert(p.subrange(1, 3) =~= be16(version));
            lemma_be16_read(p, 1, version);
            assert(p.subrange(p.len() - 32, p.len() as int) =~= key);
        },
        PacketView::ProxyError(t) => {
            lemma_text_round_trip(seq![7u8], t);
            assert(p =~= seq![7u8] + text_bytes(t));
        },
        PacketView::ProxyAuthRequest(c) => {
            assert(p.subrange(1, 33) =~= c);
        },
        PacketView::ProxyAuthResponse(s) => {
            assert(p.subrange(1, 65) =~= s);
        },
        PacketView::Unknown => {},
        PacketView::ProxyHelloResponse(v) => {
            assert(p.subrange(1, 3) =~= be16(v));
            lemma_be16_read(p, 1, v);
        },
        PacketView::ProxyJoin(v) => {
            assert(p.subrange(1, 3) =~= be16(v));
            lemma_be16_read(p, 1, v);
        },
        PacketView::ProxyDisconnect(v) => {
            assert(p.subrange(1, 3) =~= be16(v));
            lemma_be16_read(p, 1, v);
        },
        PacketView::ProxyDisconnectAck(v) => {
            assert(p.subrange(1, 3) =~= be16(v));
            lemma_be16_read(p, 1, v);
        },
        PacketView::ProxyPing(v) => {
            assert(p.subrange(1, 3) =~= be16(v));
            lemma_be16_read(p, 1, v);
        },
        PacketView::ProxyPong(v) => {
            assert(p.subrange(1, 3) =~= be16(v));
            lemma_be16_read(p, 1, v);
        },
        PacketView::ProxyData(_, _) => {},
    }
}

/// A frame followed by anything decodes to its message and takes exactly its bytes.
pub proof fn lemma_frame_round_trip(m: PacketView, rest: Seq<u8>)
    requires
        round_trips(m),
    ensures
        encode_frame(m).len() >= 2,
        frame_at(encode_frame(m) + rest) == Ok::<Option<(PacketView, int)>, PacketError>(
            Some((m, encode_frame(m).len() as int)),
        ),
{
    let e = encode_frame(m);
    let b = e + rest;
    match m {
        PacketView::ProxyData(id, d) => {
            let length = d.len() + 2;
            let start = (length + 0x8000) as u16;
            assert(start as int == length + 0x8000);
            assert((start as int) % 0x8000 == length);
            assert(b.subrange(0, 2) =~= be16(start));
            lemma_be16_read(b, 0, start);
            assert(b.subrange(2, 4) =~= be16(id));
            lemma_be16_read(b, 2, id);
            assert(b.subrange(4, (length + 2) as int) =~= d);
        },
        _ => {
            let p = control_payload(m);
            lemma_control_round_trip(m);
            assert(b.subrange(0, 2) =~= be16(p.len() as u16));
            lemma_be16_read(b, 0, p.len() as u16);
            assert(b.subrange(2, (p.len() + 2) as int) =~= p);
        },
    }
}

/// A frame cut short asks for more bytes.
proof fn lemma_frame_cut(m: PacketView, k: int)
    requires
        round_trips(m),
        0 <= k < encode_frame(m).len(),
    ensures
        frame_at(encode_frame(m).take(k)) == Ok::<Option<(PacketView, int)>, PacketError>(None),
{
    let e = encode_frame(m);
    lemma_frame_round_trip(m, Seq::empty());
    assert(e + Seq::<u8>::empty() =~= e);
    if k >= 2 {
        let c = e.take(k);
        assert(c[0] == e[0] && c[1] == e[1]);
    }
}

/// Every message that is not data, well-formed and small enough to be
/// encoded, decodes back to itself from its frame, whatever follows the frame.
pub proof fn control_message_round_trip(m: SocketPacket, rest: Seq<u8>)
    requires
        !(m is ProxyData),
        encodable(m@),
    ensures
        frame_at(encode_frame(m@) + rest) == Ok::<Option<(PacketView, int)>, PacketError>(
            Some((m@, encode_frame(m@).len() as int)),
        ),
{
    lemma_frame_round_trip(m@, rest);
}

/// A data frame decodes to the same client id and bit-identical bytes for
/// every payload whose frame length fits the 15-bit length field (at most
/// 32 765 bytes); longer payloads are refused by the encoder.
pub proof fn data_frame_round_trip(id: u16, data: Seq<u8>, rest: Seq<u8>)
    ensures
        encodable(PacketView::ProxyData(id, data)) <==> data.len() <= 0x7FFD,
        data.len() <= 0x7FFD ==> frame_at(encode_frame(PacketView::ProxyData(id, data)) + rest)
            == Ok::<Option<(PacketView, int)>, PacketError>(
            Some((PacketView::ProxyData(id, data), (data.len() + 4) as int)),
        ),
{
    if data.len() <= 0x7FFD {
        lemma_frame_round_trip(PacketView::ProxyData(id, data), rest);
    }
}

// ---------------------------------------------------------------------------
// Streams
// ---------------------------------------------------------------------------
/// The frames of `ms`, one after the other.
pub open spec fn stream_of(ms: Seq<PacketView>) -> Seq<u8>
    decreases ms.len(),
{
    if ms.len() == 0 {
        Seq::empty()
    } else {
        encode_frame(ms[0]) + stream_of(ms.drop_first())
    }
}

/// Every message that repeated decoding takes off the front of `b`.
pub open spec fn decode_all(b: Seq<u8>) -> Seq<PacketView>
    decreases b.len(),
{
    match frame_at(b) {
        Ok(Some((m, n))) => if 0 < n <= b.len() {
            seq![m] + decode_all(b.skip(n))
        } else {
            Seq::empty()
        },
        _ => Seq::empty(),
    }
}

/// Decoding any prefix of a stream of frames yields a prefix of its
/// messages, with nothing spurious; the whole stream yields all of them.
pub proof fn incremental_decoding(ms: Seq<PacketView>, k: int)
    requires
        forall|i: int| 0 <= i < ms.len() ==> round_trips(#[trigger] ms[i]),
        0 <= k <= stream_of(ms).len(),
    ensures
        decode_all(stream_of(ms).take(k)).len() <= ms.len(),
        decode_all(stream_of(ms).take(k)) == ms.take(decode_all(stream_of(ms).take(k)).len() as int),
        k == stream_of(ms).len() ==> decode_all(stream_of(ms).take(k)) == ms,
    decreases ms.len(),
{
    let s = stream_of(ms);
    if ms.len() == 0 {
        assert(s.take(k) =~= Seq::<u8>::empty());
        assert(ms.take(0) =~= ms);
    } else {
        let m = ms[0];
        let e = encode_frame(m);
        let tail = ms.drop_first();
        let ts = stream_of(tail);
        assert(s == e + ts);
        assert(round_trips(m));
        if k < e.len() {
            assert(s.take(k) =~= e.take(k));
            lemma_frame_cut(m, k);
            assert(ms.take(0) =~= Seq::<PacketView>::empty());
        } else {
            let cut = ts.take(k - e.len());
            assert(s.take(k) =~= e + cut);
            lemma_frame_round_trip(m, cut);
            assert((e + cut).skip(e.len() as int) =~= cut);
            assert forall|i: int| 0 <= i < tail.len() implies round_trips(#[trigger] tail[i]) by {
                assert(tail[i] == ms[i + 1]);
            }
            incremental_decoding(tail, k - e.len());
            let d = decode_all(cut);
            assert(decode_all(s.take(k)) == seq![m] + d);
            assert(ms.take((d.len() + 1) as int) =~= seq![m] + tail.take(d.len() as int));
            if k == s.len() {
                assert(cut =~= ts);
                assert(ms =~= seq![m] + tail);
            }
        }
    }
}

} // verus!

verus! {

/// The models of `packets`, in order.
pub open spec fn packet_views(packets: Seq<SocketPacket>) -> Seq<PacketView> {
    packets.map_values(|p: SocketPacket| p@)
}

/// Takes every complete frame off the front of `buf`, in order, stopping at
/// an incomplete or malformed frame, which stays in `buf`.
pub fn decode_available(buf: &mut Vec<u8>) -> (r: Vec<SocketPacket>)
    ensures
        packet_views(r@) == decode_all(old(buf)@),
        final(buf)@ == old(buf)@.skip(old(buf)@.len() - final(buf)@.len()),
{
    let ghost start = buf@;
    let mut out: Vec<SocketPacket> = Vec::new();
    loop
        invariant
            packet_views(out@) + decode_all(buf@) == decode_all(start),
            buf@ == start.skip(start.len() - buf@.len()),
            buf@.len() <= start.len(),
        ensures
            packet_views(out@) == decode_all(start),
            buf@ == start.skip(start.len() - buf@.len()),
        decreases buf@.len(),
    {
        let ghost before = buf@;
        match SocketPacket::decode_from(buf) {
            Ok(Some(m)) => {
                let ghost n = before.len() - buf@.len();
                assert(2 <= n <= before.len());
                assert(decode_all(before) == seq![m@] + decode_all(before.skip(n)));
                let ghost prev = out@;
                out.push(m);
                assert(packet_views(out@) =~= packet_views(prev).push(m@));
                assert(buf@ =~= before.skip(n));
                assert(packet_views(out@) + decode_all(buf@) =~= packet_views(prev) + (seq![m@]
                    + decode_all(buf@)));
                assert(buf@ =~= start.skip(start.len() - buf@.len()));
            },
            _ => {
                assert(decode_all(buf@) == Seq::<PacketView>::empty());
                assert(packet_views(out@) + Seq::<PacketView>::empty() =~= packet_views(out@));
                break;
            },
        }
    }
    out
}

} // verus!
