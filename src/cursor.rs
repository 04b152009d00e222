use vstd::prelude::*;
use vstd::utf8::{decode_utf8, encode_utf8, valid_utf8};

use crate::datatypes::PacketError;
use crate::text::{lemma_utf16_decoded, string_from_utf8, utf16_decode, utf16_decoded};

verus! {

// ---------------------------------------------------------------------------
// Fixed-width big-endian integers
// ---------------------------------------------------------------------------
/// Big-endian `u16` stored at `b[p..p + 2]`.
pub open spec fn u16_be(b: Seq<u8>, p: int) -> u16 {
    (b[p] as int * 256 + b[p + 1] as int) as u16
}

/// Big-endian `u32` stored at `b[p..p + 4]`.
pub open spec fn u32_be(b: Seq<u8>, p: int) -> u32 {
    (b[p] as int * 16777216 + b[p + 1] as int * 65536 + b[p + 2] as int * 256
        + b[p + 3] as int) as u32
}

/// Reads the big-endian `u16` at `p`.
pub fn read_u16_be(b: &[u8], p: usize) -> (r: u16)
    requires
        p + 2 <= b@.len(),
    ensures
        r == u16_be(b@, p as int),
{
    (b[p] as u16) * 256 + (b[p + 1] as u16)
}

/// Reads the big-endian `u32` at `p`.
pub fn read_u32_be(b: &[u8], p: usize) -> (r: u32)
    requires
        p + 4 <= b@.len(),
    ensures
        r == u32_be(b@, p as int),
{
    (b[p] as u32) * 16777216 + (b[p + 1] as u32) * 65536 + (b[p + 2] as u32) * 256 + (b[p
        + 3] as u32)
}

// ---------------------------------------------------------------------------
// VarInt
// ---------------------------------------------------------------------------
/// The two's complement bits of `v`.
pub open spec fn i32_bits(v: i32) -> u32 {
    if v >= 0 {
        v as u32
    } else {
        (v + 0x1_0000_0000) as u32
    }
}

/// The `i32` whose two's complement bits are `x`.
pub open spec fn i32_of_bits(x: u32) -> i32 {
    if x < 0x8000_0000 {
        x as i32
    } else {
        (x - 0x1_0000_0000) as i32
    }
}

fn to_bits(v: i32) -> (r: u32)
    ensures
        r == i32_bits(v),
{
    if v >= 0 {
        v as u32
    } else {
        (v as i64 + 0x1_0000_0000i64) as u32
    }
}

fn of_bits(x: u32) -> (r: i32)
    ensures
        r == i32_of_bits(x),
{
    if x < 0x8000_0000 {
        x as i32
    } else {
        (x as i64 - 0x1_0000_0000i64) as i32
    }
}

/// The bits that byte number `i` of a VarInt contributes to its value.
pub open spec fn varint_group(byte: u8, i: nat) -> u32 {
    ((byte & 0x7f) as u32) << ((7 * i) as u32)
}

/// Reads a VarInt at `pos` whose first `i` bytes have been folded into `acc`.
/// `Ok(None)`: the buffer ends before the VarInt does; `Err`: more than five bytes.
pub open spec fn varint_from(b: Seq<u8>, pos: int, i: nat, acc: u32) -> Result<
    Option<(i32, int)>,
    PacketError,
>
    decreases 5 - i,
{
    if i >= 5 {
        Err(PacketError::NotValid)
    } else if pos + i >= b.len() {
        Ok(None)
    } else {
        let byte = b[pos + i];
        let next = acc | varint_group(byte, i);
        if byte & 0x80 == 0 {
            Ok(Some((i32_of_bits(next), pos + i + 1)))
        } else {
            varint_from(b, pos, i + 1, next)
        }
    }
}

/// The VarInt at `pos` and the position just after it.
pub open spec fn varint_at(b: Seq<u8>, pos: int) -> Result<Option<(i32, int)>, PacketError> {
    varint_from(b, pos, 0, 0)
}

/// `v` shifted right by seven bits `k` times.
pub open spec fn shr7(v: u32, k: nat) -> u32
    decreases k,
{
    if k == 0 {
        v
    } else {
        shr7(v, (k - 1) as nat) >> 7
    }
}

/// Number of bytes of the VarInt encoding of `v`.
pub open spec fn varint_len(v: u32) -> nat {
    if v < 0x80 {
        1
    } else if v < 0x4000 {
        2
    } else if v < 0x20_0000 {
        3
    } else if v < 0x1000_0000 {
        4
    } else {
        5
    }
}

/// Byte `k` of the VarInt encoding of `v`.
pub open spec fn varint_byte(v: u32, k: nat) -> u8 {
    if k + 1 < varint_len(v) {
        ((shr7(v, k) & 0x7f) | 0x80) as u8
    } else {
        shr7(v, k) as u8
    }
}

/// The VarInt encoding of `v` (two's complement for negative numbers).
pub open spec fn varint_bytes(v: u32) -> Seq<u8> {
    Seq::new(varint_len(v), |k: int| varint_byte(v, k as nat))
}

proof fn lemma_shr7_values(v: u32)
    ensures
        shr7(v, 0) == v,
        shr7(v, 1) == v >> 7,
        shr7(v, 2) == v >> 14,
        shr7(v, 3) == v >> 21,
        shr7(v, 4) == v >> 28,
{
    reveal_with_fuel(shr7, 5);
    assert((v >> 7) >> 7 == v >> 14) by (bit_vector);
    assert(((v >> 7) >> 7) >> 7 == v >> 21) by (bit_vector);
    assert((((v >> 7) >> 7) >> 7) >> 7 == v >> 28) by (bit_vector);
}

proof fn lemma_varint_step(v: u32, j: nat)
    requires
        j < varint_len(v),
    ensures
        (shr7(v, j) & !0x7fu32 == 0) == (j + 1 == varint_len(v)),
{
    lemma_shr7_values(v);
    assert((v & !0x7fu32 == 0) == (v < 0x80)) by (bit_vector);
    assert(((v >> 7) & !0x7fu32 == 0) == (v < 0x4000)) by (bit_vector);
    assert(((v >> 14) & !0x7fu32 == 0) == (v < 0x20_0000)) by (bit_vector);
    assert(((v >> 21) & !0x7fu32 == 0) == (v < 0x1000_0000)) by (bit_vector);
    assert((v >> 28) & !0x7fu32 == 0) by (bit_vector);
    assert(j < 5);
}

/// Decoding the encoding of `v`, with anything after it, gives `v` back and
/// stops right after the encoding.
pub proof fn lemma_varint_decode_encode(v: u32, rest: Seq<u8>)
    ensures
        1 <= varint_bytes(v).len() <= 5,
        varint_at(varint_bytes(v) + rest, 0) == Ok::<Option<(i32, int)>, PacketError>(
            Some((i32_of_bits(v), varint_bytes(v).len() as int)),
        ),
{
    let e = varint_bytes(v);
    let b = e + rest;
    lemma_shr7_values(v);
    reveal_with_fuel(varint_from, 6);
    let b0 = varint_byte(v, 0);
    let b1 = varint_byte(v, 1);
    let b2 = varint_byte(v, 2);
    let b3 = varint_byte(v, 3);
    let b4 = varint_byte(v, 4);
    assert(b[0] == b0);
    if v < 0x80 {
        assert(b0 & 0x80 == 0 && ((b0 & 0x7f) as u32) << 0u32 == v) by (bit_vector)
            requires
                b0 == v as u8,
                v < 0x80,
        ;
        assert((0u32 | (((b0 & 0x7f) as u32) << 0u32)) == v) by (bit_vector)
            requires
                ((b0 & 0x7f) as u32) << 0u32 == v,
        ;
    } else if v < 0x4000 {
        assert(b[1] == b1);
        assert(b0 & 0x80 != 0 && b1 & 0x80 == 0 && (0u32 | (((b0 & 0x7f) as u32) << 0u32)) | (((
        b1 & 0x7f) as u32) << 7u32) == v) by (bit_vector)
            requires
                b0 == ((v & 0x7f) | 0x80) as u8,
                b1 == (v >> 7) as u8,
                0x80 <= v < 0x4000,
        ;
    } else if v < 0x20_0000 {
        assert(b[1] == b1);
        assert(b[2] == b2);
        assert(b0 & 0x80 != 0 && b1 & 0x80 != 0 && b2 & 0x80 == 0 && ((0u32 | (((b0 & 0x7f) as u32)
            << 0u32)) | (((b1 & 0x7f) as u32) << 7u32)) | (((b2 & 0x7f) as u32) << 14u32) == v)
            by (bit_vector)
            requires
                b0 == ((v & 0x7f) | 0x80) as u8,
                b1 == (((v >> 7) & 0x7f) | 0x80) as u8,
                b2 == (v >> 14) as u8,
                0x4000 <= v < 0x20_0000,
        ;
    } else if v < 0x1000_0000 {
        assert(b[1] == b1);
        assert(b[2] == b2);
        assert(b[3] == b3);
        assert(b0 & 0x80 != 0 && b1 & 0x80 != 0 && b2 & 0x80 != 0 && b3 & 0x80 == 0 && (((0u32 | (((
        b0 & 0x7f) as u32) << 0u32)) | (((b1 & 0x7f) as u32) << 7u32)) | (((b2 & 0x7f) as u32)
            << 14u32)) | (((b3 & 0x7f) as u32) << 21u32) == v) by (bit_vector)
            requires
                b0 == ((v & 0x7f) | 0x80) as u8,
                b1 == (((v >> 7) & 0x7f) | 0x80) as u8,
                b2 == (((v >> 14) & 0x7f) | 0x80) as u8,
                b3 == (v >> 21) as u8,
                0x20_0000 <= v < 0x1000_0000,
        ;
    } else {
        assert(b[1] == b1);
        assert(b[2] == b2);
        assert(b[3] == b3);
        assert(b[4] == b4);
        assert(b0 & 0x80 != 0 && b1 & 0x80 != 0 && b2 & 0x80 != 0 && b3 & 0x80 != 0 && b4 & 0x80
            == 0 && ((((0u32 | (((b0 & 0x7f) as u32) << 0u32)) | (((b1 & 0x7f) as u32) << 7u32)) | (((
        b2 & 0x7f) as u32) << 14u32)) | (((b3 & 0x7f) as u32) << 21u32)) | (((b4 & 0x7f) as u32)
            << 28u32) == v) by (bit_vector)
            requires
                b0 == ((v & 0x7f) | 0x80) as u8,
                b1 == (((v >> 7) & 0x7f) | 0x80) as u8,
                b2 == (((v >> 14) & 0x7f) | 0x80) as u8,
                b3 == (((v >> 21) & 0x7f) | 0x80) as u8,
                b4 == (v >> 28) as u8,
                0x1000_0000 <= v,
        ;
    }
}

/// A read result with its position as an `int`.
pub open spec fn int_read(r: Result<Option<(i32, usize)>, PacketError>) -> Result<
    Option<(i32, int)>,
    PacketError,
> {
    match r {
        Ok(Some((v, p))) => Ok(Some((v, p as int))),
        Ok(None) => Ok(None),
        Err(e) => Err(e),
    }
}

/// A string read result with the string's characters and its position as an `int`.
pub open spec fn str_read(r: Result<Option<(String, usize)>, PacketError>) -> Result<
    Option<(Seq<char>, int)>,
    PacketError,
> {
    match r {
        Ok(Some((s, p))) => Ok(Some((s@, p as int))),
        Ok(None) => Ok(None),
        Err(e) => Err(e),
    }
}

/// Reads the VarInt at `pos`: its value and the position just after it.
pub fn read_varint(b: &[u8], pos: usize) -> (r: Result<Option<(i32, usize)>, PacketError>)
    ensures
        int_read(r) == varint_at(b@, pos as int),
        r matches Ok(Some((_, p))) ==> pos < p <= b@.len(),
{
    let mut acc: u32 = 0;
    let mut i: usize = 0;
    while i < 5
        invariant
            i <= 5,
            varint_at(b@, pos as int) == varint_from(b@, pos as int, i as nat, acc),
            pos + i <= b@.len() || i == 0,
        decreases 5 - i,
    {
        if pos >= b.len() || b.len() - pos <= i {
            return Ok(None);
        }
        let byte = b[pos + i];
        let shift: u32 = (7 * i) as u32;
        acc = acc | (((byte & 0x7f) as u32) << shift);
        if byte & 0x80 == 0 {
            return Ok(Some((of_bits(acc), pos + i + 1)));
        }
        i = i + 1;
    }
    Err(PacketError::NotValid)
}

/// Appends the VarInt encoding of `value` to `out`.
pub fn write_varint(out: &mut Vec<u8>, value: i32)
    ensures
        final(out)@ == old(out)@ + varint_bytes(i32_bits(value)),
{
    let ghost v = i32_bits(value);
    let ghost start = out@;
    let mut rest: u32 = to_bits(value);
    let mut j: usize = 0;
    loop
        invariant_except_break
            j < varint_len(v),
            rest == shr7(v, j as nat),
            out@ == start + varint_bytes(v).take(j as int),
        ensures
            out@ == start + varint_bytes(v),
        decreases 5 - j,
    {
        proof {
            lemma_varint_step(v, j as nat);
        }
        if rest & !0x7fu32 == 0 {
            assert(varint_byte(v, j as nat) == rest as u8);
            out.push(rest as u8);
            assert(out@ =~= start + varint_bytes(v));
            break;
        }
        assert(varint_byte(v, j as nat) == ((rest & 0x7f) | 0x80) as u8);
        out.push(((rest & 0x7f) | 0x80) as u8);
        assert(out@ =~= start + varint_bytes(v).take(j + 1));
        rest = rest >> 7;
        j = j + 1;
    }
}

// ---------------------------------------------------------------------------
// Strings
// ---------------------------------------------------------------------------
/// A UTF-8 string prefixed by its VarInt byte length, read at `pos`.
pub open spec fn utf8_string_at(b: Seq<u8>, pos: int) -> Result<
    Option<(Seq<char>, int)>,
    PacketError,
> {
    match varint_at(b, pos) {
        Err(e) => Err(e),
        Ok(None) => Ok(None),
        Ok(Some((n, p))) => if n < 0 || b.len() - p < n {
            Ok(None)
        } else if valid_utf8(b.subrange(p, p + n)) {
            Ok(Some((decode_utf8(b.subrange(p, p + n)), p + n)))
        } else {
            Err(PacketError::NotValidStringEncoding)
        },
    }
}

/// The `n` big-endian UTF-16 code units stored from `p` on.
pub open spec fn utf16_units(b: Seq<u8>, p: int, n: nat) -> Seq<u16> {
    Seq::new(n, |i: int| u16_be(b, p + 2 * i))
}

/// A UTF-16 string prefixed by its big-endian `u16` count of code units, read at `pos`.
pub open spec fn utf16_string_at(b: Seq<u8>, pos: int) -> Result<
    Option<(Seq<char>, int)>,
    PacketError,
> {
    if b.len() < pos + 2 {
        Ok(None)
    } else {
        let n = u16_be(b, pos) as nat;
        if b.len() < pos + 2 + 2 * n {
            Ok(None)
        } else {
            match utf16_decoded(utf16_units(b, pos + 2, n)) {
                Some(s) => Ok(Some((s, pos + 2 + 2 * n))),
                None => Err(PacketError::NotValidStringEncoding),
            }
        }
    }
}

/// Whether `b` holds `bytes` from `pos` on.
pub open spec fn bytes_at(b: Seq<u8>, pos: int, bytes: Seq<u8>) -> bool {
    0 <= pos && pos + bytes.len() <= b.len() && b.subrange(pos, pos + bytes.len()) == bytes
}

/// Whether `b` holds `bytes` from `pos` on.
pub fn bytes_match(b: &[u8], pos: usize, bytes: &[u8]) -> (r: bool)
    ensures
        r == bytes_at(b@, pos as int, bytes@),
        r ==> pos + bytes.len() <= b.len(),
{
    if pos > b.len() || b.len() - pos < bytes.len() {
        return false;
    }
    let mut i: usize = 0;
    while i < bytes.len()
        invariant
            pos + bytes.len() <= b.len(),
            i <= bytes.len(),
            forall|k: int| 0 <= k < i ==> b@[pos + k] == bytes@[k],
        decreases bytes@.len() - i,
    {
        if b[pos + i] != bytes[i] {
            assert(b@.subrange(pos as int, pos + bytes@.len())[i as int] != bytes@[i as int]);
            return false;
        }
        i = i + 1;
    }
    assert(b@.subrange(pos as int, pos + bytes@.len()) =~= bytes@);
    true
}

/// Copies `b[start..end]` into a new vector.
pub fn copy_range(b: &[u8], start: usize, end: usize) -> (r: Vec<u8>)
    requires
        start <= end <= b@.len(),
    ensures
        r@ == b@.subrange(start as int, end as int),
{
    let mut r: Vec<u8> = Vec::new();
    let mut i: usize = start;
    while i < end
        invariant
            start <= i <= end <= b@.len(),
            r@ == b@.subrange(start as int, i as int),
        decreases end - i,
    {
        r.push(b[i]);
        assert(r@ =~= b@.subrange(start as int, i + 1));
        i = i + 1;
    }
    r
}

/// Reads a VarInt-prefixed UTF-8 string at `pos`.
pub fn read_utf8_string(b: &[u8], pos: usize) -> (r: Result<Option<(String, usize)>, PacketError>)
    ensures
        str_read(r) == utf8_string_at(b@, pos as int),
        r matches Ok(Some((_, p))) ==> pos < p <= b@.len(),
{
    let (n, p) = match read_varint(b, pos) {
        Err(e) => return Err(e),
        Ok(None) => return Ok(None),
        Ok(Some(x)) => x,
    };
    assert(varint_at(b@, pos as int) == Ok::<Option<(i32, int)>, PacketError>(Some((n, p as int))));
    if n < 0 || b.len() - p < n as usize {
        return Ok(None);
    }
    let end = p + n as usize;
    let blob = copy_range(b, p, end);
    match string_from_utf8(blob) {
        Some(s) => Ok(Some((s, end))),
        None => Err(PacketError::NotValidStringEncoding),
    }
}

/// Reads a `u16`-count-prefixed big-endian UTF-16 string at `pos`.
pub fn read_utf16_string(b: &[u8], pos: usize) -> (r: Result<Option<(String, usize)>, PacketError>)
    ensures
        str_read(r) == utf16_string_at(b@, pos as int),
        r matches Ok(Some((_, p))) ==> pos < p <= b@.len(),
{
    if pos >= b.len() || b.len() - pos < 2 {
        return Ok(None);
    }
    let n = read_u16_be(b, pos) as usize;
    if b.len() - pos - 2 < 2 * n {
        return Ok(None);
    }
    let start = pos + 2;
    let mut units: Vec<u16> = Vec::new();
    let mut i: usize = 0;
    let mut q: usize = start;
    while i < n
        invariant
            i <= n,
            start == pos + 2,
            q == start + 2 * i,
            start + 2 * n <= b.len(),
            units@ == utf16_units(b@, start as int, n as nat).take(i as int),
        decreases n - i,
    {
        let unit = read_u16_be(b, q);
        units.push(unit);
        assert(units@ =~= utf16_units(b@, start as int, n as nat).take(i + 1));
        i = i + 1;
        q = q + 2;
    }
    assert(units@ =~= utf16_units(b@, start as int, n as nat));
    match utf16_decode(&units) {
        Some(s) => {
            proof {
                lemma_utf16_decoded(s@);
            }
            Ok(Some((s, start + 2 * n)))
        },
        None => Err(PacketError::NotValidStringEncoding),
    }
}

/// Appends `s` as a VarInt byte length followed by its UTF-8 bytes.
pub fn write_utf8_string(out: &mut Vec<u8>, s: &str)
    requires
        encode_utf8(s@).len() <= i32::MAX,
    ensures
        final(out)@ == old(out)@ + varint_bytes(encode_utf8(s@).len() as u32) + encode_utf8(s@),
{
    let bytes = s.as_bytes();
    write_varint(out, bytes.len() as i32);
    let ghost mid = out@;
    let mut i: usize = 0;
    while i < bytes.len()
        invariant
            i <= bytes@.len(),
            out@ == mid + bytes@.take(i as int),
        decreases bytes@.len() - i,
    {
        out.push(bytes[i]);
        assert(out@ =~= mid + bytes@.take(i + 1));
        i = i + 1;
    }
    assert(bytes@.take(bytes@.len() as int) =~= bytes@);
}

// ---------------------------------------------------------------------------
// Cursor
// ---------------------------------------------------------------------------
/// A byte buffer with a read position. Reads start at the position and move it
/// past what they read only when they succeed; writes append to the buffer.
pub struct CustomCursor {
    inner: Vec<u8>,
    pos: usize,
}

impl View for CustomCursor {
    type V = (Seq<u8>, int);

    closed spec fn view(&self) -> (Seq<u8>, int) {
        (self.inner@, self.pos as int)
    }
}

impl CustomCursor {
    /// A cursor at position 0 of `inner`.
    pub fn new(inner: Vec<u8>) -> (r: Self)
        ensures
            r@ == (inner@, 0int),
    {
        CustomCursor { inner, pos: 0 }
    }

    /// The read position.
    pub fn position(&self) -> (r: usize)
        ensures
            r == self@.1,
    {
        self.pos
    }

    /// Moves the read position.
    pub fn set_position(&mut self, pos: usize)
        ensures
            final(self)@ == (old(self)@.0, pos as int),
    {
        self.pos = pos;
    }

    /// The buffer.
    pub fn get_ref(&self) -> (r: &Vec<u8>)
        ensures
            r@ == self@.0,
    {
        &self.inner
    }

    /// Empties the buffer; the position stays.
    pub fn clear(&mut self)
        ensures
            final(self)@ == (Seq::<u8>::empty(), old(self)@.1),
    {
        self.inner.clear();
    }

    /// Number of bytes between the position and the end of the buffer.
    pub fn remaining(&self) -> (r: usize)
        ensures
            r == if self@.1 < self@.0.len() {
                self@.0.len() - self@.1
            } else {
                0
            },
    {
        if self.pos < self.inner.len() {
            self.inner.len() - self.pos
        } else {
            0
        }
    }

    /// Reads a VarInt at the position.
    pub fn get_varint(&mut self) -> (r: Result<Option<i32>, PacketError>)
        ensures
            final(self)@.0 == old(self)@.0,
            varint_at(old(self)@.0, old(self)@.1) == match r {
                Ok(Some(v)) => Ok(Some((v, final(self)@.1))),
                Ok(None) => Ok(None),
                Err(e) => Err(e),
            },
            !(r matches Ok(Some(_))) ==> final(self)@ == old(self)@,
    {
        match read_varint(self.inner.as_slice(), self.pos) {
            Ok(Some((v, p))) => {
                self.pos = p;
                Ok(Some(v))
            },
            Ok(None) => Ok(None),
            Err(e) => Err(e),
        }
    }

    /// Reads a VarInt-prefixed UTF-8 string at the position.
    pub fn get_utf8_string(&mut self) -> (r: Result<Option<String>, PacketError>)
        ensures
            final(self)@.0 == old(self)@.0,
            utf8_string_at(old(self)@.0, old(self)@.1) == match r {
                Ok(Some(v)) => Ok(Some((v@, final(self)@.1))),
                Ok(None) => Ok(None),
                Err(e) => Err(e),
            },
            !(r matches Ok(Some(_))) ==> final(self)@ == old(self)@,
    {
        match read_utf8_string(self.inner.as_slice(), self.pos) {
            Ok(Some((s, p))) => {
                self.pos = p;
                Ok(Some(s))
            },
            Ok(None) => Ok(None),
            Err(e) => Err(e),
        }
    }

    /// Reads a count-prefixed UTF-16 string at the position.
    pub fn get_utf16_string(&mut self) -> (r: Result<Option<String>, PacketError>)
        ensures
            final(self)@.0 == old(self)@.0,
            utf16_string_at(old(self)@.0, old(self)@.1) == match r {
                Ok(Some(v)) => Ok(Some((v@, final(self)@.1))),
                Ok(None) => Ok(None),
                Err(e) => Err(e),
            },
            !(r matches Ok(Some(_))) ==> final(self)@ == old(self)@,
    {
        match read_utf16_string(self.inner.as_slice(), self.pos) {
            Ok(Some((s, p))) => {
                self.pos = p;
                Ok(Some(s))
            },
            Ok(None) => Ok(None),
            Err(e) => Err(e),
        }
    }

    /// Whether the buffer holds `bytes` at the position; if so the position
    /// moves past them.
    pub fn match_bytes(&mut self, bytes: &[u8]) -> (r: bool)
        ensures
            r == bytes_at(old(self)@.0, old(self)@.1, bytes@),
            final(self)@ == if r {
                (old(self)@.0, old(self)@.1 + bytes@.len())
            } else {
                old(self)@
            },
    {
        if bytes_match(self.inner.as_slice(), self.pos, bytes) {
            self.pos = self.pos + bytes.len();
            true
        } else {
            false
        }
    }

    /// Appends the VarInt encoding of `value` to the buffer.
    pub fn put_varint(&mut self, value: i32)
        ensures
            final(self)@ == (old(self)@.0 + varint_bytes(i32_bits(value)), old(self)@.1),
    {
        write_varint(&mut self.inner, value);
    }

    /// Appends `s` with its VarInt byte-length prefix to the buffer.
    pub fn put_utf8_string(&mut self, s: &str)
        requires
            encode_utf8(s@).len() <= i32::MAX,
        ensures
            final(self)@ == (old(self)@.0 + varint_bytes(encode_utf8(s@).len() as u32)
                + encode_utf8(s@), old(self)@.1),
    {
        write_utf8_string(&mut self.inner, s);
    }
}

/// Reads the VarInt at `start`: its value and the number of bytes it takes.
pub fn get_varint(buf: &[u8], start: usize) -> (r: Result<Option<(i32, usize)>, PacketError>)
    ensures
        varint_at(buf@, start as int) == match r {
            Ok(Some((v, n))) => Ok(Some((v, start + n))),
            Ok(None) => Ok(None),
            Err(e) => Err(e),
        },
{
    match read_varint(buf, start) {
        Ok(Some((v, p))) => Ok(Some((v, p - start))),
        Ok(None) => Ok(None),
        Err(e) => Err(e),
    }
}

} // verus!

verus! {

// ---------------------------------------------------------------------------
// Reads depend only on the bytes they cover
// ---------------------------------------------------------------------------
/// `b2` holds the bytes of `b` below `p`, as far as `b2` reaches.
pub open spec fn agrees_below(b2: Seq<u8>, b: Seq<u8>, p: int) -> bool {
    forall|j: int| 0 <= j < p && j < b2.len() ==> #[trigger] b2[j] == b[j]
}

proof fn lemma_varint_from_prefix(b: Seq<u8>, b2: Seq<u8>, pos: int, i: nat, acc: u32)
    requires
        pos >= 0,
        varint_from(b, pos, i, acc) is Ok,
        varint_from(b, pos, i, acc)->Ok_0 is Some,
        agrees_below(b2, b, varint_from(b, pos, i, acc)->Ok_0->Some_0.1),
    ensures
        ({
            let p = varint_from(b, pos, i, acc)->Ok_0->Some_0.1;
            &&& pos + i < p <= b.len()
            &&& if b2.len() >= p {
                varint_from(b2, pos, i, acc) == varint_from(b, pos, i, acc)
            } else {
                varint_from(b2, pos, i, acc) == Ok::<Option<(i32, int)>, PacketError>(None)
            }
        }),
    decreases 5 - i,
{
    let byte = b[pos + i];
    if byte & 0x80 != 0 {
        lemma_varint_from_prefix(b, b2, pos, i + 1, acc | varint_group(byte, i));
    }
    if pos + i < b2.len() {
        assert(b2[pos + i] == b[pos + i]);
    }
}

/// The VarInt read at `pos` depends only on the bytes it covers.
pub proof fn lemma_varint_prefix(b: Seq<u8>, b2: Seq<u8>, pos: int)
    requires
        pos >= 0,
        varint_at(b, pos) matches Ok(Some((_, p))) && agrees_below(b2, b, p),
    ensures
        varint_at(b, pos) matches Ok(Some((_, p))) && pos < p <= b.len() && if b2.len() >= p {
            varint_at(b2, pos) == varint_at(b, pos)
        } else {
            varint_at(b2, pos) == Ok::<Option<(i32, int)>, PacketError>(None)
        },
{
    lemma_varint_from_prefix(b, b2, pos, 0, 0);
}

/// The UTF-8 string read at `pos` depends only on the bytes it covers.
pub proof fn lemma_utf8_string_prefix(b: Seq<u8>, b2: Seq<u8>, pos: int)
    requires
        pos >= 0,
        utf8_string_at(b, pos) matches Ok(Some((_, p))) && agrees_below(b2, b, p),
    ensures
        utf8_string_at(b, pos) matches Ok(Some((_, p))) && pos < p <= b.len() && if b2.len()
            >= p {
            utf8_string_at(b2, pos) == utf8_string_at(b, pos)
        } else {
            utf8_string_at(b2, pos) == Ok::<Option<(Seq<char>, int)>, PacketError>(None)
        },
{
    let (n, at1) = varint_at(b, pos)->Ok_0->Some_0;
    let p = at1 + n;
    lemma_varint_prefix(b, b2, pos);
    if b2.len() >= p {
        assert(b2.subrange(at1, p) =~= b.subrange(at1, p));
    }
}

/// The UTF-16 string read at `pos` depends only on the bytes it covers.
pub proof fn lemma_utf16_string_prefix(b: Seq<u8>, b2: Seq<u8>, pos: int)
    requires
        pos >= 0,
        utf16_string_at(b, pos) matches Ok(Some((_, p))) && agrees_below(b2, b, p),
    ensures
        utf16_string_at(b, pos) matches Ok(Some((_, p))) && pos + 2 <= p <= b.len() && if b2.len()
            >= p {
            utf16_string_at(b2, pos) == utf16_string_at(b, pos)
        } else {
            utf16_string_at(b2, pos) == Ok::<Option<(Seq<char>, int)>, PacketError>(None)
        },
{
    let n = u16_be(b, pos) as nat;
    let p = pos + 2 + 2 * n;
    if b2.len() >= pos + 2 {
        assert(b2[pos] == b[pos] && b2[pos + 1] == b[pos + 1]);
        assert(u16_be(b2, pos) == u16_be(b, pos));
        if b2.len() >= p {
            assert forall|i: int| 0 <= i < n implies #[trigger] utf16_units(b2, pos + 2, n)[i]
                == utf16_units(b, pos + 2, n)[i] by {
                assert(b2[pos + 2 + 2 * i] == b[pos + 2 + 2 * i]);
                assert(b2[pos + 2 + 2 * i + 1] == b[pos + 2 + 2 * i + 1]);
            }
            assert(utf16_units(b2, pos + 2, n) =~= utf16_units(b, pos + 2, n));
        }
    }
}

} // verus!

verus! {

/// VarInt bijection: every `i32` is written in one to five bytes and read
/// back unchanged, whatever follows it.
pub proof fn varint_round_trip(value: i32, rest: Seq<u8>)
    ensures
        1 <= varint_bytes(i32_bits(value)).len() <= 5,
        varint_at(varint_bytes(i32_bits(value)) + rest, 0) == Ok::<Option<(i32, int)>, PacketError>(
            Some((value, varint_bytes(i32_bits(value)).len() as int)),
        ),
{
    lemma_varint_decode_encode(i32_bits(value), rest);
}

} // verus!
