use vstd::prelude::*;
use vstd::utf8::{decode_utf8, valid_utf8};

verus! {

/// UTF-16 code units of `s`, with surrogate pairs above the basic plane.
pub open spec fn utf16_encode(s: Seq<char>) -> Seq<u16>
    decreases s.len(),
{
    if s.len() == 0 {
        Seq::empty()
    } else {
        utf16_encode(s.drop_last()) + utf16_of_char(s.last())
    }
}

/// The one or two UTF-16 code units of `c`.
pub open spec fn utf16_of_char(c: char) -> Seq<u16> {
    let v = c as u32;
    if v < 0x10000 {
        seq![v as u16]
    } else {
        seq![(0xD800 + (v - 0x10000) / 1024) as u16, (0xDC00 + (v - 0x10000) % 1024) as u16]
    }
}

/// The string whose UTF-16 encoding is `units`, or `None` where there is none
/// (an unpaired surrogate).
pub open spec fn utf16_decoded(units: Seq<u16>) -> Option<Seq<char>> {
    if exists|cs: Seq<char>| utf16_encode(cs) == units {
        Some(choose|cs: Seq<char>| utf16_encode(cs) == units)
    } else {
        None
    }
}

proof fn lemma_utf16_len(s: Seq<char>)
    ensures
        utf16_encode(s).len() >= s.len(),
    decreases s.len(),
{
    if s.len() > 0 {
        lemma_utf16_len(s.drop_last());
    }
}

/// Two strings with the same UTF-16 encoding are equal.
pub proof fn lemma_utf16_injective(a: Seq<char>, b: Seq<char>)
    requires
        utf16_encode(a) == utf16_encode(b),
    ensures
        a == b,
    decreases a.len(),
{
    lemma_utf16_len(a);
    lemma_utf16_len(b);
    if a.len() == 0 || b.len() == 0 {
        assert(a =~= b);
    } else {
        let e = utf16_encode(a);
        let n = e.len() as int;
        let ua = a.last() as u32;
        let ub = b.last() as u32;
        let pa = utf16_of_char(a.last());
        let pb = utf16_of_char(b.last());
        vstd::utf8::char_is_scalar(a.last());
        vstd::utf8::char_is_scalar(b.last());
        vstd::utf8::char_u32_cast(a.last(), ua);
        vstd::utf8::char_u32_cast(b.last(), ub);
        assert(ua <= 0x10FFFF && !(0xD800 <= ua <= 0xDFFF));
        assert(ub <= 0x10FFFF && !(0xD800 <= ub <= 0xDFFF));
        if ua >= 0x10000 {
            let x = ua - 0x10000;
            assert(0 <= x / 1024 <= 1023 && 0 <= x % 1024 < 1024) by (nonlinear_arith)
                requires
                    0 <= x <= 0xFFFFF,
            ;
        }
        if ub >= 0x10000 {
            let x = ub - 0x10000;
            assert(0 <= x / 1024 <= 1023 && 0 <= x % 1024 < 1024) by (nonlinear_arith)
                requires
                    0 <= x <= 0xFFFFF,
            ;
        }
        assert(e == utf16_encode(a.drop_last()) + pa);
        assert(e == utf16_encode(b.drop_last()) + pb);
        assert(e[n - 1] == pa[pa.len() - 1]);
        assert(e[n - 1] == pb[pb.len() - 1]);
        if ua < 0x10000 && ub < 0x10000 {
            assert(ua == ub);
        } else if ua >= 0x10000 && ub >= 0x10000 {
            assert(e[n - 2] == pa[0] && e[n - 2] == pb[0]);
            let xa = ua - 0x10000;
            let xb = ub - 0x10000;
            assert(xa / 1024 == xb / 1024 && xa % 1024 == xb % 1024);
            assert(xa == 1024 * (xa / 1024) + xa % 1024) by (nonlinear_arith);
            assert(xb == 1024 * (xb / 1024) + xb % 1024) by (nonlinear_arith);
            assert(ua == ub);
        } else {
            assert(false);
        }
        assert(pa == pb);
        assert(utf16_encode(a.drop_last()) =~= e.take(n - pa.len()));
        assert(utf16_encode(b.drop_last()) =~= e.take(n - pb.len()));
        lemma_utf16_injective(a.drop_last(), b.drop_last());
        assert(a =~= a.drop_last().push(a.last()));
        assert(b =~= b.drop_last().push(b.last()));
    }
}

/// A string's UTF-16 encoding decodes back to it.
pub proof fn lemma_utf16_decoded(s: Seq<char>)
    ensures
        utf16_decoded(utf16_encode(s)) == Some(s),
{
    let units = utf16_encode(s);
    assert(exists|cs: Seq<char>| utf16_encode(cs) == units);
    let cs = choose|cs: Seq<char>| utf16_encode(cs) == units;
    lemma_utf16_injective(cs, s);
}

/// Relies on `String::from_utf8`: it succeeds exactly on valid UTF-8, and the
/// string it returns holds those bytes.
#[verifier::external_body]
pub(crate) fn string_from_utf8(bytes: Vec<u8>) -> (r: Option<String>)
    ensures
        r is Some <==> valid_utf8(bytes@),
        r matches Some(s) ==> s@ == decode_utf8(bytes@),
{
    String::from_utf8(bytes).ok()
}

/// Relies on `std::char::decode_utf16`, collected into a `String`: it fails
/// exactly when the units hold an unpaired surrogate, that is when no string
/// has them as its UTF-16 encoding, and otherwise returns that string.
#[verifier::external_body]
pub(crate) fn utf16_decode(units: &Vec<u16>) -> (r: Option<String>)
    ensures
        r matches Some(s) ==> utf16_encode(s@) == units@,
        r is None ==> forall|cs: Seq<char>| #[trigger] utf16_encode(cs) != units@,
{
    std::char::decode_utf16(units.iter().copied()).collect::<Result<String, _>>().ok()
}

/// Relies on `String`'s `FromIterator<char>`: the string holds the characters
/// in order.
#[verifier::external_body]
pub(crate) fn string_from_chars(chars: &Vec<char>) -> (r: String)
    ensures
        r@ == chars@,
{
    chars.iter().collect::<String>()
}

/// The characters of `s`.
pub fn chars_of(s: &str) -> (r: Vec<char>)
    ensures
        r@ == s@,
{
    let mut r: Vec<char> = Vec::new();
    for c in it: s.chars()
        invariant
            it.seq() == s@,
            r@ == s@.take(it.index() as int),
    {
        r.push(c);
        assert(r@ =~= s@.take(it.index() + 1));
    }
    assert(r@ =~= s@.take(s@.len() as int));
    r
}

} // verus!
