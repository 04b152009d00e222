use vstd::prelude::*;
use vstd::utf8::encode_utf8;

verus! {

/// Separates the file hash from the version in signed release data.
pub const SIGNATURE_SEPARATOR_NONCE: &'static str = "CraftIPVersion";

/// The bytes that a release signature covers: the file hash, the separator,
/// then the version, both as UTF-8.
pub fn get_bytes_for_signature(hash: &[u8], version: &str) -> (r: Vec<u8>)
    ensures
        r@ == hash@ + encode_utf8(SIGNATURE_SEPARATOR_NONCE@) + encode_utf8(version@),
{
    let mut out: Vec<u8> = Vec::new();
    push_slice(&mut out, hash);
    push_slice(&mut out, SIGNATURE_SEPARATOR_NONCE.as_bytes());
    push_slice(&mut out, version.as_bytes());
    out
}

fn push_slice(out: &mut Vec<u8>, src: &[u8])
    ensures
        final(out)@ == old(out)@ + src@,
{
    let ghost head = out@;
    let mut i: usize = 0;
    while i < src.len()
        invariant
            i <= src@.len(),
            out@ == head + src@.take(i as int),
        decreases src@.len() - i,
    {
        out.push(src[i]);
        assert(out@ =~= head + src@.take(i + 1));
        i = i + 1;
    }
    assert(src@.take(src@.len() as int) =~= src@);
}

} // verus!
