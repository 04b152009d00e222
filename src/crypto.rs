use vstd::prelude::*;

use crate::addressing::DistributorError;
use crate::config::KEY_SERVER_SUFFIX;
use crate::proxy::{ChallengeDataType, ServerPublicKey, SignatureDataType};
use crate::text::{chars_of, string_from_chars};

verus! {

/// Whether `sig` is a valid Ed25519 signature of `msg` under the public key `key`.
pub uninterp spec fn ed25519_valid(key: Seq<u8>, msg: Seq<u8>, sig: Seq<u8>) -> bool;

/// Relies on ring's `UnparsedPublicKey::verify` with the `ED25519` algorithm:
/// it accepts or rejects depending on key, message and signature alone.
#[verifier::external_body]
fn ed25519_verify(key: &[u8; 32], msg: &[u8; 32], sig: &[u8; 64]) -> (r: bool)
    ensures
        r == ed25519_valid(key@, msg@, sig@),
{
    ring::signature::UnparsedPublicKey::new(&ring::signature::ED25519, &key[..]).verify(
        &msg[..],
        &sig[..],
    ).is_ok()
}

/// Relies on ring's `rand::generate` over `SystemRandom`: 32 random bytes, or
/// `None` when the system source fails.
#[verifier::external_body]
fn random_bytes_32() -> (r: Option<[u8; 32]>) {
    ring::rand::generate::<[u8; 32]>(&ring::rand::SystemRandom::new()).ok().map(|r| r.expose())
}

/// The Ed25519 public key that belongs to the private key with `seed`.
pub uninterp spec fn ed25519_public_key(seed: Seq<u8>) -> Seq<u8>;

/// The Ed25519 signature of `msg` under the private key with `seed`.
pub uninterp spec fn ed25519_signature(seed: Seq<u8>, msg: Seq<u8>) -> Seq<u8>;

/// Relies on ring's `Ed25519KeyPair::from_seed_unchecked`, which accepts every
/// 32-byte seed, and `KeyPair::public_key`: 32 bytes that depend on the seed alone.
#[verifier::external_body]
fn ed25519_public_of(seed: &[u8; 32]) -> (r: Option<[u8; 32]>)
    ensures
        r is Some,
        r matches Some(k) ==> k@ == ed25519_public_key(seed@),
{
    match ring::signature::Ed25519KeyPair::from_seed_unchecked(&seed[..]) {
        Ok(pair) => <[u8; 32]>::try_from(ring::signature::KeyPair::public_key(&pair).as_ref()).ok(),
        Err(_) => None,
    }
}

/// Relies on ring's `Ed25519KeyPair::from_seed_unchecked`, which accepts every
/// 32-byte seed, and `Ed25519KeyPair::sign`: 64 bytes that depend on the seed
/// and the message alone.
#[verifier::external_body]
fn ed25519_sign_with(seed: &[u8; 32], msg: &[u8; 32]) -> (r: Option<[u8; 64]>)
    ensures
        r is Some,
        r matches Some(s) ==> s@ == ed25519_signature(seed@, msg@),
{
    match ring::signature::Ed25519KeyPair::from_seed_unchecked(&seed[..]) {
        Ok(pair) => <[u8; 64]>::try_from(pair.sign(&msg[..]).as_ref()).ok(),
        Err(_) => None,
    }
}

/// The private key of a proxy-client, kept as its Ed25519 seed.
#[derive(Debug, Clone, Copy, PartialEq, Eq)]
pub struct ServerPrivateKey {
    seed: [u8; 32],
}

impl ServerPrivateKey {
    /// The seed the key is made from.
    pub closed spec fn spec_seed(&self) -> Seq<u8> {
        self.seed@
    }

    /// The key made from `seed`.
    pub fn from_seed(seed: [u8; 32]) -> (r: Self)
        ensures
            r.spec_seed() == seed@,
    {
        ServerPrivateKey { seed }
    }

    /// The public key that belongs to this key.
    pub fn get_public_key(&self) -> (r: ServerPublicKey)
        ensures
            r.key@ == ed25519_public_key(self.spec_seed()),
    {
        match ed25519_public_of(&self.seed) {
            Some(key) => ServerPublicKey { key },
            None => ServerPublicKey { key: [0u8; 32] },
        }
    }

    /// Signs a challenge of the rendezvous.
    pub fn sign(&self, challenge: &ChallengeDataType) -> (r: SignatureDataType)
        ensures
            r@ == ed25519_signature(self.spec_seed(), challenge@),
    {
        match ed25519_sign_with(&self.seed, challenge) {
            Some(s) => s,
            None => [0u8; 64],
        }
    }
}

/// The lower-case hexadecimal digits.
pub open spec fn hex_alphabet() -> Seq<char> {
    seq!['0', '1', '2', '3', '4', '5', '6', '7', '8', '9', 'a', 'b', 'c', 'd', 'e', 'f']
}

/// Two lower-case hexadecimal digits per byte.
pub open spec fn hex_of(bytes: Seq<u8>) -> Seq<char>
    decreases bytes.len(),
{
    if bytes.len() == 0 {
        Seq::empty()
    } else {
        hex_of(bytes.drop_last()) + seq![
            hex_alphabet()[(bytes.last() / 16) as int],
            hex_alphabet()[(bytes.last() % 16) as int],
        ]
    }
}

/// Number of key bytes that the hostname of a key shows.
pub const HOST_KEY_BYTES: usize = 10;

/// The hostname derived from a public key: the hexadecimal form of its first
/// bytes, followed by the fixed domain suffix.
pub open spec fn key_hostname(key: Seq<u8>) -> Seq<char> {
    hex_of(key.take(HOST_KEY_BYTES as int)) + KEY_SERVER_SUFFIX@
}

fn hex_digits() -> (r: Vec<char>)
    ensures
        r@ == hex_alphabet(),
{
    let r = vec!['0', '1', '2', '3', '4', '5', '6', '7', '8', '9', 'a', 'b', 'c', 'd', 'e', 'f'];
    assert(r@ =~= hex_alphabet());
    r
}

impl ServerPublicKey {
    /// The hexadecimal form of the first bytes of the key.
    pub fn get_host(&self) -> (r: String)
        ensures
            r@ == hex_of(self.key@.take(HOST_KEY_BYTES as int)),
    {
        let digits = hex_digits();
        let mut out: Vec<char> = Vec::new();
        let mut i: usize = 0;
        while i < HOST_KEY_BYTES
            invariant
                i <= HOST_KEY_BYTES,
                digits@ == hex_alphabet(),
                out@ == hex_of(self.key@.take(i as int)),
            decreases HOST_KEY_BYTES - i,
        {
            let b = self.key[i];
            out.push(digits[(b / 16) as usize]);
            out.push(digits[(b % 16) as usize]);
            assert(self.key@.take(i + 1).drop_last() =~= self.key@.take(i as int));
            assert(out@ =~= hex_of(self.key@.take(i + 1)));
            i = i + 1;
        }
        string_from_chars(&out)
    }

    /// The hostname that this key may register.
    pub fn get_hostname(&self) -> (r: String)
        ensures
            r@ == key_hostname(self.key@),
    {
        let host = self.get_host();
        let mut chars = chars_of(host.as_str());
        let suffix = chars_of(KEY_SERVER_SUFFIX);
        let ghost head = chars@;
        let mut i: usize = 0;
        while i < suffix.len()
            invariant
                i <= suffix@.len(),
                suffix@ == KEY_SERVER_SUFFIX@,
                chars@ == head + suffix@.take(i as int),
            decreases suffix@.len() - i,
        {
            chars.push(suffix[i]);
            assert(chars@ =~= head + suffix@.take(i + 1));
            i = i + 1;
        }
        assert(suffix@.take(suffix@.len() as int) =~= suffix@);
        string_from_chars(&chars)
    }

    /// A fresh random challenge for this key's owner to sign.
    pub fn create_challange(&self) -> (r: Result<ChallengeDataType, DistributorError>)
        ensures
            r matches Err(e) ==> e == DistributorError::AuthError,
    {
        match random_bytes_32() {
            Some(c) => Ok(c),
            None => Err(DistributorError::AuthError),
        }
    }

    /// Whether `signature` signs `challenge` under this key.
    pub fn verify(&self, challenge: &ChallengeDataType, signature: &SignatureDataType) -> (r: bool)
        ensures
            r == ed25519_valid(self.key@, challenge@, signature@),
    {
        ed25519_verify(&self.key, challenge, signature)
    }
}

/// Decides a proxy-client's authentication once its signature has been
/// checked: the signature must be valid, and the claimed hostname must be the
/// one derived from the key.
pub fn decide_authentication(
    signature_valid: bool,
    key: &ServerPublicKey,
    claimed_hostname: &str,
) -> (r: Result<(), DistributorError>)
    ensures
        r is Ok <==> (signature_valid && key_hostname(key.key@) == claimed_hostname@),
        r matches Err(e) ==> e == DistributorError::AuthError,
{
    if !signature_valid {
        return Err(DistributorError::AuthError);
    }
    let derived = key.get_hostname();
    let claimed = String::from_str(claimed_hostname);
    if derived != claimed {
        return Err(DistributorError::AuthError);
    }
    Ok(())
}

/// Checks a proxy-client's answer to `challenge` and its claimed hostname.
pub fn check_authentication(
    key: &ServerPublicKey,
    claimed_hostname: &str,
    challenge: &ChallengeDataType,
    signature: &SignatureDataType,
) -> (r: Result<(), DistributorError>)
    ensures
        r is Ok <==> (ed25519_valid(key.key@, challenge@, signature@) && key_hostname(key.key@)
            == claimed_hostname@),
        r matches Err(e) ==> e == DistributorError::AuthError,
{
    let valid = key.verify(challenge, signature);
    decide_authentication(valid, key, claimed_hostname)
}

} // verus!
