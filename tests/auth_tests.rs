use craftip::addressing::DistributorError;
use craftip::client::{Server, ServerAuthentication};
use craftip::crypto::{check_authentication, decide_authentication, ServerPrivateKey};
use craftip::proxy::ServerPublicKey;
use ring::signature::{Ed25519KeyPair, KeyPair};

fn key_pair(seed: u8) -> Ed25519KeyPair {
    Ed25519KeyPair::from_seed_unchecked(&[seed; 32]).unwrap()
}

fn public(pair: &Ed25519KeyPair) -> ServerPublicKey {
    let mut key = [0u8; 32];
    key.copy_from_slice(pair.public_key().as_ref());
    ServerPublicKey { key }
}

#[test]
fn hostname_is_hex_of_key_prefix() {
    let mut key = [0u8; 32];
    key[..10].copy_from_slice(&[0x12, 0x34, 0xab, 0xcd, 0x00, 0x19, 0x92, 0x31, 0x23, 0x12]);
    let k = ServerPublicKey { key };
    assert_eq!(k.get_host(), "1234abcd001992312312");
    assert_eq!(k.get_hostname(), "1234abcd001992312312.t.craftip.net");
}

#[test]
fn valid_signature_and_matching_hostname_authenticate() {
    let pair = key_pair(1);
    let key = public(&pair);
    let challenge = key.create_challange().unwrap();
    let mut signature = [0u8; 64];
    signature.copy_from_slice(pair.sign(&challenge).as_ref());
    assert!(key.verify(&challenge, &signature));
    let hostname = key.get_hostname();
    assert_eq!(check_authentication(&key, &hostname, &challenge, &signature), Ok(()));
}

#[test]
fn signature_of_other_key_fails() {
    let k1 = key_pair(1);
    let k2 = key_pair(2);
    let claimed = public(&k2);
    let challenge = [5u8; 32];
    let mut signature = [0u8; 64];
    signature.copy_from_slice(k1.sign(&challenge).as_ref());
    assert!(!claimed.verify(&challenge, &signature));
    assert_eq!(
        check_authentication(&claimed, &claimed.get_hostname(), &challenge, &signature),
        Err(DistributorError::AuthError)
    );
    let own = public(&k1);
    assert_eq!(
        check_authentication(&own, &claimed.get_hostname(), &challenge, &signature),
        Err(DistributorError::AuthError)
    );
}

#[test]
fn decision_needs_both_checks() {
    let key = ServerPublicKey { key: [0xAB; 32] };
    let host = key.get_hostname();
    assert_eq!(decide_authentication(true, &key, &host), Ok(()));
    assert_eq!(decide_authentication(false, &key, &host), Err(DistributorError::AuthError));
    assert_eq!(decide_authentication(true, &key, "other.t.craftip.net"), Err(DistributorError::AuthError));
}

#[test]
fn challenges_are_fresh() {
    let key = ServerPublicKey { key: [0; 32] };
    let a = key.create_challange().unwrap();
    let b = key.create_challange().unwrap();
    assert_ne!(a, b);
}

#[test]
fn private_key_matches_ring_and_signs() {
    let key = ServerPrivateKey::from_seed([3u8; 32]);
    let pair = key_pair(3);
    assert_eq!(key.get_public_key(), public(&pair));
    let challenge = [8u8; 32];
    let signature = key.sign(&challenge);
    assert_eq!(signature.to_vec(), pair.sign(&challenge).as_ref().to_vec());
    let public_key = key.get_public_key();
    assert_eq!(check_authentication(&public_key, &public_key.get_hostname(), &challenge, &signature), Ok(()));
}

#[test]
fn server_from_key() {
    let key = ServerPrivateKey::from_seed([4u8; 32]);
    let server = Server::new_from_key(key);
    assert_eq!(server.server, key.get_public_key().get_hostname());
    assert!(server.server.ends_with(".t.craftip.net"));
    assert_eq!(server.server.len(), 20 + ".t.craftip.net".len());
    assert_eq!(server.local, "25565");
    assert_eq!(server.auth, ServerAuthentication::Key(key));
}
