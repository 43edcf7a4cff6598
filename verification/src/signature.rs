//! Ed25519 authentication of commands.

use crate::hashing::{sha256, sha256_digest};
use ed25519_dalek::Signature;
use ed25519_dalek::Signer;
use ed25519_dalek::SigningKey;
use ed25519_dalek::Verifier;
use ed25519_dalek::VerifyingKey;
use vstd::prelude::*;
use vstd::string::*;
use vstd::utf8::encode_utf8;

verus! {

/// Whether 32 bytes are the encoding of an Ed25519 public key, as
/// `ed25519_dalek::VerifyingKey::from_bytes` decides it.
pub uninterp spec fn key_decodes(key: Seq<u8>) -> bool;

/// Whether `signature` is an Ed25519 signature of `message` under the public
/// key encoded by `key`, as `VerifyingKey::verify` of `ed25519_dalek` decides
/// it; false where the key does not decode.
pub uninterp spec fn signature_verifies(key: Seq<u8>, message: Seq<u8>, signature: Seq<u8>) -> bool;

/// Calls `ed25519_dalek::VerifyingKey::from_bytes` and reports whether it
/// accepted the bytes. The result is a function of the bytes alone, which the
/// contract records under the name `key_decodes`; nothing more is claimed.
#[verifier::external_body]
pub(crate) fn key_is_valid(key: &[u8; 32]) -> (ok: bool)
    ensures
        ok == key_decodes(key@),
{
    VerifyingKey::from_bytes(key).is_ok()
}

/// Calls `verify` of `ed25519_dalek::VerifyingKey` on the message, with the
/// key and the signature rebuilt from their bytes, and reports whether it
/// returned `Ok`; a key that does not decode gives `false`. The result is a
/// function of the three byte strings alone, which the contract records under
/// the name `signature_verifies`; nothing more is claimed.
#[verifier::external_body]
pub(crate) fn ed25519_verify(key: &[u8; 32], message: &[u8], signature: &[u8; 64]) -> (ok: bool)
    ensures
        ok == signature_verifies(key@, message@, signature@),
{
    match VerifyingKey::from_bytes(key) {
        Ok(k) => k.verify(message, &Signature::from_bytes(signature)).is_ok(),
        Err(_) => false,
    }
}

/// Copies 32 bytes out of a vector into an array.
pub fn key_array(bytes: &Vec<u8>) -> (key: [u8; 32])
    requires
        bytes.len() == 32,
    ensures
        key@ == bytes@,
{
    let mut key: [u8; 32] = [0u8; 32];
    let mut i: usize = 0;
    while i < 32
        invariant
            i <= 32,
            bytes.len() == 32,
            forall|j: int| 0 <= j < i ==> key@[j] == bytes@[j],
        decreases 32 - i,
    {
        key[i] = bytes[i];
        i += 1;
    }
    assert(key@ =~= bytes@);
    key
}

/// Copies 64 bytes out of a vector into an array.
pub fn signature_array(bytes: &Vec<u8>) -> (sig: [u8; 64])
    requires
        bytes.len() == 64,
    ensures
        sig@ == bytes@,
{
    let mut sig: [u8; 64] = [0u8; 64];
    let mut i: usize = 0;
    while i < 64
        invariant
            i <= 64,
            bytes.len() == 64,
            forall|j: int| 0 <= j < i ==> sig@[j] == bytes@[j],
        decreases 64 - i,
    {
        sig[i] = bytes[i];
        i += 1;
    }
    assert(sig@ =~= bytes@);
    sig
}

/// What the signature check of a command comes to: the signature must have 64
/// bytes and verify on the message under the key.
pub open spec fn authenticates(key: Seq<u8>, message: Seq<u8>, signature: Seq<u8>) -> bool {
    signature.len() == 64 && signature_verifies(key, message, signature)
}

/// Checks a command's signature over the attested bytes against a stored key.
pub fn check_signature(key: &[u8; 32], message: &Vec<u8>, signature: &Vec<u8>) -> (ok: bool)
    ensures
        ok == authenticates(key@, message@, signature@),
{
    if signature.len() != 64 {
        return false;
    }
    let sig: [u8; 64] = signature_array(signature);
    ed25519_verify(key, message.as_slice(), &sig)
}

/// The public key of the signing key with that 32-byte seed, as
/// `verifying_key` of `ed25519_dalek::SigningKey` gives it.
pub uninterp spec fn public_key_of(seed: Seq<u8>) -> Seq<u8>;

/// The Ed25519 signature of `message` by the signing key with that seed, as
/// `sign` of `ed25519_dalek::SigningKey` computes it.
pub uninterp spec fn signature_of(seed: Seq<u8>, message: Seq<u8>) -> Seq<u8>;

/// Calls `verifying_key` of `ed25519_dalek::SigningKey`, on the key built
/// from the seed, and hands back the public key's 32 bytes. The result is a
/// function of the seed alone, which the contract records under the name
/// `public_key_of`; nothing more is claimed.
#[verifier::external_body]
pub(crate) fn derive_public_key(seed: &[u8; 32]) -> (key: [u8; 32])
    ensures
        key@ == public_key_of(seed@),
{
    SigningKey::from_bytes(seed).verifying_key().to_bytes()
}

/// Calls `sign` of `ed25519_dalek::SigningKey`, on the key built from the
/// seed, and hands back the signature's 64 bytes. Signing draws on no
/// randomness: the result is a function of the seed and the message, which
/// the contract records under the name `signature_of`; nothing more is
/// claimed.
#[verifier::external_body]
pub(crate) fn ed25519_sign(seed: &[u8; 32], message: &[u8]) -> (signature: [u8; 64])
    ensures
        signature@ == signature_of(seed@, message@),
{
    SigningKey::from_bytes(seed).sign(message).to_bytes()
}

/// The seed of a player's signing key: the SHA-256 digest of their random
/// string's UTF-8 bytes.
pub open spec fn seed_of(random: Seq<char>) -> Seq<u8> {
    sha256(encode_utf8(random))
}

/// Derives a player's key pair from their random string: the seed of the
/// signing key, and the public key.
pub fn generate_keys_from_random(random: &str) -> (keys: ([u8; 32], [u8; 32]))
    ensures
        keys.0@ == seed_of(random@),
        keys.1@ == public_key_of(seed_of(random@)),
{
    let bytes: Vec<u8> = random.as_bytes_vec();
    let seed: [u8; 32] = sha256_digest(bytes.as_slice());
    let key: [u8; 32] = derive_public_key(&seed);
    (seed, key)
}

/// Copies the bytes of an array of 64 into a vector.
pub fn signature_bytes(signature: &[u8; 64]) -> (bytes: Vec<u8>)
    ensures
        bytes@ == signature@,
{
    let mut bytes: Vec<u8> = Vec::new();
    let mut i: usize = 0;
    while i < 64
        invariant
            i <= 64,
            bytes@ == signature@.take(i as int),
        decreases 64 - i,
    {
        bytes.push(signature[i]);
        i += 1;
        assert(bytes@ =~= signature@.take(i as int));
    }
    assert(signature@.take(64) =~= signature@);
    bytes
}

/// Signs attested bytes with the key that a player's random string gives.
pub fn sign_with_random(random: &str, message: &Vec<u8>) -> (signature: Vec<u8>)
    ensures
        signature@ == signature_of(seed_of(random@), message@),
{
    let keys: ([u8; 32], [u8; 32]) = generate_keys_from_random(random);
    let signature: [u8; 64] = ed25519_sign(&keys.0, message.as_slice());
    signature_bytes(&signature)
}

} // verus!
