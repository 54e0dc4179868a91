//! The cryptographic primitives the transaction record consumes as black
//! boxes: a 32-byte digest, ECDSA signing over the secp256k1 curve, and the
//! matching verification. Each is reached through one trusted wrapper; the
//! digest, signature, and derived public key are named, uninterpreted
//! functions of the bytes handed in.

use vstd::prelude::*;

verus! {

/// A 32-byte digest of a byte string.
pub type SaitoHash = [u8; 32];

/// A 32-byte private key.
pub type SaitoPrivateKey = [u8; 32];

/// A 33-byte compressed public key.
pub type SaitoPublicKey = [u8; 33];

/// A 64-byte compact signature.
pub type SaitoSignature = [u8; 64];

/// The 32-byte digest of `data`: what `sha2::Sha256::digest` returns.
pub uninterp spec fn spec_hash(data: Seq<u8>) -> Seq<u8>;

/// Whether `secret` is a usable private key: what
/// `secp256k1::SecretKey::from_secret_bytes` accepts.
pub uninterp spec fn spec_secret_key_ok(secret: Seq<u8>) -> bool;

/// The compressed public key derived from `secret`: what
/// `secp256k1::PublicKey::from_secret_key` serializes to.
pub uninterp spec fn spec_public_key_of(secret: Seq<u8>) -> Seq<u8>;

/// The compact signature over `digest` by `secret`: what `secp256k1::ecdsa::sign`
/// (a deterministic, RFC 6979 signer) serializes to.
pub uninterp spec fn spec_sign(digest: Seq<u8>, secret: Seq<u8>) -> Seq<u8>;

/// Whether `sig` is a signature over `digest` by the holder of `publickey`:
/// what `secp256k1::ecdsa::verify` accepts.
pub uninterp spec fn spec_verify_ok(digest: Seq<u8>, sig: Seq<u8>, publickey: Seq<u8>) -> bool;

/// Relies on `sha2::Sha256::digest`: the 32-byte digest depends on the input
/// bytes alone.
#[verifier::external_body]
pub fn hash(data: &Vec<u8>) -> (r: SaitoHash)
    ensures
        r@ == spec_hash(data@),
{
    let digest = <sha2::Sha256 as sha2::Digest>::digest(data.as_slice());
    digest.into()
}

/// Relies on `secp256k1::SecretKey::from_secret_bytes`: it accepts a 32-byte
/// array exactly when it is a usable private key (non-zero and below the
/// curve order), a function of the bytes alone.
#[verifier::external_body]
pub fn secret_key_valid(secret: &SaitoPrivateKey) -> (r: bool)
    ensures
        r == spec_secret_key_ok(secret@),
{
    secp256k1::SecretKey::from_secret_bytes(*secret).is_ok()
}

/// Relies on `secp256k1::PublicKey::from_secret_key` and
/// `PublicKey::serialize`: the 33-byte compressed public key is a function of
/// the private key alone.
#[verifier::external_body]
pub fn derive_public_key(secret: &SaitoPrivateKey) -> (r: SaitoPublicKey)
    requires
        spec_secret_key_ok(secret@),
    ensures
        r@ == spec_public_key_of(secret@),
{
    let sk = secp256k1::SecretKey::from_secret_bytes(*secret).expect("usable private key");
    sk.public_key().serialize()
}

/// Relies on `secp256k1::ecdsa::sign` and `Signature::serialize_compact`:
/// signing is deterministic (RFC 6979), and what it signs verifies under the
/// public key derived from the same private key.
#[verifier::external_body]
pub fn sign(digest: &SaitoHash, secret: &SaitoPrivateKey) -> (r: SaitoSignature)
    requires
        spec_secret_key_ok(secret@),
    ensures
        r@ == spec_sign(digest@, secret@),
        spec_verify_ok(digest@, r@, spec_public_key_of(secret@)),
{
    let sk = secp256k1::SecretKey::from_secret_bytes(*secret).expect("usable private key");
    let msg = secp256k1::Message::from_digest(*digest);
    let sig = secp256k1::ecdsa::sign(msg, &sk);
    sig.serialize_compact()
}

/// Relies on `secp256k1::ecdsa::verify` (with `Signature::from_compact` and
/// `PublicKey::from_slice`): acceptance is a function of digest, signature,
/// and key bytes alone; malformed signature or key bytes are rejected.
#[verifier::external_body]
pub fn verify(digest: &SaitoHash, sig: &SaitoSignature, publickey: &SaitoPublicKey) -> (r: bool)
    ensures
        r == spec_verify_ok(digest@, sig@, publickey@),
{
    let parsed_sig = match secp256k1::ecdsa::Signature::from_compact(sig) {
        Ok(s) => s,
        Err(_) => return false,
    };
    let parsed_key = match secp256k1::PublicKey::from_slice(publickey) {
        Ok(k) => k,
        Err(_) => return false,
    };
    let msg = secp256k1::Message::from_digest(*digest);
    secp256k1::ecdsa::verify(&parsed_sig, msg, &parsed_key).is_ok()
}

/// Derive the public key for a private key after checking that the key is
/// usable; `None` exactly when it is not.
pub fn try_derive_public_key(secret: &SaitoPrivateKey) -> (r: Option<SaitoPublicKey>)
    ensures
        r is Some <==> spec_secret_key_ok(secret@),
        r matches Some(k) ==> k@ == spec_public_key_of(secret@),
{
    if secret_key_valid(secret) {
        Some(derive_public_key(secret))
    } else {
        None
    }
}

} // verus!
