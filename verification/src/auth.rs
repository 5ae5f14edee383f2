//! Signing and verifying administrative commands.
//!
//! A command is bound to its issuer by an RSA signature over the exact UTF-8
//! bytes of the command text, under a SHA-256 digest with the standard
//! PKCS#1 padding. Signing needs the node's private key in PEM form;
//! verification needs the matching public key. Both key and signature are
//! plain byte strings here: reading them from disk is the caller's business.

use vstd::prelude::*;
use vstd::string::StringSliceAdditionalSpecFns;

verus! {

/// Whether these bytes are a well-formed PEM-encoded RSA private key, as
/// `openssl` accepts it for signing.
pub uninterp spec fn rsa_private_key_ok(key_pem: Seq<u8>) -> bool;

/// The RSA-SHA256 signature that the given private key produces over the
/// given message. The scheme is deterministic: the signature is a function
/// of key and message alone.
pub uninterp spec fn rsa_sha256_signature(key_pem: Seq<u8>, message: Seq<u8>) -> Seq<u8>;

/// Whether RSA-SHA256 verification under the given PEM-encoded public key
/// accepts the given signature for the given message. Every failure mode —
/// malformed key, malformed signature, digest mismatch — is `false`.
pub uninterp spec fn rsa_sha256_accepts(
    key_pem: Seq<u8>,
    message: Seq<u8>,
    signature: Seq<u8>,
) -> bool;

/// Relies on openssl's `Rsa::private_key_from_pem`, `PKey::from_rsa` and
/// `Signer` with `MessageDigest::sha256()`: parsing succeeds or fails on the
/// key bytes alone, and the signature produced is a function of the key and
/// the message alone (RSA with PKCS#1 padding signs deterministically).
#[verifier::external_body]
fn rsa_sha256_sign(key_pem: &[u8], message: &[u8]) -> (r: Option<Vec<u8>>)
    ensures
        r is Some <==> rsa_private_key_ok(key_pem@),
        r matches Some(sig) ==> sig@ == rsa_sha256_signature(key_pem@, message@),
{
    let rsa = openssl::rsa::Rsa::private_key_from_pem(key_pem).ok()?;
    let pkey = openssl::pkey::PKey::from_rsa(rsa).ok()?;
    let mut signer = openssl::sign::Signer::new(openssl::hash::MessageDigest::sha256(), &pkey)
        .ok()?;
    signer.update(message).ok()?;
    signer.sign_to_vec().ok()
}

/// Relies on openssl's `Rsa::public_key_from_pem`, `PKey::from_rsa` and
/// `Verifier` with `MessageDigest::sha256()`: acceptance is a function of
/// key, message and signature alone, and every failure — unparsable key,
/// malformed signature, digest mismatch — comes back as `false`.
#[verifier::external_body]
fn rsa_sha256_verify(key_pem: &[u8], message: &[u8], signature: &[u8]) -> (r: bool)
    ensures
        r == rsa_sha256_accepts(key_pem@, message@, signature@),
{
    let rsa = match openssl::rsa::Rsa::public_key_from_pem(key_pem) { Ok(k) => k, Err(_) => return false };
    let pkey = match openssl::pkey::PKey::from_rsa(rsa) { Ok(k) => k, Err(_) => return false };
    let digest = openssl::hash::MessageDigest::sha256();
    let mut v = match openssl::sign::Verifier::new(digest, &pkey) { Ok(v) => v, Err(_) => return false };
    if v.update(message).is_err() { return false; }
    v.verify(signature).unwrap_or(false)
}

/// Why a command could not be signed.
#[derive(Clone, Copy, PartialEq, Eq, Structural, Debug)]
pub enum AuthError {
    /// The key bytes are not a usable PEM-encoded RSA private key. For a
    /// node that must issue authenticated commands this is fatal: the
    /// caller aborts rather than carrying on unsigned.
    InvalidPrivateKey,
}

/// Sign a command with the node's private key: the signature covers the
/// exact UTF-8 bytes of the command text. Succeeds if and only if the key
/// bytes are a usable RSA private key.
pub fn sign_command(key_pem: &[u8], command: &str) -> (r: Result<Vec<u8>, AuthError>)
    ensures
        r is Ok <==> rsa_private_key_ok(key_pem@),
        r matches Ok(sig) ==> sig@ == rsa_sha256_signature(key_pem@, command.spec_bytes()),
        r matches Err(e) ==> e == AuthError::InvalidPrivateKey,
{
    match rsa_sha256_sign(key_pem, command.as_bytes()) {
        Some(sig) => Ok(sig),
        None => Err(AuthError::InvalidPrivateKey),
    }
}

/// Check a command's signature against the given public key: true exactly
/// when RSA-SHA256 verification accepts the signature for the exact UTF-8
/// bytes of the command text. Verification never fails with an error; a bad
/// key, a bad signature or a tampered command all collapse to `false`.
pub fn verify_signature(key_pem: &[u8], command: &str, signature: &[u8]) -> (r: bool)
    ensures
        r == rsa_sha256_accepts(key_pem@, command.spec_bytes(), signature@),
{
    rsa_sha256_verify(key_pem, command.as_bytes(), signature)
}

} // verus!
