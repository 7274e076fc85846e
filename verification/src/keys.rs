//! Keys, signatures and identifiers.

use base64::Engine;
use ed25519_dalek::{Signer, Verifier};
use vstd::prelude::*;
use crate::text::opt_text;

verus! {

/// The bytes that a text encodes in standard base64, with padding.
pub uninterp spec fn base64_bytes(s: Seq<char>) -> Option<Seq<u8>>;

/// Some bytes in standard base64, with padding.
pub uninterp spec fn base64_text(b: Seq<u8>) -> Seq<char>;

pub open spec fn opt_vec(b: Option<Vec<u8>>) -> Option<Seq<u8>> {
    match b {
        Some(v) => Some(v@),
        None => None,
    }
}

/// `Engine::decode` of the crate `base64`, with the engine `STANDARD`.
#[verifier::external_body]
pub(crate) fn base64_decode(s: &str) -> (r: Option<Vec<u8>>)
    ensures
        opt_vec(r) == base64_bytes(s@),
{
    match base64::engine::general_purpose::STANDARD.decode(s) {
        Ok(b) => Some(b),
        Err(_) => None,
    }
}

/// `Engine::encode` of the crate `base64`, with the engine `STANDARD`. What it writes, `decode`
/// reads back.
#[verifier::external_body]
pub(crate) fn base64_encode(b: &[u8]) -> (r: String)
    requires
        b@.len() < 0x1000_0000,
    ensures
        r@ == base64_text(b@),
        base64_bytes(r@) == Some(b@),
{
    base64::engine::general_purpose::STANDARD.encode(b)
}

/// The identifier that a text denotes, in its usual form: hexadecimal digits in lower case, with
/// hyphens between their groups.
pub uninterp spec fn uuid_text(s: Seq<char>) -> Option<Seq<char>>;

/// An identifier in its usual form.
pub open spec fn is_uuid(s: Seq<char>) -> bool {
    uuid_text(s) == Some(s) && !s.contains(':')
}

/// `Uuid::from_str` of the crate `uuid`, and `Uuid::to_string` of what it reads. The usual form holds
/// no colon and reads back as itself.
#[verifier::external_body]
pub(crate) fn uuid_parse(s: &str) -> (r: Option<String>)
    ensures
        opt_text(r) == uuid_text(s@),
        r matches Some(t) ==> uuid_text(t@) == Some(t@) && !t@.contains(':'),
{
    match s.parse::<uuid::Uuid>() {
        Ok(u) => Some(u.to_string()),
        Err(_) => None,
    }
}

/// `Uuid::new_v4` of the crate `uuid`: a random identifier in its usual form.
#[verifier::external_body]
fn uuid_new() -> (r: String)
    ensures
        is_uuid(r@),
{
    uuid::Uuid::new_v4().to_string()
}

/// A new identifier. Which one it is, chance decides.
pub fn new_id() -> (r: String)
    ensures
        is_uuid(r@),
{
    uuid_new()
}

/// Whether a signature of a message is good under an Ed25519 key.
pub uninterp spec fn ed25519_valid(key: Seq<u8>, message: Seq<u8>, signature: Seq<u8>) -> bool;

/// `VerifyingKey::from_bytes` and `VerifyingKey::verify` of the crate `ed25519_dalek`: whether the
/// bytes are a key, and the signature is good under it.
#[verifier::external_body]
pub(crate) fn ed25519_verify(key: &[u8; 32], message: &[u8], signature: &[u8; 64]) -> (r: bool)
    ensures
        r == ed25519_valid(key@, message@, signature@),
{
    match ed25519_dalek::VerifyingKey::from_bytes(key) {
        Ok(k) => k.verify(message, &ed25519_dalek::Signature::from_bytes(signature)).is_ok(),
        Err(_) => false,
    }
}

/// The signature of a message under an Ed25519 secret key.
pub uninterp spec fn ed25519_signature(secret: Seq<u8>, message: Seq<u8>) -> Seq<u8>;

/// The public key of an Ed25519 secret key.
pub uninterp spec fn ed25519_public(secret: Seq<u8>) -> Seq<u8>;

/// `SigningKey::sign` of the crate `ed25519_dalek`. The signature takes 64 bytes and is good under
/// the public key of the secret.
#[verifier::external_body]
pub(crate) fn ed25519_sign(secret: &[u8; 32], message: &[u8]) -> (r: Vec<u8>)
    ensures
        r@ == ed25519_signature(secret@, message@),
        r@.len() == 64,
        ed25519_valid(ed25519_public(secret@), message@, r@),
{
    ed25519_dalek::SigningKey::from_bytes(secret).sign(message).to_bytes().to_vec()
}

/// `SigningKey::verifying_key` of the crate `ed25519_dalek`: the public key of a secret key, which
/// takes 32 bytes.
#[verifier::external_body]
fn ed25519_verifying_key(secret: &[u8; 32]) -> (r: Vec<u8>)
    ensures
        r@ == ed25519_public(secret@),
        r@.len() == 32,
{
    ed25519_dalek::SigningKey::from_bytes(secret).verifying_key().to_bytes().to_vec()
}

/// The public key of a secret key.
pub fn public_key(secret: &[u8; 32]) -> (r: Vec<u8>)
    ensures
        r@ == ed25519_public(secret@),
        r@.len() == 32,
{
    ed25519_verifying_key(secret)
}

/// The Ed25519 key in an SSH signature: nothing where the text is no signature, and no key where it
/// was made with a key of another kind.
pub uninterp spec fn ssh_signature_key(pem: Seq<char>) -> Option<Option<Seq<u8>>>;

/// Whether an SSH signature of a message is good under the key that it names, for a namespace.
pub uninterp spec fn ssh_signature_verifies(
    pem: Seq<char>,
    namespace: Seq<char>,
    message: Seq<u8>,
) -> bool;

pub open spec fn ssh_key_view(k: Option<Option<Vec<u8>>>) -> Option<Option<Seq<u8>>> {
    match k {
        Some(Some(v)) => Some(Some(v@)),
        Some(None) => Some(None),
        None => None,
    }
}

/// `SshSig::from_str` and `SshSig::public_key` of the crate `ssh_key`. A key of the kind Ed25519
/// takes 32 bytes.
#[verifier::external_body]
pub(crate) fn ssh_key_of(pem: &str) -> (r: Option<Option<Vec<u8>>>)
    ensures
        ssh_key_view(r) == ssh_signature_key(pem@),
        r matches Some(Some(k)) ==> k@.len() == 32,
{
    match pem.parse::<ssh_key::SshSig>() {
        Ok(sig) => Some(match sig.public_key() {
            ssh_key::public::KeyData::Ed25519(ed) => Some(ed.0.to_vec()),
            _ => None,
        }),
        Err(_) => None,
    }
}

/// `PublicKey::verify` of the crate `ssh_key`, with the key that the signature names.
#[verifier::external_body]
pub(crate) fn ssh_verify(pem: &str, namespace: &str, message: &[u8]) -> (r: bool)
    ensures
        r == ssh_signature_verifies(pem@, namespace@, message@),
{
    match pem.parse::<ssh_key::SshSig>() {
        Ok(sig) => ssh_key::PublicKey::from(sig.public_key().clone()).verify(
            namespace,
            message,
            &sig,
        ).is_ok(),
        Err(_) => false,
    }
}

/// A value that may be missing says in contracts what it says where it is there.
pub proof fn law_missing_values_stay_missing(x: Vec<u8>)
    ensures
        opt_vec(Some(x)) == Some(x@),
        opt_vec(None) is None,
{
}

} // verus!
