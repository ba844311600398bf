//! Signing and verification with ed25519 keys.
use vstd::prelude::*;
use ed25519_dalek::Verifier;
use crate::codec::{encode_message, message_bytes};
use crate::message::{Message, SignedMessage};

verus! {

/// Whether `signature` is a valid ed25519 signature of `payload` under the
/// public key whose compressed bytes are `public_key`.
pub uninterp spec fn signature_valid(public_key: Seq<u8>, payload: Seq<u8>, signature: Seq<u8>) -> bool;

/// Relies on ed25519_dalek's `PublicKey::verify` (after `PublicKey::from_bytes`
/// and `Signature::from_bytes`): the verdict depends on the three byte
/// strings alone; bytes that are no key or no signature verify nothing.
#[verifier::external_body]
pub(crate) fn verify_signature(public_key: &[u8; 32], payload: &[u8], signature: &[u8]) -> (r: bool)
    ensures
        r == signature_valid(public_key@, payload@, signature@),
{
    match (ed25519_dalek::PublicKey::from_bytes(public_key), ed25519_dalek::Signature::from_bytes(signature)) {
        (Ok(key), Ok(sig)) => key.verify(payload, &sig).is_ok(),
        _ => false,
    }
}

/// The ed25519 signature of `payload` by the secret key `secret`.
pub uninterp spec fn ed25519_signature(secret: Seq<u8>, payload: Seq<u8>) -> Seq<u8>;

/// Relies on ed25519_dalek's `ExpandedSecretKey::sign`, with the public key
/// derived from the secret key (`PublicKey::from`), as a `Keypair` signs:
/// ed25519 signing is deterministic, so the signature depends on the secret
/// key and the payload alone, and its bytes (`Signature::to_bytes`) are 64.
/// `SecretKey::from_bytes` refuses only a length other than 32.
#[verifier::external_body]
pub(crate) fn sign_bytes(secret: &[u8; 32], payload: &[u8]) -> (r: Vec<u8>)
    ensures
        r@ == ed25519_signature(secret@, payload@),
        r@.len() == 64,
{
    match ed25519_dalek::SecretKey::from_bytes(secret) {
        Ok(key) => {
            let public = ed25519_dalek::PublicKey::from(&key);
            ed25519_dalek::ExpandedSecretKey::from(&key).sign(payload, &public).to_bytes().to_vec()
        },
        Err(_) => Vec::new(),
    }
}

impl Message {
    /// This message with the signature of the secret key `secret_key` over
    /// its canonical encoding.
    pub fn sign(self, secret_key: &[u8; 32]) -> (r: SignedMessage)
        ensures
            r.message@ == self@,
            r.signature@ == ed25519_signature(secret_key@, message_bytes(self@)),
            r.signature@.len() == 64,
    {
        let bytes = encode_message(&self);
        let signature = sign_bytes(secret_key, bytes.as_slice());
        SignedMessage { message: self, signature }
    }
}

/// Whether the signature of `signed` is valid for its message under
/// `public_key`.
pub open spec fn is_authentic(signed: SignedMessage, public_key: [u8; 32]) -> bool {
    signature_valid(public_key@, message_bytes(signed.message@), signed.signature@)
}

impl SignedMessage {
    /// Checks the signature against the relaying validator's public key.
    pub fn verify(&self, public_key: &[u8; 32]) -> (r: bool)
        ensures
            r == is_authentic(*self, *public_key),
    {
        let bytes = encode_message(&self.message);
        verify_signature(public_key, bytes.as_slice(), self.signature.as_slice())
    }
}

} // verus!
