//! Ed25519 public keys and strict signature verification, through the
//! `ed25519_dalek` crate.

use vstd::prelude::*;

verus! {

/// Whether `ed25519_dalek::VerifyingKey::from_bytes` accepts these 32
/// bytes (they decompress to a curve point).
pub uninterp spec fn ed25519_key_accepted(bytes: Seq<u8>) -> bool;

/// Whether `ed25519_dalek::VerifyingKey::verify_strict`, on the key made
/// from `public_key`, accepts `signature` over `message`.
pub uninterp spec fn ed25519_strict_accepts(public_key: Seq<u8>, message: Seq<u8>, signature: Seq<u8>) -> bool;

/// `ed25519_dalek::VerifyingKey::from_bytes`, asked only whether it
/// succeeds. Claims that it does exactly where the named predicate holds of
/// the bytes; the decompression itself is not stated.
#[verifier::external_body]
fn ed25519_key_check(bytes: &[u8; 32]) -> (ok: bool)
    ensures
        ok == ed25519_key_accepted(bytes@),
{
    ed25519_dalek::VerifyingKey::from_bytes(bytes).is_ok()
}

/// `ed25519_dalek::VerifyingKey::verify_strict` on the key that
/// `VerifyingKey::from_bytes` makes of `public_key`, with the signature
/// bytes converted by `Signature::from_bytes` (which cannot fail). Claims
/// that the answer is the named strict-verification predicate of exactly
/// these key bytes, message and signature; the curve arithmetic is not
/// stated. The key bytes must be ones that decode.
#[verifier::external_body]
fn verify_strict_with_key_bytes(public_key: &[u8; 32], message: &[u8], signature: &[u8; 64]) -> (ok: bool)
    requires
        ed25519_key_accepted(public_key@),
    ensures
        ok == ed25519_strict_accepts(public_key@, message@, signature@),
{
    match ed25519_dalek::VerifyingKey::from_bytes(public_key) {
        Ok(key) => key.verify_strict(message, &ed25519_dalek::Signature::from_bytes(signature)).is_ok(),
        Err(_) => false,
    }
}

/// The 32 bytes of an ed25519 public key, always ones that decode to a
/// curve point.
pub struct Ed25519PublicKey {
    bytes: [u8; 32],
}

impl Ed25519PublicKey {
    #[verifier::type_invariant]
    spec fn decodes(self) -> bool {
        ed25519_key_accepted(self.bytes@)
    }
}

impl View for Ed25519PublicKey {
    type V = Seq<u8>;

    closed spec fn view(&self) -> Seq<u8> {
        self.bytes@
    }
}

impl Ed25519PublicKey {
    /// The key that `bytes` encode, if they encode one.
    pub fn from_bytes(bytes: &[u8; 32]) -> (res: Option<Ed25519PublicKey>)
        ensures
            res is Some == ed25519_key_accepted(bytes@),
            res matches Some(k) ==> k@ == bytes@,
    {
        if ed25519_key_check(bytes) {
            Some(Ed25519PublicKey { bytes: *bytes })
        } else {
            None
        }
    }

    /// Whether `signature` is this key's strict ed25519 signature over
    /// `message`.
    pub fn verify_strict(&self, message: &[u8], signature: &[u8; 64]) -> (ok: bool)
        ensures
            ok == ed25519_strict_accepts(self@, message@, signature@),
    {
        proof {
            use_type_invariant(self);
        }
        verify_strict_with_key_bytes(&self.bytes, message, signature)
    }
}

} // verus!
