//! Signature policy.
use vstd::prelude::*;

use crate::message::MAVLinkV2MessageRaw;

verus! {

/// Decides whether the signature of a MAVLink 2 message is valid.
///
/// The decision may depend on a key and on what was decided before.
pub trait SignatureVerifier {
    /// Whether the signature of `message` is valid.
    fn verify_signature(&self, message: &MAVLinkV2MessageRaw) -> bool;
}

/// What a reader demands of signatures.
#[derive(Clone, Copy, Debug, PartialEq, Eq, Structural)]
pub struct SigningConfig {
    /// Whether messages that cannot be signed are passed on.
    pub allow_unsigned: bool,
}

/// A signature policy together with what verifies signatures.
pub struct SigningData<V> {
    /// What is demanded of signatures.
    pub config: SigningConfig,
    /// Verifies signatures.
    pub verifier: V,
}

impl<V: SignatureVerifier> SigningData<V> {
    /// Whether the signature of `message` is valid.
    pub fn verify_signature(&self, message: &MAVLinkV2MessageRaw) -> (valid: bool)
        ensures
            call_ensures(V::verify_signature, (&self.verifier, message), valid),
    {
        self.verifier.verify_signature(message)
    }
}

/// Stands for the verifier of a reader that does not look at signatures.
#[derive(Clone, Copy, Debug)]
pub struct NoSigning;

impl SignatureVerifier for NoSigning {
    fn verify_signature(&self, message: &MAVLinkV2MessageRaw) -> (valid: bool)
        ensures
            valid,
    {
        true
    }
}

} // verus!
