//! The common interface of hint scanners, legacy and quantum-safe.
use vstd::prelude::*;
use crate::keysearch::{DecodedHint, HintPayloadV1};

verus! {

/// A recipient's public keys.
pub trait PublicKeys {
    /// The X25519 public key.
    fn x25519_public(&self) -> &[u8; 32];

    /// The ML-KEM public key, where the recipient has one.
    fn mlkem_public(&self) -> Option<&[u8]> {
        None
    }

    /// The Falcon public key, where the recipient has one.
    fn falcon_public(&self) -> Option<&[u8]> {
        None
    }
}

/// The outcome of scanning a hint.
#[derive(Debug, Clone)]
pub struct ScanResult {
    /// The decoded hint.
    pub decoded: DecodedHint,
    /// Whether the timestamp and epoch checks passed.
    pub fresh: bool,
    /// The kind of hint.
    pub hint_type: HintType,
}

/// The kind of hint encryption.
#[derive(Debug, Clone, Copy, PartialEq, Eq)]
pub enum HintType {
    /// X25519 with AES-GCM.
    Legacy,
    /// ML-KEM with X25519 and Falcon.
    QuantumSafe,
}

/// A hint scanner.
pub trait HintScanner {
    /// The hint it builds and scans.
    type Hint;

    /// Its error.
    type Error;

    /// Builds an encrypted hint for `recipient`, bound to `c_out`.
    fn build_hint(&self, recipient_x25519: &[u8; 32], c_out: &[u8; 32], payload: &HintPayloadV1) -> Result<Self::Hint, Self::Error>;

    /// Scans and decrypts `hint`; `None` where it is not for this scanner.
    fn scan_hint(&self, hint: &Self::Hint, c_out: &[u8; 32]) -> Option<ScanResult>;

    /// A 16-byte fingerprint of `hint` for a Bloom-filter pre-check.
    fn hint_fingerprint(hint: &Self::Hint, c_out: &[u8; 32]) -> [u8; 16];
}

} // verus!
