//! Falcon-512 operations behind one interface: key generation, attached
//! signatures and opening. The default implementation draws its randomness from
//! the operating system; the seeded one derives its key and signing seeds from a
//! master seed.
use vstd::prelude::*;
use crate::crypto::kmac::{kmac256_derive_key, spec_kmac256_derive_key};
use crate::falcon_sigs::{
    falcon_key_match, falcon_keypair, falcon_open, falcon_signed, pqc_open, pqc_sign, FalconPublicKey, FalconSecretKey,
};
use crate::tags::{falcon_keygen, falcon_keygen_bytes, falcon_sign_coins, falcon_sign_coins_bytes};

verus! {

/// Falcon-512 key generation, signing and opening.
pub trait FalconOps {
    /// A fresh key pair: the public key belongs to the secret key.
    fn keypair(&self) -> (r: (FalconPublicKey, FalconSecretKey))
        ensures
            r.0.wf(),
            r.1.wf(),
            falcon_key_match(r.0.spec_bytes(), r.1.spec_bytes()),
    ;

    /// `msg` with an attached signature under `sk`.
    fn sign(&self, msg: &[u8], sk: &FalconSecretKey) -> (sm: Vec<u8>)
        requires
            sk.wf(),
        ensures
            falcon_signed(sm@, msg@, sk.spec_bytes()),
    ;

    /// The message of the signed message `signed_msg` if it verifies under `pk`.
    fn verify(&self, signed_msg: &[u8], pk: &FalconPublicKey) -> (r: Option<Vec<u8>>)
        requires
            pk.wf(),
        ensures
            r is Some <==> falcon_open(signed_msg@, pk.spec_bytes()) is Some,
            r matches Some(m) ==> falcon_open(signed_msg@, pk.spec_bytes()) == Some(m@),
            forall|msg: Seq<u8>, sk: Seq<u8>|
                falcon_key_match(pk.spec_bytes(), sk) && #[trigger] falcon_signed(signed_msg@, msg, sk) ==> r is Some
                    && r.unwrap()@ == msg,
    ;
}

/// Falcon-512 with randomness from the operating system.
pub struct DefaultFalconOps;

impl FalconOps for DefaultFalconOps {
    fn keypair(&self) -> (r: (FalconPublicKey, FalconSecretKey)) {
        falcon_keypair()
    }

    fn sign(&self, msg: &[u8], sk: &FalconSecretKey) -> (sm: Vec<u8>) {
        pqc_sign(msg, sk.as_bytes())
    }

    fn verify(&self, signed_msg: &[u8], pk: &FalconPublicKey) -> (r: Option<Vec<u8>>) {
        pqc_open(signed_msg, pk.as_bytes())
    }
}

/// The default Falcon operations.
pub fn default_falcon_ops() -> (ops: DefaultFalconOps) {
    DefaultFalconOps
}

/// Falcon-512 whose key and signing seeds are derived from a master seed.
pub struct SeededFalconOps {
    seed: [u8; 32],
}

impl SeededFalconOps {
    /// The master seed.
    pub closed spec fn spec_seed(&self) -> [u8; 32] {
        self.seed
    }

    /// Seeded operations under `seed`.
    pub fn new(seed: [u8; 32]) -> (s: Self)
        ensures
            s.spec_seed() == seed,
    {
        Self { seed }
    }

    /// The key-generation seed for `personalization`: a key derived from the master
    /// seed under the label `FALCON/KEYGEN`.
    pub fn derive_keyseed(&self, personalization: &[u8]) -> (k: [u8; 32])
        ensures
            k@ == spec_kmac256_derive_key(self.spec_seed()@, falcon_keygen(), personalization@),
    {
        let label = falcon_keygen_bytes();
        kmac256_derive_key(&self.seed, label.as_slice(), personalization)
    }

    /// The signing coins for `msg` under `sk`: a key derived from the first 32 bytes
    /// of the secret key under the label `FALCON/SIGN/COINS`.
    pub fn derive_coins(&self, sk: &FalconSecretKey, msg: &[u8]) -> (c: [u8; 32])
        ensures
            c@ == spec_kmac256_derive_key(sk.spec_bytes().take(prf_len(sk.spec_bytes().len())), falcon_sign_coins(), msg@),
    {
        let sk_bytes = sk.as_bytes();
        let n: usize = if sk_bytes.len() < 32 { sk_bytes.len() } else { 32 };
        let prf = vstd::slice::slice_subrange(sk_bytes, 0, n);
        let label = falcon_sign_coins_bytes();
        kmac256_derive_key(prf, label.as_slice(), msg)
    }
}

/// How many leading bytes of a secret key of `len` bytes key the signing coins: 32,
/// or all of a shorter key.
pub open spec fn prf_len(len: nat) -> int {
    if len < 32 { len as int } else { 32 }
}

} // verus!
