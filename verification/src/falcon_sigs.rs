//! Falcon-512 block signatures: key pairs, attached signatures over 32-byte
//! block hashes, and node identifiers derived from public keys.
//!
//! Keys are held as their byte encodings: 897 bytes for a public key, 1281 for a
//! secret key.
use vstd::prelude::*;
use pqcrypto_falcon::falcon512;
use pqcrypto_traits::sign::{PublicKey as PqPublicKey, SecretKey as PqSecretKey, SignedMessage as PqSignedMessage};
use crate::chain_core::{shake256_bytes, Hash32};
use crate::hashing::keccak_shake256;
use crate::bytes::{append_bytes, copy_bytes};
use crate::tags::{node_id_label, node_id_label_bytes};

verus! {

/// Bytes of a Falcon-512 public key.
pub const FALCON_PK_BYTES: usize = 897;
/// Bytes of a Falcon-512 secret key.
pub const FALCON_SK_BYTES: usize = 1281;

/// The message carried by the attached Falcon-512 signature `sm` under public key
/// `pk`, or `None` where the signature does not verify.
pub uninterp spec fn falcon_open(sm: Seq<u8>, pk: Seq<u8>) -> Option<Seq<u8>>;

/// Whether `pk` is the Falcon-512 public key that belongs to the secret key `sk`.
pub uninterp spec fn falcon_key_match(pk: Seq<u8>, sk: Seq<u8>) -> bool;

/// Whether `sm` is an attached Falcon-512 signature of `msg` made with the secret key
/// `sk`. Signing is randomized, so many signed messages stand in this relation to
/// one message and key.
pub uninterp spec fn falcon_signed(sm: Seq<u8>, msg: Seq<u8>, sk: Seq<u8>) -> bool;

/// `falcon512::keypair`, with both keys taken as bytes.
/// Trusted: a fresh random key pair, the public key of 897 bytes belonging to the
/// secret key of 1281. Which pair comes out is not stated.
#[verifier::external_body]
pub(crate) fn pqc_keypair() -> (r: (Vec<u8>, Vec<u8>))
    ensures
        r.0@.len() == FALCON_PK_BYTES,
        r.1@.len() == FALCON_SK_BYTES,
        falcon_key_match(r.0@, r.1@),
{
    let (pk, sk) = falcon512::keypair();
    (pk.as_bytes().to_vec(), sk.as_bytes().to_vec())
}

/// `falcon512::PublicKey::from_bytes`.
/// Trusted: it accepts exactly the byte strings of 897 bytes.
#[verifier::external_body]
pub(crate) fn pqc_pk_parses(bytes: &[u8]) -> (b: bool)
    ensures
        b == (bytes@.len() == FALCON_PK_BYTES),
{
    falcon512::PublicKey::from_bytes(bytes).is_ok()
}

/// `falcon512::SecretKey::from_bytes`.
/// Trusted: it accepts exactly the byte strings of 1281 bytes.
#[verifier::external_body]
pub(crate) fn pqc_sk_parses(bytes: &[u8]) -> (b: bool)
    ensures
        b == (bytes@.len() == FALCON_SK_BYTES),
{
    falcon512::SecretKey::from_bytes(bytes).is_ok()
}

/// `falcon512::sign` with the secret key given as its bytes.
/// Trusted: the result is an attached signature of the message under the key, longer
/// than the message (it carries a length, a nonce, the message and the signature),
/// and it opens to the message under the public key that belongs to the secret key
/// (Falcon-512's correctness); the signature is randomized, so which one comes out is
/// not stated.
#[verifier::external_body]
pub(crate) fn pqc_sign(msg: &[u8], sk: &[u8]) -> (sm: Vec<u8>)
    requires
        sk@.len() == FALCON_SK_BYTES,
    ensures
        sm@.len() > msg@.len(),
        falcon_signed(sm@, msg@, sk@),
        forall|pk: Seq<u8>| falcon_key_match(pk, sk@) ==> #[trigger] falcon_open(sm@, pk) == Some(msg@),
{
    let key = falcon512::SecretKey::from_bytes(sk).unwrap();
    falcon512::sign(msg, &key).as_bytes().to_vec()
}

/// `falcon512::SignedMessage::from_bytes` and `falcon512::open` with the public key
/// given as its bytes.
/// Trusted: the result is the named opening of `sm` under `pk`; a signature made with
/// the secret key that `pk` belongs to opens to the message it signed (Falcon-512's
/// correctness).
#[verifier::external_body]
pub(crate) fn pqc_open(sm: &[u8], pk: &[u8]) -> (r: Option<Vec<u8>>)
    requires
        pk@.len() == FALCON_PK_BYTES,
    ensures
        r is Some <==> falcon_open(sm@, pk@) is Some,
        r matches Some(m) ==> falcon_open(sm@, pk@) == Some(m@),
        forall|msg: Seq<u8>, sk: Seq<u8>|
            falcon_key_match(pk@, sk) && #[trigger] falcon_signed(sm@, msg, sk) ==> r is Some && r.unwrap()@ == msg,
{
    let key = falcon512::PublicKey::from_bytes(pk).unwrap();
    let signed = falcon512::SignedMessage::from_bytes(sm).unwrap();
    falcon512::open(&signed, &key).ok()
}

/// A Falcon-512 public key.
#[derive(Clone, Debug)]
pub struct FalconPublicKey {
    bytes: Vec<u8>,
}

/// A Falcon-512 secret key.
#[derive(Clone)]
pub struct FalconSecretKey {
    bytes: Vec<u8>,
}

impl FalconPublicKey {
    /// The key's encoding.
    pub closed spec fn spec_bytes(&self) -> Seq<u8> {
        self.bytes@
    }

    /// The encoding has the public-key length.
    pub open spec fn wf(&self) -> bool {
        self.spec_bytes().len() == FALCON_PK_BYTES
    }

    /// The key's encoding.
    pub fn as_bytes(&self) -> (b: &[u8])
        ensures
            b@ == self.spec_bytes(),
    {
        self.bytes.as_slice()
    }
}

impl FalconSecretKey {
    /// The key's encoding.
    pub closed spec fn spec_bytes(&self) -> Seq<u8> {
        self.bytes@
    }

    /// The encoding has the secret-key length.
    pub open spec fn wf(&self) -> bool {
        self.spec_bytes().len() == FALCON_SK_BYTES
    }

    /// The key's encoding.
    pub fn as_bytes(&self) -> (b: &[u8])
        ensures
            b@ == self.spec_bytes(),
    {
        self.bytes.as_slice()
    }
}

/// An attached block signature: the block hash followed by its Falcon signature.
#[derive(Clone, Debug)]
pub struct BlockSignature {
    pub signed_message_bytes: Vec<u8>,
}

/// Why a key import or a block verification failed.
#[derive(Clone, Copy, Debug, PartialEq, Eq)]
pub enum FalconSigError {
    /// The bytes are not a public key.
    InvalidPublicKey,
    /// The bytes are not a secret key.
    InvalidSecretKey,
    /// The signature does not verify under the key.
    VerificationFailed,
    /// The signed message is not 32 bytes long.
    LengthMismatch,
    /// The signed message is another block's hash.
    HashMismatch,
}

/// A fresh random key pair: the public key belongs to the secret key.
pub fn falcon_keypair() -> (r: (FalconPublicKey, FalconSecretKey))
    ensures
        r.0.wf(),
        r.1.wf(),
        falcon_key_match(r.0.spec_bytes(), r.1.spec_bytes()),
{
    let (pk, sk) = pqc_keypair();
    (FalconPublicKey { bytes: pk }, FalconSecretKey { bytes: sk })
}

/// A key pair for `seed` under `domain`. Key generation from a seed is not available,
/// so this draws a fresh random pair, as [`falcon_keypair`] does.
pub fn falcon_keypair_from_seed(seed: &[u8; 32], domain: &[u8]) -> (r: (FalconPublicKey, FalconSecretKey))
    ensures
        r.0.wf(),
        r.1.wf(),
        falcon_key_match(r.0.spec_bytes(), r.1.spec_bytes()),
{
    falcon_keypair()
}

/// Imports a public key from its encoding.
pub fn falcon_pk_from_bytes(bytes: &[u8]) -> (r: Result<FalconPublicKey, FalconSigError>)
    ensures
        bytes@.len() == FALCON_PK_BYTES ==> (r matches Ok(pk) && pk.spec_bytes() == bytes@),
        bytes@.len() != FALCON_PK_BYTES ==> r == Err::<FalconPublicKey, FalconSigError>(FalconSigError::InvalidPublicKey),
{
    if pqc_pk_parses(bytes) {
        Ok(FalconPublicKey { bytes: copy_bytes(bytes) })
    } else {
        Err(FalconSigError::InvalidPublicKey)
    }
}

/// Imports a secret key from its encoding.
pub fn falcon_sk_from_bytes(bytes: &[u8]) -> (r: Result<FalconSecretKey, FalconSigError>)
    ensures
        bytes@.len() == FALCON_SK_BYTES ==> (r matches Ok(sk) && sk.spec_bytes() == bytes@),
        bytes@.len() != FALCON_SK_BYTES ==> r == Err::<FalconSecretKey, FalconSigError>(FalconSigError::InvalidSecretKey),
{
    if pqc_sk_parses(bytes) {
        Ok(FalconSecretKey { bytes: copy_bytes(bytes) })
    } else {
        Err(FalconSigError::InvalidSecretKey)
    }
}

/// The encoding of a public key.
pub fn falcon_pk_to_bytes(pk: &FalconPublicKey) -> (b: &[u8])
    ensures
        b@ == pk.spec_bytes(),
{
    pk.as_bytes()
}

/// A copy of the encoding of a secret key.
pub fn falcon_sk_to_bytes(sk: &FalconSecretKey) -> (b: Vec<u8>)
    ensures
        b@ == sk.spec_bytes(),
{
    copy_bytes(sk.as_bytes())
}

/// Signs a block hash: the result is an attached signature of the hash made with the
/// key.
pub fn falcon_sign_block(block_hash: &Hash32, secret_key: &FalconSecretKey) -> (s: BlockSignature)
    requires
        secret_key.wf(),
    ensures
        falcon_signed(s.signed_message_bytes@, block_hash@, secret_key.spec_bytes()),
        s.signed_message_bytes@.len() > 32,
{
    let sm = pqc_sign(block_hash, secret_key.as_bytes());
    BlockSignature { signed_message_bytes: sm }
}

/// Verifies a block signature: it must open under the key to exactly `block_hash`.
pub fn falcon_verify_block(
    block_hash: &Hash32,
    signature: &BlockSignature,
    public_key: &FalconPublicKey,
) -> (r: Result<(), FalconSigError>)
    requires
        public_key.wf(),
    ensures
        ({
            let opened = falcon_open(signature.signed_message_bytes@, public_key.spec_bytes());
            &&& opened is None ==> r == Err::<(), FalconSigError>(FalconSigError::VerificationFailed)
            &&& (opened matches Some(m) && m.len() != 32) ==> r == Err::<(), FalconSigError>(
                FalconSigError::LengthMismatch,
            )
            &&& (opened matches Some(m) && m.len() == 32 && m != block_hash@) ==> r == Err::<(), FalconSigError>(
                FalconSigError::HashMismatch,
            )
            &&& r is Ok <==> opened == Some(block_hash@)
        }),
        (exists|sk: Seq<u8>|
            falcon_key_match(public_key.spec_bytes(), sk) && #[trigger] falcon_signed(
                signature.signed_message_bytes@,
                block_hash@,
                sk,
            )) ==> r is Ok,
{
    let recovered = match pqc_open(signature.signed_message_bytes.as_slice(), public_key.as_bytes()) {
        Some(m) => m,
        None => return Err(FalconSigError::VerificationFailed),
    };
    proof {
        if exists|sk: Seq<u8>|
            falcon_key_match(public_key.spec_bytes(), sk) && #[trigger] falcon_signed(
                signature.signed_message_bytes@,
                block_hash@,
                sk,
            ) {
            let sk = choose|sk: Seq<u8>|
                falcon_key_match(public_key.spec_bytes(), sk) && #[trigger] falcon_signed(
                    signature.signed_message_bytes@,
                    block_hash@,
                    sk,
                );
            assert(falcon_signed(signature.signed_message_bytes@, block_hash@, sk));
            assert(recovered@ == block_hash@);
        }
    }
    if recovered.len() != 32 {
        return Err(FalconSigError::LengthMismatch);
    }
    let mut i: usize = 0;
    while i < 32
        invariant
            (exists|sk: Seq<u8>|
                falcon_key_match(public_key.spec_bytes(), sk) && #[trigger] falcon_signed(
                    signature.signed_message_bytes@,
                    block_hash@,
                    sk,
                )) ==> recovered@ == block_hash@,
            recovered@.len() == 32,
            falcon_open(signature.signed_message_bytes@, public_key.spec_bytes()) == Some(recovered@),
            i <= 32,
            forall|j: int| 0 <= j < i ==> recovered@[j] == block_hash@[j],
        decreases 32 - i,
    {
        if recovered[i] != block_hash[i] {
            proof {
                assert(recovered@[i as int] != block_hash@[i as int]);
                assert(recovered@ != block_hash@);
            }
            return Err(FalconSigError::HashMismatch);
        }
        i = i + 1;
    }
    assert(recovered@ =~= block_hash@);
    Ok(())
}

/// The node identifier of a public key: SHAKE256 of the label `TT_NODE_ID` and the
/// key's encoding, 32 bytes.
pub fn derive_node_id(falcon_pk: &FalconPublicKey) -> (id: Hash32)
    ensures
        id@ == keccak_shake256(node_id_label() + falcon_pk.spec_bytes(), 32),
{
    let mut buf = node_id_label_bytes();
    append_bytes(&mut buf, falcon_pk.as_bytes());
    shake256_bytes(buf.as_slice())
}

/// Whether `bytes` is a public-key encoding.
pub fn is_valid_falcon_pk(bytes: &[u8]) -> (b: bool)
    ensures
        b == (bytes@.len() == FALCON_PK_BYTES),
{
    pqc_pk_parses(bytes)
}

/// The expected size of an attached block signature.
pub fn falcon_signature_size_estimate() -> (n: usize)
    ensures
        n == 698,
{
    698
}

/// The size of a public key.
pub fn falcon_pk_size() -> (n: usize)
    ensures
        n == FALCON_PK_BYTES,
{
    FALCON_PK_BYTES
}

/// The size of a secret key.
pub fn falcon_sk_size() -> (n: usize)
    ensures
        n == FALCON_SK_BYTES,
{
    FALCON_SK_BYTES
}

} // verus!
