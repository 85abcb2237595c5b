//! The cryptographic core of the post-quantum P2P channel: two session keys
//! derived from the key-exchange secret and the handshake transcript, and an
//! XChaCha20-Poly1305 channel with a separate key and a 64-bit nonce counter per
//! direction, so that no (key, nonce) pair is ever used twice.
use vstd::prelude::*;
use crate::bytes::le64;
use crate::crypto::aead::{sealable, xchacha_decrypt, xchacha_encrypt, xchacha_open, xchacha_seal, opens_to};
use crate::crypto::kmac::{kmac256_xof, spec_kmac256_xof};
use crate::tags::{p2p_session_v1, p2p_session_v1_bytes};

verus! {

/// The 32-byte hash of a handshake transcript.
pub type TranscriptHash = [u8; 32];

/// A symmetric session key.
#[derive(Clone)]
pub struct SessionKey(pub [u8; 32]);

impl SessionKey {
    /// The key bytes.
    pub fn as_bytes(&self) -> (b: &[u8; 32])
        ensures
            *b == self.0,
    {
        &self.0
    }
}

/// The 64 bytes of key material for a session.
pub open spec fn session_material(shared_secret: Seq<u8>, transcript: Seq<u8>) -> Seq<u8> {
    spec_kmac256_xof(shared_secret, p2p_session_v1(), transcript, 64)
}

/// The two session keys from the key-exchange secret and the transcript hash:
/// client-to-server first, server-to-client second. A client sends with the first
/// and receives with the second; a server the other way round.
pub fn derive_session_keys(shared_secret: &[u8], transcript_hash: &TranscriptHash) -> (r: (SessionKey, SessionKey))
    ensures
        r.0.0@ == session_material(shared_secret@, transcript_hash@).subrange(0, 32),
        r.1.0@ == session_material(shared_secret@, transcript_hash@).subrange(32, 64),
{
    let label = p2p_session_v1_bytes();
    let out = kmac256_xof(shared_secret, label.as_slice(), transcript_hash, 64);
    let mut k_c2s = [0u8; 32];
    let mut k_s2c = [0u8; 32];
    let mut i: usize = 0;
    while i < 32
        invariant
            out@.len() == 64,
            i <= 32,
            forall|j: int| 0 <= j < i ==> k_c2s@[j] == out@[j],
            forall|j: int| 0 <= j < i ==> k_s2c@[j] == out@[32 + j],
        decreases 32 - i,
    {
        k_c2s[i] = out[i];
        k_s2c[i] = out[32 + i];
        i = i + 1;
    }
    assert(k_c2s@ =~= out@.subrange(0, 32));
    assert(k_s2c@ =~= out@.subrange(32, 64));
    (SessionKey(k_c2s), SessionKey(k_s2c))
}

/// The 24-byte nonce for counter `ctr`: its little-endian bytes, then zeros.
pub open spec fn channel_nonce(ctr: u64) -> Seq<u8> {
    le64(ctr) + Seq::new(16, |i: int| 0u8)
}

fn make_nonce(counter: u64) -> (n: [u8; 24])
    ensures
        n@ == channel_nonce(counter),
{
    let b = vstd::bytes::u64_to_le_bytes(counter);
    let mut n = [0u8; 24];
    let mut i: usize = 0;
    while i < 8
        invariant
            b@ == le64(counter),
            b@.len() == 8,
            i <= 8,
            forall|j: int| 0 <= j < i ==> n@[j] == b@[j],
            forall|j: int| 8 <= j < 24 ==> n@[j] == 0u8,
        decreases 8 - i,
    {
        n[i] = b[i];
        i = i + 1;
    }
    assert(n@ =~= channel_nonce(counter));
    n
}

/// Why a channel operation failed.
#[derive(Clone, Copy, Debug, PartialEq, Eq)]
pub enum ChannelError {
    /// The send counter is exhausted.
    SendCounterOverflow,
    /// The receive counter is exhausted.
    RecvCounterOverflow,
    /// The plaintext is too long to encrypt.
    EncryptFailed,
    /// The ciphertext does not authenticate.
    DecryptFailed,
}

/// A bidirectional channel after the handshake.
pub struct SecureChannel {
    send_key: [u8; 32],
    recv_key: [u8; 32],
    send_ctr: u64,
    recv_ctr: u64,
}

impl SecureChannel {
    /// The key outgoing messages are sealed with.
    pub closed spec fn spec_send_key(&self) -> Seq<u8> {
        self.send_key@
    }

    /// The key incoming messages are opened with.
    pub closed spec fn spec_recv_key(&self) -> Seq<u8> {
        self.recv_key@
    }

    /// Messages sent so far.
    pub closed spec fn spec_send_ctr(&self) -> u64 {
        self.send_ctr
    }

    /// Messages received so far.
    pub closed spec fn spec_recv_ctr(&self) -> u64 {
        self.recv_ctr
    }

    /// A channel sending with `send_key` and receiving with `recv_key`, both counters at zero.
    pub fn new(send_key: SessionKey, recv_key: SessionKey) -> (c: Self)
        ensures
            c.spec_send_key() == send_key.0@,
            c.spec_recv_key() == recv_key.0@,
            c.spec_send_ctr() == 0,
            c.spec_recv_ctr() == 0,
    {
        Self { send_key: send_key.0, recv_key: recv_key.0, send_ctr: 0, recv_ctr: 0 }
    }

    /// Seals `plaintext` with the send key and the nonce of the current send counter,
    /// which then advances. The counter does not advance where it is exhausted; it
    /// advances even where the plaintext is too long.
    pub fn encrypt(&mut self, plaintext: &[u8], aad: &[u8]) -> (r: Result<Vec<u8>, ChannelError>)
        ensures
            final(self).spec_send_key() == old(self).spec_send_key(),
            final(self).spec_recv_key() == old(self).spec_recv_key(),
            final(self).spec_recv_ctr() == old(self).spec_recv_ctr(),
            old(self).spec_send_ctr() == u64::MAX ==> r == Err::<Vec<u8>, ChannelError>(
                ChannelError::SendCounterOverflow,
            ) && final(self).spec_send_ctr() == old(self).spec_send_ctr(),
            old(self).spec_send_ctr() < u64::MAX ==> {
                &&& final(self).spec_send_ctr() == old(self).spec_send_ctr() + 1
                &&& !sealable(plaintext@.len()) ==> r == Err::<Vec<u8>, ChannelError>(ChannelError::EncryptFailed)
                &&& sealable(plaintext@.len()) ==> (r matches Ok(c) && c@ == xchacha_seal(
                    old(self).spec_send_key(),
                    channel_nonce(old(self).spec_send_ctr()),
                    plaintext@,
                    aad@,
                ))
            },
    {
        let ctr = match self.send_ctr.checked_add(1) {
            Some(c) => c,
            None => return Err(ChannelError::SendCounterOverflow),
        };
        let nonce = make_nonce(self.send_ctr);
        self.send_ctr = ctr;
        match xchacha_encrypt(&self.send_key, &nonce, plaintext, aad) {
            Some(ct) => Ok(ct),
            None => Err(ChannelError::EncryptFailed),
        }
    }

    /// Opens `ciphertext` with the receive key and the nonce of the current receive
    /// counter, which then advances. A ciphertext sealed under that key, nonce and
    /// associated data opens to its plaintext.
    pub fn decrypt(&mut self, ciphertext: &[u8], aad: &[u8]) -> (r: Result<Vec<u8>, ChannelError>)
        ensures
            final(self).spec_send_key() == old(self).spec_send_key(),
            final(self).spec_recv_key() == old(self).spec_recv_key(),
            final(self).spec_send_ctr() == old(self).spec_send_ctr(),
            old(self).spec_recv_ctr() == u64::MAX ==> r == Err::<Vec<u8>, ChannelError>(
                ChannelError::RecvCounterOverflow,
            ) && final(self).spec_recv_ctr() == old(self).spec_recv_ctr(),
            old(self).spec_recv_ctr() < u64::MAX ==> {
                let opened = xchacha_open(
                    old(self).spec_recv_key(),
                    channel_nonce(old(self).spec_recv_ctr()),
                    ciphertext@,
                    aad@,
                );
                &&& final(self).spec_recv_ctr() == old(self).spec_recv_ctr() + 1
                &&& opened is None ==> r == Err::<Vec<u8>, ChannelError>(ChannelError::DecryptFailed)
                &&& opened is Some ==> (r matches Ok(p) && opened == Some(p@))
                &&& forall|m: Seq<u8>|
                    sealable(m.len()) && ciphertext@ == #[trigger] xchacha_seal(
                        old(self).spec_recv_key(),
                        channel_nonce(old(self).spec_recv_ctr()),
                        m,
                        aad@,
                    ) ==> (r matches Ok(p) && p@ == m)
            },
    {
        let ctr = match self.recv_ctr.checked_add(1) {
            Some(c) => c,
            None => return Err(ChannelError::RecvCounterOverflow),
        };
        let nonce = make_nonce(self.recv_ctr);
        self.recv_ctr = ctr;
        let dr = xchacha_decrypt(&self.recv_key, &nonce, ciphertext, aad);
        proof {
            assert forall|m: Seq<u8>|
                sealable(m.len()) && ciphertext@ == #[trigger] xchacha_seal(
                    self.recv_key@,
                    nonce@,
                    m,
                    aad@,
                ) implies (dr matches Some(p) && p@ == m) by {
                assert(opens_to(dr, self.recv_key@, nonce@, ciphertext@, aad@, m));
            }
        }
        match dr {
            Some(pt) => Ok(pt),
            None => Err(ChannelError::DecryptFailed),
        }
    }
}

} // verus!
