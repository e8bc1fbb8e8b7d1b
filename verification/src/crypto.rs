//! Boundary to the cipher, the secure random source and the wall clock.
//!
//! Everything here is a thin trusted wrapper over an outside call; the
//! behaviour of the authenticated encryption is named by `cipher_of` and
//! never restated.

use vstd::prelude::*;

use chacha20poly1305::aead::AeadInPlace;
use chacha20poly1305::KeyInit;

use crate::errors::InternalError;

verus! {

/// The ciphertext-with-tag that XChaCha20-Poly1305 produces for a key, a
/// nonce, associated data and a plaintext; a function of those four alone.
pub uninterp spec fn cipher_of(key: Seq<u8>, nonce: Seq<u8>, aad: Seq<u8>, plaintext: Seq<u8>) -> Seq<u8>;

/// Greatest plaintext length the cipher can encrypt: its keystream of
/// 64-byte blocks, less the one block that derives the authentication key.
pub open spec fn cipher_max_len() -> int {
    (0xffff_fffe as int) * 64
}

/// Relies on chacha20poly1305's `XChaCha20Poly1305` through aead's
/// `AeadInPlace::encrypt_in_place`: the buffer is encrypted in place and a
/// 16-byte tag is appended; the result is a function of key, nonce,
/// associated data and plaintext alone, and the call succeeds on every
/// buffer its keystream covers. The bound in `requires` keeps the buffer
/// there; past it the keystream runs out inside the call.
#[verifier::external_body]
pub(crate) fn aead_encrypt(
    key: &[u8; 32],
    nonce: &[u8; 24],
    aad: &[u8],
    buffer: &mut Vec<u8>,
) -> (r: Result<(), InternalError>)
    requires
        old(buffer)@.len() <= cipher_max_len(),
    ensures
        r is Ok,
        final(buffer)@ == cipher_of(key@, nonce@, aad@, old(buffer)@),
        final(buffer)@.len() == old(buffer)@.len() + 16,
{
    let cipher = chacha20poly1305::XChaCha20Poly1305::new(chacha20poly1305::Key::from_slice(key));
    let nonce = chacha20poly1305::XNonce::from_slice(nonce);
    match cipher.encrypt_in_place(nonce, aad, buffer) {
        Ok(()) => Ok(()),
        Err(_) => Err(InternalError::CipherFailure),
    }
}

/// Relies on chacha20poly1305's `XChaCha20Poly1305` through aead's
/// `AeadInPlace::decrypt_in_place`: decrypting a ciphertext the cipher
/// produced, under the same key, nonce and associated data, succeeds and
/// restores the plaintext. The claim covers the plaintext lengths the
/// cipher can produce ciphertexts for, and no others.
#[verifier::external_body]
pub(crate) fn aead_decrypt(
    key: &[u8; 32],
    nonce: &[u8; 24],
    aad: &[u8],
    buffer: &mut Vec<u8>,
) -> (r: Result<(), InternalError>)
    ensures
        forall|plaintext: Seq<u8>|
            plaintext.len() <= cipher_max_len() && old(buffer)@ == cipher_of(
                key@,
                nonce@,
                aad@,
                plaintext,
            ) ==> r is Ok && final(buffer)@ == plaintext,
{
    let cipher = chacha20poly1305::XChaCha20Poly1305::new(chacha20poly1305::Key::from_slice(key));
    let nonce = chacha20poly1305::XNonce::from_slice(nonce);
    match cipher.decrypt_in_place(nonce, aad, buffer) {
        Ok(()) => Ok(()),
        Err(_) => Err(InternalError::CipherFailure),
    }
}

/// Relies on rand_core's `OsRng::try_fill_bytes`: on success the bytes come
/// from the operating system's secure random source; nothing is assumed of
/// their values.
#[verifier::external_body]
pub(crate) fn os_random_bytes<const N: usize>() -> (r: Result<[u8; N], InternalError>)
    ensures
        r matches Err(e) ==> e == InternalError::RandomSourceFailure,
{
    let mut bytes = [0u8; N];
    match rand_core::RngCore::try_fill_bytes(&mut rand_core::OsRng, &mut bytes) {
        Ok(()) => Ok(bytes),
        Err(_) => Err(InternalError::RandomSourceFailure),
    }
}

/// Relies on std's `SystemTime::now` and `SystemTime::duration_since`: the
/// wall clock's seconds since the Unix epoch, or `None` when the clock is
/// unavailable or precedes the epoch.
#[verifier::external_body]
pub(crate) fn now_unix_secs() -> (r: Option<u64>)
{
    match std::time::SystemTime::now().duration_since(std::time::UNIX_EPOCH) {
        Ok(d) => Some(d.as_secs()),
        Err(_) => None,
    }
}

} // verus!
