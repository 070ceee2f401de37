//! The data encryption key (DEK): a random 256-bit key that encrypts the
//! vault payload. Every unlock slot wraps a copy of it.
use vstd::prelude::*;
use crate::crypto::{aes256gcm_open, aes256gcm_seal, decrypt, encrypt, random_bytes_12, random_bytes_32, AEAD_MAX_PLAINTEXT};
use crate::error::KenvError;
use crate::slots::password::{join_tag, split_tag};

verus! {

/// A fresh random DEK.
pub fn generate() -> (dek: [u8; 32]) {
    random_bytes_32()
}

/// A payload sealed under the DEK: nonce, ciphertext body, tag.
#[derive(Clone, Debug)]
pub struct EncryptedPayload {
    pub nonce: [u8; 12],
    pub ciphertext: Vec<u8>,
    pub tag: [u8; 16],
}

/// What decrypting a sealed payload with `dek` gives.
pub open spec fn payload_decrypt_result(dek: Seq<u8>, e: EncryptedPayload) -> Result<Seq<u8>, KenvError> {
    match aes256gcm_open(dek, e.nonce@, e.ciphertext@ + e.tag@) {
        Some(p) => Ok(p),
        None => Err(KenvError::EncryptionError),
    }
}

/// Seals `plaintext` under `dek` with a fresh random nonce.
///
/// Fails with `EncryptionError` for plaintexts over 2^36 bytes. Decrypting
/// the result with the same DEK gives `plaintext` back.
pub fn encrypt_payload(dek: &[u8; 32], plaintext: &[u8]) -> (res: Result<EncryptedPayload, KenvError>)
    ensures
        plaintext@.len() > AEAD_MAX_PLAINTEXT ==> res == Err::<EncryptedPayload, KenvError>(
            KenvError::EncryptionError,
        ),
        plaintext@.len() <= AEAD_MAX_PLAINTEXT ==> (res matches Ok(e) && e.ciphertext@ + e.tag@
            == aes256gcm_seal(dek@, e.nonce@, plaintext@) && e.ciphertext@.len()
            == plaintext@.len() && payload_decrypt_result(dek@, e) == Ok::<Seq<u8>, KenvError>(
            plaintext@,
        )),
{
    let nonce = random_bytes_12();
    let ciphertext = match encrypt(dek, &nonce, plaintext) {
        Ok(c) => c,
        Err(_) => return Err(KenvError::EncryptionError),
    };
    let (body, tag) = match split_tag(&ciphertext) {
        Some(parts) => parts,
        None => return Err(KenvError::EncryptionError),
    };
    Ok(EncryptedPayload { nonce, ciphertext: body, tag })
}

/// Decrypts a sealed payload with `dek`; `EncryptionError` where the tag does not verify.
pub fn decrypt_payload(dek: &[u8; 32], encrypted: &EncryptedPayload) -> (res: Result<Vec<u8>, KenvError>)
    ensures
        match payload_decrypt_result(dek@, *encrypted) {
            Ok(p) => res matches Ok(v) && v@ == p,
            Err(e) => res == Err::<Vec<u8>, KenvError>(e),
        },
{
    let ciphertext = join_tag(&encrypted.ciphertext, &encrypted.tag);
    match decrypt(dek, &encrypted.nonce, ciphertext.as_slice()) {
        Ok(p) => Ok(p),
        Err(_) => Err(KenvError::EncryptionError),
    }
}

} // verus!
