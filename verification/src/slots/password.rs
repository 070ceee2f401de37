//! Password slots: the data encryption key sealed under an Argon2id key.
use vstd::prelude::*;
use vstd::string::StringSliceAdditionalSpecFns;
use vstd::utf8::encode_utf8;
use crate::crypto::{
    aes256gcm_open, aes256gcm_seal, argon2id_hash, decrypt, derive_key, encrypt, kdf_accepts,
    random_bytes_12, random_bytes_32, KdfParams,
};
use crate::error::KenvError;
use crate::slots::{PasswordKeyView, PasswordSlotData};
use crate::text::{is_blank, str_is_blank};
use crate::bytes::{append_bytes, copy_array16, copy_range};

verus! {

/// The key that a password derives for a password slot.
pub open spec fn password_wrapping_key(password: Seq<char>, p: PasswordKeyView) -> Seq<u8> {
    argon2id_hash(encode_utf8(password), p.salt, p.m_cost, p.t_cost, p.p_cost)
}

/// What unlocking a password slot with `password` gives: the wrapped key, or
/// `WeakPassword` for a blank password, `EncryptionError` for costs argon2
/// refuses or a wrapped key that is not 32 bytes, `UnlockFailed` where the
/// tag does not verify (a wrong password, or tampered key bytes).
pub open spec fn password_unwrap_result(password: Seq<char>, p: PasswordKeyView) -> Result<
    Seq<u8>,
    KenvError,
> {
    if is_blank(password) {
        Err(KenvError::WeakPassword)
    } else if !kdf_accepts(encode_utf8(password), p.m_cost, p.t_cost, p.p_cost) {
        Err(KenvError::EncryptionError)
    } else {
        match aes256gcm_open(password_wrapping_key(password, p), p.nonce, p.encrypted_dek + p.tag) {
            None => Err(KenvError::UnlockFailed),
            Some(d) => if d.len() != 32 {
                Err(KenvError::EncryptionError)
            } else {
                Ok(d)
            },
        }
    }
}

/// Splits a sealed message into its body and its 16-byte tag.
pub fn split_tag(ciphertext: &Vec<u8>) -> (res: Option<(Vec<u8>, [u8; 16])>)
    ensures
        ciphertext@.len() < 16 ==> res is None,
        ciphertext@.len() >= 16 ==> (res matches Some((body, tag)) && body@ + tag@
            == ciphertext@ && tag@.len() == 16 && body@.len() == ciphertext@.len() - 16),
{
    if ciphertext.len() < 16 {
        return None;
    }
    let body_len = ciphertext.len() - 16;
    let body = copy_range(ciphertext.as_slice(), 0, body_len);
    let tag = copy_array16(ciphertext.as_slice(), body_len);
    assert(body@ + tag@ =~= ciphertext@);
    Some((body, tag))
}

/// Joins a body and its tag back into one sealed message.
pub fn join_tag(body: &Vec<u8>, tag: &[u8; 16]) -> (c: Vec<u8>)
    ensures
        c@ == body@ + tag@,
{
    let mut c = Vec::new();
    append_bytes(&mut c, body.as_slice());
    append_bytes(&mut c, tag.as_slice());
    c
}

/// Wraps `dek` under a key derived from `password` with fresh random salt and nonce.
///
/// A blank password is refused with `WeakPassword`; costs that argon2
/// refuses give `EncryptionError`. On success the slot records `params`, and
/// unlocking it with the same password gives `dek` back.
pub fn wrap_dek(password: &str, dek: &[u8; 32], params: &KdfParams) -> (res: Result<
    PasswordSlotData,
    KenvError,
>)
    ensures
        is_blank(password@) ==> res == Err::<PasswordSlotData, KenvError>(KenvError::WeakPassword),
        !is_blank(password@) && !kdf_accepts(
            encode_utf8(password@),
            params.m_cost,
            params.t_cost,
            params.p_cost,
        ) ==> res == Err::<PasswordSlotData, KenvError>(KenvError::EncryptionError),
        !is_blank(password@) && kdf_accepts(
            encode_utf8(password@),
            params.m_cost,
            params.t_cost,
            params.p_cost,
        ) ==> (res matches Ok(slot) && slot.kdf_m_cost == params.m_cost && slot.kdf_t_cost
            == params.t_cost && slot.kdf_p_cost == params.p_cost && slot.encrypted_dek@.len() == 32
            && slot.encrypted_dek@ + slot.tag@ == aes256gcm_seal(
            password_wrapping_key(password@, slot@),
            slot.nonce@,
            dek@,
        ) && password_unwrap_result(password@, slot@) == Ok::<Seq<u8>, KenvError>(dek@)),
{
    if str_is_blank(password) {
        return Err(KenvError::WeakPassword);
    }
    let salt = random_bytes_32();
    let nonce = random_bytes_12();
    if params.m_cost >= 8 && params.p_cost > 0x1FFF_FFFF {
        return Err(KenvError::EncryptionError);
    }
    let wrapping_key = match derive_key(password, &salt, params) {
        Ok(k) => k,
        Err(_) => return Err(KenvError::EncryptionError),
    };
    let ciphertext = match encrypt(&wrapping_key, &nonce, dek.as_slice()) {
        Ok(c) => c,
        Err(_) => return Err(KenvError::EncryptionError),
    };
    let (encrypted_dek, tag) = match split_tag(&ciphertext) {
        Some(parts) => parts,
        None => return Err(KenvError::EncryptionError),
    };
    let slot = PasswordSlotData {
        salt,
        kdf_m_cost: params.m_cost,
        kdf_t_cost: params.t_cost,
        kdf_p_cost: params.p_cost,
        nonce,
        encrypted_dek,
        tag,
    };
    assert(password.spec_bytes() == encode_utf8(password@));
    Ok(slot)
}

/// Unwraps the data encryption key of a password slot (see [`password_unwrap_result`]).
pub fn unwrap_dek(password: &str, slot: &PasswordSlotData) -> (res: Result<[u8; 32], KenvError>)
    ensures
        match password_unwrap_result(password@, slot@) {
            Ok(d) => res matches Ok(k) && k@ == d,
            Err(e) => res == Err::<[u8; 32], KenvError>(e),
        },
{
    if str_is_blank(password) {
        return Err(KenvError::WeakPassword);
    }
    let params = KdfParams {
        m_cost: slot.kdf_m_cost,
        t_cost: slot.kdf_t_cost,
        p_cost: slot.kdf_p_cost,
    };
    if params.m_cost >= 8 && params.p_cost > 0x1FFF_FFFF {
        return Err(KenvError::EncryptionError);
    }
    assert(password.spec_bytes() == encode_utf8(password@));
    let wrapping_key = match derive_key(password, &slot.salt, &params) {
        Ok(k) => k,
        Err(_) => return Err(KenvError::EncryptionError),
    };
    let ciphertext = join_tag(&slot.encrypted_dek, &slot.tag);
    let plaintext = match decrypt(&wrapping_key, &slot.nonce, ciphertext.as_slice()) {
        Ok(p) => p,
        Err(_) => return Err(KenvError::UnlockFailed),
    };
    if plaintext.len() != 32 {
        return Err(KenvError::EncryptionError);
    }
    let dek = crate::bytes::copy_array32(plaintext.as_slice(), 0);
    assert(plaintext@.subrange(0, 32) =~= plaintext@);
    Ok(dek)
}

} // verus!
