//! Touch ID slots: the data encryption key sealed under a key that the
//! keychain releases after a biometric check.
use vstd::prelude::*;
use crate::crypto::{aes256gcm_open, decrypt, encrypt, random_bytes_12};
use crate::error::KenvError;
use crate::platform::macos::{
    evaluate_biometric, retrieve_touchid_protected_secret, store_touchid_protected_secret,
    BiometricType,
};
use crate::slots::password::{join_tag, split_tag};
use crate::slots::TouchIdSlotData;

verus! {

/// The wrapping key of Touch ID slots: 32 bytes of value 1, until the
/// platform keeps a Secure Enclave key for it.
pub open spec fn touchid_wrapping_key() -> Seq<u8> {
    Seq::new(32, |i: int| 1u8)
}

/// What opening a Touch ID slot gives once the platform has passed the
/// biometric check and released the keychain item: the 32-byte key,
/// `UnlockFailed` where the tag does not verify, `EncryptionError` for a key
/// of another length.
pub open spec fn touchid_open_result(nonce: Seq<u8>, encrypted_dek: Seq<u8>, tag: Seq<u8>) -> Result<
    Seq<u8>,
    KenvError,
> {
    match aes256gcm_open(touchid_wrapping_key(), nonce, encrypted_dek + tag) {
        None => Err(KenvError::UnlockFailed),
        Some(d) => if d.len() != 32 {
            Err(KenvError::EncryptionError)
        } else {
            Ok(d)
        },
    }
}

fn touchid_key() -> (k: [u8; 32])
    ensures
        k@ == touchid_wrapping_key(),
{
    let k = [1u8; 32];
    assert(k@ =~= touchid_wrapping_key());
    k
}

/// Seals `dek` for a Touch ID slot under a fresh random nonce. The slot has
/// no keychain reference yet: the platform gives one when it files the
/// wrapped key. Opening the slot gives `dek` back.
pub fn seal_dek(dek: &[u8; 32]) -> (res: Result<TouchIdSlotData, KenvError>)
    ensures
        res matches Ok(slot) && slot.keychain_ref@.len() == 0 && slot.encrypted_dek@.len() == 32
            && slot.biometric_type@ == "touchid"@ && touchid_open_result(
            slot.nonce@,
            slot.encrypted_dek@,
            slot.tag@,
        ) == Ok::<Seq<u8>, KenvError>(dek@),
{
    let nonce = random_bytes_12();
    let key = touchid_key();
    let ciphertext = match encrypt(&key, &nonce, dek.as_slice()) {
        Ok(c) => c,
        Err(_) => return Err(KenvError::EncryptionError),
    };
    let (encrypted_dek, tag) = match split_tag(&ciphertext) {
        Some(parts) => parts,
        None => return Err(KenvError::EncryptionError),
    };
    proof {
        reveal_strlit("touchid");
    }
    Ok(
        TouchIdSlotData {
            keychain_ref: Vec::new(),
            nonce,
            encrypted_dek,
            tag,
            biometric_type: String::from_str("touchid"),
        },
    )
}

/// Wraps `dek` for Touch ID (see [`seal_dek`]) and files the wrapped key in
/// the keychain under `label`. A failing platform call's error is returned;
/// in this build, without a keychain binding, that is always
/// `PlatformCapabilityUnavailable`.
pub fn wrap_dek(dek: &[u8; 32], label: &str) -> (res: Result<TouchIdSlotData, KenvError>)
    ensures
        res == Err::<TouchIdSlotData, KenvError>(KenvError::PlatformCapabilityUnavailable),
{
    let mut slot = seal_dek(dek)?;
    slot.keychain_ref = store_touchid_protected_secret(slot.encrypted_dek.as_slice(), label)?;
    Ok(slot)
}

/// Opens a Touch ID slot once the platform has passed the biometric check and
/// released its keychain item (see [`touchid_open_result`]).
pub fn open_slot(slot: &TouchIdSlotData) -> (res: Result<[u8; 32], KenvError>)
    ensures
        match touchid_open_result(slot.nonce@, slot.encrypted_dek@, slot.tag@) {
            Ok(d) => res matches Ok(k) && k@ == d,
            Err(e) => res == Err::<[u8; 32], KenvError>(e),
        },
{
    let key = touchid_key();
    let ciphertext = join_tag(&slot.encrypted_dek, &slot.tag);
    let plaintext = match decrypt(&key, &slot.nonce, ciphertext.as_slice()) {
        Ok(p) => p,
        Err(_) => return Err(KenvError::UnlockFailed),
    };
    if plaintext.len() != 32 {
        return Err(KenvError::EncryptionError);
    }
    let dek = crate::bytes::copy_array32(plaintext.as_slice(), 0);
    assert(plaintext@.subrange(0, 32) =~= plaintext@);
    Ok(dek)
}

/// What unlocking a Touch ID slot gives in this build, whatever the slot:
/// without LocalAuthentication the platform is unavailable.
pub open spec fn touchid_unwrap_result() -> Result<Seq<u8>, KenvError> {
    Err(KenvError::PlatformCapabilityUnavailable)
}

/// Unlocks a Touch ID slot: a biometric check, the keychain item, then
/// [`open_slot`]. A failing platform call's error is returned; in this build,
/// without LocalAuthentication, that is always `PlatformCapabilityUnavailable`.
pub fn unwrap_dek(slot: &TouchIdSlotData) -> (res: Result<[u8; 32], KenvError>)
    ensures
        res == Err::<[u8; 32], KenvError>(KenvError::PlatformCapabilityUnavailable),
{
    let _result = evaluate_biometric("Unlock vault with Touch ID", BiometricType::TouchId)?;
    let _secret = retrieve_touchid_protected_secret(slot.keychain_ref.as_slice())?;
    open_slot(slot)
}

} // verus!
