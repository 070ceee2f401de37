//! CTAP2 slots: the data encryption key sealed under a key that the security
//! key's hmac-secret derives.
use vstd::prelude::*;
use vstd::string::StringSliceAdditionalSpecFns;
use vstd::utf8::encode_utf8;
use crate::bytes::{append_bytes, copy_array32};
use crate::crypto::{
    aes256gcm_open, decrypt, encrypt, hmac_sha256, hmac_sha256_32,
    random_bytes_12, random_bytes_32,
};
use crate::error::KenvError;
use crate::platform::ctap2::{
    get_assertion_with_hmac_secret, register_credential, Ctap2Assertion, Ctap2Credential,
    Ctap2Device,
};
use crate::slots::password::{join_tag, split_tag};
use crate::slots::Ctap2SlotData;

verus! {

/// The label appended to the challenge before it is MACed.
pub open spec fn wrapping_label() -> Seq<u8> {
    encode_utf8("vault_wrapping_key"@)
}

/// The wrapping key for an hmac-secret and challenge:
/// HMAC-SHA256(hmac_secret, challenge || "vault_wrapping_key").
pub open spec fn ctap2_wrapping_key(hmac_secret: Seq<u8>, challenge: Seq<u8>) -> Seq<u8> {
    hmac_sha256(hmac_secret, challenge + wrapping_label())
}

/// Derives the wrapping key from an hmac-secret (see [`ctap2_wrapping_key`]).
pub fn derive_wrapping_key(hmac_secret: &[u8; 32], challenge: &[u8]) -> (res: Result<
    [u8; 32],
    KenvError,
>)
    ensures
        res matches Ok(k) && k@ == ctap2_wrapping_key(hmac_secret@, challenge@),
{
    let mut msg = Vec::new();
    append_bytes(&mut msg, challenge);
    append_bytes(&mut msg, "vault_wrapping_key".as_bytes());
    match hmac_sha256_32(hmac_secret, msg.as_slice()) {
        Some(k) => Ok(k),
        None => Err(KenvError::EncryptionError),
    }
}

/// What opening a CTAP2 slot with an authenticator's hmac-secret gives: the
/// 32-byte key, `UnlockFailed` where the tag does not verify, and
/// `EncryptionError` for a key of any other length.
pub open spec fn ctap2_open_result(slot: Ctap2SlotData, hmac_secret: Seq<u8>) -> Result<
    Seq<u8>,
    KenvError,
> {
    match aes256gcm_open(
        ctap2_wrapping_key(hmac_secret, slot.challenge@),
        slot.nonce@,
        slot.encrypted_dek@ + slot.tag@,
    ) {
        None => Err(KenvError::UnlockFailed),
        Some(d) => if d.len() != 32 {
            Err(KenvError::EncryptionError)
        } else {
            Ok(d)
        },
    }
}

/// What unlocking a CTAP2 slot with an assertion gives: `UnlockFailed` unless
/// the assertion's counter has moved past the stored one (a cloned key would
/// not), else the slot opened with the assertion's hmac-secret.
pub open spec fn ctap2_assertion_result(slot: Ctap2SlotData, counter: u32, hmac_secret: Seq<u8>) -> Result<
    Seq<u8>,
    KenvError,
> {
    if counter <= slot.counter {
        Err(KenvError::UnlockFailed)
    } else {
        ctap2_open_result(slot, hmac_secret)
    }
}

/// The slot for a credential just created on `device` with `challenge`: the
/// data encryption key `dek` sealed, under a fresh random nonce, with the key
/// that the first assertion's hmac-secret derives. The slot keeps the
/// credential, the challenge and the assertion's counter; opening it with the
/// same hmac-secret gives `dek` back.
pub fn wrap_with_authenticator(
    device: &Ctap2Device,
    credential: Ctap2Credential,
    challenge: &[u8; 32],
    assertion: &Ctap2Assertion,
    dek: &[u8; 32],
) -> (res: Result<Ctap2SlotData, KenvError>)
    ensures
        res matches Ok(slot) && slot.credential_id == credential.credential_id && slot.public_key
            == credential.public_key && slot.attestation_data == Some(credential.attestation_data)
            && slot.challenge@ == challenge@ && slot.counter == assertion.counter
            && slot.algorithm == -7 && slot.device_serial == device.serial
            && slot.encrypted_dek@.len() == 32 && !slot.requires_pin && slot.requires_uv
            && slot.requires_touch && ctap2_open_result(slot, assertion.hmac_secret@) == Ok::<
            Seq<u8>,
            KenvError,
        >(dek@),
{
    let nonce = random_bytes_12();
    let wrapping_key = derive_wrapping_key(&assertion.hmac_secret, challenge.as_slice())?;
    let ciphertext = match encrypt(&wrapping_key, &nonce, dek.as_slice()) {
        Ok(c) => c,
        Err(_) => return Err(KenvError::EncryptionError),
    };
    let (encrypted_dek, tag) = match split_tag(&ciphertext) {
        Some(parts) => parts,
        None => return Err(KenvError::EncryptionError),
    };
    let challenge_vec = vstd::slice::slice_to_vec(challenge.as_slice());
    Ok(
        Ctap2SlotData {
            credential_id: credential.credential_id,
            public_key: credential.public_key,
            challenge: challenge_vec,
            counter: assertion.counter,
            algorithm: -7,
            device_serial: device.serial.clone(),
            attestation_data: Some(credential.attestation_data),
            nonce,
            encrypted_dek,
            tag,
            requires_pin: false,
            requires_uv: true,
            requires_touch: true,
        },
    )
}

/// Registers a credential on `device` under a fresh random challenge, asserts
/// once for its hmac-secret, and wraps `dek` (see [`wrap_with_authenticator`]).
/// A failing device call's error is returned; in this build, without a device
/// transport, that is always `PlatformCapabilityUnavailable`.
pub fn register_and_wrap_dek(device: &Ctap2Device, dek: &[u8; 32], label: &str) -> (res: Result<
    Ctap2SlotData,
    KenvError,
>)
    ensures
        res == Err::<Ctap2SlotData, KenvError>(KenvError::PlatformCapabilityUnavailable),
{
    let challenge = random_bytes_32();
    let credential = register_credential(device, &challenge)?;
    let assertion = get_assertion_with_hmac_secret(
        device,
        credential.credential_id.as_slice(),
        &challenge,
        0,
    )?;
    wrap_with_authenticator(device, credential, &challenge, &assertion, dek)
}

/// Unlocks a CTAP2 slot with an assertion the device gave for it (see
/// [`ctap2_assertion_result`]).
pub fn unwrap_with_assertion(slot: &Ctap2SlotData, assertion: &Ctap2Assertion) -> (res: Result<
    [u8; 32],
    KenvError,
>)
    ensures
        match ctap2_assertion_result(*slot, assertion.counter, assertion.hmac_secret@) {
            Ok(d) => res matches Ok(k) && k@ == d,
            Err(e) => res == Err::<[u8; 32], KenvError>(e),
        },
{
    if assertion.counter <= slot.counter {
        return Err(KenvError::UnlockFailed);
    }
    let wrapping_key = derive_wrapping_key(&assertion.hmac_secret, slot.challenge.as_slice())?;
    let ciphertext = join_tag(&slot.encrypted_dek, &slot.tag);
    let plaintext = match decrypt(&wrapping_key, &slot.nonce, ciphertext.as_slice()) {
        Ok(p) => p,
        Err(_) => return Err(KenvError::UnlockFailed),
    };
    if plaintext.len() != 32 {
        return Err(KenvError::EncryptionError);
    }
    let dek = copy_array32(plaintext.as_slice(), 0);
    assert(plaintext@.subrange(0, 32) =~= plaintext@);
    Ok(dek)
}

/// Unlocks a CTAP2 slot on `device`: `EncryptionError` unless the stored
/// challenge is 32 bytes; otherwise the device asserts past the stored
/// counter and the slot opens with the assertion (see
/// [`unwrap_with_assertion`]). A failing device call's error is returned; in
/// this build, without a device transport, that is always
/// `PlatformCapabilityUnavailable`.
pub fn assert_and_unwrap_dek(device: &Ctap2Device, slot: &Ctap2SlotData) -> (res: Result<
    [u8; 32],
    KenvError,
>)
    ensures
        slot.challenge@.len() != 32 ==> res == Err::<[u8; 32], KenvError>(
            KenvError::EncryptionError,
        ),
        slot.challenge@.len() == 32 ==> res == Err::<[u8; 32], KenvError>(
            KenvError::PlatformCapabilityUnavailable,
        ),
{
    if slot.challenge.len() != 32 {
        return Err(KenvError::EncryptionError);
    }
    let challenge_array = copy_array32(slot.challenge.as_slice(), 0);
    let assertion = get_assertion_with_hmac_secret(
        device,
        slot.credential_id.as_slice(),
        &challenge_array,
        slot.counter,
    )?;
    unwrap_with_assertion(slot, &assertion)
}

} // verus!
