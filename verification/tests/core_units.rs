use kenv_core::crypto::{decrypt, derive_key, encrypt, KdfParams};
use kenv_core::dek::{decrypt_payload, encrypt_payload, generate};
use kenv_core::platform::ctap2::{self, Ctap2Assertion, Ctap2Credential, Ctap2Device};
use kenv_core::platform::macos::{self, BiometricResult, BiometricType};
use kenv_core::slots::ctap2::{
    assert_and_unwrap_dek, derive_wrapping_key, register_and_wrap_dek, unwrap_with_assertion,
    wrap_with_authenticator,
};
use kenv_core::slots::{password, touchid, SlotType};
use kenv_core::ssh::{sign_ssh_key, SshKeyType};
use kenv_core::tlv::{decode_varint, encode_varint, read_field, write_field};
use kenv_core::KenvError;

#[test]
fn varint_encode_1byte() {
    let mut buf = [0u8; 4];
    assert_eq!(encode_varint(0, &mut buf).unwrap(), 1);
    assert_eq!(buf[0], 0);

    let mut buf = [0u8; 4];
    assert_eq!(encode_varint(127, &mut buf).unwrap(), 1);
    assert_eq!(buf[0], 127);
}

#[test]
fn varint_decode_1byte() {
    assert_eq!(decode_varint(&[0]).unwrap(), (0, 1));
    assert_eq!(decode_varint(&[127]).unwrap(), (127, 1));
}

#[test]
fn varint_encode_2bytes() {
    let mut buf = [0u8; 4];
    assert_eq!(encode_varint(128, &mut buf).unwrap(), 2);
    assert_eq!(buf[0], 0x80);
    assert_eq!(buf[1], 128);
}

#[test]
fn write_and_read_field() {
    let mut writer = Vec::new();
    write_field(&mut writer, 0x01, b"hello").unwrap();

    let mut offset = 0;
    let (tag, value) = read_field(&writer, &mut offset).unwrap().unwrap();
    assert_eq!(tag, 0x01);
    assert_eq!(value, b"hello");
}

#[test]
fn skip_unknown_tags() {
    let mut writer = Vec::new();
    write_field(&mut writer, 0x01, b"first").unwrap();
    write_field(&mut writer, 0xFF, b"unknown").unwrap();
    write_field(&mut writer, 0x02, b"second").unwrap();

    let mut offset = 0;

    let (tag, value) = read_field(&writer, &mut offset).unwrap().unwrap();
    assert_eq!(tag, 0x01);
    assert_eq!(value, b"first");

    let (tag, _) = read_field(&writer, &mut offset).unwrap().unwrap();
    assert_eq!(tag, 0xFF);

    let (tag, value) = read_field(&writer, &mut offset).unwrap().unwrap();
    assert_eq!(tag, 0x02);
    assert_eq!(value, b"second");
}

#[test]
fn slot_type_conversion() {
    assert_eq!(SlotType::Password.as_u8(), 1);
    assert_eq!(SlotType::Ctap2.as_u8(), 2);
    assert_eq!(SlotType::TouchId.as_u8(), 3);

    assert_eq!(SlotType::from_u8(1), Some(SlotType::Password));
    assert_eq!(SlotType::from_u8(2), Some(SlotType::Ctap2));
    assert_eq!(SlotType::from_u8(3), Some(SlotType::TouchId));
    assert_eq!(SlotType::from_u8(99), None);
}

#[test]
fn ssh_key_type_to_string() {
    assert_eq!(SshKeyType::Ed25519.as_str(), "ed25519");
    assert_eq!(SshKeyType::Rsa.as_str(), "rsa");
    assert_eq!(SshKeyType::EcdsaP256.as_str(), "ecdsa-p256");
}

#[test]
fn sign_ssh_key_not_implemented() {
    let error = sign_ssh_key("test-key", b"test data").unwrap_err();
    assert!(matches!(error, KenvError::SshSigningNotImplemented));
}

// A simulated authenticator and keychain, standing in for the platform calls
// that this build does not link: a device whose hmac-secret is
// [42, 0, 0, ...] and whose counter runs one ahead of what the caller saw,
// a biometric check that passes, and a keychain that hands back its reference.

fn enumerate_devices() -> Result<Vec<Ctap2Device>, KenvError> {
    Ok(vec![Ctap2Device {
        device_id: "mock_device_1".to_string(),
        serial: Some("YubiKey 5Ci #AB1234".to_string()),
    }])
}

fn register_credential(
    _device: &Ctap2Device,
    _challenge: &[u8; 32],
) -> Result<Ctap2Credential, KenvError> {
    Ok(Ctap2Credential {
        credential_id: b"mock_credential_id".to_vec(),
        public_key: b"mock_public_key".to_vec(),
        attestation_data: b"mock_attestation".to_vec(),
    })
}

fn get_assertion_with_hmac_secret(
    _device: &Ctap2Device,
    _credential_id: &[u8],
    _challenge: &[u8; 32],
    expected_counter: u32,
) -> Result<Ctap2Assertion, KenvError> {
    let mut hmac_secret = [0u8; 32];
    hmac_secret[0] = 42;
    Ok(Ctap2Assertion {
        signature: b"mock_signature".to_vec(),
        counter: expected_counter + 1,
        hmac_secret,
    })
}

fn evaluate_biometric(_prompt: &str, _kind: BiometricType) -> Result<BiometricResult, KenvError> {
    Ok(BiometricResult { authenticated: true, error: None })
}

fn store_touchid_protected_secret(_secret: &[u8], _label: &str) -> Result<Vec<u8>, KenvError> {
    Ok(b"mock_keychain_ref".to_vec())
}

fn retrieve_touchid_protected_secret(keychain_ref: &[u8]) -> Result<Vec<u8>, KenvError> {
    Ok(keychain_ref.to_vec())
}

/// A CTAP2 slot registered on the simulated authenticator.
fn register_on_simulator(device: &Ctap2Device, dek: &[u8; 32]) -> kenv_core::slots::Ctap2SlotData {
    let challenge = [9u8; 32];
    let credential = register_credential(device, &challenge).unwrap();
    let assertion =
        get_assertion_with_hmac_secret(device, &credential.credential_id, &challenge, 0).unwrap();
    wrap_with_authenticator(device, credential, &challenge, &assertion, dek).unwrap()
}

#[test]
fn enumerate_devices_returns_mocks() {
    let devices = enumerate_devices().expect("enumerate failed");
    assert!(!devices.is_empty());
    assert!(devices[0].serial.is_some());
}

#[test]
fn register_credential_returns_valid_data() {
    let device = Ctap2Device {
        device_id: "test_device".to_string(),
        serial: Some("TEST#123".to_string()),
    };
    let challenge = [1u8; 32];

    let cred = register_credential(&device, &challenge).expect("register failed");
    assert!(!cred.credential_id.is_empty());
    assert!(!cred.public_key.is_empty());
}

#[test]
fn get_assertion_returns_hmac_secret() {
    let device = Ctap2Device { device_id: "test_device".to_string(), serial: None };
    let credential_id = b"test_cred_id".to_vec();
    let challenge = [2u8; 32];

    let assertion = get_assertion_with_hmac_secret(&device, &credential_id, &challenge, 1)
        .expect("assertion failed");
    assert_eq!(assertion.hmac_secret.len(), 32);
    assert!(assertion.counter > 1);
}

#[test]
fn assertion_counter_always_exceeds_expected() {
    let device = Ctap2Device { device_id: "test".to_string(), serial: None };
    let cred = b"cred_id".to_vec();
    let challenge = [3u8; 32];

    let a0 = get_assertion_with_hmac_secret(&device, &cred, &challenge, 0).unwrap();
    assert!(a0.counter > 0, "counter must exceed expected=0");

    let a1 = get_assertion_with_hmac_secret(&device, &cred, &challenge, a0.counter).unwrap();
    assert!(a1.counter > a0.counter, "counter must exceed expected={}", a0.counter);
}

#[test]
fn biometric_type_str() {
    assert_eq!(BiometricType::TouchId.as_str(), "touchid");
}

#[test]
fn evaluate_biometric_succeeds_in_test() {
    let result = evaluate_biometric("Test", BiometricType::TouchId).unwrap();
    assert!(result.authenticated);
    assert_eq!(result.error, None);
}

#[test]
fn store_and_retrieve_secret() {
    let secret = b"test_secret";
    let keychain_ref = store_touchid_protected_secret(secret, "test_label").unwrap();
    assert!(!keychain_ref.is_empty());

    let retrieved = retrieve_touchid_protected_secret(&keychain_ref).unwrap();
    assert_eq!(retrieved, keychain_ref);
}

#[test]
fn platform_calls_are_unavailable_in_this_build() {
    let device = Ctap2Device { device_id: "d".to_string(), serial: None };
    let unavailable = |e: KenvError| matches!(e, KenvError::PlatformCapabilityUnavailable);
    assert!(unavailable(ctap2::enumerate_devices().unwrap_err()));
    assert!(unavailable(ctap2::register_credential(&device, &[0u8; 32]).unwrap_err()));
    assert!(unavailable(
        ctap2::get_assertion_with_hmac_secret(&device, b"c", &[0u8; 32], 5).unwrap_err()
    ));
    assert!(unavailable(macos::evaluate_biometric("p", BiometricType::TouchId).unwrap_err()));
    assert!(unavailable(macos::store_touchid_protected_secret(b"s", "l").unwrap_err()));
    assert!(unavailable(macos::retrieve_touchid_protected_secret(b"r").unwrap_err()));
}

#[test]
fn slot_operations_pass_the_platform_error_through() {
    let device = Ctap2Device { device_id: "d".to_string(), serial: None };
    let dek = [5u8; 32];
    assert!(matches!(
        register_and_wrap_dek(&device, &dek, "l"),
        Err(KenvError::PlatformCapabilityUnavailable)
    ));
    let slot = register_on_simulator(&device, &dek);
    assert!(matches!(
        assert_and_unwrap_dek(&device, &slot),
        Err(KenvError::PlatformCapabilityUnavailable)
    ));
    let mut short = slot.clone();
    short.challenge.pop();
    assert!(matches!(assert_and_unwrap_dek(&device, &short), Err(KenvError::EncryptionError)));
    assert!(matches!(touchid::wrap_dek(&dek, "l"), Err(KenvError::PlatformCapabilityUnavailable)));
    let sealed = touchid::seal_dek(&dek).unwrap();
    assert!(matches!(touchid::unwrap_dek(&sealed), Err(KenvError::PlatformCapabilityUnavailable)));
}

#[test]
fn stale_assertion_counter_is_refused() {
    let device = Ctap2Device { device_id: "d".to_string(), serial: None };
    let dek = [6u8; 32];
    let slot = register_on_simulator(&device, &dek);
    let mut replay = get_assertion_with_hmac_secret(&device, b"c", &[9u8; 32], 0).unwrap();
    replay.counter = slot.counter;
    assert!(matches!(unwrap_with_assertion(&slot, &replay), Err(KenvError::UnlockFailed)));
    let mut other_key = get_assertion_with_hmac_secret(&device, b"c", &[9u8; 32], slot.counter).unwrap();
    other_key.hmac_secret[1] = 7;
    assert!(matches!(unwrap_with_assertion(&slot, &other_key), Err(KenvError::UnlockFailed)));
}

#[test]
fn derive_key_returns_32_bytes() {
    let salt = [0u8; 32];
    let key = derive_key("hunter2", &salt, &KdfParams::for_tests()).unwrap();
    assert_eq!(key.len(), 32);
}

#[test]
fn derive_key_is_deterministic() {
    let salt = [1u8; 32];
    let key1 = derive_key("password", &salt, &KdfParams::for_tests()).unwrap();
    let key2 = derive_key("password", &salt, &KdfParams::for_tests()).unwrap();
    assert_eq!(key1, key2);
}

#[test]
fn derive_key_differs_for_different_passwords() {
    let salt = [2u8; 32];
    let key1 = derive_key("password1", &salt, &KdfParams::for_tests()).unwrap();
    let key2 = derive_key("password2", &salt, &KdfParams::for_tests()).unwrap();
    assert_ne!(key1, key2);
}

#[test]
fn derive_key_differs_for_different_salts() {
    let salt1 = [3u8; 32];
    let salt2 = [4u8; 32];
    let key1 = derive_key("same_password", &salt1, &KdfParams::for_tests()).unwrap();
    let key2 = derive_key("same_password", &salt2, &KdfParams::for_tests()).unwrap();
    assert_ne!(key1, key2);
}

#[test]
fn encrypt_produces_ciphertext_longer_than_plaintext() {
    let key = [0u8; 32];
    let nonce = [0u8; 12];
    let plaintext = b"hello vault";
    let ciphertext = encrypt(&key, &nonce, plaintext).unwrap();
    assert_eq!(ciphertext.len(), plaintext.len() + 16);
}

#[test]
fn decrypt_reverses_encrypt() {
    let key = [5u8; 32];
    let nonce = [6u8; 12];
    let plaintext = b"round-trip test";
    let ciphertext = encrypt(&key, &nonce, plaintext).unwrap();
    let recovered = decrypt(&key, &nonce, &ciphertext).unwrap();
    assert_eq!(recovered, plaintext);
}

#[test]
fn decrypt_rejects_tampered_ciphertext() {
    let key = [7u8; 32];
    let nonce = [8u8; 12];
    let plaintext = b"tamper test";
    let mut ciphertext = encrypt(&key, &nonce, plaintext).unwrap();
    ciphertext[0] ^= 0xFF;
    assert!(decrypt(&key, &nonce, &ciphertext).is_err());
}

#[test]
fn decrypt_rejects_wrong_key() {
    let key1 = [9u8; 32];
    let key2 = [10u8; 32];
    let nonce = [11u8; 12];
    let ciphertext = encrypt(&key1, &nonce, b"secret").unwrap();
    assert!(decrypt(&key2, &nonce, &ciphertext).is_err());
}

#[test]
fn generate_returns_32_bytes() {
    let dek = generate();
    assert_eq!(dek.len(), 32);
}

#[test]
fn encrypt_and_decrypt_payload() {
    let dek = generate();
    let plaintext = b"test payload";

    let encrypted = encrypt_payload(&dek, plaintext).expect("encrypt failed");
    assert_eq!(encrypted.nonce.len(), 12);
    assert_eq!(encrypted.tag.len(), 16);
    assert!(encrypted.ciphertext.len() > 0);

    let decrypted = decrypt_payload(&dek, &encrypted).expect("decrypt failed");
    assert_eq!(decrypted, plaintext);
}

#[test]
fn decrypt_with_wrong_dek_fails() {
    let dek1 = generate();
    let dek2 = generate();
    let plaintext = b"secret message";

    let encrypted = encrypt_payload(&dek1, plaintext).expect("encrypt failed");
    let result = decrypt_payload(&dek2, &encrypted);
    assert!(result.is_err());
}

#[test]
fn different_encryptions_use_different_nonces() {
    let dek = generate();
    let plaintext = b"same plaintext";

    let enc1 = encrypt_payload(&dek, plaintext).expect("encrypt1 failed");
    let enc2 = encrypt_payload(&dek, plaintext).expect("encrypt2 failed");

    assert_ne!(enc1.nonce, enc2.nonce);
}

#[test]
fn register_and_wrap_dek_succeeds() {
    let device = Ctap2Device {
        device_id: "test".to_string(),
        serial: Some("YubiKey#123".to_string()),
    };
    let dek = [99u8; 32];

    let slot = register_on_simulator(&device, &dek);
    assert!(slot.counter > 0, "counter must be set from initial assertion");
    assert_eq!(slot.algorithm, -7);
    assert!(!slot.encrypted_dek.is_empty());
    assert_eq!(slot.credential_id, b"mock_credential_id");
    assert_eq!(slot.challenge, vec![9u8; 32]);
    assert_eq!(slot.device_serial.as_deref(), Some("YubiKey#123"));
}

#[test]
fn derive_wrapping_key_deterministic() {
    let hmac_secret = [1u8; 32];
    let challenge = b"test_challenge";

    let key1 = derive_wrapping_key(&hmac_secret, challenge).expect("derive1 failed");
    let key2 = derive_wrapping_key(&hmac_secret, challenge).expect("derive2 failed");

    assert_eq!(key1, key2);
}

#[test]
fn different_challenges_produce_different_keys() {
    let hmac_secret = [2u8; 32];
    let challenge1 = b"challenge1";
    let challenge2 = b"challenge2";

    let key1 = derive_wrapping_key(&hmac_secret, challenge1).expect("derive1 failed");
    let key2 = derive_wrapping_key(&hmac_secret, challenge2).expect("derive2 failed");

    assert_ne!(key1, key2);
}

#[test]
fn round_trip_register_then_unwrap_recovers_dek() {
    let device = Ctap2Device {
        device_id: "test".to_string(),
        serial: Some("YubiKey#456".to_string()),
    };
    let original_dek = [77u8; 32];

    let slot = register_on_simulator(&device, &original_dek);
    let challenge: [u8; 32] = slot.challenge.clone().try_into().unwrap();
    let assertion =
        get_assertion_with_hmac_secret(&device, &slot.credential_id, &challenge, slot.counter)
            .unwrap();
    let recovered_dek = unwrap_with_assertion(&slot, &assertion).expect("unlock failed");

    assert_eq!(original_dek, recovered_dek);
}

#[test]
fn wrap_and_unwrap_dek() {
    let pw = "test_password_123";
    let dek = [42u8; 32];
    let params = KdfParams::for_tests();

    let slot = password::wrap_dek(pw, &dek, &params).expect("wrap failed");
    assert_eq!(slot.salt.len(), 32);
    assert_eq!(slot.nonce.len(), 12);
    assert!(slot.encrypted_dek.len() > 0);

    let recovered = password::unwrap_dek(pw, &slot).expect("unwrap failed");
    assert_eq!(recovered, dek);
}

#[test]
fn unwrap_with_wrong_password_fails() {
    let pw = "correct_password";
    let dek = [99u8; 32];
    let params = KdfParams::for_tests();

    let slot = password::wrap_dek(pw, &dek, &params).expect("wrap failed");
    let result = password::unwrap_dek("wrong_password", &slot);
    assert!(result.is_err());
}

#[test]
fn wrap_empty_password_fails() {
    let dek = [7u8; 32];
    let params = KdfParams::for_tests();
    let result = password::wrap_dek("", &dek, &params);
    assert!(matches!(result, Err(KenvError::WeakPassword)));
}

#[test]
fn wrap_and_unwrap_dek_with_touchid() {
    let dek = [42u8; 32];
    let mut slot = touchid::seal_dek(&dek).expect("wrap failed");
    slot.keychain_ref = store_touchid_protected_secret(&slot.encrypted_dek, "test_touchid").unwrap();

    assert_eq!(slot.biometric_type, "touchid");
    assert_eq!(slot.nonce.len(), 12);
    assert!(!slot.encrypted_dek.is_empty());

    evaluate_biometric("Unlock vault with Touch ID", BiometricType::TouchId).unwrap();
    retrieve_touchid_protected_secret(&slot.keychain_ref).unwrap();
    let recovered = touchid::open_slot(&slot).expect("unwrap failed");
    assert_eq!(recovered, dek);
}
