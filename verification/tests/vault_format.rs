use kenv_core::crypto::KdfParams;
use kenv_core::slots::{PasswordSlotData, SlotType, Timestamp, TouchIdSlotData, UnlockSlot};
use kenv_core::vault::{
    build_cleartext_slot_records, encode_vault_bytes, parse_cleartext_slot_records,
    validate_vault_header, ParsedSlotKeyData, FILE_VERSION_V1, FILE_VERSION_V2, MAGIC,
};
use kenv_core::{vault_status_from, KenvError, VaultState, VaultStatus};

const EMPTY_SLOTS: &[u8] = &[0u8];

fn zero_params() -> KdfParams {
    KdfParams { m_cost: 0, t_cost: 0, p_cost: 0 }
}

fn pseudo_random(i: usize) -> u8 {
    ((i as u32).wrapping_mul(0x9e37_79b9)) as u8
}

fn header_only(version: u8, salt_byte: bool, nonce_byte: bool) -> Vec<u8> {
    let mut data = vec![0u8; 91];
    data[0..4].copy_from_slice(b"KENV");
    data[4] = version;
    data[5] = 1;
    if salt_byte {
        for i in 18..50 {
            data[i] = pseudo_random(i);
        }
    }
    if nonce_byte {
        for i in 50..62 {
            data[i] = pseudo_random(i);
        }
    }
    data
}

#[test]
fn validate_rejects_wrong_magic() {
    let mut b = vec![0u8; 78];
    b[0..4].copy_from_slice(b"XXXX");
    assert!(validate_vault_header(&b).is_err());
}

#[test]
fn validate_rejects_too_short() {
    assert!(validate_vault_header(&[0u8; 10]).is_err());
}

#[test]
fn validate_rejects_v1_with_version_unsupported_error() {
    let mut data = vec![0u8; 91];
    data[0..4].copy_from_slice(b"KENV");
    data[4] = FILE_VERSION_V1;
    data[5] = 1;
    data[6..10].copy_from_slice(&65536u32.to_be_bytes());
    data[10..14].copy_from_slice(&3u32.to_be_bytes());
    data[14..18].copy_from_slice(&1u32.to_be_bytes());
    data[18] = 1;
    data[50] = 1;
    assert!(matches!(validate_vault_header(&data), Err(KenvError::VaultVersionUnsupported(1))));
}

#[test]
fn v1_error_is_distinct_from_invalid_format() {
    let mut corrupt = vec![0u8; 91];
    corrupt[0..4].copy_from_slice(b"KENV");
    corrupt[4] = 0xFF;
    corrupt[18] = 1;
    corrupt[50] = 1;

    let mut v1 = vec![0u8; 91];
    v1[0..4].copy_from_slice(b"KENV");
    v1[4] = FILE_VERSION_V1;
    v1[18] = 1;
    v1[50] = 1;

    assert!(matches!(validate_vault_header(&corrupt), Err(KenvError::InvalidVaultFormat)));
    assert!(matches!(validate_vault_header(&v1), Err(KenvError::VaultVersionUnsupported(1))));
}

#[test]
fn encoded_file_has_header_layout() {
    let b = encode_vault_bytes(
        &[7u8; 32],
        &[99u8; 12],
        &[0u8; 16],
        &zero_params(),
        FILE_VERSION_V2,
        EMPTY_SLOTS,
    );
    assert_eq!(b.len(), 62 + 1 + 16);
    assert_eq!(&b[0..4], MAGIC);
    assert_eq!(b[4], FILE_VERSION_V2);
    assert_eq!(b[5], 1);
    assert_eq!(&b[6..18], &[0u8; 12]);
    assert_eq!(&b[18..50], &[7u8; 32]);
    assert_eq!(&b[50..62], &[99u8; 12]);
    assert_eq!(b[62], 0);
}

#[test]
fn header_costs_are_zero_in_v2_and_big_endian_in_v1() {
    let params = KdfParams { m_cost: 65536, t_cost: 3, p_cost: 1 };
    let v2 = encode_vault_bytes(&[1u8; 32], &[1u8; 12], &[9], &params, FILE_VERSION_V2, &[0]);
    assert_eq!(&v2[6..18], &[0u8; 12]);
    assert_eq!(v2.len(), 62 + 1 + 1);

    let v1 = encode_vault_bytes(&[1u8; 32], &[1u8; 12], &[9], &params, FILE_VERSION_V1, &[0]);
    assert_eq!(&v1[6..10], &65536u32.to_be_bytes());
    assert_eq!(&v1[10..14], &3u32.to_be_bytes());
    assert_eq!(&v1[14..18], &1u32.to_be_bytes());
    // Version 1 has no slot section.
    assert_eq!(v1.len(), 62 + 1);
}

#[test]
fn validate_accepts_valid_encoded_header() {
    let mut salt = [0u8; 32];
    let mut nonce = [0u8; 12];
    salt[0] = 1;
    nonce[0] = 1;
    let b = encode_vault_bytes(&salt, &nonce, &[0u8; 29], &zero_params(), FILE_VERSION_V2, EMPTY_SLOTS);
    assert_eq!(validate_vault_header(&b).unwrap(), FILE_VERSION_V2);

    let mut bad_kdf = b.clone();
    bad_kdf[5] = 0xFF;
    assert!(matches!(validate_vault_header(&bad_kdf), Err(KenvError::InvalidVaultFormat)));
}

#[test]
fn status_is_missing_without_a_file() {
    assert_eq!(vault_status_from(&VaultState::new(), None), VaultStatus::Missing);
}

#[test]
fn status_is_corrupted_for_garbage() {
    assert_eq!(vault_status_from(&VaultState::new(), Some(b"garbage")), VaultStatus::Corrupted);
}

#[test]
fn status_is_corrupted_when_salt_is_all_zeros() {
    let data = header_only(FILE_VERSION_V2, false, true);
    assert_eq!(vault_status_from(&VaultState::new(), Some(&data)), VaultStatus::Corrupted);
}

#[test]
fn status_is_corrupted_when_nonce_is_all_zeros() {
    let data = header_only(FILE_VERSION_V2, true, false);
    assert_eq!(vault_status_from(&VaultState::new(), Some(&data)), VaultStatus::Corrupted);
}

#[test]
fn status_is_locked_when_header_valid_and_ciphertext_is_garbage() {
    let data = header_only(FILE_VERSION_V2, true, true);
    assert_eq!(vault_status_from(&VaultState::new(), Some(&data)), VaultStatus::Locked);
}

/// A version-2 file with the slot section `records` and no ciphertext.
fn with_slots(records: &[u8]) -> Vec<u8> {
    encode_vault_bytes(&[1u8; 32], &[1u8; 12], &[], &zero_params(), FILE_VERSION_V2, records)
}

fn password_slot(id: u8) -> UnlockSlot {
    UnlockSlot {
        slot_id: id,
        slot_type: SlotType::Password,
        label: "pw".to_string(),
        created_at: Timestamp { secs: 1, nanos: 0 },
        password: Some(PasswordSlotData {
            salt: [5u8; 32],
            kdf_m_cost: 8,
            kdf_t_cost: 1,
            kdf_p_cost: 1,
            nonce: [6u8; 12],
            encrypted_dek: vec![7u8; 32],
            tag: [8u8; 16],
        }),
        ctap2: None,
        touchid: None,
        requires_pin: false,
        requires_touch: false,
        pin_attempts_left: None,
        last_used: None,
        disabled: false,
    }
}

fn touchid_slot(id: u8) -> UnlockSlot {
    UnlockSlot {
        slot_id: id,
        slot_type: SlotType::TouchId,
        label: "finger".to_string(),
        created_at: Timestamp { secs: 1, nanos: 0 },
        password: None,
        ctap2: None,
        touchid: Some(TouchIdSlotData {
            keychain_ref: b"ref".to_vec(),
            nonce: [1u8; 12],
            encrypted_dek: vec![2u8; 32],
            tag: [3u8; 16],
            biometric_type: "touchid".to_string(),
        }),
        requires_pin: false,
        requires_touch: false,
        pin_attempts_left: None,
        last_used: None,
        disabled: false,
    }
}

#[test]
fn slot_records_round_trip() {
    let slots = vec![password_slot(1), touchid_slot(4)];
    let records = build_cleartext_slot_records(&slots);
    assert_eq!(records[0], 2);
    // Password record: id, type, 16-bit payload length 104, then the payload.
    assert_eq!(&records[1..5], &[1, 1, 0, 104]);

    let file = with_slots(&records);
    let (parsed, consumed) = parse_cleartext_slot_records(&file).unwrap();
    assert_eq!(consumed, 62 + records.len());
    assert_eq!(parsed.len(), 2);
    assert_eq!(parsed[0].slot_id, 1);
    assert_eq!(parsed[0].slot_type, 1);
    match &parsed[0].key_data {
        ParsedSlotKeyData::Password(p) => {
            assert_eq!(p.salt, [5u8; 32]);
            assert_eq!((p.kdf_m_cost, p.kdf_t_cost, p.kdf_p_cost), (8, 1, 1));
            assert_eq!(p.nonce, [6u8; 12]);
            assert_eq!(p.encrypted_dek, vec![7u8; 32]);
            assert_eq!(p.tag, [8u8; 16]);
        },
        other => panic!("unexpected {other:?}"),
    }
    assert_eq!(parsed[1].slot_id, 4);
    match &parsed[1].key_data {
        ParsedSlotKeyData::TouchId { keychain_ref, nonce, encrypted_dek, tag } => {
            assert_eq!(keychain_ref, b"ref");
            assert_eq!(nonce, &[1u8; 12]);
            assert_eq!(encrypted_dek, &vec![2u8; 32]);
            assert_eq!(tag, &[3u8; 16]);
        },
        other => panic!("unexpected {other:?}"),
    }
}

#[test]
fn slots_without_key_material_are_not_recorded() {
    let mut bare = touchid_slot(9);
    bare.touchid = None;
    let records = build_cleartext_slot_records(&[bare, password_slot(2)]);
    let (parsed, _) = parse_cleartext_slot_records(&with_slots(&records)).unwrap();
    assert_eq!(parsed.len(), 1);
    assert_eq!(parsed[0].slot_id, 2);
}

#[test]
fn truncated_slot_section_is_invalid() {
    let records = build_cleartext_slot_records(&[password_slot(1)]);
    let file = with_slots(&records);
    let cut = &file[..file.len() - 1];
    assert!(matches!(parse_cleartext_slot_records(cut), Err(KenvError::InvalidVaultFormat)));
    assert!(matches!(parse_cleartext_slot_records(&file[..62]), Err(KenvError::InvalidVaultFormat)));
}
