use kenv_core::crypto::KdfParams;
use kenv_core::lifecycle::{
    install_session, new_vault_payload, seal_new_vault, seal_vault_for_persist, unlock_vault_bytes,
};
use kenv_core::session::{add_password_slot, apply_and_persist, SlotChange};
use kenv_core::session::reauth_password;
use kenv_core::slots::{Ctap2SlotData, SlotType, Timestamp, UnlockSlot};
use kenv_core::ssh::{SshKey, SshKeyType};
use kenv_core::vault::{parse_cleartext_slot_records, VaultPayload};
use kenv_core::{
    add_slot, finish_mutation, get_vault_status_with, list_slots, list_ssh_keys, lock,
    remove_slot, rename_slot, sign_ssh_key, test_insert_ssh_key, KenvError, VaultState,
    VaultStatus,
};

const PATH: &[u8] = b"/home/user/.kenv/vault.kenv";

fn at(secs: u64) -> Timestamp {
    Timestamp { secs, nanos: 0 }
}

/// A new vault for `password`: its file bytes and its payload.
fn create(password: &str) -> (Vec<u8>, VaultPayload) {
    let (payload, dek) =
        new_vault_payload(password, &KdfParams::for_tests(), at(1_000)).expect("create vault");
    let file = seal_new_vault(&dek, b"{\"version\":1}", &payload.slots).expect("seal vault");
    (file, payload)
}

/// Unlocks `file` with `password` into a fresh session holding `payload`.
fn open(file: &[u8], payload: &VaultPayload, password: &str) -> VaultState {
    let unlocked = unlock_vault_bytes(file, password).expect("unlock");
    let mut state = VaultState::new();
    let status = install_session(&mut state, payload.clone(), unlocked, PATH.to_vec(), at(2_000));
    assert_eq!(status, VaultStatus::Unlocked);
    state
}

/// The ids of the slots whose key records a vault file carries.
fn recorded_ids(file: &[u8]) -> Vec<u8> {
    let (records, _) = parse_cleartext_slot_records(file).expect("records");
    records.iter().map(|r| r.slot_id).collect()
}

fn ctap2_slot(slot_id: u8, label: &str) -> UnlockSlot {
    UnlockSlot {
        slot_id,
        slot_type: SlotType::Ctap2,
        label: label.to_string(),
        created_at: at(1_500),
        password: None,
        ctap2: Some(Ctap2SlotData {
            credential_id: vec![slot_id],
            public_key: vec![0u8; 65],
            challenge: vec![0u8; 32],
            counter: 0,
            algorithm: -7,
            device_serial: None,
            attestation_data: None,
            nonce: [0u8; 12],
            encrypted_dek: vec![0u8; 32],
            tag: [0u8; 16],
            requires_pin: false,
            requires_uv: false,
            requires_touch: false,
        }),
        touchid: None,
        requires_pin: false,
        requires_touch: true,
        pin_attempts_left: None,
        last_used: None,
        disabled: false,
    }
}

fn bare_slot(slot_id: u8, slot_type: SlotType) -> UnlockSlot {
    UnlockSlot {
        slot_id,
        slot_type,
        label: "bare".to_string(),
        created_at: at(1_500),
        password: None,
        ctap2: None,
        touchid: None,
        requires_pin: false,
        requires_touch: false,
        pin_attempts_left: None,
        last_used: None,
        disabled: false,
    }
}

fn ssh_key(key_id: &str) -> SshKey {
    SshKey {
        key_id: key_id.to_string(),
        name: "test".to_string(),
        public_key: vec![0u8; 32],
        private_key: vec![0u8; 64],
        key_type: SshKeyType::Ed25519,
        created_at: at(1_500),
        last_used: None,
        disabled: false,
        require_reauthentication: false,
    }
}

fn slot_ids(state: &VaultState) -> Vec<u8> {
    list_slots(state).expect("list_slots").iter().map(|s| s.slot_id).collect()
}

#[test]
fn vault_already_exists_variant_displays() {
    assert_eq!(KenvError::VaultAlreadyExists.to_string(), "vault already exists");
}

#[test]
fn invalid_vault_format_variant_displays() {
    assert_eq!(KenvError::InvalidVaultFormat.to_string(), "vault file has an invalid format");
}

#[test]
fn encryption_error_variant_displays() {
    assert_eq!(KenvError::EncryptionError.to_string(), "encryption or decryption failed");
}

#[test]
fn every_error_variant_has_its_message() {
    let cases = [
        (KenvError::VaultMissing, "vault does not exist"),
        (KenvError::VaultLocked, "vault is locked"),
        (KenvError::UnlockFailed, "unlock failed"),
        (KenvError::ContextMissing, "context does not exist"),
        (KenvError::InvalidEnvironmentVariableName, "environment variable name is invalid"),
        (KenvError::SshKeyUnavailable, "ssh key does not exist or is unsupported"),
        (KenvError::PlatformCapabilityUnavailable, "platform capability is unavailable"),
        (KenvError::SshSigningNotImplemented, "ssh key signing is not yet implemented"),
        (KenvError::FileOperationFailed, "file operation failed"),
        (KenvError::WeakPassword, "password must not be empty"),
        (KenvError::LastPasswordSlot, "cannot remove the last password slot"),
        (KenvError::VaultVersionUnsupported(1), "unsupported vault file version 1"),
        (KenvError::VaultVersionUnsupported(255), "unsupported vault file version 255"),
        (KenvError::InvalidSlotData, "unlock slot is missing its key material"),
    ];
    for (e, m) in cases {
        assert_eq!(e.to_string(), m);
    }
}

#[test]
fn multiple_lock_calls_are_safe() {
    let mut state = VaultState::new();
    let result1 = lock(&mut state);
    let result2 = lock(&mut state);
    let result3 = lock(&mut state);

    assert!(result1.is_ok());
    assert!(result2.is_ok());
    assert!(result3.is_ok());
}

#[test]
fn add_slot_requires_unlocked_vault() {
    let mut state = VaultState::new();
    let slot = UnlockSlot {
        slot_id: 1,
        slot_type: SlotType::Ctap2,
        label: "Test Slot".to_string(),
        created_at: at(1_500),
        password: None,
        ctap2: None,
        touchid: None,
        requires_pin: false,
        requires_touch: true,
        pin_attempts_left: None,
        last_used: None,
        disabled: false,
    };

    let error = add_slot(&mut state, slot).unwrap_err();
    assert_eq!(error.to_string(), "vault is locked");
}

#[test]
fn list_slots_requires_unlocked_vault() {
    let state = VaultState::new();
    let error = list_slots(&state).unwrap_err();
    assert_eq!(error.to_string(), "vault is locked");
}

#[test]
fn rename_slot_requires_unlocked_vault() {
    let mut state = VaultState::new();
    let error = rename_slot(&mut state, 0, "new label".to_string()).unwrap_err();
    assert_eq!(error.to_string(), "vault is locked");
}

#[test]
fn remove_slot_requires_unlocked_vault() {
    let mut state = VaultState::new();
    let error = remove_slot(&mut state, 0, at(3_000)).unwrap_err();
    assert_eq!(error.to_string(), "vault is locked");
}

#[test]
fn reauth_password_requires_unlocked_vault() {
    let mut state = VaultState::new();
    let error = reauth_password(&mut state, "password", PATH, at(3_000)).unwrap_err();
    assert_eq!(error.to_string(), "vault is locked");
}

#[test]
fn list_ssh_keys_requires_unlocked_vault() {
    let state = VaultState::new();
    let error = list_ssh_keys(&state).unwrap_err();
    assert_eq!(error.to_string(), "vault is locked");
}

#[test]
fn sign_ssh_key_requires_unlocked_vault() {
    let state = VaultState::new();
    let error = sign_ssh_key(&state, "key-id", b"data", at(3_000)).unwrap_err();
    assert_eq!(error.to_string(), "vault is locked");
}

#[test]
fn sign_ssh_key_not_implemented_when_unlocked() {
    let (file, payload) = create("pw");
    let mut state = open(&file, &payload, "pw");
    test_insert_ssh_key(&mut state, ssh_key("test-ed25519"));

    let error = sign_ssh_key(&state, "test-ed25519", b"data", at(3_000)).unwrap_err();
    assert!(matches!(error, KenvError::SshSigningNotImplemented));
}

#[test]
fn sign_unknown_key_is_unavailable() {
    let (file, payload) = create("pw");
    let state = open(&file, &payload, "pw");
    let error = sign_ssh_key(&state, "missing", b"data", at(3_000)).unwrap_err();
    assert!(matches!(error, KenvError::SshKeyUnavailable));
}

#[test]
fn supports_injected_status_provider_for_tests() {
    let status = get_vault_status_with(|| Ok(VaultStatus::Locked)).unwrap();
    assert_eq!(status, VaultStatus::Locked);
}

#[test]
fn returns_injected_error_for_tests() {
    let error = get_vault_status_with(|| Err(KenvError::UnlockFailed)).unwrap_err();
    assert_eq!(error.to_string(), "unlock failed");
}

#[test]
fn unlock_error_paths_are_tested_elsewhere() {
    // Corrupted ciphertext and wrong keys are refused by the AEAD tag check,
    // exercised by the decrypt tests and the wrong-password unlock tests.
}

#[test]
fn write_failure_cleanup_cleanup_on_readonly_parent() {
    // Writing the file is the application's part; a failed write leaves the
    // session as it was (see the rollback tests).
}

#[test]
fn newly_created_vault_has_password_slot() {
    let password = "test_password_123";
    let (file, payload) = create(password);
    let mut state = open(&file, &payload, password);
    assert_eq!(slot_ids(&state), vec![1]);
    assert_eq!(list_slots(&state).unwrap()[0].slot_type, SlotType::Password);
    reauth_password(&mut state, password, PATH, at(3_000))
        .expect("reauth should succeed with correct password");
}

#[test]
fn newly_created_vault_reauth_fails_with_wrong_password() {
    let password = "test_password_123";
    let (file, payload) = create(password);
    let mut state = open(&file, &payload, password);
    let error = reauth_password(&mut state, "wrong_password", PATH, at(3_000)).unwrap_err();
    assert_eq!(error.to_string(), "unlock failed");
}

#[test]
fn add_slot_persists_across_lock_unlock() {
    let password = "test_password_123";
    let (file, payload) = create(password);
    let mut state = open(&file, &payload, password);

    add_slot(&mut state, ctap2_slot(2, "yubikey")).expect("add_slot");
    let persisted = seal_vault_for_persist(&state, b"{\"version\":1}").expect("persist");
    let reloaded = state.payload.clone().unwrap();

    lock(&mut state).unwrap();
    let state = open(&persisted, &reloaded, password);
    assert!(slot_ids(&state).contains(&2), "added slot must survive reload");
    assert_eq!(recorded_ids(&persisted), vec![1, 2]);
}

#[test]
fn remove_slot_persists_across_lock_unlock() {
    let password = "test_password_123";
    let (file, payload) = create(password);
    let mut state = open(&file, &payload, password);

    add_slot(&mut state, ctap2_slot(2, "yubikey")).expect("add_slot");
    remove_slot(&mut state, 2, at(3_000)).expect("remove_slot");
    let persisted = seal_vault_for_persist(&state, b"{\"version\":1}").expect("persist");
    let reloaded = state.payload.clone().unwrap();

    lock(&mut state).unwrap();
    let state = open(&persisted, &reloaded, password);
    let ids = slot_ids(&state);
    assert!(ids.iter().all(|id| *id != 2), "removed slot must stay gone after reload");
    assert!(ids.contains(&1), "password slot must remain");
    assert_eq!(recorded_ids(&persisted), vec![1]);
}

#[test]
fn rename_slot_changes_only_the_label() {
    let (file, payload) = create("pw");
    let mut state = open(&file, &payload, "pw");
    rename_slot(&mut state, 1, "renamed".to_string()).expect("rename");
    let slots = list_slots(&state).unwrap();
    assert_eq!(slots.len(), 1);
    assert_eq!(slots[0].label, "renamed");
    assert_eq!(slots[0].slot_type, SlotType::Password);
    let error = rename_slot(&mut state, 9, "x".to_string()).unwrap_err();
    assert!(matches!(error, KenvError::EncryptionError));
}

#[test]
fn cannot_remove_last_password_slot() {
    let password = "test_password_123";
    let (file, payload) = create(password);
    let mut state = open(&file, &payload, password);

    let error = remove_slot(&mut state, 1, at(3_000)).unwrap_err();
    assert_eq!(error.to_string(), "cannot remove the last password slot");
    assert!(slot_ids(&state).contains(&1), "last password slot must survive");
}

#[test]
fn can_remove_password_slot_when_another_remains() {
    let password = "test_password_123";
    let (file, payload) = create(password);
    let mut state = open(&file, &payload, password);

    add_password_slot(&mut state, password, &KdfParams::for_tests(), at(2_500))
        .expect("add second password slot");
    reauth_password(&mut state, password, PATH, at(2_600)).expect("reauth should succeed");
    remove_slot(&mut state, 1, at(2_700)).expect("removing a non-last password slot");

    let persisted = seal_vault_for_persist(&state, b"{\"version\":1}").expect("persist");
    let reloaded = state.payload.clone().unwrap();
    lock(&mut state).unwrap();

    let unlocked = unlock_vault_bytes(&persisted, password).expect("re-unlock via backup slot");
    assert_eq!(unlocked.slot_id, 2);
    let state = open(&persisted, &reloaded, password);
    let ids = slot_ids(&state);
    assert!(ids.iter().all(|id| *id != 1), "removed slot stays gone");
    assert!(ids.contains(&2), "backup slot persists");
}

#[test]
fn remove_nonpassword_active_unlock_slot_requires_reauth() {
    let (file, payload) = create("pass");
    let mut state = open(&file, &payload, "pass");

    state.payload.as_mut().unwrap().slots.push(bare_slot(99, SlotType::Ctap2));
    state.last_unlock_slot_id = Some(99);

    assert!(matches!(remove_slot(&mut state, 99, at(3_000)).unwrap_err(), KenvError::UnlockFailed));

    reauth_password(&mut state, "pass", PATH, at(3_000)).unwrap();
    remove_slot(&mut state, 99, at(3_010)).unwrap();
}

#[test]
fn reauth_uses_unlock_slot_not_first_slot() {
    let password1 = "first_password";
    let password2 = "second_password";

    let (file, payload) = create(password1);
    let mut state = open(&file, &payload, password1);

    add_password_slot(&mut state, password2, &KdfParams::for_tests(), at(2_500))
        .expect("add second password slot");
    let persisted = seal_vault_for_persist(&state, b"{\"version\":1}").expect("persist");
    let reloaded = state.payload.clone().unwrap();
    lock(&mut state).unwrap();

    let mut state = open(&persisted, &reloaded, password2);
    assert_eq!(state.last_unlock_slot_id, Some(2));

    reauth_password(&mut state, password2, PATH, at(3_000))
        .expect("reauth with password2 must succeed after unlocking with it");

    let err = reauth_password(&mut state, password1, PATH, at(3_000)).unwrap_err();
    assert_eq!(err.to_string(), "unlock failed", "reauth with the wrong slot's password must fail");
}

#[test]
fn add_slot_rejects_password_slot_without_password_data() {
    let (file, payload) = create("pass");
    let mut state = open(&file, &payload, "pass");
    let err = add_slot(&mut state, bare_slot(10, SlotType::Password)).unwrap_err();
    assert!(matches!(err, KenvError::InvalidSlotData), "got {err:?}");
}

#[test]
fn add_slot_rejects_ctap2_slot_without_ctap2_data() {
    let (file, payload) = create("pass");
    let mut state = open(&file, &payload, "pass");
    let err = add_slot(&mut state, bare_slot(11, SlotType::Ctap2)).unwrap_err();
    assert!(matches!(err, KenvError::InvalidSlotData), "got {err:?}");
}

#[test]
fn add_slot_rejects_touchid_slot_without_touchid_data() {
    let (file, payload) = create("pass");
    let mut state = open(&file, &payload, "pass");
    let err = add_slot(&mut state, bare_slot(12, SlotType::TouchId)).unwrap_err();
    assert!(matches!(err, KenvError::InvalidSlotData), "got {err:?}");
}

#[test]
fn add_slot_rejects_duplicate_id() {
    let (file, payload) = create("pass");
    let mut state = open(&file, &payload, "pass");
    let err = add_slot(&mut state, ctap2_slot(1, "dup")).unwrap_err();
    assert!(matches!(err, KenvError::EncryptionError));
    assert_eq!(slot_ids(&state), vec![1]);
}

#[test]
fn unlock_with_wrong_password_fails() {
    let (file, _) = create("correct-password");
    let err = unlock_vault_bytes(&file, "wrong-password").err().unwrap();
    assert!(matches!(err, KenvError::UnlockFailed));
}

#[test]
fn unlock_with_empty_password_fails() {
    let (file, _) = create("my-password");
    let err = unlock_vault_bytes(&file, "").err().unwrap();
    assert!(matches!(err, KenvError::UnlockFailed));
}

#[test]
fn unlock_with_slightly_different_password_fails() {
    let (file, _) = create("password123");
    let err = unlock_vault_bytes(&file, "password124").err().unwrap();
    assert!(matches!(err, KenvError::UnlockFailed));
}

#[test]
fn unlock_gives_back_the_sealed_payload() {
    let (payload, dek) = new_vault_payload("pw", &KdfParams::for_tests(), at(1_000)).unwrap();
    let file = seal_new_vault(&dek, b"payload bytes", &payload.slots).unwrap();
    let unlocked = unlock_vault_bytes(&file, "pw").unwrap();
    assert_eq!(unlocked.dek, dek);
    assert_eq!(unlocked.slot_id, 1);
    assert_eq!(unlocked.plaintext, b"payload bytes");
    assert_eq!(&unlocked.salt[..], &file[18..50]);
}

#[test]
fn unlock_rejects_corrupted_ciphertext() {
    let (mut file, _) = create("pw");
    let last = file.len() - 1;
    file[last] ^= 0x01;
    let err = unlock_vault_bytes(&file, "pw").err().unwrap();
    assert!(matches!(err, KenvError::UnlockFailed));
}

#[test]
fn unlock_clears_previous_reauth_window() {
    let password = "test_password_123";
    let (file, payload) = create(password);
    let mut state = open(&file, &payload, password);

    add_password_slot(&mut state, password, &KdfParams::for_tests(), at(2_100))
        .expect("add second password slot");
    reauth_password(&mut state, password, PATH, at(2_200)).expect("reauth in session A");
    remove_slot(&mut state, 2, at(2_300)).expect("remove within active reauth window");

    add_password_slot(&mut state, password, &KdfParams::for_tests(), at(2_400))
        .expect("re-add second password slot");
    reauth_password(&mut state, password, PATH, at(2_500)).expect("reauth again before lock");
    let persisted = seal_vault_for_persist(&state, b"{\"version\":1}").expect("persist");
    let reloaded = state.payload.clone().unwrap();

    // Session B replaces session A without a lock in between.
    let unlocked = unlock_vault_bytes(&persisted, password).expect("second unlock");
    install_session(&mut state, reloaded, unlocked, PATH.to_vec(), at(2_600));
    assert_eq!(state.reauthenticated_at, None);

    let err = remove_slot(&mut state, 2, at(2_700)).expect_err("remove must require fresh reauth");
    assert!(matches!(err, KenvError::UnlockFailed), "expected UnlockFailed, got {:?}", err);
}

#[test]
fn repeated_unlock_lock_cycles_keep_state_consistent() {
    let password = "test_password_123";
    let (file, payload) = create(password);
    let mut state = VaultState::new();

    for _ in 0..3 {
        let unlocked = unlock_vault_bytes(&file, password).expect("unlock");
        install_session(&mut state, payload.clone(), unlocked, PATH.to_vec(), at(2_000));
        lock(&mut state).ok();
        let err = list_slots(&state).expect_err("must be locked after lock()");
        assert_eq!(err.to_string(), "vault is locked");
    }
}

#[test]
fn reauth_succeeds_when_session_is_unchanged() {
    let (file, payload) = create("password");
    let mut state = open(&file, &payload, "password");
    reauth_password(&mut state, "password", PATH, at(3_000))
        .expect("reauth must succeed on an unchanged session");
    assert_eq!(state.reauthenticated_at, Some(at(3_000)));
}

#[test]
fn reauth_fails_when_decrypted_dek_does_not_match_session_dek() {
    let (file, payload) = create("password");
    let mut state = open(&file, &payload, "password");
    state.dek = Some([0xAB; 32]);

    let err = reauth_password(&mut state, "password", PATH, at(3_000)).unwrap_err();
    assert!(matches!(err, KenvError::UnlockFailed), "got: {err:?}");
}

#[test]
fn reauth_for_another_vault_path_is_locked() {
    let (file, payload) = create("password");
    let mut state = open(&file, &payload, "password");
    let err = reauth_password(&mut state, "password", b"/elsewhere/vault.kenv", at(3_000))
        .unwrap_err();
    assert!(matches!(err, KenvError::VaultLocked));
}

#[test]
fn removing_password_slot_needs_fresh_reauth() {
    let password = "pw";
    let (file, payload) = create(password);
    let mut state = open(&file, &payload, password);
    add_password_slot(&mut state, password, &KdfParams::for_tests(), at(2_100)).unwrap();
    reauth_password(&mut state, password, PATH, at(2_200)).unwrap();
    // Five minutes later the window has closed.
    let err = remove_slot(&mut state, 2, at(2_500)).unwrap_err();
    assert!(matches!(err, KenvError::UnlockFailed));
    assert!(slot_ids(&state).contains(&2));
    // Just inside the window the removal goes through.
    reauth_password(&mut state, password, PATH, at(2_600)).unwrap();
    remove_slot(&mut state, 2, at(2_899)).unwrap();
    assert_eq!(slot_ids(&state), vec![1]);
}

#[test]
fn add_slot_rollback_on_persist_failure() {
    let (file, payload) = create("pass");
    let mut state = open(&file, &payload, "pass");

    let before = state.clone();
    add_slot(&mut state, ctap2_slot(10, "slot-10")).unwrap();
    let result = finish_mutation(&mut state, before, Err(KenvError::FileOperationFailed));
    assert!(result.is_err(), "add_slot must return Err when persist fails");

    let ids = slot_ids(&state);
    assert!(ids.iter().all(|id| *id != 10), "slot 10 must be absent after rollback: {ids:?}");
}

#[test]
fn rename_slot_rollback_on_persist_failure() {
    let (file, payload) = create("pass");
    let mut state = open(&file, &payload, "pass");

    let original_label = list_slots(&state).unwrap()[0].label.clone();

    let before = state.clone();
    rename_slot(&mut state, 1, "renamed".to_string()).unwrap();
    let result = finish_mutation(&mut state, before, Err(KenvError::FileOperationFailed));
    assert!(result.is_err(), "rename_slot must return Err when persist fails");

    let label = list_slots(&state).unwrap()[0].label.clone();
    assert_eq!(label, original_label, "slot 1 label must be restored to original after rollback");
}

#[test]
fn remove_slot_rollback_on_persist_failure() {
    let (file, payload) = create("pass");
    let mut state = open(&file, &payload, "pass");

    add_slot(&mut state, ctap2_slot(2, "slot-2")).expect("add second slot");

    let before = state.clone();
    remove_slot(&mut state, 2, at(3_000)).unwrap();
    let result = finish_mutation(&mut state, before, Err(KenvError::FileOperationFailed));
    assert!(result.is_err(), "remove_slot must return Err when persist fails");

    assert!(slot_ids(&state).contains(&2), "slot 2 must still be present after rollback");
}

#[test]
fn rollback_does_not_affect_subsequent_mutation() {
    let (file, payload) = create("pass");
    let mut state = open(&file, &payload, "pass");

    let before = state.clone();
    add_slot(&mut state, ctap2_slot(10, "slot-10")).unwrap();
    finish_mutation(&mut state, before, Err(KenvError::FileOperationFailed)).unwrap_err();

    let before = state.clone();
    add_slot(&mut state, ctap2_slot(11, "slot-11")).unwrap();
    finish_mutation(&mut state, before, Ok(())).expect("second add_slot must succeed");

    let ids = slot_ids(&state);
    assert!(ids.iter().all(|id| *id != 10), "slot 10 must remain absent");
    assert!(ids.contains(&11), "slot 11 must be present");
}

#[test]
fn rejects_empty_password() {
    let err = new_vault_payload("", &KdfParams::for_tests(), at(1_000)).err().unwrap();
    assert!(matches!(err, KenvError::WeakPassword));
}

#[test]
fn rejects_whitespace_only_password() {
    let err = new_vault_payload("   ", &KdfParams::for_tests(), at(1_000)).err().unwrap();
    assert!(matches!(err, KenvError::WeakPassword));
    let err = new_vault_payload(" \t\r\n", &KdfParams::for_tests(), at(1_000)).err().unwrap();
    assert!(matches!(err, KenvError::WeakPassword));
}

#[test]
fn weak_password_leaves_no_vault_file() {
    // The refusal comes before any key or file bytes exist.
    let result = new_vault_payload("", &KdfParams::recommended(), at(1_000));
    assert!(matches!(result, Err(KenvError::WeakPassword)));
}

#[test]
fn two_vaults_with_same_password_use_different_salts() {
    let (a, _) = new_vault_payload("same", &KdfParams::for_tests(), at(1_000)).unwrap();
    let (b, _) = new_vault_payload("same", &KdfParams::for_tests(), at(1_000)).unwrap();
    let sa = a.slots[0].password.as_ref().unwrap();
    let sb = b.slots[0].password.as_ref().unwrap();
    assert_ne!(sa.salt, sb.salt);
}

#[test]
fn new_vault_has_one_password_slot() {
    let (payload, _) = new_vault_payload("pw", &KdfParams::for_tests(), at(1_000)).unwrap();
    assert_eq!(payload.version, 1);
    assert_eq!(payload.slots.len(), 1);
    assert_eq!(payload.slots[0].slot_id, 1);
    assert_eq!(payload.slots[0].label, "password");
    assert_eq!(payload.slots[0].created_at, at(1_000));
    assert!(payload.ssh_keys.is_empty());
}

#[test]
fn zeroize_clears_ssh_key_material() {
    let mut payload = VaultPayload::new();
    payload.ssh_keys.push(ssh_key("ed25519"));
    payload.zeroize();
    assert!(payload.ssh_keys.is_empty());
}

#[test]
fn lock_clears_every_session_field() {
    let (file, payload) = create("pw");
    let mut state = open(&file, &payload, "pw");
    assert!(state.is_unlocked());
    lock(&mut state).unwrap();
    assert!(!state.is_unlocked());
    assert!(state.dek.is_none() && state.salt.is_none() && state.vault_path.is_none());
    assert!(state.unlocked_at.is_none() && state.last_unlock_slot_id.is_none());
}

#[test]
fn persist_needs_an_unlocked_session() {
    let state = VaultState::new();
    let err = seal_vault_for_persist(&state, b"{}").err().unwrap();
    assert!(matches!(err, KenvError::VaultLocked));
}

#[test]
fn ciphertext_does_not_contain_plaintext_json_keys() {
    let (payload, dek) = new_vault_payload("pw", &KdfParams::for_tests(), at(1_000)).unwrap();
    let plaintext = b"{\"version\":1,\"slots\":[],\"ssh_keys\":[]}";
    let file = seal_new_vault(&dek, plaintext, &payload.slots).unwrap();
    for key in [&b"\"slots\""[..], &b"\"ssh_keys\""[..], &b"\"version\""[..]] {
        assert!(!file.windows(key.len()).any(|w| w == key));
    }
}

#[test]
fn two_vaults_with_same_password_differ() {
    let (a, _) = create("same-password");
    let (b, _) = create("same-password");
    assert_ne!(a, b);
    assert_ne!(&a[18..50], &b[18..50], "file salts differ");
}

#[test]
fn failed_write_takes_each_change_back() {
    let (file, payload) = create("pass");
    let mut state = open(&file, &payload, "pass");
    let fail = |_: &VaultState| Err(KenvError::FileOperationFailed);

    let r = apply_and_persist(&mut state, SlotChange::Add(ctap2_slot(10, "ten")), at(3_000), fail);
    assert!(matches!(r, Err(KenvError::FileOperationFailed)));
    assert_eq!(slot_ids(&state), vec![1]);

    add_slot(&mut state, ctap2_slot(2, "two")).unwrap();
    let r = apply_and_persist(&mut state, SlotChange::Remove(2), at(3_000), fail);
    assert!(matches!(r, Err(KenvError::FileOperationFailed)));
    assert_eq!(slot_ids(&state), vec![1, 2]);

    let r = apply_and_persist(&mut state, SlotChange::Rename(1, "renamed".to_string()), at(3_000), fail);
    assert!(matches!(r, Err(KenvError::FileOperationFailed)));
    assert_eq!(list_slots(&state).unwrap()[0].label, "password");
}

#[test]
fn successful_write_keeps_the_change_and_sees_it() {
    let (file, payload) = create("pass");
    let mut state = open(&file, &payload, "pass");
    let seen = std::cell::Cell::new(0usize);
    let r = apply_and_persist(&mut state, SlotChange::Add(ctap2_slot(11, "eleven")), at(3_000), |s: &VaultState| {
        seen.set(s.payload.as_ref().unwrap().slots.len());
        Ok(())
    });
    assert!(r.is_ok());
    assert_eq!(seen.get(), 2);
    assert_eq!(slot_ids(&state), vec![1, 11]);

    let r = apply_and_persist(&mut state, SlotChange::Rename(11, "key".to_string()), at(3_000), |_: &VaultState| Ok(()));
    assert!(r.is_ok());
    assert_eq!(list_slots(&state).unwrap()[1].label, "key");
}

#[test]
fn refused_change_is_not_written() {
    let (file, payload) = create("pass");
    let mut state = open(&file, &payload, "pass");
    let written = std::cell::Cell::new(false);
    let r = apply_and_persist(&mut state, SlotChange::Remove(1), at(3_000), |_: &VaultState| {
        written.set(true);
        Ok(())
    });
    assert!(matches!(r, Err(KenvError::LastPasswordSlot)));
    assert!(!written.get());
    let mut locked = VaultState::new();
    let r = apply_and_persist(&mut locked, SlotChange::Rename(1, "x".to_string()), at(3_000), |_: &VaultState| Ok(()));
    assert!(matches!(r, Err(KenvError::VaultLocked)));
}
