//! Creating, unlocking and rewriting vault files.
//!
//! These functions compute file contents and sessions from bytes; reading
//! and writing files, and turning the payload to and from JSON, is the
//! caller's part.
use vstd::prelude::*;
use vstd::utf8::encode_utf8;
use crate::crypto::{
    aes256gcm_open, aes256gcm_seal, decrypt, encrypt, kdf_accepts, random_bytes_12,
    random_bytes_32, KdfParams, AEAD_MAX_PLAINTEXT,
};
use crate::bytes::wipe_array32;
use crate::error::KenvError;
use crate::session::{create_password_slot, is_new_password_slot, VaultState, VaultStatus};
use crate::slots::password::{password_unwrap_result, unwrap_dek};
use crate::slots::touchid::touchid_unwrap_result;
use crate::slots::{Timestamp, TouchIdSlotData, UnlockSlot};
use crate::text::{is_blank, str_is_blank};
use crate::vault::{
    build_cleartext_slot_records, encode_vault_bytes, header_check, parse_cleartext_slot_records,
    parse_slot_section, slot_section_bytes, validate_vault_header, vault_file_bytes,
    ParsedKeyView, ParsedRecordView, ParsedSlotKeyData, VaultPayload, FILE_VERSION_V2,
    NONCE_OFFSET, NONCE_SIZE, SALT_OFFSET, SALT_SIZE,
};

verus! {

/// What an unlock takes out of a vault file: the data encryption key, the
/// slot that released it, the file salt, and the decrypted payload bytes.
pub struct UnlockedVault {
    pub dek: [u8; 32],
    pub slot_id: u8,
    pub salt: [u8; 32],
    pub plaintext: Vec<u8>,
}

/// The key and slot id from the first password record that `password` opens.
pub open spec fn first_password_unlock(records: Seq<ParsedRecordView>, password: Seq<char>) -> Option<
    (Seq<u8>, u8),
>
    decreases records.len(),
{
    if records.len() == 0 {
        None
    } else {
        match records[0].key {
            ParsedKeyView::Password(p) => match password_unwrap_result(password, p) {
                Ok(d) => Some((d, records[0].slot_id)),
                Err(_) => first_password_unlock(records.drop_first(), password),
            },
            _ => first_password_unlock(records.drop_first(), password),
        }
    }
}

/// The key and slot id from the first Touch ID record that unlocks (see
/// [`touchid_unwrap_result`]).
pub open spec fn first_touchid_unlock(records: Seq<ParsedRecordView>) -> Option<(Seq<u8>, u8)>
    decreases records.len(),
{
    if records.len() == 0 {
        None
    } else {
        match records[0].key {
            ParsedKeyView::TouchId(_) => match touchid_unwrap_result() {
                Ok(d) => Some((d, records[0].slot_id)),
                Err(_) => first_touchid_unlock(records.drop_first()),
            },
            _ => first_touchid_unlock(records.drop_first()),
        }
    }
}

/// The file salt of a vault file.
pub open spec fn file_salt(data: Seq<u8>) -> Seq<u8> {
    data.subrange(SALT_OFFSET as int, (SALT_OFFSET + SALT_SIZE) as int)
}

/// The payload nonce of a vault file.
pub open spec fn file_nonce(data: Seq<u8>) -> Seq<u8> {
    data.subrange(NONCE_OFFSET as int, (NONCE_OFFSET + NONCE_SIZE) as int)
}

/// The payload of a vault file opened with a key that a slot released.
pub open spec fn open_payload(data: Seq<u8>, start: int, released: Option<(Seq<u8>, u8)>) -> Result<
    (Seq<u8>, u8, Seq<u8>, Seq<u8>),
    KenvError,
> {
    match released {
        None => Err(KenvError::UnlockFailed),
        Some((dek, id)) => match aes256gcm_open(dek, file_nonce(data), data.skip(start)) {
            None => Err(KenvError::UnlockFailed),
            Some(pt) => Ok((dek, id, file_salt(data), pt)),
        },
    }
}

/// What unlocking a vault file with a password gives: the header's error,
/// the slot section's error, `UnlockFailed` when no password slot opens or
/// the payload does not decrypt, else the key, slot id, salt and payload bytes.
pub open spec fn unlock_with_password_result(data: Seq<u8>, password: Seq<char>) -> Result<
    (Seq<u8>, u8, Seq<u8>, Seq<u8>),
    KenvError,
> {
    match header_check(data) {
        Err(e) => Err(e),
        Ok(_) => match parse_slot_section(data) {
            Err(e) => Err(e),
            Ok((records, start)) => open_payload(
                data,
                start,
                first_password_unlock(records, password),
            ),
        },
    }
}

/// What unlocking a vault file with Touch ID gives (see
/// [`unlock_with_password_result`]). In this build no Touch ID slot unlocks
/// (see [`touchid_unwrap_result`]), so a file whose header and slot section
/// are sound gives `UnlockFailed`.
pub open spec fn unlock_with_touchid_result(data: Seq<u8>) -> Result<
    (Seq<u8>, u8, Seq<u8>, Seq<u8>),
    KenvError,
> {
    match header_check(data) {
        Err(e) => Err(e),
        Ok(_) => match parse_slot_section(data) {
            Err(e) => Err(e),
            Ok((records, start)) => open_payload(data, start, first_touchid_unlock(records)),
        },
    }
}

/// Whether `u` is what an unlock result describes.
pub open spec fn unlocked_matches(u: UnlockedVault, r: (Seq<u8>, u8, Seq<u8>, Seq<u8>)) -> bool {
    u.dek@ == r.0 && u.slot_id == r.1 && u.salt@ == r.2 && u.plaintext@ == r.3
}

fn header_fields(data: &[u8]) -> (r: ([u8; 32], [u8; 12]))
    requires
        data@.len() >= 62,
    ensures
        r.0@ == file_salt(data@),
        r.1@ == file_nonce(data@),
{
    (crate::bytes::copy_array32(data, SALT_OFFSET), crate::bytes::copy_array12(data, NONCE_OFFSET))
}

fn open_with_key(
    data: &[u8],
    start: usize,
    dek: [u8; 32],
    slot_id: u8,
    salt: [u8; 32],
    nonce: &[u8; 12],
) -> (res: Result<UnlockedVault, KenvError>)
    requires
        start <= data@.len(),
    ensures
        match aes256gcm_open(dek@, nonce@, data@.skip(start as int)) {
            None => res == Err::<UnlockedVault, KenvError>(KenvError::UnlockFailed),
            Some(pt) => res matches Ok(u) && u.dek == dek && u.slot_id == slot_id && u.salt == salt
                && u.plaintext@ == pt,
        },
{
    let ciphertext = vstd::slice::slice_subrange(data, start, data.len());
    assert(ciphertext@ =~= data@.skip(start as int));
    match decrypt(&dek, nonce, ciphertext) {
        Ok(plaintext) => Ok(UnlockedVault { dek, slot_id, salt, plaintext }),
        Err(_) => Err(KenvError::UnlockFailed),
    }
}

/// Unlocks the bytes of a vault file with a password, up to the decrypted
/// payload (see [`unlock_with_password_result`]).
pub fn unlock_vault_bytes(data: &[u8], password: &str) -> (res: Result<UnlockedVault, KenvError>)
    ensures
        match unlock_with_password_result(data@, password@) {
            Ok(r) => res matches Ok(u) && unlocked_matches(u, r),
            Err(e) => res == Err::<UnlockedVault, KenvError>(e),
        },
{
    let _version = validate_vault_header(data)?;
    let (salt, nonce) = header_fields(data);
    let (records, ciphertext_start) = parse_cleartext_slot_records(data)?;
    let ghost views = records@.map_values(|r: crate::vault::ParsedSlotRecord| r@);
    assert(views.skip(0) =~= views);
    proof {
        if let Ok((rs, o)) = parse_slot_section(data@) {
            assert(views =~= rs);
        }
    }
    let mut i: usize = 0;
    while i < records.len()
        invariant
            i <= records@.len(),
            views.len() == records@.len(),
            forall|j: int| 0 <= j < records@.len() ==> #[trigger] views[j] == records@[j]@,
            first_password_unlock(views, password@) == first_password_unlock(
                views.skip(i as int),
                password@,
            ),
            ciphertext_start <= data@.len(),
            header_check(data@) is Ok,
            parse_slot_section(data@) == Ok::<(Seq<ParsedRecordView>, int), KenvError>(
                (views, ciphertext_start as int),
            ),
            salt@ == file_salt(data@),
            nonce@ == file_nonce(data@),
        decreases records@.len() - i,
    {
        let rec = &records.as_slice()[i];
        let ghost rest = views.skip(i as int);
        assert(rest[0] == rec@);
        assert(rest.drop_first() =~= views.skip(i + 1));
        if let ParsedSlotKeyData::Password(pwd_data) = &rec.key_data {
            if let Ok(d) = unwrap_dek(password, pwd_data) {
                assert(rec@.key == ParsedKeyView::Password(pwd_data@));
                assert(password_unwrap_result(password@, pwd_data@) == Ok::<Seq<u8>, KenvError>(d@));
                assert(first_password_unlock(rest, password@) == Some((d@, rec.slot_id)));
                return open_with_key(data, ciphertext_start, d, rec.slot_id, salt, &nonce);
            }
        }
        i = i + 1;
    }
    assert(views.skip(i as int).len() == 0);
    Err(KenvError::UnlockFailed)
}


} // verus!

verus! {

/// Unlocks the bytes of a vault file with Touch ID, up to the decrypted
/// payload (see [`unlock_with_touchid_result`]).
pub fn unlock_vault_bytes_with_touchid(data: &[u8]) -> (res: Result<UnlockedVault, KenvError>)
    ensures
        match unlock_with_touchid_result(data@) {
            Ok(r) => res matches Ok(u) && unlocked_matches(u, r),
            Err(e) => res == Err::<UnlockedVault, KenvError>(e),
        },
{
    let _version = validate_vault_header(data)?;
    let (salt, nonce) = header_fields(data);
    let (records, ciphertext_start) = parse_cleartext_slot_records(data)?;
    let ghost views = records@.map_values(|r: crate::vault::ParsedSlotRecord| r@);
    assert(views.skip(0) =~= views);
    proof {
        if let Ok((rs, o)) = parse_slot_section(data@) {
            assert(views =~= rs);
        }
    }
    let mut i: usize = 0;
    while i < records.len()
        invariant
            i <= records@.len(),
            views.len() == records@.len(),
            forall|j: int| 0 <= j < records@.len() ==> #[trigger] views[j] == records@[j]@,
            first_touchid_unlock(views) == first_touchid_unlock(views.skip(i as int)),
            ciphertext_start <= data@.len(),
            header_check(data@) is Ok,
            parse_slot_section(data@) == Ok::<(Seq<ParsedRecordView>, int), KenvError>(
                (views, ciphertext_start as int),
            ),
            salt@ == file_salt(data@),
            nonce@ == file_nonce(data@),
        decreases records@.len() - i,
    {
        let rec = &records.as_slice()[i];
        let ghost rest = views.skip(i as int);
        assert(rest[0] == rec@);
        assert(rest.drop_first() =~= views.skip(i + 1));
        if let ParsedSlotKeyData::TouchId { keychain_ref, nonce: slot_nonce, encrypted_dek, tag } =
            &rec.key_data {
            let stub = TouchIdSlotData {
                keychain_ref: vstd::slice::slice_to_vec(keychain_ref.as_slice()),
                nonce: *slot_nonce,
                encrypted_dek: vstd::slice::slice_to_vec(encrypted_dek.as_slice()),
                tag: *tag,
                biometric_type: String::from_str("touchid"),
            };
            if let Ok(d) = crate::slots::touchid::unwrap_dek(&stub) {
                assert(first_touchid_unlock(rest) == Some((d@, rec.slot_id)));
                return open_with_key(data, ciphertext_start, d, rec.slot_id, salt, &nonce);
            }
        }
        i = i + 1;
    }
    assert(views.skip(i as int).len() == 0);
    Err(KenvError::UnlockFailed)
}

/// Puts an unlocked vault into the session, replacing whatever it held (whose
/// payload secrets, key and salt are first overwritten with zeros): the
/// payload, the key, the slot that opened it, the salt and path, the time of
/// unlock, and no reauthentication yet.
pub fn install_session(
    state: &mut VaultState,
    payload: VaultPayload,
    unlocked: UnlockedVault,
    vault_path: Vec<u8>,
    now: Timestamp,
) -> (status: VaultStatus)
    ensures
        status == VaultStatus::Unlocked,
        *final(state) == (VaultState {
            payload: Some(payload),
            unlocked_at: Some(now),
            last_unlock_slot_id: Some(unlocked.slot_id),
            dek: Some(unlocked.dek),
            reauthenticated_at: None,
            salt: Some(unlocked.salt),
            vault_path: Some(vault_path),
            file_version: Some(FILE_VERSION_V2),
        }),
{
    match &mut state.payload {
        Some(p) => p.zeroize(),
        None => {},
    }
    match &mut state.dek {
        Some(d) => wipe_array32(d),
        None => {},
    }
    match &mut state.salt {
        Some(s) => wipe_array32(s),
        None => {},
    }
    *state = VaultState {
        payload: Some(payload),
        unlocked_at: Some(now),
        last_unlock_slot_id: Some(unlocked.slot_id),
        dek: Some(unlocked.dek),
        reauthenticated_at: None,
        salt: Some(unlocked.salt),
        vault_path: Some(vault_path),
        file_version: Some(FILE_VERSION_V2),
    };
    VaultStatus::Unlocked
}

/// KDF costs written in a version-2 header: all zero, since each slot keeps its own.
pub open spec fn zero_params() -> KdfParams {
    KdfParams { m_cost: 0, t_cost: 0, p_cost: 0 }
}

/// Whether `file` is the version-2 vault file for `slots` whose payload is
/// `plaintext` sealed under `dek`, with the file salt `salt` and whatever
/// nonce the file carries.
pub open spec fn is_sealed_vault(
    file: Seq<u8>,
    salt: Seq<u8>,
    dek: Seq<u8>,
    plaintext: Seq<u8>,
    slots: Seq<UnlockSlot>,
) -> bool {
    let nonce = file_nonce(file);
    let ct = aes256gcm_seal(dek, nonce, plaintext);
    &&& file == vault_file_bytes(
        salt,
        nonce,
        ct,
        zero_params(),
        FILE_VERSION_V2,
        slot_section_bytes(slots),
    )
    &&& aes256gcm_open(dek, nonce, ct) == Some(plaintext)
    &&& file.len() >= 62
}

fn seal_vault_file(
    salt: &[u8; 32],
    dek: &[u8; 32],
    plaintext: &[u8],
    slots: &[UnlockSlot],
) -> (res: Result<Vec<u8>, KenvError>)
    ensures
        plaintext@.len() > AEAD_MAX_PLAINTEXT ==> res == Err::<Vec<u8>, KenvError>(
            KenvError::EncryptionError,
        ),
        plaintext@.len() <= AEAD_MAX_PLAINTEXT ==> (res matches Ok(file) && is_sealed_vault(
            file@,
            salt@,
            dek@,
            plaintext@,
            slots@,
        )),
{
    let nonce = random_bytes_12();
    let ciphertext = match encrypt(dek, &nonce, plaintext) {
        Ok(c) => c,
        Err(_) => return Err(KenvError::EncryptionError),
    };
    let slot_records = build_cleartext_slot_records(slots);
    let zero = KdfParams { m_cost: 0, t_cost: 0, p_cost: 0 };
    let file = encode_vault_bytes(
        salt,
        &nonce,
        ciphertext.as_slice(),
        &zero,
        FILE_VERSION_V2,
        slot_records.as_slice(),
    );
    proof {
        let head = crate::vault::magic_bytes() + seq![FILE_VERSION_V2, crate::vault::KDF_ID_ARGON2ID]
            + Seq::new(12, |i: int| 0u8) + salt@;
        assert(file@.subrange(50, 62) =~= nonce@) by {
            assert(head.len() == 50);
            assert(file@ =~= head + nonce@ + (slot_records@ + ciphertext@));
        }
    }
    Ok(file)
}

/// Contents of the file after a change to an unlocked vault: the payload
/// bytes `plaintext` sealed under the session key with a fresh nonce, after
/// the session's salt and the slot section of the session's slots.
///
/// `VaultLocked` when the session lacks the payload, key or salt, or is not a
/// version-2 vault; `EncryptionError` for payloads over 2^36 bytes.
pub fn seal_vault_for_persist(state: &VaultState, plaintext: &[u8]) -> (res: Result<
    Vec<u8>,
    KenvError,
>)
    ensures
        (state.payload is None || state.dek is None || state.salt is None || (state.file_version
            matches Some(v) && v != FILE_VERSION_V2)) ==> res == Err::<Vec<u8>, KenvError>(
            KenvError::VaultLocked,
        ),
        state.payload is Some && state.dek is Some && state.salt is Some && !(
        state.file_version matches Some(v) && v != FILE_VERSION_V2) ==> if plaintext@.len()
            > AEAD_MAX_PLAINTEXT {
            res == Err::<Vec<u8>, KenvError>(KenvError::EncryptionError)
        } else {
            res matches Ok(file) && is_sealed_vault(
                file@,
                state.salt->0@,
                state.dek->0@,
                plaintext@,
                state.payload->0.slots@,
            )
        },
{
    let payload = match &state.payload {
        Some(p) => p,
        None => return Err(KenvError::VaultLocked),
    };
    let dek = match &state.dek {
        Some(d) => d,
        None => return Err(KenvError::VaultLocked),
    };
    let salt = match &state.salt {
        Some(s) => s,
        None => return Err(KenvError::VaultLocked),
    };
    let file_version = match state.file_version {
        Some(v) => v,
        None => FILE_VERSION_V2,
    };
    if file_version != FILE_VERSION_V2 {
        return Err(KenvError::VaultLocked);
    }
    seal_vault_file(salt, dek, plaintext, payload.slots.as_slice())
}

/// The payload and key of a new vault: one password slot, id 1, labelled
/// `password`, that wraps a fresh random key under `password`.
///
/// `WeakPassword` for a blank password, `EncryptionError` for costs that
/// argon2 refuses.
pub fn new_vault_payload(password: &str, params: &KdfParams, now: Timestamp) -> (res: Result<
    (VaultPayload, [u8; 32]),
    KenvError,
>)
    ensures
        is_blank(password@) ==> res == Err::<(VaultPayload, [u8; 32]), KenvError>(
            KenvError::WeakPassword,
        ),
        !is_blank(password@) && !kdf_accepts(
            encode_utf8(password@),
            params.m_cost,
            params.t_cost,
            params.p_cost,
        ) ==> res == Err::<(VaultPayload, [u8; 32]), KenvError>(KenvError::EncryptionError),
        !is_blank(password@) && kdf_accepts(
            encode_utf8(password@),
            params.m_cost,
            params.t_cost,
            params.p_cost,
        ) ==> (res matches Ok((payload, dek)) && payload.version == 1
            && payload.ssh_keys@.len() == 0 && payload.slots@.len() == 1 && is_new_password_slot(
            payload.slots@[0],
            password@,
            dek@,
            1,
            "password"@,
            *params,
            now,
        )),
{
    if str_is_blank(password) {
        return Err(KenvError::WeakPassword);
    }
    let dek = crate::dek::generate();
    proof {
        reveal_strlit("password");
    }
    let password_slot = create_password_slot(
        password,
        &dek,
        1,
        String::from_str("password"),
        params,
        now,
    )?;
    let mut payload = VaultPayload::new();
    payload.slots.push(password_slot);
    Ok((payload, dek))
}

/// Contents of a new vault file: the payload bytes `plaintext` sealed under
/// `dek` with a fresh random file salt and nonce, and the slot section of
/// `slots`. `EncryptionError` for payloads over 2^36 bytes.
pub fn seal_new_vault(dek: &[u8; 32], plaintext: &[u8], slots: &[UnlockSlot]) -> (res: Result<
    Vec<u8>,
    KenvError,
>)
    ensures
        plaintext@.len() > AEAD_MAX_PLAINTEXT ==> res == Err::<Vec<u8>, KenvError>(
            KenvError::EncryptionError,
        ),
        plaintext@.len() <= AEAD_MAX_PLAINTEXT ==> (res matches Ok(file) && is_sealed_vault(
            file@,
            file_salt(file@),
            dek@,
            plaintext@,
            slots@,
        )),
{
    let salt = random_bytes_32();
    let r = seal_vault_file(&salt, dek, plaintext, slots);
    proof {
        if let Ok(file) = &r {
            let head = crate::vault::magic_bytes() + seq![
                FILE_VERSION_V2,
                crate::vault::KDF_ID_ARGON2ID,
            ] + Seq::new(12, |i: int| 0u8);
            assert(head.len() == 18);
            assert(file@.subrange(18, 50) =~= salt@);
        }
    }
    r
}

} // verus!

verus! {

/// A version-2 file whose salt and nonce are not all zero and which is at
/// least [`crate::vault::MIN_FILE_SIZE`] bytes long passes the header check.
pub proof fn lemma_sealed_header_checks(
    salt: Seq<u8>,
    nonce: Seq<u8>,
    ct: Seq<u8>,
    section: Seq<u8>,
)
    requires
        salt.len() == 32,
        nonce.len() == 12,
        !crate::vault::all_zero_spec(salt),
        !crate::vault::all_zero_spec(nonce),
        vault_file_bytes(salt, nonce, ct, zero_params(), FILE_VERSION_V2, section).len()
            >= crate::vault::MIN_FILE_SIZE,
    ensures
        header_check(vault_file_bytes(salt, nonce, ct, zero_params(), FILE_VERSION_V2, section))
            == Ok::<u8, KenvError>(FILE_VERSION_V2),
{
    let file = vault_file_bytes(salt, nonce, ct, zero_params(), FILE_VERSION_V2, section);
    let head = crate::vault::magic_bytes() + seq![FILE_VERSION_V2, crate::vault::KDF_ID_ARGON2ID]
        + Seq::new(12, |i: int| 0u8);
    assert(file =~= head + salt + nonce + section + ct);
    assert(file.subrange(0, 4) =~= crate::vault::magic_bytes());
    assert(file.subrange(18, 50) =~= salt);
    assert(file.subrange(50, 62) =~= nonce);
}

/// Unlocking a sealed vault file with a password goes exactly by its slots:
/// the first recorded password slot that the password opens releases a key,
/// and the payload is opened with that key. So where that key is the one the
/// payload was sealed under, the unlock gives back the key, that slot's id,
/// the file salt and the payload; where no slot opens, it fails with
/// `UnlockFailed`. Stated for files whose salt and nonce are not all zero
/// and whose records fit (see [`crate::vault::record_fits`]).
pub proof fn lemma_sealed_vault_unlock(
    file: Seq<u8>,
    salt: Seq<u8>,
    dek: Seq<u8>,
    plaintext: Seq<u8>,
    slots: Seq<UnlockSlot>,
    password: Seq<char>,
)
    requires
        is_sealed_vault(file, salt, dek, plaintext, slots),
        salt.len() == 32,
        !crate::vault::all_zero_spec(salt),
        !crate::vault::all_zero_spec(file_nonce(file)),
        file.len() >= crate::vault::MIN_FILE_SIZE,
        forall|i: int|
            0 <= i < crate::vault::recorded_slots(slots).len() ==> crate::vault::record_fits(
                #[trigger] crate::vault::recorded_slots(slots)[i],
            ),
    ensures
        ({
            let records = crate::vault::recorded_slots(slots).map_values(
                |s: UnlockSlot| crate::vault::expected_record(s),
            );
            match first_password_unlock(records, password) {
                None => unlock_with_password_result(file, password) == Err::<
                    (Seq<u8>, u8, Seq<u8>, Seq<u8>),
                    KenvError,
                >(KenvError::UnlockFailed),
                Some((k, id)) => k == dek ==> unlock_with_password_result(file, password) == Ok::<
                    (Seq<u8>, u8, Seq<u8>, Seq<u8>),
                    KenvError,
                >((dek, id, salt, plaintext)),
            }
        }),
{
    let nonce = file_nonce(file);
    let ct = aes256gcm_seal(dek, nonce, plaintext);
    assert(nonce.len() == 12);
    crate::vault::lemma_vault_file_roundtrip(salt, nonce, ct, zero_params(), slots);
    lemma_sealed_header_checks(salt, nonce, ct, slot_section_bytes(slots));
}

/// A new vault unlocks with the password it was created with: sealing the
/// payload of [`new_vault_payload`] with [`seal_new_vault`] gives a file
/// whose unlock with that password yields the vault key, slot 1, the file
/// salt and the payload bytes. Stated for files whose random salt and nonce
/// are not all zero (such a file would read as corrupted).
pub proof fn lemma_new_vault_unlocks(
    file: Seq<u8>,
    payload_slots: Seq<UnlockSlot>,
    dek: Seq<u8>,
    plaintext: Seq<u8>,
    password: Seq<char>,
    params: KdfParams,
    now: Timestamp,
)
    requires
        payload_slots.len() == 1,
        is_new_password_slot(payload_slots[0], password, dek, 1, "password"@, params, now),
        is_sealed_vault(file, file_salt(file), dek, plaintext, payload_slots),
        !crate::vault::all_zero_spec(file_salt(file)),
        !crate::vault::all_zero_spec(file_nonce(file)),
    ensures
        unlock_with_password_result(file, password) == Ok::<
            (Seq<u8>, u8, Seq<u8>, Seq<u8>),
            KenvError,
        >((dek, 1u8, file_salt(file), plaintext)),
{
    let slot = payload_slots[0];
    let salt = file_salt(file);
    let p = slot.password->0;
    assert(payload_slots.drop_last() =~= Seq::<UnlockSlot>::empty());
    assert(crate::vault::key_slots(payload_slots.drop_last()) =~= Seq::<UnlockSlot>::empty());
    assert(payload_slots.last() == slot);
    assert(crate::slots::has_key_material(slot));
    assert(crate::vault::key_slots(payload_slots) =~= seq![slot]);
    assert(crate::vault::recorded_slots(payload_slots) =~= seq![slot]);
    assert(crate::vault::key_payload_bytes(slot).len() == 104);
    assert(crate::vault::record_fits(slot));
    let records = crate::vault::recorded_slots(payload_slots).map_values(
        |s: UnlockSlot| crate::vault::expected_record(s),
    );
    assert(records[0] == crate::vault::expected_record(slot));
    assert(first_password_unlock(records, password) == Some((dek, 1u8)));
    let section = slot_section_bytes(payload_slots);
    assert(section.len() == 1 + 4 + 104) by {
        assert(crate::vault::records_body(seq![slot]) == crate::vault::records_body(
            seq![slot].drop_last(),
        ) + crate::vault::slot_record_bytes(slot));
        assert(seq![slot].drop_last() =~= Seq::<UnlockSlot>::empty());
    }
    assert(file.len() >= crate::vault::MIN_FILE_SIZE);
    lemma_sealed_vault_unlock(file, salt, dek, plaintext, payload_slots, password);
}

/// Whether record `r` is a password record that `password` opens.
pub open spec fn password_opens(r: ParsedRecordView, password: Seq<char>) -> bool {
    r.key matches ParsedKeyView::Password(p) && password_unwrap_result(password, p) is Ok
}

proof fn lemma_first_opener(records: Seq<ParsedRecordView>, password: Seq<char>, j: int)
    requires
        0 <= j < records.len(),
        password_opens(records[j], password),
        forall|i: int| 0 <= i < j ==> !password_opens(#[trigger] records[i], password),
    ensures
        records[j].key matches ParsedKeyView::Password(p) && first_password_unlock(records, password)
            == Some((password_unwrap_result(password, p)->Ok_0, records[j].slot_id)),
    decreases j,
{
    if j > 0 {
        let t = records.drop_first();
        assert(!password_opens(records[0], password));
        assert forall|i: int| 0 <= i < j - 1 implies !password_opens(#[trigger] t[i], password) by {
            assert(t[i] == records[i + 1]);
        }
        assert(t[j - 1] == records[j]);
        lemma_first_opener(t, password, j - 1);
    }
}

proof fn lemma_no_opener(records: Seq<ParsedRecordView>, password: Seq<char>)
    requires
        forall|i: int| 0 <= i < records.len() ==> !password_opens(#[trigger] records[i], password),
    ensures
        first_password_unlock(records, password) is None,
    decreases records.len(),
{
    if records.len() > 0 {
        let t = records.drop_first();
        assert(!password_opens(records[0], password));
        assert forall|i: int| 0 <= i < t.len() implies !password_opens(#[trigger] t[i], password) by {
            assert(t[i] == records[i + 1]);
        }
        lemma_no_opener(t, password);
    }
}

/// Unlocking with a password takes the key of the first password record that
/// the password opens, wherever it stands among records of other kinds
/// (CTAP2, Touch ID, unknown types) and after password records it does not
/// open; the payload is then decrypted with that key under the file's nonce,
/// and the result carries that record's slot id and the file's salt. When no
/// password record opens, the unlock fails with `UnlockFailed`; a refused
/// header or slot section gives its own error.
pub proof fn lemma_unlock_with_password(data: Seq<u8>, password: Seq<char>)
    ensures
        header_check(data) matches Err(e) ==> unlock_with_password_result(data, password) == Err::<
            (Seq<u8>, u8, Seq<u8>, Seq<u8>),
            KenvError,
        >(e),
        header_check(data) is Ok ==> match parse_slot_section(data) {
            Err(e) => unlock_with_password_result(data, password) == Err::<
                (Seq<u8>, u8, Seq<u8>, Seq<u8>),
                KenvError,
            >(e),
            Ok((records, start)) => {
                &&& (forall|i: int| 0 <= i < records.len() ==> !password_opens(
                    #[trigger] records[i],
                    password,
                )) ==> unlock_with_password_result(data, password) == Err::<
                    (Seq<u8>, u8, Seq<u8>, Seq<u8>),
                    KenvError,
                >(KenvError::UnlockFailed)
                &&& forall|j: int|
                    0 <= j < records.len() && #[trigger] password_opens(records[j], password) && (
                    forall|i: int| 0 <= i < j ==> !password_opens(#[trigger] records[i], password))
                        ==> (records[j].key matches ParsedKeyView::Password(p) && {
                        let d = password_unwrap_result(password, p)->Ok_0;
                        unlock_with_password_result(data, password) == match aes256gcm_open(
                            d,
                            data.subrange(50, 62),
                            data.skip(start),
                        ) {
                            None => Err(KenvError::UnlockFailed),
                            Some(pt) => Ok((d, records[j].slot_id, data.subrange(18, 50), pt)),
                        }
                    })
            },
        },
{
    if header_check(data) is Ok {
        if let Ok((records, start)) = parse_slot_section(data) {
            if forall|i: int| 0 <= i < records.len() ==> !password_opens(
                #[trigger] records[i],
                password,
            ) {
                lemma_no_opener(records, password);
            }
            assert forall|j: int|
                0 <= j < records.len() && #[trigger] password_opens(records[j], password) && (forall|
                    i: int,
                | 0 <= i < j ==> !password_opens(#[trigger] records[i], password)) implies (
            records[j].key matches ParsedKeyView::Password(p) && {
                let d = password_unwrap_result(password, p)->Ok_0;
                unlock_with_password_result(data, password) == match aes256gcm_open(
                    d,
                    data.subrange(50, 62),
                    data.skip(start),
                ) {
                    None => Err(KenvError::UnlockFailed),
                    Some(pt) => Ok((d, records[j].slot_id, data.subrange(18, 50), pt)),
                }
            }) by {
                lemma_first_opener(records, password, j);
            }
        }
    }
}

} // verus!
