//! The vault file: a fixed header, the cleartext slot section, and the
//! encrypted payload.
//!
//! Layout: `KENV`, version byte, KDF id byte, twelve bytes of header KDF costs
//! (zero in version 2, where costs live in each slot), 32-byte file salt,
//! 12-byte payload nonce; in version 2 the slot section follows, then the
//! AES-256-GCM ciphertext of the payload.
use vstd::prelude::*;
use crate::bytes::{
    all_zero, append_bytes, be16, be32, copy_array12, copy_array16, copy_array32, copy_range,
    from_be16, from_be32, get_be16, get_be32, push_be16, push_be32, wipe_array12, wipe_array16,
    wipe_array32, wipe_vec,
};
use crate::crypto::KdfParams;
use crate::error::KenvError;
use crate::slots::{
    has_key_material, slot_type_code, slot_type_of_code, Ctap2SlotData, PasswordKeyView,
    PasswordSlotData, SlotType, TouchIdSlotData, UnlockSlot,
};
use crate::ssh::SshKey;

verus! {

pub const MAGIC: [u8; 4] = [0x4B, 0x45, 0x4E, 0x56];

pub const FILE_VERSION_V1: u8 = 1;

pub const FILE_VERSION_V2: u8 = 2;

pub const KDF_ID_ARGON2ID: u8 = 1;

pub const SALT_OFFSET: usize = 18;

pub const SALT_SIZE: usize = 32;

pub const NONCE_OFFSET: usize = 50;

pub const NONCE_SIZE: usize = 12;

pub const CIPHERTEXT_OFFSET: usize = 62;

pub const MIN_FILE_SIZE: usize = 91;

pub const V2_HEADER_SIZE: usize = 62;

pub const V2_SLOTS_OFFSET: usize = 62;

/// The bytes `KENV`.
pub open spec fn magic_bytes() -> Seq<u8> {
    seq![0x4Bu8, 0x45u8, 0x4Eu8, 0x56u8]
}

/// The decrypted content of a vault: its unlock slots and SSH keys.
#[derive(Clone, Debug)]
pub struct VaultPayload {
    pub version: u32,
    pub slots: Vec<UnlockSlot>,
    pub ssh_keys: Vec<SshKey>,
}

impl VaultPayload {
    /// An empty payload of payload version 1.
    pub fn new() -> (p: Self)
        ensures
            p.version == 1,
            p.slots@.len() == 0,
            p.ssh_keys@.len() == 0,
    {
        VaultPayload { version: 1, slots: Vec::new(), ssh_keys: Vec::new() }
    }

    /// Wipes the secrets: the key material of every slot and both halves of
    /// every SSH key are overwritten with zeros, then both lists are emptied.
    pub fn zeroize(&mut self)
        ensures
            final(self).version == old(self).version,
            final(self).slots@.len() == 0,
            final(self).ssh_keys@.len() == 0,
    {
        let n = self.slots.len();
        let mut i: usize = 0;
        while i < n
            invariant
                self.slots@.len() == n,
                i <= n,
                self.version == old(self).version,
            decreases n - i,
        {
            wipe_slot(&mut self.slots[i]);
            i = i + 1;
        }
        self.slots.clear();
        let m = self.ssh_keys.len();
        let mut j: usize = 0;
        while j < m
            invariant
                self.ssh_keys@.len() == m,
                self.slots@.len() == 0,
                j <= m,
                self.version == old(self).version,
            decreases m - j,
        {
            wipe_vec(&mut self.ssh_keys[j].private_key);
            wipe_vec(&mut self.ssh_keys[j].public_key);
            j = j + 1;
        }
        self.ssh_keys.clear();
    }
}

/// Whether `after` is the slot `before` with its key material wiped: salts,
/// nonces and tags all zero, wrapped keys, challenges and keychain references
/// emptied, and everything else as it was.
pub open spec fn wiped_slot(before: UnlockSlot, after: UnlockSlot) -> bool {
    &&& after.slot_id == before.slot_id
    &&& after.slot_type == before.slot_type
    &&& after.label == before.label
    &&& after.created_at == before.created_at
    &&& after.requires_pin == before.requires_pin
    &&& after.requires_touch == before.requires_touch
    &&& after.pin_attempts_left == before.pin_attempts_left
    &&& after.last_used == before.last_used
    &&& after.disabled == before.disabled
    &&& match (before.password, after.password) {
        (None, None) => true,
        (Some(b), Some(a)) => {
            &&& a.kdf_m_cost == b.kdf_m_cost
            &&& a.kdf_t_cost == b.kdf_t_cost
            &&& a.kdf_p_cost == b.kdf_p_cost
            &&& all_zero_spec(a.salt@)
            &&& all_zero_spec(a.nonce@)
            &&& a.encrypted_dek@.len() == 0
            &&& all_zero_spec(a.tag@)
        },
        _ => false,
    }
    &&& match (before.ctap2, after.ctap2) {
        (None, None) => true,
        (Some(b), Some(a)) => {
            &&& a.credential_id == b.credential_id
            &&& a.public_key == b.public_key
            &&& a.counter == b.counter
            &&& a.algorithm == b.algorithm
            &&& a.device_serial == b.device_serial
            &&& a.attestation_data == b.attestation_data
            &&& a.requires_pin == b.requires_pin
            &&& a.requires_uv == b.requires_uv
            &&& a.requires_touch == b.requires_touch
            &&& a.challenge@.len() == 0
            &&& all_zero_spec(a.nonce@)
            &&& a.encrypted_dek@.len() == 0
            &&& all_zero_spec(a.tag@)
        },
        _ => false,
    }
    &&& match (before.touchid, after.touchid) {
        (None, None) => true,
        (Some(b), Some(a)) => {
            &&& a.biometric_type == b.biometric_type
            &&& a.keychain_ref@.len() == 0
            &&& all_zero_spec(a.nonce@)
            &&& a.encrypted_dek@.len() == 0
            &&& all_zero_spec(a.tag@)
        },
        _ => false,
    }
}

/// Overwrites a slot's key material with zeros.
fn wipe_slot(slot: &mut UnlockSlot)
    ensures
        wiped_slot(*old(slot), *final(slot)),
{
    match &mut slot.password {
        Some(p) => {
            wipe_array32(&mut p.salt);
            wipe_array12(&mut p.nonce);
            wipe_vec(&mut p.encrypted_dek);
            wipe_array16(&mut p.tag);
        },
        None => {},
    }
    match &mut slot.ctap2 {
        Some(c) => {
            wipe_vec(&mut c.challenge);
            wipe_array12(&mut c.nonce);
            wipe_vec(&mut c.encrypted_dek);
            wipe_array16(&mut c.tag);
        },
        None => {},
    }
    match &mut slot.touchid {
        Some(t) => {
            wipe_vec(&mut t.keychain_ref);
            wipe_array12(&mut t.nonce);
            wipe_vec(&mut t.encrypted_dek);
            wipe_array16(&mut t.tag);
        },
        None => {},
    }
}

// ---------------------------------------------------------------------------
// Slot section: encoding

/// Key bytes of a password slot (104 bytes when the wrapped key is 32 bytes):
/// salt, the three Argon2id costs, nonce, wrapped key, tag.
pub open spec fn password_payload_bytes(p: PasswordKeyView) -> Seq<u8> {
    p.salt + be32(p.m_cost) + be32(p.t_cost) + be32(p.p_cost) + p.nonce + p.encrypted_dek + p.tag
}

/// A length capped to what a 16-bit length prefix can say.
pub open spec fn clamp16(n: nat) -> u16 {
    if n > 65535 {
        65535
    } else {
        n as u16
    }
}

/// A 16-bit big-endian length followed by that many leading bytes of `b`.
pub open spec fn counted(b: Seq<u8>) -> Seq<u8> {
    be16(clamp16(b.len())) + b.take(clamp16(b.len()) as int)
}

/// Key bytes of a CTAP2 slot.
pub open spec fn ctap2_payload_bytes(c: Ctap2SlotData) -> Seq<u8> {
    counted(c.credential_id@) + counted(c.challenge@) + be32(c.counter) + c.nonce@
        + c.encrypted_dek@ + c.tag@
}

/// Key bytes of a Touch ID slot.
pub open spec fn touchid_payload_bytes(t: TouchIdSlotData) -> Seq<u8> {
    counted(t.keychain_ref@) + t.nonce@ + t.encrypted_dek@ + t.tag@
}

/// Key bytes of a slot: those of the key material its type calls for, or
/// nothing where that material is absent.
pub open spec fn key_payload_bytes(slot: UnlockSlot) -> Seq<u8> {
    match slot.slot_type {
        SlotType::Password => match slot.password {
            Some(p) => password_payload_bytes(p@),
            None => Seq::empty(),
        },
        SlotType::Ctap2 => match slot.ctap2 {
            Some(c) => ctap2_payload_bytes(c),
            None => Seq::empty(),
        },
        SlotType::TouchId => match slot.touchid {
            Some(t) => touchid_payload_bytes(t),
            None => Seq::empty(),
        },
    }
}

/// One record of the slot section: id, type code, 16-bit length, key bytes
/// (cut to 65535 bytes).
pub open spec fn slot_record_bytes(slot: UnlockSlot) -> Seq<u8> {
    let p = key_payload_bytes(slot);
    let n = clamp16(p.len());
    seq![slot.slot_id, slot_type_code(slot.slot_type)] + be16(n) + p.take(n as int)
}

/// The slots that carry key material, in order.
pub open spec fn key_slots(s: Seq<UnlockSlot>) -> Seq<UnlockSlot>
    decreases s.len(),
{
    if s.len() == 0 {
        Seq::empty()
    } else {
        let r = key_slots(s.drop_last());
        if has_key_material(s.last()) {
            r.push(s.last())
        } else {
            r
        }
    }
}

/// The slots that get a record: the first 255 that carry key material.
pub open spec fn recorded_slots(s: Seq<UnlockSlot>) -> Seq<UnlockSlot> {
    let k = key_slots(s);
    if k.len() > 255 {
        k.take(255)
    } else {
        k
    }
}

/// The records of `e`, one after the other.
pub open spec fn records_body(e: Seq<UnlockSlot>) -> Seq<u8>
    decreases e.len(),
{
    if e.len() == 0 {
        Seq::empty()
    } else {
        records_body(e.drop_last()) + slot_record_bytes(e.last())
    }
}

/// The slot section for a slot list: record count, then the records.
pub open spec fn slot_section_bytes(s: Seq<UnlockSlot>) -> Seq<u8> {
    seq![recorded_slots(s).len() as u8] + records_body(recorded_slots(s))
}

proof fn lemma_recorded_step(s: Seq<UnlockSlot>, i: int)
    requires
        0 <= i < s.len(),
    ensures
        recorded_slots(s.take(i + 1)) == (if has_key_material(s[i]) && recorded_slots(
            s.take(i),
        ).len() < 255 {
            recorded_slots(s.take(i)).push(s[i])
        } else {
            recorded_slots(s.take(i))
        }),
        recorded_slots(s.take(i)).len() <= 255,
{
    let t = s.take(i + 1);
    assert(t.drop_last() =~= s.take(i));
    assert(t.last() == s[i]);
    let k = key_slots(s.take(i));
    if has_key_material(s[i]) {
        assert(key_slots(t) == k.push(s[i]));
        if k.len() >= 255 {
            assert(k.push(s[i]).take(255) =~= k.take(255));
        }
    } else {
        assert(key_slots(t) == k);
    }
}

fn slot_has_key_material(slot: &UnlockSlot) -> (b: bool)
    ensures
        b == has_key_material(*slot),
{
    match slot.slot_type {
        SlotType::Password => slot.password.is_some(),
        SlotType::Ctap2 => slot.ctap2.is_some(),
        SlotType::TouchId => slot.touchid.is_some(),
    }
}

fn encode_password_payload(pwd: &PasswordSlotData) -> (d: Vec<u8>)
    ensures
        d@ == password_payload_bytes(pwd@),
{
    let mut d = Vec::with_capacity(104);
    append_bytes(&mut d, pwd.salt.as_slice());
    push_be32(&mut d, pwd.kdf_m_cost);
    push_be32(&mut d, pwd.kdf_t_cost);
    push_be32(&mut d, pwd.kdf_p_cost);
    append_bytes(&mut d, pwd.nonce.as_slice());
    append_bytes(&mut d, pwd.encrypted_dek.as_slice());
    append_bytes(&mut d, pwd.tag.as_slice());
    assert(d@ =~= password_payload_bytes(pwd@));
    d
}

fn clamp_len16(n: usize) -> (c: u16)
    ensures
        c == clamp16(n as nat),
{
    if n > 65535 {
        65535
    } else {
        n as u16
    }
}

fn append_counted(d: &mut Vec<u8>, b: &[u8])
    ensures
        final(d)@ == old(d)@ + counted(b@),
{
    let n = clamp_len16(b.len());
    push_be16(d, n);
    append_bytes(d, vstd::slice::slice_subrange(b, 0, n as usize));
    assert(b@.subrange(0, n as int) =~= b@.take(n as int));
    assert(final(d)@ =~= old(d)@ + counted(b@));
}

fn encode_ctap2_payload(c: &Ctap2SlotData) -> (d: Vec<u8>)
    ensures
        d@ == ctap2_payload_bytes(*c),
{
    let mut d = Vec::new();
    append_counted(&mut d, c.credential_id.as_slice());
    append_counted(&mut d, c.challenge.as_slice());
    push_be32(&mut d, c.counter);
    append_bytes(&mut d, c.nonce.as_slice());
    append_bytes(&mut d, c.encrypted_dek.as_slice());
    append_bytes(&mut d, c.tag.as_slice());
    assert(d@ =~= ctap2_payload_bytes(*c));
    d
}

fn encode_touchid_payload(t: &TouchIdSlotData) -> (d: Vec<u8>)
    ensures
        d@ == touchid_payload_bytes(*t),
{
    let mut d = Vec::new();
    append_counted(&mut d, t.keychain_ref.as_slice());
    append_bytes(&mut d, t.nonce.as_slice());
    append_bytes(&mut d, t.encrypted_dek.as_slice());
    append_bytes(&mut d, t.tag.as_slice());
    assert(d@ =~= touchid_payload_bytes(*t));
    d
}

fn encode_slot_key_payload(slot: &UnlockSlot) -> (d: Vec<u8>)
    ensures
        d@ == key_payload_bytes(*slot),
{
    match slot.slot_type {
        SlotType::Password => match &slot.password {
            Some(p) => encode_password_payload(p),
            None => Vec::new(),
        },
        SlotType::Ctap2 => match &slot.ctap2 {
            Some(c) => encode_ctap2_payload(c),
            None => Vec::new(),
        },
        SlotType::TouchId => match &slot.touchid {
            Some(t) => encode_touchid_payload(t),
            None => Vec::new(),
        },
    }
}

fn append_slot_record(out: &mut Vec<u8>, slot: &UnlockSlot)
    ensures
        final(out)@ == old(out)@ + slot_record_bytes(*slot),
{
    let payload = encode_slot_key_payload(slot);
    let payload_len = clamp_len16(payload.len());
    out.push(slot.slot_id);
    out.push(slot.slot_type.as_u8());
    push_be16(out, payload_len);
    append_bytes(out, vstd::slice::slice_subrange(payload.as_slice(), 0, payload_len as usize));
    assert(payload@.subrange(0, payload_len as int) =~= payload@.take(payload_len as int));
    assert(final(out)@ =~= old(out)@ + slot_record_bytes(*slot));
}

/// Encodes the cleartext slot section of a version-2 file for `slot_list`.
///
/// Format: `[slot_count_u8][record_0][record_1]...`, each record
/// `[slot_id_u8][slot_type_u8][data_len_u16_be][data_bytes...]`. Only slots
/// that carry key material get a record, at most 255 of them, so a slot can be
/// unwrapped without decrypting the payload and unknown types can be skipped.
pub fn build_cleartext_slot_records(slot_list: &[UnlockSlot]) -> (out: Vec<u8>)
    ensures
        out@ == slot_section_bytes(slot_list@),
{
    let mut body: Vec<u8> = Vec::new();
    let mut count: usize = 0;
    let mut i: usize = 0;
    assert(slot_list@.take(0) =~= Seq::<UnlockSlot>::empty());
    while i < slot_list.len()
        invariant
            i <= slot_list@.len(),
            body@ == records_body(recorded_slots(slot_list@.take(i as int))),
            count == recorded_slots(slot_list@.take(i as int)).len(),
            count <= 255,
        decreases slot_list@.len() - i,
    {
        let slot = &slot_list[i];
        proof {
            lemma_recorded_step(slot_list@, i as int);
        }
        if slot_has_key_material(slot) && count < 255 {
            let ghost e = recorded_slots(slot_list@.take(i as int));
            append_slot_record(&mut body, slot);
            count = count + 1;
            assert(e.push(*slot).drop_last() =~= e);
        }
        i = i + 1;
    }
    assert(slot_list@.take(slot_list@.len() as int) =~= slot_list@);
    let mut out = Vec::new();
    out.push(count as u8);
    append_bytes(&mut out, body.as_slice());
    assert(out@ =~= slot_section_bytes(slot_list@));
    out
}

// ---------------------------------------------------------------------------
// Slot section: parsing

/// Plain view of CTAP2 key data read from a slot record.
pub struct Ctap2KeyView {
    pub credential_id: Seq<u8>,
    pub challenge: Seq<u8>,
    pub counter: u32,
    pub nonce: Seq<u8>,
    pub encrypted_dek: Seq<u8>,
    pub tag: Seq<u8>,
}

/// Plain view of Touch ID key data read from a slot record.
pub struct TouchIdKeyView {
    pub keychain_ref: Seq<u8>,
    pub nonce: Seq<u8>,
    pub encrypted_dek: Seq<u8>,
    pub tag: Seq<u8>,
}

/// Plain view of [`ParsedSlotKeyData`].
pub enum ParsedKeyView {
    Password(PasswordKeyView),
    Ctap2(Ctap2KeyView),
    TouchId(TouchIdKeyView),
    Unknown,
}

/// Plain view of [`ParsedSlotRecord`].
pub struct ParsedRecordView {
    pub slot_id: u8,
    pub slot_type: u8,
    pub key: ParsedKeyView,
}

/// Key data read from one slot record: what that slot type needs to unlock
/// without the payload. `Unknown` for a type code this build does not know, or
/// for CTAP2 or Touch ID key bytes that do not parse.
#[derive(Debug)]
pub enum ParsedSlotKeyData {
    Password(PasswordSlotData),
    Ctap2 {
        credential_id: Vec<u8>,
        challenge: Vec<u8>,
        counter: u32,
        nonce: [u8; 12],
        encrypted_dek: Vec<u8>,
        tag: [u8; 16],
    },
    TouchId { keychain_ref: Vec<u8>, nonce: [u8; 12], encrypted_dek: Vec<u8>, tag: [u8; 16] },
    Unknown,
}

impl View for ParsedSlotKeyData {
    type V = ParsedKeyView;

    open spec fn view(&self) -> ParsedKeyView {
        match self {
            ParsedSlotKeyData::Password(p) => ParsedKeyView::Password(p@),
            ParsedSlotKeyData::Ctap2 {
                credential_id,
                challenge,
                counter,
                nonce,
                encrypted_dek,
                tag,
            } => ParsedKeyView::Ctap2(
                Ctap2KeyView {
                    credential_id: credential_id@,
                    challenge: challenge@,
                    counter: *counter,
                    nonce: nonce@,
                    encrypted_dek: encrypted_dek@,
                    tag: tag@,
                },
            ),
            ParsedSlotKeyData::TouchId { keychain_ref, nonce, encrypted_dek, tag } =>
                ParsedKeyView::TouchId(
                TouchIdKeyView {
                    keychain_ref: keychain_ref@,
                    nonce: nonce@,
                    encrypted_dek: encrypted_dek@,
                    tag: tag@,
                },
            ),
            ParsedSlotKeyData::Unknown => ParsedKeyView::Unknown,
        }
    }
}

/// One record of the slot section as read from a file.
#[derive(Debug)]
pub struct ParsedSlotRecord {
    pub slot_id: u8,
    pub slot_type: u8,
    pub key_data: ParsedSlotKeyData,
}

impl View for ParsedSlotRecord {
    type V = ParsedRecordView;

    open spec fn view(&self) -> ParsedRecordView {
        ParsedRecordView { slot_id: self.slot_id, slot_type: self.slot_type, key: self.key_data@ }
    }
}

/// Password key data read from 104 or more key bytes (bytes past 104 are
/// ignored); `None` for fewer.
pub open spec fn password_payload_spec(d: Seq<u8>) -> Option<PasswordKeyView> {
    if d.len() < 104 {
        None
    } else {
        Some(
            PasswordKeyView {
                salt: d.subrange(0, 32),
                m_cost: from_be32(d.subrange(32, 36)),
                t_cost: from_be32(d.subrange(36, 40)),
                p_cost: from_be32(d.subrange(40, 44)),
                nonce: d.subrange(44, 56),
                encrypted_dek: d.subrange(56, 88),
                tag: d.subrange(88, 104),
            },
        )
    }
}

/// CTAP2 key data read from key bytes: two length-prefixed fields, a 32-bit
/// counter, a 12-byte nonce, a 32-byte wrapped key and a 16-byte tag.
pub open spec fn ctap2_payload_spec(d: Seq<u8>) -> Option<Ctap2KeyView> {
    if d.len() < 2 {
        None
    } else {
        let o1 = 2 + from_be16(d.subrange(0, 2)) as int;
        if o1 + 2 > d.len() {
            None
        } else {
            let o2 = o1 + 2 + from_be16(d.subrange(o1, o1 + 2)) as int;
            if o2 + 64 > d.len() {
                None
            } else {
                Some(
                    Ctap2KeyView {
                        credential_id: d.subrange(2, o1),
                        challenge: d.subrange(o1 + 2, o2),
                        counter: from_be32(d.subrange(o2, o2 + 4)),
                        nonce: d.subrange(o2 + 4, o2 + 16),
                        encrypted_dek: d.subrange(o2 + 16, o2 + 48),
                        tag: d.subrange(o2 + 48, o2 + 64),
                    },
                )
            }
        }
    }
}

/// Touch ID key data read from key bytes: a length-prefixed keychain
/// reference, a 12-byte nonce, a 32-byte wrapped key and a 16-byte tag.
pub open spec fn touchid_payload_spec(d: Seq<u8>) -> Option<TouchIdKeyView> {
    if d.len() < 2 {
        None
    } else {
        let o1 = 2 + from_be16(d.subrange(0, 2)) as int;
        if o1 + 60 > d.len() {
            None
        } else {
            Some(
                TouchIdKeyView {
                    keychain_ref: d.subrange(2, o1),
                    nonce: d.subrange(o1, o1 + 12),
                    encrypted_dek: d.subrange(o1 + 12, o1 + 44),
                    tag: d.subrange(o1 + 44, o1 + 60),
                },
            )
        }
    }
}

/// The record at offset `o` of `data` and the offset just past it.
pub open spec fn parse_record_at(data: Seq<u8>, o: int) -> Result<(ParsedRecordView, int), KenvError> {
    if o + 4 > data.len() {
        Err(KenvError::InvalidVaultFormat)
    } else {
        let id = data[o];
        let ty = data[o + 1];
        let start = o + 4;
        let end = start + from_be16(data.subrange(o + 2, o + 4)) as int;
        if end > data.len() {
            Err(KenvError::InvalidVaultFormat)
        } else {
            let payload = data.subrange(start, end);
            match slot_type_of_code(ty) {
                Some(SlotType::Password) => match password_payload_spec(payload) {
                    Some(p) => Ok(
                        (
                            ParsedRecordView {
                                slot_id: id,
                                slot_type: ty,
                                key: ParsedKeyView::Password(p),
                            },
                            end,
                        ),
                    ),
                    None => Err(KenvError::InvalidVaultFormat),
                },
                Some(SlotType::Ctap2) => Ok(
                    (
                        ParsedRecordView {
                            slot_id: id,
                            slot_type: ty,
                            key: match ctap2_payload_spec(payload) {
                                Some(c) => ParsedKeyView::Ctap2(c),
                                None => ParsedKeyView::Unknown,
                            },
                        },
                        end,
                    ),
                ),
                Some(SlotType::TouchId) => Ok(
                    (
                        ParsedRecordView {
                            slot_id: id,
                            slot_type: ty,
                            key: match touchid_payload_spec(payload) {
                                Some(t) => ParsedKeyView::TouchId(t),
                                None => ParsedKeyView::Unknown,
                            },
                        },
                        end,
                    ),
                ),
                None => Ok(
                    (ParsedRecordView { slot_id: id, slot_type: ty, key: ParsedKeyView::Unknown }, end),
                ),
            }
        }
    }
}

/// The first `k` records of the slot section of `data`, and the offset after them.
pub open spec fn parse_records_upto(data: Seq<u8>, k: nat) -> Result<(Seq<ParsedRecordView>, int), KenvError>
    decreases k,
{
    if k == 0 {
        Ok((Seq::empty(), V2_SLOTS_OFFSET + 1))
    } else {
        match parse_records_upto(data, (k - 1) as nat) {
            Err(e) => Err(e),
            Ok((rs, o)) => match parse_record_at(data, o) {
                Err(e) => Err(e),
                Ok((r, o2)) => Ok((rs.push(r), o2)),
            },
        }
    }
}

/// Where a slot record that starts at `p` ends: after its 4-byte header
/// (id, type code, 16-bit big-endian data length) and that many data bytes.
pub open spec fn record_end(data: Seq<u8>, p: int) -> int {
    p + 4 + data[p + 2] as int * 256 + data[p + 3] as int
}

/// Where record `k` of the slot section starts: records follow one another
/// from byte 63, right after the record count at byte 62.
pub open spec fn record_start(data: Seq<u8>, k: nat) -> int
    decreases k,
{
    if k == 0 {
        63
    } else {
        record_end(data, record_start(data, (k - 1) as nat))
    }
}

proof fn lemma_be16_value(a: u8, b: u8)
    ensures
        (((a as u16) << 8u16) | (b as u16)) as int == a as int * 256 + b as int,
{
    assert((((a as u16) << 8u16) | (b as u16)) == (a as u16) * 256 + (b as u16)) by (bit_vector);
}

proof fn lemma_records_walk(data: Seq<u8>, k: nat)
    requires
        data.len() > 62,
    ensures
        parse_records_upto(data, k) matches Ok((rs, o)) ==> {
            &&& rs.len() == k
            &&& o == record_start(data, k)
            &&& 63 <= o <= data.len()
            &&& forall|i: int|
                0 <= i < k ==> (#[trigger] rs[i]).slot_id == data[record_start(data, i as nat)]
                    && rs[i].slot_type == data[record_start(data, i as nat) + 1]
        },
    decreases k,
{
    if k > 0 {
        lemma_records_walk(data, (k - 1) as nat);
        if let Ok((rs0, o0)) = parse_records_upto(data, (k - 1) as nat) {
            if o0 + 4 <= data.len() {
                let b = data.subrange(o0 + 2, o0 + 4);
                lemma_be16_value(b[0], b[1]);
                assert(b[0] == data[o0 + 2] && b[1] == data[o0 + 3]);
            }
            if let Ok((r, o2)) = parse_record_at(data, o0) {
                let rs = rs0.push(r);
                assert(record_start(data, k) == record_end(data, o0));
                assert(o2 == record_end(data, o0));
                assert forall|i: int| 0 <= i < k implies (#[trigger] rs[i]).slot_id
                    == data[record_start(data, i as nat)] && rs[i].slot_type == data[record_start(
                    data,
                    i as nat,
                ) + 1] by {
                    if i < k - 1 {
                        assert(rs[i] == rs0[i]);
                    }
                }
            }
        }
    }
}

/// The slot section is walked record by record, whatever the records' type
/// codes: as many records as byte 62 counts, each read at the offset where
/// the one before it ends (4 header bytes plus its 16-bit big-endian data
/// length), with the id and type code found there; the ciphertext starts
/// where the last record ends.
pub proof fn lemma_slot_section_walk(data: Seq<u8>)
    ensures
        parse_slot_section(data) matches Ok((recs, off)) ==> {
            &&& recs.len() == data[62]
            &&& off == record_start(data, data[62] as nat)
            &&& off <= data.len()
            &&& forall|i: int|
                0 <= i < recs.len() ==> (#[trigger] recs[i]).slot_id == data[record_start(
                    data,
                    i as nat,
                )] && recs[i].slot_type == data[record_start(data, i as nat) + 1]
        },
{
    if data.len() > V2_SLOTS_OFFSET {
        lemma_records_walk(data, data[62] as nat);
    }
}

/// The records of the slot section of a version-2 file and the offset where
/// its ciphertext starts.
pub open spec fn parse_slot_section(data: Seq<u8>) -> Result<(Seq<ParsedRecordView>, int), KenvError> {
    if data.len() <= V2_SLOTS_OFFSET {
        Err(KenvError::InvalidVaultFormat)
    } else {
        parse_records_upto(data, data[V2_SLOTS_OFFSET as int] as nat)
    }
}

fn read_u16(data: &[u8], o: &mut usize) -> (res: Result<u16, KenvError>)
    ensures
        *old(o) + 2 > data@.len() ==> res == Err::<u16, KenvError>(KenvError::InvalidVaultFormat)
            && *final(o) == *old(o),
        *old(o) + 2 <= data@.len() ==> res == Ok::<u16, KenvError>(
            from_be16(data@.subrange(*old(o) as int, *old(o) + 2)),
        ) && *final(o) == *old(o) + 2,
{
    if data.len() < 2 || *o > data.len() - 2 {
        return Err(KenvError::InvalidVaultFormat);
    }
    let v = get_be16(data, *o);
    *o = *o + 2;
    Ok(v)
}

fn read_u32(data: &[u8], o: &mut usize) -> (res: Result<u32, KenvError>)
    ensures
        *old(o) + 4 > data@.len() ==> res == Err::<u32, KenvError>(KenvError::InvalidVaultFormat)
            && *final(o) == *old(o),
        *old(o) + 4 <= data@.len() ==> res == Ok::<u32, KenvError>(
            from_be32(data@.subrange(*old(o) as int, *old(o) + 4)),
        ) && *final(o) == *old(o) + 4,
{
    if data.len() < 4 || *o > data.len() - 4 {
        return Err(KenvError::InvalidVaultFormat);
    }
    let v = get_be32(data, *o);
    *o = *o + 4;
    Ok(v)
}

fn read_bytes(data: &[u8], o: &mut usize, len: usize) -> (res: Result<Vec<u8>, KenvError>)
    ensures
        *old(o) + len > data@.len() ==> res is Err && *final(o) == *old(o),
        *old(o) + len <= data@.len() ==> (res matches Ok(v) && v@ == data@.subrange(
            *old(o) as int,
            *old(o) + len,
        ) && *final(o) == *old(o) + len),
{
    if len > data.len() || *o > data.len() - len {
        return Err(KenvError::InvalidVaultFormat);
    }
    let v = copy_range(data, *o, len);
    *o = *o + len;
    Ok(v)
}

fn read_fixed12(data: &[u8], o: &mut usize) -> (res: Result<[u8; 12], KenvError>)
    ensures
        *old(o) + 12 > data@.len() ==> res is Err && *final(o) == *old(o),
        *old(o) + 12 <= data@.len() ==> (res matches Ok(v) && v@ == data@.subrange(
            *old(o) as int,
            *old(o) + 12,
        ) && *final(o) == *old(o) + 12),
{
    if data.len() < 12 || *o > data.len() - 12 {
        return Err(KenvError::InvalidVaultFormat);
    }
    let v = copy_array12(data, *o);
    *o = *o + 12;
    Ok(v)
}

fn read_fixed16(data: &[u8], o: &mut usize) -> (res: Result<[u8; 16], KenvError>)
    ensures
        *old(o) + 16 > data@.len() ==> res is Err && *final(o) == *old(o),
        *old(o) + 16 <= data@.len() ==> (res matches Ok(v) && v@ == data@.subrange(
            *old(o) as int,
            *old(o) + 16,
        ) && *final(o) == *old(o) + 16),
{
    if data.len() < 16 || *o > data.len() - 16 {
        return Err(KenvError::InvalidVaultFormat);
    }
    let v = copy_array16(data, *o);
    *o = *o + 16;
    Ok(v)
}

fn parse_password_payload(data: &[u8]) -> (res: Result<PasswordSlotData, KenvError>)
    ensures
        match password_payload_spec(data@) {
            Some(p) => res matches Ok(q) && q@ == p,
            None => res == Err::<PasswordSlotData, KenvError>(KenvError::InvalidVaultFormat),
        },
{
    if data.len() < 104 {
        return Err(KenvError::InvalidVaultFormat);
    }
    let salt = copy_array32(data, 0);
    let kdf_m_cost = get_be32(data, 32);
    let kdf_t_cost = get_be32(data, 36);
    let kdf_p_cost = get_be32(data, 40);
    let nonce = copy_array12(data, 44);
    let encrypted_dek = copy_range(data, 56, 32);
    let tag = copy_array16(data, 88);
    Ok(PasswordSlotData { salt, kdf_m_cost, kdf_t_cost, kdf_p_cost, nonce, encrypted_dek, tag })
}

fn parse_ctap2_payload(data: &[u8]) -> (res: Result<
    (Vec<u8>, Vec<u8>, u32, [u8; 12], Vec<u8>, [u8; 16]),
    KenvError,
>)
    ensures
        match ctap2_payload_spec(data@) {
            Some(c) => res matches Ok((cid, ch, counter, nonce, enc, tag)) && cid@
                == c.credential_id && ch@ == c.challenge && counter == c.counter && nonce@
                == c.nonce && enc@ == c.encrypted_dek && tag@ == c.tag,
            None => res is Err,
        },
{
    let mut o: usize = 0;
    let cid_len = read_u16(data, &mut o)?;
    let cid = read_bytes(data, &mut o, cid_len as usize)?;
    let ch_len = read_u16(data, &mut o)?;
    let ch = read_bytes(data, &mut o, ch_len as usize)?;
    let counter = read_u32(data, &mut o)?;
    let nonce = read_fixed12(data, &mut o)?;
    let enc_dek = read_bytes(data, &mut o, 32)?;
    let tag = read_fixed16(data, &mut o)?;
    Ok((cid, ch, counter, nonce, enc_dek, tag))
}

fn parse_touchid_payload(data: &[u8]) -> (res: Result<(Vec<u8>, [u8; 12], Vec<u8>, [u8; 16]), KenvError>)
    ensures
        match touchid_payload_spec(data@) {
            Some(t) => res matches Ok((r, nonce, enc, tag)) && r@ == t.keychain_ref && nonce@
                == t.nonce && enc@ == t.encrypted_dek && tag@ == t.tag,
            None => res is Err,
        },
{
    let mut o: usize = 0;
    let ref_len = read_u16(data, &mut o)?;
    let keychain_ref = read_bytes(data, &mut o, ref_len as usize)?;
    let nonce = read_fixed12(data, &mut o)?;
    let enc_dek = read_bytes(data, &mut o, 32)?;
    let tag = read_fixed16(data, &mut o)?;
    Ok((keychain_ref, nonce, enc_dek, tag))
}

fn parse_one_record(data: &[u8], offset: usize) -> (res: Result<(ParsedSlotRecord, usize), KenvError>)
    ensures
        match parse_record_at(data@, offset as int) {
            Ok((r, o)) => res matches Ok((rec, o2)) && rec@ == r && o2 == o,
            Err(e) => res == Err::<(ParsedSlotRecord, usize), KenvError>(e),
        },
{
    if data.len() < 4 || offset > data.len() - 4 {
        return Err(KenvError::InvalidVaultFormat);
    }
    let slot_id = data[offset];
    let slot_type_byte = data[offset + 1];
    let data_len = get_be16(data, offset + 2) as usize;
    let start = offset + 4;
    if data_len > data.len() - start {
        return Err(KenvError::InvalidVaultFormat);
    }
    let payload = vstd::slice::slice_subrange(data, start, start + data_len);
    let end = start + data_len;
    let key_data = match SlotType::from_u8(slot_type_byte) {
        Some(SlotType::Password) => {
            let p = parse_password_payload(payload)?;
            ParsedSlotKeyData::Password(p)
        },
        Some(SlotType::Ctap2) => match parse_ctap2_payload(payload) {
            Ok((credential_id, challenge, counter, nonce, encrypted_dek, tag)) =>
                ParsedSlotKeyData::Ctap2 {
                credential_id,
                challenge,
                counter,
                nonce,
                encrypted_dek,
                tag,
            },
            Err(_) => ParsedSlotKeyData::Unknown,
        },
        Some(SlotType::TouchId) => match parse_touchid_payload(payload) {
            Ok((keychain_ref, nonce, encrypted_dek, tag)) => ParsedSlotKeyData::TouchId {
                keychain_ref,
                nonce,
                encrypted_dek,
                tag,
            },
            Err(_) => ParsedSlotKeyData::Unknown,
        },
        None => ParsedSlotKeyData::Unknown,
    };
    Ok((ParsedSlotRecord { slot_id, slot_type: slot_type_byte, key_data }, end))
}

/// Parses the cleartext slot section of a version-2 file.
///
/// Returns the records and the offset where the ciphertext starts, right
/// after the last record. Unknown slot types come back as
/// [`ParsedSlotKeyData::Unknown`] so they are stepped over; password key bytes
/// that are too short make the whole section invalid.
pub fn parse_cleartext_slot_records(data: &[u8]) -> (res: Result<(Vec<ParsedSlotRecord>, usize), KenvError>)
    ensures
        match parse_slot_section(data@) {
            Ok((rs, o)) => res matches Ok((v, off)) && off == o && v@.len() == rs.len() && (forall|
                i: int,
            | 0 <= i < rs.len() ==> #[trigger] v@[i]@ == rs[i]),
            Err(e) => res == Err::<(Vec<ParsedSlotRecord>, usize), KenvError>(e),
        },
{
    if data.len() <= V2_SLOTS_OFFSET {
        return Err(KenvError::InvalidVaultFormat);
    }
    let slot_count = data[V2_SLOTS_OFFSET] as usize;
    let mut offset = V2_SLOTS_OFFSET + 1;
    let mut records: Vec<ParsedSlotRecord> = Vec::new();
    let mut k: usize = 0;
    while k < slot_count
        invariant
            k <= slot_count,
            slot_count == data@[V2_SLOTS_OFFSET as int] as nat,
            parse_records_upto(data@, k as nat) matches Ok((rs, o)) && o == offset
                && records@.len() == rs.len() && (forall|i: int|
                0 <= i < rs.len() ==> #[trigger] records@[i]@ == rs[i]),
        decreases slot_count - k,
    {
        let ghost prev = records@;
        match parse_one_record(data, offset) {
            Ok((rec, next)) => {
                records.push(rec);
                offset = next;
            },
            Err(e) => {
                proof {
                    assert(parse_records_upto(data@, (k + 1) as nat) == Err::<
                        (Seq<ParsedRecordView>, int),
                        KenvError,
                    >(e));
                    lemma_upto_err_sticks(data@, (k + 1) as nat, slot_count as nat);
                }
                return Err(e);
            },
        }
        k = k + 1;
    }
    Ok((records, offset))
}

proof fn lemma_upto_err_sticks(data: Seq<u8>, k: nat, n: nat)
    requires
        k <= n,
        parse_records_upto(data, k) is Err,
    ensures
        parse_records_upto(data, n) == parse_records_upto(data, k),
    decreases n - k,
{
    if k < n {
        lemma_upto_err_sticks(data, k, (n - 1) as nat);
    }
}

// ---------------------------------------------------------------------------
// Whole file

/// Bytes of a vault file: the 62-byte header, the slot section (version 2
/// only), then the ciphertext. Version 2 writes zero KDF costs in the header.
pub open spec fn vault_file_bytes(
    salt: Seq<u8>,
    nonce: Seq<u8>,
    ciphertext: Seq<u8>,
    params: KdfParams,
    version: u8,
    slot_records: Seq<u8>,
) -> Seq<u8> {
    magic_bytes() + seq![version, KDF_ID_ARGON2ID] + (if version == FILE_VERSION_V2 {
        Seq::new(12, |i: int| 0u8)
    } else {
        be32(params.m_cost) + be32(params.t_cost) + be32(params.p_cost)
    }) + salt + nonce + (if version == FILE_VERSION_V2 {
        slot_records
    } else {
        Seq::empty()
    }) + ciphertext
}

/// Lays out a vault file in memory.
pub fn encode_vault_bytes(
    salt: &[u8; 32],
    nonce: &[u8; 12],
    ciphertext: &[u8],
    params: &KdfParams,
    version: u8,
    slot_records: &[u8],
) -> (buf: Vec<u8>)
    ensures
        buf@ == vault_file_bytes(salt@, nonce@, ciphertext@, *params, version, slot_records@),
{
    let mut buf = Vec::new();
    append_bytes(&mut buf, MAGIC.as_slice());
    buf.push(version);
    buf.push(KDF_ID_ARGON2ID);
    let ghost head = buf@;
    if version == FILE_VERSION_V2 {
        let zeros = [0u8; 12];
        append_bytes(&mut buf, zeros.as_slice());
        assert(zeros@ =~= Seq::new(12, |i: int| 0u8));
    } else {
        push_be32(&mut buf, params.m_cost);
        push_be32(&mut buf, params.t_cost);
        push_be32(&mut buf, params.p_cost);
        assert(buf@ =~= head + (be32(params.m_cost) + be32(params.t_cost) + be32(params.p_cost)));
    }
    append_bytes(&mut buf, salt.as_slice());
    append_bytes(&mut buf, nonce.as_slice());
    let ghost before_records = buf@;
    if version == FILE_VERSION_V2 {
        append_bytes(&mut buf, slot_records);
    } else {
        assert(buf@ =~= before_records + Seq::<u8>::empty());
    }
    append_bytes(&mut buf, ciphertext);
    assert(MAGIC@ =~= magic_bytes());
    assert(buf@ =~= vault_file_bytes(salt@, nonce@, ciphertext@, *params, version, slot_records@));
    buf
}

/// Whether every byte of `s` is zero.
pub open spec fn all_zero_spec(s: Seq<u8>) -> bool {
    forall|i: int| 0 <= i < s.len() ==> s[i] == 0
}

/// Outcome of checking a file's header: its version, or why it is refused.
///
/// A file is refused when it is shorter than [`MIN_FILE_SIZE`], does not start
/// with `KENV`, is version 1 (`VaultVersionUnsupported(1)`), has any other
/// version than 2, a KDF id other than Argon2id, or an all-zero salt or nonce.
pub open spec fn header_check(d: Seq<u8>) -> Result<u8, KenvError> {
    if d.len() < MIN_FILE_SIZE {
        Err(KenvError::InvalidVaultFormat)
    } else if d.subrange(0, 4) != magic_bytes() {
        Err(KenvError::InvalidVaultFormat)
    } else if d[4] == FILE_VERSION_V1 {
        Err(KenvError::VaultVersionUnsupported(FILE_VERSION_V1))
    } else if d[4] != FILE_VERSION_V2 {
        Err(KenvError::InvalidVaultFormat)
    } else if d[5] != KDF_ID_ARGON2ID {
        Err(KenvError::InvalidVaultFormat)
    } else if all_zero_spec(d.subrange(SALT_OFFSET as int, (SALT_OFFSET + SALT_SIZE) as int)) {
        Err(KenvError::InvalidVaultFormat)
    } else if all_zero_spec(d.subrange(NONCE_OFFSET as int, (NONCE_OFFSET + NONCE_SIZE) as int)) {
        Err(KenvError::InvalidVaultFormat)
    } else {
        Ok(FILE_VERSION_V2)
    }
}

/// What the header check accepts: exactly the files of at least 91 bytes that
/// start with `KENV`, have version 2 and KDF id 1, and have a salt (bytes 18
/// to 49) and a nonce (bytes 50 to 61) that are not all zero; then the
/// version returned is 2. A version-1 file of that length with the magic is
/// refused as `VaultVersionUnsupported(1)`; every other refusal is
/// `InvalidVaultFormat`.
pub proof fn lemma_header_check_accepts(d: Seq<u8>)
    ensures
        header_check(d) is Ok <==> {
            &&& d.len() >= 91
            &&& d[0] == 0x4Bu8 && d[1] == 0x45u8 && d[2] == 0x4Eu8 && d[3] == 0x56u8
            &&& d[4] == 2 && d[5] == 1
            &&& exists|i: int| 18 <= i < 50 && d[i] != 0
            &&& exists|i: int| 50 <= i < 62 && d[i] != 0
        },
        header_check(d) matches Ok(v) ==> v == 2,
        d.len() >= 91 && d[0] == 0x4Bu8 && d[1] == 0x45u8 && d[2] == 0x4Eu8 && d[3] == 0x56u8
            && d[4] == 1 ==> header_check(d) == Err::<u8, KenvError>(
            KenvError::VaultVersionUnsupported(1),
        ),
        header_check(d) matches Err(e) ==> e == KenvError::InvalidVaultFormat || e
            == KenvError::VaultVersionUnsupported(1),
{
    if d.len() >= 91 {
        let m = d.subrange(0, 4);
        assert(m == magic_bytes() <==> (d[0] == 0x4Bu8 && d[1] == 0x45u8 && d[2] == 0x4Eu8 && d[3]
            == 0x56u8)) by {
            if d[0] == 0x4Bu8 && d[1] == 0x45u8 && d[2] == 0x4Eu8 && d[3] == 0x56u8 {
                assert(m =~= magic_bytes());
            }
            if m == magic_bytes() {
                assert(m[0] == d[0] && m[1] == d[1] && m[2] == d[2] && m[3] == d[3]);
            }
        }
        let salt = d.subrange(18, 50);
        let nonce = d.subrange(50, 62);
        assert(!all_zero_spec(salt) <==> exists|i: int| 18 <= i < 50 && d[i] != 0) by {
            if !all_zero_spec(salt) {
                let k = choose|k: int| 0 <= k < salt.len() && salt[k] != 0;
                assert(d[k + 18] != 0);
            }
            if exists|i: int| 18 <= i < 50 && d[i] != 0 {
                let i = choose|i: int| 18 <= i < 50 && d[i] != 0;
                assert(salt[i - 18] != 0);
            }
        }
        assert(!all_zero_spec(nonce) <==> exists|i: int| 50 <= i < 62 && d[i] != 0) by {
            if !all_zero_spec(nonce) {
                let k = choose|k: int| 0 <= k < nonce.len() && nonce[k] != 0;
                assert(d[k + 50] != 0);
            }
            if exists|i: int| 50 <= i < 62 && d[i] != 0 {
                let i = choose|i: int| 50 <= i < 62 && d[i] != 0;
                assert(nonce[i - 50] != 0);
            }
        }
    }
}

/// Checks the header of a vault file and returns its version.
pub fn validate_vault_header(data: &[u8]) -> (res: Result<u8, KenvError>)
    ensures
        res == header_check(data@),
{
    if data.len() < MIN_FILE_SIZE {
        return Err(KenvError::InvalidVaultFormat);
    }
    if data[0] != MAGIC[0] || data[1] != MAGIC[1] || data[2] != MAGIC[2] || data[3] != MAGIC[3] {
        assert(data@.subrange(0, 4) != magic_bytes()) by {
            if data@.subrange(0, 4) == magic_bytes() {
                assert(data@.subrange(0, 4)[0] == data@[0]);
                assert(data@.subrange(0, 4)[1] == data@[1]);
                assert(data@.subrange(0, 4)[2] == data@[2]);
                assert(data@.subrange(0, 4)[3] == data@[3]);
            }
        }
        return Err(KenvError::InvalidVaultFormat);
    }
    assert(data@.subrange(0, 4) =~= magic_bytes());
    let version = data[4];
    if version == FILE_VERSION_V1 {
        return Err(KenvError::VaultVersionUnsupported(FILE_VERSION_V1));
    }
    if version != FILE_VERSION_V2 {
        return Err(KenvError::InvalidVaultFormat);
    }
    if data[5] != KDF_ID_ARGON2ID {
        return Err(KenvError::InvalidVaultFormat);
    }
    let salt = vstd::slice::slice_subrange(data, SALT_OFFSET, SALT_OFFSET + SALT_SIZE);
    if all_zero(salt) {
        return Err(KenvError::InvalidVaultFormat);
    }
    let nonce = vstd::slice::slice_subrange(data, NONCE_OFFSET, NONCE_OFFSET + NONCE_SIZE);
    if all_zero(nonce) {
        return Err(KenvError::InvalidVaultFormat);
    }
    Ok(version)
}

} // verus!

verus! {

// ---------------------------------------------------------------------------
// Reading back what was written

/// Whether a slot's record reads back whole: its key bytes fit a 16-bit
/// length, every length-prefixed field fits its prefix, and the wrapped key is
/// 32 bytes, the size the reader takes.
pub open spec fn record_fits(slot: UnlockSlot) -> bool {
    &&& key_payload_bytes(slot).len() <= 65535
    &&& match slot.slot_type {
        SlotType::Password => match slot.password {
            Some(p) => p.encrypted_dek@.len() == 32,
            None => true,
        },
        SlotType::Ctap2 => match slot.ctap2 {
            Some(c) => c.credential_id@.len() <= 65535 && c.challenge@.len() <= 65535
                && c.encrypted_dek@.len() == 32,
            None => true,
        },
        SlotType::TouchId => match slot.touchid {
            Some(t) => t.keychain_ref@.len() <= 65535 && t.encrypted_dek@.len() == 32,
            None => true,
        },
    }
}

/// The record a reader gets back for a slot that carries key material.
pub open spec fn expected_record(slot: UnlockSlot) -> ParsedRecordView {
    ParsedRecordView {
        slot_id: slot.slot_id,
        slot_type: slot_type_code(slot.slot_type),
        key: match slot.slot_type {
            SlotType::Password => ParsedKeyView::Password(slot.password->0@),
            SlotType::Ctap2 => {
                let c = slot.ctap2->0;
                ParsedKeyView::Ctap2(
                    Ctap2KeyView {
                        credential_id: c.credential_id@,
                        challenge: c.challenge@,
                        counter: c.counter,
                        nonce: c.nonce@,
                        encrypted_dek: c.encrypted_dek@,
                        tag: c.tag@,
                    },
                )
            },
            SlotType::TouchId => {
                let t = slot.touchid->0;
                ParsedKeyView::TouchId(
                    TouchIdKeyView {
                        keychain_ref: t.keychain_ref@,
                        nonce: t.nonce@,
                        encrypted_dek: t.encrypted_dek@,
                        tag: t.tag@,
                    },
                )
            },
        },
    }
}

proof fn lemma_counted(b: Seq<u8>, rest: Seq<u8>)
    requires
        b.len() <= 65535,
    ensures
        counted(b) == be16(b.len() as u16) + b,
        (counted(b) + rest).subrange(0, 2) == be16(b.len() as u16),
        from_be16((counted(b) + rest).subrange(0, 2)) == b.len(),
        (counted(b) + rest).subrange(2, 2 + b.len() as int) == b,
        (counted(b) + rest).skip(2 + b.len() as int) == rest,
{
    assert(b.take(b.len() as int) =~= b);
    let d = counted(b) + rest;
    assert(d.subrange(0, 2) =~= be16(b.len() as u16));
    crate::bytes::lemma_be16_roundtrip(b.len() as u16);
    assert(d.subrange(2, 2 + b.len() as int) =~= b);
    assert(d.skip(2 + b.len() as int) =~= rest);
}

proof fn lemma_password_payload_roundtrip(p: PasswordKeyView)
    requires
        p.salt.len() == 32,
        p.nonce.len() == 12,
        p.encrypted_dek.len() == 32,
        p.tag.len() == 16,
    ensures
        password_payload_spec(password_payload_bytes(p)) == Some(p),
        password_payload_bytes(p).len() == 104,
{
    let d = password_payload_bytes(p);
    assert(d.subrange(0, 32) =~= p.salt);
    assert(d.subrange(32, 36) =~= be32(p.m_cost));
    assert(d.subrange(36, 40) =~= be32(p.t_cost));
    assert(d.subrange(40, 44) =~= be32(p.p_cost));
    assert(d.subrange(44, 56) =~= p.nonce);
    assert(d.subrange(56, 88) =~= p.encrypted_dek);
    assert(d.subrange(88, 104) =~= p.tag);
    crate::bytes::lemma_be32_roundtrip(p.m_cost);
    crate::bytes::lemma_be32_roundtrip(p.t_cost);
    crate::bytes::lemma_be32_roundtrip(p.p_cost);
}

proof fn lemma_ctap2_payload_roundtrip(c: Ctap2SlotData)
    requires
        c.credential_id@.len() <= 65535,
        c.challenge@.len() <= 65535,
        c.encrypted_dek@.len() == 32,
    ensures
        ctap2_payload_spec(ctap2_payload_bytes(c)) == Some(
            Ctap2KeyView {
                credential_id: c.credential_id@,
                challenge: c.challenge@,
                counter: c.counter,
                nonce: c.nonce@,
                encrypted_dek: c.encrypted_dek@,
                tag: c.tag@,
            },
        ),
{
    let cid = c.credential_id@;
    let ch = c.challenge@;
    let tail = be32(c.counter) + c.nonce@ + c.encrypted_dek@ + c.tag@;
    let rest1 = counted(ch) + tail;
    let d = ctap2_payload_bytes(c);
    assert(d =~= counted(cid) + rest1);
    lemma_counted(cid, rest1);
    lemma_counted(ch, tail);
    let o1 = 2 + cid.len() as int;
    assert(d.subrange(o1, o1 + 2) =~= rest1.subrange(0, 2));
    let o2 = o1 + 2 + ch.len() as int;
    assert(d.subrange(o1 + 2, o2) =~= rest1.subrange(2, 2 + ch.len() as int));
    assert(d.skip(o2) =~= tail);
    assert(d.subrange(o2, o2 + 4) =~= be32(c.counter));
    crate::bytes::lemma_be32_roundtrip(c.counter);
    assert(d.subrange(o2 + 4, o2 + 16) =~= c.nonce@);
    assert(d.subrange(o2 + 16, o2 + 48) =~= c.encrypted_dek@);
    assert(d.subrange(o2 + 48, o2 + 64) =~= c.tag@);
    assert(d.subrange(2, o1) =~= cid);
}

proof fn lemma_touchid_payload_roundtrip(t: TouchIdSlotData)
    requires
        t.keychain_ref@.len() <= 65535,
        t.encrypted_dek@.len() == 32,
    ensures
        touchid_payload_spec(touchid_payload_bytes(t)) == Some(
            TouchIdKeyView {
                keychain_ref: t.keychain_ref@,
                nonce: t.nonce@,
                encrypted_dek: t.encrypted_dek@,
                tag: t.tag@,
            },
        ),
{
    let r = t.keychain_ref@;
    let tail = t.nonce@ + t.encrypted_dek@ + t.tag@;
    let d = touchid_payload_bytes(t);
    assert(d =~= counted(r) + tail);
    lemma_counted(r, tail);
    let o1 = 2 + r.len() as int;
    assert(d.subrange(o1, o1 + 12) =~= t.nonce@);
    assert(d.subrange(o1 + 12, o1 + 44) =~= t.encrypted_dek@);
    assert(d.subrange(o1 + 44, o1 + 60) =~= t.tag@);
    assert(d.subrange(2, o1) =~= r);
}

proof fn lemma_record_layout(pre: Seq<u8>, slot: UnlockSlot, post: Seq<u8>)
    requires
        record_fits(slot),
    ensures
        ({
            let data = pre + slot_record_bytes(slot) + post;
            let o = pre.len() as int;
            let p = key_payload_bytes(slot);
            &&& slot_record_bytes(slot).len() == 4 + p.len()
            &&& o + 4 + p.len() <= data.len()
            &&& data[o] == slot.slot_id
            &&& data[o + 1] == slot_type_code(slot.slot_type)
            &&& from_be16(data.subrange(o + 2, o + 4)) == p.len()
            &&& data.subrange(o + 4, o + 4 + p.len() as int) == p
        }),
{
    let p = key_payload_bytes(slot);
    let n = clamp16(p.len());
    assert(p.take(n as int) =~= p);
    let r = slot_record_bytes(slot);
    assert(r =~= seq![slot.slot_id, slot_type_code(slot.slot_type)] + be16(n) + p);
    let data = pre + r + post;
    let o = pre.len() as int;
    assert(data.subrange(o, o + r.len()) =~= r);
    assert(data[o] == r[0]);
    assert(data[o + 1] == r[1]);
    assert(data.subrange(o + 2, o + 4) =~= r.subrange(2, 4));
    assert(r.subrange(2, 4) =~= be16(n));
    crate::bytes::lemma_be16_roundtrip(n);
    assert(data.subrange(o + 4, o + 4 + p.len() as int) =~= r.subrange(4, r.len() as int));
    assert(r.subrange(4, r.len() as int) =~= p);
}

#[verifier::rlimit(40)]
proof fn lemma_record_roundtrip(pre: Seq<u8>, slot: UnlockSlot, post: Seq<u8>)
    requires
        has_key_material(slot),
        record_fits(slot),
    ensures
        parse_record_at(pre + slot_record_bytes(slot) + post, pre.len() as int) == Ok::<
            (ParsedRecordView, int),
            KenvError,
        >((expected_record(slot), (pre.len() + slot_record_bytes(slot).len()) as int)),
{
    lemma_record_layout(pre, slot, post);
    crate::slots::lemma_slot_type_code_roundtrip(slot.slot_type, 0);
    let p = key_payload_bytes(slot);
    match slot.slot_type {
        SlotType::Password => {
            let pw = slot.password->0;
            assert(p == password_payload_bytes(pw@));
            lemma_password_payload_roundtrip(pw@);
        },
        SlotType::Ctap2 => {
            assert(p == ctap2_payload_bytes(slot.ctap2->0));
            lemma_ctap2_payload_roundtrip(slot.ctap2->0);
        },
        SlotType::TouchId => {
            assert(p == touchid_payload_bytes(slot.touchid->0));
            lemma_touchid_payload_roundtrip(slot.touchid->0);
        },
    }
}

proof fn lemma_key_slots_have_material(s: Seq<UnlockSlot>)
    ensures
        forall|i: int| 0 <= i < key_slots(s).len() ==> has_key_material(#[trigger] key_slots(s)[i]),
        forall|i: int|
            0 <= i < key_slots(s).len() ==> exists|j: int| 0 <= j < s.len() && s[j] == #[trigger] key_slots(s)[i],
    decreases s.len(),
{
    if s.len() > 0 {
        lemma_key_slots_have_material(s.drop_last());
        let r = key_slots(s.drop_last());
        assert forall|i: int| 0 <= i < key_slots(s).len() implies exists|j: int|
            0 <= j < s.len() && s[j] == #[trigger] key_slots(s)[i] by {
            if i < r.len() {
                let j = choose|j: int| 0 <= j < s.drop_last().len() && s.drop_last()[j] == r[i];
                assert(s[j] == key_slots(s)[i]);
            } else {
                assert(s[s.len() - 1] == key_slots(s)[i]);
            }
        }
    }
}

proof fn lemma_record_position(data: Seq<u8>, e: Seq<UnlockSlot>, tail: Seq<u8>, k: nat)
    requires
        data.len() >= 63,
        data.skip(63) == records_body(e) + tail,
        1 <= k <= e.len(),
    ensures
        ({
            let o = 63 + records_body(e.take(k - 1)).len() as int;
            let rec = slot_record_bytes(e[k - 1]);
            &&& records_body(e.take(k as int)) == records_body(e.take(k - 1)) + rec
            &&& o + rec.len() <= data.len()
            &&& data == data.subrange(0, o) + rec + data.skip(o + rec.len() as int)
        }),
{
    let prev = e.take(k - 1);
    let cur = e.take(k as int);
    assert(cur.drop_last() =~= prev);
    assert(cur.last() == e[k - 1]);
    lemma_records_body_prefix(e, k);
    let rec = slot_record_bytes(e[k - 1]);
    let a_len = records_body(prev).len() as int;
    let ab_len = records_body(cur).len() as int;
    let o = 63 + a_len;
    let rb = records_body(e);
    assert(rb.subrange(a_len, ab_len) =~= rec) by {
        assert(rb.subrange(a_len, ab_len) =~= rb.subrange(0, ab_len).subrange(a_len, ab_len));
        assert((records_body(prev) + rec).subrange(a_len, ab_len) =~= rec);
    }
    assert(data.skip(63).len() == data.len() - 63);
    assert(o + rec.len() <= data.len());
    assert(data.subrange(o, o + rec.len() as int) =~= rec) by {
        assert forall|i: int| 0 <= i < rec.len() implies data.subrange(o, o + rec.len() as int)[i]
            == rb.subrange(a_len, ab_len)[i] by {
            assert(data.skip(63)[a_len + i] == data[63 + a_len + i]);
            assert((rb + tail)[a_len + i] == rb[a_len + i]);
        }
    }
    assert(data =~= data.subrange(0, o) + rec + data.skip(o + rec.len() as int));
}

#[verifier::rlimit(50)]
proof fn lemma_records_upto(data: Seq<u8>, e: Seq<UnlockSlot>, tail: Seq<u8>, k: nat)
    requires
        data.len() >= 63,
        data.skip(63) == records_body(e) + tail,
        k <= e.len(),
        forall|i: int| 0 <= i < e.len() ==> has_key_material(#[trigger] e[i]) && record_fits(e[i]),
    ensures
        parse_records_upto(data, k) == Ok::<(Seq<ParsedRecordView>, int), KenvError>(
            (
                e.take(k as int).map_values(|s: UnlockSlot| expected_record(s)),
                63 + records_body(e.take(k as int)).len() as int,
            ),
        ),
    decreases k,
{
    if k == 0 {
        assert(e.take(0) =~= Seq::<UnlockSlot>::empty());
        assert(e.take(0).map_values(|s: UnlockSlot| expected_record(s)) =~= Seq::<
            ParsedRecordView,
        >::empty());
    } else {
        lemma_records_upto(data, e, tail, (k - 1) as nat);
        lemma_record_position(data, e, tail, k);
        let prev = e.take(k - 1);
        let cur = e.take(k as int);
        let o = 63 + records_body(prev).len() as int;
        let rec = slot_record_bytes(e[k - 1]);
        let pre = data.subrange(0, o);
        let post = data.skip(o + rec.len() as int);
        lemma_record_roundtrip(pre, e[k - 1], post);
        assert(cur.map_values(|s: UnlockSlot| expected_record(s)) =~= prev.map_values(
            |s: UnlockSlot| expected_record(s),
        ).push(expected_record(e[k - 1])));
    }
}

proof fn lemma_records_body_prefix(e: Seq<UnlockSlot>, k: nat)
    requires
        k <= e.len(),
    ensures
        records_body(e.take(k as int)).len() <= records_body(e).len(),
        records_body(e).subrange(0, records_body(e.take(k as int)).len() as int) == records_body(
            e.take(k as int),
        ),
    decreases e.len() - k,
{
    if k < e.len() {
        lemma_records_body_prefix(e, k + 1);
        let a = e.take(k as int);
        let b = e.take(k as int + 1);
        assert(b.drop_last() =~= a);
        assert(records_body(b) == records_body(a) + slot_record_bytes(b.last()));
        assert(records_body(e).subrange(0, records_body(a).len() as int) =~= records_body(b).subrange(
            0,
            records_body(a).len() as int,
        ));
    } else {
        assert(e.take(k as int) =~= e);
    }
}

} // verus!

verus! {

/// The slots that get a record all carry key material, and there are at most 255.
pub proof fn lemma_recorded_slots_have_material(s: Seq<UnlockSlot>)
    ensures
        recorded_slots(s).len() <= 255,
        forall|i: int|
            0 <= i < recorded_slots(s).len() ==> has_key_material(#[trigger] recorded_slots(s)[i]),
{
    lemma_key_slots_have_material(s);
    let k = key_slots(s);
    if k.len() > 255 {
        assert forall|i: int| 0 <= i < recorded_slots(s).len() implies has_key_material(
            #[trigger] recorded_slots(s)[i],
        ) by {
            assert(recorded_slots(s)[i] == k[i]);
        }
    }
}

/// The slot section read back after any 62-byte header and before any
/// bytes: it yields, for each slot that got a record, that slot's id, type
/// code and key material, in order, and what follows starts right after the
/// section. Stated for slots whose records fit (see [`record_fits`]).
pub proof fn lemma_slot_section_roundtrip(head: Seq<u8>, slots: Seq<UnlockSlot>, tail: Seq<u8>)
    requires
        head.len() == 62,
        forall|i: int| 0 <= i < recorded_slots(slots).len() ==> record_fits(
            #[trigger] recorded_slots(slots)[i],
        ),
    ensures
        ({
            let data = head + slot_section_bytes(slots) + tail;
            parse_slot_section(data) matches Ok((records, start)) && records
                == recorded_slots(slots).map_values(|s: UnlockSlot| expected_record(s)) && start
                == 62 + slot_section_bytes(slots).len() && data.skip(start) == tail
        }),
{
    let e = recorded_slots(slots);
    lemma_recorded_slots_have_material(slots);
    let section = slot_section_bytes(slots);
    let data = head + section + tail;
    assert(data[62] == e.len() as u8);
    assert(data.skip(63) =~= records_body(e) + tail);
    lemma_records_upto(data, e, tail, e.len());
    assert(e.take(e.len() as int) =~= e);
    assert(data.skip(63 + records_body(e).len() as int) =~= tail);
}

/// A version-2 vault file read back: its slot section yields, for each slot
/// that got a record, that slot's id, type code and key material, in order,
/// and the ciphertext starts right after the section, as written. Stated for
/// slots whose records fit (see [`record_fits`]).
pub proof fn lemma_vault_file_roundtrip(
    salt: Seq<u8>,
    nonce: Seq<u8>,
    ciphertext: Seq<u8>,
    params: KdfParams,
    slots: Seq<UnlockSlot>,
)
    requires
        salt.len() == 32,
        nonce.len() == 12,
        forall|i: int| 0 <= i < recorded_slots(slots).len() ==> record_fits(
            #[trigger] recorded_slots(slots)[i],
        ),
    ensures
        ({
            let file = vault_file_bytes(
                salt,
                nonce,
                ciphertext,
                params,
                FILE_VERSION_V2,
                slot_section_bytes(slots),
            );
            &&& parse_slot_section(file) matches Ok((records, start)) && records
                == recorded_slots(slots).map_values(|s: UnlockSlot| expected_record(s))
                && file.skip(start) == ciphertext
            &&& file.subrange(SALT_OFFSET as int, (SALT_OFFSET + SALT_SIZE) as int) == salt
            &&& file.subrange(NONCE_OFFSET as int, (NONCE_OFFSET + NONCE_SIZE) as int) == nonce
        }),
{
    let e = recorded_slots(slots);
    lemma_recorded_slots_have_material(slots);
    let section = slot_section_bytes(slots);
    let file = vault_file_bytes(salt, nonce, ciphertext, params, FILE_VERSION_V2, section);
    let head = magic_bytes() + seq![FILE_VERSION_V2, KDF_ID_ARGON2ID] + Seq::new(
        12,
        |i: int| 0u8,
    ) + salt + nonce;
    assert(head.len() == 62);
    assert(file =~= head + section + ciphertext);
    assert(file[62] == e.len() as u8);
    assert(file.skip(63) =~= records_body(e) + ciphertext);
    lemma_records_upto(file, e, ciphertext, e.len());
    assert(e.take(e.len() as int) =~= e);
    assert(file.skip(63 + records_body(e).len() as int) =~= ciphertext);
    assert(file.subrange(18, 50) =~= salt);
    assert(file.subrange(50, 62) =~= nonce);
}

} // verus!
