//! Unlock slots: each one wraps a copy of the vault's data encryption key.
pub mod ctap2;
pub mod password;
pub mod touchid;

use vstd::prelude::*;

verus! {

/// A point in time, as whole seconds and nanoseconds after the Unix epoch.
#[derive(Clone, Copy, Debug, PartialEq, Eq, Structural)]
pub struct Timestamp {
    pub secs: u64,
    pub nanos: u32,
}

/// Kind of an unlock slot; its wire number is 1, 2 or 3.
#[derive(Clone, Copy, Debug, PartialEq, Eq, Structural)]
pub enum SlotType {
    Password,
    Ctap2,
    TouchId,
}

/// Wire number of a slot type.
pub open spec fn slot_type_code(t: SlotType) -> u8 {
    match t {
        SlotType::Password => 1,
        SlotType::Ctap2 => 2,
        SlotType::TouchId => 3,
    }
}

/// Slot type of a wire number, if it names one.
pub open spec fn slot_type_of_code(v: u8) -> Option<SlotType> {
    if v == 1 {
        Some(SlotType::Password)
    } else if v == 2 {
        Some(SlotType::Ctap2)
    } else if v == 3 {
        Some(SlotType::TouchId)
    } else {
        None
    }
}

impl SlotType {
    pub fn as_u8(&self) -> (v: u8)
        ensures
            v == slot_type_code(*self),
    {
        match self {
            SlotType::Password => 1,
            SlotType::Ctap2 => 2,
            SlotType::TouchId => 3,
        }
    }

    pub fn from_u8(val: u8) -> (t: Option<SlotType>)
        ensures
            t == slot_type_of_code(val),
    {
        match val {
            1 => Some(SlotType::Password),
            2 => Some(SlotType::Ctap2),
            3 => Some(SlotType::TouchId),
            _ => None,
        }
    }
}

/// Decoding a slot type's wire number gives the type back, and only the three
/// wire numbers decode.
pub proof fn lemma_slot_type_code_roundtrip(t: SlotType, v: u8)
    ensures
        slot_type_of_code(slot_type_code(t)) == Some(t),
        slot_type_of_code(v) matches Some(u) ==> slot_type_code(u) == v,
{
}

/// Key material of a password slot: the Argon2id salt and costs that turn the
/// password into a wrapping key, and the AES-256-GCM nonce, ciphertext and tag
/// of the wrapped key.
#[derive(Clone, Debug)]
pub struct PasswordSlotData {
    pub salt: [u8; 32],
    pub kdf_m_cost: u32,
    pub kdf_t_cost: u32,
    pub kdf_p_cost: u32,
    pub nonce: [u8; 12],
    pub encrypted_dek: Vec<u8>,
    pub tag: [u8; 16],
}

/// Plain view of [`PasswordSlotData`].
pub struct PasswordKeyView {
    pub salt: Seq<u8>,
    pub m_cost: u32,
    pub t_cost: u32,
    pub p_cost: u32,
    pub nonce: Seq<u8>,
    pub encrypted_dek: Seq<u8>,
    pub tag: Seq<u8>,
}

impl View for PasswordSlotData {
    type V = PasswordKeyView;

    open spec fn view(&self) -> PasswordKeyView {
        PasswordKeyView {
            salt: self.salt@,
            m_cost: self.kdf_m_cost,
            t_cost: self.kdf_t_cost,
            p_cost: self.kdf_p_cost,
            nonce: self.nonce@,
            encrypted_dek: self.encrypted_dek@,
            tag: self.tag@,
        }
    }
}

/// Key material of a CTAP2 security-key slot.
#[derive(Clone, Debug)]
pub struct Ctap2SlotData {
    pub credential_id: Vec<u8>,
    pub public_key: Vec<u8>,
    pub challenge: Vec<u8>,
    pub counter: u32,
    pub algorithm: i32,
    pub device_serial: Option<String>,
    pub attestation_data: Option<Vec<u8>>,
    pub nonce: [u8; 12],
    pub encrypted_dek: Vec<u8>,
    pub tag: [u8; 16],
    pub requires_pin: bool,
    pub requires_uv: bool,
    pub requires_touch: bool,
}

/// Key material of a Touch ID slot.
#[derive(Clone, Debug)]
pub struct TouchIdSlotData {
    pub keychain_ref: Vec<u8>,
    pub nonce: [u8; 12],
    pub encrypted_dek: Vec<u8>,
    pub tag: [u8; 16],
    pub biometric_type: String,
}

/// One unlock slot of a vault.
#[derive(Clone, Debug)]
pub struct UnlockSlot {
    pub slot_id: u8,
    pub slot_type: SlotType,
    pub label: String,
    pub created_at: Timestamp,
    pub password: Option<PasswordSlotData>,
    pub ctap2: Option<Ctap2SlotData>,
    pub touchid: Option<TouchIdSlotData>,
    pub requires_pin: bool,
    pub requires_touch: bool,
    pub pin_attempts_left: Option<u8>,
    pub last_used: Option<Timestamp>,
    pub disabled: bool,
}

/// Whether a slot carries the key material that its type needs.
pub open spec fn has_key_material(slot: UnlockSlot) -> bool {
    match slot.slot_type {
        SlotType::Password => slot.password is Some,
        SlotType::Ctap2 => slot.ctap2 is Some,
        SlotType::TouchId => slot.touchid is Some,
    }
}

/// Whether a slot is a password slot that is not disabled.
pub open spec fn is_enabled_password(slot: UnlockSlot) -> bool {
    slot.slot_type == SlotType::Password && !slot.disabled
}

} // verus!
