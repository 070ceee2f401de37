//! The unlocked session: what an unlock leaves in memory and the rules for
//! changing the slot list, reauthenticating and signing.
//!
//! The state is a plain value that the caller owns and passes in; times are
//! passed in as well, read from the clock by the caller.
use vstd::prelude::*;
use vstd::string::StringSliceAdditionalSpecFns;
use crate::error::KenvError;
use crate::slots::{has_key_material, is_enabled_password, SlotType, Timestamp, UnlockSlot};
use crate::ssh::{SshKey, SshKeyInfo, SshKeyType, SshSignature};
use crate::bytes::wipe_array32;
use crate::vault::VaultPayload;

verus! {

/// Status of the vault as reported to scripts and the desktop app.
#[derive(Clone, Copy, Debug, PartialEq, Eq, Structural)]
pub enum VaultStatus {
    Missing,
    Locked,
    Unlocked,
    Corrupted,
}

/// Script-friendly name of each status.
pub open spec fn script_value(s: VaultStatus) -> Seq<char> {
    match s {
        VaultStatus::Missing => "missing"@,
        VaultStatus::Locked => "locked"@,
        VaultStatus::Unlocked => "unlocked"@,
        VaultStatus::Corrupted => "corrupted"@,
    }
}

impl VaultStatus {
    pub fn as_script_value(&self) -> (s: &'static str)
        ensures
            s@ == script_value(*self),
    {
        match self {
            VaultStatus::Missing => "missing",
            VaultStatus::Locked => "locked",
            VaultStatus::Unlocked => "unlocked",
            VaultStatus::Corrupted => "corrupted",
        }
    }
}

/// In-memory session. A vault is unlocked while `payload` is present.
#[derive(Clone, Debug)]
pub struct VaultState {
    /// Decrypted payload.
    pub payload: Option<VaultPayload>,
    pub unlocked_at: Option<Timestamp>,
    /// Slot that opened this session.
    pub last_unlock_slot_id: Option<u8>,
    /// Data encryption key.
    pub dek: Option<[u8; 32]>,
    /// When the password was last reauthenticated in this session.
    pub reauthenticated_at: Option<Timestamp>,
    /// File salt of the open vault, kept for rewriting the file.
    pub salt: Option<[u8; 32]>,
    /// Path of the open vault, as bytes.
    pub vault_path: Option<Vec<u8>>,
    pub file_version: Option<u8>,
}

/// Whether every field of a session is empty, as after `lock`.
pub open spec fn is_cleared(s: VaultState) -> bool {
    &&& s.payload is None
    &&& s.unlocked_at is None
    &&& s.last_unlock_slot_id is None
    &&& s.dek is None
    &&& s.reauthenticated_at is None
    &&& s.salt is None
    &&& s.vault_path is None
    &&& s.file_version is None
}

/// Two sessions that agree on everything but the payload's slot list.
pub open spec fn same_but_slots(a: VaultState, b: VaultState) -> bool {
    &&& a.payload is Some && b.payload is Some
    &&& a.payload->0.version == b.payload->0.version
    &&& a.payload->0.ssh_keys == b.payload->0.ssh_keys
    &&& a.unlocked_at == b.unlocked_at
    &&& a.last_unlock_slot_id == b.last_unlock_slot_id
    &&& a.dek == b.dek
    &&& a.reauthenticated_at == b.reauthenticated_at
    &&& a.salt == b.salt
    &&& a.vault_path == b.vault_path
    &&& a.file_version == b.file_version
}

impl VaultState {
    /// A locked session.
    pub fn new() -> (s: Self)
        ensures
            is_cleared(s),
    {
        VaultState {
            payload: None,
            unlocked_at: None,
            last_unlock_slot_id: None,
            dek: None,
            reauthenticated_at: None,
            salt: None,
            vault_path: None,
            file_version: None,
        }
    }

    /// Whether the session holds an unlocked vault.
    pub fn is_unlocked(&self) -> (b: bool)
        ensures
            b == self.payload is Some,
    {
        self.payload.is_some()
    }
}

impl Default for VaultState {
    fn default() -> (s: Self)
        ensures
            is_cleared(s),
    {
        VaultState::new()
    }
}

/// Locks the vault: the whole session is dropped, and the payload's secrets
/// and the data encryption key are overwritten with zeros on the way out.
/// Locking is always allowed, also when already locked.
pub fn lock(state: &mut VaultState) -> (res: Result<(), KenvError>)
    ensures
        res is Ok,
        is_cleared(*final(state)),
{
    let mut gone = VaultState::new();
    std::mem::swap(state, &mut gone);
    match &mut gone.payload {
        Some(p) => p.zeroize(),
        None => {},
    }
    match &mut gone.dek {
        Some(d) => wipe_array32(d),
        None => {},
    }
    Ok(())
}

/// The slots' positions, by id: the first slot with `id`.
pub open spec fn slot_position(s: Seq<UnlockSlot>, id: u8) -> Option<int>
    decreases s.len(),
{
    if s.len() == 0 {
        None
    } else if s[0].slot_id == id {
        Some(0)
    } else {
        match slot_position(s.drop_first(), id) {
            Some(i) => Some(i + 1),
            None => None,
        }
    }
}

/// `slot_position` finds the first slot with the id, or there is none.
pub proof fn lemma_slot_position(s: Seq<UnlockSlot>, id: u8)
    ensures
        slot_position(s, id) matches Some(i) ==> 0 <= i < s.len() && s[i].slot_id == id && forall|
            j: int,
        | 0 <= j < i ==> s[j].slot_id != id,
        slot_position(s, id) is None ==> forall|j: int| 0 <= j < s.len() ==> s[j].slot_id != id,
    decreases s.len(),
{
    if s.len() > 0 && s[0].slot_id != id {
        let t = s.drop_first();
        lemma_slot_position(t, id);
        assert forall|j: int| 1 <= j < s.len() implies s[j] == t[j - 1] by {}
        match slot_position(t, id) {
            Some(i) => {
                assert(slot_position(s, id) == Some(i + 1));
                assert forall|j: int| 0 <= j < i + 1 implies s[j].slot_id != id by {
                    if j > 0 {
                        assert(s[j] == t[j - 1]);
                    }
                }
            },
            None => {
                assert(slot_position(s, id) is None);
                assert forall|j: int| 0 <= j < s.len() implies s[j].slot_id != id by {
                    if j > 0 {
                        assert(s[j] == t[j - 1]);
                    }
                }
            },
        }
    }
}

fn find_slot_index(slots: &Vec<UnlockSlot>, id: u8) -> (r: Option<usize>)
    ensures
        match slot_position(slots@, id) {
            Some(i) => r is Some && r->0 as int == i,
            None => r is None,
        },
{
    proof {
        lemma_slot_position(slots@, id);
    }
    let mut i: usize = 0;
    while i < slots.len()
        invariant
            i <= slots@.len(),
            forall|j: int| 0 <= j < i ==> slots@[j].slot_id != id,
        decreases slots@.len() - i,
    {
        if slots.as_slice()[i].slot_id == id {
            proof {
                let ghost k = i as int;
                lemma_slot_position(slots@, id);
                assert(slots@[k].slot_id == id);
                match slot_position(slots@, id) {
                    Some(p) => {
                        if p > k {
                            assert(0 <= k < p);
                            assert(slots@[k].slot_id != id);
                        }
                        if p < k {
                            assert(slots@[p].slot_id == id);
                        }
                        assert(p == k);
                    },
                    None => {
                        assert(slots@[k].slot_id != id);
                    },
                }
            }
            return Some(i);
        }
        i = i + 1;
    }
    proof {
        lemma_slot_position(slots@, id);
        if let Some(p) = slot_position(slots@, id) {
            assert(slots@[p].slot_id != id);
        }
    }
    None
}

/// Number of enabled password slots.
pub open spec fn enabled_password_count(s: Seq<UnlockSlot>) -> nat
    decreases s.len(),
{
    if s.len() == 0 {
        0
    } else {
        enabled_password_count(s.drop_last()) + if is_enabled_password(s.last()) {
            1nat
        } else {
            0nat
        }
    }
}

fn count_enabled_passwords(slots: &Vec<UnlockSlot>) -> (n: usize)
    ensures
        n == enabled_password_count(slots@),
{
    let mut n: usize = 0;
    let mut i: usize = 0;
    assert(slots@.take(0) =~= Seq::<UnlockSlot>::empty());
    while i < slots.len()
        invariant
            i <= slots@.len(),
            n == enabled_password_count(slots@.take(i as int)),
            n <= i,
        decreases slots@.len() - i,
    {
        assert(slots@.take(i + 1).drop_last() =~= slots@.take(i as int));
        let s = &slots.as_slice()[i];
        if s.slot_type == SlotType::Password && !s.disabled {
            n = n + 1;
        }
        i = i + 1;
    }
    assert(slots@.take(slots@.len() as int) =~= slots@);
    n
}

/// Removing the slot at `i` takes one enabled password slot away when that
/// slot is one, and none otherwise.
proof fn lemma_count_after_remove(s: Seq<UnlockSlot>, i: int)
    requires
        0 <= i < s.len(),
    ensures
        enabled_password_count(s.remove(i)) + (if is_enabled_password(s[i]) {
            1nat
        } else {
            0nat
        }) == enabled_password_count(s),
    decreases s.len(),
{
    if i == s.len() - 1 {
        assert(s.remove(i) =~= s.drop_last());
    } else {
        let t = s.drop_last();
        lemma_count_after_remove(t, i);
        assert(s.remove(i).drop_last() =~= t.remove(i));
        assert(s.remove(i).last() == s.last());
        assert(t[i] == s[i]);
    }
}

/// The vault can always be recovered: when the slot list has an enabled
/// password slot, every removal that `remove_slot` allows leaves one.
pub proof fn lemma_removal_keeps_a_password_slot(
    slots: Seq<UnlockSlot>,
    id: u8,
    unlock_slot: Option<u8>,
    reauth: Option<Timestamp>,
    now: Timestamp,
)
    requires
        enabled_password_count(slots) >= 1,
    ensures
        remove_slot_result(slots, id, unlock_slot, reauth, now) matches Ok(rest)
            ==> enabled_password_count(rest) >= 1,
{
    lemma_slot_position(slots, id);
    if let Some(i) = slot_position(slots, id) {
        lemma_count_after_remove(slots, i);
    }
}

/// Whether no two slots share an id.
pub open spec fn ids_unique(s: Seq<UnlockSlot>) -> bool {
    forall|i: int, j: int| 0 <= i < j < s.len() ==> s[i].slot_id != s[j].slot_id
}

/// Slot ids stay distinct: appending a slot whose id is not taken (what
/// `add_slot` and `add_password_slot` do when they succeed) and removing a
/// slot (what `remove_slot` does) keep every id in the list unique.
pub proof fn lemma_slot_ids_stay_unique(slots: Seq<UnlockSlot>, slot: UnlockSlot, i: int)
    requires
        ids_unique(slots),
    ensures
        slot_position(slots, slot.slot_id) is None ==> ids_unique(slots.push(slot)),
        0 <= i < slots.len() ==> ids_unique(slots.remove(i)),
{
    lemma_slot_position(slots, slot.slot_id);
    if slot_position(slots, slot.slot_id) is None {
        let t = slots.push(slot);
        assert forall|a: int, b: int| 0 <= a < b < t.len() implies t[a].slot_id != t[b].slot_id by {
            if b == slots.len() {
                assert(t[a] == slots[a]);
            } else {
                assert(t[a] == slots[a] && t[b] == slots[b]);
            }
        }
    }
    if 0 <= i < slots.len() {
        let t = slots.remove(i);
        assert forall|a: int, b: int| 0 <= a < b < t.len() implies t[a].slot_id != t[b].slot_id by {
            let a0 = if a < i { a } else { a + 1 };
            let b0 = if b < i { b } else { b + 1 };
            assert(t[a] == slots[a0]);
            assert(t[b] == slots[b0]);
        }
    }
}

/// Add a new unlock slot to the unlocked vault.
///
/// Refused with `VaultLocked` when locked, `InvalidSlotData` when the slot
/// lacks the key material its type needs, and `EncryptionError` when its id is
/// taken. Otherwise the slot is appended and nothing else changes.
pub fn add_slot(state: &mut VaultState, slot: UnlockSlot) -> (res: Result<(), KenvError>)
    ensures
        old(state).payload is None ==> res == Err::<(), KenvError>(KenvError::VaultLocked),
        old(state).payload is Some && !has_key_material(slot) ==> res == Err::<(), KenvError>(
            KenvError::InvalidSlotData,
        ),
        old(state).payload is Some && has_key_material(slot) && slot_position(
            old(state).payload->0.slots@,
            slot.slot_id,
        ) is Some ==> res == Err::<(), KenvError>(KenvError::EncryptionError),
        old(state).payload is Some && has_key_material(slot) && slot_position(
            old(state).payload->0.slots@,
            slot.slot_id,
        ) is None ==> res is Ok,
        res is Err ==> *final(state) == *old(state),
        res is Ok ==> old(state).payload is Some && has_key_material(slot) && slot_position(
            old(state).payload->0.slots@,
            slot.slot_id,
        ) is None && same_but_slots(*old(state), *final(state))
            && final(state).payload->0.slots@ == old(state).payload->0.slots@.push(slot),
{
    let mut payload = match state.payload.take() {
        Some(p) => p,
        None => return Err(KenvError::VaultLocked),
    };
    let has_material = match slot.slot_type {
        SlotType::Password => slot.password.is_some(),
        SlotType::Ctap2 => slot.ctap2.is_some(),
        SlotType::TouchId => slot.touchid.is_some(),
    };
    if !has_material {
        state.payload = Some(payload);
        return Err(KenvError::InvalidSlotData);
    }
    if find_slot_index(&payload.slots, slot.slot_id).is_some() {
        state.payload = Some(payload);
        return Err(KenvError::EncryptionError);
    }
    payload.slots.push(slot);
    state.payload = Some(payload);
    Ok(())
}

/// Nanoseconds since the epoch.
pub open spec fn ts_nanos(t: Timestamp) -> int {
    t.secs * 1_000_000_000 + t.nanos
}

/// Length of the reauthentication window: five minutes.
pub open spec fn reauth_window_nanos() -> int {
    300_000_000_000
}

/// Whether a reauthentication at `reauth` still counts at `now`: it lies at
/// most five minutes (exclusive) in the past. A time in the future, as after
/// the clock went back, does not count.
pub open spec fn reauth_valid(reauth: Option<Timestamp>, now: Timestamp) -> bool {
    match reauth {
        Some(t) => ts_nanos(t) <= ts_nanos(now) && ts_nanos(now) - ts_nanos(t)
            < reauth_window_nanos(),
        None => false,
    }
}

fn nanos_of(t: Timestamp) -> (n: u128)
    ensures
        n == ts_nanos(t),
{
    (t.secs as u128) * 1_000_000_000u128 + (t.nanos as u128)
}

/// Whether a recorded reauthentication is still within the five-minute window.
pub fn reauth_window_valid(reauth_time: Option<Timestamp>, now: Timestamp) -> (b: bool)
    ensures
        b == reauth_valid(reauth_time, now),
{
    match reauth_time {
        Some(t) => {
            let then = nanos_of(t);
            let at = nanos_of(now);
            if then > at {
                false
            } else {
                at - then < 300_000_000_000u128
            }
        },
        None => false,
    }
}

/// What removing slot `id` from `slots` gives in a session opened by
/// `unlock_slot` and last reauthenticated at `reauth`: the new slot list, or
/// `EncryptionError` for an unknown id, `LastPasswordSlot` for the only
/// enabled password slot, and `UnlockFailed` (reauthenticate first) for a
/// password slot or the slot that opened the session outside the
/// reauthentication window.
pub open spec fn remove_slot_result(
    slots: Seq<UnlockSlot>,
    id: u8,
    unlock_slot: Option<u8>,
    reauth: Option<Timestamp>,
    now: Timestamp,
) -> Result<Seq<UnlockSlot>, KenvError> {
    match slot_position(slots, id) {
        None => Err(KenvError::EncryptionError),
        Some(i) => {
            let slot = slots[i];
            if is_enabled_password(slot) && enabled_password_count(slots) <= 1 {
                Err(KenvError::LastPasswordSlot)
            } else if (slot.slot_type == SlotType::Password || unlock_slot == Some(id))
                && !reauth_valid(reauth, now) {
                Err(KenvError::UnlockFailed)
            } else {
                Ok(slots.remove(i))
            }
        },
    }
}

/// Remove an unlock slot from the unlocked vault (see [`remove_slot_result`]).
///
/// Removing a password slot, or the slot that opened the session, is a
/// high-risk change: it needs a password reauthentication within the last
/// five minutes. The last enabled password slot is never removed, since the
/// vault could no longer be recovered.
pub fn remove_slot(state: &mut VaultState, slot_id: u8, now: Timestamp) -> (res: Result<
    (),
    KenvError,
>)
    ensures
        old(state).payload is None ==> res == Err::<(), KenvError>(KenvError::VaultLocked),
        old(state).payload is Some ==> match remove_slot_result(
            old(state).payload->0.slots@,
            slot_id,
            old(state).last_unlock_slot_id,
            old(state).reauthenticated_at,
            now,
        ) {
            Err(e) => res == Err::<(), KenvError>(e),
            Ok(s) => res is Ok && same_but_slots(*old(state), *final(state)) && final(state).payload->0.slots@ == s,
        },
        res is Err ==> *final(state) == *old(state),
{
    match take_slot(state, slot_id, now) {
        Ok(_) => Ok(()),
        Err(e) => Err(e),
    }
}

/// [`remove_slot`], giving back the position of the removed slot and the slot.
fn take_slot(state: &mut VaultState, slot_id: u8, now: Timestamp) -> (res: Result<
    (usize, UnlockSlot),
    KenvError,
>)
    ensures
        old(state).payload is None ==> res == Err::<(usize, UnlockSlot), KenvError>(
            KenvError::VaultLocked,
        ),
        old(state).payload is Some ==> match remove_slot_result(
            old(state).payload->0.slots@,
            slot_id,
            old(state).last_unlock_slot_id,
            old(state).reauthenticated_at,
            now,
        ) {
            Err(e) => res == Err::<(usize, UnlockSlot), KenvError>(e),
            Ok(s) => res matches Ok((i, slot)) && slot_position(old(state).payload->0.slots@, slot_id)
                == Some(i as int) && slot == old(state).payload->0.slots@[i as int]
                && same_but_slots(*old(state), *final(state)) && final(state).payload->0.slots@
                == s,
        },
        res is Err ==> *final(state) == *old(state),
{
    let reauthenticated = reauth_window_valid(state.reauthenticated_at, now);
    let mut payload = match state.payload.take() {
        Some(p) => p,
        None => return Err(KenvError::VaultLocked),
    };
    proof {
        lemma_slot_position(payload.slots@, slot_id);
    }
    let idx = match find_slot_index(&payload.slots, slot_id) {
        Some(i) => i,
        None => {
            state.payload = Some(payload);
            return Err(KenvError::EncryptionError);
        },
    };
    let target = &payload.slots.as_slice()[idx];
    let is_password_slot = target.slot_type == SlotType::Password;
    let is_enabled_password_slot = is_password_slot && !target.disabled;
    if is_enabled_password_slot {
        let enabled_password_count = count_enabled_passwords(&payload.slots);
        if enabled_password_count <= 1 {
            state.payload = Some(payload);
            return Err(KenvError::LastPasswordSlot);
        }
    }
    let is_unlock_slot = match state.last_unlock_slot_id {
        Some(id) => id == slot_id,
        None => false,
    };
    if (is_password_slot || is_unlock_slot) && !reauthenticated {
        state.payload = Some(payload);
        return Err(KenvError::UnlockFailed);
    }
    let removed = payload.slots.remove(idx);
    state.payload = Some(payload);
    Ok((idx, removed))
}

/// Non-secret facts about an unlock slot, for listing.
#[derive(Clone, Debug)]
pub struct SlotInfo {
    pub slot_id: u8,
    pub slot_type: SlotType,
    pub label: String,
    pub created_at: Timestamp,
    pub last_used: Option<Timestamp>,
    pub disabled: bool,
}

/// Whether `info` describes `slot`.
pub open spec fn describes_slot(info: SlotInfo, slot: UnlockSlot) -> bool {
    &&& info.slot_id == slot.slot_id
    &&& info.slot_type == slot.slot_type
    &&& info.label@ == slot.label@
    &&& info.created_at == slot.created_at
    &&& info.last_used == slot.last_used
    &&& info.disabled == slot.disabled
}

/// The unlock slots of the unlocked vault, in order, without key material.
pub fn list_slots(state: &VaultState) -> (res: Result<Vec<SlotInfo>, KenvError>)
    ensures
        state.payload is None ==> res == Err::<Vec<SlotInfo>, KenvError>(KenvError::VaultLocked),
        state.payload is Some ==> (res matches Ok(v) && v@.len() == state.payload->0.slots@.len()
            && forall|i: int|
            0 <= i < v@.len() ==> describes_slot(#[trigger] v@[i], state.payload->0.slots@[i])),
{
    let payload = match &state.payload {
        Some(p) => p,
        None => return Err(KenvError::VaultLocked),
    };
    let mut out: Vec<SlotInfo> = Vec::new();
    let mut i: usize = 0;
    while i < payload.slots.len()
        invariant
            i <= payload.slots@.len(),
            out@.len() == i,
            forall|j: int| 0 <= j < i ==> describes_slot(#[trigger] out@[j], payload.slots@[j]),
        decreases payload.slots@.len() - i,
    {
        let s = &payload.slots.as_slice()[i];
        out.push(
            SlotInfo {
                slot_id: s.slot_id,
                slot_type: s.slot_type,
                label: s.label.clone(),
                created_at: s.created_at,
                last_used: s.last_used,
                disabled: s.disabled,
            },
        );
        i = i + 1;
    }
    Ok(out)
}

/// Rename an unlock slot of the unlocked vault: the first slot with the id
/// gets `new_label`; `EncryptionError` when no slot has the id.
pub fn rename_slot(state: &mut VaultState, slot_id: u8, new_label: String) -> (res: Result<
    (),
    KenvError,
>)
    ensures
        old(state).payload is None ==> res == Err::<(), KenvError>(KenvError::VaultLocked),
        old(state).payload is Some ==> match slot_position(old(state).payload->0.slots@, slot_id) {
            None => res == Err::<(), KenvError>(KenvError::EncryptionError),
            Some(i) => res is Ok && same_but_slots(*old(state), *final(state)) && final(state).payload->0.slots@ == old(state).payload->0.slots@.update(
                i,
                UnlockSlot { label: new_label, ..old(state).payload->0.slots@[i] },
            ),
        },
        res is Err ==> *final(state) == *old(state),
{
    match swap_label(state, slot_id, new_label) {
        Ok(_) => Ok(()),
        Err(e) => Err(e),
    }
}

/// [`rename_slot`], giving back the label the slot had.
fn swap_label(state: &mut VaultState, slot_id: u8, new_label: String) -> (res: Result<
    String,
    KenvError,
>)
    ensures
        old(state).payload is None ==> res == Err::<String, KenvError>(KenvError::VaultLocked),
        old(state).payload is Some ==> match slot_position(old(state).payload->0.slots@, slot_id) {
            None => res == Err::<String, KenvError>(KenvError::EncryptionError),
            Some(i) => res matches Ok(label) && label == old(state).payload->0.slots@[i].label
                && same_but_slots(*old(state), *final(state)) && final(state).payload->0.slots@
                == old(state).payload->0.slots@.update(
                i,
                UnlockSlot { label: new_label, ..old(state).payload->0.slots@[i] },
            ),
        },
        res is Err ==> *final(state) == *old(state),
{
    let mut payload = match state.payload.take() {
        Some(p) => p,
        None => return Err(KenvError::VaultLocked),
    };
    proof {
        lemma_slot_position(payload.slots@, slot_id);
    }
    let idx = match find_slot_index(&payload.slots, slot_id) {
        Some(i) => i,
        None => {
            state.payload = Some(payload);
            return Err(KenvError::EncryptionError);
        },
    };
    let ghost before = payload.slots@;
    let ghost expected = UnlockSlot { label: new_label, ..before[idx as int] };
    let mut slot = payload.slots.remove(idx);
    let mut label = new_label;
    std::mem::swap(&mut slot.label, &mut label);
    assert(slot == expected);
    payload.slots.insert(idx, slot);
    assert(payload.slots@ =~= before.update(idx as int, expected));
    state.payload = Some(payload);
    Ok(label)
}

/// Whether `info` describes `key`.
pub open spec fn describes_key(info: SshKeyInfo, key: SshKey) -> bool {
    &&& info.key_id@ == key.key_id@
    &&& info.name@ == key.name@
    &&& info.key_type == key.key_type
    &&& info.created_at == key.created_at
    &&& info.last_used == key.last_used
    &&& info.disabled == key.disabled
    &&& info.require_reauthentication == key.require_reauthentication
}

/// The SSH keys of the unlocked vault, in order, without key material.
pub fn list_ssh_keys(state: &VaultState) -> (res: Result<Vec<SshKeyInfo>, KenvError>)
    ensures
        state.payload is None ==> res == Err::<Vec<SshKeyInfo>, KenvError>(KenvError::VaultLocked),
        state.payload is Some ==> (res matches Ok(v) && v@.len() == state.payload->0.ssh_keys@.len()
            && forall|i: int|
            0 <= i < v@.len() ==> describes_key(#[trigger] v@[i], state.payload->0.ssh_keys@[i])),
{
    let payload = match &state.payload {
        Some(p) => p,
        None => return Err(KenvError::VaultLocked),
    };
    let mut out: Vec<SshKeyInfo> = Vec::new();
    let mut i: usize = 0;
    while i < payload.ssh_keys.len()
        invariant
            i <= payload.ssh_keys@.len(),
            out@.len() == i,
            forall|j: int| 0 <= j < i ==> describes_key(#[trigger] out@[j], payload.ssh_keys@[j]),
        decreases payload.ssh_keys@.len() - i,
    {
        let k = &payload.ssh_keys.as_slice()[i];
        out.push(
            SshKeyInfo {
                key_id: k.key_id.clone(),
                name: k.name.clone(),
                key_type: k.key_type,
                created_at: k.created_at,
                last_used: k.last_used,
                disabled: k.disabled,
                require_reauthentication: k.require_reauthentication,
            },
        );
        i = i + 1;
    }
    Ok(out)
}

} // verus!

verus! {

/// Position of the first key with this id that is not disabled.
pub open spec fn usable_key_position(keys: Seq<SshKey>, key_id: Seq<char>) -> Option<int>
    decreases keys.len(),
{
    if keys.len() == 0 {
        None
    } else if keys[0].key_id@ == key_id && !keys[0].disabled {
        Some(0)
    } else {
        match usable_key_position(keys.drop_first(), key_id) {
            Some(i) => Some(i + 1),
            None => None,
        }
    }
}

proof fn lemma_usable_key_position(keys: Seq<SshKey>, key_id: Seq<char>)
    ensures
        usable_key_position(keys, key_id) matches Some(i) ==> 0 <= i < keys.len()
            && keys[i].key_id@ == key_id && !keys[i].disabled && forall|j: int|
            0 <= j < i ==> !(keys[j].key_id@ == key_id && !keys[j].disabled),
        usable_key_position(keys, key_id) is None ==> forall|j: int|
            0 <= j < keys.len() ==> !(keys[j].key_id@ == key_id && !keys[j].disabled),
    decreases keys.len(),
{
    if keys.len() > 0 && !(keys[0].key_id@ == key_id && !keys[0].disabled) {
        let t = keys.drop_first();
        lemma_usable_key_position(t, key_id);
        assert forall|j: int| 1 <= j < keys.len() implies keys[j] == t[j - 1] by {}
    }
}

fn find_usable_key(keys: &Vec<SshKey>, key_id: &str) -> (r: Option<usize>)
    ensures
        match usable_key_position(keys@, key_id@) {
            Some(i) => r is Some && r->0 as int == i,
            None => r is None,
        },
{
    let mut i: usize = 0;
    while i < keys.len()
        invariant
            i <= keys@.len(),
            forall|j: int|
                0 <= j < i ==> !(keys@[j].key_id@ == key_id@ && !keys@[j].disabled),
        decreases keys@.len() - i,
    {
        let k = &keys.as_slice()[i];
        if crate::text::str_eq(k.key_id.as_str(), key_id) && !k.disabled {
            proof {
                lemma_usable_key_position(keys@, key_id@);
                let ghost q = i as int;
                if let Some(p) = usable_key_position(keys@, key_id@) {
                    if p > q {
                        assert(0 <= q < p);
                    }
                    if p < q {
                        assert(keys@[p].key_id@ == key_id@ && !keys@[p].disabled);
                    }
                }
            }
            return Some(i);
        }
        i = i + 1;
    }
    proof {
        lemma_usable_key_position(keys@, key_id@);
        if let Some(p) = usable_key_position(keys@, key_id@) {
            assert(keys@[p].key_id@ == key_id@ && !keys@[p].disabled);
        }
    }
    None
}

/// Sign `data_to_sign` with the vault key `key_id`.
///
/// Refused with `VaultLocked` when locked, `SshKeyUnavailable` when no
/// enabled key has that id, and `UnlockFailed` (reauthenticate first) when the
/// key needs a reauthentication that is not within the window. A request that
/// passes these checks is answered by the signer, which has no scheme yet and
/// returns `SshSigningNotImplemented`.
pub fn sign_ssh_key(state: &VaultState, key_id: &str, data_to_sign: &[u8], now: Timestamp) -> (res:
    Result<SshSignature, KenvError>)
    ensures
        state.payload is None ==> res == Err::<SshSignature, KenvError>(KenvError::VaultLocked),
        state.payload is Some ==> match usable_key_position(state.payload->0.ssh_keys@, key_id@) {
            None => res == Err::<SshSignature, KenvError>(KenvError::SshKeyUnavailable),
            Some(i) => if state.payload->0.ssh_keys@[i].require_reauthentication && !reauth_valid(
                state.reauthenticated_at,
                now,
            ) {
                res == Err::<SshSignature, KenvError>(KenvError::UnlockFailed)
            } else {
                res == Err::<SshSignature, KenvError>(KenvError::SshSigningNotImplemented)
            },
        },
{
    let payload = match &state.payload {
        Some(p) => p,
        None => return Err(KenvError::VaultLocked),
    };
    proof {
        lemma_usable_key_position(payload.ssh_keys@, key_id@);
    }
    match find_usable_key(&payload.ssh_keys, key_id) {
        Some(i) => {
            let key = &payload.ssh_keys.as_slice()[i];
            if key.require_reauthentication && !reauth_window_valid(state.reauthenticated_at, now) {
                return Err(KenvError::UnlockFailed);
            }
            crate::ssh::sign_ssh_key(key_id, data_to_sign)
        },
        None => Err(KenvError::SshKeyUnavailable),
    }
}

/// Puts an SSH key into the unlocked vault's payload; does nothing when locked.
pub fn test_insert_ssh_key(state: &mut VaultState, key: SshKey)
    ensures
        old(state).payload is None ==> *final(state) == *old(state),
        old(state).payload is Some ==> final(state).payload is Some && final(state).payload->0.ssh_keys@
            == old(state).payload->0.ssh_keys@.push(key) && final(state).payload->0.slots
            == old(state).payload->0.slots && final(state).payload->0.version == old(
            state,
        ).payload->0.version,
{
    match state.payload.take() {
        Some(mut p) => {
            p.ssh_keys.push(key);
            state.payload = Some(p);
        },
        None => {},
    }
}

/// Asks `status_provider` for the vault status, for callers that supply
/// their own source of truth.
pub fn get_vault_status_with<F>(status_provider: F) -> (res: Result<VaultStatus, KenvError>) where
    F: FnOnce() -> Result<VaultStatus, KenvError>,

    requires
        call_requires(status_provider, ()),
    ensures
        call_ensures(status_provider, (), res),
{
    status_provider()
}

/// Status of a vault file: `Missing` without contents, `Unlocked` while the
/// session holds the vault, else `Locked` for a header that checks and
/// `Corrupted` for one that does not. The ciphertext is not checked here; a
/// damaged one shows at unlock.
pub open spec fn vault_status_spec(unlocked: bool, contents: Option<Seq<u8>>) -> VaultStatus {
    match contents {
        None => VaultStatus::Missing,
        Some(d) => if unlocked {
            VaultStatus::Unlocked
        } else {
            match crate::vault::header_check(d) {
                Ok(_) => VaultStatus::Locked,
                Err(_) => VaultStatus::Corrupted,
            }
        },
    }
}

/// A locked session reports `Locked` only for a file that starts with `KENV`
/// and passes the header check, and `Corrupted` for every other file; no
/// file is `Missing`, and with the vault unlocked any file is `Unlocked`.
pub proof fn lemma_status_of_file(unlocked: bool, d: Seq<u8>)
    ensures
        vault_status_spec(false, Some(d)) == VaultStatus::Locked ==> d.len() >= 91 && d[0]
            == 0x4Bu8 && d[1] == 0x45u8 && d[2] == 0x4Eu8 && d[3] == 0x56u8,
        vault_status_spec(false, Some(d)) == VaultStatus::Locked || vault_status_spec(
            false,
            Some(d),
        ) == VaultStatus::Corrupted,
        (vault_status_spec(false, Some(d)) == VaultStatus::Locked) == (crate::vault::header_check(
            d,
        ) is Ok),
        vault_status_spec(unlocked, None) == VaultStatus::Missing,
        vault_status_spec(true, Some(d)) == VaultStatus::Unlocked,
{
    crate::vault::lemma_header_check_accepts(d);
}

/// The status of the vault whose file holds `contents` (`None` when there is
/// no file), given the session `state`.
pub fn vault_status_from(state: &VaultState, contents: Option<&[u8]>) -> (s: VaultStatus)
    ensures
        s == vault_status_spec(
            state.payload is Some,
            match contents {
                Some(d) => Some(d@),
                None => None,
            },
        ),
{
    match contents {
        None => VaultStatus::Missing,
        Some(data) => {
            if state.payload.is_some() {
                VaultStatus::Unlocked
            } else {
                match crate::vault::validate_vault_header(data) {
                    Ok(_version) => VaultStatus::Locked,
                    Err(_) => VaultStatus::Corrupted,
                }
            }
        },
    }
}

} // verus!

verus! {

/// Position of the first slot that satisfies `f`.
pub open spec fn first_slot_where(s: Seq<UnlockSlot>, f: spec_fn(UnlockSlot) -> bool) -> Option<int>
    decreases s.len(),
{
    if s.len() == 0 {
        None
    } else if f(s[0]) {
        Some(0)
    } else {
        match first_slot_where(s.drop_first(), f) {
            Some(i) => Some(i + 1),
            None => None,
        }
    }
}

pub proof fn lemma_first_slot_where(s: Seq<UnlockSlot>, f: spec_fn(UnlockSlot) -> bool)
    ensures
        first_slot_where(s, f) matches Some(i) ==> 0 <= i < s.len() && f(s[i]) && forall|j: int|
            0 <= j < i ==> !f(#[trigger] s[j]),
        first_slot_where(s, f) is None ==> forall|j: int| 0 <= j < s.len() ==> !f(#[trigger] s[j]),
    decreases s.len(),
{
    if s.len() > 0 && !f(s[0]) {
        let t = s.drop_first();
        lemma_first_slot_where(t, f);
        assert forall|j: int| 1 <= j < s.len() implies s[j] == t[j - 1] by {}
    }
}

/// Predicate of enabled password slots.
pub open spec fn enabled_password_pred() -> spec_fn(UnlockSlot) -> bool {
    |s: UnlockSlot| is_enabled_password(s)
}

/// Predicate of the enabled password slot with a given id.
pub open spec fn enabled_password_with_id_pred(id: u8) -> spec_fn(UnlockSlot) -> bool {
    |s: UnlockSlot| s.slot_id == id && is_enabled_password(s)
}

fn find_enabled_password(slots: &Vec<UnlockSlot>, id: Option<u8>) -> (r: Option<usize>)
    ensures
        ({
            let f = match id {
                Some(x) => enabled_password_with_id_pred(x),
                None => enabled_password_pred(),
            };
            match first_slot_where(slots@, f) {
                Some(i) => r is Some && r->0 as int == i,
                None => r is None,
            }
        }),
{
    let ghost f = match id {
        Some(x) => enabled_password_with_id_pred(x),
        None => enabled_password_pred(),
    };
    let mut i: usize = 0;
    while i < slots.len()
        invariant
            i <= slots@.len(),
            f == (match id {
                Some(x) => enabled_password_with_id_pred(x),
                None => enabled_password_pred(),
            }),
            forall|j: int| 0 <= j < i ==> !f(#[trigger] slots@[j]),
        decreases slots@.len() - i,
    {
        let s = &slots.as_slice()[i];
        let id_matches = match id {
            Some(x) => s.slot_id == x,
            None => true,
        };
        if id_matches && s.slot_type == SlotType::Password && !s.disabled {
            proof {
                lemma_first_slot_where(slots@, f);
                let ghost q = i as int;
                assert(f(slots@[q]));
                if let Some(p) = first_slot_where(slots@, f) {
                    if p > q {
                        assert(0 <= q < p);
                    }
                    if p < q {
                        assert(f(slots@[p]));
                    }
                }
            }
            return Some(i);
        }
        assert(!f(slots@[i as int]));
        i = i + 1;
    }
    proof {
        lemma_first_slot_where(slots@, f);
        if let Some(p) = first_slot_where(slots@, f) {
            assert(f(slots@[p]));
        }
    }
    None
}

/// The slot that a reauthentication checks the password against: the
/// enabled password slot that opened the session, else the first enabled
/// password slot.
pub open spec fn reauth_slot_position(slots: Seq<UnlockSlot>, unlock_slot: Option<u8>) -> Option<int> {
    match unlock_slot {
        Some(id) => match first_slot_where(slots, enabled_password_with_id_pred(id)) {
            Some(i) => Some(i),
            None => first_slot_where(slots, enabled_password_pred()),
        },
        None => first_slot_where(slots, enabled_password_pred()),
    }
}

/// Outcome of reauthenticating `password` in session `s` at vault path `path`.
///
/// `VaultLocked` unless the session holds the vault at that path;
/// `EncryptionError` without a usable password slot or for costs argon2
/// refuses; `UnlockFailed` when the password does not open the slot or the
/// key it opens is not the session's key.
pub open spec fn reauth_result(s: VaultState, password: Seq<char>, path: Seq<u8>) -> Result<
    (),
    KenvError,
> {
    if s.payload is None || !(s.vault_path matches Some(p) && p@ == path) {
        Err(KenvError::VaultLocked)
    } else {
        let slots = s.payload->0.slots@;
        match reauth_slot_position(slots, s.last_unlock_slot_id) {
            None => Err(KenvError::EncryptionError),
            Some(i) => match slots[i].password {
                None => Err(KenvError::EncryptionError),
                Some(pw) => if !crate::crypto::kdf_accepts(
                    vstd::utf8::encode_utf8(password),
                    pw.kdf_m_cost,
                    pw.kdf_t_cost,
                    pw.kdf_p_cost,
                ) {
                    Err(KenvError::EncryptionError)
                } else {
                    match crate::crypto::aes256gcm_open(
                        crate::slots::password::password_wrapping_key(password, pw@),
                        pw.nonce@,
                        pw.encrypted_dek@ + pw.tag@,
                    ) {
                        None => Err(KenvError::UnlockFailed),
                        Some(d) => if s.dek matches Some(k) && k@ == d {
                            Ok(())
                        } else {
                            Err(KenvError::UnlockFailed)
                        },
                    }
                },
            },
        }
    }
}

/// Reauthenticate with the password before a high-risk change.
///
/// The password is checked against the session's password slot (see
/// [`reauth_result`]); on success the reauthentication time becomes `now`,
/// which opens the five-minute window.
pub fn reauth_password(
    state: &mut VaultState,
    password: &str,
    current_path: &[u8],
    now: Timestamp,
) -> (res: Result<(), KenvError>)
    ensures
        res == reauth_result(*old(state), password@, current_path@),
        res is Ok ==> *final(state) == (VaultState { reauthenticated_at: Some(now), ..*old(state) }),
        res is Err ==> *final(state) == *old(state),
{
    let same_path = match &state.vault_path {
        Some(p) => crate::bytes::bytes_eq(p.as_slice(), current_path),
        None => false,
    };
    let payload = match &state.payload {
        Some(p) => p,
        None => return Err(KenvError::VaultLocked),
    };
    if !same_path {
        return Err(KenvError::VaultLocked);
    }
    proof {
        lemma_first_slot_where(payload.slots@, enabled_password_pred());
        if let Some(id) = state.last_unlock_slot_id {
            lemma_first_slot_where(payload.slots@, enabled_password_with_id_pred(id));
        }
    }
    let found = match state.last_unlock_slot_id {
        Some(id) => match find_enabled_password(&payload.slots, Some(id)) {
            Some(i) => Some(i),
            None => find_enabled_password(&payload.slots, None),
        },
        None => find_enabled_password(&payload.slots, None),
    };
    let slot = match found {
        Some(i) => &payload.slots.as_slice()[i],
        None => return Err(KenvError::EncryptionError),
    };
    let pwd_data = match &slot.password {
        Some(d) => d,
        None => return Err(KenvError::EncryptionError),
    };
    let params = crate::crypto::KdfParams {
        m_cost: pwd_data.kdf_m_cost,
        t_cost: pwd_data.kdf_t_cost,
        p_cost: pwd_data.kdf_p_cost,
    };
    if params.m_cost >= 8 && params.p_cost > 0x1FFF_FFFF {
        return Err(KenvError::EncryptionError);
    }
    proof {
        assert(password.spec_bytes() == vstd::utf8::encode_utf8(password@));
    }
    let key = match crate::crypto::derive_key(password, &pwd_data.salt, &params) {
        Ok(k) => k,
        Err(_) => return Err(KenvError::EncryptionError),
    };
    let ciphertext = crate::slots::password::join_tag(&pwd_data.encrypted_dek, &pwd_data.tag);
    let plaintext = match crate::crypto::decrypt(&key, &pwd_data.nonce, ciphertext.as_slice()) {
        Ok(p) => p,
        Err(_) => return Err(KenvError::UnlockFailed),
    };
    let matches_session = match &state.dek {
        Some(d) => crate::bytes::bytes_eq(plaintext.as_slice(), d.as_slice()),
        None => false,
    };
    if !matches_session {
        return Err(KenvError::UnlockFailed);
    }
    state.reauthenticated_at = Some(now);
    Ok(())
}

} // verus!

verus! {

/// Whether `slot` is a fresh password slot with id `id`, label `label` and
/// creation time `now`, whose password `password` unwraps `key`, with costs `params`.
pub open spec fn is_new_password_slot(
    slot: UnlockSlot,
    password: Seq<char>,
    key: Seq<u8>,
    id: u8,
    label: Seq<char>,
    params: crate::crypto::KdfParams,
    now: Timestamp,
) -> bool {
    &&& slot.slot_id == id
    &&& slot.slot_type == SlotType::Password
    &&& slot.label@ == label
    &&& slot.created_at == now
    &&& slot.ctap2 is None && slot.touchid is None
    &&& !slot.requires_pin && !slot.requires_touch && slot.pin_attempts_left is None
    &&& slot.last_used is None && !slot.disabled
    &&& slot.password matches Some(p) && p.kdf_m_cost == params.m_cost && p.kdf_t_cost
        == params.t_cost && p.kdf_p_cost == params.p_cost && p.encrypted_dek@.len() == 32
        && crate::slots::password::password_unwrap_result(password, p@) == Ok::<
        Seq<u8>,
        KenvError,
    >(key)
}

/// Creates a password unlock slot that wraps `key` under `password`.
///
/// `WeakPassword` for a blank password, `EncryptionError` for costs that
/// argon2 refuses; otherwise the slot unlocks with `password` to `key`.
pub fn create_password_slot(
    password: &str,
    key: &[u8; 32],
    slot_id: u8,
    label: String,
    params: &crate::crypto::KdfParams,
    now: Timestamp,
) -> (res: Result<UnlockSlot, KenvError>)
    ensures
        crate::text::is_blank(password@) ==> res == Err::<UnlockSlot, KenvError>(
            KenvError::WeakPassword,
        ),
        !crate::text::is_blank(password@) && !crate::crypto::kdf_accepts(
            vstd::utf8::encode_utf8(password@),
            params.m_cost,
            params.t_cost,
            params.p_cost,
        ) ==> res == Err::<UnlockSlot, KenvError>(KenvError::EncryptionError),
        !crate::text::is_blank(password@) && crate::crypto::kdf_accepts(
            vstd::utf8::encode_utf8(password@),
            params.m_cost,
            params.t_cost,
            params.p_cost,
        ) ==> (res matches Ok(slot) && is_new_password_slot(
            slot,
            password@,
            key@,
            slot_id,
            label@,
            *params,
            now,
        )),
{
    let password_data = crate::slots::password::wrap_dek(password, key, params)?;
    Ok(
        UnlockSlot {
            slot_id,
            slot_type: SlotType::Password,
            label,
            created_at: now,
            password: Some(password_data),
            ctap2: None,
            touchid: None,
            requires_pin: false,
            requires_touch: false,
            pin_attempts_left: None,
            last_used: None,
            disabled: false,
        },
    )
}

/// Largest slot id in use, or 0 for no slots.
pub open spec fn max_slot_id(s: Seq<UnlockSlot>) -> nat
    decreases s.len(),
{
    if s.len() == 0 {
        0
    } else {
        let m = max_slot_id(s.drop_last());
        if s.last().slot_id > m {
            s.last().slot_id as nat
        } else {
            m
        }
    }
}

/// Id of the next slot added: one above the largest in use, capped at 255.
pub open spec fn next_slot_id(s: Seq<UnlockSlot>) -> u8 {
    if max_slot_id(s) + 1 > 255 {
        255
    } else {
        (max_slot_id(s) + 1) as u8
    }
}

/// The largest id is at least every id in the list, and is one of them when
/// the list is not empty.
proof fn lemma_max_slot_id(s: Seq<UnlockSlot>)
    ensures
        forall|i: int| 0 <= i < s.len() ==> s[i].slot_id <= max_slot_id(s),
        s.len() > 0 ==> exists|i: int| 0 <= i < s.len() && s[i].slot_id == max_slot_id(s),
        s.len() == 0 ==> max_slot_id(s) == 0,
    decreases s.len(),
{
    if s.len() > 0 {
        let t = s.drop_last();
        lemma_max_slot_id(t);
        assert forall|i: int| 0 <= i < s.len() implies s[i].slot_id <= max_slot_id(s) by {
            if i < t.len() {
                assert(s[i] == t[i]);
            }
        }
        if s.last().slot_id > max_slot_id(t) {
            assert(s[s.len() - 1].slot_id == max_slot_id(s));
        } else if t.len() > 0 {
            let j = choose|j: int| 0 <= j < t.len() && t[j].slot_id == max_slot_id(t);
            assert(s[j] == t[j]);
        } else {
            assert(s[0].slot_id == 0);
        }
    }
}

/// A new slot's id is fresh: while every id in use is below 255, the id that
/// a new password slot gets is above all of them, so no slot has it, and it
/// is exactly one above the largest (1 for an empty list).
pub proof fn lemma_next_slot_id_is_fresh(s: Seq<UnlockSlot>)
    requires
        forall|i: int| 0 <= i < s.len() ==> s[i].slot_id < 255,
    ensures
        forall|i: int| 0 <= i < s.len() ==> s[i].slot_id < next_slot_id(s),
        slot_position(s, next_slot_id(s)) is None,
        s.len() == 0 ==> next_slot_id(s) == 1,
        s.len() > 0 ==> exists|i: int| 0 <= i < s.len() && s[i].slot_id + 1 == next_slot_id(s),
{
    lemma_max_slot_id(s);
    lemma_slot_position(s, next_slot_id(s));
    if s.len() > 0 {
        let j = choose|j: int| 0 <= j < s.len() && s[j].slot_id == max_slot_id(s);
        assert(s[j].slot_id < 255);
    }
}

fn compute_next_slot_id(slots: &Vec<UnlockSlot>) -> (id: u8)
    ensures
        id == next_slot_id(slots@),
{
    let mut max_id: u16 = 0;
    let mut i: usize = 0;
    assert(slots@.take(0) =~= Seq::<UnlockSlot>::empty());
    while i < slots.len()
        invariant
            i <= slots@.len(),
            max_id == max_slot_id(slots@.take(i as int)),
            max_id <= 255,
        decreases slots@.len() - i,
    {
        assert(slots@.take(i + 1).drop_last() =~= slots@.take(i as int));
        let id = slots.as_slice()[i].slot_id as u16;
        if id > max_id {
            max_id = id;
        }
        i = i + 1;
    }
    assert(slots@.take(slots@.len() as int) =~= slots@);
    if max_id + 1 > 255 {
        255
    } else {
        (max_id + 1) as u8
    }
}

/// Add a password slot that wraps the session's data encryption key under
/// `password`, with the next free id (see [`next_slot_id`]) and the label
/// `password`.
///
/// `WeakPassword` for a blank password, `VaultLocked` when locked,
/// `EncryptionError` for costs argon2 refuses or when that id is already
/// taken. On success the new password opens the vault.
pub fn add_password_slot(
    state: &mut VaultState,
    password: &str,
    params: &crate::crypto::KdfParams,
    now: Timestamp,
) -> (res: Result<(), KenvError>)
    ensures
        crate::text::is_blank(password@) ==> res == Err::<(), KenvError>(KenvError::WeakPassword),
        !crate::text::is_blank(password@) && (old(state).dek is None || old(state).payload is None)
            ==> res == Err::<(), KenvError>(KenvError::VaultLocked),
        !crate::text::is_blank(password@) && old(state).dek is Some && old(state).payload is Some
            && !crate::crypto::kdf_accepts(
            vstd::utf8::encode_utf8(password@),
            params.m_cost,
            params.t_cost,
            params.p_cost,
        ) ==> res == Err::<(), KenvError>(KenvError::EncryptionError),
        !crate::text::is_blank(password@) && old(state).dek is Some && old(state).payload is Some
            && crate::crypto::kdf_accepts(
            vstd::utf8::encode_utf8(password@),
            params.m_cost,
            params.t_cost,
            params.p_cost,
        ) ==> ({
            let slots = old(state).payload->0.slots@;
            let id = next_slot_id(slots);
            if slot_position(slots, id) is Some {
                res == Err::<(), KenvError>(KenvError::EncryptionError)
            } else {
                res is Ok && same_but_slots(*old(state), *final(state))
                    && final(state).payload->0.slots@.len() == slots.len() + 1
                    && final(state).payload->0.slots@.drop_last() == slots
                    && is_new_password_slot(
                    final(state).payload->0.slots@.last(),
                    password@,
                    old(state).dek->0@,
                    id,
                    "password"@,
                    *params,
                    now,
                )
            }
        }),
        !crate::text::is_blank(password@) && old(state).dek is Some && old(state).payload is Some
            && crate::crypto::kdf_accepts(
            vstd::utf8::encode_utf8(password@),
            params.m_cost,
            params.t_cost,
            params.p_cost,
        ) && (forall|i: int| 0 <= i < old(state).payload->0.slots@.len()
            ==> (#[trigger] old(state).payload->0.slots@[i]).slot_id < 255) ==> res is Ok
            && (forall|i: int| 0 <= i < old(state).payload->0.slots@.len()
            ==> (#[trigger] old(state).payload->0.slots@[i]).slot_id
            < final(state).payload->0.slots@.last().slot_id),
        res is Err ==> *final(state) == *old(state),
{
    proof {
        if old(state).payload is Some && forall|i: int|
            0 <= i < old(state).payload->0.slots@.len() ==> (
            #[trigger] old(state).payload->0.slots@[i]).slot_id < 255 {
            lemma_next_slot_id_is_fresh(old(state).payload->0.slots@);
        }
    }
    if crate::text::str_is_blank(password) {
        return Err(KenvError::WeakPassword);
    }
    let dek = match state.dek {
        Some(d) => d,
        None => return Err(KenvError::VaultLocked),
    };
    let new_id = match &state.payload {
        Some(p) => compute_next_slot_id(&p.slots),
        None => return Err(KenvError::VaultLocked),
    };
    proof {
        reveal_strlit("password");
    }
    let slot = create_password_slot(
        password,
        &dek,
        new_id,
        String::from_str("password"),
        params,
        now,
    )?;
    let ghost before = state.payload->0.slots@;
    let ghost new_slot = slot;
    let r = add_slot(state, slot);
    proof {
        if r is Ok {
            assert(state.payload->0.slots@ == before.push(new_slot));
            assert(state.payload->0.slots@.drop_last() =~= before);
            assert(state.payload->0.slots@.last() == new_slot);
            assert(same_but_slots(*old(state), *state));
            assert(is_new_password_slot(new_slot, password@, dek@, new_id, "password"@, *params, now));
        }
        assert(has_key_material(new_slot));
    }
    r
}

/// A change to the slot list of an unlocked vault.
pub enum SlotChange {
    /// Append a slot (see [`add_slot`]).
    Add(UnlockSlot),
    /// Remove the slot with this id (see [`remove_slot`]).
    Remove(u8),
    /// Give the slot with this id a new label (see [`rename_slot`]).
    Rename(u8, String),
}

/// What `change` makes of the slot list of session `s` at time `now`: the new
/// list, or the error that refuses the change.
pub open spec fn change_result(s: VaultState, change: SlotChange, now: Timestamp) -> Result<
    Seq<UnlockSlot>,
    KenvError,
> {
    match s.payload {
        None => Err(KenvError::VaultLocked),
        Some(p) => match change {
            SlotChange::Add(slot) => if !has_key_material(slot) {
                Err(KenvError::InvalidSlotData)
            } else if slot_position(p.slots@, slot.slot_id) is Some {
                Err(KenvError::EncryptionError)
            } else {
                Ok(p.slots@.push(slot))
            },
            SlotChange::Remove(id) => remove_slot_result(
                p.slots@,
                id,
                s.last_unlock_slot_id,
                s.reauthenticated_at,
                now,
            ),
            SlotChange::Rename(id, label) => match slot_position(p.slots@, id) {
                None => Err(KenvError::EncryptionError),
                Some(i) => Ok(p.slots@.update(i, UnlockSlot { label: label, ..p.slots@[i] })),
            },
        },
    }
}

/// Relabelling a slot keeps every id where it was, so the slot's position is
/// found again.
proof fn lemma_position_after_relabel(s: Seq<UnlockSlot>, i: int, x: UnlockSlot, id: u8)
    requires
        0 <= i < s.len(),
        x.slot_id == s[i].slot_id,
    ensures
        slot_position(s.update(i, x), id) == slot_position(s, id),
{
    let t = s.update(i, x);
    lemma_slot_position(s, id);
    lemma_slot_position(t, id);
    assert(forall|k: int| 0 <= k < s.len() ==> #[trigger] t[k].slot_id == s[k].slot_id);
    if let Some(a) = slot_position(s, id) {
        if let Some(b) = slot_position(t, id) {
            assert(t[a].slot_id == id);
            assert(s[b].slot_id == id);
        } else {
            assert(t[a].slot_id == id);
        }
    } else if let Some(b) = slot_position(t, id) {
        assert(s[b].slot_id == id);
    }
}

/// Applies `change` to the session and writes the vault with `persist`, which
/// sees the changed session. A refused change returns its error and leaves
/// the session as it was; when the write fails, the change is taken back (the
/// slot list is again what it was, and nothing else had changed) and the
/// write's error is returned; otherwise the changed session stays.
pub fn apply_and_persist<F>(
    state: &mut VaultState,
    change: SlotChange,
    now: Timestamp,
    persist: F,
) -> (res: Result<(), KenvError>) where F: FnOnce(&VaultState) -> Result<(), KenvError>
    requires
        forall|s: &VaultState| call_requires(persist, (s,)),
    ensures
        match change_result(*old(state), change, now) {
            Err(e) => res == Err::<(), KenvError>(e) && *final(state) == *old(state),
            Ok(slots) => exists|mid: VaultState, r: Result<(), KenvError>|
                #![trigger call_ensures(persist, (&mid,), r)]
                {
                    &&& same_but_slots(*old(state), mid)
                    &&& mid.payload->0.slots@ == slots
                    &&& call_ensures(persist, (&mid,), r)
                    &&& res == r
                    &&& r is Ok ==> *final(state) == mid
                    &&& r is Err ==> same_but_slots(*old(state), *final(state))
                        && final(state).payload->0.slots@ == old(state).payload->0.slots@
                },
        },
{
    let ghost start = *state;
    match change {
        SlotChange::Add(slot) => {
            add_slot(state, slot)?;
            let ghost mid = *state;
            let r = persist(&*state);
            if r.is_err() {
                match &mut state.payload {
                    Some(p) => {
                        p.slots.pop();
                    },
                    None => {},
                }
                assert(state.payload->0.slots@ =~= start.payload->0.slots@);
            }
            assert(call_ensures(persist, (&mid,), r));
            r
        },
        SlotChange::Remove(id) => {
            proof {
                lemma_slot_position(start.payload->0.slots@, id);
            }
            let (i, slot) = take_slot(state, id, now)?;
            let ghost mid = *state;
            assert(mid.payload->0.slots@ == start.payload->0.slots@.remove(i as int));
            let r = persist(&*state);
            if r.is_err() {
                match &mut state.payload {
                    Some(p) => {
                        p.slots.insert(i, slot);
                    },
                    None => {},
                }
                assert(state.payload->0.slots@ =~= start.payload->0.slots@);
            }
            assert(call_ensures(persist, (&mid,), r));
            r
        },
        SlotChange::Rename(id, label) => {
            proof {
                lemma_slot_position(start.payload->0.slots@, id);
            }
            let previous = swap_label(state, id, label)?;
            let ghost mid = *state;
            let r = persist(&*state);
            if r.is_err() {
                proof {
                    let k = slot_position(start.payload->0.slots@, id)->0;
                    lemma_position_after_relabel(
                        start.payload->0.slots@,
                        k,
                        mid.payload->0.slots@[k],
                        id,
                    );
                }
                let _ = swap_label(state, id, previous);
                proof {
                    let k = slot_position(start.payload->0.slots@, id)->0;
                    assert(state.payload->0.slots@ =~= start.payload->0.slots@);
                }
            }
            assert(call_ensures(persist, (&mid,), r));
            r
        },
    }
}

/// Ends a change to the slot list (`add_slot`, `remove_slot`, `rename_slot`,
/// `add_password_slot`) once writing the vault file has been tried: after a
/// successful write the changed session stays; after a failed one the session
/// is put back exactly as it was before the change, and the failure is
/// returned.
pub fn finish_mutation(
    state: &mut VaultState,
    before: VaultState,
    persisted: Result<(), KenvError>,
) -> (res: Result<(), KenvError>)
    ensures
        res == persisted,
        persisted is Ok ==> *final(state) == *old(state),
        persisted is Err ==> *final(state) == before,
{
    if persisted.is_err() {
        *state = before;
    }
    persisted
}

} // verus!
