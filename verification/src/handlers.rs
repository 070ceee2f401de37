//! Answers of the desktop app's local socket server: each handler turns the
//! outcome of a vault operation into the reply text, or the reply record.
use vstd::prelude::*;
use crate::error::{error_message, KenvError};
use crate::session::{
    describes_key, describes_slot, list_slots, list_ssh_keys, lock, script_value, VaultState,
    VaultStatus,
};
use crate::slots::SlotType;
use crate::text::str_eq;

verus! {

/// Most connections the socket server serves at once.
pub const MAX_CONCURRENT_CONNECTIONS: usize = 16;

/// Whether a new connection is served, given how many were active before it.
pub fn connection_accepted(active_before: usize) -> (accepted: bool)
    ensures
        accepted == (active_before < MAX_CONCURRENT_CONNECTIONS),
{
    active_before < MAX_CONCURRENT_CONNECTIONS
}

/// The requests the socket server answers.
#[derive(Clone, Copy, Debug, PartialEq, Eq, Structural)]
pub enum RequestMethod {
    Unlock,
    ListSlots,
    ListKeys,
    RemoveSlot,
    ReauthPassword,
    Status,
    Lock,
    Create,
}

/// The request a method name names, if any.
pub open spec fn method_of(name: Seq<char>) -> Option<RequestMethod> {
    if name == "unlock"@ {
        Some(RequestMethod::Unlock)
    } else if name == "list_slots"@ {
        Some(RequestMethod::ListSlots)
    } else if name == "list_keys"@ {
        Some(RequestMethod::ListKeys)
    } else if name == "remove_slot"@ {
        Some(RequestMethod::RemoveSlot)
    } else if name == "reauth_password"@ {
        Some(RequestMethod::ReauthPassword)
    } else if name == "status"@ {
        Some(RequestMethod::Status)
    } else if name == "lock"@ {
        Some(RequestMethod::Lock)
    } else if name == "create"@ {
        Some(RequestMethod::Create)
    } else {
        None
    }
}

impl RequestMethod {
    /// Reads a request's method name; `None` for a name the server does not know.
    pub fn parse(name: &str) -> (m: Option<RequestMethod>)
        ensures
            m == method_of(name@),
    {
        if str_eq(name, "unlock") {
            Some(RequestMethod::Unlock)
        } else if str_eq(name, "list_slots") {
            Some(RequestMethod::ListSlots)
        } else if str_eq(name, "list_keys") {
            Some(RequestMethod::ListKeys)
        } else if str_eq(name, "remove_slot") {
            Some(RequestMethod::RemoveSlot)
        } else if str_eq(name, "reauth_password") {
            Some(RequestMethod::ReauthPassword)
        } else if str_eq(name, "status") {
            Some(RequestMethod::Status)
        } else if str_eq(name, "lock") {
            Some(RequestMethod::Lock)
        } else if str_eq(name, "create") {
            Some(RequestMethod::Create)
        } else {
            None
        }
    }

    /// Whether a successful request of this kind changes the vault's state,
    /// so that the app's window is told to refresh.
    pub fn changes_state(&self) -> (b: bool)
        ensures
            b == (*self == RequestMethod::Unlock || *self == RequestMethod::RemoveSlot || *self
                == RequestMethod::Lock || *self == RequestMethod::Create),
    {
        match self {
            RequestMethod::Unlock => true,
            RequestMethod::RemoveSlot => true,
            RequestMethod::Lock => true,
            RequestMethod::Create => true,
            _ => false,
        }
    }
}

/// Error text for a request whose method the server does not know.
pub fn unknown_method_message(name: &str) -> (m: String)
    ensures
        m@ == "unknown method: "@ + name@,
{
    let mut m = String::new();
    m.append("unknown method: ");
    m.append(name);
    m
}

/// The password that a `reauth_password` or `create` request carries, or the
/// reply `missing password parameter` when it carries none.
pub fn password_param(password: Option<String>) -> (res: Result<String, String>)
    ensures
        match password {
            Some(p) => res == Ok::<String, String>(p),
            None => res matches Err(m) && m@ == "missing password parameter"@,
        },
{
    match password {
        Some(p) => Ok(p),
        None => {
            proof {
                reveal_strlit("missing password parameter");
            }
            Err(String::from_str("missing password parameter"))
        },
    }
}

/// Parameters of an `unlock` request.
#[derive(Debug)]
pub struct UnlockRequest {
    pub password: String,
}

/// Parameters of a `remove_slot` request.
#[derive(Debug)]
pub struct RemoveSlotRequest {
    pub slot_id: u8,
}

/// A slot in a `list_slots` reply.
#[derive(Debug)]
pub struct SlotInfo {
    pub slot_id: u8,
    pub slot_type: String,
    pub label: String,
    /// Seconds since the epoch.
    pub last_used: Option<i64>,
    pub disabled: bool,
}

/// Reply to `list_slots`.
#[derive(Debug)]
pub struct ListSlotsResponse {
    pub slots: Vec<SlotInfo>,
}

/// A key in a `list_keys` reply.
#[derive(Debug)]
pub struct SshKeyInfo {
    pub key_id: String,
    pub name: String,
}

/// Reply to `list_keys`.
#[derive(Debug)]
pub struct ListKeysResponse {
    pub keys: Vec<SshKeyInfo>,
}

/// The reply for an operation that answers `ok` on success and its error's
/// message otherwise.
pub open spec fn ok_reply<T>(outcome: Result<T, KenvError>, res: Result<String, String>) -> bool {
    match outcome {
        Ok(_) => res matches Ok(s) && s@ == "ok"@,
        Err(e) => res matches Err(m) && m@ == error_message(e),
    }
}

fn ok_text() -> (s: String)
    ensures
        s@ == "ok"@,
{
    String::from_str("ok")
}

/// Reply to `unlock`.
pub fn handle_unlock(outcome: Result<VaultStatus, KenvError>) -> (res: Result<String, String>)
    ensures
        ok_reply(outcome, res),
{
    match outcome {
        Ok(_) => Ok(ok_text()),
        Err(e) => Err(e.to_string()),
    }
}

/// Reply to `reauth_password`.
pub fn handle_reauth_password(outcome: Result<(), KenvError>) -> (res: Result<String, String>)
    ensures
        ok_reply(outcome, res),
{
    match outcome {
        Ok(_) => Ok(ok_text()),
        Err(e) => Err(e.to_string()),
    }
}

/// Reply to `remove_slot`: `ok`, or `reauthentication_required` when the
/// removal needs a fresh password reauthentication, or the error's message.
pub fn handle_remove_slot(outcome: Result<(), KenvError>) -> (res: Result<String, String>)
    ensures
        match outcome {
            Ok(_) => res matches Ok(s) && s@ == "ok"@,
            Err(KenvError::UnlockFailed) => res matches Err(m) && m@
                == "reauthentication_required"@,
            Err(e) => res matches Err(m) && m@ == error_message(e),
        },
{
    match outcome {
        Ok(()) => Ok(ok_text()),
        Err(KenvError::UnlockFailed) => Err(String::from_str("reauthentication_required")),
        Err(e) => Err(e.to_string()),
    }
}

/// Answer of the desktop window's slot removal: `true` once removed,
/// `reauthentication_required` when the removal needs a fresh password
/// reauthentication, or the error's message.
pub fn remove_vault_slot(outcome: Result<(), KenvError>) -> (res: Result<bool, String>)
    ensures
        match outcome {
            Ok(_) => res == Ok::<bool, String>(true),
            Err(KenvError::UnlockFailed) => res matches Err(m) && m@
                == "reauthentication_required"@,
            Err(e) => res matches Err(m) && m@ == error_message(e),
        },
{
    match outcome {
        Ok(()) => Ok(true),
        Err(KenvError::UnlockFailed) => Err(String::from_str("reauthentication_required")),
        Err(e) => Err(e.to_string()),
    }
}

/// Handles `lock`: locks the session and replies `ok`.
pub fn handle_lock(state: &mut VaultState) -> (res: Result<String, String>)
    ensures
        res matches Ok(s) && s@ == "ok"@,
        crate::session::is_cleared(*final(state)),
{
    match lock(state) {
        Ok(()) => Ok(ok_text()),
        Err(e) => Err(e.to_string()),
    }
}

/// Reply to `create`: `vault_status=locked` once the vault file exists, or
/// the error's message.
pub fn handle_create(outcome: Result<(), KenvError>) -> (res: Result<String, String>)
    ensures
        match outcome {
            Ok(_) => res matches Ok(s) && s@ == "vault_status=locked"@,
            Err(e) => res matches Err(m) && m@ == error_message(e),
        },
{
    match outcome {
        Ok(()) => {
            proof {
                reveal_strlit("vault_status=locked");
            }
            Ok(String::from_str("vault_status=locked"))
        },
        Err(e) => Err(e.to_string()),
    }
}

/// Reply to `status`: the status's script value.
pub fn handle_status(outcome: Result<VaultStatus, KenvError>) -> (res: Result<String, String>)
    ensures
        match outcome {
            Ok(s) => res matches Ok(t) && t@ == script_value(s),
            Err(e) => res matches Err(m) && m@ == error_message(e),
        },
{
    match outcome {
        Ok(s) => Ok(String::from_str(s.as_script_value())),
        Err(e) => Err(e.to_string()),
    }
}

/// Name of a slot type as the desktop app shows it.
pub open spec fn slot_type_name(t: SlotType) -> Seq<char> {
    match t {
        SlotType::Password => "Password"@,
        SlotType::Ctap2 => "Ctap2"@,
        SlotType::TouchId => "TouchId"@,
    }
}

fn slot_type_text(t: SlotType) -> (s: String)
    ensures
        s@ == slot_type_name(t),
{
    match t {
        SlotType::Password => String::from_str("Password"),
        SlotType::Ctap2 => String::from_str("Ctap2"),
        SlotType::TouchId => String::from_str("TouchId"),
    }
}

/// Reply to `list_slots`: each slot's id, type name, label, last use in
/// seconds since the epoch, and whether it is disabled; `vault is locked`
/// when locked.
pub fn handle_list_slots(state: &VaultState) -> (res: Result<ListSlotsResponse, String>)
    ensures
        state.payload is None ==> (res matches Err(m) && m@ == error_message(
            KenvError::VaultLocked,
        )),
        state.payload is Some ==> (res matches Ok(r) && r.slots@.len()
            == state.payload->0.slots@.len() && forall|i: int|
            0 <= i < r.slots@.len() ==> {
                let s = #[trigger] state.payload->0.slots@[i];
                let o = r.slots@[i];
                &&& o.slot_id == s.slot_id
                &&& o.slot_type@ == slot_type_name(s.slot_type)
                &&& o.label@ == s.label@
                &&& o.last_used == (match s.last_used {
                    Some(t) => Some(t.secs as i64),
                    None => None,
                })
                &&& o.disabled == s.disabled
            }),
{
    let slots = match list_slots(state) {
        Ok(v) => v,
        Err(e) => return Err(e.to_string()),
    };
    let mut out: Vec<SlotInfo> = Vec::new();
    let mut i: usize = 0;
    while i < slots.len()
        invariant
            state.payload is Some,
            slots@.len() == state.payload->0.slots@.len(),
            forall|j: int|
                0 <= j < slots@.len() ==> describes_slot(
                    #[trigger] slots@[j],
                    state.payload->0.slots@[j],
                ),
            i <= slots@.len(),
            out@.len() == i,
            forall|j: int|
                0 <= j < i ==> {
                    let s = #[trigger] state.payload->0.slots@[j];
                    let o = out@[j];
                    &&& o.slot_id == s.slot_id
                    &&& o.slot_type@ == slot_type_name(s.slot_type)
                    &&& o.label@ == s.label@
                    &&& o.last_used == (match s.last_used {
                        Some(t) => Some(t.secs as i64),
                        None => None,
                    })
                    &&& o.disabled == s.disabled
                },
        decreases slots@.len() - i,
    {
        let s = &slots.as_slice()[i];
        assert(describes_slot(slots@[i as int], state.payload->0.slots@[i as int]));
        let last_used = match s.last_used {
            Some(t) => Some(t.secs as i64),
            None => None,
        };
        out.push(
            SlotInfo {
                slot_id: s.slot_id,
                slot_type: slot_type_text(s.slot_type),
                label: s.label.clone(),
                last_used,
                disabled: s.disabled,
            },
        );
        i = i + 1;
    }
    Ok(ListSlotsResponse { slots: out })
}

/// Reply to `list_keys`: each key's id and name; `vault is locked` when locked.
pub fn handle_list_keys(state: &VaultState) -> (res: Result<ListKeysResponse, String>)
    ensures
        state.payload is None ==> (res matches Err(m) && m@ == error_message(
            KenvError::VaultLocked,
        )),
        state.payload is Some ==> (res matches Ok(r) && r.keys@.len()
            == state.payload->0.ssh_keys@.len() && forall|i: int|
            0 <= i < r.keys@.len() ==> (#[trigger] r.keys@[i]).key_id@
                == state.payload->0.ssh_keys@[i].key_id@ && r.keys@[i].name@
                == state.payload->0.ssh_keys@[i].name@),
{
    let keys = match list_ssh_keys(state) {
        Ok(v) => v,
        Err(e) => return Err(e.to_string()),
    };
    let mut out: Vec<SshKeyInfo> = Vec::new();
    let mut i: usize = 0;
    while i < keys.len()
        invariant
            state.payload is Some,
            keys@.len() == state.payload->0.ssh_keys@.len(),
            forall|j: int|
                0 <= j < keys@.len() ==> describes_key(
                    #[trigger] keys@[j],
                    state.payload->0.ssh_keys@[j],
                ),
            i <= keys@.len(),
            out@.len() == i,
            forall|j: int|
                0 <= j < i ==> (#[trigger] out@[j]).key_id@
                    == state.payload->0.ssh_keys@[j].key_id@ && out@[j].name@
                    == state.payload->0.ssh_keys@[j].name@,
        decreases keys@.len() - i,
    {
        let k = &keys.as_slice()[i];
        assert(describes_key(keys@[i as int], state.payload->0.ssh_keys@[i as int]));
        out.push(SshKeyInfo { key_id: k.key_id.clone(), name: k.name.clone() });
        i = i + 1;
    }
    Ok(ListKeysResponse { keys: out })
}

} // verus!
