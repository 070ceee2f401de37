//! Core of the kenv credential vault: the on-disk vault format, the unlock
//! slots that wrap the data encryption key, and the in-memory session rules.
pub mod bytes;
pub mod cli;
pub mod crypto;
pub mod dek;
pub mod error;
pub mod framing;
pub mod handlers;
pub mod ipc;
pub mod lifecycle;
pub mod platform;
pub mod session;
pub mod slots;
pub mod ssh;
pub mod text;
pub mod tlv;
pub mod vault;

pub use error::KenvError;
pub use ssh::{SshKeyInfo, SshSignature};
pub use session::{
    add_slot, finish_mutation, get_vault_status_with, list_slots, list_ssh_keys, lock, reauth_window_valid,
    remove_slot, rename_slot, sign_ssh_key, test_insert_ssh_key, vault_status_from, SlotInfo,
    VaultState, VaultStatus,
};
