//! SSH keys held in the vault, and the signing entry point.
use vstd::prelude::*;
use crate::error::KenvError;
use crate::slots::Timestamp;

verus! {

/// An SSH key stored in the vault.
#[derive(Clone, Debug)]
pub struct SshKey {
    /// Identifier of the key, such as its algorithm name.
    pub key_id: String,
    /// Label a person gave the key.
    pub name: String,
    /// Public key in OpenSSH form.
    pub public_key: Vec<u8>,
    /// Private key material.
    pub private_key: Vec<u8>,
    pub key_type: SshKeyType,
    pub created_at: Timestamp,
    pub last_used: Option<Timestamp>,
    pub disabled: bool,
    /// Whether signing with the key needs a fresh password reauthentication.
    pub require_reauthentication: bool,
}

/// Algorithm of an SSH key.
#[derive(Clone, Copy, Debug, PartialEq, Eq, Structural)]
pub enum SshKeyType {
    Ed25519,
    Rsa,
    EcdsaP256,
}

/// Name of each key algorithm.
pub open spec fn key_type_name(t: SshKeyType) -> Seq<char> {
    match t {
        SshKeyType::Ed25519 => "ed25519"@,
        SshKeyType::Rsa => "rsa"@,
        SshKeyType::EcdsaP256 => "ecdsa-p256"@,
    }
}

impl SshKeyType {
    pub fn as_str(&self) -> (s: &'static str)
        ensures
            s@ == key_type_name(*self),
    {
        match self {
            SshKeyType::Ed25519 => "ed25519",
            SshKeyType::Rsa => "rsa",
            SshKeyType::EcdsaP256 => "ecdsa-p256",
        }
    }
}

/// A signature made with a vault key.
#[derive(Clone, Debug)]
pub struct SshSignature {
    pub key_id: String,
    pub signature: Vec<u8>,
    pub signed_at: Timestamp,
}

/// Non-secret facts about a vault key.
#[derive(Clone, Debug)]
pub struct SshKeyInfo {
    pub key_id: String,
    pub name: String,
    pub key_type: SshKeyType,
    pub created_at: Timestamp,
    pub last_used: Option<Timestamp>,
    pub disabled: bool,
    pub require_reauthentication: bool,
}

/// Signs `data_to_sign` with the key `key_id`.
///
/// No signature scheme is wired in yet: every request is answered with
/// `SshSigningNotImplemented`.
pub fn sign_ssh_key(key_id: &str, data_to_sign: &[u8]) -> (res: Result<SshSignature, KenvError>)
    ensures
        res == Err::<SshSignature, KenvError>(KenvError::SshSigningNotImplemented),
{
    Err(KenvError::SshSigningNotImplemented)
}

} // verus!
