//! Touch ID and the keychain.
//!
//! No LocalAuthentication or keychain binding is linked into this build:
//! every call answers `PlatformCapabilityUnavailable`.
use vstd::prelude::*;
use crate::error::KenvError;

verus! {

/// Kind of biometric check.
#[derive(Clone, Debug)]
pub enum BiometricType {
    TouchId,
}

impl BiometricType {
    pub fn as_str(&self) -> (s: &'static str)
        ensures
            s@ == "touchid"@,
    {
        match self {
            BiometricType::TouchId => "touchid",
        }
    }
}

/// Outcome of a biometric check.
#[derive(Clone, Debug)]
pub struct BiometricResult {
    pub authenticated: bool,
    pub error: Option<String>,
}

/// What a Touch ID unlock works with.
pub struct TouchIdContext {
    pub keychain_ref: Vec<u8>,
    pub biometric_type: BiometricType,
}

/// Runs a biometric check with `prompt`. Without LocalAuthentication in this
/// build, the platform is unavailable.
pub fn evaluate_biometric(prompt: &str, biometric_type: BiometricType) -> (res: Result<
    BiometricResult,
    KenvError,
>)
    ensures
        res == Err::<BiometricResult, KenvError>(KenvError::PlatformCapabilityUnavailable),
{
    Err(KenvError::PlatformCapabilityUnavailable)
}

/// Stores `secret` in the keychain behind Touch ID and returns a reference to
/// it. Without a keychain binding in this build, the platform is unavailable.
pub fn store_touchid_protected_secret(secret: &[u8], label: &str) -> (res: Result<
    Vec<u8>,
    KenvError,
>)
    ensures
        res == Err::<Vec<u8>, KenvError>(KenvError::PlatformCapabilityUnavailable),
{
    Err(KenvError::PlatformCapabilityUnavailable)
}

/// Fetches the keychain item behind `keychain_ref` after a biometric check.
/// Without a keychain binding in this build, the platform is unavailable.
pub fn retrieve_touchid_protected_secret(keychain_ref: &[u8]) -> (res: Result<Vec<u8>, KenvError>)
    ensures
        res == Err::<Vec<u8>, KenvError>(KenvError::PlatformCapabilityUnavailable),
{
    Err(KenvError::PlatformCapabilityUnavailable)
}

} // verus!
