//! CTAP2 (FIDO2) security keys with the hmac-secret extension.
//!
//! No device transport is linked into this build: every call to a device
//! answers `PlatformCapabilityUnavailable`. What the vault does with a
//! credential and an assertion once a device gives them is in
//! `slots::ctap2`.
use vstd::prelude::*;
use crate::error::KenvError;

verus! {

/// A connected CTAP2 device.
#[derive(Clone, Debug)]
pub struct Ctap2Device {
    pub device_id: String,
    pub serial: Option<String>,
}

/// Result of creating a credential (MakeCredential).
#[derive(Clone, Debug)]
pub struct Ctap2Credential {
    pub credential_id: Vec<u8>,
    /// COSE public key, CBOR-encoded.
    pub public_key: Vec<u8>,
    pub attestation_data: Vec<u8>,
}

/// Result of an assertion with the hmac-secret extension (GetAssertion).
#[derive(Clone, Debug)]
pub struct Ctap2Assertion {
    pub signature: Vec<u8>,
    pub counter: u32,
    pub hmac_secret: [u8; 32],
}

/// Lists the connected CTAP2 devices. Without a device transport in this
/// build, the platform is unavailable.
pub fn enumerate_devices() -> (res: Result<Vec<Ctap2Device>, KenvError>)
    ensures
        res == Err::<Vec<Ctap2Device>, KenvError>(KenvError::PlatformCapabilityUnavailable),
{
    Err(KenvError::PlatformCapabilityUnavailable)
}

/// Creates a credential on `device` bound to `challenge` (MakeCredential).
/// Without a device transport in this build, the platform is unavailable.
pub fn register_credential(device: &Ctap2Device, challenge: &[u8; 32]) -> (res: Result<
    Ctap2Credential,
    KenvError,
>)
    ensures
        res == Err::<Ctap2Credential, KenvError>(KenvError::PlatformCapabilityUnavailable),
{
    Err(KenvError::PlatformCapabilityUnavailable)
}

/// Asserts with a credential and takes the hmac-secret for `challenge`
/// (GetAssertion); a device must answer with a counter above
/// `expected_counter`. Without a device transport in this build, the platform
/// is unavailable.
pub fn get_assertion_with_hmac_secret(
    device: &Ctap2Device,
    credential_id: &[u8],
    challenge: &[u8; 32],
    expected_counter: u32,
) -> (res: Result<Ctap2Assertion, KenvError>)
    ensures
        res == Err::<Ctap2Assertion, KenvError>(KenvError::PlatformCapabilityUnavailable),
{
    Err(KenvError::PlatformCapabilityUnavailable)
}

} // verus!
