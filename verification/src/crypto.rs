//! Key derivation and authenticated encryption.
use aes_gcm::aead::{Aead, KeyInit};
use hmac::Mac;
use rand::RngCore;
use vstd::prelude::*;
use vstd::string::StringSliceAdditionalSpecFns;

verus! {

/// Argon2id costs: memory in KiB, number of passes, degree of parallelism.
#[derive(Clone, Debug)]
pub struct KdfParams {
    pub m_cost: u32,
    pub t_cost: u32,
    pub p_cost: u32,
}

impl KdfParams {
    /// Cheap costs that keep tests fast.
    pub fn for_tests() -> (p: Self)
        ensures
            p.m_cost == 8 && p.t_cost == 1 && p.p_cost == 1,
    {
        KdfParams { m_cost: 8, t_cost: 1, p_cost: 1 }
    }

    /// Costs for real vaults: 64 MiB, three passes, one lane.
    pub fn recommended() -> (p: Self)
        ensures
            p.m_cost == 65536 && p.t_cost == 3 && p.p_cost == 1,
    {
        KdfParams { m_cost: 65536, t_cost: 3, p_cost: 1 }
    }
}

} // verus!

verus! {

#[verifier::external_type_specification]
#[verifier::external_body]
pub struct ExArgon2Error(argon2::Error);

#[verifier::external_type_specification]
#[verifier::external_body]
pub struct ExAeadError(aes_gcm::Error);

/// The 32-byte Argon2id (version 0x13) output for a password, salt and costs.
pub uninterp spec fn argon2id_hash(
    password: Seq<u8>,
    salt: Seq<u8>,
    m_cost: u32,
    t_cost: u32,
    p_cost: u32,
) -> Seq<u8>;

/// Whether argon2 accepts these costs for a 32-byte output: at least 8 KiB
/// and 8 KiB per lane, at least one pass, between 1 and 2^24 - 1 lanes.
pub open spec fn argon2_costs_valid(m_cost: u32, t_cost: u32, p_cost: u32) -> bool {
    m_cost >= 8 && m_cost >= 8 * p_cost && t_cost >= 1 && 1 <= p_cost <= 0xFF_FFFF
}

/// Whether argon2 hashes a password of these bytes with these costs.
pub open spec fn kdf_accepts(password: Seq<u8>, m_cost: u32, t_cost: u32, p_cost: u32) -> bool {
    argon2_costs_valid(m_cost, t_cost, p_cost) && password.len() <= 0xFFFF_FFFF
}

/// Whether argon2's cost check can run without its `p_cost * 8` product
/// overflowing, which happens only once the memory cost is at least 8.
pub open spec fn kdf_costs_checkable(m_cost: u32, p_cost: u32) -> bool {
    m_cost < 8 || p_cost <= 0x1FFF_FFFF
}

/// Argon2id from the `argon2` crate: `Params::new(m, t, p, Some(32))`, then
/// `Argon2::new(Argon2id, V0x13, params).hash_password_into(password, salt, out)`.
///
/// Claims: the call succeeds exactly when the costs are valid and the
/// password is at most 2^32 - 1 bytes (the salt, 32 bytes, is always
/// accepted), and then the key is the Argon2id output for these arguments. A
/// refused cost is reported as `MemoryTooLittle`, whichever check failed.
/// The caller keeps `p_cost * 8` within `u32` where it would be computed.
#[verifier::external_body]
fn argon2id_32(password: &[u8], salt: &[u8; 32], m_cost: u32, t_cost: u32, p_cost: u32) -> (res:
    Result<[u8; 32], argon2::Error>)
    requires
        kdf_costs_checkable(m_cost, p_cost),
    ensures
        res is Ok <==> kdf_accepts(password@, m_cost, t_cost, p_cost),
        res matches Ok(k) ==> k@ == argon2id_hash(password@, salt@, m_cost, t_cost, p_cost),
{
    let params = argon2::Params::new(m_cost, t_cost, p_cost, Some(32)).map_err(
        |_| argon2::Error::MemoryTooLittle,
    )?;
    let hasher = argon2::Argon2::new(argon2::Algorithm::Argon2id, argon2::Version::V0x13, params);
    let mut key = [0u8; 32];
    hasher.hash_password_into(password, salt, &mut key)?;
    Ok(key)
}

/// Derives a 32-byte key from a password with Argon2id.
pub fn derive_key(password: &str, salt: &[u8; 32], params: &KdfParams) -> (res: Result<
    [u8; 32],
    argon2::Error,
>)
    requires
        kdf_costs_checkable(params.m_cost, params.p_cost),
    ensures
        res is Ok <==> kdf_accepts(password.spec_bytes(), params.m_cost, params.t_cost, params.p_cost),
        res matches Ok(k) ==> k@ == argon2id_hash(
            password.spec_bytes(),
            salt@,
            params.m_cost,
            params.t_cost,
            params.p_cost,
        ),
{
    argon2id_32(password.as_bytes(), salt, params.m_cost, params.t_cost, params.p_cost)
}

/// Largest plaintext that AES-256-GCM seals: 2^36 bytes.
pub const AEAD_MAX_PLAINTEXT: u64 = 0x10_0000_0000;

/// AES-256-GCM ciphertext with its 16-byte tag appended, without associated data.
pub uninterp spec fn aes256gcm_seal(key: Seq<u8>, nonce: Seq<u8>, plaintext: Seq<u8>) -> Seq<u8>;

/// AES-256-GCM decryption of a ciphertext that ends in its tag, without
/// associated data: the plaintext, or `None` where the tag does not verify.
pub uninterp spec fn aes256gcm_open(key: Seq<u8>, nonce: Seq<u8>, ciphertext: Seq<u8>) -> Option<
    Seq<u8>,
>;

/// Encrypts with AES-256-GCM (`aes_gcm::Aes256Gcm::encrypt`, no associated data).
///
/// Claims: it succeeds exactly for plaintexts of at most 2^36 bytes; the
/// result is the sealed message, 16 bytes longer than the plaintext; and
/// opening it with the same key and nonce gives the plaintext back.
#[verifier::external_body]
pub fn encrypt(key: &[u8; 32], nonce: &[u8; 12], plaintext: &[u8]) -> (res: Result<
    Vec<u8>,
    aes_gcm::Error,
>)
    ensures
        res is Ok <==> plaintext@.len() <= AEAD_MAX_PLAINTEXT,
        res matches Ok(c) ==> c@ == aes256gcm_seal(key@, nonce@, plaintext@) && c@.len()
            == plaintext@.len() + 16 && aes256gcm_open(key@, nonce@, c@) == Some(plaintext@),
{
    let cipher = aes_gcm::Aes256Gcm::new(aes_gcm::Key::<aes_gcm::Aes256Gcm>::from_slice(key));
    cipher.encrypt(aes_gcm::Nonce::from_slice(nonce), plaintext)
}

/// Decrypts with AES-256-GCM (`aes_gcm::Aes256Gcm::decrypt`, no associated data).
///
/// Claims: the result is the opened message where the tag verifies and an
/// error otherwise, and input shorter than the 16-byte tag never opens.
#[verifier::external_body]
pub fn decrypt(key: &[u8; 32], nonce: &[u8; 12], ciphertext: &[u8]) -> (res: Result<
    Vec<u8>,
    aes_gcm::Error,
>)
    ensures
        res matches Ok(p) ==> aes256gcm_open(key@, nonce@, ciphertext@) == Some(p@),
        res is Err ==> aes256gcm_open(key@, nonce@, ciphertext@) is None,
        ciphertext@.len() < 16 ==> res is Err,
{
    let cipher = aes_gcm::Aes256Gcm::new(aes_gcm::Key::<aes_gcm::Aes256Gcm>::from_slice(key));
    cipher.decrypt(aes_gcm::Nonce::from_slice(nonce), ciphertext)
}

/// 32 bytes from the thread-local random generator (`rand::thread_rng`).
/// Nothing is claimed of the bytes.
#[verifier::external_body]
pub fn random_bytes_32() -> (out: [u8; 32]) {
    let mut out = [0u8; 32];
    rand::thread_rng().fill_bytes(&mut out);
    out
}

/// 12 bytes from the thread-local random generator (`rand::thread_rng`).
/// Nothing is claimed of the bytes.
#[verifier::external_body]
pub fn random_bytes_12() -> (out: [u8; 12]) {
    let mut out = [0u8; 12];
    rand::thread_rng().fill_bytes(&mut out);
    out
}

/// HMAC-SHA256 of a message under a key.
pub uninterp spec fn hmac_sha256(key: Seq<u8>, msg: Seq<u8>) -> Seq<u8>;

/// HMAC-SHA256 from the `hmac` and `sha2` crates
/// (`Hmac::<Sha256>::new_from_slice(key)`, `update(msg)`, `finalize`).
///
/// Claims: a tag always comes back, since HMAC takes keys of any length, and
/// it is the HMAC-SHA256 of `msg` under `key`.
#[verifier::external_body]
pub fn hmac_sha256_32(key: &[u8; 32], msg: &[u8]) -> (res: Option<[u8; 32]>)
    ensures
        res is Some,
        res->0@ == hmac_sha256(key@, msg@),
{
    let mut mac = <hmac::Hmac<sha2::Sha256> as Mac>::new_from_slice(key).ok()?;
    mac.update(msg);
    let bytes = mac.finalize().into_bytes();
    let mut out = [0u8; 32];
    out.copy_from_slice(&bytes);
    Some(out)
}

} // verus!
