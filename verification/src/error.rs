use vstd::prelude::*;

verus! {

/// Errors reported by the vault core.
#[derive(Debug, Clone, Copy, PartialEq, Eq, Structural)]
pub enum KenvError {
    VaultMissing,
    VaultLocked,
    UnlockFailed,
    ContextMissing,
    InvalidEnvironmentVariableName,
    SshKeyUnavailable,
    PlatformCapabilityUnavailable,
    SshSigningNotImplemented,
    FileOperationFailed,
    VaultAlreadyExists,
    InvalidVaultFormat,
    EncryptionError,
    WeakPassword,
    LastPasswordSlot,
    /// The file carries a format version that this build no longer opens.
    VaultVersionUnsupported(u8),
    /// An unlock slot does not carry the key material its type needs.
    InvalidSlotData,
}

/// Human-readable message of each error.
pub open spec fn error_message(e: KenvError) -> Seq<char> {
    match e {
        KenvError::VaultMissing => "vault does not exist"@,
        KenvError::VaultLocked => "vault is locked"@,
        KenvError::UnlockFailed => "unlock failed"@,
        KenvError::ContextMissing => "context does not exist"@,
        KenvError::InvalidEnvironmentVariableName => "environment variable name is invalid"@,
        KenvError::SshKeyUnavailable => "ssh key does not exist or is unsupported"@,
        KenvError::PlatformCapabilityUnavailable => "platform capability is unavailable"@,
        KenvError::SshSigningNotImplemented => "ssh key signing is not yet implemented"@,
        KenvError::FileOperationFailed => "file operation failed"@,
        KenvError::VaultAlreadyExists => "vault already exists"@,
        KenvError::InvalidVaultFormat => "vault file has an invalid format"@,
        KenvError::EncryptionError => "encryption or decryption failed"@,
        KenvError::WeakPassword => "password must not be empty"@,
        KenvError::LastPasswordSlot => "cannot remove the last password slot"@,
        KenvError::VaultVersionUnsupported(v) => "unsupported vault file version "@ + decimal_digits(
            v as nat,
        ),
        KenvError::InvalidSlotData => "unlock slot is missing its key material"@,
    }
}

/// Decimal digits of a natural number, most significant first.
pub open spec fn decimal_digits(n: nat) -> Seq<char>
    decreases n,
{
    if n < 10 {
        seq![digit_char(n)]
    } else {
        decimal_digits(n / 10).push(digit_char(n % 10))
    }
}

pub open spec fn digit_char(d: nat) -> char {
    if d == 0 { '0' }
    else if d == 1 { '1' }
    else if d == 2 { '2' }
    else if d == 3 { '3' }
    else if d == 4 { '4' }
    else if d == 5 { '5' }
    else if d == 6 { '6' }
    else if d == 7 { '7' }
    else if d == 8 { '8' }
    else { '9' }
}

fn digit_str(d: u8) -> (s: &'static str)
    requires
        d < 10,
    ensures
        s@ == seq![digit_char(d as nat)],
{
    proof {
        reveal_strlit("0");
        reveal_strlit("1");
        reveal_strlit("2");
        reveal_strlit("3");
        reveal_strlit("4");
        reveal_strlit("5");
        reveal_strlit("6");
        reveal_strlit("7");
        reveal_strlit("8");
        reveal_strlit("9");
    }
    if d == 0 { "0" }
    else if d == 1 { "1" }
    else if d == 2 { "2" }
    else if d == 3 { "3" }
    else if d == 4 { "4" }
    else if d == 5 { "5" }
    else if d == 6 { "6" }
    else if d == 7 { "7" }
    else if d == 8 { "8" }
    else { "9" }
}

/// Appends the decimal form of `v` to `out`.
pub fn push_decimal(out: &mut String, v: u32)
    ensures
        final(out)@ == old(out)@ + decimal_digits(v as nat),
    decreases v,
{
    if v >= 10 {
        push_decimal(out, v / 10);
        let ghost mid = out@;
        out.append(digit_str((v % 10) as u8));
        proof {
            assert(decimal_digits(v as nat) == decimal_digits((v / 10) as nat).push(
                digit_char((v % 10) as nat),
            ));
            assert(out@ =~= old(out)@ + decimal_digits(v as nat));
        }
    } else {
        out.append(digit_str(v as u8));
    }
}

impl KenvError {
    /// The error's message, as a user sees it.
    pub fn to_string(&self) -> (s: String)
        ensures
            s@ == error_message(*self),
    {
        let mut out = String::new();
        match self {
            KenvError::VaultMissing => out.append("vault does not exist"),
            KenvError::VaultLocked => out.append("vault is locked"),
            KenvError::UnlockFailed => out.append("unlock failed"),
            KenvError::ContextMissing => out.append("context does not exist"),
            KenvError::InvalidEnvironmentVariableName => out.append(
                "environment variable name is invalid",
            ),
            KenvError::SshKeyUnavailable => out.append("ssh key does not exist or is unsupported"),
            KenvError::PlatformCapabilityUnavailable => out.append(
                "platform capability is unavailable",
            ),
            KenvError::SshSigningNotImplemented => out.append(
                "ssh key signing is not yet implemented",
            ),
            KenvError::FileOperationFailed => out.append("file operation failed"),
            KenvError::VaultAlreadyExists => out.append("vault already exists"),
            KenvError::InvalidVaultFormat => out.append("vault file has an invalid format"),
            KenvError::EncryptionError => out.append("encryption or decryption failed"),
            KenvError::WeakPassword => out.append("password must not be empty"),
            KenvError::LastPasswordSlot => out.append("cannot remove the last password slot"),
            KenvError::VaultVersionUnsupported(v) => {
                out.append("unsupported vault file version ");
                push_decimal(&mut out, *v as u32);
            },
            KenvError::InvalidSlotData => out.append("unlock slot is missing its key material"),
        }
        out
    }
}

} // verus!
