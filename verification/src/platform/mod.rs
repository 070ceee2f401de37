//! Platform authenticators: CTAP2 security keys and Touch ID.
pub mod ctap2;
pub mod macos;
