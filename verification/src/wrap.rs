//! Derivation of the key that wraps relayed packets.

use crate::outside::{hkdf_sha256, hkdf_sha256_expand};
use vstd::prelude::*;
use vstd::string::StringSliceAdditionalSpecFns;

verus! {

/// Length in bytes of the wrap key.
pub const wrapKeyLen: usize = 32;

/// HKDF salt of the wrap key.
pub const WRAP_SALT: &'static str = "WDTT-WRAP-v1";

/// HKDF info of the wrap key.
pub const WRAP_INFO: &'static str = "rtp-obfs/chacha20poly1305";

/// Why a wrap key could not be derived.
#[derive(Debug, Clone, Copy, PartialEq, Eq)]
pub enum WrapError {
    /// The password is empty.
    EmptyPassword,
    /// HKDF refused the output length.
    DeriveFailed,
}

impl WrapError {
    /// The message of the error.
    pub fn to_string(&self) -> (s: String)
        ensures
            *self == WrapError::EmptyPassword ==> s@ == "empty password"@,
            *self == WrapError::DeriveFailed ==> s@ == "derive wrap key"@,
    {
        match self {
            WrapError::EmptyPassword => String::from_str("empty password"),
            WrapError::DeriveFailed => String::from_str("derive wrap key"),
        }
    }
}

/// The wrap key that `deriveWrapKey` derives from a password's UTF-8 bytes.
pub open spec fn wrap_key_of(password: Seq<u8>) -> Seq<u8> {
    hkdf_sha256(WRAP_SALT.spec_bytes(), password, WRAP_INFO.spec_bytes(), wrapKeyLen as nat)
}

/// Derives the 32-byte wrap key of a password with HKDF-SHA256; an empty
/// password is refused.
pub fn deriveWrapKey(password: &str) -> (r: Result<Vec<u8>, WrapError>)
    ensures
        r is Err <==> password@.len() == 0,
        r matches Err(e) ==> e == WrapError::EmptyPassword,
        r matches Ok(k) ==> k@ == wrap_key_of(password.spec_bytes()) && k@.len() == wrapKeyLen,
{
    if password.is_empty() {
        return Err(WrapError::EmptyPassword);
    }
    match hkdf_sha256_expand(WRAP_SALT.as_bytes(), password.as_bytes(), WRAP_INFO.as_bytes(), wrapKeyLen) {
        Some(key) => Ok(key),
        None => Err(WrapError::DeriveFailed),
    }
}

} // verus!
