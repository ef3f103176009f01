//! The system keyring entry that holds the credentials, when the keyring is
//! in use.

use vstd::prelude::*;

verus! {

/// The keyring service name.
pub const KEYRING_SERVICE: &'static str = "docmost-local-mcp";

/// The keyring user name.
pub const KEYRING_USERNAME: &'static str = "credentials";

/// The system keyring as a credential store.
#[derive(Debug, Clone, Copy, PartialEq, Eq, Default)]
pub struct KeyringStore;

/// Whether `DOCMOST_DISABLE_KEYRING` (its value, if set) turns the keyring
/// off: `1` or `true`.
pub fn keyring_disabled_by(value: Option<&str>) -> (r: bool)
    ensures
        r == match value {
            Some(v) => v@ == "1"@ || v@ == "true"@,
            None => false,
        },
{
    match value {
        Some(v) => crate::text::same_text(v, "1") || crate::text::same_text(v, "true"),
        None => false,
    }
}

/// What a keyring failure means for a read or write.
#[derive(Debug, Clone, Copy, PartialEq, Eq)]
pub enum KeyringFailure {
    /// No credentials are stored.
    NoEntry,
    /// The platform's store failed or refused access.
    PlatformFailure,
    NoStorageAccess,
    /// The stored value is not text.
    BadEncoding,
    /// Any other failure.
    Other,
}

/// A failure after which the file store is used instead of the keyring.
pub fn should_fallback(f: KeyringFailure) -> (r: bool)
    ensures
        r == (f != KeyringFailure::Other),
{
    match f {
        KeyringFailure::Other => false,
        _ => true,
    }
}

/// The failure that means nothing is stored.
pub fn is_missing_entry(f: KeyringFailure) -> (r: bool)
    ensures
        r == (f == KeyringFailure::NoEntry),
{
    match f {
        KeyringFailure::NoEntry => true,
        _ => false,
    }
}

} // verus!
