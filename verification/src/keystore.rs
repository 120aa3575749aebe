//! Credential storage in the operating system's keyring: the entry the
//! broker credentials live under, and how each keyring report is
//! answered. Talking to the keyring is the caller's.
use crate::text::{push_str, to_owned_string};
use vstd::prelude::*;

verus! {

/// Service name of the keyring entry.
pub const SERVICE_NAME: &'static str = "velox-terminal";

/// User name of the keyring entry.
pub const USERNAME: &'static str = "binance-api";

/// What the keyring reported for an operation.
#[derive(Debug, Clone, PartialEq, Eq)]
pub enum KeyringReport<T> {
    /// The operation succeeded with this value.
    Done(T),
    /// There is no stored credential.
    NoEntry,
    /// The keyring failed with this message.
    Failed(String),
}

/// `prefix` followed by `detail`.
pub fn prefixed(prefix: &str, detail: &str) -> (r: String)
    ensures
        r@ == prefix@ + detail@,
{
    let mut r = to_owned_string(prefix);
    push_str(&mut r, detail);
    r
}

/// The error for a keyring entry that could not be opened.
pub fn entry_error(detail: &str) -> (r: String)
    ensures
        r@ == "Keyring entry creation: "@ + detail@,
{
    prefixed("Keyring entry creation: ", detail)
}

/// Answer to deleting the credentials: done, also when none were
/// stored; a failure is reported with its message.
pub fn delete(report: KeyringReport<()>) -> (r: Result<(), String>)
    ensures
        match report {
            KeyringReport::Failed(m) => r matches Err(e) && e@ == "Keyring delete_credential: "@ + m@,
            _ => r is Ok,
        },
{
    match report {
        KeyringReport::Done(()) => Ok(()),
        KeyringReport::NoEntry => Ok(()),
        KeyringReport::Failed(m) => Err(prefixed("Keyring delete_credential: ", m.as_str())),
    }
}

/// Answer to reading the credentials: the stored text, nothing when
/// none is stored, or the failure with its message.
pub fn load(report: KeyringReport<String>) -> (r: Result<Option<String>, String>)
    ensures
        match report {
            KeyringReport::Done(s) => r matches Ok(Some(x)) && x@ == s@,
            KeyringReport::NoEntry => r matches Ok(None),
            KeyringReport::Failed(m) => r matches Err(e) && e@ == "Keyring get_password: "@ + m@,
        },
{
    match report {
        KeyringReport::Done(s) => Ok(Some(s)),
        KeyringReport::NoEntry => Ok(None),
        KeyringReport::Failed(m) => Err(prefixed("Keyring get_password: ", m.as_str())),
    }
}

/// Answer to storing the credentials: done, or the keyring's failure
/// with its message.
pub fn save(report: Result<(), String>) -> (r: Result<(), String>)
    ensures
        match report {
            Ok(()) => r is Ok,
            Err(m) => r matches Err(e) && e@ == "Keyring set_password: "@ + m@,
        },
{
    match report {
        Ok(()) => Ok(()),
        Err(m) => Err(prefixed("Keyring set_password: ", m.as_str())),
    }
}

} // verus!
