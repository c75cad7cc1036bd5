use vstd::prelude::*;

verus! {

/// Every way in which an operation on the store can fail.
#[derive(Debug, PartialEq, Eq)]
pub enum EnvError {
    /// The identity file is missing and the operation needs to decrypt.
    StoreNotInitialized,
    /// An encryption was asked for with no recipient source at all.
    MissingRecipients,
    /// No environment of this name exists in the store.
    EnvironmentNotFound(String),
    /// The environment exists and overwriting it was not confirmed.
    EnvironmentAlreadyExists(String),
    /// The text is not in the `KEY=VALUE` format.
    Format,
    /// The single key that was asked for is absent after filtering.
    KeyNotFound(String),
    /// The cipher tool exited with a failure; its diagnostic text.
    CipherProcess(String),
    /// The user declined a confirmation.
    AbortedByUser,
}

} // verus!
