//! The registry's error taxonomy.

use vstd::prelude::*;

verus! {

/// Spec-level mirror of [`RegistryError`], used in contracts.
pub enum ErrorModel {
    NotFound,
    InvalidConfiguration,
    InvalidModification,
    Unauthorized(Seq<char>),
    StorageFailure,
    SessionResolutionFailure,
}

/// Why a registry operation failed.
///
/// `Unauthorized` carries the name of the first stream the permission gate
/// denied. `SessionResolutionFailure` is never produced by the registry
/// itself: it is the uniform wrapping for a caller whose credential could not
/// be resolved before the registry was reached.
#[derive(Debug)]
pub enum RegistryError {
    /// The operation referenced an id the registry does not hold.
    NotFound,
    /// Structural validation failed before any persistence attempt.
    InvalidConfiguration,
    /// An update attempted to change an immutable field.
    InvalidModification,
    /// The acting session lacks permission for the named stream.
    Unauthorized(String),
    /// The durable store rejected the read or write.
    StorageFailure,
    /// The caller's credential could not be resolved to a session key.
    SessionResolutionFailure,
}

impl View for RegistryError {
    type V = ErrorModel;

    open spec fn view(&self) -> ErrorModel {
        match self {
            RegistryError::NotFound => ErrorModel::NotFound,
            RegistryError::InvalidConfiguration => ErrorModel::InvalidConfiguration,
            RegistryError::InvalidModification => ErrorModel::InvalidModification,
            RegistryError::Unauthorized(s) => ErrorModel::Unauthorized(s@),
            RegistryError::StorageFailure => ErrorModel::StorageFailure,
            RegistryError::SessionResolutionFailure => ErrorModel::SessionResolutionFailure,
        }
    }
}

/// The spec-level image of an operation's result.
pub open spec fn outcome<T: View>(r: Result<T, RegistryError>) -> Result<T::V, ErrorModel> {
    match r {
        Ok(v) => Ok(v@),
        Err(e) => Err(e@),
    }
}

impl RegistryError {
    /// A short, stable description of the error kind, for callers that log
    /// or render errors.
    pub fn describe(&self) -> (r: String)
        ensures
            r@ == match self@ {
                ErrorModel::NotFound => "not found"@,
                ErrorModel::InvalidConfiguration => "invalid configuration"@,
                ErrorModel::InvalidModification => "invalid modification of an immutable field"@,
                ErrorModel::Unauthorized(_) => "unauthorized stream access"@,
                ErrorModel::StorageFailure => "durable store failure"@,
                ErrorModel::SessionResolutionFailure => "session could not be resolved"@,
            },
    {
        match self {
            RegistryError::NotFound => "not found".to_owned(),
            RegistryError::InvalidConfiguration => "invalid configuration".to_owned(),
            RegistryError::InvalidModification => "invalid modification of an immutable field"
                .to_owned(),
            RegistryError::Unauthorized(_) => "unauthorized stream access".to_owned(),
            RegistryError::StorageFailure => "durable store failure".to_owned(),
            RegistryError::SessionResolutionFailure => "session could not be resolved".to_owned(),
        }
    }
}

} // verus!
