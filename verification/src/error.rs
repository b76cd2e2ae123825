//! The errors of the proxy rotator.
use vstd::prelude::*;

verus! {

/// std's I/O error, carried through unread.
#[verifier::external_type_specification]
#[verifier::external_body]
pub struct ExIoError(std::io::Error);

/// anyhow's error, carried through unread.
#[verifier::external_type_specification]
#[verifier::external_body]
pub struct ExAnyhowError(anyhow::Error);

/// What can go wrong in the proxy rotator.
#[derive(Debug)]
pub enum ProssimoError {
    ConfigMissing(String),
    ConfigInvalid(String),
    ServerStart(String),
    Io(std::io::Error),
    Network(String),
    Generic(String),
    Other { source: anyhow::Error },
    CLIArgumentError(String),
}

impl From<std::io::Error> for ProssimoError {
    /// An I/O error, as the `Io` variant.
    fn from(err: std::io::Error) -> (r: Self) {
        ProssimoError::Io(err)
    }
}

impl vstd::std_specs::convert::FromSpecImpl<std::io::Error> for ProssimoError {
    open spec fn obeys_from_spec() -> bool {
        true
    }

    open spec fn from_spec(v: std::io::Error) -> Self {
        ProssimoError::Io(v)
    }
}

impl From<anyhow::Error> for ProssimoError {
    /// Any other error, as the `Other` variant.
    fn from(err: anyhow::Error) -> (r: Self) {
        ProssimoError::Other { source: err }
    }
}

impl vstd::std_specs::convert::FromSpecImpl<anyhow::Error> for ProssimoError {
    open spec fn obeys_from_spec() -> bool {
        true
    }

    open spec fn from_spec(v: anyhow::Error) -> Self {
        ProssimoError::Other { source: v }
    }
}

} // verus!
