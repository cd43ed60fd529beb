//! Why a discovery attempt produced no registry.
use vstd::prelude::*;

verus! {

/// The HTTP client's error type, carried through unopened.
#[verifier::external_type_specification]
#[verifier::external_body]
pub struct ExReqwestError(reqwest::Error);

/// The two ways a discovery attempt can fail.
#[derive(Debug)]
pub enum ServerDiscoveryError {
    /// The request could not be sent, or its answer could not be read or decoded.
    Network(reqwest::Error),
    /// The directory answered with an empty server list.
    NoServers,
}

impl From<reqwest::Error> for ServerDiscoveryError {
    fn from(value: reqwest::Error) -> (r: Self) {
        ServerDiscoveryError::Network(value)
    }
}

impl vstd::std_specs::convert::FromSpecImpl<reqwest::Error> for ServerDiscoveryError {
    open spec fn obeys_from_spec() -> bool {
        true
    }

    open spec fn from_spec(v: reqwest::Error) -> Self {
        ServerDiscoveryError::Network(v)
    }
}

} // verus!
