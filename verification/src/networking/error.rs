//! What can go wrong when the agent arranges networks.
use vstd::prelude::*;
use vstd::string::*;

verus! {

/// Why a network could not be arranged.
#[derive(Debug, Clone, Copy, PartialEq, Eq, Structural)]
pub enum NetworkError {
    /// An exposure names port zero.
    InvalidTargetPort,
    /// Every port that the agent may hand out is taken.
    NoFreePort,
    /// Every address that the agent may hand out is taken.
    NoFreeAddress,
}

impl NetworkError {
    pub open spec fn text(self) -> Seq<char> {
        match self {
            NetworkError::InvalidTargetPort => "exposure targetPort must be between 1 and 65535"@,
            NetworkError::NoFreePort => "no free managed host ports in 30000-39999"@,
            NetworkError::NoFreeAddress => "no available addresses in 172.31.0.0/16"@,
        }
    }

    /// What the error says to a reader.
    pub fn message(self) -> (r: String)
        ensures
            r@ == self.text(),
    {
        match self {
            NetworkError::InvalidTargetPort => "exposure targetPort must be between 1 and 65535".to_string(),
            NetworkError::NoFreePort => "no free managed host ports in 30000-39999".to_string(),
            NetworkError::NoFreeAddress => "no available addresses in 172.31.0.0/16".to_string(),
        }
    }
}

} // verus!
