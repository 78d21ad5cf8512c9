//! Why an operation on a graph failed.

use vstd::prelude::*;

verus! {

/// Failures of graph construction and of the session lifecycle. The first
/// three are fatal to the graph they occur in.
#[derive(Clone, Copy, Debug, PartialEq, Eq, Structural)]
pub enum GraphError {
    /// A node could not be constructed or inserted.
    Construction,
    /// A node or port that was referred to does not exist.
    NotFound,
    /// A port connection was rejected.
    Link,
    /// The credential service refused to grant or extend a session.
    Credential,
}

impl GraphError {
    /// Whether the enclosing graph is torn down when this error occurs while
    /// the graph is built or rewired.
    pub open spec fn is_structural(self) -> bool {
        self != GraphError::Credential
    }

    /// Whether the error comes from building or rewiring the graph rather
    /// than from the credential service.
    pub fn structural(&self) -> (fatal: bool)
        ensures
            fatal == self.is_structural(),
    {
        match self {
            GraphError::Credential => false,
            _ => true,
        }
    }
}

} // verus!
