//! The error vocabulary of the library. Name validation has its own error
//! in the naming module; everything else a caller can see is here.

use vstd::prelude::*;

verus! {

/// A failure reported by the transport adapter.
#[derive(Clone, Copy, PartialEq, Eq, Structural, Debug)]
pub enum TransportError {
    NotMatched,
    NotPermitted,
    OutOfResources,
    Failure,
}

/// Failure of sending one message: the message could not be encoded, or the
/// transport refused it.
#[derive(Clone, Copy, PartialEq, Eq, Structural, Debug)]
pub enum WriteError {
    Serialization,
    Transport(TransportError),
}

/// Failure of receiving one message: one sample could not be decoded (the
/// stream goes on), or the transport failed.
#[derive(Clone, Copy, PartialEq, Eq, Structural, Debug)]
pub enum ReadError {
    Deserialization,
    Transport(TransportError),
}

/// Rejection of a goal operation on the action server.
#[derive(Clone, Copy, PartialEq, Eq, Structural, Debug)]
pub enum GoalError {
    /// No goal is known under the given id.
    NoSuchGoal,
    /// The goal exists but is not in a state the operation applies to.
    WrongGoalState,
    /// The transport failed while the operation was carried out.
    Transport(TransportError),
}

impl GoalError {
    /// Wraps a transport failure, as the goal operations report it.
    pub fn from_transport(e: TransportError) -> (r: GoalError)
        ensures
            r == GoalError::Transport(e),
    {
        GoalError::Transport(e)
    }
}

} // verus!
