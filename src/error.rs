use vstd::prelude::*;

verus! {

/// The failures that the agent distinguishes.
#[derive(Debug, Clone, Copy, PartialEq, Eq, Structural)]
pub enum BootError {
    /// A variable or resource is absent; often expected.
    NotFound,
    /// An unexpected HTTP status or a malformed response.
    ProtocolError,
    /// A transfer succeeded but delivered no body.
    NoResponse,
    /// An unrecognised variable name, or a value that does not fit its encoding.
    InvalidParameter,
    /// An opaque status handed back by a firmware service.
    Service(usize),
}

} // verus!
