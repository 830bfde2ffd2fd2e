//! The failures that session establishment can end in.

use vstd::prelude::*;

verus! {

/// Why a session could not be set up or was ended.
#[derive(Debug, PartialEq, Eq)]
pub enum Error {
    /// The host name did not resolve to any address.
    AddrResolutionError,
    /// Every candidate endpoint was tried and none accepted a connection.
    CannotInitCamera,
    /// No enabled discovery method found the camera.
    DiscoveryTimeout,
    /// The camera rejected the credentials, or no encryption mode is shared.
    AuthFailed,
    /// A frame broke the framing rules.
    ProtocolError,
    /// The transport failed underneath the session.
    TransportError,
    /// The operation was abandoned by its caller or by teardown.
    Cancelled,
    /// Anything unexpected, with a description.
    OtherString(String),
}

} // verus!
