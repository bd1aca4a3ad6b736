//! Control records and session identity as plain values.

use crate::error::ProtocolError;
use vstd::prelude::*;

verus! {

/// What a control record is about.
#[derive(Debug, Clone, Copy, PartialEq, Eq, Structural)]
pub enum ControlKind {
    Hello,
    HelloAck,
    Authenticate,
    HandshakeCompleted,
    Capabilities,
    ConfigureStream,
    IceCredentials,
    IceCandidate,
    IceProbe,
    RoutePrepare,
    RoutePrepared,
    RouteCommit,
    RouteActivated,
    RouteConfirmed,
    /// Any other kind, by its wire number.
    Other(u16),
}

/// A reliable application lane.
#[derive(Debug, Clone, Copy, PartialEq, Eq, Structural)]
pub enum StreamKind {
    Control,
    Input,
}

/// Identity and lifecycle epochs attached to every record of a session.
#[derive(Debug, Clone, Copy, PartialEq, Eq, Structural)]
pub struct SessionStamp {
    pub session_id: u64,
    pub generation: u64,
    pub authorization_epoch: u32,
    pub display_epoch: u32,
    pub codec_epoch: u32,
    pub route_epoch: u64,
}

/// A control record whose body was decoded, or could not be.
#[derive(Debug)]
pub struct ReceivedControl<T> {
    pub kind: ControlKind,
    pub session_id: u64,
    pub body: Result<T, ProtocolError>,
}

/// A control record to encode and send. Its flags are zero.
#[derive(Debug)]
pub struct OutgoingControl<T> {
    pub kind: ControlKind,
    pub session_id: u64,
    pub body: T,
}

} // verus!
