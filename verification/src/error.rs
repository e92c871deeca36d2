//! The conditions on which the relay gives up.

use vstd::prelude::*;

verus! {

/// A fatal condition. Both end the process that runs the relay.
#[derive(Debug, Clone, Copy, PartialEq, Eq, Structural)]
pub enum RelayError {
    /// No enumerated port carries the requested name.
    PortNotFound,
    /// The handoff channel is closed: the side that fills it is gone.
    ChannelClosed,
}

} // verus!
