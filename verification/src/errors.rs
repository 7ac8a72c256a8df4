use vstd::prelude::*;

verus! {

/// Errors surfaced by the transport handshake and the queue engine.
#[derive(Clone, Copy, Debug, PartialEq, Eq, Structural)]
pub enum VirtioError {
    /// The device rejected the feature subset the driver accepted.
    NegotiationRejected,
    /// The requested or device-offered queue size is unusable, or too few
    /// free descriptors remain for a submitted buffer set.
    QueueCapacity,
    /// The device left a submitted chain uncompleted: the used ring was
    /// drained while a completion was still awaited, and the device makes
    /// progress only while notified, so none can still come.
    TransportFailure,
    /// A used-ring entry referenced a descriptor index the driver does not
    /// consider in flight; fatal for the queue.
    ProtocolViolation,
}

} // verus!
