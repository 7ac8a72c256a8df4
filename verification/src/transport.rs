use vstd::prelude::*;

use crate::errors::VirtioError;
use crate::queue::Descriptor;
use crate::queue::UsedElem;

verus! {

/// Position of the status handshake for one device.
#[derive(Clone, Copy, Debug, PartialEq, Eq, Structural)]
pub enum DeviceStatus {
    /// The device has been reset and nothing has been acknowledged.
    Reset,
    /// The driver has noticed the device.
    Acknowledged,
    /// The driver knows how to drive the device.
    DriverFound,
    /// Feature negotiation is complete and the device accepted the subset.
    FeaturesOk,
    /// The device is live for I/O.
    DriverOk,
    /// The device gave up on the handshake or hit a fatal condition.
    Failed,
}

/// How far along the handshake a status stands.
pub open spec fn status_rank(s: DeviceStatus) -> int {
    match s {
        DeviceStatus::Reset => 0,
        DeviceStatus::Acknowledged => 1,
        DeviceStatus::DriverFound => 2,
        DeviceStatus::FeaturesOk => 3,
        DeviceStatus::DriverOk => 4,
        DeviceStatus::Failed => 5,
    }
}

/// Status transitions are monotonic, except for the explicit escape back to
/// `Reset`.
pub open spec fn status_transition_allowed(from: DeviceStatus, to: DeviceStatus) -> bool {
    to == DeviceStatus::Reset || status_rank(to) >= status_rank(from)
}

/// The negotiated feature set: the intersection of what the device offers
/// and what the driver supports.
pub open spec fn spec_negotiate(offered: u64, supported: u64) -> u64 {
    offered & supported
}

/// Computes the feature subset the driver writes back during negotiation.
pub fn negotiate(offered: u64, supported: u64) -> (r: u64)
    ensures
        r == spec_negotiate(offered, supported),
{
    offered & supported
}

/// Law: a feature bit stands in the negotiated set exactly when the device
/// offers it and the driver supports it. A bit the driver does not support
/// never appears in the negotiated set, and neither does a bit the device
/// does not offer.
pub proof fn lemma_negotiated_bits(offered: u64, supported: u64, bit: u64)
    ensures
        ((spec_negotiate(offered, supported) >> bit) & 1 == 1) <==> (((offered >> bit) & 1 == 1)
            && ((supported >> bit) & 1 == 1)),
{
    assert((((offered & supported) >> bit) & 1 == 1) <==> (((offered >> bit) & 1 == 1) && ((
    supported >> bit) & 1 == 1))) by (bit_vector);
}

/// The bus-specific mechanism used to configure a device and its queues.
///
/// The device is an independently scheduled party reached only through this
/// trait. In this model the driver hands its ring memory to the device at
/// each notification: `notify` is the single point where the device runs,
/// and the device may only append to the used ring there. The three spec
/// functions describe the device-side state the driver can observe.
pub trait Transport: Sized {
    /// The feature bitset the device offers.
    spec fn offered_features(&self) -> u64;

    /// The status the device currently holds.
    spec fn status(&self) -> DeviceStatus;

    /// The largest queue size the device supports for the given queue index.
    spec fn queue_max(&self, queue: u16) -> u16;

    /// The feature subset the driver last wrote back.
    spec fn driver_features(&self) -> u64;

    /// Whether the device holds a completion notification pending.
    spec fn interrupt_pending(&self) -> bool;

    /// Reads the device-offered feature bits (both 32-bit halves).
    fn read_device_features(&mut self) -> (r: u64)
        ensures
            r == old(self).offered_features(),
            final(self).offered_features() == old(self).offered_features(),
            final(self).status() == old(self).status(),
            final(self).driver_features() == old(self).driver_features(),
            forall|q: u16| final(self).queue_max(q) == old(self).queue_max(q),
    ;

    /// Writes the feature subset the driver accepts.
    fn write_driver_features(&mut self, features: u64)
        ensures
            final(self).driver_features() == features,
            final(self).offered_features() == old(self).offered_features(),
            final(self).status() == old(self).status(),
            forall|q: u16| final(self).queue_max(q) == old(self).queue_max(q),
    ;

    /// Reads the device status byte.
    fn read_status(&mut self) -> (r: DeviceStatus)
        ensures
            r == old(self).status(),
            final(self).offered_features() == old(self).offered_features(),
            final(self).status() == old(self).status(),
            final(self).driver_features() == old(self).driver_features(),
            forall|q: u16| final(self).queue_max(q) == old(self).queue_max(q),
    ;

    /// Writes the device status byte. The driver only ever advances the
    /// handshake, or escapes back to `Reset`; the device may refuse the
    /// `FeaturesOk` write by falling to `Failed` instead.
    fn set_status(&mut self, status: DeviceStatus)
        requires
            status_transition_allowed(old(self).status(), status),
        ensures
            final(self).status() == status || (status == DeviceStatus::FeaturesOk
                && final(self).status() == DeviceStatus::Failed),
            final(self).offered_features() == old(self).offered_features(),
            final(self).driver_features() == old(self).driver_features(),
            forall|q: u16| final(self).queue_max(q) == old(self).queue_max(q),
    ;

    /// Reads the largest queue size the device supports for `queue`.
    fn max_queue_size(&mut self, queue: u16) -> (r: u16)
        ensures
            r == old(self).queue_max(queue),
            final(self).offered_features() == old(self).offered_features(),
            final(self).status() == old(self).status(),
            final(self).driver_features() == old(self).driver_features(),
            forall|q: u16| final(self).queue_max(q) == old(self).queue_max(q),
    ;

    /// Publishes the geometry of a queue the driver has set up.
    fn register_queue(&mut self, queue: u16, size: u16)
        ensures
            final(self).offered_features() == old(self).offered_features(),
            final(self).status() == old(self).status(),
            final(self).driver_features() == old(self).driver_features(),
            forall|q: u16| final(self).queue_max(q) == old(self).queue_max(q),
    ;

    /// Signals the device that new available entries exist, handing it the
    /// shared rings. The device reads the descriptor table and the available
    /// ring, and may append completion entries to the used ring; it never
    /// rewrites or drops entries already there.
    fn notify(
        &mut self,
        queue: u16,
        desc: &Vec<Descriptor>,
        avail: &Vec<u16>,
        used: &mut Vec<UsedElem>,
    )
        ensures
            old(used)@.is_prefix_of(final(used)@),
            final(self).driver_features() == old(self).driver_features(),
    ;

    /// Reports whether the device has raised a completion notification.
    fn read_isr_status(&mut self) -> (r: bool)
        ensures
            r == old(self).interrupt_pending(),
            final(self).interrupt_pending() == old(self).interrupt_pending(),
            final(self).offered_features() == old(self).offered_features(),
            final(self).status() == old(self).status(),
            final(self).driver_features() == old(self).driver_features(),
            forall|q: u16| final(self).queue_max(q) == old(self).queue_max(q),
    ;

    /// Acknowledges a device-raised notification; returns whether one was
    /// pending, and leaves none pending.
    fn ack_interrupt(&mut self) -> (r: bool)
        ensures
            r == old(self).interrupt_pending(),
            final(self).interrupt_pending() == false,
            final(self).offered_features() == old(self).offered_features(),
            final(self).status() == old(self).status(),
            final(self).driver_features() == old(self).driver_features(),
            forall|q: u16| final(self).queue_max(q) == old(self).queue_max(q),
    ;
}

/// Drives the handshake from `Reset` through `Acknowledged` and
/// `DriverFound`, negotiates features against `supported`, and advances to
/// `FeaturesOk`.
///
/// On success the negotiated set is exactly the intersection of the
/// device-offered bits and `supported`. If the device refuses the accepted
/// subset it is left marked `Failed` and a negotiation error is returned; no
/// partial state is exposed.
pub fn begin_init<T: Transport>(transport: &mut T, supported: u64) -> (r: Result<
    u64,
    VirtioError,
>)
    requires
        old(transport).status() == DeviceStatus::Reset,
    ensures
        r matches Ok(negotiated) ==> negotiated == spec_negotiate(
            old(transport).offered_features(),
            supported,
        ) && final(transport).status() == DeviceStatus::FeaturesOk,
        r matches Err(e) ==> e == VirtioError::NegotiationRejected && final(transport).status()
            == DeviceStatus::Failed,
        final(transport).driver_features() == spec_negotiate(
            old(transport).offered_features(),
            supported,
        ),
        final(transport).offered_features() == old(transport).offered_features(),
        forall|q: u16| final(transport).queue_max(q) == old(transport).queue_max(q),
{
    transport.set_status(DeviceStatus::Acknowledged);
    transport.set_status(DeviceStatus::DriverFound);
    let offered = transport.read_device_features();
    let negotiated = negotiate(offered, supported);
    transport.write_driver_features(negotiated);
    transport.set_status(DeviceStatus::FeaturesOk);
    let status = transport.read_status();
    if status == DeviceStatus::FeaturesOk {
        Ok(negotiated)
    } else {
        transport.set_status(DeviceStatus::Failed);
        Err(VirtioError::NegotiationRejected)
    }
}

/// Advances the device to `DriverOk`, making it live for I/O. Called exactly
/// once after queue setup completes, even on a setup error path, so the
/// device observes a terminal status rather than hanging half-initialized.
pub fn finish_init<T: Transport>(transport: &mut T)
    requires
        status_transition_allowed(old(transport).status(), DeviceStatus::DriverOk),
    ensures
        final(transport).status() == DeviceStatus::DriverOk,
        final(transport).offered_features() == old(transport).offered_features(),
        final(transport).driver_features() == old(transport).driver_features(),
        forall|q: u16| final(transport).queue_max(q) == old(transport).queue_max(q),
{
    transport.set_status(DeviceStatus::DriverOk);
}

} // verus!
