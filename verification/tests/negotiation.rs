use virtio_queue::errors::VirtioError;
use virtio_queue::sim::SimTransport;
use virtio_queue::transport::begin_init;
use virtio_queue::transport::finish_init;
use virtio_queue::transport::negotiate;
use virtio_queue::transport::DeviceStatus;
use virtio_queue::transport::Transport;

#[test]
fn negotiated_set_is_the_intersection() {
    assert_eq!(negotiate(0b1010, 0b0110), 0b0010);
    assert_eq!(negotiate(0, 0xFFFF_FFFF_FFFF_FFFF), 0);
    assert_eq!(negotiate(0xFFFF_FFFF_FFFF_FFFF, 0), 0);
    assert_eq!(negotiate(0x8000_0000_0000_0001, 0x8000_0000_0000_0000), 0x8000_0000_0000_0000);
}

#[test]
fn handshake_writes_back_only_bits_offered_and_supported() {
    let mut t = SimTransport::new(0b1010, 128);
    let negotiated = begin_init(&mut t, 0b0110).expect("device requires nothing");
    assert_eq!(negotiated, 0b0010);
    assert_eq!(t.driver_features, 0b0010);
    assert_eq!(t.read_status(), DeviceStatus::FeaturesOk);
}

#[test]
fn handshake_reaches_driver_ok() {
    let mut t = SimTransport::new(0, 128);
    begin_init(&mut t, 0).unwrap();
    finish_init(&mut t);
    assert_eq!(t.read_status(), DeviceStatus::DriverOk);
}

#[test]
fn device_refusing_accepted_subset_is_left_failed() {
    let mut t = SimTransport::new(0b1, 128);
    // The device insists on bit 0, which this driver does not support.
    t.required = 0b1;
    let r = begin_init(&mut t, 0);
    assert_eq!(r.err(), Some(VirtioError::NegotiationRejected));
    assert_eq!(t.read_status(), DeviceStatus::Failed);
}
