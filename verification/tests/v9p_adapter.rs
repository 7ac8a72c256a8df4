use virtio_queue::sim::SimHal;
use virtio_queue::sim::SimReply;
use virtio_queue::sim::SimTransport;
use virtio_queue::v9p::VirtIO9p;

#[test]
fn adapter_round_trip_reports_response_capacity() {
    let t = SimTransport::new(0, 4096);
    let mut dev = VirtIO9p::<SimHal, SimTransport>::new(t).expect("init should succeed");
    let request = [1u8, 2, 3, 4, 5, 6, 7, 8];
    let mut response = [0u8; 64];
    // The echo device reports the writable buffer's length.
    assert_eq!(dev.request(&request, &mut response), Ok(64));
}

#[test]
fn adapter_reports_fixed_device_length() {
    let mut t = SimTransport::new(0, 4096);
    t.reply = SimReply::Fixed(40);
    let mut dev = VirtIO9p::<SimHal, SimTransport>::new(t).unwrap();
    let request = [0u8; 8];
    let mut response = [0u8; 64];
    assert_eq!(dev.request(&request, &mut response), Ok(40));
}

#[test]
fn adapter_requests_repeat_without_leaking_descriptors() {
    let t = SimTransport::new(0, 4096);
    let mut dev = VirtIO9p::<SimHal, SimTransport>::new(t).unwrap();
    let request = [9u8; 16];
    for round in 0..40u32 {
        let mut response = vec![0u8; (round as usize % 7) + 1];
        assert_eq!(dev.request(&request, &mut response), Ok(response.len() as u32));
    }
}

#[test]
fn adapter_init_fails_on_too_small_device_queue() {
    // The adapter needs a queue of 16; the device only offers 8.
    let t = SimTransport::new(0, 8);
    let r = VirtIO9p::<SimHal, SimTransport>::new(t);
    assert_eq!(r.err(), Some(0u8));
}

#[test]
fn adapter_init_fails_when_device_rejects_features() {
    let mut t = SimTransport::new(0b1, 4096);
    t.required = 0b1;
    let r = VirtIO9p::<SimHal, SimTransport>::new(t);
    assert_eq!(r.err(), Some(0u8));
}

#[test]
fn adapter_failure_keeps_error_signal_zero() {
    let mut t = SimTransport::new(0, 4096);
    t.dormant = true;
    let mut dev = VirtIO9p::<SimHal, SimTransport>::new(t).unwrap();
    let request = [0u8; 4];
    let mut response = [0u8; 4];
    assert_eq!(dev.request(&request, &mut response), Err(0u8));
}
