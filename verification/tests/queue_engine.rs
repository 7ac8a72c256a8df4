use virtio_queue::errors::VirtioError;
use virtio_queue::queue::BufferDesc;
use virtio_queue::queue::VirtQueue;
use virtio_queue::sim::SimReply;
use virtio_queue::sim::SimTransport;
use virtio_queue::transport::Transport;

fn buf(len: u32) -> BufferDesc {
    BufferDesc { addr: 0, len }
}

fn fresh_queue(size: u16, max: u16) -> (VirtQueue, SimTransport) {
    let mut t = SimTransport::new(0, max);
    let q = VirtQueue::new(&mut t, 0, size).expect("queue size should be accepted");
    (q, t)
}

#[test]
fn new_queue_starts_with_full_free_list() {
    let (q, _t) = fresh_queue(16, 128);
    assert_eq!(q.size(), 16);
    assert_eq!(q.num_free(), 16);
    assert_eq!(q.used_consumed(), 0);
}

#[test]
fn size_zero_fails_with_capacity_error() {
    let mut t = SimTransport::new(0, 128);
    let r = VirtQueue::new(&mut t, 0, 0);
    assert_eq!(r.err(), Some(VirtioError::QueueCapacity));
}

#[test]
fn non_power_of_two_size_fails_with_capacity_error() {
    let mut t = SimTransport::new(0, 128);
    assert_eq!(VirtQueue::new(&mut t, 0, 12).err(), Some(VirtioError::QueueCapacity));
    assert_eq!(VirtQueue::new(&mut t, 0, 40000).err(), Some(VirtioError::QueueCapacity));
}

#[test]
fn size_above_device_maximum_fails_not_clamps() {
    let mut t = SimTransport::new(0, 32);
    assert_eq!(VirtQueue::new(&mut t, 0, 64).err(), Some(VirtioError::QueueCapacity));
    // The boundary itself is fine.
    assert!(VirtQueue::new(&mut t, 0, 32).is_ok());
}

#[test]
fn device_maximum_zero_fails() {
    let mut t = SimTransport::new(0, 0);
    assert_eq!(VirtQueue::new(&mut t, 0, 8).err(), Some(VirtioError::QueueCapacity));
}

#[test]
fn free_list_accounts_for_every_outstanding_descriptor() {
    let (mut q, mut t) = fresh_queue(16, 128);
    let h1 = q.add(&[buf(8), buf(4)], &[buf(64)]).unwrap();
    assert_eq!(q.num_free(), 13);
    let h2 = q.add(&[buf(1)], &[]).unwrap();
    assert_eq!(q.num_free(), 12);
    assert!(q.is_in_flight(h1));
    assert!(q.is_in_flight(h2));
    q.notify(&mut t);
    // Both chains complete; every descriptor returns to the free list.
    assert!(q.pop_used().unwrap().is_some());
    assert!(q.pop_used().unwrap().is_some());
    assert_eq!(q.num_free(), 16);
    assert!(!q.is_in_flight(h1));
    assert!(!q.is_in_flight(h2));
}

#[test]
fn add_without_enough_free_descriptors_fails_whole() {
    let (mut q, _t) = fresh_queue(4, 128);
    q.add(&[buf(1)], &[buf(2), buf(3)]).unwrap();
    assert_eq!(q.num_free(), 1);
    // Two buffers, one free descriptor: refused, and nothing committed.
    let r = q.add(&[buf(4)], &[buf(5)]);
    assert_eq!(r.err(), Some(VirtioError::QueueCapacity));
    assert_eq!(q.num_free(), 1);
    // A one-buffer chain still fits.
    assert!(q.add(&[], &[buf(6)]).is_ok());
    assert_eq!(q.num_free(), 0);
    // Now even one buffer is refused.
    assert_eq!(q.add(&[buf(7)], &[]).err(), Some(VirtioError::QueueCapacity));
}

#[test]
fn completion_pops_exactly_once() {
    let (mut q, mut t) = fresh_queue(8, 128);
    let head = q.add(&[buf(3)], &[buf(5)]).unwrap();
    q.notify(&mut t);
    let popped = q.pop_used().unwrap();
    assert_eq!(popped, Some((head, 5)));
    // No new device activity: the same completion cannot be seen again.
    assert_eq!(q.pop_used().unwrap(), None);
    assert_eq!(q.pop_used().unwrap(), None);
}

#[test]
fn echo_device_round_trip_returns_writable_length() {
    let (mut q, mut t) = fresh_queue(16, 128);
    let len = q
        .add_notify_wait_pop(&[buf(8)], &[buf(64)], &mut t)
        .expect("echo device must complete the chain");
    assert_eq!(len, 64);
    assert_eq!(q.num_free(), 16);
}

#[test]
fn echo_device_sums_all_writable_buffers() {
    let (mut q, mut t) = fresh_queue(16, 128);
    let len = q.add_notify_wait_pop(&[buf(100)], &[buf(10), buf(30)], &mut t).unwrap();
    assert_eq!(len, 40);
}

#[test]
fn scenario_sixteen_slot_queue_reports_forty_bytes() {
    let mut t = SimTransport::new(0, 4096);
    let mut q = VirtQueue::new(&mut t, 0, 16).unwrap();
    t.reply = SimReply::Fixed(40);
    let len = q.add_notify_wait_pop(&[buf(8)], &[buf(64)], &mut t).unwrap();
    assert_eq!(len, 40);
    // Both descriptors are back on the free list.
    assert_eq!(q.num_free(), 16);
}

#[test]
fn wait_on_dormant_device_is_a_transport_failure() {
    let (mut q, mut t) = fresh_queue(8, 128);
    t.dormant = true;
    let r = q.add_notify_wait_pop(&[buf(1)], &[buf(2)], &mut t);
    assert_eq!(r.err(), Some(VirtioError::TransportFailure));
}

#[test]
fn wait_with_full_queue_is_a_capacity_failure() {
    let (mut q, mut t) = fresh_queue(4, 128);
    q.add(&[buf(1), buf(2), buf(3), buf(4)], &[]).unwrap();
    let r = q.add_notify_wait_pop(&[buf(5)], &[], &mut t);
    assert_eq!(r.err(), Some(VirtioError::QueueCapacity));
}

#[test]
fn corrupt_completion_is_a_protocol_violation() {
    let (mut q, mut t) = fresh_queue(8, 128);
    t.corrupt = true;
    q.add(&[buf(1)], &[buf(2)]).unwrap();
    q.notify(&mut t);
    assert_eq!(q.pop_used().err(), Some(VirtioError::ProtocolViolation));
    // Nothing was consumed and nothing reclaimed.
    assert_eq!(q.num_free(), 6);
    assert_eq!(q.used_consumed(), 0);
}

#[test]
fn completion_raises_and_ack_clears_the_interrupt() {
    let (mut q, mut t) = fresh_queue(8, 128);
    assert!(!t.read_isr_status());
    q.add(&[buf(1)], &[buf(2)]).unwrap();
    q.notify(&mut t);
    assert!(t.read_isr_status());
    assert!(t.ack_interrupt());
    assert!(!t.read_isr_status());
    assert!(!t.ack_interrupt());
}

#[test]
fn batched_adds_complete_in_publication_order() {
    let (mut q, mut t) = fresh_queue(8, 128);
    let h1 = q.add(&[buf(1)], &[buf(10)]).unwrap();
    let h2 = q.add(&[buf(2)], &[buf(20)]).unwrap();
    q.notify(&mut t);
    assert_eq!(q.pop_used().unwrap(), Some((h1, 10)));
    assert_eq!(q.pop_used().unwrap(), Some((h2, 20)));
    assert_eq!(q.pop_used().unwrap(), None);
}
