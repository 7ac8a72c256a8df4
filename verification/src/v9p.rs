use vstd::prelude::*;

use core::marker::PhantomData;
use crate::hal::Hal;
use crate::queue::queue_wf;
use crate::queue::spec_alloc;
use crate::queue::spec_chain_published;
use crate::queue::FREE_MARK;
use crate::queue::spec_in_flight;
use crate::queue::spec_queue_size_ok;
use crate::queue::BufferDesc;
use crate::queue::QueueModel;
use crate::queue::UsedElem;
use crate::queue::VirtQueue;
use crate::transport::begin_init;
use crate::transport::finish_init;
use crate::transport::DeviceStatus;
use crate::transport::Transport;

verus! {

/// Feature bit: the device exports a mount tag in its configuration space.
pub const V9P_FEATURE_MOUNT_TAG: u64 = 1;

/// The feature subset this driver negotiates: none.
pub const V9P_SUPPORTED_FEATURES: u64 = 0;

/// The single request queue's index.
pub const V9P_QUEUE: u16 = 0;

/// The request queue's size.
pub const V9P_QUEUE_SIZE: u16 = 16;

/// The adapter's one collapsed error signal.
pub const UNDEFINED_ERROR: u8 = 0;

/// What a successful `request` did to the queue, reporting `len`: the
/// two-descriptor chain it submitted (headed by the descriptor popped first
/// from the free stack) was completed by the device with exactly `len`
/// bytes transferred, consumed from the used ring, and reclaimed.
pub open spec fn spec_request_completed(m0: QueueModel, m1: QueueModel, len: u32) -> bool {
    let head = spec_alloc(m0.free, 2)[0];
    &&& exists|j: int|
        m0.last_used <= j < m1.last_used && (#[trigger] m1.used[j]) == (UsedElem {
            id: head as u32,
            len,
        })
    &&& !spec_in_flight(m1, head)
}

/// A request's two-buffer chain stands published: the request bytes as one
/// device-readable buffer at device address `ra`, linking to the response
/// buffer as one device-writable buffer at `wa`, each with its exact
/// length, the head appended to the available ring and every other
/// descriptor untouched.
pub open spec fn spec_request_published(
    m0: QueueModel,
    m1: QueueModel,
    ra: u64,
    rlen: u32,
    wa: u64,
    wlen: u32,
) -> bool {
    spec_chain_published(
        m0,
        m1,
        seq![BufferDesc { addr: ra, len: rlen }],
        seq![BufferDesc { addr: wa, len: wlen }],
    )
}

/// Law: the device-reported length round-trips to the caller exactly,
/// neither clamped, recomputed nor offset. If every completion the device
/// publishes for a request's chain carries length `l` — an echo device
/// reports the writable buffer's length there — then a request over that
/// queue state that returned `Ok(len)` returned exactly `l`.
pub proof fn lemma_reported_length_round_trips(m0: QueueModel, m1: QueueModel, len: u32, l: u32)
    requires
        spec_request_completed(m0, m1, len),
        forall|j: int|
            0 <= j < m1.used.len() && (#[trigger] m1.used[j]).id == spec_alloc(m0.free, 2)[0]
                as u32 ==> m1.used[j].len == l,
        0 <= m0.last_used,
        m1.last_used <= m1.used.len(),
    ensures
        len == l,
{
    let head = spec_alloc(m0.free, 2)[0];
    let j = choose|j: int|
        m0.last_used <= j < m1.last_used && (#[trigger] m1.used[j]) == (UsedElem {
            id: head as u32,
            len,
        });
    assert(m1.used[j].len == l);
}

/// A filesystem-transport adapter over the queue engine.
///
/// It moves opaque request and response bytes between a kernel and the
/// hypervisor through one split virtqueue; the byte formats are the
/// collaborating filesystem's business, and the adapter never touches
/// descriptor indices itself.
pub struct VirtIO9p<H: Hal, T: Transport> {
    transport: T,
    queue: VirtQueue,
    hal: PhantomData<H>,
}

impl<H: Hal, T: Transport> View for VirtIO9p<H, T> {
    type V = QueueModel;

    closed spec fn view(&self) -> QueueModel {
        self.queue@
    }
}

impl<H: Hal, T: Transport> VirtIO9p<H, T> {
    /// The status the device currently holds, as this adapter's transport
    /// sees it.
    pub closed spec fn device_status(&self) -> DeviceStatus {
        self.transport.status()
    }

    /// The feature subset this driver wrote back at negotiation, immutable
    /// for the device's lifetime.
    pub closed spec fn negotiated_features(&self) -> u64 {
        self.transport.driver_features()
    }

    /// Creates a new adapter for a discovered device: negotiates features
    /// (this driver requests none), builds the request queue, and moves
    /// the device to a terminal status either way.
    pub fn new(transport: T) -> (r: Result<VirtIO9p<H, T>, u8>)
        requires
            transport.status() == DeviceStatus::Reset,
        ensures
            r matches Ok(d) ==> {
                &&& queue_wf(d@)
                &&& d@.size == V9P_QUEUE_SIZE
                &&& d@.free.len() == V9P_QUEUE_SIZE
                &&& d@.avail.len() == 0
                &&& d@.used.len() == 0
                &&& d@.last_used == 0
                &&& d.device_status() == DeviceStatus::DriverOk
                &&& d.negotiated_features() == 0
            },
            r matches Err(e) ==> e == UNDEFINED_ERROR,
            !spec_queue_size_ok(V9P_QUEUE_SIZE, transport.queue_max(V9P_QUEUE)) ==> r is Err,
    {
        let ghost offered0 = transport.offered_features();
        let mut transport = transport;
        match begin_init(&mut transport, V9P_SUPPORTED_FEATURES) {
            Ok(_negotiated) => {},
            Err(_) => {
                return Err(UNDEFINED_ERROR);
            },
        }
        proof {
            assert(offered0 & 0 == 0) by (bit_vector);
        }
        match VirtQueue::new(&mut transport, V9P_QUEUE, V9P_QUEUE_SIZE) {
            Ok(queue) => {
                finish_init(&mut transport);
                Ok(VirtIO9p { transport, queue, hal: PhantomData })
            },
            Err(_) => {
                finish_init(&mut transport);
                Err(UNDEFINED_ERROR)
            },
        }
    }

    /// Transmits the request bytes as one device-readable buffer and hands
    /// the device the response buffer as one device-writable buffer,
    /// synchronously: publish, notify, wait, pop.
    ///
    /// On success the result is exactly the response length the device
    /// reported for this request's chain, and both descriptors are back on
    /// the free list; any failure is the adapter's one error signal. The
    /// driver never writes the response buffer itself.
    ///
    /// Whatever the outcome: the queue keeps its size and index, the used
    /// log only grows and the cursor never rewinds, ownership is only ever
    /// released — a descriptor owned at exit is owned by the head that held
    /// it at entry, or by the chain submitted here — the negotiated feature
    /// set stands, and once published the two-descriptor chain's layout
    /// (request bytes first, linking to the device-writable response
    /// buffer, each with its exact length) survives on the descriptor table
    /// and available ring.
    pub fn request(&mut self, request: &[u8], response: &mut [u8]) -> (r: Result<u32, u8>)
        requires
            queue_wf(old(self)@),
            request@.len() <= u32::MAX,
            old(response)@.len() <= u32::MAX,
        ensures
            queue_wf(final(self)@),
            final(response)@ == old(response)@,
            final(self)@.size == old(self)@.size,
            final(self)@.queue_index == old(self)@.queue_index,
            old(self)@.used.is_prefix_of(final(self)@.used),
            final(self)@.last_used >= old(self)@.last_used,
            final(self).negotiated_features() == old(self).negotiated_features(),
            forall|i: int|
                0 <= i < old(self)@.size ==> (#[trigger] final(self)@.owner[i]) == FREE_MARK
                    || final(self)@.owner[i] == old(self)@.owner[i] || final(self)@.owner[i]
                    == spec_alloc(old(self)@.free, 2)[0],
            2 <= old(self)@.free.len() ==> exists|ra: u64, wa: u64|
                #[trigger] spec_request_published(
                    old(self)@,
                    final(self)@,
                    ra,
                    request@.len() as u32,
                    wa,
                    old(response)@.len() as u32,
                ),
            r matches Err(e) ==> e == UNDEFINED_ERROR,
            old(self)@.free.len() < 2 ==> r is Err && final(self)@ == old(self)@,
            r matches Ok(len) ==> spec_request_completed(old(self)@, final(self)@, len),
    {
        let req_addr = H::share(request);
        let resp_addr = H::share_mut(response);
        let mut readable: Vec<BufferDesc> = Vec::new();
        readable.push(BufferDesc { addr: req_addr, len: request.len() as u32 });
        let mut writable: Vec<BufferDesc> = Vec::new();
        writable.push(BufferDesc { addr: resp_addr, len: response.len() as u32 });
        let outcome = self.queue.add_notify_wait_pop(
            readable.as_slice(),
            writable.as_slice(),
            &mut self.transport,
        );
        H::unshare(req_addr);
        H::unshare(resp_addr);
        proof {
            assert(readable@ =~= seq![BufferDesc { addr: req_addr, len: request@.len() as u32 }]);
            assert(writable@ =~= seq![
                BufferDesc { addr: resp_addr, len: old(response)@.len() as u32 },
            ]);
            if 2 <= old(self)@.free.len() {
                assert(spec_request_published(
                    old(self)@,
                    self@,
                    req_addr,
                    request@.len() as u32,
                    resp_addr,
                    old(response)@.len() as u32,
                ));
            }
        }
        match outcome {
            Ok(len) => Ok(len),
            Err(_) => Err(UNDEFINED_ERROR),
        }
    }
}

} // verus!
