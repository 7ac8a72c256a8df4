use vstd::prelude::*;

use crate::hal::Hal;
use crate::queue::Descriptor;
use crate::queue::UsedElem;
use crate::queue::DESC_FLAG_NEXT;
use crate::queue::DESC_FLAG_WRITE;
use crate::transport::DeviceStatus;
use crate::transport::Transport;

verus! {

/// How the simulated device reports transferred byte counts.
#[derive(Clone, Copy, Debug, PartialEq, Eq, Structural)]
pub enum SimReply {
    /// Echo the total length of the chain's device-writable buffers.
    EchoWritable,
    /// Report the same fixed byte count for every completion.
    Fixed(u32),
}

/// An in-process device model: a transport whose device consumes every
/// chain published on the available ring and completes it on the used ring
/// while it is notified.
///
/// The device offers `offered` features and insists on `required` ones: it
/// refuses the `FeaturesOk` status write, falling to `Failed`, when the
/// accepted set lacks any bit of `required`. Queues up to `max_size` are
/// supported, and completions report lengths as `reply` says. When
/// `dormant` is set the device stops consuming chains, for exercising the
/// waiting path; when `corrupt` is set its completions name a descriptor
/// index that exists on no ring, for exercising the driver's validation.
pub struct SimTransport {
    pub offered: u64,
    pub required: u64,
    pub max_size: u16,
    pub reply: SimReply,
    pub dormant: bool,
    pub corrupt: bool,
    pub status_reg: DeviceStatus,
    pub driver_features: u64,
    pub avail_seen: usize,
    pub registered_size: u16,
    pub isr: bool,
}

impl SimTransport {
    /// A fresh device in reset: offers `offered`, requires nothing, echoes
    /// writable lengths, and supports queues up to `max_size`.
    pub fn new(offered: u64, max_size: u16) -> (r: SimTransport)
        ensures
            r.status() == DeviceStatus::Reset,
            r.offered_features() == offered,
            forall|q: u16| r.queue_max(q) == max_size,
            r.required == 0,
            r.reply == SimReply::EchoWritable,
            r.dormant == false,
            r.corrupt == false,
            r.avail_seen == 0,
    {
        SimTransport {
            offered,
            required: 0,
            max_size,
            reply: SimReply::EchoWritable,
            dormant: false,
            corrupt: false,
            status_reg: DeviceStatus::Reset,
            driver_features: 0,
            avail_seen: 0,
            registered_size: 0,
            isr: false,
        }
    }
}

/// The total length of the device-writable buffers of the chain headed at
/// `head`, read the way the device reads it: following `next` links through
/// the descriptor table, a bounded number of steps, saturating at the
/// largest reportable count.
fn chain_writable_len(desc: &Vec<Descriptor>, head: u16) -> (r: u32) {
    let n = desc.len();
    let mut total: u64 = 0;
    let mut cur: usize = head as usize;
    let mut steps: usize = 0;
    while steps < 32768 && cur < n
        invariant
            n == desc@.len(),
            total <= steps * 0xFFFF_FFFFu64,
            steps <= 32768,
        decreases 32768 - steps,
    {
        let d = desc[cur];
        if d.flags & DESC_FLAG_WRITE != 0 {
            total = total + d.len as u64;
        }
        steps = steps + 1;
        if d.flags & DESC_FLAG_NEXT != 0 {
            cur = d.next as usize;
        } else {
            break;
        }
    }
    if total > 0xFFFF_FFFFu64 {
        0xFFFF_FFFFu32
    } else {
        total as u32
    }
}

impl Transport for SimTransport {
    open spec fn offered_features(&self) -> u64 {
        self.offered
    }

    open spec fn status(&self) -> DeviceStatus {
        self.status_reg
    }

    open spec fn queue_max(&self, queue: u16) -> u16 {
        self.max_size
    }

    open spec fn driver_features(&self) -> u64 {
        self.driver_features
    }

    open spec fn interrupt_pending(&self) -> bool {
        self.isr
    }

    fn read_device_features(&mut self) -> (r: u64) {
        self.offered
    }

    fn write_driver_features(&mut self, features: u64) {
        self.driver_features = features;
    }

    fn read_status(&mut self) -> (r: DeviceStatus) {
        self.status_reg
    }

    fn set_status(&mut self, status: DeviceStatus) {
        if status == DeviceStatus::FeaturesOk && (self.driver_features & self.required)
            != self.required {
            self.status_reg = DeviceStatus::Failed;
        } else {
            self.status_reg = status;
        }
    }

    fn max_queue_size(&mut self, queue: u16) -> (r: u16) {
        self.max_size
    }

    fn register_queue(&mut self, queue: u16, size: u16) {
        self.registered_size = size;
    }

    fn notify(
        &mut self,
        queue: u16,
        desc: &Vec<Descriptor>,
        avail: &Vec<u16>,
        used: &mut Vec<UsedElem>,
    ) {
        if self.dormant {
            return ;
        }
        while self.avail_seen < avail.len()
            invariant
                old(used)@.is_prefix_of(used@),
                self.driver_features == old(self).driver_features,
            decreases avail@.len() - self.avail_seen,
        {
            let ghost before = used@;
            let head = avail[self.avail_seen];
            let len = match self.reply {
                SimReply::Fixed(v) => v,
                SimReply::EchoWritable => chain_writable_len(desc, head),
            };
            let id: u32 = if self.corrupt {
                0xFFFF_FFFF
            } else {
                head as u32
            };
            used.push(UsedElem { id, len });
            self.avail_seen = self.avail_seen + 1;
            self.isr = true;
            proof {
                assert(before.is_prefix_of(used@)) by {
                    assert(used@.subrange(0, before.len() as int) =~= before);
                }
            }
        }
    }

    fn read_isr_status(&mut self) -> (r: bool) {
        self.isr
    }

    fn ack_interrupt(&mut self) -> (r: bool) {
        let was = self.isr;
        self.isr = false;
        was
    }
}

/// A memory capability for hosted runs: the in-process device reads chains
/// straight from the descriptor table, so device addresses carry no
/// meaning and every buffer shares as address zero.
pub struct SimHal;

impl Hal for SimHal {
    fn share(buffer: &[u8]) -> (r: u64) {
        0
    }

    fn share_mut(buffer: &mut [u8]) -> (r: u64) {
        0
    }

    fn unshare(addr: u64) {
    }
}

} // verus!
