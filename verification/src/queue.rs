use vstd::prelude::*;

use crate::errors::VirtioError;
use crate::transport::Transport;

verus! {

/// Largest queue size this driver supports.
pub const MAX_QUEUE_SIZE: u16 = 32768;

/// Descriptor flag: the chain continues in the descriptor named by `next`.
pub const DESC_FLAG_NEXT: u16 = 1;

/// Descriptor flag: the device writes this buffer; absent, it only reads it.
pub const DESC_FLAG_WRITE: u16 = 2;

/// Owner-table marker for a descriptor that sits on the free list.
///
/// Chain heads are descriptor indices and so always below [`MAX_QUEUE_SIZE`];
/// the marker can never collide with one.
pub const FREE_MARK: u16 = 0xFFFF;

/// One slot of the descriptor table: the device address and length of one
/// buffer, direction and chaining flags, and the index of the next
/// descriptor of the chain when `DESC_FLAG_NEXT` is set.
#[derive(Clone, Copy, Debug, PartialEq, Eq, Structural)]
pub struct Descriptor {
    pub addr: u64,
    pub len: u32,
    pub flags: u16,
    pub next: u16,
}

/// One completion entry of the used ring: the head descriptor index of the
/// completed chain and the byte count the device reports transferred.
#[derive(Clone, Copy, Debug, PartialEq, Eq, Structural)]
pub struct UsedElem {
    pub id: u32,
    pub len: u32,
}

/// The device address and length of one buffer to be placed in a chain.
#[derive(Clone, Copy, Debug, PartialEq, Eq, Structural)]
pub struct BufferDesc {
    pub addr: u64,
    pub len: u32,
}

/// The mathematical model of a queue: the descriptor table, the free list,
/// the owner table (which chain head, if any, holds each descriptor), and
/// the two rings as the logs of everything ever published on them, with the
/// driver's consumption cursor into the used log.
pub struct QueueModel {
    pub size: int,
    pub queue_index: u16,
    pub desc: Seq<Descriptor>,
    pub free: Seq<u16>,
    pub owner: Seq<u16>,
    pub avail: Seq<u16>,
    pub used: Seq<UsedElem>,
    pub last_used: int,
}

/// The ring invariants: the free list holds valid, distinct indices whose
/// owner slot is the free marker; every descriptor marked free is on the
/// free list; every owned descriptor names a live chain head; published
/// heads are valid indices; and the driver's cursor never passes the
/// device's.
///
/// The free-list clauses and the owner clauses together say that the free
/// list and the outstanding chains partition the descriptor space: no
/// descriptor is both free and held by a chain, and none is lost.
pub open spec fn queue_wf(m: QueueModel) -> bool {
    &&& 1 <= m.size <= MAX_QUEUE_SIZE
    &&& m.desc.len() == m.size
    &&& m.owner.len() == m.size
    &&& m.free.no_duplicates()
    &&& forall|j: int|
        0 <= j < m.free.len() ==> (#[trigger] m.free[j]) < m.size && m.owner[m.free[j] as int]
            == FREE_MARK
    &&& forall|i: int|
        0 <= i < m.size && (#[trigger] m.owner[i]) == FREE_MARK ==> m.free.contains(i as u16)
    &&& forall|i: int|
        0 <= i < m.size && (#[trigger] m.owner[i]) != FREE_MARK ==> m.owner[i] < m.size
            && m.owner[m.owner[i] as int] == m.owner[i]
    &&& forall|j: int| 0 <= j < m.avail.len() ==> (#[trigger] m.avail[j]) < m.size
    &&& 0 <= m.last_used <= m.used.len()
}

/// A head has a chain outstanding exactly when its own slot carries it as
/// owner.
pub open spec fn spec_in_flight(m: QueueModel, head: u16) -> bool {
    head < m.size && m.owner[head as int] == head
}

/// A queue size is usable when both it and the device-offered maximum are
/// nonzero powers of two, and it exceeds neither the device's maximum nor
/// the driver's.
pub open spec fn spec_queue_size_ok(size: u16, device_max: u16) -> bool {
    &&& size != 0 && spec_is_power_of_two(size)
    &&& device_max != 0 && spec_is_power_of_two(device_max)
    &&& size <= device_max
    &&& size <= MAX_QUEUE_SIZE
}

/// Exactly the powers of two a 16-bit size can be.
pub open spec fn spec_is_power_of_two(s: u16) -> bool {
    ||| s == 1
    ||| s == 2
    ||| s == 4
    ||| s == 8
    ||| s == 16
    ||| s == 32
    ||| s == 64
    ||| s == 128
    ||| s == 256
    ||| s == 512
    ||| s == 1024
    ||| s == 2048
    ||| s == 4096
    ||| s == 8192
    ||| s == 16384
    ||| s == 32768
}

/// Checks whether a value is a nonzero power of two, the usual way: a
/// power of two has no bit in common with its predecessor.
pub fn is_power_of_two(s: u16) -> (r: bool)
    ensures
        r == spec_is_power_of_two(s),
{
    if s == 0 {
        false
    } else {
        let masked = s & (s - 1);
        proof {
            assert((s != 0 && s & ((s - 1) as u16) == 0) <==> (s == 1 || s == 2 || s == 4 || s == 8
                || s == 16 || s == 32 || s == 64 || s == 128 || s == 256 || s == 512 || s == 1024
                || s == 2048 || s == 4096 || s == 8192 || s == 16384 || s == 32768))
                by (bit_vector);
        }
        masked == 0
    }
}

/// The descriptor indices a successful `add` takes, in chain order: the
/// free list is a stack, popped from its end.
pub open spec fn spec_alloc(free: Seq<u16>, total: int) -> Seq<u16> {
    Seq::new(total as nat, |k: int| free[free.len() - 1 - k])
}

/// The descriptor written for position `k` of a chain over the buffers
/// `bufs` (the first `readable_len` of them device-readable, the rest
/// device-writable), whose slots are the indices `alloc`.
pub open spec fn spec_chain_descriptor(
    k: int,
    bufs: Seq<BufferDesc>,
    readable_len: int,
    alloc: Seq<u16>,
) -> Descriptor {
    Descriptor {
        addr: bufs[k].addr,
        len: bufs[k].len,
        flags: ((if k >= readable_len {
            DESC_FLAG_WRITE
        } else {
            0
        }) + (if k + 1 < bufs.len() {
            DESC_FLAG_NEXT
        } else {
            0
        })) as u16,
        next: if k + 1 < bufs.len() {
            alloc[k + 1]
        } else {
            0
        },
    }
}

/// What a successful `add` did: the last `total` free-list entries became a
/// chain headed by `head`, readable buffers before writable ones, the head
/// was published on the available ring, and nothing else moved.
pub open spec fn spec_add_effect(
    m0: QueueModel,
    m1: QueueModel,
    readable: Seq<BufferDesc>,
    writable: Seq<BufferDesc>,
    head: u16,
) -> bool {
    let total = readable.len() + writable.len();
    let alloc = spec_alloc(m0.free, total as int);
    let bufs = readable + writable;
    &&& total <= m0.free.len()
    &&& head == alloc[0]
    &&& m1.free == m0.free.take(m0.free.len() - total)
    &&& forall|k: int| 0 <= k < total ==> m1.owner[(#[trigger] alloc[k]) as int] == head
    &&& forall|k: int|
        0 <= k < total ==> m1.desc[(#[trigger] alloc[k]) as int] == spec_chain_descriptor(
            k,
            bufs,
            readable.len() as int,
            alloc,
        )
    &&& forall|i: int|
        0 <= i < m0.size && !alloc.contains(i as u16) ==> (#[trigger] m1.owner[i]) == m0.owner[i]
    &&& forall|i: int|
        0 <= i < m0.size && !alloc.contains(i as u16) ==> (#[trigger] m1.desc[i]) == m0.desc[i]
    &&& m1.avail == m0.avail.push(head)
    &&& m1.used == m0.used
    &&& m1.last_used == m0.last_used
    &&& m1.size == m0.size
    &&& m1.queue_index == m0.queue_index
    &&& spec_in_flight(m1, head)
}

/// What survives of a published chain after any run of completions: the
/// head stands appended to the available ring, and the descriptor table
/// still holds the chain's layout — readable buffers first, each linking to
/// the next, then writable ones carrying the write flag — with every other
/// slot untouched. `add` establishes this and neither notification nor
/// consumption disturbs it.
pub open spec fn spec_chain_published(
    m0: QueueModel,
    m1: QueueModel,
    readable: Seq<BufferDesc>,
    writable: Seq<BufferDesc>,
) -> bool {
    let total = readable.len() + writable.len();
    let alloc = spec_alloc(m0.free, total as int);
    let bufs = readable + writable;
    &&& m1.avail == m0.avail.push(alloc[0])
    &&& forall|k: int|
        0 <= k < total ==> m1.desc[(#[trigger] alloc[k]) as int] == spec_chain_descriptor(
            k,
            bufs,
            readable.len() as int,
            alloc,
        )
    &&& forall|i: int|
        0 <= i < m0.size && !alloc.contains(i as u16) ==> (#[trigger] m1.desc[i]) == m0.desc[i]
}

/// A used-ring entry is valid when it names a descriptor index the driver
/// holds as the head of an outstanding chain.
pub open spec fn spec_used_entry_valid(m: QueueModel, entry: UsedElem) -> bool {
    entry.id < m.size && m.owner[entry.id as int] == entry.id
}

/// The descriptor indices owned by head `h` among the first `n` slots, in
/// ascending order: what a completion of `h`'s chain returns to the free
/// list.
pub open spec fn owned_upto(owner: Seq<u16>, h: u16, n: int) -> Seq<u16>
    decreases n,
{
    if n <= 0 {
        Seq::empty()
    } else {
        owned_upto(owner, h, n - 1) + (if owner[n - 1] == h {
            seq![(n - 1) as u16]
        } else {
            Seq::<u16>::empty()
        })
    }
}

/// The elements of `owned_upto` are exactly the slots below `n` owned by
/// `h`, listed in strictly ascending order and so without duplicates.
pub proof fn lemma_owned_upto_props(owner: Seq<u16>, h: u16, n: int)
    requires
        0 <= n <= u16::MAX,
    ensures
        forall|j: int|
            0 <= j < owned_upto(owner, h, n).len() ==> (#[trigger] owned_upto(owner, h, n)[j])
                < n && owner[owned_upto(owner, h, n)[j] as int] == h,
        forall|a: int, b: int|
            0 <= a < b < owned_upto(owner, h, n).len() ==> owned_upto(owner, h, n)[a]
                < owned_upto(owner, h, n)[b],
        owned_upto(owner, h, n).no_duplicates(),
        forall|i: int| 0 <= i < n && owner[i] == h ==> owned_upto(owner, h, n).contains(i as u16),
    decreases n,
{
    if n > 0 {
        lemma_owned_upto_props(owner, h, n - 1);
        let prev = owned_upto(owner, h, n - 1);
        let cur = owned_upto(owner, h, n);
        assert forall|i: int| 0 <= i < n && owner[i] == h implies cur.contains(i as u16) by {
            if i < n - 1 {
                let w = choose|w: int| 0 <= w < prev.len() && prev[w] == i as u16;
                assert(cur[w] == i as u16);
            } else {
                assert(cur[cur.len() - 1] == i as u16);
            }
        }
        assert(cur.no_duplicates()) by {
            assert(forall|a: int, b: int| 0 <= a < b < cur.len() ==> cur[a] < cur[b]);
        }
    }
}

/// The number of free slots among the first `n` owner entries.
pub open spec fn free_count(owner: Seq<u16>, n: int) -> int
    decreases n,
{
    if n <= 0 {
        0
    } else {
        free_count(owner, n - 1) + (if owner[n - 1] == FREE_MARK {
            1int
        } else {
            0int
        })
    }
}

/// The number of slots held by outstanding chains among the first `n`
/// owner entries.
pub open spec fn lent_count(owner: Seq<u16>, n: int) -> int
    decreases n,
{
    if n <= 0 {
        0
    } else {
        lent_count(owner, n - 1) + (if owner[n - 1] == FREE_MARK {
            0int
        } else {
            1int
        })
    }
}

/// The set of free slots among the first `n` owner entries.
pub open spec fn free_slot_set(owner: Seq<u16>, n: int) -> Set<u16> {
    Set::new(|x: u16| 0 <= (x as int) < n && owner[x as int] == FREE_MARK)
}

proof fn lemma_free_count_is_cardinality(owner: Seq<u16>, n: int)
    requires
        0 <= n <= u16::MAX,
    ensures
        free_slot_set(owner, n).finite(),
        free_slot_set(owner, n).len() == free_count(owner, n),
    decreases n,
{
    broadcast use vstd::set::group_set_axioms;

    if n == 0 {
        assert(free_slot_set(owner, 0) =~= Set::<u16>::empty());
    } else {
        lemma_free_count_is_cardinality(owner, n - 1);
        if owner[n - 1] == FREE_MARK {
            assert(free_slot_set(owner, n) =~= free_slot_set(owner, n - 1).insert((n - 1) as u16));
            assert(!free_slot_set(owner, n - 1).contains((n - 1) as u16));
        } else {
            assert(free_slot_set(owner, n) =~= free_slot_set(owner, n - 1));
        }
    }
}

proof fn lemma_counts_partition(owner: Seq<u16>, n: int)
    requires
        0 <= n,
    ensures
        free_count(owner, n) + lent_count(owner, n) == n,
    decreases n,
{
    if n > 0 {
        lemma_counts_partition(owner, n - 1);
    }
}

/// Law: at every observation point, the free-list length plus the number of
/// descriptors held by outstanding chains equals the queue size — no
/// descriptor leaks and none is allocated twice. The invariants already
/// force the free list and the chains to be disjoint; this counts them.
pub proof fn lemma_descriptor_conservation(m: QueueModel)
    requires
        queue_wf(m),
    ensures
        m.free.len() + lent_count(m.owner, m.size) == m.size,
{
    broadcast use vstd::set::group_set_axioms;

    lemma_free_count_is_cardinality(m.owner, m.size);
    lemma_counts_partition(m.owner, m.size);
    assert(m.free.to_set() =~= free_slot_set(m.owner, m.size)) by {
        assert forall|x: u16| m.free.to_set().contains(x) implies free_slot_set(
            m.owner,
            m.size,
        ).contains(x) by {
            let w = choose|w: int| 0 <= w < m.free.len() && m.free[w] == x;
            assert(m.free[w] < m.size && m.owner[m.free[w] as int] == FREE_MARK);
        }
        assert forall|x: u16| free_slot_set(m.owner, m.size).contains(x) implies m.free.to_set()
            .contains(x) by {
            assert(m.free.contains(x));
        }
    }
    m.free.unique_seq_to_set();
}

proof fn lemma_lent_count_zero(owner: Seq<u16>, n: int)
    requires
        0 <= n,
        forall|i: int| 0 <= i < n ==> owner[i] == FREE_MARK,
    ensures
        lent_count(owner, n) == 0,
    decreases n,
{
    if n > 0 {
        lemma_lent_count_zero(owner, n - 1);
    }
}

/// Law: when no descriptor is owned by any chain, the free list holds the
/// whole index space again — the shape a queue returns to once everything
/// submitted has completed.
pub proof fn lemma_all_free_full_list(m: QueueModel)
    requires
        queue_wf(m),
        forall|i: int| 0 <= i < m.size ==> m.owner[i] == FREE_MARK,
    ensures
        m.free.len() == m.size,
{
    lemma_descriptor_conservation(m);
    lemma_lent_count_zero(m.owner, m.size);
}

/// One split virtqueue: the descriptor table, the free list, the owner
/// table tracking which chain head holds each descriptor, both rings, and
/// the driver's cursor into the used ring. The driver owns all of it; the
/// device sees the descriptor table and the available ring, and appends to
/// the used ring, only while it is notified.
pub struct VirtQueue {
    size: u16,
    queue_index: u16,
    desc: Vec<Descriptor>,
    free: Vec<u16>,
    owner: Vec<u16>,
    avail: Vec<u16>,
    used: Vec<UsedElem>,
    last_used: usize,
}

impl View for VirtQueue {
    type V = QueueModel;

    closed spec fn view(&self) -> QueueModel {
        QueueModel {
            size: self.size as int,
            queue_index: self.queue_index,
            desc: self.desc@,
            free: self.free@,
            owner: self.owner@,
            avail: self.avail@,
            used: self.used@,
            last_used: self.last_used as int,
        }
    }
}

impl VirtQueue {
    /// The ring invariants, over the queue's model.
    pub open spec fn wf(&self) -> bool {
        queue_wf(self@)
    }

    /// Reads geometry from the transport, builds the descriptor table, the
    /// full free list and both (empty) rings, and registers the queue.
    ///
    /// Fails with a capacity error — and builds nothing — when the
    /// requested size is zero, not a power of two, or larger than what the
    /// device or this driver supports; sizes are never silently clamped.
    pub fn new<T: Transport>(transport: &mut T, queue_index: u16, size: u16) -> (r: Result<
        VirtQueue,
        VirtioError,
    >)
        ensures
            final(transport).status() == old(transport).status(),
            final(transport).offered_features() == old(transport).offered_features(),
            final(transport).driver_features() == old(transport).driver_features(),
            forall|q: u16| final(transport).queue_max(q) == old(transport).queue_max(q),
            r is Ok <==> spec_queue_size_ok(size, old(transport).queue_max(queue_index)),
            r matches Ok(q) ==> {
                &&& q.wf()
                &&& q@.size == size
                &&& q@.queue_index == queue_index
                &&& q@.free.len() == size
                &&& forall|j: int| 0 <= j < size ==> (#[trigger] q@.free[j]) == j as u16
                &&& forall|i: int| 0 <= i < size ==> (#[trigger] q@.owner[i]) == FREE_MARK
                &&& q@.avail == Seq::<u16>::empty()
                &&& q@.used == Seq::<UsedElem>::empty()
                &&& q@.last_used == 0
            },
            r matches Err(e) ==> e == VirtioError::QueueCapacity,
    {
        let device_max = transport.max_queue_size(queue_index);
        if !(is_power_of_two(size) && is_power_of_two(device_max) && size <= device_max && size
            <= MAX_QUEUE_SIZE) {
            return Err(VirtioError::QueueCapacity);
        }
        let mut desc: Vec<Descriptor> = Vec::new();
        let mut free: Vec<u16> = Vec::new();
        let mut owner: Vec<u16> = Vec::new();
        let mut i: u16 = 0;
        while i < size
            invariant
                i <= size,
                desc@.len() == i,
                free@.len() == i,
                owner@.len() == i,
                forall|j: int| 0 <= j < i ==> (#[trigger] free@[j]) == j as u16,
                forall|j: int| 0 <= j < i ==> (#[trigger] owner@[j]) == FREE_MARK,
            decreases size - i,
        {
            desc.push(Descriptor { addr: 0, len: 0, flags: 0, next: 0 });
            free.push(i);
            owner.push(FREE_MARK);
            i = i + 1;
        }
        transport.register_queue(queue_index, size);
        let queue = VirtQueue {
            size,
            queue_index,
            desc,
            free,
            owner,
            avail: Vec::new(),
            used: Vec::new(),
            last_used: 0,
        };
        proof {
            let m = queue@;
            assert forall|i2: int|
                0 <= i2 < m.size && (#[trigger] m.owner[i2]) == FREE_MARK implies m.free.contains(
                i2 as u16,
            ) by {
                assert(m.free[i2] == i2 as u16);
            }
        }
        Ok(queue)
    }

    /// Allocates one descriptor per buffer from the free list, chains them —
    /// readable buffers before writable ones — writes addresses, lengths and
    /// flags, and publishes the chain head on the available ring.
    ///
    /// Fails with a capacity error, committing nothing, when fewer free
    /// descriptors remain than buffers were handed in: the reservation is
    /// all-or-nothing, so a failed `add` leaves the queue exactly as it was.
    pub fn add(&mut self, readable: &[BufferDesc], writable: &[BufferDesc]) -> (r: Result<
        u16,
        VirtioError,
    >)
        requires
            old(self).wf(),
            readable@.len() + writable@.len() >= 1,
        ensures
            final(self).wf(),
            (r is Ok) <==> readable@.len() + writable@.len() <= old(self)@.free.len(),
            r matches Ok(head) ==> spec_add_effect(old(self)@, final(self)@, readable@, writable@, head),
            r matches Err(e) ==> e == VirtioError::QueueCapacity && final(self)@ == old(self)@,
    {
        let r_len = readable.len();
        let w_len = writable.len();
        let free_len = self.free.len();
        if r_len > free_len || w_len > free_len - r_len {
            return Err(VirtioError::QueueCapacity);
        }
        let total = r_len + w_len;
        let ghost m0 = self@;
        let ghost alloc_s = spec_alloc(m0.free, total as int);
        let ghost bufs = readable@ + writable@;

        // Pop the reserved indices off the free stack, in chain order.
        let mut alloc: Vec<u16> = Vec::new();
        let mut k: usize = 0;
        while k < total
            invariant
                k <= total,
                total <= m0.free.len(),
                alloc@.len() == k,
                self@.free == m0.free.take(m0.free.len() - k),
                forall|j: int| 0 <= j < k ==> (#[trigger] alloc@[j]) == alloc_s[j],
                self@.desc == m0.desc,
                self@.owner == m0.owner,
                self@.avail == m0.avail,
                self@.used == m0.used,
                self@.last_used == m0.last_used,
                self@.size == m0.size,
                self@.queue_index == m0.queue_index,
                alloc_s == spec_alloc(m0.free, total as int),
            decreases total - k,
        {
            let idx = self.free.pop().unwrap();
            proof {
                assert(m0.free.take(m0.free.len() - k).len() == m0.free.len() - k);
                assert(idx == m0.free[m0.free.len() - 1 - k]);
                assert(m0.free.take(m0.free.len() - k).take(m0.free.len() - (k + 1))
                    =~= m0.free.take(m0.free.len() - (k + 1)));
            }
            alloc.push(idx);
            k = k + 1;
        }
        let head = alloc[0];

        proof {
            // The reserved indices are distinct, valid, and were all free.
            assert forall|a: int, b: int| 0 <= a < b < total implies alloc_s[a] != alloc_s[b] by {
                assert(m0.free[m0.free.len() - 1 - a] != m0.free[m0.free.len() - 1 - b]);
            }
            assert forall|j: int| 0 <= j < total implies (#[trigger] alloc_s[j]) < m0.size
                && m0.owner[alloc_s[j] as int] == FREE_MARK by {
                assert(m0.free[m0.free.len() - 1 - j] < m0.size);
            }
        }

        // Write the descriptors and record the chain's owner.
        let mut k: usize = 0;
        while k < total
            invariant
                k <= total,
                total <= m0.free.len(),
                total == readable@.len() + writable@.len(),
                r_len == readable@.len(),
                alloc@.len() == total,
                forall|j: int| 0 <= j < total ==> (#[trigger] alloc@[j]) == alloc_s[j],
                forall|a: int, b: int| 0 <= a < b < total ==> alloc_s[a] != alloc_s[b],
                forall|j: int|
                    0 <= j < total ==> (#[trigger] alloc_s[j]) < m0.size && m0.owner[alloc_s[j] as int]
                        == FREE_MARK,
                head == alloc_s[0],
                queue_wf(m0),
                self@.size == m0.size,
                self@.queue_index == m0.queue_index,
                self@.desc.len() == m0.size,
                self@.owner.len() == m0.size,
                self@.free == m0.free.take(m0.free.len() - total),
                self@.avail == m0.avail,
                self@.used == m0.used,
                self@.last_used == m0.last_used,
                forall|j: int| 0 <= j < k ==> self@.owner[(#[trigger] alloc_s[j]) as int] == head,
                forall|j: int|
                    0 <= j < k ==> self@.desc[(#[trigger] alloc_s[j]) as int]
                        == spec_chain_descriptor(j, bufs, r_len as int, alloc_s),
                forall|i: int|
                    0 <= i < m0.size && !alloc_s.contains(i as u16) ==> (#[trigger] self@.owner[i])
                        == m0.owner[i],
                forall|i: int|
                    0 <= i < m0.size && !alloc_s.contains(i as u16) ==> (#[trigger] self@.desc[i])
                        == m0.desc[i],
                bufs == readable@ + writable@,
                alloc_s == spec_alloc(m0.free, total as int),
            decreases total - k,
        {
            let ghost s_pre = self@;
            let idx = alloc[k];
            let buf = if k < r_len {
                *vstd::slice::slice_index_get(readable, k)
            } else {
                *vstd::slice::slice_index_get(writable, k - r_len)
            };
            let has_next = k + 1 < total;
            let flags: u16 = if k >= r_len {
                if has_next {
                    DESC_FLAG_WRITE + DESC_FLAG_NEXT
                } else {
                    DESC_FLAG_WRITE
                }
            } else {
                if has_next {
                    DESC_FLAG_NEXT
                } else {
                    0
                }
            };
            let next: u16 = if has_next {
                alloc[k + 1]
            } else {
                0
            };
            self.desc.set(idx as usize, Descriptor { addr: buf.addr, len: buf.len, flags, next });
            self.owner.set(idx as usize, head);
            proof {
                assert(bufs.len() == total);
                if k < r_len {
                    assert(bufs[k as int] == readable@[k as int]);
                } else {
                    assert(bufs[k as int] == writable@[k as int - r_len]);
                }
                assert(self@.desc[alloc_s[k as int] as int] == spec_chain_descriptor(
                    k as int,
                    bufs,
                    r_len as int,
                    alloc_s,
                ));
                assert forall|i: int|
                    0 <= i < m0.size && !alloc_s.contains(i as u16) implies (#[trigger] self@.owner[
                i]) == m0.owner[i] by {
                    assert(i != idx as int) by {
                        if i == idx as int {
                            assert(alloc_s[k as int] == i as u16);
                        }
                    }
                    assert(s_pre.owner[i] == m0.owner[i]);
                    assert(self@.owner[i] == s_pre.owner[i]);
                }
                assert forall|i: int|
                    0 <= i < m0.size && !alloc_s.contains(i as u16) implies (#[trigger] self@.desc[
                i]) == m0.desc[i] by {
                    assert(i != idx as int) by {
                        if i == idx as int {
                            assert(alloc_s[k as int] == i as u16);
                        }
                    }
                    assert(s_pre.desc[i] == m0.desc[i]);
                    assert(self@.desc[i] == s_pre.desc[i]);
                }
            }
            k = k + 1;
        }
        self.avail.push(head);

        proof {
            let m1 = self@;
            assert(alloc_s.subrange(0, total as int) =~= alloc_s);
            // Indices outside the reserved set kept their owner and descriptor.
            assert forall|i: int|
                0 <= i < m0.size && !alloc_s.contains(i as u16) implies (#[trigger] m1.owner[i])
                == m0.owner[i] by {}
            assert forall|i: int|
                0 <= i < m0.size && !alloc_s.contains(i as u16) implies (#[trigger] m1.desc[i])
                == m0.desc[i] by {}
            // The head is in flight: it is the first reserved index.
            assert(m1.owner[alloc_s[0] as int] == head);
            // Re-establish the invariants.
            assert(m1.free.no_duplicates());
            assert forall|j: int|
                0 <= j < m1.free.len() implies (#[trigger] m1.free[j]) < m1.size
                && m1.owner[m1.free[j] as int] == FREE_MARK by {
                assert(m1.free[j] == m0.free[j]);
                assert(!alloc_s.contains(m0.free[j])) by {
                    if alloc_s.contains(m0.free[j]) {
                        let w = choose|w: int| 0 <= w < total && alloc_s[w] == m0.free[j];
                        assert(m0.free[m0.free.len() - 1 - w] == m0.free[j]);
                        assert(m0.free.len() - 1 - w >= m0.free.len() - total);
                    }
                }
            }
            assert forall|i: int|
                0 <= i < m1.size && (#[trigger] m1.owner[i]) == FREE_MARK implies m1.free.contains(
                i as u16,
            ) by {
                assert(!alloc_s.contains(i as u16)) by {
                    if alloc_s.contains(i as u16) {
                        let w = choose|w: int| 0 <= w < total && alloc_s[w] == i as u16;
                        assert(m1.owner[(alloc_s[w]) as int] == head);
                        assert(head < m0.size <= MAX_QUEUE_SIZE);
                    }
                }
                assert(m0.owner[i] == FREE_MARK);
                assert(m0.free.contains(i as u16));
                let w = choose|w: int| 0 <= w < m0.free.len() && m0.free[w] == i as u16;
                assert(w < m0.free.len() - total) by {
                    if w >= m0.free.len() - total {
                        let j = m0.free.len() - 1 - w;
                        assert(alloc_s[j] == m0.free[w]);
                    }
                }
                assert(m1.free[w] == i as u16);
            }
            assert forall|i: int|
                0 <= i < m1.size && (#[trigger] m1.owner[i]) != FREE_MARK implies m1.owner[i]
                < m1.size && m1.owner[m1.owner[i] as int] == m1.owner[i] by {
                if alloc_s.contains(i as u16) {
                    let w = choose|w: int| 0 <= w < total && alloc_s[w] == i as u16;
                    assert(m1.owner[i] == head);
                    assert(m1.owner[alloc_s[0] as int] == head);
                } else {
                    assert(m1.owner[i] == m0.owner[i]);
                    let h = m0.owner[i];
                    assert(h < m0.size && m0.owner[h as int] == h);
                    assert(!alloc_s.contains(h)) by {
                        if alloc_s.contains(h) {
                            let w = choose|w: int| 0 <= w < total && alloc_s[w] == h;
                            assert(m0.owner[alloc_s[w] as int] == FREE_MARK);
                        }
                    }
                    assert(m1.owner[h as int] == m0.owner[h as int]);
                }
            }
            assert(spec_add_effect(m0, m1, readable@, writable@, head));
        }
        Ok(head)
    }

    /// Reads the used ring at the driver's cursor. When the device has not
    /// advanced its own cursor this is a normal "no completion yet", not an
    /// error. On a completion the driver's cursor advances and every
    /// descriptor of the finished chain returns to the free list, in
    /// ascending index order, so the entry can be consumed exactly once. A
    /// completion naming a descriptor that is not an in-flight chain head is
    /// a protocol violation: fatal, and nothing is consumed.
    pub fn pop_used(&mut self) -> (r: Result<Option<(u16, u32)>, VirtioError>)
        requires
            old(self).wf(),
        ensures
            final(self).wf(),
            old(self)@.last_used == old(self)@.used.len() ==> r == Ok::<_, VirtioError>(
                None::<(u16, u32)>,
            ) && final(self)@ == old(self)@,
            old(self)@.last_used < old(self)@.used.len() ==> ({
                let entry = old(self)@.used[old(self)@.last_used];
                if spec_used_entry_valid(old(self)@, entry) {
                    &&& r == Ok::<_, VirtioError>(Some((entry.id as u16, entry.len)))
                    &&& final(self)@.last_used == old(self)@.last_used + 1
                    &&& final(self)@.free == old(self)@.free + owned_upto(
                        old(self)@.owner,
                        entry.id as u16,
                        old(self)@.size,
                    )
                    &&& forall|i: int|
                        0 <= i < old(self)@.size ==> (#[trigger] final(self)@.owner[i]) == (if old(
                            self,
                        )@.owner[i] == entry.id as u16 {
                            FREE_MARK
                        } else {
                            old(self)@.owner[i]
                        })
                    &&& !spec_in_flight(final(self)@, entry.id as u16)
                    &&& final(self)@.desc == old(self)@.desc
                    &&& final(self)@.avail == old(self)@.avail
                    &&& final(self)@.used == old(self)@.used
                    &&& final(self)@.size == old(self)@.size
                    &&& final(self)@.queue_index == old(self)@.queue_index
                } else {
                    &&& r == Err::<Option<(u16, u32)>, _>(VirtioError::ProtocolViolation)
                    &&& final(self)@ == old(self)@
                }
            }),
    {
        if self.last_used >= self.used.len() {
            return Ok(None);
        }
        let entry = self.used[self.last_used];
        if !(entry.id < self.size as u32) {
            return Err(VirtioError::ProtocolViolation);
        }
        let head = entry.id as u16;
        if self.owner[head as usize] != head {
            return Err(VirtioError::ProtocolViolation);
        }
        let ghost m0 = self@;
        let size = self.size;
        let mut i: u16 = 0;
        while i < size
            invariant
                queue_wf(m0),
                size == m0.size,
                i <= size,
                head < m0.size,
                m0.owner[head as int] == head,
                self@.owner.len() == m0.size,
                self@.free == m0.free + owned_upto(m0.owner, head, i as int),
                forall|j: int|
                    0 <= j < i ==> (#[trigger] self@.owner[j]) == (if m0.owner[j] == head {
                        FREE_MARK
                    } else {
                        m0.owner[j]
                    }),
                forall|j: int| i <= j < m0.size ==> (#[trigger] self@.owner[j]) == m0.owner[j],
                self@.desc == m0.desc,
                self@.avail == m0.avail,
                self@.used == m0.used,
                self@.last_used == m0.last_used,
                self@.size == m0.size,
                self@.queue_index == m0.queue_index,
            decreases size - i,
        {
            if self.owner[i as usize] == head {
                self.owner.set(i as usize, FREE_MARK);
                self.free.push(i);
                proof {
                    assert(owned_upto(m0.owner, head, i as int + 1) =~= owned_upto(
                        m0.owner,
                        head,
                        i as int,
                    ) + seq![i]);
                }
            } else {
                proof {
                    assert(owned_upto(m0.owner, head, i as int + 1) =~= owned_upto(
                        m0.owner,
                        head,
                        i as int,
                    ));
                }
            }
            i = i + 1;
        }
        self.last_used = self.last_used + 1;
        proof {
            let m1 = self@;
            let freed = owned_upto(m0.owner, head, m0.size);
            lemma_owned_upto_props(m0.owner, head, m0.size);
            assert(m1.free.no_duplicates()) by {
                assert forall|a: int, b: int|
                    0 <= a < m0.free.len() && 0 <= b < freed.len() implies m0.free[a]
                    != freed[b] by {
                    assert(m0.owner[m0.free[a] as int] == FREE_MARK);
                    assert(m0.owner[freed[b] as int] == head);
                }
                vstd::seq_lib::lemma_no_dup_in_concat(m0.free, freed);
            }
            assert forall|j: int|
                0 <= j < m1.free.len() implies (#[trigger] m1.free[j]) < m1.size
                && m1.owner[m1.free[j] as int] == FREE_MARK by {
                if j < m0.free.len() {
                    assert(m1.free[j] == m0.free[j]);
                    assert(m0.owner[m0.free[j] as int] == FREE_MARK);
                } else {
                    assert(m1.free[j] == freed[j - m0.free.len()]);
                    assert(m0.owner[m1.free[j] as int] == head);
                }
            }
            assert forall|i2: int|
                0 <= i2 < m1.size && (#[trigger] m1.owner[i2]) == FREE_MARK implies m1.free.contains(
                i2 as u16,
            ) by {
                if m0.owner[i2] == head {
                    assert(freed.contains(i2 as u16));
                    let w = choose|w: int| 0 <= w < freed.len() && freed[w] == i2 as u16;
                    assert(m1.free[m0.free.len() + w] == i2 as u16);
                } else {
                    assert(m0.owner[i2] == FREE_MARK);
                    assert(m0.free.contains(i2 as u16));
                    let w = choose|w: int| 0 <= w < m0.free.len() && m0.free[w] == i2 as u16;
                    assert(m1.free[w] == i2 as u16);
                }
            }
            assert forall|i2: int|
                0 <= i2 < m1.size && (#[trigger] m1.owner[i2]) != FREE_MARK implies m1.owner[i2]
                < m1.size && m1.owner[m1.owner[i2] as int] == m1.owner[i2] by {
                assert(m1.owner[i2] == m0.owner[i2]);
                let g = m0.owner[i2];
                assert(g != head);
                assert(m0.owner[g as int] == g);
                assert(m1.owner[g as int] == g);
            }
        }
        Ok(Some((head, entry.len)))
    }

    /// Signals the device that new available entries exist, handing it the
    /// shared rings; the device may append completion entries to the used
    /// ring while it runs. Driver-private state is untouched. Several `add`
    /// calls may be batched before one notification.
    pub fn notify<T: Transport>(&mut self, transport: &mut T)
        requires
            old(self).wf(),
        ensures
            final(self).wf(),
            old(self)@.used.is_prefix_of(final(self)@.used),
            final(self)@.desc == old(self)@.desc,
            final(self)@.free == old(self)@.free,
            final(self)@.owner == old(self)@.owner,
            final(self)@.avail == old(self)@.avail,
            final(self)@.last_used == old(self)@.last_used,
            final(self)@.size == old(self)@.size,
            final(self)@.queue_index == old(self)@.queue_index,
            final(transport).driver_features() == old(transport).driver_features(),
    {
        transport.notify(self.queue_index, &self.desc, &self.avail, &mut self.used);
        proof {
            assert forall|j: int|
                0 <= j < self@.avail.len() implies (#[trigger] self@.avail[j]) < self@.size by {
                assert(self@.avail[j] == old(self)@.avail[j]);
            }
        }
    }

    /// Submits one chain, notifies the device, and polls until the
    /// completion for that chain appears: the common synchronous
    /// request/response pattern. Completions for other outstanding chains
    /// are consumed (and their descriptors freed) along the way.
    ///
    /// On success the result is exactly the byte count the device reported
    /// transferred for this chain's completion, and the chain's descriptors
    /// are back on the free list. A capacity failure commits nothing. A
    /// chain the device leaves uncompleted once the used ring is drained
    /// surfaces as a transport failure; a used-ring entry naming a
    /// descriptor not in flight as a protocol violation; on either of those
    /// the submitted chain remains in flight.
    ///
    /// Whatever the outcome: the queue keeps its size and index, the used
    /// log only grows and the cursor never rewinds, ownership is only ever
    /// released — a descriptor owned at exit is owned by the head that held
    /// it at entry, or by the chain submitted here — and once published the
    /// chain's layout survives on the descriptor table and available ring.
    pub fn add_notify_wait_pop<T: Transport>(
        &mut self,
        readable: &[BufferDesc],
        writable: &[BufferDesc],
        transport: &mut T,
    ) -> (r: Result<u32, VirtioError>)
        requires
            old(self).wf(),
            readable@.len() + writable@.len() >= 1,
        ensures
            final(self).wf(),
            final(self)@.size == old(self)@.size,
            final(self)@.queue_index == old(self)@.queue_index,
            old(self)@.used.is_prefix_of(final(self)@.used),
            final(self)@.last_used >= old(self)@.last_used,
            final(transport).driver_features() == old(transport).driver_features(),
            forall|i: int|
                0 <= i < old(self)@.size ==> (#[trigger] final(self)@.owner[i]) == FREE_MARK
                    || final(self)@.owner[i] == old(self)@.owner[i] || final(self)@.owner[i]
                    == spec_alloc(old(self)@.free, (readable@.len() + writable@.len()) as int)[0],
            readable@.len() + writable@.len() > old(self)@.free.len() ==> r == Err::<u32, _>(
                VirtioError::QueueCapacity,
            ) && final(self)@ == old(self)@,
            r matches Err(e) && e == VirtioError::QueueCapacity ==> readable@.len()
                + writable@.len() > old(self)@.free.len(),
            readable@.len() + writable@.len() <= old(self)@.free.len() ==> spec_chain_published(
                old(self)@,
                final(self)@,
                readable@,
                writable@,
            ),
            r matches Err(e) && e != VirtioError::QueueCapacity ==> spec_in_flight(
                final(self)@,
                spec_alloc(old(self)@.free, (readable@.len() + writable@.len()) as int)[0],
            ),
            r matches Ok(len) ==> ({
                let head = spec_alloc(
                    old(self)@.free,
                    (readable@.len() + writable@.len()) as int,
                )[0];
                &&& exists|j: int|
                    old(self)@.last_used <= j < final(self)@.last_used
                        && (#[trigger] final(self)@.used[j]) == (UsedElem { id: head as u32, len })
                &&& !spec_in_flight(final(self)@, head)
            }),
    {
        let head = match self.add(readable, writable) {
            Ok(h) => h,
            Err(e) => { return Err(e); },
        };
        self.notify(transport);
        let ghost l0 = old(self)@.last_used;
        loop
            invariant
                self.wf(),
                head < self@.size,
                spec_in_flight(self@, head),
                self@.last_used >= l0,
                l0 == old(self)@.last_used,
                readable@.len() + writable@.len() <= old(self)@.free.len(),
                head == spec_alloc(old(self)@.free, (readable@.len() + writable@.len()) as int)[0],
                self@.size == old(self)@.size,
                self@.queue_index == old(self)@.queue_index,
                old(self)@.used.is_prefix_of(self@.used),
                transport.driver_features() == old(transport).driver_features(),
                forall|i: int|
                    0 <= i < old(self)@.size ==> (#[trigger] self@.owner[i]) == FREE_MARK
                        || self@.owner[i] == old(self)@.owner[i] || self@.owner[i] == head,
                spec_chain_published(old(self)@, self@, readable@, writable@),
            decreases self@.used.len() - self@.last_used,
        {
            let ghost s1 = self@;
            let popped = self.pop_used();
            match popped {
                Err(e) => { return Err(e); },
                Ok(Some(pair)) => {
                    if pair.0 == head {
                        proof {
                            assert(self@.used[s1.last_used] == (UsedElem {
                                id: head as u32,
                                len: pair.1,
                            }));
                        }
                        return Ok(pair.1);
                    }
                },
                Ok(None) => {
                    // The device runs while it is notified, so a drained
                    // used ring cannot refill between polls: a completion
                    // that has not appeared by now never will. Treat the
                    // device as failed rather than reclaim descriptors
                    // early.
                    return Err(VirtioError::TransportFailure);
                },
            }
        }
    }

    /// The negotiated size of this queue.
    pub fn size(&self) -> (r: u16)
        ensures
            r == self@.size,
    {
        self.size
    }

    /// How many descriptors currently sit on the free list.
    pub fn num_free(&self) -> (r: usize)
        ensures
            r == self@.free.len(),
    {
        self.free.len()
    }

    /// Whether `head` is the head of an outstanding chain.
    pub fn is_in_flight(&self, head: u16) -> (r: bool)
        requires
            self.wf(),
        ensures
            r == spec_in_flight(self@, head),
    {
        head < self.size && self.owner[head as usize] == head
    }

    /// How many completions the driver has consumed from the used ring.
    pub fn used_consumed(&self) -> (r: usize)
        ensures
            r == self@.last_used,
    {
        self.last_used
    }
}

} // verus!
