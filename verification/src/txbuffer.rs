//! Deferred transmit buffering: an append-only staging list of packet
//! descriptors, bounded by a capacity fixed at creation, flushed either on
//! demand or implicitly when an append finds it full. Packets the hardware
//! does not accept are handed to the configured error policy.

use vstd::prelude::*;

use crate::errors::Error;
use crate::ethdev::{
    sat_add_u64, tx_burst_post, tx_burst_ready, EthDevices, PktDesc, PortId, QueueId,
};
use crate::mbuf::{
    lemma_free_one_preserves_heads, pool_wf, spec_free_one, valid_pkt, MbufPool, PoolModel,
};

verus! {

/// What becomes of staged packets the hardware does not accept.
#[derive(Clone, Copy, Debug, PartialEq, Eq, Structural)]
pub enum TxErrorPolicy {
    /// Silently free the unsent buffers back to their pool.
    Discard,
    /// Count the unsent buffers, then free them back to their pool.
    Count,
    /// Hand the unsent buffers back to the caller, who takes ownership
    /// and must eventually free or re-queue them.
    Custom,
}

/// Every staged descriptor names a live packet, and no packet is staged
/// twice.
pub open spec fn staged_ok(staged: Seq<PktDesc>, m: PoolModel) -> bool {
    &&& forall|k: int| 0 <= k < staged.len() ==> valid_pkt(m, (#[trigger] staged[k]).mbuf)
    &&& forall|k1: int, k2: int|
        0 <= k1 < k2 < staged.len() ==> staged[k1].mbuf != staged[k2].mbuf
}

/// The pool after the packets of the given descriptors are freed once
/// each, front first.
pub open spec fn spec_free_descs(m: PoolModel, ds: Seq<PktDesc>) -> PoolModel
    decreases ds.len(),
{
    if ds.len() == 0 {
        m
    } else {
        spec_free_one(spec_free_descs(m, ds.drop_last()), ds.last().mbuf)
    }
}

/// What one flush makes of the staged packets the hardware did not
/// accept, under each error policy: `Custom` returns them to the caller;
/// `Discard` frees them; `Count` frees them and counts them.
pub open spec fn flush_post(
    pol: TxErrorPolicy,
    staged: Seq<PktDesc>,
    sent: int,
    err0: u64,
    err1: u64,
    pm0: PoolModel,
    pm1: PoolModel,
    returned: Seq<PktDesc>,
) -> bool {
    let unsent = staged.subrange(sent, staged.len() as int);
    match pol {
        TxErrorPolicy::Custom => {
            &&& returned == unsent
            &&& err1 == err0
            &&& pm1 == pm0
        },
        TxErrorPolicy::Discard => {
            &&& returned == Seq::<PktDesc>::empty()
            &&& err1 == err0
            &&& pm1 == spec_free_descs(pm0, unsent)
        },
        TxErrorPolicy::Count => {
            &&& returned == Seq::<PktDesc>::empty()
            &&& err1 == sat_add_u64(err0, unsent.len() as int)
            &&& pm1 == spec_free_descs(pm0, unsent)
        },
    }
}

/// A deferred transmit buffer for one TX queue.
pub struct TxBuffer {
    /// Capacity: the staging list never grows past it.
    pub size: u16,
    /// The staged descriptors, oldest first.
    pub pending: Vec<PktDesc>,
    /// What to do with packets the hardware does not accept.
    pub policy: TxErrorPolicy,
    /// Unsent packets counted so far under the counting policy.
    pub err_count: u64,
    /// NUMA socket the buffer was allocated for.
    pub socket_id: i32,
}

/// Allocate a deferred transmit buffer able to stage up to `size`
/// packets, on `socket_id`. A zero or oversized capacity is refused. The
/// initial policy silently frees unsent packets.
pub fn alloc_buffer(size: usize, socket_id: i32) -> (r: Result<TxBuffer, Error>)
    ensures
        r is Ok <==> 1 <= size <= u16::MAX,
        r matches Err(e) ==> e == Error::InvalidArgument,
        r matches Ok(b) ==> {
            &&& b.size == size
            &&& b.pending@.len() == 0
            &&& b.policy == TxErrorPolicy::Discard
            &&& b.err_count == 0
            &&& b.socket_id == socket_id
        },
{
    if size == 0 || size > u16::MAX as usize {
        return Err(Error::InvalidArgument);
    }
    Ok(
        TxBuffer {
            size: size as u16,
            pending: Vec::new(),
            policy: TxErrorPolicy::Discard,
            err_count: 0,
            socket_id,
        },
    )
}

impl TxBuffer {
    /// The capacity is nonzero and the buffer never stages more packets
    /// than it.
    pub open spec fn wf(&self) -> bool {
        &&& self.size >= 1
        &&& self.pending@.len() <= self.size
    }

    /// Configure the policy for buffered packets which cannot be sent.
    pub fn set_err_callback(&mut self, policy: TxErrorPolicy) -> (r: Result<(), Error>)
        ensures
            r is Ok,
            final(self).policy == policy,
            final(self).size == old(self).size,
            final(self).pending@ == old(self).pending@,
            final(self).err_count == old(self).err_count,
            final(self).socket_id == old(self).socket_id,
    {
        self.policy = policy;
        Ok(())
    }

    /// Silently free unsent buffered packets back to their pool.
    pub fn drop_err_packets(&mut self) -> (r: Result<(), Error>)
        ensures
            r is Ok,
            final(self).policy == TxErrorPolicy::Discard,
            final(self).size == old(self).size,
            final(self).pending@ == old(self).pending@,
            final(self).err_count == old(self).err_count,
            final(self).socket_id == old(self).socket_id,
    {
        self.set_err_callback(TxErrorPolicy::Discard)
    }

    /// Track unsent buffered packets in the error counter, freeing them
    /// back to their pool.
    pub fn count_err_packets(&mut self) -> (r: Result<(), Error>)
        ensures
            r is Ok,
            final(self).policy == TxErrorPolicy::Count,
            final(self).size == old(self).size,
            final(self).pending@ == old(self).pending@,
            final(self).err_count == old(self).err_count,
            final(self).socket_id == old(self).socket_id,
    {
        self.set_err_callback(TxErrorPolicy::Count)
    }

    /// The number of unsent packets counted under the counting policy.
    pub fn err_packet_count(&self) -> (r: u64)
        ensures
            r == self.err_count,
    {
        self.err_count
    }

    /// The number of packets currently staged.
    pub fn pending_count(&self) -> (r: usize)
        ensures
            r == self.pending@.len(),
    {
        self.pending.len()
    }

    /// Release the buffer: the staged descriptors are handed back to the
    /// caller, who still owns those packets.
    pub fn free(&mut self) -> (r: Vec<PktDesc>)
        ensures
            r@ == old(self).pending@,
            final(self).pending@.len() == 0,
            final(self).size == old(self).size,
            final(self).policy == old(self).policy,
            final(self).err_count == old(self).err_count,
    {
        let taken = self.pending.split_off(0);
        proof {
            assert(taken@ =~= old(self).pending@);
        }
        taken
    }

    /// Send every staged packet on the given queue in one burst. Packets
    /// beyond what the hardware accepted go to the error policy, and the
    /// staging list is cleared whatever the policy did. Returns the
    /// accepted count and, under the custom policy, the unsent packets,
    /// whose ownership passes to the caller.
    pub fn flush(
        &mut self,
        devs: &mut EthDevices,
        port: PortId,
        queue_id: QueueId,
        pool: &mut MbufPool,
    ) -> (r: (usize, Vec<PktDesc>))
        requires
            old(self).wf(),
            old(devs).wf(),
            tx_burst_ready(old(devs).devs@, port, queue_id),
            old(pool).wf(),
            staged_ok(old(self).pending@, old(pool)@),
        ensures
            final(self).wf(),
            final(devs).wf(),
            final(pool).wf(),
            r.0 <= old(self).pending@.len(),
            tx_burst_post(
                old(devs).devs@,
                final(devs).devs@,
                port,
                queue_id,
                old(self).pending@,
                r.0 as int,
            ),
            final(self).pending@.len() == 0,
            final(self).size == old(self).size,
            final(self).policy == old(self).policy,
            final(self).socket_id == old(self).socket_id,
            flush_post(
                old(self).policy,
                old(self).pending@,
                r.0 as int,
                old(self).err_count,
                final(self).err_count,
                old(pool)@,
                final(pool)@,
                r.1@,
            ),
            staged_ok(r.1@, final(pool)@),
    {
        let ghost staged = self.pending@;
        let sent = devs.tx_burst(port, queue_id, &self.pending);
        let unsent = self.pending.split_off(sent);
        self.pending.clear();
        proof {
            assert(unsent@ == staged.subrange(sent as int, staged.len() as int));
        }
        match self.policy {
            TxErrorPolicy::Custom => (sent, unsent),
            TxErrorPolicy::Discard => {
                free_descs(pool, &unsent);
                (sent, Vec::new())
            },
            TxErrorPolicy::Count => {
                free_descs(pool, &unsent);
                self.err_count = sat_add_err(self.err_count, unsent.len());
                (sent, Vec::new())
            },
        }
    }

    /// Stage one packet for deferred transmission. When the buffer is
    /// full, an implicit flush is triggered first, and the packet is then
    /// staged in the emptied buffer. Returns what the flush returned:
    /// the count the hardware accepted and, under the custom policy, the
    /// unsent packets.
    pub fn append(
        &mut self,
        devs: &mut EthDevices,
        port: PortId,
        queue_id: QueueId,
        pool: &mut MbufPool,
        pkt: PktDesc,
    ) -> (r: (usize, Vec<PktDesc>))
        requires
            old(self).wf(),
            old(devs).wf(),
            tx_burst_ready(old(devs).devs@, port, queue_id),
            old(pool).wf(),
            staged_ok(old(self).pending@, old(pool)@),
            valid_pkt(old(pool)@, pkt.mbuf),
        ensures
            final(self).wf(),
            final(devs).wf(),
            final(pool).wf(),
            final(self).size == old(self).size,
            final(self).policy == old(self).policy,
            old(self).pending@.len() < old(self).size ==> {
                &&& final(self).pending@ == old(self).pending@.push(pkt)
                &&& r.0 == 0
                &&& r.1@.len() == 0
                &&& final(devs).devs@ == old(devs).devs@
                &&& final(pool)@ == old(pool)@
                &&& final(self).err_count == old(self).err_count
            },
            old(self).pending@.len() >= old(self).size ==> {
                &&& r.0 <= old(self).pending@.len()
                &&& tx_burst_post(
                    old(devs).devs@,
                    final(devs).devs@,
                    port,
                    queue_id,
                    old(self).pending@,
                    r.0 as int,
                )
                &&& final(self).pending@ == Seq::<PktDesc>::empty().push(pkt)
                &&& flush_post(
                    old(self).policy,
                    old(self).pending@,
                    r.0 as int,
                    old(self).err_count,
                    final(self).err_count,
                    old(pool)@,
                    final(pool)@,
                    r.1@,
                )
            },
    {
        if self.pending.len() < self.size as usize {
            self.pending.push(pkt);
            (0, Vec::new())
        } else {
            let r = self.flush(devs, port, queue_id, pool);
            self.pending.push(pkt);
            proof {
                assert(self.pending@ =~= Seq::<PktDesc>::empty().push(pkt));
            }
            r
        }
    }
}

/// Saturating add for the unsent-packet counter.
fn sat_add_err(a: u64, d: usize) -> (r: u64)
    ensures
        r == sat_add_u64(a, d as int),
{
    if a <= u64::MAX - (d as u64) {
        a + (d as u64)
    } else {
        u64::MAX
    }
}

/// Free each listed packet back to its pool once, front first.
fn free_descs(pool: &mut MbufPool, descs: &Vec<PktDesc>)
    requires
        old(pool).wf(),
        staged_ok(descs@, old(pool)@),
    ensures
        final(pool).wf(),
        final(pool)@ == spec_free_descs(old(pool)@, descs@),
{
    let ghost m0 = pool@;
    let mut k: usize = 0;
    while k < descs.len()
        invariant
            k <= descs@.len(),
            pool.wf(),
            pool@ == spec_free_descs(m0, descs@.subrange(0, k as int)),
            staged_ok(descs@, m0),
            staged_ok(descs@.subrange(k as int, descs@.len() as int), pool@),
        decreases descs@.len() - k,
    {
        let ghost pre = pool@;
        let ghost rest = descs@.subrange(k as int, descs@.len() as int);
        proof {
            assert(valid_pkt(pre, descs@[k as int].mbuf)) by {
                assert(rest[0] == descs@[k as int]);
            }
        }
        pool.free(descs[k].mbuf);
        k = k + 1;
        proof {
            assert(pool@ == spec_free_one(pre, descs@[k - 1].mbuf));
            let done = descs@.subrange(0, k as int);
            assert(done.drop_last() =~= descs@.subrange(0, k - 1));
            assert(done.last() == descs@[k - 1]);
            let rest2 = descs@.subrange(k as int, descs@.len() as int);
            assert forall|j: int| 0 <= j < rest2.len() implies valid_pkt(
                pool@,
                (#[trigger] rest2[j]).mbuf,
            ) by {
                assert(rest2[j] == rest[j + 1]);
                assert(valid_pkt(pre, rest[j + 1].mbuf));
                assert(rest[j + 1].mbuf != rest[0].mbuf) by {
                    assert(rest[j + 1] == descs@[k + j]);
                    assert(rest[0] == descs@[k - 1]);
                }
                lemma_free_one_preserves_heads(pre, rest[0].mbuf, rest[j + 1].mbuf);
            }
            assert forall|k1: int, k2: int|
                0 <= k1 < k2 < rest2.len() implies rest2[k1].mbuf != rest2[k2].mbuf by {
                assert(rest2[k1] == descs@[k + k1]);
                assert(rest2[k2] == descs@[k + k2]);
            }
        }
    }
    proof {
        assert(descs@.subrange(0, descs@.len() as int) =~= descs@);
    }
}

} // verus!
