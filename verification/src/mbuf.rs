//! Packet buffers (mbufs) and the fixed-size pools that back them.
//!
//! A pool owns an arena of equally sized buffer slots. A packet buffer is a
//! handle (arena index) to a head slot; further segments hang off it through
//! `next` links, forming a singly linked chain. Every slot keeps a window
//! `data_off .. data_off + data_len` into its `buf_len`-byte buffer, and the
//! head slot carries the packet's reference count.

use vstd::prelude::*;

use crate::errors::Error;

verus! {

/// Default headroom reserved in front of the data of a freshly allocated
/// buffer.
pub const RTE_PKTMBUF_HEADROOM: u16 = 128;

/// Default data-room size of a pool entry.
pub const RTE_MBUF_DEFAULT_DATAROOM: u16 = 2048;

/// Recommended minimal buffer length for receiving a standard Ethernet
/// frame without splitting it into multiple segments.
pub const RTE_MBUF_DEFAULT_BUF_SIZE: u16 = RTE_MBUF_DEFAULT_DATAROOM + RTE_PKTMBUF_HEADROOM;

/// What an arena slot currently is: an unallocated entry, the head segment
/// of a packet (the only segment carrying a shared reference count), or a
/// follow-on segment of some packet's chain.
#[derive(Clone, Copy, Debug, PartialEq, Eq, Structural)]
pub enum SlotKind {
    Free,
    Head,
    Seg,
}

/// One packet-buffer descriptor in a pool's arena.
#[derive(Clone, Copy, Debug)]
pub struct Mbuf {
    /// Role of this slot (free entry, packet head, or chain segment).
    pub kind: SlotKind,
    /// Reference count; meaningful on head slots, fixed at 1 on segments.
    pub refcnt: u16,
    /// Headroom consumed: offset of the data window into the buffer.
    pub data_off: u16,
    /// Length of the data window of this segment.
    pub data_len: u16,
    /// Capacity of this segment's buffer (headroom + data + tailroom).
    pub buf_len: u16,
    /// Number of segments in the chain starting at this slot.
    pub nb_segs: u16,
    /// Arena index of the next segment of the chain, if any.
    pub next: Option<usize>,
    /// Per-packet offload-flags bitmask (see `OffloadFlags`).
    pub ol_flags: u64,
}

/// Mathematical model of a pool: the slot arena, the free list, and the
/// pool-wide layout parameters.
#[verifier::ext_equal]
pub struct PoolModel {
    pub slots: Seq<Mbuf>,
    pub free: Seq<usize>,
    pub headroom: u16,
    pub data_room: u16,
}

/// The state of a freshly allocated single-segment buffer.
pub open spec fn fresh_mbuf(headroom: u16, data_room: u16) -> Mbuf {
    Mbuf {
        kind: SlotKind::Head,
        refcnt: 1,
        data_off: headroom,
        data_len: 0,
        buf_len: data_room,
        nb_segs: 1,
        next: None,
        ol_flags: 0,
    }
}

/// The state a slot returns to when it is handed back to its pool.
pub open spec fn freed_mbuf(data_room: u16) -> Mbuf {
    Mbuf {
        kind: SlotKind::Free,
        refcnt: 0,
        data_off: 0,
        data_len: 0,
        buf_len: data_room,
        nb_segs: 1,
        next: None,
        ol_flags: 0,
    }
}

/// Local well-formedness of one arena slot.
pub open spec fn slot_wf(m: PoolModel, i: int) -> bool {
    let s = m.slots[i];
    &&& s.buf_len == m.data_room
    &&& s.data_off + s.data_len <= s.buf_len
    &&& s.nb_segs >= 1
    &&& (s.kind is Free ==> s == freed_mbuf(m.data_room))
    &&& (s.kind is Seg ==> s.refcnt == 1)
    &&& match s.next {
        Some(j) => {
            &&& !(s.kind is Free)
            &&& j < m.slots.len()
            &&& m.slots[j as int].kind is Seg
            &&& m.slots[j as int].nb_segs + 1 == s.nb_segs
        },
        None => s.nb_segs == 1,
    }
}

/// Pool invariant: every slot is well formed, the free list holds exactly
/// the free slots, each exactly once, and each segment has at most one
/// predecessor (chains never share slots).
pub open spec fn pool_wf(m: PoolModel) -> bool {
    &&& m.headroom <= m.data_room
    &&& forall|i: int| 0 <= i < m.slots.len() ==> slot_wf(m, i)
    &&& forall|k: int|
        0 <= k < m.free.len() ==> (#[trigger] m.free[k] < m.slots.len()
            && m.slots[m.free[k] as int].kind is Free)
    &&& forall|k1: int, k2: int|
        0 <= k1 < k2 < m.free.len() ==> m.free[k1] != m.free[k2]
    &&& forall|i: int|
        0 <= i < m.slots.len() && (#[trigger] m.slots[i].kind) is Free ==> exists|k: int|
            0 <= k < m.free.len() && #[trigger] m.free[k] as int == i
    &&& forall|i1: int, i2: int|
        #![trigger m.slots[i1].next, m.slots[i2].next]
        0 <= i1 < m.slots.len() && 0 <= i2 < m.slots.len() && m.slots[i1].next is Some
            && m.slots[i1].next == m.slots[i2].next ==> i1 == i2
}

/// The handle names a live packet: a head slot with at least one holder.
pub open spec fn valid_pkt(m: PoolModel, h: usize) -> bool {
    &&& h < m.slots.len()
    &&& m.slots[h as int].kind is Head
    &&& m.slots[h as int].refcnt >= 1
}

/// The model after the head slot's reference count is set to `v`.
pub open spec fn with_refcnt(m: PoolModel, h: usize, v: u16) -> PoolModel {
    PoolModel { slots: m.slots.update(h as int, Mbuf { refcnt: v, ..m.slots[h as int] }), ..m }
}

/// Whether the index sequence `c` holds the arena index `i`.
pub open spec fn seq_has(c: Seq<usize>, i: int) -> bool {
    exists|k: int| 0 <= k < c.len() && #[trigger] c[k] as int == i
}

/// Recursion measure for walking a chain: the segment count of the slot.
pub open spec fn chain_measure(m: PoolModel, h: usize) -> int {
    if h < m.slots.len() {
        m.slots[h as int].nb_segs as int
    } else {
        0
    }
}

/// The arena indices of the segment chain starting at `h`, in order. The
/// guard on the recursive step makes the walk total on every model; on a
/// well-formed pool it follows the `next` links to the last segment.
pub open spec fn chain_from(m: PoolModel, h: usize) -> Seq<usize>
    decreases chain_measure(m, h),
{
    if h >= m.slots.len() {
        Seq::<usize>::empty()
    } else {
        match m.slots[h as int].next {
            None => seq![h],
            Some(j) => {
                if j < m.slots.len() && m.slots[j as int].nb_segs < m.slots[h as int].nb_segs {
                    seq![h] + chain_from(m, j)
                } else {
                    seq![h]
                }
            },
        }
    }
}

/// On a well-formed pool, the chain of a non-free slot has one entry per
/// segment, follows the `next` links, never repeats a slot, and consists
/// of the head followed by segments.
pub proof fn lemma_chain_structure(m: PoolModel, h: usize)
    requires
        pool_wf(m),
        h < m.slots.len(),
        !(m.slots[h as int].kind is Free),
    ensures
        ({
            let c = chain_from(m, h);
            &&& c.len() == m.slots[h as int].nb_segs
            &&& c[0] == h
            &&& forall|k: int| 0 <= k < c.len() ==> (#[trigger] c[k]) < m.slots.len()
            &&& forall|k: int|
                0 <= k < c.len() ==> m.slots[#[trigger] c[k] as int].nb_segs == m.slots[
                    h as int
                ].nb_segs - k
            &&& forall|k: int|
                1 <= k < c.len() ==> m.slots[#[trigger] c[k] as int].kind is Seg
            &&& forall|k: int|
                0 <= k < c.len() - 1 ==> m.slots[#[trigger] c[k] as int].next == Some(c[k + 1])
            &&& m.slots[c.last() as int].next is None
            &&& forall|k1: int, k2: int| 0 <= k1 < k2 < c.len() ==> c[k1] != c[k2]
        }),
    decreases m.slots[h as int].nb_segs,
{
    let c = chain_from(m, h);
    assert(slot_wf(m, h as int));
    match m.slots[h as int].next {
        None => {},
        Some(j) => {
            assert(j < m.slots.len());
            assert(m.slots[j as int].nb_segs < m.slots[h as int].nb_segs);
            lemma_chain_structure(m, j);
            let cj = chain_from(m, j);
            assert(c == seq![h] + cj);
            assert forall|k: int|
                0 <= k < c.len() implies m.slots[#[trigger] c[k] as int].nb_segs == m.slots[
                h as int
            ].nb_segs - k by {
                if k > 0 {
                    assert(c[k] == cj[k - 1]);
                }
            }
        },
    }
    assert forall|k1: int, k2: int| 0 <= k1 < k2 < c.len() implies c[k1] != c[k2] by {
        assert(m.slots[c[k1] as int].nb_segs == m.slots[h as int].nb_segs - k1);
        assert(m.slots[c[k2] as int].nb_segs == m.slots[h as int].nb_segs - k2);
    }
}

/// The model after the packet `tail` is linked to the end of the packet
/// `head`: every slot of the head chain gains `tail`'s segment count, the
/// last one points at `tail`, and `tail` stops being a head.
pub open spec fn spec_chain(m: PoolModel, head: usize, tail: usize) -> PoolModel {
    let c = chain_from(m, head);
    let extra = m.slots[tail as int].nb_segs;
    PoolModel {
        slots: Seq::new(
            m.slots.len(),
            |i: int|
                if i == tail as int {
                    Mbuf { kind: SlotKind::Seg, ..m.slots[i] }
                } else if seq_has(c, i) {
                    Mbuf {
                        nb_segs: (m.slots[i].nb_segs + extra) as u16,
                        next: if m.slots[i].next is None {
                            Some(tail)
                        } else {
                            m.slots[i].next
                        },
                        ..m.slots[i]
                    }
                } else {
                    m.slots[i]
                },
        ),
        ..m
    }
}

/// The model after the last holder of the packet `h` releases it: every
/// slot of its chain returns to the pool's free list.
pub open spec fn spec_release(m: PoolModel, h: usize) -> PoolModel {
    let c = chain_from(m, h);
    PoolModel {
        slots: Seq::new(
            m.slots.len(),
            |i: int|
                if seq_has(c, i) {
                    freed_mbuf(m.data_room)
                } else {
                    m.slots[i]
                },
        ),
        free: m.free + c,
        ..m
    }
}

/// A capacity-bounded pool of fixed-size packet buffers.
pub struct MbufPool {
    /// The slot arena.
    pub slots: Vec<Mbuf>,
    /// Indices of the slots that are currently free; allocation pops from
    /// the back.
    pub free_list: Vec<usize>,
    /// Headroom given to freshly allocated buffers.
    pub headroom: u16,
    /// Buffer capacity of every slot.
    pub data_room: u16,
    /// NUMA socket this pool was created for.
    pub socket_id: i32,
}

impl View for MbufPool {
    type V = PoolModel;

    open spec fn view(&self) -> PoolModel {
        PoolModel {
            slots: self.slots@,
            free: self.free_list@,
            headroom: self.headroom,
            data_room: self.data_room,
        }
    }
}

/// Create and initialize a packet-buffer pool of `n` buffers, each with
/// `data_room_size` bytes of buffer capacity, for `socket_id`. The name
/// must be nonempty, `n` nonzero, and the data room large enough to hold
/// the default headroom; otherwise the pool is refused.
pub fn pktmbuf_pool_create(
    name: &str,
    n: u32,
    cache_size: u32,
    priv_size: u16,
    data_room_size: u16,
    socket_id: i32,
) -> (r: Result<MbufPool, Error>)
    ensures
        ({
            &&& name@.len() > 0
            &&& n > 0
            &&& data_room_size >= RTE_PKTMBUF_HEADROOM
        }) <==> r is Ok,
        r matches Err(e) ==> e == Error::InvalidArgument,
        r matches Ok(p) ==> {
            &&& pool_wf(p@)
            &&& p@.slots.len() == n
            &&& p@.free.len() == n
            &&& (forall|k: int| 0 <= k < n ==> p@.free[k] == k as usize)
            &&& (forall|i: int| 0 <= i < n ==> p@.slots[i] == freed_mbuf(data_room_size))
            &&& p@.headroom == RTE_PKTMBUF_HEADROOM
            &&& p@.data_room == data_room_size
            &&& p.socket_id == socket_id
        },
{
    let _ = cache_size;
    let _ = priv_size;
    if name.unicode_len() == 0 || n == 0 || data_room_size < RTE_PKTMBUF_HEADROOM {
        return Err(Error::InvalidArgument);
    }
    let count = n as usize;
    let mut slots: Vec<Mbuf> = Vec::new();
    let mut free_list: Vec<usize> = Vec::new();
    let mut i: usize = 0;
    while i < count
        invariant
            i <= count,
            slots@.len() == i,
            free_list@.len() == i,
            forall|k: int| 0 <= k < i ==> slots@[k] == freed_mbuf(data_room_size),
            forall|k: int| 0 <= k < i ==> free_list@[k] == k as usize,
        decreases count - i,
    {
        slots.push(
            Mbuf {
                kind: SlotKind::Free,
                refcnt: 0,
                data_off: 0,
                data_len: 0,
                buf_len: data_room_size,
                nb_segs: 1,
                next: None,
                ol_flags: 0,
            },
        );
        free_list.push(i);
        i = i + 1;
    }
    let p = MbufPool {
        slots,
        free_list,
        headroom: RTE_PKTMBUF_HEADROOM,
        data_room: data_room_size,
        socket_id,
    };
    proof {
        assert forall|j: int| 0 <= j < p@.slots.len() implies slot_wf(p@, j) by {
            assert(p@.slots[j] == freed_mbuf(data_room_size));
        }
        assert forall|j: int|
            0 <= j < p@.slots.len() && (#[trigger] p@.slots[j].kind) is Free implies exists|k: int|
            0 <= k < p@.free.len() && #[trigger] p@.free[k] as int == j by {
            assert(p@.free[j] as int == j);
        }
    }
    Ok(p)
}

impl MbufPool {
    /// The pool invariant, stated over the pool's model.
    pub open spec fn wf(&self) -> bool {
        pool_wf(self@)
    }

    /// Allocate one buffer from the pool: reference count 1, data offset at
    /// the pool's headroom, data length 0. Returns `None` exactly when the
    /// pool is exhausted.
    pub fn allocate(&mut self) -> (r: Option<usize>)
        requires
            old(self).wf(),
        ensures
            final(self).wf(),
            r is None <==> old(self)@.free.len() == 0,
            r is None ==> final(self)@ == old(self)@,
            r matches Some(h) ==> {
                &&& h == old(self)@.free.last()
                &&& h < final(self)@.slots.len()
                &&& final(self)@.free == old(self)@.free.drop_last()
                &&& final(self)@.slots == old(self)@.slots.update(
                    h as int,
                    fresh_mbuf(old(self)@.headroom, old(self)@.data_room),
                )
                &&& final(self)@.headroom == old(self)@.headroom
                &&& final(self)@.data_room == old(self)@.data_room
                &&& valid_pkt(final(self)@, h)
            },
    {
        match self.free_list.pop() {
            None => None,
            Some(h) => {
                let fresh = Mbuf {
                    kind: SlotKind::Head,
                    refcnt: 1,
                    data_off: self.headroom,
                    data_len: 0,
                    buf_len: self.data_room,
                    nb_segs: 1,
                    next: None,
                    ol_flags: 0,
                };
                self.slots.set(h, fresh);
                proof {
                    assert(pool_wf(self@)) by {
                        let m0 = old(self)@;
                        let m = self@;
                        assert forall|i: int| 0 <= i < m.slots.len() implies slot_wf(m, i) by {
                            assert(slot_wf(m0, i));
                            assert(slot_wf(m0, h as int));
                        }
                        assert forall|i: int|
                            0 <= i < m.slots.len() && (#[trigger] m.slots[i].kind)
                                is Free implies exists|k: int|
                            0 <= k < m.free.len() && #[trigger] m.free[k] as int == i by {
                            assert(m0.slots[i].kind is Free);
                            let k0 = choose|k0: int|
                                0 <= k0 < m0.free.len() && #[trigger] m0.free[k0] as int == i;
                            if k0 == m0.free.len() - 1 {
                                assert(m0.free[k0] == h);
                                assert(m.slots[i].kind is Head);
                            }
                            assert(m.free[k0] as int == i);
                        }
                    }
                }
                Some(h)
            },
        }
    }

    /// Allocate up to `count` buffers. Pool exhaustion surfaces as a
    /// shorter-than-requested result, never as an error: the result holds
    /// `min(count, free buffers)` fresh packets.
    pub fn alloc_bulk(&mut self, count: usize) -> (r: Vec<usize>)
        requires
            old(self).wf(),
        ensures
            final(self).wf(),
            r@.len() == (if count <= old(self)@.free.len() {
                count as int
            } else {
                old(self)@.free.len() as int
            }),
            final(self)@.free == old(self)@.free.subrange(
                0,
                old(self)@.free.len() - r@.len(),
            ),
            forall|q: int|
                0 <= q < r@.len() ==> r@[q] == old(self)@.free[old(self)@.free.len() - 1 - q],
            forall|q1: int, q2: int| 0 <= q1 < q2 < r@.len() ==> r@[q1] != r@[q2],
            final(self)@.slots.len() == old(self)@.slots.len(),
            final(self)@.headroom == old(self)@.headroom,
            final(self)@.data_room == old(self)@.data_room,
            forall|i: int|
                0 <= i < old(self)@.slots.len() ==> final(self)@.slots[i] == (if seq_has(r@, i) {
                    fresh_mbuf(old(self)@.headroom, old(self)@.data_room)
                } else {
                    old(self)@.slots[i]
                }),
            forall|q: int| 0 <= q < r@.len() ==> valid_pkt(final(self)@, #[trigger] r@[q]),
    {
        let ghost m0 = self@;
        let mut bufs: Vec<usize> = Vec::new();
        loop
            invariant
                self.wf(),
                pool_wf(m0),
                self@.slots.len() == m0.slots.len(),
                self@.headroom == m0.headroom,
                self@.data_room == m0.data_room,
                bufs@.len() <= count,
                bufs@.len() <= m0.free.len(),
                self@.free == m0.free.subrange(0, m0.free.len() - bufs@.len()),
                forall|q: int|
                    0 <= q < bufs@.len() ==> bufs@[q] == m0.free[m0.free.len() - 1 - q],
                forall|i: int|
                    0 <= i < m0.slots.len() ==> self@.slots[i] == (if seq_has(bufs@, i) {
                        fresh_mbuf(m0.headroom, m0.data_room)
                    } else {
                        m0.slots[i]
                    }),
            ensures
                self.wf(),
                self@.slots.len() == m0.slots.len(),
                self@.headroom == m0.headroom,
                self@.data_room == m0.data_room,
                bufs@.len() == (if count <= m0.free.len() {
                    count as int
                } else {
                    m0.free.len() as int
                }),
                self@.free == m0.free.subrange(0, m0.free.len() - bufs@.len()),
                forall|q: int|
                    0 <= q < bufs@.len() ==> bufs@[q] == m0.free[m0.free.len() - 1 - q],
                forall|i: int|
                    0 <= i < m0.slots.len() ==> self@.slots[i] == (if seq_has(bufs@, i) {
                        fresh_mbuf(m0.headroom, m0.data_room)
                    } else {
                        m0.slots[i]
                    }),
            decreases count - bufs@.len(),
        {
            if bufs.len() >= count {
                break ;
            }
            let ghost pre = self@;
            match self.allocate() {
                None => {
                    proof {
                        assert(pre.free.len() == 0);
                        assert(bufs@.len() == m0.free.len());
                    }
                    break ;
                },
                Some(h) => {
                    let ghost bufs0 = bufs@;
                    proof {
                        assert(!seq_has(bufs0, h as int)) by {
                            if seq_has(bufs0, h as int) {
                                assert(pre.slots[h as int].kind is Head);
                                assert(pre.slots[h as int].kind is Free);
                            }
                        }
                        assert(h == m0.free[m0.free.len() - 1 - bufs0.len()]) by {
                            assert(h == pre.free.last());
                        }
                    }
                    bufs.push(h);
                    proof {
                        assert(bufs@ =~= bufs0.push(h));
                        assert(self@.free =~= m0.free.subrange(0, m0.free.len() - bufs@.len()));
                        assert forall|i: int| 0 <= i < m0.slots.len() implies self@.slots[i] == (
                        if seq_has(bufs@, i) {
                            fresh_mbuf(m0.headroom, m0.data_room)
                        } else {
                            m0.slots[i]
                        }) by {
                            if i == h as int {
                                assert(seq_has(bufs@, i)) by {
                                    assert(bufs@.last() as int == i);
                                }
                                assert(self@.slots[i] == fresh_mbuf(m0.headroom, m0.data_room));
                            } else {
                                assert(self@.slots[i] == pre.slots[i]);
                                assert(seq_has(bufs@, i) <==> seq_has(bufs0, i)) by {
                                    if seq_has(bufs@, i) {
                                        let q = choose|q: int|
                                            0 <= q < bufs@.len() && #[trigger] bufs@[q] as int
                                                == i;
                                        assert(q != bufs@.len() - 1);
                                        assert(bufs0[q] as int == i);
                                    }
                                    if seq_has(bufs0, i) {
                                        let q = choose|q: int|
                                            0 <= q < bufs0.len() && #[trigger] bufs0[q] as int
                                                == i;
                                        assert(bufs@[q] as int == i);
                                    }
                                }
                            }
                        }
                    }
                },
            }
        }
        proof {
            assert forall|q1: int, q2: int|
                0 <= q1 < q2 < bufs@.len() implies bufs@[q1] != bufs@[q2] by {
                assert(bufs@[q1] == m0.free[m0.free.len() - 1 - q1]);
                assert(bufs@[q2] == m0.free[m0.free.len() - 1 - q2]);
            }
            assert forall|q: int|
                0 <= q < bufs@.len() implies valid_pkt(self@, #[trigger] bufs@[q]) by {
                assert(bufs@[q] == m0.free[m0.free.len() - 1 - q]);
                assert(bufs@[q] < m0.slots.len());
                assert(seq_has(bufs@, bufs@[q] as int)) by {
                    assert(bufs@[q] as int == bufs@[q] as int);
                }
                assert(self@.slots[bufs@[q] as int] == fresh_mbuf(m0.headroom, m0.data_room));
            }
        }
        bufs
    }

    /// Shallow share: adds one holder to the packet and returns a handle
    /// aliasing the same backing memory. No packet bytes are copied.
    pub fn clone(&mut self, h: usize) -> (r: usize)
        requires
            old(self).wf(),
            valid_pkt(old(self)@, h),
            old(self)@.slots[h as int].refcnt < u16::MAX,
        ensures
            final(self).wf(),
            r == h,
            final(self)@ == with_refcnt(old(self)@, h, (old(self)@.slots[h as int].refcnt + 1) as u16),
            valid_pkt(final(self)@, h),
    {
        let s = self.slots[h];
        self.slots.set(h, Mbuf { refcnt: s.refcnt + 1, ..s });
        proof {
            lemma_refcnt_only_update_wf(old(self)@, self@, h);
        }
        h
    }

    /// Drop one holder of the packet `h`. While other holders remain, only
    /// the reference count changes; when the last holder releases it, the
    /// whole segment chain returns to the pool, and the handle stops being
    /// a live packet.
    #[verifier::rlimit(100)]
    pub fn free(&mut self, h: usize)
        requires
            old(self).wf(),
            valid_pkt(old(self)@, h),
        ensures
            final(self).wf(),
            old(self)@.slots[h as int].refcnt > 1 ==> final(self)@ == with_refcnt(
                old(self)@,
                h,
                (old(self)@.slots[h as int].refcnt - 1) as u16,
            ),
            old(self)@.slots[h as int].refcnt == 1 ==> final(self)@ == spec_release(old(self)@, h),
    {
        let s = self.slots[h];
        if s.refcnt > 1 {
            self.slots.set(h, Mbuf { refcnt: s.refcnt - 1, ..s });
            proof {
                lemma_refcnt_only_update_wf(old(self)@, self@, h);
            }
            return ;
        }
        let ghost m0 = self@;
        let ghost c = chain_from(m0, h);
        proof {
            lemma_chain_structure(m0, h);
        }
        let room = self.data_room;
        let mut cur_opt: Option<usize> = Some(h);
        let ghost mut k: int = 0;
        loop
            invariant
                self@.slots.len() == m0.slots.len(),
                self@.headroom == m0.headroom,
                self@.data_room == m0.data_room,
                room == m0.data_room,
                pool_wf(m0),
                valid_pkt(m0, h),
                c == chain_from(m0, h),
                0 <= k <= c.len(),
                cur_opt == (if k < c.len() {
                    Some(c[k])
                } else {
                    None::<usize>
                }),
                self@.free == m0.free + c.subrange(0, k),
                forall|i: int|
                    0 <= i < m0.slots.len() && !seq_has(c.subrange(0, k), i)
                        ==> self@.slots[i] == m0.slots[i],
                forall|q: int|
                    0 <= q < k ==> self@.slots[#[trigger] c[q] as int] == freed_mbuf(m0.data_room),
            ensures
                k == c.len(),
                self@.free == m0.free + c,
                self@.slots.len() == m0.slots.len(),
                self@.headroom == m0.headroom,
                self@.data_room == m0.data_room,
                forall|i: int|
                    0 <= i < m0.slots.len() && !seq_has(c, i) ==> self@.slots[i] == m0.slots[i],
                forall|q: int|
                    0 <= q < c.len() ==> self@.slots[#[trigger] c[q] as int] == freed_mbuf(
                        m0.data_room,
                    ),
            decreases c.len() - k,
        {
            match cur_opt {
                None => {
                    proof {
                        assert(c.subrange(0, k) =~= c);
                    }
                    break ;
                },
                Some(cur) => {
                    proof {
                        lemma_chain_structure(m0, h);
                        assert(!seq_has(c.subrange(0, k), cur as int)) by {
                            if seq_has(c.subrange(0, k), cur as int) {
                                let q = choose|q: int|
                                    0 <= q < c.subrange(0, k).len() && #[trigger] c.subrange(
                                        0,
                                        k,
                                    )[q] as int == cur as int;
                                assert(c[q] == c[k]);
                            }
                        }
                        assert(self@.slots[cur as int] == m0.slots[cur as int]);
                        if k < c.len() - 1 {
                            assert(m0.slots[c[k] as int].next == Some(c[k + 1]));
                        } else {
                            assert(m0.slots[c.last() as int].next is None);
                        }
                    }
                    let nxt = self.slots[cur].next;
                    self.slots.set(
                        cur,
                        Mbuf {
                            kind: SlotKind::Free,
                            refcnt: 0,
                            data_off: 0,
                            data_len: 0,
                            buf_len: room,
                            nb_segs: 1,
                            next: None,
                            ol_flags: 0,
                        },
                    );
                    self.free_list.push(cur);
                    cur_opt = nxt;
                    proof {
                        assert(c.subrange(0, k + 1) =~= c.subrange(0, k) + seq![c[k]]);
                        assert forall|i: int|
                            0 <= i < m0.slots.len() && !seq_has(c.subrange(0, k + 1), i)
                            implies self@.slots[i] == m0.slots[i] by {
                            assert(!seq_has(c.subrange(0, k), i)) by {
                                if seq_has(c.subrange(0, k), i) {
                                    let q = choose|q: int|
                                        0 <= q < c.subrange(0, k).len() && #[trigger] c.subrange(
                                            0,
                                            k,
                                        )[q] as int == i;
                                    assert(c.subrange(0, k + 1)[q] as int == i);
                                }
                            }
                            assert(c[k] as int != i) by {
                                assert(c.subrange(0, k + 1)[k] == c[k]);
                            }
                        }
                        assert(self@.free =~= m0.free + c.subrange(0, k + 1));
                        k = k + 1;
                    }
                },
            }
        }
        proof {
            lemma_release_wf(m0, h);
            assert forall|i: int| 0 <= i < m0.slots.len() implies self@.slots[i] == spec_release(
                m0,
                h,
            ).slots[i] by {
                if seq_has(c, i) {
                    let q = choose|q: int| 0 <= q < c.len() && #[trigger] c[q] as int == i;
                    assert(self@.slots[c[q] as int] == freed_mbuf(m0.data_room));
                }
            }
            assert(self@.slots =~= spec_release(m0, h).slots);
            assert(self@ =~= spec_release(m0, h));
        }
    }

    /// Move the data window back by `len` bytes, growing the packet at the
    /// front. Fails with `InsufficientHeadroom`, mutating nothing, exactly
    /// when `len` exceeds the first segment's headroom. On success returns
    /// the new data offset (the start of the prepended region).
    pub fn prepend(&mut self, h: usize, len: u16) -> (r: Result<u16, Error>)
        requires
            old(self).wf(),
            valid_pkt(old(self)@, h),
        ensures
            final(self).wf(),
            valid_pkt(final(self)@, h),
            r is Err <==> len > old(self)@.slots[h as int].data_off,
            r matches Err(e) ==> e == Error::InsufficientHeadroom && final(self)@ == old(self)@,
            r matches Ok(off) ==> {
                let s0 = old(self)@.slots[h as int];
                &&& off == s0.data_off - len
                &&& final(self)@ == (PoolModel {
                    slots: old(self)@.slots.update(
                        h as int,
                        Mbuf {
                            data_off: (s0.data_off - len) as u16,
                            data_len: (s0.data_len + len) as u16,
                            ..s0
                        },
                    ),
                    ..old(self)@
                })
            },
    {
        let s = self.slots[h];
        proof {
            assert(slot_wf(self@, h as int));
        }
        if len > s.data_off {
            return Err(Error::InsufficientHeadroom);
        }
        let new_off = s.data_off - len;
        let new_len = s.data_len + len;
        self.slots.set(h, Mbuf { data_off: new_off, data_len: new_len, ..s });
        proof {
            lemma_window_only_update_wf(old(self)@, self@, h);
        }
        Ok(new_off)
    }

    /// Advance the data window by `len` bytes, shrinking the packet from
    /// the front. Fails with `InvalidArgument`, mutating nothing, exactly
    /// when `len` exceeds the first segment's data length. On success
    /// returns the new data offset.
    pub fn consume(&mut self, h: usize, len: u16) -> (r: Result<u16, Error>)
        requires
            old(self).wf(),
            valid_pkt(old(self)@, h),
        ensures
            final(self).wf(),
            valid_pkt(final(self)@, h),
            r is Err <==> len > old(self)@.slots[h as int].data_len,
            r matches Err(e) ==> e == Error::InvalidArgument && final(self)@ == old(self)@,
            r matches Ok(off) ==> {
                let s0 = old(self)@.slots[h as int];
                &&& off == s0.data_off + len
                &&& final(self)@ == (PoolModel {
                    slots: old(self)@.slots.update(
                        h as int,
                        Mbuf {
                            data_off: (s0.data_off + len) as u16,
                            data_len: (s0.data_len - len) as u16,
                            ..s0
                        },
                    ),
                    ..old(self)@
                })
            },
    {
        let s = self.slots[h];
        proof {
            assert(slot_wf(self@, h as int));
        }
        if len > s.data_len {
            return Err(Error::InvalidArgument);
        }
        let new_off = s.data_off + len;
        let new_len = s.data_len - len;
        self.slots.set(h, Mbuf { data_off: new_off, data_len: new_len, ..s });
        proof {
            lemma_window_only_update_wf(old(self)@, self@, h);
        }
        Ok(new_off)
    }

    /// Walk the chain of `h` to its last segment.
    fn last_seg(&self, h: usize) -> (t: usize)
        requires
            self.wf(),
            valid_pkt(self@, h),
        ensures
            t == chain_from(self@, h).last(),
            t < self@.slots.len(),
            !(self@.slots[t as int].kind is Free),
            self@.slots[t as int].next is None,
    {
        proof {
            lemma_chain_structure(self@, h);
        }
        let ghost c = chain_from(self@, h);
        let mut cur: usize = h;
        let ghost mut k: int = 0;
        loop
            invariant
                self.wf(),
                valid_pkt(self@, h),
                c == chain_from(self@, h),
                0 <= k < c.len(),
                cur == c[k],
            ensures
                self.wf(),
                valid_pkt(self@, h),
                cur == chain_from(self@, h).last(),
            decreases c.len() - k,
        {
            proof {
                lemma_chain_structure(self@, h);
            }
            match self.slots[cur].next {
                None => {
                    proof {
                        if k < c.len() - 1 {
                            assert(self@.slots[c[k] as int].next == Some(c[k + 1]));
                        }
                        assert(k == c.len() - 1);
                    }
                    break ;
                },
                Some(j) => {
                    proof {
                        assert(self@.slots[c[k] as int].next == Some(c[k + 1]));
                        k = k + 1;
                    }
                    cur = j;
                },
            }
        }
        proof {
            lemma_chain_structure(self@, h);
        }
        cur
    }

    /// Extend the data window of the packet's last segment by `len` bytes,
    /// growing the packet at the back. Fails with `InsufficientTailroom`,
    /// mutating nothing, exactly when `len` exceeds the last segment's
    /// tailroom. On success returns the offset, within that segment's
    /// buffer, of the start of the appended region.
    pub fn append(&mut self, h: usize, len: u16) -> (r: Result<u16, Error>)
        requires
            old(self).wf(),
            valid_pkt(old(self)@, h),
        ensures
            final(self).wf(),
            valid_pkt(final(self)@, h),
            ({
                let m0 = old(self)@;
                let t = chain_from(m0, h).last();
                let s0 = m0.slots[t as int];
                &&& (r is Err <==> len > s0.buf_len - s0.data_off - s0.data_len)
                &&& (r matches Err(e) ==> e == Error::InsufficientTailroom && final(self)@ == m0)
                &&& (r matches Ok(off) ==> {
                    &&& off == s0.data_off + s0.data_len
                    &&& final(self)@ == (PoolModel {
                        slots: m0.slots.update(
                            t as int,
                            Mbuf { data_len: (s0.data_len + len) as u16, ..s0 },
                        ),
                        ..m0
                    })
                })
            }),
    {
        let t = self.last_seg(h);
        let s = self.slots[t];
        proof {
            assert(slot_wf(self@, t as int));
        }
        let tailroom = s.buf_len - s.data_off - s.data_len;
        if len > tailroom {
            return Err(Error::InsufficientTailroom);
        }
        let off = s.data_off + s.data_len;
        self.slots.set(t, Mbuf { data_len: s.data_len + len, ..s });
        proof {
            lemma_window_only_update_wf(old(self)@, self@, t);
            assert(valid_pkt(self@, h)) by {
                lemma_chain_structure(old(self)@, h);
            }
        }
        Ok(off)
    }

    /// Shrink the data window of the packet's last segment by `len` bytes,
    /// trimming the packet at the back. Fails with `InvalidArgument`,
    /// mutating nothing, exactly when `len` exceeds the last segment's
    /// data length.
    pub fn trim(&mut self, h: usize, len: u16) -> (r: Result<(), Error>)
        requires
            old(self).wf(),
            valid_pkt(old(self)@, h),
        ensures
            final(self).wf(),
            valid_pkt(final(self)@, h),
            ({
                let m0 = old(self)@;
                let t = chain_from(m0, h).last();
                let s0 = m0.slots[t as int];
                &&& (r is Err <==> len > s0.data_len)
                &&& (r matches Err(e) ==> e == Error::InvalidArgument && final(self)@ == m0)
                &&& (r is Ok ==> final(self)@ == (PoolModel {
                    slots: m0.slots.update(
                        t as int,
                        Mbuf { data_len: (s0.data_len - len) as u16, ..s0 },
                    ),
                    ..m0
                }))
            }),
    {
        let t = self.last_seg(h);
        let s = self.slots[t];
        proof {
            assert(slot_wf(self@, t as int));
        }
        if len > s.data_len {
            return Err(Error::InvalidArgument);
        }
        self.slots.set(t, Mbuf { data_len: s.data_len - len, ..s });
        proof {
            lemma_window_only_update_wf(old(self)@, self@, t);
            assert(valid_pkt(self@, h)) by {
                lemma_chain_structure(old(self)@, h);
            }
        }
        Ok(())
    }

    /// Link the packet `tail` to the end of the packet `head`, forming one
    /// chain. The caller must be the only holder of `tail`. Fails with
    /// `InvalidArgument`, mutating nothing, exactly when the combined
    /// segment count would not fit the segment counter.
    #[verifier::rlimit(50)]
    pub fn chain(&mut self, head: usize, tail: usize) -> (r: Result<(), Error>)
        requires
            old(self).wf(),
            valid_pkt(old(self)@, head),
            valid_pkt(old(self)@, tail),
            head != tail,
            old(self)@.slots[tail as int].refcnt == 1,
        ensures
            final(self).wf(),
            r is Ok <==> old(self)@.slots[head as int].nb_segs + old(self)@.slots[
                tail as int
            ].nb_segs <= u16::MAX,
            r matches Err(e) ==> e == Error::InvalidArgument && final(self)@ == old(self)@,
            r is Ok ==> final(self)@ == spec_chain(old(self)@, head, tail) && valid_pkt(
                final(self)@,
                head,
            ),
    {
        let ghost m0 = self@;
        let ghost c = chain_from(m0, head);
        proof {
            lemma_chain_structure(m0, head);
        }
        let extra = self.slots[tail].nb_segs;
        let head_segs = self.slots[head].nb_segs;
        if head_segs as u32 + extra as u32 > u16::MAX as u32 {
            return Err(Error::InvalidArgument);
        }
        let mut cur: usize = head;
        let ghost mut k: int = 0;
        loop
            invariant_except_break
                forall|q: int|
                    0 <= q < k ==> self@.slots[#[trigger] c[q] as int] == (Mbuf {
                        nb_segs: (m0.slots[c[q] as int].nb_segs + extra) as u16,
                        ..m0.slots[c[q] as int]
                    }),
                forall|i: int|
                    0 <= i < m0.slots.len() && !seq_has(c.subrange(0, k), i)
                        ==> self@.slots[i] == m0.slots[i],
            invariant
                self@.slots.len() == m0.slots.len(),
                self@.free == m0.free,
                self@.headroom == m0.headroom,
                self@.data_room == m0.data_room,
                extra == m0.slots[tail as int].nb_segs,
                m0.slots[head as int].nb_segs + extra <= u16::MAX,
                pool_wf(m0),
                valid_pkt(m0, head),
                c == chain_from(m0, head),
                0 <= k < c.len(),
                cur == c[k],
            ensures
                self@.slots.len() == m0.slots.len(),
                self@.free == m0.free,
                self@.headroom == m0.headroom,
                self@.data_room == m0.data_room,
                forall|q: int|
                    0 <= q < c.len() - 1 ==> self@.slots[#[trigger] c[q] as int] == (Mbuf {
                        nb_segs: (m0.slots[c[q] as int].nb_segs + extra) as u16,
                        ..m0.slots[c[q] as int]
                    }),
                self@.slots[c.last() as int] == (Mbuf {
                    nb_segs: (m0.slots[c.last() as int].nb_segs + extra) as u16,
                    next: Some(tail),
                    ..m0.slots[c.last() as int]
                }),
                forall|i: int|
                    0 <= i < m0.slots.len() && !seq_has(c, i) ==> self@.slots[i] == m0.slots[i],
            decreases c.len() - k,
        {
            proof {
                lemma_chain_structure(m0, head);
                assert(!seq_has(c.subrange(0, k), cur as int)) by {
                    if seq_has(c.subrange(0, k), cur as int) {
                        let q = choose|q: int|
                            0 <= q < c.subrange(0, k).len() && #[trigger] c.subrange(0, k)[q]
                                as int == cur as int;
                        assert(c[q] == c[k]);
                    }
                }
                assert(self@.slots[cur as int] == m0.slots[cur as int]);
                assert(m0.slots[c[k] as int].nb_segs == m0.slots[head as int].nb_segs - k);
            }
            let s = self.slots[cur];
            match s.next {
                None => {
                    self.slots.set(cur, Mbuf { nb_segs: s.nb_segs + extra, next: Some(tail), ..s });
                    proof {
                        if k < c.len() - 1 {
                            assert(m0.slots[c[k] as int].next == Some(c[k + 1]));
                        }
                        assert(k == c.len() - 1);
                        assert forall|i: int|
                            0 <= i < m0.slots.len() && !seq_has(c, i) implies self@.slots[i]
                            == m0.slots[i] by {
                            assert(!seq_has(c.subrange(0, k), i));
                            assert(c[k] as int != i);
                        }
                        assert forall|q: int|
                            0 <= q < c.len() - 1 implies self@.slots[#[trigger] c[q] as int]
                            == (Mbuf {
                            nb_segs: (m0.slots[c[q] as int].nb_segs + extra) as u16,
                            ..m0.slots[c[q] as int]
                        }) by {
                            assert(c.subrange(0, k)[q] == c[q]);
                            assert(c[q] != c[k]);
                        }
                    }
                    break ;
                },
                Some(j) => {
                    proof {
                        if k == c.len() - 1 {
                            assert(m0.slots[c.last() as int].next is None);
                        }
                        assert(m0.slots[c[k] as int].next == Some(c[k + 1]));
                    }
                    self.slots.set(cur, Mbuf { nb_segs: s.nb_segs + extra, ..s });
                    proof {
                        assert(c.subrange(0, k + 1) =~= c.subrange(0, k) + seq![c[k]]);
                        assert forall|i: int|
                            0 <= i < m0.slots.len() && !seq_has(c.subrange(0, k + 1), i)
                            implies self@.slots[i] == m0.slots[i] by {
                            assert(!seq_has(c.subrange(0, k), i)) by {
                                if seq_has(c.subrange(0, k), i) {
                                    let q = choose|q: int|
                                        0 <= q < c.subrange(0, k).len() && #[trigger] c.subrange(
                                            0,
                                            k,
                                        )[q] as int == i;
                                    assert(c.subrange(0, k + 1)[q] as int == i);
                                }
                            }
                            assert(c[k] as int != i) by {
                                assert(c.subrange(0, k + 1)[k] == c[k]);
                            }
                        }
                        k = k + 1;
                    }
                    cur = j;
                },
            }
        }
        proof {
            assert(!seq_has(c, tail as int)) by {
                if seq_has(c, tail as int) {
                    let q = choose|q: int| 0 <= q < c.len() && #[trigger] c[q] as int == tail as int;
                    if q > 0 {
                        assert(m0.slots[c[q] as int].kind is Seg);
                    }
                }
            }
        }
        let st = self.slots[tail];
        self.slots.set(tail, Mbuf { kind: SlotKind::Seg, ..st });
        proof {
            lemma_chain_link_wf(m0, head, tail);
            assert forall|i: int| 0 <= i < m0.slots.len() implies self@.slots[i] == spec_chain(
                m0,
                head,
                tail,
            ).slots[i] by {
                lemma_chain_structure(m0, head);
                if seq_has(c, i) {
                    let q = choose|q: int| 0 <= q < c.len() && #[trigger] c[q] as int == i;
                    if q == c.len() - 1 {
                        assert(m0.slots[i].next is None);
                    } else {
                        assert(m0.slots[c[q] as int].next == Some(c[q + 1]));
                    }
                }
            }
            assert(self@.slots =~= spec_chain(m0, head, tail).slots);
            assert(self@ =~= spec_chain(m0, head, tail));
        }
        Ok(())
    }

    /// True exactly when the packet occupies a single segment.
    pub fn is_contiguous(&self, h: usize) -> (r: bool)
        requires
            self.wf(),
            valid_pkt(self@, h),
        ensures
            r <==> self@.slots[h as int].nb_segs == 1,
    {
        self.slots[h].nb_segs == 1
    }
}

/// Explicit reference-count management, exposed for cooperating components
/// (such as the deferred transmit buffer) that manage shared ownership
/// themselves. Callers must not let a count underflow below zero or climb
/// past the true number of holders.
pub trait RefCnt {
    /// The structural invariant the implementation maintains.
    spec fn rc_inv(&self) -> bool;

    /// Whether `h` names a reference-counted buffer.
    spec fn rc_slot(&self, h: usize) -> bool;

    /// The current reference count of `h`.
    spec fn rc_of(&self, h: usize) -> u16;

    /// Add `value` (which may be negative) to the buffer's reference count
    /// and return the new count.
    fn refcnt_update(&mut self, h: usize, value: i16) -> (r: u16)
        requires
            old(self).rc_inv(),
            old(self).rc_slot(h),
            0 <= old(self).rc_of(h) + value <= u16::MAX,
        ensures
            final(self).rc_inv(),
            final(self).rc_slot(h),
            r == old(self).rc_of(h) + value,
            final(self).rc_of(h) == r,
    ;

    /// Read the buffer's reference count.
    fn refcnt_read(&mut self, h: usize) -> (r: u16)
        requires
            old(self).rc_inv(),
            old(self).rc_slot(h),
        ensures
            final(self).rc_inv(),
            final(self).rc_slot(h),
            r == old(self).rc_of(h),
            final(self).rc_of(h) == r,
    ;

    /// Set the buffer's reference count to `new_value`. A count of zero
    /// marks the buffer dead without returning it to the pool.
    fn refcnt_set(&mut self, h: usize, new_value: u16)
        requires
            old(self).rc_inv(),
            old(self).rc_slot(h),
        ensures
            final(self).rc_inv(),
            final(self).rc_slot(h),
            final(self).rc_of(h) == new_value,
    ;
}

impl RefCnt for MbufPool {
    open spec fn rc_inv(&self) -> bool {
        self.wf()
    }

    open spec fn rc_slot(&self, h: usize) -> bool {
        h < self@.slots.len() && self@.slots[h as int].kind is Head
    }

    open spec fn rc_of(&self, h: usize) -> u16 {
        self@.slots[h as int].refcnt
    }

    fn refcnt_update(&mut self, h: usize, value: i16) -> (r: u16)
        ensures
            final(self)@ == with_refcnt(old(self)@, h, (old(self)@.slots[h as int].refcnt
                + value) as u16),
    {
        let s = self.slots[h];
        let updated = (s.refcnt as i32 + value as i32) as u16;
        self.slots.set(h, Mbuf { refcnt: updated, ..s });
        proof {
            lemma_refcnt_only_update_wf(old(self)@, self@, h);
        }
        updated
    }

    fn refcnt_read(&mut self, h: usize) -> (r: u16)
        ensures
            final(self)@ == old(self)@,
    {
        self.slots[h].refcnt
    }

    fn refcnt_set(&mut self, h: usize, new_value: u16)
        ensures
            final(self)@ == with_refcnt(old(self)@, h, new_value),
    {
        let s = self.slots[h];
        self.slots.set(h, Mbuf { refcnt: new_value, ..s });
        proof {
            lemma_refcnt_only_update_wf(old(self)@, self@, h);
        }
    }
}

/// The model after one holder of the packet `h` is dropped: the count
/// falls by one, and the chain returns to the pool when it reaches zero.
pub open spec fn spec_free_one(m: PoolModel, h: usize) -> PoolModel {
    if m.slots[h as int].refcnt > 1 {
        with_refcnt(m, h, (m.slots[h as int].refcnt - 1) as u16)
    } else {
        spec_release(m, h)
    }
}

/// Releasing one packet leaves every other live packet live: two distinct
/// heads never share a chain slot.
pub proof fn lemma_release_preserves_heads(m: PoolModel, h: usize, h2: usize)
    requires
        pool_wf(m),
        valid_pkt(m, h),
        valid_pkt(m, h2),
        h2 != h,
    ensures
        valid_pkt(spec_release(m, h), h2),
        spec_release(m, h).slots[h2 as int] == m.slots[h2 as int],
{
    lemma_chain_structure(m, h);
    let c = chain_from(m, h);
    assert(!seq_has(c, h2 as int)) by {
        if seq_has(c, h2 as int) {
            let q = choose|q: int| 0 <= q < c.len() && #[trigger] c[q] as int == h2 as int;
            if q > 0 {
                assert(m.slots[c[q] as int].kind is Seg);
            }
        }
    }
}

/// Dropping one holder leaves every other live packet live, whatever the
/// count was.
pub proof fn lemma_free_one_preserves_heads(m: PoolModel, h: usize, h2: usize)
    requires
        pool_wf(m),
        valid_pkt(m, h),
        valid_pkt(m, h2),
        h2 != h,
    ensures
        valid_pkt(spec_free_one(m, h), h2),
        spec_free_one(m, h).slots[h2 as int] == m.slots[h2 as int],
{
    if m.slots[h as int].refcnt > 1 {
    } else {
        lemma_release_preserves_heads(m, h, h2);
    }
}

/// Every segment of a well-formed pool keeps its data window inside its
/// buffer: the data offset is nonnegative and `data_off + data_len` never
/// exceeds the capacity. The window operations keep the pool well formed
/// and fail without mutating it, so this bound holds after every call.
pub proof fn lemma_segment_window_bounded(m: PoolModel, i: int)
    requires
        pool_wf(m),
        0 <= i < m.slots.len(),
    ensures
        0 <= m.slots[i].data_off,
        m.slots[i].data_off + m.slots[i].data_len <= m.slots[i].buf_len,
{
    assert(slot_wf(m, i));
}

/// A slot never stands in a well-formed pool's free list twice: a buffer
/// whose count reaches zero is returned to its pool exactly once.
pub proof fn lemma_free_list_no_duplicates(m: PoolModel, k1: int, k2: int)
    requires
        pool_wf(m),
        0 <= k1 < k2 < m.free.len(),
    ensures
        m.free[k1] != m.free[k2],
{
}

/// Sharing a packet and then dropping one holder restores the pool
/// exactly: the increment of `clone` and the decrement of `free` cancel.
pub proof fn lemma_clone_then_free_restores(m: PoolModel, h: usize)
    requires
        pool_wf(m),
        valid_pkt(m, h),
        m.slots[h as int].refcnt < u16::MAX,
    ensures
        with_refcnt(
            with_refcnt(m, h, (m.slots[h as int].refcnt + 1) as u16),
            h,
            m.slots[h as int].refcnt,
        ) == m,
{
    let twice = with_refcnt(
        with_refcnt(m, h, (m.slots[h as int].refcnt + 1) as u16),
        h,
        m.slots[h as int].refcnt,
    );
    assert(twice.slots =~= m.slots);
    assert(twice =~= m);
}

/// Once the last holder has freed a packet, its handle no longer names a
/// live packet, so every operation's contract rejects it: a dead buffer
/// can be neither read nor written nor freed again.
pub proof fn lemma_released_handle_dead(m: PoolModel, h: usize)
    requires
        pool_wf(m),
        valid_pkt(m, h),
    ensures
        !valid_pkt(spec_release(m, h), h),
{
    lemma_chain_structure(m, h);
    assert(seq_has(chain_from(m, h), h as int)) by {
        assert(chain_from(m, h)[0] as int == h as int);
    }
}

/// An update that only rewrites the reference count of a head slot keeps
/// the pool well formed.
proof fn lemma_refcnt_only_update_wf(m0: PoolModel, m: PoolModel, h: usize)
    requires
        pool_wf(m0),
        h < m0.slots.len(),
        m0.slots[h as int].kind is Head,
        m == (PoolModel {
            slots: m0.slots.update(
                h as int,
                Mbuf { refcnt: m.slots[h as int].refcnt, ..m0.slots[h as int] },
            ),
            ..m0
        }),
    ensures
        pool_wf(m),
{
    assert forall|i: int| 0 <= i < m.slots.len() implies slot_wf(m, i) by {
        assert(slot_wf(m0, i));
        assert(slot_wf(m0, h as int));
    }
    assert forall|i: int|
        0 <= i < m.slots.len() && (#[trigger] m.slots[i].kind) is Free implies exists|k: int|
        0 <= k < m.free.len() && #[trigger] m.free[k] as int == i by {
        assert(m0.slots[i].kind is Free);
        let k0 = choose|k0: int|
            0 <= k0 < m0.free.len() && #[trigger] m0.free[k0] as int == i;
        assert(m.free[k0] as int == i);
    }
}

/// An update that only rewrites the data window of a slot, keeping the
/// window inside the buffer, keeps the pool well formed.
proof fn lemma_window_only_update_wf(m0: PoolModel, m: PoolModel, h: usize)
    requires
        pool_wf(m0),
        h < m0.slots.len(),
        !(m0.slots[h as int].kind is Free),
        m == (PoolModel {
            slots: m0.slots.update(
                h as int,
                Mbuf {
                    data_off: m.slots[h as int].data_off,
                    data_len: m.slots[h as int].data_len,
                    ..m0.slots[h as int]
                },
            ),
            ..m0
        }),
        m.slots[h as int].data_off + m.slots[h as int].data_len <= m.slots[h as int].buf_len,
    ensures
        pool_wf(m),
{
    assert forall|i: int| 0 <= i < m.slots.len() implies slot_wf(m, i) by {
        assert(slot_wf(m0, i));
        assert(slot_wf(m0, h as int));
    }
    assert forall|i: int|
        0 <= i < m.slots.len() && (#[trigger] m.slots[i].kind) is Free implies exists|k: int|
        0 <= k < m.free.len() && #[trigger] m.free[k] as int == i by {
        assert(m0.slots[i].kind is Free);
        let k0 = choose|k0: int|
            0 <= k0 < m0.free.len() && #[trigger] m0.free[k0] as int == i;
        assert(m.free[k0] as int == i);
    }
}

/// Returning a whole packet chain to the free list keeps the pool well
/// formed.
proof fn lemma_release_wf(m: PoolModel, h: usize)
    requires
        pool_wf(m),
        valid_pkt(m, h),
    ensures
        pool_wf(spec_release(m, h)),
{
    lemma_chain_structure(m, h);
    let c = chain_from(m, h);
    let mr = spec_release(m, h);

    // chain entries are never free slots
    assert forall|q: int| 0 <= q < c.len() implies !((#[trigger] m.slots[c[q] as int].kind)
        is Free) by {
        if q > 0 {
            assert(m.slots[c[q] as int].kind is Seg);
        }
    }
    // a slot outside the chain never points into the chain
    assert forall|i: int|
        0 <= i < m.slots.len() && !seq_has(c, i) implies match (#[trigger] m.slots[i].next) {
        Some(j) => !seq_has(c, j as int),
        None => true,
    } by {
        match m.slots[i].next {
            None => {},
            Some(j) => {
                if seq_has(c, j as int) {
                    let q = choose|q: int| 0 <= q < c.len() && #[trigger] c[q] as int == j as int;
                    assert(slot_wf(m, i));
                    if q == 0 {
                        assert(m.slots[j as int].kind is Head);
                        assert(m.slots[j as int].kind is Seg);
                    } else {
                        assert(m.slots[c[q - 1] as int].next == Some(c[q]));
                        assert(i == c[q - 1] as int);
                        assert(seq_has(c, i)) by {
                            assert(c[q - 1] as int == i);
                        }
                    }
                }
            },
        }
    }
    assert forall|i: int| 0 <= i < mr.slots.len() implies slot_wf(mr, i) by {
        assert(slot_wf(m, i));
        if !seq_has(c, i) {
            match m.slots[i].next {
                None => {},
                Some(j) => {
                    assert(!seq_has(c, j as int));
                    assert(mr.slots[j as int] == m.slots[j as int]);
                },
            }
        }
    }
    assert forall|k: int|
        0 <= k < mr.free.len() implies (#[trigger] mr.free[k] < mr.slots.len()
        && mr.slots[mr.free[k] as int].kind is Free) by {
        if k < m.free.len() {
            let f = m.free[k];
            assert(m.slots[f as int].kind is Free);
            assert(!seq_has(c, f as int)) by {
                if seq_has(c, f as int) {
                    let q = choose|q: int| 0 <= q < c.len() && #[trigger] c[q] as int == f as int;
                    assert(!(m.slots[c[q] as int].kind is Free));
                }
            }
            assert(mr.slots[f as int] == m.slots[f as int]);
        } else {
            let q = k - m.free.len();
            assert(mr.free[k] == c[q]);
            assert(seq_has(c, c[q] as int)) by {
                assert(c[q] as int == c[q] as int);
            }
        }
    }
    assert forall|k1: int, k2: int|
        0 <= k1 < k2 < mr.free.len() implies mr.free[k1] != mr.free[k2] by {
        if k2 < m.free.len() {
        } else if k1 < m.free.len() {
            let f = m.free[k1];
            let q = k2 - m.free.len();
            assert(m.slots[f as int].kind is Free);
            assert(!(m.slots[c[q] as int].kind is Free));
        } else {
            assert(c[k1 - m.free.len()] != c[k2 - m.free.len()]);
        }
    }
    assert forall|i: int|
        0 <= i < mr.slots.len() && (#[trigger] mr.slots[i].kind) is Free implies exists|k: int|
        0 <= k < mr.free.len() && #[trigger] mr.free[k] as int == i by {
        if seq_has(c, i) {
            let q = choose|q: int| 0 <= q < c.len() && #[trigger] c[q] as int == i;
            assert(mr.free[m.free.len() + q] as int == i);
        } else {
            assert(m.slots[i].kind is Free);
            let k0 = choose|k0: int| 0 <= k0 < m.free.len() && #[trigger] m.free[k0] as int == i;
            assert(mr.free[k0] as int == i);
        }
    }
    assert forall|i1: int, i2: int|
        #![trigger mr.slots[i1].next, mr.slots[i2].next]
        0 <= i1 < mr.slots.len() && 0 <= i2 < mr.slots.len() && mr.slots[i1].next is Some
            && mr.slots[i1].next == mr.slots[i2].next implies i1 == i2 by {
        assert(!seq_has(c, i1));
        assert(!seq_has(c, i2));
        assert(mr.slots[i1].next == m.slots[i1].next);
        assert(mr.slots[i2].next == m.slots[i2].next);
    }
}

/// Linking a packet whose only holder is the caller to the end of another
/// packet keeps the pool well formed.
proof fn lemma_chain_link_wf(m: PoolModel, head: usize, tail: usize)
    requires
        pool_wf(m),
        valid_pkt(m, head),
        valid_pkt(m, tail),
        head != tail,
        m.slots[tail as int].refcnt == 1,
        m.slots[head as int].nb_segs + m.slots[tail as int].nb_segs <= u16::MAX,
    ensures
        pool_wf(spec_chain(m, head, tail)),
        valid_pkt(spec_chain(m, head, tail), head),
{
    lemma_chain_structure(m, head);
    let c = chain_from(m, head);
    let extra = m.slots[tail as int].nb_segs;
    let mc = spec_chain(m, head, tail);

    // the head chain never holds `tail`: `tail` is a head, chain entries
    // past the first are segments, and the first is `head` itself
    assert forall|q: int| 0 <= q < c.len() implies c[q] != tail by {
        if q > 0 {
            assert(m.slots[c[q] as int].kind is Seg);
        }
    }
    // no slot of `m` points at `tail`: link targets are segments
    assert forall|i: int|
        0 <= i < m.slots.len() && #[trigger] m.slots[i].next is Some implies m.slots[i].next
        != Some(tail) by {
        assert(slot_wf(m, i));
        if m.slots[i].next == Some(tail) {
            assert(m.slots[tail as int].kind is Seg);
        }
    }
    // a slot outside the chain (and other than tail) never points into the
    // chain: each chain entry's only predecessor is the entry before it
    assert forall|i: int|
        0 <= i < m.slots.len() && !seq_has(c, i) implies match (#[trigger] m.slots[i].next) {
        Some(j) => !seq_has(c, j as int),
        None => true,
    } by {
        match m.slots[i].next {
            None => {},
            Some(j) => {
                if seq_has(c, j as int) {
                    let q = choose|q: int| 0 <= q < c.len() && #[trigger] c[q] as int == j as int;
                    assert(slot_wf(m, i));
                    if q == 0 {
                        assert(m.slots[j as int].kind is Head);
                        assert(m.slots[j as int].kind is Seg);
                    } else {
                        assert(m.slots[c[q - 1] as int].next == Some(c[q]));
                        assert(i == c[q - 1] as int);
                        assert(seq_has(c, i)) by {
                            assert(c[q - 1] as int == i);
                        }
                    }
                }
            },
        }
    }
    assert forall|i: int| 0 <= i < mc.slots.len() implies slot_wf(mc, i) by {
        assert(slot_wf(m, i));
        if i == tail as int {
            match m.slots[i].next {
                None => {},
                Some(j) => {
                    assert(!seq_has(c, j as int));
                    assert(j != tail);
                    assert(mc.slots[j as int] == m.slots[j as int]);
                },
            }
        } else if seq_has(c, i) {
            let q = choose|q: int| 0 <= q < c.len() && #[trigger] c[q] as int == i;
            assert(m.slots[c[q] as int].nb_segs == m.slots[head as int].nb_segs - q);
            match m.slots[i].next {
                None => {
                    if q < c.len() - 1 {
                        assert(m.slots[c[q] as int].next == Some(c[q + 1]));
                    }
                    assert(q == c.len() - 1);
                    assert(m.slots[i].nb_segs == 1);
                    assert(mc.slots[i].next == Some(tail));
                    assert(mc.slots[tail as int].kind is Seg);
                    assert(mc.slots[tail as int].nb_segs == extra);
                },
                Some(j) => {
                    if q == c.len() - 1 {
                        assert(m.slots[c.last() as int].next is None);
                    }
                    assert(m.slots[c[q] as int].next == Some(c[q + 1]));
                    assert(j == c[q + 1]);
                    assert(j != tail);
                    assert(seq_has(c, j as int)) by {
                        assert(c[q + 1] as int == j as int);
                    }
                    assert(mc.slots[j as int].nb_segs == (m.slots[j as int].nb_segs + extra) as u16);
                    assert(m.slots[j as int].nb_segs == m.slots[head as int].nb_segs - (q + 1));
                },
            }
        } else {
            match m.slots[i].next {
                None => {},
                Some(j) => {
                    assert(!seq_has(c, j as int));
                    assert(j != tail);
                    assert(mc.slots[j as int] == m.slots[j as int]);
                },
            }
        }
    }
    assert forall|k: int|
        0 <= k < mc.free.len() implies (#[trigger] mc.free[k] < mc.slots.len()
        && mc.slots[mc.free[k] as int].kind is Free) by {
        let f = m.free[k];
        assert(m.slots[f as int].kind is Free);
        assert(f != tail);
        if seq_has(c, f as int) {
            let q = choose|q: int| 0 <= q < c.len() && #[trigger] c[q] as int == f as int;
            if q > 0 {
                assert(m.slots[c[q] as int].kind is Seg);
            }
        }
        assert(mc.slots[f as int] == m.slots[f as int]);
    }
    assert forall|i: int|
        0 <= i < mc.slots.len() && (#[trigger] mc.slots[i].kind) is Free implies exists|k: int|
        0 <= k < mc.free.len() && #[trigger] mc.free[k] as int == i by {
        if i == tail as int {
            assert(mc.slots[i].kind is Seg);
        } else if seq_has(c, i) {
            let q = choose|q: int| 0 <= q < c.len() && #[trigger] c[q] as int == i;
            assert(mc.slots[i].kind == m.slots[i].kind);
            if q > 0 {
                assert(m.slots[c[q] as int].kind is Seg);
            }
            assert(false);
        } else {
            assert(m.slots[i].kind is Free);
            let k0 = choose|k0: int|
                0 <= k0 < m.free.len() && #[trigger] m.free[k0] as int == i;
            assert(mc.free[k0] as int == i);
        }
    }
    assert forall|i1: int, i2: int|
        #![trigger mc.slots[i1].next, mc.slots[i2].next]
        0 <= i1 < mc.slots.len() && 0 <= i2 < mc.slots.len() && mc.slots[i1].next is Some
            && mc.slots[i1].next == mc.slots[i2].next implies i1 == i2 by {
        let last = c.last() as int;
        if mc.slots[i1].next == Some(tail) {
            assert(i1 == last && i2 == last) by {
                if i1 != last {
                    assert(mc.slots[i1].next == m.slots[i1].next || (seq_has(c, i1)
                        && m.slots[i1].next is None));
                    if seq_has(c, i1) && m.slots[i1].next is None {
                        let q = choose|q: int|
                            0 <= q < c.len() && #[trigger] c[q] as int == i1;
                        if q < c.len() - 1 {
                            assert(m.slots[c[q] as int].next == Some(c[q + 1]));
                        }
                        assert(i1 == last);
                    }
                }
                if i2 != last {
                    if seq_has(c, i2) && m.slots[i2].next is None {
                        let q = choose|q: int|
                            0 <= q < c.len() && #[trigger] c[q] as int == i2;
                        if q < c.len() - 1 {
                            assert(m.slots[c[q] as int].next == Some(c[q + 1]));
                        }
                        assert(i2 == last);
                    }
                }
            }
        } else {
            assert(mc.slots[i1].next == m.slots[i1].next) by {
                if seq_has(c, i1) && m.slots[i1].next is None {
                    assert(mc.slots[i1].next == Some(tail));
                }
            }
            assert(mc.slots[i2].next == m.slots[i2].next) by {
                if seq_has(c, i2) && m.slots[i2].next is None {
                    assert(mc.slots[i2].next == Some(tail));
                }
            }
        }
    }
    assert(seq_has(c, head as int)) by {
        assert(c[0] as int == head as int);
    }
}

} // verus!
