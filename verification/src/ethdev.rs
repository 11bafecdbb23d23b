//! Devices: configuration, the device state machine, queue setup, burst
//! I/O against per-queue rings, and link/statistics introspection.
//!
//! All operations go through an explicit [`EthDevices`] registry, keyed by
//! a small-integer port handle that is validated before any operation
//! proceeds.

use vstd::prelude::*;

use crate::errors::Error;
use crate::flags::{
    DEV_RX_OFFLOAD_IPV4_CKSUM, DEV_RX_OFFLOAD_SCATTER, DEV_RX_OFFLOAD_TCP_CKSUM,
    DEV_RX_OFFLOAD_TCP_LRO, DEV_RX_OFFLOAD_UDP_CKSUM, DEV_RX_OFFLOAD_VLAN_EXTEND,
    DEV_RX_OFFLOAD_VLAN_FILTER, DEV_RX_OFFLOAD_VLAN_STRIP, DEV_TX_OFFLOAD_VLAN_INSERT,
    ETH_LINK_SPEED_100G, ETH_LINK_SPEED_100M, ETH_LINK_SPEED_100M_HD, ETH_LINK_SPEED_10G,
    ETH_LINK_SPEED_10M, ETH_LINK_SPEED_10M_HD, ETH_LINK_SPEED_1G, ETH_LINK_SPEED_20G,
    ETH_LINK_SPEED_25G, ETH_LINK_SPEED_2_5G, ETH_LINK_SPEED_40G, ETH_LINK_SPEED_50G,
    ETH_LINK_SPEED_56G, ETH_LINK_SPEED_5G, ETH_LINK_SPEED_AUTONEG, ETH_VLAN_ID_MAX,
    EthRxMultiQueueMode, EthVlanOffloadMode, EthVmdqRxMode, LinkSpeed, RssHashFunc,
};
use crate::mbuf::MbufPool;

verus! {

/// A device handle: a small unsigned integer, unique per attached port.
pub type PortId = u8;

/// A queue identifier, scoped to one device; RX and TX queue id spaces
/// are independent.
pub type QueueId = u16;

/// The most ports a registry can hold.
pub const MAX_PORTS: usize = 32;

/// Link-level information of a port.
#[derive(Clone, Copy, Debug, PartialEq, Eq, Structural)]
pub struct EthLink {
    /// Speed in Mbps.
    pub speed: u32,
    /// Full duplex?
    pub duplex: bool,
    /// Autonegotiated?
    pub autoneg: bool,
    /// Link up?
    pub up: bool,
}

impl EthLink {
    /// Decode link information from the packed status word: the low 32
    /// bits carry the speed in Mbps, bit 32 the duplex flag, bit 33 the
    /// autonegotiation flag and bit 34 the up/down flag.
    pub fn from_raw(link: u64) -> (r: EthLink)
        ensures
            r.speed == link & 0xFFFF_FFFF,
            r.duplex == ((link & (1u64 << 32)) != 0),
            r.autoneg == ((link & (1u64 << 33)) != 0),
            r.up == ((link & (1u64 << 34)) != 0),
    {
        proof {
            assert(link & 0xFFFF_FFFF <= 0xFFFF_FFFF) by (bit_vector);
        }
        EthLink {
            speed: (link & 0xFFFF_FFFF) as u32,
            duplex: (link & (1u64 << 32)) != 0,
            autoneg: (link & (1u64 << 33)) != 0,
            up: (link & (1u64 << 34)) != 0,
        }
    }
}

/// The state of a device in its life cycle.
#[derive(Clone, Copy, Debug, PartialEq, Eq, Structural)]
pub enum DevState {
    /// Attached but never configured, or returned here by `close`.
    Unconfigured,
    /// Configured; queues may be set up and the device started.
    Configured,
    /// Live: burst I/O is legal.
    Started,
    /// Halted; may be reconfigured or closed.
    Stopped,
    /// All queue resources released. Only `configure` brings the device
    /// back into use; everything else is refused.
    Closed,
}

/// `configure` is legal on a device that holds no live queues: one never
/// configured, one stopped, or one whose resources `close` has released.
pub open spec fn can_configure(s: DevState) -> bool {
    s is Unconfigured || s is Stopped || s is Closed
}

/// Queue setup is legal only between `configure` and `start`.
pub open spec fn can_queue_setup(s: DevState) -> bool {
    s is Configured
}

/// `start` is legal only on a configured device.
pub open spec fn can_start(s: DevState) -> bool {
    s is Configured
}

/// `stop` is legal only on a started device.
pub open spec fn can_stop(s: DevState) -> bool {
    s is Started
}

/// `close` is legal only on a stopped device.
pub open spec fn can_close(s: DevState) -> bool {
    s is Stopped
}

/// Runtime controls (promiscuous mode, MTU, VLAN, VF toggles, MAC, link)
/// need a device that is at least configured.
pub open spec fn at_least_configured(s: DevState) -> bool {
    s is Configured || s is Started || s is Stopped
}

/// Contextual information of a device: hardware limits and capabilities.
#[derive(Clone, Copy, Debug, PartialEq, Eq, Structural)]
pub struct EthDeviceInfo {
    /// Most RX queues the hardware supports.
    pub max_rx_queues: u16,
    /// Most TX queues the hardware supports.
    pub max_tx_queues: u16,
    /// Most descriptors an RX ring can hold.
    pub max_rx_desc: u16,
    /// Most descriptors a TX ring can hold.
    pub max_tx_desc: u16,
    /// Number of virtual functions.
    pub max_vfs: u16,
    /// Largest configurable MTU.
    pub max_mtu: u16,
    /// RX offload capability bits (`DEV_RX_OFFLOAD_*`).
    pub rx_offload_capa: u64,
    /// TX offload capability bits (`DEV_TX_OFFLOAD_*`).
    pub tx_offload_capa: u64,
    /// Flow types the hardware can hash on (`ETH_RSS_*`).
    pub flow_type_rss_offloads: u64,
    /// Speeds the hardware supports (`ETH_LINK_SPEED_*`).
    pub speed_capa: u32,
}

/// General I/O statistics of a device.
pub struct EthDeviceStats {
    /// Packets received.
    pub ipackets: u64,
    /// Packets transmitted.
    pub opackets: u64,
    /// Bytes received.
    pub ibytes: u64,
    /// Bytes transmitted.
    pub obytes: u64,
    /// Packets dropped for want of an RX descriptor.
    pub imissed: u64,
    /// Erroneous received packets.
    pub ierrors: u64,
    /// Failed transmissions.
    pub oerrors: u64,
    /// RX buffer allocation failures.
    pub rx_nombuf: u64,
    /// Per-RX-queue received packets.
    pub q_ipackets: Vec<u64>,
    /// Per-TX-queue transmitted packets.
    pub q_opackets: Vec<u64>,
}

/// The RX feature switches of a configuration.
#[derive(Clone, Copy, Debug, PartialEq, Eq, Structural)]
pub struct EthRxMode {
    /// The multi-queue packet distribution mode, e.g. RSS.
    pub mq_mode: EthRxMultiQueueMode,
    /// Header split size, 0 to disable.
    pub split_hdr_size: u16,
    /// Verify IP/UDP/TCP checksums in hardware.
    pub hw_ip_checksum: bool,
    /// Filter received packets by VLAN tag.
    pub hw_vlan_filter: bool,
    /// Strip VLAN tags in hardware.
    pub hw_vlan_strip: bool,
    /// Understand double VLAN tags.
    pub hw_vlan_extend: bool,
    /// Largest receivable frame.
    pub max_rx_pkt_len: u32,
    /// Strip the CRC in hardware.
    pub hw_strip_crc: bool,
    /// Scatter received frames over several buffers.
    pub enable_scatter: bool,
    /// Coalesce TCP segments in hardware (LRO).
    pub enable_lro: bool,
}

impl Default for EthRxMode {
    /// Every feature off, every size zero.
    fn default() -> (r: Self)
        ensures
            r == (EthRxMode {
                mq_mode: EthRxMultiQueueMode { bits: 0 },
                split_hdr_size: 0,
                hw_ip_checksum: false,
                hw_vlan_filter: false,
                hw_vlan_strip: false,
                hw_vlan_extend: false,
                max_rx_pkt_len: 0,
                hw_strip_crc: false,
                enable_scatter: false,
                enable_lro: false,
            }),
    {
        EthRxMode {
            mq_mode: EthRxMultiQueueMode { bits: 0 },
            split_hdr_size: 0,
            hw_ip_checksum: false,
            hw_vlan_filter: false,
            hw_vlan_strip: false,
            hw_vlan_extend: false,
            max_rx_pkt_len: 0,
            hw_strip_crc: false,
            enable_scatter: false,
            enable_lro: false,
        }
    }
}

/// The method used to transmit packets over multiple traffic classes.
#[derive(Clone, Copy, Debug, PartialEq, Eq, Structural)]
pub enum EthTxMultiQueueMode {
    /// No TX multi-queue mode.
    Off,
    /// DCB traffic classes.
    Dcb,
    /// VMDQ pools with DCB.
    VmdqDcb,
    /// VMDQ pools only.
    VmdqOnly,
}

/// The TX feature switches of a configuration.
#[derive(Clone, Copy, Debug, PartialEq, Eq, Structural)]
pub struct EthTxMode {
    /// TX multi-queue mode.
    pub mq_mode: EthTxMultiQueueMode,
    /// Reject sending out tagged packets.
    pub hw_vlan_reject_tagged: bool,
    /// Reject sending out untagged packets.
    pub hw_vlan_reject_untagged: bool,
    /// Enable port-based VLAN insertion.
    pub hw_vlan_insert_pvid: bool,
}

impl Default for EthTxMode {
    /// No multi-queue mode, every VLAN policy off.
    fn default() -> (r: Self)
        ensures
            r == (EthTxMode {
                mq_mode: EthTxMultiQueueMode::Off,
                hw_vlan_reject_tagged: false,
                hw_vlan_reject_untagged: false,
                hw_vlan_insert_pvid: false,
            }),
    {
        EthTxMode {
            mq_mode: EthTxMultiQueueMode::Off,
            hw_vlan_reject_tagged: false,
            hw_vlan_reject_untagged: false,
            hw_vlan_insert_pvid: false,
        }
    }
}

/// RSS configuration: an optional 40-byte hash key and the set of flow
/// types that take part in hashing.
#[derive(Clone, Copy, Debug)]
pub struct EthRssConf {
    /// The hash key, or `None` to keep the hardware default key.
    pub key: Option<[u8; 40]>,
    /// The participating flow types.
    pub hash: RssHashFunc,
}

impl Default for EthRssConf {
    /// Default key, no flow types.
    fn default() -> (r: Self)
        ensures
            r.key is None,
            r.hash.bits == 0,
    {
        EthRssConf { key: None, hash: RssHashFunc { bits: 0 } }
    }
}

/// Advanced RX filtering configuration.
#[derive(Clone, Copy, Debug)]
pub struct RxAdvConf {
    /// Port RSS configuration; absent leaves the hardware default.
    pub rss_conf: Option<EthRssConf>,
}

impl Default for RxAdvConf {
    /// No advanced RX configuration.
    fn default() -> (r: Self)
        ensures
            r.rss_conf is None,
    {
        RxAdvConf { rss_conf: None }
    }
}

/// Advanced TX configuration: which pool or traffic-class layout the TX
/// path distributes over. An absent one leaves the hardware default.
#[derive(Clone, Copy, Debug, PartialEq, Eq, Structural)]
pub enum TxAdvConf {
    /// VMDQ pools with DCB traffic classes.
    VmdqDcb { nb_queue_pools: u16 },
    /// DCB traffic classes only.
    Dcb { nb_tcs: u16 },
    /// VMDQ pools only.
    Vmdq { nb_queue_pools: u16 },
}

/// A device-wide configuration, applied by `configure` and immutable
/// until the device is reconfigured. An absent sub-configuration leaves
/// the hardware default untouched.
#[derive(Clone, Copy, Debug)]
pub struct EthConf {
    /// Set of speeds to advertise; `ETH_LINK_SPEED_AUTONEG` (0) advertises
    /// every supported speed.
    pub link_speeds: LinkSpeed,
    /// Port RX configuration.
    pub rxmode: Option<EthRxMode>,
    /// Port TX configuration.
    pub txmode: Option<EthTxMode>,
    /// Loopback operation mode: vendor-defined, 0 disables it; any other
    /// value makes the device echo transmitted packets to the RX queue
    /// with the same index.
    pub lpbk_mode: u32,
    /// Port RX filtering configuration.
    pub rx_adv_conf: Option<RxAdvConf>,
    /// Port TX DCB configuration.
    pub tx_adv_conf: Option<TxAdvConf>,
    /// Priority-flow-control capability switches.
    pub dcb_capability_en: u32,
}

impl Default for EthConf {
    /// Autonegotiate; every sub-configuration left to hardware defaults.
    fn default() -> (r: Self)
        ensures
            r.link_speeds.bits == 0,
            r.rxmode is None,
            r.txmode is None,
            r.lpbk_mode == 0,
            r.rx_adv_conf is None,
            r.tx_adv_conf is None,
            r.dcb_capability_en == 0,
    {
        EthConf {
            link_speeds: LinkSpeed { bits: 0 },
            rxmode: None,
            txmode: None,
            lpbk_mode: 0,
            rx_adv_conf: None,
            tx_adv_conf: None,
            dcb_capability_en: 0,
        }
    }
}

/// The RX offload capability bits a configuration's RX switches demand.
pub open spec fn spec_rx_offloads(m: EthRxMode) -> u64 {
    (if m.hw_ip_checksum {
        DEV_RX_OFFLOAD_IPV4_CKSUM | DEV_RX_OFFLOAD_UDP_CKSUM | DEV_RX_OFFLOAD_TCP_CKSUM
    } else {
        0
    }) | (if m.hw_vlan_filter {
        DEV_RX_OFFLOAD_VLAN_FILTER
    } else {
        0
    }) | (if m.hw_vlan_strip {
        DEV_RX_OFFLOAD_VLAN_STRIP
    } else {
        0
    }) | (if m.hw_vlan_extend {
        DEV_RX_OFFLOAD_VLAN_EXTEND
    } else {
        0
    }) | (if m.enable_scatter {
        DEV_RX_OFFLOAD_SCATTER
    } else {
        0
    }) | (if m.enable_lro {
        DEV_RX_OFFLOAD_TCP_LRO
    } else {
        0
    })
}

/// Compute the RX offload capability bits the RX switches demand.
pub fn required_rx_offloads(m: &EthRxMode) -> (r: u64)
    ensures
        r == spec_rx_offloads(*m),
{
    let cksum: u64 = if m.hw_ip_checksum {
        DEV_RX_OFFLOAD_IPV4_CKSUM | DEV_RX_OFFLOAD_UDP_CKSUM | DEV_RX_OFFLOAD_TCP_CKSUM
    } else {
        0
    };
    let filter: u64 = if m.hw_vlan_filter {
        DEV_RX_OFFLOAD_VLAN_FILTER
    } else {
        0
    };
    let strip: u64 = if m.hw_vlan_strip {
        DEV_RX_OFFLOAD_VLAN_STRIP
    } else {
        0
    };
    let extend: u64 = if m.hw_vlan_extend {
        DEV_RX_OFFLOAD_VLAN_EXTEND
    } else {
        0
    };
    let scatter: u64 = if m.enable_scatter {
        DEV_RX_OFFLOAD_SCATTER
    } else {
        0
    };
    let lro: u64 = if m.enable_lro {
        DEV_RX_OFFLOAD_TCP_LRO
    } else {
        0
    };
    cksum | filter | strip | extend | scatter | lro
}

/// The TX offload capability bits a configuration's TX switches demand.
pub open spec fn spec_tx_offloads(m: EthTxMode) -> u64 {
    if m.hw_vlan_insert_pvid {
        DEV_TX_OFFLOAD_VLAN_INSERT
    } else {
        0
    }
}

/// Whether a device with capabilities `info` supports everything the
/// configuration `conf` asks for.
pub open spec fn conf_supported(conf: EthConf, info: EthDeviceInfo) -> bool {
    &&& conf.link_speeds.bits & !info.speed_capa == 0
    &&& match conf.rxmode {
        Some(m) => spec_rx_offloads(m) & !info.rx_offload_capa == 0,
        None => true,
    }
    &&& match conf.txmode {
        Some(m) => spec_tx_offloads(m) & !info.tx_offload_capa == 0,
        None => true,
    }
    &&& match conf.rx_adv_conf {
        Some(adv) => match adv.rss_conf {
            Some(rss) => rss.hash.bits & !info.flow_type_rss_offloads == 0,
            None => true,
        },
        None => true,
    }
}

/// The smallest legal MTU.
pub const ETHER_MIN_MTU: u16 = 68;

/// A MAC address is valid when it is neither a group (multicast) address
/// nor all zeroes.
pub open spec fn valid_mac(a: [u8; 6]) -> bool {
    &&& a@[0] & 1 == 0
    &&& !(a@[0] == 0 && a@[1] == 0 && a@[2] == 0 && a@[3] == 0 && a@[4] == 0 && a@[5] == 0)
}

/// Whether the VLAN filter list holds `id`.
pub open spec fn vlan_has(s: Seq<u16>, id: u16) -> bool {
    exists|k: int| 0 <= k < s.len() && #[trigger] s[k] == id
}

/// The fastest speed of a capability set, in Mbps; 0 when the set names
/// no speed.
pub open spec fn spec_max_speed_mbps(capa: u32) -> u32 {
    if capa & ETH_LINK_SPEED_100G != 0 {
        100000
    } else if capa & ETH_LINK_SPEED_56G != 0 {
        56000
    } else if capa & ETH_LINK_SPEED_50G != 0 {
        50000
    } else if capa & ETH_LINK_SPEED_40G != 0 {
        40000
    } else if capa & ETH_LINK_SPEED_25G != 0 {
        25000
    } else if capa & ETH_LINK_SPEED_20G != 0 {
        20000
    } else if capa & ETH_LINK_SPEED_10G != 0 {
        10000
    } else if capa & ETH_LINK_SPEED_5G != 0 {
        5000
    } else if capa & ETH_LINK_SPEED_2_5G != 0 {
        2500
    } else if capa & ETH_LINK_SPEED_1G != 0 {
        1000
    } else if capa & ETH_LINK_SPEED_100M != 0 || capa & ETH_LINK_SPEED_100M_HD != 0 {
        100
    } else if capa & ETH_LINK_SPEED_10M != 0 || capa & ETH_LINK_SPEED_10M_HD != 0 {
        10
    } else {
        0
    }
}

/// The fastest speed of a capability set, in Mbps.
pub fn max_speed_mbps(capa: u32) -> (r: u32)
    ensures
        r == spec_max_speed_mbps(capa),
{
    if capa & ETH_LINK_SPEED_100G != 0 {
        100000
    } else if capa & ETH_LINK_SPEED_56G != 0 {
        56000
    } else if capa & ETH_LINK_SPEED_50G != 0 {
        50000
    } else if capa & ETH_LINK_SPEED_40G != 0 {
        40000
    } else if capa & ETH_LINK_SPEED_25G != 0 {
        25000
    } else if capa & ETH_LINK_SPEED_20G != 0 {
        20000
    } else if capa & ETH_LINK_SPEED_10G != 0 {
        10000
    } else if capa & ETH_LINK_SPEED_5G != 0 {
        5000
    } else if capa & ETH_LINK_SPEED_2_5G != 0 {
        2500
    } else if capa & ETH_LINK_SPEED_1G != 0 {
        1000
    } else if capa & ETH_LINK_SPEED_100M != 0 || capa & ETH_LINK_SPEED_100M_HD != 0 {
        100
    } else if capa & ETH_LINK_SPEED_10M != 0 || capa & ETH_LINK_SPEED_10M_HD != 0 {
        10
    } else {
        0
    }
}

/// One descriptor moving through a hardware ring: the packet handle and
/// the packet's byte length.
#[derive(Clone, Copy, Debug, PartialEq, Eq, Structural)]
pub struct PktDesc {
    /// Arena handle of the packet buffer.
    pub mbuf: usize,
    /// Total packet length in bytes.
    pub len: u32,
}

/// A receive queue: its descriptor ring, depth and activation state.
pub struct RxQueue {
    /// Ring depth.
    pub nb_desc: u16,
    /// Declared for deferred activation?
    pub deferred_start: bool,
    /// Live (accepting packets)?
    pub started: bool,
    /// Packets ready to be received, front first.
    pub ring: Vec<PktDesc>,
}

/// A transmit queue: its descriptor ring, depth and activation state.
pub struct TxQueue {
    /// Ring depth.
    pub nb_desc: u16,
    /// Declared for deferred activation?
    pub deferred_start: bool,
    /// Live (accepting packets)?
    pub started: bool,
    /// Packets handed to hardware and not yet drained, front first.
    pub ring: Vec<PktDesc>,
}

/// Configuration of one RX queue.
#[derive(Clone, Copy, Debug, PartialEq, Eq, Structural)]
pub struct EthRxQueueConf {
    /// Free-threshold hint.
    pub rx_free_thresh: u16,
    /// Drop packets when no descriptor is free.
    pub rx_drop_en: bool,
    /// Do not start this queue with the device; `rx_queue_start` starts it.
    pub rx_deferred_start: bool,
}

impl Default for EthRxQueueConf {
    /// No threshold, no dropping, started with the device.
    fn default() -> (r: Self)
        ensures
            r == (EthRxQueueConf { rx_free_thresh: 0, rx_drop_en: false, rx_deferred_start: false }),
    {
        EthRxQueueConf { rx_free_thresh: 0, rx_drop_en: false, rx_deferred_start: false }
    }
}

/// Configuration of one TX queue.
#[derive(Clone, Copy, Debug, PartialEq, Eq, Structural)]
pub struct EthTxQueueConf {
    /// Free-threshold hint.
    pub tx_free_thresh: u16,
    /// Do not start this queue with the device; `tx_queue_start` starts it.
    pub tx_deferred_start: bool,
}

impl Default for EthTxQueueConf {
    /// No threshold, started with the device.
    fn default() -> (r: Self)
        ensures
            r == (EthTxQueueConf { tx_free_thresh: 0, tx_deferred_start: false }),
    {
        EthTxQueueConf { tx_free_thresh: 0, tx_deferred_start: false }
    }
}

/// One attached device.
pub struct EthDev {
    /// Where the device stands in its life cycle.
    pub state: DevState,
    /// Hardware limits and capabilities.
    pub info: EthDeviceInfo,
    /// NUMA socket the device is connected to.
    pub socket_id: i32,
    /// Current MAC address.
    pub mac: [u8; 6],
    /// Current MTU.
    pub mtu: u16,
    /// Promiscuous receive mode.
    pub promiscuous: bool,
    /// Last known link state.
    pub link: EthLink,
    /// The applied configuration; meaningful once configured.
    pub conf: EthConf,
    /// Declared RX queues; `None` until set up.
    pub rx_queues: Vec<Option<RxQueue>>,
    /// Declared TX queues; `None` until set up.
    pub tx_queues: Vec<Option<TxQueue>>,
    /// VLAN tag identifiers the hardware filter accepts.
    pub vlan_filter: Vec<u16>,
    /// VLAN offload mode bits.
    pub vlan_offload: i32,
    /// Per-VF receive-mode bits.
    pub vf_rxmode: Vec<u16>,
    /// Per-VF receive enable.
    pub vf_rx_on: Vec<bool>,
    /// Per-VF transmit enable.
    pub vf_tx_on: Vec<bool>,
    /// I/O counters.
    pub stats: EthDeviceStats,
}

/// Structural invariant of one device.
pub open spec fn dev_wf(d: EthDev) -> bool {
    &&& d.rx_queues@.len() <= d.info.max_rx_queues
    &&& d.tx_queues@.len() <= d.info.max_tx_queues
    &&& forall|q: int|
        0 <= q < d.rx_queues@.len() ==> match #[trigger] d.rx_queues@[q] {
            Some(rxq) => rxq.ring@.len() <= rxq.nb_desc,
            None => true,
        }
    &&& forall|q: int|
        0 <= q < d.tx_queues@.len() ==> match #[trigger] d.tx_queues@[q] {
            Some(txq) => txq.ring@.len() <= txq.nb_desc,
            None => true,
        }
    &&& (d.state is Unconfigured || d.state is Closed) ==> d.rx_queues@.len() == 0
        && d.tx_queues@.len() == 0
    &&& d.state is Started ==> (forall|q: int|
        0 <= q < d.rx_queues@.len() ==> (#[trigger] d.rx_queues@[q]) is Some) && (forall|q: int|
        0 <= q < d.tx_queues@.len() ==> (#[trigger] d.tx_queues@[q]) is Some)
    &&& forall|k: int| 0 <= k < d.vlan_filter@.len() ==> #[trigger] d.vlan_filter@[k] <= 0x0FFF
    &&& forall|k1: int, k2: int|
        0 <= k1 < k2 < d.vlan_filter@.len() ==> d.vlan_filter@[k1] != d.vlan_filter@[k2]
    &&& d.vf_rxmode@.len() == d.info.max_vfs
    &&& d.vf_rx_on@.len() == d.info.max_vfs
    &&& d.vf_tx_on@.len() == d.info.max_vfs
    &&& d.stats.q_ipackets@.len() == d.rx_queues@.len()
    &&& d.stats.q_opackets@.len() == d.tx_queues@.len()
}

/// The attach-time identity of a device is unchanged.
pub open spec fn eq_identity(d0: EthDev, d: EthDev) -> bool {
    &&& d.info == d0.info
    &&& d.socket_id == d0.socket_id
}

/// The runtime-control state of a device is unchanged.
pub open spec fn eq_runtime(d0: EthDev, d: EthDev) -> bool {
    &&& d.mac == d0.mac
    &&& d.mtu == d0.mtu
    &&& d.promiscuous == d0.promiscuous
    &&& d.link == d0.link
    &&& d.vlan_filter@ == d0.vlan_filter@
    &&& d.vlan_offload == d0.vlan_offload
    &&& d.vf_rxmode@ == d0.vf_rxmode@
    &&& d.vf_rx_on@ == d0.vf_rx_on@
    &&& d.vf_tx_on@ == d0.vf_tx_on@
}

/// The configuration state of a device is unchanged.
pub open spec fn eq_config(d0: EthDev, d: EthDev) -> bool {
    &&& d.state == d0.state
    &&& d.conf == d0.conf
}

/// Two statistics records carry the same counts.
pub open spec fn eq_stats(s0: EthDeviceStats, s: EthDeviceStats) -> bool {
    &&& s.ipackets == s0.ipackets
    &&& s.opackets == s0.opackets
    &&& s.ibytes == s0.ibytes
    &&& s.obytes == s0.obytes
    &&& s.imissed == s0.imissed
    &&& s.ierrors == s0.ierrors
    &&& s.oerrors == s0.oerrors
    &&& s.rx_nombuf == s0.rx_nombuf
    &&& s.q_ipackets@ == s0.q_ipackets@
    &&& s.q_opackets@ == s0.q_opackets@
}

/// A statistics record with every counter zero and per-queue breakdowns
/// of the given lengths.
pub open spec fn stats_zeroed(s: EthDeviceStats, nrx: int, ntx: int) -> bool {
    &&& s.ipackets == 0
    &&& s.opackets == 0
    &&& s.ibytes == 0
    &&& s.obytes == 0
    &&& s.imissed == 0
    &&& s.ierrors == 0
    &&& s.oerrors == 0
    &&& s.rx_nombuf == 0
    &&& s.q_ipackets@.len() == nrx
    &&& s.q_opackets@.len() == ntx
    &&& (forall|k: int| 0 <= k < nrx ==> s.q_ipackets@[k] == 0)
    &&& (forall|k: int| 0 <= k < ntx ==> s.q_opackets@[k] == 0)
}

/// Every declared queue of the device has been set up.
pub open spec fn all_queues_setup(d: EthDev) -> bool {
    &&& forall|q: int| 0 <= q < d.rx_queues@.len() ==> (#[trigger] d.rx_queues@[q]) is Some
    &&& forall|q: int| 0 <= q < d.tx_queues@.len() ==> (#[trigger] d.tx_queues@[q]) is Some
}

/// The registry of attached devices, indexed by port handle.
pub struct EthDevices {
    /// The attached devices; a port handle is an index into this list.
    pub devs: Vec<EthDev>,
}

/// Everything except one runtime-control field of port `p` is unchanged.
pub open spec fn runtime_frame(devs0: Seq<EthDev>, devs: Seq<EthDev>, p: int) -> bool {
    &&& devs.len() == devs0.len()
    &&& (forall|p2: int| 0 <= p2 < devs0.len() && p2 != p ==> devs[p2] == devs0[p2])
    &&& eq_identity(devs0[p], devs[p])
    &&& eq_config(devs0[p], devs[p])
    &&& devs[p].rx_queues@ == devs0[p].rx_queues@
    &&& devs[p].tx_queues@ == devs0[p].tx_queues@
    &&& eq_stats(devs0[p].stats, devs[p].stats)
}

/// Only the MAC address of port `p` changed, to `addr`.
pub open spec fn only_mac_set(devs0: Seq<EthDev>, devs: Seq<EthDev>, p: int, addr: [u8; 6]) -> bool {
    &&& runtime_frame(devs0, devs, p)
    &&& devs[p].mac == addr
    &&& devs[p].mtu == devs0[p].mtu
    &&& devs[p].promiscuous == devs0[p].promiscuous
    &&& devs[p].link == devs0[p].link
    &&& devs[p].vlan_filter@ == devs0[p].vlan_filter@
    &&& devs[p].vlan_offload == devs0[p].vlan_offload
    &&& devs[p].vf_rxmode@ == devs0[p].vf_rxmode@
    &&& devs[p].vf_rx_on@ == devs0[p].vf_rx_on@
    &&& devs[p].vf_tx_on@ == devs0[p].vf_tx_on@
}

/// Only the promiscuous mode of port `p` changed, to `on`.
pub open spec fn only_promiscuous_set(devs0: Seq<EthDev>, devs: Seq<EthDev>, p: int, on: bool) -> bool {
    &&& runtime_frame(devs0, devs, p)
    &&& devs[p].mac == devs0[p].mac
    &&& devs[p].mtu == devs0[p].mtu
    &&& devs[p].promiscuous == on
    &&& devs[p].link == devs0[p].link
    &&& devs[p].vlan_filter@ == devs0[p].vlan_filter@
    &&& devs[p].vlan_offload == devs0[p].vlan_offload
    &&& devs[p].vf_rxmode@ == devs0[p].vf_rxmode@
    &&& devs[p].vf_rx_on@ == devs0[p].vf_rx_on@
    &&& devs[p].vf_tx_on@ == devs0[p].vf_tx_on@
}

/// Only the MTU of port `p` changed, to `mtu`.
pub open spec fn only_mtu_set(devs0: Seq<EthDev>, devs: Seq<EthDev>, p: int, mtu: u16) -> bool {
    &&& runtime_frame(devs0, devs, p)
    &&& devs[p].mac == devs0[p].mac
    &&& devs[p].mtu == mtu
    &&& devs[p].promiscuous == devs0[p].promiscuous
    &&& devs[p].link == devs0[p].link
    &&& devs[p].vlan_filter@ == devs0[p].vlan_filter@
    &&& devs[p].vlan_offload == devs0[p].vlan_offload
    &&& devs[p].vf_rxmode@ == devs0[p].vf_rxmode@
    &&& devs[p].vf_rx_on@ == devs0[p].vf_rx_on@
    &&& devs[p].vf_tx_on@ == devs0[p].vf_tx_on@
}

/// Only the link state of port `p` changed, to `link`.
pub open spec fn only_link_set(devs0: Seq<EthDev>, devs: Seq<EthDev>, p: int, link: EthLink) -> bool {
    &&& runtime_frame(devs0, devs, p)
    &&& devs[p].mac == devs0[p].mac
    &&& devs[p].mtu == devs0[p].mtu
    &&& devs[p].promiscuous == devs0[p].promiscuous
    &&& devs[p].link == link
    &&& devs[p].vlan_filter@ == devs0[p].vlan_filter@
    &&& devs[p].vlan_offload == devs0[p].vlan_offload
    &&& devs[p].vf_rxmode@ == devs0[p].vf_rxmode@
    &&& devs[p].vf_rx_on@ == devs0[p].vf_rx_on@
    &&& devs[p].vf_tx_on@ == devs0[p].vf_tx_on@
}

/// Only the VLAN offload mode of port `p` changed, to `bits`.
pub open spec fn only_vlan_offload_set(devs0: Seq<EthDev>, devs: Seq<EthDev>, p: int, bits: i32) -> bool {
    &&& runtime_frame(devs0, devs, p)
    &&& devs[p].mac == devs0[p].mac
    &&& devs[p].mtu == devs0[p].mtu
    &&& devs[p].promiscuous == devs0[p].promiscuous
    &&& devs[p].link == devs0[p].link
    &&& devs[p].vlan_filter@ == devs0[p].vlan_filter@
    &&& devs[p].vlan_offload == bits
    &&& devs[p].vf_rxmode@ == devs0[p].vf_rxmode@
    &&& devs[p].vf_rx_on@ == devs0[p].vf_rx_on@
    &&& devs[p].vf_tx_on@ == devs0[p].vf_tx_on@
}

/// Only the VLAN filter list of port `p` changed, to `filters`.
pub open spec fn only_vlan_filter_set(
    devs0: Seq<EthDev>,
    devs: Seq<EthDev>,
    p: int,
    filters: Seq<u16>,
) -> bool {
    &&& runtime_frame(devs0, devs, p)
    &&& devs[p].mac == devs0[p].mac
    &&& devs[p].mtu == devs0[p].mtu
    &&& devs[p].promiscuous == devs0[p].promiscuous
    &&& devs[p].link == devs0[p].link
    &&& devs[p].vlan_filter@ == filters
    &&& devs[p].vlan_offload == devs0[p].vlan_offload
    &&& devs[p].vf_rxmode@ == devs0[p].vf_rxmode@
    &&& devs[p].vf_rx_on@ == devs0[p].vf_rx_on@
    &&& devs[p].vf_tx_on@ == devs0[p].vf_tx_on@
}

/// Only the per-VF state of port `p` changed, to the given lists.
pub open spec fn only_vf_state_set(
    devs0: Seq<EthDev>,
    devs: Seq<EthDev>,
    p: int,
    rxmode: Seq<u16>,
    rx_on: Seq<bool>,
    tx_on: Seq<bool>,
) -> bool {
    &&& runtime_frame(devs0, devs, p)
    &&& devs[p].mac == devs0[p].mac
    &&& devs[p].mtu == devs0[p].mtu
    &&& devs[p].promiscuous == devs0[p].promiscuous
    &&& devs[p].link == devs0[p].link
    &&& devs[p].vlan_filter@ == devs0[p].vlan_filter@
    &&& devs[p].vlan_offload == devs0[p].vlan_offload
    &&& devs[p].vf_rxmode@ == rxmode
    &&& devs[p].vf_rx_on@ == rx_on
    &&& devs[p].vf_tx_on@ == tx_on
}

/// Copy a counter vector.
fn copy_counters(v: &Vec<u64>) -> (r: Vec<u64>)
    ensures
        r@ == v@,
{
    let mut r: Vec<u64> = Vec::new();
    let mut i: usize = 0;
    while i < v.len()
        invariant
            i <= v@.len(),
            r@ == v@.subrange(0, i as int),
        decreases v@.len() - i,
    {
        r.push(v[i]);
        i = i + 1;
        proof {
            assert(r@ =~= v@.subrange(0, i as int));
        }
    }
    proof {
        assert(v@.subrange(0, v@.len() as int) =~= v@);
    }
    r
}

/// What `configure` answers, by the state-machine rules: an unknown port
/// or an excessive queue count is rejected as `InvalidArgument`, a device
/// that is neither fresh, stopped nor closed as `InvalidState`, and a
/// configuration asking for a feature the hardware lacks as
/// `Unsupported`.
pub open spec fn configure_outcome(
    devs: Seq<EthDev>,
    port: u8,
    nb_rx: u16,
    nb_tx: u16,
    conf: EthConf,
) -> Result<(), Error> {
    if port as int >= devs.len() {
        Err(Error::InvalidArgument)
    } else if !can_configure(devs[port as int].state) {
        Err(Error::InvalidState)
    } else if nb_rx > devs[port as int].info.max_rx_queues || nb_tx > devs[
        port as int
    ].info.max_tx_queues {
        Err(Error::InvalidArgument)
    } else if !conf_supported(conf, devs[port as int].info) {
        Err(Error::Unsupported)
    } else {
        Ok(())
    }
}

/// What a queue-setup call answers: an unknown port or queue id or a
/// zero ring is rejected as `InvalidArgument`, a device that is not in
/// the configured state as `InvalidState`, and a ring deeper than the
/// hardware can back with descriptor memory as `OutOfResources`.
pub open spec fn queue_setup_outcome(
    devs: Seq<EthDev>,
    port: u8,
    queue_id: u16,
    nb_desc: u16,
    declared: int,
    max_desc: u16,
) -> Result<(), Error> {
    if port as int >= devs.len() {
        Err(Error::InvalidArgument)
    } else if !can_queue_setup(devs[port as int].state) {
        Err(Error::InvalidState)
    } else if queue_id as int >= declared || nb_desc == 0 {
        Err(Error::InvalidArgument)
    } else if nb_desc > max_desc {
        Err(Error::OutOfResources)
    } else {
        Ok(())
    }
}

/// `b` is `a` with only its activation state set to `started`.
pub open spec fn rxq_same_but(a: RxQueue, b: RxQueue, started: bool, ring: Seq<PktDesc>) -> bool {
    &&& b.nb_desc == a.nb_desc
    &&& b.deferred_start == a.deferred_start
    &&& b.started == started
    &&& b.ring@ == ring
}

/// `b` is `a` with only its activation state set to `started`.
pub open spec fn txq_same_but(a: TxQueue, b: TxQueue, started: bool, ring: Seq<PktDesc>) -> bool {
    &&& b.nb_desc == a.nb_desc
    &&& b.deferred_start == a.deferred_start
    &&& b.started == started
    &&& b.ring@ == ring
}

/// Of the whole registry, only the activation flag of RX queue `q` of
/// port `p` changed, to `on`.
pub open spec fn rx_queue_flag_set(
    devs0: Seq<EthDev>,
    devs: Seq<EthDev>,
    p: int,
    q: int,
    on: bool,
) -> bool {
    &&& devs.len() == devs0.len()
    &&& (forall|p2: int| 0 <= p2 < devs0.len() && p2 != p ==> devs[p2] == devs0[p2])
    &&& ({
        let d0 = devs0[p];
        let d = devs[p];
        &&& eq_identity(d0, d)
        &&& eq_runtime(d0, d)
        &&& eq_config(d0, d)
        &&& eq_stats(d0.stats, d.stats)
        &&& d.tx_queues@ == d0.tx_queues@
        &&& d.rx_queues@.len() == d0.rx_queues@.len()
        &&& (forall|j: int|
            0 <= j < d0.rx_queues@.len() && j != q ==> d.rx_queues@[j] == d0.rx_queues@[j])
        &&& match d0.rx_queues@[q] {
            Some(a) => d.rx_queues@[q] matches Some(b) && rxq_same_but(a, b, on, a.ring@),
            None => d.rx_queues@[q] is None,
        }
    })
}

/// Of the whole registry, only the activation flag of TX queue `q` of
/// port `p` changed, to `on`.
pub open spec fn tx_queue_flag_set(
    devs0: Seq<EthDev>,
    devs: Seq<EthDev>,
    p: int,
    q: int,
    on: bool,
) -> bool {
    &&& devs.len() == devs0.len()
    &&& (forall|p2: int| 0 <= p2 < devs0.len() && p2 != p ==> devs[p2] == devs0[p2])
    &&& ({
        let d0 = devs0[p];
        let d = devs[p];
        &&& eq_identity(d0, d)
        &&& eq_runtime(d0, d)
        &&& eq_config(d0, d)
        &&& eq_stats(d0.stats, d.stats)
        &&& d.rx_queues@ == d0.rx_queues@
        &&& d.tx_queues@.len() == d0.tx_queues@.len()
        &&& (forall|j: int|
            0 <= j < d0.tx_queues@.len() && j != q ==> d.tx_queues@[j] == d0.tx_queues@[j])
        &&& match d0.tx_queues@[q] {
            Some(a) => d.tx_queues@[q] matches Some(b) && txq_same_but(a, b, on, a.ring@),
            None => d.tx_queues@[q] is None,
        }
    })
}

/// When the device starts, each set-up queue becomes live unless it was
/// declared with deferred activation; nothing else of it changes.
pub open spec fn rxq_opt_started_dev(oq: Option<RxQueue>, nq: Option<RxQueue>) -> bool {
    match oq {
        Some(a) => nq matches Some(b) && rxq_same_but(a, b, !a.deferred_start, a.ring@),
        None => nq is None,
    }
}

/// When the device starts, each set-up queue becomes live unless it was
/// declared with deferred activation; nothing else of it changes.
pub open spec fn txq_opt_started_dev(oq: Option<TxQueue>, nq: Option<TxQueue>) -> bool {
    match oq {
        Some(a) => nq matches Some(b) && txq_same_but(a, b, !a.deferred_start, a.ring@),
        None => nq is None,
    }
}

/// When the device stops, each set-up queue is halted and its ring
/// drained; nothing else of it changes.
pub open spec fn rxq_opt_stopped_dev(oq: Option<RxQueue>, nq: Option<RxQueue>) -> bool {
    match oq {
        Some(a) => nq matches Some(b) && rxq_same_but(a, b, false, Seq::<PktDesc>::empty()),
        None => nq is None,
    }
}

/// When the device stops, each set-up queue is halted and its ring
/// drained; nothing else of it changes.
pub open spec fn txq_opt_stopped_dev(oq: Option<TxQueue>, nq: Option<TxQueue>) -> bool {
    match oq {
        Some(a) => nq matches Some(b) && txq_same_but(a, b, false, Seq::<PktDesc>::empty()),
        None => nq is None,
    }
}

/// What `start` answers: an unknown port is rejected as
/// `InvalidArgument`, a device that is not configured as `InvalidState`,
/// and the hardware rejects the start of a device with a declared queue
/// that was never set up, reported as `DeviceError`; the device then
/// remains configured.
pub open spec fn start_outcome(devs: Seq<EthDev>, port: u8) -> Result<(), Error> {
    if port as int >= devs.len() {
        Err(Error::InvalidArgument)
    } else if !can_start(devs[port as int].state) {
        Err(Error::InvalidState)
    } else if !all_queues_setup(devs[port as int]) {
        Err(Error::DeviceError(-1i32))
    } else {
        Ok(())
    }
}

/// What `stop` answers: an unknown port is rejected as
/// `InvalidArgument` and a device that is not started as `InvalidState`.
pub open spec fn stop_outcome(devs: Seq<EthDev>, port: u8) -> Result<(), Error> {
    if port as int >= devs.len() {
        Err(Error::InvalidArgument)
    } else if !can_stop(devs[port as int].state) {
        Err(Error::InvalidState)
    } else {
        Ok(())
    }
}

/// What `close` answers: an unknown port is rejected as
/// `InvalidArgument` and a device that is not stopped as `InvalidState`.
pub open spec fn close_outcome(devs: Seq<EthDev>, port: u8) -> Result<(), Error> {
    if port as int >= devs.len() {
        Err(Error::InvalidArgument)
    } else if !can_close(devs[port as int].state) {
        Err(Error::InvalidState)
    } else {
        Ok(())
    }
}

/// What a per-queue start/stop answers: an unknown port or queue id is
/// rejected as `InvalidArgument`, a device that is not started as
/// `InvalidState`.
pub open spec fn queue_ctl_outcome(devs: Seq<EthDev>, port: u8, queue_id: u16, declared: int)
    -> Result<(), Error> {
    if port as int >= devs.len() {
        Err(Error::InvalidArgument)
    } else if !(devs[port as int].state is Started) {
        Err(Error::InvalidState)
    } else if queue_id as int >= declared {
        Err(Error::InvalidArgument)
    } else {
        Ok(())
    }
}

/// The descriptors held by the first `upto` RX rings, in queue order.
pub open spec fn ring_descs_rx(qs: Seq<Option<RxQueue>>, upto: int) -> Seq<PktDesc>
    decreases upto,
{
    if upto <= 0 {
        Seq::<PktDesc>::empty()
    } else {
        ring_descs_rx(qs, upto - 1) + (match qs[upto - 1] {
            Some(q) => q.ring@,
            None => Seq::<PktDesc>::empty(),
        })
    }
}

/// The descriptors held by the first `upto` TX rings, in queue order.
pub open spec fn ring_descs_tx(qs: Seq<Option<TxQueue>>, upto: int) -> Seq<PktDesc>
    decreases upto,
{
    if upto <= 0 {
        Seq::<PktDesc>::empty()
    } else {
        ring_descs_tx(qs, upto - 1) + (match qs[upto - 1] {
            Some(q) => q.ring@,
            None => Seq::<PktDesc>::empty(),
        })
    }
}

/// The accepted byte count of a descriptor sequence.
pub open spec fn sum_desc_lens(s: Seq<PktDesc>) -> int
    decreases s.len(),
{
    if s.len() == 0 {
        0
    } else {
        sum_desc_lens(s.drop_last()) + s.last().len
    }
}

/// The byte count of a descriptor sequence is never negative.
pub proof fn lemma_sum_desc_lens_nonneg(s: Seq<PktDesc>)
    ensures
        sum_desc_lens(s) >= 0,
    decreases s.len(),
{
    if s.len() > 0 {
        lemma_sum_desc_lens_nonneg(s.drop_last());
    }
}

/// Saturating addition of a nonnegative delta to a counter.
pub open spec fn sat_add_u64(a: u64, d: int) -> u64 {
    if a + d <= u64::MAX {
        (a + d) as u64
    } else {
        u64::MAX
    }
}

/// Burst receive is legal on a started device whose queue is set up and
/// live; using any other queue is outside the hot path's contract.
pub open spec fn rx_burst_ready(devs: Seq<EthDev>, port: u8, q: u16) -> bool {
    &&& (port as int) < devs.len()
    &&& devs[port as int].state is Started
    &&& (q as int) < devs[port as int].rx_queues@.len()
    &&& devs[port as int].rx_queues@[q as int] matches Some(rxq) && rxq.started
}

/// Burst transmit is legal on a started device whose queue is set up and
/// live.
pub open spec fn tx_burst_ready(devs: Seq<EthDev>, port: u8, q: u16) -> bool {
    &&& (port as int) < devs.len()
    &&& devs[port as int].state is Started
    &&& (q as int) < devs[port as int].tx_queues@.len()
    &&& devs[port as int].tx_queues@[q as int] matches Some(txq) && txq.started
}

/// What one burst receive of up to `nb` packets does: the first
/// `min(nb, ready)` descriptors leave the front of the RX ring and are
/// returned in order; the receive counters grow by the packets and bytes
/// received; nothing else of the registry changes.
pub open spec fn rx_burst_post(
    devs0: Seq<EthDev>,
    devs: Seq<EthDev>,
    port: u8,
    q: u16,
    nb: int,
    pkts: Seq<PktDesc>,
) -> bool {
    &&& devs.len() == devs0.len()
    &&& (forall|p2: int| 0 <= p2 < devs0.len() && p2 != port as int ==> devs[p2] == devs0[p2])
    &&& ({
        let d0 = devs0[port as int];
        let d = devs[port as int];
        match d0.rx_queues@[q as int] {
            Some(rxq0) => {
                let n = if nb <= rxq0.ring@.len() {
                    nb
                } else {
                    rxq0.ring@.len() as int
                };
                &&& pkts.len() == n
                &&& pkts == rxq0.ring@.subrange(0, n)
                &&& eq_identity(d0, d)
                &&& eq_runtime(d0, d)
                &&& eq_config(d0, d)
                &&& d.tx_queues@ == d0.tx_queues@
                &&& d.rx_queues@.len() == d0.rx_queues@.len()
                &&& (forall|j: int|
                    0 <= j < d0.rx_queues@.len() && j != q as int ==> d.rx_queues@[j]
                        == d0.rx_queues@[j])
                &&& (d.rx_queues@[q as int] matches Some(rxq) && rxq_same_but(
                    rxq0,
                    rxq,
                    rxq0.started,
                    rxq0.ring@.subrange(n, rxq0.ring@.len() as int),
                ))
                &&& d.stats.ipackets == sat_add_u64(d0.stats.ipackets, n)
                &&& d.stats.ibytes == sat_add_u64(d0.stats.ibytes, sum_desc_lens(pkts))
                &&& d.stats.q_ipackets@ == d0.stats.q_ipackets@.update(
                    q as int,
                    sat_add_u64(d0.stats.q_ipackets@[q as int], n),
                )
                &&& d.stats.opackets == d0.stats.opackets
                &&& d.stats.obytes == d0.stats.obytes
                &&& d.stats.imissed == d0.stats.imissed
                &&& d.stats.ierrors == d0.stats.ierrors
                &&& d.stats.oerrors == d0.stats.oerrors
                &&& d.stats.rx_nombuf == d0.stats.rx_nombuf
                &&& d.stats.q_opackets@ == d0.stats.q_opackets@
            },
            None => false,
        }
    })
}

/// What one burst transmit does. Without loopback, the hardware accepts
/// as many of the leading descriptors as its TX ring has room for and
/// appends them there. With loopback, the accepted descriptors are
/// echoed to the back of the RX ring with the same queue index instead;
/// a missing echo target accepts nothing. The transmit counters grow by
/// the packets and bytes accepted; nothing else of the registry changes.
pub open spec fn tx_burst_post(
    devs0: Seq<EthDev>,
    devs: Seq<EthDev>,
    port: u8,
    q: u16,
    pkts: Seq<PktDesc>,
    n: int,
) -> bool {
    &&& devs.len() == devs0.len()
    &&& (forall|p2: int| 0 <= p2 < devs0.len() && p2 != port as int ==> devs[p2] == devs0[p2])
    &&& ({
        let d0 = devs0[port as int];
        let d = devs[port as int];
        &&& eq_identity(d0, d)
        &&& eq_runtime(d0, d)
        &&& eq_config(d0, d)
        &&& (if d0.conf.lpbk_mode == 0 {
            match d0.tx_queues@[q as int] {
                Some(txq0) => {
                    let space = txq0.nb_desc - txq0.ring@.len();
                    &&& n == (if pkts.len() <= space {
                        pkts.len() as int
                    } else {
                        space
                    })
                    &&& d.rx_queues@ == d0.rx_queues@
                    &&& d.tx_queues@.len() == d0.tx_queues@.len()
                    &&& (forall|j: int|
                        0 <= j < d0.tx_queues@.len() && j != q as int ==> d.tx_queues@[j]
                            == d0.tx_queues@[j])
                    &&& (d.tx_queues@[q as int] matches Some(txq) && txq_same_but(
                        txq0,
                        txq,
                        txq0.started,
                        txq0.ring@ + pkts.subrange(0, n),
                    ))
                },
                None => false,
            }
        } else {
            if (q as int) < d0.rx_queues@.len() && d0.rx_queues@[q as int] is Some {
                match d0.rx_queues@[q as int] {
                    Some(rxq0) => {
                        let space = rxq0.nb_desc - rxq0.ring@.len();
                        &&& n == (if pkts.len() <= space {
                            pkts.len() as int
                        } else {
                            space
                        })
                        &&& d.tx_queues@ == d0.tx_queues@
                        &&& d.rx_queues@.len() == d0.rx_queues@.len()
                        &&& (forall|j: int|
                            0 <= j < d0.rx_queues@.len() && j != q as int ==> d.rx_queues@[j]
                                == d0.rx_queues@[j])
                        &&& (d.rx_queues@[q as int] matches Some(rxq) && rxq_same_but(
                            rxq0,
                            rxq,
                            rxq0.started,
                            rxq0.ring@ + pkts.subrange(0, n),
                        ))
                    },
                    None => false,
                }
            } else {
                &&& n == 0
                &&& d.rx_queues@ == d0.rx_queues@
                &&& d.tx_queues@ == d0.tx_queues@
            }
        })
        &&& d.stats.opackets == sat_add_u64(d0.stats.opackets, n)
        &&& d.stats.obytes == sat_add_u64(d0.stats.obytes, sum_desc_lens(pkts.subrange(0, n)))
        &&& d.stats.q_opackets@ == d0.stats.q_opackets@.update(
            q as int,
            sat_add_u64(d0.stats.q_opackets@[q as int], n),
        )
        &&& d.stats.ipackets == d0.stats.ipackets
        &&& d.stats.ibytes == d0.stats.ibytes
        &&& d.stats.imissed == d0.stats.imissed
        &&& d.stats.ierrors == d0.stats.ierrors
        &&& d.stats.oerrors == d0.stats.oerrors
        &&& d.stats.rx_nombuf == d0.stats.rx_nombuf
        &&& d.stats.q_ipackets@ == d0.stats.q_ipackets@
    })
}

/// Saturating add for statistics counters.
fn sat_add64(a: u64, d: u64) -> (r: u64)
    ensures
        r == sat_add_u64(a, d as int),
{
    if a <= u64::MAX - d {
        a + d
    } else {
        u64::MAX
    }
}

/// Sum the byte lengths of a descriptor list, saturating at the counter
/// ceiling.
fn sum_lens(descs: &Vec<PktDesc>) -> (r: u64)
    ensures
        r == sat_add_u64(0, sum_desc_lens(descs@)),
{
    let mut acc: u64 = 0;
    let mut i: usize = 0;
    while i < descs.len()
        invariant
            i <= descs@.len(),
            acc == sat_add_u64(0, sum_desc_lens(descs@.subrange(0, i as int))),
        decreases descs@.len() - i,
    {
        let ghost pre = descs@.subrange(0, i as int);
        acc = sat_add64(acc, descs[i].len as u64);
        i = i + 1;
        proof {
            let cur = descs@.subrange(0, i as int);
            assert(cur.drop_last() =~= pre);
            assert(cur.last() == descs@[i - 1]);
            lemma_sum_desc_lens_nonneg(pre);
            assert(sum_desc_lens(cur) == sum_desc_lens(pre) + descs@[i - 1].len);
        }
    }
    proof {
        assert(descs@.subrange(0, descs@.len() as int) =~= descs@);
    }
    acc
}

/// Build a list of `n` not-yet-set-up RX queue slots.
fn none_rx_queues(n: u16) -> (v: Vec<Option<RxQueue>>)
    ensures
        v@.len() == n,
        forall|q: int| 0 <= q < n ==> (#[trigger] v@[q]) is None,
{
    let mut v: Vec<Option<RxQueue>> = Vec::new();
    let mut i: usize = 0;
    while i < n as usize
        invariant
            i <= n as usize,
            v@.len() == i,
            forall|q: int| 0 <= q < i ==> (#[trigger] v@[q]) is None,
        decreases n as usize - i,
    {
        v.push(None);
        i = i + 1;
    }
    v
}

/// Build a list of `n` not-yet-set-up TX queue slots.
fn none_tx_queues(n: u16) -> (v: Vec<Option<TxQueue>>)
    ensures
        v@.len() == n,
        forall|q: int| 0 <= q < n ==> (#[trigger] v@[q]) is None,
{
    let mut v: Vec<Option<TxQueue>> = Vec::new();
    let mut i: usize = 0;
    while i < n as usize
        invariant
            i <= n as usize,
            v@.len() == i,
            forall|q: int| 0 <= q < i ==> (#[trigger] v@[q]) is None,
        decreases n as usize - i,
    {
        v.push(None);
        i = i + 1;
    }
    v
}

/// Build a vector of `n` zero counters.
fn zero_counters(n: usize) -> (v: Vec<u64>)
    ensures
        v@.len() == n,
        forall|k: int| 0 <= k < n ==> v@[k] == 0,
{
    let mut v: Vec<u64> = Vec::new();
    let mut i: usize = 0;
    while i < n
        invariant
            i <= n,
            v@.len() == i,
            forall|k: int| 0 <= k < i ==> v@[k] == 0,
        decreases n - i,
    {
        v.push(0);
        i = i + 1;
    }
    v
}

/// A statistics record with every counter zero.
fn zero_stats(nrx: u16, ntx: u16) -> (s: EthDeviceStats)
    ensures
        stats_zeroed(s, nrx as int, ntx as int),
{
    EthDeviceStats {
        ipackets: 0,
        opackets: 0,
        ibytes: 0,
        obytes: 0,
        imissed: 0,
        ierrors: 0,
        oerrors: 0,
        rx_nombuf: 0,
        q_ipackets: zero_counters(nrx as usize),
        q_opackets: zero_counters(ntx as usize),
    }
}

/// Check that a device with capabilities `info` supports everything the
/// configuration asks for.
fn check_conf_supported(conf: &EthConf, info: &EthDeviceInfo) -> (r: bool)
    ensures
        r == conf_supported(*conf, *info),
{
    if conf.link_speeds.bits & !info.speed_capa != 0 {
        return false;
    }
    match &conf.rxmode {
        Some(m) => {
            if required_rx_offloads(m) & !info.rx_offload_capa != 0 {
                return false;
            }
        },
        None => {},
    }
    match &conf.txmode {
        Some(m) => {
            let need: u64 = if m.hw_vlan_insert_pvid {
                DEV_TX_OFFLOAD_VLAN_INSERT
            } else {
                0
            };
            if need & !info.tx_offload_capa != 0 {
                return false;
            }
        },
        None => {},
    }
    match &conf.rx_adv_conf {
        Some(adv) => match &adv.rss_conf {
            Some(rss) => {
                if rss.hash.bits & !info.flow_type_rss_offloads != 0 {
                    return false;
                }
            },
            None => {},
        },
        None => {},
    }
    true
}

impl EthDevices {
    /// Structural invariant of the registry and every device in it.
    pub open spec fn wf(&self) -> bool {
        &&& self.devs@.len() <= MAX_PORTS
        &&& forall|p: int| 0 <= p < self.devs@.len() ==> dev_wf(#[trigger] self.devs@[p])
    }

    /// A registry with no devices attached.
    pub fn new() -> (r: EthDevices)
        ensures
            r.wf(),
            r.devs@.len() == 0,
    {
        EthDevices { devs: Vec::new() }
    }

    /// The number of attached devices. Every port handle in
    /// `0 .. count()` can be operated on.
    pub fn count(&self) -> (r: u8)
        requires
            self.wf(),
        ensures
            r == self.devs@.len(),
    {
        self.devs.len() as u8
    }

    /// The range of valid port handles.
    pub fn devices(&self) -> (r: core::ops::Range<PortId>)
        requires
            self.wf(),
        ensures
            r.start == 0,
            r.end == self.devs@.len(),
    {
        0..self.count()
    }

    /// Whether `port` names an attached device.
    pub fn is_valid(&self, port: PortId) -> (r: bool)
        requires
            self.wf(),
        ensures
            r == ((port as int) < self.devs@.len()),
    {
        (port as usize) < self.devs.len()
    }

    /// Attach a new device described by `devargs` at runtime, with the
    /// capabilities `info`, connected to `socket_id`. Fails with
    /// `InvalidArgument` on an empty descriptor and with `OutOfResources`
    /// when every port handle is taken. Returns the new port handle.
    pub fn attach(&mut self, devargs: &str, info: EthDeviceInfo, socket_id: i32) -> (r: Result<
        PortId,
        Error,
    >)
        requires
            old(self).wf(),
        ensures
            final(self).wf(),
            r is Err ==> final(self).devs@ == old(self).devs@,
            r matches Err(e) ==> (e == Error::InvalidArgument <==> devargs@.len() == 0) && (e
                == Error::OutOfResources <==> devargs@.len() > 0),
            r is Err <==> (devargs@.len() == 0 || old(self).devs@.len() >= MAX_PORTS),
            r matches Ok(port) ==> {
                &&& port == old(self).devs@.len()
                &&& final(self).devs@.len() == old(self).devs@.len() + 1
                &&& (forall|p: int|
                    0 <= p < old(self).devs@.len() ==> final(self).devs@[p] == old(self).devs@[p])
                &&& ({
                    let d = final(self).devs@.last();
                    &&& d.state is Unconfigured
                    &&& d.info == info
                    &&& d.socket_id == socket_id
                    &&& d.mtu == 1500
                    &&& !d.promiscuous
                    &&& d.link == (EthLink { speed: 0, duplex: false, autoneg: false, up: false })
                    &&& d.rx_queues@.len() == 0
                    &&& d.tx_queues@.len() == 0
                    &&& d.vlan_filter@.len() == 0
                    &&& d.vf_rxmode@.len() == info.max_vfs
                    &&& d.vf_rx_on@.len() == info.max_vfs
                    &&& d.vf_tx_on@.len() == info.max_vfs
                })
            },
    {
        if devargs.unicode_len() == 0 {
            return Err(Error::InvalidArgument);
        }
        if self.devs.len() >= MAX_PORTS {
            return Err(Error::OutOfResources);
        }
        let port = self.devs.len() as u8;
        let vfs = info.max_vfs as usize;
        let mut vf_rxmode: Vec<u16> = Vec::new();
        let mut vf_rx_on: Vec<bool> = Vec::new();
        let mut vf_tx_on: Vec<bool> = Vec::new();
        let mut i: usize = 0;
        while i < vfs
            invariant
                i <= vfs,
                vf_rxmode@.len() == i,
                vf_rx_on@.len() == i,
                vf_tx_on@.len() == i,
            decreases vfs - i,
        {
            vf_rxmode.push(0);
            vf_rx_on.push(false);
            vf_tx_on.push(false);
            i = i + 1;
        }
        let dev = EthDev {
            state: DevState::Unconfigured,
            info,
            socket_id,
            mac: [0, 0, 0, 0, 0, 0],
            mtu: 1500,
            promiscuous: false,
            link: EthLink { speed: 0, duplex: false, autoneg: false, up: false },
            conf: EthConf::default(),
            rx_queues: Vec::new(),
            tx_queues: Vec::new(),
            vlan_filter: Vec::new(),
            vlan_offload: 0,
            vf_rxmode,
            vf_rx_on,
            vf_tx_on,
            stats: EthDeviceStats {
                ipackets: 0,
                opackets: 0,
                ibytes: 0,
                obytes: 0,
                imissed: 0,
                ierrors: 0,
                oerrors: 0,
                rx_nombuf: 0,
                q_ipackets: Vec::new(),
                q_opackets: Vec::new(),
            },
        };
        self.devs.push(dev);
        Ok(port)
    }

    /// The contextual information of a device.
    pub fn info(&self, port: PortId) -> (r: EthDeviceInfo)
        requires
            self.wf(),
            (port as int) < self.devs@.len(),
        ensures
            r == self.devs@[port as int].info,
    {
        self.devs[port as usize].info
    }

    /// Configure a device: fix its RX and TX queue counts and apply the
    /// device-wide settings. Legal on a device that is unconfigured,
    /// stopped, or closed; it must be invoked before any other operation
    /// on the device. The previous queue setups and counters are
    /// discarded; the queue counts stay fixed until the device is
    /// reconfigured.
    pub fn configure(&mut self, port: PortId, nb_rx_queue: u16, nb_tx_queue: u16, conf: &EthConf)
        -> (r: Result<(), Error>)
        requires
            old(self).wf(),
        ensures
            final(self).wf(),
            r == configure_outcome(old(self).devs@, port, nb_rx_queue, nb_tx_queue, *conf),
            r is Err ==> final(self).devs@ == old(self).devs@,
            r is Ok ==> {
                let d0 = old(self).devs@[port as int];
                let d = final(self).devs@[port as int];
                &&& final(self).devs@.len() == old(self).devs@.len()
                &&& (forall|p: int|
                    0 <= p < old(self).devs@.len() && p != port as int
                        ==> final(self).devs@[p] == old(self).devs@[p])
                &&& eq_identity(d0, d)
                &&& eq_runtime(d0, d)
                &&& d.state is Configured
                &&& d.conf == *conf
                &&& d.rx_queues@.len() == nb_rx_queue
                &&& (forall|q: int| 0 <= q < nb_rx_queue ==> (#[trigger] d.rx_queues@[q]) is None)
                &&& d.tx_queues@.len() == nb_tx_queue
                &&& (forall|q: int| 0 <= q < nb_tx_queue ==> (#[trigger] d.tx_queues@[q]) is None)
                &&& stats_zeroed(d.stats, nb_rx_queue as int, nb_tx_queue as int)
            },
    {
        if port as usize >= self.devs.len() {
            return Err(Error::InvalidArgument);
        }
        let state = self.devs[port as usize].state;
        let legal = match state {
            DevState::Unconfigured => true,
            DevState::Stopped => true,
            DevState::Closed => true,
            _ => false,
        };
        if !legal {
            return Err(Error::InvalidState);
        }
        let info = self.devs[port as usize].info;
        if nb_rx_queue > info.max_rx_queues || nb_tx_queue > info.max_tx_queues {
            return Err(Error::InvalidArgument);
        }
        if !check_conf_supported(conf, &info) {
            return Err(Error::Unsupported);
        }
        let mut d = self.devs.remove(port as usize);
        d.state = DevState::Configured;
        d.conf = *conf;
        d.rx_queues = none_rx_queues(nb_rx_queue);
        d.tx_queues = none_tx_queues(nb_tx_queue);
        d.stats = zero_stats(nb_rx_queue, nb_tx_queue);
        self.devs.insert(port as usize, d);
        proof {
            assert(self.devs@ =~= old(self).devs@.update(port as int, self.devs@[port as int]));
        }
        Ok(())
    }

    /// Allocate and set up a receive queue, binding it to the pool from
    /// which the hardware will draw receive buffers. Legal only between
    /// `configure` and `start`; must be called once for every declared RX
    /// queue index, in any order, before `start`.
    pub fn rx_queue_setup(
        &mut self,
        port: PortId,
        rx_queue_id: QueueId,
        nb_rx_desc: u16,
        rx_conf: Option<EthRxQueueConf>,
        mb_pool: &MbufPool,
    ) -> (r: Result<(), Error>)
        requires
            old(self).wf(),
        ensures
            final(self).wf(),
            r == queue_setup_outcome(
                old(self).devs@,
                port,
                rx_queue_id,
                nb_rx_desc,
                (if (port as int) < old(self).devs@.len() {
                    old(self).devs@[port as int].rx_queues@.len() as int
                } else {
                    0
                }),
                (if (port as int) < old(self).devs@.len() {
                    old(self).devs@[port as int].info.max_rx_desc
                } else {
                    0
                }),
            ),
            r is Err ==> final(self).devs@ == old(self).devs@,
            r is Ok ==> {
                let d0 = old(self).devs@[port as int];
                let d = final(self).devs@[port as int];
                &&& final(self).devs@.len() == old(self).devs@.len()
                &&& (forall|p: int|
                    0 <= p < old(self).devs@.len() && p != port as int
                        ==> final(self).devs@[p] == old(self).devs@[p])
                &&& eq_identity(d0, d)
                &&& eq_runtime(d0, d)
                &&& eq_config(d0, d)
                &&& eq_stats(d0.stats, d.stats)
                &&& d.tx_queues@ == d0.tx_queues@
                &&& d.rx_queues@.len() == d0.rx_queues@.len()
                &&& (forall|q: int|
                    0 <= q < d0.rx_queues@.len() && q != rx_queue_id as int
                        ==> d.rx_queues@[q] == d0.rx_queues@[q])
                &&& (d.rx_queues@[rx_queue_id as int] matches Some(rxq) && rxq.nb_desc == nb_rx_desc
                    && rxq.deferred_start == (match rx_conf {
                    Some(c) => c.rx_deferred_start,
                    None => false,
                }) && !rxq.started && rxq.ring@.len() == 0)
            },
    {
        let _ = mb_pool;
        if port as usize >= self.devs.len() {
            return Err(Error::InvalidArgument);
        }
        let state = self.devs[port as usize].state;
        if !(matches!(state, DevState::Configured)) {
            return Err(Error::InvalidState);
        }
        let declared = self.devs[port as usize].rx_queues.len();
        if rx_queue_id as usize >= declared || nb_rx_desc == 0 {
            return Err(Error::InvalidArgument);
        }
        let info = self.devs[port as usize].info;
        if nb_rx_desc > info.max_rx_desc {
            return Err(Error::OutOfResources);
        }
        let deferred = match rx_conf {
            Some(c) => c.rx_deferred_start,
            None => false,
        };
        let mut d = self.devs.remove(port as usize);
        d.rx_queues.set(
            rx_queue_id as usize,
            Some(
                RxQueue {
                    nb_desc: nb_rx_desc,
                    deferred_start: deferred,
                    started: false,
                    ring: Vec::new(),
                },
            ),
        );
        self.devs.insert(port as usize, d);
        proof {
            assert(self.devs@ =~= old(self).devs@.update(port as int, self.devs@[port as int]));
        }
        Ok(())
    }

    /// Allocate and set up a transmit queue. Legal only between
    /// `configure` and `start`; must be called once for every declared TX
    /// queue index, in any order, before `start`.
    pub fn tx_queue_setup(
        &mut self,
        port: PortId,
        tx_queue_id: QueueId,
        nb_tx_desc: u16,
        tx_conf: Option<EthTxQueueConf>,
    ) -> (r: Result<(), Error>)
        requires
            old(self).wf(),
        ensures
            final(self).wf(),
            r == queue_setup_outcome(
                old(self).devs@,
                port,
                tx_queue_id,
                nb_tx_desc,
                (if (port as int) < old(self).devs@.len() {
                    old(self).devs@[port as int].tx_queues@.len() as int
                } else {
                    0
                }),
                (if (port as int) < old(self).devs@.len() {
                    old(self).devs@[port as int].info.max_tx_desc
                } else {
                    0
                }),
            ),
            r is Err ==> final(self).devs@ == old(self).devs@,
            r is Ok ==> {
                let d0 = old(self).devs@[port as int];
                let d = final(self).devs@[port as int];
                &&& final(self).devs@.len() == old(self).devs@.len()
                &&& (forall|p: int|
                    0 <= p < old(self).devs@.len() && p != port as int
                        ==> final(self).devs@[p] == old(self).devs@[p])
                &&& eq_identity(d0, d)
                &&& eq_runtime(d0, d)
                &&& eq_config(d0, d)
                &&& eq_stats(d0.stats, d.stats)
                &&& d.rx_queues@ == d0.rx_queues@
                &&& d.tx_queues@.len() == d0.tx_queues@.len()
                &&& (forall|q: int|
                    0 <= q < d0.tx_queues@.len() && q != tx_queue_id as int
                        ==> d.tx_queues@[q] == d0.tx_queues@[q])
                &&& (d.tx_queues@[tx_queue_id as int] matches Some(txq) && txq.nb_desc == nb_tx_desc
                    && txq.deferred_start == (match tx_conf {
                    Some(c) => c.tx_deferred_start,
                    None => false,
                }) && !txq.started && txq.ring@.len() == 0)
            },
    {
        if port as usize >= self.devs.len() {
            return Err(Error::InvalidArgument);
        }
        let state = self.devs[port as usize].state;
        if !(matches!(state, DevState::Configured)) {
            return Err(Error::InvalidState);
        }
        let declared = self.devs[port as usize].tx_queues.len();
        if tx_queue_id as usize >= declared || nb_tx_desc == 0 {
            return Err(Error::InvalidArgument);
        }
        let info = self.devs[port as usize].info;
        if nb_tx_desc > info.max_tx_desc {
            return Err(Error::OutOfResources);
        }
        let deferred = match tx_conf {
            Some(c) => c.tx_deferred_start,
            None => false,
        };
        let mut d = self.devs.remove(port as usize);
        d.tx_queues.set(
            tx_queue_id as usize,
            Some(
                TxQueue {
                    nb_desc: nb_tx_desc,
                    deferred_start: deferred,
                    started: false,
                    ring: Vec::new(),
                },
            ),
        );
        self.devs.insert(port as usize, d);
        proof {
            assert(self.devs@ =~= old(self).devs@.update(port as int, self.devs@[port as int]));
        }
        Ok(())
    }

    /// Start a configured device: allocate the hardware rings and make
    /// the queues live. Every declared queue must have been set up, or
    /// the hardware rejects the start with `DeviceError` and the device
    /// remains configured. Queues declared with deferred activation stay
    /// stopped until their own start call.
    pub fn start(&mut self, port: PortId) -> (r: Result<(), Error>)
        requires
            old(self).wf(),
        ensures
            final(self).wf(),
            r == start_outcome(old(self).devs@, port),
            r is Err ==> final(self).devs@ == old(self).devs@,
            r is Ok ==> {
                let d0 = old(self).devs@[port as int];
                let d = final(self).devs@[port as int];
                &&& final(self).devs@.len() == old(self).devs@.len()
                &&& (forall|p: int|
                    0 <= p < old(self).devs@.len() && p != port as int
                        ==> final(self).devs@[p] == old(self).devs@[p])
                &&& eq_identity(d0, d)
                &&& eq_runtime(d0, d)
                &&& eq_stats(d0.stats, d.stats)
                &&& d.conf == d0.conf
                &&& d.state is Started
                &&& d.rx_queues@.len() == d0.rx_queues@.len()
                &&& (forall|q: int|
                    0 <= q < d0.rx_queues@.len() ==> rxq_opt_started_dev(
                        #[trigger] d0.rx_queues@[q],
                        d.rx_queues@[q],
                    ))
                &&& d.tx_queues@.len() == d0.tx_queues@.len()
                &&& (forall|q: int|
                    0 <= q < d0.tx_queues@.len() ==> txq_opt_started_dev(
                        #[trigger] d0.tx_queues@[q],
                        d.tx_queues@[q],
                    ))
            },
    {
        if port as usize >= self.devs.len() {
            return Err(Error::InvalidArgument);
        }
        let state = self.devs[port as usize].state;
        if !(matches!(state, DevState::Configured)) {
            return Err(Error::InvalidState);
        }
        let nrx = self.devs[port as usize].rx_queues.len();
        let mut all_setup = true;
        let mut q: usize = 0;
        while q < nrx
            invariant
                old(self).wf(),
                self.devs@ == old(self).devs@,
                (port as int) < self.devs@.len(),
                nrx == self.devs@[port as int].rx_queues@.len(),
                q <= nrx,
                all_setup <==> (forall|j: int|
                    0 <= j < q ==> (#[trigger] self.devs@[port as int].rx_queues@[j]) is Some),
            decreases nrx - q,
        {
            if self.devs[port as usize].rx_queues[q].is_none() {
                all_setup = false;
            }
            q = q + 1;
        }
        let ntx = self.devs[port as usize].tx_queues.len();
        let mut q2: usize = 0;
        while q2 < ntx
            invariant
                old(self).wf(),
                self.devs@ == old(self).devs@,
                (port as int) < self.devs@.len(),
                ntx == self.devs@[port as int].tx_queues@.len(),
                q2 <= ntx,
                all_setup <==> (forall|j: int|
                    0 <= j < self.devs@[port as int].rx_queues@.len()
                        ==> (#[trigger] self.devs@[port as int].rx_queues@[j]) is Some) && (
                forall|j: int|
                    0 <= j < q2 ==> (#[trigger] self.devs@[port as int].tx_queues@[j]) is Some),
            decreases ntx - q2,
        {
            if self.devs[port as usize].tx_queues[q2].is_none() {
                all_setup = false;
            }
            q2 = q2 + 1;
        }
        if !all_setup {
            return Err(Error::DeviceError(-1));
        }
        let d = &mut self.devs[port as usize];
        let ghost d0 = *d;
        d.state = DevState::Started;
        let nrx2 = d.rx_queues.len();
        let mut i: usize = 0;
        while i < nrx2
            invariant
                i <= nrx2,
                nrx2 == d0.rx_queues@.len(),
                d.rx_queues@.len() == nrx2,
                d.state is Started,
                eq_identity(d0, *d),
                eq_runtime(d0, *d),
                eq_stats(d0.stats, d.stats),
                d.conf == d0.conf,
                d.tx_queues@ == d0.tx_queues@,
                all_queues_setup(d0),
                forall|j: int|
                    0 <= j < i ==> rxq_opt_started_dev(
                        #[trigger] d0.rx_queues@[j],
                        d.rx_queues@[j],
                    ),
                forall|j: int| i <= j < nrx2 ==> d.rx_queues@[j] == d0.rx_queues@[j],
            decreases nrx2 - i,
        {
            let qr = &mut d.rx_queues[i];
            match qr {
                Some(rxq) => {
                    let defer = rxq.deferred_start;
                    rxq.started = !defer;
                },
                None => {},
            }
            i = i + 1;
        }
        let ntx2 = d.tx_queues.len();
        let mut i2: usize = 0;
        while i2 < ntx2
            invariant
                i2 <= ntx2,
                ntx2 == d0.tx_queues@.len(),
                d.tx_queues@.len() == ntx2,
                d.state is Started,
                eq_identity(d0, *d),
                eq_runtime(d0, *d),
                eq_stats(d0.stats, d.stats),
                d.conf == d0.conf,
                d.rx_queues@.len() == d0.rx_queues@.len(),
                all_queues_setup(d0),
                forall|j: int|
                    0 <= j < d0.rx_queues@.len() ==> rxq_opt_started_dev(
                        #[trigger] d0.rx_queues@[j],
                        d.rx_queues@[j],
                    ),
                forall|j: int|
                    0 <= j < i2 ==> txq_opt_started_dev(
                        #[trigger] d0.tx_queues@[j],
                        d.tx_queues@[j],
                    ),
                forall|j: int| i2 <= j < ntx2 ==> d.tx_queues@[j] == d0.tx_queues@[j],
            decreases ntx2 - i2,
        {
            let qt = &mut d.tx_queues[i2];
            match qt {
                Some(txq) => {
                    let defer = txq.deferred_start;
                    txq.started = !defer;
                },
                None => {},
            }
            i2 = i2 + 1;
        }
        proof {
            let dn = self.devs@[port as int];
            let dold = old(self).devs@[port as int];
            assert(dev_wf(dold));
            assert forall|j: int| 0 <= j < dn.rx_queues@.len() implies match #[trigger] dn
                .rx_queues@[j] {
                Some(rxq) => rxq.ring@.len() <= rxq.nb_desc,
                None => true,
            } by {
                assert(rxq_opt_started_dev(dold.rx_queues@[j], dn.rx_queues@[j]));
            }
            assert forall|j: int| 0 <= j < dn.tx_queues@.len() implies match #[trigger] dn
                .tx_queues@[j] {
                Some(txq) => txq.ring@.len() <= txq.nb_desc,
                None => true,
            } by {
                assert(txq_opt_started_dev(dold.tx_queues@[j], dn.tx_queues@[j]));
            }
            assert forall|j: int| 0 <= j < dn.rx_queues@.len() implies (#[trigger] dn
                .rx_queues@[j]) is Some by {
                assert(rxq_opt_started_dev(dold.rx_queues@[j], dn.rx_queues@[j]));
                assert(dold.rx_queues@[j] is Some);
            }
            assert forall|j: int| 0 <= j < dn.tx_queues@.len() implies (#[trigger] dn
                .tx_queues@[j]) is Some by {
                assert(txq_opt_started_dev(dold.tx_queues@[j], dn.tx_queues@[j]));
                assert(dold.tx_queues@[j] is Some);
            }
            assert(dev_wf(dn));
            assert forall|p: int| 0 <= p < self.devs@.len() implies dev_wf(
                #[trigger] self.devs@[p],
            ) by {
                if p != port as int {
                    assert(self.devs@[p] == old(self).devs@[p]);
                }
            }
        }
        Ok(())
    }

    /// Stop a started device: halt both directions and discard the
    /// descriptors in flight. The in-flight packet buffers are not freed;
    /// their descriptors are handed back to the caller, RX queues first,
    /// each ring front first.
    pub fn stop(&mut self, port: PortId) -> (r: Result<Vec<PktDesc>, Error>)
        requires
            old(self).wf(),
        ensures
            final(self).wf(),
            (match r {
                Ok(_) => Ok::<(), Error>(()),
                Err(e) => Err(e),
            }) == stop_outcome(old(self).devs@, port),
            r is Err ==> final(self).devs@ == old(self).devs@,
            r matches Ok(drained) ==> {
                let d0 = old(self).devs@[port as int];
                let d = final(self).devs@[port as int];
                &&& final(self).devs@.len() == old(self).devs@.len()
                &&& (forall|p: int|
                    0 <= p < old(self).devs@.len() && p != port as int
                        ==> final(self).devs@[p] == old(self).devs@[p])
                &&& eq_identity(d0, d)
                &&& eq_runtime(d0, d)
                &&& eq_stats(d0.stats, d.stats)
                &&& d.conf == d0.conf
                &&& d.state is Stopped
                &&& drained@ == ring_descs_rx(d0.rx_queues@, d0.rx_queues@.len() as int)
                    + ring_descs_tx(d0.tx_queues@, d0.tx_queues@.len() as int)
                &&& d.rx_queues@.len() == d0.rx_queues@.len()
                &&& (forall|q: int|
                    0 <= q < d0.rx_queues@.len() ==> rxq_opt_stopped_dev(
                        #[trigger] d0.rx_queues@[q],
                        d.rx_queues@[q],
                    ))
                &&& d.tx_queues@.len() == d0.tx_queues@.len()
                &&& (forall|q: int|
                    0 <= q < d0.tx_queues@.len() ==> txq_opt_stopped_dev(
                        #[trigger] d0.tx_queues@[q],
                        d.tx_queues@[q],
                    ))
            },
    {
        if port as usize >= self.devs.len() {
            return Err(Error::InvalidArgument);
        }
        let state = self.devs[port as usize].state;
        if !(matches!(state, DevState::Started)) {
            return Err(Error::InvalidState);
        }
        let d = &mut self.devs[port as usize];
        let ghost d0 = *d;
        d.state = DevState::Stopped;
        let mut drained: Vec<PktDesc> = Vec::new();
        let nrx = d.rx_queues.len();
        let mut i: usize = 0;
        while i < nrx
            invariant
                i <= nrx,
                nrx == d0.rx_queues@.len(),
                d.rx_queues@.len() == nrx,
                d.state is Stopped,
                eq_identity(d0, *d),
                eq_runtime(d0, *d),
                eq_stats(d0.stats, d.stats),
                d.conf == d0.conf,
                d.tx_queues@ == d0.tx_queues@,
                all_queues_setup(d0),
                drained@ == ring_descs_rx(d0.rx_queues@, i as int),
                forall|j: int|
                    0 <= j < i ==> rxq_opt_stopped_dev(
                        #[trigger] d0.rx_queues@[j],
                        d.rx_queues@[j],
                    ),
                forall|j: int| i <= j < nrx ==> d.rx_queues@[j] == d0.rx_queues@[j],
            decreases nrx - i,
        {
            let qr = &mut d.rx_queues[i];
            match qr {
                Some(rxq) => {
                    rxq.started = false;
                    drained.append(&mut rxq.ring);
                },
                None => {},
            }
            i = i + 1;
        }
        let ghost rx_part = drained@;
        let ntx = d.tx_queues.len();
        let mut i2: usize = 0;
        while i2 < ntx
            invariant
                i2 <= ntx,
                ntx == d0.tx_queues@.len(),
                d.tx_queues@.len() == ntx,
                d.state is Stopped,
                eq_identity(d0, *d),
                eq_runtime(d0, *d),
                eq_stats(d0.stats, d.stats),
                d.conf == d0.conf,
                d.rx_queues@.len() == d0.rx_queues@.len(),
                all_queues_setup(d0),
                rx_part == ring_descs_rx(d0.rx_queues@, d0.rx_queues@.len() as int),
                drained@ == rx_part + ring_descs_tx(d0.tx_queues@, i2 as int),
                forall|j: int|
                    0 <= j < d0.rx_queues@.len() ==> rxq_opt_stopped_dev(
                        #[trigger] d0.rx_queues@[j],
                        d.rx_queues@[j],
                    ),
                forall|j: int|
                    0 <= j < i2 ==> txq_opt_stopped_dev(
                        #[trigger] d0.tx_queues@[j],
                        d.tx_queues@[j],
                    ),
                forall|j: int| i2 <= j < ntx ==> d.tx_queues@[j] == d0.tx_queues@[j],
            decreases ntx - i2,
        {
            let qt = &mut d.tx_queues[i2];
            match qt {
                Some(txq) => {
                    txq.started = false;
                    drained.append(&mut txq.ring);
                },
                None => {},
            }
            i2 = i2 + 1;
        }
        proof {
            let dn = self.devs@[port as int];
            let dold = old(self).devs@[port as int];
            assert(dev_wf(dold));
            assert forall|j: int| 0 <= j < dn.rx_queues@.len() implies match #[trigger] dn
                .rx_queues@[j] {
                Some(rxq) => rxq.ring@.len() <= rxq.nb_desc,
                None => true,
            } by {
                assert(rxq_opt_stopped_dev(dold.rx_queues@[j], dn.rx_queues@[j]));
            }
            assert forall|j: int| 0 <= j < dn.tx_queues@.len() implies match #[trigger] dn
                .tx_queues@[j] {
                Some(txq) => txq.ring@.len() <= txq.nb_desc,
                None => true,
            } by {
                assert(txq_opt_stopped_dev(dold.tx_queues@[j], dn.tx_queues@[j]));
            }
            assert(dev_wf(dn));
            assert forall|p: int| 0 <= p < self.devs@.len() implies dev_wf(
                #[trigger] self.devs@[p],
            ) by {
                if p != port as int {
                    assert(self.devs@[p] == old(self).devs@[p]);
                }
            }
        }
        Ok(drained)
    }

    /// Close a stopped device: release every queue resource. Only a new
    /// `configure` brings the device back into use; every other operation
    /// on a closed device fails with `InvalidState`.
    pub fn close(&mut self, port: PortId) -> (r: Result<(), Error>)
        requires
            old(self).wf(),
        ensures
            final(self).wf(),
            r == close_outcome(old(self).devs@, port),
            r is Err ==> final(self).devs@ == old(self).devs@,
            r is Ok ==> {
                let d0 = old(self).devs@[port as int];
                let d = final(self).devs@[port as int];
                &&& final(self).devs@.len() == old(self).devs@.len()
                &&& (forall|p: int|
                    0 <= p < old(self).devs@.len() && p != port as int
                        ==> final(self).devs@[p] == old(self).devs@[p])
                &&& eq_identity(d0, d)
                &&& eq_runtime(d0, d)
                &&& d.conf == d0.conf
                &&& d.state is Closed
                &&& d.rx_queues@.len() == 0
                &&& d.tx_queues@.len() == 0
                &&& d.stats.ipackets == d0.stats.ipackets
                &&& d.stats.opackets == d0.stats.opackets
                &&& d.stats.ibytes == d0.stats.ibytes
                &&& d.stats.obytes == d0.stats.obytes
                &&& d.stats.q_ipackets@.len() == 0
                &&& d.stats.q_opackets@.len() == 0
            },
    {
        if port as usize >= self.devs.len() {
            return Err(Error::InvalidArgument);
        }
        let state = self.devs[port as usize].state;
        if !(matches!(state, DevState::Stopped)) {
            return Err(Error::InvalidState);
        }
        let d = &mut self.devs[port as usize];
        d.state = DevState::Closed;
        d.rx_queues = Vec::new();
        d.tx_queues = Vec::new();
        d.stats.q_ipackets = Vec::new();
        d.stats.q_opackets = Vec::new();
        Ok(())
    }

    /// Start one RX queue of a started device; used for queues declared
    /// with deferred activation.
    pub fn rx_queue_start(&mut self, port: PortId, rx_queue_id: QueueId) -> (r: Result<(), Error>)
        requires
            old(self).wf(),
        ensures
            final(self).wf(),
            r == queue_ctl_outcome(
                old(self).devs@,
                port,
                rx_queue_id,
                (if (port as int) < old(self).devs@.len() {
                    old(self).devs@[port as int].rx_queues@.len() as int
                } else {
                    0
                }),
            ),
            r is Err ==> final(self).devs@ == old(self).devs@,
            r is Ok ==> rx_queue_flag_set(
                old(self).devs@,
                final(self).devs@,
                port as int,
                rx_queue_id as int,
                true,
            ),
    {
        self.rx_queue_flag(port, rx_queue_id, true)
    }

    /// Stop one RX queue of a started device.
    pub fn rx_queue_stop(&mut self, port: PortId, rx_queue_id: QueueId) -> (r: Result<(), Error>)
        requires
            old(self).wf(),
        ensures
            final(self).wf(),
            r == queue_ctl_outcome(
                old(self).devs@,
                port,
                rx_queue_id,
                (if (port as int) < old(self).devs@.len() {
                    old(self).devs@[port as int].rx_queues@.len() as int
                } else {
                    0
                }),
            ),
            r is Err ==> final(self).devs@ == old(self).devs@,
            r is Ok ==> rx_queue_flag_set(
                old(self).devs@,
                final(self).devs@,
                port as int,
                rx_queue_id as int,
                false,
            ),
    {
        self.rx_queue_flag(port, rx_queue_id, false)
    }

    /// Set the activation flag of one RX queue.
    fn rx_queue_flag(&mut self, port: PortId, rx_queue_id: QueueId, on: bool) -> (r: Result<
        (),
        Error,
    >)
        requires
            old(self).wf(),
        ensures
            final(self).wf(),
            r == queue_ctl_outcome(
                old(self).devs@,
                port,
                rx_queue_id,
                (if (port as int) < old(self).devs@.len() {
                    old(self).devs@[port as int].rx_queues@.len() as int
                } else {
                    0
                }),
            ),
            r is Err ==> final(self).devs@ == old(self).devs@,
            r is Ok ==> rx_queue_flag_set(
                old(self).devs@,
                final(self).devs@,
                port as int,
                rx_queue_id as int,
                on,
            ),
    {
        if port as usize >= self.devs.len() {
            return Err(Error::InvalidArgument);
        }
        let state = self.devs[port as usize].state;
        if !(matches!(state, DevState::Started)) {
            return Err(Error::InvalidState);
        }
        if rx_queue_id as usize >= self.devs[port as usize].rx_queues.len() {
            return Err(Error::InvalidArgument);
        }
        let d = &mut self.devs[port as usize];
        let qr = &mut d.rx_queues[rx_queue_id as usize];
        match qr {
            Some(rxq) => {
                rxq.started = on;
            },
            None => {},
        }
        Ok(())
    }

    /// Start one TX queue of a started device; used for queues declared
    /// with deferred activation.
    pub fn tx_queue_start(&mut self, port: PortId, tx_queue_id: QueueId) -> (r: Result<(), Error>)
        requires
            old(self).wf(),
        ensures
            final(self).wf(),
            r == queue_ctl_outcome(
                old(self).devs@,
                port,
                tx_queue_id,
                (if (port as int) < old(self).devs@.len() {
                    old(self).devs@[port as int].tx_queues@.len() as int
                } else {
                    0
                }),
            ),
            r is Err ==> final(self).devs@ == old(self).devs@,
            r is Ok ==> tx_queue_flag_set(
                old(self).devs@,
                final(self).devs@,
                port as int,
                tx_queue_id as int,
                true,
            ),
    {
        self.tx_queue_flag(port, tx_queue_id, true)
    }

    /// Stop one TX queue of a started device.
    pub fn tx_queue_stop(&mut self, port: PortId, tx_queue_id: QueueId) -> (r: Result<(), Error>)
        requires
            old(self).wf(),
        ensures
            final(self).wf(),
            r == queue_ctl_outcome(
                old(self).devs@,
                port,
                tx_queue_id,
                (if (port as int) < old(self).devs@.len() {
                    old(self).devs@[port as int].tx_queues@.len() as int
                } else {
                    0
                }),
            ),
            r is Err ==> final(self).devs@ == old(self).devs@,
            r is Ok ==> tx_queue_flag_set(
                old(self).devs@,
                final(self).devs@,
                port as int,
                tx_queue_id as int,
                false,
            ),
    {
        self.tx_queue_flag(port, tx_queue_id, false)
    }

    /// Set the activation flag of one TX queue.
    fn tx_queue_flag(&mut self, port: PortId, tx_queue_id: QueueId, on: bool) -> (r: Result<
        (),
        Error,
    >)
        requires
            old(self).wf(),
        ensures
            final(self).wf(),
            r == queue_ctl_outcome(
                old(self).devs@,
                port,
                tx_queue_id,
                (if (port as int) < old(self).devs@.len() {
                    old(self).devs@[port as int].tx_queues@.len() as int
                } else {
                    0
                }),
            ),
            r is Err ==> final(self).devs@ == old(self).devs@,
            r is Ok ==> tx_queue_flag_set(
                old(self).devs@,
                final(self).devs@,
                port as int,
                tx_queue_id as int,
                on,
            ),
    {
        if port as usize >= self.devs.len() {
            return Err(Error::InvalidArgument);
        }
        let state = self.devs[port as usize].state;
        if !(matches!(state, DevState::Started)) {
            return Err(Error::InvalidState);
        }
        if tx_queue_id as usize >= self.devs[port as usize].tx_queues.len() {
            return Err(Error::InvalidArgument);
        }
        let d = &mut self.devs[port as usize];
        let qt = &mut d.tx_queues[tx_queue_id as usize];
        match qt {
            Some(txq) => {
                txq.started = on;
            },
            None => {},
        }
        Ok(())
    }

    /// Retrieve a burst of input packets from a receive queue: up to
    /// `nb_pkts` descriptors leave the front of the ring, in order. Never
    /// blocks; an idle queue yields an empty result. Each returned packet
    /// is owned by the caller, who must eventually free or forward it.
    /// The queue must be set up and started on a started device.
    pub fn rx_burst(&mut self, port: PortId, queue_id: QueueId, nb_pkts: usize) -> (pkts: Vec<
        PktDesc,
    >)
        requires
            old(self).wf(),
            rx_burst_ready(old(self).devs@, port, queue_id),
        ensures
            final(self).wf(),
            pkts@.len() <= nb_pkts,
            rx_burst_post(
                old(self).devs@,
                final(self).devs@,
                port,
                queue_id,
                nb_pkts as int,
                pkts@,
            ),
    {
        let mut pkts: Vec<PktDesc> = Vec::new();
        let d = &mut self.devs[port as usize];
        let ghost d0 = *d;
        proof {
            assert(dev_wf(d0));
        }
        let qr = &mut d.rx_queues[queue_id as usize];
        let ghost ring0 = match d0.rx_queues@[queue_id as int] {
            Some(rxq0) => rxq0.ring@,
            None => Seq::<PktDesc>::empty(),
        };
        match qr {
            Some(rxq) => {
                let n = if nb_pkts <= rxq.ring.len() {
                    nb_pkts
                } else {
                    rxq.ring.len()
                };
                let mut k: usize = 0;
                while k < n
                    invariant
                        k <= n,
                        n <= ring0.len(),
                        pkts@.len() == k,
                        pkts@ == ring0.subrange(0, k as int),
                        rxq.ring@ == ring0.subrange(k as int, ring0.len() as int),
                        rxq.nb_desc == (match d0.rx_queues@[queue_id as int] {
                            Some(rxq0) => rxq0.nb_desc,
                            None => 0u16,
                        }),
                        rxq.started == (match d0.rx_queues@[queue_id as int] {
                            Some(rxq0) => rxq0.started,
                            None => false,
                        }),
                        rxq.deferred_start == (match d0.rx_queues@[queue_id as int] {
                            Some(rxq0) => rxq0.deferred_start,
                            None => false,
                        }),
                    decreases n - k,
                {
                    let desc = rxq.ring.remove(0);
                    pkts.push(desc);
                    k = k + 1;
                    proof {
                        assert(pkts@ =~= ring0.subrange(0, k as int));
                        assert(rxq.ring@ =~= ring0.subrange(k as int, ring0.len() as int));
                    }
                }
            },
            None => {
                proof {
                    assert(false);
                }
            },
        }
        let received = pkts.len() as u64;
        let bytes = sum_lens(&pkts);
        d.stats.ipackets = sat_add64(d.stats.ipackets, received);
        d.stats.ibytes = sat_add64(d.stats.ibytes, bytes);
        let cur = d.stats.q_ipackets[queue_id as usize];
        let upd = sat_add64(cur, received);
        d.stats.q_ipackets.set(queue_id as usize, upd);
        proof {
            let dn = self.devs@[port as int];
            let dold = old(self).devs@[port as int];
            lemma_sum_desc_lens_nonneg(pkts@);
            assert(sat_add_u64(dold.stats.ibytes, sum_desc_lens(pkts@)) == dn.stats.ibytes);
            assert forall|j: int| 0 <= j < dn.rx_queues@.len() implies match #[trigger] dn
                .rx_queues@[j] {
                Some(rxq) => rxq.ring@.len() <= rxq.nb_desc,
                None => true,
            } by {
                assert(dev_wf(dold));
                if j != queue_id as int {
                    assert(dn.rx_queues@[j] == dold.rx_queues@[j]);
                }
            }
            assert forall|j: int| 0 <= j < dn.rx_queues@.len() implies (#[trigger] dn
                .rx_queues@[j]) is Some by {
                assert(dev_wf(dold));
                if j != queue_id as int {
                    assert(dn.rx_queues@[j] == dold.rx_queues@[j]);
                }
            }
            assert(dev_wf(dn));
            assert forall|p: int| 0 <= p < self.devs@.len() implies dev_wf(
                #[trigger] self.devs@[p],
            ) by {
                if p != port as int {
                    assert(self.devs@[p] == old(self).devs@[p]);
                }
            }
        }
        pkts
    }

    /// Send a burst of output packets on a transmit queue: the hardware
    /// accepts the leading descriptors it has ring room for and returns
    /// their count. Never blocks and never signals an error; descriptors
    /// beyond the count remain owned by the caller, who must retry or
    /// release them. With loopback configured, accepted packets are
    /// echoed to the RX ring with the same queue index. The queue must be
    /// set up and started on a started device.
    pub fn tx_burst(&mut self, port: PortId, queue_id: QueueId, tx_pkts: &Vec<PktDesc>) -> (n:
        usize)
        requires
            old(self).wf(),
            tx_burst_ready(old(self).devs@, port, queue_id),
        ensures
            final(self).wf(),
            n <= tx_pkts@.len(),
            tx_burst_post(
                old(self).devs@,
                final(self).devs@,
                port,
                queue_id,
                tx_pkts@,
                n as int,
            ),
    {
        let d = &mut self.devs[port as usize];
        let ghost d0 = *d;
        proof {
            assert(dev_wf(d0));
        }
        let loopback = d.conf.lpbk_mode != 0;
        let mut n: usize = 0;
        if !loopback {
            let qt = &mut d.tx_queues[queue_id as usize];
            let ghost ring0 = match d0.tx_queues@[queue_id as int] {
                Some(txq0) => txq0.ring@,
                None => Seq::<PktDesc>::empty(),
            };
            match qt {
                Some(txq) => {
                    let space = (txq.nb_desc as usize) - txq.ring.len();
                    n = if tx_pkts.len() <= space {
                        tx_pkts.len()
                    } else {
                        space
                    };
                    let mut k: usize = 0;
                    while k < n
                        invariant
                            k <= n,
                            n <= tx_pkts@.len(),
                            ring0.len() + n <= txq.nb_desc,
                            txq.ring@ == ring0 + tx_pkts@.subrange(0, k as int),
                            txq.nb_desc == (match d0.tx_queues@[queue_id as int] {
                                Some(txq0) => txq0.nb_desc,
                                None => 0u16,
                            }),
                            txq.started == (match d0.tx_queues@[queue_id as int] {
                                Some(txq0) => txq0.started,
                                None => false,
                            }),
                            txq.deferred_start == (match d0.tx_queues@[queue_id as int] {
                                Some(txq0) => txq0.deferred_start,
                                None => false,
                            }),
                        decreases n - k,
                    {
                        let desc = tx_pkts[k];
                        txq.ring.push(desc);
                        k = k + 1;
                        proof {
                            assert(txq.ring@ =~= ring0 + tx_pkts@.subrange(0, k as int));
                        }
                    }
                },
                None => {
                    proof {
                        assert(false);
                    }
                },
            }
        } else {
            let has_echo = (queue_id as usize) < d.rx_queues.len() && d.rx_queues[queue_id
                as usize].is_some();
            if has_echo {
                let qr = &mut d.rx_queues[queue_id as usize];
                let ghost ring0 = match d0.rx_queues@[queue_id as int] {
                    Some(rxq0) => rxq0.ring@,
                    None => Seq::<PktDesc>::empty(),
                };
                match qr {
                    Some(rxq) => {
                        let space = (rxq.nb_desc as usize) - rxq.ring.len();
                        n = if tx_pkts.len() <= space {
                            tx_pkts.len()
                        } else {
                            space
                        };
                        let mut k: usize = 0;
                        while k < n
                            invariant
                                k <= n,
                                n <= tx_pkts@.len(),
                                ring0.len() + n <= rxq.nb_desc,
                                rxq.ring@ == ring0 + tx_pkts@.subrange(0, k as int),
                                rxq.nb_desc == (match d0.rx_queues@[queue_id as int] {
                                    Some(rxq0) => rxq0.nb_desc,
                                    None => 0u16,
                                }),
                                rxq.started == (match d0.rx_queues@[queue_id as int] {
                                    Some(rxq0) => rxq0.started,
                                    None => false,
                                }),
                                rxq.deferred_start == (match d0.rx_queues@[queue_id as int] {
                                    Some(rxq0) => rxq0.deferred_start,
                                    None => false,
                                }),
                            decreases n - k,
                        {
                            let desc = tx_pkts[k];
                            rxq.ring.push(desc);
                            k = k + 1;
                            proof {
                                assert(rxq.ring@ =~= ring0 + tx_pkts@.subrange(0, k as int));
                            }
                        }
                    },
                    None => {
                        proof {
                            assert(false);
                        }
                    },
                }
            }
        }
        let mut accepted: Vec<PktDesc> = Vec::new();
        let mut k2: usize = 0;
        while k2 < n
            invariant
                k2 <= n,
                n <= tx_pkts@.len(),
                accepted@ == tx_pkts@.subrange(0, k2 as int),
            decreases n - k2,
        {
            accepted.push(tx_pkts[k2]);
            k2 = k2 + 1;
            proof {
                assert(accepted@ =~= tx_pkts@.subrange(0, k2 as int));
            }
        }
        let sent = n as u64;
        let bytes = sum_lens(&accepted);
        d.stats.opackets = sat_add64(d.stats.opackets, sent);
        d.stats.obytes = sat_add64(d.stats.obytes, bytes);
        let cur = d.stats.q_opackets[queue_id as usize];
        let upd = sat_add64(cur, sent);
        d.stats.q_opackets.set(queue_id as usize, upd);
        proof {
            let dn = self.devs@[port as int];
            let dold = old(self).devs@[port as int];
            assert(dev_wf(dold));
            lemma_sum_desc_lens_nonneg(tx_pkts@.subrange(0, n as int));
            assert(accepted@ == tx_pkts@.subrange(0, n as int));
            assert(sat_add_u64(dold.stats.obytes, sum_desc_lens(tx_pkts@.subrange(0, n as int)))
                == dn.stats.obytes);
            assert forall|j: int| 0 <= j < dn.rx_queues@.len() implies match #[trigger] dn
                .rx_queues@[j] {
                Some(rxq) => rxq.ring@.len() <= rxq.nb_desc,
                None => true,
            } by {
            }
            assert forall|j: int| 0 <= j < dn.tx_queues@.len() implies match #[trigger] dn
                .tx_queues@[j] {
                Some(txq) => txq.ring@.len() <= txq.nb_desc,
                None => true,
            } by {
            }
            assert forall|j: int| 0 <= j < dn.rx_queues@.len() implies (#[trigger] dn
                .rx_queues@[j]) is Some by {
            }
            assert forall|j: int| 0 <= j < dn.tx_queues@.len() implies (#[trigger] dn
                .tx_queues@[j]) is Some by {
            }
            assert(dev_wf(dn));
            assert forall|p: int| 0 <= p < self.devs@.len() implies dev_wf(
                #[trigger] self.devs@[p],
            ) by {
                if p != port as int {
                    assert(self.devs@[p] == old(self).devs@[p]);
                }
            }
        }
        n
    }

    /// Retrieve a burst of input packets, with the burst size given as a
    /// packet count.
    pub fn rx_burst_ex(&mut self, port: PortId, queue_id: QueueId, nb_pkts: u16) -> (pkts: Vec<
        PktDesc,
    >)
        requires
            old(self).wf(),
            rx_burst_ready(old(self).devs@, port, queue_id),
        ensures
            final(self).wf(),
            pkts@.len() <= nb_pkts,
            rx_burst_post(
                old(self).devs@,
                final(self).devs@,
                port,
                queue_id,
                nb_pkts as int,
                pkts@,
            ),
    {
        self.rx_burst(port, queue_id, nb_pkts as usize)
    }

    /// Send a burst of output packets, offering at most the first
    /// `nb_pkts` descriptors of the list.
    pub fn tx_burst_ex(&mut self, port: PortId, queue_id: QueueId, tx_pkts: &Vec<PktDesc>,
        nb_pkts: u16) -> (n: u16)
        requires
            old(self).wf(),
            tx_burst_ready(old(self).devs@, port, queue_id),
        ensures
            final(self).wf(),
            n <= nb_pkts,
            ({
                let offered = (if nb_pkts as int <= tx_pkts@.len() {
                    nb_pkts as int
                } else {
                    tx_pkts@.len() as int
                });
                tx_burst_post(
                    old(self).devs@,
                    final(self).devs@,
                    port,
                    queue_id,
                    tx_pkts@.subrange(0, offered),
                    n as int,
                )
            }),
    {
        let offered = if (nb_pkts as usize) <= tx_pkts.len() {
            nb_pkts as usize
        } else {
            tx_pkts.len()
        };
        let mut head: Vec<PktDesc> = Vec::new();
        let mut k: usize = 0;
        while k < offered
            invariant
                k <= offered,
                offered <= tx_pkts@.len(),
                head@ == tx_pkts@.subrange(0, k as int),
            decreases offered - k,
        {
            head.push(tx_pkts[k]);
            k = k + 1;
            proof {
                assert(head@ =~= tx_pkts@.subrange(0, k as int));
            }
        }
        let n = self.tx_burst(port, queue_id, &head);
        n as u16
    }

    /// The NUMA socket a device is connected to.
    pub fn socket_id(&self, port: PortId) -> (r: i32)
        requires
            self.wf(),
            (port as int) < self.devs@.len(),
        ensures
            r == self.devs@[port as int].socket_id,
    {
        self.devs[port as usize].socket_id
    }

    /// The general I/O statistics of a device, as a point-in-time copy.
    pub fn stats(&self, port: PortId) -> (r: Result<EthDeviceStats, Error>)
        requires
            self.wf(),
        ensures
            r is Err <==> (port as int) >= self.devs@.len(),
            r matches Err(e) ==> e == Error::InvalidArgument,
            r matches Ok(s) ==> eq_stats(self.devs@[port as int].stats, s),
    {
        if port as usize >= self.devs.len() {
            return Err(Error::InvalidArgument);
        }
        let s = &self.devs[port as usize].stats;
        Ok(
            EthDeviceStats {
                ipackets: s.ipackets,
                opackets: s.opackets,
                ibytes: s.ibytes,
                obytes: s.obytes,
                imissed: s.imissed,
                ierrors: s.ierrors,
                oerrors: s.oerrors,
                rx_nombuf: s.rx_nombuf,
                q_ipackets: copy_counters(&s.q_ipackets),
                q_opackets: copy_counters(&s.q_opackets),
            },
        )
    }

    /// Reset the general I/O statistics of a device to zero; the
    /// per-queue breakdown keeps its shape.
    pub fn reset_stats(&mut self, port: PortId) -> (r: Result<(), Error>)
        requires
            old(self).wf(),
        ensures
            final(self).wf(),
            r is Err <==> (port as int) >= old(self).devs@.len(),
            r matches Err(e) ==> e == Error::InvalidArgument && final(self).devs@ == old(
                self,
            ).devs@,
            r is Ok ==> {
                let d0 = old(self).devs@[port as int];
                let d = final(self).devs@[port as int];
                &&& final(self).devs@.len() == old(self).devs@.len()
                &&& (forall|p: int|
                    0 <= p < old(self).devs@.len() && p != port as int
                        ==> final(self).devs@[p] == old(self).devs@[p])
                &&& eq_identity(d0, d)
                &&& eq_runtime(d0, d)
                &&& eq_config(d0, d)
                &&& d.rx_queues@ == d0.rx_queues@
                &&& d.tx_queues@ == d0.tx_queues@
                &&& stats_zeroed(
                    d.stats,
                    d0.stats.q_ipackets@.len() as int,
                    d0.stats.q_opackets@.len() as int,
                )
            },
    {
        if port as usize >= self.devs.len() {
            return Err(Error::InvalidArgument);
        }
        let d = &mut self.devs[port as usize];
        let nrx = d.stats.q_ipackets.len();
        let ntx = d.stats.q_opackets.len();
        d.stats = EthDeviceStats {
            ipackets: 0,
            opackets: 0,
            ibytes: 0,
            obytes: 0,
            imissed: 0,
            ierrors: 0,
            oerrors: 0,
            rx_nombuf: 0,
            q_ipackets: zero_counters(nrx),
            q_opackets: zero_counters(ntx),
        };
        Ok(())
    }

    /// The current MAC address of a device.
    pub fn mac_addr(&self, port: PortId) -> (r: [u8; 6])
        requires
            self.wf(),
            (port as int) < self.devs@.len(),
        ensures
            r == self.devs@[port as int].mac,
    {
        self.devs[port as usize].mac
    }

    /// Set the default MAC address. A group (multicast) or all-zero
    /// address is rejected.
    pub fn set_mac_addr(&mut self, port: PortId, addr: &[u8; 6]) -> (r: Result<(), Error>)
        requires
            old(self).wf(),
        ensures
            final(self).wf(),
            r == (if (port as int) >= old(self).devs@.len() {
                Err::<(), Error>(Error::InvalidArgument)
            } else if !at_least_configured(old(self).devs@[port as int].state) {
                Err(Error::InvalidState)
            } else if !valid_mac(*addr) {
                Err(Error::InvalidArgument)
            } else {
                Ok(())
            }),
            r is Err ==> final(self).devs@ == old(self).devs@,
            r is Ok ==> only_mac_set(old(self).devs@, final(self).devs@, port as int, *addr),
    {
        if port as usize >= self.devs.len() {
            return Err(Error::InvalidArgument);
        }
        let state = self.devs[port as usize].state;
        if !(matches!(state, DevState::Configured | DevState::Started | DevState::Stopped)) {
            return Err(Error::InvalidState);
        }
        if addr[0] & 1 != 0 || (addr[0] == 0 && addr[1] == 0 && addr[2] == 0 && addr[3] == 0
            && addr[4] == 0 && addr[5] == 0) {
            return Err(Error::InvalidArgument);
        }
        let d = &mut self.devs[port as usize];
        d.mac = *addr;
        Ok(())
    }

    /// Enable receipt in promiscuous mode.
    pub fn promiscuous_enable(&mut self, port: PortId) -> (r: Result<(), Error>)
        requires
            old(self).wf(),
        ensures
            final(self).wf(),
            r == (if (port as int) >= old(self).devs@.len() {
                Err::<(), Error>(Error::InvalidArgument)
            } else if !at_least_configured(old(self).devs@[port as int].state) {
                Err(Error::InvalidState)
            } else {
                Ok(())
            }),
            r is Err ==> final(self).devs@ == old(self).devs@,
            r is Ok ==> only_promiscuous_set(old(self).devs@, final(self).devs@, port as int, true),
    {
        self.set_promiscuous(port, true)
    }

    /// Disable receipt in promiscuous mode.
    pub fn promiscuous_disable(&mut self, port: PortId) -> (r: Result<(), Error>)
        requires
            old(self).wf(),
        ensures
            final(self).wf(),
            r == (if (port as int) >= old(self).devs@.len() {
                Err::<(), Error>(Error::InvalidArgument)
            } else if !at_least_configured(old(self).devs@[port as int].state) {
                Err(Error::InvalidState)
            } else {
                Ok(())
            }),
            r is Err ==> final(self).devs@ == old(self).devs@,
            r is Ok ==> only_promiscuous_set(
                old(self).devs@,
                final(self).devs@,
                port as int,
                false,
            ),
    {
        self.set_promiscuous(port, false)
    }

    /// Set the promiscuous receive mode.
    fn set_promiscuous(&mut self, port: PortId, on: bool) -> (r: Result<(), Error>)
        requires
            old(self).wf(),
        ensures
            final(self).wf(),
            r == (if (port as int) >= old(self).devs@.len() {
                Err::<(), Error>(Error::InvalidArgument)
            } else if !at_least_configured(old(self).devs@[port as int].state) {
                Err(Error::InvalidState)
            } else {
                Ok(())
            }),
            r is Err ==> final(self).devs@ == old(self).devs@,
            r is Ok ==> only_promiscuous_set(old(self).devs@, final(self).devs@, port as int, on),
    {
        if port as usize >= self.devs.len() {
            return Err(Error::InvalidArgument);
        }
        let state = self.devs[port as usize].state;
        if !(matches!(state, DevState::Configured | DevState::Started | DevState::Stopped)) {
            return Err(Error::InvalidState);
        }
        let d = &mut self.devs[port as usize];
        d.promiscuous = on;
        Ok(())
    }

    /// The value of the promiscuous receive mode.
    pub fn is_promiscuous_enabled(&self, port: PortId) -> (r: Result<bool, Error>)
        requires
            self.wf(),
        ensures
            r is Err <==> (port as int) >= self.devs@.len(),
            r matches Err(e) ==> e == Error::InvalidArgument,
            r matches Ok(b) ==> b == self.devs@[port as int].promiscuous,
    {
        if port as usize >= self.devs.len() {
            return Err(Error::InvalidArgument);
        }
        Ok(self.devs[port as usize].promiscuous)
    }

    /// The MTU of a device.
    pub fn mtu(&self, port: PortId) -> (r: Result<u16, Error>)
        requires
            self.wf(),
        ensures
            r is Err <==> (port as int) >= self.devs@.len(),
            r matches Err(e) ==> e == Error::InvalidArgument,
            r matches Ok(m) ==> m == self.devs@[port as int].mtu,
    {
        if port as usize >= self.devs.len() {
            return Err(Error::InvalidArgument);
        }
        Ok(self.devs[port as usize].mtu)
    }

    /// Change the MTU of a device; it must lie between the minimum legal
    /// MTU and the hardware's maximum.
    pub fn set_mtu(&mut self, port: PortId, mtu: u16) -> (r: Result<(), Error>)
        requires
            old(self).wf(),
        ensures
            final(self).wf(),
            r == (if (port as int) >= old(self).devs@.len() {
                Err::<(), Error>(Error::InvalidArgument)
            } else if !at_least_configured(old(self).devs@[port as int].state) {
                Err(Error::InvalidState)
            } else if mtu < ETHER_MIN_MTU || mtu > old(self).devs@[port as int].info.max_mtu {
                Err(Error::InvalidArgument)
            } else {
                Ok(())
            }),
            r is Err ==> final(self).devs@ == old(self).devs@,
            r is Ok ==> only_mtu_set(old(self).devs@, final(self).devs@, port as int, mtu),
    {
        if port as usize >= self.devs.len() {
            return Err(Error::InvalidArgument);
        }
        let state = self.devs[port as usize].state;
        if !(matches!(state, DevState::Configured | DevState::Started | DevState::Stopped)) {
            return Err(Error::InvalidState);
        }
        if mtu < ETHER_MIN_MTU || mtu > self.devs[port as usize].info.max_mtu {
            return Err(Error::InvalidArgument);
        }
        let d = &mut self.devs[port as usize];
        d.mtu = mtu;
        Ok(())
    }

    /// Enable or disable hardware filtering of received VLAN packets
    /// tagged with `vlan_id`. The applied configuration must have the
    /// VLAN filter feature on.
    pub fn set_vlan_filter(&mut self, port: PortId, vlan_id: u16, on: bool) -> (r: Result<
        (),
        Error,
    >)
        requires
            old(self).wf(),
        ensures
            final(self).wf(),
            r == (if (port as int) >= old(self).devs@.len() {
                Err::<(), Error>(Error::InvalidArgument)
            } else if !at_least_configured(old(self).devs@[port as int].state) {
                Err(Error::InvalidState)
            } else if vlan_id > ETH_VLAN_ID_MAX as u16 {
                Err(Error::InvalidArgument)
            } else if !(old(self).devs@[port as int].conf.rxmode matches Some(m)
                && m.hw_vlan_filter) {
                Err(Error::Unsupported)
            } else {
                Ok(())
            }),
            r is Err ==> final(self).devs@ == old(self).devs@,
            r is Ok ==> {
                let f0 = old(self).devs@[port as int].vlan_filter@;
                let f = final(self).devs@[port as int].vlan_filter@;
                &&& only_vlan_filter_set(old(self).devs@, final(self).devs@, port as int, f)
                &&& (on && vlan_has(f0, vlan_id) ==> f == f0)
                &&& (on && !vlan_has(f0, vlan_id) ==> f == f0.push(vlan_id))
                &&& (!on && !vlan_has(f0, vlan_id) ==> f == f0)
                &&& (!on && vlan_has(f0, vlan_id) ==> exists|k: int|
                    0 <= k < f0.len() && f0[k] == vlan_id && f == f0.remove(k))
            },
    {
        if port as usize >= self.devs.len() {
            return Err(Error::InvalidArgument);
        }
        let state = self.devs[port as usize].state;
        if !(matches!(state, DevState::Configured | DevState::Started | DevState::Stopped)) {
            return Err(Error::InvalidState);
        }
        if vlan_id > ETH_VLAN_ID_MAX as u16 {
            return Err(Error::InvalidArgument);
        }
        let filter_on = match &self.devs[port as usize].conf.rxmode {
            Some(m) => m.hw_vlan_filter,
            None => false,
        };
        if !filter_on {
            return Err(Error::Unsupported);
        }
        let d = &mut self.devs[port as usize];
        let ghost f0 = d.vlan_filter@;
        let n = d.vlan_filter.len();
        let mut found: Option<usize> = None;
        let mut k: usize = 0;
        while k < n
            invariant
                k <= n,
                n == d.vlan_filter@.len(),
                d.vlan_filter@ == f0,
                match found {
                    Some(idx) => idx < k && f0[idx as int] == vlan_id,
                    None => forall|j: int| 0 <= j < k ==> f0[j] != vlan_id,
                },
            decreases n - k,
        {
            if d.vlan_filter[k] == vlan_id {
                found = Some(k);
            }
            k = k + 1;
        }
        match found {
            Some(idx) => {
                if !on {
                    d.vlan_filter.remove(idx);
                } else {
                    proof {
                        assert(vlan_has(f0, vlan_id)) by {
                            assert(f0[idx as int] == vlan_id);
                        }
                    }
                }
            },
            None => {
                if on {
                    d.vlan_filter.push(vlan_id);
                }
            },
        }
        proof {
            if found is None {
                assert(!vlan_has(f0, vlan_id));
            }
        }
        Ok(())
    }

    /// Read the VLAN offload configuration of a device.
    pub fn vlan_offload(&self, port: PortId) -> (r: Result<EthVlanOffloadMode, Error>)
        requires
            self.wf(),
        ensures
            r == (if (port as int) >= self.devs@.len() {
                Err::<EthVlanOffloadMode, Error>(Error::InvalidArgument)
            } else if !at_least_configured(self.devs@[port as int].state) {
                Err(Error::InvalidState)
            } else {
                Ok(EthVlanOffloadMode { bits: self.devs@[port as int].vlan_offload })
            }),
    {
        if port as usize >= self.devs.len() {
            return Err(Error::InvalidArgument);
        }
        let state = self.devs[port as usize].state;
        if !(matches!(state, DevState::Configured | DevState::Started | DevState::Stopped)) {
            return Err(Error::InvalidState);
        }
        Ok(EthVlanOffloadMode { bits: self.devs[port as usize].vlan_offload })
    }

    /// Set the VLAN offload configuration of a device; only the strip,
    /// filter and extend bits are applied.
    pub fn set_vlan_offload(&mut self, port: PortId, mode: EthVlanOffloadMode) -> (r: Result<
        (),
        Error,
    >)
        requires
            old(self).wf(),
        ensures
            final(self).wf(),
            r == (if (port as int) >= old(self).devs@.len() {
                Err::<(), Error>(Error::InvalidArgument)
            } else if !at_least_configured(old(self).devs@[port as int].state) {
                Err(Error::InvalidState)
            } else {
                Ok(())
            }),
            r is Err ==> final(self).devs@ == old(self).devs@,
            r is Ok ==> only_vlan_offload_set(
                old(self).devs@,
                final(self).devs@,
                port as int,
                mode.bits & 0x7,
            ),
    {
        if port as usize >= self.devs.len() {
            return Err(Error::InvalidArgument);
        }
        let state = self.devs[port as usize].state;
        if !(matches!(state, DevState::Configured | DevState::Started | DevState::Stopped)) {
            return Err(Error::InvalidState);
        }
        let d = &mut self.devs[port as usize];
        d.vlan_offload = mode.bits & 0x7;
        Ok(())
    }

    /// Set the RX L2 filtering mode of a virtual function: `on` adds the
    /// given mode bits, off removes them.
    pub fn set_vf_rxmode(&mut self, port: PortId, vf: u16, rx_mode: EthVmdqRxMode, on: bool) -> (r:
        Result<(), Error>)
        requires
            old(self).wf(),
        ensures
            final(self).wf(),
            r == (if (port as int) >= old(self).devs@.len() {
                Err::<(), Error>(Error::InvalidArgument)
            } else if !at_least_configured(old(self).devs@[port as int].state) {
                Err(Error::InvalidState)
            } else if vf >= old(self).devs@[port as int].info.max_vfs {
                Err(Error::InvalidArgument)
            } else {
                Ok(())
            }),
            r is Err ==> final(self).devs@ == old(self).devs@,
            r is Ok ==> {
                let d0 = old(self).devs@[port as int];
                only_vf_state_set(
                    old(self).devs@,
                    final(self).devs@,
                    port as int,
                    d0.vf_rxmode@.update(
                        vf as int,
                        (if on {
                            d0.vf_rxmode@[vf as int] | rx_mode.bits
                        } else {
                            d0.vf_rxmode@[vf as int] & !rx_mode.bits
                        }),
                    ),
                    d0.vf_rx_on@,
                    d0.vf_tx_on@,
                )
            },
    {
        if port as usize >= self.devs.len() {
            return Err(Error::InvalidArgument);
        }
        let state = self.devs[port as usize].state;
        if !(matches!(state, DevState::Configured | DevState::Started | DevState::Stopped)) {
            return Err(Error::InvalidState);
        }
        if vf >= self.devs[port as usize].info.max_vfs {
            return Err(Error::InvalidArgument);
        }
        let d = &mut self.devs[port as usize];
        let cur = d.vf_rxmode[vf as usize];
        let upd = if on {
            cur | rx_mode.bits
        } else {
            cur & !rx_mode.bits
        };
        d.vf_rxmode.set(vf as usize, upd);
        Ok(())
    }

    /// Enable or disable traffic receive for a virtual function.
    pub fn set_vf_rx(&mut self, port: PortId, vf: u16, on: bool) -> (r: Result<(), Error>)
        requires
            old(self).wf(),
        ensures
            final(self).wf(),
            r == (if (port as int) >= old(self).devs@.len() {
                Err::<(), Error>(Error::InvalidArgument)
            } else if !at_least_configured(old(self).devs@[port as int].state) {
                Err(Error::InvalidState)
            } else if vf >= old(self).devs@[port as int].info.max_vfs {
                Err(Error::InvalidArgument)
            } else {
                Ok(())
            }),
            r is Err ==> final(self).devs@ == old(self).devs@,
            r is Ok ==> {
                let d0 = old(self).devs@[port as int];
                only_vf_state_set(
                    old(self).devs@,
                    final(self).devs@,
                    port as int,
                    d0.vf_rxmode@,
                    d0.vf_rx_on@.update(vf as int, on),
                    d0.vf_tx_on@,
                )
            },
    {
        if port as usize >= self.devs.len() {
            return Err(Error::InvalidArgument);
        }
        let state = self.devs[port as usize].state;
        if !(matches!(state, DevState::Configured | DevState::Started | DevState::Stopped)) {
            return Err(Error::InvalidState);
        }
        if vf >= self.devs[port as usize].info.max_vfs {
            return Err(Error::InvalidArgument);
        }
        let d = &mut self.devs[port as usize];
        d.vf_rx_on.set(vf as usize, on);
        Ok(())
    }

    /// Enable or disable traffic transmit for a virtual function.
    pub fn set_vf_tx(&mut self, port: PortId, vf: u16, on: bool) -> (r: Result<(), Error>)
        requires
            old(self).wf(),
        ensures
            final(self).wf(),
            r == (if (port as int) >= old(self).devs@.len() {
                Err::<(), Error>(Error::InvalidArgument)
            } else if !at_least_configured(old(self).devs@[port as int].state) {
                Err(Error::InvalidState)
            } else if vf >= old(self).devs@[port as int].info.max_vfs {
                Err(Error::InvalidArgument)
            } else {
                Ok(())
            }),
            r is Err ==> final(self).devs@ == old(self).devs@,
            r is Ok ==> {
                let d0 = old(self).devs@[port as int];
                only_vf_state_set(
                    old(self).devs@,
                    final(self).devs@,
                    port as int,
                    d0.vf_rxmode@,
                    d0.vf_rx_on@,
                    d0.vf_tx_on@.update(vf as int, on),
                )
            },
    {
        if port as usize >= self.devs.len() {
            return Err(Error::InvalidArgument);
        }
        let state = self.devs[port as usize].state;
        if !(matches!(state, DevState::Configured | DevState::Started | DevState::Stopped)) {
            return Err(Error::InvalidState);
        }
        if vf >= self.devs[port as usize].info.max_vfs {
            return Err(Error::InvalidArgument);
        }
        let d = &mut self.devs[port as usize];
        d.vf_tx_on.set(vf as usize, on);
        Ok(())
    }

    /// The link status, speed and duplex mode of a device. Where real
    /// hardware may wait several seconds for physical negotiation, this
    /// model answers from the registry at once.
    pub fn link(&self, port: PortId) -> (r: EthLink)
        requires
            self.wf(),
            (port as int) < self.devs@.len(),
        ensures
            r == self.devs@[port as int].link,
    {
        self.devs[port as usize].link
    }

    /// The last known link status of a device, answered immediately
    /// without waiting for negotiation.
    pub fn link_nowait(&self, port: PortId) -> (r: EthLink)
        requires
            self.wf(),
            (port as int) < self.devs@.len(),
        ensures
            r == self.devs@[port as int].link,
    {
        self.devs[port as usize].link
    }

    /// Whether the link of a device is up.
    pub fn is_up(&self, port: PortId) -> (r: bool)
        requires
            self.wf(),
            (port as int) < self.devs@.len(),
        ensures
            r == self.devs@[port as int].link.up,
    {
        self.devs[port as usize].link.up
    }

    /// Bring the link of a device up: it negotiates the fastest speed
    /// the hardware supports, full duplex, autonegotiated unless the
    /// configuration fixes the speeds.
    pub fn set_link_up(&mut self, port: PortId) -> (r: Result<(), Error>)
        requires
            old(self).wf(),
        ensures
            final(self).wf(),
            r == (if (port as int) >= old(self).devs@.len() {
                Err::<(), Error>(Error::InvalidArgument)
            } else if !at_least_configured(old(self).devs@[port as int].state) {
                Err(Error::InvalidState)
            } else {
                Ok(())
            }),
            r is Err ==> final(self).devs@ == old(self).devs@,
            r is Ok ==> {
                let d0 = old(self).devs@[port as int];
                only_link_set(
                    old(self).devs@,
                    final(self).devs@,
                    port as int,
                    EthLink {
                        speed: spec_max_speed_mbps(d0.info.speed_capa),
                        duplex: true,
                        autoneg: d0.conf.link_speeds.bits == ETH_LINK_SPEED_AUTONEG,
                        up: true,
                    },
                )
            },
    {
        if port as usize >= self.devs.len() {
            return Err(Error::InvalidArgument);
        }
        let state = self.devs[port as usize].state;
        if !(matches!(state, DevState::Configured | DevState::Started | DevState::Stopped)) {
            return Err(Error::InvalidState);
        }
        let capa = self.devs[port as usize].info.speed_capa;
        let speed = max_speed_mbps(capa);
        let autoneg = self.devs[port as usize].conf.link_speeds.bits == ETH_LINK_SPEED_AUTONEG;
        let d = &mut self.devs[port as usize];
        d.link = EthLink { speed, duplex: true, autoneg, up: true };
        Ok(())
    }

    /// Bring the link of a device down.
    pub fn set_link_down(&mut self, port: PortId) -> (r: Result<(), Error>)
        requires
            old(self).wf(),
        ensures
            final(self).wf(),
            r == (if (port as int) >= old(self).devs@.len() {
                Err::<(), Error>(Error::InvalidArgument)
            } else if !at_least_configured(old(self).devs@[port as int].state) {
                Err(Error::InvalidState)
            } else {
                Ok(())
            }),
            r is Err ==> final(self).devs@ == old(self).devs@,
            r is Ok ==> only_link_set(
                old(self).devs@,
                final(self).devs@,
                port as int,
                EthLink { speed: 0, duplex: false, autoneg: false, up: false },
            ),
    {
        if port as usize >= self.devs.len() {
            return Err(Error::InvalidArgument);
        }
        let state = self.devs[port as usize].state;
        if !(matches!(state, DevState::Configured | DevState::Started | DevState::Stopped)) {
            return Err(Error::InvalidState);
        }
        let d = &mut self.devs[port as usize];
        d.link = EthLink { speed: 0, duplex: false, autoneg: false, up: false };
        Ok(())
    }
}

} // verus!
