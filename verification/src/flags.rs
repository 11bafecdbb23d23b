//! Closed tagged sets of feature bits: per-packet offload flags, VLAN
//! offload modes, multi-queue distribution modes, RSS flow types and link
//! speeds. The bit layout follows the wire/ABI surface of the hardware
//! interface, so each set is a newtype over the exact integer carrier.

use vstd::prelude::*;

verus! {

// ---------------------------------------------------------------------
// Per-packet offload flags, carried in every packet buffer's `ol_flags`.
// RX flags grow from bit 0 upward; TX flags grow from bit 60 downward;
// the top bits are generic buffer flags.
// ---------------------------------------------------------------------
/// RX packet is an 802.1q VLAN packet.
pub const PKT_RX_VLAN_PKT: u64 = 1u64 << 0;

/// RX packet carries a valid RSS hash result.
pub const PKT_RX_RSS_HASH: u64 = 1u64 << 1;

/// RX packet matched a flow-director rule.
pub const PKT_RX_FDIR: u64 = 1u64 << 2;

/// L4 checksum of the RX packet is bad.
pub const PKT_RX_L4_CKSUM_BAD: u64 = 1u64 << 3;

/// IP checksum of the RX packet is bad.
pub const PKT_RX_IP_CKSUM_BAD: u64 = 1u64 << 4;

/// External (outer) IP header checksum is bad.
pub const PKT_RX_EIP_CKSUM_BAD: u64 = 1u64 << 5;

/// RX IEEE1588 L2 Ethernet PT packet.
pub const PKT_RX_IEEE1588_PTP: u64 = 1u64 << 9;

/// RX IEEE1588 L2/L4 timestamped packet.
pub const PKT_RX_IEEE1588_TMST: u64 = 1u64 << 10;

/// Flow-director id reported on match.
pub const PKT_RX_FDIR_ID: u64 = 1u64 << 13;

/// Flow-director flexible bytes reported on match.
pub const PKT_RX_FDIR_FLX: u64 = 1u64 << 14;

/// RX packet with double VLAN stripped.
pub const PKT_RX_QINQ_PKT: u64 = 1u64 << 15;

/// TX packet with double VLAN inserted.
pub const PKT_TX_QINQ_PKT: u64 = 1u64 << 49;

/// Request TCP segmentation offload.
pub const PKT_TX_TCP_SEG: u64 = 1u64 << 50;

/// TX IEEE1588 packet to timestamp.
pub const PKT_TX_IEEE1588_TMST: u64 = 1u64 << 51;

/// Disable L4 checksum of the TX packet.
pub const PKT_TX_L4_NO_CKSUM: u64 = 0u64 << 52;

/// TCP checksum of the TX packet computed by hardware.
pub const PKT_TX_TCP_CKSUM: u64 = 1u64 << 52;

/// SCTP checksum of the TX packet computed by hardware.
pub const PKT_TX_SCTP_CKSUM: u64 = 2u64 << 52;

/// UDP checksum of the TX packet computed by hardware.
pub const PKT_TX_UDP_CKSUM: u64 = 3u64 << 52;

/// Mask of the L4 checksum-offload request bits.
pub const PKT_TX_L4_MASK: u64 = 3u64 << 52;

/// Offload the IP checksum in hardware.
pub const PKT_TX_IP_CKSUM: u64 = 1u64 << 54;

/// TX packet is IPv4 (inner header for tunneled packets).
pub const PKT_TX_IPV4: u64 = 1u64 << 55;

/// TX packet is IPv6 (inner header for tunneled packets).
pub const PKT_TX_IPV6: u64 = 1u64 << 56;

/// TX packet is an 802.1q VLAN packet.
pub const PKT_TX_VLAN_PKT: u64 = 1u64 << 57;

/// Offload the outer IP checksum of a tunneled packet in hardware.
pub const PKT_TX_OUTER_IP_CKSUM: u64 = 1u64 << 58;

/// Outer header of the tunneled TX packet is IPv4.
pub const PKT_TX_OUTER_IPV4: u64 = 1u64 << 59;

/// Outer header of the tunneled TX packet is IPv6.
pub const PKT_TX_OUTER_IPV6: u64 = 1u64 << 60;

/// Indirectly attached buffer.
pub const IND_ATTACHED_MBUF: u64 = 1u64 << 62;

/// Buffer holds control data, not packet data.
pub const CTRL_MBUF_FLAG: u64 = 1u64 << 63;

// ---------------------------------------------------------------------
// VMDQ pool RX mode bits.
// ---------------------------------------------------------------------
/// Accept untagged packets.
pub const ETH_VMDQ_ACCEPT_UNTAG: u16 = 0x0001;

/// Accept packets in the multicast table.
pub const ETH_VMDQ_ACCEPT_HASH_MC: u16 = 0x0002;

/// Accept packets in the unicast table.
pub const ETH_VMDQ_ACCEPT_HASH_UC: u16 = 0x0004;

/// Accept broadcast packets.
pub const ETH_VMDQ_ACCEPT_BROADCAST: u16 = 0x0008;

/// Multicast promiscuous.
pub const ETH_VMDQ_ACCEPT_MULTICAST: u16 = 0x0010;

/// A set of VMDQ pool RX modes.
#[derive(Clone, Copy, Debug, PartialEq, Eq, Structural)]
pub struct EthVmdqRxMode {
    pub bits: u16,
}

// ---------------------------------------------------------------------
// RX multi-queue distribution mode bits.
// ---------------------------------------------------------------------
/// Distribute received packets by RSS hash.
pub const ETH_MQ_RX_RSS_FLAG: u32 = 0x1;

/// Distribute received packets by DCB traffic class.
pub const ETH_MQ_RX_DCB_FLAG: u32 = 0x2;

/// Distribute received packets by VMDQ pool.
pub const ETH_MQ_RX_VMDQ_FLAG: u32 = 0x4;

/// The method used to route received packets to multiple queues.
#[derive(Clone, Copy, Debug, PartialEq, Eq, Structural)]
pub struct EthRxMultiQueueMode {
    pub bits: u32,
}

impl EthRxMultiQueueMode {
    /// True when every bit of `other` is set in `self`.
    pub fn contains(self, other: EthRxMultiQueueMode) -> (r: bool)
        ensures
            r == (self.bits & other.bits == other.bits),
    {
        self.bits & other.bits == other.bits
    }

    /// The union of the two sets.
    pub fn union(self, other: EthRxMultiQueueMode) -> (r: EthRxMultiQueueMode)
        ensures
            r.bits == self.bits | other.bits,
    {
        EthRxMultiQueueMode { bits: self.bits | other.bits }
    }
}

impl Default for EthRxMultiQueueMode {
    /// No multi-queue distribution.
    fn default() -> (r: Self)
        ensures
            r.bits == 0,
    {
        EthRxMultiQueueMode { bits: 0 }
    }
}

// ---------------------------------------------------------------------
// VLAN offload mode bits.
// ---------------------------------------------------------------------
/// VLAN strip on/off.
pub const ETH_VLAN_STRIP_OFFLOAD: i32 = 0x0001;

/// VLAN filter on/off.
pub const ETH_VLAN_FILTER_OFFLOAD: i32 = 0x0002;

/// VLAN extend on/off.
pub const ETH_VLAN_EXTEND_OFFLOAD: i32 = 0x0004;

/// VLAN strip setting mask.
pub const ETH_VLAN_STRIP_MASK: i32 = 0x0001;

/// VLAN filter setting mask.
pub const ETH_VLAN_FILTER_MASK: i32 = 0x0002;

/// VLAN extend setting mask.
pub const ETH_VLAN_EXTEND_MASK: i32 = 0x0004;

/// A VLAN tag identifier fits in the low 12 bits.
pub const ETH_VLAN_ID_MAX: i32 = 0x0FFF;

/// The VLAN offload configuration of a device.
#[derive(Clone, Copy, Debug, PartialEq, Eq, Structural)]
pub struct EthVlanOffloadMode {
    pub bits: i32,
}

impl EthVlanOffloadMode {
    /// True when every bit of `other` is set in `self`.
    pub fn contains(self, other: EthVlanOffloadMode) -> (r: bool)
        ensures
            r == (self.bits & other.bits == other.bits),
    {
        self.bits & other.bits == other.bits
    }

    /// The union of the two sets.
    pub fn union(self, other: EthVlanOffloadMode) -> (r: EthVlanOffloadMode)
        ensures
            r.bits == self.bits | other.bits,
    {
        EthVlanOffloadMode { bits: self.bits | other.bits }
    }
}

// ---------------------------------------------------------------------
// RSS offload (flow) types: one bit per flow type that may take part in
// receive-side hashing.
// ---------------------------------------------------------------------
/// Hash plain IPv4 headers.
pub const ETH_RSS_IPV4: u64 = 1u64 << 2;

/// Hash fragmented IPv4 headers.
pub const ETH_RSS_FRAG_IPV4: u64 = 1u64 << 3;

/// Hash IPv4/TCP headers.
pub const ETH_RSS_NONFRAG_IPV4_TCP: u64 = 1u64 << 4;

/// Hash IPv4/UDP headers.
pub const ETH_RSS_NONFRAG_IPV4_UDP: u64 = 1u64 << 5;

/// Hash IPv4/SCTP headers.
pub const ETH_RSS_NONFRAG_IPV4_SCTP: u64 = 1u64 << 6;

/// Hash other non-fragmented IPv4 headers.
pub const ETH_RSS_NONFRAG_IPV4_OTHER: u64 = 1u64 << 7;

/// Hash plain IPv6 headers.
pub const ETH_RSS_IPV6: u64 = 1u64 << 8;

/// Hash fragmented IPv6 headers.
pub const ETH_RSS_FRAG_IPV6: u64 = 1u64 << 9;

/// Hash IPv6/TCP headers.
pub const ETH_RSS_NONFRAG_IPV6_TCP: u64 = 1u64 << 10;

/// Hash IPv6/UDP headers.
pub const ETH_RSS_NONFRAG_IPV6_UDP: u64 = 1u64 << 11;

/// Hash IPv6/SCTP headers.
pub const ETH_RSS_NONFRAG_IPV6_SCTP: u64 = 1u64 << 12;

/// Hash other non-fragmented IPv6 headers.
pub const ETH_RSS_NONFRAG_IPV6_OTHER: u64 = 1u64 << 13;

/// Hash the L2 payload.
pub const ETH_RSS_L2_PAYLOAD: u64 = 1u64 << 14;

/// Hash IPv6 headers with extensions.
pub const ETH_RSS_IPV6_EX: u64 = 1u64 << 15;

/// Hash IPv6/TCP headers with extensions.
pub const ETH_RSS_IPV6_TCP_EX: u64 = 1u64 << 16;

/// Hash IPv6/UDP headers with extensions.
pub const ETH_RSS_IPV6_UDP_EX: u64 = 1u64 << 17;

/// All plain IP flow types.
pub const ETH_RSS_IP: u64 = ETH_RSS_IPV4 | ETH_RSS_FRAG_IPV4 | ETH_RSS_NONFRAG_IPV4_OTHER
    | ETH_RSS_IPV6 | ETH_RSS_FRAG_IPV6 | ETH_RSS_NONFRAG_IPV6_OTHER | ETH_RSS_IPV6_EX;

/// All UDP flow types.
pub const ETH_RSS_UDP: u64 = ETH_RSS_NONFRAG_IPV4_UDP | ETH_RSS_NONFRAG_IPV6_UDP
    | ETH_RSS_IPV6_UDP_EX;

/// All TCP flow types.
pub const ETH_RSS_TCP: u64 = ETH_RSS_NONFRAG_IPV4_TCP | ETH_RSS_NONFRAG_IPV6_TCP
    | ETH_RSS_IPV6_TCP_EX;

/// All SCTP flow types.
pub const ETH_RSS_SCTP: u64 = ETH_RSS_NONFRAG_IPV4_SCTP | ETH_RSS_NONFRAG_IPV6_SCTP;

/// Mask of all valid RSS flow-type bits.
pub const ETH_RSS_PROTO_MASK: u64 = ETH_RSS_IPV4 | ETH_RSS_FRAG_IPV4 | ETH_RSS_NONFRAG_IPV4_TCP
    | ETH_RSS_NONFRAG_IPV4_UDP | ETH_RSS_NONFRAG_IPV4_SCTP | ETH_RSS_NONFRAG_IPV4_OTHER
    | ETH_RSS_IPV6 | ETH_RSS_FRAG_IPV6 | ETH_RSS_NONFRAG_IPV6_TCP | ETH_RSS_NONFRAG_IPV6_UDP
    | ETH_RSS_NONFRAG_IPV6_SCTP | ETH_RSS_NONFRAG_IPV6_OTHER | ETH_RSS_L2_PAYLOAD
    | ETH_RSS_IPV6_EX | ETH_RSS_IPV6_TCP_EX | ETH_RSS_IPV6_UDP_EX;

/// The set of packet-header combinations that take part in RSS hashing.
#[derive(Clone, Copy, Debug, PartialEq, Eq, Structural)]
pub struct RssHashFunc {
    pub bits: u64,
}

impl RssHashFunc {
    /// True when every bit of `other` is set in `self`.
    pub fn contains(self, other: RssHashFunc) -> (r: bool)
        ensures
            r == (self.bits & other.bits == other.bits),
    {
        self.bits & other.bits == other.bits
    }

    /// The union of the two sets.
    pub fn union(self, other: RssHashFunc) -> (r: RssHashFunc)
        ensures
            r.bits == self.bits | other.bits,
    {
        RssHashFunc { bits: self.bits | other.bits }
    }
}

// ---------------------------------------------------------------------
// Link speed bits, used both to advertise speeds and to report hardware
// capabilities.
// ---------------------------------------------------------------------
/// Autonegotiate among all supported speeds.
pub const ETH_LINK_SPEED_AUTONEG: u32 = 0;

/// Disable autonegotiation; a unique fixed speed must be set.
pub const ETH_LINK_SPEED_FIXED: u32 = 1u32 << 0;

/// 10 Mbps half-duplex.
pub const ETH_LINK_SPEED_10M_HD: u32 = 1u32 << 1;

/// 10 Mbps full-duplex.
pub const ETH_LINK_SPEED_10M: u32 = 1u32 << 2;

/// 100 Mbps half-duplex.
pub const ETH_LINK_SPEED_100M_HD: u32 = 1u32 << 3;

/// 100 Mbps full-duplex.
pub const ETH_LINK_SPEED_100M: u32 = 1u32 << 4;

/// 1 Gbps.
pub const ETH_LINK_SPEED_1G: u32 = 1u32 << 5;

/// 2.5 Gbps.
pub const ETH_LINK_SPEED_2_5G: u32 = 1u32 << 6;

/// 5 Gbps.
pub const ETH_LINK_SPEED_5G: u32 = 1u32 << 7;

/// 10 Gbps.
pub const ETH_LINK_SPEED_10G: u32 = 1u32 << 8;

/// 20 Gbps.
pub const ETH_LINK_SPEED_20G: u32 = 1u32 << 9;

/// 25 Gbps.
pub const ETH_LINK_SPEED_25G: u32 = 1u32 << 10;

/// 40 Gbps.
pub const ETH_LINK_SPEED_40G: u32 = 1u32 << 11;

/// 50 Gbps.
pub const ETH_LINK_SPEED_50G: u32 = 1u32 << 12;

/// 56 Gbps.
pub const ETH_LINK_SPEED_56G: u32 = 1u32 << 13;

/// 100 Gbps.
pub const ETH_LINK_SPEED_100G: u32 = 1u32 << 14;

/// A set of link speeds: the speeds a device advertises, or the speeds it
/// supports.
#[derive(Clone, Copy, Debug, PartialEq, Eq, Structural)]
pub struct LinkSpeed {
    pub bits: u32,
}

impl LinkSpeed {
    /// True when every bit of `other` is set in `self`.
    pub fn contains(self, other: LinkSpeed) -> (r: bool)
        ensures
            r == (self.bits & other.bits == other.bits),
    {
        self.bits & other.bits == other.bits
    }

    /// The union of the two sets.
    pub fn union(self, other: LinkSpeed) -> (r: LinkSpeed)
        ensures
            r.bits == self.bits | other.bits,
    {
        LinkSpeed { bits: self.bits | other.bits }
    }
}

impl Default for LinkSpeed {
    /// Autonegotiate among all supported speeds.
    fn default() -> (r: Self)
        ensures
            r.bits == ETH_LINK_SPEED_AUTONEG,
    {
        LinkSpeed { bits: ETH_LINK_SPEED_AUTONEG }
    }
}

// ---------------------------------------------------------------------
// Device offload capability bits, as reported by the device information
// and demanded by a configuration's feature switches.
// ---------------------------------------------------------------------
/// The device can strip VLAN tags on receive.
pub const DEV_RX_OFFLOAD_VLAN_STRIP: u64 = 0x1;

/// The device can verify IPv4 checksums on receive.
pub const DEV_RX_OFFLOAD_IPV4_CKSUM: u64 = 0x2;

/// The device can verify UDP checksums on receive.
pub const DEV_RX_OFFLOAD_UDP_CKSUM: u64 = 0x4;

/// The device can verify TCP checksums on receive.
pub const DEV_RX_OFFLOAD_TCP_CKSUM: u64 = 0x8;

/// The device can coalesce TCP segments on receive (LRO).
pub const DEV_RX_OFFLOAD_TCP_LRO: u64 = 0x10;

/// The device can filter received packets by VLAN tag.
pub const DEV_RX_OFFLOAD_VLAN_FILTER: u64 = 0x200;

/// The device understands double VLAN tags on receive.
pub const DEV_RX_OFFLOAD_VLAN_EXTEND: u64 = 0x400;

/// The device can scatter received frames over several buffers.
pub const DEV_RX_OFFLOAD_SCATTER: u64 = 0x2000;

/// The device can insert VLAN tags on transmit.
pub const DEV_TX_OFFLOAD_VLAN_INSERT: u64 = 0x1;

} // verus!
