//! Predicates on IPv6 addresses: membership in the special-purpose blocks
//! of the IANA IPv6 special-purpose address registry, and the list of named
//! predicates that filters and counts refer to.

use vstd::prelude::*;
use crate::addr::{net_contains, prefix_contains};

verus! {

/// Network address of `::1/128`.
pub const LOOPBACK_NET: u128 = 0x0000_0000_0000_0000_0000_0000_0000_0001;

/// Network address of `::/128`.
pub const UNSPECIFIED_NET: u128 = 0x0000_0000_0000_0000_0000_0000_0000_0000;

/// Network address of `fe80::/10`.
pub const LINK_LOCAL_NET: u128 = 0xfe80_0000_0000_0000_0000_0000_0000_0000;

/// Network address of `fc00::/7`.
pub const UNIQUE_LOCAL_NET: u128 = 0xfc00_0000_0000_0000_0000_0000_0000_0000;

/// Network address of `ff00::/8`.
pub const MULTICAST_NET: u128 = 0xff00_0000_0000_0000_0000_0000_0000_0000;

/// Network address of `ff02::1:ff00:0000/104`.
pub const SOLICITED_NODE_NET: u128 = 0xff02_0000_0000_0000_0000_0001_ff00_0000;

/// Network address of `::ffff:0:0/96`.
pub const IPV4_MAPPED_NET: u128 = 0x0000_0000_0000_0000_0000_ffff_0000_0000;

/// Network address of `64:ff9b::/96`.
pub const IPV4_TO_IPV6_NET: u128 = 0x0064_ff9b_0000_0000_0000_0000_0000_0000;

/// Network address of `64:ff9b:1::/48`.
pub const EXTENDED_IPV4_NET: u128 = 0x0064_ff9b_0001_0000_0000_0000_0000_0000;

/// Network address of `2002::/16`.
pub const IPV6_TO_IPV4_NET: u128 = 0x2002_0000_0000_0000_0000_0000_0000_0000;

/// Network address of `2001:db8::/32`.
pub const DOCUMENTATION_NET: u128 = 0x2001_0db8_0000_0000_0000_0000_0000_0000;

/// Network address of `3fff::/20`.
pub const DOCUMENTATION_2_NET: u128 = 0x3fff_0000_0000_0000_0000_0000_0000_0000;

/// Network address of `2001:2::/48`.
pub const BENCHMARKING_NET: u128 = 0x2001_0002_0000_0000_0000_0000_0000_0000;

/// Network address of `2001::/32`.
pub const TEREDO_NET: u128 = 0x2001_0000_0000_0000_0000_0000_0000_0000;

/// Network address of `2001::/23`.
pub const IETF_PROTOCOL_NET: u128 = 0x2001_0000_0000_0000_0000_0000_0000_0000;

/// Network address of `2001:1::1/128`.
pub const PORT_CONTROL_NET: u128 = 0x2001_0001_0000_0000_0000_0000_0000_0001;

/// Network address of `2001:1::2/128`.
pub const TURN_NET: u128 = 0x2001_0001_0000_0000_0000_0000_0000_0002;

/// Network address of `2001:1::3/128`.
pub const DNS_SD_NET: u128 = 0x2001_0001_0000_0000_0000_0000_0000_0003;

/// Network address of `2001:3::/32`.
pub const AMT_NET: u128 = 0x2001_0003_0000_0000_0000_0000_0000_0000;

/// Network address of `5f00::/16`.
pub const SEGMENT_ROUTING_NET: u128 = 0x5f00_0000_0000_0000_0000_0000_0000_0000;

/// Network address of `100::/64`.
pub const DISCARD_ONLY_NET: u128 = 0x0100_0000_0000_0000_0000_0000_0000_0000;

/// Network address of `100:0:0:1::/64`.
pub const DUMMY_PREFIX_NET: u128 = 0x0100_0000_0000_0001_0000_0000_0000_0000;

/// Network address of `2001:4:112::/48`.
pub const AS112_V6_NET: u128 = 0x2001_0004_0112_0000_0000_0000_0000_0000;

/// Network address of `2620:4f:8000::/48`.
pub const DIRECT_AS112_NET: u128 = 0x2620_004f_8000_0000_0000_0000_0000_0000;

/// Network address of `2001:10::/28`.
pub const DEPRECATED_ORCHID_NET: u128 = 0x2001_0010_0000_0000_0000_0000_0000_0000;

/// Network address of `2001:20::/28`.
pub const ORCHID_V2_NET: u128 = 0x2001_0020_0000_0000_0000_0000_0000_0000;

/// Network address of `2001:30::/28`.
pub const DRONE_REMOTE_ID_NET: u128 = 0x2001_0030_0000_0000_0000_0000_0000_0000;


/// Checks if IPv6 address is loopback (::1/128).
pub struct LoopbackPredicate;

impl LoopbackPredicate {
    pub const NAME: &'static str = "loopback_predicate";
    pub const DESCRIPTION: &'static str = "Checks if IPv6 address is loopback (::1/128)";

    /// Whether `addr` lies in `::1/128`.
    pub fn predicate(&self, addr: u128) -> (r: bool)
        ensures
            r == net_contains(LOOPBACK_NET, 128, addr),
    {
        prefix_contains(LOOPBACK_NET, 128, addr)
    }
}

/// Checks if IPv6 address is unspecified (::/128).
pub struct UnspecifiedPredicate;

impl UnspecifiedPredicate {
    pub const NAME: &'static str = "unspecified_predicate";
    pub const DESCRIPTION: &'static str = "Checks if IPv6 address is unspecified (::/128)";

    /// Whether `addr` lies in `::/128`.
    pub fn predicate(&self, addr: u128) -> (r: bool)
        ensures
            r == net_contains(UNSPECIFIED_NET, 128, addr),
    {
        prefix_contains(UNSPECIFIED_NET, 128, addr)
    }
}

/// Checks if IPv6 address is Link Local (fe80::/10).
pub struct LinkLocalPredicate;

impl LinkLocalPredicate {
    pub const NAME: &'static str = "link_local_predicate";
    pub const DESCRIPTION: &'static str = "Checks if IPv6 address is Link Local (fe80::/10)";

    /// Whether `addr` lies in `fe80::/10`.
    pub fn predicate(&self, addr: u128) -> (r: bool)
        ensures
            r == net_contains(LINK_LOCAL_NET, 10, addr),
    {
        prefix_contains(LINK_LOCAL_NET, 10, addr)
    }
}

/// Checks if IPv6 address is Unique Local (fc00::/7).
pub struct UniqueLocalPredicate;

impl UniqueLocalPredicate {
    pub const NAME: &'static str = "unique_local_predicate";
    pub const DESCRIPTION: &'static str = "Checks if IPv6 address is Unique Local (fc00::/7)";

    /// Whether `addr` lies in `fc00::/7`.
    pub fn predicate(&self, addr: u128) -> (r: bool)
        ensures
            r == net_contains(UNIQUE_LOCAL_NET, 7, addr),
    {
        prefix_contains(UNIQUE_LOCAL_NET, 7, addr)
    }
}

/// Checks if IPv6 address is multicast (ff00::/8).
pub struct IsMulticastPredicate;

impl IsMulticastPredicate {
    pub const NAME: &'static str = "is_multicast_predicate";
    pub const DESCRIPTION: &'static str = "Checks if IPv6 address is multicast (ff00::/8)";

    /// Whether `addr` lies in `ff00::/8`.
    pub fn predicate(&self, addr: u128) -> (r: bool)
        ensures
            r == net_contains(MULTICAST_NET, 8, addr),
    {
        prefix_contains(MULTICAST_NET, 8, addr)
    }
}

/// Checks if IPv6 address is a solicited-node multicast address (ff02::1:ff00:0000/104).
pub struct SolicitedNodeMulticastPredicate;

impl SolicitedNodeMulticastPredicate {
    pub const NAME: &'static str = "solicited_node_multicast_predicate";
    pub const DESCRIPTION: &'static str = "Checks if IPv6 address is a solicited-node multicast address (ff02::1:ff00:0000/104)";

    /// Whether `addr` lies in `ff02::1:ff00:0000/104`.
    pub fn predicate(&self, addr: u128) -> (r: bool)
        ensures
            r == net_contains(SOLICITED_NODE_NET, 104, addr),
    {
        prefix_contains(SOLICITED_NODE_NET, 104, addr)
    }
}

/// Checks if IPv6 address is IPv4-mapped (::ffff:0:0/96).
pub struct Ipv4MappedPredicate;

impl Ipv4MappedPredicate {
    pub const NAME: &'static str = "ipv4_mapped_predicate";
    pub const DESCRIPTION: &'static str = "Checks if IPv6 address is IPv4-mapped (::ffff:0:0/96)";

    /// Whether `addr` lies in `::ffff:0:0/96`.
    pub fn predicate(&self, addr: u128) -> (r: bool)
        ensures
            r == net_contains(IPV4_MAPPED_NET, 96, addr),
    {
        prefix_contains(IPV4_MAPPED_NET, 96, addr)
    }
}

/// Checks if IPv6 address is IPv4 to IPv6 translation (64:ff9b::/96).
pub struct Ipv4ToIpv6Predicate;

impl Ipv4ToIpv6Predicate {
    pub const NAME: &'static str = "ipv4_to_ipv6_predicate";
    pub const DESCRIPTION: &'static str = "Checks if IPv6 address is IPv4 to IPv6 translation (64:ff9b::/96)";

    /// Whether `addr` lies in `64:ff9b::/96`.
    pub fn predicate(&self, addr: u128) -> (r: bool)
        ensures
            r == net_contains(IPV4_TO_IPV6_NET, 96, addr),
    {
        prefix_contains(IPV4_TO_IPV6_NET, 96, addr)
    }
}

/// Checks if IPv6 address is extended IPv4-IPv6 translation (64:ff9b:1::/48).
pub struct ExtendedIpv4Ipv6Predicate;

impl ExtendedIpv4Ipv6Predicate {
    pub const NAME: &'static str = "extended_ipv4_ipv6_predicate";
    pub const DESCRIPTION: &'static str = "Checks if IPv6 address is extended IPv4-IPv6 translation (64:ff9b:1::/48)";

    /// Whether `addr` lies in `64:ff9b:1::/48`.
    pub fn predicate(&self, addr: u128) -> (r: bool)
        ensures
            r == net_contains(EXTENDED_IPV4_NET, 48, addr),
    {
        prefix_contains(EXTENDED_IPV4_NET, 48, addr)
    }
}

/// Checks if IPv6 address is IPv6 to IPv4 (2002::/16).
pub struct Ipv6ToIpv4Predicate;

impl Ipv6ToIpv4Predicate {
    pub const NAME: &'static str = "ipv6_to_ipv4_predicate";
    pub const DESCRIPTION: &'static str = "Checks if IPv6 address is IPv6 to IPv4 (2002::/16)";

    /// Whether `addr` lies in `2002::/16`.
    pub fn predicate(&self, addr: u128) -> (r: bool)
        ensures
            r == net_contains(IPV6_TO_IPV4_NET, 16, addr),
    {
        prefix_contains(IPV6_TO_IPV4_NET, 16, addr)
    }
}

/// Checks if IPv6 address is documentation (2001:db8::/32).
pub struct DocumentationPredicate;

impl DocumentationPredicate {
    pub const NAME: &'static str = "documentation_predicate";
    pub const DESCRIPTION: &'static str = "Checks if IPv6 address is documentation (2001:db8::/32)";

    /// Whether `addr` lies in `2001:db8::/32`.
    pub fn predicate(&self, addr: u128) -> (r: bool)
        ensures
            r == net_contains(DOCUMENTATION_NET, 32, addr),
    {
        prefix_contains(DOCUMENTATION_NET, 32, addr)
    }
}

/// Checks if IPv6 address is documentation (3fff::/20).
pub struct Documentation2Predicate;

impl Documentation2Predicate {
    pub const NAME: &'static str = "documentation_2_predicate";
    pub const DESCRIPTION: &'static str = "Checks if IPv6 address is documentation (3fff::/20)";

    /// Whether `addr` lies in `3fff::/20`.
    pub fn predicate(&self, addr: u128) -> (r: bool)
        ensures
            r == net_contains(DOCUMENTATION_2_NET, 20, addr),
    {
        prefix_contains(DOCUMENTATION_2_NET, 20, addr)
    }
}

/// Checks if IPv6 address is benchmarking (2001:2::/48).
pub struct BenchmarkingPredicate;

impl BenchmarkingPredicate {
    pub const NAME: &'static str = "benchmarking_predicate";
    pub const DESCRIPTION: &'static str = "Checks if IPv6 address is benchmarking (2001:2::/48)";

    /// Whether `addr` lies in `2001:2::/48`.
    pub fn predicate(&self, addr: u128) -> (r: bool)
        ensures
            r == net_contains(BENCHMARKING_NET, 48, addr),
    {
        prefix_contains(BENCHMARKING_NET, 48, addr)
    }
}

/// Checks if IPv6 address is Teredo (2001::/32).
pub struct TeredoPredicate;

impl TeredoPredicate {
    pub const NAME: &'static str = "teredo_predicate";
    pub const DESCRIPTION: &'static str = "Checks if IPv6 address is Teredo (2001::/32)";

    /// Whether `addr` lies in `2001::/32`.
    pub fn predicate(&self, addr: u128) -> (r: bool)
        ensures
            r == net_contains(TEREDO_NET, 32, addr),
    {
        prefix_contains(TEREDO_NET, 32, addr)
    }
}

/// Checks if IPv6 address is IETF protocol (2001::/23).
pub struct IetfProtocolPredicate;

impl IetfProtocolPredicate {
    pub const NAME: &'static str = "ietf_protocol_predicate";
    pub const DESCRIPTION: &'static str = "Checks if IPv6 address is IETF protocol (2001::/23)";

    /// Whether `addr` lies in `2001::/23`.
    pub fn predicate(&self, addr: u128) -> (r: bool)
        ensures
            r == net_contains(IETF_PROTOCOL_NET, 23, addr),
    {
        prefix_contains(IETF_PROTOCOL_NET, 23, addr)
    }
}

/// Checks if IPv6 address is Port Control Protocol (2001:1::1/128).
pub struct PortControlProtocolPredicate;

impl PortControlProtocolPredicate {
    pub const NAME: &'static str = "port_control_protocol_predicate";
    pub const DESCRIPTION: &'static str = "Checks if IPv6 address is Port Control Protocol (2001:1::1/128)";

    /// Whether `addr` lies in `2001:1::1/128`.
    pub fn predicate(&self, addr: u128) -> (r: bool)
        ensures
            r == net_contains(PORT_CONTROL_NET, 128, addr),
    {
        prefix_contains(PORT_CONTROL_NET, 128, addr)
    }
}

/// Checks if IPv6 address is TURN (2001:1::2/128).
pub struct TurnPredicate;

impl TurnPredicate {
    pub const NAME: &'static str = "turn_predicate";
    pub const DESCRIPTION: &'static str = "Checks if IPv6 address is TURN (2001:1::2/128)";

    /// Whether `addr` lies in `2001:1::2/128`.
    pub fn predicate(&self, addr: u128) -> (r: bool)
        ensures
            r == net_contains(TURN_NET, 128, addr),
    {
        prefix_contains(TURN_NET, 128, addr)
    }
}

/// Checks if IPv6 address is DNS-SD (2001:1::3/128).
pub struct DnsSdPredicate;

impl DnsSdPredicate {
    pub const NAME: &'static str = "dns_sd_predicate";
    pub const DESCRIPTION: &'static str = "Checks if IPv6 address is DNS-SD (2001:1::3/128)";

    /// Whether `addr` lies in `2001:1::3/128`.
    pub fn predicate(&self, addr: u128) -> (r: bool)
        ensures
            r == net_contains(DNS_SD_NET, 128, addr),
    {
        prefix_contains(DNS_SD_NET, 128, addr)
    }
}

/// Checks if IPv6 address is AMT (2001:3::/32).
pub struct AmtPredicate;

impl AmtPredicate {
    pub const NAME: &'static str = "amt_predicate";
    pub const DESCRIPTION: &'static str = "Checks if IPv6 address is AMT (2001:3::/32)";

    /// Whether `addr` lies in `2001:3::/32`.
    pub fn predicate(&self, addr: u128) -> (r: bool)
        ensures
            r == net_contains(AMT_NET, 32, addr),
    {
        prefix_contains(AMT_NET, 32, addr)
    }
}

/// Checks if IPv6 address is Segment Routing (5f00::/16).
pub struct SegmentRoutingPredicate;

impl SegmentRoutingPredicate {
    pub const NAME: &'static str = "segment_routing_predicate";
    pub const DESCRIPTION: &'static str = "Checks if IPv6 address is Segment Routing (5f00::/16)";

    /// Whether `addr` lies in `5f00::/16`.
    pub fn predicate(&self, addr: u128) -> (r: bool)
        ensures
            r == net_contains(SEGMENT_ROUTING_NET, 16, addr),
    {
        prefix_contains(SEGMENT_ROUTING_NET, 16, addr)
    }
}

/// Checks if IPv6 address is discard-only (100::/64).
pub struct DiscardOnlyPredicate;

impl DiscardOnlyPredicate {
    pub const NAME: &'static str = "discard_only_predicate";
    pub const DESCRIPTION: &'static str = "Checks if IPv6 address is discard-only (100::/64)";

    /// Whether `addr` lies in `100::/64`.
    pub fn predicate(&self, addr: u128) -> (r: bool)
        ensures
            r == net_contains(DISCARD_ONLY_NET, 64, addr),
    {
        prefix_contains(DISCARD_ONLY_NET, 64, addr)
    }
}

/// Checks if IPv6 address is dummy prefix (100:0:0:1::/64).
pub struct DummyPrefixPredicate;

impl DummyPrefixPredicate {
    pub const NAME: &'static str = "dummy_prefix_predicate";
    pub const DESCRIPTION: &'static str = "Checks if IPv6 address is dummy prefix (100:0:0:1::/64)";

    /// Whether `addr` lies in `100:0:0:1::/64`.
    pub fn predicate(&self, addr: u128) -> (r: bool)
        ensures
            r == net_contains(DUMMY_PREFIX_NET, 64, addr),
    {
        prefix_contains(DUMMY_PREFIX_NET, 64, addr)
    }
}

/// Checks if IPv6 address is AS112-v6 (2001:4:112::/48).
pub struct As112V6Predicate;

impl As112V6Predicate {
    pub const NAME: &'static str = "as112_v6_predicate";
    pub const DESCRIPTION: &'static str = "Checks if IPv6 address is AS112-v6 (2001:4:112::/48)";

    /// Whether `addr` lies in `2001:4:112::/48`.
    pub fn predicate(&self, addr: u128) -> (r: bool)
        ensures
            r == net_contains(AS112_V6_NET, 48, addr),
    {
        prefix_contains(AS112_V6_NET, 48, addr)
    }
}

/// Checks if IPv6 address is Direct AS112 (2620:4f:8000::/48).
pub struct DirectAs112Predicate;

impl DirectAs112Predicate {
    pub const NAME: &'static str = "direct_as112_predicate";
    pub const DESCRIPTION: &'static str = "Checks if IPv6 address is Direct AS112 (2620:4f:8000::/48)";

    /// Whether `addr` lies in `2620:4f:8000::/48`.
    pub fn predicate(&self, addr: u128) -> (r: bool)
        ensures
            r == net_contains(DIRECT_AS112_NET, 48, addr),
    {
        prefix_contains(DIRECT_AS112_NET, 48, addr)
    }
}

/// Checks if IPv6 address is deprecated ORCHID (2001:10::/28).
pub struct DeprecatedOrchidPredicate;

impl DeprecatedOrchidPredicate {
    pub const NAME: &'static str = "deprecated_orchid_predicate";
    pub const DESCRIPTION: &'static str = "Checks if IPv6 address is deprecated ORCHID (2001:10::/28)";

    /// Whether `addr` lies in `2001:10::/28`.
    pub fn predicate(&self, addr: u128) -> (r: bool)
        ensures
            r == net_contains(DEPRECATED_ORCHID_NET, 28, addr),
    {
        prefix_contains(DEPRECATED_ORCHID_NET, 28, addr)
    }
}

/// Checks if IPv6 address is ORCHIDv2 (2001:20::/28).
pub struct OrchidV2Predicate;

impl OrchidV2Predicate {
    pub const NAME: &'static str = "orchid_v2_predicate";
    pub const DESCRIPTION: &'static str = "Checks if IPv6 address is ORCHIDv2 (2001:20::/28)";

    /// Whether `addr` lies in `2001:20::/28`.
    pub fn predicate(&self, addr: u128) -> (r: bool)
        ensures
            r == net_contains(ORCHID_V2_NET, 28, addr),
    {
        prefix_contains(ORCHID_V2_NET, 28, addr)
    }
}

/// Checks if IPv6 address is Drone Remote ID (2001:30::/28).
pub struct DroneRemoteIdPredicate;

impl DroneRemoteIdPredicate {
    pub const NAME: &'static str = "drone_remote_id_predicate";
    pub const DESCRIPTION: &'static str = "Checks if IPv6 address is Drone Remote ID (2001:30::/28)";

    /// Whether `addr` lies in `2001:30::/28`.
    pub fn predicate(&self, addr: u128) -> (r: bool)
        ensures
            r == net_contains(DRONE_REMOTE_ID_NET, 28, addr),
    {
        prefix_contains(DRONE_REMOTE_ID_NET, 28, addr)
    }
}

/// The rule this library uses for an interface identifier (the low 64
/// bits) built from a MAC address by modified EUI-64: its fourth and fifth
/// octets (octets 11 and 12 of the address) are `ff` and `fe`. Nothing else
/// of the identifier (such as the universal/local bit) is checked.
pub open spec fn is_eui64(addr: u128) -> bool {
    (addr / 0x100_0000) % 0x1_0000 == 0xfffe
}

/// The rule this library uses for a low-byte host: the interface
/// identifier is 0 in all but its last octet (`::` to `::ff` within the
/// /64), the identifier 0 included.
pub open spec fn is_low_byte_host(addr: u128) -> bool {
    addr % 0x1_0000_0000_0000_0000 < 0x100
}

/// Checks if the interface identifier is derived from a MAC address (EUI-64).
pub struct Eui64Analysis;

impl Eui64Analysis {
    pub const NAME: &'static str = "eui64_predicate";
    pub const DESCRIPTION: &'static str = "Checks if the interface identifier is derived from a MAC address (EUI-64, ff:fe in its middle octets)";

    /// Whether the interface identifier of `addr` has `ff:fe` in its middle.
    pub fn predicate(&self, addr: u128) -> (r: bool)
        ensures
            r == is_eui64(addr),
    {
        (addr / 0x100_0000) % 0x1_0000 == 0xfffe
    }
}

/// Checks if the interface identifier uses only its lowest octet.
pub struct IsLowByteHostPredicate;

impl IsLowByteHostPredicate {
    pub const NAME: &'static str = "low_byte_host_predicate";
    pub const DESCRIPTION: &'static str = "Checks if the interface identifier is zero but for its lowest octet";

    /// Whether the interface identifier of `addr` is at most `0xff`.
    pub fn predicate(&self, addr: u128) -> (r: bool)
        ensures
            r == is_low_byte_host(addr),
    {
        addr % 0x1_0000_0000_0000_0000 < 0x100
    }
}

/// Globally routable: none of loopback, unspecified, link-local, unique
/// local, multicast, IPv4-mapped or either documentation block.
pub struct IsGloballyRoutablePredicate;

/// The definition of a globally routable address.
pub open spec fn is_globally_routable(addr: u128) -> bool {
    &&& !net_contains(LOOPBACK_NET, 128, addr)
    &&& !net_contains(UNSPECIFIED_NET, 128, addr)
    &&& !net_contains(LINK_LOCAL_NET, 10, addr)
    &&& !net_contains(UNIQUE_LOCAL_NET, 7, addr)
    &&& !net_contains(MULTICAST_NET, 8, addr)
    &&& !net_contains(IPV4_MAPPED_NET, 96, addr)
    &&& !net_contains(DOCUMENTATION_NET, 32, addr)
    &&& !net_contains(DOCUMENTATION_2_NET, 20, addr)
}

impl IsGloballyRoutablePredicate {
    pub const NAME: &'static str = "is_globally_routable_predicate";
    pub const DESCRIPTION: &'static str = "Checks if the address is globally routable (i.e., not private, loopback, link-local, documentation, etc.).";

    /// Whether `addr` is globally routable.
    pub fn predicate(&self, addr: u128) -> (r: bool)
        ensures
            r == is_globally_routable(addr),
    {
        !LoopbackPredicate.predicate(addr) && !UnspecifiedPredicate.predicate(addr)
            && !LinkLocalPredicate.predicate(addr) && !UniqueLocalPredicate.predicate(addr)
            && !IsMulticastPredicate.predicate(addr) && !Ipv4MappedPredicate.predicate(addr)
            && !DocumentationPredicate.predicate(addr) && !Documentation2Predicate.predicate(
            addr,
        )
    }
}

/// The named predicates, in the order in which they are listed, counted and
/// looked up by name.
#[derive(Clone, Copy, Debug, PartialEq, Eq, Structural)]
pub enum PredicateKind {
    Loopback,
    Unspecified,
    LinkLocal,
    UniqueLocal,
    Multicast,
    SolicitedNode,
    Ipv4Mapped,
    Ipv4ToIpv6,
    ExtendedIpv4,
    Ipv6ToIpv4,
    Documentation,
    Documentation2,
    Benchmarking,
    Teredo,
    IetfProtocol,
    PortControl,
    Turn,
    DnsSd,
    Amt,
    SegmentRouting,
    DiscardOnly,
    DummyPrefix,
    As112V6,
    DirectAs112,
    DeprecatedOrchid,
    OrchidV2,
    DroneRemoteId,
    Eui64,
    LowByteHost,
}

/// Number of named predicates.
pub const NUM_PREDICATES: usize = 29;

impl PredicateKind {
    /// The network of the block that the predicate tests (0 for the two
    /// interface-identifier predicates, which test no block).
    pub open spec fn spec_net(self) -> u128 {
        match self {
            PredicateKind::Loopback => LOOPBACK_NET,
            PredicateKind::Unspecified => UNSPECIFIED_NET,
            PredicateKind::LinkLocal => LINK_LOCAL_NET,
            PredicateKind::UniqueLocal => UNIQUE_LOCAL_NET,
            PredicateKind::Multicast => MULTICAST_NET,
            PredicateKind::SolicitedNode => SOLICITED_NODE_NET,
            PredicateKind::Ipv4Mapped => IPV4_MAPPED_NET,
            PredicateKind::Ipv4ToIpv6 => IPV4_TO_IPV6_NET,
            PredicateKind::ExtendedIpv4 => EXTENDED_IPV4_NET,
            PredicateKind::Ipv6ToIpv4 => IPV6_TO_IPV4_NET,
            PredicateKind::Documentation => DOCUMENTATION_NET,
            PredicateKind::Documentation2 => DOCUMENTATION_2_NET,
            PredicateKind::Benchmarking => BENCHMARKING_NET,
            PredicateKind::Teredo => TEREDO_NET,
            PredicateKind::IetfProtocol => IETF_PROTOCOL_NET,
            PredicateKind::PortControl => PORT_CONTROL_NET,
            PredicateKind::Turn => TURN_NET,
            PredicateKind::DnsSd => DNS_SD_NET,
            PredicateKind::Amt => AMT_NET,
            PredicateKind::SegmentRouting => SEGMENT_ROUTING_NET,
            PredicateKind::DiscardOnly => DISCARD_ONLY_NET,
            PredicateKind::DummyPrefix => DUMMY_PREFIX_NET,
            PredicateKind::As112V6 => AS112_V6_NET,
            PredicateKind::DirectAs112 => DIRECT_AS112_NET,
            PredicateKind::DeprecatedOrchid => DEPRECATED_ORCHID_NET,
            PredicateKind::OrchidV2 => ORCHID_V2_NET,
            PredicateKind::DroneRemoteId => DRONE_REMOTE_ID_NET,
            PredicateKind::Eui64 => 0,
            PredicateKind::LowByteHost => 0,
        }
    }

    /// The prefix length of the block that the predicate tests (0 for the
    /// two interface-identifier predicates).
    pub open spec fn spec_len(self) -> u8 {
        match self {
            PredicateKind::Loopback => 128u8,
            PredicateKind::Unspecified => 128u8,
            PredicateKind::LinkLocal => 10u8,
            PredicateKind::UniqueLocal => 7u8,
            PredicateKind::Multicast => 8u8,
            PredicateKind::SolicitedNode => 104u8,
            PredicateKind::Ipv4Mapped => 96u8,
            PredicateKind::Ipv4ToIpv6 => 96u8,
            PredicateKind::ExtendedIpv4 => 48u8,
            PredicateKind::Ipv6ToIpv4 => 16u8,
            PredicateKind::Documentation => 32u8,
            PredicateKind::Documentation2 => 20u8,
            PredicateKind::Benchmarking => 48u8,
            PredicateKind::Teredo => 32u8,
            PredicateKind::IetfProtocol => 23u8,
            PredicateKind::PortControl => 128u8,
            PredicateKind::Turn => 128u8,
            PredicateKind::DnsSd => 128u8,
            PredicateKind::Amt => 32u8,
            PredicateKind::SegmentRouting => 16u8,
            PredicateKind::DiscardOnly => 64u8,
            PredicateKind::DummyPrefix => 64u8,
            PredicateKind::As112V6 => 48u8,
            PredicateKind::DirectAs112 => 48u8,
            PredicateKind::DeprecatedOrchid => 28u8,
            PredicateKind::OrchidV2 => 28u8,
            PredicateKind::DroneRemoteId => 28u8,
            PredicateKind::Eui64 => 0u8,
            PredicateKind::LowByteHost => 0u8,
        }
    }

    /// Whether the predicate holds of `addr`.
    pub open spec fn spec_holds(self, addr: u128) -> bool {
        match self {
            PredicateKind::Eui64 => is_eui64(addr),
            PredicateKind::LowByteHost => is_low_byte_host(addr),
            _ => net_contains(self.spec_net(), self.spec_len(), addr),
        }
    }

    /// The name under which the predicate is listed.
    pub open spec fn spec_name(self) -> Seq<char> {
        match self {
            PredicateKind::Loopback => "loopback"@,
            PredicateKind::Unspecified => "unspecified"@,
            PredicateKind::LinkLocal => "link_local"@,
            PredicateKind::UniqueLocal => "unique_local"@,
            PredicateKind::Multicast => "multicast"@,
            PredicateKind::SolicitedNode => "solicited_node"@,
            PredicateKind::Ipv4Mapped => "ipv4_mapped"@,
            PredicateKind::Ipv4ToIpv6 => "ipv4_to_ipv6"@,
            PredicateKind::ExtendedIpv4 => "extended_ipv4"@,
            PredicateKind::Ipv6ToIpv4 => "ipv6_to_ipv4"@,
            PredicateKind::Documentation => "documentation"@,
            PredicateKind::Documentation2 => "documentation_2"@,
            PredicateKind::Benchmarking => "benchmarking"@,
            PredicateKind::Teredo => "teredo"@,
            PredicateKind::IetfProtocol => "ietf_protocol"@,
            PredicateKind::PortControl => "port_control"@,
            PredicateKind::Turn => "turn"@,
            PredicateKind::DnsSd => "dns_sd"@,
            PredicateKind::Amt => "amt"@,
            PredicateKind::SegmentRouting => "segment_routing"@,
            PredicateKind::DiscardOnly => "discard_only"@,
            PredicateKind::DummyPrefix => "dummy_prefix"@,
            PredicateKind::As112V6 => "as112_v6"@,
            PredicateKind::DirectAs112 => "direct_as112"@,
            PredicateKind::DeprecatedOrchid => "deprecated_orchid"@,
            PredicateKind::OrchidV2 => "orchid_v2"@,
            PredicateKind::DroneRemoteId => "drone_remote_id"@,
            PredicateKind::Eui64 => "eui64"@,
            PredicateKind::LowByteHost => "low_byte_host"@,
        }
    }

    /// The position of the predicate in the list.
    pub open spec fn spec_index(self) -> int {
        match self {
            PredicateKind::Loopback => 0,
            PredicateKind::Unspecified => 1,
            PredicateKind::LinkLocal => 2,
            PredicateKind::UniqueLocal => 3,
            PredicateKind::Multicast => 4,
            PredicateKind::SolicitedNode => 5,
            PredicateKind::Ipv4Mapped => 6,
            PredicateKind::Ipv4ToIpv6 => 7,
            PredicateKind::ExtendedIpv4 => 8,
            PredicateKind::Ipv6ToIpv4 => 9,
            PredicateKind::Documentation => 10,
            PredicateKind::Documentation2 => 11,
            PredicateKind::Benchmarking => 12,
            PredicateKind::Teredo => 13,
            PredicateKind::IetfProtocol => 14,
            PredicateKind::PortControl => 15,
            PredicateKind::Turn => 16,
            PredicateKind::DnsSd => 17,
            PredicateKind::Amt => 18,
            PredicateKind::SegmentRouting => 19,
            PredicateKind::DiscardOnly => 20,
            PredicateKind::DummyPrefix => 21,
            PredicateKind::As112V6 => 22,
            PredicateKind::DirectAs112 => 23,
            PredicateKind::DeprecatedOrchid => 24,
            PredicateKind::OrchidV2 => 25,
            PredicateKind::DroneRemoteId => 26,
            PredicateKind::Eui64 => 27,
            PredicateKind::LowByteHost => 28,
        }
    }

    /// The name under which the predicate is listed.
    pub fn name(&self) -> (r: &'static str)
        ensures
            r@ == self.spec_name(),
    {
        match self {
            PredicateKind::Loopback => "loopback",
            PredicateKind::Unspecified => "unspecified",
            PredicateKind::LinkLocal => "link_local",
            PredicateKind::UniqueLocal => "unique_local",
            PredicateKind::Multicast => "multicast",
            PredicateKind::SolicitedNode => "solicited_node",
            PredicateKind::Ipv4Mapped => "ipv4_mapped",
            PredicateKind::Ipv4ToIpv6 => "ipv4_to_ipv6",
            PredicateKind::ExtendedIpv4 => "extended_ipv4",
            PredicateKind::Ipv6ToIpv4 => "ipv6_to_ipv4",
            PredicateKind::Documentation => "documentation",
            PredicateKind::Documentation2 => "documentation_2",
            PredicateKind::Benchmarking => "benchmarking",
            PredicateKind::Teredo => "teredo",
            PredicateKind::IetfProtocol => "ietf_protocol",
            PredicateKind::PortControl => "port_control",
            PredicateKind::Turn => "turn",
            PredicateKind::DnsSd => "dns_sd",
            PredicateKind::Amt => "amt",
            PredicateKind::SegmentRouting => "segment_routing",
            PredicateKind::DiscardOnly => "discard_only",
            PredicateKind::DummyPrefix => "dummy_prefix",
            PredicateKind::As112V6 => "as112_v6",
            PredicateKind::DirectAs112 => "direct_as112",
            PredicateKind::DeprecatedOrchid => "deprecated_orchid",
            PredicateKind::OrchidV2 => "orchid_v2",
            PredicateKind::DroneRemoteId => "drone_remote_id",
            PredicateKind::Eui64 => "eui64",
            PredicateKind::LowByteHost => "low_byte_host",
        }
    }

    /// The position of the predicate in the list.
    pub fn index(&self) -> (r: usize)
        ensures
            r == self.spec_index(),
            r < NUM_PREDICATES,
    {
        match self {
            PredicateKind::Loopback => 0,
            PredicateKind::Unspecified => 1,
            PredicateKind::LinkLocal => 2,
            PredicateKind::UniqueLocal => 3,
            PredicateKind::Multicast => 4,
            PredicateKind::SolicitedNode => 5,
            PredicateKind::Ipv4Mapped => 6,
            PredicateKind::Ipv4ToIpv6 => 7,
            PredicateKind::ExtendedIpv4 => 8,
            PredicateKind::Ipv6ToIpv4 => 9,
            PredicateKind::Documentation => 10,
            PredicateKind::Documentation2 => 11,
            PredicateKind::Benchmarking => 12,
            PredicateKind::Teredo => 13,
            PredicateKind::IetfProtocol => 14,
            PredicateKind::PortControl => 15,
            PredicateKind::Turn => 16,
            PredicateKind::DnsSd => 17,
            PredicateKind::Amt => 18,
            PredicateKind::SegmentRouting => 19,
            PredicateKind::DiscardOnly => 20,
            PredicateKind::DummyPrefix => 21,
            PredicateKind::As112V6 => 22,
            PredicateKind::DirectAs112 => 23,
            PredicateKind::DeprecatedOrchid => 24,
            PredicateKind::OrchidV2 => 25,
            PredicateKind::DroneRemoteId => 26,
            PredicateKind::Eui64 => 27,
            PredicateKind::LowByteHost => 28,
        }
    }

    /// Whether the predicate holds of `addr`.
    pub fn holds(&self, addr: u128) -> (r: bool)
        ensures
            r == self.spec_holds(addr),
    {
        match self {
            PredicateKind::Loopback => LoopbackPredicate.predicate(addr),
            PredicateKind::Unspecified => UnspecifiedPredicate.predicate(addr),
            PredicateKind::LinkLocal => LinkLocalPredicate.predicate(addr),
            PredicateKind::UniqueLocal => UniqueLocalPredicate.predicate(addr),
            PredicateKind::Multicast => IsMulticastPredicate.predicate(addr),
            PredicateKind::SolicitedNode => SolicitedNodeMulticastPredicate.predicate(addr),
            PredicateKind::Ipv4Mapped => Ipv4MappedPredicate.predicate(addr),
            PredicateKind::Ipv4ToIpv6 => Ipv4ToIpv6Predicate.predicate(addr),
            PredicateKind::ExtendedIpv4 => ExtendedIpv4Ipv6Predicate.predicate(addr),
            PredicateKind::Ipv6ToIpv4 => Ipv6ToIpv4Predicate.predicate(addr),
            PredicateKind::Documentation => DocumentationPredicate.predicate(addr),
            PredicateKind::Documentation2 => Documentation2Predicate.predicate(addr),
            PredicateKind::Benchmarking => BenchmarkingPredicate.predicate(addr),
            PredicateKind::Teredo => TeredoPredicate.predicate(addr),
            PredicateKind::IetfProtocol => IetfProtocolPredicate.predicate(addr),
            PredicateKind::PortControl => PortControlProtocolPredicate.predicate(addr),
            PredicateKind::Turn => TurnPredicate.predicate(addr),
            PredicateKind::DnsSd => DnsSdPredicate.predicate(addr),
            PredicateKind::Amt => AmtPredicate.predicate(addr),
            PredicateKind::SegmentRouting => SegmentRoutingPredicate.predicate(addr),
            PredicateKind::DiscardOnly => DiscardOnlyPredicate.predicate(addr),
            PredicateKind::DummyPrefix => DummyPrefixPredicate.predicate(addr),
            PredicateKind::As112V6 => As112V6Predicate.predicate(addr),
            PredicateKind::DirectAs112 => DirectAs112Predicate.predicate(addr),
            PredicateKind::DeprecatedOrchid => DeprecatedOrchidPredicate.predicate(addr),
            PredicateKind::OrchidV2 => OrchidV2Predicate.predicate(addr),
            PredicateKind::DroneRemoteId => DroneRemoteIdPredicate.predicate(addr),
            PredicateKind::Eui64 => Eui64Analysis.predicate(addr),
            PredicateKind::LowByteHost => IsLowByteHostPredicate.predicate(addr),
        }
    }
}

/// All named predicates, in list order.
pub open spec fn spec_all_predicates() -> Seq<PredicateKind> {
    seq![
        PredicateKind::Loopback,
        PredicateKind::Unspecified,
        PredicateKind::LinkLocal,
        PredicateKind::UniqueLocal,
        PredicateKind::Multicast,
        PredicateKind::SolicitedNode,
        PredicateKind::Ipv4Mapped,
        PredicateKind::Ipv4ToIpv6,
        PredicateKind::ExtendedIpv4,
        PredicateKind::Ipv6ToIpv4,
        PredicateKind::Documentation,
        PredicateKind::Documentation2,
        PredicateKind::Benchmarking,
        PredicateKind::Teredo,
        PredicateKind::IetfProtocol,
        PredicateKind::PortControl,
        PredicateKind::Turn,
        PredicateKind::DnsSd,
        PredicateKind::Amt,
        PredicateKind::SegmentRouting,
        PredicateKind::DiscardOnly,
        PredicateKind::DummyPrefix,
        PredicateKind::As112V6,
        PredicateKind::DirectAs112,
        PredicateKind::DeprecatedOrchid,
        PredicateKind::OrchidV2,
        PredicateKind::DroneRemoteId,
        PredicateKind::Eui64,
        PredicateKind::LowByteHost,
    ]
}
/// Every predicate stands in the list at its own index.
pub proof fn lemma_all_predicates_indexed(k: PredicateKind)
    ensures
        spec_all_predicates().len() == NUM_PREDICATES,
        0 <= k.spec_index() < NUM_PREDICATES,
        spec_all_predicates()[k.spec_index()] == k,
{
}

/// The predicate at position `j` of the list has index `j`.
pub proof fn lemma_position_indexed(j: int)
    requires
        0 <= j < NUM_PREDICATES,
    ensures
        spec_all_predicates()[j].spec_index() == j,
{
    assert(spec_all_predicates()[0].spec_index() == 0);
    assert(spec_all_predicates()[1].spec_index() == 1);
    assert(spec_all_predicates()[2].spec_index() == 2);
    assert(spec_all_predicates()[3].spec_index() == 3);
    assert(spec_all_predicates()[4].spec_index() == 4);
    assert(spec_all_predicates()[5].spec_index() == 5);
    assert(spec_all_predicates()[6].spec_index() == 6);
    assert(spec_all_predicates()[7].spec_index() == 7);
    assert(spec_all_predicates()[8].spec_index() == 8);
    assert(spec_all_predicates()[9].spec_index() == 9);
    assert(spec_all_predicates()[10].spec_index() == 10);
    assert(spec_all_predicates()[11].spec_index() == 11);
    assert(spec_all_predicates()[12].spec_index() == 12);
    assert(spec_all_predicates()[13].spec_index() == 13);
    assert(spec_all_predicates()[14].spec_index() == 14);
    assert(spec_all_predicates()[15].spec_index() == 15);
    assert(spec_all_predicates()[16].spec_index() == 16);
    assert(spec_all_predicates()[17].spec_index() == 17);
    assert(spec_all_predicates()[18].spec_index() == 18);
    assert(spec_all_predicates()[19].spec_index() == 19);
    assert(spec_all_predicates()[20].spec_index() == 20);
    assert(spec_all_predicates()[21].spec_index() == 21);
    assert(spec_all_predicates()[22].spec_index() == 22);
    assert(spec_all_predicates()[23].spec_index() == 23);
    assert(spec_all_predicates()[24].spec_index() == 24);
    assert(spec_all_predicates()[25].spec_index() == 25);
    assert(spec_all_predicates()[26].spec_index() == 26);
    assert(spec_all_predicates()[27].spec_index() == 27);
    assert(spec_all_predicates()[28].spec_index() == 28);
}

/// The first predicate of the list, from position `i` on, named `name`.
pub open spec fn lookup_from(name: Seq<char>, i: int) -> Option<PredicateKind>
    decreases NUM_PREDICATES - i,
{
    if i < 0 || i >= NUM_PREDICATES {
        None
    } else if spec_all_predicates()[i].spec_name() == name {
        Some(spec_all_predicates()[i])
    } else {
        lookup_from(name, i + 1)
    }
}

/// The first predicate of the list named `name`, if any.
pub open spec fn spec_lookup_predicate(name: Seq<char>) -> Option<PredicateKind> {
    lookup_from(name, 0)
}

/// All named predicates, in list order.
pub fn get_all_predicates() -> (r: Vec<PredicateKind>)
    ensures
        r@ == spec_all_predicates(),
{
    let r = vec![
        PredicateKind::Loopback,
        PredicateKind::Unspecified,
        PredicateKind::LinkLocal,
        PredicateKind::UniqueLocal,
        PredicateKind::Multicast,
        PredicateKind::SolicitedNode,
        PredicateKind::Ipv4Mapped,
        PredicateKind::Ipv4ToIpv6,
        PredicateKind::ExtendedIpv4,
        PredicateKind::Ipv6ToIpv4,
        PredicateKind::Documentation,
        PredicateKind::Documentation2,
        PredicateKind::Benchmarking,
        PredicateKind::Teredo,
        PredicateKind::IetfProtocol,
        PredicateKind::PortControl,
        PredicateKind::Turn,
        PredicateKind::DnsSd,
        PredicateKind::Amt,
        PredicateKind::SegmentRouting,
        PredicateKind::DiscardOnly,
        PredicateKind::DummyPrefix,
        PredicateKind::As112V6,
        PredicateKind::DirectAs112,
        PredicateKind::DeprecatedOrchid,
        PredicateKind::OrchidV2,
        PredicateKind::DroneRemoteId,
        PredicateKind::Eui64,
        PredicateKind::LowByteHost,
    ];
    assert(r@ =~= spec_all_predicates());
    r
}

/// The predicate at position `i` of the list.
pub fn predicate_at(i: usize) -> (r: PredicateKind)
    requires
        i < NUM_PREDICATES,
    ensures
        r.spec_index() == i,
        r == spec_all_predicates()[i as int],
{
    let all = get_all_predicates();
    let r = all[i];
    proof {
        lemma_all_predicates_indexed(r);
        assert(spec_all_predicates()[0] == PredicateKind::Loopback);
    }
    r
}

/// Whether two strings are equal.
fn str_eq(a: &str, b: &str) -> (r: bool)
    ensures
        r == (a@ == b@),
{
    let x = a.to_owned();
    let y = b.to_owned();
    x == y
}

/// The first predicate of the list whose name is `name`, if any.
pub fn lookup_predicate(name: &str) -> (r: Option<PredicateKind>)
    ensures
        r == spec_lookup_predicate(name@),
{
    let all = get_all_predicates();
    let mut i: usize = 0;
    while i < all.len()
        invariant
            all@ == spec_all_predicates(),
            0 <= i <= all.len(),
            lookup_from(name@, 0) == lookup_from(name@, i as int),
        decreases all.len() - i,
    {
        if str_eq(all[i].name(), name) {
            return Some(all[i]);
        }
        i = i + 1;
    }
    None
}


/// Looking a name up from position `i` passes over the predicates before
/// `j` that have other names.
pub proof fn lemma_lookup_from_skips(name: Seq<char>, i: int, j: int)
    requires
        0 <= i <= j <= NUM_PREDICATES,
        forall|m: int| i <= m < j ==> #[trigger] spec_all_predicates()[m].spec_name() != name,
    ensures
        lookup_from(name, i) == lookup_from(name, j),
    decreases j - i,
{
    if i < j {
        lemma_lookup_from_skips(name, i + 1, j);
    }
}

/// The length, first and last characters of a name: enough to tell the
/// names of the predicates apart.
pub open spec fn name_key(s: Seq<char>) -> (int, char, char) {
    (s.len() as int, s[0], s[s.len() - 1])
}

/// No two predicates share a name.
pub proof fn lemma_names_distinct(a: PredicateKind, b: PredicateKind)
    requires
        a != b,
    ensures
        a.spec_name() != b.spec_name(),
{
    lemma_name_keys();
    assert(name_key(a.spec_name()) != name_key(b.spec_name()));
}

/// The keys of the names of the predicates.
proof fn lemma_name_keys()
    ensures
        forall|a: PredicateKind, b: PredicateKind| a != b ==> name_key(#[trigger] a.spec_name()) != name_key(#[trigger] b.spec_name()),
{
    reveal_strlit("loopback");
    reveal_strlit("unspecified");
    reveal_strlit("link_local");
    reveal_strlit("unique_local");
    reveal_strlit("multicast");
    reveal_strlit("solicited_node");
    reveal_strlit("ipv4_mapped");
    reveal_strlit("ipv4_to_ipv6");
    reveal_strlit("extended_ipv4");
    reveal_strlit("ipv6_to_ipv4");
    reveal_strlit("documentation");
    reveal_strlit("documentation_2");
    reveal_strlit("benchmarking");
    reveal_strlit("teredo");
    reveal_strlit("ietf_protocol");
    reveal_strlit("port_control");
    reveal_strlit("turn");
    reveal_strlit("dns_sd");
    reveal_strlit("amt");
    reveal_strlit("segment_routing");
    reveal_strlit("discard_only");
    reveal_strlit("dummy_prefix");
    reveal_strlit("as112_v6");
    reveal_strlit("direct_as112");
    reveal_strlit("deprecated_orchid");
    reveal_strlit("orchid_v2");
    reveal_strlit("drone_remote_id");
    reveal_strlit("eui64");
    reveal_strlit("low_byte_host");
}

/// Each predicate is found under its own name.
pub proof fn lemma_lookup_own_name(k: PredicateKind)
    ensures
        spec_lookup_predicate(k.spec_name()) == Some(k),
{
    lemma_all_predicates_indexed(k);
    let idx = k.spec_index();
    assert forall|m: int| 0 <= m < idx implies #[trigger] spec_all_predicates()[m].spec_name() != k.spec_name() by {
        lemma_position_indexed(m);
        lemma_names_distinct(spec_all_predicates()[m], k);
    }
    lemma_lookup_from_skips(k.spec_name(), 0, idx);
}

/// A name that no predicate has is not found.
pub proof fn lemma_lookup_absent(name: Seq<char>)
    requires
        forall|k: PredicateKind| #[trigger] k.spec_name() != name,
    ensures
        spec_lookup_predicate(name) is None,
{
    assert forall|m: int| 0 <= m < NUM_PREDICATES implies #[trigger] spec_all_predicates()[m].spec_name() != name by {
        let k = spec_all_predicates()[m];
        assert(k.spec_name() != name);
    }
    lemma_lookup_from_skips(name, 0, NUM_PREDICATES as int);
}

} // verus!
