//! Probe settings and the echo requests a probe sends.

use vstd::prelude::*;
use crate::scan::{
    echo_request_v4, echo_request_v6, echo_layout, checksum_v4_of, checksum_v6_of,
    ECHO_REQUEST_V4, ECHO_REQUEST_V6, PROBE_IDENTIFIER, PAYLOAD_SIZE,
};

verus! {

/// The payload an ICMP probe sends: five zero bytes.
pub open spec fn probe_payload() -> Seq<u8> {
    seq![0u8, 0u8, 0u8, 0u8, 0u8]
}

/// The settings of an ICMP echo probe.
#[derive(Debug, Clone, Copy, PartialEq, Eq, Structural)]
pub struct IcmpProbe {
    pub timeout_ms: u64,
    pub identifier: u16,
    pub payload_size: usize,
}

impl IcmpProbe {
    pub const NAME_V4: &'static str = "ICMPv4";
    pub const DESCRIPTION_V4: &'static str = "ICMPv4 Echo Request probe for IPv4 hosts";
    pub const NAME_V6: &'static str = "ICMPv6";
    pub const DESCRIPTION_V6: &'static str = "ICMPv6 Echo Request probe for IPv6 hosts";

    /// The default settings: a 5000 ms timeout, the probe identifier and
    /// a 48-byte payload size.
    pub fn new() -> (r: Self)
        ensures
            r == (IcmpProbe { timeout_ms: 5000, identifier: PROBE_IDENTIFIER, payload_size: PAYLOAD_SIZE }),
    {
        IcmpProbe { timeout_ms: 5000, identifier: PROBE_IDENTIFIER, payload_size: PAYLOAD_SIZE }
    }

    /// The default settings with another timeout.
    pub fn with_timeout(timeout_ms: u64) -> (r: Self)
        ensures
            r == (IcmpProbe { timeout_ms, identifier: PROBE_IDENTIFIER, payload_size: PAYLOAD_SIZE }),
    {
        IcmpProbe { timeout_ms, ..Self::new() }
    }

    /// The given settings.
    pub fn with_settings(timeout_ms: u64, identifier: u16, payload_size: usize) -> (r: Self)
        ensures
            r == (IcmpProbe { timeout_ms, identifier, payload_size }),
    {
        IcmpProbe { timeout_ms, identifier, payload_size }
    }

    /// The ICMP (v4) echo request the probe sends: its identifier,
    /// sequence number 0 and five zero bytes of payload (the payload size
    /// setting is not used).
    pub fn update_v4(&self) -> (r: Vec<u8>)
        ensures
            r@ == echo_layout(
                ECHO_REQUEST_V4,
                checksum_v4_of(echo_layout(ECHO_REQUEST_V4, 0, self.identifier, 0, probe_payload())),
                self.identifier,
                0,
                probe_payload(),
            ),
    {
        let payload = five_zeros();
        echo_request_v4(ECHO_REQUEST_V4, self.identifier, 0, payload.as_slice())
    }

    /// The ICMPv6 echo request (type 128) the probe sends from `source` to
    /// `target`: its identifier, sequence number 0 and five zero bytes of
    /// payload.
    pub fn update_v6(&self, source: u128, target: u128) -> (r: Vec<u8>)
        ensures
            r@ == echo_layout(
                ECHO_REQUEST_V6,
                checksum_v6_of(echo_layout(ECHO_REQUEST_V6, 0, self.identifier, 0, probe_payload()), source, target),
                self.identifier,
                0,
                probe_payload(),
            ),
    {
        let payload = five_zeros();
        echo_request_v6(ECHO_REQUEST_V6, self.identifier, 0, payload.as_slice(), source, target)
    }
}

impl Default for IcmpProbe {
    fn default() -> (r: Self)
        ensures
            r == (IcmpProbe { timeout_ms: 5000, identifier: PROBE_IDENTIFIER, payload_size: PAYLOAD_SIZE }),
    {
        Self::new()
    }
}

fn five_zeros() -> (r: Vec<u8>)
    ensures
        r@ == probe_payload(),
{
    let mut r: Vec<u8> = Vec::new();
    r.push(0u8);
    r.push(0u8);
    r.push(0u8);
    r.push(0u8);
    r.push(0u8);
    assert(r@ =~= probe_payload());
    r
}

/// How a scan schedules its probes: at most `max_active_probes` in flight,
/// and a pause of `new_probe_delay_ms` between starting two probes.
#[derive(Debug, Clone, Copy, PartialEq, Eq, Structural)]
pub struct Scanner {
    pub max_active_probes: usize,
    pub new_probe_delay_ms: Option<u64>,
}

impl Default for Scanner {
    fn default() -> (r: Self)
        ensures
            r == (Scanner { max_active_probes: usize::MAX, new_probe_delay_ms: None }),
    {
        Scanner { max_active_probes: usize::MAX, new_probe_delay_ms: None }
    }
}

impl Scanner {
    /// The pause, if any, after starting a probe: only when another address
    /// is still to be probed.
    pub fn delay_after_probe(&self, more_addresses: bool) -> (r: Option<u64>)
        ensures
            r == if more_addresses {
                self.new_probe_delay_ms
            } else {
                None
            },
    {
        if more_addresses {
            self.new_probe_delay_ms
        } else {
            None
        }
    }
}

} // verus!
