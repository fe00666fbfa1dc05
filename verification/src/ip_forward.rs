//! Forwarding of IPv4 packets: the checks a packet passes on its way from
//! one interface to another, and the ICMP errors it earns when it fails.
use vstd::prelude::*;
use crate::tcp_minisocks::{signed32, to_signed32};

verus! {

pub const NET_RX_DROP: i32 = 1;
pub const NET_RX_SUCCESS: i32 = 0;
pub const ICMP_DEST_UNREACH: u8 = 3;
pub const ICMP_FRAG_NEEDED: u8 = 4;
pub const ICMP_SR_FAILED: u8 = 5;
pub const ICMP_TIME_EXCEEDED: u8 = 11;
pub const ICMP_EXC_TTL: u8 = 0;
pub const PACKET_HOST: i32 = 0;
/// "Don't fragment" bit of the fragment-offset field.
pub const IP_DF: u16 = 0x4000;
pub const IPSKB_FORWARDED: i32 = 0x1;
pub const IPSKB_DOREDIRECT: i32 = 0x2;

/// The header fields forwarding reads.
pub struct iphdr {
    pub frag_off: u16,
    pub ttl: u8,
    pub tos: u8,
}

/// What the MTU check knows of a packet: its length, its header, the largest
/// fragment it arrived in, whether it may be fragmented regardless of DF,
/// whether it is a GSO packet and, if so, whether its segments fit the MTU.
pub struct mtu_probe {
    pub len: i32,
    pub iph: iphdr,
    pub frag_max_size: i32,
    pub ignore_df: bool,
    pub is_gso: bool,
    pub gso_fits: bool,
}

/// A packet is too big for a link of `mtu` bytes when it is longer than
/// that, carries DF, and either arrived in a larger fragment or may not be
/// fragmented and is not a GSO packet whose segments fit.
pub open spec fn spec_exceeds_mtu(p: mtu_probe, mtu: u32) -> bool {
    let m = signed32(mtu);
    if p.len <= m {
        false
    } else if p.iph.frag_off & IP_DF == 0 {
        false
    } else if p.frag_max_size > m {
        true
    } else if p.ignore_df {
        false
    } else {
        !(p.is_gso && p.gso_fits)
    }
}

/// Whether the packet must not go out on a link of `mtu` bytes (see
/// `spec_exceeds_mtu`).
pub fn ip_exceeds_mtu(p: &mtu_probe, mtu: u32) -> (r: bool)
    ensures
        r == spec_exceeds_mtu(*p, mtu),
{
    let m = to_signed32(mtu);
    if p.len <= m {
        return false;
    }
    if p.iph.frag_off & IP_DF == 0 {
        return false;
    }
    if p.frag_max_size > m {
        return true;
    }
    if p.ignore_df {
        return false;
    }
    if p.is_gso && p.gso_fits {
        return false;
    }
    true
}

/// The state of a packet offered for forwarding, with the verdicts of the
/// checks made outside this module (LRO, IPsec policy and route, the router
/// alert chain, room to rewrite the header).
pub struct fwd_packet {
    pub pkt_type: i32,
    pub has_sk: bool,
    pub lro: bool,
    pub xfrm_policy_ok: bool,
    pub router_alert: bool,
    pub ra_chain_took: bool,
    pub xfrm_route_ok: bool,
    pub is_strictroute: bool,
    pub rt_uses_gateway: bool,
    pub mtu: u32,
    pub probe: mtu_probe,
    pub cow_ok: bool,
    pub flags: i32,
    pub srr: bool,
    pub sec_path: bool,
    pub update_priority: bool,
}

/// What happens to a packet offered for forwarding.
pub enum FwdVerdict {
    /// Dropped silently.
    Drop,
    /// Taken by a router-alert listener.
    Delivered,
    /// Dropped after sending an ICMP error of this type, code and info.
    ErrorDrop { kind: u8, code: u8, info: u32 },
    /// Passed to the forward hook with its header rewritten: the new TTL, the
    /// control-block flags, whether a redirect is sent back to the sender
    /// and whether the packet's priority is set from its TOS.
    Forward { ttl: u8, flags: i32, send_redirect: bool, set_priority: bool },
}

/// The forwarding decision for a packet (see `ip_forward`).
pub open spec fn forward_verdict(p: fwd_packet) -> FwdVerdict {
    if p.pkt_type != PACKET_HOST || p.has_sk || p.lro || !p.xfrm_policy_ok {
        FwdVerdict::Drop
    } else if p.router_alert && p.ra_chain_took {
        FwdVerdict::Delivered
    } else if p.probe.iph.ttl <= 1 {
        FwdVerdict::ErrorDrop { kind: ICMP_TIME_EXCEEDED, code: ICMP_EXC_TTL, info: 0 }
    } else if !p.xfrm_route_ok {
        FwdVerdict::Drop
    } else if p.is_strictroute && p.rt_uses_gateway {
        FwdVerdict::ErrorDrop { kind: ICMP_DEST_UNREACH, code: ICMP_SR_FAILED, info: 0 }
    } else if spec_exceeds_mtu(p.probe, p.mtu) {
        FwdVerdict::ErrorDrop { kind: ICMP_DEST_UNREACH, code: ICMP_FRAG_NEEDED, info: p.mtu }
    } else if !p.cow_ok {
        FwdVerdict::Drop
    } else {
        let flags = p.flags | IPSKB_FORWARDED;
        FwdVerdict::Forward {
            ttl: (p.probe.iph.ttl - 1) as u8,
            flags,
            send_redirect: flags & IPSKB_DOREDIRECT != 0 && !p.srr && !p.sec_path,
            set_priority: p.update_priority,
        }
    }
}

/// Decide what becomes of a packet offered for forwarding: only packets
/// addressed to this host at link level, not owned by a local socket and
/// allowed by IPsec are considered; router-alert packets may be taken;
/// an expiring TTL, a strict source route through a gateway and a packet too
/// big for the outgoing link earn ICMP errors; otherwise the TTL is
/// decreased and the packet goes on, with a redirect to the sender when the
/// route asked for one.
pub fn ip_forward(p: &fwd_packet) -> (r: FwdVerdict)
    ensures
        r == forward_verdict(*p),
{
    if p.pkt_type != PACKET_HOST || p.has_sk || p.lro || !p.xfrm_policy_ok {
        return FwdVerdict::Drop;
    }
    if p.router_alert && p.ra_chain_took {
        return FwdVerdict::Delivered;
    }
    if p.probe.iph.ttl <= 1 {
        return FwdVerdict::ErrorDrop { kind: ICMP_TIME_EXCEEDED, code: ICMP_EXC_TTL, info: 0 };
    }
    if !p.xfrm_route_ok {
        return FwdVerdict::Drop;
    }
    if p.is_strictroute && p.rt_uses_gateway {
        return FwdVerdict::ErrorDrop { kind: ICMP_DEST_UNREACH, code: ICMP_SR_FAILED, info: 0 };
    }
    let flags = p.flags | IPSKB_FORWARDED;
    if ip_exceeds_mtu(&p.probe, p.mtu) {
        return FwdVerdict::ErrorDrop { kind: ICMP_DEST_UNREACH, code: ICMP_FRAG_NEEDED, info: p.mtu };
    }
    if !p.cow_ok {
        return FwdVerdict::Drop;
    }
    let ttl = p.probe.iph.ttl - 1;
    let send_redirect = flags & IPSKB_DOREDIRECT != 0 && !p.srr && !p.sec_path;
    FwdVerdict::Forward { ttl, flags, send_redirect, set_priority: p.update_priority }
}

/// Forwarding never lets a packet leave with a TTL of zero, and a forwarded
/// packet is always marked as forwarded.
pub proof fn forward_keeps_ttl_positive(p: fwd_packet)
    ensures
        forward_verdict(p) matches FwdVerdict::Forward { ttl, flags, .. } ==> ttl >= 1 && ttl == p.probe.iph.ttl - 1
            && flags & IPSKB_FORWARDED != 0,
{
    let f0 = p.flags;
    let flags = f0 | IPSKB_FORWARDED;
    assert(flags & IPSKB_FORWARDED != 0) by (bit_vector)
        requires flags == f0 | IPSKB_FORWARDED;
}

/// What the last forwarding step does: a packet already forwarded in
/// hardware (`l3_fwd_offloaded`) is consumed (0); otherwise its options are
/// rewritten when it has any, and it is sent (`output_result`).
pub fn ip_forward_finish(optlen: i32, l3_fwd_offloaded: bool, output_result: i32) -> (r: (i32, bool))
    ensures
        r == (if l3_fwd_offloaded { (0i32, false) } else { (output_result, optlen != 0) }),
{
    if l3_fwd_offloaded {
        return (0, false);
    }
    (output_result, optlen != 0)
}

} // verus!
