//! Virtual tunnel interfaces: IPsec-protected packets find their tunnel on
//! the way in and are counted and checked once decrypted; packets on the
//! way out are checked against the path MTU.
use vstd::prelude::*;
use crate::ip_tunnel::{ip_tunnel_lookup, ip_tunnel_net, lookup_result, tunnel_ref};

verus! {

pub const EINVAL: i32 = -22;
pub const ENOMEM: i32 = -12;
pub const ENOSYS: i32 = -38;
pub const EPERM: i32 = -1;
pub const NETDEV_TX_OK: i32 = 0;
pub const AF_INET: u8 = 2;
pub const AF_INET6: u8 = 10;
pub const XFRM_MODE_TUNNEL: u8 = 1;
pub const ETH_P_IP: u16 = 0x0800;
pub const ETH_P_IPV6: u16 = 0x86DD;
pub const IP_DF: u16 = 0x4000;
pub const IPV6_MIN_MTU: u32 = 1280;

/// The counters of a tunnel device.
pub struct vti_dev_stats {
    pub rx_packets: u64,
    pub rx_bytes: u64,
    pub rx_errors: u64,
    pub rx_dropped: u64,
    pub tx_errors: u64,
}

/// What receiving through a VTI did: its result and the tunnel the packet
/// was handed to, if any.
pub struct vti_input_result {
    pub ret: i32,
    pub tunnel: Option<tunnel_ref>,
    pub set_dev: bool,
}

/// The outcome of `vti_input` (see there).
pub open spec fn input_outcome(itn: ip_tunnel_net, ifindex: i32, saddr: u32, daddr: u32, policy_ok: bool, update_skb_dev: bool, xfrm_ret: i32) -> vti_input_result {
    match lookup_result(itn, ifindex, 0, saddr, daddr, 0) {
        None => vti_input_result { ret: (-EINVAL) as i32, tunnel: None, set_dev: false },
        Some(t) => if !policy_ok {
            vti_input_result { ret: 0, tunnel: None, set_dev: false }
        } else {
            vti_input_result { ret: xfrm_ret, tunnel: Some(t), set_dev: update_skb_dev }
        },
    }
}

/// Receive an IPsec packet from `saddr` to `daddr` arriving on `ifindex`:
/// without a tunnel for its addresses (and no key) the negated `EINVAL`;
/// a packet the policy refuses (`policy_ok`) is dropped (0); otherwise it
/// is handed to IPsec input for the tunnel, whose result (`xfrm_ret`) is
/// returned, with the packet's device becoming the tunnel's when asked.
pub fn vti_input(itn: &ip_tunnel_net, ifindex: i32, saddr: u32, daddr: u32, policy_ok: bool, update_skb_dev: bool, xfrm_ret: i32) -> (r: vti_input_result)
    requires
        itn.wf(),
    ensures
        r == input_outcome(*itn, ifindex, saddr, daddr, policy_ok, update_skb_dev, xfrm_ret),
{
    let tunnel = ip_tunnel_lookup(itn, ifindex, 0, saddr, daddr, 0);
    match tunnel {
        None => vti_input_result { ret: -EINVAL, tunnel: None, set_dev: false },
        Some(t) => {
            if !policy_ok {
                return vti_input_result { ret: 0, tunnel: None, set_dev: false };
            }
            vti_input_result { ret: xfrm_ret, tunnel: Some(t), set_dev: update_skb_dev }
        },
    }
}

/// `vti_input` for the protocol handlers, which leave the device alone.
pub fn vti_input_proto(itn: &ip_tunnel_net, ifindex: i32, saddr: u32, daddr: u32, policy_ok: bool, xfrm_ret: i32) -> (r: vti_input_result)
    requires
        itn.wf(),
    ensures
        r == input_outcome(*itn, ifindex, saddr, daddr, policy_ok, false, xfrm_ret),
{
    vti_input(itn, ifindex, saddr, daddr, policy_ok, false, xfrm_ret)
}

/// Receive a packet whose IPv4 header says `saddr` to `daddr` (see
/// `vti_input`).
pub fn vti_rcv(itn: &ip_tunnel_net, ifindex: i32, saddr: u32, daddr: u32, policy_ok: bool, update_skb_dev: bool, xfrm_ret: i32) -> (r: vti_input_result)
    requires
        itn.wf(),
    ensures
        r == input_outcome(*itn, ifindex, saddr, daddr, policy_ok, update_skb_dev, xfrm_ret),
{
    vti_input(itn, ifindex, saddr, daddr, policy_ok, update_skb_dev, xfrm_ret)
}

/// `vti_rcv` for the protocol handlers.
pub fn vti_rcv_proto(itn: &ip_tunnel_net, ifindex: i32, saddr: u32, daddr: u32, policy_ok: bool, xfrm_ret: i32) -> (r: vti_input_result)
    requires
        itn.wf(),
    ensures
        r == input_outcome(*itn, ifindex, saddr, daddr, policy_ok, false, xfrm_ret),
{
    vti_rcv(itn, ifindex, saddr, daddr, policy_ok, false, xfrm_ret)
}

/// The IPsec state a decrypted packet came through: its selector's family
/// (0 for any), the family of its inner mode, and whether an inner mode
/// exists for the packet's protocol when the selector is open.
pub struct xfrm_input_info {
    pub sel_family: u8,
    pub inner_family: u8,
    pub proto_mode_family: Option<u8>,
}

/// The packet after decryption, as the callback sees and changes it.
pub struct vti_rx_skb {
    pub len: u32,
    pub mark: u32,
    pub scrubbed: bool,
    pub on_tunnel_dev: bool,
}

/// The family the policy check runs in: the inner mode's, or, for an open
/// selector, the mode for the packet's protocol.
pub open spec fn check_family(x: xfrm_input_info) -> Option<u8> {
    if x.sel_family == 0 { x.proto_mode_family } else { Some(x.inner_family) }
}

/// After IPsec input for tunnel device `dev` (none: 1, nothing done): an
/// error counts a receive error and a drop (0); without an inner mode the
/// negated `EINVAL`; a policy check (`policy_ok`, run with the tunnel's
/// input key as mark, which is then restored) that fails gives the negated
/// `EPERM`; otherwise the packet is scrubbed, moved to the tunnel device
/// and counted (0).
pub fn vti_rcv_cb(dev: &mut Option<vti_dev_stats>, skb: &mut vti_rx_skb, err: i32, x: &xfrm_input_info, policy_ok: bool) -> (r: i32)
    requires
        *old(dev) matches Some(d) ==> d.rx_errors < u64::MAX && d.rx_dropped < u64::MAX && d.rx_packets < u64::MAX
            && d.rx_bytes + old(skb).len <= u64::MAX,
    ensures
        *old(dev) is None ==> r == 1 && *final(dev) == *old(dev) && *final(skb) == *old(skb),
        *old(dev) matches Some(d) ==> (*final(dev) matches Some(nd) && if err != 0 {
            &&& r == 0
            &&& nd == (vti_dev_stats { rx_errors: (d.rx_errors + 1) as u64, rx_dropped: (d.rx_dropped + 1) as u64, ..d })
            &&& *final(skb) == *old(skb)
        } else if check_family(*x) is None {
            r == -EINVAL && nd == d && *final(skb) == *old(skb)
        } else if !policy_ok {
            r == -EPERM && nd == d && *final(skb) == *old(skb)
        } else {
            &&& r == 0
            &&& nd == (vti_dev_stats { rx_packets: (d.rx_packets + 1) as u64, rx_bytes: (d.rx_bytes + old(skb).len) as u64, ..d })
            &&& *final(skb) == (vti_rx_skb { scrubbed: true, on_tunnel_dev: true, ..*old(skb) })
        }),
{
    match dev {
        None => 1,
        Some(d) => {
            if err != 0 {
                d.rx_errors = d.rx_errors + 1;
                d.rx_dropped = d.rx_dropped + 1;
                return 0;
            }
            let family = if x.sel_family == 0 {
                match x.proto_mode_family {
                    None => {
                        return -EINVAL;
                    },
                    Some(f) => f,
                }
            } else {
                x.inner_family
            };
            if !policy_ok {
                return -EPERM;
            }
            skb.scrubbed = true;
            skb.on_tunnel_dev = true;
            d.rx_packets = d.rx_packets + 1;
            d.rx_bytes = d.rx_bytes + skb.len as u64;
            0
        },
    }
}

/// An IPsec state: its mode and family, its destination and its source.
pub struct xfrm_state {
    pub mode: u8,
    pub family: u8,
    pub id_daddr: u32,
    pub props_saddr: u32,
}

/// Whether an IPsec state can carry a tunnel from `src` to `dst`: an IPv4
/// tunnel-mode state; without a fixed destination its source must be
/// `src`; otherwise its destination must be `dst` and its source `src`,
/// either of them unset.
pub open spec fn state_fits(x: xfrm_state, dst: u32, src: u32) -> bool {
    &&& x.mode == XFRM_MODE_TUNNEL
    &&& x.family == AF_INET
    &&& if dst == 0 {
        src == x.props_saddr
    } else {
        dst == x.id_daddr && (src == x.props_saddr || src == 0 || x.props_saddr == 0)
    }
}

pub fn vti_state_check(x: Option<&xfrm_state>, dst: u32, src: u32) -> (r: bool)
    ensures
        r == (x matches Some(s) && state_fits(*s, dst, src)),
{
    match x {
        None => false,
        Some(s) => {
            if s.mode != XFRM_MODE_TUNNEL || s.family != AF_INET {
                return false;
            }
            if dst == 0 {
                return src == s.props_saddr;
            }
            dst == s.id_daddr && (src == s.props_saddr || src == 0 || s.props_saddr == 0)
        },
    }
}

/// A packet about to leave through a VTI: its length, protocol and, for
/// IPv4, its fragment field.
pub struct vti_tx_skb {
    pub len: u32,
    pub protocol: u16,
    pub frag_off: u16,
}

/// What became of a packet sent through a VTI.
#[derive(Debug, PartialEq, Eq, Structural)]
pub enum VtiXmit {
    /// Handed to the route's output, with its result.
    Sent { err: i32 },
    /// Too big and not to be fragmented: the sender is told the MTU with
    /// an ICMP (type, code) or ICMPv6 (type, code) error; the packet is
    /// dropped as a transmit error.
    TooBig { v6: bool, kind: u8, code: u8, mtu: u32 },
    /// Dropped as a transmit error.
    Dropped,
}

/// Whether a packet over the MTU must be refused: all but IPv4 packets that
/// may be fragmented.
pub open spec fn refused(skb: vti_tx_skb, mtu: u32) -> bool {
    skb.len > mtu && !(skb.protocol == ETH_P_IP && skb.frag_off & IP_DF == 0)
}

/// What `vti_xmit` does with a packet (see there).
pub open spec fn xmit_outcome(skb: vti_tx_skb, mtu: u32, output_err: i32) -> VtiXmit {
    if refused(skb, mtu) {
        if skb.protocol == ETH_P_IP {
            VtiXmit::TooBig { v6: false, kind: 3, code: 4, mtu }
        } else {
            VtiXmit::TooBig { v6: true, kind: 4, code: 0, mtu: if mtu < IPV6_MIN_MTU { IPV6_MIN_MTU } else { mtu } }
        }
    } else {
        VtiXmit::Sent { err: output_err }
    }
}

/// Send a packet through a VTI over a route with MTU `mtu`. A packet over
/// the MTU updates the path MTU; an IPv4 packet that may be fragmented is
/// still sent; otherwise the sender is told (IPv4: destination unreachable,
/// fragmentation needed; IPv6: the MTU raised to at least 1280) and the
/// packet counts as a transmit error. Packets that fit go to the route's
/// output (`output_err`). Always `NETDEV_TX_OK`.
pub fn vti_xmit(dev: &mut vti_dev_stats, skb: &vti_tx_skb, mtu: u32, output_err: i32) -> (r: (i32, VtiXmit))
    requires
        old(dev).tx_errors < u64::MAX,
    ensures
        r.0 == NETDEV_TX_OK,
        r.1 == xmit_outcome(*skb, mtu, output_err),
        refused(*skb, mtu) ==> *final(dev) == (vti_dev_stats { tx_errors: (old(dev).tx_errors + 1) as u64, ..*old(dev) }),
        !refused(*skb, mtu) ==> *final(dev) == *old(dev),
{
    if skb.len > mtu {
        if skb.protocol == ETH_P_IP {
            if skb.frag_off & IP_DF == 0 {
                return (NETDEV_TX_OK, VtiXmit::Sent { err: output_err });
            }
            dev.tx_errors = dev.tx_errors + 1;
            return (NETDEV_TX_OK, VtiXmit::TooBig { v6: false, kind: 3, code: 4, mtu });
        } else {
            let m = if mtu < IPV6_MIN_MTU { IPV6_MIN_MTU } else { mtu };
            dev.tx_errors = dev.tx_errors + 1;
            return (NETDEV_TX_OK, VtiXmit::TooBig { v6: true, kind: 4, code: 0, mtu: m });
        }
    }
    (NETDEV_TX_OK, VtiXmit::Sent { err: output_err })
}

/// Send a packet through a VTI: a packet whose network header cannot be
/// read (`may_pull`) or that is neither IPv4 nor IPv6 is a transmit error;
/// otherwise it goes out (see `vti_xmit`), its flow's output interface
/// being the tunnel's output key, which is returned with the result.
pub fn vti_tunnel_xmit(dev: &mut vti_dev_stats, o_key: u32, skb: &vti_tx_skb, may_pull: bool, mtu: u32, output_err: i32) -> (r: (i32, VtiXmit, u32))
    requires
        old(dev).tx_errors < u64::MAX,
    ensures
        r.0 == NETDEV_TX_OK,
        (!may_pull || (skb.protocol != ETH_P_IP && skb.protocol != ETH_P_IPV6)) ==> r.1 == VtiXmit::Dropped
            && *final(dev) == (vti_dev_stats { tx_errors: (old(dev).tx_errors + 1) as u64, ..*old(dev) }),
        !(!may_pull || (skb.protocol != ETH_P_IP && skb.protocol != ETH_P_IPV6)) ==> {
            &&& r.2 == o_key
            &&& r.1 == xmit_outcome(*skb, mtu, output_err)
            &&& refused(*skb, mtu) ==> *final(dev) == (vti_dev_stats { tx_errors: (old(dev).tx_errors + 1) as u64, ..*old(dev) })
            &&& !refused(*skb, mtu) ==> *final(dev) == *old(dev)
        },
{
    if !may_pull || (skb.protocol != ETH_P_IP && skb.protocol != ETH_P_IPV6) {
        dev.tx_errors = dev.tx_errors + 1;
        return (NETDEV_TX_OK, VtiXmit::Dropped, 0);
    }
    let (ret, what) = vti_xmit(dev, skb, mtu, output_err);
    (ret, what, o_key)
}

} // verus!
