//! IP-in-IP tunnels: handling ICMP errors about tunnelled packets,
//! receiving and sending through a tunnel, and checking tunnel parameters.
use vstd::prelude::*;
use crate::byteorder::{host_to_net16, swap16};

verus! {

pub const EINVAL: i32 = -22;
pub const ENOENT: i32 = -2;
pub const ENOMEM: i32 = -12;
pub const NETDEV_TX_OK: i32 = 0;
pub const IPPROTO_IPIP: u8 = 4;
pub const ARPHRD_TUNNEL: i32 = 776;
pub const IFF_NOARP: i32 = 0x8000;
pub const NETIF_F_LLTX: i32 = 0x20000000;
pub const IPIP_FEATURES: i32 = 0x0000000F;
pub const SIOCADDTUNNEL: i32 = 0x8940;
pub const SIOCCHGTUNNEL: i32 = 0x8941;
pub const IP_DF: u16 = 0x4000;
pub const ETH_P_IP: u16 = 0x0800;
/// Ticks per second, and the window in which ICMP errors about a tunnel are
/// counted together.
pub const HZ: u64 = 100;
pub const IPTUNNEL_ERR_TIMEO: u64 = 1000;
pub const ICMP_DEST_UNREACH: u8 = 3;
pub const ICMP_FRAG_NEEDED: u8 = 4;
pub const ICMP_REDIRECT: u8 = 5;
pub const ICMP_TIME_EXCEEDED: u8 = 11;

pub struct in_addr {
    pub s_addr: u32,
}

pub struct iphdr {
    pub version: u8,
    pub ihl: u8,
    pub tos: u8,
    pub tot_len: u16,
    pub id: u16,
    pub frag_off: u16,
    pub ttl: u8,
    pub protocol: u8,
    pub check: u16,
    pub saddr: in_addr,
    pub daddr: in_addr,
}

pub struct net_device_stats64 {
    pub rx_packets: u64,
    pub tx_packets: u64,
    pub rx_bytes: u64,
    pub tx_bytes: u64,
    pub rx_errors: u64,
    pub tx_errors: u64,
    pub tx_dropped: u64,
}

pub struct tnl_ptk_info {
    pub proto: u16,
}

/// Parameters of a tunnel: the outer header template, the underlying link,
/// keys and flags.
pub struct ip_tunnel_parm {
    pub iph: iphdr,
    pub link: i32,
    pub i_key: u32,
    pub o_key: u32,
    pub i_flags: u16,
    pub o_flags: u16,
}

/// A tunnel: its parameters, the ICMP errors seen recently and when the last
/// one came, and whether it takes its endpoints from packet metadata.
pub struct ip_tunnel {
    pub parms: ip_tunnel_parm,
    pub err_count: i32,
    pub err_time: u64,
    pub collect_md: bool,
}

/// What an ICMP error about a tunnelled packet leads to.
pub enum ErrAction {
    /// Nothing beyond the return value.
    Ignore,
    /// The path MTU of the tunnel's route is updated from `info`.
    UpdatePmtu { info: u32, link: i32, protocol: u8 },
    /// The tunnel's route follows the redirect.
    Redirect { link: i32, protocol: u8 },
    /// The error is counted against the tunnel.
    Counted,
}

/// Whether an ICMP error of this type and code is about the tunnel at all.
pub open spec fn err_relevant(kind: u8, code: u8) -> bool {
    kind == ICMP_DEST_UNREACH || (kind == ICMP_TIME_EXCEEDED && code == 0) || kind == ICMP_REDIRECT
}

/// Handle an ICMP error of type `kind` and `code` about a packet sent
/// through `t` (`None` when no tunnel matches the quoted header, giving
/// `ENOENT`). "Fragmentation needed" updates the path MTU and redirects are
/// followed; other errors are counted against a tunnel with a fixed remote
/// end, unless it is a TTL expiry on a tunnel inheriting the TTL; errors more
/// than `IPTUNNEL_ERR_TIMEO` ticks apart restart the count. `now` is the
/// current time in ticks.
pub fn ipip_err(t: &mut Option<ip_tunnel>, kind: u8, code: u8, info: u32, protocol: u8, now: u64) -> (r: (i32, ErrAction))
    requires
        *old(t) matches Some(tt) ==> tt.err_time + IPTUNNEL_ERR_TIMEO <= u64::MAX && tt.err_count < i32::MAX,
    ensures
        *old(t) is None ==> r == (ENOENT, ErrAction::Ignore),
        *old(t) matches Some(o) ==> *final(t) matches Some(n) && {
            if !err_relevant(kind, code) {
                r == (0i32, ErrAction::Ignore) && n == o
            } else if kind == ICMP_DEST_UNREACH && code == ICMP_FRAG_NEEDED {
                r == (0i32, ErrAction::UpdatePmtu { info, link: o.parms.link, protocol }) && n == o
            } else if kind == ICMP_REDIRECT {
                r == (0i32, ErrAction::Redirect { link: o.parms.link, protocol }) && n == o
            } else if o.parms.iph.daddr.s_addr == 0 {
                r == (ENOENT, ErrAction::Ignore) && n == o
            } else if o.parms.iph.ttl == 0 && kind == ICMP_TIME_EXCEEDED {
                r == (0i32, ErrAction::Ignore) && n == o
            } else {
                &&& r == (0i32, ErrAction::Counted)
                &&& n.err_count == (if now < o.err_time + IPTUNNEL_ERR_TIMEO { o.err_count + 1 } else { 1 })
                &&& n.err_time == now
                &&& n.parms == o.parms
                &&& n.collect_md == o.collect_md
            }
        },
{
    match t {
        None => (ENOENT, ErrAction::Ignore),
        Some(tun) => {
            if kind == ICMP_TIME_EXCEEDED && code != 0 {
                return (0, ErrAction::Ignore);
            }
            if kind != ICMP_DEST_UNREACH && kind != ICMP_TIME_EXCEEDED && kind != ICMP_REDIRECT {
                return (0, ErrAction::Ignore);
            }
            if kind == ICMP_DEST_UNREACH && code == ICMP_FRAG_NEEDED {
                return (0, ErrAction::UpdatePmtu { info, link: tun.parms.link, protocol });
            }
            if kind == ICMP_REDIRECT {
                return (0, ErrAction::Redirect { link: tun.parms.link, protocol });
            }
            if tun.parms.iph.daddr.s_addr == 0 {
                return (ENOENT, ErrAction::Ignore);
            }
            if tun.parms.iph.ttl == 0 && kind == ICMP_TIME_EXCEEDED {
                return (0, ErrAction::Ignore);
            }
            if now < tun.err_time + IPTUNNEL_ERR_TIMEO {
                tun.err_count = tun.err_count + 1;
            } else {
                tun.err_count = 1;
            }
            tun.err_time = now;
            (0, ErrAction::Counted)
        },
    }
}

/// What becomes of a packet arriving for an IP-in-IP tunnel.
pub enum RcvVerdict {
    /// No tunnel matches: the packet is left to others (-1).
    NotOurs,
    /// Dropped (0).
    Drop,
    /// Handed to the tunnel, with metadata taken from the packet or not.
    Deliver { with_md: bool },
}

/// Receive a packet carrying `ipproto` for tunnel `t`: the tunnel must carry
/// that protocol (or any), IPsec must allow the packet and the outer header
/// must come off (`pull_ok`); a metadata tunnel also needs the metadata
/// (`md_ok`), without which the packet is consumed.
pub fn ipip_tunnel_rcv(t: Option<&ip_tunnel>, ipproto: u8, policy_ok: bool, pull_ok: bool, md_ok: bool) -> (r: RcvVerdict)
    ensures
        t is None ==> r is NotOurs,
        t matches Some(tt) ==> {
            if (tt.parms.iph.protocol != ipproto && tt.parms.iph.protocol != 0) || !policy_ok || !pull_ok {
                r is Drop
            } else if tt.collect_md {
                if md_ok { r == RcvVerdict::Deliver { with_md: true } } else { r is Drop }
            } else {
                r == RcvVerdict::Deliver { with_md: false }
            }
        },
{
    match t {
        None => RcvVerdict::NotOurs,
        Some(tt) => {
            if tt.parms.iph.protocol != ipproto && tt.parms.iph.protocol != 0 {
                return RcvVerdict::Drop;
            }
            if !policy_ok || !pull_ok {
                return RcvVerdict::Drop;
            }
            if tt.collect_md {
                if !md_ok {
                    return RcvVerdict::Drop;
                }
                return RcvVerdict::Deliver { with_md: true };
            }
            RcvVerdict::Deliver { with_md: false }
        },
    }
}

/// Receive a packet of the IP-in-IP protocol: `ipip_tunnel_rcv` with
/// `IPPROTO_IPIP`.
pub fn ipip_rcv(t: Option<&ip_tunnel>, policy_ok: bool, pull_ok: bool, md_ok: bool) -> (r: RcvVerdict)
    ensures
        t is None ==> r is NotOurs,
        t matches Some(tt) ==> {
            if (tt.parms.iph.protocol != IPPROTO_IPIP && tt.parms.iph.protocol != 0) || !policy_ok || !pull_ok {
                r is Drop
            } else if tt.collect_md {
                if md_ok { r == RcvVerdict::Deliver { with_md: true } } else { r is Drop }
            } else {
                r == RcvVerdict::Deliver { with_md: false }
            }
        },
{
    ipip_tunnel_rcv(t, IPPROTO_IPIP, policy_ok, pull_ok, md_ok)
}

/// What becomes of a packet sent into the tunnel.
pub enum XmitVerdict {
    /// Dropped and counted as a transmit error.
    TxError,
    /// Encapsulated with inner protocol `ipproto`, with metadata or with the
    /// tunnel's template header.
    Xmit { ipproto: u8, with_md: bool },
}

/// Send a packet of link protocol `protocol` (`ETH_P_IP` is the only one
/// carried) through tunnel `t`, given whether its headers could be read and
/// the offloads set up. A transmit error bumps `tx_errors`. Always
/// `NETDEV_TX_OK`.
pub fn ipip_tunnel_xmit(t: &ip_tunnel, stats: &mut net_device_stats64, protocol: u16, may_pull: bool, offloads_ok: bool) -> (r: (i32, XmitVerdict))
    ensures
        r.0 == NETDEV_TX_OK,
        ({
            let ok = may_pull && protocol == ETH_P_IP
                && (t.parms.iph.protocol == IPPROTO_IPIP || t.parms.iph.protocol == 0) && offloads_ok;
            if ok {
                r.1 == XmitVerdict::Xmit { ipproto: IPPROTO_IPIP, with_md: t.collect_md } && *final(stats) == *old(stats)
            } else {
                r.1 is TxError && *final(stats) == (net_device_stats64 {
                    tx_errors: if old(stats).tx_errors < u64::MAX { (old(stats).tx_errors + 1) as u64 } else { 0 },
                    ..*old(stats)
                })
            }
        }),
{
    let ok = may_pull && protocol == ETH_P_IP
        && (t.parms.iph.protocol == IPPROTO_IPIP || t.parms.iph.protocol == 0) && offloads_ok;
    if !ok {
        stats.tx_errors = stats.tx_errors.wrapping_add(1);
        return (NETDEV_TX_OK, XmitVerdict::TxError);
    }
    (NETDEV_TX_OK, XmitVerdict::Xmit { ipproto: IPPROTO_IPIP, with_md: t.collect_md })
}

/// Tunnel parameters acceptable for adding or changing a tunnel: an IPv4
/// header of five words, no fragment-offset bits but DF (the field is in
/// network order), and the IP-in-IP protocol or any.
pub open spec fn parm_ok(p: ip_tunnel_parm) -> bool {
    p.iph.version == 4 && p.iph.ihl == 5 && p.iph.frag_off & swap16(!IP_DF) == 0
        && (p.iph.protocol == 0 || p.iph.protocol == IPPROTO_IPIP)
}

/// Handle a tunnel ioctl: adding or changing needs acceptable parameters
/// (else `EINVAL`); keys and key flags are cleared (IP-in-IP has none) and
/// the generic tunnel code's answer (`ctl_result`) is returned.
pub fn ipip_tunnel_ctl(p: &mut ip_tunnel_parm, cmd: i32, ctl_result: i32) -> (r: i32)
    ensures
        (cmd == SIOCADDTUNNEL || cmd == SIOCCHGTUNNEL) && !parm_ok(*old(p)) ==> r == EINVAL && *final(p) == *old(p),
        !((cmd == SIOCADDTUNNEL || cmd == SIOCCHGTUNNEL) && !parm_ok(*old(p))) ==> r == ctl_result
            && *final(p) == (ip_tunnel_parm { i_key: 0, o_key: 0, i_flags: 0, o_flags: 0, ..*old(p) }),
{
    if cmd == SIOCADDTUNNEL || cmd == SIOCCHGTUNNEL {
        let mask = host_to_net16(!IP_DF);
        if p.iph.version != 4 || p.iph.ihl != 5 || p.iph.frag_off & mask != 0 {
            return EINVAL;
        }
        if p.iph.protocol != 0 && p.iph.protocol != IPPROTO_IPIP {
            return EINVAL;
        }
    }
    p.i_key = 0;
    p.o_key = 0;
    p.i_flags = 0;
    p.o_flags = 0;
    ctl_result
}

/// The device fields an IP-in-IP device is set up with.
pub struct net_device {
    pub ifindex: i32,
    pub flags: i32,
    pub type_: i32,
    pub addr_len: i32,
    pub features: i32,
    pub hw_features: i32,
}

/// Set a device up as an IP-in-IP tunnel: tunnel type, no ARP, four-byte
/// addresses, lockless transmit and the IP-in-IP offload features.
pub fn ipip_tunnel_setup(dev: &mut net_device)
    ensures
        *final(dev) == (net_device {
            type_: ARPHRD_TUNNEL,
            flags: IFF_NOARP,
            addr_len: 4,
            features: old(dev).features | NETIF_F_LLTX | IPIP_FEATURES,
            hw_features: old(dev).hw_features | IPIP_FEATURES,
            ..*old(dev)
        }),
{
    dev.type_ = ARPHRD_TUNNEL;
    dev.flags = IFF_NOARP;
    dev.addr_len = 4;
    dev.features = dev.features | NETIF_F_LLTX;
    dev.features = dev.features | IPIP_FEATURES;
    dev.hw_features = dev.hw_features | IPIP_FEATURES;
}

} // verus!
