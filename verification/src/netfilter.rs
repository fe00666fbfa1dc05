//! Re-routing packets that netfilter changed: the flow to look up, and
//! what is done with the routes found.
use vstd::prelude::*;

verus! {

pub const EINVAL: i32 = -22;
pub const ENOMEM: i32 = -12;
pub const ENOSYS: i32 = -38;

/// The header fields re-routing reads.
pub struct iphdr {
    pub saddr: u32,
    pub daddr: u32,
    pub tos: u8,
}

/// A flow to route.
pub struct flowi4 {
    pub daddr: u32,
    pub saddr: u32,
    pub flowi4_tos: u8,
    pub flowi4_oif: u32,
    pub flowi4_mark: u32,
    pub flowi4_flags: u8,
}

/// `len` rounded up to an even number.
pub fn HH_DATA_ALIGN(len: u16) -> (r: u16)
    requires
        len < u16::MAX,
    ensures
        r == (if len % 2 == 0 { len as int } else { len + 1 }),
{
    let r = (len + 1) & !1u16;
    proof {
        assert(((len + 1) as u16) & !1u16 == (if len % 2 == 0 { len } else { (len + 1) as u16 })) by (bit_vector)
            requires len < 0xffffu16;
    }
    r
}

/// The routing part of a TOS byte.
pub fn RT_TOS(tos: u8) -> (r: u8)
    ensures
        r == tos & 0x1E,
{
    tos & 0x1E
}

/// What re-routing knows of the sending socket: the interface it is bound
/// to and its flow flags.
pub struct sock_info {
    pub sk_bound_dev_if: u32,
    pub flowi_flags: u8,
}

/// The flow to route a packet again after netfilter changed it: its
/// addresses and routing TOS, the socket's interface or else the L3 master
/// device of the current route's interface (`l3mdev_ifindex`), the packet's
/// mark, and the socket's flow flags.
pub open spec fn reroute_flow(iph: iphdr, sk: Option<sock_info>, l3mdev_ifindex: u32, mark: u32) -> flowi4 {
    flowi4 {
        daddr: iph.daddr,
        saddr: iph.saddr,
        flowi4_tos: iph.tos & 0x1E,
        flowi4_oif: match sk {
            Some(s) => if s.sk_bound_dev_if != 0 { s.sk_bound_dev_if } else { l3mdev_ifindex },
            None => l3mdev_ifindex,
        },
        flowi4_mark: mark,
        flowi4_flags: match sk {
            Some(s) => s.flowi_flags,
            None => 0,
        },
    }
}

/// The flow to route a packet again (see `reroute_flow`).
pub fn ip_route_me_harder_flow(iph: &iphdr, sk: Option<&sock_info>, l3mdev_ifindex: u32, mark: u32) -> (fl4: flowi4)
    ensures
        fl4 == reroute_flow(*iph, match sk { Some(s) => Some(*s), None => None }, l3mdev_ifindex, mark),
{
    let flags: u8 = match sk {
        Some(s) => s.flowi_flags,
        None => 0,
    };
    let mut oif: u32 = match sk {
        Some(s) => s.sk_bound_dev_if,
        None => 0,
    };
    if oif == 0 {
        oif = l3mdev_ifindex;
    }
    flowi4 {
        daddr: iph.daddr,
        saddr: iph.saddr,
        flowi4_tos: RT_TOS(iph.tos),
        flowi4_oif: oif,
        flowi4_mark: mark,
        flowi4_flags: flags,
    }
}

/// What a route lookup gave: an error, or a route whose own error field is
/// `error` (0 for a usable route) and whose device needs `hard_header_len`
/// bytes of link-layer header.
pub enum route_result {
    Failed(i32),
    Found { error: i32, hard_header_len: u16 },
}

/// The link-layer header length a route's device needs (0 for no route).
pub open spec fn hh_of(r: route_result) -> int {
    match r {
        route_result::Failed(_) => 0,
        route_result::Found { error: _, hard_header_len } => hard_header_len as int,
    }
}

/// The outcome of re-routing: the error (0 on success) and, when the packet
/// needs more headroom, how much is added.
pub struct reroute_done {
    pub err: i32,
    pub expand_by: Option<u16>,
}

/// Finish re-routing with the route found for the flow (`route`) and, when
/// the packet decodes as an IPsec flow (`decoded`), the route IPsec gives
/// for it (`xfrm`). The packet keeps the route; when the route's device needs
/// more link-layer header than the `headroom` the packet has, the head is
/// grown by the difference rounded up to even (`expand_ok` is whether that
/// worked; else `ENOMEM`).
pub fn ip_route_me_harder_finish(route: &route_result, decoded: bool, xfrm: &route_result, headroom: u16, expand_ok: bool) -> (r: reroute_done)
    requires
        hh_of(*route) - headroom < u16::MAX,
        hh_of(*xfrm) - headroom < u16::MAX,
    ensures
        ({
            match *route {
                route_result::Failed(e) => r == (reroute_done { err: e, expand_by: None }),
                route_result::Found { error, hard_header_len } => if error != 0 {
                    r == (reroute_done { err: error, expand_by: None })
                } else {
                    let final_route = if decoded { *xfrm } else { *route };
                    match final_route {
                        route_result::Failed(e) => r == (reroute_done { err: e, expand_by: None }),
                        route_result::Found { error: _, hard_header_len: hh } => if headroom < hh {
                            let d = hh - headroom;
                            let pad = if d % 2 == 0 { d } else { d + 1 };
                            r == (reroute_done { err: if expand_ok { 0i32 } else { ENOMEM }, expand_by: Some(pad as u16) })
                        } else {
                            r == (reroute_done { err: 0, expand_by: None })
                        },
                    }
                },
            }
        }),
{
    let hh_first: u16 = match route {
        route_result::Failed(e) => {
            return reroute_done { err: *e, expand_by: None };
        },
        route_result::Found { error, hard_header_len } => {
            if *error != 0 {
                return reroute_done { err: *error, expand_by: None };
            }
            *hard_header_len
        },
    };
    let hh_len: u16 = if decoded {
        match xfrm {
            route_result::Failed(e) => {
                return reroute_done { err: *e, expand_by: None };
            },
            route_result::Found { error: _, hard_header_len } => *hard_header_len,
        }
    } else {
        hh_first
    };
    if headroom < hh_len {
        let pad = HH_DATA_ALIGN(hh_len - headroom);
        if !expand_ok {
            return reroute_done { err: ENOMEM, expand_by: Some(pad) };
        }
        return reroute_done { err: 0, expand_by: Some(pad) };
    }
    reroute_done { err: 0, expand_by: None }
}

/// The route a packet carries after re-routing: unchanged (`None`) when
/// the lookup failed; otherwise the route found, replaced by the IPsec
/// route when the packet decodes as an IPsec flow, the route found is
/// usable, and IPsec gives one.
pub open spec fn rerouted_dst(route: route_result, decoded: bool, xfrm: route_result) -> Option<route_result> {
    match route {
        route_result::Failed(_) => None,
        route_result::Found { error, hard_header_len: _ } =>
            if error == 0 && decoded && xfrm is Found { Some(xfrm) } else { Some(route) },
    }
}

/// A packet after re-routing: the flow handed to the route lookup, the
/// outcome (see `ip_route_me_harder_finish`) and the route the packet now
/// carries (`None`: the one it had).
pub struct rerouted {
    pub fl4: flowi4,
    pub done: reroute_done,
    pub dst: Option<route_result>,
}

/// Route a packet again after netfilter changed it. The lookup is asked for
/// the flow of its header `iph`, the sending socket `sk`, the L3 master
/// device of its current route's interface and its `mark` (see
/// `reroute_flow`); `route` is the lookup's answer, and `decoded`, `xfrm`,
/// `headroom` and `expand_ok` are as for `ip_route_me_harder_finish`.
pub fn ip_route_me_harder(iph: &iphdr, sk: Option<&sock_info>, l3mdev_ifindex: u32, mark: u32,
    route: &route_result, decoded: bool, xfrm: &route_result, headroom: u16, expand_ok: bool) -> (r: rerouted)
    requires
        hh_of(*route) - headroom < u16::MAX,
        hh_of(*xfrm) - headroom < u16::MAX,
    ensures
        r.fl4 == reroute_flow(*iph, match sk { Some(s) => Some(*s), None => None }, l3mdev_ifindex, mark),
        r.dst == rerouted_dst(*route, decoded, *xfrm),
        ({
            match *route {
                route_result::Failed(e) => r.done == (reroute_done { err: e, expand_by: None }),
                route_result::Found { error, hard_header_len } => if error != 0 {
                    r.done == (reroute_done { err: error, expand_by: None })
                } else {
                    let final_route = if decoded { *xfrm } else { *route };
                    match final_route {
                        route_result::Failed(e) => r.done == (reroute_done { err: e, expand_by: None }),
                        route_result::Found { error: _, hard_header_len: hh } => if headroom < hh {
                            let d = hh - headroom;
                            let pad = if d % 2 == 0 { d } else { d + 1 };
                            r.done == (reroute_done { err: if expand_ok { 0i32 } else { ENOMEM }, expand_by: Some(pad as u16) })
                        } else {
                            r.done == (reroute_done { err: 0, expand_by: None })
                        },
                    }
                },
            }
        }),
{
    let fl4 = ip_route_me_harder_flow(iph, sk, l3mdev_ifindex, mark);
    let done = ip_route_me_harder_finish(route, decoded, xfrm, headroom, expand_ok);
    let dst: Option<route_result> = match route {
        route_result::Failed(_) => None,
        route_result::Found { error, hard_header_len } => {
            let first = route_result::Found { error: *error, hard_header_len: *hard_header_len };
            if *error == 0 && decoded {
                match xfrm {
                    route_result::Found { error: e2, hard_header_len: h2 } =>
                        Some(route_result::Found { error: *e2, hard_header_len: *h2 }),
                    route_result::Failed(_) => Some(first),
                }
            } else {
                Some(first)
            }
        },
    };
    rerouted { fl4, done, dst }
}

/// Route a flow for netfilter: the route's error, or 0 and the route.
pub fn nf_ip_route(route: &route_result) -> (r: i32)
    ensures
        r == (match *route {
            route_result::Failed(e) => e,
            route_result::Found { .. } => 0,
        }),
{
    match route {
        route_result::Failed(e) => *e,
        route_result::Found { .. } => 0,
    }
}

} // verus!
