//! Connecting UDP and raw sockets: checking the address, choosing the
//! interface and source for the route lookup, and recording the peer once
//! a route is found.
use vstd::prelude::*;

verus! {

pub const EINVAL: i32 = -22;
pub const EAFNOSUPPORT: i32 = -97;
pub const ENETUNREACH: i32 = -101;
pub const EACCES: i32 = -13;
pub const AF_INET: i32 = 2;
pub const RTCF_BROADCAST: u32 = 0x1;
pub const TCP_ESTABLISHED: i32 = 1;
/// Size of `sockaddr_in`.
pub const SOCKADDR_IN_LEN: i32 = 16;

/// An IPv4 address, as a host-order number (first octet most significant).
pub struct in_addr {
    pub s_addr: u32,
}

pub struct sockaddr_in {
    pub sin_family: i32,
    pub sin_port: u16,
    pub sin_addr: in_addr,
}

/// The socket state a datagram connect reads and writes.
pub struct dgram_sock {
    pub sk_bound_dev_if: i32,
    pub sk_protocol: u8,
    pub sk_state: i32,
    pub sock_broadcast: bool,
    pub inet_saddr: u32,
    pub inet_rcv_saddr: u32,
    pub inet_daddr: u32,
    pub inet_dport: u16,
    pub inet_sport: u16,
    pub mc_index: i32,
    pub mc_addr: u32,
    pub inet_id: u32,
    pub has_dst: bool,
}

/// A flow to route: destination, source, output interface, protocol, ports.
pub struct flowi4 {
    pub daddr: u32,
    pub saddr: u32,
    pub oif: i32,
    pub protocol: u8,
    pub sport: u16,
    pub dport: u16,
}

/// What routing answered: an error, or the route's flags and the flow as
/// routing completed it.
pub enum route_reply {
    Unreachable(i32),
    Route { rt_flags: u32, fl4: flowi4 },
}

/// A multicast address: first octet 224 to 239.
pub open spec fn is_multicast(addr: u32) -> bool {
    addr / 0x1000_0000 == 0xE
}

pub fn ipv4_is_multicast(addr: u32) -> (r: bool)
    ensures
        r == is_multicast(addr),
{
    addr / 0x1000_0000 == 0xE
}

/// The socket after the connect's preparation: for a multicast peer, a
/// socket bound to an L3 master device is moved to the multicast interface
/// and an unset source becomes the multicast source address.
pub open spec fn prepared(sk: dgram_sock, usin: sockaddr_in, l3_master: bool) -> dgram_sock {
    let mc = is_multicast(usin.sin_addr.s_addr);
    dgram_sock {
        sk_bound_dev_if: if mc && sk.sk_bound_dev_if != 0 && l3_master { sk.mc_index } else { sk.sk_bound_dev_if },
        inet_saddr: if mc && sk.inet_saddr == 0 { sk.mc_addr } else { sk.inet_saddr },
        has_dst: false,
        ..sk
    }
}

/// The flow the connect asks routing for.
pub open spec fn connect_flow(sk: dgram_sock, usin: sockaddr_in, l3_master: bool) -> flowi4 {
    let p = prepared(sk, usin, l3_master);
    flowi4 {
        daddr: usin.sin_addr.s_addr,
        saddr: p.inet_saddr,
        oif: p.sk_bound_dev_if,
        protocol: p.sk_protocol,
        sport: p.inet_sport,
        dport: usin.sin_port,
    }
}

/// Whether the address can be connected to: its length covers a
/// `sockaddr_in` (else `EINVAL`) and its family is IPv4 (else
/// `EAFNOSUPPORT`).
pub open spec fn connect_addr_err(usin: sockaddr_in, addr_len: i32) -> i32 {
    if addr_len < SOCKADDR_IN_LEN { EINVAL } else if usin.sin_family != AF_INET { EAFNOSUPPORT } else { 0 }
}

/// Check the address and prepare the socket; on success, the flow to route
/// (see `prepared` and `connect_flow`). `l3_master` tells whether the
/// socket's bound interface is an L3 master device.
pub fn ip4_datagram_connect_flow(sk: &mut dgram_sock, usin: &sockaddr_in, addr_len: i32, l3_master: bool) -> (r: Result<flowi4, i32>)
    ensures
        connect_addr_err(*usin, addr_len) != 0 ==> r == Err::<flowi4, i32>(connect_addr_err(*usin, addr_len))
            && *final(sk) == *old(sk),
        connect_addr_err(*usin, addr_len) == 0 ==> r == Ok::<flowi4, i32>(connect_flow(*old(sk), *usin, l3_master))
            && *final(sk) == prepared(*old(sk), *usin, l3_master),
{
    if addr_len < SOCKADDR_IN_LEN {
        return Err(EINVAL);
    }
    if usin.sin_family != AF_INET {
        return Err(EAFNOSUPPORT);
    }
    sk.has_dst = false;
    let oif = sk.sk_bound_dev_if;
    let saddr = sk.inet_saddr;
    if ipv4_is_multicast(usin.sin_addr.s_addr) {
        if oif != 0 && l3_master {
            sk.sk_bound_dev_if = sk.mc_index;
        }
        if saddr == 0 {
            sk.inet_saddr = sk.mc_addr;
        }
    }
    Ok(flowi4 {
        daddr: usin.sin_addr.s_addr,
        saddr: sk.inet_saddr,
        oif: sk.sk_bound_dev_if,
        protocol: sk.sk_protocol,
        sport: sk.inet_sport,
        dport: usin.sin_port,
    })
}

/// The outcome of connecting once routing answered: the error, whether the
/// "no route" counter is bumped, and whether the protocol must rehash the
/// socket for its new local address.
pub struct connect_done {
    pub err: i32,
    pub no_route: bool,
    pub rehash: bool,
}

/// What connecting the prepared socket `sk` with routing's answer `reply`
/// gives: a routing error is returned as is (counted as "no route" when it
/// is `ENETUNREACH`); a broadcast route without `SO_BROADCAST` is refused
/// (`EACCES`); otherwise unset source addresses come from the route (the
/// protocol must rehash the socket when its bound address was unset), the
/// peer is recorded, the socket is established with the fresh IP
/// identifier `new_id`, and the route is kept. Nothing else changes.
pub open spec fn route_outcome(sk: dgram_sock, usin: sockaddr_in, reply: route_reply, new_id: u32) -> (connect_done, dgram_sock) {
    match reply {
        route_reply::Unreachable(e) => (connect_done { err: e, no_route: e == ENETUNREACH, rehash: false }, sk),
        route_reply::Route { rt_flags, fl4 } => if rt_flags & RTCF_BROADCAST != 0 && !sk.sock_broadcast {
            (connect_done { err: EACCES, no_route: false, rehash: false }, sk)
        } else {
            (connect_done { err: 0, no_route: false, rehash: sk.inet_rcv_saddr == 0 },
            dgram_sock {
                inet_saddr: if sk.inet_saddr == 0 { fl4.saddr } else { sk.inet_saddr },
                inet_rcv_saddr: if sk.inet_rcv_saddr == 0 { fl4.saddr } else { sk.inet_rcv_saddr },
                inet_daddr: fl4.daddr,
                inet_dport: usin.sin_port,
                sk_state: TCP_ESTABLISHED,
                inet_id: new_id,
                has_dst: true,
                ..sk
            })
        },
    }
}

/// Connect a prepared socket with routing's answer `reply` (see
/// `route_outcome`).
pub fn ip4_datagram_connect_route(sk: &mut dgram_sock, usin: &sockaddr_in, reply: &route_reply, new_id: u32) -> (r: connect_done)
    ensures
        (r, *final(sk)) == route_outcome(*old(sk), *usin, *reply, new_id),
{
    match reply {
        route_reply::Unreachable(e) => connect_done { err: *e, no_route: *e == ENETUNREACH, rehash: false },
        route_reply::Route { rt_flags, fl4 } => {
            if *rt_flags & RTCF_BROADCAST != 0 && !sk.sock_broadcast {
                return connect_done { err: EACCES, no_route: false, rehash: false };
            }
            if sk.inet_saddr == 0 {
                sk.inet_saddr = fl4.saddr;
            }
            let rehash = sk.inet_rcv_saddr == 0;
            if rehash {
                sk.inet_rcv_saddr = fl4.saddr;
            }
            sk.inet_daddr = fl4.daddr;
            sk.inet_dport = usin.sin_port;
            sk.sk_state = TCP_ESTABLISHED;
            sk.inet_id = new_id;
            sk.has_dst = true;
            connect_done { err: 0, no_route: false, rehash }
        },
    }
}

/// What connecting `old_sk` to `usin` leaves: `r` and the socket `new_sk`.
/// A bad address changes nothing; otherwise the socket is prepared (see
/// `prepared`) and then finished with routing's answer `reply` to the flow
/// `connect_flow` (see `route_outcome`).
pub open spec fn datagram_connected(old_sk: dgram_sock, usin: sockaddr_in, addr_len: i32, l3_master: bool, reply: route_reply, new_id: u32, r: connect_done, new_sk: dgram_sock) -> bool {
    if connect_addr_err(usin, addr_len) != 0 {
        r == (connect_done { err: connect_addr_err(usin, addr_len), no_route: false, rehash: false }) && new_sk == old_sk
    } else {
        (r, new_sk) == route_outcome(prepared(old_sk, usin, l3_master), usin, reply, new_id)
    }
}

/// Connect a datagram socket: check and prepare (see
/// `ip4_datagram_connect_flow`), then finish with routing's answer for the
/// flow that step produced (see `ip4_datagram_connect_route`).
pub fn __ip4_datagram_connect(sk: &mut dgram_sock, usin: &sockaddr_in, addr_len: i32, l3_master: bool, reply: &route_reply, new_id: u32) -> (r: connect_done)
    ensures
        datagram_connected(*old(sk), *usin, addr_len, l3_master, *reply, new_id, r, *final(sk)),
{
    match ip4_datagram_connect_flow(sk, usin, addr_len, l3_master) {
        Err(e) => connect_done { err: e, no_route: false, rehash: false },
        Ok(_flow) => ip4_datagram_connect_route(sk, usin, reply, new_id),
    }
}

/// Connect a datagram socket under its lock: the exclusive borrow of the
/// socket is the lock, and the outcome is that of `__ip4_datagram_connect`.
pub fn ip4_datagram_connect(sk: &mut dgram_sock, usin: &sockaddr_in, addr_len: i32, l3_master: bool, reply: &route_reply, new_id: u32) -> (r: connect_done)
    ensures
        datagram_connected(*old(sk), *usin, addr_len, l3_master, *reply, new_id, r, *final(sk)),
{
    __ip4_datagram_connect(sk, usin, addr_len, l3_master, reply, new_id)
}

/// After the socket lock is released: when the cached route is gone or
/// stale, the flow to route again (towards the first hop of a source route
/// if one is set); `None` when the cached route is still good.
pub fn ip4_datagram_release_cb(sk: &dgram_sock, dst_ok: bool, srr: bool, faddr: u32) -> (r: Option<flowi4>)
    ensures
        dst_ok ==> r is None,
        !dst_ok ==> r == Some(flowi4 {
            daddr: if srr { faddr } else { sk.inet_daddr },
            saddr: sk.inet_saddr,
            oif: sk.sk_bound_dev_if,
            protocol: sk.sk_protocol,
            sport: sk.inet_sport,
            dport: sk.inet_dport,
        }),
{
    if dst_ok {
        return None;
    }
    let daddr = if srr { faddr } else { sk.inet_daddr };
    Some(flowi4 {
        daddr,
        saddr: sk.inet_saddr,
        oif: sk.sk_bound_dev_if,
        protocol: sk.sk_protocol,
        sport: sk.inet_sport,
        dport: sk.inet_dport,
    })
}

} // verus!
