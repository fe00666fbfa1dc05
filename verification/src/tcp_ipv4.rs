//! TCP over IPv4, connection set-up: reusing a TIME-WAIT socket's port
//! pair, the steps of an active open, and reacting to a smaller path MTU.
use vstd::prelude::*;

verus! {

pub const EINVAL: i32 = -22;
pub const ENOMEM: i32 = -12;
pub const ENETUNREACH: i32 = -101;
pub const EAFNOSUPPORT: i32 = -97;

pub const AF_INET: u16 = 2;
pub const LOOPBACK_IFINDEX: i32 = 1;
pub const TCP_CLOSE: i32 = 7;
/// The size of an IPv4 socket address.
pub const SOCKADDR_IN_LEN: i32 = 16;
pub const RTCF_MULTICAST: u32 = 1;
pub const RTCF_BROADCAST: u32 = 2;

pub struct ip_options {
    pub srr: u8,
    pub faddr: u32,
    pub optlen: u8,
}

pub struct ip_options_rcu {
    pub opt: ip_options,
}

/// The IPv4 part of a socket.
pub struct inet_sock {
    pub inet_sport: u16,
    pub inet_dport: u16,
    pub inet_saddr: u32,
    pub inet_daddr: u32,
    pub inet_opt: Option<ip_options_rcu>,
    pub inet_bound_dev_if: i32,
    pub inet_id: u32,
}

pub struct tcp_opt {
    pub ts_recent: u32,
    pub ts_recent_stamp: u32,
    pub mss_clamp: u16,
}

/// The TCP part of a socket.
pub struct tcp_sock {
    pub write_seq: u32,
    pub rx_opt: tcp_opt,
    pub repair: u8,
    pub tsoffset: u32,
    pub mtu_info: u32,
}

/// A socket as connecting sees it.
pub struct sock {
    pub sk_state: i32,
    pub sk_err_soft: i32,
    pub sk_route_caps: u64,
    pub inet: inet_sock,
    pub tp: tcp_sock,
}

pub struct inet_timewait_sock {
    pub tw_bound_dev_if: i32,
    pub tw_family: i32,
    pub tw_daddr: u32,
    pub tw_rcv_saddr: u32,
    pub tw_refcnt: u32,
}

pub struct tcp_timewait_sock {
    pub tw_ts_recent: u32,
    pub tw_ts_recent_stamp: u32,
    pub tw_snd_nxt: u32,
}

pub struct in_addr {
    pub s_addr: u32,
}

pub struct sockaddr_in {
    pub sin_family: u16,
    pub sin_port: u16,
    pub sin_addr: in_addr,
}

/// The addresses a route lookup chose.
pub struct flowi4 {
    pub daddr: u32,
    pub saddr: u32,
}

/// A route: its flags and the flow it was looked up for.
pub struct rtable {
    pub rt_flags: u32,
    pub fl4: flowi4,
}

/// The first sequence number after a TIME-WAIT socket's, far enough past
/// its last one; 0 is avoided.
pub open spec fn tw_write_seq(snd_nxt: u32) -> u32 {
    let s = snd_nxt.wrapping_add(65535).wrapping_add(2);
    if s == 0 { 1 } else { s }
}

/// A TIME-WAIT socket's port pair may be taken over: it saw timestamps,
/// and either the caller does not ask for a TIME-WAIT socket back, or
/// reuse is on (mode 2 only over loopback) and its last timestamp is from
/// before `now_secs`.
pub open spec fn tw_reusable(tw: inet_timewait_sock, tcptw: tcp_timewait_sock, reuse: i32, now_secs: u32, want_tw: bool) -> bool {
    let r = if reuse == 2 && tw.tw_bound_dev_if != LOOPBACK_IFINDEX { 0 } else { reuse };
    tcptw.tw_ts_recent_stamp != 0 && (!want_tw || (r != 0 && now_secs > tcptw.tw_ts_recent_stamp))
}

/// Decide whether the connecting socket may take over the TIME-WAIT
/// socket's port pair. When it may: unless in repair, the socket starts
/// its sequence past the old one and takes its timestamps; the TIME-WAIT
/// socket gains a reference; 1 is returned. Otherwise 0, nothing changes.
pub fn tcp_twsk_unique(tp: &mut tcp_sock, tw: &mut inet_timewait_sock, tcptw: &tcp_timewait_sock, reuse: i32, now_secs: u32, want_tw: bool) -> (r: i32)
    ensures
        tw_reusable(*old(tw), *tcptw, reuse, now_secs, want_tw) ==> {
            &&& r == 1
            &&& final(tw).tw_refcnt == old(tw).tw_refcnt.wrapping_add(1)
            &&& *final(tp) == if old(tp).repair == 0 {
                tcp_sock {
                    write_seq: tw_write_seq(tcptw.tw_snd_nxt),
                    rx_opt: tcp_opt { ts_recent: tcptw.tw_ts_recent, ts_recent_stamp: tcptw.tw_ts_recent_stamp, ..old(tp).rx_opt },
                    ..*old(tp)
                }
            } else {
                *old(tp)
            }
        },
        !tw_reusable(*old(tw), *tcptw, reuse, now_secs, want_tw) ==> r == 0 && *final(tp) == *old(tp) && final(tw).tw_refcnt == old(tw).tw_refcnt,
        final(tw).tw_bound_dev_if == old(tw).tw_bound_dev_if,
        final(tw).tw_family == old(tw).tw_family,
        final(tw).tw_daddr == old(tw).tw_daddr,
        final(tw).tw_rcv_saddr == old(tw).tw_rcv_saddr,
{
    let mut reuse = reuse;
    if reuse == 2 {
        let loopback = tw.tw_bound_dev_if == LOOPBACK_IFINDEX;
        if !loopback {
            reuse = 0;
        }
    }
    if tcptw.tw_ts_recent_stamp != 0 && (!want_tw || (reuse != 0 && now_secs > tcptw.tw_ts_recent_stamp)) {
        if tp.repair == 0 {
            let seq = tcptw.tw_snd_nxt.wrapping_add(65535).wrapping_add(2);
            if seq == 0 {
                tp.write_seq = 1;
            } else {
                tp.write_seq = seq;
            }
            tp.rx_opt.ts_recent = tcptw.tw_ts_recent;
            tp.rx_opt.ts_recent_stamp = tcptw.tw_ts_recent_stamp;
        }
        tw.tw_refcnt = tw.tw_refcnt.wrapping_add(1);
        return 1;
    }
    0
}

/// What the first route lookup of an active open is asked for: the first
/// hop (a source route's first hop when one is set, else the peer), the
/// socket's source address, its bound interface, and the source and
/// destination ports.
pub open spec fn route_request(sk: sock, usin: sockaddr_in) -> (u32, u32, i32, u16, u16) {
    let nexthop = match sk.inet.inet_opt {
        Some(o) => if o.opt.srr != 0 { o.opt.faddr } else { usin.sin_addr.s_addr },
        None => usin.sin_addr.s_addr,
    };
    (nexthop, sk.inet.inet_saddr, sk.inet.inet_bound_dev_if, sk.inet.inet_sport, usin.sin_port)
}

/// The request of the first route lookup (see `route_request`).
pub fn tcp_v4_connect_route_request(sk: &sock, usin: &sockaddr_in) -> (r: (u32, u32, i32, u16, u16))
    ensures
        r == route_request(*sk, *usin),
{
    let nexthop = match &sk.inet.inet_opt {
        Some(o) => if o.opt.srr != 0 { o.opt.faddr } else { usin.sin_addr.s_addr },
        None => usin.sin_addr.s_addr,
    };
    (nexthop, sk.inet.inet_saddr, sk.inet.inet_bound_dev_if, sk.inet.inet_sport, usin.sin_port)
}

/// What hashing the connection, the second route lookup and the derivation
/// of the initial sequence number and timestamp offset are asked for, once
/// the socket is addressed (`s1`, see `addressed`) and bound to `sport`:
/// its source and destination addresses and ports.
pub open spec fn flow_request(s1: sock, sport: u16) -> (u32, u32, u16, u16) {
    (s1.inet.inet_saddr, s1.inet.inet_daddr, sport, s1.inet.inet_dport)
}

/// What the outside steps of an active open gave: the route lookup for
/// `route_request`, the local port that hashing the connection bound (or
/// its error), the lookup with the final ports and the initial sequence
/// number and timestamp offset derived for `flow_request`, a fresh IP id,
/// whether fast open defers the connect (with its result), and sending the
/// SYN.
pub struct connect_steps {
    pub route: Result<rtable, i32>,
    pub hash: Result<u16, i32>,
    pub newports: Result<rtable, i32>,
    pub isn: u32,
    pub ts_off: u32,
    pub ip_id: u32,
    pub defer: Option<i32>,
    pub connect_err: i32,
}

/// The destination a connection goes to: the route's, unless a source
/// route option names the first hop.
pub open spec fn connect_daddr(sk: sock, usin: sockaddr_in, rt: rtable) -> u32 {
    match sk.inet.inet_opt {
        Some(o) => if o.opt.srr != 0 { usin.sin_addr.s_addr } else { rt.fl4.daddr },
        None => rt.fl4.daddr,
    }
}

/// The socket after the addresses are set: the source (when unbound) from
/// the route; timestamps (and, unless in repair, the sequence start)
/// forgotten when the peer changes; the destination address and port.
pub open spec fn addressed(sk: sock, usin: sockaddr_in, rt: rtable) -> sock {
    let daddr = connect_daddr(sk, usin, rt);
    let saddr = if sk.inet.inet_saddr == 0 { rt.fl4.saddr } else { sk.inet.inet_saddr };
    let forget = sk.tp.rx_opt.ts_recent_stamp != 0 && sk.inet.inet_daddr != daddr;
    let tp1 = if forget {
        tcp_sock {
            rx_opt: tcp_opt { ts_recent: 0, ts_recent_stamp: 0, ..sk.tp.rx_opt },
            write_seq: if sk.tp.repair == 0 { 0 } else { sk.tp.write_seq },
            ..sk.tp
        }
    } else {
        sk.tp
    };
    sock { inet: inet_sock { inet_saddr: saddr, inet_daddr: daddr, inet_dport: usin.sin_port, ..sk.inet }, tp: tp1, ..sk }
}

/// The socket once the ports are bound and, unless in repair, the
/// sequence start (when none) and timestamp offset chosen, and the IP id
/// set.
pub open spec fn numbered(sk: sock, sport: u16, st: connect_steps) -> sock {
    let tp1 = if sk.tp.repair == 0 {
        tcp_sock { write_seq: if sk.tp.write_seq == 0 { st.isn } else { sk.tp.write_seq }, tsoffset: st.ts_off, ..sk.tp }
    } else {
        sk.tp
    };
    sock { inet: inet_sock { inet_sport: sport, inet_id: st.ip_id, ..sk.inet }, tp: tp1, ..sk }
}

/// Open a connection to `usin` (given as `addr_len` bytes), with the
/// outside steps' results in `st`. Refused: a short address (EINVAL), a
/// family other than IPv4 (EAFNOSUPPORT), a failed lookup (its error), a
/// multicast or broadcast route (ENETUNREACH). Then the addresses are set,
/// the connection hashed and routed with its ports (their errors returned
/// as they come), numbered, and the SYN sent unless fast open defers it;
/// a failed send closes the socket, drops its route capabilities and
/// clears the destination port.
pub fn tcp_v4_connect(sk: &mut sock, usin: &sockaddr_in, addr_len: i32, st: &connect_steps) -> (r: i32)
    ensures
        addr_len < SOCKADDR_IN_LEN ==> r == EINVAL && *final(sk) == *old(sk),
        addr_len >= SOCKADDR_IN_LEN && usin.sin_family != AF_INET ==> r == EAFNOSUPPORT && *final(sk) == *old(sk),
        addr_len >= SOCKADDR_IN_LEN && usin.sin_family == AF_INET ==> match st.route {
            Err(e) => r == e && *final(sk) == *old(sk),
            Ok(rt) => if rt.rt_flags & (RTCF_MULTICAST | RTCF_BROADCAST) != 0 {
                r == ENETUNREACH && *final(sk) == *old(sk)
            } else {
                let s1 = addressed(*old(sk), *usin, rt);
                match st.hash {
                    Err(e) => r == e && *final(sk) == s1,
                    Ok(sport) => match st.newports {
                        Err(e) => r == e && *final(sk) == (sock { inet: inet_sock { inet_sport: sport, ..s1.inet }, ..s1 }),
                        Ok(_) => {
                            let s2 = numbered(s1, sport, *st);
                            match st.defer {
                                Some(e) => r == e && *final(sk) == s2,
                                None => if st.connect_err != 0 {
                                    r == st.connect_err && *final(sk) == (sock {
                                        sk_state: TCP_CLOSE,
                                        sk_route_caps: 0,
                                        inet: inet_sock { inet_dport: 0, ..s2.inet },
                                        ..s2
                                    })
                                } else {
                                    r == 0 && *final(sk) == s2
                                },
                            }
                        },
                    },
                }
            },
        },
{
    if addr_len < SOCKADDR_IN_LEN {
        return EINVAL;
    }
    if usin.sin_family != AF_INET {
        return EAFNOSUPPORT;
    }
    let rt = match &st.route {
        Err(e) => {
            return *e;
        },
        Ok(rt) => rt,
    };
    if rt.rt_flags & (RTCF_MULTICAST | RTCF_BROADCAST) != 0 {
        return ENETUNREACH;
    }
    let daddr = match &sk.inet.inet_opt {
        Some(o) => if o.opt.srr != 0 { usin.sin_addr.s_addr } else { rt.fl4.daddr },
        None => rt.fl4.daddr,
    };
    if sk.inet.inet_saddr == 0 {
        sk.inet.inet_saddr = rt.fl4.saddr;
    }
    if sk.tp.rx_opt.ts_recent_stamp != 0 && sk.inet.inet_daddr != daddr {
        sk.tp.rx_opt.ts_recent = 0;
        sk.tp.rx_opt.ts_recent_stamp = 0;
        if sk.tp.repair == 0 {
            sk.tp.write_seq = 0;
        }
    }
    sk.inet.inet_dport = usin.sin_port;
    sk.inet.inet_daddr = daddr;
    let sport = match &st.hash {
        Err(e) => {
            return *e;
        },
        Ok(p) => *p,
    };
    sk.inet.inet_sport = sport;
    match &st.newports {
        Err(e) => {
            return *e;
        },
        Ok(_) => {},
    }
    if sk.tp.repair == 0 {
        if sk.tp.write_seq == 0 {
            sk.tp.write_seq = st.isn;
        }
        sk.tp.tsoffset = st.ts_off;
    }
    sk.inet.inet_id = st.ip_id;
    match st.defer {
        Some(e) => {
            return e;
        },
        None => {},
    }
    if st.connect_err != 0 {
        sk.sk_state = TCP_CLOSE;
        sk.sk_route_caps = 0;
        sk.inet.inet_dport = 0;
        return st.connect_err;
    }
    0
}

/// React to a smaller path MTU (`mtu_info`) once the route has taken it:
/// with no route nothing happens; when the socket's MTU is below the
/// route's and fragmenting is forbidden, a soft error is recorded. The
/// route's MTU is returned.
pub fn tcp_v4_mtu_reduced(sk: &mut sock, dst_mtu: Option<u32>, dont_fragment: bool) -> (r: Option<u32>)
    ensures
        r == dst_mtu,
        *final(sk) == match dst_mtu {
            Some(m) => if old(sk).tp.mtu_info < m && dont_fragment { sock { sk_err_soft: ENETUNREACH, ..*old(sk) } } else { *old(sk) },
            None => *old(sk),
        },
{
    let mtu = sk.tp.mtu_info;
    match dst_mtu {
        None => None,
        Some(m) => {
            if mtu < m && dont_fragment {
                sk.sk_err_soft = ENETUNREACH;
            }
            Some(m)
        },
    }
}

} // verus!
