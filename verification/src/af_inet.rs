//! IPv4 sockets: creating one for a type and protocol, binding it to a port
//! on demand, making it listen, and tearing it down.
use vstd::prelude::*;
use crate::byteorder::{host_to_net16, swap16};

verus! {

pub const EINVAL: i32 = -22;
pub const ENOMEM: i32 = -12;
pub const ESOCKTNOSUPPORT: i32 = -94;
pub const EPROTONOSUPPORT: i32 = -93;
pub const EPERM: i32 = -1;
pub const ENOBUFS: i32 = -105;
pub const EAGAIN: i32 = -11;

pub const SOCK_STREAM: i32 = 1;
pub const SOCK_RAW: i32 = 3;
pub const IPPROTO_IP: i32 = 0;
pub const IPPROTO_RAW: i32 = 255;
pub const SS_UNCONNECTED: i32 = 1;
pub const TCP_CLOSE: i32 = 7;
pub const TCP_LISTEN: i32 = 10;
pub const INET_PROTOSW_REUSE: i32 = 0x1;
pub const INET_PROTOSW_PERMANENT: i32 = 0x2;
pub const INET_PROTOSW_ICSK: i32 = 0x4;
pub const SK_CAN_REUSE: i32 = 1;
pub const IP_PMTUDISC_DONT: i32 = 0;
pub const IP_PMTUDISC_WANT: i32 = 1;

/// Links of a list, as positions.
pub struct list_head {
    pub next: usize,
    pub prev: usize,
}

/// An entry of the table of protocols for a socket type.
pub struct inet_protosw {
    pub protocol: i32,
    pub ops: u64,
    pub prot: u64,
    pub flags: i32,
}

/// The IPv4 part of a socket, as `inet_create` leaves it.
pub struct inet_sock {
    pub is_icsk: bool,
    pub nodefrag: i32,
    pub inet_num: i32,
    pub inet_sport: u16,
    pub hdrincl: i32,
    pub pmtudisc: i32,
    pub inet_id: i32,
    pub uc_ttl: i32,
    pub mc_loop: i32,
    pub mc_ttl: i32,
    pub mc_all: i32,
    pub mc_index: i32,
    pub rcv_tos: i32,
    pub sk_reuse: i32,
    pub sk_protocol: i32,
    pub ops: u64,
    pub prot: u64,
}

// ---------------------------------------------------------------------------
// Creation
// ---------------------------------------------------------------------------

/// An entry answers a request for `protocol` when it has that protocol or
/// when any protocol is asked for.
pub open spec fn answers(e: inet_protosw, protocol: i32) -> bool {
    e.protocol == protocol || protocol == IPPROTO_IP
}

/// The next step of looking a protocol up: found at a position, or, after
/// `tries` module loads, another load (at most two) or failure.
pub enum LookupStep {
    Found(usize),
    LoadModule,
    Fail(i32),
}

/// Look `protocol` up in the protocol list for the socket's type. When it is
/// missing, the protocol's module is loaded and the lookup repeated, twice
/// at most; then the type is not supported (the negated `ESOCKTNOSUPPORT`).
pub fn inet_create_lookup(list: &Vec<inet_protosw>, protocol: i32, tries: u32) -> (r: LookupStep)
    ensures
        match r {
            LookupStep::Found(i) => i < list.len() && answers(list@[i as int], protocol)
                && forall|j: int| 0 <= j < i ==> !answers(#[trigger] list@[j], protocol),
            LookupStep::LoadModule => tries < 2 && forall|j: int| 0 <= j < list.len() ==> !answers(#[trigger] list@[j], protocol),
            LookupStep::Fail(e) => e == -ESOCKTNOSUPPORT && tries >= 2
                && forall|j: int| 0 <= j < list.len() ==> !answers(#[trigger] list@[j], protocol),
        },
{
    let mut i: usize = 0;
    while i < list.len()
        invariant
            i <= list.len(),
            forall|j: int| 0 <= j < i ==> !answers(#[trigger] list@[j], protocol),
        decreases list.len() - i,
    {
        if list[i].protocol == protocol || protocol == IPPROTO_IP {
            return LookupStep::Found(i);
        }
        i = i + 1;
    }
    if tries < 2 { LookupStep::LoadModule } else { LookupStep::Fail(-ESOCKTNOSUPPORT) }
}

/// The results of the steps of socket creation made outside this module:
/// the raw-socket capability check, the allocation, and the protocol's hash,
/// init and cgroup hooks (0 on success).
pub struct create_env {
    pub kern: bool,
    pub net_raw_capable: bool,
    pub alloc_ok: bool,
    pub no_pmtu_disc: bool,
    pub hash_err: i32,
    pub init_err: i32,
    pub bpf_err: i32,
}

/// The socket `inet_create` builds from the protocol entry `answer`.
pub open spec fn created_sock(answer: inet_protosw, sock_type: i32, protocol: i32, no_pmtu_disc: bool) -> inet_sock {
    let num = if sock_type == SOCK_RAW { protocol } else { 0 };
    inet_sock {
        is_icsk: answer.flags & INET_PROTOSW_ICSK != 0,
        nodefrag: 0,
        inet_num: num,
        inet_sport: if num != 0 { swap16(num as u16) } else { 0 },
        hdrincl: if sock_type == SOCK_RAW && protocol == IPPROTO_RAW { 1 } else { 0 },
        pmtudisc: if no_pmtu_disc { IP_PMTUDISC_DONT } else { IP_PMTUDISC_WANT },
        inet_id: 0,
        uc_ttl: -1i32,
        mc_loop: 1,
        mc_ttl: 1,
        mc_all: 1,
        mc_index: 0,
        rcv_tos: 0,
        sk_reuse: if answer.flags & INET_PROTOSW_REUSE != 0 { SK_CAN_REUSE } else { 0 },
        sk_protocol: protocol,
        ops: answer.ops,
        prot: answer.prot,
    }
}

/// Build an IPv4 socket of type `sock_type` for `protocol` from the protocol
/// entry found for it. Errors, returned as the negated constants: a raw
/// socket asked for by a user without the capability (`-EPERM`), an allocation failure or a failing hash or init
/// hook (`-ENOBUFS`), or the cgroup hook's error.
pub fn inet_create(answer: &inet_protosw, sock_type: i32, protocol: i32, env: &create_env) -> (r: Result<inet_sock, i32>)
    ensures
        ({
            let s = created_sock(*answer, sock_type, protocol, env.no_pmtu_disc);
            if sock_type == SOCK_RAW && !env.kern && !env.net_raw_capable {
                r == Err::<inet_sock, i32>((-EPERM) as i32)
            } else if !env.alloc_ok {
                r == Err::<inet_sock, i32>((-ENOBUFS) as i32)
            } else if s.inet_num != 0 && env.hash_err != 0 {
                r == Err::<inet_sock, i32>((-ENOBUFS) as i32)
            } else if env.init_err != 0 {
                r == Err::<inet_sock, i32>((-ENOBUFS) as i32)
            } else if !env.kern && env.bpf_err != 0 {
                r == Err::<inet_sock, i32>(env.bpf_err)
            } else {
                r == Ok::<inet_sock, i32>(s)
            }
        }),
{
    if sock_type == SOCK_RAW && !env.kern && !env.net_raw_capable {
        return Err(-EPERM);
    }
    if !env.alloc_ok {
        return Err(-ENOBUFS);
    }
    let num: i32 = if sock_type == SOCK_RAW { protocol } else { 0 };
    let hdrincl: i32 = if sock_type == SOCK_RAW && protocol == IPPROTO_RAW { 1 } else { 0 };
    let sport: u16 = if num != 0 { host_to_net16(num as u16) } else { 0 };
    let s = inet_sock {
        is_icsk: answer.flags & INET_PROTOSW_ICSK != 0,
        nodefrag: 0,
        inet_num: num,
        inet_sport: sport,
        hdrincl,
        pmtudisc: if env.no_pmtu_disc { IP_PMTUDISC_DONT } else { IP_PMTUDISC_WANT },
        inet_id: 0,
        uc_ttl: -1,
        mc_loop: 1,
        mc_ttl: 1,
        mc_all: 1,
        mc_index: 0,
        rcv_tos: 0,
        sk_reuse: if answer.flags & INET_PROTOSW_REUSE != 0 { SK_CAN_REUSE } else { 0 },
        sk_protocol: protocol,
        ops: answer.ops,
        prot: answer.prot,
    };
    if s.inet_num != 0 && env.hash_err != 0 {
        return Err(-ENOBUFS);
    }
    if env.init_err != 0 {
        return Err(-ENOBUFS);
    }
    if !env.kern && env.bpf_err != 0 {
        return Err(env.bpf_err);
    }
    Ok(s)
}

// ---------------------------------------------------------------------------
// Binding on demand and listening
// ---------------------------------------------------------------------------

/// Bind an unbound socket to a port chosen by its protocol (`get_port`
/// gives 0 and the port on success). A bound socket is left alone. Returns
/// 0, or `-EAGAIN` when no port can be had.
pub fn inet_autobind(inet: &mut inet_sock, get_port: (i32, u16)) -> (ret: i32)
    ensures
        old(inet).inet_num != 0 ==> ret == 0 && *final(inet) == *old(inet),
        old(inet).inet_num == 0 && get_port.0 != 0 ==> ret == EAGAIN && *final(inet) == *old(inet),
        old(inet).inet_num == 0 && get_port.0 == 0 ==> ret == 0
            && *final(inet) == (inet_sock { inet_num: get_port.1 as i32, inet_sport: swap16(get_port.1), ..*old(inet) }),
{
    if inet.inet_num == 0 {
        if get_port.0 != 0 {
            return EAGAIN;
        }
        inet.inet_num = get_port.1 as i32;
        inet.inet_sport = host_to_net16(get_port.1);
    }
    0
}

/// The outcome of a listen request: the error (0 on success), the new
/// accept backlog, and whether the listen callback runs.
pub struct ListenOutcome {
    pub err: i32,
    pub max_ack_backlog: i32,
    pub started: bool,
}

/// Make a stream socket listen with the given backlog. Only an unconnected
/// stream socket in the CLOSE or LISTEN state may; otherwise the result is
/// the negated `EINVAL`. A socket already listening only gets the new
/// backlog; one that is closed starts listening (`start_err` is what
/// starting gives).
pub fn inet_listen(sock_state: i32, sock_type: i32, sk_state: i32, max_ack_backlog: i32, backlog: i32, start_err: i32) -> (r: ListenOutcome)
    requires
        0 <= sk_state < 32,
    ensures
        ({
            if sock_state != SS_UNCONNECTED || sock_type != SOCK_STREAM || !(sk_state == TCP_CLOSE || sk_state == TCP_LISTEN) {
                r == (ListenOutcome { err: (-EINVAL) as i32, max_ack_backlog, started: false })
            } else if sk_state == TCP_LISTEN {
                r == (ListenOutcome { err: 0, max_ack_backlog: backlog, started: false })
            } else if start_err != 0 {
                r == (ListenOutcome { err: start_err, max_ack_backlog: backlog, started: false })
            } else {
                r == (ListenOutcome { err: 0, max_ack_backlog: backlog, started: true })
            }
        }),
{
    if sock_state != SS_UNCONNECTED || sock_type != SOCK_STREAM {
        return ListenOutcome { err: -EINVAL, max_ack_backlog, started: false };
    }
    let bit: u32 = 1u32 << (sk_state as u32);
    let allowed: u32 = (1u32 << 7u32) | (1u32 << 10u32);
    proof {
        let st = sk_state as u32;
        assert(((1u32 << st) & allowed != 0) == (st == 7 || st == 10)) by (bit_vector)
            requires st < 32, allowed == (1u32 << 7u32) | (1u32 << 10u32);
    }
    if bit & allowed == 0 {
        return ListenOutcome { err: -EINVAL, max_ack_backlog, started: false };
    }
    if sk_state != TCP_LISTEN {
        if start_err != 0 {
            return ListenOutcome { err: start_err, max_ack_backlog: backlog, started: false };
        }
        return ListenOutcome { err: 0, max_ack_backlog: backlog, started: true };
    }
    ListenOutcome { err: 0, max_ack_backlog: backlog, started: false }
}

// ---------------------------------------------------------------------------
// Destruction
// ---------------------------------------------------------------------------

/// The parts of a socket that destruction releases.
pub struct sock {
    pub sk_receive_queue: Vec<u64>,
    pub sk_rx_skb_cache: Option<u64>,
    pub sk_error_queue: Vec<u64>,
    pub sk_type: i32,
    pub sk_state: i32,
    pub dead: bool,
    pub inet_opt: Option<u64>,
    pub sk_dst_cache: Option<u64>,
    pub sk_rx_dst: Option<u64>,
}

/// How destruction ends.
pub enum DestructOutcome {
    /// A TCP socket not yet closed: reported, nothing more released.
    TcpNotClosed,
    /// A socket not marked dead: reported, nothing more released.
    StillAlive,
    /// Everything released.
    Released,
}

/// Release what a socket holds: its queues and cached buffer always; its
/// options and routes only when it is dead and, for TCP, closed.
pub fn inet_sock_destruct(sk: &mut sock) -> (r: DestructOutcome)
    ensures
        final(sk).sk_receive_queue@.len() == 0,
        final(sk).sk_error_queue@.len() == 0,
        final(sk).sk_rx_skb_cache is None,
        final(sk).sk_type == old(sk).sk_type,
        final(sk).sk_state == old(sk).sk_state,
        final(sk).dead == old(sk).dead,
        old(sk).sk_type == SOCK_STREAM && old(sk).sk_state != TCP_CLOSE ==> r is TcpNotClosed
            && final(sk).inet_opt == old(sk).inet_opt && final(sk).sk_dst_cache == old(sk).sk_dst_cache
            && final(sk).sk_rx_dst == old(sk).sk_rx_dst,
        !(old(sk).sk_type == SOCK_STREAM && old(sk).sk_state != TCP_CLOSE) && !old(sk).dead ==> r is StillAlive
            && final(sk).inet_opt == old(sk).inet_opt && final(sk).sk_dst_cache == old(sk).sk_dst_cache
            && final(sk).sk_rx_dst == old(sk).sk_rx_dst,
        !(old(sk).sk_type == SOCK_STREAM && old(sk).sk_state != TCP_CLOSE) && old(sk).dead ==> r is Released
            && final(sk).inet_opt is None && final(sk).sk_dst_cache is None && final(sk).sk_rx_dst is None,
{
    sk.sk_receive_queue = Vec::new();
    sk.sk_rx_skb_cache = None;
    sk.sk_error_queue = Vec::new();
    if sk.sk_type == SOCK_STREAM && sk.sk_state != TCP_CLOSE {
        return DestructOutcome::TcpNotClosed;
    }
    if !sk.dead {
        return DestructOutcome::StillAlive;
    }
    sk.inet_opt = None;
    sk.sk_dst_cache = None;
    sk.sk_rx_dst = None;
    DestructOutcome::Released
}

} // verus!
