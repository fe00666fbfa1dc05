//! TCP receive-path bookkeeping: the acked-data callback, when header
//! options go to a BPF program, the receiver's MSS estimate, and quick-ACK
//! mode.
use vstd::prelude::*;

verus! {

pub const EINVAL: i32 = -22;
pub const ENOMEM: i32 = -12;
pub const ENOSYS: i32 = -38;

pub const TCP_REMNANT: u32 = 0x00F0;
pub const TCP_HP_BITS: u32 = 0xFF0F;

pub const REXMIT_NONE: u32 = 0;
pub const REXMIT_LOST: u32 = 1;
pub const REXMIT_NEW: u32 = 2;

pub const TCP_SYN_SENT: i32 = 2;
pub const TCP_SYN_RECV: i32 = 3;
pub const TCP_LISTEN: i32 = 10;

pub const BPF_SOCK_OPS_PARSE_HDR_OPT_CB: u32 = 13;
pub const BPF_SOCK_OPS_PARSE_ALL_HDR_OPT_CB_FLAG: u32 = 32;

pub const TCP_MSS_DEFAULT: u32 = 536;
pub const TCP_MIN_MSS: u32 = 88;
pub const TCP_HDR_LEN: u32 = 20;
pub const ICSK_ACK_PUSHED: u32 = 4;
pub const ICSK_ACK_PUSHED2: u32 = 8;
/// The minimal delayed-ACK timeout, a 25th of a second in 1 ms ticks.
pub const TCP_ATO_MIN: u32 = 40;

/// The delayed-ACK state of a connection.
pub struct icsk_ack {
    pub last_seg_size: u32,
    pub rcv_mss: u32,
    pub pending: u32,
    pub quick: u32,
    pub ato: u32,
    pub pingpong: u32,
}

/// The connection fields this path reads and writes; the acked-data
/// callback is held by its handler's identity.
pub struct inet_connection_sock {
    pub icsk_ack: icsk_ack,
    pub icsk_clean_acked: Option<u64>,
}

pub struct rx_opt {
    pub saw_unknown: u8,
}

pub struct tcp_sock {
    pub rx_opt: rx_opt,
    pub advmss: u32,
    pub tcp_header_len: u32,
    pub rcv_wnd: u32,
    pub bpf_sock_ops_cb_flags: u32,
}

pub struct net_namespace {
    pub id: u64,
}

pub struct backlog {
    pub len: u32,
}

pub struct tcp_prot {
    pub id: u64,
}

/// A TCP socket as this path sees it.
pub struct sock {
    pub sk_state: i32,
    pub sk_net: net_namespace,
    pub icsk: inet_connection_sock,
    pub tp: tcp_sock,
}

/// A received segment: its length, its GSO segment size (0 when not
/// aggregated), the length of its TCP header and its flag word.
pub struct sk_buff {
    pub skb_iif: u32,
    pub len: u32,
    pub gso_size: u32,
    pub th_len: u32,
    pub flag_word: u32,
}

/// What a BPF socket-ops program is run with.
pub struct bpf_sock_ops_kern {
    pub op: u32,
    pub is_fullsock: u8,
}

/// How many connections have an acked-data callback installed.
pub struct static_key {
    pub count: u64,
}

/// Install the acked-data callback `cad` and count it.
pub fn clean_acked_data_enable(icsk: &mut inet_connection_sock, cad: u64, key: &mut static_key)
    ensures
        final(icsk).icsk_clean_acked == Some(cad),
        final(icsk).icsk_ack == old(icsk).icsk_ack,
        final(key).count == old(key).count.wrapping_add(1),
{
    icsk.icsk_clean_acked = Some(cad);
    key.count = key.count.wrapping_add(1);
}

/// Remove the acked-data callback and uncount it.
pub fn clean_acked_data_disable(icsk: &mut inet_connection_sock, key: &mut static_key)
    ensures
        final(icsk).icsk_clean_acked is None,
        final(icsk).icsk_ack == old(icsk).icsk_ack,
        final(key).count == old(key).count.wrapping_sub(1),
{
    icsk.icsk_clean_acked = None;
    key.count = key.count.wrapping_sub(1);
}

/// The header options of a segment go to the socket's BPF program when
/// some option was unknown or the program asked for all of them, and the
/// connection is past its handshake and not listening.
pub open spec fn parses_hdr(sk: sock) -> bool {
    &&& (sk.tp.rx_opt.saw_unknown != 0 || sk.tp.bpf_sock_ops_cb_flags & BPF_SOCK_OPS_PARSE_ALL_HDR_OPT_CB_FLAG != 0)
    &&& sk.sk_state != TCP_SYN_RECV
    &&& sk.sk_state != TCP_SYN_SENT
    &&& sk.sk_state != TCP_LISTEN
}

/// Whether (and with what) the socket's BPF program runs on the segment's
/// header options.
pub fn bpf_skops_parse_hdr(sk: &sock) -> (r: Option<bpf_sock_ops_kern>)
    ensures
        parses_hdr(*sk) <==> r is Some,
        r matches Some(ops) ==> ops.op == BPF_SOCK_OPS_PARSE_HDR_OPT_CB && ops.is_fullsock == 1,
{
    let unknown_opt = sk.tp.rx_opt.saw_unknown != 0;
    let parse_all_opt = sk.tp.bpf_sock_ops_cb_flags & BPF_SOCK_OPS_PARSE_ALL_HDR_OPT_CB_FLAG != 0;
    if !unknown_opt && !parse_all_opt {
        return None;
    }
    let st = sk.sk_state;
    if st == TCP_SYN_RECV || st == TCP_SYN_SENT || st == TCP_LISTEN {
        return None;
    }
    Some(bpf_sock_ops_kern { op: BPF_SOCK_OPS_PARSE_HDR_OPT_CB, is_fullsock: 1 })
}

/// The segment's size as the MSS estimate sees it.
pub open spec fn seg_len(skb: sk_buff) -> u32 {
    if skb.gso_size != 0 { skb.gso_size } else { skb.len }
}

/// The segment counts as full-sized: with its header, at least the default
/// MSS, or at least the minimal one without urgent flags.
pub open spec fn full_sized(skb: sk_buff) -> bool {
    let full: int = seg_len(skb) + skb.th_len;
    full >= TCP_MSS_DEFAULT + TCP_HDR_LEN || (full >= TCP_MIN_MSS + TCP_HDR_LEN && skb.flag_word & TCP_REMNANT == 0)
}

/// The delayed-ACK state after a segment: a segment at least as large as
/// the estimate raises it (up to our advertised MSS); a smaller full-sized
/// one (by its length with the header, at least the default MSS, or the
/// minimal one without urgent flags) is remembered, and fixes the estimate
/// when two in a row have the same payload; otherwise the ACK is marked
/// pushed (twice when it already was).
pub open spec fn measured(a: icsk_ack, tp: tcp_sock, skb: sk_buff) -> icsk_ack {
    let len = seg_len(skb);
    if len >= a.rcv_mss {
        icsk_ack { rcv_mss: if len < tp.advmss { len } else { tp.advmss }, ..a }
    } else {
        let full: int = len + skb.th_len;
        let big = full_sized(skb);
        let payload: int = full - tp.tcp_header_len;
        if big && payload == a.last_seg_size {
            icsk_ack { last_seg_size: payload as u32, rcv_mss: payload as u32, ..a }
        } else {
            let a1 = if big { icsk_ack { last_seg_size: payload as u32, ..a } } else { a };
            let p = if a1.pending & ICSK_ACK_PUSHED != 0 { a1.pending | ICSK_ACK_PUSHED2 } else { a1.pending };
            icsk_ack { pending: p | ICSK_ACK_PUSHED, ..a1 }
        }
    }
}

/// Update the receiver's MSS estimate from a segment.
pub fn tcp_measure_rcv_mss(icsk: &mut inet_connection_sock, tp: &tcp_sock, skb: &sk_buff)
    requires
        seg_len(*skb) + skb.th_len <= u32::MAX,
        seg_len(*skb) < old(icsk).icsk_ack.rcv_mss && full_sized(*skb) ==> tp.tcp_header_len <= seg_len(*skb) + skb.th_len,
    ensures
        final(icsk).icsk_ack == measured(old(icsk).icsk_ack, *tp, *skb),
        final(icsk).icsk_clean_acked == old(icsk).icsk_clean_acked,
{
    let lss = icsk.icsk_ack.last_seg_size;
    let len: u32 = if skb.gso_size != 0 { skb.gso_size } else { skb.len };
    if len >= icsk.icsk_ack.rcv_mss {
        icsk.icsk_ack.rcv_mss = if len < tp.advmss { len } else { tp.advmss };
        return;
    }
    let full: u32 = len + skb.th_len;
    if full >= TCP_MSS_DEFAULT + TCP_HDR_LEN || (full >= TCP_MIN_MSS + TCP_HDR_LEN && skb.flag_word & TCP_REMNANT == 0) {
        let payload: u32 = full - tp.tcp_header_len;
        icsk.icsk_ack.last_seg_size = payload;
        if payload == lss {
            icsk.icsk_ack.rcv_mss = payload;
            return;
        }
    }
    if icsk.icsk_ack.pending & ICSK_ACK_PUSHED != 0 {
        icsk.icsk_ack.pending = icsk.icsk_ack.pending | ICSK_ACK_PUSHED2;
    }
    icsk.icsk_ack.pending = icsk.icsk_ack.pending | ICSK_ACK_PUSHED;
}

/// The quick ACKs to allow: half the receive window in segments (2 when
/// that is none), at most `max_quickacks`, never fewer than already allowed.
pub open spec fn quickacks(a: icsk_ack, rcv_wnd: u32, max_quickacks: u32) -> u32 {
    let q0: int = rcv_wnd as int / (2 * a.rcv_mss);
    let q1: int = if q0 == 0 { 2 } else { q0 };
    let q2: int = if q1 < max_quickacks { q1 } else { max_quickacks as int };
    if q2 > a.quick { q2 as u32 } else { a.quick }
}

/// Enter quick-ACK mode: allow quick ACKs, leave ping-pong mode, and use
/// the minimal delayed-ACK timeout.
pub fn tcp_enter_quickack_mode(icsk: &mut inet_connection_sock, tp: &tcp_sock, max_quickacks: u32)
    requires
        0 < old(icsk).icsk_ack.rcv_mss <= u32::MAX / 2,
    ensures
        final(icsk).icsk_ack == (icsk_ack {
            quick: quickacks(old(icsk).icsk_ack, tp.rcv_wnd, max_quickacks),
            pingpong: 0,
            ato: TCP_ATO_MIN,
            ..old(icsk).icsk_ack
        }),
        final(icsk).icsk_clean_acked == old(icsk).icsk_clean_acked,
{
    let mut q: u32 = tp.rcv_wnd / (2 * icsk.icsk_ack.rcv_mss);
    if q == 0 {
        q = 2;
    }
    if max_quickacks < q {
        q = max_quickacks;
    }
    if q > icsk.icsk_ack.quick {
        icsk.icsk_ack.quick = q;
    }
    icsk.icsk_ack.pingpong = 0;
    icsk.icsk_ack.ato = TCP_ATO_MIN;
}

} // verus!
