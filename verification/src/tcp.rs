//! Setting up the state of a new TCP socket.
use vstd::prelude::*;

verus! {

pub const EINVAL: i32 = -22;
pub const ENOMEM: i32 = -12;
pub const ENOSYS: i32 = -38;
/// The state a new socket starts in.
pub const TCP_ESTABLISHED: u8 = 0;
/// The initial retransmission timeout, in milliseconds.
pub const TCP_INIT_RTO: u32 = 1000;
/// The initial keepalive time, in seconds.
pub const TCP_KEEPALIVE_TIME: u32 = 7200;
/// The MSS assumed until the peer says otherwise.
pub const TCP_DEFAULT_MSS: u16 = 536;

/// A TCP socket's connection state, sequence numbers, timers and flags.
pub struct TcpSock {
    pub state: u8,
    pub snd_una: u32,
    pub snd_nxt: u32,
    pub rcv_nxt: u32,
    pub write_seq: u32,
    pub copied_seq: u32,
    pub rcv_wup: u32,
    pub rto: u32,
    pub ato: u32,
    pub retransmits: u32,
    pub backoff: u32,
    pub probes: u32,
    pub keepalive_time: u32,
    pub keepalive_probes: u32,
    pub keepalive_intvl: u32,
    pub pingpong: u32,
    pub timeout: u32,
    pub ts_recent: u32,
    pub ts_recent_stamp: u32,
    pub snd_wnd: u32,
    pub rcv_wnd: u32,
    pub snd_wl1: u32,
    pub snd_wnd_scaled: u32,
    pub rcv_wnd_scaled: u32,
    pub mss: u16,
    pub mss_clamped: u16,
    pub window_clamp: u16,
    pub num: u16,
    pub state_process: u8,
    pub retransmit_timer: u8,
    pub keepalive_timer: u8,
    pub persist_timer: u8,
    pub keepopen: u8,
    pub syn_retries: u8,
    pub keepalive: u8,
    pub timewait: u8,
    pub ack: u8,
    pub urg: u8,
    pub psh: u8,
    pub rst: u8,
    pub syn: u8,
    pub fin: u8,
}

/// TCP memory accounting limits.
pub struct TcpMem {
    pub mem_allocated: u32,
    pub mem_pressure: u32,
    pub mem_max: u32,
}

/// Set up a new socket: established state, all sequence numbers 0, the
/// initial retransmission timeout and no retransmissions yet, the default
/// keepalive time and MSS; everything else is left alone. Always 0.
pub fn tcp_sock_init(sock: &mut TcpSock) -> (r: i32)
    ensures
        r == 0,
        *final(sock) == (TcpSock {
            state: TCP_ESTABLISHED,
            snd_una: 0,
            snd_nxt: 0,
            rcv_nxt: 0,
            write_seq: 0,
            copied_seq: 0,
            rcv_wup: 0,
            rto: TCP_INIT_RTO,
            retransmits: 0,
            keepalive_time: TCP_KEEPALIVE_TIME,
            mss: TCP_DEFAULT_MSS,
            ..*old(sock)
        }),
{
    sock.state = TCP_ESTABLISHED;
    sock.snd_una = 0;
    sock.snd_nxt = 0;
    sock.rcv_nxt = 0;
    sock.write_seq = 0;
    sock.copied_seq = 0;
    sock.rcv_wup = 0;
    sock.rto = TCP_INIT_RTO;
    sock.retransmits = 0;
    sock.keepalive_time = TCP_KEEPALIVE_TIME;
    sock.mss = TCP_DEFAULT_MSS;
    0
}

} // verus!
