//! TCP TIME-WAIT state processing: what a segment arriving for a closed
//! connection's TIME-WAIT (or FIN-WAIT-2) socket leads to, entering
//! TIME-WAIT, and rate-limiting the ACKs sent from it.
use vstd::prelude::*;

verus! {

/// The value of a 32-bit word read as a two's-complement signed integer.
pub open spec fn signed32(a: u32) -> int {
    if a < 0x8000_0000u32 { a as int } else { a as int - 0x1_0000_0000int }
}

/// A 32-bit word reinterpreted as a two's-complement signed integer.
pub fn to_signed32(x: u32) -> (r: i32)
    ensures
        r == signed32(x),
{
    if x < 0x8000_0000 {
        x as i32
    } else {
        ((x - 0x8000_0000) as i32) - 0x7fff_ffff - 1
    }
}

/// `a` is greater than `b` when both are read as signed 32-bit values.
pub fn after(a: u32, b: u32) -> (r: bool)
    ensures r == (signed32(a) > signed32(b)),
{
    let na = a >= 0x8000_0000u32;
    let nb = b >= 0x8000_0000u32;
    if na != nb { nb } else { a > b }
}

/// `a` is less than `b` when both are read as signed 32-bit values.
pub fn before(a: u32, b: u32) -> (r: bool)
    ensures r == (signed32(a) < signed32(b)),
{
    let na = a >= 0x8000_0000u32;
    let nb = b >= 0x8000_0000u32;
    if na != nb { na } else { a < b }
}

pub open spec fn spec_tcp_in_window(seq: u32, end_seq: u32, s_win: u32, e_win: u32) -> bool {
    ||| seq == s_win
    ||| (signed32(end_seq) > signed32(s_win) && signed32(seq) < signed32(e_win))
    ||| (seq == e_win && seq == end_seq)
}

/// Whether the segment `[seq, end_seq]` falls into the window `[s_win, e_win]`.
pub fn tcp_in_window(seq: u32, end_seq: u32, s_win: u32, e_win: u32) -> (r: bool)
    ensures r == spec_tcp_in_window(seq, end_seq, s_win, e_win),
{
    if seq == s_win {
        return true;
    }
    if after(end_seq, s_win) && before(seq, e_win) {
        return true;
    }
    seq == e_win && seq == end_seq
}

pub const TCP_TW_ACK: i32 = 1;
pub const TCP_TW_SYN: i32 = 2;
pub const TCP_TW_RST: i32 = 3;
pub const TCP_TW_SUCCESS: i32 = 4;
pub const TCP_TW_FIN_WAIT2: i32 = 5;
pub const TCP_TW_TIME_WAIT: i32 = 6;
pub const ENOMEM: i32 = -12;
pub const EINVAL: i32 = -22;

/// The substates a TIME-WAIT socket can be in.
pub const TCP_FIN_WAIT2: i32 = 5;
pub const TCP_TIME_WAIT: i32 = 6;
/// How long a TIME-WAIT socket lives, in milliseconds.
pub const TCP_TIMEWAIT_LEN: u32 = 60000;
/// Timestamps older than this many seconds are not trusted for PAWS.
pub const TCP_PAWS_24DAYS: u32 = 2073600;
/// A reset is accepted past PAWS when the last timestamp is this old.
pub const TCP_PAWS_MSL: u32 = 60;
pub const LINUX_MIB_TCPACKSKIPPEDFINWAIT2: i32 = 100;
pub const LINUX_MIB_TCPACKSKIPPEDTIMEWAIT: i32 = 200;

/// The TCP header fields TIME-WAIT processing reads.
pub struct tcphdr {
    pub doff: u16,
    pub rst: u8,
    pub syn: u8,
    pub ack: u8,
    pub fin: u8,
}

/// The timestamps parsed from a segment, and those last recorded.
pub struct tcp_options_received {
    pub saw_tstamp: u8,
    pub rcv_tsecr: u32,
    pub ts_recent: u32,
    pub ts_recent_stamp: u32,
    pub rcv_tsval: u32,
}

/// A TIME-WAIT socket: its substate, the sequence numbers and window it
/// keeps, the last timestamp seen (and when), our timestamp offset, and
/// when an out-of-window ACK was last sent.
pub struct tcp_timewait_sock {
    pub tw_substate: i32,
    pub tw_rcv_wscale: u8,
    pub tw_transparent: u8,
    pub tw_mark: u32,
    pub tw_priority: u32,
    pub tw_rcv_nxt: u32,
    pub tw_snd_nxt: u32,
    pub tw_rcv_wnd: u32,
    pub tw_ts_recent: u32,
    pub tw_ts_recent_stamp: u32,
    pub tw_ts_offset: u32,
    pub tw_last_oow_ack_time: u32,
    pub tw_tx_delay: u32,
}

/// `a` is before `b` on a 32-bit clock.
pub open spec fn time_before32(a: u32, b: u32) -> bool {
    signed32(a.wrapping_sub(b)) < 0
}

/// PAWS accepts the timestamp: it is not older than the last one, or the
/// last one is 24 days old, or there is none.
pub open spec fn paws_check(o: tcp_options_received, now_secs: u32) -> bool {
    signed32(o.ts_recent.wrapping_sub(o.rcv_tsval)) <= 0
        || !time_before32(now_secs, o.ts_recent_stamp.wrapping_add(TCP_PAWS_24DAYS))
        || o.ts_recent == 0
}

/// PAWS rejects the segment: the check fails, unless it is a reset and
/// the last timestamp is older than the maximal segment lifetime.
pub open spec fn paws_reject(o: tcp_options_received, rst: bool, now_secs: u32) -> bool {
    !paws_check(o, now_secs) && !(rst && !time_before32(now_secs, o.ts_recent_stamp.wrapping_add(TCP_PAWS_MSL)))
}

pub fn tcp_paws_reject(o: &tcp_options_received, rst: bool, now_secs: u32) -> (r: bool)
    ensures
        r == paws_reject(*o, rst, now_secs),
{
    let check = to_signed32(o.ts_recent.wrapping_sub(o.rcv_tsval)) <= 0
        || !(to_signed32(now_secs.wrapping_sub(o.ts_recent_stamp.wrapping_add(TCP_PAWS_24DAYS))) < 0)
        || o.ts_recent == 0;
    if check {
        return false;
    }
    if rst && !(to_signed32(now_secs.wrapping_sub(o.ts_recent_stamp.wrapping_add(TCP_PAWS_MSL))) < 0) {
        return false;
    }
    true
}

/// What to do with the TIME-WAIT socket besides the answer: restart its
/// timer, drop the caller's reference, kill it (unhash and drop), count a
/// PAWS rejection, and the initial sequence number for a new connection
/// that a SYN may open.
pub struct tw_verdict {
    pub code: i32,
    pub reschedule: bool,
    pub put: bool,
    pub kill: bool,
    pub paws_rejected: bool,
    pub isn: Option<u32>,
}

/// The out-of-window ACK limit: a segment carrying data (and no SYN) is
/// never limited; otherwise one is limited when the last such ACK was
/// sent less than `ratelimit` ticks ago; when not limited, now is noted.
pub open spec fn oow_limited(last: u32, seq: u32, end_seq: u32, syn: bool, now: u32, ratelimit: i32) -> (bool, u32) {
    if seq != end_seq && !syn {
        (false, last)
    } else {
        let elapsed = signed32(now.wrapping_sub(last));
        if last != 0 && 0 <= elapsed && elapsed < ratelimit {
            (true, last)
        } else {
            (false, now)
        }
    }
}

/// Answer an out-of-window segment: an ACK unless rate-limited, in which
/// case the socket reference is dropped and nothing is sent.
pub fn tcp_timewait_check_oow_rate_limit(tw: &mut tcp_timewait_sock, seq: u32, end_seq: u32, syn: bool, now: u32, ratelimit: i32) -> (r: (i32, bool))
    ensures
        ({
            let (limited, last) = oow_limited(old(tw).tw_last_oow_ack_time, seq, end_seq, syn, now, ratelimit);
            &&& r == (if limited { (TCP_TW_SUCCESS, true) } else { (TCP_TW_ACK, false) })
            &&& *final(tw) == (tcp_timewait_sock { tw_last_oow_ack_time: last, ..*old(tw) })
        }),
{
    if seq != end_seq && !syn {
        return (TCP_TW_ACK, false);
    }
    let last = tw.tw_last_oow_ack_time;
    let elapsed = to_signed32(now.wrapping_sub(last));
    if last != 0 && 0 <= elapsed && elapsed < ratelimit {
        return (TCP_TW_SUCCESS, true);
    }
    tw.tw_last_oow_ack_time = now;
    (TCP_TW_ACK, false)
}

/// The environment of a segment's arrival: the time in seconds and in
/// ticks, whether RFC 1337 protection is on, and the ACK rate limit.
pub struct tw_env {
    pub now_secs: u32,
    pub now_ticks: u32,
    pub rfc1337: bool,
    pub ratelimit: i32,
}

/// The timestamp options that count: parsed only when the header has
/// options and timestamps were seen on the connection; the echo is
/// corrected by our offset, and the last recorded ones come from the
/// socket.
pub open spec fn effective_opts(tw: tcp_timewait_sock, th: tcphdr, parsed: tcp_options_received) -> tcp_options_received {
    if th.doff > 5 && tw.tw_ts_recent_stamp != 0 && parsed.saw_tstamp != 0 {
        tcp_options_received {
            rcv_tsecr: if parsed.rcv_tsecr != 0 { parsed.rcv_tsecr.wrapping_sub(tw.tw_ts_offset) } else { 0 },
            ts_recent: tw.tw_ts_recent,
            ts_recent_stamp: tw.tw_ts_recent_stamp,
            ..parsed
        }
    } else {
        tcp_options_received { saw_tstamp: 0, ..parsed }
    }
}

/// The verdict on a segment `seq..end_seq` with header `th` arriving at a
/// TIME-WAIT socket, and the socket after it.
///
/// In FIN-WAIT-2: a segment out of the window (or rejected by PAWS) gets
/// a rate-limited ACK; a reset kills the socket; a SYN at or past the
/// expected sequence is answered by a reset; a duplicate ACK is dropped;
/// new data or anything but the expected FIN is answered by a reset; the
/// FIN moves the socket to TIME-WAIT, restarts its timer and is ACKed.
///
/// In TIME-WAIT: the expected empty segment or reset (not rejected by
/// PAWS) restarts the timer (a reset kills the socket unless RFC 1337
/// protection is on) and refreshes the timestamp; a fresh SYN may open a
/// new connection with a sequence past the old one; anything else
/// without a reset gets a rate-limited ACK (restarting the timer if
/// rejected by PAWS or an ACK); a reset is dropped.
pub open spec fn tw_process(tw: tcp_timewait_sock, th: tcphdr, seq: u32, end_seq: u32, parsed: tcp_options_received, env: tw_env) -> (tw_verdict, tcp_timewait_sock) {
    let o = effective_opts(tw, th, parsed);
    let paws = o.saw_tstamp != 0 && paws_reject(o, th.rst != 0, env.now_secs);
    let none = tw_verdict { code: TCP_TW_SUCCESS, reschedule: false, put: false, kill: false, paws_rejected: false, isn: None };
    if tw.tw_substate == TCP_FIN_WAIT2 {
        if paws || !spec_tcp_in_window(seq, end_seq, tw.tw_rcv_nxt, tw.tw_rcv_nxt.wrapping_add(tw.tw_rcv_wnd)) {
            let (limited, last) = oow_limited(tw.tw_last_oow_ack_time, seq, end_seq, th.syn != 0, env.now_ticks, env.ratelimit);
            (tw_verdict { code: if limited { TCP_TW_SUCCESS } else { TCP_TW_ACK }, put: limited, ..none }, tcp_timewait_sock { tw_last_oow_ack_time: last, ..tw })
        } else if th.rst != 0 {
            (tw_verdict { kill: true, ..none }, tw)
        } else if th.syn != 0 && !(signed32(seq) < signed32(tw.tw_rcv_nxt)) {
            (tw_verdict { code: TCP_TW_RST, ..none }, tw)
        } else if th.ack == 0 || !(signed32(end_seq) > signed32(tw.tw_rcv_nxt)) || end_seq == seq {
            (tw_verdict { put: true, ..none }, tw)
        } else if th.fin == 0 || end_seq != tw.tw_rcv_nxt.wrapping_add(1) {
            (tw_verdict { code: TCP_TW_RST, ..none }, tw)
        } else {
            (tw_verdict { code: TCP_TW_ACK, reschedule: true, ..none }, tcp_timewait_sock {
                tw_substate: TCP_TIME_WAIT,
                tw_rcv_nxt: end_seq,
                tw_ts_recent_stamp: if o.saw_tstamp != 0 { env.now_secs } else { tw.tw_ts_recent_stamp },
                tw_ts_recent: if o.saw_tstamp != 0 { o.rcv_tsval } else { tw.tw_ts_recent },
                ..tw
            })
        }
    } else if !paws && seq == tw.tw_rcv_nxt && (seq == end_seq || th.rst != 0) {
        if th.rst != 0 && !env.rfc1337 {
            (tw_verdict { kill: true, ..none }, tw)
        } else {
            (tw_verdict { put: true, reschedule: th.rst == 0, ..none }, tcp_timewait_sock {
                tw_ts_recent: if o.saw_tstamp != 0 { o.rcv_tsval } else { tw.tw_ts_recent },
                tw_ts_recent_stamp: if o.saw_tstamp != 0 { env.now_secs } else { tw.tw_ts_recent_stamp },
                ..tw
            })
        }
    } else if th.syn != 0 && th.rst == 0 && th.ack == 0 && !paws
        && (signed32(seq) > signed32(tw.tw_rcv_nxt) || (o.saw_tstamp != 0 && signed32(tw.tw_ts_recent.wrapping_sub(o.rcv_tsval)) < 0)) {
        let isn = tw.tw_snd_nxt.wrapping_add(65535).wrapping_add(2);
        (tw_verdict { code: TCP_TW_SYN, isn: Some(if isn == 0 { 1 } else { isn }), ..none }, tw)
    } else if th.rst == 0 {
        let (limited, last) = oow_limited(tw.tw_last_oow_ack_time, seq, end_seq, th.syn != 0, env.now_ticks, env.ratelimit);
        (tw_verdict {
            code: if limited { TCP_TW_SUCCESS } else { TCP_TW_ACK },
            put: limited,
            reschedule: paws || th.ack != 0,
            paws_rejected: paws,
            ..none
        }, tcp_timewait_sock { tw_last_oow_ack_time: last, ..tw })
    } else {
        (tw_verdict { put: true, paws_rejected: paws, ..none }, tw)
    }
}

pub fn tcp_timewait_state_process(tw: &mut tcp_timewait_sock, th: &tcphdr, seq: u32, end_seq: u32, parsed: &tcp_options_received, env: &tw_env) -> (r: tw_verdict)
    ensures
        (r, *final(tw)) == tw_process(*old(tw), *th, seq, end_seq, *parsed, *env),
{
    let mut o = tcp_options_received {
        saw_tstamp: 0,
        rcv_tsecr: parsed.rcv_tsecr,
        ts_recent: parsed.ts_recent,
        ts_recent_stamp: parsed.ts_recent_stamp,
        rcv_tsval: parsed.rcv_tsval,
    };
    let mut paws = false;
    if th.doff > 5 && tw.tw_ts_recent_stamp != 0 {
        if parsed.saw_tstamp != 0 {
            o.saw_tstamp = parsed.saw_tstamp;
            if o.rcv_tsecr != 0 {
                o.rcv_tsecr = o.rcv_tsecr.wrapping_sub(tw.tw_ts_offset);
            }
            o.ts_recent = tw.tw_ts_recent;
            o.ts_recent_stamp = tw.tw_ts_recent_stamp;
            paws = tcp_paws_reject(&o, th.rst != 0, env.now_secs);
        }
    }
    let mut v = tw_verdict { code: TCP_TW_SUCCESS, reschedule: false, put: false, kill: false, paws_rejected: false, isn: None };
    if tw.tw_substate == TCP_FIN_WAIT2 {
        if paws || !tcp_in_window(seq, end_seq, tw.tw_rcv_nxt, tw.tw_rcv_nxt.wrapping_add(tw.tw_rcv_wnd)) {
            let (code, put) = tcp_timewait_check_oow_rate_limit(tw, seq, end_seq, th.syn != 0, env.now_ticks, env.ratelimit);
            v.code = code;
            v.put = put;
            return v;
        }
        if th.rst != 0 {
            v.kill = true;
            return v;
        }
        if th.syn != 0 && !before(seq, tw.tw_rcv_nxt) {
            v.code = TCP_TW_RST;
            return v;
        }
        if th.ack == 0 || !after(end_seq, tw.tw_rcv_nxt) || end_seq == seq {
            v.put = true;
            return v;
        }
        if th.fin == 0 || end_seq != tw.tw_rcv_nxt.wrapping_add(1) {
            v.code = TCP_TW_RST;
            return v;
        }
        tw.tw_substate = TCP_TIME_WAIT;
        tw.tw_rcv_nxt = end_seq;
        if o.saw_tstamp != 0 {
            tw.tw_ts_recent_stamp = env.now_secs;
            tw.tw_ts_recent = o.rcv_tsval;
        }
        v.reschedule = true;
        v.code = TCP_TW_ACK;
        return v;
    }
    if !paws && seq == tw.tw_rcv_nxt && (seq == end_seq || th.rst != 0) {
        if th.rst != 0 {
            if !env.rfc1337 {
                v.kill = true;
                return v;
            }
        } else {
            v.reschedule = true;
        }
        if o.saw_tstamp != 0 {
            tw.tw_ts_recent = o.rcv_tsval;
            tw.tw_ts_recent_stamp = env.now_secs;
        }
        v.put = true;
        return v;
    }
    if th.syn != 0 && th.rst == 0 && th.ack == 0 && !paws {
        if after(seq, tw.tw_rcv_nxt) || (o.saw_tstamp != 0 && to_signed32(tw.tw_ts_recent.wrapping_sub(o.rcv_tsval)) < 0) {
            let mut isn = tw.tw_snd_nxt.wrapping_add(65535).wrapping_add(2);
            if isn == 0 {
                isn = 1;
            }
            v.code = TCP_TW_SYN;
            v.isn = Some(isn);
            return v;
        }
    }
    if paws {
        v.paws_rejected = true;
    }
    if th.rst == 0 {
        if paws || th.ack != 0 {
            v.reschedule = true;
        }
        let (code, put) = tcp_timewait_check_oow_rate_limit(tw, seq, end_seq, th.syn != 0, env.now_ticks, env.ratelimit);
        v.code = code;
        v.put = put;
        return v;
    }
    v.put = true;
    v
}

/// The connection fields a socket entering TIME-WAIT hands over.
pub struct tcp_sock {
    pub transparent: u8,
    pub sk_mark: u32,
    pub sk_priority: u32,
    pub rcv_wscale: u8,
    pub rcv_nxt: u32,
    pub snd_nxt: u32,
    pub rcv_wup: u32,
    pub rcv_wnd: u32,
    pub ts_recent: u32,
    pub ts_recent_stamp: u32,
    pub tsoffset: u32,
    pub tcp_tx_delay: u32,
    pub icsk_rto: u32,
}

/// The receive window still offered: what was advertised past the last
/// window update, less what arrived since; never negative.
pub open spec fn receive_window(tp: tcp_sock) -> u32 {
    let w = signed32(tp.rcv_wup.wrapping_add(tp.rcv_wnd).wrapping_sub(tp.rcv_nxt));
    if w < 0 { 0 } else { w as u32 }
}

fn tcp_receive_window(tp: &tcp_sock) -> (r: u32)
    ensures
        r == receive_window(*tp),
{
    let w = to_signed32(tp.rcv_wup.wrapping_add(tp.rcv_wnd).wrapping_sub(tp.rcv_nxt));
    if w < 0 { 0 } else { w as u32 }
}

/// The TIME-WAIT socket a closing connection leaves in `state`: the
/// connection's marks, window scale, sequence numbers, offered window and
/// timestamps.
pub open spec fn tw_from(tp: tcp_sock, state: i32) -> tcp_timewait_sock {
    tcp_timewait_sock {
        tw_substate: state,
        tw_rcv_wscale: tp.rcv_wscale,
        tw_transparent: tp.transparent,
        tw_mark: tp.sk_mark,
        tw_priority: tp.sk_priority,
        tw_rcv_nxt: tp.rcv_nxt,
        tw_snd_nxt: tp.snd_nxt,
        tw_rcv_wnd: receive_window(tp),
        tw_ts_recent: tp.ts_recent,
        tw_ts_recent_stamp: tp.ts_recent_stamp,
        tw_ts_offset: tp.tsoffset,
        tw_last_oow_ack_time: 0,
        tw_tx_delay: tp.tcp_tx_delay,
    }
}

/// How long it lives: the full TIME-WAIT length in TIME-WAIT; otherwise
/// `timeo`, but at least three and a half retransmission timeouts.
pub open spec fn tw_timeout(tp: tcp_sock, state: i32, timeo: i32) -> int {
    let rto: int = tp.icsk_rto * 4 - tp.icsk_rto / 2;
    if state == TCP_TIME_WAIT { TCP_TIMEWAIT_LEN as int } else if timeo < rto { rto } else { timeo as int }
}

/// Move a closing connection to a TIME-WAIT socket (when one could be
/// allocated, `alloc_ok`), with its timeout.
pub fn tcp_time_wait(tp: &tcp_sock, state: i32, timeo: i32, alloc_ok: bool) -> (r: Option<(tcp_timewait_sock, i32)>)
    requires
        tp.icsk_rto * 4 - tp.icsk_rto / 2 <= i32::MAX,
    ensures
        !alloc_ok ==> r is None,
        alloc_ok ==> r == Some((tw_from(*tp, state), tw_timeout(*tp, state, timeo) as i32)),
{
    if !alloc_ok {
        return None;
    }
    let tw = tcp_timewait_sock {
        tw_substate: state,
        tw_rcv_wscale: tp.rcv_wscale,
        tw_transparent: tp.transparent,
        tw_mark: tp.sk_mark,
        tw_priority: tp.sk_priority,
        tw_rcv_nxt: tp.rcv_nxt,
        tw_snd_nxt: tp.snd_nxt,
        tw_rcv_wnd: tcp_receive_window(tp),
        tw_ts_recent: tp.ts_recent,
        tw_ts_recent_stamp: tp.ts_recent_stamp,
        tw_ts_offset: tp.tsoffset,
        tw_last_oow_ack_time: 0,
        tw_tx_delay: tp.tcp_tx_delay,
    };
    let rto: i32 = (tp.icsk_rto * 4 - tp.icsk_rto / 2) as i32;
    let mut t = timeo;
    if t < rto {
        t = rto;
    }
    if state == TCP_TIME_WAIT {
        t = TCP_TIMEWAIT_LEN as i32;
    }
    Some((tw, t))
}

} // verus!
