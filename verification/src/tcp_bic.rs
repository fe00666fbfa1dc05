//! BIC congestion control: binary search towards the window where loss
//! last happened, with a slow probe beyond it.
use vstd::prelude::*;
use crate::tcp_cong::{tcp_sock, in_slow_start, slow_start_spec, cong_avoid_ai, tcp_slow_start, tcp_cong_avoid_ai, cong_registry, tcp_congestion_ops, tcp_register_congestion_control, tcp_unregister_congestion_control, jhash, complete, name_key, has_key, first_key, TCP_CA_UNSPEC};

verus! {

pub const BICTCP_BETA_SCALE: u32 = 1024;
pub const BICTCP_B: u32 = 4;
/// Converge faster when the window stops short of the last maximum.
pub const FAST_CONVERGENCE: i32 = 1;
pub const MAX_INCREMENT: u32 = 16;
pub const LOW_WINDOW: u32 = 14;
pub const BETA: u32 = 819;
pub const INITIAL_SSTHRESH: u32 = 0;
pub const SMOOTH_PART: u32 = 20;
pub const HZ: u32 = 100;
pub const TCP_CA_OPEN: u8 = 1;
pub const TCP_CA_LOSS: u8 = 4;
pub const ACK_RATIO_SHIFT: u32 = 4;

/// BIC's per-connection state.
#[derive(Clone, Copy)]
pub struct bictcp {
    pub cnt: u32,
    pub last_max_cwnd: u32,
    pub last_cwnd: u32,
    pub last_time: u32,
    pub epoch_start: u32,
    pub delayed_ack: u32,
}

pub struct ack_sample {
    pub pkts_acked: u32,
}

/// The state a connection starts from.
pub open spec fn reset_state() -> bictcp {
    bictcp { cnt: 0, last_max_cwnd: 0, last_cwnd: 0, last_time: 0, epoch_start: 0, delayed_ack: 2u32 << ACK_RATIO_SHIFT }
}

pub fn bictcp_reset(ca: &mut bictcp)
    ensures
        *final(ca) == reset_state(),
{
    ca.cnt = 0;
    ca.last_max_cwnd = 0;
    ca.last_cwnd = 0;
    ca.last_time = 0;
    ca.epoch_start = 0;
    ca.delayed_ack = 2u32 << ACK_RATIO_SHIFT;
}

/// Start a connection: reset, and the initial threshold when one is set.
pub fn bictcp_init(ca: &mut bictcp, tp: &mut tcp_sock)
    ensures
        *final(ca) == reset_state(),
        *final(tp) == (if INITIAL_SSTHRESH != 0 { tcp_sock { snd_ssthresh: INITIAL_SSTHRESH, ..*old(tp) } } else { *old(tp) }),
{
    bictcp_reset(ca);
    if INITIAL_SSTHRESH != 0 {
        tp.snd_ssthresh = INITIAL_SSTHRESH;
    }
}

/// The ACKs per window increment before scaling by the delayed-ACK ratio:
/// small windows grow as Reno; below the last maximum, a binary search
/// step (at most `MAX_INCREMENT`, and slowly when close); above it, a
/// slow start out, then linear probing.
pub open spec fn raw_cnt(last_max: u32, cwnd: u32) -> u32 {
    let c: int = cwnd as int;
    let m: int = last_max as int;
    (if c <= LOW_WINDOW {
        c
    } else if c < m {
        let dist: int = (m - c) / (BICTCP_B as int);
        if dist > MAX_INCREMENT {
            c / (MAX_INCREMENT as int)
        } else if dist <= 1 {
            (c * SMOOTH_PART) / (BICTCP_B as int)
        } else {
            c / dist
        }
    } else if c < m + BICTCP_B {
        (c * SMOOTH_PART) / (BICTCP_B as int)
    } else if c < m + MAX_INCREMENT * (BICTCP_B - 1) {
        (c * (BICTCP_B - 1)) / (c - m)
    } else {
        c / (MAX_INCREMENT as int)
    }) as u32
}

/// The state after seeing the window `cwnd` at time `now`: unchanged when
/// the window is the same as less than a 32nd of a second ago; else the
/// window and time are noted, the epoch starts if needed, and the count is
/// the raw one (at most 20 before any loss), scaled by the delayed-ACK
/// ratio and at least 1 (small windows keep the raw count).
pub open spec fn update_spec(ca: bictcp, cwnd: u32, now: u32) -> bictcp {
    if ca.last_cwnd == cwnd && now.wrapping_sub(ca.last_time) <= HZ / 32 {
        ca
    } else {
        let ca1 = bictcp { last_cwnd: cwnd, last_time: now, epoch_start: if ca.epoch_start == 0 { now } else { ca.epoch_start }, ..ca };
        if cwnd <= LOW_WINDOW {
            bictcp { cnt: cwnd, ..ca1 }
        } else {
            let c0 = raw_cnt(ca.last_max_cwnd, cwnd);
            let c1 = if ca.last_max_cwnd == 0 && c0 > 20 { 20u32 } else { c0 };
            let c2 = (c1 << 4u32) / ca.delayed_ack;
            bictcp { cnt: if c2 == 0 { 1 } else { c2 }, ..ca1 }
        }
    }
}

pub fn bictcp_update(ca: &mut bictcp, cwnd: u32, now: u32)
    requires
        old(ca).delayed_ack > 0,
        cwnd <= u32::MAX / SMOOTH_PART,
        old(ca).last_max_cwnd <= u32::MAX - MAX_INCREMENT * BICTCP_B,
    ensures
        *final(ca) == update_spec(*old(ca), cwnd, now),
{
    if ca.last_cwnd == cwnd && now.wrapping_sub(ca.last_time) <= HZ / 32 {
        return;
    }
    ca.last_cwnd = cwnd;
    ca.last_time = now;
    if ca.epoch_start == 0 {
        ca.epoch_start = now;
    }
    if cwnd <= LOW_WINDOW {
        ca.cnt = cwnd;
        return;
    }
    if cwnd < ca.last_max_cwnd {
        let dist = (ca.last_max_cwnd - cwnd) / BICTCP_B;
        if dist > MAX_INCREMENT {
            ca.cnt = cwnd / MAX_INCREMENT;
        } else if dist <= 1 {
            ca.cnt = (cwnd * SMOOTH_PART) / BICTCP_B;
        } else {
            ca.cnt = cwnd / dist;
        }
    } else {
        if cwnd < ca.last_max_cwnd + BICTCP_B {
            ca.cnt = (cwnd * SMOOTH_PART) / BICTCP_B;
        } else if cwnd < ca.last_max_cwnd + MAX_INCREMENT * (BICTCP_B - 1) {
            ca.cnt = (cwnd * (BICTCP_B - 1)) / (cwnd - ca.last_max_cwnd);
        } else {
            ca.cnt = cwnd / MAX_INCREMENT;
        }
    }
    if ca.last_max_cwnd == 0 {
        if ca.cnt > 20 {
            ca.cnt = 20;
        }
    }
    ca.cnt = (ca.cnt << 4u32) / ca.delayed_ack;
    if ca.cnt == 0 {
        ca.cnt = 1;
    }
}

impl bictcp {
    /// The delayed-ACK ratio is set, and a window seen before has a count.
    pub open spec fn wf(self) -> bool {
        self.delayed_ack > 0 && (self.last_cwnd != 0 ==> self.cnt > 0)
    }
}

/// The window limits under which the arithmetic stays within 32 bits.
pub open spec fn window_fits(tp: tcp_sock, acked: u32) -> bool {
    &&& 0 < tp.snd_cwnd <= tp.snd_cwnd_clamp
    &&& tp.snd_cwnd_clamp <= u32::MAX / SMOOTH_PART
    &&& tp.snd_cwnd_cnt <= u32::MAX / 4
    &&& acked <= u32::MAX / 4
}

/// On an ACK while the window limits sending: in slow start the window
/// grows first (and what is left over counts on); then the BIC count is
/// brought up to date and the window grows by one per that many ACKed
/// packets.
pub open spec fn cong_avoid_spec(ca: bictcp, tp: tcp_sock, acked: u32, cwnd_limited: bool, now: u32) -> (bictcp, tcp_sock) {
    if !cwnd_limited {
        (ca, tp)
    } else {
        let ss = in_slow_start(tp);
        let tp1 = if ss { slow_start_spec(tp, acked).0 } else { tp };
        let left: int = if ss { slow_start_spec(tp, acked).1 } else { acked as int };
        if ss && left == 0 {
            (ca, tp1)
        } else {
            let ca1 = update_spec(ca, tp1.snd_cwnd, now);
            (ca1, cong_avoid_ai(tp1, ca1.cnt, left as u32))
        }
    }
}

pub fn bictcp_cong_avoid(ca: &mut bictcp, tp: &mut tcp_sock, ack: u32, acked: u32, cwnd_limited: bool, now: u32)
    requires
        old(ca).wf(),
        old(ca).last_max_cwnd <= u32::MAX - MAX_INCREMENT * BICTCP_B,
        window_fits(*old(tp), acked),
    ensures
        (*final(ca), *final(tp)) == cong_avoid_spec(*old(ca), *old(tp), acked, cwnd_limited, now),
        final(ca).wf(),
{
    if !cwnd_limited {
        return;
    }
    let mut acked = acked;
    if tp.snd_cwnd < tp.snd_ssthresh {
        acked = tcp_slow_start(tp, acked);
        if acked == 0 {
            return;
        }
    }
    bictcp_update(ca, tp.snd_cwnd, now);
    proof {
        let c: int = ca.cnt as int;
        let t: int = tp.snd_cwnd_cnt as int + acked;
        assert(t / c <= t) by (nonlinear_arith)
            requires
                c >= 1,
                t >= 0,
        ;
    }
    tcp_cong_avoid_ai(tp, ca.cnt, acked);
}

/// The slow-start threshold after a loss, and the maximum to remember:
/// the window, or (converging fast) a bit less when the window stopped
/// short of the last maximum. Small windows halve, others keep `BETA`
/// 1024ths; never below 2.
pub open spec fn ssthresh_spec(ca: bictcp, cwnd: u32) -> (u32, u32) {
    let last_max: int = if cwnd < ca.last_max_cwnd && FAST_CONVERGENCE != 0 {
        (cwnd * (BICTCP_BETA_SCALE + BETA)) / (2 * BICTCP_BETA_SCALE as int)
    } else {
        cwnd as int
    };
    let t: int = if cwnd <= LOW_WINDOW { cwnd as int / 2 } else { (cwnd * BETA) / (BICTCP_BETA_SCALE as int) };
    (if t < 2 { 2 } else { t as u32 }, last_max as u32)
}

pub fn bictcp_recalc_ssthresh(ca: &mut bictcp, tp: &tcp_sock) -> (r: u32)
    requires
        tp.snd_cwnd < old(ca).last_max_cwnd ==> tp.snd_cwnd * (BICTCP_BETA_SCALE + BETA) <= u32::MAX,
        tp.snd_cwnd > LOW_WINDOW ==> tp.snd_cwnd * BETA <= u32::MAX,
    ensures
        r == ssthresh_spec(*old(ca), tp.snd_cwnd).0,
        *final(ca) == (bictcp { epoch_start: 0, last_max_cwnd: ssthresh_spec(*old(ca), tp.snd_cwnd).1, ..*old(ca) }),
{
    ca.epoch_start = 0;
    let cwnd = tp.snd_cwnd;
    if cwnd < ca.last_max_cwnd && FAST_CONVERGENCE != 0 {
        ca.last_max_cwnd = (cwnd * (BICTCP_BETA_SCALE + BETA)) / (2 * BICTCP_BETA_SCALE);
    } else {
        ca.last_max_cwnd = cwnd;
    }
    let t: u32 = if cwnd <= LOW_WINDOW { cwnd >> 1u32 } else { (cwnd * BETA) / BICTCP_BETA_SCALE };
    proof {
        vstd::bits::lemma_u32_shr_is_div(cwnd, 1);
        vstd::arithmetic::power2::lemma2_to64();
    }
    if t < 2 { 2 } else { t }
}

/// Entering loss recovery starts over.
pub fn bictcp_state(ca: &mut bictcp, new_state: u8)
    ensures
        *final(ca) == (if new_state == TCP_CA_LOSS { reset_state() } else { *old(ca) }),
{
    if new_state == TCP_CA_LOSS {
        bictcp_reset(ca);
    }
}

/// While the connection is open, the delayed-ACK ratio tracks the packets
/// each ACK covers: it loses a 16th and gains the sample (32-bit
/// arithmetic).
pub fn bictcp_acked(ca: &mut bictcp, icsk_ca_state: u8, sample: &ack_sample)
    ensures
        *final(ca) == (if icsk_ca_state == TCP_CA_OPEN {
            bictcp { delayed_ack: old(ca).delayed_ack.wrapping_add(sample.pkts_acked.wrapping_sub(old(ca).delayed_ack >> ACK_RATIO_SHIFT)), ..*old(ca) }
        } else {
            *old(ca)
        }),
{
    if icsk_ca_state == TCP_CA_OPEN {
        ca.delayed_ack = ca.delayed_ack.wrapping_add(sample.pkts_acked.wrapping_sub(ca.delayed_ack >> ACK_RATIO_SHIFT));
    }
}

/// BIC's entry for the congestion control registry.
pub open spec fn bic_ops_spec() -> tcp_congestion_ops {
    tcp_congestion_ops {
        name: bic_ops_spec_name(),
        key: 0,
        flags: 0,
        has_ssthresh: true,
        has_cong_avoid: true,
        has_cong_control: false,
        has_cwnd_undo: true,
        owner: 0,
    }
}

/// "bic" in a 16-byte name buffer.
pub open spec fn bic_ops_spec_name() -> [u8; 16] {
    [98u8, 105u8, 99u8, 0u8, 0u8, 0u8, 0u8, 0u8, 0u8, 0u8, 0u8, 0u8, 0u8, 0u8, 0u8, 0u8]
}

fn bic_ops() -> (r: tcp_congestion_ops)
    ensures
        r == bic_ops_spec(),
{
    tcp_congestion_ops {
        name: [98u8, 105u8, 99u8, 0u8, 0u8, 0u8, 0u8, 0u8, 0u8, 0u8, 0u8, 0u8, 0u8, 0u8, 0u8, 0u8],
        key: 0,
        flags: 0,
        has_ssthresh: true,
        has_cong_avoid: true,
        has_cong_control: false,
        has_cwnd_undo: true,
        owner: 0,
    }
}

/// Register BIC with the congestion control registry (the registry's
/// answer is returned).
pub fn bictcp_register(reg: &mut cong_registry) -> (r: i32)
    requires
        old(reg).wf(),
    ensures
        final(reg).wf(),
        name_key(bic_ops_spec().name@) != TCP_CA_UNSPEC && !has_key(old(reg).list@, name_key(bic_ops_spec().name@))
            ==> r == 0 && final(reg).list@ == old(reg).list@.push(tcp_congestion_ops { key: name_key(bic_ops_spec().name@), ..bic_ops_spec() }),
        name_key(bic_ops_spec().name@) == TCP_CA_UNSPEC || has_key(old(reg).list@, name_key(bic_ops_spec().name@))
            ==> r != 0 && final(reg).list@ == old(reg).list@,
{
    let ops = bic_ops();
    assert(complete(ops));
    tcp_register_congestion_control(reg, ops)
}

/// Remove BIC from the registry.
pub fn bictcp_unregister(reg: &mut cong_registry)
    requires
        old(reg).wf(),
    ensures
        final(reg).wf(),
        !has_key(final(reg).list@, name_key(bic_ops_spec().name@)),
        forall|i: int| first_key(old(reg).list@, name_key(bic_ops_spec().name@), i) ==> final(reg).list@ == old(reg).list@.remove(i),
{
    let ops = bic_ops();
    let len = crate::tcp_cong::strnlen(&ops.name, 16);
    proof {
        crate::tcp_cong::lemma_cstr_prefix(ops.name@);
    }
    let key = jhash(&ops.name, len, len as u32);
    tcp_unregister_congestion_control(reg, key);
}

} // verus!
