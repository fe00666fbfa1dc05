//! CUBIC congestion control: the per-connection state, its reset, the
//! approximate cube root it needs, and the update of how many ACKs it takes
//! to grow the window by one packet.
use vstd::prelude::*;

verus! {

pub const BICTCP_BETA_SCALE: u32 = 1024;
pub const BICTCP_HZ: u64 = 10;
pub const HYSTART_ACK_TRAIN: i32 = 1;
pub const HYSTART_DELAY: i32 = 2;
pub const HYSTART_MIN_SAMPLES: i32 = 8;
pub const HYSTART_DELAY_MIN: i32 = 4000;
pub const HYSTART_DELAY_MAX: i32 = 16000;
/// Ticks per second.
pub const HZ: u64 = 1000;
pub const CA_EVENT_TX_START: i32 = 0;

/// The tunables of CUBIC and the factors derived from them.
pub struct cubic_params {
    pub fast_convergence: bool,
    pub beta: u32,
    pub initial_ssthresh: u32,
    pub bic_scale: u32,
    pub tcp_friendliness: bool,
    pub hystart: bool,
    pub hystart_detect: i32,
    pub hystart_low_window: u32,
    pub hystart_ack_delta_us: u32,
    pub cube_rtt_scale: u32,
    pub beta_scale: u32,
    pub cube_factor: u64,
}

/// The default tunables, with the factors derived from them: the TCP
/// friendliness scale `8 * (1024 + beta) / 3 / (1024 - beta)`, the cube
/// scale `bic_scale * 10`, and the cube factor `2^40 / (bic_scale * 10)`.
pub fn cubictcp_register() -> (p: cubic_params)
    ensures
        p.beta == 717 && p.bic_scale == 41 && p.fast_convergence && p.tcp_friendliness && p.hystart,
        p.initial_ssthresh == 0,
        p.beta_scale == 15,
        p.cube_rtt_scale == 410,
        p.cube_factor == 0x100_0000_0000u64 / 410,
{
    let beta: u32 = 717;
    let bic_scale: u32 = 41;
    cubic_params {
        fast_convergence: true,
        beta,
        initial_ssthresh: 0,
        bic_scale,
        tcp_friendliness: true,
        hystart: true,
        hystart_detect: HYSTART_ACK_TRAIN | HYSTART_DELAY,
        hystart_low_window: 16,
        hystart_ack_delta_us: 2000,
        cube_rtt_scale: bic_scale * 10,
        beta_scale: 8 * (BICTCP_BETA_SCALE + beta) / 3 / (BICTCP_BETA_SCALE - beta),
        cube_factor: 0x100_0000_0000u64 / ((bic_scale * 10) as u64),
    }
}

/// The CUBIC state of a connection.
pub struct bictcp {
    pub cnt: u32,
    pub last_max_cwnd: u32,
    pub last_cwnd: u32,
    pub last_time: u32,
    pub bic_origin_point: u32,
    pub bic_K: u32,
    pub delay_min: u32,
    pub epoch_start: u32,
    pub ack_cnt: u32,
    pub tcp_cwnd: u32,
    pub unused: u32,
    pub sample_cnt: u8,
    pub found: u8,
    pub round_start: u32,
    pub end_seq: u32,
    pub last_ack: u32,
    pub curr_rtt: u32,
}

/// The connection fields CUBIC reads and writes.
pub struct tcp_sock {
    pub snd_cwnd: u32,
    pub snd_ssthresh: u32,
    pub lsndtime: u32,
    pub tcp_mstamp: u32,
}

/// Forget the cubic curve: every field before `unused` and the found mark
/// become 0; the slow-start round fields stay.
pub fn bictcp_reset(ca: &mut bictcp)
    ensures
        *final(ca) == (bictcp {
            cnt: 0,
            last_max_cwnd: 0,
            last_cwnd: 0,
            last_time: 0,
            bic_origin_point: 0,
            bic_K: 0,
            delay_min: 0,
            epoch_start: 0,
            ack_cnt: 0,
            tcp_cwnd: 0,
            found: 0,
            ..*old(ca)
        }),
{
    ca.cnt = 0;
    ca.last_max_cwnd = 0;
    ca.last_cwnd = 0;
    ca.last_time = 0;
    ca.bic_origin_point = 0;
    ca.bic_K = 0;
    ca.delay_min = 0;
    ca.epoch_start = 0;
    ca.ack_cnt = 0;
    ca.tcp_cwnd = 0;
    ca.found = 0;
}

/// Start a slow-start round now: it starts and last saw an ACK at the
/// connection's clock, ends at its congestion window, with no RTT sample.
pub fn bictcp_hystart_reset(ca: &mut bictcp, tp: &tcp_sock)
    ensures
        *final(ca) == (bictcp {
            round_start: tp.tcp_mstamp,
            last_ack: tp.tcp_mstamp,
            end_seq: tp.snd_cwnd,
            curr_rtt: u32::MAX,
            sample_cnt: 0,
            ..*old(ca)
        }),
{
    ca.round_start = tp.tcp_mstamp;
    ca.last_ack = ca.round_start;
    ca.end_seq = tp.snd_cwnd;
    ca.curr_rtt = u32::MAX;
    ca.sample_cnt = 0;
}

/// Set CUBIC up for a connection: reset, start a slow-start round when
/// HyStart is on, else apply a configured initial slow-start threshold.
pub fn cubictcp_init(ca: &mut bictcp, tp: &mut tcp_sock, p: &cubic_params)
    ensures
        final(ca).cnt == 0 && final(ca).epoch_start == 0 && final(ca).last_max_cwnd == 0 && final(ca).found == 0,
        p.hystart ==> final(ca).round_start == old(tp).tcp_mstamp && final(ca).curr_rtt == u32::MAX && *final(tp) == *old(tp),
        !p.hystart ==> final(tp).snd_ssthresh == (if p.initial_ssthresh != 0 { p.initial_ssthresh } else { old(tp).snd_ssthresh }),
{
    bictcp_reset(ca);
    if p.hystart {
        bictcp_hystart_reset(ca, tp);
    }
    if !p.hystart && p.initial_ssthresh != 0 {
        tp.snd_ssthresh = p.initial_ssthresh;
    }
}

/// Whether `a` is after `b` on the wrapping 32-bit clock.
pub open spec fn after32(a: u32, b: u32) -> bool {
    (b.wrapping_sub(a) as i32) < 0
}

/// When sending resumes after idle (`CA_EVENT_TX_START` at time `now`),
/// the epoch moves forward by the idle time, but not past `now`; the last
/// send time becomes `now`. Other events change nothing.
pub fn cubictcp_cwnd_event(ca: &mut bictcp, tp: &mut tcp_sock, event: i32, now: u32)
    ensures
        event != CA_EVENT_TX_START ==> *final(ca) == *old(ca) && *final(tp) == *old(tp),
        event == CA_EVENT_TX_START ==> {
            let delta = now.wrapping_sub(old(tp).lsndtime) as i32;
            &&& final(tp).lsndtime == now
            &&& final(tp).snd_cwnd == old(tp).snd_cwnd && final(tp).snd_ssthresh == old(tp).snd_ssthresh
            &&& final(ca).epoch_start == (if old(ca).epoch_start != 0 && delta > 0 {
                let e = old(ca).epoch_start.wrapping_add(delta as u32);
                if after32(e, now) { now } else { e }
            } else {
                old(ca).epoch_start
            })
            &&& *final(ca) == (bictcp { epoch_start: final(ca).epoch_start, ..*old(ca) })
        },
{
    if event == CA_EVENT_TX_START {
        let delta = now.wrapping_sub(tp.lsndtime) as i32;
        if ca.epoch_start != 0 && delta > 0 {
            let e = ca.epoch_start.wrapping_add(delta as u32);
            ca.epoch_start = if (now.wrapping_sub(e) as i32) < 0 { now } else { e };
        }
        tp.lsndtime = now;
    }
}

// ---------------------------------------------------------------------------
// The cube root
// ---------------------------------------------------------------------------

/// The table of cube roots for the leading bits.
pub open spec fn cbrt_tab(i: int) -> u8 {
    let t = seq![0u8, 54, 54, 54, 118, 118, 118, 118, 123, 129, 134, 138, 143, 147, 151, 156, 157, 161, 164, 168,
        170, 173, 176, 179, 181, 185, 187, 190, 192, 194, 197, 199, 200, 202, 204, 206, 209, 211, 213, 215, 217, 219,
        221, 222, 224, 225, 227, 229, 231, 232, 234, 236, 237, 239, 240, 242, 244, 245, 246, 248, 250, 251, 252, 254];
    t[i]
}

fn cbrt_tab_at(i: u64) -> (r: u8)
    requires
        i < 64,
    ensures
        r == cbrt_tab(i as int),
{
    let t: [u8; 64] = [0u8, 54, 54, 54, 118, 118, 118, 118, 123, 129, 134, 138, 143, 147, 151, 156, 157, 161, 164, 168,
        170, 173, 176, 179, 181, 185, 187, 190, 192, 194, 197, 199, 200, 202, 204, 206, 209, 211, 213, 215, 217, 219,
        221, 222, 224, 225, 227, 229, 231, 232, 234, 236, 237, 239, 240, 242, 244, 245, 246, 248, 250, 251, 252, 254];
    let r = t[i as usize];
    assert(t@ =~= seq![0u8, 54, 54, 54, 118, 118, 118, 118, 123, 129, 134, 138, 143, 147, 151, 156, 157, 161, 164, 168,
        170, 173, 176, 179, 181, 185, 187, 190, 192, 194, 197, 199, 200, 202, 204, 206, 209, 211, 213, 215, 217, 219,
        221, 222, 224, 225, 227, 229, 231, 232, 234, 236, 237, 239, 240, 242, 244, 245, 246, 248, 250, 251, 252, 254]);
    r
}

/// The number of significant bits of `a`.
pub open spec fn fls64(a: u64) -> u64
    decreases a,
{
    if a == 0 { 0 } else { (1 + fls64(a / 2)) as u64 }
}

proof fn lemma_fls64(a: u64)
    ensures
        fls64(a) <= 64,
        fls64(a) < 64 ==> a >> fls64(a) == 0,
        fls64(a) >= 1 ==> a >> ((fls64(a) - 1) as u64) != 0,
    decreases a,
{
    if a != 0 {
        let h = a / 2;
        lemma_fls64(h);
        let f = fls64(h);
        assert(a >> 1u64 == h) by (bit_vector)
            requires
                h == a / 2,
        ;
        assert(f < 64) by {
            assert(h < 0x8000_0000_0000_0000u64) by (bit_vector)
                requires
                    h == a / 2,
            ;
            if f == 64 {
                assert(h >> 63u64 != 0);
                assert(h >> 63u64 == 0) by (bit_vector)
                    requires
                        h < 0x8000_0000_0000_0000u64,
                ;
            }
        }
        assert(a >> (f + 1) as u64 == 0 || f + 1 == 64) by (bit_vector)
            requires
                h >> f == 0,
                a >> 1u64 == h,
                f < 64,
        ;
        if f >= 1 {
            assert(a >> f != 0) by (bit_vector)
                requires
                    h >> ((f - 1) as u64) != 0,
                    a >> 1u64 == h,
                    f >= 1,
                    f < 64,
            ;
        } else {
            assert(h == 0);
            assert(a >> 0u64 != 0) by (bit_vector)
                requires
                    a != 0,
            ;
        }
    } else {
        assert(a >> 0u64 == 0) by (bit_vector)
            requires
                a == 0,
        ;
    }
}

fn fls64_exec(a: u64) -> (r: u64)
    ensures
        r == fls64(a),
{
    let mut n: u64 = 0;
    let mut x: u64 = a;
    while x != 0
        invariant
            n <= 64,
            n + fls64(x) == fls64(a),
        decreases x,
    {
        proof {
            lemma_fls64(x);
            lemma_fls64(a);
            lemma_fls64(x / 2);
            assert(fls64(x) == 1 + fls64(x / 2));
        }
        x = x / 2;
        n = n + 1;
    }
    n
}

/// The approximate cube root CUBIC uses: small arguments read the table;
/// otherwise a table estimate from the leading bits is refined by one
/// Newton step and scaled (32-bit arithmetic, wrapping).
pub open spec fn cubic_root_spec(a: u64) -> u32 {
    let b = fls64(a);
    if b < 7 {
        (((cbrt_tab(a as int) as u32) + 35) as u32) >> 6u32
    } else {
        let b2 = ((((b * 84) as u64) / 256) - 1) as u64;
        let shift = a >> (b2 * 3) as u64;
        let x0 = (((cbrt_tab(shift as int) + 10) as u32) << (b2 as u32)) >> 6u32;
        let d: u64 = ((x0 as u64) * ((x0 - 1) as u64)) as u64;
        let x1 = (2 * x0) as u32;
        let x2 = x1.wrapping_add((a / d) as u32);
        (x2.wrapping_mul(341)) >> 10u32
    }
}

pub fn cubic_root(a: u64) -> (r: u32)
    ensures
        r == cubic_root_spec(a),
{
    let b = fls64_exec(a);
    proof {
        lemma_fls64(a);
    }
    if b < 7 {
        assert(a < 64) by (bit_vector)
            requires
                b < 7,
                b < 64 ==> a >> b == 0,
        ;
        let v = cbrt_tab_at(a);
        return ((v as u32) + 35) >> 6u32;
    }
    assert((((b * 84) as u64) >> 8u64) >= 2 && (((b * 84) as u64) >> 8u64) <= 21) by (bit_vector)
        requires
            7 <= b <= 64,
    ;
    let b2: u64 = ((b * 84) >> 8u64) - 1;
    proof {
        assert(b2 == (((b * 84) as u64) / 256) - 1 && 1 <= b2 <= 20 && b <= b2 * 3 + 6 && b2 * 3 <= b - 1) by (bit_vector)
            requires
                7 <= b <= 64,
                b2 == (((b * 84) as u64) >> 8u64) - 1,
        ;
    }
    let shift: u64 = a >> (b2 * 3);
    assert(1 <= shift < 64) by (bit_vector)
        requires
            shift == a >> (b2 * 3),
            b <= b2 * 3 + 6,
            b2 * 3 <= b - 1,
            b < 64 ==> a >> b == 0,
            a >> ((b - 1) as u64) != 0,
            b <= 64,
            b2 <= 20,
    ;
    let v = cbrt_tab_at(shift);
    assert(v >= 54) by {
        assert(cbrt_tab(shift as int) >= 54);
    }
    let base: u32 = (v as u32) + 10;
    let x0: u32 = (base << (b2 as u32)) >> 6u32;
    assert(2 <= x0 < 0x2000_0000) by (bit_vector)
        requires
            64 <= base <= 264,
            1 <= b2 <= 20,
            x0 == (base << (b2 as u32)) >> 6u32,
    ;
    let xa: u64 = x0 as u64;
    let xb: u64 = (x0 - 1) as u64;
    assert(2 <= xa * xb <= 0x2000_0000 * 0x2000_0000) by (nonlinear_arith)
        requires
            2 <= xa < 0x2000_0000,
            xb == xa - 1,
    ;
    let d: u64 = xa * xb;
    let x1: u32 = 2 * x0;
    let x2: u32 = x1.wrapping_add((a / d) as u32);
    x2.wrapping_mul(341) >> 10u32
}

// ---------------------------------------------------------------------------
// The window update
// ---------------------------------------------------------------------------

/// How many times the friendliness loop takes `d` from `ack` (while more
/// than `d` remain).
pub open spec fn friendly_steps(ack: u32, d: u32) -> int {
    if ack > d { (ack - 1) / (d as int) } else { 0 }
}

/// The state after the cubic part of an update at time `now` with window
/// `cwnd`: a new epoch starts (with its origin and time to reach it) when
/// none runs; the target window follows the cubic curve from the origin;
/// the count of ACKs per window increase follows from the target (at most
/// 20 before any loss).
pub open spec fn cubic_part(ca: bictcp, cwnd: u32, acked: u32, now: u32, p: cubic_params) -> bictcp {
    let c1 = bictcp { last_cwnd: cwnd, last_time: now, ..ca };
    let c2 = if c1.epoch_start == 0 {
        if c1.last_max_cwnd <= cwnd {
            bictcp { epoch_start: now, ack_cnt: acked, tcp_cwnd: cwnd, bic_K: 0, bic_origin_point: cwnd, ..c1 }
        } else {
            bictcp {
                epoch_start: now,
                ack_cnt: acked,
                tcp_cwnd: cwnd,
                bic_K: cubic_root_spec(p.cube_factor.wrapping_mul((c1.last_max_cwnd - cwnd) as u64)),
                bic_origin_point: c1.last_max_cwnd,
                ..c1
            }
        }
    } else {
        c1
    };
    let t0: u64 = (now.wrapping_sub(c2.epoch_start) as i32) as u64;
    let t1: u64 = t0.wrapping_add((c2.delay_min / 1000) as u64);
    let t: u64 = (t1 << BICTCP_HZ) / HZ;
    let offs: u64 = if t < c2.bic_K as u64 { (c2.bic_K - t) as u64 } else { (t - c2.bic_K) as u64 };
    let delta: u32 = ((p.cube_rtt_scale as u64).wrapping_mul(offs).wrapping_mul(offs).wrapping_mul(offs) >> 40u64) as u32;
    let target: u32 = if t < c2.bic_K as u64 {
        c2.bic_origin_point.wrapping_sub(delta)
    } else {
        c2.bic_origin_point.wrapping_add(delta)
    };
    let cnt: u32 = if target > cwnd { cwnd / (target - cwnd) as u32 } else { 100u32.wrapping_mul(cwnd) };
    let cnt2: u32 = if c2.last_max_cwnd == 0 && cnt > 20 { 20 } else { cnt };
    bictcp { cnt: cnt2, ..c2 }
}

/// The TCP-friendly part: the estimated window of standard TCP grows by
/// one per `cwnd * beta_scale / 8` ACKs counted; when it is ahead of
/// CUBIC, the count is lowered to catch up.
pub open spec fn friendly_part(ca: bictcp, cwnd: u32, p: cubic_params) -> bictcp {
    if p.tcp_friendliness {
        let d: u32 = cwnd.wrapping_mul(p.beta_scale) >> 3u32;
        let k = friendly_steps(ca.ack_cnt, d);
        let c = bictcp { ack_cnt: (ca.ack_cnt - k * d) as u32, tcp_cwnd: ca.tcp_cwnd.wrapping_add(k as u32), ..ca };
        if c.tcp_cwnd > cwnd {
            let max_cnt = cwnd / (c.tcp_cwnd - cwnd) as u32;
            if c.cnt > max_cnt { bictcp { cnt: max_cnt, ..c } } else { c }
        } else {
            c
        }
    } else {
        ca
    }
}

/// CUBIC's update for an ACK of `acked` packets at time `now` with window
/// `cwnd`: the ACKs are counted; nothing more happens when the window is
/// unchanged and no more than `now / 32` ticks passed; the cubic part runs at
/// most once per tick of a running epoch; then the friendly part; the
/// count ends at least 2.
pub open spec fn update_spec(ca: bictcp, cwnd: u32, acked: u32, now: u32, p: cubic_params) -> bictcp {
    let c0 = bictcp { ack_cnt: ca.ack_cnt.wrapping_add(acked), ..ca };
    if c0.last_cwnd == cwnd && (now.wrapping_sub(c0.last_time) as i32) <= (now / 32) as i32 {
        c0
    } else {
        let c1 = if c0.epoch_start != 0 && now == c0.last_time { c0 } else { cubic_part(c0, cwnd, acked, now, p) };
        let c2 = friendly_part(c1, cwnd, p);
        bictcp { cnt: if c2.cnt < 2 { 2 } else { c2.cnt }, ..c2 }
    }
}

pub fn bictcp_update(ca: &mut bictcp, cwnd: u32, acked: u32, now: u32, p: &cubic_params)
    requires
        p.tcp_friendliness ==> cwnd.wrapping_mul(p.beta_scale) >> 3u32 >= 1,
    ensures
        *final(ca) == update_spec(*old(ca), cwnd, acked, now, *p),
{
    ca.ack_cnt = ca.ack_cnt.wrapping_add(acked);
    if ca.last_cwnd == cwnd && (now.wrapping_sub(ca.last_time) as i32) <= (now / 32) as i32 {
        return;
    }
    if !(ca.epoch_start != 0 && now == ca.last_time) {
        bictcp_cubic_part(ca, cwnd, acked, now, p);
    }
    if p.tcp_friendliness {
        let d: u32 = cwnd.wrapping_mul(p.beta_scale) >> 3u32;
        let ghost ack0 = ca.ack_cnt;
        let ghost tc0 = ca.tcp_cwnd;
        let ghost c_before = *ca;
        let mut k: u32 = 0;
        while ca.ack_cnt > d
            invariant
                d >= 1,
                ca.ack_cnt == ack0 - k * d,
                ca.ack_cnt >= 1 || k == 0,
                k * d <= ack0,
                ca.tcp_cwnd == tc0.wrapping_add(k),
                *ca == (bictcp { ack_cnt: ca.ack_cnt, tcp_cwnd: ca.tcp_cwnd, ..c_before }),
            decreases ca.ack_cnt,
        {
            ca.ack_cnt = ca.ack_cnt - d;
            ca.tcp_cwnd = ca.tcp_cwnd.wrapping_add(1);
            proof {
                assert((k + 1) * d == k * d + d) by (nonlinear_arith);
                assert(k + 1 <= (k + 1) * d) by (nonlinear_arith)
                    requires
                        d >= 1,
                        k >= 0,
                ;
            }
            k = k + 1;
        }
        proof {
            if ack0 > d {
                assert(k == (ack0 - 1) / (d as int)) by (nonlinear_arith)
                    requires
                        ack0 - k * d >= 1,
                        ack0 - k * d <= d,
                        d >= 1,
                        k >= 0,
                ;
            } else {
                if k >= 1 {
                    assert(k * d >= d) by (nonlinear_arith)
                        requires
                            k >= 1,
                            d >= 1,
                    ;
                }
                assert(k == 0);
            }
        }
        if ca.tcp_cwnd > cwnd {
            let delta = ca.tcp_cwnd - cwnd;
            let max_cnt = cwnd / delta;
            if ca.cnt > max_cnt {
                ca.cnt = max_cnt;
            }
        }
    }
    if ca.cnt < 2 {
        ca.cnt = 2;
    }
}

fn bictcp_cubic_part(ca: &mut bictcp, cwnd: u32, acked: u32, now: u32, p: &cubic_params)
    ensures
        *final(ca) == cubic_part(*old(ca), cwnd, acked, now, *p),
{
    ca.last_cwnd = cwnd;
    ca.last_time = now;
    if ca.epoch_start == 0 {
        ca.epoch_start = now;
        ca.ack_cnt = acked;
        ca.tcp_cwnd = cwnd;
        if ca.last_max_cwnd <= cwnd {
            ca.bic_K = 0;
            ca.bic_origin_point = cwnd;
        } else {
            ca.bic_K = cubic_root(p.cube_factor.wrapping_mul((ca.last_max_cwnd - cwnd) as u64));
            ca.bic_origin_point = ca.last_max_cwnd;
        }
    }
    let t0: u64 = (now.wrapping_sub(ca.epoch_start) as i32) as u64;
    let t1: u64 = t0.wrapping_add((ca.delay_min / 1000) as u64);
    let t: u64 = (t1 << BICTCP_HZ) / HZ;
    let offs: u64 = if t < ca.bic_K as u64 { ca.bic_K as u64 - t } else { t - ca.bic_K as u64 };
    let delta: u32 = ((p.cube_rtt_scale as u64).wrapping_mul(offs).wrapping_mul(offs).wrapping_mul(offs) >> 40u64) as u32;
    let target: u32 = if t < ca.bic_K as u64 {
        ca.bic_origin_point.wrapping_sub(delta)
    } else {
        ca.bic_origin_point.wrapping_add(delta)
    };
    let cnt: u32 = if target > cwnd { cwnd / (target - cwnd) } else { 100u32.wrapping_mul(cwnd) };
    ca.cnt = if ca.last_max_cwnd == 0 && cnt > 20 { 20 } else { cnt };
}


/// When an ACK starts a new epoch (none running, the window moved) below
/// the window where the last loss happened, the cubic curve is anchored at
/// that window: the epoch starts now and its origin point is
/// `last_max_cwnd`, the window the curve returns to after `bic_K` ticks.
/// At or above that window the origin is the current window, reached at
/// once (`bic_K` is 0).
pub proof fn new_epoch_anchored_at_last_max(ca: bictcp, cwnd: u32, acked: u32, now: u32, p: cubic_params)
    requires
        ca.epoch_start == 0,
        ca.last_cwnd != cwnd,
    ensures
        update_spec(ca, cwnd, acked, now, p).epoch_start == now,
        update_spec(ca, cwnd, acked, now, p).last_cwnd == cwnd,
        update_spec(ca, cwnd, acked, now, p).last_time == now,
        ca.last_max_cwnd > cwnd ==> update_spec(ca, cwnd, acked, now, p).bic_origin_point == ca.last_max_cwnd,
        ca.last_max_cwnd <= cwnd ==> update_spec(ca, cwnd, acked, now, p).bic_origin_point == cwnd
            && update_spec(ca, cwnd, acked, now, p).bic_K == 0,
{
}


/// Whenever an ACK runs the window computation (the window moved), the
/// count of ACKs per window increase ends at least 2: the window never
/// grows by more than half a packet per ACK.
pub proof fn update_count_at_least_two(ca: bictcp, cwnd: u32, acked: u32, now: u32, p: cubic_params)
    requires
        ca.last_cwnd != cwnd,
    ensures
        update_spec(ca, cwnd, acked, now, p).cnt >= 2,
{
}

} // verus!
