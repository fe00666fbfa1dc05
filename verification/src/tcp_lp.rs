//! TCP Low Priority: a sender that yields to other traffic by inferring
//! congestion early from one-way delays measured with TCP timestamps.
use vstd::prelude::*;
use crate::tcp_cong::{tcp_sock, reno_cong_avoid, tcp_reno_cong_avoid, cong_registry, tcp_congestion_ops, tcp_register_congestion_control, tcp_unregister_congestion_control, jhash, complete, name_key, has_key, first_key, TCP_CA_UNSPEC, lemma_cstr_prefix, strnlen};

verus! {

/// The timestamp clock rate, per second.
pub const LP_RESOL: u64 = 1000;
pub const LP_VALID_RHZ: u32 = 1;
pub const LP_VALID_OWD: u32 = 2;
pub const LP_WITHIN_THR: u32 = 8;
pub const LP_WITHIN_INF: u32 = 16;

/// The timestamps of the last segment received.
pub struct tcp_rx_opt {
    pub rcv_tsval: u32,
    pub rcv_tsecr: u32,
}

pub struct ack_sample {
    pub rtt_us: u32,
}

/// TCP-LP's per-connection state.
pub struct lp {
    pub flag: u32,
    pub sowd: u32,
    pub owd_min: u32,
    pub owd_max: u32,
    pub owd_max_rsv: u32,
    pub remote_hz: u32,
    pub remote_ref_time: u32,
    pub local_ref_time: u32,
    pub last_drop: u32,
    pub inference: u32,
}

/// The state a connection starts with: nothing measured, the minimal
/// delay at its largest.
pub open spec fn lp_start() -> lp {
    lp {
        flag: 0,
        sowd: 0,
        owd_min: 0xffff_ffff,
        owd_max: 0,
        owd_max_rsv: 0,
        remote_hz: 0,
        remote_ref_time: 0,
        local_ref_time: 0,
        last_drop: 0,
        inference: 0,
    }
}

pub fn tcp_lp_init(l: &mut lp)
    ensures
        *final(l) == lp_start(),
{
    l.flag = 0;
    l.sowd = 0;
    l.owd_min = 0xffff_ffff;
    l.owd_max = 0;
    l.owd_max_rsv = 0;
    l.remote_hz = 0;
    l.remote_ref_time = 0;
    l.local_ref_time = 0;
    l.last_drop = 0;
    l.inference = 0;
}

/// Grow as Reno, except while within the inference time of a drop.
pub fn tcp_lp_cong_avoid(l: &lp, tp: &mut tcp_sock, ack: u32, acked: u32, cwnd_limited: bool)
    requires
        0 < old(tp).snd_cwnd <= old(tp).snd_cwnd_clamp,
        old(tp).snd_cwnd_clamp < u32::MAX / 2,
        old(tp).snd_cwnd_cnt <= u32::MAX / 4,
        acked <= u32::MAX / 4,
    ensures
        *final(tp) == if l.flag & LP_WITHIN_INF == 0 { reno_cong_avoid(*old(tp), acked, cwnd_limited) } else { *old(tp) },
{
    if l.flag & LP_WITHIN_INF == 0 {
        tcp_reno_cong_avoid(tp, ack, acked, cwnd_limited);
    }
}

/// The magnitude of a difference of two timestamps.
pub open spec fn abs_diff(a: u32, b: u32) -> int {
    if a >= b { a - b } else { b - a }
}

/// The estimate of the peer's timestamp rate (times 64) after a segment:
/// a new sample is the ratio of the peer's and our timestamp advances
/// since the reference segment, in our clock's units; the estimate moves
/// a 64th of the way to it (or takes it when there is none). No sample is
/// taken before references are recorded or when either clock stood still.
pub open spec fn rhz_after(l: lp, rx: tcp_rx_opt) -> int {
    let rhz: int = l.remote_hz * 64;
    if l.remote_ref_time == 0 || l.local_ref_time == 0 || rx.rcv_tsval == l.remote_ref_time || rx.rcv_tsecr == l.local_ref_time {
        rhz
    } else {
        let m: int = ((LP_RESOL as int) * abs_diff(rx.rcv_tsval, l.remote_ref_time)) / abs_diff(rx.rcv_tsecr, l.local_ref_time);
        if rhz > 0 { rhz - l.remote_hz + m } else { m * 64 }
    }
}

/// The estimated peer rate (32 bits), and the state with the rate marked
/// valid when it is positive and the segment's timestamps recorded as the
/// new references.
pub open spec fn estimate(l: lp, rx: tcp_rx_opt) -> (u32, lp) {
    let hz = (rhz_after(l, rx) / 64) as u32;
    (hz, lp {
        flag: if hz > 0 { l.flag | LP_VALID_RHZ } else { l.flag & !LP_VALID_RHZ },
        remote_ref_time: rx.rcv_tsval,
        local_ref_time: rx.rcv_tsecr,
        ..l
    })
}

pub fn tcp_lp_remote_hz_estimator(l: &mut lp, rx: &tcp_rx_opt) -> (r: u32)
    ensures
        (r, *final(l)) == estimate(*old(l), *rx),
{
    let hz = l.remote_hz as u64;
    let mut rhz: u64 = hz * 64;
    if !(l.remote_ref_time == 0 || l.local_ref_time == 0 || rx.rcv_tsval == l.remote_ref_time || rx.rcv_tsecr == l.local_ref_time) {
        let dv: u64 = if rx.rcv_tsval >= l.remote_ref_time { (rx.rcv_tsval - l.remote_ref_time) as u64 } else { (l.remote_ref_time - rx.rcv_tsval) as u64 };
        let de: u64 = if rx.rcv_tsecr >= l.local_ref_time { (rx.rcv_tsecr - l.local_ref_time) as u64 } else { (l.local_ref_time - rx.rcv_tsecr) as u64 };
        let m: u64 = (LP_RESOL * dv) / de;
        proof {
            assert(m <= LP_RESOL * dv) by (nonlinear_arith)
                requires
                    m as int == (LP_RESOL * dv) as int / (de as int),
                    de >= 1,
            ;
        }
        if rhz > 0 {
            rhz = rhz - hz + m;
        } else {
            rhz = m * 64;
        }
    }
    let out = (rhz / 64) as u32;
    if out > 0 {
        l.flag = l.flag | LP_VALID_RHZ;
    } else {
        l.flag = l.flag & !LP_VALID_RHZ;
    }
    l.remote_ref_time = rx.rcv_tsval;
    l.local_ref_time = rx.rcv_tsecr;
    out
}

/// The one-way delay the segment shows (32 bits): with a valid rate, the
/// peer's timestamp in our units less ours, in magnitude; the delay is
/// marked valid when positive.
pub open spec fn owd(l: lp, rx: tcp_rx_opt) -> (u32, lp) {
    let (hz, l1) = estimate(l, rx);
    let d: int = if l1.flag & LP_VALID_RHZ != 0 {
        let v: int = rx.rcv_tsval * ((LP_RESOL as int) / (hz as int)) - rx.rcv_tsecr;
        if v < 0 { -v } else { v }
    } else {
        0
    };
    (d as u32, lp { remote_hz: hz, flag: if d > 0 { l1.flag | LP_VALID_OWD } else { l1.flag & !LP_VALID_OWD }, ..l1 })
}

/// Setting or clearing one flag bit leaves the others as they were.
proof fn lemma_flag(f: u32, m: u32, k: u32)
    by (bit_vector)
    ensures
        (f | m) & m == m,
        (f & !m) & m == 0,
        m & k == 0 ==> (f | m) & k == f & k && (f & !m) & k == f & k,
{
}

pub fn tcp_lp_owd_calculator(l: &mut lp, rx: &tcp_rx_opt) -> (r: u32)
    ensures
        (r, *final(l)) == owd(*old(l), *rx),
{
    let hz = tcp_lp_remote_hz_estimator(l, rx);
    proof {
        lemma_flag(old(l).flag, LP_VALID_RHZ, 0);
    }
    l.remote_hz = hz;
    let mut d: i64 = 0;
    if l.flag & LP_VALID_RHZ != 0 {
        assert(hz > 0);
        let per: u64 = LP_RESOL / (hz as u64);
        assert(per <= 1000);
        assert((rx.rcv_tsval as int) * (per as int) <= 0xffff_ffff * 1000) by (nonlinear_arith)
            requires
                per <= 1000,
                rx.rcv_tsval <= 0xffff_ffff,
        ;
        let v: i64 = (rx.rcv_tsval as i64) * (per as i64) - (rx.rcv_tsecr as i64);
        d = if v < 0 { -v } else { v };
    }
    if d > 0 {
        l.flag = l.flag | LP_VALID_OWD;
    } else {
        l.flag = l.flag & !LP_VALID_OWD;
    }
    d as u32
}

/// The state after a delay sample (when both the rate and the delay are
/// valid): the minimum follows it down; the maximum follows it up through
/// a reserve (so one outlier is forgotten); the smoothed delay (times 8)
/// moves an eighth of the way to it, or starts at it (32-bit arithmetic).
pub open spec fn sampled(l: lp, mowd: u32) -> lp {
    let owd_min = if mowd < l.owd_min { mowd } else { l.owd_min };
    let (owd_max, rsv) = if mowd > l.owd_max {
        if mowd > l.owd_max_rsv {
            (if l.owd_max_rsv == 0 { mowd } else { l.owd_max_rsv }, mowd)
        } else {
            (mowd, l.owd_max_rsv)
        }
    } else {
        (l.owd_max, l.owd_max_rsv)
    };
    let sowd = if l.sowd != 0 { ((l.sowd - l.sowd / 8 + mowd) % 0x1_0000_0000) as u32 } else { mowd << 3u32 };
    lp { owd_min, owd_max, owd_max_rsv: rsv, sowd, ..l }
}

pub open spec fn rtt_sample_spec(l: lp, rx: tcp_rx_opt) -> lp {
    let (mowd, l1) = owd(l, rx);
    if l1.flag & LP_VALID_RHZ == 0 || l1.flag & LP_VALID_OWD == 0 { l1 } else { sampled(l1, mowd) }
}

pub fn tcp_lp_rtt_sample(l: &mut lp, rx: &tcp_rx_opt, rtt: u32)
    ensures
        *final(l) == rtt_sample_spec(*old(l), *rx),
{
    let mowd = tcp_lp_owd_calculator(l, rx);
    if l.flag & LP_VALID_RHZ == 0 || l.flag & LP_VALID_OWD == 0 {
        return;
    }
    if mowd < l.owd_min {
        l.owd_min = mowd;
    }
    if mowd > l.owd_max {
        if mowd > l.owd_max_rsv {
            if l.owd_max_rsv == 0 {
                l.owd_max = mowd;
            } else {
                l.owd_max = l.owd_max_rsv;
            }
            l.owd_max_rsv = mowd;
        } else {
            l.owd_max = mowd;
        }
    }
    proof {
        vstd::bits::lemma_u32_shr_is_div(l.sowd, 3);
        vstd::arithmetic::power2::lemma2_to64();
    }
    if l.sowd != 0 {
        l.sowd = (l.sowd - (l.sowd >> 3u32)).wrapping_add(mowd);
    } else {
        l.sowd = mowd << 3u32;
    }
}

/// The smoothed delay lies within 15% of the way from the minimal to the
/// maximal delay (32-bit arithmetic, as the threshold is computed).
pub open spec fn within_thr(l: lp) -> bool {
    l.sowd / 8 < l.owd_min.wrapping_add(15u32.wrapping_mul(l.owd_max.wrapping_sub(l.owd_min)) / 100)
}

/// The state and window after an ACK at time `now`: the RTT sample
/// counts; the inference time becomes three times the echoed timestamp's
/// age (when positive); being within it of the last drop, and being
/// within the delay threshold, are noted. Outside the threshold the delay
/// range restarts from the smoothed delay, the window drops to 1 (within
/// the inference time) or halves (at least 1), and the drop time is now.
pub open spec fn acked_spec(l: lp, tp: tcp_sock, rx: tcp_rx_opt, sample: ack_sample, now: u32) -> (lp, tcp_sock) {
    let l1 = if sample.rtt_us > 0 { rtt_sample_spec(l, rx) } else { l };
    let delta = now.wrapping_sub(rx.rcv_tsecr);
    let l2 = if 0 < delta < 0x8000_0000 { lp { inference: 3u32.wrapping_mul(delta), ..l1 } } else { l1 };
    let inf = l2.last_drop != 0 && now.wrapping_sub(l2.last_drop) < l2.inference;
    let l3 = lp { flag: if inf { l2.flag | LP_WITHIN_INF } else { l2.flag & !LP_WITHIN_INF }, ..l2 };
    let thr = within_thr(l3);
    let l4 = lp { flag: if thr { l3.flag | LP_WITHIN_THR } else { l3.flag & !LP_WITHIN_THR }, ..l3 };
    if thr {
        (l4, tp)
    } else {
        let l5 = lp { owd_min: l4.sowd / 8, owd_max: l4.sowd / 4, owd_max_rsv: l4.sowd / 4, last_drop: now, ..l4 };
        let cwnd = if inf { 1u32 } else if tp.snd_cwnd / 2 < 1 { 1u32 } else { tp.snd_cwnd / 2 };
        (l5, tcp_sock { snd_cwnd: cwnd, ..tp })
    }
}

pub fn tcp_lp_pkts_acked(l: &mut lp, tp: &mut tcp_sock, rx: &tcp_rx_opt, sample: &ack_sample, now: u32)
    ensures
        (*final(l), *final(tp)) == acked_spec(*old(l), *old(tp), *rx, *sample, now),
{
    if sample.rtt_us > 0 {
        tcp_lp_rtt_sample(l, rx, sample.rtt_us);
    }
    let delta = now.wrapping_sub(rx.rcv_tsecr);
    if 0 < delta && delta < 0x8000_0000 {
        l.inference = 3u32.wrapping_mul(delta);
    }
    let inf = l.last_drop != 0 && now.wrapping_sub(l.last_drop) < l.inference;
    if inf {
        l.flag = l.flag | LP_WITHIN_INF;
    } else {
        l.flag = l.flag & !LP_WITHIN_INF;
    }
    proof {
        vstd::bits::lemma_u32_shr_is_div(l.sowd, 3);
        vstd::bits::lemma_u32_shr_is_div(l.sowd, 2);
        vstd::bits::lemma_u32_shr_is_div(tp.snd_cwnd, 1);
        vstd::arithmetic::power2::lemma2_to64();
    }
    let thr = (l.sowd >> 3u32) < l.owd_min.wrapping_add(15u32.wrapping_mul(l.owd_max.wrapping_sub(l.owd_min)) / 100);
    let f = l.flag;
    if thr {
        l.flag = l.flag | LP_WITHIN_THR;
    } else {
        l.flag = l.flag & !LP_WITHIN_THR;
    }
    proof {
        lemma_flag(f, LP_WITHIN_THR, 0);
    }
    if l.flag & LP_WITHIN_THR != 0 {
        return;
    }
    l.owd_min = l.sowd >> 3u32;
    l.owd_max = l.sowd >> 2u32;
    l.owd_max_rsv = l.sowd >> 2u32;
    proof {
        lemma_flag(f, LP_WITHIN_THR, LP_WITHIN_INF);
        lemma_flag(l.flag, LP_WITHIN_INF, 0);
    }
    if inf {
        tp.snd_cwnd = 1;
    } else {
        tp.snd_cwnd = tp.snd_cwnd >> 1u32;
        if tp.snd_cwnd < 1 {
            tp.snd_cwnd = 1;
        }
    }
    l.last_drop = now;
}

/// TCP-LP's entry for the congestion control registry.
pub open spec fn lp_ops_spec() -> tcp_congestion_ops {
    tcp_congestion_ops {
        name: [108u8, 112u8, 0u8, 0u8, 0u8, 0u8, 0u8, 0u8, 0u8, 0u8, 0u8, 0u8, 0u8, 0u8, 0u8, 0u8],
        key: 0,
        flags: 0,
        has_ssthresh: true,
        has_cong_avoid: true,
        has_cong_control: false,
        has_cwnd_undo: true,
        owner: 0,
    }
}

fn lp_ops() -> (r: tcp_congestion_ops)
    ensures
        r == lp_ops_spec(),
{
    tcp_congestion_ops {
        name: [108u8, 112u8, 0u8, 0u8, 0u8, 0u8, 0u8, 0u8, 0u8, 0u8, 0u8, 0u8, 0u8, 0u8, 0u8, 0u8],
        key: 0,
        flags: 0,
        has_ssthresh: true,
        has_cong_avoid: true,
        has_cong_control: false,
        has_cwnd_undo: true,
        owner: 0,
    }
}

/// Register TCP-LP with the congestion control registry (the registry's
/// answer is returned).
pub fn tcp_lp_register(reg: &mut cong_registry) -> (r: i32)
    requires
        old(reg).wf(),
    ensures
        final(reg).wf(),
        name_key(lp_ops_spec().name@) != TCP_CA_UNSPEC && !has_key(old(reg).list@, name_key(lp_ops_spec().name@))
            ==> r == 0 && final(reg).list@ == old(reg).list@.push(tcp_congestion_ops { key: name_key(lp_ops_spec().name@), ..lp_ops_spec() }),
        name_key(lp_ops_spec().name@) == TCP_CA_UNSPEC || has_key(old(reg).list@, name_key(lp_ops_spec().name@))
            ==> r != 0 && final(reg).list@ == old(reg).list@,
{
    let ops = lp_ops();
    assert(complete(ops));
    tcp_register_congestion_control(reg, ops)
}

/// Remove TCP-LP from the registry.
pub fn tcp_lp_unregister(reg: &mut cong_registry)
    requires
        old(reg).wf(),
    ensures
        final(reg).wf(),
        !has_key(final(reg).list@, name_key(lp_ops_spec().name@)),
        forall|i: int| first_key(old(reg).list@, name_key(lp_ops_spec().name@), i) ==> final(reg).list@ == old(reg).list@.remove(i),
{
    let ops = lp_ops();
    let len = strnlen(&ops.name, 16);
    proof {
        lemma_cstr_prefix(ops.name@);
    }
    let key = jhash(&ops.name, len, len as u32);
    tcp_unregister_congestion_control(reg, key);
}

} // verus!
