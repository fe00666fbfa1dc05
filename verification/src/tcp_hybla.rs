//! TCP Hybla: congestion window growth made independent of the round-trip
//! time, by scaling it with the ratio of the RTT to a reference RTT.
use vstd::prelude::*;
use crate::tcp_cong::{cong_registry, tcp_congestion_ops, tcp_register_congestion_control, tcp_unregister_congestion_control, jhash, complete, name_key, has_key, first_key, TCP_CA_UNSPEC, lemma_cstr_prefix, strnlen, reno_cong_avoid, tcp_reno_cong_avoid};

verus! {

pub const EINVAL: i32 = -22;
pub const ENOMEM: i32 = -12;
pub const ENOSYS: i32 = -38;
pub const USEC_PER_MSEC: u32 = 1000;
pub const TCP_CA_OPEN: u8 = 0;

/// Hybla's per-connection state: whether it is active, the fractional
/// window growth carried over (in 128ths), the RTT ratio rho (whole, and
/// times 8), rho squared (whole, and times 128), and the least smoothed
/// RTT seen.
pub struct hybla {
    pub hybla_en: bool,
    pub snd_cwnd_cents: u32,
    pub rho: u32,
    pub rho2: u32,
    pub rho_3ls: u32,
    pub rho2_7ls: u32,
    pub minrtt_us: u32,
}

/// The module parameter: the reference RTT, in milliseconds.
pub struct hybla_params {
    pub rtt0: i32,
}

/// The connection fields Hybla reads and moves.
pub struct tcp_sock {
    pub srtt_us: u32,
    pub snd_cwnd: u32,
    pub snd_cwnd_clamp: u32,
    pub snd_cwnd_cnt: u32,
    pub snd_ssthresh: u32,
}

pub fn rtt0_get(p: &hybla_params) -> (r: i32)
    ensures
        r == p.rtt0,
{
    p.rtt0
}

pub fn rtt0_set(p: &mut hybla_params, val: i32)
    ensures
        final(p).rtt0 == val,
{
    p.rtt0 = val;
}

pub fn module_param_rtt0(p: &mut hybla_params, val: i32)
    ensures
        final(p).rtt0 == val,
{
    p.rtt0 = val;
}

/// The reference RTT is positive and in range.
pub open spec fn params_ok(p: hybla_params) -> bool {
    0 < p.rtt0 <= 4_000_000
}

/// Rho times 8: the smoothed RTT over the reference RTT, at least 8.
pub open spec fn rho_3ls_of(srtt_us: u32, rtt0: i32) -> u32 {
    let q: int = srtt_us as int / (rtt0 as int * 1000);
    if q < 8 { 8 } else { q as u32 }
}

/// The parameters for a smoothed RTT.
pub open spec fn recalc(ca: hybla, srtt_us: u32, rtt0: i32) -> hybla {
    let r3 = rho_3ls_of(srtt_us, rtt0);
    let r27: int = r3 * r3 * 2;
    hybla { rho_3ls: r3, rho: r3 / 8, rho2_7ls: r27 as u32, rho2: (r27 / 128) as u32, ..ca }
}

/// Rho squared times 128 fits in 32 bits.
pub open spec fn rho_fits(srtt_us: u32, rtt0: i32) -> bool {
    rho_3ls_of(srtt_us, rtt0) * rho_3ls_of(srtt_us, rtt0) * 2 <= u32::MAX
}

pub fn hybla_recalc_param(ca: &mut hybla, tp: &tcp_sock, p: &hybla_params)
    requires
        params_ok(*p),
        rho_fits(tp.srtt_us, p.rtt0),
    ensures
        *final(ca) == recalc(*old(ca), tp.srtt_us, p.rtt0),
{
    let unit: u32 = (p.rtt0 as u32) * USEC_PER_MSEC;
    let q = tp.srtt_us / unit;
    ca.rho_3ls = if q < 8 { 8 } else { q };
    ca.rho = ca.rho_3ls >> 3u32;
    let sq: u32 = ca.rho_3ls * ca.rho_3ls;
    ca.rho2_7ls = sq << 1u32;
    proof {
        vstd::arithmetic::power2::lemma2_to64();
        vstd::bits::lemma_u32_shr_is_div(ca.rho_3ls, 3);
        vstd::bits::lemma_u32_shl_is_mul(sq, 1);
        vstd::bits::lemma_u32_shr_is_div(ca.rho2_7ls, 7);
    }
    ca.rho2 = ca.rho2_7ls >> 7u32;
}

/// Start a connection: Hybla on, nothing carried over, rho from the
/// initial smoothed RTT (which is the least seen so far), the clamp at
/// 65535 and the window at rho.
pub fn hybla_init(ca: &mut hybla, tp: &mut tcp_sock, p: &hybla_params)
    requires
        params_ok(*p),
        rho_fits(old(tp).srtt_us, p.rtt0),
    ensures
        *final(ca) == recalc(hybla { hybla_en: true, snd_cwnd_cents: 0, minrtt_us: old(tp).srtt_us, ..*old(ca) }, old(tp).srtt_us, p.rtt0),
        *final(tp) == (tcp_sock { snd_cwnd: rho_3ls_of(old(tp).srtt_us, p.rtt0) / 8, snd_cwnd_clamp: 65535, ..*old(tp) }),
{
    ca.rho = 0;
    ca.rho2 = 0;
    ca.rho_3ls = 0;
    ca.rho2_7ls = 0;
    ca.snd_cwnd_cents = 0;
    ca.hybla_en = true;
    tp.snd_cwnd = 2;
    tp.snd_cwnd_clamp = 65535;
    hybla_recalc_param(ca, tp, p);
    ca.minrtt_us = tp.srtt_us;
    tp.snd_cwnd = ca.rho;
}

/// Hybla works only while the connection is in the open state.
pub fn hybla_state(ca: &mut hybla, ca_state: u8)
    ensures
        *final(ca) == (hybla { hybla_en: ca_state == TCP_CA_OPEN, ..*old(ca) }),
{
    ca.hybla_en = ca_state == TCP_CA_OPEN;
}

/// 128 times 2 to the power `odds`/8, for `odds` below 8 (128 otherwise).
pub open spec fn fraction(odds: u32) -> u32 {
    if odds == 0 { 128 } else if odds == 1 { 139 } else if odds == 2 { 152 } else if odds == 3 { 165 }
    else if odds == 4 { 181 } else if odds == 5 { 197 } else if odds == 6 { 215 } else if odds == 7 { 234 } else { 128 }
}

pub fn hybla_fraction(odds: u32) -> (r: u32)
    ensures
        r == fraction(odds),
        128 <= r <= 234,
{
    let fractions: [u32; 8] = [128, 139, 152, 165, 181, 197, 215, 234];
    if odds < 8 {
        fractions[odds as usize]
    } else {
        128
    }
}

/// The window growth for an ACK, in 128ths of a packet: in slow start,
/// 2 to the power rho (rho at most 16) less one; else rho squared over
/// the window.
pub open spec fn increment(ca: hybla, tp: tcp_sock) -> u32 {
    if tp.snd_cwnd < tp.snd_ssthresh {
        let r = if ca.rho < 16 { ca.rho } else { 16 };
        (((1u32 << r) * fraction((ca.rho_3ls - ca.rho * 8) as u32)) - 128) as u32
    } else {
        ca.rho2_7ls / tp.snd_cwnd
    }
}

/// The growth step of Hybla proper: the window gains the whole packets of
/// the increment and the carried fractions that reach a packet; a small
/// increment in congestion avoidance counts towards a Reno-like step when
/// nothing else grew the window; slow start stops at the threshold and the
/// clamp bounds the window.
pub open spec fn grow(ca: hybla, tp: tcp_sock) -> (hybla, tcp_sock) {
    let ss = tp.snd_cwnd < tp.snd_ssthresh;
    let inc = increment(ca, tp);
    let cnt0: int = if !ss && inc < 128 { tp.snd_cwnd_cnt + 1 } else { tp.snd_cwnd_cnt as int };
    let odd: int = (inc % 128) as int;
    let cents: int = ca.snd_cwnd_cents + odd;
    let whole: int = cents / 128;
    let cwnd0: int = tp.snd_cwnd + inc / 128 + whole;
    let cnt1: int = if whole > 0 { 0 } else { cnt0 };
    let bump = inc == 0 && odd == 0 && cnt1 >= cwnd0;
    let cwnd1: int = if bump { cwnd0 + 1 } else { cwnd0 };
    let cnt2: int = if bump { 0 } else { cnt1 };
    let cwnd2: int = if ss && tp.snd_ssthresh < cwnd1 { tp.snd_ssthresh as int } else { cwnd1 };
    let cwnd3: int = if tp.snd_cwnd_clamp < cwnd2 { tp.snd_cwnd_clamp as int } else { cwnd2 };
    (hybla { snd_cwnd_cents: (cents % 128) as u32, ..ca }, tcp_sock { snd_cwnd: cwnd3 as u32, snd_cwnd_cnt: cnt2 as u32, ..tp })
}

/// The Reno view of the connection's window.
pub open spec fn as_reno(tp: tcp_sock) -> crate::tcp_cong::tcp_sock {
    crate::tcp_cong::tcp_sock { snd_cwnd: tp.snd_cwnd, snd_ssthresh: tp.snd_ssthresh, snd_cwnd_cnt: tp.snd_cwnd_cnt, snd_cwnd_clamp: tp.snd_cwnd_clamp }
}

/// On an ACK: a new least RTT updates rho. While the window limits
/// sending, Hybla grows it (rho recomputed first if it is zero), or Reno
/// does when Hybla is off.
pub open spec fn cong_avoid_spec(ca: hybla, tp: tcp_sock, rtt0: i32, acked: u32, cwnd_limited: bool) -> (hybla, tcp_sock) {
    let ca1 = if tp.srtt_us < ca.minrtt_us { hybla { minrtt_us: tp.srtt_us, ..recalc(ca, tp.srtt_us, rtt0) } } else { ca };
    if !cwnd_limited {
        (ca1, tp)
    } else if !ca1.hybla_en {
        let r = reno_cong_avoid(as_reno(tp), acked, true);
        (ca1, tcp_sock { snd_cwnd: r.snd_cwnd, snd_cwnd_cnt: r.snd_cwnd_cnt, ..tp })
    } else {
        let ca2 = if ca1.rho == 0 { recalc(ca1, tp.srtt_us, rtt0) } else { ca1 };
        grow(ca2, tp)
    }
}

/// Rho is the whole part of rho times 8.
pub open spec fn rho_consistent(ca: hybla) -> bool {
    ca.rho == ca.rho_3ls / 8
}

/// The sizes under which Hybla's window arithmetic stays within 32 bits.
pub open spec fn sizes_fit(ca: hybla, tp: tcp_sock) -> bool {
    &&& 0 < tp.snd_cwnd <= tp.snd_cwnd_clamp
    &&& tp.snd_cwnd_clamp < u32::MAX / 2
    &&& tp.snd_cwnd_cnt <= u32::MAX / 4
    &&& ca.snd_cwnd_cents <= u32::MAX / 4
}

fn hybla_grow(ca: &mut hybla, tp: &mut tcp_sock)
    requires
        rho_consistent(*old(ca)),
        sizes_fit(*old(ca), *old(tp)),
    ensures
        (*final(ca), *final(tp)) == grow(*old(ca), *old(tp)),
{
    let ss = tp.snd_cwnd < tp.snd_ssthresh;
    let inc: u32 = if ss {
        let r: u32 = if ca.rho < 16 { ca.rho } else { 16 };
        proof {
            vstd::arithmetic::power2::lemma2_to64();
            vstd::bits::lemma_u32_shl_is_mul(ca.rho, 3);
        }
        let fr = hybla_fraction(ca.rho_3ls - (ca.rho << 3u32));
        let sh: u32 = 1u32 << r;
        assert(sh <= 65536 && sh >= 1) by (bit_vector)
            requires
                r <= 16,
                sh == 1u32 << r,
        ;
        assert(sh * fr <= 65536 * 234 && sh * fr >= 128) by (nonlinear_arith)
            requires
                1 <= sh <= 65536,
                128 <= fr <= 234,
        ;
        sh * fr - 128
    } else {
        ca.rho2_7ls / tp.snd_cwnd
    };
    let mut cnt = tp.snd_cwnd_cnt;
    if !ss && inc < 128 {
        cnt = cnt + 1;
    }
    let odd = inc % 128;
    let mut cwnd = tp.snd_cwnd + inc / 128;
    let mut cents = ca.snd_cwnd_cents + odd;
    let ghost cents0: int = cents as int;
    let ghost base: int = cwnd as int;
    let ghost cnt0: int = cnt as int;
    while cents >= 128
        invariant
            cents0 <= u32::MAX / 4 + 128,
            base <= u32::MAX / 2 + 0x200_0000,
            cents as int + 128 * (cwnd - base) == cents0,
            cwnd >= base,
            cnt as int == if cwnd > base { 0 } else { cnt0 },
        decreases cents,
    {
        cwnd = cwnd + 1;
        cents = cents - 128;
        cnt = 0;
    }
    proof {
        let k: int = cwnd - base;
        assert(k == cents0 / 128 && cents as int == cents0 % 128) by (nonlinear_arith)
            requires
                cents as int + 128 * k == cents0,
                0 <= cents < 128,
        ;
    }
    if inc == 0 && odd == 0 && cnt >= cwnd {
        cwnd = cwnd + 1;
        cnt = 0;
    }
    if ss && tp.snd_ssthresh < cwnd {
        cwnd = tp.snd_ssthresh;
    }
    if tp.snd_cwnd_clamp < cwnd {
        cwnd = tp.snd_cwnd_clamp;
    }
    ca.snd_cwnd_cents = cents;
    tp.snd_cwnd = cwnd;
    tp.snd_cwnd_cnt = cnt;
}

pub fn hybla_cong_avoid(ca: &mut hybla, tp: &mut tcp_sock, p: &hybla_params, ack: u32, acked: u32, cwnd_limited: bool)
    requires
        params_ok(*p),
        rho_fits(old(tp).srtt_us, p.rtt0),
        rho_consistent(*old(ca)),
        sizes_fit(*old(ca), *old(tp)),
        acked <= u32::MAX / 4,
    ensures
        (*final(ca), *final(tp)) == cong_avoid_spec(*old(ca), *old(tp), p.rtt0, acked, cwnd_limited),
{
    if tp.srtt_us < ca.minrtt_us {
        hybla_recalc_param(ca, tp, p);
        ca.minrtt_us = tp.srtt_us;
    }
    if !cwnd_limited {
        return;
    }
    if !ca.hybla_en {
        let mut r = crate::tcp_cong::tcp_sock {
            snd_cwnd: tp.snd_cwnd,
            snd_ssthresh: tp.snd_ssthresh,
            snd_cwnd_cnt: tp.snd_cwnd_cnt,
            snd_cwnd_clamp: tp.snd_cwnd_clamp,
        };
        tcp_reno_cong_avoid(&mut r, ack, acked, true);
        tp.snd_cwnd = r.snd_cwnd;
        tp.snd_cwnd_cnt = r.snd_cwnd_cnt;
        return;
    }
    if ca.rho == 0 {
        hybla_recalc_param(ca, tp, p);
    }
    hybla_grow(ca, tp);
}

/// Hybla's entry for the congestion control registry.
pub open spec fn hybla_ops_spec() -> tcp_congestion_ops {
    tcp_congestion_ops {
        name: [104u8, 121u8, 98u8, 108u8, 97u8, 0u8, 0u8, 0u8, 0u8, 0u8, 0u8, 0u8, 0u8, 0u8, 0u8, 0u8],
        key: 0,
        flags: 0,
        has_ssthresh: true,
        has_cong_avoid: true,
        has_cong_control: false,
        has_cwnd_undo: true,
        owner: 0,
    }
}

fn hybla_ops() -> (r: tcp_congestion_ops)
    ensures
        r == hybla_ops_spec(),
{
    tcp_congestion_ops {
        name: [104u8, 121u8, 98u8, 108u8, 97u8, 0u8, 0u8, 0u8, 0u8, 0u8, 0u8, 0u8, 0u8, 0u8, 0u8, 0u8],
        key: 0,
        flags: 0,
        has_ssthresh: true,
        has_cong_avoid: true,
        has_cong_control: false,
        has_cwnd_undo: true,
        owner: 0,
    }
}

/// Register Hybla with the congestion control registry (the registry's
/// answer is returned).
pub fn hybla_register(reg: &mut cong_registry) -> (r: i32)
    requires
        old(reg).wf(),
    ensures
        final(reg).wf(),
        name_key(hybla_ops_spec().name@) != TCP_CA_UNSPEC && !has_key(old(reg).list@, name_key(hybla_ops_spec().name@))
            ==> r == 0 && final(reg).list@ == old(reg).list@.push(tcp_congestion_ops { key: name_key(hybla_ops_spec().name@), ..hybla_ops_spec() }),
        name_key(hybla_ops_spec().name@) == TCP_CA_UNSPEC || has_key(old(reg).list@, name_key(hybla_ops_spec().name@))
            ==> r != 0 && final(reg).list@ == old(reg).list@,
{
    let ops = hybla_ops();
    assert(complete(ops));
    tcp_register_congestion_control(reg, ops)
}

/// Remove Hybla from the registry.
pub fn hybla_unregister(reg: &mut cong_registry)
    requires
        old(reg).wf(),
    ensures
        final(reg).wf(),
        !has_key(final(reg).list@, name_key(hybla_ops_spec().name@)),
        forall|i: int| first_key(old(reg).list@, name_key(hybla_ops_spec().name@), i) ==> final(reg).list@ == old(reg).list@.remove(i),
{
    let ops = hybla_ops();
    let len = strnlen(&ops.name, 16);
    proof {
        lemma_cstr_prefix(ops.name@);
    }
    let key = jhash(&ops.name, len, len as u32);
    tcp_unregister_congestion_control(reg, key);
}


/// While Hybla runs and the window limits sending, an ACK in slow start
/// (window below the threshold) never takes the window past the slow-start
/// threshold, and never shrinks it.
pub proof fn hybla_slow_start_stops_at_ssthresh(ca: hybla, tp: tcp_sock, rtt0: i32, acked: u32)
    requires
        ca.hybla_en,
        tp.snd_cwnd < tp.snd_ssthresh,
        tp.snd_cwnd <= tp.snd_cwnd_clamp,
    ensures
        cong_avoid_spec(ca, tp, rtt0, acked, true).1.snd_cwnd <= tp.snd_ssthresh,
        cong_avoid_spec(ca, tp, rtt0, acked, true).1.snd_cwnd >= tp.snd_cwnd,
{
    let ca1 = if tp.srtt_us < ca.minrtt_us { hybla { minrtt_us: tp.srtt_us, ..recalc(ca, tp.srtt_us, rtt0) } } else { ca };
    let ca2 = if ca1.rho == 0 { recalc(ca1, tp.srtt_us, rtt0) } else { ca1 };
    hybla_grow_slow_start(ca2, tp);
}

/// Hybla's growth step in slow start ends between the window it started
/// from and the slow-start threshold.
pub proof fn hybla_grow_slow_start(ca: hybla, tp: tcp_sock)
    requires
        tp.snd_cwnd < tp.snd_ssthresh,
        tp.snd_cwnd <= tp.snd_cwnd_clamp,
    ensures
        tp.snd_cwnd <= grow(ca, tp).1.snd_cwnd <= tp.snd_ssthresh,
{
    let inc = increment(ca, tp);
    let odd: int = (inc % 128) as int;
    let cents: int = ca.snd_cwnd_cents + odd;
    assert(cents / 128 >= 0) by (nonlinear_arith)
        requires cents >= 0;
    assert(inc / 128 >= 0);
}


/// While Hybla runs and the window limits sending, an ACK never takes the
/// window past its clamp nor shrinks it.
pub proof fn hybla_window_within_clamp(ca: hybla, tp: tcp_sock, rtt0: i32, acked: u32)
    requires
        ca.hybla_en,
        tp.snd_cwnd <= tp.snd_cwnd_clamp,
    ensures
        tp.snd_cwnd <= cong_avoid_spec(ca, tp, rtt0, acked, true).1.snd_cwnd <= tp.snd_cwnd_clamp,
{
    let ca1 = if tp.srtt_us < ca.minrtt_us { hybla { minrtt_us: tp.srtt_us, ..recalc(ca, tp.srtt_us, rtt0) } } else { ca };
    let ca2 = if ca1.rho == 0 { recalc(ca1, tp.srtt_us, rtt0) } else { ca1 };
    let inc = increment(ca2, tp);
    let odd: int = (inc % 128) as int;
    let cents: int = ca2.snd_cwnd_cents + odd;
    assert(cents / 128 >= 0) by (nonlinear_arith)
        requires cents >= 0;
}

} // verus!
