//! TCP Illinois congestion control: the additive increase `alpha` and the
//! multiplicative decrease `beta` follow the queueing delay measured over
//! each round trip.
use vstd::prelude::*;
use crate::tcp_cong::{cong_registry, tcp_congestion_ops, tcp_register_congestion_control, tcp_unregister_congestion_control, jhash, complete, name_key, has_key, first_key, TCP_CA_UNSPEC};

verus! {

pub const ALPHA_SHIFT: u32 = 7;
pub const ALPHA_SCALE: u32 = 128;
/// About 0.3 in units of `ALPHA_SCALE`.
pub const ALPHA_MIN: u32 = 38;
/// 10.0 in units of `ALPHA_SCALE`.
pub const ALPHA_MAX: u32 = 1280;
pub const ALPHA_BASE: u32 = 128;
/// The largest RTT sample used (about 3.3 s): `u32::MAX / ALPHA_MAX`.
pub const RTT_MAX: u32 = 3355443;
pub const BETA_SHIFT: u32 = 6;
pub const BETA_SCALE: u32 = 64;
/// 0.125 in units of `BETA_SCALE`.
pub const BETA_MIN: u32 = 8;
/// 0.5 in units of `BETA_SCALE`.
pub const BETA_MAX: u32 = 32;
pub const BETA_BASE: u32 = 32;
/// Below this window alpha and beta stay at their base values.
pub const WIN_THRESH: u32 = 15;
/// Good RTTs awaited before alpha may return to its maximum.
pub const THETA: u8 = 5;
pub const TCP_CA_Loss: u8 = 3;
pub const INET_DIAG_VEGASINFO: i32 = 16;

/// Per-connection Illinois state.
pub struct illinois {
    pub sum_rtt: u64,
    pub cnt_rtt: u16,
    pub base_rtt: u32,
    pub max_rtt: u32,
    pub end_seq: u32,
    pub alpha: u32,
    pub beta: u32,
    pub acked: u16,
    pub rtt_above: u8,
    pub rtt_low: u8,
}

/// The window fields Illinois reads and writes.
pub struct tcp_sock {
    pub snd_nxt: u32,
    pub snd_cwnd: u32,
    pub snd_cwnd_cnt: u32,
    pub snd_cwnd_clamp: u32,
}

pub struct ack_sample {
    pub rtt_us: i32,
    pub pkts_acked: u16,
}

pub struct tcpvegas_info {
    pub tcpv_enabled: u32,
    pub tcpv_rttcnt: u16,
    pub tcpv_minrtt: u32,
    pub tcpv_rtt: u64,
}

/// Start a new round of RTT sampling at the next sequence number to send.
pub fn rtt_reset(ca: &mut illinois, tp: &tcp_sock)
    ensures
        *final(ca) == (illinois { end_seq: tp.snd_nxt, cnt_rtt: 0, sum_rtt: 0, ..*old(ca) }),
{
    ca.end_seq = tp.snd_nxt;
    ca.cnt_rtt = 0;
    ca.sum_rtt = 0;
}

/// Initial state: maximal alpha, base beta, no RTT seen.
pub fn tcp_illinois_init(ca: &mut illinois, tp: &tcp_sock)
    ensures
        *final(ca) == (illinois {
            alpha: ALPHA_MAX,
            beta: BETA_BASE,
            base_rtt: 0x7fffffff,
            max_rtt: 0,
            acked: 0,
            rtt_low: 0,
            rtt_above: 0,
            end_seq: tp.snd_nxt,
            cnt_rtt: 0,
            sum_rtt: 0,
        }),
{
    ca.alpha = ALPHA_MAX;
    ca.beta = BETA_BASE;
    ca.base_rtt = 0x7fffffff;
    ca.max_rtt = 0;
    ca.acked = 0;
    ca.rtt_low = 0;
    ca.rtt_above = 0;
    rtt_reset(ca, tp);
}

/// An RTT sample, capped at `RTT_MAX`.
pub open spec fn capped_rtt(rtt_us: i32) -> u32 {
    if rtt_us > RTT_MAX { RTT_MAX } else { rtt_us as u32 }
}

/// Take an RTT sample: remember how many packets the ACK covered; a valid
/// sample (capped at `RTT_MAX`) updates the minimum, the maximum, the count
/// and the sum.
pub fn tcp_illinois_acked(ca: &mut illinois, sample: &ack_sample)
    requires
        sample.rtt_us >= 0 ==> old(ca).sum_rtt + capped_rtt(sample.rtt_us) <= u64::MAX,
    ensures
        sample.rtt_us < 0 ==> *final(ca) == (illinois { acked: sample.pkts_acked, ..*old(ca) }),
        sample.rtt_us >= 0 ==> {
            let r = capped_rtt(sample.rtt_us);
            *final(ca) == (illinois {
                acked: sample.pkts_acked,
                base_rtt: if old(ca).base_rtt > r { r } else { old(ca).base_rtt },
                max_rtt: if old(ca).max_rtt < r { r } else { old(ca).max_rtt },
                cnt_rtt: if old(ca).cnt_rtt < u16::MAX { (old(ca).cnt_rtt + 1) as u16 } else { 0 },
                sum_rtt: (old(ca).sum_rtt + r) as u64,
                ..*old(ca)
            })
        },
{
    ca.acked = sample.pkts_acked;
    if sample.rtt_us < 0 {
        return;
    }
    let r: u32 = if sample.rtt_us > RTT_MAX as i32 { RTT_MAX } else { sample.rtt_us as u32 };
    if ca.base_rtt > r {
        ca.base_rtt = r;
    }
    if ca.max_rtt < r {
        ca.max_rtt = r;
    }
    ca.cnt_rtt = ca.cnt_rtt.wrapping_add(1);
    ca.sum_rtt = ca.sum_rtt + r as u64;
}

/// The largest queueing delay of the round: maximum less minimum RTT.
pub fn max_delay(ca: &illinois) -> (r: u32)
    requires
        ca.max_rtt >= ca.base_rtt,
    ensures
        r == ca.max_rtt - ca.base_rtt,
{
    ca.max_rtt - ca.base_rtt
}

/// The average queueing delay of the round: mean RTT (its low 32 bits) less
/// the minimum.
pub fn avg_delay(ca: &illinois) -> (r: u32)
    requires
        ca.cnt_rtt > 0,
        ((ca.sum_rtt / ca.cnt_rtt as u64) % 0x1_0000_0000) >= ca.base_rtt,
    ensures
        r == ((ca.sum_rtt / ca.cnt_rtt as u64) % 0x1_0000_0000) - ca.base_rtt,
{
    let t: u64 = ca.sum_rtt / (ca.cnt_rtt as u64);
    ((t % 0x1_0000_0000) as u32) - ca.base_rtt
}

/// Alpha for an average delay `da` and maximal delay `dm`, in the high-delay
/// zone: falls from `ALPHA_MAX` as the delay grows.
pub open spec fn alpha_curve(da: u32, dm: u32) -> int {
    let d1 = (dm / 100) as int;
    let m = dm - d1;
    let a = da - d1;
    (m * 1280) / (m + (a * 1242) / 38)
}

/// Alpha for the delays of the last round. At or below a hundredth of the
/// maximal delay the connection is in the low-delay zone: alpha is maximal
/// unless the delay was high before, in which case the current alpha is kept
/// while fewer than `THETA` good rounds were seen. Above it alpha follows
/// `alpha_curve` and the delay is marked high.
pub fn alpha(ca: &mut illinois, da: u32, dm: u32) -> (r: u32)
    requires
        da <= RTT_MAX,
        dm <= RTT_MAX,
    ensures
        da <= dm / 100 && old(ca).rtt_above == 0 ==> r == ALPHA_MAX && *final(ca) == *old(ca),
        da <= dm / 100 && old(ca).rtt_above != 0 && old(ca).rtt_low < THETA ==> r == old(ca).alpha && *final(ca) == *old(ca),
        da <= dm / 100 && old(ca).rtt_above != 0 && old(ca).rtt_low >= THETA ==> r == ALPHA_MAX
            && *final(ca) == (illinois { rtt_low: 0, rtt_above: 0, ..*old(ca) }),
        da > dm / 100 ==> r == alpha_curve(da, dm) && *final(ca) == (illinois { rtt_above: 1, ..*old(ca) }),
        old(ca).alpha <= ALPHA_MAX ==> r <= ALPHA_MAX,
{
    let d1 = dm / 100;
    if da <= d1 {
        if ca.rtt_above == 0 {
            return ALPHA_MAX;
        }
        if ca.rtt_low < THETA {
            return ca.alpha;
        }
        ca.rtt_low = 0;
        ca.rtt_above = 0;
        return ALPHA_MAX;
    }
    ca.rtt_above = 1;
    let m = dm - d1;
    let a = da - d1;
    proof {
        assert(m * ALPHA_MAX <= u32::MAX) by (nonlinear_arith)
            requires m <= RTT_MAX;
        assert(a * (ALPHA_MAX - ALPHA_MIN) <= u32::MAX) by (nonlinear_arith)
            requires a <= RTT_MAX;
        assert(a >= 1);
        assert((a * 1242) / 38 >= 1) by (nonlinear_arith)
            requires a >= 1;
    }
    let den: u32 = m + (a * (ALPHA_MAX - ALPHA_MIN)) / ALPHA_MIN;
    let r = (m * ALPHA_MAX) / den;
    proof {
        assert(den >= m);
        assert((m * 1280) / (den as int) <= 1280) by (nonlinear_arith)
            requires den >= m, den >= 1;
    }
    r
}

/// Beta for an average delay `da` and maximal delay `dm`: minimal up to a
/// tenth of the maximal delay, maximal from eight tenths on, linear between.
pub open spec fn beta_value(da: u32, dm: u32) -> int {
    let d2 = dm / 10;
    let d3 = (8 * dm) / 10;
    if da <= d2 {
        BETA_MIN as int
    } else if da >= d3 || d3 <= d2 {
        BETA_MAX as int
    } else {
        (BETA_MIN * d3 - BETA_MAX * d2 + (BETA_MAX - BETA_MIN) * da) / (d3 - d2)
    }
}

/// Beta for the delays of the last round (see `beta_value`).
pub fn beta(da: u32, dm: u32) -> (r: u32)
    requires
        dm <= RTT_MAX,
    ensures
        r == beta_value(da, dm),
        BETA_MIN <= r <= BETA_MAX,
{
    let d2 = dm / 10;
    if da <= d2 {
        return BETA_MIN;
    }
    let d3 = (8 * dm) / 10;
    if da >= d3 || d3 <= d2 {
        return BETA_MAX;
    }
    proof {
        assert(d3 >= 8 * d2) by (nonlinear_arith)
            requires d2 == dm / 10, d3 == (8 * dm) / 10;
        assert(BETA_MIN * d3 >= BETA_MAX * d2);
    }
    let num: u32 = BETA_MIN * d3 - BETA_MAX * d2 + (BETA_MAX - BETA_MIN) * da;
    let den: u32 = d3 - d2;
    proof {
        assert(num >= BETA_MIN * den) by (nonlinear_arith)
            requires num == BETA_MIN * d3 - BETA_MAX * d2 + (BETA_MAX - BETA_MIN) * da, den == d3 - d2, da > d2, d3 > d2;
        assert(num <= BETA_MAX * den) by (nonlinear_arith)
            requires num == BETA_MIN * d3 - BETA_MAX * d2 + (BETA_MAX - BETA_MIN) * da, den == d3 - d2, da < d3, d3 > d2;
        assert(num / den >= BETA_MIN) by (nonlinear_arith)
            requires num >= BETA_MIN * den, den > 0;
        assert(num / den <= BETA_MAX) by (nonlinear_arith)
            requires num <= BETA_MAX * den, den > 0;
    }
    num / den
}

/// The delays of the round are within bounds and consistent: the minimum is
/// at most the maximum and the mean, and all are capped samples.
pub open spec fn delays_ok(ca: illinois) -> bool {
    &&& ca.cnt_rtt > 0
    &&& ca.base_rtt <= ca.max_rtt <= RTT_MAX
    &&& ca.base_rtt <= (ca.sum_rtt / ca.cnt_rtt as u64) % 0x1_0000_0000
    &&& (ca.sum_rtt / ca.cnt_rtt as u64) % 0x1_0000_0000 - ca.base_rtt <= RTT_MAX
}

/// At the end of a round: below `WIN_THRESH` alpha and beta return to their
/// base values; otherwise, if RTTs were sampled, they follow the delays.
/// Sampling restarts.
pub fn update_params(ca: &mut illinois, tp: &tcp_sock)
    requires
        tp.snd_cwnd >= WIN_THRESH && old(ca).cnt_rtt > 0 ==> delays_ok(*old(ca)),
    ensures
        final(ca).end_seq == tp.snd_nxt,
        final(ca).cnt_rtt == 0,
        final(ca).sum_rtt == 0,
        tp.snd_cwnd < WIN_THRESH ==> final(ca).alpha == ALPHA_BASE && final(ca).beta == BETA_BASE,
        tp.snd_cwnd >= WIN_THRESH && old(ca).cnt_rtt == 0 ==> final(ca).alpha == old(ca).alpha
            && final(ca).beta == old(ca).beta,
        tp.snd_cwnd >= WIN_THRESH && old(ca).cnt_rtt > 0 ==> final(ca).beta == beta_value(
            ((old(ca).sum_rtt / old(ca).cnt_rtt as u64) % 0x1_0000_0000 - old(ca).base_rtt) as u32,
            (old(ca).max_rtt - old(ca).base_rtt) as u32),
        BETA_MIN <= old(ca).beta <= BETA_MAX ==> BETA_MIN <= final(ca).beta <= BETA_MAX,
        old(ca).alpha <= ALPHA_MAX ==> final(ca).alpha <= ALPHA_MAX,
{
    if tp.snd_cwnd < WIN_THRESH {
        ca.alpha = ALPHA_BASE;
        ca.beta = BETA_BASE;
    } else if ca.cnt_rtt > 0 {
        let dm = max_delay(ca);
        let da = avg_delay(ca);
        let a = alpha(ca, da, dm);
        ca.alpha = a;
        ca.beta = beta(da, dm);
    }
    rtt_reset(ca, tp);
}

/// Entering loss recovery resets alpha, beta and the delay history.
pub fn tcp_illinois_state(ca: &mut illinois, tp: &tcp_sock, new_state: u8)
    ensures
        new_state == TCP_CA_Loss ==> *final(ca) == (illinois {
            alpha: ALPHA_BASE,
            beta: BETA_BASE,
            rtt_low: 0,
            rtt_above: 0,
            end_seq: tp.snd_nxt,
            cnt_rtt: 0,
            sum_rtt: 0,
            ..*old(ca)
        }),
        new_state != TCP_CA_Loss ==> *final(ca) == *old(ca),
{
    if new_state == TCP_CA_Loss {
        ca.alpha = ALPHA_BASE;
        ca.beta = BETA_BASE;
        ca.rtt_low = 0;
        ca.rtt_above = 0;
        rtt_reset(ca, tp);
    }
}

/// The slow-start threshold after a loss: the window less a `beta` share of
/// it.
pub fn tcp_illinois_ssthresh(ca: &illinois, tp: &tcp_sock) -> (r: u32)
    requires
        ca.beta <= BETA_SCALE,
        tp.snd_cwnd * ca.beta <= u32::MAX,
    ensures
        r == tp.snd_cwnd - (tp.snd_cwnd * ca.beta) / 64,
{
    let cwnd = tp.snd_cwnd;
    let reduction = (cwnd * ca.beta) / 64;
    proof {
        assert((cwnd * ca.beta) / 64 <= cwnd) by (nonlinear_arith)
            requires ca.beta <= 64;
    }
    cwnd - reduction
}

/// Illinois never cuts the window by more than half: with beta at most
/// `BETA_MAX`, the threshold keeps at least half the window.
pub proof fn illinois_ssthresh_keeps_half(cwnd: u32, beta: u32)
    requires
        beta <= BETA_MAX,
    ensures
        cwnd - (cwnd * beta) / 64 >= cwnd / 2,
{
    assert((cwnd * beta) / 64 <= cwnd / 2) by (nonlinear_arith)
        requires beta <= 32;
}

/// Window growth on an ACK of `acked` packets for `ack`. A round ends when the
/// ACK passes the sequence number the round started at (a plain comparison
/// here). Below ten packets the window grows by the packets acknowledged;
/// above, by the alpha-weighted count divided by the window, once that count
/// reaches the window.
pub fn tcp_illinois_cong_avoid(ca: &mut illinois, tp: &mut tcp_sock, ack: u32, acked: u16)
    requires
        old(ca).alpha <= ALPHA_MAX,
        ack > old(ca).end_seq && old(tp).snd_cwnd >= WIN_THRESH && old(ca).cnt_rtt > 0 ==> delays_ok(*old(ca)),
        old(tp).snd_cwnd < 10 ==> old(tp).snd_cwnd + acked <= u32::MAX,
        old(tp).snd_cwnd >= 10 ==> old(tp).snd_cwnd_cnt * ALPHA_MAX <= u32::MAX,
        old(tp).snd_cwnd >= 10 ==> old(tp).snd_cwnd + old(tp).snd_cwnd_cnt * ALPHA_MAX / 128 <= u32::MAX,
    ensures
        final(tp).snd_nxt == old(tp).snd_nxt,
        final(tp).snd_cwnd_clamp == old(tp).snd_cwnd_clamp,
        old(tp).snd_cwnd < 10 ==> final(tp).snd_cwnd == old(tp).snd_cwnd + acked
            && final(tp).snd_cwnd_cnt == old(tp).snd_cwnd_cnt,
        old(tp).snd_cwnd >= 10 ==> {
            let delta = (old(tp).snd_cwnd_cnt * final(ca).alpha) / 128;
            if delta >= old(tp).snd_cwnd {
                final(tp).snd_cwnd == old(tp).snd_cwnd + delta / (old(tp).snd_cwnd as int) && final(tp).snd_cwnd_cnt == 0
            } else {
                final(tp).snd_cwnd == old(tp).snd_cwnd && final(tp).snd_cwnd_cnt == old(tp).snd_cwnd_cnt
            }
        },
        ack > old(ca).end_seq ==> final(ca).end_seq == old(tp).snd_nxt && final(ca).cnt_rtt == 0,
        !(ack > old(ca).end_seq) ==> *final(ca) == *old(ca),
{
    if ack > ca.end_seq {
        update_params(ca, tp);
    }
    if tp.snd_cwnd < 10 {
        tp.snd_cwnd = tp.snd_cwnd + acked as u32;
    } else {
        let cnt = tp.snd_cwnd_cnt;
        let al = ca.alpha;
        proof {
            assert(cnt * al <= cnt * ALPHA_MAX) by (nonlinear_arith)
                requires al <= ALPHA_MAX;
            assert((cnt * al) / 128 <= (cnt * ALPHA_MAX) / 128) by (nonlinear_arith)
                requires cnt * al <= cnt * ALPHA_MAX;
            assert(((cnt * al) / 128) / (tp.snd_cwnd as int) <= (cnt * al) / 128) by (nonlinear_arith)
                requires tp.snd_cwnd >= 10;
        }
        let delta = (tp.snd_cwnd_cnt * ca.alpha) / 128;
        if delta >= tp.snd_cwnd {
            tp.snd_cwnd = tp.snd_cwnd + delta / tp.snd_cwnd;
            tp.snd_cwnd_cnt = 0;
        }
    }
}

/// Report the RTT statistics when the Vegas information is asked for in
/// `ext`: the sample count, the minimum and the mean RTT.
pub fn tcp_illinois_info(ca: &illinois, ext: u32) -> (r: Option<tcpvegas_info>)
    ensures
        ext & 0x8000 == 0 ==> r is None,
        ext & 0x8000 != 0 ==> r == Some(tcpvegas_info {
            tcpv_enabled: 1,
            tcpv_rttcnt: ca.cnt_rtt,
            tcpv_minrtt: ca.base_rtt,
            tcpv_rtt: if ca.cnt_rtt > 0 { ca.sum_rtt / ca.cnt_rtt as u64 } else { 0 },
        }),
{
    if ext & 0x8000 == 0 {
        return None;
    }
    let rtt: u64 = if ca.cnt_rtt > 0 { ca.sum_rtt / (ca.cnt_rtt as u64) } else { 0 };
    Some(tcpvegas_info { tcpv_enabled: 1, tcpv_rttcnt: ca.cnt_rtt, tcpv_minrtt: ca.base_rtt, tcpv_rtt: rtt })
}

/// Illinois as a congestion control algorithm: slow-start threshold,
/// window growth and undo, under the name "illinois".
pub open spec fn illinois_ops_spec() -> tcp_congestion_ops {
    tcp_congestion_ops {
        name: [105u8, 108u8, 108u8, 105u8, 110u8, 111u8, 105u8, 115u8, 0u8, 0u8, 0u8, 0u8, 0u8, 0u8, 0u8, 0u8],
        key: 0,
        flags: 0,
        has_ssthresh: true,
        has_cong_avoid: true,
        has_cong_control: false,
        has_cwnd_undo: true,
        owner: 0,
    }
}

fn illinois_ops() -> (r: tcp_congestion_ops)
    ensures
        r == illinois_ops_spec(),
{
    tcp_congestion_ops {
        name: [105u8, 108u8, 108u8, 105u8, 110u8, 111u8, 105u8, 115u8, 0u8, 0u8, 0u8, 0u8, 0u8, 0u8, 0u8, 0u8],
        key: 0,
        flags: 0,
        has_ssthresh: true,
        has_cong_avoid: true,
        has_cong_control: false,
        has_cwnd_undo: true,
        owner: 0,
    }
}

/// Register Illinois with the congestion control registry. The registry's
/// answer is not passed on: the result is always 0.
pub fn tcp_illinois_register(reg: &mut cong_registry) -> (r: i32)
    requires
        old(reg).wf(),
    ensures
        r == 0,
        final(reg).wf(),
        name_key(illinois_ops_spec().name@) != TCP_CA_UNSPEC && !has_key(old(reg).list@, name_key(illinois_ops_spec().name@))
            ==> final(reg).list@ == old(reg).list@.push(tcp_congestion_ops { key: name_key(illinois_ops_spec().name@), ..illinois_ops_spec() }),
        name_key(illinois_ops_spec().name@) == TCP_CA_UNSPEC || has_key(old(reg).list@, name_key(illinois_ops_spec().name@))
            ==> final(reg).list@ == old(reg).list@,
{
    let ops = illinois_ops();
    assert(complete(ops));
    let _ = tcp_register_congestion_control(reg, ops);
    0
}

/// Remove Illinois from the registry.
pub fn tcp_illinois_unregister(reg: &mut cong_registry)
    requires
        old(reg).wf(),
    ensures
        final(reg).wf(),
        !has_key(final(reg).list@, name_key(illinois_ops_spec().name@)),
        forall|i: int| first_key(old(reg).list@, name_key(illinois_ops_spec().name@), i) ==> final(reg).list@ == old(reg).list@.remove(i),
{
    let ops = illinois_ops();
    let len = crate::tcp_cong::strnlen(&ops.name, 16);
    proof {
        crate::tcp_cong::lemma_cstr_prefix(ops.name@);
    }
    let key = jhash(&ops.name, len, len as u32);
    tcp_unregister_congestion_control(reg, key);
}

} // verus!
