//! TCP New Vegas: per-connection state set-up, the bounds RTT samples are
//! clamped to, and reactions to congestion-state changes.
use vstd::prelude::*;

verus! {

pub const NV_INIT_RTT: u32 = 0xffff_ffff;
pub const NV_MIN_CWND: u8 = 4;
pub const NV_MIN_CWND_GROW: u8 = 2;
pub const NV_TSO_CWND_BOUND: u8 = 80;
/// Congestion states.
pub const TCP_CA_Open: u8 = 0;
pub const TCP_CA_CWR: u8 = 2;
pub const TCP_CA_Recovery: u8 = 3;
pub const TCP_CA_Loss: u8 = 4;
/// How fast the window-growth factor falls after losses.
pub const NV_CWND_GROWTH_RATE_NEG: i32 = 8;

/// Per-connection New Vegas state.
pub struct tcpnv {
    pub nv_min_rtt_reset_jiffies: u64,
    pub cwnd_growth_factor: i8,
    pub nv_allow_cwnd_growth: u8,
    pub nv_reset: u8,
    pub nv_catchup: u8,
    pub nv_eval_call_cnt: u8,
    pub nv_min_cwnd: u8,
    pub nv_rtt_cnt: u8,
    pub nv_last_rtt: u32,
    pub nv_min_rtt: u32,
    pub nv_min_rtt_new: u32,
    pub nv_base_rtt: u32,
    pub nv_lower_bound_rtt: u32,
    pub nv_rtt_max_rate: u32,
    pub nv_rtt_start_seq: u32,
    pub nv_last_snd_una: u32,
    pub nv_no_cong_cnt: u32,
}

/// Forget the measurements of the current evaluation period.
pub fn tcpnv_reset(ca: &mut tcpnv)
    ensures
        *final(ca) == (tcpnv {
            nv_reset: 0,
            nv_no_cong_cnt: 0,
            nv_rtt_cnt: 0,
            nv_last_rtt: 0,
            nv_rtt_max_rate: 0,
            nv_rtt_start_seq: 0,
            nv_eval_call_cnt: 0,
            nv_last_snd_una: 0,
            ..*old(ca)
        }),
{
    ca.nv_reset = 0;
    ca.nv_no_cong_cnt = 0;
    ca.nv_rtt_cnt = 0;
    ca.nv_last_rtt = 0;
    ca.nv_rtt_max_rate = 0;
    ca.nv_rtt_start_seq = 0;
    ca.nv_eval_call_cnt = 0;
    ca.nv_last_snd_una = 0;
}

/// Set up a connection. `base_rtt` is what the socket's BPF program gives as
/// the congestion threshold (none when not positive); the lower bound is 80%
/// of it.
pub fn tcpnv_init(ca: &mut tcpnv, base_rtt: i32)
    requires
        base_rtt > 0 ==> base_rtt * 205 <= u32::MAX,
    ensures
        final(ca).nv_base_rtt == (if base_rtt > 0 { base_rtt as u32 } else { 0 }),
        final(ca).nv_lower_bound_rtt == (if base_rtt > 0 { ((base_rtt * 205) / 256) as u32 } else { 0 }),
        final(ca).nv_allow_cwnd_growth == 1,
        final(ca).nv_min_rtt_reset_jiffies == 0,
        final(ca).nv_min_rtt == NV_INIT_RTT,
        final(ca).nv_min_rtt_new == NV_INIT_RTT,
        final(ca).nv_min_cwnd == NV_MIN_CWND,
        final(ca).nv_catchup == 0,
        final(ca).cwnd_growth_factor == 0,
        final(ca).nv_reset == 0,
        final(ca).nv_no_cong_cnt == 0,
        final(ca).nv_rtt_cnt == 0,
        final(ca).nv_last_rtt == 0,
        final(ca).nv_rtt_max_rate == 0,
        final(ca).nv_rtt_start_seq == 0,
        final(ca).nv_eval_call_cnt == 0,
        final(ca).nv_last_snd_una == 0,
{
    tcpnv_reset(ca);
    if base_rtt > 0 {
        let b = base_rtt as u32;
        ca.nv_base_rtt = b;
        ca.nv_lower_bound_rtt = (b * 205) / 256;
    } else {
        ca.nv_base_rtt = 0;
        ca.nv_lower_bound_rtt = 0;
    }
    ca.nv_allow_cwnd_growth = 1;
    ca.nv_min_rtt_reset_jiffies = 0;
    ca.nv_min_rtt = NV_INIT_RTT;
    ca.nv_min_rtt_new = NV_INIT_RTT;
    ca.nv_min_cwnd = NV_MIN_CWND;
    ca.nv_catchup = 0;
    ca.cwnd_growth_factor = 0;
}

/// An RTT sample clamped to the configured bounds (a bound of 0 is unset).
pub open spec fn bounded_rtt(ca: tcpnv, val: u32) -> u32 {
    if ca.nv_lower_bound_rtt > 0 && val < ca.nv_lower_bound_rtt {
        ca.nv_lower_bound_rtt
    } else if ca.nv_base_rtt > 0 && val > ca.nv_base_rtt {
        ca.nv_base_rtt
    } else {
        val
    }
}

/// Clamp an RTT sample (see `bounded_rtt`).
pub fn nv_get_bounded_rtt(ca: &tcpnv, val: u32) -> (r: u32)
    ensures
        r == bounded_rtt(*ca, val),
{
    if ca.nv_lower_bound_rtt > 0 && val < ca.nv_lower_bound_rtt {
        return ca.nv_lower_bound_rtt;
    } else if ca.nv_base_rtt > 0 && val > ca.nv_base_rtt {
        return ca.nv_base_rtt;
    }
    val
}

/// With both bounds set and ordered, a clamped sample lies between them.
pub proof fn bounded_rtt_within(ca: tcpnv, val: u32)
    requires
        0 < ca.nv_lower_bound_rtt <= ca.nv_base_rtt,
    ensures
        ca.nv_lower_bound_rtt <= bounded_rtt(ca, val) <= ca.nv_base_rtt,
{
}

/// The slow-start threshold New Vegas asks for.
pub fn tcpnv_recalc_ssthresh() -> (r: u32)
    ensures
        r == 0,
{
    0
}

/// React to a congestion-state change: back in Open after a reset the
/// period restarts; loss, CWR and recovery stop window growth and mark a
/// reset, and a loss also lowers the growth factor (not below -8, never
/// above 0 afterwards).
pub fn tcpnv_state(ca: &mut tcpnv, new_state: u8)
    ensures
        new_state == TCP_CA_Open && old(ca).nv_reset != 0 ==> *final(ca) == (tcpnv {
            nv_reset: 0,
            nv_no_cong_cnt: 0,
            nv_rtt_cnt: 0,
            nv_last_rtt: 0,
            nv_rtt_max_rate: 0,
            nv_rtt_start_seq: 0,
            nv_eval_call_cnt: 0,
            nv_last_snd_una: 0,
            ..*old(ca)
        }),
        !(new_state == TCP_CA_Open && old(ca).nv_reset != 0)
            && (new_state == TCP_CA_Loss || new_state == TCP_CA_CWR || new_state == TCP_CA_Recovery) ==> {
            let g0: i8 = if new_state == TCP_CA_Loss && old(ca).cwnd_growth_factor > 0 { 0 } else { old(ca).cwnd_growth_factor };
            let g1: i8 = if new_state == TCP_CA_Loss && g0 > -8 { (g0 - 1) as i8 } else { g0 };
            *final(ca) == (tcpnv { nv_reset: 1, nv_allow_cwnd_growth: 0, cwnd_growth_factor: g1, ..*old(ca) })
        },
        !(new_state == TCP_CA_Open && old(ca).nv_reset != 0)
            && !(new_state == TCP_CA_Loss || new_state == TCP_CA_CWR || new_state == TCP_CA_Recovery) ==> *final(ca) == *old(ca),
{
    if new_state == TCP_CA_Open && ca.nv_reset != 0 {
        tcpnv_reset(ca);
    } else if new_state == TCP_CA_Loss || new_state == TCP_CA_CWR || new_state == TCP_CA_Recovery {
        ca.nv_reset = 1;
        ca.nv_allow_cwnd_growth = 0;
        if new_state == TCP_CA_Loss {
            if ca.cwnd_growth_factor > 0 {
                ca.cwnd_growth_factor = 0;
            }
            if NV_CWND_GROWTH_RATE_NEG > 0 && ca.cwnd_growth_factor > -8 {
                ca.cwnd_growth_factor = ca.cwnd_growth_factor - 1;
            }
        }
    }
}

} // verus!
