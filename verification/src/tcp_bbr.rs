//! BBR congestion control: the state it keeps per connection and the
//! readings other code takes of it.
use vstd::prelude::*;

verus! {

pub const BW_SCALE: u32 = 24;
pub const BW_UNIT: u32 = 16777216;
pub const BBR_SCALE: u32 = 8;
pub const BBR_UNIT: u32 = 256;

pub const BBR_STARTUP: u32 = 0;
pub const BBR_DRAIN: u32 = 1;
pub const BBR_PROBE_BW: u32 = 2;
pub const BBR_PROBE_RTT: u32 = 3;

pub const CYCLE_LEN: u32 = 8;
pub const BBR_BW_RTT: u32 = 10;
pub const BBR_MIN_RTT_WIN_SEC: u32 = 10;
pub const BBR_PROBE_RTT_MODE_MS: u32 = 200;
pub const BBR_MIN_TSO_RATE: u32 = 1200000;
pub const BBR_PACING_MARGIN_PERCENT: u32 = 1;
/// 2/ln(2) in BBR units, rounded up.
pub const BBR_HIGH_GAIN: u32 = 739;
/// Its inverse.
pub const BBR_DRAIN_GAIN: u32 = 88;
pub const BBR_CWND_GAIN: u32 = 512;
pub const BBR_CWND_MIN_TARGET: u32 = 4;
pub const BBR_FULL_BW_THRESH: u32 = 320;
pub const BBR_FULL_BW_CNT: u32 = 3;
pub const BBR_LT_INTVL_MIN_RTTS: u32 = 4;
pub const BBR_LT_LOSS_THRESH: u32 = 50;
pub const BBR_LT_BW_RATIO: u32 = 32;
pub const BBR_LT_BW_DIFF: u32 = 500;
pub const BBR_LT_BW_MAX_RTTS: u32 = 48;
pub const BBR_EXTRA_ACKED_GAIN: u32 = 256;
pub const BBR_EXTRA_ACKED_WIN_RTTS: u32 = 5;
pub const BBR_ACK_EPOCH_ACKED_RESET_THRESH: u32 = 1048576;
pub const BBR_EXTRA_ACKED_MAX_US: u32 = 100000;

pub const EINVAL: i32 = -22;
pub const ENOMEM: i32 = -12;
pub const ENOSYS: i32 = -38;

/// A windowed max filter: its current maximum and bookkeeping.
pub struct minmax {
    pub max: u32,
    pub filter: u32,
    pub window: u32,
    pub rtt_cnt: u32,
    pub next_rtt_delivered: u32,
}

/// BBR's per-connection state. `flags` packs the bit fields; bit 0 says
/// whether STARTUP filled the pipe, bits 0 to 2 hold the mode.
pub struct bbr {
    pub min_rtt_us: u32,
    pub min_rtt_stamp: u32,
    pub probe_rtt_done_stamp: u32,
    pub bw: minmax,
    pub rtt_cnt: u32,
    pub next_rtt_delivered: u32,
    pub cycle_mstamp: u64,
    pub flags: u32,
    pub lt_bw: u32,
    pub lt_last_delivered: u32,
    pub lt_last_stamp: u32,
    pub lt_last_lost: u32,
    pub pacing_gain: u32,
    pub cwnd_gain: u32,
    pub full_bw_reached: u32,
    pub full_bw_cnt: u32,
    pub cycle_idx: u32,
    pub has_seen_rtt: u32,
    pub unused_b: u32,
    pub prior_cwnd: u32,
    pub full_bw: u32,
    pub ack_epoch_mstamp: u64,
    pub extra_acked: [u16; 2],
    pub ack_epoch_acked: u32,
    pub extra_acked_win_rtts: u32,
    pub extra_acked_win_idx: u32,
    pub unused_c: u32,
}

/// The congestion-control state of a connection (the state is the
/// connection's BBR block itself).
pub fn inet_csk_ca(sk: &bbr) -> (r: &bbr)
    ensures
        r == sk,
{
    sk
}

/// Whether STARTUP is estimated to have filled the pipe: 1 or 0.
pub fn bbr_full_bw_reached(sk: &bbr) -> (r: i32)
    ensures
        r == (if sk.flags & 1 != 0 { 1i32 } else { 0i32 }),
{
    let b = inet_csk_ca(sk);
    if b.flags & 1 != 0 {
        1
    } else {
        0
    }
}

/// The current value of a max filter.
pub fn minmax_get(mm: &minmax) -> (r: u32)
    ensures
        r == mm.max,
{
    mm.max
}

/// The windowed maximum of recent bandwidth samples.
pub fn bbr_max_bw(sk: &bbr) -> (r: u32)
    ensures
        r == sk.bw.max,
{
    minmax_get(&inet_csk_ca(sk).bw)
}

/// The long-term bandwidth estimate.
pub fn bbr_bw(sk: &bbr) -> (r: u32)
    ensures
        r == sk.lt_bw,
{
    inet_csk_ca(sk).lt_bw
}

/// The extra data acked in the current window slot.
pub fn bbr_extra_acked(sk: &bbr) -> (r: u16)
    requires
        sk.extra_acked_win_idx < 2,
    ensures
        r == sk.extra_acked[sk.extra_acked_win_idx as int],
{
    let b = inet_csk_ca(sk);
    b.extra_acked[b.extra_acked_win_idx as usize]
}

impl Default for minmax {
    fn default() -> (r: minmax)
        ensures
            r == (minmax { max: 0, filter: 0, window: 0, rtt_cnt: 0, next_rtt_delivered: 0 }),
    {
        minmax { max: 0, filter: 0, window: 0, rtt_cnt: 0, next_rtt_delivered: 0 }
    }
}

impl Default for bbr {
    fn default() -> (r: bbr)
        ensures
            r.min_rtt_us == 0 && r.min_rtt_stamp == 0 && r.probe_rtt_done_stamp == 0,
            r.bw == (minmax { max: 0, filter: 0, window: 0, rtt_cnt: 0, next_rtt_delivered: 0 }),
            r.rtt_cnt == 0 && r.next_rtt_delivered == 0 && r.cycle_mstamp == 0 && r.flags == 0,
            r.lt_bw == 0 && r.lt_last_delivered == 0 && r.lt_last_stamp == 0 && r.lt_last_lost == 0,
            r.pacing_gain == 0 && r.cwnd_gain == 0 && r.full_bw_reached == 0 && r.full_bw_cnt == 0,
            r.cycle_idx == 0 && r.has_seen_rtt == 0 && r.unused_b == 0 && r.prior_cwnd == 0,
            r.full_bw == 0 && r.ack_epoch_mstamp == 0,
            r.extra_acked@ == seq![0u16, 0u16],
            r.ack_epoch_acked == 0 && r.extra_acked_win_rtts == 0 && r.extra_acked_win_idx == 0,
            r.unused_c == 0,
    {
        let r = bbr {
            min_rtt_us: 0,
            min_rtt_stamp: 0,
            probe_rtt_done_stamp: 0,
            bw: minmax::default(),
            rtt_cnt: 0,
            next_rtt_delivered: 0,
            cycle_mstamp: 0,
            flags: 0,
            lt_bw: 0,
            lt_last_delivered: 0,
            lt_last_stamp: 0,
            lt_last_lost: 0,
            pacing_gain: 0,
            cwnd_gain: 0,
            full_bw_reached: 0,
            full_bw_cnt: 0,
            cycle_idx: 0,
            has_seen_rtt: 0,
            unused_b: 0,
            prior_cwnd: 0,
            full_bw: 0,
            ack_epoch_mstamp: 0,
            extra_acked: [0u16, 0u16],
            ack_epoch_acked: 0,
            extra_acked_win_rtts: 0,
            extra_acked_win_idx: 0,
            unused_c: 0,
        };
        assert(r.extra_acked@ =~= seq![0u16, 0u16]);
        r
    }
}

} // verus!
