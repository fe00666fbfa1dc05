//! TCP output: the connection's clock, what sending new data records, the
//! sequence number a bare ACK or RST may carry, the MSS to advertise, and
//! the receive window offered at the start and on every segment.
use vstd::prelude::*;

verus! {

pub const NSEC_PER_USEC: u64 = 1000;
pub const MAX_TCP_WINDOW: u32 = 65535;
pub const U16_MAX: u16 = 65535;
pub const TCP_MAX_WSCALE: u8 = 14;
pub const EINVAL: i32 = -22;
pub const ENOMEM: i32 = -12;
pub const ENOSYS: i32 = -38;

/// The options negotiated for receiving: whether window scaling is on and
/// our scale.
pub struct tcp_rx_opt {
    pub wscale_ok: u8,
    pub rcv_wscale: u8,
}

/// The connection fields the output path reads and writes.
pub struct tcp_sock {
    pub tcp_clock_cache: u64,
    pub tcp_mstamp: u64,
    pub snd_una: u32,
    pub snd_wnd: u32,
    pub snd_nxt: u32,
    pub snd_cwnd: u32,
    pub snd_ssthresh: u32,
    pub snd_cwnd_stamp: u32,
    pub snd_cwnd_used: u32,
    pub packets_out: u32,
    pub highest_sack: Option<u32>,
    pub rx_opt: tcp_rx_opt,
    pub rcv_wnd: u32,
    pub rcv_wup: u32,
    pub rcv_nxt: u32,
    pub rcv_wscale: u8,
    pub ecn_flags: u8,
    pub advmss: u32,
    pub pred_flags: u32,
}

/// The current time in nanoseconds since the epoch, or 0 when the system
/// clock reads earlier than that.
#[verifier::external_body]
fn tcp_clock_ns() -> (ns: u64) {
    match std::time::UNIX_EPOCH.elapsed() {
        Ok(d) => d.as_nanos() as u64,
        Err(_) => 0,
    }
}

/// Record the clock reading `val` (ns) in the connection: the cache, and
/// the microsecond stamp.
pub fn tcp_mstamp_refresh_at(tp: &mut tcp_sock, val: u64)
    ensures
        *final(tp) == (tcp_sock { tcp_clock_cache: val, tcp_mstamp: val / NSEC_PER_USEC, ..*old(tp) }),
{
    tp.tcp_clock_cache = val;
    tp.tcp_mstamp = val / NSEC_PER_USEC;
}

/// Read the clock and record it in the connection (see
/// `tcp_mstamp_refresh_at`).
pub fn tcp_mstamp_refresh(tp: &mut tcp_sock)
    ensures
        exists|val: u64| #[trigger] (val / NSEC_PER_USEC) == final(tp).tcp_mstamp
            && *final(tp) == (tcp_sock { tcp_clock_cache: val, tcp_mstamp: val / NSEC_PER_USEC, ..*old(tp) }),
{
    let val = tcp_clock_ns();
    tcp_mstamp_refresh_at(tp, val);
}

/// What sending a new segment (ending at `end_seq`, counting `pcount`
/// packets) needs next.
pub struct new_data_sent {
    /// The retransmission timer must be armed: nothing was in flight.
    pub rearm_rto: bool,
    /// Packets of original data sent, for the statistics.
    pub orig_data_sent: u32,
}

/// Record that the segment `skb_seq` (ending at `end_seq`, `pcount`
/// packets) went out for the first time: the next sequence number moves to
/// its end, it becomes the highest SACK candidate when there is none, and
/// it counts as in flight.
pub fn tcp_event_new_data_sent(tp: &mut tcp_sock, skb_seq: u32, end_seq: u32, pcount: u32) -> (r: new_data_sent)
    requires
        old(tp).packets_out + pcount <= u32::MAX,
    ensures
        *final(tp) == (tcp_sock {
            snd_nxt: end_seq,
            highest_sack: if old(tp).highest_sack is None { Some(skb_seq) } else { old(tp).highest_sack },
            packets_out: (old(tp).packets_out + pcount) as u32,
            ..*old(tp)
        }),
        r.rearm_rto == (old(tp).packets_out == 0),
        r.orig_data_sent == pcount,
{
    let prior_packets = tp.packets_out;
    tp.snd_nxt = end_seq;
    if tp.highest_sack.is_none() {
        tp.highest_sack = Some(skb_seq);
    }
    tp.packets_out = tp.packets_out + pcount;
    new_data_sent { rearm_rto: prior_packets == 0, orig_data_sent: pcount }
}

/// The end of the peer's advertised window.
pub open spec fn wnd_end(tp: tcp_sock) -> u32 {
    tp.snd_una.wrapping_add(tp.snd_wnd)
}

/// The sequence number a segment without data may carry: the next one to
/// send, unless that lies past the peer's window by a full window-scale
/// unit or more, in which case the window's end.
pub open spec fn acceptable_seq(tp: tcp_sock) -> u32 {
    let we = wnd_end(tp);
    if !(we < tp.snd_nxt) || (tp.rx_opt.wscale_ok != 0 && (tp.snd_nxt - we) < (1u32 << tp.rx_opt.rcv_wscale)) {
        tp.snd_nxt
    } else {
        we
    }
}

pub fn tcp_acceptable_seq(tp: &tcp_sock) -> (r: u32)
    requires
        tp.rx_opt.rcv_wscale < 32,
    ensures
        r == acceptable_seq(*tp),
{
    let we = tp.snd_una.wrapping_add(tp.snd_wnd);
    if !(we < tp.snd_nxt) || (tp.rx_opt.wscale_ok != 0 && (tp.snd_nxt - we) < (1u32 << tp.rx_opt.rcv_wscale)) {
        tp.snd_nxt
    } else {
        we
    }
}

/// The MSS to advertise: the connection's, lowered (and remembered) when
/// the route advertises less; in 16 bits.
pub fn tcp_advertise_mss(tp: &mut tcp_sock, dst_advmss: Option<u32>) -> (r: u16)
    ensures
        final(tp).advmss == (match dst_advmss {
            Some(m) => if m < old(tp).advmss { m } else { old(tp).advmss },
            None => old(tp).advmss,
        }),
        *final(tp) == (tcp_sock { advmss: final(tp).advmss, ..*old(tp) }),
        r == (final(tp).advmss % 0x1_0000) as u16,
{
    let mut mss = tp.advmss;
    match dst_advmss {
        Some(m) => {
            if m < mss {
                mss = m;
                tp.advmss = mss;
            }
        },
        None => {},
    }
    (mss % 0x1_0000) as u16
}

/// The base-2 logarithm of `x` rounded down (0 for 0).
pub open spec fn ilog2(x: u32) -> int
    decreases x,
{
    if x <= 1 { 0 } else { 1 + ilog2(x / 2) }
}

fn ilog2_exec(x: u32) -> (r: u32)
    ensures
        r == ilog2(x),
        r < 32,
{
    let mut n: u32 = 0;
    let mut y: u32 = x;
    proof {
        lemma_ilog2_bound(x);
    }
    while y > 1
        invariant
            n + ilog2(y) == ilog2(x),
            0 <= ilog2(x) < 32,
        decreases y,
    {
        proof {
            lemma_ilog2_bound(y / 2);
        }
        y = y / 2;
        n = n + 1;
    }
    n
}

proof fn lemma_ilog2_bound(x: u32)
    ensures
        0 <= ilog2(x) < 32,
{
    vstd::arithmetic::power2::lemma2_to64();
    lemma_ilog2_pow(x, 32);
}

proof fn lemma_ilog2_pow(x: u32, k: nat)
    requires
        x < vstd::arithmetic::power2::pow2(k),
    ensures
        0 <= ilog2(x),
        ilog2(x) < k || ilog2(x) == 0,
    decreases k,
{
    if x > 1 {
        if k == 0 {
            assert(vstd::arithmetic::power2::pow2(0) == 1) by {
                vstd::arithmetic::power2::lemma2_to64();
            }
        } else {
            vstd::arithmetic::power2::lemma_pow2_unfold(k);
            lemma_ilog2_pow(x / 2, (k - 1) as nat);
            if k == 1 {
                assert(vstd::arithmetic::power2::pow2(0) == 1) by {
                    vstd::arithmetic::power2::lemma2_to64();
                }
            }
        }
    }
}

/// The receive window and window scale a new connection starts with.
pub struct initial_window {
    pub rcv_wnd: u32,
    pub window_clamp: u32,
    pub rcv_wscale: u8,
}

/// The initial receive window for `space` bytes of buffer and segments of
/// `mss`: the clamp defaults to the largest scaled window; the window is
/// the space (not above the clamp) rounded down to whole segments, at most
/// `init_rcv_wnd` segments when that is set; with window scaling, the
/// scale is the one that lets the clamp be expressed (between 0 and 14);
/// the clamp then becomes the largest window that scale allows.
pub open spec fn initial_window_spec(space: i32, mss: u32, window_clamp: u32, wscale_ok: bool, init_rcv_wnd: u32) -> initial_window {
    let sp: u32 = if space < 0 { 0 } else { space as u32 };
    let clamp: u32 = if window_clamp == 0 { (65535u32 << 14u32) } else { window_clamp };
    let sp2: u32 = if sp < clamp { sp } else { clamp };
    let w: u32 = if sp2 > mss { (sp2 - sp2 % mss) as u32 } else { sp2 };
    let w2: u32 = if init_rcv_wnd != 0 && w > init_rcv_wnd * mss { (init_rcv_wnd * mss) as u32 } else { w };
    let ws: u8 = if wscale_ok {
        let l = ilog2(clamp) - 15;
        (if l < 0 { 0 } else if l > 14 { 14 } else { l }) as u8
    } else {
        0
    };
    initial_window { rcv_wnd: w2, window_clamp: 65535u32 << (ws as u32), rcv_wscale: ws }
}

pub fn tcp_select_initial_window(space: i32, mss: u32, rcv_wnd: &mut u32, window_clamp: &mut u32, wscale_ok: bool, rcv_wscale: &mut u8, init_rcv_wnd: u32)
    requires
        mss > 0,
        init_rcv_wnd * mss <= u32::MAX,
    ensures
        ({
            let w = initial_window_spec(space, mss, *old(window_clamp), wscale_ok, init_rcv_wnd);
            *final(rcv_wnd) == w.rcv_wnd && *final(window_clamp) == w.window_clamp && *final(rcv_wscale) == w.rcv_wscale
        }),
{
    let sp: u32 = if space < 0 { 0 } else { space as u32 };
    if *window_clamp == 0 {
        *window_clamp = 65535u32 << 14u32;
    }
    let clamp = *window_clamp;
    let sp2: u32 = if sp < clamp { sp } else { clamp };
    if sp2 > mss {
        *rcv_wnd = sp2 - sp2 % mss;
    } else {
        *rcv_wnd = sp2;
    }
    if init_rcv_wnd != 0 && *rcv_wnd > init_rcv_wnd * mss {
        *rcv_wnd = init_rcv_wnd * mss;
    }
    *rcv_wscale = 0;
    if wscale_ok {
        let l = ilog2_exec(clamp);
        *rcv_wscale = if l < 15 { 0 } else if l - 15 > 14 { 14 } else { (l - 15) as u8 };
    }
    *window_clamp = 65535u32 << (*rcv_wscale as u32);
}

/// The same, under the name other modules call it by.
pub fn tcp_select_initial_window_exported(space: i32, mss: u32, rcv_wnd: &mut u32, window_clamp: &mut u32, wscale_ok: bool, rcv_wscale: &mut u8, init_rcv_wnd: u32)
    requires
        mss > 0,
        init_rcv_wnd * mss <= u32::MAX,
    ensures
        ({
            let w = initial_window_spec(space, mss, *old(window_clamp), wscale_ok, init_rcv_wnd);
            *final(rcv_wnd) == w.rcv_wnd && *final(window_clamp) == w.window_clamp && *final(rcv_wscale) == w.rcv_wscale
        }),
{
    tcp_select_initial_window(space, mss, rcv_wnd, window_clamp, wscale_ok, rcv_wscale, init_rcv_wnd)
}

/// The window events worth counting when a window is offered.
pub struct window_events {
    pub want_zero: bool,
    pub to_zero: bool,
    pub from_zero: bool,
}

/// `x` rounded up to a multiple of `2^s`.
pub open spec fn align_up(x: u32, s: u8) -> int {
    let unit = 1u32 << (s as u32);
    ((x + unit - 1) / (unit as int)) * unit
}

/// The window to put in an outgoing segment, given the window the peer
/// may still use (`cur_win`) and the one the buffer allows now (`new_win`):
/// never shrink below `cur_win` (rounded up to the scale unit); remember
/// the offer; cap it at what 16 bits can say (65535 unscaled when signed
/// windows must be avoided) and scale it down.
pub open spec fn select_window(tp: tcp_sock, cur_win: u32, new_win: u32, workaround_signed: bool) -> (u32, u16) {
    let w: int = if new_win < cur_win { align_up(cur_win, tp.rx_opt.rcv_wscale) } else { new_win as int };
    let cap: int = if tp.rx_opt.rcv_wscale == 0 && workaround_signed { MAX_TCP_WINDOW as int } else { (65535u32 << (tp.rx_opt.rcv_wscale as u32)) as int };
    let w2: int = if w < cap { w } else { cap };
    (w as u32, ((w2 as u32) >> (tp.rx_opt.rcv_wscale as u32)) as u16)
}

pub fn tcp_select_window(tp: &mut tcp_sock, cur_win: u32, new_win: u32, workaround_signed: bool) -> (r: (u16, window_events))
    requires
        old(tp).rx_opt.rcv_wscale <= TCP_MAX_WSCALE,
        cur_win <= 0xffff_c000,
    ensures
        ({
            let (offer, sent) = select_window(*old(tp), cur_win, new_win, workaround_signed);
            &&& r.0 == sent
            &&& final(tp).rcv_wnd == offer
            &&& final(tp).rcv_wup == old(tp).rcv_nxt
            &&& final(tp).pred_flags == (if sent == 0 { 0 } else { old(tp).pred_flags })
            &&& r.1.want_zero == (new_win < cur_win && new_win == 0)
            &&& r.1.to_zero == (sent == 0 && old(tp).rcv_wnd != 0)
            &&& r.1.from_zero == (sent != 0 && old(tp).rcv_wnd == 0)
        }),
{
    let old_win = tp.rcv_wnd;
    let s: u8 = tp.rx_opt.rcv_wscale;
    let mut want_zero = false;
    let mut w: u32 = new_win;
    if new_win < cur_win {
        if new_win == 0 {
            want_zero = true;
        }
        let unit: u32 = 1u32 << (s as u32);
        assert(1 <= unit <= 0x4000) by (bit_vector)
            requires
                s <= 14,
                unit == 1u32 << (s as u32),
        ;
        proof {
            assert(((cur_win + unit - 1) / (unit as int)) * unit <= cur_win + unit - 1) by (nonlinear_arith)
                requires
                    unit >= 1,
                    cur_win >= 0,
            ;
        }
        w = ((cur_win + (unit - 1)) / unit) * unit;
    }
    tp.rcv_wnd = w;
    tp.rcv_wup = tp.rcv_nxt;
    let cap: u32 = if s == 0 && workaround_signed { MAX_TCP_WINDOW } else { 65535u32 << (s as u32) };
    let w2: u32 = if w < cap { w } else { cap };
    proof {
        assert((w2 >> (s as u32)) <= 65535) by (bit_vector)
            requires
                s <= 14,
                w2 <= cap,
                cap == (if s == 0 && workaround_signed { 65535u32 } else { 65535u32 << (s as u32) }),
        ;
    }
    let sent: u16 = (w2 >> (s as u32)) as u16;
    if sent == 0 {
        tp.pred_flags = 0;
    }
    (sent, window_events { want_zero, to_zero: sent == 0 && old_win != 0, from_zero: sent != 0 && old_win == 0 })
}


/// The initial receive window never exceeds the buffer space (none when it
/// is negative) nor the window clamp passed in (the largest scaled window
/// when that is 0), nor `init_rcv_wnd` segments when that is set; when the
/// space and the clamp both exceed a segment, it is a whole number of
/// segments.
pub proof fn initial_window_within_clamp(space: i32, mss: u32, window_clamp: u32, wscale_ok: bool, init_rcv_wnd: u32)
    requires
        mss > 0,
        init_rcv_wnd * mss <= u32::MAX,
    ensures
        ({
            let w = initial_window_spec(space, mss, window_clamp, wscale_ok, init_rcv_wnd).rcv_wnd;
            let clamp: u32 = if window_clamp == 0 { 65535u32 << 14u32 } else { window_clamp };
            &&& w <= clamp
            &&& w <= (if space < 0 { 0 } else { space as int })
            &&& init_rcv_wnd != 0 ==> w <= init_rcv_wnd * mss
            &&& (space > mss && clamp > mss) ==> w % mss == 0
        }),
{
    let sp: u32 = if space < 0 { 0 } else { space as u32 };
    let clamp: u32 = if window_clamp == 0 { (65535u32 << 14u32) } else { window_clamp };
    let sp2: u32 = if sp < clamp { sp } else { clamp };
    if sp2 > mss {
        let m = mss as int;
        let x = sp2 as int;
        vstd::arithmetic::div_mod::lemma_fundamental_div_mod(x, m);
        vstd::arithmetic::div_mod::lemma_mod_bound(x, m);
        vstd::arithmetic::div_mod::lemma_mod_multiples_basic(x / m, m);
        assert(x - x % m == m * (x / m));
        assert((m * (x / m)) % m == 0) by {
            vstd::arithmetic::mul::lemma_mul_is_commutative(m, x / m);
        }
    }
    if init_rcv_wnd != 0 {
        vstd::arithmetic::div_mod::lemma_mod_multiples_basic(init_rcv_wnd as int, mss as int);
    }
}


/// Without `init_rcv_wnd`, the initial receive window is the largest whole
/// number of segments that fits in both the space and the clamp (when a
/// segment fits in both): less than a segment short of the smaller of them.
/// Without window scaling the scale is 0 and the clamp becomes 65535;
/// otherwise the scale is at most 14 and the clamp is 65535 shifted by it.
pub proof fn initial_window_is_largest_fit(space: i32, mss: u32, window_clamp: u32, wscale_ok: bool, init_rcv_wnd: u32)
    requires
        mss > 0,
        init_rcv_wnd * mss <= u32::MAX,
    ensures
        ({
            let r = initial_window_spec(space, mss, window_clamp, wscale_ok, init_rcv_wnd);
            let clamp: int = if window_clamp == 0 { (65535u32 << 14u32) as int } else { window_clamp as int };
            let sp: int = if space < 0 { 0 } else { space as int };
            let lim: int = if sp < clamp { sp } else { clamp };
            &&& (init_rcv_wnd == 0 && lim > mss) ==> r.rcv_wnd > lim - mss
            &&& !wscale_ok ==> r.rcv_wscale == 0 && r.window_clamp == 65535
            &&& r.rcv_wscale <= 14
            &&& r.window_clamp == (65535u32 << (r.rcv_wscale as u32))
        }),
{
    let sp: u32 = if space < 0 { 0 } else { space as u32 };
    let clamp: u32 = if window_clamp == 0 { (65535u32 << 14u32) } else { window_clamp };
    let sp2: u32 = if sp < clamp { sp } else { clamp };
    vstd::arithmetic::div_mod::lemma_mod_bound(sp2 as int, mss as int);
    assert((65535u32 << 0u32) == 65535) by (bit_vector);
}

} // verus!
