//! Delivery-rate estimation: stamping segments when sent, taking samples
//! when they are delivered, and keeping the best recent rate.
use vstd::prelude::*;
use crate::tcp_minisocks::signed32;

verus! {

/// Flags in a segment's `sacked` field.
pub const TCPCB_SACKED_ACKED: u32 = 0x1;
pub const TCPCB_SACKED_RETRANS: u32 = 0x2;

/// Delivery state recorded in a segment when it is sent.
pub struct tcp_skb_tx {
    pub first_tx_mstamp: u64,
    pub delivered_mstamp: u64,
    pub delivered: u32,
    pub is_app_limited: u8,
}

/// Control block of a segment.
pub struct tcp_skb_cb {
    pub tx: tcp_skb_tx,
    pub sacked: u32,
}

/// A segment: its control block and the time it was sent (microseconds).
pub struct sk_buff {
    pub cb: tcp_skb_cb,
    pub tstamp: u64,
}

/// One rate sample.
pub struct rate_sample {
    pub acked_sacked: u32,
    pub losses: u32,
    pub prior_delivered: u32,
    pub prior_mstamp: u64,
    pub delivered: i32,
    pub interval_us: i32,
    pub is_app_limited: u8,
    pub is_retrans: u8,
    pub snd_interval_us: u32,
    pub rcv_interval_us: u32,
}

pub struct tcp_rx_opt {
    pub sack_ok: u8,
}

/// The part of a TCP socket that the rate estimator reads and writes.
pub struct tcp_sock {
    pub packets_out: u32,
    pub first_tx_mstamp: u64,
    pub delivered_mstamp: u64,
    pub delivered: u32,
    pub app_limited: u32,
    pub rate_delivered: u32,
    pub rate_interval_us: u32,
    pub rate_app_limited: u8,
    pub mss_cache: u32,
    pub snd_cwnd: u32,
    pub write_seq: u32,
    pub snd_nxt: u32,
    pub retrans_out: u32,
    pub lost_out: u32,
    pub rx_opt: tcp_rx_opt,
    pub tcp_mstamp: u64,
    pub min_rtt: u32,
}

/// `a - b` modulo 2^64.
pub open spec fn wrap_sub64(a: u64, b: u64) -> int {
    if a >= b { a - b } else { a - b + 0x1_0000_0000_0000_0000 }
}

/// The time from `b` to `a` in milliseconds, truncated to 32 bits.
pub open spec fn stamp_delta(a: u64, b: u64) -> u32 {
    ((wrap_sub64(a, b) / 1000) % 0x1_0000_0000) as u32
}

/// The time from `b` to `a`, from microseconds to milliseconds, keeping the
/// low 32 bits (see `stamp_delta`).
pub fn tcp_stamp_us_delta(a: u64, b: u64) -> (r: u32)
    ensures
        r == stamp_delta(a, b),
{
    let d: u64 = if a >= b { a - b } else { (u64::MAX - b) + a + 1 };
    ((d / 1000) % 0x1_0000_0000) as u32
}

/// A branch-prediction hint: the condition itself.
pub fn unlikely(cond: bool) -> (r: bool)
    ensures
        r == cond,
{
    cond
}

/// The memory charged for a buffer of `size` bytes.
pub fn SKB_TRUESIZE(size: usize) -> (r: usize)
    ensures
        r == size,
{
    size
}

/// Packets in flight: here, the packets sent and not yet acknowledged.
pub fn tcp_packets_in_flight(tp: &tcp_sock) -> (r: u32)
    ensures
        r == tp.packets_out,
{
    tp.packets_out
}

/// A signed 32-bit value read as an unsigned word, and back.
pub open spec fn u32_of(x: i32) -> u32 {
    (if x < 0 { x + 0x1_0000_0000 } else { x as int }) as u32
}

pub open spec fn i32_of(x: u32) -> i32 {
    signed32(x) as i32
}

fn to_u32(x: i32) -> (r: u32)
    ensures
        r == u32_of(x),
{
    if x < 0 { ((x as i64) + 0x1_0000_0000i64) as u32 } else { x as u32 }
}

fn to_i32(x: u32) -> (r: i32)
    ensures
        r == i32_of(x),
{
    if x < 0x8000_0000 { x as i32 } else { ((x - 0x8000_0000) as i32) - 0x7fff_ffff - 1 }
}

/// When a segment is sent: an empty pipe restarts the sampling interval at
/// the segment's send time; the segment records the connection's delivery
/// state so that its delivery later yields a rate sample.
pub fn tcp_rate_skb_sent(tp: &mut tcp_sock, skb: &mut sk_buff)
    ensures
        ({
            let t = old(tp).packets_out == 0;
            let first = if t { old(skb).tstamp } else { old(tp).first_tx_mstamp };
            let dm = if t { old(skb).tstamp } else { old(tp).delivered_mstamp };
            &&& *final(tp) == (tcp_sock { first_tx_mstamp: first, delivered_mstamp: dm, ..*old(tp) })
            &&& *final(skb) == (sk_buff {
                cb: tcp_skb_cb {
                    tx: tcp_skb_tx {
                        first_tx_mstamp: first,
                        delivered_mstamp: dm,
                        delivered: old(tp).delivered,
                        is_app_limited: if old(tp).app_limited != 0 { 1u8 } else { 0u8 },
                    },
                    ..old(skb).cb
                },
                ..*old(skb)
            })
        }),
{
    if tp.packets_out == 0 {
        let ts = skb.tstamp;
        tp.first_tx_mstamp = ts;
        tp.delivered_mstamp = ts;
    }
    skb.cb.tx.first_tx_mstamp = tp.first_tx_mstamp;
    skb.cb.tx.delivered_mstamp = tp.delivered_mstamp;
    skb.cb.tx.delivered = tp.delivered;
    skb.cb.tx.is_app_limited = if tp.app_limited != 0 { 1 } else { 0 };
}

/// When a segment is delivered: the segment sent with the most deliveries
/// before it becomes the start of the sample; the sending interval runs from
/// its first send to this segment's send. A SACKed segment is not sampled
/// again.
pub fn tcp_rate_skb_delivered(tp: &mut tcp_sock, skb: &mut sk_buff, rs: &mut rate_sample)
    ensures
        old(skb).cb.tx.delivered_mstamp == 0 ==> *final(tp) == *old(tp) && *final(skb) == *old(skb)
            && *final(rs) == *old(rs),
        old(skb).cb.tx.delivered_mstamp != 0 ==> {
            let tx = old(skb).cb.tx;
            let take = old(rs).prior_delivered == 0 || tx.delivered > old(rs).prior_delivered;
            &&& take ==> *final(rs) == (rate_sample {
                prior_delivered: tx.delivered,
                prior_mstamp: tx.delivered_mstamp,
                is_app_limited: tx.is_app_limited,
                is_retrans: if old(skb).cb.sacked & TCPCB_SACKED_RETRANS != 0 { 1u8 } else { 0u8 },
                interval_us: i32_of(stamp_delta(old(skb).tstamp, tx.first_tx_mstamp)),
                ..*old(rs)
            })
            &&& take ==> *final(tp) == (tcp_sock { first_tx_mstamp: old(skb).tstamp, ..*old(tp) })
            &&& !take ==> *final(rs) == *old(rs) && *final(tp) == *old(tp)
            &&& *final(skb) == (if old(skb).cb.sacked & TCPCB_SACKED_ACKED != 0 {
                sk_buff { cb: tcp_skb_cb { tx: tcp_skb_tx { delivered_mstamp: 0, ..tx }, ..old(skb).cb }, ..*old(skb) }
            } else {
                *old(skb)
            })
        },
{
    if skb.cb.tx.delivered_mstamp == 0 {
        return;
    }
    if rs.prior_delivered == 0 || skb.cb.tx.delivered > rs.prior_delivered {
        rs.prior_delivered = skb.cb.tx.delivered;
        rs.prior_mstamp = skb.cb.tx.delivered_mstamp;
        rs.is_app_limited = skb.cb.tx.is_app_limited;
        rs.is_retrans = if skb.cb.sacked & TCPCB_SACKED_RETRANS != 0 { 1 } else { 0 };
        tp.first_tx_mstamp = skb.tstamp;
        let interval = tcp_stamp_us_delta(tp.first_tx_mstamp, skb.cb.tx.first_tx_mstamp);
        rs.interval_us = to_i32(interval);
    }
    if skb.cb.sacked & TCPCB_SACKED_ACKED != 0 {
        skb.cb.tx.delivered_mstamp = 0;
    }
}

/// The sample's interval: the longer of the send and ACK intervals.
pub open spec fn gen_interval(tp: tcp_sock, rs: rate_sample) -> i32 {
    let snd = u32_of(rs.interval_us);
    let ack = stamp_delta(tp.tcp_mstamp, rs.prior_mstamp);
    i32_of(if snd > ack { snd } else { ack })
}

/// The sample's delivered count: deliveries since the sample started.
pub open spec fn gen_delivered(tp: tcp_sock, rs: rate_sample) -> i32 {
    i32_of((if tp.delivered >= rs.prior_delivered { tp.delivered - rs.prior_delivered }
        else { tp.delivered - rs.prior_delivered + 0x1_0000_0000 }) as u32)
}

/// A sample that is not application-limited is always kept; an
/// application-limited one only if its rate is at least the kept rate.
pub open spec fn gen_keeps(tp: tcp_sock, rs: rate_sample) -> bool {
    rs.is_app_limited == 0
        || (gen_delivered(tp, rs) as u64) * (tp.rate_interval_us as int)
            >= (tp.rate_delivered as int) * (gen_interval(tp, rs) as u64)
}

/// The comparison of rates is made in 64 bits.
pub open spec fn gen_products_fit(tp: tcp_sock, rs: rate_sample) -> bool {
    rs.is_app_limited != 0 ==> {
        &&& (gen_delivered(tp, rs) as u64) * (tp.rate_interval_us as int) <= u64::MAX
        &&& (tp.rate_delivered as int) * (gen_interval(tp, rs) as u64) <= u64::MAX
    }
}

/// Turn the deliveries of one ACK into a rate sample and keep it as the
/// connection's rate when it is better. An invalid sample (no start, SACK
/// reneging, or an interval below the minimum RTT) has interval -1.
pub fn tcp_rate_gen(tp: &mut tcp_sock, delivered: u32, lost: u32, is_sack_reneg: bool, rs: &mut rate_sample)
    requires
        ({
            let t1 = if old(tp).app_limited != 0 && old(tp).delivered > old(tp).app_limited {
                tcp_sock { app_limited: 0, ..*old(tp) } } else { *old(tp) };
            let t2 = if delivered != 0 { tcp_sock { delivered_mstamp: t1.tcp_mstamp, ..t1 } } else { t1 };
            gen_products_fit(t2, *old(rs))
        }),
    ensures
        ({
            let t1 = if old(tp).app_limited != 0 && old(tp).delivered > old(tp).app_limited {
                tcp_sock { app_limited: 0, ..*old(tp) } } else { *old(tp) };
            let t2 = if delivered != 0 { tcp_sock { delivered_mstamp: t1.tcp_mstamp, ..t1 } } else { t1 };
            let r1 = rate_sample { acked_sacked: delivered, losses: lost, ..*old(rs) };
            if old(rs).prior_mstamp == 0 || is_sack_reneg {
                &&& *final(tp) == t2
                &&& *final(rs) == (rate_sample { delivered: -1i32, interval_us: -1i32, ..r1 })
            } else {
                let iv = gen_interval(t2, *old(rs));
                let r2 = rate_sample {
                    delivered: gen_delivered(t2, *old(rs)),
                    interval_us: iv,
                    snd_interval_us: u32_of(old(rs).interval_us),
                    rcv_interval_us: stamp_delta(t2.tcp_mstamp, old(rs).prior_mstamp),
                    ..r1
                };
                if iv < 0 || iv < t2.min_rtt {
                    &&& *final(tp) == t2
                    &&& *final(rs) == (rate_sample { interval_us: -1i32, ..r2 })
                } else if gen_keeps(t2, *old(rs)) {
                    &&& *final(rs) == r2
                    &&& *final(tp) == (tcp_sock {
                        rate_delivered: u32_of(r2.delivered),
                        rate_interval_us: u32_of(iv),
                        rate_app_limited: old(rs).is_app_limited,
                        ..t2
                    })
                } else {
                    &&& *final(rs) == r2
                    &&& *final(tp) == t2
                }
            }
        }),
{
    if tp.app_limited != 0 && tp.delivered > tp.app_limited {
        tp.app_limited = 0;
    }
    if delivered != 0 {
        tp.delivered_mstamp = tp.tcp_mstamp;
    }
    rs.acked_sacked = delivered;
    rs.losses = lost;
    if rs.prior_mstamp == 0 || is_sack_reneg {
        rs.delivered = -1;
        rs.interval_us = -1;
        return;
    }
    rs.delivered = to_i32(tp.delivered.wrapping_sub(rs.prior_delivered));
    let snd_us = to_u32(rs.interval_us);
    let ack_us = tcp_stamp_us_delta(tp.tcp_mstamp, rs.prior_mstamp);
    rs.interval_us = to_i32(if snd_us > ack_us { snd_us } else { ack_us });
    rs.snd_interval_us = snd_us;
    rs.rcv_interval_us = ack_us;
    if unlikely(rs.interval_us < 0 || (rs.interval_us as i64) < (tp.min_rtt as i64)) {
        rs.interval_us = -1;
        return;
    }
    let keep = if rs.is_app_limited == 0 {
        true
    } else {
        let d = rs.delivered as u64;
        let iv = rs.interval_us as u64;
        d * (tp.rate_interval_us as u64) >= (tp.rate_delivered as u64) * iv
    };
    if keep {
        tp.rate_delivered = to_u32(rs.delivered);
        tp.rate_interval_us = to_u32(rs.interval_us);
        tp.rate_app_limited = rs.is_app_limited;
    }
}

/// Whether the sender is application-limited: less than a full segment
/// queued, nothing held in lower layers (`wmem_alloc` bytes), room in the
/// congestion window, and every lost packet retransmitted. Then the point
/// where the limit ends is recorded as the deliveries plus packets in flight
/// (at least 1).
pub fn tcp_rate_check_app_limited(tp: &mut tcp_sock, wmem_alloc: usize)
    ensures
        ({
            let queued = if old(tp).write_seq >= old(tp).snd_nxt { old(tp).write_seq - old(tp).snd_nxt }
                else { old(tp).write_seq - old(tp).snd_nxt + 0x1_0000_0000 };
            let limited = queued < old(tp).mss_cache && wmem_alloc < 1
                && old(tp).packets_out < old(tp).snd_cwnd && old(tp).lost_out <= old(tp).retrans_out;
            let mark = ((old(tp).delivered + old(tp).packets_out) % 0x1_0000_0000) as u32;
            if limited {
                *final(tp) == (tcp_sock { app_limited: if mark != 0 { mark } else { 1 }, ..*old(tp) })
            } else {
                *final(tp) == *old(tp)
            }
        }),
{
    let has_data = tp.write_seq.wrapping_sub(tp.snd_nxt) >= tp.mss_cache;
    if !has_data {
        if wmem_alloc < SKB_TRUESIZE(1) {
            let in_flight = tcp_packets_in_flight(tp);
            if in_flight < tp.snd_cwnd {
                if tp.lost_out <= tp.retrans_out {
                    let inflight = tp.delivered.wrapping_add(in_flight);
                    tp.app_limited = if inflight != 0 { inflight } else { 1 };
                }
            }
        }
    }
}


/// A sample that is not application-limited is always kept. An
/// application-limited one is kept exactly when its rate (deliveries over
/// interval) is at least the connection's kept rate, the rates compared by
/// cross-multiplying.
pub proof fn app_limited_sample_kept_only_if_not_slower(tp: tcp_sock, rs: rate_sample)
    requires
        gen_delivered(tp, rs) >= 0,
        gen_interval(tp, rs) >= 0,
    ensures
        rs.is_app_limited == 0 ==> gen_keeps(tp, rs),
        rs.is_app_limited != 0 ==> (gen_keeps(tp, rs) <==>
            gen_delivered(tp, rs) * (tp.rate_interval_us as int) >= (tp.rate_delivered as int) * gen_interval(tp, rs)),
{
}

} // verus!
