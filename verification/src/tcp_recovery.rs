//! RACK loss detection: time-ordered marking of lost segments, the
//! reordering window and its adaptation to duplicate SACKs.
use vstd::prelude::*;
use crate::tcp_minisocks::signed32;

verus! {

pub const TCP_CA_Recovery: u8 = 2;
pub const TCP_RACK_NO_DUPTHRESH: u32 = 0x1;
pub const TCP_RACK_STATIC_REO_WND: u32 = 0x2;
pub const TCP_RACK_RECOVERY_THRESH: u32 = 16;
pub const TCP_TIMEOUT_MIN: u32 = 1;
pub const TCPCB_LOST: u8 = 0x01;
pub const TCPCB_SACKED_RETRANS: u8 = 0x02;
pub const TCPCB_RETRANS: u8 = 0x04;

/// The RACK state of a connection: the most recently sent segment that was
/// delivered (its send time and end sequence) and the reordering window.
pub struct RACK {
    pub rtt_us: u32,
    pub mstamp: u64,
    pub end_seq: u32,
    pub advanced: u8,
    pub reo_wnd_steps: u8,
    pub dsack_seen: u8,
    pub reo_wnd_persist: u32,
    pub last_delivered: u32,
}

/// Links of the time-ordered list of sent segments, as positions in the list.
pub struct ListHead {
    pub next: usize,
    pub prev: usize,
}

/// Control block of a sent segment.
pub struct TCP_SKB_CB {
    pub sacked: u8,
    pub end_seq: u32,
}

/// A sent segment in the time-ordered queue: its control block and the time
/// it was last sent, in microseconds.
pub struct sk_buff {
    pub cb: TCP_SKB_CB,
    pub tstamp_us: u64,
}

pub struct rate_sample {
    pub prior_delivered: u32,
}

pub struct IPv4 {
    pub sysctl_tcp_recovery: u32,
}

/// The part of a TCP socket that RACK reads and writes.
pub struct tcp_sock {
    pub reord_seen: u32,
    pub reordering: u32,
    pub sacked_out: u32,
    pub tcp_mstamp: u64,
    pub srtt_us: u32,
    pub rack: RACK,
    pub lost: u32,
    pub delivered: u32,
}

// ---------------------------------------------------------------------------
// Sequence and time arithmetic
// ---------------------------------------------------------------------------

/// `a - b` modulo 2^32.
pub open spec fn seq_dist(a: u32, b: u32) -> int {
    (a - b) % 0x1_0000_0000
}

/// `seq1` lies after `seq2`: the forward distance from `seq2` to `seq1` is
/// larger than the one back.
pub open spec fn spec_after(seq1: u32, seq2: u32) -> bool {
    seq_dist(seq1, seq2) > seq_dist(seq2, seq1)
}

/// `seq1` lies before `seq2`.
pub open spec fn spec_before(seq1: u32, seq2: u32) -> bool {
    seq_dist(seq1, seq2) < seq_dist(seq2, seq1)
}

/// Whether `seq1` lies after `seq2` (see `spec_after`).
pub fn after(seq1: u32, seq2: u32) -> (r: bool)
    ensures
        r == spec_after(seq1, seq2),
{
    seq1.wrapping_sub(seq2) > seq2.wrapping_sub(seq1)
}

/// Whether `seq1` lies before `seq2` (see `spec_before`).
pub fn before(seq1: u32, seq2: u32) -> (r: bool)
    ensures
        r == spec_before(seq1, seq2),
{
    seq1.wrapping_sub(seq2) < seq2.wrapping_sub(seq1)
}

/// Microseconds to jiffies (one jiffy per millisecond), rounded up.
pub fn usecs_to_jiffies(usecs: u32) -> (r: u32)
    requires
        usecs + 999 <= u32::MAX,
    ensures
        r == (usecs + 999) / 1000,
{
    (usecs + 999) / 1000
}

/// `t1 - t2` modulo 2^64, truncated to its low 32 bits and read as a signed
/// 32-bit value.
pub open spec fn stamp_us_delta(t1: u64, t2: u64) -> int {
    let d = if t1 >= t2 { t1 - t2 } else { t1 - t2 + 0x1_0000_0000_0000_0000 };
    let lo = d % 0x1_0000_0000;
    if lo < 0x8000_0000 { lo } else { lo - 0x1_0000_0000 }
}

/// A 32-bit word read as a signed value.
fn as_signed(x: u32) -> (r: i32)
    ensures
        r == signed32(x),
{
    if x < 0x8000_0000 {
        x as i32
    } else {
        ((x - 0x8000_0000) as i32) - 0x7fff_ffff - 1
    }
}

/// The time from `t2` to `t1` in microseconds (see `stamp_us_delta`).
pub fn tcp_stamp_us_delta(t1: u64, t2: u64) -> (r: i32)
    ensures
        r == stamp_us_delta(t1, t2),
{
    let d: u64 = if t1 >= t2 { t1 - t2 } else { (u64::MAX - t2) + t1 + 1 };
    let lo: u64 = d % 0x1_0000_0000;
    as_signed(lo as u32)
}

/// A segment sent at `t1` ending at `seq1` was sent after one sent at `t2`
/// ending at `seq2`: later in time, or at the same time and later in sequence.
pub open spec fn rack_sent_after(t1: u64, t2: u64, seq1: u32, seq2: u32) -> bool {
    t1 > t2 || (t1 == t2 && spec_after(seq1, seq2))
}

/// Whether a segment was sent after another (see `rack_sent_after`).
pub fn tcp_rack_sent_after(t1: u64, t2: u64, seq1: u32, seq2: u32) -> (r: bool)
    ensures
        r == rack_sent_after(t1, t2, seq1, seq2),
{
    t1 > t2 || (t1 == t2 && after(seq1, seq2))
}

// ---------------------------------------------------------------------------
// Reordering window
// ---------------------------------------------------------------------------

/// The reordering window: zero while no reordering was seen and the
/// connection is in recovery or has enough SACKed segments; otherwise a
/// quarter of the minimum RTT per step, at most the smoothed RTT.
pub open spec fn rack_reo_wnd(tp: tcp_sock, ca_state: u8, min_rtt: u32) -> int {
    if tp.reord_seen == 0 && (ca_state >= TCP_CA_Recovery || tp.sacked_out >= tp.reordering) {
        0
    } else {
        let w = (min_rtt / 4) * (tp.rack.reo_wnd_steps as int);
        let s = tp.srtt_us / 8;
        if w <= s { w } else { s as int }
    }
}

/// The reordering window of `tp`, given the congestion state and the
/// minimum RTT the connection has measured.
pub fn tcp_rack_reo_wnd(tp: &tcp_sock, ca_state: u8, min_rtt: u32) -> (r: u32)
    requires
        (min_rtt / 4) * (tp.rack.reo_wnd_steps as int) <= u32::MAX,
    ensures
        r == rack_reo_wnd(*tp, ca_state, min_rtt),
{
    if tp.reord_seen == 0 {
        if ca_state >= TCP_CA_Recovery {
            return 0;
        }
        if tp.sacked_out >= tp.reordering {
            return 0;
        }
    }
    let reo_wnd: u32 = (min_rtt / 4) * (tp.rack.reo_wnd_steps as u32);
    let srtt: u32 = tp.srtt_us / 8;
    if reo_wnd <= srtt { reo_wnd } else { srtt }
}

// ---------------------------------------------------------------------------
// Loss detection
// ---------------------------------------------------------------------------

/// A segment marked lost that was not retransmitted yet is passed over.
pub open spec fn rack_skipped(skb: sk_buff) -> bool {
    skb.cb.sacked & TCPCB_LOST != 0 && skb.cb.sacked & TCPCB_SACKED_RETRANS == 0
}

/// The scan stops at the first segment that is not passed over and was not
/// sent before the most recently delivered one.
pub open spec fn rack_stops_at(q: Seq<sk_buff>, rack: RACK, i: int) -> bool {
    !rack_skipped(q[i]) && !rack_sent_after(rack.mstamp, q[i].tstamp_us, rack.end_seq, q[i].cb.end_seq)
}

/// Position of the first segment from `i` on at which the scan stops, or
/// the queue length.
pub open spec fn rack_scan_end(q: Seq<sk_buff>, rack: RACK, i: int) -> int
    decreases q.len() - i,
{
    if i >= q.len() {
        q.len() as int
    } else if rack_stops_at(q, rack, i) {
        i
    } else {
        rack_scan_end(q, rack, i + 1)
    }
}

/// Time left before segment `i` is deemed lost: RTT plus reordering window
/// minus the time since it was sent.
pub open spec fn rack_remaining(q: Seq<sk_buff>, rack: RACK, mstamp: u64, reo_wnd: u32, i: int) -> int {
    signed32(rack.rtt_us) + signed32(reo_wnd) - stamp_us_delta(mstamp, q[i].tstamp_us)
}

/// Time left before `skb` is deemed lost: RTT plus reordering window minus
/// the time since it was sent (see `rack_remaining`), in signed 32-bit
/// arithmetic, which must not overflow.
pub fn tcp_rack_skb_timeout(tp: &tcp_sock, skb: &sk_buff, reo_wnd: u32) -> (r: i32)
    requires
        i32::MIN <= signed32(tp.rack.rtt_us) + signed32(reo_wnd) <= i32::MAX,
        i32::MIN <= signed32(tp.rack.rtt_us) + signed32(reo_wnd) - stamp_us_delta(tp.tcp_mstamp, skb.tstamp_us) <= i32::MAX,
    ensures
        r == signed32(tp.rack.rtt_us) + signed32(reo_wnd) - stamp_us_delta(tp.tcp_mstamp, skb.tstamp_us),
{
    let base = as_signed(tp.rack.rtt_us) + as_signed(reo_wnd);
    base - tcp_stamp_us_delta(tp.tcp_mstamp, skb.tstamp_us)
}

/// The segments among the first `n` that are examined and found lost.
pub open spec fn rack_lost_upto(q: Seq<sk_buff>, rack: RACK, mstamp: u64, reo_wnd: u32, n: int) -> Seq<usize>
    decreases n,
{
    if n <= 0 {
        Seq::empty()
    } else {
        let prev = rack_lost_upto(q, rack, mstamp, reo_wnd, n - 1);
        if !rack_skipped(q[n - 1]) && rack_remaining(q, rack, mstamp, reo_wnd, n - 1) <= 0 {
            prev.push((n - 1) as usize)
        } else {
            prev
        }
    }
}

/// The longest time left among the first `n` segments that are examined and
/// not lost yet (zero if none).
pub open spec fn rack_timeout_upto(q: Seq<sk_buff>, rack: RACK, mstamp: u64, reo_wnd: u32, n: int) -> int
    decreases n,
{
    if n <= 0 {
        0
    } else {
        let prev = rack_timeout_upto(q, rack, mstamp, reo_wnd, n - 1);
        let rem = rack_remaining(q, rack, mstamp, reo_wnd, n - 1);
        if !rack_skipped(q[n - 1]) && rem > 0 && rem > prev { rem } else { prev }
    }
}

/// No intermediate of the timeout computation leaves the signed 32-bit range
/// for the segments the scan examines.
pub open spec fn rack_fits(q: Seq<sk_buff>, rack: RACK, mstamp: u64, reo_wnd: u32) -> bool {
    &&& i32::MIN <= signed32(rack.rtt_us) + signed32(reo_wnd) <= i32::MAX
    &&& forall|i: int| 0 <= i < rack_scan_end(q, rack, 0) ==>
        i32::MIN <= #[trigger] rack_remaining(q, rack, mstamp, reo_wnd, i) <= i32::MAX
}

proof fn lemma_scan_end_bounds(q: Seq<sk_buff>, rack: RACK, i: int)
    requires
        0 <= i <= q.len(),
    ensures
        i <= rack_scan_end(q, rack, i) <= q.len(),
        rack_scan_end(q, rack, i) < q.len() ==> rack_stops_at(q, rack, rack_scan_end(q, rack, i)),
        forall|k: int| i <= k < rack_scan_end(q, rack, i) ==> !rack_stops_at(q, rack, k),
    decreases q.len() - i,
{
    if i < q.len() && !rack_stops_at(q, rack, i) {
        lemma_scan_end_bounds(q, rack, i + 1);
    }
}

proof fn lemma_timeout_nonneg(q: Seq<sk_buff>, rack: RACK, mstamp: u64, reo_wnd: u32, n: int)
    ensures
        rack_timeout_upto(q, rack, mstamp, reo_wnd, n) >= 0,
    decreases n,
{
    if n > 0 {
        lemma_timeout_nonneg(q, rack, mstamp, reo_wnd, n - 1);
    }
}

proof fn lemma_timeout_bound(q: Seq<sk_buff>, rack: RACK, mstamp: u64, reo_wnd: u32, n: int)
    requires
        0 <= n <= rack_scan_end(q, rack, 0),
        rack_fits(q, rack, mstamp, reo_wnd),
    ensures
        rack_timeout_upto(q, rack, mstamp, reo_wnd, n) <= i32::MAX,
    decreases n,
{
    if n > 0 {
        lemma_timeout_bound(q, rack, mstamp, reo_wnd, n - 1);
        assert(i32::MIN <= rack_remaining(q, rack, mstamp, reo_wnd, n - 1) <= i32::MAX);
    }
}

/// Walk the time-ordered queue of sent segments: every examined segment whose
/// time is up is marked lost; the result is the positions marked, in queue
/// order, and the longest time left among the others (the reordering timer).
pub fn tcp_rack_detect_loss(tp: &tcp_sock, queue: &Vec<sk_buff>, ca_state: u8, min_rtt: u32) -> (r: (Vec<usize>, u32))
    requires
        (min_rtt / 4) * (tp.rack.reo_wnd_steps as int) <= u32::MAX,
        rack_fits(queue@, tp.rack, tp.tcp_mstamp, rack_reo_wnd(*tp, ca_state, min_rtt) as u32),
    ensures
        r.0@ == rack_lost_upto(queue@, tp.rack, tp.tcp_mstamp, rack_reo_wnd(*tp, ca_state, min_rtt) as u32,
            rack_scan_end(queue@, tp.rack, 0)),
        r.1 == rack_timeout_upto(queue@, tp.rack, tp.tcp_mstamp, rack_reo_wnd(*tp, ca_state, min_rtt) as u32,
            rack_scan_end(queue@, tp.rack, 0)),
{
    let reo_wnd = tcp_rack_reo_wnd(tp, ca_state, min_rtt);
    let ghost q = queue@;
    let ghost rack = tp.rack;
    let ghost mstamp = tp.tcp_mstamp;
    let ghost end = rack_scan_end(q, rack, 0);
    proof {
        lemma_scan_end_bounds(q, rack, 0);
    }
    let mut lost: Vec<usize> = Vec::new();
    let mut timeout: u32 = 0;
    let mut i: usize = 0;
    while i < queue.len()
        invariant
            q == queue@,
            rack == tp.rack,
            mstamp == tp.tcp_mstamp,
            end == rack_scan_end(q, rack, 0),
            0 <= end <= q.len(),
            forall|k: int| 0 <= k < end ==> !rack_stops_at(q, rack, k),
            end < q.len() ==> rack_stops_at(q, rack, end),
            rack_fits(q, rack, mstamp, reo_wnd),
            i <= end,
            lost@ == rack_lost_upto(q, rack, mstamp, reo_wnd, i as int),
            timeout == rack_timeout_upto(q, rack, mstamp, reo_wnd, i as int),
        ensures
            lost@ == rack_lost_upto(q, rack, mstamp, reo_wnd, end),
            timeout == rack_timeout_upto(q, rack, mstamp, reo_wnd, end),
        decreases queue.len() - i,
    {
        let skb = &queue[i];
        let skipped = skb.cb.sacked & TCPCB_LOST != 0 && skb.cb.sacked & TCPCB_SACKED_RETRANS == 0;
        if !skipped {
            if !tcp_rack_sent_after(tp.rack.mstamp, skb.tstamp_us, tp.rack.end_seq, skb.cb.end_seq) {
                proof {
                    assert(rack_stops_at(q, rack, i as int));
                    assert(i as int == end);
                }
                break;
            }
            proof {
                assert(!rack_stops_at(q, rack, i as int));
                assert(i < end);
                assert(i32::MIN <= rack_remaining(q, rack, mstamp, reo_wnd, i as int) <= i32::MAX);
            }
            let remaining = tcp_rack_skb_timeout(tp, skb, reo_wnd);
            if remaining <= 0 {
                lost.push(i);
            } else if remaining as i64 > timeout as i64 {
                timeout = remaining as u32;
            }
        } else {
            proof {
                assert(!rack_stops_at(q, rack, i as int));
            }
        }
        proof {
            lemma_timeout_nonneg(q, rack, mstamp, reo_wnd, i as int);
        }
        i = i + 1;
    }
    (lost, timeout)
}

/// After an ACK advanced RACK: scan for lost segments and, when some are
/// still within their window, arm the reordering timer. Returns whether the
/// timer is armed and the timer's length in jiffies.
pub fn tcp_rack_mark_lost(tp: &mut tcp_sock, queue: &Vec<sk_buff>, ca_state: u8, min_rtt: u32) -> (r: (bool, Vec<usize>, u32))
    requires
        (min_rtt / 4) * (old(tp).rack.reo_wnd_steps as int) <= u32::MAX,
        rack_fits(queue@, old(tp).rack, old(tp).tcp_mstamp, rack_reo_wnd(*old(tp), ca_state, min_rtt) as u32),
    ensures
        old(tp).rack.advanced == 0 ==> !r.0 && r.1@ == Seq::<usize>::empty() && r.2 == 0 && *final(tp) == *old(tp),
        old(tp).rack.advanced != 0 ==> {
            let reo = rack_reo_wnd(*old(tp), ca_state, min_rtt) as u32;
            let end = rack_scan_end(queue@, old(tp).rack, 0);
            let t = rack_timeout_upto(queue@, old(tp).rack, old(tp).tcp_mstamp, reo, end);
            &&& r.0 == (t != 0)
            &&& r.1@ == rack_lost_upto(queue@, old(tp).rack, old(tp).tcp_mstamp, reo, end)
            &&& r.2 == (if t != 0 { (t + 999) / 1000 + TCP_TIMEOUT_MIN } else { 0 })
            &&& *final(tp) == (tcp_sock { rack: RACK { advanced: 0, ..old(tp).rack }, ..*old(tp) })
        },
{
    if tp.rack.advanced == 0 {
        return (false, Vec::new(), 0);
    }
    let (lost, timeout) = tcp_rack_detect_loss(tp, queue, ca_state, min_rtt);
    proof {
        lemma_scan_end_bounds(queue@, tp.rack, 0);
        lemma_timeout_bound(queue@, tp.rack, tp.tcp_mstamp, rack_reo_wnd(*tp, ca_state, min_rtt) as u32,
            rack_scan_end(queue@, tp.rack, 0));
    }
    tp.rack.advanced = 0;
    if timeout != 0 {
        let jiffies = usecs_to_jiffies(timeout) + TCP_TIMEOUT_MIN;
        (true, lost, jiffies)
    } else {
        (false, lost, 0)
    }
}

// ---------------------------------------------------------------------------
// Tracking the most recently sent delivered segment
// ---------------------------------------------------------------------------

/// A signed 32-bit value stored in an unsigned word (two's complement).
pub open spec fn unsigned32(x: int) -> u32 {
    (if x < 0 { x + 0x1_0000_0000 } else { x }) as u32
}

fn as_unsigned(x: i32) -> (r: u32)
    ensures
        r == unsigned32(x as int),
{
    if x < 0 {
        ((x as i64) + 0x1_0000_0000i64) as u32
    } else {
        x as u32
    }
}

/// Record that a segment sent at `xmit_time`, ending at `end_seq`, was
/// delivered. A retransmission whose measured RTT is below the minimum RTT is
/// ignored (the ACK may be for the original transmission). Otherwise RACK is
/// marked advanced, takes the RTT sample, and moves to this segment if it was
/// sent after the one it tracked.
pub fn tcp_rack_advance(tp: &mut tcp_sock, sacked: u8, end_seq: u32, xmit_time: u64, min_rtt: u32)
    ensures
        ({
            let rtt = stamp_us_delta(old(tp).tcp_mstamp, xmit_time);
            let o = old(tp).rack;
            if rtt < min_rtt && sacked & TCPCB_RETRANS != 0 {
                *final(tp) == *old(tp)
            } else {
                let moved = rack_sent_after(xmit_time, o.mstamp, end_seq, o.end_seq);
                *final(tp) == (tcp_sock {
                    rack: RACK {
                        advanced: 1,
                        rtt_us: unsigned32(rtt),
                        mstamp: if moved { xmit_time } else { o.mstamp },
                        end_seq: if moved { end_seq } else { o.end_seq },
                        ..o
                    },
                    ..*old(tp)
                })
            }
        }),
{
    let rtt_us = tcp_stamp_us_delta(tp.tcp_mstamp, xmit_time);
    if (rtt_us as i64) < (min_rtt as i64) && sacked & TCPCB_RETRANS != 0 {
        return;
    }
    tp.rack.advanced = 1;
    tp.rack.rtt_us = as_unsigned(rtt_us);
    if tcp_rack_sent_after(xmit_time, tp.rack.mstamp, end_seq, tp.rack.end_seq) {
        tp.rack.mstamp = xmit_time;
        tp.rack.end_seq = end_seq;
    }
}

/// RACK never goes back in time: after any advance, the segment it tracks is
/// the one it tracked before or one sent after it.
pub proof fn rack_advance_monotone(old_rack: RACK, new_rack: RACK, xmit_time: u64, end_seq: u32)
    requires
        new_rack.mstamp == (if rack_sent_after(xmit_time, old_rack.mstamp, end_seq, old_rack.end_seq) { xmit_time } else { old_rack.mstamp }),
        new_rack.end_seq == (if rack_sent_after(xmit_time, old_rack.mstamp, end_seq, old_rack.end_seq) { end_seq } else { old_rack.end_seq }),
    ensures
        new_rack.mstamp >= old_rack.mstamp,
        (new_rack.mstamp == old_rack.mstamp && new_rack.end_seq == old_rack.end_seq)
            || rack_sent_after(new_rack.mstamp, old_rack.mstamp, new_rack.end_seq, old_rack.end_seq),
{
}

// ---------------------------------------------------------------------------
// Adapting the reordering window
// ---------------------------------------------------------------------------

/// Adapt the reordering window after an ACK whose rate sample started at
/// `prior_delivered`: a DSACK seen since the window last grew widens it by
/// one step (at most 255) and keeps it for `TCP_RACK_RECOVERY_THRESH`
/// recoveries; once that persistence ran out the window returns to one step.
pub fn tcp_rack_update_reo_wnd(tp: &mut tcp_sock, sysctl_tcp_recovery: u32, rs: &rate_sample)
    ensures
        ({
            let o = old(tp).rack;
            if sysctl_tcp_recovery & TCP_RACK_STATIC_REO_WND != 0 || rs.prior_delivered == 0 {
                *final(tp) == *old(tp)
            } else if spec_before(rs.prior_delivered, o.last_delivered) {
                *final(tp) == (tcp_sock { rack: RACK { dsack_seen: 0, ..o }, ..*old(tp) })
            } else if o.dsack_seen != 0 {
                *final(tp) == (tcp_sock {
                    rack: RACK {
                        reo_wnd_steps: if o.reo_wnd_steps < 255 { (o.reo_wnd_steps + 1) as u8 } else { 255 },
                        dsack_seen: 0,
                        last_delivered: old(tp).delivered,
                        reo_wnd_persist: TCP_RACK_RECOVERY_THRESH,
                        ..o
                    },
                    ..*old(tp)
                })
            } else if o.reo_wnd_persist == 0 {
                *final(tp) == (tcp_sock { rack: RACK { reo_wnd_steps: 1, ..o }, ..*old(tp) })
            } else {
                *final(tp) == *old(tp)
            }
        }),
{
    if sysctl_tcp_recovery & TCP_RACK_STATIC_REO_WND != 0 || rs.prior_delivered == 0 {
        return;
    }
    if before(rs.prior_delivered, tp.rack.last_delivered) {
        tp.rack.dsack_seen = 0;
        return;
    }
    if tp.rack.dsack_seen != 0 {
        tp.rack.reo_wnd_steps = if tp.rack.reo_wnd_steps < 255 { tp.rack.reo_wnd_steps + 1 } else { 255 };
        tp.rack.dsack_seen = 0;
        tp.rack.last_delivered = tp.delivered;
        tp.rack.reo_wnd_persist = TCP_RACK_RECOVERY_THRESH;
    } else if tp.rack.reo_wnd_persist == 0 {
        tp.rack.reo_wnd_steps = 1;
    }
}

// ---------------------------------------------------------------------------
// NewReno fallback
// ---------------------------------------------------------------------------

/// What the NewReno fallback does to the head of the retransmission queue.
pub enum NewRenoAction {
    /// Nothing is marked.
    Keep,
    /// The head segment is marked lost.
    MarkLost,
    /// The head segment is split at one MSS, then its first part is marked lost.
    SplitAndMarkLost,
}

/// Without SACK-based detection: in Open/Disorder with enough duplicate
/// ACKs, or in Recovery when the cumulative ACK advanced, the head of the
/// retransmission queue is lost; a head of several segments is split first.
pub fn tcp_newreno_mark_lost(ca_state: u8, sacked_out: u32, reordering: u32, snd_una_advanced: bool,
    head_sacked: u8, head_pcount: u32, head_len: u32, mss: u32) -> (r: NewRenoAction)
    ensures
        ({
            let due = (ca_state < TCP_CA_Recovery && sacked_out >= reordering)
                || (ca_state == TCP_CA_Recovery && snd_una_advanced);
            if !due || head_sacked & TCPCB_LOST != 0 {
                r is Keep
            } else if head_pcount > 1 && head_len > mss {
                r is SplitAndMarkLost
            } else {
                r is MarkLost
            }
        }),
{
    if (ca_state < TCP_CA_Recovery && sacked_out >= reordering)
        || (ca_state == TCP_CA_Recovery && snd_una_advanced) {
        if head_sacked & TCPCB_LOST != 0 {
            return NewRenoAction::Keep;
        }
        if head_pcount > 1 && head_len > mss {
            NewRenoAction::SplitAndMarkLost
        } else {
            NewRenoAction::MarkLost
        }
    } else {
        NewRenoAction::Keep
    }
}

/// What the reordering timer's expiry leads to: the segments now marked
/// lost; entering recovery (with a window reduction unless the congestion
/// control sets the window itself) when losses appeared outside recovery;
/// retransmitting when losses appeared; rearming the retransmission timer
/// unless it is the one pending.
pub struct reo_timeout_plan {
    pub lost: Vec<usize>,
    pub enter_recovery: bool,
    pub cwnd_reduction: bool,
    pub retransmit: bool,
    pub rearm_rto: bool,
}

pub const ICSK_TIME_RETRANS: u8 = 1;

pub fn tcp_rack_reo_timeout(tp: &tcp_sock, queue: &Vec<sk_buff>, ca_state: u8, min_rtt: u32, has_cong_control: bool, icsk_pending: u8) -> (r: reo_timeout_plan)
    requires
        (min_rtt / 4) * (tp.rack.reo_wnd_steps as int) <= u32::MAX,
        rack_fits(queue@, tp.rack, tp.tcp_mstamp, rack_reo_wnd(*tp, ca_state, min_rtt) as u32),
    ensures
        ({
            let lost = rack_lost_upto(queue@, tp.rack, tp.tcp_mstamp, rack_reo_wnd(*tp, ca_state, min_rtt) as u32,
                rack_scan_end(queue@, tp.rack, 0));
            let changed = lost.len() > 0;
            &&& r.lost@ == lost
            &&& r.enter_recovery == (changed && ca_state != TCP_CA_Recovery)
            &&& r.cwnd_reduction == (changed && ca_state != TCP_CA_Recovery && !has_cong_control)
            &&& r.retransmit == changed
            &&& r.rearm_rto == (icsk_pending != ICSK_TIME_RETRANS)
        }),
{
    let (lost, _timeout) = tcp_rack_detect_loss(tp, queue, ca_state, min_rtt);
    let changed = lost.len() > 0;
    let enter = changed && ca_state != TCP_CA_Recovery;
    reo_timeout_plan {
        lost,
        enter_recovery: enter,
        cwnd_reduction: enter && !has_cong_control,
        retransmit: changed,
        rearm_rto: icsk_pending != ICSK_TIME_RETRANS,
    }
}


/// Until reordering has been seen, a connection in recovery has no
/// reordering window: its losses are marked at once. Otherwise the window
/// never exceeds an eighth of the smoothed RTT.
pub proof fn no_reordering_window_in_recovery(tp: tcp_sock, ca_state: u8, min_rtt: u32)
    ensures
        tp.reord_seen == 0 && ca_state >= TCP_CA_Recovery ==> rack_reo_wnd(tp, ca_state, min_rtt) == 0,
        tp.reord_seen == 0 && tp.sacked_out >= tp.reordering ==> rack_reo_wnd(tp, ca_state, min_rtt) == 0,
        0 <= rack_reo_wnd(tp, ca_state, min_rtt) <= tp.srtt_us / 8,
{
    assert((min_rtt / 4) * (tp.rack.reo_wnd_steps as int) >= 0) by (nonlinear_arith);
}


/// The reordering window is never more than a quarter of the minimum RTT
/// per step of the window; once reordering was seen it is exactly the
/// smaller of that and an eighth of the smoothed RTT.
pub proof fn reordering_window_bounded_by_min_rtt(tp: tcp_sock, ca_state: u8, min_rtt: u32)
    ensures
        rack_reo_wnd(tp, ca_state, min_rtt) <= (min_rtt / 4) * (tp.rack.reo_wnd_steps as int),
        tp.reord_seen != 0 ==> {
            let w = (min_rtt / 4) * (tp.rack.reo_wnd_steps as int);
            rack_reo_wnd(tp, ca_state, min_rtt) == (if w <= tp.srtt_us / 8 { w } else { (tp.srtt_us / 8) as int })
        },
{
    assert((min_rtt / 4) * (tp.rack.reo_wnd_steps as int) >= 0) by (nonlinear_arith);
}

} // verus!
