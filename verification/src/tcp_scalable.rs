//! Scalable TCP: the window grows by one packet per 100 ACKed (per window
//! when smaller) and shrinks by an eighth on loss.
use vstd::prelude::*;
use crate::tcp_cong::{tcp_sock, in_slow_start, slow_start_spec, cong_avoid_ai, tcp_slow_start, tcp_cong_avoid_ai, cong_registry, tcp_congestion_ops, tcp_register_congestion_control, tcp_unregister_congestion_control, jhash, complete, name_key, has_key, first_key, TCP_CA_UNSPEC, lemma_cstr_prefix, strnlen};

verus! {

pub const TCP_SCALABLE_AI_CNT: u32 = 100;
pub const TCP_SCALABLE_MD_SCALE: u32 = 3;

/// On an ACK while the window limits sending: slow start first (what is
/// left over counts on), then one packet per `min(cwnd, 100)` ACKed.
pub open spec fn scalable_cong_avoid(tp: tcp_sock, acked: u32, cwnd_limited: bool) -> tcp_sock {
    if !cwnd_limited {
        tp
    } else {
        let ss = in_slow_start(tp);
        let tp1 = if ss { slow_start_spec(tp, acked).0 } else { tp };
        let left: int = if ss { slow_start_spec(tp, acked).1 } else { acked as int };
        if ss && left == 0 {
            tp1
        } else {
            let cnt = if tp1.snd_cwnd < TCP_SCALABLE_AI_CNT { tp1.snd_cwnd } else { TCP_SCALABLE_AI_CNT };
            cong_avoid_ai(tp1, cnt, left as u32)
        }
    }
}

pub fn tcp_scalable_cong_avoid(tp: &mut tcp_sock, ack: u32, acked: u32, cwnd_limited: bool)
    requires
        0 < old(tp).snd_cwnd <= old(tp).snd_cwnd_clamp,
        old(tp).snd_cwnd_clamp < u32::MAX / 2,
        old(tp).snd_cwnd_cnt <= u32::MAX / 4,
        acked <= u32::MAX / 4,
    ensures
        *final(tp) == scalable_cong_avoid(*old(tp), acked, cwnd_limited),
{
    if !cwnd_limited {
        return;
    }
    let mut acked = acked;
    if tp.snd_cwnd < tp.snd_ssthresh {
        acked = tcp_slow_start(tp, acked);
        if acked == 0 {
            return;
        }
    }
    let cnt = if tp.snd_cwnd < TCP_SCALABLE_AI_CNT { tp.snd_cwnd } else { TCP_SCALABLE_AI_CNT };
    proof {
        let t: int = tp.snd_cwnd_cnt as int + acked;
        assert(t / (cnt as int) <= t) by (nonlinear_arith)
            requires
                cnt >= 1,
                t >= 0,
        ;
    }
    tcp_cong_avoid_ai(tp, cnt, acked);
}

/// The threshold after a loss: the window less an eighth, at least 2.
pub open spec fn scalable_ssthresh(cwnd: u32) -> u32 {
    let t: int = cwnd - cwnd / 8;
    if t < 2 { 2 } else { t as u32 }
}

pub fn tcp_scalable_ssthresh(tp: &tcp_sock) -> (r: u32)
    ensures
        r == scalable_ssthresh(tp.snd_cwnd),
        r >= 2,
{
    proof {
        vstd::bits::lemma_u32_shr_is_div(tp.snd_cwnd, TCP_SCALABLE_MD_SCALE);
        vstd::arithmetic::power2::lemma2_to64();
    }
    let reduction = tp.snd_cwnd >> TCP_SCALABLE_MD_SCALE;
    let t = tp.snd_cwnd - reduction;
    if t < 2 { 2 } else { t }
}

/// Scalable TCP's entry for the congestion control registry.
pub open spec fn scalable_ops_spec() -> tcp_congestion_ops {
    tcp_congestion_ops {
        name: [115u8, 99u8, 97u8, 108u8, 97u8, 98u8, 108u8, 101u8, 0u8, 0u8, 0u8, 0u8, 0u8, 0u8, 0u8, 0u8],
        key: 0,
        flags: 0,
        has_ssthresh: true,
        has_cong_avoid: true,
        has_cong_control: false,
        has_cwnd_undo: true,
        owner: 0,
    }
}

fn scalable_ops() -> (r: tcp_congestion_ops)
    ensures
        r == scalable_ops_spec(),
{
    tcp_congestion_ops {
        name: [115u8, 99u8, 97u8, 108u8, 97u8, 98u8, 108u8, 101u8, 0u8, 0u8, 0u8, 0u8, 0u8, 0u8, 0u8, 0u8],
        key: 0,
        flags: 0,
        has_ssthresh: true,
        has_cong_avoid: true,
        has_cong_control: false,
        has_cwnd_undo: true,
        owner: 0,
    }
}

/// Register Scalable TCP with the congestion control registry (the
/// registry's answer is returned).
pub fn tcp_scalable_register(reg: &mut cong_registry) -> (r: i32)
    requires
        old(reg).wf(),
    ensures
        final(reg).wf(),
        name_key(scalable_ops_spec().name@) != TCP_CA_UNSPEC && !has_key(old(reg).list@, name_key(scalable_ops_spec().name@))
            ==> r == 0 && final(reg).list@ == old(reg).list@.push(tcp_congestion_ops { key: name_key(scalable_ops_spec().name@), ..scalable_ops_spec() }),
        name_key(scalable_ops_spec().name@) == TCP_CA_UNSPEC || has_key(old(reg).list@, name_key(scalable_ops_spec().name@))
            ==> r != 0 && final(reg).list@ == old(reg).list@,
{
    let ops = scalable_ops();
    assert(complete(ops));
    tcp_register_congestion_control(reg, ops)
}

/// Remove Scalable TCP from the registry.
pub fn tcp_scalable_unregister(reg: &mut cong_registry)
    requires
        old(reg).wf(),
    ensures
        final(reg).wf(),
        !has_key(final(reg).list@, name_key(scalable_ops_spec().name@)),
        forall|i: int| first_key(old(reg).list@, name_key(scalable_ops_spec().name@), i) ==> final(reg).list@ == old(reg).list@.remove(i),
{
    let ops = scalable_ops();
    let len = strnlen(&ops.name, 16);
    proof {
        lemma_cstr_prefix(ops.name@);
    }
    let key = jhash(&ops.name, len, len as u32);
    tcp_unregister_congestion_control(reg, key);
}

} // verus!
