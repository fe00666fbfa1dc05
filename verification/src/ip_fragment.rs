//! IPv4 reassembly queues: the key a fragment is queued under, the ECN
//! marks seen, a queue's expiry, how far behind a peer's fragments may
//! fall, and resetting a queue.
use vstd::prelude::*;
use crate::inetpeer::inet_peer;
use crate::byteorder::{host_to_net16, swap16};

verus! {

pub const EINVAL: i32 = -22;
pub const ENOMEM: i32 = -12;
pub const ETIMEDOUT: i32 = -110;
pub const INET_ECN_MASK: u8 = 0x03;
/// The queue is complete (or killed).
pub const INET_FRAG_COMPLETE: u32 = 1;
/// The first fragment has arrived.
pub const INET_FRAG_FIRST_IN: u32 = 2;
/// The length below which a fragment cannot be queued.
pub const FRAG_MIN_QUEUE_LEN: usize = 100;

/// What identifies a datagram being reassembled.
#[derive(Clone, Copy)]
pub struct frag_v4_compare_key {
    pub saddr: u32,
    pub daddr: u32,
    pub user: u32,
    pub vif: u32,
    pub id: u16,
    pub protocol: u8,
}

/// The IPv4 header fields reassembly looks at.
pub struct iphdr {
    pub saddr: u32,
    pub daddr: u32,
    pub id: u16,
    pub protocol: u8,
    pub tos: u8,
    pub frag_off: u16,
}

pub struct timer_list {
    pub expires: u64,
}

/// The settings of the reassembly directory: whether it is being torn
/// down, the timeout, and how far behind a peer's other datagrams a
/// queue may fall (0 for no limit).
pub struct fqdir {
    pub dead: bool,
    pub timeout: u64,
    pub max_dist: u32,
}

/// A reassembly queue: its key, flags, timer, length so far, bytes
/// received, and whether it holds fragments.
pub struct inet_frag_queue {
    pub key: frag_v4_compare_key,
    pub refcnt: u32,
    pub flags: u32,
    pub timer: timer_list,
    pub len: usize,
    pub meat: usize,
    pub max_size: usize,
    pub has_fragments: bool,
}

/// An IPv4 reassembly queue: the generic queue, the ECN marks seen, the
/// largest fragment with don't-fragment, the input interface, the peer's
/// datagram count when the queue was last touched, and the peer.
pub struct ipq {
    pub q: inet_frag_queue,
    pub ecn: u8,
    pub max_df_size: u16,
    pub iif: u32,
    pub rid: u32,
    pub peer: Option<inet_peer>,
}

/// The ECN mark of a TOS byte as a bit: bit `tos & 3`.
pub open spec fn frag_ecn(tos: u8) -> u8 {
    (1u8 << (tos & INET_ECN_MASK)) as u8
}

pub fn ip4_frag_ecn(tos: u8) -> (r: u8)
    ensures
        r == frag_ecn(tos),
        r == 1 || r == 2 || r == 4 || r == 8,
{
    let e = tos & INET_ECN_MASK;
    assert(e < 4) by (bit_vector)
        requires
            e == tos & 3,
    ;
    proof {
        assert((e == 0 ==> (1u8 << e) == 1) && (e == 1 ==> (1u8 << e) == 2) && (e == 2 ==> (1u8 << e) == 4) && (e == 3 ==> (1u8 << e) == 8)) by (bit_vector);
    }
    1u8 << e
}

/// Start a queue for `key`: no flags, no ECN marks, no peer.
pub fn ip4_frag_init(q: &mut ipq, key: &frag_v4_compare_key)
    ensures
        final(q).q.key == *key,
        final(q).q.flags == 0,
        final(q).ecn == 0,
        final(q).peer is None,
        final(q).q.refcnt == old(q).q.refcnt,
        final(q).q.len == old(q).q.len,
        final(q).q.meat == old(q).q.meat,
{
    q.q.key = *key;
    q.q.flags = 0;
    q.ecn = 0;
    q.peer = None;
}

/// Let go of the queue's peer.
pub fn ip4_frag_free(q: &mut ipq)
    ensures
        final(q).peer is None,
        final(q).q.key == old(q).q.key,
        final(q).q.flags == old(q).q.flags,
{
    q.peer = None;
}

/// Mark a queue as done with: complete, so nothing more is added.
pub fn ipq_kill(q: &mut ipq)
    ensures
        final(q).q.flags == old(q).q.flags | INET_FRAG_COMPLETE,
        final(q).q.refcnt == old(q).q.refcnt,
        final(q).q.key == old(q).q.key,
{
    q.q.flags = q.q.flags | INET_FRAG_COMPLETE;
}

/// Drop a reference to the queue; whether it was the last.
pub fn ipq_put(q: &mut ipq) -> (last: bool)
    requires
        old(q).q.refcnt > 0,
    ensures
        final(q).q.refcnt == old(q).q.refcnt - 1,
        last == (final(q).q.refcnt == 0),
        final(q).q.flags == old(q).q.flags,
{
    q.q.refcnt = q.q.refcnt - 1;
    q.q.refcnt == 0
}

/// What the expiry of a queue's timer does.
#[derive(Debug, PartialEq, Eq, Structural)]
pub enum ExpireAction {
    /// Nothing: the directory is going away or the queue is complete.
    Nothing,
    /// The queue is killed and released; a time-exceeded error goes to the
    /// sender when the first fragment had arrived.
    Expired { send_time_exceeded: bool },
}

/// The queue's timer ran out.
pub fn ip_expire(q: &mut ipq, dir: &fqdir) -> (r: ExpireAction)
    requires
        old(q).q.refcnt > 0,
    ensures
        (dir.dead || old(q).q.flags & INET_FRAG_COMPLETE != 0) ==> r == ExpireAction::Nothing && *final(q) == *old(q),
        !(dir.dead || old(q).q.flags & INET_FRAG_COMPLETE != 0) ==> {
            &&& r == (ExpireAction::Expired { send_time_exceeded: old(q).q.flags & INET_FRAG_FIRST_IN != 0 })
            &&& final(q).q.flags == old(q).q.flags | INET_FRAG_COMPLETE
            &&& final(q).q.refcnt == old(q).q.refcnt - 1
        },
{
    if dir.dead {
        return ExpireAction::Nothing;
    }
    if q.q.flags & INET_FRAG_COMPLETE != 0 {
        return ExpireAction::Nothing;
    }
    let first_in = q.q.flags & INET_FRAG_FIRST_IN != 0;
    ipq_kill(q);
    let _ = ipq_put(q);
    ExpireAction::Expired { send_time_exceeded: first_in }
}

/// The key a fragment is queued under.
pub open spec fn key_of(iph: iphdr, user: u32, vif: u32) -> frag_v4_compare_key {
    frag_v4_compare_key { saddr: iph.saddr, daddr: iph.daddr, user, vif, id: iph.id, protocol: iph.protocol }
}

/// The queue of `queues` that a fragment with header `iph` belongs to for
/// `user` and interface `vif`: the first with its key.
pub fn ip_find(queues: &Vec<ipq>, iph: &iphdr, user: u32, vif: u32) -> (r: Option<usize>)
    ensures
        r matches Some(i) ==> i < queues.len() && queues@[i as int].q.key == key_of(*iph, user, vif)
            && forall|j: int| 0 <= j < i ==> (#[trigger] queues@[j]).q.key != key_of(*iph, user, vif),
        r is None ==> forall|j: int| 0 <= j < queues.len() ==> (#[trigger] queues@[j]).q.key != key_of(*iph, user, vif),
{
    let key = frag_v4_compare_key { saddr: iph.saddr, daddr: iph.daddr, user, vif, id: iph.id, protocol: iph.protocol };
    let mut i: usize = 0;
    while i < queues.len()
        invariant
            i <= queues.len(),
            key == key_of(*iph, user, vif),
            forall|j: int| 0 <= j < i ==> (#[trigger] queues@[j]).q.key != key,
        decreases queues.len() - i,
    {
        let k = &queues[i].q.key;
        if k.saddr == key.saddr && k.daddr == key.daddr && k.user == key.user && k.vif == key.vif && k.id == key.id
            && k.protocol == key.protocol {
            return Some(i);
        }
        i = i + 1;
    }
    None
}

/// Whether the queue fell too far behind its peer: with a peer and a
/// limit, the peer's datagram count moves on by one and the queue records
/// it; the queue is too far behind when it holds fragments and the count
/// moved on by more than the limit since the queue last recorded it.
pub fn ip_frag_too_far(qp: &mut ipq, dir: &fqdir) -> (r: i32)
    ensures
        (old(qp).peer is None || dir.max_dist == 0) ==> r == 0 && *final(qp) == *old(qp),
        old(qp).peer matches Some(p) ==> dir.max_dist != 0 ==> {
            let end = p.rid.wrapping_add(1);
            &&& final(qp).rid == end
            &&& final(qp).peer matches Some(np) && np.rid == end
            &&& r == (if old(qp).q.has_fragments && end.wrapping_sub(old(qp).rid) > dir.max_dist { 1i32 } else { 0i32 })
        },
{
    let max = dir.max_dist;
    match &mut qp.peer {
        None => 0,
        Some(p) => {
            if max == 0 {
                return 0;
            }
            let start = qp.rid;
            let end = p.rid.wrapping_add(1);
            p.rid = end;
            qp.rid = end;
            if qp.q.has_fragments && end.wrapping_sub(start) > max { 1 } else { 0 }
        },
    }
}

/// Set the timer to expire at `expires`; reports that it was set.
pub fn mod_timer(timer: &mut timer_list, expires: u64) -> (r: i32)
    ensures
        final(timer).expires == expires,
        r == 1,
{
    timer.expires = expires;
    1
}

/// Start the queue over: without a directory the negated `EINVAL`;
/// otherwise its timer is re-armed and its fragments, flags, length, bytes
/// received, input interface and ECN marks are cleared (0).
pub fn ip_frag_reinit(qp: &mut ipq, dir: Option<&fqdir>) -> (r: i32)
    ensures
        dir is None ==> r == -EINVAL && *final(qp) == *old(qp),
        dir is Some ==> {
            &&& r == 0
            &&& final(qp).q.flags == 0 && final(qp).q.len == 0 && final(qp).q.meat == 0
            &&& !final(qp).q.has_fragments
            &&& final(qp).iif == 0 && final(qp).ecn == 0
            &&& final(qp).q.timer.expires == 0
            &&& final(qp).q.key == old(qp).q.key
            &&& final(qp).rid == old(qp).rid
        },
{
    if dir.is_none() {
        return -EINVAL;
    }
    if mod_timer(&mut qp.q.timer, 0) == 0 {
        return -ETIMEDOUT;
    }
    qp.q.has_fragments = false;
    qp.q.flags = 0;
    qp.q.len = 0;
    qp.q.meat = 0;
    qp.iif = 0;
    qp.ecn = 0;
    0
}

/// Queue a fragment of `len` bytes: fragments under the minimum length are
/// refused with the negated `ENOMEM`; otherwise the queue is marked
/// complete (0).
pub fn ip_frag_queue(qp: &mut ipq, len: usize) -> (r: i32)
    ensures
        len < FRAG_MIN_QUEUE_LEN ==> r == -ENOMEM && *final(qp) == *old(qp),
        len >= FRAG_MIN_QUEUE_LEN ==> r == 0 && final(qp).q.flags == old(qp).q.flags | INET_FRAG_COMPLETE,
{
    if len < FRAG_MIN_QUEUE_LEN {
        return -ENOMEM;
    }
    qp.q.flags = qp.q.flags | INET_FRAG_COMPLETE;
    0
}

/// A 16-bit value from network to host order.
pub fn ntohs(x: u16) -> (r: u16)
    ensures
        r == swap16(x),
{
    host_to_net16(x)
}

} // verus!
