//! TIME-WAIT sockets: allocation against the table limit, taking the place
//! of the full socket in the hash tables, the reference count, the death
//! timer and purging a namespace's sockets.
use vstd::prelude::*;

verus! {

pub const EINVAL: i32 = -22;
pub const ENOMEM: i32 = -12;
pub const ENOSYS: i32 = -38;
pub const TCP_TIME_WAIT: i32 = 6;
pub const HZ: i32 = 100;

/// Links of a hash chain, as positions.
pub struct hlist_nulls_node {
    pub next: Option<usize>,
}

pub struct hlist_nulls_head {
    pub first: Option<usize>,
}

/// A chain of the established hash: the identities of its sockets, first
/// first.
pub struct inet_ehash_bucket {
    pub chain: Vec<u64>,
}

/// A bind-hash bucket: the sockets bound to its port.
pub struct inet_bind_hashbucket {
    pub owners: Vec<u64>,
}

/// The established-socket hash: one chain per slot.
pub struct inet_hashinfo {
    pub ehash: Vec<inet_ehash_bucket>,
    pub ehash_mask: usize,
}

/// How many TIME-WAIT sockets exist, and how many may.
pub struct inet_timewait_death_row {
    pub tw_count: i32,
    pub sysctl_max_tw_buckets: i32,
}

/// What a TIME-WAIT socket takes over from the full socket.
pub struct sock_info {
    pub id: u64,
    pub daddr: u32,
    pub rcv_saddr: u32,
    pub bound_dev_if: i32,
    pub tos: u8,
    pub num: i32,
    pub sport: u16,
    pub dport: u16,
    pub family: i32,
    pub reuse: i32,
    pub reuseport: i32,
    pub hash: u32,
    pub transparent: i32,
    pub cookie: u64,
}

/// A TIME-WAIT socket.
pub struct inet_timewait_sock {
    pub id: u64,
    pub tw_refcnt: i32,
    pub tw_daddr: u32,
    pub tw_rcv_saddr: u32,
    pub tw_bound_dev_if: i32,
    pub tw_tos: u8,
    pub tw_num: i32,
    pub tw_state: i32,
    pub tw_substate: i32,
    pub tw_sport: u16,
    pub tw_dport: u16,
    pub tw_family: i32,
    pub tw_reuse: i32,
    pub tw_reuseport: i32,
    pub tw_hash: u32,
    pub tw_ipv6only: i32,
    pub tw_transparent: i32,
    pub tw_kill: bool,
    pub tw_cookie: u64,
    pub timer_expires: Option<i64>,
    pub bound: bool,
}

/// Drop one reference. The result is 1; the boolean tells whether that was
/// the last reference, so that the socket is freed.
pub fn inet_twsk_put(tw: &mut inet_timewait_sock) -> (r: (i32, bool))
    requires
        old(tw).tw_refcnt > 0,
    ensures
        *final(tw) == (inet_timewait_sock { tw_refcnt: (old(tw).tw_refcnt - 1) as i32, ..*old(tw) }),
        r == (1i32, old(tw).tw_refcnt == 1),
{
    tw.tw_refcnt = tw.tw_refcnt - 1;
    (1, tw.tw_refcnt == 0)
}

/// A TIME-WAIT socket for `sk` in substate `state`, unless the table is
/// full or there is no memory (`alloc_ok`). It starts with no reference and
/// no timer.
pub fn inet_twsk_alloc(sk: &sock_info, dr: &inet_timewait_death_row, state: i32, id: u64, alloc_ok: bool) -> (r: Option<inet_timewait_sock>)
    ensures
        dr.tw_count >= dr.sysctl_max_tw_buckets || !alloc_ok ==> r is None,
        dr.tw_count < dr.sysctl_max_tw_buckets && alloc_ok ==> r == Some(inet_timewait_sock {
            id,
            tw_refcnt: 0,
            tw_daddr: sk.daddr,
            tw_rcv_saddr: sk.rcv_saddr,
            tw_bound_dev_if: sk.bound_dev_if,
            tw_tos: sk.tos,
            tw_num: sk.num,
            tw_state: TCP_TIME_WAIT,
            tw_substate: state,
            tw_sport: sk.sport,
            tw_dport: sk.dport,
            tw_family: sk.family,
            tw_reuse: sk.reuse,
            tw_reuseport: sk.reuseport,
            tw_hash: sk.hash,
            tw_ipv6only: 0,
            tw_transparent: sk.transparent,
            tw_kill: false,
            tw_cookie: sk.cookie,
            timer_expires: None,
            bound: false,
        }),
{
    if dr.tw_count >= dr.sysctl_max_tw_buckets {
        return None;
    }
    if !alloc_ok {
        return None;
    }
    Some(inet_timewait_sock {
        id,
        tw_refcnt: 0,
        tw_daddr: sk.daddr,
        tw_rcv_saddr: sk.rcv_saddr,
        tw_bound_dev_if: sk.bound_dev_if,
        tw_tos: sk.tos,
        tw_num: sk.num,
        tw_state: TCP_TIME_WAIT,
        tw_substate: state,
        tw_sport: sk.sport,
        tw_dport: sk.dport,
        tw_family: sk.family,
        tw_reuse: sk.reuse,
        tw_reuseport: sk.reuseport,
        tw_hash: sk.hash,
        tw_ipv6only: 0,
        tw_transparent: sk.transparent,
        tw_kill: false,
        tw_cookie: sk.cookie,
        timer_expires: None,
        bound: false,
    })
}

/// The chain without the sockets of identity `id`.
pub open spec fn chain_without(c: Seq<u64>, id: u64) -> Seq<u64>
    decreases c.len(),
{
    if c.len() == 0 {
        c
    } else if c.last() == id {
        chain_without(c.drop_last(), id)
    } else {
        chain_without(c.drop_last(), id).push(c.last())
    }
}

fn remove_id(c: &Vec<u64>, id: u64) -> (r: (Vec<u64>, bool))
    ensures
        r.0@ == chain_without(c@, id),
        r.1 == c@.contains(id),
{
    let mut out: Vec<u64> = Vec::new();
    let mut found = false;
    let mut k: usize = 0;
    while k < c.len()
        invariant
            k <= c.len(),
            out@ == chain_without(c@.take(k as int), id),
            found == c@.take(k as int).contains(id),
        decreases c.len() - k,
    {
        proof {
            assert(c@.take(k as int + 1).drop_last() =~= c@.take(k as int));
            assert(c@.take(k as int + 1).last() == c@[k as int]);
        }
        if c[k] != id {
            out.push(c[k]);
        } else {
            found = true;
        }
        k = k + 1;
        proof {
            let t = c@.take(k as int);
            assert(t.contains(id) == (t.drop_last().contains(id) || t.last() == id)) by {
                if t.contains(id) {
                    let j = choose|j: int| 0 <= j < t.len() && t[j] == id;
                    if j < t.len() - 1 {
                        assert(t.drop_last()[j] == id);
                    }
                }
                if t.drop_last().contains(id) {
                    let j = choose|j: int| 0 <= j < t.drop_last().len() && t.drop_last()[j] == id;
                    assert(t[j] == id);
                }
                if t.last() == id {
                    assert(t[t.len() - 1] == id);
                }
            }
        }
    }
    proof { assert(c@.take(c@.len() as int) =~= c@); }
    (out, found)
}

/// The TIME-WAIT socket takes the full socket's place: it joins the bind
/// bucket's owners and the head of the established chain of `sk`'s hash,
/// the full socket leaves that chain, and the TIME-WAIT socket holds three
/// references (the chain, the timer and the caller). Returns whether the
/// full socket was hashed (its protocol's in-use count then drops).
pub fn inet_twsk_hashdance(tw: &mut inet_timewait_sock, sk_id: u64, sk_hash: u32, bucket: &mut inet_bind_hashbucket, hashinfo: &mut inet_hashinfo) -> (was_hashed: bool)
    requires
        old(hashinfo).ehash.len() == old(hashinfo).ehash_mask + 1,
        old(hashinfo).ehash_mask < usize::MAX,
    ensures
        ({
            let slot = (sk_hash as int) % (old(hashinfo).ehash_mask + 1);
            let chain = old(hashinfo).ehash@[slot].chain@;
            &&& final(hashinfo).ehash_mask == old(hashinfo).ehash_mask
            &&& final(hashinfo).ehash.len() == old(hashinfo).ehash.len()
            &&& final(hashinfo).ehash@[slot].chain@ == chain_without(seq![old(tw).id] + chain, sk_id)
            &&& forall|s: int| 0 <= s < final(hashinfo).ehash.len() && s != slot ==> (#[trigger] final(hashinfo).ehash@[s]).chain@ == old(hashinfo).ehash@[s].chain@
            &&& was_hashed == chain.contains(sk_id)
            &&& final(bucket).owners@ == seq![old(tw).id] + old(bucket).owners@
            &&& *final(tw) == (inet_timewait_sock { tw_refcnt: 3, bound: true, ..*old(tw) })
        }),
{
    let mut owners: Vec<u64> = Vec::new();
    owners.push(tw.id);
    let mut rest = bucket.owners.clone();
    owners.append(&mut rest);
    bucket.owners = owners;
    tw.bound = true;
    let slot: usize = (sk_hash as usize) % (hashinfo.ehash_mask + 1);
    proof {
        assert(slot as int == (sk_hash as int) % (old(hashinfo).ehash_mask + 1));
    }
    let mut chain: Vec<u64> = Vec::new();
    chain.push(tw.id);
    let mut old_chain = hashinfo.ehash[slot].chain.clone();
    let (_, was_hashed) = remove_id(&old_chain, sk_id);
    chain.append(&mut old_chain);
    let (new_chain, _) = remove_id(&chain, sk_id);
    let ghost before = hashinfo.ehash@;
    hashinfo.ehash.set(slot, inet_ehash_bucket { chain: new_chain });
    tw.tw_refcnt = 3;
    proof {
        assert(bucket.owners@ =~= seq![old(tw).id] + old(bucket).owners@);
    }
    was_hashed
}

/// Arm the death timer for `timeo` ticks from `now`: a short wait (at most
/// four seconds) lets the socket be killed early. A first arming counts the
/// socket in the death row.
pub fn __inet_twsk_schedule(tw: &mut inet_timewait_sock, dr: &mut inet_timewait_death_row, timeo: i32, rearm: bool, now: i64)
    requires
        !rearm ==> old(dr).tw_count < i32::MAX,
        i64::MIN <= now + timeo <= i64::MAX,
    ensures
        *final(tw) == (inet_timewait_sock { tw_kill: timeo <= 4 * HZ, timer_expires: Some((now + timeo) as i64), ..*old(tw) }),
        final(dr).sysctl_max_tw_buckets == old(dr).sysctl_max_tw_buckets,
        final(dr).tw_count == (if rearm { old(dr).tw_count as int } else { old(dr).tw_count + 1 }),
{
    tw.tw_kill = timeo <= 4 * HZ;
    tw.timer_expires = Some(now + timeo as i64);
    if !rearm {
        dr.tw_count = dr.tw_count + 1;
    }
}

/// Take the socket out of the tables: its established chain loses it, it
/// leaves its bind bucket (dropping that reference), the death row counts
/// one socket less, and the timer's reference is dropped. Returns whether
/// the last reference went.
pub fn inet_twsk_kill(tw: &mut inet_timewait_sock, dr: &mut inet_timewait_death_row, hashinfo: &mut inet_hashinfo) -> (freed: bool)
    requires
        old(hashinfo).ehash.len() == old(hashinfo).ehash_mask + 1,
        old(hashinfo).ehash_mask < usize::MAX,
        old(tw).tw_refcnt > (if old(tw).bound { 1int } else { 0 }),
        old(dr).tw_count > i32::MIN,
    ensures
        ({
            let slot = (old(tw).tw_hash as int) % (old(hashinfo).ehash_mask + 1);
            let refs = old(tw).tw_refcnt - (if old(tw).bound { 2int } else { 1 });
            &&& final(hashinfo).ehash_mask == old(hashinfo).ehash_mask
            &&& final(hashinfo).ehash.len() == old(hashinfo).ehash.len()
            &&& final(hashinfo).ehash@[slot].chain@ == chain_without(old(hashinfo).ehash@[slot].chain@, old(tw).id)
            &&& forall|s: int| 0 <= s < final(hashinfo).ehash.len() && s != slot ==> (#[trigger] final(hashinfo).ehash@[s]).chain@ == old(hashinfo).ehash@[s].chain@
            &&& final(dr).tw_count == old(dr).tw_count - 1
            &&& final(dr).sysctl_max_tw_buckets == old(dr).sysctl_max_tw_buckets
            &&& *final(tw) == (inet_timewait_sock { tw_refcnt: refs as i32, bound: false, ..*old(tw) })
            &&& freed == (refs == 0)
        }),
{
    let slot: usize = (tw.tw_hash as usize) % (hashinfo.ehash_mask + 1);
    let old_chain = hashinfo.ehash[slot].chain.clone();
    let (new_chain, _) = remove_id(&old_chain, tw.id);
    hashinfo.ehash.set(slot, inet_ehash_bucket { chain: new_chain });
    if tw.bound {
        tw.bound = false;
        tw.tw_refcnt = tw.tw_refcnt - 1;
    }
    dr.tw_count = dr.tw_count - 1;
    let (_, freed) = inet_twsk_put(tw);
    freed
}

/// Stop the death timer and drop the caller's reference: if the timer was
/// still pending (`timer_pending`), the socket is killed first. Returns
/// whether the last reference went.
pub fn inet_twsk_deschedule_put(tw: &mut inet_timewait_sock, dr: &mut inet_timewait_death_row, hashinfo: &mut inet_hashinfo, timer_pending: bool) -> (freed: bool)
    requires
        old(hashinfo).ehash.len() == old(hashinfo).ehash_mask + 1,
        old(hashinfo).ehash_mask < usize::MAX,
        old(tw).tw_refcnt > (if timer_pending { if old(tw).bound { 2int } else { 1 } } else { 0 }),
        old(dr).tw_count > i32::MIN,
    ensures
        ({
            let refs = old(tw).tw_refcnt - (if timer_pending { if old(tw).bound { 3int } else { 2 } } else { 1 });
            &&& final(tw).tw_refcnt == refs
            &&& freed == (refs == 0)
            &&& final(tw).bound == (old(tw).bound && !timer_pending)
            &&& final(dr).tw_count == (if timer_pending { old(dr).tw_count - 1 } else { old(dr).tw_count as int })
        }),
{
    if timer_pending {
        inet_twsk_kill(tw, dr, hashinfo);
    }
    let (_, freed) = inet_twsk_put(tw);
    freed
}

/// The TIME-WAIT sockets that purging a dying namespace's `family` sockets
/// takes down: in TIME-WAIT, of that family, in a namespace with no
/// reference left (`net_dead`), and still referenced (so a reference can be
/// taken).
pub open spec fn purge_victim(tw: inet_timewait_sock, net_dead: bool, family: i32) -> bool {
    tw.tw_state == TCP_TIME_WAIT && tw.tw_family == family && net_dead && tw.tw_refcnt != 0
}

/// The positions of the sockets purging takes down (see `purge_victim`), in
/// order.
pub fn inet_twsk_purge(tws: &Vec<inet_timewait_sock>, net_dead: &Vec<bool>, family: i32) -> (r: Vec<usize>)
    requires
        tws.len() == net_dead.len(),
    ensures
        forall|k: int| 0 <= k < r.len() ==> r@[k] < tws.len() && purge_victim(tws@[r@[k] as int], net_dead@[r@[k] as int], family),
        forall|i: int| 0 <= i < tws.len() && purge_victim(tws@[i], net_dead@[i], family) ==> r@.contains(i as usize),
        forall|a: int, b: int| 0 <= a < b < r.len() ==> r@[a] < r@[b],
{
    let mut r: Vec<usize> = Vec::new();
    let mut i: usize = 0;
    while i < tws.len()
        invariant
            i <= tws.len(),
            tws.len() == net_dead.len(),
            forall|k: int| 0 <= k < r.len() ==> r@[k] < i && purge_victim(tws@[r@[k] as int], net_dead@[r@[k] as int], family),
            forall|j: int| 0 <= j < i && purge_victim(tws@[j], net_dead@[j], family) ==> r@.contains(j as usize),
            forall|a: int, b: int| 0 <= a < b < r.len() ==> r@[a] < r@[b],
        decreases tws.len() - i,
    {
        let t = &tws[i];
        if t.tw_state == TCP_TIME_WAIT && t.tw_family == family && net_dead[i] && t.tw_refcnt != 0 {
            let ghost before = r@;
            r.push(i);
            proof {
                assert forall|j: int| 0 <= j <= i && purge_victim(tws@[j], net_dead@[j], family) implies r@.contains(j as usize) by {
                    if j < i {
                        let k = choose|k: int| 0 <= k < before.len() && before[k] == j as usize;
                        assert(r@[k] == j as usize);
                    } else {
                        assert(r@[r@.len() - 1] == i);
                    }
                }
            }
        } else {
            proof {
                assert forall|j: int| 0 <= j <= i && purge_victim(tws@[j], net_dead@[j], family) implies r@.contains(j as usize) by {
                    if j == i {
                        assert(!purge_victim(tws@[j], net_dead@[j], family));
                    }
                }
            }
        }
        i = i + 1;
    }
    r
}

} // verus!
