//! ICMP for IPv4: how destination-unreachable codes map to socket errors,
//! which message types are rate limited, and the global token bucket that
//! limits them.
use vstd::prelude::*;
use crate::inetpeer::{
    addr_key, inet_getpeer_v4, inet_peer, inet_peer_base, inet_peer_params, inet_peer_xrlim_allow, inet_putpeer, inetpeer_addr, search,
    topped_up, AF_INET,
};

use crate::ip_output::{fold16, lemma_fold16};

verus! {

pub const EINVAL: i32 = -22;
pub const ENOMEM: i32 = -12;
pub const ENOSYS: i32 = -38;
pub const ENETUNREACH: i32 = -101;
pub const EHOSTUNREACH: i32 = -111;
pub const ENOPROTOOPT: i32 = -92;
pub const ECONNREFUSED: i32 = -111;
pub const EMSGSIZE: i32 = -90;
pub const EOPNOTSUPP: i32 = -95;
pub const ENONET: i32 = -62;
pub const ENETDOWN: i32 = -100;
pub const EHOSTDOWN: i32 = -101;
/// Ticks per second.
pub const HZ: u32 = 100;
pub const NR_ICMP_TYPES: i32 = 18;
pub const ICMP_DEST_UNREACH: i32 = 3;
pub const ICMP_FRAG_NEEDED: i32 = 4;

/// What an ICMP unreachable code means to a socket: the error and whether
/// it ends the connection.
pub struct icmp_err {
    pub errno: i32,
    pub fatal: i32,
}

/// The socket error for each destination-unreachable code, by code.
pub fn icmp_err_convert() -> (t: [icmp_err; 16])
    ensures
        t@[0] == (icmp_err { errno: ENETUNREACH, fatal: 0 }),
        t@[1] == (icmp_err { errno: EHOSTUNREACH, fatal: 0 }),
        t@[2] == (icmp_err { errno: ENOPROTOOPT, fatal: 1 }),
        t@[3] == (icmp_err { errno: ECONNREFUSED, fatal: 1 }),
        t@[4] == (icmp_err { errno: EMSGSIZE, fatal: 0 }),
        t@[5] == (icmp_err { errno: EOPNOTSUPP, fatal: 0 }),
        t@[6] == (icmp_err { errno: ENETUNREACH, fatal: 1 }),
        t@[7] == (icmp_err { errno: EHOSTDOWN, fatal: 1 }),
        t@[8] == (icmp_err { errno: ENONET, fatal: 1 }),
        t@[9] == (icmp_err { errno: ENETUNREACH, fatal: 1 }),
        t@[10] == (icmp_err { errno: EHOSTUNREACH, fatal: 1 }),
        t@[11] == (icmp_err { errno: ENETUNREACH, fatal: 0 }),
        t@[12] == (icmp_err { errno: EHOSTUNREACH, fatal: 0 }),
        t@[13] == (icmp_err { errno: EHOSTUNREACH, fatal: 1 }),
        t@[14] == (icmp_err { errno: EHOSTUNREACH, fatal: 1 }),
        t@[15] == (icmp_err { errno: EHOSTUNREACH, fatal: 1 }),
{
    [
        icmp_err { errno: ENETUNREACH, fatal: 0 },
        icmp_err { errno: EHOSTUNREACH, fatal: 0 },
        icmp_err { errno: ENOPROTOOPT, fatal: 1 },
        icmp_err { errno: ECONNREFUSED, fatal: 1 },
        icmp_err { errno: EMSGSIZE, fatal: 0 },
        icmp_err { errno: EOPNOTSUPP, fatal: 0 },
        icmp_err { errno: ENETUNREACH, fatal: 1 },
        icmp_err { errno: EHOSTDOWN, fatal: 1 },
        icmp_err { errno: ENONET, fatal: 1 },
        icmp_err { errno: ENETUNREACH, fatal: 1 },
        icmp_err { errno: EHOSTUNREACH, fatal: 1 },
        icmp_err { errno: ENETUNREACH, fatal: 0 },
        icmp_err { errno: EHOSTUNREACH, fatal: 0 },
        icmp_err { errno: EHOSTUNREACH, fatal: 1 },
        icmp_err { errno: EHOSTUNREACH, fatal: 1 },
        icmp_err { errno: EHOSTUNREACH, fatal: 1 },
    ]
}

/// The global token bucket: the tokens left and when it was last refilled.
pub struct icmp_global {
    pub credit: u32,
    pub stamp: u32,
}

/// The rate-limit settings: tokens gained per second and the most the
/// bucket holds.
pub struct icmp_sysctl {
    pub msgs_per_sec: u32,
    pub msgs_burst: u32,
}

/// The ticks since the last refill, at most a second's worth.
pub open spec fn elapsed(g: icmp_global, now: u32) -> u32 {
    let d = now.wrapping_sub(g.stamp);
    if d < HZ { d } else { HZ }
}

/// Whether enough time has passed to refill: a fiftieth of a second.
pub open spec fn refills(g: icmp_global, now: u32) -> bool {
    elapsed(g, now) >= HZ / 50
}

/// `HZ` as a number.
pub open spec fn ticks_per_sec() -> int {
    100
}

/// The tokens after the refill, capped at the burst size.
pub open spec fn refilled(g: icmp_global, now: u32, s: icmp_sysctl) -> int {
    let incr = if refills(g, now) { s.msgs_per_sec * elapsed(g, now) / ticks_per_sec() } else { 0 };
    if g.credit + incr < s.msgs_burst { g.credit + incr } else { s.msgs_burst + 0 }
}

/// Whether one more ICMP message may go out now, and the bucket after:
/// an empty bucket that cannot refill yet refuses at once; otherwise the
/// bucket is refilled (when a fiftieth of a second has passed, restarting
/// the refill clock) and capped at the burst size; with tokens left the
/// message may go, and takes `rand` (0 to 2) tokens, never going below 0.
pub fn icmp_global_allow(g: &mut icmp_global, s: &icmp_sysctl, now: u32, rand: u32) -> (rc: i32)
    requires
        rand < 3,
        s.msgs_per_sec <= u32::MAX / HZ,
        old(g).credit + s.msgs_per_sec <= u32::MAX,
    ensures
        (old(g).credit == 0 && !refills(*old(g), now)) ==> rc == 0 && *final(g) == *old(g),
        !(old(g).credit == 0 && !refills(*old(g), now)) ==> {
            let c = refilled(*old(g), now, *s);
            &&& final(g).stamp == (if refills(*old(g), now) { now } else { old(g).stamp })
            &&& rc == (if c > 0 { 1i32 } else { 0i32 })
            &&& final(g).credit == (if c > 0 { if c > rand { c - rand } else { 0 } } else { c })
        },
{
    if g.credit == 0 {
        let d = now.wrapping_sub(g.stamp);
        let delta = if d < HZ { d } else { HZ };
        if delta < HZ / 50 {
            return 0;
        }
    }
    let d = now.wrapping_sub(g.stamp);
    let delta = if d < HZ { d } else { HZ };
    let mut incr: u32 = 0;
    if delta >= HZ / 50 {
        proof {
            assert(s.msgs_per_sec * delta <= (u32::MAX / HZ) * HZ) by (nonlinear_arith)
                requires
                    s.msgs_per_sec <= u32::MAX / HZ,
                    delta <= HZ,
            ;
            assert(s.msgs_per_sec * delta / ticks_per_sec() <= s.msgs_per_sec) by (nonlinear_arith)
                requires
                    delta <= HZ,
            ;
        }
        incr = s.msgs_per_sec * delta / HZ;
        g.stamp = now;
    }
    let sum = g.credit + incr;
    let mut credit = if sum < s.msgs_burst { sum } else { s.msgs_burst };
    let mut rc: i32 = 0;
    if credit > 0 {
        credit = if credit > rand { credit - rand } else { 0 };
        rc = 1;
    }
    g.credit = credit;
    rc
}

/// Whether a message of this type and code is never rate limited: types
/// past the last known one, "fragmentation needed" (path MTU discovery
/// depends on it), and types whose bit is clear in `ratemask`.
pub open spec fn mask_allows(ratemask: u32, kind: i32, code: i32) -> bool {
    ||| kind > NR_ICMP_TYPES
    ||| (kind == ICMP_DEST_UNREACH && code == ICMP_FRAG_NEEDED)
    ||| (1u32 << kind) & ratemask == 0
}

pub fn icmpv4_mask_allow(ratemask: u32, kind: i32, code: i32) -> (r: i32)
    requires
        0 <= kind,
    ensures
        r == (if mask_allows(ratemask, kind, code) { 1i32 } else { 0i32 }),
{
    if kind > NR_ICMP_TYPES {
        return 1;
    }
    if kind == ICMP_DEST_UNREACH && code == ICMP_FRAG_NEEDED {
        return 1;
    }
    if (1u32 << kind) & ratemask != 0 {
        return 0;
    }
    1
}

/// Whether a message may go out as far as the global limit goes: types the
/// mask leaves unlimited always may (and leave the bucket alone); others
/// ask the global bucket.
pub fn icmpv4_global_allow(g: &mut icmp_global, s: &icmp_sysctl, ratemask: u32, kind: i32, code: i32, now: u32, rand: u32) -> (r: i32)
    requires
        0 <= kind,
        rand < 3,
        s.msgs_per_sec <= u32::MAX / HZ,
        old(g).credit + s.msgs_per_sec <= u32::MAX,
    ensures
        mask_allows(ratemask, kind, code) ==> r == 1 && *final(g) == *old(g),
        !mask_allows(ratemask, kind, code) ==> {
            let c = refilled(*old(g), now, *s);
            if old(g).credit == 0 && !refills(*old(g), now) {
                r == 0 && *final(g) == *old(g)
            } else {
                r == (if c > 0 { 1i32 } else { 0i32 })
            }
        },
{
    if icmpv4_mask_allow(ratemask, kind, code) != 0 {
        return 1;
    }
    if icmp_global_allow(g, s, now, rand) != 0 {
        return 1;
    }
    0
}

/// Outgoing message counters: per type, and in all.
pub struct icmp_mib {
    pub out_by_type: Vec<u64>,
    pub out_msgs: u64,
}

/// The counter position of a message type.
pub open spec fn slot_of(kind: u8) -> int {
    kind as int
}

fn slot_index(kind: u8) -> (r: usize)
    ensures
        r == slot_of(kind),
{
    kind as usize
}

/// Count one outgoing message of type `kind`.
pub fn icmp_out_count(mib: &mut icmp_mib, kind: u8)
    requires
        old(mib).out_by_type.len() == 256,
        old(mib).out_by_type@[slot_of(kind)] < u64::MAX,
        old(mib).out_msgs < u64::MAX,
    ensures
        final(mib).out_by_type@.len() == 256,
        final(mib).out_by_type@[slot_of(kind)] == old(mib).out_by_type@[slot_of(kind)] + 1,
        forall|i: int| 0 <= i < 256 && i != slot_of(kind) ==> #[trigger] final(mib).out_by_type@[i] == old(mib).out_by_type@[i],
        final(mib).out_msgs == old(mib).out_msgs + 1,
{
    let k: usize = slot_index(kind);
    let c = mib.out_by_type[k];
    mib.out_by_type.set(k, c + 1);
    mib.out_msgs = mib.out_msgs + 1;
}

/// The tokens and last top-up of the peer for `key` before a lookup: those
/// of the peer there, or a new peer's.
pub open spec fn prior_bucket(peers: Seq<inet_peer>, key: int, now: u32) -> (u32, u32) {
    match search(peers, key, 0, num_nat(peers.len())).1 {
        Ok(m) => (peers[m].rate_tokens, peers[m].rate_last),
        Err(_) => (0u32, now.wrapping_sub(6000u32)),
    }
}

/// Integers as numbers, for the contracts below.
pub open spec fn num_nat(x: nat) -> int {
    x as int
}

pub open spec fn num_i32(x: i32) -> int {
    x as int
}

pub open spec fn num_usize(x: usize) -> int {
    x as int
}

/// Whether an ICMP message of type `kind` and `code` to `daddr` (reached
/// through VRF interface `vif`) may go out as far as the per-peer limit
/// goes: types the mask leaves unlimited and messages out of a loopback
/// device always may; otherwise the peer for the destination is looked up,
/// created if need be (see `inet_getpeer_v4`), and its bucket decides with
/// each message costing `ratelimit` tokens (see `inet_peer_xrlim_allow`);
/// the reference taken is released at `now`.
pub fn icmpv4_xrlim_allow(peers: &mut inet_peer_base, ratemask: u32, kind: i32, code: i32, dev_loopback: bool, vif: u32,
    daddr: u32, ratelimit: i32, now: u32, prm: &inet_peer_params) -> (r: i32)
    requires
        0 <= kind,
        old(peers).wf(),
        old(peers).family == AF_INET,
        old(peers).total < u32::MAX,
        forall|i: int| 0 <= i < old(peers).peers.len() ==> (#[trigger] old(peers).peers@[i]).refcnt < u32::MAX,
        prm.minttl <= prm.maxttl,
        0 <= ratelimit,
        6 * ratelimit <= u32::MAX,
    ensures
        final(peers).wf(),
        (mask_allows(ratemask, kind, code) || dev_loopback) ==> r == 1 && *final(peers) == *old(peers),
        !(mask_allows(ratemask, kind, code) || dev_loopback) ==> ({
            let key = addr_key(inetpeer_addr { family: AF_INET, key: [daddr, vif, 0, 0] });
            let (tokens, last) = prior_bucket(old(peers).peers@, key, now);
            exists|j: int|
                0 <= j < final(peers).peers.len()
                && addr_key((#[trigger] final(peers).peers@[j]).daddr) == key
                && {
                    let t = tokens + now.wrapping_sub(last);
                    let capped = if t > 6 * ratelimit { 6 * ratelimit } else { t };
                    &&& r == (if capped >= ratelimit { 1i32 } else { 0i32 })
                    &&& final(peers).peers@[j].rate_tokens == (if capped >= ratelimit { capped - ratelimit } else { capped })
                    &&& final(peers).peers@[j].rate_last == now
                    &&& final(peers).peers@[j].dtime == now
                }
        }),
{
    if icmpv4_mask_allow(ratemask, kind, code) != 0 {
        return 1;
    }
    if dev_loopback {
        return 1;
    }
    let found = inet_getpeer_v4(peers, daddr, vif, true, now, prm);
    let j = match found {
        Some(j) => j,
        None => {
            return 1;
        },
    };
    let mut slot = Some(peers.peers[j]);
    let ghost before = peers.peers@[num_usize(j)];
    let allowed = inet_peer_xrlim_allow(&mut slot, ratelimit, now);
    match slot {
        Some(p) => {
            peers.peers.set(j, p);
        },
        None => {},
    }
    proof {
        assert forall|i: int| 0 <= i < peers.peers.len() implies (#[trigger] peers.peers@[i]).refcnt >= 1
            && peers.peers@[i].daddr.family == peers.family by {
            if i != j {
            }
        }
        assert forall|a: int, b: int| 0 <= a < b < peers.peers.len()
            implies addr_key(#[trigger] peers.peers@[a].daddr) < addr_key(#[trigger] peers.peers@[b].daddr) by {
        }
    }
    inet_putpeer(peers, j, now);
    proof {
        let key = addr_key(inetpeer_addr { family: AF_INET, key: [daddr, vif, 0, 0] });
        assert(topped_up(before, num_i32(ratelimit), now) == {
            let t = before.rate_tokens + now.wrapping_sub(before.rate_last);
            if t > 6 * ratelimit { 6 * ratelimit } else { t }
        });
        assert(addr_key(peers.peers@[num_usize(j)].daddr) == key);
    }
    if allowed { 1 } else { 0 }
}

/// The bytes `b` summed as big-endian 16-bit words, a last odd byte
/// standing as the high half of a word.
pub open spec fn byte_words(b: Seq<u8>) -> int
    decreases b.len(),
{
    if b.len() == 0 {
        0
    } else {
        byte_words(b.drop_last()) + (if (b.len() - 1) % 2 == 0 { b.last() as int * 256 } else { b.last() as int })
    }
}

/// The one's-complement checksum of `b`, folded to 16 bits.
pub open spec fn csum_bytes(b: Seq<u8>) -> int {
    fold16(byte_words(b))
}

/// A 16-bit sum with its two bytes swapped.
pub open spec fn swab16(x: int) -> int {
    (x % 256) * 256 + x / 256
}

/// Adding the checksum `c2` of a block into the running checksum `csum`:
/// a block starting at an odd offset has its bytes swapped first.
pub open spec fn csum_block_add(csum: u32, c2: int, odd: bool) -> int {
    fold16(csum as int + if odd { swab16(c2) } else { c2 })
}

/// The `len` bytes of `from` at `base + off`.
pub open spec fn block_at(from: Seq<u8>, base: usize, off: usize, len: usize) -> Seq<u8> {
    from.subrange(base as int + off as int, base as int + off as int + len as int)
}

/// Append the `len` bytes of `from` at `start` to `to` and add their
/// checksum into `csum` (see `csum_block_add`).
fn copy_and_csum_block(from: &Vec<u8>, start: usize, to: &mut Vec<u8>, len: usize, odd: bool, csum: &mut u32)
    requires
        start + len <= from.len(),
        len <= 0x1_0000,
        *old(csum) <= 0xffff,
    ensures
        final(to)@ == old(to)@ + block_at(from@, start, 0, len),
        *final(csum) == csum_block_add(*old(csum), csum_bytes(block_at(from@, start, 0, len)), odd),
{
    let ghost t0 = to@;
    let mut sum: u64 = 0;
    let mut k: usize = 0;
    while k < len
        invariant
            start + len <= from.len(),
            len <= 0x1_0000,
            k <= len,
            to@ == t0 + from@.subrange(start as int, (start + k) as int),
            sum == byte_words(from@.subrange(start as int, (start + k) as int)),
            sum <= k * 256 * 256,
        decreases len - k,
    {
        let b = from[start + k];
        let ghost before = from@.subrange(start as int, (start + k) as int);
        assert(from@.subrange(start as int, (start + k + 1) as int).drop_last() =~= before);
        to.push(b);
        assert(to@ =~= t0 + from@.subrange(start as int, (start + k + 1) as int));
        if k % 2 == 0 {
            sum = sum + (b as u64) * 256;
        } else {
            sum = sum + b as u64;
        }
        k = k + 1;
    }
    let mut x: u64 = sum;
    proof {
        lemma_fold16(sum as int);
    }
    while x > 0xffff
        invariant
            fold16(x as int) == fold16(sum as int),
        decreases x,
    {
        x = x / 0x1_0000 + x % 0x1_0000;
    }
    let c2: u64 = if odd { (x % 256) * 256 + x / 256 } else { x };
    let total: u64 = *csum as u64 + c2;
    proof {
        lemma_fold16(total as int);
        reveal_with_fuel(fold16, 2);
    }
    let folded: u64 = if total > 0xffff { total - 0xffff } else { total };
    assert(folded == fold16(total as int));
    *csum = folded as u32;
}

/// Copy `len` bytes of the packet being answered, from `param_offset +
/// offset`, to the end of the reply's data `to`, and add their checksum
/// into the reply's running checksum `skb_csum` (the block starting at an
/// odd position of the reply when `odd` is odd). Returns 0, and whether the
/// reply is an error message to be attached to the answered packet's
/// connection tracking.
pub fn icmp_glue_bits(from: &Vec<u8>, param_offset: usize, to: &mut Vec<u8>, offset: usize, len: usize, odd: usize,
    skb_csum: &mut u32, is_error: bool) -> (r: (i32, bool))
    requires
        param_offset + offset + len <= from.len(),
        len <= 0x1_0000,
        *old(skb_csum) <= 0xffff,
    ensures
        final(to)@ == old(to)@ + block_at(from@, param_offset, offset, len),
        *final(skb_csum) == csum_block_add(*old(skb_csum), csum_bytes(block_at(from@, param_offset, offset, len)), odd % 2 == 1),
        r == (0i32, is_error),
{
    copy_and_csum_block(from, param_offset + offset, to, len, odd % 2 == 1, skb_csum);
    (0, is_error)
}

} // verus!
