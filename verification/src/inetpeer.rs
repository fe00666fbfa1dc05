//! Long-lived information about remote peers: a table of peers ordered by
//! address, looked up and created on demand, with unused old entries
//! collected along the way, and a per-peer token bucket for rate limits.
use vstd::prelude::*;

verus! {

pub const EINVAL: i32 = -22;
pub const ENOMEM: i32 = -12;
pub const ENOSYS: i32 = -38;
pub const PEER_MAX_GC: usize = 32;
pub const RTAX_MAX: usize = 16;
pub const HZ: u32 = 100;
/// The mark a new peer's metrics start with.
pub const INETPEER_METRICS_NEW: u32 = 1;
pub const XRLIM_BURST_FACTOR: u64 = 6;
pub const AF_INET: u16 = 2;

/// A peer address: its family and up to four 32-bit words (an IPv4 peer
/// uses the address and the VRF interface, an IPv6 peer all four).
#[derive(Clone, Copy)]
pub struct inetpeer_addr {
    pub family: u16,
    pub key: [u32; 4],
}

/// A peer: its address, references held, when it was last released, its
/// IP id seed, metrics, rate-limit tokens and when they were last topped
/// up, and how many redirects were sent to it.
#[derive(Clone, Copy)]
pub struct inet_peer {
    pub daddr: inetpeer_addr,
    pub refcnt: u32,
    pub dtime: u32,
    pub rid: u32,
    pub metrics: [u32; 15],
    pub rate_tokens: u32,
    pub n_redirects: u32,
    pub rate_last: u32,
}

/// The peers of one address family, in increasing address order, and
/// their count.
pub struct inet_peer_base {
    pub family: u16,
    pub peers: Vec<inet_peer>,
    pub total: u32,
}

/// How long unused peers are kept: `minttl` ticks once the table holds
/// `threshold` peers, up to `maxttl` for an empty table.
pub struct inet_peer_params {
    pub threshold: u32,
    pub minttl: u32,
    pub maxttl: u32,
}

/// How many words of an address of this family take part in comparisons.
pub open spec fn nwords(family: u16) -> int {
    if family == AF_INET { 2 } else { 4 }
}

/// The number that the first `n` words of `k` spell, most significant
/// first.
pub open spec fn words_value(k: Seq<u32>, n: int) -> int
    decreases n,
{
    if n <= 0 { 0 } else { words_value(k, n - 1) * 0x1_0000_0000 + k[n - 1] }
}

/// The position of an address in the order of the table.
pub open spec fn addr_key(a: inetpeer_addr) -> int {
    words_value(a.key@, nwords(a.family))
}

proof fn lemma_words_value_bounds(k: Seq<u32>, n: int)
    requires
        0 <= n <= k.len(),
    ensures
        0 <= words_value(k, n),
    decreases n,
{
    if n > 0 {
        lemma_words_value_bounds(k, n - 1);
        assert(words_value(k, n - 1) * 0x1_0000_0000 >= 0) by (nonlinear_arith)
            requires
                words_value(k, n - 1) >= 0,
        ;
    }
}

/// Equal words up to `i`, and a smaller word at `i`, give a smaller
/// number over any `m` words past `i`.
proof fn lemma_words_value_lt(a: Seq<u32>, b: Seq<u32>, i: int, m: int)
    requires
        0 <= i < m <= a.len(),
        a.len() == b.len(),
        words_value(a, i) == words_value(b, i),
        a[i] < b[i],
    ensures
        words_value(a, m) < words_value(b, m),
    decreases m - i,
{
    if m == i + 1 {
        assert(words_value(a, i) * 0x1_0000_0000 + a[i] < words_value(b, i) * 0x1_0000_0000 + b[i]);
    } else {
        lemma_words_value_lt(a, b, i, m - 1);
        let va = words_value(a, m - 1);
        let vb = words_value(b, m - 1);
        let x = a[m - 1];
        let y = b[m - 1];
        assert(va * 0x1_0000_0000 + x < vb * 0x1_0000_0000 + y) by (nonlinear_arith)
            requires
                va < vb,
                x < 0x1_0000_0000,
                0 <= y,
        ;
    }
}

/// A position as a number.
pub open spec fn idx(i: usize) -> int {
    i as int
}

/// Compare two addresses of the same family word by word: -1, 0 or 1 as
/// the first is before, equal to or after the second.
pub fn inetpeer_addr_cmp(a: &inetpeer_addr, b: &inetpeer_addr) -> (r: i32)
    requires
        a.family == b.family,
    ensures
        r == (if addr_key(*a) < addr_key(*b) { -1i32 } else if addr_key(*a) == addr_key(*b) { 0i32 } else { 1i32 }),
{
    let n: usize = if a.family == AF_INET { 2 } else { 4 };
    let mut i: usize = 0;
    while i < n
        invariant
            n == nwords(a.family),
            a.family == b.family,
            i <= n,
            words_value(a.key@, idx(i)) == words_value(b.key@, idx(i)),
        decreases n - i,
    {
        if a.key[i] != b.key[i] {
            proof {
                if a.key@[idx(i)] < b.key@[idx(i)] {
                    lemma_words_value_lt(a.key@, b.key@, idx(i), idx(n));
                } else {
                    lemma_words_value_lt(b.key@, a.key@, idx(i), idx(n));
                }
            }
            if a.key[i] < b.key[i] {
                return -1;
            }
            return 1;
        }
        i = i + 1;
    }
    0
}

/// The order of two addresses of the same family: -1, 0 or 1.
fn addr_order(a: &inetpeer_addr, b: &inetpeer_addr) -> (r: i32)
    requires
        a.family == b.family,
    ensures
        r == (if addr_key(*a) < addr_key(*b) { -1i32 } else if addr_key(*a) == addr_key(*b) { 0i32 } else { 1i32 }),
{
    inetpeer_addr_cmp(a, b)
}

/// Take a reference unless there are none left; whether it was taken.
pub fn refcount_inc_not_zero(refcnt: &mut u32) -> (r: bool)
    requires
        *old(refcnt) < u32::MAX,
    ensures
        r == (*old(refcnt) != 0),
        *final(refcnt) == (if r { (*old(refcnt) + 1) as u32 } else { 0 }),
{
    if *refcnt == 0 {
        false
    } else {
        *refcnt = *refcnt + 1;
        true
    }
}

/// Drop the last reference if it is the only one; whether it was dropped.
pub fn refcount_dec_if_one(refcnt: &mut u32) -> (r: bool)
    ensures
        r == (*old(refcnt) == 1),
        *final(refcnt) == (if r { 0 } else { *old(refcnt) }),
{
    if *refcnt == 1 {
        *refcnt = 0;
        true
    } else {
        false
    }
}

/// The tokens a peer has after topping up at `now` (one per tick since the
/// last top-up), capped at `XRLIM_BURST_FACTOR` times the cost `timeout`.
pub open spec fn topped_up(p: inet_peer, timeout: int, now: u32) -> int {
    let t = p.rate_tokens + now.wrapping_sub(p.rate_last);
    if t > XRLIM_BURST_FACTOR * timeout { XRLIM_BURST_FACTOR * timeout } else { t }
}

/// Whether a message to this peer may be sent now, each costing `timeout`
/// tokens: without a peer it may; else the bucket is topped up (see
/// `topped_up`) and the message may go when it holds the cost, which is
/// then taken.
pub fn inet_peer_xrlim_allow(peer: &mut Option<inet_peer>, timeout: i32, now: u32) -> (rc: bool)
    requires
        0 <= timeout,
        XRLIM_BURST_FACTOR * timeout <= u32::MAX,
    ensures
        *old(peer) is None ==> rc && *final(peer) is None,
        *old(peer) matches Some(p) ==> {
            let t = topped_up(p, timeout as int, now);
            &&& rc == (t >= timeout)
            &&& *final(peer) matches Some(q)
            &&& q.rate_last == now
            &&& q.rate_tokens == (if rc { t - timeout } else { t })
            &&& q.daddr == p.daddr && q.refcnt == p.refcnt && q.dtime == p.dtime && q.rid == p.rid
            &&& q.metrics == p.metrics && q.n_redirects == p.n_redirects
        },
{
    match peer {
        None => true,
        Some(p) => {
            let cost: u64 = timeout as u64;
            let mut token: u64 = p.rate_tokens as u64 + now.wrapping_sub(p.rate_last) as u64;
            p.rate_last = now;
            if token > XRLIM_BURST_FACTOR * cost {
                token = XRLIM_BURST_FACTOR * cost;
            }
            if token >= cost {
                p.rate_tokens = (token - cost) as u32;
                true
            } else {
                p.rate_tokens = token as u32;
                false
            }
        },
    }
}

impl inet_peer_base {
    /// The peers are in strictly increasing address order, of the table's
    /// family, each still referenced by the table, and counted.
    pub open spec fn wf(&self) -> bool {
        &&& forall|i: int, j: int| 0 <= i < j < self.peers.len()
            ==> addr_key(#[trigger] self.peers@[i].daddr) < addr_key(#[trigger] self.peers@[j].daddr)
        &&& forall|i: int| 0 <= i < self.peers.len() ==> (#[trigger] self.peers@[i]).daddr.family == self.family
        &&& forall|i: int| 0 <= i < self.peers.len() ==> (#[trigger] self.peers@[i]).refcnt >= 1
        &&& self.total == self.peers.len()
    }
}

/// An empty table of peers of `family`.
pub fn inet_peer_base_init(family: u16) -> (bp: inet_peer_base)
    ensures
        bp.wf(),
        bp.family == family,
        bp.peers@.len() == 0,
{
    inet_peer_base { family, peers: Vec::new(), total: 0 }
}

/// Drop every peer from the table.
pub fn inetpeer_invalidate_tree(base: &mut inet_peer_base)
    ensures
        final(base).wf(),
        final(base).family == old(base).family,
        final(base).peers@.len() == 0,
{
    base.peers = Vec::new();
    base.total = 0;
}

/// Where a search for `key` in `peers[lo..hi]` goes, as in a balanced
/// tree: the positions it passes on the way (the match excluded), and the
/// position of the match or, without one, where `key` belongs.
pub open spec fn search(peers: Seq<inet_peer>, key: int, lo: int, hi: int) -> (Seq<usize>, Result<int, int>)
    decreases hi - lo,
{
    if lo >= hi {
        (Seq::empty(), Err(lo))
    } else {
        let mid = lo + (hi - lo) / 2;
        let k = addr_key(peers[mid].daddr);
        if key == k {
            (Seq::empty(), Ok(mid))
        } else if key < k {
            let (p, r) = search(peers, key, lo, mid);
            (seq![mid as usize] + p, r)
        } else {
            let (p, r) = search(peers, key, mid + 1, hi);
            (seq![mid as usize] + p, r)
        }
    }
}

/// The peers passed on the way, at most `PEER_MAX_GC` of them: the
/// candidates for collection.
pub open spec fn gc_stack(path: Seq<usize>) -> Seq<usize> {
    if path.len() <= PEER_MAX_GC { path } else { path.take(PEER_MAX_GC as int) }
}

pub open spec fn sorted(peers: Seq<inet_peer>) -> bool {
    forall|i: int, j: int| 0 <= i < j < peers.len() ==> addr_key(#[trigger] peers[i].daddr) < addr_key(#[trigger] peers[j].daddr)
}

proof fn lemma_search(peers: Seq<inet_peer>, key: int, lo: int, hi: int)
    requires
        sorted(peers),
        0 <= lo <= hi <= peers.len(),
        hi <= usize::MAX,
    ensures
        match search(peers, key, lo, hi).1 {
            Ok(m) => lo <= m < hi && addr_key(peers[m].daddr) == key,
            Err(ins) => lo <= ins <= hi
                && (forall|j: int| lo <= j < ins ==> addr_key(#[trigger] peers[j].daddr) < key)
                && (forall|j: int| ins <= j < hi ==> addr_key(#[trigger] peers[j].daddr) > key),
        },
        forall|k: int| 0 <= k < search(peers, key, lo, hi).0.len() ==> lo <= #[trigger] search(peers, key, lo, hi).0[k] < hi,
    decreases hi - lo,
{
    if lo < hi {
        let mid = lo + (hi - lo) / 2;
        let k = addr_key(peers[mid].daddr);
        if key < k {
            lemma_search(peers, key, lo, mid);
            let (p, r) = search(peers, key, lo, mid);
            assert forall|q: int| 0 <= q < search(peers, key, lo, hi).0.len() implies lo <= #[trigger] search(peers, key, lo, hi).0[q] < hi by {
                if q > 0 {
                    assert(search(peers, key, lo, hi).0[q] == p[q - 1]);
                }
            }
            if let Err(ins) = r {
                assert forall|j: int| ins <= j < hi implies addr_key(#[trigger] peers[j].daddr) > key by {
                    if j > mid {
                        assert(addr_key(peers[mid].daddr) < addr_key(peers[j].daddr));
                    }
                }
            }
        } else if key > k {
            lemma_search(peers, key, mid + 1, hi);
            let (p, r) = search(peers, key, mid + 1, hi);
            assert forall|q: int| 0 <= q < search(peers, key, lo, hi).0.len() implies lo <= #[trigger] search(peers, key, lo, hi).0[q] < hi by {
                if q > 0 {
                    assert(search(peers, key, lo, hi).0[q] == p[q - 1]);
                }
            }
            if let Err(ins) = r {
                assert forall|j: int| lo <= j < ins implies addr_key(#[trigger] peers[j].daddr) < key by {
                    if j < mid {
                        assert(addr_key(peers[j].daddr) < addr_key(peers[mid].daddr));
                    }
                }
            }
        }
    }
}

/// Search the table for `daddr` (see `search`), noting the peers passed on
/// the way as collection candidates.
pub fn lookup(base: &inet_peer_base, daddr: &inetpeer_addr) -> (r: (Result<usize, usize>, Vec<usize>))
    requires
        base.wf(),
        daddr.family == base.family,
    ensures
        ({
            let (path, res) = search(base.peers@, addr_key(*daddr), 0, base.peers@.len() as int);
            &&& r.1@ == gc_stack(path)
            &&& match res {
                Ok(m) => r.0 == Ok::<usize, usize>(m as usize),
                Err(ins) => r.0 == Err::<usize, usize>(ins as usize),
            }
        }),
{
    let ghost key = addr_key(*daddr);
    let ghost peers = base.peers@;
    let ghost n = peers.len() as int;
    let mut lo: usize = 0;
    let mut hi: usize = base.peers.len();
    let mut stack: Vec<usize> = Vec::new();
    let ghost mut walked: Seq<usize> = Seq::empty();
    proof {
        assert(search(peers, key, 0, n).0 =~= walked + search(peers, key, 0, n).0);
    }
    while lo < hi
        invariant
            base.wf(),
            daddr.family == base.family,
            peers == base.peers@,
            key == addr_key(*daddr),
            n == peers.len(),
            lo <= hi <= n,
            search(peers, key, 0, n).0 == walked + search(peers, key, lo as int, hi as int).0,
            search(peers, key, 0, n).1 == search(peers, key, lo as int, hi as int).1,
            stack@ == gc_stack(walked),
        decreases hi - lo,
    {
        let mid = lo + (hi - lo) / 2;
        let c = addr_order(daddr, &base.peers[mid].daddr);
        if c == 0 {
            proof {
                assert(search(peers, key, lo as int, hi as int).0 =~= Seq::<usize>::empty());
                assert(walked + Seq::<usize>::empty() =~= walked);
            }
            return (Ok(mid), stack);
        }
        if stack.len() < PEER_MAX_GC {
            stack.push(mid);
        }
        proof {
            let old_walked = walked;
            walked = walked.push(mid);
            assert(stack@ =~= gc_stack(walked)) by {
                if old_walked.len() >= PEER_MAX_GC {
                    assert(gc_stack(walked) =~= gc_stack(old_walked));
                }
            }
        }
        if c < 0 {
            proof {
                let (p, r) = search(peers, key, lo as int, mid as int);
                assert(search(peers, key, lo as int, hi as int).0 =~= seq![mid] + p);
                assert(search(peers, key, 0, n).0 =~= walked + p);
            }
            hi = mid;
        } else {
            proof {
                let (p, r) = search(peers, key, mid as int + 1, hi as int);
                assert(search(peers, key, lo as int, hi as int).0 =~= seq![mid] + p);
                assert(search(peers, key, 0, n).0 =~= walked + p);
            }
            lo = mid + 1;
        }
    }
    proof {
        assert(search(peers, key, lo as int, hi as int).0 =~= Seq::<usize>::empty());
        assert(walked + Seq::<usize>::empty() =~= walked);
    }
    (Err(lo), stack)
}

/// How long an unused peer is kept when the table holds `total` peers:
/// nothing once it holds `threshold`, else from `maxttl` for an empty table
/// down towards `minttl` in proportion to how full it is.
pub open spec fn gc_ttl(total: int, prm: inet_peer_params) -> int {
    if total >= prm.threshold {
        0
    } else {
        prm.maxttl - (prm.maxttl - prm.minttl) / 100 * total / (prm.threshold as int) * 100
    }
}

/// Whether a collection candidate goes: unused for `ttl` ticks and held by
/// the table alone.
pub open spec fn expired(p: inet_peer, now: u32, ttl: int) -> bool {
    now.wrapping_sub(p.dtime) >= ttl && p.refcnt == 1
}

/// The positions, below `n`, of the peers a collection over candidates
/// `stack` keeps.
pub open spec fn kept_idx(peers: Seq<inet_peer>, stack: Seq<usize>, now: u32, ttl: int, n: int) -> Seq<int>
    decreases n,
{
    if n <= 0 {
        Seq::empty()
    } else {
        let r = kept_idx(peers, stack, now, ttl, n - 1);
        if stack.contains((n - 1) as usize) && expired(peers[n - 1], now, ttl) { r } else { r.push(n - 1) }
    }
}

/// The peers a collection over candidates `stack` keeps, in order.
pub open spec fn kept(peers: Seq<inet_peer>, stack: Seq<usize>, now: u32, ttl: int) -> Seq<inet_peer> {
    kept_idx(peers, stack, now, ttl, peers.len() as int).map_values(|j: int| peers[j])
}

proof fn lemma_kept_idx(peers: Seq<inet_peer>, stack: Seq<usize>, now: u32, ttl: int, n: int)
    requires
        0 <= n,
    ensures
        kept_idx(peers, stack, now, ttl, n).len() <= n,
        forall|a: int| 0 <= a < kept_idx(peers, stack, now, ttl, n).len()
            ==> 0 <= #[trigger] kept_idx(peers, stack, now, ttl, n)[a] < n,
        forall|a: int, b: int| 0 <= a < b < kept_idx(peers, stack, now, ttl, n).len()
            ==> #[trigger] kept_idx(peers, stack, now, ttl, n)[a] < #[trigger] kept_idx(peers, stack, now, ttl, n)[b],
    decreases n,
{
    if n > 0 {
        lemma_kept_idx(peers, stack, now, ttl, n - 1);
    }
}

/// Collect the candidates in `gc_stack` that are expired (see `expired`,
/// with the time to live `gc_ttl` for the table's current size); the other
/// peers stay, in order.
pub fn inet_peer_gc(base: &mut inet_peer_base, gc_stack: &Vec<usize>, now: u32, prm: &inet_peer_params)
    requires
        old(base).wf(),
        prm.minttl <= prm.maxttl,
    ensures
        final(base).wf(),
        final(base).family == old(base).family,
        final(base).peers@ == kept(old(base).peers@, gc_stack@, now, gc_ttl(old(base).total as int, *prm)),
{
    let ghost peers = base.peers@;
    let ttl: u64 = if base.total >= prm.threshold {
        0
    } else {
        let d: u64 = ((prm.maxttl - prm.minttl) / 100) as u64;
        let t: u64 = base.total as u64;
        let th: u64 = prm.threshold as u64;
        proof {
            assert(d * t <= d * th) by (nonlinear_arith)
                requires
                    t < th,
            ;
            assert(d * t / (th as int) <= d) by (nonlinear_arith)
                requires
                    d * t <= d * th,
                    th > 0,
            ;
            assert(d * 100 <= prm.maxttl - prm.minttl) by (nonlinear_arith)
                requires
                    d == (prm.maxttl - prm.minttl) / 100,
                    prm.maxttl >= prm.minttl,
            ;
            assert(d * t <= 0xffff_ffff * 0xffff_ffffu64) by (nonlinear_arith)
                requires
                    d <= 0xffff_ffff,
                    t <= 0xffff_ffff,
            ;
            assert((d * t / (th as int)) * 100 <= d * 100) by (nonlinear_arith)
                requires
                    d * t / (th as int) <= d,
            ;
        }
        prm.maxttl as u64 - d * t / th * 100
    };
    let mut out: Vec<inet_peer> = Vec::new();
    let n = base.peers.len();
    let ghost mut idx: Seq<int> = Seq::empty();
    let mut i: usize = 0;
    while i < n
        invariant
            n == peers.len(),
            peers == base.peers@,
            ttl == gc_ttl(base.total as int, *prm),
            i <= n,
            idx == kept_idx(peers, gc_stack@, now, ttl as int, i as int),
            out@ == idx.map_values(|j: int| peers[j]),
        decreases n - i,
    {
        let mut in_stack = false;
        let mut k: usize = 0;
        while k < gc_stack.len()
            invariant
                k <= gc_stack.len(),
                in_stack == exists|q: int| 0 <= q < k && gc_stack@[q] == i,
            decreases gc_stack.len() - k,
        {
            if gc_stack[k] == i {
                in_stack = true;
            }
            k = k + 1;
        }
        proof {
            if in_stack {
                let q = choose|q: int| 0 <= q < k && gc_stack@[q] == i;
                assert(gc_stack@.contains(i));
            } else {
                assert(!gc_stack@.contains(i));
            }
        }
        let p = &base.peers[i];
        let delta = now.wrapping_sub(p.dtime);
        let goes = in_stack && (delta as u64) >= ttl && p.refcnt == 1;
        if !goes {
            out.push(base.peers[i]);
            proof {
                idx = idx.push(i as int);
            }
        }
        proof {
            assert(out@ =~= idx.map_values(|j: int| peers[j]));
        }
        i = i + 1;
    }
    proof {
        lemma_kept_idx(peers, gc_stack@, now, ttl as int, n as int);
    }
    let len = out.len();
    base.peers = out;
    base.total = len as u32;
}

proof fn lemma_kept_has(peers: Seq<inet_peer>, stack: Seq<usize>, now: u32, ttl: int, n: int, x: int)
    requires
        0 <= x < n,
        !(stack.contains(x as usize) && expired(peers[x], now, ttl)),
    ensures
        exists|a: int| 0 <= a < kept_idx(peers, stack, now, ttl, n).len() && #[trigger] kept_idx(peers, stack, now, ttl, n)[a] == x,
    decreases n,
{
    if x < n - 1 {
        lemma_kept_has(peers, stack, now, ttl, n - 1, x);
        let a = choose|a: int| 0 <= a < kept_idx(peers, stack, now, ttl, n - 1).len() && #[trigger] kept_idx(peers, stack, now, ttl, n - 1)[a] == x;
        assert(kept_idx(peers, stack, now, ttl, n)[a] == x);
    } else {
        let r = kept_idx(peers, stack, now, ttl, n - 1);
        assert(kept_idx(peers, stack, now, ttl, n) == r.push(n - 1));
        assert(kept_idx(peers, stack, now, ttl, n)[r.len() as int] == x);
    }
}

/// A newly created peer for `daddr` at time `now`: held by the table and
/// the caller, released now, with a fresh id seed and metrics, no tokens,
/// no redirects, and its last top-up a minute ago.
pub open spec fn is_new_peer(p: inet_peer, daddr: inetpeer_addr, now: u32) -> bool {
    &&& p.daddr == daddr
    &&& p.refcnt == 2
    &&& p.dtime == now
    &&& p.rid == 0
    &&& p.metrics@[0] == INETPEER_METRICS_NEW
    &&& forall|i: int| 1 <= i < 15 ==> p.metrics@[i] == 0
    &&& p.rate_tokens == 0
    &&& p.n_redirects == 0
    &&& p.rate_last == now.wrapping_sub(6000u32)
}

/// The candidates after a peer went in at position `ins`: those at or past
/// it moved one place on.
pub open spec fn shift_stack(stack: Seq<usize>, ins: int) -> Seq<usize> {
    stack.map_values(|s: usize| if s >= ins { (s + 1) as usize } else { s })
}

/// The peer at `m` with one more reference.
pub open spec fn referenced(p: inet_peer) -> inet_peer {
    inet_peer { refcnt: (p.refcnt + 1) as u32, ..p }
}

/// Look up the peer for `daddr`, creating it when asked (`create`). A peer
/// that is there gains a reference and is returned. Otherwise the peers
/// passed on the search (see `gc_stack`) are candidates for collection;
/// with `create` a new peer (see `is_new_peer`) goes in where it belongs
/// first; the candidates are then collected (see `inet_peer_gc`) and the
/// new peer's position is returned, or nothing without `create`.
pub fn inet_getpeer(base: &mut inet_peer_base, daddr: &inetpeer_addr, create: bool, now: u32, prm: &inet_peer_params) -> (r: Option<usize>)
    requires
        old(base).wf(),
        daddr.family == old(base).family,
        old(base).total < u32::MAX,
        forall|i: int| 0 <= i < old(base).peers.len() ==> (#[trigger] old(base).peers@[i]).refcnt < u32::MAX,
        prm.minttl <= prm.maxttl,
    ensures
        final(base).wf(),
        final(base).family == old(base).family,
        ({
            let key = addr_key(*daddr);
            let (path, res) = search(old(base).peers@, key, 0, old(base).peers@.len() as int);
            match res {
                Ok(m) => r == Some(m as usize)
                    && final(base).peers@ == old(base).peers@.update(m, referenced(old(base).peers@[m])),
                Err(ins) => {
                    let stack = gc_stack(path);
                    if !create {
                        &&& r is None
                        &&& final(base).peers@ == (if stack.len() > 0 {
                            kept(old(base).peers@, stack, now, gc_ttl(old(base).total as int, *prm))
                        } else {
                            old(base).peers@
                        })
                    } else {
                        exists|np: inet_peer| #![auto] is_new_peer(np, *daddr, now) && {
                            let t = old(base).peers@.insert(ins, np);
                            let st = shift_stack(stack, ins);
                            &&& final(base).peers@ == (if st.len() > 0 {
                                kept(t, st, now, gc_ttl(old(base).total + 1, *prm))
                            } else {
                                t
                            })
                            &&& r matches Some(j) && j < final(base).peers@.len() && final(base).peers@[j as int] == np
                        }
                    }
                },
            }
        }),
{
    let ghost key = addr_key(*daddr);
    let ghost old_peers = base.peers@;
    proof {
        lemma_search(old_peers, key, 0, old_peers.len() as int);
    }
    let (found, _) = lookup(base, daddr);
    match found {
        Ok(m) => {
            let mut p = base.peers[m];
            let _ = refcount_inc_not_zero(&mut p.refcnt);
            base.peers.set(m, p);
            proof {
                assert(base.peers@ =~= old_peers.update(m as int, referenced(old_peers[m as int])));
                assert forall|i: int| 0 <= i < base.peers.len() implies (#[trigger] base.peers@[i]).refcnt >= 1 by {
                    if i != m {
                        assert(base.peers@[i] == old_peers[i]);
                    }
                }
            }
            return Some(m);
        },
        Err(_) => {},
    }
    let (again, stack) = lookup(base, daddr);
    let ins = match again {
        Err(ins) => ins,
        Ok(m) => {
            return Some(m);
        },
    };
    let ghost path = search(old_peers, key, 0, old_peers.len() as int).0;
    let mut cands = stack;
    let mut np_opt: Option<inet_peer> = None;
    if create {
        let np = inet_peer {
            daddr: *daddr,
            refcnt: 2,
            dtime: now,
            rid: 0,
            metrics: [INETPEER_METRICS_NEW, 0, 0, 0, 0, 0, 0, 0, 0, 0, 0, 0, 0, 0, 0],
            rate_tokens: 0,
            n_redirects: 0,
            rate_last: now.wrapping_sub(60 * HZ),
        };
        base.peers.insert(ins, np);
        base.total = base.total + 1;
        let mut shifted: Vec<usize> = Vec::new();
        let mut k: usize = 0;
        while k < cands.len()
            invariant
                k <= cands.len(),
                cands@ == gc_stack(path),
                forall|q: int| 0 <= q < path.len() ==> #[trigger] path[q] < old_peers.len(),
                old_peers.len() < usize::MAX,
                shifted@ =~= shift_stack(cands@, ins as int).take(k as int),
            decreases cands.len() - k,
        {
            let s = cands[k];
            proof {
                assert(cands@[k as int] == path[k as int]);
            }
            if s >= ins {
                shifted.push(s + 1);
            } else {
                shifted.push(s);
            }
            proof {
                assert(shifted@ =~= shift_stack(cands@, ins as int).take(k as int + 1));
            }
            k = k + 1;
        }
        proof {
            assert(shifted@ =~= shift_stack(cands@, ins as int));
            assert(base.peers@ =~= old_peers.insert(ins as int, np));
            assert forall|i: int, j: int| 0 <= i < j < base.peers.len()
                implies addr_key(#[trigger] base.peers@[i].daddr) < addr_key(#[trigger] base.peers@[j].daddr) by {
                if j < ins {
                } else if j == ins {
                } else if i < ins {
                } else if i == ins {
                } else {
                    assert(base.peers@[i] == old_peers[i - 1]);
                    assert(base.peers@[j] == old_peers[j - 1]);
                }
            }
            assert forall|i: int| 0 <= i < base.peers.len() implies (#[trigger] base.peers@[i]).daddr.family == base.family
                && base.peers@[i].refcnt >= 1 by {
                if i < ins {
                } else if i > ins {
                    assert(base.peers@[i] == old_peers[i - 1]);
                }
            }
        }
        cands = shifted;
        np_opt = Some(np);
    }
    let ghost t = base.peers@;
    let ghost total_before_gc = base.total;
    if cands.len() > 0 {
        inet_peer_gc(base, &cands, now, prm);
    }
    match np_opt {
        None => None,
        Some(np) => {
            proof {
                assert(is_new_peer(np, *daddr, now));
                assert(t[ins as int] == np);
                assert(!cands@.contains(ins)) by {
                    if cands@.contains(ins) {
                        let q = choose|q: int| 0 <= q < cands@.len() && cands@[q] == ins;
                    }
                }
                if cands.len() > 0 {
                    lemma_kept_has(t, cands@, now, gc_ttl(total_before_gc as int, *prm), t.len() as int, ins as int);
                    lemma_kept_idx(t, cands@, now, gc_ttl(total_before_gc as int, *prm), t.len() as int);
                }
            }
            let ghost pos: int = if cands.len() > 0 {
                let ki = kept_idx(t, cands@, now, gc_ttl(total_before_gc as int, *prm), t.len() as int);
                choose|a: int| 0 <= a < ki.len() && ki[a] == ins
            } else {
                ins as int
            };
            assert(base.peers@[pos] == np);
            let (again2, _) = lookup(base, daddr);
            proof {
                lemma_search(base.peers@, key, 0, base.peers@.len() as int);
            }
            match again2 {
                Ok(j) => {
                    proof {
                        assert(base.peers@[pos] == np);
                        if j as int != pos {
                            if (j as int) < pos {
                                assert(addr_key(base.peers@[j as int].daddr) < addr_key(base.peers@[pos].daddr));
                            } else {
                                assert(addr_key(base.peers@[pos].daddr) < addr_key(base.peers@[j as int].daddr));
                            }
                        }
                    }
                    Some(j)
                },
                Err(_) => {
                    proof {
                        assert(addr_key(base.peers@[pos].daddr) == key);
                    }
                    None
                },
            }
        },
    }
}

/// The peer for an IPv4 address `v4daddr` reached through VRF interface
/// `vif` (see `inet_getpeer`).
pub fn inet_getpeer_v4(base: &mut inet_peer_base, v4daddr: u32, vif: u32, create: bool, now: u32, prm: &inet_peer_params) -> (r: Option<usize>)
    requires
        old(base).wf(),
        old(base).family == AF_INET,
        old(base).total < u32::MAX,
        forall|i: int| 0 <= i < old(base).peers.len() ==> (#[trigger] old(base).peers@[i]).refcnt < u32::MAX,
        prm.minttl <= prm.maxttl,
    ensures
        final(base).wf(),
        final(base).family == old(base).family,
        r matches Some(j) ==> j < final(base).peers.len()
            && addr_key(final(base).peers@[j as int].daddr) == addr_key(inetpeer_addr { family: AF_INET, key: [v4daddr, vif, 0, 0] })
            && final(base).peers@[j as int].refcnt >= 2,
        create ==> r is Some,
        r matches Some(j) ==> ({
            let p = final(base).peers@[j as int];
            let key = addr_key(inetpeer_addr { family: AF_INET, key: [v4daddr, vif, 0, 0] });
            match search(old(base).peers@, key, 0, old(base).peers@.len() as int).1 {
                Ok(m) => p.rate_tokens == old(base).peers@[m].rate_tokens && p.rate_last == old(base).peers@[m].rate_last,
                Err(_) => p.rate_tokens == 0 && p.rate_last == now.wrapping_sub(6000u32),
            }
        }),
{
    let daddr = inetpeer_addr { family: AF_INET, key: [v4daddr, vif, 0, 0] };
    let r = inet_getpeer(base, &daddr, create, now, prm);
    proof {
        lemma_search(old(base).peers@, addr_key(daddr), 0, old(base).peers@.len() as int);
    }
    r
}

/// Release a reference to the peer at `index` at time `now`: the peer
/// records the time and has one reference less (the table keeps its own).
pub fn inet_putpeer(base: &mut inet_peer_base, index: usize, now: u32)
    requires
        old(base).wf(),
        index < old(base).peers.len(),
        old(base).peers@[index as int].refcnt >= 2,
    ensures
        final(base).wf(),
        final(base).family == old(base).family,
        final(base).peers@ == old(base).peers@.update(index as int, inet_peer {
            dtime: now,
            refcnt: (old(base).peers@[index as int].refcnt - 1) as u32,
            ..old(base).peers@[index as int]
        }),
{
    let mut p = base.peers[index];
    p.dtime = now;
    p.refcnt = p.refcnt - 1;
    base.peers.set(index, p);
    proof {
        assert forall|i: int| 0 <= i < base.peers.len() implies (#[trigger] base.peers@[i]).refcnt >= 1 by {
            if i != index {
                assert(base.peers@[i] == old(base).peers@[i]);
            }
        }
    }
}

/// A peer already in the table is what a lookup of its address finds, so
/// asking for it again returns it rather than creating another.
pub proof fn present_peer_is_found(base: inet_peer_base, daddr: inetpeer_addr, j: int)
    requires
        base.wf(),
        0 <= j < base.peers.len(),
        addr_key(base.peers@[j].daddr) == addr_key(daddr),
    ensures
        search(base.peers@, addr_key(daddr), 0, base.peers@.len() as int).1 == Ok::<int, int>(j),
{
    let peers = base.peers@;
    assert(sorted(peers));
    lemma_search(peers, addr_key(daddr), 0, peers.len() as int);
    match search(peers, addr_key(daddr), 0, peers.len() as int).1 {
        Ok(m) => {
            if m < j {
                assert(addr_key(peers[m].daddr) < addr_key(peers[j].daddr));
            } else if m > j {
                assert(addr_key(peers[j].daddr) < addr_key(peers[m].daddr));
            }
        },
        Err(ins) => {
            if j < ins {
                assert(addr_key(peers[j].daddr) < addr_key(daddr));
            } else {
                assert(addr_key(peers[j].daddr) > addr_key(daddr));
            }
        },
    }
}

} // verus!
