//! TCP metrics cache: per-destination RTT, RTT variance, slow-start
//! threshold, congestion window and reordering, seeded from the route and
//! folded in when a connection closes.
use vstd::prelude::*;

verus! {

pub const TCP_METRIC_RTT: i32 = 0;
pub const TCP_METRIC_RTTVAR: i32 = 1;
pub const TCP_METRIC_SSTHRESH: i32 = 2;
pub const TCP_METRIC_CWND: i32 = 3;
pub const TCP_METRIC_REORDERING: i32 = 4;
pub const TCP_METRIC_MAX_KERNEL: i32 = 5;

/// One hour, in ticks of a 100 Hz clock.
pub const TCP_METRICS_TIMEOUT: u64 = 360000;
pub const TCP_METRICS_RECLAIM_DEPTH: i32 = 5;

pub const EINVAL: i32 = -22;
pub const ENOMEM: i32 = -12;
pub const ENOSYS: i32 = -38;

pub const AF_INET: i32 = 2;
pub const RTAX_RTT: i32 = 1;
pub const RTAX_RTTVAR: i32 = 2;
pub const RTAX_SSTHRESH: i32 = 3;
pub const RTAX_CWND: i32 = 4;
pub const RTAX_REORDERING: i32 = 5;

/// An address with its family.
#[derive(Clone, Copy)]
pub struct InetPeerAddr {
    pub family: i32,
    pub data: [u8; 16],
}

/// The fast-open cookie remembered for a destination.
#[derive(Clone, Copy)]
pub struct TcpFastOpenCookie {
    pub exp: bool,
    pub len: u8,
}

/// What fast open learned about a destination.
#[derive(Clone, Copy)]
pub struct TcpFastOpenMetrics {
    pub mss: u16,
    pub syn_loss: u16,
    pub try_exp: u16,
    pub last_syn_loss: u64,
    pub cookie: TcpFastOpenCookie,
}

/// The namespace a block belongs to, by its identity.
#[derive(Clone, Copy)]
pub struct PossibleNet {
    pub id: u64,
}

/// Deferred-free bookkeeping, opaque here.
#[derive(Clone, Copy)]
pub struct RcuHead {
    pub data: [u8; 8],
}

/// One cached destination. `tcpm_next` is the position of the next block
/// of its hash chain.
#[derive(Clone, Copy)]
pub struct TcpMetricsBlock {
    pub tcpm_next: Option<u64>,
    pub tcpm_net: PossibleNet,
    pub tcpm_saddr: InetPeerAddr,
    pub tcpm_daddr: InetPeerAddr,
    pub tcpm_stamp: u64,
    pub tcpm_lock: u32,
    pub tcpm_vals: [u32; 6],
    pub tcpm_fastopen: TcpFastOpenMetrics,
    pub rcu_head: RcuHead,
}

/// A hash bucket: the position of its first block.
pub struct TcpmHashBucket {
    pub chain: Option<u64>,
}

pub struct SpinLock {
    pub data: [u8; 8],
}

/// The route's metrics as the cache reads them: the raw value of each
/// metric (by its number, from 1) and the bit set of locked ones.
pub struct DstEntry {
    pub dev_net: PossibleNet,
    pub metrics: [u32; 6],
    pub locked: u32,
}

/// A pending connection request: the addresses it was made between.
pub struct RequestSock {
    pub family: i32,
    pub saddr: InetPeerAddr,
    pub daddr: InetPeerAddr,
}

pub struct InetSock {
    pub inet_saddr: u32,
    pub inet_daddr: u32,
    pub sk_family: i32,
}

pub struct TcpSock {
    pub srtt_us: u32,
    pub mdev_us: u32,
}

pub struct InetConnectionSock {
    pub icsk_backoff: u32,
}

/// The socket fields that updating the cache reads.
pub struct Sock {
    pub sk_family: i32,
    pub sk_saddr: InetPeerAddr,
    pub sk_daddr: InetPeerAddr,
    pub sk_net: PossibleNet,
    pub icsk: InetConnectionSock,
    pub tp: TcpSock,
}

/// The cache: its blocks, newest last.
pub struct TcpMetricsTable {
    pub blocks: Vec<TcpMetricsBlock>,
}

pub open spec fn bit(idx: int) -> u32 {
    (1u32 << (idx as u32))
}

/// Whether the lock bits `lock` hold the metric `idx`.
pub open spec fn locked_in(lock: u32, idx: int) -> bool {
    lock & bit(idx) != 0
}

/// Whether the metric `idx` is locked in the block.
pub open spec fn metric_locked(tm: TcpMetricsBlock, idx: int) -> bool {
    locked_in(tm.tcpm_lock, idx)
}

pub fn tcp_metric_locked(tm: &TcpMetricsBlock, idx: i32) -> (r: bool)
    requires
        0 <= idx <= TCP_METRIC_MAX_KERNEL,
    ensures
        r == metric_locked(*tm, idx as int),
{
    tm.tcpm_lock & (1u32 << (idx as u32)) != 0
}

pub fn tcp_metric_get(tm: &TcpMetricsBlock, idx: i32) -> (r: u32)
    requires
        0 <= idx <= TCP_METRIC_MAX_KERNEL,
    ensures
        r == tm.tcpm_vals[idx as int],
{
    tm.tcpm_vals[idx as usize]
}

pub fn tcp_metric_set(tm: &mut TcpMetricsBlock, idx: i32, val: u32)
    requires
        0 <= idx <= TCP_METRIC_MAX_KERNEL,
    ensures
        *final(tm) == (TcpMetricsBlock { tcpm_vals: final(tm).tcpm_vals, ..*old(tm) }),
        final(tm).tcpm_vals@ == old(tm).tcpm_vals@.update(idx as int, val),
{
    tm.tcpm_vals[idx as usize] = val;
}

/// The same address: family and all bytes equal.
pub open spec fn same_addr(a: InetPeerAddr, b: InetPeerAddr) -> bool {
    a.family == b.family && a.data@ == b.data@
}

fn bytes_equal(a: &[u8; 16], b: &[u8; 16]) -> (r: bool)
    ensures
        r == (a@ == b@),
{
    let mut i: usize = 0;
    while i < 16
        invariant
            i <= 16,
            a@.len() == 16,
            b@.len() == 16,
            forall|j: int| 0 <= j < i ==> a@[j] == b@[j],
        decreases 16 - i,
    {
        if a[i] != b[i] {
            assert(a@[i as int] != b@[i as int]);
            return false;
        }
        i = i + 1;
    }
    assert(a@ =~= b@);
    true
}

pub fn addr_same(a: &InetPeerAddr, b: &InetPeerAddr) -> (r: bool)
    ensures
        r == same_addr(*a, *b),
{
    a.family == b.family && bytes_equal(&a.data, &b.data)
}

/// Order of two addresses: by family, then byte by byte.
pub open spec fn addr_order(a: InetPeerAddr, b: InetPeerAddr) -> int {
    if a.family < b.family {
        -1
    } else if a.family > b.family {
        1
    } else {
        bytes_order(a.data@, b.data@, 0)
    }
}

pub open spec fn bytes_order(a: Seq<u8>, b: Seq<u8>, from: int) -> int
    decreases 16 - from,
{
    if from >= 16 || from < 0 {
        0
    } else if a[from] < b[from] {
        -1
    } else if a[from] > b[from] {
        1
    } else {
        bytes_order(a, b, from + 1)
    }
}

pub open spec fn pos(i: usize) -> int {
    i as int
}

/// -1, 0 or 1 as `a` orders before, with, or after `b`.
pub fn inetpeer_addr_cmp(a: &InetPeerAddr, b: &InetPeerAddr) -> (r: i32)
    ensures
        r == addr_order(*a, *b),
        r == 0 <==> same_addr(*a, *b),
{
    if a.family < b.family {
        return -1;
    }
    if a.family > b.family {
        return 1;
    }
    let mut i: usize = 16;
    let mut res: i32 = 0;
    while i > 0
        invariant
            i <= 16,
            a.data@.len() == 16,
            b.data@.len() == 16,
            a.family == b.family,
            res == bytes_order(a.data@, b.data@, pos(i)),
            res == 0 <==> (forall|j: int| pos(i) <= j < 16 ==> a.data@[j] == b.data@[j]),
        decreases i,
    {
        i = i - 1;
        let x = a.data[i];
        let y = b.data[i];
        if x < y {
            res = -1;
        } else if x > y {
            res = 1;
        }
        proof {
            if x == y && res == 0 {
                assert forall|j: int| pos(i) <= j < 16 implies a.data@[j] == b.data@[j] by {
                    if j > pos(i) {
                    }
                }
            }
        }
    }
    proof {
        if res == 0 {
            assert(a.data@ =~= b.data@);
        }
    }
    res
}

/// The lock bit set a route gives: cache metric `i` is locked when route
/// metric `i + 1` is (the five metrics the cache keeps).
pub open spec fn lock_bits(dst: DstEntry) -> u32 {
    (dst.locked >> 1u32) & 0x1f
}

/// The low `k` bits set.
pub open spec fn low_bits(k: u32) -> u32 {
    ((1u32 << k) - 1u32) as u32
}

proof fn lemma_lock_step(l: u32, val: u32, k: u32, km1: u32)
    by (bit_vector)
    requires
        1 <= k <= 5,
        km1 + 1 == k,
    ensures
        val == (l >> 1u32) & low_bits(km1) ==> (if l & (1u32 << k) != 0 { val | (1u32 << km1) } else { val }) == (l >> 1u32) & low_bits(k),
        (l >> 1u32) & low_bits(0) == 0,
        low_bits(5) == 0x1f,
{
}

/// The raw value of route metric `rtax` (numbered from 1).
pub open spec fn raw(dst: DstEntry, rtax: int) -> u32 {
    dst.metrics[rtax - 1]
}

fn dst_metric_locked(dst: &DstEntry, rtax: i32) -> (r: bool)
    requires
        1 <= rtax <= 5,
    ensures
        r == (dst.locked & bit(rtax as int) != 0),
{
    dst.locked & (1u32 << (rtax as u32)) != 0
}

fn dst_metric_raw(dst: &DstEntry, rtax: i32) -> (r: u32)
    requires
        1 <= rtax <= 5,
    ensures
        r == raw(*dst, rtax as int),
{
    dst.metrics[(rtax - 1) as usize]
}

/// The values a block takes from the route: RTT and its variance in
/// microseconds (the route has milliseconds; 32-bit arithmetic), the
/// others as they are.
pub open spec fn sucked_vals(dst: DstEntry) -> Seq<u32> {
    seq![
        raw(dst, RTAX_RTT as int).wrapping_mul(1000),
        raw(dst, RTAX_RTTVAR as int).wrapping_mul(1000),
        raw(dst, RTAX_SSTHRESH as int),
        raw(dst, RTAX_CWND as int),
        raw(dst, RTAX_REORDERING as int),
    ]
}

/// Fill the block from the route at time `now`; with `fastopen_clear`,
/// forget what fast open learned.
pub fn tcpm_suck_dst(tm: &mut TcpMetricsBlock, dst: &DstEntry, fastopen_clear: bool, now: u64)
    ensures
        final(tm).tcpm_stamp == now,
        final(tm).tcpm_lock == lock_bits(*dst),
        final(tm).tcpm_vals@.subrange(0, 5) == sucked_vals(*dst),
        final(tm).tcpm_vals@[5] == old(tm).tcpm_vals@[5],
        final(tm).tcpm_fastopen == (if fastopen_clear {
            TcpFastOpenMetrics {
                mss: 0,
                syn_loss: 0,
                try_exp: 0,
                cookie: TcpFastOpenCookie { exp: false, len: 0 },
                ..old(tm).tcpm_fastopen
            }
        } else {
            old(tm).tcpm_fastopen
        }),
        final(tm).tcpm_next == old(tm).tcpm_next,
        final(tm).tcpm_net == old(tm).tcpm_net,
        final(tm).tcpm_saddr == old(tm).tcpm_saddr,
        final(tm).tcpm_daddr == old(tm).tcpm_daddr,
        final(tm).rcu_head == old(tm).rcu_head,
{
    tm.tcpm_stamp = now;
    let mut val: u32 = 0;
    let ghost l = dst.locked;
    proof {
        lemma_lock_step(l, 0, 1, 0);
    }
    let ghost v = val;
    if dst_metric_locked(dst, RTAX_RTT) {
        val = val | (1u32 << 0u32);
    }
    proof {
        lemma_lock_step(l, v, 1, 0);
        v = val;
    }
    if dst_metric_locked(dst, RTAX_RTTVAR) {
        val = val | (1u32 << 1u32);
    }
    proof {
        lemma_lock_step(l, v, 2, 1);
        v = val;
    }
    if dst_metric_locked(dst, RTAX_SSTHRESH) {
        val = val | (1u32 << 2u32);
    }
    proof {
        lemma_lock_step(l, v, 3, 2);
        v = val;
    }
    if dst_metric_locked(dst, RTAX_CWND) {
        val = val | (1u32 << 3u32);
    }
    proof {
        lemma_lock_step(l, v, 4, 3);
        v = val;
    }
    if dst_metric_locked(dst, RTAX_REORDERING) {
        val = val | (1u32 << 4u32);
    }
    proof {
        lemma_lock_step(l, v, 5, 4);
    }
    tm.tcpm_lock = val;
    let msval = dst_metric_raw(dst, RTAX_RTT);
    tm.tcpm_vals[0] = msval.wrapping_mul(1000);
    let msval = dst_metric_raw(dst, RTAX_RTTVAR);
    tm.tcpm_vals[1] = msval.wrapping_mul(1000);
    tm.tcpm_vals[2] = dst_metric_raw(dst, RTAX_SSTHRESH);
    tm.tcpm_vals[3] = dst_metric_raw(dst, RTAX_CWND);
    tm.tcpm_vals[4] = dst_metric_raw(dst, RTAX_REORDERING);
    if fastopen_clear {
        tm.tcpm_fastopen.mss = 0;
        tm.tcpm_fastopen.syn_loss = 0;
        tm.tcpm_fastopen.try_exp = 0;
        tm.tcpm_fastopen.cookie.exp = false;
        tm.tcpm_fastopen.cookie.len = 0;
    }
    assert(tm.tcpm_vals@.subrange(0, 5) =~= sucked_vals(*dst));
}


/// The block `o` after being refilled from the route (see `tcpm_suck_dst`).
pub open spec fn sucked(o: TcpMetricsBlock, n: TcpMetricsBlock, dst: DstEntry, fastopen_clear: bool, now: u64) -> bool {
    &&& n == (TcpMetricsBlock {
        tcpm_vals: n.tcpm_vals,
        tcpm_stamp: now,
        tcpm_lock: lock_bits(dst),
        tcpm_fastopen: if fastopen_clear {
            TcpFastOpenMetrics {
                mss: 0,
                syn_loss: 0,
                try_exp: 0,
                cookie: TcpFastOpenCookie { exp: false, len: 0 },
                ..o.tcpm_fastopen
            }
        } else {
            o.tcpm_fastopen
        },
        ..o
    })
    &&& n.tcpm_vals@ == sucked_vals(dst).push(o.tcpm_vals@[5])
}

/// The block is older than the timeout at time `now`.
pub open spec fn expired(tm: TcpMetricsBlock, now: u64) -> bool {
    now > tm.tcpm_stamp + TCP_METRICS_TIMEOUT
}

/// The values a block holds after the age check at `now`.
pub open spec fn stamped_vals(o: TcpMetricsBlock, dst: DstEntry, now: u64) -> Seq<u32> {
    if expired(o, now) { sucked_vals(dst).push(o.tcpm_vals@[5]) } else { o.tcpm_vals@ }
}

/// The lock bits a block holds after the age check at `now`.
pub open spec fn stamped_lock(o: TcpMetricsBlock, dst: DstEntry, now: u64) -> u32 {
    if expired(o, now) { lock_bits(dst) } else { o.tcpm_lock }
}

/// `n` is `o` after the age check at `now` (refilled from the route when
/// expired, keeping what fast open learned), holding the values `vals`.
pub open spec fn after_stamp(o: TcpMetricsBlock, n: TcpMetricsBlock, dst: DstEntry, now: u64, vals: Seq<u32>) -> bool {
    &&& n == (TcpMetricsBlock {
        tcpm_vals: n.tcpm_vals,
        tcpm_stamp: if expired(o, now) { now } else { o.tcpm_stamp },
        tcpm_lock: stamped_lock(o, dst, now),
        ..o
    })
    &&& n.tcpm_vals@ == vals
}

/// The block `o` after the age check at `now`.
pub open spec fn stamped(o: TcpMetricsBlock, n: TcpMetricsBlock, dst: DstEntry, now: u64) -> bool {
    after_stamp(o, n, dst, now, stamped_vals(o, dst, now))
}

/// Refill the block from the route when it has expired.
pub fn tcpm_check_stamp(tm: &mut TcpMetricsBlock, dst: &DstEntry, now: u64)
    ensures
        stamped(*old(tm), *final(tm), *dst, now),
{
    if tm.tcpm_stamp <= u64::MAX - TCP_METRICS_TIMEOUT && now > tm.tcpm_stamp + TCP_METRICS_TIMEOUT {
        tcpm_suck_dst(tm, dst, false, now);
        assert(tm.tcpm_vals@ =~= sucked_vals(*dst).push(old(tm).tcpm_vals@[5]));
        assert(tm.tcpm_fastopen == old(tm).tcpm_fastopen);
    }
}

/// The block is the one kept for these addresses in this namespace.
pub open spec fn key_matches(b: TcpMetricsBlock, saddr: InetPeerAddr, daddr: InetPeerAddr, net: PossibleNet) -> bool {
    same_addr(b.tcpm_saddr, saddr) && same_addr(b.tcpm_daddr, daddr) && b.tcpm_net.id == net.id
}

/// `i` is the first block kept for the key.
pub open spec fn first_match(s: Seq<TcpMetricsBlock>, i: int, saddr: InetPeerAddr, daddr: InetPeerAddr, net: PossibleNet) -> bool {
    &&& 0 <= i < s.len()
    &&& key_matches(s[i], saddr, daddr, net)
    &&& forall|j: int| 0 <= j < i ==> !key_matches(#[trigger] s[j], saddr, daddr, net)
}

pub open spec fn has_match(s: Seq<TcpMetricsBlock>, saddr: InetPeerAddr, daddr: InetPeerAddr, net: PossibleNet) -> bool {
    exists|j: int| 0 <= j < s.len() && key_matches(#[trigger] s[j], saddr, daddr, net)
}

fn find_block(blocks: &Vec<TcpMetricsBlock>, saddr: &InetPeerAddr, daddr: &InetPeerAddr, net: &PossibleNet) -> (r: Option<usize>)
    ensures
        match r {
            Some(i) => first_match(blocks@, i as int, *saddr, *daddr, *net),
            None => !has_match(blocks@, *saddr, *daddr, *net),
        },
{
    let mut i: usize = 0;
    while i < blocks.len()
        invariant
            i <= blocks.len(),
            forall|j: int| 0 <= j < i ==> !key_matches(#[trigger] blocks@[j], *saddr, *daddr, *net),
        decreases blocks.len() - i,
    {
        let b = &blocks[i];
        if addr_same(&b.tcpm_saddr, saddr) && addr_same(&b.tcpm_daddr, daddr) && b.tcpm_net.id == net.id {
            return Some(i);
        }
        i = i + 1;
    }
    None
}

/// Look up the block for these addresses in the route's namespace; when
/// found, apply the age check.
fn lookup_and_check(table: &mut TcpMetricsTable, saddr: &InetPeerAddr, daddr: &InetPeerAddr, dst: &DstEntry, now: u64) -> (r: Option<usize>)
    ensures
        match r {
            Some(i) => {
                &&& first_match(old(table).blocks@, i as int, *saddr, *daddr, dst.dev_net)
                &&& final(table).blocks@.len() == old(table).blocks@.len()
                &&& stamped(old(table).blocks@[i as int], final(table).blocks@[i as int], *dst, now)
                &&& forall|j: int| 0 <= j < old(table).blocks@.len() && j != i ==> final(table).blocks@[j] == old(table).blocks@[j]
            },
            None => !has_match(old(table).blocks@, *saddr, *daddr, dst.dev_net) && final(table).blocks@ == old(table).blocks@,
        },
{
    let found = find_block(&table.blocks, saddr, daddr, &dst.dev_net);
    match found {
        Some(i) => {
            let mut b = table.blocks[i];
            tcpm_check_stamp(&mut b, dst, now);
            table.blocks.set(i, b);
            Some(i)
        },
        None => None,
    }
}

/// The block for a request's addresses, age-checked, if the cache has one.
pub fn __tcp_get_metrics_req(table: &mut TcpMetricsTable, req: &RequestSock, dst: &DstEntry, now: u64) -> (r: Option<usize>)
    ensures
        match r {
            Some(i) => {
                &&& first_match(old(table).blocks@, i as int, req.saddr, req.daddr, dst.dev_net)
                &&& final(table).blocks@.len() == old(table).blocks@.len()
                &&& stamped(old(table).blocks@[i as int], final(table).blocks@[i as int], *dst, now)
                &&& forall|j: int| 0 <= j < old(table).blocks@.len() && j != i ==> final(table).blocks@[j] == old(table).blocks@[j]
            },
            None => !has_match(old(table).blocks@, req.saddr, req.daddr, dst.dev_net) && final(table).blocks@ == old(table).blocks@,
        },
{
    lookup_and_check(table, &req.saddr, &req.daddr, dst, now)
}

/// A fresh block for the key, filled from the route at `now` with nothing
/// learned by fast open.
pub open spec fn fresh_block(b: TcpMetricsBlock, saddr: InetPeerAddr, daddr: InetPeerAddr, dst: DstEntry, now: u64, vals: Seq<u32>) -> bool {
    &&& b.tcpm_next is None
    &&& b.tcpm_net == dst.dev_net
    &&& b.tcpm_saddr == saddr
    &&& b.tcpm_daddr == daddr
    &&& b.tcpm_stamp == now
    &&& b.tcpm_lock == lock_bits(dst)
    &&& b.tcpm_vals@ == vals
    &&& b.tcpm_fastopen == (TcpFastOpenMetrics {
        mss: 0,
        syn_loss: 0,
        try_exp: 0,
        last_syn_loss: 0,
        cookie: TcpFastOpenCookie { exp: false, len: 0 },
    })
}

fn tcpm_new(table: &mut TcpMetricsTable, saddr: &InetPeerAddr, daddr: &InetPeerAddr, dst: &DstEntry, now: u64) -> (r: usize)
    ensures
        r == old(table).blocks@.len(),
        final(table).blocks@.len() == r + 1,
        final(table).blocks@.subrange(0, r as int) == old(table).blocks@,
        fresh_block(final(table).blocks@[r as int], *saddr, *daddr, *dst, now, sucked_vals(*dst).push(0)),
{
    let mut b = TcpMetricsBlock {
        tcpm_next: None,
        tcpm_net: PossibleNet { id: dst.dev_net.id },
        tcpm_saddr: *saddr,
        tcpm_daddr: *daddr,
        tcpm_stamp: 0,
        tcpm_lock: 0,
        tcpm_vals: [0u32; 6],
        tcpm_fastopen: TcpFastOpenMetrics {
            mss: 0,
            syn_loss: 0,
            try_exp: 0,
            last_syn_loss: 0,
            cookie: TcpFastOpenCookie { exp: false, len: 0 },
        },
        rcu_head: RcuHead { data: [0u8; 8] },
    };
    assert(b.tcpm_vals@[5] == 0);
    tcpm_suck_dst(&mut b, dst, true, now);
    assert(b.tcpm_vals@ =~= sucked_vals(*dst).push(0));
    let r = table.blocks.len();
    table.blocks.push(b);
    assert(table.blocks@.subrange(0, r as int) =~= old(table).blocks@);
    r
}

/// The cache block for the socket's addresses in the route's namespace:
/// the existing one, age-checked; else, with `create`, a fresh one added
/// at the end; else none.
pub fn tcp_get_metrics(table: &mut TcpMetricsTable, sk: &Sock, dst: &DstEntry, create: bool, now: u64) -> (r: Option<usize>)
    ensures
        has_match(old(table).blocks@, sk.sk_saddr, sk.sk_daddr, dst.dev_net) ==> (r matches Some(i) && {
            &&& first_match(old(table).blocks@, i as int, sk.sk_saddr, sk.sk_daddr, dst.dev_net)
            &&& final(table).blocks@.len() == old(table).blocks@.len()
            &&& stamped(old(table).blocks@[i as int], final(table).blocks@[i as int], *dst, now)
            &&& forall|j: int| 0 <= j < old(table).blocks@.len() && j != i ==> final(table).blocks@[j] == old(table).blocks@[j]
        }),
        !has_match(old(table).blocks@, sk.sk_saddr, sk.sk_daddr, dst.dev_net) && create ==> (r == Some(old(table).blocks@.len() as usize) && {
            &&& final(table).blocks@.len() == old(table).blocks@.len() + 1
            &&& final(table).blocks@.subrange(0, old(table).blocks@.len() as int) == old(table).blocks@
            &&& fresh_block(final(table).blocks@[old(table).blocks@.len() as int], sk.sk_saddr, sk.sk_daddr, *dst, now, sucked_vals(*dst).push(0))
        }),
        !has_match(old(table).blocks@, sk.sk_saddr, sk.sk_daddr, dst.dev_net) && !create ==> (r is None && final(table).blocks@ == old(table).blocks@),
{
    let found = lookup_and_check(table, &sk.sk_saddr, &sk.sk_daddr, dst, now);
    match found {
        Some(i) => Some(i),
        None => {
            if create {
                Some(tcpm_new(table, &sk.sk_saddr, &sk.sk_daddr, dst, now))
            } else {
                None
            }
        },
    }
}


/// The smoothed RTT a closing connection leaves: its own when not above
/// the cached one, else the cached one lowered by an eighth of the gap.
pub open spec fn new_rtt(rtt: u32, srtt: u32) -> u32 {
    if rtt <= srtt { srtt } else { (rtt - (rtt - srtt) / 8) as u32 }
}

/// The RTT variance it leaves: seven eighths of the cached one plus half
/// the RTT gap, or the connection's deviation when that is larger
/// (32-bit arithmetic).
pub open spec fn new_rttvar(var: u32, rtt: u32, srtt: u32, mdev: u32) -> u32 {
    let gap: int = if rtt >= srtt { rtt - srtt } else { srtt - rtt };
    let m: int = if gap / 2 < mdev { mdev as int } else { gap / 2 };
    ((var - var / 8 + m) % 0x1_0000_0000) as u32
}

/// The cached values after a closing connection's RTT is folded in; a
/// locked metric keeps its value.
pub open spec fn updated_vals(vals: Seq<u32>, lock: u32, srtt: u32, mdev: u32) -> Seq<u32> {
    let v1 = if locked_in(lock, TCP_METRIC_RTT as int) { vals } else { vals.update(0, new_rtt(vals[0], srtt)) };
    if locked_in(lock, TCP_METRIC_RTTVAR as int) { v1 } else { v1.update(1, new_rttvar(vals[1], vals[0], srtt, mdev)) }
}

/// The cached values after a connection without a usable RTT closes: the
/// RTT is forgotten unless locked.
pub open spec fn reset_vals(vals: Seq<u32>, lock: u32) -> Seq<u32> {
    if locked_in(lock, TCP_METRIC_RTT as int) { vals } else { vals.update(0, 0) }
}

/// The socket's connection had no usable RTT (it backed off, or measured
/// none).
pub open spec fn no_rtt(sk: Sock) -> bool {
    sk.icsk.icsk_backoff != 0 || sk.tp.srtt_us == 0
}

/// The first block kept for the socket's key.
pub open spec fn socket_block(s: Seq<TcpMetricsBlock>, sk: Sock, dst: DstEntry) -> int {
    choose|i: int| first_match(s, i, sk.sk_saddr, sk.sk_daddr, dst.dev_net)
}

proof fn lemma_first_match_unique(s: Seq<TcpMetricsBlock>, i: int, k: int, saddr: InetPeerAddr, daddr: InetPeerAddr, net: PossibleNet)
    requires
        first_match(s, i, saddr, daddr, net),
        first_match(s, k, saddr, daddr, net),
    ensures
        i == k,
{
    if i < k {
        assert(!key_matches(s[i], saddr, daddr, net));
    } else if k < i {
        assert(!key_matches(s[k], saddr, daddr, net));
    }
}

proof fn lemma_shr_div(x: u32, k: u32)
    requires
        1 <= k <= 3,
    ensures
        x >> k == x / (if k == 1 { 2u32 } else if k == 2 { 4u32 } else { 8u32 }),
{
    vstd::bits::lemma_u32_shr_is_div(x, k);
    vstd::arithmetic::power2::lemma2_to64();
}

/// Forget the cached RTT unless it is locked.
fn forget_rtt(b: &mut TcpMetricsBlock)
    ensures
        *final(b) == (TcpMetricsBlock { tcpm_vals: final(b).tcpm_vals, ..*old(b) }),
        final(b).tcpm_vals@ == reset_vals(old(b).tcpm_vals@, old(b).tcpm_lock),
{
    if !tcp_metric_locked(b, TCP_METRIC_RTT) {
        tcp_metric_set(b, TCP_METRIC_RTT, 0);
    }
    assert(b.tcpm_vals@ =~= reset_vals(old(b).tcpm_vals@, old(b).tcpm_lock));
}

/// Fold the connection's smoothed RTT and deviation into the block.
fn fold_rtt(b: &mut TcpMetricsBlock, srtt: u32, mdev: u32)
    ensures
        *final(b) == (TcpMetricsBlock { tcpm_vals: final(b).tcpm_vals, ..*old(b) }),
        final(b).tcpm_vals@ == updated_vals(old(b).tcpm_vals@, old(b).tcpm_lock, srtt, mdev),
{
    let rtt = tcp_metric_get(b, TCP_METRIC_RTT);
    if !tcp_metric_locked(b, TCP_METRIC_RTT) {
        if rtt <= srtt {
            tcp_metric_set(b, TCP_METRIC_RTT, srtt);
        } else {
            let gap: u32 = rtt - srtt;
            proof {
                lemma_shr_div(gap, 3);
            }
            tcp_metric_set(b, TCP_METRIC_RTT, rtt - (gap >> 3u32));
        }
    }
    if !tcp_metric_locked(b, TCP_METRIC_RTTVAR) {
        let mut m: u32 = if rtt >= srtt { rtt - srtt } else { srtt - rtt };
        proof {
            lemma_shr_div(m, 1);
        }
        m = m >> 1u32;
        if m < mdev {
            m = mdev;
        }
        let var = tcp_metric_get(b, TCP_METRIC_RTTVAR);
        proof {
            lemma_shr_div(var, 3);
        }
        let var = (var - (var >> 3u32)).wrapping_add(m);
        tcp_metric_set(b, TCP_METRIC_RTTVAR, var);
    }
    assert(b.tcpm_vals@ =~= updated_vals(old(b).tcpm_vals@, old(b).tcpm_lock, srtt, mdev));
}

/// Fold a closing connection's RTT into the cache (at time `now`). Nothing
/// happens when saving metrics is off or there is no route. Without a
/// usable RTT, an existing block forgets its RTT; with one, the block
/// (created when missing) takes the connection's RTT and variance.
#[verifier::spinoff_prover]
pub fn tcp_update_metrics(table: &mut TcpMetricsTable, sk: &Sock, dst: Option<&DstEntry>, nometrics_save: bool, now: u64) -> (r: i32)
    ensures
        r == 0,
        nometrics_save || dst is None ==> final(table).blocks@ == old(table).blocks@,
        dst matches Some(d) ==> !nometrics_save ==> {
            let s = old(table).blocks@;
            let t = final(table).blocks@;
            let found = has_match(s, sk.sk_saddr, sk.sk_daddr, d.dev_net);
            let i = socket_block(s, *sk, *d);
            &&& found ==> {
                &&& t.len() == s.len()
                &&& forall|j: int| 0 <= j < s.len() && j != i ==> t[j] == s[j]
                &&& after_stamp(s[i], t[i], *d, now, if no_rtt(*sk) {
                    reset_vals(stamped_vals(s[i], *d, now), stamped_lock(s[i], *d, now))
                } else {
                    updated_vals(stamped_vals(s[i], *d, now), stamped_lock(s[i], *d, now), sk.tp.srtt_us, sk.tp.mdev_us)
                })
            }
            &&& !found && no_rtt(*sk) ==> t == s
            &&& !found && !no_rtt(*sk) ==> {
                &&& t.len() == s.len() + 1
                &&& t.subrange(0, s.len() as int) == s
                &&& fresh_block(t[s.len() as int], sk.sk_saddr, sk.sk_daddr, *d, now,
                    updated_vals(sucked_vals(*d).push(0), lock_bits(*d), sk.tp.srtt_us, sk.tp.mdev_us))
            }
        },
{
    if nometrics_save {
        return 0;
    }
    let d = match dst {
        None => {
            return 0;
        },
        Some(d) => d,
    };
    let ghost s = table.blocks@;
    if sk.icsk.icsk_backoff != 0 || sk.tp.srtt_us == 0 {
        let tm = tcp_get_metrics(table, sk, d, false, now);
        if let Some(i) = tm {
            proof {
                lemma_first_match_unique(s, i as int, socket_block(s, *sk, *d), sk.sk_saddr, sk.sk_daddr, d.dev_net);
            }
            let mut b = table.blocks[i];
            forget_rtt(&mut b);
            table.blocks.set(i, b);
        }
        return 0;
    }
    let tm = tcp_get_metrics(table, sk, d, true, now);
    let i = match tm {
        None => {
            return 0;
        },
        Some(i) => i,
    };
    proof {
        if has_match(s, sk.sk_saddr, sk.sk_daddr, d.dev_net) {
            lemma_first_match_unique(s, i as int, socket_block(s, *sk, *d), sk.sk_saddr, sk.sk_daddr, d.dev_net);
        }
    }
    let ghost t1 = table.blocks@;
    let mut b = table.blocks[i];
    fold_rtt(&mut b, sk.tp.srtt_us, sk.tp.mdev_us);
    table.blocks.set(i, b);
    proof {
        if !has_match(s, sk.sk_saddr, sk.sk_daddr, d.dev_net) {
            assert(i == s.len());
            assert(t1.subrange(0, s.len() as int) == s);
            assert forall|j: int| 0 <= j < s.len() implies table.blocks@[j] == t1.subrange(0, s.len() as int)[j] by {
                assert(t1.subrange(0, s.len() as int)[j] == t1[j]);
            }
            assert(table.blocks@.subrange(0, s.len() as int) =~= t1.subrange(0, s.len() as int));
            assert(t1[i as int].tcpm_lock == lock_bits(*d));
            assert(t1[i as int].tcpm_vals@ == sucked_vals(*d).push(0));
        } else {
            assert(t1[i as int].tcpm_lock == stamped_lock(s[i as int], *d, now));
            assert(t1[i as int].tcpm_vals@ == stamped_vals(s[i as int], *d, now));
        }
    }
    0
}

} // verus!
