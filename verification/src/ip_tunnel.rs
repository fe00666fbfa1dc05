//! The table of IP tunnels of a namespace: hashing a tunnel by key and
//! remote end, adding and removing tunnels, and finding the tunnel that a
//! packet belongs to.
use vstd::prelude::*;
use crate::ipip::ip_tunnel_parm;
use crate::datagram::{ipv4_is_multicast, is_multicast};

verus! {

pub const EINVAL: i32 = -22;
pub const ENOMEM: i32 = -12;
pub const ENOSYS: i32 = -38;
pub const E2BIG: i32 = -75;
pub const IP_TNL_HASH_BITS: u32 = 8;
pub const IP_TNL_HASH_SIZE: usize = 256;
pub const TUNNEL_KEY: u16 = 0x0001;
/// Marks a VTI tunnel (the same bit as `TUNNEL_KEY` in this flag layout).
pub const VTI_ISVTI: u16 = 0x0001;
pub const IFF_UP: u16 = 0x0001;
pub const IPV4_MIN_MTU: i32 = 68;
pub const IP_MAX_MTU: i32 = 65535;
pub const ETH_HLEN: i32 = 14;
pub const ETH_DATA_LEN: i32 = 1500;
pub const LL_MAX_HEADER: i32 = 1500;

/// The device of a tunnel, by its flags.
pub struct net_device {
    pub flags: u16,
}

/// A tunnel: its device (if it has one), parameters, header length, receive
/// sequence number, whether it takes its endpoints from packet metadata, and
/// the ICMP errors seen recently with the time of the last one.
pub struct ip_tunnel {
    pub dev: Option<net_device>,
    pub params: ip_tunnel_parm,
    pub hlen: i32,
    pub i_seqno: u32,
    pub collect_md: bool,
    pub err_count: i32,
    pub err_time: u64,
}

/// The tunnels of a namespace: hash buckets (most recently added first), the
/// metadata tunnel, and the fallback device's tunnel.
pub struct ip_tunnel_net {
    pub tunnels: Vec<Vec<ip_tunnel>>,
    pub collect_md_tun: Option<ip_tunnel>,
    pub fb_tunnel_dev: Option<ip_tunnel>,
}

/// Where a found tunnel sits.
pub enum tunnel_ref {
    /// Entry `index` of hash bucket `bucket`.
    Hashed { bucket: usize, index: usize },
    /// The metadata tunnel.
    CollectMd,
    /// The fallback device's tunnel.
    Fallback,
}

impl ip_tunnel_net {
    /// The table has its number of buckets.
    pub open spec fn wf(&self) -> bool {
        self.tunnels.len() == IP_TNL_HASH_SIZE
    }

    /// The tunnels of bucket `b`.
    pub open spec fn bucket(&self, b: int) -> Seq<ip_tunnel> {
        self.tunnels@[b]@
    }
}

/// The top `bits` bits of `val`.
pub open spec fn spec_hash_32(val: u32, bits: u32) -> u32 {
    (val >> (32 - bits) as u32) & (((1u32 << bits) - 1) as u32)
}

pub fn hash_32(val: u32, bits: u32) -> (r: u32)
    requires
        1 <= bits <= 31,
    ensures
        r == spec_hash_32(val, bits),
{
    assert((1u32 << bits) >= 1) by (bit_vector)
        requires
            1 <= bits <= 31;
    (val >> (32 - bits)) & ((1u32 << bits) - 1)
}

/// The bucket of a tunnel with key `key` and remote end `remote`.
pub open spec fn tunnel_hash(key: u32, remote: u32) -> u32 {
    spec_hash_32(key ^ remote, IP_TNL_HASH_BITS)
}

proof fn lemma_hash8_bound(x: u32)
    by (bit_vector)
    ensures
        spec_hash_32(x, 8) < 256,
{
}

pub fn ip_tunnel_hash(key: u32, remote: u32) -> (r: u32)
    ensures
        r == tunnel_hash(key, remote),
        r < 256,
{
    let r = hash_32(key ^ remote, IP_TNL_HASH_BITS);
    proof {
        lemma_hash8_bound(key ^ remote);
    }
    r
}

/// Whether a tunnel with parameters `p` accepts packets with GRE flags
/// `flags` and key `key`: a keyed tunnel wants that key, an unkeyed one
/// wants no key.
pub open spec fn key_matches(p: ip_tunnel_parm, flags: u16, key: u32) -> bool {
    if p.i_flags & TUNNEL_KEY != 0 {
        flags & TUNNEL_KEY != 0 && p.i_key == key
    } else {
        flags & TUNNEL_KEY == 0
    }
}

pub fn ip_tunnel_key_match(p: &ip_tunnel_parm, flags: u16, key: u32) -> (r: bool)
    ensures
        r == key_matches(*p, flags, key),
{
    if p.i_flags & TUNNEL_KEY != 0 {
        if flags & TUNNEL_KEY != 0 {
            p.i_key == key
        } else {
            false
        }
    } else {
        flags & TUNNEL_KEY == 0
    }
}

/// Whether the tunnel has a device and the device is up.
pub open spec fn dev_up(t: ip_tunnel) -> bool {
    t.dev matches Some(d) && d.flags & IFF_UP != 0
}

fn is_dev_up(t: &ip_tunnel) -> (r: bool)
    ensures
        r == dev_up(*t),
{
    match &t.dev {
        Some(d) => d.flags & IFF_UP != 0,
        None => false,
    }
}

/// A tunnel that fits a packet from `remote` to `local` with GRE flags
/// `flags` and key `key`, whatever its link.
pub open spec fn fits(t: ip_tunnel, flags: u16, remote: u32, local: u32, key: u32) -> bool {
    &&& local == t.params.iph.saddr.s_addr
    &&& remote == t.params.iph.daddr.s_addr
    &&& dev_up(t)
    &&& key_matches(t.params, flags, key)
}

/// The first position from `i` on of a tunnel that fits and is on `link`.
pub open spec fn first_exact(l: Seq<ip_tunnel>, i: int, link: i32, flags: u16, remote: u32, local: u32, key: u32) -> Option<int>
    decreases l.len() - i,
{
    if i < 0 || i >= l.len() {
        None
    } else if fits(l[i], flags, remote, local, key) && l[i].params.link == link {
        Some(i)
    } else {
        first_exact(l, i + 1, link, flags, remote, local, key)
    }
}

/// The last position before `n` of a tunnel that fits.
pub open spec fn last_fit(l: Seq<ip_tunnel>, n: int, flags: u16, remote: u32, local: u32, key: u32) -> Option<int>
    decreases n,
{
    if n <= 0 {
        None
    } else if fits(l[n - 1], flags, remote, local, key) {
        Some(n - 1)
    } else {
        last_fit(l, n - 1, flags, remote, local, key)
    }
}

/// The tunnel that a packet belongs to: in the bucket of `(key, remote)`,
/// the first fitting tunnel on `link`, else the last fitting one on another
/// link; else the metadata tunnel, else the fallback tunnel, when their
/// devices are up.
pub open spec fn lookup_result(itn: ip_tunnel_net, link: i32, flags: u16, remote: u32, local: u32, key: u32) -> Option<tunnel_ref> {
    let h = tunnel_hash(key, remote);
    let l = itn.bucket(h as int);
    match first_exact(l, 0, link, flags, remote, local, key) {
        Some(j) => Some(tunnel_ref::Hashed { bucket: h as usize, index: j as usize }),
        None => match last_fit(l, l.len() as int, flags, remote, local, key) {
            Some(j) => Some(tunnel_ref::Hashed { bucket: h as usize, index: j as usize }),
            None => if itn.collect_md_tun matches Some(t) && dev_up(t) {
                Some(tunnel_ref::CollectMd)
            } else if itn.fb_tunnel_dev matches Some(t) && dev_up(t) {
                Some(tunnel_ref::Fallback)
            } else {
                None
            },
        },
    }
}

/// The tunnel that `r` names in `itn`.
pub open spec fn tunnel_at(itn: ip_tunnel_net, r: tunnel_ref) -> ip_tunnel {
    match r {
        tunnel_ref::Hashed { bucket, index } => itn.bucket(bucket as int)[index as int],
        tunnel_ref::CollectMd => itn.collect_md_tun->0,
        tunnel_ref::Fallback => itn.fb_tunnel_dev->0,
    }
}

/// Whether `r` names a tunnel of `itn`.
pub open spec fn ref_valid(itn: ip_tunnel_net, r: tunnel_ref) -> bool {
    match r {
        tunnel_ref::Hashed { bucket, index } => bucket < itn.tunnels.len() && index < itn.bucket(bucket as int).len(),
        tunnel_ref::CollectMd => itn.collect_md_tun is Some,
        tunnel_ref::Fallback => itn.fb_tunnel_dev is Some,
    }
}

pub proof fn lemma_first_exact_bounds(l: Seq<ip_tunnel>, i: int, link: i32, flags: u16, remote: u32, local: u32, key: u32)
    ensures
        first_exact(l, i, link, flags, remote, local, key) matches Some(j) ==> i <= j < l.len(),
    decreases l.len() - i,
{
    if 0 <= i < l.len() {
        lemma_first_exact_bounds(l, i + 1, link, flags, remote, local, key);
    }
}

pub proof fn lemma_last_fit_bounds(l: Seq<ip_tunnel>, n: int, flags: u16, remote: u32, local: u32, key: u32)
    requires
        n <= l.len(),
    ensures
        last_fit(l, n, flags, remote, local, key) matches Some(j) ==> 0 <= j < n,
    decreases n,
{
    if n > 0 {
        lemma_last_fit_bounds(l, n - 1, flags, remote, local, key);
    }
}

/// What a lookup finds is a tunnel of the table.
pub proof fn lemma_lookup_valid(itn: ip_tunnel_net, link: i32, flags: u16, remote: u32, local: u32, key: u32)
    requires
        itn.wf(),
    ensures
        lookup_result(itn, link, flags, remote, local, key) matches Some(r) ==> ref_valid(itn, r),
{
    let h = tunnel_hash(key, remote);
    lemma_hash8_bound(key ^ remote);
    let l = itn.bucket(h as int);
    lemma_first_exact_bounds(l, 0, link, flags, remote, local, key);
    lemma_last_fit_bounds(l, l.len() as int, flags, remote, local, key);
}

/// Every tunnel of the table can count one more ICMP error.
pub open spec fn errs_bounded(itn: ip_tunnel_net) -> bool {
    &&& forall|b: int, i: int| 0 <= b < itn.tunnels.len() && 0 <= i < itn.bucket(b).len()
        ==> #[trigger] itn.bucket(b)[i].err_count < i32::MAX
    &&& itn.collect_md_tun matches Some(t) ==> t.err_count < i32::MAX
    &&& itn.fb_tunnel_dev matches Some(t) ==> t.err_count < i32::MAX
}

/// Find the tunnel that a packet from `remote` to `local` on `link`, with
/// GRE flags `flags` and key `key`, belongs to (see `lookup_result`).
pub fn ip_tunnel_lookup(itn: &ip_tunnel_net, link: i32, flags: u16, remote: u32, local: u32, key: u32) -> (r: Option<tunnel_ref>)
    requires
        itn.wf(),
    ensures
        r == lookup_result(*itn, link, flags, remote, local, key),
        r matches Some(rr) ==> ref_valid(*itn, rr),
{
    let h = ip_tunnel_hash(key, remote);
    let head = &itn.tunnels[h as usize];
    let ghost l = head@;
    let mut cand: Option<usize> = None;
    let mut j: usize = 0;
    while j < head.len()
        invariant
            l == head@,
            itn.wf(),
            h == tunnel_hash(key, remote),
            h < 256,
            l == itn.bucket(h as int),
            j <= l.len(),
            first_exact(l, 0, link, flags, remote, local, key) == first_exact(l, j as int, link, flags, remote, local, key),
            cand matches Some(c) ==> last_fit(l, j as int, flags, remote, local, key) == Some(c as int),
            cand is None ==> last_fit(l, j as int, flags, remote, local, key) is None,
        decreases l.len() - j,
    {
        let t = &head[j];
        let ok = t.params.iph.saddr.s_addr == local && t.params.iph.daddr.s_addr == remote && is_dev_up(t)
            && ip_tunnel_key_match(&t.params, flags, key);
        if ok {
            if t.params.link == link {
                return Some(tunnel_ref::Hashed { bucket: h as usize, index: j });
            }
            cand = Some(j);
        }
        j = j + 1;
    }
    proof {
        assert(first_exact(l, j as int, link, flags, remote, local, key) is None);
        lemma_last_fit_bounds(l, l.len() as int, flags, remote, local, key);
    }
    if let Some(c) = cand {
        return Some(tunnel_ref::Hashed { bucket: h as usize, index: c });
    }
    if let Some(t) = &itn.collect_md_tun {
        if is_dev_up(t) {
            return Some(tunnel_ref::CollectMd);
        }
    }
    if let Some(t) = &itn.fb_tunnel_dev {
        if is_dev_up(t) {
            return Some(tunnel_ref::Fallback);
        }
    }
    None
}

/// The same lookup, under the name other modules call it by.
pub fn ip_tunnel_lookup_exported(itn: &ip_tunnel_net, link: i32, flags: u16, remote: u32, local: u32, key: u32) -> (r: Option<tunnel_ref>)
    requires
        itn.wf(),
    ensures
        r == lookup_result(*itn, link, flags, remote, local, key),
{
    ip_tunnel_lookup(itn, link, flags, remote, local, key)
}

/// The bucket a tunnel with parameters `p` is filed under: hashed by its key
/// (none for a VTI tunnel without `TUNNEL_KEY`) and its remote end (none
/// when that is unset or multicast).
pub open spec fn bucket_of(p: ip_tunnel_parm) -> u32 {
    let remote: u32 = if p.iph.daddr.s_addr != 0 && !is_multicast(p.iph.daddr.s_addr) { p.iph.daddr.s_addr } else { 0 };
    let i_key: u32 = if p.i_flags & TUNNEL_KEY == 0 && p.i_flags & VTI_ISVTI != 0 { 0 } else { p.i_key };
    tunnel_hash(i_key, remote)
}

pub fn ip_bucket(itn: &ip_tunnel_net, parms: &ip_tunnel_parm) -> (r: usize)
    requires
        itn.wf(),
    ensures
        r == bucket_of(*parms),
        r < IP_TNL_HASH_SIZE,
{
    let mut remote: u32 = 0;
    let mut i_key: u32 = parms.i_key;
    if parms.iph.daddr.s_addr != 0 && !ipv4_is_multicast(parms.iph.daddr.s_addr) {
        remote = parms.iph.daddr.s_addr;
    }
    if parms.i_flags & TUNNEL_KEY == 0 && parms.i_flags & VTI_ISVTI != 0 {
        i_key = 0;
    }
    let h = ip_tunnel_hash(i_key, remote);
    h as usize
}

/// Put `node` at the head of the list `head`.
pub fn hlist_add_head_rcu<T>(node: T, head: &mut Vec<T>)
    ensures
        final(head)@ == seq![node] + old(head)@,
{
    head.insert(0, node);
    assert(head@ =~= seq![node] + old(head)@);
}

/// Take entry `i` out of the list `head`.
pub fn hlist_del_init_rcu<T>(head: &mut Vec<T>, i: usize) -> (r: T)
    requires
        i < old(head).len(),
    ensures
        r == old(head)@[i as int],
        final(head)@ == old(head)@.remove(i as int),
{
    head.remove(i)
}

/// File tunnel `t` at the head of its bucket (see `bucket_of`).
pub fn ip_tunnel_add(itn: &mut ip_tunnel_net, t: ip_tunnel)
    requires
        old(itn).wf(),
    ensures
        final(itn).wf(),
        final(itn).bucket(bucket_of(t.params) as int) == seq![t] + old(itn).bucket(bucket_of(t.params) as int),
        forall|b: int| 0 <= b < IP_TNL_HASH_SIZE && b != bucket_of(t.params) ==> #[trigger] final(itn).tunnels@[b] == old(itn).tunnels@[b],
        final(itn).collect_md_tun == old(itn).collect_md_tun,
        final(itn).fb_tunnel_dev == old(itn).fb_tunnel_dev,
{
    let h = ip_bucket(itn, &t.params);
    let mut head = itn.tunnels.remove(h);
    hlist_add_head_rcu(t, &mut head);
    itn.tunnels.insert(h, head);
    proof {
        assert forall|b: int| 0 <= b < IP_TNL_HASH_SIZE && b != h implies #[trigger] itn.tunnels@[b] == old(itn).tunnels@[b] by {
            if b < h {
            } else {
            }
        }
    }
}

/// Take entry `index` of bucket `bucket` out of the table; when it is a
/// metadata tunnel, the table has no metadata tunnel afterwards.
pub fn ip_tunnel_del(itn: &mut ip_tunnel_net, bucket: usize, index: usize) -> (t: ip_tunnel)
    requires
        old(itn).wf(),
        bucket < IP_TNL_HASH_SIZE,
        index < old(itn).bucket(bucket as int).len(),
    ensures
        final(itn).wf(),
        t == old(itn).bucket(bucket as int)[index as int],
        final(itn).bucket(bucket as int) == old(itn).bucket(bucket as int).remove(index as int),
        forall|b: int| 0 <= b < IP_TNL_HASH_SIZE && b != bucket ==> #[trigger] final(itn).tunnels@[b] == old(itn).tunnels@[b],
        final(itn).collect_md_tun == (if t.collect_md { None } else { old(itn).collect_md_tun }),
        final(itn).fb_tunnel_dev == old(itn).fb_tunnel_dev,
{
    let mut head = itn.tunnels.remove(bucket);
    let t = hlist_del_init_rcu(&mut head, index);
    itn.tunnels.insert(bucket, head);
    if t.collect_md {
        itn.collect_md_tun = None;
    }
    proof {
        assert forall|b: int| 0 <= b < IP_TNL_HASH_SIZE && b != bucket implies #[trigger] itn.tunnels@[b] == old(itn).tunnels@[b] by {
            if b < bucket {
            } else {
            }
        }
    }
    t
}

/// A tunnel just added, with its device up and a unicast remote end, is
/// what a lookup with its own addresses, link, flags and key finds: the
/// head of its bucket.
pub proof fn added_tunnel_is_found(before: ip_tunnel_net, after: ip_tunnel_net, t: ip_tunnel)
    requires
        before.wf(),
        after.wf(),
        after.bucket(bucket_of(t.params) as int) == seq![t] + before.bucket(bucket_of(t.params) as int),
        dev_up(t),
        t.params.iph.daddr.s_addr != 0,
        !is_multicast(t.params.iph.daddr.s_addr),
    ensures
        lookup_result(after, t.params.link, t.params.i_flags, t.params.iph.daddr.s_addr, t.params.iph.saddr.s_addr,
            t.params.i_key) == Some(tunnel_ref::Hashed { bucket: bucket_of(t.params) as usize, index: 0 }),
{
    let p = t.params;
    let f = p.i_flags;
    assert(!(f & 1 == 0 && f & 1 != 0)) by (bit_vector);
    assert(bucket_of(p) == tunnel_hash(p.i_key, p.iph.daddr.s_addr));
    let l = after.bucket(bucket_of(p) as int);
    assert(l[0] == t);
    assert(key_matches(p, p.i_flags, p.i_key));
    assert(fits(l[0], p.i_flags, p.iph.daddr.s_addr, p.iph.saddr.s_addr, p.i_key));
    let h = bucket_of(p);
    lemma_hash8_bound(p.i_key ^ p.iph.daddr.s_addr);
    assert(h as usize as int == h as int);
}

} // verus!
