//! Raw IPv4 sockets: the table they are hashed in by protocol number,
//! finding the sockets a packet is for, and their ICMP type filter.
use vstd::prelude::*;

verus! {

pub const EINVAL: i32 = -22;
pub const ENOMEM: i32 = -12;
pub const ENOSYS: i32 = -38;
pub const EHOSTUNREACH: i32 = -101;
pub const EMSGSIZE: i32 = -92;
pub const EPROTO: i32 = -75;
pub const RAW_HTABLE_SIZE: usize = 128;
pub const IPPROTO_ICMP: u8 = 1;
/// The length of an ICMP header.
pub const ICMPHDR_LEN: usize = 8;

/// A raw socket as the table sees it: its namespace, family, protocol
/// number, connected peer and bound local address (0 for any), bound
/// device (0 for none), ports, the ICMP types it filters out (bit `t` for
/// type `t`), and its queued receive and send memory.
pub struct raw_sock {
    pub net: u64,
    pub family: i32,
    pub inet_num: u16,
    pub inet_daddr: u32,
    pub inet_rcv_saddr: u32,
    pub bound_dev_if: i32,
    pub inet_sport: u16,
    pub inet_dport: u16,
    pub filter: u32,
    pub rmem: u32,
    pub wmem: u32,
}

/// The namespace a packet arrives in: its identity and whether sockets
/// bound to no device take packets that came in through an L3 master
/// device.
pub struct raw_net {
    pub id: u64,
    pub l3mdev_accept: bool,
}

/// The raw socket table: one chain per protocol number modulo the table
/// size, newest first, and how many sockets are hashed.
pub struct raw_hashinfo {
    pub ht: Vec<Vec<raw_sock>>,
    pub inuse: i64,
}

impl raw_hashinfo {
    pub open spec fn wf(&self) -> bool {
        self.ht.len() == RAW_HTABLE_SIZE
    }

    pub open spec fn chain(&self, b: int) -> Seq<raw_sock> {
        self.ht@[b]@
    }

    /// An empty table.
    pub fn new() -> (h: raw_hashinfo)
        ensures
            h.wf(),
            h.inuse == 0,
            forall|b: int| 0 <= b < RAW_HTABLE_SIZE ==> (#[trigger] h.chain(b)).len() == 0,
    {
        let mut ht: Vec<Vec<raw_sock>> = Vec::new();
        while ht.len() < RAW_HTABLE_SIZE
            invariant
                ht.len() <= RAW_HTABLE_SIZE,
                forall|b: int| 0 <= b < ht.len() ==> (#[trigger] ht@[b])@.len() == 0,
            decreases RAW_HTABLE_SIZE - ht.len(),
        {
            ht.push(Vec::new());
        }
        raw_hashinfo { ht, inuse: 0 }
    }
}

/// The chain a socket with protocol number `num` is hashed on.
pub open spec fn raw_bucket(num: u16) -> int {
    (num % 128) as int
}

/// Hash socket `sk` on the chain of its protocol number, at its head, and
/// count it.
pub fn raw_hash_sk(h: &mut raw_hashinfo, sk: raw_sock) -> (r: i32)
    requires
        old(h).wf(),
        old(h).inuse < i64::MAX,
    ensures
        r == 0,
        final(h).wf(),
        final(h).inuse == old(h).inuse + 1,
        final(h).chain(raw_bucket(sk.inet_num)) == seq![sk] + old(h).chain(raw_bucket(sk.inet_num)),
        forall|b: int| 0 <= b < RAW_HTABLE_SIZE && b != raw_bucket(sk.inet_num) ==> #[trigger] final(h).ht@[b] == old(h).ht@[b],
{
    let b: usize = (sk.inet_num % 128) as usize;
    let mut head = h.ht.remove(b);
    head.insert(0, sk);
    h.ht.insert(b, head);
    h.inuse = h.inuse + 1;
    proof {
        assert(h.chain(b as int) =~= seq![sk] + old(h).chain(b as int));
        assert forall|bb: int| 0 <= bb < RAW_HTABLE_SIZE && bb != b implies #[trigger] h.ht@[bb] == old(h).ht@[bb] by {
            if bb < b {
            } else {
            }
        }
    }
    0
}

/// Unhash the socket at position `index` of chain `bucket`, if there is
/// one there, and count it out; returns it.
pub fn raw_unhash_sk(h: &mut raw_hashinfo, bucket: usize, index: usize) -> (r: Option<raw_sock>)
    requires
        old(h).wf(),
        old(h).inuse > i64::MIN,
    ensures
        final(h).wf(),
        (bucket < RAW_HTABLE_SIZE && index < old(h).chain(bucket as int).len()) ==> {
            &&& r == Some(old(h).chain(bucket as int)[index as int])
            &&& final(h).chain(bucket as int) == old(h).chain(bucket as int).remove(index as int)
            &&& final(h).inuse == old(h).inuse - 1
            &&& forall|b: int| 0 <= b < RAW_HTABLE_SIZE && b != bucket ==> #[trigger] final(h).ht@[b] == old(h).ht@[b]
        },
        !(bucket < RAW_HTABLE_SIZE && index < old(h).chain(bucket as int).len()) ==> r is None && *final(h) == *old(h),
{
    if bucket >= RAW_HTABLE_SIZE || index >= h.ht[bucket].len() {
        return None;
    }
    let mut head = h.ht.remove(bucket);
    let sk = head.remove(index);
    h.ht.insert(bucket, head);
    h.inuse = h.inuse - 1;
    proof {
        assert forall|bb: int| 0 <= bb < RAW_HTABLE_SIZE && bb != bucket implies #[trigger] h.ht@[bb] == old(h).ht@[bb] by {
            if bb < bucket {
            } else {
            }
        }
    }
    Some(sk)
}

/// Whether a socket bound to device `bound_dev_if` takes a packet that came
/// in on `dif` (through the L3 master `sdif`, 0 for none).
pub open spec fn bound_dev_eq(l3mdev_accept: bool, bound_dev_if: i32, dif: i32, sdif: i32) -> bool {
    if bound_dev_if == 0 {
        sdif == 0 || l3mdev_accept
    } else {
        bound_dev_if == dif || bound_dev_if == sdif
    }
}

pub fn raw_sk_bound_dev_eq(net: &raw_net, bound_dev_if: i32, dif: i32, sdif: i32) -> (r: bool)
    ensures
        r == bound_dev_eq(net.l3mdev_accept, bound_dev_if, dif, sdif),
{
    if bound_dev_if == 0 {
        sdif == 0 || net.l3mdev_accept
    } else {
        bound_dev_if == dif || bound_dev_if == sdif
    }
}

/// Whether raw socket `sk` takes a packet of protocol `num` from `raddr` to
/// `laddr` that came in on `dif`/`sdif` in namespace `net`.
pub open spec fn raw_match(sk: raw_sock, net: raw_net, num: u16, raddr: u32, laddr: u32, dif: i32, sdif: i32) -> bool {
    &&& sk.net == net.id
    &&& sk.inet_num == num
    &&& !(sk.inet_daddr != 0 && sk.inet_daddr != raddr)
    &&& !(sk.inet_rcv_saddr != 0 && sk.inet_rcv_saddr != laddr)
    &&& bound_dev_eq(net.l3mdev_accept, sk.bound_dev_if, dif, sdif)
}

/// The first position from `i` on in `chain` of a socket that takes the
/// packet.
pub open spec fn first_match(chain: Seq<raw_sock>, i: int, net: raw_net, num: u16, raddr: u32, laddr: u32, dif: i32, sdif: i32) -> Option<int>
    decreases chain.len() - i,
{
    if i < 0 || i >= chain.len() {
        None
    } else if raw_match(chain[i], net, num, raddr, laddr, dif, sdif) {
        Some(i)
    } else {
        first_match(chain, i + 1, net, num, raddr, laddr, dif, sdif)
    }
}

pub proof fn lemma_first_match_bounds(chain: Seq<raw_sock>, i: int, net: raw_net, num: u16, raddr: u32, laddr: u32, dif: i32, sdif: i32)
    requires
        0 <= i,
    ensures
        first_match(chain, i, net, num, raddr, laddr, dif, sdif) matches Some(j) ==> i <= j < chain.len()
            && raw_match(chain[j], net, num, raddr, laddr, dif, sdif)
            && forall|k: int| i <= k < j ==> !raw_match(#[trigger] chain[k], net, num, raddr, laddr, dif, sdif),
        first_match(chain, i, net, num, raddr, laddr, dif, sdif) is None
            ==> forall|k: int| i <= k < chain.len() ==> !raw_match(#[trigger] chain[k], net, num, raddr, laddr, dif, sdif),
    decreases chain.len() - i,
{
    if 0 <= i < chain.len() {
        lemma_first_match_bounds(chain, i + 1, net, num, raddr, laddr, dif, sdif);
    }
}

/// The first socket from position `from` of `chain` on that takes a packet
/// of protocol `num` from `raddr` to `laddr` (see `raw_match`).
pub fn __raw_v4_lookup(net: &raw_net, chain: &Vec<raw_sock>, from: usize, num: u16, raddr: u32, laddr: u32, dif: i32, sdif: i32) -> (r: Option<usize>)
    ensures
        r == (match first_match(chain@, from as int, *net, num, raddr, laddr, dif, sdif) {
            Some(j) => Some(j as usize),
            None => None::<usize>,
        }),
{
    let mut i = from;
    while i < chain.len()
        invariant
            from <= i,
            first_match(chain@, from as int, *net, num, raddr, laddr, dif, sdif)
                == first_match(chain@, i as int, *net, num, raddr, laddr, dif, sdif),
        decreases chain.len() - i,
    {
        let sk = &chain[i];
        if sk.net == net.id && sk.inet_num == num && !(sk.inet_daddr != 0 && sk.inet_daddr != raddr)
            && !(sk.inet_rcv_saddr != 0 && sk.inet_rcv_saddr != laddr)
            && raw_sk_bound_dev_eq(net, sk.bound_dev_if, dif, sdif) {
            return Some(i);
        }
        i = i + 1;
    }
    None
}

/// Whether the socket filters out an ICMP message whose header starts
/// `transport`: too short a header is filtered out; types below 32 are
/// filtered out when their bit is set in the socket's filter.
pub open spec fn filters_out(sk: raw_sock, transport: Seq<u8>) -> bool {
    transport.len() < ICMPHDR_LEN || (transport[0] < 32 && (sk.filter >> transport[0]) & 1 != 0)
}

pub fn icmp_filter(sk: &raw_sock, transport: &Vec<u8>) -> (r: i32)
    ensures
        r == (if filters_out(*sk, transport@) { 1i32 } else { 0i32 }),
{
    if transport.len() < ICMPHDR_LEN {
        return 1;
    }
    let t = transport[0];
    if t < 32 {
        if (sk.filter >> t) & 1 != 0 { 1 } else { 0 }
    } else {
        0
    }
}

/// Whether a socket that takes a packet of protocol `protocol` gets a copy:
/// an ICMP message must pass its filter.
pub open spec fn takes_copy(sk: raw_sock, protocol: u8, transport: Seq<u8>) -> bool {
    protocol != IPPROTO_ICMP || !filters_out(sk, transport)
}

fn gets_copy(sk: &raw_sock, protocol: u8, transport: &Vec<u8>) -> (r: bool)
    ensures
        r == takes_copy(*sk, protocol, transport@),
{
    protocol != IPPROTO_ICMP || icmp_filter(sk, transport) == 0
}

/// The positions in `chain`, below `n`, of the sockets that take a packet
/// of protocol `protocol` and, for ICMP, do not filter it out.
pub open spec fn receivers(chain: Seq<raw_sock>, n: int, net: raw_net, protocol: u8, saddr: u32, daddr: u32, dif: i32, sdif: i32, transport: Seq<u8>) -> Seq<usize>
    decreases n,
{
    if n <= 0 {
        Seq::empty()
    } else {
        let rest = receivers(chain, n - 1, net, protocol, saddr, daddr, dif, sdif, transport);
        let sk = chain[n - 1];
        if raw_match(sk, net, protocol as u16, saddr, daddr, dif, sdif) && takes_copy(sk, protocol, transport) {
            rest.push((n - 1) as usize)
        } else {
            rest
        }
    }
}

/// Whether any socket below `n` in `chain` takes the packet.
pub open spec fn any_match(chain: Seq<raw_sock>, n: int, net: raw_net, num: u16, raddr: u32, laddr: u32, dif: i32, sdif: i32) -> bool {
    exists|j: int| 0 <= j < n && raw_match(#[trigger] chain[j], net, num, raddr, laddr, dif, sdif)
}

/// Deliver a packet of protocol `protocol` from `saddr` to `daddr` (its
/// transport header starts `transport`), that came in on `dif`/`sdif`, to
/// the raw sockets on chain `hash`. Returns 1 when some socket takes the
/// packet, else 0, and the positions of the sockets that get a copy: those
/// that take it and, for ICMP, do not filter it out. (Each of them still
/// applies its multicast source filter to a copy it gets.)
pub fn raw_v4_input(h: &raw_hashinfo, net: &raw_net, protocol: u8, saddr: u32, daddr: u32, transport: &Vec<u8>, hash: usize, dif: i32, sdif: i32) -> (r: (i32, Vec<usize>))
    requires
        h.wf(),
        hash < RAW_HTABLE_SIZE,
    ensures
        ({
            let chain = h.chain(hash as int);
            &&& r.0 == (if any_match(chain, chain.len() as int, *net, protocol as u16, saddr, daddr, dif, sdif) { 1i32 } else { 0i32 })
            &&& r.1@ == receivers(chain, chain.len() as int, *net, protocol, saddr, daddr, dif, sdif, transport@)
        }),
{
    let chain = &h.ht[hash];
    let mut delivered: i32 = 0;
    let mut out: Vec<usize> = Vec::new();
    let mut i: usize = 0;
    while i < chain.len()
        invariant
            chain@ == h.chain(hash as int),
            i <= chain.len(),
            delivered == (if any_match(chain@, i as int, *net, protocol as u16, saddr, daddr, dif, sdif) { 1i32 } else { 0i32 }),
            out@ == receivers(chain@, i as int, *net, protocol, saddr, daddr, dif, sdif, transport@),
        decreases chain.len() - i,
    {
        let found = __raw_v4_lookup(net, chain, i, protocol as u16, saddr, daddr, dif, sdif);
        proof {
            lemma_first_match_bounds(chain@, i as int, *net, protocol as u16, saddr, daddr, dif, sdif);
        }
        let next = match found {
            Some(j) => j,
            None => chain.len(),
        };
        proof {
            lemma_skip_non_matching(chain@, i as int, next as int, *net, protocol, saddr, daddr, dif, sdif, transport@);
        }
        if next < chain.len() {
            delivered = 1;
            let sk = &chain[next];
            if gets_copy(sk, protocol, transport) {
                out.push(next);
            }
            i = next + 1;
        } else {
            i = next;
        }
    }
    (delivered, out)
}

/// Sockets from `i` up to `j` that do not take the packet add no receiver
/// and no match.
proof fn lemma_skip_non_matching(chain: Seq<raw_sock>, i: int, j: int, net: raw_net, protocol: u8, saddr: u32, daddr: u32, dif: i32, sdif: i32, transport: Seq<u8>)
    requires
        0 <= i <= j <= chain.len(),
        forall|k: int| i <= k < j ==> !raw_match(#[trigger] chain[k], net, protocol as u16, saddr, daddr, dif, sdif),
    ensures
        receivers(chain, j, net, protocol, saddr, daddr, dif, sdif, transport)
            == receivers(chain, i, net, protocol, saddr, daddr, dif, sdif, transport),
        any_match(chain, j, net, protocol as u16, saddr, daddr, dif, sdif)
            == any_match(chain, i, net, protocol as u16, saddr, daddr, dif, sdif),
    decreases j - i,
{
    if j > i {
        lemma_skip_non_matching(chain, i, j - 1, net, protocol, saddr, daddr, dif, sdif, transport);
        assert(!raw_match(chain[j - 1], net, protocol as u16, saddr, daddr, dif, sdif));
        if any_match(chain, j, net, protocol as u16, saddr, daddr, dif, sdif) {
            let w = choose|w: int| 0 <= w < j && raw_match(#[trigger] chain[w], net, protocol as u16, saddr, daddr, dif, sdif);
            assert(w != j - 1);
        }
    }
}

} // verus!
