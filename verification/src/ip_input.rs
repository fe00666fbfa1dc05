//! IPv4 input: telling fragments apart, handing packets with the router
//! alert option to the sockets that asked for them, and choosing the
//! transport protocol handler of a packet addressed to this host.
use vstd::prelude::*;

verus! {

pub const EINVAL: i32 = -22;
pub const ENOMEM: i32 = -12;
pub const ENOSYS: i32 = -38;
pub const ICMP_DEST_UNREACH: u8 = 3;
pub const ICMP_PROT_UNREACH: u8 = 2;
/// The fragment field bits that mark a fragment here: the offset, "more
/// fragments", and the don't-fragment bit.
pub const FRAG_BITS: u16 = 0x7FFF;

/// The IPv4 header fields input looks at.
pub struct iphdr {
    pub ihl: u8,
    pub tos: u8,
    pub tot_len: u16,
    pub id: u16,
    pub frag_off: u16,
    pub protocol: u8,
    pub saddr: u32,
    pub daddr: u32,
}

impl Default for iphdr {
    fn default() -> (h: iphdr)
        ensures
            h.ihl == 0 && h.tos == 0 && h.tot_len == 0 && h.id == 0 && h.frag_off == 0 && h.protocol == 0
                && h.saddr == 0 && h.daddr == 0,
    {
        iphdr { ihl: 0, tos: 0, tot_len: 0, id: 0, frag_off: 0, protocol: 0, saddr: 0, daddr: 0 }
    }
}

/// Whether a packet is treated as a fragment: any of the offset, "more
/// fragments" or don't-fragment bits set.
pub open spec fn is_fragment(frag_off: u16) -> bool {
    frag_off & 0x3FFF != 0 || frag_off & 0x4000 != 0
}

pub fn ip_is_fragment(iph: &iphdr) -> (r: bool)
    ensures
        r == is_fragment(iph.frag_off),
{
    iph.frag_off & 0x3FFF != 0 || iph.frag_off & 0x4000 != 0
}

/// The header length in bytes.
pub fn ip_network_header_len(iph: &iphdr) -> (r: usize)
    ensures
        r == iph.ihl * 4,
{
    (iph.ihl as usize) * 4
}

/// A socket that asked for packets with the router alert option: its
/// protocol number and the device it is bound to (0 for any).
pub struct ra_sock {
    pub inet_num: u8,
    pub bound_dev_if: u32,
}

/// An entry of the router alert chain (an entry may have lost its socket).
pub struct ip_ra_chain {
    pub sk: Option<ra_sock>,
}

/// Whether entry `e` wants a packet of `protocol` that came in on `ifindex`.
pub open spec fn ra_wants(e: ip_ra_chain, protocol: u8, ifindex: u32) -> bool {
    e.sk matches Some(s) && s.inet_num == protocol && (s.bound_dev_if == 0 || s.bound_dev_if == ifindex)
}

/// The positions, below `n`, of the entries that want the packet.
pub open spec fn ra_takers(chain: Seq<ip_ra_chain>, protocol: u8, ifindex: u32, n: int) -> Seq<usize>
    decreases n,
{
    if n <= 0 {
        Seq::empty()
    } else {
        let r = ra_takers(chain, protocol, ifindex, n - 1);
        if ra_wants(chain[n - 1], protocol, ifindex) { r.push((n - 1) as usize) } else { r }
    }
}

/// Where a packet with the router alert option goes.
pub struct ra_delivery {
    /// Whether the packet was taken (delivered, or queued for reassembly).
    pub taken: bool,
    /// The chain positions of the sockets that get it, in order.
    pub receivers: Vec<usize>,
}

/// Hand a packet of `protocol` arriving on `ifindex` to the router-alert
/// sockets that want it. A fragment is first reassembled; when reassembly
/// keeps it (`defrag_queued`) it is taken and goes nowhere yet. Otherwise
/// every socket that wants it gets it, and it is taken when there was one.
pub fn ip_call_ra_chain(chain: &Vec<ip_ra_chain>, protocol: u8, ifindex: u32, frag_off: u16, defrag_queued: bool) -> (r: ra_delivery)
    ensures
        ({
            let takers = ra_takers(chain@, protocol, ifindex, chain@.len() as int);
            if is_fragment(frag_off) && defrag_queued && takers.len() > 0 {
                r.taken && r.receivers@.len() == 0
            } else {
                r.taken == (takers.len() > 0) && r.receivers@ == takers
            }
        }),
{
    let fragment = iph_fragment(frag_off);
    let mut out: Vec<usize> = Vec::new();
    let mut i: usize = 0;
    while i < chain.len()
        invariant
            i <= chain.len(),
            fragment == is_fragment(frag_off),
            out@ == ra_takers(chain@, protocol, ifindex, i as int),
            fragment && defrag_queued ==> out@.len() == 0,
        decreases chain.len() - i,
    {
        let wants = match &chain[i].sk {
            Some(s) => s.inet_num == protocol && (s.bound_dev_if == 0 || s.bound_dev_if == ifindex),
            None => false,
        };
        if wants {
            if fragment && defrag_queued {
                proof {
                    lemma_takers_grow(chain@, protocol, ifindex, i as int + 1, chain@.len() as int);
                }
                return ra_delivery { taken: true, receivers: Vec::new() };
            }
            out.push(i);
        }
        i = i + 1;
    }
    let taken = out.len() > 0;
    ra_delivery { taken, receivers: out }
}

fn iph_fragment(frag_off: u16) -> (r: bool)
    ensures
        r == is_fragment(frag_off),
{
    frag_off & 0x3FFF != 0 || frag_off & 0x4000 != 0
}

proof fn lemma_takers_grow(chain: Seq<ip_ra_chain>, protocol: u8, ifindex: u32, m: int, n: int)
    requires
        0 <= m <= n,
    ensures
        ra_takers(chain, protocol, ifindex, m).len() <= ra_takers(chain, protocol, ifindex, n).len(),
    decreases n - m,
{
    if n > m {
        lemma_takers_grow(chain, protocol, ifindex, m, n - 1);
    }
}

/// A transport protocol handler: whether it does its own policy checks, and
/// which handler it is.
pub struct net_protocol {
    pub no_policy: bool,
    pub handler: u64,
}

/// The input counters: packets delivered, and packets for unknown
/// protocols.
pub struct ip_mib {
    pub in_delivers: u64,
    pub in_unknown_protos: u64,
}

/// What becomes of a packet addressed to this host, for one protocol.
#[derive(Debug, PartialEq, Eq, Structural)]
pub enum DeliverStep {
    /// Hand it to this handler; its result decides the rest (see
    /// `ip_protocol_deliver_done`).
    Handler { handler: u64 },
    /// Dropped: refused by IPsec policy, or for an unknown protocol that no
    /// raw socket took.
    Dropped { unreachable_sent: bool },
    /// Taken by raw sockets alone.
    Consumed,
}

/// Decide for a packet of `protocol` (with `raw` telling whether a raw
/// socket took a copy, and `policy_ok` what the IPsec policy says). A known
/// protocol goes to its handler, unless the policy (which handlers doing
/// their own checks skip) refuses it. An unknown protocol taken by raw
/// sockets counts as delivered; otherwise it counts as unknown and, when
/// the policy allows, a protocol-unreachable error goes back.
pub fn ip_protocol_deliver_rcu(protos: &Vec<Option<net_protocol>>, protocol: u8, raw: bool, policy_ok: bool, mib: &mut ip_mib) -> (r: DeliverStep)
    requires
        protos.len() == 256,
        old(mib).in_delivers < u64::MAX,
        old(mib).in_unknown_protos < u64::MAX,
    ensures
        match protos@[protocol as int] {
            Some(p) => if !p.no_policy && !policy_ok {
                r == DeliverStep::Dropped { unreachable_sent: false } && *final(mib) == *old(mib)
            } else {
                r == DeliverStep::Handler { handler: p.handler } && *final(mib) == *old(mib)
            },
            None => if raw {
                r == DeliverStep::Consumed && *final(mib) == (ip_mib { in_delivers: (old(mib).in_delivers + 1) as u64, ..*old(mib) })
            } else {
                &&& r == DeliverStep::Dropped { unreachable_sent: policy_ok }
                &&& *final(mib) == (if policy_ok {
                    ip_mib { in_unknown_protos: (old(mib).in_unknown_protos + 1) as u64, ..*old(mib) }
                } else {
                    *old(mib)
                })
            },
        },
{
    match &protos[protocol as usize] {
        Some(p) => {
            if !p.no_policy && !policy_ok {
                return DeliverStep::Dropped { unreachable_sent: false };
            }
            DeliverStep::Handler { handler: p.handler }
        },
        None => {
            if raw {
                mib.in_delivers = mib.in_delivers + 1;
                DeliverStep::Consumed
            } else {
                if policy_ok {
                    mib.in_unknown_protos = mib.in_unknown_protos + 1;
                }
                DeliverStep::Dropped { unreachable_sent: policy_ok }
            }
        },
    }
}

/// After a handler returned `ret`: a negative result asks to resubmit the
/// packet as protocol `-ret`; otherwise it counts as delivered.
pub fn ip_protocol_deliver_done(ret: i32, mib: &mut ip_mib) -> (r: Option<u8>)
    requires
        old(mib).in_delivers < u64::MAX,
        ret < 0 ==> -ret <= 255,
    ensures
        ret < 0 ==> r == Some((-ret) as u8) && *final(mib) == *old(mib),
        ret >= 0 ==> r is None && *final(mib) == (ip_mib { in_delivers: (old(mib).in_delivers + 1) as u64, ..*old(mib) }),
{
    if ret < 0 {
        Some((-ret) as u8)
    } else {
        mib.in_delivers = mib.in_delivers + 1;
        None
    }
}

/// What local delivery does first.
#[derive(Debug, PartialEq, Eq, Structural)]
pub enum LocalDeliver {
    /// A fragment kept for reassembly (0).
    Queued,
    /// The input hook refused the packet: its verdict.
    Refused(i32),
    /// Go on with the transport header at this offset, for this protocol.
    Deliver { offset: usize, protocol: u8 },
}

/// Deliver a packet to this host: a fragment that reassembly keeps is
/// queued; otherwise the input hook decides (`nf_verdict`, 1 to go on) and
/// the packet goes on past its IP header (see `ip_local_deliver_finish`).
pub fn ip_local_deliver(iph: &iphdr, defrag_queued: bool, nf_verdict: i32) -> (r: LocalDeliver)
    ensures
        is_fragment(iph.frag_off) && defrag_queued ==> r == LocalDeliver::Queued,
        !(is_fragment(iph.frag_off) && defrag_queued) ==> r == (if nf_verdict == 1 {
            LocalDeliver::Deliver { offset: (iph.ihl * 4) as usize, protocol: iph.protocol }
        } else {
            LocalDeliver::Refused(nf_verdict)
        }),
{
    if ip_is_fragment(iph) && defrag_queued {
        return LocalDeliver::Queued;
    }
    if nf_verdict != 1 {
        return LocalDeliver::Refused(nf_verdict);
    }
    ip_local_deliver_finish(iph)
}

/// Go past the IP header to the transport protocol.
pub fn ip_local_deliver_finish(iph: &iphdr) -> (r: LocalDeliver)
    ensures
        r == (LocalDeliver::Deliver { offset: (iph.ihl * 4) as usize, protocol: iph.protocol }),
{
    LocalDeliver::Deliver { offset: ip_network_header_len(iph), protocol: iph.protocol }
}

} // verus!
