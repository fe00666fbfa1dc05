//! IP-level socket glue: the ancillary data delivered with a received
//! datagram, checking the ancillary data given on send, and router-alert
//! registration.
use vstd::prelude::*;

verus! {

pub const EINVAL: i32 = -22;
pub const ENOMEM: i32 = -12;
pub const ENOSYS: i32 = -38;
pub const SOL_IP: i32 = 0;
pub const SOL_SOCKET: i32 = 1;
pub const IP_PKTINFO: i32 = 1;
pub const IP_TTL: i32 = 2;
pub const IP_TOS: i32 = 3;
pub const IP_RECVOPTS: i32 = 4;
pub const IP_RETOPTS: i32 = 5;
pub const IP_PASSSEC: i32 = 6;
pub const IP_ORIGDSTADDR: i32 = 7;
pub const IP_CHECKSUM: i32 = 8;
pub const IP_RECVFRAGSIZE: i32 = 9;
pub const SCM_SECURITY: i32 = 3;
pub const AF_INET: u16 = 2;
/// Size of a control-message header.
pub const CMSG_HDR_LEN: usize = 16;

pub struct in_addr {
    pub s_addr: u32,
}

pub struct in_pktinfo {
    pub ipi_addr: in_addr,
    pub ipi_spec_dst: in_addr,
    pub ipi_ifindex: i32,
}

pub struct iphdr {
    pub daddr: u32,
}

/// One control message: level, type and payload.
pub struct cmsghdr {
    pub cmsg_level: i32,
    pub cmsg_type: i32,
    pub data: Vec<u8>,
}

/// A control message as values.
pub open spec fn cmsg_view(c: cmsghdr) -> (i32, i32, Seq<u8>) {
    (c.cmsg_level, c.cmsg_type, c.data@)
}

/// A list of control messages as values.
pub open spec fn msg_view(m: Seq<cmsghdr>) -> Seq<(i32, i32, Seq<u8>)> {
    m.map_values(|c: cmsghdr| cmsg_view(c))
}

/// What a received datagram offers as ancillary data.
pub struct rcv_info {
    pub daddr: u32,
    pub spec_dst: u32,
    pub ifindex: i32,
    pub ttl: u8,
    pub tos: u8,
    pub opts: Vec<u8>,
    pub retopts: Vec<u8>,
    pub secdata: Vec<u8>,
    pub orig_port: u16,
    pub orig_addr: u32,
    pub csum: u32,
    pub frag_max_size: u16,
}

pub open spec fn le16(v: u16) -> Seq<u8> {
    seq![(v % 256) as u8, (v / 256) as u8]
}

pub open spec fn le32(v: u32) -> Seq<u8> {
    seq![(v % 256) as u8, ((v / 256) % 256) as u8, ((v / 0x1_0000) % 256) as u8, (v / 0x100_0000) as u8]
}

fn le32_vec(v: u32) -> (r: Vec<u8>)
    ensures
        r@ == le32(v),
{
    let mut r: Vec<u8> = Vec::new();
    r.push((v % 256) as u8);
    r.push(((v / 256) % 256) as u8);
    r.push(((v / 0x1_0000) % 256) as u8);
    r.push((v / 0x100_0000) as u8);
    proof { assert(r@ =~= le32(v)); }
    r
}

/// The packet-info payload: destination, local address and interface.
pub open spec fn pktinfo_bytes(i: rcv_info) -> Seq<u8> {
    le32(i.daddr) + le32(i.spec_dst) + le32(i.ifindex as u32)
}

/// The original-destination payload: a `sockaddr_in` (family, port,
/// address, eight zero bytes).
pub open spec fn dstaddr_bytes(i: rcv_info) -> Seq<u8> {
    le16(AF_INET) + le16(i.orig_port) + le32(i.orig_addr) + Seq::new(8, |k: int| 0u8)
}

/// One control message if `cond`, else none.
pub open spec fn maybe(cond: bool, level: i32, ty: i32, data: Seq<u8>) -> Seq<(i32, i32, Seq<u8>)> {
    if cond { seq![(level, ty, data)] } else { Seq::empty() }
}

/// The ancillary data for a datagram, given the socket's delivery flags: in
/// flag order, packet info, TTL, TOS, the received options and the options
/// to echo (when there are any), the security context, the original
/// destination, the checksum, and the largest fragment size (when known).
pub open spec fn recv_cmsgs(flags: u32, i: rcv_info) -> Seq<(i32, i32, Seq<u8>)> {
    maybe(flags & 1 != 0, SOL_IP, IP_PKTINFO, pktinfo_bytes(i))
        + maybe(flags & 2 != 0, SOL_IP, IP_TTL, le32(i.ttl as u32))
        + maybe(flags & 4 != 0, SOL_IP, IP_TOS, seq![i.tos])
        + maybe(flags & 8 != 0 && i.opts@.len() > 0, SOL_IP, IP_RECVOPTS, i.opts@)
        + maybe(flags & 16 != 0 && i.retopts@.len() > 0, SOL_IP, IP_RETOPTS, i.retopts@)
        + maybe(flags & 32 != 0, SOL_IP, SCM_SECURITY, i.secdata@)
        + maybe(flags & 64 != 0, SOL_IP, IP_ORIGDSTADDR, dstaddr_bytes(i))
        + maybe(flags & 128 != 0, SOL_IP, IP_CHECKSUM, le32(i.csum))
        + maybe(flags & 256 != 0 && i.frag_max_size != 0, SOL_IP, IP_RECVFRAGSIZE, le32(i.frag_max_size as u32))
}

fn copy_bytes(v: &Vec<u8>) -> (r: Vec<u8>)
    ensures
        r@ == v@,
{
    let mut r: Vec<u8> = Vec::new();
    let mut k: usize = 0;
    while k < v.len()
        invariant
            k <= v.len(),
            r@ == v@.take(k as int),
        decreases v.len() - k,
    {
        r.push(v[k]);
        k = k + 1;
        proof { assert(r@ =~= v@.take(k as int)); }
    }
    proof { assert(v@.take(v@.len() as int) =~= v@); }
    r
}

fn put_cmsg(msg: &mut Vec<cmsghdr>, level: i32, ty: i32, data: Vec<u8>)
    ensures
        msg_view(final(msg)@) == msg_view(old(msg)@).push((level, ty, data@)),
{
    let ghost d = data@;
    msg.push(cmsghdr { cmsg_level: level, cmsg_type: ty, data });
    proof {
        assert(msg_view(final(msg)@) =~= msg_view(old(msg)@).push((level, ty, d)));
    }
}

proof fn lemma_add_assoc<A>(a: Seq<A>, b: Seq<A>, c: Seq<A>)
    ensures
        (a + b) + c == a + (b + c),
{
    assert((a + b) + c =~= a + (b + c));
}

/// Append a control message when `cond` holds.
fn put_if(msg: &mut Vec<cmsghdr>, cond: bool, level: i32, ty: i32, data: Vec<u8>)
    ensures
        msg_view(final(msg)@) == msg_view(old(msg)@) + maybe(cond, level, ty, data@),
{
    if cond {
        put_cmsg(msg, level, ty, data);
    } else {
        proof {
            assert(msg_view(old(msg)@) + maybe(cond, level, ty, data@)
                =~= msg_view(old(msg)@));
        }
    }
}

fn pktinfo_vec(info: &rcv_info) -> (d: Vec<u8>)
    ensures
        d@ == pktinfo_bytes(*info),
{
    let mut d = le32_vec(info.daddr);
    let mut a = le32_vec(info.spec_dst);
    let mut b = le32_vec(info.ifindex as u32);
    d.append(&mut a);
    d.append(&mut b);
    proof { assert(d@ =~= pktinfo_bytes(*info)); }
    d
}

fn dstaddr_vec(info: &rcv_info) -> (d: Vec<u8>)
    ensures
        d@ == dstaddr_bytes(*info),
{
    let mut d: Vec<u8> = Vec::new();
    d.push(2u8);
    d.push(0u8);
    d.push((info.orig_port % 256) as u8);
    d.push((info.orig_port / 256) as u8);
    let mut a = le32_vec(info.orig_addr);
    d.append(&mut a);
    let mut k: usize = 0;
    while k < 8
        invariant
            k <= 8,
            d@ == le16(AF_INET) + le16(info.orig_port) + le32(info.orig_addr) + Seq::new(k as nat, |j: int| 0u8),
        decreases 8 - k,
    {
        d.push(0u8);
        k = k + 1;
        proof {
            assert(d@ =~= le16(AF_INET) + le16(info.orig_port) + le32(info.orig_addr) + Seq::new(k as nat, |j: int| 0u8));
        }
    }
    d
}

/// Append to `msg` the ancillary data the socket's `flags` ask for (see
/// `recv_cmsgs`).
pub fn ip_cmsg_recv_offset(msg: &mut Vec<cmsghdr>, flags: u32, info: &rcv_info)
    ensures
        msg_view(final(msg)@) == msg_view(old(msg)@) + recv_cmsgs(flags, *info),
{
    let ghost start = msg_view(msg@);
    let ghost i = *info;
    let ghost m1 = maybe(flags & 1 != 0, SOL_IP, IP_PKTINFO, pktinfo_bytes(i));
    let ghost m2 = maybe(flags & 2 != 0, SOL_IP, IP_TTL, le32(i.ttl as u32));
    let ghost m3 = maybe(flags & 4 != 0, SOL_IP, IP_TOS, seq![i.tos]);
    let ghost m4 = maybe(flags & 8 != 0 && i.opts@.len() > 0, SOL_IP, IP_RECVOPTS, i.opts@);
    let ghost m5 = maybe(flags & 16 != 0 && i.retopts@.len() > 0, SOL_IP, IP_RETOPTS, i.retopts@);
    let ghost m6 = maybe(flags & 32 != 0, SOL_IP, SCM_SECURITY, i.secdata@);
    let ghost m7 = maybe(flags & 64 != 0, SOL_IP, IP_ORIGDSTADDR, dstaddr_bytes(i));
    let ghost m8 = maybe(flags & 128 != 0, SOL_IP, IP_CHECKSUM, le32(i.csum));
    let ghost m9 = maybe(flags & 256 != 0 && i.frag_max_size != 0, SOL_IP, IP_RECVFRAGSIZE, le32(i.frag_max_size as u32));
    let mut tos: Vec<u8> = Vec::new();
    tos.push(info.tos);
    proof { assert(tos@ =~= seq![i.tos]); }
    put_if(msg, flags & 1 != 0, SOL_IP, IP_PKTINFO, pktinfo_vec(info));
    let ghost v1 = msg_view(msg@);
    put_if(msg, flags & 2 != 0, SOL_IP, IP_TTL, le32_vec(info.ttl as u32));
    let ghost v2 = msg_view(msg@);
    proof { lemma_add_assoc(start, m1, m2); }
    put_if(msg, flags & 4 != 0, SOL_IP, IP_TOS, tos);
    let ghost v3 = msg_view(msg@);
    proof { lemma_add_assoc(start, (m1 + m2), m3); }
    put_if(msg, flags & 8 != 0 && info.opts.len() > 0, SOL_IP, IP_RECVOPTS, copy_bytes(&info.opts));
    let ghost v4 = msg_view(msg@);
    proof { lemma_add_assoc(start, (m1 + m2 + m3), m4); }
    put_if(msg, flags & 16 != 0 && info.retopts.len() > 0, SOL_IP, IP_RETOPTS, copy_bytes(&info.retopts));
    let ghost v5 = msg_view(msg@);
    proof { lemma_add_assoc(start, (m1 + m2 + m3 + m4), m5); }
    put_if(msg, flags & 32 != 0, SOL_IP, SCM_SECURITY, copy_bytes(&info.secdata));
    let ghost v6 = msg_view(msg@);
    proof { lemma_add_assoc(start, (m1 + m2 + m3 + m4 + m5), m6); }
    put_if(msg, flags & 64 != 0, SOL_IP, IP_ORIGDSTADDR, dstaddr_vec(info));
    let ghost v7 = msg_view(msg@);
    proof { lemma_add_assoc(start, (m1 + m2 + m3 + m4 + m5 + m6), m7); }
    put_if(msg, flags & 128 != 0, SOL_IP, IP_CHECKSUM, le32_vec(info.csum));
    let ghost v8 = msg_view(msg@);
    proof { lemma_add_assoc(start, (m1 + m2 + m3 + m4 + m5 + m6 + m7), m8); }
    put_if(msg, flags & 256 != 0 && info.frag_max_size != 0, SOL_IP, IP_RECVFRAGSIZE, le32_vec(info.frag_max_size as u32));
    proof {
        lemma_add_assoc(start, m1 + m2 + m3 + m4 + m5 + m6 + m7 + m8, m9);
    }
}

/// A control message given on send: its declared length, level and type.
pub struct send_cmsg {
    pub cmsg_len: usize,
    pub cmsg_level: i32,
    pub cmsg_type: i32,
}

/// A control message given on send is acceptable when it lies in the
/// control buffer and, at the IP level, is one of the kinds IP takes.
pub open spec fn send_cmsg_ok(c: send_cmsg) -> bool {
    c.cmsg_len >= CMSG_HDR_LEN
        && (c.cmsg_level != SOL_IP || c.cmsg_type == IP_RETOPTS || c.cmsg_type == IP_PKTINFO
            || c.cmsg_type == IP_TTL || c.cmsg_type == IP_TOS)
}

/// The control messages laid one after another from offset 0 of a buffer
/// of `controllen` bytes fit in it.
pub open spec fn cmsgs_fit(cs: Seq<send_cmsg>, controllen: usize, n: int) -> bool
    decreases n,
{
    if n <= 0 {
        true
    } else {
        cmsgs_fit(cs, controllen, n - 1) && cmsgs_end(cs, n) <= controllen
    }
}

/// Where the first `n` control messages end.
pub open spec fn cmsgs_end(cs: Seq<send_cmsg>, n: int) -> int
    decreases n,
{
    if n <= 0 { 0 } else { cmsgs_end(cs, n - 1) + cs[n - 1].cmsg_len }
}

/// Check the control messages given on send: `EINVAL` when one does not fit
/// in the control buffer or is of a kind IP does not take.
pub fn ip_cmsg_send(cs: &Vec<send_cmsg>, controllen: usize) -> (r: i32)
    ensures
        r == 0 <==> (cmsgs_fit(cs@, controllen, cs@.len() as int)
            && forall|k: int| 0 <= k < cs@.len() ==> #[trigger] send_cmsg_ok(cs@[k])),
        r == 0 || r == EINVAL,
{
    let mut off: usize = 0;
    let mut i: usize = 0;
    while i < cs.len()
        invariant
            i <= cs.len(),
            off as int == cmsgs_end(cs@, i as int),
            off <= controllen,
            cmsgs_fit(cs@, controllen, i as int),
            forall|k: int| 0 <= k < i ==> #[trigger] send_cmsg_ok(cs@[k]),
        decreases cs.len() - i,
    {
        let c = &cs[i];
        if c.cmsg_len < CMSG_HDR_LEN || c.cmsg_len > controllen - off {
            proof {
                if cmsgs_fit(cs@, controllen, cs@.len() as int) {
                    lemma_fit_prefix(cs@, controllen, i as int + 1, cs@.len() as int);
                    assert(!send_cmsg_ok(cs@[i as int]) || cmsgs_end(cs@, i as int + 1) > controllen);
                }
            }
            return EINVAL;
        }
        if c.cmsg_level == SOL_IP {
            if c.cmsg_type != IP_RETOPTS && c.cmsg_type != IP_PKTINFO && c.cmsg_type != IP_TTL && c.cmsg_type != IP_TOS {
                return EINVAL;
            }
        }
        off = off + c.cmsg_len;
        i = i + 1;
    }
    0
}

proof fn lemma_fit_prefix(cs: Seq<send_cmsg>, controllen: usize, m: int, n: int)
    requires
        0 <= m <= n,
        cmsgs_fit(cs, controllen, n),
    ensures
        cmsgs_fit(cs, controllen, m),
    decreases n - m,
{
    if m < n {
        lemma_fit_prefix(cs, controllen, m, n - 1);
    }
}

/// Join or leave the router-alert chain: only sockets of type 1 may
/// (else `EINVAL`); joining needs an entry (`alloc_ok`, else `ENOMEM`).
pub fn ip_ra_control(sk_type: i32, on: bool, alloc_ok: bool) -> (r: i32)
    ensures
        r == (if sk_type != 1 { EINVAL } else if on && !alloc_ok { ENOMEM } else { 0 }),
{
    if sk_type != 1 || sk_type == 3 {
        return EINVAL;
    }
    if on && !alloc_ok {
        return ENOMEM;
    }
    0
}

} // verus!
