//! Foo-over-UDP and Generic UDP Encapsulation receive paths: deciding, from
//! the bytes after the UDP header, which protocol a datagram carries and how
//! much header to strip.
use vstd::prelude::*;

verus! {

pub const EINVAL: i32 = -22;
pub const ENOMEM: i32 = -12;
pub const ENOSYS: i32 = -38;
pub const AF_INET: u8 = 2;
pub const IPPROTO_IPIP: u8 = 4;
pub const IPPROTO_IPV6: u8 = 41;
pub const FOU_F_REMCSUM_NOPARTIAL: u8 = 0x1;
/// Length of a UDP header.
pub const UDP_HLEN: usize = 8;
/// Length of the fixed GUE header.
pub const GUE_HLEN: usize = 4;
/// GUE header flags (host order of the big-endian flags field).
pub const GUE_FLAG_PRIV: u16 = 0x1;
/// Private GUE flags (host order of the big-endian private-flags word).
pub const GUE_PFLAG_REMCSUM: u32 = 0x8000_0000;
pub const GUE_LEN_PRIV: usize = 4;
pub const GUE_PLEN_REMCSUM: usize = 4;

pub struct iphdr {
    pub version: u8,
    pub tot_len: u16,
}

pub struct ipv6hdr {
    pub payload_len: u16,
}

pub struct udphdr {
    pub source: u16,
    pub dest: u16,
    pub len: u16,
    pub check: u16,
}

/// The fixed GUE header, decoded: the first byte holds the version (top two
/// bits), the control bit and the option length in words (low five bits).
pub struct guehdr {
    pub version: u8,
    pub control: u8,
    pub hlen: u8,
    pub proto_ctype: u8,
    pub flags: u16,
}

/// Configuration of a FOU or GUE port.
pub struct fou_cfg {
    pub type_: u16,
    pub protocol: u8,
    pub flags: u8,
}

/// A FOU or GUE receiving socket: the protocol it carries (FOU), its flags
/// and the address family of the outer header.
pub struct fou {
    pub protocol: u8,
    pub flags: u8,
    pub port: u16,
    pub family: u8,
    pub type_: u16,
}

/// Links of the list of ports, as positions.
pub struct list_head {
    pub next: usize,
    pub prev: usize,
}

/// Decode the fixed GUE header from its four bytes.
pub open spec fn spec_guehdr(p: Seq<u8>, at: int) -> guehdr {
    guehdr {
        version: p[at] >> 6,
        control: (p[at] >> 5) & 1,
        hlen: p[at] & 0x1f,
        proto_ctype: p[at + 1],
        flags: (p[at + 2] as int * 256 + p[at + 3] as int) as u16,
    }
}

pub fn parse_guehdr(p: &Vec<u8>, at: usize) -> (h: guehdr)
    requires
        at + 4 <= p.len(),
    ensures
        h == spec_guehdr(p@, at as int),
{
    let b = p[at];
    guehdr {
        version: b >> 6,
        control: (b >> 5) & 1,
        hlen: b & 0x1f,
        proto_ctype: p[at + 1],
        flags: (p[at + 2] as u16) * 256 + p[at + 3] as u16,
    }
}

/// Remove `len` bytes of encapsulation: the outer header's length field
/// loses them; the result is that of pulling the tunnel offloads
/// (`offloads_err`, 0 on success), done by the caller.
pub fn fou_recv_pull(outer_len: &mut u16, len: u16, offloads_err: i32) -> (ret: i32)
    requires
        len <= *old(outer_len),
    ensures
        *final(outer_len) == *old(outer_len) - len,
        ret == offloads_err,
{
    *outer_len = *outer_len - len;
    offloads_err
}

/// Receive on a FOU socket: strip the UDP header and hand the payload to the
/// configured protocol (returned negated), or drop it (0) when the tunnel
/// offloads cannot be pulled (`offloads_err` nonzero). Without a socket the
/// datagram goes to plain UDP (1).
pub fn fou_udp_recv(f: Option<&fou>, outer_len: &mut u16, offloads_err: i32) -> (ret: i32)
    requires
        UDP_HLEN <= *old(outer_len),
    ensures
        f is None ==> ret == 1 && *final(outer_len) == *old(outer_len),
        f is Some ==> *final(outer_len) == *old(outer_len) - UDP_HLEN
            && ret == (if offloads_err == 0 { -(f->0.protocol as int) } else { 0 }),
{
    match f {
        None => 1,
        Some(fo) => {
            if fou_recv_pull(outer_len, 8, offloads_err) != 0 {
                return 0;
            }
            -(fo.protocol as i32)
        },
    }
}

/// The big-endian 32-bit word at `at`.
pub open spec fn be32(p: Seq<u8>, at: int) -> u32 {
    (p[at] as int * 0x100_0000 + p[at + 1] as int * 0x1_0000 + p[at + 2] as int * 0x100 + p[at + 3] as int) as u32
}

/// The private flags word, present when the header says so.
pub open spec fn gue_pflags(p: Seq<u8>) -> u32 {
    if spec_guehdr(p, 8).flags & GUE_FLAG_PRIV != 0 { be32(p, 12) } else { 0 }
}

/// The flags of a GUE header with `optlen` bytes of options are valid: only
/// known flags, and the fields they announce fit in the options.
pub open spec fn gue_flags_valid(p: Seq<u8>, optlen: int) -> bool {
    let flags = spec_guehdr(p, 8).flags;
    let priv_len = if flags & GUE_FLAG_PRIV != 0 { 4int } else { 0 };
    let pflags = gue_pflags(p);
    &&& flags & !GUE_FLAG_PRIV == 0
    &&& priv_len <= optlen
    &&& flags & GUE_FLAG_PRIV != 0 ==> {
        &&& pflags & !GUE_PFLAG_REMCSUM == 0
        &&& priv_len + (if pflags & GUE_PFLAG_REMCSUM != 0 { 4int } else { 0 }) <= optlen
    }
}

/// What receiving the UDP datagram `p` (starting at the UDP header) on a GUE
/// socket gives: the return value (1: plain UDP, 0: consumed or dropped,
/// negative: the inner protocol to resubmit to) and how much is taken off
/// the outer header's length field.
pub open spec fn gue_outcome(has_fou: bool, p: Seq<u8>, remcsum_ok: bool, offloads_err: i32) -> (int, int) {
    if !has_fou {
        (1, 0)
    } else if p.len() < 12 {
        (0, 0)
    } else {
        let h = spec_guehdr(p, 8);
        if h.version == 1 {
            let ipver = p[8] >> 4;
            if ipver == 4 {
                (-(IPPROTO_IPIP as int), 0)
            } else if ipver == 6 {
                (-(IPPROTO_IPV6 as int), 0)
            } else {
                (0, 0)
            }
        } else if h.version != 0 {
            (0, 0)
        } else {
            let optlen = h.hlen as int * 4;
            let len = 12 + optlen;
            if p.len() < len || !gue_flags_valid(p, optlen) {
                (0, 0)
            } else if h.flags & GUE_FLAG_PRIV != 0 && gue_pflags(p) & GUE_PFLAG_REMCSUM != 0 && !remcsum_ok {
                (0, len)
            } else if h.control != 0 || offloads_err != 0 {
                (0, len)
            } else {
                (-(h.proto_ctype as int), len)
            }
        }
    }
}

fn read_be32(p: &Vec<u8>, at: usize) -> (r: u32)
    requires
        at + 4 <= p.len(),
    ensures
        r == be32(p@, at as int),
{
    (p[at] as u32) * 0x100_0000 + (p[at + 1] as u32) * 0x1_0000 + (p[at + 2] as u32) * 0x100 + p[at + 3] as u32
}

/// Check the GUE flags of the header in `p` (see `gue_flags_valid`).
pub fn validate_gue_flags(p: &Vec<u8>, optlen: usize) -> (bad: bool)
    requires
        12 <= p.len(),
        12 + optlen <= p.len(),
    ensures
        bad == !gue_flags_valid(p@, optlen as int),
{
    let h = parse_guehdr(p, 8);
    if h.flags & !GUE_FLAG_PRIV != 0 {
        return true;
    }
    let mut len: usize = if h.flags & GUE_FLAG_PRIV != 0 { 4 } else { 0 };
    if len > optlen {
        return true;
    }
    if h.flags & GUE_FLAG_PRIV != 0 {
        let pflags = read_be32(p, 12);
        if pflags & !GUE_PFLAG_REMCSUM != 0 {
            return true;
        }
        if pflags & GUE_PFLAG_REMCSUM != 0 {
            len = len + 4;
        }
        if len > optlen {
            return true;
        }
    }
    false
}

/// Receive on a GUE socket. `pkt` is the datagram from its UDP header on;
/// `outer_len` the length field of the outer IP header, which loses the
/// bytes stripped. A version-1 header is direct IP encapsulation: the packet
/// goes on to IPv4 or IPv6 as it is. The remote-checksum step and pulling
/// the tunnel offloads are done by the caller, which reports whether the first succeeded and
/// what the second returned.
pub fn gue_udp_recv(f: Option<&fou>, pkt: &Vec<u8>, outer_len: &mut u16, remcsum_ok: bool, offloads_err: i32) -> (ret: i32)
    requires
        pkt.len() <= *old(outer_len),
    ensures
        ret == gue_outcome(f is Some, pkt@, remcsum_ok, offloads_err).0,
        *final(outer_len) == *old(outer_len) - gue_outcome(f is Some, pkt@, remcsum_ok, offloads_err).1,
{
    if f.is_none() {
        return 1;
    }
    if pkt.len() < UDP_HLEN + GUE_HLEN {
        return 0;
    }
    let h = parse_guehdr(pkt, UDP_HLEN);
    if h.version == 1 {
        let ipver = pkt[8] >> 4;
        if ipver == 4 {
            return -(IPPROTO_IPIP as i32);
        } else if ipver == 6 {
            return -(IPPROTO_IPV6 as i32);
        }
        return 0;
    } else if h.version != 0 {
        return 0;
    }
    let optlen: usize = (h.hlen as usize) * 4;
    let len: usize = UDP_HLEN + GUE_HLEN + optlen;
    if pkt.len() < len {
        return 0;
    }
    if validate_gue_flags(pkt, optlen) {
        return 0;
    }
    *outer_len = *outer_len - len as u16;
    if h.flags & GUE_FLAG_PRIV != 0 {
        let pflags = read_be32(pkt, 12);
        if pflags & GUE_PFLAG_REMCSUM != 0 && !remcsum_ok {
            return 0;
        }
    }
    if h.control != 0 {
        return 0;
    }
    if offloads_err != 0 {
        return 0;
    }
    -(h.proto_ctype as i32)
}

/// The receive-offload handlers a protocol has.
#[derive(Clone, Copy)]
pub struct offload_callbacks {
    pub has_gro_receive: bool,
    pub has_gro_complete: bool,
}

/// The receive-offload handlers by protocol, for IPv4 and for IPv6.
pub struct offload_tables {
    pub inet: Vec<Option<offload_callbacks>>,
    pub inet6: Vec<Option<offload_callbacks>>,
}

/// What receive offload keeps per packet.
pub struct napi_gro_cb {
    pub encap_mark: u8,
    pub is_fou: u8,
    pub is_ipv6: u8,
}

/// A packet being merged: its offload state and where its inner MAC
/// header lies.
pub struct gro_skb {
    pub cb: napi_gro_cb,
    pub inner_mac_header: usize,
}

/// The handlers for the port's protocol, from the table of the packet's
/// family.
pub open spec fn handlers(t: offload_tables, is_ipv6: u8, proto: u8) -> Option<offload_callbacks> {
    if is_ipv6 != 0 { t.inet6@[proto as int] } else { t.inet@[proto as int] }
}

fn lookup_handlers(t: &offload_tables, is_ipv6: u8, proto: u8) -> (r: Option<offload_callbacks>)
    requires
        t.inet@.len() == 256,
        t.inet6@.len() == 256,
    ensures
        r == handlers(*t, is_ipv6, proto),
{
    if is_ipv6 != 0 { t.inet6[proto as usize] } else { t.inet[proto as usize] }
}

/// Merge a packet received on a FOU port: it is marked as FOU and its
/// encapsulation mark cleared; the inner protocol's merge handler decides
/// (its answer is `inner_result`); none when the protocol has none.
pub fn fou_gro_receive(f: &fou, skb: &mut gro_skb, offloads: &offload_tables, inner_result: Option<usize>) -> (r: Option<usize>)
    requires
        offloads.inet@.len() == 256,
        offloads.inet6@.len() == 256,
    ensures
        final(skb).cb == (napi_gro_cb { encap_mark: 0, is_fou: 1, is_ipv6: old(skb).cb.is_ipv6 }),
        final(skb).inner_mac_header == old(skb).inner_mac_header,
        r == match handlers(*offloads, old(skb).cb.is_ipv6, f.protocol) {
            Some(h) => if h.has_gro_receive { inner_result } else { None },
            None => None,
        },
{
    skb.cb.encap_mark = 0;
    skb.cb.is_fou = 1;
    match lookup_handlers(offloads, skb.cb.is_ipv6, f.protocol) {
        Some(h) => {
            if h.has_gro_receive {
                inner_result
            } else {
                None
            }
        },
        None => None,
    }
}

/// Finish a merged FOU packet: -ENOSYS when the inner protocol has no
/// completion handler; else its answer (`inner_result`), with the inner
/// MAC header at `nhoff`.
pub fn fou_gro_complete(f: &fou, skb: &mut gro_skb, nhoff: usize, offloads: &offload_tables, inner_result: i32) -> (r: i32)
    requires
        offloads.inet@.len() == 256,
        offloads.inet6@.len() == 256,
    ensures
        final(skb).cb == old(skb).cb,
        ({
            let h = handlers(*offloads, old(skb).cb.is_ipv6, f.protocol);
            if h is Some && h->0.has_gro_complete {
                r == inner_result && final(skb).inner_mac_header == nhoff
            } else {
                r == -ENOSYS && final(skb).inner_mac_header == old(skb).inner_mac_header
            }
        }),
{
    match lookup_handlers(offloads, skb.cb.is_ipv6, f.protocol) {
        Some(h) => {
            if !h.has_gro_complete {
                return -ENOSYS;
            }
            skb.inner_mac_header = nhoff;
            inner_result
        },
        None => -ENOSYS,
    }
}

} // verus!
