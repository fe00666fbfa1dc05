//! GRE over IPv4: which tunnel an ICMP error about a GRE packet concerns and
//! how it is counted, and how ERSPAN packets find their tunnel.
use vstd::prelude::*;
use crate::gre_demux::{be32_at, gre_parse_header, gre_parsed, read_be32, tnl_ptk_info, ETH_P_ERSPAN, ETH_P_ERSPAN2};
use crate::ip_tunnel::{
    errs_bounded, ip_tunnel, ip_tunnel_lookup, ip_tunnel_net, lemma_lookup_valid, lookup_result, ref_valid, tunnel_at,
    tunnel_ref, TUNNEL_KEY,
};
use crate::ipip::IPTUNNEL_ERR_TIMEO;
use crate::datagram::{ipv4_is_multicast, is_multicast};

verus! {

pub const EINVAL: i32 = -22;
pub const ENOENT: i32 = -2;
pub const ENOMEM: i32 = -12;
pub const ETH_P_TEB: u16 = 0x6558;
pub const ETH_P_IP: u16 = 0x0800;
pub const IPPROTO_GRE: u8 = 47;
pub const ICMP_DEST_UNREACH: u8 = 3;
pub const ICMP_REDIRECT: u8 = 5;
pub const ICMP_TIME_EXCEEDED: u8 = 11;
pub const ICMP_PARAMETERPROB: u8 = 12;
pub const ICMP_PORT_UNREACH: u8 = 3;
pub const ICMP_FRAG_NEEDED: u8 = 4;
pub const ICMP_SR_FAILED: u8 = 5;
pub const ICMP_EXC_TTL: u8 = 0;
/// Asks the lookup for a tunnel without a key.
pub const TUNNEL_NO_KEY: u16 = 0x8000;
pub const PACKET_RCVD: i32 = 0;
pub const PACKET_REJECT: i32 = 1;

/// The three GRE tunnel tables of a namespace.
pub struct ip_gre_nets {
    pub gre_tap: ip_tunnel_net,
    pub erspan: ip_tunnel_net,
    pub ipgre: ip_tunnel_net,
}

impl ip_gre_nets {
    pub open spec fn wf(&self) -> bool {
        self.gre_tap.wf() && self.erspan.wf() && self.ipgre.wf()
    }
}

/// Which table serves a payload protocol.
pub enum gre_table {
    Tap,
    Erspan,
    Ipgre,
}

/// Ethernet payloads go to the tap table, ERSPAN to the ERSPAN table, all
/// else to the plain GRE table.
pub open spec fn table_for(proto: u16) -> gre_table {
    if proto == ETH_P_TEB {
        gre_table::Tap
    } else if proto == ETH_P_ERSPAN || proto == ETH_P_ERSPAN2 {
        gre_table::Erspan
    } else {
        gre_table::Ipgre
    }
}

pub open spec fn table(nets: ip_gre_nets, which: gre_table) -> ip_tunnel_net {
    match which {
        gre_table::Tap => nets.gre_tap,
        gre_table::Erspan => nets.erspan,
        gre_table::Ipgre => nets.ipgre,
    }
}

/// `a` comes before `b` on a clock that wraps around.
pub open spec fn time_is_before(a: u64, b: u64) -> bool {
    (a.wrapping_sub(b) as i64) < 0
}

fn time_before(a: u64, b: u64) -> (r: bool)
    ensures
        r == time_is_before(a, b),
{
    (a.wrapping_sub(b) as i64) < 0
}

/// `t` with its error count and time replaced.
pub open spec fn with_err(t: ip_tunnel, count: i32, time: u64) -> ip_tunnel {
    ip_tunnel { err_count: count, err_time: time, ..t }
}

/// `after` is `before` with the error count and time of the tunnel at `r`
/// replaced.
pub open spec fn err_set(before: ip_tunnel_net, after: ip_tunnel_net, r: tunnel_ref, count: i32, time: u64) -> bool {
    match r {
        tunnel_ref::Hashed { bucket, index } => {
            &&& after.tunnels@ == before.tunnels@.update(bucket as int,
                after.tunnels@[bucket as int])
            &&& after.bucket(bucket as int) == before.bucket(bucket as int).update(index as int,
                with_err(before.bucket(bucket as int)[index as int], count, time))
            &&& after.collect_md_tun == before.collect_md_tun
            &&& after.fb_tunnel_dev == before.fb_tunnel_dev
        },
        tunnel_ref::CollectMd => {
            &&& after.tunnels == before.tunnels
            &&& after.collect_md_tun == Some(with_err(before.collect_md_tun->0, count, time))
            &&& after.fb_tunnel_dev == before.fb_tunnel_dev
        },
        tunnel_ref::Fallback => {
            &&& after.tunnels == before.tunnels
            &&& after.collect_md_tun == before.collect_md_tun
            &&& after.fb_tunnel_dev == Some(with_err(before.fb_tunnel_dev->0, count, time))
        },
    }
}

fn set_err(itn: &mut ip_tunnel_net, r: tunnel_ref, count: i32, time: u64)
    requires
        old(itn).wf(),
        ref_valid(*old(itn), r),
    ensures
        final(itn).wf(),
        err_set(*old(itn), *final(itn), r, count, time),
{
    match r {
        tunnel_ref::Hashed { bucket, index } => {
            let mut head = itn.tunnels.remove(bucket);
            let mut t = head.remove(index);
            t.err_count = count;
            t.err_time = time;
            head.insert(index, t);
            itn.tunnels.insert(bucket, head);
            assert(itn.tunnels@ =~= old(itn).tunnels@.update(bucket as int, itn.tunnels@[bucket as int]));
            assert(itn.bucket(bucket as int) =~= old(itn).bucket(bucket as int).update(index as int,
                with_err(old(itn).bucket(bucket as int)[index as int], count, time)));
        },
        tunnel_ref::CollectMd => {
            match &mut itn.collect_md_tun {
                Some(t) => {
                    t.err_count = count;
                    t.err_time = time;
                },
                None => {},
            }
        },
        tunnel_ref::Fallback => {
            match &mut itn.fb_tunnel_dev {
                Some(t) => {
                    t.err_count = count;
                    t.err_time = time;
                },
                None => {},
            }
        },
    }
}

/// Whether an ICMP error of this type and code is one the tunnel is told
/// about: unreachables other than source-route failures and port
/// unreachables, TTL expiries in transit, and redirects.
pub open spec fn err_reaches_tunnel(kind: u8, code: u8) -> bool {
    ||| kind == ICMP_DEST_UNREACH && code != ICMP_SR_FAILED && code != ICMP_PORT_UNREACH
    ||| kind == ICMP_TIME_EXCEEDED && code == ICMP_EXC_TTL
    ||| kind == ICMP_REDIRECT
}

/// The error count a tunnel has after one more error at `now`: one more
/// within `IPTUNNEL_ERR_TIMEO` ticks of the previous one, else 1.
pub open spec fn next_err_count(t: ip_tunnel, now: u64) -> i32 {
    if time_is_before(now, t.err_time.wrapping_add(IPTUNNEL_ERR_TIMEO)) { (t.err_count + 1) as i32 } else { 1 }
}

/// Whether an ICMP error of type `kind` and `code` is counted against the
/// tunnel `t`: it must reach tunnels, the tunnel must have a fixed unicast
/// remote end, and a TTL expiry is not counted on a tunnel that inherits
/// the TTL.
pub open spec fn err_counted(t: ip_tunnel, kind: u8, code: u8) -> bool {
    &&& err_reaches_tunnel(kind, code)
    &&& t.params.iph.daddr.s_addr != 0
    &&& !is_multicast(t.params.iph.daddr.s_addr)
    &&& !(t.params.iph.ttl == 0 && kind == ICMP_TIME_EXCEEDED)
}

/// Handle an ICMP error of type `kind` and `code` about a GRE packet from
/// `saddr` to `daddr` (the quoted header) with flags and key `flags`, `key`,
/// received on `ifindex`, in the table `itn`, at time `now`. Without a
/// tunnel the answer is the negated `ENOENT`; else 0, and the error is
/// counted against the tunnel when `err_counted` says so.
pub fn ipgre_err_in(itn: &mut ip_tunnel_net, ifindex: i32, flags: u16, key: u32, saddr: u32, daddr: u32, kind: u8, code: u8, now: u64) -> (r: i32)
    requires
        old(itn).wf(),
        lookup_result(*old(itn), ifindex, flags, daddr, saddr, key) matches Some(tr)
            ==> tunnel_at(*old(itn), tr).err_count < i32::MAX,
    ensures
        final(itn).wf(),
        match lookup_result(*old(itn), ifindex, flags, daddr, saddr, key) {
            None => r == -ENOENT && *final(itn) == *old(itn),
            Some(tr) => {
                let t = tunnel_at(*old(itn), tr);
                &&& r == 0
                &&& err_counted(t, kind, code) ==> err_set(*old(itn), *final(itn), tr, next_err_count(t, now), now)
                &&& !err_counted(t, kind, code) ==> *final(itn) == *old(itn)
            },
        },
{
    let found = ip_tunnel_lookup(itn, ifindex, flags, daddr, saddr, key);
    let tr = match found {
        None => {
            return -ENOENT;
        },
        Some(tr) => tr,
    };
    let (tdaddr, tttl, terr_time, terr_count) = match tr {
        tunnel_ref::Hashed { bucket, index } => {
            let t = &itn.tunnels[bucket][index];
            (t.params.iph.daddr.s_addr, t.params.iph.ttl, t.err_time, t.err_count)
        },
        tunnel_ref::CollectMd => match &itn.collect_md_tun {
            Some(t) => (t.params.iph.daddr.s_addr, t.params.iph.ttl, t.err_time, t.err_count),
            None => {
                return 0;
            },
        },
        tunnel_ref::Fallback => match &itn.fb_tunnel_dev {
            Some(t) => (t.params.iph.daddr.s_addr, t.params.iph.ttl, t.err_time, t.err_count),
            None => {
                return 0;
            },
        },
    };
    if kind == ICMP_PARAMETERPROB {
        return 0;
    } else if kind == ICMP_DEST_UNREACH {
        if code == ICMP_SR_FAILED || code == ICMP_PORT_UNREACH {
            return 0;
        }
    } else if kind == ICMP_TIME_EXCEEDED {
        if code != ICMP_EXC_TTL {
            return 0;
        }
    } else if kind == ICMP_REDIRECT {
    } else {
        return 0;
    }
    if tdaddr == 0 || ipv4_is_multicast(tdaddr) {
        return 0;
    }
    if tttl == 0 && kind == ICMP_TIME_EXCEEDED {
        return 0;
    }
    let count = if time_before(now, terr_time.wrapping_add(IPTUNNEL_ERR_TIMEO)) {
        terr_count + 1
    } else {
        1
    };
    set_err(itn, tr, count, now);
    0
}

/// Handle an ICMP error about a GRE packet whose parsed header is `tpi`,
/// in the table that serves its payload protocol (see `table_for` and
/// `ipgre_err_in`).
pub fn ipgre_err(nets: &mut ip_gre_nets, ifindex: i32, tpi: &tnl_ptk_info, saddr: u32, daddr: u32, kind: u8, code: u8, now: u64) -> (r: i32)
    requires
        old(nets).wf(),
        ({
            let itn = table(*old(nets), table_for(tpi.proto));
            lookup_result(itn, ifindex, tpi.flags, daddr, saddr, tpi.key) matches Some(tr)
                ==> tunnel_at(itn, tr).err_count < i32::MAX
        }),
    ensures
        final(nets).wf(),
        ({
            let which = table_for(tpi.proto);
            let before = table(*old(nets), which);
            let after = table(*final(nets), which);
            &&& match lookup_result(before, ifindex, tpi.flags, daddr, saddr, tpi.key) {
                None => r == -ENOENT && after == before,
                Some(tr) => {
                    let t = tunnel_at(before, tr);
                    &&& r == 0
                    &&& err_counted(t, kind, code) ==> err_set(before, after, tr, next_err_count(t, now), now)
                    &&& !err_counted(t, kind, code) ==> after == before
                },
            }
            &&& which !is Tap ==> final(nets).gre_tap == old(nets).gre_tap
            &&& which !is Erspan ==> final(nets).erspan == old(nets).erspan
            &&& which !is Ipgre ==> final(nets).ipgre == old(nets).ipgre
        }),
{
    if tpi.proto == ETH_P_TEB {
        ipgre_err_in(&mut nets.gre_tap, ifindex, tpi.flags, tpi.key, saddr, daddr, kind, code, now)
    } else if tpi.proto == ETH_P_ERSPAN || tpi.proto == ETH_P_ERSPAN2 {
        ipgre_err_in(&mut nets.erspan, ifindex, tpi.flags, tpi.key, saddr, daddr, kind, code, now)
    } else {
        ipgre_err_in(&mut nets.ipgre, ifindex, tpi.flags, tpi.key, saddr, daddr, kind, code, now)
    }
}

/// What an ICMP error about a GRE packet leads to.
pub enum gre_err_action {
    /// Nothing: the quoted GRE header does not parse.
    Ignore,
    /// The path MTU towards the tunnel's remote end is updated from `info`.
    UpdatePmtu { info: u32, ifindex: i32, protocol: u8 },
    /// The route follows the redirect.
    Redirect { ifindex: i32, protocol: u8 },
    /// The error went to the tunnel tables, with this result.
    Handled(i32),
}

/// The GRE header that an ICMP error quotes: `pkt` starts at the quoted IP
/// header, which is as long as four times the low four bits of its first
/// byte.
pub open spec fn quoted_gre(pkt: Seq<u8>) -> Result<tnl_ptk_info, bool> {
    gre_parsed(pkt, ((pkt[0] & 0x0f) * 4) as int, ETH_P_IP, true, false)
}

/// Handle an ICMP error of type `kind` and `code` (with `info`) that quotes
/// the GRE packet `pkt`, received on `ifindex` at time `now`. An unparsable
/// GRE header is ignored; "fragmentation needed" and redirects go to the
/// routing code; all else to `ipgre_err` with the quoted source and
/// destination (bytes 12 and 16, in network order).
pub fn gre_err(nets: &mut ip_gre_nets, pkt: &Vec<u8>, ifindex: i32, kind: u8, code: u8, info: u32, now: u64) -> (r: gre_err_action)
    requires
        old(nets).wf(),
        pkt.len() >= 20,
        errs_bounded(old(nets).gre_tap),
        errs_bounded(old(nets).erspan),
        errs_bounded(old(nets).ipgre),
    ensures
        final(nets).wf(),
        match quoted_gre(pkt@) {
            Err(_) => r is Ignore && *final(nets) == *old(nets),
            Ok(tpi) => if kind == ICMP_DEST_UNREACH && code == ICMP_FRAG_NEEDED {
                r == gre_err_action::UpdatePmtu { info, ifindex, protocol: IPPROTO_GRE } && *final(nets) == *old(nets)
            } else if kind == ICMP_REDIRECT {
                r == gre_err_action::Redirect { ifindex, protocol: IPPROTO_GRE } && *final(nets) == *old(nets)
            } else {
                let which = table_for(tpi.proto);
                let before = table(*old(nets), which);
                let after = table(*final(nets), which);
                let saddr = be32_at(pkt@, 12);
                let daddr = be32_at(pkt@, 16);
                &&& match lookup_result(before, ifindex, tpi.flags, daddr, saddr, tpi.key) {
                    None => r == gre_err_action::Handled((-ENOENT) as i32) && after == before,
                    Some(tr) => {
                        let t = tunnel_at(before, tr);
                        &&& r == gre_err_action::Handled(0)
                        &&& err_counted(t, kind, code) ==> err_set(before, after, tr, next_err_count(t, now), now)
                        &&& !err_counted(t, kind, code) ==> after == before
                    },
                }
                &&& which !is Tap ==> final(nets).gre_tap == old(nets).gre_tap
                &&& which !is Erspan ==> final(nets).erspan == old(nets).erspan
                &&& which !is Ipgre ==> final(nets).ipgre == old(nets).ipgre
            },
        },
{
    let nhs: usize = ((pkt[0] & 0x0f) as usize) * 4;
    let mut tpi = tnl_ptk_info { flags: 0, key: 0, seq: 0, proto: 0, hdr_len: 0 };
    let mut csum_err = false;
    if gre_parse_header(pkt, &mut tpi, &mut csum_err, false, ETH_P_IP, nhs, true) < 0 {
        proof {
            assert(quoted_gre(pkt@) is Err) by {
                if let Ok(info) = quoted_gre(pkt@) {
                    assert(info.hdr_len >= 0);
                }
            }
        }
        return gre_err_action::Ignore;
    }
    if kind == ICMP_DEST_UNREACH && code == ICMP_FRAG_NEEDED {
        return gre_err_action::UpdatePmtu { info, ifindex, protocol: IPPROTO_GRE };
    }
    if kind == ICMP_REDIRECT {
        return gre_err_action::Redirect { ifindex, protocol: IPPROTO_GRE };
    }
    let saddr = read_be32(pkt, 12);
    let daddr = read_be32(pkt, 16);
    proof {
        let which = table_for(tpi.proto);
        let itn = table(*nets, which);
        lemma_lookup_valid(itn, ifindex, tpi.flags, daddr, saddr, tpi.key);
    }
    gre_err_action::Handled(ipgre_err(nets, ifindex, &tpi, saddr, daddr, kind, code, now))
}

/// An ERSPAN header of version 1 has a base and a 4-byte part, version 2 a
/// base and an 8-byte part; version 0 has none.
pub open spec fn spec_erspan_hdr_len(ver: u8) -> int {
    if ver == 0 { 0 } else if ver == 1 { 8 } else { 12 }
}

pub fn erspan_hdr_len(ver: u8) -> (r: i32)
    ensures
        r == spec_erspan_hdr_len(ver),
{
    if ver == 0 { 0 } else if ver == 1 { 8 } else { 12 }
}

/// A GRE header of exactly four bytes carries ERSPAN type I.
pub fn is_erspan_type1(gre_hdr_len: i32) -> (r: bool)
    ensures
        r == (gre_hdr_len == 4),
{
    gre_hdr_len == 4
}

/// The ERSPAN version in the header that follows a GRE header of
/// `gre_hdr_len` bytes in `pkt` (which starts at the GRE header): the top
/// four bits of its first byte.
pub open spec fn erspan_ver(pkt: Seq<u8>, gre_hdr_len: int) -> u8 {
    pkt[gre_hdr_len] >> 4
}

/// The tunnel an ERSPAN packet from `saddr` to `daddr` belongs to: type I
/// packets look for a tunnel without a key, the others for the packet's key.
pub open spec fn erspan_lookup(nets: ip_gre_nets, ifindex: i32, tpi: tnl_ptk_info, saddr: u32, daddr: u32, gre_hdr_len: i32) -> Option<tunnel_ref> {
    if gre_hdr_len == 4 {
        lookup_result(nets.erspan, ifindex, tpi.flags | TUNNEL_NO_KEY, saddr, daddr, 0)
    } else {
        lookup_result(nets.erspan, ifindex, tpi.flags | TUNNEL_KEY, saddr, daddr, tpi.key)
    }
}

/// Receive an ERSPAN packet `pkt` (from its GRE header on) with parsed GRE
/// header `tpi` of `gre_hdr_len` bytes, sent from `saddr` to `daddr` and
/// received on `ifindex`. It is rejected when no tunnel takes it (see
/// `erspan_lookup`), when it is shorter than its GRE and ERSPAN headers, or
/// when those headers cannot be taken off (`pull_ok`); else it is received.
pub fn erspan_rcv(nets: &ip_gre_nets, pkt: &Vec<u8>, ifindex: i32, tpi: &tnl_ptk_info, saddr: u32, daddr: u32, gre_hdr_len: i32, pull_ok: bool) -> (r: i32)
    requires
        nets.wf(),
        0 <= gre_hdr_len,
        gre_hdr_len != 4 ==> gre_hdr_len < pkt.len(),
    ensures
        r == (if erspan_lookup(*nets, ifindex, *tpi, saddr, daddr, gre_hdr_len) is None {
            PACKET_REJECT
        } else {
            let len = if gre_hdr_len == 4 { gre_hdr_len as int } else {
                gre_hdr_len + spec_erspan_hdr_len(erspan_ver(pkt@, gre_hdr_len as int)) };
            if pkt.len() < len || !pull_ok { PACKET_REJECT } else { PACKET_RCVD }
        }),
{
    let mut ver: u8 = 0;
    let tunnel = if is_erspan_type1(gre_hdr_len) {
        ip_tunnel_lookup(&nets.erspan, ifindex, tpi.flags | TUNNEL_NO_KEY, saddr, daddr, 0)
    } else {
        ver = pkt[gre_hdr_len as usize] >> 4;
        ip_tunnel_lookup(&nets.erspan, ifindex, tpi.flags | TUNNEL_KEY, saddr, daddr, tpi.key)
    };
    if tunnel.is_none() {
        return PACKET_REJECT;
    }
    let len: i64 = if is_erspan_type1(gre_hdr_len) {
        gre_hdr_len as i64
    } else {
        gre_hdr_len as i64 + erspan_hdr_len(ver) as i64
    };
    if pkt.len() < len as usize {
        return PACKET_REJECT;
    }
    if !pull_ok {
        return PACKET_REJECT;
    }
    PACKET_RCVD
}

} // verus!
