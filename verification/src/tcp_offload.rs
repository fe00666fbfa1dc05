//! TCP segmentation and receive offload for IPv4: timestamping the right
//! segment of a split packet, preparing a packet for segmentation, and
//! finishing a packet merged on receive.
use vstd::prelude::*;

verus! {

pub const EINVAL: i32 = -22;
pub const ENOMEM: i32 = -12;
pub const ENOSYS: i32 = -38;

pub const SKBTX_SW_TSTAMP: u32 = 1;
pub const SKB_GSO_TCPV4: u16 = 1;
pub const SKB_GSO_TCP_ECN: u16 = 2;
pub const SKB_GSO_TCP_FIXEDID: u16 = 4;
pub const CHECKSUM_PARTIAL: u16 = 1;
pub const TCP_HDR_LEN: u32 = 20;
/// Where the checksum lies in a TCP header.
pub const TCP_CHECK_OFFSET: u16 = 16;
pub const IPPROTO_TCP: usize = 6;

pub struct iphdr {
    pub saddr: u32,
    pub daddr: u32,
}

/// The TCP header fields offload reads and writes.
pub struct tcphdr {
    pub source: u16,
    pub seq: u32,
    pub ack_seq: u32,
    pub doff: u8,
    pub cwr: u8,
    pub check: u16,
}

/// A packet's shared information about segmentation and timestamps.
pub struct skb_shared_info {
    pub gso_type: u16,
    pub gso_size: u16,
    pub gso_segs: u16,
    pub tx_flags: u32,
    pub tskey: u32,
}

/// What receive offload keeps per packet while merging.
pub struct napi_gro_cb {
    pub same_flow: u8,
    pub flush: u8,
    pub is_atomic: u8,
    pub flush_id: u8,
    pub count: u16,
}

/// A packet: its length, checksum state and offsets, its headers, and
/// how much of its data is in the linear part.
pub struct sk_buff {
    pub ip_summed: u16,
    pub len: u32,
    pub headlen: u32,
    pub transport_header: u32,
    pub inner_transport_header: u32,
    pub csum_start: u32,
    pub csum_offset: u16,
    pub encapsulation: u8,
    pub iph: iphdr,
    pub th: tcphdr,
    pub shinfo: skb_shared_info,
    pub gro: napi_gro_cb,
    pub gro_offset: u32,
}

/// `a` comes before `b` in sequence space.
pub open spec fn before(a: u32, b: u32) -> bool {
    (a.wrapping_sub(b) as i32) < 0
}

fn seq_before(a: u32, b: u32) -> (r: bool)
    ensures
        r == before(a, b),
{
    (a.wrapping_sub(b) as i32) < 0
}

/// The segment `i` of a split packet starting at `seq` (each `mss` long)
/// ends past `ts_seq`.
pub open spec fn ends_past(ts_seq: u32, seq: u32, mss: u32, i: int) -> bool {
    before(ts_seq, seq_at(seq, mss, i + 1))
}

/// The sequence number `k` segments of `mss` bytes after `seq`.
pub open spec fn seq_at(seq: u32, mss: u32, k: int) -> u32 {
    ((seq + k * mss) % 0x1_0000_0000) as u32
}

/// Give the timestamp of byte `ts_seq` to the segment that carries it:
/// the first of `segs` (starting at `seq`, `mss` bytes each) that ends
/// past it is marked for a software timestamp with that key.
pub fn tcp_gso_tstamp(segs: &mut Vec<skb_shared_info>, ts_seq: u32, seq: u32, mss: u32)
    ensures
        final(segs)@.len() == old(segs)@.len(),
        forall|i: int| 0 <= i < old(segs)@.len() ==> #[trigger] final(segs)@[i] == if ends_past(ts_seq, seq, mss, i) && (forall|j: int| 0 <= j < i ==> !ends_past(ts_seq, seq, mss, j)) {
            skb_shared_info { tx_flags: old(segs)@[i].tx_flags | SKBTX_SW_TSTAMP, tskey: ts_seq, ..old(segs)@[i] }
        } else {
            old(segs)@[i]
        },
{
    let mut i: usize = 0;
    let mut cur: u32 = seq;
    while i < segs.len()
        invariant
            segs@ == old(segs)@,
            i <= segs@.len(),
            cur == seq_at(seq, mss, i as int),
            forall|j: int| 0 <= j < i ==> !ends_past(ts_seq, seq, mss, j),
        decreases segs@.len() - i,
    {
        let end = cur.wrapping_add(mss);
        proof {
            lemma_seq_step(seq, i as int, mss);
        }
        if seq_before(ts_seq, end) {
            let mut s = segs.remove(i);
            s.tx_flags = s.tx_flags | SKBTX_SW_TSTAMP;
            s.tskey = ts_seq;
            segs.insert(i, s);
            assert forall|k: int| 0 <= k < old(segs)@.len() implies #[trigger] segs@[k] == if ends_past(ts_seq, seq, mss, k) && (forall|j: int| 0 <= j < k ==> !ends_past(ts_seq, seq, mss, j)) {
                skb_shared_info { tx_flags: old(segs)@[k].tx_flags | SKBTX_SW_TSTAMP, tskey: ts_seq, ..old(segs)@[k] }
            } else {
                old(segs)@[k]
            } by {
                if k > i {
                    assert(!(forall|j: int| 0 <= j < k ==> !ends_past(ts_seq, seq, mss, j))) by {
                        assert(ends_past(ts_seq, seq, mss, i as int));
                    }
                }
            }
            return;
        }
        i = i + 1;
        cur = end;
    }
}

proof fn lemma_seq_step(seq: u32, i: int, mss: u32)
    requires
        i >= 0,
    ensures
        seq_at(seq, mss, i).wrapping_add(mss) == seq_at(seq, mss, i + 1),
{
    let m: int = 0x1_0000_0000;
    let a: int = seq + i * mss;
    assert(seq + (i + 1) * mss == a + mss) by (nonlinear_arith)
        requires
            a == seq + i * mss,
    ;
    vstd::arithmetic::div_mod::lemma_add_mod_noop(a, mss as int, m);
    vstd::arithmetic::div_mod::lemma_mod_bound(a, m);
    vstd::arithmetic::div_mod::lemma_mod_twice(mss as int, m);
    vstd::arithmetic::div_mod::lemma_small_mod(mss as nat, m as nat);
    let c: int = a % m;
    if c + mss >= m {
        vstd::arithmetic::div_mod::lemma_mod_sub_multiples_vanish(c + mss, m);
        vstd::arithmetic::div_mod::lemma_small_mod((c + mss - m) as nat, m as nat);
    } else {
        vstd::arithmetic::div_mod::lemma_small_mod((c + mss) as nat, m as nat);
    }
}

/// Prepare a TCP/IPv4 packet for segmentation: EINVAL unless it is marked
/// as TCP/IPv4 GSO and its TCP header can be pulled in (`may_pull`); a
/// packet without a partial checksum gets its checksum field set to the
/// pseudo-header checksum (`send_check`, as computed for its addresses and
/// length) and becomes partially checksummed. 0 when it may be segmented.
pub fn tcp4_gso_segment(skb: &mut sk_buff, may_pull: bool, send_check: u16) -> (r: i32)
    ensures
        (old(skb).shinfo.gso_type & SKB_GSO_TCPV4 == 0 || !may_pull) ==> r == EINVAL && *final(skb) == *old(skb),
        (old(skb).shinfo.gso_type & SKB_GSO_TCPV4 != 0 && may_pull) ==> r == 0 && *final(skb) == if old(skb).ip_summed != CHECKSUM_PARTIAL {
            sk_buff { ip_summed: CHECKSUM_PARTIAL, th: tcphdr { check: send_check, ..old(skb).th }, ..*old(skb) }
        } else {
            *old(skb)
        },
{
    if skb.shinfo.gso_type & SKB_GSO_TCPV4 == 0 {
        return EINVAL;
    }
    if !may_pull {
        return EINVAL;
    }
    if skb.ip_summed != CHECKSUM_PARTIAL {
        skb.ip_summed = CHECKSUM_PARTIAL;
        skb.th.check = send_check;
    }
    0
}

/// Try to merge a received packet into a held flow. The header must be
/// whole (`header_ok`: its bytes can be read) and at least the minimal TCP
/// header; then it is pulled past. No held packet is chosen and the
/// packet is marked to be flushed.
pub fn tcp_gro_receive(skb: &mut sk_buff, header_ok: bool) -> (r: Option<usize>)
    ensures
        r is None,
        final(skb).gro == (napi_gro_cb { flush: 1, ..old(skb).gro }),
        final(skb).gro_offset == if header_ok && old(skb).th.doff as u32 * 4 >= TCP_HDR_LEN && old(skb).gro_offset as int + old(skb).th.doff as u32 * 4 <= u32::MAX {
            (old(skb).gro_offset + old(skb).th.doff as u32 * 4) as u32
        } else {
            old(skb).gro_offset
        },
        *final(skb) == (sk_buff { gro: final(skb).gro, gro_offset: final(skb).gro_offset, ..*old(skb) }),
{
    let flush: u8 = 1;
    if header_ok {
        let thlen: u32 = (skb.th.doff as u32) * 4;
        if thlen >= TCP_HDR_LEN && skb.gro_offset <= u32::MAX - thlen {
            skb.gro_offset = skb.gro_offset + thlen;
        }
    }
    skb.gro.flush = flush;
    None
}

/// Finish a merged packet: its checksum is partial from the TCP header
/// on, it counts the merged segments, and carries congestion-window-reduced
/// as ECN segmentation; an encapsulated packet's inner transport header is
/// the TCP header.
pub open spec fn gro_completed(skb: sk_buff) -> sk_buff {
    sk_buff {
        csum_start: skb.transport_header,
        csum_offset: TCP_CHECK_OFFSET,
        ip_summed: CHECKSUM_PARTIAL,
        shinfo: skb_shared_info {
            gso_segs: skb.gro.count,
            gso_type: if skb.th.cwr != 0 { skb.shinfo.gso_type | SKB_GSO_TCP_ECN } else { skb.shinfo.gso_type },
            ..skb.shinfo
        },
        inner_transport_header: if skb.encapsulation != 0 { skb.transport_header } else { skb.inner_transport_header },
        ..skb
    }
}

pub fn tcp_gro_complete(skb: &mut sk_buff) -> (r: i32)
    ensures
        r == 0,
        *final(skb) == gro_completed(*old(skb)),
{
    skb.csum_start = skb.transport_header;
    skb.csum_offset = TCP_CHECK_OFFSET;
    skb.ip_summed = CHECKSUM_PARTIAL;
    skb.shinfo.gso_segs = skb.gro.count;
    if skb.th.cwr != 0 {
        skb.shinfo.gso_type = skb.shinfo.gso_type | SKB_GSO_TCP_ECN;
    }
    if skb.encapsulation != 0 {
        skb.inner_transport_header = skb.transport_header;
    }
    0
}

/// Finish a merged TCP/IPv4 packet: the checksum field holds the
/// complement of the pseudo-header checksum (`v4_check`, computed for its
/// addresses and TCP length), it is marked TCP/IPv4 (with fixed IDs when
/// the IDs did not change), then finished as any TCP packet.
pub fn tcp4_gro_complete(skb: &mut sk_buff, thoff: i32, v4_check: u16) -> (r: i32)
    ensures
        r == 0,
        *final(skb) == gro_completed(sk_buff {
            th: tcphdr { check: !v4_check, ..old(skb).th },
            shinfo: skb_shared_info {
                gso_type: if old(skb).gro.is_atomic != 0 {
                    old(skb).shinfo.gso_type | SKB_GSO_TCPV4 | SKB_GSO_TCP_FIXEDID
                } else {
                    old(skb).shinfo.gso_type | SKB_GSO_TCPV4
                },
                ..old(skb).shinfo
            },
            ..*old(skb)
        }),
{
    skb.th.check = !v4_check;
    skb.shinfo.gso_type = skb.shinfo.gso_type | SKB_GSO_TCPV4;
    if skb.gro.is_atomic != 0 {
        skb.shinfo.gso_type = skb.shinfo.gso_type | SKB_GSO_TCP_FIXEDID;
    }
    tcp_gro_complete(skb)
}

/// The offload handlers by protocol (by their identity).
pub struct inet_offloads {
    pub table: Vec<Option<u64>>,
}

/// Install the TCP offload handlers (`ops`) for protocol 6 unless some are
/// installed already; 0 either way.
pub fn tcpv4_offload_init(offloads: &mut inet_offloads, ops: u64) -> (r: i32)
    requires
        old(offloads).table@.len() > IPPROTO_TCP,
    ensures
        r == 0,
        final(offloads).table@ == if old(offloads).table@[IPPROTO_TCP as int] is None {
            old(offloads).table@.update(IPPROTO_TCP as int, Some(ops))
        } else {
            old(offloads).table@
        },
{
    if offloads.table[IPPROTO_TCP].is_none() {
        offloads.table.set(IPPROTO_TCP, Some(ops));
    }
    0
}

} // verus!
