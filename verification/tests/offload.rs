use lib::tcp_offload::{
    iphdr, napi_gro_cb, sk_buff, skb_shared_info, tcp4_gro_complete, tcp4_gso_segment, tcp_gro_complete,
    tcp_gro_receive, tcp_gso_tstamp, tcphdr, tcpv4_offload_init, inet_offloads, CHECKSUM_PARTIAL, EINVAL,
    SKBTX_SW_TSTAMP, SKB_GSO_TCPV4, SKB_GSO_TCP_ECN, SKB_GSO_TCP_FIXEDID, TCP_CHECK_OFFSET,
};

fn shinfo() -> skb_shared_info {
    skb_shared_info { gso_type: 0, gso_size: 0, gso_segs: 0, tx_flags: 0, tskey: 0 }
}

fn skb() -> sk_buff {
    sk_buff {
        ip_summed: 0,
        len: 3000,
        headlen: 100,
        transport_header: 34,
        inner_transport_header: 0,
        csum_start: 0,
        csum_offset: 0,
        encapsulation: 0,
        iph: iphdr { saddr: 1, daddr: 2 },
        th: tcphdr { source: 80, seq: 1, ack_seq: 2, doff: 5, cwr: 0, check: 0xaaaa },
        shinfo: shinfo(),
        gro: napi_gro_cb { same_flow: 0, flush: 0, is_atomic: 0, flush_id: 0, count: 3 },
        gro_offset: 34,
    }
}

#[test]
fn timestamp_goes_to_the_right_segment() {
    let mut segs = vec![shinfo(), shinfo(), shinfo()];
    tcp_gso_tstamp(&mut segs, 2500, 1000, 1000);
    assert_eq!(segs[0].tx_flags, 0);
    assert_eq!(segs[1].tx_flags, SKBTX_SW_TSTAMP);
    assert_eq!(segs[1].tskey, 2500);
    assert_eq!(segs[2].tx_flags, 0);
    // across the sequence wrap
    let mut segs = vec![shinfo(), shinfo()];
    tcp_gso_tstamp(&mut segs, 10, 0xffff_ff00, 0x100);
    assert_eq!(segs[1].tskey, 10);
    // past every segment: nothing marked
    let mut segs = vec![shinfo()];
    tcp_gso_tstamp(&mut segs, 5000, 1000, 1000);
    assert_eq!(segs[0].tx_flags, 0);
}

#[test]
fn gso_preparation() {
    let mut s = skb();
    assert_eq!(tcp4_gso_segment(&mut s, true, 0x1234), EINVAL);
    s.shinfo.gso_type = SKB_GSO_TCPV4;
    assert_eq!(tcp4_gso_segment(&mut s, false, 0x1234), EINVAL);
    assert_eq!(tcp4_gso_segment(&mut s, true, 0x1234), 0);
    assert_eq!(s.ip_summed, CHECKSUM_PARTIAL);
    assert_eq!(s.th.check, 0x1234);
    assert_eq!(tcp4_gso_segment(&mut s, true, 0x9999), 0);
    assert_eq!(s.th.check, 0x1234);
}

#[test]
fn gro_receive_pulls_the_header_and_flushes() {
    let mut s = skb();
    assert_eq!(tcp_gro_receive(&mut s, true), None);
    assert_eq!(s.gro_offset, 54);
    assert_eq!(s.gro.flush, 1);
    let mut s = skb();
    s.th.doff = 4;
    tcp_gro_receive(&mut s, true);
    assert_eq!(s.gro_offset, 34);
    assert_eq!(s.gro.flush, 1);
}

#[test]
fn gro_completion() {
    let mut s = skb();
    s.th.cwr = 1;
    s.encapsulation = 1;
    assert_eq!(tcp_gro_complete(&mut s), 0);
    assert_eq!(s.csum_start, 34);
    assert_eq!(s.csum_offset, TCP_CHECK_OFFSET);
    assert_eq!(s.shinfo.gso_segs, 3);
    assert_eq!(s.shinfo.gso_type, SKB_GSO_TCP_ECN);
    assert_eq!(s.inner_transport_header, 34);

    let mut s = skb();
    s.gro.is_atomic = 1;
    assert_eq!(tcp4_gro_complete(&mut s, 20, 0x00ff), 0);
    assert_eq!(s.th.check, 0xff00);
    assert_eq!(s.shinfo.gso_type, SKB_GSO_TCPV4 | SKB_GSO_TCP_FIXEDID);
    assert_eq!(s.ip_summed, CHECKSUM_PARTIAL);
}

#[test]
fn offload_registration() {
    let mut o = inet_offloads { table: vec![None; 256] };
    assert_eq!(tcpv4_offload_init(&mut o, 7), 0);
    assert_eq!(o.table[6], Some(7));
    assert_eq!(tcpv4_offload_init(&mut o, 9), 0);
    assert_eq!(o.table[6], Some(7));
}
