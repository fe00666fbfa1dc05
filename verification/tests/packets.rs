use lib::fou::{fou, fou_udp_recv, gue_udp_recv, validate_gue_flags};
use lib::gre_demux::{
    gre_add_protocol, gre_del_protocol, gre_err, gre_parse_header, gre_protocol, gre_rcv, gre_registry, tnl_ptk_info,
    GreVerdict, EBUSY, EINVAL, ENOSYS,
};
use lib::inet_diag::{
    inet_diag_msg, inet_diag_msg_attrs_fill, inet_diag_msg_common_fill, inet_diag_msg_id, inet_diag_sockopt,
    inet_sk_diag_fill, mutex, sock, diag_env,
};
use lib::ip_forward::{ip_exceeds_mtu, ip_forward, ip_forward_finish, fwd_packet, iphdr, mtu_probe, FwdVerdict};
use lib::ip_options::{__ip_options_echo, ip_options, ip_options_build, ip_options_fragment, IPOPT_COPIED, EINVAL as OPT_EINVAL};
use lib::ipconfig::{
    get_random_bytes, ic_carrier_after_sleep, ic_carrier_check, ic_carrier_wait_start, ic_loopback_requests, net_device,
    strcmp, strncmp,
};
use lib::netfilter::{ip_route_me_harder, ip_route_me_harder_finish, ip_route_me_harder_flow, nf_ip_route, route_result, sock_info, HH_DATA_ALIGN, RT_TOS};

fn probe(len: i32, frag_off: u16) -> mtu_probe {
    mtu_probe {
        len,
        iph: iphdr { frag_off, ttl: 64, tos: 0 },
        frag_max_size: 0,
        ignore_df: false,
        is_gso: false,
        gso_fits: false,
    }
}

#[test]
fn test_ip_exceeds_mtu() {
    assert!(!ip_exceeds_mtu(&probe(1400, 0x4000), 1500));
    assert!(ip_exceeds_mtu(&probe(1600, 0x4000), 1500));
    // Without DF the packet is fragmented instead.
    assert!(!ip_exceeds_mtu(&probe(1600, 0), 1500));
    let mut p = probe(1600, 0x4000);
    p.ignore_df = true;
    assert!(!ip_exceeds_mtu(&p, 1500));
    p.frag_max_size = 1700;
    assert!(ip_exceeds_mtu(&p, 1500));
    let mut g = probe(3000, 0x4000);
    g.is_gso = true;
    g.gso_fits = true;
    assert!(!ip_exceeds_mtu(&g, 1500));
}

fn fwd(ttl: u8) -> fwd_packet {
    let mut p = probe(1000, 0x4000);
    p.iph.ttl = ttl;
    fwd_packet {
        pkt_type: 0,
        has_sk: false,
        lro: false,
        xfrm_policy_ok: true,
        router_alert: false,
        ra_chain_took: false,
        xfrm_route_ok: true,
        is_strictroute: false,
        rt_uses_gateway: false,
        mtu: 1500,
        probe: p,
        cow_ok: true,
        flags: 0x2,
        srr: false,
        sec_path: false,
        update_priority: true,
    }
}

#[test]
fn ip_forward_decisions() {
    match ip_forward(&fwd(64)) {
        FwdVerdict::Forward { ttl, flags, send_redirect, set_priority } => {
            assert_eq!(ttl, 63);
            assert_eq!(flags, 0x3);
            assert!(send_redirect);
            assert!(set_priority);
        }
        _ => panic!("expected forward"),
    }
    assert!(matches!(ip_forward(&fwd(1)), FwdVerdict::ErrorDrop { kind: 11, code: 0, info: 0 }));
    let mut sr = fwd(64);
    sr.is_strictroute = true;
    sr.rt_uses_gateway = true;
    assert!(matches!(ip_forward(&sr), FwdVerdict::ErrorDrop { kind: 3, code: 5, info: 0 }));
    let mut big = fwd(64);
    big.probe.len = 2000;
    assert!(matches!(ip_forward(&big), FwdVerdict::ErrorDrop { kind: 3, code: 4, info: 1500 }));
    let mut other = fwd(64);
    other.pkt_type = 3;
    assert!(matches!(ip_forward(&other), FwdVerdict::Drop));
    let mut ra = fwd(64);
    ra.router_alert = true;
    ra.ra_chain_took = true;
    assert!(matches!(ip_forward(&ra), FwdVerdict::Delivered));
    assert_eq!(ip_forward_finish(4, false, 7), (7, true));
    assert_eq!(ip_forward_finish(4, true, 7), (0, false));
}

fn rr_options() -> ip_options {
    ip_options {
        optlen: 8,
        __data: vec![7, 7, 8, 0, 0, 0, 0, 1],
        faddr: 0,
        srr: 0,
        rr: 20,
        ts: 0,
        cipso: 0,
        is_strictroute: 0,
        rr_needaddr: 1,
        ts_needaddr: 0,
        ts_needtime: 0,
    }
}

#[test]
fn test_ip_options_build() {
    let mut hdr = vec![0u8; 28];
    let mut cb = blank_options();
    assert!(ip_options_build(&mut hdr, &mut cb, &rr_options(), 0, 0xc0a8_0101, 0, false));
    assert_eq!(&hdr[20..23], &[7, 7, 8]);
    assert_eq!(&hdr[23..27], &[0xc0, 0xa8, 0x01, 0x01]);
    assert_eq!(hdr[27], 1);

    // A fragment does not record the route.
    let mut frag = vec![0u8; 28];
    assert!(ip_options_build(&mut frag, &mut cb, &rr_options(), 0, 0xc0a8_0101, 0, true));
    assert_eq!(&frag[23..27], &[0, 0, 0, 0]);

    // Options that do not fit are refused.
    let mut small = vec![0u8; 24];
    assert!(!ip_options_build(&mut small, &mut cb, &rr_options(), 0, 1, 0, false));
    // the packet's control block holds the options whatever happened
    assert_eq!((cb.optlen, cb.rr, cb.rr_needaddr), (8, 20, 1));
    assert_eq!(cb.__data, rr_options().__data);
}

#[test]
fn test_strcmp() {
    assert_eq!(strcmp(&b"hello\0".to_vec(), &b"hello\0".to_vec()), 0);
    assert_ne!(strcmp(&b"hello\0".to_vec(), &b"world\0".to_vec()), 0);
    assert_eq!(strcmp(&b"abc\0".to_vec(), &b"abd\0".to_vec()), 255);
}

#[test]
fn test_strncmp() {
    assert_eq!(strncmp(&b"hello\0".to_vec(), &b"hello\0".to_vec(), 5), 0);
    assert_ne!(strncmp(&b"hello\0".to_vec(), &b"world\0".to_vec(), 5), 0);
    assert_eq!(strncmp(&b"hello\0".to_vec(), &b"help\0".to_vec(), 3), 0);
}

fn gre_pkt(flags: u16, proto: u16, rest: &[u8]) -> Vec<u8> {
    let mut v = vec![(flags >> 8) as u8, flags as u8, (proto >> 8) as u8, proto as u8];
    v.extend_from_slice(rest);
    v
}

fn no_info() -> tnl_ptk_info {
    tnl_ptk_info { flags: 0, key: 0, seq: 0, proto: 0, hdr_len: 0 }
}

#[test]
fn gre_parse_header_fields() {
    let pkt = gre_pkt(0x0002 | 0x0004, 0x0800, &[0, 0, 0, 42, 0, 0, 1, 0]);
    let mut tpi = no_info();
    let mut csum_err = false;
    assert_eq!(gre_parse_header(&pkt, &mut tpi, &mut csum_err, true, 0, 0, true), 12);
    assert_eq!(tpi.key, 42);
    assert_eq!(tpi.seq, 256);
    assert_eq!(tpi.proto, 0x0800);
    assert_eq!(tpi.flags, 0x04 | 0x08);
    assert_eq!(tpi.hdr_len, 12);

    // Flags 0x8000 and 0x0080 are refused, as is a truncated header.
    let mut t2 = no_info();
    assert_eq!(gre_parse_header(&gre_pkt(0x0080, 0x0800, &[]), &mut t2, &mut csum_err, true, 0, 0, true), EINVAL);
    assert_eq!(gre_parse_header(&gre_pkt(0x8000, 0x0800, &[]), &mut t2, &mut csum_err, true, 0, 0, true), EINVAL);
    assert_eq!(gre_parse_header(&gre_pkt(0x0002, 0x0800, &[0]), &mut t2, &mut csum_err, true, 0, 0, true), EINVAL);
    assert_eq!(gre_parse_header(&gre_pkt(0x0000, 0x0800, &[]), &mut t2, &mut csum_err, true, 0, 0, true), 4);

    // A bad checksum is reported only when asked for.
    let c = gre_pkt(0x0001, 0x0800, &[0, 0, 0, 0]);
    let mut err = false;
    assert_eq!(gre_parse_header(&c, &mut t2, &mut err, true, 0, 0, false), EINVAL);
    assert!(err);
    let mut err2 = false;
    assert_eq!(gre_parse_header(&c, &mut t2, &mut err2, false, 0, 0, false), 8);
    assert!(!err2);

    // WCCP: the caller's protocol, and four more bytes unless IPv4 follows.
    let w = gre_pkt(0, 0x204C, &[0x00, 0, 0, 0, 0x45]);
    let mut tw = no_info();
    assert_eq!(gre_parse_header(&w, &mut tw, &mut err2, true, 0x0800, 0, true), 8);
    assert_eq!(tw.proto, 0x0800);
    let w4 = gre_pkt(0, 0x204C, &[0x45]);
    assert_eq!(gre_parse_header(&w4, &mut tw, &mut err2, true, 0x0800, 0, true), 4);
}

#[test]
fn gre_registry_dispatch() {
    let mut reg = gre_registry::new();
    let p = gre_protocol { handler: 1, err_handler: 2 };
    let q = gre_protocol { handler: 3, err_handler: 4 };
    assert_eq!(gre_add_protocol(&mut reg, p, 16), EINVAL);
    assert_eq!(gre_add_protocol(&mut reg, p, 0), 0);
    assert_eq!(gre_add_protocol(&mut reg, q, 0), EBUSY);
    assert_eq!(gre_del_protocol(&mut reg, q, 0), EBUSY);

    let pkt = vec![0u8; 12];
    assert!(matches!(gre_rcv(&reg, &pkt), GreVerdict::Deliver(1)));
    let mut v1 = vec![0u8; 12];
    v1[1] = 1;
    assert!(matches!(gre_rcv(&reg, &v1), GreVerdict::Drop));
    assert!(matches!(gre_rcv(&reg, &vec![0u8; 4]), GreVerdict::Drop));

    let mut quoted = vec![0x45u8];
    quoted.extend_from_slice(&[0u8; 24]);
    assert_eq!(gre_err(&reg, &quoted), (0, Some(2)));
    quoted[21] = 1;
    assert_eq!(gre_err(&reg, &quoted), (ENOSYS, None));

    assert_eq!(gre_del_protocol(&mut reg, p, 0), 0);
    assert!(matches!(gre_rcv(&reg, &pkt), GreVerdict::Drop));
    assert_eq!(gre_add_protocol(&mut reg, q, 0), 0);
}

fn gue_fou() -> fou {
    fou { protocol: 0, flags: 0, port: 6080, family: 2, type_: 2 }
}

#[test]
fn gue_receive_paths() {
    let f = gue_fou();
    // Version 0 header without options, carrying protocol 47.
    let mut pkt = vec![0u8; 8];
    pkt.extend_from_slice(&[0x00, 47, 0, 0]);
    pkt.extend_from_slice(&[0u8; 20]);
    let mut outer: u16 = 100;
    assert_eq!(gue_udp_recv(Some(&f), &pkt, &mut outer, true, 0), -47);
    assert_eq!(outer, 88);

    // Direct IPv4 encapsulation (version 1, IP version nibble 4).
    let mut ip4 = vec![0u8; 8];
    ip4.extend_from_slice(&[0x45, 0, 0, 0]);
    let mut o2: u16 = 100;
    assert_eq!(gue_udp_recv(Some(&f), &ip4, &mut o2, true, 0), -4);
    // handed on as it is: nothing is stripped, whatever the offloads say
    assert_eq!(o2, 100);
    assert_eq!(gue_udp_recv(Some(&f), &ip4, &mut o2, true, -1), -4);

    // Control messages are consumed; unknown versions dropped; no socket: plain UDP.
    let mut ctl = vec![0u8; 8];
    ctl.extend_from_slice(&[0x20, 47, 0, 0]);
    let mut o3: u16 = 100;
    assert_eq!(gue_udp_recv(Some(&f), &ctl, &mut o3, true, 0), 0);
    let mut v2 = vec![0u8; 8];
    v2.extend_from_slice(&[0x80, 47, 0, 0]);
    let mut o4: u16 = 100;
    assert_eq!(gue_udp_recv(Some(&f), &v2, &mut o4, true, 0), 0);
    assert_eq!(o4, 100);
    let mut o5: u16 = 100;
    assert_eq!(gue_udp_recv(None, &v2, &mut o5, true, 0), 1);

    // Private flags need room in the options.
    let mut privf = vec![0u8; 8];
    privf.extend_from_slice(&[0x00, 47, 0, 1]);
    privf.extend_from_slice(&[0u8; 8]);
    assert!(validate_gue_flags(&privf, 0));
    assert!(!validate_gue_flags(&privf, 4));

    let mut o6: u16 = 50;
    assert_eq!(fou_udp_recv(Some(&gue_fou()), &mut o6, 0), 0);
    assert_eq!(o6, 42);
    let mut o7: u16 = 50;
    let f17 = fou { protocol: 17, ..gue_fou() };
    assert_eq!(fou_udp_recv(Some(&f17), &mut o7, 0), -17);
    assert_eq!(fou_udp_recv(Some(&f17), &mut o7, -1), 0);
}

#[test]
fn netfilter_reroute() {
    assert_eq!(HH_DATA_ALIGN(13), 14);
    assert_eq!(HH_DATA_ALIGN(14), 14);
    assert_eq!(RT_TOS(0xff), 0x1e);
    let iph = lib::netfilter::iphdr { saddr: 1, daddr: 2, tos: 0x10 };
    let fl = ip_route_me_harder_flow(&iph, None, 7, 9);
    assert_eq!((fl.daddr, fl.saddr, fl.flowi4_tos, fl.flowi4_oif, fl.flowi4_mark, fl.flowi4_flags), (2, 1, 0x10, 7, 9, 0));
    let si = sock_info { sk_bound_dev_if: 3, flowi_flags: 1 };
    let fl2 = ip_route_me_harder_flow(&iph, Some(&si), 7, 9);
    assert_eq!((fl2.flowi4_oif, fl2.flowi4_flags), (3, 1));

    let ok = route_result::Found { error: 0, hard_header_len: 14 };
    let r = ip_route_me_harder_finish(&ok, false, &ok, 16, true);
    assert_eq!((r.err, r.expand_by), (0, None));
    let r = ip_route_me_harder_finish(&ok, false, &ok, 9, true);
    assert_eq!((r.err, r.expand_by), (0, Some(6)));
    let r = ip_route_me_harder_finish(&ok, false, &ok, 9, false);
    assert_eq!(r.err, -12);
    let r = ip_route_me_harder_finish(&route_result::Failed(-113), false, &ok, 0, true);
    assert_eq!(r.err, -113);
    let r = ip_route_me_harder_finish(&ok, true, &route_result::Failed(-1), 0, true);
    assert_eq!(r.err, -1);
    assert_eq!(nf_ip_route(&ok), 0);

    // the whole re-route: the flow asked for and the route the packet keeps
    let r = ip_route_me_harder(&iph, Some(&si), 7, 9, &ok, false, &ok, 9, true);
    assert_eq!((r.fl4.daddr, r.fl4.flowi4_tos, r.fl4.flowi4_mark, r.fl4.flowi4_oif), (2, 0x10, 9, 3));
    assert_eq!((r.done.err, r.done.expand_by), (0, Some(6)));
    assert!(matches!(r.dst, Some(route_result::Found { error: 0, hard_header_len: 14 })));
    let ipsec = route_result::Found { error: 0, hard_header_len: 20 };
    let r = ip_route_me_harder(&iph, None, 7, 9, &ok, true, &ipsec, 30, true);
    assert!(matches!(r.dst, Some(route_result::Found { error: 0, hard_header_len: 20 })));
    let r = ip_route_me_harder(&iph, None, 7, 9, &route_result::Failed(-113), false, &ok, 0, true);
    assert_eq!(r.done.err, -113);
    assert!(r.dst.is_none());
}

fn diag_sock() -> sock {
    sock {
        sk_family: 2,
        sk_num: 80,
        sk_dport: 1234,
        sk_bound_dev_if: 1,
        sk_rcv_saddr: 10,
        sk_daddr: 20,
        sk_mark: 0x0102_0304,
        sk_state: 1,
        sk_shutdown: 3,
        sk_priority: 6,
        sk_wmem_queued: 0,
        sk_forward_alloc: 0,
        sk_type: 3,
        sk_protocol: 255,
        tos: 0x10,
        opts: inet_diag_sockopt {
            recverr: 0,
            is_icsk: 1,
            freebind: 0,
            hdrincl: 0,
            mc_loop: 1,
            transparent: 0,
            mc_all: 1,
            nodefrag: 0,
            bind_address_no_port: 0,
            recverr_rfc4884: 0,
            defer_connect: 0,
        },
    }
}

fn zero_msg() -> inet_diag_msg {
    inet_diag_msg {
        idiag_family: 0,
        idiag_state: 0,
        idiag_timer: 0,
        idiag_retrans: 0,
        id: inet_diag_msg_id {
            idiag_sport: 0,
            idiag_dport: 0,
            idiag_if: 0,
            idiag_cookie: [0; 2],
            idiag_src: [0; 4],
            idiag_dst: [0; 4],
        },
        idiag_inode: 0,
        idiag_uid: 0,
    }
}

#[test]
fn test_inet_diag_msg_common_fill() {
    let mut msg = zero_msg();
    inet_diag_msg_common_fill(&mut msg, None);
    assert_eq!(msg.idiag_family, 0);
    assert_eq!(msg.id.idiag_sport, 0);
    let s = diag_sock();
    inet_diag_msg_common_fill(&mut msg, Some(&s));
    assert_eq!(msg.idiag_family, 2);
    assert_eq!((msg.id.idiag_sport, msg.id.idiag_dport, msg.id.idiag_if), (80, 1234, 1));
    assert_eq!(msg.id.idiag_src, [10, 0, 0, 0]);
    assert_eq!(msg.id.idiag_dst, [20, 0, 0, 0]);
    let _m = mutex::new();
}

#[test]
fn inet_diag_attributes() {
    let s = diag_sock();
    let mut skb: Vec<u8> = Vec::new();
    let mut msg = zero_msg();
    assert_eq!(inet_diag_msg_attrs_fill(&s, &mut skb, &mut msg, 0x2, 1000, 55, true), 0);
    assert_eq!(msg.idiag_uid, 1000);
    assert_eq!(msg.idiag_inode, 55);
    let expected: Vec<u8> = vec![
        5, 0, 1, 0, 3, 0, 0, 0, // shutdown
        5, 0, 2, 0, 0x10, 0, 0, 0, // tos
        8, 0, 4, 0, 4, 3, 2, 1, // mark
        8, 0, 5, 0, 6, 0, 0, 0, // class id
        15, 0, 7, 0, 0, 1, 0, 0, 1, 0, 1, 0, 0, 0, 0, 0, // socket options
    ];
    assert_eq!(skb, expected);

    let mut skb2: Vec<u8> = Vec::new();
    let mut msg2 = zero_msg();
    let env = diag_env { msg_ok: true, rmem_alloc: 1, wmem_alloc: 2 };
    assert_eq!(inet_sk_diag_fill(&s, &mut skb2, &mut msg2, 0, 0, 0, false, &env), 0);
    assert_eq!(msg2.idiag_state, 1);
    // shutdown, class id, sockopt, then the protocol of the raw socket.
    assert_eq!(skb2.len(), 8 + 8 + 16 + 8);
    assert_eq!(&skb2[32..], &[5, 0, 9, 0, 255, 0, 0, 0]);
    let bad = diag_env { msg_ok: false, rmem_alloc: 1, wmem_alloc: 2 };
    let mut skb3: Vec<u8> = Vec::new();
    assert_eq!(inet_sk_diag_fill(&s, &mut skb3, &mut msg2, 0x80, 0, 0, false, &bad), -90);
    assert!(skb3.is_empty());
}

fn blank_options() -> ip_options {
    ip_options {
        optlen: 0,
        __data: vec![0; 40],
        faddr: 0,
        srr: 0,
        rr: 0,
        ts: 0,
        cipso: 0,
        is_strictroute: 0,
        rr_needaddr: 0,
        ts_needaddr: 0,
        ts_needtime: 0,
    }
}

#[test]
fn options_echo_without_options_clears_everything() {
    let mut stale = rr_options();
    stale.srr = 24;
    stale.faddr = 0x0a00_0001;
    let hdr = vec![0u8; 20];
    assert_eq!(__ip_options_echo(&mut stale, &hdr, &blank_options()), 0);
    assert_eq!((stale.optlen, stale.rr, stale.ts, stale.srr, stale.faddr), (0, 0, 0, 0, 0));
    assert_eq!((stale.rr_needaddr, stale.ts_needaddr, stale.ts_needtime, stale.is_strictroute), (0, 0, 0, 0));
    assert_eq!(stale.__data, vec![0u8; 40]);
}

#[test]
fn options_echo_copies_record_route() {
    let mut hdr = vec![0u8; 20];
    hdr.extend_from_slice(&[7, 7, 4, 0, 0, 0, 0, 0]);
    let mut sopt = blank_options();
    sopt.optlen = 8;
    sopt.rr = 20;
    sopt.rr_needaddr = 1;
    let mut d = blank_options();
    assert_eq!(__ip_options_echo(&mut d, &hdr, &sopt), 0);
    assert_eq!((d.optlen, d.rr, d.rr_needaddr), (8, 20, 1));
    assert_eq!(&d.__data[..8], &[7, 7, 8, 0, 0, 0, 0, 0]);
    // no room left for the address: refused
    let mut short = vec![0u8; 20];
    short.extend_from_slice(&[7, 6, 4, 0, 0, 0, 0, 0]);
    assert_eq!(__ip_options_echo(&mut d, &short, &sopt), OPT_EINVAL);
}

#[test]
fn options_fragment_blanks_uncopied_options() {
    assert!(IPOPT_COPIED(0x25));
    assert!(!IPOPT_COPIED(0x07));
    let mut area = vec![0x07, 3, 4, 0x25, 3, 9, 0, 0];
    let mut opt = rr_options();
    opt.ts = 24;
    ip_options_fragment(&mut area, &mut opt);
    assert_eq!(area, vec![1, 1, 1, 0x25, 3, 9, 0, 0]);
    assert_eq!(opt.optlen, 8);
    // the walk stopped at the end-of-list byte: bookkeeping stays
    assert_eq!((opt.rr, opt.ts), (20, 24));
    let mut area2 = vec![0x07, 4, 4, 0, 0x25, 4, 5, 0];
    let mut opt2 = rr_options();
    ip_options_fragment(&mut area2, &mut opt2);
    assert_eq!(area2, vec![1, 1, 1, 1, 0x25, 4, 5, 0]);
    assert_eq!((opt2.rr, opt2.rr_needaddr), (0, 0));
}

#[test]
fn random_bytes_fill_the_requested_length() {
    let mut seed: u32 = 123456789;
    seed ^= seed << 13;
    seed ^= seed >> 17;
    seed ^= seed << 5;
    let b = get_random_bytes(4);
    assert_eq!(b, seed.to_le_bytes().to_vec());
    let b6 = get_random_bytes(6);
    assert_eq!(b6.len(), 6);
    assert_eq!(&b6[..4], &b[..]);
    assert!(get_random_bytes(0).is_empty());
}

#[test]
fn carrier_wait_steps() {
    let mut w = ic_carrier_wait_start(1000, 120);
    assert_eq!((w.start, w.timeout_ms, w.next_msg), (1000, 120_000, 21_000));
    // no carrier yet, time left: keep waiting
    assert!(!ic_carrier_check(&w, 1500, false));
    // a carrier ends the wait, as does the end of the time
    assert!(ic_carrier_check(&w, 1500, true));
    assert!(ic_carrier_check(&w, 121_000, false));
    // before the message is due nothing is reported
    assert_eq!(ic_carrier_after_sleep(&mut w, 20_999), None);
    assert_eq!(w.next_msg, 21_000);
    // 20 s in: 100 s left to report, next message 20 s later
    assert_eq!(ic_carrier_after_sleep(&mut w, 21_000), Some(100));
    assert_eq!(w.next_msg, 41_000);
    // past the end the rounded count goes negative towards zero
    let mut late = ic_carrier_wait_start(0, 1);
    assert_eq!(ic_carrier_after_sleep(&mut late, 30_000), Some(-28));
}

#[test]
fn loopback_devices_are_brought_up_first() {
    let devs = vec![
        net_device { flags: 0x2, name: b"eth0".to_vec(), mtu: 1500 },
        net_device { flags: 0x10 | 0x8, name: b"lo".to_vec(), mtu: 65536 },
    ];
    assert_eq!(ic_loopback_requests(&devs), vec![(1, 0x10 | 0x8 | 0x1)]);
}
