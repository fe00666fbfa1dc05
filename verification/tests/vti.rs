use lib::ip_tunnel::{ip_tunnel, ip_tunnel_add, ip_tunnel_net, net_device, tunnel_ref};
use lib::ip_vti::{
    vti_dev_stats, vti_input, vti_input_proto, vti_rcv, vti_rcv_cb, vti_rcv_proto, vti_rx_skb, vti_state_check,
    vti_tunnel_xmit, vti_tx_skb, vti_xmit, xfrm_input_info, xfrm_state, VtiXmit, EINVAL, EPERM,
};
use lib::ipip::{in_addr, ip_tunnel_parm, iphdr};

fn table_with_tunnel() -> ip_tunnel_net {
    let mut tunnels = Vec::new();
    for _ in 0..256 {
        tunnels.push(Vec::new());
    }
    let mut itn = ip_tunnel_net { tunnels, collect_md_tun: None, fb_tunnel_dev: None };
    let iph = iphdr {
        version: 4,
        ihl: 5,
        tos: 0,
        tot_len: 0,
        id: 0,
        frag_off: 0,
        ttl: 64,
        protocol: 50,
        check: 0,
        saddr: in_addr { s_addr: 0x0a00_0001 },
        daddr: in_addr { s_addr: 0x0a00_0002 },
    };
    let t = ip_tunnel {
        dev: Some(net_device { flags: 1 }),
        params: ip_tunnel_parm { iph, link: 3, i_key: 0, o_key: 9, i_flags: 0, o_flags: 0 },
        hlen: 0,
        i_seqno: 0,
        collect_md: false,
        err_count: 0,
        err_time: 0,
    };
    ip_tunnel_add(&mut itn, t);
    itn
}

#[test]
fn vti_receive_finds_tunnel() {
    let itn = table_with_tunnel();
    // the packet comes from the tunnel's remote end to its local end
    let r = vti_input(&itn, 3, 0x0a00_0002, 0x0a00_0001, true, true, 5);
    assert_eq!(r.ret, 5);
    assert!(matches!(r.tunnel, Some(tunnel_ref::Hashed { bucket: 0x0a, index: 0 })));
    assert!(r.set_dev);
    assert_eq!(vti_input(&itn, 3, 0x0a00_0002, 0x0a00_0001, false, true, 5).ret, 0);
    assert_eq!(vti_input(&itn, 3, 0x0b00_0002, 0x0a00_0001, true, true, 5).ret, -EINVAL);
    assert!(!vti_input_proto(&itn, 3, 0x0a00_0002, 0x0a00_0001, true, 5).set_dev);
    assert_eq!(vti_rcv(&itn, 3, 0x0a00_0002, 0x0a00_0001, true, false, 6).ret, 6);
    assert_eq!(vti_rcv_proto(&itn, 3, 0x0a00_0002, 0x0a00_0001, true, 6).ret, 6);
}

fn stats() -> vti_dev_stats {
    vti_dev_stats { rx_packets: 0, rx_bytes: 0, rx_errors: 0, rx_dropped: 0, tx_errors: 0 }
}

#[test]
fn vti_after_decryption() {
    let x = xfrm_input_info { sel_family: 2, inner_family: 2, proto_mode_family: None };
    let mut skb = vti_rx_skb { len: 100, mark: 4, scrubbed: false, on_tunnel_dev: false };
    let mut none: Option<vti_dev_stats> = None;
    assert_eq!(vti_rcv_cb(&mut none, &mut skb, 0, &x, true), 1);
    let mut dev = Some(stats());
    assert_eq!(vti_rcv_cb(&mut dev, &mut skb, -5, &x, true), 0);
    assert_eq!(dev.as_ref().unwrap().rx_errors, 1);
    assert_eq!(dev.as_ref().unwrap().rx_dropped, 1);
    let open = xfrm_input_info { sel_family: 0, inner_family: 2, proto_mode_family: None };
    assert_eq!(vti_rcv_cb(&mut dev, &mut skb, 0, &open, true), -EINVAL);
    assert_eq!(vti_rcv_cb(&mut dev, &mut skb, 0, &x, false), -EPERM);
    assert_eq!(vti_rcv_cb(&mut dev, &mut skb, 0, &x, true), 0);
    assert!(skb.scrubbed && skb.on_tunnel_dev);
    assert_eq!(skb.mark, 4);
    assert_eq!((dev.as_ref().unwrap().rx_packets, dev.as_ref().unwrap().rx_bytes), (1, 100));
}

#[test]
fn vti_state_matching() {
    let x = xfrm_state { mode: 1, family: 2, id_daddr: 7, props_saddr: 8 };
    assert!(vti_state_check(Some(&x), 7, 8));
    assert!(vti_state_check(Some(&x), 7, 0));
    assert!(!vti_state_check(Some(&x), 6, 8));
    assert!(vti_state_check(Some(&x), 0, 8));
    assert!(!vti_state_check(Some(&x), 0, 9));
    assert!(!vti_state_check(None, 7, 8));
    let transport = xfrm_state { mode: 0, family: 2, id_daddr: 7, props_saddr: 8 };
    assert!(!vti_state_check(Some(&transport), 7, 8));
}

#[test]
fn vti_transmit() {
    let mut dev = stats();
    let small = vti_tx_skb { len: 1000, protocol: 0x0800, frag_off: 0x4000 };
    assert_eq!(vti_xmit(&mut dev, &small, 1400, 3), (0, VtiXmit::Sent { err: 3 }));
    let big_df = vti_tx_skb { len: 1500, protocol: 0x0800, frag_off: 0x4000 };
    assert_eq!(vti_xmit(&mut dev, &big_df, 1400, 3), (0, VtiXmit::TooBig { v6: false, kind: 3, code: 4, mtu: 1400 }));
    assert_eq!(dev.tx_errors, 1);
    let big = vti_tx_skb { len: 1500, protocol: 0x0800, frag_off: 0 };
    assert_eq!(vti_xmit(&mut dev, &big, 1400, 3), (0, VtiXmit::Sent { err: 3 }));
    let big6 = vti_tx_skb { len: 1500, protocol: 0x86dd, frag_off: 0 };
    assert_eq!(vti_xmit(&mut dev, &big6, 1000, 3), (0, VtiXmit::TooBig { v6: true, kind: 4, code: 0, mtu: 1280 }));
    assert_eq!(vti_tunnel_xmit(&mut dev, 9, &small, true, 1400, 0), (0, VtiXmit::Sent { err: 0 }, 9));
    let arp = vti_tx_skb { len: 10, protocol: 0x0806, frag_off: 0 };
    assert_eq!(vti_tunnel_xmit(&mut dev, 9, &arp, true, 1400, 0).1, VtiXmit::Dropped);
    assert_eq!(vti_tunnel_xmit(&mut dev, 9, &small, false, 1400, 0).1, VtiXmit::Dropped);
    assert_eq!(dev.tx_errors, 4);
}
