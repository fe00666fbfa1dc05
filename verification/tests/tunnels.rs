use lib::ipip::{
    in_addr, ip_tunnel, ip_tunnel_parm, iphdr, ipip_err, ipip_rcv, ipip_tunnel_ctl, ipip_tunnel_rcv, ipip_tunnel_setup,
    ipip_tunnel_xmit, net_device, net_device_stats64, ErrAction, RcvVerdict, XmitVerdict, EINVAL, ENOENT, SIOCADDTUNNEL,
};
use lib::route::{ip_tos2prio, ipv4_default_advmss, ipv4_mtu, rt_cache_seq_next, rt_cache_seq_start, rt_tos2priority};
use lib::sysctl_net_ipv4::{
    ipv4_local_port_range, ipv4_ping_group_range, ipv4_privileged_ports, set_local_port_range, InetLocalPortRange,
    NetIPv4, PingGroupRange, SeqLock,
};

fn hdr(daddr: u32, ttl: u8, protocol: u8) -> iphdr {
    iphdr {
        version: 4,
        ihl: 5,
        tos: 0,
        tot_len: 0,
        id: 0,
        frag_off: 0,
        ttl,
        protocol,
        check: 0,
        saddr: in_addr { s_addr: 1 },
        daddr: in_addr { s_addr: daddr },
    }
}

fn tunnel(daddr: u32, ttl: u8) -> ip_tunnel {
    ip_tunnel {
        parms: ip_tunnel_parm { iph: hdr(daddr, ttl, 4), link: 7, i_key: 1, o_key: 2, i_flags: 3, o_flags: 4 },
        err_count: 0,
        err_time: 0,
        collect_md: false,
    }
}

#[test]
fn test_ipip_err() {
    let mut none: Option<ip_tunnel> = None;
    assert!(matches!(ipip_err(&mut none, 3, 1, 0, 4, 50), (ENOENT, ErrAction::Ignore)));

    let mut t = Some(tunnel(0x0a00_0001, 64));
    assert!(matches!(ipip_err(&mut t, 3, 4, 1400, 4, 50), (0, ErrAction::UpdatePmtu { info: 1400, link: 7, protocol: 4 })));
    assert!(matches!(ipip_err(&mut t, 5, 1, 0, 4, 50), (0, ErrAction::Redirect { link: 7, protocol: 4 })));
    assert!(matches!(ipip_err(&mut t, 11, 1, 0, 4, 50), (0, ErrAction::Ignore)));
    assert!(matches!(ipip_err(&mut t, 8, 0, 0, 4, 50), (0, ErrAction::Ignore)));

    // Unreachable errors are counted, restarting after the timeout.
    assert!(matches!(ipip_err(&mut t, 3, 1, 0, 4, 2000), (0, ErrAction::Counted)));
    assert_eq!(t.as_ref().unwrap().err_count, 1);
    assert!(matches!(ipip_err(&mut t, 3, 1, 0, 4, 2500), (0, ErrAction::Counted)));
    assert_eq!(t.as_ref().unwrap().err_count, 2);
    assert_eq!(t.as_ref().unwrap().err_time, 2500);
    assert!(matches!(ipip_err(&mut t, 3, 1, 0, 4, 4000), (0, ErrAction::Counted)));
    assert_eq!(t.as_ref().unwrap().err_count, 1);

    let mut wildcard = Some(tunnel(0, 64));
    assert!(matches!(ipip_err(&mut wildcard, 3, 1, 0, 4, 50), (ENOENT, ErrAction::Ignore)));
    let mut inherit = Some(tunnel(9, 0));
    assert!(matches!(ipip_err(&mut inherit, 11, 0, 0, 4, 50), (0, ErrAction::Ignore)));
}

#[test]
fn ipip_receive_and_send() {
    let t = tunnel(1, 64);
    assert!(matches!(ipip_tunnel_rcv(None, 4, true, true, true), RcvVerdict::NotOurs));
    assert!(matches!(ipip_tunnel_rcv(Some(&t), 4, true, true, true), RcvVerdict::Deliver { with_md: false }));
    assert!(matches!(ipip_tunnel_rcv(Some(&t), 41, true, true, true), RcvVerdict::Drop));
    assert!(matches!(ipip_tunnel_rcv(Some(&t), 4, false, true, true), RcvVerdict::Drop));
    let mut md = tunnel(1, 64);
    md.collect_md = true;
    assert!(matches!(ipip_tunnel_rcv(Some(&md), 4, true, true, false), RcvVerdict::Drop));
    assert!(matches!(ipip_tunnel_rcv(Some(&md), 4, true, true, true), RcvVerdict::Deliver { with_md: true }));

    let mut stats = net_device_stats64 { rx_packets: 0, tx_packets: 0, rx_bytes: 0, tx_bytes: 0, rx_errors: 0, tx_errors: 0, tx_dropped: 0 };
    assert!(matches!(ipip_tunnel_xmit(&t, &mut stats, 0x0800, true, true), (0, XmitVerdict::Xmit { ipproto: 4, with_md: false })));
    assert_eq!(stats.tx_errors, 0);
    assert!(matches!(ipip_tunnel_xmit(&t, &mut stats, 0x86dd, true, true), (0, XmitVerdict::TxError)));
    assert_eq!(stats.tx_errors, 1);
}

#[test]
fn ipip_tunnel_parameters() {
    let mut p = ip_tunnel_parm { iph: hdr(1, 64, 4), link: 0, i_key: 1, o_key: 2, i_flags: 3, o_flags: 4 };
    assert_eq!(ipip_tunnel_ctl(&mut p, SIOCADDTUNNEL, 0), 0);
    assert_eq!((p.i_key, p.o_key, p.i_flags, p.o_flags), (0, 0, 0, 0));
    // DF (network order) is the only fragment bit allowed.
    p.iph.frag_off = 0x0040;
    assert_eq!(ipip_tunnel_ctl(&mut p, SIOCADDTUNNEL, 0), 0);
    p.iph.frag_off = 0x0020;
    p.i_key = 5;
    assert_eq!(ipip_tunnel_ctl(&mut p, SIOCADDTUNNEL, 0), EINVAL);
    assert_eq!(p.i_key, 5);
    p.iph.frag_off = 0;
    p.iph.protocol = 17;
    assert_eq!(ipip_tunnel_ctl(&mut p, SIOCADDTUNNEL, 0), EINVAL);
    // Other commands pass the parameters on unchecked.
    assert_eq!(ipip_tunnel_ctl(&mut p, 0x89f0, -3), -3);

    let mut dev = net_device { ifindex: 1, flags: 1, type_: 0, addr_len: 6, features: 0x100, hw_features: 0 };
    ipip_tunnel_setup(&mut dev);
    assert_eq!((dev.type_, dev.flags, dev.addr_len), (776, 0x8000, 4));
    assert_eq!(dev.features, 0x100 | 0x2000_0000 | 0xf);
    assert_eq!(dev.hw_features, 0xf);
}

#[test]
fn test_ip_tos2prio() {
    assert_eq!(ip_tos2prio[0], 0);
    assert_eq!(ip_tos2prio[15], 3);
    assert_eq!(rt_tos2priority(0x10), 2);
    assert_eq!(rt_tos2priority(0x1e), 3);
    assert_eq!(rt_tos2priority(0x01), 0);
    assert_eq!(ipv4_default_advmss(), 536);
    assert_eq!(ipv4_mtu(), 1500);
    assert!(rt_cache_seq_start(0));
    assert!(!rt_cache_seq_start(1));
    let mut pos = 0;
    assert!(!rt_cache_seq_next(&mut pos));
    assert_eq!(pos, 1);
}

fn net() -> NetIPv4 {
    NetIPv4 {
        ip_local_ports: InetLocalPortRange { lock: SeqLock { sequence: 0 }, warned: false, range: [32768, 60999] },
        sysctl_ip_prot_sock: 1024,
        ping_group_range: PingGroupRange { lock: SeqLock { sequence: 0 }, range: [1, 0] },
    }
}

#[test]
fn test_set_local_port_range() {
    let mut n = net();
    set_local_port_range(&mut n.ip_local_ports, [2000, 3001]);
    assert_eq!(n.ip_local_ports.range, [2000, 3001]);
    assert!(!n.ip_local_ports.warned);
    assert_eq!(n.ip_local_ports.lock.sequence, 2);
    set_local_port_range(&mut n.ip_local_ports, [2000, 3000]);
    assert!(n.ip_local_ports.warned);
    assert_eq!(n.ip_local_ports.lock.sequence, 4);

    let mut m = net();
    assert_eq!(ipv4_local_port_range(&mut m, true, 0, [5000, 4000]), -22);
    assert_eq!(ipv4_local_port_range(&mut m, true, 0, [500, 4000]), -22);
    assert_eq!(m.ip_local_ports.range, [32768, 60999]);
    assert_eq!(ipv4_local_port_range(&mut m, true, 0, [40000, 50001]), 0);
    assert_eq!(m.ip_local_ports.range, [40000, 50001]);
    assert_eq!(ipv4_local_port_range(&mut m, false, 0, [1, 2]), 0);
    assert_eq!(ipv4_local_port_range(&mut m, true, -14, [1, 2]), -14);
    assert_eq!(m.ip_local_ports.range, [40000, 50001]);

    assert_eq!(ipv4_privileged_ports(&mut m, true, 0, 45000), -22);
    assert_eq!(ipv4_privileged_ports(&mut m, true, 0, 80), 0);
    assert_eq!(m.sysctl_ip_prot_sock, 80);
}

#[test]
fn ping_group_range_sysctl() {
    let mut n = net();
    assert_eq!(ipv4_ping_group_range(&mut n.ping_group_range, true, 0, [100, 200], Some(100), Some(200)), 0);
    assert_eq!(n.ping_group_range.range, [100, 200]);
    assert_eq!(ipv4_ping_group_range(&mut n.ping_group_range, true, 0, [300, 200], Some(300), Some(200)), 0);
    assert_eq!(n.ping_group_range.range, [1, 0]);
    assert_eq!(ipv4_ping_group_range(&mut n.ping_group_range, true, 0, [1, 2], None, Some(2)), -22);
    assert_eq!(n.ping_group_range.range, [1, 0]);
}

#[test]
fn ipip_rcv_takes_ipip_protocol() {
    let t = tunnel(1, 64);
    assert!(matches!(ipip_rcv(None, true, true, true), RcvVerdict::NotOurs));
    assert!(matches!(ipip_rcv(Some(&t), true, true, true), RcvVerdict::Deliver { with_md: false }));
    // a tunnel carrying another protocol drops IP-in-IP packets
    let mut other = tunnel(1, 64);
    other.parms.iph.protocol = 41;
    assert!(matches!(ipip_rcv(Some(&other), true, true, true), RcvVerdict::Drop));
    assert!(matches!(ipip_rcv(Some(&t), true, false, true), RcvVerdict::Drop));
}
