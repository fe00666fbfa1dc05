use lib::af_inet::{
    inet_autobind, inet_create, inet_create_lookup, inet_listen, inet_sock_destruct, create_env, inet_protosw,
    sock, DestructOutcome, LookupStep, EAGAIN, IPPROTO_RAW, SOCK_RAW, SOCK_STREAM, TCP_CLOSE, TCP_LISTEN,
};
use lib::datagram::{
    __ip4_datagram_connect, dgram_sock, ip4_datagram_connect, flowi4, in_addr, ip4_datagram_release_cb, ipv4_is_multicast, route_reply,
    sockaddr_in, EACCES, EAFNOSUPPORT, EINVAL, TCP_ESTABLISHED,
};
use lib::ping::{ping_get_port, ping_hashfn, ping_init_sock, ping_group_range, ping_sock, ping_table, ping_unhash};

fn dead_sock(sk_type: i32, sk_state: i32, dead: bool) -> sock {
    sock {
        sk_receive_queue: vec![1, 2, 3],
        sk_rx_skb_cache: Some(9),
        sk_error_queue: vec![4],
        sk_type,
        sk_state,
        dead,
        inet_opt: Some(5),
        sk_dst_cache: Some(6),
        sk_rx_dst: Some(7),
    }
}

#[test]
fn test_inet_sock_destruct() {
    let mut sk = dead_sock(SOCK_STREAM, TCP_CLOSE, true);
    assert!(matches!(inet_sock_destruct(&mut sk), DestructOutcome::Released));
    assert!(sk.sk_receive_queue.is_empty() && sk.sk_error_queue.is_empty());
    assert_eq!(sk.sk_rx_skb_cache, None);
    assert_eq!(sk.inet_opt, None);
    assert_eq!(sk.sk_dst_cache, None);

    let mut open = dead_sock(SOCK_STREAM, 1, true);
    assert!(matches!(inet_sock_destruct(&mut open), DestructOutcome::TcpNotClosed));
    assert!(open.sk_receive_queue.is_empty());
    assert_eq!(open.inet_opt, Some(5));

    let mut alive = dead_sock(SOCK_RAW, 1, false);
    assert!(matches!(inet_sock_destruct(&mut alive), DestructOutcome::StillAlive));
    assert_eq!(alive.sk_dst_cache, Some(6));
}

fn entry(protocol: i32, flags: i32) -> inet_protosw {
    inet_protosw { protocol, ops: 10 + protocol as u64, prot: 20 + protocol as u64, flags }
}

#[test]
fn inet_create_lookup_finds_first_match_or_loads() {
    let list = vec![entry(6, 0), entry(17, 0), entry(6, 1)];
    assert!(matches!(inet_create_lookup(&list, 6, 0), LookupStep::Found(0)));
    assert!(matches!(inet_create_lookup(&list, 17, 0), LookupStep::Found(1)));
    assert!(matches!(inet_create_lookup(&list, 0, 0), LookupStep::Found(0)));
    assert!(matches!(inet_create_lookup(&list, 132, 0), LookupStep::LoadModule));
    assert!(matches!(inet_create_lookup(&list, 132, 1), LookupStep::LoadModule));
    assert!(matches!(inet_create_lookup(&list, 132, 2), LookupStep::Fail(94)));
}

fn env() -> create_env {
    create_env { kern: false, net_raw_capable: false, alloc_ok: true, no_pmtu_disc: false, hash_err: 0, init_err: 0, bpf_err: 0 }
}

#[test]
fn inet_create_builds_socket_and_reports_errors() {
    let e = env();
    let s = inet_create(&entry(6, 0x4 | 0x1), SOCK_STREAM, 6, &e).ok().unwrap();
    assert!(s.is_icsk);
    assert_eq!(s.inet_num, 0);
    assert_eq!(s.sk_reuse, 1);
    assert_eq!(s.uc_ttl, -1);
    assert_eq!(s.pmtudisc, 1);
    assert_eq!(s.mc_ttl, 1);

    // A raw socket needs the capability unless created by the kernel.
    assert_eq!(inet_create(&entry(255, 0), SOCK_RAW, IPPROTO_RAW, &e).err(), Some(1));
    let cap = create_env { net_raw_capable: true, ..env() };
    let raw = inet_create(&entry(255, 0), SOCK_RAW, IPPROTO_RAW, &cap).ok().unwrap();
    assert_eq!(raw.inet_num, 255);
    assert_eq!(raw.hdrincl, 1);
    assert_eq!(raw.inet_sport, 0xff00);

    let no_mem = create_env { alloc_ok: false, ..env() };
    assert_eq!(inet_create(&entry(6, 0), SOCK_STREAM, 6, &no_mem).err(), Some(105));
    let bad_init = create_env { init_err: -5, ..env() };
    assert_eq!(inet_create(&entry(6, 0), SOCK_STREAM, 6, &bad_init).err(), Some(105));
    let bpf = create_env { bpf_err: -1, ..env() };
    assert_eq!(inet_create(&entry(6, 0), SOCK_STREAM, 6, &bpf).err(), Some(-1));
    let kern_bpf = create_env { bpf_err: -1, kern: true, ..env() };
    assert!(inet_create(&entry(6, 0), SOCK_STREAM, 6, &kern_bpf).is_ok());
}

#[test]
fn inet_autobind_binds_once() {
    let cap = create_env { net_raw_capable: true, ..env() };
    let mut s = inet_create(&entry(6, 0), SOCK_STREAM, 6, &cap).ok().unwrap();
    assert_eq!(inet_autobind(&mut s, (1, 0)), EAGAIN);
    assert_eq!(s.inet_num, 0);
    assert_eq!(inet_autobind(&mut s, (0, 0x1234)), 0);
    assert_eq!(s.inet_num, 0x1234);
    assert_eq!(s.inet_sport, 0x3412);
    assert_eq!(inet_autobind(&mut s, (0, 99)), 0);
    assert_eq!(s.inet_num, 0x1234);
}

#[test]
fn inet_listen_states() {
    let r = inet_listen(1, SOCK_STREAM, TCP_CLOSE, 0, 128, 0);
    assert_eq!((r.err, r.max_ack_backlog, r.started), (0, 128, true));
    let r = inet_listen(1, SOCK_STREAM, TCP_LISTEN, 5, 64, 0);
    assert_eq!((r.err, r.max_ack_backlog, r.started), (0, 64, false));
    let r = inet_listen(1, SOCK_STREAM, 1, 5, 64, 0);
    assert_eq!((r.err, r.max_ack_backlog), (22, 5));
    let r = inet_listen(3, SOCK_STREAM, TCP_CLOSE, 5, 64, 0);
    assert_eq!(r.err, 22);
    let r = inet_listen(1, SOCK_STREAM, TCP_CLOSE, 5, 64, -98);
    assert_eq!((r.err, r.max_ack_backlog, r.started), (-98, 64, false));
}

fn dsock() -> dgram_sock {
    dgram_sock {
        sk_bound_dev_if: 0,
        sk_protocol: 17,
        sk_state: 7,
        sock_broadcast: false,
        inet_saddr: 0,
        inet_rcv_saddr: 0,
        inet_daddr: 0,
        inet_dport: 0,
        inet_sport: 5000,
        mc_index: 3,
        mc_addr: 0x0a00_0001,
        inet_id: 0,
        has_dst: false,
    }
}

fn sin(addr: u32, port: u16) -> sockaddr_in {
    sockaddr_in { sin_family: 2, sin_port: port, sin_addr: in_addr { s_addr: addr } }
}

fn route(flags: u32, saddr: u32, daddr: u32) -> route_reply {
    route_reply::Route { rt_flags: flags, fl4: flowi4 { daddr, saddr, oif: 0, protocol: 17, sport: 5000, dport: 53 } }
}

#[test]
fn datagram_connect() {
    let mut sk = dsock();
    let r = __ip4_datagram_connect(&mut sk, &sin(0xc0a8_0001, 53), 16, false, &route(0, 0xc0a8_0002, 0xc0a8_0001), 77);
    assert_eq!(r.err, 0);
    assert!(r.rehash);
    assert_eq!(sk.sk_state, TCP_ESTABLISHED);
    assert_eq!(sk.inet_saddr, 0xc0a8_0002);
    assert_eq!(sk.inet_rcv_saddr, 0xc0a8_0002);
    assert_eq!(sk.inet_daddr, 0xc0a8_0001);
    assert_eq!(sk.inet_dport, 53);
    assert_eq!(sk.inet_id, 77);

    let mut short = dsock();
    assert_eq!(__ip4_datagram_connect(&mut short, &sin(1, 1), 8, false, &route(0, 1, 1), 0).err, EINVAL);
    let mut fam = dsock();
    let mut a = sin(1, 1);
    a.sin_family = 10;
    assert_eq!(__ip4_datagram_connect(&mut fam, &a, 16, false, &route(0, 1, 1), 0).err, EAFNOSUPPORT);
    let mut bc = dsock();
    assert_eq!(__ip4_datagram_connect(&mut bc, &sin(0xffff_ffff, 1), 16, false, &route(1, 1, 1), 0).err, EACCES);
    let mut unreach = dsock();
    let r = __ip4_datagram_connect(&mut unreach, &sin(1, 1), 16, false, &route_reply::Unreachable(-101), 0);
    assert_eq!(r.err, -101);
    assert!(r.no_route);

    // A multicast peer takes the multicast source address.
    let mut mc = dsock();
    let r = __ip4_datagram_connect(&mut mc, &sin(0xe000_00fb, 5353), 16, false, &route(0, 9, 0xe000_00fb), 1);
    assert_eq!(r.err, 0);
    assert_eq!(mc.inet_saddr, 0x0a00_0001);
    assert!(ipv4_is_multicast(0xe000_00fb));
    assert!(!ipv4_is_multicast(0xc0a8_0001));
}

#[test]
fn datagram_release_cb_reroutes_stale_route() {
    let mut sk = dsock();
    sk.inet_daddr = 0x0808_0808;
    sk.inet_dport = 53;
    assert!(ip4_datagram_release_cb(&sk, true, false, 0).is_none());
    let f = ip4_datagram_release_cb(&sk, false, false, 0).unwrap();
    assert_eq!(f.daddr, 0x0808_0808);
    let f = ip4_datagram_release_cb(&sk, false, true, 0x0101_0101).unwrap();
    assert_eq!(f.daddr, 0x0101_0101);
}

#[test]
fn test_ping_hashfn() {
    let result = ping_hashfn(0, 1234, 0xFFFF);
    assert!(result <= 0xFFFF);
    assert_eq!(result, 1234);
    assert_eq!(ping_hashfn(0, 0x1_0005, 0xff), 5);
    assert_eq!(ping_hashfn(u32::MAX, 2, 0xffff_ffff), 1);
}

fn psock(id: u64, reuse: bool) -> ping_sock {
    ping_sock { id, inet_num: 0, inet_sport: 0, sk_reuse: reuse, hashed: false, sk_family: 2, sk_ipv6only: false }
}

#[test]
fn ping_get_port_picks_free_identifiers() {
    let mut t = ping_table::new();
    let mut a = psock(1, false);
    assert_eq!(ping_get_port(&mut t, &mut a, 0), 0);
    assert_eq!(a.inet_num, 1);
    assert!(a.hashed);
    let mut b = psock(2, false);
    assert_eq!(ping_get_port(&mut t, &mut b, 0), 0);
    assert_eq!(b.inet_num, 2);
    assert_eq!(t.rover, 2);

    // An explicit identifier held by another socket is refused unless both share.
    let mut c = psock(3, false);
    assert_eq!(ping_get_port(&mut t, &mut c, 2), 1);
    assert!(!c.hashed);
    assert_eq!(ping_get_port(&mut t, &mut c, 700), 0);
    assert_eq!(t.hash[700 % 256].len(), 1);

    let mut d = psock(4, true);
    let mut e = psock(5, true);
    assert_eq!(ping_get_port(&mut t, &mut d, 900), 0);
    assert_eq!(ping_get_port(&mut t, &mut e, 900), 0);
    assert_eq!(t.hash[900 % 256].len(), 2);

    // Unhashing frees the identifier again.
    ping_unhash(&mut t, &mut a);
    assert!(!a.hashed);
    assert_eq!(a.inet_num, 0);
    assert_eq!(t.hash[1].len(), 0);
    let mut f = psock(6, false);
    t.rover = 0;
    assert_eq!(ping_get_port(&mut t, &mut f, 0), 0);
    assert_eq!(f.inet_num, 1);
}

#[test]
fn ping_init_sock_checks_groups() {
    let range = ping_group_range { range: [100, 200] };
    let mut s = psock(1, false);
    assert_eq!(ping_init_sock(&mut s, &range, 150, &vec![]), 0);
    assert_eq!(ping_init_sock(&mut s, &range, 50, &vec![1, 2, 199]), 0);
    assert_eq!(ping_init_sock(&mut s, &range, 50, &vec![1, 2, 300]), 13);
    let mut s6 = psock(2, false);
    s6.sk_family = 10;
    ping_init_sock(&mut s6, &range, 150, &vec![]);
    assert!(s6.sk_ipv6only);
}

#[test]
fn datagram_connect_under_lock() {
    let mut sk = dsock();
    let r = ip4_datagram_connect(&mut sk, &sin(0xc0a8_0001, 53), 16, false, &route(0, 0xc0a8_0002, 0xc0a8_0001), 5);
    assert_eq!(r.err, 0);
    assert_eq!(sk.sk_state, TCP_ESTABLISHED);
    assert_eq!(sk.inet_id, 5);
    let mut short = dsock();
    assert_eq!(ip4_datagram_connect(&mut short, &sin(1, 1), 4, false, &route(0, 1, 1), 0).err, EINVAL);
}
