use lib::tcp_ipv4::{
    connect_steps, flowi4, in_addr, inet_sock, inet_timewait_sock, ip_options, ip_options_rcu, rtable, sock,
    sockaddr_in, tcp_opt, tcp_sock, tcp_timewait_sock, tcp_twsk_unique, tcp_v4_connect, tcp_v4_connect_route_request, tcp_v4_mtu_reduced,
    EAFNOSUPPORT, EINVAL, ENETUNREACH, RTCF_BROADCAST, TCP_CLOSE,
};

fn socket() -> sock {
    sock {
        sk_state: 1,
        sk_err_soft: 0,
        sk_route_caps: 0xff,
        inet: inet_sock {
            inet_sport: 0,
            inet_dport: 0,
            inet_saddr: 0,
            inet_daddr: 0,
            inet_opt: None,
            inet_bound_dev_if: 0,
            inet_id: 0,
        },
        tp: tcp_sock {
            write_seq: 0,
            rx_opt: tcp_opt { ts_recent: 0, ts_recent_stamp: 0, mss_clamp: 536 },
            repair: 0,
            tsoffset: 0,
            mtu_info: 1400,
        },
    }
}

fn dest() -> sockaddr_in {
    sockaddr_in { sin_family: 2, sin_port: 80, sin_addr: in_addr { s_addr: 0x0a00_0002 } }
}

fn steps() -> connect_steps {
    connect_steps {
        route: Ok(rtable { rt_flags: 0, fl4: flowi4 { daddr: 0x0a00_0002, saddr: 0x0a00_0001 } }),
        hash: Ok(40000),
        newports: Ok(rtable { rt_flags: 0, fl4: flowi4 { daddr: 0x0a00_0002, saddr: 0x0a00_0001 } }),
        isn: 12345,
        ts_off: 99,
        ip_id: 7,
        defer: None,
        connect_err: 0,
    }
}

#[test]
fn test_tcp_v4_connect() {
    let mut sk = socket();
    assert_eq!(tcp_v4_connect(&mut sk, &dest(), 16, &steps()), 0);
    assert_eq!(sk.inet.inet_saddr, 0x0a00_0001);
    assert_eq!(sk.inet.inet_daddr, 0x0a00_0002);
    assert_eq!(sk.inet.inet_dport, 80);
    assert_eq!(sk.inet.inet_sport, 40000);
    assert_eq!(sk.tp.write_seq, 12345);
    assert_eq!(sk.tp.tsoffset, 99);
    assert_eq!(sk.inet.inet_id, 7);
}

#[test]
fn connect_refusals() {
    let mut sk = socket();
    assert_eq!(tcp_v4_connect(&mut sk, &dest(), 8, &steps()), EINVAL);
    let mut v6 = dest();
    v6.sin_family = 10;
    assert_eq!(tcp_v4_connect(&mut sk, &v6, 16, &steps()), EAFNOSUPPORT);
    let mut st = steps();
    st.route = Err(-113);
    assert_eq!(tcp_v4_connect(&mut sk, &dest(), 16, &st), -113);
    let mut st = steps();
    st.route = Ok(rtable { rt_flags: RTCF_BROADCAST, fl4: flowi4 { daddr: 0, saddr: 0 } });
    assert_eq!(tcp_v4_connect(&mut sk, &dest(), 16, &st), ENETUNREACH);
    assert_eq!(sk.inet.inet_daddr, 0);
}

#[test]
fn connect_failure_after_addressing() {
    let mut sk = socket();
    let mut st = steps();
    st.hash = Err(-98);
    assert_eq!(tcp_v4_connect(&mut sk, &dest(), 16, &st), -98);
    assert_eq!(sk.inet.inet_dport, 80);
    assert_eq!(sk.inet.inet_sport, 0);

    let mut sk = socket();
    let mut st = steps();
    st.connect_err = -105;
    assert_eq!(tcp_v4_connect(&mut sk, &dest(), 16, &st), -105);
    assert_eq!(sk.sk_state, TCP_CLOSE);
    assert_eq!(sk.sk_route_caps, 0);
    assert_eq!(sk.inet.inet_dport, 0);
}

#[test]
fn connect_with_source_route_and_old_timestamps() {
    let mut sk = socket();
    sk.inet.inet_opt = Some(ip_options_rcu { opt: ip_options { srr: 1, faddr: 0x0a00_0009, optlen: 8 } });
    sk.inet.inet_saddr = 0x0b00_0001;
    sk.inet.inet_daddr = 0x0c00_0001;
    sk.tp.rx_opt.ts_recent_stamp = 5;
    sk.tp.rx_opt.ts_recent = 6;
    sk.tp.write_seq = 777;
    let mut st = steps();
    st.route = Ok(rtable { rt_flags: 0, fl4: flowi4 { daddr: 0x0a00_0009, saddr: 0x0a00_0001 } });
    assert_eq!(tcp_v4_connect(&mut sk, &dest(), 16, &st), 0);
    assert_eq!(sk.inet.inet_daddr, 0x0a00_0002);
    assert_eq!(sk.inet.inet_saddr, 0x0b00_0001);
    assert_eq!(sk.tp.rx_opt.ts_recent_stamp, 0);
    assert_eq!(sk.tp.write_seq, 12345);
}

#[test]
fn timewait_reuse() {
    let mut tp = socket().tp;
    let mut tw = inet_timewait_sock { tw_bound_dev_if: 0, tw_family: 2, tw_daddr: 1, tw_rcv_saddr: 2, tw_refcnt: 1 };
    let tcptw = tcp_timewait_sock { tw_ts_recent: 50, tw_ts_recent_stamp: 100, tw_snd_nxt: 0xffff_0000 };
    assert_eq!(tcp_twsk_unique(&mut tp, &mut tw, &tcptw, 0, 200, true), 0);
    assert_eq!(tcp_twsk_unique(&mut tp, &mut tw, &tcptw, 2, 200, true), 0);
    assert_eq!(tcp_twsk_unique(&mut tp, &mut tw, &tcptw, 1, 200, true), 1);
    assert_eq!(tp.write_seq, 0xffff_0000u32.wrapping_add(65537));
    assert_eq!(tp.rx_opt.ts_recent, 50);
    assert_eq!(tw.tw_refcnt, 2);

    let mut tp = socket().tp;
    let tcptw = tcp_timewait_sock { tw_ts_recent: 1, tw_ts_recent_stamp: 1, tw_snd_nxt: 0xffff_0000 - 1 };
    assert_eq!(tcp_twsk_unique(&mut tp, &mut tw, &tcptw, 0, 0, false), 1);
    assert_eq!(tp.write_seq, 1);
}

#[test]
fn mtu_reduction() {
    let mut sk = socket();
    assert_eq!(tcp_v4_mtu_reduced(&mut sk, None, true), None);
    assert_eq!(sk.sk_err_soft, 0);
    assert_eq!(tcp_v4_mtu_reduced(&mut sk, Some(1500), true), Some(1500));
    assert_eq!(sk.sk_err_soft, ENETUNREACH);
}

#[test]
fn connect_route_request_uses_first_hop() {
    let mut sk = socket();
    sk.inet.inet_bound_dev_if = 3;
    sk.inet.inet_saddr = 0x0a00_0001;
    assert_eq!(tcp_v4_connect_route_request(&sk, &dest()), (0x0a00_0002, 0x0a00_0001, 3, 0, 80));
    sk.inet.inet_opt = Some(ip_options_rcu { opt: ip_options { srr: 1, faddr: 0x0a00_0009, optlen: 8 } });
    assert_eq!(tcp_v4_connect_route_request(&sk, &dest()).0, 0x0a00_0009);
}
