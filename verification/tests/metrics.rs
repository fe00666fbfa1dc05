use lib::tcp_metrics::{
    addr_same, inetpeer_addr_cmp, tcp_get_metrics, tcp_metric_get, tcp_metric_locked, tcp_metric_set,
    tcp_update_metrics, tcpm_check_stamp, tcpm_suck_dst, DstEntry, InetConnectionSock, InetPeerAddr,
    PossibleNet, RcuHead, Sock, TcpFastOpenCookie, TcpFastOpenMetrics, TcpMetricsBlock, TcpMetricsTable,
    TcpSock, TCP_METRICS_TIMEOUT, TCP_METRIC_CWND, TCP_METRIC_RTT, TCP_METRIC_RTTVAR,
};

fn addr(last: u8) -> InetPeerAddr {
    let mut data = [0u8; 16];
    data[0] = 10;
    data[3] = last;
    InetPeerAddr { family: 2, data }
}

fn block() -> TcpMetricsBlock {
    TcpMetricsBlock {
        tcpm_next: None,
        tcpm_net: PossibleNet { id: 1 },
        tcpm_saddr: addr(1),
        tcpm_daddr: addr(2),
        tcpm_stamp: 0,
        tcpm_lock: 0,
        tcpm_vals: [0; 6],
        tcpm_fastopen: TcpFastOpenMetrics {
            mss: 1400,
            syn_loss: 3,
            try_exp: 1,
            last_syn_loss: 77,
            cookie: TcpFastOpenCookie { exp: true, len: 8 },
        },
        rcu_head: RcuHead { data: [0; 8] },
    }
}

fn route() -> DstEntry {
    // rtt 20 ms, rttvar 5 ms, ssthresh 30, cwnd 10, reordering 3; cwnd locked
    DstEntry { dev_net: PossibleNet { id: 1 }, metrics: [20, 5, 30, 10, 3, 0], locked: 1 << 4 }
}

fn socket(srtt: u32, mdev: u32, backoff: u32) -> Sock {
    Sock {
        sk_family: 2,
        sk_saddr: addr(1),
        sk_daddr: addr(2),
        sk_net: PossibleNet { id: 1 },
        icsk: InetConnectionSock { icsk_backoff: backoff },
        tp: TcpSock { srtt_us: srtt, mdev_us: mdev },
    }
}

#[test]
fn test_struct_layout() {
    assert_eq!(core::mem::size_of::<TcpMetricsBlock>(), 128);
    assert_eq!(core::mem::align_of::<TcpMetricsBlock>(), 8);
}

#[test]
fn sucking_a_route_fills_values_and_locks() {
    let mut b = block();
    tcpm_suck_dst(&mut b, &route(), true, 500);
    assert_eq!(b.tcpm_stamp, 500);
    assert_eq!(b.tcpm_vals, [20_000, 5_000, 30, 10, 3, 0]);
    assert_eq!(b.tcpm_lock, 1 << TCP_METRIC_CWND);
    assert!(tcp_metric_locked(&b, TCP_METRIC_CWND));
    assert!(!tcp_metric_locked(&b, TCP_METRIC_RTT));
    assert_eq!(b.tcpm_fastopen.mss, 0);
    assert_eq!(b.tcpm_fastopen.last_syn_loss, 77);
    assert!(!b.tcpm_fastopen.cookie.exp);

    let mut c = block();
    tcpm_suck_dst(&mut c, &route(), false, 1);
    assert_eq!(c.tcpm_fastopen.mss, 1400);
}

#[test]
fn stamp_check_refreshes_only_expired_blocks() {
    let mut b = block();
    b.tcpm_stamp = 100;
    b.tcpm_vals[0] = 9;
    tcpm_check_stamp(&mut b, &route(), 100 + TCP_METRICS_TIMEOUT);
    assert_eq!(tcp_metric_get(&b, TCP_METRIC_RTT), 9);
    tcpm_check_stamp(&mut b, &route(), 101 + TCP_METRICS_TIMEOUT);
    assert_eq!(tcp_metric_get(&b, TCP_METRIC_RTT), 20_000);
    assert_eq!(b.tcpm_stamp, 101 + TCP_METRICS_TIMEOUT);
    assert_eq!(b.tcpm_fastopen.mss, 1400);
}

#[test]
fn address_comparison() {
    assert!(addr_same(&addr(1), &addr(1)));
    assert!(!addr_same(&addr(1), &addr(2)));
    assert_eq!(inetpeer_addr_cmp(&addr(1), &addr(1)), 0);
    assert_eq!(inetpeer_addr_cmp(&addr(1), &addr(2)), -1);
    assert_eq!(inetpeer_addr_cmp(&addr(3), &addr(2)), 1);
    let mut v6 = addr(1);
    v6.family = 10;
    assert_eq!(inetpeer_addr_cmp(&v6, &addr(9)), 1);
}

#[test]
fn get_metrics_finds_or_creates() {
    let mut t = TcpMetricsTable { blocks: Vec::new() };
    let sk = socket(1000, 100, 0);
    assert_eq!(tcp_get_metrics(&mut t, &sk, &route(), false, 5), None);
    assert_eq!(t.blocks.len(), 0);
    assert_eq!(tcp_get_metrics(&mut t, &sk, &route(), true, 5), Some(0));
    assert_eq!(t.blocks.len(), 1);
    assert_eq!(t.blocks[0].tcpm_vals, [20_000, 5_000, 30, 10, 3, 0]);
    assert_eq!(tcp_get_metrics(&mut t, &sk, &route(), true, 6), Some(0));
    assert_eq!(t.blocks.len(), 1);
    let other = DstEntry { dev_net: PossibleNet { id: 2 }, metrics: [0; 6], locked: 0 };
    assert_eq!(tcp_get_metrics(&mut t, &sk, &other, true, 6), Some(1));
}

#[test]
fn update_metrics_folds_rtt() {
    let mut t = TcpMetricsTable { blocks: Vec::new() };
    let sk = socket(16_000, 1_000, 0);
    assert_eq!(tcp_update_metrics(&mut t, &sk, Some(&route()), false, 5), 0);
    // cached rtt 20000 > 16000: 20000 - 4000/8 = 19500
    assert_eq!(t.blocks[0].tcpm_vals[TCP_METRIC_RTT as usize], 19_500);
    // var 5000 - 625 + max(2000, 1000) = 6375
    assert_eq!(t.blocks[0].tcpm_vals[TCP_METRIC_RTTVAR as usize], 6_375);

    let sk = socket(30_000, 100, 0);
    tcp_update_metrics(&mut t, &sk, Some(&route()), false, 6);
    assert_eq!(t.blocks[0].tcpm_vals[0], 30_000);
    // 6375 - 796 + 5250 = 10829
    assert_eq!(t.blocks[0].tcpm_vals[1], 10_829);

    let idle = socket(30_000, 100, 1);
    tcp_update_metrics(&mut t, &idle, Some(&route()), false, 7);
    assert_eq!(t.blocks[0].tcpm_vals[0], 0);

    let before = t.blocks[0].tcpm_vals;
    tcp_update_metrics(&mut t, &sk, Some(&route()), true, 8);
    tcp_update_metrics(&mut t, &sk, None, false, 8);
    assert_eq!(t.blocks[0].tcpm_vals, before);
}

#[test]
fn locked_rtt_is_kept() {
    let mut b = block();
    b.tcpm_lock = 1;
    b.tcpm_vals[0] = 42;
    let mut t = TcpMetricsTable { blocks: vec![b] };
    tcp_update_metrics(&mut t, &socket(1, 1, 1), Some(&route()), false, 0);
    assert_eq!(t.blocks[0].tcpm_vals[0], 42);
    let mut c = block();
    tcp_metric_set(&mut c, TCP_METRIC_RTT, 7);
    assert_eq!(tcp_metric_get(&c, TCP_METRIC_RTT), 7);
}
