use lib::tcp_bic::{
    ack_sample, bictcp, bictcp_acked, bictcp_cong_avoid, bictcp_init, bictcp_recalc_ssthresh, bictcp_register,
    bictcp_reset, bictcp_state, bictcp_unregister, bictcp_update, TCP_CA_LOSS, TCP_CA_OPEN,
};
use lib::tcp_cong::{cong_registry, tcp_ca_find_key, tcp_sock};

fn fresh() -> bictcp {
    let mut ca = bictcp { cnt: 9, last_max_cwnd: 9, last_cwnd: 9, last_time: 9, epoch_start: 9, delayed_ack: 9 };
    bictcp_reset(&mut ca);
    ca
}

fn tp(cwnd: u32, ssthresh: u32) -> tcp_sock {
    tcp_sock { snd_cwnd: cwnd, snd_ssthresh: ssthresh, snd_cwnd_cnt: 0, snd_cwnd_clamp: 1000 }
}

#[test]
fn reset_and_init() {
    let ca = fresh();
    assert_eq!(ca.delayed_ack, 32);
    assert_eq!(ca.cnt + ca.last_max_cwnd + ca.epoch_start, 0);
    let mut ca2 = bictcp { cnt: 1, ..ca };
    let mut t = tp(10, 7);
    bictcp_init(&mut ca2, &mut t);
    assert_eq!(ca2.cnt, 0);
    assert_eq!(t.snd_ssthresh, 7);
}

#[test]
fn update_counts() {
    let mut ca = fresh();
    bictcp_update(&mut ca, 100, 1000);
    assert_eq!(ca.cnt, 3);
    assert_eq!(ca.epoch_start, 1000);
    assert_eq!(ca.last_cwnd, 100);
    // same window within a 32nd of a second: unchanged
    ca.cnt = 77;
    bictcp_update(&mut ca, 100, 1002);
    assert_eq!(ca.cnt, 77);

    let mut ca = bictcp { last_max_cwnd: 110, ..fresh() };
    bictcp_update(&mut ca, 100, 5);
    assert_eq!(ca.cnt, 25);
    let mut ca = bictcp { last_max_cwnd: 200, ..fresh() };
    bictcp_update(&mut ca, 100, 5);
    assert_eq!(ca.cnt, 3);
    let mut ca = bictcp { last_max_cwnd: 101, ..fresh() };
    bictcp_update(&mut ca, 100, 5);
    assert_eq!(ca.cnt, 250);
    let mut ca = bictcp { last_max_cwnd: 100, ..fresh() };
    bictcp_update(&mut ca, 102, 5);
    assert_eq!(ca.cnt, 255);
    let mut ca = bictcp { last_max_cwnd: 100, ..fresh() };
    bictcp_update(&mut ca, 120, 5);
    assert_eq!(ca.cnt, 9);
    let mut ca = fresh();
    bictcp_update(&mut ca, 10, 5);
    assert_eq!(ca.cnt, 10);
}

#[test]
fn ssthresh_after_loss() {
    let mut ca = bictcp { last_max_cwnd: 200, epoch_start: 4, ..fresh() };
    assert_eq!(bictcp_recalc_ssthresh(&mut ca, &tp(100, 0)), 79);
    assert_eq!(ca.last_max_cwnd, 89);
    assert_eq!(ca.epoch_start, 0);
    let mut ca = fresh();
    assert_eq!(bictcp_recalc_ssthresh(&mut ca, &tp(10, 0)), 5);
    assert_eq!(ca.last_max_cwnd, 10);
    assert_eq!(bictcp_recalc_ssthresh(&mut ca, &tp(3, 0)), 2);
}

#[test]
fn state_and_acked() {
    let mut ca = fresh();
    bictcp_acked(&mut ca, TCP_CA_OPEN, &ack_sample { pkts_acked: 2 });
    assert_eq!(ca.delayed_ack, 32);
    bictcp_acked(&mut ca, TCP_CA_OPEN, &ack_sample { pkts_acked: 4 });
    assert_eq!(ca.delayed_ack, 34);
    bictcp_acked(&mut ca, 0, &ack_sample { pkts_acked: 100 });
    assert_eq!(ca.delayed_ack, 34);
    ca.cnt = 5;
    bictcp_state(&mut ca, 0);
    assert_eq!(ca.cnt, 5);
    bictcp_state(&mut ca, TCP_CA_LOSS);
    assert_eq!(ca.cnt, 0);
    assert_eq!(ca.delayed_ack, 32);
}

#[test]
fn congestion_avoidance() {
    let mut ca = fresh();
    let mut t = tp(10, 5);
    bictcp_cong_avoid(&mut ca, &mut t, 0, 1, true, 100);
    assert_eq!(ca.cnt, 10);
    assert_eq!(t.snd_cwnd, 10);
    assert_eq!(t.snd_cwnd_cnt, 1);
    let mut t = tp(10, 5);
    t.snd_cwnd_cnt = 9;
    bictcp_cong_avoid(&mut ca, &mut t, 0, 1, true, 100);
    assert_eq!(t.snd_cwnd, 11);
    assert_eq!(t.snd_cwnd_cnt, 0);

    let mut ca = fresh();
    let mut t = tp(10, 100);
    bictcp_cong_avoid(&mut ca, &mut t, 0, 3, true, 100);
    assert_eq!(t.snd_cwnd, 13);
    assert_eq!(ca.last_cwnd, 0);
    let mut t = tp(10, 100);
    bictcp_cong_avoid(&mut ca, &mut t, 0, 3, false, 100);
    assert_eq!(t.snd_cwnd, 10);
}

#[test]
fn registration() {
    let mut reg = cong_registry { list: Vec::new() };
    assert_eq!(bictcp_register(&mut reg), 0);
    assert_eq!(reg.list.len(), 1);
    let key = reg.list[0].key;
    assert_eq!(tcp_ca_find_key(&reg, key), Some(0));
    assert!(bictcp_register(&mut reg) != 0);
    bictcp_unregister(&mut reg);
    assert_eq!(reg.list.len(), 0);
}
