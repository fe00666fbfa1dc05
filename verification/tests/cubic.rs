use lib::tcp_cubic::{
    bictcp, bictcp_hystart_reset, bictcp_reset, bictcp_update, cubic_root, cubictcp_cwnd_event, cubictcp_init,
    cubictcp_register, tcp_sock,
};

fn zeroed() -> bictcp {
    bictcp {
        cnt: 0,
        last_max_cwnd: 0,
        last_cwnd: 0,
        last_time: 0,
        bic_origin_point: 0,
        bic_K: 0,
        delay_min: 0,
        epoch_start: 0,
        ack_cnt: 0,
        tcp_cwnd: 0,
        unused: 0,
        sample_cnt: 0,
        found: 0,
        round_start: 0,
        end_seq: 0,
        last_ack: 0,
        curr_rtt: 0,
    }
}

#[test]
fn test_bictcp_reset() {
    let mut ca = zeroed();
    bictcp_reset(&mut ca);
    assert_eq!(ca.found, 0);
}

#[test]
fn cubic_reset_keeps_round_fields() {
    let mut ca = zeroed();
    ca.cnt = 5;
    ca.found = 1;
    ca.last_max_cwnd = 40;
    ca.round_start = 9;
    bictcp_reset(&mut ca);
    assert_eq!((ca.cnt, ca.found, ca.last_max_cwnd, ca.round_start), (0, 0, 0, 9));
}

#[test]
fn cubic_root_values() {
    assert_eq!(cubic_root(0), 0);
    assert_eq!(cubic_root(1), 1);
    assert_eq!(cubic_root(8), 2);
    assert_eq!(cubic_root(27), 3);
    assert_eq!(cubic_root(64), 4);
    assert_eq!(cubic_root(1000), 10);
    assert_eq!(cubic_root(1_000_000), 100);
    assert_eq!(cubic_root(1 << 30), 1024);
    assert_eq!(cubic_root(1 << 63), 2_098_142);
}

#[test]
fn cubic_init_and_events() {
    let p = cubictcp_register();
    assert_eq!((p.beta_scale, p.cube_rtt_scale), (15, 410));
    let mut ca = zeroed();
    let mut tp = tcp_sock { snd_cwnd: 10, snd_ssthresh: 99, lsndtime: 0, tcp_mstamp: 1234 };
    cubictcp_init(&mut ca, &mut tp, &p);
    assert_eq!((ca.round_start, ca.last_ack, ca.end_seq, ca.curr_rtt), (1234, 1234, 10, u32::MAX));
    bictcp_hystart_reset(&mut ca, &tp);
    assert_eq!(ca.sample_cnt, 0);
    ca.epoch_start = 100;
    tp.lsndtime = 200;
    cubictcp_cwnd_event(&mut ca, &mut tp, 0, 250);
    assert_eq!(ca.epoch_start, 150);
    assert_eq!(tp.lsndtime, 250);
    // an epoch moved past now stops at now
    ca.epoch_start = 240;
    tp.lsndtime = 200;
    cubictcp_cwnd_event(&mut ca, &mut tp, 0, 250);
    assert_eq!(ca.epoch_start, 250);
    cubictcp_cwnd_event(&mut ca, &mut tp, 3, 900);
    assert_eq!(tp.lsndtime, 250);
}

#[test]
fn cubic_update_first_epoch() {
    let p = cubictcp_register();
    let mut ca = zeroed();
    // first update: a new epoch at the current window, no loss seen yet
    bictcp_update(&mut ca, 10, 1, 1000, &p);
    assert_eq!((ca.epoch_start, ca.bic_origin_point, ca.bic_K, ca.tcp_cwnd), (1000, 10, 0, 10));
    assert_eq!(ca.ack_cnt, 1);
    // target equals the window: count capped at 20 before any loss
    assert_eq!(ca.cnt, 20);
    // the same window within now / 32 ticks: only the ACKs are counted
    bictcp_update(&mut ca, 10, 4, 1010, &p);
    assert_eq!(ca.ack_cnt, 5);
    assert_eq!(ca.cnt, 20);
}

#[test]
fn cubic_update_tcp_friendly() {
    let p = cubictcp_register();
    let mut ca = zeroed();
    ca.epoch_start = 1000;
    ca.last_time = 1000;
    ca.last_cwnd = 9;
    ca.ack_cnt = 40;
    ca.tcp_cwnd = 10;
    ca.cnt = 50;
    // same tick as the last update: straight to the friendly part;
    // one window step per 10 * 15 / 8 = 18 ACKs: 40 + 0 ACKs give 2 steps, 4 left
    bictcp_update(&mut ca, 10, 0, 1000, &p);
    assert_eq!(ca.tcp_cwnd, 12);
    assert_eq!(ca.ack_cnt, 4);
    // the TCP estimate is ahead by 2: at most 10 / 2 = 5 ACKs per step
    assert_eq!(ca.cnt, 5);
}
