use lib::tcp_cong::{cong_registry, tcp_sock};
use lib::tcp_lp::{
    ack_sample, lp, tcp_lp_cong_avoid, tcp_lp_init, tcp_lp_owd_calculator, tcp_lp_pkts_acked, tcp_lp_register,
    tcp_lp_remote_hz_estimator, tcp_lp_rtt_sample, tcp_lp_unregister, tcp_rx_opt, LP_VALID_OWD, LP_VALID_RHZ,
    LP_WITHIN_INF, LP_WITHIN_THR,
};

fn fresh() -> lp {
    let mut l = lp {
        flag: 7,
        sowd: 7,
        owd_min: 7,
        owd_max: 7,
        owd_max_rsv: 7,
        remote_hz: 7,
        remote_ref_time: 7,
        local_ref_time: 7,
        last_drop: 7,
        inference: 7,
    };
    tcp_lp_init(&mut l);
    l
}

fn tp(cwnd: u32) -> tcp_sock {
    tcp_sock { snd_cwnd: cwnd, snd_ssthresh: 5, snd_cwnd_cnt: 0, snd_cwnd_clamp: 1000 }
}

#[test]
fn init_state() {
    let l = fresh();
    assert_eq!(l.owd_min, 0xffff_ffff);
    assert_eq!(l.flag + l.sowd + l.owd_max + l.remote_hz + l.inference, 0);
}

#[test]
fn remote_rate_estimation() {
    let mut l = fresh();
    assert_eq!(tcp_lp_remote_hz_estimator(&mut l, &tcp_rx_opt { rcv_tsval: 1000, rcv_tsecr: 5000 }), 0);
    assert_eq!(l.flag & LP_VALID_RHZ, 0);
    assert_eq!((l.remote_ref_time, l.local_ref_time), (1000, 5000));
    assert_eq!(tcp_lp_remote_hz_estimator(&mut l, &tcp_rx_opt { rcv_tsval: 1100, rcv_tsecr: 6000 }), 100);
    assert_eq!(l.flag & LP_VALID_RHZ, LP_VALID_RHZ);
    l.remote_hz = 100;
    assert_eq!(tcp_lp_remote_hz_estimator(&mut l, &tcp_rx_opt { rcv_tsval: 1300, rcv_tsecr: 7000 }), 101);
}

#[test]
fn one_way_delay_and_samples() {
    let mut l = fresh();
    l.remote_ref_time = 1000;
    l.local_ref_time = 5000;
    let rx = tcp_rx_opt { rcv_tsval: 1100, rcv_tsecr: 6000 };
    assert_eq!(tcp_lp_owd_calculator(&mut l, &rx), 5000);
    assert_eq!(l.remote_hz, 100);
    assert_eq!(l.flag & (LP_VALID_RHZ | LP_VALID_OWD), LP_VALID_RHZ | LP_VALID_OWD);

    let mut l = fresh();
    l.remote_ref_time = 1000;
    l.local_ref_time = 5000;
    tcp_lp_rtt_sample(&mut l, &rx, 10);
    assert_eq!(l.owd_min, 5000);
    assert_eq!(l.owd_max, 5000);
    assert_eq!(l.owd_max_rsv, 5000);
    assert_eq!(l.sowd, 40000);
}

#[test]
fn early_congestion_inference() {
    let mut l = fresh();
    l.sowd = 40000;
    l.owd_min = 1000;
    l.owd_max = 2000;
    let mut t = tp(20);
    let rx = tcp_rx_opt { rcv_tsval: 0, rcv_tsecr: 400 };
    tcp_lp_pkts_acked(&mut l, &mut t, &rx, &ack_sample { rtt_us: 0 }, 500);
    assert_eq!(l.inference, 300);
    assert_eq!(t.snd_cwnd, 10);
    assert_eq!((l.owd_min, l.owd_max, l.owd_max_rsv), (5000, 10000, 10000));
    assert_eq!(l.last_drop, 500);
    assert_eq!(l.flag & (LP_WITHIN_INF | LP_WITHIN_THR), 0);

    tcp_lp_pkts_acked(&mut l, &mut t, &rx, &ack_sample { rtt_us: 0 }, 600);
    assert_eq!(l.inference, 600);
    assert_eq!(l.flag & (LP_WITHIN_INF | LP_WITHIN_THR), LP_WITHIN_INF | LP_WITHIN_THR);
    assert_eq!(t.snd_cwnd, 10);

    // within the inference time but past the threshold: window to 1
    l.owd_max = l.owd_min;
    tcp_lp_pkts_acked(&mut l, &mut t, &rx, &ack_sample { rtt_us: 0 }, 650);
    assert_eq!(t.snd_cwnd, 1);
}

#[test]
fn growth_pauses_within_inference() {
    let mut l = fresh();
    let mut t = tp(10);
    tcp_lp_cong_avoid(&l, &mut t, 0, 10, true);
    assert_eq!(t.snd_cwnd, 11);
    l.flag = LP_WITHIN_INF;
    tcp_lp_cong_avoid(&l, &mut t, 0, 11, true);
    assert_eq!(t.snd_cwnd, 11);
}

#[test]
fn lp_registration() {
    let mut reg = cong_registry { list: Vec::new() };
    assert_eq!(tcp_lp_register(&mut reg), 0);
    assert_eq!(reg.list.len(), 1);
    tcp_lp_unregister(&mut reg);
    assert_eq!(reg.list.len(), 0);
}
