use lib::tcp_output::{
    tcp_acceptable_seq, tcp_advertise_mss, tcp_event_new_data_sent, tcp_mstamp_refresh,
    tcp_mstamp_refresh_at, tcp_rx_opt, tcp_select_initial_window, tcp_select_window, tcp_sock,
};

fn zeroed() -> tcp_sock {
    tcp_sock {
        tcp_clock_cache: 0,
        tcp_mstamp: 0,
        snd_una: 0,
        snd_wnd: 0,
        snd_nxt: 0,
        snd_cwnd: 0,
        snd_ssthresh: 0,
        snd_cwnd_stamp: 0,
        snd_cwnd_used: 0,
        packets_out: 0,
        highest_sack: None,
        rx_opt: tcp_rx_opt { wscale_ok: 0, rcv_wscale: 0 },
        rcv_wnd: 0,
        rcv_wup: 0,
        rcv_nxt: 0,
        rcv_wscale: 0,
        ecn_flags: 0,
        advmss: 0,
        pred_flags: 0,
    }
}

#[test]
fn test_tcp_mstamp_refresh() {
    let mut tp = zeroed();
    tcp_mstamp_refresh(&mut tp);
    assert!(tp.tcp_clock_cache > 0);
    assert!(tp.tcp_mstamp > 0);
}

#[test]
fn mstamp_is_the_clock_in_microseconds() {
    let mut tp = zeroed();
    tcp_mstamp_refresh_at(&mut tp, 5_000_999);
    assert_eq!(tp.tcp_clock_cache, 5_000_999);
    assert_eq!(tp.tcp_mstamp, 5_000);
}

#[test]
fn new_data_advances_snd_nxt_and_counts_in_flight() {
    let mut tp = zeroed();
    let r = tcp_event_new_data_sent(&mut tp, 100, 1548, 1);
    assert_eq!(tp.snd_nxt, 1548);
    assert_eq!(tp.highest_sack, Some(100));
    assert_eq!(tp.packets_out, 1);
    assert!(r.rearm_rto);
    assert_eq!(r.orig_data_sent, 1);
    let r = tcp_event_new_data_sent(&mut tp, 1548, 2996, 2);
    assert_eq!(tp.highest_sack, Some(100));
    assert_eq!(tp.packets_out, 3);
    assert!(!r.rearm_rto);
}

#[test]
fn acceptable_seq_inside_and_past_the_window() {
    let mut tp = zeroed();
    tp.snd_una = 1000;
    tp.snd_wnd = 500;
    tp.snd_nxt = 1200;
    assert_eq!(tcp_acceptable_seq(&tp), 1200);
    tp.snd_nxt = 2000;
    assert_eq!(tcp_acceptable_seq(&tp), 1500);
    tp.rx_opt.wscale_ok = 1;
    tp.rx_opt.rcv_wscale = 10;
    assert_eq!(tcp_acceptable_seq(&tp), 2000);
}

#[test]
fn advertised_mss_follows_a_smaller_route_metric() {
    let mut tp = zeroed();
    tp.advmss = 1460;
    assert_eq!(tcp_advertise_mss(&mut tp, None), 1460);
    assert_eq!(tcp_advertise_mss(&mut tp, Some(1400)), 1400);
    assert_eq!(tp.advmss, 1400);
    assert_eq!(tcp_advertise_mss(&mut tp, Some(1500)), 1400);
}

#[test]
fn initial_window_rounds_to_segments_and_scales() {
    let mut rcv_wnd: u32 = 0;
    let mut clamp: u32 = 0;
    let mut wscale: u8 = 0;
    tcp_select_initial_window(65535, 1460, &mut rcv_wnd, &mut clamp, true, &mut wscale, 0);
    assert_eq!(rcv_wnd, 64240);
    assert_eq!(wscale, 14);
    assert_eq!(clamp, 65535u32 << 14);

    let mut rcv_wnd: u32 = 0;
    let mut clamp: u32 = 100_000;
    let mut wscale: u8 = 9;
    tcp_select_initial_window(-5, 1460, &mut rcv_wnd, &mut clamp, false, &mut wscale, 10);
    assert_eq!(rcv_wnd, 0);
    assert_eq!(wscale, 0);
    assert_eq!(clamp, 65535);

    let mut rcv_wnd: u32 = 0;
    let mut clamp: u32 = 1 << 20;
    let mut wscale: u8 = 0;
    tcp_select_initial_window(1 << 20, 1000, &mut rcv_wnd, &mut clamp, true, &mut wscale, 10);
    assert_eq!(rcv_wnd, 10_000);
    assert_eq!(wscale, 5);
    assert_eq!(clamp, 65535u32 << 5);
}

#[test]
fn selected_window_never_shrinks_and_is_scaled() {
    let mut tp = zeroed();
    tp.rx_opt.rcv_wscale = 2;
    tp.rcv_nxt = 77;
    tp.rcv_wnd = 100;
    let (w, ev) = tcp_select_window(&mut tp, 1001, 0, false);
    assert_eq!(tp.rcv_wnd, 1004);
    assert_eq!(tp.rcv_wup, 77);
    assert_eq!(w, 251);
    assert!(ev.want_zero);
    assert!(!ev.to_zero);

    let mut tp = zeroed();
    tp.rcv_wnd = 10;
    tp.pred_flags = 7;
    let (w, ev) = tcp_select_window(&mut tp, 0, 0, true);
    assert_eq!(w, 0);
    assert_eq!(tp.pred_flags, 0);
    assert!(ev.to_zero);

    let mut tp = zeroed();
    let (w, ev) = tcp_select_window(&mut tp, 0, 100_000, true);
    assert_eq!(w, 65535);
    assert_eq!(tp.rcv_wnd, 100_000);
    assert!(ev.from_zero);
}
