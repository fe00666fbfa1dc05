use lib::tcp_minisocks::{
    tcp_options_received, tcp_paws_reject, tcp_sock, tcp_time_wait, tcp_timewait_check_oow_rate_limit,
    tcp_timewait_sock, tcp_timewait_state_process, tcphdr, tw_env, TCP_FIN_WAIT2, TCP_TIMEWAIT_LEN, TCP_TIME_WAIT,
    TCP_TW_ACK, TCP_TW_RST, TCP_TW_SUCCESS, TCP_TW_SYN,
};

fn tw(substate: i32) -> tcp_timewait_sock {
    tcp_timewait_sock {
        tw_substate: substate,
        tw_rcv_wscale: 0,
        tw_transparent: 0,
        tw_mark: 0,
        tw_priority: 0,
        tw_rcv_nxt: 1000,
        tw_snd_nxt: 5000,
        tw_rcv_wnd: 500,
        tw_ts_recent: 0,
        tw_ts_recent_stamp: 0,
        tw_ts_offset: 0,
        tw_last_oow_ack_time: 0,
        tw_tx_delay: 0,
    }
}

fn th(rst: u8, syn: u8, ack: u8, fin: u8) -> tcphdr {
    tcphdr { doff: 5, rst, syn, ack, fin }
}

fn no_opts() -> tcp_options_received {
    tcp_options_received { saw_tstamp: 0, rcv_tsecr: 0, ts_recent: 0, ts_recent_stamp: 0, rcv_tsval: 0 }
}

fn env() -> tw_env {
    tw_env { now_secs: 100, now_ticks: 10_000, rfc1337: false, ratelimit: 500 }
}

#[test]
fn fin_wait2_fin_enters_time_wait() {
    let mut t = tw(TCP_FIN_WAIT2);
    let v = tcp_timewait_state_process(&mut t, &th(0, 0, 1, 1), 1000, 1001, &no_opts(), &env());
    assert_eq!(v.code, TCP_TW_ACK);
    assert!(v.reschedule);
    assert_eq!(t.tw_substate, TCP_TIME_WAIT);
    assert_eq!(t.tw_rcv_nxt, 1001);
}

#[test]
fn fin_wait2_other_segments() {
    // out of window: rate-limited ACK (first one is sent)
    let mut t = tw(TCP_FIN_WAIT2);
    let v = tcp_timewait_state_process(&mut t, &th(0, 0, 1, 0), 3000, 3000, &no_opts(), &env());
    assert_eq!(v.code, TCP_TW_ACK);
    assert_eq!(t.tw_last_oow_ack_time, 10_000);
    // a second one right after is limited
    let v = tcp_timewait_state_process(&mut t, &th(0, 0, 1, 0), 3000, 3000, &no_opts(), &env());
    assert_eq!(v.code, TCP_TW_SUCCESS);
    assert!(v.put);
    // reset kills
    let mut t = tw(TCP_FIN_WAIT2);
    let v = tcp_timewait_state_process(&mut t, &th(1, 0, 0, 0), 1000, 1000, &no_opts(), &env());
    assert!(v.kill);
    // SYN at the expected sequence: reset
    let v = tcp_timewait_state_process(&mut t, &th(0, 1, 0, 0), 1000, 1001, &no_opts(), &env());
    assert_eq!(v.code, TCP_TW_RST);
    // duplicate ACK: dropped
    let v = tcp_timewait_state_process(&mut t, &th(0, 0, 1, 0), 1000, 1000, &no_opts(), &env());
    assert_eq!(v.code, TCP_TW_SUCCESS);
    assert!(v.put);
    // new data: reset
    let v = tcp_timewait_state_process(&mut t, &th(0, 0, 1, 0), 1000, 1100, &no_opts(), &env());
    assert_eq!(v.code, TCP_TW_RST);
}

#[test]
fn time_wait_segments() {
    let mut t = tw(TCP_TIME_WAIT);
    let v = tcp_timewait_state_process(&mut t, &th(0, 0, 1, 0), 1000, 1000, &no_opts(), &env());
    assert_eq!(v.code, TCP_TW_SUCCESS);
    assert!(v.reschedule && v.put);
    // assassination by reset, unless RFC 1337 protection is on
    let v = tcp_timewait_state_process(&mut t, &th(1, 0, 0, 0), 1000, 1000, &no_opts(), &env());
    assert!(v.kill);
    let protected = tw_env { rfc1337: true, ..env() };
    let v = tcp_timewait_state_process(&mut t, &th(1, 0, 0, 0), 1000, 1000, &no_opts(), &protected);
    assert!(!v.kill && v.put);
    // a fresh SYN may reopen
    let v = tcp_timewait_state_process(&mut t, &th(0, 1, 0, 0), 2000, 2001, &no_opts(), &env());
    assert_eq!(v.code, TCP_TW_SYN);
    assert_eq!(v.isn, Some(5000 + 65537));
    // anything else: rate-limited ACK
    let v = tcp_timewait_state_process(&mut t, &th(0, 0, 1, 0), 900, 950, &no_opts(), &env());
    assert_eq!(v.code, TCP_TW_ACK);
    assert!(v.reschedule);
    // a stray reset: dropped
    let v = tcp_timewait_state_process(&mut t, &th(1, 0, 0, 0), 900, 900, &no_opts(), &env());
    assert_eq!(v.code, TCP_TW_SUCCESS);
    assert!(v.put && !v.kill);
}

#[test]
fn paws_with_timestamps() {
    let o = tcp_options_received { saw_tstamp: 1, rcv_tsecr: 0, ts_recent: 500, ts_recent_stamp: 90, rcv_tsval: 400 };
    assert!(tcp_paws_reject(&o, false, 100));
    assert!(!tcp_paws_reject(&o, true, 200));
    let newer = tcp_options_received { rcv_tsval: 600, ..o };
    assert!(!tcp_paws_reject(&newer, false, 100));

    let mut t = tw(TCP_TIME_WAIT);
    t.tw_ts_recent = 500;
    t.tw_ts_recent_stamp = 90;
    let hdr = tcphdr { doff: 8, rst: 0, syn: 0, ack: 1, fin: 0 };
    let v = tcp_timewait_state_process(&mut t, &hdr, 1000, 1000, &o, &env());
    assert!(v.paws_rejected);
    assert_eq!(v.code, TCP_TW_ACK);
    let v = tcp_timewait_state_process(&mut t, &hdr, 1000, 1000, &newer, &env());
    assert!(!v.paws_rejected);
    assert_eq!(t.tw_ts_recent, 600);
    assert_eq!(t.tw_ts_recent_stamp, 100);
}

#[test]
fn oow_rate_limit() {
    let mut t = tw(TCP_TIME_WAIT);
    assert_eq!(tcp_timewait_check_oow_rate_limit(&mut t, 5, 9, false, 100, 500), (TCP_TW_ACK, false));
    assert_eq!(t.tw_last_oow_ack_time, 0);
    assert_eq!(tcp_timewait_check_oow_rate_limit(&mut t, 5, 5, false, 100, 500), (TCP_TW_ACK, false));
    assert_eq!(tcp_timewait_check_oow_rate_limit(&mut t, 5, 5, false, 300, 500), (TCP_TW_SUCCESS, true));
    assert_eq!(tcp_timewait_check_oow_rate_limit(&mut t, 5, 5, false, 700, 500), (TCP_TW_ACK, false));
    assert_eq!(t.tw_last_oow_ack_time, 700);
}

#[test]
fn entering_time_wait() {
    let tp = tcp_sock {
        transparent: 0,
        sk_mark: 3,
        sk_priority: 4,
        rcv_wscale: 7,
        rcv_nxt: 1000,
        snd_nxt: 2000,
        rcv_wup: 900,
        rcv_wnd: 300,
        ts_recent: 11,
        ts_recent_stamp: 12,
        tsoffset: 13,
        tcp_tx_delay: 0,
        icsk_rto: 200,
    };
    assert!(tcp_time_wait(&tp, TCP_TIME_WAIT, 0, false).is_none());
    let (t, timeo) = tcp_time_wait(&tp, TCP_TIME_WAIT, 0, true).unwrap();
    assert_eq!(t.tw_rcv_wnd, 200);
    assert_eq!(t.tw_rcv_nxt, 1000);
    assert_eq!(t.tw_ts_offset, 13);
    assert_eq!(timeo, TCP_TIMEWAIT_LEN as i32);
    let (_, timeo) = tcp_time_wait(&tp, TCP_FIN_WAIT2, 10, true).unwrap();
    assert_eq!(timeo, 700);
    let (_, timeo) = tcp_time_wait(&tp, TCP_FIN_WAIT2, 5000, true).unwrap();
    assert_eq!(timeo, 5000);
}
