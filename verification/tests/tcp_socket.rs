use lib::tcp::{tcp_sock_init, TcpSock};

fn zeroed() -> TcpSock {
    TcpSock {
        state: 0,
        snd_una: 0,
        snd_nxt: 0,
        rcv_nxt: 0,
        write_seq: 0,
        copied_seq: 0,
        rcv_wup: 0,
        rto: 0,
        ato: 0,
        retransmits: 0,
        backoff: 0,
        probes: 0,
        keepalive_time: 0,
        keepalive_probes: 0,
        keepalive_intvl: 0,
        pingpong: 0,
        timeout: 0,
        ts_recent: 0,
        ts_recent_stamp: 0,
        snd_wnd: 0,
        rcv_wnd: 0,
        snd_wl1: 0,
        snd_wnd_scaled: 0,
        rcv_wnd_scaled: 0,
        mss: 0,
        mss_clamped: 0,
        window_clamp: 0,
        num: 0,
        state_process: 0,
        retransmit_timer: 0,
        keepalive_timer: 0,
        persist_timer: 0,
        keepopen: 0,
        syn_retries: 0,
        keepalive: 0,
        timewait: 0,
        ack: 0,
        urg: 0,
        psh: 0,
        rst: 0,
        syn: 0,
        fin: 0,
    }
}

#[test]
fn test_tcp_sock_init() {
    let mut sock = zeroed();
    assert_eq!(tcp_sock_init(&mut sock), 0);
    assert_eq!(sock.state, 0);
    assert_eq!(sock.rto, 1000);
    assert_eq!(sock.mss, 536);
}

#[test]
fn tcp_sock_init_resets_sequence_numbers_only() {
    let mut sock = zeroed();
    sock.snd_nxt = 77;
    sock.rcv_wnd = 5;
    sock.keepalive_probes = 9;
    tcp_sock_init(&mut sock);
    assert_eq!(sock.snd_nxt, 0);
    assert_eq!(sock.keepalive_time, 7200);
    assert_eq!(sock.rcv_wnd, 5);
    assert_eq!(sock.keepalive_probes, 9);
}
