use lib::tcp_minisocks::{after, before, tcp_in_window};
use lib::tcp_rate::{
    rate_sample, sk_buff as rate_skb, tcp_rate_check_app_limited, tcp_rate_gen, tcp_rate_skb_delivered,
    tcp_rate_skb_sent, tcp_rx_opt, tcp_skb_cb, tcp_skb_tx, tcp_sock as rate_sock, tcp_stamp_us_delta as rate_delta,
    unlikely, SKB_TRUESIZE,
};
use lib::tcp_recovery::{
    after as rack_after, before as rack_before, rate_sample as rack_rs, sk_buff, tcp_newreno_mark_lost,
    tcp_rack_advance, tcp_rack_detect_loss, tcp_rack_mark_lost, tcp_rack_reo_wnd, tcp_rack_sent_after,
    tcp_rack_update_reo_wnd, tcp_sock, tcp_stamp_us_delta, usecs_to_jiffies, NewRenoAction, RACK, TCP_SKB_CB,
};

#[test]
fn test_tcp_in_window() {
    assert!(tcp_in_window(100, 200, 100, 200));
    assert!(tcp_in_window(150, 160, 100, 200));
    assert!(!tcp_in_window(250, 300, 100, 200));
}

#[test]
fn sequence_comparisons() {
    assert!(after(5, 3));
    assert!(!after(3, 5));
    assert!(before(0xffff_fff0, 0x10));
    // Here `after` holds when the forward distance exceeds the backward one.
    assert!(!rack_after(0x10, 0xffff_fff0));
    assert!(rack_after(0xffff_fff0, 0x10));
    assert!(rack_before(2, 1));
    assert!(!rack_before(1, 2));
    assert!(!rack_after(7, 7));
}

#[test]
fn rack_time_helpers() {
    assert_eq!(usecs_to_jiffies(0), 0);
    assert_eq!(usecs_to_jiffies(1), 1);
    assert_eq!(usecs_to_jiffies(1000), 1);
    assert_eq!(usecs_to_jiffies(1001), 2);
    assert_eq!(tcp_stamp_us_delta(1500, 500), 1000);
    assert_eq!(tcp_stamp_us_delta(500, 1500), -1000);
    assert_eq!(tcp_stamp_us_delta(0x1_0000_0005, 5), 0);
    assert!(tcp_rack_sent_after(2, 1, 0, 0));
    assert!(!tcp_rack_sent_after(1, 1, 10, 5));
    assert!(tcp_rack_sent_after(1, 1, 5, 10));
    assert!(!tcp_rack_sent_after(1, 2, 10, 5));
}

fn rack(mstamp: u64, end_seq: u32) -> RACK {
    RACK { rtt_us: 100, mstamp, end_seq, advanced: 1, reo_wnd_steps: 1, dsack_seen: 0, reo_wnd_persist: 0, last_delivered: 0 }
}

fn tp(now: u64) -> tcp_sock {
    tcp_sock { reord_seen: 1, reordering: 3, sacked_out: 0, tcp_mstamp: now, srtt_us: 800, rack: rack(1000, 500), lost: 0, delivered: 10 }
}

fn seg(ts: u64, end_seq: u32, sacked: u8) -> sk_buff {
    sk_buff { cb: TCP_SKB_CB { sacked, end_seq }, tstamp_us: ts }
}

#[test]
fn rack_reordering_window() {
    let t = tp(2000);
    // min_rtt/4 * steps = 50, srtt/8 = 100.
    assert_eq!(tcp_rack_reo_wnd(&t, 0, 200), 50);
    let mut none = tp(2000);
    none.reord_seen = 0;
    none.sacked_out = 5;
    assert_eq!(tcp_rack_reo_wnd(&none, 0, 200), 0);
    assert_eq!(tcp_rack_reo_wnd(&tp(2000), 0, 4000), 100);
}

#[test]
fn rack_detects_losses_in_send_order() {
    let t = tp(1050);
    // rtt 100 + window 50 = 150 us of grace.
    let q = vec![seg(800, 100, 0), seg(950, 200, 0), seg(700, 300, 1), seg(850, 400, 0), seg(1001, 600, 0), seg(100, 700, 0)];
    let (lost, timeout) = tcp_rack_detect_loss(&t, &q, 0, 200);
    // Segment 0: 250us old -> lost; 1: 100us -> 50 left; 2 is marked lost and
    // passed over; 3 -> lost; 4 was sent after the delivered one: the scan stops.
    assert_eq!(lost, vec![0, 3]);
    assert_eq!(timeout, 50);

    let mut m = tp(1050);
    let (armed, lost2, jiffies) = tcp_rack_mark_lost(&mut m, &q, 0, 200);
    assert!(armed);
    assert_eq!(lost2, vec![0, 3]);
    assert_eq!(jiffies, 2);
    assert_eq!(m.rack.advanced, 0);
    let (armed2, _, _) = tcp_rack_mark_lost(&mut m, &q, 0, 200);
    assert!(!armed2);
}

#[test]
fn rack_advance_and_window_update() {
    let mut t = tp(5000);
    tcp_rack_advance(&mut t, 0, 700, 4000, 10);
    assert_eq!(t.rack.rtt_us, 1000);
    assert_eq!((t.rack.mstamp, t.rack.end_seq), (4000, 700));
    tcp_rack_advance(&mut t, 0, 900, 3000, 10);
    assert_eq!((t.rack.mstamp, t.rack.end_seq), (4000, 700));
    assert_eq!(t.rack.rtt_us, 2000);
    // A retransmission acknowledged too fast is ignored.
    let before_rtt = t.rack.rtt_us;
    tcp_rack_advance(&mut t, 0x04, 1000, 4999, 10);
    assert_eq!(t.rack.rtt_us, before_rtt);

    let mut w = tp(0);
    w.rack.dsack_seen = 1;
    w.rack.last_delivered = 100;
    w.delivered = 44;
    tcp_rack_update_reo_wnd(&mut w, 0, &rack_rs { prior_delivered: 50 });
    assert_eq!((w.rack.reo_wnd_steps, w.rack.dsack_seen, w.rack.last_delivered, w.rack.reo_wnd_persist), (2, 0, 44, 16));
    w.rack.reo_wnd_persist = 0;
    tcp_rack_update_reo_wnd(&mut w, 0, &rack_rs { prior_delivered: 40 });
    assert_eq!(w.rack.reo_wnd_steps, 1);
    w.rack.dsack_seen = 1;
    tcp_rack_update_reo_wnd(&mut w, 0x2, &rack_rs { prior_delivered: 40 });
    assert_eq!(w.rack.dsack_seen, 1);
    tcp_rack_update_reo_wnd(&mut w, 0, &rack_rs { prior_delivered: 50 });
    assert_eq!((w.rack.dsack_seen, w.rack.reo_wnd_steps), (0, 1));
}

#[test]
fn newreno_marks_head() {
    assert!(matches!(tcp_newreno_mark_lost(0, 3, 3, false, 0, 1, 100, 1000), NewRenoAction::MarkLost));
    assert!(matches!(tcp_newreno_mark_lost(0, 3, 3, false, 0, 2, 3000, 1000), NewRenoAction::SplitAndMarkLost));
    assert!(matches!(tcp_newreno_mark_lost(0, 2, 3, false, 0, 1, 100, 1000), NewRenoAction::Keep));
    assert!(matches!(tcp_newreno_mark_lost(2, 0, 3, true, 0, 1, 100, 1000), NewRenoAction::MarkLost));
    assert!(matches!(tcp_newreno_mark_lost(2, 0, 3, true, 1, 1, 100, 1000), NewRenoAction::Keep));
}

fn rsock() -> rate_sock {
    rate_sock {
        packets_out: 0,
        first_tx_mstamp: 0,
        delivered_mstamp: 0,
        delivered: 0,
        app_limited: 0,
        rate_delivered: 0,
        rate_interval_us: 0,
        rate_app_limited: 0,
        mss_cache: 1500,
        snd_cwnd: 10,
        write_seq: 0,
        snd_nxt: 0,
        retrans_out: 0,
        lost_out: 0,
        rx_opt: tcp_rx_opt { sack_ok: 0 },
        tcp_mstamp: 0,
        min_rtt: 100,
    }
}

fn rskb(ts: u64) -> rate_skb {
    rate_skb {
        cb: tcp_skb_cb {
            tx: tcp_skb_tx { first_tx_mstamp: 0, delivered_mstamp: 0, delivered: 0, is_app_limited: 0 },
            sacked: 0,
        },
        tstamp: ts,
    }
}

fn empty_rs() -> rate_sample {
    rate_sample {
        acked_sacked: 0,
        losses: 0,
        prior_delivered: 0,
        prior_mstamp: 0,
        delivered: 0,
        interval_us: 0,
        is_app_limited: 0,
        is_retrans: 0,
        snd_interval_us: 0,
        rcv_interval_us: 0,
    }
}

#[test]
fn test_tcp_rate_skb_sent() {
    let mut t = rsock();
    let mut skb = rskb(1000);
    tcp_rate_skb_sent(&mut t, &mut skb);
    assert_eq!((t.first_tx_mstamp, t.delivered_mstamp), (1000, 1000));
    assert_eq!(skb.cb.tx.first_tx_mstamp, 1000);
    assert_eq!(skb.cb.tx.is_app_limited, 0);
    t.packets_out = 1;
    t.app_limited = 5;
    let mut skb2 = rskb(2000);
    tcp_rate_skb_sent(&mut t, &mut skb2);
    assert_eq!(skb2.cb.tx.first_tx_mstamp, 1000);
    assert_eq!(skb2.cb.tx.is_app_limited, 1);
}

#[test]
fn rate_sample_generation() {
    let mut t = rsock();
    let mut skb = rskb(0);
    skb.cb.tx = tcp_skb_tx { first_tx_mstamp: 1_000_000, delivered_mstamp: 5, delivered: 3, is_app_limited: 0 };
    skb.tstamp = 3_000_000;
    skb.cb.sacked = 0x1;
    let mut rs = empty_rs();
    tcp_rate_skb_delivered(&mut t, &mut skb, &mut rs);
    assert_eq!((rs.prior_delivered, rs.prior_mstamp, rs.interval_us), (3, 5, 2000));
    assert_eq!(t.first_tx_mstamp, 3_000_000);
    assert_eq!(skb.cb.tx.delivered_mstamp, 0);

    t.delivered = 13;
    t.tcp_mstamp = 1_000_005;
    tcp_rate_gen(&mut t, 2, 0, false, &mut rs);
    assert_eq!(rs.delivered, 10);
    assert_eq!(rs.interval_us, 2000);
    assert_eq!(rs.rcv_interval_us, 1000);
    assert_eq!((t.rate_delivered, t.rate_interval_us), (10, 2000));

    let mut rs2 = empty_rs();
    tcp_rate_gen(&mut t, 1, 0, false, &mut rs2);
    assert_eq!((rs2.delivered, rs2.interval_us), (-1, -1));
    assert!(unlikely(true));
    assert_eq!(SKB_TRUESIZE(7), 7);
    assert_eq!(rate_delta(5000, 2000), 3);
}

#[test]
fn app_limited_detection() {
    let mut t = rsock();
    t.delivered = 7;
    t.packets_out = 2;
    tcp_rate_check_app_limited(&mut t, 0);
    assert_eq!(t.app_limited, 9);
    let mut busy = rsock();
    busy.write_seq = 3000;
    tcp_rate_check_app_limited(&mut busy, 0);
    assert_eq!(busy.app_limited, 0);
    let mut queued = rsock();
    tcp_rate_check_app_limited(&mut queued, 1);
    assert_eq!(queued.app_limited, 0);
    let mut zero = rsock();
    tcp_rate_check_app_limited(&mut zero, 0);
    assert_eq!(zero.app_limited, 1);
}
