use lib::tcp_bbr::{bbr, bbr_bw, bbr_extra_acked, bbr_full_bw_reached, bbr_max_bw, minmax, minmax_get, BBR_STARTUP};

#[test]
fn test_bbr_flags() {
    let mut bbr = bbr { flags: 0, ..Default::default() };
    bbr.flags = (bbr.flags & !0x7) | BBR_STARTUP;
    bbr.flags |= 0x1;
    assert_eq!(bbr_full_bw_reached(&bbr), 1);
}

#[test]
fn bandwidth_readings() {
    let mut b = bbr { lt_bw: 77, ..Default::default() };
    assert_eq!(bbr_full_bw_reached(&b), 0);
    b.bw.max = 1234;
    assert_eq!(bbr_max_bw(&b), 1234);
    assert_eq!(bbr_bw(&b), 77);
    assert_eq!(minmax_get(&minmax { max: 9, ..Default::default() }), 9);
    b.extra_acked = [5, 6];
    b.extra_acked_win_idx = 1;
    assert_eq!(bbr_extra_acked(&b), 6);
}
