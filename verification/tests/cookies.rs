use lib::syncookies::{
    __cookie_v4_check, __cookie_v4_init_sequence, check_tcp_syn_cookie, cookie_hash, cookie_init_timestamp,
    cookie_v4_init_sequence, iphdr, secure_tcp_syn_cookie, siphash_4u32, siphash_key_t, tcphdr,
};

fn zero_secret() -> [siphash_key_t; 2] {
    [siphash_key_t { key: [0; 2] }, siphash_key_t { key: [0; 2] }]
}

fn secret() -> [siphash_key_t; 2] {
    [siphash_key_t { key: [0x1234, 0x5678] }, siphash_key_t { key: [0xdead_beef, 0x0bad_f00d] }]
}

#[test]
fn test_cookie_hash() {
    let result = cookie_hash(&zero_secret(), 1, 2, 3, 4, 0, 0);
    assert!(result != 0);
}

#[test]
fn cookie_hash_values() {
    assert_eq!(cookie_hash(&zero_secret(), 1, 2, 3, 4, 0, 0), 0x0100_0a00);
    assert_eq!(cookie_hash(&secret(), 1, 2, 3, 4, 0, 0), 0x1b00_5c78);
    assert_eq!(siphash_4u32(1, 2, 0x0003_0004, 0, &[0, 0]), 0x0100_0a00);
}

#[test]
fn cookie_round_trip_values() {
    let s = secret();
    for data in [0u32, 1, 3, 0x00ff_ffff] {
        let c = secure_tcp_syn_cookie(&s, 10, 20, 1000, 80, 0xfeed_0000, data, 77);
        assert_eq!(check_tcp_syn_cookie(&s, c, 10, 20, 1000, 80, 0xfeed_0000, 77), data);
        assert_eq!(check_tcp_syn_cookie(&s, c, 10, 20, 1000, 80, 0xfeed_0000, 79), data);
        // three steps later the cookie has expired
        assert_eq!(check_tcp_syn_cookie(&s, c, 10, 20, 1000, 80, 0xfeed_0000, 80), u32::MAX);
    }
}

#[test]
fn cookie_mss_round_trip() {
    let s = secret();
    let iph = iphdr { saddr: 0x0a00_0001, daddr: 0x0a00_0002 };
    let syn = tcphdr { source: 5000, dest: 80, seq: 0x0100_0000, ack_seq: 0 };
    let mut mss = 1400u16;
    let isn = __cookie_v4_init_sequence(&s, 9, &iph, &syn, &mut mss);
    assert_eq!(mss, 1300);
    // the ACK: sequence number one past the SYN's (network order), cookie echoed
    let ack = tcphdr { source: 5000, dest: 80, seq: 0x0200_0000, ack_seq: 0 };
    assert_eq!(__cookie_v4_check(&s, 10, &iph, &ack, isn), 1300);
    assert_eq!(__cookie_v4_check(&s, 12, &iph, &ack, isn), 0);
    let mut small = 100u16;
    let isn2 = cookie_v4_init_sequence(&s, 9, &iph, &syn, &mut small);
    assert_eq!(small, 536);
    assert_eq!(__cookie_v4_check(&s, 9, &iph, &ack, isn2), 536);
    let mut big = 9000u16;
    __cookie_v4_init_sequence(&s, 9, &iph, &syn, &mut big);
    assert_eq!(big, 1460);
}

#[test]
fn cookie_timestamp() {
    // 1 s = 1000 ms; 1000 = 0b1111101000: low six bits replaced by the options
    let now = 1_000_000_000u64;
    // window scale 7, SACK: options 7 | 16 = 23; 1000 & !63 = 960; 960 | 23 = 983 <= 1000
    assert_eq!(cookie_init_timestamp(1, 7, 1, 0, now), 983 * 1_000_000);
    // no window scale, ECN: 63 | 32 = 63; 960 | 63 = 1023 > 1000, so 896 | 63 = 959
    assert_eq!(cookie_init_timestamp(0, 7, 0, 1, now), 959 * 1_000_000);
}
