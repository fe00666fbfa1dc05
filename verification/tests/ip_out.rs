use lib::ip_output::{
    __ip_local_out, dst_out, ip_build_and_send_pkt, ip_fast_csum, ip_local_out, ip_send_check, out_env, sk_buff,
    sock_out, ETH_P_IP,
};

fn sample() -> Vec<u8> {
    vec![
        0x45, 0x00, 0x00, 0x73, 0x00, 0x00, 0x40, 0x00, 0x40, 0x11, 0x12, 0x34, 0xc0, 0xa8, 0x00, 0x01, 0xc0, 0xa8, 0x00,
        0xc7,
    ]
}

#[test]
fn header_checksum_known_value() {
    let mut h = sample();
    ip_send_check(&mut h);
    assert_eq!((h[10], h[11]), (0xb8, 0x61));
    // a header whose checksum was just set checks out
    assert_eq!(ip_fast_csum(&h, 20), 0);
    assert_eq!(ip_fast_csum(&vec![0, 0], 2), 0xffff);
}

fn env(consumed: bool, verdict: i32) -> out_env {
    out_env { ident: 0x1234, spec_dst: 0, timestamp: 0, l3mdev_consumed: consumed, nf_verdict: verdict, output_ret: 7 }
}

#[test]
fn local_out_paths() {
    let mut skb = sk_buff { data: sample(), priority: 0, mark: 0, protocol: 0 };
    skb.data.extend_from_slice(&[1, 2, 3, 4]);
    assert_eq!(__ip_local_out(&mut skb, false, 1), 1);
    assert_eq!((skb.data[2], skb.data[3]), (0, 24));
    assert_eq!(ip_fast_csum(&skb.data, 20), 0);
    assert_eq!(skb.protocol, ETH_P_IP);
    let mut skb = sk_buff { data: sample(), priority: 0, mark: 0, protocol: 9 };
    assert_eq!(ip_local_out(&mut skb, &env(true, 1)), 0);
    assert_eq!(skb.protocol, 9);
    let mut skb = sk_buff { data: sample(), priority: 0, mark: 0, protocol: 9 };
    assert_eq!(ip_local_out(&mut skb, &env(false, 1)), 7);
    let mut skb = sk_buff { data: sample(), priority: 0, mark: 0, protocol: 9 };
    assert_eq!(ip_local_out(&mut skb, &env(false, -1)), -1);
}

#[test]
fn build_and_send_header() {
    let sk = sock_out { uc_ttl: -1, pmtudisc: 2, protocol: 6, priority: 3, mark: 8 };
    let dst = dst_out { hoplimit: 64, mtu_locked: false };
    let mut skb = sk_buff { data: vec![0xaa; 8], priority: 0, mark: 5, protocol: 0 };
    let r = ip_build_and_send_pkt(&mut skb, &sk, 0x0a00_0001, 0x0a00_0002, None, 0x10, &dst, &env(false, 1));
    assert_eq!(r, 7);
    let d = &skb.data;
    assert_eq!(d.len(), 28);
    assert_eq!(&d[0..10], &[0x45, 0x10, 0, 28, 0, 0, 0x40, 0, 64, 6]);
    assert_eq!(&d[12..20], &[10, 0, 0, 1, 10, 0, 0, 2]);
    assert_eq!(ip_fast_csum(d, 20), 0);
    assert_eq!((skb.priority, skb.mark), (3, 5));
    // without don't-fragment the generator's identification is used
    let sk2 = sock_out { uc_ttl: 12, pmtudisc: 0, protocol: 17, priority: 0, mark: 8 };
    let mut skb = sk_buff { data: vec![], priority: 0, mark: 0, protocol: 0 };
    ip_build_and_send_pkt(&mut skb, &sk2, 1, 2, None, 0, &dst, &env(false, 1));
    assert_eq!(&skb.data[4..9], &[0x12, 0x34, 0, 0, 12]);
    assert_eq!(skb.mark, 8);
}
