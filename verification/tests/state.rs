use lib::esp4::{esp_alloc_tmp, esp_alloc_tmp_len, esp_sizes, ALIGN};
use lib::fib_notifier::{call_fib4_notifier, call_fib4_notifiers, fib4_dump, fib4_notifier_init, fib4_seq_read, FibNotifierInfo, Net};
use lib::inet_timewait_sock::{
    __inet_twsk_schedule, inet_bind_hashbucket, inet_ehash_bucket, inet_hashinfo, inet_timewait_death_row,
    inet_twsk_alloc, inet_twsk_deschedule_put, inet_twsk_hashdance, inet_twsk_kill, inet_twsk_purge, inet_twsk_put,
    sock_info,
};
use lib::ip_sockglue::{cmsghdr, ip_cmsg_recv_offset, ip_cmsg_send, ip_ra_control, rcv_info, send_cmsg};
use lib::ipmr_base::{mr_mfc, mr_mfc_find_any, mr_mfc_find_any_parent, mr_mfc_find_parent, mr_table_alloc, vif_device, vif_device_init};
use lib::tcp_bpf::{
    bpf_tcp_ingress, sg_element, sk_msg, tcp_bpf_push_req, tcp_bpf_push_sent, tcp_bpf_sendmsg_redir, PushStep,
    MSG_SENDPAGE_NOPOLICY,
};
use lib::tcp_fastopen::{
    __tcp_fastopen_cookie_gen_cipher, fastopen_state, tcp_fastopen_cookie, tcp_fastopen_cookie_gen, tcp_fastopen_get_ctx, tcp_fastopen_ctx_destroy,
    tcp_fastopen_get_cipher, tcp_fastopen_init_key_once, tcp_fastopen_reset_cipher,
};

#[test]
fn test_alignment() {
    assert_eq!(ALIGN(0, 8), 0);
    assert_eq!(ALIGN(1, 8), 8);
    assert_eq!(ALIGN(8, 8), 8);
    assert_eq!(ALIGN(9, 8), 16);
    assert_eq!(ALIGN(5, 1), 5);
    // Extra 4 bytes + 16-byte IV = 20, aligned to 24.
    assert_eq!(esp_alloc_tmp(3, 4).len(), 24);
    assert_eq!(esp_alloc_tmp(0, 0).len(), 16);
    let z = esp_sizes { ivsize: 12, alignmask: 15, ctx_align: 8, req_size: 10, reqsize: 6, sg_size: 32, sg_align: 8 };
    // 4 + 12 = 16; + (15 & !7 = 8) = 24 -> 24; + 16 = 40 -> 40; + 2 * 32 = 104.
    assert_eq!(esp_alloc_tmp_len(&z, 2, 4), 104);
}

fn info() -> rcv_info {
    rcv_info {
        daddr: 0x0100_000a,
        spec_dst: 0x0200_000a,
        ifindex: 3,
        ttl: 64,
        tos: 0x10,
        opts: vec![],
        retopts: vec![],
        secdata: vec![],
        orig_port: 0x3412,
        orig_addr: 0x0100_000a,
        csum: 0xdead_beef,
        frag_max_size: 0,
    }
}

#[test]
fn test_ip_cmsg_recv_offset() {
    let mut msg: Vec<cmsghdr> = Vec::new();
    ip_cmsg_recv_offset(&mut msg, 0x1 | 0x2 | 0x4 | 0x8 | 0x100, &info());
    // No options and no fragment size: only packet info, TTL and TOS.
    assert_eq!(msg.len(), 3);
    assert_eq!((msg[0].cmsg_level, msg[0].cmsg_type), (0, 1));
    assert_eq!(msg[0].data, vec![10, 0, 0, 1, 10, 0, 0, 2, 3, 0, 0, 0]);
    assert_eq!((msg[1].cmsg_type, msg[1].data.clone()), (2, vec![64, 0, 0, 0]));
    assert_eq!((msg[2].cmsg_type, msg[2].data.clone()), (3, vec![0x10]));

    let mut i2 = info();
    i2.opts = vec![1, 1, 1, 0];
    i2.frag_max_size = 1400;
    let mut m2: Vec<cmsghdr> = Vec::new();
    ip_cmsg_recv_offset(&mut m2, 0x8 | 0x40 | 0x80 | 0x100, &i2);
    assert_eq!(m2.len(), 4);
    assert_eq!((m2[0].cmsg_type, m2[0].data.clone()), (4, vec![1, 1, 1, 0]));
    assert_eq!(m2[1].cmsg_type, 7);
    assert_eq!(m2[1].data, vec![2, 0, 0x12, 0x34, 10, 0, 0, 1, 0, 0, 0, 0, 0, 0, 0, 0]);
    assert_eq!((m2[2].cmsg_type, m2[2].data.clone()), (8, vec![0xef, 0xbe, 0xad, 0xde]));
    assert_eq!((m2[3].cmsg_type, m2[3].data.clone()), (9, vec![0x78, 0x05, 0, 0]));

    let mut none: Vec<cmsghdr> = Vec::new();
    ip_cmsg_recv_offset(&mut none, 0, &info());
    assert!(none.is_empty());
}

#[test]
fn ip_cmsg_send_checks_kinds_and_bounds() {
    let ok = vec![send_cmsg { cmsg_len: 20, cmsg_level: 0, cmsg_type: 2 }, send_cmsg { cmsg_len: 24, cmsg_level: 1, cmsg_type: 99 }];
    assert_eq!(ip_cmsg_send(&ok, 44), 0);
    assert_eq!(ip_cmsg_send(&ok, 43), -22);
    let bad = vec![send_cmsg { cmsg_len: 20, cmsg_level: 0, cmsg_type: 9 }];
    assert_eq!(ip_cmsg_send(&bad, 100), -22);
    let short = vec![send_cmsg { cmsg_len: 8, cmsg_level: 0, cmsg_type: 2 }];
    assert_eq!(ip_cmsg_send(&short, 100), -22);
    assert_eq!(ip_ra_control(3, true, true), -22);
    assert_eq!(ip_ra_control(1, true, false), -12);
    assert_eq!(ip_ra_control(1, false, false), 0);
}

#[test]
fn test_vif_device_init() {
    let mut v = vif_device { dev: Some(1), bytes_in: 5, bytes_out: 6, pkt_in: 7, pkt_out: 8, rate_limit: 0, flags: 0, threshold: 0, link: 0 };
    vif_device_init(&mut v, 4, 9, 1000, 2, 0x8, 0x8);
    assert_eq!(v.dev, None);
    assert_eq!((v.bytes_in, v.bytes_out, v.pkt_in, v.pkt_out), (0, 0, 0, 0));
    assert_eq!((v.rate_limit, v.threshold, v.flags, v.link), (1000, 2, 0x8, 9));
    vif_device_init(&mut v, 4, 9, 1000, 2, 0x1, 0x8);
    assert_eq!(v.link, 4);
}

fn entry(key: u64, parent: i32, fwd: &[usize]) -> mr_mfc {
    let mut ttls = vec![255u8; 32];
    for &i in fwd {
        ttls[i] = 1;
    }
    mr_mfc { key, mfc_parent: parent, mfc_flags: 0, ttls }
}

#[test]
fn multicast_cache_lookup() {
    assert_eq!(mr_table_alloc(1, 0, false, 0).err(), Some(12));
    assert_eq!(mr_table_alloc(1, 0, true, -7).err(), Some(-7));
    let mut t = mr_table_alloc(1, 99, true, 0).ok().unwrap();
    assert_eq!(t.mroute_reg_vif_num, -1);
    t.mfc = vec![entry(5, 2, &[3]), entry(5, 4, &[1]), entry(99, 1, &[1, 6]), entry(7, 1, &[])];
    assert_eq!(mr_mfc_find_parent(&t, 5, 4), Some(1));
    assert_eq!(mr_mfc_find_parent(&t, 5, -1), Some(0));
    assert_eq!(mr_mfc_find_parent(&t, 5, 9), None);
    assert_eq!(mr_mfc_find_any_parent(&t, 6), Some(2));
    assert_eq!(mr_mfc_find_any_parent(&t, 3), None);
    // Entry 1 forwards to interface 1.
    assert_eq!(mr_mfc_find_any(&t, 1, 5), Some(1));
    // Entry 3 (key 7) qualifies through the wildcard entry for its parent.
    assert_eq!(mr_mfc_find_any(&t, 6, 7), Some(3));
    // Nothing for key 8: the wildcard entry forwarding to interface 6.
    assert_eq!(mr_mfc_find_any(&t, 6, 8), Some(2));
    assert_eq!(mr_mfc_find_any(&t, 20, 8), None);
}

fn sk() -> sock_info {
    sock_info {
        id: 1,
        daddr: 2,
        rcv_saddr: 3,
        bound_dev_if: 0,
        tos: 0,
        num: 80,
        sport: 0x5000,
        dport: 0x1234,
        family: 2,
        reuse: 1,
        reuseport: 0,
        hash: 5,
        transparent: 0,
        cookie: 77,
    }
}

#[test]
fn test_inet_twsk_put() {
    let full = inet_timewait_death_row { tw_count: 10, sysctl_max_tw_buckets: 10 };
    assert!(inet_twsk_alloc(&sk(), &full, 0, 100, true).is_none());
    let mut dr = inet_timewait_death_row { tw_count: 0, sysctl_max_tw_buckets: 10 };
    assert!(inet_twsk_alloc(&sk(), &dr, 0, 100, false).is_none());
    let mut tw = inet_twsk_alloc(&sk(), &dr, 5, 100, true).unwrap();
    assert_eq!((tw.tw_state, tw.tw_substate, tw.tw_num, tw.tw_refcnt, tw.tw_cookie), (6, 5, 80, 0, 77));

    let mut hi = inet_hashinfo { ehash: vec![inet_ehash_bucket { chain: vec![] }, inet_ehash_bucket { chain: vec![9, 1] }], ehash_mask: 1 };
    let mut bucket = inet_bind_hashbucket { owners: vec![1] };
    assert!(inet_twsk_hashdance(&mut tw, 1, 5, &mut bucket, &mut hi));
    assert_eq!(hi.ehash[1].chain, vec![100, 9]);
    assert_eq!(bucket.owners, vec![100, 1]);
    assert_eq!(tw.tw_refcnt, 3);

    __inet_twsk_schedule(&mut tw, &mut dr, 60 * 100, false, 1000);
    assert_eq!(dr.tw_count, 1);
    assert_eq!(tw.timer_expires, Some(7000));
    assert!(!tw.tw_kill);

    // The caller drops its reference.
    assert_eq!(inet_twsk_put(&mut tw), (1, false));
    assert_eq!(tw.tw_refcnt, 2);
    // The timer fires: the socket leaves the tables and the last references go.
    assert!(inet_twsk_kill(&mut tw, &mut dr, &mut hi));
    assert_eq!(hi.ehash[1].chain, vec![9]);
    assert_eq!(dr.tw_count, 0);
    assert_eq!(tw.tw_refcnt, 0);
}

#[test]
fn timewait_deschedule_and_purge() {
    let mut dr = inet_timewait_death_row { tw_count: 1, sysctl_max_tw_buckets: 10 };
    let mut tw = inet_twsk_alloc(&sk(), &dr, 0, 7, true).unwrap();
    tw.tw_refcnt = 2;
    let mut hi = inet_hashinfo { ehash: vec![inet_ehash_bucket { chain: vec![7] }], ehash_mask: 0 };
    assert!(inet_twsk_deschedule_put(&mut tw, &mut dr, &mut hi, true));
    assert!(hi.ehash[0].chain.is_empty());
    assert_eq!(dr.tw_count, 0);

    let a = inet_twsk_alloc(&sk(), &dr, 0, 1, true).unwrap();
    let mut b = inet_twsk_alloc(&sk(), &dr, 0, 2, true).unwrap();
    b.tw_refcnt = 1;
    let mut c = inet_twsk_alloc(&sk(), &dr, 0, 3, true).unwrap();
    c.tw_refcnt = 1;
    let tws = vec![a, b, c];
    assert_eq!(inet_twsk_purge(&tws, &vec![true, true, false], 2), vec![1]);
    assert_eq!(inet_twsk_purge(&tws, &vec![true, true, true], 10), Vec::<usize>::new());
}

#[test]
fn test_fib4_seq_read() {
    let mut net = Net { fib_seq: 5, notifier_ops: None };
    assert_eq!(fib4_notifier_init(&mut net, Ok(3)), 0);
    assert_eq!(net.fib_seq, 0);
    assert_eq!(net.notifier_ops, Some(3));
    let mut info = FibNotifierInfo { family: 0 };
    assert_eq!(call_fib4_notifiers(&mut net, &mut info, 0), 0);
    assert_eq!(info.family, 2);
    assert_eq!(fib4_seq_read(&net, 10), 11);
    let mut i2 = FibNotifierInfo { family: 10 };
    assert_eq!(call_fib4_notifier(&mut i2, -1), -1);
    assert_eq!(i2.family, 2);
    assert_eq!(fib4_dump(-5, -6), -5);
    assert_eq!(fib4_dump(0, -6), -6);
    let mut n2 = Net { fib_seq: 5, notifier_ops: None };
    assert_eq!(fib4_notifier_init(&mut n2, Err(-12)), -12);
    assert_eq!(n2.notifier_ops, None);
}

#[test]
fn test_bpf_tcp_ingress() {
    let mut lens = vec![100, 200, 300];
    let (ret, moved) = bpf_tcp_ingress(&mut lens, 0, 1000);
    assert_eq!(ret, 0);
    assert_eq!(moved, vec![100, 200, 300]);
    assert_eq!(lens, vec![0, 0, 0]);

    // A byte budget stops part-way through an element.
    let mut l2 = vec![100, 200, 300];
    let (ret, moved) = bpf_tcp_ingress(&mut l2, 150, 1000);
    assert_eq!(ret, 0);
    assert_eq!(moved, vec![100, 50]);
    assert_eq!(l2, vec![0, 150, 300]);

    // Memory runs out: what fitted moves; nothing at all is an error.
    let mut l3 = vec![100, 200, 300];
    let (ret, moved) = bpf_tcp_ingress(&mut l3, 0, 250);
    assert_eq!((ret, moved), (0, vec![100]));
    assert_eq!(l3, vec![0, 200, 300]);
    let mut l4 = vec![100];
    let (ret, moved) = bpf_tcp_ingress(&mut l4, 0, 10);
    assert_eq!((ret, moved.len()), (-12, 0));
    assert_eq!(l4, vec![100]);

    let mut l5 = vec![10];
    assert_eq!(tcp_bpf_sendmsg_redir(false, true, &mut l5, 0, 100, 7), 0);
    assert_eq!(tcp_bpf_sendmsg_redir(true, false, &mut l5, 0, 100, 7), 7);
    assert_eq!(tcp_bpf_sendmsg_redir(true, true, &mut l5, 0, 100, 7), 0);
    assert_eq!(l5, vec![0]);
}

#[test]
fn test_placeholder() {
    let mut st = fastopen_state { net_ctx: None, sock_ctx: None };
    let mut k = [0u8; 16];
    k[0] = 1;
    k[8] = 2;
    assert_eq!(tcp_fastopen_reset_cipher(&mut st, false, &k, None, true), 0);
    assert_eq!(tcp_fastopen_get_cipher(&st, false), vec![1, 2]);
    assert!(tcp_fastopen_get_cipher(&st, true).is_empty());
    let mut b = [0u8; 16];
    b[1] = 1;
    assert_eq!(tcp_fastopen_reset_cipher(&mut st, true, &k, Some(&b), true), 0);
    assert_eq!(tcp_fastopen_get_cipher(&st, true), vec![1, 2, 256, 0]);
    assert_eq!(tcp_fastopen_reset_cipher(&mut st, true, &b, None, false), 12);
    assert_eq!(tcp_fastopen_get_cipher(&st, true), vec![1, 2, 256, 0]);

    // A namespace keeps its key; a fresh one gets the random key.
    tcp_fastopen_init_key_once(&mut st, &b, true);
    assert_eq!(tcp_fastopen_get_cipher(&st, false), vec![1, 2]);
    tcp_fastopen_ctx_destroy(&mut st);
    tcp_fastopen_init_key_once(&mut st, &b, true);
    assert_eq!(tcp_fastopen_get_cipher(&st, false), vec![256, 0]);

    let mut foc = tcp_fastopen_cookie { val: [0, 9], len: 0 };
    assert!(__tcp_fastopen_cookie_gen_cipher(2, 0xabc, &mut foc));
    assert_eq!((foc.val, foc.len), ([0xabc, 9], 8));
    assert!(!__tcp_fastopen_cookie_gen_cipher(10, 1, &mut foc));
}

#[test]
fn fastopen_cookie_uses_keys_in_force() {
    let mut st = fastopen_state { net_ctx: None, sock_ctx: None };
    let mut foc = tcp_fastopen_cookie { val: [0, 9], len: 0 };
    // no keys: the cookie is left alone
    tcp_fastopen_cookie_gen(&st, 2, 0x55, &mut foc);
    assert_eq!((foc.val, foc.len), ([0, 9], 0));
    let mut k = [0u8; 16];
    k[0] = 7;
    assert_eq!(tcp_fastopen_reset_cipher(&mut st, false, &k, None, true), 0);
    assert_eq!(tcp_fastopen_get_ctx(&st).map(|c| c.key[0].key[0]), Some(7));
    tcp_fastopen_cookie_gen(&st, 2, 0x55, &mut foc);
    assert_eq!((foc.val, foc.len), ([0x55, 9], 8));
    // the listener's own keys take precedence over the namespace's
    let mut k2 = [0u8; 16];
    k2[0] = 8;
    assert_eq!(tcp_fastopen_reset_cipher(&mut st, true, &k2, None, true), 0);
    assert_eq!(tcp_fastopen_get_ctx(&st).map(|c| c.key[0].key[0]), Some(8));
    // another family gets no cookie
    let mut foc6 = tcp_fastopen_cookie { val: [1, 1], len: 0 };
    tcp_fastopen_cookie_gen(&st, 10, 0x55, &mut foc6);
    assert_eq!((foc6.val, foc6.len), ([1, 1], 0));
}

fn two_elems() -> sk_msg {
    sk_msg {
        elems: vec![
            sg_element { page: 11, offset: 100, length: 300 },
            sg_element { page: 12, offset: 0, length: 200 },
        ],
        start: 0,
        size: 500,
    }
}

#[test]
fn bpf_push_sends_whole_message() {
    let mut msg = two_elems();
    let req = tcp_bpf_push_req(&msg, false, 0, 0x40, false);
    assert_eq!((req.page, req.off, req.size, req.flags, req.via_ulp), (11, 100, 300, 0x40, false));
    // a short send: the element moves on and another send follows
    let a = tcp_bpf_push_sent(&mut msg, false, 0, req.size, true, 120);
    assert!(matches!(a.step, PushStep::More));
    assert_eq!((a.uncharged, a.put_page), (120, None));
    assert_eq!((msg.size, msg.start, msg.elems[0].offset, msg.elems[0].length), (380, 0, 220, 180));
    let req = tcp_bpf_push_req(&msg, false, 0, 0x40, true);
    assert_eq!((req.off, req.size, req.flags, req.via_ulp), (220, 180, 0x40 | MSG_SENDPAGE_NOPOLICY, true));
    // the rest of the first element: its page is released
    let a = tcp_bpf_push_sent(&mut msg, false, 0, req.size, false, 180);
    assert!(matches!(a.step, PushStep::More));
    assert_eq!((a.uncharged, a.put_page), (0, Some(11)));
    assert_eq!((msg.size, msg.start), (200, 1));
    assert_eq!((msg.elems[0].page, msg.elems[0].length), (0, 0));
    // the last element: the push ends with the last answer
    let req = tcp_bpf_push_req(&msg, false, 0, 0, false);
    let a = tcp_bpf_push_sent(&mut msg, false, 0, req.size, false, 200);
    assert!(matches!(a.step, PushStep::Stop(200)));
    assert_eq!((msg.size, msg.start), (0, 2));
}

#[test]
fn bpf_push_budget_and_errors() {
    let mut msg = two_elems();
    // a budget of 50 bytes: one send of 50, then the push stops
    let req = tcp_bpf_push_req(&msg, true, 50, 0, false);
    assert_eq!(req.size, 50);
    let a = tcp_bpf_push_sent(&mut msg, true, 50, req.size, false, 50);
    assert!(matches!(a.step, PushStep::Stop(50)));
    assert_eq!((a.apply_bytes, msg.size, msg.elems[0].length), (0, 450, 250));
    // an error from the socket ends the push and changes nothing
    let a = tcp_bpf_push_sent(&mut msg, false, 0, 250, true, -11);
    assert!(matches!(a.step, PushStep::Stop(-11)));
    assert_eq!((a.uncharged, msg.size, msg.elems[0].length), (0, 450, 250));
}
