use lib::raw::{
    __raw_v4_lookup, icmp_filter, raw_hash_sk, raw_hashinfo, raw_net, raw_sk_bound_dev_eq, raw_sock, raw_unhash_sk,
    raw_v4_input,
};
use lib::raw_diag::{
    inet_diag_req_raw, netlink_callback, raw_diag_destroy, raw_diag_dump, raw_diag_dump_one, raw_diag_get_info,
    raw_diag_info, raw_get_hashinfo, raw_lookup, raw_sock_get, EINVAL, ENOENT, ENOMEM,
};

fn sk(num: u16, daddr: u32, saddr: u32, dev: i32) -> raw_sock {
    raw_sock {
        net: 1,
        family: 2,
        inet_num: num,
        inet_daddr: daddr,
        inet_rcv_saddr: saddr,
        bound_dev_if: dev,
        inet_sport: num,
        inet_dport: 0,
        filter: 0,
        rmem: 10,
        wmem: 20,
    }
}

fn net() -> raw_net {
    raw_net { id: 1, l3mdev_accept: true }
}

#[test]
fn raw_table_hash_and_unhash() {
    let mut h = raw_hashinfo::new();
    assert_eq!(raw_hash_sk(&mut h, sk(1, 0, 0, 0)), 0);
    assert_eq!(raw_hash_sk(&mut h, sk(129, 0, 0, 0)), 0);
    assert_eq!(h.inuse, 2);
    assert_eq!(h.ht[1].len(), 2);
    assert_eq!(h.ht[1][0].inet_num, 129);
    assert!(raw_unhash_sk(&mut h, 1, 5).is_none());
    assert_eq!(raw_unhash_sk(&mut h, 1, 0).unwrap().inet_num, 129);
    assert_eq!(h.inuse, 1);
}

#[test]
fn raw_bound_device_rules() {
    let n = net();
    assert!(raw_sk_bound_dev_eq(&n, 0, 3, 0));
    assert!(raw_sk_bound_dev_eq(&n, 0, 3, 7));
    assert!(!raw_sk_bound_dev_eq(&raw_net { id: 1, l3mdev_accept: false }, 0, 3, 7));
    assert!(raw_sk_bound_dev_eq(&n, 7, 3, 7));
    assert!(!raw_sk_bound_dev_eq(&n, 5, 3, 7));
}

#[test]
fn raw_lookup_by_addresses() {
    let chain = vec![sk(1, 9, 0, 0), sk(6, 0, 0, 0), sk(1, 0, 5, 0), sk(1, 0, 0, 0)];
    let n = net();
    assert_eq!(__raw_v4_lookup(&n, &chain, 0, 1, 8, 5, 2, 0), Some(2));
    assert_eq!(__raw_v4_lookup(&n, &chain, 0, 1, 9, 4, 2, 0), Some(0));
    assert_eq!(__raw_v4_lookup(&n, &chain, 1, 1, 9, 4, 2, 0), Some(3));
    assert_eq!(__raw_v4_lookup(&n, &chain, 0, 17, 9, 4, 2, 0), None);
}

#[test]
fn raw_icmp_type_filter() {
    let mut s = sk(1, 0, 0, 0);
    s.filter = 1 << 8;
    assert_eq!(icmp_filter(&s, &vec![8, 0, 0, 0, 0, 0, 0, 0]), 1);
    assert_eq!(icmp_filter(&s, &vec![0, 0, 0, 0, 0, 0, 0, 0]), 0);
    assert_eq!(icmp_filter(&s, &vec![40, 0, 0, 0, 0, 0, 0, 0]), 0);
    assert_eq!(icmp_filter(&s, &vec![0, 0, 0]), 1);
}

#[test]
fn raw_input_delivers_copies() {
    let mut h = raw_hashinfo::new();
    let mut picky = sk(1, 0, 0, 0);
    picky.filter = 1 << 8;
    raw_hash_sk(&mut h, sk(1, 0, 0, 0));
    raw_hash_sk(&mut h, picky);
    raw_hash_sk(&mut h, sk(1, 0x0b, 0, 0));
    let echo = vec![8, 0, 0, 0, 0, 0, 0, 0];
    let (delivered, to) = raw_v4_input(&h, &net(), 1, 0x0a, 0x0c, &echo, 1, 2, 0);
    assert_eq!(delivered, 1);
    assert_eq!(to, vec![2]);
    let (delivered, to) = raw_v4_input(&h, &net(), 1, 0x0a, 0x0c, &echo, 2, 2, 0);
    assert_eq!(delivered, 0);
    assert!(to.is_empty());
}

fn req(family: i32, proto: u16, sport: u16) -> inet_diag_req_raw {
    inet_diag_req_raw {
        sdiag_family: family,
        sdiag_raw_protocol: proto,
        idiag_sport: sport,
        idiag_dport: 0,
        idiag_src: 0,
        idiag_dst: 0,
        idiag_if: 0,
    }
}

fn table() -> raw_hashinfo {
    let mut h = raw_hashinfo::new();
    raw_hash_sk(&mut h, sk(1, 0, 0, 0));
    raw_hash_sk(&mut h, sk(6, 0, 0, 0));
    raw_hash_sk(&mut h, sk(17, 0, 0, 0));
    raw_hash_sk(&mut h, sk(6, 0, 0, 0));
    h
}

#[test]
fn raw_diag_find_one() {
    let h = table();
    let n = net();
    assert!(raw_get_hashinfo(&h, &req(2, 6, 0)).is_ok());
    assert_eq!(raw_get_hashinfo(&h, &req(10, 6, 0)).err(), Some(EINVAL));
    assert_eq!(raw_lookup(&n, &h.ht[6], 0, &req(2, 6, 0)), Some(0));
    assert_eq!(raw_sock_get(&h, &n, &req(2, 17, 0)), Ok((17, 0)));
    assert_eq!(raw_sock_get(&h, &n, &req(2, 99, 0)), Err(ENOENT));
    assert_eq!(raw_sock_get(&h, &n, &req(10, 17, 0)), Err(EINVAL));
    assert_eq!(raw_diag_dump_one(&h, &n, &req(2, 17, 0), true, 0, 40), 0);
    assert_eq!(raw_diag_dump_one(&h, &n, &req(2, 17, 0), true, 0, -11), -11);
    assert_eq!(raw_diag_dump_one(&h, &n, &req(2, 17, 0), false, 0, 40), ENOMEM);
    assert_eq!(raw_diag_dump_one(&h, &n, &req(2, 17, 0), true, -90, 40), -90);
    assert_eq!(raw_diag_dump_one(&h, &n, &req(2, 18, 0), true, 0, 40), ENOENT);
    assert_eq!(raw_diag_destroy(&h, &n, &req(2, 1, 0)), 0);
    assert_eq!(raw_diag_destroy(&h, &n, &req(2, 2, 0)), ENOENT);
    assert_eq!(raw_diag_destroy(&h, &n, &req(3, 1, 0)), EINVAL);
}

#[test]
fn raw_diag_dump_resumes() {
    let h = table();
    let n = net();
    let mut cb = netlink_callback { args: [0, 0] };
    assert_eq!(raw_diag_dump(&h, &n, &mut cb, &req(2, 0, 0), 10), vec![(1, 0), (6, 0), (6, 1), (17, 0)]);
    assert_eq!(cb.args, [128, 0]);
    let mut cb = netlink_callback { args: [0, 0] };
    assert_eq!(raw_diag_dump(&h, &n, &mut cb, &req(2, 0, 0), 2), vec![(1, 0), (6, 0)]);
    assert_eq!(cb.args, [0, 0]);
    let mut cb = netlink_callback { args: [6, 3] };
    assert_eq!(raw_diag_dump(&h, &n, &mut cb, &req(2, 0, 17), 10), vec![(17, 0)]);
    assert_eq!(cb.args, [128, 3]);
    let mut cb = netlink_callback { args: [0, 0] };
    assert!(raw_diag_dump(&h, &n, &mut cb, &req(10, 0, 0), 10).is_empty());
    let mut info = raw_diag_info { idiag_rqueue: 0, idiag_wqueue: 0 };
    raw_diag_get_info(&h.ht[1][0], &mut info);
    assert_eq!((info.idiag_rqueue, info.idiag_wqueue), (10, 20));
}
