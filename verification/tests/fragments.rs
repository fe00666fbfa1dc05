use lib::inetpeer::{inet_peer, inetpeer_addr};
use lib::ip_fragment::{
    fqdir, frag_v4_compare_key, inet_frag_queue, ip4_frag_ecn, ip4_frag_free, ip4_frag_init, ip_expire, ip_find,
    ip_frag_queue, ip_frag_reinit, ip_frag_too_far, ipq, ipq_kill, ipq_put, iphdr, mod_timer, ntohs, timer_list,
    ExpireAction, EINVAL, ENOMEM,
};

fn key(id: u16) -> frag_v4_compare_key {
    frag_v4_compare_key { saddr: 1, daddr: 2, user: 0, vif: 0, id, protocol: 17 }
}

fn queue(timer: timer_list) -> ipq {
    ipq {
        q: inet_frag_queue { key: key(7), refcnt: 1, flags: 0, timer, len: 0, meat: 0, max_size: 0, has_fragments: false },
        ecn: 0,
        max_df_size: 0,
        iif: 0,
        rid: 0,
        peer: None,
    }
}

fn dir() -> fqdir {
    fqdir { dead: false, timeout: 3000, max_dist: 64 }
}

#[test]
fn test_ip4_frag_ecn() {
    assert_eq!(ip4_frag_ecn(0x00), 1 << 0);
    assert_eq!(ip4_frag_ecn(0x03), 1 << 3);
    assert_eq!(ip4_frag_ecn(0x0f), 1 << 3);
}

#[test]
fn test_ip_expire() {
    let timer = timer_list { expires: 0 };
    let mut q = queue(timer);
    ip_expire(&mut q, &dir());
}

#[test]
fn fragment_queue_expiry() {
    let mut q = queue(timer_list { expires: 0 });
    q.q.refcnt = 2;
    q.q.flags = 2;
    assert_eq!(ip_expire(&mut q, &dir()), ExpireAction::Expired { send_time_exceeded: true });
    assert_eq!(q.q.flags, 3);
    assert_eq!(q.q.refcnt, 1);
    // a complete queue is left alone
    assert_eq!(ip_expire(&mut q, &dir()), ExpireAction::Nothing);
    let mut q2 = queue(timer_list { expires: 0 });
    assert_eq!(ip_expire(&mut q2, &fqdir { dead: true, timeout: 0, max_dist: 0 }), ExpireAction::Nothing);
    assert_eq!(q2.q.refcnt, 1);
    ipq_kill(&mut q2);
    assert_eq!(q2.q.flags, 1);
    assert!(ipq_put(&mut q2));
}

#[test]
fn fragment_queue_lookup_and_reset() {
    let queues = vec![queue(timer_list { expires: 0 }), {
        let mut q = queue(timer_list { expires: 0 });
        q.q.key = key(8);
        q
    }];
    let iph = iphdr { saddr: 1, daddr: 2, id: 8, protocol: 17, tos: 0, frag_off: 0 };
    assert_eq!(ip_find(&queues, &iph, 0, 0), Some(1));
    assert_eq!(ip_find(&queues, &iph, 1, 0), None);
    let mut q = queue(timer_list { expires: 99 });
    q.q.flags = 3;
    q.q.len = 500;
    q.ecn = 4;
    q.iif = 2;
    q.q.has_fragments = true;
    assert_eq!(ip_frag_reinit(&mut q, None), -EINVAL);
    assert_eq!(q.q.len, 500);
    assert_eq!(ip_frag_reinit(&mut q, Some(&dir())), 0);
    assert_eq!((q.q.flags, q.q.len, q.ecn, q.iif, q.q.timer.expires), (0, 0, 0, 0, 0));
    assert!(!q.q.has_fragments);
    ip4_frag_init(&mut q, &key(9));
    assert_eq!(q.q.key.id, 9);
    assert_eq!(ip_frag_queue(&mut q, 50), -ENOMEM);
    assert_eq!(ip_frag_queue(&mut q, 500), 0);
    assert_eq!(q.q.flags, 1);
    let mut t = timer_list { expires: 0 };
    assert_eq!(mod_timer(&mut t, 42), 1);
    assert_eq!(t.expires, 42);
    assert_eq!(ntohs(0x1234), 0x3412);
}

#[test]
fn fragment_peer_distance() {
    let peer = inet_peer {
        daddr: inetpeer_addr { family: 2, key: [1, 0, 0, 0] },
        refcnt: 1,
        dtime: 0,
        rid: 100,
        metrics: [0; 15],
        rate_tokens: 0,
        n_redirects: 0,
        rate_last: 0,
    };
    let mut q = queue(timer_list { expires: 0 });
    q.rid = 10;
    q.peer = Some(peer);
    q.q.has_fragments = true;
    // the peer sent 91 datagrams since: more than 64 behind
    assert_eq!(ip_frag_too_far(&mut q, &dir()), 1);
    assert_eq!(q.rid, 101);
    assert_eq!(q.peer.as_ref().unwrap().rid, 101);
    assert_eq!(ip_frag_too_far(&mut q, &dir()), 0);
    assert_eq!(ip_frag_too_far(&mut q, &fqdir { dead: false, timeout: 0, max_dist: 0 }), 0);
    ip4_frag_free(&mut q);
    assert!(q.peer.is_none());
    assert_eq!(ip_frag_too_far(&mut q, &dir()), 0);
}
