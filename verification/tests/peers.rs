use lib::inetpeer::{
    inet_getpeer, inet_getpeer_v4, inet_peer, inet_peer_base_init, inet_peer_gc, inet_peer_params, inet_peer_xrlim_allow,
    inet_putpeer, inetpeer_addr, inetpeer_addr_cmp, inetpeer_invalidate_tree, lookup, refcount_dec_if_one,
    refcount_inc_not_zero, AF_INET,
};

fn v4(a: u32, vif: u32) -> inetpeer_addr {
    inetpeer_addr { family: AF_INET, key: [a, vif, 9, 9] }
}

fn prm() -> inet_peer_params {
    inet_peer_params { threshold: 100, minttl: 12000, maxttl: 60000 }
}

#[test]
fn peer_address_order() {
    assert_eq!(inetpeer_addr_cmp(&v4(1, 0), &v4(2, 0)), -1);
    assert_eq!(inetpeer_addr_cmp(&v4(2, 0), &v4(1, 5)), 1);
    assert_eq!(inetpeer_addr_cmp(&v4(2, 3), &v4(2, 4)), -1);
    // IPv4 addresses compare on two words only
    assert_eq!(inetpeer_addr_cmp(&inetpeer_addr { family: 2, key: [1, 1, 5, 0] }, &inetpeer_addr { family: 2, key: [1, 1, 6, 0] }), 0);
    let a6 = inetpeer_addr { family: 10, key: [1, 1, 5, 0] };
    let b6 = inetpeer_addr { family: 10, key: [1, 1, 6, 0] };
    assert_eq!(inetpeer_addr_cmp(&a6, &b6), -1);
}

#[test]
fn peer_refcounts() {
    let mut r = 0u32;
    assert!(!refcount_inc_not_zero(&mut r));
    assert_eq!(r, 0);
    r = 3;
    assert!(refcount_inc_not_zero(&mut r));
    assert_eq!(r, 4);
    assert!(!refcount_dec_if_one(&mut r));
    assert_eq!(r, 4);
    r = 1;
    assert!(refcount_dec_if_one(&mut r));
    assert_eq!(r, 0);
}

#[test]
fn peer_created_then_found() {
    let mut base = inet_peer_base_init(AF_INET);
    assert_eq!(inet_getpeer(&mut base, &v4(10, 0), false, 100, &prm()), None);
    let i = inet_getpeer(&mut base, &v4(10, 0), true, 100, &prm()).unwrap();
    assert_eq!(base.total, 1);
    assert_eq!(base.peers[i].refcnt, 2);
    assert_eq!(base.peers[i].dtime, 100);
    assert_eq!(base.peers[i].metrics[0], 1);
    assert_eq!(base.peers[i].rate_last, 100u32.wrapping_sub(6000));
    let j = inet_getpeer(&mut base, &v4(10, 0), true, 200, &prm()).unwrap();
    assert_eq!(i, j);
    assert_eq!(base.total, 1);
    assert_eq!(base.peers[j].refcnt, 3);
    inet_putpeer(&mut base, j, 300);
    assert_eq!(base.peers[j].refcnt, 2);
    assert_eq!(base.peers[j].dtime, 300);
}

#[test]
fn peers_stay_in_address_order() {
    let mut base = inet_peer_base_init(AF_INET);
    for a in [50u32, 10, 30, 20, 40] {
        inet_getpeer_v4(&mut base, a, 0, true, 0, &prm()).unwrap();
    }
    let order: Vec<u32> = base.peers.iter().map(|p| p.daddr.key[0]).collect();
    assert_eq!(order, vec![10, 20, 30, 40, 50]);
    let (found, path) = lookup(&base, &v4(40, 0));
    assert_eq!(found, Ok(3));
    assert_eq!(path, vec![2, 4]);
    let (missing, path) = lookup(&base, &v4(25, 0));
    assert_eq!(missing, Err(2));
    assert_eq!(path, vec![2, 1]);
}

#[test]
fn peer_collection() {
    let mut base = inet_peer_base_init(AF_INET);
    for a in [10u32, 20, 30] {
        let i = inet_getpeer_v4(&mut base, a, 0, true, 0, &prm()).unwrap();
        inet_putpeer(&mut base, i, 0);
    }
    // only the table holds them now; with a full table nothing is kept longer
    let full = inet_peer_params { threshold: 3, minttl: 12000, maxttl: 60000 };
    inet_peer_gc(&mut base, &vec![0, 2], 1, &full);
    let order: Vec<u32> = base.peers.iter().map(|p| p.daddr.key[0]).collect();
    assert_eq!(order, vec![20]);
    assert_eq!(base.total, 1);
    // a nearly empty table keeps peers for up to a minute
    let mut base2 = inet_peer_base_init(AF_INET);
    let i = inet_getpeer_v4(&mut base2, 10, 0, true, 0, &prm()).unwrap();
    inet_putpeer(&mut base2, i, 0);
    inet_peer_gc(&mut base2, &vec![0], 1000, &prm());
    assert_eq!(base2.total, 1);
    inetpeer_invalidate_tree(&mut base2);
    assert_eq!(base2.total, 0);
    assert!(base2.peers.is_empty());
}

fn peer(tokens: u32, last: u32) -> inet_peer {
    inet_peer {
        daddr: v4(1, 0),
        refcnt: 2,
        dtime: 0,
        rid: 0,
        metrics: [0; 15],
        rate_tokens: tokens,
        n_redirects: 0,
        rate_last: last,
    }
}

#[test]
fn peer_token_bucket() {
    let mut none: Option<inet_peer> = None;
    assert!(inet_peer_xrlim_allow(&mut none, 100, 0));
    let mut p = Some(peer(0, 0));
    // 50 ticks give 50 tokens: not enough for a cost of 100
    assert!(!inet_peer_xrlim_allow(&mut p, 100, 50));
    assert_eq!(p.as_ref().unwrap().rate_tokens, 50);
    assert!(inet_peer_xrlim_allow(&mut p, 100, 100));
    assert_eq!(p.as_ref().unwrap().rate_tokens, 0);
    // a long pause gives at most six messages' worth
    assert!(inet_peer_xrlim_allow(&mut p, 100, 100_000));
    assert_eq!(p.as_ref().unwrap().rate_tokens, 500);
    assert_eq!(p.as_ref().unwrap().rate_last, 100_000);
}
