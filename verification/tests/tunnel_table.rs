use lib::gre_demux::tnl_ptk_info;
use lib::ip_gre::{
    erspan_hdr_len, erspan_rcv, gre_err, gre_err_action, ip_gre_nets, ipgre_err, is_erspan_type1, PACKET_RCVD,
    PACKET_REJECT,
};
use lib::ip_tunnel::{
    hash_32, hlist_add_head_rcu, hlist_del_init_rcu, ip_bucket, ip_tunnel, ip_tunnel_add, ip_tunnel_del,
    ip_tunnel_hash, ip_tunnel_key_match, ip_tunnel_lookup, ip_tunnel_net, net_device, tunnel_ref,
};
use lib::ipip::{in_addr, ip_tunnel_parm, iphdr};

const LOCAL: u32 = 0x0a00_0001;
const REMOTE: u32 = 0x0a00_0002;

fn parm(saddr: u32, daddr: u32, link: i32, i_flags: u16, i_key: u32, ttl: u8) -> ip_tunnel_parm {
    ip_tunnel_parm {
        iph: iphdr {
            version: 4,
            ihl: 5,
            tos: 0,
            tot_len: 0,
            id: 0,
            frag_off: 0,
            ttl,
            protocol: 47,
            check: 0,
            saddr: in_addr { s_addr: saddr },
            daddr: in_addr { s_addr: daddr },
        },
        link,
        i_key,
        o_key: 0,
        i_flags,
        o_flags: 0,
    }
}

fn tun(link: i32, up: bool, collect_md: bool) -> ip_tunnel {
    ip_tunnel {
        dev: Some(net_device { flags: if up { 1 } else { 0 } }),
        params: parm(LOCAL, REMOTE, link, 0, 0, 64),
        hlen: 4,
        i_seqno: 0,
        collect_md,
        err_count: 0,
        err_time: 0,
    }
}

fn table() -> ip_tunnel_net {
    let mut tunnels = Vec::new();
    for _ in 0..256 {
        tunnels.push(Vec::new());
    }
    ip_tunnel_net { tunnels, collect_md_tun: None, fb_tunnel_dev: None }
}

fn nets() -> ip_gre_nets {
    ip_gre_nets { gre_tap: table(), erspan: table(), ipgre: table() }
}

#[test]
fn tunnel_hash_takes_the_top_byte() {
    assert_eq!(hash_32(0x1234_5678, 8), 0x12);
    assert_eq!(hash_32(0xffff_ffff, 4), 0xf);
    assert_eq!(ip_tunnel_hash(0x0100_0000, 0x0a00_0002), 0x0b);
}

#[test]
fn tunnel_key_match_rules() {
    let keyed = parm(LOCAL, REMOTE, 0, 1, 42, 64);
    assert!(ip_tunnel_key_match(&keyed, 1, 42));
    assert!(!ip_tunnel_key_match(&keyed, 1, 41));
    assert!(!ip_tunnel_key_match(&keyed, 0, 42));
    let plain = parm(LOCAL, REMOTE, 0, 0, 42, 64);
    assert!(ip_tunnel_key_match(&plain, 0, 7));
    assert!(!ip_tunnel_key_match(&plain, 1, 42));
}

#[test]
fn tunnel_bucket_ignores_multicast_remote() {
    let itn = table();
    assert_eq!(ip_bucket(&itn, &parm(LOCAL, REMOTE, 0, 0, 0, 64)), 0x0a);
    assert_eq!(ip_bucket(&itn, &parm(LOCAL, 0xe000_0001, 0, 0, 0x0500_0000, 64)), 0x05);
    assert_eq!(ip_bucket(&itn, &parm(LOCAL, 0, 0, 0, 0, 64)), 0);
}

#[test]
fn tunnel_list_head_operations() {
    let mut l = vec![1, 2];
    hlist_add_head_rcu(0, &mut l);
    assert_eq!(l, vec![0, 1, 2]);
    assert_eq!(hlist_del_init_rcu(&mut l, 1), 1);
    assert_eq!(l, vec![0, 2]);
}

#[test]
fn tunnel_added_is_found_and_exact_link_wins() {
    let mut itn = table();
    ip_tunnel_add(&mut itn, tun(3, true, false));
    assert!(matches!(ip_tunnel_lookup(&itn, 3, 0, REMOTE, LOCAL, 0), Some(tunnel_ref::Hashed { bucket: 0x0a, index: 0 })));
    ip_tunnel_add(&mut itn, tun(5, true, false));
    // the newer tunnel is at the head; a lookup on link 3 still finds the older one
    assert!(matches!(ip_tunnel_lookup(&itn, 3, 0, REMOTE, LOCAL, 0), Some(tunnel_ref::Hashed { bucket: 0x0a, index: 1 })));
    // on another link the last fitting tunnel is taken
    assert!(matches!(ip_tunnel_lookup(&itn, 9, 0, REMOTE, LOCAL, 0), Some(tunnel_ref::Hashed { bucket: 0x0a, index: 1 })));
    assert!(ip_tunnel_lookup(&itn, 3, 0, REMOTE, 0x0a00_0009, 0).is_none());
}

#[test]
fn tunnel_lookup_falls_back() {
    let mut itn = table();
    ip_tunnel_add(&mut itn, tun(3, false, false));
    assert!(ip_tunnel_lookup(&itn, 3, 0, REMOTE, LOCAL, 0).is_none());
    itn.fb_tunnel_dev = Some(tun(0, true, false));
    assert!(matches!(ip_tunnel_lookup(&itn, 3, 0, REMOTE, LOCAL, 0), Some(tunnel_ref::Fallback)));
    itn.collect_md_tun = Some(tun(0, true, true));
    assert!(matches!(ip_tunnel_lookup(&itn, 3, 0, REMOTE, LOCAL, 0), Some(tunnel_ref::CollectMd)));
}

#[test]
fn tunnel_del_clears_metadata_tunnel() {
    let mut itn = table();
    ip_tunnel_add(&mut itn, tun(3, true, true));
    itn.collect_md_tun = Some(tun(3, true, true));
    let t = ip_tunnel_del(&mut itn, 0x0a, 0);
    assert_eq!(t.params.link, 3);
    assert!(itn.tunnels[0x0a].is_empty());
    assert!(itn.collect_md_tun.is_none());
}

fn tpi(proto: u16) -> tnl_ptk_info {
    tnl_ptk_info { flags: 0, key: 0, seq: 0, proto, hdr_len: 4 }
}

#[test]
fn ipgre_err_counts_errors() {
    let mut n = nets();
    ip_tunnel_add(&mut n.ipgre, tun(3, true, false));
    // no tunnel in the tap table: the negated ENOENT
    assert_eq!(ipgre_err(&mut n, 3, &tpi(0x6558), LOCAL, REMOTE, 3, 1, 100), 2);
    assert_eq!(ipgre_err(&mut n, 3, &tpi(0x0800), LOCAL, REMOTE, 3, 1, 100), 0);
    assert_eq!(n.ipgre.tunnels[0x0a][0].err_count, 1);
    assert_eq!(n.ipgre.tunnels[0x0a][0].err_time, 100);
    assert_eq!(ipgre_err(&mut n, 3, &tpi(0x0800), LOCAL, REMOTE, 3, 1, 200), 0);
    assert_eq!(n.ipgre.tunnels[0x0a][0].err_count, 2);
    // more than the window later the count restarts
    assert_eq!(ipgre_err(&mut n, 3, &tpi(0x0800), LOCAL, REMOTE, 11, 0, 5000), 0);
    assert_eq!(n.ipgre.tunnels[0x0a][0].err_count, 1);
    // port unreachables and parameter problems are not counted
    assert_eq!(ipgre_err(&mut n, 3, &tpi(0x0800), LOCAL, REMOTE, 3, 3, 5001), 0);
    assert_eq!(ipgre_err(&mut n, 3, &tpi(0x0800), LOCAL, REMOTE, 12, 0, 5001), 0);
    assert_eq!(n.ipgre.tunnels[0x0a][0].err_count, 1);
    assert_eq!(n.ipgre.tunnels[0x0a][0].err_time, 5000);
}

fn quoted(gre: &[u8]) -> Vec<u8> {
    let mut p = vec![0x45, 0, 0, 0, 0, 0, 0, 0, 64, 47, 0, 0, 0x0a, 0, 0, 1, 0x0a, 0, 0, 2];
    p.extend_from_slice(gre);
    p
}

#[test]
fn gre_err_dispatch() {
    let mut n = nets();
    ip_tunnel_add(&mut n.ipgre, tun(3, true, false));
    // a GRE header with flag bit 0x8000 set does not parse
    assert!(matches!(gre_err(&mut n, &quoted(&[0x80, 0, 0x08, 0]), 3, 3, 1, 0, 10), gre_err_action::Ignore));
    assert!(matches!(
        gre_err(&mut n, &quoted(&[0, 0, 0x08, 0]), 3, 3, 4, 1400, 10),
        gre_err_action::UpdatePmtu { info: 1400, ifindex: 3, protocol: 47 }
    ));
    assert!(matches!(gre_err(&mut n, &quoted(&[0, 0, 0x08, 0]), 3, 5, 0, 0, 10), gre_err_action::Redirect { ifindex: 3, protocol: 47 }));
    assert!(matches!(gre_err(&mut n, &quoted(&[0, 0, 0x08, 0]), 3, 3, 1, 0, 10), gre_err_action::Handled(0)));
    assert_eq!(n.ipgre.tunnels[0x0a][0].err_count, 1);
}

#[test]
fn erspan_receive() {
    assert_eq!(erspan_hdr_len(0), 0);
    assert_eq!(erspan_hdr_len(1), 8);
    assert_eq!(erspan_hdr_len(2), 12);
    assert!(is_erspan_type1(4));
    assert!(!is_erspan_type1(8));
    let n = nets();
    let pkt = vec![0u8; 16];
    assert_eq!(erspan_rcv(&n, &pkt, 3, &tpi(0x88be), REMOTE, LOCAL, 8, true), PACKET_REJECT);
    let mut keyed = tpi(0x88be);
    keyed.key = 0;
    // version 1 after an 8-byte GRE header needs 16 bytes in all
    let mut v1 = vec![0u8; 16];
    v1[8] = 0x10;
    let mut n2 = nets();
    let mut t2 = tun(3, true, false);
    t2.params = parm(REMOTE, LOCAL, 3, 0x0001, 0, 64);
    ip_tunnel_add(&mut n2.erspan, t2);
    assert_eq!(erspan_rcv(&n2, &v1, 3, &keyed, LOCAL, REMOTE, 8, true), PACKET_RCVD);
    assert_eq!(erspan_rcv(&n2, &v1, 3, &keyed, LOCAL, REMOTE, 8, false), PACKET_REJECT);
    let short = vec![0u8, 0, 0, 0, 0, 0, 0, 0, 0x10, 0];
    assert_eq!(erspan_rcv(&n2, &short, 3, &keyed, LOCAL, REMOTE, 8, true), PACKET_REJECT);
}
