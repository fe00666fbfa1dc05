use lib::fou::{
    fou, fou_gro_complete, fou_gro_receive, gro_skb, napi_gro_cb, offload_callbacks, offload_tables, ENOSYS,
};

fn ipip_fou() -> fou {
    fou { protocol: 4, flags: 0, port: 5555, family: 2, type_: 1 }
}

fn tables(proto: usize, cb: offload_callbacks) -> offload_tables {
    let mut inet: Vec<Option<offload_callbacks>> = vec![None; 256];
    let inet6: Vec<Option<offload_callbacks>> = vec![None; 256];
    inet[proto] = Some(cb);
    offload_tables { inet, inet6 }
}

fn skb() -> gro_skb {
    gro_skb { cb: napi_gro_cb { encap_mark: 1, is_fou: 0, is_ipv6: 0 }, inner_mac_header: 7 }
}

#[test]
fn gro_receive_marks_packet_and_hands_to_inner_protocol() {
    let t = tables(4, offload_callbacks { has_gro_receive: true, has_gro_complete: true });
    let mut s = skb();
    assert_eq!(fou_gro_receive(&ipip_fou(), &mut s, &t, Some(3)), Some(3));
    assert_eq!((s.cb.encap_mark, s.cb.is_fou, s.cb.is_ipv6), (0, 1, 0));
    assert_eq!(s.inner_mac_header, 7);
}

#[test]
fn gro_receive_without_handler_gives_nothing() {
    let t = tables(4, offload_callbacks { has_gro_receive: false, has_gro_complete: true });
    let mut s = skb();
    assert_eq!(fou_gro_receive(&ipip_fou(), &mut s, &t, Some(3)), None);
    assert_eq!((s.cb.encap_mark, s.cb.is_fou), (0, 1));
    // the IPv6 table has no entry for the protocol at all
    let mut s6 = gro_skb { cb: napi_gro_cb { encap_mark: 1, is_fou: 0, is_ipv6: 1 }, inner_mac_header: 0 };
    let t2 = tables(4, offload_callbacks { has_gro_receive: true, has_gro_complete: true });
    assert_eq!(fou_gro_receive(&ipip_fou(), &mut s6, &t2, Some(3)), None);
}

#[test]
fn gro_complete_sets_inner_mac_header() {
    let t = tables(4, offload_callbacks { has_gro_receive: true, has_gro_complete: true });
    let mut s = skb();
    assert_eq!(fou_gro_complete(&ipip_fou(), &mut s, 20, &t, 0), 0);
    assert_eq!(s.inner_mac_header, 20);
}

#[test]
fn gro_complete_without_handler_is_enosys() {
    let t = tables(4, offload_callbacks { has_gro_receive: true, has_gro_complete: false });
    let mut s = skb();
    assert_eq!(fou_gro_complete(&ipip_fou(), &mut s, 20, &t, 0), -ENOSYS);
    assert_eq!(s.inner_mac_header, 7);
    let empty = tables(17, offload_callbacks { has_gro_receive: true, has_gro_complete: true });
    assert_eq!(fou_gro_complete(&ipip_fou(), &mut s, 20, &empty, 0), -ENOSYS);
}
