use lib::netlink::{netlink_ext_ack, nlattr, rtm_getroute_parse_ip_proto, AF_INET, AF_INET6, EOPNOTSUPP};

fn attr(p: u8) -> nlattr {
    nlattr { nla_len: 5, nla_type: 22, data: vec![p] }
}

#[test]
fn supported_protocols() {
    let mut proto = 0u8;
    let mut ack = Some(netlink_ext_ack { msg: None });
    assert_eq!(rtm_getroute_parse_ip_proto(&attr(6), &mut proto, AF_INET, &mut ack), 0);
    assert_eq!(proto, 6);
    assert_eq!(rtm_getroute_parse_ip_proto(&attr(17), &mut proto, AF_INET6, &mut ack), 0);
    assert_eq!(rtm_getroute_parse_ip_proto(&attr(1), &mut proto, AF_INET, &mut ack), 0);
    assert!(ack.as_ref().unwrap().msg.is_none());
}

#[test]
fn unsupported_protocols_are_explained() {
    let mut proto = 0u8;
    let mut ack = Some(netlink_ext_ack { msg: None });
    assert_eq!(rtm_getroute_parse_ip_proto(&attr(1), &mut proto, AF_INET6, &mut ack), -EOPNOTSUPP);
    assert_eq!(ack.as_ref().unwrap().msg, Some("Unsupported ip proto"));
    let mut none: Option<netlink_ext_ack> = None;
    assert_eq!(rtm_getroute_parse_ip_proto(&attr(47), &mut proto, AF_INET, &mut none), -EOPNOTSUPP);
    assert_eq!(proto, 47);
    assert!(none.is_none());
}
