//! Route-query netlink attributes: the IP protocol a query may name.
use vstd::prelude::*;

verus! {

pub const IPPROTO_TCP: u8 = 6;
pub const IPPROTO_UDP: u8 = 17;
pub const IPPROTO_ICMP: u8 = 1;
pub const IPPROTO_ICMPV6: u8 = 58;
pub const AF_INET: u8 = 2;
pub const AF_INET6: u8 = 10;
pub const EOPNOTSUPP: i32 = 38;
pub const EINVAL: i32 = 22;

/// A netlink attribute: its header and its payload.
pub struct nlattr {
    pub nla_len: u16,
    pub nla_type: u16,
    pub data: Vec<u8>,
}

/// Where a refusal is explained to the requester.
pub struct netlink_ext_ack {
    pub msg: Option<&'static str>,
}

/// The protocol may be asked for in a route query of this family: TCP and
/// UDP always, ICMP over IPv4.
pub open spec fn proto_supported(proto: u8, family: u8) -> bool {
    proto == IPPROTO_TCP || proto == IPPROTO_UDP || (proto == IPPROTO_ICMP && family == AF_INET)
}

/// Read the protocol (the attribute's first payload byte) into `ip_proto`;
/// 0 when it is supported for the family, else -EOPNOTSUPP with the
/// reason given in `extack` when there is one.
pub fn rtm_getroute_parse_ip_proto(attr: &nlattr, ip_proto: &mut u8, family: u8, extack: &mut Option<netlink_ext_ack>) -> (r: i32)
    requires
        attr.data@.len() >= 1,
    ensures
        *final(ip_proto) == attr.data@[0],
        proto_supported(attr.data@[0], family) ==> r == 0 && *final(extack) == *old(extack),
        !proto_supported(attr.data@[0], family) ==> r == -EOPNOTSUPP && match *old(extack) {
            Some(_) => *final(extack) == Some(netlink_ext_ack { msg: Some("Unsupported ip proto") }),
            None => *final(extack) is None,
        },
{
    *ip_proto = attr.data[0];
    let p = *ip_proto;
    if p == IPPROTO_TCP || p == IPPROTO_UDP {
        return 0;
    }
    if p == IPPROTO_ICMP && family == AF_INET {
        return 0;
    }
    match extack {
        Some(e) => {
            e.msg = Some("Unsupported ip proto");
        },
        None => {},
    }
    -EOPNOTSUPP
}

} // verus!
