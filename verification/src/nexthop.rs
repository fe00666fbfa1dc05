//! Nexthop objects as announced to notifier listeners: what is told about a
//! single nexthop, a multipath group and a resilient group's buckets.
use vstd::prelude::*;

verus! {

pub const NH_RES_DEFAULT_IDLE_TIMER: u32 = 480;
pub const NH_RES_DEFAULT_UNBALANCED_TIMER: u32 = 0;
pub const NH_DEV_HASHBITS: u32 = 8;
pub const NH_DEV_HASHSIZE: u32 = 256;
pub const EINVAL: i32 = -22;
pub const ENOMEM: i32 = -12;
pub const ENOSYS: i32 = -38;
pub const AF_INET: u8 = 2;
pub const AF_INET6: u8 = 10;
pub const NH_NOTIFIER_INFO_TYPE_SINGLE: u8 = 0;
pub const NH_NOTIFIER_INFO_TYPE_GRP: u8 = 1;
pub const NH_NOTIFIER_INFO_TYPE_RES_TABLE: u8 = 2;

/// A namespace's nexthop notifier chain, by the listeners on it.
pub struct net {
    pub nexthop_notifiers: Vec<u64>,
}

/// The common part of a nexthop: its device, gateway family and address,
/// and whether it has encapsulation state.
pub struct fib_nh_common {
    pub nhc_dev: u64,
    pub nhc_gw_family: u8,
    pub nhc_gw4: u32,
    pub nhc_gw6: [u8; 16],
    pub nhc_lwtstate: bool,
}

/// A single nexthop's information.
pub struct nh_info {
    pub fib_nhc: fib_nh_common,
    pub reject_nh: bool,
    pub fdb_nh: bool,
}

/// A member of a group: the member nexthop's id and information, and its
/// weight.
pub struct nh_grp_entry {
    pub id: u32,
    pub nhi: nh_info,
    pub weight: u8,
}

/// A resilient group's buckets, each naming the group member it uses.
pub struct nh_res_table {
    pub nh_buckets: Vec<usize>,
}

/// A nexthop group: hash-threshold or resilient, its members, whether it is
/// an FDB group, and a resilient group's bucket table.
pub struct nh_group {
    pub hash_threshold: bool,
    pub resilient: bool,
    pub fdb_nh: bool,
    pub nh_entries: Vec<nh_grp_entry>,
    pub res_table: nh_res_table,
}

/// A nexthop: its id and either a single nexthop's information or a group.
pub struct nexthop {
    pub id: u32,
    pub is_group: bool,
    pub nh_info: nh_info,
    pub nh_grp: nh_group,
}

/// What listeners are told about a single nexthop.
pub struct nh_notifier_single_info {
    pub dev: u64,
    pub gw_family: u8,
    pub ipv4: u32,
    pub ipv6: [u8; 16],
    pub is_reject: bool,
    pub is_fdb: bool,
    pub has_encap: bool,
}

/// What listeners are told about a group member or a bucket.
pub struct nh_notifier_grp_entry_info {
    pub id: u32,
    pub weight: u8,
    pub nh: nh_notifier_single_info,
}

/// What listeners are told about a multipath group.
pub struct nh_notifier_grp_info {
    pub num_nh: u16,
    pub is_fdb: bool,
    pub nh_entries: Vec<nh_notifier_grp_entry_info>,
}

/// What listeners are told about a resilient group's buckets.
pub struct nh_notifier_res_table_info {
    pub num_nh_buckets: u16,
    pub nhs: Vec<nh_notifier_grp_entry_info>,
}

/// An announcement: the nexthop's id, its kind, and the description of
/// that kind.
pub struct nh_notifier_info {
    pub id: u32,
    pub type_: u8,
    pub nh: Option<nh_notifier_single_info>,
    pub nh_grp: Option<nh_notifier_grp_info>,
    pub nh_res_table: Option<nh_notifier_res_table_info>,
}

/// Whether no listener is on the namespace's chain.
pub fn nexthop_notifiers_is_empty(n: &net) -> (r: bool)
    ensures
        r == (n.nexthop_notifiers@.len() == 0),
{
    n.nexthop_notifiers.len() == 0
}

/// The description of a single nexthop: its device, gateway (IPv4 or IPv6
/// address as the family says; zero otherwise), reject and FDB marks, and
/// whether it has encapsulation.
pub open spec fn single_desc(d: nh_notifier_single_info, nhi: nh_info) -> bool {
    let c = nhi.fib_nhc;
    &&& d.dev == c.nhc_dev
    &&& d.gw_family == c.nhc_gw_family
    &&& d.ipv4 == (if c.nhc_gw_family == AF_INET { c.nhc_gw4 } else { 0 })
    &&& (if c.nhc_gw_family == AF_INET6 { d.ipv6@ == c.nhc_gw6@ } else { forall|i: int| 0 <= i < 16 ==> d.ipv6@[i] == 0 })
    &&& d.is_reject == nhi.reject_nh
    &&& d.is_fdb == nhi.fdb_nh
    &&& d.has_encap == c.nhc_lwtstate
}

fn single_describe(nhi: &nh_info) -> (r: nh_notifier_single_info)
    ensures
        single_desc(r, *nhi),
{
    let c = &nhi.fib_nhc;
    let mut ipv4: u32 = 0;
    let mut ipv6: [u8; 16] = [0u8; 16];
    if c.nhc_gw_family == AF_INET {
        ipv4 = c.nhc_gw4;
    } else if c.nhc_gw_family == AF_INET6 {
        ipv6 = c.nhc_gw6;
    }
    nh_notifier_single_info {
        dev: c.nhc_dev,
        gw_family: c.nhc_gw_family,
        ipv4,
        ipv6,
        is_reject: nhi.reject_nh,
        is_fdb: nhi.fdb_nh,
        has_encap: c.nhc_lwtstate,
    }
}

/// Describe a single nexthop into `info`.
pub fn nh_notifier_single_info_init(info: &mut nh_notifier_info, nhi: &nh_info) -> (r: i32)
    ensures
        r == 0,
        final(info).type_ == NH_NOTIFIER_INFO_TYPE_SINGLE,
        final(info).nh matches Some(d) && single_desc(d, *nhi),
        final(info).id == old(info).id,
        final(info).nh_grp == old(info).nh_grp,
        final(info).nh_res_table == old(info).nh_res_table,
{
    info.type_ = NH_NOTIFIER_INFO_TYPE_SINGLE;
    info.nh = Some(single_describe(nhi));
    0
}

/// Drop the description of a single nexthop.
pub fn nh_notifier_single_info_fini(info: &mut nh_notifier_info)
    ensures
        final(info).nh is None,
        final(info).id == old(info).id,
        final(info).type_ == old(info).type_,
        final(info).nh_grp == old(info).nh_grp,
        final(info).nh_res_table == old(info).nh_res_table,
{
    info.nh = None;
}

/// The description of a group member.
pub open spec fn entry_desc(d: nh_notifier_grp_entry_info, e: nh_grp_entry) -> bool {
    d.id == e.id && d.weight == e.weight && single_desc(d.nh, e.nhi)
}

fn entry_describe(e: &nh_grp_entry) -> (r: nh_notifier_grp_entry_info)
    ensures
        entry_desc(r, *e),
{
    nh_notifier_grp_entry_info { id: e.id, weight: e.weight, nh: single_describe(&e.nhi) }
}

/// `g` describes the multipath group `nhg`: member count, FDB mark, and
/// each member in order.
pub open spec fn grp_desc(g: nh_notifier_grp_info, nhg: nh_group) -> bool {
    &&& g.num_nh == nhg.nh_entries.len()
    &&& g.is_fdb == nhg.fdb_nh
    &&& g.nh_entries@.len() == nhg.nh_entries@.len()
    &&& forall|i: int| 0 <= i < nhg.nh_entries@.len() ==> entry_desc(#[trigger] g.nh_entries@[i], nhg.nh_entries@[i])
}

/// `t` describes the buckets of the resilient group `nhg`: their count and,
/// for each in order, the member it uses.
pub open spec fn res_desc(t: nh_notifier_res_table_info, nhg: nh_group) -> bool {
    &&& t.num_nh_buckets == nhg.res_table.nh_buckets.len()
    &&& t.nhs@.len() == nhg.res_table.nh_buckets@.len()
    &&& forall|b: int| 0 <= b < nhg.res_table.nh_buckets@.len()
        ==> entry_desc(#[trigger] t.nhs@[b], nhg.nh_entries@[nhg.res_table.nh_buckets@[b] as int])
}

/// Describe a multipath group into `info`: its member count, FDB mark, and
/// each member in order.
pub fn nh_notifier_mpath_info_init(info: &mut nh_notifier_info, nhg: &nh_group) -> (r: i32)
    requires
        nhg.nh_entries.len() <= u16::MAX,
    ensures
        r == 0,
        final(info).type_ == NH_NOTIFIER_INFO_TYPE_GRP,
        final(info).nh_grp matches Some(g) && grp_desc(g, *nhg),
        final(info).id == old(info).id,
        final(info).nh == old(info).nh,
        final(info).nh_res_table == old(info).nh_res_table,
{
    info.type_ = NH_NOTIFIER_INFO_TYPE_GRP;
    let mut entries: Vec<nh_notifier_grp_entry_info> = Vec::new();
    let mut i: usize = 0;
    while i < nhg.nh_entries.len()
        invariant
            i <= nhg.nh_entries.len(),
            entries@.len() == i,
            forall|k: int| 0 <= k < i ==> entry_desc(#[trigger] entries@[k], nhg.nh_entries@[k]),
        decreases nhg.nh_entries.len() - i,
    {
        entries.push(entry_describe(&nhg.nh_entries[i]));
        i = i + 1;
    }
    info.nh_grp = Some(nh_notifier_grp_info { num_nh: nhg.nh_entries.len() as u16, is_fdb: nhg.fdb_nh, nh_entries: entries });
    0
}

/// Describe a resilient group's buckets into `info`: their count and, for
/// each bucket in order, the member it uses.
pub fn nh_notifier_res_table_info_init(info: &mut nh_notifier_info, nhg: &nh_group) -> (r: i32)
    requires
        nhg.res_table.nh_buckets.len() <= u16::MAX,
        forall|b: int| 0 <= b < nhg.res_table.nh_buckets@.len() ==> #[trigger] nhg.res_table.nh_buckets@[b] < nhg.nh_entries.len(),
    ensures
        r == 0,
        final(info).type_ == NH_NOTIFIER_INFO_TYPE_RES_TABLE,
        final(info).nh_res_table matches Some(t) && res_desc(t, *nhg),
        final(info).id == old(info).id,
        final(info).nh == old(info).nh,
        final(info).nh_grp == old(info).nh_grp,
{
    info.type_ = NH_NOTIFIER_INFO_TYPE_RES_TABLE;
    let buckets = &nhg.res_table.nh_buckets;
    let mut nhs: Vec<nh_notifier_grp_entry_info> = Vec::new();
    let mut i: usize = 0;
    while i < buckets.len()
        invariant
            buckets == &nhg.res_table.nh_buckets,
            forall|b: int| 0 <= b < buckets@.len() ==> #[trigger] buckets@[b] < nhg.nh_entries.len(),
            i <= buckets.len(),
            nhs@.len() == i,
            forall|k: int| 0 <= k < i ==> entry_desc(#[trigger] nhs@[k], nhg.nh_entries@[buckets@[k] as int]),
        decreases buckets.len() - i,
    {
        let e = buckets[i];
        nhs.push(entry_describe(&nhg.nh_entries[e]));
        i = i + 1;
    }
    info.nh_res_table = Some(nh_notifier_res_table_info { num_nh_buckets: buckets.len() as u16, nhs });
    0
}

/// Announce nexthop `nh` to the listeners of `n`: nothing to do without
/// listeners (0 and no announcement); a group that is neither multipath nor
/// resilient is `EINVAL`; else 0 and the announcement, of the kind the
/// nexthop is (a multipath group is described as such even when it is also
/// resilient).
pub fn call_nexthop_notifiers(n: &net, event_type: i32, nh: &nexthop) -> (r: (i32, Option<nh_notifier_info>))
    requires
        nh.nh_grp.nh_entries.len() <= u16::MAX,
        nh.nh_grp.res_table.nh_buckets.len() <= u16::MAX,
        forall|b: int| 0 <= b < nh.nh_grp.res_table.nh_buckets@.len()
            ==> #[trigger] nh.nh_grp.res_table.nh_buckets@[b] < nh.nh_grp.nh_entries.len(),
    ensures
        n.nexthop_notifiers@.len() == 0 ==> r.0 == 0 && r.1 is None,
        n.nexthop_notifiers@.len() != 0 ==> {
            if nh.is_group && !nh.nh_grp.hash_threshold && !nh.nh_grp.resilient {
                r.0 == EINVAL && r.1 is None
            } else {
                &&& r.0 == 0
                &&& r.1 matches Some(info) && info.id == nh.id && {
                    if !nh.is_group {
                        info.type_ == NH_NOTIFIER_INFO_TYPE_SINGLE && (info.nh matches Some(d) && single_desc(d, nh.nh_info))
                    } else if nh.nh_grp.hash_threshold {
                        info.type_ == NH_NOTIFIER_INFO_TYPE_GRP && (info.nh_grp matches Some(g) && grp_desc(g, nh.nh_grp))
                    } else {
                        info.type_ == NH_NOTIFIER_INFO_TYPE_RES_TABLE && (info.nh_res_table matches Some(t) && res_desc(t, nh.nh_grp))
                    }
                }
            }
        },
{
    if nexthop_notifiers_is_empty(n) {
        return (0, None);
    }
    let mut info = nh_notifier_info { id: nh.id, type_: 0, nh: None, nh_grp: None, nh_res_table: None };
    let err = if nh.is_group {
        if nh.nh_grp.hash_threshold {
            nh_notifier_mpath_info_init(&mut info, &nh.nh_grp)
        } else if nh.nh_grp.resilient {
            nh_notifier_res_table_info_init(&mut info, &nh.nh_grp)
        } else {
            EINVAL
        }
    } else {
        nh_notifier_single_info_init(&mut info, &nh.nh_info)
    };
    if err != 0 {
        return (err, None);
    }
    (0, Some(info))
}

} // verus!
