use lib::nexthop::{
    call_nexthop_notifiers, fib_nh_common, net, nexthop, nexthop_notifiers_is_empty, nh_group, nh_grp_entry, nh_info,
    nh_notifier_info, nh_notifier_mpath_info_init, nh_notifier_res_table_info_init, nh_notifier_single_info_fini,
    nh_notifier_single_info_init, nh_res_table, EINVAL,
};

#[test]
fn test_nexthop_notifiers_is_empty() {
    let n = net { nexthop_notifiers: Vec::new() };
    assert!(nexthop_notifiers_is_empty(&n));
    let n = net { nexthop_notifiers: vec![1] };
    assert!(!nexthop_notifiers_is_empty(&n));
}

fn nhi(family: u8, gw4: u32) -> nh_info {
    nh_info {
        fib_nhc: fib_nh_common { nhc_dev: 3, nhc_gw_family: family, nhc_gw4: gw4, nhc_gw6: [7u8; 16], nhc_lwtstate: true },
        reject_nh: false,
        fdb_nh: true,
    }
}

fn empty_info() -> nh_notifier_info {
    nh_notifier_info { id: 9, type_: 0, nh: None, nh_grp: None, nh_res_table: None }
}

fn group(hash_threshold: bool, resilient: bool) -> nh_group {
    nh_group {
        hash_threshold,
        resilient,
        fdb_nh: false,
        nh_entries: vec![
            nh_grp_entry { id: 11, nhi: nhi(2, 0x0a00_0001), weight: 1 },
            nh_grp_entry { id: 12, nhi: nhi(10, 0), weight: 3 },
        ],
        res_table: nh_res_table { nh_buckets: vec![1, 0, 1] },
    }
}

#[test]
fn nexthop_single_description() {
    let mut info = empty_info();
    assert_eq!(nh_notifier_single_info_init(&mut info, &nhi(2, 0x0a00_0001)), 0);
    let d = info.nh.as_ref().unwrap();
    assert_eq!((d.dev, d.gw_family, d.ipv4, d.ipv6), (3, 2, 0x0a00_0001, [0u8; 16]));
    assert!(d.is_fdb && !d.is_reject && d.has_encap);
    assert_eq!(info.type_, 0);
    nh_notifier_single_info_fini(&mut info);
    assert!(info.nh.is_none());
    let mut info = empty_info();
    nh_notifier_single_info_init(&mut info, &nhi(10, 0x0a00_0001));
    let d = info.nh.as_ref().unwrap();
    assert_eq!((d.ipv4, d.ipv6), (0, [7u8; 16]));
}

#[test]
fn nexthop_group_descriptions() {
    let mut info = empty_info();
    assert_eq!(nh_notifier_mpath_info_init(&mut info, &group(true, false)), 0);
    let g = info.nh_grp.as_ref().unwrap();
    assert_eq!(info.type_, 1);
    assert_eq!(g.num_nh, 2);
    assert_eq!((g.nh_entries[1].id, g.nh_entries[1].weight), (12, 3));
    let mut info = empty_info();
    assert_eq!(nh_notifier_res_table_info_init(&mut info, &group(false, true)), 0);
    let t = info.nh_res_table.as_ref().unwrap();
    assert_eq!(info.type_, 2);
    assert_eq!(t.num_nh_buckets, 3);
    let ids: Vec<u32> = t.nhs.iter().map(|e| e.id).collect();
    assert_eq!(ids, vec![12, 11, 12]);
}

#[test]
fn nexthop_announcements() {
    let quiet = net { nexthop_notifiers: Vec::new() };
    let busy = net { nexthop_notifiers: vec![5] };
    let single = nexthop { id: 4, is_group: false, nh_info: nhi(2, 1), nh_grp: group(false, false) };
    let (r, info) = call_nexthop_notifiers(&quiet, 0, &single);
    assert_eq!(r, 0);
    assert!(info.is_none());
    let (r, info) = call_nexthop_notifiers(&busy, 0, &single);
    assert_eq!(r, 0);
    assert_eq!(info.unwrap().id, 4);
    let odd = nexthop { id: 5, is_group: true, nh_info: nhi(2, 1), nh_grp: group(false, false) };
    assert_eq!(call_nexthop_notifiers(&busy, 0, &odd).0, EINVAL);
    let both = nexthop { id: 6, is_group: true, nh_info: nhi(2, 1), nh_grp: group(true, true) };
    let (r, info) = call_nexthop_notifiers(&busy, 0, &both);
    assert_eq!(r, 0);
    assert_eq!(info.unwrap().type_, 1);
}
