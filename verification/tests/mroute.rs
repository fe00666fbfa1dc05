use lib::ipmr::{
    ipmr_free_table, ipmr_get_table, ipmr_hash_cmp, ipmr_mr_table_iter, ipmr_new_table, mfc_cache,
    mfc_cache_cmp_arg, mr_net, RT_TABLE_DEFAULT,
};

#[test]
fn test_ipmr_new_table() {
    let mut net = mr_net { tables: Vec::new() };
    let mrt = ipmr_new_table(&mut net, 0);
    assert!(mrt.is_some());
    ipmr_free_table(&mut net, mrt);
    assert_eq!(net.tables.len(), 0);
}

#[test]
fn new_table_reuses_an_existing_id_and_refuses_large_ids() {
    let mut net = mr_net { tables: Vec::new() };
    assert_eq!(ipmr_new_table(&mut net, 5), Some(0));
    assert_eq!(ipmr_new_table(&mut net, 7), Some(1));
    assert_eq!(ipmr_new_table(&mut net, 5), Some(0));
    assert_eq!(net.tables.len(), 2);
    assert_eq!(net.tables[1].refcnt, 1);
    assert_eq!(ipmr_new_table(&mut net, 1_000_000_000), None);
    assert_eq!(ipmr_new_table(&mut net, RT_TABLE_DEFAULT), Some(2));
    assert_eq!(ipmr_get_table(&net, 7), Some(1));
    assert_eq!(ipmr_get_table(&net, 8), None);
}

#[test]
fn table_iteration_walks_the_list() {
    let mut net = mr_net { tables: Vec::new() };
    assert_eq!(ipmr_mr_table_iter(&net, None), None);
    ipmr_new_table(&mut net, 1);
    ipmr_new_table(&mut net, 2);
    assert_eq!(ipmr_mr_table_iter(&net, None), Some(0));
    assert_eq!(ipmr_mr_table_iter(&net, Some(0)), Some(1));
    assert_eq!(ipmr_mr_table_iter(&net, Some(1)), None);
}

#[test]
fn cache_key_comparison() {
    let key = mfc_cache_cmp_arg { mfc_mcastgrp: 0xe000_0001, mfc_origin: 0x0a00_0001 };
    assert_eq!(ipmr_hash_cmp(&key, &mfc_cache { mfc_mcastgrp: 0xe000_0001, mfc_origin: 0x0a00_0001 }), 0);
    assert_eq!(ipmr_hash_cmp(&key, &mfc_cache { mfc_mcastgrp: 0xe000_0002, mfc_origin: 0x0a00_0001 }), 1);
    assert_eq!(ipmr_hash_cmp(&key, &mfc_cache { mfc_mcastgrp: 0xe000_0001, mfc_origin: 0 }), 1);
}
