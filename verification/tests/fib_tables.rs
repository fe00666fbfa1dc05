use lib::fib_frontend::{
    __inet_dev_addr_type, fib_get_table, fib_new_table, fib_replace_table, fib_table, fib_trie_table, inet_addr_type,
    net, net_ipv4, rcu_assign_pointer, FIB_TABLE_HASHSZ, RTN_BROADCAST, RTN_MULTICAST, RTN_UNICAST, RT_TABLE_DEFAULT,
    RT_TABLE_LOCAL, RT_TABLE_MAIN,
};

fn empty_net(custom_rules: bool) -> net {
    let mut hash = Vec::new();
    for _ in 0..FIB_TABLE_HASHSZ {
        hash.push(Vec::new());
    }
    net { ipv4: net_ipv4 { fib_table_hash: hash, fib_main: None, fib_default: None, fib_has_custom_rules: custom_rules } }
}

#[test]
fn test_fib_new_table() {
    let mut n = empty_net(false);
    let table = fib_new_table(&mut n, RT_TABLE_MAIN);
    assert!(table.is_some());
}

#[test]
fn fib_tables_created_once() {
    let mut n = empty_net(false);
    assert_eq!(fib_get_table(&n, RT_TABLE_MAIN), None);
    assert_eq!(fib_new_table(&mut n, 0), Some((254, 0)));
    assert_eq!(n.ipv4.fib_main, Some(RT_TABLE_MAIN));
    assert_eq!(fib_new_table(&mut n, RT_TABLE_MAIN), Some((254, 0)));
    assert_eq!(n.ipv4.fib_table_hash[254].len(), 1);
    assert_eq!(fib_new_table(&mut n, RT_TABLE_DEFAULT), Some((252, 0)));
    assert_eq!(n.ipv4.fib_default, Some(RT_TABLE_DEFAULT));
    // a table whose id shares a bucket goes in front
    assert_eq!(fib_new_table(&mut n, 254 + 256), Some((254, 0)));
    assert_eq!(fib_get_table(&n, RT_TABLE_MAIN), Some((254, 1)));
}

#[test]
fn fib_local_table_shares_main() {
    let mut n = empty_net(false);
    assert_eq!(fib_new_table(&mut n, RT_TABLE_LOCAL), Some((253, 0)));
    assert_eq!(n.ipv4.fib_table_hash[253][0].alias_of, Some(RT_TABLE_MAIN));
    assert_eq!(fib_get_table(&n, RT_TABLE_MAIN), Some((254, 0)));
    let mut m = empty_net(true);
    fib_new_table(&mut m, RT_TABLE_LOCAL);
    assert_eq!(m.ipv4.fib_table_hash[253][0].alias_of, None);
    assert_eq!(fib_get_table(&m, RT_TABLE_MAIN), None);
}

#[test]
fn fib_replace_and_types() {
    let mut n = empty_net(false);
    fib_new_table(&mut n, RT_TABLE_LOCAL);
    fib_replace_table(&mut n, (253, 0), fib_trie_table(RT_TABLE_LOCAL, None));
    assert_eq!(n.ipv4.fib_table_hash[253][0].alias_of, None);
    assert_eq!(inet_addr_type(&n, 0), RTN_BROADCAST);
    assert_eq!(inet_addr_type(&n, 0xe000_0001), RTN_MULTICAST);
    assert_eq!(inet_addr_type(&n, 0x0a00_0001), RTN_UNICAST);
    assert_eq!(__inet_dev_addr_type(&n, 0x0a00_0001, 7), RTN_BROADCAST);
    let mut slot: Option<u32> = None;
    rcu_assign_pointer(&mut slot, Some(3));
    assert_eq!(slot, Some(3));
    let t: fib_table = fib_trie_table(9, Some(1));
    assert_eq!((t.tb_id, t.alias_of), (9, Some(1)));
}
