use lib::fib_notifier::{Net, NotifierBlock, AF_INET};
use lib::fib_trie::{
    __node_free_rcu, call_fib_entry_notifier, call_fib_entry_notifiers, fib_alias, get_child_rcu, get_index,
    key_vector, node_free_target, node_parent, node_set_parent, tnode, NODE_INIT_PARENT, EINVAL,
};

fn kv(key: u32, pos: u8, bits: u8) -> key_vector {
    key_vector { key, pos, bits, slen: 0, tnode: vec![None, Some(3)] }
}

fn alias() -> fib_alias {
    fib_alias { fa_info: 11, fa_tos: 0, fa_type: 1, tb_id: 254 }
}

#[test]
fn child_index() {
    assert_eq!(get_index(0x0a00_0100, &kv(0x0a00_0000, 8, 1)), 1);
    assert_eq!(get_index(0x0a00_0000, &kv(0x0a00_0000, 8, 1)), 0);
    assert_eq!(get_index(0xffff_ffff, &kv(0, 32, 0)), 0);
    assert_eq!(get_child_rcu(&kv(0, 8, 1), 1), Some(3));
}

#[test]
fn parents() {
    let mut n = Some(tnode { empty_children: 0, full_children: 0, parent: None, kv: kv(0, 8, 1) });
    node_set_parent(&mut n, Some(4));
    assert_eq!(node_parent(n.as_ref().unwrap()), Some(4));
    let mut none: Option<tnode> = None;
    node_set_parent(&mut none, Some(4));
    assert!(none.is_none());
    let mut m = tnode { empty_children: 0, full_children: 0, parent: Some(1), kv: kv(0, 8, 0) };
    NODE_INIT_PARENT(&mut m, None);
    assert_eq!(m.parent, None);
    assert_eq!(__node_free_rcu(&m), node_free_target::LeafCache);
    m.kv.bits = 2;
    assert_eq!(__node_free_rcu(&m), node_free_target::Kvfree);
}

#[test]
fn entry_notifications() {
    let nb = NotifierBlock { id: 1 };
    let (r, info) = call_fib_entry_notifier(Some(&nb), 0, 0x0a00_0000, 8, Some(&alias()), 5);
    assert_eq!(r, 5);
    let info = info.unwrap();
    assert_eq!(info.info.family, AF_INET);
    assert_eq!(info.dst_len, 8);
    assert_eq!(info.fi, 11);
    assert_eq!(info.tb_id, 254);
    assert_eq!(call_fib_entry_notifier(None, 0, 0, 0, Some(&alias()), 5).0, EINVAL);
    assert_eq!(call_fib_entry_notifier(Some(&nb), 0, 0, 0, None, 5).0, EINVAL);

    let mut net = Some(Net { fib_seq: 7, notifier_ops: None });
    let (r, info) = call_fib_entry_notifiers(&mut net, 1, 0x0a00_0000, 8, Some(&alias()), 0);
    assert_eq!(r, 0);
    assert_eq!(info.unwrap().dst, 0x0a00_0000);
    assert_eq!(net.as_ref().unwrap().fib_seq, 8);
    let mut gone: Option<Net> = None;
    assert_eq!(call_fib_entry_notifiers(&mut gone, 1, 0, 0, Some(&alias()), 0).0, EINVAL);
}
