use lib::tcp_cong::{
    cong_registry, jhash, strnlen, tcp_ca_find, tcp_ca_find_autoload, tcp_ca_find_key, tcp_ca_get_key_by_name,
    tcp_ca_get_key_by_name_exported, tcp_ca_get_name_by_key, tcp_ca_get_name_by_key_exported,
    tcp_congestion_ops, tcp_register_congestion_control, tcp_register_congestion_control_exported,
    tcp_unregister_congestion_control, tcp_unregister_congestion_control_exported, EEXIST, EINVAL,
    TCP_CA_UNSPEC, TCP_CONG_NEEDS_ECN,
};

fn name16(s: &str) -> [u8; 16] {
    let mut n = [0u8; 16];
    n[..s.len()].copy_from_slice(s.as_bytes());
    n
}

fn ops(s: &str, flags: u32) -> tcp_congestion_ops {
    tcp_congestion_ops {
        name: name16(s),
        key: 0,
        flags,
        has_ssthresh: true,
        has_cong_avoid: true,
        has_cong_control: false,
        has_cwnd_undo: true,
        owner: 1,
    }
}

#[test]
fn name_hash_values() {
    assert_eq!(jhash(b"cubic", 5, 5), 1490701987);
    assert_eq!(jhash(b"reno", 4, 4), 619914546);
    assert_eq!(strnlen(&name16("cubic"), 16), 5);
    assert_eq!(strnlen(b"abcdefgh", 4), 4);
}

#[test]
fn register_find_unregister() {
    let mut reg = cong_registry { list: Vec::new() };
    assert_eq!(tcp_register_congestion_control(&mut reg, ops("cubic", 0)), 0);
    assert_eq!(reg.list[0].key, 1490701987);
    assert_eq!(tcp_register_congestion_control_exported(&mut reg, ops("reno", TCP_CONG_NEEDS_ECN)), 0);
    assert_eq!(tcp_register_congestion_control(&mut reg, ops("cubic", 0)), EEXIST);
    let mut broken = ops("vegas", 0);
    broken.has_cwnd_undo = false;
    assert_eq!(tcp_register_congestion_control(&mut reg, broken), EINVAL);
    assert_eq!(tcp_register_congestion_control(&mut reg, ops("", 0)), EEXIST);
    assert_eq!(reg.list.len(), 2);

    assert_eq!(tcp_ca_find(&reg, &b"reno\0".to_vec()), Some(1));
    assert_eq!(tcp_ca_find(&reg, &b"reno".to_vec()), Some(1));
    assert_eq!(tcp_ca_find(&reg, &b"ren".to_vec()), None);
    assert_eq!(tcp_ca_find_key(&reg, 619914546), Some(1));

    let mut buf = [0xffu8; 16];
    assert!(tcp_ca_get_name_by_key(&reg, 1490701987, &mut buf));
    assert_eq!(buf, name16("cubic"));
    let mut buf2 = [7u8; 16];
    assert!(!tcp_ca_get_name_by_key_exported(&reg, 12, &mut buf2));
    assert_eq!(buf2, [7u8; 16]);

    tcp_unregister_congestion_control(&mut reg, 1490701987);
    assert_eq!(tcp_ca_find_key(&reg, 1490701987), None);
    assert_eq!(reg.list.len(), 1);
    tcp_unregister_congestion_control_exported(&mut reg, 99);
    assert_eq!(reg.list.len(), 1);
}

#[test]
fn key_by_name_with_autoload() {
    let mut reg = cong_registry { list: Vec::new() };
    let mut ecn = Some(-1);
    assert_eq!(tcp_ca_get_key_by_name(&mut reg, &b"reno".to_vec(), &mut ecn, false, Some(ops("reno", 2))), TCP_CA_UNSPEC);
    assert_eq!(reg.list.len(), 0);
    assert_eq!(tcp_ca_get_key_by_name(&mut reg, &b"reno".to_vec(), &mut ecn, true, Some(ops("reno", 2))), 619914546);
    assert_eq!(ecn, Some(1));
    let mut none: Option<i32> = None;
    assert_eq!(tcp_ca_get_key_by_name_exported(&mut reg, &b"reno".to_vec(), &mut none, true, None), TCP_CA_UNSPEC);
    assert_eq!(tcp_ca_find_autoload(&mut reg, &b"cubic".to_vec(), true, None), None);
    assert_eq!(tcp_ca_find_autoload(&mut reg, &b"cubic".to_vec(), true, Some(ops("cubic", 0))), Some(1));
}
