use lib::devinet::{
    __ip_dev_find, in_dev_finish_destroy, inet_addr_hash, inet_lookup_ifaddr_rcu, inetdev_init, devinet,
    in_ifaddr, ipv4_devconf, ipv4_net, net, net_device, IFF_UP,
};

fn ns(id: u64, forwarding: u32) -> net {
    let mut data = [0u32; 256];
    data[0] = forwarding;
    data[5] = 77;
    net { id, hash_mix: 0, ipv4: ipv4_net { devconf_dflt: ipv4_devconf { data } } }
}

fn dev(net_id: u64, flags: u32) -> net_device {
    net_device { net_id, flags, refcnt: 1, ip_ptr: None, lro_disabled: false }
}

fn state() -> devinet {
    let mut lst = Vec::new();
    for _ in 0..256 {
        lst.push(Vec::new());
    }
    devinet { devs: vec![dev(1, IFF_UP), dev(1, 0), dev(2, 0)], in_devs: Vec::new(), inet_addr_lst: lst }
}

fn add_addr(st: &mut devinet, n: &net, addr: u32, d: usize) {
    let h = inet_addr_hash(n, addr) as usize;
    st.inet_addr_lst[h].push(in_ifaddr { ifa_local: addr, ifa_dev: d });
}

#[test]
fn address_hash_is_the_low_byte() {
    let n = ns(1, 0);
    assert_eq!(inet_addr_hash(&n, 0x0a00_0105), 5);
    let mixed = net { hash_mix: 0xff, ..ns(1, 0) };
    assert_eq!(inet_addr_hash(&mixed, 0x0a00_0105), 0xfa);
}

#[test]
fn find_device_by_address() {
    let n1 = ns(1, 0);
    let n2 = ns(2, 0);
    let mut st = state();
    add_addr(&mut st, &n1, 0x0a00_0001, 1);
    assert_eq!(inet_lookup_ifaddr_rcu(&st, &n1, 0x0a00_0001).unwrap().ifa_dev, 1);
    assert!(inet_lookup_ifaddr_rcu(&st, &n2, 0x0a00_0001).is_none());
    assert_eq!(__ip_dev_find(&mut st, &n1, 0x0a00_0001, true, None), Some(1));
    assert_eq!(st.devs[1].refcnt, 2);
    assert_eq!(__ip_dev_find(&mut st, &n1, 0x0a00_0002, false, Some(0)), Some(0));
    assert_eq!(st.devs[0].refcnt, 1);
    assert_eq!(__ip_dev_find(&mut st, &n2, 0x0a00_0001, true, None), None);
}

#[test]
fn inetdev_setup_and_teardown() {
    let n = ns(1, 1);
    let mut st = state();
    assert_eq!(inetdev_init(&mut st, &n, 0, None), None);
    assert_eq!(st.in_devs.len(), 0);
    assert_eq!(inetdev_init(&mut st, &n, 0, Some(9)), Some(0));
    assert_eq!(st.devs[0].ip_ptr, Some(0));
    assert_eq!(st.devs[0].refcnt, 2);
    assert!(st.devs[0].lro_disabled);
    let d = st.in_devs[0].as_ref().unwrap();
    assert_eq!(d.dev, 0);
    assert_eq!(d.refcnt, 1);
    assert!(d.mc_up);
    assert_eq!(d.cnf.data[5], 77);

    let quiet = ns(1, 0);
    assert_eq!(inetdev_init(&mut st, &quiet, 1, Some(3)), Some(1));
    assert!(!st.devs[1].lro_disabled);
    assert!(!st.in_devs[1].as_ref().unwrap().mc_up);

    st.in_devs[0].as_mut().unwrap().dead = 1;
    in_dev_finish_destroy(&mut st, 0);
    assert!(st.in_devs[0].is_none());
    assert_eq!(st.devs[0].refcnt, 1);
}
