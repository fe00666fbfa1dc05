//! IPv4 per-device state: setting it up on a device, tearing it down, and
//! finding the device that owns a local address.
use vstd::prelude::*;

verus! {

pub const EINVAL: i32 = -22;
pub const ENOMEM: i32 = -12;
pub const ENOSYS: i32 = -38;

pub const IN4_ADDR_HSIZE_SHIFT: u32 = 8;
pub const IN4_ADDR_HSIZE: usize = 256;
pub const IFF_UP: u32 = 1;
/// The forwarding switch among the device settings (numbered from 1).
pub const IPV4_DEVCONF_FORWARDING: usize = 1;
pub const IPV4_DEVCONF_MAX: usize = 256;

/// The IPv4 settings of a device.
#[derive(Clone, Copy)]
pub struct ipv4_devconf {
    pub data: [u32; 256],
}

pub struct ipv4_net {
    pub devconf_dflt: ipv4_devconf,
}

/// A namespace: its identity, the mix it adds to address hashes, and its
/// default device settings.
pub struct net {
    pub id: u64,
    pub hash_mix: u32,
    pub ipv4: ipv4_net,
}

/// A network device: its namespace, flags, references, its IPv4 state
/// (by position), and whether large receive offload was turned off.
pub struct net_device {
    pub net_id: u64,
    pub flags: u32,
    pub refcnt: u32,
    pub ip_ptr: Option<usize>,
    pub lro_disabled: bool,
}

/// The IPv4 state of a device.
pub struct in_device {
    pub dev: usize,
    pub cnf: ipv4_devconf,
    pub refcnt: u32,
    pub dead: u8,
    pub mc_list: Option<u64>,
    pub mc_up: bool,
    pub ifa_list: Option<usize>,
    pub arp_parms: u64,
}

/// A local address and the device it belongs to.
#[derive(Clone, Copy)]
pub struct in_ifaddr {
    pub ifa_local: u32,
    pub ifa_dev: usize,
}

/// The devices, their IPv4 states (a freed one leaves its slot empty) and
/// the local-address hash table.
pub struct devinet {
    pub devs: Vec<net_device>,
    pub in_devs: Vec<Option<in_device>>,
    pub inet_addr_lst: Vec<Vec<in_ifaddr>>,
}

impl devinet {
    /// Every address names a device, and the table has its buckets.
    pub open spec fn wf(self) -> bool {
        &&& self.inet_addr_lst@.len() == IN4_ADDR_HSIZE
        &&& forall|b: int, k: int| 0 <= b < self.inet_addr_lst@.len() && 0 <= k < self.inet_addr_lst@[b]@.len()
            ==> (#[trigger] self.inet_addr_lst@[b]@[k]).ifa_dev < self.devs@.len()
    }
}

/// The low `bits` bits of `val`.
pub open spec fn hash_bits(val: u32, bits: u32) -> u32 {
    val & ((1u32 << bits) - 1) as u32
}

pub fn hash_32(val: u32, bits: u32) -> (r: u32)
    requires
        bits == IN4_ADDR_HSIZE_SHIFT,
    ensures
        r == hash_bits(val, bits),
        r < 256,
{
    assert(((1u32 << bits) - 1) as u32 == 0xff && (val & 0xff) < 256) by (bit_vector)
        requires
            bits == 8,
    ;
    val & 0xff
}

/// The bucket of an address.
pub open spec fn addr_bucket(n: net, addr: u32) -> u32 {
    hash_bits(addr ^ n.hash_mix, IN4_ADDR_HSIZE_SHIFT)
}

pub fn inet_addr_hash(n: &net, addr: u32) -> (r: u32)
    ensures
        r == addr_bucket(*n, addr),
        r < 256,
{
    hash_32(addr ^ n.hash_mix, IN4_ADDR_HSIZE_SHIFT)
}

/// The address is this one, on a device of the namespace.
pub open spec fn owns(st: devinet, n: net, ifa: in_ifaddr, addr: u32) -> bool {
    ifa.ifa_local == addr && st.devs@[ifa.ifa_dev as int].net_id == n.id
}

/// The first entry of the address's bucket that is this address on a
/// device of the namespace.
pub open spec fn first_owner(st: devinet, n: net, addr: u32, k: int) -> bool {
    let l = st.inet_addr_lst@[addr_bucket(n, addr) as int]@;
    &&& 0 <= k < l.len()
    &&& owns(st, n, l[k], addr)
    &&& forall|j: int| 0 <= j < k ==> !owns(st, n, #[trigger] l[j], addr)
}

pub open spec fn has_owner(st: devinet, n: net, addr: u32) -> bool {
    let l = st.inet_addr_lst@[addr_bucket(n, addr) as int]@;
    exists|j: int| 0 <= j < l.len() && owns(st, n, #[trigger] l[j], addr)
}

/// The local address entry for `addr` in the namespace, if any.
pub fn inet_lookup_ifaddr_rcu(st: &devinet, n: &net, addr: u32) -> (r: Option<in_ifaddr>)
    requires
        st.wf(),
    ensures
        addr_bucket(*n, addr) < 256,
        match r {
            Some(ifa) => exists|k: int| first_owner(*st, *n, addr, k) && st.inet_addr_lst@[addr_bucket(*n, addr) as int]@[k] == ifa,
            None => !has_owner(*st, *n, addr),
        },
{
    let h = inet_addr_hash(n, addr) as usize;
    let head = &st.inet_addr_lst[h];
    let mut k: usize = 0;
    while k < head.len()
        invariant
            st.wf(),
            h == addr_bucket(*n, addr),
            h < 256,
            *head == st.inet_addr_lst@[h as int],
            k <= head.len(),
            forall|j: int| 0 <= j < k ==> !owns(*st, *n, #[trigger] head@[j], addr),
        decreases head.len() - k,
    {
        let ifa = head[k];
        assert(ifa.ifa_dev < st.devs@.len());
        if ifa.ifa_local == addr && st.devs[ifa.ifa_dev].net_id == n.id {
            assert(first_owner(*st, *n, addr, k as int));
            return Some(ifa);
        }
        k = k + 1;
    }
    None
}

/// The device owning `addr` in the namespace: the one the address is
/// configured on, else the device of a local route to it (`local_route`,
/// as the local table's lookup gave it). With `devref`, the device found
/// gains a reference.
pub fn __ip_dev_find(st: &mut devinet, n: &net, addr: u32, devref: bool, local_route: Option<usize>) -> (r: Option<usize>)
    requires
        old(st).wf(),
        local_route matches Some(d) ==> d < old(st).devs@.len(),
    ensures
        final(st).wf(),
        final(st).in_devs@ == old(st).in_devs@,
        final(st).inet_addr_lst@ == old(st).inet_addr_lst@,
        has_owner(*old(st), *n, addr) ==> (r matches Some(d) && exists|k: int| first_owner(*old(st), *n, addr, k)
            && old(st).inet_addr_lst@[addr_bucket(*n, addr) as int]@[k].ifa_dev == d),
        !has_owner(*old(st), *n, addr) ==> r == local_route,
        r matches Some(d) ==> d < old(st).devs@.len() && final(st).devs@ == old(st).devs@.update(d as int,
            net_device { refcnt: if devref { old(st).devs@[d as int].refcnt.wrapping_add(1) } else { old(st).devs@[d as int].refcnt }, ..old(st).devs@[d as int] }),
        r is None ==> final(st).devs@ == old(st).devs@,
{
    let result = match inet_lookup_ifaddr_rcu(st, n, addr) {
        Some(ifa) => {
            proof {
                let b = addr_bucket(*n, addr) as int;
                let k = choose|k: int| first_owner(*st, *n, addr, k) && st.inet_addr_lst@[b]@[k] == ifa;
                assert(st.inet_addr_lst@[b]@[k].ifa_dev < st.devs@.len());
            }
            Some(ifa.ifa_dev)
        },
        None => local_route,
    };
    match result {
        Some(d) => {
            if devref {
                let mut dev = st.devs.remove(d);
                dev.refcnt = dev.refcnt.wrapping_add(1);
                st.devs.insert(d, dev);
            }
            assert(st.devs@ =~= old(st).devs@.update(d as int,
                net_device { refcnt: if devref { old(st).devs@[d as int].refcnt.wrapping_add(1) } else { old(st).devs@[d as int].refcnt }, ..old(st).devs@[d as int] }));
        },
        None => {},
    }
    result
}

/// The IPv4 state a device starts with.
pub open spec fn fresh_in_dev(n: net, dev: usize, flags: u32, arp_parms: u64) -> in_device {
    in_device {
        dev,
        cnf: n.ipv4.devconf_dflt,
        refcnt: 1,
        dead: 0,
        mc_list: None,
        mc_up: flags & IFF_UP != 0,
        ifa_list: None,
        arp_parms,
    }
}

/// Set up IPv4 on the device `dev` of namespace `n`, given the ARP
/// parameters allocated for it (none when that failed, and then nothing
/// is set up): the state takes the namespace's default settings, one
/// reference, multicast (started when the device is up), and is attached
/// to the device, which gains a reference and, when forwarding is on,
/// loses large receive offload. Its position is returned.
pub fn inetdev_init(st: &mut devinet, n: &net, dev: usize, arp_parms: Option<u64>) -> (r: Option<usize>)
    requires
        old(st).wf(),
        dev < old(st).devs@.len(),
    ensures
        final(st).wf(),
        final(st).inet_addr_lst@ == old(st).inet_addr_lst@,
        arp_parms is None ==> r is None && final(st).devs@ == old(st).devs@ && final(st).in_devs@ == old(st).in_devs@,
        arp_parms matches Some(p) ==> {
            let d = old(st).devs@[dev as int];
            &&& r == Some(old(st).in_devs@.len() as usize)
            &&& final(st).in_devs@ == old(st).in_devs@.push(Some(fresh_in_dev(*n, dev, d.flags, p)))
            &&& final(st).devs@ == old(st).devs@.update(dev as int, net_device {
                refcnt: d.refcnt.wrapping_add(1),
                ip_ptr: Some(old(st).in_devs@.len() as usize),
                lro_disabled: if n.ipv4.devconf_dflt.data@[IPV4_DEVCONF_FORWARDING - 1] != 0 { true } else { d.lro_disabled },
                ..d
            })
        },
{
    let parms = match arp_parms {
        None => {
            return None;
        },
        Some(p) => p,
    };
    let cnf = n.ipv4.devconf_dflt;
    let mut d = st.devs.remove(dev);
    if cnf.data[IPV4_DEVCONF_FORWARDING - 1] != 0 {
        d.lro_disabled = true;
    }
    d.refcnt = d.refcnt.wrapping_add(1);
    let idx = st.in_devs.len();
    let in_dev = in_device {
        dev,
        cnf,
        refcnt: 1,
        dead: 0,
        mc_list: None,
        mc_up: d.flags & IFF_UP != 0,
        ifa_list: None,
        arp_parms: parms,
    };
    d.ip_ptr = Some(idx);
    st.devs.insert(dev, d);
    st.in_devs.push(Some(in_dev));
    assert(st.devs@ =~= old(st).devs@.update(dev as int, net_device {
        refcnt: old(st).devs@[dev as int].refcnt.wrapping_add(1),
        ip_ptr: Some(idx),
        lro_disabled: if n.ipv4.devconf_dflt.data@[IPV4_DEVCONF_FORWARDING - 1] != 0 { true } else { old(st).devs@[dev as int].lro_disabled },
        ..old(st).devs@[dev as int]
    }));
    Some(idx)
}

/// The IPv4 state at `idev` may be freed: it exists, has no addresses and
/// no multicast memberships, and is marked dead.
pub open spec fn destroyable(st: devinet, idev: usize) -> bool {
    &&& idev < st.in_devs@.len()
    &&& st.in_devs@[idev as int] matches Some(d) && {
        &&& d.ifa_list is None
        &&& d.mc_list is None
        &&& d.dead != 0
        &&& d.dev < st.devs@.len()
    }
}

/// Free the IPv4 state at `idev`: its device loses the reference it held
/// and the slot is emptied.
pub fn in_dev_finish_destroy(st: &mut devinet, idev: usize)
    requires
        old(st).wf(),
        destroyable(*old(st), idev),
    ensures
        final(st).wf(),
        final(st).inet_addr_lst@ == old(st).inet_addr_lst@,
        final(st).in_devs@ == old(st).in_devs@.update(idev as int, None),
        old(st).in_devs@[idev as int] matches Some(d) && final(st).devs@ == old(st).devs@.update(d.dev as int,
            net_device { refcnt: old(st).devs@[d.dev as int].refcnt.wrapping_sub(1), ..old(st).devs@[d.dev as int] }),
{
    let slot = st.in_devs.remove(idev);
    st.in_devs.insert(idev, None);
    let d = match slot {
        Some(d) => d,
        None => {
            return;
        },
    };
    let mut dv = st.devs.remove(d.dev);
    dv.refcnt = dv.refcnt.wrapping_sub(1);
    st.devs.insert(d.dev, dv);
    assert(st.in_devs@ =~= old(st).in_devs@.update(idev as int, None));
    assert(st.devs@ =~= old(st).devs@.update(d.dev as int,
        net_device { refcnt: old(st).devs@[d.dev as int].refcnt.wrapping_sub(1), ..old(st).devs@[d.dev as int] }));
}

/// The same, under its exported name.
pub fn in_dev_finish_destroy_export(st: &mut devinet, idev: usize)
    requires
        old(st).wf(),
        destroyable(*old(st), idev),
    ensures
        final(st).wf(),
        final(st).inet_addr_lst@ == old(st).inet_addr_lst@,
        final(st).in_devs@ == old(st).in_devs@.update(idev as int, None),
        old(st).in_devs@[idev as int] matches Some(d) && final(st).devs@ == old(st).devs@.update(d.dev as int,
            net_device { refcnt: old(st).devs@[d.dev as int].refcnt.wrapping_sub(1), ..old(st).devs@[d.dev as int] }),
{
    in_dev_finish_destroy(st, idev)
}

} // verus!
