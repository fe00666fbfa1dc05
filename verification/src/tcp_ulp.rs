//! Pluggable upper-layer protocols over TCP: the registry of protocols by
//! name, the list offered to users, and attaching one to a socket.
use vstd::prelude::*;

verus! {

pub const EINVAL: i32 = -22;
pub const ENOMEM: i32 = -12;
pub const ENOSYS: i32 = -38;
pub const EEXIST: i32 = -17;
pub const ENOENT: i32 = -2;

/// An upper-layer protocol: its name, the module that provides it, and
/// whether it has release and update routines.
pub struct tcp_ulp_ops {
    pub name: Vec<u8>,
    pub owner: u64,
    pub has_release: bool,
    pub has_update: bool,
}

/// Registered protocols, in registration order.
pub struct ulp_registry {
    pub list: Vec<tcp_ulp_ops>,
}

/// The names of the registered protocols.
pub open spec fn ulp_names(l: Seq<tcp_ulp_ops>) -> Seq<Seq<u8>> {
    l.map_values(|u: tcp_ulp_ops| u.name@)
}

impl ulp_registry {
    /// No two registered protocols share a name.
    pub open spec fn wf(&self) -> bool {
        forall|i: int, j: int| 0 <= i < j < self.list.len() ==> self.list@[i].name@ != self.list@[j].name@
    }

    pub fn new() -> (r: ulp_registry)
        ensures
            r.wf(),
            r.list.len() == 0,
    {
        ulp_registry { list: Vec::new() }
    }
}

fn bytes_equal(a: &Vec<u8>, b: &Vec<u8>) -> (r: bool)
    ensures
        r == (a@ == b@),
{
    if a.len() != b.len() {
        return false;
    }
    let mut i: usize = 0;
    while i < a.len()
        invariant
            a.len() == b.len(),
            i <= a.len(),
            forall|k: int| 0 <= k < i ==> a@[k] == b@[k],
        decreases a.len() - i,
    {
        if a[i] != b[i] {
            return false;
        }
        i = i + 1;
    }
    proof {
        assert(a@ =~= b@);
    }
    true
}

/// Position of the protocol named `name`, if registered.
pub fn tcp_ulp_find(reg: &ulp_registry, name: &Vec<u8>) -> (r: Option<usize>)
    ensures
        r matches Some(i) ==> i < reg.list.len() && reg.list@[i as int].name@ == name@,
        r is None ==> forall|i: int| 0 <= i < reg.list.len() ==> reg.list@[i].name@ != name@,
{
    let mut i: usize = 0;
    while i < reg.list.len()
        invariant
            i <= reg.list.len(),
            forall|k: int| 0 <= k < i ==> reg.list@[k].name@ != name@,
        decreases reg.list.len() - i,
    {
        if bytes_equal(&reg.list[i].name, name) {
            return Some(i);
        }
        i = i + 1;
    }
    None
}

/// Register a protocol: `EEXIST` when one of that name is registered, else
/// it is appended.
pub fn tcp_register_ulp(reg: &mut ulp_registry, ulp: tcp_ulp_ops) -> (r: i32)
    requires
        old(reg).wf(),
    ensures
        final(reg).wf(),
        (exists|i: int| 0 <= i < old(reg).list.len() && old(reg).list@[i].name@ == ulp.name@) ==> r == EEXIST
            && final(reg).list@ == old(reg).list@,
        !(exists|i: int| 0 <= i < old(reg).list.len() && old(reg).list@[i].name@ == ulp.name@) ==> r == 0
            && final(reg).list@ == old(reg).list@.push(ulp),
{
    match tcp_ulp_find(reg, &ulp.name) {
        Some(_) => EEXIST,
        None => {
            reg.list.push(ulp);
            0
        },
    }
}

/// Unregister the protocol named `name` (nothing when none is).
pub fn tcp_unregister_ulp(reg: &mut ulp_registry, name: &Vec<u8>)
    requires
        old(reg).wf(),
    ensures
        final(reg).wf(),
        forall|i: int| 0 <= i < final(reg).list.len() ==> final(reg).list@[i].name@ != name@,
        (forall|i: int| 0 <= i < old(reg).list.len() ==> old(reg).list@[i].name@ != name@) ==> final(reg).list@ == old(reg).list@,
        forall|i: int| 0 <= i < old(reg).list.len() && #[trigger] old(reg).list@[i].name@ == name@
            ==> final(reg).list@ == old(reg).list@.remove(i),
{
    match tcp_ulp_find(reg, name) {
        None => {},
        Some(i) => {
            let ghost before = reg.list@;
            reg.list.remove(i);
            proof {
                assert forall|a: int, b: int| 0 <= a < b < reg.list.len() implies reg.list@[a].name@ != reg.list@[b].name@ by {
                    let oa = if a < i { a } else { a + 1 };
                    let ob = if b < i { b } else { b + 1 };
                    assert(reg.list@[a] == before[oa]);
                    assert(reg.list@[b] == before[ob]);
                }
                assert forall|k: int| 0 <= k < reg.list.len() implies reg.list@[k].name@ != name@ by {
                    let ok = if k < i { k } else { k + 1 };
                    assert(reg.list@[k] == before[ok]);
                }
                assert forall|j: int| 0 <= j < before.len() && #[trigger] before[j].name@ == name@
                    implies reg.list@ == before.remove(j) by {
                    if j != i as int {
                        if j < i as int {
                            assert(before[j].name@ != before[i as int].name@);
                        } else {
                            assert(before[i as int].name@ != before[j].name@);
                        }
                    }
                }
            }
        },
    }
}

/// The names separated by single spaces.
pub open spec fn joined_names(l: Seq<tcp_ulp_ops>) -> Seq<u8>
    decreases l.len(),
{
    if l.len() == 0 {
        Seq::empty()
    } else if l.len() == 1 {
        l[0].name@
    } else {
        joined_names(l.drop_last()) + seq![32u8] + l.last().name@
    }
}

/// The list of available protocols as it fits a buffer of `maxlen` bytes
/// (terminating NUL included): the space-separated names, cut to
/// `maxlen - 1` bytes.
pub fn tcp_get_available_ulp(reg: &ulp_registry, maxlen: usize) -> (r: Vec<u8>)
    requires
        maxlen >= 1,
    ensures
        r@ == joined_names(reg.list@).take(
            if joined_names(reg.list@).len() < maxlen { joined_names(reg.list@).len() as int } else { maxlen - 1 }),
{
    let limit: usize = maxlen - 1;
    let mut out: Vec<u8> = Vec::new();
    let mut i: usize = 0;
    while i < reg.list.len()
        invariant
            i <= reg.list.len(),
            limit == maxlen - 1,
            out@ == joined_names(reg.list@.take(i as int)).take(
                if joined_names(reg.list@.take(i as int)).len() <= limit { joined_names(reg.list@.take(i as int)).len() as int } else { limit as int }),
        decreases reg.list.len() - i,
    {
        let ghost prev = reg.list@.take(i as int);
        let ghost next = reg.list@.take(i as int + 1);
        proof {
            assert(next.drop_last() =~= prev);
            assert(next.last() == reg.list@[i as int]);
        }
        if i > 0 && out.len() < limit {
            out.push(32u8);
        }
        let name = &reg.list[i].name;
        let mut k: usize = 0;
        let ghost base = out@;
        while k < name.len() && out.len() < limit
            invariant
                k <= name.len(),
                out@ == base + name@.take(k as int),
                out.len() <= limit,
            decreases name.len() - k,
        {
            out.push(name[k]);
            k = k + 1;
            proof {
                assert(out@ =~= base + name@.take(k as int));
            }
        }
        proof {
            let jp = joined_names(prev);
            let jn = joined_names(next);
            if i == 0 {
                assert(jn =~= name@);
            } else {
                assert(jn =~= jp + seq![32u8] + name@);
            }
            assert(out@ =~= jn.take(if jn.len() <= limit { jn.len() as int } else { limit as int }));
        }
        i = i + 1;
    }
    proof {
        assert(reg.list@.take(reg.list@.len() as int) =~= reg.list@);
    }
    out
}

/// Whether a protocol named `name` is registered in `l`.
pub open spec fn registered(l: Seq<tcp_ulp_ops>, name: Seq<u8>) -> bool {
    exists|i: int| 0 <= i < l.len() && l[i].name@ == name
}

/// The registry after looking for `name`: when it is not registered and the
/// caller may administer the network, its module is requested, and the
/// module registers the protocol it provides (`loaded`, when any).
pub open spec fn autoloaded(l: Seq<tcp_ulp_ops>, name: Seq<u8>, capable: bool, loaded: Option<tcp_ulp_ops>) -> Seq<tcp_ulp_ops> {
    if registered(l, name) || !capable {
        l
    } else {
        match loaded {
            Some(u) => if registered(l, u.name@) { l } else { l.push(u) },
            None => l,
        }
    }
}

/// Find the protocol named `name`, requesting its module when it is not
/// registered and the caller may administer the network (`capable`); the
/// module, once loaded, registers the protocol it provides (`loaded`). The
/// result is the protocol's position when it is then registered and its
/// module could be pinned (`module_get_ok`).
pub fn __tcp_ulp_find_autoload(reg: &mut ulp_registry, name: &Vec<u8>, capable: bool, loaded: Option<tcp_ulp_ops>, module_get_ok: bool) -> (r: Option<usize>)
    requires
        old(reg).wf(),
    ensures
        final(reg).wf(),
        final(reg).list@ == autoloaded(old(reg).list@, name@, capable, loaded),
        r matches Some(i) ==> module_get_ok && i < final(reg).list.len() && final(reg).list@[i as int].name@ == name@,
        r is None ==> !module_get_ok || !registered(final(reg).list@, name@),
{
    let mut found = tcp_ulp_find(reg, name);
    if found.is_none() && capable {
        match loaded {
            Some(u) => {
                tcp_register_ulp(reg, u);
            },
            None => {},
        }
        found = tcp_ulp_find(reg, name);
    }
    match found {
        Some(i) => if module_get_ok { Some(i) } else { None },
        None => None,
    }
}

/// Attach the protocol at position `idx` to a socket whose current protocol
/// is `current`: `EEXIST` when it has one; otherwise the protocol's init
/// runs, and its error (`init_ret`) is returned and the module released, or
/// on success the protocol is attached.
pub fn __tcp_set_ulp(current: &mut Option<usize>, idx: usize, init_ret: i32) -> (r: i32)
    ensures
        *old(current) is Some ==> r == EEXIST && *final(current) == *old(current),
        *old(current) is None && init_ret != 0 ==> r == init_ret && *final(current) == *old(current),
        *old(current) is None && init_ret == 0 ==> r == 0 && *final(current) == Some(idx),
{
    if current.is_some() {
        return EEXIST;
    }
    if init_ret != 0 {
        return init_ret;
    }
    *current = Some(idx);
    0
}

/// Attach the protocol named `name` to a socket whose current protocol is
/// `current` (a position in the registry, or `None`). The caller tells
/// whether it holds the socket (else `EINVAL`); the protocol is looked up,
/// its module requested if need be and pinned (see
/// `__tcp_ulp_find_autoload`; `ENOENT` when that fails), then attached with
/// the outcome of its init (see `__tcp_set_ulp`).
pub fn tcp_set_ulp(reg: &mut ulp_registry, current: &mut Option<usize>, name: &Vec<u8>, owned_by_me: bool,
    capable: bool, loaded: Option<tcp_ulp_ops>, module_get_ok: bool, init_ret: i32) -> (r: i32)
    requires
        old(reg).wf(),
    ensures
        final(reg).wf(),
        ({
            let l = autoloaded(old(reg).list@, name@, capable, loaded);
            if !owned_by_me {
                r == EINVAL && *final(current) == *old(current) && final(reg).list@ == old(reg).list@
            } else if !registered(l, name@) || !module_get_ok {
                r == ENOENT && *final(current) == *old(current) && final(reg).list@ == l
            } else if *old(current) is Some {
                r == EEXIST && *final(current) == *old(current) && final(reg).list@ == l
            } else if init_ret != 0 {
                r == init_ret && *final(current) == *old(current) && final(reg).list@ == l
            } else {
                &&& r == 0
                &&& final(reg).list@ == l
                &&& *final(current) matches Some(i) && i < l.len() && l[i as int].name@ == name@
            }
        }),
{
    if !owned_by_me {
        return EINVAL;
    }
    match __tcp_ulp_find_autoload(reg, name, capable, loaded, module_get_ok) {
        None => ENOENT,
        Some(idx) => __tcp_set_ulp(current, idx, init_ret),
    }
}

/// Detach a socket's protocol: whether its release routine runs.
pub fn tcp_cleanup_ulp(reg: &ulp_registry, current: &mut Option<usize>) -> (released: bool)
    ensures
        *final(current) is None,
        released == (match *old(current) {
            Some(i) => i < reg.list.len() && reg.list@[i as int].has_release,
            None => false,
        }),
{
    let r = match *current {
        Some(i) => i < reg.list.len() && reg.list[i].has_release,
        None => false,
    };
    *current = None;
    r
}

/// Whether updating a socket's protocol calls its update routine.
pub fn tcp_update_ulp(reg: &ulp_registry, current: Option<usize>) -> (called: bool)
    ensures
        called == (match current {
            Some(i) => i < reg.list.len() && reg.list@[i as int].has_update,
            None => false,
        }),
{
    match current {
        Some(i) => i < reg.list.len() && reg.list[i].has_update,
        None => false,
    }
}

/// Registering a protocol under a new name makes it findable, and a second
/// registration under the same name is refused.
pub proof fn ulp_register_then_find(l: Seq<tcp_ulp_ops>, u: tcp_ulp_ops)
    requires
        forall|i: int| 0 <= i < l.len() ==> l[i].name@ != u.name@,
    ensures
        exists|i: int| 0 <= i < l.push(u).len() && l.push(u)[i].name@ == u.name@,
{
    assert(l.push(u)[l.len() as int].name@ == u.name@);
}

} // verus!
