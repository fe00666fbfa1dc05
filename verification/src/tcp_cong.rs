//! Pluggable TCP congestion control: the registry of algorithms, keyed by
//! a hash of their names, and the lookups by name and by key.
use vstd::prelude::*;

verus! {

pub const EINVAL: i32 = -22;
pub const ENOMEM: i32 = -12;
pub const EEXIST: i32 = -17;
pub const ENOENT: i32 = -2;
pub const EBUSY: i32 = -16;
pub const EPERM: i32 = -1;
pub const TCP_CA_NAME_MAX: usize = 16;
pub const TCP_CA_UNSPEC: u32 = 0;
pub const TCP_CONG_NEEDS_ECN: u32 = 2;

/// A congestion control algorithm: its name (NUL-terminated within 16
/// bytes), the key the registry gave it, its flags, which of its routines
/// it has, and the module that provides it.
pub struct tcp_congestion_ops {
    pub name: [u8; 16],
    pub key: u32,
    pub flags: u32,
    pub has_ssthresh: bool,
    pub has_cong_avoid: bool,
    pub has_cong_control: bool,
    pub has_cwnd_undo: bool,
    pub owner: u64,
}

/// Keys are set and unique in the list.
pub open spec fn keys_unique(l: Seq<tcp_congestion_ops>) -> bool {
    &&& forall|i: int| 0 <= i < l.len() ==> (#[trigger] l[i]).key != TCP_CA_UNSPEC
    &&& forall|i: int, j: int| 0 <= i < j < l.len() ==> l[i].key != l[j].key
}

/// The registered algorithms, in registration order.
pub struct cong_registry {
    pub list: Vec<tcp_congestion_ops>,
}

impl cong_registry {
    /// Keys are set and tell the algorithms apart.
    pub open spec fn wf(self) -> bool {
        keys_unique(self.list@)
    }
}

/// The position of the first NUL of `s` at or after `i` (its length when
/// there is none).
pub open spec fn nul_index(s: Seq<u8>, i: int) -> int
    decreases s.len() - i,
{
    if i >= s.len() || i < 0 {
        s.len() as int
    } else if s[i] == 0 {
        i
    } else {
        nul_index(s, i + 1)
    }
}

/// The string a buffer holds: its bytes before the first NUL.
pub open spec fn cstr(s: Seq<u8>) -> Seq<u8> {
    s.take(nul_index(s, 0))
}

proof fn lemma_nul_index(s: Seq<u8>, i: int)
    requires
        0 <= i <= s.len(),
        forall|j: int| 0 <= j < i ==> s[j] != 0,
    ensures
        nul_index(s, 0) == nul_index(s, i),
        i <= nul_index(s, i) <= s.len(),
        nul_index(s, i) < s.len() ==> s[nul_index(s, i)] == 0,
        forall|j: int| 0 <= j < nul_index(s, i) ==> s[j] != 0,
    decreases s.len() - i,
{
    if i < s.len() && s[i] != 0 {
        lemma_nul_index(s, i + 1);
    }
    if i > 0 {
        lemma_nul_back(s, i);
    }
}

proof fn lemma_nul_back(s: Seq<u8>, i: int)
    requires
        0 < i <= s.len(),
        forall|j: int| 0 <= j < i ==> s[j] != 0,
    ensures
        nul_index(s, 0) == nul_index(s, i),
    decreases i,
{
    assert(nul_index(s, i - 1) == nul_index(s, i));
    if i > 1 {
        lemma_nul_back(s, i - 1);
    }
}

/// The string of a buffer is its prefix up to the first NUL.
pub proof fn lemma_cstr_prefix(s: Seq<u8>)
    ensures
        0 <= nul_index(s, 0) <= s.len(),
        cstr(s) == s.take(nul_index(s, 0)),
{
    lemma_nul_index(s, 0);
}

/// The length of the string in the buffer, at most `max`.
pub fn strnlen(s: &[u8], max: usize) -> (r: usize)
    requires
        max <= s@.len(),
    ensures
        r == (if nul_index(s@, 0) < max { nul_index(s@, 0) } else { max as int }),
{
    let mut i: usize = 0;
    while i < max && s[i] != 0
        invariant
            i <= max <= s@.len(),
            forall|j: int| 0 <= j < i ==> s@[j] != 0,
        decreases max - i,
    {
        i = i + 1;
    }
    proof {
        lemma_nul_index(s@, i as int);
    }
    i
}

fn cstr_equal(a: &[u8], b: &[u8]) -> (r: bool)
    ensures
        r == (cstr(a@) == cstr(b@)),
{
    let la = strnlen(a, a.len());
    let lb = strnlen(b, b.len());
    proof {
        lemma_nul_index(a@, 0);
        lemma_nul_index(b@, 0);
    }
    if la != lb {
        assert(cstr(a@).len() != cstr(b@).len());
        return false;
    }
    let mut i: usize = 0;
    while i < la
        invariant
            la == lb,
            la == nul_index(a@, 0),
            lb == nul_index(b@, 0),
            la <= a@.len(),
            lb <= b@.len(),
            i <= la,
            forall|j: int| 0 <= j < i ==> a@[j] == b@[j],
        decreases la - i,
    {
        if a[i] != b[i] {
            assert(cstr(a@)[i as int] != cstr(b@)[i as int]);
            return false;
        }
        i = i + 1;
    }
    assert(cstr(a@) =~= cstr(b@));
    true
}

/// One step of the name hash.
pub open spec fn hash_step(h: u32, b: u8) -> u32 {
    let h1 = h.wrapping_add(b as u32);
    let h2 = h1.wrapping_add(h1 << 10u32);
    h2 ^ (h2 >> 6u32)
}

/// The name hash of `s` from the initial value `init`.
pub open spec fn name_hash(s: Seq<u8>, init: u32) -> u32
    decreases s.len(),
{
    if s.len() == 0 { init } else { hash_step(name_hash(s.drop_last(), init), s.last()) }
}

/// Hash the first `length` bytes of `key` from `initval`.
pub fn jhash(key: &[u8], length: usize, initval: u32) -> (r: u32)
    requires
        length <= key@.len(),
    ensures
        r == name_hash(key@.take(length as int), initval),
{
    let mut hash = initval;
    let mut i: usize = 0;
    while i < length
        invariant
            i <= length <= key@.len(),
            hash == name_hash(key@.take(i as int), initval),
        decreases length - i,
    {
        proof {
            assert(key@.take(i + 1).drop_last() =~= key@.take(i as int));
        }
        let b = key[i];
        hash = hash.wrapping_add(b as u32);
        hash = hash.wrapping_add(hash << 10u32);
        hash = hash ^ (hash >> 6u32);
        i = i + 1;
    }
    hash
}

/// The key an algorithm of this name gets: the hash of its name, seeded
/// with the name's length.
pub open spec fn name_key(name: Seq<u8>) -> u32 {
    let n = cstr(name);
    name_hash(n, n.len() as u32)
}

/// The first algorithm with this key.
pub open spec fn first_key(l: Seq<tcp_congestion_ops>, key: u32, i: int) -> bool {
    0 <= i < l.len() && l[i].key == key && forall|j: int| 0 <= j < i ==> (#[trigger] l[j]).key != key
}

pub open spec fn has_key(l: Seq<tcp_congestion_ops>, key: u32) -> bool {
    exists|j: int| 0 <= j < l.len() && (#[trigger] l[j]).key == key
}

/// The first algorithm with this name.
pub open spec fn first_name(l: Seq<tcp_congestion_ops>, name: Seq<u8>, i: int) -> bool {
    0 <= i < l.len() && cstr(l[i].name@) == cstr(name) && forall|j: int| 0 <= j < i ==> cstr((#[trigger] l[j]).name@) != cstr(name)
}

pub open spec fn has_name(l: Seq<tcp_congestion_ops>, name: Seq<u8>) -> bool {
    exists|j: int| 0 <= j < l.len() && cstr((#[trigger] l[j]).name@) == cstr(name)
}

/// The algorithm named `name`.
pub fn tcp_ca_find(reg: &cong_registry, name: &Vec<u8>) -> (r: Option<usize>)
    ensures
        match r {
            Some(i) => first_name(reg.list@, name@, i as int),
            None => !has_name(reg.list@, name@),
        },
{
    let mut i: usize = 0;
    while i < reg.list.len()
        invariant
            i <= reg.list@.len(),
            forall|j: int| 0 <= j < i ==> cstr((#[trigger] reg.list@[j]).name@) != cstr(name@),
        decreases reg.list@.len() - i,
    {
        if cstr_equal(&reg.list[i].name, name.as_slice()) {
            return Some(i);
        }
        i = i + 1;
    }
    None
}

/// The algorithm with this key.
pub fn tcp_ca_find_key(reg: &cong_registry, key: u32) -> (r: Option<usize>)
    ensures
        match r {
            Some(i) => first_key(reg.list@, key, i as int),
            None => !has_key(reg.list@, key),
        },
{
    let mut i: usize = 0;
    while i < reg.list.len()
        invariant
            i <= reg.list@.len(),
            forall|j: int| 0 <= j < i ==> (#[trigger] reg.list@[j]).key != key,
        decreases reg.list@.len() - i,
    {
        if reg.list[i].key == key {
            return Some(i);
        }
        i = i + 1;
    }
    None
}

/// The algorithm has the routines it must: the slow-start threshold, undo,
/// and one of the two ways of growing the window.
pub open spec fn complete(ca: tcp_congestion_ops) -> bool {
    ca.has_ssthresh && ca.has_cwnd_undo && (ca.has_cong_avoid || ca.has_cong_control)
}

/// Register an algorithm: EINVAL when it lacks routines; its key is the
/// hash of its name, and EEXIST when that is the unset key or already
/// taken; else it is appended with that key.
pub fn tcp_register_congestion_control(reg: &mut cong_registry, ca: tcp_congestion_ops) -> (r: i32)
    requires
        old(reg).wf(),
    ensures
        final(reg).wf(),
        !complete(ca) ==> r == EINVAL && final(reg).list@ == old(reg).list@,
        complete(ca) && (name_key(ca.name@) == TCP_CA_UNSPEC || has_key(old(reg).list@, name_key(ca.name@)))
            ==> r == EEXIST && final(reg).list@ == old(reg).list@,
        complete(ca) && name_key(ca.name@) != TCP_CA_UNSPEC && !has_key(old(reg).list@, name_key(ca.name@))
            ==> r == 0 && final(reg).list@ == old(reg).list@.push(tcp_congestion_ops { key: name_key(ca.name@), ..ca }),
{
    if !ca.has_ssthresh || !ca.has_cwnd_undo || (!ca.has_cong_avoid && !ca.has_cong_control) {
        return EINVAL;
    }
    let name_len = strnlen(&ca.name, TCP_CA_NAME_MAX);
    proof {
        lemma_nul_index(ca.name@, 0);
    }
    let key = jhash(&ca.name, name_len, name_len as u32);
    assert(ca.name@.take(name_len as int) == cstr(ca.name@));
    if key == TCP_CA_UNSPEC {
        return EEXIST;
    }
    if tcp_ca_find_key(reg, key).is_some() {
        return EEXIST;
    }
    let mut ca = ca;
    ca.key = key;
    reg.list.push(ca);
    0
}

/// The same, under its exported name.
pub fn tcp_register_congestion_control_exported(reg: &mut cong_registry, ca: tcp_congestion_ops) -> (r: i32)
    requires
        old(reg).wf(),
    ensures
        final(reg).wf(),
        !complete(ca) ==> r == EINVAL && final(reg).list@ == old(reg).list@,
        complete(ca) && (name_key(ca.name@) == TCP_CA_UNSPEC || has_key(old(reg).list@, name_key(ca.name@)))
            ==> r == EEXIST && final(reg).list@ == old(reg).list@,
        complete(ca) && name_key(ca.name@) != TCP_CA_UNSPEC && !has_key(old(reg).list@, name_key(ca.name@))
            ==> r == 0 && final(reg).list@ == old(reg).list@.push(tcp_congestion_ops { key: name_key(ca.name@), ..ca }),
{
    tcp_register_congestion_control(reg, ca)
}

/// Unregister the algorithm with this key (nothing when none has it).
pub fn tcp_unregister_congestion_control(reg: &mut cong_registry, key: u32)
    requires
        old(reg).wf(),
    ensures
        final(reg).wf(),
        !has_key(final(reg).list@, key),
        !has_key(old(reg).list@, key) ==> final(reg).list@ == old(reg).list@,
        forall|i: int| first_key(old(reg).list@, key, i) ==> final(reg).list@ == old(reg).list@.remove(i),
{
    match tcp_ca_find_key(reg, key) {
        None => {},
        Some(i) => {
            let ghost before = reg.list@;
            reg.list.remove(i);
            proof {
                assert forall|a: int, b: int| 0 <= a < b < reg.list@.len() implies reg.list@[a].key != reg.list@[b].key by {
                    let oa = if a < i { a } else { a + 1 };
                    let ob = if b < i { b } else { b + 1 };
                    assert(reg.list@[a] == before[oa]);
                    assert(reg.list@[b] == before[ob]);
                }
                assert forall|k: int| 0 <= k < reg.list@.len() implies (#[trigger] reg.list@[k]).key != key by {
                    let ok = if k < i { k } else { k + 1 };
                    assert(reg.list@[k] == before[ok]);
                    assert(before[ok].key != before[i as int].key);
                }
                assert forall|k: int| 0 <= k < reg.list@.len() implies (#[trigger] reg.list@[k]).key != TCP_CA_UNSPEC by {
                    let ok = if k < i { k } else { k + 1 };
                    assert(reg.list@[k] == before[ok]);
                }
            }
        },
    }
}

/// The same, under its exported name.
pub fn tcp_unregister_congestion_control_exported(reg: &mut cong_registry, key: u32)
    requires
        old(reg).wf(),
    ensures
        final(reg).wf(),
        !has_key(final(reg).list@, key),
        !has_key(old(reg).list@, key) ==> final(reg).list@ == old(reg).list@,
        forall|i: int| first_key(old(reg).list@, key, i) ==> final(reg).list@ == old(reg).list@.remove(i),
{
    tcp_unregister_congestion_control(reg, key)
}

/// Find the algorithm named `name`, loading its module when it is missing
/// and the caller may (`capable`): `module` is the algorithm that module
/// registers, if it provides one. The registry after the load attempt is
/// searched again.
pub fn tcp_ca_find_autoload(reg: &mut cong_registry, name: &Vec<u8>, capable: bool, module: Option<tcp_congestion_ops>) -> (r: Option<usize>)
    requires
        old(reg).wf(),
    ensures
        final(reg).wf(),
        has_name(old(reg).list@, name@) || !capable || module is None ==> final(reg).list@ == old(reg).list@,
        match r {
            Some(i) => first_name(final(reg).list@, name@, i as int),
            None => !has_name(final(reg).list@, name@),
        },
        module matches Some(m) ==> !has_name(old(reg).list@, name@) ==> capable ==> {
            let k = name_key(m.name@);
            if complete(m) && k != TCP_CA_UNSPEC && !has_key(old(reg).list@, k) {
                final(reg).list@ == old(reg).list@.push(tcp_congestion_ops { key: k, ..m })
            } else {
                final(reg).list@ == old(reg).list@
            }
        },
{
    let found = tcp_ca_find(reg, name);
    if found.is_some() || !capable {
        return found;
    }
    match module {
        None => found,
        Some(m) => {
            let _ = tcp_register_congestion_control(reg, m);
            tcp_ca_find(reg, name)
        },
    }
}

/// The key of the algorithm named `name` (loading it as
/// `tcp_ca_find_autoload` does), with `ecn_ca` set to whether it needs
/// ECN; the unset key when it is not found or there is nowhere to say so.
pub fn tcp_ca_get_key_by_name(reg: &mut cong_registry, name: &Vec<u8>, ecn_ca: &mut Option<i32>, capable: bool, module: Option<tcp_congestion_ops>) -> (r: u32)
    requires
        old(reg).wf(),
    ensures
        final(reg).wf(),
        *old(ecn_ca) is None ==> r == TCP_CA_UNSPEC && *final(ecn_ca) is None && final(reg).list@ == old(reg).list@,
        *old(ecn_ca) is Some ==> {
            &&& !has_name(final(reg).list@, name@) ==> r == TCP_CA_UNSPEC && *final(ecn_ca) == *old(ecn_ca)
            &&& forall|i: int| first_name(final(reg).list@, name@, i) ==> r == final(reg).list@[i].key
                && *final(ecn_ca) == Some(if final(reg).list@[i].flags & TCP_CONG_NEEDS_ECN != 0 { 1i32 } else { 0i32 })
        },
        has_name(old(reg).list@, name@) || !capable || module is None ==> final(reg).list@ == old(reg).list@,
{
    if ecn_ca.is_none() {
        return TCP_CA_UNSPEC;
    }
    match tcp_ca_find_autoload(reg, name, capable, module) {
        None => TCP_CA_UNSPEC,
        Some(i) => {
            let key = reg.list[i].key;
            *ecn_ca = Some(if reg.list[i].flags & TCP_CONG_NEEDS_ECN != 0 { 1 } else { 0 });
            proof {
                assert forall|k: int| first_name(reg.list@, name@, k) implies k == i by {
                    if k < i {
                        assert(cstr(reg.list@[k].name@) != cstr(name@));
                    } else if k > i {
                        assert(cstr(reg.list@[i as int].name@) != cstr(name@));
                    }
                }
            }
            key
        },
    }
}

/// The same, under its exported name.
pub fn tcp_ca_get_key_by_name_exported(reg: &mut cong_registry, name: &Vec<u8>, ecn_ca: &mut Option<i32>, capable: bool, module: Option<tcp_congestion_ops>) -> (r: u32)
    requires
        old(reg).wf(),
    ensures
        final(reg).wf(),
        *old(ecn_ca) is None ==> r == TCP_CA_UNSPEC && *final(ecn_ca) is None && final(reg).list@ == old(reg).list@,
        *old(ecn_ca) is Some ==> {
            &&& !has_name(final(reg).list@, name@) ==> r == TCP_CA_UNSPEC && *final(ecn_ca) == *old(ecn_ca)
            &&& forall|i: int| first_name(final(reg).list@, name@, i) ==> r == final(reg).list@[i].key
                && *final(ecn_ca) == Some(if final(reg).list@[i].flags & TCP_CONG_NEEDS_ECN != 0 { 1i32 } else { 0i32 })
        },
        has_name(old(reg).list@, name@) || !capable || module is None ==> final(reg).list@ == old(reg).list@,
{
    tcp_ca_get_key_by_name(reg, name, ecn_ca, capable, module)
}

/// Copy the name of the algorithm with this key into `buffer`; false (the
/// buffer untouched) when none has it.
pub fn tcp_ca_get_name_by_key(reg: &cong_registry, key: u32, buffer: &mut [u8; 16]) -> (r: bool)
    ensures
        r == has_key(reg.list@, key),
        !r ==> *final(buffer) == *old(buffer),
        forall|i: int| first_key(reg.list@, key, i) ==> final(buffer)@ == reg.list@[i].name@,
{
    match tcp_ca_find_key(reg, key) {
        None => false,
        Some(i) => {
            *buffer = reg.list[i].name;
            proof {
                assert forall|k: int| first_key(reg.list@, key, k) implies k == i by {
                    if k < i {
                        assert(reg.list@[k].key != key);
                    } else if k > i {
                        assert(reg.list@[i as int].key != key);
                    }
                }
            }
            true
        },
    }
}

/// The same, under its exported name.
pub fn tcp_ca_get_name_by_key_exported(reg: &cong_registry, key: u32, buffer: &mut [u8; 16]) -> (r: bool)
    ensures
        r == has_key(reg.list@, key),
        !r ==> *final(buffer) == *old(buffer),
        forall|i: int| first_key(reg.list@, key, i) ==> final(buffer)@ == reg.list@[i].name@,
{
    tcp_ca_get_name_by_key(reg, key, buffer)
}

/// A registered algorithm is found again by its key, and by its name when
/// no earlier algorithm has that name: registering appends the algorithm
/// with the key of its name, and keys are unique.
pub proof fn registered_is_found(before: Seq<tcp_congestion_ops>, ca: tcp_congestion_ops)
    requires
        keys_unique(before),
        complete(ca),
        name_key(ca.name@) != TCP_CA_UNSPEC,
        !has_key(before, name_key(ca.name@)),
    ensures
        ({
            let after = before.push(tcp_congestion_ops { key: name_key(ca.name@), ..ca });
            &&& first_key(after, name_key(ca.name@), before.len() as int)
            &&& !has_name(before, ca.name@) ==> first_name(after, ca.name@, before.len() as int)
        }),
{
    let after = before.push(tcp_congestion_ops { key: name_key(ca.name@), ..ca });
    assert forall|j: int| 0 <= j < before.len() implies (#[trigger] after[j]).key != name_key(ca.name@) by {
        assert(after[j] == before[j]);
    }
    if !has_name(before, ca.name@) {
        assert forall|j: int| 0 <= j < before.len() implies cstr((#[trigger] after[j]).name@) != cstr(ca.name@) by {
            assert(after[j] == before[j]);
        }
    }
}


/// The window fields of a connection that congestion control moves.
pub struct tcp_sock {
    pub snd_cwnd: u32,
    pub snd_ssthresh: u32,
    pub snd_cwnd_cnt: u32,
    pub snd_cwnd_clamp: u32,
}

/// The connection is in slow start.
pub open spec fn in_slow_start(tp: tcp_sock) -> bool {
    tp.snd_cwnd < tp.snd_ssthresh
}

/// Slow start: the window grows by the ACKed packets, up to the
/// threshold; it is kept within the clamp. What is left over of the ACKed
/// packets is returned with it.
pub open spec fn slow_start_spec(tp: tcp_sock, acked: u32) -> (tcp_sock, int) {
    let grown: int = tp.snd_cwnd + acked;
    let cw: int = if grown < tp.snd_ssthresh { grown } else { tp.snd_ssthresh as int };
    let set: int = if cw < tp.snd_cwnd_clamp { cw } else { tp.snd_cwnd_clamp as int };
    (tcp_sock { snd_cwnd: set as u32, ..tp }, acked - (cw - tp.snd_cwnd))
}

pub fn tcp_slow_start(tp: &mut tcp_sock, acked: u32) -> (r: u32)
    requires
        old(tp).snd_cwnd <= old(tp).snd_ssthresh,
    ensures
        (*final(tp), r as int) == slow_start_spec(*old(tp), acked),
{
    let room = tp.snd_ssthresh - tp.snd_cwnd;
    let cwnd: u32 = if acked < room { tp.snd_cwnd + acked } else { tp.snd_ssthresh };
    let r = acked - (cwnd - tp.snd_cwnd);
    tp.snd_cwnd = if cwnd < tp.snd_cwnd_clamp { cwnd } else { tp.snd_cwnd_clamp };
    r
}

/// Additive increase: one more packet of window per `w` ACKed packets
/// (carrying the count over), never past the clamp.
pub open spec fn cong_avoid_ai(tp: tcp_sock, w: u32, acked: u32) -> tcp_sock {
    let wi: int = w as int;
    let cwnd0: int = if tp.snd_cwnd_cnt >= w { tp.snd_cwnd + 1 } else { tp.snd_cwnd as int };
    let cnt0: int = if tp.snd_cwnd_cnt >= w { 0 } else { tp.snd_cwnd_cnt as int };
    let cnt1: int = cnt0 + acked;
    let cwnd1: int = if cnt1 >= wi { cwnd0 + cnt1 / wi } else { cwnd0 };
    let cnt2: int = if cnt1 >= wi { cnt1 % wi } else { cnt1 };
    tcp_sock { snd_cwnd: (if cwnd1 < tp.snd_cwnd_clamp { cwnd1 } else { tp.snd_cwnd_clamp as int }) as u32, snd_cwnd_cnt: cnt2 as u32, ..tp }
}

pub fn tcp_cong_avoid_ai(tp: &mut tcp_sock, w: u32, acked: u32)
    requires
        w > 0,
        old(tp).snd_cwnd < u32::MAX,
        old(tp).snd_cwnd_cnt as int + acked <= u32::MAX,
        old(tp).snd_cwnd as int + 1 + (old(tp).snd_cwnd_cnt as int + acked) / (w as int) <= u32::MAX,
    ensures
        *final(tp) == cong_avoid_ai(*old(tp), w, acked),
{
    let mut cwnd = tp.snd_cwnd;
    let mut cnt = tp.snd_cwnd_cnt;
    if cnt >= w {
        cnt = 0;
        cwnd = cwnd + 1;
    }
    cnt = cnt + acked;
    if cnt >= w {
        let delta = cnt / w;
        proof {
            assert(delta * w <= cnt && cnt - delta * w == cnt % w) by (nonlinear_arith)
                requires
                    delta == cnt / w,
                    w > 0,
            ;
            let total: int = old(tp).snd_cwnd_cnt as int + acked;
            assert(cnt as int / (w as int) <= total / (w as int)) by (nonlinear_arith)
                requires
                    cnt <= total,
                    w > 0,
                    cnt >= 0,
            ;
        }
        cnt = cnt - delta * w;
        cwnd = cwnd + delta;
    }
    tp.snd_cwnd = if cwnd < tp.snd_cwnd_clamp { cwnd } else { tp.snd_cwnd_clamp };
    tp.snd_cwnd_cnt = cnt;
}

/// Reno's growth on an ACK while the window limits sending: slow start,
/// then one packet per window of ACKed packets.
pub open spec fn reno_cong_avoid(tp: tcp_sock, acked: u32, cwnd_limited: bool) -> tcp_sock {
    if !cwnd_limited {
        tp
    } else {
        let ss = in_slow_start(tp);
        let tp1 = if ss { slow_start_spec(tp, acked).0 } else { tp };
        let left: int = if ss { slow_start_spec(tp, acked).1 } else { acked as int };
        if ss && left == 0 { tp1 } else { cong_avoid_ai(tp1, tp1.snd_cwnd, left as u32) }
    }
}

pub fn tcp_reno_cong_avoid(tp: &mut tcp_sock, ack: u32, acked: u32, cwnd_limited: bool)
    requires
        0 < old(tp).snd_cwnd <= old(tp).snd_cwnd_clamp,
        old(tp).snd_cwnd_clamp < u32::MAX / 2,
        old(tp).snd_cwnd_cnt <= u32::MAX / 4,
        acked <= u32::MAX / 4,
    ensures
        *final(tp) == reno_cong_avoid(*old(tp), acked, cwnd_limited),
{
    if !cwnd_limited {
        return;
    }
    let mut acked = acked;
    if tp.snd_cwnd < tp.snd_ssthresh {
        acked = tcp_slow_start(tp, acked);
        if acked == 0 {
            return;
        }
    }
    let w = tp.snd_cwnd;
    proof {
        let t: int = tp.snd_cwnd_cnt as int + acked;
        assert(t / (w as int) <= t) by (nonlinear_arith)
            requires
                w >= 1,
                t >= 0,
        ;
    }
    tcp_cong_avoid_ai(tp, w, acked);
}

/// Reno never shrinks the window on an ACK and never grows it past the
/// clamp.
pub proof fn reno_window_within_clamp(tp: tcp_sock, acked: u32, cwnd_limited: bool)
    requires
        0 < tp.snd_cwnd <= tp.snd_cwnd_clamp,
    ensures
        tp.snd_cwnd <= reno_cong_avoid(tp, acked, cwnd_limited).snd_cwnd <= tp.snd_cwnd_clamp,
{
    if cwnd_limited {
        let ss = in_slow_start(tp);
        let tp1 = if ss { slow_start_spec(tp, acked).0 } else { tp };
        let left: int = if ss { slow_start_spec(tp, acked).1 } else { acked as int };
        assert(tp.snd_cwnd <= tp1.snd_cwnd <= tp.snd_cwnd_clamp);
        assert(tp1.snd_cwnd_clamp == tp.snd_cwnd_clamp);
        if !(ss && left == 0) {
            let w = tp1.snd_cwnd;
            let cnt0: int = if tp1.snd_cwnd_cnt >= w { 0 } else { tp1.snd_cwnd_cnt as int };
            let cnt1: int = cnt0 + (left as u32);
            assert(cnt1 / (w as int) >= 0) by (nonlinear_arith)
                requires
                    cnt1 >= 0,
                    w > 0,
            ;
        }
    }
}

} // verus!
