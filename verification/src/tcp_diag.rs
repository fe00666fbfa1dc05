//! TCP socket diagnostics: the queue sizes reported for a socket, and the
//! MD5 keys and upper-layer protocol attached to a reply.
use vstd::prelude::*;

verus! {

pub const IPPROTO_TCP: i32 = 6;
pub const INET_DIAG_MD5SIG: i32 = 1;
pub const INET_DIAG_ULP_INFO: i32 = 2;
pub const INET_ULP_INFO_NAME: i32 = 1;
pub const TCP_ULP_NAME_MAX: usize = 15;
pub const ECONNABORTED: i32 = 108;
pub const ENOMEM: i32 = -12;
pub const EINVAL: i32 = -22;
pub const EMSGSIZE: i32 = -90;
pub const TCP_LISTEN: u8 = 1;
pub const SOCK_STREAM: u16 = 1;
pub const AF_INET: u8 = 2;
pub const AF_INET6: u8 = 10;
/// The size of one MD5 key record in a reply.
pub const MD5SIG_RECORD_LEN: usize = 52;
pub const MD5_KEY_MAX: u16 = 32;

/// The queue fields of a diagnostics message.
pub struct inet_diag_msg {
    pub idiag_family: u8,
    pub idiag_state: u8,
    pub idiag_timer: u8,
    pub idiag_retrans: u8,
    pub idiag_expires: u32,
    pub idiag_rqueue: u32,
    pub idiag_wqueue: u32,
    pub idiag_uid: u32,
    pub idiag_ino: u32,
}

/// The socket fields diagnostics read.
pub struct sock {
    pub state: u8,
    pub sk_type: u16,
    pub sk_ack_backlog: u32,
    pub sk_max_ack_backlog: u32,
    pub rcv_nxt: u32,
    pub copied_seq: u32,
    pub write_seq: u32,
    pub snd_una: u32,
    pub fullsock: bool,
}

/// The queue sizes reported: for a listener, its accept backlog and the
/// backlog limit; for a stream socket, the unread and the unacknowledged
/// bytes (sequence arithmetic; unread never negative); otherwise the
/// message is left as it is.
pub open spec fn queues(sk: sock, r: inet_diag_msg) -> inet_diag_msg {
    if sk.state == TCP_LISTEN {
        inet_diag_msg { idiag_rqueue: sk.sk_ack_backlog, idiag_wqueue: sk.sk_max_ack_backlog, ..r }
    } else if sk.sk_type == SOCK_STREAM {
        let unread = sk.rcv_nxt.wrapping_sub(sk.copied_seq);
        inet_diag_msg {
            idiag_rqueue: if (unread as i32) < 0 { 0 } else { unread },
            idiag_wqueue: sk.write_seq.wrapping_sub(sk.snd_una),
            ..r
        }
    } else {
        r
    }
}

pub fn tcp_diag_get_info(sk: &sock, r: &mut inet_diag_msg)
    ensures
        *final(r) == queues(*sk, *old(r)),
{
    if sk.state == TCP_LISTEN {
        r.idiag_rqueue = sk.sk_ack_backlog;
        r.idiag_wqueue = sk.sk_max_ack_backlog;
    } else if sk.sk_type == SOCK_STREAM {
        let unread = sk.rcv_nxt.wrapping_sub(sk.copied_seq);
        r.idiag_rqueue = if (unread as i32) < 0 { 0 } else { unread };
        r.idiag_wqueue = sk.write_seq.wrapping_sub(sk.snd_una);
    }
}

/// An MD5 key as reported.
#[derive(Clone, Copy)]
pub struct tcp_diag_md5sig {
    pub tcpm_family: u8,
    pub tcpm_prefixlen: u8,
    pub tcpm_keylen: u16,
    pub tcpm_addr: [u32; 4],
    pub tcpm_key: [u8; 32],
}

/// An MD5 key of the socket: its peer address (an IPv4 one in the first
/// word) and key bytes.
#[derive(Clone, Copy)]
pub struct tcp_md5sig_key {
    pub family: u8,
    pub prefixlen: u8,
    pub keylen: u16,
    pub key: [u8; 32],
    pub addr: [u32; 4],
}

/// The record describes the key.
pub open spec fn describes(info: tcp_diag_md5sig, key: tcp_md5sig_key, key_before: Seq<u8>, addr_before: Seq<u32>) -> bool {
    &&& info.tcpm_family == key.family
    &&& info.tcpm_prefixlen == key.prefixlen
    &&& info.tcpm_keylen == key.keylen
    &&& info.tcpm_key@ == key.key@.take(key.keylen as int) + key_before.skip(key.keylen as int)
    &&& info.tcpm_addr@ == if key.family == AF_INET {
        addr_before.update(0, key.addr[0])
    } else if key.family == AF_INET6 {
        key.addr@
    } else {
        addr_before
    }
}

/// Describe the key in the record (the key bytes beyond its length stay).
pub fn tcp_diag_md5sig_fill(info: &mut tcp_diag_md5sig, key: &tcp_md5sig_key)
    requires
        key.keylen <= MD5_KEY_MAX,
    ensures
        describes(*final(info), *key, old(info).tcpm_key@, old(info).tcpm_addr@),
{
    info.tcpm_family = key.family;
    info.tcpm_prefixlen = key.prefixlen;
    info.tcpm_keylen = key.keylen;
    let n = key.keylen as usize;
    let mut i: usize = 0;
    while i < n
        invariant
            n == key.keylen,
            n <= 32,
            i <= n,
            info.tcpm_family == key.family,
            info.tcpm_prefixlen == key.prefixlen,
            info.tcpm_keylen == key.keylen,
            info.tcpm_addr == old(info).tcpm_addr,
            info.tcpm_key@ == key.key@.take(i as int) + old(info).tcpm_key@.skip(i as int),
        decreases n - i,
    {
        info.tcpm_key[i] = key.key[i];
        proof {
            assert(info.tcpm_key@ =~= key.key@.take(i + 1) + old(info).tcpm_key@.skip(i + 1));
        }
        i = i + 1;
    }
    if key.family == AF_INET {
        info.tcpm_addr[0] = key.addr[0];
    } else if key.family == AF_INET6 {
        info.tcpm_addr = key.addr;
    }
}

/// An attribute of a diagnostics reply: the socket's MD5 key records, or
/// its upper-layer protocol (by name, NUL included).
pub enum diag_attr {
    Md5sig(Vec<tcp_diag_md5sig>),
    UlpInfo(Vec<u8>),
}

/// A reply being built: its attributes, the bytes they take, and the
/// bytes it may take.
pub struct diag_skb {
    pub attrs: Vec<diag_attr>,
    pub used: usize,
    pub size: usize,
}

/// The room an attribute with `len` bytes of payload takes: a 4-byte
/// header, the payload, padding to 4 bytes.
pub open spec fn nla_total(len: int) -> int {
    (len + 4 + 3) / 4 * 4
}

pub fn nla_total_size(len: usize) -> (r: usize)
    requires
        len + 7 <= usize::MAX,
    ensures
        r == nla_total(len as int),
{
    (len + 4 + 3) / 4 * 4
}

/// A zeroed record.
pub open spec fn zeroed(rec: tcp_diag_md5sig) -> bool {
    &&& rec.tcpm_family == 0 && rec.tcpm_prefixlen == 0 && rec.tcpm_keylen == 0
    &&& rec.tcpm_key@ == Seq::new(32, |i: int| 0u8)
    &&& rec.tcpm_addr@ == Seq::new(4, |i: int| 0u32)
}

/// The records describing the keys, one each, written over zeroed ones.
pub open spec fn records_of(recs: Seq<tcp_diag_md5sig>, keys: Seq<tcp_md5sig_key>) -> bool {
    &&& recs.len() == keys.len()
    &&& forall|i: int| 0 <= i < keys.len() ==> describes(#[trigger] recs[i], keys[i], Seq::new(32, |j: int| 0u8), Seq::new(4, |j: int| 0u32))
}

/// Every key fits a record.
pub open spec fn keys_ok(keys: Seq<tcp_md5sig_key>) -> bool {
    &&& forall|i: int| 0 <= i < keys.len() ==> (#[trigger] keys[i]).keylen <= MD5_KEY_MAX
    &&& keys.len() * MD5SIG_RECORD_LEN + 7 <= usize::MAX
}

/// The reply `a` is `b` unchanged.
pub open spec fn same_skb(a: diag_skb, b: diag_skb) -> bool {
    a.attrs@ == b.attrs@ && a.used == b.used && a.size == b.size
}

/// `after` is `before` with the MD5 key report added, answering `r`:
/// nothing without keys; -ENOMEM when the reply has no room for their
/// records; else one attribute with a record per key.
pub open spec fn md5_added(before: diag_skb, after: diag_skb, keys: Seq<tcp_md5sig_key>, r: i32) -> bool {
    let total = nla_total(keys.len() * MD5SIG_RECORD_LEN);
    if keys.len() == 0 {
        r == 0 && same_skb(after, before)
    } else if before.size - before.used < total {
        r == -ENOMEM && same_skb(after, before)
    } else {
        &&& r == 0
        &&& after.size == before.size
        &&& after.used == before.used + total
        &&& after.attrs@.len() == before.attrs@.len() + 1
        &&& after.attrs@.subrange(0, before.attrs@.len() as int) == before.attrs@
        &&& after.attrs@.last() matches diag_attr::Md5sig(recs) && records_of(recs@, keys)
    }
}

/// Report the socket's MD5 keys (see `md5_added`).
pub fn tcp_diag_put_md5sig(skb: &mut diag_skb, keys: &Vec<tcp_md5sig_key>) -> (r: i32)
    requires
        keys_ok(keys@),
        old(skb).used <= old(skb).size,
    ensures
        final(skb).used <= final(skb).size,
        md5_added(*old(skb), *final(skb), keys@, r),
{
    let count = keys.len();
    if count == 0 {
        return 0;
    }
    let total = nla_total_size(count * MD5SIG_RECORD_LEN);
    if skb.size - skb.used < total {
        return -ENOMEM;
    }
    let mut recs: Vec<tcp_diag_md5sig> = Vec::new();
    let mut i: usize = 0;
    while i < count
        invariant
            count == keys@.len(),
            keys_ok(keys@),
            i <= count,
            recs@.len() == i,
            forall|k: int| 0 <= k < i ==> describes(#[trigger] recs@[k], keys@[k], Seq::new(32, |j: int| 0u8), Seq::new(4, |j: int| 0u32)),
        decreases count - i,
    {
        let mut rec = tcp_diag_md5sig { tcpm_family: 0, tcpm_prefixlen: 0, tcpm_keylen: 0, tcpm_addr: [0u32; 4], tcpm_key: [0u8; 32] };
        assert(rec.tcpm_key@ =~= Seq::new(32, |j: int| 0u8));
        assert(rec.tcpm_addr@ =~= Seq::new(4, |j: int| 0u32));
        assert(keys@[i as int].keylen <= MD5_KEY_MAX);
        tcp_diag_md5sig_fill(&mut rec, &keys[i]);
        recs.push(rec);
        i = i + 1;
    }
    skb.attrs.push(diag_attr::Md5sig(recs));
    skb.used = skb.used + total;
    assert(skb.attrs@.subrange(0, old(skb).attrs@.len() as int) =~= old(skb).attrs@);
    0
}

/// An upper-layer protocol: its name, and (when it reports more) what
/// its report answers and how many bytes it needs.
pub struct tcp_ulp_ops {
    pub name: Vec<u8>,
    pub get_info: Option<i32>,
    pub get_info_size: Option<usize>,
}

/// `after` is `before` with the upper-layer protocol report added,
/// answering `r`: -ENOMEM when the reply has no room for the nest;
/// -EMSGSIZE (cancelling it) when none for the name; the protocol's own
/// report's error (cancelling it); else one attribute with the name (NUL
/// included).
pub open spec fn ulp_added(before: diag_skb, after: diag_skb, ulp_ops: tcp_ulp_ops, r: i32) -> bool {
    let room: int = before.size - before.used;
    let name_room: int = nla_total(ulp_ops.name@.len() as int + 1);
    if room < nla_total(0) {
        r == -ENOMEM && same_skb(after, before)
    } else if room - nla_total(0) < name_room {
        r == EMSGSIZE && same_skb(after, before)
    } else if ulp_ops.get_info is Some && ulp_ops.get_info->0 != 0 {
        r == ulp_ops.get_info->0 && same_skb(after, before)
    } else {
        &&& r == 0
        &&& after.size == before.size
        &&& after.used == before.used + nla_total(0) + name_room
        &&& after.attrs@.len() == before.attrs@.len() + 1
        &&& after.attrs@.subrange(0, before.attrs@.len() as int) == before.attrs@
        &&& after.attrs@.last() matches diag_attr::UlpInfo(n) && n@ == ulp_ops.name@.push(0u8)
    }
}

/// Report the socket's upper-layer protocol (see `ulp_added`).
pub fn tcp_diag_put_ulp(skb: &mut diag_skb, ulp_ops: &tcp_ulp_ops) -> (r: i32)
    requires
        old(skb).used <= old(skb).size,
        ulp_ops.name@.len() + 8 <= usize::MAX,
    ensures
        final(skb).used <= final(skb).size,
        ulp_added(*old(skb), *final(skb), *ulp_ops, r),
{
    let nest = nla_total_size(0);
    if skb.size - skb.used < nest {
        return -ENOMEM;
    }
    let name_total = nla_total_size(ulp_ops.name.len() + 1);
    if skb.size - skb.used - nest < name_total {
        return EMSGSIZE;
    }
    match ulp_ops.get_info {
        Some(e) => {
            if e != 0 {
                return e;
            }
        },
        None => {},
    }
    let mut name = ulp_ops.name.clone();
    name.push(0u8);
    skb.attrs.push(diag_attr::UlpInfo(name));
    skb.used = skb.used + nest + name_total;
    assert(skb.attrs@.subrange(0, old(skb).attrs@.len() as int) =~= old(skb).attrs@);
    0
}

/// A TCP socket as its diagnostics see it: its MD5 keys and its
/// upper-layer protocol, when it has them.
pub struct tcp_diag_sock {
    pub sk: sock,
    pub md5sig_info: Option<Vec<tcp_md5sig_key>>,
    pub icsk_ulp_ops: Option<tcp_ulp_ops>,
}

/// The MD5 key report step of `tcp_diag_get_aux`.
pub open spec fn md5_phase(before: diag_skb, after: diag_skb, md5: Option<Vec<tcp_md5sig_key>>, r: i32) -> bool {
    match md5 {
        None => r == 0 && same_skb(after, before),
        Some(keys) => md5_added(before, after, keys@, r),
    }
}

/// The upper-layer protocol report step of `tcp_diag_get_aux`.
pub open spec fn ulp_phase(before: diag_skb, after: diag_skb, ulp: Option<tcp_ulp_ops>, r: i32) -> bool {
    match ulp {
        None => r == 0 && same_skb(after, before),
        Some(u) => ulp_added(before, after, u, r),
    }
}

/// Add the attributes only an administrator sees: the MD5 keys, then the
/// upper-layer protocol; a negative answer of either stops it and is
/// returned. Nothing is added for others.
pub fn tcp_diag_get_aux(sk: &tcp_diag_sock, net_admin: bool, skb: &mut diag_skb) -> (r: i32)
    requires
        old(skb).used <= old(skb).size,
        sk.md5sig_info matches Some(keys) ==> keys_ok(keys@),
        sk.icsk_ulp_ops matches Some(u) ==> u.name@.len() + 8 <= usize::MAX,
    ensures
        final(skb).used <= final(skb).size,
        !net_admin ==> r == 0 && same_skb(*final(skb), *old(skb)),
        net_admin ==> exists|mid: diag_skb, r1: i32| #[trigger] md5_phase(*old(skb), mid, sk.md5sig_info, r1) && if r1 < 0 {
            r == r1 && same_skb(*final(skb), mid)
        } else {
            exists|r2: i32| #[trigger] ulp_phase(mid, *final(skb), sk.icsk_ulp_ops, r2) && r == (if r2 < 0 { r2 } else { 0 })
        },
{
    if !net_admin {
        return 0;
    }
    let mut r1: i32 = 0;
    match &sk.md5sig_info {
        Some(keys) => {
            r1 = tcp_diag_put_md5sig(skb, keys);
        },
        None => {},
    }
    let ghost mid = *skb;
    assert(md5_phase(*old(skb), mid, sk.md5sig_info, r1));
    if r1 < 0 {
        return r1;
    }
    let mut r2: i32 = 0;
    match &sk.icsk_ulp_ops {
        Some(u) => {
            r2 = tcp_diag_put_ulp(skb, u);
        },
        None => {},
    }
    assert(ulp_phase(mid, *skb, sk.icsk_ulp_ops, r2));
    if r2 < 0 {
        return r2;
    }
    0
}

/// The room the administrator's attributes may take: the MD5 key records
/// and the upper-layer protocol's nest, name and report.
pub open spec fn aux_size(sk: tcp_diag_sock, net_admin: bool) -> int {
    let md5: int = if net_admin && sk.sk.fullsock {
        match sk.md5sig_info {
            Some(keys) => nla_total(keys@.len() * MD5SIG_RECORD_LEN),
            None => 0,
        }
    } else {
        0
    };
    let ulp: int = if net_admin && sk.sk.fullsock {
        match sk.icsk_ulp_ops {
            Some(u) => nla_total(0) + nla_total(TCP_ULP_NAME_MAX as int) + match u.get_info_size { Some(n) => n as int, None => 0 },
            None => 0,
        }
    } else {
        0
    };
    md5 + ulp
}

pub fn tcp_diag_get_aux_size(sk: &tcp_diag_sock, net_admin: bool) -> (r: usize)
    requires
        sk.md5sig_info matches Some(keys) ==> keys_ok(keys@),
        aux_size(*sk, net_admin) <= usize::MAX,
    ensures
        r == aux_size(*sk, net_admin),
{
    let mut size: usize = 0;
    if net_admin && sk.sk.fullsock {
        match &sk.md5sig_info {
            Some(keys) => {
                size = size + nla_total_size(keys.len() * MD5SIG_RECORD_LEN);
            },
            None => {},
        }
    }
    if net_admin && sk.sk.fullsock {
        match &sk.icsk_ulp_ops {
            Some(u) => {
                size = size + nla_total_size(0);
                size = size + nla_total_size(TCP_ULP_NAME_MAX);
                match u.get_info_size {
                    Some(n) => {
                        size = size + n;
                    },
                    None => {},
                }
            },
            None => {},
        }
    }
    size
}

/// Destroy the socket a request names: -EINVAL when it was not found,
/// else what destroying it (with ECONNABORTED) answered.
pub fn tcp_diag_destroy(found: bool, destroy_ret: i32) -> (r: i32)
    ensures
        r as int == if found { destroy_ret as int } else { -EINVAL },
{
    if !found {
        return -EINVAL;
    }
    destroy_ret
}

/// The diagnostics handlers by protocol (by their identity).
pub struct inet_diag_table {
    pub handlers: Vec<Option<u64>>,
}

/// Register the TCP handler (`h`): 0, or EEXIST-like -17 when the slot is
/// taken.
pub fn tcp_diag_init(t: &mut inet_diag_table, h: u64) -> (r: i32)
    requires
        old(t).handlers@.len() > IPPROTO_TCP,
    ensures
        old(t).handlers@[IPPROTO_TCP as int] is None ==> r == 0 && final(t).handlers@ == old(t).handlers@.update(IPPROTO_TCP as int, Some(h)),
        old(t).handlers@[IPPROTO_TCP as int] is Some ==> r == -17 && final(t).handlers@ == old(t).handlers@,
{
    let slot = IPPROTO_TCP as usize;
    if t.handlers[slot].is_some() {
        return -17;
    }
    t.handlers.set(slot, Some(h));
    0
}

/// Unregister the TCP handler.
pub fn tcp_diag_exit(t: &mut inet_diag_table)
    requires
        old(t).handlers@.len() > IPPROTO_TCP,
    ensures
        final(t).handlers@ == old(t).handlers@.update(IPPROTO_TCP as int, None),
{
    t.handlers.set(IPPROTO_TCP as usize, None);
}

} // verus!
