//! Socket diagnostics: the message that describes one socket, and the
//! netlink attributes appended to it.
use vstd::prelude::*;

verus! {

pub const EINVAL: i32 = -22;
pub const ENOMEM: i32 = -12;
pub const ENOENT: i32 = -2;
pub const EMSGSIZE: i32 = -90;
pub const IPPROTO_MAX: i32 = 256;
pub const INET_DIAG_SHUTDOWN: u16 = 1;
pub const INET_DIAG_TOS: u16 = 2;
pub const INET_DIAG_TCLASS: u16 = 3;
pub const INET_DIAG_MARK: u16 = 4;
pub const INET_DIAG_CLASS_ID: u16 = 5;
pub const INET_DIAG_CGROUP_ID: u16 = 6;
pub const INET_DIAG_SOCKOPT: u16 = 7;
pub const INET_DIAG_MEMINFO: u16 = 8;
pub const INET_DIAG_PROTOCOL: u16 = 9;
pub const AF_INET: u32 = 2;
pub const AF_INET6: u32 = 10;
pub const SOCK_RAW: i32 = 3;

pub struct in6_addr {
    pub s6_addr: [u8; 16],
}

/// Identity of a socket in a diagnostic message.
pub struct inet_diag_msg_id {
    pub idiag_sport: u16,
    pub idiag_dport: u16,
    pub idiag_if: u32,
    pub idiag_cookie: [u64; 2],
    pub idiag_src: [u32; 4],
    pub idiag_dst: [u32; 4],
}

/// The fixed part of a diagnostic message.
pub struct inet_diag_msg {
    pub idiag_family: u32,
    pub idiag_state: u32,
    pub idiag_timer: u32,
    pub idiag_retrans: u32,
    pub id: inet_diag_msg_id,
    pub idiag_inode: u64,
    pub idiag_uid: u32,
}

pub struct inet_diag_meminfo {
    pub idiag_rmem: u64,
    pub idiag_wmem: u64,
    pub idiag_fmem: u64,
    pub idiag_tmem: u64,
}

/// The socket options reported, one byte each.
pub struct inet_diag_sockopt {
    pub recverr: u8,
    pub is_icsk: u8,
    pub freebind: u8,
    pub hdrincl: u8,
    pub mc_loop: u8,
    pub transparent: u8,
    pub mc_all: u8,
    pub nodefrag: u8,
    pub bind_address_no_port: u8,
    pub recverr_rfc4884: u8,
    pub defer_connect: u8,
}

pub struct inet6_sock {
    pub tclass: u8,
}

pub struct cgroup_data {
    pub cgroup_id: u64,
}

pub struct nlmsghdr {
    pub nlmsg_len: u32,
    pub nlmsg_type: u16,
    pub nlmsg_flags: u16,
    pub nlmsg_seq: u32,
    pub nlmsg_pid: u32,
}

pub struct nlattr {
    pub nla_len: u16,
    pub nla_type: u16,
}

/// The table lock.
pub struct mutex {}

impl mutex {
    /// An unlocked mutex.
    pub fn new() -> (m: mutex)
        ensures
            m == (mutex {}),
    {
        mutex {}
    }
}

/// What diagnostics read of a socket.
pub struct sock {
    pub sk_family: u32,
    pub sk_num: u16,
    pub sk_dport: u16,
    pub sk_bound_dev_if: u32,
    pub sk_rcv_saddr: u32,
    pub sk_daddr: u32,
    pub sk_mark: u32,
    pub sk_state: u32,
    pub sk_shutdown: u8,
    pub sk_priority: u32,
    pub sk_wmem_queued: u32,
    pub sk_forward_alloc: u32,
    pub sk_type: i32,
    pub sk_protocol: u8,
    pub tos: u8,
    pub opts: inet_diag_sockopt,
}

/// Fill the identity of `sk` into the message; without a socket the message
/// is left alone.
pub fn inet_diag_msg_common_fill(r: &mut inet_diag_msg, sk: Option<&sock>)
    ensures
        sk is None ==> *final(r) == *old(r),
        sk matches Some(s) ==> {
            &&& final(r).idiag_family == s.sk_family
            &&& final(r).id.idiag_sport == s.sk_num
            &&& final(r).id.idiag_dport == s.sk_dport
            &&& final(r).id.idiag_if == s.sk_bound_dev_if
            &&& final(r).id.idiag_src@ == old(r).id.idiag_src@.update(0, s.sk_rcv_saddr)
            &&& final(r).id.idiag_dst@ == old(r).id.idiag_dst@.update(0, s.sk_daddr)
            &&& final(r).id.idiag_cookie == old(r).id.idiag_cookie
            &&& final(r).idiag_state == old(r).idiag_state
            &&& final(r).idiag_timer == old(r).idiag_timer
            &&& final(r).idiag_retrans == old(r).idiag_retrans
            &&& final(r).idiag_inode == old(r).idiag_inode
            &&& final(r).idiag_uid == old(r).idiag_uid
        },
{
    match sk {
        None => {},
        Some(s) => {
            r.idiag_family = s.sk_family;
            r.id.idiag_sport = s.sk_num;
            r.id.idiag_dport = s.sk_dport;
            r.id.idiag_if = s.sk_bound_dev_if;
            r.id.idiag_src[0] = s.sk_rcv_saddr;
            r.id.idiag_dst[0] = s.sk_daddr;
        },
    }
}

// ---------------------------------------------------------------------------
// Netlink attributes
// ---------------------------------------------------------------------------

/// Little-endian encodings.
pub open spec fn le16(v: u16) -> Seq<u8> {
    seq![(v % 256) as u8, (v / 256) as u8]
}

pub open spec fn le32(v: u32) -> Seq<u8> {
    seq![(v % 256) as u8, ((v / 256) % 256) as u8, ((v / 0x1_0000) % 256) as u8, (v / 0x100_0000) as u8]
}

pub open spec fn le64(v: u64) -> Seq<u8> {
    le32((v % 0x1_0000_0000) as u32) + le32((v / 0x1_0000_0000) as u32)
}

/// Zero bytes that pad a payload of `len` bytes to a multiple of four.
pub open spec fn nla_pad(len: nat) -> Seq<u8> {
    Seq::new(((4 - len % 4) % 4) as nat, |i: int| 0u8)
}

/// A netlink attribute: total length (header included, padding excluded),
/// type, payload, padding.
pub open spec fn nla_bytes(ty: u16, payload: Seq<u8>) -> Seq<u8> {
    le16((4 + payload.len()) as u16) + le16(ty) + payload + nla_pad(payload.len())
}

fn push_le16(buf: &mut Vec<u8>, v: u16)
    requires
        old(buf).len() + 2 <= usize::MAX,
    ensures
        final(buf)@ == old(buf)@ + le16(v),
{
    buf.push((v % 256) as u8);
    buf.push((v / 256) as u8);
    proof {
        assert(final(buf)@ =~= old(buf)@ + le16(v));
    }
}

fn push_le32(buf: &mut Vec<u8>, v: u32)
    requires
        old(buf).len() + 4 <= usize::MAX,
    ensures
        final(buf)@ == old(buf)@ + le32(v),
{
    buf.push((v % 256) as u8);
    buf.push(((v / 256) % 256) as u8);
    buf.push(((v / 0x1_0000) % 256) as u8);
    buf.push((v / 0x100_0000) as u8);
    proof {
        assert(final(buf)@ =~= old(buf)@ + le32(v));
    }
}

/// Append the attribute `ty` with `payload` to the message `skb`.
pub fn nla_put(skb: &mut Vec<u8>, ty: u16, payload: &Vec<u8>) -> (ret: i32)
    requires
        payload.len() <= 64,
        old(skb).len() + 72 <= usize::MAX,
    ensures
        ret == 0,
        final(skb)@ == old(skb)@ + nla_bytes(ty, payload@),
{
    let ghost start = skb@;
    let len: u16 = payload.len() as u16;
    push_le16(skb, 4 + len);
    push_le16(skb, ty);
    let ghost head = skb@;
    let mut i: usize = 0;
    while i < payload.len()
        invariant
            i <= payload.len(),
            payload.len() <= 64,
            head.len() + 72 <= usize::MAX + 4,
            skb@ == head + payload@.subrange(0, i as int),
        decreases payload.len() - i,
    {
        skb.push(payload[i]);
        i = i + 1;
        proof {
            assert(skb@ =~= head + payload@.subrange(0, i as int));
        }
    }
    let ghost body = skb@;
    let pad: usize = (4 - payload.len() % 4) % 4;
    let mut k: usize = 0;
    while k < pad
        invariant
            k <= pad,
            pad < 4,
            body.len() + 4 <= usize::MAX,
            skb@ == body + Seq::new(k as nat, |j: int| 0u8),
        decreases pad - k,
    {
        skb.push(0);
        k = k + 1;
        proof {
            assert(skb@ =~= body + Seq::new(k as nat, |j: int| 0u8));
        }
    }
    proof {
        assert(payload@.subrange(0, payload@.len() as int) =~= payload@);
        assert(final(skb)@ =~= start + nla_bytes(ty, payload@));
    }
    0
}

fn le32_bytes(v: u32) -> (b: Vec<u8>)
    ensures
        b@ == le32(v),
{
    let mut b: Vec<u8> = Vec::new();
    push_le32(&mut b, v);
    proof {
        assert(b@ =~= le32(v));
    }
    b
}

/// The socket options as eleven bytes.
pub open spec fn sockopt_bytes(o: inet_diag_sockopt) -> Seq<u8> {
    seq![o.recverr, o.is_icsk, o.freebind, o.hdrincl, o.mc_loop, o.transparent, o.mc_all, o.nodefrag,
        o.bind_address_no_port, o.recverr_rfc4884, o.defer_connect]
}

/// The attributes that describe a socket: shutdown state, TOS when asked for
/// in `ext`, the mark for an administrator, the class (the socket priority),
/// and the socket options.
pub open spec fn diag_attrs(sk: sock, ext: i32, net_admin: bool) -> Seq<u8> {
    nla_bytes(INET_DIAG_SHUTDOWN, seq![sk.sk_shutdown])
        + (if ext & 0x2 != 0 { nla_bytes(INET_DIAG_TOS, seq![sk.tos]) } else { Seq::empty() })
        + (if net_admin { nla_bytes(INET_DIAG_MARK, le32(sk.sk_mark)) } else { Seq::empty() })
        + nla_bytes(INET_DIAG_CLASS_ID, le32(sk.sk_priority))
        + nla_bytes(INET_DIAG_SOCKOPT, sockopt_bytes(sk.opts))
}

/// Append the attributes of `sk` (see `diag_attrs`) and record the owner's
/// user id (`uid`, as seen from the reader's namespace) and the inode.
pub fn inet_diag_msg_attrs_fill(sk: &sock, skb: &mut Vec<u8>, r: &mut inet_diag_msg, ext: i32, uid: u32, inode: u64, net_admin: bool) -> (ret: i32)
    requires
        old(skb).len() + 512 <= usize::MAX,
    ensures
        ret == 0,
        final(skb)@ == old(skb)@ + diag_attrs(*sk, ext, net_admin),
        *final(r) == (inet_diag_msg { idiag_uid: uid, idiag_inode: inode, ..*old(r) }),
{
    let ghost start = skb@;
    let mut one: Vec<u8> = Vec::new();
    one.push(sk.sk_shutdown);
    proof { assert(one@ =~= seq![sk.sk_shutdown]); }
    nla_put(skb, INET_DIAG_SHUTDOWN, &one);
    let ghost a1 = skb@;
    if ext & 0x2 != 0 {
        let mut t: Vec<u8> = Vec::new();
        t.push(sk.tos);
        proof { assert(t@ =~= seq![sk.tos]); }
        nla_put(skb, INET_DIAG_TOS, &t);
    }
    let ghost a2 = skb@;
    if net_admin {
        let m = le32_bytes(sk.sk_mark);
        nla_put(skb, INET_DIAG_MARK, &m);
    }
    let ghost a3 = skb@;
    let classid: u32 = sk.sk_priority;
    let c = le32_bytes(classid);
    nla_put(skb, INET_DIAG_CLASS_ID, &c);
    let ghost a4 = skb@;
    r.idiag_uid = uid;
    r.idiag_inode = inode;
    let o = &sk.opts;
    let mut ob: Vec<u8> = Vec::new();
    ob.push(o.recverr);
    ob.push(o.is_icsk);
    ob.push(o.freebind);
    ob.push(o.hdrincl);
    ob.push(o.mc_loop);
    ob.push(o.transparent);
    ob.push(o.mc_all);
    ob.push(o.nodefrag);
    ob.push(o.bind_address_no_port);
    ob.push(o.recverr_rfc4884);
    ob.push(o.defer_connect);
    proof { assert(ob@ =~= sockopt_bytes(sk.opts)); }
    nla_put(skb, INET_DIAG_SOCKOPT, &ob);
    proof {
        let t = if ext & 0x2 != 0 { nla_bytes(INET_DIAG_TOS, seq![sk.tos]) } else { Seq::empty() };
        let m = if net_admin { nla_bytes(INET_DIAG_MARK, le32(sk.sk_mark)) } else { Seq::empty() };
        assert(a2 =~= a1 + t);
        assert(a3 =~= a2 + m);
        assert(skb@ =~= start + diag_attrs(*sk, ext, net_admin));
    }
    0
}

/// What filling a full diagnostic record needs from outside: whether the
/// message header fitted, and the socket's receive and transmit memory.
pub struct diag_env {
    pub msg_ok: bool,
    pub rmem_alloc: u64,
    pub wmem_alloc: u64,
}

/// Memory information as four 64-bit little-endian words.
pub open spec fn meminfo_bytes(m: inet_diag_meminfo) -> Seq<u8> {
    le64(m.idiag_rmem) + le64(m.idiag_wmem) + le64(m.idiag_fmem) + le64(m.idiag_tmem)
}

fn push_le64(buf: &mut Vec<u8>, v: u64)
    requires
        old(buf).len() + 8 <= usize::MAX,
    ensures
        final(buf)@ == old(buf)@ + le64(v),
{
    push_le32(buf, (v % 0x1_0000_0000) as u32);
    push_le32(buf, (v / 0x1_0000_0000) as u32);
    proof {
        assert(final(buf)@ =~= old(buf)@ + le64(v));
    }
}

/// Fill the diagnostic record of `sk` into `r` and its attributes into
/// `skb`: identity and state, the attributes of `inet_diag_msg_attrs_fill`,
/// memory information when asked for in `ext`, and the protocol of a raw
/// socket. `EMSGSIZE` when the message header does
/// not fit.
pub fn inet_sk_diag_fill(sk: &sock, skb: &mut Vec<u8>, r: &mut inet_diag_msg, ext: i32, uid: u32, inode: u64, net_admin: bool, env: &diag_env) -> (ret: i32)
    requires
        old(skb).len() + 1024 <= usize::MAX,
    ensures
        !env.msg_ok ==> ret == EMSGSIZE && final(skb)@ == old(skb)@ && *final(r) == *old(r),
        env.msg_ok ==> {
            let mem = inet_diag_meminfo {
                idiag_rmem: env.rmem_alloc,
                idiag_wmem: sk.sk_wmem_queued as u64,
                idiag_fmem: sk.sk_forward_alloc as u64,
                idiag_tmem: env.wmem_alloc,
            };
            &&& ret == 0
            &&& final(skb)@ == old(skb)@ + diag_attrs(*sk, ext, net_admin)
                + (if ext & 0x80 != 0 { nla_bytes(INET_DIAG_MEMINFO, meminfo_bytes(mem)) } else { Seq::empty() })
                + (if sk.sk_type == SOCK_RAW { nla_bytes(INET_DIAG_PROTOCOL, seq![sk.sk_protocol]) } else { Seq::empty() })
            &&& final(r).idiag_family == sk.sk_family
            &&& final(r).idiag_state == sk.sk_state
            &&& final(r).id.idiag_sport == sk.sk_num
            &&& final(r).id.idiag_dport == sk.sk_dport
            &&& final(r).id.idiag_if == sk.sk_bound_dev_if
            &&& final(r).id.idiag_src@ == old(r).id.idiag_src@.update(0, sk.sk_rcv_saddr)
            &&& final(r).id.idiag_dst@ == old(r).id.idiag_dst@.update(0, sk.sk_daddr)
            &&& final(r).idiag_uid == uid
            &&& final(r).idiag_inode == inode
        },
{
    if !env.msg_ok {
        return EMSGSIZE;
    }
    let ghost start = skb@;
    inet_diag_msg_common_fill(r, Some(sk));
    r.idiag_state = sk.sk_state;
    inet_diag_msg_attrs_fill(sk, skb, r, ext, uid, inode, net_admin);
    let ghost a1 = skb@;
    if ext & 0x80 != 0 {
        let mut mb: Vec<u8> = Vec::new();
        push_le64(&mut mb, env.rmem_alloc);
        push_le64(&mut mb, sk.sk_wmem_queued as u64);
        push_le64(&mut mb, sk.sk_forward_alloc as u64);
        push_le64(&mut mb, env.wmem_alloc);
        proof {
            let mem = inet_diag_meminfo {
                idiag_rmem: env.rmem_alloc,
                idiag_wmem: sk.sk_wmem_queued as u64,
                idiag_fmem: sk.sk_forward_alloc as u64,
                idiag_tmem: env.wmem_alloc,
            };
            assert(mb@ =~= meminfo_bytes(mem));
        }
        nla_put(skb, INET_DIAG_MEMINFO, &mb);
    }
    let ghost a2 = skb@;
    if sk.sk_type == SOCK_RAW {
        let mut pb: Vec<u8> = Vec::new();
        pb.push(sk.sk_protocol);
        proof { assert(pb@ =~= seq![sk.sk_protocol]); }
        nla_put(skb, INET_DIAG_PROTOCOL, &pb);
    }
    proof {
        let mem = inet_diag_meminfo {
            idiag_rmem: env.rmem_alloc,
            idiag_wmem: sk.sk_wmem_queued as u64,
            idiag_fmem: sk.sk_forward_alloc as u64,
            idiag_tmem: env.wmem_alloc,
        };
        let m = if ext & 0x80 != 0 { nla_bytes(INET_DIAG_MEMINFO, meminfo_bytes(mem)) } else { Seq::empty() };
        let p = if sk.sk_type == SOCK_RAW { nla_bytes(INET_DIAG_PROTOCOL, seq![sk.sk_protocol]) } else { Seq::empty() };
        assert(a2 =~= a1 + m);
        assert(skb@ =~= a2 + p);
        assert(skb@ =~= start + diag_attrs(*sk, ext, net_admin) + m + p);
    }
    0
}

} // verus!
