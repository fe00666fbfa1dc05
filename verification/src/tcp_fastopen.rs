//! TCP Fast Open keys: installing the primary and backup cookie keys for a
//! namespace or a listener, reading them back, and generating cookies.
use vstd::prelude::*;

verus! {

pub const TCP_FASTOPEN_KEY_LENGTH: usize = 16;
pub const TCP_FASTOPEN_COOKIE_SIZE: i32 = 8;
pub const EINVAL: i32 = -22;
pub const ENOMEM: i32 = -12;
pub const AF_INET: i32 = 2;

/// One cookie key as two 64-bit words.
#[derive(Clone, Copy)]
pub struct tcp_fastopen_key {
    pub key: [u64; 2],
}

/// The keys in force: the primary, and a backup when `num` is 2.
#[derive(Clone, Copy)]
pub struct tcp_fastopen_context {
    pub key: [tcp_fastopen_key; 2],
    pub num: u8,
}

/// Where the keys live: the namespace's context and the listener's own.
pub struct fastopen_state {
    pub net_ctx: Option<tcp_fastopen_context>,
    pub sock_ctx: Option<tcp_fastopen_context>,
}

/// A cookie: up to two words and its length in bytes.
pub struct tcp_fastopen_cookie {
    pub val: [u64; 2],
    pub len: i32,
}

/// The little-endian 64-bit word at `at` of `b`.
pub open spec fn le64_at(b: Seq<u8>, at: int) -> u64 {
    (b[at] as int + b[at + 1] as int * 0x100 + b[at + 2] as int * 0x1_0000 + b[at + 3] as int * 0x100_0000
        + b[at + 4] as int * 0x1_0000_0000 + b[at + 5] as int * 0x100_0000_0000
        + b[at + 6] as int * 0x1_0000_0000_0000 + b[at + 7] as int * 0x100_0000_0000_0000) as u64
}

fn get_unaligned_le64(b: &[u8; 16], at: usize) -> (r: u64)
    requires
        at + 8 <= 16,
    ensures
        r == le64_at(b@, at as int),
{
    (b[at] as u64) + (b[at + 1] as u64) * 0x100 + (b[at + 2] as u64) * 0x1_0000 + (b[at + 3] as u64) * 0x100_0000
        + (b[at + 4] as u64) * 0x1_0000_0000 + (b[at + 5] as u64) * 0x100_0000_0000
        + (b[at + 6] as u64) * 0x1_0000_0000_0000 + (b[at + 7] as u64) * 0x100_0000_0000_0000
}

/// The key made of sixteen bytes.
pub open spec fn key_of(b: Seq<u8>) -> (u64, u64) {
    (le64_at(b, 0), le64_at(b, 8))
}

/// Install new keys, for the listener when `for_sock`, else for the
/// namespace: the primary key, and the backup key when given. Without memory
/// (`alloc_ok`) nothing changes and the negated `ENOMEM` is returned.
pub fn tcp_fastopen_reset_cipher(st: &mut fastopen_state, for_sock: bool, primary: &[u8; 16], backup: Option<&[u8; 16]>, alloc_ok: bool) -> (r: i32)
    ensures
        !alloc_ok ==> r == -ENOMEM && final(st).net_ctx == old(st).net_ctx && final(st).sock_ctx == old(st).sock_ctx,
        alloc_ok ==> r == 0 && ({
            let c = if for_sock { final(st).sock_ctx } else { final(st).net_ctx };
            &&& c matches Some(ctx)
            &&& ctx.num == (if backup is Some { 2u8 } else { 1u8 })
            &&& (ctx.key@[0].key@[0], ctx.key@[0].key@[1]) == key_of(primary@)
            &&& backup matches Some(b) ==> (ctx.key@[1].key@[0], ctx.key@[1].key@[1]) == key_of(b@)
        }),
        alloc_ok && for_sock ==> final(st).net_ctx == old(st).net_ctx,
        alloc_ok && !for_sock ==> final(st).sock_ctx == old(st).sock_ctx,
{
    if !alloc_ok {
        return -ENOMEM;
    }
    let k0 = tcp_fastopen_key { key: [get_unaligned_le64(primary, 0), get_unaligned_le64(primary, 8)] };
    let (k1, num) = match backup {
        Some(b) => (tcp_fastopen_key { key: [get_unaligned_le64(b, 0), get_unaligned_le64(b, 8)] }, 2u8),
        None => (tcp_fastopen_key { key: [0, 0] }, 1u8),
    };
    let ctx = tcp_fastopen_context { key: [k0, k1], num };
    if for_sock {
        st.sock_ctx = Some(ctx);
    } else {
        st.net_ctx = Some(ctx);
    }
    0
}

/// The keys in force for the listener (when `for_sock`) or the namespace,
/// as words: two per key, primary first. Empty without a context.
pub fn tcp_fastopen_get_cipher(st: &fastopen_state, for_sock: bool) -> (r: Vec<u64>)
    requires
        (if for_sock { st.sock_ctx } else { st.net_ctx }) matches Some(c) ==> c.num <= 2,
    ensures
        match (if for_sock { st.sock_ctx } else { st.net_ctx }) {
            None => r@.len() == 0,
            Some(c) => r@.len() == 2 * c.num && forall|i: int| 0 <= i < c.num ==>
                r@[2 * i] == c.key@[i].key@[0] && r@[2 * i + 1] == c.key@[i].key@[1],
        },
{
    let mut out: Vec<u64> = Vec::new();
    let ctx = if for_sock { st.sock_ctx } else { st.net_ctx };
    match ctx {
        None => {},
        Some(c) => {
            let mut i: u8 = 0;
            while i < c.num
                invariant
                    c.num <= 2,
                    i <= c.num,
                    out@.len() == 2 * i,
                    forall|j: int| 0 <= j < i ==> out@[2 * j] == c.key@[j].key@[0] && out@[2 * j + 1] == c.key@[j].key@[1],
                decreases c.num - i,
            {
                let k = c.key[i as usize];
                out.push(k.key[0]);
                out.push(k.key[1]);
                i = i + 1;
            }
        },
    }
    out
}

/// Give the namespace a random key (`random_key`) unless it has one.
pub fn tcp_fastopen_init_key_once(st: &mut fastopen_state, random_key: &[u8; 16], alloc_ok: bool)
    ensures
        old(st).net_ctx is Some ==> final(st).net_ctx == old(st).net_ctx,
        old(st).net_ctx is None && alloc_ok ==> (final(st).net_ctx matches Some(c) && c.num == 1
            && (c.key@[0].key@[0], c.key@[0].key@[1]) == key_of(random_key@)),
        final(st).sock_ctx == old(st).sock_ctx,
{
    if st.net_ctx.is_some() {
        return;
    }
    tcp_fastopen_reset_cipher(st, false, random_key, None, alloc_ok);
}

/// Drop the namespace's keys.
pub fn tcp_fastopen_ctx_destroy(st: &mut fastopen_state)
    ensures
        final(st).net_ctx is None,
        final(st).sock_ctx == old(st).sock_ctx,
{
    st.net_ctx = None;
}

/// Drop the listener's keys.
pub fn tcp_fastopen_destroy_cipher(st: &mut fastopen_state)
    ensures
        final(st).sock_ctx is None,
        final(st).net_ctx == old(st).net_ctx,
{
    st.sock_ctx = None;
}

/// Fill a cookie for an IPv4 request: its first word is the keyed hash of
/// the SYN's addresses (`hash`), eight bytes long. Other families get none.
pub fn __tcp_fastopen_cookie_gen_cipher(family: i32, hash: u64, foc: &mut tcp_fastopen_cookie) -> (r: bool)
    ensures
        r == (family == AF_INET),
        family == AF_INET ==> final(foc).val@[0] == hash && final(foc).val@[1] == old(foc).val@[1] && final(foc).len == TCP_FASTOPEN_COOKIE_SIZE,
        family != AF_INET ==> *final(foc) == *old(foc),
{
    if family == AF_INET {
        foc.val[0] = hash;
        foc.len = TCP_FASTOPEN_COOKIE_SIZE;
        return true;
    }
    false
}

/// The keys a listener uses: its own when it has them, else its
/// namespace's.
pub open spec fn ctx_in_force(st: fastopen_state) -> Option<tcp_fastopen_context> {
    if st.sock_ctx is Some { st.sock_ctx } else { st.net_ctx }
}

/// The keys a listener uses (see `ctx_in_force`).
pub fn tcp_fastopen_get_ctx(st: &fastopen_state) -> (r: Option<tcp_fastopen_context>)
    ensures
        r == ctx_in_force(*st),
{
    if st.sock_ctx.is_some() { st.sock_ctx } else { st.net_ctx }
}

/// Generate the cookie for a request of address family `family`: when keys
/// are in force, the cookie is made with their primary key, `hash` being the
/// keyed hash of the SYN's addresses under that key (see
/// `__tcp_fastopen_cookie_gen_cipher`); without keys the cookie is left as
/// it is.
pub fn tcp_fastopen_cookie_gen(st: &fastopen_state, family: i32, hash: u64, foc: &mut tcp_fastopen_cookie)
    ensures
        ctx_in_force(*st) is Some && family == AF_INET ==> final(foc).val@[0] == hash
            && final(foc).val@[1] == old(foc).val@[1] && final(foc).len == TCP_FASTOPEN_COOKIE_SIZE,
        !(ctx_in_force(*st) is Some && family == AF_INET) ==> *final(foc) == *old(foc),
{
    match tcp_fastopen_get_ctx(st) {
        Some(_ctx) => {
            __tcp_fastopen_cookie_gen_cipher(family, hash, foc);
        },
        None => {},
    }
}

/// Installing keys and reading them back gives the installed keys: the
/// primary first, then the backup when one was given.
pub proof fn fastopen_keys_read_back(c: tcp_fastopen_context, r: Seq<u64>)
    requires
        c.num == 2,
        r.len() == 2 * c.num,
        forall|i: int| 0 <= i < c.num ==> r[2 * i] == c.key@[i].key@[0] && r[2 * i + 1] == c.key@[i].key@[1],
    ensures
        r == seq![c.key@[0].key@[0], c.key@[0].key@[1], c.key@[1].key@[0], c.key@[1].key@[1]],
{
    assert(r[0] == c.key@[0].key@[0] && r[1] == c.key@[0].key@[1]);
    assert(r[2] == c.key@[1].key@[0] && r[3] == c.key@[1].key@[1]);
    assert(r =~= seq![c.key@[0].key@[0], c.key@[0].key@[1], c.key@[1].key@[0], c.key@[1].key@[1]]);
}

} // verus!
