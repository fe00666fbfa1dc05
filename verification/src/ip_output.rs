//! IPv4 output: the header checksum, and building the header of a packet
//! that a connection-less reply or a SYN-ACK sends before it goes out.
use vstd::prelude::*;
use crate::ip_options::{ip_options, ip_options_build, options_built, IPHDR_LEN};

verus! {

pub const EINVAL: i32 = -22;
pub const ENOMEM: i32 = -12;
pub const ENOSYS: i32 = -38;
pub const ETH_P_IP: u16 = 0x0800;
pub const IP_DF: u16 = 0x4000;
pub const IP_PMTUDISC_DONT: u8 = 0;
pub const IP_PMTUDISC_WANT: u8 = 1;
pub const IP_PMTUDISC_DO: u8 = 2;

// ---------------------------------------------------------------------------
// The header checksum
// ---------------------------------------------------------------------------

/// The big-endian 16-bit word at byte `at`.
pub open spec fn word_at(s: Seq<u8>, at: int) -> int {
    s[at] * 256 + s[at + 1]
}

/// The sum of the first `n` 16-bit words of `s`.
pub open spec fn word_sum(s: Seq<u8>, n: int) -> int
    decreases n,
{
    if n <= 0 { 0 } else { word_sum(s, n - 1) + word_at(s, 2 * (n - 1)) }
}

/// A sum folded into 16 bits with end-around carry.
pub open spec fn fold16(x: int) -> int
    decreases x,
{
    if x <= 0xffff || x < 0 { x } else { fold16(x / 0x1_0000 + x % 0x1_0000) }
}

/// The Internet checksum of the first `len` bytes of `s` (an even number):
/// the complement of the one's-complement sum of its words.
pub open spec fn ip_csum(s: Seq<u8>, len: int) -> int {
    0xffff - fold16(word_sum(s, len / 2))
}

/// `s` with the big-endian 16-bit value `v` at byte `at`.
pub open spec fn set_be16(s: Seq<u8>, at: int, v: int) -> Seq<u8> {
    s.update(at, (v / 256) as u8).update(at + 1, (v % 256) as u8)
}

/// The header length in bytes that the first byte gives.
pub open spec fn hdr_len(s: Seq<u8>) -> int {
    (s[0] % 16) * 4
}

/// `s` with its checksum field cleared and then set to the checksum of the
/// header.
pub open spec fn checksummed(s: Seq<u8>) -> Seq<u8> {
    let z = set_be16(s, 10, 0);
    set_be16(z, 10, ip_csum(z, hdr_len(s)))
}

pub(crate) proof fn lemma_fold16(x: int)
    requires
        0 <= x,
    ensures
        0 <= fold16(x) <= 0xffff,
        fold16(x) % 0xffff == x % 0xffff,
        x > 0 ==> fold16(x) > 0,
    decreases x,
{
    if x > 0xffff {
        let q = x / 0x1_0000;
        let r = x % 0x1_0000;
        assert(x == 0x1_0000 * q + r);
        assert(q + r < x && q > 0);
        lemma_fold16(q + r);
        assert(x == 0xffff * q + (q + r));
        vstd::arithmetic::div_mod::lemma_mod_multiples_vanish(q, q + r, 0xffff);
    }
}

proof fn lemma_word_sum_bounds(s: Seq<u8>, n: int)
    requires
        0 <= n,
        2 * n <= s.len(),
    ensures
        0 <= word_sum(s, n) <= n * 0xffff,
    decreases n,
{
    if n > 0 {
        lemma_word_sum_bounds(s, n - 1);
    }
}

/// Setting a word that was 0 to `v` adds `v` to every sum that covers it.
proof fn lemma_word_sum_set(s: Seq<u8>, n: int, at: int, v: int)
    requires
        0 <= v <= 0xffff,
        0 <= at,
        at % 2 == 0,
        at + 1 < s.len(),
        2 * n <= s.len(),
        s[at] == 0 && s[at + 1] == 0,
    ensures
        word_sum(set_be16(s, at, v), n) == word_sum(s, n) + (if at + 2 <= 2 * n { v } else { 0 }),
    decreases n,
{
    let t = set_be16(s, at, v);
    if n > 0 {
        lemma_word_sum_set(s, n - 1, at, v);
        let k = 2 * (n - 1);
        if k == at {
            assert(word_at(t, k) == v);
        } else {
            assert(t[k] == s[k] && t[k + 1] == s[k + 1]);
        }
    }
}

/// The checksum of `len` bytes of `buf` (`len` even).
pub fn ip_fast_csum(buf: &Vec<u8>, len: usize) -> (r: u16)
    requires
        len <= buf.len(),
        len % 2 == 0,
        len <= 0x1_0000,
    ensures
        r == ip_csum(buf@, len as int),
{
    let mut sum: u64 = 0;
    let mut i: usize = 0;
    while i < len / 2
        invariant
            len <= buf.len(),
            len <= 0x1_0000,
            i <= len / 2,
            sum == word_sum(buf@, i as int),
            sum <= i * 0xffff,
        decreases len / 2 - i,
    {
        sum = sum + (buf[2 * i] as u64) * 256 + buf[2 * i + 1] as u64;
        i = i + 1;
    }
    let mut x: u64 = sum;
    proof {
        lemma_fold16(x as int);
    }
    while x > 0xffff
        invariant
            fold16(x as int) == fold16(sum as int),
        decreases x,
    {
        x = x / 0x1_0000 + x % 0x1_0000;
    }
    proof {
        lemma_fold16(sum as int);
    }
    (0xffff - x) as u16
}

/// Set the checksum of the IPv4 header at the start of `hdr` (see
/// `checksummed`).
pub fn ip_send_check(hdr: &mut Vec<u8>)
    requires
        old(hdr).len() >= 20,
        hdr_len(old(hdr)@) <= old(hdr).len(),
    ensures
        final(hdr)@ == checksummed(old(hdr)@),
{
    hdr.set(10, 0);
    hdr.set(11, 0);
    let ghost z = hdr@;
    assert(z =~= set_be16(old(hdr)@, 10, 0));
    let n: usize = ((hdr[0] % 16) as usize) * 4;
    let c = ip_fast_csum(hdr, n);
    hdr.set(10, (c / 256) as u8);
    hdr.set(11, (c % 256) as u8);
    assert(hdr@ =~= set_be16(z, 10, c as int));
}

/// A header whose checksum was just set checks out: its checksum is 0.
pub proof fn checksummed_header_verifies(s: Seq<u8>)
    requires
        s.len() >= 20,
        20 <= hdr_len(s) <= s.len(),
    ensures
        ip_csum(checksummed(s), hdr_len(s)) == 0,
{
    let z = set_be16(s, 10, 0);
    let n = hdr_len(s) / 2;
    lemma_word_sum_bounds(z, n);
    let sum = word_sum(z, n);
    lemma_fold16(sum);
    let c = 0xffff - fold16(sum);
    assert(z[10] == 0 && z[11] == 0);
    assert(hdr_len(z) == hdr_len(s));
    lemma_word_sum_set(z, n, 10, c);
    assert(word_sum(checksummed(s), n) == sum + c);
    lemma_fold16(sum + c);
    assert((sum + c) % 0xffff == 0) by {
        assert(sum + c == (sum - fold16(sum)) + 0xffff);
        assert(sum % 0xffff == fold16(sum) % 0xffff);
        vstd::arithmetic::div_mod::lemma_mod_sub_multiples_vanish(sum - fold16(sum) + 0xffff, 0xffff);
        vstd::arithmetic::div_mod::lemma_sub_mod_noop(sum, fold16(sum), 0xffff);
    }
    assert(fold16(sum + c) == 0xffff);
}

// ---------------------------------------------------------------------------
// Sending
// ---------------------------------------------------------------------------

/// A packet on its way out: its bytes from the IP header on, its queueing
/// priority and mark, and its link-layer protocol.
pub struct sk_buff {
    pub data: Vec<u8>,
    pub priority: u32,
    pub mark: u32,
    pub protocol: u16,
}

/// What the sending socket contributes: its unicast TTL (-1 for the
/// route's), path MTU discovery mode, protocol, priority and mark.
pub struct sock_out {
    pub uc_ttl: i32,
    pub pmtudisc: u8,
    pub protocol: u8,
    pub priority: u32,
    pub mark: u32,
}

/// What the route contributes: its hop limit and whether its MTU is locked.
pub struct dst_out {
    pub hoplimit: u8,
    pub mtu_locked: bool,
}

/// What the packet's way out decides elsewhere: the identification the
/// generator picks, the source address and time that options record, and
/// the verdicts of the L3 master device, the output hook and the device.
pub struct out_env {
    pub ident: u16,
    pub spec_dst: u32,
    pub timestamp: u32,
    pub l3mdev_consumed: bool,
    pub nf_verdict: i32,
    pub output_ret: i32,
}

/// What the local output path returns: 0 when the L3 master device took
/// the packet; the hook's verdict unless it accepted (1), when the
/// device's result is returned.
pub open spec fn local_out_result(env: out_env) -> i32 {
    if env.l3mdev_consumed { 0 } else if env.nf_verdict == 1 { env.output_ret } else { env.nf_verdict }
}

/// The packet with its total length (the packet's length, kept to 16 bits)
/// and checksum set.
pub open spec fn finished(s: Seq<u8>) -> Seq<u8> {
    checksummed(set_be16(s, 2, (s.len() % 0x1_0000) as int))
}

/// Prepare `skb` for output: set its total length and checksum; unless
/// the L3 master device takes it, mark it as IP. Returns what the output
/// hook decided (1 to go on), or 0 when the master device took it.
pub fn __ip_local_out(skb: &mut sk_buff, l3mdev_consumed: bool, nf_verdict: i32) -> (r: i32)
    requires
        old(skb).data.len() >= 20,
        hdr_len(old(skb).data@) <= old(skb).data.len(),
    ensures
        final(skb).data@ == finished(old(skb).data@),
        final(skb).protocol == (if l3mdev_consumed { old(skb).protocol } else { ETH_P_IP }),
        final(skb).priority == old(skb).priority,
        final(skb).mark == old(skb).mark,
        r == (if l3mdev_consumed { 0 } else { nf_verdict }),
{
    let total: u16 = (skb.data.len() % 0x1_0000) as u16;
    skb.data.set(2, (total / 256) as u8);
    skb.data.set(3, (total % 256) as u8);
    assert(skb.data@ =~= set_be16(old(skb).data@, 2, (old(skb).data@.len() % 0x1_0000) as int));
    ip_send_check(&mut skb.data);
    if l3mdev_consumed {
        return 0;
    }
    skb.protocol = ETH_P_IP;
    nf_verdict
}

/// Send `skb` out locally (see `local_out_result`).
pub fn ip_local_out(skb: &mut sk_buff, env: &out_env) -> (r: i32)
    requires
        old(skb).data.len() >= 20,
        hdr_len(old(skb).data@) <= old(skb).data.len(),
    ensures
        final(skb).data@ == finished(old(skb).data@),
        final(skb).protocol == (if env.l3mdev_consumed { old(skb).protocol } else { ETH_P_IP }),
        final(skb).priority == old(skb).priority,
        final(skb).mark == old(skb).mark,
        r == local_out_result(*env),
{
    let err = __ip_local_out(skb, env.l3mdev_consumed, env.nf_verdict);
    if err == 1 {
        env.output_ret
    } else {
        err
    }
}

/// Whether packets of this socket on this route must not be fragmented:
/// always in "do" mode, and in "want" mode unless the route's MTU is
/// locked.
pub open spec fn dont_fragment(sk: sock_out, dst: dst_out) -> bool {
    sk.pmtudisc == IP_PMTUDISC_DO || (sk.pmtudisc == IP_PMTUDISC_WANT && !dst.mtu_locked)
}

/// The TTL of the socket's packets: its own, or the route's hop limit when
/// it has none.
pub open spec fn select_ttl(sk: sock_out, dst: dst_out) -> u8 {
    if sk.uc_ttl < 0 { dst.hoplimit } else { sk.uc_ttl as u8 }
}

/// The fixed 20 bytes of an IPv4 header with length and checksum 0.
pub open spec fn fixed_header(ihl: u8, tos: u8, id: u16, frag_off: u16, ttl: u8, protocol: u8, saddr: u32, daddr: u32) -> Seq<u8> {
    seq![(0x40 + ihl) as u8, tos, 0u8, 0u8, (id / 256) as u8, (id % 256) as u8, (frag_off / 256) as u8,
        (frag_off % 256) as u8, ttl, protocol, 0u8, 0u8,
        (saddr / 0x100_0000) as u8, ((saddr / 0x1_0000) % 0x100) as u8, ((saddr / 0x100) % 0x100) as u8, (saddr % 0x100) as u8,
        (daddr / 0x100_0000) as u8, ((daddr / 0x1_0000) % 0x100) as u8, ((daddr / 0x100) % 0x100) as u8, (daddr % 0x100) as u8]
}

/// The header `ip_build_and_send_pkt` writes before its options are filled
/// in: version 4 and the header length in words, the TOS, identification
/// and fragment field (don't-fragment with identification 0, or the
/// generator's identification), the TTL, the socket's protocol, the
/// addresses (the first hop of a source route as destination), and room
/// for the options, zeroed.
pub open spec fn header_before_options(sk: sock_out, saddr: u32, daddr: u32, opt: Option<ip_options>, tos: u8, dst: dst_out, env: out_env) -> Seq<u8> {
    let optlen: int = match opt { Some(o) => o.optlen as int, None => 0 };
    let ihl: u8 = (5 + optlen / 4) as u8;
    let to: u32 = match opt { Some(o) => if o.srr != 0 { o.faddr } else { daddr }, None => daddr };
    let df = dont_fragment(sk, dst);
    fixed_header(ihl, tos, if df { 0 } else { env.ident }, if df { IP_DF } else { 0 }, select_ttl(sk, dst), sk.protocol, saddr, to)
        + Seq::new(optlen as nat, |k: int| 0u8)
}

/// The header with its options written (see `options_built`).
pub open spec fn header_built(sk: sock_out, saddr: u32, daddr: u32, opt: Option<ip_options>, tos: u8, dst: dst_out, env: out_env) -> Option<Seq<u8>> {
    let h = header_before_options(sk, saddr, daddr, opt, tos, dst, env);
    match opt {
        Some(o) => if o.optlen != 0 { options_built(h, o, daddr, env.spec_dst, env.timestamp, false) } else { Some(h) },
        None => Some(h),
    }
}

fn push_be32(v: &mut Vec<u8>, x: u32)
    ensures
        final(v)@ == old(v)@ + seq![(x / 0x100_0000) as u8, ((x / 0x1_0000) % 0x100) as u8, ((x / 0x100) % 0x100) as u8, (x % 0x100) as u8],
{
    v.push((x / 0x100_0000) as u8);
    v.push(((x / 0x1_0000) % 0x100) as u8);
    v.push(((x / 0x100) % 0x100) as u8);
    v.push((x % 0x100) as u8);
}

fn build_header(sk: &sock_out, saddr: u32, daddr: u32, opt: Option<&ip_options>, tos: u8, dst: &dst_out, env: &out_env) -> (h: Vec<u8>)
    requires
        -1 <= sk.uc_ttl <= 255,
        opt matches Some(o) ==> o.optlen <= 40,
        header_built(*sk, saddr, daddr, match opt { Some(o) => Some(*o), None => None }, tos, *dst, *env) is Some,
    ensures
        h@ == header_built(*sk, saddr, daddr, match opt { Some(o) => Some(*o), None => None }, tos, *dst, *env)->0,
{
    let ghost o_spec: Option<ip_options> = match opt { Some(o) => Some(*o), None => None };
    let optlen: u8 = match opt { Some(o) => o.optlen, None => 0 };
    let ihl: u8 = 5 + optlen / 4;
    let to: u32 = match opt {
        Some(o) => if o.srr != 0 { o.faddr } else { daddr },
        None => daddr,
    };
    let df = sk.pmtudisc == IP_PMTUDISC_DO || (sk.pmtudisc == IP_PMTUDISC_WANT && !dst.mtu_locked);
    let id: u16 = if df { 0 } else { env.ident };
    let frag_off: u16 = if df { IP_DF } else { 0 };
    let ttl: u8 = if sk.uc_ttl < 0 { dst.hoplimit } else { sk.uc_ttl as u8 };
    let mut h: Vec<u8> = Vec::new();
    h.push(0x40 + ihl);
    h.push(tos);
    h.push(0);
    h.push(0);
    h.push((id / 256) as u8);
    h.push((id % 256) as u8);
    h.push((frag_off / 256) as u8);
    h.push((frag_off % 256) as u8);
    h.push(ttl);
    h.push(sk.protocol);
    h.push(0);
    h.push(0);
    push_be32(&mut h, saddr);
    push_be32(&mut h, to);
    let ghost fixed = h@;
    assert(fixed =~= fixed_header(ihl, tos, id, frag_off, ttl, sk.protocol, saddr, to));
    let mut k: u8 = 0;
    while k < optlen
        invariant
            k <= optlen,
            h@.len() == 20 + k,
            forall|j: int| 20 <= j < h@.len() ==> h@[j] == 0u8,
            h@.subrange(0, 20) == fixed,
        decreases optlen - k,
    {
        h.push(0);
        k = k + 1;
        assert(h@.subrange(0, 20) =~= fixed);
    }
    proof {
        assert(h@ =~= header_before_options(*sk, saddr, daddr, o_spec, tos, *dst, *env));
    }
    match opt {
        Some(o) => {
            if o.optlen != 0 {
                let mut cb = ip_options {
                    optlen: 0, __data: Vec::new(), faddr: 0, srr: 0, rr: 0, ts: 0, cipso: 0,
                    is_strictroute: 0, rr_needaddr: 0, ts_needaddr: 0, ts_needtime: 0,
                };
                let _ = ip_options_build(&mut h, &mut cb, o, daddr, env.spec_dst, env.timestamp, false);
            }
        },
        None => {},
    }
    h
}

fn append_bytes(h: &mut Vec<u8>, payload: &Vec<u8>)
    ensures
        final(h)@ == old(h)@ + payload@,
{
    let mut i: usize = 0;
    let n = payload.len();
    while i < n
        invariant
            n == payload.len(),
            i <= n,
            h@ == old(h)@ + payload@.subrange(0, i as int),
        decreases n - i,
    {
        h.push(payload[i]);
        i = i + 1;
        assert(h@ =~= old(h)@ + payload@.subrange(0, i as int));
    }
    assert(payload@.subrange(0, n as int) =~= payload@);
}

/// Put an IPv4 header (see `header_built`) in front of the payload in
/// `skb`, give the packet the socket's priority and, unless it has one, its
/// mark, and send it out locally (see `ip_local_out`).
pub fn ip_build_and_send_pkt(skb: &mut sk_buff, sk: &sock_out, saddr: u32, daddr: u32, opt: Option<&ip_options>, tos: u8, dst: &dst_out, env: &out_env) -> (r: i32)
    requires
        -1 <= sk.uc_ttl <= 255,
        opt matches Some(o) ==> o.optlen <= 40,
        header_built(*sk, saddr, daddr, match opt { Some(o) => Some(*o), None => None }, tos, *dst, *env) is Some,
        ({
            let h = header_built(*sk, saddr, daddr, match opt { Some(o) => Some(*o), None => None }, tos, *dst, *env)->0;
            h.len() >= 20 && hdr_len(h) <= h.len()
        }),
    ensures
        ({
            let h = header_built(*sk, saddr, daddr, match opt { Some(o) => Some(*o), None => None }, tos, *dst, *env)->0;
            final(skb).data@ == finished(h + old(skb).data@)
        }),
        final(skb).priority == sk.priority,
        final(skb).mark == (if old(skb).mark == 0 { sk.mark } else { old(skb).mark }),
        final(skb).protocol == (if env.l3mdev_consumed { old(skb).protocol } else { ETH_P_IP }),
        r == local_out_result(*env),
{
    let mut h = build_header(sk, saddr, daddr, opt, tos, dst, env);
    let ghost hb = h@;
    append_bytes(&mut h, &skb.data);
    proof {
        assert(h@[0] == hb[0]);
        assert(hdr_len(h@) == hdr_len(hb));
    }
    skb.data = h;
    skb.priority = sk.priority;
    if skb.mark == 0 {
        skb.mark = sk.mark;
    }
    ip_local_out(skb, env)
}

} // verus!
