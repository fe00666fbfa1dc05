//! SYN cookies: encoding a connection's MSS choice and the time into the
//! initial sequence number of a SYN-ACK, and getting it back from the ACK,
//! so that no state is kept for half-open connections.
use vstd::prelude::*;
use crate::byteorder::{host_to_net32, swap32};

verus! {

pub const COOKIEBITS: u32 = 24;
pub const COOKIEMASK: u32 = 0x00ff_ffff;
pub const TSBITS: u32 = 6;
pub const TSMASK: u32 = 0x3f;
/// How many cookie time steps a cookie stays valid.
pub const MAX_SYNCOOKIE_AGE: u32 = 3;
pub const NSEC_PER_SEC: u64 = 1_000_000_000;
pub const TCP_TS_HZ: u64 = 1000;

/// The MSS values a cookie can encode, by index.
pub open spec fn mstab(i: int) -> u16 {
    if i == 0 { 536 } else if i == 1 { 1300 } else if i == 2 { 1440 } else { 1460 }
}

fn mstab_at(i: u32) -> (r: u16)
    requires
        i < 4,
    ensures
        r == mstab(i as int),
{
    if i == 0 { 536 } else if i == 1 { 1300 } else if i == 2 { 1440 } else { 1460 }
}

/// A 128-bit secret.
#[derive(Clone, Copy)]
pub struct siphash_key_t {
    pub key: [u64; 2],
}

/// `h` rotated left by `n` bits.
pub open spec fn rotl(h: u64, n: u64) -> u64 {
    (h << n) | (h >> (64 - n) as u64)
}

/// The mixing of four words under a secret: each word is folded in after
/// rotating the state (by 13, 3 and 7 bits), the second half of the secret
/// last, and the low 32 bits kept.
pub open spec fn mix_4u32(k0: u32, k1: u32, k2: u32, k3: u32, key: [u64; 2]) -> u32 {
    let h0 = key[0] ^ (k0 as u64);
    let h1 = rotl(h0, 13) ^ (k1 as u64);
    let h2 = rotl(h1, 3) ^ (k2 as u64);
    let h3 = rotl(h2, 7) ^ (k3 as u64);
    (h3 ^ key[1]) as u32
}

pub fn siphash_4u32(k0: u32, k1: u32, k2: u32, k3: u32, key: &[u64; 2]) -> (r: u32)
    ensures
        r == mix_4u32(k0, k1, k2, k3, *key),
{
    let mut h: u64 = key[0] ^ (k0 as u64);
    h = ((h << 13u64) | (h >> 51u64)) ^ (k1 as u64);
    h = ((h << 3u64) | (h >> 61u64)) ^ (k2 as u64);
    h = ((h << 7u64) | (h >> 57u64)) ^ (k3 as u64);
    (h ^ key[1]) as u32
}

/// The hash of a connection's addresses and ports and a time count under
/// secret number `c`.
pub open spec fn spec_cookie_hash(secret: [siphash_key_t; 2], saddr: u32, daddr: u32, sport: u16, dport: u16, count: u32, c: int) -> u32 {
    mix_4u32(saddr, daddr, ((sport as u32) << 16u32) | (dport as u32), count, secret[c].key)
}

pub fn cookie_hash(secret: &[siphash_key_t; 2], saddr: u32, daddr: u32, sport: u16, dport: u16, count: u32, c: usize) -> (r: u32)
    requires
        c < 2,
    ensures
        r == spec_cookie_hash(*secret, saddr, daddr, sport, dport, count, c as int),
{
    let port_combo: u32 = ((sport as u32) << 16u32) | (dport as u32);
    siphash_4u32(saddr, daddr, port_combo, count, &secret[c].key)
}

/// The cookie for a connection from `saddr`:`sport` to `daddr`:`dport`
/// whose SYN had sequence number `sseq`, at cookie time `count`, carrying
/// `data` (24 bits): the first hash plus the sequence number, the time in
/// the top byte, and the data hidden under the second hash in the low 24
/// bits (all modulo 2^32).
pub open spec fn spec_cookie(secret: [siphash_key_t; 2], saddr: u32, daddr: u32, sport: u16, dport: u16, sseq: u32, count: u32, data: u32) -> u32 {
    let h1 = spec_cookie_hash(secret, saddr, daddr, sport, dport, 0, 0);
    let h2 = spec_cookie_hash(secret, saddr, daddr, sport, dport, count, 1);
    h1.wrapping_add(sseq).wrapping_add(count << COOKIEBITS).wrapping_add(h2.wrapping_add(data) & COOKIEMASK)
}

pub fn secure_tcp_syn_cookie(secret: &[siphash_key_t; 2], saddr: u32, daddr: u32, sport: u16, dport: u16, sseq: u32, data: u32, count: u32) -> (r: u32)
    ensures
        r == spec_cookie(*secret, saddr, daddr, sport, dport, sseq, count, data),
{
    let h1 = cookie_hash(secret, saddr, daddr, sport, dport, 0, 0);
    let h2 = cookie_hash(secret, saddr, daddr, sport, dport, count, 1);
    h1.wrapping_add(sseq).wrapping_add(count << COOKIEBITS).wrapping_add(h2.wrapping_add(data) & COOKIEMASK)
}

/// What a cookie gives back at cookie time `count`: the data it carries
/// when it was made at most `MAX_SYNCOOKIE_AGE - 1` steps ago (judged by
/// the time in its top byte), else `u32::MAX`.
pub open spec fn spec_check(secret: [siphash_key_t; 2], cookie: u32, saddr: u32, daddr: u32, sport: u16, dport: u16, sseq: u32, count: u32) -> u32 {
    let c = cookie.wrapping_sub(spec_cookie_hash(secret, saddr, daddr, sport, dport, 0, 0).wrapping_add(sseq));
    let diff = count.wrapping_sub(c >> COOKIEBITS) & (u32::MAX >> COOKIEBITS);
    if diff >= MAX_SYNCOOKIE_AGE {
        u32::MAX
    } else {
        let h = spec_cookie_hash(secret, saddr, daddr, sport, dport, count.wrapping_sub(diff), 1);
        c.wrapping_sub(h) & COOKIEMASK
    }
}

pub fn check_tcp_syn_cookie(secret: &[siphash_key_t; 2], cookie: u32, saddr: u32, daddr: u32, sport: u16, dport: u16, sseq: u32, count: u32) -> (r: u32)
    ensures
        r == spec_check(*secret, cookie, saddr, daddr, sport, dport, sseq, count),
{
    let c = cookie.wrapping_sub(cookie_hash(secret, saddr, daddr, sport, dport, 0, 0).wrapping_add(sseq));
    let diff = count.wrapping_sub(c >> COOKIEBITS) & (u32::MAX >> COOKIEBITS);
    if diff >= MAX_SYNCOOKIE_AGE {
        return u32::MAX;
    }
    let h = cookie_hash(secret, saddr, daddr, sport, dport, count.wrapping_sub(diff), 1);
    c.wrapping_sub(h) & COOKIEMASK
}

/// A cookie checked with the connection it was made for, up to
/// `MAX_SYNCOOKIE_AGE - 1` time steps later, gives back the data it was
/// made with.
pub proof fn cookie_round_trip(secret: [siphash_key_t; 2], saddr: u32, daddr: u32, sport: u16, dport: u16, sseq: u32, count: u32, data: u32, later: u32)
    requires
        data <= COOKIEMASK,
        later < MAX_SYNCOOKIE_AGE,
    ensures
        spec_check(secret, spec_cookie(secret, saddr, daddr, sport, dport, sseq, count, data), saddr, daddr, sport, dport, sseq,
            count.wrapping_add(later)) == data,
{
    let h1 = spec_cookie_hash(secret, saddr, daddr, sport, dport, 0, 0);
    let h2 = spec_cookie_hash(secret, saddr, daddr, sport, dport, count, 1);
    let cookie = spec_cookie(secret, saddr, daddr, sport, dport, sseq, count, data);
    let now = count.wrapping_add(later);
    let c = cookie.wrapping_sub(h1.wrapping_add(sseq));
    assert(c == (count << 24u32).wrapping_add(h2.wrapping_add(data) & 0x00ff_ffffu32)) by (bit_vector)
        requires
            cookie == h1.wrapping_add(sseq).wrapping_add(count << 24u32).wrapping_add(h2.wrapping_add(data) & 0x00ff_ffffu32),
            c == cookie.wrapping_sub(h1.wrapping_add(sseq)),
    ;
    let diff = now.wrapping_sub(c >> 24u32) & (0xffff_ffffu32 >> 24u32);
    assert(diff == later && now.wrapping_sub(diff) == count) by (bit_vector)
        requires
            c == (count << 24u32).wrapping_add(h2.wrapping_add(data) & 0x00ff_ffffu32),
            now == count.wrapping_add(later),
            diff == now.wrapping_sub(c >> 24u32) & (0xffff_ffffu32 >> 24u32),
            later < 3,
    ;
    assert(c.wrapping_sub(h2) & 0x00ff_ffffu32 == data) by (bit_vector)
        requires
            c == (count << 24u32).wrapping_add(h2.wrapping_add(data) & 0x00ff_ffffu32),
            data <= 0x00ff_ffffu32,
    ;
}

/// A cookie checked with the connection it was made for
/// `MAX_SYNCOOKIE_AGE` or more time steps later is refused (`u32::MAX`).
/// The age is read from the cookie's top byte, so it counts modulo 256: a
/// cookie 256 steps old reads as fresh again.
pub proof fn cookie_expires(secret: [siphash_key_t; 2], saddr: u32, daddr: u32, sport: u16, dport: u16, sseq: u32, count: u32, data: u32, later: u32)
    requires
        data <= COOKIEMASK,
        later % 256 >= MAX_SYNCOOKIE_AGE,
    ensures
        spec_check(secret, spec_cookie(secret, saddr, daddr, sport, dport, sseq, count, data), saddr, daddr, sport, dport, sseq,
            count.wrapping_add(later)) == u32::MAX,
{
    let h1 = spec_cookie_hash(secret, saddr, daddr, sport, dport, 0, 0);
    let h2 = spec_cookie_hash(secret, saddr, daddr, sport, dport, count, 1);
    let cookie = spec_cookie(secret, saddr, daddr, sport, dport, sseq, count, data);
    let now = count.wrapping_add(later);
    let c = cookie.wrapping_sub(h1.wrapping_add(sseq));
    assert(c == (count << 24u32).wrapping_add(h2.wrapping_add(data) & 0x00ff_ffffu32)) by (bit_vector)
        requires
            cookie == h1.wrapping_add(sseq).wrapping_add(count << 24u32).wrapping_add(h2.wrapping_add(data) & 0x00ff_ffffu32),
            c == cookie.wrapping_sub(h1.wrapping_add(sseq)),
    ;
    let diff = now.wrapping_sub(c >> 24u32) & (0xffff_ffffu32 >> 24u32);
    assert(diff >= 3) by (bit_vector)
        requires
            c == (count << 24u32).wrapping_add(h2.wrapping_add(data) & 0x00ff_ffffu32),
            now == count.wrapping_add(later),
            diff == now.wrapping_sub(c >> 24u32) & (0xffff_ffffu32 >> 24u32),
            later % 256 >= 3,
    ;
}

/// The headers a cookie is made from and checked against: addresses, and
/// ports and sequence number as they stand in the TCP header (the sequence
/// number in network order).
pub struct iphdr {
    pub saddr: u32,
    pub daddr: u32,
}

pub struct tcphdr {
    pub source: u16,
    pub dest: u16,
    pub seq: u32,
    pub ack_seq: u32,
}

/// The index of the largest table MSS not above `mss` (0 when all are).
pub open spec fn mss_index(mss: u16) -> u32 {
    if mss >= 1460 { 3 } else if mss >= 1440 { 2 } else if mss >= 1300 { 1 } else { 0 }
}

/// The cookie for a SYN with headers `iph`, `th` offering MSS `*mssp`: the
/// MSS is rounded down to a table value (see `mss_index`), which replaces
/// `*mssp`, and its index is what the cookie carries.
pub fn __cookie_v4_init_sequence(secret: &[siphash_key_t; 2], count: u32, iph: &iphdr, th: &tcphdr, mssp: &mut u16) -> (r: u32)
    ensures
        *final(mssp) == mstab(mss_index(*old(mssp)) as int),
        r == spec_cookie(*secret, iph.saddr, iph.daddr, th.source, th.dest, swap32(th.seq), count, mss_index(*old(mssp))),
{
    let mss = *mssp;
    let mut mssind: u32 = 3;
    loop
        invariant
            mssind <= 3,
            forall|k: int| mssind < k <= 3 ==> mss < mstab(k),
        ensures
            mssind <= 3,
            forall|k: int| mssind < k <= 3 ==> mss < mstab(k),
            mssind == 0 || mss >= mstab(mssind as int),
        decreases mssind,
    {
        if mssind == 0 {
            break;
        }
        let t = mstab_at(mssind);
        if mss >= t {
            break;
        }
        mssind = mssind - 1;
    }
    proof {
        if mssind < 3 {
            assert(mss < mstab(3));
        }
        if mssind < 2 {
            assert(mss < mstab(2));
        }
        if mssind < 1 {
            assert(mss < mstab(1));
        }
    }
    assert(mssind == mss_index(mss));
    *mssp = mstab_at(mssind);
    secure_tcp_syn_cookie(secret, iph.saddr, iph.daddr, th.source, th.dest, host_to_net32(th.seq), mssind, count)
}

/// The same, under the name the TCP code calls it by.
pub fn cookie_v4_init_sequence(secret: &[siphash_key_t; 2], count: u32, iph: &iphdr, th: &tcphdr, mssp: &mut u16) -> (r: u32)
    ensures
        *final(mssp) == mstab(mss_index(*old(mssp)) as int),
        r == spec_cookie(*secret, iph.saddr, iph.daddr, th.source, th.dest, swap32(th.seq), count, mss_index(*old(mssp))),
{
    __cookie_v4_init_sequence(secret, count, iph, th, mssp)
}

/// The MSS that the cookie `cookie` of an ACK with headers `iph`, `th`
/// grants at time `count`: the table MSS of the index it carries (the
/// ACK's sequence number less one being the SYN's), or 0 for a cookie that
/// is too old or does not carry a valid index.
pub fn __cookie_v4_check(secret: &[siphash_key_t; 2], count: u32, iph: &iphdr, th: &tcphdr, cookie: u32) -> (r: u32)
    ensures
        ({
            let m = spec_check(*secret, cookie, iph.saddr, iph.daddr, th.source, th.dest, swap32(th.seq).wrapping_sub(1), count);
            r == (if m < 4 { mstab(m as int) as u32 } else { 0 })
        }),
{
    let seq = host_to_net32(th.seq).wrapping_sub(1);
    let mssind = check_tcp_syn_cookie(secret, cookie, iph.saddr, iph.daddr, th.source, th.dest, seq, count);
    if mssind < 4 {
        mstab_at(mssind) as u32
    } else {
        0
    }
}

/// The ACK that completes a handshake whose SYN-ACK carried a cookie
/// (same ports, sequence number one past the SYN's), arriving up to
/// `MAX_SYNCOOKIE_AGE - 1` time steps later, is granted the MSS that the
/// cookie was made with.
pub proof fn cookie_grants_chosen_mss(secret: [siphash_key_t; 2], iph: iphdr, syn: tcphdr, ack: tcphdr, mss: u16, count: u32, later: u32)
    requires
        ack.source == syn.source,
        ack.dest == syn.dest,
        swap32(ack.seq).wrapping_sub(1) == swap32(syn.seq),
        later < MAX_SYNCOOKIE_AGE,
    ensures
        ({
            let cookie = spec_cookie(secret, iph.saddr, iph.daddr, syn.source, syn.dest, swap32(syn.seq), count, mss_index(mss));
            let m = spec_check(secret, cookie, iph.saddr, iph.daddr, ack.source, ack.dest, swap32(ack.seq).wrapping_sub(1),
                count.wrapping_add(later));
            m == mss_index(mss) && m < 4
        }),
{
    cookie_round_trip(secret, iph.saddr, iph.daddr, syn.source, syn.dest, swap32(syn.seq), count, mss_index(mss), later);
}

/// The timestamp a cookie connection starts with at time `now` (in ns):
/// the current millisecond clock with its low six bits replaced by the
/// connection's options (window scale if usable and below 15, else all
/// six bits; SACK as bit 4; ECN as bit 5), one step of 64 back when that
/// would lie in the future; returned in ns.
pub open spec fn cookie_ts(wscale_ok: u8, snd_wscale: u8, sack_ok: u8, ecn_ok: u8, now: u64) -> u64 {
    let base: u64 = if wscale_ok != 0 && snd_wscale < 15 { snd_wscale as u64 } else { TSMASK as u64 };
    let options: u64 = (base | (if sack_ok != 0 { 16u64 } else { 0u64 })) | (if ecn_ok != 0 { 32u64 } else { 0u64 });
    let ts_now = now / 1_000_000;
    let ts = (ts_now & !(TSMASK as u64)) | options;
    let ts2 = if ts > ts_now { ((((ts >> 6u64) - 1) as u64) << 6u64) | options } else { ts };
    (ts2 * 1_000_000) as u64
}

pub fn cookie_init_timestamp(wscale_ok: u8, snd_wscale: u8, sack_ok: u8, ecn_ok: u8, now: u64) -> (r: u64)
    requires
        now >= 64 * 1_000_000,
    ensures
        r == cookie_ts(wscale_ok, snd_wscale, sack_ok, ecn_ok, now),
{
    let base: u64 = if wscale_ok != 0 && snd_wscale < 15 { snd_wscale as u64 } else { TSMASK as u64 };
    let sack: u64 = if sack_ok != 0 { 16u64 } else { 0u64 };
    let ecn: u64 = if ecn_ok != 0 { 32u64 } else { 0u64 };
    let options: u64 = (base | sack) | ecn;
    let ts_now: u64 = now / 1_000_000;
    let ts: u64 = (ts_now & !(TSMASK as u64)) | options;
    proof {
        assert(base < 64);
        assert(options < 64) by (bit_vector)
            requires
                base < 64,
                sack == 16 || sack == 0,
                ecn == 32 || ecn == 0,
                options == (base | sack) | ecn,
        ;
        assert(ts >> 6u64 == ts_now >> 6u64 && ts_now >> 6u64 >= 1 && ((((ts_now >> 6u64) - 1) as u64) << 6u64) | options < ts_now) by (bit_vector)
            requires
                ts == (ts_now & !63u64) | options,
                options < 64,
                ts_now >= 64,
        ;
    }
    let ts2: u64 = if ts > ts_now { (((ts >> 6u64) - 1) << 6u64) | options } else { ts };
    let ts = ts2;
    proof {
        assert(ts * 1_000_000 <= ts_now * 1_000_000) by (nonlinear_arith)
            requires
                ts <= ts_now,
        ;
        assert(ts_now * 1_000_000 <= now) by (nonlinear_arith)
            requires
                ts_now == now / 1_000_000,
        ;
    }
    ts * 1_000_000
}

} // verus!
