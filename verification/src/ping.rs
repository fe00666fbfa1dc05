//! ICMP echo ("ping") sockets: the table of bound identifiers, choosing a
//! free identifier, and who may open such a socket.
use vstd::prelude::*;

verus! {

pub const EINVAL: i32 = -22;
pub const ENOMEM: i32 = -12;
pub const EACCES: i32 = -13;
pub const ENODEV: i32 = -19;
pub const AF_INET: i32 = 2;
pub const AF_INET6: i32 = 10;
pub const PING_HTABLE_SIZE: usize = 256;
pub const PING_HTABLE_MASK: u32 = 255;

pub struct in_addr {
    pub s_addr: u32,
}

pub struct in6_addr {
    pub s6_addr: [u8; 16],
}

/// Links of a hash chain, as positions in the chain (`None` at its end).
pub struct hlist_nulls_node {
    pub next: Option<usize>,
    pub pprev: Option<usize>,
}

pub struct hlist_nulls_head {
    pub first: Option<usize>,
}

/// A ping socket as the table sees it: an identity, the echo identifier it
/// is bound to, whether it allows sharing the identifier, and whether it is
/// in the table.
#[derive(Clone, Copy)]
pub struct ping_sock {
    pub id: u64,
    pub inet_num: u16,
    pub inet_sport: u16,
    pub sk_reuse: bool,
    pub hashed: bool,
    pub sk_family: i32,
    pub sk_ipv6only: bool,
}

/// Bound sockets, chained by identifier modulo the table size, and the
/// identifier the automatic search last handed out.
pub struct ping_table {
    pub hash: Vec<Vec<ping_sock>>,
    pub rover: u16,
}

impl ping_table {
    /// One chain per slot, and each socket in the chain of its identifier.
    pub open spec fn wf(&self) -> bool {
        &&& self.hash.len() == PING_HTABLE_SIZE
        &&& forall|b: int, j: int| 0 <= b < PING_HTABLE_SIZE && 0 <= j < self.hash@[b].len()
            ==> (#[trigger] self.hash@[b][j]).inet_num as int % 256 == b
    }

    /// Some socket in the table is bound to `n`.
    pub open spec fn used(&self, n: u16) -> bool {
        exists|j: int| 0 <= j < self.hash@[n as int % 256].len() && #[trigger] self.hash@[n as int % 256][j].inet_num == n
    }

    /// A socket other than `sk` is bound to `n`, and the two may not share it.
    pub open spec fn conflicts(&self, n: u16, sk: ping_sock) -> bool {
        exists|j: int| 0 <= j < self.hash@[n as int % 256].len() && {
            let o = #[trigger] self.hash@[n as int % 256][j];
            o.inet_num == n && o.id != sk.id && (!o.sk_reuse || !sk.sk_reuse)
        }
    }

    /// An empty table.
    pub fn new() -> (t: ping_table)
        ensures
            t.wf(),
            t.rover == 0,
            forall|b: int| 0 <= b < PING_HTABLE_SIZE ==> t.hash@[b].len() == 0,
    {
        let mut hash: Vec<Vec<ping_sock>> = Vec::new();
        while hash.len() < 256
            invariant
                hash.len() <= 256,
                forall|b: int| 0 <= b < hash.len() ==> hash@[b].len() == 0,
            decreases 256 - hash.len(),
        {
            hash.push(Vec::new());
        }
        ping_table { hash, rover: 0 }
    }
}

/// The hash of an identifier: plus the namespace's mix, masked.
pub open spec fn spec_ping_hash(net_mix: u32, num: u32, mask: u32) -> u32 {
    (((num + net_mix) % 0x1_0000_0000) as u32) & mask
}

/// Slot of an identifier for a namespace whose hash mix is `net_mix`.
pub fn ping_hashfn(net_mix: u32, num: u32, mask: u32) -> (r: u32)
    ensures
        r == spec_ping_hash(net_mix, num, mask),
        r <= mask,
{
    let r = num.wrapping_add(net_mix) & mask;
    proof {
        let a = num.wrapping_add(net_mix);
        assert(a & mask <= mask) by (bit_vector);
    }
    r
}

/// The identifier the automatic search settles on, examining at most
/// 2^16 - `k` more candidates from `r` on (0 is skipped); `None` when every
/// candidate is taken.
pub open spec fn ping_search(t: ping_table, r: u16, k: int) -> Option<u16>
    decreases 0x1_0000 - k,
{
    if k >= 0x1_0000 {
        None
    } else {
        let c: u16 = if r == 0 { 1 } else { r };
        if t.used(c) {
            ping_search(t, ((c + 1) % 0x1_0000) as u16, k + 1)
        } else {
            Some(c)
        }
    }
}

/// Whatever the automatic search settles on is nonzero and not bound.
pub proof fn ping_search_finds_free(t: ping_table, r: u16, k: int)
    ensures
        ping_search(t, r, k) matches Some(p) ==> p != 0 && !t.used(p),
    decreases 0x1_0000 - k,
{
    if k < 0x1_0000 {
        let c: u16 = if r == 0 { 1 } else { r };
        if t.used(c) {
            ping_search_finds_free(t, ((c + 1) % 0x1_0000) as u16, k + 1);
        }
    }
}

fn chain_has(t: &ping_table, n: u16) -> (r: bool)
    requires
        t.wf(),
    ensures
        r == t.used(n),
{
    let b: usize = (n % 256) as usize;
    let chain = &t.hash[b];
    let mut j: usize = 0;
    while j < chain.len()
        invariant
            b == n as int % 256,
            chain@ == t.hash@[b as int]@,
            j <= chain.len(),
            forall|i: int| 0 <= i < j ==> chain@[i].inet_num != n,
        decreases chain.len() - j,
    {
        if chain[j].inet_num == n {
            return true;
        }
        j = j + 1;
    }
    false
}

fn chain_conflicts(t: &ping_table, n: u16, sk: &ping_sock) -> (r: bool)
    requires
        t.wf(),
    ensures
        r == t.conflicts(n, *sk),
{
    let b: usize = (n % 256) as usize;
    let chain = &t.hash[b];
    let mut j: usize = 0;
    while j < chain.len()
        invariant
            b == n as int % 256,
            chain@ == t.hash@[b as int]@,
            j <= chain.len(),
            forall|i: int| 0 <= i < j ==> {
                let o = #[trigger] chain@[i];
                !(o.inet_num == n && o.id != sk.id && (!o.sk_reuse || !sk.sk_reuse))
            },
        decreases chain.len() - j,
    {
        let o = &chain[j];
        if o.inet_num == n && o.id != sk.id && (!o.sk_reuse || !sk.sk_reuse) {
            assert(t.hash@[n as int % 256][j as int] == *o);
            return true;
        }
        j = j + 1;
    }
    false
}

/// The identifier `ping_get_port` binds `sk` to, or `None` when it fails.
pub open spec fn ping_port_choice(t: ping_table, sk: ping_sock, ident: u16) -> Option<u16> {
    if ident == 0 {
        ping_search(t, ((t.rover + 1) % 0x1_0000) as u16, 0)
    } else if t.conflicts(ident, sk) {
        None
    } else {
        Some(ident)
    }
}

/// Bind `sk` to the echo identifier `ident`, or to a free one when `ident`
/// is 0 (searching onward from the last one handed out). Returns 1 when no
/// identifier can be had or another socket holds `ident` without sharing;
/// else 0, with `sk` bound and, if it was not yet, put at the head of its
/// chain.
pub fn ping_get_port(t: &mut ping_table, sk: &mut ping_sock, ident: u16) -> (ret: i32)
    requires
        old(t).wf(),
    ensures
        final(t).wf(),
        match ping_port_choice(*old(t), *old(sk), ident) {
            None => ret == 1 && final(t).hash@ == old(t).hash@ && final(t).rover == old(t).rover
                && *final(sk) == *old(sk),
            Some(p) => {
                let s = ping_sock { inet_num: p, hashed: true, ..*old(sk) };
                &&& ret == 0
                &&& *final(sk) == s
                &&& final(t).rover == (if ident == 0 { p } else { old(t).rover })
                &&& final(t).hash.len() == old(t).hash.len()
                &&& forall|b: int| 0 <= b < PING_HTABLE_SIZE ==> (#[trigger] final(t).hash@[b])@
                    == (if !old(sk).hashed && b == p as int % 256 { seq![s] + old(t).hash@[b]@ } else { old(t).hash@[b]@ })
            },
        },
{
    let mut chosen: u16 = ident;
    if ident == 0 {
        let mut result: u16 = t.rover.wrapping_add(1);
        let mut i: u32 = 0;
        let mut found = false;
        while i < 0x1_0000
            invariant_except_break
                !found,
            invariant
                t.wf(),
                i <= 0x1_0000,
                ping_search(*t, result, i as int) == ping_search(*t, ((t.rover + 1) % 0x1_0000) as u16, 0),
            ensures
                found ==> ping_search(*t, ((t.rover + 1) % 0x1_0000) as u16, 0) == Some(chosen),
                !found ==> ping_search(*t, ((t.rover + 1) % 0x1_0000) as u16, 0) is None,
            decreases 0x1_0000 - i,
        {
            if result == 0 {
                result = 1;
            }
            if !chain_has(t, result) {
                chosen = result;
                found = true;
                break;
            }
            result = result.wrapping_add(1);
            i = i + 1;
        }
        if !found {
            return 1;
        }
        t.rover = chosen;
    } else {
        if chain_conflicts(t, ident, sk) {
            return 1;
        }
    }
    sk.inet_num = chosen;
    if !sk.hashed {
        sk.hashed = true;
        let b: usize = (chosen % 256) as usize;
        let mut chain: Vec<ping_sock> = Vec::new();
        chain.push(*sk);
        let old_chain = t.hash[b].clone();
        let mut k: usize = 0;
        while k < old_chain.len()
            invariant
                k <= old_chain.len(),
                chain@ == seq![*sk] + old_chain@.subrange(0, k as int),
            decreases old_chain.len() - k,
        {
            chain.push(old_chain[k]);
            k = k + 1;
        }
        proof {
            assert(old_chain@.subrange(0, old_chain@.len() as int) == old_chain@);
        }
        let ghost before = t.hash@;
        t.hash.set(b, chain);
        proof {
            assert forall|bb: int, j: int| 0 <= bb < PING_HTABLE_SIZE && 0 <= j < t.hash@[bb].len()
                implies (#[trigger] t.hash@[bb][j]).inet_num as int % 256 == bb by {
                if bb == b as int {
                    if j > 0 {
                        assert(t.hash@[bb][j] == before[bb][j - 1]);
                    }
                }
            }
        }
    } else {
        sk.hashed = true;
    }
    0
}

/// The chain `s` without the sockets whose identity is `id`.
pub open spec fn without_id(s: Seq<ping_sock>, id: u64) -> Seq<ping_sock>
    decreases s.len(),
{
    if s.len() == 0 {
        s
    } else {
        let r = without_id(s.drop_last(), id);
        if s.last().id != id { r.push(s.last()) } else { r }
    }
}

proof fn lemma_without_id_from(s: Seq<ping_sock>, id: u64)
    ensures
        forall|j: int| 0 <= j < without_id(s, id).len() ==> exists|i: int| 0 <= i < s.len() && #[trigger] without_id(s, id)[j] == s[i],
    decreases s.len(),
{
    if s.len() > 0 {
        let t = s.drop_last();
        lemma_without_id_from(t, id);
        let r = without_id(s, id);
        assert forall|j: int| 0 <= j < r.len() implies exists|i: int| 0 <= i < s.len() && #[trigger] r[j] == s[i] by {
            if j < without_id(t, id).len() {
                let i = choose|i: int| 0 <= i < t.len() && without_id(t, id)[j] == t[i];
                assert(r[j] == s[i]);
            } else {
                assert(r[j] == s[s.len() - 1]);
            }
        }
    }
}

/// Take `sk` out of the table: its chain loses it and it is unbound.
pub fn ping_unhash(t: &mut ping_table, sk: &mut ping_sock)
    requires
        old(t).wf(),
    ensures
        final(t).wf(),
        final(t).rover == old(t).rover,
        !old(sk).hashed ==> final(t).hash@ == old(t).hash@ && *final(sk) == *old(sk),
        old(sk).hashed ==> {
            let b = old(sk).inet_num as int % 256;
            &&& *final(sk) == (ping_sock { hashed: false, inet_num: 0, inet_sport: 0, ..*old(sk) })
            &&& final(t).hash.len() == old(t).hash.len()
            &&& forall|bb: int| 0 <= bb < PING_HTABLE_SIZE ==> (#[trigger] final(t).hash@[bb])@
                == (if bb == b { without_id(old(t).hash@[bb]@, old(sk).id) } else { old(t).hash@[bb]@ })
        },
{
    if !sk.hashed {
        return;
    }
    let b: usize = (sk.inet_num % 256) as usize;
    let old_chain = t.hash[b].clone();
    let mut chain: Vec<ping_sock> = Vec::new();
    let mut k: usize = 0;
    while k < old_chain.len()
        invariant
            k <= old_chain.len(),
            chain@ == without_id(old_chain@.subrange(0, k as int), sk.id),
        decreases old_chain.len() - k,
    {
        let o = old_chain[k];
        proof {
            let s = old_chain@.subrange(0, k as int + 1);
            assert(s.drop_last() == old_chain@.subrange(0, k as int));
        }
        if o.id != sk.id {
            chain.push(o);
        }
        k = k + 1;
    }
    proof {
        assert(old_chain@.subrange(0, old_chain@.len() as int) == old_chain@);
    }
    let ghost before = t.hash@;
    let ghost sid = sk.id;
    t.hash.set(b, chain);
    proof {
        assert forall|bb: int, j: int| 0 <= bb < PING_HTABLE_SIZE && 0 <= j < t.hash@[bb].len()
            implies (#[trigger] t.hash@[bb][j]).inet_num as int % 256 == bb by {
            if bb == b as int {
                lemma_without_id_from(before[bb]@, sid);
                let i = choose|i: int| 0 <= i < before[bb]@.len() && without_id(before[bb]@, sid)[j] == before[bb]@[i];
                assert(before[bb]@[i].inet_num as int % 256 == bb);
            }
        }
    }
    sk.hashed = false;
    sk.inet_num = 0;
    sk.inet_sport = 0;
}

/// Group range allowed to open ping sockets.
pub struct ping_group_range {
    pub range: [u32; 2],
}

/// The group range `[low, high]`.
pub fn inet_get_ping_group_range_net(r: &ping_group_range) -> (lh: (u32, u32))
    ensures
        lh == (r.range@[0], r.range@[1]),
{
    (r.range[0], r.range[1])
}

/// A caller may open a ping socket when its effective group or one of its
/// supplementary groups lies in the allowed range. Refusal returns the
/// negated `EACCES`. An IPv6 socket becomes IPv6-only.
pub fn ping_init_sock(sk: &mut ping_sock, range: &ping_group_range, egid: u32, groups: &Vec<u32>) -> (ret: i32)
    ensures
        ({
            let low = range.range@[0];
            let high = range.range@[1];
            let ok = (low <= egid && egid <= high)
                || exists|i: int| 0 <= i < groups.len() && low <= #[trigger] groups@[i] && groups@[i] <= high;
            ret == (if ok { 0 } else { -EACCES })
        }),
        *final(sk) == (ping_sock { sk_ipv6only: if old(sk).sk_family == AF_INET6 { true } else { old(sk).sk_ipv6only }, ..*old(sk) }),
{
    if sk.sk_family == AF_INET6 {
        sk.sk_ipv6only = true;
    }
    let (low, high) = inet_get_ping_group_range_net(range);
    if low <= egid && egid <= high {
        return 0;
    }
    let mut i: usize = 0;
    while i < groups.len()
        invariant
            i <= groups.len(),
            low == range.range@[0],
            high == range.range@[1],
            *sk == (ping_sock { sk_ipv6only: if old(sk).sk_family == AF_INET6 { true } else { old(sk).sk_ipv6only }, ..*old(sk) }),
            forall|k: int| 0 <= k < i ==> !(low <= #[trigger] groups@[k] && groups@[k] <= high),
        decreases groups.len() - i,
    {
        let g = groups[i];
        if low <= g && g <= high {
            return 0;
        }
        i = i + 1;
    }
    -EACCES
}

} // verus!
