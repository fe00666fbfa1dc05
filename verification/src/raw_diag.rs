//! Socket diagnostics for raw sockets: finding the socket a request names,
//! answering for one socket, and dumping the raw sockets a request selects.
use vstd::prelude::*;
use crate::raw::{
    __raw_v4_lookup, first_match, lemma_first_match_bounds, raw_hashinfo, raw_match, raw_net, raw_sock, RAW_HTABLE_SIZE,
};

verus! {

pub const EINVAL: i32 = -22;
pub const ENOMEM: i32 = -12;
pub const ENOENT: i32 = -2;
pub const ECONNABORTED: i32 = -108;
pub const AF_INET: i32 = 2;
pub const IPPROTO_RAW: i32 = 255;

/// A diagnostics request about raw sockets: the family, the protocol
/// number, the ports to select on (0 for any), the addresses and the
/// interface of the socket asked for.
pub struct inet_diag_req_raw {
    pub sdiag_family: i32,
    pub sdiag_raw_protocol: u16,
    pub idiag_sport: u16,
    pub idiag_dport: u16,
    pub idiag_src: u32,
    pub idiag_dst: u32,
    pub idiag_if: i32,
}

/// The queue sizes of a socket as reported.
pub struct raw_diag_info {
    pub idiag_rqueue: u32,
    pub idiag_wqueue: u32,
}

/// The table of a request's family: only IPv4 has one here; others get
/// `EINVAL`.
pub fn raw_get_hashinfo<'a>(v4: &'a raw_hashinfo, r: &inet_diag_req_raw) -> (h: Result<&'a raw_hashinfo, i32>)
    ensures
        r.sdiag_family == AF_INET ==> h == Ok::<&raw_hashinfo, i32>(v4),
        r.sdiag_family != AF_INET ==> h == Err::<&raw_hashinfo, i32>(EINVAL),
{
    if r.sdiag_family == AF_INET {
        Ok(v4)
    } else {
        Err(EINVAL)
    }
}

/// Whether socket `sk` is the one that request `r` names: the request's
/// destination is the socket's peer and its source the socket's local
/// address, as a packet to the socket would see them.
pub open spec fn names(sk: raw_sock, net: raw_net, r: inet_diag_req_raw) -> bool {
    raw_match(sk, net, r.sdiag_raw_protocol, r.idiag_dst, r.idiag_src, r.idiag_if, 0)
}

/// The first socket from position `from` of `chain` on that request `r`
/// names (IPv4 only).
pub fn raw_lookup(net: &raw_net, chain: &Vec<raw_sock>, from: usize, req: &inet_diag_req_raw) -> (r: Option<usize>)
    requires
        req.sdiag_family == AF_INET,
    ensures
        r == (match first_match(chain@, from as int, *net, req.sdiag_raw_protocol, req.idiag_dst, req.idiag_src, req.idiag_if, 0) {
            Some(j) => Some(j as usize),
            None => None::<usize>,
        }),
{
    __raw_v4_lookup(net, chain, from, req.sdiag_raw_protocol, req.idiag_dst, req.idiag_src, req.idiag_if, 0)
}

/// Whether some socket in chains `0..slot` is named by `r`.
pub open spec fn named_before(h: raw_hashinfo, net: raw_net, r: inet_diag_req_raw, slot: int) -> bool {
    exists|b: int, j: int| 0 <= b < slot && 0 <= j < h.chain(b).len() && names(#[trigger] h.chain(b)[j], net, r)
}

/// The socket a request names: the first one, chain by chain, that the
/// request names; `ENOENT` when there is none, `EINVAL` for a family
/// without a table.
pub fn raw_sock_get(v4: &raw_hashinfo, net: &raw_net, r: &inet_diag_req_raw) -> (res: Result<(usize, usize), i32>)
    requires
        v4.wf(),
    ensures
        r.sdiag_family != AF_INET ==> res == Err::<(usize, usize), i32>(EINVAL),
        r.sdiag_family == AF_INET ==> match res {
            Ok((b, j)) => b < RAW_HTABLE_SIZE && j < v4.chain(b as int).len() && names(v4.chain(b as int)[j as int], *net, *r)
                && !named_before(*v4, *net, *r, b as int)
                && forall|k: int| 0 <= k < j ==> !names(#[trigger] v4.chain(b as int)[k], *net, *r),
            Err(e) => e == ENOENT && !named_before(*v4, *net, *r, RAW_HTABLE_SIZE as int),
        },
{
    let h = match raw_get_hashinfo(v4, r) {
        Ok(h) => h,
        Err(e) => {
            return Err(e);
        },
    };
    let mut slot: usize = 0;
    while slot < RAW_HTABLE_SIZE
        invariant
            h == v4,
            v4.wf(),
            r.sdiag_family == AF_INET,
            slot <= RAW_HTABLE_SIZE,
            !named_before(*v4, *net, *r, slot as int),
        decreases RAW_HTABLE_SIZE - slot,
    {
        let n = h.ht[slot].len();
        let found = raw_lookup(net, &h.ht[slot], 0, r);
        proof {
            lemma_first_match_bounds(v4.chain(slot as int), 0, *net, r.sdiag_raw_protocol, r.idiag_dst, r.idiag_src, r.idiag_if, 0);
        }
        match found {
            Some(j) => {
                proof {
                    let fm = first_match(v4.chain(slot as int), 0, *net, r.sdiag_raw_protocol, r.idiag_dst, r.idiag_src, r.idiag_if, 0);
                    assert(h.ht@[slot as int]@ == v4.chain(slot as int));
                    assert(fm is Some);
                    assert(0 <= fm->0 < v4.chain(slot as int).len());
                    assert(fm->0 < n);
                    assert(j as int == fm->0);
                }
                return Ok((slot, j));
            },
            None => {},
        }
        proof {
            assert forall|b: int, j: int| 0 <= b < slot + 1 && 0 <= j < v4.chain(b).len()
                implies !names(#[trigger] v4.chain(b)[j], *net, *r) by {
                if b < slot {
                    assert(!named_before(*v4, *net, *r, slot as int));
                }
            }
        }
        slot = slot + 1;
    }
    Err(ENOENT)
}

/// The answer to a request about one socket: the lookup's error when the
/// request names no socket; else `ENOMEM` when no reply could be allocated
/// (`alloc_ok`), the fill's error when filling the reply failed (`fill_err`
/// below 0), and otherwise 0 when sending reported a positive value
/// (`unicast_ret`) or what sending reported.
pub fn raw_diag_dump_one(v4: &raw_hashinfo, net: &raw_net, r: &inet_diag_req_raw, alloc_ok: bool, fill_err: i32, unicast_ret: i32) -> (ret: i32)
    requires
        v4.wf(),
    ensures
        ret == (if r.sdiag_family != AF_INET {
            EINVAL
        } else if !named_before(*v4, *net, *r, RAW_HTABLE_SIZE as int) {
            ENOENT
        } else if !alloc_ok {
            ENOMEM
        } else if fill_err < 0 {
            fill_err
        } else if unicast_ret > 0 {
            0
        } else {
            unicast_ret
        }),
{
    let sk = raw_sock_get(v4, net, r);
    match sk {
        Err(e) => {
            return e;
        },
        Ok(_) => {},
    }
    if !alloc_ok {
        return ENOMEM;
    }
    if fill_err < 0 {
        return fill_err;
    }
    if unicast_ret > 0 {
        0
    } else {
        unicast_ret
    }
}

/// Whether a dump for request `r` in namespace `net` reports socket `sk`:
/// same namespace and family, and the request's ports, where set, are the
/// socket's.
pub open spec fn selected(sk: raw_sock, net: raw_net, r: inet_diag_req_raw) -> bool {
    &&& sk.net == net.id
    &&& sk.family == r.sdiag_family
    &&& !(r.idiag_sport != sk.inet_sport && r.idiag_sport != 0)
    &&& !(r.idiag_dport != sk.inet_dport && r.idiag_dport != 0)
}

/// The positions of the selected sockets among the first `n` of chain `b`.
pub open spec fn selected_in_chain(h: raw_hashinfo, net: raw_net, r: inet_diag_req_raw, b: int, n: int) -> Seq<(usize, usize)>
    decreases n,
{
    if n <= 0 {
        Seq::empty()
    } else {
        let rest = selected_in_chain(h, net, r, b, n - 1);
        if selected(h.chain(b)[n - 1], net, r) { rest.push((b as usize, (n - 1) as usize)) } else { rest }
    }
}

/// The positions of the selected sockets in chains `lo..hi`, chain by chain.
pub open spec fn selected_in(h: raw_hashinfo, net: raw_net, r: inet_diag_req_raw, lo: int, hi: int) -> Seq<(usize, usize)>
    decreases hi - lo,
{
    if hi <= lo {
        Seq::empty()
    } else {
        selected_in(h, net, r, lo, hi - 1) + selected_in_chain(h, net, r, hi - 1, h.chain(hi - 1).len() as int)
    }
}

proof fn lemma_selected_in_split(h: raw_hashinfo, net: raw_net, r: inet_diag_req_raw, lo: int, mid: int, hi: int)
    requires
        lo <= mid <= hi,
    ensures
        selected_in(h, net, r, lo, hi) == selected_in(h, net, r, lo, mid) + selected_in(h, net, r, mid, hi),
    decreases hi - mid,
{
    if hi > mid {
        lemma_selected_in_split(h, net, r, lo, mid, hi - 1);
        assert(selected_in(h, net, r, lo, hi) =~= selected_in(h, net, r, lo, mid) + selected_in(h, net, r, mid, hi));
    } else {
        assert(selected_in(h, net, r, mid, hi) =~= Seq::<(usize, usize)>::empty());
        assert(selected_in(h, net, r, lo, hi) =~= selected_in(h, net, r, lo, mid) + selected_in(h, net, r, mid, hi));
    }
}

proof fn lemma_chain_prefix(h: raw_hashinfo, net: raw_net, r: inet_diag_req_raw, b: int, m: int, n: int)
    requires
        0 <= m <= n,
    ensures
        selected_in_chain(h, net, r, b, m).is_prefix_of(selected_in_chain(h, net, r, b, n)),
    decreases n - m,
{
    if n > m {
        lemma_chain_prefix(h, net, r, b, m, n - 1);
    }
}

/// The resume point of a dump: the chain to start from and a count of the
/// sockets dumped before.
pub struct netlink_callback {
    pub args: [i32; 2],
}

/// Dump the raw sockets that request `r` selects in namespace `net`, chain
/// by chain from the chain saved in `cb`. The reply takes up to `room`
/// entries; when a selected socket no longer fits, the dump stops there and
/// `cb` is left as it was. A dump that gets through every chain saves the
/// table size as the chain to resume from. A family without a table dumps
/// nothing. Returns the positions of the sockets reported.
pub fn raw_diag_dump(v4: &raw_hashinfo, net: &raw_net, cb: &mut netlink_callback, r: &inet_diag_req_raw, room: usize) -> (out: Vec<(usize, usize)>)
    requires
        v4.wf(),
        0 <= old(cb).args[0],
    ensures
        r.sdiag_family != AF_INET ==> out@.len() == 0 && *final(cb) == *old(cb),
        r.sdiag_family == AF_INET ==> {
            let all = selected_in(*v4, *net, *r, old(cb).args[0] as int, RAW_HTABLE_SIZE as int);
            if all.len() <= room {
                &&& out@ == all
                &&& final(cb).args[0] == (if old(cb).args[0] < RAW_HTABLE_SIZE { RAW_HTABLE_SIZE as i32 } else { old(cb).args[0] })
                &&& final(cb).args[1] == old(cb).args[1]
            } else {
                &&& out@ == all.take(room as int)
                &&& *final(cb) == *old(cb)
            }
        },
{
    let h = match raw_get_hashinfo(v4, r) {
        Ok(h) => h,
        Err(_) => {
            return Vec::new();
        },
    };
    let lo: usize = cb.args[0] as usize;
    let mut slot: usize = lo;
    let num = cb.args[1];
    let mut out: Vec<(usize, usize)> = Vec::new();
    if slot >= RAW_HTABLE_SIZE {
        proof {
            assert(selected_in(*v4, *net, *r, lo as int, RAW_HTABLE_SIZE as int) =~= Seq::<(usize, usize)>::empty());
        }
        cb.args[0] = slot as i32;
        cb.args[1] = num;
        return out;
    }
    while slot < RAW_HTABLE_SIZE
        invariant
            h == v4,
            v4.wf(),
            r.sdiag_family == AF_INET,
            lo <= slot <= RAW_HTABLE_SIZE,
            lo < RAW_HTABLE_SIZE,
            lo == old(cb).args[0],
            *cb == *old(cb),
            num == old(cb).args[1],
            out@ == selected_in(*v4, *net, *r, lo as int, slot as int),
            out@.len() <= room,
        decreases RAW_HTABLE_SIZE - slot,
    {
        let chain = &h.ht[slot];
        let mut i: usize = 0;
        while i < chain.len()
            invariant
                h == v4,
                v4.wf(),
                chain@ == v4.chain(slot as int),
                lo <= slot < RAW_HTABLE_SIZE,
                r.sdiag_family == AF_INET,
                i <= chain.len(),
                out@ == selected_in(*v4, *net, *r, lo as int, slot as int) + selected_in_chain(*v4, *net, *r, slot as int, i as int),
                out@.len() <= room,
                *cb == *old(cb),
                lo == old(cb).args[0],
            decreases chain.len() - i,
        {
            let s = &chain[i];
            let keep = s.net == net.id && s.family == r.sdiag_family
                && !(r.idiag_sport != s.inet_sport && r.idiag_sport != 0)
                && !(r.idiag_dport != s.inet_dport && r.idiag_dport != 0);
            if keep {
                if out.len() >= room {
                    proof {
                        let all = selected_in(*v4, *net, *r, lo as int, RAW_HTABLE_SIZE as int);
                        let before = selected_in(*v4, *net, *r, lo as int, slot as int);
                        let part = selected_in_chain(*v4, *net, *r, slot as int, i as int + 1);
                        let whole = selected_in_chain(*v4, *net, *r, slot as int, v4.chain(slot as int).len() as int);
                        lemma_chain_prefix(*v4, *net, *r, slot as int, i as int + 1, v4.chain(slot as int).len() as int);
                        lemma_selected_in_split(*v4, *net, *r, lo as int, slot as int + 1, RAW_HTABLE_SIZE as int);
                        assert(selected_in(*v4, *net, *r, lo as int, slot as int + 1) == before + whole);
                        assert(part == selected_in_chain(*v4, *net, *r, slot as int, i as int).push((slot, i)));
                        assert forall|k: int| 0 <= k < out@.len() + 1 implies #[trigger] all[k] == (before + part)[k] by {
                            assert((before + part)[k] == (before + whole)[k]);
                            assert(all[k] == (before + whole)[k]);
                        }
                        assert(out@ =~= all.take(room as int));
                        assert(whole.len() >= part.len());
                        assert(all.len() > room);
                    }
                    return out;
                }
                out.push((slot, i));
            }
            i = i + 1;
        }
        proof {
            assert(out@ =~= selected_in(*v4, *net, *r, lo as int, slot as int + 1));
        }
        slot = slot + 1;
    }
    cb.args[0] = slot as i32;
    cb.args[1] = num;
    out
}

/// What a diagnostics request learns of a socket's queues.
pub fn raw_diag_get_info(sk: &raw_sock, r: &mut raw_diag_info)
    ensures
        final(r).idiag_rqueue == sk.rmem,
        final(r).idiag_wqueue == sk.wmem,
{
    r.idiag_rqueue = sk.rmem;
    r.idiag_wqueue = sk.wmem;
}

/// Destroy the socket a request names: the lookup's error when it names
/// none, else the result of the destruction, which reports success.
pub fn raw_diag_destroy(v4: &raw_hashinfo, net: &raw_net, r: &inet_diag_req_raw) -> (ret: i32)
    requires
        v4.wf(),
    ensures
        ret == (if r.sdiag_family != AF_INET {
            EINVAL
        } else if !named_before(*v4, *net, *r, RAW_HTABLE_SIZE as int) {
            ENOENT
        } else {
            0
        }),
{
    match raw_sock_get(v4, net, r) {
        Err(e) => e,
        Ok(_) => 0,
    }
}

} // verus!
