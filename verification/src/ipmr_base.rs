//! Multicast routing shared logic: virtual interfaces, routing tables and
//! the lookup of forwarding cache entries.
use vstd::prelude::*;

verus! {

pub const EINVAL: i32 = -22;
pub const ENOMEM: i32 = -12;
pub const ENOSYS: i32 = -38;
/// Number of virtual interfaces a table can have.
pub const MAXVIFS: usize = 32;

/// A multicast virtual interface.
pub struct vif_device {
    pub dev: Option<u64>,
    pub bytes_in: u64,
    pub bytes_out: u64,
    pub pkt_in: u64,
    pub pkt_out: u64,
    pub rate_limit: u64,
    pub flags: u16,
    pub threshold: u8,
    pub link: i32,
}

/// Set up a virtual interface on device `ifindex` (the device itself is
/// attached later, under lock): counters cleared, limits and flags set, and
/// the link taken from the device's underlying interface (`iflink`) when one
/// of `get_iflink_mask`'s flags is set.
pub fn vif_device_init(v: &mut vif_device, ifindex: i32, iflink: i32, rate_limit: u64, threshold: u8, flags: u16, get_iflink_mask: u16)
    ensures
        *final(v) == (vif_device {
            dev: None,
            bytes_in: 0,
            bytes_out: 0,
            pkt_in: 0,
            pkt_out: 0,
            rate_limit,
            flags,
            threshold,
            link: if flags & get_iflink_mask != 0 { iflink } else { ifindex },
        }),
{
    v.dev = None;
    v.bytes_in = 0;
    v.bytes_out = 0;
    v.pkt_in = 0;
    v.pkt_out = 0;
    v.rate_limit = rate_limit;
    v.flags = flags;
    v.threshold = threshold;
    if v.flags & get_iflink_mask != 0 {
        v.link = iflink;
    } else {
        v.link = ifindex;
    }
}

/// Links of a list, as positions.
pub struct list_head {
    pub next: usize,
    pub prev: usize,
}

/// A hashed cache entry's links, as positions.
pub struct rhlist_head {
    pub next: Option<usize>,
}

/// The hash table of cache entries; its entries are kept in `mr_table::mfc`.
pub struct rhltable {
    pub nelems: usize,
}

/// A forwarding cache entry: its hash key, the parent (incoming) interface,
/// and the TTL threshold per outgoing interface (255: not forwarded).
pub struct mr_mfc {
    pub key: u64,
    pub mfc_parent: i32,
    pub mfc_flags: u16,
    pub ttls: Vec<u8>,
}

/// A multicast routing table: its id, the key that matches any source and
/// group, the register interface and the cache entries in hash-chain order.
pub struct mr_table {
    pub id: u32,
    pub any_key: u64,
    pub mroute_reg_vif_num: i32,
    pub maxvif: i32,
    pub mfc: Vec<mr_mfc>,
    pub mfc_unres_queue: Vec<u64>,
}

impl mr_table {
    /// Every entry has a threshold per interface and a parent interface
    /// within the table.
    pub open spec fn wf(&self) -> bool {
        forall|i: int| 0 <= i < self.mfc.len() ==> {
            &&& (#[trigger] self.mfc@[i]).ttls@.len() == MAXVIFS
            &&& 0 <= self.mfc@[i].mfc_parent < MAXVIFS
        }
    }
}

/// Allocate a table with id `id`: empty, without a register interface.
/// Fails with the negated `ENOMEM` without memory, or with the hash table's
/// set-up error `rht_err`.
pub fn mr_table_alloc(id: u32, any_key: u64, alloc_ok: bool, rht_err: i32) -> (r: Result<mr_table, i32>)
    ensures
        !alloc_ok ==> r == Err::<mr_table, i32>((-ENOMEM) as i32),
        alloc_ok && rht_err != 0 ==> r == Err::<mr_table, i32>(rht_err),
        alloc_ok && rht_err == 0 ==> (r matches Ok(t) && t.id == id && t.any_key == any_key
            && t.mroute_reg_vif_num == -1 && t.mfc@.len() == 0 && t.mfc_unres_queue@.len() == 0 && t.wf()),
{
    if !alloc_ok {
        return Err(-ENOMEM);
    }
    if rht_err != 0 {
        return Err(rht_err);
    }
    Ok(mr_table { id, any_key, mroute_reg_vif_num: -1, maxvif: 0, mfc: Vec::new(), mfc_unres_queue: Vec::new() })
}

/// The first entry from position `i` on that satisfies `p`.
pub open spec fn first_match(s: Seq<mr_mfc>, p: spec_fn(mr_mfc) -> bool, i: int) -> Option<int>
    decreases s.len() - i,
{
    if i >= s.len() {
        None
    } else if p(s[i]) {
        Some(i)
    } else {
        first_match(s, p, i + 1)
    }
}

/// A position as an index.
pub open spec fn as_index(o: Option<int>) -> Option<usize> {
    match o {
        Some(i) => Some(i as usize),
        None => None,
    }
}

/// The entry matching `key` with parent interface `parent` (any parent for
/// -1).
pub open spec fn parent_match(key: u64, parent: i32) -> spec_fn(mr_mfc) -> bool {
    |c: mr_mfc| c.key == key && (parent == -1 || parent == c.mfc_parent)
}

/// A wildcard entry that forwards to interface `vifi`.
pub open spec fn any_forwarding(any: u64, vifi: int) -> spec_fn(mr_mfc) -> bool {
    |c: mr_mfc| c.key == any && c.ttls@[vifi] < 255
}

proof fn lemma_first_match_found(s: Seq<mr_mfc>, p: spec_fn(mr_mfc) -> bool, i: int, k: int)
    requires
        0 <= i <= k < s.len(),
        p(s[k]),
        forall|j: int| i <= j < k ==> !p(#[trigger] s[j]),
    ensures
        first_match(s, p, i) == Some(k),
    decreases k - i,
{
    if i < k {
        lemma_first_match_found(s, p, i + 1, k);
    }
}

proof fn lemma_first_match_range(s: Seq<mr_mfc>, p: spec_fn(mr_mfc) -> bool, i: int)
    requires
        0 <= i,
    ensures
        first_match(s, p, i) matches Some(k) ==> i <= k < s.len() && p(s[k]),
    decreases s.len() - i,
{
    if i < s.len() && !p(s[i]) {
        lemma_first_match_range(s, p, i + 1);
    }
}

proof fn lemma_first_match_none(s: Seq<mr_mfc>, p: spec_fn(mr_mfc) -> bool, i: int)
    requires
        0 <= i <= s.len(),
        forall|j: int| i <= j < s.len() ==> !p(#[trigger] s[j]),
    ensures
        first_match(s, p, i) is None,
    decreases s.len() - i,
{
    if i < s.len() {
        lemma_first_match_none(s, p, i + 1);
    }
}

/// The cache entry for `key` whose parent interface is `parent` (any
/// parent for -1): the first in chain order.
pub fn mr_mfc_find_parent(mrt: &mr_table, key: u64, parent: i32) -> (r: Option<usize>)
    ensures
        r == as_index(first_match(mrt.mfc@, parent_match(key, parent), 0)),
        r matches Some(j) ==> j < mrt.mfc.len(),
{
    let ghost p = parent_match(key, parent);
    let mut i: usize = 0;
    while i < mrt.mfc.len()
        invariant
            i <= mrt.mfc.len(),
            p == parent_match(key, parent),
            forall|j: int| 0 <= j < i ==> !p(#[trigger] mrt.mfc@[j]),
        decreases mrt.mfc.len() - i,
    {
        let c = &mrt.mfc[i];
        if c.key == key && (parent == -1 || parent == c.mfc_parent) {
            proof { lemma_first_match_found(mrt.mfc@, p, 0, i as int); }
            return Some(i);
        }
        i = i + 1;
    }
    proof { lemma_first_match_none(mrt.mfc@, p, 0); }
    None
}

/// The wildcard entry that forwards to interface `vifi`, if any.
pub fn mr_mfc_find_any_parent(mrt: &mr_table, vifi: usize) -> (r: Option<usize>)
    requires
        mrt.wf(),
        vifi < MAXVIFS,
    ensures
        r == as_index(first_match(mrt.mfc@, any_forwarding(mrt.any_key, vifi as int), 0)),
        r matches Some(j) ==> j < mrt.mfc.len(),
{
    let ghost p = any_forwarding(mrt.any_key, vifi as int);
    let mut i: usize = 0;
    while i < mrt.mfc.len()
        invariant
            i <= mrt.mfc.len(),
            mrt.wf(),
            vifi < MAXVIFS,
            p == any_forwarding(mrt.any_key, vifi as int),
            forall|j: int| 0 <= j < i ==> !p(#[trigger] mrt.mfc@[j]),
        decreases mrt.mfc.len() - i,
    {
        let c = &mrt.mfc[i];
        assert(c.ttls@.len() == MAXVIFS);
        if c.key == mrt.any_key && c.ttls[vifi] < 255 {
            proof { lemma_first_match_found(mrt.mfc@, p, 0, i as int); }
            return Some(i);
        }
        i = i + 1;
    }
    proof { lemma_first_match_none(mrt.mfc@, p, 0); }
    None
}

/// An entry for `key` qualifies when it forwards to `vifi`, or when the
/// wildcard entry found for its parent interface does.
pub open spec fn any_match(mrt: mr_table, key: u64, vifi: int) -> spec_fn(mr_mfc) -> bool {
    |c: mr_mfc| c.key == key && (c.ttls@[vifi] < 255 || match first_match(mrt.mfc@, any_forwarding(mrt.any_key, c.mfc_parent as int), 0) {
        Some(j) => mrt.mfc@[j].ttls@[vifi] < 255,
        None => false,
    })
}

/// The entry for `key` to forward to interface `vifi`: the first one that
/// qualifies (see `any_match`), else the wildcard entry forwarding to
/// `vifi`.
pub fn mr_mfc_find_any(mrt: &mr_table, vifi: usize, key: u64) -> (r: Option<usize>)
    requires
        mrt.wf(),
        vifi < MAXVIFS,
    ensures
        r == (match first_match(mrt.mfc@, any_match(*mrt, key, vifi as int), 0) {
            Some(i) => Some(i as usize),
            None => as_index(first_match(mrt.mfc@, any_forwarding(mrt.any_key, vifi as int), 0)),
        }),
{
    let ghost p = any_match(*mrt, key, vifi as int);
    let mut i: usize = 0;
    while i < mrt.mfc.len()
        invariant
            i <= mrt.mfc.len(),
            mrt.wf(),
            vifi < MAXVIFS,
            p == any_match(*mrt, key, vifi as int),
            forall|j: int| 0 <= j < i ==> !p(#[trigger] mrt.mfc@[j]),
        decreases mrt.mfc.len() - i,
    {
        let c = &mrt.mfc[i];
        assert(c.ttls@.len() == MAXVIFS);
        if c.key == key {
            if c.ttls[vifi] < 255 {
                proof { lemma_first_match_found(mrt.mfc@, p, 0, i as int); }
                return Some(i);
            }
            let parent = c.mfc_parent as usize;
            proof {
                assert(mrt.mfc@[i as int] == *c);
                assert(parent as int == c.mfc_parent as int);
                lemma_first_match_range(mrt.mfc@, any_forwarding(mrt.any_key, c.mfc_parent as int), 0);
            }
            match mr_mfc_find_any_parent(mrt, parent) {
                Some(j) => {
                    assert(mrt.mfc@[j as int].ttls@.len() == MAXVIFS);
                    if mrt.mfc[j].ttls[vifi] < 255 {
                        proof { lemma_first_match_found(mrt.mfc@, p, 0, i as int); }
                        return Some(i);
                    }
                },
                None => {},
            }
        }
        i = i + 1;
    }
    proof { lemma_first_match_none(mrt.mfc@, p, 0); }
    mr_mfc_find_any_parent(mrt, vifi)
}

} // verus!
