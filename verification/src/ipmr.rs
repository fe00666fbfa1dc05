//! IPv4 multicast routing tables: creating a namespace's table by id,
//! freeing it, walking the list, and matching cache entries.
use vstd::prelude::*;

verus! {

pub const EINVAL: i32 = -22;
pub const ENOMEM: i32 = -12;
pub const ENOSYS: i32 = -38;

pub const RT_TABLE_DEFAULT: u32 = 253;
/// Table ids from here on are refused (but for the default table).
pub const MRT_TABLE_ID_LIMIT: u32 = 1000000000;

/// A multicast routing table.
pub struct mr_table {
    pub id: u32,
    pub refcnt: u32,
}

/// The multicast routing state of a namespace: its tables, in list order.
pub struct mr_net {
    pub tables: Vec<mr_table>,
}

/// The key a multicast forwarding cache entry is hashed by.
pub struct mfc_cache_cmp_arg {
    pub mfc_mcastgrp: u32,
    pub mfc_origin: u32,
}

/// A multicast forwarding cache entry, by its key.
pub struct mfc_cache {
    pub mfc_mcastgrp: u32,
    pub mfc_origin: u32,
}

/// The id may name a table.
pub open spec fn valid_id(id: u32) -> bool {
    id == RT_TABLE_DEFAULT || id < MRT_TABLE_ID_LIMIT
}

/// The position of the first table with this id, if any.
pub open spec fn first_with_id(s: Seq<mr_table>, id: u32, i: int) -> bool {
    0 <= i < s.len() && s[i].id == id && forall|j: int| 0 <= j < i ==> (#[trigger] s[j]).id != id
}

pub open spec fn has_id(s: Seq<mr_table>, id: u32) -> bool {
    exists|j: int| 0 <= j < s.len() && (#[trigger] s[j]).id == id
}

/// The namespace's table with this id.
pub fn ipmr_get_table(net: &mr_net, id: u32) -> (r: Option<usize>)
    ensures
        match r {
            Some(i) => first_with_id(net.tables@, id, i as int),
            None => !has_id(net.tables@, id),
        },
{
    let mut i: usize = 0;
    while i < net.tables.len()
        invariant
            i <= net.tables.len(),
            forall|j: int| 0 <= j < i ==> (#[trigger] net.tables@[j]).id != id,
        decreases net.tables.len() - i,
    {
        if net.tables[i].id == id {
            return Some(i);
        }
        i = i + 1;
    }
    None
}

/// The table with this id, created (with one reference, at the end of the
/// list) when the namespace has none; none for an id out of range.
pub fn ipmr_new_table(net: &mut mr_net, id: u32) -> (r: Option<usize>)
    ensures
        !valid_id(id) ==> r is None && final(net).tables@ == old(net).tables@,
        valid_id(id) && has_id(old(net).tables@, id) ==> (r matches Some(i) && first_with_id(old(net).tables@, id, i as int)
            && final(net).tables@ == old(net).tables@),
        valid_id(id) && !has_id(old(net).tables@, id) ==> r == Some(old(net).tables@.len() as usize)
            && final(net).tables@ == old(net).tables@.push(mr_table { id, refcnt: 1 }),
{
    if id != RT_TABLE_DEFAULT && id >= MRT_TABLE_ID_LIMIT {
        return None;
    }
    match ipmr_get_table(net, id) {
        Some(i) => Some(i),
        None => {
            let i = net.tables.len();
            net.tables.push(mr_table { id, refcnt: 1 });
            Some(i)
        },
    }
}

/// Unlink and free the table at `mrt`; nothing for none.
pub fn ipmr_free_table(net: &mut mr_net, mrt: Option<usize>)
    requires
        mrt matches Some(i) ==> i < old(net).tables@.len(),
    ensures
        final(net).tables@ == match mrt {
            Some(i) => old(net).tables@.remove(i as int),
            None => old(net).tables@,
        },
{
    match mrt {
        Some(i) => {
            net.tables.remove(i);
        },
        None => {},
    }
}

/// The table after `mrt` in the namespace's list (the first for none).
pub fn ipmr_mr_table_iter(net: &mr_net, mrt: Option<usize>) -> (r: Option<usize>)
    ensures
        r == match mrt {
            None => if net.tables@.len() > 0 { Some(0usize) } else { None },
            Some(i) => if i + 1 < net.tables@.len() { Some((i + 1) as usize) } else { None },
        },
{
    match mrt {
        None => {
            if net.tables.len() > 0 {
                Some(0)
            } else {
                None
            }
        },
        Some(i) => {
            if i < net.tables.len() && i + 1 < net.tables.len() {
                Some(i + 1)
            } else {
                None
            }
        },
    }
}

/// 0 when the entry has the key's group and origin, 1 otherwise.
pub fn ipmr_hash_cmp(arg: &mfc_cache_cmp_arg, c: &mfc_cache) -> (r: i32)
    ensures
        r == (if arg.mfc_mcastgrp == c.mfc_mcastgrp && arg.mfc_origin == c.mfc_origin { 0i32 } else { 1i32 }),
{
    if arg.mfc_mcastgrp != c.mfc_mcastgrp || arg.mfc_origin != c.mfc_origin {
        return 1;
    }
    0
}

} // verus!
