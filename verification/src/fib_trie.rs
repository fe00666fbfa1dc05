//! The IPv4 FIB trie: the child index a key selects in a node, node
//! parent links, how a node is freed, and the notifications sent when an
//! entry changes.
use vstd::prelude::*;
use crate::fib_notifier::{call_fib4_notifier, call_fib4_notifiers, FibNotifierInfo, Net, NotifierBlock, AF_INET};

verus! {

pub const MAX_STAT_DEPTH: usize = 32;
pub const KEYLENGTH: u8 = 32;
pub const KEY_MAX: u32 = 0xffff_ffff;
pub const HALVE_THRESHOLD: i32 = 25;
pub const INFLATE_THRESHOLD: i32 = 50;
pub const HALVE_THRESHOLD_ROOT: i32 = 15;
pub const INFLATE_THRESHOLD_ROOT: i32 = 30;

pub const EINVAL: i32 = -22;
pub const ENOMEM: i32 = -12;
pub const ENOSYS: i32 = -38;

/// A trie node's key part: the key, the position of the bits it selects
/// on, how many (0 for a leaf), the longest suffix below it, and its
/// children (by position; a leaf has none).
pub struct key_vector {
    pub key: u32,
    pub pos: u8,
    pub bits: u8,
    pub slen: u8,
    pub tnode: Vec<Option<usize>>,
}

/// A trie node with its bookkeeping and its parent (by position).
pub struct tnode {
    pub empty_children: u32,
    pub full_children: u32,
    pub parent: Option<usize>,
    pub kv: key_vector,
}

/// A route entry's alias: its information, TOS, type and table.
pub struct fib_alias {
    pub fa_info: u64,
    pub fa_tos: u8,
    pub fa_type: u8,
    pub tb_id: u32,
}

/// What an entry notification carries.
pub struct fib_entry_notifier_info {
    pub info: FibNotifierInfo,
    pub dst: u32,
    pub dst_len: i32,
    pub fi: u64,
    pub tos: u8,
    pub type_: u8,
    pub tb_id: u32,
}

/// The notification describing an alias at `dst`/`dst_len`.
pub open spec fn entry_info(dst: u32, dst_len: i32, fa: fib_alias) -> fib_entry_notifier_info {
    fib_entry_notifier_info {
        info: FibNotifierInfo { family: AF_INET },
        dst,
        dst_len,
        fi: fa.fa_info,
        tos: fa.fa_tos,
        type_: fa.fa_type,
        tb_id: fa.tb_id,
    }
}

fn fill_info(dst: u32, dst_len: i32, fa: &fib_alias) -> (r: fib_entry_notifier_info)
    ensures
        r == (fib_entry_notifier_info { info: FibNotifierInfo { family: r.info.family }, ..entry_info(dst, dst_len, *fa) }),
{
    fib_entry_notifier_info {
        info: FibNotifierInfo { family: 0 },
        dst,
        dst_len,
        fi: fa.fa_info,
        tos: fa.fa_tos,
        type_: fa.fa_type,
        tb_id: fa.tb_id,
    }
}

/// Tell one notifier (which answers `notifier_ret`) about the alias at
/// `dst`/`dst_len`; EINVAL without a notifier or an alias. The
/// notification sent is returned with the answer.
pub fn call_fib_entry_notifier(nb: Option<&NotifierBlock>, event_type: i32, dst: u32, dst_len: i32, fa: Option<&fib_alias>, notifier_ret: i32) -> (r: (i32, Option<fib_entry_notifier_info>))
    ensures
        (nb is None || fa is None) ==> r == (EINVAL, None::<fib_entry_notifier_info>),
        fa matches Some(a) ==> nb is Some ==> r == (notifier_ret, Some(entry_info(dst, dst_len, *a))),
{
    if nb.is_none() {
        return (EINVAL, None);
    }
    let a = match fa {
        None => {
            return (EINVAL, None);
        },
        Some(a) => a,
    };
    let mut info = fill_info(dst, dst_len, a);
    let ret = call_fib4_notifier(&mut info.info, notifier_ret);
    (ret, Some(info))
}

/// Tell all of a namespace's notifiers (which answer `notifiers_ret`)
/// about the alias; the namespace's change counter moves on. EINVAL
/// without a namespace or an alias.
pub fn call_fib_entry_notifiers(net: &mut Option<Net>, event_type: i32, dst: u32, dst_len: i32, fa: Option<&fib_alias>, notifiers_ret: i32) -> (r: (i32, Option<fib_entry_notifier_info>))
    requires
        *old(net) matches Some(n) ==> n.fib_seq < u32::MAX,
    ensures
        (*old(net) is None || fa is None) ==> r == (EINVAL, None::<fib_entry_notifier_info>) && *final(net) == *old(net),
        fa matches Some(a) ==> *old(net) matches Some(n) ==> {
            &&& r == (notifiers_ret, Some(entry_info(dst, dst_len, *a)))
            &&& *final(net) matches Some(m) && m.fib_seq == n.fib_seq + 1 && m.notifier_ops == n.notifier_ops
        },
{
    let a = match fa {
        None => {
            return (EINVAL, None);
        },
        Some(a) => a,
    };
    match net {
        None => (EINVAL, None),
        Some(n) => {
            let mut info = fill_info(dst, dst_len, a);
            let ret = call_fib4_notifiers(n, &mut info.info, notifiers_ret);
            (ret, Some(info))
        },
    }
}

/// The child index `key` selects in the node: the bits of the key past
/// the node's position (none when the position is the whole key).
pub open spec fn index_of(key: u32, kv: key_vector) -> u32 {
    if kv.pos == KEYLENGTH { 0 } else { (key ^ kv.key) >> (kv.pos as u32) }
}

pub fn get_index(key: u32, kv: &key_vector) -> (r: u32)
    requires
        kv.pos <= KEYLENGTH,
    ensures
        r == index_of(key, *kv),
{
    let index = key ^ kv.key;
    if kv.pos == KEYLENGTH {
        0
    } else {
        index >> (kv.pos as u32)
    }
}

/// The parent of a node.
pub fn node_parent(tn: &tnode) -> (r: Option<usize>)
    ensures
        r == tn.parent,
{
    tn.parent
}

/// The child `i` of a node.
pub fn get_child_rcu(tn: &key_vector, i: usize) -> (r: Option<usize>)
    requires
        i < tn.tnode@.len(),
    ensures
        r == tn.tnode@[i as int],
{
    tn.tnode[i]
}

/// Make `tp` the parent of the node, when there is one.
pub fn node_set_parent(n: &mut Option<tnode>, tp: Option<usize>)
    ensures
        *old(n) matches Some(x) ==> *final(n) == Some(tnode { parent: tp, ..x }),
        *old(n) is None ==> *final(n) is None,
{
    match n {
        Some(x) => {
            x.parent = tp;
        },
        None => {},
    }
}

/// Set a new node's parent.
pub fn NODE_INIT_PARENT(n: &mut tnode, p: Option<usize>)
    ensures
        *final(n) == (tnode { parent: p, ..*old(n) }),
{
    n.parent = p;
}

/// Where a freed node's memory goes.
#[derive(Debug, PartialEq, Eq, Structural)]
pub enum node_free_target {
    /// The leaf cache.
    LeafCache,
    /// The general allocator (internal nodes are sized by their bits).
    Kvfree,
}

/// A leaf (no bits) goes back to the leaf cache, an internal node to the
/// general allocator.
pub fn __node_free_rcu(n: &tnode) -> (r: node_free_target)
    ensures
        r == (if n.kv.bits == 0 { node_free_target::LeafCache } else { node_free_target::Kvfree }),
{
    if n.kv.bits == 0 {
        node_free_target::LeafCache
    } else {
        node_free_target::Kvfree
    }
}

} // verus!
