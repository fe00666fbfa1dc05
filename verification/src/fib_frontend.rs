//! The routing tables of a namespace: finding a table by id, creating one
//! on first use (the local table sharing the main table's data while no
//! custom rules exist), and the type of an address.
use vstd::prelude::*;
pub use crate::ip_tunnel::hlist_add_head_rcu;

verus! {

pub const RT_TABLE_MAIN: u32 = 254;
pub const RT_TABLE_LOCAL: u32 = 253;
pub const RT_TABLE_DEFAULT: u32 = 252;
pub const FIB_TABLE_HASHSZ: usize = 256;
pub const TABLE_LOCAL_INDEX: usize = 253;
pub const TABLE_MAIN_INDEX: usize = 254;
pub const ENOMEM: i32 = -12;
pub const EINVAL: i32 = -22;
pub const RTN_UNICAST: i32 = 1;
pub const RTN_BROADCAST: i32 = 3;
pub const RTN_MULTICAST: i32 = 5;

/// A routing table: its id, and the table whose routes it shares, if any.
pub struct fib_table {
    pub tb_id: u32,
    pub alias_of: Option<u32>,
}

/// The IPv4 routing state of a namespace: the tables hashed by id (newest
/// first in each bucket), which of the main and default tables exist, and
/// whether custom routing rules are in use.
pub struct net_ipv4 {
    pub fib_table_hash: Vec<Vec<fib_table>>,
    pub fib_main: Option<u32>,
    pub fib_default: Option<u32>,
    pub fib_has_custom_rules: bool,
}

pub struct net {
    pub ipv4: net_ipv4,
}

impl net {
    /// One bucket per hash value, and the main and default tables
    /// remembered exactly when they exist.
    pub open spec fn wf(&self) -> bool {
        &&& self.ipv4.fib_table_hash.len() == FIB_TABLE_HASHSZ
        &&& mains_named(*self)
    }

    pub open spec fn bucket(&self, b: int) -> Seq<fib_table> {
        self.ipv4.fib_table_hash@[b]@
    }
}

/// The bucket of table `id`.
pub open spec fn bucket_of(id: u32) -> int {
    (id % 256) as int
}

/// The first position from `i` on in bucket list `l` of table `id`.
pub open spec fn first_with_id(l: Seq<fib_table>, id: u32, i: int) -> Option<int>
    decreases l.len() - i,
{
    if i < 0 || i >= l.len() {
        None
    } else if l[i].tb_id == id {
        Some(i)
    } else {
        first_with_id(l, id, i + 1)
    }
}

proof fn lemma_first_with_id(l: Seq<fib_table>, id: u32, i: int)
    requires
        0 <= i,
    ensures
        first_with_id(l, id, i) matches Some(j) ==> i <= j < l.len() && l[j].tb_id == id,
        first_with_id(l, id, i) is None ==> forall|k: int| i <= k < l.len() ==> (#[trigger] l[k]).tb_id != id,
    decreases l.len() - i,
{
    if i < l.len() {
        lemma_first_with_id(l, id, i + 1);
    }
}

/// Where table `id` is: its bucket and its position there.
pub open spec fn table_pos(n: net, id: u32) -> Option<(usize, usize)> {
    match first_with_id(n.bucket(bucket_of(id)), id, 0) {
        Some(j) => Some((bucket_of(id) as usize, j as usize)),
        None => None,
    }
}

/// Find table `id`.
pub fn fib_get_table(n: &net, id: u32) -> (r: Option<(usize, usize)>)
    requires
        n.wf(),
    ensures
        r == table_pos(*n, id),
        r matches Some((b, j)) ==> b < FIB_TABLE_HASHSZ && j < n.bucket(b as int).len() && n.bucket(b as int)[j as int].tb_id == id,
{
    let h: usize = (id % 256) as usize;
    let head = &n.ipv4.fib_table_hash[h];
    let mut i: usize = 0;
    while i < head.len()
        invariant
            head@ == n.bucket(h as int),
            h == bucket_of(id),
            i <= head.len(),
            first_with_id(head@, id, 0) == first_with_id(head@, id, i as int),
        decreases head.len() - i,
    {
        if head[i].tb_id == id {
            return Some((h, i));
        }
        i = i + 1;
    }
    None
}

/// A new table `id`, sharing the routes of `alias` when given.
pub fn fib_trie_table(id: u32, alias: Option<u32>) -> (tb: fib_table)
    ensures
        tb.tb_id == id,
        tb.alias_of == alias,
{
    fib_table { tb_id: id, alias_of: alias }
}

/// Publish `val` at `ptr`.
pub fn rcu_assign_pointer<T>(ptr: &mut T, val: T)
    ensures
        *final(ptr) == val,
{
    *ptr = val;
}

/// The main and default tables are remembered exactly when they exist.
pub open spec fn mains_named(n: net) -> bool {
    &&& n.ipv4.fib_main == (if table_pos(n, RT_TABLE_MAIN) is Some { Some(RT_TABLE_MAIN) } else { None::<u32> })
    &&& n.ipv4.fib_default == (if table_pos(n, RT_TABLE_DEFAULT) is Some { Some(RT_TABLE_DEFAULT) } else { None::<u32> })
}

/// In a well-formed namespace (which `fib_new_table` leaves behind, with
/// the table it returns in place), a table that is there has the id asked
/// for, and when it is the main or the default table it is the one
/// remembered as such. Together with `fib_new_table`'s contract (a table
/// already there is returned and nothing changes), a second call gives the
/// same table.
pub proof fn existing_table_is_named(n: net, id: u32)
    requires
        n.wf(),
        table_pos(n, effective_id(id)) is Some,
    ensures
        first_with_id(n.bucket(bucket_of(effective_id(id))), effective_id(id), 0) is Some,
        n.bucket(bucket_of(effective_id(id)))[first_with_id(n.bucket(bucket_of(effective_id(id))), effective_id(id), 0)->0].tb_id
            == effective_id(id),
        effective_id(id) == RT_TABLE_MAIN ==> n.ipv4.fib_main == Some(RT_TABLE_MAIN),
        effective_id(id) == RT_TABLE_DEFAULT ==> n.ipv4.fib_default == Some(RT_TABLE_DEFAULT),
{
    lemma_first_with_id(n.bucket(bucket_of(effective_id(id))), effective_id(id), 0);
}

/// The id a request for table `id` means: 0 stands for the main table.
pub open spec fn effective_id(id: u32) -> u32 {
    if id == 0 { RT_TABLE_MAIN } else { id }
}

/// The table `id` (0: the main table), created when missing: the local
/// table, while no custom rules exist, shares the main table's routes (the
/// main table being created first when missing); a new main or default
/// table is remembered as such; a new table goes at the head of its bucket.
/// Returns where the table is.
pub fn fib_new_table(n: &mut net, id: u32) -> (r: Option<(usize, usize)>)
    requires
        old(n).wf(),
    ensures
        final(n).wf(),
        r == table_pos(*final(n), effective_id(id)),
        r is Some,
        table_pos(*old(n), effective_id(id)) is Some ==> *final(n) == *old(n),
        table_pos(*old(n), effective_id(id)) is None ==> {
            let eid = effective_id(id);
            &&& r == Some((bucket_of(eid) as usize, 0usize))
            &&& final(n).bucket(bucket_of(eid))[0].alias_of
                == (if eid == RT_TABLE_LOCAL && !old(n).ipv4.fib_has_custom_rules { Some(RT_TABLE_MAIN) } else { None })
            &&& eid == RT_TABLE_MAIN ==> final(n).ipv4.fib_main == Some(RT_TABLE_MAIN)
            &&& eid == RT_TABLE_DEFAULT ==> final(n).ipv4.fib_default == Some(RT_TABLE_DEFAULT)
        },
        forall|k: u32| #[trigger] table_pos(*old(n), k) is Some ==> table_pos(*final(n), k) is Some,
        forall|k: u32| k != effective_id(id) && k != RT_TABLE_MAIN ==>
            (#[trigger] table_pos(*final(n), k) is Some <==> table_pos(*old(n), k) is Some),
        forall|b: int| 0 <= b < FIB_TABLE_HASHSZ && b != bucket_of(effective_id(id)) && b != bucket_of(RT_TABLE_MAIN)
            ==> #[trigger] final(n).bucket(b) == old(n).bucket(b),
    decreases (if effective_id(id) == RT_TABLE_LOCAL { 1int } else { 0int }),
{
    let eid: u32 = if id == 0 { RT_TABLE_MAIN } else { id };
    let found = fib_get_table(n, eid);
    if found.is_some() {
        return found;
    }
    let mut alias: Option<u32> = None;
    if eid == RT_TABLE_LOCAL && !n.ipv4.fib_has_custom_rules {
        let _ = fib_new_table(n, RT_TABLE_MAIN);
        alias = Some(RT_TABLE_MAIN);
    }
    let ghost mid = *n;
    proof {
        assert(table_pos(mid, eid) is None) by {
            if eid == RT_TABLE_LOCAL && !old(n).ipv4.fib_has_custom_rules {
                assert(mid.bucket(bucket_of(eid)) == old(n).bucket(bucket_of(eid)));
            }
        }
    }
    let tb = fib_trie_table(eid, alias);
    if eid == RT_TABLE_MAIN {
        rcu_assign_pointer(&mut n.ipv4.fib_main, Some(RT_TABLE_MAIN));
    } else if eid == RT_TABLE_DEFAULT {
        rcu_assign_pointer(&mut n.ipv4.fib_default, Some(RT_TABLE_DEFAULT));
    }
    let h: usize = (eid % 256) as usize;
    let mut head = n.ipv4.fib_table_hash.remove(h);
    hlist_add_head_rcu(tb, &mut head);
    n.ipv4.fib_table_hash.insert(h, head);
    proof {
        assert forall|b: int| 0 <= b < FIB_TABLE_HASHSZ && b != h implies #[trigger] n.bucket(b) == mid.bucket(b) by {
            if b < h {
            } else {
            }
        }
        assert(first_with_id(n.bucket(h as int), eid, 0) == Some(0int));
        assert forall|k: u32| #[trigger] table_pos(*old(n), k) is Some implies table_pos(*n, k) is Some by {
            assert(table_pos(mid, k) is Some);
            let bk = bucket_of(k);
            lemma_first_with_id(mid.bucket(bk), k, 0);
            let j = first_with_id(mid.bucket(bk), k, 0)->0;
            lemma_first_with_id(n.bucket(bk), k, 0);
            if bk == h {
                assert(n.bucket(bk)[j + 1] == mid.bucket(bk)[j]);
            } else {
                assert(n.bucket(bk) == mid.bucket(bk));
            }
        }
        assert forall|k: u32| k != eid implies (#[trigger] table_pos(*n, k) is Some <==> table_pos(mid, k) is Some) by {
            let bk = bucket_of(k);
            lemma_first_with_id(mid.bucket(bk), k, 0);
            lemma_first_with_id(n.bucket(bk), k, 0);
            if bk == h {
                assert(n.bucket(bk) == seq![tb] + mid.bucket(bk));
                if table_pos(*n, k) is Some {
                    let j = first_with_id(n.bucket(bk), k, 0)->0;
                    assert(j >= 1);
                    assert(mid.bucket(bk)[j - 1].tb_id == k);
                }
                if table_pos(mid, k) is Some {
                    let j = first_with_id(mid.bucket(bk), k, 0)->0;
                    assert(n.bucket(bk)[j + 1].tb_id == k);
                }
            } else {
                assert(n.bucket(bk) == mid.bucket(bk));
            }
        }
    }
    Some((h, 0))
}

/// Put table `new_tb` where the table at `pos` was; it has the same id, as
/// the bucket it goes in is that id's.
pub fn fib_replace_table(n: &mut net, pos: (usize, usize), new_tb: fib_table)
    requires
        old(n).wf(),
        pos.0 < FIB_TABLE_HASHSZ,
        pos.1 < old(n).bucket(pos.0 as int).len(),
        new_tb.tb_id == old(n).bucket(pos.0 as int)[pos.1 as int].tb_id,
    ensures
        final(n).wf(),
        final(n).bucket(pos.0 as int) == old(n).bucket(pos.0 as int).update(pos.1 as int, new_tb),
        forall|b: int| 0 <= b < FIB_TABLE_HASHSZ && b != pos.0 ==> #[trigger] final(n).bucket(b) == old(n).bucket(b),
        final(n).ipv4.fib_main == old(n).ipv4.fib_main,
        final(n).ipv4.fib_default == old(n).ipv4.fib_default,
        forall|k: u32| #[trigger] table_pos(*final(n), k) == table_pos(*old(n), k),
{
    let (b, i) = pos;
    let mut head = n.ipv4.fib_table_hash.remove(b);
    head.set(i, new_tb);
    n.ipv4.fib_table_hash.insert(b, head);
    proof {
        assert forall|bb: int| 0 <= bb < FIB_TABLE_HASHSZ && bb != b implies #[trigger] n.bucket(bb) == old(n).bucket(bb) by {
            if bb < b {
            } else {
            }
        }
        assert forall|k: u32| #[trigger] table_pos(*n, k) == table_pos(*old(n), k) by {
            lemma_first_with_id_same_ids(old(n).bucket(bucket_of(k)), n.bucket(bucket_of(k)), k, 0);
        }
    }
}

proof fn lemma_first_with_id_same_ids(l1: Seq<fib_table>, l2: Seq<fib_table>, id: u32, i: int)
    requires
        l1.len() == l2.len(),
        forall|k: int| 0 <= k < l1.len() ==> (#[trigger] l1[k]).tb_id == l2[k].tb_id,
    ensures
        first_with_id(l1, id, i) == first_with_id(l2, id, i),
    decreases l1.len() - i,
{
    if 0 <= i < l1.len() {
        lemma_first_with_id_same_ids(l1, l2, id, i + 1);
    }
}

/// The type of address `addr` as table `tb_id` sees it: the zero address
/// is broadcast, multicast addresses are multicast, and others are unicast
/// when the table exists, broadcast otherwise.
pub open spec fn addr_type(n: net, addr: u32, tb_id: u32) -> i32 {
    if addr == 0 {
        RTN_BROADCAST
    } else if addr / 0x1000_0000 == 0xE {
        RTN_MULTICAST
    } else if table_pos(n, tb_id) is Some {
        RTN_UNICAST
    } else {
        RTN_BROADCAST
    }
}

pub fn __inet_dev_addr_type(n: &net, addr: u32, tb_id: u32) -> (r: i32)
    requires
        n.wf(),
    ensures
        r == addr_type(*n, addr, tb_id),
{
    if addr == 0 {
        return RTN_BROADCAST;
    }
    if addr / 0x1000_0000 == 0xE {
        return RTN_MULTICAST;
    }
    if fib_get_table(n, tb_id).is_some() {
        return RTN_UNICAST;
    }
    RTN_BROADCAST
}

/// The type of `addr` as the local table sees it.
pub fn inet_addr_type(n: &net, addr: u32) -> (r: i32)
    requires
        n.wf(),
    ensures
        r == addr_type(*n, addr, RT_TABLE_LOCAL),
{
    __inet_dev_addr_type(n, addr, RT_TABLE_LOCAL)
}

} // verus!
