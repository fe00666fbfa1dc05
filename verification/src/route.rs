//! IPv4 routing helpers: the TOS-to-priority table, route defaults and the
//! route-cache statistics file.
use vstd::prelude::*;

verus! {

/// Routing cache statistics.
pub struct rt_cache_stat {
    pub in_hit: u32,
    pub in_slow_tot: u32,
    pub in_slow_mc: u32,
    pub in_no_route: u32,
    pub in_brd: u32,
    pub in_martian_dst: u32,
    pub in_martian_src: u32,
    pub out_hit: u32,
    pub out_slow_tot: u32,
    pub out_slow_mc: u32,
    pub gc_total: u32,
    pub gc_ignored: u32,
    pub gc_goal_miss: u32,
    pub gc_dst_overflow: u32,
    pub in_hlist_search: u32,
    pub out_hlist_search: u32,
}

/// Packet priority band for each of the sixteen TOS values.
pub const ip_tos2prio: [u8; 16] = [0, 0, 0, 0, 1, 1, 1, 1, 2, 2, 2, 2, 3, 3, 3, 3];

/// The priority band of a TOS value: the four TOS bits select a band, four
/// consecutive values per band.
pub open spec fn tos_band(tos: u8) -> u8 {
    ((tos & 0x1E) / 2 / 4) as u8
}

/// The packet priority for a TOS byte, looked up in `ip_tos2prio`.
pub fn rt_tos2priority(tos: u8) -> (r: u8)
    ensures
        r == tos_band(tos),
{
    let table = ip_tos2prio;
    let i: u8 = (tos & 0x1E) / 2;
    proof {
        assert((tos & 0x1E) / 2 < 16) by (bit_vector);
        assert(table@ =~= seq![0u8, 0, 0, 0, 1, 1, 1, 1, 2, 2, 2, 2, 3, 3, 3, 3]);
    }
    table[i as usize]
}

/// Default advertised MSS of a route.
pub fn ipv4_default_advmss() -> (r: u32)
    ensures
        r == 536,
{
    536
}

/// Default MTU of a route.
pub fn ipv4_mtu() -> (r: u32)
    ensures
        r == 1500,
{
    1500
}

/// Start reading the route-cache statistics file: only the header line, at
/// position 0.
pub fn rt_cache_seq_start(pos: i32) -> (r: bool)
    ensures
        r == (pos == 0),
{
    pos == 0
}

/// Advance to the next line: there is none.
pub fn rt_cache_seq_next(pos: &mut i32) -> (r: bool)
    requires
        *old(pos) < i32::MAX,
    ensures
        *final(pos) == *old(pos) + 1,
        !r,
{
    *pos = *pos + 1;
    false
}

} // verus!
