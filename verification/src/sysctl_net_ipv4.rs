//! IPv4 sysctl handlers: the local port range, the privileged port limit and
//! the groups allowed to open ping sockets.
use vstd::prelude::*;

verus! {

pub const EINVAL: i32 = -22;
pub const ENOMEM: i32 = -12;
pub const ENOSYS: i32 = -38;

/// A sequence lock: its counter is odd while a writer holds it.
pub struct SeqLock {
    pub sequence: u32,
}

/// The local port range, with whether the parity warning was given.
pub struct InetLocalPortRange {
    pub lock: SeqLock,
    pub warned: bool,
    pub range: [i32; 2],
}

/// The group range allowed to open ping sockets.
pub struct PingGroupRange {
    pub lock: SeqLock,
    pub range: [u32; 2],
}

pub struct NetIPv4 {
    pub ip_local_ports: InetLocalPortRange,
    pub sysctl_ip_prot_sock: i32,
    pub ping_group_range: PingGroupRange,
}

/// The counter after a complete write: two steps on.
pub open spec fn seq_after_write(s: u32) -> u32 {
    (if s + 2 <= u32::MAX { s + 2 } else { s + 2 - 0x1_0000_0000 }) as u32
}

fn write_locked_bump(lock: &mut SeqLock)
    ensures
        final(lock).sequence == seq_after_write(old(lock).sequence),
{
    lock.sequence = lock.sequence.wrapping_add(1);
    lock.sequence = lock.sequence.wrapping_add(1);
}

/// Both ends of a range have the same parity.
pub open spec fn same_parity(range: [i32; 2]) -> bool {
    (range@[0] ^ range@[1]) & 1 == 0
}

/// Install a new local port range under the lock. Start and end of the same
/// parity are discouraged: the first time, the range is marked as warned.
pub fn set_local_port_range(ports: &mut InetLocalPortRange, range: [i32; 2])
    ensures
        final(ports).range@ == range@,
        final(ports).warned == (old(ports).warned || same_parity(range)),
        final(ports).lock.sequence == seq_after_write(old(ports).lock.sequence),
{
    let same = (range[0] ^ range[1]) & 1 == 0;
    if same && !ports.warned {
        ports.warned = true;
    }
    ports.range = range;
    write_locked_bump(&mut ports.lock);
}

/// A write to the local port range sysctl: when the value was parsed
/// (`proc_ret` 0), a range whose end is below its start, or whose start is
/// below the first unprivileged port, is refused (`EINVAL`); else it is
/// installed. Otherwise the parser's result is returned.
pub fn ipv4_local_port_range(net: &mut NetIPv4, write: bool, proc_ret: i32, range: [i32; 2]) -> (r: i32)
    ensures
        !(write && proc_ret == 0) ==> r == proc_ret && *final(net) == *old(net),
        write && proc_ret == 0 && (range@[1] < range@[0] || range@[0] < old(net).sysctl_ip_prot_sock) ==> r == EINVAL
            && *final(net) == *old(net),
        write && proc_ret == 0 && !(range@[1] < range@[0] || range@[0] < old(net).sysctl_ip_prot_sock) ==> r == 0
            && final(net).ip_local_ports.range@ == range@
            && final(net).ip_local_ports.warned == (old(net).ip_local_ports.warned || same_parity(range))
            && final(net).sysctl_ip_prot_sock == old(net).sysctl_ip_prot_sock
            && final(net).ping_group_range == old(net).ping_group_range,
{
    if write && proc_ret == 0 {
        if range[1] < range[0] || range[0] < net.sysctl_ip_prot_sock {
            return EINVAL;
        }
        set_local_port_range(&mut net.ip_local_ports, range);
    }
    proc_ret
}

/// A write to the privileged port limit: refused (`EINVAL`) when it would
/// put the start of the local port range among the privileged ports.
pub fn ipv4_privileged_ports(net: &mut NetIPv4, write: bool, proc_ret: i32, pports: i32) -> (r: i32)
    ensures
        !(write && proc_ret == 0) ==> r == proc_ret && *final(net) == *old(net),
        write && proc_ret == 0 && old(net).ip_local_ports.range@[0] < pports ==> r == EINVAL && *final(net) == *old(net),
        write && proc_ret == 0 && !(old(net).ip_local_ports.range@[0] < pports) ==> r == 0
            && *final(net) == (NetIPv4 { sysctl_ip_prot_sock: pports, ..*old(net) }),
{
    if write && proc_ret == 0 {
        let start = net.ip_local_ports.range[0];
        if start < pports {
            return EINVAL;
        }
        net.sysctl_ip_prot_sock = pports;
    }
    proc_ret
}

/// The ping group range.
pub fn inet_get_ping_group_range_table(r: &PingGroupRange) -> (lh: (u32, u32))
    ensures
        lh == (r.range@[0], r.range@[1]),
{
    (r.range[0], r.range[1])
}

/// Install a ping group range under the lock.
pub fn set_ping_group_range(r: &mut PingGroupRange, low: u32, high: u32)
    ensures
        final(r).range@ == seq![low, high],
        final(r).lock.sequence == seq_after_write(old(r).lock.sequence),
{
    r.range = [low, high];
    write_locked_bump(&mut r.lock);
    proof {
        assert(final(r).range@ =~= seq![low, high]);
    }
}

/// A write to the ping group range: `urange` is the range as written,
/// `low` and `high` its ends mapped to kernel group ids (`None` when a group
/// has no mapping, giving `EINVAL`). An empty range (end below start)
/// installs the range that admits nobody, 1 to 0.
pub fn ipv4_ping_group_range(r: &mut PingGroupRange, write: bool, proc_ret: i32, urange: [i32; 2], low: Option<u32>, high: Option<u32>) -> (ret: i32)
    ensures
        !(write && proc_ret == 0) ==> ret == proc_ret && *final(r) == *old(r),
        write && proc_ret == 0 && (low is None || high is None) ==> ret == EINVAL && *final(r) == *old(r),
        write && proc_ret == 0 && low is Some && high is Some ==> ret == 0
            && final(r).range@ == (if urange@[1] < urange@[0] || high->0 < low->0 { seq![1u32, 0u32] } else { seq![low->0, high->0] }),
{
    if write && proc_ret == 0 {
        match (low, high) {
            (Some(l), Some(h)) => {
                if urange[1] < urange[0] || h < l {
                    set_ping_group_range(r, 1, 0);
                } else {
                    set_ping_group_range(r, l, h);
                }
            },
            _ => {
                return EINVAL;
            },
        }
    }
    proc_ret
}

/// After any number of complete writes, a range's lock counter keeps its
/// parity: readers that saw an even counter before and after read a
/// consistent range.
pub proof fn seqlock_write_keeps_parity(s: u32)
    requires
        s % 2 == 0,
    ensures
        seq_after_write(s) % 2 == 0,
{
}

} // verus!
