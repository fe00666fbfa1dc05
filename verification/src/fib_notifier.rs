//! IPv4 FIB notifications: the sequence number that tells a dump whether
//! the FIB changed under it, and the family stamped on every notification.
use vstd::prelude::*;

verus! {

pub const AF_INET: i32 = 2;
pub const EINVAL: i32 = -22;
pub const ENOMEM: i32 = -12;

/// A notifier block; its callbacks live outside this module.
pub struct NotifierBlock {
    pub id: u64,
}

/// Extended netlink acknowledgement; carries an error message, if any.
pub struct NetlinkExtAck {
    pub msg: Option<u64>,
}

pub struct FibNotifierInfo {
    pub family: i32,
}

/// The IPv4 FIB notification state of a namespace: the change counter and
/// the registered notifier operations.
pub struct Net {
    pub fib_seq: u32,
    pub notifier_ops: Option<u64>,
}

/// Notify one notifier (its answer is `notifier_ret`): the information is
/// stamped as IPv4.
pub fn call_fib4_notifier(info: &mut FibNotifierInfo, notifier_ret: i32) -> (r: i32)
    ensures
        final(info).family == AF_INET,
        r == notifier_ret,
{
    info.family = AF_INET;
    notifier_ret
}

/// Notify all notifiers of a FIB change (their combined answer is
/// `notifiers_ret`): the information is stamped as IPv4 and the change
/// counter moves on.
pub fn call_fib4_notifiers(net: &mut Net, info: &mut FibNotifierInfo, notifiers_ret: i32) -> (r: i32)
    requires
        old(net).fib_seq < u32::MAX,
    ensures
        final(info).family == AF_INET,
        final(net).fib_seq == old(net).fib_seq + 1,
        final(net).notifier_ops == old(net).notifier_ops,
        r == notifiers_ret,
{
    info.family = AF_INET;
    net.fib_seq = net.fib_seq + 1;
    notifiers_ret
}

/// The FIB's sequence number: the change counter plus that of the rules
/// (`rules_seq`).
pub fn fib4_seq_read(net: &Net, rules_seq: u32) -> (r: u32)
    requires
        net.fib_seq + rules_seq <= u32::MAX,
    ensures
        r == net.fib_seq + rules_seq,
{
    net.fib_seq + rules_seq
}

/// Every notified change shows in the sequence number: after one, the same
/// rules give a number one higher.
pub proof fn fib4_change_moves_seq(before: Net, after: Net, rules_seq: u32)
    requires
        after.fib_seq == before.fib_seq + 1,
    ensures
        after.fib_seq + rules_seq == before.fib_seq + rules_seq + 1,
{
}

/// Replay the FIB to a new notifier: the rules first (`rules_err`), then the
/// tables (`notify_err`); the first error stops it.
pub fn fib4_dump(rules_err: i32, notify_err: i32) -> (r: i32)
    ensures
        r == (if rules_err != 0 { rules_err } else { notify_err }),
{
    if rules_err != 0 {
        return rules_err;
    }
    notify_err
}

/// Set a namespace up: the counter starts at zero and the operations the
/// registration gave (`registered`) are kept; a registration error is
/// returned.
pub fn fib4_notifier_init(net: &mut Net, registered: Result<u64, i32>) -> (r: i32)
    ensures
        final(net).fib_seq == 0,
        match registered {
            Ok(ops) => r == 0 && final(net).notifier_ops == Some(ops),
            Err(e) => r == e && final(net).notifier_ops == old(net).notifier_ops,
        },
{
    net.fib_seq = 0;
    match registered {
        Ok(ops) => {
            net.notifier_ops = Some(ops);
            0
        },
        Err(e) => e,
    }
}

} // verus!
