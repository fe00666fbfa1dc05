//! IGMP: which protocol version a device speaks, how often unsolicited
//! reports repeat, and the report timers and references of a group.
use vstd::prelude::*;

verus! {

pub const EINVAL: i32 = -22;
pub const ENOMEM: i32 = -12;
pub const ENOSYS: i32 = -38;
/// Device configuration entries.
pub const FORCE_IGMP_VERSION: i32 = 1;
pub const IGMPV2_UNSOLICITED_REPORT_INTERVAL: i32 = 2;
pub const IGMPV3_UNSOLICITED_REPORT_INTERVAL: i32 = 3;

/// The IGMP settings of a device.
pub struct ipv4_devconf {
    pub force_igmp_version: i32,
    pub igmpv2_unsolicited_report_interval: i32,
    pub igmpv3_unsolicited_report_interval: i32,
}

/// A device's IGMP state: until when older queriers (v1, v2) were seen
/// (0 for never), the maximum response delay, whether a general query
/// response is running, its settings, the namespace-wide forced version,
/// and its references.
pub struct in_device {
    pub mr_v1_seen: i64,
    pub mr_v2_seen: i64,
    pub mr_maxdelay: i32,
    pub mr_gq_running: i32,
    pub cnf: ipv4_devconf,
    pub all_force_igmp_version: i32,
    pub refcnt: i32,
}

/// A timer: when it fires, and whether it is pending.
pub struct Timer {
    pub expires: i64,
    pub pending: bool,
}

/// A multicast group joined on a device: its report timer, whether the
/// timer runs, whether this host was the last to report, the unsolicited
/// reports left, and its references.
pub struct ip_mc_list {
    pub timer: Timer,
    pub tm_running: bool,
    pub reporter: i32,
    pub unsolicit_count: i32,
    pub refcnt: i32,
}

/// A setting of the device.
pub open spec fn conf_get(d: in_device, conf: i32) -> i32 {
    if conf == FORCE_IGMP_VERSION {
        d.cnf.force_igmp_version
    } else if conf == IGMPV2_UNSOLICITED_REPORT_INTERVAL {
        d.cnf.igmpv2_unsolicited_report_interval
    } else if conf == IGMPV3_UNSOLICITED_REPORT_INTERVAL {
        d.cnf.igmpv3_unsolicited_report_interval
    } else {
        0
    }
}

pub fn IN_DEV_CONF_GET(d: &in_device, conf: i32) -> (r: i32)
    ensures
        r == conf_get(*d, conf),
{
    if conf == FORCE_IGMP_VERSION {
        d.cnf.force_igmp_version
    } else if conf == IGMPV2_UNSOLICITED_REPORT_INTERVAL {
        d.cnf.igmpv2_unsolicited_report_interval
    } else if conf == IGMPV3_UNSOLICITED_REPORT_INTERVAL {
        d.cnf.igmpv3_unsolicited_report_interval
    } else {
        0
    }
}

/// The namespace-wide forced IGMP version.
pub fn IPV4_DEVCONF_ALL(d: &in_device) -> (r: i32)
    ensures
        r == d.all_force_igmp_version,
{
    d.all_force_igmp_version
}

/// Whether `a` comes before `b`.
pub fn time_before(a: i64, b: i64) -> (r: bool)
    ensures
        r == (a < b),
{
    a < b
}

/// Whether the device speaks IGMPv1 at time `now`: forced to version 1
/// (namespace-wide or on the device), or a v1 querier seen recently.
pub open spec fn v1_seen(d: in_device, now: i64) -> bool {
    d.all_force_igmp_version == 1 || d.cnf.force_igmp_version == 1 || (d.mr_v1_seen > 0 && now < d.mr_v1_seen)
}

/// The same for IGMPv2.
pub open spec fn v2_seen(d: in_device, now: i64) -> bool {
    d.all_force_igmp_version == 2 || d.cnf.force_igmp_version == 2 || (d.mr_v2_seen > 0 && now < d.mr_v2_seen)
}

pub fn IGMP_V1_SEEN(d: &in_device, now: i64) -> (r: bool)
    ensures
        r == v1_seen(*d, now),
{
    IPV4_DEVCONF_ALL(d) == 1 || IN_DEV_CONF_GET(d, FORCE_IGMP_VERSION) == 1 || (d.mr_v1_seen > 0 && time_before(now, d.mr_v1_seen))
}

pub fn IGMP_V2_SEEN(d: &in_device, now: i64) -> (r: bool)
    ensures
        r == v2_seen(*d, now),
{
    IPV4_DEVCONF_ALL(d) == 2 || IN_DEV_CONF_GET(d, FORCE_IGMP_VERSION) == 2 || (d.mr_v2_seen > 0 && time_before(now, d.mr_v2_seen))
}

/// Milliseconds as ticks (one tick per millisecond).
pub fn msecs_to_jiffies(msecs: i32) -> (r: i32)
    ensures
        r == msecs,
{
    msecs / 1
}

/// How many ticks apart unsolicited reports go: the v2 interval when an
/// older querier is around, else the v3 interval, at least 1.
pub open spec fn report_interval(d: in_device, now: i64) -> i32 {
    let ms = if v1_seen(d, now) || v2_seen(d, now) {
        d.cnf.igmpv2_unsolicited_report_interval
    } else {
        d.cnf.igmpv3_unsolicited_report_interval
    };
    if ms <= 0 { 1 } else { ms }
}

pub fn unsolicited_report_interval(d: &in_device, now: i64) -> (r: i32)
    ensures
        r == report_interval(*d, now),
        r > 0,
{
    let interval_ms = if IGMP_V1_SEEN(d, now) || IGMP_V2_SEEN(d, now) {
        IN_DEV_CONF_GET(d, IGMPV2_UNSOLICITED_REPORT_INTERVAL)
    } else {
        IN_DEV_CONF_GET(d, IGMPV3_UNSOLICITED_REPORT_INTERVAL)
    };
    let interval_jiffies = msecs_to_jiffies(interval_ms);
    if interval_jiffies <= 0 {
        1
    } else {
        interval_jiffies
    }
}

/// Drop a reference; whether it was the last.
pub fn refcount_dec_and_test(refcnt: &mut i32) -> (r: bool)
    requires
        *old(refcnt) > i32::MIN,
    ensures
        *final(refcnt) == *old(refcnt) - 1,
        r == (*final(refcnt) == 0),
{
    *refcnt = *refcnt - 1;
    *refcnt == 0
}

/// Take a reference.
pub fn refcount_inc(refcnt: &mut i32)
    requires
        *old(refcnt) < i32::MAX,
    ensures
        *final(refcnt) == *old(refcnt) + 1,
{
    *refcnt = *refcnt + 1;
}

/// Drop a reference to the device.
pub fn in_dev_put(d: &mut in_device) -> (last: bool)
    requires
        old(d).refcnt > i32::MIN,
    ensures
        final(d).refcnt == old(d).refcnt - 1,
        last == (final(d).refcnt == 0),
{
    refcount_dec_and_test(&mut d.refcnt)
}

/// Drop a reference to the group; on the last one the group lets go of its
/// device. Whether the group is gone.
pub fn ip_ma_put(im: &mut ip_mc_list, d: &mut in_device) -> (gone: bool)
    requires
        old(im).refcnt > i32::MIN,
        old(d).refcnt > i32::MIN,
    ensures
        final(im).refcnt == old(im).refcnt - 1,
        gone == (final(im).refcnt == 0),
        final(d).refcnt == (if gone { old(d).refcnt - 1 } else { old(d).refcnt + 0 }),
{
    if refcount_dec_and_test(&mut im.refcnt) {
        let _ = in_dev_put(d);
        true
    } else {
        false
    }
}

/// Stop the timer; whether it was pending.
pub fn del_timer(t: &mut Timer) -> (r: bool)
    ensures
        r == old(t).pending,
        !final(t).pending,
        final(t).expires == old(t).expires,
{
    let was = t.pending;
    t.pending = false;
    was
}

/// (Re)arm the timer for `expires`; whether it was pending.
pub fn mod_timer(t: &mut Timer, expires: i64) -> (r: bool)
    ensures
        r == old(t).pending,
        final(t).pending,
        final(t).expires == expires,
{
    let was = t.pending;
    t.pending = true;
    t.expires = expires;
    was
}

/// Stop the group's report timer: a pending timer gives back the reference
/// it held; the group no longer reports.
pub fn igmp_stop_timer(im: &mut ip_mc_list)
    requires
        old(im).refcnt > i32::MIN,
    ensures
        !final(im).timer.pending,
        final(im).refcnt == (if old(im).timer.pending { old(im).refcnt - 1 } else { old(im).refcnt + 0 }),
        !final(im).tm_running,
        final(im).reporter == 0,
        final(im).unsolicit_count == 0,
{
    if del_timer(&mut im.timer) {
        im.refcnt = im.refcnt - 1;
    }
    im.tm_running = false;
    im.reporter = 0;
    im.unsolicit_count = 0;
}

/// Start the group's report timer to fire within `max_delay` ticks of
/// `now`: at `now + (rand % max_delay) + 2`; a timer that was not pending
/// takes a reference.
pub fn igmp_start_timer(im: &mut ip_mc_list, max_delay: i32, now: i64, rand: u32)
    requires
        max_delay > 0,
        now <= i64::MAX - 0x1_0000_0002,
        old(im).refcnt < i32::MAX,
    ensures
        final(im).tm_running,
        final(im).timer.pending,
        final(im).timer.expires == now + (rand % (max_delay as u32)) + 2,
        final(im).refcnt == (if old(im).timer.pending { old(im).refcnt + 0 } else { old(im).refcnt + 1 }),
{
    let tv: u32 = rand % (max_delay as u32);
    im.tm_running = true;
    if !mod_timer(&mut im.timer, now + tv as i64 + 2) {
        refcount_inc(&mut im.refcnt);
    }
}

} // verus!
