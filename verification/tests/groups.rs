use lib::igmp::{
    del_timer, igmp_start_timer, igmp_stop_timer, in_dev_put, in_device, ip_ma_put, ip_mc_list, ipv4_devconf,
    mod_timer, msecs_to_jiffies, refcount_dec_and_test, refcount_inc, time_before, unsolicited_report_interval,
    IGMP_V1_SEEN, IGMP_V2_SEEN, IN_DEV_CONF_GET, IPV4_DEVCONF_ALL, Timer, FORCE_IGMP_VERSION,
};

fn dev(v2_ms: i32, v3_ms: i32) -> in_device {
    in_device {
        mr_v1_seen: 0,
        mr_v2_seen: 0,
        mr_maxdelay: 1000,
        mr_gq_running: 0,
        cnf: ipv4_devconf {
            force_igmp_version: 0,
            igmpv2_unsolicited_report_interval: v2_ms,
            igmpv3_unsolicited_report_interval: v3_ms,
        },
        all_force_igmp_version: 0,
        refcnt: 1,
    }
}

#[test]
fn test_unsolicited_report_interval() {
    let in_dev = dev(0, 0);
    let result = unsolicited_report_interval(&in_dev, 0);
    assert!(result > 0);
}

#[test]
fn igmp_versions_and_intervals() {
    let mut d = dev(10000, 1000);
    assert!(!IGMP_V1_SEEN(&d, 5));
    assert_eq!(unsolicited_report_interval(&d, 5), 1000);
    d.mr_v2_seen = 100;
    assert!(IGMP_V2_SEEN(&d, 5));
    assert!(!IGMP_V2_SEEN(&d, 100));
    assert_eq!(unsolicited_report_interval(&d, 5), 10000);
    d.mr_v2_seen = 0;
    d.cnf.force_igmp_version = 1;
    assert!(IGMP_V1_SEEN(&d, 5));
    assert_eq!(IN_DEV_CONF_GET(&d, FORCE_IGMP_VERSION), 1);
    d.cnf.force_igmp_version = 0;
    d.all_force_igmp_version = 2;
    assert_eq!(IPV4_DEVCONF_ALL(&d), 2);
    assert!(IGMP_V2_SEEN(&d, 5));
    assert_eq!(msecs_to_jiffies(250), 250);
    assert!(time_before(1, 2));
    assert!(!time_before(2, 2));
}

fn group() -> ip_mc_list {
    ip_mc_list { timer: Timer { expires: 0, pending: false }, tm_running: false, reporter: 1, unsolicit_count: 2, refcnt: 1 }
}

#[test]
fn igmp_group_timers() {
    let mut im = group();
    igmp_start_timer(&mut im, 10, 1000, 23);
    assert!(im.tm_running && im.timer.pending);
    assert_eq!(im.timer.expires, 1005);
    assert_eq!(im.refcnt, 2);
    // re-arming a pending timer takes no new reference
    igmp_start_timer(&mut im, 10, 2000, 0);
    assert_eq!(im.refcnt, 2);
    igmp_stop_timer(&mut im);
    assert_eq!(im.refcnt, 1);
    assert!(!im.tm_running);
    assert_eq!((im.reporter, im.unsolicit_count), (0, 0));
    igmp_stop_timer(&mut im);
    assert_eq!(im.refcnt, 1);
    let mut t = Timer { expires: 0, pending: false };
    assert!(!mod_timer(&mut t, 9));
    assert!(mod_timer(&mut t, 10));
    assert!(del_timer(&mut t));
    assert!(!del_timer(&mut t));
}

#[test]
fn igmp_references() {
    let mut d = dev(0, 0);
    d.refcnt = 2;
    let mut im = group();
    im.refcnt = 2;
    assert!(!ip_ma_put(&mut im, &mut d));
    assert_eq!(d.refcnt, 2);
    assert!(ip_ma_put(&mut im, &mut d));
    assert_eq!(d.refcnt, 1);
    assert!(in_dev_put(&mut d));
    let mut r = 3;
    assert!(!refcount_dec_and_test(&mut r));
    refcount_inc(&mut r);
    assert_eq!(r, 3);
}
