use lib::fib_semantics::{
    fib_info, fib_info_nh, fib_info_num_path, fib_nh, fib_nh_common, fib_nh_common_release, fib_release_info,
    free_fib_info,
};

fn nh(dev: Option<usize>, oif: u32) -> fib_nh {
    fib_nh {
        nh_common: fib_nh_common {
            nhc_dev: dev,
            nhc_lwtstate: Some(1),
            nhc_pcpu_rth_output: Some(2),
            nhc_rth_input: None,
            nhc_exceptions: Some(3),
        },
        nh_tclassid: 0,
        fib_nh_oif: oif,
        fib_nh_gw_family: 2,
        fib_nh_scope: 0,
        fib_nh_weight: 1,
        fib_nh_flags: 0,
        fib_nh_gw4: 0x0a00_0001,
        nh_hashed: dev.is_some(),
    }
}

fn info(treeref: u32) -> fib_info {
    fib_info {
        fib_nhs: 2,
        fib_nh: vec![nh(Some(0), 1), nh(Some(1), 2)],
        nh: None,
        fib_protocol: 2,
        fib_scope: 0,
        fib_type: 1,
        fib_flags: 0,
        fib_priority: 0,
        fib_tb_id: 254,
        fib_prefsrc: 0,
        fib_metrics: None,
        fib_dead: 0,
        fib_treeref: treeref,
        hashed: true,
        lhashed: true,
    }
}

#[test]
fn paths_of_an_info() {
    let fi = info(1);
    assert_eq!(fib_info_num_path(&fi), 2);
    assert_eq!(fib_info_nh(&fi, 1).fib_nh_oif, 2);
    let shared = fib_info { nh: Some(nh(None, 9)), ..info(1) };
    assert_eq!(fib_info_num_path(&shared), 1);
    assert_eq!(fib_info_nh(&shared, 1).fib_nh_oif, 9);
}

#[test]
fn release_common_drops_the_device_reference() {
    let mut refs = vec![5u32, 5];
    let mut c = nh(Some(1), 1).nh_common;
    fib_nh_common_release(&mut c, &mut refs);
    assert_eq!(refs, vec![5, 4]);
    assert!(c.nhc_dev.is_none() && c.nhc_lwtstate.is_none() && c.nhc_exceptions.is_none());
}

#[test]
fn release_then_free() {
    let mut fi = info(2);
    fib_release_info(&mut fi);
    assert_eq!(fi.fib_treeref, 1);
    assert_eq!(fi.fib_dead, 0);
    assert!(fi.hashed);

    let mut cnt = 3u32;
    let mut refs = vec![2u32, 2];
    let alive = info(1);
    assert!(!free_fib_info(alive, &mut cnt, &mut refs));
    assert_eq!(cnt, 3);

    fib_release_info(&mut fi);
    assert_eq!(fi.fib_treeref, 0);
    assert_eq!(fi.fib_dead, 1);
    assert!(!fi.hashed && !fi.lhashed);
    assert!(!fi.fib_nh[0].nh_hashed && !fi.fib_nh[1].nh_hashed);

    assert!(free_fib_info(fi, &mut cnt, &mut refs));
    assert_eq!(cnt, 2);
    assert_eq!(refs, vec![1, 1]);

    let mut none = info(0);
    fib_release_info(&mut none);
    assert_eq!(none.fib_dead, 0);
}
