use lib::tcp_cong::cong_registry;
use lib::tcp_hybla::{
    hybla, hybla_cong_avoid, hybla_fraction, hybla_init, hybla_params, hybla_recalc_param, hybla_register,
    hybla_state, hybla_unregister, module_param_rtt0, rtt0_get, rtt0_set, tcp_sock, TCP_CA_OPEN,
};

fn ca0() -> hybla {
    hybla { hybla_en: true, snd_cwnd_cents: 0, rho: 0, rho2: 0, rho_3ls: 0, rho2_7ls: 0, minrtt_us: u32::MAX }
}

fn tp(srtt: u32, cwnd: u32, ssthresh: u32) -> tcp_sock {
    tcp_sock { srtt_us: srtt, snd_cwnd: cwnd, snd_cwnd_clamp: 65535, snd_cwnd_cnt: 0, snd_ssthresh: ssthresh }
}

#[test]
fn parameters() {
    let mut p = hybla_params { rtt0: 25 };
    assert_eq!(rtt0_get(&p), 25);
    rtt0_set(&mut p, 50);
    assert_eq!(p.rtt0, 50);
    module_param_rtt0(&mut p, 25);
    let mut ca = ca0();
    hybla_recalc_param(&mut ca, &tp(100_000, 1, 1), &p);
    assert_eq!((ca.rho_3ls, ca.rho, ca.rho2_7ls, ca.rho2), (8, 1, 128, 1));
    hybla_recalc_param(&mut ca, &tp(500_000, 1, 1), &p);
    assert_eq!((ca.rho_3ls, ca.rho, ca.rho2_7ls, ca.rho2), (20, 2, 800, 6));
    assert_eq!(hybla_fraction(3), 165);
    assert_eq!(hybla_fraction(9), 128);
}

#[test]
fn init_and_state() {
    let p = hybla_params { rtt0: 25 };
    let mut ca = ca0();
    let mut t = tp(500_000, 10, 100);
    t.snd_cwnd_clamp = 7;
    hybla_init(&mut ca, &mut t, &p);
    assert_eq!(t.snd_cwnd, 2);
    assert_eq!(t.snd_cwnd_clamp, 65535);
    assert_eq!(ca.minrtt_us, 500_000);
    assert!(ca.hybla_en);
    hybla_state(&mut ca, 3);
    assert!(!ca.hybla_en);
    hybla_state(&mut ca, TCP_CA_OPEN);
    assert!(ca.hybla_en);
}

#[test]
fn window_growth() {
    let p = hybla_params { rtt0: 25 };
    let mut ca = ca0();
    let mut t = tp(500_000, 2, 100);
    hybla_init(&mut ca, &mut t, &p);
    hybla_cong_avoid(&mut ca, &mut t, &p, 0, 1, true);
    assert_eq!(t.snd_cwnd, 6);
    assert_eq!(ca.snd_cwnd_cents, 84);

    let mut ca = ca0();
    let mut t = tp(500_000, 10, 5);
    hybla_init(&mut ca, &mut t, &p);
    t.snd_cwnd = 10;
    hybla_cong_avoid(&mut ca, &mut t, &p, 0, 1, true);
    assert_eq!((t.snd_cwnd, ca.snd_cwnd_cents, t.snd_cwnd_cnt), (10, 80, 1));
    hybla_cong_avoid(&mut ca, &mut t, &p, 0, 1, true);
    assert_eq!((t.snd_cwnd, ca.snd_cwnd_cents, t.snd_cwnd_cnt), (11, 32, 0));
    hybla_cong_avoid(&mut ca, &mut t, &p, 0, 1, false);
    assert_eq!(t.snd_cwnd, 11);

    ca.hybla_en = false;
    let mut t = tp(500_000, 10, 5);
    hybla_cong_avoid(&mut ca, &mut t, &p, 0, 1, true);
    assert_eq!((t.snd_cwnd, t.snd_cwnd_cnt), (10, 1));

    // a new least RTT recomputes rho
    let mut t = tp(100_000, 10, 5);
    hybla_cong_avoid(&mut ca, &mut t, &p, 0, 1, false);
    assert_eq!(ca.minrtt_us, 100_000);
    assert_eq!(ca.rho, 1);
}

#[test]
fn hybla_registration() {
    let mut reg = cong_registry { list: Vec::new() };
    assert_eq!(hybla_register(&mut reg), 0);
    hybla_unregister(&mut reg);
    assert!(reg.list.is_empty());
}
