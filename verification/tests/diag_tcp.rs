use lib::tcp_diag::{
    diag_attr, diag_skb, inet_diag_msg, inet_diag_table, nla_total_size, sock, tcp_diag_destroy, tcp_diag_exit,
    tcp_diag_get_aux, tcp_diag_get_aux_size, tcp_diag_get_info, tcp_diag_init, tcp_diag_md5sig, tcp_diag_md5sig_fill,
    tcp_diag_put_md5sig, tcp_diag_put_ulp, tcp_diag_sock, tcp_md5sig_key, tcp_ulp_ops, EMSGSIZE, ENOMEM,
};

fn msg() -> inet_diag_msg {
    inet_diag_msg {
        idiag_family: 2,
        idiag_state: 0,
        idiag_timer: 0,
        idiag_retrans: 0,
        idiag_expires: 0,
        idiag_rqueue: 7,
        idiag_wqueue: 7,
        idiag_uid: 0,
        idiag_ino: 0,
    }
}

fn sk(state: u8, sk_type: u16) -> sock {
    sock {
        state,
        sk_type,
        sk_ack_backlog: 3,
        sk_max_ack_backlog: 128,
        rcv_nxt: 1500,
        copied_seq: 1000,
        write_seq: 9000,
        snd_una: 8000,
        fullsock: true,
    }
}

fn key(family: u8, keylen: u16) -> tcp_md5sig_key {
    let mut k = [0u8; 32];
    for (i, b) in k.iter_mut().enumerate() {
        *b = i as u8 + 1;
    }
    tcp_md5sig_key { family, prefixlen: 32, keylen, key: k, addr: [0x0a00_0001, 2, 3, 4] }
}

fn zero_rec() -> tcp_diag_md5sig {
    tcp_diag_md5sig { tcpm_family: 0, tcpm_prefixlen: 0, tcpm_keylen: 0, tcpm_addr: [0; 4], tcpm_key: [0; 32] }
}

#[test]
fn queue_sizes() {
    let mut r = msg();
    tcp_diag_get_info(&sk(1, 1), &mut r);
    assert_eq!((r.idiag_rqueue, r.idiag_wqueue), (3, 128));
    let mut r = msg();
    tcp_diag_get_info(&sk(2, 1), &mut r);
    assert_eq!((r.idiag_rqueue, r.idiag_wqueue), (500, 1000));
    let mut s = sk(2, 1);
    s.copied_seq = 2000;
    let mut r = msg();
    tcp_diag_get_info(&s, &mut r);
    assert_eq!(r.idiag_rqueue, 0);
    let mut r = msg();
    tcp_diag_get_info(&sk(2, 2), &mut r);
    assert_eq!((r.idiag_rqueue, r.idiag_wqueue), (7, 7));
}

#[test]
fn md5_records() {
    let mut rec = zero_rec();
    tcp_diag_md5sig_fill(&mut rec, &key(2, 4));
    assert_eq!(rec.tcpm_keylen, 4);
    assert_eq!(&rec.tcpm_key[..5], &[1, 2, 3, 4, 0]);
    assert_eq!(rec.tcpm_addr, [0x0a00_0001, 0, 0, 0]);
    let mut rec = zero_rec();
    tcp_diag_md5sig_fill(&mut rec, &key(10, 32));
    assert_eq!(rec.tcpm_addr, [0x0a00_0001, 2, 3, 4]);
    assert_eq!(rec.tcpm_key[31], 32);

    assert_eq!(nla_total_size(104), 108);
    assert_eq!(nla_total_size(5), 12);
    let mut skb = diag_skb { attrs: Vec::new(), used: 0, size: 100 };
    assert_eq!(tcp_diag_put_md5sig(&mut skb, &vec![]), 0);
    assert_eq!(tcp_diag_put_md5sig(&mut skb, &vec![key(2, 4), key(2, 4)]), -ENOMEM);
    assert_eq!(skb.attrs.len(), 0);
    assert_eq!(tcp_diag_put_md5sig(&mut skb, &vec![key(2, 4)]), 0);
    assert_eq!(skb.used, 56);
    match &skb.attrs[0] {
        diag_attr::Md5sig(recs) => assert_eq!(recs[0].tcpm_family, 2),
        _ => panic!("md5 attribute expected"),
    }
}

#[test]
fn ulp_report() {
    let ulp = tcp_ulp_ops { name: b"tls".to_vec(), get_info: None, get_info_size: Some(20) };
    let mut skb = diag_skb { attrs: Vec::new(), used: 0, size: 3 };
    assert_eq!(tcp_diag_put_ulp(&mut skb, &ulp), -ENOMEM);
    let mut skb = diag_skb { attrs: Vec::new(), used: 0, size: 8 };
    assert_eq!(tcp_diag_put_ulp(&mut skb, &ulp), EMSGSIZE);
    let mut skb = diag_skb { attrs: Vec::new(), used: 0, size: 100 };
    assert_eq!(tcp_diag_put_ulp(&mut skb, &ulp), 0);
    assert_eq!(skb.used, 12);
    match &skb.attrs[0] {
        diag_attr::UlpInfo(n) => assert_eq!(n, &b"tls\0".to_vec()),
        _ => panic!("ulp attribute expected"),
    }
    let failing = tcp_ulp_ops { name: b"tls".to_vec(), get_info: Some(-5), get_info_size: None };
    let mut skb = diag_skb { attrs: Vec::new(), used: 0, size: 100 };
    assert_eq!(tcp_diag_put_ulp(&mut skb, &failing), -5);
    assert_eq!(skb.used, 0);
}

#[test]
fn admin_attributes() {
    let full = tcp_diag_sock {
        sk: sk(2, 1),
        md5sig_info: Some(vec![key(2, 4)]),
        icsk_ulp_ops: Some(tcp_ulp_ops { name: b"tls".to_vec(), get_info: None, get_info_size: Some(20) }),
    };
    let mut skb = diag_skb { attrs: Vec::new(), used: 0, size: 200 };
    assert_eq!(tcp_diag_get_aux(&full, false, &mut skb), 0);
    assert_eq!(skb.attrs.len(), 0);
    assert_eq!(tcp_diag_get_aux(&full, true, &mut skb), 0);
    assert_eq!(skb.attrs.len(), 2);
    assert_eq!(tcp_diag_get_aux_size(&full, true), 56 + 4 + 20 + 20);
    assert_eq!(tcp_diag_get_aux_size(&full, false), 0);
    let mut tiny = diag_skb { attrs: Vec::new(), used: 0, size: 60 };
    assert_eq!(tcp_diag_get_aux(&full, true, &mut tiny), EMSGSIZE);
}

#[test]
fn destroy_and_registration() {
    assert_eq!(tcp_diag_destroy(false, 0), 22);
    assert_eq!(tcp_diag_destroy(true, -3), -3);
    let mut t = inet_diag_table { handlers: vec![None; 256] };
    assert_eq!(tcp_diag_init(&mut t, 5), 0);
    assert_eq!(t.handlers[6], Some(5));
    assert_eq!(tcp_diag_init(&mut t, 6), -17);
    tcp_diag_exit(&mut t);
    assert_eq!(t.handlers[6], None);
}
