//! Verified models of the IPv4 networking logic: sequence-number arithmetic,
//! header parsing, congestion-control arithmetic, lookup tables and registries.
#![allow(non_camel_case_types)]
#![allow(non_snake_case)]
#![allow(dead_code)]

pub mod byteorder;
pub mod ip_options;
pub mod ipconfig;
pub mod tcp_minisocks;
pub mod tcp_recovery;
pub mod tcp_rate;
pub mod gre_demux;
pub mod fou;
pub mod ping;
pub mod ip_forward;
pub mod af_inet;
pub mod datagram;
pub mod netfilter;
pub mod inet_diag;
pub mod ipip;
pub mod route;
pub mod sysctl_net_ipv4;
pub mod tcp_illinois;
pub mod tcp_nv;
pub mod tcp_ulp;
pub mod esp4;
pub mod ip_sockglue;
pub mod ipmr_base;
pub mod inet_timewait_sock;
pub mod fib_notifier;
pub mod tcp_bpf;
pub mod tcp_fastopen;
pub mod cipso_ipv4;
pub mod ip_tunnel;
pub mod ip_gre;
pub mod raw;
pub mod raw_diag;
pub mod nexthop;
pub mod icmp;
pub mod inetpeer;
pub mod ip_output;
pub mod ip_vti;
pub mod ip_input;
pub mod ip_fragment;
pub mod fib_frontend;
pub mod igmp;
pub mod syncookies;
pub mod tcp;
pub mod tcp_cubic;
pub mod tcp_output;
pub mod tcp_metrics;
pub mod tcp_bbr;
pub mod ipmr;
pub mod tcp_input;
pub mod tcp_ipv4;
pub mod devinet;
pub mod netlink;
pub mod fib_semantics;
pub mod fib_trie;
pub mod tcp_cong;
pub mod tcp_bic;
pub mod tcp_lp;
pub mod tcp_hybla;
pub mod tcp_scalable;
pub mod tcp_offload;
pub mod tcp_diag;
