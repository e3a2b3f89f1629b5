use server_status::client::status::{
    get_network, probe_addresses, start_all_ping_collect_t, PingData, PingWindow, Probe,
};
use server_status::client::Args;

fn args(online: u8, disable_ping: bool) -> Args {
    Args {
        addr: String::new(),
        user: String::new(),
        pass: String::new(),
        gid: String::new(),
        mtls: false,
        tls_dir: String::new(),
        lite: false,
        debug: false,
        report_interval: 1,
        vnstat: false,
        disable_tupd: false,
        disable_ping,
        online,
        ipv4_address: "v4:80".to_string(),
        ipv6_address: "v6:80".to_string(),
        cu_addr: "cu:80".to_string(),
        ct_addr: "ct:80".to_string(),
        cm_addr: "cm:80".to_string(),
    }
}

#[test]
fn named_protocols_are_online_unasked() {
    assert_eq!(get_network(&args(1, false), false, true), (true, false));
    assert_eq!(get_network(&args(2, false), true, false), (false, true));
    assert_eq!(get_network(&args(3, false), false, false), (true, true));
    assert_eq!(probe_addresses(&args(2, false)), None);
}

#[test]
fn other_protocols_are_probed() {
    assert_eq!(get_network(&args(0, false), false, true), (false, true));
    assert_eq!(get_network(&args(4, false), true, true), (true, true));
    assert_eq!(
        probe_addresses(&args(0, false)),
        Some(("v4:80".to_string(), "v6:80".to_string()))
    );
}

#[test]
fn carriers_are_set_up() {
    let s = start_all_ping_collect_t(&args(0, false));
    assert_eq!(s.ping_10010.probe_uri, "cu:80");
    assert_eq!(s.ping_189.probe_uri, "ct:80");
    assert_eq!(s.ping_10086.probe_uri, "cm:80");
    assert_eq!(s.ping_10086.lost_rate, 0);
    assert_eq!(s.ping_10086.ping_time, 0);
    assert!(s.start);
    assert!(!start_all_ping_collect_t(&args(0, true)).start);
}

#[test]
fn unknown_carrier_is_empty() {
    let d = PingData::default();
    assert_eq!((d.probe_uri.as_str(), d.lost_rate, d.ping_time), ("", 0, 0));
}

#[test]
fn loss_is_told_from_the_thirty_first_probe_on() {
    let mut w = PingWindow::new();
    let mut d = PingData { probe_uri: "x".to_string(), lost_rate: 0, ping_time: 0 };
    for i in 0..30 {
        w.record(Probe::Failed, 1000 + i, &mut d);
        assert_eq!(d.lost_rate, 0);
    }
    assert_eq!(d.ping_time, 1029);
    w.record(Probe::Connected, 12, &mut d);
    assert_eq!(d.lost_rate, 96);
    assert_eq!(d.ping_time, 12);
    assert_eq!(d.probe_uri, "x");
}

#[test]
fn refusal_is_an_answer() {
    let mut w = PingWindow::new();
    let mut d = PingData::default();
    for _ in 0..31 {
        w.record(Probe::Refused, 1, &mut d);
    }
    assert_eq!(d.lost_rate, 0);
}

#[test]
fn old_probes_fall_out() {
    let mut w = PingWindow::new();
    let mut d = PingData::default();
    for _ in 0..101 {
        w.record(Probe::Failed, 1, &mut d);
    }
    assert_eq!(d.lost_rate, 100);
    for i in 1..=101 {
        w.record(Probe::Connected, 1, &mut d);
        assert_eq!(d.lost_rate, (101 - i) * 100 / 101);
    }
    assert_eq!(d.lost_rate, 0);
}

#[test]
fn long_times_are_cut() {
    let mut w = PingWindow::new();
    let mut d = PingData::default();
    w.record(Probe::Connected, 0x1_0000_0005, &mut d);
    assert_eq!(d.ping_time, 5);
}
