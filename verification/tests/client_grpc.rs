use server_status::client::grpc::{
    connection, mark_online, report, ConnectError, Connection, Family, Pause, ReportLoop, Transport,
    UrlParts,
};
use server_status::client::sys_info::{Pings, StatRequest, Tupd};
use server_status::client::Args;
use server_status::server::grpc::token_credentials;

fn args(addr: &str, user: &str, gid: &str, pass: &str, mtls: bool) -> Args {
    Args {
        addr: addr.to_string(),
        user: user.to_string(),
        pass: pass.to_string(),
        gid: gid.to_string(),
        mtls,
        tls_dir: "tls".to_string(),
        lite: false,
        debug: false,
        report_interval: 7,
        vnstat: false,
        disable_tupd: false,
        disable_ping: false,
        online: 0,
        ipv4_address: String::new(),
        ipv6_address: String::new(),
        cu_addr: String::new(),
        ct_addr: String::new(),
        cm_addr: String::new(),
    }
}

fn connected(r: Option<Result<Connection, ConnectError>>) -> Connection {
    match r {
        Some(Ok(c)) => c,
        other => panic!("{other:?}"),
    }
}

#[test]
fn host_connects_in_the_clear() {
    let c = connected(report(&args("http://example.com:9394", "h1", "", "pp", false)));
    assert_eq!(c.token, "h1@_@pp");
    assert_eq!(c.kind, "single");
    assert_eq!(c.addr, "http://example.com:9394");
    assert_eq!(c.resolve, Some(("example.com".to_string(), 9394)));
    assert!(matches!(c.transport, Transport::Clear));
}

#[test]
fn group_connects_with_a_certificate() {
    let c = connected(report(&args("grpcs://Example.com", "h1", "g1", "pp", false)));
    assert_eq!(c.token, "g1@_@pp");
    assert_eq!(c.kind, "group");
    assert_eq!(c.addr, "https://Example.com");
    assert_eq!(c.resolve, Some(("example.com".to_string(), 443)));
    assert!(matches!(c.transport, Transport::Tls));
}

#[test]
fn both_sides_show_certificates() {
    let c = connected(report(&args("grpcs://example.com:9394/x", "h1", "", "pp", true)));
    match c.transport {
        Transport::Mutual { domain } => assert_eq!(domain, "example.com"),
        other => panic!("{other:?}"),
    }
    assert_eq!(c.resolve, Some(("example.com".to_string(), 9394)));
}

#[test]
fn address_that_cannot_be_read() {
    let c = connected(report(&args("no address", "h1", "", "pp", false)));
    assert_eq!(c.resolve, None);
    assert!(matches!(c.transport, Transport::Clear));
    let r = report(&args("no address", "h1", "", "pp", true));
    assert!(matches!(r, Some(Err(ConnectError::Url))));
}

#[test]
fn address_without_a_host() {
    assert!(report(&args("unix:/run/x", "h1", "", "pp", true)).is_none());
    let c = connected(report(&args("unix:/run/x", "h1", "", "pp", false)));
    assert_eq!(c.resolve, None);
}

#[test]
fn token_with_a_control_character_is_refused() {
    for pass in ["a\nb", "\0", "a\u{7f}"] {
        let r = report(&args("http://h", "h1", "", pass, false));
        assert!(matches!(r, Some(Err(ConnectError::Token))));
    }
    for pass in ["a\tb", "päss", "中"] {
        let c = connected(report(&args("http://h", "h1", "", pass, false)));
        assert_eq!(c.token, format!("h1@_@{pass}"));
    }
}

#[test]
fn token_is_tried_before_the_address() {
    for addr in ["unix:/run/x", "no address", "grpcs://h"] {
        let r = report(&args(addr, "h1", "", "a\nb", true));
        assert!(matches!(r, Some(Err(ConnectError::Token))));
    }
}

#[test]
fn parts_decide_how_to_connect() {
    let a = args("http://h", "h1", "", "pp", true);
    let parts = Some(UrlParts { host: Some("d".to_string()), port: Some(1) });
    let c = connection(&a, &parts).unwrap();
    assert_eq!(c.resolve, Some(("d".to_string(), 1)));
    assert!(matches!(c.transport, Transport::Mutual { .. }));
    assert!(matches!(connection(&a, &None), Err(ConnectError::Url)));
}

#[test]
fn server_reads_the_client_s_token() {
    for (user, gid, pass) in
        [("h1", "", "pp"), ("h1", "g@_", "x"), ("a@", "", "@_@b"), ("", "g", ""), ("_", "", "@")]
    {
        let c = connected(report(&args("http://h", user, gid, pass, false)));
        let read = token_credentials(Some(c.kind), &c.token).unwrap();
        if gid == "g@_" {
            assert_eq!((read.name.as_str(), read.pass.as_str()), ("g", "_@x"));
        } else {
            let name = if gid.is_empty() { user } else { gid };
            assert_eq!((read.name.as_str(), read.pass.as_str()), (name, pass));
        }
        assert_eq!(read.group, !gid.is_empty());
    }
}

fn stat() -> StatRequest {
    StatRequest {
        version: "v".to_string(),
        vnstat: false,
        online4: false,
        online6: false,
        uptime: 1,
        memory_total: 0,
        memory_used: 0,
        swap_total: 0,
        swap_used: 0,
        hdd_total: 0,
        hdd_used: 0,
        network_in: 0,
        network_out: 0,
        last_network_in: 0,
        last_network_out: 0,
        network_rx: 0,
        network_tx: 0,
        tupd: Tupd { tcp: 0, udp: 0, process: 0, thread: 0 },
        pings: Pings {
            ping_10010: 0,
            time_10010: 0,
            ping_189: 0,
            time_189: 0,
            ping_10086: 0,
            time_10086: 0,
        },
        disks: Vec::new(),
    }
}

#[test]
fn protocol_of_the_server_is_online() {
    let mut s = stat();
    mark_online(&mut s, None);
    assert!(!s.online4 && !s.online6);
    mark_online(&mut s, Some(Family::V6));
    assert!(!s.online4 && s.online6);
    mark_online(&mut s, Some(Family::V4));
    assert!(s.online4 && s.online6);
    assert_eq!((s.version.as_str(), s.uptime), ("v", 1));
}

#[test]
fn lite_client_sends_a_full_report_each_sixtieth_time() {
    let mut l = ReportLoop::new();
    for i in 0..180 {
        assert_eq!(l.next(true), i % 60 == 0);
    }
    assert!(l.next(false) && l.next(false));
    assert_eq!(l.count, 182);
}

#[test]
fn numbering_starts_over() {
    let mut l = ReportLoop { count: u64::MAX };
    assert!(!l.next(true));
    assert_eq!(l.count, 0);
    assert!(l.next(true));
}

#[test]
fn full_reports_come_in_time() {
    for start in [0, 1, 59, 60, 1234567, u64::MAX - 70, u64::MAX - 5, u64::MAX] {
        let mut l = ReportLoop { count: start };
        assert!((0..60).map(|_| l.next(true)).any(|full| full));
    }
}

#[test]
fn client_waits() {
    let l = ReportLoop::new();
    let a = args("http://h", "h1", "", "pp", false);
    assert_eq!(l.pause(&a, true), Pause::Report { secs: 7 });
    assert_eq!(l.pause(&a, false), Pause::Reconnect { secs: 3 });
}
