use server_status::clock::LocalTime;
use server_status::payload::{
    DiskInfo, Event, Host, HostStat, IpInfo, Metrics, Real, StatsResp, SysInfo,
};
use server_status::registry::Registry;
use server_status::server::stats::{
    uptime_str, Accepted, Drop, Intervals, Outcome, StatsMgr,
};

const CFG: Intervals = Intervals { offline_threshold: 30, group_gc: 60, notify_interval: 10 };
const NOON: LocalTime = LocalTime { day: 15, hour: 12, minute: 0 };

fn metrics() -> Metrics {
    let z = Real { bits: 0 };
    Metrics {
        load_1: z,
        load_5: z,
        load_15: z,
        cpu: z,
        memory_total: 0,
        memory_used: 0,
        swap_total: 0,
        swap_used: 0,
        hdd_total: 0,
        hdd_used: 0,
        network_rx: 0,
        network_tx: 0,
        tcp: 0,
        udp: 0,
        process: 0,
        thread: 0,
        ping_10010: z,
        ping_189: z,
        ping_10086: z,
        time_10010: z,
        time_189: z,
        time_10086: z,
    }
}

fn stat(name: &str, latest_ts: u64) -> HostStat {
    HostStat {
        name: name.to_string(),
        alias: String::new(),
        gid: String::new(),
        location: String::new(),
        host_type: String::new(),
        labels: String::new(),
        version: String::new(),
        uptime_str: String::new(),
        notify: true,
        vnstat: false,
        disabled: false,
        online4: true,
        online6: false,
        si: false,
        pos: 0,
        weight: 0,
        latest_ts,
        uptime: 3723,
        network_in: 500,
        network_out: 50,
        last_network_in: 0,
        last_network_out: 0,
        ip_info: None,
        sys_info: None,
        disks: Vec::new(),
        metrics: metrics(),
    }
}

fn host() -> Host {
    Host {
        gid: String::new(),
        alias: String::new(),
        location: "loc".to_string(),
        host_type: "kvm".to_string(),
        labels: String::new(),
        notify: true,
        disabled: false,
        pos: 3,
        weight: 10,
        monthstart: 1,
        latest_ts: 0,
        last_network_in: 0,
        last_network_out: 0,
    }
}

fn mgr(hosts: Vec<(&str, Host)>) -> StatsMgr {
    let mut r: Registry<Host> = Registry::new();
    for (name, h) in hosts {
        r.insert(name.to_string(), h);
    }
    let mut m = StatsMgr::new(0);
    m.init(CFG, r, None);
    m
}

fn take(m: &mut StatsMgr, s: HostStat, inst: Option<Host>, t: LocalTime) -> Outcome {
    assert!(m.can_ingest(&s, &inst));
    m.ingest_at(s, inst, t)
}

fn stored(o: Outcome) -> Accepted {
    match o {
        Outcome::Stored(a) => a,
        other => panic!("{other:?}"),
    }
}

fn dropped(o: Outcome) -> Drop {
    match o {
        Outcome::Dropped(d) => d,
        other => panic!("{other:?}"),
    }
}

fn debian() -> SysInfo {
    SysInfo {
        name: String::new(),
        version: String::new(),
        os_name: "linux".to_string(),
        os_arch: String::new(),
        os_family: String::new(),
        os_release: "Debian GNU/Linux 12".to_string(),
        kernel_version: String::new(),
        cpu_num: 1,
        cpu_brand: String::new(),
        cpu_vender_id: String::new(),
        host_name: String::new(),
    }
}

fn address() -> IpInfo {
    IpInfo {
        query: "1.2.3.4".to_string(),
        continent: String::new(),
        country: String::new(),
        region_name: String::new(),
        city: String::new(),
        isp: String::new(),
        org: String::new(),
        asn: String::new(),
        asname: String::new(),
    }
}

#[test]
fn uptime_is_written() {
    assert_eq!(uptime_str(0), "00:00:00");
    assert_eq!(uptime_str(3723), "01:02:03");
    assert_eq!(uptime_str(86399), "23:59:59");
    assert_eq!(uptime_str(86400), "1 天");
    assert_eq!(uptime_str(86400 * 123 + 5), "123 天");
}

#[test]
fn intervals_are_added_without_overflow() {
    assert!(CFG.fits_host("g", u64::MAX - 60) && !CFG.fits_host("g", u64::MAX - 59));
    assert!(CFG.fits_host("", u64::MAX));
    assert!(CFG.fits_stat("g", u64::MAX - 60) && !CFG.fits_stat("g", u64::MAX - 59));
    assert!(CFG.fits_stat("", u64::MAX - 30) && !CFG.fits_stat("", u64::MAX - 29));
    assert!(CFG.fits_now(u64::MAX - 60) && !CFG.fits_now(u64::MAX - 59));
    let cfg = Intervals { offline_threshold: 7, group_gc: 5, notify_interval: 6 };
    assert!(cfg.fits_host("g", u64::MAX - 5) && !cfg.fits_stat("g", u64::MAX - 6));
    assert!(cfg.fits_now(u64::MAX - 6) && !cfg.fits_now(u64::MAX - 5));
}

#[test]
fn new_manager_knows_nothing() {
    let m = StatsMgr::new(7);
    assert_eq!(m.get_stats_json(), "{}");
    assert_eq!(m.get_stats().updated, 7);
    assert!(m.get_stats().servers.is_empty());
}

#[test]
fn report_is_completed_by_the_configuration() {
    let mut h = host();
    h.labels = "os=arch".to_string();
    h.alias = "first".to_string();
    let mut m = mgr(vec![("h1", h)]);
    let mut s = stat("h1", 1000);
    s.weight = 5;
    s.labels = "own".to_string();
    s.location = "here".to_string();
    let a = stored(take(&mut m, s, None, NOON));
    assert_eq!(a.stat.location, "here");
    assert_eq!(a.stat.host_type, "kvm");
    assert_eq!(a.stat.labels, "os=arch");
    assert_eq!(a.stat.alias, "first");
    assert_eq!((a.stat.weight, a.stat.pos), (15, 3));
    assert_eq!(a.stat.uptime_str, "01:02:03");
    assert!(a.stat.notify && !a.stat.disabled);
    assert!(!a.node_up);
    assert_eq!(m.stats.get("h1").unwrap().alias, "first");
}

#[test]
fn unknown_host_is_dropped() {
    let mut m = mgr(vec![]);
    assert_eq!(dropped(take(&mut m, stat("h1", 1), None, NOON)), Drop::UnknownHost);
    assert!(m.stats.get("h1").is_none());
}

#[test]
fn host_that_is_switched_off_is_dropped() {
    let mut h = host();
    h.disabled = true;
    let mut m = mgr(vec![("h1", h)]);
    assert_eq!(dropped(take(&mut m, stat("h1", 1), None, NOON)), Drop::Disabled);
}

#[test]
fn unknown_group_is_dropped() {
    let mut m = mgr(vec![("h1", host())]);
    let mut s = stat("h1", 1);
    s.gid = "g".to_string();
    assert_eq!(dropped(take(&mut m, s, None, NOON)), Drop::UnknownGroup);
}

#[test]
fn host_is_taken_into_its_group() {
    let mut h = host();
    h.last_network_in = 7;
    h.last_network_out = 8;
    let mut m = mgr(vec![("h1", h)]);
    let mut inst = host();
    inst.gid = "g".to_string();
    inst.location = "group".to_string();
    let mut s = stat("h1", 1000);
    s.gid = "g".to_string();
    let a = stored(take(&mut m, s, Some(inst), NOON));
    assert_eq!(a.stat.alias, "h1");
    assert_eq!(a.stat.location, "group");
    assert!(!a.network_reset);
    assert_eq!((a.stat.last_network_in, a.stat.last_network_out), (7, 8));
    assert_eq!(m.hosts.get("h1").unwrap().gid, "g");
    let mut s = stat("h1", 1001);
    s.gid = "g".to_string();
    s.alias = "mine".to_string();
    let a = stored(take(&mut m, s, None, NOON));
    assert_eq!(a.stat.alias, "mine");
}

#[test]
fn traffic_of_the_period_is_counted() {
    let mut m = mgr(vec![("h1", host())]);
    let a = stored(take(&mut m, stat("h1", 1), None, NOON));
    assert!(a.network_reset);
    assert_eq!((a.stat.last_network_in, a.stat.last_network_out), (0, 0));
    assert_eq!(m.hosts.get("h1").unwrap().last_network_in, 500);
    let mut s = stat("h1", 2);
    s.network_in = 700;
    let a = stored(take(&mut m, s, None, NOON));
    assert!(!a.network_reset);
    assert_eq!((a.stat.last_network_in, a.stat.last_network_out), (500, 50));
    let mut s = stat("h1", 3);
    s.network_in = 499;
    assert!(stored(take(&mut m, s, None, NOON)).network_reset);
    let mut s = stat("h1", 4);
    s.network_in = 0;
    assert!(!stored(take(&mut m, s, None, NOON)).network_reset);
}

#[test]
fn traffic_starts_anew_with_the_month() {
    let mut h = host();
    h.last_network_in = 100;
    let mut m = mgr(vec![("h1", h)]);
    for (day, hour, minute, anew) in
        [(2, 0, 0, false), (1, 1, 0, false), (1, 0, 5, false), (1, 0, 4, true)]
    {
        let t = LocalTime { day, hour, minute };
        assert_eq!(stored(take(&mut m, stat("h1", 1), None, t)).network_reset, anew);
    }
    assert_eq!(m.hosts.get("h1").unwrap().last_network_in, 500);
}

#[test]
fn vnstat_keeps_its_own_count() {
    let mut m = mgr(vec![("h1", host())]);
    let mut s = stat("h1", 1);
    s.vnstat = true;
    s.last_network_in = 33;
    let a = stored(take(&mut m, s, None, NOON));
    assert!(!a.network_reset);
    assert_eq!(a.stat.last_network_in, 33);
    assert_eq!(m.hosts.get("h1").unwrap().last_network_in, 0);
}

#[test]
fn report_taken_in_now() {
    let mut h = host();
    h.monthstart = 40;
    h.last_network_in = 100;
    let mut m = mgr(vec![("h1", h)]);
    let a = stored(m.ingest(stat("h1", 1), None));
    assert!(!a.network_reset);
    assert_eq!(a.stat.last_network_in, 100);
}

#[test]
fn what_is_known_of_a_host_is_kept() {
    let mut m = mgr(vec![("h1", host())]);
    let mut s = stat("h1", 1);
    s.ip_info = Some(address());
    s.sys_info = Some(debian());
    take(&mut m, s, None, NOON);
    let a = stored(take(&mut m, stat("h1", 2), None, NOON));
    assert_eq!(a.stat.ip_info.unwrap().query, "1.2.3.4");
    assert_eq!(a.stat.sys_info.unwrap().os_name, "linux");
    let mut s = stat("h1", 3);
    let mut other = address();
    other.query = "5.6.7.8".to_string();
    s.ip_info = Some(other);
    let a = stored(take(&mut m, s, None, NOON));
    assert_eq!(a.stat.ip_info.unwrap().query, "5.6.7.8");
}

#[test]
fn host_that_is_back_is_told() {
    let mut m = mgr(vec![("h1", host())]);
    assert!(!stored(take(&mut m, stat("h1", 100), None, NOON)).node_up);
    assert!(!stored(take(&mut m, stat("h1", 130), None, NOON)).node_up);
    assert!(stored(take(&mut m, stat("h1", 161), None, NOON)).node_up);
    let mut s = stat("h1", 1000);
    s.notify = false;
    assert!(!stored(take(&mut m, s, None, NOON)).node_up);
}

#[test]
fn report_leaves_other_hosts_alone() {
    let mut m = mgr(vec![("h1", host()), ("h2", host())]);
    take(&mut m, stat("h1", 5), None, NOON);
    take(&mut m, stat("h2", 6), None, NOON);
    let mut s = stat("h2", 7);
    s.alias = "new".to_string();
    take(&mut m, s, None, NOON);
    assert_eq!(m.stats.get("h1").unwrap().latest_ts, 5);
    assert_eq!(m.stats.get("h1").unwrap().alias, "");
    assert_eq!(m.stats.get("h2").unwrap().alias, "new");
}

#[test]
fn report_that_would_overflow_is_told() {
    let m = mgr(vec![("h1", host())]);
    let mut s = stat("h1", 1);
    s.weight = u64::MAX - 10;
    assert!(m.can_ingest(&s, &None));
    s.weight = u64::MAX - 9;
    assert!(!m.can_ingest(&s, &None));
    assert!(!m.can_ingest(&stat("h1", u64::MAX), &None));
    assert!(m.can_ingest(&stat("h2", u64::MAX), &None));
    let mut h = host();
    h.latest_ts = u64::MAX;
    assert!(m.can_ingest(&stat("h1", 1), &Some(h.clone())));
    let mut s = stat("h1", 1);
    s.gid = "g".to_string();
    assert!(m.can_ingest(&s, &Some(h.clone())));
    h.gid = "g".to_string();
    assert!(!m.can_ingest(&s, &Some(h)));
}

#[test]
fn stored_counters_are_taken_over() {
    let mut r: Registry<Host> = Registry::new();
    r.insert("h1".to_string(), host());
    let mut m = StatsMgr::new(0);
    let data = vec![("h1".to_string(), 11, 12), ("h2".to_string(), 13, 14)];
    m.init(CFG, r, Some(data));
    let h = m.hosts.get("h1").unwrap();
    assert_eq!((h.last_network_in, h.last_network_out), (11, 12));
    assert!(m.hosts.get("h2").is_none());
}

#[test]
fn host_in_no_group_is_never_cleared() {
    let mut h = host();
    h.latest_ts = u64::MAX;
    let mut m = mgr(vec![("h1", h)]);
    take(&mut m, stat("h1", u64::MAX - 40), None, NOON);
    m.tick(1000);
    m.tick(2000);
    assert!(m.hosts.get("h1").is_some());
    assert!(m.get_stats().servers[0].online4);
}

#[test]
fn late_host_goes_offline() {
    let mut m = mgr(vec![("h1", host())]);
    let mut s = stat("h1", 100);
    s.notify = false;
    take(&mut m, s, None, NOON);
    let r = m.tick(130);
    assert!(r.serialize && r.notifications.is_empty());
    assert!(m.get_stats().servers[0].online4);
    assert!(!m.tick(130).serialize);
    assert!(m.tick(131).serialize);
    assert!(!m.get_stats().servers[0].online4);
    assert_eq!(m.get_stats().updated, 131);
    assert!(!m.tick(132).serialize);
}

#[test]
fn published_host_that_is_online_reported_in_time() {
    let mut m = mgr(vec![("h1", host()), ("h2", host())]);
    take(&mut m, stat("h1", 100), None, NOON);
    take(&mut m, stat("h2", 120), None, NOON);
    for now in [100, 129, 130, 131, 150, 151, 500] {
        m.tick(now);
        assert_eq!(m.get_stats().servers.len(), 2);
        for s in &m.get_stats().servers {
            let online = s.online4 || s.online6;
            assert_eq!(online, s.latest_ts + CFG.offline_threshold >= now);
            assert!(!(online && s.disabled));
        }
    }
    assert!(m.get_stats().servers.iter().all(|s| s.disabled));
}

#[test]
fn hosts_are_told_of_at_intervals() {
    let mut m = mgr(vec![("h1", host())]);
    take(&mut m, stat("h1", 100), None, NOON);
    let r = m.tick(100);
    assert_eq!(r.notifications.len(), 1);
    assert_eq!(r.notifications[0].event, Event::Custom);
    assert!(m.tick(110).notifications.is_empty());
    assert_eq!(m.tick(111).notifications.len(), 1);
}

#[test]
fn host_is_told_to_be_down_once() {
    let mut m = mgr(vec![("h1", host())]);
    take(&mut m, stat("h1", 100), None, NOON);
    m.tick(100);
    let r = m.tick(131);
    assert_eq!(r.notifications.len(), 1);
    assert_eq!(r.notifications[0].event, Event::NodeDown);
    assert!(r.notifications[0].stat.disabled);
    assert!(r.serialize);
    assert!(m.tick(200).notifications.is_empty());
    assert!(m.stats.get("h1").unwrap().disabled);
    let a = stored(take(&mut m, stat("h1", 210), None, NOON));
    assert!(a.node_up && !a.stat.disabled);
    assert_eq!(m.tick(211).notifications[0].event, Event::Custom);
}

#[test]
fn system_is_added_to_the_labels_once() {
    for (labels, os_release, os_name, expected) in [
        ("", "Debian GNU/Linux 12", "linux", "os=debian"),
        ("a=1", "Ubuntu 24.04", "linux", "a=1;os=ubuntu"),
        ("a=1;os=mine", "Ubuntu 24.04", "linux", "a=1;os=mine"),
        ("", "Alpine", "LINUX", "os=pi"),
        ("", "Something", "LINUX", "os=linux"),
        ("", "Plan 9", "plan9", ""),
    ] {
        let mut h = host();
        h.labels = labels.to_string();
        let mut m = mgr(vec![("h1", h)]);
        let mut s = stat("h1", 100);
        let mut sys = debian();
        sys.os_release = os_release.to_string();
        sys.os_name = os_name.to_string();
        s.sys_info = Some(sys);
        take(&mut m, s, None, NOON);
        m.tick(100);
        assert_eq!(m.get_stats().servers[0].labels, expected);
        m.tick(101);
        assert_eq!(m.get_stats().servers[0].labels, expected);
    }
}

#[test]
fn labels_stay_where_the_system_is_unknown() {
    let mut m = mgr(vec![("h1", host())]);
    take(&mut m, stat("h1", 100), None, NOON);
    m.tick(100);
    assert_eq!(m.get_stats().servers[0].labels, "");
}

#[test]
fn silent_hosts_of_groups_are_forgotten() {
    let mut grouped = host();
    grouped.gid = "g".to_string();
    grouped.latest_ts = 100;
    let mut m = mgr(vec![("h1", host()), ("h2", grouped)]);
    let mut s = stat("h2", 100);
    s.gid = "g".to_string();
    take(&mut m, stat("h1", 100), None, NOON);
    take(&mut m, s, None, NOON);
    m.tick(120);
    assert_eq!(m.stats.entries.len(), 2);
    m.tick(161);
    assert_eq!(m.stats.entries.len(), 2);
    m.tick(182);
    assert_eq!(m.stats.entries.len(), 1);
    assert!(m.hosts.get("h2").is_none());
    assert!(m.hosts.get("h1").is_some());
    assert!(m.stats.get("h1").is_some());
}

#[test]
fn hosts_are_ranked() {
    let mut heavy = host();
    heavy.weight = 20;
    let mut early = host();
    early.pos = 1;
    let mut a = host();
    a.alias = "a".to_string();
    let mut b = host();
    b.alias = "b".to_string();
    let mut m = mgr(vec![("b", b), ("a", a), ("early", early), ("heavy", heavy)]);
    for name in ["b", "a", "early", "heavy"] {
        take(&mut m, stat(name, 1), None, NOON);
    }
    m.tick(1);
    let names: Vec<&str> = m.get_stats().servers.iter().map(|s| s.name.as_str()).collect();
    assert_eq!(names, vec!["heavy", "early", "a", "b"]);
}

#[test]
fn text_is_kept_until_it_is_written_anew() {
    let mut m = mgr(vec![("h1", host())]);
    m.set_stats_json("{\"servers\":[]}".to_string());
    m.tick(5);
    assert_eq!(m.get_stats_json(), "{\"servers\":[]}");
    assert_eq!(m.last_serialized_ts, 0);
}

#[test]
fn report_is_passed_on_where_it_was_read() {
    let m = mgr(vec![]);
    let r = m.report(Some(stat("h1", 1)));
    assert_eq!(r.unwrap().unwrap().name, "h1");
    assert!(m.report(None).unwrap().is_none());
}

#[test]
fn all_is_told_of_the_hosts() {
    let mut m = mgr(vec![]);
    let mut with_disk = stat("h1", 1);
    with_disk.ip_info = Some(address());
    with_disk.disks = vec![DiskInfo {
        name: "a".to_string(),
        mount_point: "/".to_string(),
        file_system: "ext4".to_string(),
        total: 2,
        used: 1,
        free: 1,
    }];
    m.stats_data = StatsResp { updated: 1, servers: vec![with_disk, stat("h2", 2)] };
    let v = m.get_all_info();
    assert_eq!(v.len(), 2);
    assert_eq!(v[0].ip_info.as_ref().unwrap().query, "1.2.3.4");
    assert_eq!(v[0].disks.as_ref().unwrap()[0].mount_point, "/");
    assert!(v[1].ip_info.is_none() && v[1].sys_info.is_none() && v[1].disks.is_none());
}
