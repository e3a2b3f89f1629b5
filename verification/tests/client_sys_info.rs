use server_status::client::sys_info::{
    collect_sys_info, gen_sys_id, get_zfs_pools, to_hex, traffic_totals, tupd_freebsd,
    tupd_linux_optimized, DiskReading, Monitor, NetSpeed, PingReading, Pings, Platform, Readings,
    StatRequest, SystemReadings, Traffic, Tupd,
};
use server_status::client::Args;
use server_status::payload::SysInfo;

const LINUX: Platform = Platform { macos: false, windows: false };
const MACOS: Platform = Platform { macos: true, windows: false };
const WINDOWS: Platform = Platform { macos: false, windows: true };

fn args() -> Args {
    Args {
        addr: String::new(),
        user: "h1".to_string(),
        pass: String::new(),
        gid: String::new(),
        mtls: false,
        tls_dir: String::new(),
        lite: false,
        debug: false,
        report_interval: 1,
        vnstat: false,
        disable_tupd: false,
        disable_ping: false,
        online: 0,
        ipv4_address: String::new(),
        ipv6_address: String::new(),
        cu_addr: String::new(),
        ct_addr: String::new(),
        cm_addr: String::new(),
    }
}

fn no_tupd() -> Tupd {
    Tupd { tcp: 0, udp: 0, process: 0, thread: 0 }
}

fn stat() -> StatRequest {
    StatRequest {
        version: String::new(),
        vnstat: false,
        online4: false,
        online6: true,
        uptime: 0,
        memory_total: 0,
        memory_used: 0,
        swap_total: 0,
        swap_used: 0,
        hdd_total: 0,
        hdd_used: 0,
        network_in: 0,
        network_out: 0,
        last_network_in: 0,
        last_network_out: 0,
        network_rx: 0,
        network_tx: 0,
        tupd: no_tupd(),
        pings: Pings {
            ping_10010: 1,
            time_10010: 2,
            ping_189: 3,
            time_189: 4,
            ping_10086: 5,
            time_10086: 6,
        },
        disks: Vec::new(),
    }
}

fn readings() -> Readings {
    Readings {
        version: "1.2.3".to_string(),
        uptime: 77,
        memory_total: 4096 * 1024,
        memory_available: 1024 * 1024,
        memory_used: 2048 * 1024,
        swap_total: 2000 * 1024,
        swap_free: 500 * 1024,
        disks: Vec::new(),
        zpool_output: None,
        vnstat_traffic: None,
        networks: Vec::new(),
        tupd: Tupd { tcp: 1, udp: 2, process: 3, thread: 3 },
        net_speed: None,
        ping_10010: None,
        ping_189: None,
        ping_10086: None,
    }
}

fn disk(name: &str, fs: &str, total: u64, available: u64) -> DiskReading {
    DiskReading {
        name: name.to_string(),
        mount_point: format!("/{name}"),
        file_system: fs.to_string(),
        total,
        available,
    }
}

#[test]
fn traffic_is_summed_over_the_interfaces_that_count() {
    let v = vec![
        Traffic { skipped: false, rx: 10, tx: 1 },
        Traffic { skipped: true, rx: 100, tx: 100 },
        Traffic { skipped: false, rx: 5, tx: 2 },
    ];
    assert_eq!(traffic_totals(&v), Some(NetSpeed { net_rx: 15, net_tx: 3 }));
    assert_eq!(traffic_totals(&vec![]), Some(NetSpeed::default()));
}

#[test]
fn too_much_traffic_is_told() {
    let v = vec![
        Traffic { skipped: false, rx: u64::MAX, tx: 0 },
        Traffic { skipped: false, rx: 1, tx: 0 },
    ];
    assert_eq!(traffic_totals(&v), None);
    let w = vec![
        Traffic { skipped: false, rx: 0, tx: u64::MAX },
        Traffic { skipped: true, rx: 0, tx: 1 },
    ];
    assert_eq!(traffic_totals(&w), Some(NetSpeed { net_rx: 0, net_tx: u64::MAX }));
}

#[test]
fn linux_connections_are_counted() {
    let names: Vec<String> =
        ["1", "42", "self", "9x", "", "7"].iter().map(|s| s.to_string()).collect();
    let t = tupd_linux_optimized(Some("head\na\nb\n"), Some("head\n"), &names);
    assert_eq!(t, Tupd { tcp: 2, udp: 0, process: 4, thread: 4 });
    let t = tupd_linux_optimized(Some(""), None, &Vec::new());
    assert_eq!(t, no_tupd());
}

#[test]
fn freebsd_connections_are_counted() {
    let t = tupd_freebsd(
        Some("tcp4 a ESTABLISHED\ntcp4 b LISTEN\ntcp6 c ESTABLISHED\n"),
        Some("Active Internet connections\nProto\nudp4\n"),
        Some("PID\n1\n2\n3\n"),
    );
    assert_eq!(t, Tupd { tcp: 2, udp: 2, process: 3, thread: 3 });
    assert_eq!(tupd_freebsd(None, None, None), no_tupd());
    assert_eq!(tupd_freebsd(Some(""), Some(""), Some("")), no_tupd());
}

#[test]
fn pools_are_read() {
    let v = get_zfs_pools(Some("tank\t1000\t400\nbad\t1\nodd\tx\t7\tmore\n"));
    assert_eq!(v.len(), 2);
    assert_eq!(v[0].name, "zpool-tank");
    assert_eq!(v[0].mount_point, "/tank");
    assert_eq!(v[0].file_system, "zfs");
    assert_eq!((v[0].total, v[0].used, v[0].free), (1000, 400, 600));
    assert_eq!(v[1].name, "zpool-odd");
    assert_eq!((v[1].total, v[1].used, v[1].free), (0, 7, 0));
    assert!(get_zfs_pools(None).is_empty());
}

#[test]
fn sample_reports_memory_and_traffic() {
    let mut m = Monitor::new();
    let mut s = stat();
    let mut r = readings();
    r.networks = vec![Traffic { skipped: false, rx: 10, tx: 20 }];
    r.net_speed = Some(NetSpeed { net_rx: 3, net_tx: 4 });
    r.ping_189 = Some(PingReading { loss: 50, time: 60 });
    assert!(m.try_sample(&args(), LINUX, &r, &mut s));
    assert_eq!(s.version, "1.2.3");
    assert_eq!(s.uptime, 77);
    assert_eq!((s.memory_total, s.memory_used), (4096, 2048));
    assert_eq!((s.swap_total, s.swap_used), (2000, 1500));
    assert_eq!((s.network_in, s.network_out), (10, 20));
    assert_eq!((s.network_rx, s.network_tx), (3, 4));
    assert_eq!(s.tupd, Tupd { tcp: 1, udp: 2, process: 3, thread: 3 });
    assert_eq!((s.pings.ping_189, s.pings.time_189), (50, 60));
    assert_eq!((s.pings.ping_10010, s.pings.time_10086), (1, 6));
    assert!(s.online6 && !s.online4);
}

#[test]
fn macos_counts_memory_and_disks_otherwise() {
    let mut m = Monitor::new();
    let mut s = stat();
    let mut r = readings();
    r.disks = vec![disk("a", "apfs", 5_000_000, 2_000_000)];
    assert!(m.try_sample(&args(), MACOS, &r, &mut s));
    assert_eq!(s.memory_used, 3072);
    assert_eq!((s.hdd_total, s.hdd_used), (5, 3));
}

#[test]
fn disks_are_picked() {
    let mut m = Monitor::new();
    let mut s = stat();
    let mut r = readings();
    r.disks = vec![
        disk("a", "EXT4", 3 << 20, 1 << 20),
        disk("a", "ext4", 9 << 20, 0),
        disk("b", "tmpfs", 9 << 20, 0),
        disk("c", "xfs", 1 << 20, 1 << 20),
    ];
    assert!(m.try_sample(&args(), LINUX, &r, &mut s));
    let names: Vec<&str> = s.disks.iter().map(|d| d.name.as_str()).collect();
    assert_eq!(names, vec!["a", "c"]);
    assert_eq!(s.disks[0].file_system, "ext4");
    assert_eq!(s.disks[0].used, 2 << 20);
    assert_eq!((s.hdd_total, s.hdd_used), (4, 2));
    assert!(m.try_sample(&args(), WINDOWS, &r, &mut s));
    assert_eq!(s.disks.len(), 3);
    assert_eq!((s.hdd_total, s.hdd_used), (13, 11));
}

#[test]
fn disk_that_is_not_reported_may_have_any_space() {
    let mut m = Monitor::new();
    let mut s = stat();
    let mut r = readings();
    r.disks = vec![disk("a", "ext4", 3, 1), disk("a", "ext4", 1, 2), disk("b", "tmpfs", 0, 1)];
    assert!(m.try_sample(&args(), LINUX, &r, &mut s));
    assert_eq!(s.disks.len(), 1);
    assert!(!m.try_sample(&args(), WINDOWS, &r, &mut s));
    r.disks = vec![disk("a", "ext4", 1, 2), disk("a", "ext4", 3, 1)];
    assert!(!m.try_sample(&args(), LINUX, &r, &mut s));
}

#[test]
fn pools_are_listed_every_tenth_sample() {
    let mut m = Monitor::new();
    let mut s = stat();
    let mut r = readings();
    r.disks = vec![disk("tank/a", "zfs", 1, 1)];
    assert!(m.wants_pools(&r.disks));
    r.zpool_output = Some("tank\t2097152\t1048576\n".to_string());
    assert!(m.try_sample(&args(), LINUX, &r, &mut s));
    assert_eq!(s.disks.len(), 1);
    assert_eq!((s.hdd_total, s.hdd_used), (2, 1));
    r.zpool_output = None;
    for _ in 0..9 {
        assert!(!m.wants_pools(&r.disks));
        assert!(m.try_sample(&args(), LINUX, &r, &mut s));
        assert_eq!(s.disks[0].name, "zpool-tank");
    }
    assert!(m.wants_pools(&r.disks));
    assert!(m.try_sample(&args(), LINUX, &r, &mut s));
    assert!(s.disks.is_empty());
    assert!(!m.wants_pools(&vec![disk("a", "ext4", 1, 1)]));
}

#[test]
fn pools_are_kept_whatever_is_read() {
    let mut m = Monitor::new();
    let mut s = stat();
    let mut r = readings();
    r.disks = vec![disk("tank/a", "zfs", 1, 1)];
    r.zpool_output = Some("tank\t2097152\t1048576\n".to_string());
    assert!(m.try_sample(&args(), LINUX, &r, &mut s));
    for i in 0..9 {
        r.disks = vec![disk("a", "ext4", 2, 1)];
        assert!(m.try_sample(&args(), LINUX, &r, &mut s));
        assert_eq!(s.disks.len(), 1);
        r.disks = vec![disk("a", "ext4", 2, 1), disk(&format!("tank/{i}"), "ZFS", 1, 1)];
        r.zpool_output = Some(format!("other{i}\t1\t1\n"));
        assert!(!m.wants_pools(&r.disks));
        assert!(m.try_sample(&args(), LINUX, &r, &mut s));
        assert_eq!(s.disks[1].name, "zpool-tank");
    }
    assert!(m.wants_pools(&r.disks));
    assert!(m.try_sample(&args(), LINUX, &r, &mut s));
    assert_eq!(s.disks[1].name, "zpool-other8");
}

#[test]
fn vnstat_counts_the_month() {
    let mut m = Monitor::new();
    let mut s = stat();
    let mut r = readings();
    let mut a = args();
    a.vnstat = true;
    a.disable_tupd = true;
    r.vnstat_traffic = Some((100, 200, 30, 50));
    assert!(m.try_sample(&a, LINUX, &r, &mut s));
    assert!(s.vnstat);
    assert_eq!((s.network_in, s.network_out), (100, 200));
    assert_eq!((s.last_network_in, s.last_network_out), (70, 150));
    assert_eq!(s.tupd, no_tupd());
    r.vnstat_traffic = None;
    r.networks = vec![Traffic { skipped: false, rx: 1, tx: 1 }];
    assert!(m.try_sample(&a, LINUX, &r, &mut s));
    assert_eq!((s.network_in, s.last_network_in), (100, 70));
}

#[test]
fn readings_without_sense_are_refused() {
    let m = Monitor::new();
    let mut r = readings();
    r.swap_free = r.swap_total + 1;
    assert!(!m.can_sample(&args(), LINUX, &r));
    let mut r = readings();
    r.memory_available = r.memory_total + 1;
    assert!(m.can_sample(&args(), LINUX, &r));
    assert!(!m.can_sample(&args(), MACOS, &r));
    let mut r = readings();
    r.disks = vec![disk("a", "ext4", 1, 2)];
    assert!(!m.can_sample(&args(), LINUX, &r));
    r.disks = vec![disk("a", "tmpfs", 1, 2)];
    assert!(m.can_sample(&args(), LINUX, &r));
    r.disks = vec![disk("a", "ext4", u64::MAX, 0), disk("b", "ext4", 1, 0)];
    assert!(!m.can_sample(&args(), LINUX, &r));
    let mut r = readings();
    r.networks = vec![
        Traffic { skipped: false, rx: u64::MAX, tx: 0 },
        Traffic { skipped: false, rx: 1, tx: 0 },
    ];
    assert!(!m.can_sample(&args(), LINUX, &r));
    let mut a = args();
    a.vnstat = true;
    assert!(m.can_sample(&a, LINUX, &r));
    r.vnstat_traffic = Some((1, 1, 2, 0));
    assert!(!m.can_sample(&a, LINUX, &r));
}

#[test]
fn refused_readings_change_nothing() {
    let mut m = Monitor::new();
    let mut s = stat();
    let mut r = readings();
    r.swap_free = r.swap_total + 1;
    assert!(!m.try_sample(&args(), LINUX, &r, &mut s));
    assert_eq!(s.version, "");
    assert_eq!(m.zfs_tick, 0);
}

#[test]
fn system_is_described() {
    let r = SystemReadings {
        version: "1.0".to_string(),
        os_name: "linux".to_string(),
        os_arch: "x86_64".to_string(),
        os_family: "unix".to_string(),
        os_release: Some("Debian 12".to_string()),
        kernel_version: None,
        host_name: Some("box".to_string()),
        cpus: vec![
            ("Some CPU".to_string(), "Vendor".to_string()),
            ("Other CPU".to_string(), "Other".to_string()),
        ],
    };
    let i = collect_sys_info(&args(), &r);
    assert_eq!(i.name, "h1");
    assert_eq!(i.os_release, "Debian 12");
    assert_eq!(i.kernel_version, "");
    assert_eq!(i.cpu_num, 2);
    assert_eq!(i.cpu_brand, "Some CPU");
    assert_eq!(i.cpu_vender_id, "Vendor");
    assert_eq!(i.host_name, "box");
}

fn info() -> SysInfo {
    SysInfo {
        name: "h1".to_string(),
        version: "1.0".to_string(),
        os_name: "linux".to_string(),
        os_arch: "x86_64".to_string(),
        os_family: "unix".to_string(),
        os_release: "Debian 12".to_string(),
        kernel_version: "6.1.0".to_string(),
        cpu_num: 1,
        cpu_brand: "Some CPU".to_string(),
        cpu_vender_id: "Vendor".to_string(),
        host_name: "box".to_string(),
    }
}

#[test]
fn new_identifier_is_a_digest() {
    let id = gen_sys_id(None, &info(), 1700000000);
    assert!(id.is_new);
    assert_eq!(id.id, "2ce186f05b68e9ef2d280687b366b6bb");
    let again = gen_sys_id(Some(""), &info(), 1700000000);
    assert!(again.is_new);
    assert_eq!(again.id, id.id);
}

#[test]
fn saved_identifier_is_kept() {
    let id = gen_sys_id(None, &info(), 5);
    let read = gen_sys_id(Some(&format!("{}\n", id.id)), &info(), 6);
    assert!(!read.is_new);
    assert_eq!(read.id, id.id);
    assert_ne!(gen_sys_id(None, &info(), 6).id, id.id);
    assert_eq!(gen_sys_id(Some(" \n"), &info(), 6).id, "");
}

#[test]
fn bytes_are_written_in_hexadecimal() {
    assert_eq!(to_hex(&vec![0, 9, 10, 15, 16, 255]), "00090a0f10ff");
    assert_eq!(to_hex(&vec![]), "");
}
