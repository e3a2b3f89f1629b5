use server_status::payload::Real;
use server_status::registry::Registry;
use server_status::server::db::{Database, DiskRecord, HostStatRecord};
use server_status::server::history::{history_of, NetValue, Share, SpaceValue, TimeValue};
use server_status::server::stats::StatsMgr;

fn record(timestamp: i64, alias: &str, online: bool) -> HostStatRecord {
    HostStatRecord {
        timestamp,
        alias: alias.to_string(),
        cpu: Real { bits: timestamp as u64 },
        memory_total: 100,
        memory_used: 40,
        network_in: timestamp * 10,
        network_out: timestamp * 20,
        network_in_speed: 1,
        network_out_speed: 2,
        online,
        disks: Vec::new(),
        net_quality: None,
    }
}

fn disk(mount_point: &str, total: i64, used: i64) -> DiskRecord {
    DiskRecord { timestamp: 0, mount_point: mount_point.to_string(), total, used }
}

#[test]
fn series_follow_the_records() {
    let mut second = record(20, "new", false);
    second.memory_total = 0;
    let h = history_of("h1", &vec![record(10, "old", true), second]);
    assert_eq!(h.name, "h1");
    assert_eq!(h.alias, "new");
    assert!(!h.online);
    assert_eq!(h.data_points, 2);
    assert_eq!(
        h.cpu,
        vec![
            TimeValue { timestamp: 10, value: Real { bits: 10 } },
            TimeValue { timestamp: 20, value: Real { bits: 20 } },
        ]
    );
    assert_eq!(
        h.memory,
        vec![
            SpaceValue {
                timestamp: 10,
                value: Some(Share { part: 40, whole: 100 }),
                total: 100,
                used: 40,
            },
            SpaceValue { timestamp: 20, value: None, total: 0, used: 40 },
        ]
    );
    assert_eq!(h.network_in[1], NetValue { timestamp: 20, value: 1, total: 200 });
    assert_eq!(h.network_out[0], NetValue { timestamp: 10, value: 2, total: 200 });
    assert!(h.disks.entries.is_empty());
}

#[test]
fn disks_are_grouped_by_mount_point() {
    let mut a = record(10, "x", true);
    a.disks = vec![disk("/", 10, 5), disk("/data", 0, 7)];
    let mut b = record(20, "x", true);
    b.disks = vec![disk("/", 10, 6), disk("/", 10, 7)];
    let h = history_of("h1", &vec![a, b]);
    let root = h.disks.get("/").unwrap();
    let used: Vec<(i64, i64)> = root.iter().map(|p| (p.timestamp, p.used)).collect();
    assert_eq!(used, vec![(10, 5), (20, 6), (20, 7)]);
    assert_eq!(root[0].value, Some(Share { part: 5, whole: 10 }));
    let data = h.disks.get("/data").unwrap();
    assert_eq!(data.len(), 1);
    assert_eq!(data[0].value, None);
}

#[test]
fn hosts_without_records_are_left_out() {
    let mut r: Registry<Vec<HostStatRecord>> = Registry::new();
    r.insert("none".to_string(), Vec::new());
    r.insert("h1".to_string(), vec![record(1, "a", true)]);
    let v = StatsMgr::get_stats_by_timerange(&r);
    assert_eq!(v.len(), 1);
    assert_eq!(v[0].name, "h1");
    let g = Database::gather_records(vec![
        ("none".to_string(), Vec::new()),
        ("h2".to_string(), vec![record(1, "a", true)]),
        ("h2".to_string(), vec![record(1, "a", true), record(2, "a", true)]),
    ]);
    assert_eq!(g.entries.len(), 1);
    assert_eq!(g.get("h2").unwrap().len(), 2);
}
