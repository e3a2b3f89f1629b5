use server_status::payload::{DiskInfo, HostStat, Metrics, Real};
use server_status::server::db::{
    Aggregation, Database, HostStep, NetQualityRecord, PeriodSums, Periods, QualityReadings,
    QualitySums, ReportRow, RowReadings, CLEAR, COMPACT, DAY, INSERT_DISK, INSERT_DISK_SUMS, INSERT_HOST,
    INSERT_STAT, INSERT_SUMS, PRAGMAS, SELECT_DISK_SUMS, SELECT_EARLIEST, SELECT_HOST,
    SELECT_HOSTS, SELECT_HOST_IDS, SELECT_LAST_PERIOD, SELECT_NETWORK, SELECT_PERIODS,
    SELECT_REPORTS, SELECT_SUMS, UPDATE_ALIAS, UPSERT_NETWORK,
};

fn bits(bits: u64) -> Real {
    Real { bits }
}

fn stat() -> HostStat {
    HostStat {
        name: "h1".to_string(),
        alias: "one".to_string(),
        gid: String::new(),
        location: String::new(),
        host_type: String::new(),
        labels: String::new(),
        version: String::new(),
        uptime_str: String::new(),
        notify: true,
        vnstat: false,
        disabled: false,
        online4: false,
        online6: true,
        si: false,
        pos: 0,
        weight: 0,
        latest_ts: 1234,
        uptime: 0,
        network_in: 5,
        network_out: 6,
        last_network_in: 0,
        last_network_out: 0,
        ip_info: None,
        sys_info: None,
        disks: vec![
            DiskInfo {
                name: "a".to_string(),
                mount_point: "/".to_string(),
                file_system: "ext4".to_string(),
                total: 9,
                used: 4,
                free: 5,
            },
            DiskInfo {
                name: "b".to_string(),
                mount_point: "/data".to_string(),
                file_system: "xfs".to_string(),
                total: 8,
                used: 8,
                free: 0,
            },
        ],
        metrics: Metrics {
            load_1: bits(1),
            load_5: bits(2),
            load_15: bits(3),
            cpu: bits(4),
            memory_total: 100,
            memory_used: 50,
            swap_total: 0,
            swap_used: 0,
            hdd_total: 0,
            hdd_used: 0,
            network_rx: 7,
            network_tx: 8,
            tcp: 0,
            udp: 0,
            process: 0,
            thread: 0,
            ping_10010: bits(11),
            ping_189: bits(12),
            ping_10086: bits(13),
            time_10010: bits(14),
            time_189: bits(15),
            time_10086: bits(16),
        },
    }
}

#[test]
fn new_database_gets_its_tables() {
    let p = Database::new(false);
    assert_eq!(p.pragmas, PRAGMAS);
    assert_eq!(p.create.len(), 11);
    assert!(p.create[0].starts_with("CREATE TABLE IF NOT EXISTS hosts"));
    assert!(p.create[10].contains("idx_stats_timestamp"));
    assert!(p.migrate.is_empty());
}

#[test]
fn older_database_gets_its_columns() {
    let p = Database::new(true);
    assert!(p.create.is_empty());
    assert_eq!(p.migrate.len(), 18);
    assert_eq!(p.migrate[0], "ALTER TABLE stats ADD COLUMN ping_10010 REAL DEFAULT 0");
    assert_eq!(p.migrate[17], "ALTER TABLE aggregated_stats ADD COLUMN t_cm_avg REAL DEFAULT 0");
}

#[test]
fn tables_can_be_made() {
    let conn = rusqlite::Connection::open_in_memory().unwrap();
    conn.execute_batch(PRAGMAS).unwrap();
    for sql in Database::init_db() {
        conn.execute(sql, []).unwrap();
    }
    for sql in Database::try_migrate() {
        assert!(conn.execute(&sql, []).is_err());
    }
    let n: i64 = conn
        .query_row("SELECT count(*) FROM sqlite_master WHERE type = 'table'", [], |r| r.get(0))
        .unwrap();
    assert_eq!(n, 6);
}

#[test]
fn host_is_entered_once() {
    assert!(matches!(
        Database::ensure_host_exists(Some(3), &stat()),
        HostStep::Rename(3, alias) if alias == "one"
    ));
    assert!(matches!(
        Database::ensure_host_exists(None, &stat()),
        HostStep::Insert(name, alias) if name == "h1" && alias == "one"
    ));
    let mut s = stat();
    s.alias = String::new();
    assert!(matches!(Database::ensure_host_exists(Some(3), &s), HostStep::Keep(3)));
}

#[test]
fn report_is_stored() {
    let (row, disks) = Database::save_stat(7, &stat());
    assert_eq!((row.host_id, row.timestamp), (7, 1234));
    assert_eq!((row.cpu_usage, row.memory_total, row.memory_used), (bits(4), 100, 50));
    assert_eq!((row.network_in, row.network_out), (5, 6));
    assert_eq!((row.network_in_speed, row.network_out_speed), (7, 8));
    assert!(row.online);
    assert_eq!((row.ping_10010, row.ping_189, row.ping_10086), (bits(11), bits(12), bits(13)));
    assert_eq!((row.time_10010, row.time_189, row.time_10086), (bits(14), bits(15), bits(16)));
    assert_eq!(disks.len(), 2);
    assert_eq!(disks[1].mount_point, "/data");
    assert_eq!((disks[1].host_id, disks[1].timestamp), (7, 1234));
    assert_eq!((disks[0].total, disks[0].used), (9, 4));
}

#[test]
fn counters_are_stored_and_read_back() {
    for n in [0, 1, i64::MAX as u64, i64::MAX as u64 + 1, u64::MAX] {
        let row = Database::last_network_row(Some(1), n, 5, 99).unwrap();
        assert_eq!(row.network_in, n as i64);
        assert_eq!((row.host_id, row.network_out, row.updated_at), (1, 5, 99));
        let v = Database::get_last_network_data(&vec![("h".to_string(), row.network_in, 5)]);
        assert_eq!(v, vec![("h".to_string(), n, 5)]);
    }
    assert!(Database::last_network_row(None, 1, 2, 3).is_none());
    assert!(Database::update_last_network(None, 1, 2).is_none());
    let row = Database::update_last_network(Some(4), 1, 2).unwrap();
    assert_eq!((row.host_id, row.network_in, row.network_out), (4, 1, 2));
    assert!(row.updated_at > 1_600_000_000);
}

fn all(mut p: Periods) -> Vec<(i64, i64)> {
    let mut v = Vec::new();
    while let Some(x) = p.next() {
        v.push(x);
    }
    v
}

#[test]
fn periods_lie_side_by_side() {
    let p = Database::plan_aggregation(Some(100), 7, 5, 1000);
    assert_eq!((p.current, p.end, p.step), (100, 900, 300));
    assert_eq!(all(p), vec![(100, 400), (400, 700), (700, 1000)]);
    assert_eq!(all(Database::plan_aggregation(None, 600, 5, 1000)), vec![(600, 900)]);
    assert!(all(Database::plan_aggregation(Some(900), 0, 5, 1000)).is_empty());
    assert!(all(Database::plan_aggregation(Some(901), 0, 5, 1000)).is_empty());
}

#[test]
fn periods_before_the_epoch() {
    let p = Database::plan_aggregation(Some(-1000), 0, 5, -100);
    assert_eq!(p.end, 0);
    assert_eq!(all(p).len(), 4);
    assert_eq!(Database::plan_aggregation(None, 0, 5, -700).end, -600);
    assert_eq!(Database::plan_aggregation(None, 0, 5, i64::MIN).end, i64::MIN / 300 * 300);
}

#[test]
fn periods_up_to_now() {
    let p = Database::aggregate_data(None, 0, 30);
    assert_eq!(p.current, 0);
    assert_eq!(p.step, 1800);
    assert_eq!(p.end % 1800, 0);
    assert!(p.end > 1_600_000_000);
    assert_eq!(Database::run_scheduled_aggregation(), vec![5, 30]);
}

fn no_quality() -> QualitySums {
    QualitySums {
        p_cu_avg: None,
        p_cu_min: None,
        p_cu_max: None,
        t_cu_avg: None,
        p_ct_avg: None,
        p_ct_min: None,
        p_ct_max: None,
        t_ct_avg: None,
        p_cm_avg: None,
        p_cm_min: None,
        p_cm_max: None,
        t_cm_avg: None,
    }
}

#[test]
fn period_is_summed_up() {
    let mut sums = PeriodSums {
        cpu_usage: Some(bits(1)),
        memory_total: None,
        memory_used: Some(bits(2)),
        network_in: Some(3),
        network_out: None,
        network_in_speed: None,
        network_out_speed: Some(bits(4)),
        online: None,
        quality: no_quality(),
    };
    sums.quality.p_ct_max = Some(bits(9));
    let row = Database::aggregate_period(7, 300, 5, &sums).unwrap();
    assert_eq!((row.host_id, row.timestamp, row.interval_minutes), (7, 300, 5));
    assert_eq!((row.cpu_usage, row.memory_total, row.memory_used), (bits(1), bits(0), bits(2)));
    assert_eq!((row.network_in, row.network_out), (3, 0));
    assert_eq!((row.network_in_speed, row.network_out_speed), (bits(0), bits(4)));
    assert!(!row.online);
    assert_eq!((row.quality.p_ct_max, row.quality.p_cu_avg), (bits(9), bits(0)));
    assert_eq!(f64::from_bits(row.memory_total.bits), 0.0);
    sums.cpu_usage = None;
    assert!(Database::aggregate_period(7, 300, 5, &sums).is_none());
}

#[test]
fn old_data_is_cleared() {
    let c = Database::cutoffs_at(1_000_000_000, 3, 90);
    assert_eq!((c.raw, c.aggregated), (1_000_000_000 - 259_200, 1_000_000_000 - 7_776_000));
    let c = Database::cleanup_old_data(0, 1);
    assert_eq!(c.raw - c.aggregated, DAY);
    assert!(c.raw > 1_600_000_000);
    let c = Database::optimize();
    assert_eq!(c.raw - c.aggregated, 87 * DAY);
}

#[test]
fn span_is_read_in_periods_that_fit() {
    for (range, interval) in
        [(0, 0), (-5, 0), (DAY, 0), (DAY + 1, 5), (3 * DAY, 5), (3 * DAY + 1, 30)]
    {
        let q = Database::get_stats_by_timerange(1000, 1000 + range);
        assert_eq!((q.start, q.end, q.interval, q.limit), (1000, 1000 + range, interval, 1000));
    }
}

#[test]
fn statement_follows_the_length_of_the_span() {
    let q = Database::get_stats_by_timerange(0, DAY);
    assert!(!q.in_periods());
    assert_eq!(q.statement(), SELECT_REPORTS);
    assert_eq!(q.arguments(7), vec![7, 0, DAY, 1000]);
    let q = Database::get_stats_by_timerange(0, DAY + 1);
    assert!(q.in_periods());
    assert_eq!(q.statement(), SELECT_PERIODS);
    assert_eq!(q.arguments(7), vec![7, 0, DAY + 1, 5, 1000]);
    let q = Database::get_stats_by_timerange(0, 4 * DAY);
    assert_eq!(q.statement(), SELECT_PERIODS);
    assert_eq!(q.arguments(7), vec![7, 0, 4 * DAY, 30, 1000]);
}

fn double(x: f64) -> Real {
    Real { bits: x.to_bits() }
}

fn insert(conn: &rusqlite::Connection, id: i64, c: &ReportRow) {
    conn.execute(
        INSERT_STAT,
        (
            id,
            c.timestamp,
            number(c.cpu_usage),
            c.memory_total,
            c.memory_used,
            c.network_in,
            c.network_out,
            c.network_in_speed,
            c.network_out_speed,
            c.online,
            number(c.ping_10010),
            number(c.ping_189),
            number(c.ping_10086),
            number(c.time_10010),
            number(c.time_189),
            number(c.time_10086),
        ),
    )
    .unwrap();
}

#[test]
fn stored_report_is_read_back() {
    let conn = rusqlite::Connection::open_in_memory().unwrap();
    for sql in Database::init_db() {
        conn.execute(sql, []).unwrap();
    }
    conn.execute(INSERT_HOST, ("h1", "one")).unwrap();
    let id: i64 = conn.query_row(SELECT_HOST, ["h1"], |r| r.get(0)).unwrap();
    let mut s = stat();
    s.metrics.cpu = double(0.5);
    s.metrics.ping_10010 = double(1.0);
    s.metrics.ping_189 = double(2.0);
    s.metrics.ping_10086 = double(3.0);
    s.metrics.time_10010 = double(40.0);
    s.metrics.time_189 = double(50.0);
    s.metrics.time_10086 = double(60.0);
    let (row, _) = Database::save_stat(id, &s);
    let columns = row.columns().unwrap();
    insert(&conn, id, &columns);
    let q = Database::get_stats_by_timerange(0, 5000);
    let read = conn
        .query_row(q.statement(), rusqlite::params_from_iter(q.arguments(id)), |r| {
            Ok(ReportRow {
                timestamp: r.get("timestamp")?,
                cpu_usage: double(r.get("cpu_usage")?),
                memory_total: r.get("memory_total")?,
                memory_used: r.get("memory_used")?,
                network_in: r.get("network_in")?,
                network_out: r.get("network_out")?,
                network_in_speed: r.get("network_in_speed")?,
                network_out_speed: r.get("network_out_speed")?,
                online: r.get("online")?,
                ping_10010: double(r.get("ping_10010")?),
                ping_189: double(r.get("ping_189")?),
                ping_10086: double(r.get("ping_10086")?),
                time_10010: double(r.get("time_10010")?),
                time_189: double(r.get("time_189")?),
                time_10086: double(r.get("time_10086")?),
            })
        })
        .unwrap();
    assert_eq!(read, columns);
    let r = Database::report_record(&read, "one");
    assert_eq!((r.timestamp, r.cpu), (1234, double(0.5)));
    assert_eq!((r.network_in, r.network_out, r.online), (5, 6, true));
    let n = r.net_quality.unwrap();
    assert_eq!((n.p_cu_avg, n.p_cu_min, n.p_cu_max), (double(1.0), double(1.0), double(1.0)));
    assert_eq!((n.p_ct_avg, n.p_cm_avg), (double(2.0), double(3.0)));
    assert_eq!((n.t_cu_avg, n.t_ct_avg, n.t_cm_avg), (double(40.0), double(50.0), double(60.0)));
}

#[test]
fn number_that_is_too_large_is_not_stored() {
    let mut s = stat();
    s.network_out = i64::MAX as u64;
    assert_eq!(Database::save_stat(1, &s).0.columns().unwrap().network_out, i64::MAX);
    s.network_out += 1;
    assert!(Database::save_stat(1, &s).0.columns().is_none());
}

fn planned(plan: Periods) -> Vec<(i64, i64)> {
    let mut plan = plan;
    let mut v = Vec::new();
    while let Some(x) = plan.next() {
        v.push(x);
    }
    v
}

#[test]
fn summing_up_again_starts_with_the_last_period() {
    let first = planned(Database::plan_aggregation(None, 100, 5, 1000));
    assert_eq!(first, vec![(100, 400), (400, 700), (700, 1000)]);
    for (k, (from, _)) in first.iter().enumerate() {
        let again = planned(Database::plan_aggregation(Some(*from), 100, 5, 1199));
        assert_eq!(again, first[k..]);
    }
}

#[test]
fn summing_up_again_changes_nothing() {
    let conn = rusqlite::Connection::open_in_memory().unwrap();
    for sql in Database::init_db() {
        conn.execute(sql, []).unwrap();
    }
    conn.execute(INSERT_HOST, ("h1", "one")).unwrap();
    for ts in [100, 200, 450, 800] {
        let mut s = stat();
        s.latest_ts = ts;
        s.metrics.cpu = double(ts as f64);
        let (row, disks) = Database::save_stat(1, &s);
        insert(&conn, 1, &row.columns().unwrap());
        for d in disks {
            conn.execute(INSERT_DISK, (d.host_id, d.timestamp, d.mount_point, d.total, d.used))
                .unwrap();
        }
    }
    let mut tables = Vec::new();
    let mut last: Option<i64> = None;
    for now in [1000, 1199] {
        let plan = Database::plan_aggregation(last, 100, 5, now);
        let mut run = Aggregation::new(vec![1], plan);
        while let Some((host, from, to)) = run.next() {
            let cpu: Option<f64> =
                conn.query_row(SELECT_SUMS, (host, from, to), |r| r.get(0)).unwrap();
            let mut sums = Vec::<rusqlite::types::Value>::new();
            sums.extend([host.into(), from.into(), 5i64.into(), cpu.unwrap().into()]);
            sums.extend((4..23).map(|_| rusqlite::types::Value::from(0i64)));
            conn.execute(INSERT_SUMS, rusqlite::params_from_iter(sums)).unwrap();
            let disk: (String, f64, f64) = conn
                .query_row(SELECT_DISK_SUMS, (host, from, to), |r| {
                    Ok((r.get(0)?, r.get(1)?, r.get(2)?))
                })
                .unwrap();
            conn.execute(INSERT_DISK_SUMS, (host, from, 5i64, disk.0, disk.1, disk.2)).unwrap();
        }
        last = conn.query_row(SELECT_LAST_PERIOD, [5i64], |r| r.get(0)).unwrap();
        let mut stmt = conn
            .prepare("SELECT timestamp, cpu_usage FROM aggregated_stats ORDER BY timestamp")
            .unwrap();
        let rows: Vec<(i64, f64)> = stmt
            .query_map([], |r| Ok((r.get(0)?, r.get(1)?)))
            .unwrap()
            .map(|r| r.unwrap())
            .collect();
        let disks: i64 = conn
            .query_row("SELECT COUNT(*) FROM aggregated_disk_stats", [], |r| r.get(0))
            .unwrap();
        tables.push((rows, disks));
    }
    assert_eq!(tables[0], (vec![(100, 150.0), (400, 450.0), (700, 800.0)], 3));
    assert_eq!(tables[1], tables[0]);
}

#[test]
fn rows_become_records() {
    let columns = ReportRow {
        timestamp: 5,
        cpu_usage: bits(1),
        memory_total: 2,
        memory_used: 3,
        network_in: 4,
        network_out: 5,
        network_in_speed: 6,
        network_out_speed: 7,
        online: true,
        ping_10010: bits(1),
        ping_189: bits(2),
        ping_10086: bits(3),
        time_10010: bits(4),
        time_189: bits(5),
        time_10086: bits(6),
    };
    let row: RowReadings = columns.readings();
    assert_eq!(
        columns.quality(),
        QualityReadings {
            p_cu: bits(1),
            p_ct: bits(2),
            p_cm: bits(3),
            t_cu: bits(4),
            t_ct: bits(5),
            t_cm: bits(6),
        }
    );
    let r = Database::report_record(&columns, "one");
    assert_eq!((r.timestamp, r.alias.as_str(), r.cpu), (5, "one", bits(1)));
    assert_eq!((r.memory_total, r.memory_used), (2, 3));
    assert_eq!((r.network_in, r.network_out), (4, 5));
    assert_eq!((r.network_in_speed, r.network_out_speed, r.online), (6, 7, true));
    assert!(r.disks.is_empty());
    let n: NetQualityRecord = r.net_quality.unwrap();
    assert_eq!((n.p_ct_avg, n.p_ct_min, n.p_ct_max, n.t_ct_avg), (bits(2), bits(2), bits(2), bits(5)));
    assert_eq!((n.p_cm_max, n.t_cm_avg, n.p_cu_min, n.t_cu_avg), (bits(3), bits(6), bits(1), bits(4)));
    let p = Database::period_record(&row, n, "two");
    assert_eq!(p.alias, "two");
    assert_eq!(p.net_quality, Some(n));
}

#[test]
fn hosts_are_summed_up_in_turn() {
    let plan = Database::plan_aggregation(Some(0), 0, 5, 700);
    let mut a = Aggregation::new(vec![7, 9], plan);
    let mut v = Vec::new();
    while let Some(x) = a.next() {
        v.push(x);
    }
    assert_eq!(v, vec![(7, 0, 300), (7, 300, 600), (9, 0, 300), (9, 300, 600)]);
    assert!(a.next().is_none());
    let none = Database::plan_aggregation(Some(600), 0, 5, 700);
    assert!(Aggregation::new(vec![7, 9], none).next().is_none());
    assert!(Aggregation::new(vec![], plan).next().is_none());
}

#[test]
fn disks_are_summed_up() {
    let v = Database::aggregate_disks(7, 300, 5, &vec![("/".to_string(), bits(1), bits(2))]);
    assert_eq!(v.len(), 1);
    assert_eq!((v[0].host_id, v[0].timestamp, v[0].interval_minutes), (7, 300, 5));
    assert_eq!((v[0].mount_point.as_str(), v[0].total, v[0].used), ("/", bits(1), bits(2)));
}

#[test]
fn statements_clear_what_is_older() {
    let c = Database::cutoffs_at(1_000_000_000, 3, 90);
    assert_eq!(
        c.statements(),
        [(CLEAR[0], c.raw), (CLEAR[1], c.raw), (CLEAR[2], c.aggregated), (CLEAR[3], c.aggregated)]
    );
}

fn number(x: Real) -> f64 {
    f64::from_bits(x.bits)
}

#[test]
fn statements_fit_the_tables() {
    let conn = rusqlite::Connection::open_in_memory().unwrap();
    for sql in Database::init_db() {
        conn.execute(sql, []).unwrap();
    }
    conn.execute(INSERT_HOST, ("h1", "")).unwrap();
    let id: i64 = conn.query_row(SELECT_HOST, ["h1"], |r| r.get(0)).unwrap();
    conn.execute(UPDATE_ALIAS, ("one", id)).unwrap();
    let mut s = stat();
    s.metrics.cpu = Real { bits: 2.5f64.to_bits() };
    for ts in [100u64, 200, 400] {
        s.latest_ts = ts;
        let (row, disks) = Database::save_stat(id, &s);
        conn.execute(
            INSERT_STAT,
            (
                row.host_id,
                row.timestamp,
                number(row.cpu_usage),
                row.memory_total,
                row.memory_used,
                row.network_in,
                row.network_out,
                row.network_in_speed,
                row.network_out_speed,
                row.online,
                1.0,
                2.0,
                3.0,
                4.0,
                5.0,
                6.0,
            ),
        )
        .unwrap();
        for d in disks {
            conn.execute(INSERT_DISK, (d.host_id, d.timestamp, d.mount_point, d.total, d.used))
                .unwrap();
        }
    }
    for n in [5i64, 6] {
        let row = Database::last_network_row(Some(id), n as u64, 9, 1).unwrap();
        conn.execute(
            UPSERT_NETWORK,
            (row.host_id, row.network_in, row.network_out, row.updated_at),
        )
        .unwrap();
    }
    let net: (String, i64, i64) =
        conn.query_row(SELECT_NETWORK, [], |r| Ok((r.get(0)?, r.get(1)?, r.get(2)?))).unwrap();
    assert_eq!(net, ("h1".to_string(), 6, 9));

    let earliest: i64 = conn.query_row(SELECT_EARLIEST, [], |r| r.get(0)).unwrap();
    assert_eq!(earliest, 100);
    let host: i64 = conn.query_row(SELECT_HOST_IDS, [], |r| r.get(0)).unwrap();
    let mut run = Aggregation::new(vec![host], Database::plan_aggregation(None, earliest, 5, 700));
    while let Some((host, from, to)) = run.next() {
        let (cpu, total): (Option<f64>, Option<f64>) = conn
            .query_row(SELECT_SUMS, (host, from, to), |r| Ok((r.get(0)?, r.get(1)?)))
            .unwrap();
        assert_eq!((cpu, total), (Some(2.5), Some(100.0)));
        let row: Vec<rusqlite::types::Value> = vec![
            host.into(), from.into(), 5i64.into(), 2.5.into(), 100.0.into(), 50.0.into(),
            5i64.into(), 6i64.into(), 7.0.into(), 8.0.into(), true.into(),
            1.0.into(), 1.0.into(), 1.0.into(), 4.0.into(),
            2.0.into(), 2.0.into(), 2.0.into(), 5.0.into(),
            3.0.into(), 3.0.into(), 3.0.into(), 6.0.into(),
        ];
        conn.execute(INSERT_SUMS, rusqlite::params_from_iter(row)).unwrap();
        let disk: (String, f64, f64) = conn
            .query_row(SELECT_DISK_SUMS, (host, from, to), |r| {
                Ok((r.get(0)?, r.get(1)?, r.get(2)?))
            })
            .unwrap();
        assert_eq!(disk, ("/".to_string(), 9.0, 4.0));
        conn.execute(INSERT_DISK_SUMS, (host, from, 5i64, disk.0, disk.1, disk.2)).unwrap();
    }
    let last: i64 = conn.query_row(SELECT_LAST_PERIOD, [5i64], |r| r.get(0)).unwrap();
    assert_eq!(last, 400);

    let named: (i64, String, String) =
        conn.query_row(SELECT_HOSTS, [], |r| Ok((r.get(0)?, r.get(1)?, r.get(2)?))).unwrap();
    assert_eq!(named, (id, "h1".to_string(), "one".to_string()));
    let q = Database::get_stats_by_timerange(150, 1000);
    let mut stmt = conn.prepare(q.statement()).unwrap();
    let seconds: Vec<i64> = stmt
        .query_map(rusqlite::params_from_iter(q.arguments(id)), |r| r.get(0))
        .unwrap()
        .map(|r| r.unwrap())
        .collect();
    assert_eq!(seconds, vec![200, 400]);
    let mut stmt = conn.prepare(SELECT_PERIODS).unwrap();
    let seconds: Vec<i64> = stmt
        .query_map((id, 0, 1000, 5i64, q.limit), |r| r.get(0))
        .unwrap()
        .map(|r| r.unwrap())
        .collect();
    assert_eq!(seconds, vec![100, 400]);

    let c = Database::cutoffs_at(200 + 3 * DAY, 3, 3);
    let counts: Vec<usize> =
        c.statements().iter().map(|(sql, t)| conn.execute(sql, [t]).unwrap()).collect();
    assert_eq!(counts, vec![1, 2, 1, 1]);
    conn.execute_batch(COMPACT).unwrap();
}
