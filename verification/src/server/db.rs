//! What is stored of the hosts: the tables, what a report adds to them, how they are
//! summed up over time and cleared, and how a span of time is read back.
use vstd::prelude::*;
use vstd::string::*;
use crate::clock::{utc_timestamp, CLOCK_LIMIT};
use crate::payload::{HostStat, HostStatView, Real};
use crate::registry::{put, Registry};

verus! {

// ---------------------------------------------------------------------------
// The tables
// ---------------------------------------------------------------------------

/// How the database is to work.
pub const PRAGMAS: &'static str = "
            PRAGMA journal_mode = WAL;
            PRAGMA synchronous = NORMAL;
            PRAGMA cache_size = -64000;
            PRAGMA temp_store = MEMORY;
            PRAGMA mmap_size = 30000000000;
        ";

/// The hosts by name.
pub const CREATE_HOSTS: &'static str = "CREATE TABLE IF NOT EXISTS hosts (
                id INTEGER PRIMARY KEY,
                name TEXT NOT NULL,
                alias TEXT,
                UNIQUE(name)
            )";

/// The reports.
pub const CREATE_STATS: &'static str = "CREATE TABLE IF NOT EXISTS stats (
                id INTEGER PRIMARY KEY,
                host_id INTEGER NOT NULL,
                timestamp INTEGER NOT NULL,
                cpu_usage REAL,
                memory_total INTEGER,
                memory_used INTEGER,
                network_in INTEGER,
                network_out INTEGER,
                network_in_speed INTEGER,
                network_out_speed INTEGER,
                online BOOLEAN,
                ping_10010 REAL DEFAULT 0,
                ping_189 REAL DEFAULT 0,
                ping_10086 REAL DEFAULT 0,
                time_10010 REAL DEFAULT 0,
                time_189 REAL DEFAULT 0,
                time_10086 REAL DEFAULT 0,
                FOREIGN KEY (host_id) REFERENCES hosts(id)
            )";

/// The disks of the reports.
pub const CREATE_DISK_STATS: &'static str = "CREATE TABLE IF NOT EXISTS disk_stats (
                id INTEGER PRIMARY KEY,
                host_id INTEGER NOT NULL,
                timestamp INTEGER NOT NULL,
                mount_point TEXT NOT NULL,
                disk_total INTEGER,
                disk_used INTEGER,
                FOREIGN KEY (host_id) REFERENCES hosts(id)
            )";

/// The reports, summed up.
pub const CREATE_AGGREGATED_STATS: &'static str = "CREATE TABLE IF NOT EXISTS aggregated_stats (
                id INTEGER PRIMARY KEY,
                host_id INTEGER NOT NULL,
                timestamp INTEGER NOT NULL,
                interval_minutes INTEGER NOT NULL,
                cpu_usage REAL,
                memory_total INTEGER,
                memory_used INTEGER,
                network_in INTEGER,
                network_out INTEGER,
                network_in_speed INTEGER,
                network_out_speed INTEGER,
                online BOOLEAN,
                p_cu_avg REAL DEFAULT 0, p_cu_min REAL DEFAULT 0, p_cu_max REAL DEFAULT 0, t_cu_avg REAL DEFAULT 0,
                p_ct_avg REAL DEFAULT 0, p_ct_min REAL DEFAULT 0, p_ct_max REAL DEFAULT 0, t_ct_avg REAL DEFAULT 0,
                p_cm_avg REAL DEFAULT 0, p_cm_min REAL DEFAULT 0, p_cm_max REAL DEFAULT 0, t_cm_avg REAL DEFAULT 0,
                FOREIGN KEY (host_id) REFERENCES hosts(id),
                UNIQUE(host_id, timestamp, interval_minutes)
            )";

/// The disks of the reports, summed up.
pub const CREATE_AGGREGATED_DISK_STATS: &'static str =
    "CREATE TABLE IF NOT EXISTS aggregated_disk_stats (
                id INTEGER PRIMARY KEY,
                host_id INTEGER NOT NULL,
                timestamp INTEGER NOT NULL,
                interval_minutes INTEGER NOT NULL,
                mount_point TEXT NOT NULL,
                disk_total INTEGER,
                disk_used INTEGER,
                FOREIGN KEY (host_id) REFERENCES hosts(id),
                UNIQUE(host_id, timestamp, interval_minutes, mount_point)
            )";

/// The traffic counters from which the hosts' traffic is counted.
pub const CREATE_LAST_NETWORK: &'static str = "CREATE TABLE IF NOT EXISTS last_network (
                id INTEGER PRIMARY KEY,
                host_id INTEGER NOT NULL,
                network_in INTEGER NOT NULL,
                network_out INTEGER NOT NULL,
                updated_at INTEGER NOT NULL,
                FOREIGN KEY (host_id) REFERENCES hosts(id),
                UNIQUE(host_id)
            )";

/// The indexes.
pub const INDEX_STATS: &'static str =
    "CREATE INDEX IF NOT EXISTS idx_stats_host_time ON stats(host_id, timestamp)";

pub const INDEX_AGG_STATS: &'static str =
    "CREATE INDEX IF NOT EXISTS idx_agg_stats_host_time ON aggregated_stats(host_id, timestamp, interval_minutes)";

pub const INDEX_DISK_STATS: &'static str =
    "CREATE INDEX IF NOT EXISTS idx_disk_stats_host_time ON disk_stats(host_id, timestamp)";

pub const INDEX_AGG_DISK_STATS: &'static str =
    "CREATE INDEX IF NOT EXISTS idx_agg_disk_stats_host_time ON aggregated_disk_stats(host_id, timestamp, interval_minutes)";

pub const INDEX_STATS_TIMESTAMP: &'static str =
    "CREATE INDEX IF NOT EXISTS idx_stats_timestamp ON stats(timestamp)";

/// The statements that make the tables and the indexes, in their order.
pub open spec fn schema() -> Seq<Seq<char>> {
    seq![
        CREATE_HOSTS@,
        CREATE_STATS@,
        CREATE_DISK_STATS@,
        CREATE_AGGREGATED_STATS@,
        CREATE_AGGREGATED_DISK_STATS@,
        CREATE_LAST_NETWORK@,
        INDEX_STATS@,
        INDEX_AGG_STATS@,
        INDEX_DISK_STATS@,
        INDEX_AGG_DISK_STATS@,
        INDEX_STATS_TIMESTAMP@,
    ]
}

/// The tables and the columns of them that an older database lacks.
pub const MIGRATED: [(&'static str, &'static str); 18] = [
    ("stats", "ping_10010"),
    ("stats", "ping_189"),
    ("stats", "ping_10086"),
    ("stats", "time_10010"),
    ("stats", "time_189"),
    ("stats", "time_10086"),
    ("aggregated_stats", "p_cu_avg"),
    ("aggregated_stats", "p_cu_min"),
    ("aggregated_stats", "p_cu_max"),
    ("aggregated_stats", "t_cu_avg"),
    ("aggregated_stats", "p_ct_avg"),
    ("aggregated_stats", "p_ct_min"),
    ("aggregated_stats", "p_ct_max"),
    ("aggregated_stats", "t_ct_avg"),
    ("aggregated_stats", "p_cm_avg"),
    ("aggregated_stats", "p_cm_min"),
    ("aggregated_stats", "p_cm_max"),
    ("aggregated_stats", "t_cm_avg"),
];

/// The statement that adds a column to a table.
pub open spec fn add_column(table: Seq<char>, column: Seq<char>) -> Seq<char> {
    "ALTER TABLE "@ + table + " ADD COLUMN "@ + column + " REAL DEFAULT 0"@
}

/// The statements that add the columns that an older database lacks.
pub open spec fn migrations() -> Seq<Seq<char>> {
    MIGRATED@.map_values(|c: (&'static str, &'static str)| add_column(c.0@, c.1@))
}

/// The views of a list of texts.
pub open spec fn str_views(v: Seq<&'static str>) -> Seq<Seq<char>> {
    v.map_values(|s: &'static str| s@)
}

/// How a database is opened.
#[derive(Debug)]
pub struct OpenPlan {
    /// To be run first.
    pub pragmas: &'static str,
    /// To be run then; one that fails is a failure.
    pub create: Vec<&'static str>,
    /// To be run last; one that fails is passed over.
    pub migrate: Vec<String>,
}

/// The rules of the store.
#[derive(Debug)]
pub struct Database {}

impl Database {
    /// How a database is opened: a new one gets its tables, and one that exists the
    /// columns that it may lack.
    pub fn new(exists: bool) -> (r: OpenPlan)
        ensures
            r.pragmas@ == PRAGMAS@,
            str_views(r.create@) == (if exists {
                Seq::empty()
            } else {
                schema()
            }),
            crate::text::views(r.migrate@) == (if exists {
                migrations()
            } else {
                Seq::empty()
            }),
    {
        if exists {
            let create: Vec<&'static str> = Vec::new();
            assert(str_views(create@) =~= Seq::<Seq<char>>::empty());
            OpenPlan { pragmas: PRAGMAS, create, migrate: Database::try_migrate() }
        } else {
            let migrate: Vec<String> = Vec::new();
            assert(crate::text::views(migrate@) =~= Seq::<Seq<char>>::empty());
            OpenPlan { pragmas: PRAGMAS, create: Database::init_db(), migrate }
        }
    }

    /// The statements that make the tables and the indexes.
    pub fn init_db() -> (r: Vec<&'static str>)
        ensures
            str_views(r@) == schema(),
    {
        let mut r: Vec<&'static str> = Vec::new();
        r.push(CREATE_HOSTS);
        r.push(CREATE_STATS);
        r.push(CREATE_DISK_STATS);
        r.push(CREATE_AGGREGATED_STATS);
        r.push(CREATE_AGGREGATED_DISK_STATS);
        r.push(CREATE_LAST_NETWORK);
        r.push(INDEX_STATS);
        r.push(INDEX_AGG_STATS);
        r.push(INDEX_DISK_STATS);
        r.push(INDEX_AGG_DISK_STATS);
        r.push(INDEX_STATS_TIMESTAMP);
        assert(str_views(r@) =~= schema());
        r
    }

    /// The statements that add the columns that an older database lacks.
    pub fn try_migrate() -> (r: Vec<String>)
        ensures
            crate::text::views(r@) == migrations(),
    {
        let mut r: Vec<String> = Vec::new();
        let mut i: usize = 0;
        while i < 18
            invariant
                i <= 18,
                MIGRATED@.len() == 18,
                crate::text::views(r@) == migrations().take(i as int),
            decreases 18 - i,
        {
            let ghost q = r@;
            let mut sql = "ALTER TABLE ".to_string();
            sql.append(MIGRATED[i].0);
            sql.append(" ADD COLUMN ");
            sql.append(MIGRATED[i].1);
            sql.append(" REAL DEFAULT 0");
            r.push(sql);
            proof {
                assert(crate::text::views(r@) =~= crate::text::views(q).push(sql@));
                assert(migrations().take(i + 1) =~= migrations().take(i as int).push(
                    migrations()[i as int],
                ));
            }
            i = i + 1;
        }
        assert(migrations().take(18) =~= migrations());
        r
    }
}

// ---------------------------------------------------------------------------
// What a report adds
// ---------------------------------------------------------------------------

/// The number of the host with a name.
pub const SELECT_HOST: &'static str = "SELECT id FROM hosts WHERE name = ?";

/// Gives a host an alias.
pub const UPDATE_ALIAS: &'static str = "UPDATE hosts SET alias = ? WHERE id = ?";

/// Adds a host.
pub const INSERT_HOST: &'static str = "INSERT INTO hosts (name, alias) VALUES (?, ?)";

/// Adds a report.
pub const INSERT_STAT: &'static str = "INSERT INTO stats (
                host_id, timestamp, cpu_usage, memory_total, memory_used,
                network_in, network_out, network_in_speed, network_out_speed, online,
                ping_10010, ping_189, ping_10086, time_10010, time_189, time_10086
            ) VALUES (?, ?, ?, ?, ?, ?, ?, ?, ?, ?, ?, ?, ?, ?, ?, ?)";

/// Adds a disk of a report.
pub const INSERT_DISK: &'static str =
    "INSERT INTO disk_stats (host_id, timestamp, mount_point, disk_total, disk_used) VALUES (?, ?, ?, ?, ?)";

/// Keeps the traffic counters of a host.
pub const UPSERT_NETWORK: &'static str =
    "INSERT INTO last_network (host_id, network_in, network_out, updated_at)
                 VALUES (?, ?, ?, ?)
                 ON CONFLICT(host_id) DO UPDATE SET
                 network_in = excluded.network_in,
                 network_out = excluded.network_out,
                 updated_at = excluded.updated_at";

/// The traffic counters of the hosts by name.
pub const SELECT_NETWORK: &'static str =
    "SELECT h.name, ln.network_in, ln.network_out FROM last_network ln JOIN hosts h ON ln.host_id = h.id";

/// What to do about the entry of a host.
#[derive(Debug)]
pub enum HostStep {
    /// It is there under this number and stays as it is.
    Keep(i64),
    /// It is there under this number and gets this alias.
    Rename(i64, String),
    /// It is not there and is added with this name and alias.
    Insert(String, String),
}

/// A report as it is stored.
#[derive(Clone, Copy, Debug, PartialEq, Eq)]
pub struct StatRow {
    pub host_id: i64,
    pub timestamp: u64,
    pub cpu_usage: Real,
    pub memory_total: u64,
    pub memory_used: u64,
    pub network_in: u64,
    pub network_out: u64,
    pub network_in_speed: u64,
    pub network_out_speed: u64,
    pub online: bool,
    pub ping_10010: Real,
    pub ping_189: Real,
    pub ping_10086: Real,
    pub time_10010: Real,
    pub time_189: Real,
    pub time_10086: Real,
}

/// The row of a report.
pub open spec fn stat_row(host_id: i64, s: HostStatView) -> StatRow {
    StatRow {
        host_id,
        timestamp: s.latest_ts,
        cpu_usage: s.metrics.cpu,
        memory_total: s.metrics.memory_total,
        memory_used: s.metrics.memory_used,
        network_in: s.network_in,
        network_out: s.network_out,
        network_in_speed: s.metrics.network_rx,
        network_out_speed: s.metrics.network_tx,
        online: s.online4 || s.online6,
        ping_10010: s.metrics.ping_10010,
        ping_189: s.metrics.ping_189,
        ping_10086: s.metrics.ping_10086,
        time_10010: s.metrics.time_10010,
        time_189: s.metrics.time_189,
        time_10086: s.metrics.time_10086,
    }
}

/// A disk of a report as it is stored.
#[derive(Debug)]
pub struct DiskRow {
    pub host_id: i64,
    pub timestamp: u64,
    pub mount_point: String,
    pub total: u64,
    pub used: u64,
}

/// What a `DiskRow` says.
#[verifier::ext_equal]
pub struct DiskRowView {
    pub host_id: i64,
    pub timestamp: u64,
    pub mount_point: Seq<char>,
    pub total: u64,
    pub used: u64,
}

impl View for DiskRow {
    type V = DiskRowView;

    open spec fn view(&self) -> DiskRowView {
        DiskRowView {
            host_id: self.host_id,
            timestamp: self.timestamp,
            mount_point: self.mount_point@,
            total: self.total,
            used: self.used,
        }
    }
}

/// What a list of rows says.
pub open spec fn disk_row_views(v: Seq<DiskRow>) -> Seq<DiskRowView> {
    v.map_values(|d: DiskRow| d@)
}

/// The rows of a report's disks.
pub open spec fn disk_rows(host_id: i64, s: HostStatView) -> Seq<DiskRowView> {
    s.disks.map_values(
        |d: crate::payload::DiskInfoView|
            DiskRowView {
                host_id,
                timestamp: s.latest_ts,
                mount_point: d.mount_point,
                total: d.total,
                used: d.used,
            },
    )
}

/// The traffic counters of a host as they are stored.
#[derive(Clone, Copy, Debug, PartialEq, Eq)]
pub struct NetworkRow {
    pub host_id: i64,
    pub network_in: i64,
    pub network_out: i64,
    pub updated_at: i64,
}

/// A counter as it is stored: the upper half of the counters stands for the negative
/// numbers.
pub open spec fn stored_counter(n: u64) -> int {
    if n < 0x8000_0000_0000_0000 {
        n as int
    } else {
        n - 0x1_0000_0000_0000_0000
    }
}

/// The counter that a stored number stands for.
pub open spec fn restored_counter(n: i64) -> int {
    if n >= 0 {
        n as int
    } else {
        n + 0x1_0000_0000_0000_0000
    }
}

/// A counter that was stored is read back as it was.
pub proof fn law_counter_round_trip(n: u64)
    ensures
        i64::MIN <= stored_counter(n) <= i64::MAX,
        restored_counter(stored_counter(n) as i64) == n,
{
}

/// A counter as it is stored.
fn store_counter(n: u64) -> (r: i64)
    ensures
        r == stored_counter(n),
{
    assert(n < 0x8000_0000_0000_0000 ==> (n as i64) as int == n as int) by (bit_vector);
    assert(n >= 0x8000_0000_0000_0000 ==> (n as i64) as int == n - 0x1_0000_0000_0000_0000)
        by (bit_vector);
    n as i64
}

/// The counter that a stored number stands for.
fn restore_counter(n: i64) -> (r: u64)
    ensures
        r == restored_counter(n),
{
    assert(n >= 0 ==> (n as u64) as int == n as int) by (bit_vector);
    assert(n < 0 ==> (n as u64) as int == n + 0x1_0000_0000_0000_0000) by (bit_vector);
    n as u64
}

/// What a list of stored counters says.
pub open spec fn stored_views(v: Seq<(String, i64, i64)>) -> Seq<(Seq<char>, int, int)> {
    v.map_values(
        |e: (String, i64, i64)| (e.0@, restored_counter(e.1), restored_counter(e.2)),
    )
}

/// What a list of counters says.
pub open spec fn counter_values(v: Seq<(String, u64, u64)>) -> Seq<(Seq<char>, int, int)> {
    v.map_values(|e: (String, u64, u64)| (e.0@, e.1 as int, e.2 as int))
}

impl Database {
    /// What to do about the entry of the reporting host, which was found under
    /// `host_id`: one that is there takes the report's alias where it gives one.
    pub fn ensure_host_exists(host_id: Option<i64>, stat: &HostStat) -> (r: HostStep)
        ensures
            (match r {
                HostStep::Keep(id) => host_id == Some(id) && stat@.alias.len() == 0,
                HostStep::Rename(id, alias) => host_id == Some(id) && stat@.alias.len() > 0
                    && alias@ == stat@.alias,
                HostStep::Insert(name, alias) => host_id is None && name@ == stat@.name && alias@
                    == stat@.alias,
            }),
    {
        match host_id {
            Some(id) => {
                if !stat.alias.as_str().is_empty() {
                    HostStep::Rename(id, stat.alias.clone())
                } else {
                    HostStep::Keep(id)
                }
            },
            None => HostStep::Insert(stat.name.clone(), stat.alias.clone()),
        }
    }

    /// The rows that a report of the host `host_id` adds: one for the report and one
    /// for each of its disks.
    pub fn save_stat(host_id: i64, stat: &HostStat) -> (r: (StatRow, Vec<DiskRow>))
        ensures
            r.0 == stat_row(host_id, stat@),
            disk_row_views(r.1@) == disk_rows(host_id, stat@),
    {
        let row = StatRow {
            host_id,
            timestamp: stat.latest_ts,
            cpu_usage: stat.metrics.cpu,
            memory_total: stat.metrics.memory_total,
            memory_used: stat.metrics.memory_used,
            network_in: stat.network_in,
            network_out: stat.network_out,
            network_in_speed: stat.metrics.network_rx,
            network_out_speed: stat.metrics.network_tx,
            online: stat.online4 || stat.online6,
            ping_10010: stat.metrics.ping_10010,
            ping_189: stat.metrics.ping_189,
            ping_10086: stat.metrics.ping_10086,
            time_10010: stat.metrics.time_10010,
            time_189: stat.metrics.time_189,
            time_10086: stat.metrics.time_10086,
        };
        let n: usize = stat.disks.len();
        let mut disks: Vec<DiskRow> = Vec::new();
        let mut i: usize = 0;
        assert(disk_row_views(disks@) =~= disk_rows(host_id, stat@).take(0));
        while i < n
            invariant
                i <= n,
                n == stat.disks@.len(),
                disk_row_views(disks@) == disk_rows(host_id, stat@).take(i as int),
            decreases n - i,
        {
            let ghost q = disks@;
            let d = DiskRow {
                host_id,
                timestamp: stat.latest_ts,
                mount_point: stat.disks[i].mount_point.clone(),
                total: stat.disks[i].total,
                used: stat.disks[i].used,
            };
            disks.push(d);
            proof {
                let all = disk_rows(host_id, stat@);
                assert(disk_row_views(disks@) =~= disk_row_views(q).push(d@));
                assert(all[i as int] == d@);
                assert(all.take(i + 1) =~= all.take(i as int).push(all[i as int]));
            }
            i = i + 1;
        }
        assert(disk_rows(host_id, stat@).take(n as int) =~= disk_rows(host_id, stat@));
        (row, disks)
    }

    /// The row that keeps a host's traffic counters as of the second `now`, or `None`
    /// where the host has no entry.
    pub fn last_network_row(
        host_id: Option<i64>,
        network_in: u64,
        network_out: u64,
        now: i64,
    ) -> (r: Option<NetworkRow>)
        ensures
            (match host_id {
                Some(id) => r matches Some(row) && row.host_id == id && row.network_in
                    == stored_counter(network_in) && row.network_out == stored_counter(network_out)
                    && row.updated_at == now,
                None => r is None,
            }),
    {
        match host_id {
            Some(id) => Some(
                NetworkRow {
                    host_id: id,
                    network_in: store_counter(network_in),
                    network_out: store_counter(network_out),
                    updated_at: now,
                },
            ),
            None => None,
        }
    }

    /// The row that keeps a host's traffic counters as of now.
    pub fn update_last_network(host_id: Option<i64>, network_in: u64, network_out: u64) -> (r:
        Option<NetworkRow>)
        ensures
            (match host_id {
                Some(id) => r matches Some(row) && row.host_id == id && row.network_in
                    == stored_counter(network_in) && row.network_out == stored_counter(network_out)
                    && 0 <= row.updated_at <= CLOCK_LIMIT,
                None => r is None,
            }),
    {
        Database::last_network_row(host_id, network_in, network_out, utc_timestamp())
    }

    /// The traffic counters that the stored rows stand for.
    pub fn get_last_network_data(rows: &Vec<(String, i64, i64)>) -> (r: Vec<(String, u64, u64)>)
        ensures
            counter_values(r@) == stored_views(rows@),
    {
        let n: usize = rows.len();
        let mut r: Vec<(String, u64, u64)> = Vec::new();
        let mut i: usize = 0;
        assert(counter_values(r@) =~= stored_views(rows@).take(0));
        while i < n
            invariant
                i <= n,
                n == rows@.len(),
                counter_values(r@) == stored_views(rows@).take(i as int),
            decreases n - i,
        {
            let ghost q = r@;
            let e = (rows[i].0.clone(), restore_counter(rows[i].1), restore_counter(rows[i].2));
            r.push(e);
            proof {
                let all = stored_views(rows@);
                assert(counter_values(r@) =~= counter_values(q).push(all[i as int]));
                assert(all.take(i + 1) =~= all.take(i as int).push(all[i as int]));
            }
            i = i + 1;
        }
        assert(stored_views(rows@).take(n as int) =~= stored_views(rows@));
        r
    }
}

// ---------------------------------------------------------------------------
// Summing up
// ---------------------------------------------------------------------------

/// The second from which the last period of a length was summed up.
pub const SELECT_LAST_PERIOD: &'static str =
    "SELECT MAX(timestamp) FROM aggregated_stats WHERE interval_minutes = ?";

/// The second of the earliest report.
pub const SELECT_EARLIEST: &'static str = "SELECT min(timestamp) FROM stats limit 1";

/// The numbers of the hosts.
pub const SELECT_HOST_IDS: &'static str = "SELECT id FROM hosts";

/// What the reports of a host in a period come to.
pub const SELECT_SUMS: &'static str = "SELECT
                AVG(cpu_usage), AVG(memory_total), AVG(memory_used),
                MAX(network_in), MAX(network_out), AVG(network_in_speed), AVG(network_out_speed),
                MAX(online),
                AVG(ping_10010), MIN(ping_10010), MAX(ping_10010), AVG(time_10010),
                AVG(ping_189),   MIN(ping_189),   MAX(ping_189),   AVG(time_189),
                AVG(ping_10086), MIN(ping_10086), MAX(ping_10086), AVG(time_10086)
             FROM stats WHERE host_id = ? AND timestamp >= ? AND timestamp < ?";

/// Keeps what the reports of a host in a period come to.
pub const INSERT_SUMS: &'static str = "INSERT OR REPLACE INTO aggregated_stats (
                host_id, timestamp, interval_minutes,
                cpu_usage, memory_total, memory_used, network_in, network_out, network_in_speed, network_out_speed, online,
                p_cu_avg, p_cu_min, p_cu_max, t_cu_avg,
                p_ct_avg, p_ct_min, p_ct_max, t_ct_avg,
                p_cm_avg, p_cm_min, p_cm_max, t_cm_avg
            ) VALUES (?, ?, ?, ?, ?, ?, ?, ?, ?, ?, ?, ?, ?, ?, ?, ?, ?, ?, ?, ?, ?, ?, ?)";

/// What the disks of a host in a period come to.
pub const SELECT_DISK_SUMS: &'static str =
    "SELECT mount_point, AVG(disk_total), AVG(disk_used) FROM disk_stats
             WHERE host_id = ? AND timestamp >= ? AND timestamp < ? GROUP BY mount_point";

/// Keeps what a disk of a host in a period comes to.
pub const INSERT_DISK_SUMS: &'static str =
    "INSERT OR REPLACE INTO aggregated_disk_stats (host_id, timestamp, interval_minutes, mount_point, disk_total, disk_used)
             VALUES (?, ?, ?, ?, ?, ?)";

/// The lengths of the periods that are summed up, in minutes.
pub open spec fn summed_lengths() -> Seq<i64> {
    seq![5i64, 30i64]
}

/// The multiple of `step` next to `now` on the way to zero.
pub open spec fn floor_to(now: int, step: int) -> int {
    if now >= 0 {
        now / step * step
    } else {
        -((-now) / step * step)
    }
}

/// The periods of the length `step` from `start` on that begin before `end`, each from
/// its first second up to, and without, the first of the next.
pub open spec fn periods(start: int, end: int, step: int) -> Seq<(int, int)>
    decreases
            (if start < end {
                end - start
            } else {
                0
            }),
{
    if start >= end || step <= 0 {
        Seq::empty()
    } else {
        seq![(start, start + step)] + periods(start + step, end, step)
    }
}

/// The periods still to be summed up.
#[derive(Clone, Copy, Debug, PartialEq, Eq)]
pub struct Periods {
    pub current: i64,
    pub end: i64,
    pub step: i64,
}

impl Periods {
    /// The periods have a length, and the last of them ends at a second that can be
    /// held.
    pub open spec fn wf(self) -> bool {
        &&& self.step > 0
        &&& self.end + self.step <= i64::MAX
    }

    /// The periods, in their order.
    pub open spec fn all(self) -> Seq<(int, int)> {
        periods(self.current as int, self.end as int, self.step as int)
    }

    /// Takes the first of the periods.
    pub fn next(&mut self) -> (r: Option<(i64, i64)>)
        requires
            old(self).wf(),
        ensures
            final(self).wf(),
            (match r {
                Some((a, b)) => old(self).all().len() > 0 && old(self).all()[0] == (
                    a as int,
                    b as int,
                ) && final(self).all() == old(self).all().drop_first(),
                None => old(self).all().len() == 0 && *final(self) == *old(self),
            }),
    {
        if self.current < self.end {
            let start: i64 = self.current;
            self.current = start + self.step;
            assert(old(self).all().drop_first() =~= self.all());
            Some((start, self.current))
        } else {
            None
        }
    }
}

/// The periods to sum up, from where the last summing up left off, or from the
/// earliest report, up to the last whole period before `now`.
pub open spec fn due_periods(
    last: Option<i64>,
    earliest: i64,
    interval_minutes: int,
    now: int,
) -> Seq<(int, int)> {
    let step = interval_minutes * 60;
    let start = match last {
        Some(t) => t as int,
        None => earliest as int,
    };
    periods(start, floor_to(now, step), step)
}

/// The number `now` lies past the multiple next to it by less than a step.
proof fn lemma_floor(now: int, step: int)
    requires
        step > 0,
    ensures
        now >= 0 ==> 0 <= floor_to(now, step) <= now < floor_to(now, step) + step,
        now < 0 ==> floor_to(now, step) - step < now <= floor_to(now, step) <= 0,
{
    let n = if now >= 0 {
        now
    } else {
        -now
    };
    assert(0 <= n / step * step <= n < n / step * step + step) by (nonlinear_arith)
        requires
            step > 0,
            n >= 0,
    ;
}

/// The periods lie side by side from `start` on, each of the length `step`, the last
/// of them the first that reaches `end`.
pub proof fn law_periods_tile(start: int, end: int, step: int)
    requires
        step > 0,
    ensures
        ({
            let p = periods(start, end, step);
            &&& p.len() == 0 <==> start >= end
            &&& forall|i: int|
                0 <= i < p.len() ==> #[trigger] p[i] == (start + i * step, start + (i + 1) * step)
                    && p[i].0 < end
            &&& p.len() > 0 ==> p.last().1 >= end
        }),
    decreases
            (if start < end {
                end - start
            } else {
                0
            }),
{
    let p = periods(start, end, step);
    if start < end {
        law_periods_tile(start + step, end, step);
        let q = periods(start + step, end, step);
        assert forall|i: int| 0 <= i < p.len() implies #[trigger] p[i] == (
            start + i * step,
            start + (i + 1) * step,
        ) && p[i].0 < end by {
            if i > 0 {
                assert(p[i] == q[i - 1]);
                assert(start + step + (i - 1) * step == start + i * step) by (nonlinear_arith);
                assert(start + step + (i - 1 + 1) * step == start + (i + 1) * step)
                    by (nonlinear_arith);
            } else {
                assert(0 * step == 0) by (nonlinear_arith);
                assert(1 * step == step) by (nonlinear_arith);
            }
        }
        if q.len() > 0 {
            assert(p.last() == q.last());
        }
    }
}

/// Every second from `start` up to `end` lies in exactly one of the periods.
pub proof fn law_periods_cover(start: int, end: int, step: int, t: int)
    requires
        step > 0,
        start <= t < end,
    ensures
        ({
            let p = periods(start, end, step);
            &&& exists|i: int| 0 <= i < p.len() && (#[trigger] p[i]).0 <= t < p[i].1
            &&& forall|i: int, j: int|
                0 <= i < p.len() && 0 <= j < p.len() && (#[trigger] p[i]).0 <= t < p[i].1 && (
                #[trigger] p[j]).0 <= t < p[j].1 ==> i == j
        }),
    decreases end - start,
{
    let p = periods(start, end, step);
    let q = periods(start + step, end, step);
    law_periods_tile(start, end, step);
    law_periods_tile(start + step, end, step);
    if t < start + step {
        assert(p[0].0 <= t < p[0].1);
        assert forall|i: int| 0 < i < p.len() implies (#[trigger] p[i]).0 > t by {
            assert(start + i * step >= start + step) by (nonlinear_arith)
                requires
                    i >= 1,
                    step > 0,
            ;
        }
    } else {
        law_periods_cover(start + step, end, step, t);
        let k = choose|i: int| 0 <= i < q.len() && (#[trigger] q[i]).0 <= t < q[i].1;
        assert(p[k + 1] == q[k]);
        assert forall|i: int, j: int|
            0 <= i < p.len() && 0 <= j < p.len() && (#[trigger] p[i]).0 <= t < p[i].1 && (
            #[trigger] p[j]).0 <= t < p[j].1 implies i == j by {
            assert(i > 0 && j > 0);
            assert(p[i] == q[i - 1]);
            assert(p[j] == q[j - 1]);
        }
    }
}

/// Each period of each host, host by host.
pub open spec fn visits(hosts: Seq<i64>, p: Seq<(int, int)>) -> Seq<(i64, (int, int))>
    decreases hosts.len(),
{
    if hosts.len() == 0 {
        Seq::empty()
    } else {
        of_host(hosts[0], p) + visits(hosts.drop_first(), p)
    }
}

/// Each period of one host.
pub open spec fn of_host(host: i64, p: Seq<(int, int)>) -> Seq<(i64, (int, int))> {
    p.map_values(|x: (int, int)| (host, x))
}

/// The summing up of all hosts: the host whose turn it is, the periods that are left of
/// it, and the periods of each host behind it.
#[derive(Debug)]
pub struct Aggregation {
    pub hosts: Vec<i64>,
    pub turn: usize,
    pub left: Periods,
    pub plan: Periods,
}

impl Aggregation {
    /// The periods have a length, and end at a second that can be held.
    pub open spec fn wf(&self) -> bool {
        self.turn <= self.hosts@.len() && self.left.wf() && self.plan.wf()
    }

    /// What is still to be summed up.
    pub open spec fn all(&self) -> Seq<(i64, (int, int))> {
        if self.turn < self.hosts@.len() {
            of_host(self.hosts@[self.turn as int], self.left.all()) + visits(
                self.hosts@.skip(self.turn + 1),
                self.plan.all(),
            )
        } else {
            Seq::empty()
        }
    }

    /// Each period of the plan, for each of the hosts.
    pub fn new(hosts: Vec<i64>, plan: Periods) -> (r: Self)
        requires
            plan.wf(),
        ensures
            r.wf(),
            r.all() == visits(hosts@, plan.all()),
    {
        let r = Aggregation { hosts, turn: 0, left: plan, plan };
        proof {
            if hosts@.len() > 0 {
                assert(hosts@.skip(1) =~= hosts@.drop_first());
            }
        }
        r
    }

    /// Takes the first of what is still to be summed up.
    pub fn next(&mut self) -> (r: Option<(i64, i64, i64)>)
        requires
            old(self).wf(),
        ensures
            final(self).wf(),
            (match r {
                Some((host, a, b)) => old(self).all().len() > 0 && old(self).all()[0] == (
                    host,
                    (a as int, b as int),
                ) && final(self).all() == old(self).all().drop_first(),
                None => old(self).all().len() == 0 && final(self).all().len() == 0,
            }),
    {
        let n: usize = self.hosts.len();
        let ghost all = self.all();
        while self.turn < n
            invariant
                self.wf(),
                n == self.hosts@.len(),
                self.all() == all,
                all == old(self).all(),
            decreases n - self.turn,
        {
            let ghost before = *self;
            match self.left.next() {
                Some((a, b)) => {
                    let host: i64 = self.hosts[self.turn];
                    proof {
                        let was = of_host(host, before.left.all());
                        assert(was[0] == (host, (a as int, b as int)));
                        assert(of_host(host, self.left.all()) =~= was.drop_first());
                        assert(self.all() =~= all.drop_first());
                    }
                    return Some((host, a, b));
                },
                None => {
                    self.turn = self.turn + 1;
                    self.left = self.plan;
                    proof {
                        let rest = self.hosts@.skip(self.turn as int);
                        assert(of_host(before.hosts@[before.turn as int], before.left.all())
                            =~= Seq::<(i64, (int, int))>::empty());
                        assert(all =~= visits(rest, self.plan.all()));
                        if self.turn < n {
                            assert(rest[0] == self.hosts@[self.turn as int]);
                            assert(rest.drop_first() =~= self.hosts@.skip(self.turn + 1));
                        }
                    }
                },
            }
        }
        None
    }
}

/// Each host is visited once for each period.
pub proof fn law_each_host_is_summed_up(hosts: Seq<i64>, p: Seq<(int, int)>, h: int, i: int)
    requires
        0 <= h < hosts.len(),
        0 <= i < p.len(),
    ensures
        visits(hosts, p).len() == hosts.len() * p.len(),
        visits(hosts, p)[h * p.len() + i] == (hosts[h], p[i]),
    decreases hosts.len(),
{
    let n = p.len() as int;
    let rest = hosts.drop_first();
    lemma_visits_count(hosts, p);
    lemma_visits_count(rest, p);
    if h > 0 {
        law_each_host_is_summed_up(rest, p, h - 1, i);
        assert(h * n + i == n + ((h - 1) * n + i)) by (nonlinear_arith);
        assert(0 <= (h - 1) * n + i < rest.len() * n) by (nonlinear_arith)
            requires
                1 <= h <= rest.len(),
                0 <= i < n,
        ;
        assert(visits(hosts, p)[n + ((h - 1) * n + i)] == visits(rest, p)[(h - 1) * n + i]);
    } else {
        assert(0 * n + i == i) by (nonlinear_arith);
    }
}

proof fn lemma_visits_count(hosts: Seq<i64>, p: Seq<(int, int)>)
    ensures
        visits(hosts, p).len() == hosts.len() * p.len(),
    decreases hosts.len(),
{
    let n = p.len() as int;
    let k = hosts.len() as int;
    if k > 0 {
        lemma_visits_count(hosts.drop_first(), p);
        assert(k * n == n + (k - 1) * n) by (nonlinear_arith);
    } else {
        assert(0 * n == 0) by (nonlinear_arith);
    }
}

/// From the start of any of the periods on, the rest of them are planned.
proof fn lemma_periods_from(start: int, end: int, step: int, k: int)
    requires
        step > 0,
        0 <= k < periods(start, end, step).len(),
    ensures
        periods(periods(start, end, step)[k].0, end, step) == periods(start, end, step).skip(k),
    decreases k,
{
    let p = periods(start, end, step);
    if k == 0 {
        assert(p.skip(0) =~= p);
    } else {
        let q = periods(start + step, end, step);
        assert(p[k] == q[k - 1]);
        lemma_periods_from(start + step, end, step, k - 1);
        assert(q.skip(k - 1) =~= p.skip(k));
    }
}

/// From the start of the last period on, that period alone is planned.
pub proof fn law_last_period_alone_is_planned_again(start: int, end: int, step: int)
    requires
        step > 0,
        periods(start, end, step).len() > 0,
    ensures
        periods(periods(start, end, step).last().0, end, step) == seq![
            periods(start, end, step).last(),
        ],
{
    let p = periods(start, end, step);
    lemma_periods_from(start, end, step, p.len() - 1);
    assert(p.skip(p.len() - 1) =~= seq![p.last()]);
}

/// The table after the rows that each visit keeps are put in it, one visit after the
/// other: a row takes the place of the one with the same key.
pub open spec fn table_after<K, V>(
    table: Map<K, V>,
    visited: Seq<(i64, (int, int))>,
    rows: spec_fn((i64, (int, int))) -> Map<K, V>,
) -> Map<K, V>
    decreases visited.len(),
{
    if visited.len() == 0 {
        table
    } else {
        table_after(table, visited.drop_last(), rows).union_prefer_right(rows(visited.last()))
    }
}

/// The rows of a visit are in the table.
pub open spec fn holds_rows<K, V>(table: Map<K, V>, rows: Map<K, V>) -> bool {
    forall|key: K| #[trigger]
        rows.contains_key(key) ==> table.contains_key(key) && table[key] == rows[key]
}

/// No two visits keep different rows under one key.
pub open spec fn rows_agree<K, V>(
    visited: Seq<(i64, (int, int))>,
    rows: spec_fn((i64, (int, int))) -> Map<K, V>,
) -> bool {
    forall|i: int, j: int, key: K|
        0 <= i < visited.len() && 0 <= j < visited.len() && #[trigger] rows(
            visited[i],
        ).contains_key(key) && #[trigger] rows(visited[j]).contains_key(key) ==> rows(
            visited[i],
        )[key] == rows(visited[j])[key]
}

/// The rows of each visit are in the table afterwards.
proof fn lemma_table_holds<K, V>(
    table: Map<K, V>,
    visited: Seq<(i64, (int, int))>,
    rows: spec_fn((i64, (int, int))) -> Map<K, V>,
)
    requires
        rows_agree(visited, rows),
    ensures
        forall|i: int|
            0 <= i < visited.len() ==> holds_rows(
                table_after(table, visited, rows),
                rows(#[trigger] visited[i]),
            ),
    decreases visited.len(),
{
    if visited.len() > 0 {
        let front = visited.drop_last();
        let n = visited.len() - 1;
        assert forall|i: int, j: int, key: K|
            0 <= i < front.len() && 0 <= j < front.len() && #[trigger] rows(
                front[i],
            ).contains_key(key) && #[trigger] rows(front[j]).contains_key(key) implies rows(
            front[i],
        )[key] == rows(front[j])[key] by {
            assert(front[i] == visited[i]);
            assert(front[j] == visited[j]);
        }
        lemma_table_holds(table, front, rows);
        let before = table_after(table, front, rows);
        let after = table_after(table, visited, rows);
        assert forall|i: int| 0 <= i < visited.len() implies holds_rows(
            after,
            rows(#[trigger] visited[i]),
        ) by {
            if i < n {
                assert(front[i] == visited[i]);
                assert(holds_rows(before, rows(front[i])));
                assert forall|key: K| #[trigger] rows(visited[i]).contains_key(
                    key,
                ) implies after.contains_key(key) && after[key] == rows(visited[i])[key] by {
                    if rows(visited[n]).contains_key(key) {
                        assert(rows(visited[i])[key] == rows(visited[n])[key]);
                    }
                }
            }
        }
    }
}

/// Visits whose rows are in the table leave it as it is.
proof fn lemma_table_stays<K, V>(
    table: Map<K, V>,
    visited: Seq<(i64, (int, int))>,
    rows: spec_fn((i64, (int, int))) -> Map<K, V>,
)
    requires
        forall|i: int|
            0 <= i < visited.len() ==> holds_rows(table, rows(#[trigger] visited[i])),
    ensures
        table_after(table, visited, rows) == table,
    decreases visited.len(),
{
    if visited.len() > 0 {
        let front = visited.drop_last();
        assert forall|i: int| 0 <= i < front.len() implies holds_rows(
            table,
            rows(#[trigger] front[i]),
        ) by {
            assert(front[i] == visited[i]);
        }
        lemma_table_stays(table, front, rows);
        assert(holds_rows(table, rows(visited[visited.len() - 1])));
        assert(table.union_prefer_right(rows(visited.last())) =~= table);
    }
}

/// Each visit is to one of the hosts and one of the periods.
proof fn lemma_visited(hosts: Seq<i64>, p: Seq<(int, int)>, v: (i64, (int, int)))
    ensures
        visits(hosts, p).contains(v) <==> hosts.contains(v.0) && p.contains(v.1),
    decreases hosts.len(),
{
    let all = visits(hosts, p);
    if hosts.len() > 0 {
        let rest = hosts.drop_first();
        let first = of_host(hosts[0], p);
        lemma_visited(rest, p, v);
        assert(all =~= first + visits(rest, p));
        if all.contains(v) {
            let i = choose|i: int| 0 <= i < all.len() && all[i] == v;
            if i < first.len() {
                assert(first[i] == (hosts[0], p[i]));
                assert(p.contains(p[i]));
                assert(hosts.contains(hosts[0]));
            } else {
                assert(visits(rest, p)[i - first.len()] == v);
                assert(visits(rest, p).contains(v));
                let j = choose|j: int| 0 <= j < rest.len() && rest[j] == v.0;
                assert(hosts[j + 1] == v.0);
            }
        }
        if hosts.contains(v.0) && p.contains(v.1) {
            let j = choose|j: int| 0 <= j < hosts.len() && hosts[j] == v.0;
            if j == 0 {
                let i = choose|i: int| 0 <= i < p.len() && p[i] == v.1;
                assert(all[i] == v);
            } else {
                assert(rest[j - 1] == v.0);
                assert(rest.contains(v.0));
                let i = choose|i: int|
                    0 <= i < visits(rest, p).len() && visits(rest, p)[i] == v;
                assert(all[first.len() + i] == v);
            }
        }
    }
}

/// The rows that a visit keeps of the reports: one, under the host, the first second
/// and the length of the period, where the reports come to something.
pub open spec fn kept_sums(
    v: (i64, (int, int)),
    interval_minutes: i64,
    sums: spec_fn((i64, (int, int))) -> PeriodSums,
) -> Map<(i64, int, i64), AggregateRow> {
    if sums(v).cpu_usage is Some {
        Map::empty().insert(
            (v.0, v.1.0, interval_minutes),
            aggregate_row(v.0, v.1.0 as i64, interval_minutes, sums(v)),
        )
    } else {
        Map::empty()
    }
}

/// The rows that a visit keeps of the disks: one for each place at which one is mounted,
/// with its size and what of it is used.
pub open spec fn kept_disk_sums(
    v: (i64, (int, int)),
    interval_minutes: i64,
    disks: spec_fn((i64, (int, int))) -> Map<Seq<char>, (Real, Real)>,
) -> Map<(i64, int, i64, Seq<char>), (Real, Real)> {
    Map::new(
        |key: (i64, int, i64, Seq<char>)|
            key.0 == v.0 && key.1 == v.1.0 && key.2 == interval_minutes && disks(v).contains_key(
                key.3,
            ),
        |key: (i64, int, i64, Seq<char>)| disks(v)[key.3],
    )
}

/// Summing up again before another period is over changes nothing, as long as nothing
/// was reported since: what is planned then is the rest of the first plan from the
/// period where it starts, and every row that it keeps is there already, under the same
/// key. `sums` and `disks` are what the reports and the disks of a host come to in a
/// period.
pub proof fn law_summing_up_again_changes_nothing(
    table: Map<(i64, int, i64), AggregateRow>,
    disk_table: Map<(i64, int, i64, Seq<char>), (Real, Real)>,
    hosts: Seq<i64>,
    last: Option<i64>,
    earliest: i64,
    interval_minutes: i64,
    now: i64,
    later: i64,
    k: int,
    sums: spec_fn((i64, (int, int))) -> PeriodSums,
    disks: spec_fn((i64, (int, int))) -> Map<Seq<char>, (Real, Real)>,
)
    requires
        interval_minutes > 0,
        floor_to(now as int, interval_minutes * 60) == floor_to(
            later as int,
            interval_minutes * 60,
        ),
        0 <= k < due_periods(last, earliest, interval_minutes as int, now as int).len(),
    ensures
        ({
            let p = due_periods(last, earliest, interval_minutes as int, now as int);
            let again = due_periods(
                Some(p[k].0 as i64),
                earliest,
                interval_minutes as int,
                later as int,
            );
            let rows = |v: (i64, (int, int))| kept_sums(v, interval_minutes, sums);
            let disk_rows = |v: (i64, (int, int))| kept_disk_sums(v, interval_minutes, disks);
            let once = table_after(table, visits(hosts, p), rows);
            let disks_once = table_after(disk_table, visits(hosts, p), disk_rows);
            &&& again == p.skip(k)
            &&& k == p.len() - 1 ==> again == seq![p.last()]
            &&& table_after(once, visits(hosts, again), rows) == once
            &&& table_after(disks_once, visits(hosts, again), disk_rows) == disks_once
        }),
{
    let step = interval_minutes * 60;
    let p = due_periods(last, earliest, interval_minutes as int, now as int);
    let start = match last {
        Some(t) => t as int,
        None => earliest as int,
    };
    let end = floor_to(now as int, step);
    lemma_floor(now as int, step);
    law_periods_tile(start, end, step);
    lemma_periods_from(start, end, step, k);
    assert(p[k] == (start + k * step, start + (k + 1) * step));
    assert(k * step >= 0) by (nonlinear_arith)
        requires
            k >= 0,
            step > 0,
    ;
    let again = due_periods(
        Some(p[k].0 as i64),
        earliest,
        interval_minutes as int,
        later as int,
    );
    assert(p[k].0 < end);
    assert(again == p.skip(k));
    if k == p.len() - 1 {
        assert(p.skip(k) =~= seq![p.last()]);
    }
    let rows = |v: (i64, (int, int))| kept_sums(v, interval_minutes, sums);
    let disk_rows = |v: (i64, (int, int))| kept_disk_sums(v, interval_minutes, disks);
    let all = visits(hosts, p);
    let part = visits(hosts, again);
    assert forall|i: int, j: int|
        0 <= i < all.len() && 0 <= j < all.len() && (#[trigger] all[i]).0 == (
        #[trigger] all[j]).0 && all[i].1.0 == all[j].1.0 implies all[i] == all[j] by {
        assert(all.contains(all[i]) && all.contains(all[j]));
        lemma_visited(hosts, p, all[i]);
        lemma_visited(hosts, p, all[j]);
        let x = choose|x: int| 0 <= x < p.len() && p[x] == all[i].1;
        let y = choose|y: int| 0 <= y < p.len() && p[y] == all[j].1;
        assert(start + (x + 1) * step == start + x * step + step) by (nonlinear_arith);
        assert(start + (y + 1) * step == start + y * step + step) by (nonlinear_arith);
    }
    assert(rows_agree(all, rows));
    assert(rows_agree(all, disk_rows));
    lemma_table_holds(table, all, rows);
    lemma_table_holds(disk_table, all, disk_rows);
    let once = table_after(table, all, rows);
    let disks_once = table_after(disk_table, all, disk_rows);
    assert forall|i: int| 0 <= i < part.len() implies holds_rows(once, rows(#[trigger] part[i]))
        && holds_rows(disks_once, disk_rows(part[i])) by {
        let v = part[i];
        assert(part.contains(v));
        lemma_visited(hosts, again, v);
        let x = choose|x: int| 0 <= x < again.len() && again[x] == v.1;
        assert(p[x + k] == v.1);
        assert(p.contains(v.1));
        lemma_visited(hosts, p, v);
        let j = choose|j: int| 0 <= j < all.len() && all[j] == v;
        assert(holds_rows(once, rows(all[j])));
        assert(holds_rows(disks_once, disk_rows(all[j])));
    }
    lemma_table_stays(once, part, rows);
    lemma_table_stays(disks_once, part, disk_rows);
}

/// What the reports of a period come to, each part of it where there is one.
#[derive(Clone, Copy, Debug, PartialEq, Eq)]
pub struct PeriodSums {
    pub cpu_usage: Option<Real>,
    pub memory_total: Option<Real>,
    pub memory_used: Option<Real>,
    pub network_in: Option<i64>,
    pub network_out: Option<i64>,
    pub network_in_speed: Option<Real>,
    pub network_out_speed: Option<Real>,
    pub online: Option<bool>,
    pub quality: QualitySums,
}

/// How the carriers answered in a period, each part of it where there is one.
#[derive(Clone, Copy, Debug, PartialEq, Eq)]
pub struct QualitySums {
    pub p_cu_avg: Option<Real>,
    pub p_cu_min: Option<Real>,
    pub p_cu_max: Option<Real>,
    pub t_cu_avg: Option<Real>,
    pub p_ct_avg: Option<Real>,
    pub p_ct_min: Option<Real>,
    pub p_ct_max: Option<Real>,
    pub t_ct_avg: Option<Real>,
    pub p_cm_avg: Option<Real>,
    pub p_cm_min: Option<Real>,
    pub p_cm_max: Option<Real>,
    pub t_cm_avg: Option<Real>,
}

/// How the carriers answered: for each the loss on average, at least and at most, and
/// the average time.
#[derive(Clone, Copy, Debug, PartialEq, Eq)]
pub struct NetQualityRecord {
    pub p_cu_avg: Real,
    pub p_cu_min: Real,
    pub p_cu_max: Real,
    pub t_cu_avg: Real,
    pub p_ct_avg: Real,
    pub p_ct_min: Real,
    pub p_ct_max: Real,
    pub t_ct_avg: Real,
    pub p_cm_avg: Real,
    pub p_cm_min: Real,
    pub p_cm_max: Real,
    pub t_cm_avg: Real,
}

/// A period as it is stored.
#[derive(Clone, Copy, Debug, PartialEq, Eq)]
pub struct AggregateRow {
    pub host_id: i64,
    pub timestamp: i64,
    pub interval_minutes: i64,
    pub cpu_usage: Real,
    pub memory_total: Real,
    pub memory_used: Real,
    pub network_in: i64,
    pub network_out: i64,
    pub network_in_speed: Real,
    pub network_out_speed: Real,
    pub online: bool,
    pub quality: NetQualityRecord,
}

/// A disk of a period as it is stored.
#[derive(Debug)]
pub struct AggregateDiskRow {
    pub host_id: i64,
    pub timestamp: i64,
    pub interval_minutes: i64,
    pub mount_point: String,
    pub total: Real,
    pub used: Real,
}

/// The row keeps what the disk, with where it is mounted, its size and what of it is
/// used, comes to in the period.
pub open spec fn sums_disk(
    r: AggregateDiskRow,
    host_id: i64,
    timestamp: i64,
    interval_minutes: i64,
    d: (String, Real, Real),
) -> bool {
    &&& r.host_id == host_id
    &&& r.timestamp == timestamp
    &&& r.interval_minutes == interval_minutes
    &&& r.mount_point@ == d.0@
    &&& r.total == d.1
    &&& r.used == d.2
}

/// The number, or zero, the pattern of no bit, where there is none.
pub open spec fn or_zero(o: Option<Real>) -> Real {
    (match o {
        Some(r) => r,
        None => Real { bits: 0 },
    })
}

/// The row of a period.
pub open spec fn aggregate_row(
    host_id: i64,
    timestamp: i64,
    interval_minutes: i64,
    s: PeriodSums,
) -> AggregateRow {
    let q = s.quality;
    AggregateRow {
        host_id,
        timestamp,
        interval_minutes,
        cpu_usage: or_zero(s.cpu_usage),
        memory_total: or_zero(s.memory_total),
        memory_used: or_zero(s.memory_used),
        network_in: if s.network_in is Some {
            s.network_in->0
        } else {
            0
        },
        network_out: if s.network_out is Some {
            s.network_out->0
        } else {
            0
        },
        network_in_speed: or_zero(s.network_in_speed),
        network_out_speed: or_zero(s.network_out_speed),
        online: s.online == Some(true),
        quality: NetQualityRecord {
            p_cu_avg: or_zero(q.p_cu_avg),
            p_cu_min: or_zero(q.p_cu_min),
            p_cu_max: or_zero(q.p_cu_max),
            t_cu_avg: or_zero(q.t_cu_avg),
            p_ct_avg: or_zero(q.p_ct_avg),
            p_ct_min: or_zero(q.p_ct_min),
            p_ct_max: or_zero(q.p_ct_max),
            t_ct_avg: or_zero(q.t_ct_avg),
            p_cm_avg: or_zero(q.p_cm_avg),
            p_cm_min: or_zero(q.p_cm_min),
            p_cm_max: or_zero(q.p_cm_max),
            t_cm_avg: or_zero(q.t_cm_avg),
        },
    }
}

/// The number, or zero where there is none.
fn real_or_zero(o: Option<Real>) -> (r: Real)
    ensures
        r == or_zero(o),
{
    match o {
        Some(r) => r,
        None => Real { bits: 0 },
    }
}

impl Database {
    /// The periods to sum up at the second `now`.
    pub fn plan_aggregation(
        last: Option<i64>,
        earliest: i64,
        interval_minutes: i64,
        now: i64,
    ) -> (r: Periods)
        requires
            0 < interval_minutes,
            interval_minutes * 60 <= i64::MAX,
            floor_to(now as int, interval_minutes * 60) + interval_minutes * 60 <= i64::MAX,
        ensures
            r.wf(),
            r.all() == due_periods(last, earliest, interval_minutes as int, now as int),
    {
        let step: i64 = interval_minutes * 60;
        proof {
            lemma_floor(now as int, step as int);
        }
        let end: i64 = if now >= 0 {
            now / step * step
        } else {
            let whole: u64 = if now == i64::MIN {
                0x8000_0000_0000_0000
            } else {
                (-now) as u64
            };
            let floor: u64 = whole / step as u64 * step as u64;
            if floor == 0x8000_0000_0000_0000 {
                i64::MIN
            } else {
                -(floor as i64)
            }
        };
        let start: i64 = match last {
            Some(t) => t,
            None => earliest,
        };
        Periods { current: start, end, step }
    }

    /// The periods to sum up now.
    pub fn aggregate_data(last: Option<i64>, earliest: i64, interval_minutes: i64) -> (r: Periods)
        requires
            0 < interval_minutes,
            interval_minutes * 60 <= i64::MAX,
        ensures
            r.wf(),
            exists|now: int|
                0 <= now <= CLOCK_LIMIT && r.all() == #[trigger] due_periods(
                    last,
                    earliest,
                    interval_minutes as int,
                    now,
                ),
    {
        let now: i64 = utc_timestamp();
        proof {
            let step = interval_minutes * 60;
            lemma_floor(now as int, step);
            if 0 <= now < step {
                assert(now as int / step == 0) by (nonlinear_arith)
                    requires
                        0 <= now < step,
                ;
            }
        }
        Database::plan_aggregation(last, earliest, interval_minutes, now)
    }

    /// The row that keeps the sums of a period, or `None` where no report of it gave the
    /// processor's use.
    pub fn aggregate_period(
        host_id: i64,
        timestamp: i64,
        interval_minutes: i64,
        sums: &PeriodSums,
    ) -> (r: Option<AggregateRow>)
        ensures
            r == (if sums.cpu_usage is Some {
                Some(aggregate_row(host_id, timestamp, interval_minutes, *sums))
            } else {
                None
            }),
    {
        if sums.cpu_usage.is_none() {
            return None;
        }
        let q = &sums.quality;
        Some(
            AggregateRow {
                host_id,
                timestamp,
                interval_minutes,
                cpu_usage: real_or_zero(sums.cpu_usage),
                memory_total: real_or_zero(sums.memory_total),
                memory_used: real_or_zero(sums.memory_used),
                network_in: match sums.network_in {
                    Some(n) => n,
                    None => 0,
                },
                network_out: match sums.network_out {
                    Some(n) => n,
                    None => 0,
                },
                network_in_speed: real_or_zero(sums.network_in_speed),
                network_out_speed: real_or_zero(sums.network_out_speed),
                online: match sums.online {
                    Some(b) => b,
                    None => false,
                },
                quality: NetQualityRecord {
                    p_cu_avg: real_or_zero(q.p_cu_avg),
                    p_cu_min: real_or_zero(q.p_cu_min),
                    p_cu_max: real_or_zero(q.p_cu_max),
                    t_cu_avg: real_or_zero(q.t_cu_avg),
                    p_ct_avg: real_or_zero(q.p_ct_avg),
                    p_ct_min: real_or_zero(q.p_ct_min),
                    p_ct_max: real_or_zero(q.p_ct_max),
                    t_ct_avg: real_or_zero(q.t_ct_avg),
                    p_cm_avg: real_or_zero(q.p_cm_avg),
                    p_cm_min: real_or_zero(q.p_cm_min),
                    p_cm_max: real_or_zero(q.p_cm_max),
                    t_cm_avg: real_or_zero(q.t_cm_avg),
                },
            },
        )
    }

    /// The rows that keep the sums of a period's disks, one for each that is mounted
    /// somewhere.
    pub fn aggregate_disks(
        host_id: i64,
        timestamp: i64,
        interval_minutes: i64,
        disks: &Vec<(String, Real, Real)>,
    ) -> (r: Vec<AggregateDiskRow>)
        ensures
            r@.len() == disks@.len(),
            forall|i: int|
                0 <= i < r@.len() ==> sums_disk(
                    #[trigger] r@[i],
                    host_id,
                    timestamp,
                    interval_minutes,
                    disks@[i],
                ),
    {
        let n: usize = disks.len();
        let mut r: Vec<AggregateDiskRow> = Vec::new();
        let mut i: usize = 0;
        while i < n
            invariant
                i <= n,
                n == disks@.len(),
                r@.len() == i,
                forall|k: int|
                    0 <= k < i ==> sums_disk(
                        #[trigger] r@[k],
                        host_id,
                        timestamp,
                        interval_minutes,
                        disks@[k],
                    ),
            decreases n - i,
        {
            r.push(
                AggregateDiskRow {
                    host_id,
                    timestamp,
                    interval_minutes,
                    mount_point: disks[i].0.clone(),
                    total: disks[i].1,
                    used: disks[i].2,
                },
            );
            i = i + 1;
        }
        r
    }

    /// The lengths of the periods that are summed up in turn, in minutes.
    pub fn run_scheduled_aggregation() -> (r: Vec<i64>)
        ensures
            r@ == seq![5i64, 30i64],
            r@ == summed_lengths(),
    {
        let mut r: Vec<i64> = Vec::new();
        r.push(5);
        r.push(30);
        assert(r@ =~= seq![5i64, 30i64]);
        r
    }
}

// ---------------------------------------------------------------------------
// Clearing
// ---------------------------------------------------------------------------

/// The statements that clear the reports and their disks, and then the periods and
/// theirs.
pub const CLEAR: [&'static str; 4] = [
    "DELETE FROM stats WHERE timestamp < ?",
    "DELETE FROM disk_stats WHERE timestamp < ?",
    "DELETE FROM aggregated_stats WHERE timestamp < ?",
    "DELETE FROM aggregated_disk_stats WHERE timestamp < ?",
];

/// Frees the space of what was cleared, and measures what is left.
pub const COMPACT: &'static str = "VACUUM; ANALYZE;";

/// The seconds of a day.
pub const DAY: i64 = 86400;

/// What is older than these seconds is cleared: reports before `raw`, periods before
/// `aggregated`.
#[derive(Clone, Copy, Debug, PartialEq, Eq)]
pub struct Cutoffs {
    pub raw: i64,
    pub aggregated: i64,
}

/// The second `days` days before `now` can be held, and so can those days in seconds.
pub open spec fn cutoff_fits(now: int, days: int) -> bool {
    &&& i64::MIN <= days * DAY <= i64::MAX
    &&& i64::MIN <= now - days * DAY <= i64::MAX
}

impl Cutoffs {
    /// The statements that clear what is older, each with the second to hand to it.
    pub fn statements(&self) -> (r: [(&'static str, i64); 4])
        ensures
            r@ == seq![
                (CLEAR@[0], self.raw),
                (CLEAR@[1], self.raw),
                (CLEAR@[2], self.aggregated),
                (CLEAR@[3], self.aggregated),
            ],
    {
        let r = [
            (CLEAR[0], self.raw),
            (CLEAR[1], self.raw),
            (CLEAR[2], self.aggregated),
            (CLEAR[3], self.aggregated),
        ];
        assert(r@ =~= seq![
            (CLEAR@[0], self.raw),
            (CLEAR@[1], self.raw),
            (CLEAR@[2], self.aggregated),
            (CLEAR@[3], self.aggregated),
        ]);
        r
    }
}

impl Database {
    /// What is cleared at the second `now`, where reports are kept for
    /// `raw_retention_days` and periods for `agg_retention_days`.
    pub fn cutoffs_at(now: i64, raw_retention_days: i64, agg_retention_days: i64) -> (r: Cutoffs)
        requires
            cutoff_fits(now as int, raw_retention_days as int),
            cutoff_fits(now as int, agg_retention_days as int),
        ensures
            r.raw == now - raw_retention_days * DAY,
            r.aggregated == now - agg_retention_days * DAY,
            r.raw == now - raw_retention_days * 86_400,
            r.aggregated == now - agg_retention_days * 86_400,
    {
        Cutoffs {
            raw: now - (raw_retention_days * DAY),
            aggregated: now - (agg_retention_days * DAY),
        }
    }

    /// What is cleared now.
    pub fn cleanup_old_data(raw_retention_days: i64, agg_retention_days: i64) -> (r: Cutoffs)
        requires
            forall|now: int|
                0 <= now <= CLOCK_LIMIT ==> #[trigger] cutoff_fits(
                    now,
                    raw_retention_days as int,
                ) && cutoff_fits(now, agg_retention_days as int),
        ensures
            exists|now: int|
                #![trigger now - raw_retention_days * DAY]
                0 <= now <= CLOCK_LIMIT && r.raw == now - raw_retention_days * DAY
                    && r.aggregated == now - agg_retention_days * DAY,
    {
        let now: i64 = utc_timestamp();
        assert(cutoff_fits(now as int, raw_retention_days as int));
        Database::cutoffs_at(now, raw_retention_days, agg_retention_days)
    }

    /// What the daily clearing takes: reports older than three days, and periods older
    /// than ninety.
    pub fn optimize() -> (r: Cutoffs)
        ensures
            r.raw - r.aggregated == 87 * DAY,
            r.raw - r.aggregated == 87 * 86_400,
            -3 * 86_400 <= r.raw,
            -3 * DAY <= r.raw <= CLOCK_LIMIT - 3 * DAY,
    {
        Database::cleanup_old_data(3, 90)
    }
}

// ---------------------------------------------------------------------------
// Reading a span of time
// ---------------------------------------------------------------------------

/// The hosts with their names and aliases.
pub const SELECT_HOSTS: &'static str = "SELECT id, name, alias FROM hosts";

/// The periods of a host.
pub const SELECT_PERIODS: &'static str =
    "SELECT timestamp, cpu_usage, memory_total, memory_used,
                            network_in, network_out, network_in_speed, network_out_speed, online,
                            p_cu_avg, p_cu_min, p_cu_max, t_cu_avg,
                            p_ct_avg, p_ct_min, p_ct_max, t_ct_avg,
                            p_cm_avg, p_cm_min, p_cm_max, t_cm_avg
                     FROM aggregated_stats
                     WHERE host_id = ? AND timestamp BETWEEN ? AND ? AND interval_minutes = ?
                     ORDER BY timestamp ASC LIMIT ?";

/// The reports of a host.
pub const SELECT_REPORTS: &'static str =
    "SELECT timestamp, cpu_usage, memory_total, memory_used,
                            network_in, network_out, network_in_speed, network_out_speed, online,
                            ping_10010, ping_189, ping_10086, time_10010, time_189, time_10086
                     FROM stats WHERE host_id = ? AND timestamp BETWEEN ? AND ? ORDER BY timestamp ASC LIMIT ?";

/// A disk at a point in time.
#[derive(Debug)]
pub struct DiskRecord {
    pub timestamp: i64,
    pub mount_point: String,
    pub total: i64,
    pub used: i64,
}

/// A host at a point in time.
#[derive(Debug)]
pub struct HostStatRecord {
    pub timestamp: i64,
    pub alias: String,
    pub cpu: Real,
    pub memory_total: i64,
    pub memory_used: i64,
    pub network_in: i64,
    pub network_out: i64,
    pub network_in_speed: i64,
    pub network_out_speed: i64,
    pub online: bool,
    pub disks: Vec<DiskRecord>,
    pub net_quality: Option<NetQualityRecord>,
}

/// The readings of a row, be it of a report or of a period.
#[derive(Clone, Copy, Debug, PartialEq, Eq)]
pub struct RowReadings {
    pub timestamp: i64,
    pub cpu: Real,
    pub memory_total: i64,
    pub memory_used: i64,
    pub network_in: i64,
    pub network_out: i64,
    pub network_in_speed: i64,
    pub network_out_speed: i64,
    pub online: bool,
}

/// How the carriers answered at a report.
#[derive(Clone, Copy, Debug, PartialEq, Eq)]
pub struct QualityReadings {
    pub p_cu: Real,
    pub p_ct: Real,
    pub p_cm: Real,
    pub t_cu: Real,
    pub t_ct: Real,
    pub t_cm: Real,
}

/// A report's columns as the store holds them.
#[derive(Clone, Copy, Debug, PartialEq, Eq)]
pub struct ReportRow {
    pub timestamp: i64,
    pub cpu_usage: Real,
    pub memory_total: i64,
    pub memory_used: i64,
    pub network_in: i64,
    pub network_out: i64,
    pub network_in_speed: i64,
    pub network_out_speed: i64,
    pub online: bool,
    pub ping_10010: Real,
    pub ping_189: Real,
    pub ping_10086: Real,
    pub time_10010: Real,
    pub time_189: Real,
    pub time_10086: Real,
}

/// The store can hold the row: none of its numbers is above the largest that is signed.
pub open spec fn storable(row: StatRow) -> bool {
    &&& row.timestamp <= i64::MAX
    &&& row.memory_total <= i64::MAX
    &&& row.memory_used <= i64::MAX
    &&& row.network_in <= i64::MAX
    &&& row.network_out <= i64::MAX
    &&& row.network_in_speed <= i64::MAX
    &&& row.network_out_speed <= i64::MAX
}

/// The columns hold what the row says.
pub open spec fn holds_report(c: ReportRow, row: StatRow) -> bool {
    &&& c.timestamp == row.timestamp
    &&& c.cpu_usage == row.cpu_usage
    &&& c.memory_total == row.memory_total
    &&& c.memory_used == row.memory_used
    &&& c.network_in == row.network_in
    &&& c.network_out == row.network_out
    &&& c.network_in_speed == row.network_in_speed
    &&& c.network_out_speed == row.network_out_speed
    &&& c.online == row.online
    &&& c.ping_10010 == row.ping_10010
    &&& c.ping_189 == row.ping_189
    &&& c.ping_10086 == row.ping_10086
    &&& c.time_10010 == row.time_10010
    &&& c.time_189 == row.time_189
    &&& c.time_10086 == row.time_10086
}

impl StatRow {
    /// The row's columns as the store holds them, or `None` where it cannot.
    pub fn columns(&self) -> (r: Option<ReportRow>)
        ensures
            r is Some <==> storable(*self),
            r is Some ==> holds_report(r->0, *self),
    {
        let max: u64 = i64::MAX as u64;
        if self.timestamp > max || self.memory_total > max || self.memory_used > max
            || self.network_in > max || self.network_out > max || self.network_in_speed > max
            || self.network_out_speed > max {
            return None;
        }
        Some(
            ReportRow {
                timestamp: self.timestamp as i64,
                cpu_usage: self.cpu_usage,
                memory_total: self.memory_total as i64,
                memory_used: self.memory_used as i64,
                network_in: self.network_in as i64,
                network_out: self.network_out as i64,
                network_in_speed: self.network_in_speed as i64,
                network_out_speed: self.network_out_speed as i64,
                online: self.online,
                ping_10010: self.ping_10010,
                ping_189: self.ping_189,
                ping_10086: self.ping_10086,
                time_10010: self.time_10010,
                time_189: self.time_189,
                time_10086: self.time_10086,
            },
        )
    }
}

/// The readings that the columns hold.
pub open spec fn column_readings(c: ReportRow) -> RowReadings {
    RowReadings {
        timestamp: c.timestamp,
        cpu: c.cpu_usage,
        memory_total: c.memory_total,
        memory_used: c.memory_used,
        network_in: c.network_in,
        network_out: c.network_out,
        network_in_speed: c.network_in_speed,
        network_out_speed: c.network_out_speed,
        online: c.online,
    }
}

/// How the carriers answered, by the columns: the loss is the `ping` of a carrier, and
/// the time its `time`.
pub open spec fn column_quality(c: ReportRow) -> QualityReadings {
    QualityReadings {
        p_cu: c.ping_10010,
        p_ct: c.ping_189,
        p_cm: c.ping_10086,
        t_cu: c.time_10010,
        t_ct: c.time_189,
        t_cm: c.time_10086,
    }
}

impl ReportRow {
    /// The readings that the columns hold.
    pub fn readings(&self) -> (r: RowReadings)
        ensures
            r == column_readings(*self),
    {
        RowReadings {
            timestamp: self.timestamp,
            cpu: self.cpu_usage,
            memory_total: self.memory_total,
            memory_used: self.memory_used,
            network_in: self.network_in,
            network_out: self.network_out,
            network_in_speed: self.network_in_speed,
            network_out_speed: self.network_out_speed,
            online: self.online,
        }
    }

    /// How the carriers answered.
    pub fn quality(&self) -> (r: QualityReadings)
        ensures
            r == column_quality(*self),
    {
        QualityReadings {
            p_cu: self.ping_10010,
            p_ct: self.ping_189,
            p_cm: self.ping_10086,
            t_cu: self.time_10010,
            t_ct: self.time_189,
            t_cm: self.time_10086,
        }
    }
}

/// A single reading is its own average, least and most.
pub open spec fn flat_quality(q: QualityReadings) -> NetQualityRecord {
    NetQualityRecord {
        p_cu_avg: q.p_cu,
        p_cu_min: q.p_cu,
        p_cu_max: q.p_cu,
        t_cu_avg: q.t_cu,
        p_ct_avg: q.p_ct,
        p_ct_min: q.p_ct,
        p_ct_max: q.p_ct,
        t_ct_avg: q.t_ct,
        p_cm_avg: q.p_cm,
        p_cm_min: q.p_cm,
        p_cm_max: q.p_cm,
        t_cm_avg: q.t_cm,
    }
}

/// The record says what the row says of the host with this alias; it tells of no disk.
pub open spec fn records(
    r: HostStatRecord,
    row: RowReadings,
    quality: NetQualityRecord,
    alias: Seq<char>,
) -> bool {
    &&& r.timestamp == row.timestamp
    &&& r.alias@ == alias
    &&& r.cpu == row.cpu
    &&& r.memory_total == row.memory_total
    &&& r.memory_used == row.memory_used
    &&& r.network_in == row.network_in
    &&& r.network_out == row.network_out
    &&& r.network_in_speed == row.network_in_speed
    &&& r.network_out_speed == row.network_out_speed
    &&& r.online == row.online
    &&& r.disks@.len() == 0
    &&& r.net_quality == Some(quality)
}

/// How a span of time is read: in periods of `interval` minutes, or by the reports
/// themselves where that is zero; at most `limit` rows of a host, the earliest first.
#[derive(Clone, Copy, Debug, PartialEq, Eq)]
pub struct SpanQuery {
    pub start: i64,
    pub end: i64,
    pub interval: i64,
    pub limit: i64,
}

impl SpanQuery {
    /// Whether periods are read, and not the reports themselves.
    pub fn in_periods(&self) -> (r: bool)
        ensures
            r == (self.interval > 0),
    {
        self.interval > 0
    }

    /// The statement that reads the rows of a host.
    pub fn statement(&self) -> (r: &'static str)
        ensures
            r@ == (if self.interval > 0 {
                SELECT_PERIODS@
            } else {
                SELECT_REPORTS@
            }),
    {
        if self.in_periods() {
            SELECT_PERIODS
        } else {
            SELECT_REPORTS
        }
    }

    /// What is to be handed to the statement for the host `host_id`.
    pub fn arguments(&self, host_id: i64) -> (r: Vec<i64>)
        ensures
            r@ == (if self.interval > 0 {
                seq![host_id, self.start, self.end, self.interval, self.limit]
            } else {
                seq![host_id, self.start, self.end, self.limit]
            }),
    {
        let mut r: Vec<i64> = Vec::new();
        r.push(host_id);
        r.push(self.start);
        r.push(self.end);
        if self.in_periods() {
            r.push(self.interval);
        }
        r.push(self.limit);
        proof {
            if self.interval > 0 {
                assert(r@ =~= seq![host_id, self.start, self.end, self.interval, self.limit]);
            } else {
                assert(r@ =~= seq![host_id, self.start, self.end, self.limit]);
            }
        }
        r
    }
}

/// The length of the periods in which a span of `range` seconds is read: half an hour
/// above three days, five minutes above one, otherwise the reports themselves.
pub open spec fn granularity(range: int) -> i64 {
    if range > 3 * DAY {
        30
    } else if range > DAY {
        5
    } else {
        0
    }
}

/// The records of the hosts that have some, by name.
pub open spec fn gathered(rows: Seq<(Seq<char>, Seq<HostStatRecord>)>) -> Seq<
    (Seq<char>, Seq<HostStatRecord>),
>
    decreases rows.len(),
{
    if rows.len() == 0 {
        Seq::empty()
    } else {
        let front = gathered(rows.drop_last());
        if rows.last().1.len() > 0 {
            put(front, rows.last().0, rows.last().1)
        } else {
            front
        }
    }
}

/// What a list of hosts with their records says.
pub open spec fn row_views(v: Seq<(String, Vec<HostStatRecord>)>) -> Seq<
    (Seq<char>, Seq<HostStatRecord>),
> {
    v.map_values(|e: (String, Vec<HostStatRecord>)| (e.0@, e.1@))
}

impl Database {
    /// How the span from `start` to `end` is read.
    pub fn get_stats_by_timerange(start: i64, end: i64) -> (r: SpanQuery)
        requires
            i64::MIN <= end - start <= i64::MAX,
        ensures
            r == (SpanQuery { start, end, interval: granularity(end - start), limit: 1000 }),
            end - start > 3 * 86_400 ==> r.interval == 30,
            86_400 < end - start <= 3 * 86_400 ==> r.interval == 5,
            end - start <= 86_400 ==> r.interval == 0,
    {
        let range: i64 = end - start;
        let interval: i64 = if range > 3 * DAY {
            30
        } else if range > DAY {
            5
        } else {
            0
        };
        SpanQuery { start, end, interval, limit: 1000 }
    }

    /// The record of a period.
    pub fn period_record(row: &RowReadings, quality: NetQualityRecord, alias: &str) -> (r:
        HostStatRecord)
        ensures
            records(r, *row, quality, alias@),
    {
        HostStatRecord {
            timestamp: row.timestamp,
            alias: alias.to_owned(),
            cpu: row.cpu,
            memory_total: row.memory_total,
            memory_used: row.memory_used,
            network_in: row.network_in,
            network_out: row.network_out,
            network_in_speed: row.network_in_speed,
            network_out_speed: row.network_out_speed,
            online: row.online,
            disks: Vec::new(),
            net_quality: Some(quality),
        }
    }

    /// The record of a report that the store holds in these columns.
    pub fn report_record(columns: &ReportRow, alias: &str) -> (r: HostStatRecord)
        ensures
            records(
                r,
                column_readings(*columns),
                flat_quality(column_quality(*columns)),
                alias@,
            ),
    {
        let row = columns.readings();
        let q = columns.quality();
        let quality = NetQualityRecord {
            p_cu_avg: q.p_cu,
            p_cu_min: q.p_cu,
            p_cu_max: q.p_cu,
            t_cu_avg: q.t_cu,
            p_ct_avg: q.p_ct,
            p_ct_min: q.p_ct,
            p_ct_max: q.p_ct,
            t_ct_avg: q.t_ct,
            p_cm_avg: q.p_cm,
            p_cm_min: q.p_cm,
            p_cm_max: q.p_cm,
            t_cm_avg: q.t_cm,
        };
        Database::period_record(&row, quality, alias)
    }

    /// The records of the hosts that have some, by name.
    pub fn gather_records(rows: Vec<(String, Vec<HostStatRecord>)>) -> (r: Registry<
        Vec<HostStatRecord>,
    >)
        ensures
            r.wf(),
            r@ == gathered(row_views(rows@)),
    {
        let ghost v = row_views(rows@);
        let ghost all = rows@;
        let mut r: Registry<Vec<HostStatRecord>> = Registry::new();
        assert(v.take(0) =~= Seq::<(Seq<char>, Seq<HostStatRecord>)>::empty());
        for e in it: rows.into_iter()
            invariant
                it.seq() == all,
                v == row_views(all),
                r.wf(),
                r@ == gathered(v.take(it.index() as int)),
        {
            let ghost i = it.index() as int;
            let (name, list) = e;
            proof {
                assert(v[i] == (name@, list@));
                assert(v.take(i + 1).drop_last() =~= v.take(i));
                assert(v.take(i + 1).last() == v[i]);
            }
            if list.len() > 0 {
                r.insert(name, list);
            }
        }
        assert(v.take(v.len() as int) =~= v);
        r
    }
}

/// A report that was stored is read back as it was: the record says what the report did,
/// of each carrier the loss, as average, least and most alike, and the time.
pub proof fn law_report_is_read_back(
    host_id: i64,
    stat: HostStatView,
    columns: ReportRow,
    r: HostStatRecord,
    alias: Seq<char>,
)
    requires
        holds_report(columns, stat_row(host_id, stat)),
        records(r, column_readings(columns), flat_quality(column_quality(columns)), alias),
    ensures
        r.timestamp == stat.latest_ts,
        r.alias@ == alias,
        r.cpu == stat.metrics.cpu,
        r.memory_total == stat.metrics.memory_total,
        r.memory_used == stat.metrics.memory_used,
        r.network_in == stat.network_in,
        r.network_out == stat.network_out,
        r.network_in_speed == stat.metrics.network_rx,
        r.network_out_speed == stat.metrics.network_tx,
        r.online == (stat.online4 || stat.online6),
        r.net_quality matches Some(q) && {
            &&& q.p_cu_avg == stat.metrics.ping_10010
            &&& q.p_cu_min == stat.metrics.ping_10010
            &&& q.p_cu_max == stat.metrics.ping_10010
            &&& q.t_cu_avg == stat.metrics.time_10010
            &&& q.p_ct_avg == stat.metrics.ping_189
            &&& q.p_ct_min == stat.metrics.ping_189
            &&& q.p_ct_max == stat.metrics.ping_189
            &&& q.t_ct_avg == stat.metrics.time_189
            &&& q.p_cm_avg == stat.metrics.ping_10086
            &&& q.p_cm_min == stat.metrics.ping_10086
            &&& q.p_cm_max == stat.metrics.ping_10086
            &&& q.t_cm_avg == stat.metrics.time_10086
        },
{
}

/// No host without records is among those gathered.
pub proof fn law_gathered_hosts_have_records(
    rows: Seq<(Seq<char>, Seq<HostStatRecord>)>,
    i: int,
)
    requires
        0 <= i < gathered(rows).len(),
    ensures
        gathered(rows)[i].1.len() > 0,
    decreases rows.len(),
{
    if rows.len() > 0 {
        let front = gathered(rows.drop_last());
        if rows.last().1.len() > 0 {
            let k = rows.last().0;
            let v = rows.last().1;
            crate::registry::lemma_lookup_place(front, k);
            if crate::registry::lookup(front, k) is Some {
                let j = choose|j: int| #[trigger]
                    crate::registry::place(front, k, j) && crate::registry::lookup(front, k)
                        == Some(front[j].1);
                crate::registry::lemma_put_at(front, k, v, j);
                if i != j {
                    law_gathered_hosts_have_records(rows.drop_last(), i);
                }
            } else {
                crate::registry::lemma_put_new(front, k, v);
                if i < front.len() {
                    law_gathered_hosts_have_records(rows.drop_last(), i);
                }
            }
        } else {
            law_gathered_hosts_have_records(rows.drop_last(), i);
        }
    }
}

} // verus!
