//! What holds of the store: what a report leaves in it, what it is summed up to, what is
//! cleared, and what is read back.
use vstd::prelude::*;
use crate::payload::{HostStatView, Real};
use crate::registry::{law_lookup_put, lookup};
use crate::server::db::{
    aggregate_row, column_quality, column_readings, counter_values, cutoff_fits, disk_row_views,
    disk_rows, due_periods, flat_quality, floor_to, gathered, granularity, holds_report,
    kept_disk_sums, kept_sums, migrations, periods, records, restored_counter, row_views, schema,
    stat_row, storable, stored_counter, stored_views, str_views, summed_lengths, sums_disk,
    AggregateDiskRow, DiskRow, HostStatRecord, NetQualityRecord, PeriodSums, ReportRow,
    RowReadings, StatRow, CLEAR, DAY, MIGRATED,
};

verus! {

// ---------------------------------------------------------------------------
// A report in the store
// ---------------------------------------------------------------------------

/// The row of a report says what the report says, part by part: each reading stands in the
/// column of its own name, and the host counts as online where it is so over either
/// protocol.
pub proof fn law_row_says_what_the_report_says(host_id: i64, s: HostStatView)
    ensures
        ({
            let row = stat_row(host_id, s);
            &&& row.host_id == host_id
            &&& row.timestamp == s.latest_ts
            &&& row.cpu_usage == s.metrics.cpu
            &&& row.memory_total == s.metrics.memory_total
            &&& row.memory_used == s.metrics.memory_used
            &&& row.network_in == s.network_in
            &&& row.network_out == s.network_out
            &&& row.network_in_speed == s.metrics.network_rx
            &&& row.network_out_speed == s.metrics.network_tx
            &&& row.online <==> s.online4 || s.online6
            &&& row.ping_10010 == s.metrics.ping_10010
            &&& row.ping_189 == s.metrics.ping_189
            &&& row.ping_10086 == s.metrics.ping_10086
            &&& row.time_10010 == s.metrics.time_10010
            &&& row.time_189 == s.metrics.time_189
            &&& row.time_10086 == s.metrics.time_10086
        }),
{
}

/// Each disk of a report gets a row, in the order of the disks, with the second of the
/// report and the disk's own place, size and use.
pub proof fn law_each_disk_gets_a_row(host_id: i64, s: HostStatView, i: int)
    requires
        0 <= i < s.disks.len(),
    ensures
        disk_rows(host_id, s).len() == s.disks.len(),
        disk_rows(host_id, s)[i].host_id == host_id,
        disk_rows(host_id, s)[i].timestamp == s.latest_ts,
        disk_rows(host_id, s)[i].mount_point == s.disks[i].mount_point,
        disk_rows(host_id, s)[i].total == s.disks[i].total,
        disk_rows(host_id, s)[i].used == s.disks[i].used,
{
}

/// The store can hold a row exactly where none of its numbers takes the highest bit, and
/// the columns then hold the same numbers under the same names.
pub proof fn law_columns_hold_the_row(c: ReportRow, row: StatRow)
    ensures
        storable(row) <==> {
            &&& row.timestamp < 0x8000_0000_0000_0000
            &&& row.memory_total < 0x8000_0000_0000_0000
            &&& row.memory_used < 0x8000_0000_0000_0000
            &&& row.network_in < 0x8000_0000_0000_0000
            &&& row.network_out < 0x8000_0000_0000_0000
            &&& row.network_in_speed < 0x8000_0000_0000_0000
            &&& row.network_out_speed < 0x8000_0000_0000_0000
        },
        holds_report(c, row) ==> {
            &&& c.timestamp == row.timestamp
            &&& c.cpu_usage == row.cpu_usage
            &&& c.memory_total == row.memory_total
            &&& c.memory_used == row.memory_used
            &&& c.network_in == row.network_in
            &&& c.network_out == row.network_out
            &&& c.network_in_speed == row.network_in_speed
            &&& c.network_out_speed == row.network_out_speed
            &&& c.online == row.online
            &&& c.ping_10010 == row.ping_10010
            &&& c.ping_189 == row.ping_189
            &&& c.ping_10086 == row.ping_10086
            &&& c.time_10010 == row.time_10010
            &&& c.time_189 == row.time_189
            &&& c.time_10086 == row.time_10086
        },
{
}

/// What the columns of a report are read as, part by part: the readings under their own
/// names, the loss of each carrier from its `ping` and the time from its `time`, and the
/// single reading as average, least and most alike.
pub proof fn law_columns_are_read_as_they_are(c: ReportRow)
    ensures
        column_readings(c).timestamp == c.timestamp,
        column_readings(c).cpu == c.cpu_usage,
        column_readings(c).memory_total == c.memory_total,
        column_readings(c).memory_used == c.memory_used,
        column_readings(c).network_in == c.network_in,
        column_readings(c).network_out == c.network_out,
        column_readings(c).network_in_speed == c.network_in_speed,
        column_readings(c).network_out_speed == c.network_out_speed,
        column_readings(c).online == c.online,
        ({
            let q = flat_quality(column_quality(c));
            &&& q.p_cu_avg == c.ping_10010 && q.p_cu_min == c.ping_10010 && q.p_cu_max
                == c.ping_10010 && q.t_cu_avg == c.time_10010
            &&& q.p_ct_avg == c.ping_189 && q.p_ct_min == c.ping_189 && q.p_ct_max == c.ping_189
                && q.t_ct_avg == c.time_189
            &&& q.p_cm_avg == c.ping_10086 && q.p_cm_min == c.ping_10086 && q.p_cm_max
                == c.ping_10086 && q.t_cm_avg == c.time_10086
        }),
{
}

/// A record says what its row says, part by part, and tells of no disk.
pub proof fn law_record_says_what_the_row_says(
    r: HostStatRecord,
    row: RowReadings,
    quality: NetQualityRecord,
    alias: Seq<char>,
)
    requires
        records(r, row, quality, alias),
    ensures
        r.timestamp == row.timestamp,
        r.alias@ == alias,
        r.cpu == row.cpu,
        r.memory_total == row.memory_total,
        r.memory_used == row.memory_used,
        r.network_in == row.network_in,
        r.network_out == row.network_out,
        r.network_in_speed == row.network_in_speed,
        r.network_out_speed == row.network_out_speed,
        r.online == row.online,
        r.disks@.len() == 0,
        r.net_quality == Some(quality),
{
}

/// A counter is stored as the signed number that has the same bits: one without the
/// highest bit as itself, and any other as what it is below the next power of two.
pub proof fn law_counter_keeps_its_bits(n: u64, k: i64)
    ensures
        n < 0x8000_0000_0000_0000 ==> stored_counter(n) == n,
        n >= 0x8000_0000_0000_0000 ==> stored_counter(n) == n - 0x1_0000_0000_0000_0000,
        k >= 0 ==> restored_counter(k) == k,
        k < 0 ==> restored_counter(k) == 0x1_0000_0000_0000_0000 + k,
{
}

/// The stored counters are read back host by host: each under its name, received and sent
/// in their places.
pub proof fn law_counters_are_read_back_in_place(
    v: Seq<(String, u64, u64)>,
    rows: Seq<(String, i64, i64)>,
    i: int,
)
    requires
        counter_values(v) == stored_views(rows),
        0 <= i < rows.len(),
    ensures
        v.len() == rows.len(),
        v[i].0@ == rows[i].0@,
        v[i].1 as int == restored_counter(rows[i].1),
        v[i].2 as int == restored_counter(rows[i].2),
{
    let a = counter_values(v);
    let b = stored_views(rows);
    assert(a.len() == v.len());
    assert(b.len() == rows.len());
    assert(a[i] == (v[i].0@, v[i].1 as int, v[i].2 as int));
    assert(b[i] == (rows[i].0@, restored_counter(rows[i].1), restored_counter(rows[i].2)));
}

// ---------------------------------------------------------------------------
// Summing up
// ---------------------------------------------------------------------------

/// A period is kept as what its reports come to, part by part: each column that has a
/// value in the sums carries the value of the same name, of each carrier the loss on
/// average, at least and at most and the time, and one that has none carries zero.
pub proof fn law_period_is_kept_part_by_part(
    host_id: i64,
    timestamp: i64,
    interval_minutes: i64,
    s: PeriodSums,
)
    ensures
        ({
            let row = aggregate_row(host_id, timestamp, interval_minutes, s);
            &&& row.host_id == host_id
            &&& row.timestamp == timestamp
            &&& row.interval_minutes == interval_minutes
            &&& s.cpu_usage matches Some(v) ==> row.cpu_usage == v
            &&& s.cpu_usage is None ==> row.cpu_usage.bits == 0
            &&& s.memory_total matches Some(v) ==> row.memory_total == v
            &&& s.memory_total is None ==> row.memory_total.bits == 0
            &&& s.memory_used matches Some(v) ==> row.memory_used == v
            &&& s.memory_used is None ==> row.memory_used.bits == 0
            &&& s.network_in_speed matches Some(v) ==> row.network_in_speed == v
            &&& s.network_in_speed is None ==> row.network_in_speed.bits == 0
            &&& s.network_out_speed matches Some(v) ==> row.network_out_speed == v
            &&& s.network_out_speed is None ==> row.network_out_speed.bits == 0
            &&& s.network_in matches Some(v) ==> row.network_in == v
            &&& s.network_in is None ==> row.network_in == 0
            &&& s.network_out matches Some(v) ==> row.network_out == v
            &&& s.network_out is None ==> row.network_out == 0
            &&& row.online <==> s.online == Some(true)
            &&& s.quality.p_cu_avg matches Some(v) ==> row.quality.p_cu_avg == v
            &&& s.quality.p_cu_avg is None ==> row.quality.p_cu_avg.bits == 0
            &&& s.quality.p_cu_min matches Some(v) ==> row.quality.p_cu_min == v
            &&& s.quality.p_cu_min is None ==> row.quality.p_cu_min.bits == 0
            &&& s.quality.p_cu_max matches Some(v) ==> row.quality.p_cu_max == v
            &&& s.quality.p_cu_max is None ==> row.quality.p_cu_max.bits == 0
            &&& s.quality.t_cu_avg matches Some(v) ==> row.quality.t_cu_avg == v
            &&& s.quality.t_cu_avg is None ==> row.quality.t_cu_avg.bits == 0
            &&& s.quality.p_ct_avg matches Some(v) ==> row.quality.p_ct_avg == v
            &&& s.quality.p_ct_avg is None ==> row.quality.p_ct_avg.bits == 0
            &&& s.quality.p_ct_min matches Some(v) ==> row.quality.p_ct_min == v
            &&& s.quality.p_ct_min is None ==> row.quality.p_ct_min.bits == 0
            &&& s.quality.p_ct_max matches Some(v) ==> row.quality.p_ct_max == v
            &&& s.quality.p_ct_max is None ==> row.quality.p_ct_max.bits == 0
            &&& s.quality.t_ct_avg matches Some(v) ==> row.quality.t_ct_avg == v
            &&& s.quality.t_ct_avg is None ==> row.quality.t_ct_avg.bits == 0
            &&& s.quality.p_cm_avg matches Some(v) ==> row.quality.p_cm_avg == v
            &&& s.quality.p_cm_avg is None ==> row.quality.p_cm_avg.bits == 0
            &&& s.quality.p_cm_min matches Some(v) ==> row.quality.p_cm_min == v
            &&& s.quality.p_cm_min is None ==> row.quality.p_cm_min.bits == 0
            &&& s.quality.p_cm_max matches Some(v) ==> row.quality.p_cm_max == v
            &&& s.quality.p_cm_max is None ==> row.quality.p_cm_max.bits == 0
            &&& s.quality.t_cm_avg matches Some(v) ==> row.quality.t_cm_avg == v
            &&& s.quality.t_cm_avg is None ==> row.quality.t_cm_avg.bits == 0
        }),
{
}

/// The order of the figures of each carrier is kept: however two numbers are compared,
/// where the sums put the least below the average and that below the most, the row does.
pub proof fn law_least_and_most_stay_apart(
    host_id: i64,
    timestamp: i64,
    interval_minutes: i64,
    s: PeriodSums,
    below: spec_fn(Real, Real) -> bool,
)
    ensures
        ({
            let q = s.quality;
            let k = aggregate_row(host_id, timestamp, interval_minutes, s).quality;
            &&& q.p_cu_min is Some && q.p_cu_avg is Some && below(q.p_cu_min->0, q.p_cu_avg->0)
                ==> below(k.p_cu_min, k.p_cu_avg)
            &&& q.p_cu_avg is Some && q.p_cu_max is Some && below(q.p_cu_avg->0, q.p_cu_max->0)
                ==> below(k.p_cu_avg, k.p_cu_max)
            &&& q.p_cu_min is Some && q.p_cu_max is Some && below(q.p_cu_min->0, q.p_cu_max->0)
                ==> below(k.p_cu_min, k.p_cu_max)
            &&& q.p_ct_min is Some && q.p_ct_avg is Some && below(q.p_ct_min->0, q.p_ct_avg->0)
                ==> below(k.p_ct_min, k.p_ct_avg)
            &&& q.p_ct_avg is Some && q.p_ct_max is Some && below(q.p_ct_avg->0, q.p_ct_max->0)
                ==> below(k.p_ct_avg, k.p_ct_max)
            &&& q.p_ct_min is Some && q.p_ct_max is Some && below(q.p_ct_min->0, q.p_ct_max->0)
                ==> below(k.p_ct_min, k.p_ct_max)
            &&& q.p_cm_min is Some && q.p_cm_avg is Some && below(q.p_cm_min->0, q.p_cm_avg->0)
                ==> below(k.p_cm_min, k.p_cm_avg)
            &&& q.p_cm_avg is Some && q.p_cm_max is Some && below(q.p_cm_avg->0, q.p_cm_max->0)
                ==> below(k.p_cm_avg, k.p_cm_max)
            &&& q.p_cm_min is Some && q.p_cm_max is Some && below(q.p_cm_min->0, q.p_cm_max->0)
                ==> below(k.p_cm_min, k.p_cm_max)
        }),
{
}

/// The row of a disk in a period, part by part.
pub proof fn law_disk_of_a_period_is_kept(
    r: AggregateDiskRow,
    host_id: i64,
    timestamp: i64,
    interval_minutes: i64,
    d: (String, Real, Real),
)
    requires
        sums_disk(r, host_id, timestamp, interval_minutes, d),
    ensures
        r.host_id == host_id,
        r.timestamp == timestamp,
        r.interval_minutes == interval_minutes,
        r.mount_point@ == d.0@,
        r.total == d.1,
        r.used == d.2,
{
}

/// Where the summing up starts and ends. It starts at the last period that was kept, which
/// is thus summed up anew, or at the earliest report; a period is as many minutes long as
/// it is called; and none begins at or behind `end`, the last multiple of the length that
/// is not after `now`.
pub proof fn law_where_summing_up_starts_and_ends(
    last: Option<i64>,
    earliest: i64,
    interval_minutes: int,
    now: int,
    k: int,
    i: int,
)
    requires
        interval_minutes > 0,
        now >= 0,
        k * (60 * interval_minutes) <= now < (k + 1) * (60 * interval_minutes),
    ensures
        ({
            let p = due_periods(last, earliest, interval_minutes, now);
            let start = match last {
                Some(t) => t as int,
                None => earliest as int,
            };
            let end = k * (60 * interval_minutes);
            &&& p.len() == 0 <==> start >= end
            &&& p.len() > 0 ==> p[0].0 == start && p.last().0 < end && end <= p.last().1
            &&& 0 <= i < p.len() ==> p[i].1 - p[i].0 == 60 * interval_minutes
            &&& 0 <= i < p.len() - 1 ==> p[i + 1].0 == p[i].1
        }),
{
    let step = interval_minutes * 60;
    let start = match last {
        Some(t) => t as int,
        None => earliest as int,
    };
    assert(now / step == k) by (nonlinear_arith)
        requires
            step > 0,
            step == 60 * interval_minutes,
            k * (60 * interval_minutes) <= now < (k + 1) * (60 * interval_minutes),
    ;
    assert(floor_to(now, step) == k * (60 * interval_minutes));
    crate::server::db::law_periods_tile(start, floor_to(now, step), step);
    let p = periods(start, floor_to(now, step), step);
    if p.len() > 0 {
        assert(0 * step == 0) by (nonlinear_arith);
        assert(p[0].0 == start + 0 * step);
        assert(p[p.len() - 1].0 < floor_to(now, step));
    }
    if 0 <= i < p.len() {
        assert((i + 1) * step == i * step + step) by (nonlinear_arith);
        assert(p[i] == (start + i * step, start + (i + 1) * step));
    }
    if 0 <= i < p.len() - 1 {
        assert(p[i + 1].0 == start + (i + 1) * step);
    }
}

// ---------------------------------------------------------------------------
// Clearing
// ---------------------------------------------------------------------------

/// A day has 86400 seconds, and the second that is so many days back can be held where
/// the days in seconds and the difference can.
pub proof fn law_days_in_seconds(now: int, days: int)
    ensures
        DAY == 86400,
        cutoff_fits(now, days) <==> i64::MIN <= days * 86400 <= i64::MAX && i64::MIN <= now - days
            * 86400 <= i64::MAX,
{
}

/// What is cleared by which second: the reports and their disks, then the periods and
/// theirs.
pub proof fn law_what_is_cleared()
    ensures
        CLEAR@.len() == 4,
        CLEAR@[0]@ == "DELETE FROM stats WHERE timestamp < ?"@,
        CLEAR@[1]@ == "DELETE FROM disk_stats WHERE timestamp < ?"@,
        CLEAR@[2]@ == "DELETE FROM aggregated_stats WHERE timestamp < ?"@,
        CLEAR@[3]@ == "DELETE FROM aggregated_disk_stats WHERE timestamp < ?"@,
{
}

// ---------------------------------------------------------------------------
// Opening and reading
// ---------------------------------------------------------------------------

/// The columns that an older database gets: for each report the two figures of each
/// carrier, and for each period the four.
pub proof fn law_columns_that_are_added(i: int)
    requires
        0 <= i < 18,
    ensures
        migrations().len() == 18,
        migrations()[i] == "ALTER TABLE "@ + MIGRATED@[i].0@ + " ADD COLUMN "@ + MIGRATED@[i].1@
            + " REAL DEFAULT 0"@,
        MIGRATED@[i].0@ == (if i < 6 {
            "stats"@
        } else {
            "aggregated_stats"@
        }),
        MIGRATED@[i].1@ == seq![
            "ping_10010"@,
            "ping_189"@,
            "ping_10086"@,
            "time_10010"@,
            "time_189"@,
            "time_10086"@,
            "p_cu_avg"@,
            "p_cu_min"@,
            "p_cu_max"@,
            "t_cu_avg"@,
            "p_ct_avg"@,
            "p_ct_min"@,
            "p_ct_max"@,
            "t_ct_avg"@,
            "p_cm_avg"@,
            "p_cm_min"@,
            "p_cm_max"@,
            "t_cm_avg"@,
        ][i],
{
}

/// The tables are made before the indexes on them.
pub proof fn law_tables_come_before_indexes()
    ensures
        schema().len() == 11,
        schema()[0] == crate::server::db::CREATE_HOSTS@,
        schema()[1] == crate::server::db::CREATE_STATS@,
        schema()[2] == crate::server::db::CREATE_DISK_STATS@,
        schema()[3] == crate::server::db::CREATE_AGGREGATED_STATS@,
        schema()[4] == crate::server::db::CREATE_AGGREGATED_DISK_STATS@,
        schema()[5] == crate::server::db::CREATE_LAST_NETWORK@,
        schema()[6] == crate::server::db::INDEX_STATS@,
        schema()[7] == crate::server::db::INDEX_AGG_STATS@,
        schema()[8] == crate::server::db::INDEX_DISK_STATS@,
        schema()[9] == crate::server::db::INDEX_AGG_DISK_STATS@,
        schema()[10] == crate::server::db::INDEX_STATS_TIMESTAMP@,
{
}

/// How a span of time is read: in half hours above three days, in five minutes above one,
/// by the reports themselves up to one.
pub proof fn law_how_a_span_is_read(range: int)
    ensures
        range > 259_200 ==> granularity(range) == 30,
        86_400 < range <= 259_200 ==> granularity(range) == 5,
        range <= 86_400 ==> granularity(range) == 0,
{
}

/// A span that is read in periods is read in periods that are summed up, those of five or
/// of thirty minutes, and a longer span never in shorter ones; and what is summed up is
/// read for some span.
pub proof fn law_what_is_read_was_summed_up(range: int, longer: int)
    ensures
        granularity(range) != 0 ==> summed_lengths().contains(granularity(range)),
        granularity(range) >= 0,
        range <= longer ==> granularity(range) <= granularity(longer),
        forall|n: i64|
            summed_lengths().contains(n) <==> n > 0 && exists|span: int| #[trigger]
                granularity(span) == n,
{
    assert(summed_lengths()[0] == 5);
    assert(summed_lengths()[1] == 30);
    assert(granularity(100_000) == 5);
    assert(granularity(300_000) == 30);
}

/// What is read back of a host: its records, or the last of them where it was read more
/// than once; a host without records is left out.
pub proof fn law_hosts_are_gathered_by_name(
    rows: Seq<(Seq<char>, Seq<HostStatRecord>)>,
    name: Seq<char>,
)
    ensures
        (forall|j: int|
            0 <= j < rows.len() ==> (#[trigger] rows[j]).0 != name || rows[j].1.len() == 0)
            ==> lookup(gathered(rows), name) is None,
        forall|j: int|
            0 <= j < rows.len() && (#[trigger] rows[j]).0 == name && rows[j].1.len() > 0 && (forall|
                k: int,
            |
                j < k < rows.len() ==> (#[trigger] rows[k]).0 != name || rows[k].1.len() == 0)
                ==> lookup(gathered(rows), name) == Some(rows[j].1),
    decreases rows.len(),
{
    if rows.len() > 0 {
        let d = rows.drop_last();
        let e = rows.last();
        law_hosts_are_gathered_by_name(d, name);
        law_lookup_put(gathered(d), e.0, e.1, name);
        assert(rows[rows.len() - 1] == e);
        if forall|j: int|
            0 <= j < rows.len() ==> (#[trigger] rows[j]).0 != name || rows[j].1.len() == 0 {
            assert forall|j: int| 0 <= j < d.len() implies (#[trigger] d[j]).0 != name
                || d[j].1.len() == 0 by {
                assert(d[j] == rows[j]);
            }
        }
        assert forall|j: int|
            0 <= j < rows.len() && (#[trigger] rows[j]).0 == name && rows[j].1.len() > 0 && (forall|
                k: int,
            |
                j < k < rows.len() ==> (#[trigger] rows[k]).0 != name || rows[k].1.len()
                    == 0) implies lookup(gathered(rows), name) == Some(rows[j].1) by {
            if j < d.len() {
                assert(d[j] == rows[j]);
                assert(rows[rows.len() - 1].0 != name || rows[rows.len() - 1].1.len() == 0);
                assert forall|k: int| j < k < d.len() implies (#[trigger] d[k]).0 != name
                    || d[k].1.len() == 0 by {
                    assert(d[k] == rows[k]);
                }
            }
        }
    }
}

/// What the lists of the store say, entry by entry.
pub proof fn law_what_the_lists_say(
    texts: Seq<&'static str>,
    disks: Seq<DiskRow>,
    hosts: Seq<(String, Vec<HostStatRecord>)>,
    i: int,
)
    ensures
        str_views(texts).len() == texts.len(),
        0 <= i < texts.len() ==> str_views(texts)[i] == texts[i]@,
        disk_row_views(disks).len() == disks.len(),
        0 <= i < disks.len() ==> {
            let d = disk_row_views(disks)[i];
            &&& d.host_id == disks[i].host_id
            &&& d.timestamp == disks[i].timestamp
            &&& d.mount_point == disks[i].mount_point@
            &&& d.total == disks[i].total
            &&& d.used == disks[i].used
        },
        row_views(hosts).len() == hosts.len(),
        0 <= i < hosts.len() ==> row_views(hosts)[i].0 == hosts[i].0@ && row_views(hosts)[i].1
            == hosts[i].1@,
{
}

/// What stored counters say: the name, then what came in and what went out, each read from
/// its own column.
pub proof fn law_what_stored_counters_say(
    v: Seq<(String, i64, i64)>,
    c: Seq<(String, u64, u64)>,
    i: int,
)
    ensures
        stored_views(v).len() == v.len(),
        0 <= i < v.len() ==> stored_views(v)[i] == (
            v[i].0@,
            restored_counter(v[i].1),
            restored_counter(v[i].2),
        ),
        counter_values(c).len() == c.len(),
        0 <= i < c.len() ==> counter_values(c)[i] == (c[i].0@, c[i].1 as int, c[i].2 as int),
{
}

/// What a visit keeps: of the reports one row, under its host, the first second of the
/// period and its length, exactly where they come to something; of the disks one for each
/// place at which one is mounted, with what it comes to.
pub proof fn law_what_a_visit_keeps(
    v: (i64, (int, int)),
    interval_minutes: i64,
    sums: spec_fn((i64, (int, int))) -> PeriodSums,
    disks: spec_fn((i64, (int, int))) -> Map<Seq<char>, (Real, Real)>,
    host: i64,
    second: int,
    length: i64,
    place: Seq<char>,
)
    ensures
        kept_sums(v, interval_minutes, sums).contains_key((host, second, length)) <==> {
            &&& sums(v).cpu_usage is Some
            &&& host == v.0
            &&& second == v.1.0
            &&& length == interval_minutes
        },
        sums(v).cpu_usage is Some ==> kept_sums(v, interval_minutes, sums)[(
            v.0,
            v.1.0,
            interval_minutes,
        )] == aggregate_row(v.0, v.1.0 as i64, interval_minutes, sums(v)),
        kept_disk_sums(v, interval_minutes, disks).contains_key((host, second, length, place))
            <==> {
            &&& host == v.0
            &&& second == v.1.0
            &&& length == interval_minutes
            &&& disks(v).contains_key(place)
        },
        disks(v).contains_key(place) ==> kept_disk_sums(v, interval_minutes, disks)[(
            v.0,
            v.1.0,
            interval_minutes,
            place,
        )] == disks(v)[place],
{
}

} // verus!
