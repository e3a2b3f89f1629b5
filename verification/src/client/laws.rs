//! What holds of the client: how it measures the network, what it samples, and how it
//! reaches the server.
use vstd::prelude::*;
use crate::client::grpc::{
    auth_kind, auth_name, connects, dial_addr, full_report, header_text, host_in, names_domain,
    next_count, opt_parts, parts_view, port_in, sendable, Connection, Transport, UrlParts,
};
use crate::client::status::{
    answered, forced, is_forced, losses, rated, slid, unprobed, PingData, Probe,
};
use crate::client::sys_info::{
    all_disks, counts, described, disk_info, disk_unit, has_disk, has_zfs, hex_digit, hex_text,
    identity_text, is_picked, is_zfs, less_one, lines_not_led_by, lines_with, lists_pools, low32,
    monitor_wf, monitored, numeric_names, opt_string, opt_text, picked, pool_of, pools_of,
    reading_views, sampled, sane_infos, sane_readings, sum_free, sum_total, table_entries, total_rx,
    total_tx, zfs_pools, DiskReading, DiskReadingView, Monitor, MonitorView, Platform, Readings,
    StatRequest, StatRequestView, SystemReadings, Traffic, G_EXPECT_FS,
};
use crate::client::Args;
use crate::decimal::{numeral, unsigned_value};
use crate::payload::{DiskInfoView, SysInfoView};
use crate::text::{begins_with, contains_text, lines_of, lowercase, replaced, split_on};

verus! {

// ---------------------------------------------------------------------------
// The network
// ---------------------------------------------------------------------------

/// The protocols that are reported as online unasked: IPv4 where the number of the option
/// is odd, and IPv6 where half of it is.
pub proof fn law_which_protocols_are_forced(online: u8)
    ensures
        forced(online).0 <==> online % 2 == 1,
        forced(online).1 <==> (online / 2) % 2 == 1,
        is_forced(online) <==> online % 4 != 0,
{
    assert(online & 1u8 != 0 <==> online % 2 == 1) by (bit_vector);
    assert(online & 2u8 != 0 <==> (online / 2) % 2 == 1) by (bit_vector);
}

/// Only a probe that failed is lost; one that was refused was answered.
pub proof fn law_which_probes_are_lost(p: Probe)
    ensures
        p == Probe::Connected ==> answered(p),
        p == Probe::Refused ==> answered(p),
        p == Probe::Failed ==> !answered(p),
{
}

/// The losses of two rows of probes add up, and one more probe adds one where it is lost.
pub proof fn law_losses_add_up(a: Seq<bool>, b: Seq<bool>, ok: bool)
    ensures
        losses(Seq::<bool>::empty()) == 0,
        losses(a.push(ok)) == losses(a) + (if ok {
            0nat
        } else {
            1nat
        }),
        losses(a + b) == losses(a) + losses(b),
    decreases b.len(),
{
    assert(a.push(ok).drop_last() =~= a);
    if b.len() == 0 {
        assert(a + b =~= a);
    } else {
        law_losses_add_up(a, b.drop_last(), ok);
        assert((a + b).drop_last() =~= a + b.drop_last());
    }
}

/// The window after the probes, one after the other.
pub open spec fn windowed(probes: Seq<Probe>) -> Seq<bool>
    decreases probes.len(),
{
    if probes.len() == 0 {
        Seq::empty()
    } else {
        slid(windowed(probes.drop_last()), answered(probes.last()))
    }
}

/// The window holds the last hundred and one probes, or all where there are fewer, in
/// their order.
pub proof fn law_window_holds_the_last_probes(probes: Seq<Probe>)
    ensures
        ({
            let w = windowed(probes);
            let n = probes.len() as int;
            &&& w.len() == if n < 101 {
                n
            } else {
                101
            }
            &&& forall|k: int|
                0 <= k < w.len() ==> (#[trigger] w[k] <==> probes[n - w.len() + k]
                    != Probe::Failed)
        }),
    decreases probes.len(),
{
    if probes.len() > 0 {
        let t = probes.drop_last();
        law_window_holds_the_last_probes(t);
        let v = windowed(t);
        let w = windowed(probes);
        let n = probes.len() as int;
        assert forall|k: int| 0 <= k < w.len() implies (#[trigger] w[k] <==> probes[n - w.len() + k]
            != Probe::Failed) by {
            if k < w.len() - 1 {
                if v.len() > 100 {
                    assert(w[k] == v[k + 1]);
                    assert(t[t.len() - v.len() + k + 1] == probes[n - w.len() + k]);
                } else {
                    assert(w[k] == v[k]);
                    assert(t[t.len() - v.len() + k] == probes[n - w.len() + k]);
                }
            }
        }
    }
}

/// The loss that is told, in percent and rounded down: of the probes in the window, once
/// there are more than thirty; before, it stays as it is.
pub proof fn law_loss_that_is_told(lost_rate: u32, s: Seq<bool>)
    ensures
        s.len() <= 30 ==> rated(lost_rate, s) == lost_rate,
        s.len() >= 31 ==> {
            let r = rated(lost_rate, s);
            r * s.len() <= 100 * losses(s) < (r + 1) * s.len()
        },
{
    if s.len() >= 31 {
        let l = losses(s) as int;
        let n = s.len() as int;
        let r = l * 100 / n;
        assert(r * n <= 100 * l < (r + 1) * n) by (nonlinear_arith)
            requires
                n > 0,
                r == l * 100 / n,
        ;
        assert(rated(lost_rate, s) == r);
    }
}

/// A carrier of which nothing is known yet: no loss and no time are told.
pub proof fn law_unprobed_carrier(d: PingData, uri: Seq<char>)
    requires
        unprobed(d, uri),
    ensures
        d.probe_uri@ == uri,
        d.lost_rate == 0,
        d.ping_time == 0,
{
}

// ---------------------------------------------------------------------------
// Counting
// ---------------------------------------------------------------------------

/// The traffic over the interfaces, interface by interface: one that is left out adds
/// nothing, and any other what it received to the one sum and what it sent to the other.
pub proof fn law_traffic_adds_up(s: Seq<Traffic>, t: Traffic)
    ensures
        total_rx(Seq::<Traffic>::empty()) == 0,
        total_tx(Seq::<Traffic>::empty()) == 0,
        t.skipped ==> total_rx(s.push(t)) == total_rx(s) && total_tx(s.push(t)) == total_tx(s),
        !t.skipped ==> total_rx(s.push(t)) == total_rx(s) + t.rx && total_tx(s.push(t)) == total_tx(
            s,
        ) + t.tx,
{
    assert(s.push(t).drop_last() =~= s);
}

/// The space of the disks, disk by disk.
pub proof fn law_space_adds_up(s: Seq<DiskInfoView>, d: DiskInfoView)
    ensures
        sum_total(Seq::<DiskInfoView>::empty()) == 0,
        sum_free(Seq::<DiskInfoView>::empty()) == 0,
        sum_total(s.push(d)) == sum_total(s) + d.total,
        sum_free(s.push(d)) == sum_free(s) + d.free,
{
    assert(s.push(d).drop_last() =~= s);
}

/// The entries of a connection table: one less than its lines, the first of which is the
/// heading; none where it is empty or could not be read.
pub proof fn law_entries_of_a_table(text: Option<Seq<char>>)
    ensures
        text is None ==> table_entries(text) == 0,
        text matches Some(s) ==> {
            &&& lines_of(s).len() == 0 ==> table_entries(text) == 0
            &&& 1 <= lines_of(s).len() <= 0x1_0000_0000 ==> table_entries(text) == lines_of(s).len()
                - 1
        },
{
}

/// A number in 32 bits, and one less of it.
pub proof fn law_numbers_in_32_bits(n: nat, k: nat)
    ensures
        n < 0x1_0000_0000 ==> low32(n) == n,
        low32(n + k * 0x1_0000_0000) == low32(n),
        0 <= low32(n) < 0x1_0000_0000,
        less_one(0) == 0,
        n > 0 ==> less_one(n) == n - 1,
{
    assert((n + k * 0x1_0000_0000) as int % 0x1_0000_0000 == n as int % 0x1_0000_0000)
        by (nonlinear_arith);
}

/// The processes are the names made of digits alone, each counted once.
pub proof fn law_processes_are_counted(s: Seq<Seq<char>>, name: Seq<char>)
    ensures
        numeric_names(Seq::<Seq<char>>::empty()) == 0,
        (forall|i: int| 0 <= i < name.len() ==> '0' <= #[trigger] name[i] <= '9') ==> numeric_names(
            s.push(name),
        ) == numeric_names(s) + 1,
        (exists|i: int| 0 <= i < name.len() && !('0' <= #[trigger] name[i] <= '9'))
            ==> numeric_names(s.push(name)) == numeric_names(s),
{
    assert(s.push(name).drop_last() =~= s);
}

/// The lines in which a text stands, and those that do not begin with it, are counted line
/// by line.
pub proof fn law_lines_are_counted(s: Seq<Seq<char>>, line: Seq<char>, pat: Seq<char>)
    ensures
        lines_with(Seq::<Seq<char>>::empty(), pat) == 0,
        lines_not_led_by(Seq::<Seq<char>>::empty(), pat) == 0,
        lines_with(s.push(line), pat) == lines_with(s, pat) + (if contains_text(line, pat) {
            1nat
        } else {
            0nat
        }),
        lines_not_led_by(s.push(line), pat) == lines_not_led_by(s, pat) + (if line.len()
            >= pat.len() && line.take(pat.len() as int) == pat {
            0nat
        } else {
            1nat
        }),
{
    assert(s.push(line).drop_last() =~= s);
    if line.len() >= pat.len() {
        assert(line.take(pat.len() as int) =~= line.subrange(0, pat.len() as int));
    }
}

// ---------------------------------------------------------------------------
// Disks and pools
// ---------------------------------------------------------------------------

/// The pool that a line tells of, part by part: the first field names it, the second is
/// its size and the third what of it is used; the rest is free. A field that is no number
/// counts as zero, and a line with fewer than three fields tells of none.
pub proof fn law_pool_of_a_line(line: Seq<char>)
    ensures
        ({
            let f = split_on(line, '\t');
            &&& f.len() < 3 ==> pool_of(line) is None
            &&& f.len() >= 3 ==> (pool_of(line) matches Some(p) && {
                &&& p.name == seq!['z', 'p', 'o', 'o', 'l', '-'] + f[0]
                &&& p.mount_point == seq!['/'] + f[0]
                &&& p.file_system == seq!['z', 'f', 's']
                &&& unsigned_value(f[1]) matches Some(n) ==> (n <= u64::MAX ==> p.total == n)
                &&& unsigned_value(f[2]) matches Some(n) ==> (n <= u64::MAX ==> p.used == n)
                &&& unsigned_value(f[1]) is None ==> p.total == 0
                &&& unsigned_value(f[2]) is None ==> p.used == 0
                &&& p.used <= p.total ==> p.free == p.total - p.used
                &&& p.used > p.total ==> p.free == 0
            })
        }),
{
    reveal_strlit("zpool-");
    reveal_strlit("/");
    reveal_strlit("zfs");
    let f = split_on(line, '\t');
    assert("zpool-"@ =~= seq!['z', 'p', 'o', 'o', 'l', '-']);
    assert("/"@ =~= seq!['/']);
    assert("zfs"@ =~= seq!['z', 'f', 's']);
    if f.len() >= 3 {
        crate::decimal::law_unsigned_is_not_negative(f[1]);
        crate::decimal::law_unsigned_is_not_negative(f[2]);
    }
}

/// The pools are those of the lines, line by line, in their order.
pub proof fn law_pools_follow_the_lines(s: Seq<Seq<char>>, line: Seq<char>, text: Seq<char>)
    ensures
        pools_of(Seq::<Seq<char>>::empty()).len() == 0,
        pool_of(line) is None ==> pools_of(s.push(line)) == pools_of(s),
        pool_of(line) matches Some(p) ==> pools_of(s.push(line)) == pools_of(s).push(p),
        zfs_pools(Some(text)) == pools_of(lines_of(text)),
        zfs_pools(None).len() == 0,
{
    assert(s.push(line).drop_last() =~= s);
}

/// The file systems whose disks count, in lower case; that of a pool does not.
pub proof fn law_which_disks_count(d: DiskReadingView)
    ensures
        G_EXPECT_FS@ == seq![
            "apfs",
            "hfs",
            "ext4",
            "ext3",
            "ext2",
            "f2fs",
            "reiserfs",
            "jfs",
            "btrfs",
            "fuseblk",
            "zfs",
            "simfs",
            "ntfs",
            "fat32",
            "exfat",
            "xfs",
            "fuse.rclone",
        ],
        counts(d) <==> lowercase(d.file_system) != "zfs"@ && exists|i: int|
            0 <= i < G_EXPECT_FS@.len() && (#[trigger] G_EXPECT_FS@[i])@ == lowercase(
                d.file_system,
            ),
        is_zfs(d) <==> lowercase(d.file_system) == "zfs"@,
{
}

/// A disk is reported under its own name and place, with its file system in lower case;
/// what is not available of it is used.
pub proof fn law_disk_as_it_is_reported(d: DiskReadingView)
    requires
        d.available <= d.total,
    ensures
        disk_info(d).name == d.name,
        disk_info(d).mount_point == d.mount_point,
        disk_info(d).file_system == lowercase(d.file_system),
        disk_info(d).total == d.total,
        disk_info(d).free == d.available,
        disk_info(d).used + disk_info(d).free == disk_info(d).total,
{
}

/// The disks to report, disk by disk: one that counts is added behind the others, unless,
/// off Windows, one of its name is there; any other is passed over.
pub proof fn law_disks_are_picked_in_turn(s: Seq<DiskReadingView>, d: DiskReadingView, windows: bool)
    ensures
        picked(Seq::<DiskReadingView>::empty(), windows).len() == 0,
        ({
            let front = picked(s, windows);
            let known = exists|i: int| 0 <= i < front.len() && (#[trigger] front[i]).name == d.name;
            &&& counts(d) && (windows || !known) ==> picked(s.push(d), windows) == front.push(
                disk_info(d),
            )
            &&& !counts(d) || (!windows && known) ==> picked(s.push(d), windows) == front
        }),
{
    assert(s.push(d).drop_last() =~= s);
}

/// When the pools are listed and what is kept of them: at a sample without a disk in a
/// pool nothing happens; at one with such a disk they are listed where none is known or
/// nine such samples lie behind the last listing, and counted up to that otherwise.
pub proof fn law_when_pools_are_listed(
    m: MonitorView,
    disks: Seq<DiskReadingView>,
    output: Option<Seq<char>>,
)
    requires
        m.zfs_tick < 10,
    ensures
        ({
            let zfs = exists|i: int|
                0 <= i < disks.len() && lowercase((#[trigger] disks[i]).file_system) == "zfs"@;
            let after = monitored(m, disks, output);
            &&& !zfs ==> after == m && !lists_pools(m, disks)
            &&& zfs && (m.zfs_cache.len() == 0 || m.zfs_tick == 9) ==> lists_pools(m, disks)
                && after.zfs_cache == zfs_pools(output) && after.zfs_tick == 0
            &&& zfs && m.zfs_cache.len() > 0 && m.zfs_tick < 9 ==> !lists_pools(m, disks)
                && after.zfs_cache == m.zfs_cache && after.zfs_tick == m.zfs_tick + 1
        }),
{
    if exists|i: int| 0 <= i < disks.len() && lowercase((#[trigger] disks[i]).file_system) == "zfs"@ {
        let i = choose|i: int|
            0 <= i < disks.len() && lowercase((#[trigger] disks[i]).file_system) == "zfs"@;
        assert(is_zfs(disks[i]));
    }
    if has_zfs(disks) {
        let i = choose|i: int| 0 <= i < disks.len() && is_zfs(#[trigger] disks[i]);
        assert(lowercase(disks[i].file_system) == "zfs"@);
    }
}

/// All the disks of a sample: those that are picked, and behind them, where one of the
/// disks is in a pool, the pools that are known afterwards.
pub proof fn law_all_disks_of_a_sample(m: MonitorView, r: Readings, windows: bool)
    ensures
        ({
            let d = reading_views(r.disks@);
            let pools = monitored(m, d, opt_string(r.zpool_output)).zfs_cache;
            let all = all_disks(m, r, windows);
            &&& has_zfs(d) ==> all == picked(d, windows) + pools
            &&& !has_zfs(d) ==> all == picked(d, windows)
        }),
{
}

// ---------------------------------------------------------------------------
// The sample
// ---------------------------------------------------------------------------

/// Memory, swap space and disks in a sample: bytes become kibibytes, and for the disks
/// mebibytes, or megabytes on macOS, rounded down. What is used of the swap space and of
/// the disks is what is not free; on macOS that holds of the memory too.
pub proof fn law_sample_of_the_space(
    stat: StatRequestView,
    m: MonitorView,
    args: Args,
    p: Platform,
    r: Readings,
)
    requires
        sane_readings(m, args, p, r),
        monitor_is_sane(m),
    ensures
        ({
            let s = sampled(stat, m, args, p, r);
            let d = all_disks(m, r, p.windows);
            let unit: int = if p.macos {
                1_000_000
            } else {
                1_048_576
            };
            &&& s.memory_total * 1024 <= r.memory_total < (s.memory_total + 1) * 1024
            &&& !p.macos ==> s.memory_used * 1024 <= r.memory_used < (s.memory_used + 1) * 1024
            &&& p.macos ==> s.memory_used * 1024 <= r.memory_total - r.memory_available < (
            s.memory_used + 1) * 1024
            &&& s.swap_total * 1024 <= r.swap_total < (s.swap_total + 1) * 1024
            &&& s.swap_used * 1024 <= r.swap_total - r.swap_free < (s.swap_used + 1) * 1024
            &&& s.disks == d
            &&& s.hdd_total * unit <= sum_total(d) < (s.hdd_total + 1) * unit
            &&& s.hdd_used * unit <= sum_total(d) - sum_free(d) < (s.hdd_used + 1) * unit
        }),
{
    let d = all_disks(m, r, p.windows);
    crate::client::sys_info::lemma_all_disks_sane(m, r, p.windows);
    crate::client::sys_info::lemma_sums(d, 0);
    assert(disk_unit(p) == 1_000_000 || disk_unit(p) == 1_048_576);
}

/// No pool that is known has more free space than space.
pub open spec fn monitor_is_sane(m: MonitorView) -> bool {
    forall|i: int| 0 <= i < m.zfs_cache.len() ==> (#[trigger] m.zfs_cache[i]).free
        <= m.zfs_cache[i].total
}

/// The traffic in a sample. Where vnstat counts it, it is what vnstat counted, with what
/// lies before the month as the counters of the last period; where vnstat could not be
/// asked it stays as it was. Otherwise it is what went over the interfaces that count, and
/// the counters of the last period stay.
pub proof fn law_sample_of_the_traffic(
    stat: StatRequestView,
    m: MonitorView,
    args: Args,
    p: Platform,
    r: Readings,
)
    requires
        sane_readings(m, args, p, r),
    ensures
        ({
            let s = sampled(stat, m, args, p, r);
            &&& args.vnstat ==> {
                &&& r.vnstat_traffic matches Some((i, o, mi, mo)) ==> {
                    &&& s.network_in == i
                    &&& s.network_out == o
                    &&& s.last_network_in + mi == i
                    &&& s.last_network_out + mo == o
                }
                &&& r.vnstat_traffic is None ==> {
                    &&& s.network_in == stat.network_in
                    &&& s.network_out == stat.network_out
                    &&& s.last_network_in == stat.last_network_in
                    &&& s.last_network_out == stat.last_network_out
                }
            }
            &&& !args.vnstat ==> {
                &&& s.network_in == total_rx(r.networks@)
                &&& s.network_out == total_tx(r.networks@)
                &&& s.last_network_in == stat.last_network_in
                &&& s.last_network_out == stat.last_network_out
            }
            &&& r.net_speed matches Some(v) ==> s.network_rx == v.net_rx && s.network_tx == v.net_tx
            &&& r.net_speed is None ==> s.network_rx == stat.network_rx && s.network_tx
                == stat.network_tx
        }),
{
    crate::client::sys_info::lemma_totals_grow(r.networks@, 0);
}

/// How the carriers answer in a sample: of each that is known the `ping` is its loss and
/// the `time` its time; of each that is not, both stay as they were.
pub proof fn law_sample_of_the_carriers(
    stat: StatRequestView,
    m: MonitorView,
    args: Args,
    p: Platform,
    r: Readings,
)
    ensures
        ({
            let q = sampled(stat, m, args, p, r).pings;
            &&& r.ping_10010 matches Some(x) ==> q.ping_10010 == x.loss && q.time_10010 == x.time
            &&& r.ping_189 matches Some(x) ==> q.ping_189 == x.loss && q.time_189 == x.time
            &&& r.ping_10086 matches Some(x) ==> q.ping_10086 == x.loss && q.time_10086 == x.time
            &&& r.ping_10010 is None ==> q.ping_10010 == stat.pings.ping_10010 && q.time_10010
                == stat.pings.time_10010
            &&& r.ping_189 is None ==> q.ping_189 == stat.pings.ping_189 && q.time_189
                == stat.pings.time_189
            &&& r.ping_10086 is None ==> q.ping_10086 == stat.pings.ping_10086 && q.time_10086
                == stat.pings.time_10086
        }),
{
}

/// The loss of a carrier that is reported is the percentage of the last probes that were
/// lost, rounded down, where more than thirty were made: never the time that one took.
pub proof fn law_reported_ping_is_the_loss(
    stat: StatRequestView,
    m: MonitorView,
    args: Args,
    p: Platform,
    r: Readings,
    probes: Seq<Probe>,
    told: u32,
)
    requires
        probes.len() > 30,
        r.ping_10010 matches Some(x) && x.loss == rated(told, windowed(probes)),
    ensures
        ({
            let w = windowed(probes);
            let q = sampled(stat, m, args, p, r).pings;
            &&& q.ping_10010 <= 100
            &&& q.ping_10010 * w.len() <= 100 * losses(w) < (q.ping_10010 + 1) * w.len()
            &&& q.time_10010 == r.ping_10010->0.time
        }),
{
    law_window_holds_the_last_probes(probes);
    law_loss_that_is_told(told, windowed(probes));
    crate::client::status::law_loss_is_percentage(windowed(probes));
}

/// The rest of a sample: the version, the time since the start, and whether vnstat counts;
/// the connections and processes, or none where the options leave them out. Which
/// protocols are online is not a matter of the sample.
pub proof fn law_rest_of_a_sample(
    stat: StatRequestView,
    m: MonitorView,
    args: Args,
    p: Platform,
    r: Readings,
)
    ensures
        ({
            let s = sampled(stat, m, args, p, r);
            &&& s.version == r.version@
            &&& s.uptime == r.uptime
            &&& s.vnstat == args.vnstat
            &&& s.online4 == stat.online4
            &&& s.online6 == stat.online6
            &&& args.disable_tupd ==> s.tupd.tcp == 0 && s.tupd.udp == 0 && s.tupd.process == 0
                && s.tupd.thread == 0
            &&& !args.disable_tupd ==> s.tupd == r.tupd
        }),
{
}

/// When a sample can be taken: the parts are no larger than their wholes, and the sums can
/// be held.
pub proof fn law_when_a_sample_can_be_taken(m: MonitorView, args: Args, p: Platform, r: Readings)
    ensures
        sane_readings(m, args, p, r) <==> {
            &&& p.macos ==> r.memory_available <= r.memory_total
            &&& r.swap_free <= r.swap_total
            &&& forall|i: int|
                0 <= i < r.disks@.len() && #[trigger] is_picked(
                    reading_views(r.disks@),
                    i,
                    p.windows,
                ) ==> r.disks@[i].available <= r.disks@[i].total
            &&& sum_total(all_disks(m, r, p.windows)) <= u64::MAX
            &&& args.vnstat ==> (r.vnstat_traffic matches Some((i, o, mi, mo)) ==> mi <= i && mo
                <= o)
            &&& !args.vnstat ==> total_rx(r.networks@) <= u64::MAX && total_tx(r.networks@)
                <= u64::MAX
        },
        forall|i: int|
            0 <= i < r.disks@.len() ==> (#[trigger] is_picked(
                reading_views(r.disks@),
                i,
                p.windows,
            ) <==> counts(r.disks@[i]@) && (p.windows || !has_disk(
                picked(reading_views(r.disks@).take(i), p.windows),
                r.disks@[i].name@,
            ))),
{
}

/// What the host is, part by part; the processors are counted, and described by the first.
pub proof fn law_what_the_host_is(args: Args, r: SystemReadings)
    ensures
        ({
            let i = described(args, r);
            &&& i.name == args.user@
            &&& i.version == r.version@
            &&& i.os_name == r.os_name@
            &&& i.os_arch == r.os_arch@
            &&& i.os_family == r.os_family@
            &&& r.os_release matches Some(s) ==> i.os_release == s@
            &&& r.os_release is None ==> i.os_release.len() == 0
            &&& r.kernel_version matches Some(s) ==> i.kernel_version == s@
            &&& r.kernel_version is None ==> i.kernel_version.len() == 0
            &&& r.host_name matches Some(s) ==> i.host_name == s@
            &&& r.host_name is None ==> i.host_name.len() == 0
            &&& r.cpus@.len() < 0x1_0000_0000 ==> i.cpu_num == r.cpus@.len()
            &&& r.cpus@.len() > 0 ==> i.cpu_brand == r.cpus@[0].0@ && i.cpu_vender_id
                == r.cpus@[0].1@
            &&& r.cpus@.len() == 0 ==> i.cpu_brand.len() == 0 && i.cpu_vender_id.len() == 0
        }),
{
}

/// Each byte is written by two hexadecimal digits, the higher one first, and the bytes in
/// their order.
pub proof fn law_bytes_in_hexadecimal(s: Seq<u8>, b: u8)
    ensures
        hex_text(Seq::<u8>::empty()).len() == 0,
        ({
            let digits = seq![
                '0', '1', '2', '3', '4', '5', '6', '7', '8', '9', 'a', 'b', 'c', 'd', 'e', 'f',
            ];
            hex_text(s.push(b)) == hex_text(s) + seq![
                digits[b as int / 16],
                digits[b as int % 16],
            ]
        }),
{
    assert(s.push(b).drop_last() =~= s);
    let digits = seq![
        '0', '1', '2', '3', '4', '5', '6', '7', '8', '9', 'a', 'b', 'c', 'd', 'e', 'f',
    ];
    let h = b as int / 16;
    let l = b as int % 16;
    assert(0 <= h < 16 && 0 <= l < 16);
    assert(hex_digit(h) == digits[h]);
    assert(hex_digit(l) == digits[l]);
    assert(hex_text(s.push(b)) =~= hex_text(s) + seq![digits[h], digits[l]]);
}

/// What tells the host from others is made of eight parts with slashes between, the last
/// of which is the second in which it was started: hosts that differ in that alone are
/// told apart.
pub proof fn law_identity_of_a_host(i: SysInfoView, boot_time: u64, other: u64)
    ensures
        identity_text(i, boot_time) == crate::text::joined(
            seq![
                i.host_name,
                i.os_name,
                i.os_arch,
                i.os_family,
                i.os_release,
                i.kernel_version,
                i.cpu_brand,
                numeral(boot_time as nat),
            ],
            seq!['/'],
        ),
        boot_time != other ==> identity_text(i, boot_time) != identity_text(i, other),
{
    reveal_strlit("/");
    assert("/"@ =~= seq!['/']);
    let v = seq![
        i.host_name,
        i.os_name,
        i.os_arch,
        i.os_family,
        i.os_release,
        i.kernel_version,
        i.cpu_brand,
        numeral(boot_time as nat),
    ];
    reveal_with_fuel(crate::text::joined, 9);
    assert(v.drop_last() =~= v.take(7));
    assert(v.take(7).drop_last() =~= v.take(6));
    assert(v.take(6).drop_last() =~= v.take(5));
    assert(v.take(5).drop_last() =~= v.take(4));
    assert(v.take(4).drop_last() =~= v.take(3));
    assert(v.take(3).drop_last() =~= v.take(2));
    assert(v.take(2).drop_last() =~= v.take(1));
    assert(identity_text(i, boot_time) =~= crate::text::joined(v, seq!['/']));
    if boot_time != other {
        let front = i.host_name + "/"@ + i.os_name + "/"@ + i.os_arch + "/"@ + i.os_family + "/"@
            + i.os_release + "/"@ + i.kernel_version + "/"@ + i.cpu_brand + "/"@;
        let a = numeral(boot_time as nat);
        let b = numeral(other as nat);
        crate::decimal::law_numeral_round_trip(boot_time as nat);
        crate::decimal::law_numeral_round_trip(other as nat);
        assert(identity_text(i, boot_time) == front + a);
        assert(identity_text(i, other) == front + b);
        if front + a == front + b {
            assert(a =~= (front + a).skip(front.len() as int));
            assert(b =~= (front + b).skip(front.len() as int));
        }
    }
}

// ---------------------------------------------------------------------------
// Reaching the server
// ---------------------------------------------------------------------------

/// Who the client says it is: its group where it is in one, and itself otherwise.
pub proof fn law_who_the_client_is(args: Args)
    ensures
        args.gid@.len() > 0 ==> auth_name(args) == args.gid@ && auth_kind(args) == "group"@,
        args.gid@.len() == 0 ==> auth_name(args) == args.user@ && auth_kind(args) == "single"@,
{
}

/// A text can be sent as a header exactly where none of its characters is a control
/// character of ASCII but the tab; and the token is the name, the separator and the
/// password.
pub proof fn law_what_can_be_sent(s: Seq<char>, args: Args)
    ensures
        header_text(s) <==> forall|i: int|
            0 <= i < s.len() ==> {
                let c = #[trigger] s[i] as int;
                c == 9 || 32 <= c <= 126 || c >= 128
            },
        sendable(args) <==> header_text(
            (if args.gid@.len() > 0 {
                args.gid@
            } else {
                args.user@
            }) + seq!['@', '_', '@'] + args.pass@,
        ),
{
    reveal_strlit("@_@");
    assert("@_@"@ =~= seq!['@', '_', '@']);
}

/// How the client connects, part by part. Both sides show a certificate where the options
/// say so, for the host that the address names; otherwise the server does where the
/// address begins so. What is looked up is the host, at its port or that of HTTPS.
pub proof fn law_how_the_client_connects(
    c: Connection,
    args: Args,
    parts: Option<(Option<Seq<char>>, Option<u16>)>,
)
    requires
        connects(c, args, parts),
    ensures
        c.token@ == (if args.gid@.len() > 0 {
            args.gid@
        } else {
            args.user@
        }) + seq!['@', '_', '@'] + args.pass@,
        c.kind@ == (if args.gid@.len() > 0 {
            "group"@
        } else {
            "single"@
        }),
        c.addr@ == replaced(args.addr@, "grpcs://"@, "https://"@),
        dial_addr(args) == c.addr@,
        c.transport is Mutual <==> args.mtls,
        c.transport matches Transport::Mutual { domain } ==> (parts matches Some((Some(h), _)) && h
            == domain@),
        c.transport is Tls <==> !args.mtls && begins_with(c.addr@, "https://"@),
        c.transport is Clear <==> !args.mtls && !begins_with(c.addr@, "https://"@),
        parts is None ==> c.resolve is None,
        parts matches Some((None, _)) ==> c.resolve is None,
        parts matches Some((Some(h), Some(port))) ==> (c.resolve matches Some((host, at)) && host@
            == h && at == port),
        parts matches Some((Some(h), None)) ==> (c.resolve matches Some((host, at)) && host@ == h
            && at == 443),
{
    reveal_strlit("@_@");
    assert("@_@"@ =~= seq!['@', '_', '@']);
}

/// What an address says of the host and the port, and when it lacks a host that is needed.
pub proof fn law_what_an_address_says(
    args: Args,
    parts: Option<(Option<Seq<char>>, Option<u16>)>,
)
    ensures
        parts is None ==> host_in(parts) is None && port_in(parts) == 443,
        parts matches Some((h, port)) ==> {
            &&& host_in(parts) == h
            &&& port matches Some(n) ==> port_in(parts) == n
            &&& port is None ==> port_in(parts) == 443
        },
        !names_domain(args, parts) <==> args.mtls && (parts matches Some((None, _))),
{
}

/// Which reports are full: each, or, of a client that leaves out what seldom changes, the
/// first of each sixty; and the reports are numbered in turn.
pub proof fn law_which_reports_are_full(lite: bool, k: u64, j: u64)
    requires
        j < 60,
        60 * k + j <= u64::MAX,
    ensures
        !lite ==> full_report(lite, (60 * k + j) as u64),
        lite ==> (full_report(lite, (60 * k + j) as u64) <==> j == 0),
        k < u64::MAX ==> next_count(k) == k + 1,
        next_count(u64::MAX) == 0,
{
}

/// What an address says, and texts that may be missing, are taken as they are.
pub proof fn law_what_may_be_missing(p: UrlParts, t: Option<&str>, s: Option<String>)
    ensures
        parts_view(p).1 == p.port,
        p.host is None <==> parts_view(p).0 is None,
        p.host matches Some(h) ==> parts_view(p).0 == Some(h@),
        opt_parts(None::<UrlParts>) is None,
        opt_parts(Some(p)) == Some(parts_view(p)),
        t is None <==> opt_text(t) is None,
        t matches Some(x) ==> opt_text(t) == Some(x@),
        s is None <==> opt_string(s) is None,
        s matches Some(x) ==> opt_string(s) == Some(x@),
{
}

/// A sample, and the disks that are read, say of each part what the part of that name says.
pub proof fn law_view_of_a_sample(x: StatRequest, m: Monitor, d: Seq<DiskReading>, i: int)
    ensures
        x@.version == x.version@,
        x@.vnstat == x.vnstat,
        x@.online4 == x.online4,
        x@.online6 == x.online6,
        x@.uptime == x.uptime,
        x@.memory_total == x.memory_total,
        x@.memory_used == x.memory_used,
        x@.swap_total == x.swap_total,
        x@.swap_used == x.swap_used,
        x@.hdd_total == x.hdd_total,
        x@.hdd_used == x.hdd_used,
        x@.network_in == x.network_in,
        x@.network_out == x.network_out,
        x@.last_network_in == x.last_network_in,
        x@.last_network_out == x.last_network_out,
        x@.network_rx == x.network_rx,
        x@.network_tx == x.network_tx,
        x@.tupd == x.tupd,
        x@.pings == x.pings,
        x@.disks.len() == x.disks@.len(),
        0 <= i < x.disks@.len() ==> x@.disks[i] == x.disks@[i]@,
        m@.zfs_tick == m.zfs_tick,
        m@.zfs_cache.len() == m.zfs_cache@.len(),
        0 <= i < m.zfs_cache@.len() ==> m@.zfs_cache[i] == m.zfs_cache@[i]@,
        reading_views(d).len() == d.len(),
        0 <= i < d.len() ==> {
            let r = reading_views(d)[i];
            &&& r.name == d[i].name@
            &&& r.mount_point == d[i].mount_point@
            &&& r.file_system == d[i].file_system@
            &&& r.total == d[i].total
            &&& r.available == d[i].available
        },
{
}

/// Disks are sane one by one: none has more free space than space; and so are the pools
/// that a monitor remembers, for less than ten samples.
pub proof fn law_which_disks_are_sane(s: Seq<DiskInfoView>, d: DiskInfoView, tick: u8)
    ensures
        sane_infos(Seq::<DiskInfoView>::empty()),
        sane_infos(s.push(d)) <==> sane_infos(s) && d.free <= d.total,
        monitor_wf((MonitorView { zfs_cache: s, zfs_tick: tick })) <==> tick <= 9 && sane_infos(s),
{
    let t = s.push(d);
    if sane_infos(t) {
        assert(t[s.len() as int].free <= t[s.len() as int].total);
        assert forall|i: int| 0 <= i < s.len() implies (#[trigger] s[i]).free <= s[i].total by {
            assert(t[i].free <= t[i].total);
        }
    }
}

} // verus!
