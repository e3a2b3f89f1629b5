//! What the host is and how it is doing: memory, disks, traffic, connections.
use vstd::prelude::*;
use vstd::string::*;
use crate::client::Args;
use crate::decimal::{
    all_digits, decimal, is_digit, numeral, parse_u64, unsigned_value, within,
};
use crate::payload::{disk_views, DiskInfo, DiskInfoView, SysInfo, SysInfoView};
use crate::text::{
    begins_with, chars_of, contains, contains_text, is_space, lines, lines_of, lowercase, same_text,
    split_char, split_on, starts_with, to_lower, trim, trimmed, views,
};

verus! {

// ---------------------------------------------------------------------------
// Traffic
// ---------------------------------------------------------------------------

/// The bytes received and sent per sampling period.
#[derive(Clone, Copy, Debug, PartialEq, Eq)]
pub struct NetSpeed {
    pub net_rx: u64,
    pub net_tx: u64,
}

impl Default for NetSpeed {
    /// No traffic.
    fn default() -> (r: Self)
        ensures
            r == (NetSpeed { net_rx: 0, net_tx: 0 }),
    {
        NetSpeed { net_rx: 0, net_tx: 0 }
    }
}

/// The bytes that a network interface received and sent; `skipped` where the options
/// leave the interface out.
#[derive(Clone, Copy, Debug, PartialEq, Eq)]
pub struct Traffic {
    pub skipped: bool,
    pub rx: u64,
    pub tx: u64,
}

/// The bytes received over all interfaces that count.
pub open spec fn total_rx(s: Seq<Traffic>) -> int
    decreases s.len(),
{
    if s.len() == 0 {
        0
    } else {
        total_rx(s.drop_last()) + if s.last().skipped {
            0
        } else {
            s.last().rx as int
        }
    }
}

/// The bytes sent over all interfaces that count.
pub open spec fn total_tx(s: Seq<Traffic>) -> int
    decreases s.len(),
{
    if s.len() == 0 {
        0
    } else {
        total_tx(s.drop_last()) + if s.last().skipped {
            0
        } else {
            s.last().tx as int
        }
    }
}

/// A part of the interfaces has no more traffic than all.
pub(crate) proof fn lemma_totals_grow(s: Seq<Traffic>, i: int)
    requires
        0 <= i <= s.len(),
    ensures
        0 <= total_rx(s.take(i)) <= total_rx(s),
        0 <= total_tx(s.take(i)) <= total_tx(s),
    decreases s.len(),
{
    if i < s.len() {
        lemma_totals_grow(s.drop_last(), i);
        assert(s.drop_last().take(i) =~= s.take(i));
    } else {
        assert(s.take(i) =~= s);
        if s.len() > 0 {
            lemma_totals_grow(s.drop_last(), s.len() - 1);
            assert(s.drop_last().take(s.len() - 1) =~= s.drop_last());
        }
    }
}

/// The traffic over all interfaces that count, or `None` where a total is above what
/// a `u64` holds.
pub fn traffic_totals(v: &Vec<Traffic>) -> (r: Option<NetSpeed>)
    ensures
        (match r {
            Some(t) => t.net_rx == total_rx(v@) && t.net_tx == total_tx(v@),
            None => total_rx(v@) > u64::MAX || total_tx(v@) > u64::MAX,
        }),
{
    let n: usize = v.len();
    let mut rx: u64 = 0;
    let mut tx: u64 = 0;
    let mut i: usize = 0;
    while i < n
        invariant
            i <= n,
            n == v@.len(),
            rx == total_rx(v@.take(i as int)),
            tx == total_tx(v@.take(i as int)),
        decreases n - i,
    {
        proof {
            assert(v@.take(i + 1).drop_last() =~= v@.take(i as int));
            assert(v@.take(i + 1).last() == v@[i as int]);
            lemma_totals_grow(v@, i + 1);
        }
        if !v[i].skipped {
            if v[i].rx > u64::MAX - rx || v[i].tx > u64::MAX - tx {
                return None;
            }
            rx = rx + v[i].rx;
            tx = tx + v[i].tx;
        }
        i = i + 1;
    }
    assert(v@.take(n as int) =~= v@);
    Some(NetSpeed { net_rx: rx, net_tx: tx })
}

// ---------------------------------------------------------------------------
// Connections and processes
// ---------------------------------------------------------------------------

/// The connections over TCP and UDP, the processes and the threads.
#[derive(Clone, Copy, Debug, PartialEq, Eq, Structural)]
pub struct Tupd {
    pub tcp: u32,
    pub udp: u32,
    pub process: u32,
    pub thread: u32,
}

/// `n` in 32 bits: what lies above is cut off.
pub open spec fn low32(n: nat) -> int {
    n as int % 0x1_0000_0000
}

/// `n` less one, but not below zero.
pub open spec fn less_one(n: nat) -> nat {
    if n == 0 {
        0
    } else {
        (n - 1) as nat
    }
}

/// The entries of a connection table: its lines without the heading; none where it
/// could not be read.
pub open spec fn table_entries(text: Option<Seq<char>>) -> int {
    match text {
        Some(s) => low32(less_one(lines_of(s).len())),
        None => 0,
    }
}

/// The number of names that are made of digits alone.
pub open spec fn numeric_names(s: Seq<Seq<char>>) -> nat
    decreases s.len(),
{
    if s.len() == 0 {
        0
    } else {
        numeric_names(s.drop_last()) + if all_digits(s.last()) {
            1nat
        } else {
            0nat
        }
    }
}

/// The number of lines in which `pat` stands.
pub open spec fn lines_with(s: Seq<Seq<char>>, pat: Seq<char>) -> nat
    decreases s.len(),
{
    if s.len() == 0 {
        0
    } else {
        lines_with(s.drop_last(), pat) + if contains_text(s.last(), pat) {
            1nat
        } else {
            0nat
        }
    }
}

/// The number of lines that do not begin with `pat`.
pub open spec fn lines_not_led_by(s: Seq<Seq<char>>, pat: Seq<char>) -> nat
    decreases s.len(),
{
    if s.len() == 0 {
        0
    } else {
        lines_not_led_by(s.drop_last(), pat) + if begins_with(s.last(), pat) {
            0nat
        } else {
            1nat
        }
    }
}

/// What an optional text says.
pub open spec fn opt_text(o: Option<&str>) -> Option<Seq<char>> {
    match o {
        Some(s) => Some(s@),
        None => None,
    }
}

/// `n` in 32 bits.
fn cut32(n: usize) -> (r: u32)
    ensures
        r == low32(n as nat),
{
    let m: u64 = n as u64;
    assert(m as u32 == m % 0x1_0000_0000) by (bit_vector);
    m as u32
}

/// The entries of a connection table.
fn count_entries(text: Option<&str>) -> (r: u32)
    ensures
        r == table_entries(opt_text(text)),
{
    match text {
        Some(s) => {
            let v = lines(s);
            let n: usize = v.len();
            assert(views(v@).len() == n);
            cut32(if n == 0 {
                0
            } else {
                n - 1
            })
        },
        None => 0,
    }
}

/// Whether `s` is made of digits alone.
fn is_numeric(s: &str) -> (r: bool)
    ensures
        r == all_digits(s@),
{
    let v = chars_of(s);
    let n: usize = v.len();
    let mut i: usize = 0;
    while i < n
        invariant
            i <= n,
            n == v@.len(),
            v@ == s@,
            forall|k: int| 0 <= k < i ==> is_digit(#[trigger] v@[k]),
        decreases n - i,
    {
        if !(v[i] >= '0' && v[i] <= '9') {
            assert(!is_digit(s@[i as int]));
            return false;
        }
        i = i + 1;
    }
    true
}

/// Of the first names no more are made of digits than of all.
proof fn lemma_numeric_grows(s: Seq<Seq<char>>, i: int)
    requires
        0 <= i <= s.len(),
    ensures
        numeric_names(s.take(i)) <= numeric_names(s),
    decreases s.len(),
{
    if i < s.len() {
        lemma_numeric_grows(s.drop_last(), i);
        assert(s.drop_last().take(i) =~= s.take(i));
    } else {
        assert(s.take(i) =~= s);
    }
}

/// Connections and processes on Linux, from the two connection tables and the names
/// of the entries of the process directory. The threads are not counted: there are
/// as many as processes.
pub fn tupd_linux_optimized(tcp: Option<&str>, udp: Option<&str>, names: &Vec<String>) -> (r: Tupd)
    requires
        numeric_names(views(names@)) <= u32::MAX,
    ensures
        r.tcp == table_entries(opt_text(tcp)),
        r.udp == table_entries(opt_text(udp)),
        r.process == numeric_names(views(names@)),
        r.thread == r.process,
{
    let t: u32 = count_entries(tcp);
    let u: u32 = count_entries(udp);
    let n: usize = names.len();
    let mut p: u32 = 0;
    let mut i: usize = 0;
    while i < n
        invariant
            i <= n,
            n == names@.len(),
            numeric_names(views(names@)) <= u32::MAX,
            p == numeric_names(views(names@).take(i as int)),
        decreases n - i,
    {
        proof {
            let v = views(names@);
            assert(v.take(i + 1).drop_last() =~= v.take(i as int));
            assert(v.take(i + 1).last() == names@[i as int]@);
            lemma_numeric_grows(v, i + 1);
        }
        if is_numeric(names[i].as_str()) {
            p = p + 1;
        }
        i = i + 1;
    }
    assert(views(names@).take(n as int) =~= views(names@));
    Tupd { tcp: t, udp: u, process: p, thread: p }
}

/// Connections and processes on FreeBSD, from what `netstat` prints of each protocol
/// and what `ps` prints; none where a command failed.
pub fn tupd_freebsd(tcp: Option<&str>, udp: Option<&str>, ps: Option<&str>) -> (r: Tupd)
    ensures
        r.tcp == (match tcp {
            Some(s) => low32(lines_with(lines_of(s@), "ESTABLISHED"@)),
            None => 0,
        }),
        r.udp == (match udp {
            Some(s) => low32(lines_not_led_by(lines_of(s@), "Active"@)),
            None => 0,
        }),
        r.process == (match ps {
            Some(s) => less_one(low32(lines_of(s@).len()) as nat) as int,
            None => 0,
        }),
        r.thread == r.process,
{
    let t: u32 = match tcp {
        Some(s) => {
            let v = lines(s);
            let n: usize = v.len();
            let mut c: usize = 0;
            let mut i: usize = 0;
            while i < n
                invariant
                    i <= n,
                    n == v@.len(),
                    c == lines_with(views(v@).take(i as int), "ESTABLISHED"@),
                    c <= i,
                decreases n - i,
            {
                proof {
                    let w = views(v@);
                    assert(w.take(i + 1).drop_last() =~= w.take(i as int));
                    assert(w.take(i + 1).last() == v@[i as int]@);
                }
                if contains(v[i].as_str(), "ESTABLISHED") {
                    c = c + 1;
                }
                i = i + 1;
            }
            assert(views(v@).take(n as int) =~= views(v@));
            cut32(c)
        },
        None => 0,
    };
    let u: u32 = match udp {
        Some(s) => {
            let v = lines(s);
            let n: usize = v.len();
            let mut c: usize = 0;
            let mut i: usize = 0;
            while i < n
                invariant
                    i <= n,
                    n == v@.len(),
                    c == lines_not_led_by(views(v@).take(i as int), "Active"@),
                    c <= i,
                decreases n - i,
            {
                proof {
                    let w = views(v@);
                    assert(w.take(i + 1).drop_last() =~= w.take(i as int));
                    assert(w.take(i + 1).last() == v@[i as int]@);
                }
                if !starts_with(v[i].as_str(), "Active") {
                    c = c + 1;
                }
                i = i + 1;
            }
            assert(views(v@).take(n as int) =~= views(v@));
            cut32(c)
        },
        None => 0,
    };
    let p: u32 = match ps {
        Some(s) => {
            let v = lines(s);
            assert(views(v@).len() == v@.len());
            let c: u32 = cut32(v.len());
            if c == 0 {
                0
            } else {
                c - 1
            }
        },
        None => 0,
    };
    Tupd { tcp: t, udp: u, process: p, thread: p }
}

// ---------------------------------------------------------------------------
// Storage pools
// ---------------------------------------------------------------------------

/// The number that a field writes, or zero where it writes none that a `u64` holds.
pub open spec fn field_value(s: Seq<char>) -> u64 {
    match within(unsigned_value(s), 0, u64::MAX as int) {
        Some(n) => n as u64,
        None => 0,
    }
}

/// `a` less `b`, but not below zero.
pub open spec fn monus(a: u64, b: u64) -> u64 {
    if a < b {
        0
    } else {
        (a - b) as u64
    }
}

/// The pool that a line of `zpool list` tells of: its name, its size and what of it
/// is allocated, with tabs between; `None` where there are fewer than three fields.
pub open spec fn pool_of(line: Seq<char>) -> Option<DiskInfoView> {
    let f = split_on(line, '\t');
    if f.len() >= 3 {
        let total = field_value(f[1]);
        let used = field_value(f[2]);
        Some(
            DiskInfoView {
                name: "zpool-"@ + f[0],
                mount_point: "/"@ + f[0],
                file_system: "zfs"@,
                total,
                used,
                free: monus(total, used),
            },
        )
    } else {
        None
    }
}

/// The pools that the lines tell of.
pub open spec fn pools_of(s: Seq<Seq<char>>) -> Seq<DiskInfoView>
    decreases s.len(),
{
    if s.len() == 0 {
        Seq::empty()
    } else {
        let front = pools_of(s.drop_last());
        match pool_of(s.last()) {
            Some(p) => front.push(p),
            None => front,
        }
    }
}

/// The pools that the output of `zpool list` tells of; none where it failed.
pub open spec fn zfs_pools(output: Option<Seq<char>>) -> Seq<DiskInfoView> {
    match output {
        Some(s) => pools_of(lines_of(s)),
        None => Seq::empty(),
    }
}

/// The number that a field writes, or zero.
fn parse_field(s: &str) -> (r: u64)
    ensures
        r == field_value(s@),
{
    match parse_u64(s) {
        Some(n) => n,
        None => 0,
    }
}

/// The pool that a line tells of.
fn parse_pool(line: &str) -> (r: Option<DiskInfo>)
    ensures
        (match r {
            Some(p) => pool_of(line@) == Some(p@),
            None => pool_of(line@) is None,
        }),
{
    let f = split_char(line, '\t');
    assert(views(f@).len() == f@.len());
    if f.len() >= 3 {
        let total: u64 = parse_field(f[1].as_str());
        let used: u64 = parse_field(f[2].as_str());
        let mut name = "zpool-".to_string();
        name.append(f[0].as_str());
        let mut mount_point = "/".to_string();
        mount_point.append(f[0].as_str());
        Some(
            DiskInfo {
                name,
                mount_point,
                file_system: "zfs".to_string(),
                total,
                used,
                free: total.saturating_sub(used),
            },
        )
    } else {
        None
    }
}

/// The pools that the output of `zpool list` tells of; none where it failed.
pub fn get_zfs_pools(output: Option<&str>) -> (r: Vec<DiskInfo>)
    ensures
        disk_views(r@) == zfs_pools(opt_text(output)),
{
    let mut r: Vec<DiskInfo> = Vec::new();
    assert(disk_views(r@) =~= Seq::<DiskInfoView>::empty());
    match output {
        Some(s) => {
            let v = lines(s);
            let n: usize = v.len();
            let mut i: usize = 0;
            assert(views(v@).take(0) =~= Seq::<Seq<char>>::empty());
            while i < n
                invariant
                    i <= n,
                    n == v@.len(),
                    disk_views(r@) == pools_of(views(v@).take(i as int)),
                decreases n - i,
            {
                let ghost q = r@;
                proof {
                    let w = views(v@);
                    assert(w.take(i + 1).drop_last() =~= w.take(i as int));
                    assert(w.take(i + 1).last() == v@[i as int]@);
                }
                match parse_pool(v[i].as_str()) {
                    Some(p) => {
                        r.push(p);
                        assert(disk_views(r@) =~= disk_views(q).push(p@));
                    },
                    None => {},
                }
                i = i + 1;
            }
            assert(views(v@).take(n as int) =~= views(v@));
        },
        None => {},
    }
    r
}

// ---------------------------------------------------------------------------
// Disks
// ---------------------------------------------------------------------------

/// The file systems whose disks count.
pub const G_EXPECT_FS: [&'static str; 17] = [
    "apfs",
    "hfs",
    "ext4",
    "ext3",
    "ext2",
    "f2fs",
    "reiserfs",
    "jfs",
    "btrfs",
    "fuseblk",
    "zfs",
    "simfs",
    "ntfs",
    "fat32",
    "exfat",
    "xfs",
    "fuse.rclone",
];

/// A mounted disk as the system tells of it, its space in bytes.
#[derive(Debug)]
pub struct DiskReading {
    pub name: String,
    pub mount_point: String,
    pub file_system: String,
    pub total: u64,
    pub available: u64,
}

/// What a `DiskReading` says.
#[verifier::ext_equal]
pub struct DiskReadingView {
    pub name: Seq<char>,
    pub mount_point: Seq<char>,
    pub file_system: Seq<char>,
    pub total: u64,
    pub available: u64,
}

impl View for DiskReading {
    type V = DiskReadingView;

    open spec fn view(&self) -> DiskReadingView {
        DiskReadingView {
            name: self.name@,
            mount_point: self.mount_point@,
            file_system: self.file_system@,
            total: self.total,
            available: self.available,
        }
    }
}

/// What a list of disks says.
pub open spec fn reading_views(v: Seq<DiskReading>) -> Seq<DiskReadingView> {
    v.map_values(|d: DiskReading| d@)
}

/// The disk belongs to a storage pool, which is told of by itself.
pub open spec fn is_zfs(d: DiskReadingView) -> bool {
    lowercase(d.file_system) == "zfs"@
}

/// The file system is one of those whose disks count.
pub open spec fn expected_fs(fs: Seq<char>) -> bool {
    exists|i: int| 0 <= i < G_EXPECT_FS@.len() && (#[trigger] G_EXPECT_FS@[i])@ == fs
}

/// The disk counts by its file system.
pub open spec fn counts(d: DiskReadingView) -> bool {
    !is_zfs(d) && expected_fs(lowercase(d.file_system))
}

/// The disk is reported as this.
pub open spec fn disk_info(d: DiskReadingView) -> DiskInfoView {
    DiskInfoView {
        name: d.name,
        mount_point: d.mount_point,
        file_system: lowercase(d.file_system),
        total: d.total,
        used: (d.total - d.available) as u64,
        free: d.available,
    }
}

/// One of the disks has the name.
pub open spec fn has_disk(s: Seq<DiskInfoView>, name: Seq<char>) -> bool {
    exists|i: int| 0 <= i < s.len() && (#[trigger] s[i]).name == name
}

/// The disks to report: those that count, each name once, as it first comes. On
/// Windows a name may come more than once.
pub open spec fn picked(s: Seq<DiskReadingView>, windows: bool) -> Seq<DiskInfoView>
    decreases s.len(),
{
    if s.len() == 0 {
        Seq::empty()
    } else {
        let front = picked(s.drop_last(), windows);
        if counts(s.last()) && (windows || !has_disk(front, s.last().name)) {
            front.push(disk_info(s.last()))
        } else {
            front
        }
    }
}

/// The disk with the number `i` is one to report.
pub open spec fn is_picked(s: Seq<DiskReadingView>, i: int, windows: bool) -> bool {
    counts(s[i]) && (windows || !has_disk(picked(s.take(i), windows), s[i].name))
}

/// No disk to report has more space available than it has.
pub open spec fn sane_disks(s: Seq<DiskReadingView>, windows: bool) -> bool {
    forall|i: int|
        0 <= i < s.len() && #[trigger] is_picked(s, i, windows) ==> s[i].available <= s[i].total
}

/// One of the disks belongs to a storage pool.
pub open spec fn has_zfs(s: Seq<DiskReadingView>) -> bool {
    exists|i: int| 0 <= i < s.len() && is_zfs(#[trigger] s[i])
}

/// The space of all disks.
pub open spec fn sum_total(s: Seq<DiskInfoView>) -> int
    decreases s.len(),
{
    if s.len() == 0 {
        0
    } else {
        sum_total(s.drop_last()) + s.last().total
    }
}

/// The free space of all disks.
pub open spec fn sum_free(s: Seq<DiskInfoView>) -> int
    decreases s.len(),
{
    if s.len() == 0 {
        0
    } else {
        sum_free(s.drop_last()) + s.last().free
    }
}

/// No disk has more free space than space.
pub open spec fn sane_infos(s: Seq<DiskInfoView>) -> bool {
    forall|i: int| 0 <= i < s.len() ==> (#[trigger] s[i]).free <= s[i].total
}

/// The first of the disks have no more space than all, and no more of it is free.
pub(crate) proof fn lemma_sums(s: Seq<DiskInfoView>, i: int)
    requires
        0 <= i <= s.len(),
        sane_infos(s),
    ensures
        0 <= sum_total(s.take(i)) <= sum_total(s),
        0 <= sum_free(s.take(i)) <= sum_free(s) <= sum_total(s),
        sum_free(s.take(i)) <= sum_total(s.take(i)),
    decreases s.len(),
{
    if i < s.len() {
        let t = s.drop_last();
        assert(sane_infos(t)) by {
            assert forall|k: int| 0 <= k < t.len() implies (#[trigger] t[k]).free <= t[k].total by {
                assert(t[k] == s[k]);
            }
        }
        lemma_sums(t, i);
        assert(t.take(i) =~= s.take(i));
        assert(s.last() == s[s.len() - 1]);
    } else {
        assert(s.take(i) =~= s);
        if s.len() > 0 {
            let t = s.drop_last();
            assert(sane_infos(t)) by {
                assert forall|k: int| 0 <= k < t.len() implies (#[trigger] t[k]).free
                    <= t[k].total by {
                    assert(t[k] == s[k]);
                }
            }
            lemma_sums(t, s.len() - 1);
            assert(t.take(s.len() - 1) =~= t);
            assert(s.last() == s[s.len() - 1]);
        }
    }
}

/// The disks picked from sane readings are sane.
proof fn lemma_picked_sane(s: Seq<DiskReadingView>, windows: bool)
    requires
        sane_disks(s, windows),
    ensures
        sane_infos(picked(s, windows)),
    decreases s.len(),
{
    if s.len() > 0 {
        let t = s.drop_last();
        assert(sane_disks(t, windows)) by {
            assert forall|i: int| 0 <= i < t.len() && #[trigger] is_picked(
                t,
                i,
                windows,
            ) implies t[i].available <= t[i].total by {
                assert(t.take(i) =~= s.take(i));
                assert(is_picked(s, i, windows));
            }
        }
        lemma_picked_sane(t, windows);
        assert(s.take(s.len() - 1) =~= t);
        assert(is_picked(s, s.len() - 1, windows) ==> s.last().available <= s.last().total);
    }
}

/// A pool never has more free space than space.
pub proof fn law_pools_sane(output: Option<Seq<char>>)
    ensures
        sane_infos(zfs_pools(output)),
{
    match output {
        Some(s) => {
            lemma_pools_sane(lines_of(s));
        },
        None => {},
    }
}

proof fn lemma_pools_sane(s: Seq<Seq<char>>)
    ensures
        sane_infos(pools_of(s)),
    decreases s.len(),
{
    if s.len() > 0 {
        lemma_pools_sane(s.drop_last());
    }
}

/// Off Windows, no name is reported twice among the disks that are no pools.
pub proof fn law_picked_names_differ(s: Seq<DiskReadingView>)
    ensures
        ({
            let p = picked(s, false);
            forall|i: int, j: int| 0 <= i < j < p.len() ==> p[i].name != p[j].name
        }),
    decreases s.len(),
{
    if s.len() > 0 {
        law_picked_names_differ(s.drop_last());
        let front = picked(s.drop_last(), false);
        let p = picked(s, false);
        assert forall|i: int, j: int| 0 <= i < j < p.len() implies p[i].name != p[j].name by {
            if j == front.len() {
                assert(front[i] == p[i]);
            }
        }
    }
}

/// Whether the file system is one of those whose disks count.
fn is_expected(fs: &str) -> (r: bool)
    ensures
        r == expected_fs(fs@),
{
    let mut i: usize = 0;
    while i < 17
        invariant
            i <= 17,
            G_EXPECT_FS@.len() == 17,
            forall|k: int| 0 <= k < i ==> (#[trigger] G_EXPECT_FS@[k])@ != fs@,
        decreases 17 - i,
    {
        if same_text(G_EXPECT_FS[i], fs) {
            assert(G_EXPECT_FS@[i as int]@ == fs@);
            return true;
        }
        i = i + 1;
    }
    false
}

/// Whether one of the disks has the name.
fn knows_disk(v: &Vec<DiskInfo>, name: &str) -> (r: bool)
    ensures
        r == has_disk(disk_views(v@), name@),
{
    let n: usize = v.len();
    let mut i: usize = 0;
    while i < n
        invariant
            i <= n,
            n == v@.len(),
            forall|k: int| 0 <= k < i ==> (#[trigger] disk_views(v@)[k]).name != name@,
        decreases n - i,
    {
        assert(disk_views(v@)[i as int].name == v@[i as int].name@);
        if same_text(v[i].name.as_str(), name) {
            return true;
        }
        i = i + 1;
    }
    false
}

/// Whether one of the disks belongs to a storage pool.
fn finds_zfs(disks: &Vec<DiskReading>) -> (r: bool)
    ensures
        r == has_zfs(reading_views(disks@)),
{
    let n: usize = disks.len();
    let mut i: usize = 0;
    while i < n
        invariant
            i <= n,
            n == disks@.len(),
            forall|k: int| 0 <= k < i ==> !is_zfs(#[trigger] reading_views(disks@)[k]),
        decreases n - i,
    {
        assert(reading_views(disks@)[i as int] == disks@[i as int]@);
        if same_text(to_lower(disks[i].file_system.as_str()).as_str(), "zfs") {
            return true;
        }
        i = i + 1;
    }
    false
}

/// The disks to report, or `None` where one of them has more space available than it
/// has.
fn pick_disks(disks: &Vec<DiskReading>, windows: bool) -> (r: Option<Vec<DiskInfo>>)
    ensures
        r is Some <==> sane_disks(reading_views(disks@), windows),
        r is Some ==> disk_views(r->0@) == picked(reading_views(disks@), windows),
{
    let ghost v = reading_views(disks@);
    let n: usize = disks.len();
    let mut r: Vec<DiskInfo> = Vec::new();
    let mut i: usize = 0;
    assert(disk_views(r@) =~= picked(v.take(0), windows));
    while i < n
        invariant
            i <= n,
            n == disks@.len(),
            v == reading_views(disks@),
            disk_views(r@) == picked(v.take(i as int), windows),
            forall|k: int|
                0 <= k < i && #[trigger] is_picked(v, k, windows) ==> v[k].available <= v[k].total,
        decreases n - i,
    {
        let ghost q = r@;
        proof {
            assert(v.take(i + 1).drop_last() =~= v.take(i as int));
            assert(v.take(i + 1).last() == v[i as int]);
            assert(v[i as int] == disks@[i as int]@);
        }
        let d = &disks[i];
        let fs = to_lower(d.file_system.as_str());
        if !same_text(fs.as_str(), "zfs") && is_expected(fs.as_str()) && (windows || !knows_disk(
            &r,
            d.name.as_str(),
        )) {
            assert(is_picked(v, i as int, windows));
            if d.available > d.total {
                return None;
            }
            let info = DiskInfo {
                name: d.name.clone(),
                mount_point: d.mount_point.clone(),
                file_system: fs,
                total: d.total,
                used: d.total - d.available,
                free: d.available,
            };
            r.push(info);
            assert(disk_views(r@) =~= disk_views(q).push(info@));
        }
        i = i + 1;
    }
    assert(v.take(n as int) =~= v);
    Some(r)
}

/// The space of all disks and the free space among it, or `None` where it is more than
/// a `u64` holds.
fn disk_space(v: &Vec<DiskInfo>) -> (r: Option<(u64, u64)>)
    requires
        sane_infos(disk_views(v@)),
    ensures
        (match r {
            Some((total, free)) => total == sum_total(disk_views(v@)) && free == sum_free(
                disk_views(v@),
            ),
            None => sum_total(disk_views(v@)) > u64::MAX,
        }),
{
    let ghost d = disk_views(v@);
    let n: usize = v.len();
    let mut total: u64 = 0;
    let mut free: u64 = 0;
    let mut i: usize = 0;
    while i < n
        invariant
            i <= n,
            n == v@.len(),
            d == disk_views(v@),
            sane_infos(d),
            total == sum_total(d.take(i as int)),
            free == sum_free(d.take(i as int)),
        decreases n - i,
    {
        proof {
            assert(d.take(i + 1).drop_last() =~= d.take(i as int));
            assert(d.take(i + 1).last() == v@[i as int]@);
            lemma_sums(d, i + 1);
            lemma_sums(d.take(i + 1), i + 1);
        }
        if v[i].total > u64::MAX - total {
            return None;
        }
        total = total + v[i].total;
        free = free + v[i].free;
        i = i + 1;
    }
    assert(d.take(n as int) =~= d);
    Some((total, free))
}

// ---------------------------------------------------------------------------
// The sample
// ---------------------------------------------------------------------------

/// The system that the client was built for.
#[derive(Clone, Copy, Debug, PartialEq, Eq)]
pub struct Platform {
    pub macos: bool,
    pub windows: bool,
}

/// What the client reports of the host, as far as it is counted in whole numbers.
#[derive(Debug)]
pub struct StatRequest {
    pub version: String,
    pub vnstat: bool,
    pub online4: bool,
    pub online6: bool,
    pub uptime: u64,
    pub memory_total: u64,
    pub memory_used: u64,
    pub swap_total: u64,
    pub swap_used: u64,
    pub hdd_total: u64,
    pub hdd_used: u64,
    pub network_in: u64,
    pub network_out: u64,
    pub last_network_in: u64,
    pub last_network_out: u64,
    pub network_rx: u64,
    pub network_tx: u64,
    pub tupd: Tupd,
    pub pings: Pings,
    pub disks: Vec<DiskInfo>,
}

/// How the three carriers answer: the probes lost in percent, and the time that the
/// last one took in milliseconds.
#[derive(Clone, Copy, Debug, PartialEq, Eq)]
pub struct Pings {
    pub ping_10010: u32,
    pub time_10010: u32,
    pub ping_189: u32,
    pub time_189: u32,
    pub ping_10086: u32,
    pub time_10086: u32,
}

/// How a carrier answers: the probes lost in percent, and the time that the last one
/// took in milliseconds.
#[derive(Clone, Copy, Debug, PartialEq, Eq)]
pub struct PingReading {
    pub loss: u32,
    pub time: u32,
}

/// What a `StatRequest` says.
#[verifier::ext_equal]
pub struct StatRequestView {
    pub version: Seq<char>,
    pub vnstat: bool,
    pub online4: bool,
    pub online6: bool,
    pub uptime: u64,
    pub memory_total: u64,
    pub memory_used: u64,
    pub swap_total: u64,
    pub swap_used: u64,
    pub hdd_total: u64,
    pub hdd_used: u64,
    pub network_in: u64,
    pub network_out: u64,
    pub last_network_in: u64,
    pub last_network_out: u64,
    pub network_rx: u64,
    pub network_tx: u64,
    pub tupd: Tupd,
    pub pings: Pings,
    pub disks: Seq<DiskInfoView>,
}

impl View for StatRequest {
    type V = StatRequestView;

    open spec fn view(&self) -> StatRequestView {
        StatRequestView {
            version: self.version@,
            vnstat: self.vnstat,
            online4: self.online4,
            online6: self.online6,
            uptime: self.uptime,
            memory_total: self.memory_total,
            memory_used: self.memory_used,
            swap_total: self.swap_total,
            swap_used: self.swap_used,
            hdd_total: self.hdd_total,
            hdd_used: self.hdd_used,
            network_in: self.network_in,
            network_out: self.network_out,
            last_network_in: self.last_network_in,
            last_network_out: self.last_network_out,
            network_rx: self.network_rx,
            network_tx: self.network_tx,
            tupd: self.tupd,
            pings: self.pings,
            disks: disk_views(self.disks@),
        }
    }
}

/// What the system tells of the host at a sample.
#[derive(Debug)]
pub struct Readings {
    /// The client's version.
    pub version: String,
    pub uptime: u64,
    /// Memory and swap space, in bytes.
    pub memory_total: u64,
    pub memory_available: u64,
    pub memory_used: u64,
    pub swap_total: u64,
    pub swap_free: u64,
    pub disks: Vec<DiskReading>,
    /// What `zpool list` printed, where it was run and did not fail.
    pub zpool_output: Option<String>,
    /// The bytes that vnstat counted: received and sent in all, then within the month;
    /// `None` where it could not be asked.
    pub vnstat_traffic: Option<(u64, u64, u64, u64)>,
    /// The bytes over each interface since it is up.
    pub networks: Vec<Traffic>,
    pub tupd: Tupd,
    /// The last speed that was measured.
    pub net_speed: Option<NetSpeed>,
    /// How each carrier answers, where it is known.
    pub ping_10010: Option<PingReading>,
    pub ping_189: Option<PingReading>,
    pub ping_10086: Option<PingReading>,
}

/// The disks of the storage pools, listed anew every tenth sample.
#[derive(Debug)]
pub struct Monitor {
    pub zfs_cache: Vec<DiskInfo>,
    pub zfs_tick: u8,
}

/// What a `Monitor` holds.
#[verifier::ext_equal]
pub struct MonitorView {
    pub zfs_cache: Seq<DiskInfoView>,
    pub zfs_tick: u8,
}

impl View for Monitor {
    type V = MonitorView;

    open spec fn view(&self) -> MonitorView {
        MonitorView { zfs_cache: disk_views(self.zfs_cache@), zfs_tick: self.zfs_tick }
    }
}

/// Less than ten samples lie behind the last listing, and no pool has more free space
/// than space.
pub open spec fn monitor_wf(m: MonitorView) -> bool {
    &&& m.zfs_tick < 10
    &&& sane_infos(m.zfs_cache)
}

/// The pools are to be listed at the sample: there is one, and none is known or the
/// tenth sample has come.
pub open spec fn lists_pools(m: MonitorView, disks: Seq<DiskReadingView>) -> bool {
    has_zfs(disks) && (m.zfs_tick + 1 >= 10 || m.zfs_cache.len() == 0)
}

/// What the monitor holds after the sample.
pub open spec fn monitored(
    m: MonitorView,
    disks: Seq<DiskReadingView>,
    zpool_output: Option<Seq<char>>,
) -> MonitorView {
    if !has_zfs(disks) {
        m
    } else if lists_pools(m, disks) {
        MonitorView { zfs_cache: zfs_pools(zpool_output), zfs_tick: 0 }
    } else {
        MonitorView { zfs_tick: (m.zfs_tick + 1) as u8, ..m }
    }
}

/// What an optional text says.
pub open spec fn opt_string(o: Option<String>) -> Option<Seq<char>> {
    match o {
        Some(s) => Some(s@),
        None => None,
    }
}

/// All the disks of the sample: those picked, then the pools where there are any.
pub open spec fn all_disks(m: MonitorView, r: Readings, windows: bool) -> Seq<DiskInfoView> {
    let d = reading_views(r.disks@);
    let p = picked(d, windows);
    if has_zfs(d) {
        p + monitored(m, d, opt_string(r.zpool_output)).zfs_cache
    } else {
        p
    }
}

/// The bytes of a reported unit of disk space.
pub open spec fn disk_unit(p: Platform) -> int {
    if p.macos {
        1_000_000
    } else {
        1_048_576
    }
}

/// The memory in use, in bytes.
pub open spec fn memory_in_use(r: Readings, p: Platform) -> int {
    if p.macos {
        r.memory_total - r.memory_available
    } else {
        r.memory_used as int
    }
}

/// The readings make sense: nothing is larger than what it is a part of, and each
/// total can be held.
pub open spec fn sane_readings(m: MonitorView, args: Args, p: Platform, r: Readings) -> bool {
    &&& p.macos ==> r.memory_available <= r.memory_total
    &&& r.swap_free <= r.swap_total
    &&& sane_disks(reading_views(r.disks@), p.windows)
    &&& sum_total(all_disks(m, r, p.windows)) <= u64::MAX
    &&& if args.vnstat {
        match r.vnstat_traffic {
            Some((i, o, mi, mo)) => mi <= i && mo <= o,
            None => true,
        }
    } else {
        total_rx(r.networks@) <= u64::MAX && total_tx(r.networks@) <= u64::MAX
    }
}

/// The traffic as it is reported: what vnstat counted, with what was counted before
/// the month, or what went over the interfaces.
pub open spec fn with_traffic(stat: StatRequestView, args: Args, r: Readings) -> StatRequestView {
    if args.vnstat {
        match r.vnstat_traffic {
            Some((i, o, mi, mo)) => StatRequestView {
                network_in: i,
                network_out: o,
                last_network_in: (i - mi) as u64,
                last_network_out: (o - mo) as u64,
                ..stat
            },
            None => stat,
        }
    } else {
        StatRequestView {
            network_in: total_rx(r.networks@) as u64,
            network_out: total_tx(r.networks@) as u64,
            ..stat
        }
    }
}

/// How the carriers answer, where it is known.
pub open spec fn with_pings(p: Pings, r: Readings) -> Pings {
    Pings {
        ping_10010: if r.ping_10010 is Some {
            r.ping_10010->0.loss
        } else {
            p.ping_10010
        },
        time_10010: if r.ping_10010 is Some {
            r.ping_10010->0.time
        } else {
            p.time_10010
        },
        ping_189: if r.ping_189 is Some {
            r.ping_189->0.loss
        } else {
            p.ping_189
        },
        time_189: if r.ping_189 is Some {
            r.ping_189->0.time
        } else {
            p.time_189
        },
        ping_10086: if r.ping_10086 is Some {
            r.ping_10086->0.loss
        } else {
            p.ping_10086
        },
        time_10086: if r.ping_10086 is Some {
            r.ping_10086->0.time
        } else {
            p.time_10086
        },
    }
}

/// The report after the sample. Memory and swap space are reported in kibibytes, disk
/// space in mebibytes (megabytes on macOS).
pub open spec fn sampled(
    stat: StatRequestView,
    m: MonitorView,
    args: Args,
    p: Platform,
    r: Readings,
) -> StatRequestView {
    let d = all_disks(m, r, p.windows);
    let s = with_traffic(stat, args, r);
    StatRequestView {
        version: r.version@,
        vnstat: args.vnstat,
        uptime: r.uptime,
        memory_total: r.memory_total / 1024,
        memory_used: (memory_in_use(r, p) / 1024) as u64,
        swap_total: r.swap_total / 1024,
        swap_used: ((r.swap_total - r.swap_free) / 1024) as u64,
        disks: d,
        hdd_total: (sum_total(d) / disk_unit(p)) as u64,
        hdd_used: ((sum_total(d) - sum_free(d)) / disk_unit(p)) as u64,
        tupd: if args.disable_tupd {
            Tupd { tcp: 0, udp: 0, process: 0, thread: 0 }
        } else {
            r.tupd
        },
        network_rx: if r.net_speed is Some {
            r.net_speed->0.net_rx
        } else {
            stat.network_rx
        },
        network_tx: if r.net_speed is Some {
            r.net_speed->0.net_tx
        } else {
            stat.network_tx
        },
        pings: with_pings(stat.pings, r),
        ..s
    }
}

/// What a sample reads of the storage pools: the disks, and what was printed of the
/// pools.
#[verifier::ext_equal]
pub struct PoolReading {
    pub disks: Seq<DiskReadingView>,
    pub zpool_output: Option<Seq<char>>,
}

/// What the monitor holds after samples with these readings, one after the other.
pub open spec fn monitored_through(m: MonitorView, readings: Seq<PoolReading>) -> MonitorView
    decreases readings.len(),
{
    if readings.len() == 0 {
        m
    } else {
        let r = readings.last();
        monitored(monitored_through(m, readings.drop_last()), r.disks, r.zpool_output)
    }
}

/// How many of the readings show a disk in a pool.
pub open spec fn pool_samples(readings: Seq<PoolReading>) -> nat
    decreases readings.len(),
{
    if readings.len() == 0 {
        0
    } else {
        pool_samples(readings.drop_last()) + (if has_zfs(readings.last().disks) {
            1nat
        } else {
            0nat
        })
    }
}

/// Where pools are known, they are kept from sample to sample, whatever the samples
/// read, and listed anew at the tenth behind the last listing. Samples that show no disk
/// in a pool do not count.
pub proof fn law_pools_are_listed_every_tenth_sample(
    m: MonitorView,
    readings: Seq<PoolReading>,
    next: Seq<DiskReadingView>,
)
    requires
        monitor_wf(m),
        m.zfs_cache.len() > 0,
        m.zfs_tick + pool_samples(readings) <= 9,
        has_zfs(next),
    ensures
        monitored_through(m, readings) == (MonitorView {
            zfs_tick: (m.zfs_tick + pool_samples(readings)) as u8,
            ..m
        }),
        lists_pools(monitored_through(m, readings), next) <==> m.zfs_tick + pool_samples(readings)
            == 9,
        (forall|i: int| 0 <= i < readings.len() ==> has_zfs((#[trigger] readings[i]).disks))
            ==> pool_samples(readings) == readings.len(),
    decreases readings.len(),
{
    if readings.len() > 0 {
        let front = readings.drop_last();
        law_pools_are_listed_every_tenth_sample(m, front, next);
        if forall|i: int| 0 <= i < readings.len() ==> has_zfs((#[trigger] readings[i]).disks) {
            assert(has_zfs(readings[readings.len() - 1].disks));
            assert forall|i: int| 0 <= i < front.len() implies has_zfs(
                (#[trigger] front[i]).disks,
            ) by {
                assert(front[i] == readings[i]);
            }
        }
    }
}

/// No disk of a sample with sane readings has more free space than space.
pub(crate) proof fn lemma_all_disks_sane(m: MonitorView, r: Readings, windows: bool)
    requires
        sane_infos(m.zfs_cache),
        sane_disks(reading_views(r.disks@), windows),
    ensures
        sane_infos(all_disks(m, r, windows)),
{
    lemma_picked_sane(reading_views(r.disks@), windows);
    law_pools_sane(opt_string(r.zpool_output));
}

impl Monitor {
    /// The state is as it may be.
    pub open spec fn wf(&self) -> bool {
        monitor_wf(self@)
    }

    /// A monitor that has listed no pool.
    pub fn new() -> (r: Self)
        ensures
            r.wf(),
            r@ == (MonitorView { zfs_cache: Seq::empty(), zfs_tick: 0 }),
    {
        let r = Monitor { zfs_cache: Vec::new(), zfs_tick: 0 };
        assert(r@.zfs_cache =~= Seq::<DiskInfoView>::empty());
        r
    }

    /// Whether the pools are to be listed at a sample with these disks.
    pub fn wants_pools(&self, disks: &Vec<DiskReading>) -> (r: bool)
        requires
            self.wf(),
        ensures
            r == lists_pools(self@, reading_views(disks@)),
    {
        finds_zfs(disks) && (self.zfs_tick + 1 >= 10 || self.zfs_cache.len() == 0)
    }

    /// How the three carriers answer, where it is known.
    fn collect_ping(&self, r: &Readings, stat: &mut StatRequest)
        ensures
            final(stat)@ == (StatRequestView {
                pings: with_pings(old(stat)@.pings, *r),
                ..old(stat)@
            }),
    {
        match r.ping_10010 {
            Some(m) => {
                stat.pings.ping_10010 = m.loss;
                stat.pings.time_10010 = m.time;
            },
            None => {},
        }
        match r.ping_189 {
            Some(m) => {
                stat.pings.ping_189 = m.loss;
                stat.pings.time_189 = m.time;
            },
            None => {},
        }
        match r.ping_10086 {
            Some(m) => {
                stat.pings.ping_10086 = m.loss;
                stat.pings.time_10086 = m.time;
            },
            None => {},
        }
    }

    /// The disks of the sample, the pools among them listed anew where that is due.
    fn gather_disks(&mut self, r: &Readings, windows: bool) -> (disks: Vec<DiskInfo>)
        requires
            old(self).wf(),
            sane_disks(reading_views(r.disks@), windows),
        ensures
            final(self).wf(),
            final(self)@ == monitored(
                old(self)@,
                reading_views(r.disks@),
                opt_string(r.zpool_output),
            ),
            disk_views(disks@) == all_disks(old(self)@, *r, windows),
            sane_infos(disk_views(disks@)),
    {
        let ghost m = self@;
        let mut disks: Vec<DiskInfo> = Vec::new();
        match pick_disks(&r.disks, windows) {
            Some(v) => {
                disks = v;
            },
            None => {},
        }
        let ghost p = disk_views(disks@);
        proof {
            lemma_picked_sane(reading_views(r.disks@), windows);
            law_pools_sane(opt_string(r.zpool_output));
        }
        if finds_zfs(&r.disks) {
            self.zfs_tick = self.zfs_tick + 1;
            if self.zfs_tick >= 10 || self.zfs_cache.len() == 0 {
                self.zfs_tick = 0;
                self.zfs_cache = get_zfs_pools(
                    match &r.zpool_output {
                        Some(s) => Some(s.as_str()),
                        None => None,
                    },
                );
            }
            let n: usize = self.zfs_cache.len();
            let mut i: usize = 0;
            assert(disk_views(disks@) =~= p + self@.zfs_cache.take(0));
            while i < n
                invariant
                    i <= n,
                    n == self.zfs_cache@.len(),
                    disk_views(disks@) == p + self@.zfs_cache.take(i as int),
                decreases n - i,
            {
                let ghost q = disks@;
                disks.push(self.zfs_cache[i].clone());
                proof {
                    assert(disk_views(disks@) =~= disk_views(q).push(self@.zfs_cache[i as int]));
                    assert(self@.zfs_cache.take(i + 1) =~= self@.zfs_cache.take(i as int).push(
                        self@.zfs_cache[i as int],
                    ));
                    assert(disk_views(disks@) =~= p + self@.zfs_cache.take(i + 1));
                }
                i = i + 1;
            }
            assert(self@.zfs_cache.take(n as int) =~= self@.zfs_cache);
        }
        disks
    }

    /// Whether the readings make sense.
    pub fn can_sample(&self, args: &Args, platform: Platform, r: &Readings) -> (ok: bool)
        requires
            self.wf(),
        ensures
            ok == sane_readings(self@, *args, platform, *r),
    {
        if platform.macos && r.memory_available > r.memory_total {
            return false;
        }
        if r.swap_free > r.swap_total {
            return false;
        }
        if pick_disks(&r.disks, platform.windows).is_none() {
            return false;
        }
        let zfs_cache = self.zfs_cache.clone();
        assert(zfs_cache@ =~= self.zfs_cache@);
        let mut m = Monitor { zfs_cache, zfs_tick: self.zfs_tick };
        assert(m@ =~= self@);
        let disks = m.gather_disks(r, platform.windows);
        if disk_space(&disks).is_none() {
            return false;
        }
        proof {
            lemma_sums(disk_views(disks@), 0);
        }
        if args.vnstat {
            match r.vnstat_traffic {
                Some((i, o, mi, mo)) => mi <= i && mo <= o,
                None => true,
            }
        } else {
            traffic_totals(&r.networks).is_some()
        }
    }

    /// Fills in the report `stat` from the readings.
    pub fn sample(&mut self, args: &Args, platform: Platform, r: &Readings, stat: &mut StatRequest)
        requires
            old(self).wf(),
            sane_readings(old(self)@, *args, platform, *r),
        ensures
            final(self).wf(),
            final(self)@ == monitored(
                old(self)@,
                reading_views(r.disks@),
                opt_string(r.zpool_output),
            ),
            final(stat)@ == sampled(old(stat)@, old(self)@, *args, platform, *r),
    {
        let ghost stat0 = stat@;
        let ghost m0 = self@;
        stat.version = r.version.clone();
        stat.vnstat = args.vnstat;
        let unit: u64 = if platform.macos {
            1_000_000
        } else {
            1_048_576
        };
        stat.uptime = r.uptime;
        stat.memory_total = r.memory_total / 1024;
        stat.memory_used = if platform.macos {
            (r.memory_total - r.memory_available) / 1024
        } else {
            r.memory_used / 1024
        };
        stat.swap_total = r.swap_total / 1024;
        stat.swap_used = (r.swap_total - r.swap_free) / 1024;
        stat.disks = self.gather_disks(r, platform.windows);
        match disk_space(&stat.disks) {
            Some((hdd_total, hdd_avail)) => {
                proof {
                    lemma_sums(disk_views(stat.disks@), 0);
                }
                stat.hdd_total = hdd_total / unit;
                stat.hdd_used = (hdd_total - hdd_avail) / unit;
            },
            None => {},
        }
        if args.vnstat {
            match r.vnstat_traffic {
                Some((network_in, network_out, m_network_in, m_network_out)) => {
                    stat.network_in = network_in;
                    stat.network_out = network_out;
                    stat.last_network_in = network_in - m_network_in;
                    stat.last_network_out = network_out - m_network_out;
                },
                None => {},
            }
        } else {
            match traffic_totals(&r.networks) {
                Some(t) => {
                    stat.network_in = t.net_rx;
                    stat.network_out = t.net_tx;
                },
                None => {},
            }
        }
        stat.tupd = if args.disable_tupd {
            Tupd { tcp: 0, udp: 0, process: 0, thread: 0 }
        } else {
            r.tupd
        };
        match r.net_speed {
            Some(s) => {
                stat.network_rx = s.net_rx;
                stat.network_tx = s.net_tx;
            },
            None => {},
        }
        self.collect_ping(r, stat);
    }

    /// Fills in the report `stat` from the readings where they make sense; otherwise
    /// everything stays as it is, and the result is `false`.
    pub fn try_sample(
        &mut self,
        args: &Args,
        platform: Platform,
        r: &Readings,
        stat: &mut StatRequest,
    ) -> (ok: bool)
        requires
            old(self).wf(),
        ensures
            final(self).wf(),
            ok == sane_readings(old(self)@, *args, platform, *r),
            ok ==> final(self)@ == monitored(
                old(self)@,
                reading_views(r.disks@),
                opt_string(r.zpool_output),
            ) && final(stat)@ == sampled(old(stat)@, old(self)@, *args, platform, *r),
            !ok ==> *final(self) == *old(self) && *final(stat) == *old(stat),
    {
        if !self.can_sample(args, platform, r) {
            return false;
        }
        self.sample(args, platform, r, stat);
        true
    }
}

// ---------------------------------------------------------------------------
// What the host is
// ---------------------------------------------------------------------------

/// What the system tells of the host once.
#[derive(Debug)]
pub struct SystemReadings {
    /// The client's version.
    pub version: String,
    pub os_name: String,
    pub os_arch: String,
    pub os_family: String,
    pub os_release: Option<String>,
    pub kernel_version: Option<String>,
    pub host_name: Option<String>,
    /// The brand and the vendor of each processor.
    pub cpus: Vec<(String, String)>,
}

/// The text, or the empty one where there is none.
pub open spec fn or_empty(o: Option<String>) -> Seq<char> {
    match o {
        Some(s) => s@,
        None => Seq::empty(),
    }
}

/// What the host is, by the readings.
pub open spec fn described(args: Args, r: SystemReadings) -> SysInfoView {
    SysInfoView {
        name: args.user@,
        version: r.version@,
        os_name: r.os_name@,
        os_arch: r.os_arch@,
        os_family: r.os_family@,
        os_release: or_empty(r.os_release),
        kernel_version: or_empty(r.kernel_version),
        cpu_num: low32(r.cpus@.len()) as u32,
        cpu_brand: if r.cpus@.len() > 0 {
            r.cpus@[0].0@
        } else {
            Seq::empty()
        },
        cpu_vender_id: if r.cpus@.len() > 0 {
            r.cpus@[0].1@
        } else {
            Seq::empty()
        },
        host_name: or_empty(r.host_name),
    }
}

/// The text, or the empty one where there is none.
fn text_or_empty(o: &Option<String>) -> (r: String)
    ensures
        r@ == or_empty(*o),
{
    match o {
        Some(s) => s.clone(),
        None => String::new(),
    }
}

/// What the host is; the processors are described by the first of them.
pub fn collect_sys_info(args: &Args, r: &SystemReadings) -> (info: SysInfo)
    ensures
        info@ == described(*args, *r),
{
    let mut cpu_brand = String::new();
    let mut cpu_vender_id = String::new();
    let n: usize = r.cpus.len();
    if n > 0 {
        cpu_brand = r.cpus[0].0.clone();
        cpu_vender_id = r.cpus[0].1.clone();
    }
    SysInfo {
        name: args.user.clone(),
        version: r.version.clone(),
        os_name: r.os_name.clone(),
        os_arch: r.os_arch.clone(),
        os_family: r.os_family.clone(),
        os_release: text_or_empty(&r.os_release),
        kernel_version: text_or_empty(&r.kernel_version),
        cpu_num: cut32(n),
        cpu_brand,
        cpu_vender_id,
        host_name: text_or_empty(&r.host_name),
    }
}

/// The MD5 digest of a text.
pub uninterp spec fn md5_digest(text: Seq<char>) -> Seq<u8>;

/// `md5::compute`: the digest, sixteen bytes, of the text's UTF-8 encoding; it depends
/// on the text alone.
#[verifier::external_body]
fn md5_compute(text: &str) -> (r: Vec<u8>)
    ensures
        r@ == md5_digest(text@),
        r@.len() == 16,
{
    md5::compute(text).0.to_vec()
}

/// The hexadecimal digit of the value `d`, in lower case.
pub open spec fn hex_digit(d: int) -> char {
    if d < 10 {
        ('0' as int + d) as char
    } else {
        ('a' as int + d - 10) as char
    }
}

/// The bytes in hexadecimal, two digits each.
pub open spec fn hex_text(s: Seq<u8>) -> Seq<char>
    decreases s.len(),
{
    if s.len() == 0 {
        Seq::empty()
    } else {
        hex_text(s.drop_last()).push(hex_digit(s.last() as int / 16)).push(
            hex_digit(s.last() as int % 16),
        )
    }
}

/// The hexadecimal digit of the value `d`.
fn hex(d: u8) -> (r: char)
    requires
        d < 16,
    ensures
        r == hex_digit(d as int),
{
    if d < 10 {
        (48u8 + d) as char
    } else {
        (87u8 + d) as char
    }
}

/// The bytes in hexadecimal, two digits each.
pub fn to_hex(v: &Vec<u8>) -> (r: String)
    ensures
        r@ == hex_text(v@),
{
    let n: usize = v.len();
    let mut r = String::new();
    let mut i: usize = 0;
    while i < n
        invariant
            i <= n,
            n == v@.len(),
            r@ == hex_text(v@.take(i as int)),
        decreases n - i,
    {
        proof {
            assert(v@.take(i + 1).drop_last() =~= v@.take(i as int));
            assert(v@.take(i + 1).last() == v@[i as int]);
        }
        r.push(hex(v[i] / 16));
        r.push(hex(v[i] % 16));
        i = i + 1;
    }
    assert(v@.take(n as int) =~= v@);
    r
}

/// What tells the host from others: what it is, and when it was started.
pub open spec fn identity_text(i: SysInfoView, boot_time: u64) -> Seq<char> {
    i.host_name + "/"@ + i.os_name + "/"@ + i.os_arch + "/"@ + i.os_family + "/"@ + i.os_release
        + "/"@ + i.kernel_version + "/"@ + i.cpu_brand + "/"@ + numeral(boot_time as nat)
}

/// What tells the host from others.
pub fn identity(i: &SysInfo, boot_time: u64) -> (r: String)
    ensures
        r@ == identity_text(i@, boot_time),
{
    let mut r = i.host_name.clone();
    r.append("/");
    r.append(i.os_name.as_str());
    r.append("/");
    r.append(i.os_arch.as_str());
    r.append("/");
    r.append(i.os_family.as_str());
    r.append("/");
    r.append(i.os_release.as_str());
    r.append("/");
    r.append(i.kernel_version.as_str());
    r.append("/");
    r.append(i.cpu_brand.as_str());
    r.append("/");
    r.append(decimal(boot_time).as_str());
    r
}

/// A host identifier, and whether it is new and to be saved.
#[derive(Debug)]
pub struct SysId {
    pub id: String,
    pub is_new: bool,
}

/// The identifier of the host: the saved one, where there is one that is not empty;
/// otherwise a digest of what tells the host from others, which is to be saved.
pub fn gen_sys_id(saved: Option<&str>, sys_info: &SysInfo, boot_time: u64) -> (r: SysId)
    ensures
        (match saved {
            Some(s) => s@.len() > 0 ==> r.id@ == trimmed(s@) && !r.is_new,
            None => true,
        }),
        saved is None || saved->0@.len() == 0 ==> r.is_new && r.id@ == hex_text(
            md5_digest(identity_text(sys_info@, boot_time)),
        ) && r.id@.len() == 32,
{
    match saved {
        Some(s) => {
            if !s.is_empty() {
                return SysId { id: trim(s), is_new: false };
            }
        },
        None => {},
    }
    let digest = md5_compute(identity(sys_info, boot_time).as_str());
    proof {
        lemma_hex_length(digest@);
    }
    SysId { id: to_hex(&digest), is_new: true }
}

/// Each byte takes two digits.
proof fn lemma_hex_length(s: Seq<u8>)
    ensures
        hex_text(s).len() == 2 * s.len(),
    decreases s.len(),
{
    if s.len() > 0 {
        lemma_hex_length(s.drop_last());
    }
}

/// An identifier made of a digest, once saved, is read back as it is.
pub proof fn law_saved_id_is_kept(digest: Seq<u8>)
    requires
        digest.len() > 0,
    ensures
        hex_text(digest).len() > 0,
        trimmed(hex_text(digest)) == hex_text(digest),
{
    lemma_hex_length(digest);
    lemma_hex_plain(digest);
    let id = hex_text(digest);
    assert(!is_space(id[0]));
    assert(!is_space(id[id.len() - 1]));
}

/// No hexadecimal digit is white space.
proof fn lemma_hex_plain(s: Seq<u8>)
    ensures
        forall|i: int| 0 <= i < hex_text(s).len() ==> !is_space(#[trigger] hex_text(s)[i]),
    decreases s.len(),
{
    if s.len() > 0 {
        lemma_hex_plain(s.drop_last());
        let b = s.last() as int;
        assert(!is_space(hex_digit(b / 16)));
        assert(!is_space(hex_digit(b % 16)));
        let front = hex_text(s.drop_last());
        let all = hex_text(s);
        assert(all =~= front + seq![hex_digit(b / 16), hex_digit(b % 16)]);
        assert forall|i: int| 0 <= i < all.len() implies !is_space(#[trigger] all[i]) by {
            if i < front.len() {
                assert(all[i] == front[i]);
            }
        }
    }
}

} // verus!
