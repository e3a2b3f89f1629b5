//! The page with all details of the hosts: a table with a row for each, in which the
//! disks are a table of their own.
use vstd::prelude::*;
use vstd::string::*;
use crate::decimal::{decimal, is_digit, lemma_numeral_writes, numeral};
use crate::payload::{
    DiskInfo, DiskInfoView, HostStat, HostStatView, IpInfo, IpInfoView, SysInfo, SysInfoView,
};
use crate::server::http::{is_document, is_plain, Rendered, Reply, HTML};
use crate::server::width::{
    ascii, ascii_line, is_measurable, lemma_ascii_lines, lemma_unescaped_lines, measurable,
    unescaped,
};
use crate::text::{
    begins_with, is_space, join, joined, lines, lines_of, lowercase, same_text,
    starts_with, strip_prefix_or_self, to_lower, trim, trimmed, views, without_prefix,
};

verus! {

// ---------------------------------------------------------------------------
// Tables
// ---------------------------------------------------------------------------

/// What a list of rows says.
pub open spec fn row_views(rows: Seq<Vec<String>>) -> Seq<Seq<Seq<char>>> {
    rows.map_values(|r: Vec<String>| views(r@))
}

/// The width of each line of a cell can be measured.
pub open spec fn printable(cell: Seq<char>) -> bool {
    forall|i: int| 0 <= i < lines_of(cell).len() ==> measurable(#[trigger] lines_of(cell)[i])
}

/// Every cell of the row can be printed.
pub open spec fn printable_row(row: Seq<Seq<char>>) -> bool {
    forall|i: int| 0 <= i < row.len() ==> printable(#[trigger] row[i])
}

/// Every cell of the rows can be printed.
pub open spec fn printable_rows(rows: Seq<Seq<Seq<char>>>) -> bool {
    forall|i: int| 0 <= i < rows.len() ==> printable_row(#[trigger] rows[i])
}

/// No cell of the row holds an escape character.
pub open spec fn unescaped_row(row: Seq<Seq<char>>) -> bool {
    forall|i: int| 0 <= i < row.len() ==> unescaped(#[trigger] row[i])
}

/// No cell of the rows holds an escape character.
pub open spec fn unescaped_rows(rows: Seq<Seq<Seq<char>>>) -> bool {
    forall|i: int| 0 <= i < rows.len() ==> unescaped_row(#[trigger] rows[i])
}

/// The cell is printed whatever Unicode's tables say: it holds no escape character, or
/// is in ASCII.
pub open spec fn plain(cell: Seq<char>) -> bool {
    ||| unescaped(cell)
    ||| forall|i: int| 0 <= i < cell.len() ==> ascii(#[trigger] cell[i])
}

/// Every cell of the row is plain.
pub open spec fn plain_row(row: Seq<Seq<char>>) -> bool {
    forall|i: int| 0 <= i < row.len() ==> plain(#[trigger] row[i])
}

/// Every cell of the rows is plain.
pub open spec fn plain_rows(rows: Seq<Seq<Seq<char>>>) -> bool {
    forall|i: int| 0 <= i < rows.len() ==> plain_row(#[trigger] rows[i])
}

/// The text of a table with the given titles and rows.
pub uninterp spec fn table_text(titles: Seq<Seq<char>>, rows: Seq<Seq<Seq<char>>>) -> Seq<char>;

/// `prettytable::Table`: the table made of the rows, by `Table::from`, with the titles,
/// by `Table::set_titles` and `Row::from`, as `to_string` prints it. The result depends
/// on the texts alone. How the table is drawn is left to the crate, but that it draws
/// with no escape character: there is none in the result where there is none in a cell.
///
/// The crate measures each line of a cell by `unicode-width`, and subtracts the
/// characters that stand in escape sequences; it does not return where that comes out
/// below zero, which it does for the lines that are not `measurable`.
#[verifier::external_body]
fn print_table(titles: &Vec<String>, rows: &Vec<Vec<String>>) -> (r: String)
    requires
        printable_row(views(titles@)),
        printable_rows(row_views(rows@)),
    ensures
        r@ == table_text(views(titles@), row_views(rows@)),
        unescaped_row(views(titles@)) && unescaped_rows(row_views(rows@)) ==> unescaped(r@),
{
    let mut table = prettytable::Table::from(rows);
    table.set_titles(prettytable::Row::from(titles));
    table.to_string()
}

/// Whether a cell can be printed.
fn is_printable(cell: &str) -> (r: bool)
    ensures
        r == printable(cell@),
        plain(cell@) ==> r,
{
    let v = lines(cell);
    let n: usize = v.len();
    let mut i: usize = 0;
    let ghost in_ascii = forall|k: int| 0 <= k < cell@.len() ==> ascii(#[trigger] cell@[k]);
    proof {
        if unescaped(cell@) {
            lemma_unescaped_lines(cell@);
        }
        if in_ascii {
            lemma_ascii_lines(cell@);
        }
    }
    while i < n
        invariant
            i <= n,
            n == v@.len(),
            views(v@) == lines_of(cell@),
            in_ascii ==> forall|k: int|
                0 <= k < lines_of(cell@).len() ==> ascii_line(#[trigger] lines_of(cell@)[k]),
            unescaped(cell@) ==> forall|k: int|
                0 <= k < lines_of(cell@).len() ==> measurable(#[trigger] lines_of(cell@)[k]),
            in_ascii == forall|k: int| 0 <= k < cell@.len() ==> ascii(#[trigger] cell@[k]),
            forall|k: int| 0 <= k < i ==> measurable(#[trigger] lines_of(cell@)[k]),
        decreases n - i,
    {
        assert(lines_of(cell@)[i as int] == v@[i as int]@);
        if !is_measurable(v[i].as_str()) {
            return false;
        }
        i = i + 1;
    }
    true
}

/// Whether every cell of a row can be printed.
fn is_printable_row(row: &Vec<String>) -> (r: bool)
    ensures
        r == printable_row(views(row@)),
        plain_row(views(row@)) ==> r,
{
    let n: usize = row.len();
    let mut i: usize = 0;
    while i < n
        invariant
            i <= n,
            n == row@.len(),
            forall|k: int| 0 <= k < i ==> printable(#[trigger] views(row@)[k]),
        decreases n - i,
    {
        assert(views(row@)[i as int] == row@[i as int]@);
        if !is_printable(row[i].as_str()) {
            return false;
        }
        i = i + 1;
    }
    true
}

/// Whether every cell of the rows can be printed.
fn are_printable(rows: &Vec<Vec<String>>) -> (r: bool)
    ensures
        r == printable_rows(row_views(rows@)),
        plain_rows(row_views(rows@)) ==> r,
{
    let n: usize = rows.len();
    let mut i: usize = 0;
    while i < n
        invariant
            i <= n,
            n == rows@.len(),
            forall|k: int| 0 <= k < i ==> printable_row(#[trigger] row_views(rows@)[k]),
        decreases n - i,
    {
        assert(row_views(rows@)[i as int] == views(rows@[i as int]@));
        if !is_printable_row(&rows[i]) {
            return false;
        }
        i = i + 1;
    }
    true
}

/// The text of a table with the given titles and rows; `None` where one of its cells
/// cannot be printed. Where all of them are plain, there is a text.
pub fn table(titles: &Vec<String>, rows: &Vec<Vec<String>>) -> (r: Option<String>)
    ensures
        (match r {
            Some(text) => text@ == table_text(views(titles@), row_views(rows@)),
            None => true,
        }),
        r is Some <==> printable_row(views(titles@)) && printable_rows(row_views(rows@)),
        plain_row(views(titles@)) && plain_rows(row_views(rows@)) ==> r is Some,
        unescaped_row(views(titles@)) && unescaped_rows(row_views(rows@)) ==> r is Some
            && unescaped(r->0@),
{
    proof {
        lemma_unescaped_row(views(titles@));
        assert forall|i: int|
            0 <= i < rows@.len() && unescaped_rows(row_views(rows@)) implies plain_row(
            #[trigger] row_views(rows@)[i],
        ) by {
            lemma_unescaped_row(row_views(rows@)[i]);
        }
    }
    if is_printable_row(titles) && are_printable(rows) {
        Some(print_table(titles, rows))
    } else {
        None
    }
}

/// A row without an escape character is plain.
proof fn lemma_unescaped_row(row: Seq<Seq<char>>)
    ensures
        unescaped_row(row) ==> plain_row(row),
{
}

// ---------------------------------------------------------------------------
// The disks of a host
// ---------------------------------------------------------------------------

/// How the sizes of a disk are written, and the part in use, in percent.
#[derive(Debug)]
pub struct SizeTexts {
    pub total: String,
    pub used: String,
    pub free: String,
    pub usage: String,
}

/// What a `SizeTexts` says.
#[verifier::ext_equal]
pub struct SizeTextsView {
    pub total: Seq<char>,
    pub used: Seq<char>,
    pub free: Seq<char>,
    pub usage: Seq<char>,
}

impl View for SizeTexts {
    type V = SizeTextsView;

    open spec fn view(&self) -> SizeTextsView {
        SizeTextsView {
            total: self.total@,
            used: self.used@,
            free: self.free@,
            usage: self.usage@,
        }
    }
}

/// The titles of the table of disks.
pub const DISK_TITLES: [&'static str; 6] = [
    "名称",
    "挂载点",
    "类型",
    "总容量",
    "已用",
    "可用",
];

/// The row between the disks and the storage pools.
pub const POOL_DIVIDER: [&'static str; 6] = ["--- ZFS ---", "---", "---", "---", "---", "---"];

/// What a list of literals says.
pub open spec fn literal_views(v: Seq<&'static str>) -> Seq<Seq<char>> {
    v.map_values(|s: &'static str| s@)
}

/// The disk is a storage pool.
pub open spec fn is_pool(d: DiskInfoView) -> bool {
    begins_with(d.name, "zpool-"@)
}

/// The disk is listed among the disks: it is neither a storage pool nor a part of one.
pub open spec fn is_listed(d: DiskInfoView) -> bool {
    lowercase(d.file_system) != "zfs"@ && !is_pool(d)
}

/// The row of a disk.
pub open spec fn disk_row(d: DiskInfoView, t: SizeTextsView) -> Seq<Seq<char>> {
    seq![d.name, d.mount_point, d.file_system, t.total, t.used, t.free]
}

/// The row of a storage pool.
pub open spec fn pool_row(d: DiskInfoView, t: SizeTextsView) -> Seq<Seq<char>> {
    seq![
        without_prefix(d.name, "zpool-"@),
        d.mount_point,
        "ZFS"@,
        t.total,
        t.used + " ("@ + t.usage + "%)"@,
        t.free,
    ]
}

/// The rows of the listed disks among the first `n`.
pub open spec fn listed_rows(s: Seq<DiskInfoView>, t: Seq<SizeTexts>, n: int) -> Seq<
    Seq<Seq<char>>,
>
    decreases n,
{
    if n <= 0 {
        Seq::empty()
    } else {
        let front = listed_rows(s, t, n - 1);
        if is_listed(s[n - 1]) {
            front.push(disk_row(s[n - 1], t[n - 1]@))
        } else {
            front
        }
    }
}

/// The rows of the storage pools among the first `n` disks.
pub open spec fn pool_rows(s: Seq<DiskInfoView>, t: Seq<SizeTexts>, n: int) -> Seq<Seq<Seq<char>>>
    decreases n,
{
    if n <= 0 {
        Seq::empty()
    } else {
        let front = pool_rows(s, t, n - 1);
        if is_pool(s[n - 1]) {
            front.push(pool_row(s[n - 1], t[n - 1]@))
        } else {
            front
        }
    }
}

/// The rows of a host's disks: the disks, then the storage pools behind a divider.
pub open spec fn disk_table_rows(s: Seq<DiskInfoView>, t: Seq<SizeTexts>) -> Seq<Seq<Seq<char>>> {
    let n = s.len() as int;
    let pools = pool_rows(s, t, n);
    if pools.len() == 0 {
        listed_rows(s, t, n)
    } else {
        listed_rows(s, t, n).push(literal_views(POOL_DIVIDER@)) + pools
    }
}

/// The text of a host's disks: nothing where there are none.
pub open spec fn disks_text(s: Seq<DiskInfoView>, t: Seq<SizeTexts>) -> Seq<char> {
    if s.len() == 0 {
        Seq::empty()
    } else {
        table_text(literal_views(DISK_TITLES@), disk_table_rows(s, t))
    }
}

/// The literals of a list as texts of their own.
fn literals(v: &[&'static str]) -> (r: Vec<String>)
    ensures
        views(r@) == literal_views(v@),
{
    let n: usize = v.len();
    let mut r: Vec<String> = Vec::new();
    let mut i: usize = 0;
    while i < n
        invariant
            i <= n,
            n == v@.len(),
            views(r@) == literal_views(v@).take(i as int),
        decreases n - i,
    {
        let ghost q = r@;
        let s = v[i].to_owned();
        r.push(s);
        proof {
            assert(views(r@) =~= views(q).push(s@));
            assert(literal_views(v@).take(i + 1) =~= literal_views(v@).take(i as int).push(s@));
        }
        i = i + 1;
    }
    assert(literal_views(v@).take(n as int) =~= literal_views(v@));
    r
}

/// The row of a disk.
fn row_of_disk(d: &DiskInfo, t: &SizeTexts) -> (r: Vec<String>)
    ensures
        views(r@) == disk_row(d@, t@),
{
    let r = vec![
        d.name.clone(),
        d.mount_point.clone(),
        d.file_system.clone(),
        t.total.clone(),
        t.used.clone(),
        t.free.clone(),
    ];
    assert(views(r@) =~= disk_row(d@, t@));
    r
}

/// The row of a storage pool.
fn row_of_pool(d: &DiskInfo, t: &SizeTexts) -> (r: Vec<String>)
    ensures
        views(r@) == pool_row(d@, t@),
{
    let mut used = t.used.clone();
    used.append(" (");
    used.append(t.usage.as_str());
    used.append("%)");
    let r = vec![
        strip_prefix_or_self(d.name.as_str(), "zpool-"),
        d.mount_point.clone(),
        "ZFS".to_owned(),
        t.total.clone(),
        used,
        t.free.clone(),
    ];
    assert(views(r@) =~= pool_row(d@, t@));
    r
}

/// The rows of a host's disks.
pub fn rows_of_disks(disks: &Vec<DiskInfo>, texts: &Vec<SizeTexts>) -> (r: Vec<Vec<String>>)
    requires
        texts@.len() == disks@.len(),
    ensures
        row_views(r@) == disk_table_rows(crate::payload::disk_views(disks@), texts@),
{
    let ghost s = crate::payload::disk_views(disks@);
    let n: usize = disks.len();
    let mut r: Vec<Vec<String>> = Vec::new();
    let mut pools: Vec<Vec<String>> = Vec::new();
    let mut i: usize = 0;
    proof {
        assert(row_views(r@) =~= listed_rows(s, texts@, 0));
        assert(row_views(pools@) =~= pool_rows(s, texts@, 0));
    }
    while i < n
        invariant
            i <= n,
            n == disks@.len(),
            n == texts@.len(),
            s == crate::payload::disk_views(disks@),
            row_views(r@) == listed_rows(s, texts@, i as int),
            row_views(pools@) == pool_rows(s, texts@, i as int),
        decreases n - i,
    {
        let d = &disks[i];
        let t = &texts[i];
        let ghost q = r@;
        let ghost qp = pools@;
        assert(s[i as int] == d@);
        let pool: bool = starts_with(d.name.as_str(), "zpool-");
        if pool {
            let row = row_of_pool(d, t);
            pools.push(row);
            assert(row_views(pools@) =~= row_views(qp).push(views(row@)));
        } else {
            let fs = to_lower(d.file_system.as_str());
            if !same_text(fs.as_str(), "zfs") {
                let row = row_of_disk(d, t);
                r.push(row);
                assert(row_views(r@) =~= row_views(q).push(views(row@)));
            }
        }
        i = i + 1;
    }
    if pools.len() > 0 {
        let ghost q = r@;
        let divider = literals(&POOL_DIVIDER);
        r.push(divider);
        proof {
            assert(row_views(r@) =~= row_views(q).push(literal_views(POOL_DIVIDER@)));
            assert(row_views(pools@).len() == pools@.len());
        }
        let ghost q = r@;
        let ghost qp = pools@;
        r.append(&mut pools);
        assert(row_views(r@) =~= row_views(q) + row_views(qp));
    } else {
        assert(row_views(pools@).len() == 0);
    }
    r
}

/// The text of a host's disks; `None` where one of the cells cannot be printed. Where
/// none holds an escape character, there is a text.
pub fn disks_of(disks: &Vec<DiskInfo>, texts: &Vec<SizeTexts>) -> (r: Option<String>)
    requires
        texts@.len() == disks@.len(),
    ensures
        ({
            let s = crate::payload::disk_views(disks@);
            &&& r is Some <==> s.len() == 0 || printable_rows(disk_table_rows(s, texts@))
            &&& r is Some ==> r->0@ == disks_text(s, texts@)
            &&& unescaped_disks(s, texts@) ==> r is Some && unescaped(r->0@)
        }),
{
    if disks.len() == 0 {
        return Some(String::new());
    }
    let titles = literals(&DISK_TITLES);
    let rows = rows_of_disks(disks, texts);
    proof {
        let s = crate::payload::disk_views(disks@);
        lemma_disk_titles();
        if unescaped_disks(s, texts@) {
            lemma_unescaped_disk_table(s, texts@);
        }
    }
    table(&titles, &rows)
}

// ---------------------------------------------------------------------------
// The hosts
// ---------------------------------------------------------------------------

/// The titles of the table of hosts.
pub const DETAIL_TITLES: [&'static str; 9] = [
    "#",
    "Id",
    "节点名",
    "位置",
    "在线时间",
    "IP",
    "系统信息",
    "IP信息",
    "存储信息",
];

/// The text on a host's system.
pub open spec fn sys_text(o: SysInfoView) -> Seq<char> {
    "version:        "@ + o.version + "\nhost_name:      "@ + o.host_name
        + "\nos_name:        "@ + o.os_name + "\nos_arch:        "@ + o.os_arch
        + "\nos_family:      "@ + o.os_family + "\nos_release:     "@ + o.os_release
        + "\nkernel_version: "@ + o.kernel_version + "\ncpu_num:        "@ + numeral(
        o.cpu_num as nat,
    ) + "\ncpu_brand:      "@ + o.cpu_brand + "\ncpu_vender_id:  "@ + o.cpu_vender_id
}

/// The texts without white space around them, and without those that are empty then.
pub open spec fn present(s: Seq<Seq<char>>) -> Seq<Seq<char>>
    decreases s.len(),
{
    if s.len() == 0 {
        Seq::empty()
    } else {
        let front = present(s.drop_last());
        let t = trimmed(s.last());
        if t.len() > 0 {
            front.push(t)
        } else {
            front
        }
    }
}

/// Where the address of a host is.
pub open spec fn place_text(i: IpInfoView) -> Seq<char> {
    joined(present(seq![i.continent, i.country, i.region_name, i.city]), "/"@)
}

/// Who the address of a host belongs to.
pub open spec fn owner_text(i: IpInfoView) -> Seq<char> {
    joined(present(seq![i.isp, i.org, i.asn, i.asname]), "\n"@)
}

/// The row of a host, whose disks are written as `disks`.
pub open spec fn host_row(idx: nat, h: HostStatView, disks: Seq<char>) -> Seq<Seq<char>> {
    seq![
        numeral(idx),
        h.name,
        h.alias,
        h.location,
        h.uptime_str,
        match h.ip_info {
            Some(i) => i.query,
            None => "xx.xx.xx.xx"@,
        },
        match h.sys_info {
            Some(o) => sys_text(o),
            None => Seq::empty(),
        },
        match h.ip_info {
            Some(i) => place_text(i) + "\n"@ + owner_text(i),
            None => "\n"@,
        },
        disks,
    ]
}

/// The rows of the hosts.
pub open spec fn detail_rows(s: Seq<HostStatView>, t: Seq<Vec<SizeTexts>>) -> Seq<Seq<Seq<char>>> {
    Seq::new(s.len(), |i: int| host_row(i as nat, s[i], disks_text(s[i].disks, t[i]@)))
}

/// Every cell of the page, and of each table in it, can be printed.
pub open spec fn printable_page(s: Seq<HostStatView>, t: Seq<Vec<SizeTexts>>) -> bool {
    &&& forall|i: int|
        0 <= i < s.len() ==> #[trigger] printable_disks(s[i].disks, t[i]@)
    &&& printable_rows(detail_rows(s, t))
}

/// Every cell of the table of disks can be printed, where there is one.
pub open spec fn printable_disks(s: Seq<DiskInfoView>, t: Seq<SizeTexts>) -> bool {
    s.len() == 0 || printable_rows(disk_table_rows(s, t))
}

/// There are texts for each disk of each host.
pub open spec fn texts_fit(s: Seq<HostStatView>, t: Seq<Vec<SizeTexts>>) -> bool {
    &&& t.len() == s.len()
    &&& forall|i: int| 0 <= i < s.len() ==> (#[trigger] t[i])@.len() == s[i].disks.len()
}

/// The disk and the texts for its sizes hold no escape character.
pub open spec fn unescaped_disk(d: DiskInfoView, t: SizeTextsView) -> bool {
    &&& unescaped(d.name) && unescaped(d.mount_point) && unescaped(d.file_system)
    &&& unescaped(t.total) && unescaped(t.used) && unescaped(t.free) && unescaped(t.usage)
}

/// The disks and the texts for their sizes hold no escape character.
pub open spec fn unescaped_disks(s: Seq<DiskInfoView>, t: Seq<SizeTexts>) -> bool {
    forall|i: int| 0 <= i < s.len() ==> unescaped_disk(#[trigger] s[i], t[i]@)
}

/// What is shown of a host's system holds no escape character.
pub open spec fn unescaped_sys(o: SysInfoView) -> bool {
    &&& unescaped(o.version) && unescaped(o.host_name) && unescaped(o.os_name)
    &&& unescaped(o.os_arch) && unescaped(o.os_family) && unescaped(o.os_release)
    &&& unescaped(o.kernel_version) && unescaped(o.cpu_brand) && unescaped(o.cpu_vender_id)
}

/// What is known of a host's address holds no escape character.
pub open spec fn unescaped_ip(i: IpInfoView) -> bool {
    &&& unescaped(i.query)
    &&& unescaped(i.continent) && unescaped(i.country) && unescaped(i.region_name)
    &&& unescaped(i.city)
    &&& unescaped(i.isp) && unescaped(i.org) && unescaped(i.asn) && unescaped(i.asname)
}

/// What is shown of a host, but for its disks, holds no escape character.
pub open spec fn unescaped_host(h: HostStatView) -> bool {
    &&& unescaped(h.name) && unescaped(h.alias) && unescaped(h.location)
    &&& unescaped(h.uptime_str)
    &&& h.ip_info matches Some(i) ==> unescaped_ip(i)
    &&& h.sys_info matches Some(o) ==> unescaped_sys(o)
}

/// Nothing that is shown of the hosts holds an escape character.
pub open spec fn unescaped_page(s: Seq<HostStatView>, t: Seq<Vec<SizeTexts>>) -> bool {
    forall|i: int|
        0 <= i < s.len() ==> unescaped_host(#[trigger] s[i]) && unescaped_disks(
            s[i].disks,
            t[i]@,
        )
}

/// A row without an escape character can be printed.
proof fn lemma_printable_row(row: Seq<Seq<char>>)
    requires
        unescaped_row(row),
    ensures
        printable_row(row),
{
    assert forall|i: int| 0 <= i < row.len() implies printable(#[trigger] row[i]) by {
        lemma_unescaped_lines(row[i]);
    }
}

/// The titles of the table of disks hold no escape character.
proof fn lemma_disk_titles()
    ensures
        unescaped_row(literal_views(DISK_TITLES@)),
        printable_row(literal_views(DISK_TITLES@)),
{
    reveal_strlit("名称");
    reveal_strlit("挂载点");
    reveal_strlit("类型");
    reveal_strlit("总容量");
    reveal_strlit("已用");
    reveal_strlit("可用");
    lemma_printable_row(literal_views(DISK_TITLES@));
}

/// The titles of the table of hosts hold no escape character.
proof fn lemma_detail_titles()
    ensures
        unescaped_row(literal_views(DETAIL_TITLES@)),
        printable_row(literal_views(DETAIL_TITLES@)),
{
    reveal_strlit("#");
    reveal_strlit("Id");
    reveal_strlit("节点名");
    reveal_strlit("位置");
    reveal_strlit("在线时间");
    reveal_strlit("IP");
    reveal_strlit("系统信息");
    reveal_strlit("IP信息");
    reveal_strlit("存储信息");
    lemma_printable_row(literal_views(DETAIL_TITLES@));
}

/// The rows of disks without an escape character hold none.
proof fn lemma_unescaped_disk_rows(s: Seq<DiskInfoView>, t: Seq<SizeTexts>, n: int)
    requires
        unescaped_disks(s, t),
        n <= s.len(),
    ensures
        unescaped_rows(listed_rows(s, t, n)),
        unescaped_rows(pool_rows(s, t, n)),
    decreases n,
{
    if n > 0 {
        lemma_unescaped_disk_rows(s, t, n - 1);
        let d = s[n - 1];
        let x = t[n - 1]@;
        assert(unescaped_disk(d, x));
        assert(unescaped_row(disk_row(d, x)));
        reveal_strlit("zpool-");
        reveal_strlit("ZFS");
        reveal_strlit(" (");
        reveal_strlit("%)");
        assert(unescaped(without_prefix(d.name, "zpool-"@)));
        assert(unescaped(x.used + " ("@ + x.usage + "%)"@));
        assert(unescaped_row(pool_row(d, x)));
    }
}

/// The table of disks without an escape character holds none.
proof fn lemma_unescaped_disk_table(s: Seq<DiskInfoView>, t: Seq<SizeTexts>)
    requires
        unescaped_disks(s, t),
    ensures
        unescaped_rows(disk_table_rows(s, t)),
{
    lemma_unescaped_disk_rows(s, t, s.len() as int);
    reveal_strlit("--- ZFS ---");
    reveal_strlit("---");
    assert(unescaped_row(literal_views(POOL_DIVIDER@)));
}

/// What is left of a text without white space around it holds no new character.
proof fn lemma_unescaped_trimmed(s: Seq<char>)
    requires
        unescaped(s),
    ensures
        unescaped(trimmed(s)),
    decreases s.len(),
{
    if s.len() > 0 {
        assert(unescaped(s.drop_first()));
        assert(unescaped(s.drop_last()));
        if is_space(s[0]) {
            lemma_unescaped_trimmed(s.drop_first());
        } else if is_space(s.last()) {
            lemma_unescaped_trimmed(s.drop_last());
        }
    }
}

/// The texts that are present hold no new character.
proof fn lemma_unescaped_present(s: Seq<Seq<char>>)
    requires
        unescaped_row(s),
    ensures
        unescaped_row(present(s)),
    decreases s.len(),
{
    if s.len() > 0 {
        assert(unescaped_row(s.drop_last()));
        assert(unescaped(s[s.len() - 1]));
        lemma_unescaped_present(s.drop_last());
        lemma_unescaped_trimmed(s.last());
    }
}

/// Texts without an escape character joined by another hold none.
proof fn lemma_unescaped_joined(s: Seq<Seq<char>>, sep: Seq<char>)
    requires
        unescaped_row(s),
        unescaped(sep),
    ensures
        unescaped(joined(s, sep)),
    decreases s.len(),
{
    if s.len() == 1 {
        assert(unescaped(s[0]));
    } else if s.len() > 1 {
        assert(unescaped_row(s.drop_last()));
        assert(unescaped(s[s.len() - 1]));
        lemma_unescaped_joined(s.drop_last(), sep);
    }
}

/// A numeral holds no escape character.
proof fn lemma_unescaped_numeral(n: nat)
    ensures
        unescaped(numeral(n)),
{
    lemma_numeral_writes(n);
    assert forall|i: int| 0 <= i < numeral(n).len() implies #[trigger] numeral(n)[i]
        != '\u{1b}' by {
        assert(is_digit(numeral(n)[i]));
    }
}

/// The text on a system without an escape character holds none.
proof fn lemma_unescaped_sys(o: SysInfoView)
    requires
        unescaped_sys(o),
    ensures
        unescaped(sys_text(o)),
{
    reveal_strlit("version:        ");
    reveal_strlit("\nhost_name:      ");
    reveal_strlit("\nos_name:        ");
    reveal_strlit("\nos_arch:        ");
    reveal_strlit("\nos_family:      ");
    reveal_strlit("\nos_release:     ");
    reveal_strlit("\nkernel_version: ");
    reveal_strlit("\ncpu_num:        ");
    reveal_strlit("\ncpu_brand:      ");
    reveal_strlit("\ncpu_vender_id:  ");
    lemma_unescaped_numeral(o.cpu_num as nat);
}

/// The texts on an address without an escape character hold none.
proof fn lemma_unescaped_ip(i: IpInfoView)
    requires
        unescaped_ip(i),
    ensures
        unescaped(place_text(i)),
        unescaped(owner_text(i)),
{
    reveal_strlit("/");
    reveal_strlit("\n");
    let place = seq![i.continent, i.country, i.region_name, i.city];
    let owner = seq![i.isp, i.org, i.asn, i.asname];
    lemma_unescaped_present(place);
    lemma_unescaped_present(owner);
    lemma_unescaped_joined(present(place), "/"@);
    lemma_unescaped_joined(present(owner), "\n"@);
}

/// The row of a host without an escape character holds none.
proof fn lemma_unescaped_host_row(idx: nat, h: HostStatView, disks: Seq<char>)
    requires
        unescaped_host(h),
        unescaped(disks),
    ensures
        unescaped_row(host_row(idx, h, disks)),
{
    reveal_strlit("xx.xx.xx.xx");
    reveal_strlit("\n");
    lemma_unescaped_numeral(idx);
    match h.sys_info {
        Some(o) => {
            lemma_unescaped_sys(o);
        },
        None => {},
    }
    match h.ip_info {
        Some(i) => {
            lemma_unescaped_ip(i);
            assert(unescaped(place_text(i) + "\n"@ + owner_text(i)));
        },
        None => {},
    }
}

/// The text on a host's system.
fn describe_sys(o: &SysInfo) -> (r: String)
    ensures
        r@ == sys_text(o@),
{
    let mut r = "version:        ".to_owned();
    r.append(o.version.as_str());
    r.append("\nhost_name:      ");
    r.append(o.host_name.as_str());
    r.append("\nos_name:        ");
    r.append(o.os_name.as_str());
    r.append("\nos_arch:        ");
    r.append(o.os_arch.as_str());
    r.append("\nos_family:      ");
    r.append(o.os_family.as_str());
    r.append("\nos_release:     ");
    r.append(o.os_release.as_str());
    r.append("\nkernel_version: ");
    r.append(o.kernel_version.as_str());
    r.append("\ncpu_num:        ");
    r.append(decimal(o.cpu_num as u64).as_str());
    r.append("\ncpu_brand:      ");
    r.append(o.cpu_brand.as_str());
    r.append("\ncpu_vender_id:  ");
    r.append(o.cpu_vender_id.as_str());
    r
}

/// The texts without white space around them, those that are not empty then.
fn present_of(parts: &Vec<String>) -> (r: Vec<String>)
    ensures
        views(r@) == present(views(parts@)),
{
    let n: usize = parts.len();
    let mut r: Vec<String> = Vec::new();
    let mut i: usize = 0;
    assert(views(r@) =~= present(views(parts@).take(0)));
    while i < n
        invariant
            i <= n,
            n == parts@.len(),
            views(r@) == present(views(parts@).take(i as int)),
        decreases n - i,
    {
        let ghost q = r@;
        proof {
            let v = views(parts@);
            assert(v.take(i + 1).drop_last() =~= v.take(i as int));
            assert(v.take(i + 1).last() == parts@[i as int]@);
        }
        let t = trim(parts[i].as_str());
        if !t.as_str().is_empty() {
            r.push(t);
            assert(views(r@) =~= views(q).push(t@));
        }
        i = i + 1;
    }
    assert(views(parts@).take(n as int) =~= views(parts@));
    r
}

/// Where the address of a host is.
fn describe_place(i: &IpInfo) -> (r: String)
    ensures
        r@ == place_text(i@),
{
    let parts = vec![
        i.continent.clone(),
        i.country.clone(),
        i.region_name.clone(),
        i.city.clone(),
    ];
    assert(views(parts@) =~= seq![i@.continent, i@.country, i@.region_name, i@.city]);
    let v = present_of(&parts);
    join(&v, "/")
}

/// Who the address of a host belongs to.
fn describe_owner(i: &IpInfo) -> (r: String)
    ensures
        r@ == owner_text(i@),
{
    let parts = vec![i.isp.clone(), i.org.clone(), i.asn.clone(), i.asname.clone()];
    assert(views(parts@) =~= seq![i@.isp, i@.org, i@.asn, i@.asname]);
    let v = present_of(&parts);
    join(&v, "\n")
}

/// The row of a host, whose disks are written as `disks`.
pub fn detail_row(idx: usize, h: &HostStat, disks: String) -> (r: Vec<String>)
    ensures
        views(r@) == host_row(idx as nat, h@, disks@),
{
    let sys = match &h.sys_info {
        Some(o) => describe_sys(o),
        None => String::new(),
    };
    let mut address = String::new();
    let query = match &h.ip_info {
        Some(i) => {
            address = describe_place(i);
            address.append("\n");
            address.append(describe_owner(i).as_str());
            i.query.clone()
        },
        None => {
            address.append("\n");
            assert(address@ =~= "\n"@);
            "xx.xx.xx.xx".to_owned()
        },
    };
    let r = vec![
        decimal(idx as u64),
        h.name.clone(),
        h.alias.clone(),
        h.location.clone(),
        h.uptime_str.clone(),
        query,
        sys,
        address,
        disks,
    ];
    assert(views(r@) =~= host_row(idx as nat, h@, disks@));
    r
}

/// The table with all details of the hosts, the sizes of whose disks are written as
/// `texts`; `None` where one of the cells, of it or of a table in it, cannot be printed.
/// Where none holds an escape character, there is a table.
pub fn get_detail(servers: &Vec<HostStat>, texts: &Vec<Vec<SizeTexts>>) -> (r: Option<String>)
    requires
        texts_fit(crate::payload::stat_views(servers@), texts@),
    ensures
        ({
            let s = crate::payload::stat_views(servers@);
            &&& r is Some <==> printable_page(s, texts@)
            &&& r is Some ==> r->0@ == table_text(
                literal_views(DETAIL_TITLES@),
                detail_rows(s, texts@),
            )
            &&& unescaped_page(s, texts@) ==> r is Some
        }),
{
    let ghost s = crate::payload::stat_views(servers@);
    let ghost all = detail_rows(s, texts@);
    let n: usize = servers.len();
    let mut rows: Vec<Vec<String>> = Vec::new();
    let mut i: usize = 0;
    assert(row_views(rows@) =~= all.take(0));
    while i < n
        invariant
            i <= n,
            n == servers@.len(),
            s == crate::payload::stat_views(servers@),
            all == detail_rows(s, texts@),
            texts_fit(s, texts@),
            row_views(rows@) == all.take(i as int),
            forall|k: int| 0 <= k < i ==> #[trigger] printable_disks(s[k].disks, texts@[k]@),
            unescaped_page(s, texts@) ==> unescaped_rows(all.take(i as int)),
        decreases n - i,
    {
        let ghost q = rows@;
        assert(s[i as int] == servers@[i as int]@);
        assert(texts@[i as int]@.len() == s[i as int].disks.len());
        match disks_of(&servers[i].disks, &texts[i]) {
            Some(disks) => {
                assert(printable_disks(s[i as int].disks, texts@[i as int]@));
                let row = detail_row(i, &servers[i], disks);
                rows.push(row);
                proof {
                    assert(row_views(rows@) =~= row_views(q).push(views(row@)));
                    assert(all[i as int] == views(row@));
                    assert(all.take(i + 1) =~= all.take(i as int).push(all[i as int]));
                    if unescaped_page(s, texts@) {
                        assert(unescaped_host(s[i as int]));
                        lemma_unescaped_host_row(i as nat, s[i as int], disks@);
                    }
                }
            },
            None => {
                assert(!printable_disks(s[i as int].disks, texts@[i as int]@));
                return None;
            },
        }
        i = i + 1;
    }
    proof {
        assert(all.take(n as int) =~= all);
        lemma_detail_titles();
    }
    let titles = literals(&DETAIL_TITLES);
    table(&titles, &rows)
}

/// The answer to a request for the page with all details.
pub fn detail_reply(rendered: Rendered) -> (r: Reply)
    ensures
        (match rendered {
            Rendered::NotReady => is_plain(r, 500, "StatsMgr not ready"@),
            Rendered::NoInfo => is_plain(r, 500, "Render error"@),
            Rendered::Page(text) => is_document(r, HTML@, text@),
            Rendered::Failed => is_plain(r, 500, "Render error"@),
            Rendered::Broken => is_plain(r, 500, "Internal Server Error"@),
        }),
{
    match rendered {
        Rendered::NotReady => Reply::Plain { status: 500, text: "StatsMgr not ready" },
        Rendered::NoInfo => Reply::Plain { status: 500, text: "Render error" },
        Rendered::Page(text) => Reply::Document { media_type: HTML, body: text },
        Rendered::Failed => Reply::Plain { status: 500, text: "Render error" },
        Rendered::Broken => Reply::Plain { status: 500, text: "Internal Server Error" },
    }
}

} // verus!
