use server_status::payload::{DiskInfo, HostStat, IpInfo, Metrics, Real, SysInfo};
use server_status::server::detail::{
    detail_reply, detail_row, disks_of, get_detail, rows_of_disks, table, SizeTexts,
};
use server_status::server::http::{Rendered, Reply};

fn texts(v: &[&str]) -> Vec<String> {
    v.iter().map(|s| s.to_string()).collect()
}

#[test]
fn table_is_drawn() {
    let t = table(&texts(&["a", "bb"]), &vec![texts(&["1", "2\n3"]), texts(&["", "x"])]).unwrap();
    assert_eq!(
        t,
        "+---+----+\n\
         | a | bb |\n\
         +===+====+\n\
         | 1 | 2  |\n\
         |   | 3  |\n\
         +---+----+\n\
         |   | x  |\n\
         +---+----+\n"
    );
}

#[test]
fn table_is_the_one_that_rows_add_up_to() {
    let mut t = prettytable::Table::new();
    let cells = |v: &[&str]| {
        prettytable::Row::new(v.iter().map(|s| prettytable::Cell::new(s)).collect())
    };
    t.set_titles(cells(&["名称", "x"]));
    t.add_row(cells(&["中", "\u{1b}[31mred\u{1b}[0m"]));
    t.add_row(cells(&["a\r\nb", ""]));
    let rows = vec![texts(&["中", "\u{1b}[31mred\u{1b}[0m"]), texts(&["a\r\nb", ""])];
    assert_eq!(table(&texts(&["名称", "x"]), &rows), Some(t.to_string()));
}

#[test]
fn cell_with_an_escape_sequence_is_printed() {
    for cell in [
        "\u{1b}[中m",
        "\u{1b}[1m节",
        "\u{1b}[31m节点\u{1b}[0m",
        "\u{1b}[é",
        "\u{1b}[m\n中",
        "\u{1b}中[",
        "\u{1b}[لا",
        "لا لا",
    ] {
        let mut t = prettytable::Table::new();
        t.set_titles(prettytable::Row::new(vec![prettytable::Cell::new("标题")]));
        t.add_row(prettytable::Row::new(vec![prettytable::Cell::new(cell)]));
        assert_eq!(table(&texts(&["标题"]), &vec![texts(&[cell])]), Some(t.to_string()));
    }
}

/// Two ligatures in an escape sequence: the line takes four columns, and five of its
/// characters are left out of the count.
const UNMEASURABLE: &str = "\u{1b}[\u{644}\u{627}\u{644}\u{627}";

#[test]
fn cell_that_cannot_be_measured_is_refused() {
    let titles = texts(&["a"]);
    assert!(table(&titles, &vec![texts(&[UNMEASURABLE])]).is_none());
    assert!(table(&texts(&[UNMEASURABLE]), &vec![]).is_none());
    let second = format!("x\n{UNMEASURABLE}");
    assert!(table(&titles, &vec![texts(&["x"]), texts(&[second.as_str()])]).is_none());
    let wide = format!("{UNMEASURABLE}m中");
    assert!(table(&titles, &vec![texts(&[wide.as_str()])]).is_some());
}

fn disk(name: &str, file_system: &str) -> DiskInfo {
    DiskInfo {
        name: name.to_string(),
        mount_point: "/m".to_string(),
        file_system: file_system.to_string(),
        total: 2,
        used: 1,
        free: 1,
    }
}

fn sizes() -> SizeTexts {
    SizeTexts {
        total: "2 T".to_string(),
        used: "1 T".to_string(),
        free: "1 T".to_string(),
        usage: "50".to_string(),
    }
}

#[test]
fn disks_are_listed_before_the_pools() {
    let disks = vec![disk("zpool-tank", "zfs"), disk("sda", "ext4"), disk("tank/a", "ZFS")];
    let rows = rows_of_disks(&disks, &vec![sizes(), sizes(), sizes()]);
    assert_eq!(
        rows,
        vec![
            texts(&["sda", "/m", "ext4", "2 T", "1 T", "1 T"]),
            texts(&["--- ZFS ---", "---", "---", "---", "---", "---"]),
            texts(&["tank", "/m", "ZFS", "2 T", "1 T (50%)", "1 T"]),
        ]
    );
    let rows = rows_of_disks(&vec![disk("sda", "ext4")], &vec![sizes()]);
    assert_eq!(rows.len(), 1);
    assert!(rows_of_disks(&vec![disk("tank/a", "zfs")], &vec![sizes()]).is_empty());
}

#[test]
fn disks_are_a_table() {
    assert_eq!(disks_of(&vec![], &vec![]), Some(String::new()));
    let t = disks_of(&vec![disk("sda", "ext4")], &vec![sizes()]).unwrap();
    assert_eq!(
        t,
        "+------+--------+------+--------+------+------+\n\
         | 名称 | 挂载点 | 类型 | 总容量 | 已用 | 可用 |\n\
         +======+========+======+========+======+======+\n\
         | sda  | /m     | ext4 | 2 T    | 1 T  | 1 T  |\n\
         +------+--------+------+--------+------+------+\n"
    );
    assert!(disks_of(&vec![disk("\u{1b}[1mä", "ext4")], &vec![sizes()]).is_some());
    assert!(disks_of(&vec![disk(UNMEASURABLE, "ext4")], &vec![sizes()]).is_none());
}

fn stat(name: &str) -> HostStat {
    let z = Real { bits: 0 };
    HostStat {
        name: name.to_string(),
        alias: "alias".to_string(),
        gid: String::new(),
        location: "de".to_string(),
        host_type: String::new(),
        labels: String::new(),
        version: String::new(),
        uptime_str: "1 天".to_string(),
        notify: true,
        vnstat: false,
        disabled: false,
        online4: true,
        online6: false,
        si: false,
        pos: 0,
        weight: 0,
        latest_ts: 0,
        uptime: 0,
        network_in: 0,
        network_out: 0,
        last_network_in: 0,
        last_network_out: 0,
        ip_info: None,
        sys_info: None,
        disks: Vec::new(),
        metrics: Metrics {
            load_1: z,
            load_5: z,
            load_15: z,
            cpu: z,
            memory_total: 0,
            memory_used: 0,
            swap_total: 0,
            swap_used: 0,
            hdd_total: 0,
            hdd_used: 0,
            network_rx: 0,
            network_tx: 0,
            tcp: 0,
            udp: 0,
            process: 0,
            thread: 0,
            ping_10010: z,
            ping_189: z,
            ping_10086: z,
            time_10010: z,
            time_189: z,
            time_10086: z,
        },
    }
}

#[test]
fn host_of_which_little_is_known() {
    assert_eq!(
        detail_row(0, &stat("h1"), String::new()),
        texts(&["0", "h1", "alias", "de", "1 天", "xx.xx.xx.xx", "", "\n", ""])
    );
}

#[test]
fn host_of_which_all_is_known() {
    let mut s = stat("h1");
    s.ip_info = Some(IpInfo {
        query: "1.2.3.4".to_string(),
        continent: " Europe".to_string(),
        country: String::new(),
        region_name: " \t".to_string(),
        city: "Berlin".to_string(),
        isp: "isp".to_string(),
        org: "org ".to_string(),
        asn: "AS1".to_string(),
        asname: String::new(),
    });
    s.sys_info = Some(SysInfo {
        name: "n".to_string(),
        version: "1.0".to_string(),
        os_name: "linux".to_string(),
        os_arch: "x86_64".to_string(),
        os_family: "unix".to_string(),
        os_release: "Debian".to_string(),
        kernel_version: "6.1".to_string(),
        cpu_num: 4,
        cpu_brand: "brand".to_string(),
        cpu_vender_id: "vendor".to_string(),
        host_name: "box".to_string(),
    });
    let row = detail_row(12, &s, "disks".to_string());
    assert_eq!(row[0], "12");
    assert_eq!(row[5], "1.2.3.4");
    assert_eq!(
        row[6],
        "version:        1.0\n\
         host_name:      box\n\
         os_name:        linux\n\
         os_arch:        x86_64\n\
         os_family:      unix\n\
         os_release:     Debian\n\
         kernel_version: 6.1\n\
         cpu_num:        4\n\
         cpu_brand:      brand\n\
         cpu_vender_id:  vendor"
    );
    assert_eq!(row[7], "Europe/Berlin\nisp\norg\nAS1");
    assert_eq!(row[8], "disks");
}

#[test]
fn page_shows_all_hosts() {
    let mut a = stat("h1");
    a.disks = vec![disk("sda", "ext4")];
    let t = get_detail(&vec![a, stat("h2")], &vec![vec![sizes()], vec![]]).unwrap();
    assert!(t.contains("| # | Id | 节点名 |"));
    assert!(t.contains("| 0 | h1 |"));
    assert!(t.contains("| 1 | h2 |"));
    assert!(t.contains("| sda  | /m     | ext4 | 2 T    | 1 T  | 1 T  |"));
    assert_eq!(t.lines().filter(|l| l.starts_with("+-")).count(), 3);
}

#[test]
fn page_that_cannot_be_measured_is_refused() {
    let mut a = stat("h1");
    a.alias = UNMEASURABLE.to_string();
    assert!(get_detail(&vec![a], &vec![vec![]]).is_none());
    let mut a = stat("h1");
    a.disks = vec![disk(UNMEASURABLE, "ext4")];
    assert!(get_detail(&vec![a], &vec![vec![sizes()]]).is_none());
    assert!(get_detail(&vec![], &vec![]).is_some());
}

#[test]
fn page_shows_a_host_with_an_escape_sequence() {
    let mut a = stat("h1");
    a.alias = "\u{1b}[1m节".to_string();
    a.disks = vec![disk("\u{1b}[31m盘\u{1b}[0m", "ext4")];
    let t = get_detail(&vec![a], &vec![vec![sizes()]]).unwrap();
    assert!(t.contains("\u{1b}[1m节"));
    assert!(t.contains("\u{1b}[31m盘\u{1b}[0m"));
}

#[test]
fn page_is_answered() {
    assert!(matches!(
        detail_reply(Rendered::Page("p".to_string())),
        Reply::Document { media_type: "text/html; charset=utf-8", body } if body == "p"
    ));
    for (rendered, text) in [
        (Rendered::NotReady, "StatsMgr not ready"),
        (Rendered::Failed, "Render error"),
        (Rendered::NoInfo, "Render error"),
        (Rendered::Broken, "Internal Server Error"),
    ] {
        assert!(matches!(
            detail_reply(rendered),
            Reply::Plain { status: 500, text: t } if t == text
        ));
    }
}
