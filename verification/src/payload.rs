//! What the hosts report and what the server knows of them.
use vstd::prelude::*;

verus! {

/// A double-precision number that is carried along unread, as its bit pattern.
#[derive(Clone, Copy, Debug, PartialEq, Eq)]
pub struct Real {
    pub bits: u64,
}

/// A mounted disk or a storage pool.
#[derive(Debug)]
pub struct DiskInfo {
    pub name: String,
    pub mount_point: String,
    pub file_system: String,
    pub total: u64,
    pub used: u64,
    pub free: u64,
}

/// What a `DiskInfo` says.
#[verifier::ext_equal]
pub struct DiskInfoView {
    pub name: Seq<char>,
    pub mount_point: Seq<char>,
    pub file_system: Seq<char>,
    pub total: u64,
    pub used: u64,
    pub free: u64,
}

impl View for DiskInfo {
    type V = DiskInfoView;

    open spec fn view(&self) -> DiskInfoView {
        DiskInfoView {
            name: self.name@,
            mount_point: self.mount_point@,
            file_system: self.file_system@,
            total: self.total,
            used: self.used,
            free: self.free,
        }
    }
}

impl Clone for DiskInfo {
    fn clone(&self) -> (r: Self)
        ensures
            r == *self,
    {
        DiskInfo {
            name: self.name.clone(),
            mount_point: self.mount_point.clone(),
            file_system: self.file_system.clone(),
            total: self.total,
            used: self.used,
            free: self.free,
        }
    }
}

/// What a list of disks says.
pub open spec fn disk_views(v: Seq<DiskInfo>) -> Seq<DiskInfoView> {
    v.map_values(|d: DiskInfo| d@)
}

/// The system that a host runs.
#[derive(Debug)]
pub struct SysInfo {
    pub name: String,
    pub version: String,
    pub os_name: String,
    pub os_arch: String,
    pub os_family: String,
    pub os_release: String,
    pub kernel_version: String,
    pub cpu_num: u32,
    pub cpu_brand: String,
    pub cpu_vender_id: String,
    pub host_name: String,
}

/// What a `SysInfo` says.
#[verifier::ext_equal]
pub struct SysInfoView {
    pub name: Seq<char>,
    pub version: Seq<char>,
    pub os_name: Seq<char>,
    pub os_arch: Seq<char>,
    pub os_family: Seq<char>,
    pub os_release: Seq<char>,
    pub kernel_version: Seq<char>,
    pub cpu_num: u32,
    pub cpu_brand: Seq<char>,
    pub cpu_vender_id: Seq<char>,
    pub host_name: Seq<char>,
}

impl View for SysInfo {
    type V = SysInfoView;

    open spec fn view(&self) -> SysInfoView {
        SysInfoView {
            name: self.name@,
            version: self.version@,
            os_name: self.os_name@,
            os_arch: self.os_arch@,
            os_family: self.os_family@,
            os_release: self.os_release@,
            kernel_version: self.kernel_version@,
            cpu_num: self.cpu_num,
            cpu_brand: self.cpu_brand@,
            cpu_vender_id: self.cpu_vender_id@,
            host_name: self.host_name@,
        }
    }
}

impl Clone for SysInfo {
    fn clone(&self) -> (r: Self)
        ensures
            r == *self,
    {
        SysInfo {
            name: self.name.clone(),
            version: self.version.clone(),
            os_name: self.os_name.clone(),
            os_arch: self.os_arch.clone(),
            os_family: self.os_family.clone(),
            os_release: self.os_release.clone(),
            kernel_version: self.kernel_version.clone(),
            cpu_num: self.cpu_num,
            cpu_brand: self.cpu_brand.clone(),
            cpu_vender_id: self.cpu_vender_id.clone(),
            host_name: self.host_name.clone(),
        }
    }
}

/// Where a host's address lies and who provides it; `asn` is its autonomous
/// system.
#[derive(Debug)]
pub struct IpInfo {
    pub query: String,
    pub continent: String,
    pub country: String,
    pub region_name: String,
    pub city: String,
    pub isp: String,
    pub org: String,
    pub asn: String,
    pub asname: String,
}

/// What an `IpInfo` says.
#[verifier::ext_equal]
pub struct IpInfoView {
    pub query: Seq<char>,
    pub continent: Seq<char>,
    pub country: Seq<char>,
    pub region_name: Seq<char>,
    pub city: Seq<char>,
    pub isp: Seq<char>,
    pub org: Seq<char>,
    pub asn: Seq<char>,
    pub asname: Seq<char>,
}

impl View for IpInfo {
    type V = IpInfoView;

    open spec fn view(&self) -> IpInfoView {
        IpInfoView {
            query: self.query@,
            continent: self.continent@,
            country: self.country@,
            region_name: self.region_name@,
            city: self.city@,
            isp: self.isp@,
            org: self.org@,
            asn: self.asn@,
            asname: self.asname@,
        }
    }
}

impl Clone for IpInfo {
    fn clone(&self) -> (r: Self)
        ensures
            r == *self,
    {
        IpInfo {
            query: self.query.clone(),
            continent: self.continent.clone(),
            country: self.country.clone(),
            region_name: self.region_name.clone(),
            city: self.city.clone(),
            isp: self.isp.clone(),
            org: self.org.clone(),
            asn: self.asn.clone(),
            asname: self.asname.clone(),
        }
    }
}

/// The readings of a host that the server passes on as they come.
#[derive(Clone, Copy, Debug, PartialEq, Eq)]
pub struct Metrics {
    pub load_1: Real,
    pub load_5: Real,
    pub load_15: Real,
    pub cpu: Real,
    pub memory_total: u64,
    pub memory_used: u64,
    pub swap_total: u64,
    pub swap_used: u64,
    pub hdd_total: u64,
    pub hdd_used: u64,
    pub network_rx: u64,
    pub network_tx: u64,
    pub tcp: u32,
    pub udp: u32,
    pub process: u32,
    pub thread: u32,
    pub ping_10010: Real,
    pub ping_189: Real,
    pub ping_10086: Real,
    pub time_10010: Real,
    pub time_189: Real,
    pub time_10086: Real,
}

/// The state of a host, as it reports it and as the server completes it.
#[derive(Debug)]
pub struct HostStat {
    pub name: String,
    pub alias: String,
    pub gid: String,
    pub location: String,
    pub host_type: String,
    pub labels: String,
    pub version: String,
    pub uptime_str: String,
    pub notify: bool,
    pub vnstat: bool,
    pub disabled: bool,
    pub online4: bool,
    pub online6: bool,
    pub si: bool,
    pub pos: usize,
    pub weight: u64,
    pub latest_ts: u64,
    pub uptime: u64,
    pub network_in: u64,
    pub network_out: u64,
    pub last_network_in: u64,
    pub last_network_out: u64,
    pub ip_info: Option<IpInfo>,
    pub sys_info: Option<SysInfo>,
    pub disks: Vec<DiskInfo>,
    pub metrics: Metrics,
}

/// What a `HostStat` says.
#[verifier::ext_equal]
pub struct HostStatView {
    pub name: Seq<char>,
    pub alias: Seq<char>,
    pub gid: Seq<char>,
    pub location: Seq<char>,
    pub host_type: Seq<char>,
    pub labels: Seq<char>,
    pub version: Seq<char>,
    pub uptime_str: Seq<char>,
    pub notify: bool,
    pub vnstat: bool,
    pub disabled: bool,
    pub online4: bool,
    pub online6: bool,
    pub si: bool,
    pub pos: usize,
    pub weight: u64,
    pub latest_ts: u64,
    pub uptime: u64,
    pub network_in: u64,
    pub network_out: u64,
    pub last_network_in: u64,
    pub last_network_out: u64,
    pub ip_info: Option<IpInfoView>,
    pub sys_info: Option<SysInfoView>,
    pub disks: Seq<DiskInfoView>,
    pub metrics: Metrics,
}

/// What an optional value says.
pub open spec fn opt_view<T: View>(o: Option<T>) -> Option<T::V> {
    match o {
        Some(x) => Some(x@),
        None => None,
    }
}

impl View for HostStat {
    type V = HostStatView;

    open spec fn view(&self) -> HostStatView {
        HostStatView {
            name: self.name@,
            alias: self.alias@,
            gid: self.gid@,
            location: self.location@,
            host_type: self.host_type@,
            labels: self.labels@,
            version: self.version@,
            uptime_str: self.uptime_str@,
            notify: self.notify,
            vnstat: self.vnstat,
            disabled: self.disabled,
            online4: self.online4,
            online6: self.online6,
            si: self.si,
            pos: self.pos,
            weight: self.weight,
            latest_ts: self.latest_ts,
            uptime: self.uptime,
            network_in: self.network_in,
            network_out: self.network_out,
            last_network_in: self.last_network_in,
            last_network_out: self.last_network_out,
            ip_info: opt_view(self.ip_info),
            sys_info: opt_view(self.sys_info),
            disks: disk_views(self.disks@),
            metrics: self.metrics,
        }
    }
}

impl Clone for HostStat {
    fn clone(&self) -> (r: Self)
        ensures
            r@ == self@,
    {
        let disks = self.disks.clone();
        assert(disks@ =~= self.disks@);
        HostStat {
            name: self.name.clone(),
            alias: self.alias.clone(),
            gid: self.gid.clone(),
            location: self.location.clone(),
            host_type: self.host_type.clone(),
            labels: self.labels.clone(),
            version: self.version.clone(),
            uptime_str: self.uptime_str.clone(),
            notify: self.notify,
            vnstat: self.vnstat,
            disabled: self.disabled,
            online4: self.online4,
            online6: self.online6,
            si: self.si,
            pos: self.pos,
            weight: self.weight,
            latest_ts: self.latest_ts,
            uptime: self.uptime,
            network_in: self.network_in,
            network_out: self.network_out,
            last_network_in: self.last_network_in,
            last_network_out: self.last_network_out,
            ip_info: self.ip_info.clone(),
            sys_info: self.sys_info.clone(),
            disks,
            metrics: self.metrics,
        }
    }
}

/// What the configuration says of a host, with the counters from which its traffic
/// is counted.
#[derive(Debug)]
pub struct Host {
    pub gid: String,
    pub alias: String,
    pub location: String,
    pub host_type: String,
    pub labels: String,
    pub notify: bool,
    pub disabled: bool,
    pub pos: usize,
    pub weight: u64,
    pub monthstart: u32,
    pub latest_ts: u64,
    pub last_network_in: u64,
    pub last_network_out: u64,
}

/// What a `Host` says.
#[verifier::ext_equal]
pub struct HostView {
    pub gid: Seq<char>,
    pub alias: Seq<char>,
    pub location: Seq<char>,
    pub host_type: Seq<char>,
    pub labels: Seq<char>,
    pub notify: bool,
    pub disabled: bool,
    pub pos: usize,
    pub weight: u64,
    pub monthstart: u32,
    pub latest_ts: u64,
    pub last_network_in: u64,
    pub last_network_out: u64,
}

impl View for Host {
    type V = HostView;

    open spec fn view(&self) -> HostView {
        HostView {
            gid: self.gid@,
            alias: self.alias@,
            location: self.location@,
            host_type: self.host_type@,
            labels: self.labels@,
            notify: self.notify,
            disabled: self.disabled,
            pos: self.pos,
            weight: self.weight,
            monthstart: self.monthstart,
            latest_ts: self.latest_ts,
            last_network_in: self.last_network_in,
            last_network_out: self.last_network_out,
        }
    }
}

impl Clone for Host {
    fn clone(&self) -> (r: Self)
        ensures
            r == *self,
    {
        Host {
            gid: self.gid.clone(),
            alias: self.alias.clone(),
            location: self.location.clone(),
            host_type: self.host_type.clone(),
            labels: self.labels.clone(),
            notify: self.notify,
            disabled: self.disabled,
            pos: self.pos,
            weight: self.weight,
            monthstart: self.monthstart,
            latest_ts: self.latest_ts,
            last_network_in: self.last_network_in,
            last_network_out: self.last_network_out,
        }
    }
}

/// The hosts as the dashboard shows them, and the second they were gathered in.
#[derive(Debug)]
pub struct StatsResp {
    pub updated: u64,
    pub servers: Vec<HostStat>,
}

/// What a list of host states says.
pub open spec fn stat_views(v: Seq<HostStat>) -> Seq<HostStatView> {
    v.map_values(|s: HostStat| s@)
}

/// What a notification tells of a host.
#[derive(Clone, Copy, Debug, PartialEq, Eq, Structural)]
pub enum Event {
    NodeUp,
    NodeDown,
    Custom,
}

// ---------------------------------------------------------------------------
// What the views say
// ---------------------------------------------------------------------------

/// The view of a disk says of each part what the part of that name says.
pub proof fn law_view_of_a_disk(x: DiskInfo)
    ensures
        x@.name == x.name@,
        x@.mount_point == x.mount_point@,
        x@.file_system == x.file_system@,
        x@.total == x.total,
        x@.used == x.used,
        x@.free == x.free,
{
}

/// The view of a system says of each part what the part of that name says.
pub proof fn law_view_of_a_system(x: SysInfo)
    ensures
        x@.name == x.name@,
        x@.version == x.version@,
        x@.os_name == x.os_name@,
        x@.os_arch == x.os_arch@,
        x@.os_family == x.os_family@,
        x@.os_release == x.os_release@,
        x@.kernel_version == x.kernel_version@,
        x@.cpu_num == x.cpu_num,
        x@.cpu_brand == x.cpu_brand@,
        x@.cpu_vender_id == x.cpu_vender_id@,
        x@.host_name == x.host_name@,
{
}

/// The view of a address says of each part what the part of that name says.
pub proof fn law_view_of_an_address(x: IpInfo)
    ensures
        x@.query == x.query@,
        x@.continent == x.continent@,
        x@.country == x.country@,
        x@.region_name == x.region_name@,
        x@.city == x.city@,
        x@.isp == x.isp@,
        x@.org == x.org@,
        x@.asn == x.asn@,
        x@.asname == x.asname@,
{
}

/// The view of a configured host says of each part what the part of that name says.
pub proof fn law_view_of_a_host(x: Host)
    ensures
        x@.gid == x.gid@,
        x@.alias == x.alias@,
        x@.location == x.location@,
        x@.host_type == x.host_type@,
        x@.labels == x.labels@,
        x@.notify == x.notify,
        x@.disabled == x.disabled,
        x@.pos == x.pos,
        x@.weight == x.weight,
        x@.monthstart == x.monthstart,
        x@.latest_ts == x.latest_ts,
        x@.last_network_in == x.last_network_in,
        x@.last_network_out == x.last_network_out,
{
}

/// The view of a host's state says of each part what the part of that name says.
pub proof fn law_view_of_a_state(x: HostStat)
    ensures
        x@.name == x.name@,
        x@.alias == x.alias@,
        x@.gid == x.gid@,
        x@.location == x.location@,
        x@.host_type == x.host_type@,
        x@.labels == x.labels@,
        x@.version == x.version@,
        x@.uptime_str == x.uptime_str@,
        x@.notify == x.notify,
        x@.vnstat == x.vnstat,
        x@.disabled == x.disabled,
        x@.online4 == x.online4,
        x@.online6 == x.online6,
        x@.si == x.si,
        x@.pos == x.pos,
        x@.weight == x.weight,
        x@.latest_ts == x.latest_ts,
        x@.uptime == x.uptime,
        x@.network_in == x.network_in,
        x@.network_out == x.network_out,
        x@.last_network_in == x.last_network_in,
        x@.last_network_out == x.last_network_out,
        x@.ip_info is Some <==> x.ip_info is Some,
        x.ip_info matches Some(v) ==> x@.ip_info == Some(v@),
        x@.sys_info is Some <==> x.sys_info is Some,
        x.sys_info matches Some(v) ==> x@.sys_info == Some(v@),
        x@.disks.len() == x.disks@.len(),
        forall|i: int| 0 <= i < x.disks@.len() ==> #[trigger] x@.disks[i] == x.disks@[i]@,
        x@.metrics == x.metrics,
{
}

/// The views of a list of states, state by state.
pub proof fn law_views_of_states(v: Seq<HostStat>, i: int)
    requires
        0 <= i < v.len(),
    ensures
        stat_views(v).len() == v.len(),
        stat_views(v)[i] == v[i]@,
{
}

} // verus!
