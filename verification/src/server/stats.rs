//! The state of all hosts: how a report changes it, and how the passing of time
//! does.
use vstd::prelude::*;
use vstd::string::*;
use crate::clock::{local_time, valid_time, LocalTime};
use crate::decimal::{decimal, decimal2, numeral, numeral2};
use crate::payload::{
    opt_view, stat_views, Event, Host, HostStat, HostStatView, HostView, StatsResp, SysInfo,
    SysInfoView,
};
use crate::registry::{distinct, lookup, put, values, Registry};
use crate::text::{contains, contains_text, lowercase, to_lower};

verus! {

// ---------------------------------------------------------------------------
// A report
// ---------------------------------------------------------------------------

/// The seconds after which the server draws its conclusions.
#[derive(Clone, Copy, Debug, PartialEq, Eq)]
pub struct Intervals {
    /// A host that has not reported for longer is offline.
    pub offline_threshold: u64,
    /// A host of a group that has not reported for longer is forgotten.
    pub group_gc: u64,
    /// Notifications on the state of all hosts lie farther apart.
    pub notify_interval: u64,
}

/// The second `ts`, in which a host of the group `gid` was last heard of, is early enough
/// to clear by; a host in no group is never cleared.
pub open spec fn host_fits(cfg: Intervals, gid: Seq<char>, ts: u64) -> bool {
    gid.len() > 0 ==> ts + cfg.group_gc <= u64::MAX
}

/// The second `ts` of a report is early enough to clear and to go offline by.
pub open spec fn stat_fits(cfg: Intervals, gid: Seq<char>, ts: u64) -> bool {
    &&& ts + cfg.offline_threshold <= u64::MAX
    &&& host_fits(cfg, gid, ts)
}

/// The second `now` is early enough for another clearing and another notification.
pub open spec fn now_fits(cfg: Intervals, now: u64) -> bool {
    &&& now + cfg.group_gc <= u64::MAX
    &&& now + cfg.notify_interval <= u64::MAX
}

impl Intervals {
    /// Whether a host of the group `gid`, last heard of in the second `ts`, can be
    /// cleared by it.
    pub fn fits_host(&self, gid: &str, ts: u64) -> (r: bool)
        ensures
            r == host_fits(*self, gid@, ts),
    {
        gid.is_empty() || ts <= u64::MAX - self.group_gc
    }

    /// Whether a host of the group `gid` can be cleared and go offline by a report of the
    /// second `ts`.
    pub fn fits_stat(&self, gid: &str, ts: u64) -> (r: bool)
        ensures
            r == stat_fits(*self, gid@, ts),
    {
        ts <= u64::MAX - self.offline_threshold && self.fits_host(gid, ts)
    }

    /// Whether another clearing and another notification can follow the second `now`.
    pub fn fits_now(&self, now: u64) -> (r: bool)
        ensures
            r == now_fits(*self, now),
    {
        now <= u64::MAX - self.group_gc && now <= u64::MAX - self.notify_interval
    }
}

/// How long a host has been up: in days, or in hours, minutes and seconds within
/// the first day.
pub open spec fn uptime_text(uptime: u64) -> Seq<char> {
    let s = uptime as nat;
    if s / 86400 > 0 {
        numeral(s / 86400) + " 天"@
    } else {
        numeral2(s / 3600) + ":"@ + numeral2(s / 60 % 60) + ":"@ + numeral2(s % 60)
    }
}

/// The text for an uptime in seconds.
pub fn uptime_str(uptime: u64) -> (r: String)
    ensures
        r@ == uptime_text(uptime),
{
    let day: u64 = uptime / 86400;
    if day > 0 {
        let mut r = decimal(day);
        r.append(" 天");
        r
    } else {
        let mut r = decimal2(uptime / 3600);
        r.append(":");
        r.append(decimal2(uptime / 60 % 60).as_str());
        r.append(":");
        r.append(decimal2(uptime % 60).as_str());
        r
    }
}

/// A member of a group that gives no alias goes by its name.
pub open spec fn with_alias(stat: HostStatView) -> HostStatView {
    if stat.gid.len() > 0 && stat.alias.len() == 0 {
        HostStatView { alias: stat.name, ..stat }
    } else {
        stat
    }
}

/// A host of a group, with the traffic counters of the host that it replaces.
pub open spec fn inheriting(inst: HostView, prior: Option<HostView>) -> HostView {
    match prior {
        Some(o) => HostView {
            last_network_in: o.last_network_in,
            last_network_out: o.last_network_out,
            ..inst
        },
        None => inst,
    }
}

/// The hosts once a report's group is taken into account, or `None` where the
/// report names a group that there is not.
///
/// A report without a group changes nothing; nor does one from a host that is
/// known in this group. Otherwise the host is taken into the group as `inst`,
/// which is `None` where there is no such group.
pub open spec fn adopted(
    hosts: Seq<(Seq<char>, HostView)>,
    stat: HostStatView,
    inst: Option<HostView>,
) -> Option<Seq<(Seq<char>, HostView)>> {
    let prior = lookup(hosts, stat.name);
    if stat.gid.len() == 0 || (prior is Some && prior->0.gid == stat.gid) {
        Some(hosts)
    } else {
        match inst {
            Some(h) => Some(put(hosts, stat.name, inheriting(h, prior))),
            None => None,
        }
    }
}

/// The traffic of the period starts anew: it was never counted, the counter went
/// back, or the first five minutes of the day on which the period starts run.
pub open spec fn restarts(info: HostView, stat: HostStatView, t: LocalTime) -> bool {
    ||| info.last_network_in == 0
    ||| stat.network_in != 0 && info.last_network_in > stat.network_in
    ||| t.day == info.monthstart && t.hour == 0 && t.minute < 5
}

/// The host's entry after the report: with the counters of the report where the
/// traffic starts anew.
pub open spec fn counted(info: HostView, stat: HostStatView, t: LocalTime) -> HostView {
    if !stat.vnstat && restarts(info, stat, t) {
        HostView {
            last_network_in: stat.network_in,
            last_network_out: stat.network_out,
            ..info
        }
    } else {
        info
    }
}

/// The report completed by what is configured of its host.
pub open spec fn completed(info: HostView, stat: HostStatView, t: LocalTime) -> HostStatView {
    let keeps = !stat.vnstat && !restarts(info, stat, t);
    HostStatView {
        location: if stat.location.len() == 0 {
            info.location
        } else {
            stat.location
        },
        host_type: if stat.host_type.len() == 0 {
            info.host_type
        } else {
            stat.host_type
        },
        notify: info.notify && stat.notify,
        pos: info.pos,
        disabled: info.disabled,
        weight: (stat.weight + info.weight) as u64,
        labels: info.labels,
        alias: if info.alias.len() > 0 {
            info.alias
        } else {
            stat.alias
        },
        last_network_in: if keeps {
            info.last_network_in
        } else {
            stat.last_network_in
        },
        last_network_out: if keeps {
            info.last_network_out
        } else {
            stat.last_network_out
        },
        uptime_str: uptime_text(stat.uptime),
        ..stat
    }
}

/// The report with what only the host's previous one said of its address and its
/// system.
pub open spec fn backfilled(stat: HostStatView, pre: Option<HostStatView>) -> HostStatView {
    match pre {
        Some(p) => HostStatView {
            ip_info: if stat.ip_info is None {
                p.ip_info
            } else {
                stat.ip_info
            },
            sys_info: if stat.sys_info is None {
                p.sys_info
            } else {
                stat.sys_info
            },
            ..stat
        },
        None => stat,
    }
}

/// The host is back: its previous report is older than a host online may be.
pub open spec fn came_up(
    stat: HostStatView,
    pre: Option<HostStatView>,
    offline_threshold: u64,
) -> bool {
    stat.notify && pre is Some && pre->0.latest_ts + offline_threshold < stat.latest_ts
}

/// Why a report is dropped.
#[derive(Clone, Copy, Debug, PartialEq, Eq, Structural)]
pub enum Drop {
    /// It names a group that is not configured.
    UnknownGroup,
    /// Its host is not configured.
    UnknownHost,
    /// Its host is switched off.
    Disabled,
}

/// A report that was taken in.
#[derive(Debug)]
pub struct Accepted {
    /// The completed report, which is kept and is to be stored.
    pub stat: HostStat,
    /// The traffic starts anew: the report's counters are to be stored.
    pub network_reset: bool,
    /// The host is back: it is to be told to the notifiers.
    pub node_up: bool,
}

/// What becomes of a report.
#[derive(Debug)]
pub enum Outcome {
    Dropped(Drop),
    Stored(Accepted),
}

/// What an `Outcome` says.
#[verifier::ext_equal]
pub enum OutcomeView {
    Dropped(Drop),
    Stored { stat: HostStatView, network_reset: bool, node_up: bool },
}

impl View for Outcome {
    type V = OutcomeView;

    open spec fn view(&self) -> OutcomeView {
        match self {
            Outcome::Dropped(d) => OutcomeView::Dropped(*d),
            Outcome::Stored(a) => OutcomeView::Stored {
                stat: a.stat@,
                network_reset: a.network_reset,
                node_up: a.node_up,
            },
        }
    }
}

/// The hosts and the latest report of each.
#[verifier::ext_equal]
pub struct Tables {
    pub hosts: Seq<(Seq<char>, HostView)>,
    pub stats: Seq<(Seq<char>, HostStatView)>,
}

/// The host that a report belongs to, once its group is taken into account.
pub open spec fn host_of(
    hosts: Seq<(Seq<char>, HostView)>,
    stat: HostStatView,
    inst: Option<HostView>,
) -> Option<HostView> {
    match adopted(hosts, stat, inst) {
        Some(h) => lookup(h, stat.name),
        None => None,
    }
}

/// What a report makes of the tables, and what becomes of it.
pub open spec fn ingested(
    tables: Tables,
    stat: HostStatView,
    inst: Option<HostView>,
    t: LocalTime,
    offline_threshold: u64,
) -> (Tables, OutcomeView) {
    match adopted(tables.hosts, stat, inst) {
        None => (tables, OutcomeView::Dropped(Drop::UnknownGroup)),
        Some(hosts) => match lookup(hosts, stat.name) {
            None => (Tables { hosts, ..tables }, OutcomeView::Dropped(Drop::UnknownHost)),
            Some(info) => if info.disabled {
                (Tables { hosts, ..tables }, OutcomeView::Dropped(Drop::Disabled))
            } else {
                let pre = lookup(tables.stats, stat.name);
                let full = backfilled(completed(info, with_alias(stat), t), pre);
                (
                    Tables {
                        hosts: put(hosts, stat.name, counted(info, stat, t)),
                        stats: put(tables.stats, stat.name, full),
                    },
                    OutcomeView::Stored {
                        stat: full,
                        network_reset: !stat.vnstat && restarts(info, stat, t),
                        node_up: came_up(full, pre, offline_threshold),
                    },
                )
            },
        },
    }
}

// ---------------------------------------------------------------------------
// The passing of time
// ---------------------------------------------------------------------------

/// The systems that are told apart, the first that fits taken.
pub const OS_LIST: [&'static str; 10] = [
    "centos",
    "debian",
    "ubuntu",
    "arch",
    "windows",
    "macos",
    "pi",
    "android",
    "linux",
    "freebsd",
];

/// The first text of `list`, from `from` on, that stands in `text`.
pub open spec fn first_in(list: Seq<&'static str>, from: int, text: Seq<char>) -> Option<Seq<char>>
    decreases list.len() - from,
{
    if from < 0 || from >= list.len() {
        None
    } else if contains_text(text, list[from]@) {
        Some(list[from]@)
    } else {
        first_in(list, from + 1, text)
    }
}

/// The system's release and name in lower case, with a space between.
pub open spec fn os_text(sys: SysInfoView) -> Seq<char> {
    lowercase(sys.os_release) + " "@ + lowercase(sys.os_name)
}

/// The labels with the host's system among them: added where they name none and
/// the system is known and told apart.
pub open spec fn labelled(labels: Seq<char>, sys: Option<SysInfoView>) -> Seq<char> {
    if contains_text(labels, "os="@) || sys is None {
        labels
    } else {
        match first_in(OS_LIST@, 0, os_text(sys->0)) {
            Some(s) => if labels.len() == 0 {
                labels + "os="@ + s
            } else {
                labels + ";os="@ + s
            },
            None => labels,
        }
    }
}

/// The host answers on one of the two protocols.
pub open spec fn online(stat: HostStatView) -> bool {
    stat.online4 || stat.online6
}

/// A host that is online reported within the threshold before the second `now`.
pub open spec fn fresh_if_online(stat: HostStatView, offline_threshold: u64, now: u64) -> bool {
    online(stat) ==> stat.latest_ts + offline_threshold >= now
}

/// The host's state at the second `now`: offline where it has not reported for
/// longer than the threshold, and labelled.
pub open spec fn aged(stat: HostStatView, now: u64, offline_threshold: u64) -> HostStatView {
    let late = stat.latest_ts + offline_threshold < now;
    HostStatView {
        online4: stat.online4 && !late,
        online6: stat.online6 && !late,
        labels: labelled(stat.labels, stat.sys_info),
        ..stat
    }
}

/// The host's state after the tick: one that is reported down is switched off until
/// it reports again; one that is switched off stays as it is.
pub open spec fn ticked(
    stat: HostStatView,
    now: u64,
    offline_threshold: u64,
    due: bool,
) -> HostStatView {
    if stat.disabled {
        stat
    } else {
        let s = aged(stat, now, offline_threshold);
        if s.notify && due && !online(s) {
            HostStatView { disabled: true, ..s }
        } else {
            s
        }
    }
}

/// What is told of the host at the tick, if anything.
pub open spec fn notice(stat: HostStatView, now: u64, offline_threshold: u64, due: bool) -> Option<
    (Event, HostStatView),
> {
    if stat.disabled || !stat.notify || !due {
        None
    } else {
        let s = ticked(stat, now, offline_threshold, due);
        if online(s) {
            Some((Event::Custom, s))
        } else {
            Some((Event::NodeDown, s))
        }
    }
}

/// The tick changes what the dashboard shows of the host: it went offline or is
/// reported down.
pub open spec fn shifts(stat: HostStatView, now: u64, offline_threshold: u64, due: bool) -> bool {
    !stat.disabled && {
        ||| online(stat) != online(aged(stat, now, offline_threshold))
        ||| notice(stat, now, offline_threshold, due) matches Some((Event::NodeDown, _))
    }
}

/// The notices for the hosts `stats`, in their order.
pub open spec fn notices(
    stats: Seq<HostStatView>,
    now: u64,
    offline_threshold: u64,
    due: bool,
) -> Seq<(Event, HostStatView)>
    decreases stats.len(),
{
    if stats.len() == 0 {
        Seq::empty()
    } else {
        let front = notices(stats.drop_last(), now, offline_threshold, due);
        match notice(stats.last(), now, offline_threshold, due) {
            Some(n) => front.push(n),
            None => front,
        }
    }
}

/// The host is kept at the clearing at `now`: it is in no group, or reported
/// recently enough.
pub open spec fn kept(gid: Seq<char>, latest_ts: u64, group_gc: u64, now: u64) -> bool {
    gid.len() == 0 || latest_ts + group_gc >= now
}

/// The order of the dashboard: the heavier host first, then the one configured
/// first, then by alias.
pub open spec fn ranks_before(a: HostStatView, b: HostStatView) -> bool {
    if a.weight != b.weight {
        a.weight > b.weight
    } else if a.pos != b.pos {
        a.pos < b.pos
    } else {
        crate::text::text_before(a.alias, b.alias)
    }
}

/// No host stands behind one that it ranks before.
pub open spec fn ranked(s: Seq<HostStatView>) -> bool {
    forall|i: int, j: int| 0 <= i < j < s.len() ==> !ranks_before(s[j], s[i])
}

/// The latest second in which one of the hosts reported, or zero.
pub open spec fn latest(s: Seq<HostStatView>) -> u64
    decreases s.len(),
{
    if s.len() == 0 {
        0
    } else {
        let m = latest(s.drop_last());
        if s.last().latest_ts > m {
            s.last().latest_ts
        } else {
            m
        }
    }
}

// ---------------------------------------------------------------------------
// The manager
// ---------------------------------------------------------------------------

/// What is to be told of a host.
#[derive(Debug)]
pub struct Notification {
    pub event: Event,
    pub stat: HostStat,
}

/// What a list of notifications says.
pub open spec fn notification_views(v: Seq<Notification>) -> Seq<(Event, HostStatView)> {
    v.map_values(|n: Notification| (n.event, n.stat@))
}

/// What a tick asks for.
#[derive(Debug)]
pub struct TickReport {
    /// To be handed to the notifiers, in this order.
    pub notifications: Vec<Notification>,
    /// The dashboard's text is out of date and to be written anew.
    pub serialize: bool,
}

/// The state of all hosts.
#[derive(Debug)]
pub struct StatsMgr {
    pub hosts: Registry<Host>,
    pub stats: Registry<HostStat>,
    pub cfg: Intervals,
    pub latest_notify_ts: u64,
    pub latest_group_gc: u64,
    pub last_serialized_ts: u64,
    pub stats_data: StatsResp,
    pub resp_json: String,
}

/// What a `StatsMgr` holds.
#[verifier::ext_equal]
pub struct MgrView {
    pub tables: Tables,
    pub cfg: Intervals,
    pub latest_notify_ts: u64,
    pub latest_group_gc: u64,
    pub last_serialized_ts: u64,
    pub updated: u64,
    pub servers: Seq<HostStatView>,
    pub json: Seq<char>,
}

impl View for StatsMgr {
    type V = MgrView;

    open spec fn view(&self) -> MgrView {
        MgrView {
            tables: Tables { hosts: self.hosts@, stats: self.stats@ },
            cfg: self.cfg,
            latest_notify_ts: self.latest_notify_ts,
            latest_group_gc: self.latest_group_gc,
            last_serialized_ts: self.last_serialized_ts,
            updated: self.stats_data.updated,
            servers: stat_views(self.stats_data.servers@),
            json: self.resp_json@,
        }
    }
}

/// The names of each table are distinct, every second that is kept is early enough
/// for what is added to it, and a host that is switched off is offline.
pub open spec fn mgr_wf(m: MgrView) -> bool {
    &&& distinct(m.tables.hosts)
    &&& distinct(m.tables.stats)
    &&& forall|i: int|
        0 <= i < m.tables.hosts.len() ==> host_fits(
            m.cfg,
            (#[trigger] m.tables.hosts[i]).1.gid,
            m.tables.hosts[i].1.latest_ts,
        )
    &&& forall|i: int|
        0 <= i < m.tables.stats.len() ==> stat_fits(
            m.cfg,
            (#[trigger] m.tables.stats[i]).1.gid,
            m.tables.stats[i].1.latest_ts,
        )
    &&& forall|i: int|
        0 <= i < m.tables.stats.len() ==> (#[trigger] m.tables.stats[i]).1.disabled ==> !online(
            m.tables.stats[i].1,
        )
    &&& m.latest_notify_ts + m.cfg.notify_interval <= u64::MAX
    &&& m.latest_group_gc + m.cfg.group_gc <= u64::MAX
}

/// The report can be taken in without an overflow: its host's second fits, and, where
/// it is not dropped, so do its own second and the sum of the weights.
pub open spec fn acceptable(m: MgrView, stat: HostStatView, inst: Option<HostView>) -> bool {
    match host_of(m.tables.hosts, stat, inst) {
        Some(h) => {
            &&& host_fits(m.cfg, h.gid, h.latest_ts)
            &&& !h.disabled ==> stat_fits(m.cfg, stat.gid, stat.latest_ts) && stat.weight
                + h.weight <= u64::MAX
        },
        None => true,
    }
}

impl StatsMgr {
    /// The names are distinct, the seconds fit, and what is switched off is offline.
    pub open spec fn wf(&self) -> bool {
        mgr_wf(self@)
    }

    /// A manager that knows no host, made in the second `updated`.
    pub fn new(updated: u64) -> (r: Self)
        ensures
            r.wf(),
            r@ == (MgrView {
                tables: Tables { hosts: Seq::empty(), stats: Seq::empty() },
                cfg: Intervals { offline_threshold: 0, group_gc: 0, notify_interval: 0 },
                latest_notify_ts: 0,
                latest_group_gc: 0,
                last_serialized_ts: 0,
                updated,
                servers: Seq::empty(),
                json: "{}"@,
            }),
    {
        let r = StatsMgr {
            hosts: Registry::new(),
            stats: Registry::new(),
            cfg: Intervals { offline_threshold: 0, group_gc: 0, notify_interval: 0 },
            latest_notify_ts: 0,
            latest_group_gc: 0,
            last_serialized_ts: 0,
            stats_data: StatsResp { updated, servers: Vec::new() },
            resp_json: "{}".to_string(),
        };
        assert(r@.servers =~= Seq::<HostStatView>::empty());
        r
    }

    /// Whether the report can be taken in without an overflow.
    pub fn can_ingest(&self, stat: &HostStat, inst: &Option<Host>) -> (r: bool)
        requires
            self.wf(),
        ensures
            r == acceptable(self@, stat@, opt_view(*inst)),
    {
        let mut known: bool = stat.gid.as_str().is_empty();
        if !known {
            match self.hosts.get(stat.name.as_str()) {
                Some(o) => {
                    known = o.gid == stat.gid;
                },
                None => {},
            }
        }
        proof {
            match inst {
                Some(h) => {
                    let prior = lookup(self.hosts@, stat@.name);
                    crate::registry::law_lookup_put(
                        self.hosts@,
                        stat@.name,
                        inheriting(h@, prior),
                        stat@.name,
                    );
                },
                None => {},
            }
        }
        if known {
            match self.hosts.get(stat.name.as_str()) {
                Some(h) => self.cfg.fits_host(h.gid.as_str(), h.latest_ts) && (h.disabled || (
                self.cfg.fits_stat(stat.gid.as_str(), stat.latest_ts) && stat.weight <= u64::MAX - h.weight)),
                None => true,
            }
        } else {
            match inst {
                Some(h) => self.cfg.fits_host(h.gid.as_str(), h.latest_ts) && (h.disabled || (
                self.cfg.fits_stat(stat.gid.as_str(), stat.latest_ts) && stat.weight <= u64::MAX - h.weight)),
                None => true,
            }
        }
    }

    /// Takes in a report at the local time `t`. `inst` is the host as its group
    /// would have it, or `None` where the report's group is not configured.
    pub fn ingest_at(&mut self, stat: HostStat, inst: Option<Host>, t: LocalTime) -> (out: Outcome)
        requires
            old(self).wf(),
            acceptable(old(self)@, stat@, opt_view(inst)),
        ensures
            final(self).wf(),
            ({
                let (tables, o) = ingested(
                    old(self)@.tables,
                    stat@,
                    opt_view(inst),
                    t,
                    old(self)@.cfg.offline_threshold,
                );
                final(self)@ == (MgrView { tables, ..old(self)@ }) && out@ == o
            }),
    {
        let ghost m0 = self@;
        let ghost stat0 = stat@;
        let ghost inst0 = opt_view(inst);
        if !self.adopt(&stat, inst) {
            return Outcome::Dropped(Drop::UnknownGroup);
        }
        let ghost m1 = self@;
        let info = match self.hosts.get(stat.name.as_str()) {
            Some(h) => h.clone(),
            None => {
                return Outcome::Dropped(Drop::UnknownHost);
            },
        };
        if info.disabled {
            return Outcome::Dropped(Drop::Disabled);
        }
        let ghost info0 = info@;
        let (stat, info, network_reset) = complete(named(stat), info, t);
        proof {
            lemma_lookup_fits(m1, stat@.name);
            lemma_put_fits(m1, stat@.name, info@);
            assert(info@ == counted(info0, stat0, t));
        }
        self.hosts.insert(stat.name.clone(), info);
        let ghost m2 = self@;
        assert(mgr_wf(m2));
        let mut node_up: bool = false;
        let stat = match self.stats.get(stat.name.as_str()) {
            Some(pre) => {
                proof {
                    lemma_stat_fits(m2, stat@.name);
                }
                node_up = stat.notify && pre.latest_ts + self.cfg.offline_threshold
                    < stat.latest_ts;
                backfill(stat, pre)
            },
            None => stat,
        };
        let stored = stat.clone();
        proof {
            lemma_put_stat_fits(m2, stat@.name, stored@);
        }
        self.stats.insert(stat.name.clone(), stored);
        Outcome::Stored(Accepted { stat, network_reset, node_up })
    }

    /// Takes the report's group into account; `false` where it is not configured.
    fn adopt(&mut self, stat: &HostStat, inst: Option<Host>) -> (r: bool)
        requires
            old(self).wf(),
            host_of(old(self)@.tables.hosts, stat@, opt_view(inst)) matches Some(h) ==> host_fits(
                old(self)@.cfg,
                h.gid,
                h.latest_ts,
            ),
        ensures
            final(self).wf(),
            (match adopted(old(self)@.tables.hosts, stat@, opt_view(inst)) {
                Some(hosts) => r && final(self)@ == (MgrView {
                    tables: Tables { hosts, ..old(self)@.tables },
                    ..old(self)@
                }),
                None => !r && final(self)@ == old(self)@,
            }),
    {
        if stat.gid.as_str().is_empty() {
            return true;
        }
        let mut prior: Option<(u64, u64)> = None;
        match self.hosts.get(stat.name.as_str()) {
            Some(o) => {
                if o.gid == stat.gid {
                    return true;
                }
                prior = Some((o.last_network_in, o.last_network_out));
            },
            None => {},
        }
        match inst {
            Some(h) => {
                let mut h = h;
                match prior {
                    Some((i, o)) => {
                        h.last_network_in = i;
                        h.last_network_out = o;
                    },
                    None => {},
                }
                proof {
                    crate::registry::law_lookup_put(self.hosts@, stat@.name, h@, stat@.name);
                    lemma_put_fits(self@, stat@.name, h@);
                }
                self.hosts.insert(stat.name.clone(), h);
                true
            },
            None => false,
        }
    }
}

/// A member of a group that gives no alias goes by its name.
fn named(stat: HostStat) -> (r: HostStat)
    ensures
        r@ == with_alias(stat@),
{
    let mut stat = stat;
    if !stat.gid.as_str().is_empty() && stat.alias.as_str().is_empty() {
        stat.alias = stat.name.clone();
    }
    stat
}

/// Completes the report `stat` by what is configured of its host, and counts its
/// traffic; the third part of the result tells whether the traffic starts anew.
fn complete(stat: HostStat, info: Host, t: LocalTime) -> (r: (HostStat, Host, bool))
    requires
        stat.weight + info.weight <= u64::MAX,
    ensures
        r.0@ == completed(info@, stat@, t),
        r.1@ == counted(info@, stat@, t),
        r.2 == (!stat@.vnstat && restarts(info@, stat@, t)),
{
    let mut stat = stat;
    let mut info = info;
    if stat.location.as_str().is_empty() {
        stat.location = info.location.clone();
    }
    if stat.host_type.as_str().is_empty() {
        stat.host_type = info.host_type.clone();
    }
    stat.notify = info.notify && stat.notify;
    stat.pos = info.pos;
    stat.disabled = info.disabled;
    stat.weight = stat.weight + info.weight;
    stat.labels = info.labels.clone();
    if !info.alias.as_str().is_empty() {
        stat.alias = info.alias.clone();
    }
    let mut network_reset: bool = false;
    if !stat.vnstat {
        if info.last_network_in == 0 || (stat.network_in != 0 && info.last_network_in
            > stat.network_in) || (t.day == info.monthstart && t.hour == 0 && t.minute < 5) {
            info.last_network_in = stat.network_in;
            info.last_network_out = stat.network_out;
            network_reset = true;
        } else {
            stat.last_network_in = info.last_network_in;
            stat.last_network_out = info.last_network_out;
        }
    }
    stat.uptime_str = uptime_str(stat.uptime);
    (stat, info, network_reset)
}

/// Fills in what only the previous report said of the address and the system.
fn backfill(stat: HostStat, pre: &HostStat) -> (r: HostStat)
    ensures
        r@ == backfilled(stat@, Some(pre@)),
{
    let mut stat = stat;
    if stat.ip_info.is_none() {
        stat.ip_info = pre.ip_info.clone();
    }
    if stat.sys_info.is_none() {
        stat.sys_info = pre.sys_info.clone();
    }
    stat
}

/// Every host that a name finds is one of the table.
proof fn lemma_lookup_fits(m: MgrView, k: Seq<char>)
    requires
        mgr_wf(m),
    ensures
        lookup(m.tables.hosts, k) matches Some(h) ==> host_fits(m.cfg, h.gid, h.latest_ts),
{
    crate::registry::lemma_lookup_place(m.tables.hosts, k);
}

/// Every report that a name finds is one of the table.
proof fn lemma_stat_fits(m: MgrView, k: Seq<char>)
    requires
        mgr_wf(m),
    ensures
        lookup(m.tables.stats, k) matches Some(s) ==> stat_fits(m.cfg, s.gid, s.latest_ts),
{
    crate::registry::lemma_lookup_place(m.tables.stats, k);
}

/// Putting a host whose second fits keeps the state well formed.
proof fn lemma_put_fits(m: MgrView, k: Seq<char>, h: HostView)
    requires
        mgr_wf(m),
        host_fits(m.cfg, h.gid, h.latest_ts),
    ensures
        mgr_wf(MgrView { tables: Tables { hosts: put(m.tables.hosts, k, h), ..m.tables }, ..m }),
{
    let s = m.tables.hosts;
    crate::registry::lemma_put_distinct(s, k, h);
    crate::registry::lemma_lookup_place(s, k);
    if lookup(s, k) is Some {
        let i = choose|i: int| #[trigger]
            crate::registry::place(s, k, i) && lookup(s, k) == Some(s[i].1);
        crate::registry::lemma_put_at(s, k, h, i);
    } else {
        crate::registry::lemma_put_new(s, k, h);
    }
}

/// Putting a report whose second fits, of a host that is not switched off, keeps the
/// state well formed.
proof fn lemma_put_stat_fits(m: MgrView, k: Seq<char>, x: HostStatView)
    requires
        mgr_wf(m),
        stat_fits(m.cfg, x.gid, x.latest_ts),
        !x.disabled,
    ensures
        mgr_wf(MgrView { tables: Tables { stats: put(m.tables.stats, k, x), ..m.tables }, ..m }),
{
    let s = m.tables.stats;
    crate::registry::lemma_put_distinct(s, k, x);
    crate::registry::lemma_lookup_place(s, k);
    if lookup(s, k) is Some {
        let i = choose|i: int| #[trigger]
            crate::registry::place(s, k, i) && lookup(s, k) == Some(s[i].1);
        crate::registry::lemma_put_at(s, k, x, i);
    } else {
        crate::registry::lemma_put_new(s, k, x);
    }
}

/// The hosts with the stored traffic counters `data` of those that are among them.
pub open spec fn loaded(
    hosts: Seq<(Seq<char>, HostView)>,
    data: Seq<(Seq<char>, u64, u64)>,
) -> Seq<(Seq<char>, HostView)>
    decreases data.len(),
{
    if data.len() == 0 {
        hosts
    } else {
        let h = loaded(hosts, data.drop_last());
        let (name, net_in, net_out) = data.last();
        match lookup(h, name) {
            Some(o) => put(
                h,
                name,
                HostView { last_network_in: net_in, last_network_out: net_out, ..o },
            ),
            None => h,
        }
    }
}

/// What a list of stored counters says.
pub open spec fn counter_views(v: Seq<(String, u64, u64)>) -> Seq<(Seq<char>, u64, u64)> {
    v.map_values(|e: (String, u64, u64)| (e.0@, e.1, e.2))
}

impl StatsMgr {
    /// Takes in a report now. The local time decides whether the traffic period
    /// starts; whatever it is, the report is taken in as at that time.
    pub fn ingest(&mut self, stat: HostStat, inst: Option<Host>) -> (out: Outcome)
        requires
            old(self).wf(),
            acceptable(old(self)@, stat@, opt_view(inst)),
        ensures
            final(self).wf(),
            exists|t: LocalTime| #[trigger]
                valid_time(t) && {
                    let (tables, o) = ingested(
                        old(self)@.tables,
                        stat@,
                        opt_view(inst),
                        t,
                        old(self)@.cfg.offline_threshold,
                    );
                    final(self)@ == (MgrView { tables, ..old(self)@ }) && out@ == o
                },
    {
        let t = local_time();
        self.ingest_at(stat, inst, t)
    }

    /// Takes over the stored traffic counters of the hosts that are configured.
    pub fn load_last_network(&mut self, data: &Vec<(String, u64, u64)>)
        requires
            old(self).wf(),
        ensures
            final(self).wf(),
            final(self)@ == (MgrView {
                tables: Tables {
                    hosts: loaded(old(self)@.tables.hosts, counter_views(data@)),
                    ..old(self)@.tables
                },
                ..old(self)@
            }),
    {
        let n: usize = data.len();
        let mut i: usize = 0;
        let ghost m0 = self@;
        while i < n
            invariant
                i <= n,
                n == data@.len(),
                self.wf(),
                self@ == (MgrView {
                    tables: Tables {
                        hosts: loaded(m0.tables.hosts, counter_views(data@).take(i as int)),
                        ..m0.tables
                    },
                    ..m0
                }),
            decreases n - i,
        {
            let ghost m1 = self@;
            proof {
                let v = counter_views(data@);
                assert(v.take(i + 1).drop_last() =~= v.take(i as int));
                assert(v.take(i + 1).last() == v[i as int]);
            }
            let found = match self.hosts.get(data[i].0.as_str()) {
                Some(h) => Some(h.clone()),
                None => None,
            };
            match found {
                Some(h) => {
                    let mut h = h;
                    proof {
                        lemma_lookup_fits(m1, data@[i as int].0@);
                    }
                    h.last_network_in = data[i].1;
                    h.last_network_out = data[i].2;
                    proof {
                        lemma_put_fits(m1, data@[i as int].0@, h@);
                    }
                    self.hosts.insert(data[i].0.clone(), h);
                },
                None => {},
            }
            i = i + 1;
        }
        assert(counter_views(data@).take(n as int) =~= counter_views(data@));
    }

    /// Starts with the configured `hosts` and intervals, and with the stored traffic
    /// counters where they could be read.
    pub fn init(
        &mut self,
        cfg: Intervals,
        hosts: Registry<Host>,
        last_network: Option<Vec<(String, u64, u64)>>,
    )
        requires
            hosts.wf(),
            forall|i: int|
                0 <= i < hosts@.len() ==> host_fits(
                    cfg,
                    (#[trigger] hosts@[i]).1.gid,
                    hosts@[i].1.latest_ts,
                ),
        ensures
            final(self).wf(),
            final(self)@ == (MgrView {
                tables: Tables {
                    hosts: match last_network {
                        Some(data) => loaded(hosts@, counter_views(data@)),
                        None => hosts@,
                    },
                    stats: Seq::empty(),
                },
                cfg,
                latest_notify_ts: 0,
                latest_group_gc: 0,
                last_serialized_ts: 0,
                ..old(self)@
            }),
    {
        self.hosts = hosts;
        self.stats = Registry::new();
        self.cfg = cfg;
        self.latest_notify_ts = 0;
        self.latest_group_gc = 0;
        self.last_serialized_ts = 0;
        match last_network {
            Some(data) => {
                self.load_last_network(&data);
            },
            None => {},
        }
    }
}

// ---------------------------------------------------------------------------
// The tick
// ---------------------------------------------------------------------------

/// The text for the system is the first of `OS_LIST` that stands in `text`.
fn os_tag(text: &str) -> (r: Option<&'static str>)
    ensures
        (match r {
            Some(s) => first_in(OS_LIST@, 0, text@) == Some(s@),
            None => first_in(OS_LIST@, 0, text@) is None,
        }),
{
    let mut i: usize = 0;
    while i < 10
        invariant
            i <= 10,
            OS_LIST@.len() == 10,
            first_in(OS_LIST@, 0, text@) == first_in(OS_LIST@, i as int, text@),
        decreases 10 - i,
    {
        if contains(text, OS_LIST[i]) {
            return Some(OS_LIST[i]);
        }
        i = i + 1;
    }
    None
}

/// The labels with the host's system among them.
fn label(labels: String, sys: &Option<SysInfo>) -> (r: String)
    ensures
        r@ == labelled(labels@, opt_view(*sys)),
{
    if contains(labels.as_str(), "os=") {
        return labels;
    }
    match sys {
        Some(s) => {
            let mut text = to_lower(s.os_release.as_str());
            text.append(" ");
            text.append(to_lower(s.os_name.as_str()).as_str());
            match os_tag(text.as_str()) {
                Some(tag) => {
                    let mut labels = labels;
                    if labels.as_str().is_empty() {
                        labels.append("os=");
                    } else {
                        labels.append(";os=");
                    }
                    labels.append(tag);
                    labels
                },
                None => labels,
            }
        },
        None => labels,
    }
}

/// The host's state after the tick, what is told of it, and whether the dashboard
/// shows a change.
fn tick_host(stat: HostStat, now: u64, offline_threshold: u64, due: bool) -> (r: (
    HostStat,
    Option<Event>,
    bool,
))
    requires
        stat.latest_ts + offline_threshold <= u64::MAX,
    ensures
        r.0@ == ticked(stat@, now, offline_threshold, due),
        (match r.1 {
            Some(e) => notice(stat@, now, offline_threshold, due) == Some((e, r.0@)),
            None => notice(stat@, now, offline_threshold, due) is None,
        }),
        r.2 == shifts(stat@, now, offline_threshold, due),
{
    if stat.disabled {
        return (stat, None, false);
    }
    let ghost before = stat@;
    let mut stat = stat;
    let was_online: bool = stat.online4 || stat.online6;
    if stat.latest_ts + offline_threshold < now {
        stat.online4 = false;
        stat.online6 = false;
    }
    let mut shift: bool = was_online != (stat.online4 || stat.online6);
    stat.labels = label(stat.labels.clone(), &stat.sys_info);
    assert(stat@ =~= aged(before, now, offline_threshold));
    let mut event: Option<Event> = None;
    if stat.notify && due {
        if stat.online4 || stat.online6 {
            event = Some(Event::Custom);
        } else {
            stat.disabled = true;
            event = Some(Event::NodeDown);
            shift = true;
        }
    }
    (stat, event, shift)
}

/// Whether `a` ranks before `b` on the dashboard.
fn outranks(a: &HostStat, b: &HostStat) -> (r: bool)
    ensures
        r == ranks_before(a@, b@),
{
    if a.weight != b.weight {
        a.weight > b.weight
    } else if a.pos != b.pos {
        a.pos < b.pos
    } else {
        crate::text::before(a.alias.as_str(), b.alias.as_str())
    }
}

/// Text before a text before a third is before the third.
proof fn lemma_text_before_trans(a: Seq<char>, b: Seq<char>, c: Seq<char>)
    requires
        crate::text::text_before(a, b),
        crate::text::text_before(b, c),
    ensures
        crate::text::text_before(a, c),
    decreases a.len(),
{
    if a.len() > 0 && a[0] == b[0] && b[0] == c[0] {
        lemma_text_before_trans(a.drop_first(), b.drop_first(), c.drop_first());
    }
}

/// The order of the dashboard is transitive.
proof fn lemma_ranks_trans(a: HostStatView, b: HostStatView, c: HostStatView)
    requires
        ranks_before(a, b),
        ranks_before(b, c),
    ensures
        ranks_before(a, c),
{
    if a.weight == b.weight && b.weight == c.weight && a.pos == b.pos && b.pos == c.pos {
        lemma_text_before_trans(a.alias, b.alias, c.alias);
    }
}

/// Puts a host in its place among the ranked hosts `v`.
fn insert_ranked(v: &mut Vec<HostStat>, x: HostStat)
    requires
        ranked(stat_views(old(v)@)),
    ensures
        ranked(stat_views(final(v)@)),
        stat_views(final(v)@).to_multiset() == stat_views(old(v)@).to_multiset().insert(x@),
{
    let n: usize = v.len();
    let mut p: usize = 0;
    while p < n && !outranks(&x, &v[p])
        invariant
            p <= n,
            n == v@.len(),
            forall|i: int| 0 <= i < p ==> !ranks_before(x@, stat_views(v@)[i]),
        decreases n - p,
    {
        p = p + 1;
    }
    let ghost s = stat_views(v@);
    v.insert(p, x);
    proof {
        let t = stat_views(v@);
        assert(t =~= s.insert(p as int, x@));
        assert forall|i: int, j: int| 0 <= i < j < t.len() implies !ranks_before(t[j], t[i]) by {
            if j == p {
                assert(t[i] == s[i]);
            } else if i == p {
                assert(t[j] == s[j - 1]);
                if ranks_before(s[j - 1], x@) {
                    lemma_ranks_trans(s[j - 1], x@, s[p as int]);
                    if j - 1 == p {
                    } else {
                        assert(!ranks_before(s[j - 1], s[p as int]));
                    }
                    lemma_ranks_irreflexive(s[p as int]);
                }
            }
        }
        s.insert_ensures(p as int, x@);
        lemma_insert_multiset(s, p as int, x@);
    }
}

/// No host ranks before itself.
proof fn lemma_ranks_irreflexive(a: HostStatView)
    ensures
        !ranks_before(a, a),
{
    lemma_text_irreflexive(a.alias);
}

/// No text is before itself.
proof fn lemma_text_irreflexive(a: Seq<char>)
    ensures
        !crate::text::text_before(a, a),
    decreases a.len(),
{
    if a.len() > 0 {
        lemma_text_irreflexive(a.drop_first());
    }
}

/// Inserting an item in a list inserts it in the list's multiset.
proof fn lemma_insert_multiset<T>(s: Seq<T>, p: int, x: T)
    requires
        0 <= p <= s.len(),
    ensures
        s.insert(p, x).to_multiset() == s.to_multiset().insert(x),
{
    broadcast use vstd::seq_lib::group_to_multiset_ensures;

    let front = s.take(p);
    let back = s.skip(p);
    assert(s =~= front + back);
    assert(s.insert(p, x) =~= front.push(x) + back);
    vstd::seq_lib::lemma_multiset_commutative(front, back);
    vstd::seq_lib::lemma_multiset_commutative(front.push(x), back);
    assert(front.push(x).to_multiset() =~= front.to_multiset().insert(x));
    assert(s.insert(p, x).to_multiset() =~= s.to_multiset().insert(x));
}

/// The hosts that no group has, or that reported recently enough.
pub open spec fn kept_hosts(s: Seq<(Seq<char>, HostView)>, group_gc: u64, now: u64) -> Seq<
    (Seq<char>, HostView),
> {
    s.filter(|e: (Seq<char>, HostView)| kept(e.1.gid, e.1.latest_ts, group_gc, now))
}

/// The reports of hosts that no group has, or that reported recently enough.
pub open spec fn kept_stats(s: Seq<(Seq<char>, HostStatView)>, group_gc: u64, now: u64) -> Seq<
    (Seq<char>, HostStatView),
> {
    s.filter(|e: (Seq<char>, HostStatView)| kept(e.1.gid, e.1.latest_ts, group_gc, now))
}

/// The groups are cleared at the tick.
pub open spec fn clearing(m: MgrView, now: u64) -> bool {
    m.latest_group_gc + m.cfg.group_gc < now
}

/// The tables once the groups are cleared, where that is due.
pub open spec fn cleared(m: MgrView, now: u64) -> Tables {
    if clearing(m, now) {
        Tables {
            hosts: kept_hosts(m.tables.hosts, m.cfg.group_gc, now),
            stats: kept_stats(m.tables.stats, m.cfg.group_gc, now),
        }
    } else {
        m.tables
    }
}

/// Notifications on the state of all hosts are due.
pub open spec fn notifying(m: MgrView, now: u64) -> bool {
    m.latest_notify_ts + m.cfg.notify_interval < now
}

/// The reports after the tick.
pub open spec fn ticked_stats(m: MgrView, now: u64) -> Seq<(Seq<char>, HostStatView)> {
    cleared(m, now).stats.map_values(
        |e: (Seq<char>, HostStatView)|
            (e.0, ticked(e.1, now, m.cfg.offline_threshold, notifying(m, now))),
    )
}

/// What is told at the tick.
pub open spec fn tick_notices(m: MgrView, now: u64) -> Seq<(Event, HostStatView)> {
    notices(values(cleared(m, now).stats), now, m.cfg.offline_threshold, notifying(m, now))
}

/// The tick changes what the dashboard shows: the clearing took a host, or the tick
/// changes one.
pub open spec fn tick_changes(m: MgrView, now: u64) -> bool {
    let c = cleared(m, now);
    ||| c.hosts.len() != m.tables.hosts.len()
    ||| c.stats.len() != m.tables.stats.len()
    ||| exists|i: int|
        0 <= i < c.stats.len() && shifts(
            (#[trigger] c.stats[i]).1,
            now,
            m.cfg.offline_threshold,
            notifying(m, now),
        )
}

/// Keeping some of the pairs keeps the names distinct, and every pair kept was
/// there.
pub(crate) proof fn lemma_filter_distinct<T>(s: Seq<(Seq<char>, T)>, p: spec_fn((Seq<char>, T)) -> bool)
    requires
        distinct(s),
    ensures
        distinct(s.filter(p)),
        forall|i: int|
            0 <= i < s.filter(p).len() ==> s.contains(#[trigger] s.filter(p)[i]) && p(
                s.filter(p)[i],
            ),
    decreases s.len(),
{
    reveal(Seq::filter);
    if s.len() > 0 {
        let t = s.drop_last();
        lemma_filter_distinct(t, p);
        let f = t.filter(p);
        assert forall|i: int| 0 <= i < f.len() implies s.contains(#[trigger] f[i]) && f[i].0
            != s.last().0 by {
            assert(t.contains(f[i]));
            let k = choose|k: int| 0 <= k < t.len() && t[k] == f[i];
            assert(s[k] == t[k]);
        }
        assert(s.contains(s.last())) by {
            assert(s[s.len() - 1] == s.last());
        }
    }
}

/// Keeps the hosts that no group has, or that reported recently enough.
fn clear_hosts(hosts: Registry<Host>, group_gc: u64, now: u64) -> (r: Registry<Host>)
    requires
        hosts.wf(),
        forall|i: int|
            0 <= i < hosts@.len() && (#[trigger] hosts@[i]).1.gid.len() > 0 ==> hosts@[i].1.latest_ts
                + group_gc <= u64::MAX,
    ensures
        r.wf(),
        r@ == kept_hosts(hosts@, group_gc, now),
{
    let ghost v = hosts@;
    let ghost p = |e: (Seq<char>, HostView)| kept(e.1.gid, e.1.latest_ts, group_gc, now);
    let mut r: Registry<Host> = Registry::new();
    let ghost all = hosts.entries@;
    proof {
        reveal(Seq::filter);
        assert(v.take(0) =~= Seq::<(Seq<char>, HostView)>::empty());
        assert(r@ =~= v.take(0).filter(p));
    }
    for e in it: hosts.entries.into_iter()
        invariant
            it.seq() == all,
            v == all.map_values(|e: (String, Host)| (e.0@, e.1@)),
            p == (|e: (Seq<char>, HostView)| kept(e.1.gid, e.1.latest_ts, group_gc, now)),
            forall|i: int|
                0 <= i < v.len() && (#[trigger] v[i]).1.gid.len() > 0 ==> v[i].1.latest_ts
                    + group_gc <= u64::MAX,
            r@ == v.take(it.index() as int).filter(p),
    {
        let ghost i = it.index() as int;
        let ghost q = r@;
        proof {
            reveal(Seq::filter);
            assert(v.take(i + 1).drop_last() =~= v.take(i));
            assert(v.take(i + 1).last() == v[i]);
            assert(v[i] == (e.0@, e.1@));
        }
        if e.1.gid.as_str().is_empty() || e.1.latest_ts + group_gc >= now {
            r.entries.push(e);
            assert(r@ =~= q.push(v[i]));
        }
    }
    proof {
        assert(v.take(v.len() as int) =~= v);
        lemma_filter_distinct(v, p);
    }
    r
}

/// Keeps the reports of hosts that no group has, or that reported recently enough.
fn clear_stats(stats: Registry<HostStat>, group_gc: u64, now: u64) -> (r: Registry<HostStat>)
    requires
        stats.wf(),
        forall|i: int|
            0 <= i < stats@.len() && (#[trigger] stats@[i]).1.gid.len() > 0 ==> stats@[i].1.latest_ts
                + group_gc <= u64::MAX,
    ensures
        r.wf(),
        r@ == kept_stats(stats@, group_gc, now),
{
    let ghost v = stats@;
    let ghost p = |e: (Seq<char>, HostStatView)| kept(e.1.gid, e.1.latest_ts, group_gc, now);
    let mut r: Registry<HostStat> = Registry::new();
    let ghost all = stats.entries@;
    proof {
        reveal(Seq::filter);
        assert(v.take(0) =~= Seq::<(Seq<char>, HostStatView)>::empty());
        assert(r@ =~= v.take(0).filter(p));
    }
    for e in it: stats.entries.into_iter()
        invariant
            it.seq() == all,
            v == all.map_values(|e: (String, HostStat)| (e.0@, e.1@)),
            p == (|e: (Seq<char>, HostStatView)| kept(e.1.gid, e.1.latest_ts, group_gc, now)),
            forall|i: int|
                0 <= i < v.len() && (#[trigger] v[i]).1.gid.len() > 0 ==> v[i].1.latest_ts
                    + group_gc <= u64::MAX,
            r@ == v.take(it.index() as int).filter(p),
    {
        let ghost i = it.index() as int;
        let ghost q = r@;
        proof {
            reveal(Seq::filter);
            assert(v.take(i + 1).drop_last() =~= v.take(i));
            assert(v.take(i + 1).last() == v[i]);
            assert(v[i] == (e.0@, e.1@));
        }
        if e.1.gid.as_str().is_empty() || e.1.latest_ts + group_gc >= now {
            r.entries.push(e);
            assert(r@ =~= q.push(v[i]));
        }
    }
    proof {
        assert(v.take(v.len() as int) =~= v);
        lemma_filter_distinct(v, p);
    }
    r
}

/// What the tick makes of the hosts: their states, the notices, the dashboard's list
/// and whether one of them shifts.
struct Swept {
    stats: Registry<HostStat>,
    notifications: Vec<Notification>,
    servers: Vec<HostStat>,
    shift: bool,
}

/// Lets the time pass for each host.
fn sweep(stats: Registry<HostStat>, now: u64, offline_threshold: u64, due: bool) -> (r: Swept)
    requires
        forall|i: int|
            0 <= i < stats@.len() ==> (#[trigger] stats@[i]).1.latest_ts + offline_threshold
                <= u64::MAX,
    ensures
        r.stats@ == stats@.map_values(
            |e: (Seq<char>, HostStatView)| (e.0, ticked(e.1, now, offline_threshold, due)),
        ),
        notification_views(r.notifications@) == notices(
            values(stats@),
            now,
            offline_threshold,
            due,
        ),
        ranked(stat_views(r.servers@)),
        stat_views(r.servers@).to_multiset() == values(r.stats@).to_multiset(),
        r.shift == exists|i: int|
            0 <= i < stats@.len() && shifts(
                (#[trigger] stats@[i]).1,
                now,
                offline_threshold,
                due,
            ),
{
    broadcast use vstd::seq_lib::group_to_multiset_ensures;

    let ghost v = stats@;
    let ghost all = stats.entries@;
    let ghost f = |e: (Seq<char>, HostStatView)| (e.0, ticked(e.1, now, offline_threshold, due));
    let mut out: Registry<HostStat> = Registry::new();
    let mut notifications: Vec<Notification> = Vec::new();
    let mut servers: Vec<HostStat> = Vec::new();
    let mut shift: bool = false;
    proof {
        assert(out@ =~= v.take(0).map_values(f));
        assert(values(v).take(0) =~= Seq::<HostStatView>::empty());
        assert(notification_views(notifications@) =~= Seq::<(Event, HostStatView)>::empty());
        assert(stat_views(servers@) =~= Seq::<HostStatView>::empty());
        assert(values(out@) =~= Seq::<HostStatView>::empty());
    }
    for e in it: stats.entries.into_iter()
        invariant
            it.seq() == all,
            v == all.map_values(|e: (String, HostStat)| (e.0@, e.1@)),
            f == (|e: (Seq<char>, HostStatView)|
                (e.0, ticked(e.1, now, offline_threshold, due))),
            forall|i: int|
                0 <= i < v.len() ==> (#[trigger] v[i]).1.latest_ts + offline_threshold
                    <= u64::MAX,
            out@ == v.take(it.index() as int).map_values(f),
            notification_views(notifications@) == notices(
                values(v).take(it.index() as int),
                now,
                offline_threshold,
                due,
            ),
            ranked(stat_views(servers@)),
            stat_views(servers@).to_multiset() == values(out@).to_multiset(),
            shift == exists|i: int|
                0 <= i < it.index() && shifts((#[trigger] v[i]).1, now, offline_threshold, due),
    {
        let ghost i = it.index() as int;
        let ghost o = out@;
        let ghost ns = notifications@;
        let (name, stat) = e;
        proof {
            assert(v[i] == (name@, stat@));
            assert(values(v).take(i + 1).drop_last() =~= values(v).take(i));
            assert(values(v).take(i + 1).last() == stat@);
            assert(v.take(i + 1).map_values(f) =~= v.take(i).map_values(f).push(f(v[i])));
        }
        let (stat, event, shifted) = tick_host(stat, now, offline_threshold, due);
        match event {
            Some(event) => {
                notifications.push(Notification { event, stat: stat.clone() });
                assert(notification_views(notifications@) =~= notification_views(ns).push(
                    (event, stat@),
                ));
            },
            None => {},
        }
        if shifted {
            shift = true;
        }
        insert_ranked(&mut servers, stat.clone());
        out.entries.push((name, stat));
        proof {
            broadcast use vstd::seq_lib::group_to_multiset_ensures;

            assert(out@ =~= o.push(f(v[i])));
            assert(values(out@) =~= values(o).push(stat@));
            assert(values(o).push(stat@).to_multiset() =~= values(o).to_multiset().insert(stat@));
        }
    }
    proof {
        assert(v.take(v.len() as int) =~= v);
        assert(values(v).take(v.len() as int) =~= values(v));
    }
    Swept { stats: out, notifications, servers, shift }
}

/// The latest second in which one of the hosts reported, or zero.
fn latest_of(v: &Vec<HostStat>) -> (r: u64)
    ensures
        r == latest(stat_views(v@)),
{
    let n: usize = v.len();
    let mut m: u64 = 0;
    let mut i: usize = 0;
    while i < n
        invariant
            i <= n,
            n == v@.len(),
            m == latest(stat_views(v@).take(i as int)),
        decreases n - i,
    {
        proof {
            let s = stat_views(v@);
            assert(s.take(i + 1).drop_last() =~= s.take(i as int));
            assert(s.take(i + 1).last() == v@[i as int]@);
        }
        if v[i].latest_ts > m {
            m = v[i].latest_ts;
        }
        i = i + 1;
    }
    assert(stat_views(v@).take(n as int) =~= stat_views(v@));
    m
}

/// The tick keeps the state well formed, and leaves no host online that is late.
pub(crate) proof fn lemma_tick_wf(m: MgrView, now: u64)
    requires
        mgr_wf(m),
    ensures
        distinct(cleared(m, now).hosts),
        distinct(cleared(m, now).stats),
        distinct(ticked_stats(m, now)),
        forall|i: int|
            0 <= i < cleared(m, now).hosts.len() ==> host_fits(
                m.cfg,
                (#[trigger] cleared(m, now).hosts[i]).1.gid,
                cleared(m, now).hosts[i].1.latest_ts,
            ),
        forall|i: int|
            0 <= i < cleared(m, now).stats.len() ==> stat_fits(
                m.cfg,
                (#[trigger] cleared(m, now).stats[i]).1.gid,
                cleared(m, now).stats[i].1.latest_ts,
            ),
        forall|i: int|
            0 <= i < ticked_stats(m, now).len() ==> stat_fits(
                m.cfg,
                (#[trigger] ticked_stats(m, now)[i]).1.gid,
                ticked_stats(m, now)[i].1.latest_ts,
            ),
        forall|i: int|
            0 <= i < ticked_stats(m, now).len() ==> (#[trigger] ticked_stats(
                m,
                now,
            )[i]).1.disabled ==> !online(ticked_stats(m, now)[i].1),
        forall|i: int|
            0 <= i < ticked_stats(m, now).len() ==> fresh_if_online(
                (#[trigger] ticked_stats(m, now)[i]).1,
                m.cfg.offline_threshold,
                now,
            ),
{
    let c = cleared(m, now);
    if clearing(m, now) {
        let p = |e: (Seq<char>, HostView)| kept(e.1.gid, e.1.latest_ts, m.cfg.group_gc, now);
        let q = |e: (Seq<char>, HostStatView)| kept(e.1.gid, e.1.latest_ts, m.cfg.group_gc, now);
        lemma_filter_distinct(m.tables.hosts, p);
        lemma_filter_distinct(m.tables.stats, q);
        assert forall|i: int| 0 <= i < c.hosts.len() implies host_fits(
            m.cfg,
            (#[trigger] c.hosts[i]).1.gid,
            c.hosts[i].1.latest_ts,
        ) by {
            assert(m.tables.hosts.contains(m.tables.hosts.filter(p)[i]));
        }
        assert forall|i: int| 0 <= i < c.stats.len() implies stat_fits(
            m.cfg,
            (#[trigger] c.stats[i]).1.gid,
            c.stats[i].1.latest_ts,
        ) && (c.stats[i].1.disabled ==> !online(c.stats[i].1)) by {
            assert(m.tables.stats.contains(m.tables.stats.filter(q)[i]));
        }
    }
    let t = ticked_stats(m, now);
    assert forall|i: int, j: int| 0 <= i < j < t.len() implies t[i].0 != t[j].0 by {
        assert(c.stats[i].0 != c.stats[j].0);
    }
    assert forall|i: int| 0 <= i < t.len() implies {
        &&& stat_fits(m.cfg, (#[trigger] t[i]).1.gid, t[i].1.latest_ts)
        &&& t[i].1.disabled ==> !online(t[i].1)
        &&& fresh_if_online(t[i].1, m.cfg.offline_threshold, now)
    } by {
        assert(stat_fits(m.cfg, c.stats[i].1.gid, c.stats[i].1.latest_ts));
        assert(c.stats[i].1.disabled ==> !online(c.stats[i].1));
    }
}

/// Each host of the list is one that the tick left.
pub(crate) proof fn lemma_listed_was_ticked(
    servers: Seq<HostStatView>,
    stats: Seq<(Seq<char>, HostStatView)>,
    i: int,
)
    requires
        servers.to_multiset() == values(stats).to_multiset(),
        0 <= i < servers.len(),
    ensures
        exists|j: int| 0 <= j < stats.len() && (#[trigger] stats[j]).1 == servers[i],
{
    broadcast use vstd::seq_lib::group_to_multiset_ensures;

    assert(servers.contains(servers[i]));
    assert(servers.to_multiset().count(servers[i]) > 0);
    assert(values(stats).contains(servers[i]));
    let j = choose|j: int| 0 <= j < values(stats).len() && values(stats)[j] == servers[i];
    assert(stats[j].1 == servers[i]);
}

impl StatsMgr {
    /// Lets the time pass up to the second `now`: clears the groups and tells of the
    /// hosts where that is due, and lists the hosts for the dashboard.
    pub fn tick(&mut self, now: u64) -> (r: TickReport)
        requires
            old(self).wf(),
            now_fits(old(self)@.cfg, now),
        ensures
            final(self).wf(),
            final(self)@.tables == (Tables {
                hosts: cleared(old(self)@, now).hosts,
                stats: ticked_stats(old(self)@, now),
            }),
            final(self)@.cfg == old(self)@.cfg,
            final(self)@.json == old(self)@.json,
            final(self)@.updated == now,
            final(self)@.latest_group_gc == (if clearing(old(self)@, now) {
                now
            } else {
                old(self)@.latest_group_gc
            }),
            final(self)@.latest_notify_ts == (if tick_notices(old(self)@, now).len() > 0 {
                now
            } else {
                old(self)@.latest_notify_ts
            }),
            notification_views(r.notifications@) == tick_notices(old(self)@, now),
            ranked(final(self)@.servers),
            final(self)@.servers.to_multiset() == values(final(self)@.tables.stats).to_multiset(),
            forall|i: int|
                0 <= i < final(self)@.servers.len() ==> fresh_if_online(
                    #[trigger] final(self)@.servers[i],
                    final(self)@.cfg.offline_threshold,
                    final(self)@.updated,
                ),
            r.serialize == (tick_changes(old(self)@, now) || latest(final(self)@.servers) > old(
                self,
            )@.last_serialized_ts),
            final(self)@.last_serialized_ts == (if r.serialize {
                latest(final(self)@.servers)
            } else {
                old(self)@.last_serialized_ts
            }),
    {
        let ghost m = self@;
        proof {
            lemma_tick_wf(m, now);
        }
        let mut changed: bool = false;
        let mut hosts: Registry<Host> = Registry::new();
        let mut stats: Registry<HostStat> = Registry::new();
        std::mem::swap(&mut hosts, &mut self.hosts);
        std::mem::swap(&mut stats, &mut self.stats);
        if self.latest_group_gc + self.cfg.group_gc < now {
            self.latest_group_gc = now;
            let hosts_before: usize = hosts.entries.len();
            let stats_before: usize = stats.entries.len();
            hosts = clear_hosts(hosts, self.cfg.group_gc, now);
            stats = clear_stats(stats, self.cfg.group_gc, now);
            changed = hosts.entries.len() != hosts_before || stats.entries.len() != stats_before;
        }
        assert(hosts@ == cleared(m, now).hosts);
        assert(stats@ == cleared(m, now).stats);
        let due: bool = self.latest_notify_ts + self.cfg.notify_interval < now;
        let swept = sweep(stats, now, self.cfg.offline_threshold, due);
        assert(swept.stats@ == ticked_stats(m, now));
        if swept.shift {
            changed = true;
        }
        if swept.notifications.len() > 0 {
            self.latest_notify_ts = now;
        }
        let latest_ts: u64 = latest_of(&swept.servers);
        let serialize: bool = changed || latest_ts > self.last_serialized_ts;
        if serialize {
            self.last_serialized_ts = latest_ts;
        }
        self.hosts = hosts;
        self.stats = swept.stats;
        self.stats_data = StatsResp { updated: now, servers: swept.servers };
        proof {
            assert forall|i: int| 0 <= i < self@.servers.len() implies fresh_if_online(
                #[trigger] self@.servers[i],
                self@.cfg.offline_threshold,
                now,
            ) by {
                lemma_listed_was_ticked(self@.servers, ticked_stats(m, now), i);
            }
        }
        TickReport { notifications: swept.notifications, serialize }
    }
}

} // verus!
