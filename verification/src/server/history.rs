//! What the dashboard asks of the hosts: how they are now, and how they were over a span
//! of time.
use vstd::prelude::*;
use crate::payload::{
    disk_views, opt_view, stat_views, DiskInfo, HostStat, IpInfo, Real, StatsResp, SysInfo,
};
use crate::registry::{lookup, put, Registry};
use crate::server::db::{DiskRecord, HostStatRecord};
use crate::server::stats::{MgrView, StatsMgr};

verus! {

/// A part of a whole, of which the percentage is shown; there is none of nothing.
#[derive(Clone, Copy, Debug, PartialEq, Eq)]
pub struct Share {
    pub part: i64,
    pub whole: i64,
}

/// The part `used` of `total`, where there is a total.
pub open spec fn share_of(used: i64, total: i64) -> Option<Share> {
    if total > 0 {
        Some(Share { part: used, whole: total })
    } else {
        None
    }
}

/// The processor's use at a point in time.
#[derive(Clone, Copy, Debug, PartialEq, Eq)]
pub struct TimeValue {
    pub timestamp: i64,
    pub value: Real,
}

/// The memory, or a disk, at a point in time: the part in use, shown in percent and as
/// zero where there is none.
#[derive(Clone, Copy, Debug, PartialEq, Eq)]
pub struct SpaceValue {
    pub timestamp: i64,
    pub value: Option<Share>,
    pub total: i64,
    pub used: i64,
}

/// The traffic in one direction at a point in time: the speed, and the bytes so far.
#[derive(Clone, Copy, Debug, PartialEq, Eq)]
pub struct NetValue {
    pub timestamp: i64,
    pub value: i64,
    pub total: i64,
}

/// How a host was over a span of time.
#[derive(Debug)]
pub struct ServerHistory {
    pub name: String,
    pub alias: String,
    pub online: bool,
    pub data_points: usize,
    pub cpu: Vec<TimeValue>,
    pub memory: Vec<SpaceValue>,
    pub network_in: Vec<NetValue>,
    pub network_out: Vec<NetValue>,
    pub disks: Registry<Vec<SpaceValue>>,
}

/// The processor's use over the records.
pub open spec fn cpu_series(r: Seq<HostStatRecord>) -> Seq<TimeValue> {
    r.map_values(|x: HostStatRecord| TimeValue { timestamp: x.timestamp, value: x.cpu })
}

/// The memory in use over the records.
pub open spec fn memory_series(r: Seq<HostStatRecord>) -> Seq<SpaceValue> {
    r.map_values(
        |x: HostStatRecord|
            SpaceValue {
                timestamp: x.timestamp,
                value: share_of(x.memory_used, x.memory_total),
                total: x.memory_total,
                used: x.memory_used,
            },
    )
}

/// The traffic received over the records.
pub open spec fn in_series(r: Seq<HostStatRecord>) -> Seq<NetValue> {
    r.map_values(
        |x: HostStatRecord|
            NetValue { timestamp: x.timestamp, value: x.network_in_speed, total: x.network_in },
    )
}

/// The traffic sent over the records.
pub open spec fn out_series(r: Seq<HostStatRecord>) -> Seq<NetValue> {
    r.map_values(
        |x: HostStatRecord|
            NetValue { timestamp: x.timestamp, value: x.network_out_speed, total: x.network_out },
    )
}

/// A disk of a record as a point in time.
pub open spec fn disk_point(timestamp: i64, d: DiskRecord) -> SpaceValue {
    SpaceValue {
        timestamp,
        value: share_of(d.used, d.total),
        total: d.total,
        used: d.used,
    }
}

/// The points under a name; none where the name is not there.
pub open spec fn points(s: Seq<(Seq<char>, Seq<SpaceValue>)>, k: Seq<char>) -> Seq<SpaceValue> {
    match lookup(s, k) {
        Some(v) => v,
        None => Seq::empty(),
    }
}

/// The table with one more point under a name.
pub open spec fn with_point(
    s: Seq<(Seq<char>, Seq<SpaceValue>)>,
    k: Seq<char>,
    p: SpaceValue,
) -> Seq<(Seq<char>, Seq<SpaceValue>)> {
    put(s, k, points(s, k).push(p))
}

/// The table with the disks of a record added.
pub open spec fn with_disks(
    s: Seq<(Seq<char>, Seq<SpaceValue>)>,
    timestamp: i64,
    disks: Seq<DiskRecord>,
) -> Seq<(Seq<char>, Seq<SpaceValue>)>
    decreases disks.len(),
{
    if disks.len() == 0 {
        s
    } else {
        let d = disks.last();
        with_point(
            with_disks(s, timestamp, disks.drop_last()),
            d.mount_point@,
            disk_point(timestamp, d),
        )
    }
}

/// The disks over the records, by where they are mounted.
pub open spec fn disk_series(r: Seq<HostStatRecord>) -> Seq<(Seq<char>, Seq<SpaceValue>)>
    decreases r.len(),
{
    if r.len() == 0 {
        Seq::empty()
    } else {
        with_disks(disk_series(r.drop_last()), r.last().timestamp, r.last().disks@)
    }
}

/// The history tells how the host named `name` was by the records `r`, of which there is
/// one; its alias and whether it is online are those of the last.
pub open spec fn tells(h: ServerHistory, name: Seq<char>, r: Seq<HostStatRecord>) -> bool {
    &&& h.name@ == name
    &&& h.alias@ == r.last().alias@
    &&& h.online == r.last().online
    &&& h.data_points == r.len()
    &&& h.cpu@ == cpu_series(r)
    &&& h.memory@ == memory_series(r)
    &&& h.network_in@ == in_series(r)
    &&& h.network_out@ == out_series(r)
    &&& h.disks.wf()
    &&& h.disks@ == disk_series(r)
}

/// The hosts that have records.
pub open spec fn with_records(s: Seq<(Seq<char>, Seq<HostStatRecord>)>) -> Seq<
    (Seq<char>, Seq<HostStatRecord>),
> {
    s.filter(|e: (Seq<char>, Seq<HostStatRecord>)| e.1.len() > 0)
}

/// The points that the disks mounted at `k` give, in the order of the disks.
pub open spec fn disk_points(timestamp: i64, disks: Seq<DiskRecord>, k: Seq<char>) -> Seq<
    SpaceValue,
>
    decreases disks.len(),
{
    if disks.len() == 0 {
        Seq::empty()
    } else {
        let front = disk_points(timestamp, disks.drop_last(), k);
        if disks.last().mount_point@ == k {
            front.push(disk_point(timestamp, disks.last()))
        } else {
            front
        }
    }
}

/// The points that the records give of the disks mounted at `k`, in the order of the
/// records.
pub open spec fn mount_points(r: Seq<HostStatRecord>, k: Seq<char>) -> Seq<SpaceValue>
    decreases r.len(),
{
    if r.len() == 0 {
        Seq::empty()
    } else {
        mount_points(r.drop_last(), k) + disk_points(r.last().timestamp, r.last().disks@, k)
    }
}

proof fn lemma_with_disks(
    s: Seq<(Seq<char>, Seq<SpaceValue>)>,
    timestamp: i64,
    disks: Seq<DiskRecord>,
    k: Seq<char>,
)
    ensures
        points(with_disks(s, timestamp, disks), k) == points(s, k) + disk_points(
            timestamp,
            disks,
            k,
        ),
    decreases disks.len(),
{
    if disks.len() == 0 {
        assert(points(s, k) + Seq::<SpaceValue>::empty() =~= points(s, k));
    } else {
        lemma_with_disks(s, timestamp, disks.drop_last(), k);
        let t = with_disks(s, timestamp, disks.drop_last());
        let d = disks.last();
        crate::registry::law_lookup_put(
            t,
            d.mount_point@,
            points(t, d.mount_point@).push(disk_point(timestamp, d)),
            k,
        );
        if d.mount_point@ == k {
            assert((points(s, k) + disk_points(timestamp, disks.drop_last(), k)).push(
                disk_point(timestamp, d),
            ) =~= points(s, k) + disk_points(timestamp, disks, k));
        }
    }
}

/// Each mounted disk has all the points that the records give of it, in their order, and
/// no others.
pub proof fn law_disk_series_complete(r: Seq<HostStatRecord>, k: Seq<char>)
    ensures
        points(disk_series(r), k) == mount_points(r, k),
    decreases r.len(),
{
    if r.len() > 0 {
        law_disk_series_complete(r.drop_last(), k);
        lemma_with_disks(
            disk_series(r.drop_last()),
            r.last().timestamp,
            r.last().disks@,
            k,
        );
    }
}

/// Every series of a host has a point for each record, in the order of the records.
pub proof fn law_series_follow_records(r: Seq<HostStatRecord>, i: int)
    requires
        0 <= i < r.len(),
    ensures
        cpu_series(r).len() == r.len(),
        memory_series(r).len() == r.len(),
        in_series(r).len() == r.len(),
        out_series(r).len() == r.len(),
        cpu_series(r)[i].timestamp == r[i].timestamp,
        memory_series(r)[i].timestamp == r[i].timestamp,
        in_series(r)[i].timestamp == r[i].timestamp,
        out_series(r)[i].timestamp == r[i].timestamp,
{
}

/// The part `used` of `total`, where there is a total.
fn share(used: i64, total: i64) -> (r: Option<Share>)
    ensures
        r == share_of(used, total),
{
    if total > 0 {
        Some(Share { part: used, whole: total })
    } else {
        None
    }
}

/// Adds a point under a name.
fn add_point(s: &mut Registry<Vec<SpaceValue>>, k: &str, p: SpaceValue)
    requires
        old(s).wf(),
    ensures
        final(s).wf(),
        final(s)@ == with_point(old(s)@, k@, p),
{
    let mut v: Vec<SpaceValue> = Vec::new();
    match s.find(k) {
        Some(i) => {
            v = s.entries[i].1.clone();
            assert(v@ =~= s.entries@[i as int].1@);
        },
        None => {},
    }
    v.push(p);
    s.insert(k.to_owned(), v);
}

/// Adds the disks of a record.
fn add_disks(s: &mut Registry<Vec<SpaceValue>>, r: &HostStatRecord)
    requires
        old(s).wf(),
    ensures
        final(s).wf(),
        final(s)@ == with_disks(old(s)@, r.timestamp, r.disks@),
{
    let n: usize = r.disks.len();
    let mut i: usize = 0;
    let ghost s0 = s@;
    while i < n
        invariant
            i <= n,
            n == r.disks@.len(),
            s.wf(),
            s@ == with_disks(s0, r.timestamp, r.disks@.take(i as int)),
        decreases n - i,
    {
        proof {
            assert(r.disks@.take(i + 1).drop_last() =~= r.disks@.take(i as int));
            assert(r.disks@.take(i + 1).last() == r.disks@[i as int]);
        }
        let d = &r.disks[i];
        add_point(
            s,
            d.mount_point.as_str(),
            SpaceValue {
                timestamp: r.timestamp,
                value: share(d.used, d.total),
                total: d.total,
                used: d.used,
            },
        );
        i = i + 1;
    }
    assert(r.disks@.take(n as int) =~= r.disks@);
}

/// How the host was by its records.
pub fn history_of(name: &str, r: &Vec<HostStatRecord>) -> (h: ServerHistory)
    requires
        r@.len() > 0,
    ensures
        tells(h, name@, r@),
{
    let n: usize = r.len();
    let mut cpu: Vec<TimeValue> = Vec::new();
    let mut memory: Vec<SpaceValue> = Vec::new();
    let mut network_in: Vec<NetValue> = Vec::new();
    let mut network_out: Vec<NetValue> = Vec::new();
    let mut disks: Registry<Vec<SpaceValue>> = Registry::new();
    let mut i: usize = 0;
    proof {
        assert(cpu@ =~= cpu_series(r@).take(0));
        assert(memory@ =~= memory_series(r@).take(0));
        assert(network_in@ =~= in_series(r@).take(0));
        assert(network_out@ =~= out_series(r@).take(0));
    }
    while i < n
        invariant
            i <= n,
            n == r@.len(),
            cpu@ == cpu_series(r@).take(i as int),
            memory@ == memory_series(r@).take(i as int),
            network_in@ == in_series(r@).take(i as int),
            network_out@ == out_series(r@).take(i as int),
            disks.wf(),
            disks@ == disk_series(r@.take(i as int)),
        decreases n - i,
    {
        let x = &r[i];
        proof {
            let k = i as int;
            assert(r@.take(k + 1).drop_last() =~= r@.take(k));
            assert(r@.take(k + 1).last() == r@[k]);
            assert(cpu_series(r@).take(k + 1) =~= cpu_series(r@).take(k).push(cpu_series(r@)[k]));
            assert(memory_series(r@).take(k + 1) =~= memory_series(r@).take(k).push(
                memory_series(r@)[k],
            ));
            assert(in_series(r@).take(k + 1) =~= in_series(r@).take(k).push(in_series(r@)[k]));
            assert(out_series(r@).take(k + 1) =~= out_series(r@).take(k).push(out_series(r@)[k]));
        }
        cpu.push(TimeValue { timestamp: x.timestamp, value: x.cpu });
        memory.push(
            SpaceValue {
                timestamp: x.timestamp,
                value: share(x.memory_used, x.memory_total),
                total: x.memory_total,
                used: x.memory_used,
            },
        );
        network_in.push(
            NetValue { timestamp: x.timestamp, value: x.network_in_speed, total: x.network_in },
        );
        network_out.push(
            NetValue { timestamp: x.timestamp, value: x.network_out_speed, total: x.network_out },
        );
        add_disks(&mut disks, x);
        i = i + 1;
    }
    proof {
        assert(r@.take(n as int) =~= r@);
        assert(cpu@ =~= cpu_series(r@));
        assert(memory@ =~= memory_series(r@));
        assert(network_in@ =~= in_series(r@));
        assert(network_out@ =~= out_series(r@));
    }
    let latest = &r[n - 1];
    ServerHistory {
        name: name.to_owned(),
        alias: latest.alias.clone(),
        online: latest.online,
        data_points: n,
        cpu,
        memory,
        network_in,
        network_out,
        disks,
    }
}

/// What the dashboard shows of a host beyond its state: the address and the system, and
/// the disks where there are any.
#[derive(Debug)]
pub struct ServerExtras {
    pub ip_info: Option<IpInfo>,
    pub sys_info: Option<SysInfo>,
    pub disks: Option<Vec<DiskInfo>>,
}

/// The extras are those of the host's state.
pub open spec fn extras_of(e: ServerExtras, s: HostStat) -> bool {
    &&& opt_view(e.ip_info) == s@.ip_info
    &&& opt_view(e.sys_info) == s@.sys_info
    &&& match e.disks {
        Some(d) => s@.disks.len() > 0 && disk_views(d@) == s@.disks,
        None => s@.disks.len() == 0,
    }
}

impl StatsMgr {
    /// How the hosts were by their records, host by host.
    pub fn get_stats_by_timerange(stats: &Registry<Vec<HostStatRecord>>) -> (r: Vec<ServerHistory>)
        ensures
            r@.len() == with_records(stats@).len(),
            forall|i: int|
                0 <= i < r@.len() ==> tells(
                    #[trigger] r@[i],
                    with_records(stats@)[i].0,
                    with_records(stats@)[i].1,
                ),
    {
        let ghost v = stats@;
        let ghost p = |e: (Seq<char>, Seq<HostStatRecord>)| e.1.len() > 0;
        let n: usize = stats.entries.len();
        let mut r: Vec<ServerHistory> = Vec::new();
        let mut i: usize = 0;
        proof {
            reveal(Seq::filter);
            assert(v.take(0) =~= Seq::<(Seq<char>, Seq<HostStatRecord>)>::empty());
        }
        while i < n
            invariant
                i <= n,
                n == stats.entries@.len(),
                v == stats@,
                p == (|e: (Seq<char>, Seq<HostStatRecord>)| e.1.len() > 0),
                r@.len() == v.take(i as int).filter(p).len(),
                forall|k: int|
                    0 <= k < r@.len() ==> tells(
                        #[trigger] r@[k],
                        v.take(i as int).filter(p)[k].0,
                        v.take(i as int).filter(p)[k].1,
                    ),
            decreases n - i,
        {
            let e = &stats.entries[i];
            proof {
                reveal(Seq::filter);
                assert(v.take(i + 1).drop_last() =~= v.take(i as int));
                assert(v.take(i + 1).last() == v[i as int]);
                assert(v[i as int] == (e.0@, e.1@));
            }
            if e.1.len() > 0 {
                let h = history_of(e.0.as_str(), &e.1);
                r.push(h);
            }
            i = i + 1;
        }
        assert(v.take(n as int) =~= v);
        r
    }

    /// The hosts as of the last tick.
    pub fn get_stats(&self) -> (r: &StatsResp)
        ensures
            r.updated == self@.updated,
            stat_views(r.servers@) == self@.servers,
    {
        &self.stats_data
    }

    /// The text of the hosts as it was last written.
    pub fn get_stats_json(&self) -> (r: String)
        ensures
            r@ == self@.json,
    {
        self.resp_json.clone()
    }

    /// Takes the text that was written of the hosts.
    pub fn set_stats_json(&mut self, json: String)
        ensures
            final(self)@ == (MgrView { json: json@, ..old(self)@ }),
    {
        self.resp_json = json;
    }

    /// What becomes of a report that came in: it is passed on to be taken in where it
    /// could be read, and dropped otherwise. Neither is a failure.
    pub fn report(&self, parsed: Option<HostStat>) -> (r: Result<Option<HostStat>, ()>)
        ensures
            r == Ok::<Option<HostStat>, ()>(parsed),
    {
        match parsed {
            Some(stat) => Ok(Some(stat)),
            None => Ok(None),
        }
    }

    /// What the dashboard shows of each host beyond its state, host by host.
    pub fn get_all_info(&self) -> (r: Vec<ServerExtras>)
        ensures
            r@.len() == self@.servers.len(),
            forall|i: int|
                0 <= i < r@.len() ==> extras_of(
                    #[trigger] r@[i],
                    self.stats_data.servers@[i],
                ),
    {
        let n: usize = self.stats_data.servers.len();
        let mut r: Vec<ServerExtras> = Vec::new();
        let mut i: usize = 0;
        while i < n
            invariant
                i <= n,
                n == self.stats_data.servers@.len(),
                r@.len() == i,
                forall|k: int|
                    0 <= k < i ==> extras_of(#[trigger] r@[k], self.stats_data.servers@[k]),
            decreases n - i,
        {
            let s = &self.stats_data.servers[i];
            let disks = if s.disks.len() > 0 {
                let d = s.disks.clone();
                assert(d@ =~= s.disks@);
                Some(d)
            } else {
                None
            };
            r.push(
                ServerExtras { ip_info: s.ip_info.clone(), sys_info: s.sys_info.clone(), disks },
            );
            i = i + 1;
        }
        r
    }
}

} // verus!
