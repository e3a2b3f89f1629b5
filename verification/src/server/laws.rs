//! What holds of the state of all hosts, whatever is reported and however time passes.
use vstd::prelude::*;
use crate::clock::LocalTime;
use crate::decimal::{digit_char, numeral, numeral2};
use crate::payload::{Event, HostStatView, HostView, SysInfoView};
use crate::registry::{distinct, law_lookup_put, lemma_lookup_place, lookup, place, values};
use crate::server::stats::{
    acceptable, adopted, cleared, clearing, completed, counter_views, first_in, host_fits, host_of,
    ingested, kept, labelled, latest, lemma_filter_distinct, lemma_listed_was_ticked, lemma_tick_wf,
    loaded, mgr_wf, notice, notices, notification_views, notifying, now_fits, online, os_text,
    ranked, ranks_before, shifts, stat_fits, tick_changes, tick_notices, ticked, ticked_stats,
    uptime_text, Drop, Intervals, MgrView, Notification, Outcome, OutcomeView, Tables, OS_LIST,
};
use crate::text::{contains_text, occurs_at};

verus! {

// ---------------------------------------------------------------------------
// Reports
// ---------------------------------------------------------------------------

/// A report changes nothing of the other hosts.
pub proof fn law_report_touches_its_host_alone(
    tables: Tables,
    stat: HostStatView,
    inst: Option<HostView>,
    t: LocalTime,
    offline_threshold: u64,
    other: Seq<char>,
)
    requires
        other != stat.name,
    ensures
        lookup(ingested(tables, stat, inst, t, offline_threshold).0.hosts, other) == lookup(
            tables.hosts,
            other,
        ),
        lookup(ingested(tables, stat, inst, t, offline_threshold).0.stats, other) == lookup(
            tables.stats,
            other,
        ),
{
    let (after, outcome) = ingested(tables, stat, inst, t, offline_threshold);
    let prior = lookup(tables.hosts, stat.name);
    match inst {
        Some(h) => {
            law_lookup_put(
                tables.hosts,
                stat.name,
                crate::server::stats::inheriting(h, prior),
                other,
            );
        },
        None => {},
    }
    match adopted(tables.hosts, stat, inst) {
        Some(hosts) => {
            match lookup(hosts, stat.name) {
                Some(info) => {
                    law_lookup_put(
                        hosts,
                        stat.name,
                        crate::server::stats::counted(info, stat, t),
                        other,
                    );
                    match outcome {
                        OutcomeView::Stored { stat: full, network_reset, node_up } => {
                            law_lookup_put(tables.stats, stat.name, full, other);
                        },
                        OutcomeView::Dropped(_) => {},
                    }
                },
                None => {},
            }
        },
        None => {},
    }
}

/// A report that is taken in is found under its host's name as it was completed, and
/// one that is dropped leaves all the reports as they were.
pub proof fn law_report_is_found(
    tables: Tables,
    stat: HostStatView,
    inst: Option<HostView>,
    t: LocalTime,
    offline_threshold: u64,
)
    ensures
        (match ingested(tables, stat, inst, t, offline_threshold).1 {
            OutcomeView::Stored { stat: full, network_reset, node_up } => lookup(
                ingested(tables, stat, inst, t, offline_threshold).0.stats,
                stat.name,
            ) == Some(full) && full.name == stat.name,
            OutcomeView::Dropped(_) => ingested(tables, stat, inst, t, offline_threshold).0.stats
                == tables.stats,
        }),
{
    match ingested(tables, stat, inst, t, offline_threshold).1 {
        OutcomeView::Stored { stat: full, network_reset, node_up } => {
            law_lookup_put(tables.stats, stat.name, full, stat.name);
        },
        OutcomeView::Dropped(_) => {},
    }
}

/// Which reports are taken in: those of a host that is configured, or whose group is,
/// and that is not switched off.
pub proof fn law_who_is_heard(
    tables: Tables,
    stat: HostStatView,
    inst: Option<HostView>,
    t: LocalTime,
    offline_threshold: u64,
)
    ensures
        ingested(tables, stat, inst, t, offline_threshold).1 is Stored <==> (host_of(
            tables.hosts,
            stat,
            inst,
        ) matches Some(h) && !h.disabled),
        ingested(tables, stat, inst, t, offline_threshold).1 == OutcomeView::Dropped(
            Drop::UnknownGroup,
        ) <==> stat.gid.len() > 0 && inst is None && !(lookup(tables.hosts, stat.name) matches Some(
            h,
        ) && h.gid == stat.gid),
{
}

/// What is known of a host's address and system is not lost by a report that does not
/// say it; one that says it is believed.
pub proof fn law_info_is_kept(
    tables: Tables,
    stat: HostStatView,
    inst: Option<HostView>,
    t: LocalTime,
    offline_threshold: u64,
)
    ensures
        ingested(tables, stat, inst, t, offline_threshold).1 matches OutcomeView::Stored {
            stat: full,
            network_reset,
            node_up,
        } ==> {
            &&& stat.ip_info is Some ==> full.ip_info == stat.ip_info
            &&& stat.sys_info is Some ==> full.sys_info == stat.sys_info
            &&& lookup(tables.stats, stat.name) matches Some(pre) ==> {
                &&& stat.ip_info is None ==> full.ip_info == pre.ip_info
                &&& stat.sys_info is None ==> full.sys_info == pre.sys_info
            }
        },
{
}

/// A host whose traffic the server counts never shows less of it than it had at the
/// start of the period, unless its counter stands at zero.
pub proof fn law_traffic_of_the_period(info: HostView, stat: HostStatView, t: LocalTime)
    requires
        !stat.vnstat,
        !crate::server::stats::restarts(info, stat, t),
    ensures
        completed(info, stat, t).last_network_in == info.last_network_in,
        completed(info, stat, t).last_network_out == info.last_network_out,
        stat.network_in == 0 || completed(info, stat, t).last_network_in <= stat.network_in,
{
}

/// Where the traffic starts anew, the host's counters are those of the report; they
/// stay as they are otherwise.
pub proof fn law_counters_follow_the_period(
    tables: Tables,
    stat: HostStatView,
    inst: Option<HostView>,
    t: LocalTime,
    offline_threshold: u64,
)
    ensures
        ingested(tables, stat, inst, t, offline_threshold).1 matches OutcomeView::Stored {
            stat: full,
            network_reset,
            node_up,
        } ==> {
            let before = host_of(tables.hosts, stat, inst);
            let after = lookup(
                ingested(tables, stat, inst, t, offline_threshold).0.hosts,
                stat.name,
            );
            &&& before is Some
            &&& after is Some
            &&& network_reset ==> after->0.last_network_in == stat.network_in
                && after->0.last_network_out == stat.network_out
            &&& !network_reset ==> after == before
        },
{
    match adopted(tables.hosts, stat, inst) {
        Some(hosts) => match lookup(hosts, stat.name) {
            Some(info) => {
                law_lookup_put(
                    hosts,
                    stat.name,
                    crate::server::stats::counted(info, stat, t),
                    stat.name,
                );
            },
            None => {},
        },
        None => {},
    }
}

/// A host that changes its group keeps its traffic counters.
pub proof fn law_group_change_keeps_counters(
    hosts: Seq<(Seq<char>, HostView)>,
    stat: HostStatView,
    inst: HostView,
)
    ensures
        (match lookup(hosts, stat.name) {
            Some(o) => host_of(hosts, stat, Some(inst)) matches Some(h) && h.last_network_in
                == o.last_network_in && h.last_network_out == o.last_network_out,
            None => stat.gid.len() > 0 ==> host_of(hosts, stat, Some(inst)) == Some(inst),
        }),
{
    let prior = lookup(hosts, stat.name);
    law_lookup_put(
        hosts,
        stat.name,
        crate::server::stats::inheriting(inst, prior),
        stat.name,
    );
}

// ---------------------------------------------------------------------------
// The passing of time
// ---------------------------------------------------------------------------

/// A host that has not reported for longer than the threshold is offline after the
/// tick, and one that has is as it reported.
pub proof fn law_late_hosts_are_offline(
    stat: HostStatView,
    now: u64,
    offline_threshold: u64,
    due: bool,
)
    requires
        stat.disabled ==> !online(stat),
    ensures
        stat.latest_ts + offline_threshold < now ==> !online(
            ticked(stat, now, offline_threshold, due),
        ),
        stat.latest_ts + offline_threshold >= now ==> {
            &&& ticked(stat, now, offline_threshold, due).online4 == stat.online4
            &&& ticked(stat, now, offline_threshold, due).online6 == stat.online6
        },
{
}

/// Of the hosts that a tick publishes, each that is online reported within the
/// threshold, and the tick took no host that did so offline: whatever it publishes of
/// such a host was there before.
pub proof fn law_published_online_hosts_are_fresh(
    m: MgrView,
    now: u64,
    servers: Seq<HostStatView>,
    i: int,
)
    requires
        mgr_wf(m),
        servers.to_multiset() == values(ticked_stats(m, now)).to_multiset(),
        0 <= i < servers.len(),
    ensures
        online(servers[i]) ==> servers[i].latest_ts + m.cfg.offline_threshold >= now,
        servers[i].disabled ==> !online(servers[i]),
        exists|j: int|
            0 <= j < m.tables.stats.len() && {
                let before = (#[trigger] m.tables.stats[j]).1;
                &&& servers[i] == ticked(before, now, m.cfg.offline_threshold, notifying(m, now))
                &&& servers[i].latest_ts == before.latest_ts
                &&& servers[i].latest_ts + m.cfg.offline_threshold >= now ==> servers[i].online4
                    == before.online4 && servers[i].online6 == before.online6
            },
{
    let t = ticked_stats(m, now);
    let c = cleared(m, now).stats;
    lemma_tick_wf(m, now);
    lemma_listed_was_ticked(servers, t, i);
    let k = choose|k: int| 0 <= k < t.len() && (#[trigger] t[k]).1 == servers[i];
    assert(t[k].1 == ticked(c[k].1, now, m.cfg.offline_threshold, notifying(m, now)));
    lemma_cleared_was_there(m, now, k);
    let j = choose|j: int| 0 <= j < m.tables.stats.len() && #[trigger] m.tables.stats[j] == c[k];
    law_late_hosts_are_offline(
        m.tables.stats[j].1,
        now,
        m.cfg.offline_threshold,
        notifying(m, now),
    );
}

proof fn lemma_cleared_was_there(m: MgrView, now: u64, k: int)
    requires
        mgr_wf(m),
        0 <= k < cleared(m, now).stats.len(),
    ensures
        exists|j: int|
            0 <= j < m.tables.stats.len() && #[trigger] m.tables.stats[j] == cleared(
                m,
                now,
            ).stats[k],
{
    let s = m.tables.stats;
    if clearing(m, now) {
        let q = |e: (Seq<char>, HostStatView)| kept(e.1.gid, e.1.latest_ts, m.cfg.group_gc, now);
        lemma_filter_distinct(s, q);
        assert(s.contains(s.filter(q)[k]));
        let j = choose|j: int| 0 <= j < s.len() && s[j] == s.filter(q)[k];
        assert(s[j] == cleared(m, now).stats[k]);
    } else {
        assert(s[k] == cleared(m, now).stats[k]);
    }
}

/// A host is told to be down only where it is offline and its notifications are on; it
/// is then switched off, and no later tick tells of it.
pub proof fn law_down_is_told_once(
    stat: HostStatView,
    now: u64,
    offline_threshold: u64,
    due: bool,
    later: u64,
    later_due: bool,
)
    requires
        notice(stat, now, offline_threshold, due) matches Some((Event::NodeDown, _)),
    ensures
        stat.notify,
        due,
        !online(ticked(stat, now, offline_threshold, due)),
        ticked(stat, now, offline_threshold, due).disabled,
        notice(ticked(stat, now, offline_threshold, due), later, offline_threshold, later_due)
            is None,
        ticked(ticked(stat, now, offline_threshold, due), later, offline_threshold, later_due)
            == ticked(stat, now, offline_threshold, due),
{
}

/// A host that is switched off because it is down is switched on by its next report.
pub proof fn law_report_ends_the_silence(
    tables: Tables,
    stat: HostStatView,
    inst: Option<HostView>,
    t: LocalTime,
    offline_threshold: u64,
)
    ensures
        ingested(tables, stat, inst, t, offline_threshold).1 matches OutcomeView::Stored {
            stat: full,
            network_reset,
            node_up,
        } ==> !full.disabled,
{
}

/// A second tick in the same second, with no notifications due, changes nothing of a
/// host.
pub proof fn law_tick_settles(stat: HostStatView, now: u64, offline_threshold: u64, due: bool)
    ensures
        ticked(ticked(stat, now, offline_threshold, due), now, offline_threshold, false) == ticked(
            stat,
            now,
            offline_threshold,
            due,
        ),
{
    if !stat.disabled {
        law_label_is_added_once(stat.labels, stat.sys_info);
        let once = ticked(stat, now, offline_threshold, due);
        assert(ticked(once, now, offline_threshold, false) =~= once);
    }
}

/// The host's system is added to the labels once: labels that name a system stay as
/// they are.
pub proof fn law_label_is_added_once(labels: Seq<char>, sys: Option<SysInfoView>)
    ensures
        labelled(labelled(labels, sys), sys) == labelled(labels, sys),
        labels.len() <= labelled(labels, sys).len(),
        labelled(labels, sys).take(labels.len() as int) == labels,
{
    reveal_strlit("os=");
    reveal_strlit(";os=");
    let os = "os="@;
    let l = labelled(labels, sys);
    assert(labels.take(labels.len() as int) =~= labels);
    if !contains_text(labels, os) && sys is Some {
        match first_in(OS_LIST@, 0, os_text(sys->0)) {
            Some(s) => {
                let n = labels.len() as int;
                assert(l.take(n) =~= labels);
                if n == 0 {
                    assert(l.subrange(0, 3) =~= os);
                    assert(occurs_at(l, os, 0));
                } else {
                    assert(l.subrange(n + 1, n + 4) =~= os);
                    assert(occurs_at(l, os, n + 1));
                }
                assert(contains_text(l, os));
            },
            None => {},
        }
    }
}

proof fn lemma_filter_lookup<T>(
    s: Seq<(Seq<char>, T)>,
    p: spec_fn((Seq<char>, T)) -> bool,
    k: Seq<char>,
)
    requires
        distinct(s),
    ensures
        lookup(s.filter(p), k) == (match lookup(s, k) {
            Some(v) => if p((k, v)) {
                Some(v)
            } else {
                None
            },
            None => None,
        }),
    decreases s.len(),
{
    reveal(Seq::filter);
    if s.len() > 0 {
        let t = s.drop_last();
        lemma_filter_lookup(t, p, k);
        lemma_lookup_push(t, s.last(), k);
        assert(s =~= t.push(s.last()));
        if p(s.last()) {
            lemma_lookup_push(t.filter(p), s.last(), k);
        }
        if s.last().0 == k {
            lemma_lookup_place(t, k);
            if lookup(t, k) is Some {
                let i = choose|i: int| #[trigger]
                    place(t, k, i) && lookup(t, k) == Some(t[i].1);
                assert(s[i].0 == s[s.len() - 1].0);
            }
        }
    } else {
        assert(s.filter(p) =~= s);
    }
}

proof fn lemma_lookup_push<T>(s: Seq<(Seq<char>, T)>, e: (Seq<char>, T), k: Seq<char>)
    ensures
        lookup(s.push(e), k) == (if lookup(s, k) is Some {
            lookup(s, k)
        } else if e.0 == k {
            Some(e.1)
        } else {
            None
        }),
    decreases s.len(),
{
    if s.len() == 0 {
        assert(s.push(e).drop_first() =~= s);
    } else {
        lemma_lookup_push(s.drop_first(), e, k);
        assert(s.push(e).drop_first() =~= s.drop_first().push(e));
    }
}

/// The clearing forgets a host exactly where it is in a group and has not reported for
/// longer than the interval; a host in no group is never forgotten.
pub proof fn law_who_is_forgotten(m: MgrView, now: u64, name: Seq<char>)
    requires
        mgr_wf(m),
    ensures
        lookup(cleared(m, now).hosts, name) == (match lookup(m.tables.hosts, name) {
            Some(h) => if clearing(m, now) && !kept(h.gid, h.latest_ts, m.cfg.group_gc, now) {
                None
            } else {
                Some(h)
            },
            None => None,
        }),
        lookup(cleared(m, now).stats, name) == (match lookup(m.tables.stats, name) {
            Some(s) => if clearing(m, now) && !kept(s.gid, s.latest_ts, m.cfg.group_gc, now) {
                None
            } else {
                Some(s)
            },
            None => None,
        }),
        lookup(m.tables.hosts, name) matches Some(h) && h.gid.len() == 0 ==> lookup(
            cleared(m, now).hosts,
            name,
        ) == lookup(m.tables.hosts, name),
{
    if clearing(m, now) {
        let p = |e: (Seq<char>, HostView)| kept(e.1.gid, e.1.latest_ts, m.cfg.group_gc, now);
        let q = |e: (Seq<char>, HostStatView)| kept(e.1.gid, e.1.latest_ts, m.cfg.group_gc, now);
        lemma_filter_lookup(m.tables.hosts, p, name);
        lemma_filter_lookup(m.tables.stats, q, name);
    }
}

/// The tick acts on each host by itself: what is found under a name afterwards is what
/// the tick makes of what was found there, unless it was forgotten.
pub proof fn law_tick_acts_host_by_host(m: MgrView, now: u64, name: Seq<char>)
    ensures
        lookup(ticked_stats(m, now), name) == (match lookup(cleared(m, now).stats, name) {
            Some(s) => Some(ticked(s, now, m.cfg.offline_threshold, notifying(m, now))),
            None => None,
        }),
{
    lemma_mapped_lookup(
        cleared(m, now).stats,
        |s: HostStatView| ticked(s, now, m.cfg.offline_threshold, notifying(m, now)),
        name,
    );
    let f = |s: HostStatView| ticked(s, now, m.cfg.offline_threshold, notifying(m, now));
    assert(ticked_stats(m, now) =~= cleared(m, now).stats.map_values(
        |e: (Seq<char>, HostStatView)| (e.0, f(e.1)),
    ));
}

proof fn lemma_mapped_lookup<T>(s: Seq<(Seq<char>, T)>, f: spec_fn(T) -> T, k: Seq<char>)
    ensures
        lookup(s.map_values(|e: (Seq<char>, T)| (e.0, f(e.1))), k) == (match lookup(s, k) {
            Some(v) => Some(f(v)),
            None => None,
        }),
    decreases s.len(),
{
    let g = |e: (Seq<char>, T)| (e.0, f(e.1));
    if s.len() > 0 {
        lemma_mapped_lookup(s.drop_first(), f, k);
        assert(s.map_values(g).drop_first() =~= s.drop_first().map_values(g));
    }
}

/// Nothing is told before the interval since the last notification has passed.
pub proof fn law_notifications_lie_apart(m: MgrView, now: u64)
    requires
        m.latest_notify_ts + m.cfg.notify_interval >= now,
    ensures
        tick_notices(m, now).len() == 0,
{
    lemma_no_notices(
        crate::registry::values(cleared(m, now).stats),
        now,
        m.cfg.offline_threshold,
    );
}

proof fn lemma_no_notices(s: Seq<HostStatView>, now: u64, offline_threshold: u64)
    ensures
        notices(s, now, offline_threshold, false).len() == 0,
    decreases s.len(),
{
    if s.len() > 0 {
        lemma_no_notices(s.drop_last(), now, offline_threshold);
    }
}

/// The latest second is that of a host, and no host reported later.
pub proof fn law_latest_is_the_latest(s: Seq<HostStatView>)
    ensures
        forall|i: int| 0 <= i < s.len() ==> (#[trigger] s[i]).latest_ts <= latest(s),
        s.len() > 0 ==> exists|i: int| 0 <= i < s.len() && (#[trigger] s[i]).latest_ts == latest(s),
    decreases s.len(),
{
    if s.len() > 0 {
        let t = s.drop_last();
        law_latest_is_the_latest(t);
        assert forall|i: int| 0 <= i < s.len() implies (#[trigger] s[i]).latest_ts <= latest(s) by {
            if i < t.len() {
                assert(t[i] == s[i]);
            }
        }
        if s.last().latest_ts > latest(t) {
            assert(s[s.len() - 1].latest_ts == latest(s));
        } else if t.len() > 0 {
            let i = choose|i: int| 0 <= i < t.len() && (#[trigger] t[i]).latest_ts == latest(t);
            assert(s[i].latest_ts == latest(s));
        } else {
            assert(s[0].latest_ts == latest(s));
        }
    }
}

/// The order of the dashboard is strict, and leaves two hosts in either order only
/// where they agree in weight, place and alias.
pub proof fn law_dashboard_order(a: HostStatView, b: HostStatView)
    ensures
        !ranks_before(a, a),
        ranks_before(a, b) ==> !ranks_before(b, a),
        !ranks_before(a, b) && !ranks_before(b, a) ==> a.weight == b.weight && a.pos == b.pos
            && a.alias == b.alias,
{
    lemma_text_order(a.alias, b.alias);
    lemma_text_order(a.alias, a.alias);
}

proof fn lemma_text_order(a: Seq<char>, b: Seq<char>)
    ensures
        crate::text::text_before(a, b) ==> !crate::text::text_before(b, a),
        !crate::text::text_before(a, b) && !crate::text::text_before(b, a) ==> a == b,
        a == b ==> !crate::text::text_before(a, b),
    decreases a.len(),
{
    if a.len() > 0 && b.len() > 0 && a[0] == b[0] {
        lemma_text_order(a.drop_first(), b.drop_first());
        assert(a =~= seq![a[0]] + a.drop_first());
        assert(b =~= seq![b[0]] + b.drop_first());
    } else if a.len() == 0 && b.len() == 0 {
        assert(a =~= b);
    }
}

// ---------------------------------------------------------------------------
// A report, part by part
// ---------------------------------------------------------------------------

/// The host that a report belongs to: the one that is known by its name, where the report
/// names no group or that host's; otherwise the one that its group has for it, with the
/// traffic counters of the host that had the name.
pub proof fn law_whose_report_it_is(
    hosts: Seq<(Seq<char>, HostView)>,
    stat: HostStatView,
    inst: Option<HostView>,
)
    ensures
        ({
            let prior = lookup(hosts, stat.name);
            let known = stat.gid.len() == 0 || (prior matches Some(o) && o.gid == stat.gid);
            &&& known ==> host_of(hosts, stat, inst) == prior
            &&& !known && inst is None ==> host_of(hosts, stat, inst) is None
            &&& !known && inst is Some ==> (host_of(hosts, stat, inst) matches Some(h) && {
                &&& prior is None ==> h == inst->0
                &&& prior is Some ==> h == (HostView {
                    last_network_in: prior->0.last_network_in,
                    last_network_out: prior->0.last_network_out,
                    ..inst->0
                })
            })
        }),
{
    if inst is Some {
        let prior = lookup(hosts, stat.name);
        law_lookup_put(
            hosts,
            stat.name,
            crate::server::stats::inheriting(inst->0, prior),
            stat.name,
        );
    }
}

/// What becomes of a report: it is dropped where its group is not configured, where its
/// host is not, and where its host is switched off, and stored otherwise.
pub proof fn law_what_becomes_of_a_report(
    tables: Tables,
    stat: HostStatView,
    inst: Option<HostView>,
    t: LocalTime,
    offline_threshold: u64,
)
    ensures
        ({
            let prior = lookup(tables.hosts, stat.name);
            let known = stat.gid.len() == 0 || (prior matches Some(o) && o.gid == stat.gid);
            let host = if known {
                prior
            } else {
                inst
            };
            let out = ingested(tables, stat, inst, t, offline_threshold).1;
            &&& out == OutcomeView::Dropped(Drop::UnknownGroup) <==> !known && inst is None
            &&& out == OutcomeView::Dropped(Drop::UnknownHost) <==> known && prior is None
            &&& out == OutcomeView::Dropped(Drop::Disabled) <==> (host matches Some(h)
                && h.disabled)
            &&& out is Stored <==> (host matches Some(h) && !h.disabled)
        }),
{
    law_whose_report_it_is(tables.hosts, stat, inst);
}

/// The report as it is stored, part by part. What the host measured is kept as it came.
/// What is configured of its host is added: its place, its labels and its weight; the
/// alias, where one is configured; the location and the type, where the report gives
/// none. It is notified of only where both the configuration and the report want it.
pub proof fn law_report_as_it_is_stored(
    tables: Tables,
    stat: HostStatView,
    inst: Option<HostView>,
    t: LocalTime,
    offline_threshold: u64,
)
    ensures
        ingested(tables, stat, inst, t, offline_threshold).1 matches OutcomeView::Stored {
            stat: full,
            network_reset,
            node_up,
        } ==> (host_of(tables.hosts, stat, inst) matches Some(h) && {
            &&& full.name == stat.name
            &&& full.gid == stat.gid
            &&& full.version == stat.version
            &&& full.vnstat == stat.vnstat
            &&& full.online4 == stat.online4
            &&& full.online6 == stat.online6
            &&& full.si == stat.si
            &&& full.latest_ts == stat.latest_ts
            &&& full.uptime == stat.uptime
            &&& full.network_in == stat.network_in
            &&& full.network_out == stat.network_out
            &&& full.disks == stat.disks
            &&& full.metrics == stat.metrics
            &&& full.notify == (h.notify && stat.notify)
            &&& !full.disabled
            &&& full.pos == h.pos
            &&& full.labels == h.labels
            &&& stat.weight + h.weight <= u64::MAX ==> full.weight == stat.weight + h.weight
            &&& h.alias.len() > 0 ==> full.alias == h.alias
            &&& h.alias.len() == 0 && stat.alias.len() > 0 ==> full.alias == stat.alias
            &&& h.alias.len() == 0 && stat.alias.len() == 0 && stat.gid.len() > 0 ==> full.alias
                == stat.name
            &&& h.alias.len() == 0 && stat.alias.len() == 0 && stat.gid.len() == 0
                ==> full.alias.len() == 0
            &&& stat.location.len() > 0 ==> full.location == stat.location
            &&& stat.location.len() == 0 ==> full.location == h.location
            &&& stat.host_type.len() > 0 ==> full.host_type == stat.host_type
            &&& stat.host_type.len() == 0 ==> full.host_type == h.host_type
            &&& full.uptime_str == uptime_text(stat.uptime)
        }),
{
}

/// The traffic of the period starts anew where the server counts it and it was never
/// counted, the host's counter went back without standing at zero, or the first five
/// minutes of the configured day run. The host's counters then become those of the
/// report; otherwise the report is given the counters of the host. Both directions go by
/// the one decision.
pub proof fn law_when_the_traffic_starts_anew(
    tables: Tables,
    stat: HostStatView,
    inst: Option<HostView>,
    t: LocalTime,
    offline_threshold: u64,
)
    ensures
        ingested(tables, stat, inst, t, offline_threshold).1 matches OutcomeView::Stored {
            stat: full,
            network_reset,
            node_up,
        } ==> (host_of(tables.hosts, stat, inst) matches Some(h) && {
            let after = ingested(tables, stat, inst, t, offline_threshold).0;
            &&& network_reset <==> !stat.vnstat && (h.last_network_in == 0 || (0
                < stat.network_in < h.last_network_in) || (t.day == h.monthstart && t.hour == 0
                && t.minute <= 4))
            &&& network_reset ==> lookup(after.hosts, stat.name) == Some(
                HostView {
                    last_network_in: stat.network_in,
                    last_network_out: stat.network_out,
                    ..h
                },
            )
            &&& !network_reset ==> lookup(after.hosts, stat.name) == Some(h)
            &&& network_reset || stat.vnstat ==> full.last_network_in == stat.last_network_in
                && full.last_network_out == stat.last_network_out
            &&& !network_reset && !stat.vnstat ==> full.last_network_in == h.last_network_in
                && full.last_network_out == h.last_network_out
        }),
{
    law_counters_follow_the_period(tables, stat, inst, t, offline_threshold);
    match adopted(tables.hosts, stat, inst) {
        Some(hosts) => match lookup(hosts, stat.name) {
            Some(info) => {
                law_lookup_put(
                    hosts,
                    stat.name,
                    crate::server::stats::counted(info, stat, t),
                    stat.name,
                );
            },
            None => {},
        },
        None => {},
    }
}

/// A host is told to be back exactly where notifications of it are wanted and its report
/// before this one is older than a host that is online may be; its first report tells
/// nothing.
pub proof fn law_when_a_host_is_back(
    tables: Tables,
    stat: HostStatView,
    inst: Option<HostView>,
    t: LocalTime,
    offline_threshold: u64,
)
    ensures
        ingested(tables, stat, inst, t, offline_threshold).1 matches OutcomeView::Stored {
            stat: full,
            network_reset,
            node_up,
        } ==> {
            &&& node_up ==> full.notify
            &&& lookup(tables.stats, stat.name) is None ==> !node_up
            &&& lookup(tables.stats, stat.name) matches Some(pre) ==> (node_up <==> full.notify
                && pre.latest_ts + offline_threshold < stat.latest_ts)
        },
{
}

/// A host whose notifications are switched off in the configuration is never told of: not
/// when it is back, whatever its reports want, and at no tick, whatever came before.
pub proof fn law_silenced_host_is_never_told(
    tables: Tables,
    stat: HostStatView,
    inst: Option<HostView>,
    t: LocalTime,
    offline_threshold: u64,
    now: u64,
    due: bool,
)
    requires
        host_of(tables.hosts, stat, inst) matches Some(h) && !h.notify,
    ensures
        ingested(tables, stat, inst, t, offline_threshold).1 matches OutcomeView::Stored {
            stat: full,
            network_reset,
            node_up,
        } ==> !node_up && !full.notify && notice(full, now, offline_threshold, due) is None
            && !ticked(full, now, offline_threshold, due).notify && !ticked(
            full,
            now,
            offline_threshold,
            due,
        ).disabled,
{
}

/// Two reports of one host, the one behind the other: the later one is what is found of
/// it, and what the earlier one said of the address and the system is still known.
pub proof fn law_later_report_replaces(
    tables: Tables,
    a: HostStatView,
    b: HostStatView,
    t: LocalTime,
    offline_threshold: u64,
)
    requires
        a.name == b.name,
        a.gid.len() == 0,
        b.gid.len() == 0,
        lookup(tables.hosts, a.name) matches Some(h) && !h.disabled,
    ensures
        ({
            let one = ingested(tables, a, None, t, offline_threshold).0;
            let two = ingested(one, b, None, t, offline_threshold).0;
            lookup(two.stats, a.name) matches Some(s) && {
                &&& s.latest_ts == b.latest_ts
                &&& s.online4 == b.online4
                &&& s.online6 == b.online6
                &&& b.ip_info is None && a.ip_info is Some ==> s.ip_info == a.ip_info
                &&& b.sys_info is None && a.sys_info is Some ==> s.sys_info == a.sys_info
                &&& b.ip_info is Some ==> s.ip_info == b.ip_info
                &&& b.sys_info is Some ==> s.sys_info == b.sys_info
            }
        }),
{
    let one = ingested(tables, a, None, t, offline_threshold).0;
    let h = lookup(tables.hosts, a.name)->0;
    law_lookup_put(tables.hosts, a.name, crate::server::stats::counted(h, a, t), a.name);
    law_report_is_found(tables, a, None, t, offline_threshold);
    law_report_is_found(one, b, None, t, offline_threshold);
}

// ---------------------------------------------------------------------------
// A tick, part by part
// ---------------------------------------------------------------------------

/// What a tick makes of one host, part by part. One that is switched off stays as it is.
/// Any other is online over a protocol afterwards exactly where it was and its report is
/// no older than the threshold; it is switched off exactly where notifications of it are
/// wanted and due and it is online over neither. Nothing else changes but the labels.
pub proof fn law_tick_on_a_host(stat: HostStatView, now: u64, offline_threshold: u64, due: bool)
    ensures
        ({
            let after = ticked(stat, now, offline_threshold, due);
            let recent = stat.latest_ts + offline_threshold >= now;
            &&& stat.disabled ==> after == stat
            &&& !stat.disabled ==> {
                &&& after.online4 <==> stat.online4 && recent
                &&& after.online6 <==> stat.online6 && recent
                &&& after.disabled <==> stat.notify && due && !after.online4 && !after.online6
                &&& after.labels == labelled(stat.labels, stat.sys_info)
                &&& after == (HostStatView {
                    online4: after.online4,
                    online6: after.online6,
                    disabled: after.disabled,
                    labels: after.labels,
                    ..stat
                })
            }
        }),
{
}

/// What is told of a host at a tick: nothing where it is switched off, where notifications
/// of it are not wanted, and where none are due; otherwise its state after the tick, as
/// down where it is online over neither protocol then. It does not matter whether it was
/// so before.
pub proof fn law_what_is_told_of_a_host(
    stat: HostStatView,
    now: u64,
    offline_threshold: u64,
    due: bool,
)
    ensures
        ({
            let after = ticked(stat, now, offline_threshold, due);
            let told = notice(stat, now, offline_threshold, due);
            &&& told is None <==> stat.disabled || !stat.notify || !due
            &&& told matches Some((event, state)) ==> {
                &&& state == after
                &&& event == Event::NodeDown <==> !after.online4 && !after.online6
                &&& event == Event::Custom <==> after.online4 || after.online6
            }
            &&& after.disabled && !stat.disabled <==> (told matches Some((Event::NodeDown, _)))
        }),
{
}

/// The tables after a tick. Where the interval since the last clearing has passed, the
/// hosts and the reports of groups that are older than it are gone; every other one is
/// there, in its place, each report as the tick makes it.
pub proof fn law_tables_after_a_tick(m: MgrView, now: u64)
    ensures
        cleared(m, now).hosts == m.tables.hosts.filter(
            |e: (Seq<char>, HostView)|
                m.latest_group_gc + m.cfg.group_gc >= now || e.1.gid.len() == 0 || e.1.latest_ts
                    + m.cfg.group_gc >= now,
        ),
        ticked_stats(m, now) == m.tables.stats.filter(
            |e: (Seq<char>, HostStatView)|
                m.latest_group_gc + m.cfg.group_gc >= now || e.1.gid.len() == 0 || e.1.latest_ts
                    + m.cfg.group_gc >= now,
        ).map_values(
            |e: (Seq<char>, HostStatView)|
                (
                    e.0,
                    ticked(
                        e.1,
                        now,
                        m.cfg.offline_threshold,
                        m.latest_notify_ts + m.cfg.notify_interval < now,
                    ),
                ),
        ),
{
    let p = |e: (Seq<char>, HostView)|
        m.latest_group_gc + m.cfg.group_gc >= now || e.1.gid.len() == 0 || e.1.latest_ts
            + m.cfg.group_gc >= now;
    let q = |e: (Seq<char>, HostStatView)|
        m.latest_group_gc + m.cfg.group_gc >= now || e.1.gid.len() == 0 || e.1.latest_ts
            + m.cfg.group_gc >= now;
    if clearing(m, now) {
        let a = |e: (Seq<char>, HostView)| kept(e.1.gid, e.1.latest_ts, m.cfg.group_gc, now);
        let b = |e: (Seq<char>, HostStatView)| kept(e.1.gid, e.1.latest_ts, m.cfg.group_gc, now);
        assert(a =~= p);
        assert(b =~= q);
    } else {
        lemma_filter_all(m.tables.hosts, p);
        lemma_filter_all(m.tables.stats, q);
    }
    assert(ticked_stats(m, now) =~= m.tables.stats.filter(q).map_values(
        |e: (Seq<char>, HostStatView)|
            (
                e.0,
                ticked(
                    e.1,
                    now,
                    m.cfg.offline_threshold,
                    m.latest_notify_ts + m.cfg.notify_interval < now,
                ),
            ),
    ));
}

proof fn lemma_filter_all<T>(s: Seq<T>, p: spec_fn(T) -> bool)
    requires
        forall|i: int| 0 <= i < s.len() ==> p(#[trigger] s[i]),
    ensures
        s.filter(p) == s,
    decreases s.len(),
{
    reveal(Seq::filter);
    if s.len() > 0 {
        let t = s.drop_last();
        assert forall|i: int| 0 <= i < t.len() implies p(#[trigger] t[i]) by {
            assert(t[i] == s[i]);
        }
        lemma_filter_all(t, p);
        assert(p(s[s.len() - 1]));
        assert(s =~= t.push(s.last()));
    } else {
        assert(s.filter(p) =~= s);
    }
}

/// What is told at a tick, and in which order. Where the interval since the last telling
/// has passed, each host that is still there, is not switched off and is to be notified
/// of is told once, in the order of the reports: as down where it is online over neither
/// protocol or its report is older than the threshold.
pub proof fn law_who_is_told(m: MgrView, now: u64)
    ensures
        tick_notices(m, now) == m.tables.stats.filter(
            |e: (Seq<char>, HostStatView)|
                {
                    &&& m.latest_group_gc + m.cfg.group_gc >= now || e.1.gid.len() == 0
                        || e.1.latest_ts + m.cfg.group_gc >= now
                    &&& m.latest_notify_ts + m.cfg.notify_interval < now
                    &&& !e.1.disabled
                    &&& e.1.notify
                },
        ).map_values(
            |e: (Seq<char>, HostStatView)|
                (
                    if (e.1.online4 || e.1.online6) && e.1.latest_ts + m.cfg.offline_threshold
                        >= now {
                        Event::Custom
                    } else {
                        Event::NodeDown
                    },
                    ticked(e.1, now, m.cfg.offline_threshold, true),
                ),
        ),
{
    lemma_told(m, m.tables.stats, now);
    law_tables_after_a_tick(m, now);
    let q = |e: (Seq<char>, HostStatView)|
        m.latest_group_gc + m.cfg.group_gc >= now || e.1.gid.len() == 0 || e.1.latest_ts
            + m.cfg.group_gc >= now;
    if clearing(m, now) {
        let b = |e: (Seq<char>, HostStatView)| kept(e.1.gid, e.1.latest_ts, m.cfg.group_gc, now);
        assert(b =~= q);
    } else {
        lemma_filter_all(m.tables.stats, q);
    }
}

proof fn lemma_told(m: MgrView, s: Seq<(Seq<char>, HostStatView)>, now: u64)
    ensures
        ({
            let q = |e: (Seq<char>, HostStatView)|
                m.latest_group_gc + m.cfg.group_gc >= now || e.1.gid.len() == 0 || e.1.latest_ts
                    + m.cfg.group_gc >= now;
            let told = |e: (Seq<char>, HostStatView)|
                {
                    &&& m.latest_group_gc + m.cfg.group_gc >= now || e.1.gid.len() == 0
                        || e.1.latest_ts + m.cfg.group_gc >= now
                    &&& m.latest_notify_ts + m.cfg.notify_interval < now
                    &&& !e.1.disabled
                    &&& e.1.notify
                };
            let how = |e: (Seq<char>, HostStatView)|
                (
                    if (e.1.online4 || e.1.online6) && e.1.latest_ts + m.cfg.offline_threshold
                        >= now {
                        Event::Custom
                    } else {
                        Event::NodeDown
                    },
                    ticked(e.1, now, m.cfg.offline_threshold, true),
                );
            notices(
                values(s.filter(q)),
                now,
                m.cfg.offline_threshold,
                m.latest_notify_ts + m.cfg.notify_interval < now,
            ) == s.filter(told).map_values(how)
        }),
    decreases s.len(),
{
    reveal(Seq::filter);
    let q = |e: (Seq<char>, HostStatView)|
        m.latest_group_gc + m.cfg.group_gc >= now || e.1.gid.len() == 0 || e.1.latest_ts
            + m.cfg.group_gc >= now;
    let told = |e: (Seq<char>, HostStatView)|
        {
            &&& m.latest_group_gc + m.cfg.group_gc >= now || e.1.gid.len() == 0 || e.1.latest_ts
                + m.cfg.group_gc >= now
            &&& m.latest_notify_ts + m.cfg.notify_interval < now
            &&& !e.1.disabled
            &&& e.1.notify
        };
    let how = |e: (Seq<char>, HostStatView)|
        (
            if (e.1.online4 || e.1.online6) && e.1.latest_ts + m.cfg.offline_threshold >= now {
                Event::Custom
            } else {
                Event::NodeDown
            },
            ticked(e.1, now, m.cfg.offline_threshold, true),
        );
    let due = m.latest_notify_ts + m.cfg.notify_interval < now;
    if s.len() == 0 {
        assert(values(s.filter(q)) =~= Seq::<HostStatView>::empty());
        assert(s.filter(told).map_values(how) =~= Seq::<(Event, HostStatView)>::empty());
    } else {
        let t = s.drop_last();
        let e = s.last();
        lemma_told(m, t, now);
        law_what_is_told_of_a_host(e.1, now, m.cfg.offline_threshold, due);
        if q(e) {
            assert(values(t.filter(q).push(e)) =~= values(t.filter(q)).push(e.1));
            assert(values(t.filter(q)).push(e.1).drop_last() =~= values(t.filter(q)));
        }
        if told(e) {
            assert(t.filter(told).push(e).map_values(how) =~= t.filter(told).map_values(
                how,
            ).push(how(e)));
        }
    }
}

/// No host goes down in silence: at a tick at which notifications are due, a host that is
/// there, not switched off and to be notified of, and that is offline afterwards, is told
/// to be down, by exactly one notice under its name, whether or not it was offline before.
pub proof fn law_down_is_always_told(m: MgrView, now: u64, i: int)
    requires
        mgr_wf(m),
        0 <= i < m.tables.stats.len(),
        forall|j: int|
            0 <= j < m.tables.stats.len() && j != i ==> (#[trigger] m.tables.stats[j]).1.name
                != m.tables.stats[i].1.name,
        m.latest_notify_ts + m.cfg.notify_interval < now,
        ({
            let s = m.tables.stats[i].1;
            &&& s.gid.len() == 0 || s.latest_ts + m.cfg.group_gc >= now
            &&& !s.disabled
            &&& s.notify
            &&& s.latest_ts + m.cfg.offline_threshold < now || (!s.online4 && !s.online6)
        }),
    ensures
        exists|k: int|
            0 <= k < tick_notices(m, now).len() && {
                let n = #[trigger] tick_notices(m, now)[k];
                &&& n.0 == Event::NodeDown
                &&& n.1.name == m.tables.stats[i].1.name
                &&& n.1.latest_ts == m.tables.stats[i].1.latest_ts
                &&& !n.1.online4 && !n.1.online6
                &&& n.1.disabled
                &&& lookup(ticked_stats(m, now), m.tables.stats[i].0) == Some(n.1)
                &&& forall|l: int|
                    0 <= l < tick_notices(m, now).len() && (#[trigger] tick_notices(m, now)[l]).1.name
                        == m.tables.stats[i].1.name ==> l == k
            },
{
    let st = m.tables.stats;
    let c = cleared(m, now).stats;
    let thr = m.cfg.offline_threshold;
    lemma_tick_wf(m, now);
    lemma_kept_is_there(m, now, i);
    let a = choose|a: int| 0 <= a < c.len() && #[trigger] c[a] == st[i];
    assert forall|b: int| 0 <= b < c.len() && b != a implies (#[trigger] c[b]).1.name
        != st[i].1.name by {
        lemma_cleared_was_there(m, now, b);
        let j = choose|j: int| 0 <= j < st.len() && #[trigger] st[j] == c[b];
        if j == i {
            assert(c[b].0 == c[a].0);
        }
    }
    let v = values(c);
    assert(v[a] == st[i].1);
    assert forall|b: int| 0 <= b < v.len() && b != a implies (#[trigger] v[b]).name
        != v[a].name by {
        assert(v[b] == c[b].1);
    }
    lemma_one_notice(v, a, now, thr);
    let n = tick_notices(m, now);
    let k = choose|k: int|
        0 <= k < n.len() && #[trigger] n[k] == (Event::NodeDown, ticked(v[a], now, thr, true))
            && forall|l: int| 0 <= l < n.len() && (#[trigger] n[l]).1.name == v[a].name ==> l == k;
    law_tick_on_a_host(v[a], now, thr, true);
    law_tick_acts_host_by_host(m, now, st[i].0);
    assert forall|b: int| 0 <= b < a implies c[b].0 != st[i].0 by {}
    crate::registry::lemma_put_at(c, st[i].0, c[a].1, a);
    assert(n[k].0 == Event::NodeDown);
}

/// A report that the clearing does not take is there afterwards.
proof fn lemma_kept_is_there(m: MgrView, now: u64, i: int)
    requires
        0 <= i < m.tables.stats.len(),
        m.tables.stats[i].1.gid.len() == 0 || m.tables.stats[i].1.latest_ts + m.cfg.group_gc
            >= now,
    ensures
        exists|a: int|
            0 <= a < cleared(m, now).stats.len() && #[trigger] cleared(m, now).stats[a]
                == m.tables.stats[i],
{
    let s = m.tables.stats;
    if clearing(m, now) {
        let q = |e: (Seq<char>, HostStatView)| kept(e.1.gid, e.1.latest_ts, m.cfg.group_gc, now);
        lemma_filter_keeps(s, q, i);
        let a = choose|a: int| 0 <= a < s.filter(q).len() && #[trigger] s.filter(q)[a] == s[i];
        assert(cleared(m, now).stats[a] == s[i]);
    } else {
        assert(cleared(m, now).stats[i] == s[i]);
    }
}

proof fn lemma_filter_keeps<T>(s: Seq<T>, p: spec_fn(T) -> bool, i: int)
    requires
        0 <= i < s.len(),
        p(s[i]),
    ensures
        exists|a: int| 0 <= a < s.filter(p).len() && #[trigger] s.filter(p)[a] == s[i],
    decreases s.len(),
{
    reveal(Seq::filter);
    let t = s.drop_last();
    let f = s.filter(p);
    if i < t.len() {
        lemma_filter_keeps(t, p, i);
        let a = choose|a: int| 0 <= a < t.filter(p).len() && #[trigger] t.filter(p)[a] == t[i];
        assert(f[a] == s[i]);
    } else {
        assert(f[f.len() - 1] == s[i]);
    }
}

/// A host that goes down is in the list of notices once, where its name is its own.
proof fn lemma_one_notice(v: Seq<HostStatView>, a: int, now: u64, offline_threshold: u64)
    requires
        0 <= a < v.len(),
        forall|b: int| 0 <= b < v.len() && b != a ==> (#[trigger] v[b]).name != v[a].name,
        !v[a].disabled,
        v[a].notify,
        v[a].latest_ts + offline_threshold < now || (!v[a].online4 && !v[a].online6),
    ensures
        exists|k: int|
            0 <= k < notices(v, now, offline_threshold, true).len() && #[trigger] notices(
                v,
                now,
                offline_threshold,
                true,
            )[k] == (Event::NodeDown, ticked(v[a], now, offline_threshold, true)) && forall|l: int|
                0 <= l < notices(v, now, offline_threshold, true).len() && (#[trigger] notices(
                    v,
                    now,
                    offline_threshold,
                    true,
                )[l]).1.name == v[a].name ==> l == k,
    decreases v.len(),
{
    let t = v.drop_last();
    let n = notices(v, now, offline_threshold, true);
    let f = notices(t, now, offline_threshold, true);
    law_what_is_told_of_a_host(v.last(), now, offline_threshold, true);
    law_tick_on_a_host(v.last(), now, offline_threshold, true);
    if a < t.len() {
        assert forall|b: int| 0 <= b < t.len() && b != a implies (#[trigger] t[b]).name
            != t[a].name by {
            assert(t[b] == v[b]);
        }
        lemma_one_notice(t, a, now, offline_threshold);
        let k = choose|k: int|
            0 <= k < f.len() && #[trigger] f[k] == (
                Event::NodeDown,
                ticked(t[a], now, offline_threshold, true),
            ) && forall|l: int|
                0 <= l < f.len() && (#[trigger] f[l]).1.name == t[a].name ==> l == k;
        assert(n[k] == f[k]);
        assert(v[v.len() - 1].name != v[a].name);
        assert forall|l: int| 0 <= l < n.len() && (#[trigger] n[l]).1.name == v[a].name implies l
            == k by {
            if l < f.len() {
                assert(n[l] == f[l]);
            }
        }
    } else {
        assert forall|b: int| 0 <= b < t.len() implies (#[trigger] t[b]).name != v[a].name by {
            assert(t[b] == v[b]);
        }
        lemma_no_notice_under(t, v[a].name, now, offline_threshold);
        let k = f.len() as int;
        assert(n[k] == (Event::NodeDown, ticked(v[a], now, offline_threshold, true)));
        assert forall|l: int| 0 <= l < n.len() && (#[trigger] n[l]).1.name == v[a].name implies l
            == k by {
            if l < f.len() {
                assert(n[l] == f[l]);
            }
        }
    }
}

proof fn lemma_no_notice_under(
    v: Seq<HostStatView>,
    name: Seq<char>,
    now: u64,
    offline_threshold: u64,
)
    requires
        forall|b: int| 0 <= b < v.len() ==> (#[trigger] v[b]).name != name,
    ensures
        forall|l: int|
            0 <= l < notices(v, now, offline_threshold, true).len() ==> (#[trigger] notices(
                v,
                now,
                offline_threshold,
                true,
            )[l]).1.name != name,
    decreases v.len(),
{
    if v.len() > 0 {
        let t = v.drop_last();
        assert forall|b: int| 0 <= b < t.len() implies (#[trigger] t[b]).name != name by {
            assert(t[b] == v[b]);
        }
        lemma_no_notice_under(t, name, now, offline_threshold);
        assert(v[v.len() - 1].name != name);
        law_tick_on_a_host(v.last(), now, offline_threshold, true);
    }
}

/// No host is switched off in silence: what a tick switches off, it tells to be down, and
/// what it tells to be down, it switches off.
pub proof fn law_switched_off_exactly_where_told(
    stat: HostStatView,
    now: u64,
    offline_threshold: u64,
    due: bool,
)
    requires
        !stat.disabled,
    ensures
        ticked(stat, now, offline_threshold, due).disabled <==> notice(
            stat,
            now,
            offline_threshold,
            due,
        ) == Some((Event::NodeDown, ticked(stat, now, offline_threshold, due))),
{
}

/// A host that stays silent is told to be down at the first tick at which that is due,
/// whatever ticks passed before at which it was not.
pub proof fn law_down_is_told_late_if_not_at_once(
    stat: HostStatView,
    earlier: u64,
    now: u64,
    offline_threshold: u64,
)
    requires
        !stat.disabled,
        stat.notify,
        earlier <= now,
        stat.latest_ts + offline_threshold < now,
    ensures
        notice(
            ticked(stat, earlier, offline_threshold, false),
            now,
            offline_threshold,
            true,
        ) matches Some((Event::NodeDown, s)) && s.name == stat.name && s.latest_ts
            == stat.latest_ts,
{
}

/// When the dashboard's list is out of date by the tick itself: a host or a report was
/// forgotten, or a host that was not switched off went offline or was switched off.
pub proof fn law_what_changes_the_dashboard(m: MgrView, now: u64)
    ensures
        tick_changes(m, now) <==> {
            let clears = m.latest_group_gc + m.cfg.group_gc < now;
            let due = m.latest_notify_ts + m.cfg.notify_interval < now;
            let thr = m.cfg.offline_threshold;
            ||| exists|i: int|
                0 <= i < m.tables.hosts.len() && clears && (#[trigger] m.tables.hosts[i]).1.gid.len()
                    > 0 && m.tables.hosts[i].1.latest_ts + m.cfg.group_gc < now
            ||| exists|i: int|
                0 <= i < m.tables.stats.len() && clears && (#[trigger] m.tables.stats[i]).1.gid.len()
                    > 0 && m.tables.stats[i].1.latest_ts + m.cfg.group_gc < now
            ||| exists|i: int|
                0 <= i < m.tables.stats.len() && {
                    let s = (#[trigger] m.tables.stats[i]).1;
                    &&& !clears || s.gid.len() == 0 || s.latest_ts + m.cfg.group_gc >= now
                    &&& !s.disabled
                    &&& ((s.online4 || s.online6) && s.latest_ts + thr < now) || (s.notify && due
                        && (s.latest_ts + thr < now || (!s.online4 && !s.online6)))
                }
        },
{
    let c = cleared(m, now);
    let due = m.latest_notify_ts + m.cfg.notify_interval < now;
    let thr = m.cfg.offline_threshold;
    let p = |e: (Seq<char>, HostView)| kept(e.1.gid, e.1.latest_ts, m.cfg.group_gc, now);
    let q = |e: (Seq<char>, HostStatView)| kept(e.1.gid, e.1.latest_ts, m.cfg.group_gc, now);
    if clearing(m, now) {
        lemma_filter_count(m.tables.hosts, p);
        lemma_filter_count(m.tables.stats, q);
    }
    assert forall|s: HostStatView| #[trigger] shifts(s, now, thr, due) <==> {
        &&& !s.disabled
        &&& ((s.online4 || s.online6) && s.latest_ts + thr < now) || (s.notify && due && (
        s.latest_ts + thr < now || (!s.online4 && !s.online6)))
    } by {}
    if exists|i: int| 0 <= i < c.stats.len() && shifts((#[trigger] c.stats[i]).1, now, thr, due) {
        let i = choose|i: int|
            0 <= i < c.stats.len() && shifts((#[trigger] c.stats[i]).1, now, thr, due);
        lemma_cleared_comes_from(m, now, i);
        let j = choose|j: int|
            0 <= j < m.tables.stats.len() && #[trigger] m.tables.stats[j] == c.stats[i];
        assert(shifts(m.tables.stats[j].1, now, thr, due));
    }
    assert forall|j: int|
        0 <= j < m.tables.stats.len() && shifts((#[trigger] m.tables.stats[j]).1, now, thr, due)
            && (!clearing(m, now) || q(m.tables.stats[j])) implies exists|i: int|
        0 <= i < c.stats.len() && shifts((#[trigger] c.stats[i]).1, now, thr, due) by {
        if clearing(m, now) {
            lemma_filter_keeps(m.tables.stats, q, j);
            let a = choose|a: int|
                0 <= a < m.tables.stats.filter(q).len() && #[trigger] m.tables.stats.filter(q)[a]
                    == m.tables.stats[j];
            assert(shifts(c.stats[a].1, now, thr, due));
        } else {
            assert(shifts(c.stats[j].1, now, thr, due));
        }
    }
}

/// Fewer items are left exactly where one of them does not fit.
proof fn lemma_filter_count<T>(s: Seq<T>, p: spec_fn(T) -> bool)
    ensures
        s.filter(p).len() <= s.len(),
        s.filter(p).len() != s.len() <==> exists|i: int| 0 <= i < s.len() && !p(#[trigger] s[i]),
    decreases s.len(),
{
    reveal(Seq::filter);
    if s.len() > 0 {
        let t = s.drop_last();
        lemma_filter_count(t, p);
        if exists|i: int| 0 <= i < s.len() && !p(#[trigger] s[i]) {
            let i = choose|i: int| 0 <= i < s.len() && !p(#[trigger] s[i]);
            if i < t.len() {
                assert(!p(t[i]));
            }
        }
        if exists|i: int| 0 <= i < t.len() && !p(#[trigger] t[i]) {
            let i = choose|i: int| 0 <= i < t.len() && !p(#[trigger] t[i]);
            assert(!p(s[i]));
        }
        assert(s[s.len() - 1] == s.last());
    }
}

proof fn lemma_cleared_comes_from(m: MgrView, now: u64, k: int)
    requires
        0 <= k < cleared(m, now).stats.len(),
    ensures
        exists|j: int|
            0 <= j < m.tables.stats.len() && #[trigger] m.tables.stats[j] == cleared(
                m,
                now,
            ).stats[k] && (!clearing(m, now) || kept(
                m.tables.stats[j].1.gid,
                m.tables.stats[j].1.latest_ts,
                m.cfg.group_gc,
                now,
            )),
{
    let s = m.tables.stats;
    if clearing(m, now) {
        let q = |e: (Seq<char>, HostStatView)| kept(e.1.gid, e.1.latest_ts, m.cfg.group_gc, now);
        lemma_filter_from(s, q, k);
        let j = choose|j: int| 0 <= j < s.len() && #[trigger] s[j] == s.filter(q)[k] && q(s[j]);
        assert(s[j] == cleared(m, now).stats[k]);
    } else {
        assert(s[k] == cleared(m, now).stats[k]);
    }
}

proof fn lemma_filter_from<T>(s: Seq<T>, p: spec_fn(T) -> bool, k: int)
    requires
        0 <= k < s.filter(p).len(),
    ensures
        exists|j: int| 0 <= j < s.len() && #[trigger] s[j] == s.filter(p)[k] && p(s[j]),
    decreases s.len(),
{
    reveal(Seq::filter);
    if s.len() > 0 {
        let t = s.drop_last();
        if k < t.filter(p).len() {
            lemma_filter_from(t, p, k);
            let j = choose|j: int| 0 <= j < t.len() && #[trigger] t[j] == t.filter(p)[k] && p(t[j]);
            assert(s[j] == s.filter(p)[k]);
        } else {
            assert(s[s.len() - 1] == s.filter(p)[k]);
        }
    }
}

/// A list in the order of the dashboard: the heavier host first, then the one that is
/// configured first, then by alias.
pub proof fn law_dashboard_is_in_order(s: Seq<HostStatView>, i: int, j: int)
    requires
        ranked(s),
        0 <= i < j < s.len(),
    ensures
        s[i].weight >= s[j].weight,
        s[i].weight == s[j].weight ==> s[i].pos <= s[j].pos,
        s[i].weight == s[j].weight && s[i].pos == s[j].pos ==> s[i].alias == s[j].alias
            || crate::text::text_before(s[i].alias, s[j].alias),
{
    assert(!ranks_before(s[j], s[i]));
    lemma_text_order(s[i].alias, s[j].alias);
}

/// The hosts that are told apart by their systems, and how: the labels that name a system,
/// and those of a host whose system is not known, stay; otherwise the first system of the
/// list that stands in the release or the name, in lower case, is added behind the others.
pub proof fn law_labels_name_the_system(labels: Seq<char>, sys: Option<SysInfoView>)
    ensures
        (exists|i: int|
            0 <= i && i + 3 <= labels.len() && #[trigger] labels.subrange(i, i + 3) == seq![
                'o',
                's',
                '=',
            ]) ==> labelled(labels, sys) == labels,
        sys is None ==> labelled(labels, sys) == labels,
        OS_LIST@ == seq![
            "centos",
            "debian",
            "ubuntu",
            "arch",
            "windows",
            "macos",
            "pi",
            "android",
            "linux",
            "freebsd",
        ],
        labelled(labels, sys) != labels ==> exists|k: int|
            0 <= k < OS_LIST@.len() && {
                let text = crate::text::lowercase(sys->0.os_release) + seq![' ']
                    + crate::text::lowercase(sys->0.os_name);
                &&& contains_text(text, (#[trigger] OS_LIST@[k])@)
                &&& forall|j: int| 0 <= j < k ==> !contains_text(text, (#[trigger] OS_LIST@[j])@)
                &&& labelled(labels, sys) == labels + (if labels.len() == 0 {
                    seq!['o', 's', '=']
                } else {
                    seq![';', 'o', 's', '=']
                }) + OS_LIST@[k]@
            },
        sys is Some && labelled(labels, sys) == labels ==> contains_text(labels, "os="@)
            || forall|k: int|
            0 <= k < OS_LIST@.len() ==> !contains_text(
                crate::text::lowercase(sys->0.os_release) + seq![' '] + crate::text::lowercase(
                    sys->0.os_name,
                ),
                (#[trigger] OS_LIST@[k])@,
            ),
{
    reveal_strlit("os=");
    reveal_strlit(";os=");
    reveal_strlit(" ");
    assert("os="@ =~= seq!['o', 's', '=']);
    assert(";os="@ =~= seq![';', 'o', 's', '=']);
    assert(" "@ =~= seq![' ']);
    if exists|i: int|
        0 <= i && i + 3 <= labels.len() && #[trigger] labels.subrange(i, i + 3) == seq![
            'o',
            's',
            '=',
        ] {
        let i = choose|i: int|
            0 <= i && i + 3 <= labels.len() && #[trigger] labels.subrange(i, i + 3) == seq![
                'o',
                's',
                '=',
            ];
        assert(occurs_at(labels, "os="@, i));
    }
    if sys is Some && !contains_text(labels, "os="@) {
        let text = os_text(sys->0);
        lemma_first_in(OS_LIST@, 0, text);
        match first_in(OS_LIST@, 0, text) {
            Some(s) => {
                let k = choose|k: int|
                    0 <= k < OS_LIST@.len() && (#[trigger] OS_LIST@[k])@ == s && contains_text(
                        text,
                        OS_LIST@[k]@,
                    ) && forall|j: int|
                        0 <= j < k ==> !contains_text(text, (#[trigger] OS_LIST@[j])@);
                assert(OS_LIST@[k]@ == s);
                assert(labelled(labels, sys).len() > labels.len());
            },
            None => {},
        }
    }
}

proof fn lemma_first_in(list: Seq<&'static str>, from: int, text: Seq<char>)
    requires
        0 <= from <= list.len(),
    ensures
        (match first_in(list, from, text) {
            Some(s) => exists|k: int|
                from <= k < list.len() && (#[trigger] list[k])@ == s && contains_text(
                    text,
                    list[k]@,
                ) && forall|j: int|
                    from <= j < k ==> !contains_text(text, (#[trigger] list[j])@),
            None => forall|k: int|
                from <= k < list.len() ==> !contains_text(text, (#[trigger] list[k])@),
        }),
    decreases list.len() - from,
{
    if from < list.len() && !contains_text(text, list[from]@) {
        lemma_first_in(list, from + 1, text);
        match first_in(list, from + 1, text) {
            Some(s) => {
                let k = choose|k: int|
                    from + 1 <= k < list.len() && (#[trigger] list[k])@ == s && contains_text(
                        text,
                        list[k]@,
                    ) && forall|j: int|
                        from + 1 <= j < k ==> !contains_text(text, (#[trigger] list[j])@);
                assert(list[k]@ == s);
            },
            None => {},
        }
    }
}

/// How long a host has been up, in words: from one day on the whole days; before, the
/// hours, the minutes and the seconds that make up the time, two digits each.
pub proof fn law_uptime_in_words(uptime: u64, days: nat, h: nat, m: nat, s: nat)
    requires
        h < 24,
        m < 60,
        s < 60,
        days * 86400 + h * 3600 + m * 60 + s == uptime,
    ensures
        days > 0 ==> uptime_text(uptime) == numeral(days) + seq![' ', '天'],
        days == 0 ==> uptime_text(uptime) == seq![
            digit_char(h / 10),
            digit_char(h % 10),
            ':',
            digit_char(m / 10),
            digit_char(m % 10),
            ':',
            digit_char(s / 10),
            digit_char(s % 10),
        ],
{
    reveal_strlit(" 天");
    reveal_strlit(":");
    let u = uptime as nat;
    assert(u / 86400 == days);
    if days > 0 {
        assert(uptime_text(uptime) =~= numeral(days) + seq![' ', '天']);
    } else {
        assert(u / 3600 == h);
        assert(u / 60 == h * 60 + m);
        assert((u / 60) % 60 == m);
        assert(u % 60 == s);
        reveal_with_fuel(numeral, 3);
        assert(numeral2(h) =~= seq![digit_char(h / 10), digit_char(h % 10)]);
        assert(numeral2(m) =~= seq![digit_char(m / 10), digit_char(m % 10)]);
        assert(numeral2(s) =~= seq![digit_char(s / 10), digit_char(s % 10)]);
        assert(uptime_text(uptime) =~= seq![
            digit_char(h / 10),
            digit_char(h % 10),
            ':',
            digit_char(m / 10),
            digit_char(m % 10),
            ':',
            digit_char(s / 10),
            digit_char(s % 10),
        ]);
    }
}

/// The stored traffic counters reach the hosts that are configured, and no others: each
/// host has the counters stored last under its name, or its own where there are none, and
/// everything else as it was.
pub proof fn law_stored_counters_reach_their_hosts(
    hosts: Seq<(Seq<char>, HostView)>,
    data: Seq<(Seq<char>, u64, u64)>,
    name: Seq<char>,
)
    ensures
        lookup(hosts, name) is None ==> lookup(loaded(hosts, data), name) is None,
        lookup(hosts, name) matches Some(h) ==> {
            &&& (forall|j: int| 0 <= j < data.len() ==> (#[trigger] data[j]).0 != name) ==> lookup(
                loaded(hosts, data),
                name,
            ) == Some(h)
            &&& forall|j: int|
                0 <= j < data.len() && (#[trigger] data[j]).0 == name && (forall|k: int|
                    j < k < data.len() ==> (#[trigger] data[k]).0 != name) ==> lookup(
                    loaded(hosts, data),
                    name,
                ) == Some(
                    HostView { last_network_in: data[j].1, last_network_out: data[j].2, ..h },
                )
        },
    decreases data.len(),
{
    if data.len() > 0 {
        let d = data.drop_last();
        let e = data.last();
        law_stored_counters_reach_their_hosts(hosts, d, name);
        let front = loaded(hosts, d);
        match lookup(front, e.0) {
            Some(o) => {
                law_lookup_put(
                    front,
                    e.0,
                    HostView { last_network_in: e.1, last_network_out: e.2, ..o },
                    name,
                );
            },
            None => {},
        }
        if e.0 == name {
            lemma_loaded_elsewhere(hosts, d, name);
        }
        assert forall|j: int|
            0 <= j < data.len() && (#[trigger] data[j]).0 == name && (forall|k: int|
                j < k < data.len() ==> (#[trigger] data[k]).0 != name) && lookup(
                hosts,
                name,
            ) is Some implies lookup(loaded(hosts, data), name) == Some(
            HostView {
                last_network_in: data[j].1,
                last_network_out: data[j].2,
                ..lookup(hosts, name)->0
            },
        ) by {
            if j < d.len() {
                assert(d[j] == data[j]);
                assert(data[data.len() - 1].0 != name);
                assert forall|k: int| j < k < d.len() implies (#[trigger] d[k]).0 != name by {
                    assert(d[k] == data[k]);
                }
            }
        }
        if forall|j: int| 0 <= j < data.len() ==> (#[trigger] data[j]).0 != name {
            assert(data[data.len() - 1].0 != name);
            assert forall|j: int| 0 <= j < d.len() implies (#[trigger] d[j]).0 != name by {
                assert(d[j] == data[j]);
            }
        }
    }
}

/// Whatever is loaded, a host keeps everything but its counters.
proof fn lemma_loaded_elsewhere(
    hosts: Seq<(Seq<char>, HostView)>,
    data: Seq<(Seq<char>, u64, u64)>,
    name: Seq<char>,
)
    ensures
        lookup(hosts, name) is Some <==> lookup(loaded(hosts, data), name) is Some,
        lookup(hosts, name) matches Some(h) ==> (lookup(loaded(hosts, data), name) matches Some(o)
            && o == (HostView {
            last_network_in: o.last_network_in,
            last_network_out: o.last_network_out,
            ..h
        })),
    decreases data.len(),
{
    if data.len() > 0 {
        let e = data.last();
        lemma_loaded_elsewhere(hosts, data.drop_last(), name);
        lemma_loaded_elsewhere(hosts, data.drop_last(), e.0);
        let front = loaded(hosts, data.drop_last());
        match lookup(front, e.0) {
            Some(o) => {
                law_lookup_put(
                    front,
                    e.0,
                    HostView { last_network_in: e.1, last_network_out: e.2, ..o },
                    name,
                );
            },
            None => {},
        }
    }
}

/// A report whose sums can all be held is never refused for an overflow, nor is one that
/// belongs to no host.
pub proof fn law_report_that_fits_is_acceptable(
    m: MgrView,
    stat: HostStatView,
    inst: Option<HostView>,
)
    ensures
        host_of(m.tables.hosts, stat, inst) is None ==> acceptable(m, stat, inst),
        host_of(m.tables.hosts, stat, inst) matches Some(h) ==> (acceptable(m, stat, inst) <==> {
            &&& h.gid.len() > 0 ==> h.latest_ts + m.cfg.group_gc <= u64::MAX
            &&& !h.disabled ==> {
                &&& stat.latest_ts + m.cfg.offline_threshold <= u64::MAX
                &&& stat.gid.len() > 0 ==> stat.latest_ts + m.cfg.group_gc <= u64::MAX
                &&& stat.weight + h.weight <= u64::MAX
            }
        }),
{
}

/// The pairs of a table and their values.
pub proof fn law_values_of_a_table<T>(s: Seq<(Seq<char>, T)>, i: int)
    requires
        0 <= i < s.len(),
    ensures
        values(s).len() == s.len(),
        values(s)[i] == s[i].1,
{
}

/// The second of a tick fits exactly where another clearing and another notification can
/// be set after it; that of a host or a report, where it can be cleared and go offline by
/// it.
pub proof fn law_seconds_that_fit(cfg: Intervals, gid: Seq<char>, ts: u64)
    ensures
        now_fits(cfg, ts) <==> ts <= u64::MAX - cfg.group_gc && ts <= u64::MAX
            - cfg.notify_interval,
        host_fits(cfg, gid, ts) <==> gid.len() == 0 || ts <= u64::MAX - cfg.group_gc,
        stat_fits(cfg, gid, ts) <==> ts <= u64::MAX - cfg.offline_threshold && (gid.len() == 0
            || ts <= u64::MAX - cfg.group_gc),
{
}

/// What is told of the hosts, and what stored counters say, one by one: the event with the
/// host's state, and the name with what came in before what went out.
pub proof fn law_what_notices_and_counters_say(
    v: Seq<Notification>,
    c: Seq<(String, u64, u64)>,
    i: int,
)
    ensures
        notification_views(v).len() == v.len(),
        0 <= i < v.len() ==> notification_views(v)[i].0 == v[i].event && notification_views(v)[i].1
            == v[i].stat@,
        counter_views(c).len() == c.len(),
        0 <= i < c.len() ==> counter_views(c)[i].0 == c[i].0@ && counter_views(c)[i].1 == c[i].1
            && counter_views(c)[i].2 == c[i].2,
{
}

/// What became of a report says what was stored of it, or why it was dropped.
pub proof fn law_view_of_an_outcome(o: Outcome)
    ensures
        o matches Outcome::Dropped(d) ==> o@ == OutcomeView::Dropped(d),
        o matches Outcome::Stored(a) ==> (o@ matches OutcomeView::Stored {
            stat,
            network_reset,
            node_up,
        } && stat == a.stat@ && network_reset == a.network_reset && node_up == a.node_up),
{
}

} // verus!
