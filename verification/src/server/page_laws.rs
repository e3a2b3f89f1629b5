//! What holds of the pages and the answers: what a request asks for, what is shown of the
//! hosts now and over time, and what is said on a stream.
use vstd::prelude::*;
use crate::decimal::{numeral, signed_value, unsigned_value};
use crate::payload::{
    disk_views, opt_view, DiskInfoView, HostStat, HostStatView, IpInfoView, SysInfoView,
};
use crate::registry::lookup;
use crate::server::db::{DiskRecord, HostStatRecord};
use crate::server::detail::{
    detail_rows, disk_row, disk_table_rows, disks_text, host_row, is_listed, is_pool, listed_rows,
    literal_views, owner_text, place_text, plain, pool_row, pool_rows, present, printable,
    printable_disks, printable_page, printable_row, printable_rows, row_views, sys_text, table_text,
    texts_fit, SizeTexts, SizeTextsView, DETAIL_TITLES, DISK_TITLES, POOL_DIVIDER,
};
use crate::server::grpc::{proto_text, stream_step, token_text, StreamEvent, StreamStep};
use crate::server::history::{
    cpu_series, disk_point, disk_series, extras_of, in_series, memory_series, out_series, points,
    tells, with_records, ServerExtras, ServerHistory, SpaceValue,
};
use crate::server::http::{
    admin_step, carrier_options, client_options, complete_request, domain_of, file_view, fills,
    is_document, is_failure, is_plain, is_template, media_of, names, number_option, numbers, param,
    quoted, readable, report_status, scheme_of, server_url_of, switches, text_options, time_param,
    timerange, AdminStep, ClientInit, Media, Origin, Reply, Site, Template, HTML, JSON, KIND,
    SCRIPT_NAME, SHELL, TEMPLATES,
};
use crate::server::width::{
    ascii_line, char_width, hidden, hidden_from, line_width, measurable, shown_in, unescaped,
    Escape,
};
use crate::text::{contains_text, joined, lines_of, lowercase, trimmed};

verus! {

// ---------------------------------------------------------------------------
// Requests
// ---------------------------------------------------------------------------

/// The second that a parameter asks for: the one that it writes, where it writes one that
/// can be held; otherwise the one that is meant where nothing is said.
pub proof fn law_second_that_is_asked_for(
    params: Seq<(Seq<char>, Seq<char>)>,
    key: Seq<char>,
    default: int,
)
    ensures
        lookup(params, key) is None ==> time_param(params, key, default) == default,
        lookup(params, key) matches Some(s) ==> {
            &&& signed_value(s) is None ==> time_param(params, key, default) == default
            &&& signed_value(s) matches Some(n) ==> {
                &&& i64::MIN <= n <= i64::MAX ==> time_param(params, key, default) == n
                &&& !(i64::MIN <= n <= i64::MAX) ==> time_param(params, key, default) == default
            }
        },
{
}

/// The span that is meant where nothing is said: the last ten minutes. Each end is said by
/// a parameter of its own.
pub proof fn law_span_that_is_meant(params: Seq<(Seq<char>, Seq<char>)>, now: int)
    ensures
        lookup(params, "start_time"@) is None ==> timerange(params, now).0 == now - 10 * 60,
        lookup(params, "end_time"@) is None ==> timerange(params, now).1 == now,
        lookup(params, "start_time"@) is Some ==> timerange(params, now).0 == time_param(
            params,
            "start_time"@,
            now - 10 * 60,
        ),
        lookup(params, "end_time"@) is Some ==> timerange(params, now).1 == time_param(
            params,
            "end_time"@,
            now,
        ),
{
}

/// What an administrator is answered: that the server is not ready, before it is; then, by
/// the path, the hosts over a span where the request says an end of it, all of them where
/// it does not, the configuration, or that there is nothing.
pub proof fn law_what_an_administrator_gets(
    path: Seq<char>,
    mgr_ready: bool,
    params: Seq<(Seq<char>, Seq<char>)>,
    now: int,
    step: AdminStep,
)
    requires
        admin_step(path, mgr_ready, params, now, step),
    ensures
        ({
            let named = lookup(params, "start_time"@) is Some || lookup(params, "end_time"@)
                is Some;
            &&& !mgr_ready ==> (step matches AdminStep::Answer { code, message } && code == 500
                && message@ == "StatsMgr not ready"@)
            &&& mgr_ready && path == "stats.json"@ && named ==> (step matches AdminStep::Span {
                start_time,
                end_time,
            } && start_time == timerange(params, now).0 && end_time == timerange(params, now).1)
            &&& mgr_ready && path == "stats.json"@ && !named ==> step is Everything
            &&& mgr_ready && path == "config.json"@ ==> step is Config
            &&& mgr_ready && path != "stats.json"@ && path != "config.json"@ ==> (
            step matches AdminStep::Answer { code, message } && code == 404 && message@
                == "Not found"@)
        }),
{
    reveal_strlit("stats.json");
    reveal_strlit("config.json");
    assert("stats.json"@[0] != "config.json"@[0]);
}

/// The kinds of answers, part by part.
pub proof fn law_kinds_of_answers(r: Reply, status: u16, text: Seq<char>, media_type: Seq<char>)
    ensures
        is_document(r, media_type, text) ==> (r matches Reply::Document { media_type: m, body }
            && m@ == media_type && body@ == text),
        is_plain(r, status, text) ==> (r matches Reply::Plain { status: s, text: t } && s == status
            && t@ == text),
        is_failure(r, status, text) ==> (r matches Reply::Failure { status: s, code, error } && s
            == status && code == status && error@ == text),
{
}

/// The templates that are made: those of the files before the first that is not there or
/// is no text, each under its name and with the text of its file.
pub proof fn law_templates_that_are_made(files: Seq<Option<Seq<u8>>>, i: int)
    ensures
        readable(files) <= files.len(),
        0 <= i < readable(files) ==> (files[i] matches Some(f) && vstd::utf8::valid_utf8(f)),
        i == readable(files) && i < files.len() ==> !(files[i] matches Some(f)
            && vstd::utf8::valid_utf8(f)),
        TEMPLATES@ == seq!["detail", "map", "client-init"],
        KIND@ == "http"@,
    decreases files.len(),
{
    if files.len() > 0 && (files[0] matches Some(f) && vstd::utf8::valid_utf8(f)) {
        law_templates_that_are_made(files.drop_first(), i - 1);
        if i > 0 && i < files.len() {
            assert(files.drop_first()[i - 1] == files[i]);
        }
    }
}

/// A template is kept under its kind and name, with the text that its bytes encode.
pub proof fn law_template_of_a_file(t: Template, name: Seq<char>, bytes: Seq<u8>)
    requires
        is_template(t, name, bytes),
    ensures
        t.kind@ == "http"@,
        t.name@ == name,
        t.text@ == vstd::utf8::decode_utf8(bytes),
{
}

/// A request to set up a client is complete where it says a password, and a host, or a
/// group and an alias; a parameter that is not there says nothing.
pub proof fn law_complete_requests(p: Seq<(Seq<char>, Seq<char>)>, key: Seq<char>)
    ensures
        lookup(p, key) is None ==> param(p, key).len() == 0,
        lookup(p, key) matches Some(s) ==> param(p, key) == s,
        param(p, "pass"@).len() == 0 ==> !complete_request(p),
        param(p, "uid"@).len() == 0 && param(p, "gid"@).len() == 0 ==> !complete_request(p),
        param(p, "uid"@).len() == 0 && param(p, "alias"@).len() == 0 ==> !complete_request(p),
        param(p, "pass"@).len() > 0 && param(p, "uid"@).len() > 0 ==> complete_request(p),
        param(p, "pass"@).len() > 0 && param(p, "gid"@).len() > 0 && param(p, "alias"@).len() > 0
            ==> complete_request(p),
{
}

/// Where a client reports to: where the configuration says; otherwise to the address under
/// which the server was reached, as the proxy names it, or else the request, or else to
/// this machine.
pub proof fn law_where_a_client_reports_to(site: Site, o: Origin)
    ensures
        site.server_url@.len() > 0 ==> server_url_of(site, o) == site.server_url@,
        site.server_url@.len() == 0 ==> {
            &&& o.forwarded_proto matches Some(s) ==> scheme_of(site, o) == s@
            &&& o.forwarded_proto is None ==> {
                &&& o.scheme matches Some(s) ==> scheme_of(site, o) == s@
                &&& o.scheme is None ==> scheme_of(site, o) == "http"@
            }
            &&& o.forwarded_host matches Some(s) ==> domain_of(site, o) == s@
            &&& o.forwarded_host is None ==> {
                &&& o.host matches Some(s) ==> domain_of(site, o) == s@
                &&& o.host is None ==> domain_of(site, o) == "localhost"@
            }
            &&& server_url_of(site, o) == scheme_of(site, o) + "://"@ + domain_of(site, o)
                + "/report"@
        },
        site.server_url@.len() > 0 ==> scheme_of(site, o) == "http"@ && domain_of(site, o)
            == "localhost"@,
{
}

/// The switches that a client is started with: each where its parameter says so, in this
/// order.
pub proof fn law_switches_of_a_client(p: Seq<(Seq<char>, Seq<char>)>)
    ensures
        switches(p) == (if lookup(p, "debug"@) == Some("1"@) {
            " -d"@
        } else {
            Seq::empty()
        }) + (if lookup(p, "vnstat"@) == Some("1"@) {
            " -n"@
        } else {
            Seq::empty()
        }) + (if lookup(p, "ping"@) == Some("0"@) {
            " --disable-ping"@
        } else {
            Seq::empty()
        }) + (if lookup(p, "tupd"@) == Some("0"@) {
            " --disable-tupd"@
        } else {
            Seq::empty()
        }) + (if lookup(p, "extra"@) == Some("0"@) {
            " --disable-extra"@
        } else {
            Seq::empty()
        }) + (if lookup(p, "notify"@) == Some("0"@) {
            " --disable-notify"@
        } else {
            Seq::empty()
        }),
{
}

/// The options that carry a number: each where its parameter writes one within its bounds.
/// A weight is at least one; the day of the month lies between the second and the
/// twenty-eighth; an interval is at least one.
pub proof fn law_numbers_of_a_client(
    p: Seq<(Seq<char>, Seq<char>)>,
    key: Seq<char>,
    option: Seq<char>,
    lo: int,
    hi: int,
)
    ensures
        unsigned_value(param(p, key)) is None ==> number_option(p, key, option, lo, hi).len() == 0,
        unsigned_value(param(p, key)) matches Some(n) ==> {
            &&& lo <= n <= hi ==> number_option(p, key, option, lo, hi) == option + numeral(
                n as nat,
            )
            &&& n < lo || n > hi ==> number_option(p, key, option, lo, hi).len() == 0
        },
        numbers(p) == number_option(p, "weight"@, " -w "@, 1, 0xffff_ffff_ffff_ffff)
            + number_option(p, "vnstat-mr"@, " --vnstat-mr "@, 2, 28) + number_option(
            p,
            "interval"@,
            " --interval "@,
            1,
            0xffff_ffff,
        ),
{
}

/// Who a client is told that it is: the member of a group under an alias, and the host,
/// each where the request says it.
pub proof fn law_names_of_a_client(p: Seq<(Seq<char>, Seq<char>)>)
    ensures
        names(p) == (if param(p, "gid"@).len() > 0 {
            " -g \""@ + param(p, "gid"@) + "\" --alias \""@ + param(p, "alias"@) + "\""@
        } else {
            Seq::empty()
        }) + (if param(p, "uid"@).len() > 0 {
            " -u \""@ + param(p, "uid"@) + "\""@
        } else {
            Seq::empty()
        }),
{
}

/// A text is handed on behind its option where the request says one, in quotes; an address
/// at a carrier where it names a port. Each stands behind those before it.
pub proof fn law_texts_of_a_client(p: Seq<(Seq<char>, Seq<char>)>, n: nat)
    ensures
        text_options(p, 0).len() == 0,
        n < 5 ==> {
            let key = seq!["type"@, "loc"@, "iface"@, "exclude-iface"@, "ip-source"@][n as int];
            let option = seq!["-t"@, "--location"@, "--iface"@, "--exclude-iface"@, "--ip-source"@][n as int];
            let value = param(p, key);
            &&& value.len() == 0 ==> text_options(p, n + 1) == text_options(p, n)
            &&& value.len() > 0 ==> text_options(p, n + 1) == text_options(p, n) + quoted(
                option,
                value,
            )
        },
        carrier_options(p, 0).len() == 0,
        n < 3 ==> {
            let key = seq!["cm"@, "ct"@, "cu"@][n as int];
            let option = seq!["--cm"@, "--ct"@, "--cu"@][n as int];
            let value = param(p, key);
            &&& !value.contains(':') ==> carrier_options(p, n + 1) == carrier_options(p, n)
            &&& value.contains(':') ==> carrier_options(p, n + 1) == carrier_options(p, n) + quoted(
                option,
                value,
            )
        },
{
    let key = seq!["cm"@, "ct"@, "cu"@][n as int];
    let value = param(p, key);
    lemma_colon(value);
    assert(text_options(p, n) + Seq::<char>::empty() =~= text_options(p, n));
    assert(carrier_options(p, n) + Seq::<char>::empty() =~= carrier_options(p, n));
    if n < 5 {
        assert(text_options(p, n + 1) == {
            let (key, option) = crate::server::http::TEXT_OPTIONS@[n as int];
            text_options(p, n) + crate::server::http::only_if(
                param(p, key@).len() > 0,
                quoted(option@, param(p, key@)),
            )
        });
    }
    if n < 3 {
        assert(carrier_options(p, n + 1) == {
            let (key, option) = crate::server::http::CARRIER_OPTIONS@[n as int];
            carrier_options(p, n) + crate::server::http::only_if(
                contains_text(param(p, key@), ":"@),
                quoted(option@, param(p, key@)),
            )
        });
    }
}

proof fn lemma_colon(s: Seq<char>)
    ensures
        contains_text(s, ":"@) <==> s.contains(':'),
{
    reveal_strlit(":");
    if contains_text(s, ":"@) {
        let i = choose|i: int| crate::text::occurs_at(s, ":"@, i);
        assert(s.subrange(i, i + 1)[0] == s[i]);
        assert(":"@[0] == ':');
    }
    if s.contains(':') {
        let i = choose|i: int| 0 <= i < s.len() && s[i] == ':';
        assert(s.subrange(i, i + 1) =~= ":"@);
        assert(crate::text::occurs_at(s, ":"@, i));
    }
}

/// The options of a client begin with where it reports to and its password; a text stands
/// behind its option in quotes.
pub proof fn law_options_of_a_client(
    p: Seq<(Seq<char>, Seq<char>)>,
    url: Seq<char>,
    option: Seq<char>,
    value: Seq<char>,
)
    ensures
        client_options(p, url) == "-a \""@ + url + "\" -p \""@ + param(p, "pass"@) + "\""@
            + switches(p) + numbers(p) + names(p) + text_options(p, 5) + carrier_options(p, 3),
        quoted(option, value) == seq![' '] + option + seq![' ', '"'] + value + seq!['"'],
{
    reveal_strlit(" ");
    reveal_strlit(" \"");
    reveal_strlit("\"");
    assert(" "@ =~= seq![' ']);
    assert(" \""@ =~= seq![' ', '"']);
    assert("\""@ =~= seq!['"']);
}

/// What the script that sets up a client is filled with, part by part.
pub proof fn law_script_is_filled(
    c: ClientInit,
    p: Seq<(Seq<char>, Seq<char>)>,
    site: Site,
    o: Origin,
)
    requires
        fills(c, p, site, o),
    ensures
        c.pass@ == param(p, "pass"@),
        c.uid@ == param(p, "uid"@),
        c.gid@ == param(p, "gid"@),
        c.alias@ == param(p, "alias"@),
        c.vnstat <==> lookup(p, "vnstat"@) == Some("1"@),
        c.weight@ == param(p, "weight"@),
        c.cn <==> lookup(p, "cn"@) == Some("1"@),
        c.domain@ == domain_of(site, o),
        c.scheme@ == scheme_of(site, o),
        c.server_url@ == server_url_of(site, o),
        c.workspace@ == site.workspace@,
        c.client_opts@ == client_options(p, server_url_of(site, o)),
{
}

/// The form in which a report comes, by the beginning of its content type.
pub proof fn law_form_of_a_report(content_type: Option<&str>)
    ensures
        content_type is None ==> media_of(content_type) == Media::Other,
        content_type matches Some(t) ==> {
            let pb = t@.len() >= 24 && t@.take(24) == "application/octet-stream"@;
            let json = t@.len() >= 16 && t@.take(16) == "application/json"@;
            &&& media_of(content_type) == Media::Protobuf <==> pb
            &&& media_of(content_type) == Media::Json <==> json && !pb
            &&& media_of(content_type) == Media::Other <==> !json && !pb
        },
{
    reveal_strlit("");
    reveal_strlit("application/octet-stream");
    reveal_strlit("application/json");
    if content_type is Some {
        let t = content_type->0@;
        if t.len() >= 24 {
            assert(t.take(24) =~= t.subrange(0, 24));
        }
        if t.len() >= 16 {
            assert(t.take(16) =~= t.subrange(0, 16));
        }
    }
}

/// How a report is answered: not at all by its form, badly where it cannot be read, and
/// otherwise by whether the server is ready.
pub proof fn law_how_a_report_is_answered(media: Media, reads: bool, mgr_ready: bool)
    ensures
        report_status(media, reads, mgr_ready) == 200 <==> media != Media::Other && reads
            && mgr_ready,
        report_status(media, reads, mgr_ready) == 415 <==> media == Media::Other,
        report_status(media, reads, mgr_ready) == 400 <==> media != Media::Other && !reads,
        report_status(media, reads, mgr_ready) == 500 <==> media != Media::Other && reads
            && !mgr_ready,
{
}

// ---------------------------------------------------------------------------
// Streams
// ---------------------------------------------------------------------------

/// A stream goes on as long as reports come, are processed and can be acknowledged, and
/// ends where one of these fails. Each report is acknowledged, be it accepted or not.
pub proof fn law_how_a_stream_goes_on(accepted: bool)
    ensures
        stream_step(StreamEvent::Opened) == StreamStep::Receive,
        stream_step(StreamEvent::Message) == StreamStep::Process,
        stream_step(StreamEvent::Processed { accepted }) == StreamStep::Acknowledge,
        stream_step(StreamEvent::Sent) == StreamStep::Receive,
        stream_step(StreamEvent::Closed) == StreamStep::Stop,
        stream_step(StreamEvent::Broken) == StreamStep::Stop,
        stream_step(StreamEvent::Unsent) == StreamStep::Stop,
{
}

/// A token is the name and the password with the separator between; and what the line on
/// where the server listens adds on certificates.
pub proof fn law_tokens_and_certificates(name: Seq<char>, pass: Seq<char>, grpc_tls: u32)
    ensures
        token_text(name, pass) == name + seq!['@', '_', '@'] + pass,
        grpc_tls == 0 ==> proto_text(grpc_tls).len() == 0,
        grpc_tls == 1 ==> proto_text(grpc_tls) == " + TLS"@,
        grpc_tls >= 2 ==> proto_text(grpc_tls) == " + mTLS"@,
{
    reveal_strlit("@_@");
    reveal_strlit("");
    assert("@_@"@ =~= seq!['@', '_', '@']);
}

// ---------------------------------------------------------------------------
// The hosts over time
// ---------------------------------------------------------------------------

/// Every point of a series says what its record says: the processor's use; the memory, in
/// all, in use and as a part of the whole; and for each direction the speed and the bytes
/// so far.
pub proof fn law_points_say_what_the_records_say(r: Seq<HostStatRecord>, i: int)
    requires
        0 <= i < r.len(),
    ensures
        cpu_series(r).len() == r.len(),
        memory_series(r).len() == r.len(),
        in_series(r).len() == r.len(),
        out_series(r).len() == r.len(),
        cpu_series(r)[i].timestamp == r[i].timestamp,
        cpu_series(r)[i].value == r[i].cpu,
        memory_series(r)[i].timestamp == r[i].timestamp,
        memory_series(r)[i].total == r[i].memory_total,
        memory_series(r)[i].used == r[i].memory_used,
        r[i].memory_total > 0 ==> (memory_series(r)[i].value matches Some(s) && s.part
            == r[i].memory_used && s.whole == r[i].memory_total),
        r[i].memory_total <= 0 ==> memory_series(r)[i].value is None,
        in_series(r)[i].timestamp == r[i].timestamp,
        in_series(r)[i].value == r[i].network_in_speed,
        in_series(r)[i].total == r[i].network_in,
        out_series(r)[i].timestamp == r[i].timestamp,
        out_series(r)[i].value == r[i].network_out_speed,
        out_series(r)[i].total == r[i].network_out,
{
}

/// The point of a disk: its size and what of it is used, also as a part of the whole where
/// there is one, at the second of the record.
pub proof fn law_point_of_a_disk(timestamp: i64, d: DiskRecord)
    ensures
        disk_point(timestamp, d).timestamp == timestamp,
        disk_point(timestamp, d).total == d.total,
        disk_point(timestamp, d).used == d.used,
        d.total > 0 ==> (disk_point(timestamp, d).value matches Some(s) && s.part == d.used
            && s.whole == d.total),
        d.total <= 0 ==> disk_point(timestamp, d).value is None,
{
}

/// The points of the disks mounted at a place: with one more record, those of its disks
/// that are mounted there are added behind the others, in their order.
pub proof fn law_one_more_record_of_disks(r: Seq<HostStatRecord>, x: HostStatRecord, k: Seq<char>)
    ensures
        points(disk_series(Seq::<HostStatRecord>::empty()), k).len() == 0,
        points(disk_series(r.push(x)), k) == points(disk_series(r), k) + x.disks@.filter(
            |d: DiskRecord| d.mount_point@ == k,
        ).map_values(|d: DiskRecord| disk_point(x.timestamp, d)),
{
    crate::server::history::law_disk_series_complete(r, k);
    crate::server::history::law_disk_series_complete(r.push(x), k);
    crate::server::history::law_disk_series_complete(Seq::<HostStatRecord>::empty(), k);
    assert(r.push(x).drop_last() =~= r);
    lemma_points_of_disks(x.timestamp, x.disks@, k);
}

proof fn lemma_points_of_disks(timestamp: i64, disks: Seq<DiskRecord>, k: Seq<char>)
    ensures
        crate::server::history::disk_points(timestamp, disks, k) == disks.filter(
            |d: DiskRecord| d.mount_point@ == k,
        ).map_values(|d: DiskRecord| disk_point(timestamp, d)),
    decreases disks.len(),
{
    reveal(Seq::filter);
    let p = |d: DiskRecord| d.mount_point@ == k;
    let f = |d: DiskRecord| disk_point(timestamp, d);
    if disks.len() == 0 {
        assert(disks.filter(p).map_values(f) =~= Seq::<SpaceValue>::empty());
    } else {
        let t = disks.drop_last();
        lemma_points_of_disks(timestamp, t, k);
        if p(disks.last()) {
            assert(t.filter(p).push(disks.last()).map_values(f) =~= t.filter(p).map_values(f).push(
                f(disks.last()),
            ));
        }
    }
}

/// What is told of a host over time: its name; the alias and whether it is online by the
/// last of the records; how many there are; and the series of all of them.
pub proof fn law_what_is_told_over_time(h: ServerHistory, name: Seq<char>, r: Seq<HostStatRecord>)
    requires
        r.len() > 0,
        tells(h, name, r),
    ensures
        h.name@ == name,
        h.alias@ == r[r.len() - 1].alias@,
        h.online == r[r.len() - 1].online,
        h.data_points == r.len(),
        h.cpu@ == cpu_series(r),
        h.memory@ == memory_series(r),
        h.network_in@ == in_series(r),
        h.network_out@ == out_series(r),
        h.disks@ == disk_series(r),
{
}

/// The hosts that are told of over time are those that have records, in their order.
pub proof fn law_hosts_with_records(
    s: Seq<(Seq<char>, Seq<HostStatRecord>)>,
    e: (Seq<char>, Seq<HostStatRecord>),
)
    ensures
        with_records(Seq::<(Seq<char>, Seq<HostStatRecord>)>::empty()).len() == 0,
        e.1.len() > 0 ==> with_records(s.push(e)) == with_records(s).push(e),
        e.1.len() == 0 ==> with_records(s.push(e)) == with_records(s),
{
    reveal(Seq::filter);
    assert(s.push(e).drop_last() =~= s);
}

/// What is shown of a host beyond its state, part by part; the disks where there are any.
pub proof fn law_what_is_shown_beyond(e: ServerExtras, s: HostStat)
    requires
        extras_of(e, s),
    ensures
        opt_view(e.ip_info) == s@.ip_info,
        opt_view(e.sys_info) == s@.sys_info,
        s@.disks.len() == 0 <==> e.disks is None,
        e.disks matches Some(d) ==> disk_views(d@) == s@.disks,
{
}

// ---------------------------------------------------------------------------
// The page with all details
// ---------------------------------------------------------------------------

/// The row of a disk, cell by cell.
pub proof fn law_row_of_a_disk(d: DiskInfoView, t: SizeTextsView)
    ensures
        disk_row(d, t).len() == 6,
        disk_row(d, t)[0] == d.name,
        disk_row(d, t)[1] == d.mount_point,
        disk_row(d, t)[2] == d.file_system,
        disk_row(d, t)[3] == t.total,
        disk_row(d, t)[4] == t.used,
        disk_row(d, t)[5] == t.free,
{
}

/// A disk is a pool where its name begins so, and the row of one shows the rest of the
/// name and, in brackets behind what is used, the percentage.
pub proof fn law_row_of_a_pool(d: DiskInfoView, t: SizeTextsView)
    ensures
        is_pool(d) <==> d.name.len() >= 6 && d.name.take(6) == seq!['z', 'p', 'o', 'o', 'l', '-'],
        is_listed(d) <==> !is_pool(d) && lowercase(d.file_system) != seq!['z', 'f', 's'],
        pool_row(d, t).len() == 6,
        is_pool(d) ==> pool_row(d, t)[0] == d.name.skip(6),
        pool_row(d, t)[1] == d.mount_point,
        pool_row(d, t)[2] == seq!['Z', 'F', 'S'],
        pool_row(d, t)[3] == t.total,
        pool_row(d, t)[4] == t.used + seq![' ', '('] + t.usage + seq!['%', ')'],
        pool_row(d, t)[5] == t.free,
{
    reveal_strlit("zpool-");
    reveal_strlit("zfs");
    reveal_strlit("ZFS");
    reveal_strlit(" (");
    reveal_strlit("%)");
    assert("zpool-"@ =~= seq!['z', 'p', 'o', 'o', 'l', '-']);
    assert("zfs"@ =~= seq!['z', 'f', 's']);
    assert("ZFS"@ =~= seq!['Z', 'F', 'S']);
    assert(" ("@ =~= seq![' ', '(']);
    assert("%)"@ =~= seq!['%', ')']);
    if d.name.len() >= 6 {
        assert(d.name.take(6) =~= d.name.subrange(0, 6));
        assert(d.name.skip(6) =~= d.name.subrange(6, d.name.len() as int));
    }
}

/// The rows of the disks, disk by disk: a pool adds one to the pools, a disk that is in
/// none one to the disks, and any other none; the pools stand behind the disks, with a
/// divider between, where there are any.
pub proof fn law_rows_of_the_disks(s: Seq<DiskInfoView>, t: Seq<SizeTexts>, n: int)
    requires
        0 <= n < s.len(),
    ensures
        listed_rows(s, t, 0).len() == 0,
        pool_rows(s, t, 0).len() == 0,
        is_listed(s[n]) ==> listed_rows(s, t, n + 1) == listed_rows(s, t, n).push(
            disk_row(s[n], t[n]@),
        ),
        !is_listed(s[n]) ==> listed_rows(s, t, n + 1) == listed_rows(s, t, n),
        is_pool(s[n]) ==> pool_rows(s, t, n + 1) == pool_rows(s, t, n).push(pool_row(s[n], t[n]@)),
        !is_pool(s[n]) ==> pool_rows(s, t, n + 1) == pool_rows(s, t, n),
        ({
            let disks = listed_rows(s, t, s.len() as int);
            let pools = pool_rows(s, t, s.len() as int);
            &&& pools.len() == 0 ==> disk_table_rows(s, t) == disks
            &&& pools.len() > 0 ==> disk_table_rows(s, t) == disks + seq![
                seq!["--- ZFS ---"@, "---"@, "---"@, "---"@, "---"@, "---"@],
            ] + pools
        }),
        disks_text(s, t) == table_text(
            seq!["名称"@, "挂载点"@, "类型"@, "总容量"@, "已用"@, "可用"@],
            disk_table_rows(s, t),
        ),
{
    assert(literal_views(POOL_DIVIDER@) =~= seq!["--- ZFS ---"@, "---"@, "---"@, "---"@, "---"@, "---"@]);
    assert(literal_views(DISK_TITLES@) =~= seq!["名称"@, "挂载点"@, "类型"@, "总容量"@, "已用"@, "可用"@]);
    let disks = listed_rows(s, t, s.len() as int);
    assert(disks.push(literal_views(POOL_DIVIDER@)) =~= disks + seq![literal_views(POOL_DIVIDER@)]);
}

/// The row of a host, cell by cell: its number, its name, its alias, where it is, how long
/// it is up, its address, its system, the place and the owner of the address, its disks.
pub proof fn law_row_of_a_host(idx: nat, h: HostStatView, disks: Seq<char>)
    ensures
        ({
            let r = host_row(idx, h, disks);
            &&& r.len() == 9
            &&& r[0] == numeral(idx)
            &&& r[1] == h.name
            &&& r[2] == h.alias
            &&& r[3] == h.location
            &&& r[4] == h.uptime_str
            &&& h.ip_info matches Some(i) ==> r[5] == i.query && r[7] == place_text(i) + seq!['\n']
                + owner_text(i)
            &&& h.ip_info is None ==> r[5] == "xx.xx.xx.xx"@ && r[7] == seq!['\n']
            &&& h.sys_info matches Some(o) ==> r[6] == sys_text(o)
            &&& h.sys_info is None ==> r[6].len() == 0
            &&& r[8] == disks
        }),
{
    reveal_strlit("\n");
    assert("\n"@ =~= seq!['\n']);
}

/// The page has a row for each host, in their order and numbered from zero, each with the
/// table of its own disks; there is none of no disks.
pub proof fn law_rows_of_the_page(s: Seq<HostStatView>, t: Seq<Vec<SizeTexts>>, i: int)
    requires
        0 <= i < s.len(),
    ensures
        detail_rows(s, t).len() == s.len(),
        detail_rows(s, t)[i] == host_row(i as nat, s[i], disks_text(s[i].disks, t[i]@)),
        s[i].disks.len() == 0 ==> disks_text(s[i].disks, t[i]@).len() == 0,
        literal_views(DETAIL_TITLES@) == seq![
            "#"@,
            "Id"@,
            "节点名"@,
            "位置"@,
            "在线时间"@,
            "IP"@,
            "系统信息"@,
            "IP信息"@,
            "存储信息"@,
        ],
        texts_fit(s, t) ==> t.len() == s.len() && t[i]@.len() == s[i].disks.len(),
{
    assert(literal_views(DETAIL_TITLES@) =~= seq![
        "#"@,
        "Id"@,
        "节点名"@,
        "位置"@,
        "在线时间"@,
        "IP"@,
        "系统信息"@,
        "IP信息"@,
        "存储信息"@,
    ]);
}

/// The parts that are present: each without white space around it, where something is left
/// of it, in their order.
pub proof fn law_parts_that_are_present(s: Seq<Seq<char>>, x: Seq<char>)
    ensures
        present(Seq::<Seq<char>>::empty()).len() == 0,
        trimmed(x).len() > 0 ==> present(s.push(x)) == present(s).push(trimmed(x)),
        trimmed(x).len() == 0 ==> present(s.push(x)) == present(s),
{
    assert(s.push(x).drop_last() =~= s);
}

/// The place and the owner of an address are made of the parts that are present.
pub proof fn law_place_and_owner(i: IpInfoView)
    ensures
        place_text(i) == joined(
            present(seq![i.continent, i.country, i.region_name, i.city]),
            seq!['/'],
        ),
        owner_text(i) == joined(present(seq![i.isp, i.org, i.asn, i.asname]), seq!['\n']),
{
    reveal_strlit("/");
    reveal_strlit("\n");
    assert("/"@ =~= seq!['/']);
    assert("\n"@ =~= seq!['\n']);
}

/// The text on a system has a line for each part, under its name.
pub proof fn law_lines_on_a_system(o: SysInfoView)
    ensures
        sys_text(o) == "version:        "@ + o.version + seq!['\n'] + "host_name:      "@
            + o.host_name + seq!['\n'] + "os_name:        "@ + o.os_name + seq!['\n']
            + "os_arch:        "@ + o.os_arch + seq!['\n'] + "os_family:      "@ + o.os_family
            + seq!['\n'] + "os_release:     "@ + o.os_release + seq!['\n'] + "kernel_version: "@
            + o.kernel_version + seq!['\n'] + "cpu_num:        "@ + numeral(o.cpu_num as nat)
            + seq!['\n'] + "cpu_brand:      "@ + o.cpu_brand + seq!['\n'] + "cpu_vender_id:  "@
            + o.cpu_vender_id,
{
    reveal_strlit("\nhost_name:      ");
    reveal_strlit("\nos_name:        ");
    reveal_strlit("\nos_arch:        ");
    reveal_strlit("\nos_family:      ");
    reveal_strlit("\nos_release:     ");
    reveal_strlit("\nkernel_version: ");
    reveal_strlit("\ncpu_num:        ");
    reveal_strlit("\ncpu_brand:      ");
    reveal_strlit("\ncpu_vender_id:  ");
    reveal_strlit("host_name:      ");
    reveal_strlit("os_name:        ");
    reveal_strlit("os_arch:        ");
    reveal_strlit("os_family:      ");
    reveal_strlit("os_release:     ");
    reveal_strlit("kernel_version: ");
    reveal_strlit("cpu_num:        ");
    reveal_strlit("cpu_brand:      ");
    reveal_strlit("cpu_vender_id:  ");
    let nl = seq!['\n'];
    assert("\nhost_name:      "@ =~= nl + "host_name:      "@);
    assert("\nos_name:        "@ =~= nl + "os_name:        "@);
    assert("\nos_arch:        "@ =~= nl + "os_arch:        "@);
    assert("\nos_family:      "@ =~= nl + "os_family:      "@);
    assert("\nos_release:     "@ =~= nl + "os_release:     "@);
    assert("\nkernel_version: "@ =~= nl + "kernel_version: "@);
    assert("\ncpu_num:        "@ =~= nl + "cpu_num:        "@);
    assert("\ncpu_brand:      "@ =~= nl + "cpu_brand:      "@);
    assert("\ncpu_vender_id:  "@ =~= nl + "cpu_vender_id:  "@);
    lemma_assoc("version:        "@ + o.version, nl, "host_name:      "@);
    let a = "version:        "@ + o.version + nl + "host_name:      "@ + o.host_name;
    lemma_assoc(a, nl, "os_name:        "@);
    let a = a + nl + "os_name:        "@ + o.os_name;
    lemma_assoc(a, nl, "os_arch:        "@);
    let a = a + nl + "os_arch:        "@ + o.os_arch;
    lemma_assoc(a, nl, "os_family:      "@);
    let a = a + nl + "os_family:      "@ + o.os_family;
    lemma_assoc(a, nl, "os_release:     "@);
    let a = a + nl + "os_release:     "@ + o.os_release;
    lemma_assoc(a, nl, "kernel_version: "@);
    let a = a + nl + "kernel_version: "@ + o.kernel_version;
    lemma_assoc(a, nl, "cpu_num:        "@);
    let a = a + nl + "cpu_num:        "@ + numeral(o.cpu_num as nat);
    lemma_assoc(a, nl, "cpu_brand:      "@);
    let a = a + nl + "cpu_brand:      "@ + o.cpu_brand;
    lemma_assoc(a, nl, "cpu_vender_id:  "@);
}

proof fn lemma_assoc(a: Seq<char>, b: Seq<char>, c: Seq<char>)
    ensures
        a + (b + c) == a + b + c,
{
    assert(a + (b + c) =~= a + b + c);
}

/// What can be printed: a cell where each of its lines can be measured, a row where each
/// cell can, and the page where the tables of disks and its own rows can.
pub proof fn law_what_can_be_printed(
    cell: Seq<char>,
    row: Seq<Seq<char>>,
    rows: Seq<Seq<Seq<char>>>,
    s: Seq<HostStatView>,
    t: Seq<Vec<SizeTexts>>,
)
    ensures
        printable(cell) <==> forall|i: int|
            0 <= i < lines_of(cell).len() ==> hidden(#[trigger] lines_of(cell)[i]) <= line_width(
                lines_of(cell)[i],
            ),
        printable_row(row) <==> forall|i: int| 0 <= i < row.len() ==> printable(#[trigger] row[i]),
        printable_rows(rows) <==> forall|i: int|
            0 <= i < rows.len() ==> printable_row(#[trigger] rows[i]),
        printable_page(s, t) <==> printable_rows(detail_rows(s, t)) && forall|i: int|
            0 <= i < s.len() ==> s[i].disks.len() == 0 || printable_rows(
                #[trigger] disk_table_rows(s[i].disks, t[i]@),
            ),
{
    assert forall|i: int| 0 <= i < lines_of(cell).len() implies (measurable(
        #[trigger] lines_of(cell)[i],
    ) <==> hidden(lines_of(cell)[i]) <= line_width(lines_of(cell)[i])) by {}
    assert forall|i: int| 0 <= i < s.len() implies (#[trigger] printable_disks(s[i].disks, t[i]@)
        <==> s[i].disks.len() == 0 || printable_rows(disk_table_rows(s[i].disks, t[i]@))) by {}
    if printable_page(s, t) {
        assert forall|i: int| 0 <= i < s.len() implies s[i].disks.len() == 0 || printable_rows(
            #[trigger] disk_table_rows(s[i].disks, t[i]@),
        ) by {
            assert(printable_disks(s[i].disks, t[i]@));
        }
    }
}

/// Which characters of a line are left out of its width: those that take columns, from the
/// bracket behind an escape character up to and with the next `m`.
pub proof fn law_what_is_left_out_of_a_width(line: Seq<char>, shown: Seq<bool>, e: Escape)
    requires
        line.len() > 0,
    ensures
        ({
            let c = line[0];
            let left_out = shown[0] && (e == Escape::Inside || (e == Escape::Begun && c == '['));
            let next = if e == Escape::Outside && c == '\u{1b}' {
                Escape::Begun
            } else if (e == Escape::Begun && c == '[') || (e == Escape::Inside && c != 'm') {
                Escape::Inside
            } else {
                Escape::Outside
            };
            hidden_from(line, shown, e) == hidden_from(
                line.drop_first(),
                shown.drop_first(),
                next,
            ) + (if left_out {
                1nat
            } else {
                0nat
            })
        }),
        hidden_from(Seq::<char>::empty(), shown, e) == 0,
        hidden(line) == hidden_from(line, shown_in(line), Escape::Outside),
        shown_in(line).len() == line.len(),
        shown_in(line)[0] <==> (char_width(line[0]) matches Some(n) && n >= 1),
{
}

/// What lists of cells and of files say, and the texts of a size, one by one.
pub proof fn law_what_cells_and_files_say(
    rows: Seq<Vec<String>>,
    titles: Seq<&'static str>,
    f: Option<Vec<u8>>,
    z: SizeTexts,
    i: int,
)
    ensures
        row_views(rows).len() == rows.len(),
        0 <= i < rows.len() ==> row_views(rows)[i].len() == rows[i]@.len() && forall|k: int|
            0 <= k < rows[i]@.len() ==> #[trigger] row_views(rows)[i][k] == rows[i]@[k]@,
        literal_views(titles).len() == titles.len(),
        0 <= i < titles.len() ==> literal_views(titles)[i] == titles[i]@,
        f is None <==> file_view(f) is None,
        f matches Some(v) ==> file_view(f) == Some(v@),
        z@.total == z.total@,
        z@.used == z.used@,
        z@.free == z.free@,
        z@.usage == z.usage@,
{
}

/// A cell that is surely printed: it holds no escape character, or nothing beyond ASCII.
pub proof fn law_which_cells_are_plain(cell: Seq<char>)
    ensures
        plain(cell) <==> (forall|i: int| 0 <= i < cell.len() ==> #[trigger] cell[i] as int != 27)
            || (forall|i: int| 0 <= i < cell.len() ==> #[trigger] cell[i] as int <= 127),
        unescaped(cell) <==> forall|i: int| 0 <= i < cell.len() ==> #[trigger] cell[i] as int != 27,
        ascii_line(cell) <==> forall|i: int|
            0 <= i < cell.len() ==> #[trigger] cell[i] as int <= 127 && cell[i] as int != 10,
{
}

/// A token reads as the name, the separator and the password, and tells two accounts apart
/// whose names hold no `@`.
pub proof fn law_tokens_tell_accounts_apart(
    name: Seq<char>,
    pass: Seq<char>,
    name2: Seq<char>,
    pass2: Seq<char>,
)
    requires
        !name.contains('@'),
        !name2.contains('@'),
        token_text(name, pass) == token_text(name2, pass2),
    ensures
        name == name2,
        pass == pass2,
{
    reveal_strlit("@_@");
    let t = token_text(name, pass);
    assert(t[name.len() as int] == '@');
    assert(t[name2.len() as int] == token_text(name2, pass2)[name2.len() as int] == '@');
    assert(name.len() == name2.len()) by {
        if name.len() < name2.len() {
            assert(t[name.len() as int] == name2[name.len() as int]);
        } else if name2.len() < name.len() {
            assert(t[name2.len() as int] == name[name2.len() as int]);
        }
    }
    assert(name =~= t.take(name.len() as int));
    assert(name2 =~= t.take(name.len() as int));
    assert(pass =~= t.skip(name.len() as int + 3));
    assert(pass2 =~= t.skip(name.len() as int + 3));
}

/// What an answer says of its kind.
pub proof fn law_what_an_answer_is(r: Reply, body: Seq<char>)
    ensures
        is_document(r, JSON@, body) ==> !is_document(r, HTML@, body) && !is_document(
            r,
            SHELL@,
            body,
        ),
        JSON@ == "application/json"@,
        HTML@ == "text/html; charset=utf-8"@,
        SHELL@ == "text/x-sh"@,
        SCRIPT_NAME@ == "attachment; filename=\"ssr-client-init.sh\""@,
{
    reveal_strlit("application/json");
    reveal_strlit("text/html; charset=utf-8");
    reveal_strlit("text/x-sh");
    assert(JSON@.len() == 16 && HTML@.len() == 24 && SHELL@.len() == 9);
}

} // verus!
