use server_status::registry::Registry;
use server_status::server::http::{
    admin_api, admin_at, answer_report, client_init_reply, config_missing, config_text, credentials,
    get_history_stats, get_map, get_site_config_json, get_stats_json, history_text, init_client,
    init_jinja_tpl, parse_timerange, render_jinja_ht_tpl, report, report_media, stats_error,
    timerange_at, AdminStep, ClientInit, Fetched, Loaded, Media, Origin, Rendered, Reply, Site, KIND, MAP,
};
use server_status::server::stats::StatsMgr;

fn params(v: &[(&str, &str)]) -> Registry<String> {
    let mut r: Registry<String> = Registry::new();
    for (k, x) in v {
        r.insert(k.to_string(), x.to_string());
    }
    r
}

fn document(r: Reply) -> (&'static str, String) {
    match r {
        Reply::Document { media_type, body } => (media_type, body),
        other => panic!("{other:?}"),
    }
}

fn plain(r: Reply) -> (u16, &'static str) {
    match r {
        Reply::Plain { status, text } => (status, text),
        other => panic!("{other:?}"),
    }
}

fn failure(r: Reply) -> (u16, u16, String) {
    match r {
        Reply::Failure { status, code, error } => (status, code, error),
        other => panic!("{other:?}"),
    }
}

#[test]
fn span_is_the_last_ten_minutes_unless_named() {
    assert_eq!(timerange_at(&params(&[]), 1000), (400, 1000));
    assert_eq!(timerange_at(&params(&[("start_time", "5")]), 1000), (5, 1000));
    assert_eq!(timerange_at(&params(&[("end_time", "-7")]), 1000), (400, -7));
    assert_eq!(timerange_at(&params(&[("start_time", "x"), ("end_time", "")]), 1000), (400, 1000));
    assert_eq!(
        timerange_at(&params(&[("start_time", "9223372036854775808")]), 1000),
        (400, 1000)
    );
}

#[test]
fn span_now() {
    let (start, end) = parse_timerange(&params(&[]));
    assert_eq!(end - start, 600);
    assert!(end > 1_600_000_000);
    assert_eq!(parse_timerange(&params(&[("start_time", "1"), ("end_time", "2")])), (1, 2));
}

#[test]
fn text_of_the_hosts() {
    let mut m = StatsMgr::new(0);
    m.set_stats_json("{\"a\":1}".to_string());
    let json = ("application/json", "{\"a\":1}".to_string());
    assert_eq!(document(get_stats_json(Some(&m))), json);
    assert_eq!(document(get_stats_json(None)), ("application/json", "{}".to_string()));
    assert_eq!(document(get_site_config_json()), ("application/json", "{}".to_string()));
}

#[test]
fn history_is_answered() {
    assert_eq!(history_text(true, Ok(Some("x".to_string()))), Ok("x".to_string()));
    assert_eq!(history_text(true, Ok(None)), Ok("{}".to_string()));
    assert_eq!(history_text(true, Err("e".to_string())), Err("e".to_string()));
    assert_eq!(
        history_text(false, Ok(Some("x".to_string()))),
        Err("Stats manager not initialized".to_string())
    );
    assert_eq!(
        failure(get_history_stats(Fetched::NoRuntime)),
        (500, 500, "History runtime not initialized".to_string())
    );
    assert_eq!(
        document(get_history_stats(Fetched::Done(Ok("x".to_string())))),
        ("application/json", "x".to_string())
    );
    assert_eq!(
        failure(get_history_stats(Fetched::Done(Err("e".to_string())))),
        (500, 500, "Failed to get stats: e".to_string())
    );
    assert_eq!(
        failure(get_history_stats(Fetched::Broken("e".to_string()))),
        (500, 500, "Thread error: e".to_string())
    );
    assert_eq!(stats_error("e"), "Failed to get stats: e");
}

#[test]
fn administrator_asks() {
    let none = params(&[]);
    assert!(matches!(
        admin_at("stats.json", false, &none, 1000),
        AdminStep::Answer { code: 500, message: "StatsMgr not ready" }
    ));
    assert!(matches!(admin_at("stats.json", true, &none, 1000), AdminStep::Everything));
    assert!(matches!(
        admin_at("stats.json", true, &params(&[("end_time", "x")]), 1000),
        AdminStep::Span { start_time: 400, end_time: 1000 }
    ));
    assert!(matches!(admin_at("config.json", true, &none, 1000), AdminStep::Config));
    assert!(matches!(
        admin_at("config", true, &none, 1000),
        AdminStep::Answer { code: 404, message: "Not found" }
    ));
    assert!(matches!(
        admin_api("stats.json", true, &params(&[("start_time", "1"), ("end_time", "2")])),
        AdminStep::Span { start_time: 1, end_time: 2 }
    ));
    assert_eq!(config_text(true, Some("c".to_string())), Some("c".to_string()));
    assert_eq!(config_text(true, None), Some("{}".to_string()));
    assert_eq!(config_text(false, Some("c".to_string())), None);
    assert!(matches!(
        config_missing(),
        AdminStep::Answer { code: 500, message: "Config not ready" }
    ));
}

#[test]
fn templates_are_read() {
    let (v, end) = init_jinja_tpl(
        Some("详情".as_bytes().to_vec()),
        Some(b"map".to_vec()),
        Some(b"#!/bin/sh".to_vec()),
    );
    assert!(matches!(end, Loaded::All));
    let names: Vec<(&str, &str, &str)> =
        v.iter().map(|t| (t.kind, t.name, t.text.as_str())).collect();
    assert_eq!(
        names,
        vec![
            (KIND, "detail", "详情"),
            (KIND, "map", "map"),
            (KIND, "client-init", "#!/bin/sh"),
        ]
    );
    assert_eq!((KIND, MAP), ("http", "map"));
}

#[test]
fn templates_before_the_first_that_is_no_text_are_kept() {
    let bad = Some(vec![0xff]);
    let good = || Some(b"a".to_vec());
    let (v, end) = init_jinja_tpl(good(), bad.clone(), good());
    assert!(matches!(end, Loaded::NotText));
    assert_eq!(v.len(), 1);
    assert_eq!(v[0].name, "detail");
    let (v, end) = init_jinja_tpl(bad.clone(), None, good());
    assert!(matches!(end, Loaded::NotText) && v.is_empty());
    let (v, end) = init_jinja_tpl(good(), good(), bad);
    assert!(matches!(end, Loaded::NotText));
    assert_eq!(v.len(), 2);
}

#[test]
fn templates_before_the_first_that_is_missing_are_kept() {
    let good = || Some(b"a".to_vec());
    for (files, count, name) in [
        ((None, good(), good()), 0, "detail.jinja.html"),
        ((good(), None, Some(vec![0xff])), 1, "map.jinja.html"),
        ((good(), good(), None), 2, "client-init.jinja.sh"),
    ] {
        let (v, end) = init_jinja_tpl(files.0, files.1, files.2);
        assert_eq!(v.len(), count);
        assert!(matches!(end, Loaded::Missing { file } if file == name));
    }
}

#[test]
fn pages_are_answered() {
    for f in [render_jinja_ht_tpl, get_map] {
        assert_eq!(
            document(f(Rendered::Page("p".to_string()))),
            ("text/html; charset=utf-8", "p".to_string())
        );
        assert_eq!(plain(f(Rendered::NotReady)), (500, "StatsMgr not ready"));
        assert_eq!(plain(f(Rendered::NoInfo)), (500, "Failed to get info"));
        assert_eq!(plain(f(Rendered::Failed)), (500, "Template render error"));
        assert_eq!(plain(f(Rendered::Broken)), (500, "Internal server error"));
    }
}

#[test]
fn credentials_are_those_of_the_group_where_there_is_one() {
    let c = credentials(&params(&[("pass", "p"), ("uid", "u")])).unwrap();
    assert_eq!((c.group, c.name.as_str(), c.pass.as_str()), (false, "u", "p"));
    let c = credentials(&params(&[("pass", "p"), ("uid", "u"), ("gid", "g")])).unwrap();
    assert_eq!((c.group, c.name.as_str()), (true, "g"));
    let c = credentials(&params(&[("pass", "p"), ("gid", "g"), ("alias", "a")])).unwrap();
    assert_eq!((c.group, c.name.as_str()), (true, "g"));
}

#[test]
fn incomplete_requests_are_refused() {
    for v in [
        vec![],
        vec![("uid", "u")],
        vec![("pass", ""), ("uid", "u")],
        vec![("pass", "p")],
        vec![("pass", "p"), ("gid", "g")],
        vec![("pass", "p"), ("alias", "a")],
    ] {
        assert!(credentials(&params(&v)).is_none());
        assert!(init_client(&params(&v), Some(&site("")), true, &origin()).is_none());
    }
}

fn site(server_url: &str) -> Site {
    Site { server_url: server_url.to_string(), workspace: "/opt/w".to_string() }
}

fn origin() -> Origin {
    Origin { scheme: None, forwarded_proto: None, host: None, forwarded_host: None }
}

fn text(s: &str) -> Option<String> {
    Some(s.to_string())
}

fn init(v: &[(&str, &str)], server_url: &str, o: &Origin) -> ClientInit {
    init_client(&params(v), Some(&site(server_url)), true, o).unwrap()
}

#[test]
fn client_is_set_up() {
    let c = init(&[("pass", "p"), ("uid", "u")], "https://s/report", &origin());
    assert_eq!(c.client_opts, r#"-a "https://s/report" -p "p" -u "u""#);
    assert_eq!((c.scheme.as_str(), c.domain.as_str()), ("http", "localhost"));
    assert_eq!((c.server_url.as_str(), c.workspace.as_str()), ("https://s/report", "/opt/w"));
    assert_eq!((c.pass.as_str(), c.uid.as_str(), c.gid.as_str()), ("p", "u", ""));
    assert!(!c.vnstat && !c.cn);
}

#[test]
fn client_is_set_up_with_all_options() {
    let c = init(
        &[
            ("pass", "p"),
            ("uid", "u"),
            ("gid", "g"),
            ("alias", "a b"),
            ("debug", "1"),
            ("vnstat", "1"),
            ("ping", "0"),
            ("tupd", "0"),
            ("extra", "0"),
            ("notify", "0"),
            ("weight", "12"),
            ("vnstat-mr", "28"),
            ("interval", "3"),
            ("type", "kvm"),
            ("loc", "de"),
            ("iface", "eth0"),
            ("exclude-iface", "lo"),
            ("ip-source", "x"),
            ("cm", "c:1"),
            ("ct", "none"),
            ("cu", "d:2"),
            ("cn", "1"),
        ],
        "s",
        &origin(),
    );
    assert_eq!(
        c.client_opts,
        concat_all(&[
            r#"-a "s" -p "p""#,
            " -d -n --disable-ping --disable-tupd --disable-extra --disable-notify",
            " -w 12 --vnstat-mr 28 --interval 3",
            r#" -g "g" --alias "a b" -u "u""#,
            r#" -t "kvm" --location "de" --iface "eth0" --exclude-iface "lo" --ip-source "x""#,
            r#" --cm "c:1" --cu "d:2""#,
        ])
    );
    assert!(c.vnstat && c.cn);
    assert_eq!(c.weight, "12");
}

fn concat_all(v: &[&str]) -> String {
    v.concat()
}

#[test]
fn numbers_out_of_range_are_left_out() {
    for (key, value, expected) in [
        ("weight", "0", ""),
        ("weight", "-1", ""),
        ("weight", "007", " -w 7"),
        ("vnstat-mr", "1", ""),
        ("vnstat-mr", "2", " --vnstat-mr 2"),
        ("vnstat-mr", "29", ""),
        ("interval", "0", ""),
        ("interval", "4294967295", " --interval 4294967295"),
        ("interval", "4294967296", ""),
        ("debug", "true", ""),
        ("notify", "1", ""),
    ] {
        let c = init(&[("pass", "p"), ("uid", "u"), (key, value)], "s", &origin());
        assert_eq!(c.client_opts, format!(r#"-a "s" -p "p"{expected} -u "u""#));
    }
}

#[test]
fn address_of_the_server_is_told_by_the_request() {
    let v = [("pass", "p"), ("uid", "u")];
    let c = init(&v, "", &origin());
    assert_eq!(c.server_url, "http://localhost/report");
    let mut o = origin();
    o.scheme = text("https");
    o.host = text("h:80");
    let c = init(&v, "", &o);
    assert_eq!(c.server_url, "https://h:80/report");
    o.forwarded_proto = text("wss");
    o.forwarded_host = text("f");
    let c = init(&v, "", &o);
    assert_eq!(c.server_url, "wss://f/report");
    assert_eq!((c.scheme.as_str(), c.domain.as_str()), ("wss", "f"));
    assert!(c.client_opts.starts_with(r#"-a "wss://f/report" "#));
    assert_eq!(init(&v, "s", &o).scheme, "http");
}

#[test]
fn unknown_clients_are_refused() {
    let p = params(&[("pass", "p"), ("uid", "u")]);
    assert!(init_client(&p, Some(&site("s")), false, &origin()).is_none());
    assert!(init_client(&p, None, true, &origin()).is_none());
    assert_eq!(plain(client_init_reply(None)), (401, "Unauthorized"));
    assert_eq!(plain(client_init_reply(Some(None))), (500, "Internal Error"));
    match client_init_reply(Some(text("#!/bin/sh"))) {
        Reply::Download { media_type, disposition, body } => {
            assert_eq!(media_type, "text/x-sh");
            assert_eq!(disposition, r#"attachment; filename="ssr-client-init.sh""#);
            assert_eq!(body, "#!/bin/sh");
        }
        other => panic!("{other:?}"),
    }
}

#[test]
fn report_is_read_by_its_content_type() {
    assert_eq!(report_media(Some("application/octet-stream")), Media::Protobuf);
    assert_eq!(report_media(Some("application/json; charset=utf-8")), Media::Json);
    assert_eq!(report_media(Some("text/plain")), Media::Other);
    assert_eq!(report_media(None), Media::Other);
}

#[test]
fn report_is_answered() {
    let json = Some("application/json");
    let pb = Some("application/octet-stream");
    let good = b"{\"name\": [1, 2.5e3, null]}".to_vec();
    let bad = b"{\"name\":".to_vec();
    assert_eq!(report(json, &good, false, true), 200);
    assert_eq!(report(json, &good, false, false), 500);
    assert_eq!(report(json, &bad, true, true), 400);
    assert_eq!(report(json, &vec![], true, true), 400);
    assert_eq!(report(pb, &bad, true, true), 200);
    assert_eq!(report(pb, &good, false, true), 400);
    assert_eq!(report(pb, &bad, true, false), 500);
    assert_eq!(report(None, &good, true, true), 415);
    assert_eq!(report(Some("text/json"), &good, true, true), 415);
    assert_eq!(answer_report(Media::Other, true, true), 415);
    assert_eq!(answer_report(Media::Json, false, false), 400);
}
