//! The web server: what each request asks for, and how it is answered.
use vstd::prelude::*;
use vstd::string::*;
use crate::clock::{utc_timestamp, CLOCK_LIMIT};
use crate::decimal::{
    decimal, numeral, parse_i64, parse_u64, signed_value, unsigned_value, within,
};
use crate::registry::{lookup, Registry};
use crate::server::stats::StatsMgr;
use crate::text::{begins_with, contains, contains_text, same_text, starts_with};

verus! {

// ---------------------------------------------------------------------------
// Answers
// ---------------------------------------------------------------------------

/// The answer to a request.
#[derive(Debug)]
pub enum Reply {
    /// A text of the given media type.
    Document { media_type: &'static str, body: String },
    /// A script to be saved under the given name.
    Download { media_type: &'static str, disposition: &'static str, body: String },
    /// A status with a line of text.
    Plain { status: u16, text: &'static str },
    /// A status, with an object of `error` and `code`.
    Failure { status: u16, code: u16, error: String },
}

/// The text of JSON.
pub const JSON: &'static str = "application/json";

/// A page.
pub const HTML: &'static str = "text/html; charset=utf-8";

/// A script.
pub const SHELL: &'static str = "text/x-sh";

/// The script is saved under this name.
pub const SCRIPT_NAME: &'static str = "attachment; filename=\"ssr-client-init.sh\"";

/// The reply is the text `body` of the given media type.
pub open spec fn is_document(r: Reply, media_type: Seq<char>, body: Seq<char>) -> bool {
    r matches Reply::Document { media_type: m, body: b } && m@ == media_type && b@ == body
}

/// The reply is the status with the line of text.
pub open spec fn is_plain(r: Reply, status: u16, text: Seq<char>) -> bool {
    r matches Reply::Plain { status: s, text: t } && s == status && t@ == text
}

/// The reply is the status, with `error` and the same code.
pub open spec fn is_failure(r: Reply, status: u16, error: Seq<char>) -> bool {
    r matches Reply::Failure { status: s, code, error: e } && s == status && code == status && e@
        == error
}

// ---------------------------------------------------------------------------
// The hosts now and over time
// ---------------------------------------------------------------------------

/// The second that the parameter `key` writes, or `default` where it is not there or
/// writes none.
pub open spec fn time_param(
    params: Seq<(Seq<char>, Seq<char>)>,
    key: Seq<char>,
    default: int,
) -> int {
    match lookup(params, key) {
        Some(s) => match within(signed_value(s), i64::MIN as int, i64::MAX as int) {
            Some(n) => n,
            None => default,
        },
        None => default,
    }
}

/// The span of time that the parameters ask for at the second `now`; the last ten
/// minutes where they do not say.
pub open spec fn timerange(params: Seq<(Seq<char>, Seq<char>)>, now: int) -> (int, int) {
    (time_param(params, "start_time"@, now - 600), time_param(params, "end_time"@, now))
}

/// The second that the parameter `key` writes, or `default`.
fn time_or(params: &Registry<String>, key: &str, default: i64) -> (r: i64)
    ensures
        r == time_param(params@, key@, default as int),
{
    match params.get(key) {
        Some(s) => match parse_i64(s.as_str()) {
            Some(n) => n,
            None => default,
        },
        None => default,
    }
}

/// The span of time that the parameters ask for at the second `now`.
pub fn timerange_at(params: &Registry<String>, now: i64) -> (r: (i64, i64))
    requires
        now - 600 >= i64::MIN,
    ensures
        (r.0 as int, r.1 as int) == timerange(params@, now as int),
{
    (time_or(params, "start_time", now - 600), time_or(params, "end_time", now))
}

/// The span of time that the parameters ask for now. The clock decides only what they
/// leave open.
pub fn parse_timerange(params: &Registry<String>) -> (r: (i64, i64))
    ensures
        exists|now: int|
            0 <= now <= CLOCK_LIMIT && (r.0 as int, r.1 as int) == #[trigger] timerange(
                params@,
                now,
            ),
{
    let now: i64 = utc_timestamp();
    timerange_at(params, now)
}

/// Parameters that name both ends of the span leave nothing to the clock.
pub proof fn law_named_span_is_taken(
    params: Seq<(Seq<char>, Seq<char>)>,
    start: int,
    end: int,
    now: int,
)
    requires
        lookup(params, "start_time"@) matches Some(s) && signed_value(s) == Some(start),
        lookup(params, "end_time"@) matches Some(s) && signed_value(s) == Some(end),
        i64::MIN <= start <= i64::MAX,
        i64::MIN <= end <= i64::MAX,
    ensures
        timerange(params, now) == (start, end),
{
}

/// The text of all hosts, or that of an empty object where there is no manager yet.
pub fn get_stats_json(mgr: Option<&StatsMgr>) -> (r: Reply)
    ensures
        is_document(
            r,
            JSON@,
            (match mgr {
                Some(m) => m@.json,
                None => "{}"@,
            }),
        ),
{
    let body = match mgr {
        Some(m) => m.get_stats_json(),
        None => "{}".to_string(),
    };
    Reply::Document { media_type: JSON, body }
}

/// The configuration that the site shows: nothing.
pub fn get_site_config_json() -> (r: Reply)
    ensures
        is_document(r, JSON@, "{}"@),
{
    Reply::Document { media_type: JSON, body: "{}".to_string() }
}

/// The text of the hosts over a span of time.
///
/// `queried` is the text that was written of them, `None` in it where it could not be
/// written, or the error of the database.
pub fn history_text(mgr_ready: bool, queried: Result<Option<String>, String>) -> (r: Result<
    String,
    String,
>)
    ensures
        !mgr_ready ==> (r matches Err(e) && e@ == "Stats manager not initialized"@),
        mgr_ready ==> (match queried {
            Ok(Some(text)) => r == Ok::<String, String>(text),
            Ok(None) => r matches Ok(t) && t@ == "{}"@,
            Err(e) => r == Err::<String, String>(e),
        }),
{
    if !mgr_ready {
        return Err("Stats manager not initialized".to_string());
    }
    match queried {
        Ok(Some(text)) => Ok(text),
        Ok(None) => Ok("{}".to_string()),
        Err(e) => Err(e),
    }
}

/// How the reading of the hosts over a span of time ended.
#[derive(Debug)]
pub enum Fetched {
    /// There is nothing to read them on.
    NoRuntime,
    /// The text of the hosts, or why there is none.
    Done(Result<String, String>),
    /// The reading broke off.
    Broken(String),
}

/// The message that the hosts could not be read.
pub fn stats_error(e: &str) -> (r: String)
    ensures
        r@ == "Failed to get stats: "@ + e@,
{
    let mut r = "Failed to get stats: ".to_string();
    r.append(e);
    r
}

/// The answer to a request for the hosts over a span of time.
pub fn get_history_stats(fetched: Fetched) -> (r: Reply)
    ensures
        (match fetched {
            Fetched::NoRuntime => is_failure(r, 500, "History runtime not initialized"@),
            Fetched::Done(Ok(text)) => is_document(r, JSON@, text@),
            Fetched::Done(Err(e)) => is_failure(r, 500, "Failed to get stats: "@ + e@),
            Fetched::Broken(e) => is_failure(r, 500, "Thread error: "@ + e@),
        }),
{
    match fetched {
        Fetched::NoRuntime => Reply::Failure {
            status: 500,
            code: 500,
            error: "History runtime not initialized".to_string(),
        },
        Fetched::Done(Ok(text)) => Reply::Document { media_type: JSON, body: text },
        Fetched::Done(Err(e)) => Reply::Failure {
            status: 500,
            code: 500,
            error: stats_error(e.as_str()),
        },
        Fetched::Broken(e) => {
            let mut error = "Thread error: ".to_string();
            error.append(e.as_str());
            Reply::Failure { status: 500, code: 500, error }
        },
    }
}

// ---------------------------------------------------------------------------
// Administration
// ---------------------------------------------------------------------------

/// What an administrator's request asks for.
#[derive(Debug)]
pub enum AdminStep {
    /// An object of `code` and `message`.
    Answer { code: u16, message: &'static str },
    /// The hosts over a span of time.
    Span { start_time: i64, end_time: i64 },
    /// All that is known of the hosts.
    Everything,
    /// The configuration.
    Config,
}

/// What a request for `path` asks for at the second `now`.
pub open spec fn admin_step(
    path: Seq<char>,
    mgr_ready: bool,
    params: Seq<(Seq<char>, Seq<char>)>,
    now: int,
    step: AdminStep,
) -> bool {
    if !mgr_ready {
        step matches AdminStep::Answer { code, message } && code == 500 && message@
            == "StatsMgr not ready"@
    } else if path == "stats.json"@ {
        if lookup(params, "start_time"@) is Some || lookup(params, "end_time"@) is Some {
            step matches AdminStep::Span { start_time, end_time } && (
                start_time as int,
                end_time as int,
            ) == timerange(params, now)
        } else {
            step is Everything
        }
    } else if path == "config.json"@ {
        step is Config
    } else {
        step matches AdminStep::Answer { code, message } && code == 404 && message@ == "Not found"@
    }
}

/// What a request for `path` asks for at the second `now`.
pub fn admin_at(path: &str, mgr_ready: bool, params: &Registry<String>, now: i64) -> (r: AdminStep)
    requires
        now - 600 >= i64::MIN,
    ensures
        admin_step(path@, mgr_ready, params@, now as int, r),
{
    if !mgr_ready {
        return AdminStep::Answer { code: 500, message: "StatsMgr not ready" };
    }
    if same_text(path, "stats.json") {
        if params.get("start_time").is_some() || params.get("end_time").is_some() {
            let (start_time, end_time) = timerange_at(params, now);
            AdminStep::Span { start_time, end_time }
        } else {
            AdminStep::Everything
        }
    } else if same_text(path, "config.json") {
        AdminStep::Config
    } else {
        AdminStep::Answer { code: 404, message: "Not found" }
    }
}

/// What a request for `path` asks for now.
pub fn admin_api(path: &str, mgr_ready: bool, params: &Registry<String>) -> (r: AdminStep)
    ensures
        exists|now: int|
            0 <= now <= CLOCK_LIMIT && #[trigger] admin_step(
                path@,
                mgr_ready,
                params@,
                now,
                r,
            ),
{
    let now: i64 = utc_timestamp();
    admin_at(path, mgr_ready, params, now)
}

/// The answer to a request for the configuration: `text` is what was written of it,
/// `None` where it could not be written. `None` is the result where there is no
/// configuration yet, which is answered by `config_missing`.
pub fn config_text(ready: bool, text: Option<String>) -> (r: Option<String>)
    ensures
        (match r {
            Some(t) => ready && t@ == (match text {
                Some(s) => s@,
                None => "{}"@,
            }),
            None => !ready,
        }),
{
    if !ready {
        return None;
    }
    match text {
        Some(s) => Some(s),
        None => Some("{}".to_string()),
    }
}

/// The answer where there is no configuration yet.
pub fn config_missing() -> (r: AdminStep)
    ensures
        r matches AdminStep::Answer { code, message } && code == 500 && message@
            == "Config not ready"@,
{
    AdminStep::Answer { code: 500, message: "Config not ready" }
}

// ---------------------------------------------------------------------------
// Templates
// ---------------------------------------------------------------------------

/// The kind under which the web server's templates are kept.
pub const KIND: &'static str = "http";

/// A template to be kept.
#[derive(Debug)]
pub struct Template {
    pub kind: &'static str,
    pub name: &'static str,
    pub text: String,
}

/// The template is the one named `name`, made of `bytes`.
pub open spec fn is_template(t: Template, name: Seq<char>, bytes: Seq<u8>) -> bool {
    &&& t.kind@ == KIND@
    &&& t.name@ == name
    &&& t.text@ == vstd::utf8::decode_utf8(bytes)
}

/// `String::from_utf8`: the text that the bytes encode, where they are valid UTF-8,
/// and an error otherwise.
#[verifier::external_body]
fn from_utf8(bytes: Vec<u8>) -> (r: Option<String>)
    ensures
        (match r {
            Some(s) => vstd::utf8::valid_utf8(bytes@) && s@ == vstd::utf8::decode_utf8(bytes@),
            None => !vstd::utf8::valid_utf8(bytes@),
        }),
{
    String::from_utf8(bytes).ok()
}

/// The template of the map.
pub const MAP: &'static str = "map";

/// The names of the templates.
pub const TEMPLATES: [&'static str; 3] = ["detail", "map", "client-init"];

/// The files of the templates.
pub const TEMPLATE_FILES: [&'static str; 3] = [
    "detail.jinja.html",
    "map.jinja.html",
    "client-init.jinja.sh",
];

/// The number of leading files of `files` that are there and valid UTF-8.
pub open spec fn readable(files: Seq<Option<Seq<u8>>>) -> nat
    decreases files.len(),
{
    if files.len() == 0 || !(files[0] matches Some(f) && vstd::utf8::valid_utf8(f)) {
        0
    } else {
        1 + readable(files.drop_first())
    }
}

/// How the making of the templates ended.
#[derive(Clone, Copy, Debug)]
pub enum Loaded {
    /// There is one of each file.
    All,
    /// The file that comes next is not valid UTF-8.
    NotText,
    /// The file that comes next is not there.
    Missing { file: &'static str },
}

/// What an optional file says.
pub open spec fn file_view(f: Option<Vec<u8>>) -> Option<Seq<u8>> {
    match f {
        Some(v) => Some(v@),
        None => None,
    }
}

/// The template with the number `i` of the file, or why there is none.
fn load_template(i: usize, file: Option<Vec<u8>>) -> (r: Result<Template, Loaded>)
    requires
        i < 3,
    ensures
        (match r {
            Ok(t) => file is Some && vstd::utf8::valid_utf8(file->0@) && is_template(
                t,
                TEMPLATES@[i as int]@,
                file->0@,
            ),
            Err(Loaded::NotText) => file is Some && !vstd::utf8::valid_utf8(file->0@),
            Err(Loaded::Missing { file: name }) => file is None && name@
                == TEMPLATE_FILES@[i as int]@,
            Err(Loaded::All) => false,
        }),
{
    match file {
        Some(data) => match from_utf8(data) {
            Some(text) => Ok(Template { kind: KIND, name: TEMPLATES[i], text }),
            None => Err(Loaded::NotText),
        },
        None => Err(Loaded::Missing { file: TEMPLATE_FILES[i] }),
    }
}

/// Makes the templates of the three files, in their order, up to the first that is not
/// there or is no text; the second part of the result tells how it ended.
pub fn init_jinja_tpl(
    detail: Option<Vec<u8>>,
    map: Option<Vec<u8>>,
    client_init: Option<Vec<u8>>,
) -> (r: (Vec<Template>, Loaded))
    ensures
        ({
            let files = seq![file_view(detail), file_view(map), file_view(client_init)];
            let n = readable(files);
            &&& r.0@.len() == n
            &&& forall|i: int|
                0 <= i < n ==> is_template(#[trigger] r.0@[i], TEMPLATES@[i]@, files[i]->0)
            &&& match r.1 {
                Loaded::All => n == 3,
                Loaded::NotText => n < 3 && files[n as int] is Some,
                Loaded::Missing { file } => n < 3 && files[n as int] is None && file@
                    == TEMPLATE_FILES@[n as int]@,
            }
        }),
{
    proof {
        let files = seq![file_view(detail), file_view(map), file_view(client_init)];
        assert(files.drop_first() =~= seq![file_view(map), file_view(client_init)]);
        assert(files.drop_first().drop_first() =~= seq![file_view(client_init)]);
        assert(files.drop_first().drop_first().drop_first() =~= Seq::<Option<Seq<u8>>>::empty());
        reveal_with_fuel(readable, 4);
    }
    let mut r: Vec<Template> = Vec::new();
    match load_template(0, detail) {
        Ok(t) => r.push(t),
        Err(e) => {
            return (r, e);
        },
    }
    match load_template(1, map) {
        Ok(t) => r.push(t),
        Err(e) => {
            return (r, e);
        },
    }
    match load_template(2, client_init) {
        Ok(t) => r.push(t),
        Err(e) => {
            return (r, e);
        },
    }
    (r, Loaded::All)
}

/// How the rendering of a page ended.
#[derive(Debug)]
pub enum Rendered {
    /// There is no manager yet.
    NotReady,
    /// What is to be shown could not be gathered.
    NoInfo,
    /// The page.
    Page(String),
    /// The template could not be rendered.
    Failed,
    /// The rendering broke off.
    Broken,
}

/// The answer to a request for a page on all hosts.
pub fn render_jinja_ht_tpl(rendered: Rendered) -> (r: Reply)
    ensures
        (match rendered {
            Rendered::NotReady => is_plain(r, 500, "StatsMgr not ready"@),
            Rendered::NoInfo => is_plain(r, 500, "Failed to get info"@),
            Rendered::Page(text) => is_document(r, HTML@, text@),
            Rendered::Failed => is_plain(r, 500, "Template render error"@),
            Rendered::Broken => is_plain(r, 500, "Internal server error"@),
        }),
{
    match rendered {
        Rendered::NotReady => Reply::Plain { status: 500, text: "StatsMgr not ready" },
        Rendered::NoInfo => Reply::Plain { status: 500, text: "Failed to get info" },
        Rendered::Page(text) => Reply::Document { media_type: HTML, body: text },
        Rendered::Failed => Reply::Plain { status: 500, text: "Template render error" },
        Rendered::Broken => Reply::Plain { status: 500, text: "Internal server error" },
    }
}

/// The answer to a request for the map, which `MAP` is the template of.
pub fn get_map(rendered: Rendered) -> (r: Reply)
    ensures
        (match rendered {
            Rendered::NotReady => is_plain(r, 500, "StatsMgr not ready"@),
            Rendered::NoInfo => is_plain(r, 500, "Failed to get info"@),
            Rendered::Page(text) => is_document(r, HTML@, text@),
            Rendered::Failed => is_plain(r, 500, "Template render error"@),
            Rendered::Broken => is_plain(r, 500, "Internal server error"@),
        }),
{
    render_jinja_ht_tpl(rendered)
}

// ---------------------------------------------------------------------------
// Setting up a client
// ---------------------------------------------------------------------------

/// What a parameter says; nothing where it is not there.
pub open spec fn param(params: Seq<(Seq<char>, Seq<char>)>, key: Seq<char>) -> Seq<char> {
    match lookup(params, key) {
        Some(s) => s,
        None => Seq::empty(),
    }
}

/// What a parameter says; nothing where it is not there.
fn param_of(params: &Registry<String>, key: &str) -> (r: String)
    ensures
        r@ == param(params@, key@),
{
    match params.get(key) {
        Some(s) => s.clone(),
        None => String::new(),
    }
}

/// Whether the parameter is there and says `value`.
fn says(params: &Registry<String>, key: &str, value: &str) -> (r: bool)
    ensures
        r == (lookup(params@, key@) == Some(value@)),
{
    match params.get(key) {
        Some(s) => same_text(s.as_str(), value),
        None => false,
    }
}

/// Whom a request comes from, to be looked up in the configuration: a host, or a group
/// where `group` is set.
#[derive(Debug)]
pub struct Credentials {
    pub group: bool,
    pub name: String,
    pub pass: String,
}

/// The request names a password, and a host or else a group and an alias.
pub open spec fn complete_request(params: Seq<(Seq<char>, Seq<char>)>) -> bool {
    &&& param(params, "pass"@).len() > 0
    &&& param(params, "uid"@).len() > 0 || (param(params, "gid"@).len() > 0 && param(
        params,
        "alias"@,
    ).len() > 0)
}

/// Whom the request comes from: the group where it names one, the host otherwise.
pub fn credentials(params: &Registry<String>) -> (r: Option<Credentials>)
    ensures
        (match r {
            Some(c) => {
                &&& complete_request(params@)
                &&& c.group == (param(params@, "gid"@).len() > 0)
                &&& c.name@ == (if c.group {
                    param(params@, "gid"@)
                } else {
                    param(params@, "uid"@)
                })
                &&& c.pass@ == param(params@, "pass"@)
            },
            None => !complete_request(params@),
        }),
{
    let pass = param_of(params, "pass");
    let uid = param_of(params, "uid");
    let gid = param_of(params, "gid");
    let alias = param_of(params, "alias");
    let no_uid: bool = uid.as_str().is_empty();
    let no_gid: bool = gid.as_str().is_empty();
    if pass.as_str().is_empty() || (no_uid && no_gid) || (no_uid && alias.as_str().is_empty()) {
        return None;
    }
    if no_gid {
        Some(Credentials { group: false, name: uid, pass })
    } else {
        Some(Credentials { group: true, name: gid, pass })
    }
}

/// What a request tells of the address under which the server was reached; a header
/// that is not there, or is no plain text, is `None`.
#[derive(Debug)]
pub struct Origin {
    pub scheme: Option<String>,
    pub forwarded_proto: Option<String>,
    pub host: Option<String>,
    pub forwarded_host: Option<String>,
}

/// What is configured of the server's own address, and of the clients' directory.
#[derive(Debug)]
pub struct Site {
    pub server_url: String,
    pub workspace: String,
}

/// The later of two texts that is there, or `default`.
pub open spec fn last_of(
    default: Seq<char>,
    first: Option<String>,
    second: Option<String>,
) -> Seq<char> {
    match second {
        Some(s) => s@,
        None => match first {
            Some(s) => s@,
            None => default,
        },
    }
}

/// The scheme under which the server is reached, where it is not configured.
pub open spec fn scheme_of(site: Site, o: Origin) -> Seq<char> {
    if site.server_url@.len() > 0 {
        "http"@
    } else {
        last_of("http"@, o.scheme, o.forwarded_proto)
    }
}

/// The host under which the server is reached, where it is not configured.
pub open spec fn domain_of(site: Site, o: Origin) -> Seq<char> {
    if site.server_url@.len() > 0 {
        "localhost"@
    } else {
        last_of("localhost"@, o.host, o.forwarded_host)
    }
}

/// Where a client reports to.
pub open spec fn server_url_of(site: Site, o: Origin) -> Seq<char> {
    if site.server_url@.len() > 0 {
        site.server_url@
    } else {
        scheme_of(site, o) + "://"@ + domain_of(site, o) + "/report"@
    }
}

/// The text where the condition holds, and nothing otherwise.
pub open spec fn only_if(c: bool, text: Seq<char>) -> Seq<char> {
    if c {
        text
    } else {
        Seq::empty()
    }
}

/// The options that a client is switched by.
pub open spec fn switches(p: Seq<(Seq<char>, Seq<char>)>) -> Seq<char> {
    only_if(lookup(p, "debug"@) == Some("1"@), " -d"@) + only_if(
        lookup(p, "vnstat"@) == Some("1"@),
        " -n"@,
    ) + only_if(lookup(p, "ping"@) == Some("0"@), " --disable-ping"@) + only_if(
        lookup(p, "tupd"@) == Some("0"@),
        " --disable-tupd"@,
    ) + only_if(lookup(p, "extra"@) == Some("0"@), " --disable-extra"@) + only_if(
        lookup(p, "notify"@) == Some("0"@),
        " --disable-notify"@,
    )
}

/// An option and the number behind it, where the parameter writes one between `lo` and
/// `hi`.
pub open spec fn number_option(
    p: Seq<(Seq<char>, Seq<char>)>,
    key: Seq<char>,
    option: Seq<char>,
    lo: int,
    hi: int,
) -> Seq<char> {
    match within(unsigned_value(param(p, key)), lo, hi) {
        Some(n) => option + numeral(n as nat),
        None => Seq::empty(),
    }
}

/// The options that carry a number.
pub open spec fn numbers(p: Seq<(Seq<char>, Seq<char>)>) -> Seq<char> {
    number_option(p, "weight"@, " -w "@, 1, u64::MAX as int) + number_option(
        p,
        "vnstat-mr"@,
        " --vnstat-mr "@,
        2,
        28,
    ) + number_option(p, "interval"@, " --interval "@, 1, u32::MAX as int)
}

/// Who the client is.
pub open spec fn names(p: Seq<(Seq<char>, Seq<char>)>) -> Seq<char> {
    only_if(
        param(p, "gid"@).len() > 0,
        " -g \""@ + param(p, "gid"@) + "\" --alias \""@ + param(p, "alias"@) + "\""@,
    ) + only_if(param(p, "uid"@).len() > 0, " -u \""@ + param(p, "uid"@) + "\""@)
}

/// An option and the text behind it, in quotes.
pub open spec fn quoted(option: Seq<char>, value: Seq<char>) -> Seq<char> {
    " "@ + option + " \""@ + value + "\""@
}

/// The parameters that are handed on as texts, and the option for each.
pub const TEXT_OPTIONS: [(&'static str, &'static str); 5] = [
    ("type", "-t"),
    ("loc", "--location"),
    ("iface", "--iface"),
    ("exclude-iface", "--exclude-iface"),
    ("ip-source", "--ip-source"),
];

/// The options for the first `n` of the texts, each where the parameter says
/// something.
pub open spec fn text_options(p: Seq<(Seq<char>, Seq<char>)>, n: nat) -> Seq<char>
    decreases n,
{
    if n == 0 {
        Seq::empty()
    } else {
        let (key, option) = TEXT_OPTIONS@[n - 1];
        let value = param(p, key@);
        text_options(p, (n - 1) as nat) + only_if(value.len() > 0, quoted(option@, value))
    }
}

/// The parameters that name what to reach at a carrier, and the option for each.
pub const CARRIER_OPTIONS: [(&'static str, &'static str); 3] = [
    ("cm", "--cm"),
    ("ct", "--ct"),
    ("cu", "--cu"),
];

/// The options for the first `n` of the carriers, each where the parameter names a
/// port.
pub open spec fn carrier_options(p: Seq<(Seq<char>, Seq<char>)>, n: nat) -> Seq<char>
    decreases n,
{
    if n == 0 {
        Seq::empty()
    } else {
        let (key, option) = CARRIER_OPTIONS@[n - 1];
        let value = param(p, key@);
        carrier_options(p, (n - 1) as nat) + only_if(
            contains_text(value, ":"@),
            quoted(option@, value),
        )
    }
}

/// The options with which a client is started.
pub open spec fn client_options(
    p: Seq<(Seq<char>, Seq<char>)>,
    server_url: Seq<char>,
) -> Seq<char> {
    "-a \""@ + server_url + "\" -p \""@ + param(p, "pass"@) + "\""@ + switches(p) + numbers(p)
        + names(p) + text_options(p, 5) + carrier_options(p, 3)
}

/// What the script that sets up a client is filled with.
#[derive(Debug)]
pub struct ClientInit {
    pub pass: String,
    pub uid: String,
    pub gid: String,
    pub alias: String,
    pub vnstat: bool,
    pub weight: String,
    pub cn: bool,
    pub domain: String,
    pub scheme: String,
    pub server_url: String,
    pub workspace: String,
    pub client_opts: String,
}

/// The script is filled with what the request and the configuration say.
pub open spec fn fills(
    c: ClientInit,
    p: Seq<(Seq<char>, Seq<char>)>,
    site: Site,
    o: Origin,
) -> bool {
    &&& c.pass@ == param(p, "pass"@)
    &&& c.uid@ == param(p, "uid"@)
    &&& c.gid@ == param(p, "gid"@)
    &&& c.alias@ == param(p, "alias"@)
    &&& c.vnstat == (lookup(p, "vnstat"@) == Some("1"@))
    &&& c.weight@ == param(p, "weight"@)
    &&& c.cn == (lookup(p, "cn"@) == Some("1"@))
    &&& c.domain@ == domain_of(site, o)
    &&& c.scheme@ == scheme_of(site, o)
    &&& c.server_url@ == server_url_of(site, o)
    &&& c.workspace@ == site.workspace@
    &&& c.client_opts@ == client_options(p, server_url_of(site, o))
}

/// Appends the text where the condition holds.
fn append_if(s: &mut String, c: bool, text: &str)
    ensures
        final(s)@ == old(s)@ + only_if(c, text@),
{
    if c {
        s.append(text);
    } else {
        assert(s@ =~= s@ + Seq::<char>::empty());
    }
}

/// Appends the option and the number, where the parameter writes one between `lo` and
/// `hi`.
fn append_number(
    s: &mut String,
    params: &Registry<String>,
    key: &str,
    option: &str,
    lo: u64,
    hi: u64,
)
    ensures
        final(s)@ == old(s)@ + number_option(params@, key@, option@, lo as int, hi as int),
{
    let ghost s0 = s@;
    let value = param_of(params, key);
    match parse_u64(value.as_str()) {
        Some(n) => {
            if lo <= n && n <= hi {
                s.append(option);
                s.append(decimal(n).as_str());
                assert(s@ =~= s0 + (option@ + numeral(n as nat)));
            } else {
                assert(s@ =~= s@ + Seq::<char>::empty());
            }
        },
        None => {
            assert(s@ =~= s@ + Seq::<char>::empty());
        },
    }
}

/// Appends the option and the text, in quotes.
fn append_quoted(s: &mut String, option: &str, value: &str)
    ensures
        final(s)@ == old(s)@ + quoted(option@, value@),
{
    let ghost s0 = s@;
    s.append(" ");
    s.append(option);
    s.append(" \"");
    s.append(value);
    s.append("\"");
    assert(s@ =~= s0 + quoted(option@, value@));
}

/// Appends who the client is.
fn append_names(s: &mut String, params: &Registry<String>)
    ensures
        final(s)@ == old(s)@ + names(params@),
{
    let ghost s0 = s@;
    let gid = param_of(params, "gid");
    let alias = param_of(params, "alias");
    let uid = param_of(params, "uid");
    let mut t = String::new();
    if !gid.as_str().is_empty() {
        t.append(" -g \"");
        t.append(gid.as_str());
        t.append("\" --alias \"");
        t.append(alias.as_str());
        t.append("\"");
    }
    assert(t@ =~= only_if(
        gid@.len() > 0,
        " -g \""@ + gid@ + "\" --alias \""@ + alias@ + "\""@,
    ));
    let mut u = String::new();
    if !uid.as_str().is_empty() {
        u.append(" -u \"");
        u.append(uid.as_str());
        u.append("\"");
    }
    assert(u@ =~= only_if(uid@.len() > 0, " -u \""@ + uid@ + "\""@));
    s.append(t.as_str());
    s.append(u.as_str());
    assert(s@ =~= s0 + (t@ + u@));
}

/// Appends the options for the texts.
fn append_texts(s: &mut String, params: &Registry<String>)
    ensures
        final(s)@ == old(s)@ + text_options(params@, 5),
{
    let ghost s0 = s@;
    let mut i: usize = 0;
    assert(s@ =~= s0 + text_options(params@, 0));
    while i < 5
        invariant
            i <= 5,
            TEXT_OPTIONS@.len() == 5,
            s@ == s0 + text_options(params@, i as nat),
        decreases 5 - i,
    {
        let ghost s1 = s@;
        let (key, option) = TEXT_OPTIONS[i];
        let value = param_of(params, key);
        if !value.as_str().is_empty() {
            append_quoted(s, option, value.as_str());
        }
        assert(s@ =~= s1 + only_if(value@.len() > 0, quoted(option@, value@)));
        i = i + 1;
        assert(s@ =~= s0 + text_options(params@, i as nat));
    }
}

/// Appends the options for the carriers.
fn append_carriers(s: &mut String, params: &Registry<String>)
    ensures
        final(s)@ == old(s)@ + carrier_options(params@, 3),
{
    let ghost s0 = s@;
    let mut i: usize = 0;
    assert(s@ =~= s0 + carrier_options(params@, 0));
    while i < 3
        invariant
            i <= 3,
            CARRIER_OPTIONS@.len() == 3,
            s@ == s0 + carrier_options(params@, i as nat),
        decreases 3 - i,
    {
        let ghost s1 = s@;
        let (key, option) = CARRIER_OPTIONS[i];
        let value = param_of(params, key);
        if contains(value.as_str(), ":") {
            append_quoted(s, option, value.as_str());
        }
        assert(s@ =~= s1 + only_if(contains_text(value@, ":"@), quoted(option@, value@)));
        i = i + 1;
        assert(s@ =~= s0 + carrier_options(params@, i as nat));
    }
}

/// The options that a client is switched by.
fn switches_of(params: &Registry<String>) -> (r: String)
    ensures
        r@ == switches(params@),
{
    let mut r = String::new();
    append_if(&mut r, says(params, "debug", "1"), " -d");
    assert(r@ =~= only_if(lookup(params@, "debug"@) == Some("1"@), " -d"@));
    append_if(&mut r, says(params, "vnstat", "1"), " -n");
    append_if(&mut r, says(params, "ping", "0"), " --disable-ping");
    append_if(&mut r, says(params, "tupd", "0"), " --disable-tupd");
    append_if(&mut r, says(params, "extra", "0"), " --disable-extra");
    append_if(&mut r, says(params, "notify", "0"), " --disable-notify");
    r
}

/// The options that carry a number.
fn numbers_of(params: &Registry<String>) -> (r: String)
    ensures
        r@ == numbers(params@),
{
    let mut r = String::new();
    append_number(&mut r, params, "weight", " -w ", 1, u64::MAX);
    assert(r@ =~= number_option(params@, "weight"@, " -w "@, 1, u64::MAX as int));
    append_number(&mut r, params, "vnstat-mr", " --vnstat-mr ", 2, 28);
    append_number(&mut r, params, "interval", " --interval ", 1, u32::MAX as u64);
    r
}

/// The options with which a client is started.
fn client_opts_of(params: &Registry<String>, server_url: &str) -> (r: String)
    ensures
        r@ == client_options(params@, server_url@),
{
    let pass = param_of(params, "pass");
    let mut r = "-a \"".to_string();
    r.append(server_url);
    r.append("\" -p \"");
    r.append(pass.as_str());
    r.append("\"");
    r.append(switches_of(params).as_str());
    r.append(numbers_of(params).as_str());
    append_names(&mut r, params);
    append_texts(&mut r, params);
    append_carriers(&mut r, params);
    r
}

/// The later of two texts that is there, or `default`.
fn pick_last(default: &str, first: &Option<String>, second: &Option<String>) -> (r: String)
    ensures
        r@ == last_of(default@, *first, *second),
{
    match second {
        Some(s) => s.clone(),
        None => match first {
            Some(s) => s.clone(),
            None => default.to_owned(),
        },
    }
}

/// What the script that sets up a client is filled with, or `None` where the request
/// is refused: it is not complete, there is no configuration yet, or `verified` says
/// that the configuration does not know its credentials.
pub fn init_client(
    params: &Registry<String>,
    site: Option<&Site>,
    verified: bool,
    origin: &Origin,
) -> (r: Option<ClientInit>)
    ensures
        r is Some <==> complete_request(params@) && verified && site is Some,
        r is Some ==> fills(r->0, params@, *site->0, *origin),
{
    if credentials(params).is_none() || !verified {
        return None;
    }
    let site = match site {
        Some(site) => site,
        None => {
            return None;
        },
    };
    let mut domain = "localhost".to_string();
    let mut scheme = "http".to_string();
    let mut server_url = site.server_url.clone();
    if server_url.as_str().is_empty() {
        scheme = pick_last("http", &origin.scheme, &origin.forwarded_proto);
        domain = pick_last("localhost", &origin.host, &origin.forwarded_host);
        server_url = scheme.clone();
        server_url.append("://");
        server_url.append(domain.as_str());
        server_url.append("/report");
    }
    let client_opts = client_opts_of(params, server_url.as_str());
    Some(
        ClientInit {
            pass: param_of(params, "pass"),
            uid: param_of(params, "uid"),
            gid: param_of(params, "gid"),
            alias: param_of(params, "alias"),
            vnstat: says(params, "vnstat", "1"),
            weight: param_of(params, "weight"),
            cn: says(params, "cn", "1"),
            domain,
            scheme,
            server_url,
            workspace: site.workspace.clone(),
            client_opts,
        },
    )
}

/// The answer to a request to set up a client: `rendered` is the script, `None` in it
/// where it could not be rendered, or `None` where the request was refused.
pub fn client_init_reply(rendered: Option<Option<String>>) -> (r: Reply)
    ensures
        (match rendered {
            None => is_plain(r, 401, "Unauthorized"@),
            Some(None) => is_plain(r, 500, "Internal Error"@),
            Some(Some(text)) => r matches Reply::Download { media_type, disposition, body }
                && media_type@ == SHELL@ && disposition@ == SCRIPT_NAME@ && body@ == text@,
        }),
{
    match rendered {
        None => Reply::Plain { status: 401, text: "Unauthorized" },
        Some(None) => Reply::Plain { status: 500, text: "Internal Error" },
        Some(Some(text)) => Reply::Download {
            media_type: SHELL,
            disposition: SCRIPT_NAME,
            body: text,
        },
    }
}

// ---------------------------------------------------------------------------
// A report
// ---------------------------------------------------------------------------

/// The form in which a report comes.
#[derive(Clone, Copy, Debug, PartialEq, Eq, Structural)]
pub enum Media {
    Protobuf,
    Json,
    Other,
}

/// The form that a content type names; one that is not there names none.
pub open spec fn media_of(content_type: Option<&str>) -> Media {
    let t = match content_type {
        Some(s) => s@,
        None => ""@,
    };
    if begins_with(t, "application/octet-stream"@) {
        Media::Protobuf
    } else if begins_with(t, "application/json"@) {
        Media::Json
    } else {
        Media::Other
    }
}

/// The form that a content type names.
pub fn report_media(content_type: Option<&str>) -> (r: Media)
    ensures
        r == media_of(content_type),
{
    let t = match content_type {
        Some(s) => s,
        None => "",
    };
    if starts_with(t, "application/octet-stream") {
        Media::Protobuf
    } else if starts_with(t, "application/json") {
        Media::Json
    } else {
        Media::Other
    }
}

/// The bytes are a JSON document.
pub uninterp spec fn is_json(bytes: Seq<u8>) -> bool;

/// `serde_json::from_slice` into `serde_json::Value`: whether the bytes are read
/// without an error, which depends on the bytes alone. Which bytes those are is left
/// to the grammar of JSON and to the limit that the crate sets to nesting.
#[verifier::external_body]
fn json_reads(bytes: &Vec<u8>) -> (r: bool)
    ensures
        r == is_json(bytes@),
{
    serde_json::from_slice::<serde_json::Value>(bytes.as_slice()).is_ok()
}

/// The status for a report whose form is `media`, once it is known whether its body
/// could be read.
pub open spec fn report_status(media: Media, reads: bool, mgr_ready: bool) -> u16 {
    if media is Other {
        415
    } else if !reads {
        400
    } else if mgr_ready {
        200
    } else {
        500
    }
}

/// The status for a report, once it is known whether its body could be read.
pub fn answer_report(media: Media, reads: bool, mgr_ready: bool) -> (r: u16)
    ensures
        r == report_status(media, reads, mgr_ready),
{
    match media {
        Media::Other => 415,
        _ => if !reads {
            400
        } else if mgr_ready {
            200
        } else {
            500
        },
    }
}

/// The status for a report with the given content type and body; `decoded` tells
/// whether the body is a message of the protocol. A report that is answered by 200 is
/// to be handed to the manager.
pub fn report(
    content_type: Option<&str>,
    body: &Vec<u8>,
    decoded: bool,
    mgr_ready: bool,
) -> (r: u16)
    ensures
        r == report_status(
            media_of(content_type),
            (match media_of(content_type) {
                Media::Protobuf => decoded,
                Media::Json => is_json(body@),
                Media::Other => false,
            }),
            mgr_ready,
        ),
{
    let media = report_media(content_type);
    let reads: bool = match media {
        Media::Protobuf => decoded,
        Media::Json => json_reads(body),
        Media::Other => false,
    };
    answer_report(media, reads, mgr_ready)
}

} // verus!
