//! The stream on which the client reports.
use vstd::prelude::*;
use vstd::string::*;
use crate::client::sys_info::{StatRequest, StatRequestView};
use crate::client::Args;
use crate::server::grpc::{splits_into, token_text, unambiguous, GROUP, SEPARATOR, SINGLE};
use crate::text::{begins_with, replace, replaced, starts_with};

verus! {

// ---------------------------------------------------------------------------
// The connection
// ---------------------------------------------------------------------------

/// The name that the client goes by: its group's where it is in one.
pub open spec fn auth_name(args: Args) -> Seq<char> {
    if args.gid@.len() == 0 {
        args.user@
    } else {
        args.gid@
    }
}

/// The kind of the token.
pub open spec fn auth_kind(args: Args) -> Seq<char> {
    if args.gid@.len() == 0 {
        SINGLE@
    } else {
        GROUP@
    }
}

/// The text can be sent as a header: it holds no control character but the tab.
pub open spec fn header_text(s: Seq<char>) -> bool {
    forall|i: int| 0 <= i < s.len() ==> s[i] == '\t' || (s[i] >= ' ' && s[i] != '\u{7f}')
}

/// What tells the server who the client is can be sent as a header.
pub open spec fn sendable(args: Args) -> bool {
    header_text(token_text(auth_name(args), args.pass@))
}

/// `tonic::metadata::MetadataValue::<Ascii>::try_from`: whether the text is taken as a
/// header's value. It is unless one of its bytes is below 32 and not the tab, or is 127;
/// a character above 127 has no such byte.
#[verifier::external_body]
fn is_header_text(s: &str) -> (r: bool)
    ensures
        r == header_text(s@),
{
    tonic::metadata::MetadataValue::<tonic::metadata::Ascii>::try_from(s).is_ok()
}

/// What an address says of the host and the port.
#[derive(Debug)]
pub struct UrlParts {
    pub host: Option<String>,
    pub port: Option<u16>,
}

/// What a `UrlParts` says.
pub open spec fn parts_view(p: UrlParts) -> (Option<Seq<char>>, Option<u16>) {
    (
        match p.host {
            Some(h) => Some(h@),
            None => None,
        },
        p.port,
    )
}

/// The host and the port of an address, where it is one.
pub uninterp spec fn url_parts(addr: Seq<char>) -> Option<(Option<Seq<char>>, Option<u16>)>;

/// `url::Url::parse`, with `Url::host_str` and `Url::port` of what was parsed: the
/// result depends on the text alone. How an address is read is left to the URL
/// standard.
#[verifier::external_body]
fn parse_url(addr: &str) -> (r: Option<UrlParts>)
    ensures
        (match r {
            Some(p) => url_parts(addr@) == Some(parts_view(p)),
            None => url_parts(addr@) is None,
        }),
{
    let u = url::Url::parse(addr).ok()?;
    Some(UrlParts { host: u.host_str().map(|h| h.to_string()), port: u.port() })
}

/// How the server is spoken to.
#[derive(Debug)]
pub enum Transport {
    /// Both sides show a certificate; the server's is for the domain.
    Mutual { domain: String },
    /// The server shows a certificate.
    Tls,
    /// In the clear.
    Clear,
}

/// How the client connects.
#[derive(Debug)]
pub struct Connection {
    /// What tells the server who the client is.
    pub token: String,
    pub kind: &'static str,
    pub addr: String,
    /// The host and the port to look up, to learn over which protocol they are reached.
    pub resolve: Option<(String, u16)>,
    pub transport: Transport,
}

/// Why the client does not connect.
#[derive(Clone, Copy, Debug, PartialEq, Eq, Structural)]
pub enum ConnectError {
    /// The token cannot be sent as a header.
    Token,
    /// The address cannot be read.
    Url,
}

/// The address with the scheme that the transport knows.
pub open spec fn dial_addr(args: Args) -> Seq<char> {
    replaced(args.addr@, "grpcs://"@, "https://"@)
}

/// The host that an address names, if any.
pub open spec fn host_in(parts: Option<(Option<Seq<char>>, Option<u16>)>) -> Option<Seq<char>> {
    match parts {
        Some((host, _)) => host,
        None => None,
    }
}

/// The port that an address names, or that of HTTPS.
pub open spec fn port_in(parts: Option<(Option<Seq<char>>, Option<u16>)>) -> u16 {
    match parts {
        Some((_, Some(port))) => port,
        _ => 443,
    }
}

/// The client connects this way, where the address says `parts`.
pub open spec fn connects(
    c: Connection,
    args: Args,
    parts: Option<(Option<Seq<char>>, Option<u16>)>,
) -> bool {
    &&& c.token@ == token_text(auth_name(args), args.pass@)
    &&& c.kind@ == auth_kind(args)
    &&& c.addr@ == dial_addr(args)
    &&& match c.resolve {
        Some((host, port)) => host_in(parts) == Some(host@) && port == port_in(parts),
        None => host_in(parts) is None,
    }
    &&& match c.transport {
        Transport::Mutual { domain } => args.mtls && host_in(parts) == Some(domain@),
        Transport::Tls => !args.mtls && begins_with(dial_addr(args), "https://"@),
        Transport::Clear => !args.mtls && !begins_with(dial_addr(args), "https://"@),
    }
}

/// Where both sides show a certificate, an address that can be read names a host.
pub open spec fn names_domain(
    args: Args,
    parts: Option<(Option<Seq<char>>, Option<u16>)>,
) -> bool {
    args.mtls && parts is Some ==> host_in(parts) is Some
}

/// What an optional `UrlParts` says.
pub open spec fn opt_parts(p: Option<UrlParts>) -> Option<(Option<Seq<char>>, Option<u16>)> {
    match p {
        Some(p) => Some(parts_view(p)),
        None => None,
    }
}

/// The name that the client goes by, and the kind of its token.
fn identify(args: &Args) -> (r: (String, &'static str))
    ensures
        r.0@ == auth_name(*args),
        r.1@ == auth_kind(*args),
{
    if args.gid.as_str().is_empty() {
        (args.user.clone(), SINGLE)
    } else {
        (args.gid.clone(), GROUP)
    }
}

/// What tells the server who the client is, and the kind of it; `None` where it cannot
/// be sent as a header.
fn credentials(args: &Args) -> (r: Option<(String, &'static str)>)
    ensures
        (match r {
            Some((token, kind)) => token@ == token_text(auth_name(*args), args.pass@) && kind@
                == auth_kind(*args),
            None => true,
        }),
        r is Some <==> sendable(*args),
{
    let (name, kind) = identify(args);
    let mut token = name;
    token.append(SEPARATOR);
    token.append(args.pass.as_str());
    if is_header_text(token.as_str()) {
        Some((token, kind))
    } else {
        None
    }
}

/// How the client connects, where its address says `parts`.
pub fn connection(args: &Args, parts: &Option<UrlParts>) -> (r: Result<Connection, ConnectError>)
    requires
        names_domain(*args, opt_parts(*parts)),
    ensures
        (match r {
            Ok(c) => connects(c, *args, opt_parts(*parts)),
            Err(_) => true,
        }),
        r == Err::<Connection, ConnectError>(ConnectError::Token) <==> !sendable(*args),
        r == Err::<Connection, ConnectError>(ConnectError::Url) <==> sendable(*args) && args.mtls
            && parts is None,
{
    let (token, kind) = match credentials(args) {
        Some(c) => c,
        None => {
            return Err(ConnectError::Token);
        },
    };
    proof {
        reveal_strlit("grpcs://");
    }
    let addr = replace(args.addr.as_str(), "grpcs://", "https://");
    let mut resolve: Option<(String, u16)> = None;
    let mut domain: Option<String> = None;
    match parts {
        Some(p) => match &p.host {
            Some(host) => {
                let port: u16 = match p.port {
                    Some(port) => port,
                    None => 443,
                };
                resolve = Some((host.clone(), port));
                domain = Some(host.clone());
            },
            None => {},
        },
        None => {},
    }
    let transport = if args.mtls {
        match domain {
            Some(domain) => Transport::Mutual { domain },
            None => {
                return Err(ConnectError::Url);
            },
        }
    } else if starts_with(addr.as_str(), "https://") {
        Transport::Tls
    } else {
        Transport::Clear
    };
    Ok(Connection { token, kind, addr, resolve, transport })
}

/// How the client connects; `None` where the token can be sent, both sides are to show
/// a certificate, and the address can be read but names no host.
pub fn report(args: &Args) -> (r: Option<Result<Connection, ConnectError>>)
    ensures
        (match r {
            Some(Ok(c)) => connects(c, *args, url_parts(dial_addr(*args))),
            _ => true,
        }),
        r == Some(Err::<Connection, ConnectError>(ConnectError::Token)) <==> !sendable(*args),
        r is None <==> sendable(*args) && !names_domain(*args, url_parts(dial_addr(*args))),
        r == Some(Err::<Connection, ConnectError>(ConnectError::Url)) <==> sendable(*args)
            && args.mtls && url_parts(dial_addr(*args)) is None,
{
    if credentials(args).is_none() {
        return Some(Err(ConnectError::Token));
    }
    proof {
        reveal_strlit("grpcs://");
    }
    let addr = replace(args.addr.as_str(), "grpcs://", "https://");
    let parts = parse_url(addr.as_str());
    if args.mtls {
        match &parts {
            Some(p) => {
                if p.host.is_none() {
                    return None;
                }
            },
            None => {},
        }
    }
    Some(connection(args, &parts))
}

/// The server reads from the client's token the name and the password that the client
/// was given, where the name is unambiguous, and takes it for a group's exactly where
/// the client is in one.
pub proof fn law_server_knows_the_client(
    args: Args,
    name: Seq<char>,
    pass: Seq<char>,
)
    requires
        unambiguous(auth_name(args)),
        splits_into(token_text(auth_name(args), args.pass@), name, pass),
    ensures
        name == auth_name(args),
        pass == args.pass@,
        auth_kind(args) == GROUP@ <==> args.gid@.len() > 0,
{
    crate::server::grpc::law_token_round_trip(auth_name(args), args.pass@, name, pass);
    reveal_strlit("single");
    reveal_strlit("group");
    assert(SINGLE@.len() != GROUP@.len());
}

/// The protocol over which the server is reached.
#[derive(Clone, Copy, Debug, PartialEq, Eq, Structural)]
pub enum Family {
    V4,
    V6,
}

/// The host is online over the protocol over which the server is reached.
pub fn mark_online(stat: &mut StatRequest, resolved: Option<Family>)
    ensures
        final(stat)@ == (StatRequestView {
            online4: old(stat)@.online4 || resolved == Some(Family::V4),
            online6: old(stat)@.online6 || resolved == Some(Family::V6),
            ..old(stat)@
        }),
{
    match resolved {
        Some(Family::V4) => {
            stat.online4 = true;
        },
        Some(Family::V6) => {
            stat.online6 = true;
        },
        None => {},
    }
}

// ---------------------------------------------------------------------------
// The reports
// ---------------------------------------------------------------------------

/// The report with the number `count` is full: each one, or each sixtieth of a client
/// that leaves out what seldom changes.
pub open spec fn full_report(lite: bool, count: u64) -> bool {
    !lite || count % 60 == 0
}

/// The number behind `count`; zero behind the last.
pub open spec fn next_count(count: u64) -> u64 {
    if count == u64::MAX {
        0
    } else {
        (count + 1) as u64
    }
}

/// The number `k` reports behind `count`.
pub open spec fn count_after(count: u64, k: nat) -> u64
    decreases k,
{
    if k == 0 {
        count
    } else {
        next_count(count_after(count, (k - 1) as nat))
    }
}

/// What is to be done after a report was sent, or could not be.
#[derive(Clone, Copy, Debug, PartialEq, Eq, Structural)]
pub enum Pause {
    /// Wait these seconds for the next report on the stream.
    Report { secs: u64 },
    /// Leave the stream, and wait these seconds to open another.
    Reconnect { secs: u64 },
}

/// The numbering of the reports, which goes on from one stream to the next.
#[derive(Debug)]
pub struct ReportLoop {
    pub count: u64,
}

impl ReportLoop {
    /// No report yet.
    pub fn new() -> (r: Self)
        ensures
            r.count == 0,
    {
        ReportLoop { count: 0 }
    }

    /// Counts a report, and tells whether it is a full one.
    pub fn next(&mut self, lite: bool) -> (r: bool)
        ensures
            r == full_report(lite, old(self).count),
            final(self).count == next_count(old(self).count),
    {
        let full: bool = !lite || self.count % 60 == 0;
        self.count = self.count.wrapping_add(1);
        full
    }

    /// What is to be done after a report was sent, or could not be.
    pub fn pause(&self, args: &Args, sent: bool) -> (r: Pause)
        ensures
            r == (if sent {
                Pause::Report { secs: args.report_interval }
            } else {
                Pause::Reconnect { secs: 3 }
            }),
    {
        if sent {
            Pause::Report { secs: args.report_interval }
        } else {
            Pause::Reconnect { secs: 3 }
        }
    }
}

proof fn lemma_count_after(count: u64, k: nat)
    requires
        k <= u64::MAX,
    ensures
        count_after(count, k) == (if count + k <= u64::MAX {
            count + k
        } else {
            count + k - u64::MAX - 1
        }),
    decreases k,
{
    if k > 0 {
        lemma_count_after(count, (k - 1) as nat);
    }
}

/// Among any sixty reports in a row there is a full one.
pub proof fn law_full_report_in_time(lite: bool, count: u64)
    ensures
        exists|k: nat| k < 60 && full_report(lite, #[trigger] count_after(count, k)),
{
    let r = count as int % 60;
    let k: nat = if r == 0 {
        0
    } else if count + (60 - r) <= u64::MAX {
        (60 - r) as nat
    } else {
        (u64::MAX - count + 1) as nat
    };
    lemma_count_after(count, k);
    assert(full_report(lite, count_after(count, k)));
}

/// The first report is a full one.
pub proof fn law_first_report_is_full(lite: bool)
    ensures
        full_report(lite, 0),
{
}

} // verus!
