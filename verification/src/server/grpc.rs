//! The server of the streams on which the hosts report.
use vstd::prelude::*;
use vstd::string::*;
use crate::server::http::Credentials;
use crate::text::{contains_text, first_at, same_text, split_once};

verus! {

// ---------------------------------------------------------------------------
// Who reports
// ---------------------------------------------------------------------------

/// What stands between the name and the password in a token.
pub const SEPARATOR: &'static str = "@_@";

/// The kind that a group's token is sent with.
pub const GROUP: &'static str = "group";

/// The kind that a host's token is sent with.
pub const SINGLE: &'static str = "single";

/// The token for a name and a password.
pub open spec fn token_text(name: Seq<char>, pass: Seq<char>) -> Seq<char> {
    name + SEPARATOR@ + pass
}

/// The token splits into the name and the password: at the first separator.
pub open spec fn splits_into(token: Seq<char>, name: Seq<char>, pass: Seq<char>) -> bool {
    &&& first_at(token, SEPARATOR@, name.len() as int)
    &&& token == token_text(name, pass)
}

/// Whom the token comes from, of the kind `kind`; `None` where it holds no separator.
pub fn token_credentials(kind: Option<&str>, token: &str) -> (r: Option<Credentials>)
    ensures
        (match r {
            Some(c) => {
                &&& splits_into(token@, c.name@, c.pass@)
                &&& c.group == (kind matches Some(k) && k@ == GROUP@)
            },
            None => !contains_text(token@, SEPARATOR@),
        }),
{
    let group: bool = match kind {
        Some(k) => same_text(k, GROUP),
        None => false,
    };
    match split_once(token, SEPARATOR) {
        Some((name, pass)) => Some(Credentials { group, name, pass }),
        None => None,
    }
}

/// The token that a stream is opened with.
#[derive(Debug)]
pub enum Token {
    /// There is none.
    Missing,
    /// It is no plain text.
    Opaque,
    /// A text.
    Text(String),
}

/// Whether a stream with the given token may be opened; `verified` tells whether the
/// configuration knows the token's credentials. The error is the message with which
/// it is refused.
pub fn check_auth(token: &Token, verified: bool) -> (r: Result<(), &'static str>)
    ensures
        (match *token {
            Token::Missing => r matches Err(m) && m@ == "missing authorization header"@,
            Token::Opaque => r matches Err(m) && m@ == "invalid token format"@,
            Token::Text(t) => if contains_text(t@, SEPARATOR@) && verified {
                r is Ok
            } else {
                r matches Err(m) && m@ == "invalid user/group && pass"@
            },
        }),
{
    match token {
        Token::Missing => Err("missing authorization header"),
        Token::Opaque => Err("invalid token format"),
        Token::Text(t) => {
            if token_credentials(None, t.as_str()).is_some() && verified {
                Ok(())
            } else {
                Err("invalid user/group && pass")
            }
        },
    }
}

/// No separator ends in the name or in the one behind it before the latter does.
pub open spec fn unambiguous(name: Seq<char>) -> bool {
    &&& !contains_text(name, SEPARATOR@)
    &&& !(name.len() >= 2 && name[name.len() - 2] == '@' && name[name.len() - 1] == '_')
}

/// In a token made for an unambiguous name the first separator is the one behind the
/// name.
proof fn lemma_token_splits(name: Seq<char>, pass: Seq<char>)
    requires
        unambiguous(name),
    ensures
        splits_into(token_text(name, pass), name, pass),
{
    reveal_strlit("@_@");
    let sep = SEPARATOR@;
    let t = token_text(name, pass);
    let n = name.len() as int;
    assert(sep.len() == 3 && sep[0] == '@' && sep[1] == '_' && sep[2] == '@');
    assert(t.subrange(n, n + 3) =~= sep);
    assert forall|j: int| 0 <= j < n implies !crate::text::occurs_at(t, sep, j) by {
        if crate::text::occurs_at(t, sep, j) {
            let w = t.subrange(j, j + 3);
            assert(w[0] == t[j] && w[1] == t[j + 1] && w[2] == t[j + 2]);
            if j + 3 <= n {
                assert(name.subrange(j, j + 3) =~= w);
                assert(crate::text::occurs_at(name, sep, j));
            } else if j + 2 == n {
                assert(name[n - 2] == t[j]);
                assert(name[n - 1] == t[j + 1]);
            } else {
                assert(t[j + 1] == sep[0]);
            }
        }
    }
}

/// What a token is made of is what it splits into: the name, where it is unambiguous,
/// and the password, whatever it is.
pub proof fn law_token_round_trip(
    name: Seq<char>,
    pass: Seq<char>,
    read_name: Seq<char>,
    read_pass: Seq<char>,
)
    requires
        unambiguous(name),
        splits_into(token_text(name, pass), read_name, read_pass),
    ensures
        read_name == name,
        read_pass == pass,
{
    lemma_token_splits(name, pass);
    let t = token_text(name, pass);
    let a = read_name.len() as int;
    let b = name.len() as int;
    if a < b {
        assert(!crate::text::occurs_at(t, SEPARATOR@, a));
    }
    if b < a {
        assert(!crate::text::occurs_at(t, SEPARATOR@, b));
    }
    assert(read_name =~= t.take(a));
    assert(name =~= t.take(b));
    assert(read_pass =~= t.skip(a + SEPARATOR@.len()));
    assert(pass =~= t.skip(b + SEPARATOR@.len()));
}

/// A name that is not unambiguous never comes back.
pub proof fn law_ambiguous_names_are_lost(
    name: Seq<char>,
    pass: Seq<char>,
    read_name: Seq<char>,
    read_pass: Seq<char>,
)
    requires
        !unambiguous(name),
        splits_into(token_text(name, pass), read_name, read_pass),
    ensures
        read_name.len() < name.len(),
{
    reveal_strlit("@_@");
    let sep = SEPARATOR@;
    let t = token_text(name, pass);
    let n = name.len() as int;
    assert(sep.len() == 3 && sep[0] == '@' && sep[1] == '_' && sep[2] == '@');
    if contains_text(name, sep) {
        let j = choose|j: int| crate::text::occurs_at(name, sep, j);
        assert(t.subrange(j, j + 3) =~= name.subrange(j, j + 3));
        assert(crate::text::occurs_at(t, sep, j));
    } else {
        assert(t[n - 2] == name[n - 2] && t[n - 1] == name[n - 1] && t[n] == sep[0]);
        assert(t.subrange(n - 2, n + 1) =~= sep);
        assert(crate::text::occurs_at(t, sep, n - 2));
    }
}

// ---------------------------------------------------------------------------
// A stream of reports
// ---------------------------------------------------------------------------

/// The service that takes the streams.
#[derive(Debug)]
pub struct ServerStatusSrv {}

impl Default for ServerStatusSrv {
    fn default() -> (r: Self)
        ensures
            r == (ServerStatusSrv {  }),
    {
        ServerStatusSrv {  }
    }
}

/// What happens on a stream.
#[derive(Clone, Copy, Debug, PartialEq, Eq, Structural)]
pub enum StreamEvent {
    /// It was opened.
    Opened,
    /// A report came.
    Message,
    /// No more reports come.
    Closed,
    /// A report was handed to the manager, or could not be.
    Processed { accepted: bool },
    /// The processing of a report broke off.
    Broken,
    /// The acknowledgement was sent.
    Sent,
    /// The acknowledgement could not be sent.
    Unsent,
}

/// What is to be done on a stream next.
#[derive(Clone, Copy, Debug, PartialEq, Eq, Structural)]
pub enum StreamStep {
    /// Wait for a report.
    Receive,
    /// Hand the report to the manager.
    Process,
    /// Send an acknowledgement.
    Acknowledge,
    /// Leave the stream.
    Stop,
}

/// The code of an acknowledgement.
pub const ACK_CODE: i32 = 0;

/// The message of an acknowledgement.
pub const ACK_MESSAGE: &'static str = "ok";

/// What is done after an event: each report is handed to the manager and acknowledged,
/// also where the manager did not take it.
pub open spec fn stream_step(e: StreamEvent) -> StreamStep {
    match e {
        StreamEvent::Opened => StreamStep::Receive,
        StreamEvent::Message => StreamStep::Process,
        StreamEvent::Closed => StreamStep::Stop,
        StreamEvent::Processed { accepted } => StreamStep::Acknowledge,
        StreamEvent::Broken => StreamStep::Stop,
        StreamEvent::Sent => StreamStep::Receive,
        StreamEvent::Unsent => StreamStep::Stop,
    }
}

impl ServerStatusSrv {
    /// What is to be done on a stream after an event.
    pub fn report(&self, e: StreamEvent) -> (r: StreamStep)
        ensures
            r == stream_step(e),
    {
        match e {
            StreamEvent::Opened => StreamStep::Receive,
            StreamEvent::Message => StreamStep::Process,
            StreamEvent::Closed => StreamStep::Stop,
            StreamEvent::Processed { accepted: _ } => StreamStep::Acknowledge,
            StreamEvent::Broken => StreamStep::Stop,
            StreamEvent::Sent => StreamStep::Receive,
            StreamEvent::Unsent => StreamStep::Stop,
        }
    }

    /// Whether a report was taken: there is a manager, the report could be written as
    /// JSON and the manager did not refuse it.
    pub fn accepts(&self, mgr_ready: bool, written: bool, reported: bool) -> (r: bool)
        ensures
            r == (mgr_ready && written && reported),
    {
        mgr_ready && written && reported
    }
}

/// Every event of a report that was received leads to its acknowledgement, unless its
/// processing breaks off, and the stream then goes on with the next one.
pub proof fn law_each_report_is_acknowledged(accepted: bool)
    ensures
        stream_step(StreamEvent::Message) == StreamStep::Process,
        stream_step(StreamEvent::Processed { accepted }) == StreamStep::Acknowledge,
        stream_step(StreamEvent::Sent) == StreamStep::Receive,
{
}

// ---------------------------------------------------------------------------
// Starting the server
// ---------------------------------------------------------------------------

/// The files of the server's certificate and its key, and of the authority that the
/// clients' certificates come from.
pub const CERT_FILE: &'static str = "server.pem";

pub const KEY_FILE: &'static str = "server.key";

pub const CA_FILE: &'static str = "ca.pem";

/// How the streams are served.
#[derive(Debug)]
pub struct ServePlan {
    /// The server shows a certificate.
    pub tls: bool,
    /// The clients show one too.
    pub client_ca: bool,
    /// HTTP/1 is accepted.
    pub http1: bool,
    /// The line that tells where the server listens.
    pub banner: String,
}

/// What the line that tells where the server listens adds on the protocol.
pub open spec fn proto_text(grpc_tls: u32) -> Seq<char> {
    if grpc_tls > 1 {
        " + mTLS"@
    } else if grpc_tls > 0 {
        " + TLS"@
    } else {
        ""@
    }
}

/// How the streams are served on the given address: in the clear for 0, with a
/// certificate of the server for 1, with certificates of both sides above.
pub fn serv_grpc(grpc_tls: u32, addr: &str) -> (r: ServePlan)
    ensures
        r.tls == (grpc_tls > 0),
        r.client_ca == (grpc_tls > 1),
        r.http1 == (grpc_tls == 0),
        r.banner@ == "🚀 listening on grpc://"@ + addr@ + proto_text(grpc_tls),
{
    let mut banner = "🚀 listening on grpc://".to_string();
    banner.append(addr);
    if grpc_tls > 1 {
        banner.append(" + mTLS");
    } else if grpc_tls > 0 {
        banner.append(" + TLS");
    } else {
        banner.append("");
    }
    ServePlan { tls: grpc_tls > 0, client_ca: grpc_tls > 1, http1: grpc_tls == 0, banner }
}

} // verus!
