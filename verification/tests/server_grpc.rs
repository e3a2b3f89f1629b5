use server_status::server::grpc::{
    check_auth, serv_grpc, token_credentials, ServerStatusSrv, StreamEvent, StreamStep, Token,
    ACK_CODE, ACK_MESSAGE,
};

fn text(s: &str) -> Token {
    Token::Text(s.to_string())
}

#[test]
fn token_is_split_at_the_first_separator() {
    let c = token_credentials(Some("group"), "g1@_@p@_@q").unwrap();
    assert_eq!((c.group, c.name.as_str(), c.pass.as_str()), (true, "g1", "p@_@q"));
    let c = token_credentials(Some("single"), "@_@").unwrap();
    assert_eq!((c.group, c.name.as_str(), c.pass.as_str()), (false, "", ""));
    assert!(!token_credentials(None, "u@_@p").unwrap().group);
    assert!(!token_credentials(Some("Group"), "u@_@p").unwrap().group);
    assert!(token_credentials(Some("group"), "u@p").is_none());
}

#[test]
fn stream_is_opened_for_those_who_are_known() {
    assert_eq!(check_auth(&text("u@_@p"), true), Ok(()));
    assert_eq!(check_auth(&text("u@_@p"), false), Err("invalid user/group && pass"));
    assert_eq!(check_auth(&text("up"), true), Err("invalid user/group && pass"));
    assert_eq!(check_auth(&Token::Opaque, true), Err("invalid token format"));
    assert_eq!(check_auth(&Token::Missing, true), Err("missing authorization header"));
}

#[test]
fn name_with_a_separator_is_lost() {
    let c = token_credentials(None, "a@_@b@_@p").unwrap();
    assert_eq!((c.name.as_str(), c.pass.as_str()), ("a", "b@_@p"));
    let c = token_credentials(None, "a@_@_@p").unwrap();
    assert_eq!((c.name.as_str(), c.pass.as_str()), ("a", "_@p"));
}

#[test]
fn each_report_is_acknowledged() {
    let s = ServerStatusSrv::default();
    assert_eq!(s.report(StreamEvent::Opened), StreamStep::Receive);
    assert_eq!(s.report(StreamEvent::Message), StreamStep::Process);
    for accepted in [true, false] {
        assert_eq!(s.report(StreamEvent::Processed { accepted }), StreamStep::Acknowledge);
    }
    assert_eq!(s.report(StreamEvent::Sent), StreamStep::Receive);
    assert_eq!((ACK_CODE, ACK_MESSAGE), (0, "ok"));
}

#[test]
fn stream_is_left() {
    let s = ServerStatusSrv::default();
    assert_eq!(s.report(StreamEvent::Closed), StreamStep::Stop);
    assert_eq!(s.report(StreamEvent::Broken), StreamStep::Stop);
    assert_eq!(s.report(StreamEvent::Unsent), StreamStep::Stop);
}

#[test]
fn report_is_taken() {
    let s = ServerStatusSrv::default();
    assert!(s.accepts(true, true, true));
    assert!(!s.accepts(false, true, true));
    assert!(!s.accepts(true, false, true));
    assert!(!s.accepts(true, true, false));
}

#[test]
fn streams_are_served() {
    let p = serv_grpc(0, "0.0.0.0:9394");
    assert!(!p.tls && !p.client_ca && p.http1);
    assert_eq!(p.banner, "🚀 listening on grpc://0.0.0.0:9394");
    let p = serv_grpc(1, "a");
    assert!(p.tls && !p.client_ca && !p.http1);
    assert_eq!(p.banner, "🚀 listening on grpc://a + TLS");
    let p = serv_grpc(2, "a");
    assert!(p.tls && p.client_ca && !p.http1);
    assert_eq!(p.banner, "🚀 listening on grpc://a + mTLS");
}
