use acme_proxy::level::Level;
use acme_proxy::listener::{
    after_handshake, AcceptLoop, Action, HandshakeEnd, Next, SocketCommand, Wait,
    MAX_PENDING_CONNECTIONS,
};
use acme_proxy::middlewares::access::{
    adopted_id, finish_request, is_probe, request_id, usable_request_id, RequestId,
    REQUEST_ID_MAX,
};
use acme_proxy::middlewares::admission::{refusal, Admission, Passage};
use acme_proxy::pool::Slot;
use acme_proxy::middlewares::filter::{problem_for, stopped_by, Outcome};
use acme_proxy::middlewares::nonce::{mints_nonce, replay_nonce};
use acme_proxy::time::Duration;

#[test]
fn probe_routes_are_recognized() {
    assert!(is_probe("GET", "/health"));
    assert!(is_probe("HEAD", "/health"));
    assert!(is_probe("GET", "/"));
    assert!(!is_probe("POST", "/health"));
    assert!(!is_probe("GET", "/directory"));
}

#[test]
fn ordinary_correlation_ids_are_honoured() {
    for ordinary in [
        "550e8400-e29b-41d4-a716-446655440000",
        "custom-req-id-123",
        "trace.4bf92f:span_1",
    ] {
        assert_eq!(request_id(Some(ordinary.as_bytes())).0, ordinary);
    }
    assert_eq!(request_id(Some(b"  padded\t")).0, "padded");
}

#[test]
fn a_request_id_that_could_forge_log_structure_is_replaced() {
    for forged in [
        "abc outcome=success",
        "abc=def",
        "abc\tstatus=200",
        "abc\"quoted\"",
        "",
        "   ",
        "é",
    ] {
        assert_eq!(adopted_id(Some(forged.as_bytes())), None, "{forged}");
        let id = request_id(Some(forged.as_bytes())).0;
        assert_eq!(id.len(), 36, "`{forged}` must not be adopted verbatim");
        assert!(usable_request_id(&id));
    }
    assert_eq!(adopted_id(Some(&[0xff, 0xfe])), None);
    assert_eq!(adopted_id(None), None);
    assert_ne!(request_id(None), request_id(None));
}

#[test]
fn an_oversized_request_id_is_replaced() {
    let long = "a".repeat(REQUEST_ID_MAX + 1);
    assert_eq!(request_id(Some(long.as_bytes())).0.len(), 36);
    let fits = "b".repeat(REQUEST_ID_MAX);
    assert_eq!(request_id(Some(fits.as_bytes())).0, fits);
}

#[test]
fn every_access_line_level_is_reachable() {
    let id = RequestId("id-1".to_string());
    let line = finish_request(&id, false, 200);
    assert_eq!((line.level, line.outcome), (Level::Info, "success"));
    assert_eq!(line.header.as_deref(), Some("id-1"));
    let line = finish_request(&id, true, 200);
    assert_eq!((line.level, line.outcome), (Level::Debug, "success"));
    let line = finish_request(&id, true, 500);
    assert_eq!((line.level, line.outcome), (Level::Warn, "failure"));
    assert_eq!(finish_request(&id, false, 404).level, Level::Info);
    assert_eq!(
        finish_request(&RequestId("a\nb".to_string()), false, 200).header,
        None
    );
}

#[test]
fn a_limit_of_zero_still_serves_requests() {
    let admission = Admission::new(0, 50, 10_000);
    assert_eq!(admission.available(), 1);
    assert_eq!(admission.wait(), Duration::from_millis(50));
    assert_eq!(admission.deadline(), Duration::from_millis(10_000));
    let held = admission.enter();
    assert!(matches!(held, Slot::Taken(_)));
    assert_eq!(admission.available(), 0);
    assert!(matches!(admission.enter(), Slot::Full));
    drop(held);
    assert_eq!(admission.available(), 1);
    assert_eq!(Admission::new(7, 0, 0).available(), 7);
}

#[test]
fn a_request_past_the_limit_is_shed_and_one_past_its_deadline_is_answered() {
    assert_eq!(refusal(Passage::Answered), None);
    let shed = refusal(Passage::Shed).unwrap();
    assert_eq!(shed.problem.status, 503);
    assert_eq!(shed.problem.kind, "urn:ietf:params:acme:error:serverInternal");
    assert_eq!(shed.retry_after, Some("5"));
    let late = refusal(Passage::Overdue).unwrap();
    assert_eq!(late.problem.status, 500);
    assert_eq!(late.problem.detail, "The request took too long to process");
    assert_eq!(late.retry_after, None);
}

#[test]
fn a_refusal_becomes_a_403_naming_the_reason() {
    let problem = problem_for(&Outcome::Deny("address 1.2.3.4 is not allowed".to_string()));
    assert_eq!(problem.status, 403);
    assert_eq!(problem.detail, "address 1.2.3.4 is not allowed");
}

#[test]
fn an_unknown_becomes_a_500() {
    let problem = problem_for(&Outcome::Undecided("resolver down".to_string()));
    assert_eq!(problem.status, 500);
    assert!(!problem.detail.contains("resolver"));
    assert_eq!(stopped_by(&Outcome::Allow), None);
    assert_eq!(
        stopped_by(&Outcome::Undecided("x".to_string())),
        Some(problem)
    );
}

#[test]
fn only_the_exchanges_rfc8555_asks_for_mint_a_nonce() {
    for path in [
        "/newAccount",
        "/newOrder",
        "/chall/x",
        "/directory",
        "/nope",
    ] {
        assert!(mints_nonce("POST", path), "POST {path}");
    }

    for method in ["GET", "HEAD", "POST"] {
        assert!(mints_nonce(method, "/newNonce"), "{method} /newNonce");
    }

    for path in ["/directory", "/crl", "/renewalInfo/abc.def", "/nope"] {
        assert!(!mints_nonce("GET", path), "GET {path}");
        assert!(!mints_nonce("HEAD", path), "HEAD {path}");
    }
}

#[test]
fn only_a_nonce_that_was_kept_is_handed_out() {
    assert_eq!(replay_nonce("abc", true), Some("abc".to_string()));
    assert_eq!(replay_nonce("abc", false), None);
    assert_eq!(replay_nonce("a\u{7f}c", true), None);
    assert_eq!(replay_nonce("é\t", true), Some("é\t".to_string()));
}

// ----------------------------------------------------------------- listener

type Sockets = AcceptLoop<&'static str, u16>;

fn next(next: Next<&'static str, u16, u8>) -> Next<&'static str, u16, u8> {
    next
}

#[test]
fn a_role_parks_until_it_is_handed_a_socket() {
    let mut role: Sockets = AcceptLoop::start(None, 0);
    assert_eq!(role.wait(), Wait::Command);
    let serve = next(Next::Command(Some((SocketCommand::Serve("a"), Some(80)))));
    assert!(matches!(role.on_next(serve, None::<()>), Action::GoOn));
    assert_eq!(role.current(), Some(&"a"));
    assert_eq!(*role.local_addr(), 80);
    assert_eq!(role.wait(), Wait::CommandFirst);

    let unnamed = next(Next::Command(Some((SocketCommand::Serve("b"), None))));
    role.on_next(unnamed, None::<()>);
    assert_eq!((role.current(), *role.local_addr()), (Some(&"b"), 80));

    let gone = next(Next::Command(None));
    role.on_next(gone, None::<()>);
    assert_eq!(role.wait(), Wait::Connection);
    assert_eq!(role.current(), Some(&"b"));

    role.apply(SocketCommand::Close, None);
    assert_eq!(role.wait(), Wait::End);
    assert_eq!(*role.local_addr(), 80);
}

#[test]
fn the_tls_mode_is_read_per_connection() {
    let mut role: Sockets = AcceptLoop::start(Some("a"), 80);
    match role.on_next(next(Next::Connection(7)), None::<&str>) {
        Action::Plain(connection) => assert_eq!(connection, 7),
        other => panic!("{other:?}"),
    }
    match role.on_next(next(Next::Connection(8)), Some("cert")) {
        Action::Handshake(connection, settings) => assert_eq!((connection, settings), (8, "cert")),
        other => panic!("{other:?}"),
    }
    match role.on_next(next(Next::Backoff), None::<&str>) {
        Action::Pause(span) => assert_eq!(span, Duration::from_secs(1)),
        other => panic!("{other:?}"),
    }
    assert_eq!(role.current(), Some(&"a"));
    assert_eq!(MAX_PENDING_CONNECTIONS, 256);
}

#[test]
fn a_bad_handshake_never_becomes_a_connection() {
    assert_eq!(after_handshake(HandshakeEnd::Finished), Ok(()));
    assert_eq!(after_handshake(HandshakeEnd::Failed), Err("tls_handshake_failed"));
    assert_eq!(after_handshake(HandshakeEnd::TimedOut), Err("tls_handshake_timeout"));
}
