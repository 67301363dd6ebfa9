use ryu_drafts::api::Body;
use ryu_drafts::auth::{
    bearer_gate, bearer_ok, bearer_token, configured_value, listen_port, parse_port,
};

#[test]
fn the_gate_is_fail_closed_without_a_configured_token() {
    assert!(!bearer_ok(Some("anything"), None));
    assert!(!bearer_ok(None, None));
}

#[test]
fn only_the_exact_token_passes() {
    assert!(bearer_ok(Some("s3cret"), Some("s3cret")));
    assert!(!bearer_ok(Some("s3cre"), Some("s3cret")));
    assert!(!bearer_ok(Some("s3cretx"), Some("s3cret")));
    assert!(!bearer_ok(None, Some("s3cret")));
}

#[test]
fn a_request_is_served_only_with_the_bearer_token() {
    assert!(bearer_gate(Some("Bearer s3cret"), Some("s3cret")).is_none());
    for header in [None, Some("s3cret"), Some("bearer s3cret"), Some("Bearer  s3cret"), Some("")] {
        let r = bearer_gate(header, Some("s3cret")).unwrap();
        assert_eq!(r.status, 401);
        assert!(matches!(r.body, Body::Error(e) if e == "unauthorized"));
    }
    assert!(bearer_gate(Some("Bearer s3cret"), None).is_some());
}

#[test]
fn the_token_stands_behind_the_scheme() {
    assert_eq!(bearer_token(Some("Bearer x y")).as_deref(), Some("x y"));
    assert_eq!(bearer_token(Some("Bearer ")).as_deref(), Some(""));
    assert_eq!(bearer_token(Some("Bearer")), None);
    assert_eq!(bearer_token(None), None);
}

#[test]
fn an_empty_token_is_none() {
    assert_eq!(configured_value(Some(String::new())), None);
    assert_eq!(configured_value(None), None);
    assert_eq!(configured_value(Some("t".to_owned())).as_deref(), Some("t"));
}

#[test]
fn the_port_is_the_one_named_or_the_default() {
    assert_eq!(listen_port(None), 8012);
    assert_eq!(listen_port(Some("9000")), 9000);
    assert_eq!(listen_port(Some("65536")), 8012);
    assert_eq!(listen_port(Some("http")), 8012);
    assert_eq!(parse_port(Some("0")), Some(0));
    assert_eq!(parse_port(Some("-1")), None);
}
