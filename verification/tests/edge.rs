//! Edge routing: the peeked head decides where a public connection
//! goes, and the fixed response texts.
use tunnelto::remote::{edge_route, response_bytes, validate_host_prefix, EdgeDecision,
    EdgeResponse};

fn allowed() -> Vec<String> {
    vec!["tunnelto.dev".to_string()]
}

#[test]
fn no_host_header_is_dropped() {
    let peek = b"GET / HTTP/1.1\r\nAccept: */*\r\n\r\n";
    match edge_route(peek, &allowed()) {
        EdgeDecision::Drop => {}
        other => panic!("a request without Host must be dropped, got {:?}", kind(&other)),
    }
}

#[test]
fn incomplete_head_is_dropped() {
    let peek = b"GET / HTTP/1.1\r\nHost: a.tunnelto.dev\r\n";
    match edge_route(peek, &allowed()) {
        EdgeDecision::Drop => {}
        other => panic!("an incomplete head must be dropped, got {:?}", kind(&other)),
    }
}

#[test]
fn health_check_answers_without_the_registry() {
    let peek = b"GET /0xDEADBEEF_HEALTH_CHECK HTTP/1.1\r\nHost: whatever\r\n\r\n";
    match edge_route(peek, &allowed()) {
        EdgeDecision::HealthCheck => {}
        other => panic!("the sentinel path must health-check, got {:?}", kind(&other)),
    }
}

#[test]
fn bare_root_redirects() {
    let peek = b"GET / HTTP/1.1\r\nHost: tunnelto.dev\r\n\r\n";
    match edge_route(peek, &allowed()) {
        EdgeDecision::Redirect => {}
        other => panic!("the bare root must redirect, got {:?}", kind(&other)),
    }
}

#[test]
fn foreign_root_is_invalid() {
    let peek = b"GET / HTTP/1.1\r\nHost: app.example.com\r\n\r\n";
    match edge_route(peek, &allowed()) {
        EdgeDecision::InvalidHost => {}
        other => panic!("an unknown root must be invalid, got {:?}", kind(&other)),
    }
}

#[test]
fn control_label_passes_through() {
    let peek = b"GET / HTTP/1.1\r\nHost: wormhole.tunnelto.dev\r\n\r\n";
    match edge_route(peek, &allowed()) {
        EdgeDecision::ControlPassThrough => {}
        other => panic!("the control label must pass through, got {:?}", kind(&other)),
    }
}

#[test]
fn subdomain_routes_case_insensitively() {
    let peek = b"GET /ping HTTP/1.1\r\nHost: ABCD1234.TunnelTo.Dev:8080\r\n\r\n";
    match edge_route(peek, &allowed()) {
        EdgeDecision::Route(sub) => assert_eq!(sub, "abcd1234"),
        other => panic!("a tunnel host must route, got {:?}", kind(&other)),
    }
}

#[test]
fn host_prefix_splits_at_the_first_dot() {
    let p = validate_host_prefix(&"abcd1234.tunnelto.dev".to_string(), &allowed())
        .expect("allowed root");
    assert_eq!(p, b"abcd1234".to_vec());
    assert!(validate_host_prefix(&"abcd1234.elsewhere.dev".to_string(), &allowed()).is_none());
    assert!(validate_host_prefix(&"tunnelto.dev.example".to_string(), &allowed()).is_none());
}

#[test]
fn fixed_responses_spell_their_status() {
    assert_eq!(
        response_bytes(EdgeResponse::HealthOk),
        b"HTTP/1.1 200 OK\r\nContent-Length: 2\r\n\r\nok".to_vec()
    );
    assert_eq!(
        response_bytes(EdgeResponse::TunnelNotFound),
        b"HTTP/1.1 404\r\nContent-Length: 23\r\n\r\nError: Tunnel Not Found".to_vec()
    );
    assert_eq!(
        response_bytes(EdgeResponse::TunnelRefused),
        b"HTTP/1.1 500\r\nContent-Length: 32\r\n\r\nTunnel says: connection refused.".to_vec()
    );
    assert!(response_bytes(EdgeResponse::Redirect).starts_with(b"HTTP/1.1 301"));
    assert!(response_bytes(EdgeResponse::InvalidHostname).starts_with(b"HTTP/1.1 400"));
    assert!(response_bytes(EdgeResponse::ErrorLocatingHost).starts_with(b"HTTP/1.1 500"));
    assert!(response_bytes(EdgeResponse::ErrorProxyingTunnel).starts_with(b"HTTP/1.1 500"));
}

fn kind(d: &EdgeDecision) -> &'static str {
    match d {
        EdgeDecision::Drop => "drop",
        EdgeDecision::HealthCheck => "health-check",
        EdgeDecision::Redirect => "redirect",
        EdgeDecision::InvalidHost => "invalid-host",
        EdgeDecision::ControlPassThrough => "control",
        EdgeDecision::Route(_) => "route",
    }
}
