use auth_gateway::config::RouteConfig;
use auth_gateway::gateway::Status;
use auth_gateway::proxy::{
    failure_status, forwarded_headers, outbound_request, proxy_url, relay, ProxyFailure, Target,
    Upstreams,
};

fn upstreams() -> Upstreams {
    Upstreams {
        identity_url: "http://zitadel".into(),
        policy_url: "http://openfga:8080".into(),
        default_url: "http://upstream".into(),
    }
}

fn routed(target: Option<&str>) -> RouteConfig {
    RouteConfig { feature: "f".into(), action: None, target: target.map(String::from) }
}

fn header(name: &str, value: &str) -> (String, Vec<u8>) {
    (name.to_string(), value.as_bytes().to_vec())
}

#[test]
fn target_tags() {
    assert_eq!(Target::from_tag(&Some("identity".into())), Target::Identity);
    assert_eq!(Target::from_tag(&Some("policy".into())), Target::Policy);
    assert_eq!(Target::from_tag(&Some("zitadel".into())), Target::Default);
    assert_eq!(Target::from_tag(&Some("openfga".into())), Target::Default);
    assert_eq!(Target::from_tag(&Some("other".into())), Target::Default);
    assert_eq!(Target::from_tag(&None), Target::Default);
}

#[test]
fn url_follows_target_and_query() {
    let u = upstreams();
    assert_eq!(proxy_url(&u, Some(&routed(Some("identity"))), "/some/path", ""), "http://zitadel/some/path");
    assert_eq!(proxy_url(&u, Some(&routed(Some("policy"))), "/x", "a=1"), "http://openfga:8080/x?a=1");
    assert_eq!(proxy_url(&u, Some(&routed(Some("zitadel"))), "/x", ""), "http://upstream/x");
    assert_eq!(proxy_url(&u, Some(&routed(None)), "/x", ""), "http://upstream/x");
    assert_eq!(proxy_url(&u, None, "/x", "q"), "http://upstream/x?q");
}

#[test]
fn host_header_is_dropped() {
    let hs = vec![header("host", "gw"), header("authorization", "Bearer t"), header("x-a", "1")];
    assert_eq!(forwarded_headers(&hs), vec![header("authorization", "Bearer t"), header("x-a", "1")]);
    assert!(forwarded_headers(&Vec::new()).is_empty());
}

#[test]
fn echo_round_trip_keeps_request() {
    let hs = vec![header("host", "gw"), header("content-type", "text/plain")];
    let body = b"hello".to_vec();
    let out = outbound_request(&upstreams(), None, "POST", "/echo", "", &hs, body.clone());
    assert_eq!(out.method, "POST");
    assert_eq!(out.url, "http://upstream/echo");
    assert_eq!(out.body, Some(body.clone()));
    let reply = relay(200, out.headers.clone(), out.body.clone().unwrap());
    assert_eq!(reply.status, 200);
    assert_eq!(reply.headers, vec![header("content-type", "text/plain")]);
    assert_eq!(reply.body, body);
}

#[test]
fn empty_body_is_not_sent() {
    let out = outbound_request(&upstreams(), None, "GET", "/x", "", &Vec::new(), Vec::new());
    assert_eq!(out.body, None);
}

#[test]
fn failures_map_to_statuses() {
    assert_eq!(failure_status(ProxyFailure::Upstream), Status::BadGateway);
    assert_eq!(failure_status(ProxyFailure::UpstreamBody), Status::BadGateway);
    assert_eq!(failure_status(ProxyFailure::RequestBody), Status::InternalError);
    assert_eq!(failure_status(ProxyFailure::Response), Status::InternalError);
}
