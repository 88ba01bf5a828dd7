use auth_gateway::config::{OpenFgaClient, RouteConfig};
use auth_gateway::credentials::{AuthError, Claims};
use auth_gateway::gateway::{
    rate_key_of, relation_for, reply_allows, Action, CheckReply, Pipeline, Stage, Status,
    DECISION_TTL_SECS, RATE_LIMIT, RATE_WINDOW_SECS,
};

fn route(feature: &str, action: Option<&str>) -> RouteConfig {
    RouteConfig { feature: feature.to_string(), action: action.map(String::from), target: None }
}

fn claims(sub: &str) -> Claims {
    Claims { sub: sub.to_string(), exp: 4102444800 }
}

/// Runs a request through every step up to the cache lookup.
fn authenticated(feature: &str, action: Option<&str>) -> Pipeline {
    let r = route(feature, action);
    let (mut p, a) = Pipeline::begin(Some(&r), Some("Bearer tok"));
    assert!(matches!(a, Action::ValidateToken(ref t) if t == "tok"));
    let a = p.on_claims(Ok(claims("alice")));
    assert!(matches!(a, Action::ReadCounter(ref k) if k == "rate_limit:alice"));
    let a = p.on_count(Some(3));
    assert!(matches!(a, Action::IncrementCounter(ref k, 60) if k == "rate_limit:alice"));
    let a = p.on_increment(true);
    assert!(matches!(a, Action::LookupDecision(ref s, ref f) if s == "alice" && f == feature));
    p
}

#[test]
fn unknown_path_is_forbidden_before_authentication() {
    let (p, a) = Pipeline::begin(None, Some("Bearer tok"));
    assert!(matches!(a, Action::Reject(Status::Forbidden)));
    assert_eq!(p.stage, Stage::Finished);
    let (_, a) = Pipeline::begin(None, None);
    assert!(matches!(a, Action::Reject(Status::Forbidden)));
}

#[test]
fn public_route_needs_no_token() {
    let r = route("public_access", None);
    let (p, a) = Pipeline::begin(Some(&r), None);
    assert!(matches!(a, Action::Forward(None)));
    assert_eq!(p.stage, Stage::Finished);
    let (_, a) = Pipeline::begin(Some(&r), Some("garbage"));
    assert!(matches!(a, Action::Forward(None)));
}

#[test]
fn missing_or_malformed_header_is_unauthorized() {
    let r = route("reports", None);
    let (_, a) = Pipeline::begin(Some(&r), None);
    assert!(matches!(a, Action::Reject(Status::Unauthorized)));
    let (_, a) = Pipeline::begin(Some(&r), Some("Basic abc"));
    assert!(matches!(a, Action::Reject(Status::Unauthorized)));
}

#[test]
fn failed_validation_is_unauthorized() {
    let r = route("reports", None);
    let (mut p, _) = Pipeline::begin(Some(&r), Some("Bearer tok"));
    let a = p.on_claims(Err(AuthError::Expired));
    assert!(matches!(a, Action::Reject(Status::Unauthorized)));
    assert_eq!(p.stage, Stage::Finished);
}

#[test]
fn rate_limit_refuses_at_capacity() {
    let r = route("reports", None);
    let (mut p, _) = Pipeline::begin(Some(&r), Some("Bearer tok"));
    p.on_claims(Ok(claims("alice")));
    let mut q = p.clone();
    let a = p.on_count(Some(99));
    assert!(matches!(a, Action::IncrementCounter(_, 60)));
    let a = q.on_count(Some(100));
    assert!(matches!(a, Action::Reject(Status::TooManyRequests)));
}

#[test]
fn unreachable_counter_store_fails_closed() {
    let r = route("reports", None);
    let (mut p, _) = Pipeline::begin(Some(&r), Some("Bearer tok"));
    p.on_claims(Ok(claims("alice")));
    let mut q = p.clone();
    assert!(matches!(p.on_count(None), Action::Reject(Status::TooManyRequests)));
    q.on_count(Some(0));
    assert!(matches!(q.on_increment(false), Action::Reject(Status::TooManyRequests)));
}

#[test]
fn cached_decision_skips_policy_check() {
    let mut p = authenticated("reports", None);
    let mut q = p.clone();
    assert!(matches!(p.on_cached(Some(true)), Action::Forward(Some(ref s)) if s == "alice"));
    assert!(matches!(q.on_cached(Some(false)), Action::Reject(Status::Forbidden)));
}

#[test]
fn cache_miss_checks_then_stores() {
    let mut p = authenticated("reports", Some("edit"));
    match p.on_cached(None) {
        Action::CheckPolicy(t) => {
            assert_eq!(t.user, "user:alice");
            assert_eq!(t.relation, "edit");
            assert_eq!(t.object, "feature:reports");
        }
        _ => panic!("expected a policy check"),
    }
    let mut q = p.clone();
    let a = p.on_check(CheckReply::Answered(Some(true)));
    assert!(matches!(a, Action::StoreDecision(ref s, ref f, true) if s == "alice" && f == "reports"));
    assert!(matches!(p.on_stored(), Action::Forward(Some(ref s)) if s == "alice"));
    let a = q.on_check(CheckReply::Unreachable);
    assert!(matches!(a, Action::StoreDecision(_, _, false)));
    assert!(matches!(q.on_stored(), Action::Reject(Status::Forbidden)));
}

#[test]
fn default_relation_is_viewer() {
    let mut p = authenticated("reports", None);
    match p.on_cached(None) {
        Action::CheckPolicy(t) => assert_eq!(t.relation, "viewer"),
        _ => panic!("expected a policy check"),
    }
    assert_eq!(relation_for(&Some("delete".to_string())), "delete");
    assert_eq!(relation_for(&None), "viewer");
}

#[test]
fn only_explicit_allow_grants() {
    assert!(reply_allows(CheckReply::Answered(Some(true))));
    assert!(!reply_allows(CheckReply::Answered(Some(false))));
    assert!(!reply_allows(CheckReply::Answered(None)));
    assert!(!reply_allows(CheckReply::Failed));
    assert!(!reply_allows(CheckReply::Unreachable));
}

#[test]
fn limits_and_keys() {
    assert_eq!(RATE_LIMIT, 100);
    assert_eq!(RATE_WINDOW_SECS, 60);
    assert_eq!(DECISION_TTL_SECS, 30);
    assert_eq!(rate_key_of("bob"), "rate_limit:bob");
    assert_eq!(rate_key_of(""), "rate_limit:");
}

#[test]
fn store_endpoints() {
    let c = OpenFgaClient::new("http://openfga:8080".into(), "dummy-store-id".into());
    assert_eq!(c.url, "http://openfga:8080");
    assert_eq!(c.store_id, "dummy-store-id");
    assert_eq!(c.endpoint("check"), "http://openfga:8080/stores/dummy-store-id/check");
    assert_eq!(c.endpoint("write"), "http://openfga:8080/stores/dummy-store-id/write");
}

/// Runs one request for `alice` against an in-memory counter and decision
/// cache; returns the final action and whether a policy check was made.
fn run_request(
    counter: &mut i64,
    cache: &mut std::collections::HashMap<(String, String), bool>,
    policy_allows: bool,
) -> (Action, bool) {
    let r = route("reports", None);
    let (mut p, mut a) = Pipeline::begin(Some(&r), Some("Bearer tok"));
    let mut checked = false;
    loop {
        a = match a {
            Action::Reject(_) | Action::Forward(_) => return (a, checked),
            Action::ValidateToken(_) => p.on_claims(Ok(claims("alice"))),
            Action::ReadCounter(_) => p.on_count(Some(*counter)),
            Action::IncrementCounter(_, _) => {
                *counter += 1;
                p.on_increment(true)
            }
            Action::LookupDecision(s, f) => p.on_cached(cache.get(&(s, f)).copied()),
            Action::CheckPolicy(_) => {
                checked = true;
                p.on_check(CheckReply::Answered(Some(policy_allows)))
            }
            Action::StoreDecision(s, f, allowed) => {
                cache.insert((s, f), allowed);
                p.on_stored()
            }
        };
    }
}

#[test]
fn hundred_and_first_request_in_window_is_refused() {
    let mut counter = 0;
    let mut cache = std::collections::HashMap::new();
    for _ in 0..100 {
        let (a, _) = run_request(&mut counter, &mut cache, true);
        assert!(matches!(a, Action::Forward(Some(_))));
    }
    let (a, _) = run_request(&mut counter, &mut cache, true);
    assert!(matches!(a, Action::Reject(Status::TooManyRequests)));
    assert_eq!(counter, 100);
    // The window elapses: the store drops the counter.
    counter = 0;
    let (a, _) = run_request(&mut counter, &mut cache, true);
    assert!(matches!(a, Action::Forward(Some(_))));
}

#[test]
fn second_authorization_uses_cached_decision() {
    let mut counter = 0;
    let mut cache = std::collections::HashMap::new();
    let (a, checked) = run_request(&mut counter, &mut cache, false);
    assert!(matches!(a, Action::Reject(Status::Forbidden)));
    assert!(checked);
    let (a, checked) = run_request(&mut counter, &mut cache, true);
    assert!(matches!(a, Action::Reject(Status::Forbidden)));
    assert!(!checked);
    // The entry expires: a fresh check is made.
    cache.clear();
    let (a, checked) = run_request(&mut counter, &mut cache, true);
    assert!(matches!(a, Action::Forward(Some(_))));
    assert!(checked);
}
