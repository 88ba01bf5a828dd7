use auth_gateway::config::{AccessRule, RouteConfig};
use auth_gateway::route_table::{build_route_table, is_valid_pattern, RouteError, RouteTable};

fn rule(path: &str, feature: &str, target: Option<&str>) -> AccessRule {
    AccessRule {
        path: path.to_string(),
        method: "GET".to_string(),
        feature: feature.to_string(),
        action: Some("view".to_string()),
        target: target.map(String::from),
    }
}

#[test]
fn lookup_finds_registered_routes() {
    let rules = vec![rule("/reports", "reports", None), rule("/users/:id", "users", Some("identity"))];
    let table = build_route_table(&rules).ok().unwrap();
    let c = table.lookup("/reports").unwrap();
    assert_eq!(c.feature, "reports");
    assert_eq!(c.action.as_deref(), Some("view"));
    let c = table.lookup("/users/42").unwrap();
    assert_eq!(c.feature, "users");
    assert_eq!(c.target.as_deref(), Some("identity"));
}

#[test]
fn lookup_misses_unknown_path() {
    let table = build_route_table(&vec![rule("/reports", "reports", None)]).ok().unwrap();
    assert!(table.lookup("/other").is_none());
    assert!(table.lookup("/").is_none());
    assert!(RouteTable::new().lookup("/reports").is_none());
}

#[test]
fn duplicate_pattern_is_refused() {
    let rules = vec![rule("/reports", "a", None), rule("/reports", "b", None)];
    assert!(matches!(build_route_table(&rules), Err(RouteError::DuplicateOrConflictingPattern)));
    let table = RouteTable::new();
    let config = RouteConfig { feature: "x".into(), action: None, target: None };
    let table = table.insert("/x/:id", config.clone()).ok().unwrap();
    assert!(matches!(table.insert("/x/:name", config), Err(RouteError::DuplicateOrConflictingPattern)));
}

#[test]
fn malformed_patterns_are_refused() {
    assert!(!is_valid_pattern(""));
    assert!(!is_valid_pattern("x"));
    assert!(is_valid_pattern("/"));
    let many: String = (0..26).map(|i| format!("/:p{}", i)).collect();
    let fewer: String = (0..25).map(|i| format!("/:p{}", i)).collect();
    assert!(!is_valid_pattern(&many));
    assert!(is_valid_pattern(&fewer));
    let config = RouteConfig { feature: "x".into(), action: None, target: None };
    assert!(matches!(RouteTable::new().insert("", config.clone()), Err(RouteError::DuplicateOrConflictingPattern)));
    assert!(matches!(RouteTable::new().insert(&many, config.clone()), Err(RouteError::DuplicateOrConflictingPattern)));
    assert!(RouteTable::new().insert(&fewer, config).is_ok());
    assert!(matches!(build_route_table(&vec![rule("", "a", None), rule("", "b", None)]), Err(_)));
    assert!(!is_valid_pattern("/\u{2082}"));
    let non_ascii = vec![rule("/\u{2082}", "a", None), rule("/\u{2093}", "b", None), rule("/\u{2082}", "c", None)];
    assert!(matches!(build_route_table(&non_ascii), Err(RouteError::DuplicateOrConflictingPattern)));
    let once = vec![rule("/\u{2082}", "a", None)];
    assert!(matches!(build_route_table(&once), Err(RouteError::DuplicateOrConflictingPattern)));
}

#[test]
fn plain_patterns_find_themselves() {
    let rules = vec![rule("/a", "a", None), rule("/ab", "ab", None), rule("/a/b", "ab2", None), rule("/", "root", None)];
    let table = build_route_table(&rules).ok().unwrap();
    for r in &rules {
        assert_eq!(table.lookup(&r.path).unwrap().feature, r.feature);
    }
}
