use zonemail::auth::policy::{
    resource_for_path, route_target, AuthPolicy, Grant, RouteTarget, Verb,
};
use zonemail::config::RoleConfig;

fn target(resource: &str, verb: Verb) -> RouteTarget {
    RouteTarget { resource: resource.to_string(), verb }
}

fn role(name: &str, grants: &[&str], extends: &[&str]) -> (String, RoleConfig) {
    (
        name.to_string(),
        RoleConfig {
            grants: grants.iter().map(|s| s.to_string()).collect(),
            extends: extends.iter().map(|s| s.to_string()).collect(),
        },
    )
}

fn texts(list: &[&str]) -> Vec<String> {
    list.iter().map(|s| s.to_string()).collect()
}

#[test]
fn empty_policy_is_deny_default() {
    let p = AuthPolicy::build(&vec![], &texts(&["health", "doc"]));
    assert!(!p.allows(&vec![], &target("domains", Verb::Read)));
    assert!(!p.allows(&vec![], &target("domains", Verb::Write)));
    assert!(!p.allows(&texts(&["nobody"]), &target("domains", Verb::Read)));
}

#[test]
fn exact_grant_matches_only_its_pair() {
    let roles = vec![role("viewer", &["domains:read", "mailboxes:read"], &[])];
    let p = AuthPolicy::build(&roles, &vec![]);
    assert!(p.allows(&texts(&["viewer"]), &target("domains", Verb::Read)));
    assert!(p.allows(&texts(&["viewer"]), &target("mailboxes", Verb::Read)));
    assert!(!p.allows(&texts(&["viewer"]), &target("domains", Verb::Write)));
    assert!(!p.allows(&texts(&["viewer"]), &target("records", Verb::Read)));
}

#[test]
fn star_and_resource_wildcards() {
    let roles = vec![role("admin", &["*"], &[]), role("editor", &["domains:*", "*:read"], &[])];
    let p = AuthPolicy::build(&roles, &vec![]);
    assert!(p.allows(&texts(&["admin"]), &target("anything", Verb::Delete)));
    assert!(p.allows(&texts(&["editor"]), &target("domains", Verb::Write)));
    assert!(p.allows(&texts(&["editor"]), &target("services", Verb::Read)));
    assert!(!p.allows(&texts(&["editor"]), &target("services", Verb::Write)));
}

#[test]
fn extends_inherits_grants() {
    let roles = vec![
        role("base", &["domains:read"], &[]),
        role("child", &["domains:write"], &["base"]),
    ];
    let p = AuthPolicy::build(&roles, &vec![]);
    assert!(p.allows(&texts(&["child"]), &target("domains", Verb::Read)));
    assert!(p.allows(&texts(&["child"]), &target("domains", Verb::Write)));
    assert!(!p.allows(&texts(&["base"]), &target("domains", Verb::Write)));
}

#[test]
fn unknown_grant_verb_is_ignored_not_broadened() {
    let roles = vec![role("x", &["domains:banana"], &[])];
    let p = AuthPolicy::build(&roles, &vec![]);
    assert!(!p.allows(&texts(&["x"]), &target("domains", Verb::Read)));
}

#[test]
fn public_resources_bypass_roles() {
    let p = AuthPolicy::build(&vec![], &texts(&["health", "doc"]));
    assert!(p.allows(&vec![], &target("health", Verb::Read)));
    assert!(p.allows(&vec![], &target("doc", Verb::Read)));
    assert!(!p.allows(&vec![], &target("domains", Verb::Read)));
}

#[test]
fn extends_cycle_does_not_hang() {
    let roles = vec![role("a", &["records:read"], &["b"]), role("b", &["domains:read"], &["a"])];
    let p = AuthPolicy::build(&roles, &vec![]);
    assert!(p.allows(&texts(&["a"]), &target("records", Verb::Read)));
    assert!(p.allows(&texts(&["a"]), &target("domains", Verb::Read)));
    assert!(p.allows(&texts(&["b"]), &target("records", Verb::Read)));
}

#[test]
fn method_to_verb_classification() {
    assert_eq!(Verb::from_method("GET"), Verb::Read);
    assert_eq!(Verb::from_method("HEAD"), Verb::Read);
    assert_eq!(Verb::from_method("OPTIONS"), Verb::Read);
    assert_eq!(Verb::from_method("POST"), Verb::Write);
    assert_eq!(Verb::from_method("PATCH"), Verb::Write);
    assert_eq!(Verb::from_method("PUT"), Verb::Write);
    assert_eq!(Verb::from_method("DELETE"), Verb::Delete);
}

#[test]
fn resource_for_path_and_target() {
    assert_eq!(resource_for_path("/domains/abc"), Some("domains".to_string()));
    assert_eq!(resource_for_path("/services/smtp/start"), Some("services".to_string()));
    assert_eq!(resource_for_path("/messages/9"), Some("messages".to_string()));
    assert_eq!(resource_for_path("/"), None);
    assert_eq!(resource_for_path(""), None);
    assert_eq!(resource_for_path("/does-not-exist"), None);
    assert!(route_target("/does-not-exist", "GET").is_none());
    assert_eq!(resource_for_path("//Mail/7"), Some("mail".to_string()));
    for name in ["domains", "mailboxes", "records", "services", "messages", "health", "doc"] {
        assert_eq!(resource_for_path(&format!("/{name}")).as_deref(), Some(name));
    }
    assert_eq!(resource_for_path("/domains2"), None);
    let t = route_target("/domains/abc", "GET").unwrap();
    assert_eq!((t.resource.as_str(), t.verb), ("domains", Verb::Read));
    let t = route_target("/domains", "POST").unwrap();
    assert_eq!((t.resource.as_str(), t.verb), ("domains", Verb::Write));
}

#[test]
fn case_insensitive_role_and_resource() {
    let roles = vec![role("Admin", &["Domains:read"], &[])];
    let p = AuthPolicy::build(&roles, &vec![]);
    assert!(p.allows(&texts(&["admin"]), &target("domains", Verb::Read)));
    assert!(p.allows(&texts(&["ADMIN"]), &target("DOMAINS", Verb::Read)));
    let roles = vec![role("ops", &["Domains"], &[])];
    let p = AuthPolicy::build(&roles, &vec![]);
    assert!(p.allows(&texts(&["ops"]), &target("domains", Verb::Delete)));
}

#[test]
fn inheritance_reaches_over_several_roles_and_unknown_ones() {
    let roles = vec![
        role("a", &[], &["b", "ghost"]),
        role("b", &[], &["c"]),
        role("c", &["mail:delete"], &[]),
    ];
    let p = AuthPolicy::build(&roles, &vec![]);
    assert!(p.allows(&texts(&["a"]), &target("mail", Verb::Delete)));
    assert!(!p.allows(&texts(&["ghost"]), &target("mail", Verb::Delete)));
    assert!(!p.allows(&texts(&["a"]), &target("mail", Verb::Read)));
}

#[test]
fn open_resources_are_told_apart() {
    let p = AuthPolicy::build(&vec![], &texts(&["Health"]));
    assert!(p.is_public("health"));
    assert!(p.is_public("HEALTH"));
    assert!(!p.is_public("domains"));
    let d = AuthPolicy::default();
    assert!(!d.allows(&texts(&["admin"]), &target("domains", Verb::Read)));
}

#[test]
fn verbs_and_grants_are_read() {
    assert_eq!(Verb::parse("read"), Some(Verb::Read));
    assert_eq!(Verb::parse("banana"), None);
    assert_eq!(Verb::Delete.name(), "delete");
    let g = Grant::parse("domains:read").unwrap();
    assert!(g.matches("domains", Verb::Read));
    assert!(!g.matches("domains", Verb::Write));
    assert!(!g.matches("mail", Verb::Read));
    let star = Grant::parse("*").unwrap();
    assert!(star.matches("anything", Verb::Delete));
    assert!(Grant::parse("domains:banana").is_none());
}
