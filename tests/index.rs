use user_manifest::binding::{get_rules, lookup_for, parse_grant, BindingObject, FetchOutcome, Lookup, ParseError, ResolveError};
use user_manifest::grant::{GrantType, IDType, RBACGrant, RBACId};
use user_manifest::index::{new, RBACController};
use user_manifest::reconcile::{reconcile_applied, reconcile_deleted};
use user_manifest::rules::Rule;

fn s(x: &str) -> String {
    x.to_string()
}

fn rule(verbs: &[&str], resources: &[&str]) -> Rule {
    Rule {
        verbs: verbs.iter().map(|v| s(v)).collect(),
        resources: resources.iter().map(|v| s(v)).collect(),
        api_groups: vec![s("")],
    }
}

fn binding(kind: GrantType, name: &str, ns: Option<&str>, ref_kind: &str, ref_name: &str, subject: &str) -> BindingObject {
    BindingObject {
        grant_type: kind,
        name: Some(s(name)),
        namespace: ns.map(s),
        role_ref_kind: s(ref_kind),
        role_ref_name: s(ref_name),
        subjects: vec![s(subject)],
    }
}

fn id(kind: IDType, ns: Option<&str>, name: &str) -> RBACId {
    RBACId { rbac_type: kind, namespace: ns.map(s), name: s(name) }
}

/// Parses, looks up with the given outcome, and applies, as the watch loop does.
fn apply_event(index: &mut RBACController, b: &BindingObject, outcome: FetchOutcome) -> Result<(), ResolveError> {
    let g = parse_grant(b).expect("binding parses");
    reconcile_applied(index, &b.subjects, &g, outcome)
}

#[test]
fn role_binding_target_takes_binding_namespace() {
    let b = binding(GrantType::RoleBinding, "bind-a", Some("team1"), "Role", "reader", "alice");
    let g = parse_grant(&b).unwrap();
    assert!(g.grant_type == GrantType::RoleBinding);
    assert_eq!(g.namespace, Some(s("team1")));
    assert_eq!(g.name, s("bind-a"));
    assert!(g.permissions_id.rbac_type == IDType::Role);
    assert_eq!(g.permissions_id.namespace, Some(s("team1")));
    assert_eq!(g.permissions_id.name, s("reader"));
}

#[test]
fn role_binding_to_cluster_role_has_no_target_namespace() {
    let b = binding(GrantType::RoleBinding, "bind-c", Some("team1"), "ClusterRole", "viewer", "alice");
    let g = parse_grant(&b).unwrap();
    assert!(g.permissions_id.rbac_type == IDType::ClusterRole);
    assert_eq!(g.permissions_id.namespace, None);
    assert_eq!(g.namespace, Some(s("team1")));
}

#[test]
fn cluster_role_binding_has_no_namespaces() {
    let b = binding(GrantType::ClusterRoleBinding, "bind-b", None, "ClusterRole", "admin", "bob");
    let g = parse_grant(&b).unwrap();
    assert!(g.grant_type == GrantType::ClusterRoleBinding);
    assert_eq!(g.namespace, None);
    assert_eq!(g.permissions_id.namespace, None);
    assert_eq!(g.permissions_id.name, s("admin"));
}

#[test]
fn parse_errors() {
    let mut b = binding(GrantType::RoleBinding, "x", Some("ns"), "Role", "r", "alice");
    b.name = None;
    assert!(matches!(parse_grant(&b), Err(ParseError::MissingName)));
    let b = binding(GrantType::RoleBinding, "x", None, "Role", "r", "alice");
    assert!(matches!(parse_grant(&b), Err(ParseError::MissingNamespace)));
    let b = binding(GrantType::RoleBinding, "x", Some("ns"), "Group", "r", "alice");
    assert!(matches!(parse_grant(&b), Err(ParseError::UnsupportedRefKind)));
    let b = binding(GrantType::ClusterRoleBinding, "x", None, "Role", "r", "alice");
    assert!(matches!(parse_grant(&b), Err(ParseError::UnsupportedRefKind)));
}

#[test]
fn lookups_follow_rule_set_kind() {
    match lookup_for(&id(IDType::Role, Some("team1"), "reader")) {
        Lookup::Namespaced { namespace, name } => {
            assert_eq!(namespace, s("team1"));
            assert_eq!(name, s("reader"));
        }
        other => panic!("unexpected lookup {:?}", other),
    }
    match lookup_for(&id(IDType::ClusterRole, None, "admin")) {
        Lookup::Cluster { name } => assert_eq!(name, s("admin")),
        other => panic!("unexpected lookup {:?}", other),
    }
}

#[test]
fn rules_from_outcomes() {
    let found = get_rules(FetchOutcome::Found(Some(vec![rule(&["get"], &["pods"])]))).unwrap();
    assert_eq!(found.len(), 1);
    assert_eq!(found[0].verbs, vec![s("get")]);
    assert_eq!(get_rules(FetchOutcome::Found(None)).unwrap().len(), 0);
    assert_eq!(get_rules(FetchOutcome::NotFound).unwrap_err(), ResolveError::NotFound);
    assert_eq!(get_rules(FetchOutcome::Failed(s("timeout"))).unwrap_err(), ResolveError::Backend(s("timeout")));
}

#[test]
fn enum_names() {
    assert_eq!(GrantType::RoleBinding.to_string(), s("RoleBinding"));
    assert_eq!(GrantType::ClusterRoleBinding.to_string(), s("ClusterRoleBinding"));
    assert_eq!(IDType::Role.to_string(), s("Role"));
    assert_eq!(IDType::ClusterRole.to_string(), s("ClusterRole"));
}

#[test]
fn role_binding_snapshot_shows_rules() {
    let mut index = new();
    let b = binding(GrantType::RoleBinding, "bind-a", Some("team1"), "Role", "reader", "alice");
    let r = apply_event(&mut index, &b, FetchOutcome::Found(Some(vec![rule(&["get"], &["pods"])])));
    assert!(r.is_ok());
    let snap = index.snapshot_for(&s("alice"));
    assert_eq!(snap.len(), 1);
    assert_eq!(snap[0].0.name, s("bind-a"));
    assert_eq!(snap[0].1.len(), 1);
    assert_eq!(snap[0].1[0].verbs, vec![s("get")]);
    assert_eq!(snap[0].1[0].resources, vec![s("pods")]);
}

#[test]
fn missing_cluster_role_is_skipped() {
    let mut index = RBACController::new();
    let b = binding(GrantType::ClusterRoleBinding, "bind-b", None, "ClusterRole", "admin", "bob");
    let r = apply_event(&mut index, &b, FetchOutcome::NotFound);
    assert_eq!(r, Err(ResolveError::NotFound));
    assert!(index.snapshot_for(&s("bob")).is_empty());
    assert!(index.grant_counts().is_empty());
}

#[test]
fn backend_failure_keeps_earlier_state() {
    let mut index = new();
    let b = binding(GrantType::RoleBinding, "bind-a", Some("team1"), "Role", "reader", "alice");
    apply_event(&mut index, &b, FetchOutcome::Found(Some(vec![rule(&["get"], &["pods"])]))).unwrap();
    let r = apply_event(&mut index, &b, FetchOutcome::Failed(s("unavailable")));
    assert_eq!(r, Err(ResolveError::Backend(s("unavailable"))));
    let snap = index.snapshot_for(&s("alice"));
    assert_eq!(snap.len(), 1);
    assert_eq!(snap[0].1[0].verbs, vec![s("get")]);
}

#[test]
fn deletion_hides_grant_and_keeps_rules() {
    let mut index = new();
    let b = binding(GrantType::RoleBinding, "bind-a", Some("team1"), "Role", "reader", "alice");
    apply_event(&mut index, &b, FetchOutcome::Found(Some(vec![rule(&["get"], &["pods"])]))).unwrap();
    let key = parse_grant(&b).unwrap().key();
    index.remove_grant(&key);
    assert!(index.snapshot_for(&s("alice")).is_empty());
    let kept = index.rules_for(&id(IDType::Role, Some("team1"), "reader"));
    assert_eq!(kept.map(|v| v.len()), Some(1));
}

#[test]
fn shared_cluster_role_stored_once() {
    let mut index = new();
    let b1 = binding(GrantType::RoleBinding, "bind-1", Some("ns1"), "ClusterRole", "viewer", "alice");
    let b2 = binding(GrantType::RoleBinding, "bind-2", Some("ns2"), "ClusterRole", "viewer", "bob");
    apply_event(&mut index, &b1, FetchOutcome::Found(Some(vec![rule(&["list"], &["pods"])]))).unwrap();
    apply_event(&mut index, &b2, FetchOutcome::Found(Some(vec![rule(&["list"], &["pods"])]))).unwrap();
    let viewer = id(IDType::ClusterRole, None, "viewer");
    assert_eq!(index.rules_for(&viewer).map(|v| v.len()), Some(1));
    let a = index.snapshot_for(&s("alice"));
    let b = index.snapshot_for(&s("bob"));
    assert_eq!(a.len(), 1);
    assert_eq!(b.len(), 1);
    assert!(a[0].0.permissions_id == viewer);
    assert!(b[0].0.permissions_id == viewer);
}

#[test]
fn applying_twice_matches_applying_once() {
    let b = binding(GrantType::RoleBinding, "bind-a", Some("team1"), "Role", "reader", "alice");
    let mut once = new();
    apply_event(&mut once, &b, FetchOutcome::Found(Some(vec![rule(&["get"], &["pods"])]))).unwrap();
    let mut twice = new();
    apply_event(&mut twice, &b, FetchOutcome::Found(Some(vec![rule(&["get"], &["pods"])]))).unwrap();
    apply_event(&mut twice, &b, FetchOutcome::Found(Some(vec![rule(&["get"], &["pods"])]))).unwrap();
    assert_eq!(once.grant_counts(), twice.grant_counts());
    assert_eq!(twice.grant_counts(), vec![(s("alice"), 1)]);
    assert_eq!(once.snapshot_for(&s("alice")).len(), twice.snapshot_for(&s("alice")).len());
}

#[test]
fn delete_then_reapply_restores_visibility() {
    let mut index = new();
    let b = binding(GrantType::RoleBinding, "bind-a", Some("team1"), "Role", "reader", "alice");
    apply_event(&mut index, &b, FetchOutcome::Found(Some(vec![rule(&["get"], &["pods"])]))).unwrap();
    index.remove_grant(&parse_grant(&b).unwrap().key());
    apply_event(&mut index, &b, FetchOutcome::Found(Some(vec![rule(&["get", "list"], &["pods"])]))).unwrap();
    let snap = index.snapshot_for(&s("alice"));
    assert_eq!(snap.len(), 1);
    assert_eq!(snap[0].1[0].verbs, vec![s("get"), s("list")]);
}

#[test]
fn unknown_identity_sees_empty_snapshot() {
    let mut index = new();
    assert!(index.snapshot_for(&s("nobody")).is_empty());
    let b = binding(GrantType::RoleBinding, "bind-a", Some("team1"), "Role", "reader", "alice");
    apply_event(&mut index, &b, FetchOutcome::Found(None)).unwrap();
    assert!(index.snapshot_for(&s("nobody")).is_empty());
    let snap = index.snapshot_for(&s("alice"));
    assert_eq!(snap.len(), 1);
    assert!(snap[0].1.is_empty());
}

#[test]
fn every_visible_grant_has_rules_after_events() {
    let mut index = new();
    let a = binding(GrantType::RoleBinding, "bind-a", Some("team1"), "Role", "reader", "alice");
    let b = binding(GrantType::ClusterRoleBinding, "bind-b", None, "ClusterRole", "admin", "alice");
    let c = binding(GrantType::RoleBinding, "bind-c", Some("team2"), "ClusterRole", "viewer", "carol");
    apply_event(&mut index, &a, FetchOutcome::Found(Some(vec![rule(&["get"], &["pods"])]))).unwrap();
    apply_event(&mut index, &b, FetchOutcome::Found(Some(vec![rule(&["*"], &["*"])]))).unwrap();
    apply_event(&mut index, &c, FetchOutcome::Found(Some(vec![rule(&["list"], &["pods"])]))).unwrap();
    index.remove_grant(&parse_grant(&a).unwrap().key());
    for who in ["alice", "carol"] {
        for (g, rules) in index.snapshot_for(&s(who)) {
            let stored = index.rules_for(&g.permissions_id).expect("rules stored");
            assert_eq!(stored.len(), rules.len());
        }
    }
    let mut counts = index.grant_counts();
    counts.sort();
    assert_eq!(counts, vec![(s("alice"), 1), (s("carol"), 1)]);
}

#[test]
fn grant_counts_per_identity() {
    let mut index = new();
    let a = binding(GrantType::RoleBinding, "bind-a", Some("team1"), "Role", "reader", "alice");
    let b = binding(GrantType::ClusterRoleBinding, "bind-b", None, "ClusterRole", "admin", "alice");
    let mut c = binding(GrantType::RoleBinding, "bind-c", Some("team2"), "Role", "writer", "bob");
    c.subjects.push(s("alice"));
    apply_event(&mut index, &a, FetchOutcome::Found(None)).unwrap();
    apply_event(&mut index, &b, FetchOutcome::Found(None)).unwrap();
    apply_event(&mut index, &c, FetchOutcome::Found(None)).unwrap();
    let mut counts = index.grant_counts();
    counts.sort();
    assert_eq!(counts, vec![(s("alice"), 3), (s("bob"), 1)]);
}

#[test]
fn grant_equality_includes_target() {
    let g1 = RBACGrant { grant_type: GrantType::RoleBinding, namespace: Some(s("n")), name: s("b"), permissions_id: id(IDType::Role, Some("n"), "r1") };
    let g2 = RBACGrant { grant_type: GrantType::RoleBinding, namespace: Some(s("n")), name: s("b"), permissions_id: id(IDType::Role, Some("n"), "r2") };
    assert!(g1 != g2);
    assert!(g1 == g1.duplicate());
    assert!(g1.has_key(&g2.key()));
}

#[test]
fn deleted_event_removes_grant() {
    let mut index = new();
    let b = binding(GrantType::RoleBinding, "bind-a", Some("team1"), "Role", "reader", "alice");
    apply_event(&mut index, &b, FetchOutcome::Found(Some(vec![rule(&["get"], &["pods"])]))).unwrap();
    let mut unnamed = binding(GrantType::RoleBinding, "bind-a", Some("team1"), "Role", "reader", "alice");
    unnamed.name = None;
    assert!(matches!(reconcile_deleted(&mut index, &unnamed), Err(ParseError::MissingName)));
    assert_eq!(index.snapshot_for(&s("alice")).len(), 1);
    assert!(reconcile_deleted(&mut index, &b).is_ok());
    assert!(index.snapshot_for(&s("alice")).is_empty());
}
