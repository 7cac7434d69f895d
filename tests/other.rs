use std::collections::HashMap;
use user_manifest::fib::{calc_fib_number, calc_fib_number_cache};
use user_manifest::pods::{service_accounts_to_pods, validate_namespace, NamespaceOutcome, PodInfo};

fn pod(name: Option<&str>, sa: Option<&str>) -> PodInfo {
    PodInfo { name: name.map(|x| x.to_string()), service_account: sa.map(|x| x.to_string()) }
}

#[test]
fn fib_plain() {
    assert_eq!(calc_fib_number(0), 0);
    assert_eq!(calc_fib_number(1), 1);
    assert_eq!(calc_fib_number(10), 55);
    assert_eq!(calc_fib_number(20), 6765);
}

#[test]
fn fib_cached() {
    let cache: HashMap<i64, i128> = HashMap::from([(0, 0), (1, 1)]);
    let (v, cache) = calc_fib_number_cache(90, cache);
    assert_eq!(v, 2880067194370816120);
    assert_eq!(cache.get(&50), Some(&12586269025));
    let (v, _) = calc_fib_number_cache(150, cache);
    assert_eq!(v, 9969216677189303386214405760200);
}

#[test]
fn namespace_outcomes() {
    assert_eq!(validate_namespace(&NamespaceOutcome::Found), Some(true));
    assert_eq!(validate_namespace(&NamespaceOutcome::ApiError(404)), Some(false));
    assert_eq!(validate_namespace(&NamespaceOutcome::ApiError(500)), None);
    assert_eq!(validate_namespace(&NamespaceOutcome::OtherError), None);
}

#[test]
fn pods_grouped_by_service_account() {
    let pods = vec![
        pod(Some("p1"), Some("sa1")),
        pod(Some("p2"), Some("sa2")),
        pod(None, Some("sa1")),
        pod(Some("p3"), None),
        pod(Some("p4"), Some("sa1")),
    ];
    let groups = service_accounts_to_pods(&pods);
    assert_eq!(groups.len(), 2);
    assert_eq!(groups[0], ("sa1".to_string(), vec!["p1".to_string(), "p4".to_string()]));
    assert_eq!(groups[1], ("sa2".to_string(), vec!["p2".to_string()]));
    assert!(service_accounts_to_pods(&Vec::new()).is_empty());
}
