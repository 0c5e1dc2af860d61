//! Rate-limit policies, supported features and DNS refresh.
use arc_swap::ArcSwap;
use portail::kubernetes::crds::{PolicyTargetRef, RateLimitPolicy, RateLimitPolicySpec};
use portail::kubernetes::dns_refresh::{
    backends_changed, swap_outcome, ResolvedTable, SwapOutcome,
};
use portail::kubernetes::features::{supported_features, supported_features_line};
use portail::kubernetes::resources::ObjectMeta;
use std::sync::Arc;

fn policy(ns: &str, group: &str, name: &str, requests_per_second: u32) -> RateLimitPolicy {
    RateLimitPolicy {
        metadata: ObjectMeta {
            name: Some("p".to_string()),
            namespace: Some(ns.to_string()),
            ..Default::default()
        },
        spec: RateLimitPolicySpec {
            target_ref: PolicyTargetRef {
                group: group.to_string(),
                kind: "Gateway".to_string(),
                name: name.to_string(),
                section_name: None,
            },
            requests_per_second,
            burst: None,
        },
        status: None,
    }
}

#[test]
fn targeting_is_same_namespace_and_exact_name() {
    let p = policy("edge", "gateway.networking.k8s.io", "public", 2);
    assert!(p.targets_gateway("edge", "public"));
    assert!(!p.targets_gateway("other", "public"));
    assert!(!p.targets_gateway("edge", "private"));
}

#[test]
fn burst_defaults_to_rate() {
    let p = policy("edge", "", "public", 7);
    assert_eq!(p.effective_burst(), 7);
}

#[test]
fn explicit_burst_and_foreign_targets() {
    let mut p = policy("edge", "", "public", 7);
    assert!(p.targets_gateway("edge", "public"));
    p.spec.burst = Some(20);
    assert_eq!(p.effective_burst(), 20);
    p.spec.target_ref.kind = "Service".to_string();
    assert!(!p.targets_gateway("edge", "public"));
    let q = policy("edge", "other.group", "public", 7);
    assert!(!q.targets_gateway("edge", "public"));
}

fn table(ips: &[&str]) -> ResolvedTable {
    ResolvedTable { addresses: ips.iter().map(|ip| format!("{ip}:8001")).collect() }
}

/// Tries to put `built` in place of `current`.
fn apply_refresh(
    routes: &ArcSwap<ResolvedTable>,
    current: &Arc<ResolvedTable>,
    built: ResolvedTable,
) -> SwapOutcome {
    if !backends_changed(current, &built) {
        return swap_outcome(false, false);
    }
    let prev = routes.compare_and_swap(current, Arc::new(built));
    swap_outcome(true, Arc::ptr_eq(current, &prev))
}

#[test]
fn unchanged_set_does_not_swap() {
    let live = Arc::new(table(&["10.0.0.1"]));
    let routes = ArcSwap::new(live.clone());
    let built = table(&["10.0.0.1"]);
    assert_eq!(apply_refresh(&routes, &live, built), SwapOutcome::Unchanged);
    assert!(Arc::ptr_eq(&routes.load_full(), &live));
}

#[test]
fn changed_set_swaps() {
    let live = Arc::new(table(&["10.0.0.1"]));
    let routes = ArcSwap::new(live.clone());
    let built = table(&["10.0.0.2"]);
    assert_eq!(apply_refresh(&routes, &live, built), SwapOutcome::Swapped);
    assert_eq!(routes.load().dns_signature(), table(&["10.0.0.2"]).dns_signature());
}

#[test]
fn concurrent_reconcile_is_not_clobbered() {
    let snapshot = Arc::new(table(&["10.0.0.1"]));
    let routes = ArcSwap::new(snapshot.clone());

    // A fresher table lands while the names are being resolved.
    let reconciled = Arc::new(table(&["10.0.0.9"]));
    routes.store(reconciled.clone());

    let stale_built = table(&["10.0.0.2"]);
    assert_eq!(apply_refresh(&routes, &snapshot, stale_built), SwapOutcome::Superseded);
    assert!(
        Arc::ptr_eq(&routes.load_full(), &reconciled),
        "reconcile's table must survive the stale DNS-refresh swap"
    );
}

#[test]
fn reordered_records_are_unchanged() {
    let a = table(&["10.0.0.2", "10.0.0.1"]);
    let b = table(&["10.0.0.1", "10.0.0.2"]);
    assert!(!backends_changed(&a, &b));
    assert!(backends_changed(&a, &table(&["10.0.0.1"])));
    assert_eq!(a.dns_signature(), vec!["10.0.0.1:8001", "10.0.0.2:8001"]);
}

#[test]
fn features_are_sorted_and_unique() {
    let f = supported_features();
    assert_eq!(f.len(), 27);
    assert!(f.windows(2).all(|w| w[0] < w[1]));
    assert_eq!(f[0], "Gateway");
    assert_eq!(f[26], "UDPRoute");
    assert_eq!(supported_features_line(), f.join(","));
}
