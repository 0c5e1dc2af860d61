//! Decisions of the controller.
use portail::config::{
    GatewayConfig, HttpRouteConfig, ListenerConfig, ParentRef, PortailConfig, Protocol,
};
use portail::kubernetes::controller::reconcile::{
    all_routes_accepted, compute_programmed_condition, failed_condition, finish_pass,
    group_route_status, listener_route_counts, merge_gateway_configs, required_endpoints,
    skip_unchanged, track_gateway_config,
};
use portail::kubernetes::controller::watch::{
    gateway_uses_secret, map_route_to_gateways, WatchShape,
};
use portail::kubernetes::controller::{skip_requeue_secs, success_requeue_secs};
use portail::kubernetes::reconciler::RouteAcceptance;
use portail::kubernetes::resources::{
    Gateway, GatewayListeners, GatewayListenersTls, GatewayListenersTlsCertificateRefs,
    GatewaySpec, ObjectMeta, RouteParentRef,
};
use portail::table::Table;

fn lc(port: u16, target_port: Option<u16>) -> ListenerConfig {
    ListenerConfig {
        name: "l".to_string(),
        protocol: Protocol::HTTP,
        port,
        target_port,
        hostname: None,
        address: None,
        interface: None,
        tls: None,
    }
}

fn gw_config(gw: &str, listener: &str, port: u16, host: &str) -> PortailConfig {
    PortailConfig {
        gateway: GatewayConfig {
            name: gw.to_string(),
            listeners: vec![ListenerConfig {
                name: listener.to_string(),
                protocol: Protocol::HTTP,
                port,
                target_port: None,
                hostname: None,
                address: None,
                interface: None,
                tls: None,
            }],
            addresses: vec![],
        },
        http_routes: vec![HttpRouteConfig {
            // No section name: all listeners of this Gateway.
            parent_refs: vec![ParentRef { name: gw.to_string(), section_name: None, port: None }],
            hostnames: vec![host.to_string()],
            rules: vec![],
        }],
        ..Default::default()
    }
}

#[test]
fn controller_required_endpoints_keys_on_bound_port() {
    let listeners = vec![lc(80, Some(8000)), lc(8080, None)];
    let eps = required_endpoints(&listeners, &vec![]);
    assert!(eps.contains(&(None, 8000)));
    assert!(eps.contains(&(None, 8080)));
    assert!(!eps.contains(&(None, 80)), "published port must not be the readiness key");
}

#[test]
fn controller_required_endpoints_products_bind_addresses() {
    let listeners = vec![lc(443, Some(8001))];
    let eps =
        required_endpoints(&listeners, &vec!["10.0.0.1".to_string(), "10.0.0.2".to_string()]);
    assert_eq!(eps.len(), 2);
    assert!(eps.contains(&(Some("10.0.0.1".to_string()), 8001)));
    assert!(eps.contains(&(Some("10.0.0.2".to_string()), 8001)));
}

#[test]
fn controller_merge_gateway_configs_isolates_gateways() {
    let mut map = Table::new();
    // Both Gateways use the same listener name.
    map.insert(
        ("ns-a".to_string(), "gw-a".to_string()),
        gw_config("gw-a", "http", 8080, "a.example.com"),
    );
    map.insert(
        ("ns-b".to_string(), "gw-b".to_string()),
        gw_config("gw-b", "http", 9090, "b.example.com"),
    );

    let merged = merge_gateway_configs(&map);

    let names: Vec<&str> = merged.gateway.listeners.iter().map(|l| l.name.as_str()).collect();
    assert_eq!(names, vec!["ns-a/gw-a/http", "ns-b/gw-b/http"]);

    assert_eq!(merged.http_routes.len(), 2);
    let route_a = merged.http_routes.iter().find(|r| r.hostnames == ["a.example.com"]).unwrap();
    assert_eq!(route_a.parent_refs.len(), 1);
    assert_eq!(route_a.parent_refs[0].section_name.as_deref(), Some("ns-a/gw-a/http"));
    let route_b = merged.http_routes.iter().find(|r| r.hostnames == ["b.example.com"]).unwrap();
    assert_eq!(route_b.parent_refs[0].section_name.as_deref(), Some("ns-b/gw-b/http"));
}

#[test]
fn reconcile_required_endpoints_keys_on_bound_port() {
    let listeners = vec![lc(80, Some(8000)), lc(8080, None)];
    let eps = required_endpoints(&listeners, &vec![]);
    assert!(eps.contains(&(None, 8000)));
    assert!(eps.contains(&(None, 8080)));
    assert!(!eps.contains(&(None, 80)), "published port must not be the readiness key");
}

#[test]
fn reconcile_required_endpoints_products_bind_addresses() {
    let listeners = vec![lc(443, Some(8001))];
    let eps =
        required_endpoints(&listeners, &vec!["10.0.0.1".to_string(), "10.0.0.2".to_string()]);
    assert_eq!(eps.len(), 2);
    assert!(eps.contains(&(Some("10.0.0.1".to_string()), 8001)));
    assert!(eps.contains(&(Some("10.0.0.2".to_string()), 8001)));
}

#[test]
fn reconcile_merge_gateway_configs_isolates_gateways() {
    let mut map = Table::new();
    // Both Gateways use the same listener name.
    map.insert(
        ("ns-a".to_string(), "gw-a".to_string()),
        gw_config("gw-a", "http", 8080, "a.example.com"),
    );
    map.insert(
        ("ns-b".to_string(), "gw-b".to_string()),
        gw_config("gw-b", "http", 9090, "b.example.com"),
    );

    let merged = merge_gateway_configs(&map);

    let names: Vec<&str> = merged.gateway.listeners.iter().map(|l| l.name.as_str()).collect();
    assert_eq!(names, vec!["ns-a/gw-a/http", "ns-b/gw-b/http"]);

    assert_eq!(merged.http_routes.len(), 2);
    let route_a = merged.http_routes.iter().find(|r| r.hostnames == ["a.example.com"]).unwrap();
    assert_eq!(route_a.parent_refs.len(), 1);
    assert_eq!(route_a.parent_refs[0].section_name.as_deref(), Some("ns-a/gw-a/http"));
    let route_b = merged.http_routes.iter().find(|r| r.hostnames == ["b.example.com"]).unwrap();
    assert_eq!(route_b.parent_refs[0].section_name.as_deref(), Some("ns-b/gw-b/http"));
}

#[test]
fn controller_success_requeue_cadence() {
    // Fully converged: a slow safety net only.
    assert_eq!(success_requeue_secs(true, true), 600);
    // Something has not converged yet: look again soon.
    assert_eq!(success_requeue_secs(false, true), 5);
    assert_eq!(success_requeue_secs(true, false), 5);
    assert_eq!(success_requeue_secs(false, false), 5);
}

#[test]
fn mod_success_requeue_cadence() {
    // Fully converged: a slow safety net only.
    assert_eq!(success_requeue_secs(true, true), 600);
    // Something has not converged yet: look again soon.
    assert_eq!(success_requeue_secs(false, true), 5);
    assert_eq!(success_requeue_secs(true, false), 5);
    assert_eq!(success_requeue_secs(false, false), 5);
}

#[test]
fn controller_watch_shape_parse() {
    // Absent: every optional watch is on.
    let all = WatchShape::parse(None);
    assert!(all.tls_secrets && all.namespaces);

    // Present but empty: none is.
    let min = WatchShape::parse(Some(""));
    assert!(!min.tls_secrets && !min.namespaces);

    let tls = WatchShape::parse(Some("tls"));
    assert!(tls.tls_secrets && !tls.namespaces);

    // Unknown tokens are ignored; known ones still apply.
    let u = WatchShape::parse(Some("routes-same, udp-routes, bogus , ns-labels"));
    assert!(u.namespaces && !u.tls_secrets);
}

#[test]
fn watch_watch_shape_parse() {
    // Absent: every optional watch is on.
    let all = WatchShape::parse(None);
    assert!(all.tls_secrets && all.namespaces);

    // Present but empty: none is.
    let min = WatchShape::parse(Some(""));
    assert!(!min.tls_secrets && !min.namespaces);

    let tls = WatchShape::parse(Some("tls"));
    assert!(tls.tls_secrets && !tls.namespaces);

    // Unknown tokens are ignored; known ones still apply.
    let u = WatchShape::parse(Some("routes-same, udp-routes, bogus , ns-labels"));
    assert!(u.namespaces && !u.tls_secrets);
}


fn verdict(name: &str, section: Option<&str>, accepted: bool, listeners: &[&str]) -> RouteAcceptance {
    RouteAcceptance {
        name: name.to_string(),
        namespace: "shop".to_string(),
        kind: "HTTPRoute",
        accepted,
        accepted_reason: if accepted { "Accepted" } else { "NotAllowedByListeners" },
        message: "m".to_string(),
        refs_resolved: true,
        refs_reason: "ResolvedRefs",
        refs_message: "All references resolved".to_string(),
        generation: Some(3),
        section_name: section.map(|s| s.to_string()),
        port: Some(8080),
        listener_names: listeners.iter().map(|l| l.to_string()).collect(),
    }
}

fn listener(name: &str) -> GatewayListeners {
    GatewayListeners { name: name.to_string(), ..Default::default() }
}

#[test]
fn counts_attachments_per_listener() {
    let listeners = vec![listener("http"), listener("https"), listener("idle")];
    let status = vec![
        verdict("a", None, true, &["http", "https"]),
        verdict("b", Some("http"), true, &["http"]),
        // A rejected reference counts nowhere.
        verdict("c", Some("https"), false, &["https"]),
    ];
    let counts = listener_route_counts(&listeners, &status);
    assert_eq!(counts.get(&"http".to_string()), Some(&2));
    assert_eq!(counts.get(&"https".to_string()), Some(&1));
    assert_eq!(counts.get(&"idle".to_string()), Some(&0));
    assert_eq!(counts.get(&"other".to_string()), None);
}

#[test]
fn groups_the_entries_of_a_route() {
    let status = vec![
        verdict("a", Some("http"), true, &["http"]),
        verdict("b", None, true, &["http"]),
        verdict("a", Some("https"), false, &[]),
    ];
    let grouped = group_route_status(&status, "ctl", "gw", "infra", true);
    let key = ("HTTPRoute".to_string(), "shop".to_string(), "a".to_string());
    let a = grouped.get(&key).unwrap();
    assert_eq!(a.len(), 2);
    assert_eq!(a[0].section_name.as_deref(), Some("http"));
    assert_eq!(a[0].gateway_name, "gw");
    assert_eq!(a[0].gateway_namespace, "infra");
    assert_eq!(a[0].controller_name, "ctl");
    // The status names the reference exactly, its port included.
    assert_eq!(a[0].port, Some(8080));
    assert!(a[0].programmed);
    assert_eq!(a[1].section_name.as_deref(), Some("https"));
    assert_eq!(a[1].accepted_reason, "NotAllowedByListeners");
    // Only an accepted reference is programmed.
    assert!(!a[1].programmed);
    assert_eq!(grouped.entries.len(), 2);

    let unprogrammed = group_route_status(&status, "ctl", "gw", "infra", false);
    assert!(!unprogrammed.get(&key).unwrap()[0].programmed);
}

#[test]
fn route_status_is_written_in_order() {
    let route = |kind: &'static str, ns: &str, name: &str| RouteAcceptance {
        kind,
        namespace: ns.to_string(),
        ..verdict(name, None, true, &["http"])
    };
    let status = vec![
        route("UDPRoute", "a", "a"),
        route("HTTPRoute", "shop", "b"),
        route("TCPRoute", "a", "z"),
        route("HTTPRoute", "shop", "a"),
        route("HTTPRoute", "Shop", "c"),
        route("HTTPRoute", "shop", "b"),
        route("HTTPRoute", "sh", "z"),
    ];
    let grouped = group_route_status(&status, "ctl", "gw", "infra", true);
    let written: Vec<(&str, &str, &str, usize)> = grouped
        .entries
        .iter()
        .map(|((k, ns, n), parents)| (k.as_str(), ns.as_str(), n.as_str(), parents.len()))
        .collect();
    assert_eq!(
        written,
        [
            ("HTTPRoute", "Shop", "c", 1),
            ("HTTPRoute", "sh", "z", 1),
            ("HTTPRoute", "shop", "a", 1),
            ("HTTPRoute", "shop", "b", 2),
            ("TCPRoute", "a", "z", 1),
            ("UDPRoute", "a", "a", 1),
        ]
    );
}

#[test]
fn tracks_gateways_and_forgets_the_dead() {
    let a = ("ns".to_string(), "a".to_string());
    let b = ("ns".to_string(), "b".to_string());
    let mut configs = Table::new();
    let one = gw_config("a", "http", 80, "a.example.com");
    let two = gw_config("b", "http", 81, "b.example.com");

    // A single Gateway runs its own configuration, names as they are.
    let live = vec![a.clone(), b.clone()];
    let effective = track_gateway_config(&mut configs, a.clone(), &one, &live);
    assert_eq!(effective, one);

    // Two of them are merged.
    let effective = track_gateway_config(&mut configs, b.clone(), &two, &live);
    assert_eq!(effective.gateway.name, "portail-merged");
    assert_eq!(effective.gateway.listeners.len(), 2);
    assert_eq!(effective.http_routes.len(), 2);

    // Once the first is gone, the second runs alone again.
    let effective = track_gateway_config(&mut configs, b.clone(), &two, &vec![b.clone()]);
    assert_eq!(effective, two);
    assert_eq!(configs.entries.len(), 1);
    assert!(configs.contains_key(&b));
}

#[test]
fn merging_does_not_depend_on_order() {
    let a = ("ns-a".to_string(), "gw".to_string());
    let b = ("ns-b".to_string(), "gw".to_string());
    let mut one = gw_config("gw", "http", 80, "a.example.com");
    one.gateway.addresses = vec!["10.0.0.1".to_string()];
    let mut two = gw_config("gw", "http", 81, "b.example.com");
    two.gateway.addresses = vec!["10.0.0.1".to_string(), "10.0.0.2".to_string()];
    let mut forward = Table::new();
    forward.insert(a.clone(), one.clone());
    forward.insert(b.clone(), two.clone());
    let mut backward = Table::new();
    backward.insert(b, two);
    backward.insert(a, one);
    let merged = merge_gateway_configs(&forward);
    assert_eq!(merged, merge_gateway_configs(&backward));
    // Neighbouring duplicates among the addresses are dropped.
    assert_eq!(merged.gateway.addresses, ["10.0.0.1", "10.0.0.2"]);
}

#[test]
fn merging_spells_references_out() {
    let mut c = gw_config("gw", "http", 80, "a.example.com");
    c.gateway.listeners.push(ListenerConfig { name: "alt".to_string(), ..lc(81, None) });
    c.http_routes[0].parent_refs = vec![
        ParentRef { name: "gw".to_string(), section_name: Some("alt".to_string()), port: None },
        ParentRef { name: "gw".to_string(), section_name: None, port: Some(80) },
        ParentRef { name: "gw".to_string(), section_name: None, port: None },
    ];
    let mut map = Table::new();
    map.insert(("n".to_string(), "g".to_string()), c);
    let merged = merge_gateway_configs(&map);
    let sections: Vec<&str> = merged.http_routes[0]
        .parent_refs
        .iter()
        .map(|r| r.section_name.as_deref().unwrap())
        .collect();
    assert_eq!(sections, ["n/g/alt", "n/g/http", "n/g/http", "n/g/alt"]);
}

#[test]
fn unchanged_passes_are_skipped() {
    assert_eq!(skip_unchanged(None, 7, true, true), None);
    assert_eq!(skip_unchanged(Some(8), 7, true, true), None);
    assert_eq!(skip_unchanged(Some(7), 7, true, true).unwrap().requeue_secs, 600);
    assert_eq!(skip_unchanged(Some(7), 7, false, true).unwrap().requeue_secs, 60);
    assert_eq!(skip_unchanged(Some(7), 7, true, false).unwrap().last_applied, Some(7));
    assert_eq!(skip_requeue_secs(true, true), 600);
    assert_eq!(skip_requeue_secs(true, false), 60);
}

#[test]
fn failed_status_writes_are_retried() {
    let failed = finish_pass(false, true, 7, true, true);
    assert_eq!((failed.last_applied, failed.requeue_secs), (None, 10));
    let done = finish_pass(true, true, 7, true, true);
    assert_eq!((done.last_applied, done.requeue_secs), (Some(7), 600));
    let pending = finish_pass(true, true, 7, false, true);
    assert_eq!((pending.last_applied, pending.requeue_secs), (Some(7), 5));
    let unbuilt = finish_pass(true, false, 7, false, true);
    assert_eq!((unbuilt.last_applied, unbuilt.requeue_secs), (None, 5));
    assert_eq!(skip_unchanged(unbuilt.last_applied, 7, true, true), None);
    assert_eq!(finish_pass(false, false, 7, false, true).last_applied, None);
    assert!(all_routes_accepted(&vec![]));
    assert!(!all_routes_accepted(&vec![
        verdict("a", None, true, &[]),
        verdict("b", None, false, &[]),
    ]));
}

#[test]
fn programmed_conditions() {
    let ready = compute_programmed_condition(true);
    assert_eq!((ready.ok, ready.reason.as_str()), (true, "Programmed"));
    let waiting = compute_programmed_condition(false);
    assert_eq!((waiting.ok, waiting.reason.as_str()), (false, "Invalid"));
    assert_eq!(waiting.message, "Data plane not ready: not all listener ports are bound");
    let failed = failed_condition("Reconciliation failed", "no listeners");
    assert_eq!((failed.ok, failed.reason.as_str()), (false, "Invalid"));
    assert_eq!(failed.message, "Reconciliation failed: no listeners");
}

#[test]
fn routes_map_to_the_gateways_they_name() {
    let parent = |name: &str, ns: Option<&str>, kind: Option<&str>| RouteParentRef {
        name: name.to_string(),
        namespace: ns.map(|s| s.to_string()),
        kind: kind.map(|s| s.to_string()),
        ..Default::default()
    };
    let known = vec![
        ("gw".to_string(), "shop".to_string()),
        ("gw".to_string(), "infra".to_string()),
    ];
    let refs = Some(vec![
        parent("gw", Some("infra"), Some("Gateway")),
        parent("gw", None, None),
        parent("gw", None, Some("Service")),
        parent("other", None, None),
        RouteParentRef { group: Some("example.com".to_string()), ..parent("gw", None, None) },
    ]);
    assert_eq!(
        map_route_to_gateways("shop", &refs, &known),
        vec![
            ("gw".to_string(), "infra".to_string()),
            ("gw".to_string(), "shop".to_string()),
        ]
    );
    assert!(map_route_to_gateways("shop", &None, &known).is_empty());
}

#[test]
fn secrets_map_to_the_gateways_that_use_them() {
    let cert = |name: &str, ns: Option<&str>| GatewayListenersTlsCertificateRefs {
        name: name.to_string(),
        namespace: ns.map(|s| s.to_string()),
        ..Default::default()
    };
    let gateway = Gateway {
        metadata: ObjectMeta { namespace: Some("infra".to_string()), ..Default::default() },
        spec: GatewaySpec {
            listeners: vec![
                listener("http"),
                GatewayListeners {
                    tls: Some(GatewayListenersTls {
                        mode: None,
                        certificate_refs: Some(vec![cert("a", None), cert("b", Some("certs"))]),
                    }),
                    ..listener("https")
                },
            ],
            ..Default::default()
        },
    };
    assert!(gateway_uses_secret(&gateway, "a", "infra"));
    assert!(!gateway_uses_secret(&gateway, "a", "certs"));
    assert!(gateway_uses_secret(&gateway, "b", "certs"));
    assert!(!gateway_uses_secret(&gateway, "c", "infra"));
}

#[test]
fn watch_shapes_add_up() {
    let both = WatchShape::parse(Some(" ns-labels ,tls"));
    assert_eq!(both, WatchShape::all());
    assert_eq!(WatchShape::parse(Some("tls,ns-labels")), both);
    let none = WatchShape::parse(Some("tls x,,TLS"));
    assert!(!none.tls_secrets && !none.namespaces);
}
