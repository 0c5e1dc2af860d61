//! Turning cluster objects into a configuration where the Services that routes
//! name are known.
use portail::config::{HttpPathMatchType, HttpRouteFilter, Protocol};
use portail::kubernetes::reconciler::{reconcile_to_config, ClusterSnapshot};
use portail::kubernetes::resources::{
    Gateway, GatewayListeners, GatewayListenersTls, GatewayListenersTlsCertificateRefs,
    GatewayListenersTlsMode, GatewaySpec, HTTPRoute, HTTPRouteRules, HTTPRouteRulesBackendRefs,
    HTTPRouteRulesFilters, HTTPRouteRulesFiltersRequestMirror,
    HTTPRouteRulesFiltersRequestMirrorBackendRef, HTTPRouteRulesFiltersType,
    HTTPRouteRulesMatches, HTTPRouteRulesMatchesPath, HTTPRouteRulesMatchesPathType,
    HTTPRouteSpec, L4BackendRef, L4RouteRule, ObjectMeta, ReferenceGrant, ReferenceGrantFrom,
    ReferenceGrantSpec, ReferenceGrantTo, RouteParentRef, TCPRoute, TCPRouteSpec, TLSRoute,
    TLSRouteSpec, UDPRoute, UDPRouteSpec,
};
use portail::kubernetes::services::ServiceState;
use portail::table::Table;

type NamespaceLabels = Table<String, Table<String, String>>;

fn default_ns_labels() -> NamespaceLabels {
    let mut m = Table::new();
    m.insert("default".to_string(), Table::new());
    m
}

/// The Services that the routes below name.
fn known_services() -> ServiceState {
    let known = [
        ("api-svc", "default"),
        ("postgres-primary", "default"),
        ("postgres-replica", "db"),
        ("backend-tls", "default"),
        ("coredns", "default"),
        ("stable", "default"),
        ("canary", "default"),
        ("svc", "default"),
        ("v1-svc", "default"),
        ("v2-svc", "default"),
        ("prod-svc", "default"),
        ("shadow-svc", "staging"),
        ("web-svc", "default"),
        ("db-svc", "default"),
    ];
    ServiceState {
        known_services: known.iter().map(|(s, n)| (s.to_string(), n.to_string())).collect(),
        ..Default::default()
    }
}

/// A grant for routes of a kind in `default` to name Services in `ns`.
fn grant_for(kind: &str, ns: &str) -> ReferenceGrant {
    ReferenceGrant {
        metadata: ObjectMeta {
            name: Some("allow".to_string()),
            namespace: Some(ns.to_string()),
            ..Default::default()
        },
        spec: ReferenceGrantSpec {
            from: vec![ReferenceGrantFrom {
                group: "gateway.networking.k8s.io".to_string(),
                kind: kind.to_string(),
                namespace: "default".to_string(),
            }],
            to: vec![ReferenceGrantTo {
                group: "".to_string(),
                kind: "Service".to_string(),
                name: None,
            }],
        },
    }
}

fn plain_filter() -> HTTPRouteRulesFilters {
    HTTPRouteRulesFilters {
        type_: HTTPRouteRulesFiltersType::ExtensionRef,
        request_header_modifier: None,
        response_header_modifier: None,
        request_mirror: None,
        request_redirect: None,
        url_rewrite: None,
    }
}

/// A snapshot with the given routes and reference grants.
fn test_snapshot(
    http_routes: Vec<HTTPRoute>,
    tcp_routes: Vec<TCPRoute>,
    tls_routes: Vec<TLSRoute>,
    udp_routes: Vec<UDPRoute>,
    ns_labels: &NamespaceLabels,
    reference_grants: Vec<ReferenceGrant>,
) -> ClusterSnapshot {
    ClusterSnapshot {
        http_routes,
        tcp_routes,
        tls_routes,
        udp_routes,
        namespace_labels: ns_labels.clone(),
        reference_grants,
        services: vec![],
    }
}

fn test_gateway() -> Gateway {
    Gateway {
        metadata: ObjectMeta {
            name: Some("test-gw".to_string()),
            namespace: Some("default".to_string()),
            ..Default::default()
        },
        spec: GatewaySpec {
            gateway_class_name: "portail".to_string(),
            listeners: vec![GatewayListeners {
                name: "http".to_string(),
                port: 8080,
                protocol: "HTTP".to_string(),
                hostname: Some("*.example.com".to_string()),
                tls: None,
                allowed_routes: None,
            }],
            ..Default::default()
        },
    }
}

fn test_http_route() -> HTTPRoute {
    HTTPRoute {
        metadata: ObjectMeta {
            name: Some("test-route".to_string()),
            namespace: Some("default".to_string()),
            ..Default::default()
        },
        spec: HTTPRouteSpec {
            parent_refs: Some(vec![RouteParentRef {
                name: "test-gw".to_string(),
                section_name: Some("http".to_string()),
                ..Default::default()
            }]),
            hostnames: Some(vec!["api.example.com".to_string()]),
            rules: Some(vec![HTTPRouteRules {
                matches: Some(vec![HTTPRouteRulesMatches {
                    path: Some(HTTPRouteRulesMatchesPath {
                        type_: Some(HTTPRouteRulesMatchesPathType::PathPrefix),
                        value: Some("/v1".to_string()),
                    }),
                    ..Default::default()
                }]),
                backend_refs: Some(vec![HTTPRouteRulesBackendRefs {
                    name: "api-svc".to_string(),
                    port: Some(3000),
                    weight: Some(1),
                    ..Default::default()
                }]),
                ..Default::default()
            }]),
        },
    }
}

fn multi_listener_gateway() -> Gateway {
    Gateway {
        metadata: ObjectMeta {
            name: Some("multi-gw".to_string()),
            namespace: Some("default".to_string()),
            ..Default::default()
        },
        spec: GatewaySpec {
            gateway_class_name: "portail".to_string(),
            listeners: vec![
                GatewayListeners {
                    name: "http".to_string(),
                    port: 8080,
                    protocol: "HTTP".to_string(),
                    hostname: None,
                    tls: None,
                    allowed_routes: None,
                },
                GatewayListeners {
                    name: "https".to_string(),
                    port: 8443,
                    protocol: "HTTPS".to_string(),
                    hostname: None,
                    tls: Some(GatewayListenersTls {
                        certificate_refs: Some(vec![GatewayListenersTlsCertificateRefs {
                            name: "my-cert".to_string(),
                            ..Default::default()
                        }]),
                        mode: Some(GatewayListenersTlsMode::Terminate),
                        ..Default::default()
                    }),
                    allowed_routes: None,
                },
                GatewayListeners {
                    name: "tcp".to_string(),
                    port: 5432,
                    protocol: "TCP".to_string(),
                    hostname: None,
                    tls: None,
                    allowed_routes: None,
                },
                GatewayListeners {
                    name: "tls-passthrough".to_string(),
                    port: 6443,
                    protocol: "TLS".to_string(),
                    hostname: None,
                    tls: Some(GatewayListenersTls {
                        mode: Some(GatewayListenersTlsMode::Passthrough),
                        ..Default::default()
                    }),
                    allowed_routes: None,
                },
                GatewayListeners {
                    name: "udp".to_string(),
                    port: 5353,
                    protocol: "UDP".to_string(),
                    hostname: None,
                    tls: None,
                    allowed_routes: None,
                },
            ],
            ..Default::default()
        },
    }
}

#[test]
fn reconciler_test_reconcile_basic() {
    let gw = test_gateway();
    let route = test_http_route();
    let ns_labels = default_ns_labels();

    let result = reconcile_to_config(
        &gw,
        &test_snapshot(vec![route], vec![], vec![], vec![], &ns_labels, vec![]),
        &Table::new(),
        &known_services(),
    )
    .unwrap();

    assert_eq!(result.config.gateway.name, "test-gw");
    assert_eq!(result.config.gateway.listeners.len(), 1);
    assert_eq!(result.config.gateway.listeners[0].port, 8080);
    assert_eq!(result.config.http_routes.len(), 1);
    assert_eq!(
        result.config.http_routes[0].hostnames,
        vec!["api.example.com"]
    );
    assert_eq!(
        result.config.http_routes[0].rules[0].backend_refs[0].name,
        "api-svc.default.svc"
    );
    assert_eq!(
        result.config.http_routes[0].rules[0].backend_refs[0].port,
        3000
    );
    assert!(result.route_status.iter().all(|r| r.accepted));
}

#[test]
fn reconciler_test_reconcile_produces_valid_config() {
    let gw = test_gateway();
    let route = test_http_route();
    let ns_labels = default_ns_labels();

    let result = reconcile_to_config(
        &gw,
        &test_snapshot(vec![route], vec![], vec![], vec![], &ns_labels, vec![]),
        &Table::new(),
        &known_services(),
    )
    .unwrap();

    assert_eq!(result.config.gateway.listeners[0].protocol, Protocol::HTTP);
    assert_eq!(result.config.http_routes[0].rules.len(), 1);
    let rule = &result.config.http_routes[0].rules[0];
    assert_eq!(rule.matches.len(), 1);
    assert_eq!(
        rule.matches[0].path.as_ref().unwrap().match_type,
        HttpPathMatchType::PathPrefix
    );
    assert_eq!(rule.matches[0].path.as_ref().unwrap().value, "/v1");
    assert_eq!(rule.backend_refs[0].name, "api-svc.default.svc");
}

#[test]
fn reconciler_test_tcp_route_conversion() {
    let gw = multi_listener_gateway();
    let ns_labels = default_ns_labels();
    let tcp_route = TCPRoute {
        metadata: ObjectMeta {
            name: Some("db-route".to_string()),
            namespace: Some("default".to_string()),
            ..Default::default()
        },
        spec: TCPRouteSpec {
            parent_refs: Some(vec![RouteParentRef {
                name: "multi-gw".to_string(),
                section_name: Some("tcp".to_string()),
                ..Default::default()
            }]),
            rules: vec![L4RouteRule {
                backend_refs: vec![
                    L4BackendRef {
                        name: "postgres-primary".to_string(),
                        port: Some(5432),
                        weight: Some(3),
                        ..Default::default()
                    },
                    L4BackendRef {
                        name: "postgres-replica".to_string(),
                        port: Some(5432),
                        weight: Some(1),
                        namespace: Some("db".to_string()),
                        ..Default::default()
                    },
                ],
                ..Default::default()
            }],
            ..Default::default()
        },
    };

    let result = reconcile_to_config(
        &gw,
        &test_snapshot(
            vec![],
            vec![tcp_route],
            vec![],
            vec![],
            &ns_labels,
            vec![grant_for("TCPRoute", "db")],
        ),
        &Table::new(),
        &known_services(),
    )
    .unwrap();

    assert_eq!(result.config.tcp_routes.len(), 1);
    let rule = &result.config.tcp_routes[0].rules[0];
    assert_eq!(rule.backend_refs.len(), 2);
    assert_eq!(rule.backend_refs[0].name, "postgres-primary.default.svc");
    assert_eq!(rule.backend_refs[0].port, 5432);
    assert_eq!(rule.backend_refs[0].weight, 3);
    assert_eq!(rule.backend_refs[1].name, "postgres-replica.db.svc");
}

#[test]
fn reconciler_test_tls_route_conversion() {
    let gw = multi_listener_gateway();
    let ns_labels = default_ns_labels();
    let tls_route = TLSRoute {
        metadata: ObjectMeta {
            name: Some("tls-route".to_string()),
            namespace: Some("default".to_string()),
            ..Default::default()
        },
        spec: TLSRouteSpec {
            parent_refs: Some(vec![RouteParentRef {
                name: "multi-gw".to_string(),
                section_name: Some("tls-passthrough".to_string()),
                ..Default::default()
            }]),
            hostnames: vec![
                "secure.example.com".to_string(),
                "*.internal.example.com".to_string(),
            ],
            rules: vec![L4RouteRule {
                backend_refs: vec![L4BackendRef {
                    name: "backend-tls".to_string(),
                    port: Some(8443),
                    ..Default::default()
                }],
                ..Default::default()
            }],
            ..Default::default()
        },
    };

    let result = reconcile_to_config(
        &gw,
        &test_snapshot(vec![], vec![], vec![tls_route], vec![], &ns_labels, vec![]),
        &Table::new(),
        &known_services(),
    )
    .unwrap();

    assert_eq!(result.config.tls_routes.len(), 1);
    assert_eq!(
        result.config.tls_routes[0].hostnames,
        vec!["secure.example.com", "*.internal.example.com"]
    );
    assert_eq!(
        result.config.tls_routes[0].rules[0].backend_refs[0].name,
        "backend-tls.default.svc"
    );
    assert_eq!(
        result.config.tls_routes[0].rules[0].backend_refs[0].port,
        8443
    );
}

#[test]
fn reconciler_test_udp_route_conversion() {
    let gw = multi_listener_gateway();
    let ns_labels = default_ns_labels();
    let udp_route = UDPRoute {
        metadata: ObjectMeta {
            name: Some("dns-route".to_string()),
            namespace: Some("default".to_string()),
            ..Default::default()
        },
        spec: UDPRouteSpec {
            parent_refs: Some(vec![RouteParentRef {
                name: "multi-gw".to_string(),
                section_name: Some("udp".to_string()),
                ..Default::default()
            }]),
            rules: vec![L4RouteRule {
                backend_refs: vec![L4BackendRef {
                    name: "coredns".to_string(),
                    port: Some(53),
                    ..Default::default()
                }],
                ..Default::default()
            }],
            ..Default::default()
        },
    };

    let result = reconcile_to_config(
        &gw,
        &test_snapshot(vec![], vec![], vec![], vec![udp_route], &ns_labels, vec![]),
        &Table::new(),
        &known_services(),
    )
    .unwrap();

    assert_eq!(result.config.udp_routes.len(), 1);
    assert_eq!(
        result.config.udp_routes[0].rules[0].backend_refs[0].name,
        "coredns.default.svc"
    );
    assert_eq!(
        result.config.udp_routes[0].rules[0].backend_refs[0].port,
        53
    );
}

#[test]
fn reconciler_test_weighted_backends() {
    let gw = test_gateway();
    let ns_labels = default_ns_labels();
    let route = HTTPRoute {
        metadata: ObjectMeta {
            name: Some("weighted-route".to_string()),
            namespace: Some("default".to_string()),
            ..Default::default()
        },
        spec: HTTPRouteSpec {
            parent_refs: Some(vec![RouteParentRef {
                name: "test-gw".to_string(),
                ..Default::default()
            }]),
            hostnames: Some(vec!["api.example.com".to_string()]),
            rules: Some(vec![HTTPRouteRules {
                backend_refs: Some(vec![
                    HTTPRouteRulesBackendRefs {
                        name: "stable".to_string(),
                        port: Some(80),
                        weight: Some(90),
                        ..Default::default()
                    },
                    HTTPRouteRulesBackendRefs {
                        name: "canary".to_string(),
                        port: Some(80),
                        weight: Some(10),
                        ..Default::default()
                    },
                ]),
                ..Default::default()
            }]),
        },
    };

    let result = reconcile_to_config(
        &gw,
        &test_snapshot(vec![route], vec![], vec![], vec![], &ns_labels, vec![]),
        &Table::new(),
        &known_services(),
    )
    .unwrap();
    let backends = &result.config.http_routes[0].rules[0].backend_refs;
    assert_eq!(backends.len(), 2);
    assert_eq!(backends[0].name, "stable.default.svc");
    assert_eq!(backends[0].weight, 90);
    assert_eq!(backends[1].name, "canary.default.svc");
    assert_eq!(backends[1].weight, 10);
}

#[test]
fn reconciler_test_default_weight_and_port() {
    let gw = test_gateway();
    let ns_labels = default_ns_labels();
    let route = HTTPRoute {
        metadata: ObjectMeta {
            name: Some("defaults-route".to_string()),
            namespace: Some("default".to_string()),
            ..Default::default()
        },
        spec: HTTPRouteSpec {
            parent_refs: Some(vec![RouteParentRef {
                name: "test-gw".to_string(),
                ..Default::default()
            }]),
            hostnames: Some(vec!["api.example.com".to_string()]),
            rules: Some(vec![HTTPRouteRules {
                backend_refs: Some(vec![HTTPRouteRulesBackendRefs {
                    name: "svc".to_string(),
                    ..Default::default()
                }]),
                ..Default::default()
            }]),
        },
    };

    let result = reconcile_to_config(
        &gw,
        &test_snapshot(vec![route], vec![], vec![], vec![], &ns_labels, vec![]),
        &Table::new(),
        &known_services(),
    )
    .unwrap();
    let br = &result.config.http_routes[0].rules[0].backend_refs[0];
    assert_eq!(br.port, 80);
    assert_eq!(br.weight, 1);
}

#[test]
fn reconciler_test_multiple_rules_per_route() {
    let gw = test_gateway();
    let ns_labels = default_ns_labels();
    let route = HTTPRoute {
        metadata: ObjectMeta {
            name: Some("multi-rule".to_string()),
            namespace: Some("default".to_string()),
            ..Default::default()
        },
        spec: HTTPRouteSpec {
            parent_refs: Some(vec![RouteParentRef {
                name: "test-gw".to_string(),
                ..Default::default()
            }]),
            hostnames: Some(vec!["api.example.com".to_string()]),
            rules: Some(vec![
                HTTPRouteRules {
                    matches: Some(vec![HTTPRouteRulesMatches {
                        path: Some(HTTPRouteRulesMatchesPath {
                            type_: Some(HTTPRouteRulesMatchesPathType::PathPrefix),
                            value: Some("/v1".to_string()),
                        }),
                        ..Default::default()
                    }]),
                    backend_refs: Some(vec![HTTPRouteRulesBackendRefs {
                        name: "v1-svc".to_string(),
                        port: Some(80),
                        ..Default::default()
                    }]),
                    ..Default::default()
                },
                HTTPRouteRules {
                    matches: Some(vec![HTTPRouteRulesMatches {
                        path: Some(HTTPRouteRulesMatchesPath {
                            type_: Some(HTTPRouteRulesMatchesPathType::PathPrefix),
                            value: Some("/v2".to_string()),
                        }),
                        ..Default::default()
                    }]),
                    backend_refs: Some(vec![HTTPRouteRulesBackendRefs {
                        name: "v2-svc".to_string(),
                        port: Some(80),
                        ..Default::default()
                    }]),
                    ..Default::default()
                },
            ]),
        },
    };

    let result = reconcile_to_config(
        &gw,
        &test_snapshot(vec![route], vec![], vec![], vec![], &ns_labels, vec![]),
        &Table::new(),
        &known_services(),
    )
    .unwrap();
    assert_eq!(result.config.http_routes[0].rules.len(), 2);
    assert_eq!(
        result.config.http_routes[0].rules[0].backend_refs[0].name,
        "v1-svc.default.svc"
    );
    assert_eq!(
        result.config.http_routes[0].rules[1].backend_refs[0].name,
        "v2-svc.default.svc"
    );
}

#[test]
fn reconciler_test_request_mirror_filter() {
    let gw = test_gateway();
    let ns_labels = default_ns_labels();
    let route = HTTPRoute {
        metadata: ObjectMeta {
            name: Some("mirror-route".to_string()),
            namespace: Some("default".to_string()),
            ..Default::default()
        },
        spec: HTTPRouteSpec {
            parent_refs: Some(vec![RouteParentRef {
                name: "test-gw".to_string(),
                ..Default::default()
            }]),
            hostnames: Some(vec!["api.example.com".to_string()]),
            rules: Some(vec![HTTPRouteRules {
                filters: Some(vec![HTTPRouteRulesFilters {
                    type_: HTTPRouteRulesFiltersType::RequestMirror,
                    request_mirror: Some(HTTPRouteRulesFiltersRequestMirror {
                        backend_ref: HTTPRouteRulesFiltersRequestMirrorBackendRef {
                            name: "shadow-svc".to_string(),
                            port: Some(9090),
                            namespace: Some("staging".to_string()),
                            ..Default::default()
                        },
                        ..Default::default()
                    }),
                    ..plain_filter()
                }]),
                backend_refs: Some(vec![HTTPRouteRulesBackendRefs {
                    name: "prod-svc".to_string(),
                    port: Some(80),
                    ..Default::default()
                }]),
                ..Default::default()
            }]),
        },
    };

    let result = reconcile_to_config(
        &gw,
        &test_snapshot(vec![route], vec![], vec![], vec![], &ns_labels, vec![grant_for("HTTPRoute", "staging")]),
        &Table::new(),
        &known_services(),
    )
    .unwrap();
    match &result.config.http_routes[0].rules[0].filters[0] {
        HttpRouteFilter::RequestMirror { config } => {
            assert_eq!(config.backend_ref.name, "shadow-svc.staging.svc");
            assert_eq!(config.backend_ref.port, 9090);
        }
        _ => panic!("expected RequestMirror"),
    }
}

#[test]
fn reconciler_test_mixed_route_types() {
    let gw = multi_listener_gateway();
    let ns_labels = default_ns_labels();

    let http_route = HTTPRoute {
        metadata: ObjectMeta {
            name: Some("http-route".to_string()),
            namespace: Some("default".to_string()),
            ..Default::default()
        },
        spec: HTTPRouteSpec {
            parent_refs: Some(vec![RouteParentRef {
                name: "multi-gw".to_string(),
                section_name: Some("http".to_string()),
                ..Default::default()
            }]),
            hostnames: Some(vec!["web.example.com".to_string()]),
            rules: Some(vec![HTTPRouteRules {
                backend_refs: Some(vec![HTTPRouteRulesBackendRefs {
                    name: "web-svc".to_string(),
                    port: Some(80),
                    ..Default::default()
                }]),
                ..Default::default()
            }]),
        },
    };

    let tcp_route = TCPRoute {
        metadata: ObjectMeta {
            name: Some("tcp-route".to_string()),
            namespace: Some("default".to_string()),
            ..Default::default()
        },
        spec: TCPRouteSpec {
            parent_refs: Some(vec![RouteParentRef {
                name: "multi-gw".to_string(),
                section_name: Some("tcp".to_string()),
                ..Default::default()
            }]),
            rules: vec![L4RouteRule {
                backend_refs: vec![L4BackendRef {
                    name: "db-svc".to_string(),
                    port: Some(5432),
                    ..Default::default()
                }],
                ..Default::default()
            }],
            ..Default::default()
        },
    };

    let result = reconcile_to_config(
        &gw,
        &test_snapshot(
            vec![http_route],
            vec![tcp_route],
            vec![],
            vec![],
            &ns_labels,
            vec![],
        ),
        &Table::new(),
        &known_services(),
    )
    .unwrap();

    assert_eq!(result.config.http_routes.len(), 1);
    assert_eq!(result.config.tcp_routes.len(), 1);
    assert_eq!(
        result.config.http_routes[0].rules[0].backend_refs[0].name,
        "web-svc.default.svc"
    );
    assert_eq!(
        result.config.tcp_routes[0].rules[0].backend_refs[0].name,
        "db-svc.default.svc"
    );
    assert_eq!(result.route_status.len(), 2);
    assert!(result.route_status.iter().all(|r| r.accepted));
}
