//! Turning cluster objects into a data plane configuration.
use portail::config::{
    HttpPathMatchType, HttpRouteFilter, HttpURLRewritePath, Protocol, StringMatchType, TlsMode,
};
use portail::kubernetes::converters::backend_dns_name;
use portail::kubernetes::reconciler::{
    reconcile_to_config, resolve_listener_target_ports, ClusterSnapshot,
};
use portail::kubernetes::resources::{
    Gateway, GatewayListeners, GatewayListenersAllowedRoutes,
    GatewayListenersAllowedRoutesNamespaces, GatewayListenersAllowedRoutesNamespacesFrom,
    GatewayListenersTls, GatewayListenersTlsCertificateRefs, GatewayListenersTlsMode, GatewaySpec,
    HTTPHeader, HTTPHeaderModifier, HTTPRoute, HTTPRouteRules, HTTPRouteRulesBackendRefs,
    HTTPRouteRulesFilters, HTTPRouteRulesFiltersPath, HTTPRouteRulesFiltersPathType,
    HTTPRouteRulesFiltersRequestMirror, HTTPRouteRulesFiltersRequestMirrorBackendRef,
    HTTPRouteRulesFiltersRequestRedirect, HTTPRouteRulesFiltersRequestRedirectScheme,
    HTTPRouteRulesFiltersType, HTTPRouteRulesFiltersUrlRewrite, HTTPRouteRulesMatches,
    HTTPRouteRulesMatchesHeaders, HTTPRouteRulesMatchesPath, HTTPRouteRulesMatchesPathType,
    HTTPRouteRulesMatchesQueryParams, HTTPRouteRulesMatchesValueType, HTTPRouteRulesTimeouts,
    HTTPRouteSpec, IntOrString, L4BackendRef, L4RouteRule, LabelSelector, ObjectMeta,
    ReferenceGrant, ReferenceGrantFrom, ReferenceGrantSpec, ReferenceGrantTo, RouteParentRef,
    Service, ServicePort, ServiceSpec, TCPRoute, TCPRouteSpec, TLSRoute, TLSRouteSpec, UDPRoute,
    UDPRouteSpec,
};
use portail::kubernetes::services::ServiceState;
use portail::table::Table;

type NamespaceLabels = Table<String, Table<String, String>>;

fn labels(pairs: &[(&str, &str)]) -> Table<String, String> {
    let mut t = Table::new();
    for (k, v) in pairs {
        t.insert(k.to_string(), v.to_string());
    }
    t
}

fn plain_filter() -> HTTPRouteRulesFilters {
    HTTPRouteRulesFilters {
        type_: HTTPRouteRulesFiltersType::ExtensionRef,
        request_header_modifier: None,
        response_header_modifier: None,
        request_mirror: None,
        request_redirect: None,
        url_rewrite: None,
    }
}

fn default_ns_labels() -> NamespaceLabels {
    let mut m = Table::new();
    m.insert("default".to_string(), labels(&[]));
    m.insert("db".to_string(), labels(&[]));
    m.insert("other-ns".to_string(), labels(&[]));
    m
}

fn test_known_services() -> Vec<(String, String)> {
    [
        ("api-svc", "default"),
        ("web-svc", "default"),
        ("db-svc", "default"),
        ("my-svc", "default"),
        ("canary", "default"),
        ("stable", "default"),
        ("coredns", "default"),
        ("backend-tls", "default"),
        ("postgres-primary", "default"),
        ("postgres-replica", "db"),
        ("echo-svc", "default"),
        ("mirror-svc", "default"),
        ("svc", "default"),
        ("v1-svc", "default"),
        ("v2-svc", "default"),
        ("127.0.0.1", "default"),
    ]
    .iter()
    .map(|(s, n)| (s.to_string(), n.to_string()))
    .collect()
}

/// A snapshot with the given routes and reference grants.
fn test_snapshot(
    http_routes: Vec<HTTPRoute>,
    tcp_routes: Vec<TCPRoute>,
    tls_routes: Vec<TLSRoute>,
    udp_routes: Vec<UDPRoute>,
    ns_labels: &NamespaceLabels,
    reference_grants: Vec<ReferenceGrant>,
) -> ClusterSnapshot {
    ClusterSnapshot {
        http_routes,
        tcp_routes,
        tls_routes,
        udp_routes,
        namespace_labels: ns_labels.clone(),
        reference_grants,
        services: vec![],
    }
}

fn empty_services() -> ServiceState {
    ServiceState { known_services: test_known_services(), ..Default::default() }
}

fn fronting_service(ns: &str, gw: &str, ports: &[(i32, Option<IntOrString>)]) -> Service {
    Service {
        metadata: ObjectMeta {
            name: Some(format!("portail-{gw}")),
            namespace: Some(ns.to_string()),
            labels: Some(labels(&[("portail.epheo.eu/gateway", gw)])),
            ..Default::default()
        },
        spec: Some(ServiceSpec {
            ports: Some(
                ports
                    .iter()
                    .map(|(p, t)| ServicePort {
                        port: *p,
                        target_port: t.clone(),
                        ..Default::default()
                    })
                    .collect(),
            ),
            ..Default::default()
        }),
    }
}

fn test_gateway() -> Gateway {
    Gateway {
        metadata: ObjectMeta {
            name: Some("test-gw".to_string()),
            namespace: Some("default".to_string()),
            ..Default::default()
        },
        spec: GatewaySpec {
            gateway_class_name: "portail".to_string(),
            listeners: vec![GatewayListeners {
                name: "http".to_string(),
                port: 8080,
                protocol: "HTTP".to_string(),
                hostname: Some("*.example.com".to_string()),
                tls: None,
                allowed_routes: None,
            }],
            ..Default::default()
        },
    }
}

fn test_http_route() -> HTTPRoute {
    HTTPRoute {
        metadata: ObjectMeta {
            name: Some("test-route".to_string()),
            namespace: Some("default".to_string()),
            ..Default::default()
        },
        spec: HTTPRouteSpec {
            parent_refs: Some(vec![RouteParentRef {
                name: "test-gw".to_string(),
                section_name: Some("http".to_string()),
                ..Default::default()
            }]),
            hostnames: Some(vec!["api.example.com".to_string()]),
            rules: Some(vec![HTTPRouteRules {
                matches: Some(vec![HTTPRouteRulesMatches {
                    path: Some(HTTPRouteRulesMatchesPath {
                        type_: Some(HTTPRouteRulesMatchesPathType::PathPrefix),
                        value: Some("/v1".to_string()),
                    }),
                    ..Default::default()
                }]),
                backend_refs: Some(vec![HTTPRouteRulesBackendRefs {
                    name: "api-svc".to_string(),
                    port: Some(3000),
                    weight: Some(1),
                    ..Default::default()
                }]),
                ..Default::default()
            }]),
        },
    }
}

#[test]
fn tests_test_reconcile_basic() {
    let gw = test_gateway();
    let route = test_http_route();
    let ns_labels = default_ns_labels();

    let result = reconcile_to_config(
        &gw,
        &test_snapshot(vec![route], vec![], vec![], vec![], &ns_labels, vec![]),
        &Table::new(),
        &empty_services(),
    )
    .unwrap();

    assert_eq!(result.config.gateway.name, "test-gw");
    assert_eq!(result.config.gateway.listeners.len(), 1);
    assert_eq!(result.config.gateway.listeners[0].port, 8080);
    assert_eq!(result.config.http_routes.len(), 1);
    assert_eq!(
        result.config.http_routes[0].hostnames,
        vec!["api.example.com"]
    );
    assert_eq!(
        result.config.http_routes[0].rules[0].backend_refs[0].name,
        "api-svc.default.svc"
    );
    assert_eq!(
        result.config.http_routes[0].rules[0].backend_refs[0].port,
        3000
    );
    assert!(result.route_status.iter().all(|r| r.accepted));
}

#[test]
fn tests_test_reconcile_filters_routes_by_gateway() {
    let gw = test_gateway();
    let matching_route = test_http_route();
    let ns_labels = default_ns_labels();

    let other_route = HTTPRoute {
        metadata: ObjectMeta {
            name: Some("other-route".to_string()),
            namespace: Some("default".to_string()),
            ..Default::default()
        },
        spec: HTTPRouteSpec {
            parent_refs: Some(vec![RouteParentRef {
                name: "other-gw".to_string(),
                ..Default::default()
            }]),
            hostnames: Some(vec!["other.com".to_string()]),
            rules: Some(vec![HTTPRouteRules {
                backend_refs: Some(vec![HTTPRouteRulesBackendRefs {
                    name: "other-svc".to_string(),
                    port: Some(80),
                    ..Default::default()
                }]),
                ..Default::default()
            }]),
        },
    };

    let result = reconcile_to_config(
        &gw,
        &test_snapshot(
            vec![matching_route, other_route],
            vec![],
            vec![],
            vec![],
            &ns_labels,
            vec![],
        ),
        &Table::new(),
        &empty_services(),
    )
    .unwrap();

    assert_eq!(result.config.http_routes.len(), 1);
    assert_eq!(
        result.config.http_routes[0].hostnames,
        vec!["api.example.com"]
    );
}

#[test]
fn tests_test_reconcile_produces_valid_config() {
    let gw = test_gateway();
    let route = test_http_route();
    let ns_labels = default_ns_labels();

    let result = reconcile_to_config(
        &gw,
        &test_snapshot(vec![route], vec![], vec![], vec![], &ns_labels, vec![]),
        &Table::new(),
        &empty_services(),
    )
    .unwrap();

    assert_eq!(result.config.gateway.listeners[0].protocol, Protocol::HTTP);
    assert_eq!(result.config.http_routes[0].rules.len(), 1);
    let rule = &result.config.http_routes[0].rules[0];
    assert_eq!(rule.matches.len(), 1);
    assert_eq!(
        rule.matches[0].path.as_ref().unwrap().match_type,
        HttpPathMatchType::PathPrefix
    );
    assert_eq!(rule.matches[0].path.as_ref().unwrap().value, "/v1");
    assert_eq!(rule.backend_refs[0].name, "api-svc.default.svc");
}

#[test]
fn tests_test_backend_dns_name_with_namespace() {
    assert_eq!(
        backend_dns_name("my-svc", &Some("prod".to_string()), "default"),
        "my-svc.prod.svc"
    );
    assert_eq!(
        backend_dns_name("my-svc", &None, "default"),
        "my-svc.default.svc"
    );
}

#[test]
fn tests_test_namespace_scoping_same() {
    let mut gw = test_gateway();
    gw.metadata.namespace = Some("default".to_string());

    let mut route = test_http_route();
    route.metadata.namespace = Some("other-ns".to_string());

    let mut ns_labels = default_ns_labels();
    ns_labels.insert("other-ns".to_string(), labels(&[]));

    let result = reconcile_to_config(
        &gw,
        &test_snapshot(vec![route], vec![], vec![], vec![], &ns_labels, vec![]),
        &Table::new(),
        &empty_services(),
    )
    .unwrap();
    assert_eq!(result.config.http_routes.len(), 0);
    assert!(!result.route_status[0].accepted);
}

#[test]
fn tests_test_namespace_scoping_all() {

    let mut gw = test_gateway();
    gw.spec.listeners[0].allowed_routes = Some(GatewayListenersAllowedRoutes {
        namespaces: Some(GatewayListenersAllowedRoutesNamespaces {
            from: Some(GatewayListenersAllowedRoutesNamespacesFrom::All),
            selector: None,
        }),
        kinds: None,
    });

    let mut route = test_http_route();
    route.metadata.namespace = Some("other-ns".to_string());

    let mut ns_labels = default_ns_labels();
    ns_labels.insert("other-ns".to_string(), labels(&[]));

    let result = reconcile_to_config(
        &gw,
        &test_snapshot(vec![route], vec![], vec![], vec![], &ns_labels, vec![]),
        &Table::new(),
        &empty_services(),
    )
    .unwrap();
    assert_eq!(result.config.http_routes.len(), 1);
    assert!(result.route_status[0].accepted);
}

#[test]
fn tests_test_namespace_scoping_selector() {

    let mut gw = test_gateway();
    gw.spec.listeners[0].allowed_routes = Some(GatewayListenersAllowedRoutes {
        namespaces: Some(GatewayListenersAllowedRoutesNamespaces {
            from: Some(GatewayListenersAllowedRoutesNamespacesFrom::Selector),
            selector: Some(LabelSelector {
                match_labels: Some(labels(&[("env", "prod")])),
                match_expressions: None,
            }),
        }),
        kinds: None,
    });

    let mut route = test_http_route();
    route.metadata.namespace = Some("prod-ns".to_string());

    let mut ns_labels = default_ns_labels();
    ns_labels.insert(
        "prod-ns".to_string(),
        labels(&[("env", "prod")]),
    );

    let result = reconcile_to_config(
        &gw,
        &test_snapshot(
            vec![route.clone()],
            vec![],
            vec![],
            vec![],
            &ns_labels,
            vec![],
        ),
        &Table::new(),
        &empty_services(),
    )
    .unwrap();
    assert_eq!(result.config.http_routes.len(), 1);

    ns_labels.insert(
        "prod-ns".to_string(),
        labels(&[("env", "staging")]),
    );
    let result = reconcile_to_config(
        &gw,
        &test_snapshot(vec![route], vec![], vec![], vec![], &ns_labels, vec![]),
        &Table::new(),
        &empty_services(),
    )
    .unwrap();
    assert_eq!(result.config.http_routes.len(), 0);
}

#[test]
fn tests_test_reconcile_no_routes() {
    let gw = test_gateway();
    let ns_labels = default_ns_labels();
    let result = reconcile_to_config(
        &gw,
        &test_snapshot(vec![], vec![], vec![], vec![], &ns_labels, vec![]),
        &Table::new(),
        &empty_services(),
    )
    .unwrap();

    assert_eq!(result.config.gateway.name, "test-gw");
    assert!(result.config.http_routes.is_empty());
    assert!(result.config.tcp_routes.is_empty());
    assert!(result.config.tls_routes.is_empty());
    assert!(result.config.udp_routes.is_empty());
    assert!(result.route_status.is_empty());
}

#[test]
fn tests_test_route_without_parent_refs_excluded() {
    let gw = test_gateway();
    let ns_labels = default_ns_labels();
    let orphan = HTTPRoute {
        metadata: ObjectMeta {
            name: Some("orphan".to_string()),
            namespace: Some("default".to_string()),
            ..Default::default()
        },
        spec: HTTPRouteSpec {
            parent_refs: None,
            hostnames: Some(vec!["orphan.example.com".to_string()]),
            rules: Some(vec![HTTPRouteRules {
                backend_refs: Some(vec![HTTPRouteRulesBackendRefs {
                    name: "orphan-svc".to_string(),
                    port: Some(80),
                    ..Default::default()
                }]),
                ..Default::default()
            }]),
        },
    };
    let result = reconcile_to_config(
        &gw,
        &test_snapshot(vec![orphan], vec![], vec![], vec![], &ns_labels, vec![]),
        &Table::new(),
        &empty_services(),
    )
    .unwrap();
    assert!(result.config.http_routes.is_empty());
}

#[test]
fn tests_test_backend_dns_name_cross_namespace() {
    assert_eq!(
        backend_dns_name("db-svc", &Some("database".to_string()), "app"),
        "db-svc.database.svc"
    );
}

fn multi_listener_gateway() -> Gateway {
    Gateway {
        metadata: ObjectMeta {
            name: Some("multi-gw".to_string()),
            namespace: Some("default".to_string()),
            ..Default::default()
        },
        spec: GatewaySpec {
            gateway_class_name: "portail".to_string(),
            listeners: vec![
                GatewayListeners {
                    name: "http".to_string(),
                    port: 8080,
                    protocol: "HTTP".to_string(),
                    hostname: None,
                    tls: None,
                    allowed_routes: None,
                },
                GatewayListeners {
                    name: "https".to_string(),
                    port: 8443,
                    protocol: "HTTPS".to_string(),
                    hostname: None,
                    tls: Some(GatewayListenersTls {
                        certificate_refs: Some(vec![GatewayListenersTlsCertificateRefs {
                            name: "my-cert".to_string(),
                            ..Default::default()
                        }]),
                        mode: Some(GatewayListenersTlsMode::Terminate),
                        ..Default::default()
                    }),
                    allowed_routes: None,
                },
                GatewayListeners {
                    name: "tcp".to_string(),
                    port: 5432,
                    protocol: "TCP".to_string(),
                    hostname: None,
                    tls: None,
                    allowed_routes: None,
                },
                GatewayListeners {
                    name: "tls-passthrough".to_string(),
                    port: 6443,
                    protocol: "TLS".to_string(),
                    hostname: None,
                    tls: Some(GatewayListenersTls {
                        mode: Some(GatewayListenersTlsMode::Passthrough),
                        ..Default::default()
                    }),
                    allowed_routes: None,
                },
                GatewayListeners {
                    name: "udp".to_string(),
                    port: 5353,
                    protocol: "UDP".to_string(),
                    hostname: None,
                    tls: None,
                    allowed_routes: None,
                },
            ],
            ..Default::default()
        },
    }
}

#[test]
fn tests_test_multiple_listeners() {
    let gw = multi_listener_gateway();
    let ns_labels = default_ns_labels();
    let result = reconcile_to_config(
        &gw,
        &test_snapshot(vec![], vec![], vec![], vec![], &ns_labels, vec![]),
        &Table::new(),
        &empty_services(),
    )
    .unwrap();

    assert_eq!(result.config.gateway.listeners.len(), 5);
    assert_eq!(result.config.gateway.listeners[0].protocol, Protocol::HTTP);
    assert_eq!(result.config.gateway.listeners[1].protocol, Protocol::HTTPS);
    assert_eq!(result.config.gateway.listeners[2].protocol, Protocol::TCP);
    assert_eq!(result.config.gateway.listeners[3].protocol, Protocol::TLS);
    assert_eq!(result.config.gateway.listeners[4].protocol, Protocol::UDP);
}

#[test]
fn tests_test_tls_terminate_listener() {
    let gw = multi_listener_gateway();
    let ns_labels = default_ns_labels();
    let result = reconcile_to_config(
        &gw,
        &test_snapshot(vec![], vec![], vec![], vec![], &ns_labels, vec![]),
        &Table::new(),
        &empty_services(),
    )
    .unwrap();

    let https = &result.config.gateway.listeners[1];
    let tls = https.tls.as_ref().unwrap();
    assert_eq!(tls.mode, TlsMode::Terminate);
    assert_eq!(tls.certificate_refs[0].name, "my-cert");
}

#[test]
fn tests_test_tls_passthrough_listener() {
    let gw = multi_listener_gateway();
    let ns_labels = default_ns_labels();
    let result = reconcile_to_config(
        &gw,
        &test_snapshot(vec![], vec![], vec![], vec![], &ns_labels, vec![]),
        &Table::new(),
        &empty_services(),
    )
    .unwrap();

    let tls_listener = &result.config.gateway.listeners[3];
    let tls = tls_listener.tls.as_ref().unwrap();
    assert_eq!(tls.mode, TlsMode::Passthrough);
    assert!(tls.certificate_refs.is_empty());
}

#[test]
fn test_unsupported_protocol_listener_isolated() {
    // A GRPC listener must not take down the HTTP listener beside it —
    // previously one bad listener failed conversion of the whole Gateway.
    let mut gw = test_gateway();
    gw.spec.listeners.push(GatewayListeners {
        name: "grpc".to_string(),
        port: 9090,
        protocol: "GRPC".to_string(),
        hostname: None,
        tls: None,
        allowed_routes: None,
    });
    let ns_labels = default_ns_labels();
    let result = reconcile_to_config(
        &gw,
        &test_snapshot(vec![], vec![], vec![], vec![], &ns_labels, vec![]),
        &Table::new(),
        &empty_services(),
    )
    .unwrap();
    assert_eq!(result.config.gateway.listeners.len(), 1);
    assert_eq!(result.config.gateway.listeners[0].name, "http");
}

#[test]
fn tests_test_tcp_route_conversion() {
    let gw = multi_listener_gateway();
    let ns_labels = default_ns_labels();
    let tcp_route = TCPRoute {
        metadata: ObjectMeta {
            name: Some("db-route".to_string()),
            namespace: Some("default".to_string()),
            ..Default::default()
        },
        spec: TCPRouteSpec {
            parent_refs: Some(vec![RouteParentRef {
                name: "multi-gw".to_string(),
                section_name: Some("tcp".to_string()),
                ..Default::default()
            }]),
            rules: vec![L4RouteRule {
                backend_refs: vec![
                    L4BackendRef {
                        name: "postgres-primary".to_string(),
                        port: Some(5432),
                        weight: Some(3),
                        ..Default::default()
                    },
                    L4BackendRef {
                        name: "postgres-replica".to_string(),
                        port: Some(5432),
                        weight: Some(1),
                        namespace: Some("db".to_string()),
                        ..Default::default()
                    },
                ],
                ..Default::default()
            }],
            ..Default::default()
        },
    };

    // ReferenceGrant allowing TCPRoute in default NS to reference Service in db NS
    let ref_grant = ReferenceGrant {
        metadata: ObjectMeta {
            name: Some("allow-db".to_string()),
            namespace: Some("db".to_string()),
            ..Default::default()
        },
        spec: ReferenceGrantSpec {
            from: vec![ReferenceGrantFrom {
                group: "gateway.networking.k8s.io".to_string(),
                kind: "TCPRoute".to_string(),
                namespace: "default".to_string(),
            }],
            to: vec![ReferenceGrantTo {
                group: "".to_string(),
                kind: "Service".to_string(),
                name: None,
            }],
        },
    };

    let result = reconcile_to_config(
        &gw,
        &test_snapshot(
            vec![],
            vec![tcp_route],
            vec![],
            vec![],
            &ns_labels,
            vec![ref_grant],
        ),
        &Table::new(),
        &empty_services(),
    )
    .unwrap();

    assert_eq!(result.config.tcp_routes.len(), 1);
    let rule = &result.config.tcp_routes[0].rules[0];
    assert_eq!(rule.backend_refs.len(), 2);
    assert_eq!(rule.backend_refs[0].name, "postgres-primary.default.svc");
    assert_eq!(rule.backend_refs[0].port, 5432);
    assert_eq!(rule.backend_refs[0].weight, 3);
    assert_eq!(rule.backend_refs[1].name, "postgres-replica.db.svc");
}

#[test]
fn tests_test_tls_route_conversion() {
    let gw = multi_listener_gateway();
    let ns_labels = default_ns_labels();
    let tls_route = TLSRoute {
        metadata: ObjectMeta {
            name: Some("tls-route".to_string()),
            namespace: Some("default".to_string()),
            ..Default::default()
        },
        spec: TLSRouteSpec {
            parent_refs: Some(vec![RouteParentRef {
                name: "multi-gw".to_string(),
                section_name: Some("tls-passthrough".to_string()),
                ..Default::default()
            }]),
            hostnames: vec![
                "secure.example.com".to_string(),
                "*.internal.example.com".to_string(),
            ],
            rules: vec![L4RouteRule {
                backend_refs: vec![L4BackendRef {
                    name: "backend-tls".to_string(),
                    port: Some(8443),
                    ..Default::default()
                }],
                ..Default::default()
            }],
            ..Default::default()
        },
    };

    let result = reconcile_to_config(
        &gw,
        &test_snapshot(vec![], vec![], vec![tls_route], vec![], &ns_labels, vec![]),
        &Table::new(),
        &empty_services(),
    )
    .unwrap();

    assert_eq!(result.config.tls_routes.len(), 1);
    assert_eq!(
        result.config.tls_routes[0].hostnames,
        vec!["secure.example.com", "*.internal.example.com"]
    );
    assert_eq!(
        result.config.tls_routes[0].rules[0].backend_refs[0].name,
        "backend-tls.default.svc"
    );
    assert_eq!(
        result.config.tls_routes[0].rules[0].backend_refs[0].port,
        8443
    );
}

#[test]
fn tests_test_udp_route_conversion() {
    let gw = multi_listener_gateway();
    let ns_labels = default_ns_labels();
    let udp_route = UDPRoute {
        metadata: ObjectMeta {
            name: Some("dns-route".to_string()),
            namespace: Some("default".to_string()),
            ..Default::default()
        },
        spec: UDPRouteSpec {
            parent_refs: Some(vec![RouteParentRef {
                name: "multi-gw".to_string(),
                section_name: Some("udp".to_string()),
                ..Default::default()
            }]),
            rules: vec![L4RouteRule {
                backend_refs: vec![L4BackendRef {
                    name: "coredns".to_string(),
                    port: Some(53),
                    ..Default::default()
                }],
                ..Default::default()
            }],
            ..Default::default()
        },
    };

    let result = reconcile_to_config(
        &gw,
        &test_snapshot(vec![], vec![], vec![], vec![udp_route], &ns_labels, vec![]),
        &Table::new(),
        &empty_services(),
    )
    .unwrap();

    assert_eq!(result.config.udp_routes.len(), 1);
    assert_eq!(
        result.config.udp_routes[0].rules[0].backend_refs[0].name,
        "coredns.default.svc"
    );
    assert_eq!(
        result.config.udp_routes[0].rules[0].backend_refs[0].port,
        53
    );
}

#[test]
fn tests_test_exact_path_match() {
    let gw = test_gateway();
    let ns_labels = default_ns_labels();
    let route = HTTPRoute {
        metadata: ObjectMeta {
            name: Some("exact-route".to_string()),
            namespace: Some("default".to_string()),
            ..Default::default()
        },
        spec: HTTPRouteSpec {
            parent_refs: Some(vec![RouteParentRef {
                name: "test-gw".to_string(),
                ..Default::default()
            }]),
            hostnames: Some(vec!["api.example.com".to_string()]),
            rules: Some(vec![HTTPRouteRules {
                matches: Some(vec![HTTPRouteRulesMatches {
                    path: Some(HTTPRouteRulesMatchesPath {
                        type_: Some(HTTPRouteRulesMatchesPathType::Exact),
                        value: Some("/health".to_string()),
                    }),
                    ..Default::default()
                }]),
                backend_refs: Some(vec![HTTPRouteRulesBackendRefs {
                    name: "health-svc".to_string(),
                    port: Some(80),
                    ..Default::default()
                }]),
                ..Default::default()
            }]),
        },
    };

    let result = reconcile_to_config(
        &gw,
        &test_snapshot(vec![route], vec![], vec![], vec![], &ns_labels, vec![]),
        &Table::new(),
        &empty_services(),
    )
    .unwrap();
    let m = &result.config.http_routes[0].rules[0].matches[0];
    assert_eq!(
        m.path.as_ref().unwrap().match_type,
        HttpPathMatchType::Exact
    );
    assert_eq!(m.path.as_ref().unwrap().value, "/health");
}

#[test]
fn tests_test_regex_path_match() {
    let gw = test_gateway();
    let ns_labels = default_ns_labels();
    let route = HTTPRoute {
        metadata: ObjectMeta {
            name: Some("regex-route".to_string()),
            namespace: Some("default".to_string()),
            ..Default::default()
        },
        spec: HTTPRouteSpec {
            parent_refs: Some(vec![RouteParentRef {
                name: "test-gw".to_string(),
                ..Default::default()
            }]),
            hostnames: Some(vec!["api.example.com".to_string()]),
            rules: Some(vec![HTTPRouteRules {
                matches: Some(vec![HTTPRouteRulesMatches {
                    path: Some(HTTPRouteRulesMatchesPath {
                        type_: Some(HTTPRouteRulesMatchesPathType::RegularExpression),
                        value: Some("/users/\\d+".to_string()),
                    }),
                    ..Default::default()
                }]),
                backend_refs: Some(vec![HTTPRouteRulesBackendRefs {
                    name: "users-svc".to_string(),
                    port: Some(80),
                    ..Default::default()
                }]),
                ..Default::default()
            }]),
        },
    };

    let result = reconcile_to_config(
        &gw,
        &test_snapshot(vec![route], vec![], vec![], vec![], &ns_labels, vec![]),
        &Table::new(),
        &empty_services(),
    )
    .unwrap();
    let m = &result.config.http_routes[0].rules[0].matches[0];
    assert_eq!(
        m.path.as_ref().unwrap().match_type,
        HttpPathMatchType::RegularExpression
    );
    assert_eq!(m.path.as_ref().unwrap().value, "/users/\\d+");
}

#[test]
fn tests_test_header_match_exact_and_regex() {
    let gw = test_gateway();
    let ns_labels = default_ns_labels();
    let route = HTTPRoute {
        metadata: ObjectMeta {
            name: Some("header-route".to_string()),
            namespace: Some("default".to_string()),
            ..Default::default()
        },
        spec: HTTPRouteSpec {
            parent_refs: Some(vec![RouteParentRef {
                name: "test-gw".to_string(),
                ..Default::default()
            }]),
            hostnames: Some(vec!["api.example.com".to_string()]),
            rules: Some(vec![HTTPRouteRules {
                matches: Some(vec![HTTPRouteRulesMatches {
                    path: Some(HTTPRouteRulesMatchesPath {
                        type_: Some(HTTPRouteRulesMatchesPathType::PathPrefix),
                        value: Some("/".to_string()),
                    }),
                    headers: Some(vec![
                        HTTPRouteRulesMatchesHeaders {
                            name: "X-Env".to_string(),
                            value: "canary".to_string(),
                            type_: Some(HTTPRouteRulesMatchesValueType::Exact),
                        },
                        HTTPRouteRulesMatchesHeaders {
                            name: "X-Request-Id".to_string(),
                            value: "^[a-f0-9-]+$".to_string(),
                            type_: Some(HTTPRouteRulesMatchesValueType::RegularExpression),
                        },
                    ]),
                    ..Default::default()
                }]),
                backend_refs: Some(vec![HTTPRouteRulesBackendRefs {
                    name: "canary-svc".to_string(),
                    port: Some(80),
                    ..Default::default()
                }]),
                ..Default::default()
            }]),
        },
    };

    let result = reconcile_to_config(
        &gw,
        &test_snapshot(vec![route], vec![], vec![], vec![], &ns_labels, vec![]),
        &Table::new(),
        &empty_services(),
    )
    .unwrap();
    let headers = &result.config.http_routes[0].rules[0].matches[0].headers;
    assert_eq!(headers.len(), 2);
    assert_eq!(headers[0].name, "X-Env");
    assert_eq!(headers[0].match_type, StringMatchType::Exact);
    assert_eq!(headers[1].name, "X-Request-Id");
    assert_eq!(headers[1].match_type, StringMatchType::RegularExpression);
}

#[test]
fn tests_test_query_param_match() {
    let gw = test_gateway();
    let ns_labels = default_ns_labels();
    let route = HTTPRoute {
        metadata: ObjectMeta {
            name: Some("qp-route".to_string()),
            namespace: Some("default".to_string()),
            ..Default::default()
        },
        spec: HTTPRouteSpec {
            parent_refs: Some(vec![RouteParentRef {
                name: "test-gw".to_string(),
                ..Default::default()
            }]),
            hostnames: Some(vec!["api.example.com".to_string()]),
            rules: Some(vec![HTTPRouteRules {
                matches: Some(vec![HTTPRouteRulesMatches {
                    path: Some(HTTPRouteRulesMatchesPath {
                        type_: Some(HTTPRouteRulesMatchesPathType::PathPrefix),
                        value: Some("/search".to_string()),
                    }),
                    query_params: Some(vec![
                        HTTPRouteRulesMatchesQueryParams {
                            name: "format".to_string(),
                            value: "json".to_string(),
                            type_: Some(HTTPRouteRulesMatchesValueType::Exact),
                        },
                        HTTPRouteRulesMatchesQueryParams {
                            name: "id".to_string(),
                            value: "^\\d+$".to_string(),
                            type_: Some(HTTPRouteRulesMatchesValueType::RegularExpression),
                        },
                    ]),
                    ..Default::default()
                }]),
                backend_refs: Some(vec![HTTPRouteRulesBackendRefs {
                    name: "search-svc".to_string(),
                    port: Some(80),
                    ..Default::default()
                }]),
                ..Default::default()
            }]),
        },
    };

    let result = reconcile_to_config(
        &gw,
        &test_snapshot(vec![route], vec![], vec![], vec![], &ns_labels, vec![]),
        &Table::new(),
        &empty_services(),
    )
    .unwrap();
    let qps = &result.config.http_routes[0].rules[0].matches[0].query_params;
    assert_eq!(qps.len(), 2);
    assert_eq!(qps[0].name, "format");
    assert_eq!(qps[0].match_type, StringMatchType::Exact);
    assert_eq!(qps[1].name, "id");
    assert_eq!(qps[1].match_type, StringMatchType::RegularExpression);
}

#[test]
fn tests_test_weighted_backends() {
    let gw = test_gateway();
    let ns_labels = default_ns_labels();
    let route = HTTPRoute {
        metadata: ObjectMeta {
            name: Some("weighted-route".to_string()),
            namespace: Some("default".to_string()),
            ..Default::default()
        },
        spec: HTTPRouteSpec {
            parent_refs: Some(vec![RouteParentRef {
                name: "test-gw".to_string(),
                ..Default::default()
            }]),
            hostnames: Some(vec!["api.example.com".to_string()]),
            rules: Some(vec![HTTPRouteRules {
                backend_refs: Some(vec![
                    HTTPRouteRulesBackendRefs {
                        name: "stable".to_string(),
                        port: Some(80),
                        weight: Some(90),
                        ..Default::default()
                    },
                    HTTPRouteRulesBackendRefs {
                        name: "canary".to_string(),
                        port: Some(80),
                        weight: Some(10),
                        ..Default::default()
                    },
                ]),
                ..Default::default()
            }]),
        },
    };

    let result = reconcile_to_config(
        &gw,
        &test_snapshot(vec![route], vec![], vec![], vec![], &ns_labels, vec![]),
        &Table::new(),
        &empty_services(),
    )
    .unwrap();
    let backends = &result.config.http_routes[0].rules[0].backend_refs;
    assert_eq!(backends.len(), 2);
    assert_eq!(backends[0].name, "stable.default.svc");
    assert_eq!(backends[0].weight, 90);
    assert_eq!(backends[1].name, "canary.default.svc");
    assert_eq!(backends[1].weight, 10);
}

#[test]
fn tests_test_default_weight_and_port() {
    let gw = test_gateway();
    let ns_labels = default_ns_labels();
    let route = HTTPRoute {
        metadata: ObjectMeta {
            name: Some("defaults-route".to_string()),
            namespace: Some("default".to_string()),
            ..Default::default()
        },
        spec: HTTPRouteSpec {
            parent_refs: Some(vec![RouteParentRef {
                name: "test-gw".to_string(),
                ..Default::default()
            }]),
            hostnames: Some(vec!["api.example.com".to_string()]),
            rules: Some(vec![HTTPRouteRules {
                backend_refs: Some(vec![HTTPRouteRulesBackendRefs {
                    name: "svc".to_string(),
                    ..Default::default()
                }]),
                ..Default::default()
            }]),
        },
    };

    let result = reconcile_to_config(
        &gw,
        &test_snapshot(vec![route], vec![], vec![], vec![], &ns_labels, vec![]),
        &Table::new(),
        &empty_services(),
    )
    .unwrap();
    let br = &result.config.http_routes[0].rules[0].backend_refs[0];
    assert_eq!(br.port, 80);
    assert_eq!(br.weight, 1);
}

#[test]
fn tests_test_multiple_rules_per_route() {
    let gw = test_gateway();
    let ns_labels = default_ns_labels();
    let route = HTTPRoute {
        metadata: ObjectMeta {
            name: Some("multi-rule".to_string()),
            namespace: Some("default".to_string()),
            ..Default::default()
        },
        spec: HTTPRouteSpec {
            parent_refs: Some(vec![RouteParentRef {
                name: "test-gw".to_string(),
                ..Default::default()
            }]),
            hostnames: Some(vec!["api.example.com".to_string()]),
            rules: Some(vec![
                HTTPRouteRules {
                    matches: Some(vec![HTTPRouteRulesMatches {
                        path: Some(HTTPRouteRulesMatchesPath {
                            type_: Some(HTTPRouteRulesMatchesPathType::PathPrefix),
                            value: Some("/v1".to_string()),
                        }),
                        ..Default::default()
                    }]),
                    backend_refs: Some(vec![HTTPRouteRulesBackendRefs {
                        name: "v1-svc".to_string(),
                        port: Some(80),
                        ..Default::default()
                    }]),
                    ..Default::default()
                },
                HTTPRouteRules {
                    matches: Some(vec![HTTPRouteRulesMatches {
                        path: Some(HTTPRouteRulesMatchesPath {
                            type_: Some(HTTPRouteRulesMatchesPathType::PathPrefix),
                            value: Some("/v2".to_string()),
                        }),
                        ..Default::default()
                    }]),
                    backend_refs: Some(vec![HTTPRouteRulesBackendRefs {
                        name: "v2-svc".to_string(),
                        port: Some(80),
                        ..Default::default()
                    }]),
                    ..Default::default()
                },
            ]),
        },
    };

    let result = reconcile_to_config(
        &gw,
        &test_snapshot(vec![route], vec![], vec![], vec![], &ns_labels, vec![]),
        &Table::new(),
        &empty_services(),
    )
    .unwrap();
    assert_eq!(result.config.http_routes[0].rules.len(), 2);
    assert_eq!(
        result.config.http_routes[0].rules[0].backend_refs[0].name,
        "v1-svc.default.svc"
    );
    assert_eq!(
        result.config.http_routes[0].rules[1].backend_refs[0].name,
        "v2-svc.default.svc"
    );
}

#[test]
fn tests_test_request_header_modifier_filter() {
    let gw = test_gateway();
    let ns_labels = default_ns_labels();
    let route = HTTPRoute {
        metadata: ObjectMeta {
            name: Some("hdr-mod-route".to_string()),
            namespace: Some("default".to_string()),
            ..Default::default()
        },
        spec: HTTPRouteSpec {
            parent_refs: Some(vec![RouteParentRef {
                name: "test-gw".to_string(),
                ..Default::default()
            }]),
            hostnames: Some(vec!["api.example.com".to_string()]),
            rules: Some(vec![HTTPRouteRules {
                filters: Some(vec![HTTPRouteRulesFilters {
                    type_: HTTPRouteRulesFiltersType::RequestHeaderModifier,
                    request_header_modifier: Some(HTTPHeaderModifier {
                        add: Some(vec![HTTPHeader {
                            name: "X-Added".to_string(),
                            value: "yes".to_string(),
                        }]),
                        set: Some(vec![HTTPHeader {
                            name: "X-Set".to_string(),
                            value: "always".to_string(),
                        }]),
                        remove: Some(vec!["X-Remove".to_string()]),
                    }),
                    ..plain_filter()
                }]),
                backend_refs: Some(vec![HTTPRouteRulesBackendRefs {
                    name: "svc".to_string(),
                    port: Some(80),
                    ..Default::default()
                }]),
                ..Default::default()
            }]),
        },
    };

    let result = reconcile_to_config(
        &gw,
        &test_snapshot(vec![route], vec![], vec![], vec![], &ns_labels, vec![]),
        &Table::new(),
        &empty_services(),
    )
    .unwrap();
    let filters = &result.config.http_routes[0].rules[0].filters;
    assert_eq!(filters.len(), 1);
    match &filters[0] {
        HttpRouteFilter::RequestHeaderModifier { config } => {
            assert_eq!(config.add[0].name, "X-Added");
            assert_eq!(config.set[0].name, "X-Set");
            assert_eq!(config.remove, vec!["X-Remove"]);
        }
        _ => panic!("expected RequestHeaderModifier"),
    }
}

#[test]
fn tests_test_response_header_modifier_filter() {
    let gw = test_gateway();
    let ns_labels = default_ns_labels();
    let route = HTTPRoute {
        metadata: ObjectMeta {
            name: Some("resp-hdr-route".to_string()),
            namespace: Some("default".to_string()),
            ..Default::default()
        },
        spec: HTTPRouteSpec {
            parent_refs: Some(vec![RouteParentRef {
                name: "test-gw".to_string(),
                ..Default::default()
            }]),
            hostnames: Some(vec!["api.example.com".to_string()]),
            rules: Some(vec![HTTPRouteRules {
                filters: Some(vec![HTTPRouteRulesFilters {
                    type_: HTTPRouteRulesFiltersType::ResponseHeaderModifier,
                    response_header_modifier: Some(HTTPHeaderModifier {
                        add: Some(vec![HTTPHeader {
                            name: "X-Response".to_string(),
                            value: "modified".to_string(),
                        }]),
                        set: None,
                        remove: Some(vec!["Server".to_string()]),
                    }),
                    ..plain_filter()
                }]),
                backend_refs: Some(vec![HTTPRouteRulesBackendRefs {
                    name: "svc".to_string(),
                    port: Some(80),
                    ..Default::default()
                }]),
                ..Default::default()
            }]),
        },
    };

    let result = reconcile_to_config(
        &gw,
        &test_snapshot(vec![route], vec![], vec![], vec![], &ns_labels, vec![]),
        &Table::new(),
        &empty_services(),
    )
    .unwrap();
    match &result.config.http_routes[0].rules[0].filters[0] {
        HttpRouteFilter::ResponseHeaderModifier { config } => {
            assert_eq!(config.add[0].name, "X-Response");
            assert_eq!(config.remove, vec!["Server"]);
        }
        _ => panic!("expected ResponseHeaderModifier"),
    }
}

#[test]
fn tests_test_request_redirect_filter() {
    let gw = test_gateway();
    let ns_labels = default_ns_labels();
    let route = HTTPRoute {
        metadata: ObjectMeta {
            name: Some("redirect-route".to_string()),
            namespace: Some("default".to_string()),
            ..Default::default()
        },
        spec: HTTPRouteSpec {
            parent_refs: Some(vec![RouteParentRef {
                name: "test-gw".to_string(),
                ..Default::default()
            }]),
            hostnames: Some(vec!["api.example.com".to_string()]),
            rules: Some(vec![HTTPRouteRules {
                filters: Some(vec![HTTPRouteRulesFilters {
                    type_: HTTPRouteRulesFiltersType::RequestRedirect,
                    request_redirect: Some(HTTPRouteRulesFiltersRequestRedirect {
                        scheme: Some(HTTPRouteRulesFiltersRequestRedirectScheme::Https),
                        hostname: Some("secure.example.com".to_string()),
                        port: Some(443),
                        path: Some(HTTPRouteRulesFiltersPath {
                            type_: HTTPRouteRulesFiltersPathType::ReplaceFullPath,
                            replace_full_path: Some("/new-path".to_string()),
                            replace_prefix_match: None,
                        }),
                        status_code: Some(301),
                    }),
                    ..plain_filter()
                }]),
                backend_refs: None,
                ..Default::default()
            }]),
        },
    };

    let result = reconcile_to_config(
        &gw,
        &test_snapshot(vec![route], vec![], vec![], vec![], &ns_labels, vec![]),
        &Table::new(),
        &empty_services(),
    )
    .unwrap();
    match &result.config.http_routes[0].rules[0].filters[0] {
        HttpRouteFilter::RequestRedirect { config } => {
            assert_eq!(config.scheme.as_deref(), Some("https"));
            assert_eq!(config.hostname.as_deref(), Some("secure.example.com"));
            assert_eq!(config.port, Some(443));
            assert_eq!(config.status_code, 301);
            assert!(
                matches!(&config.path, Some(HttpURLRewritePath::ReplaceFullPath { value }) if value == "/new-path")
            );
        }
        _ => panic!("expected RequestRedirect"),
    }
}

#[test]
fn tests_test_url_rewrite_filter() {
    let gw = test_gateway();
    let ns_labels = default_ns_labels();
    let route = HTTPRoute {
        metadata: ObjectMeta {
            name: Some("rewrite-route".to_string()),
            namespace: Some("default".to_string()),
            ..Default::default()
        },
        spec: HTTPRouteSpec {
            parent_refs: Some(vec![RouteParentRef {
                name: "test-gw".to_string(),
                ..Default::default()
            }]),
            hostnames: Some(vec!["api.example.com".to_string()]),
            rules: Some(vec![HTTPRouteRules {
                filters: Some(vec![HTTPRouteRulesFilters {
                    type_: HTTPRouteRulesFiltersType::UrlRewrite,
                    url_rewrite: Some(HTTPRouteRulesFiltersUrlRewrite {
                        hostname: Some("internal.example.com".to_string()),
                        path: Some(HTTPRouteRulesFiltersPath {
                            type_: HTTPRouteRulesFiltersPathType::ReplacePrefixMatch,
                            replace_prefix_match: Some("/new".to_string()),
                            replace_full_path: None,
                        }),
                    }),
                    ..plain_filter()
                }]),
                backend_refs: Some(vec![HTTPRouteRulesBackendRefs {
                    name: "svc".to_string(),
                    port: Some(80),
                    ..Default::default()
                }]),
                ..Default::default()
            }]),
        },
    };

    let result = reconcile_to_config(
        &gw,
        &test_snapshot(vec![route], vec![], vec![], vec![], &ns_labels, vec![]),
        &Table::new(),
        &empty_services(),
    )
    .unwrap();
    match &result.config.http_routes[0].rules[0].filters[0] {
        HttpRouteFilter::URLRewrite { config } => {
            assert_eq!(config.hostname.as_deref(), Some("internal.example.com"));
            assert!(
                matches!(&config.path, Some(HttpURLRewritePath::ReplacePrefixMatch { value }) if value == "/new")
            );
        }
        _ => panic!("expected URLRewrite"),
    }
}

#[test]
fn tests_test_request_mirror_filter() {
    let gw = test_gateway();
    let ns_labels = default_ns_labels();
    let route = HTTPRoute {
        metadata: ObjectMeta {
            name: Some("mirror-route".to_string()),
            namespace: Some("default".to_string()),
            ..Default::default()
        },
        spec: HTTPRouteSpec {
            parent_refs: Some(vec![RouteParentRef {
                name: "test-gw".to_string(),
                ..Default::default()
            }]),
            hostnames: Some(vec!["api.example.com".to_string()]),
            rules: Some(vec![HTTPRouteRules {
                filters: Some(vec![HTTPRouteRulesFilters {
                    type_: HTTPRouteRulesFiltersType::RequestMirror,
                    request_mirror: Some(HTTPRouteRulesFiltersRequestMirror {
                        backend_ref: HTTPRouteRulesFiltersRequestMirrorBackendRef {
                            name: "mirror-svc".to_string(),
                            port: Some(9090),
                            ..Default::default()
                        },
                        ..Default::default()
                    }),
                    ..plain_filter()
                }]),
                backend_refs: Some(vec![HTTPRouteRulesBackendRefs {
                    name: "api-svc".to_string(),
                    port: Some(80),
                    ..Default::default()
                }]),
                ..Default::default()
            }]),
        },
    };

    let result = reconcile_to_config(
        &gw,
        &test_snapshot(vec![route], vec![], vec![], vec![], &ns_labels, vec![]),
        &Table::new(),
        &empty_services(),
    )
    .unwrap();
    match &result.config.http_routes[0].rules[0].filters[0] {
        HttpRouteFilter::RequestMirror { config } => {
            assert_eq!(config.backend_ref.name, "mirror-svc.default.svc");
            assert_eq!(config.backend_ref.port, 9090);
        }
        _ => panic!("expected RequestMirror"),
    }
}

/// A route with one matching and one dangling parentRef must get one
/// Accepted and one rejected status entry — previously every parentRef
/// inherited the route-wide verdict, so the dangling ref read Accepted.
#[test]
fn test_multi_parentref_mixed_acceptance() {
    let gw = test_gateway();
    let ns_labels = default_ns_labels();
    let mut route = test_http_route();
    route
        .spec
        .parent_refs
        .as_mut()
        .unwrap()
        .push(RouteParentRef {
            name: "test-gw".to_string(),
            section_name: Some("nonexistent".to_string()),
            ..Default::default()
        });

    let result = reconcile_to_config(
        &gw,
        &test_snapshot(vec![route], vec![], vec![], vec![], &ns_labels, vec![]),
        &Table::new(),
        &empty_services(),
    )
    .unwrap();

    assert_eq!(result.route_status.len(), 2);
    let ok = result
        .route_status
        .iter()
        .find(|ra| ra.section_name.as_deref() == Some("http"))
        .unwrap();
    assert!(ok.accepted);
    assert_eq!(ok.listener_names, vec!["http".to_string()]);

    let dangling = result
        .route_status
        .iter()
        .find(|ra| ra.section_name.as_deref() == Some("nonexistent"))
        .unwrap();
    assert!(!dangling.accepted);
    assert_eq!(dangling.accepted_reason, "NoMatchingParent");
    assert!(dangling.listener_names.is_empty());

    // The route still serves via its valid parentRef.
    assert_eq!(result.config.http_routes.len(), 1);
}

/// Cross-namespace mirror ref helper: HTTPRoute in default mirroring to
/// postgres-replica in db (a known service).
fn mirror_route_to_db() -> HTTPRoute {
    HTTPRoute {
        metadata: ObjectMeta {
            name: Some("mirror-route".to_string()),
            namespace: Some("default".to_string()),
            ..Default::default()
        },
        spec: HTTPRouteSpec {
            parent_refs: Some(vec![RouteParentRef {
                name: "test-gw".to_string(),
                ..Default::default()
            }]),
            hostnames: Some(vec!["api.example.com".to_string()]),
            rules: Some(vec![HTTPRouteRules {
                filters: Some(vec![HTTPRouteRulesFilters {
                    type_: HTTPRouteRulesFiltersType::RequestMirror,
                    request_mirror: Some(HTTPRouteRulesFiltersRequestMirror {
                        backend_ref: HTTPRouteRulesFiltersRequestMirrorBackendRef {
                            name: "postgres-replica".to_string(),
                            port: Some(9090),
                            namespace: Some("db".to_string()),
                            ..Default::default()
                        },
                        ..Default::default()
                    }),
                    ..plain_filter()
                }]),
                backend_refs: Some(vec![HTTPRouteRulesBackendRefs {
                    name: "api-svc".to_string(),
                    port: Some(80),
                    ..Default::default()
                }]),
                ..Default::default()
            }]),
        },
    }
}

fn http_mirror_grant() -> ReferenceGrant {
    ReferenceGrant {
        metadata: ObjectMeta {
            name: Some("allow-mirror".to_string()),
            namespace: Some("db".to_string()),
            ..Default::default()
        },
        spec: ReferenceGrantSpec {
            from: vec![ReferenceGrantFrom {
                group: "gateway.networking.k8s.io".to_string(),
                kind: "HTTPRoute".to_string(),
                namespace: "default".to_string(),
            }],
            to: vec![ReferenceGrantTo {
                group: "".to_string(),
                kind: "Service".to_string(),
                name: None,
            }],
        },
    }
}

/// A cross-namespace mirror without a ReferenceGrant previously bypassed
/// grant validation entirely — any route could shadow traffic into any
/// namespace. The mirror must be dropped (primary traffic unaffected)
/// and reported as RefNotPermitted.
#[test]
fn test_mirror_cross_ns_without_grant_dropped() {
    let gw = test_gateway();
    let ns_labels = default_ns_labels();
    let result = reconcile_to_config(
        &gw,
        &test_snapshot(
            vec![mirror_route_to_db()],
            vec![],
            vec![],
            vec![],
            &ns_labels,
            vec![],
        ),
        &Table::new(),
        &empty_services(),
    )
    .unwrap();

    let rule = &result.config.http_routes[0].rules[0];
    assert!(rule.filters.is_empty(), "ungranted mirror must be dropped");
    assert_eq!(rule.backend_refs.len(), 1, "primary backends untouched");

    let ra = &result.route_status[0];
    assert!(ra.accepted, "route itself stays accepted");
    assert!(!ra.refs_resolved);
    assert_eq!(ra.refs_reason, "RefNotPermitted");
}

#[test]
fn test_mirror_cross_ns_with_grant_kept() {
    let gw = test_gateway();
    let ns_labels = default_ns_labels();
    let result = reconcile_to_config(
        &gw,
        &test_snapshot(
            vec![mirror_route_to_db()],
            vec![],
            vec![],
            vec![],
            &ns_labels,
            vec![http_mirror_grant()],
        ),
        &Table::new(),
        &empty_services(),
    )
    .unwrap();

    let rule = &result.config.http_routes[0].rules[0];
    assert_eq!(rule.filters.len(), 1, "granted mirror is kept");
    assert!(result.route_status[0].refs_resolved);
}

#[test]
fn test_mirror_to_unknown_service_dropped() {
    let gw = test_gateway();
    let ns_labels = default_ns_labels();
    let mut route = mirror_route_to_db();
    if let Some(rules) = route.spec.rules.as_mut() {
        let f = rules[0].filters.as_mut().unwrap();
        let rm = f[0].request_mirror.as_mut().unwrap();
        rm.backend_ref.name = "ghost-svc".to_string();
        rm.backend_ref.namespace = None;
    }
    let result = reconcile_to_config(
        &gw,
        &test_snapshot(vec![route], vec![], vec![], vec![], &ns_labels, vec![]),
        &Table::new(),
        &empty_services(),
    )
    .unwrap();

    let rule = &result.config.http_routes[0].rules[0];
    assert!(rule.filters.is_empty());
    let ra = &result.route_status[0];
    assert!(!ra.refs_resolved);
    assert_eq!(ra.refs_reason, "BackendNotFound");
}

#[test]
fn tests_test_timeouts_conversion() {
    let gw = test_gateway();
    let ns_labels = default_ns_labels();
    let route = HTTPRoute {
        metadata: ObjectMeta {
            name: Some("timeout-route".to_string()),
            namespace: Some("default".to_string()),
            ..Default::default()
        },
        spec: HTTPRouteSpec {
            parent_refs: Some(vec![RouteParentRef {
                name: "test-gw".to_string(),
                ..Default::default()
            }]),
            hostnames: Some(vec!["api.example.com".to_string()]),
            rules: Some(vec![HTTPRouteRules {
                backend_refs: Some(vec![HTTPRouteRulesBackendRefs {
                    name: "svc".to_string(),
                    port: Some(80),
                    ..Default::default()
                }]),
                timeouts: Some(HTTPRouteRulesTimeouts {
                    request: Some("30s".to_string()),
                    backend_request: Some("10s".to_string()),
                }),
                ..Default::default()
            }]),
        },
    };

    let result = reconcile_to_config(
        &gw,
        &test_snapshot(vec![route], vec![], vec![], vec![], &ns_labels, vec![]),
        &Table::new(),
        &empty_services(),
    )
    .unwrap();
    let timeouts = result.config.http_routes[0].rules[0]
        .timeouts
        .as_ref()
        .unwrap();
    assert_eq!(timeouts.request.map(std::time::Duration::from_millis), Some(std::time::Duration::from_secs(30)));
    assert_eq!(
        timeouts.backend_request.map(std::time::Duration::from_millis),
        Some(std::time::Duration::from_secs(10))
    );
}

#[test]
fn tests_test_mixed_route_types() {
    let gw = multi_listener_gateway();
    let ns_labels = default_ns_labels();

    let http_route = HTTPRoute {
        metadata: ObjectMeta {
            name: Some("http-route".to_string()),
            namespace: Some("default".to_string()),
            ..Default::default()
        },
        spec: HTTPRouteSpec {
            parent_refs: Some(vec![RouteParentRef {
                name: "multi-gw".to_string(),
                section_name: Some("http".to_string()),
                ..Default::default()
            }]),
            hostnames: Some(vec!["web.example.com".to_string()]),
            rules: Some(vec![HTTPRouteRules {
                backend_refs: Some(vec![HTTPRouteRulesBackendRefs {
                    name: "web-svc".to_string(),
                    port: Some(80),
                    ..Default::default()
                }]),
                ..Default::default()
            }]),
        },
    };

    let tcp_route = TCPRoute {
        metadata: ObjectMeta {
            name: Some("tcp-route".to_string()),
            namespace: Some("default".to_string()),
            ..Default::default()
        },
        spec: TCPRouteSpec {
            parent_refs: Some(vec![RouteParentRef {
                name: "multi-gw".to_string(),
                section_name: Some("tcp".to_string()),
                ..Default::default()
            }]),
            rules: vec![L4RouteRule {
                backend_refs: vec![L4BackendRef {
                    name: "db-svc".to_string(),
                    port: Some(5432),
                    ..Default::default()
                }],
                ..Default::default()
            }],
            ..Default::default()
        },
    };

    let result = reconcile_to_config(
        &gw,
        &test_snapshot(
            vec![http_route],
            vec![tcp_route],
            vec![],
            vec![],
            &ns_labels,
            vec![],
        ),
        &Table::new(),
        &empty_services(),
    )
    .unwrap();

    assert_eq!(result.config.http_routes.len(), 1);
    assert_eq!(result.config.tcp_routes.len(), 1);
    assert_eq!(
        result.config.http_routes[0].rules[0].backend_refs[0].name,
        "web-svc.default.svc"
    );
    assert_eq!(
        result.config.tcp_routes[0].rules[0].backend_refs[0].name,
        "db-svc.default.svc"
    );
    assert_eq!(result.route_status.len(), 2);
    assert!(result.route_status.iter().all(|r| r.accepted));
}

#[test]
fn tests_test_route_acceptance_tracked() {
    let gw = test_gateway();
    let ns_labels = default_ns_labels();
    let route = test_http_route();

    let result = reconcile_to_config(
        &gw,
        &test_snapshot(vec![route], vec![], vec![], vec![], &ns_labels, vec![]),
        &Table::new(),
        &empty_services(),
    )
    .unwrap();

    assert_eq!(result.route_status.len(), 1);
    assert!(result.route_status[0].accepted);
    assert_eq!(result.route_status[0].kind, "HTTPRoute");
    assert_eq!(result.route_status[0].name, "test-route");
    assert_eq!(result.route_status[0].namespace, "default");
}

#[test]
fn target_ports_maps_privileged_and_unprivileged() {
    let svc = fronting_service(
        "default",
        "gw",
        &[
            (80, Some(IntOrString::Int(8000))),
            (443, Some(IntOrString::Int(8001))),
            (8080, Some(IntOrString::Int(8080))),
        ],
    );
    let map = resolve_listener_target_ports(&vec![svc], "default", "gw");
    assert_eq!(map.get(&80), Some(&8000));
    assert_eq!(map.get(&443), Some(&8001));
    assert_eq!(map.get(&8080), Some(&8080));
}

#[test]
fn target_ports_empty_without_matching_service() {
    let wrong_gw = fronting_service("default", "other", &[(80, Some(IntOrString::Int(8000)))]);
    assert!(resolve_listener_target_ports(&vec![wrong_gw], "default", "gw").is_empty());

    let wrong_ns = fronting_service("elsewhere", "gw", &[(80, Some(IntOrString::Int(8000)))]);
    assert!(resolve_listener_target_ports(&vec![wrong_ns], "default", "gw").is_empty());

    assert!(resolve_listener_target_ports(&vec![], "default", "gw").is_empty());
}

#[test]
fn target_ports_skips_named_target_port() {
    let svc = fronting_service(
        "default",
        "gw",
        &[
            (80, Some(IntOrString::String("http".to_string()))),
            (443, Some(IntOrString::Int(8001))),
        ],
    );
    let map = resolve_listener_target_ports(&vec![svc], "default", "gw");
    assert_eq!(map.get(&80), None);
    assert_eq!(map.get(&443), Some(&8001));
}

#[test]
fn reconcile_stamps_listener_target_port_from_fronting_service() {
    let gw = test_gateway(); // listener "http" published on 8080
    let snapshot = ClusterSnapshot {
        http_routes: vec![],
        tcp_routes: vec![],
        tls_routes: vec![],
        udp_routes: vec![],
        namespace_labels: default_ns_labels(),
        reference_grants: vec![],
        services: vec![fronting_service(
            "default",
            "test-gw",
            &[(8080, Some(IntOrString::Int(18080)))],
        )],
    };
    let result = reconcile_to_config(&gw, &snapshot, &Table::new(), &empty_services()).unwrap();
    let http = result
        .config
        .gateway
        .listeners
        .iter()
        .find(|l| l.port == 8080)
        .expect("http listener present");
    assert_eq!(
        http.target_port,
        Some(18080),
        "listener must carry the fronting Service's targetPort"
    );
}
