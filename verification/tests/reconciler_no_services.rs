//! Turning cluster objects into a configuration where no Service is known.
use portail::config::{
    HttpPathMatchType, HttpRouteFilter, HttpURLRewritePath, Protocol, StringMatchType, TlsMode,
};
use portail::kubernetes::converters::backend_dns_name;
use portail::kubernetes::reconciler::{reconcile_to_config, ClusterSnapshot};
use portail::kubernetes::resources::{
    Gateway, GatewayListeners, GatewayListenersAllowedRoutes,
    GatewayListenersAllowedRoutesNamespaces, GatewayListenersAllowedRoutesNamespacesFrom,
    GatewayListenersTls, GatewayListenersTlsCertificateRefs, GatewayListenersTlsMode,
    GatewaySpec, HTTPHeader, HTTPHeaderModifier, HTTPRoute, HTTPRouteRules,
    HTTPRouteRulesBackendRefs, HTTPRouteRulesFilters, HTTPRouteRulesFiltersPath,
    HTTPRouteRulesFiltersPathType, HTTPRouteRulesFiltersRequestRedirect,
    HTTPRouteRulesFiltersRequestRedirectScheme, HTTPRouteRulesFiltersType,
    HTTPRouteRulesFiltersUrlRewrite, HTTPRouteRulesMatches, HTTPRouteRulesMatchesHeaders,
    HTTPRouteRulesMatchesPath, HTTPRouteRulesMatchesPathType, HTTPRouteRulesMatchesQueryParams,
    HTTPRouteRulesMatchesValueType, HTTPRouteRulesTimeouts, HTTPRouteSpec, LabelSelector,
    ObjectMeta, ReferenceGrant, RouteParentRef, TCPRoute, TLSRoute, UDPRoute,
};
use portail::kubernetes::services::ServiceState;
use portail::table::Table;

type NamespaceLabels = Table<String, Table<String, String>>;

fn labels(pairs: &[(&str, &str)]) -> Table<String, String> {
    let mut t = Table::new();
    for (k, v) in pairs {
        t.insert(k.to_string(), v.to_string());
    }
    t
}

fn plain_filter() -> HTTPRouteRulesFilters {
    HTTPRouteRulesFilters {
        type_: HTTPRouteRulesFiltersType::ExtensionRef,
        request_header_modifier: None,
        response_header_modifier: None,
        request_mirror: None,
        request_redirect: None,
        url_rewrite: None,
    }
}

fn default_ns_labels() -> NamespaceLabels {
    let mut m = Table::new();
    m.insert("default".to_string(), labels(&[]));
    m.insert("db".to_string(), labels(&[]));
    m.insert("other-ns".to_string(), labels(&[]));
    m
}

/// A snapshot with the given routes and reference grants.
fn test_snapshot(
    http_routes: Vec<HTTPRoute>,
    tcp_routes: Vec<TCPRoute>,
    tls_routes: Vec<TLSRoute>,
    udp_routes: Vec<UDPRoute>,
    ns_labels: &NamespaceLabels,
    reference_grants: Vec<ReferenceGrant>,
) -> ClusterSnapshot {
    ClusterSnapshot {
        http_routes,
        tcp_routes,
        tls_routes,
        udp_routes,
        namespace_labels: ns_labels.clone(),
        reference_grants,
        services: vec![],
    }
}

/// A cluster without Services.
fn no_services() -> ServiceState {
    ServiceState::default()
}

fn test_gateway() -> Gateway {
    Gateway {
        metadata: ObjectMeta {
            name: Some("test-gw".to_string()),
            namespace: Some("default".to_string()),
            ..Default::default()
        },
        spec: GatewaySpec {
            gateway_class_name: "portail".to_string(),
            listeners: vec![GatewayListeners {
                name: "http".to_string(),
                port: 8080,
                protocol: "HTTP".to_string(),
                hostname: Some("*.example.com".to_string()),
                tls: None,
                allowed_routes: None,
            }],
            ..Default::default()
        },
    }
}

fn test_http_route() -> HTTPRoute {
    HTTPRoute {
        metadata: ObjectMeta {
            name: Some("test-route".to_string()),
            namespace: Some("default".to_string()),
            ..Default::default()
        },
        spec: HTTPRouteSpec {
            parent_refs: Some(vec![RouteParentRef {
                name: "test-gw".to_string(),
                section_name: Some("http".to_string()),
                ..Default::default()
            }]),
            hostnames: Some(vec!["api.example.com".to_string()]),
            rules: Some(vec![HTTPRouteRules {
                matches: Some(vec![HTTPRouteRulesMatches {
                    path: Some(HTTPRouteRulesMatchesPath {
                        type_: Some(HTTPRouteRulesMatchesPathType::PathPrefix),
                        value: Some("/v1".to_string()),
                    }),
                    ..Default::default()
                }]),
                backend_refs: Some(vec![HTTPRouteRulesBackendRefs {
                    name: "api-svc".to_string(),
                    port: Some(3000),
                    weight: Some(1),
                    ..Default::default()
                }]),
                ..Default::default()
            }]),
        },
    }
}

#[test]
fn reconciler_test_reconcile_filters_routes_by_gateway() {
    let gw = test_gateway();
    let matching_route = test_http_route();
    let ns_labels = default_ns_labels();

    let other_route = HTTPRoute {
        metadata: ObjectMeta {
            name: Some("other-route".to_string()),
            namespace: Some("default".to_string()),
            ..Default::default()
        },
        spec: HTTPRouteSpec {
            parent_refs: Some(vec![RouteParentRef {
                name: "other-gw".to_string(),
                ..Default::default()
            }]),
            hostnames: Some(vec!["other.com".to_string()]),
            rules: Some(vec![HTTPRouteRules {
                backend_refs: Some(vec![HTTPRouteRulesBackendRefs {
                    name: "other-svc".to_string(),
                    port: Some(80),
                    ..Default::default()
                }]),
                ..Default::default()
            }]),
        },
    };

    let result = reconcile_to_config(
        &gw,
        &test_snapshot(vec![matching_route, other_route], vec![], vec![], vec![], &ns_labels, vec![]),
        &Table::new(),
        &no_services(),
    )
    .unwrap();

    assert_eq!(result.config.http_routes.len(), 1);
    assert_eq!(result.config.http_routes[0].hostnames, vec!["api.example.com"]);
}

#[test]
fn reconciler_test_backend_dns_name_with_namespace() {
    assert_eq!(
        backend_dns_name("my-svc", &Some("prod".to_string()), "default"),
        "my-svc.prod.svc"
    );
    assert_eq!(
        backend_dns_name("my-svc", &None, "default"),
        "my-svc.default.svc"
    );
}

#[test]
fn reconciler_test_namespace_scoping_same() {
    let mut gw = test_gateway();
    gw.metadata.namespace = Some("default".to_string());

    let mut route = test_http_route();
    route.metadata.namespace = Some("other-ns".to_string());

    let mut ns_labels = default_ns_labels();
    ns_labels.insert("other-ns".to_string(), labels(&[]));

    let result = reconcile_to_config(
        &gw,
        &test_snapshot(vec![route], vec![], vec![], vec![], &ns_labels, vec![]),
        &Table::new(),
        &no_services(),
    ).unwrap();
    assert_eq!(result.config.http_routes.len(), 0);
    assert!(!result.route_status[0].accepted);
}

#[test]
fn reconciler_test_namespace_scoping_all() {

    let mut gw = test_gateway();
    gw.spec.listeners[0].allowed_routes = Some(GatewayListenersAllowedRoutes {
        namespaces: Some(GatewayListenersAllowedRoutesNamespaces {
            from: Some(GatewayListenersAllowedRoutesNamespacesFrom::All),
            selector: None,
        }),
        kinds: None,
    });

    let mut route = test_http_route();
    route.metadata.namespace = Some("other-ns".to_string());

    let mut ns_labels = default_ns_labels();
    ns_labels.insert("other-ns".to_string(), labels(&[]));

    let result = reconcile_to_config(
        &gw,
        &test_snapshot(vec![route], vec![], vec![], vec![], &ns_labels, vec![]),
        &Table::new(),
        &no_services(),
    ).unwrap();
    assert_eq!(result.config.http_routes.len(), 1);
    assert!(result.route_status[0].accepted);
}

#[test]
fn reconciler_test_namespace_scoping_selector() {

    let mut gw = test_gateway();
    gw.spec.listeners[0].allowed_routes = Some(GatewayListenersAllowedRoutes {
        namespaces: Some(GatewayListenersAllowedRoutesNamespaces {
            from: Some(GatewayListenersAllowedRoutesNamespacesFrom::Selector),
            selector: Some(LabelSelector {
                match_labels: Some(labels(&[("env", "prod")])),
                match_expressions: None,
            }),
        }),
        kinds: None,
    });

    let mut route = test_http_route();
    route.metadata.namespace = Some("prod-ns".to_string());

    let mut ns_labels = default_ns_labels();
    ns_labels.insert(
        "prod-ns".to_string(),
        labels(&[("env", "prod")]),
    );

    let result = reconcile_to_config(
        &gw,
        &test_snapshot(vec![route.clone()], vec![], vec![], vec![], &ns_labels, vec![]),
        &Table::new(),
        &no_services(),
    ).unwrap();
    assert_eq!(result.config.http_routes.len(), 1);

    ns_labels.insert("prod-ns".to_string(), labels(&[("env", "staging")]));
    let result = reconcile_to_config(
        &gw,
        &test_snapshot(vec![route], vec![], vec![], vec![], &ns_labels, vec![]),
        &Table::new(),
        &no_services(),
    ).unwrap();
    assert_eq!(result.config.http_routes.len(), 0);
}

#[test]
fn reconciler_test_reconcile_no_routes() {
    let gw = test_gateway();
    let ns_labels = default_ns_labels();
    let result = reconcile_to_config(
        &gw,
        &test_snapshot(vec![], vec![], vec![], vec![], &ns_labels, vec![]),
        &Table::new(),
        &no_services(),
    ).unwrap();

    assert_eq!(result.config.gateway.name, "test-gw");
    assert!(result.config.http_routes.is_empty());
    assert!(result.config.tcp_routes.is_empty());
    assert!(result.config.tls_routes.is_empty());
    assert!(result.config.udp_routes.is_empty());
    assert!(result.route_status.is_empty());
}

#[test]
fn reconciler_test_route_without_parent_refs_excluded() {
    let gw = test_gateway();
    let ns_labels = default_ns_labels();
    let orphan = HTTPRoute {
        metadata: ObjectMeta {
            name: Some("orphan".to_string()),
            namespace: Some("default".to_string()),
            ..Default::default()
        },
        spec: HTTPRouteSpec {
            parent_refs: None,
            hostnames: Some(vec!["orphan.example.com".to_string()]),
            rules: Some(vec![HTTPRouteRules {
                backend_refs: Some(vec![HTTPRouteRulesBackendRefs {
                    name: "orphan-svc".to_string(),
                    port: Some(80),
                    ..Default::default()
                }]),
                ..Default::default()
            }]),
        },
    };
    let result = reconcile_to_config(
        &gw,
        &test_snapshot(vec![orphan], vec![], vec![], vec![], &ns_labels, vec![]),
        &Table::new(),
        &no_services(),
    ).unwrap();
    assert!(result.config.http_routes.is_empty());
}

#[test]
fn reconciler_test_backend_dns_name_cross_namespace() {
    assert_eq!(
        backend_dns_name("db-svc", &Some("database".to_string()), "app"),
        "db-svc.database.svc"
    );
}

fn multi_listener_gateway() -> Gateway {
    Gateway {
        metadata: ObjectMeta {
            name: Some("multi-gw".to_string()),
            namespace: Some("default".to_string()),
            ..Default::default()
        },
        spec: GatewaySpec {
            gateway_class_name: "portail".to_string(),
            listeners: vec![
                GatewayListeners {
                    name: "http".to_string(),
                    port: 8080,
                    protocol: "HTTP".to_string(),
                    hostname: None,
                    tls: None,
                    allowed_routes: None,
                },
                GatewayListeners {
                    name: "https".to_string(),
                    port: 8443,
                    protocol: "HTTPS".to_string(),
                    hostname: None,
                    tls: Some(GatewayListenersTls {
                        certificate_refs: Some(vec![GatewayListenersTlsCertificateRefs {
                            name: "my-cert".to_string(),
                            ..Default::default()
                        }]),
                        mode: Some(GatewayListenersTlsMode::Terminate),
                        ..Default::default()
                    }),
                    allowed_routes: None,
                },
                GatewayListeners {
                    name: "tcp".to_string(),
                    port: 5432,
                    protocol: "TCP".to_string(),
                    hostname: None,
                    tls: None,
                    allowed_routes: None,
                },
                GatewayListeners {
                    name: "tls-passthrough".to_string(),
                    port: 6443,
                    protocol: "TLS".to_string(),
                    hostname: None,
                    tls: Some(GatewayListenersTls {
                        mode: Some(GatewayListenersTlsMode::Passthrough),
                        ..Default::default()
                    }),
                    allowed_routes: None,
                },
                GatewayListeners {
                    name: "udp".to_string(),
                    port: 5353,
                    protocol: "UDP".to_string(),
                    hostname: None,
                    tls: None,
                    allowed_routes: None,
                },
            ],
            ..Default::default()
        },
    }
}

#[test]
fn reconciler_test_multiple_listeners() {
    let gw = multi_listener_gateway();
    let ns_labels = default_ns_labels();
    let result = reconcile_to_config(
        &gw,
        &test_snapshot(vec![], vec![], vec![], vec![], &ns_labels, vec![]),
        &Table::new(),
        &no_services(),
    ).unwrap();

    assert_eq!(result.config.gateway.listeners.len(), 5);
    assert_eq!(result.config.gateway.listeners[0].protocol, Protocol::HTTP);
    assert_eq!(result.config.gateway.listeners[1].protocol, Protocol::HTTPS);
    assert_eq!(result.config.gateway.listeners[2].protocol, Protocol::TCP);
    assert_eq!(result.config.gateway.listeners[3].protocol, Protocol::TLS);
    assert_eq!(result.config.gateway.listeners[4].protocol, Protocol::UDP);
}

#[test]
fn reconciler_test_tls_terminate_listener() {
    let gw = multi_listener_gateway();
    let ns_labels = default_ns_labels();
    let result = reconcile_to_config(
        &gw,
        &test_snapshot(vec![], vec![], vec![], vec![], &ns_labels, vec![]),
        &Table::new(),
        &no_services(),
    ).unwrap();

    let https = &result.config.gateway.listeners[1];
    let tls = https.tls.as_ref().unwrap();
    assert_eq!(tls.mode, TlsMode::Terminate);
    assert_eq!(tls.certificate_refs[0].name, "my-cert");
}

#[test]
fn reconciler_test_tls_passthrough_listener() {
    let gw = multi_listener_gateway();
    let ns_labels = default_ns_labels();
    let result = reconcile_to_config(
        &gw,
        &test_snapshot(vec![], vec![], vec![], vec![], &ns_labels, vec![]),
        &Table::new(),
        &no_services(),
    ).unwrap();

    let tls_listener = &result.config.gateway.listeners[3];
    let tls = tls_listener.tls.as_ref().unwrap();
    assert_eq!(tls.mode, TlsMode::Passthrough);
    assert!(tls.certificate_refs.is_empty());
}

#[test]
fn test_unsupported_protocol_rejected() {
    let gw = Gateway {
        metadata: ObjectMeta {
            name: Some("bad-gw".to_string()),
            ..Default::default()
        },
        spec: GatewaySpec {
            gateway_class_name: "portail".to_string(),
            listeners: vec![GatewayListeners {
                name: "grpc".to_string(),
                port: 9090,
                protocol: "GRPC".to_string(),
                hostname: None,
                tls: None,
                allowed_routes: None,
            }],
            ..Default::default()
        },
    };
    let ns_labels = default_ns_labels();
    assert!(reconcile_to_config(
        &gw,
        &test_snapshot(vec![], vec![], vec![], vec![], &ns_labels, vec![]),
        &Table::new(),
        &no_services(),
    ).is_err());
}

#[test]
fn reconciler_test_exact_path_match() {
    let gw = test_gateway();
    let ns_labels = default_ns_labels();
    let route = HTTPRoute {
        metadata: ObjectMeta {
            name: Some("exact-route".to_string()),
            namespace: Some("default".to_string()),
            ..Default::default()
        },
        spec: HTTPRouteSpec {
            parent_refs: Some(vec![RouteParentRef {
                name: "test-gw".to_string(),
                ..Default::default()
            }]),
            hostnames: Some(vec!["api.example.com".to_string()]),
            rules: Some(vec![HTTPRouteRules {
                matches: Some(vec![HTTPRouteRulesMatches {
                    path: Some(HTTPRouteRulesMatchesPath {
                        type_: Some(HTTPRouteRulesMatchesPathType::Exact),
                        value: Some("/health".to_string()),
                    }),
                    ..Default::default()
                }]),
                backend_refs: Some(vec![HTTPRouteRulesBackendRefs {
                    name: "health-svc".to_string(),
                    port: Some(80),
                    ..Default::default()
                }]),
                ..Default::default()
            }]),
        },
    };

    let result = reconcile_to_config(
        &gw,
        &test_snapshot(vec![route], vec![], vec![], vec![], &ns_labels, vec![]),
        &Table::new(),
        &no_services(),
    ).unwrap();
    let m = &result.config.http_routes[0].rules[0].matches[0];
    assert_eq!(m.path.as_ref().unwrap().match_type, HttpPathMatchType::Exact);
    assert_eq!(m.path.as_ref().unwrap().value, "/health");
}

#[test]
fn reconciler_test_regex_path_match() {
    let gw = test_gateway();
    let ns_labels = default_ns_labels();
    let route = HTTPRoute {
        metadata: ObjectMeta {
            name: Some("regex-route".to_string()),
            namespace: Some("default".to_string()),
            ..Default::default()
        },
        spec: HTTPRouteSpec {
            parent_refs: Some(vec![RouteParentRef {
                name: "test-gw".to_string(),
                ..Default::default()
            }]),
            hostnames: Some(vec!["api.example.com".to_string()]),
            rules: Some(vec![HTTPRouteRules {
                matches: Some(vec![HTTPRouteRulesMatches {
                    path: Some(HTTPRouteRulesMatchesPath {
                        type_: Some(HTTPRouteRulesMatchesPathType::RegularExpression),
                        value: Some("/users/\\d+".to_string()),
                    }),
                    ..Default::default()
                }]),
                backend_refs: Some(vec![HTTPRouteRulesBackendRefs {
                    name: "users-svc".to_string(),
                    port: Some(80),
                    ..Default::default()
                }]),
                ..Default::default()
            }]),
        },
    };

    let result = reconcile_to_config(
        &gw,
        &test_snapshot(vec![route], vec![], vec![], vec![], &ns_labels, vec![]),
        &Table::new(),
        &no_services(),
    ).unwrap();
    let m = &result.config.http_routes[0].rules[0].matches[0];
    assert_eq!(m.path.as_ref().unwrap().match_type, HttpPathMatchType::RegularExpression);
    assert_eq!(m.path.as_ref().unwrap().value, "/users/\\d+");
}

#[test]
fn reconciler_test_header_match_exact_and_regex() {
    let gw = test_gateway();
    let ns_labels = default_ns_labels();
    let route = HTTPRoute {
        metadata: ObjectMeta {
            name: Some("header-route".to_string()),
            namespace: Some("default".to_string()),
            ..Default::default()
        },
        spec: HTTPRouteSpec {
            parent_refs: Some(vec![RouteParentRef {
                name: "test-gw".to_string(),
                ..Default::default()
            }]),
            hostnames: Some(vec!["api.example.com".to_string()]),
            rules: Some(vec![HTTPRouteRules {
                matches: Some(vec![HTTPRouteRulesMatches {
                    path: Some(HTTPRouteRulesMatchesPath {
                        type_: Some(HTTPRouteRulesMatchesPathType::PathPrefix),
                        value: Some("/".to_string()),
                    }),
                    headers: Some(vec![
                        HTTPRouteRulesMatchesHeaders {
                            name: "X-Env".to_string(),
                            value: "canary".to_string(),
                            type_: Some(HTTPRouteRulesMatchesValueType::Exact),
                        },
                        HTTPRouteRulesMatchesHeaders {
                            name: "X-Request-Id".to_string(),
                            value: "^[a-f0-9-]+$".to_string(),
                            type_: Some(HTTPRouteRulesMatchesValueType::RegularExpression),
                        },
                    ]),
                    ..Default::default()
                }]),
                backend_refs: Some(vec![HTTPRouteRulesBackendRefs {
                    name: "canary-svc".to_string(),
                    port: Some(80),
                    ..Default::default()
                }]),
                ..Default::default()
            }]),
        },
    };

    let result = reconcile_to_config(
        &gw,
        &test_snapshot(vec![route], vec![], vec![], vec![], &ns_labels, vec![]),
        &Table::new(),
        &no_services(),
    ).unwrap();
    let headers = &result.config.http_routes[0].rules[0].matches[0].headers;
    assert_eq!(headers.len(), 2);
    assert_eq!(headers[0].name, "X-Env");
    assert_eq!(headers[0].match_type, StringMatchType::Exact);
    assert_eq!(headers[1].name, "X-Request-Id");
    assert_eq!(headers[1].match_type, StringMatchType::RegularExpression);
}

#[test]
fn reconciler_test_query_param_match() {
    let gw = test_gateway();
    let ns_labels = default_ns_labels();
    let route = HTTPRoute {
        metadata: ObjectMeta {
            name: Some("qp-route".to_string()),
            namespace: Some("default".to_string()),
            ..Default::default()
        },
        spec: HTTPRouteSpec {
            parent_refs: Some(vec![RouteParentRef {
                name: "test-gw".to_string(),
                ..Default::default()
            }]),
            hostnames: Some(vec!["api.example.com".to_string()]),
            rules: Some(vec![HTTPRouteRules {
                matches: Some(vec![HTTPRouteRulesMatches {
                    path: Some(HTTPRouteRulesMatchesPath {
                        type_: Some(HTTPRouteRulesMatchesPathType::PathPrefix),
                        value: Some("/search".to_string()),
                    }),
                    query_params: Some(vec![
                        HTTPRouteRulesMatchesQueryParams {
                            name: "format".to_string(),
                            value: "json".to_string(),
                            type_: Some(HTTPRouteRulesMatchesValueType::Exact),
                        },
                        HTTPRouteRulesMatchesQueryParams {
                            name: "id".to_string(),
                            value: "^\\d+$".to_string(),
                            type_: Some(HTTPRouteRulesMatchesValueType::RegularExpression),
                        },
                    ]),
                    ..Default::default()
                }]),
                backend_refs: Some(vec![HTTPRouteRulesBackendRefs {
                    name: "search-svc".to_string(),
                    port: Some(80),
                    ..Default::default()
                }]),
                ..Default::default()
            }]),
        },
    };

    let result = reconcile_to_config(
        &gw,
        &test_snapshot(vec![route], vec![], vec![], vec![], &ns_labels, vec![]),
        &Table::new(),
        &no_services(),
    ).unwrap();
    let qps = &result.config.http_routes[0].rules[0].matches[0].query_params;
    assert_eq!(qps.len(), 2);
    assert_eq!(qps[0].name, "format");
    assert_eq!(qps[0].match_type, StringMatchType::Exact);
    assert_eq!(qps[1].name, "id");
    assert_eq!(qps[1].match_type, StringMatchType::RegularExpression);
}

#[test]
fn reconciler_test_request_header_modifier_filter() {
    let gw = test_gateway();
    let ns_labels = default_ns_labels();
    let route = HTTPRoute {
        metadata: ObjectMeta {
            name: Some("hdr-mod-route".to_string()),
            namespace: Some("default".to_string()),
            ..Default::default()
        },
        spec: HTTPRouteSpec {
            parent_refs: Some(vec![RouteParentRef {
                name: "test-gw".to_string(),
                ..Default::default()
            }]),
            hostnames: Some(vec!["api.example.com".to_string()]),
            rules: Some(vec![HTTPRouteRules {
                filters: Some(vec![HTTPRouteRulesFilters {
                    type_: HTTPRouteRulesFiltersType::RequestHeaderModifier,
                    request_header_modifier: Some(HTTPHeaderModifier {
                        add: Some(vec![HTTPHeader {
                            name: "X-Added".to_string(),
                            value: "yes".to_string(),
                        }]),
                        set: Some(vec![HTTPHeader {
                            name: "X-Set".to_string(),
                            value: "always".to_string(),
                        }]),
                        remove: Some(vec!["X-Remove".to_string()]),
                    }),
                    ..plain_filter()
                }]),
                backend_refs: Some(vec![HTTPRouteRulesBackendRefs {
                    name: "svc".to_string(),
                    port: Some(80),
                    ..Default::default()
                }]),
                ..Default::default()
            }]),
        },
    };

    let result = reconcile_to_config(
        &gw,
        &test_snapshot(vec![route], vec![], vec![], vec![], &ns_labels, vec![]),
        &Table::new(),
        &no_services(),
    ).unwrap();
    let filters = &result.config.http_routes[0].rules[0].filters;
    assert_eq!(filters.len(), 1);
    match &filters[0] {
        HttpRouteFilter::RequestHeaderModifier { config } => {
            assert_eq!(config.add[0].name, "X-Added");
            assert_eq!(config.set[0].name, "X-Set");
            assert_eq!(config.remove, vec!["X-Remove"]);
        }
        _ => panic!("expected RequestHeaderModifier"),
    }
}

#[test]
fn reconciler_test_response_header_modifier_filter() {
    let gw = test_gateway();
    let ns_labels = default_ns_labels();
    let route = HTTPRoute {
        metadata: ObjectMeta {
            name: Some("resp-hdr-route".to_string()),
            namespace: Some("default".to_string()),
            ..Default::default()
        },
        spec: HTTPRouteSpec {
            parent_refs: Some(vec![RouteParentRef {
                name: "test-gw".to_string(),
                ..Default::default()
            }]),
            hostnames: Some(vec!["api.example.com".to_string()]),
            rules: Some(vec![HTTPRouteRules {
                filters: Some(vec![HTTPRouteRulesFilters {
                    type_: HTTPRouteRulesFiltersType::ResponseHeaderModifier,
                    response_header_modifier: Some(HTTPHeaderModifier {
                        add: Some(vec![HTTPHeader {
                            name: "X-Response".to_string(),
                            value: "modified".to_string(),
                        }]),
                        set: None,
                        remove: Some(vec!["Server".to_string()]),
                    }),
                    ..plain_filter()
                }]),
                backend_refs: Some(vec![HTTPRouteRulesBackendRefs {
                    name: "svc".to_string(),
                    port: Some(80),
                    ..Default::default()
                }]),
                ..Default::default()
            }]),
        },
    };

    let result = reconcile_to_config(
        &gw,
        &test_snapshot(vec![route], vec![], vec![], vec![], &ns_labels, vec![]),
        &Table::new(),
        &no_services(),
    ).unwrap();
    match &result.config.http_routes[0].rules[0].filters[0] {
        HttpRouteFilter::ResponseHeaderModifier { config } => {
            assert_eq!(config.add[0].name, "X-Response");
            assert_eq!(config.remove, vec!["Server"]);
        }
        _ => panic!("expected ResponseHeaderModifier"),
    }
}

#[test]
fn reconciler_test_request_redirect_filter() {
    let gw = test_gateway();
    let ns_labels = default_ns_labels();
    let route = HTTPRoute {
        metadata: ObjectMeta {
            name: Some("redirect-route".to_string()),
            namespace: Some("default".to_string()),
            ..Default::default()
        },
        spec: HTTPRouteSpec {
            parent_refs: Some(vec![RouteParentRef {
                name: "test-gw".to_string(),
                ..Default::default()
            }]),
            hostnames: Some(vec!["api.example.com".to_string()]),
            rules: Some(vec![HTTPRouteRules {
                filters: Some(vec![HTTPRouteRulesFilters {
                    type_: HTTPRouteRulesFiltersType::RequestRedirect,
                    request_redirect: Some(HTTPRouteRulesFiltersRequestRedirect {
                        scheme: Some(HTTPRouteRulesFiltersRequestRedirectScheme::Https),
                        hostname: Some("secure.example.com".to_string()),
                        port: Some(443),
                        path: Some(HTTPRouteRulesFiltersPath {
                            type_: HTTPRouteRulesFiltersPathType::ReplaceFullPath,
                            replace_full_path: Some("/new-path".to_string()),
                            replace_prefix_match: None,
                        }),
                        status_code: Some(301),
                    }),
                    ..plain_filter()
                }]),
                backend_refs: None,
                ..Default::default()
            }]),
        },
    };

    let result = reconcile_to_config(
        &gw,
        &test_snapshot(vec![route], vec![], vec![], vec![], &ns_labels, vec![]),
        &Table::new(),
        &no_services(),
    ).unwrap();
    match &result.config.http_routes[0].rules[0].filters[0] {
        HttpRouteFilter::RequestRedirect { config } => {
            assert_eq!(config.scheme.as_deref(), Some("https"));
            assert_eq!(config.hostname.as_deref(), Some("secure.example.com"));
            assert_eq!(config.port, Some(443));
            assert_eq!(config.status_code, 301);
            assert!(matches!(&config.path, Some(HttpURLRewritePath::ReplaceFullPath { value }) if value == "/new-path"));
        }
        _ => panic!("expected RequestRedirect"),
    }
}

#[test]
fn reconciler_test_url_rewrite_filter() {
    let gw = test_gateway();
    let ns_labels = default_ns_labels();
    let route = HTTPRoute {
        metadata: ObjectMeta {
            name: Some("rewrite-route".to_string()),
            namespace: Some("default".to_string()),
            ..Default::default()
        },
        spec: HTTPRouteSpec {
            parent_refs: Some(vec![RouteParentRef {
                name: "test-gw".to_string(),
                ..Default::default()
            }]),
            hostnames: Some(vec!["api.example.com".to_string()]),
            rules: Some(vec![HTTPRouteRules {
                filters: Some(vec![HTTPRouteRulesFilters {
                    type_: HTTPRouteRulesFiltersType::UrlRewrite,
                    url_rewrite: Some(HTTPRouteRulesFiltersUrlRewrite {
                        hostname: Some("internal.example.com".to_string()),
                        path: Some(HTTPRouteRulesFiltersPath {
                            type_: HTTPRouteRulesFiltersPathType::ReplacePrefixMatch,
                            replace_prefix_match: Some("/new".to_string()),
                            replace_full_path: None,
                        }),
                    }),
                    ..plain_filter()
                }]),
                backend_refs: Some(vec![HTTPRouteRulesBackendRefs {
                    name: "svc".to_string(),
                    port: Some(80),
                    ..Default::default()
                }]),
                ..Default::default()
            }]),
        },
    };

    let result = reconcile_to_config(
        &gw,
        &test_snapshot(vec![route], vec![], vec![], vec![], &ns_labels, vec![]),
        &Table::new(),
        &no_services(),
    ).unwrap();
    match &result.config.http_routes[0].rules[0].filters[0] {
        HttpRouteFilter::URLRewrite { config } => {
            assert_eq!(config.hostname.as_deref(), Some("internal.example.com"));
            assert!(matches!(&config.path, Some(HttpURLRewritePath::ReplacePrefixMatch { value }) if value == "/new"));
        }
        _ => panic!("expected URLRewrite"),
    }
}

#[test]
fn reconciler_test_timeouts_conversion() {
    let gw = test_gateway();
    let ns_labels = default_ns_labels();
    let route = HTTPRoute {
        metadata: ObjectMeta {
            name: Some("timeout-route".to_string()),
            namespace: Some("default".to_string()),
            ..Default::default()
        },
        spec: HTTPRouteSpec {
            parent_refs: Some(vec![RouteParentRef {
                name: "test-gw".to_string(),
                ..Default::default()
            }]),
            hostnames: Some(vec!["api.example.com".to_string()]),
            rules: Some(vec![HTTPRouteRules {
                backend_refs: Some(vec![HTTPRouteRulesBackendRefs {
                    name: "svc".to_string(),
                    port: Some(80),
                    ..Default::default()
                }]),
                timeouts: Some(HTTPRouteRulesTimeouts {
                    request: Some("30s".to_string()),
                    backend_request: Some("10s".to_string()),
                }),
                ..Default::default()
            }]),
        },
    };

    let result = reconcile_to_config(
        &gw,
        &test_snapshot(vec![route], vec![], vec![], vec![], &ns_labels, vec![]),
        &Table::new(),
        &no_services(),
    ).unwrap();
    let timeouts = result.config.http_routes[0].rules[0].timeouts.as_ref().unwrap();
    assert_eq!(timeouts.request.map(std::time::Duration::from_millis), Some(std::time::Duration::from_secs(30)));
    assert_eq!(timeouts.backend_request.map(std::time::Duration::from_millis), Some(std::time::Duration::from_secs(10)));
}

#[test]
fn reconciler_test_route_acceptance_tracked() {
    let gw = test_gateway();
    let ns_labels = default_ns_labels();
    let route = test_http_route();

    let result = reconcile_to_config(
        &gw,
        &test_snapshot(vec![route], vec![], vec![], vec![], &ns_labels, vec![]),
        &Table::new(),
        &no_services(),
    ).unwrap();

    assert_eq!(result.route_status.len(), 1);
    assert!(result.route_status[0].accepted);
    assert_eq!(result.route_status[0].kind, "HTTPRoute");
    assert_eq!(result.route_status[0].name, "test-route");
    assert_eq!(result.route_status[0].namespace, "default");
}
