//! From cluster objects to the configuration.
use portail::config::{HttpRouteFilter, Protocol, TlsMode};
use portail::duration::parse_duration;
use portail::kubernetes::converters::{
    backend_dns_name, convert_backend_ref_filters, convert_gateway, convert_http_backend_ref,
    convert_http_filter, convert_http_rule, convert_l4_backend_ref, convert_listener,
    convert_timeouts, parse_backend_dns_name, route_namespace, CertData, ConvertError,
};
use portail::kubernetes::resources::{
    Gateway, GatewayAddresses, GatewayListeners, GatewayListenersTls,
    GatewayListenersTlsCertificateRefs, GatewaySpec, HTTPHeader, HTTPHeaderModifier,
    HTTPRouteRules, HTTPRouteRulesBackendRefs, HTTPRouteRulesBackendRefsFilters,
    HTTPRouteRulesFilters, HTTPRouteRulesFiltersType, HTTPRouteRulesTimeouts, L4BackendRef,
    ObjectMeta,
};

fn filter(type_: HTTPRouteRulesFiltersType) -> HTTPRouteRulesFilters {
    HTTPRouteRulesFilters {
        type_,
        request_header_modifier: None,
        response_header_modifier: None,
        request_mirror: None,
        request_redirect: None,
        url_rewrite: None,
    }
}

fn listener(protocol: &str) -> GatewayListeners {
    GatewayListeners {
        name: "l".to_string(),
        port: 443,
        protocol: protocol.to_string(),
        ..Default::default()
    }
}

#[test]
fn filters_without_their_section_do_not_convert() {
    let missing = |t| convert_http_filter(&filter(t), "shop").unwrap_err();
    for (t, message) in [
        (
            HTTPRouteRulesFiltersType::RequestHeaderModifier,
            "RequestHeaderModifier filter missing config",
        ),
        (
            HTTPRouteRulesFiltersType::ResponseHeaderModifier,
            "ResponseHeaderModifier filter missing config",
        ),
        (HTTPRouteRulesFiltersType::RequestRedirect, "RequestRedirect filter missing config"),
        (HTTPRouteRulesFiltersType::UrlRewrite, "URLRewrite filter missing config"),
        (HTTPRouteRulesFiltersType::RequestMirror, "RequestMirror filter missing config"),
    ] {
        assert_eq!(missing(t), ConvertError::MissingFilterConfig(t));
        assert_eq!(missing(t).message(), message);
    }
    let e = missing(HTTPRouteRulesFiltersType::ExtensionRef);
    assert_eq!(e, ConvertError::UnsupportedFilterType);
    assert_eq!(e.message(), "unsupported filter type");
}

#[test]
fn rules_leave_broken_filters_out() {
    let mut good = filter(HTTPRouteRulesFiltersType::RequestHeaderModifier);
    good.request_header_modifier = Some(HTTPHeaderModifier {
        add: None,
        set: Some(vec![HTTPHeader { name: "X-A".to_string(), value: "1".to_string() }]),
        remove: Some(vec!["X-B".to_string()]),
    });
    let rule = HTTPRouteRules {
        matches: None,
        filters: Some(vec![filter(HTTPRouteRulesFiltersType::UrlRewrite), good]),
        backend_refs: None,
        timeouts: None,
    };
    let out = convert_http_rule(&rule, "shop");
    assert_eq!(out.filters.len(), 1);
    match &out.filters[0] {
        HttpRouteFilter::RequestHeaderModifier { config } => {
            assert!(config.add.is_empty());
            assert_eq!(config.set[0].name, "X-A");
            assert_eq!(config.remove, ["X-B"]);
        }
        _ => panic!("not a header modifier"),
    }
    assert!(out.timeouts.is_none());
}

#[test]
fn listeners_convert_by_protocol() {
    let certs = CertData::new();
    for (name, protocol) in [
        ("HTTP", Protocol::HTTP),
        ("HTTPS", Protocol::HTTPS),
        ("TLS", Protocol::TLS),
        ("TCP", Protocol::TCP),
        ("UDP", Protocol::UDP),
    ] {
        assert_eq!(convert_listener(&listener(name), "ns", &certs).unwrap().protocol, protocol);
    }
    let e = convert_listener(&listener("SCTP"), "ns", &certs).unwrap_err();
    assert_eq!(e, ConvertError::UnsupportedProtocol("SCTP".to_string()));
    assert_eq!(e.message(), "unsupported listener protocol: SCTP");
}

#[test]
fn certificates_are_found_by_name_and_namespace() {
    let mut certs = CertData::new();
    certs.insert(("tls".to_string(), "ns".to_string()), (vec![1], vec![2]));
    let mut l = listener("HTTPS");
    l.hostname = Some("a.example.com".to_string());
    l.tls = Some(GatewayListenersTls {
        mode: None,
        certificate_refs: Some(vec![
            GatewayListenersTlsCertificateRefs { name: "tls".to_string(), ..Default::default() },
            GatewayListenersTlsCertificateRefs {
                name: "tls".to_string(),
                namespace: Some("other".to_string()),
                ..Default::default()
            },
        ]),
    });
    let tls = convert_listener(&l, "ns", &certs).unwrap().tls.unwrap();
    assert_eq!(tls.mode, TlsMode::Terminate);
    assert_eq!(tls.certificate_refs[0].cert_pem, Some(vec![1]));
    assert_eq!(tls.certificate_refs[0].key_pem, Some(vec![2]));
    assert_eq!(tls.certificate_refs[0].hostname.as_deref(), Some("a.example.com"));
    assert_eq!(tls.certificate_refs[1].cert_pem, None);
}

#[test]
fn gateways_keep_what_can_be_served() {
    let certs = CertData::new();
    let mut gw = Gateway {
        metadata: ObjectMeta::default(),
        spec: GatewaySpec {
            gateway_class_name: "portail".to_string(),
            addresses: Some(vec![
                GatewayAddresses { type_: None, value: Some("10.0.0.1".to_string()) },
            ]),
            listeners: vec![listener("SCTP"), listener("TCP")],
        },
    };
    let out = convert_gateway(&gw, &certs).unwrap();
    assert_eq!(out.name, "portail-gateway");
    assert_eq!(out.listeners.len(), 1);
    assert_eq!(out.addresses, ["10.0.0.1"]);
    gw.spec.listeners.pop();
    assert_eq!(
        convert_gateway(&gw, &certs).unwrap_err(),
        ConvertError::UnsupportedProtocol("SCTP".to_string())
    );
    gw.spec.listeners.pop();
    assert!(convert_gateway(&gw, &certs).unwrap().listeners.is_empty());
}

#[test]
fn backends_have_defaults() {
    let b = convert_http_backend_ref(
        &HTTPRouteRulesBackendRefs { name: "api".to_string(), ..Default::default() },
        "shop",
    );
    assert_eq!((b.name.as_str(), b.port, b.weight), ("api.shop.svc", 80, 1));
    assert_eq!((b.group.as_str(), b.kind.as_str()), ("", "Service"));
    let l4 = L4BackendRef { name: "db".to_string(), ..Default::default() };
    assert_eq!(convert_l4_backend_ref(&l4, "shop", Some(443)).port, 443);
    assert_eq!(convert_l4_backend_ref(&l4, "shop", None).port, 0);
    let own = L4BackendRef { port: Some(5432), weight: Some(7), ..l4 };
    let b = convert_l4_backend_ref(&own, "shop", None);
    assert_eq!((b.port, b.weight), (5432, 7));
}

#[test]
fn backends_take_header_filters_only() {
    let modifier = HTTPHeaderModifier {
        add: Some(vec![HTTPHeader { name: "A".to_string(), value: "1".to_string() }]),
        set: None,
        remove: None,
    };
    let of = |type_| HTTPRouteRulesBackendRefsFilters {
        type_,
        request_header_modifier: Some(modifier.clone()),
        response_header_modifier: None,
    };
    let out = convert_backend_ref_filters(&Some(vec![
        of(HTTPRouteRulesFiltersType::RequestHeaderModifier),
        of(HTTPRouteRulesFiltersType::ResponseHeaderModifier),
        of(HTTPRouteRulesFiltersType::RequestRedirect),
    ]));
    assert_eq!(out.len(), 1);
    assert!(convert_backend_ref_filters(&None).is_empty());
}

#[test]
fn backend_names_round_trip() {
    assert_eq!(backend_dns_name("api", &None, "shop"), "api.shop.svc");
    assert_eq!(backend_dns_name("api", &Some("infra".to_string()), "shop"), "api.infra.svc");
    assert_eq!(
        parse_backend_dns_name("a.b.infra.svc"),
        Some(("a.b".to_string(), "infra".to_string()))
    );
    assert_eq!(parse_backend_dns_name("api.shop"), None);
    assert_eq!(parse_backend_dns_name("api.svc"), None);
    assert_eq!(parse_backend_dns_name(".svc"), None);
    assert_eq!(route_namespace(&ObjectMeta::default()), "default");
}

#[test]
fn durations() {
    for (text, ms) in [
        ("10s", 10_000),
        ("500ms", 500),
        ("1m", 60_000),
        ("2h", 7_200_000),
        ("1h30m", 5_400_000),
        ("1m30s500ms", 90_500),
        ("0s", 0),
    ] {
        assert_eq!(parse_duration(text), Some(ms), "{}", text);
    }
    for text in ["", "10", "s", "ten seconds", "-1s", "1.5s", "1d", "10 s", "123456s"] {
        assert_eq!(parse_duration(text), None, "{}", text);
    }
    let t = convert_timeouts(&HTTPRouteRulesTimeouts {
        request: Some("10s".to_string()),
        backend_request: Some("soon".to_string()),
    });
    assert_eq!((t.request, t.backend_request), (Some(10_000), None));
}
