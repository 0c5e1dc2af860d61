//! Which listeners take a route, and which references are allowed.
use portail::kubernetes::hostname::{hostname_matches, hostnames_intersect};
use portail::kubernetes::parent_ref::{
    all_section_names_for_gateway, extract_parent_refs, parent_ref_matches_gateway,
    route_targets_gateway,
};
use portail::kubernetes::reference_grants::{
    is_reference_allowed, is_route_allowed_by_listener, listeners_for_parent_ref, Rejection,
};
use portail::kubernetes::resources::{
    GatewayListeners, GatewayListenersAllowedRoutes, GatewayListenersAllowedRoutesKinds,
    GatewayListenersAllowedRoutesNamespaces, GatewayListenersAllowedRoutesNamespacesFrom,
    LabelSelector, LabelSelectorRequirement, ObjectMeta, ReferenceGrant, ReferenceGrantFrom,
    ReferenceGrantSpec, ReferenceGrantTo, RouteParentRef,
};
use portail::table::Table;

fn owned(v: &[&str]) -> Vec<String> {
    v.iter().map(|s| s.to_string()).collect()
}

fn labels(pairs: &[(&str, &str)]) -> Table<String, String> {
    let mut t = Table::new();
    for (k, v) in pairs {
        t.insert(k.to_string(), v.to_string());
    }
    t
}

fn namespaces() -> Table<String, Table<String, String>> {
    let mut t = Table::new();
    t.insert("shop".to_string(), labels(&[("team", "web"), ("env", "prod")]));
    t.insert("lab".to_string(), labels(&[("env", "dev")]));
    t
}

fn listener(name: &str, port: i32, hostname: Option<&str>) -> GatewayListeners {
    GatewayListeners {
        name: name.to_string(),
        hostname: hostname.map(|h| h.to_string()),
        port,
        protocol: "HTTP".to_string(),
        tls: None,
        allowed_routes: None,
    }
}

fn from(
    from: GatewayListenersAllowedRoutesNamespacesFrom,
    selector: Option<LabelSelector>,
) -> Option<GatewayListenersAllowedRoutes> {
    Some(GatewayListenersAllowedRoutes {
        kinds: None,
        namespaces: Some(GatewayListenersAllowedRoutesNamespaces { from: Some(from), selector }),
    })
}

fn requirement(key: &str, operator: &str, values: &[&str]) -> LabelSelectorRequirement {
    LabelSelectorRequirement {
        key: key.to_string(),
        operator: operator.to_string(),
        values: Some(owned(values)),
    }
}

fn selects(selector: LabelSelector, ns: &str) -> bool {
    let l = GatewayListeners {
        allowed_routes: from(GatewayListenersAllowedRoutesNamespacesFrom::Selector, Some(selector)),
        ..listener("http", 80, None)
    };
    is_route_allowed_by_listener(&l, "infra", ns, "HTTPRoute", &namespaces())
}

#[test]
fn wildcards_cover_subdomains_and_not_the_apex() {
    assert!(hostname_matches("*.example.com", "a.example.com"));
    assert!(hostname_matches("*.example.com", "a.b.example.com"));
    assert!(!hostname_matches("*.example.com", "example.com"));
    assert!(!hostname_matches("*.example.com", "badexample.com"));
    assert!(!hostname_matches("a.example.com", "*.example.com"));
    assert!(hostname_matches("a.example.com", "a.example.com"));
    assert!(!hostname_matches("a.example.com", "b.example.com"));
}

#[test]
fn hostname_lists_meet() {
    let some = Some("*.example.com".to_string());
    assert!(hostnames_intersect(&None, &owned(&["a.example.com"])));
    assert!(hostnames_intersect(&some, &vec![]));
    assert!(hostnames_intersect(&some, &owned(&["a.org", "x.example.com"])));
    assert!(!hostnames_intersect(&some, &owned(&["a.org", "example.com"])));
    // Either side may be the wider one.
    assert!(hostnames_intersect(&Some("x.example.com".to_string()), &owned(&["*.example.com"])));
}

#[test]
fn references_name_gateways() {
    let pr = RouteParentRef {
        name: "gw".to_string(),
        namespace: Some("infra".to_string()),
        section_name: Some("http".to_string()),
        ..Default::default()
    };
    assert!(parent_ref_matches_gateway(&pr, "gw", "infra"));
    assert!(!parent_ref_matches_gateway(&pr, "gw", "other"));
    assert!(!parent_ref_matches_gateway(&pr, "gw2", "infra"));
    let foreign = RouteParentRef { kind: Some("Service".to_string()), ..pr.clone() };
    assert!(!parent_ref_matches_gateway(&foreign, "gw", "infra"));
    let refs = Some(vec![foreign.clone(), pr.clone()]);
    assert!(route_targets_gateway(&refs, "gw", "infra"));
    assert!(!route_targets_gateway(&Some(vec![foreign]), "gw", "infra"));
    assert!(!route_targets_gateway(&None, "gw", "infra"));
    // What names a Gateway in part alone asks for no attachment.
    let other = RouteParentRef { section_name: Some("other".to_string()), ..pr.clone() };
    let service = RouteParentRef { kind: Some("Service".to_string()), ..other.clone() };
    let group = RouteParentRef { group: Some("apps".to_string()), ..other.clone() };
    let elsewhere = RouteParentRef { namespace: Some("apps".to_string()), ..other.clone() };
    let mixed = Some(vec![service.clone(), group, elsewhere, pr.clone()]);
    let extracted = extract_parent_refs(&mixed, "gw", "infra");
    assert_eq!(extracted.len(), 1);
    assert_eq!(extracted[0].name, "gw");
    assert_eq!(extracted[0].section_name.as_deref(), Some("http"));
    assert!(extract_parent_refs(&Some(vec![service]), "gw", "infra").is_empty());
    assert!(extract_parent_refs(&None, "gw", "infra").is_empty());
    assert_eq!(
        all_section_names_for_gateway(&refs, "gw", "infra"),
        vec![Some("http".to_string())]
    );
}

#[test]
fn grants_open_references_across_namespaces() {
    let grant = ReferenceGrant {
        metadata: ObjectMeta { namespace: Some("certs".to_string()), ..Default::default() },
        spec: ReferenceGrantSpec {
            from: vec![ReferenceGrantFrom {
                group: "gateway.networking.k8s.io".to_string(),
                kind: "Gateway".to_string(),
                namespace: "infra".to_string(),
            }],
            to: vec![ReferenceGrantTo {
                group: String::new(),
                kind: "Secret".to_string(),
                name: Some("tls".to_string()),
            }],
        },
    };
    let allowed = |grants: &Vec<ReferenceGrant>, kind: &str, from_ns: &str, to_ns: &str, name: &str| {
        is_reference_allowed(
            grants,
            "gateway.networking.k8s.io",
            kind,
            from_ns,
            "",
            "Secret",
            to_ns,
            name,
        )
    };
    let one = vec![grant.clone()];
    assert!(allowed(&one, "Gateway", "infra", "certs", "tls"));
    assert!(!allowed(&one, "Gateway", "infra", "certs", "other"));
    assert!(!allowed(&one, "Gateway", "shop", "certs", "tls"));
    assert!(!allowed(&one, "HTTPRoute", "infra", "certs", "tls"));
    // A grant elsewhere opens nothing here.
    assert!(!allowed(&one, "Gateway", "infra", "vault", "tls"));
    // Within a namespace nothing is needed.
    assert!(allowed(&vec![], "Gateway", "infra", "infra", "tls"));
    // Without a name, everything of the kind is open; more grants close nothing.
    let mut any = grant.clone();
    any.spec.to[0].name = None;
    let two = vec![grant, any];
    assert!(allowed(&two, "Gateway", "infra", "certs", "other"));
    assert!(allowed(&two, "Gateway", "infra", "certs", "tls"));
}

#[test]
fn namespace_policies() {
    let with = |allowed_routes| GatewayListeners { allowed_routes, ..listener("http", 80, None) };
    let admits = |l: &GatewayListeners, ns: &str| {
        is_route_allowed_by_listener(l, "infra", ns, "HTTPRoute", &namespaces())
    };
    // The Gateway's own namespace unless the listener says otherwise.
    assert!(admits(&with(None), "infra"));
    assert!(!admits(&with(None), "shop"));
    let all = with(from(GatewayListenersAllowedRoutesNamespacesFrom::All, None));
    assert!(admits(&all, "shop"));
    let same = with(from(GatewayListenersAllowedRoutesNamespacesFrom::Same, None));
    assert!(!admits(&same, "shop"));
}

#[test]
fn label_selectors() {
    let by_label =
        LabelSelector { match_labels: Some(labels(&[("team", "web")])), match_expressions: None };
    assert!(selects(by_label.clone(), "shop"));
    assert!(!selects(by_label.clone(), "lab"));
    // Unknown namespaces have no labels.
    assert!(!selects(by_label, "nowhere"));
    let by = |r: LabelSelectorRequirement| LabelSelector {
        match_labels: None,
        match_expressions: Some(vec![r]),
    };
    assert!(selects(by(requirement("env", "In", &["prod", "test"])), "shop"));
    assert!(!selects(by(requirement("env", "In", &["prod", "test"])), "lab"));
    assert!(selects(by(requirement("env", "NotIn", &["prod"])), "lab"));
    assert!(!selects(by(requirement("env", "NotIn", &["prod"])), "shop"));
    assert!(selects(by(requirement("team", "Exists", &[])), "shop"));
    assert!(!selects(by(requirement("team", "Exists", &[])), "lab"));
    assert!(selects(by(requirement("team", "DoesNotExist", &[])), "lab"));
    assert!(!selects(by(requirement("team", "DoesNotExist", &[])), "shop"));
}

#[test]
fn kinds_are_admitted_by_list_or_protocol() {
    let listed = GatewayListeners {
        allowed_routes: Some(GatewayListenersAllowedRoutes {
            kinds: Some(vec![GatewayListenersAllowedRoutesKinds {
                group: None,
                kind: "TLSRoute".to_string(),
            }]),
            namespaces: None,
        }),
        protocol: "TLS".to_string(),
        ..listener("tls", 443, None)
    };
    let admits = |l: &GatewayListeners, kind: &str| {
        is_route_allowed_by_listener(l, "infra", "infra", kind, &namespaces())
    };
    assert!(admits(&listed, "TLSRoute"));
    assert!(!admits(&listed, "HTTPRoute"));
    assert!(admits(&listener("http", 80, None), "HTTPRoute"));
    assert!(!admits(&listener("http", 80, None), "TCPRoute"));
}

#[test]
fn the_most_specific_rejection_is_reported() {
    let listeners = vec![
        listener("a", 80, Some("a.example.com")),
        listener("b", 81, Some("b.example.com")),
    ];
    let judge = |section: Option<&str>, port: Option<i32>, ns: &str, hosts: &[&str]| {
        let pr = RouteParentRef {
            name: "gw".to_string(),
            section_name: section.map(|s| s.to_string()),
            port,
            ..Default::default()
        };
        listeners_for_parent_ref(
            &pr,
            &listeners,
            "infra",
            ns,
            "HTTPRoute",
            &owned(hosts),
            &namespaces(),
        )
    };
    assert_eq!(judge(None, None, "infra", &[]).unwrap(), ["a", "b"]);
    assert_eq!(judge(Some("b"), None, "infra", &[]).unwrap(), ["b"]);
    assert_eq!(judge(None, Some(80), "infra", &[]).unwrap(), ["a"]);
    assert_eq!(judge(None, None, "infra", &["b.example.com"]).unwrap(), ["b"]);
    assert_eq!(judge(Some("c"), None, "infra", &[]), Err(Rejection::NoMatchingParent));
    assert_eq!(
        judge(Some("a"), None, "infra", &["b.example.com"]),
        Err(Rejection::NoMatchingListenerHostname)
    );
    // A host name that one listener shares, and whose policy refuses, says more.
    assert_eq!(
        judge(None, None, "shop", &["b.example.com"]),
        Err(Rejection::NotAllowedByListeners)
    );
    assert_eq!(Rejection::NoMatchingParent.reason(), "NoMatchingParent");
    assert_eq!(Rejection::NotAllowedByListeners.reason(), "NotAllowedByListeners");
    assert_eq!(Rejection::NoMatchingListenerHostname.reason(), "NoMatchingListenerHostname");
}
