//! What Services say about backends.
use portail::kubernetes::resources::{
    EndpointPort, EndpointSlice, IntOrString, ObjectMeta, Service, ServicePort, ServiceSpec,
};
use portail::kubernetes::services::{
    apply_named_target_port, pick_named_port, resolve_services, NamedTargetPortReq,
};
use portail::table::Table;

#[test]
fn pick_named_port_matches_by_name() {
    let slice = EndpointSlice {
        ports: Some(vec![
            EndpointPort {
                name: Some("metrics".to_string()),
                port: Some(9000),
                ..Default::default()
            },
            EndpointPort {
                name: Some("http".to_string()),
                port: Some(8080),
                ..Default::default()
            },
        ]),
        ..Default::default()
    };
    assert_eq!(
        pick_named_port(&vec![slice.clone()], "http"),
        Some(8080)
    );
    // Unknown name → None (caller keeps the service-port fallback).
    assert_eq!(pick_named_port(&vec![slice], "grpc"), None);
    // No slices at all → None.
    assert_eq!(pick_named_port(&vec![], "http"), None);
}

#[test]
fn pick_named_port_scans_across_slices() {
    // The matching port lives in the second slice; the first has none.
    let empty = EndpointSlice {
        ports: Some(vec![]),
        ..Default::default()
    };
    let has = EndpointSlice {
        ports: Some(vec![EndpointPort {
            name: Some("http".to_string()),
            port: Some(3000),
            ..Default::default()
        }]),
        ..Default::default()
    };
    assert_eq!(pick_named_port(&vec![empty, has], "http"), Some(3000));
}

#[test]
fn resolve_services_defers_named_targetport() {

    fn headless(name: &str, ns: &str, port: i32, target: IntOrString) -> Service {
        Service {
            metadata: ObjectMeta {
                name: Some(name.to_string()),
                namespace: Some(ns.to_string()),
                ..Default::default()
            },
            spec: Some(ServiceSpec {
                cluster_ip: Some("None".to_string()),
                ports: Some(vec![ServicePort {
                    port,
                    target_port: Some(target),
                    ..Default::default()
                }]),
                ..Default::default()
            }),
            ..Default::default()
        }
    }

    // Named targetPort: emit a resolve request AND seed the service-port
    // fallback, so an absent/failed EndpointSlice list degrades to prior behavior.
    let named = headless("db", "prod", 5432, IntOrString::String("pg".to_string()));
    let (state, reqs) = resolve_services(&vec![named]);
    assert_eq!(reqs.len(), 1);
    assert_eq!(
        (
            reqs[0].ns.as_str(),
            reqs[0].svc.as_str(),
            reqs[0].service_port,
            reqs[0].port_name.as_str()
        ),
        ("prod", "db", 5432, "pg")
    );
    assert_eq!(
        state
            .headless_target_ports
            .get(&("db.prod.svc".to_string(), 5432)),
        Some(&5432),
        "fallback to the service port until the EndpointSlice list resolves it"
    );

    // Numeric targetPort: resolved directly from the spec, no request emitted.
    let numeric = headless("cache", "prod", 6379, IntOrString::Int(6380));
    let (state, reqs) = resolve_services(&vec![numeric]);
    assert!(reqs.is_empty());
    assert_eq!(
        state
            .headless_target_ports
            .get(&("cache.prod.svc".to_string(), 6379)),
        Some(&6380)
    );
}

fn slice(ports: &[(&str, i32)]) -> EndpointSlice {
    EndpointSlice {
        ports: Some(
            ports
                .iter()
                .map(|(n, p)| EndpointPort { name: Some(n.to_string()), port: Some(*p) })
                .collect(),
        ),
    }
}

#[test]
fn named_target_port_replaces_fallback() {
    let req = NamedTargetPortReq {
        ns: "prod".to_string(),
        svc: "db".to_string(),
        service_port: 5432,
        port_name: "pg".to_string(),
    };
    let key = ("db.prod.svc".to_string(), 5432);
    let mut ports = Table::new();
    ports.insert(key.clone(), 5432);
    // Nothing found: the fallback stays.
    assert_eq!(apply_named_target_port(&req, &vec![], &mut ports), None);
    assert_eq!(ports.get(&key), Some(&5432));
    assert_eq!(apply_named_target_port(&req, &vec![slice(&[("pg", 6000)])], &mut ports), Some(6000));
    assert_eq!(ports.get(&key), Some(&6000));
}

#[test]
fn services_are_known_and_external_names_redirect() {
    let plain = Service {
        metadata: ObjectMeta {
            name: Some("web".to_string()),
            namespace: Some("default".to_string()),
            ..Default::default()
        },
        spec: Some(ServiceSpec {
            cluster_ip: Some("10.96.0.5".to_string()),
            ports: Some(vec![ServicePort {
                port: 80,
                target_port: Some(IntOrString::Int(8080)),
                app_protocol: Some("kubernetes.io/h2c".to_string()),
            }]),
            ..Default::default()
        }),
    };
    let external = Service {
        metadata: ObjectMeta {
            name: Some("ext".to_string()),
            namespace: Some("default".to_string()),
            ..Default::default()
        },
        spec: Some(ServiceSpec {
            type_: Some("ExternalName".to_string()),
            external_name: Some("api.example.org".to_string()),
            ports: Some(vec![ServicePort { port: 443, ..Default::default() }]),
            ..Default::default()
        }),
    };
    let (state, reqs) = resolve_services(&vec![plain, external]);
    assert!(reqs.is_empty());
    assert!(state.known_services.contains(&("web".to_string(), "default".to_string())));
    assert!(state.known_services.contains(&("ext".to_string(), "default".to_string())));
    assert_eq!(
        state.app_protocol_overrides.get(&("web.default.svc".to_string(), 80)).map(|s| s.as_str()),
        Some("kubernetes.io/h2c")
    );
    assert_eq!(state.headless_target_ports.get(&("web.default.svc".to_string(), 80)), None);
    assert_eq!(
        state.endpoint_overrides.get(&("ext.default.svc".to_string(), 443)),
        Some(&vec![("api.example.org".to_string(), 443)])
    );
}
