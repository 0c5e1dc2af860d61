//! Status documents.
use portail::json::{entry, Json};
use portail::kubernetes::addresses::UsableAddresses;
use portail::kubernetes::resources::{
    Gateway, GatewayAddresses, GatewayListeners, GatewaySpec, ObjectMeta,
};
use portail::kubernetes::status::{
    condition_json, find_existing_parent_conditions, gateway_status_document,
    merge_parent_entries, route_kind_json, route_status_document, stamp_condition,
    status_addresses, supported_kinds_for_protocol, transition_time, transition_time_json,
    Condition, GatewayCondition, GatewayStatus, ListenerStatus, RouteParentStatus,
};
use portail::table::Table;

fn kind_of(protocol: &str) -> Option<String> {
    let kinds = supported_kinds_for_protocol(protocol);
    kinds.first().and_then(|k| k.get("kind")).and_then(|v| v.as_str()).map(String::from)
}

fn text_of<'a>(doc: &'a Json, key: &str) -> Option<&'a str> {
    doc.get(key).and_then(|v| v.as_str())
}

#[test]
fn supported_kinds_map_protocols_to_route_kinds() {
    assert_eq!(kind_of("HTTP").as_deref(), Some("HTTPRoute"));
    assert_eq!(kind_of("HTTPS").as_deref(), Some("HTTPRoute"));
    assert_eq!(kind_of("TLS").as_deref(), Some("TLSRoute"));
    assert_eq!(kind_of("TCP").as_deref(), Some("TCPRoute"));
    assert_eq!(kind_of("UDP").as_deref(), Some("UDPRoute"));
    assert!(supported_kinds_for_protocol("SCTP").is_empty());
}

fn typed_condition(type_: &str, status: &str, reason: &str, time: &str) -> Condition {
    Condition {
        type_: type_.into(),
        status: status.into(),
        reason: reason.into(),
        message: String::new(),
        last_transition_time: time.into(),
        observed_generation: None,
    }
}

#[test]
fn transition_time_preserved_when_status_and_reason_unchanged() {
    let old = "2020-01-01T00:00:00+00:00";
    let now = "2026-07-18T00:00:00+00:00";
    let existing = vec![typed_condition("Accepted", "True", "Accepted", old)];

    let kept = transition_time(&existing, "Accepted", "True", "Accepted", now);
    assert_eq!(kept, "2020-01-01T00:00:00+00:00");

    let flipped = transition_time(&existing, "Accepted", "False", "Invalid", now);
    assert_eq!(flipped, now);

    let other_type = transition_time(&existing, "Programmed", "True", "Accepted", now);
    assert_eq!(other_type, now);
}

#[test]
fn condition_json_preserves_time_and_sets_generation() {
    let existing = vec![Json::Object(vec![
        entry("type", Json::text("Accepted")),
        entry("status", Json::text("True")),
        entry("reason", Json::text("Accepted")),
        entry("lastTransitionTime", Json::text("2020-01-01T00:00:00Z")),
    ])];

    let unchanged = condition_json(
        "Accepted",
        true,
        "Accepted",
        "ok",
        &existing,
        "2026-07-18T00:00:00Z",
        Some(7),
    );
    assert_eq!(text_of(&unchanged, "lastTransitionTime"), Some("2020-01-01T00:00:00Z"));
    assert_eq!(text_of(&unchanged, "status"), Some("True"));
    assert_eq!(unchanged.get("observedGeneration").and_then(|v| v.as_i64()), Some(7));

    // Same reason but flipped status is a real transition.
    let flipped = condition_json(
        "Accepted",
        false,
        "Accepted",
        "broken",
        &existing,
        "2026-07-18T00:00:00Z",
        Some(7),
    );
    assert_eq!(text_of(&flipped, "lastTransitionTime"), Some("2026-07-18T00:00:00Z"));
    assert_eq!(text_of(&flipped, "status"), Some("False"));
}

fn parent_entry(
    controller: &str,
    gateway: &str,
    section: Option<&str>,
    port: Option<i32>,
    cond_reason: &str,
) -> Json {
    let mut pref = vec![
        entry("group", Json::text("gateway.networking.k8s.io")),
        entry("kind", Json::text("Gateway")),
        entry("name", Json::text(gateway)),
        entry("namespace", Json::text("default")),
    ];
    if let Some(s) = section {
        pref.push(entry("sectionName", Json::text(s)));
    }
    if let Some(p) = port {
        pref.push(entry("port", Json::number(p as i64)));
    }
    Json::Object(vec![
        entry("controllerName", Json::text(controller)),
        entry("parentRef", Json::Object(pref)),
        entry(
            "conditions",
            Json::Array(vec![Json::Object(vec![
                entry("type", Json::text("Accepted")),
                entry("reason", Json::text(cond_reason)),
            ])]),
        ),
    ])
}

#[test]
fn find_parent_conditions_matches_full_identity() {
    let existing = vec![
        parent_entry("c", "gw", Some("http"), None, "section-http"),
        parent_entry("c", "gw", Some("tls"), None, "section-tls"),
        parent_entry("c", "gw", None, Some(8080), "port-8080"),
        parent_entry("c", "gw", None, Some(9090), "port-9090"),
        parent_entry("c", "gw", None, None, "bare"),
    ];

    let by_section =
        find_existing_parent_conditions(&existing, "gw", "default", &Some("tls".into()), None);
    assert_eq!(text_of(&by_section[0], "reason"), Some("section-tls"));

    // Refs differing only by port must not share conditions.
    let by_port = find_existing_parent_conditions(&existing, "gw", "default", &None, Some(9090));
    assert_eq!(text_of(&by_port[0], "reason"), Some("port-9090"));

    let bare = find_existing_parent_conditions(&existing, "gw", "default", &None, None);
    assert_eq!(text_of(&bare[0], "reason"), Some("bare"));

    let missing = find_existing_parent_conditions(&existing, "other-gw", "default", &None, None);
    assert!(missing.is_empty());
}

fn rps(controller: &str, gateway: &str, section: Option<&str>) -> RouteParentStatus {
    RouteParentStatus {
        controller_name: controller.into(),
        gateway_name: gateway.into(),
        gateway_namespace: "default".into(),
        section_name: section.map(String::from),
        port: None,
        accepted: true,
        accepted_reason: "Accepted".into(),
        message: String::new(),
        refs_resolved: true,
        refs_reason: "ResolvedRefs".into(),
        refs_message: String::new(),
        programmed: true,
        generation: None,
    }
}

fn reasons(entries: &[Json]) -> Vec<&str> {
    entries
        .iter()
        .map(|e| {
            let conditions = e.get("conditions").and_then(|c| c.as_array()).unwrap();
            text_of(&conditions[0], "reason").unwrap()
        })
        .collect()
}

#[test]
fn merge_keeps_foreign_entries_and_replaces_ours() {
    let existing = vec![
        parent_entry("other-controller", "gw", None, None, "foreign-controller"),
        parent_entry("portail", "other-gw", None, None, "foreign-gateway"),
        parent_entry("portail", "gw", Some("stale-section"), None, "stale"),
    ];
    let parents = vec![rps("portail", "gw", Some("http"))];
    let new_entries = vec![parent_entry("portail", "gw", Some("http"), None, "fresh")];

    let merged = merge_parent_entries(&existing, &parents, new_entries);

    // Foreign controller and foreign Gateway survive; our stale
    // sectionName entry is replaced wholesale by the fresh one.
    assert_eq!(reasons(&merged), vec!["foreign-controller", "foreign-gateway", "fresh"]);
}

#[test]
fn merging_again_changes_nothing() {
    let existing = vec![parent_entry("other-controller", "gw", None, None, "foreign")];
    let parents = vec![rps("portail", "gw", Some("http"))];
    let fresh = || vec![parent_entry("portail", "gw", Some("http"), None, "fresh")];
    let once = merge_parent_entries(&existing, &parents, fresh());
    let twice = merge_parent_entries(&once, &parents, fresh());
    assert_eq!(once, twice);
}

#[test]
fn json_transition_times_keep_and_move() {
    let existing = vec![Json::Object(vec![
        entry("type", Json::text("Ready")),
        entry("status", Json::text("True")),
        entry("reason", Json::text("Ready")),
        entry("lastTransitionTime", Json::text("then")),
    ])];
    assert_eq!(transition_time_json(&existing, "Ready", "True", "Ready", "now"), "then");
    assert_eq!(transition_time_json(&existing, "Ready", "True", "Other", "now"), "now");
    assert_eq!(transition_time_json(&vec![], "Ready", "True", "Ready", "now"), "now");
}

#[test]
fn route_kinds_name_their_group() {
    let kind = route_kind_json("TCPRoute");
    assert_eq!(text_of(&kind, "group"), Some("gateway.networking.k8s.io"));
    assert_eq!(text_of(&kind, "kind"), Some("TCPRoute"));
}

#[test]
fn stamped_conditions_carry_the_verdict() {
    let cond = GatewayCondition { ok: false, reason: "Invalid".into(), message: "bad".into() };
    let stamped = stamp_condition(&cond, "Accepted", &vec![], "now", Some(3));
    assert_eq!(
        stamped,
        Condition {
            type_: "Accepted".into(),
            status: "False".into(),
            reason: "Invalid".into(),
            message: "bad".into(),
            last_transition_time: "now".into(),
            observed_generation: Some(3),
        }
    );
    // The same verdict later keeps its time.
    let again = stamp_condition(&cond, "Accepted", &vec![stamped.clone()], "later", Some(4));
    assert_eq!(again.last_transition_time, "now");
    assert_eq!(again.observed_generation, Some(4));
}

#[test]
fn route_documents_hold_all_parents() {
    let existing = vec![parent_entry("other-controller", "gw", None, None, "foreign")];
    let parents = vec![rps("portail", "gw", Some("http")), rps("portail", "gw", Some("tls"))];
    let doc = route_status_document(&parents, &existing, "now");
    let list = doc
        .get("status")
        .and_then(|s| s.get("parents"))
        .and_then(|p| p.as_array())
        .expect("parents");
    assert_eq!(list.len(), 3);
    let sections: Vec<Option<&str>> =
        list.iter().map(|e| e.get("parentRef").and_then(|r| text_of(r, "sectionName"))).collect();
    assert_eq!(sections, vec![None, Some("http"), Some("tls")]);
}

fn gateway() -> Gateway {
    Gateway {
        metadata: ObjectMeta {
            name: Some("gw".into()),
            namespace: Some("default".into()),
            generation: Some(2),
            ..Default::default()
        },
        spec: GatewaySpec {
            gateway_class_name: "portail".into(),
            listeners: vec![GatewayListeners {
                name: "http".into(),
                port: 80,
                protocol: "HTTP".into(),
                ..Default::default()
            }],
            ..Default::default()
        },
    }
}

#[test]
fn gateway_documents_leave_conditions_to_their_owner() {
    let gateway = gateway();
    let accepted = GatewayCondition { ok: true, reason: "Accepted".into(), message: "".into() };
    let programmed = GatewayCondition { ok: true, reason: "Programmed".into(), message: "".into() };
    let mut counts = Table::new();
    counts.insert("http".to_string(), 4);
    let mut statuses = Table::new();
    statuses.insert("http".to_string(), ListenerStatus::default());
    let usable =
        UsableAddresses { interface_ips: vec!["10.0.0.7".into()], network_ips: Table::new() };
    let conditions = vec![];
    let listeners = vec![];
    let s = GatewayStatus {
        name: "gw",
        namespace: "default",
        gateway: &gateway,
        accepted: &accepted,
        programmed: &programmed,
        counts: &counts,
        statuses: &statuses,
        usable: &usable,
        existing_conditions: &conditions,
        existing_listeners: &listeners,
        now: "now",
        now_seconds: "now-s",
    };
    let owned = gateway_status_document(&s, true);
    let status = owned.get("status").expect("status");
    let conds = status.get("conditions").and_then(|c| c.as_array()).expect("conditions");
    let types: Vec<Option<&str>> = conds.iter().map(|c| text_of(c, "type")).collect();
    assert_eq!(types, vec![Some("Accepted"), Some("Programmed")]);
    let ls = status.get("listeners").and_then(|l| l.as_array()).expect("listeners");
    assert_eq!(ls.len(), 1);
    assert_eq!(text_of(&ls[0], "name"), Some("http"));
    assert_eq!(ls[0].get("attachedRoutes").and_then(|n| n.as_i64()), Some(4));

    let shared = gateway_status_document(&s, false);
    let status = shared.get("status").expect("status");
    assert!(status.get("conditions").is_none());
    assert!(status.get("listeners").is_some());
}

#[test]
fn reported_addresses_fall_back_to_the_preferred_one() {
    let mut gateway = gateway();
    let usable =
        UsableAddresses { interface_ips: vec!["10.0.0.7".into()], network_ips: Table::new() };
    let addrs = status_addresses(&gateway, &usable);
    assert_eq!(addrs.len(), 1);
    assert_eq!(text_of(&addrs[0], "value"), Some("10.0.0.7"));
    gateway.spec.addresses =
        Some(vec![GatewayAddresses { type_: None, value: Some("10.0.0.7".into()) }]);
    let addrs = status_addresses(&gateway, &usable);
    assert_eq!(text_of(&addrs[0], "type"), Some("IPAddress"));
    assert_eq!(text_of(&addrs[0], "value"), Some("10.0.0.7"));
}

#[test]
fn writing_a_route_status_again_keeps_it() {
    let parents = vec![rps("c", "gw", Some("http")), rps("c", "gw", None)];
    let foreign = parent_entry("other", "gw2", None, None, "Foreign");
    let parents_of = |doc: &Json| -> String {
        let status = doc.get("status").unwrap();
        format!("{:?}", status.get("parents").unwrap())
    };
    let first = route_status_document(&parents, &vec![foreign], "2026-01-01T00:00:00Z");
    let list = first.get("status").unwrap().get("parents").unwrap().as_array().unwrap();
    assert_eq!(list.len(), 3);
    let again = route_status_document(&parents, list, "2026-02-02T00:00:00Z");
    assert_eq!(parents_of(&again), parents_of(&first));
    // A changed verdict is stamped anew.
    let mut changed = vec![rps("c", "gw", Some("http")), rps("c", "gw", None)];
    changed[0].accepted = !changed[0].accepted;
    let moved = route_status_document(&changed, list, "2026-02-02T00:00:00Z");
    assert_ne!(parents_of(&moved), parents_of(&first));
    assert!(parents_of(&moved).contains("2026-02-02T00:00:00Z"));
}
