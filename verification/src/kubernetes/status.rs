//! Status documents of Gateways and routes.
use crate::dup::Dup;
use crate::json;
use crate::json::{entry, Json, JsonView};
use crate::kubernetes::addresses::{
    UsableAddresses, UsableAddressesView, NETWORK_ADDRESS_TYPE,
};
use crate::kubernetes::parent_ref::GATEWAY_GROUP;
use crate::kubernetes::resources::{
    Gateway, GatewayAddresses, GatewayAddressesView, GatewayListeners, GatewayListenersView,
    GatewayView,
};
use crate::lists::{filter_map_vec, filter_vec, map_vec};
use crate::table;
use crate::table::{table_of, Table};
use crate::text;
use crate::text::{opt_or, str_eq};
use vstd::prelude::*;

verus! {

/// The state of a listener.
#[derive(Debug, PartialEq, Eq)]
pub struct ListenerStatus {
    pub accepted: bool,
    pub accepted_reason: String,
    pub accepted_message: String,
    pub programmed: bool,
    pub programmed_reason: String,
    pub programmed_message: String,
    pub resolved_refs: bool,
    pub resolved_refs_reason: String,
    pub resolved_refs_message: String,
    pub conflicted: bool,
    pub conflicted_reason: String,
    pub conflicted_message: String,
    /// The route kinds that the listener serves.
    pub supported_kinds: Vec<Json>,
}

/// What a [`ListenerStatus`] denotes.
#[verifier::ext_equal]
pub struct ListenerStatusView {
    pub accepted: bool,
    pub accepted_reason: Seq<char>,
    pub accepted_message: Seq<char>,
    pub programmed: bool,
    pub programmed_reason: Seq<char>,
    pub programmed_message: Seq<char>,
    pub resolved_refs: bool,
    pub resolved_refs_reason: Seq<char>,
    pub resolved_refs_message: Seq<char>,
    pub conflicted: bool,
    pub conflicted_reason: Seq<char>,
    pub conflicted_message: Seq<char>,
    pub supported_kinds: Seq<JsonView>,
}

impl DeepView for ListenerStatus {
    type V = ListenerStatusView;

    open spec fn deep_view(&self) -> ListenerStatusView {
        ListenerStatusView {
            accepted: self.accepted.deep_view(),
            accepted_reason: self.accepted_reason.deep_view(),
            accepted_message: self.accepted_message.deep_view(),
            programmed: self.programmed.deep_view(),
            programmed_reason: self.programmed_reason.deep_view(),
            programmed_message: self.programmed_message.deep_view(),
            resolved_refs: self.resolved_refs.deep_view(),
            resolved_refs_reason: self.resolved_refs_reason.deep_view(),
            resolved_refs_message: self.resolved_refs_message.deep_view(),
            conflicted: self.conflicted.deep_view(),
            conflicted_reason: self.conflicted_reason.deep_view(),
            conflicted_message: self.conflicted_message.deep_view(),
            supported_kinds: self.supported_kinds.deep_view(),
        }
    }
}

impl Dup for ListenerStatus {
    fn dup(&self) -> (r: Self) {
        ListenerStatus {
            accepted: self.accepted.dup(),
            accepted_reason: self.accepted_reason.dup(),
            accepted_message: self.accepted_message.dup(),
            programmed: self.programmed.dup(),
            programmed_reason: self.programmed_reason.dup(),
            programmed_message: self.programmed_message.dup(),
            resolved_refs: self.resolved_refs.dup(),
            resolved_refs_reason: self.resolved_refs_reason.dup(),
            resolved_refs_message: self.resolved_refs_message.dup(),
            conflicted: self.conflicted.dup(),
            conflicted_reason: self.conflicted_reason.dup(),
            conflicted_message: self.conflicted_message.dup(),
            supported_kinds: self.supported_kinds.dup(),
        }
    }
}

/// A condition of a Gateway, before it is stamped.
#[derive(Clone, Debug, Default, PartialEq, Eq)]
pub struct GatewayCondition {
    pub ok: bool,
    pub reason: String,
    pub message: String,
}

/// What a [`GatewayCondition`] denotes.
#[verifier::ext_equal]
pub struct GatewayConditionView {
    pub ok: bool,
    pub reason: Seq<char>,
    pub message: Seq<char>,
}

impl DeepView for GatewayCondition {
    type V = GatewayConditionView;

    open spec fn deep_view(&self) -> GatewayConditionView {
        GatewayConditionView {
            ok: self.ok.deep_view(),
            reason: self.reason.deep_view(),
            message: self.message.deep_view(),
        }
    }
}

/// A status condition. The time is kept as the text that it is written as.
#[derive(Clone, Debug, Default, PartialEq, Eq)]
pub struct Condition {
    pub type_: String,
    pub status: String,
    pub reason: String,
    pub message: String,
    pub last_transition_time: String,
    pub observed_generation: Option<i64>,
}

/// What a [`Condition`] denotes.
#[verifier::ext_equal]
pub struct ConditionView {
    pub type_: Seq<char>,
    pub status: Seq<char>,
    pub reason: Seq<char>,
    pub message: Seq<char>,
    pub last_transition_time: Seq<char>,
    pub observed_generation: Option<i64>,
}

impl DeepView for Condition {
    type V = ConditionView;

    open spec fn deep_view(&self) -> ConditionView {
        ConditionView {
            type_: self.type_.deep_view(),
            status: self.status.deep_view(),
            reason: self.reason.deep_view(),
            message: self.message.deep_view(),
            last_transition_time: self.last_transition_time.deep_view(),
            observed_generation: self.observed_generation.deep_view(),
        }
    }
}

/// The status of one parent reference of a route.
#[derive(Clone, Debug, Default, PartialEq, Eq)]
pub struct RouteParentStatus {
    pub controller_name: String,
    pub gateway_name: String,
    pub gateway_namespace: String,
    pub section_name: Option<String>,
    pub port: Option<i32>,
    pub accepted: bool,
    pub accepted_reason: String,
    pub message: String,
    pub refs_resolved: bool,
    pub refs_reason: String,
    pub refs_message: String,
    pub programmed: bool,
    pub generation: Option<i64>,
}

/// What a [`RouteParentStatus`] denotes.
#[verifier::ext_equal]
pub struct RouteParentStatusView {
    pub controller_name: Seq<char>,
    pub gateway_name: Seq<char>,
    pub gateway_namespace: Seq<char>,
    pub section_name: Option<Seq<char>>,
    pub port: Option<i32>,
    pub accepted: bool,
    pub accepted_reason: Seq<char>,
    pub message: Seq<char>,
    pub refs_resolved: bool,
    pub refs_reason: Seq<char>,
    pub refs_message: Seq<char>,
    pub programmed: bool,
    pub generation: Option<i64>,
}

impl DeepView for RouteParentStatus {
    type V = RouteParentStatusView;

    open spec fn deep_view(&self) -> RouteParentStatusView {
        RouteParentStatusView {
            controller_name: self.controller_name.deep_view(),
            gateway_name: self.gateway_name.deep_view(),
            gateway_namespace: self.gateway_namespace.deep_view(),
            section_name: self.section_name.deep_view(),
            port: self.port.deep_view(),
            accepted: self.accepted.deep_view(),
            accepted_reason: self.accepted_reason.deep_view(),
            message: self.message.deep_view(),
            refs_resolved: self.refs_resolved.deep_view(),
            refs_reason: self.refs_reason.deep_view(),
            refs_message: self.refs_message.deep_view(),
            programmed: self.programmed.deep_view(),
            generation: self.generation.deep_view(),
        }
    }
}

impl Dup for RouteParentStatus {
    fn dup(&self) -> (r: Self) {
        RouteParentStatus {
            controller_name: self.controller_name.dup(),
            gateway_name: self.gateway_name.dup(),
            gateway_namespace: self.gateway_namespace.dup(),
            section_name: self.section_name.dup(),
            port: self.port.dup(),
            accepted: self.accepted.dup(),
            accepted_reason: self.accepted_reason.dup(),
            message: self.message.dup(),
            refs_resolved: self.refs_resolved.dup(),
            refs_reason: self.refs_reason.dup(),
            refs_message: self.refs_message.dup(),
            programmed: self.programmed.dup(),
            generation: self.generation.dup(),
        }
    }
}

/// The state of a listener that nothing has been decided of.
pub open spec fn pending_listener_status() -> ListenerStatusView {
    ListenerStatusView {
        accepted: false,
        accepted_reason: "Pending"@,
        accepted_message: "Listener validation pending"@,
        programmed: false,
        programmed_reason: "Pending"@,
        programmed_message: "Listener programming pending"@,
        resolved_refs: false,
        resolved_refs_reason: "Pending"@,
        resolved_refs_message: "Reference resolution pending"@,
        conflicted: false,
        conflicted_reason: "NoConflicts"@,
        conflicted_message: "No conflicts detected"@,
        supported_kinds: Seq::empty(),
    }
}

impl Default for ListenerStatus {
    fn default() -> (r: Self)
        ensures
            r.deep_view() == pending_listener_status(),
    {
        let r = ListenerStatus {
            accepted: false,
            accepted_reason: "Pending".to_owned(),
            accepted_message: "Listener validation pending".to_owned(),
            programmed: false,
            programmed_reason: "Pending".to_owned(),
            programmed_message: "Listener programming pending".to_owned(),
            resolved_refs: false,
            resolved_refs_reason: "Pending".to_owned(),
            resolved_refs_message: "Reference resolution pending".to_owned(),
            conflicted: false,
            conflicted_reason: "NoConflicts".to_owned(),
            conflicted_message: "No conflicts detected".to_owned(),
            supported_kinds: Vec::new(),
        };
        assert(r.deep_view().supported_kinds =~= Seq::<JsonView>::empty());
        r
    }
}

// ---------------------------------------------------------------------------
// Supported kinds
// ---------------------------------------------------------------------------

/// A route kind as a status lists it.
pub open spec fn kind_json(kind: Seq<char>) -> JsonView {
    JsonView::Object(
        seq![
            ("group"@, JsonView::Text(GATEWAY_GROUP@)),
            ("kind"@, JsonView::Text(kind)),
        ],
    )
}

/// The route kind that a listener with this protocol serves.
pub open spec fn kind_of_protocol(protocol: Seq<char>) -> Option<Seq<char>> {
    if protocol == "HTTP"@ || protocol == "HTTPS"@ {
        Some("HTTPRoute"@)
    } else if protocol == "TLS"@ {
        Some("TLSRoute"@)
    } else if protocol == "TCP"@ {
        Some("TCPRoute"@)
    } else if protocol == "UDP"@ {
        Some("UDPRoute"@)
    } else {
        None
    }
}

/// The route kinds that a listener with this protocol serves, as a status
/// lists them.
pub open spec fn protocol_kinds(protocol: Seq<char>) -> Seq<JsonView> {
    match kind_of_protocol(protocol) {
        Some(kind) => seq![kind_json(kind)],
        None => Seq::empty(),
    }
}

/// A route kind as a status lists it.
pub fn route_kind_json(kind: &str) -> (r: Json)
    ensures
        r@ == kind_json(kind@),
{
    let members = vec![
        entry("group", Json::text(GATEWAY_GROUP)),
        entry("kind", Json::text(kind)),
    ];
    assert(members.deep_view() =~= kind_json(kind@)->Object_0);
    Json::object(members)
}

/// The route kinds that a listener with the protocol `protocol` serves; none
/// for a protocol that is not known.
pub fn supported_kinds_for_protocol(protocol: &str) -> (r: Vec<Json>)
    ensures
        r.deep_view() == protocol_kinds(protocol@),
{
    let kind = if str_eq(protocol, "HTTP") || str_eq(protocol, "HTTPS") {
        "HTTPRoute"
    } else if str_eq(protocol, "TLS") {
        "TLSRoute"
    } else if str_eq(protocol, "TCP") {
        "TCPRoute"
    } else if str_eq(protocol, "UDP") {
        "UDPRoute"
    } else {
        let none: Vec<Json> = Vec::new();
        assert(none.deep_view() =~= Seq::<JsonView>::empty());
        return none;
    };
    let r = vec![route_kind_json(kind)];
    assert(r.deep_view() =~= protocol_kinds(protocol@));
    r
}

// ---------------------------------------------------------------------------
// Transition times
// ---------------------------------------------------------------------------

impl ConditionView {
    /// Whether the condition is of this type and in this state.
    pub open spec fn is(self, type_: Seq<char>, status: Seq<char>, reason: Seq<char>) -> bool {
        self.type_ == type_ && self.status == status && self.reason == reason
    }
}

/// The time of the first condition of this type in this state.
pub open spec fn preserved_time(
    existing: Seq<ConditionView>,
    type_: Seq<char>,
    status: Seq<char>,
    reason: Seq<char>,
) -> Option<Seq<char>>
    decreases existing.len(),
{
    if existing.len() == 0 {
        None
    } else if existing.first().is(type_, status, reason) {
        Some(existing.first().last_transition_time)
    } else {
        preserved_time(existing.drop_first(), type_, status, reason)
    }
}

/// The transition time of a condition: that of the existing one where status
/// and reason have not changed, and `now` where they have.
pub fn transition_time(
    existing: &Vec<Condition>,
    type_: &str,
    new_status: &str,
    new_reason: &str,
    now: &str,
) -> (r: String)
    ensures
        r@ == text::or_text(
            preserved_time(existing.deep_view(), type_@, new_status@, new_reason@),
            now@,
        ),
{
    let ghost s = existing.deep_view();
    let mut i: usize = 0;
    assert(s.skip(0) =~= s);
    while i < existing.len()
        invariant
            i <= existing.len(),
            s == existing.deep_view(),
            preserved_time(s, type_@, new_status@, new_reason@) == preserved_time(
                s.skip(i as int),
                type_@,
                new_status@,
                new_reason@,
            ),
        decreases existing.len() - i,
    {
        let c = &existing[i];
        proof {
            assert(s.skip(i as int).first() == c.deep_view());
            assert(s.skip(i as int).drop_first() =~= s.skip(i + 1));
        }
        if str_eq(c.type_.as_str(), type_) && str_eq(c.status.as_str(), new_status) && str_eq(
            c.reason.as_str(),
            new_reason,
        ) {
            return c.last_transition_time.clone();
        }
        i += 1;
    }
    now.to_owned()
}

/// The time that a condition document keeps, if it is of this type and in this
/// state.
pub open spec fn kept_time(
    c: JsonView,
    type_: Seq<char>,
    status: Seq<char>,
    reason: Seq<char>,
) -> Option<Seq<char>> {
    if c.text_at("type"@) == Some(type_) && c.text_at("status"@) == Some(status) && c.text_at(
        "reason"@,
    ) == Some(reason) {
        c.text_at("lastTransitionTime"@)
    } else {
        None
    }
}

/// The time that the first of the condition documents keeps.
pub open spec fn preserved_time_json(
    existing: Seq<JsonView>,
    type_: Seq<char>,
    status: Seq<char>,
    reason: Seq<char>,
) -> Option<Seq<char>>
    decreases existing.len(),
{
    if existing.len() == 0 {
        None
    } else if kept_time(existing.first(), type_, status, reason) is Some {
        kept_time(existing.first(), type_, status, reason)
    } else {
        preserved_time_json(existing.drop_first(), type_, status, reason)
    }
}

/// The transition time of a condition, by the condition documents that exist:
/// kept where status and reason have not changed, and `now` where they have.
pub fn transition_time_json(
    existing: &Vec<Json>,
    type_: &str,
    new_status: &str,
    new_reason: &str,
    now: &str,
) -> (r: String)
    ensures
        r@ == text::or_text(
            preserved_time_json(existing.deep_view(), type_@, new_status@, new_reason@),
            now@,
        ),
{
    let ghost s = existing.deep_view();
    let mut i: usize = 0;
    assert(s.skip(0) =~= s);
    while i < existing.len()
        invariant
            i <= existing.len(),
            s == existing.deep_view(),
            preserved_time_json(s, type_@, new_status@, new_reason@) == preserved_time_json(
                s.skip(i as int),
                type_@,
                new_status@,
                new_reason@,
            ),
        decreases existing.len() - i,
    {
        let c = &existing[i];
        proof {
            assert(s.skip(i as int).first() == c@);
            assert(s.skip(i as int).drop_first() =~= s.skip(i + 1));
        }
        if c.text_is("type", type_) && c.text_is("status", new_status) && c.text_is(
            "reason",
            new_reason,
        ) {
            if let Some(v) = c.get("lastTransitionTime") {
                if let Some(t) = v.as_str() {
                    return t.to_owned();
                }
            }
        }
        i += 1;
    }
    now.to_owned()
}

/// The status text of a condition.
pub open spec fn status_text(ok: bool) -> Seq<char> {
    if ok {
        "True"@
    } else {
        "False"@
    }
}

/// An optional number, or null.
pub open spec fn number_or_null(n: Option<i64>) -> JsonView {
    match n {
        Some(n) => JsonView::Number(n as int),
        None => JsonView::Null,
    }
}

/// A condition document.
pub open spec fn condition_document(
    cond_type: Seq<char>,
    ok: bool,
    reason: Seq<char>,
    message: Seq<char>,
    existing: Seq<JsonView>,
    now: Seq<char>,
    generation: Option<i64>,
) -> JsonView {
    JsonView::Object(
        seq![
            ("type"@, JsonView::Text(cond_type)),
            ("status"@, JsonView::Text(status_text(ok))),
            ("reason"@, JsonView::Text(reason)),
            ("message"@, JsonView::Text(message)),
            (
                "lastTransitionTime"@,
                JsonView::Text(
                    text::or_text(
                        preserved_time_json(existing, cond_type, status_text(ok), reason),
                        now,
                    ),
                ),
            ),
            ("observedGeneration"@, number_or_null(generation)),
        ],
    )
}

fn generation_json(n: Option<i64>) -> (r: Json)
    ensures
        r@ == number_or_null(n),
{
    match n {
        Some(n) => Json::number(n),
        None => Json::Null,
    }
}

fn status_str(ok: bool) -> (r: &'static str)
    ensures
        r@ == status_text(ok),
{
    if ok {
        "True"
    } else {
        "False"
    }
}

/// A condition document that keeps the transition time of `existing` where
/// status and reason have not changed.
pub fn condition_json(
    cond_type: &str,
    ok: bool,
    reason: &str,
    message: &str,
    existing: &Vec<Json>,
    now: &str,
    generation: Option<i64>,
) -> (r: Json)
    ensures
        r@ == condition_document(
            cond_type@,
            ok,
            reason@,
            message@,
            existing.deep_view(),
            now@,
            generation,
        ),
{
    let status = status_str(ok);
    let time = transition_time_json(existing, cond_type, status, reason, now);
    let members = vec![
        entry("type", Json::text(cond_type)),
        entry("status", Json::text(status)),
        entry("reason", Json::text(reason)),
        entry("message", Json::text(message)),
        entry("lastTransitionTime", Json::Text(time)),
        entry("observedGeneration", generation_json(generation)),
    ];
    assert(members.deep_view() =~= condition_document(
        cond_type@,
        ok,
        reason@,
        message@,
        existing.deep_view(),
        now@,
        generation,
    )->Object_0);
    Json::object(members)
}

// ---------------------------------------------------------------------------
// Gateway status
// ---------------------------------------------------------------------------

impl GatewayConditionView {
    /// The reason that the condition reports: `met` where it holds.
    pub open spec fn reported_reason(self, met: Seq<char>) -> Seq<char> {
        if self.ok {
            met
        } else {
            self.reason
        }
    }

    /// The condition of this type, stamped. Where it holds, its reason is its
    /// type.
    pub open spec fn stamped(
        self,
        type_: Seq<char>,
        existing: Seq<ConditionView>,
        now: Seq<char>,
        generation: Option<i64>,
    ) -> ConditionView {
        let reason = self.reported_reason(type_);
        ConditionView {
            type_,
            status: status_text(self.ok),
            reason,
            message: self.message,
            last_transition_time: text::or_text(
                preserved_time(existing, type_, status_text(self.ok), reason),
                now,
            ),
            observed_generation: generation,
        }
    }
}

impl ConditionView {
    /// The condition as a document.
    pub open spec fn document(self) -> JsonView {
        let head = seq![
            ("type"@, JsonView::Text(self.type_)),
            ("status"@, JsonView::Text(self.status)),
            ("reason"@, JsonView::Text(self.reason)),
            ("message"@, JsonView::Text(self.message)),
            ("lastTransitionTime"@, JsonView::Text(self.last_transition_time)),
        ];
        JsonView::Object(
            match self.observed_generation {
                Some(n) => head.push(("observedGeneration"@, JsonView::Number(n as int))),
                None => head,
            },
        )
    }
}

/// The condition `type_` of a Gateway, with the transition time of the
/// existing one where it has not changed.
pub fn stamp_condition(
    cond: &GatewayCondition,
    type_: &str,
    existing: &Vec<Condition>,
    now: &str,
    generation: Option<i64>,
) -> (r: Condition)
    ensures
        r.deep_view() == cond.deep_view().stamped(
            type_@,
            existing.deep_view(),
            now@,
            generation,
        ),
{
    let status = status_str(cond.ok);
    let reason = if cond.ok {
        type_
    } else {
        cond.reason.as_str()
    };
    Condition {
        type_: type_.to_owned(),
        status: status.to_owned(),
        reason: reason.to_owned(),
        message: cond.message.clone(),
        last_transition_time: transition_time(existing, type_, status, reason, now),
        observed_generation: generation,
    }
}

fn condition_to_json(c: &Condition) -> (r: Json)
    ensures
        r@ == c.deep_view().document(),
{
    let mut members = vec![
        entry("type", Json::text(c.type_.as_str())),
        entry("status", Json::text(c.status.as_str())),
        entry("reason", Json::text(c.reason.as_str())),
        entry("message", Json::text(c.message.as_str())),
        entry("lastTransitionTime", Json::text(c.last_transition_time.as_str())),
    ];
    if let Some(n) = c.observed_generation {
        members.push(entry("observedGeneration", Json::number(n)));
    }
    assert(members.deep_view() =~= c.deep_view().document()->Object_0);
    Json::object(members)
}

/// The name and the conditions of a listener document.
pub open spec fn listener_conditions(l: JsonView) -> Option<(Seq<char>, Seq<JsonView>)> {
    match (l.text_at("name"@), l.get("conditions"@)) {
        (Some(name), Some(c)) => match c.as_list() {
            Some(conditions) => Some((name, conditions)),
            None => None,
        },
        _ => None,
    }
}

/// The conditions of each listener that has any, by name.
pub open spec fn existing_conditions(listeners: Seq<JsonView>) -> Map<Seq<char>, Seq<JsonView>> {
    table::insert_all(listeners.filter_map(|l: JsonView| listener_conditions(l)))
}

fn listener_conditions_of(l: &Json) -> (r: Option<(String, Vec<Json>)>)
    ensures
        r.deep_view() == listener_conditions(l@),
{
    let name = match l.get("name") {
        Some(v) => match v.as_str() {
            Some(s) => s,
            None => return None,
        },
        None => return None,
    };
    match l.get("conditions") {
        Some(c) => match c.as_array() {
            Some(v) => Some((name.to_owned(), v.dup())),
            None => None,
        },
        None => None,
    }
}

/// What is known of the listeners of a Gateway.
pub struct ListenerFacts {
    pub counts: Map<Seq<char>, i32>,
    pub statuses: Map<Seq<char>, ListenerStatusView>,
    pub existing: Map<Seq<char>, Seq<JsonView>>,
    pub now: Seq<char>,
    pub generation: Option<i64>,
}

/// The status document of a listener.
pub open spec fn listener_document(l: GatewayListenersView, facts: ListenerFacts) -> JsonView {
    let ls = if facts.statuses.dom().contains(l.name) {
        facts.statuses[l.name]
    } else {
        pending_listener_status()
    };
    let existing = if facts.existing.dom().contains(l.name) {
        facts.existing[l.name]
    } else {
        Seq::empty()
    };
    let now = facts.now;
    let generation = facts.generation;
    JsonView::Object(
        seq![
            ("name"@, JsonView::Text(l.name)),
            (
                "attachedRoutes"@,
                JsonView::Number(
                    if facts.counts.dom().contains(l.name) {
                        facts.counts[l.name] as int
                    } else {
                        0
                    },
                ),
            ),
            (
                "supportedKinds"@,
                JsonView::Array(
                    if ls.supported_kinds.len() == 0 && ls.resolved_refs {
                        protocol_kinds(l.protocol)
                    } else {
                        ls.supported_kinds
                    },
                ),
            ),
            (
                "conditions"@,
                JsonView::Array(
                    seq![
                        condition_document(
                            "Accepted"@,
                            ls.accepted,
                            ls.accepted_reason,
                            ls.accepted_message,
                            existing,
                            now,
                            generation,
                        ),
                        condition_document(
                            "Programmed"@,
                            ls.programmed,
                            ls.programmed_reason,
                            ls.programmed_message,
                            existing,
                            now,
                            generation,
                        ),
                        condition_document(
                            "ResolvedRefs"@,
                            ls.resolved_refs,
                            ls.resolved_refs_reason,
                            ls.resolved_refs_message,
                            existing,
                            now,
                            generation,
                        ),
                        condition_document(
                            "Conflicted"@,
                            ls.conflicted,
                            ls.conflicted_reason,
                            ls.conflicted_message,
                            existing,
                            now,
                            generation,
                        ),
                    ],
                ),
            ),
        ],
    )
}

fn listener_to_json(
    l: &GatewayListeners,
    counts: &Table<String, i32>,
    statuses: &Table<String, ListenerStatus>,
    existing: &Table<String, Vec<Json>>,
    now: &str,
    generation: Option<i64>,
) -> (r: Json)
    ensures
        r@ == listener_document(
            l.deep_view(),
            (ListenerFacts {
                counts: counts.deep_view(),
                statuses: statuses.deep_view(),
                existing: existing.deep_view(),
                now: now@,
                generation,
            }),
        ),
{
    let ghost facts = ListenerFacts {
        counts: counts.deep_view(),
        statuses: statuses.deep_view(),
        existing: existing.deep_view(),
        now: now@,
        generation,
    };
    let attached: i32 = match counts.get(&l.name) {
        Some(n) => *n,
        None => 0,
    };
    let ls = match statuses.get(&l.name) {
        Some(ls) => ls.dup(),
        None => ListenerStatus::default(),
    };
    let econds: Vec<Json> = match existing.get(&l.name) {
        Some(v) => v.dup(),
        None => Vec::new(),
    };
    proof {
        if !existing.deep_view().dom().contains(l.name@) {
            assert(econds.deep_view() =~= Seq::<JsonView>::empty());
        }
    }
    let kinds = if ls.supported_kinds.len() == 0 && ls.resolved_refs {
        supported_kinds_for_protocol(l.protocol.as_str())
    } else {
        ls.supported_kinds.dup()
    };
    let conditions = vec![
        condition_json(
            "Accepted",
            ls.accepted,
            ls.accepted_reason.as_str(),
            ls.accepted_message.as_str(),
            &econds,
            now,
            generation,
        ),
        condition_json(
            "Programmed",
            ls.programmed,
            ls.programmed_reason.as_str(),
            ls.programmed_message.as_str(),
            &econds,
            now,
            generation,
        ),
        condition_json(
            "ResolvedRefs",
            ls.resolved_refs,
            ls.resolved_refs_reason.as_str(),
            ls.resolved_refs_message.as_str(),
            &econds,
            now,
            generation,
        ),
        condition_json(
            "Conflicted",
            ls.conflicted,
            ls.conflicted_reason.as_str(),
            ls.conflicted_message.as_str(),
            &econds,
            now,
            generation,
        ),
    ];
    let ghost want = listener_document(l.deep_view(), facts)->Object_0;
    proof {
        assert(conditions.deep_view() =~= want[3].1->Array_0);
    }
    let members = vec![
        entry("name", Json::text(l.name.as_str())),
        entry("attachedRoutes", Json::number(attached as i64)),
        entry("supportedKinds", Json::array(kinds)),
        entry("conditions", Json::array(conditions)),
    ];
    assert(members.deep_view() =~= want);
    Json::object(members)
}

/// An address as a status lists it.
pub open spec fn address_json(type_: Seq<char>, value: JsonView) -> JsonView {
    JsonView::Object(seq![("type"@, JsonView::Text(type_)), ("value"@, value)])
}

impl GatewayAddressesView {
    /// The requested address as the status reports it: a network by the local
    /// address on it, an IP address where this pod has it or knows of none,
    /// and a host name as it is.
    pub open spec fn reported(self, usable: UsableAddressesView) -> Option<JsonView> {
        let t = text::or_text(self.type_, "IPAddress"@);
        let v = text::or_text(self.value, ""@);
        if t == NETWORK_ADDRESS_TYPE@ {
            if usable.network_ips.dom().contains(v) {
                Some(address_json("IPAddress"@, JsonView::Text(usable.network_ips[v])))
            } else {
                None
            }
        } else if t == "IPAddress"@ {
            if usable.spec_is_empty() || usable.known().contains(v) {
                Some(address_json("IPAddress"@, JsonView::Text(v)))
            } else {
                None
            }
        } else if t == "Hostname"@ {
            Some(
                address_json(
                    "Hostname"@,
                    match self.value {
                        Some(s) => JsonView::Text(s),
                        None => JsonView::Null,
                    },
                ),
            )
        } else {
            None
        }
    }
}

/// The addresses that the status of a Gateway lists: those of its requests
/// that can be reported or, where it requests none, the preferred one.
pub open spec fn reported_addresses(gateway: GatewayView, usable: UsableAddressesView) -> Seq<
    JsonView,
> {
    match gateway.spec.addresses {
        Some(addrs) if addrs.len() > 0 => addrs.filter_map(
            |a: GatewayAddressesView| a.reported(usable),
        ),
        _ => seq![address_json("IPAddress"@, JsonView::Text(usable.spec_preferred_ip()))],
    }
}

fn build_address(type_: &str, value: Json) -> (r: Json)
    ensures
        r@ == address_json(type_@, value@),
{
    let members = vec![entry("type", Json::text(type_)), entry("value", value)];
    assert(members.deep_view() =~= address_json(type_@, value@)->Object_0);
    Json::object(members)
}

fn report_address(a: &GatewayAddresses, usable: &UsableAddresses) -> (r: Option<Json>)
    ensures
        r.deep_view() == a.deep_view().reported(usable.deep_view()),
{
    let t = opt_or(&a.type_, "IPAddress");
    let v = opt_or(&a.value, "");
    if str_eq(t, NETWORK_ADDRESS_TYPE) {
        let name = v.to_owned();
        match usable.network_ips.get(&name) {
            Some(ip) => Some(build_address("IPAddress", Json::text(ip.as_str()))),
            None => None,
        }
    } else if str_eq(t, "IPAddress") {
        if usable.is_empty() || usable.knows(v) {
            Some(build_address("IPAddress", Json::text(v)))
        } else {
            None
        }
    } else if str_eq(t, "Hostname") {
        let value = match &a.value {
            Some(s) => Json::text(s.as_str()),
            None => Json::Null,
        };
        Some(build_address("Hostname", value))
    } else {
        None
    }
}

/// The addresses that the status of a Gateway lists.
pub fn status_addresses(gateway: &Gateway, usable: &UsableAddresses) -> (r: Vec<Json>)
    ensures
        r.deep_view() == reported_addresses(gateway.deep_view(), usable.deep_view()),
{
    if let Some(addrs) = &gateway.spec.addresses {
        if addrs.len() > 0 {
            let ghost g = |a: GatewayAddressesView| a.reported(usable.deep_view());
            return filter_map_vec(
                addrs,
                |a: &GatewayAddresses| -> (o: Option<Json>)
                    ensures
                        o.deep_view() == g(a.deep_view())
                    { report_address(a, usable) },
                Ghost(g),
            );
        }
    }
    let r = vec![build_address("IPAddress", Json::text(usable.preferred_ip()))];
    assert(r.deep_view() =~= reported_addresses(gateway.deep_view(), usable.deep_view()));
    r
}

/// Everything that the status document of a Gateway is made of.
pub struct GatewayStatusView {
    pub name: Seq<char>,
    pub namespace: Seq<char>,
    pub gateway: GatewayView,
    pub accepted: GatewayConditionView,
    pub programmed: GatewayConditionView,
    pub counts: Map<Seq<char>, i32>,
    pub statuses: Map<Seq<char>, ListenerStatusView>,
    pub usable: UsableAddressesView,
    pub existing_conditions: Seq<ConditionView>,
    pub existing_listeners: Seq<JsonView>,
    pub now: Seq<char>,
    pub now_seconds: Seq<char>,
}

impl GatewayStatusView {
    pub open spec fn listener_facts(self) -> ListenerFacts {
        ListenerFacts {
            counts: self.counts,
            statuses: self.statuses,
            existing: existing_conditions(self.existing_listeners),
            now: self.now_seconds,
            generation: self.gateway.metadata.generation,
        }
    }

    /// The `status` member. Conditions and addresses are left out where
    /// somebody else manages them.
    pub open spec fn inner(self, manage_conditions: bool) -> JsonView {
        let facts = self.listener_facts();
        let listeners = (
            "listeners"@,
            JsonView::Array(
                self.gateway.spec.listeners.map_values(
                    |l: GatewayListenersView| listener_document(l, facts),
                ),
            ),
        );
        let generation = self.gateway.metadata.generation;
        if manage_conditions {
            JsonView::Object(
                seq![
                    listeners,
                    (
                        "conditions"@,
                        JsonView::Array(
                            seq![
                                self.accepted.stamped(
                                    "Accepted"@,
                                    self.existing_conditions,
                                    self.now,
                                    generation,
                                ).document(),
                                self.programmed.stamped(
                                    "Programmed"@,
                                    self.existing_conditions,
                                    self.now,
                                    generation,
                                ).document(),
                            ],
                        ),
                    ),
                    ("addresses"@, JsonView::Array(reported_addresses(self.gateway, self.usable))),
                ],
            )
        } else {
            JsonView::Object(seq![listeners])
        }
    }

    /// The whole document.
    pub open spec fn document(self, manage_conditions: bool) -> JsonView {
        JsonView::Object(
            seq![
                ("apiVersion"@, JsonView::Text("gateway.networking.k8s.io/v1"@)),
                ("kind"@, JsonView::Text("Gateway"@)),
                (
                    "metadata"@,
                    JsonView::Object(
                        seq![
                            ("name"@, JsonView::Text(self.name)),
                            ("namespace"@, JsonView::Text(self.namespace)),
                        ],
                    ),
                ),
                ("status"@, self.inner(manage_conditions)),
            ],
        )
    }
}

/// The status of a Gateway before it is written.
pub struct GatewayStatus<'a> {
    pub name: &'a str,
    pub namespace: &'a str,
    pub gateway: &'a Gateway,
    pub accepted: &'a GatewayCondition,
    pub programmed: &'a GatewayCondition,
    /// The number of routes attached to each listener.
    pub counts: &'a Table<String, i32>,
    pub statuses: &'a Table<String, ListenerStatus>,
    pub usable: &'a UsableAddresses,
    /// The conditions that the Gateway has.
    pub existing_conditions: &'a Vec<Condition>,
    /// The listener documents that its status has.
    pub existing_listeners: &'a Vec<Json>,
    /// The time, as Gateway conditions write it.
    pub now: &'a str,
    /// The time to the second, as listener conditions write it.
    pub now_seconds: &'a str,
}

impl<'a> View for GatewayStatus<'a> {
    type V = GatewayStatusView;

    open spec fn view(&self) -> GatewayStatusView {
        GatewayStatusView {
            name: self.name@,
            namespace: self.namespace@,
            gateway: self.gateway.deep_view(),
            accepted: self.accepted.deep_view(),
            programmed: self.programmed.deep_view(),
            counts: self.counts.deep_view(),
            statuses: self.statuses.deep_view(),
            usable: self.usable.deep_view(),
            existing_conditions: self.existing_conditions.deep_view(),
            existing_listeners: self.existing_listeners.deep_view(),
            now: self.now@,
            now_seconds: self.now_seconds@,
        }
    }
}

/// The status document of a Gateway. The state of the listeners is always
/// written; conditions and addresses only where `manage_conditions` says that
/// nobody else does.
pub fn gateway_status_document(s: &GatewayStatus, manage_conditions: bool) -> (r: Json)
    ensures
        r@ == s@.document(manage_conditions),
{
    let generation = s.gateway.metadata.generation;
    let known = filter_map_vec(
        s.existing_listeners,
        listener_conditions_of,
        Ghost(|l: JsonView| listener_conditions(l)),
    );
    let existing = table_of(&known);
    let ghost facts = s@.listener_facts();
    assert(existing.deep_view() == facts.existing);
    let ghost g = |l: GatewayListenersView| listener_document(l, facts);
    let listeners = map_vec(
        &s.gateway.spec.listeners,
        |l: &GatewayListeners| -> (o: Json)
            ensures
                o.deep_view() == g(l.deep_view())
            {
                listener_to_json(l, s.counts, s.statuses, &existing, s.now_seconds, generation)
            },
        Ghost(g),
    );
    let ghost want = s@.inner(manage_conditions)->Object_0;
    let mut inner = vec![entry("listeners", Json::array(listeners))];
    if manage_conditions {
        let accepted = stamp_condition(
            s.accepted,
            "Accepted",
            s.existing_conditions,
            s.now,
            generation,
        );
        let programmed = stamp_condition(
            s.programmed,
            "Programmed",
            s.existing_conditions,
            s.now,
            generation,
        );
        let conditions = vec![condition_to_json(&accepted), condition_to_json(&programmed)];
        assert(conditions.deep_view() =~= want[1].1->Array_0);
        inner.push(entry("conditions", Json::array(conditions)));
        inner.push(entry("addresses", Json::array(status_addresses(s.gateway, s.usable))));
    }
    assert(inner.deep_view() =~= want);
    let metadata = vec![
        entry("name", Json::text(s.name)),
        entry("namespace", Json::text(s.namespace)),
    ];
    let ghost doc = s@.document(manage_conditions)->Object_0;
    assert(metadata.deep_view() =~= doc[2].1->Object_0);
    let members = vec![
        entry("apiVersion", Json::text("gateway.networking.k8s.io/v1")),
        entry("kind", Json::text("Gateway")),
        entry("metadata", Json::object(metadata)),
        entry("status", Json::object(inner)),
    ];
    assert(members.deep_view() =~= doc);
    Json::object(members)
}

// ---------------------------------------------------------------------------
// Route status
// ---------------------------------------------------------------------------

/// Whether a parent document is on this reference: Gateway, section and port
/// all have to agree.
pub open spec fn is_on_reference(
    parent: JsonView,
    gateway_name: Seq<char>,
    gateway_namespace: Seq<char>,
    section_name: Option<Seq<char>>,
    port: Option<i32>,
) -> bool {
    match parent.get("parentRef"@) {
        None => false,
        Some(pref) => {
            &&& pref.text_at("name"@) == Some(gateway_name)
            &&& pref.text_at("namespace"@) == Some(gateway_namespace)
            &&& match section_name {
                Some(s) => pref.text_at("sectionName"@) == Some(s),
                None => pref.get("sectionName"@) is None,
            }
            &&& match port {
                Some(p) => pref.get("port"@) == Some(JsonView::Number(p as int)),
                None => pref.get("port"@) is None,
            }
        },
    }
}

/// The conditions of a document; none where it lists none.
pub open spec fn conditions_of(parent: JsonView) -> Seq<JsonView> {
    match parent.get("conditions"@) {
        Some(c) => match c.as_list() {
            Some(v) => v,
            None => Seq::empty(),
        },
        None => Seq::empty(),
    }
}

/// The conditions of the first parent document that is on the reference.
pub open spec fn reference_conditions(
    existing: Seq<JsonView>,
    gateway_name: Seq<char>,
    gateway_namespace: Seq<char>,
    section_name: Option<Seq<char>>,
    port: Option<i32>,
) -> Seq<JsonView>
    decreases existing.len(),
{
    if existing.len() == 0 {
        Seq::empty()
    } else if is_on_reference(
        existing.first(),
        gateway_name,
        gateway_namespace,
        section_name,
        port,
    ) {
        conditions_of(existing.first())
    } else {
        reference_conditions(
            existing.drop_first(),
            gateway_name,
            gateway_namespace,
            section_name,
            port,
        )
    }
}

fn document_is_on_reference(
    parent: &Json,
    gateway_name: &str,
    gateway_namespace: &str,
    section_name: &Option<String>,
    port: Option<i32>,
) -> (r: bool)
    ensures
        r == is_on_reference(
            parent@,
            gateway_name@,
            gateway_namespace@,
            section_name.deep_view(),
            port,
        ),
{
    match parent.get("parentRef") {
        None => false,
        Some(pref) => {
            let section_match = match section_name {
                Some(s) => pref.text_is("sectionName", s.as_str()),
                None => pref.get("sectionName").is_none(),
            };
            let port_match = match port {
                Some(p) => match pref.get("port") {
                    Some(v) => match v.as_i64() {
                        Some(n) => n == p as i64,
                        None => false,
                    },
                    None => false,
                },
                None => pref.get("port").is_none(),
            };
            pref.text_is("name", gateway_name) && pref.text_is("namespace", gateway_namespace)
                && section_match && port_match
        },
    }
}

/// The conditions that a route's status holds for a parent reference. The
/// whole identity of the reference counts: two references may differ in the
/// port alone.
pub fn find_existing_parent_conditions(
    existing_parents: &Vec<Json>,
    gateway_name: &str,
    gateway_namespace: &str,
    section_name: &Option<String>,
    port: Option<i32>,
) -> (r: Vec<Json>)
    ensures
        r.deep_view() == reference_conditions(
            existing_parents.deep_view(),
            gateway_name@,
            gateway_namespace@,
            section_name.deep_view(),
            port,
        ),
{
    let ghost s = existing_parents.deep_view();
    let ghost n = gateway_name@;
    let ghost ns = gateway_namespace@;
    let ghost sec = section_name.deep_view();
    let none: Vec<Json> = Vec::new();
    assert(none.deep_view() =~= Seq::<JsonView>::empty());
    let mut i: usize = 0;
    assert(s.skip(0) =~= s);
    while i < existing_parents.len()
        invariant
            i <= existing_parents.len(),
            s == existing_parents.deep_view(),
            n == gateway_name@,
            ns == gateway_namespace@,
            sec == section_name.deep_view(),
            none.deep_view() == Seq::<JsonView>::empty(),
            reference_conditions(s, n, ns, sec, port) == reference_conditions(
                s.skip(i as int),
                n,
                ns,
                sec,
                port,
            ),
        decreases existing_parents.len() - i,
    {
        let parent = &existing_parents[i];
        proof {
            assert(s.skip(i as int).first() == parent@);
            assert(s.skip(i as int).drop_first() =~= s.skip(i + 1));
        }
        if document_is_on_reference(parent, gateway_name, gateway_namespace, section_name, port) {
            if let Some(c) = parent.get("conditions") {
                if let Some(v) = c.as_array() {
                    return v.dup();
                }
            }
            return none;
        }
        i += 1;
    }
    none
}

impl RouteParentStatusView {
    /// Whether a parent document was written by this controller for this
    /// Gateway.
    pub open spec fn owns(self, doc: JsonView) -> bool {
        &&& doc.text_at("controllerName"@) == Some(self.controller_name)
        &&& doc.get("parentRef"@) is Some
        &&& doc.get("parentRef"@)->0.text_at("name"@) == Some(self.gateway_name)
        &&& doc.get("parentRef"@)->0.text_at("namespace"@) == Some(self.gateway_namespace)
    }

    /// The reference as its document names it.
    pub open spec fn reference_json(self) -> JsonView {
        let head = seq![
            ("group"@, JsonView::Text(GATEWAY_GROUP@)),
            ("kind"@, JsonView::Text("Gateway"@)),
            ("name"@, JsonView::Text(self.gateway_name)),
            ("namespace"@, JsonView::Text(self.gateway_namespace)),
        ];
        let section = match self.section_name {
            Some(s) => head.push(("sectionName"@, JsonView::Text(s))),
            None => head,
        };
        JsonView::Object(
            match self.port {
                Some(p) => section.push(("port"@, JsonView::Number(p as int))),
                None => section,
            },
        )
    }

    /// The parent document of the reference.
    pub open spec fn document(self, existing: Seq<JsonView>, now: Seq<char>) -> JsonView {
        let conds = reference_conditions(
            existing,
            self.gateway_name,
            self.gateway_namespace,
            self.section_name,
            self.port,
        );
        JsonView::Object(
            seq![
                ("controllerName"@, JsonView::Text(self.controller_name)),
                ("parentRef"@, self.reference_json()),
                (
                    "conditions"@,
                    JsonView::Array(
                        seq![
                            condition_document(
                                "Accepted"@,
                                self.accepted,
                                self.accepted_reason,
                                self.message,
                                conds,
                                now,
                                self.generation,
                            ),
                            condition_document(
                                "ResolvedRefs"@,
                                self.refs_resolved,
                                self.refs_reason,
                                self.refs_message,
                                conds,
                                now,
                                self.generation,
                            ),
                            condition_document(
                                "Programmed"@,
                                self.programmed,
                                if self.programmed {
                                    "Programmed"@
                                } else {
                                    "Invalid"@
                                },
                                if self.programmed {
                                    "Route programmed into data plane"@
                                } else {
                                    "Route not yet programmed"@
                                },
                                conds,
                                now,
                                self.generation,
                            ),
                        ],
                    ),
                ),
            ],
        )
    }
}

/// Whether a parent document is one of ours.
pub open spec fn ours(parents: Seq<RouteParentStatusView>, doc: JsonView) -> bool {
    exists|i: int| 0 <= i < parents.len() && (#[trigger] parents[i]).owns(doc)
}

/// The parent documents of a route: those of others as they are, then ours.
pub open spec fn merged_parents(
    existing: Seq<JsonView>,
    parents: Seq<RouteParentStatusView>,
    new_entries: Seq<JsonView>,
) -> Seq<JsonView> {
    existing.filter(|e: JsonView| !ours(parents, e)) + new_entries
}

fn parent_owns(p: &RouteParentStatus, doc: &Json) -> (r: bool)
    ensures
        r == p.deep_view().owns(doc@),
{
    match doc.get("parentRef") {
        None => false,
        Some(pref) => doc.text_is("controllerName", p.controller_name.as_str()) && pref.text_is(
            "name",
            p.gateway_name.as_str(),
        ) && pref.text_is("namespace", p.gateway_namespace.as_str()),
    }
}

fn is_ours(parents: &Vec<RouteParentStatus>, doc: &Json) -> (r: bool)
    ensures
        r == ours(parents.deep_view(), doc@),
{
    let ghost s = parents.deep_view();
    let mut i: usize = 0;
    while i < parents.len()
        invariant
            i <= parents.len(),
            s == parents.deep_view(),
            forall|j: int| 0 <= j < i ==> !(#[trigger] s[j]).owns(doc@),
        decreases parents.len() - i,
    {
        assert(s[i as int] == parents@[i as int].deep_view());
        if parent_owns(&parents[i], doc) {
            return true;
        }
        i += 1;
    }
    false
}

/// The parent documents of a route: what others wrote stays as it is, what
/// this controller wrote for this Gateway gives way to `new_entries`.
pub fn merge_parent_entries(
    existing: &Vec<Json>,
    parents: &Vec<RouteParentStatus>,
    new_entries: Vec<Json>,
) -> (r: Vec<Json>)
    ensures
        r.deep_view() == merged_parents(
            existing.deep_view(),
            parents.deep_view(),
            new_entries.deep_view(),
        ),
{
    let ghost g = |e: JsonView| !ours(parents.deep_view(), e);
    let mut r = filter_vec(
        existing,
        |e: &Json| -> (o: bool)
            ensures
                o == g(e.deep_view())
            { !is_ours(parents, e) },
        Ghost(g),
    );
    let ghost kept = r.deep_view();
    let mut added = new_entries;
    let ghost new = added.deep_view();
    r.append(&mut added);
    assert(r.deep_view() =~= kept + new);
    r
}

fn parent_to_json(p: &RouteParentStatus, existing: &Vec<Json>, now: &str) -> (r: Json)
    ensures
        r@ == p.deep_view().document(existing.deep_view(), now@),
{
    let mut pref = vec![
        entry("group", Json::text(GATEWAY_GROUP)),
        entry("kind", Json::text("Gateway")),
        entry("name", Json::text(p.gateway_name.as_str())),
        entry("namespace", Json::text(p.gateway_namespace.as_str())),
    ];
    if let Some(s) = &p.section_name {
        pref.push(entry("sectionName", Json::text(s.as_str())));
    }
    if let Some(port) = p.port {
        pref.push(entry("port", Json::number(port as i64)));
    }
    assert(pref.deep_view() =~= p.deep_view().reference_json()->Object_0);
    let conds = find_existing_parent_conditions(
        existing,
        p.gateway_name.as_str(),
        p.gateway_namespace.as_str(),
        &p.section_name,
        p.port,
    );
    let programmed_reason = if p.programmed {
        "Programmed"
    } else {
        "Invalid"
    };
    let programmed_message = if p.programmed {
        "Route programmed into data plane"
    } else {
        "Route not yet programmed"
    };
    let conditions = vec![
        condition_json(
            "Accepted",
            p.accepted,
            p.accepted_reason.as_str(),
            p.message.as_str(),
            &conds,
            now,
            p.generation,
        ),
        condition_json(
            "ResolvedRefs",
            p.refs_resolved,
            p.refs_reason.as_str(),
            p.refs_message.as_str(),
            &conds,
            now,
            p.generation,
        ),
        condition_json(
            "Programmed",
            p.programmed,
            programmed_reason,
            programmed_message,
            &conds,
            now,
            p.generation,
        ),
    ];
    let ghost want = p.deep_view().document(existing.deep_view(), now@)->Object_0;
    assert(conditions.deep_view() =~= want[2].1->Array_0);
    let members = vec![
        entry("controllerName", Json::text(p.controller_name.as_str())),
        entry("parentRef", Json::object(pref)),
        entry("conditions", Json::array(conditions)),
    ];
    assert(members.deep_view() =~= want);
    Json::object(members)
}

/// The parent documents that the status of a route is to hold.
pub open spec fn route_parents(
    parents: Seq<RouteParentStatusView>,
    existing: Seq<JsonView>,
    now: Seq<char>,
) -> Seq<JsonView> {
    merged_parents(
        existing,
        parents,
        parents.map_values(|p: RouteParentStatusView| p.document(existing, now)),
    )
}

/// The status document of a route: what others wrote stays, and every parent
/// reference gets a document that keeps its transition times.
pub fn route_status_document(
    parents: &Vec<RouteParentStatus>,
    existing_parents: &Vec<Json>,
    now: &str,
) -> (r: Json)
    ensures
        r@ == JsonView::Object(
            seq![
                (
                    "status"@,
                    JsonView::Object(
                        seq![
                            (
                                "parents"@,
                                JsonView::Array(
                                    route_parents(
                                        parents.deep_view(),
                                        existing_parents.deep_view(),
                                        now@,
                                    ),
                                ),
                            ),
                        ],
                    ),
                ),
            ],
        ),
{
    let ghost g = |p: RouteParentStatusView| p.document(existing_parents.deep_view(), now@);
    let entries = map_vec(
        parents,
        |p: &RouteParentStatus| -> (o: Json)
            ensures
                o.deep_view() == g(p.deep_view())
            { parent_to_json(p, existing_parents, now) },
        Ghost(g),
    );
    let merged = merge_parent_entries(existing_parents, parents, entries);
    assert(merged.deep_view() == route_parents(
        parents.deep_view(),
        existing_parents.deep_view(),
        now@,
    ));
    let ghost list = merged.deep_view();
    let inner = vec![entry("parents", Json::array(merged))];
    assert(inner.deep_view() =~= seq![("parents"@, JsonView::Array(list))]);
    let ghost i = inner.deep_view();
    let members = vec![entry("status", Json::object(inner))];
    assert(members.deep_view() =~= seq![("status"@, JsonView::Object(i))]);
    Json::object(members)
}

// ---------------------------------------------------------------------------
// Laws
// ---------------------------------------------------------------------------

/// A condition keeps its transition time exactly if one of its type in its
/// state was there; a change of status or reason is stamped with the present.
pub proof fn law_transition_time_kept(
    existing: Seq<ConditionView>,
    type_: Seq<char>,
    status: Seq<char>,
    reason: Seq<char>,
)
    ensures
        preserved_time(existing, type_, status, reason) is Some <==> exists|i: int|
            0 <= i < existing.len() && (#[trigger] existing[i]).is(type_, status, reason),
    decreases existing.len(),
{
    if existing.len() > 0 {
        let rest = existing.drop_first();
        law_transition_time_kept(rest, type_, status, reason);
        if existing.first().is(type_, status, reason) {
            assert(existing[0].is(type_, status, reason));
        } else {
            if exists|i: int| 0 <= i < rest.len() && (#[trigger] rest[i]).is(type_, status, reason) {
                let i = choose|i: int|
                    0 <= i < rest.len() && (#[trigger] rest[i]).is(type_, status, reason);
                assert(existing[i + 1].is(type_, status, reason));
            }
            if exists|i: int|
                0 <= i < existing.len() && (#[trigger] existing[i]).is(type_, status, reason) {
                let i = choose|i: int|
                    0 <= i < existing.len() && (#[trigger] existing[i]).is(type_, status, reason);
                assert(rest[i - 1].is(type_, status, reason));
            }
        }
    }
}

/// Writing the conditions of a Gateway again in the same state keeps them as
/// they are, whatever the time is by then.
pub proof fn law_gateway_conditions_stable(
    accepted: GatewayConditionView,
    programmed: GatewayConditionView,
    existing: Seq<ConditionView>,
    now: Seq<char>,
    later: Seq<char>,
    generation: Option<i64>,
)
    ensures
        ({
            let written = seq![
                accepted.stamped("Accepted"@, existing, now, generation),
                programmed.stamped("Programmed"@, existing, now, generation),
            ];
            written == seq![
                accepted.stamped("Accepted"@, written, later, generation),
                programmed.stamped("Programmed"@, written, later, generation),
            ]
        }),
{
    reveal_strlit("Accepted");
    reveal_strlit("Programmed");
    assert("Accepted"@.len() != "Programmed"@.len());
    let a = accepted.stamped("Accepted"@, existing, now, generation);
    let p = programmed.stamped("Programmed"@, existing, now, generation);
    let written = seq![a, p];
    assert(written.first() == a);
    assert(a.is("Accepted"@, status_text(accepted.ok), accepted.reported_reason("Accepted"@)));
    assert(!a.is("Programmed"@, status_text(programmed.ok), programmed.reported_reason("Programmed"@)));
    assert(written.drop_first() =~= seq![p]);
    assert(seq![p].first() == p);
    reveal_with_fuel(preserved_time, 3);
}

/// What others wrote survives a merge, in place and order; nothing of ours
/// does but the new entries.
pub proof fn law_merge_keeps_foreign_entries(
    existing: Seq<JsonView>,
    parents: Seq<RouteParentStatusView>,
    new_entries: Seq<JsonView>,
    e: JsonView,
)
    ensures
        existing.contains(e) && !ours(parents, e) ==> merged_parents(
            existing,
            parents,
            new_entries,
        ).contains(e),
        merged_parents(existing, parents, new_entries).contains(e) && ours(parents, e)
            ==> new_entries.contains(e),
        merged_parents(existing, parents, new_entries).contains(e) ==> existing.contains(e)
            || new_entries.contains(e),
{
    let p = |x: JsonView| !ours(parents, x);
    let kept = existing.filter(p);
    let merged = merged_parents(existing, parents, new_entries);
    existing.filter_lemma(p);
    assert(merged == kept + new_entries);
    if existing.contains(e) && !ours(parents, e) {
        let i = choose|i: int| 0 <= i < existing.len() && existing[i] == e;
        assert(p(existing[i]));
        assert(kept.contains(existing[i]));
        let k = choose|k: int| 0 <= k < kept.len() && kept[k] == e;
        assert(merged[k] == e);
    }
    if merged.contains(e) {
        let i = choose|i: int| 0 <= i < merged.len() && merged[i] == e;
        if i < kept.len() {
            assert(p(kept[i]));
            existing.lemma_filter_contains_rev(p, e);
        } else {
            assert(new_entries[i - kept.len()] == e);
        }
    }
}

/// Merging again with the same entries changes nothing, where the new entries
/// are ours.
pub proof fn law_merge_idempotent(
    existing: Seq<JsonView>,
    parents: Seq<RouteParentStatusView>,
    new_entries: Seq<JsonView>,
)
    requires
        forall|i: int| 0 <= i < new_entries.len() ==> ours(parents, #[trigger] new_entries[i]),
    ensures
        merged_parents(
            merged_parents(existing, parents, new_entries),
            parents,
            new_entries,
        ) == merged_parents(existing, parents, new_entries),
{
    let p = |x: JsonView| !ours(parents, x);
    let kept = existing.filter(p);
    existing.filter_lemma(p);
    Seq::filter_distributes_over_add(kept, new_entries, p);
    lemma_filter_all(kept, p);
    lemma_filter_none(new_entries, p);
    assert(merged_parents(existing, parents, new_entries) == kept + new_entries);
    assert(kept + Seq::<JsonView>::empty() =~= kept);
}

proof fn lemma_filter_all(s: Seq<JsonView>, p: spec_fn(JsonView) -> bool)
    requires
        forall|i: int| 0 <= i < s.len() ==> p(#[trigger] s[i]),
    ensures
        s.filter(p) == s,
    decreases s.len(),
{
    reveal(Seq::filter);
    if s.len() > 0 {
        let init = s.drop_last();
        assert forall|i: int| 0 <= i < init.len() implies p(#[trigger] init[i]) by {
            assert(p(s[i]));
        }
        lemma_filter_all(init, p);
        assert(p(s[s.len() - 1]));
        assert(init.push(s.last()) =~= s);
    }
}

proof fn lemma_filter_none(s: Seq<JsonView>, p: spec_fn(JsonView) -> bool)
    requires
        forall|i: int| 0 <= i < s.len() ==> !p(#[trigger] s[i]),
    ensures
        s.filter(p) == Seq::<JsonView>::empty(),
    decreases s.len(),
{
    reveal(Seq::filter);
    if s.len() > 0 {
        let init = s.drop_last();
        assert forall|i: int| 0 <= i < init.len() implies !p(#[trigger] init[i]) by {
            assert(!p(s[i]));
        }
        lemma_filter_none(init, p);
        assert(!p(s[s.len() - 1]));
    } else {
        assert(s =~= Seq::<JsonView>::empty());
    }
}

proof fn lemma_reference_members(p: RouteParentStatusView)
    ensures
        p.reference_json().text_at("name"@) == Some(p.gateway_name),
        p.reference_json().text_at("namespace"@) == Some(p.gateway_namespace),
        p.reference_json().get("sectionName"@) == (match p.section_name {
            Some(s) => Some(JsonView::Text(s)),
            None => None,
        }),
        p.reference_json().get("port"@) == (match p.port {
            Some(n) => Some(JsonView::Number(n as int)),
            None => None,
        }),
{
    reveal_strlit("group");
    reveal_strlit("kind");
    reveal_strlit("name");
    reveal_strlit("namespace");
    reveal_strlit("sectionName");
    reveal_strlit("port");
    assert("kind"@[0] != "name"@[0] && "kind"@[0] != "port"@[0] && "name"@[0] != "port"@[0]);
    assert("group"@.len() == 5 && "kind"@.len() == 4 && "name"@.len() == 4 && "port"@.len() == 4);
    assert("namespace"@.len() == 9 && "sectionName"@.len() == 11);
    let m = p.reference_json()->Object_0;
    json::lemma_member_found(m, "name"@, 2);
    json::lemma_member_found(m, "namespace"@, 3);
    if p.section_name is Some {
        json::lemma_member_found(m, "sectionName"@, 4);
    } else {
        json::lemma_member_absent(m, "sectionName"@);
    }
    if p.port is Some {
        json::lemma_member_found(m, "port"@, m.len() - 1);
    } else {
        json::lemma_member_absent(m, "port"@);
    }
}

proof fn lemma_parent_members(p: RouteParentStatusView, existing: Seq<JsonView>, now: Seq<char>)
    ensures
        p.document(existing, now).text_at("controllerName"@) == Some(p.controller_name),
        p.document(existing, now).get("parentRef"@) == Some(p.reference_json()),
        p.document(existing, now).get("conditions"@) == Some(
            p.document(existing, now)->Object_0[2].1,
        ),
{
    reveal_strlit("controllerName");
    reveal_strlit("parentRef");
    reveal_strlit("conditions");
    assert("controllerName"@.len() == 14 && "parentRef"@.len() == 9 && "conditions"@.len() == 10);
    let m = p.document(existing, now)->Object_0;
    json::lemma_member_found(m, "controllerName"@, 0);
    json::lemma_member_found(m, "parentRef"@, 1);
    json::lemma_member_found(m, "conditions"@, 2);
}

/// A document that this controller writes for a reference is one of ours.
pub proof fn law_own_documents_are_ours(
    p: RouteParentStatusView,
    existing: Seq<JsonView>,
    now: Seq<char>,
)
    ensures
        p.owns(p.document(existing, now)),
{
    lemma_parent_members(p, existing, now);
    lemma_reference_members(p);
}

proof fn lemma_condition_members(
    cond_type: Seq<char>,
    ok: bool,
    reason: Seq<char>,
    message: Seq<char>,
    existing: Seq<JsonView>,
    now: Seq<char>,
    generation: Option<i64>,
)
    ensures
        ({
            let c = condition_document(cond_type, ok, reason, message, existing, now, generation);
            &&& c.text_at("type"@) == Some(cond_type)
            &&& kept_time(c, cond_type, status_text(ok), reason) == Some(
                text::or_text(
                    preserved_time_json(existing, cond_type, status_text(ok), reason),
                    now,
                ),
            )
        }),
{
    reveal_strlit("type");
    reveal_strlit("status");
    reveal_strlit("reason");
    reveal_strlit("message");
    reveal_strlit("lastTransitionTime");
    assert("status"@[0] != "reason"@[0]);
    assert("type"@.len() == 4 && "status"@.len() == 6 && "reason"@.len() == 6);
    assert("message"@.len() == 7 && "lastTransitionTime"@.len() == 18);
    let m = condition_document(cond_type, ok, reason, message, existing, now, generation)->Object_0;
    json::lemma_member_found(m, "type"@, 0);
    json::lemma_member_found(m, "status"@, 1);
    json::lemma_member_found(m, "reason"@, 2);
    json::lemma_member_found(m, "lastTransitionTime"@, 4);
}

proof fn lemma_first_of_type(
    s: Seq<JsonView>,
    k: int,
    type_: Seq<char>,
    status: Seq<char>,
    reason: Seq<char>,
)
    requires
        0 <= k < s.len(),
        kept_time(s[k], type_, status, reason) is Some,
        forall|j: int| 0 <= j < k ==> (#[trigger] s[j]).text_at("type"@) != Some(type_),
    ensures
        preserved_time_json(s, type_, status, reason) == kept_time(s[k], type_, status, reason),
    decreases k,
{
    if k > 0 {
        assert(s[0].text_at("type"@) != Some(type_));
        let rest = s.drop_first();
        assert forall|j: int| 0 <= j < k - 1 implies (#[trigger] rest[j]).text_at("type"@) != Some(
            type_,
        ) by {
            assert(s[j + 1].text_at("type"@) != Some(type_));
        }
        lemma_first_of_type(rest, k - 1, type_, status, reason);
    }
}

/// A condition that is written again among the conditions that it was written
/// with stays as it is.
proof fn lemma_condition_stable(
    s: Seq<JsonView>,
    k: int,
    cond_type: Seq<char>,
    ok: bool,
    reason: Seq<char>,
    message: Seq<char>,
    existing: Seq<JsonView>,
    now: Seq<char>,
    later: Seq<char>,
    generation: Option<i64>,
)
    requires
        0 <= k < s.len(),
        s[k] == condition_document(cond_type, ok, reason, message, existing, now, generation),
        forall|j: int| 0 <= j < k ==> (#[trigger] s[j]).text_at("type"@) != Some(cond_type),
    ensures
        s[k].text_at("type"@) == Some(cond_type),
        condition_document(cond_type, ok, reason, message, s, later, generation) == s[k],
{
    lemma_condition_members(cond_type, ok, reason, message, existing, now, generation);
    lemma_first_of_type(s, k, cond_type, status_text(ok), reason);
}

/// Two entries on one and the same reference.
pub open spec fn same_reference(a: RouteParentStatusView, b: RouteParentStatusView) -> bool {
    &&& a.gateway_name == b.gateway_name
    &&& a.gateway_namespace == b.gateway_namespace
    &&& a.section_name == b.section_name
    &&& a.port == b.port
}

impl RouteParentStatusView {
    /// Whether a parent document is on the reference of this entry.
    pub open spec fn is_on(self, doc: JsonView) -> bool {
        is_on_reference(
            doc,
            self.gateway_name,
            self.gateway_namespace,
            self.section_name,
            self.port,
        )
    }
}

/// A document is found again by the reference that it was written for, and by
/// no other: references that differ in their port alone do not share
/// conditions.
pub proof fn law_documents_tell_references_apart(
    p: RouteParentStatusView,
    q: RouteParentStatusView,
    existing: Seq<JsonView>,
    now: Seq<char>,
)
    ensures
        p.is_on(q.document(existing, now)) == same_reference(p, q),
{
    lemma_parent_members(q, existing, now);
    lemma_reference_members(q);
}

proof fn lemma_first_on_reference(s: Seq<JsonView>, p: RouteParentStatusView, k: int)
    requires
        0 <= k < s.len(),
        p.is_on(s[k]),
        forall|j: int| 0 <= j < k ==> !p.is_on(#[trigger] s[j]),
    ensures
        reference_conditions(
            s,
            p.gateway_name,
            p.gateway_namespace,
            p.section_name,
            p.port,
        ) == conditions_of(s[k]),
    decreases k,
{
    if k > 0 {
        assert(!p.is_on(s[0]));
        let rest = s.drop_first();
        assert forall|j: int| 0 <= j < k - 1 implies !p.is_on(#[trigger] rest[j]) by {
            assert(!p.is_on(s[j + 1]));
        }
        lemma_first_on_reference(rest, p, k - 1);
    }
}

proof fn lemma_document_stable(
    p: RouteParentStatusView,
    existing: Seq<JsonView>,
    now: Seq<char>,
    written: Seq<JsonView>,
    later: Seq<char>,
)
    requires
        reference_conditions(
            written,
            p.gateway_name,
            p.gateway_namespace,
            p.section_name,
            p.port,
        ) == conditions_of(p.document(existing, now)),
    ensures
        p.document(written, later) == p.document(existing, now),
{
    reveal_strlit("Accepted");
    reveal_strlit("ResolvedRefs");
    reveal_strlit("Programmed");
    lemma_parent_members(p, existing, now);
    let conds = reference_conditions(
        existing,
        p.gateway_name,
        p.gateway_namespace,
        p.section_name,
        p.port,
    );
    let s = conditions_of(p.document(existing, now));
    assert(s.len() == 3);
    let (why, what) = if p.programmed {
        ("Programmed"@, "Route programmed into data plane"@)
    } else {
        ("Invalid"@, "Route not yet programmed"@)
    };
    assert("Accepted"@.len() == 8 && "ResolvedRefs"@.len() == 12 && "Programmed"@.len() == 10);
    lemma_condition_stable(
        s,
        0,
        "Accepted"@,
        p.accepted,
        p.accepted_reason,
        p.message,
        conds,
        now,
        later,
        p.generation,
    );
    lemma_condition_stable(
        s,
        1,
        "ResolvedRefs"@,
        p.refs_resolved,
        p.refs_reason,
        p.refs_message,
        conds,
        now,
        later,
        p.generation,
    );
    lemma_condition_stable(
        s,
        2,
        "Programmed"@,
        p.programmed,
        why,
        what,
        conds,
        now,
        later,
        p.generation,
    );
    let d = p.document(written, later);
    assert(d->Object_0 =~= p.document(existing, now)->Object_0) by {
        let x = d->Object_0[2].1->Array_0;
        let y = p.document(existing, now)->Object_0[2].1->Array_0;
        assert(s == y);
        assert(x[0] == y[0]);
        assert(x[1] == y[1]);
        assert(x[2] == y[2]);
        assert(x =~= y);
    }
}

/// Writing the status of a route again in the same state keeps it as it is,
/// transition times and all, whatever the time is by then. No two entries may
/// be on one reference, and nobody else may have written a document for one
/// of them.
pub proof fn law_route_status_stable(
    parents: Seq<RouteParentStatusView>,
    existing: Seq<JsonView>,
    now: Seq<char>,
    later: Seq<char>,
)
    requires
        forall|i: int, j: int|
            #![trigger parents[i], parents[j]]
            0 <= i < j < parents.len() ==> !same_reference(parents[i], parents[j]),
        forall|i: int, k: int|
            #![trigger parents[i], existing[k]]
            0 <= i < parents.len() && 0 <= k < existing.len() && parents[i].is_on(existing[k])
                ==> ours(parents, existing[k]),
    ensures
        route_parents(parents, route_parents(parents, existing, now), later) == route_parents(
            parents,
            existing,
            now,
        ),
{
    let p = |x: JsonView| !ours(parents, x);
    let kept = existing.filter(p);
    let entries = parents.map_values(|x: RouteParentStatusView| x.document(existing, now));
    let written = route_parents(parents, existing, now);
    existing.filter_lemma(p);
    assert(written == kept + entries);
    assert forall|i: int| 0 <= i < entries.len() implies ours(parents, #[trigger] entries[i]) by {
        law_own_documents_are_ours(parents[i], existing, now);
        assert(parents[i].owns(entries[i]));
    }
    let again = parents.map_values(|x: RouteParentStatusView| x.document(written, later));
    assert forall|i: int| 0 <= i < parents.len() implies #[trigger] again[i] == entries[i] by {
        let q = parents[i];
        let k = kept.len() + i;
        assert forall|j: int| 0 <= j < k implies !q.is_on(#[trigger] written[j]) by {
            if j < kept.len() {
                assert(p(kept[j]));
                existing.lemma_filter_contains_rev(p, kept[j]);
                let m = choose|m: int| 0 <= m < existing.len() && existing[m] == kept[j];
                assert(existing[m] == kept[j]);
            } else {
                law_documents_tell_references_apart(q, parents[j - kept.len()], existing, now);
                assert(!same_reference(parents[j - kept.len()], parents[i]));
            }
        }
        law_documents_tell_references_apart(q, q, existing, now);
        assert(written[k] == q.document(existing, now));
        lemma_first_on_reference(written, q, k);
        lemma_document_stable(q, existing, now, written, later);
    }
    assert(again =~= entries);
    law_merge_idempotent(existing, parents, entries);
}

/// What is known of the listeners when `written` is what their status has.
pub open spec fn facts_after(
    facts: ListenerFacts,
    written: Seq<JsonView>,
    later: Seq<char>,
) -> ListenerFacts {
    ListenerFacts { existing: existing_conditions(written), now: later, ..facts }
}

proof fn lemma_filter_map_all<A, B>(s: Seq<A>, f: spec_fn(A) -> Option<B>)
    requires
        forall|i: int| 0 <= i < s.len() ==> f(#[trigger] s[i]) is Some,
    ensures
        s.filter_map(f) == s.map_values(|x: A| f(x)->0),
    decreases s.len(),
{
    if s.len() > 0 {
        let init = s.drop_last();
        assert forall|i: int| 0 <= i < init.len() implies f(#[trigger] init[i]) is Some by {
            assert(f(s[i]) is Some);
        }
        lemma_filter_map_all(init, f);
        assert(f(s[s.len() - 1]) is Some);
        assert(s.filter_map(f) =~= s.map_values(|x: A| f(x)->0));
    } else {
        assert(s.filter_map(f) =~= s.map_values(|x: A| f(x)->0));
    }
}

proof fn lemma_listener_members(l: GatewayListenersView, facts: ListenerFacts)
    ensures
        listener_conditions(listener_document(l, facts)) == Some(
            (l.name, listener_document(l, facts)->Object_0[3].1->Array_0),
        ),
{
    reveal_strlit("name");
    reveal_strlit("attachedRoutes");
    reveal_strlit("supportedKinds");
    reveal_strlit("conditions");
    assert("name"@.len() == 4 && "conditions"@.len() == 10);
    assert("attachedRoutes"@.len() == 14 && "supportedKinds"@.len() == 14);
    let m = listener_document(l, facts)->Object_0;
    json::lemma_member_found(m, "name"@, 0);
    json::lemma_member_found(m, "conditions"@, 3);
}

/// Writing the status of listeners again in the same state keeps it as it is,
/// transition times and all, whatever the time is by then. Listeners have
/// names of their own.
pub proof fn law_listener_status_stable(
    listeners: Seq<GatewayListenersView>,
    facts: ListenerFacts,
    later: Seq<char>,
)
    requires
        forall|i: int, j: int|
            #![trigger listeners[i], listeners[j]]
            0 <= i < j < listeners.len() ==> listeners[i].name != listeners[j].name,
    ensures
        ({
            let written = listeners.map_values(
                |l: GatewayListenersView| listener_document(l, facts),
            );
            written == listeners.map_values(
                |l: GatewayListenersView|
                    listener_document(l, facts_after(facts, written, later)),
            )
        }),
{
    let written = listeners.map_values(|l: GatewayListenersView| listener_document(l, facts));
    let after = facts_after(facts, written, later);
    let f = |l: JsonView| listener_conditions(l);
    assert forall|i: int| 0 <= i < written.len() implies f(#[trigger] written[i]) is Some by {
        lemma_listener_members(listeners[i], facts);
    }
    lemma_filter_map_all(written, f);
    let entries = written.filter_map(f);
    assert forall|i: int| 0 <= i < listeners.len() implies #[trigger] written[i]
        == listener_document(listeners[i], after) by {
        let l = listeners[i];
        lemma_listener_members(l, facts);
        assert(entries[i].0 == l.name);
        assert forall|j: int| i < j < entries.len() implies (#[trigger] entries[j]).0
            != entries[i].0 by {
            lemma_listener_members(listeners[j], facts);
            assert(entries[j].0 == listeners[j].name);
        }
        table::lemma_insert_all_last(entries, i);
        lemma_listener_document_stable(l, facts, after);
    }
    assert(written =~= listeners.map_values(
        |l: GatewayListenersView| listener_document(l, after),
    ));
}

proof fn lemma_listener_document_stable(
    l: GatewayListenersView,
    facts: ListenerFacts,
    after: ListenerFacts,
)
    requires
        after == (ListenerFacts { existing: after.existing, now: after.now, ..facts }),
        after.existing.dom().contains(l.name),
        after.existing[l.name] == listener_document(l, facts)->Object_0[3].1->Array_0,
    ensures
        listener_document(l, after) == listener_document(l, facts),
{
    reveal_strlit("Accepted");
    reveal_strlit("Programmed");
    reveal_strlit("ResolvedRefs");
    reveal_strlit("Conflicted");
    assert("Accepted"@.len() == 8 && "ResolvedRefs"@.len() == 12);
    assert("Programmed"@[0] != "Conflicted"@[0]);
    assert("Programmed"@.len() == 10 && "Conflicted"@.len() == 10);
    let ls = if facts.statuses.dom().contains(l.name) {
        facts.statuses[l.name]
    } else {
        pending_listener_status()
    };
    let existing = if facts.existing.dom().contains(l.name) {
        facts.existing[l.name]
    } else {
        Seq::empty()
    };
    let s = after.existing[l.name];
    lemma_condition_stable(
        s,
        0,
        "Accepted"@,
        ls.accepted,
        ls.accepted_reason,
        ls.accepted_message,
        existing,
        facts.now,
        after.now,
        facts.generation,
    );
    lemma_condition_stable(
        s,
        1,
        "Programmed"@,
        ls.programmed,
        ls.programmed_reason,
        ls.programmed_message,
        existing,
        facts.now,
        after.now,
        facts.generation,
    );
    lemma_condition_stable(
        s,
        2,
        "ResolvedRefs"@,
        ls.resolved_refs,
        ls.resolved_refs_reason,
        ls.resolved_refs_message,
        existing,
        facts.now,
        after.now,
        facts.generation,
    );
    lemma_condition_stable(
        s,
        3,
        "Conflicted"@,
        ls.conflicted,
        ls.conflicted_reason,
        ls.conflicted_message,
        existing,
        facts.now,
        after.now,
        facts.generation,
    );
    let x = listener_document(l, after)->Object_0;
    let y = listener_document(l, facts)->Object_0;
    assert(x[3].1->Array_0 =~= y[3].1->Array_0);
    assert(x =~= y);
}

/// What a condition says, member by member. Its time is the present, unless
/// its type, status and reason were there before.
pub proof fn law_condition_members(
    type_: Seq<char>,
    ok: bool,
    reason: Seq<char>,
    message: Seq<char>,
    existing: Seq<JsonView>,
    now: Seq<char>,
    generation: Option<i64>,
)
    ensures
        ({
            let c = condition_document(type_, ok, reason, message, existing, now, generation);
            let time = preserved_time_json(
                existing,
                type_,
                if ok {
                    "True"@
                } else {
                    "False"@
                },
                reason,
            );
            &&& c.text_at("type"@) == Some(type_)
            &&& ok ==> c.text_at("status"@) == Some("True"@)
            &&& !ok ==> c.text_at("status"@) == Some("False"@)
            &&& c.text_at("reason"@) == Some(reason)
            &&& c.text_at("message"@) == Some(message)
            &&& time is Some ==> c.text_at("lastTransitionTime"@) == time
            &&& time is None ==> c.text_at("lastTransitionTime"@) == Some(now)
            &&& generation is Some ==> c.get("observedGeneration"@) == Some(
                JsonView::Number(generation->0 as int),
            )
            &&& generation is None ==> c.get("observedGeneration"@) == Some(JsonView::Null)
            &&& c is Object && c->Object_0.len() == 6
        }),
{
    reveal_strlit("type");
    reveal_strlit("status");
    reveal_strlit("reason");
    reveal_strlit("message");
    reveal_strlit("lastTransitionTime");
    reveal_strlit("observedGeneration");
    assert("status"@[0] != "reason"@[0]);
    assert("lastTransitionTime"@[0] != "observedGeneration"@[0]);
    assert("type"@.len() == 4 && "status"@.len() == 6 && "reason"@.len() == 6);
    assert("message"@.len() == 7 && "lastTransitionTime"@.len() == 18);
    assert("observedGeneration"@.len() == 18);
    let m = condition_document(type_, ok, reason, message, existing, now, generation)->Object_0;
    json::lemma_member_found(m, "type"@, 0);
    json::lemma_member_found(m, "status"@, 1);
    json::lemma_member_found(m, "reason"@, 2);
    json::lemma_member_found(m, "message"@, 3);
    json::lemma_member_found(m, "lastTransitionTime"@, 4);
    json::lemma_member_found(m, "observedGeneration"@, 5);
}

/// The time that is kept is that of the first condition with the same type,
/// status and reason, wherever it stands.
pub proof fn law_kept_time(
    before: Seq<JsonView>,
    c: JsonView,
    after: Seq<JsonView>,
    type_: Seq<char>,
    status: Seq<char>,
    reason: Seq<char>,
    time: Seq<char>,
)
    ensures
        preserved_time_json(Seq::empty(), type_, status, reason) is None,
        preserved_time_json(before, type_, status, reason) is Some ==> preserved_time_json(
            before + seq![c] + after,
            type_,
            status,
            reason,
        ) == preserved_time_json(before, type_, status, reason),
        preserved_time_json(before, type_, status, reason) is None && c.text_at("type"@) == Some(type_)
            && c.text_at("status"@) == Some(status) && c.text_at("reason"@) == Some(reason)
            && c.text_at("lastTransitionTime"@) == Some(time) ==> preserved_time_json(
            before + seq![c] + after,
            type_,
            status,
            reason,
        ) == Some(time),
        preserved_time_json(before, type_, status, reason) is None && (c.text_at("type"@) != Some(
            type_,
        ) || c.text_at("status"@) != Some(status) || c.text_at("reason"@) != Some(reason))
            ==> preserved_time_json(before + seq![c] + after, type_, status, reason)
            == preserved_time_json(after, type_, status, reason),
    decreases before.len(),
{
    let all = before + seq![c] + after;
    if before.len() == 0 {
        assert(all.first() == c);
        assert(all.drop_first() =~= after);
    } else {
        assert(all.first() == before.first());
        assert(all.drop_first() =~= before.drop_first() + seq![c] + after);
        law_kept_time(before.drop_first(), c, after, type_, status, reason, time);
    }
}

/// The time that a Gateway's condition keeps is that of the first condition
/// with the same type, status and reason, wherever it stands.
pub proof fn law_kept_gateway_time(
    before: Seq<ConditionView>,
    c: ConditionView,
    after: Seq<ConditionView>,
    type_: Seq<char>,
    status: Seq<char>,
    reason: Seq<char>,
)
    ensures
        preserved_time(Seq::empty(), type_, status, reason) is None,
        preserved_time(before, type_, status, reason) is Some ==> preserved_time(
            before + seq![c] + after,
            type_,
            status,
            reason,
        ) == preserved_time(before, type_, status, reason),
        preserved_time(before, type_, status, reason) is None && c.type_ == type_ && c.status
            == status && c.reason == reason ==> preserved_time(
            before + seq![c] + after,
            type_,
            status,
            reason,
        ) == Some(c.last_transition_time),
        preserved_time(before, type_, status, reason) is None && (c.type_ != type_ || c.status
            != status || c.reason != reason) ==> preserved_time(
            before + seq![c] + after,
            type_,
            status,
            reason,
        ) == preserved_time(after, type_, status, reason),
    decreases before.len(),
{
    let all = before + seq![c] + after;
    if before.len() == 0 {
        assert(all.first() == c);
        assert(all.drop_first() =~= after);
    } else {
        assert(all.first() == before.first());
        assert(all.drop_first() =~= before.drop_first() + seq![c] + after);
        law_kept_gateway_time(before.drop_first(), c, after, type_, status, reason);
    }
}

/// A Gateway's condition: true with its type as the reason, or false with the
/// reason that was found.
pub proof fn law_stamped_conditions(
    c: GatewayConditionView,
    type_: Seq<char>,
    existing: Seq<ConditionView>,
    now: Seq<char>,
    generation: Option<i64>,
)
    ensures
        ({
            let r = c.stamped(type_, existing, now, generation);
            let time = preserved_time(existing, type_, r.status, r.reason);
            &&& r.type_ == type_
            &&& c.ok ==> r.status == "True"@ && r.reason == type_
            &&& !c.ok ==> r.status == "False"@ && r.reason == c.reason
            &&& r.message == c.message
            &&& time is Some ==> r.last_transition_time == time->0
            &&& time is None ==> r.last_transition_time == now
            &&& r.observed_generation == generation
        }),
{
}

/// A Gateway's condition as a document, member by member.
pub proof fn law_condition_documents(c: ConditionView)
    ensures
        c.document().text_at("type"@) == Some(c.type_),
        c.document().text_at("status"@) == Some(c.status),
        c.document().text_at("reason"@) == Some(c.reason),
        c.document().text_at("message"@) == Some(c.message),
        c.document().text_at("lastTransitionTime"@) == Some(c.last_transition_time),
        c.observed_generation is Some ==> c.document().get("observedGeneration"@) == Some(
            JsonView::Number(c.observed_generation->0 as int),
        ),
        c.observed_generation is None ==> c.document().get("observedGeneration"@) is None,
{
    reveal_strlit("type");
    reveal_strlit("status");
    reveal_strlit("reason");
    reveal_strlit("message");
    reveal_strlit("lastTransitionTime");
    reveal_strlit("observedGeneration");
    assert("status"@[0] != "reason"@[0]);
    assert("lastTransitionTime"@[0] != "observedGeneration"@[0]);
    assert("type"@.len() == 4 && "status"@.len() == 6 && "reason"@.len() == 6);
    assert("message"@.len() == 7 && "lastTransitionTime"@.len() == 18);
    assert("observedGeneration"@.len() == 18);
    let m = c.document()->Object_0;
    json::lemma_member_found(m, "type"@, 0);
    json::lemma_member_found(m, "status"@, 1);
    json::lemma_member_found(m, "reason"@, 2);
    json::lemma_member_found(m, "message"@, 3);
    json::lemma_member_found(m, "lastTransitionTime"@, 4);
    if c.observed_generation is Some {
        json::lemma_member_found(m, "observedGeneration"@, 5);
    } else {
        json::lemma_member_absent(m, "observedGeneration"@);
    }
}

/// A listener serves the routes of its protocol; a protocol that is not known
/// serves none.
pub proof fn law_protocol_kinds(protocol: Seq<char>)
    ensures
        ({
            let kinds = protocol_kinds(protocol);
            let one = |kind: Seq<char>|
                kinds.len() == 1 && kinds[0].text_at("group"@) == Some(
                    "gateway.networking.k8s.io"@,
                ) && kinds[0].text_at("kind"@) == Some(kind);
            &&& protocol == "HTTP"@ || protocol == "HTTPS"@ ==> one("HTTPRoute"@)
            &&& protocol == "TLS"@ ==> one("TLSRoute"@)
            &&& protocol == "TCP"@ ==> one("TCPRoute"@)
            &&& protocol == "UDP"@ ==> one("UDPRoute"@)
            &&& protocol != "HTTP"@ && protocol != "HTTPS"@ && protocol != "TLS"@ && protocol
                != "TCP"@ && protocol != "UDP"@ ==> kinds.len() == 0
        }),
{
    reveal_strlit("group");
    reveal_strlit("kind");
    reveal_strlit("HTTP");
    reveal_strlit("HTTPS");
    reveal_strlit("TLS");
    reveal_strlit("TCP");
    reveal_strlit("UDP");
    assert("group"@.len() == 5 && "kind"@.len() == 4);
    assert("HTTP"@.len() == 4 && "HTTPS"@.len() == 5 && "TLS"@.len() == 3 && "TCP"@.len() == 3);
    assert("UDP"@.len() == 3 && "TLS"@[1] == 'L' && "TCP"@[1] == 'C' && "UDP"@[1] == 'D');
    let kinds = protocol_kinds(protocol);
    if kinds.len() > 0 {
        let m = kinds[0]->Object_0;
        json::lemma_member_found(m, "group"@, 0);
        json::lemma_member_found(m, "kind"@, 1);
    }
}

/// The status of a listener, member by member: how many routes it has, the
/// kinds that it serves, and its four conditions. A listener without a state
/// is pending.
pub proof fn law_listener_documents(l: GatewayListenersView, facts: ListenerFacts)
    ensures
        ({
            let doc = listener_document(l, facts);
            let known = facts.statuses.dom().contains(l.name);
            let ls = facts.statuses[l.name];
            let existing = if facts.existing.dom().contains(l.name) {
                facts.existing[l.name]
            } else {
                Seq::empty()
            };
            let c = doc.get("conditions"@)->0->Array_0;
            let says = |i: int, type_: Seq<char>, ok: bool, reason: Seq<char>, message: Seq<char>|
                c[i] == condition_document(
                    type_,
                    ok,
                    reason,
                    message,
                    existing,
                    facts.now,
                    facts.generation,
                );
            &&& doc.text_at("name"@) == Some(l.name)
            &&& facts.counts.dom().contains(l.name) ==> doc.get("attachedRoutes"@) == Some(
                JsonView::Number(facts.counts[l.name] as int),
            )
            &&& !facts.counts.dom().contains(l.name) ==> doc.get("attachedRoutes"@) == Some(
                JsonView::Number(0),
            )
            &&& known && (ls.supported_kinds.len() > 0 || !ls.resolved_refs) ==> doc.get(
                "supportedKinds"@,
            ) == Some(JsonView::Array(ls.supported_kinds))
            &&& known && ls.supported_kinds.len() == 0 && ls.resolved_refs ==> doc.get(
                "supportedKinds"@,
            ) == Some(JsonView::Array(protocol_kinds(l.protocol)))
            &&& !known ==> doc.get("supportedKinds"@) is Some && doc.get("supportedKinds"@)->0 is Array
                && doc.get("supportedKinds"@)->0->Array_0.len() == 0
            &&& doc.get("conditions"@) is Some && doc.get("conditions"@)->0 is Array && c.len() == 4
            &&& known ==> {
                &&& says(0, "Accepted"@, ls.accepted, ls.accepted_reason, ls.accepted_message)
                &&& says(
                    1,
                    "Programmed"@,
                    ls.programmed,
                    ls.programmed_reason,
                    ls.programmed_message,
                )
                &&& says(
                    2,
                    "ResolvedRefs"@,
                    ls.resolved_refs,
                    ls.resolved_refs_reason,
                    ls.resolved_refs_message,
                )
                &&& says(
                    3,
                    "Conflicted"@,
                    ls.conflicted,
                    ls.conflicted_reason,
                    ls.conflicted_message,
                )
            }
            &&& !known ==> {
                &&& says(0, "Accepted"@, false, "Pending"@, "Listener validation pending"@)
                &&& says(1, "Programmed"@, false, "Pending"@, "Listener programming pending"@)
                &&& says(2, "ResolvedRefs"@, false, "Pending"@, "Reference resolution pending"@)
                &&& says(3, "Conflicted"@, false, "NoConflicts"@, "No conflicts detected"@)
            }
        }),
{
    reveal_strlit("name");
    reveal_strlit("attachedRoutes");
    reveal_strlit("supportedKinds");
    reveal_strlit("conditions");
    assert("name"@.len() == 4 && "conditions"@.len() == 10);
    assert("attachedRoutes"@.len() == 14 && "supportedKinds"@.len() == 14);
    assert("attachedRoutes"@[0] == 'a' && "supportedKinds"@[0] == 's');
    let m = listener_document(l, facts)->Object_0;
    json::lemma_member_found(m, "name"@, 0);
    json::lemma_member_found(m, "attachedRoutes"@, 1);
    json::lemma_member_found(m, "supportedKinds"@, 2);
    json::lemma_member_found(m, "conditions"@, 3);
}

/// An address that a Gateway asks for is reported with its type and value: a
/// network by the address on it, an IP address where it is known or nothing
/// is, a host name always, and nothing else.
pub proof fn law_reported_address(a: GatewayAddressesView, usable: UsableAddressesView)
    ensures
        ({
            let r = a.reported(usable);
            let ip = a.type_ is None || a.type_->0 == "IPAddress"@;
            let value = if a.value is Some {
                a.value->0
            } else {
                Seq::empty()
            };
            let known = usable.interface_ips.contains(value) || exists|n: Seq<char>|
                usable.network_ips.dom().contains(n) && #[trigger] usable.network_ips[n] == value;
            let nothing = usable.interface_ips.len() == 0 && forall|n: Seq<char>|
                !#[trigger] usable.network_ips.dom().contains(n);
            &&& ip ==> (r is Some <==> known || nothing)
            &&& ip && r is Some ==> r->0.text_at("type"@) == Some("IPAddress"@) && r->0.text_at(
                "value"@,
            ) == Some(value)
            &&& a.type_ == Some("portail.epheo.eu/Network"@) ==> (r is Some
                <==> usable.network_ips.dom().contains(value))
            &&& a.type_ == Some("portail.epheo.eu/Network"@) && r is Some ==> r->0.text_at("type"@)
                == Some("IPAddress"@) && r->0.text_at("value"@) == Some(usable.network_ips[value])
            &&& a.type_ == Some("Hostname"@) ==> r is Some && r->0.text_at("type"@) == Some(
                "Hostname"@,
            ) && (a.value is Some ==> r->0.text_at("value"@) == a.value) && (a.value is None
                ==> r->0.get("value"@) == Some(JsonView::Null))
            &&& !ip && a.type_->0 != "portail.epheo.eu/Network"@ && a.type_->0 != "Hostname"@
                ==> r is None
        }),
{
    reveal_strlit("");
    reveal_strlit("type");
    reveal_strlit("value");
    reveal_strlit("IPAddress");
    reveal_strlit("Hostname");
    reveal_strlit("portail.epheo.eu/Network");
    assert(""@ =~= Seq::<char>::empty());
    assert("type"@.len() == 4 && "value"@.len() == 5);
    assert("IPAddress"@.len() == 9 && "Hostname"@.len() == 8);
    assert("portail.epheo.eu/Network"@.len() == 24);
    let value = if a.value is Some {
        a.value->0
    } else {
        Seq::empty()
    };
    let none = Map::<Seq<char>, Seq<char>>::empty();
    if usable.interface_ips.len() == 0 && forall|n: Seq<char>|
        !#[trigger] usable.network_ips.dom().contains(n) {
        assert(usable.network_ips =~= none);
    }
    if usable.network_ips == none {
        assert(forall|n: Seq<char>| !#[trigger] usable.network_ips.dom().contains(n));
    }
    if usable.network_ips.values().contains(value) {
        let n = choose|n: Seq<char>|
            usable.network_ips.dom().contains(n) && #[trigger] usable.network_ips[n] == value;
        assert(usable.network_ips.dom().contains(n));
    }
    if a.reported(usable) is Some {
        let m = a.reported(usable)->0->Object_0;
        json::lemma_member_found(m, "type"@, 0);
        json::lemma_member_found(m, "value"@, 1);
    }
}

/// The addresses of a status come one by one: each that is asked for adds its
/// report or nothing. Where none is asked for, the first address of an
/// interface is reported, or that which stands for all.
pub proof fn law_reported_addresses_one_by_one(
    g: GatewayView,
    addrs: Seq<GatewayAddressesView>,
    a: GatewayAddressesView,
    usable: UsableAddressesView,
)
    ensures
        ({
            let of = |list: Option<Seq<GatewayAddressesView>>|
                reported_addresses(
                    GatewayView {
                        spec: crate::kubernetes::resources::GatewaySpecView {
                            addresses: list,
                            ..g.spec
                        },
                        ..g
                    },
                    usable,
                );
            let one = if a.reported(usable) is Some {
                seq![a.reported(usable)->0]
            } else {
                Seq::empty()
            };
            &&& of(Some(Seq::empty())) == of(None)
            &&& of(None).len() == 1
            &&& of(None)[0].text_at("type"@) == Some("IPAddress"@)
            &&& usable.interface_ips.len() > 0 ==> of(None)[0].text_at("value"@) == Some(
                usable.interface_ips[0],
            )
            &&& usable.interface_ips.len() == 0 ==> of(None)[0].text_at("value"@) == Some(
                "0.0.0.0"@,
            )
            &&& of(Some(seq![a])) == one
            &&& addrs.len() > 0 ==> of(Some(addrs.push(a))) == of(Some(addrs)) + one
        }),
{
    reveal_strlit("type");
    reveal_strlit("value");
    assert("type"@.len() == 4 && "value"@.len() == 5);
    let f = |x: GatewayAddressesView| x.reported(usable);
    reveal_with_fuel(Seq::filter_map, 2);
    let more = addrs.push(a);
    assert(more.drop_last() =~= addrs);
    assert(more.last() == a);
    assert(addrs.filter_map(f) + Seq::empty() =~= addrs.filter_map(f));
    let lone = seq![a];
    assert(lone.drop_last() =~= Seq::empty());
    assert(lone.last() == a);
    assert(lone.drop_last().filter_map(f) =~= Seq::empty());
    let m = address_json("IPAddress"@, JsonView::Text(usable.spec_preferred_ip()))->Object_0;
    json::lemma_member_found(m, "type"@, 0);
    json::lemma_member_found(m, "value"@, 1);
}

/// The parent document of a reference, member by member.
pub proof fn law_parent_documents(
    p: RouteParentStatusView,
    existing: Seq<JsonView>,
    now: Seq<char>,
)
    ensures
        ({
            let doc = p.document(existing, now);
            let on = doc.get("parentRef"@)->0;
            let c = doc.get("conditions"@)->0->Array_0;
            let before = reference_conditions(
                existing,
                p.gateway_name,
                p.gateway_namespace,
                p.section_name,
                p.port,
            );
            let says = |i: int, type_: Seq<char>, ok: bool, reason: Seq<char>, message: Seq<char>|
                c[i] == condition_document(type_, ok, reason, message, before, now, p.generation);
            &&& doc.text_at("controllerName"@) == Some(p.controller_name)
            &&& doc.get("parentRef"@) is Some
            &&& on.text_at("name"@) == Some(p.gateway_name)
            &&& on.text_at("namespace"@) == Some(p.gateway_namespace)
            &&& on.text_at("group"@) == Some("gateway.networking.k8s.io"@)
            &&& on.text_at("kind"@) == Some("Gateway"@)
            &&& p.section_name is Some ==> on.text_at("sectionName"@) == p.section_name
            &&& p.section_name is None ==> on.get("sectionName"@) is None
            &&& p.port is Some ==> on.get("port"@) == Some(JsonView::Number(p.port->0 as int))
            &&& p.port is None ==> on.get("port"@) is None
            &&& doc.get("conditions"@) is Some && doc.get("conditions"@)->0 is Array && c.len() == 3
            &&& says(0, "Accepted"@, p.accepted, p.accepted_reason, p.message)
            &&& says(1, "ResolvedRefs"@, p.refs_resolved, p.refs_reason, p.refs_message)
            &&& p.programmed ==> says(
                2,
                "Programmed"@,
                true,
                "Programmed"@,
                "Route programmed into data plane"@,
            )
            &&& !p.programmed ==> says(
                2,
                "Programmed"@,
                false,
                "Invalid"@,
                "Route not yet programmed"@,
            )
        }),
{
    lemma_reference_members(p);
    lemma_parent_members(p, existing, now);
    reveal_strlit("group");
    reveal_strlit("kind");
    assert("group"@.len() == 5 && "kind"@.len() == 4);
    let m = p.reference_json()->Object_0;
    json::lemma_member_found(m, "group"@, 0);
    json::lemma_member_found(m, "kind"@, 1);
}

/// The conditions that a reference finds again are those of the first document
/// on it.
pub proof fn law_found_conditions(
    before: Seq<JsonView>,
    doc: JsonView,
    after: Seq<JsonView>,
    p: RouteParentStatusView,
)
    requires
        forall|i: int| 0 <= i < before.len() ==> !p.is_on(#[trigger] before[i]),
    ensures
        ({
            let found = |list: Seq<JsonView>|
                reference_conditions(
                    list,
                    p.gateway_name,
                    p.gateway_namespace,
                    p.section_name,
                    p.port,
                );
            &&& found(Seq::empty()).len() == 0
            &&& p.is_on(doc) && doc.get("conditions"@) is Some && doc.get("conditions"@)->0 is Array
                ==> found(before + seq![doc] + after) == doc.get("conditions"@)->0->Array_0
            &&& p.is_on(doc) && (doc.get("conditions"@) is None || doc.get(
                "conditions"@,
            )->0 !is Array) ==> found(before + seq![doc] + after).len() == 0
            &&& !p.is_on(doc) ==> found(before + seq![doc] + after) == found(after)
        }),
    decreases before.len(),
{
    let all = before + seq![doc] + after;
    if before.len() == 0 {
        assert(all.first() == doc);
        assert(all.drop_first() =~= after);
    } else {
        assert(all.first() == before.first());
        assert(!p.is_on(before[0]));
        assert(all.drop_first() =~= before.drop_first() + seq![doc] + after);
        assert forall|i: int| 0 <= i < before.drop_first().len() implies !p.is_on(
            #[trigger] before.drop_first()[i],
        ) by {
            assert(before.drop_first()[i] == before[i + 1]);
        }
        law_found_conditions(before.drop_first(), doc, after, p);
    }
}

/// The documents of a route's status: those of others first, then one for each
/// reference in order.
pub proof fn law_route_documents(
    parents: Seq<RouteParentStatusView>,
    existing: Seq<JsonView>,
    now: Seq<char>,
    i: int,
)
    requires
        0 <= i < parents.len(),
    ensures
        ({
            let all = route_parents(parents, existing, now);
            let others = all.len() - parents.len();
            &&& 0 <= others <= existing.len()
            &&& all[others + i] == parents[i].document(existing, now)
            &&& forall|j: int| 0 <= j < others ==> existing.contains(#[trigger] all[j]) && !ours(parents, all[j])
        }),
{
    let keep = |e: JsonView| !ours(parents, e);
    let kept = existing.filter(keep);
    let all = route_parents(parents, existing, now);
    existing.filter_lemma(keep);
    lemma_filter_len(existing, keep);
    assert forall|j: int| 0 <= j < kept.len() implies existing.contains(#[trigger] all[j]) && !ours(
        parents,
        all[j],
    ) by {
        assert(all[j] == kept[j]);
        assert(keep(kept[j]));
        law_merge_keeps_foreign_entries(existing, parents, Seq::empty(), kept[j]);
        let m = merged_parents(existing, parents, Seq::empty());
        assert(m[j] == kept[j]);
        assert(m.contains(kept[j]));
    }
}

proof fn lemma_filter_len(s: Seq<JsonView>, p: spec_fn(JsonView) -> bool)
    ensures
        s.filter(p).len() <= s.len(),
    decreases s.len(),
{
    reveal(Seq::filter);
    if s.len() > 0 {
        lemma_filter_len(s.drop_last(), p);
    }
}

/// The status of a Gateway, member by member. Listeners are always there,
/// conditions and addresses where nobody else manages them.
pub proof fn law_gateway_documents(s: GatewayStatusView, manage: bool, i: int)
    requires
        0 <= i < s.gateway.spec.listeners.len(),
    ensures
        ({
            let doc = s.document(manage);
            let inner = doc.get("status"@)->0;
            let listeners = inner.get("listeners"@)->0->Array_0;
            let c = inner.get("conditions"@)->0->Array_0;
            &&& doc.text_at("apiVersion"@) == Some("gateway.networking.k8s.io/v1"@)
            &&& doc.text_at("kind"@) == Some("Gateway"@)
            &&& doc.get("metadata"@) is Some
            &&& doc.get("metadata"@)->0.text_at("name"@) == Some(s.name)
            &&& doc.get("metadata"@)->0.text_at("namespace"@) == Some(s.namespace)
            &&& doc.get("status"@) is Some
            &&& inner.get("listeners"@) is Some && inner.get("listeners"@)->0 is Array
            &&& listeners.len() == s.gateway.spec.listeners.len()
            &&& listeners[i] == listener_document(
                s.gateway.spec.listeners[i],
                ListenerFacts {
                    counts: s.counts,
                    statuses: s.statuses,
                    existing: existing_conditions(s.existing_listeners),
                    now: s.now_seconds,
                    generation: s.gateway.metadata.generation,
                },
            )
            &&& manage ==> {
                &&& inner.get("conditions"@) is Some && inner.get("conditions"@)->0 is Array
                &&& c.len() == 2
                &&& c[0] == s.accepted.stamped(
                    "Accepted"@,
                    s.existing_conditions,
                    s.now,
                    s.gateway.metadata.generation,
                ).document()
                &&& c[1] == s.programmed.stamped(
                    "Programmed"@,
                    s.existing_conditions,
                    s.now,
                    s.gateway.metadata.generation,
                ).document()
                &&& inner.get("addresses"@) == Some(
                    JsonView::Array(reported_addresses(s.gateway, s.usable)),
                )
            }
            &&& !manage ==> inner.get("conditions"@) is None && inner.get("addresses"@) is None
        }),
{
    reveal_strlit("apiVersion");
    reveal_strlit("kind");
    reveal_strlit("metadata");
    reveal_strlit("status");
    reveal_strlit("name");
    reveal_strlit("namespace");
    reveal_strlit("listeners");
    reveal_strlit("conditions");
    reveal_strlit("addresses");
    assert("apiVersion"@.len() == 10 && "kind"@.len() == 4 && "metadata"@.len() == 8);
    assert("status"@.len() == 6 && "name"@.len() == 4 && "namespace"@.len() == 9);
    assert("listeners"@.len() == 9 && "conditions"@.len() == 10 && "addresses"@.len() == 9);
    assert("listeners"@[0] == 'l' && "addresses"@[0] == 'a');
    let m = s.document(manage)->Object_0;
    json::lemma_member_found(m, "apiVersion"@, 0);
    json::lemma_member_found(m, "kind"@, 1);
    json::lemma_member_found(m, "metadata"@, 2);
    json::lemma_member_found(m, "status"@, 3);
    let n = m[2].1->Object_0;
    json::lemma_member_found(n, "name"@, 0);
    json::lemma_member_found(n, "namespace"@, 1);
    let inner = s.inner(manage)->Object_0;
    json::lemma_member_found(inner, "listeners"@, 0);
    if manage {
        json::lemma_member_found(inner, "conditions"@, 1);
        json::lemma_member_found(inner, "addresses"@, 2);
    } else {
        json::lemma_member_absent(inner, "conditions"@);
        json::lemma_member_absent(inner, "addresses"@);
    }
}

/// A document is one of ours where a reference of ours has its controller, and
/// its Gateway by name and namespace.
pub proof fn law_ownership(
    parents: Seq<RouteParentStatusView>,
    p: RouteParentStatusView,
    doc: JsonView,
)
    ensures
        p.owns(doc) <==> doc.text_at("controllerName"@) == Some(p.controller_name) && doc.get(
            "parentRef"@,
        ) is Some && doc.get("parentRef"@)->0.text_at("name"@) == Some(p.gateway_name) && doc.get(
            "parentRef"@,
        )->0.text_at("namespace"@) == Some(p.gateway_namespace),
        !ours(Seq::empty(), doc),
        ours(parents.push(p), doc) <==> ours(parents, doc) || p.owns(doc),
{
    let more = parents.push(p);
    assert(more[parents.len() as int] == p);
    if ours(parents, doc) {
        let i = choose|i: int| 0 <= i < parents.len() && (#[trigger] parents[i]).owns(doc);
        assert(more[i].owns(doc));
    }
    if ours(more, doc) {
        let i = choose|i: int| 0 <= i < more.len() && (#[trigger] more[i]).owns(doc);
        if i < parents.len() {
            assert(parents[i].owns(doc));
        }
    }
}

} // verus!
