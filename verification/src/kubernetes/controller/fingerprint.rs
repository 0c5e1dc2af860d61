//! A fingerprint of everything that a reconcile pass would apply.
use crate::config::{
    CertificateRef, CertificateRefView, ListenerConfig, ListenerConfigView, PortailConfig,
};
use crate::json::{Json, JsonView};
use crate::kubernetes::addresses::UsableAddresses;
use crate::kubernetes::reconciler::{RouteAcceptance, RouteAcceptanceView};
use crate::kubernetes::status::{
    GatewayCondition, GatewayConditionView, ListenerStatus, ListenerStatusView,
};
use crate::lists::map_vec;
use crate::order;
use crate::order::sort_vec;
use crate::table::Table;
use crate::text;
use crate::text::{debug_str, i64_text, join_strings, u64_text};
use vstd::prelude::*;
use vstd::seq_lib::*;
use vstd::utf8::*;

verus! {

// ---------------------------------------------------------------------------
// Renderings
// ---------------------------------------------------------------------------

/// A flag as text.
pub open spec fn bool_text(b: bool) -> Seq<char> {
    if b {
        "true"@
    } else {
        "false"@
    }
}

/// An optional text, already rendered.
pub open spec fn option_text(o: Option<Seq<char>>) -> Seq<char> {
    match o {
        Some(s) => "Some("@ + s + ")"@,
        None => "None"@,
    }
}

/// A list of texts, already rendered.
pub open spec fn list_text(items: Seq<Seq<char>>) -> Seq<char> {
    "["@ + text::join(items, ", "@) + "]"@
}

/// A name and port.
pub open spec fn key_text(k: (Seq<char>, u16)) -> Seq<char> {
    "("@ + text::str_debug(k.0) + ", "@ + text::decimal(k.1 as nat) + ")"@
}

/// A field of a record, already rendered.
pub open spec fn field(name: Seq<char>, value: Seq<char>) -> Seq<char> {
    name + ": "@ + value
}

/// A record of rendered fields.
pub open spec fn record_text(name: Seq<char>, fields: Seq<Seq<char>>) -> Seq<char> {
    name + " { "@ + text::join(fields, ", "@) + " }"@
}

/// A list of strings.
pub open spec fn strings_text(s: Seq<Seq<char>>) -> Seq<char> {
    list_text(s.map_values(|x: Seq<char>| text::str_debug(x)))
}

impl GatewayConditionView {
    pub open spec fn rendered(self) -> Seq<char> {
        record_text(
            "GatewayCondition"@,
            seq![
                field("ok"@, bool_text(self.ok)),
                field("reason"@, text::str_debug(self.reason)),
                field("message"@, text::str_debug(self.message)),
            ],
        )
    }
}

impl JsonView {
    /// The document as text.
    pub open spec fn rendered(self) -> Seq<char>
        decreases self,
    {
        match self {
            JsonView::Null => "Null"@,
            JsonView::Bool(b) => "Bool("@ + bool_text(b) + ")"@,
            JsonView::Number(n) => "Number("@ + text::signed_decimal(n) + ")"@,
            JsonView::Text(s) => "String("@ + text::str_debug(s) + ")"@,
            JsonView::Array(v) => "Array "@ + list_text(rendered_list(v)),
            JsonView::Object(v) => "Object {"@ + text::join(rendered_members(v), ", "@) + "}"@,
        }
    }
}

/// The documents of a list, each as text.
pub open spec fn rendered_list(v: Seq<JsonView>) -> Seq<Seq<char>>
    decreases v,
{
    if v.len() == 0 {
        Seq::empty()
    } else {
        rendered_list(v.drop_last()).push(v.last().rendered())
    }
}

/// The members of an object, each as text.
pub open spec fn rendered_members(v: Seq<(Seq<char>, JsonView)>) -> Seq<Seq<char>>
    decreases v,
{
    if v.len() == 0 {
        Seq::empty()
    } else {
        rendered_members(v.drop_last()).push(
            field(text::str_debug(v.last().0), v.last().1.rendered()),
        )
    }
}

/// A list of documents.
pub open spec fn documents_text(v: Seq<JsonView>) -> Seq<char> {
    list_text(rendered_list(v))
}

impl ListenerStatusView {
    pub open spec fn rendered(self) -> Seq<char> {
        record_text(
            "ListenerStatus"@,
            seq![
                field("accepted"@, bool_text(self.accepted)),
                field("accepted_reason"@, text::str_debug(self.accepted_reason)),
                field("accepted_message"@, text::str_debug(self.accepted_message)),
                field("programmed"@, bool_text(self.programmed)),
                field("programmed_reason"@, text::str_debug(self.programmed_reason)),
                field("programmed_message"@, text::str_debug(self.programmed_message)),
                field("resolved_refs"@, bool_text(self.resolved_refs)),
                field("resolved_refs_reason"@, text::str_debug(self.resolved_refs_reason)),
                field("resolved_refs_message"@, text::str_debug(self.resolved_refs_message)),
                field("conflicted"@, bool_text(self.conflicted)),
                field("conflicted_reason"@, text::str_debug(self.conflicted_reason)),
                field("conflicted_message"@, text::str_debug(self.conflicted_message)),
                field("supported_kinds"@, documents_text(self.supported_kinds)),
            ],
        )
    }
}

/// An optional string.
pub open spec fn optional_string_text(o: Option<Seq<char>>) -> Seq<char> {
    option_text(
        match o {
            Some(s) => Some(text::str_debug(s)),
            None => None,
        },
    )
}

/// An optional number.
pub open spec fn optional_number_text(o: Option<int>) -> Seq<char> {
    option_text(
        match o {
            Some(n) => Some(text::signed_decimal(n)),
            None => None,
        },
    )
}

impl RouteAcceptanceView {
    pub open spec fn rendered(self) -> Seq<char> {
        record_text(
            "RouteAcceptance"@,
            seq![
                field("name"@, text::str_debug(self.name)),
                field("namespace"@, text::str_debug(self.namespace)),
                field("kind"@, text::str_debug(self.kind)),
                field("accepted"@, bool_text(self.accepted)),
                field("accepted_reason"@, text::str_debug(self.accepted_reason)),
                field("message"@, text::str_debug(self.message)),
                field("refs_resolved"@, bool_text(self.refs_resolved)),
                field("refs_reason"@, text::str_debug(self.refs_reason)),
                field("refs_message"@, text::str_debug(self.refs_message)),
                field(
                    "generation"@,
                    optional_number_text(
                        match self.generation {
                            Some(n) => Some(n as int),
                            None => None,
                        },
                    ),
                ),
                field("section_name"@, optional_string_text(self.section_name)),
                field(
                    "port"@,
                    optional_number_text(
                        match self.port {
                            Some(n) => Some(n as int),
                            None => None,
                        },
                    ),
                ),
                field("listener_names"@, strings_text(self.listener_names)),
            ],
        )
    }
}

fn bool_str(b: bool) -> (r: &'static str)
    ensures
        r@ == bool_text(b),
{
    if b {
        "true"
    } else {
        "false"
    }
}

fn wrap(head: &str, s: &str, tail: &str) -> (r: String)
    ensures
        r@ == head@ + s@ + tail@,
{
    let mut o = head.to_owned();
    o.append(s);
    o.append(tail);
    o
}

fn render_list(items: &Vec<String>) -> (r: String)
    ensures
        r@ == list_text(items.deep_view()),
{
    wrap("[", join_strings(items, ", ").as_str(), "]")
}

fn render_key(k: &(String, u16)) -> (r: String)
    ensures
        r@ == key_text(k.deep_view()),
{
    let mut o = "(".to_owned();
    o.append(debug_str(k.0.as_str()).as_str());
    o.append(", ");
    o.append(u64_text(k.1 as u64).as_str());
    o.append(")");
    o
}

fn render_field(name: &str, value: &str) -> (r: String)
    ensures
        r@ == field(name@, value@),
{
    wrap(name, ": ", value)
}

fn string_field(name: &str, value: &str) -> (r: String)
    ensures
        r@ == field(name@, text::str_debug(value@)),
{
    render_field(name, debug_str(value).as_str())
}

fn bool_field(name: &str, value: bool) -> (r: String)
    ensures
        r@ == field(name@, bool_text(value)),
{
    render_field(name, bool_str(value))
}

fn render_record(name: &str, fields: &Vec<String>) -> (r: String)
    ensures
        r@ == record_text(name@, fields.deep_view()),
{
    let mut o = name.to_owned();
    o.append(" { ");
    o.append(join_strings(fields, ", ").as_str());
    o.append(" }");
    o
}

fn render_strings(s: &Vec<String>) -> (r: String)
    ensures
        r@ == strings_text(s.deep_view()),
{
    let ghost g = |x: Seq<char>| text::str_debug(x);
    let items = map_vec(
        s,
        |x: &String| -> (o: String)
            ensures
                o.deep_view() == g(x.deep_view())
            { debug_str(x.as_str()) },
        Ghost(g),
    );
    assert(items.deep_view() =~= s.deep_view().map_values(|x: Seq<char>| text::str_debug(x)));
    render_list(&items)
}

fn render_condition(c: &GatewayCondition) -> (r: String)
    ensures
        r@ == c.deep_view().rendered(),
{
    let fields = vec![
        bool_field("ok", c.ok),
        string_field("reason", c.reason.as_str()),
        string_field("message", c.message.as_str()),
    ];
    let ghost v = c.deep_view();
    assert(fields.deep_view() =~= seq![
        field("ok"@, bool_text(v.ok)),
        field("reason"@, text::str_debug(v.reason)),
        field("message"@, text::str_debug(v.message)),
    ]);
    render_record("GatewayCondition", &fields)
}

fn render_json(j: &Json) -> (r: String)
    ensures
        r@ == j@.rendered(),
    decreases j,
{
    match j {
        Json::Null => "Null".to_owned(),
        Json::Bool(b) => wrap("Bool(", bool_str(*b), ")"),
        Json::Number(n) => wrap("Number(", i64_text(*n).as_str(), ")"),
        Json::Text(s) => wrap("String(", debug_str(s.as_str()).as_str(), ")"),
        Json::Array(v) => {
            let mut items: Vec<String> = Vec::new();
            let ghost w = j@->Array_0;
            let mut i: usize = 0;
            assert(items.deep_view() =~= rendered_list(w.take(0)));
            while i < v.len()
                invariant
                    i <= v.len(),
                    *j == Json::Array(*v),
                    j@ == JsonView::Array(w),
                    w.len() == v@.len(),
                    items.deep_view() == rendered_list(w.take(i as int)),
                decreases v.len() - i,
            {
                let ghost before = items.deep_view();
                proof {
                    assert(decreases_to!(*j => j->Array_0));
                    assert(decreases_to!(j->Array_0 => j->Array_0@));
                    assert(decreases_to!(j->Array_0@ => j->Array_0@[i as int]));
                    assert(w[i as int] == v@[i as int]@);
                    assert(w.take(i + 1).drop_last() =~= w.take(i as int));
                    assert(w.take(i + 1).last() == w[i as int]);
                }
                items.push(render_json(&v[i]));
                assert(items.deep_view() =~= before.push(w[i as int].rendered()));
                i += 1;
            }
            assert(w.take(w.len() as int) =~= w);
            let mut o = "Array ".to_owned();
            o.append(render_list(&items).as_str());
            o
        },
        Json::Object(v) => {
            let mut items: Vec<String> = Vec::new();
            let ghost w = j@->Object_0;
            let mut i: usize = 0;
            assert(items.deep_view() =~= rendered_members(w.take(0)));
            while i < v.len()
                invariant
                    i <= v.len(),
                    *j == Json::Object(*v),
                    j@ == JsonView::Object(w),
                    w.len() == v@.len(),
                    items.deep_view() == rendered_members(w.take(i as int)),
                decreases v.len() - i,
            {
                let ghost before = items.deep_view();
                proof {
                    assert(decreases_to!(*j => j->Object_0));
                    assert(decreases_to!(j->Object_0 => j->Object_0@));
                    assert(decreases_to!(j->Object_0@ => j->Object_0@[i as int]));
                    assert(decreases_to!(j->Object_0@[i as int] => j->Object_0@[i as int].1));
                    assert(w[i as int] == (v@[i as int].0@, v@[i as int].1@));
                    assert(w.take(i + 1).drop_last() =~= w.take(i as int));
                    assert(w.take(i + 1).last() == w[i as int]);
                }
                let item = render_field(
                    debug_str(v[i].0.as_str()).as_str(),
                    render_json(&v[i].1).as_str(),
                );
                items.push(item);
                assert(items.deep_view() =~= before.push(item@));
                i += 1;
            }
            assert(w.take(w.len() as int) =~= w);
            wrap("Object {", join_strings(&items, ", ").as_str(), "}")
        },
    }
}

fn render_documents(v: &Vec<Json>) -> (r: String)
    ensures
        r@ == documents_text(v.deep_view()),
{
    let mut items: Vec<String> = Vec::new();
    let ghost w = v.deep_view();
    let mut i: usize = 0;
    assert(items.deep_view() =~= rendered_list(w.take(0)));
    while i < v.len()
        invariant
            i <= v.len(),
            w == v.deep_view(),
            items.deep_view() == rendered_list(w.take(i as int)),
        decreases v.len() - i,
    {
        let ghost before = items.deep_view();
        proof {
            assert(w.take(i + 1).drop_last() =~= w.take(i as int));
            assert(w.take(i + 1).last() == v@[i as int]@);
        }
        items.push(render_json(&v[i]));
        assert(items.deep_view() =~= before.push(w[i as int].rendered()));
        i += 1;
    }
    assert(w.take(w.len() as int) =~= w);
    render_list(&items)
}

fn render_listener_status(ls: &ListenerStatus) -> (r: String)
    ensures
        r@ == ls.deep_view().rendered(),
{
    let fields = vec![
        bool_field("accepted", ls.accepted),
        string_field("accepted_reason", ls.accepted_reason.as_str()),
        string_field("accepted_message", ls.accepted_message.as_str()),
        bool_field("programmed", ls.programmed),
        string_field("programmed_reason", ls.programmed_reason.as_str()),
        string_field("programmed_message", ls.programmed_message.as_str()),
        bool_field("resolved_refs", ls.resolved_refs),
        string_field("resolved_refs_reason", ls.resolved_refs_reason.as_str()),
        string_field("resolved_refs_message", ls.resolved_refs_message.as_str()),
        bool_field("conflicted", ls.conflicted),
        string_field("conflicted_reason", ls.conflicted_reason.as_str()),
        string_field("conflicted_message", ls.conflicted_message.as_str()),
        render_field("supported_kinds", render_documents(&ls.supported_kinds).as_str()),
    ];
    let ghost v = ls.deep_view();
    assert(fields.deep_view() =~= seq![
        field("accepted"@, bool_text(v.accepted)),
        field("accepted_reason"@, text::str_debug(v.accepted_reason)),
        field("accepted_message"@, text::str_debug(v.accepted_message)),
        field("programmed"@, bool_text(v.programmed)),
        field("programmed_reason"@, text::str_debug(v.programmed_reason)),
        field("programmed_message"@, text::str_debug(v.programmed_message)),
        field("resolved_refs"@, bool_text(v.resolved_refs)),
        field("resolved_refs_reason"@, text::str_debug(v.resolved_refs_reason)),
        field("resolved_refs_message"@, text::str_debug(v.resolved_refs_message)),
        field("conflicted"@, bool_text(v.conflicted)),
        field("conflicted_reason"@, text::str_debug(v.conflicted_reason)),
        field("conflicted_message"@, text::str_debug(v.conflicted_message)),
        field("supported_kinds"@, documents_text(v.supported_kinds)),
    ]);
    render_record("ListenerStatus", &fields)
}

fn render_optional_number(n: Option<i64>) -> (r: String)
    ensures
        r@ == optional_number_text(
            match n {
                Some(n) => Some(n as int),
                None => None,
            },
        ),
{
    match n {
        Some(n) => wrap("Some(", i64_text(n).as_str(), ")"),
        None => "None".to_owned(),
    }
}

fn render_optional_string(s: &Option<String>) -> (r: String)
    ensures
        r@ == optional_string_text(s.deep_view()),
{
    match s {
        Some(s) => wrap("Some(", debug_str(s.as_str()).as_str(), ")"),
        None => "None".to_owned(),
    }
}

fn render_acceptance(ra: &RouteAcceptance) -> (r: String)
    ensures
        r@ == ra.deep_view().rendered(),
{
    let port: Option<i64> = match ra.port {
        Some(p) => Some(p as i64),
        None => None,
    };
    let fields = vec![
        string_field("name", ra.name.as_str()),
        string_field("namespace", ra.namespace.as_str()),
        string_field("kind", ra.kind),
        bool_field("accepted", ra.accepted),
        string_field("accepted_reason", ra.accepted_reason),
        string_field("message", ra.message.as_str()),
        bool_field("refs_resolved", ra.refs_resolved),
        string_field("refs_reason", ra.refs_reason),
        string_field("refs_message", ra.refs_message.as_str()),
        render_field("generation", render_optional_number(ra.generation).as_str()),
        render_field("section_name", render_optional_string(&ra.section_name).as_str()),
        render_field("port", render_optional_number(port).as_str()),
        render_field("listener_names", render_strings(&ra.listener_names).as_str()),
    ];
    let ghost v = ra.deep_view();
    assert(fields.deep_view() =~= seq![
        field("name"@, text::str_debug(v.name)),
        field("namespace"@, text::str_debug(v.namespace)),
        field("kind"@, text::str_debug(v.kind)),
        field("accepted"@, bool_text(v.accepted)),
        field("accepted_reason"@, text::str_debug(v.accepted_reason)),
        field("message"@, text::str_debug(v.message)),
        field("refs_resolved"@, bool_text(v.refs_resolved)),
        field("refs_reason"@, text::str_debug(v.refs_reason)),
        field("refs_message"@, text::str_debug(v.refs_message)),
        field(
            "generation"@,
            optional_number_text(
                match v.generation {
                    Some(n) => Some(n as int),
                    None => None,
                },
            ),
        ),
        field("section_name"@, optional_string_text(v.section_name)),
        field(
            "port"@,
            optional_number_text(
                match v.port {
                    Some(n) => Some(n as int),
                    None => None,
                },
            ),
        ),
        field("listener_names"@, strings_text(v.listener_names)),
    ]);
    render_record("RouteAcceptance", &fields)
}

/// The parent documents that a route has, as a line of the fingerprint.
pub fn observed_parents_line(kind: &str, namespace: &str, name: &str, parents: &Vec<Json>) -> (r:
    String)
    ensures
        r@ == kind@ + "/"@ + namespace@ + "/"@ + name@ + ":"@ + documents_text(parents.deep_view()),
{
    let mut o = kind.to_owned();
    o.append("/");
    o.append(namespace);
    o.append("/");
    o.append(name);
    o.append(":");
    o.append(render_documents(parents).as_str());
    o
}

// ---------------------------------------------------------------------------
// The fingerprinted bytes
// ---------------------------------------------------------------------------

/// Each text with a zero byte behind it.
pub open spec fn lines(items: Seq<Seq<char>>) -> Seq<u8> {
    items.flat_map(|s: Seq<char>| encode_utf8(s).push(0u8))
}

/// The texts in order, each with a zero byte behind it.
pub open spec fn sorted_lines(items: Seq<Seq<char>>) -> Seq<u8> {
    lines(order::sort_seq::<String>(items))
}

impl CertificateRefView {
    /// The name, certificate and key.
    pub open spec fn material(self) -> Seq<u8> {
        let cert = match self.cert_pem {
            Some(b) => b,
            None => Seq::empty(),
        };
        let key = match self.key_pem {
            Some(b) => b,
            None => Seq::empty(),
        };
        encode_utf8(self.name) + cert + key
    }
}

impl ListenerConfigView {
    /// The names, certificates and keys of the listener.
    pub open spec fn material(self) -> Seq<u8> {
        match self.tls {
            Some(t) => t.certificate_refs.flat_map(|c: CertificateRefView| c.material()),
            None => Seq::empty(),
        }
    }
}

/// Everything that a fingerprint covers.
pub struct FingerprintView {
    pub config_json: Seq<u8>,
    pub listeners: Seq<ListenerConfigView>,
    pub endpoint_overrides: Seq<((Seq<char>, u16), Seq<(Seq<char>, u16)>)>,
    pub app_protocol_overrides: Seq<((Seq<char>, u16), Seq<char>)>,
    pub headless_target_ports: Seq<((Seq<char>, u16), u16)>,
    pub accepted: GatewayConditionView,
    pub listener_statuses: Seq<(Seq<char>, ListenerStatusView)>,
    pub interface_ips: Seq<Seq<char>>,
    pub network_ips: Seq<(Seq<char>, Seq<char>)>,
    pub route_status: Seq<RouteAcceptanceView>,
    pub observed_route_parents: Seq<Seq<char>>,
    pub dp_ready: bool,
}

/// The line of an endpoint override.
pub open spec fn endpoint_line(e: ((Seq<char>, u16), Seq<(Seq<char>, u16)>)) -> Seq<char> {
    "ep"@ + key_text(e.0) + "="@ + list_text(e.1.map_values(|k: (Seq<char>, u16)| key_text(k)))
}

/// The line of an application protocol.
pub open spec fn protocol_line(e: ((Seq<char>, u16), Seq<char>)) -> Seq<char> {
    "ap"@ + key_text(e.0) + "="@ + e.1
}

/// The line of a target port.
pub open spec fn target_line(e: ((Seq<char>, u16), u16)) -> Seq<char> {
    "ht"@ + key_text(e.0) + "="@ + text::decimal(e.1 as nat)
}

/// The line of a listener.
pub open spec fn listener_line(e: (Seq<char>, ListenerStatusView)) -> Seq<char> {
    e.0 + e.1.rendered()
}

/// The line of an address on a network.
pub open spec fn network_line(e: (Seq<char>, Seq<char>)) -> Seq<char> {
    e.0 + "="@ + e.1
}

impl FingerprintView {
    pub open spec fn override_lines(self) -> Seq<Seq<char>> {
        self.endpoint_overrides.map_values(
            |e: ((Seq<char>, u16), Seq<(Seq<char>, u16)>)| endpoint_line(e),
        ) + self.app_protocol_overrides.map_values(
            |e: ((Seq<char>, u16), Seq<char>)| protocol_line(e),
        ) + self.headless_target_ports.map_values(|e: ((Seq<char>, u16), u16)| target_line(e))
    }

    pub open spec fn listener_lines(self) -> Seq<Seq<char>> {
        self.listener_statuses.map_values(|e: (Seq<char>, ListenerStatusView)| listener_line(e))
    }

    pub open spec fn network_lines(self) -> Seq<Seq<char>> {
        self.network_ips.map_values(|e: (Seq<char>, Seq<char>)| network_line(e))
    }

    pub open spec fn route_lines(self) -> Seq<Seq<char>> {
        self.route_status.map_values(|r: RouteAcceptanceView| r.rendered())
    }

    /// The bytes of what the pass is about to apply.
    pub open spec fn intent_bytes(self) -> Seq<u8> {
        self.config_json + self.listeners.flat_map(|l: ListenerConfigView| l.material())
            + sorted_lines(self.override_lines()) + encode_utf8(self.accepted.rendered())
            + sorted_lines(self.listener_lines()) + sorted_lines(self.interface_ips)
            + sorted_lines(self.network_lines()) + sorted_lines(self.route_lines())
    }

    /// The bytes that are hashed. Lists whose order says nothing are sorted.
    pub open spec fn bytes(self) -> Seq<u8> {
        self.intent_bytes() + sorted_lines(self.observed_route_parents) + seq![
            if self.dp_ready {
                1u8
            } else {
                0u8
            },
        ]
    }
}

fn push_bytes(out: &mut Vec<u8>, bytes: &[u8])
    ensures
        final(out)@ == old(out)@ + bytes@,
{
    let ghost start = out@;
    let mut i: usize = 0;
    assert(out@ =~= start + bytes@.take(0));
    while i < bytes.len()
        invariant
            i <= bytes@.len(),
            out@ == start + bytes@.take(i as int),
        decreases bytes.len() - i,
    {
        out.push(bytes[i]);
        i += 1;
        assert(out@ =~= start + bytes@.take(i as int));
    }
    assert(bytes@.take(bytes@.len() as int) =~= bytes@);
}

fn push_sorted(out: &mut Vec<u8>, items: Vec<String>)
    ensures
        final(out)@ == old(out)@ + sorted_lines(items.deep_view()),
{
    let ghost start = out@;
    let sorted = sort_vec(items);
    let ghost s = sorted.deep_view();
    let ghost f = |x: Seq<char>| encode_utf8(x).push(0u8);
    let mut i: usize = 0;
    proof {
        reveal_with_fuel(Seq::flatten, 2);
        assert(s.take(0).map_values(f) =~= Seq::empty());
        assert(out@ =~= start + s.take(0).flat_map(f));
    }
    while i < sorted.len()
        invariant
            i <= sorted.len(),
            s == sorted.deep_view(),
            f == (|x: Seq<char>| encode_utf8(x).push(0u8)),
            out@ == start + s.take(i as int).flat_map(f),
        decreases sorted.len() - i,
    {
        proof {
            s.take(i as int).lemma_flat_map_push(f, s[i as int]);
            assert(s.take(i as int).push(s[i as int]) =~= s.take(i + 1));
        }
        push_bytes(out, sorted[i].as_str().as_bytes());
        out.push(0u8);
        i += 1;
        assert(out@ =~= start + s.take(i as int).flat_map(f));
    }
    assert(s.take(s.len() as int) =~= s);
}

fn push_optional(out: &mut Vec<u8>, bytes: &Option<Vec<u8>>)
    ensures
        final(out)@ == old(out)@ + match bytes.deep_view() {
            Some(b) => b,
            None => Seq::empty(),
        },
{
    match bytes {
        Some(b) => {
            assert(b.deep_view() =~= b@);
            push_bytes(out, b.as_slice());
        },
        None => {
            assert(out@ + Seq::<u8>::empty() =~= out@);
        },
    }
}

fn push_certificates(out: &mut Vec<u8>, refs: &Vec<CertificateRef>)
    ensures
        final(out)@ == old(out)@ + refs.deep_view().flat_map(
            |c: CertificateRefView| c.material(),
        ),
{
    let ghost start = out@;
    let ghost s = refs.deep_view();
    let ghost f = |c: CertificateRefView| c.material();
    let mut i: usize = 0;
    proof {
        reveal_with_fuel(Seq::flatten, 2);
        assert(s.take(0).map_values(f) =~= Seq::empty());
        assert(out@ =~= start + s.take(0).flat_map(f));
    }
    while i < refs.len()
        invariant
            i <= refs.len(),
            s == refs.deep_view(),
            f == (|c: CertificateRefView| c.material()),
            out@ == start + s.take(i as int).flat_map(f),
        decreases refs.len() - i,
    {
        let c = &refs[i];
        proof {
            s.take(i as int).lemma_flat_map_push(f, s[i as int]);
            assert(s.take(i as int).push(s[i as int]) =~= s.take(i + 1));
        }
        push_bytes(out, c.name.as_str().as_bytes());
        push_optional(out, &c.cert_pem);
        push_optional(out, &c.key_pem);
        i += 1;
        assert(out@ =~= start + s.take(i as int).flat_map(f));
    }
    assert(s.take(s.len() as int) =~= s);
}

fn push_listeners(out: &mut Vec<u8>, listeners: &Vec<ListenerConfig>)
    ensures
        final(out)@ == old(out)@ + listeners.deep_view().flat_map(
            |l: ListenerConfigView| l.material(),
        ),
{
    let ghost start = out@;
    let ghost s = listeners.deep_view();
    let ghost f = |l: ListenerConfigView| l.material();
    let mut i: usize = 0;
    proof {
        reveal_with_fuel(Seq::flatten, 2);
        assert(s.take(0).map_values(f) =~= Seq::empty());
        assert(out@ =~= start + s.take(0).flat_map(f));
    }
    while i < listeners.len()
        invariant
            i <= listeners.len(),
            s == listeners.deep_view(),
            f == (|l: ListenerConfigView| l.material()),
            out@ == start + s.take(i as int).flat_map(f),
        decreases listeners.len() - i,
    {
        proof {
            s.take(i as int).lemma_flat_map_push(f, s[i as int]);
            assert(s.take(i as int).push(s[i as int]) =~= s.take(i + 1));
        }
        if let Some(tls) = &listeners[i].tls {
            push_certificates(out, &tls.certificate_refs);
        }
        i += 1;
        assert(out@ =~= start + s.take(i as int).flat_map(f));
    }
    assert(s.take(s.len() as int) =~= s);
}

fn endpoint_text(e: &((String, u16), Vec<(String, u16)>)) -> (r: String)
    ensures
        r@ == endpoint_line(e.deep_view()),
{
    let ghost g = |k: (Seq<char>, u16)| key_text(k);
    let items = map_vec(
        &e.1,
        |k: &(String, u16)| -> (o: String)
            ensures
                o.deep_view() == g(k.deep_view())
            { render_key(k) },
        Ghost(g),
    );
    assert(items.deep_view() =~= e.deep_view().1.map_values(
        |k: (Seq<char>, u16)| key_text(k),
    ));
    let mut o = "ep".to_owned();
    o.append(render_key(&e.0).as_str());
    o.append("=");
    o.append(render_list(&items).as_str());
    o
}

fn protocol_text(e: &((String, u16), String)) -> (r: String)
    ensures
        r@ == protocol_line(e.deep_view()),
{
    let mut o = "ap".to_owned();
    o.append(render_key(&e.0).as_str());
    o.append("=");
    o.append(e.1.as_str());
    o
}

fn target_text(e: &((String, u16), u16)) -> (r: String)
    ensures
        r@ == target_line(e.deep_view()),
{
    let mut o = "ht".to_owned();
    o.append(render_key(&e.0).as_str());
    o.append("=");
    o.append(u64_text(e.1 as u64).as_str());
    o
}

fn listener_text(e: &(String, ListenerStatus)) -> (r: String)
    ensures
        r@ == listener_line(e.deep_view()),
{
    let mut o = e.0.clone();
    o.append(render_listener_status(&e.1).as_str());
    o
}

fn network_text(e: &(String, String)) -> (r: String)
    ensures
        r@ == network_line(e.deep_view()),
{
    wrap(e.0.as_str(), "=", e.1.as_str())
}

/// What a fingerprint of these inputs covers.
pub open spec fn covered(
    config_json: Seq<u8>,
    config: PortailConfig,
    accepted: GatewayCondition,
    listener_statuses: Table<String, ListenerStatus>,
    usable: UsableAddresses,
    route_status: Vec<RouteAcceptance>,
    observed_route_parents: Vec<String>,
    dp_ready: bool,
) -> FingerprintView {
    FingerprintView {
        config_json,
        listeners: config.gateway.listeners.deep_view(),
        endpoint_overrides: config.endpoint_overrides.entries.deep_view(),
        app_protocol_overrides: config.app_protocol_overrides.entries.deep_view(),
        headless_target_ports: config.headless_target_ports.entries.deep_view(),
        accepted: accepted.deep_view(),
        listener_statuses: listener_statuses.entries.deep_view(),
        interface_ips: usable.interface_ips.deep_view(),
        network_ips: usable.network_ips.entries.deep_view(),
        route_status: route_status.deep_view(),
        observed_route_parents: observed_route_parents.deep_view(),
        dp_ready,
    }
}

/// The 64-bit FNV-1a hash of `bytes`: from the offset basis on, each byte is
/// mixed in by an exclusive or and a multiplication with the prime.
pub open spec fn fnv_hash(bytes: Seq<u8>) -> u64
    decreases bytes.len(),
{
    if bytes.len() == 0 {
        0xcbf29ce484222325
    } else {
        (fnv_hash(bytes.drop_last()) ^ (bytes.last() as u64)).wrapping_mul(0x100000001b3)
    }
}

/// Hashes bytes with a fresh `fnv::FnvHasher`, by its `write` and `finish`.
/// Trusted: the result is the FNV-1a hash of the bytes.
#[verifier::external_body]
fn hash_bytes(bytes: &Vec<u8>) -> (r: u64)
    ensures
        r == fnv_hash(bytes@),
{
    let mut hasher = fnv::FnvHasher::default();
    std::hash::Hasher::write(&mut hasher, bytes);
    std::hash::Hasher::finish(&hasher)
}

/// The bytes that the fingerprint of a pass is the hash of.
pub fn fingerprint_bytes(
    config_json: &Vec<u8>,
    config: &PortailConfig,
    accepted_cond: &GatewayCondition,
    listener_statuses: &Table<String, ListenerStatus>,
    usable: &UsableAddresses,
    route_status: &Vec<RouteAcceptance>,
    observed_route_parents: &Vec<String>,
    dp_ready: bool,
) -> (r: Vec<u8>)
    ensures
        r@ == covered(
            config_json@,
            *config,
            *accepted_cond,
            *listener_statuses,
            *usable,
            *route_status,
            *observed_route_parents,
            dp_ready,
        ).bytes(),
{
    let ghost v = covered(
        config_json@,
        *config,
        *accepted_cond,
        *listener_statuses,
        *usable,
        *route_status,
        *observed_route_parents,
        dp_ready,
    );
    let mut out: Vec<u8> = Vec::new();
    push_bytes(&mut out, config_json.as_slice());
    assert(out@ =~= v.config_json);
    push_listeners(&mut out, &config.gateway.listeners);

    let mut overrides = map_vec(
        &config.endpoint_overrides.entries,
        endpoint_text,
        Ghost(|e: ((Seq<char>, u16), Seq<(Seq<char>, u16)>)| endpoint_line(e)),
    );
    let mut protocols = map_vec(
        &config.app_protocol_overrides.entries,
        protocol_text,
        Ghost(|e: ((Seq<char>, u16), Seq<char>)| protocol_line(e)),
    );
    let mut targets = map_vec(
        &config.headless_target_ports.entries,
        target_text,
        Ghost(|e: ((Seq<char>, u16), u16)| target_line(e)),
    );
    let ghost a = overrides.deep_view();
    let ghost b = protocols.deep_view();
    let ghost c = targets.deep_view();
    overrides.append(&mut protocols);
    overrides.append(&mut targets);
    proof {
        assert(overrides.deep_view() =~= a + b + c);
        assert(overrides.deep_view() =~= v.override_lines());
    }
    push_sorted(&mut out, overrides);

    push_bytes(&mut out, render_condition(accepted_cond).as_str().as_bytes());

    let listeners = map_vec(
        &listener_statuses.entries,
        listener_text,
        Ghost(|e: (Seq<char>, ListenerStatusView)| listener_line(e)),
    );
    assert(listeners.deep_view() =~= v.listener_lines());
    push_sorted(&mut out, listeners);
    let ips = text::clone_strings(&usable.interface_ips);
    push_sorted(&mut out, ips);
    let networks = map_vec(
        &usable.network_ips.entries,
        network_text,
        Ghost(|e: (Seq<char>, Seq<char>)| network_line(e)),
    );
    assert(networks.deep_view() =~= v.network_lines());
    push_sorted(&mut out, networks);
    let routes = map_vec(
        route_status,
        render_acceptance,
        Ghost(|r: RouteAcceptanceView| r.rendered()),
    );
    assert(routes.deep_view() =~= v.route_lines());
    push_sorted(&mut out, routes);
    let observed = text::clone_strings(observed_route_parents);
    push_sorted(&mut out, observed);
    out.push(
        if dp_ready {
            1u8
        } else {
            0u8
        },
    );
    assert(out@ =~= v.bytes());
    out
}

/// The fingerprint of everything that a pass would apply: the configuration as
/// JSON, and the certificates and overrides that its JSON leaves out; the
/// conditions about to be written; the addresses; the verdicts on routes; the
/// status that routes have by now; and the readiness of the data plane.
pub fn reconcile_fingerprint(
    config_json: &Vec<u8>,
    config: &PortailConfig,
    accepted_cond: &GatewayCondition,
    listener_statuses: &Table<String, ListenerStatus>,
    usable: &UsableAddresses,
    route_status: &Vec<RouteAcceptance>,
    observed_route_parents: &Vec<String>,
    dp_ready: bool,
) -> (r: u64)
    ensures
        r == fnv_hash(
            covered(
                config_json@,
                *config,
                *accepted_cond,
                *listener_statuses,
                *usable,
                *route_status,
                *observed_route_parents,
                dp_ready,
            ).bytes(),
        ),
{
    let bytes = fingerprint_bytes(
        config_json,
        config,
        accepted_cond,
        listener_statuses,
        usable,
        route_status,
        observed_route_parents,
        dp_ready,
    );
    hash_bytes(&bytes)
}

// ---------------------------------------------------------------------------
// Laws
// ---------------------------------------------------------------------------

proof fn lemma_map_keeps_multiset<A, B>(a: Seq<A>, b: Seq<A>, f: spec_fn(A) -> B)
    requires
        a.to_multiset() == b.to_multiset(),
    ensures
        a.map_values(f).to_multiset() == b.map_values(f).to_multiset(),
    decreases a.len(),
{
    broadcast use group_to_multiset_ensures;

    assert(a.len() == a.to_multiset().len());
    assert(b.len() == b.to_multiset().len());
    if a.len() == 0 {
        assert(a.map_values(f) =~= b.map_values(f));
    } else {
        let x = a.last();
        let n = a.len() - 1;
        assert(a[n] == x && a.contains(x));
        assert(b.to_multiset().count(x) > 0);
        assert(b.contains(x));
        let j = choose|j: int| 0 <= j < b.len() && b[j] == x;
        let a0 = a.remove(n);
        let b0 = b.remove(j);
        assert(a0.to_multiset() == a.to_multiset().remove(x));
        assert(b0.to_multiset() == b.to_multiset().remove(x));
        lemma_map_keeps_multiset(a0, b0, f);
        let am = a.map_values(f);
        let bm = b.map_values(f);
        assert(am.remove(n) =~= a0.map_values(f));
        assert(bm.remove(j) =~= b0.map_values(f));
        assert(am.remove(n).to_multiset() == am.to_multiset().remove(f(x)));
        assert(bm.remove(j).to_multiset() == bm.to_multiset().remove(f(x)));
        assert(am[n] == f(x) && bm[j] == f(x));
        assert(am.contains(f(x)) && bm.contains(f(x)));
        assert(am.to_multiset().count(f(x)) > 0 && bm.to_multiset().count(f(x)) > 0);
        assert(am.to_multiset() =~= am.to_multiset().remove(f(x)).insert(f(x)));
        assert(bm.to_multiset() =~= bm.to_multiset().remove(f(x)).insert(f(x)));
    }
}

/// The bytes of a fingerprint do not depend on the order of what comes from
/// maps and stores: overrides, listeners, addresses, verdicts and observed
/// status.
pub proof fn law_fingerprint_ignores_order(a: FingerprintView, b: FingerprintView)
    requires
        a.config_json == b.config_json,
        a.listeners == b.listeners,
        a.accepted == b.accepted,
        a.dp_ready == b.dp_ready,
        a.endpoint_overrides.to_multiset() == b.endpoint_overrides.to_multiset(),
        a.app_protocol_overrides.to_multiset() == b.app_protocol_overrides.to_multiset(),
        a.headless_target_ports.to_multiset() == b.headless_target_ports.to_multiset(),
        a.listener_statuses.to_multiset() == b.listener_statuses.to_multiset(),
        a.interface_ips.to_multiset() == b.interface_ips.to_multiset(),
        a.network_ips.to_multiset() == b.network_ips.to_multiset(),
        a.route_status.to_multiset() == b.route_status.to_multiset(),
        a.observed_route_parents.to_multiset() == b.observed_route_parents.to_multiset(),
    ensures
        a.bytes() == b.bytes(),
        fnv_hash(a.bytes()) == fnv_hash(b.bytes()),
{
    let fe = |e: ((Seq<char>, u16), Seq<(Seq<char>, u16)>)| endpoint_line(e);
    let fp = |e: ((Seq<char>, u16), Seq<char>)| protocol_line(e);
    let ft = |e: ((Seq<char>, u16), u16)| target_line(e);
    let fl = |e: (Seq<char>, ListenerStatusView)| listener_line(e);
    let fnw = |e: (Seq<char>, Seq<char>)| network_line(e);
    let fr = |r: RouteAcceptanceView| r.rendered();
    lemma_map_keeps_multiset(a.endpoint_overrides, b.endpoint_overrides, fe);
    lemma_map_keeps_multiset(a.app_protocol_overrides, b.app_protocol_overrides, fp);
    lemma_map_keeps_multiset(a.headless_target_ports, b.headless_target_ports, ft);
    lemma_map_keeps_multiset(a.listener_statuses, b.listener_statuses, fl);
    lemma_map_keeps_multiset(a.network_ips, b.network_ips, fnw);
    lemma_map_keeps_multiset(a.route_status, b.route_status, fr);
    let (ae, ap, at) = (
        a.endpoint_overrides.map_values(fe),
        a.app_protocol_overrides.map_values(fp),
        a.headless_target_ports.map_values(ft),
    );
    let (be, bp, bt) = (
        b.endpoint_overrides.map_values(fe),
        b.app_protocol_overrides.map_values(fp),
        b.headless_target_ports.map_values(ft),
    );
    lemma_multiset_commutative(ae, ap);
    lemma_multiset_commutative(ae + ap, at);
    lemma_multiset_commutative(be, bp);
    lemma_multiset_commutative(be + bp, bt);
    assert(a.override_lines() == ae + ap + at);
    assert(b.override_lines() == be + bp + bt);
    order::law_sort_ignores_order(a.override_lines(), b.override_lines());
    order::law_sort_ignores_order(a.listener_lines(), b.listener_lines());
    order::law_sort_ignores_order(a.interface_ips, b.interface_ips);
    order::law_sort_ignores_order(a.network_lines(), b.network_lines());
    order::law_sort_ignores_order(a.route_lines(), b.route_lines());
    order::law_sort_ignores_order(a.observed_route_parents, b.observed_route_parents);
}

/// Whether a text is free of the character that lines end with.
pub open spec fn unbroken(s: Seq<char>) -> bool {
    !s.contains('\0')
}

proof fn lemma_unbroken_bytes(s: Seq<char>)
    requires
        unbroken(s),
    ensures
        forall|i: int| 0 <= i < encode_utf8(s).len() ==> #[trigger] encode_utf8(s)[i] != 0,
    decreases s.len(),
{
    if s.len() > 0 {
        let c = s[0] as u32;
        let rest = s.drop_first();
        assert(s.contains(s[0]));
        assert forall|x: char| rest.contains(x) implies s.contains(x) by {
            let k = choose|k: int| 0 <= k < rest.len() && rest[k] == x;
            assert(s[k + 1] == x);
        }
        lemma_unbroken_bytes(rest);
        char_is_scalar(s[0]);
        if c == 0 {
            char_u32_cast(s[0], 0);
            assert(s[0] == '\0');
        }
        assert(0 < c <= 0x7F ==> (c & 0x7F) as u8 != 0) by (bit_vector);
        assert(0xC0u8 | ((c >> 6) & 0x1F) as u8 != 0) by (bit_vector);
        assert(0xE0u8 | ((c >> 12) & 0x0F) as u8 != 0) by (bit_vector);
        assert(0xF0u8 | ((c >> 18) & 0x7) as u8 != 0) by (bit_vector);
        assert(0x80u8 | (c & 0x3F) as u8 != 0) by (bit_vector);
        assert(0x80u8 | ((c >> 6) & 0x3F) as u8 != 0) by (bit_vector);
        assert(0x80u8 | ((c >> 12) & 0x3F) as u8 != 0) by (bit_vector);
        let head = encode_scalar(c);
        assert(forall|i: int| 0 <= i < head.len() ==> #[trigger] head[i] != 0);
        assert(encode_utf8(s) == head + encode_utf8(rest));
    }
}

proof fn lemma_last_line(a: Seq<Seq<char>>)
    requires
        a.len() > 0,
    ensures
        lines(a) == lines(a.drop_last()) + encode_utf8(a.last()).push(0u8),
{
    let f = |s: Seq<char>| encode_utf8(s).push(0u8);
    a.drop_last().lemma_flat_map_push(f, a.last());
    assert(a.drop_last().push(a.last()) =~= a);
}

proof fn lemma_no_lines(a: Seq<Seq<char>>)
    requires
        a.len() == 0,
    ensures
        lines(a).len() == 0,
{
    reveal_with_fuel(Seq::flatten, 2);
    let f = |s: Seq<char>| encode_utf8(s).push(0u8);
    assert(a.map_values(f) =~= Seq::empty());
}

proof fn lemma_lines_tell_texts(a: Seq<Seq<char>>, b: Seq<Seq<char>>)
    requires
        forall|i: int| 0 <= i < a.len() ==> unbroken(#[trigger] a[i]),
        forall|i: int| 0 <= i < b.len() ==> unbroken(#[trigger] b[i]),
        lines(a) == lines(b),
    ensures
        a == b,
    decreases a.len(),
{
    if a.len() == 0 || b.len() == 0 {
        if a.len() > 0 {
            lemma_last_line(a);
            lemma_no_lines(b);
        } else if b.len() > 0 {
            lemma_last_line(b);
            lemma_no_lines(a);
        }
        assert(a =~= b);
    } else {
        let (a0, b0) = (a.drop_last(), b.drop_last());
        let (x, y) = (encode_utf8(a.last()), encode_utf8(b.last()));
        let (p, q) = (lines(a0), lines(b0));
        let l = lines(a);
        lemma_last_line(a);
        lemma_last_line(b);
        assert(unbroken(a[a.len() - 1]) && unbroken(b[b.len() - 1]));
        lemma_unbroken_bytes(a.last());
        lemma_unbroken_bytes(b.last());
        assert(l == p + x.push(0u8));
        assert(l == q + y.push(0u8));
        lemma_lines_end(a0);
        lemma_lines_end(b0);
        if x.len() < y.len() {
            let k = p.len() - 1;
            assert(k >= q.len());
            assert(l[k] == p[k]);
            assert(l[k] == y[k - q.len()]);
        } else if y.len() < x.len() {
            let k = q.len() - 1;
            assert(k >= p.len());
            assert(l[k] == q[k]);
            assert(l[k] == x[k - p.len()]);
        }
        assert(p =~= l.take(p.len() as int));
        assert(q =~= l.take(q.len() as int));
        assert(x =~= l.subrange(p.len() as int, l.len() - 1));
        assert(y =~= l.subrange(q.len() as int, l.len() - 1));
        encode_utf8_decode_utf8(a.last());
        encode_utf8_decode_utf8(b.last());
        lemma_lines_tell_texts(a0, b0);
        assert(a =~= a0.push(a.last()));
        assert(b =~= b0.push(b.last()));
    }
}

proof fn lemma_lines_end(a: Seq<Seq<char>>)
    ensures
        lines(a).len() > 0 ==> lines(a).last() == 0,
{
    if a.len() == 0 {
        lemma_no_lines(a);
    } else {
        lemma_last_line(a);
    }
}

/// What a fingerprint covers beside the status that routes have by now.
pub open spec fn same_intent(a: FingerprintView, b: FingerprintView) -> bool {
    a == FingerprintView { observed_route_parents: a.observed_route_parents, ..b }
}

/// A status that someone else has written over does not go unnoticed: where
/// only the observed status of routes differs, the bytes that are hashed
/// differ.
pub proof fn law_fingerprint_tells_observed_status(a: FingerprintView, b: FingerprintView)
    requires
        same_intent(a, b),
        forall|i: int|
            0 <= i < a.observed_route_parents.len() ==> unbroken(
                #[trigger] a.observed_route_parents[i],
            ),
        forall|i: int|
            0 <= i < b.observed_route_parents.len() ==> unbroken(
                #[trigger] b.observed_route_parents[i],
            ),
    ensures
        a.bytes() == b.bytes() <==> a.observed_route_parents.to_multiset()
            == b.observed_route_parents.to_multiset(),
{
    let (oa, ob) = (a.observed_route_parents, b.observed_route_parents);
    let (sa, sb) = (order::sort_seq::<String>(oa), order::sort_seq::<String>(ob));
    order::lemma_sort_multiset::<String>(oa);
    order::lemma_sort_multiset::<String>(ob);
    if oa.to_multiset() == ob.to_multiset() {
        law_fingerprint_ignores_order(a, b);
    }
    if a.bytes() == b.bytes() {
        lemma_same_middle(
            a.intent_bytes(),
            lines(sa),
            lines(sb),
            if a.dp_ready {
                1u8
            } else {
                0u8
            },
        );
        lemma_same_elements_unbroken(oa, sa);
        lemma_same_elements_unbroken(ob, sb);
        lemma_lines_tell_texts(sa, sb);
    }
}

proof fn lemma_same_middle(head: Seq<u8>, x: Seq<u8>, y: Seq<u8>, last: u8)
    requires
        head + x + seq![last] == head + y + seq![last],
    ensures
        x == y,
{
    let whole = head + x + seq![last];
    assert(x =~= whole.subrange(head.len() as int, whole.len() - 1));
    assert(y =~= whole.subrange(head.len() as int, whole.len() - 1));
}

proof fn lemma_same_elements_unbroken(a: Seq<Seq<char>>, b: Seq<Seq<char>>)
    requires
        a.to_multiset() == b.to_multiset(),
        forall|i: int| 0 <= i < a.len() ==> unbroken(#[trigger] a[i]),
    ensures
        forall|i: int| 0 <= i < b.len() ==> unbroken(#[trigger] b[i]),
{
    broadcast use group_to_multiset_ensures;

    assert forall|i: int| 0 <= i < b.len() implies unbroken(#[trigger] b[i]) by {
        assert(b.contains(b[i]));
        assert(b.to_multiset().count(b[i]) > 0);
        assert(a.contains(b[i]));
    }
}

proof fn lemma_cancel<A>(head: Seq<A>, x: Seq<A>, y: Seq<A>, tail: Seq<A>)
    requires
        head + x + tail == head + y + tail,
    ensures
        x == y,
{
    let whole = head + x + tail;
    assert(whole.len() == head.len() + x.len() + tail.len());
    assert(whole.len() == head.len() + y.len() + tail.len());
    assert(x =~= whole.subrange(head.len() as int, (head.len() + x.len()) as int));
    assert(y =~= (head + y + tail).subrange(head.len() as int, (head.len() + y.len()) as int));
}

/// Sorted lines tell which texts they are of, as long as no text holds the
/// character that ends a line.
pub proof fn law_lines_tell_their_texts(x: Seq<Seq<char>>, y: Seq<Seq<char>>)
    requires
        forall|i: int| 0 <= i < x.len() ==> unbroken(#[trigger] x[i]),
        forall|i: int| 0 <= i < y.len() ==> unbroken(#[trigger] y[i]),
    ensures
        sorted_lines(x) == sorted_lines(y) <==> x.to_multiset() == y.to_multiset(),
{
    let (s, t) = (order::sort_seq::<String>(x), order::sort_seq::<String>(y));
    order::lemma_sort_multiset::<String>(x);
    order::lemma_sort_multiset::<String>(y);
    if sorted_lines(x) == sorted_lines(y) {
        lemma_same_elements_unbroken(x, s);
        lemma_same_elements_unbroken(y, t);
        lemma_lines_tell_texts(s, t);
    }
    if x.to_multiset() == y.to_multiset() {
        order::law_sort_ignores_order(x, y);
    }
}

/// Every part counts: where two passes differ in one part alone, the bytes that
/// are hashed are the same only if that part reads the same.
pub proof fn law_every_part_counts(a: FingerprintView, b: FingerprintView)
    ensures
        ({
            let same = a.bytes() == b.bytes();
            let certs = |v: FingerprintView|
                v.listeners.flat_map(|l: ListenerConfigView| l.material());
            &&& a == (FingerprintView { config_json: a.config_json, ..b }) ==> (same
                <==> a.config_json == b.config_json)
            &&& a == (FingerprintView { listeners: a.listeners, ..b }) ==> (same <==> certs(a)
                == certs(b))
            &&& a == (FingerprintView { endpoint_overrides: a.endpoint_overrides, ..b }) ==> (same
                <==> sorted_lines(a.override_lines()) == sorted_lines(b.override_lines()))
            &&& a == (FingerprintView { app_protocol_overrides: a.app_protocol_overrides, ..b })
                ==> (same <==> sorted_lines(a.override_lines()) == sorted_lines(
                b.override_lines(),
            ))
            &&& a == (FingerprintView { headless_target_ports: a.headless_target_ports, ..b })
                ==> (same <==> sorted_lines(a.override_lines()) == sorted_lines(
                b.override_lines(),
            ))
            &&& a == (FingerprintView { accepted: a.accepted, ..b }) ==> (same
                <==> a.accepted.rendered() == b.accepted.rendered())
            &&& a == (FingerprintView { listener_statuses: a.listener_statuses, ..b }) ==> (same
                <==> sorted_lines(a.listener_lines()) == sorted_lines(b.listener_lines()))
            &&& a == (FingerprintView { interface_ips: a.interface_ips, ..b }) ==> (same
                <==> sorted_lines(a.interface_ips) == sorted_lines(b.interface_ips))
            &&& a == (FingerprintView { network_ips: a.network_ips, ..b }) ==> (same
                <==> sorted_lines(a.network_lines()) == sorted_lines(b.network_lines()))
            &&& a == (FingerprintView { route_status: a.route_status, ..b }) ==> (same
                <==> sorted_lines(a.route_lines()) == sorted_lines(b.route_lines()))
            &&& a == (FingerprintView { dp_ready: a.dp_ready, ..b }) ==> (same <==> a.dp_ready
                == b.dp_ready)
        }),
{
    if a == (FingerprintView { config_json: a.config_json, ..b }) {
        lemma_differs_in_one_part(a, b, 0);
    }
    if a == (FingerprintView { listeners: a.listeners, ..b }) {
        lemma_differs_in_one_part(a, b, 1);
    }
    if a == (FingerprintView { endpoint_overrides: a.endpoint_overrides, ..b }) || a == (FingerprintView { app_protocol_overrides: a.app_protocol_overrides, ..b }) || a == (FingerprintView { headless_target_ports: a.headless_target_ports, ..b }) {
        lemma_differs_in_one_part(a, b, 2);
    }
    if a == (FingerprintView { accepted: a.accepted, ..b }) {
        lemma_differs_in_one_part(a, b, 3);
        if byte_part(a, 3) == byte_part(b, 3) {
            text::lemma_bytes_determine_text(a.accepted.rendered(), b.accepted.rendered());
        }
    }
    if a == (FingerprintView { listener_statuses: a.listener_statuses, ..b }) {
        lemma_differs_in_one_part(a, b, 4);
    }
    if a == (FingerprintView { interface_ips: a.interface_ips, ..b }) {
        lemma_differs_in_one_part(a, b, 5);
    }
    if a == (FingerprintView { network_ips: a.network_ips, ..b }) {
        lemma_differs_in_one_part(a, b, 6);
    }
    if a == (FingerprintView { route_status: a.route_status, ..b }) {
        lemma_differs_in_one_part(a, b, 7);
    }
    if a == (FingerprintView { dp_ready: a.dp_ready, ..b }) {
        lemma_differs_in_one_part(a, b, 9);
        assert(byte_part(a, 9)[0] == byte_part(b, 9)[0] ==> a.dp_ready == b.dp_ready);
    }
}

/// The parts of the bytes, in order.
spec fn byte_part(v: FingerprintView, i: int) -> Seq<u8> {
    if i == 0 {
        v.config_json
    } else if i == 1 {
        v.listeners.flat_map(|l: ListenerConfigView| l.material())
    } else if i == 2 {
        sorted_lines(v.override_lines())
    } else if i == 3 {
        encode_utf8(v.accepted.rendered())
    } else if i == 4 {
        sorted_lines(v.listener_lines())
    } else if i == 5 {
        sorted_lines(v.interface_ips)
    } else if i == 6 {
        sorted_lines(v.network_lines())
    } else if i == 7 {
        sorted_lines(v.route_lines())
    } else if i == 8 {
        sorted_lines(v.observed_route_parents)
    } else {
        seq![
            if v.dp_ready {
                1u8
            } else {
                0u8
            },
        ]
    }
}

proof fn lemma_bytes_are_parts(v: FingerprintView)
    ensures
        v.bytes() == joined(Seq::new(10, |i: int| byte_part(v, i))),
{
    lemma_ten_parts(Seq::new(10, |i: int| byte_part(v, i)));
}

proof fn lemma_differs_in_one_part(a: FingerprintView, b: FingerprintView, k: int)
    requires
        0 <= k < 10,
        forall|i: int| 0 <= i < 10 && i != k ==> byte_part(a, i) == byte_part(b, i),
    ensures
        a.bytes() == b.bytes() <==> byte_part(a, k) == byte_part(b, k),
{
    lemma_bytes_are_parts(a);
    lemma_bytes_are_parts(b);
    let p = Seq::new(10, |i: int| byte_part(a, i));
    let q = Seq::new(10, |i: int| byte_part(b, i));
    assert(p =~= q.update(k, p[k]));
    lemma_one_part(q, k, p[k]);
}

/// Parts of bytes, one behind the other.
spec fn joined(parts: Seq<Seq<u8>>) -> Seq<u8>
    decreases parts.len(),
{
    if parts.len() == 0 {
        Seq::empty()
    } else {
        joined(parts.drop_last()) + parts.last()
    }
}

proof fn lemma_ten_parts(p: Seq<Seq<u8>>)
    requires
        p.len() == 10,
    ensures
        joined(p) == p[0] + p[1] + p[2] + p[3] + p[4] + p[5] + p[6] + p[7] + p[8] + p[9],
{
    lemma_joined_take(p, 1);
    lemma_joined_take(p, 2);
    lemma_joined_take(p, 3);
    lemma_joined_take(p, 4);
    lemma_joined_take(p, 5);
    lemma_joined_take(p, 6);
    lemma_joined_take(p, 7);
    lemma_joined_take(p, 8);
    lemma_joined_take(p, 9);
    lemma_joined_take(p, 10);
    assert(joined(p.take(0)) =~= Seq::empty());
    assert(Seq::empty() + p[0] =~= p[0]);
    assert(p.take(10) =~= p);
}

proof fn lemma_joined_take(p: Seq<Seq<u8>>, n: int)
    requires
        1 <= n <= p.len(),
    ensures
        joined(p.take(n)) == joined(p.take(n - 1)) + p[n - 1],
{
    assert(p.take(n).drop_last() =~= p.take(n - 1));
    assert(p.take(n).last() == p[n - 1]);
}

proof fn lemma_joined_adds(x: Seq<Seq<u8>>, y: Seq<Seq<u8>>)
    ensures
        joined(x + y) == joined(x) + joined(y),
    decreases y.len(),
{
    if y.len() == 0 {
        assert(x + y =~= x);
        assert(joined(x) + joined(y) =~= joined(x));
    } else {
        assert((x + y).drop_last() =~= x + y.drop_last());
        assert((x + y).last() == y.last());
        lemma_joined_adds(x, y.drop_last());
        assert(joined(x) + (joined(y.drop_last()) + y.last()) =~= (joined(x) + joined(
            y.drop_last(),
        )) + y.last());
    }
}

proof fn lemma_one_part(p: Seq<Seq<u8>>, i: int, x: Seq<u8>)
    requires
        0 <= i < p.len(),
    ensures
        joined(p.update(i, x)) == joined(p) <==> x == p[i],
{
    let (head, tail) = (p.take(i), p.skip(i + 1));
    assert(p =~= head + seq![p[i]] + tail);
    assert(p.update(i, x) =~= head + seq![x] + tail);
    lemma_joined_adds(head + seq![p[i]], tail);
    lemma_joined_adds(head, seq![p[i]]);
    lemma_joined_adds(head + seq![x], tail);
    lemma_joined_adds(head, seq![x]);
    lemma_joined_one(x);
    lemma_joined_one(p[i]);
    if joined(p.update(i, x)) == joined(p) {
        lemma_cancel(joined(head), x, p[i], joined(tail));
    } else if x == p[i] {
        assert(p.update(i, x) =~= p);
    }
}

proof fn lemma_joined_one(x: Seq<u8>)
    ensures
        joined(seq![x]) == x,
{
    assert(seq![x].drop_last() =~= Seq::empty());
    assert(joined(Seq::<Seq<u8>>::empty()) =~= Seq::empty());
    assert(Seq::empty() + x =~= x);
}

/// The material of a certificate is its name, the certificate and the key, and
/// that of a listener is the material of its certificates in order.
pub proof fn law_certificate_material(
    c: CertificateRefView,
    l: ListenerConfigView,
    t: crate::config::TlsConfigView,
    refs: Seq<CertificateRefView>,
)
    ensures
        c.cert_pem is Some && c.key_pem is Some ==> c.material() == encode_utf8(c.name)
            + c.cert_pem->0 + c.key_pem->0,
        c.cert_pem is None && c.key_pem is None ==> c.material() == encode_utf8(c.name),
        c.cert_pem is Some && c.key_pem is None ==> c.material() == encode_utf8(c.name)
            + c.cert_pem->0,
        c.cert_pem is None && c.key_pem is Some ==> c.material() == encode_utf8(c.name)
            + c.key_pem->0,
        (ListenerConfigView { tls: None, ..l }).material().len() == 0,
        ({
            let of = |list: Seq<CertificateRefView>|
                (ListenerConfigView {
                    tls: Some(crate::config::TlsConfigView { certificate_refs: list, ..t }),
                    ..l
                }).material();
            &&& of(Seq::empty()).len() == 0
            &&& of(refs.push(c)) == of(refs) + c.material()
        }),
{
    let none = Seq::<u8>::empty();
    assert(encode_utf8(c.name) + none + none =~= encode_utf8(c.name));
    let f = |x: CertificateRefView| x.material();
    refs.lemma_flat_map_push(f, c);
    assert(Seq::<CertificateRefView>::empty().flat_map(f) =~= Seq::empty());
}

/// What the lines of overrides and addresses say: the kind of the line, the key
/// and the value.
pub proof fn law_line_contents(
    name: Seq<char>,
    port: u16,
    protocol: Seq<char>,
    target: u16,
    other: u16,
    list: Seq<(Seq<char>, u16)>,
    k: (Seq<char>, u16),
)
    ensures
        ({
            let key = "("@ + text::str_debug(name) + ", "@ + text::decimal(port as nat) + ")"@;
            let at = "("@ + text::str_debug(k.0) + ", "@ + text::decimal(k.1 as nat) + ")"@;
            &&& protocol_line(((name, port), protocol)) == "ap"@ + key + "="@ + protocol
            &&& target_line(((name, port), target)) == "ht"@ + key + "="@ + text::decimal(
                target as nat,
            )
            &&& network_line((name, protocol)) == name + "="@ + protocol
            &&& endpoint_line(((name, port), seq![k])) == "ep"@ + key + "="@ + "["@ + at + "]"@
            &&& endpoint_line(((name, port), Seq::empty())) == "ep"@ + key + "="@ + "["@ + "]"@
            &&& target_line(((name, port), target)) == target_line(((name, port), other))
                <==> target == other
        }),
{
    let f = |x: (Seq<char>, u16)| key_text(x);
    let key = key_text((name, port));
    text::law_joining(Seq::empty(), key_text(k), ", "@);
    assert(seq![k].map_values(f) =~= seq![key_text(k)]);
    assert(Seq::<(Seq<char>, u16)>::empty().map_values(f) =~= Seq::empty());
    assert(endpoint_line(((name, port), seq![k])) =~= "ep"@ + key + "="@ + "["@ + key_text(k)
        + "]"@);
    assert(endpoint_line(((name, port), Seq::empty())) =~= "ep"@ + key + "="@ + "["@ + "]"@);
    text::law_decimal_round_trip(target as nat);
    text::law_decimal_round_trip(other as nat);
    if target_line(((name, port), target)) == target_line(((name, port), other)) {
        let (s, t) = (text::decimal(target as nat), text::decimal(other as nat));
        let head = "ht"@ + key + "="@;
        let none = Seq::<char>::empty();
        assert(head + s + none =~= head + s);
        assert(head + t + none =~= head + t);
        lemma_cancel(head, s, t, none);
    }
}

/// One more endpoint comes behind the others of its line.
pub proof fn law_endpoint_lists(
    key: (Seq<char>, u16),
    list: Seq<(Seq<char>, u16)>,
    k: (Seq<char>, u16),
)
    requires
        list.len() > 0,
    ensures
        endpoint_line((key, list.push(k))) == endpoint_line((key, list)).drop_last() + ", "@ + "("@
            + text::str_debug(k.0) + ", "@ + text::decimal(k.1 as nat) + ")"@ + "]"@,
{
    reveal_strlit("]");
    let f = |x: (Seq<char>, u16)| key_text(x);
    let rendered = list.map_values(f);
    text::law_joining(rendered, key_text(k), ", "@);
    assert(list.push(k).map_values(f) =~= rendered.push(key_text(k)));
    let head = "ep"@ + key_text(key) + "="@ + ("["@ + text::join(rendered, ", "@));
    assert(endpoint_line((key, list)) =~= head + "]"@);
    assert(endpoint_line((key, list)).drop_last() =~= head);
    assert(endpoint_line((key, list.push(k))) =~= head + ", "@ + key_text(k) + "]"@);
    assert(endpoint_line((key, list.push(k))) =~= endpoint_line((key, list)).drop_last() + ", "@
        + "("@ + text::str_debug(k.0) + ", "@ + text::decimal(k.1 as nat) + ")"@ + "]"@);
}

proof fn lemma_join_middle(
    head: Seq<Seq<char>>,
    x: Seq<char>,
    tail: Seq<Seq<char>>,
    sep: Seq<char>,
)
    ensures
        text::join(head + seq![x] + tail, sep) == (if head.len() == 0 {
            Seq::empty()
        } else {
            text::join(head, sep) + sep
        }) + x + (if tail.len() == 0 {
            Seq::empty()
        } else {
            sep + text::join(tail, sep)
        }),
    decreases tail.len(),
{
    let all = head + seq![x] + tail;
    let front = if head.len() == 0 {
        Seq::empty()
    } else {
        text::join(head, sep) + sep
    };
    if tail.len() == 0 {
        assert(all =~= head.push(x));
        if head.len() == 0 {
            assert(all =~= seq![x]);
        }
        text::law_joining(head, x, sep);
        assert(text::join(all, sep) =~= front + x + Seq::empty());
    } else {
        let init = tail.drop_last();
        lemma_join_middle(head, x, init, sep);
        assert(all.drop_last() =~= head + seq![x] + init);
        assert(all.last() == tail.last());
        let before = text::join(head + seq![x] + init, sep);
        assert(text::join(all, sep) == before + sep + tail.last());
        if init.len() == 0 {
            assert(tail =~= seq![tail[0]]);
            text::law_joining(init, tail[0], sep);
            assert(text::join(all, sep) =~= front + x + (sep + text::join(tail, sep)));
        } else {
            assert(tail =~= init.push(tail.last()));
            text::law_joining(init, tail.last(), sep);
            assert(text::join(all, sep) =~= front + x + (sep + text::join(tail, sep)));
        }
    }
}

proof fn lemma_one_field(
    title: Seq<char>,
    fields: Seq<Seq<char>>,
    i: int,
    name: Seq<char>,
    x: Seq<char>,
    y: Seq<char>,
)
    requires
        0 <= i < fields.len(),
        fields[i] == field(name, y),
    ensures
        record_text(title, fields.update(i, field(name, x))) == record_text(title, fields) <==> x
            == y,
{
    let sep = ", "@;
    let (head, tail) = (fields.take(i), fields.skip(i + 1));
    let other = fields.update(i, field(name, x));
    assert(fields =~= head + seq![field(name, y)] + tail);
    assert(other =~= head + seq![field(name, x)] + tail);
    lemma_join_middle(head, field(name, x), tail, sep);
    lemma_join_middle(head, field(name, y), tail, sep);
    let front = if head.len() == 0 {
        Seq::empty()
    } else {
        text::join(head, sep) + sep
    };
    let back = if tail.len() == 0 {
        Seq::empty()
    } else {
        sep + text::join(tail, sep)
    };
    let start = title + " { "@ + front + name + ": "@;
    let end = back + " }"@;
    assert(record_text(title, other) =~= start + x + end);
    assert(record_text(title, fields) =~= start + y + end);
    if record_text(title, other) == record_text(title, fields) {
        lemma_cancel(start, x, y, end);
    }
}

proof fn lemma_flag_texts()
    ensures
        bool_text(true) != bool_text(false),
{
    reveal_strlit("true");
    reveal_strlit("false");
    assert("true"@.len() == 4 && "false"@.len() == 5);
}

proof fn lemma_number_text(a: Option<int>, b: Option<int>)
    ensures
        optional_number_text(a) == optional_number_text(b) <==> a == b,
{
    reveal_strlit("Some(");
    reveal_strlit("None");
    assert("Some("@[0] == 'S' && "None"@[0] == 'N' && "Some("@.len() == 5 && "None"@.len() == 4);
    if a is Some {
        lemma_signed_text(a->0);
        assert(optional_number_text(a)[0] == 'S');
    }
    if b is Some {
        lemma_signed_text(b->0);
        assert(optional_number_text(b)[0] == 'S');
    }
    if a is Some && b is Some && optional_number_text(a) == optional_number_text(b) {
        lemma_cancel(
            "Some("@,
            text::signed_decimal(a->0),
            text::signed_decimal(b->0),
            ")"@,
        );
        let (m, n) = (a->0, b->0);
        let (s, t) = (text::signed_decimal(m), text::signed_decimal(n));
        if m < 0 && n < 0 {
            assert(s.drop_first() =~= text::decimal((-m) as nat));
            assert(t.drop_first() =~= text::decimal((-n) as nat));
            text::law_decimal_round_trip((-m) as nat);
            text::law_decimal_round_trip((-n) as nat);
        } else if m >= 0 && n >= 0 {
            text::law_decimal_round_trip(m as nat);
            text::law_decimal_round_trip(n as nat);
        }
    }
}

proof fn lemma_signed_text(n: int)
    ensures
        n < 0 <==> text::signed_decimal(n).len() > 0 && text::signed_decimal(n)[0] == '-',
{
    if n >= 0 {
        text::law_decimal_round_trip(n as nat);
    }
}

/// Every field of a condition counts.
pub proof fn law_condition_fields_count(a: GatewayConditionView, b: GatewayConditionView)
    ensures
        a == (GatewayConditionView { ok: a.ok, ..b }) ==> (a.rendered() == b.rendered() <==> a.ok
            == b.ok),
        a == (GatewayConditionView { reason: a.reason, ..b }) ==> (a.rendered() == b.rendered()
            <==> text::str_debug(a.reason) == text::str_debug(b.reason)),
        a == (GatewayConditionView { message: a.message, ..b }) ==> (a.rendered() == b.rendered()
            <==> text::str_debug(a.message) == text::str_debug(b.message)),
{
    lemma_flag_texts();
    let x = seq![
        field("ok"@, bool_text(a.ok)),
        field("reason"@, text::str_debug(a.reason)),
        field("message"@, text::str_debug(a.message)),
    ];
    let y = seq![
        field("ok"@, bool_text(b.ok)),
        field("reason"@, text::str_debug(b.reason)),
        field("message"@, text::str_debug(b.message)),
    ];
    let title = "GatewayCondition"@;
    if a == (GatewayConditionView { ok: a.ok, ..b }) {
        assert(x =~= y.update(0, x[0]));
        lemma_one_field(title, y, 0, "ok"@, bool_text(a.ok), bool_text(b.ok));
    }
    if a == (GatewayConditionView { reason: a.reason, ..b }) {
        assert(x =~= y.update(1, x[1]));
        lemma_one_field(
            title,
            y,
            1,
            "reason"@,
            text::str_debug(a.reason),
            text::str_debug(b.reason),
        );
    }
    if a == (GatewayConditionView { message: a.message, ..b }) {
        assert(x =~= y.update(2, x[2]));
        lemma_one_field(
            title,
            y,
            2,
            "message"@,
            text::str_debug(a.message),
            text::str_debug(b.message),
        );
    }
}

/// Every field of the state of a listener counts.
pub proof fn law_listener_fields_count(a: ListenerStatusView, b: ListenerStatusView)
    ensures
        a == (ListenerStatusView { accepted: a.accepted, ..b }) ==> (a.rendered() == b.rendered()
            <==> a.accepted == b.accepted),
        a == (ListenerStatusView { accepted_reason: a.accepted_reason, ..b }) ==> (a.rendered() == b.rendered()
            <==> text::str_debug(a.accepted_reason) == text::str_debug(b.accepted_reason)),
        a == (ListenerStatusView { accepted_message: a.accepted_message, ..b }) ==> (a.rendered() == b.rendered()
            <==> text::str_debug(a.accepted_message) == text::str_debug(b.accepted_message)),
        a == (ListenerStatusView { programmed: a.programmed, ..b }) ==> (a.rendered() == b.rendered()
            <==> a.programmed == b.programmed),
        a == (ListenerStatusView { programmed_reason: a.programmed_reason, ..b }) ==> (a.rendered() == b.rendered()
            <==> text::str_debug(a.programmed_reason) == text::str_debug(b.programmed_reason)),
        a == (ListenerStatusView { programmed_message: a.programmed_message, ..b }) ==> (a.rendered() == b.rendered()
            <==> text::str_debug(a.programmed_message) == text::str_debug(b.programmed_message)),
        a == (ListenerStatusView { resolved_refs: a.resolved_refs, ..b }) ==> (a.rendered() == b.rendered()
            <==> a.resolved_refs == b.resolved_refs),
        a == (ListenerStatusView { resolved_refs_reason: a.resolved_refs_reason, ..b }) ==> (a.rendered() == b.rendered()
            <==> text::str_debug(a.resolved_refs_reason) == text::str_debug(b.resolved_refs_reason)),
        a == (ListenerStatusView { resolved_refs_message: a.resolved_refs_message, ..b }) ==> (a.rendered() == b.rendered()
            <==> text::str_debug(a.resolved_refs_message) == text::str_debug(b.resolved_refs_message)),
        a == (ListenerStatusView { conflicted: a.conflicted, ..b }) ==> (a.rendered() == b.rendered()
            <==> a.conflicted == b.conflicted),
        a == (ListenerStatusView { conflicted_reason: a.conflicted_reason, ..b }) ==> (a.rendered() == b.rendered()
            <==> text::str_debug(a.conflicted_reason) == text::str_debug(b.conflicted_reason)),
        a == (ListenerStatusView { conflicted_message: a.conflicted_message, ..b }) ==> (a.rendered() == b.rendered()
            <==> text::str_debug(a.conflicted_message) == text::str_debug(b.conflicted_message)),
        a == (ListenerStatusView { supported_kinds: a.supported_kinds, ..b }) ==> (a.rendered() == b.rendered()
            <==> documents_text(a.supported_kinds) == documents_text(b.supported_kinds)),
{
    lemma_flag_texts();
    let x = seq![
        field("accepted"@, bool_text(a.accepted)),
        field("accepted_reason"@, text::str_debug(a.accepted_reason)),
        field("accepted_message"@, text::str_debug(a.accepted_message)),
        field("programmed"@, bool_text(a.programmed)),
        field("programmed_reason"@, text::str_debug(a.programmed_reason)),
        field("programmed_message"@, text::str_debug(a.programmed_message)),
        field("resolved_refs"@, bool_text(a.resolved_refs)),
        field("resolved_refs_reason"@, text::str_debug(a.resolved_refs_reason)),
        field("resolved_refs_message"@, text::str_debug(a.resolved_refs_message)),
        field("conflicted"@, bool_text(a.conflicted)),
        field("conflicted_reason"@, text::str_debug(a.conflicted_reason)),
        field("conflicted_message"@, text::str_debug(a.conflicted_message)),
        field("supported_kinds"@, documents_text(a.supported_kinds)),
    ];
    let y = seq![
        field("accepted"@, bool_text(b.accepted)),
        field("accepted_reason"@, text::str_debug(b.accepted_reason)),
        field("accepted_message"@, text::str_debug(b.accepted_message)),
        field("programmed"@, bool_text(b.programmed)),
        field("programmed_reason"@, text::str_debug(b.programmed_reason)),
        field("programmed_message"@, text::str_debug(b.programmed_message)),
        field("resolved_refs"@, bool_text(b.resolved_refs)),
        field("resolved_refs_reason"@, text::str_debug(b.resolved_refs_reason)),
        field("resolved_refs_message"@, text::str_debug(b.resolved_refs_message)),
        field("conflicted"@, bool_text(b.conflicted)),
        field("conflicted_reason"@, text::str_debug(b.conflicted_reason)),
        field("conflicted_message"@, text::str_debug(b.conflicted_message)),
        field("supported_kinds"@, documents_text(b.supported_kinds)),
    ];
    if a == (ListenerStatusView { accepted: a.accepted, ..b }) {
        assert(x =~= y.update(0, x[0]));
        lemma_one_field("ListenerStatus"@, y, 0, "accepted"@, bool_text(a.accepted), bool_text(b.accepted));
    }
    if a == (ListenerStatusView { accepted_reason: a.accepted_reason, ..b }) {
        assert(x =~= y.update(1, x[1]));
        lemma_one_field("ListenerStatus"@, y, 1, "accepted_reason"@, text::str_debug(a.accepted_reason), text::str_debug(b.accepted_reason));
    }
    if a == (ListenerStatusView { accepted_message: a.accepted_message, ..b }) {
        assert(x =~= y.update(2, x[2]));
        lemma_one_field("ListenerStatus"@, y, 2, "accepted_message"@, text::str_debug(a.accepted_message), text::str_debug(b.accepted_message));
    }
    if a == (ListenerStatusView { programmed: a.programmed, ..b }) {
        assert(x =~= y.update(3, x[3]));
        lemma_one_field("ListenerStatus"@, y, 3, "programmed"@, bool_text(a.programmed), bool_text(b.programmed));
    }
    if a == (ListenerStatusView { programmed_reason: a.programmed_reason, ..b }) {
        assert(x =~= y.update(4, x[4]));
        lemma_one_field("ListenerStatus"@, y, 4, "programmed_reason"@, text::str_debug(a.programmed_reason), text::str_debug(b.programmed_reason));
    }
    if a == (ListenerStatusView { programmed_message: a.programmed_message, ..b }) {
        assert(x =~= y.update(5, x[5]));
        lemma_one_field("ListenerStatus"@, y, 5, "programmed_message"@, text::str_debug(a.programmed_message), text::str_debug(b.programmed_message));
    }
    if a == (ListenerStatusView { resolved_refs: a.resolved_refs, ..b }) {
        assert(x =~= y.update(6, x[6]));
        lemma_one_field("ListenerStatus"@, y, 6, "resolved_refs"@, bool_text(a.resolved_refs), bool_text(b.resolved_refs));
    }
    if a == (ListenerStatusView { resolved_refs_reason: a.resolved_refs_reason, ..b }) {
        assert(x =~= y.update(7, x[7]));
        lemma_one_field("ListenerStatus"@, y, 7, "resolved_refs_reason"@, text::str_debug(a.resolved_refs_reason), text::str_debug(b.resolved_refs_reason));
    }
    if a == (ListenerStatusView { resolved_refs_message: a.resolved_refs_message, ..b }) {
        assert(x =~= y.update(8, x[8]));
        lemma_one_field("ListenerStatus"@, y, 8, "resolved_refs_message"@, text::str_debug(a.resolved_refs_message), text::str_debug(b.resolved_refs_message));
    }
    if a == (ListenerStatusView { conflicted: a.conflicted, ..b }) {
        assert(x =~= y.update(9, x[9]));
        lemma_one_field("ListenerStatus"@, y, 9, "conflicted"@, bool_text(a.conflicted), bool_text(b.conflicted));
    }
    if a == (ListenerStatusView { conflicted_reason: a.conflicted_reason, ..b }) {
        assert(x =~= y.update(10, x[10]));
        lemma_one_field("ListenerStatus"@, y, 10, "conflicted_reason"@, text::str_debug(a.conflicted_reason), text::str_debug(b.conflicted_reason));
    }
    if a == (ListenerStatusView { conflicted_message: a.conflicted_message, ..b }) {
        assert(x =~= y.update(11, x[11]));
        lemma_one_field("ListenerStatus"@, y, 11, "conflicted_message"@, text::str_debug(a.conflicted_message), text::str_debug(b.conflicted_message));
    }
    if a == (ListenerStatusView { supported_kinds: a.supported_kinds, ..b }) {
        assert(x =~= y.update(12, x[12]));
        lemma_one_field("ListenerStatus"@, y, 12, "supported_kinds"@, documents_text(a.supported_kinds), documents_text(b.supported_kinds));
    }
}

/// Every field of the verdict on a route counts.
pub proof fn law_verdict_fields_count(a: RouteAcceptanceView, b: RouteAcceptanceView)
    ensures
        a == (RouteAcceptanceView { name: a.name, ..b }) ==> (a.rendered() == b.rendered()
            <==> text::str_debug(a.name) == text::str_debug(b.name)),
        a == (RouteAcceptanceView { namespace: a.namespace, ..b }) ==> (a.rendered() == b.rendered()
            <==> text::str_debug(a.namespace) == text::str_debug(b.namespace)),
        a == (RouteAcceptanceView { kind: a.kind, ..b }) ==> (a.rendered() == b.rendered()
            <==> text::str_debug(a.kind) == text::str_debug(b.kind)),
        a == (RouteAcceptanceView { accepted: a.accepted, ..b }) ==> (a.rendered() == b.rendered()
            <==> a.accepted == b.accepted),
        a == (RouteAcceptanceView { accepted_reason: a.accepted_reason, ..b }) ==> (a.rendered() == b.rendered()
            <==> text::str_debug(a.accepted_reason) == text::str_debug(b.accepted_reason)),
        a == (RouteAcceptanceView { message: a.message, ..b }) ==> (a.rendered() == b.rendered()
            <==> text::str_debug(a.message) == text::str_debug(b.message)),
        a == (RouteAcceptanceView { refs_resolved: a.refs_resolved, ..b }) ==> (a.rendered() == b.rendered()
            <==> a.refs_resolved == b.refs_resolved),
        a == (RouteAcceptanceView { refs_reason: a.refs_reason, ..b }) ==> (a.rendered() == b.rendered()
            <==> text::str_debug(a.refs_reason) == text::str_debug(b.refs_reason)),
        a == (RouteAcceptanceView { refs_message: a.refs_message, ..b }) ==> (a.rendered() == b.rendered()
            <==> text::str_debug(a.refs_message) == text::str_debug(b.refs_message)),
        a == (RouteAcceptanceView { generation: a.generation, ..b }) ==> (a.rendered() == b.rendered()
            <==> a.generation == b.generation),
        a == (RouteAcceptanceView { section_name: a.section_name, ..b }) ==> (a.rendered() == b.rendered()
            <==> optional_string_text(a.section_name) == optional_string_text(
            b.section_name,
        )),
        a == (RouteAcceptanceView { port: a.port, ..b }) ==> (a.rendered() == b.rendered()
            <==> a.port == b.port),
        a == (RouteAcceptanceView { listener_names: a.listener_names, ..b }) ==> (a.rendered() == b.rendered()
            <==> strings_text(a.listener_names) == strings_text(b.listener_names)),
{
    lemma_flag_texts();
    let x = seq![
        field("name"@, text::str_debug(a.name)),
        field("namespace"@, text::str_debug(a.namespace)),
        field("kind"@, text::str_debug(a.kind)),
        field("accepted"@, bool_text(a.accepted)),
        field("accepted_reason"@, text::str_debug(a.accepted_reason)),
        field("message"@, text::str_debug(a.message)),
        field("refs_resolved"@, bool_text(a.refs_resolved)),
        field("refs_reason"@, text::str_debug(a.refs_reason)),
        field("refs_message"@, text::str_debug(a.refs_message)),
        field("generation"@, optional_number_text(
            match a.generation {
            Some(n) => Some(n as int),
            None => None,
        },
        )),
        field("section_name"@, optional_string_text(a.section_name)),
        field("port"@, optional_number_text(
            match a.port {
            Some(n) => Some(n as int),
            None => None,
        },
        )),
        field("listener_names"@, strings_text(a.listener_names)),
    ];
    let y = seq![
        field("name"@, text::str_debug(b.name)),
        field("namespace"@, text::str_debug(b.namespace)),
        field("kind"@, text::str_debug(b.kind)),
        field("accepted"@, bool_text(b.accepted)),
        field("accepted_reason"@, text::str_debug(b.accepted_reason)),
        field("message"@, text::str_debug(b.message)),
        field("refs_resolved"@, bool_text(b.refs_resolved)),
        field("refs_reason"@, text::str_debug(b.refs_reason)),
        field("refs_message"@, text::str_debug(b.refs_message)),
        field("generation"@, optional_number_text(
            match b.generation {
            Some(n) => Some(n as int),
            None => None,
        },
        )),
        field("section_name"@, optional_string_text(b.section_name)),
        field("port"@, optional_number_text(
            match b.port {
            Some(n) => Some(n as int),
            None => None,
        },
        )),
        field("listener_names"@, strings_text(b.listener_names)),
    ];
    if a == (RouteAcceptanceView { name: a.name, ..b }) {
        assert(x =~= y.update(0, x[0]));
        lemma_one_field("RouteAcceptance"@, y, 0, "name"@, text::str_debug(a.name), text::str_debug(b.name));
    }
    if a == (RouteAcceptanceView { namespace: a.namespace, ..b }) {
        assert(x =~= y.update(1, x[1]));
        lemma_one_field("RouteAcceptance"@, y, 1, "namespace"@, text::str_debug(a.namespace), text::str_debug(b.namespace));
    }
    if a == (RouteAcceptanceView { kind: a.kind, ..b }) {
        assert(x =~= y.update(2, x[2]));
        lemma_one_field("RouteAcceptance"@, y, 2, "kind"@, text::str_debug(a.kind), text::str_debug(b.kind));
    }
    if a == (RouteAcceptanceView { accepted: a.accepted, ..b }) {
        assert(x =~= y.update(3, x[3]));
        lemma_one_field("RouteAcceptance"@, y, 3, "accepted"@, bool_text(a.accepted), bool_text(b.accepted));
    }
    if a == (RouteAcceptanceView { accepted_reason: a.accepted_reason, ..b }) {
        assert(x =~= y.update(4, x[4]));
        lemma_one_field("RouteAcceptance"@, y, 4, "accepted_reason"@, text::str_debug(a.accepted_reason), text::str_debug(b.accepted_reason));
    }
    if a == (RouteAcceptanceView { message: a.message, ..b }) {
        assert(x =~= y.update(5, x[5]));
        lemma_one_field("RouteAcceptance"@, y, 5, "message"@, text::str_debug(a.message), text::str_debug(b.message));
    }
    if a == (RouteAcceptanceView { refs_resolved: a.refs_resolved, ..b }) {
        assert(x =~= y.update(6, x[6]));
        lemma_one_field("RouteAcceptance"@, y, 6, "refs_resolved"@, bool_text(a.refs_resolved), bool_text(b.refs_resolved));
    }
    if a == (RouteAcceptanceView { refs_reason: a.refs_reason, ..b }) {
        assert(x =~= y.update(7, x[7]));
        lemma_one_field("RouteAcceptance"@, y, 7, "refs_reason"@, text::str_debug(a.refs_reason), text::str_debug(b.refs_reason));
    }
    if a == (RouteAcceptanceView { refs_message: a.refs_message, ..b }) {
        assert(x =~= y.update(8, x[8]));
        lemma_one_field("RouteAcceptance"@, y, 8, "refs_message"@, text::str_debug(a.refs_message), text::str_debug(b.refs_message));
    }
    if a == (RouteAcceptanceView { generation: a.generation, ..b }) {
        lemma_number_text(match a.generation {
            Some(n) => Some(n as int),
            None => None,
        }, match b.generation {
            Some(n) => Some(n as int),
            None => None,
        });
        assert(x =~= y.update(9, x[9]));
        lemma_one_field("RouteAcceptance"@, y, 9, "generation"@, optional_number_text(
            match a.generation {
            Some(n) => Some(n as int),
            None => None,
        },
        ), optional_number_text(
            match b.generation {
            Some(n) => Some(n as int),
            None => None,
        },
        ));
    }
    if a == (RouteAcceptanceView { section_name: a.section_name, ..b }) {
        assert(x =~= y.update(10, x[10]));
        lemma_one_field("RouteAcceptance"@, y, 10, "section_name"@, optional_string_text(a.section_name), optional_string_text(b.section_name));
    }
    if a == (RouteAcceptanceView { port: a.port, ..b }) {
        lemma_number_text(match a.port {
            Some(n) => Some(n as int),
            None => None,
        }, match b.port {
            Some(n) => Some(n as int),
            None => None,
        });
        assert(x =~= y.update(11, x[11]));
        lemma_one_field("RouteAcceptance"@, y, 11, "port"@, optional_number_text(
            match a.port {
            Some(n) => Some(n as int),
            None => None,
        },
        ), optional_number_text(
            match b.port {
            Some(n) => Some(n as int),
            None => None,
        },
        ));
    }
    if a == (RouteAcceptanceView { listener_names: a.listener_names, ..b }) {
        assert(x =~= y.update(12, x[12]));
        lemma_one_field("RouteAcceptance"@, y, 12, "listener_names"@, strings_text(a.listener_names), strings_text(b.listener_names));
    }
}

/// The hash takes one byte after the other: the byte is mixed in by an exclusive
/// or, and the whole is multiplied, as far as 64 bits go.
pub proof fn law_hash_step(bytes: Seq<u8>, b: u8)
    ensures
        fnv_hash(Seq::empty()) == 14695981039346656037u64,
        fnv_hash(bytes.push(b)) as int == ((fnv_hash(bytes) ^ (b as u64)) as int * 1099511628211)
            % 0x1_0000_0000_0000_0000,
{
    assert(bytes.push(b).drop_last() =~= bytes);
    assert(bytes.push(b).last() == b);
}

} // verus!
