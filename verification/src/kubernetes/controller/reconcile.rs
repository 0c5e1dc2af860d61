//! The decisions of a reconcile pass.
use crate::config::{
    GatewayConfig, GatewayConfigView, HttpRouteConfig,
    HttpRouteConfigView, ListenerConfig, ListenerConfigView, ParentRef, ParentRefView,
    PortailConfig, PortailConfigView, TcpRouteConfig, TcpRouteConfigView, TlsRouteConfig,
    TlsRouteConfigView, UdpRouteConfig, UdpRouteConfigView,
};
use crate::dup::Dup;
use crate::kubernetes::controller::{skip_requeue_secs, success_requeue_secs};
use crate::kubernetes::reconciler::{RouteAcceptance, RouteAcceptanceView};
use crate::kubernetes::resources::{GatewayListeners, GatewayListenersView};
use crate::kubernetes::status::{
    GatewayCondition, GatewayConditionView, RouteParentStatus, RouteParentStatusView,
};
use crate::lists;
use crate::lists::{contains_same, filter_map_vec, flat_map_vec, map_vec};
use crate::order;
use crate::order::{sort_vec, str_le, Ranked};
use crate::table;
use crate::table::{group_of, Table};
use crate::text::str_eq;
use vstd::prelude::*;
use vstd::relations::*;
use vstd::seq_lib::*;

verus! {

// ---------------------------------------------------------------------------
// Endpoints
// ---------------------------------------------------------------------------

impl ListenerConfigView {
    /// The port that the data plane binds for the listener.
    pub open spec fn bound_port(self) -> u16 {
        match self.target_port {
            Some(p) => p,
            None => self.port,
        }
    }
}

/// The endpoints that listeners need bound: each bound port on each of the
/// addresses or, without addresses, on all.
pub open spec fn endpoints(listeners: Seq<ListenerConfigView>, addresses: Seq<Seq<char>>) -> Seq<
    (Option<Seq<char>>, u16),
> {
    if addresses.len() == 0 {
        listeners.map_values(|l: ListenerConfigView| (None, l.bound_port()))
    } else {
        addresses.flat_map(
            |a: Seq<char>| listeners.map_values(|l: ListenerConfigView| (Some(a), l.bound_port())),
        )
    }
}

fn bound_port_of(l: &ListenerConfig) -> (r: u16)
    ensures
        r == l.deep_view().bound_port(),
{
    match l.target_port {
        Some(p) => p,
        None => l.port,
    }
}

/// The (address, port) pairs that have to be bound before a Gateway counts as
/// programmed. The port is the one that is bound, which a fronting Service may
/// set apart from the published one.
pub fn required_endpoints(listeners: &Vec<ListenerConfig>, bind_addresses: &Vec<String>) -> (r: Vec<
    (Option<String>, u16),
>)
    ensures
        r.deep_view() == endpoints(listeners.deep_view(), bind_addresses.deep_view()),
{
    if bind_addresses.len() == 0 {
        let ghost g = |l: ListenerConfigView| (None::<Seq<char>>, l.bound_port());
        let r = map_vec(
            listeners,
            |l: &ListenerConfig| -> (o: (Option<String>, u16))
                ensures
                    o.deep_view() == g(l.deep_view())
                { (None, bound_port_of(l)) },
            Ghost(g),
        );
        assert(r.deep_view() =~= endpoints(listeners.deep_view(), bind_addresses.deep_view()));
        return r;
    }
    let ghost s = listeners.deep_view();
    let ghost h = |a: Seq<char>| s.map_values(|l: ListenerConfigView| (Some(a), l.bound_port()));
    let r = flat_map_vec(
        bind_addresses,
        |a: &String| -> (o: Vec<(Option<String>, u16)>)
            ensures
                o.deep_view() == h(a.deep_view())
            { endpoints_at(a, listeners) },
        Ghost(h),
    );
    r
}

fn endpoints_at(a: &String, listeners: &Vec<ListenerConfig>) -> (r: Vec<(Option<String>, u16)>)
    ensures
        r.deep_view() == listeners.deep_view().map_values(
            |l: ListenerConfigView| (Some(a@), l.bound_port()),
        ),
{
    let ghost g = |l: ListenerConfigView| (Some(a@), l.bound_port());
    map_vec(
        listeners,
        |l: &ListenerConfig| -> (o: (Option<String>, u16))
            ensures
                o.deep_view() == g(l.deep_view())
            { (Some(a.clone()), bound_port_of(l)) },
        Ghost(g),
    )
}

/// The `Programmed` condition by the readiness of the data plane.
pub open spec fn programmed_condition(dp_ready: bool) -> GatewayConditionView {
    if dp_ready {
        GatewayConditionView { ok: true, reason: "Programmed"@, message: "Programmed"@ }
    } else {
        GatewayConditionView {
            ok: false,
            reason: "Invalid"@,
            message: "Data plane not ready: not all listener ports are bound"@,
        }
    }
}

/// The `Programmed` condition: whether the data plane has bound the ports of
/// the listeners.
pub fn compute_programmed_condition(dp_ready: bool) -> (r: GatewayCondition)
    ensures
        r.deep_view() == programmed_condition(dp_ready),
{
    if dp_ready {
        GatewayCondition {
            ok: true,
            reason: "Programmed".to_owned(),
            message: "Programmed".to_owned(),
        }
    } else {
        GatewayCondition {
            ok: false,
            reason: "Invalid".to_owned(),
            message: "Data plane not ready: not all listener ports are bound".to_owned(),
        }
    }
}

/// The `Programmed` condition of a pass that failed, with `what` failed.
pub fn failed_condition(what: &str, error: &str) -> (r: GatewayCondition)
    ensures
        r.deep_view() == (GatewayConditionView {
            ok: false,
            reason: "Invalid"@,
            message: what@ + ": "@ + error@,
        }),
{
    let mut message = what.to_owned();
    message.append(": ");
    message.append(error);
    GatewayCondition { ok: false, reason: "Invalid".to_owned(), message }
}

// ---------------------------------------------------------------------------
// Merging Gateways
// ---------------------------------------------------------------------------

/// The prefix that sets the names of one Gateway apart.
pub open spec fn gateway_prefix(ns: Seq<char>, name: Seq<char>) -> Seq<char> {
    ns + "/"@ + name + "/"@
}

/// The listeners with the prefix before their names.
pub open spec fn prefixed(listeners: Seq<ListenerConfigView>, prefix: Seq<char>) -> Seq<
    ListenerConfigView,
> {
    listeners.map_values(
        |l: ListenerConfigView| ListenerConfigView { name: prefix + l.name, ..l },
    )
}

impl ParentRefView {
    /// The attachment to a listener, if the port of the reference allows it.
    pub open spec fn at_listener(self, l: ListenerConfigView) -> Option<ParentRefView> {
        if self.port is None || l.port == self.port->0 as u16 {
            Some(
                ParentRefView { name: self.name, section_name: Some(l.name), port: self.port },
            )
        } else {
            None
        }
    }

    /// The reference among the prefixed listeners of its own Gateway: to its
    /// section or, where it names none, to every listener that it means.
    pub open spec fn expanded(self, prefix: Seq<char>, listeners: Seq<ListenerConfigView>) -> Seq<
        ParentRefView,
    > {
        match self.section_name {
            Some(s) => seq![ParentRefView { section_name: Some(prefix + s), ..self }],
            None => listeners.filter_map(|l: ListenerConfigView| self.at_listener(l)),
        }
    }
}

/// The references among the prefixed listeners.
pub open spec fn expanded_refs(
    refs: Seq<ParentRefView>,
    prefix: Seq<char>,
    listeners: Seq<ListenerConfigView>,
) -> Seq<ParentRefView> {
    refs.flat_map(|r: ParentRefView| r.expanded(prefix, listeners))
}

/// A configuration whose names are set apart by the identity of its Gateway.
pub open spec fn isolated(ns: Seq<char>, name: Seq<char>, c: PortailConfigView) -> PortailConfigView {
    let prefix = gateway_prefix(ns, name);
    let listeners = prefixed(c.gateway.listeners, prefix);
    PortailConfigView {
        gateway: GatewayConfigView { listeners, ..c.gateway },
        http_routes: c.http_routes.map_values(
            |r: HttpRouteConfigView|
                HttpRouteConfigView {
                    parent_refs: expanded_refs(r.parent_refs, prefix, listeners),
                    ..r
                },
        ),
        tcp_routes: c.tcp_routes.map_values(
            |r: TcpRouteConfigView|
                TcpRouteConfigView {
                    parent_refs: expanded_refs(r.parent_refs, prefix, listeners),
                    ..r
                },
        ),
        tls_routes: c.tls_routes.map_values(
            |r: TlsRouteConfigView|
                TlsRouteConfigView {
                    parent_refs: expanded_refs(r.parent_refs, prefix, listeners),
                    ..r
                },
        ),
        udp_routes: c.udp_routes.map_values(
            |r: UdpRouteConfigView|
                UdpRouteConfigView {
                    parent_refs: expanded_refs(r.parent_refs, prefix, listeners),
                    ..r
                },
        ),
        ..c
    }
}

/// Two configurations put together; the later overrides win.
pub open spec fn combined(a: PortailConfigView, b: PortailConfigView) -> PortailConfigView {
    PortailConfigView {
        gateway: GatewayConfigView {
            name: a.gateway.name,
            listeners: a.gateway.listeners + b.gateway.listeners,
            addresses: a.gateway.addresses + b.gateway.addresses,
        },
        http_routes: a.http_routes + b.http_routes,
        tcp_routes: a.tcp_routes + b.tcp_routes,
        tls_routes: a.tls_routes + b.tls_routes,
        udp_routes: a.udp_routes + b.udp_routes,
        endpoint_overrides: a.endpoint_overrides.union_prefer_right(b.endpoint_overrides),
        app_protocol_overrides: a.app_protocol_overrides.union_prefer_right(
            b.app_protocol_overrides,
        ),
        headless_target_ports: a.headless_target_ports.union_prefer_right(b.headless_target_ports),
    }
}

/// A configuration without content.
pub open spec fn empty_config(name: Seq<char>) -> PortailConfigView {
    PortailConfigView {
        gateway: GatewayConfigView { name, listeners: Seq::empty(), addresses: Seq::empty() },
        http_routes: Seq::empty(),
        tcp_routes: Seq::empty(),
        tls_routes: Seq::empty(),
        udp_routes: Seq::empty(),
        endpoint_overrides: Map::empty(),
        app_protocol_overrides: Map::empty(),
        headless_target_ports: Map::empty(),
    }
}

/// The identity of a Gateway, and its configuration.
pub type GatewayEntryView = ((Seq<char>, Seq<char>), PortailConfigView);

/// The configurations put together in the order given.
pub open spec fn combine_all(entries: Seq<GatewayEntryView>) -> PortailConfigView
    decreases entries.len(),
{
    if entries.len() == 0 {
        empty_config("portail-merged"@)
    } else {
        let ((ns, name), c) = entries.last();
        combined(combine_all(entries.drop_last()), isolated(ns, name, c))
    }
}

/// The list without elements that equal their predecessor.
pub open spec fn deduped(s: Seq<Seq<char>>) -> Seq<Seq<char>>
    decreases s.len(),
{
    if s.len() <= 1 {
        s
    } else if s.last() == s[s.len() - 2] {
        deduped(s.drop_last())
    } else {
        deduped(s.drop_last()).push(s.last())
    }
}

/// A Gateway with its configuration, in the order of namespace and name.
impl Ranked for ((String, String), PortailConfig) {
    open spec fn spec_le(a: GatewayEntryView, b: GatewayEntryView) -> bool {
        identity_le(a.0, b.0)
    }

    fn at_most(&self, other: &Self) -> (r: bool) {
        if str_eq(self.0.0.as_str(), other.0.0.as_str()) {
            str_le(self.0.1.as_str(), other.0.1.as_str())
        } else {
            str_le(self.0.0.as_str(), other.0.0.as_str())
        }
    }
}

/// The order of Gateways by namespace, then name.
pub open spec fn identity_le(a: (Seq<char>, Seq<char>), b: (Seq<char>, Seq<char>)) -> bool {
    if a.0 == b.0 {
        order::text_le(a.1, b.1)
    } else {
        order::text_le(a.0, b.0)
    }
}

/// One configuration for all Gateways.
pub open spec fn merged_config(entries: Seq<GatewayEntryView>) -> PortailConfigView {
    let all = combine_all(order::sort_seq::<((String, String), PortailConfig)>(entries));
    PortailConfigView {
        gateway: GatewayConfigView { addresses: deduped(all.gateway.addresses), ..all.gateway },
        ..all
    }
}

fn prefix_of(ns: &str, name: &str) -> (r: String)
    ensures
        r@ == gateway_prefix(ns@, name@),
{
    let mut s = ns.to_owned();
    s.append("/");
    s.append(name);
    s.append("/");
    s
}

fn join_text(a: &str, b: &str) -> (r: String)
    ensures
        r@ == a@ + b@,
{
    let mut s = a.to_owned();
    s.append(b);
    s
}

fn prefix_listeners(listeners: &Vec<ListenerConfig>, prefix: &str) -> (r: Vec<ListenerConfig>)
    ensures
        r.deep_view() == prefixed(listeners.deep_view(), prefix@),
{
    let ghost g = |l: ListenerConfigView| ListenerConfigView { name: prefix@ + l.name, ..l };
    map_vec(
        listeners,
        |l: &ListenerConfig| -> (o: ListenerConfig)
            ensures
                o.deep_view() == g(l.deep_view())
            {
                let mut c = l.dup();
                c.name = join_text(prefix, l.name.as_str());
                c
            },
        Ghost(g),
    )
}

fn expand_ref(r: &ParentRef, prefix: &str, listeners: &Vec<ListenerConfig>) -> (o: Vec<ParentRef>)
    ensures
        o.deep_view() == r.deep_view().expanded(prefix@, listeners.deep_view()),
{
    match &r.section_name {
        Some(s) => {
            let o = vec![
                ParentRef {
                    name: r.name.clone(),
                    section_name: Some(join_text(prefix, s.as_str())),
                    port: r.port,
                },
            ];
            assert(o.deep_view() =~= r.deep_view().expanded(prefix@, listeners.deep_view()));
            o
        },
        None => {
            let ghost v = r.deep_view();
            let ghost g = |l: ListenerConfigView| v.at_listener(l);
            filter_map_vec(
                listeners,
                |l: &ListenerConfig| -> (o: Option<ParentRef>)
                    ensures
                        o.deep_view() == g(l.deep_view())
                    {
                        let meant = match r.port {
                            None => true,
                            Some(p) => l.port == p as u16,
                        };
                        if meant {
                            Some(
                                ParentRef {
                                    name: r.name.clone(),
                                    section_name: Some(l.name.clone()),
                                    port: r.port,
                                },
                            )
                        } else {
                            None
                        }
                    },
                Ghost(g),
            )
        },
    }
}

fn expand_refs(refs: &Vec<ParentRef>, prefix: &str, listeners: &Vec<ListenerConfig>) -> (o: Vec<
    ParentRef,
>)
    ensures
        o.deep_view() == expanded_refs(refs.deep_view(), prefix@, listeners.deep_view()),
{
    let ghost g = |r: ParentRefView| r.expanded(prefix@, listeners.deep_view());
    flat_map_vec(
        refs,
        |r: &ParentRef| -> (o: Vec<ParentRef>)
            ensures
                o.deep_view() == g(r.deep_view())
            { expand_ref(r, prefix, listeners) },
        Ghost(g),
    )
}

fn isolate(ns: &str, name: &str, c: &PortailConfig) -> (r: PortailConfig)
    ensures
        r.deep_view() == isolated(ns@, name@, c.deep_view()),
{
    let prefix = prefix_of(ns, name);
    let p = prefix.as_str();
    let listeners = prefix_listeners(&c.gateway.listeners, p);
    let ghost pv = p@;
    let ghost lv = listeners.deep_view();
    let ghost want = isolated(ns@, name@, c.deep_view());
    let ghost gh = |r: HttpRouteConfigView|
        HttpRouteConfigView { parent_refs: expanded_refs(r.parent_refs, pv, lv), ..r };
    let http_routes = map_vec(
        &c.http_routes,
        |r: &HttpRouteConfig| -> (o: HttpRouteConfig)
            ensures
                o.deep_view() == gh(r.deep_view())
            {
                HttpRouteConfig {
                    parent_refs: expand_refs(&r.parent_refs, p, &listeners),
                    hostnames: r.hostnames.dup(),
                    rules: r.rules.dup(),
                }
            },
        Ghost(gh),
    );
    let ghost gt = |r: TcpRouteConfigView|
        TcpRouteConfigView { parent_refs: expanded_refs(r.parent_refs, pv, lv), ..r };
    let tcp_routes = map_vec(
        &c.tcp_routes,
        |r: &TcpRouteConfig| -> (o: TcpRouteConfig)
            ensures
                o.deep_view() == gt(r.deep_view())
            {
                TcpRouteConfig {
                    parent_refs: expand_refs(&r.parent_refs, p, &listeners),
                    rules: r.rules.dup(),
                }
            },
        Ghost(gt),
    );
    let ghost gs = |r: TlsRouteConfigView|
        TlsRouteConfigView { parent_refs: expanded_refs(r.parent_refs, pv, lv), ..r };
    let tls_routes = map_vec(
        &c.tls_routes,
        |r: &TlsRouteConfig| -> (o: TlsRouteConfig)
            ensures
                o.deep_view() == gs(r.deep_view())
            {
                TlsRouteConfig {
                    parent_refs: expand_refs(&r.parent_refs, p, &listeners),
                    hostnames: r.hostnames.dup(),
                    rules: r.rules.dup(),
                }
            },
        Ghost(gs),
    );
    let ghost gu = |r: UdpRouteConfigView|
        UdpRouteConfigView { parent_refs: expanded_refs(r.parent_refs, pv, lv), ..r };
    let udp_routes = map_vec(
        &c.udp_routes,
        |r: &UdpRouteConfig| -> (o: UdpRouteConfig)
            ensures
                o.deep_view() == gu(r.deep_view())
            {
                UdpRouteConfig {
                    parent_refs: expand_refs(&r.parent_refs, p, &listeners),
                    rules: r.rules.dup(),
                }
            },
        Ghost(gu),
    );
    proof {
        assert(http_routes.deep_view() =~= want.http_routes);
        assert(tcp_routes.deep_view() =~= want.tcp_routes);
        assert(tls_routes.deep_view() =~= want.tls_routes);
        assert(udp_routes.deep_view() =~= want.udp_routes);
    }
    PortailConfig {
        gateway: GatewayConfig {
            name: c.gateway.name.clone(),
            listeners,
            addresses: c.gateway.addresses.dup(),
        },
        http_routes,
        tcp_routes,
        tls_routes,
        udp_routes,
        endpoint_overrides: c.endpoint_overrides.dup(),
        app_protocol_overrides: c.app_protocol_overrides.dup(),
        headless_target_ports: c.headless_target_ports.dup(),
    }
}

fn append_all<T: DeepView>(a: &mut Vec<T>, b: Vec<T>)
    ensures
        final(a).deep_view() == old(a).deep_view() + b.deep_view(),
{
    let ghost x = a.deep_view();
    let ghost y = b.deep_view();
    let mut b = b;
    a.append(&mut b);
    assert(a.deep_view() =~= x + y);
}

fn combine(a: PortailConfig, b: PortailConfig) -> (r: PortailConfig)
    ensures
        r.deep_view() == combined(a.deep_view(), b.deep_view()),
{
    let mut listeners = a.gateway.listeners;
    append_all(&mut listeners, b.gateway.listeners);
    let mut addresses = a.gateway.addresses;
    append_all(&mut addresses, b.gateway.addresses);
    let mut http_routes = a.http_routes;
    append_all(&mut http_routes, b.http_routes);
    let mut tcp_routes = a.tcp_routes;
    append_all(&mut tcp_routes, b.tcp_routes);
    let mut tls_routes = a.tls_routes;
    append_all(&mut tls_routes, b.tls_routes);
    let mut udp_routes = a.udp_routes;
    append_all(&mut udp_routes, b.udp_routes);
    let mut endpoint_overrides = a.endpoint_overrides;
    endpoint_overrides.extend_from(&b.endpoint_overrides);
    let mut app_protocol_overrides = a.app_protocol_overrides;
    app_protocol_overrides.extend_from(&b.app_protocol_overrides);
    let mut headless_target_ports = a.headless_target_ports;
    headless_target_ports.extend_from(&b.headless_target_ports);
    PortailConfig {
        gateway: GatewayConfig { name: a.gateway.name, listeners, addresses },
        http_routes,
        tcp_routes,
        tls_routes,
        udp_routes,
        endpoint_overrides,
        app_protocol_overrides,
        headless_target_ports,
    }
}

fn new_config(name: &str) -> (r: PortailConfig)
    ensures
        r.deep_view() == empty_config(name@),
{
    let r = PortailConfig {
        gateway: GatewayConfig {
            name: name.to_owned(),
            listeners: Vec::new(),
            addresses: Vec::new(),
        },
        http_routes: Vec::new(),
        tcp_routes: Vec::new(),
        tls_routes: Vec::new(),
        udp_routes: Vec::new(),
        endpoint_overrides: Table::new(),
        app_protocol_overrides: Table::new(),
        headless_target_ports: Table::new(),
    };
    proof {
        let v = r.deep_view();
        let e = empty_config(name@);
        assert(v.gateway.listeners =~= e.gateway.listeners);
        assert(v.gateway.addresses =~= e.gateway.addresses);
        assert(v.http_routes =~= e.http_routes);
        assert(v.tcp_routes =~= e.tcp_routes);
        assert(v.tls_routes =~= e.tls_routes);
        assert(v.udp_routes =~= e.udp_routes);
    }
    r
}

fn dedup_strings(v: &Vec<String>) -> (r: Vec<String>)
    ensures
        r.deep_view() == deduped(v.deep_view()),
{
    let mut out: Vec<String> = Vec::new();
    let ghost s = v.deep_view();
    let mut i: usize = 0;
    assert(out.deep_view() =~= deduped(s.take(0)));
    while i < v.len()
        invariant
            i <= v.len(),
            s == v.deep_view(),
            out.deep_view() == deduped(s.take(i as int)),
        decreases v.len() - i,
    {
        let ghost t = s.take(i + 1);
        let ghost before = out.deep_view();
        proof {
            assert(t.drop_last() =~= s.take(i as int));
            assert(t.last() == v@[i as int]@);
            if i > 0 {
                assert(t[t.len() - 2] == v@[i - 1]@);
            }
        }
        if i == 0 || !str_eq(v[i].as_str(), v[i - 1].as_str()) {
            out.push(v[i].clone());
            proof {
                assert(out.deep_view() =~= before.push(t.last()));
                if i == 0 {
                    assert(deduped(t) =~= t);
                    assert(before =~= Seq::empty());
                    assert(out.deep_view() =~= t);
                }
            }
        }
        i += 1;
    }
    assert(s.take(s.len() as int) =~= s);
    out
}

/// One configuration for all Gateways, for a process that serves every one of
/// them. The names of listeners, and the sections that routes attach to, carry
/// the identity of their Gateway, and a reference without a section is spelled
/// out for the listeners of its own Gateway: no route ever meets a listener of
/// the same name on another one.
pub fn merge_gateway_configs(configs: &Table<(String, String), PortailConfig>) -> (r: PortailConfig)
    ensures
        r.deep_view() == merged_config(configs.entries.deep_view()),
{
    let ordered = sort_vec(configs.entries.dup());
    let ghost s = ordered.deep_view();
    let mut merged = new_config("portail-merged");
    let mut i: usize = 0;
    assert(s.take(0) =~= Seq::empty());
    while i < ordered.len()
        invariant
            i <= ordered.len(),
            s == ordered.deep_view(),
            merged.deep_view() == combine_all(s.take(i as int)),
        decreases ordered.len() - i,
    {
        proof {
            assert(s.take(i + 1).drop_last() =~= s.take(i as int));
            assert(s.take(i + 1).last() == ordered@[i as int].deep_view());
        }
        let e = &ordered[i];
        let own = isolate(e.0.0.as_str(), e.0.1.as_str(), &e.1);
        merged = combine(merged, own);
        i += 1;
    }
    assert(s.take(s.len() as int) =~= s);
    let addresses = dedup_strings(&merged.gateway.addresses);
    merged.gateway.addresses = addresses;
    merged
}

// ---------------------------------------------------------------------------
// Tracking Gateways
// ---------------------------------------------------------------------------

/// The map cut down to the keys in `live`.
pub open spec fn restricted<K, V>(m: Map<K, V>, live: Seq<K>) -> Map<K, V> {
    m.restrict(live.to_set())
}

fn retain_live(
    configs: &Table<(String, String), PortailConfig>,
    live: &Vec<(String, String)>,
) -> (r: Table<(String, String), PortailConfig>)
    requires
        configs.keys_unique(),
    ensures
        r.deep_view() == restricted(configs.deep_view(), live.deep_view()),
        r.keys_unique(),
{
    let mut out: Table<(String, String), PortailConfig> = Table::new();
    let ghost e = configs.entries.deep_view();
    let ghost m = configs.deep_view();
    let ghost l = live.deep_view();
    let mut i: usize = 0;
    proof {
        assert(out.deep_view() =~= restricted(m, l).restrict(table::keys_before(e, 0)));
    }
    while i < configs.entries.len()
        invariant
            i <= configs.entries.len(),
            e == configs.entries.deep_view(),
            m == configs.deep_view(),
            l == live.deep_view(),
            configs.keys_unique(),
            out.keys_unique(),
            out.deep_view() == restricted(m, l).restrict(table::keys_before(e, i as int)),
        decreases configs.entries.len() - i,
    {
        let entry = &configs.entries[i];
        let ghost before = out.deep_view();
        let ghost k = e[i as int].0;
        proof {
            assert(e[i as int] == entry.deep_view());
            table::lemma_entries_first(e, i as int);
            table::lemma_keys_before_step(e, i as int);
            assert(l.contains(k) == l.to_set().contains(k));
        }
        if contains_same(live, &entry.0) {
            out.insert(entry.0.dup(), entry.1.dup());
            proof {
                assert(out.deep_view() =~= restricted(m, l).restrict(
                    table::keys_before(e, i + 1),
                ));
            }
        } else {
            proof {
                assert(before =~= restricted(m, l).restrict(table::keys_before(e, i + 1)));
            }
        }
        i += 1;
    }
    proof {
        assert forall|k: (Seq<char>, Seq<char>)| #[trigger] m.dom().contains(k) implies
            table::keys_before(e, e.len() as int).contains(k) by {
            table::lemma_entries_dom(e, k);
        }
        assert(out.deep_view() =~= restricted(m, l));
    }
    out
}

/// Records the configuration of a Gateway, forgets the Gateways that are no
/// longer live, and gives the configuration that the data plane is to run:
/// that of this Gateway where no other is left, and otherwise all of them
/// merged. Publishing one of several alone would drop the routes of the
/// others.
pub fn track_gateway_config(
    configs: &mut Table<(String, String), PortailConfig>,
    identity: (String, String),
    config: &PortailConfig,
    live: &Vec<(String, String)>,
) -> (effective: PortailConfig)
    requires
        old(configs).keys_unique(),
    ensures
        final(configs).keys_unique(),
        final(configs).deep_view() == restricted(
            old(configs).deep_view().insert(identity.deep_view(), config.deep_view()),
            live.deep_view(),
        ),
        effective.deep_view() == if final(configs).entries@.len() <= 1 {
            config.deep_view()
        } else {
            merged_config(final(configs).entries.deep_view())
        },
{
    configs.insert(identity, config.dup());
    let kept = retain_live(configs, live);
    *configs = kept;
    if configs.entries.len() <= 1 {
        config.dup()
    } else {
        merge_gateway_configs(configs)
    }
}

// ---------------------------------------------------------------------------
// Attached routes
// ---------------------------------------------------------------------------

/// The listeners that accepted references were taken by, one entry for each
/// attachment.
pub open spec fn attachments(route_status: Seq<RouteAcceptanceView>) -> Seq<Seq<char>> {
    route_status.flat_map(
        |r: RouteAcceptanceView|
            if r.accepted {
                r.listener_names
            } else {
                Seq::empty()
            },
    )
}

/// How often `k` occurs.
pub open spec fn occurrences(names: Seq<Seq<char>>, k: Seq<char>) -> nat
    decreases names.len(),
{
    if names.len() == 0 {
        0
    } else {
        occurrences(names.drop_last(), k) + if names.last() == k {
            1nat
        } else {
            0nat
        }
    }
}

/// The number of attachments of each listener; listeners without any are
/// listed with none.
pub open spec fn attachment_counts(listeners: Seq<Seq<char>>, names: Seq<Seq<char>>) -> Map<
    Seq<char>,
    i32,
> {
    Map::new(
        |k: Seq<char>| listeners.contains(k) || names.contains(k),
        |k: Seq<char>| occurrences(names, k) as i32,
    )
}

proof fn lemma_occurrences(names: Seq<Seq<char>>, k: Seq<char>)
    ensures
        occurrences(names, k) <= names.len(),
        occurrences(names, k) > 0 <==> names.contains(k),
    decreases names.len(),
{
    if names.len() > 0 {
        let init = names.drop_last();
        lemma_occurrences(init, k);
        if init.contains(k) {
            let j = choose|j: int| 0 <= j < init.len() && init[j] == k;
            assert(names[j] == k);
        }
        if names.contains(k) {
            let j = choose|j: int| 0 <= j < names.len() && names[j] == k;
            if j < init.len() {
                assert(init[j] == k);
            }
        }
        if names.last() == k {
            assert(names[names.len() - 1] == k);
        }
    }
}

proof fn lemma_occurrences_grow(names: Seq<Seq<char>>, n: int, k: Seq<char>)
    requires
        0 <= n <= names.len(),
    ensures
        occurrences(names.take(n), k) <= occurrences(names, k),
    decreases names.len() - n,
{
    if n == names.len() {
        assert(names.take(n) =~= names);
    } else {
        assert(names.take(n + 1).drop_last() =~= names.take(n));
        lemma_occurrences_grow(names, n + 1, k);
    }
}

fn attached_names(route_status: &Vec<RouteAcceptance>) -> (r: Vec<String>)
    ensures
        r.deep_view() == attachments(route_status.deep_view()),
{
    let ghost g = |r: RouteAcceptanceView|
        if r.accepted {
            r.listener_names
        } else {
            Seq::empty()
        };
    flat_map_vec(
        route_status,
        |r: &RouteAcceptance| -> (o: Vec<String>)
            ensures
                o.deep_view() == g(r.deep_view())
            {
                if r.accepted {
                    r.listener_names.dup()
                } else {
                    let none: Vec<String> = Vec::new();
                    assert(none.deep_view() =~= Seq::<Seq<char>>::empty());
                    none
                }
            },
        Ghost(g),
    )
}

/// The number of routes attached to each listener of a Gateway.
pub fn listener_route_counts(
    listeners: &Vec<GatewayListeners>,
    route_status: &Vec<RouteAcceptance>,
) -> (r: Table<String, i32>)
    requires
        forall|k: Seq<char>| #[trigger]
            occurrences(attachments(route_status.deep_view()), k) <= i32::MAX,
    ensures
        r.deep_view() == attachment_counts(
            listeners.deep_view().map_values(|l: GatewayListenersView| l.name),
            attachments(route_status.deep_view()),
        ),
{
    let names = attached_names(route_status);
    let ghost ns = names.deep_view();
    let ghost ls = listeners.deep_view().map_values(|l: GatewayListenersView| l.name);
    let mut counts: Table<String, i32> = Table::new();
    let ghost none = Seq::<Seq<char>>::empty();
    let mut i: usize = 0;
    proof {
        assert(counts.deep_view() =~= attachment_counts(ls.take(0), none));
    }
    while i < listeners.len()
        invariant
            i <= listeners.len(),
            ls == listeners.deep_view().map_values(|l: GatewayListenersView| l.name),
            none == Seq::<Seq<char>>::empty(),
            counts.deep_view() == attachment_counts(ls.take(i as int), none),
        decreases listeners.len() - i,
    {
        let ghost k = ls[i as int];
        counts.insert(listeners[i].name.clone(), 0);
        proof {
            assert(k == listeners@[i as int].name@);
            lemma_contains_push(ls, i as int);
            assert(counts.deep_view() =~= attachment_counts(ls.take(i + 1), none));
        }
        i += 1;
    }
    assert(ls.take(ls.len() as int) =~= ls);
    let mut j: usize = 0;
    assert(ns.take(0) =~= none);
    while j < names.len()
        invariant
            j <= names.len(),
            ns == names.deep_view(),
            forall|k: Seq<char>| #[trigger] occurrences(ns, k) <= i32::MAX,
            counts.deep_view() == attachment_counts(ls, ns.take(j as int)),
        decreases names.len() - j,
    {
        let ghost k = ns[j as int];
        let ghost before = ns.take(j as int);
        proof {
            assert(k == names@[j as int]@);
            lemma_occurrences(before, k);
            lemma_occurrences_grow(ns, j + 1, k);
            lemma_contains_push(ns, j as int);
            assert(ns.take(j + 1).drop_last() =~= before);
            assert(ns.take(j + 1).last() == k);
        }
        let n: i32 = match counts.get(&names[j]) {
            Some(n) => *n,
            None => 0,
        };
        proof {
            if !counts.deep_view().dom().contains(k) {
                assert(!before.contains(k));
            }
            assert(n == occurrences(before, k));
        }
        counts.insert(names[j].clone(), n + 1);
        proof {
            assert forall|x: Seq<char>| #[trigger] occurrences(ns.take(j + 1), x) == occurrences(
                before,
                x,
            ) + if x == k {
                1nat
            } else {
                0nat
            } by {}
            assert(counts.deep_view() =~= attachment_counts(ls, ns.take(j + 1)));
        }
        j += 1;
    }
    assert(ns.take(ns.len() as int) =~= ns);
    counts
}

proof fn lemma_contains_push(s: Seq<Seq<char>>, i: int)
    requires
        0 <= i < s.len(),
    ensures
        forall|k: Seq<char>| #[trigger]
            s.take(i + 1).contains(k) == (s.take(i).contains(k) || k == s[i]),
{
    assert forall|k: Seq<char>| #[trigger] s.take(i + 1).contains(k) == (s.take(i).contains(k) || k
        == s[i]) by {
        let a = s.take(i + 1);
        let b = s.take(i);
        if a.contains(k) {
            let j = choose|j: int| 0 <= j < a.len() && a[j] == k;
            if j < i {
                assert(b[j] == k);
            }
        }
        if b.contains(k) {
            let j = choose|j: int| 0 <= j < b.len() && b[j] == k;
            assert(a[j] == k);
        }
        assert(a[i] == s[i]);
    }
}

// ---------------------------------------------------------------------------
// Route status
// ---------------------------------------------------------------------------

/// Who writes the status of routes.
pub struct StatusWriter {
    pub controller_name: Seq<char>,
    pub gateway_name: Seq<char>,
    pub gateway_namespace: Seq<char>,
    pub programmed: bool,
}

impl RouteAcceptanceView {
    /// The route that the entry is of: kind, namespace and name.
    pub open spec fn route_key(self) -> (Seq<char>, Seq<char>, Seq<char>) {
        (self.kind, self.namespace, self.name)
    }

    /// The status of the parent reference. Only an accepted route counts as
    /// programmed, and only where the Gateway is.
    pub open spec fn parent_status(self, w: StatusWriter) -> RouteParentStatusView {
        RouteParentStatusView {
            controller_name: w.controller_name,
            gateway_name: w.gateway_name,
            gateway_namespace: w.gateway_namespace,
            section_name: self.section_name,
            port: self.port,
            accepted: self.accepted,
            accepted_reason: self.accepted_reason,
            message: self.message,
            refs_resolved: self.refs_resolved,
            refs_reason: self.refs_reason,
            refs_message: self.refs_message,
            programmed: self.accepted && w.programmed,
            generation: self.generation,
        }
    }
}

/// Kind, namespace and name of a route.
pub type RouteKeyView = (Seq<char>, Seq<char>, Seq<char>);

/// The order of routes by kind, then namespace, then name.
pub open spec fn route_le(a: RouteKeyView, b: RouteKeyView) -> bool {
    if a.0 != b.0 {
        order::text_le(a.0, b.0)
    } else if a.1 != b.1 {
        order::text_le(a.1, b.1)
    } else {
        order::text_le(a.2, b.2)
    }
}

/// Whether each route comes before those behind it, and none comes twice.
pub open spec fn routes_ascend(entries: Seq<(RouteKeyView, Seq<RouteParentStatusView>)>) -> bool {
    forall|i: int, j: int|
        #![trigger entries[i], entries[j]]
        0 <= i < j < entries.len() ==> entries[i].0 != entries[j].0 && route_le(
            entries[i].0,
            entries[j].0,
        )
}

/// A route with its status entries, in the order of routes.
impl Ranked for ((String, String, String), Vec<RouteParentStatus>) {
    open spec fn spec_le(
        a: (RouteKeyView, Seq<RouteParentStatusView>),
        b: (RouteKeyView, Seq<RouteParentStatusView>),
    ) -> bool {
        route_le(a.0, b.0)
    }

    fn at_most(&self, other: &Self) -> (r: bool) {
        if !str_eq(self.0.0.as_str(), other.0.0.as_str()) {
            str_le(self.0.0.as_str(), other.0.0.as_str())
        } else if !str_eq(self.0.1.as_str(), other.0.1.as_str()) {
            str_le(self.0.1.as_str(), other.0.1.as_str())
        } else {
            str_le(self.0.2.as_str(), other.0.2.as_str())
        }
    }
}

/// Sorted entries of different routes ascend and denote the same map.
proof fn lemma_sorted_routes(entries: Seq<(RouteKeyView, Seq<RouteParentStatusView>)>)
    requires
        forall|i: int, j: int|
            #![trigger entries[i], entries[j]]
            0 <= i < j < entries.len() ==> entries[i].0 != entries[j].0,
    ensures
        ({
            let sorted = order::sort_seq::<((String, String, String), Vec<RouteParentStatus>)>(
                entries,
            );
            &&& routes_ascend(sorted)
            &&& table::entries_map(sorted) == table::entries_map(entries)
        }),
{
    let le = |
        a: (RouteKeyView, Seq<RouteParentStatusView>),
        b: (RouteKeyView, Seq<RouteParentStatusView>),
    | <((String, String, String), Vec<RouteParentStatus>)>::spec_le(a, b);
    let t = |a: Seq<char>, b: Seq<char>| order::text_le(a, b);
    order::lemma_text_le_total_ordering();
    assert forall|
        a: (RouteKeyView, Seq<RouteParentStatusView>),
        b: (RouteKeyView, Seq<RouteParentStatusView>),
        c: (RouteKeyView, Seq<RouteParentStatusView>),
    | #[trigger] le(a, b) && #[trigger] le(b, c) implies le(a, c) by {
        let (x, y, z) = (a.0, b.0, c.0);
        assert(t(x.0, y.0) && t(y.0, z.0) ==> t(x.0, z.0));
        assert(t(x.1, y.1) && t(y.1, z.1) ==> t(x.1, z.1));
        assert(t(x.2, y.2) && t(y.2, z.2) ==> t(x.2, z.2));
        assert(t(x.0, y.0) && t(y.0, x.0) ==> x.0 == y.0);
        assert(t(x.1, y.1) && t(y.1, x.1) ==> x.1 == y.1);
    }
    assert forall|
        a: (RouteKeyView, Seq<RouteParentStatusView>),
        b: (RouteKeyView, Seq<RouteParentStatusView>),
    | #[trigger] le(a, b) || #[trigger] le(b, a) by {
        let (x, y) = (a.0, b.0);
        assert(t(x.0, y.0) || t(y.0, x.0));
        assert(t(x.1, y.1) || t(y.1, x.1));
        assert(t(x.2, y.2) || t(y.2, x.2));
    }
    let sorted = order::sort_seq::<((String, String, String), Vec<RouteParentStatus>)>(entries);
    order::lemma_sort_sorted::<((String, String, String), Vec<RouteParentStatus>)>(entries);
    order::lemma_sort_multiset::<((String, String, String), Vec<RouteParentStatus>)>(entries);
    table::lemma_entries_permuted(entries, sorted);
    assert forall|i: int, j: int|
        #![trigger sorted[i], sorted[j]]
        0 <= i < j < sorted.len() implies sorted[i].0 != sorted[j].0 && route_le(
        sorted[i].0,
        sorted[j].0,
    ) by {
        assert(le(sorted[i], sorted[j]));
    }
}

/// The status of each route, with an entry for each of its parent references:
/// the list is written as a whole, so all entries of a route go together. The
/// routes stand in the order in which they are written.
pub fn group_route_status(
    route_status: &Vec<RouteAcceptance>,
    controller_name: &str,
    gateway_name: &str,
    gateway_namespace: &str,
    programmed: bool,
) -> (r: Table<(String, String, String), Vec<RouteParentStatus>>)
    ensures
        r.deep_view() == table::group_all(
            route_status.deep_view().map_values(
                |ra: RouteAcceptanceView|
                    (
                        ra.route_key(),
                        ra.parent_status(
                            StatusWriter {
                                controller_name: controller_name@,
                                gateway_name: gateway_name@,
                                gateway_namespace: gateway_namespace@,
                                programmed,
                            },
                        ),
                    ),
            ),
        ),
        r.keys_unique(),
        routes_ascend(r.entries.deep_view()),
{
    let ghost w = StatusWriter {
        controller_name: controller_name@,
        gateway_name: gateway_name@,
        gateway_namespace: gateway_namespace@,
        programmed,
    };
    let ghost g = |ra: RouteAcceptanceView| (ra.route_key(), ra.parent_status(w));
    let entries = map_vec(
        route_status,
        |ra: &RouteAcceptance| -> (o: ((String, String, String), RouteParentStatus))
            ensures
                o.deep_view() == g(ra.deep_view())
            {
                (
                    (ra.kind.to_owned(), ra.namespace.clone(), ra.name.clone()),
                    RouteParentStatus {
                        controller_name: controller_name.to_owned(),
                        gateway_name: gateway_name.to_owned(),
                        gateway_namespace: gateway_namespace.to_owned(),
                        section_name: ra.section_name.dup(),
                        port: ra.port,
                        accepted: ra.accepted,
                        accepted_reason: ra.accepted_reason.to_owned(),
                        message: ra.message.clone(),
                        refs_resolved: ra.refs_resolved,
                        refs_reason: ra.refs_reason.to_owned(),
                        refs_message: ra.refs_message.clone(),
                        programmed: ra.accepted && programmed,
                        generation: ra.generation,
                    },
                )
            },
        Ghost(g),
    );
    proof {
        assert(route_status.deep_view().map_values(g) =~= route_status.deep_view().map_values(
            |ra: RouteAcceptanceView|
                (
                    ra.route_key(),
                    ra.parent_status(
                        StatusWriter {
                            controller_name: controller_name@,
                            gateway_name: gateway_name@,
                            gateway_namespace: gateway_namespace@,
                            programmed,
                        },
                    ),
                ),
        ));
    }
    let grouped = group_of(&entries);
    proof {
        lemma_sorted_routes(grouped.entries.deep_view());
    }
    Table { entries: sort_vec(grouped.entries) }
}

// ---------------------------------------------------------------------------
// The course of a pass
// ---------------------------------------------------------------------------

/// Whether every reference is accepted.
pub open spec fn all_accepted(route_status: Seq<RouteAcceptanceView>) -> bool {
    forall|i: int| 0 <= i < route_status.len() ==> (#[trigger] route_status[i]).accepted
}

/// Whether every reference is accepted.
pub fn all_routes_accepted(route_status: &Vec<RouteAcceptance>) -> (r: bool)
    ensures
        r == all_accepted(route_status.deep_view()),
{
    let ghost s = route_status.deep_view();
    let mut i: usize = 0;
    while i < route_status.len()
        invariant
            i <= route_status.len(),
            s == route_status.deep_view(),
            forall|j: int| 0 <= j < i ==> (#[trigger] s[j]).accepted,
        decreases route_status.len() - i,
    {
        assert(s[i as int] == route_status@[i as int].deep_view());
        if !route_status[i].accepted {
            return false;
        }
        i += 1;
    }
    true
}

/// The seconds to wait after a failed status write.
pub const STATUS_RETRY_SECS: u64 = 10;

/// The seconds to wait after a pass that failed.
pub const ERROR_RETRY_SECS: u64 = 30;

/// What a pass leaves behind: the fingerprint of what is applied, if all of it
/// is, and the seconds until the next pass.
#[derive(Clone, Copy, Debug, PartialEq, Eq, Structural)]
pub struct PassOutcome {
    pub last_applied: Option<u64>,
    pub requeue_secs: u64,
}

/// Whether a pass with this fingerprint would apply what is applied by now.
pub open spec fn unchanged(last_applied: Option<u64>, fingerprint: u64) -> bool {
    last_applied == Some(fingerprint)
}

/// What is applied after a pass: all of it, where the route table was swapped in
/// and every status write went through; else nothing that counts.
pub open spec fn applied_after(statuses_ok: bool, swapped: bool, fingerprint: u64) -> Option<u64> {
    if statuses_ok && swapped {
        Some(fingerprint)
    } else {
        None
    }
}

/// The outcome of a pass that finds its fingerprint among what is applied:
/// nothing is rebuilt or written. No outcome means that the pass has to go on.
pub fn skip_unchanged(
    last_applied: Option<u64>,
    fingerprint: u64,
    dp_ready: bool,
    all_routes_accepted: bool,
) -> (r: Option<PassOutcome>)
    ensures
        r is Some <==> unchanged(last_applied, fingerprint),
        r is Some ==> r->0 == (PassOutcome {
            last_applied,
            requeue_secs: if dp_ready && all_routes_accepted {
                600
            } else {
                60
            },
        }),
{
    match last_applied {
        Some(f) => {
            if f == fingerprint {
                Some(
                    PassOutcome {
                        last_applied,
                        requeue_secs: skip_requeue_secs(dp_ready, all_routes_accepted),
                    },
                )
            } else {
                None
            }
        },
        None => None,
    }
}

/// The outcome of a pass that came to its end. Where the route table could not
/// be built and swapped in, or a status write failed, what was applied is
/// forgotten, so that the next pass does all of it again.
pub fn finish_pass(
    statuses_ok: bool,
    swapped: bool,
    fingerprint: u64,
    programmed: bool,
    all_routes_accepted: bool,
) -> (r: PassOutcome)
    ensures
        r == (PassOutcome {
            last_applied: applied_after(statuses_ok, swapped, fingerprint),
            requeue_secs: if !statuses_ok {
                STATUS_RETRY_SECS
            } else if programmed && all_routes_accepted {
                600
            } else {
                5
            },
        }),
{
    if !statuses_ok {
        return PassOutcome { last_applied: None, requeue_secs: STATUS_RETRY_SECS };
    }
    PassOutcome {
        last_applied: if swapped {
            Some(fingerprint)
        } else {
            None
        },
        requeue_secs: success_requeue_secs(programmed, all_routes_accepted),
    }
}

// ---------------------------------------------------------------------------
// Laws
// ---------------------------------------------------------------------------

/// A pass that went through is not repeated while nothing changes; one whose
/// route table was not swapped in, or whose status writes failed, is not taken
/// for done, whatever comes next.
pub proof fn law_applied_once(statuses_ok: bool, swapped: bool, fingerprint: u64, next: u64)
    ensures
        unchanged(applied_after(statuses_ok, swapped, fingerprint), next) <==> statuses_ok
            && swapped && next == fingerprint,
{
}

/// Every listener has to be bound before its Gateway counts as programmed: on
/// the port that is bound for it, at each of the addresses.
pub proof fn law_every_listener_is_required(
    listeners: Seq<ListenerConfigView>,
    addresses: Seq<Seq<char>>,
    i: int,
    j: int,
)
    requires
        0 <= i < listeners.len(),
        addresses.len() > 0 ==> 0 <= j < addresses.len(),
    ensures
        endpoints(listeners, addresses).contains(
            (
                if addresses.len() == 0 {
                    None
                } else {
                    Some(addresses[j])
                },
                listeners[i].bound_port(),
            ),
        ),
{
    let all = endpoints(listeners, addresses);
    if addresses.len() == 0 {
        assert(all[i] == (None::<Seq<char>>, listeners[i].bound_port()));
    } else {
        let f = |a: Seq<char>|
            listeners.map_values(|l: ListenerConfigView| (Some(a), l.bound_port()));
        let x = (Some(addresses[j]), listeners[i].bound_port());
        assert(f(addresses[j])[i] == x);
        lists::lemma_flat_map_contains(addresses, f, j, x);
    }
}

/// Whether a text starts with `prefix`.
pub open spec fn starts_with(s: Seq<char>, prefix: Seq<char>) -> bool {
    s.len() >= prefix.len() && s.take(prefix.len() as int) == prefix
}

/// Names with the prefixes of two Gateways are equal only where the Gateways
/// are. Kubernetes allows no slash in either part of the identity.
pub proof fn law_prefixes_set_gateways_apart(
    ns1: Seq<char>,
    name1: Seq<char>,
    ns2: Seq<char>,
    name2: Seq<char>,
    x: Seq<char>,
)
    requires
        !ns1.contains('/') && !name1.contains('/') && !ns2.contains('/') && !name2.contains('/'),
        starts_with(x, gateway_prefix(ns1, name1)),
        starts_with(x, gateway_prefix(ns2, name2)),
    ensures
        ns1 == ns2 && name1 == name2,
{
    reveal_strlit("/");
    lemma_slash_split(x, ns1, name1);
    lemma_slash_split(x, ns2, name2);
    let p1 = gateway_prefix(ns1, name1);
    let p2 = gateway_prefix(ns2, name2);
    if ns1.len() < ns2.len() {
        assert(ns2[ns1.len() as int] == x[ns1.len() as int]);
        assert(ns2.contains('/'));
    }
    if ns2.len() < ns1.len() {
        assert(ns1[ns2.len() as int] == x[ns2.len() as int]);
        assert(ns1.contains('/'));
    }
    assert(ns1 =~= ns2);
    let k = ns1.len() + 1;
    if name1.len() < name2.len() {
        assert(name2[name1.len() as int] == x[(k + name1.len()) as int]);
        assert(name2.contains('/'));
    }
    if name2.len() < name1.len() {
        assert(name1[name2.len() as int] == x[(k + name2.len()) as int]);
        assert(name1.contains('/'));
    }
    assert(name1 =~= name2);
}

proof fn lemma_slash_split(x: Seq<char>, ns: Seq<char>, name: Seq<char>)
    requires
        starts_with(x, gateway_prefix(ns, name)),
    ensures
        x.len() >= ns.len() + name.len() + 2,
        forall|i: int| 0 <= i < ns.len() ==> x[i] == ns[i],
        x[ns.len() as int] == '/',
        forall|i: int| 0 <= i < name.len() ==> x[ns.len() + 1 + i] == name[i],
        x[(ns.len() + 1 + name.len()) as int] == '/',
{
    reveal_strlit("/");
    let p = gateway_prefix(ns, name);
    assert(p.len() == ns.len() + name.len() + 2);
    assert forall|i: int| 0 <= i < p.len() implies x[i] == #[trigger] p[i] by {
        assert(x.take(p.len() as int)[i] == p[i]);
    }
    assert forall|i: int| 0 <= i < ns.len() implies x[i] == ns[i] by {
        assert(p[i] == ns[i]);
    }
    assert(p[ns.len() as int] == '/');
    assert forall|i: int| 0 <= i < name.len() implies x[ns.len() + 1 + i] == name[i] by {
        assert(p[ns.len() + 1 + i] == name[i]);
    }
    assert(p[(ns.len() + 1 + name.len()) as int] == '/');
}

/// In the merged configuration a listener carries the prefix of its Gateway,
/// and a reference names a section with that prefix: whatever it named before,
/// it can meet no listener of another Gateway.
pub proof fn law_references_stay_in_their_gateway(
    ns: Seq<char>,
    name: Seq<char>,
    listeners: Seq<ListenerConfigView>,
    refs: Seq<ParentRefView>,
)
    ensures
        ({
            let p = gateway_prefix(ns, name);
            let own = prefixed(listeners, p);
            &&& forall|i: int| 0 <= i < own.len() ==> starts_with((#[trigger] own[i]).name, p)
            &&& forall|i: int|
                0 <= i < expanded_refs(refs, p, own).len() ==> {
                    let r = #[trigger] expanded_refs(refs, p, own)[i];
                    r.section_name is Some && starts_with(r.section_name->0, p)
                }
        }),
    decreases refs.len(),
{
    let p = gateway_prefix(ns, name);
    let own = prefixed(listeners, p);
    assert forall|i: int| 0 <= i < own.len() implies starts_with((#[trigger] own[i]).name, p) by {
        assert(own[i].name == p + listeners[i].name);
        assert(own[i].name.take(p.len() as int) =~= p);
    }
    let f = |r: ParentRefView| r.expanded(p, own);
    if refs.len() == 0 {
        reveal_with_fuel(Seq::flatten, 2);
        assert(refs.map_values(f) =~= Seq::empty());
        assert(refs.flat_map(f) =~= Seq::empty());
    } else {
        let init = refs.drop_last();
        let last = refs.last();
        law_references_stay_in_their_gateway(ns, name, listeners, init);
        init.lemma_flat_map_push(f, last);
        assert(init.push(last) =~= refs);
        let a = expanded_refs(init, p, own);
        let b = last.expanded(p, own);
        assert(expanded_refs(refs, p, own) =~= a + b);
        lemma_expanded_prefix(last, p, own);
        assert forall|i: int| 0 <= i < expanded_refs(refs, p, own).len() implies {
            let r = #[trigger] expanded_refs(refs, p, own)[i];
            r.section_name is Some && starts_with(r.section_name->0, p)
        } by {
            if i < a.len() {
                assert(expanded_refs(refs, p, own)[i] == a[i]);
            } else {
                assert(expanded_refs(refs, p, own)[i] == b[i - a.len()]);
            }
        }
    }
}

proof fn lemma_expanded_prefix(r: ParentRefView, p: Seq<char>, own: Seq<ListenerConfigView>)
    requires
        forall|i: int| 0 <= i < own.len() ==> starts_with((#[trigger] own[i]).name, p),
    ensures
        forall|i: int|
            0 <= i < r.expanded(p, own).len() ==> {
                let x = #[trigger] r.expanded(p, own)[i];
                x.section_name is Some && starts_with(x.section_name->0, p)
            },
    decreases own.len(),
{
    match r.section_name {
        Some(s) => {
            assert((p + s).take(p.len() as int) =~= p);
        },
        None => {
            if own.len() > 0 {
                let init = own.drop_last();
                assert forall|i: int| 0 <= i < init.len() implies starts_with(
                    (#[trigger] init[i]).name,
                    p,
                ) by {
                    assert(starts_with(own[i].name, p));
                }
                lemma_expanded_prefix(r, p, init);
                let a = r.expanded(p, init);
                assert(starts_with(own[own.len() - 1].name, p));
                assert forall|i: int| 0 <= i < r.expanded(p, own).len() implies {
                    let x = #[trigger] r.expanded(p, own)[i];
                    x.section_name is Some && starts_with(x.section_name->0, p)
                } by {
                    if i < a.len() {
                        assert(r.expanded(p, own)[i] == a[i]);
                    } else {
                        assert(r.expanded(p, own)[i] == r.at_listener(own.last())->0);
                    }
                }
            }
        },
    }
}

proof fn lemma_combined_contains(entries: Seq<GatewayEntryView>, i: int)
    requires
        0 <= i < entries.len(),
    ensures
        ({
            let all = combine_all(entries);
            let own = isolated(entries[i].0.0, entries[i].0.1, entries[i].1);
            &&& forall|x: ListenerConfigView|
                own.gateway.listeners.contains(x) ==> all.gateway.listeners.contains(x)
            &&& forall|x: HttpRouteConfigView|
                own.http_routes.contains(x) ==> all.http_routes.contains(x)
            &&& forall|x: TcpRouteConfigView|
                own.tcp_routes.contains(x) ==> all.tcp_routes.contains(x)
            &&& forall|x: TlsRouteConfigView|
                own.tls_routes.contains(x) ==> all.tls_routes.contains(x)
            &&& forall|x: UdpRouteConfigView|
                own.udp_routes.contains(x) ==> all.udp_routes.contains(x)
        }),
    decreases entries.len(),
{
    let n = entries.len() - 1;
    let init = entries.drop_last();
    let a = combine_all(init);
    let b = isolated(entries[n].0.0, entries[n].0.1, entries[n].1);
    assert(combine_all(entries) == combined(a, b));
    lemma_contains_concat(a.gateway.listeners, b.gateway.listeners);
    lemma_contains_concat(a.http_routes, b.http_routes);
    lemma_contains_concat(a.tcp_routes, b.tcp_routes);
    lemma_contains_concat(a.tls_routes, b.tls_routes);
    lemma_contains_concat(a.udp_routes, b.udp_routes);
    if i < n {
        assert(init[i] == entries[i]);
        lemma_combined_contains(init, i);
    }
}

proof fn lemma_contains_concat<A>(a: Seq<A>, b: Seq<A>)
    ensures
        forall|x: A| a.contains(x) ==> #[trigger] (a + b).contains(x),
        forall|x: A| b.contains(x) ==> #[trigger] (a + b).contains(x),
{
    assert forall|x: A| a.contains(x) implies #[trigger] (a + b).contains(x) by {
        let i = choose|i: int| 0 <= i < a.len() && a[i] == x;
        assert((a + b)[i] == x);
    }
    assert forall|x: A| b.contains(x) implies #[trigger] (a + b).contains(x) by {
        let i = choose|i: int| 0 <= i < b.len() && b[i] == x;
        assert((a + b)[a.len() + i] == x);
    }
}

/// Every listener and every route of every Gateway is in the merged
/// configuration, under the names of its Gateway.
pub proof fn law_merge_keeps_every_gateway(entries: Seq<GatewayEntryView>, e: GatewayEntryView)
    requires
        entries.contains(e),
    ensures
        ({
            let all = merged_config(entries);
            let own = isolated(e.0.0, e.0.1, e.1);
            &&& forall|x: ListenerConfigView|
                own.gateway.listeners.contains(x) ==> all.gateway.listeners.contains(x)
            &&& forall|x: HttpRouteConfigView|
                own.http_routes.contains(x) ==> all.http_routes.contains(x)
            &&& forall|x: TcpRouteConfigView|
                own.tcp_routes.contains(x) ==> all.tcp_routes.contains(x)
            &&& forall|x: TlsRouteConfigView|
                own.tls_routes.contains(x) ==> all.tls_routes.contains(x)
            &&& forall|x: UdpRouteConfigView|
                own.udp_routes.contains(x) ==> all.udp_routes.contains(x)
        }),
{
    broadcast use group_to_multiset_ensures;

    let sorted = order::sort_seq::<((String, String), PortailConfig)>(entries);
    order::lemma_sort_multiset::<((String, String), PortailConfig)>(entries);
    assert(entries.to_multiset().count(e) > 0);
    assert(sorted.contains(e));
    let i = choose|i: int| 0 <= i < sorted.len() && sorted[i] == e;
    lemma_combined_contains(sorted, i);
}

proof fn lemma_identity_order()
    ensures
        transitive(
            |a: GatewayEntryView, b: GatewayEntryView|
                <((String, String), PortailConfig) as Ranked>::spec_le(a, b),
        ),
        strongly_connected(
            |a: GatewayEntryView, b: GatewayEntryView|
                <((String, String), PortailConfig) as Ranked>::spec_le(a, b),
        ),
        forall|a: GatewayEntryView, b: GatewayEntryView|
            #![trigger identity_le(a.0, b.0)]
            identity_le(a.0, b.0) && identity_le(b.0, a.0) ==> a.0 == b.0,
{
    order::lemma_text_le_total_ordering();
    let t = |a: Seq<char>, b: Seq<char>| order::text_le(a, b);
    let le = |a: GatewayEntryView, b: GatewayEntryView|
        <((String, String), PortailConfig) as Ranked>::spec_le(a, b);
    assert forall|a: GatewayEntryView, b: GatewayEntryView, c: GatewayEntryView| #[trigger]
        le(a, b) && #[trigger] le(b, c) implies le(a, c) by {
        assert(t(a.0.0, b.0.0) || a.0.0 == b.0.0);
        assert(t(b.0.0, c.0.0) || b.0.0 == c.0.0);
        if a.0.0 == b.0.0 && b.0.0 == c.0.0 {
            assert(t(a.0.1, b.0.1) && t(b.0.1, c.0.1));
            assert(t(a.0.1, c.0.1));
        } else if a.0.0 == c.0.0 {
            assert(t(a.0.0, b.0.0) && t(b.0.0, a.0.0));
        } else if a.0.0 != b.0.0 && b.0.0 != c.0.0 {
            assert(t(a.0.0, c.0.0));
        }
    }
    assert forall|a: GatewayEntryView, b: GatewayEntryView| #[trigger] le(a, b) || #[trigger] le(
        b,
        a,
    ) by {
        assert(t(a.0.0, b.0.0) || t(b.0.0, a.0.0));
        assert(t(a.0.1, b.0.1) || t(b.0.1, a.0.1));
    }
    assert forall|a: GatewayEntryView, b: GatewayEntryView|
        #![trigger identity_le(a.0, b.0)]
        identity_le(a.0, b.0) && identity_le(b.0, a.0) implies a.0 == b.0 by {
        if a.0.0 == b.0.0 {
            assert(t(a.0.1, b.0.1) && t(b.0.1, a.0.1));
        } else {
            assert(t(a.0.0, b.0.0) && t(b.0.0, a.0.0));
        }
    }
}

/// The merged configuration depends on which Gateways there are, and not on
/// the order that they come in.
pub proof fn law_merge_ignores_order(a: Seq<GatewayEntryView>, b: Seq<GatewayEntryView>)
    requires
        a.to_multiset() == b.to_multiset(),
        forall|i: int, j: int|
            #![trigger a[i], a[j]]
            0 <= i < a.len() && 0 <= j < a.len() && a[i].0 == a[j].0 ==> a[i] == a[j],
    ensures
        merged_config(a) == merged_config(b),
{
    broadcast use group_to_multiset_ensures;

    let le = |x: GatewayEntryView, y: GatewayEntryView|
        <((String, String), PortailConfig) as Ranked>::spec_le(x, y);
    let x = order::sort_seq::<((String, String), PortailConfig)>(a);
    let y = order::sort_seq::<((String, String), PortailConfig)>(b);
    lemma_identity_order();
    order::lemma_sort_sorted::<((String, String), PortailConfig)>(a);
    order::lemma_sort_sorted::<((String, String), PortailConfig)>(b);
    order::lemma_sort_multiset::<((String, String), PortailConfig)>(a);
    order::lemma_sort_multiset::<((String, String), PortailConfig)>(b);
    assert forall|i: int, j: int|
        #![trigger x[i], x[j]]
        0 <= i < x.len() && 0 <= j < x.len() && le(x[i], x[j]) && le(x[j], x[i]) implies x[i]
        == x[j] by {
        assert(identity_le(x[i].0, x[j].0) && identity_le(x[j].0, x[i].0));
        assert(x.contains(x[i]) && x.contains(x[j]));
        assert(x.to_multiset().count(x[i]) > 0 && x.to_multiset().count(x[j]) > 0);
        assert(a.contains(x[i]) && a.contains(x[j]));
        let k = choose|k: int| 0 <= k < a.len() && a[k] == x[i];
        let l = choose|l: int| 0 <= l < a.len() && a[l] == x[j];
        assert(a[k].0 == a[l].0);
    }
    order::lemma_sorted_lists_equal(x, y, le);
}

/// A listener is bound on its target port, else on its own.
pub proof fn law_bound_ports(l: ListenerConfigView, p: u16)
    ensures
        (ListenerConfigView { target_port: Some(p), ..l }).bound_port() == p,
        (ListenerConfigView { target_port: None, ..l }).bound_port() == l.port,
{
}

/// Endpoints come address by address and, at each address, listener by
/// listener; without addresses there is one for each listener, on all of them.
pub proof fn law_endpoints_one_by_one(
    listeners: Seq<ListenerConfigView>,
    addresses: Seq<Seq<char>>,
    a: Seq<char>,
    i: int,
)
    requires
        0 <= i < listeners.len(),
    ensures
        ({
            let bound = if listeners[i].target_port is Some {
                listeners[i].target_port->0
            } else {
                listeners[i].port
            };
            &&& endpoints(listeners, Seq::empty()).len() == listeners.len()
            &&& endpoints(listeners, Seq::empty())[i] == (None::<Seq<char>>, bound)
            &&& endpoints(listeners, seq![a]).len() == listeners.len()
            &&& endpoints(listeners, seq![a])[i] == (Some(a), bound)
            &&& addresses.len() > 0 ==> endpoints(listeners, addresses.push(a)) == endpoints(
                listeners,
                addresses,
            ) + endpoints(listeners, seq![a])
        }),
{
    let f = |x: Seq<char>|
        listeners.map_values(|l: ListenerConfigView| (Some(x), l.bound_port()));
    let none = Seq::<Seq<char>>::empty();
    addresses.lemma_flat_map_push(f, a);
    none.lemma_flat_map_push(f, a);
    assert(none.push(a) =~= seq![a]);
    assert(none.flat_map(f) =~= Seq::empty());
    assert(Seq::empty() + f(a) =~= f(a));
}

/// Whether the ports are bound decides the `Programmed` condition.
pub proof fn law_programmed_meaning(dp_ready: bool)
    ensures
        programmed_condition(dp_ready).ok == dp_ready,
        dp_ready ==> programmed_condition(dp_ready).reason == "Programmed"@ && programmed_condition(
            dp_ready,
        ).message == "Programmed"@,
        !dp_ready ==> programmed_condition(dp_ready).reason == "Invalid"@ && programmed_condition(
            dp_ready,
        ).message == "Data plane not ready: not all listener ports are bound"@,
{
}

/// Setting the names of a Gateway apart changes the names of its listeners and
/// the references of its routes, and nothing else.
pub proof fn law_isolation_changes_names_only(
    ns: Seq<char>,
    name: Seq<char>,
    c: PortailConfigView,
    i: int,
)
    ensures
        ({
            let r = isolated(ns, name, c);
            let prefix = ns + "/"@ + name + "/"@;
            let own = r.gateway.listeners;
            &&& r.gateway.name == c.gateway.name
            &&& r.gateway.addresses == c.gateway.addresses
            &&& r.endpoint_overrides == c.endpoint_overrides
            &&& r.app_protocol_overrides == c.app_protocol_overrides
            &&& r.headless_target_ports == c.headless_target_ports
            &&& own.len() == c.gateway.listeners.len()
            &&& 0 <= i < own.len() ==> own[i].name == prefix + c.gateway.listeners[i].name && own[i]
                == (ListenerConfigView { name: own[i].name, ..c.gateway.listeners[i] })
            &&& r.http_routes.len() == c.http_routes.len()
            &&& 0 <= i < r.http_routes.len() ==> r.http_routes[i] == (HttpRouteConfigView {
                parent_refs: expanded_refs(c.http_routes[i].parent_refs, prefix, own),
                ..c.http_routes[i]
            })
            &&& r.tcp_routes.len() == c.tcp_routes.len()
            &&& 0 <= i < r.tcp_routes.len() ==> r.tcp_routes[i] == (TcpRouteConfigView {
                parent_refs: expanded_refs(c.tcp_routes[i].parent_refs, prefix, own),
                ..c.tcp_routes[i]
            })
            &&& r.tls_routes.len() == c.tls_routes.len()
            &&& 0 <= i < r.tls_routes.len() ==> r.tls_routes[i] == (TlsRouteConfigView {
                parent_refs: expanded_refs(c.tls_routes[i].parent_refs, prefix, own),
                ..c.tls_routes[i]
            })
            &&& r.udp_routes.len() == c.udp_routes.len()
            &&& 0 <= i < r.udp_routes.len() ==> r.udp_routes[i] == (UdpRouteConfigView {
                parent_refs: expanded_refs(c.udp_routes[i].parent_refs, prefix, own),
                ..c.udp_routes[i]
            })
        }),
{
}

/// References are spelled out one by one. One with a section keeps it, under
/// the prefix; one without goes to each listener on its port, or to all where
/// it names no port.
pub proof fn law_references_are_spelled_out(
    refs: Seq<ParentRefView>,
    r: ParentRefView,
    prefix: Seq<char>,
    listeners: Seq<ListenerConfigView>,
    l: ListenerConfigView,
)
    ensures
        expanded_refs(Seq::empty(), prefix, listeners).len() == 0,
        expanded_refs(refs.push(r), prefix, listeners) == expanded_refs(refs, prefix, listeners)
            + expanded_refs(seq![r], prefix, listeners),
        r.section_name is Some ==> expanded_refs(seq![r], prefix, listeners) == seq![
            ParentRefView {
                name: r.name,
                section_name: Some(prefix + r.section_name->0),
                port: r.port,
            },
        ],
        r.section_name is None ==> expanded_refs(seq![r], prefix, Seq::empty()).len() == 0,
        r.section_name is None && (r.port is None || l.port == r.port->0 as u16) ==> expanded_refs(
            seq![r],
            prefix,
            listeners.push(l),
        ) == expanded_refs(seq![r], prefix, listeners).push(
            ParentRefView { name: r.name, section_name: Some(l.name), port: r.port },
        ),
        r.section_name is None && r.port is Some && l.port != r.port->0 as u16 ==> expanded_refs(
            seq![r],
            prefix,
            listeners.push(l),
        ) == expanded_refs(seq![r], prefix, listeners),
{
    let more = listeners.push(l);
    lemma_one_reference(r, prefix, listeners);
    lemma_one_reference(r, prefix, more);
    lemma_one_reference(r, prefix, Seq::empty());
    let f = |x: ParentRefView| x.expanded(prefix, listeners);
    refs.lemma_flat_map_push(f, r);
    assert(Seq::<ParentRefView>::empty().flat_map(f) =~= Seq::empty());
    let g = |x: ListenerConfigView| r.at_listener(x);
    reveal_with_fuel(Seq::filter_map, 2);
    assert(more.drop_last() =~= listeners);
    assert(more.last() == l);
    assert(Seq::<ListenerConfigView>::empty().filter_map(g) =~= Seq::empty());
}

proof fn lemma_one_reference(
    r: ParentRefView,
    prefix: Seq<char>,
    listeners: Seq<ListenerConfigView>,
)
    ensures
        expanded_refs(seq![r], prefix, listeners) == r.expanded(prefix, listeners),
{
    let f = |x: ParentRefView| x.expanded(prefix, listeners);
    let none = Seq::<ParentRefView>::empty();
    none.lemma_flat_map_push(f, r);
    assert(none.push(r) =~= seq![r]);
    assert(none.flat_map(f) =~= Seq::empty());
    assert(Seq::empty() + f(r) =~= f(r));
}

/// Gateways are put together one by one: the content of one more comes behind
/// what is there, and its overrides win.
pub proof fn law_gateways_are_put_together(entries: Seq<GatewayEntryView>, e: GatewayEntryView)
    ensures
        ({
            let none = combine_all(Seq::empty());
            let a = combine_all(entries);
            let b = isolated(e.0.0, e.0.1, e.1);
            let r = combine_all(entries.push(e));
            &&& none.gateway.name == "portail-merged"@
            &&& none.gateway.listeners.len() == 0 && none.gateway.addresses.len() == 0
            &&& none.http_routes.len() == 0 && none.tcp_routes.len() == 0
            &&& none.tls_routes.len() == 0 && none.udp_routes.len() == 0
            &&& none.endpoint_overrides.dom().is_empty()
            &&& none.app_protocol_overrides.dom().is_empty()
            &&& none.headless_target_ports.dom().is_empty()
            &&& r.gateway.name == a.gateway.name
            &&& r.gateway.listeners == a.gateway.listeners + b.gateway.listeners
            &&& r.gateway.addresses == a.gateway.addresses + b.gateway.addresses
            &&& r.http_routes == a.http_routes + b.http_routes
            &&& r.tcp_routes == a.tcp_routes + b.tcp_routes
            &&& r.tls_routes == a.tls_routes + b.tls_routes
            &&& r.udp_routes == a.udp_routes + b.udp_routes
            &&& r.endpoint_overrides == a.endpoint_overrides.union_prefer_right(
                b.endpoint_overrides,
            )
            &&& r.app_protocol_overrides == a.app_protocol_overrides.union_prefer_right(
                b.app_protocol_overrides,
            )
            &&& r.headless_target_ports == a.headless_target_ports.union_prefer_right(
                b.headless_target_ports,
            )
        }),
{
    let more = entries.push(e);
    assert(more.drop_last() =~= entries);
    assert(more.last() == e);
}

/// The merged configuration is the sorted Gateways put together; only an
/// address that equals the one before it is left out.
pub proof fn law_merged_parts(entries: Seq<GatewayEntryView>)
    ensures
        ({
            let sorted = order::sort_seq::<((String, String), PortailConfig)>(entries);
            let all = combine_all(sorted);
            let r = merged_config(entries);
            &&& r == (PortailConfigView { gateway: r.gateway, ..all })
            &&& r.gateway.name == all.gateway.name
            &&& r.gateway.listeners == all.gateway.listeners
            &&& r.gateway.addresses == deduped(all.gateway.addresses)
        }),
{
}

/// An address that equals the one before it is left out, any other stays.
pub proof fn law_repeated_neighbours_are_dropped(s: Seq<Seq<char>>, x: Seq<char>)
    ensures
        deduped(Seq::empty()).len() == 0,
        deduped(seq![x]) == seq![x],
        s.len() > 0 && s.last() == x ==> deduped(s.push(x)) == deduped(s),
        s.len() > 0 && s.last() != x ==> deduped(s.push(x)) == deduped(s).push(x),
{
    let more = s.push(x);
    assert(more.drop_last() =~= s);
    if s.len() > 0 {
        assert(more[more.len() - 2] == s.last());
    }
}

/// Gateways are ordered by namespace, then name.
pub proof fn law_gateway_order(a: (Seq<char>, Seq<char>), b: (Seq<char>, Seq<char>))
    ensures
        a.0 == b.0 ==> (identity_le(a, b) <==> order::text_le(a.1, b.1)),
        a.0 != b.0 ==> (identity_le(a, b) <==> order::text_le(a.0, b.0)),
{
}

/// Routes are ordered by kind, then namespace, then name.
pub proof fn law_route_order(a: RouteKeyView, b: RouteKeyView)
    ensures
        a.0 != b.0 ==> (route_le(a, b) <==> order::text_le(a.0, b.0)),
        a.0 == b.0 && a.1 != b.1 ==> (route_le(a, b) <==> order::text_le(a.1, b.1)),
        a.0 == b.0 && a.1 == b.1 ==> (route_le(a, b) <==> order::text_le(a.2, b.2)),
{
}

/// Attachments come reference by reference: an accepted one adds the listeners
/// that took it, any other adds nothing.
pub proof fn law_attachments_one_by_one(
    route_status: Seq<RouteAcceptanceView>,
    r: RouteAcceptanceView,
)
    ensures
        attachments(Seq::empty()).len() == 0,
        r.accepted ==> attachments(route_status.push(r)) == attachments(route_status)
            + r.listener_names,
        !r.accepted ==> attachments(route_status.push(r)) == attachments(route_status),
{
    let f = |x: RouteAcceptanceView|
        if x.accepted {
            x.listener_names
        } else {
            Seq::empty()
        };
    route_status.lemma_flat_map_push(f, r);
    assert(Seq::<RouteAcceptanceView>::empty().flat_map(f) =~= Seq::empty());
    assert(attachments(route_status) + Seq::empty() =~= attachments(route_status));
}

/// One more attachment counts at its listener and nowhere else; a listener
/// without any is counted with none, and what is neither is not counted.
pub proof fn law_counts_one_by_one(
    listeners: Seq<Seq<char>>,
    names: Seq<Seq<char>>,
    name: Seq<char>,
    k: Seq<char>,
)
    requires
        names.len() < i32::MAX,
    ensures
        ({
            let before = attachment_counts(listeners, names);
            let after = attachment_counts(listeners, names.push(name));
            &&& before.dom().contains(k) <==> listeners.contains(k) || names.contains(k)
            &&& !names.contains(k) && listeners.contains(k) ==> before[k] == 0
            &&& after.dom().contains(name)
            &&& before.dom().contains(name) ==> after[name] == before[name] + 1
            &&& !before.dom().contains(name) ==> after[name] == 1
            &&& k != name ==> after.dom().contains(k) == before.dom().contains(k)
            &&& k != name && before.dom().contains(k) ==> after[k] == before[k]
        }),
{
    let more = names.push(name);
    assert(more.drop_last() =~= names);
    assert(more.last() == name);
    lemma_occurrences(names, k);
    lemma_occurrences(names, name);
    lemma_occurrences(more, name);
    assert(more[names.len() as int] == name);
    if names.contains(k) {
        let i = choose|i: int| 0 <= i < names.len() && names[i] == k;
        assert(more[i] == k);
    }
    if more.contains(k) && k != name {
        let i = choose|i: int| 0 <= i < more.len() && more[i] == k;
        assert(names[i] == k);
    }
}

/// What is written for a reference is what was found of it; it is programmed
/// where it is accepted and the Gateway is programmed.
pub proof fn law_parent_status_meaning(r: RouteAcceptanceView, w: StatusWriter)
    ensures
        ({
            let p = r.parent_status(w);
            &&& p.controller_name == w.controller_name
            &&& p.gateway_name == w.gateway_name
            &&& p.gateway_namespace == w.gateway_namespace
            &&& p.section_name == r.section_name
            &&& p.port == r.port
            &&& p.accepted == r.accepted
            &&& p.accepted_reason == r.accepted_reason
            &&& p.message == r.message
            &&& p.refs_resolved == r.refs_resolved
            &&& p.refs_reason == r.refs_reason
            &&& p.refs_message == r.refs_message
            &&& p.programmed <==> r.accepted && w.programmed
            &&& p.generation == r.generation
        }),
        r.route_key() == (r.kind, r.namespace, r.name),
{
}

/// Gateways that are no longer live are forgotten, the others stay as they
/// are.
pub proof fn law_only_live_gateways_stay<K, V>(m: Map<K, V>, live: Seq<K>, k: K)
    ensures
        restricted(m, live).dom().contains(k) <==> m.dom().contains(k) && live.contains(k),
        m.dom().contains(k) && live.contains(k) ==> restricted(m, live)[k] == m[k],
{
}

/// All are accepted where none is, and one more keeps it so where it is
/// accepted itself.
pub proof fn law_all_accepted_one_by_one(
    route_status: Seq<RouteAcceptanceView>,
    r: RouteAcceptanceView,
)
    ensures
        all_accepted(Seq::empty()),
        all_accepted(route_status.push(r)) <==> all_accepted(route_status) && r.accepted,
{
    let more = route_status.push(r);
    assert(more[route_status.len() as int] == r);
    if all_accepted(more) {
        assert forall|i: int| 0 <= i < route_status.len() implies (
        #[trigger] route_status[i]).accepted by {
            assert(more[i].accepted);
        }
    }
}

/// When the next pass comes: soon after a failed write or while something is
/// not in place, and late once everything is. A pass that is skipped waits
/// longer than one that has to be looked after.
pub proof fn law_next_pass(
    statuses_ok: bool,
    swapped: bool,
    fingerprint: u64,
    ready: bool,
    accepted: bool,
    done: PassOutcome,
    skipped: Option<PassOutcome>,
)
    requires
        call_ensures(finish_pass, (statuses_ok, swapped, fingerprint, ready, accepted), done),
        call_ensures(skip_unchanged, (done.last_applied, fingerprint, ready, accepted), skipped),
    ensures
        !statuses_ok ==> done.requeue_secs == 10,
        statuses_ok && ready && accepted ==> done.requeue_secs == 600,
        statuses_ok && !(ready && accepted) ==> done.requeue_secs == 5,
        skipped is Some <==> statuses_ok && swapped,
        skipped is Some && ready && accepted ==> skipped->0.requeue_secs == 600,
        skipped is Some && !(ready && accepted) ==> skipped->0.requeue_secs == 60,
        skipped is Some ==> skipped->0.last_applied == Some(fingerprint),
{
}

} // verus!
