//! What routing needs to know about Services beyond their name.
use crate::dup::Dup;
use crate::kubernetes::converters;
use crate::kubernetes::converters::service_dns_name;
use crate::kubernetes::resources::{
    EndpointPort, EndpointPortView, EndpointSlice, EndpointSliceView, IntOrString, IntOrStringView,
    Service, ServicePort, ServicePortView, ServiceSpecView, ServiceView,
};
use crate::lists;
use crate::lists::{filter_map_vec, flat_map_vec, map_vec};
use crate::table;
use crate::table::{group_of, table_of, Table};
use crate::text;
use crate::text::{opt_is, opt_or};
use vstd::prelude::*;

verus! {

/// The Services of the cluster, as routing sees them.
#[derive(Clone, Debug, Default, PartialEq, Eq)]
pub struct ServiceState {
    /// The (name, namespace) of every Service.
    pub known_services: Vec<(String, String)>,
    /// Where an ExternalName Service is to be reached.
    pub endpoint_overrides: Table<(String, u16), Vec<(String, u16)>>,
    /// The application protocol of a Service port.
    pub app_protocol_overrides: Table<(String, u16), String>,
    /// The target port of a port of a headless Service.
    pub headless_target_ports: Table<(String, u16), u16>,
}

/// What a [`ServiceState`] denotes.
#[verifier::ext_equal]
pub struct ServiceStateView {
    pub known_services: Seq<(Seq<char>, Seq<char>)>,
    pub endpoint_overrides: Map<(Seq<char>, u16), Seq<(Seq<char>, u16)>>,
    pub app_protocol_overrides: Map<(Seq<char>, u16), Seq<char>>,
    pub headless_target_ports: Map<(Seq<char>, u16), u16>,
}

impl DeepView for ServiceState {
    type V = ServiceStateView;

    open spec fn deep_view(&self) -> ServiceStateView {
        ServiceStateView {
            known_services: self.known_services.deep_view(),
            endpoint_overrides: self.endpoint_overrides.deep_view(),
            app_protocol_overrides: self.app_protocol_overrides.deep_view(),
            headless_target_ports: self.headless_target_ports.deep_view(),
        }
    }
}

/// A port of a headless Service whose target port is given by name, to be
/// looked up in the endpoints of the Service.
#[derive(Clone, Debug, Default, PartialEq, Eq)]
pub struct NamedTargetPortReq {
    pub ns: String,
    pub svc: String,
    pub service_port: u16,
    pub port_name: String,
}

/// What a [`NamedTargetPortReq`] denotes.
#[verifier::ext_equal]
pub struct NamedTargetPortReqView {
    pub ns: Seq<char>,
    pub svc: Seq<char>,
    pub service_port: u16,
    pub port_name: Seq<char>,
}

impl DeepView for NamedTargetPortReq {
    type V = NamedTargetPortReqView;

    open spec fn deep_view(&self) -> NamedTargetPortReqView {
        NamedTargetPortReqView {
            ns: self.ns.deep_view(),
            svc: self.svc.deep_view(),
            service_port: self.service_port.deep_view(),
            port_name: self.port_name.deep_view(),
        }
    }
}

impl ServiceView {
    /// The name and namespace of the Service, if it has a name.
    pub open spec fn key(self) -> Option<(Seq<char>, Seq<char>)> {
        match self.metadata.name {
            Some(name) => Some((name, text::or_text(self.metadata.namespace, "default"@))),
            None => None,
        }
    }

    /// The name under which the data plane looks the Service up.
    pub open spec fn fqdn(self) -> Seq<char>
        recommends
            self.key() is Some,
    {
        converters::dns_name(self.metadata.name->0, text::or_text(self.metadata.namespace, "default"@))
    }
}

impl ServiceSpecView {
    /// The ports of the Service.
    pub open spec fn port_list(self) -> Seq<ServicePortView> {
        match self.ports {
            Some(p) => p,
            None => Seq::empty(),
        }
    }

    /// Whether the Service has no virtual address, so that the data plane
    /// connects to its pods.
    pub open spec fn headless(self) -> bool {
        self.cluster_ip == Some("None"@)
    }

    /// The name outside the cluster that the Service stands for, if any.
    pub open spec fn external(self) -> Option<Seq<char>> {
        match self.external_name {
            Some(n) => if self.type_ == Some("ExternalName"@) && n.len() > 0 {
                Some(n)
            } else {
                None
            },
            None => None,
        }
    }
}

impl ServicePortView {
    /// The port to connect to behind a headless Service: the numeric target,
    /// and otherwise the Service's own port.
    pub open spec fn headless_target(self) -> u16 {
        match self.target_port {
            Some(IntOrStringView::Int(t)) => t as u16,
            _ => self.port as u16,
        }
    }

    /// The look-up that a named target port of the Service calls for.
    pub open spec fn named_target(self, name: Seq<char>, ns: Seq<char>) -> Option<
        NamedTargetPortReqView,
    > {
        match self.target_port {
            Some(IntOrStringView::String(port_name)) => Some(
                NamedTargetPortReqView {
                    ns,
                    svc: name,
                    service_port: self.port as u16,
                    port_name,
                },
            ),
            _ => None,
        }
    }
}

/// The target port of each port of a headless Service.
pub open spec fn headless_entries(svc: ServiceView) -> Seq<((Seq<char>, u16), u16)> {
    match (svc.key(), svc.spec) {
        (Some(key), Some(spec)) => if spec.headless() {
            spec.port_list().map_values(
                |sp: ServicePortView| ((svc.fqdn(), sp.port as u16), sp.headless_target()),
            )
        } else {
            Seq::empty()
        },
        _ => Seq::empty(),
    }
}

/// The look-ups that the named target ports of a headless Service call for.
pub open spec fn named_requests(svc: ServiceView) -> Seq<NamedTargetPortReqView> {
    match (svc.key(), svc.spec) {
        (Some((name, ns)), Some(spec)) => if spec.headless() {
            spec.port_list().filter_map(|sp: ServicePortView| sp.named_target(name, ns))
        } else {
            Seq::empty()
        },
        _ => Seq::empty(),
    }
}

/// Where each port of an ExternalName Service is to be reached.
pub open spec fn external_entries(svc: ServiceView) -> Seq<((Seq<char>, u16), (Seq<char>, u16))> {
    match (svc.key(), svc.spec) {
        (Some(key), Some(spec)) => match spec.external() {
            Some(external) => spec.port_list().map_values(
                |sp: ServicePortView| ((svc.fqdn(), sp.port as u16), (external, sp.port as u16)),
            ),
            None => Seq::empty(),
        },
        _ => Seq::empty(),
    }
}

/// The application protocol of each port of a Service that names one.
pub open spec fn protocol_entries(svc: ServiceView) -> Seq<((Seq<char>, u16), Seq<char>)> {
    match (svc.key(), svc.spec) {
        (Some(key), Some(spec)) => spec.port_list().filter_map(
            |sp: ServicePortView|
                match sp.app_protocol {
                    Some(p) => Some(((svc.fqdn(), sp.port as u16), p)),
                    None => None,
                },
        ),
        _ => Seq::empty(),
    }
}

/// What routing needs to know of the Services.
pub open spec fn service_state(services: Seq<ServiceView>) -> ServiceStateView {
    ServiceStateView {
        known_services: services.filter_map(|s: ServiceView| s.key()),
        endpoint_overrides: table::group_all(
            services.flat_map(|s: ServiceView| external_entries(s)),
        ),
        app_protocol_overrides: table::insert_all(
            services.flat_map(|s: ServiceView| protocol_entries(s)),
        ),
        headless_target_ports: table::insert_all(
            services.flat_map(|s: ServiceView| headless_entries(s)),
        ),
    }
}

fn service_key(svc: &Service) -> (r: Option<(String, String)>)
    ensures
        r.deep_view() == svc.deep_view().key(),
{
    match &svc.metadata.name {
        Some(name) => Some(
            (name.clone(), opt_or(&svc.metadata.namespace, "default").to_owned()),
        ),
        None => None,
    }
}

fn service_fqdn(name: &String, svc: &Service) -> (r: String)
    requires
        svc.metadata.name == Some(*name),
    ensures
        r@ == svc.deep_view().fqdn(),
{
    service_dns_name(name.as_str(), opt_or(&svc.metadata.namespace, "default"))
}

fn headless_ports_of(svc: &Service) -> (r: Vec<((String, u16), u16)>)
    ensures
        r.deep_view() == headless_entries(svc.deep_view()),
{
    let ghost v = svc.deep_view();
    if let (Some(name), Some(spec)) = (&svc.metadata.name, &svc.spec) {
        if opt_is(&spec.cluster_ip, "None") {
            if let Some(ports) = &spec.ports {
                let fqdn = service_fqdn(name, svc);
                let ghost g = |sp: ServicePortView|
                    ((v.fqdn(), sp.port as u16), sp.headless_target());
                let r = map_vec(
                    ports,
                    |sp: &ServicePort| -> (o: ((String, u16), u16))
                        ensures
                            o.deep_view() == g(sp.deep_view())
                        {
                            let target: u16 = match &sp.target_port {
                                Some(IntOrString::Int(t)) => *t as u16,
                                _ => sp.port as u16,
                            };
                            ((fqdn.clone(), sp.port as u16), target)
                        },
                    Ghost(g),
                );
                assert(r.deep_view() =~= headless_entries(v));
                return r;
            }
        }
    }
    let none: Vec<((String, u16), u16)> = Vec::new();
    assert(none.deep_view() =~= headless_entries(v));
    none
}

fn named_requests_of(svc: &Service) -> (r: Vec<NamedTargetPortReq>)
    ensures
        r.deep_view() == named_requests(svc.deep_view()),
{
    let ghost v = svc.deep_view();
    if let (Some(name), Some(spec)) = (&svc.metadata.name, &svc.spec) {
        if opt_is(&spec.cluster_ip, "None") {
            if let Some(ports) = &spec.ports {
                let ns = opt_or(&svc.metadata.namespace, "default");
                let ghost g = |sp: ServicePortView| sp.named_target(name@, ns@);
                let r = filter_map_vec(
                    ports,
                    |sp: &ServicePort| -> (o: Option<NamedTargetPortReq>)
                        ensures
                            o.deep_view() == g(sp.deep_view())
                        {
                            match &sp.target_port {
                                Some(IntOrString::String(port_name)) => Some(
                                    NamedTargetPortReq {
                                        ns: ns.to_owned(),
                                        svc: name.clone(),
                                        service_port: sp.port as u16,
                                        port_name: port_name.clone(),
                                    },
                                ),
                                _ => None,
                            }
                        },
                    Ghost(g),
                );
                assert(r.deep_view() == named_requests(v));
                return r;
            }
        }
    }
    let none: Vec<NamedTargetPortReq> = Vec::new();
    assert(none.deep_view() =~= named_requests(v));
    none
}

fn external_targets_of(svc: &Service) -> (r: Vec<((String, u16), (String, u16))>)
    ensures
        r.deep_view() == external_entries(svc.deep_view()),
{
    let ghost v = svc.deep_view();
    if let (Some(name), Some(spec)) = (&svc.metadata.name, &svc.spec) {
        if let (Some(external), Some(ports)) = (&spec.external_name, &spec.ports) {
            if opt_is(&spec.type_, "ExternalName") && !external.as_str().is_empty() {
                let fqdn = service_fqdn(name, svc);
                let ghost g = |sp: ServicePortView|
                    ((v.fqdn(), sp.port as u16), (external@, sp.port as u16));
                let r = map_vec(
                    ports,
                    |sp: &ServicePort| -> (o: ((String, u16), (String, u16)))
                        ensures
                            o.deep_view() == g(sp.deep_view())
                        {
                            (
                                (fqdn.clone(), sp.port as u16),
                                (external.clone(), sp.port as u16),
                            )
                        },
                    Ghost(g),
                );
                assert(r.deep_view() =~= external_entries(v));
                return r;
            }
        }
    }
    let none: Vec<((String, u16), (String, u16))> = Vec::new();
    assert(none.deep_view() =~= external_entries(v));
    none
}

fn protocols_of(svc: &Service) -> (r: Vec<((String, u16), String)>)
    ensures
        r.deep_view() == protocol_entries(svc.deep_view()),
{
    let ghost v = svc.deep_view();
    if let (Some(name), Some(spec)) = (&svc.metadata.name, &svc.spec) {
        if let Some(ports) = &spec.ports {
            let fqdn = service_fqdn(name, svc);
            let ghost g = |sp: ServicePortView|
                match sp.app_protocol {
                    Some(p) => Some(((v.fqdn(), sp.port as u16), p)),
                    None => None,
                };
            let r = filter_map_vec(
                ports,
                |sp: &ServicePort| -> (o: Option<((String, u16), String)>)
                    ensures
                        o.deep_view() == g(sp.deep_view())
                    {
                        match &sp.app_protocol {
                            Some(p) => Some(((fqdn.clone(), sp.port as u16), p.clone())),
                            None => None,
                        }
                    },
                Ghost(g),
            );
            assert(r.deep_view() == protocol_entries(v));
            return r;
        }
    }
    let none: Vec<((String, u16), String)> = Vec::new();
    assert(none.deep_view() =~= protocol_entries(v));
    none
}

/// What routing needs to know of the Services, and the look-ups for the named
/// target ports among them. Until a look-up is answered, the Service's own
/// port stands in for the target.
pub fn resolve_services(all_services: &Vec<Service>) -> (r: (ServiceState, Vec<NamedTargetPortReq>))
    ensures
        r.0.deep_view() == service_state(all_services.deep_view()),
        r.1.deep_view() == all_services.deep_view().flat_map(|s: ServiceView| named_requests(s)),
{
    let known_services = filter_map_vec(
        all_services,
        service_key,
        Ghost(|s: ServiceView| s.key()),
    );
    let external = flat_map_vec(
        all_services,
        external_targets_of,
        Ghost(|s: ServiceView| external_entries(s)),
    );
    let protocols = flat_map_vec(
        all_services,
        protocols_of,
        Ghost(|s: ServiceView| protocol_entries(s)),
    );
    let headless = flat_map_vec(
        all_services,
        headless_ports_of,
        Ghost(|s: ServiceView| headless_entries(s)),
    );
    let requests = flat_map_vec(
        all_services,
        named_requests_of,
        Ghost(|s: ServiceView| named_requests(s)),
    );
    (
        ServiceState {
            known_services,
            endpoint_overrides: group_of(&external),
            app_protocol_overrides: table_of(&protocols),
            headless_target_ports: table_of(&headless),
        },
        requests,
    )
}

/// The ports that the slices publish, in order.
pub open spec fn published_ports(slices: Seq<EndpointSliceView>) -> Seq<EndpointPortView> {
    slices.flat_map(
        |s: EndpointSliceView|
            match s.ports {
                Some(p) => p,
                None => Seq::empty(),
            },
    )
}

/// The number of the first port called `name`.
pub open spec fn port_called(ports: Seq<EndpointPortView>, name: Seq<char>) -> Option<u16>
    decreases ports.len(),
{
    if ports.len() == 0 {
        None
    } else if ports.first().name == Some(name) {
        match ports.first().port {
            Some(p) => Some(p as u16),
            None => None,
        }
    } else {
        port_called(ports.drop_first(), name)
    }
}

fn ports_of_slice(slice: &EndpointSlice) -> (r: Vec<EndpointPort>)
    ensures
        r.deep_view() == match slice.deep_view().ports {
            Some(p) => p,
            None => Seq::empty(),
        },
{
    let r = match &slice.ports {
        Some(p) => map_vec(
            p,
            |x: &EndpointPort| -> (o: EndpointPort)
                ensures
                    o.deep_view() == x.deep_view()
                { EndpointPort { name: x.name.dup(), port: x.port } },
            Ghost(|x: EndpointPortView| x),
        ),
        None => Vec::new(),
    };
    assert(r.deep_view() =~= match slice.deep_view().ports {
        Some(p) => p,
        None => Seq::empty(),
    });
    r
}

/// The number of the port `port_name` in the slices of a Service. All slices
/// of a Service share one port mapping, so the first match counts.
pub fn pick_named_port(slices: &Vec<EndpointSlice>, port_name: &str) -> (r: Option<u16>)
    ensures
        r == port_called(published_ports(slices.deep_view()), port_name@),
{
    let ghost f = |s: EndpointSliceView|
        match s.ports {
            Some(p) => p,
            None => Seq::empty(),
        };
    let ports = flat_map_vec(slices, ports_of_slice, Ghost(f));
    let ghost s = ports.deep_view();
    assert(s == published_ports(slices.deep_view()));
    let mut i: usize = 0;
    assert(s.skip(0) =~= s);
    while i < ports.len()
        invariant
            i <= ports.len(),
            s == ports.deep_view(),
            s == published_ports(slices.deep_view()),
            port_called(s, port_name@) == port_called(s.skip(i as int), port_name@),
        decreases ports.len() - i,
    {
        proof {
            assert(s.skip(i as int).first() == ports@[i as int].deep_view());
            assert(s.skip(i as int).drop_first() =~= s.skip(i + 1));
        }
        if opt_is(&ports[i].name, port_name) {
            return match ports[i].port {
                Some(p) => Some(p as u16),
                None => None,
            };
        }
        i += 1;
    }
    None
}

/// Records the answer to a look-up: the port that the slices publish under the
/// requested name. Where they publish none, what stood in for it stays.
pub fn apply_named_target_port(
    req: &NamedTargetPortReq,
    slices: &Vec<EndpointSlice>,
    out: &mut Table<(String, u16), u16>,
) -> (found: Option<u16>)
    ensures
        found == port_called(published_ports(slices.deep_view()), req.port_name@),
        final(out).deep_view() == match found {
            Some(port) => old(out).deep_view().insert(
                (converters::dns_name(req.svc@, req.ns@), req.service_port),
                port,
            ),
            None => old(out).deep_view(),
        },
{
    let found = pick_named_port(slices, req.port_name.as_str());
    if let Some(port) = found {
        let fqdn = service_dns_name(req.svc.as_str(), req.ns.as_str());
        out.insert((fqdn, req.service_port), port);
    }
    found
}

// ---------------------------------------------------------------------------
// Laws
// ---------------------------------------------------------------------------

/// Every look-up has a stand-in: the port that it is to answer for has a
/// target before it is answered, so that a look-up that fails leaves routing
/// with something to connect to.
pub proof fn law_look_ups_have_stand_ins(services: Seq<ServiceView>, req: NamedTargetPortReqView)
    requires
        services.flat_map(|s: ServiceView| named_requests(s)).contains(req),
    ensures
        service_state(services).headless_target_ports.dom().contains(
            (converters::dns_name(req.svc, req.ns), req.service_port),
        ),
{
    let i = lists::lemma_flat_map_origin(services, |s: ServiceView| named_requests(s), req);
    let svc = services[i];
    let (name, ns) = svc.key()->0;
    let ports = svc.spec->0.port_list();
    let j = lists::lemma_filter_map_origin(
        ports,
        |sp: ServicePortView| sp.named_target(name, ns),
        req,
    );
    let x = headless_entries(svc)[j];
    assert(x.0 == (converters::dns_name(req.svc, req.ns), req.service_port));
    assert(headless_entries(svc).contains(x));
    let f = |s: ServiceView| headless_entries(s);
    lists::lemma_flat_map_contains(services, f, i, x);
    let all = services.flat_map(f);
    table::lemma_insert_all_dom(all, x.0);
    let k = choose|k: int| 0 <= k < all.len() && all[k] == x;
    assert(all[k].0 == x.0);
}

/// Only headless Services have their ports retargeted; the others are reached
/// through a virtual address, on the Service's own port.
pub proof fn law_only_headless_services_are_retargeted(
    services: Seq<ServiceView>,
    name: Seq<char>,
    port: u16,
)
    requires
        service_state(services).headless_target_ports.dom().contains((name, port)),
    ensures
        exists|i: int|
            0 <= i < services.len() && (#[trigger] services[i]).spec is Some
                && services[i].spec->0.headless() && services[i].fqdn() == name,
{
    let f = |s: ServiceView| headless_entries(s);
    let all = services.flat_map(f);
    table::lemma_insert_all_dom(all, (name, port));
    let k = choose|k: int| 0 <= k < all.len() && (#[trigger] all[k]).0 == (name, port);
    let x = all[k];
    assert(all.contains(x));
    let i = lists::lemma_flat_map_origin(services, f, x);
    assert(headless_entries(services[i]).contains(x));
    let j = choose|j: int|
        0 <= j < headless_entries(services[i]).len() && headless_entries(services[i])[j] == x;
    assert(services[i].spec is Some && services[i].spec->0.headless());
    assert(services[i].fqdn() == name);
}

/// The Service with these ports and no others.
pub open spec fn with_ports(svc: ServiceView, ports: Seq<ServicePortView>) -> ServiceView {
    ServiceView {
        spec: match svc.spec {
            Some(spec) => Some(ServiceSpecView { ports: Some(ports), ..spec }),
            None => None,
        },
        ..svc
    }
}

proof fn lemma_entries_add(svc: ServiceView, a: Seq<ServicePortView>, b: Seq<ServicePortView>)
    ensures
        headless_entries(with_ports(svc, a + b)) == headless_entries(with_ports(svc, a))
            + headless_entries(with_ports(svc, b)),
        external_entries(with_ports(svc, a + b)) == external_entries(with_ports(svc, a))
            + external_entries(with_ports(svc, b)),
        protocol_entries(with_ports(svc, a + b)) == protocol_entries(with_ports(svc, a))
            + protocol_entries(with_ports(svc, b)),
        named_requests(with_ports(svc, a + b)) == named_requests(with_ports(svc, a))
            + named_requests(with_ports(svc, b)),
{
    let (x, y, z) = (with_ports(svc, a), with_ports(svc, b), with_ports(svc, a + b));
    assert(headless_entries(z) =~= headless_entries(x) + headless_entries(y));
    assert(external_entries(z) =~= external_entries(x) + external_entries(y));
    match (svc.key(), svc.spec) {
        (Some((name, ns)), Some(spec)) => {
            let f = |sp: ServicePortView|
                match sp.app_protocol {
                    Some(p) => Some(((svc.fqdn(), sp.port as u16), p)),
                    None => None,
                };
            let g = |sp: ServicePortView| sp.named_target(name, ns);
            lists::lemma_filter_map_adds(a, b, f);
            lists::lemma_filter_map_adds(a, b, g);
            assert(x.fqdn() == svc.fqdn() && y.fqdn() == svc.fqdn() && z.fqdn() == svc.fqdn());
            assert(protocol_entries(z) == (a + b).filter_map(f));
            assert(protocol_entries(x) == a.filter_map(f));
            assert(protocol_entries(y) == b.filter_map(f));
            if spec.headless() {
                assert(named_requests(z) == (a + b).filter_map(g));
                assert(named_requests(x) == a.filter_map(g));
                assert(named_requests(y) == b.filter_map(g));
            } else {
                assert(named_requests(z) =~= named_requests(x) + named_requests(y));
            }
        },
        _ => {
            assert(protocol_entries(z) =~= protocol_entries(x) + protocol_entries(y));
            assert(named_requests(z) =~= named_requests(x) + named_requests(y));
        },
    }
}

/// The ports of a Service count one by one: what routing learns of a Service
/// with two lists of ports, it learns of one with the first and then one with
/// the second.
pub proof fn law_ports_count_one_by_one(
    services: Seq<ServiceView>,
    svc: ServiceView,
    a: Seq<ServicePortView>,
    b: Seq<ServicePortView>,
)
    ensures
        ({
            let whole = service_state(services.push(with_ports(svc, a + b)));
            let parts = service_state(
                services.push(with_ports(svc, a)).push(with_ports(svc, b)),
            );
            &&& whole.endpoint_overrides == parts.endpoint_overrides
            &&& whole.app_protocol_overrides == parts.app_protocol_overrides
            &&& whole.headless_target_ports == parts.headless_target_ports
        }),
        named_requests(with_ports(svc, a + b)) == named_requests(with_ports(svc, a))
            + named_requests(with_ports(svc, b)),
{
    let (x, y, z) = (with_ports(svc, a), with_ports(svc, b), with_ports(svc, a + b));
    lemma_entries_add(svc, a, b);
    let e = |s: ServiceView| external_entries(s);
    let p = |s: ServiceView| protocol_entries(s);
    let h = |s: ServiceView| headless_entries(s);
    services.lemma_flat_map_push(e, z);
    services.lemma_flat_map_push(e, x);
    services.push(x).lemma_flat_map_push(e, y);
    services.lemma_flat_map_push(p, z);
    services.lemma_flat_map_push(p, x);
    services.push(x).lemma_flat_map_push(p, y);
    services.lemma_flat_map_push(h, z);
    services.lemma_flat_map_push(h, x);
    services.push(x).lemma_flat_map_push(h, y);
    assert(services.push(z).flat_map(e) =~= services.push(x).push(y).flat_map(e));
    assert(services.push(z).flat_map(p) =~= services.push(x).push(y).flat_map(p));
    assert(services.push(z).flat_map(h) =~= services.push(x).push(y).flat_map(h));
}

/// What one Service with one port says, under the name
/// `{service}.{namespace}.svc` and its own port: a headless one sends to its
/// numeric target port, or to its own port until a named target is looked up;
/// an external one sends to the name outside; and an application protocol
/// counts for that port. A Service is known by its name and namespace; one
/// without a name says nothing.
pub proof fn law_one_port_service(services: Seq<ServiceView>, svc: ServiceView, p: ServicePortView)
    requires
        svc.spec is Some,
        0 <= p.port <= u16::MAX,
    ensures
        ({
            let before = service_state(services);
            let after = service_state(services.push(with_ports(svc, seq![p])));
            let spec = svc.spec->0;
            let ns = match svc.metadata.namespace {
                Some(n) => n,
                None => "default"@,
            };
            let key = (svc.metadata.name->0 + "."@ + ns + ".svc"@, p.port as u16);
            let headless = spec.cluster_ip == Some("None"@);
            let requests = named_requests(with_ports(svc, seq![p]));
            &&& svc.metadata.name is None ==> after == before && requests.len() == 0
            &&& svc.metadata.name matches Some(name) ==> {
                &&& after.known_services == before.known_services.push((name, ns))
                &&& !headless ==> after.headless_target_ports == before.headless_target_ports
                    && requests.len() == 0
                &&& headless && p.target_port is None ==> after.headless_target_ports
                    == before.headless_target_ports.insert(key, p.port as u16) && requests.len()
                    == 0
                &&& headless ==> (p.target_port matches Some(IntOrStringView::Int(t)) ==> 0 <= t
                    <= u16::MAX ==> after.headless_target_ports
                    == before.headless_target_ports.insert(key, t as u16) && requests.len() == 0)
                &&& headless ==> (p.target_port matches Some(IntOrStringView::String(n))
                    ==> after.headless_target_ports == before.headless_target_ports.insert(
                    key,
                    p.port as u16,
                ) && requests == seq![
                    NamedTargetPortReqView {
                        ns,
                        svc: name,
                        service_port: p.port as u16,
                        port_name: n,
                    },
                ])
                &&& p.app_protocol is None ==> after.app_protocol_overrides
                    == before.app_protocol_overrides
                &&& p.app_protocol matches Some(a) ==> after.app_protocol_overrides
                    == before.app_protocol_overrides.insert(key, a)
                &&& !(spec.type_ == Some("ExternalName"@) && spec.external_name is Some
                    && spec.external_name->0.len() > 0) ==> after.endpoint_overrides
                    == before.endpoint_overrides
                &&& spec.type_ == Some("ExternalName"@) && spec.external_name is Some
                    && spec.external_name->0.len() > 0 ==> {
                    let target = (spec.external_name->0, p.port as u16);
                    after.endpoint_overrides == before.endpoint_overrides.insert(
                        key,
                        if before.endpoint_overrides.dom().contains(key) {
                            before.endpoint_overrides[key].push(target)
                        } else {
                            seq![target]
                        },
                    )
                }
            }
        }),
{
    let x = with_ports(svc, seq![p]);
    let e = |s: ServiceView| external_entries(s);
    let q = |s: ServiceView| protocol_entries(s);
    let h = |s: ServiceView| headless_entries(s);
    services.lemma_flat_map_push(e, x);
    services.lemma_flat_map_push(q, x);
    services.lemma_flat_map_push(h, x);
    let ps = x.spec->0.port_list();
    assert(ps =~= seq![p]);
    assert(ps.drop_last() =~= Seq::empty());
    assert(ps.last() == p);
    reveal_with_fuel(Seq::filter_map, 2);
    let k = |s: ServiceView| s.key();
    assert(services.push(x).drop_last() =~= services);
    assert(services.push(x).last() == x);
    assert(service_state(services.push(x)).known_services == services.push(x).filter_map(k));
    assert(service_state(services).known_services == services.filter_map(k));
    assert(x.key() == svc.key());
    let he = headless_entries(x);
    let ee = external_entries(x);
    let pe = protocol_entries(x);
    assert(he.len() <= 1 && ee.len() <= 1 && pe.len() <= 1);
    let (hs, es, qs) = (services.flat_map(h), services.flat_map(e), services.flat_map(q));
    if he.len() == 1 {
        assert(hs + he =~= hs.push(he[0]));
        assert(hs.push(he[0]).drop_last() =~= hs);
    } else {
        assert(hs + he =~= hs);
    }
    if ee.len() == 1 {
        assert(es + ee =~= es.push(ee[0]));
        assert(es.push(ee[0]).drop_last() =~= es);
    } else {
        assert(es + ee =~= es);
    }
    if pe.len() == 1 {
        assert(qs + pe =~= qs.push(pe[0]));
        assert(qs.push(pe[0]).drop_last() =~= qs);
    } else {
        assert(qs + pe =~= qs);
    }
    if svc.key() is Some {
        assert(services.filter_map(k) + seq![x.key()->0] =~= services.filter_map(k).push(
            x.key()->0,
        ));
        let (name, ns) = svc.key()->0;
        let g = |sp: ServicePortView| sp.named_target(name, ns);
        if svc.spec->0.headless() {
            assert(named_requests(x) == ps.filter_map(g));
        }
    } else {
        assert(services.filter_map(k) + Seq::empty() =~= services.filter_map(k));
    }
}

/// A named port is the first that the slices publish under that name.
pub proof fn law_named_ports(
    before: Seq<EndpointPortView>,
    port: EndpointPortView,
    after: Seq<EndpointPortView>,
    name: Seq<char>,
)
    requires
        forall|i: int| 0 <= i < before.len() ==> (#[trigger] before[i]).name != Some(name),
    ensures
        port_called(before, name) is None,
        port.name == Some(name) && port.port is None ==> port_called(
            before + seq![port] + after,
            name,
        ) is None,
        port.name == Some(name) && port.port is Some && 0 <= port.port->0 <= u16::MAX
            ==> port_called(before + seq![port] + after, name) == Some(port.port->0 as u16),
    decreases before.len(),
{
    let all = before + seq![port] + after;
    if before.len() == 0 {
        assert(all.first() == port);
    } else {
        assert(before[0].name != Some(name));
        assert(all.first() == before[0]);
        assert(all.drop_first() =~= before.drop_first() + seq![port] + after);
        assert forall|i: int| 0 <= i < before.drop_first().len() implies (
        #[trigger] before.drop_first()[i]).name != Some(name) by {
            assert(before[i + 1].name != Some(name));
        }
        law_named_ports(before.drop_first(), port, after, name);
    }
}

/// The slices of a Service publish their ports one after another.
pub proof fn law_slices_publish_in_order(slices: Seq<EndpointSliceView>, s: EndpointSliceView)
    ensures
        published_ports(Seq::empty()).len() == 0,
        published_ports(slices.push(s)) == published_ports(slices) + (match s.ports {
            Some(p) => p,
            None => Seq::empty(),
        }),
{
    let f = |s: EndpointSliceView|
        match s.ports {
            Some(p) => p,
            None => Seq::empty(),
        };
    slices.lemma_flat_map_push(f, s);
    assert(published_ports(slices.push(s)) == slices.push(s).flat_map(f));
    assert(published_ports(slices) == slices.flat_map(f));
    assert(Seq::<EndpointSliceView>::empty().map_values(f) =~= Seq::empty());
}

} // verus!
